# media_proxy

A media proxy for LED displays: it fetches still and animated images,
renders them at a display's size, and streams the frames over DDP (the
Distributed Display Protocol) to the addresses that WebSocket clients ask
for. It also draws placeholder images with BBCode-styled text and exports
animations as PNG frames with an ESPHome configuration.

The library in `src/` is verified with Verus. Its contracts state what each
function returns, over specification functions that describe the result
directly, and the laws the parts obey are proof functions beside them.

- `control/`: the control protocol — request checks and defaults
  (`fields`), error frames (`protocol`), the connection's state machine
  (`ws`), and a session's streams by client key (`session`).
- `output/`: DDP packets and headers, RGB565 packing, the registry that
  gives each display output one stream, packet spreading and pacing, and
  rate meters.
- `image/`: decoding through the `image` crate, gamma tables, palette
  resizing, resizing through `fast_image_resize` (also in linear light),
  compositing on a black canvas, the box blur of the sharpening pass, the
  APNG, WebP and GIF frame readers with the APNG canvas's disposal and
  blending, the frame cache, container sniffing, and ICC conversion
  through Little CMS.
- `render/`: BDF font parsing, glyph drawing, word wrapping and BBCode
  markup rendering.
- `api.rs`, `viewer.rs`, `resolver.rs`, `config.rs`, `platform.rs`: the
  request handling of the HTTP endpoints, the DDP viewer's frame assembly,
  resolver answers, configuration defaults and hardware backend choice.

`app/` is the program around the library: configuration loading, the HTTP
and WebSocket server, the stream tasks and their UDP sockets, the
floating-point stages of the image pipeline (fit size, automatic filter
choice, sharpening gain, frame delays), and the `ddp-view` terminal viewer
subcommand.

The placeholder endpoint reads the Spleen BDF fonts from `assets/fonts`
(or the directory given with `--fonts`).
