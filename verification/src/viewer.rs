//! The receiving side of DDP, for the terminal viewer: reading packet
//! headers, assembling frames, and unpacking RGB565 to RGB888.

use vstd::prelude::*;
use vstd::slice::SliceAdditionalExecFns;

use crate::output::ddp::pixel::q5;
use crate::output::ddp::pixel::q6;
use crate::output::ddp::pixel::rgb565;
use crate::output::ddp::pixel::endian_of;
use crate::output::ddp::pixel::packed_565;
use crate::output::ddp::packet::pixel_cfg;
use crate::output::sink::PixelFormat;

verus! {

/// A 5-bit channel widened to 8 bits by repeating its high bits.
pub open spec fn expand5(x: int) -> int {
    8 * x + x / 4
}

/// A 6-bit channel widened to 8 bits by repeating its high bits.
pub open spec fn expand6(x: int) -> int {
    4 * x + x / 16
}

/// The 16-bit value of pixel `k` of RGB565 data in the given byte order.
pub open spec fn value_565(data: Seq<u8>, k: int, be: bool) -> int {
    if be {
        data[2 * k] * 256 + data[2 * k + 1]
    } else {
        data[2 * k] + data[2 * k + 1] * 256
    }
}

/// Byte `j` of the RGB888 form of RGB565 data: one pixel per complete pair
/// of bytes, each channel widened.
pub open spec fn rgb_from_565(data: Seq<u8>, be: bool, j: int) -> u8 {
    let v = value_565(data, j / 3, be);
    let c = j % 3;
    (if c == 0 {
        expand5(v / 2048)
    } else if c == 1 {
        expand6((v / 32) % 64)
    } else {
        expand5(v % 32)
    }) as u8
}

/// Unpacks RGB565 to RGB888 (see [`rgb_from_565`]); a trailing odd byte is
/// dropped.
pub fn decode_565(data: &[u8], be: bool) -> (out: Vec<u8>)
    ensures
        out@.len() == data@.len() / 2 * 3,
        forall|j: int| 0 <= j < out@.len() ==> #[trigger] out@[j] == rgb_from_565(data@, be, j),
{
    let n = data.len() / 2;
    let mut out: Vec<u8> = Vec::new();
    let mut k: usize = 0;
    let mut p: usize = 0;
    while k < n
        invariant
            n == data@.len() / 2,
            k <= n,
            p == 2 * k,
            out@.len() == 3 * k,
            forall|j: int| 0 <= j < out@.len() ==> #[trigger] out@[j] == rgb_from_565(data@, be, j),
        decreases n - k,
    {
        let hi_first = data[p];
        let second = data[p + 1];
        let v: u16 = if be {
            (hi_first as u16) * 256 + (second as u16)
        } else {
            (hi_first as u16) + (second as u16) * 256
        };
        let r5: u16 = (v >> 11) & 0x1F;
        let g6: u16 = (v >> 5) & 0x3F;
        let b5: u16 = v & 0x1F;
        assert(r5 == v / 2048 && g6 == (v / 32) % 64 && b5 == v % 32) by (bit_vector)
            requires
                r5 == (v >> 11) & 0x1F,
                g6 == (v >> 5) & 0x3F,
                b5 == v & 0x1F,
        ;
        let r: u8 = ((r5 << 3) | (r5 >> 2)) as u8;
        let g: u8 = ((g6 << 2) | (g6 >> 4)) as u8;
        let b: u8 = ((b5 << 3) | (b5 >> 2)) as u8;
        assert(r == 8 * r5 + r5 / 4 && b == 8 * b5 + b5 / 4 && g == 4 * g6 + g6 / 16) by (bit_vector)
            requires
                r5 < 32,
                b5 < 32,
                g6 < 64,
                r == ((r5 << 3) | (r5 >> 2)) as u8,
                g == ((g6 << 2) | (g6 >> 4)) as u8,
                b == ((b5 << 3) | (b5 >> 2)) as u8,
        ;
        let ghost before = out@;
        out.push(r);
        out.push(g);
        out.push(b);
        assert forall|j: int| 0 <= j < out@.len() implies #[trigger] out@[j] == rgb_from_565(data@, be, j) by {
            if j < before.len() {
                assert(out@[j] == before[j]);
            } else {
                assert(j / 3 == k);
            }
        }
        k = k + 1;
        p = p + 2;
    }
    out
}

/// Frame bytes in the sender's pixel format, as RGB888: RGB888 unchanged,
/// RGB565 (either byte order) unpacked, any other format empty.
pub fn decode_to_rgb888(data: &[u8], pixel_cfg: u8) -> (out: Vec<u8>)
    ensures
        pixel_cfg == 0x0B ==> out@ == data@,
        pixel_cfg == 0x61 ==> out@.len() == data@.len() / 2 * 3 && forall|j: int|
            0 <= j < out@.len() ==> #[trigger] out@[j] == rgb_from_565(data@, true, j),
        pixel_cfg == 0x62 ==> out@.len() == data@.len() / 2 * 3 && forall|j: int|
            0 <= j < out@.len() ==> #[trigger] out@[j] == rgb_from_565(data@, false, j),
        pixel_cfg != 0x0B && pixel_cfg != 0x61 && pixel_cfg != 0x62 ==> out@.len() == 0,
{
    if pixel_cfg == 0x0B {
        let mut v: Vec<u8> = Vec::new();
        let mut i: usize = 0;
        while i < data.len()
            invariant
                i <= data@.len(),
                v@ =~= data@.take(i as int),
            decreases data.len() - i,
        {
            v.push(data[i]);
            i = i + 1;
        }
        v
    } else if pixel_cfg == 0x61 {
        decode_565(data, true)
    } else if pixel_cfg == 0x62 {
        decode_565(data, false)
    } else {
        Vec::new()
    }
}

/// Widening a 5- or 6-bit channel and rounding it back gives it again.
pub proof fn lemma_channel_roundtrip(x: u16)
    ensures
        x < 32 ==> q5(expand5(x as int) as u8) == x,
        x < 64 ==> q6(expand6(x as int) as u8) == x,
{
    assert(x < 32 ==> ((8 * x + x / 4) * 62 + 255) / 510 == x) by (bit_vector);
    assert(x < 64 ==> ((4 * x + x / 16) * 126 + 255) / 510 == x) by (bit_vector);
}

/// Unpacking an RGB565 pixel to RGB888 and packing it again gives the same
/// 16-bit value.
pub proof fn lemma_565_roundtrip(v: u16)
    ensures
        rgb565(
            expand5((v / 2048) as int) as u8,
            expand6(((v / 32) % 64) as int) as u8,
            expand5((v % 32) as int) as u8,
        ) == v,
{
    lemma_channel_roundtrip((v / 2048) as u16);
    lemma_channel_roundtrip(((v / 32) % 64) as u16);
    lemma_channel_roundtrip((v % 32) as u16);
}

/// A frame being assembled for one output: its pixel format, its bytes,
/// and when it was last drawn (monotonic nanoseconds).
pub struct FrameBuf {
    pub pixel_cfg: u8,
    pub data: Vec<u8>,
    pub last_render_ns: u64,
}

impl FrameBuf {
    /// A zeroed frame of `capacity` bytes.
    pub fn new(pixel_cfg: u8, capacity: usize, last_render_ns: u64) -> (r: FrameBuf)
        ensures
            r.pixel_cfg == pixel_cfg,
            r.last_render_ns == last_render_ns,
            r.data@ == Seq::new(capacity as nat, |i: int| 0u8),
    {
        let mut data: Vec<u8> = Vec::new();
        let mut i: usize = 0;
        while i < capacity
            invariant
                i <= capacity,
                data@ =~= Seq::new(i as nat, |k: int| 0u8),
            decreases capacity - i,
        {
            data.push(0);
            i = i + 1;
        }
        FrameBuf { pixel_cfg, data, last_render_ns }
    }

    /// Copies a packet's payload to its byte offset, when it fits in the
    /// frame; a payload that would run past the end is dropped.
    pub fn write_payload(&mut self, offset: usize, payload: &[u8])
        ensures
            final(self).pixel_cfg == old(self).pixel_cfg,
            final(self).last_render_ns == old(self).last_render_ns,
            offset + payload@.len() <= old(self).data@.len() ==> final(self).data@ == old(self).data@.take(
                offset as int,
            ) + payload@ + old(self).data@.skip(offset + payload@.len()),
            offset + payload@.len() > old(self).data@.len() ==> final(self).data@ == old(self).data@,
    {
        let len = self.data.len();
        if offset <= len && payload.len() <= len - offset {
            let ghost before = self.data@;
            let mut i: usize = 0;
            while i < payload.len()
                invariant
                    i <= payload@.len(),
                    offset + payload@.len() <= len,
                    len == before.len(),
                    self.data@.len() == len,
                    self.pixel_cfg == old(self).pixel_cfg,
                    self.last_render_ns == old(self).last_render_ns,
                    forall|j: int| 0 <= j < len ==> #[trigger] self.data@[j] == if offset <= j < offset + i {
                        payload@[j - offset]
                    } else {
                        before[j]
                    },
                decreases payload.len() - i,
            {
                self.data.set(offset + i, payload[i]);
                i = i + 1;
            }
            assert(self.data@ =~= before.take(offset as int) + payload@ + before.skip(offset + payload@.len()));
        }
    }
}

/// The least time between two drawings of a frame, in nanoseconds (about
/// 30 frames a second), so the terminal is not saturated.
pub const RENDER_INTERVAL_NS: u64 = 33_000_000;

/// What a received packet led to.
#[derive(Debug, Clone, Copy, PartialEq, Eq, Structural)]
pub enum PacketOutcome {
    /// Too short for a header, or for another output.
    Ignored,
    /// The pixel format is not one the viewer draws; the packet is dropped.
    UnknownFormat(u8),
    /// The payload went into the frame; `render` says whether to draw it.
    Stored { render: bool },
}

/// The big-endian byte offset of a DDP packet.
pub open spec fn ddp_offset(pkt: Seq<u8>) -> int {
    pkt[4] * 0x100_0000 + pkt[5] * 0x1_0000 + pkt[6] * 0x100 + pkt[7]
}

/// The big-endian payload length of a DDP packet.
pub open spec fn ddp_length(pkt: Seq<u8>) -> int {
    pkt[8] * 0x100 + pkt[9]
}

/// The payload: the bytes after the header, as many as the length says and
/// the packet holds.
pub open spec fn ddp_payload(pkt: Seq<u8>) -> Seq<u8> {
    let end = if 10 + ddp_length(pkt) < pkt.len() {
        10 + ddp_length(pkt)
    } else {
        pkt.len() as int
    };
    pkt.subrange(10, end)
}

/// The size of a frame of `w` by `h` pixels in a pixel format the viewer
/// draws: RGB888, or RGB565 in either byte order.
pub open spec fn frame_size(pixel_cfg: u8, w: u32, h: u32) -> Option<nat> {
    if pixel_cfg == 0x0B {
        Some((w * h * 3) as nat)
    } else if pixel_cfg == 0x61 || pixel_cfg == 0x62 {
        Some((w * h * 2) as nat)
    } else {
        None
    }
}

/// `data` with `payload` written at `offset`, when it fits.
pub open spec fn with_payload(data: Seq<u8>, offset: int, payload: Seq<u8>) -> Seq<u8> {
    if offset + payload.len() <= data.len() {
        data.take(offset) + payload + data.skip(offset + payload.len())
    } else {
        data
    }
}

/// The frame being assembled for the viewed output, and the payload bytes
/// received for it.
pub struct ViewerState {
    pub frame: Option<FrameBuf>,
    pub bytes_seen: u64,
}

impl ViewerState {
    pub fn new() -> (r: ViewerState)
        ensures
            r.frame is None,
            r.bytes_seen == 0,
    {
        ViewerState { frame: None, bytes_seen: 0 }
    }

    /// Takes in a received packet for output `filter_out` of a `w` by `h`
    /// stream: packets too short or for other outputs are ignored; the
    /// payload is counted; a packet in an unknown pixel format is dropped;
    /// the frame is started afresh when the format or size changes; the
    /// payload is written at its offset when it fits; and a packet with the
    /// push flag asks for a drawing when the frame was last drawn at least
    /// [`RENDER_INTERVAL_NS`] ago.
    pub fn on_packet(&mut self, pkt: &[u8], filter_out: u8, w: u32, h: u32, now_ns: u64) -> (r: PacketOutcome)
        requires
            w * h * 3 <= u32::MAX,
            old(self).bytes_seen + pkt@.len() <= u64::MAX,
            now_ns >= RENDER_INTERVAL_NS,
        ensures
            pkt@.len() < 10 || pkt@[3] != filter_out ==> {
                &&& r == PacketOutcome::Ignored
                &&& final(self).bytes_seen == old(self).bytes_seen
                &&& final(self).frame == old(self).frame
            },
            pkt@.len() >= 10 && pkt@[3] == filter_out ==> {
                let cfg = pkt@[2];
                &&& final(self).bytes_seen == old(self).bytes_seen + ddp_payload(pkt@).len()
                &&& match frame_size(cfg, w, h) {
                    None => r == PacketOutcome::UnknownFormat(cfg) && final(self).frame == old(self).frame,
                    Some(size) => {
                        let keep = old(self).frame matches Some(f) && f.pixel_cfg == cfg && f.data@.len() == size;
                        let data0 = if keep {
                            old(self).frame->Some_0.data@
                        } else {
                            Seq::new(size, |i: int| 0u8)
                        };
                        let last = if keep {
                            old(self).frame->Some_0.last_render_ns
                        } else {
                            (now_ns - RENDER_INTERVAL_NS) as u64
                        };
                        &&& final(self).frame matches Some(f) && f.pixel_cfg == cfg && f.last_render_ns == last
                            && f.data@ == with_payload(data0, ddp_offset(pkt@), ddp_payload(pkt@))
                        &&& r == PacketOutcome::Stored {
                            render: pkt@[0] & 1 == 1 && now_ns - last >= RENDER_INTERVAL_NS,
                        }
                    },
                }
            },
    {
        let n = pkt.len();
        if n < 10 {
            return PacketOutcome::Ignored;
        }
        let flags = pkt[0];
        let pixel_cfg = pkt[2];
        let out_id = pkt[3];
        if out_id != filter_out {
            return PacketOutcome::Ignored;
        }
        let offset: usize = ((pkt[4] as u32) * 0x100_0000 + (pkt[5] as u32) * 0x1_0000 + (pkt[6] as u32) * 0x100
            + (pkt[7] as u32)) as usize;
        let length: usize = (pkt[8] as usize) * 0x100 + (pkt[9] as usize);
        let push = flags & 1 == 1;
        let end: usize = if 10 + length < n {
            10 + length
        } else {
            n
        };
        let mut payload: Vec<u8> = Vec::new();
        let mut i: usize = 10;
        while i < end
            invariant
                10 <= i <= end,
                end <= n,
                n == pkt@.len(),
                payload@ =~= pkt@.subrange(10, i as int),
            decreases end - i,
        {
            payload.push(pkt[i]);
            i = i + 1;
        }
        assert(payload@ == ddp_payload(pkt@));
        self.bytes_seen = self.bytes_seen + (end - 10) as u64;
        let size: usize = if pixel_cfg == 0x0B {
            (w * h * 3) as usize
        } else if pixel_cfg == 0x61 || pixel_cfg == 0x62 {
            (w * h * 2) as usize
        } else {
            return PacketOutcome::UnknownFormat(pixel_cfg);
        };
        let keep = match &self.frame {
            Some(f) => f.pixel_cfg == pixel_cfg && f.data.len() == size,
            None => false,
        };
        let mut fb = if keep {
            match self.frame.take() {
                Some(f) => f,
                None => FrameBuf::new(pixel_cfg, size, now_ns - RENDER_INTERVAL_NS),
            }
        } else {
            FrameBuf::new(pixel_cfg, size, now_ns - RENDER_INTERVAL_NS)
        };
        fb.write_payload(offset, payload.as_slice());
        let since: u64 = if now_ns >= fb.last_render_ns {
            now_ns - fb.last_render_ns
        } else {
            0
        };
        let render = push && since >= RENDER_INTERVAL_NS;
        self.frame = Some(fb);
        proof {
            assert((flags & 1 == 1) == (flags & 1 == 1));
        }
        PacketOutcome::Stored { render }
    }

    /// The frame to draw, its pixel format and bytes, marking it drawn at
    /// `now_ns`.
    pub fn snapshot(&mut self, now_ns: u64) -> (r: Option<(u8, Vec<u8>)>)
        ensures
            match old(self).frame {
                None => r is None && final(self).frame is None,
                Some(f) => {
                    &&& r matches Some((cfg, data)) && cfg == f.pixel_cfg && data@ == f.data@
                    &&& final(self).frame matches Some(g) && g.pixel_cfg == f.pixel_cfg && g.data@ == f.data@
                        && g.last_render_ns == now_ns
                },
            },
            final(self).bytes_seen == old(self).bytes_seen,
    {
        match &mut self.frame {
            Some(f) => {
                f.last_render_ns = now_ns;
                Some((f.pixel_cfg, f.data.clone()))
            },
            None => None,
        }
    }
}

/// The viewer reads what the sender sent: a frame encoded in a pixel format
/// and sent under that format's configuration byte is RGB888 under 0x0B,
/// unchanged; in either RGB565 format it goes under 0x61 or 0x62, and the
/// viewer's reading of each pixel in the byte order that byte names is the
/// RGB565 value the sender packed for it.
pub proof fn lemma_viewer_reads_sent_format(input: Seq<u8>, format: PixelFormat, frame: Seq<u8>, k: int)
    requires
        match endian_of(format) {
            None => frame == input,
            Some(e) => packed_565(input, e, frame),
        },
    ensures
        format == PixelFormat::Rgb888 ==> pixel_cfg(format) == 0x0B && frame == input,
        format != PixelFormat::Rgb888 ==> pixel_cfg(format) == 0x61 || pixel_cfg(format) == 0x62,
        format != PixelFormat::Rgb888 && 0 <= k < input.len() / 3 ==> value_565(frame, k, pixel_cfg(format) == 0x61)
            == rgb565(input[3 * k], input[3 * k + 1], input[3 * k + 2]),
{
    if format != PixelFormat::Rgb888 && 0 <= k < input.len() / 3 {
        let v = rgb565(input[3 * k], input[3 * k + 1], input[3 * k + 2]);
        assert(frame[2 * k] == frame[2 * k]);
        assert((v / 256) * 256 + v % 256 == v);
    }
}

} // verus!
