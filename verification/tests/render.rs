use media_proxy::error::RenderError;
use media_proxy::render::bbcode::{parse as parse_markup, render_bbcode_text, try_render_bbcode_text, Alignment};
use media_proxy::render::bdf::BdfFont;
use media_proxy::render::color::{auto_contrast, named, parse};
use media_proxy::render::fonts::{get, FontSet, FontSize};
use media_proxy::render::wrap::wrap;

/// A stand-in for a Spleen font: every printable ASCII glyph advances `w`
/// pixels and fills its `w` by `h` box, except the space, which is empty.
fn box_font(w: u32, h: u32) -> String {
    let row: u32 = ((1u32 << w) - 1) << (((w + 7) / 8) * 8 - w);
    let hex_width = (((w + 7) / 8) * 2) as usize;
    let mut s = String::new();
    s.push_str("STARTFONT 2.1\n");
    s.push_str(&format!("FONTBOUNDINGBOX {w} {h} 0 -1\n"));
    s.push_str(&format!("CHARS {}\n", 0x7F - 0x20));
    for c in 0x20u32..0x7F {
        s.push_str(&format!("STARTCHAR U+{c:04X}\nENCODING {c}\nDWIDTH {w} 0\nBBX {w} {h} 0 -1\nBITMAP\n"));
        for _ in 0..h {
            let v = if c == 0x20 { 0 } else { row };
            s.push_str(&format!("{:0width$X}\n", v, width = hex_width));
        }
        s.push_str("ENDCHAR\n");
    }
    s.push_str("ENDFONT\n");
    s
}

fn fonts() -> FontSet {
    FontSet::parse(&box_font(5, 8), &box_font(6, 12), &box_font(8, 16))
}

// ---- bdf ----

#[test]
fn parses_minimal_bdf() {
    let bdf = "\
STARTFONT 2.1
FONTBOUNDINGBOX 4 5 0 0
STARTCHAR A
ENCODING 65
DWIDTH 5 0
BBX 4 5 0 0
BITMAP
40
A0
F0
A0
A0
ENDCHAR
ENDFONT
";
    let font = BdfFont::parse(bdf).unwrap();
    let g = font.glyph(65).expect("A");
    assert_eq!(g.dwidth, 5);
    assert_eq!(g.bbx_w, 4);
    assert_eq!(g.bbx_h, 5);
    assert!(!g.pixel(0, 0));
    assert!(g.pixel(1, 0));
    assert!(!g.pixel(2, 0));
    assert!(!g.pixel(3, 0));
    assert!(g.pixel(0, 2));
    assert!(g.pixel(3, 2));
}

#[test]
fn measure_uses_advance_width() {
    let bdf = "\
STARTFONT 2.1
FONTBOUNDINGBOX 5 8 0 0
STARTCHAR A
ENCODING 65
DWIDTH 6 0
BBX 5 8 0 0
BITMAP
00
00
00
00
00
00
00
00
ENDCHAR
ENDFONT
";
    let font = BdfFont::parse(bdf).unwrap();
    assert_eq!(font.measure("AA"), 12);
    assert_eq!(font.measure("AB"), 11);
}

#[test]
fn bdf_bad_field_is_a_parse_error() {
    let bdf = "FONTBOUNDINGBOX 5 x 0 0\n";
    match BdfFont::parse(bdf) {
        Err(RenderError::Parse(m)) => assert_eq!(m, "bdf field \"x\": invalid digit found in string"),
        other => panic!("unexpected {other:?}"),
    }
}

#[test]
fn bdf_overflowing_width_is_reported() {
    let bdf = "STARTCHAR A\nENCODING 65\nDWIDTH 70000 0\n";
    match BdfFont::parse(bdf) {
        Err(RenderError::Parse(m)) => assert_eq!(m, "bdf field \"70000\": number too large to fit in target type"),
        other => panic!("unexpected {other:?}"),
    }
}

#[test]
fn bdf_bad_bitmap_row_is_reported() {
    let bdf = "STARTCHAR A\nENCODING 65\nBBX 8 1 0 0\nBITMAP\nZZ\nENDCHAR\n";
    match BdfFont::parse(bdf) {
        Err(RenderError::Parse(m)) => assert_eq!(m, "bdf bitmap row: invalid digit found in string"),
        other => panic!("unexpected {other:?}"),
    }
}

#[test]
fn bdf_glyph_without_encoding_is_skipped_and_later_glyph_wins() {
    let bdf = "STARTCHAR X\nBBX 8 1 0 0\nBITMAP\nFF\nENDCHAR\n\
STARTCHAR A\nENCODING 65\nDWIDTH 3 0\nENDCHAR\n\
STARTCHAR A2\nENCODING 65\nDWIDTH 4 0\nENDCHAR\n";
    let font = BdfFont::parse(bdf).unwrap();
    assert_eq!(font.glyph(65).unwrap().dwidth, 4);
    assert!(font.glyph(0).is_none());
    // Default box is 8 wide, which is the advance of characters without glyphs.
    assert_eq!(font.advance_for('Z'), 8);
    assert_eq!(font.fbb_w, 8);
    assert_eq!(font.fbb_h, 16);
}

#[test]
fn bdf_bitmap_stops_at_capacity() {
    let bdf = "STARTCHAR A\nENCODING 65\nBBX 8 1 0 0\nBITMAP\nFFAA\n11\nENDCHAR\n";
    let font = BdfFont::parse(bdf).unwrap();
    assert_eq!(font.glyph(65).unwrap().bitmap, vec![0xFF]);
}

// ---- fonts ----

#[test]
fn all_three_spleen_variants_parse() {
    let set = fonts();
    get(&set, FontSize::S5x8).expect("5x8 parses");
    get(&set, FontSize::S6x12).expect("6x12 parses");
    get(&set, FontSize::S8x16).expect("8x16 parses");
}

#[test]
fn ascii_space_glyphs_exist() {
    let set = fonts();
    let f = get(&set, FontSize::S8x16).expect("8x16");
    for c in 0x20u32..0x7F {
        assert!(f.glyph(c).is_some(), "missing glyph U+{c:04X}");
    }
}

#[test]
fn font_size_names() {
    assert_eq!(FontSize::from_str_canon("5x8"), Some(FontSize::S5x8));
    assert_eq!(FontSize::from_str_canon("6x12"), Some(FontSize::S6x12));
    assert_eq!(FontSize::from_str_canon("8x16"), Some(FontSize::S8x16));
    assert_eq!(FontSize::from_str_canon("8X16"), None);
}

#[test]
fn font_that_failed_to_parse_reports_its_error() {
    let set = FontSet::parse("FONTBOUNDINGBOX a b c d\n", &box_font(6, 12), &box_font(8, 16));
    assert!(get(&set, FontSize::S5x8).is_err());
    assert!(get(&set, FontSize::S6x12).is_ok());
}

// ---- wrap ----

#[test]
fn short_text_fits_on_one_line() {
    let set = fonts();
    let font = get(&set, FontSize::S5x8).unwrap();
    let out = wrap("hi", font, 1000);
    assert_eq!(out, vec!["hi".to_string()]);
}

#[test]
fn wraps_on_word_boundary() {
    let set = fonts();
    let font = get(&set, FontSize::S5x8).unwrap();
    let out = wrap("hello world", font, 30);
    assert_eq!(out.len(), 2);
    assert_eq!(out[0], "hello");
    assert_eq!(out[1], "world");
}

#[test]
fn preserves_explicit_newlines() {
    let set = fonts();
    let font = get(&set, FontSize::S5x8).unwrap();
    let out = wrap("a\nb", font, 100);
    assert_eq!(out, vec!["a".to_string(), "b".to_string()]);
}

#[test]
fn wrap_keeps_oversized_words_and_empty_paragraphs() {
    let set = fonts();
    let font = get(&set, FontSize::S5x8).unwrap();
    let out = wrap("abcdefgh ij\n\nk", font, 20);
    assert_eq!(out, vec!["abcdefgh", "ij", "", "k"]);
}

// ---- bbcode ----

#[test]
fn plain_text_renders() {
    let set = fonts();
    let out = render_bbcode_text("hello", 64, 16, [255, 255, 255], [0, 0, 0], &set).unwrap();
    assert_eq!(out.width, 64);
    assert_eq!(out.height, 16);
    assert_eq!(out.rgb888.len(), (64 * 16 * 3) as usize);
    assert!(out.rgb888.chunks_exact(3).any(|p| p == [255, 255, 255]));
}

#[test]
fn bbcode_color_tag_recognized() {
    let set = fonts();
    let out = render_bbcode_text("[red]x[/red]", 16, 16, [255, 255, 255], [0, 0, 0], &set).unwrap();
    assert!(out.rgb888.chunks_exact(3).any(|p| p[0] == 255 && p[1] == 0 && p[2] == 0));
}

#[test]
fn unknown_tag_falls_through_literally() {
    let set = fonts();
    let out = render_bbcode_text("[img]", 64, 16, [255, 255, 255], [0, 0, 0], &set).unwrap();
    assert!(out.rgb888.chunks_exact(3).any(|p| p == [255, 255, 255]));
}

#[test]
fn background_fills_exactly_the_canvas() {
    let set = fonts();
    let out = render_bbcode_text("", 4, 2, [255, 255, 255], [1, 2, 3], &set).unwrap();
    assert_eq!(out.rgb888, [1u8, 2, 3].repeat(8));
    let out = render_bbcode_text("", 4, 0, [255, 255, 255], [1, 2, 3], &set).unwrap();
    assert!(out.rgb888.is_empty());
    let out = render_bbcode_text("", 1, 0, [255, 255, 255], [9, 9, 9], &set).unwrap();
    assert!(out.rgb888.is_empty());
    let out = render_bbcode_text("", 4, 0, [255, 255, 255], [0, 0, 0], &set).unwrap();
    assert!(out.rgb888.is_empty());
}

#[test]
fn right_alignment_and_font_tag() {
    let set = fonts();
    // One 5x8 glyph right-aligned on a 10-pixel canvas covers columns 5..10.
    let out = render_bbcode_text("[right]x", 10, 8, [9, 9, 9], [0, 0, 0], &set).unwrap();
    let px = |x: usize, y: usize| &out.rgb888[(y * 10 + x) * 3..(y * 10 + x) * 3 + 3];
    assert_eq!(px(4, 0), [0, 0, 0]);
    assert_eq!(px(5, 0), [9, 9, 9]);
    assert_eq!(px(9, 7), [9, 9, 9]);
    // An 8x16 line does not fit on an 8-row canvas, so nothing is drawn.
    let out = render_bbcode_text("[font=8x16]x", 10, 8, [9, 9, 9], [0, 0, 0], &set).unwrap();
    assert!(out.rgb888.iter().all(|b| *b == 0));
}

#[test]
fn missing_font_is_an_error() {
    let set = FontSet::parse("FONTBOUNDINGBOX a b c d\n", &box_font(6, 12), &box_font(8, 16));
    assert!(matches!(
        render_bbcode_text("x", 10, 10, [1, 1, 1], [0, 0, 0], &set),
        Err(RenderError::Parse(_))
    ));
}

// ---- color ----

#[test]
fn colors_by_name_and_hex() {
    assert_eq!(named("red"), Some([255, 0, 0]));
    assert_eq!(parse("Red"), Some([255, 0, 0]));
    assert_eq!(parse("#0f0"), Some([0, 255, 0]));
    assert_eq!(parse("##0000ff"), Some([0, 0, 255]));
    assert_eq!(parse("12345"), None);
    assert_eq!(parse("zzzzzz"), None);
}

#[test]
fn contrast_picks_black_on_light_and_white_on_dark() {
    assert_eq!(auto_contrast([255, 255, 255]), [0, 0, 0]);
    assert_eq!(auto_contrast([0, 0, 0]), [255, 255, 255]);
    assert_eq!(auto_contrast([204, 204, 204]), [0, 0, 0]);
}

#[test]
fn markup_color_that_splits_a_character_makes_rendering_refuse() {
    let set = fonts();
    assert!(try_render_bbcode_text("[color=\u{e9}1]x", 16, 16, [255, 255, 255], [0, 0, 0], &set).is_none());
    assert!(try_render_bbcode_text("[\u{e9}1]x", 16, 16, [255, 255, 255], [0, 0, 0], &set).is_none());
    let out = try_render_bbcode_text("[red]x", 16, 16, [255, 255, 255], [0, 0, 0], &set).unwrap().unwrap();
    assert_eq!(out.rgb888, render_bbcode_text("[red]x", 16, 16, [255, 255, 255], [0, 0, 0], &set).unwrap().rgb888);
}

#[test]
fn bitmap_row_that_splits_a_character_makes_parsing_refuse() {
    let text = "FONTBOUNDINGBOX 8 1 0 0\nSTARTCHAR A\nENCODING 65\nDWIDTH 8 0\nBBX 8 1 0 0\nBITMAP\na\u{e9}\nENDCHAR\n";
    assert!(BdfFont::try_parse(text).is_none());
    assert!(FontSet::try_parse(text, &box_font(6, 12), &box_font(8, 16)).is_none());
    assert!(BdfFont::try_parse(&box_font(5, 8)).unwrap().is_ok());
    assert!(FontSet::try_parse(&box_font(5, 8), &box_font(6, 12), &box_font(8, 16)).is_some());
}

#[test]
fn closing_color_shorthand_restores_the_color() {
    let runs = parse_markup(&"[red]x[/red]y".chars().collect::<Vec<char>>(), [255, 255, 255]);
    assert_eq!(runs.len(), 2);
    assert_eq!(runs[0].text, vec!['x']);
    assert_eq!(runs[0].color, [255, 0, 0]);
    assert_eq!(runs[1].text, vec!['y']);
    assert_eq!(runs[1].color, [255, 255, 255]);
    assert!(runs.iter().all(|r| r.font == FontSize::S5x8 && !r.bold && r.align == Alignment::Left));
    let runs = parse_markup(&"[/img]z".chars().collect::<Vec<char>>(), [1, 2, 3]);
    assert_eq!(runs.len(), 1);
    assert_eq!(runs[0].text, "[/img]z".chars().collect::<Vec<char>>());
}

#[test]
fn bounding_box_offset_gives_the_ascent() {
    let font = BdfFont::parse("FONTBOUNDINGBOX 8 16 0 -4\n").unwrap();
    assert_eq!((font.fbb_w, font.fbb_h, font.fbb_y_off), (8, 16, 12));
    assert!(font.glyph(65).is_none());
    let font = BdfFont::parse("STARTFONT 2.1\n").unwrap();
    assert_eq!((font.fbb_w, font.fbb_h, font.fbb_y_off), (8, 16, 16));
}
