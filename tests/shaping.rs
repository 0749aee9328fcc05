use text_shaping::font::{FaceInfo, FontStore, LineMetrics};
use text_shaping::engine::RawGlyph;
use text_shaping::shaping::{shape, tofu_run, Dir, ShapedGlyph};
use text_shaping::style::{
    Case, Decoration, FontFamily, FontStyle, FontVariant, LineKind, NamedFamily, TextNode,
    VerticalFontMetric,
};
use text_shaping::units::resolve;

fn be16(v: &mut Vec<u8>, x: u16) {
    v.extend_from_slice(&x.to_be_bytes());
}

fn be32(v: &mut Vec<u8>, x: u32) {
    v.extend_from_slice(&x.to_be_bytes());
}

/// A minimal TrueType font with 1000 units per em that maps the characters
/// `first..=last` to glyphs 1, 2, ...; glyph `g` advances `500 + 10 * g`.
fn make_font(first: u32, last: u32) -> Vec<u8> {
    let glyphs = (last - first + 2) as u16;
    let mut head = vec![0u8; 54];
    head[0..4].copy_from_slice(&0x0001_0000u32.to_be_bytes());
    head[12..16].copy_from_slice(&0x5F0F_3CF5u32.to_be_bytes());
    head[18..20].copy_from_slice(&1000u16.to_be_bytes());
    let mut hhea = vec![0u8; 36];
    hhea[0..4].copy_from_slice(&0x0001_0000u32.to_be_bytes());
    hhea[4..6].copy_from_slice(&800i16.to_be_bytes());
    hhea[6..8].copy_from_slice(&(-200i16).to_be_bytes());
    hhea[34..36].copy_from_slice(&glyphs.to_be_bytes());
    let mut maxp = Vec::new();
    be32(&mut maxp, 0x0000_5000);
    be16(&mut maxp, glyphs);
    let mut hmtx = Vec::new();
    for g in 0..glyphs {
        be16(&mut hmtx, 500 + 10 * g);
        be16(&mut hmtx, 0);
    }
    let mut cmap = Vec::new();
    be16(&mut cmap, 0);
    be16(&mut cmap, 1);
    be16(&mut cmap, 3);
    be16(&mut cmap, 10);
    be32(&mut cmap, 12);
    be16(&mut cmap, 12);
    be16(&mut cmap, 0);
    be32(&mut cmap, 28);
    be32(&mut cmap, 0);
    be32(&mut cmap, 1);
    be32(&mut cmap, first);
    be32(&mut cmap, last);
    be32(&mut cmap, 1);
    let tables: Vec<(&[u8; 4], Vec<u8>)> =
        vec![(b"cmap", cmap), (b"head", head), (b"hhea", hhea), (b"hmtx", hmtx), (b"maxp", maxp)];
    let mut font = Vec::new();
    be32(&mut font, 0x0001_0000);
    be16(&mut font, tables.len() as u16);
    be16(&mut font, 64);
    be16(&mut font, 2);
    be16(&mut font, 16);
    let mut offset = 12 + 16 * tables.len();
    let mut body = Vec::new();
    for (tag, data) in &tables {
        font.extend_from_slice(&tag[..]);
        be32(&mut font, 0);
        be32(&mut font, offset as u32);
        be32(&mut font, data.len() as u32);
        body.extend_from_slice(data);
        while body.len() % 4 != 0 {
            body.push(0);
        }
        offset = 12 + 16 * tables.len() + body.len();
    }
    font.extend_from_slice(&body);
    font
}

/// A font of the printable ASCII characters.
fn latin() -> Vec<u8> {
    make_font(0x20, 0x7E)
}

/// A font of the one character U+263A.
fn smiley() -> Vec<u8> {
    make_font(0x263A, 0x263A)
}

fn face(family: &str, data: Vec<u8>) -> FaceInfo {
    FaceInfo {
        family: family.to_string(),
        variant: FontVariant { style: FontStyle::Normal, weight: 400, stretch: 1000 },
        data,
        index: 0,
        units_per_em: 1000,
        ascender: 800,
        cap_height: 700,
        x_height: 500,
        descender: -200,
        underline: LineMetrics { position: -100, thickness: 50 },
        strikethrough: LineMetrics { position: 300, thickness: 50 },
        overline: LineMetrics { position: 800, thickness: 50 },
    }
}

fn styles_for(names: &[&str]) -> TextNode {
    let mut styles = TextNode::new();
    styles.fallback = false;
    styles.family = names.iter().map(|n| FontFamily::Named(NamedFamily::new(n))).collect();
    styles
}

#[test]
fn shaping_hi_gives_two_glyphs() {
    let store = FontStore { faces: vec![face("sans", latin())] };
    let styles = styles_for(&["sans"]);
    let text = shape(&store, "Hi", &styles, Dir::LTR);
    assert_eq!(text.glyphs.len(), 2);
    assert_eq!(text.glyphs[0].text_index, 0);
    assert_eq!(text.glyphs[1].text_index, 1);
    assert!(text.glyphs[1].safe_to_break);
    assert!(text.glyphs.iter().all(|g| g.glyph_id != 0 && g.face_id == 0));
    let width: i128 = text.glyphs.iter().map(|g| resolve(g.x_advance, styles.size)).sum();
    assert_eq!(text.size.width, width);
    assert!(width > 0);
}

#[test]
fn missing_codepoint_falls_back() {
    let store = FontStore { faces: vec![face("math", latin()), face("sans", smiley())] };
    let styles = styles_for(&["math", "sans"]);
    let text = shape(&store, "☺", &styles, Dir::LTR);
    assert_eq!(text.glyphs.len(), 1);
    assert_eq!(text.glyphs[0].face_id, 1);
    assert_ne!(text.glyphs[0].glyph_id, 0);
}

#[test]
fn tofu_stays_when_no_family_maps() {
    let store = FontStore { faces: vec![face("math", latin())] };
    let styles = styles_for(&["math"]);
    let text = shape(&store, "a☺b", &styles, Dir::LTR);
    assert_eq!(text.glyphs.len(), 3);
    assert_eq!(text.glyphs[1].glyph_id, 0);
    assert_eq!(text.glyphs[1].face_id, 0);
    assert_eq!(text.glyphs[2].text_index, 4);
}

#[test]
fn fallback_reshapes_only_the_tofu_run() {
    let store = FontStore { faces: vec![face("math", latin()), face("sans", smiley())] };
    let styles = styles_for(&["math", "sans"]);
    let text = shape(&store, "a☺b", &styles, Dir::LTR);
    let faces: Vec<usize> = text.glyphs.iter().map(|g| g.face_id).collect();
    let indices: Vec<usize> = text.glyphs.iter().map(|g| g.text_index).collect();
    assert_eq!(faces, vec![0, 1, 0]);
    assert_eq!(indices, vec![0, 1, 4]);
}

#[test]
fn right_to_left_glyphs_are_reversed() {
    let store = FontStore { faces: vec![face("sans", latin())] };
    let styles = styles_for(&["sans"]);
    let text = shape(&store, "ab", &styles, Dir::RTL);
    let indices: Vec<usize> = text.glyphs.iter().map(|g| g.text_index).collect();
    assert_eq!(indices, vec![1, 0]);
}

#[test]
fn newlines_are_not_shaped() {
    let store = FontStore { faces: vec![face("sans", latin())] };
    let styles = styles_for(&["sans"]);
    let text = shape(&store, "\n\n", &styles, Dir::LTR);
    assert!(text.glyphs.is_empty());
}

#[test]
fn empty_text_takes_metrics_of_first_face() {
    let store = FontStore { faces: vec![face("sans", Vec::new())] };
    let styles = styles_for(&["missing", "sans"]);
    let text = shape(&store, "", &styles, Dir::LTR);
    assert!(text.glyphs.is_empty());
    // Cap height 700 of 1000 units at 11000.
    assert_eq!(text.baseline, 7700);
    assert_eq!(text.size.height, 7700);
    assert_eq!(text.size.width, 0);
}

#[test]
fn no_face_gives_zero_metrics() {
    let store = FontStore { faces: vec![] };
    let styles = styles_for(&["sans"]);
    let text = shape(&store, "abc", &styles, Dir::LTR);
    assert!(text.glyphs.is_empty());
    assert_eq!(text.baseline, 0);
    assert_eq!(text.size.height, 0);
}

#[test]
fn case_is_applied_before_shaping() {
    let store = FontStore { faces: vec![face("sans", latin())] };
    let mut styles = styles_for(&["sans"]);
    styles.case = Some(Case::Upper);
    let text = shape(&store, "hi", &styles, Dir::LTR);
    assert_eq!(text.text, "HI");
}

#[test]
fn tracking_goes_between_clusters() {
    let store = FontStore { faces: vec![face("sans", latin())] };
    let plain = styles_for(&["sans"]);
    let mut spaced = styles_for(&["sans"]);
    spaced.tracking = 100_000;
    let a = shape(&store, "Hi", &plain, Dir::LTR);
    let b = shape(&store, "Hi", &spaced, Dir::LTR);
    assert_eq!(b.glyphs[0].x_advance, a.glyphs[0].x_advance + 100_000);
    assert_eq!(b.glyphs[1].x_advance, a.glyphs[1].x_advance);
}

#[test]
fn bottom_edge_adds_descender() {
    let store = FontStore { faces: vec![face("sans", latin())] };
    let mut styles = styles_for(&["sans"]);
    styles.bottom_edge = VerticalFontMetric::Descender;
    let text = shape(&store, "H", &styles, Dir::LTR);
    // Descender -200 of 1000 units at 11000 is -2200.
    assert_eq!(text.size.height, 7700 + 2200);
}

#[test]
fn reshape_reuses_safe_ranges() {
    let store = FontStore { faces: vec![face("sans", latin())] };
    let styles = styles_for(&["sans"]);
    let text = shape(&store, "Hello World", &styles, Dir::LTR);
    let part = text.reshape(&store, 6, 11);
    assert_eq!(part.text, "World");
    let fresh = shape(&store, "World", &styles, Dir::LTR);
    assert_eq!(part.glyphs.len(), fresh.glyphs.len());
    for (a, b) in part.glyphs.iter().zip(fresh.glyphs.iter()) {
        assert_eq!(a.glyph_id, b.glyph_id);
        assert_eq!(a.x_advance, b.x_advance);
        assert_eq!(a.text_index, b.text_index + 6);
    }
    assert_eq!(part.size, fresh.size);
}

#[test]
fn reshape_of_whole_text_keeps_all_glyphs() {
    let store = FontStore { faces: vec![face("sans", latin())] };
    let styles = styles_for(&["sans"]);
    let text = shape(&store, "abc", &styles, Dir::RTL);
    let all = text.reshape(&store, 0, 3);
    assert_eq!(all.glyphs, text.glyphs);
}

fn glyph(text_index: usize, safe: bool) -> ShapedGlyph {
    ShapedGlyph { face_id: 0, glyph_id: 5, x_advance: 1000, x_offset: 0, text_index, safe_to_break: safe }
}

#[test]
fn reshape_shapes_again_at_unsafe_boundary() {
    let store = FontStore { faces: vec![face("sans", Vec::new())] };
    let styles = styles_for(&["sans"]);
    let mut text = shape(&store, "abc", &styles, Dir::LTR);
    text.glyphs = vec![glyph(0, true), glyph(1, false), glyph(2, true)];
    // Unsafe at 1: shaped afresh, which this data-less face cannot do.
    assert!(text.reshape(&store, 1, 3).glyphs.is_empty());
    // Safe at 2: the last glyph is reused.
    assert_eq!(text.reshape(&store, 2, 3).glyphs, vec![glyph(2, true)]);
}

#[test]
fn reshape_right_to_left_slices_visually() {
    let store = FontStore { faces: vec![face("sans", Vec::new())] };
    let styles = styles_for(&["sans"]);
    let mut text = shape(&store, "abcd", &styles, Dir::RTL);
    text.glyphs = vec![glyph(3, true), glyph(2, true), glyph(1, false), glyph(1, true), glyph(0, true)];
    let part = text.reshape(&store, 1, 3);
    assert_eq!(part.glyphs, vec![glyph(2, true), glyph(1, false), glyph(1, true)]);
    assert_eq!(part.text, "bc");
}

#[test]
fn build_groups_by_face_and_places_lines() {
    let store = FontStore { faces: vec![face("math", latin()), face("sans", smiley())] };
    let mut styles = styles_for(&["math", "sans"]);
    styles.lines = vec![Decoration {
        line: LineKind::Strikethrough,
        stroke: None,
        thickness: Some(50),
        offset: None,
        extent: 100,
        evade: true,
    }];
    let text = shape(&store, "a☺b", &styles, Dir::LTR);
    let frame = text.build(&store);
    assert_eq!(frame.texts.len(), 3);
    assert_eq!(frame.lines.len(), 3);
    assert_eq!(frame.texts[1].face_id, 1);
    let w0 = resolve(text.glyphs[0].x_advance, styles.size);
    assert_eq!(frame.texts[1].x, w0);
    let line = frame.lines[0];
    assert_eq!(line.start, -100);
    assert_eq!(line.end, w0 + 100);
    assert!(!line.evade);
    assert_eq!(line.thickness, 50);
    // Strikethrough position 300 of 1000 units at 11000, negated.
    assert_eq!(line.offset, -3300);
    assert_eq!(line.paint, styles.fill);
    assert_eq!(frame.baseline, text.baseline);
}

fn raw(glyph_id: u32, cluster: u32) -> RawGlyph {
    RawGlyph { glyph_id, cluster, x_advance: 500, x_offset: 0, unsafe_to_break: false }
}

#[test]
fn tofu_run_left_to_right() {
    // Text "halihallo", clusters of two bytes, tofus at glyphs 1 and 2.
    let glyphs = vec![raw(5, 0), raw(0, 2), raw(0, 4), raw(7, 6), raw(8, 8)];
    assert_eq!(tofu_run(&glyphs, 1, false, 10), (2, 2, 6));
}

#[test]
fn tofu_run_right_to_left() {
    // Clusters decrease from left to right; tofus at glyphs 2 and 3.
    let glyphs = vec![raw(5, 8), raw(7, 6), raw(0, 4), raw(0, 2), raw(8, 0)];
    assert_eq!(tofu_run(&glyphs, 2, true, 10), (3, 2, 6));
}

#[test]
fn tofu_run_reaches_the_text_end() {
    let glyphs = vec![raw(5, 0), raw(0, 1), raw(0, 2)];
    assert_eq!(tofu_run(&glyphs, 1, false, 3), (2, 1, 3));
    let rtl = vec![raw(0, 2), raw(0, 1), raw(5, 0)];
    assert_eq!(tofu_run(&rtl, 0, true, 3), (1, 1, 3));
}
