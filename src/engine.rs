//! The calls this library makes into std's case mapping, std's sort and the
//! rustybuzz shaping engine, with what the library assumes of each.

use rustybuzz::{Direction, Face, Feature, UnicodeBuffer};
use ttf_parser::Tag;
use vstd::prelude::*;

verus! {

/// The lowercase form of a string, as std's Unicode case mapping gives it.
pub uninterp spec fn lower_of(s: Seq<char>) -> Seq<char>;

/// The uppercase form of a string, as std's Unicode case mapping gives it.
pub uninterp spec fn upper_of(s: Seq<char>) -> Seq<char>;

/// Relies on `str::to_lowercase`: the result depends on the characters alone.
#[verifier::external_body]
pub(crate) fn lowercase(s: &str) -> (r: String)
    ensures
        r@ == lower_of(s@),
{
    s.to_lowercase()
}

/// Relies on `str::to_uppercase`: the result depends on the characters alone.
#[verifier::external_body]
pub(crate) fn uppercase(s: &str) -> (r: String)
    ensures
        r@ == upper_of(s@),
{
    s.to_uppercase()
}

/// Whether a sequence is in ascending order.
pub open spec fn ascending(s: Seq<i128>) -> bool {
    forall|i: int, j: int| 0 <= i <= j < s.len() ==> s[i] <= s[j]
}

/// Relies on `slice::sort`: the values end up in ascending order and are a
/// permutation of the values before.
#[verifier::external_body]
pub(crate) fn sort_values(v: &mut Vec<i128>)
    ensures
        final(v)@.to_multiset() == old(v)@.to_multiset(),
        ascending(final(v)@),
{
    v.sort();
}

/// One glyph as the shaping engine reports it.
#[derive(Debug, Copy, Clone, PartialEq, Eq)]
pub struct RawGlyph {
    /// The glyph's index in the face.
    pub glyph_id: u32,
    /// The byte offset of the glyph's cluster in the shaped text.
    pub cluster: u32,
    /// The advance, in design units.
    pub x_advance: i32,
    /// The horizontal offset, in design units.
    pub x_offset: i32,
    /// Whether breaking the text before this glyph may change the shaping.
    pub unsafe_to_break: bool,
}

/// The fields of a raw glyph, in declaration order.
pub open spec fn raw_fields(g: RawGlyph) -> (u32, u32, i32, i32, bool) {
    (g.glyph_id, g.cluster, g.x_advance, g.x_offset, g.unsafe_to_break)
}

/// The glyphs, in visual order, that the shaping engine makes of `text` with
/// the face at `index` of the font file `data`, in the given direction and
/// with the given features (tag and value). Empty where the file does not
/// parse.
pub uninterp spec fn engine_glyphs(
    data: Seq<u8>,
    index: u32,
    text: Seq<char>,
    rtl: bool,
    features: Seq<(u32, u32)>,
) -> Seq<(u32, u32, i32, i32, bool)>;

/// Relies on `rustybuzz::Face::from_slice` and `rustybuzz::shape`: the glyphs
/// depend on the font data, the text, the direction and the features alone.
#[verifier::external_body]
pub(crate) fn shape_text(
    data: &Vec<u8>,
    index: u32,
    text: &str,
    rtl: bool,
    features: &Vec<(u32, u32)>,
) -> (r: Vec<RawGlyph>)
    ensures
        r@.map_values(|g: RawGlyph| raw_fields(g)) == engine_glyphs(data@, index, text@, rtl, features@),
{
    let face = match Face::from_slice(data, index) {
        Some(face) => face,
        None => return Vec::new(),
    };
    let feats: Vec<Feature> = features.iter().map(|f| Feature::new(Tag(f.0), f.1, ..)).collect();
    let mut buffer = UnicodeBuffer::new();
    buffer.push_str(text);
    buffer.set_direction(if rtl { Direction::RightToLeft } else { Direction::LeftToRight });
    let out = rustybuzz::shape(&face, &feats, buffer);
    let infos = out.glyph_infos().iter().zip(out.glyph_positions());
    infos.map(|(i, p)| RawGlyph {
        glyph_id: i.glyph_id, cluster: i.cluster, x_advance: p.x_advance,
        x_offset: p.x_offset, unsafe_to_break: i.unsafe_to_break() }).collect()
}

} // verus!
