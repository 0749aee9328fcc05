//! Decorative lines: their placement over a run of one face, and their
//! interruption where they would cross glyph ink.

use vstd::prelude::*;

use crate::engine::{ascending, sort_values};
use crate::font::{FaceInfo, LineMetrics};
use crate::style::{Decoration, LineKind};
use crate::shaping::{glyph_fits, glyphs_fit, run_width, ShapedGlyph, ShapedText, Size};
use crate::units::{em_of, resolve, resolved, size_in_range, to_em};

verus! {

/// Largest magnitude of a coordinate handed to the gap computation.
pub const MAX_COORD: i128 = 1_267_650_600_228_229_401_496_703_205_376;

/// Whether a value lies within the coordinate range.
pub open spec fn coord(x: int) -> bool {
    -MAX_COORD <= x <= MAX_COORD
}

/// Left edge of gap `k` of the sorted crossings, widened by `pad`.
pub open spec fn gap_left(c: Seq<i128>, k: int, pad: int) -> int {
    c[2 * k] - pad
}

/// Right edge of gap `k` of the sorted crossings, widened by `pad`.
pub open spec fn gap_right(c: Seq<i128>, k: int, pad: int) -> int {
    c[2 * k + 1] + pad
}

/// Whether a segment stays clear of every padded gap.
pub open spec fn clear_of_gaps(c: Seq<i128>, pad: int, from: int, to: int) -> bool {
    forall|k: int|
        0 <= k < c.len() / 2 ==> to <= #[trigger] gap_left(c, k, pad) || from >= gap_right(
            c,
            k,
            pad,
        )
}

/// The pieces that remain of a line from `cursor` to `end` when the gaps
/// from gap `k` of the sorted crossings on are cut out: up to each gap's
/// padded left edge a piece is drawn if it is at least `min_width` wide,
/// and the line goes on after the gap's padded right edge; what is left
/// after the last gap is the final piece.
pub open spec fn pieces_from(c: Seq<i128>, k: int, cursor: int, end: int, pad: int, min_width: int) -> Seq<(i128, i128)>
    decreases c.len() / 2 - k,
{
    if k < 0 || k >= c.len() / 2 || cursor >= end {
        if cursor < end && end - cursor >= min_width {
            seq![(cursor as i128, end as i128)]
        } else {
            Seq::empty()
        }
    } else {
        let l = gap_left(c, k, pad);
        let r = gap_right(c, k, pad);
        let to = if l < end {
            l
        } else {
            end
        };
        (if cursor < l && to - cursor >= min_width {
            seq![(cursor as i128, to as i128)]
        } else {
            Seq::empty()
        }) + pieces_from(c, k + 1, if r > cursor { r } else { cursor }, end, pad, min_width)
    }
}

/// The pieces of a line from `start` to `end` that remain when the gaps
/// between consecutive pairs of sorted crossings, each widened by `pad` on
/// both sides, are cut out. Pieces narrower than `min_width` are left out.
/// A trailing unpaired crossing is ignored.
pub fn gap_segments(start: i128, end: i128, crossings: &Vec<i128>, pad: i128, min_width: i128) -> (r:
    Vec<(i128, i128)>)
    requires
        coord(start as int),
        coord(end as int),
        0 <= pad <= MAX_COORD,
        0 <= min_width,
        ascending(crossings@),
        forall|i: int| 0 <= i < crossings@.len() ==> coord(#[trigger] crossings@[i] as int),
    ensures
        r@ == pieces_from(crossings@, 0, start as int, end as int, pad as int, min_width as int),
        r@.len() <= crossings@.len() / 2 + 1,
        forall|i: int|
            0 <= i < r@.len() ==> {
                &&& start <= (#[trigger] r@[i]).0
                &&& r@[i].0 + min_width <= r@[i].1 <= end
                &&& clear_of_gaps(crossings@, pad as int, r@[i].0 as int, r@[i].1 as int)
            },
        forall|i: int| 0 <= i < r@.len() - 1 ==> (#[trigger] r@[i]).1 <= r@[i + 1].0,
{
    let c = crossings;
    let n = c.len();
    let pairs = n / 2;
    let mut out: Vec<(i128, i128)> = Vec::new();
    let mut cursor: i128 = start;
    let mut k: usize = 0;
    while k < pairs && cursor < end
        invariant
            pairs == c@.len() / 2,
            n == c@.len(),
            n <= usize::MAX,
            k <= pairs,
            coord(start as int),
            coord(end as int),
            0 <= pad <= MAX_COORD,
            0 <= min_width,
            ascending(c@),
            forall|i: int| 0 <= i < c@.len() ==> coord(#[trigger] c@[i] as int),
            start <= cursor,
            -MAX_COORD <= cursor <= 2 * MAX_COORD,
            k > 0 ==> cursor >= gap_right(c@, k - 1, pad as int),
            out@.len() <= k,
            forall|i: int|
                0 <= i < out@.len() ==> {
                    &&& start <= (#[trigger] out@[i]).0
                    &&& out@[i].0 + min_width <= out@[i].1 <= end
                    &&& out@[i].1 <= cursor
                    &&& forall|j: int|
                        0 <= j < pairs ==> out@[i].1 <= #[trigger] gap_left(c@, j, pad as int)
                            || out@[i].0 >= gap_right(c@, j, pad as int)
                },
            forall|i: int| 0 <= i < out@.len() - 1 ==> (#[trigger] out@[i]).1 <= out@[i + 1].0,
            out@ + pieces_from(c@, k as int, cursor as int, end as int, pad as int, min_width as int)
                == pieces_from(c@, 0, start as int, end as int, pad as int, min_width as int),
        decreases pairs - k,
    {
        let ghost out0 = out@;
        let ghost cur0 = cursor as int;
        let l: i128 = c[2 * k] - pad;
        let r: i128 = c[2 * k + 1] + pad;
        proof {
            assert(c@[2 * k] <= c@[2 * k + 1]);
            assert forall|j: int| 0 <= j < k implies gap_right(c@, j, pad as int) <= r by {
                assert(c@[2 * j + 1] <= c@[2 * k + 1]);
            }
            assert forall|j: int| k <= j < pairs implies l <= #[trigger] gap_left(c@, j, pad as int) by {
                assert(c@[2 * k] <= c@[2 * j]);
            }
        }
        if cursor < l {
            let to: i128 = if l < end {
                l
            } else {
                end
            };
            if to - cursor >= min_width {
                let ghost prev = out@;
                out.push((cursor, to));
                proof {
                    assert forall|i: int| 0 <= i < out@.len() implies {
                        &&& start <= (#[trigger] out@[i]).0
                        &&& out@[i].0 + min_width <= out@[i].1 <= end
                        &&& out@[i].1 <= r
                        &&& forall|j: int|
                            0 <= j < pairs ==> out@[i].1 <= #[trigger] gap_left(c@, j, pad as int)
                                || out@[i].0 >= gap_right(c@, j, pad as int)
                    } by {
                        if i < prev.len() {
                            assert(out@[i] == prev[i]);
                        } else {
                            assert forall|j: int| 0 <= j < pairs implies out@[i].1
                                <= #[trigger] gap_left(c@, j, pad as int) || out@[i].0 >= gap_right(
                                c@,
                                j,
                                pad as int,
                            ) by {
                                if j < k {
                                    assert(gap_right(c@, j, pad as int) <= gap_right(c@, (k - 1) as int, pad as int)) by {
                                        assert(c@[2 * j + 1] <= c@[2 * (k - 1) + 1]);
                                    }
                                }
                            }
                        }
                    }
                }
            }
        }
        if r > cursor {
            cursor = r;
        }
        proof {
            let head = if cur0 < l && (if l < end { l as int } else { end as int }) - cur0
                >= min_width {
                seq![(cur0 as i128, (if l < end { l } else { end }) as i128)]
            } else {
                Seq::empty()
            };
            assert(out@ =~= out0 + head);
            let rest = pieces_from(c@, k + 1, cursor as int, end as int, pad as int, min_width as int);
            assert(pieces_from(c@, k as int, cur0, end as int, pad as int, min_width as int)
                == head + rest);
            assert(out0 + (head + rest) =~= out@ + rest);
        }
        k += 1;
    }
    let ghost out1 = out@;
    assert(out1 + pieces_from(c@, k as int, cursor as int, end as int, pad as int, min_width as int)
        =~= out1 + (if cursor < end && end - cursor >= min_width {
        seq![(cursor, end)]
    } else {
        Seq::empty()
    }));
    if cursor < end && end - cursor >= min_width {
        let ghost prev = out@;
        out.push((cursor, end));
        proof {
            assert forall|i: int| 0 <= i < out@.len() implies {
                &&& start <= (#[trigger] out@[i]).0
                &&& out@[i].0 + min_width <= out@[i].1 <= end
                &&& forall|j: int|
                    0 <= j < pairs ==> out@[i].1 <= #[trigger] gap_left(c@, j, pad as int)
                        || out@[i].0 >= gap_right(c@, j, pad as int)
            } by {
                if i < prev.len() {
                    assert(out@[i] == prev[i]);
                } else {
                    assert(k == pairs);
                    assert forall|j: int| 0 <= j < pairs implies out@[i].0 >= gap_right(c@, j, pad as int) by {
                        assert(c@[2 * j + 1] <= c@[2 * (k - 1) + 1]);
                    }
                }
            }
        }
    }
    assert(out@ =~= pieces_from(c@, 0, start as int, end as int, pad as int, min_width as int));
    out
}

/// A decorative line placed over a run of one face.
#[derive(Debug, Copy, Clone, PartialEq, Eq, Structural)]
pub struct DecoLine {
    /// Where the line starts horizontally.
    pub start: i128,
    /// Where the line ends horizontally.
    pub end: i128,
    /// The line's distance below the baseline.
    pub offset: i128,
    /// The stroke thickness.
    pub thickness: i128,
    /// The stroke paint, as RGBA.
    pub paint: u32,
    /// Whether the line is interrupted where it would cross glyph ink.
    pub evade: bool,
    /// The font size of the run.
    pub size: i64,
    /// The index of the run's first glyph.
    pub first_glyph: usize,
    /// The index after the run's last glyph.
    pub end_glyph: usize,
}

/// The ink of one glyph near a decorative line, in page coordinates relative
/// to the baseline (growing downwards).
#[derive(Debug, Clone, PartialEq, Eq)]
pub struct GlyphInk {
    /// The vertical extent of the glyph's outline, if the face gives one.
    pub bounds: Option<(i128, i128)>,
    /// Where the outline crosses the line, horizontally.
    pub crossings: Vec<i128>,
}

/// Whether a glyph's ink is tested against a line at `offset`: it has a
/// vertical extent and the offset lies within it.
pub open spec fn ink_reaches(ink: GlyphInk, offset: int) -> bool {
    match ink.bounds {
        Some((lo, hi)) => lo <= offset <= hi,
        None => false,
    }
}

/// The crossings of all glyphs whose ink reaches the line, in glyph order.
pub open spec fn reached_crossings(inks: Seq<GlyphInk>, offset: int) -> Seq<i128>
    decreases inks.len(),
{
    if inks.len() == 0 {
        Seq::empty()
    } else {
        reached_crossings(inks.drop_last(), offset) + if ink_reaches(inks.last(), offset) {
            inks.last().crossings@
        } else {
            Seq::empty()
        }
    }
}

/// The padding on each side of a gap, a fixed fraction (0.08) of the font
/// size.
pub open spec fn gap_padding(size: int) -> int {
    size * 8 / 100
}

/// The narrowest piece that is drawn, a fixed fraction (0.162) of the font
/// size.
pub open spec fn min_piece(size: int) -> int {
    size * 162 / 1000
}

/// Collects the crossings of the glyphs whose ink reaches the line.
fn collect_crossings(inks: &Vec<GlyphInk>, offset: i128) -> (r: Vec<i128>)
    ensures
        r@ == reached_crossings(inks@, offset as int),
{
    let mut out: Vec<i128> = Vec::new();
    let mut i: usize = 0;
    while i < inks.len()
        invariant
            i <= inks@.len(),
            out@ == reached_crossings(inks@.subrange(0, i as int), offset as int),
        decreases inks.len() - i,
    {
        let ink = &inks[i];
        let reaches = match ink.bounds {
            Some((lo, hi)) => lo <= offset && offset <= hi,
            None => false,
        };
        let ghost prev = out@;
        if reaches {
            let mut j: usize = 0;
            while j < ink.crossings.len()
                invariant
                    j <= ink.crossings@.len(),
                    out@ == prev + ink.crossings@.subrange(0, j as int),
                decreases ink.crossings.len() - j,
            {
                out.push(ink.crossings[j]);
                assert(out@ =~= prev + ink.crossings@.subrange(0, j + 1));
                j += 1;
            }
            assert(ink.crossings@.subrange(0, ink.crossings@.len() as int) =~= ink.crossings@);
        }
        proof {
            let next = inks@.subrange(0, i + 1);
            assert(next.drop_last() =~= inks@.subrange(0, i as int));
            assert(next.last() == inks@[i as int]);
            if !reaches {
                assert(out@ =~= prev + Seq::<i128>::empty());
            }
        }
        i += 1;
    }
    assert(inks@.subrange(0, inks@.len() as int) =~= inks@);
    out
}

/// The pieces to draw of a line that evades glyph ink: the crossings of the
/// glyphs whose ink reaches the line are sorted, and the gaps between
/// consecutive pairs of them, padded by 0.08 of the font size on each side,
/// are cut out; pieces narrower than 0.162 of the font size are left out.
/// A line that does not evade is drawn whole.
pub fn evade(line: &DecoLine, inks: &Vec<GlyphInk>) -> (r: Vec<(i128, i128)>)
    requires
        coord(line.start as int),
        coord(line.end as int),
        size_in_range(line.size as int),
        forall|i: int, j: int|
            0 <= i < inks@.len() && 0 <= j < inks@[i].crossings@.len() ==> coord(
                #[trigger] inks@[i].crossings@[j] as int,
            ),
    ensures
        !line.evade ==> r@ == seq![(line.start, line.end)],
        line.evade ==> {
            let c = reached_crossings(inks@, line.offset as int);
            let pad = gap_padding(line.size as int);
            &&& exists|s: Seq<i128>|
                s.to_multiset() == c.to_multiset() && ascending(s) && r@ == pieces_from(
                    s,
                    0,
                    line.start as int,
                    line.end as int,
                    pad,
                    min_piece(line.size as int),
                )
            &&& r@.len() <= c.len() / 2 + 1
            &&& forall|i: int|
                0 <= i < r@.len() ==> {
                    &&& line.start <= (#[trigger] r@[i]).0
                    &&& r@[i].0 + min_piece(line.size as int) <= r@[i].1 <= line.end
                    &&& exists|s: Seq<i128>|
                        s.to_multiset() == c.to_multiset() && ascending(s) && clear_of_gaps(
                            s,
                            pad,
                            r@[i].0 as int,
                            r@[i].1 as int,
                        )
                }
            &&& forall|i: int| 0 <= i < r@.len() - 1 ==> (#[trigger] r@[i]).1 <= r@[i + 1].0
        },
{
    if !line.evade {
        return vec![(line.start, line.end)];
    }
    let mut crossings = collect_crossings(inks, line.offset);
    proof {
        let c = crossings@;
        assert forall|i: int| 0 <= i < c.len() implies coord(#[trigger] c[i] as int) by {
            lemma_reached_coords(inks@, line.offset as int, i);
        }
    }
    let ghost unsorted = crossings@;
    sort_values(&mut crossings);
    proof {
        assert forall|i: int| 0 <= i < crossings@.len() implies coord(#[trigger] crossings@[i] as int) by {
            let x = crossings@[i];
            unsorted.to_multiset_ensures();
            crossings@.to_multiset_ensures();
            assert(crossings@.contains(x));
            assert(crossings@.to_multiset().count(x) > 0);
            assert(unsorted.to_multiset().count(x) > 0);
            assert(unsorted.contains(x));
            let k = choose|k: int| 0 <= k < unsorted.len() && unsorted[k] == x;
            assert(coord(unsorted[k] as int));
        }
        crossings@.to_multiset_ensures();
        unsorted.to_multiset_ensures();
    }
    let size = line.size as i128;
    let pad: i128 = size * 8 / 100;
    let min_width: i128 = size * 162 / 1000;
    let r = gap_segments(line.start, line.end, &crossings, pad, min_width);
    proof {
        assert(crossings@.to_multiset().len() == unsorted.to_multiset().len());
        assert(pad == gap_padding(line.size as int));
        assert(min_width == min_piece(line.size as int));
        assert(r@ == pieces_from(
            crossings@,
            0,
            line.start as int,
            line.end as int,
            gap_padding(line.size as int),
            min_piece(line.size as int),
        ));
        assert forall|i: int| 0 <= i < r@.len() implies #[trigger] clear_of_gaps(
            crossings@,
            gap_padding(line.size as int),
            r@[i].0 as int,
            r@[i].1 as int,
        ) by {
            assert(clear_of_gaps(crossings@, pad as int, r@[i].0 as int, r@[i].1 as int));
        }
    }
    r
}

proof fn lemma_reached_coords(inks: Seq<GlyphInk>, offset: int, i: int)
    requires
        forall|a: int, b: int|
            0 <= a < inks.len() && 0 <= b < inks[a].crossings@.len() ==> coord(
                #[trigger] inks[a].crossings@[b] as int,
            ),
        0 <= i < reached_crossings(inks, offset).len(),
    ensures
        coord(reached_crossings(inks, offset)[i] as int),
    decreases inks.len(),
{
    if inks.len() > 0 {
        let prefix = reached_crossings(inks.drop_last(), offset);
        if i < prefix.len() {
            lemma_reached_coords(inks.drop_last(), offset, i);
        } else {
            let j = i - prefix.len();
            assert(inks.last() == inks[inks.len() - 1]);
            assert(coord(inks[inks.len() - 1].crossings@[j] as int));
        }
    }
}

/// The metrics of a face for a kind of line.
pub open spec fn line_metrics(face: FaceInfo, kind: LineKind) -> LineMetrics {
    match kind {
        LineKind::Underline => face.underline,
        LineKind::Strikethrough => face.strikethrough,
        LineKind::Overline => face.overline,
    }
}

/// A decoration placed over the glyphs `first..end` of a run of one face
/// that starts at `x` and is `width` wide: it reaches `extent` beyond both
/// sides; its offset and thickness are the decoration's own or else the
/// face's, with the position negated into page coordinates; its paint is
/// the decoration's or else the text's fill; a strikethrough never evades.
pub open spec fn placed(
    face: FaceInfo,
    deco: Decoration,
    size: i64,
    fill: u32,
    x: int,
    width: int,
    first: usize,
    end: usize,
) -> DecoLine {
    let m = line_metrics(face, deco.line);
    let upem = face.units_per_em as int;
    DecoLine {
        start: (x - deco.extent) as i128,
        end: (x + width + deco.extent) as i128,
        offset: match deco.offset {
            Some(o) => o as i128,
            None => (-resolved(em_of(m.position as int, upem), size as int)) as i128,
        },
        thickness: match deco.thickness {
            Some(t) => t as i128,
            None => resolved(em_of(m.thickness as int, upem), size as int) as i128,
        },
        paint: match deco.stroke {
            Some(p) => p,
            None => fill,
        },
        evade: deco.evade && deco.line != LineKind::Strikethrough,
        size,
        first_glyph: first,
        end_glyph: end,
    }
}

/// Places a decoration over a run of one face.
fn place_line(
    face: &FaceInfo,
    deco: &Decoration,
    size: i64,
    fill: u32,
    x: i128,
    width: i128,
    first: usize,
    end: usize,
) -> (r: DecoLine)
    requires
        face.units_per_em > 0,
        size_in_range(size as int),
        -MAX_COORD <= x <= MAX_COORD,
        -MAX_COORD <= width <= MAX_COORD,
    ensures
        r == placed(*face, *deco, size, fill, x as int, width as int, first, end),
{
    let m = match deco.line {
        LineKind::Underline => face.underline,
        LineKind::Strikethrough => face.strikethrough,
        LineKind::Overline => face.overline,
    };
    let offset: i128 = match deco.offset {
        Some(o) => o as i128,
        None => -resolve(to_em(m.position, face.units_per_em), size),
    };
    let thickness: i128 = match deco.thickness {
        Some(t) => t as i128,
        None => resolve(to_em(m.thickness, face.units_per_em), size),
    };
    let paint = match deco.stroke {
        Some(p) => p,
        None => fill,
    };
    let evade = deco.evade && match deco.line {
        LineKind::Strikethrough => false,
        _ => true,
    };
    DecoLine {
        start: x - deco.extent as i128,
        end: x + width + deco.extent as i128,
        offset,
        thickness,
        paint,
        evade,
        size,
        first_glyph: first,
        end_glyph: end,
    }
}

/// A glyph as a text element draws it.
#[derive(Debug, Copy, Clone, PartialEq, Eq, Structural)]
pub struct Glyph {
    /// The glyph's index in the face.
    pub id: u16,
    /// The advance width, in em units.
    pub x_advance: i64,
    /// The horizontal offset, in em units.
    pub x_offset: i64,
}

/// The drawn form of a shaped glyph.
pub open spec fn drawn(g: ShapedGlyph) -> Glyph {
    Glyph { id: g.glyph_id, x_advance: g.x_advance, x_offset: g.x_offset }
}

/// A run of glyphs of one face, drawn on the baseline.
#[derive(Debug, Clone, PartialEq, Eq)]
pub struct TextItem {
    /// The horizontal position of the run.
    pub x: i128,
    /// The face of the glyphs.
    pub face_id: usize,
    /// The font size.
    pub size: i64,
    /// The fill, as RGBA.
    pub fill: u32,
    /// The glyphs.
    pub glyphs: Vec<Glyph>,
}

/// The drawable elements of a shaped text.
#[derive(Debug, Clone, PartialEq, Eq)]
pub struct Frame {
    /// The size of the frame.
    pub size: Size,
    /// The baseline from the top of the frame.
    pub baseline: i128,
    /// One text element per maximal run of glyphs of one face, left to right.
    pub texts: Vec<TextItem>,
    /// For each text element in turn, its decorations in style order.
    pub lines: Vec<DecoLine>,
    /// The URL that the whole frame links to, if any.
    pub link: Option<String>,
}

/// Whether `b` splits the glyphs into maximal runs of one face: it runs from
/// 0 to the glyph count in increasing steps, each run's glyphs share a face,
/// and neighbouring runs have different faces.
pub open spec fn face_runs(gs: Seq<ShapedGlyph>, b: Seq<int>) -> bool {
    &&& b.len() >= 1
    &&& b[0] == 0
    &&& b.last() == gs.len()
    &&& forall|k: int| 0 <= k < b.len() - 1 ==> #[trigger] b[k] < b[k + 1]
    &&& forall|k: int, j: int|
        0 <= k < b.len() - 1 && b[k] <= j < b[k + 1] ==> #[trigger] gs[j].face_id
            == gs[#[trigger] b[k]].face_id
    &&& forall|k: int|
        0 < k < b.len() - 1 ==> #[trigger] gs[b[k]].face_id != gs[b[k] - 1].face_id
}

/// Whether text elements and decorations draw the glyphs split at `b`, with
/// the styles of `text`: text element `k` holds run `k` at the width of the
/// glyphs before it, and its decorations, in style order, are placed over
/// it.
pub open spec fn draws_runs(
    store: crate::font::FontStore,
    text: ShapedText,
    b: Seq<int>,
    texts: Seq<TextItem>,
    lines: Seq<DecoLine>,
) -> bool {
    let gs = text.glyphs@;
    let styles = *text.styles;
    let size = styles.size;
    let n = styles.lines@.len();
    &&& texts.len() == b.len() - 1
    &&& lines.len() == texts.len() * n
    &&& forall|k: int|
        0 <= k < texts.len() ==> {
            let t = #[trigger] texts[k];
            &&& t.glyphs@ == gs.subrange(b[k], b[k + 1]).map_values(|g: ShapedGlyph| drawn(g))
            &&& t.face_id == gs[b[k]].face_id
            &&& t.x == run_width(gs.subrange(0, b[k]), size as int)
            &&& t.size == size
            &&& t.fill == styles.fill
        }
    &&& forall|k: int, d: int|
        0 <= k < texts.len() && 0 <= d < n ==> #[trigger] lines[k * n + d] == placed(
            store.faces@[gs[b[k]].face_id as int],
            #[trigger] styles.lines@[d],
            size,
            styles.fill,
            run_width(gs.subrange(0, b[k]), size as int),
            run_width(gs.subrange(0, b[k + 1]), size as int) - run_width(
                gs.subrange(0, b[k]),
                size as int,
            ),
            b[k] as usize,
            b[k + 1] as usize,
        )
}

proof fn lemma_line_index(k1: int, d1: int, k: int, n: int)
    requires
        0 <= k1 < k,
        0 <= d1 < n,
    ensures
        k1 * n + d1 < k * n,
        0 <= k1 * n + d1,
        (k + 1) * n == k * n + n,
{
    assert(k1 * n + d1 < k * n) by (nonlinear_arith)
        requires 0 <= k1 < k, 0 <= d1 < n;
    assert(0 <= k1 * n) by (nonlinear_arith)
        requires 0 <= k1, 0 <= n;
    assert((k + 1) * n == k * n + n) by (nonlinear_arith);
}

/// The decorations placed over one run, in style order.
pub open spec fn run_lines(
    face: FaceInfo,
    decos: Seq<Decoration>,
    size: i64,
    fill: u32,
    x: int,
    width: int,
    first: usize,
    end: usize,
) -> Seq<DecoLine> {
    decos.map_values(|d: Decoration| placed(face, d, size, fill, x, width, first, end))
}

/// Appends the decorations of one run.
fn push_run_lines(
    lines: &mut Vec<DecoLine>,
    face: &FaceInfo,
    decos: &Vec<Decoration>,
    size: i64,
    fill: u32,
    x: i128,
    width: i128,
    first: usize,
    end: usize,
)
    requires
        face.units_per_em > 0,
        size_in_range(size as int),
        -MAX_COORD <= x <= MAX_COORD,
        -MAX_COORD <= width <= MAX_COORD,
    ensures
        final(lines)@ == old(lines)@ + run_lines(
            *face,
            decos@,
            size,
            fill,
            x as int,
            width as int,
            first,
            end,
        ),
{
    let ghost before = lines@;
    let mut d: usize = 0;
    while d < decos.len()
        invariant
            d <= decos@.len(),
            face.units_per_em > 0,
            size_in_range(size as int),
            -MAX_COORD <= x <= MAX_COORD,
            -MAX_COORD <= width <= MAX_COORD,
            lines@ == before + run_lines(
                *face,
                decos@.subrange(0, d as int),
                size,
                fill,
                x as int,
                width as int,
                first,
                end,
            ),
        decreases decos.len() - d,
    {
        let line = place_line(face, &decos[d], size, fill, x, width, first, end);
        lines.push(line);
        assert(lines@ =~= before + run_lines(
            *face,
            decos@.subrange(0, d + 1),
            size,
            fill,
            x as int,
            width as int,
            first,
            end,
        ));
        d += 1;
    }
    assert(decos@.subrange(0, decos@.len() as int) =~= decos@);
}

/// One run of glyphs of one face: its drawn glyphs, where it ends, and the
/// width of the glyphs before its end.
struct Run {
    items: Vec<Glyph>,
    end: usize,
    x_end: i128,
}

proof fn lemma_width_bound(i: int, len: int)
    requires
        0 <= i <= len <= u32::MAX,
    ensures
        i * (i64::MAX as int) <= (u32::MAX as int) * (i64::MAX as int),
        (u32::MAX as int) * (i64::MAX as int) < MAX_COORD,
{
    assert(i * (i64::MAX as int) <= (u32::MAX as int) * (i64::MAX as int)) by (nonlinear_arith)
        requires 0 <= i <= u32::MAX;
}

/// Extends draws_runs by one run.
#[verifier::rlimit(50)]
proof fn lemma_extend_runs(
    store: crate::font::FontStore,
    text: ShapedText,
    b: Seq<int>,
    texts: Seq<TextItem>,
    lines: Seq<DecoLine>,
    t: TextItem,
    new_lines: Seq<DecoLine>,
    end: int,
)
    requires
        draws_runs(store, text, b, texts, lines),
        b.len() >= 1,
        0 <= b.last() < end <= text.glyphs@.len(),
        t.glyphs@ == text.glyphs@.subrange(b.last(), end).map_values(|g: ShapedGlyph| drawn(g)),
        t.face_id == text.glyphs@[b.last()].face_id,
        t.x == run_width(text.glyphs@.subrange(0, b.last()), text.styles.size as int),
        t.size == text.styles.size,
        t.fill == text.styles.fill,
        new_lines == run_lines(
            store.faces@[t.face_id as int],
            text.styles.lines@,
            text.styles.size,
            text.styles.fill,
            t.x as int,
            run_width(text.glyphs@.subrange(0, end), text.styles.size as int) - t.x,
            b.last() as usize,
            end as usize,
        ),
    ensures
        draws_runs(store, text, b.push(end), texts.push(t), lines + new_lines),
{
    let n = text.styles.lines@.len();
    let k = texts.len() as int;
    let nb = b.push(end);
    let nt = texts.push(t);
    let nl = lines + new_lines;
    assert(nb[k] == b.last());
    assert((k + 1) * n == k * n + n) by (nonlinear_arith);
    assert forall|kk: int| 0 <= kk < nt.len() implies {
        let tt = #[trigger] nt[kk];
        &&& tt.glyphs@ == text.glyphs@.subrange(nb[kk], nb[kk + 1]).map_values(
            |g: ShapedGlyph| drawn(g),
        )
        &&& tt.face_id == text.glyphs@[nb[kk]].face_id
        &&& tt.x == run_width(text.glyphs@.subrange(0, nb[kk]), text.styles.size as int)
        &&& tt.size == text.styles.size
        &&& tt.fill == text.styles.fill
    } by {
        if kk < k {
            assert(nt[kk] == texts[kk]);
            assert(nb[kk] == b[kk] && nb[kk + 1] == b[kk + 1]);
        }
    }
    assert forall|kk: int, dd: int| 0 <= kk < nt.len() && 0 <= dd < n implies #[trigger] nl[kk
        * n + dd] == placed(
        store.faces@[text.glyphs@[nb[kk]].face_id as int],
        #[trigger] text.styles.lines@[dd],
        text.styles.size,
        text.styles.fill,
        run_width(text.glyphs@.subrange(0, nb[kk]), text.styles.size as int),
        run_width(text.glyphs@.subrange(0, nb[kk + 1]), text.styles.size as int) - run_width(
            text.glyphs@.subrange(0, nb[kk]),
            text.styles.size as int,
        ),
        nb[kk] as usize,
        nb[kk + 1] as usize,
    ) by {
        if kk < k {
            lemma_line_index(kk, dd, k, n as int);
            assert(nl[kk * n + dd] == lines[kk * n + dd]);
            assert(nb[kk] == b[kk] && nb[kk + 1] == b[kk + 1]);
        } else {
            assert(kk * n + dd == k * n + dd);
            assert(nl[kk * n + dd] == new_lines[dd]);
        }
    }
}

impl<'a> ShapedText<'a> {
    /// The run of glyphs of one face that starts at `start`.
    fn run_at(&self, store: &crate::font::FontStore, start: usize, x_start: i128) -> (r: Run)
        requires
            store.wf(),
            glyphs_fit(*store, self.glyphs@),
            size_in_range(self.styles.size as int),
            self.glyphs@.len() <= u32::MAX,
            start < self.glyphs@.len(),
            x_start == run_width(self.glyphs@.subrange(0, start as int), self.styles.size as int),
            -(start as int) * (i64::MAX as int) <= x_start <= (start as int) * (i64::MAX as int),
        ensures
            start < r.end <= self.glyphs@.len(),
            r.items@ == self.glyphs@.subrange(start as int, r.end as int).map_values(
                |g: ShapedGlyph| drawn(g),
            ),
            forall|j: int|
                start <= j < r.end ==> #[trigger] self.glyphs@[j].face_id
                    == self.glyphs@[start as int].face_id,
            r.end < self.glyphs@.len() ==> self.glyphs@[r.end as int].face_id
                != self.glyphs@[r.end - 1].face_id,
            r.x_end == run_width(self.glyphs@.subrange(0, r.end as int), self.styles.size as int),
            -(r.end as int) * (i64::MAX as int) <= r.x_end <= (r.end as int) * (i64::MAX as int),
    {
        let ghost gs = self.glyphs@;
        let size = self.styles.size;
        let len = self.glyphs.len();
        let face_id = self.glyphs[start].face_id;
        let mut items: Vec<Glyph> = Vec::new();
        let mut x = x_start;
        let mut i = start;
        while i < len && self.glyphs[i].face_id == face_id
            invariant
                gs == self.glyphs@,
                len == gs.len(),
                len <= u32::MAX,
                store.wf(),
                glyphs_fit(*store, gs),
                size == self.styles.size,
                size_in_range(size as int),
                start < len,
                gs[start as int].face_id == face_id,
                start <= i <= len,
                items@ == gs.subrange(start as int, i as int).map_values(|g: ShapedGlyph| drawn(g)),
                x == run_width(gs.subrange(0, i as int), size as int),
                -(i as int) * (i64::MAX as int) <= x <= (i as int) * (i64::MAX as int),
                forall|j: int| start <= j < i ==> #[trigger] gs[j].face_id == face_id,
            decreases len - i,
        {
            let g = self.glyphs[i];
            items.push(Glyph { id: g.glyph_id, x_advance: g.x_advance, x_offset: g.x_offset });
            assert(glyph_fits(*store, gs[i as int]));
            let adv = resolve(g.x_advance, size);
            proof {
                lemma_width_bound(i + 1, len as int);
            }
            x = x + adv;
            proof {
                assert(items@ =~= gs.subrange(start as int, i + 1).map_values(
                    |g: ShapedGlyph| drawn(g),
                ));
                let next = gs.subrange(0, i + 1);
                assert(next.drop_last() =~= gs.subrange(0, i as int));
            }
            i += 1;
        }
        Run { items, end: i, x_end: x }
    }

    /// Build the shaped text's frame: one text element per maximal run of
    /// glyphs of one face, each followed by its decorations, and the link of
    /// the styles.
    #[verifier::rlimit(100)]
    pub fn build(&self, store: &crate::font::FontStore) -> (r: Frame)
        requires
            store.wf(),
            self.wf(*store),
            self.glyphs@.len() <= u32::MAX,
        ensures
            r.size == self.size,
            r.baseline == self.baseline,
            r.link == self.styles.link,
            exists|b: Seq<int>|
                face_runs(self.glyphs@, b) && draws_runs(*store, *self, b, r.texts@, r.lines@),
    {
        let styles = self.styles;
        let size = styles.size;
        let fill = styles.fill;
        let len = self.glyphs.len();
        let ghost gs = self.glyphs@;
        let mut texts: Vec<TextItem> = Vec::new();
        let mut lines: Vec<DecoLine> = Vec::new();
        let mut x: i128 = 0;
        let mut i: usize = 0;
        let ghost mut b: Seq<int> = seq![0];
        assert(gs.subrange(0, 0) =~= Seq::<ShapedGlyph>::empty());
        assert(0 * (styles.lines@.len() as int) == 0) by (nonlinear_arith);
        while i < len
            invariant
                gs == self.glyphs@,
                len == gs.len(),
                len <= u32::MAX,
                store.wf(),
                glyphs_fit(*store, gs),
                size_in_range(size as int),
                size == styles.size,
                fill == styles.fill,
                styles == self.styles,
                i <= len,
                x == run_width(gs.subrange(0, i as int), size as int),
                -(i as int) * (i64::MAX as int) <= x <= (i as int) * (i64::MAX as int),
                b.len() >= 1,
                b[0] == 0,
                b.last() == i,
                forall|k: int| 0 <= k < b.len() - 1 ==> #[trigger] b[k] < b[k + 1],
                forall|k: int, j: int|
                    0 <= k < b.len() - 1 && b[k] <= j < b[k + 1] ==> #[trigger] gs[j].face_id
                        == gs[#[trigger] b[k]].face_id,
                forall|k: int|
                    0 < k < b.len() - 1 ==> #[trigger] gs[b[k]].face_id != gs[b[k] - 1].face_id,
                0 < i < len ==> gs[i as int].face_id != gs[i - 1].face_id,
                b.len() > 1 ==> i > 0,
                draws_runs(*store, *self, b, texts@, lines@),
            decreases len - i,
        {
            let run = self.run_at(store, i, x);
            let face_id = self.glyphs[i].face_id;
            proof {
                lemma_width_bound(run.end as int, len as int);
                lemma_width_bound(i as int, len as int);
                assert(glyph_fits(*store, gs[i as int]));
            }
            let width = run.x_end - x;
            let t = TextItem { x, face_id, size, fill, glyphs: run.items };
            let ghost old_texts = texts@;
            let ghost old_lines = lines@;
            push_run_lines(
                &mut lines,
                &store.faces[face_id],
                &styles.lines,
                size,
                fill,
                x,
                width,
                i,
                run.end,
            );
            texts.push(t);
            proof {
                assert(lines@.subrange(old_lines.len() as int, lines@.len() as int) =~= run_lines(
                    store.faces@[face_id as int],
                    styles.lines@,
                    size,
                    fill,
                    x as int,
                    width as int,
                    i,
                    run.end,
                ));
                lemma_extend_runs(
                    *store,
                    *self,
                    b,
                    old_texts,
                    old_lines,
                    t,
                    lines@.subrange(old_lines.len() as int, lines@.len() as int),
                    run.end as int,
                );
                assert(old_lines + lines@.subrange(old_lines.len() as int, lines@.len() as int)
                    =~= lines@);
                let nb = b.push(run.end as int);
                assert forall|kk: int, j: int|
                    0 <= kk < nb.len() - 1 && nb[kk] <= j < nb[kk + 1] implies #[trigger] gs[j].face_id
                        == gs[#[trigger] nb[kk]].face_id by {
                    if kk < b.len() - 1 {
                        assert(nb[kk] == b[kk] && nb[kk + 1] == b[kk + 1]);
                    }
                }
                assert forall|kk: int|
                    0 < kk < nb.len() - 1 implies #[trigger] gs[nb[kk]].face_id != gs[nb[kk]
                        - 1].face_id by {
                    if kk < b.len() - 1 {
                        assert(nb[kk] == b[kk]);
                    } else {
                        assert(nb[kk] == i);
                    }
                }
                b = nb;
            }
            x = run.x_end;
            i = run.end;
        }
        proof {
            assert(face_runs(gs, b));
        }
        Frame {
            size: self.size,
            baseline: self.baseline,
            texts,
            lines,
            link: match &styles.link {
                Some(l) => Some(l.clone()),
                None => None,
            },
        }
    }
}

} // verus!
