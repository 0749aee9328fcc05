//! Shaping text into positioned glyphs with font fallback, tracking,
//! measurement, and reshaping of sub-ranges.

use vstd::prelude::*;
use vstd::string::StringSliceAdditionalSpecFns;
use vstd::utf8::{encode_utf8, is_char_boundary};

use crate::engine::{engine_glyphs, raw_fields, shape_text, RawGlyph};
use crate::font::{metric_at, selected, vertical_metric, FontStore};
use crate::resolve::{families, family_names, string_names, tags, variant, variant_of};
use crate::style::{FontVariant, TextNode};
use crate::units::{
    em_of, em_in_range, resolve, resolved, size_in_range, to_em, MAX_FONT_EM, MAX_TRACKING,
};

verus! {

/// The direction in which text runs.
#[derive(Debug, Copy, Clone, PartialEq, Eq, Hash, Structural)]
pub enum Dir {
    /// Left to right.
    LTR,
    /// Right to left.
    RTL,
}

/// A single glyph resulting from shaping.
#[derive(Debug, Copy, Clone, PartialEq, Eq, Structural)]
pub struct ShapedGlyph {
    /// The index of the face in the font store.
    pub face_id: usize,
    /// The glyph's index in the face.
    pub glyph_id: u16,
    /// The advance width of the glyph, in em units.
    pub x_advance: i64,
    /// The horizontal offset of the glyph, in em units.
    pub x_offset: i64,
    /// The start index of the glyph's cluster in the source text.
    pub text_index: usize,
    /// Whether splitting the shaping result before this glyph would yield the
    /// same results as shaping the parts to both sides of `text_index`
    /// separately.
    pub safe_to_break: bool,
}

/// The width and height of a run.
#[derive(Debug, Copy, Clone, PartialEq, Eq, Structural)]
pub struct Size {
    /// The horizontal extent.
    pub width: i128,
    /// The vertical extent.
    pub height: i128,
}

/// Whether a glyph belongs to a face of the store and its advance and offset
/// can be resolved.
pub open spec fn glyph_fits(store: FontStore, g: ShapedGlyph) -> bool {
    g.face_id < store.faces@.len() && em_in_range(g.x_advance as int) && em_in_range(
        g.x_offset as int,
    )
}

/// Whether every glyph of a run fits the store.
pub open spec fn glyphs_fit(store: FontStore, gs: Seq<ShapedGlyph>) -> bool {
    forall|i: int| 0 <= i < gs.len() ==> glyph_fits(store, #[trigger] gs[i])
}

/// The larger of two integers.
pub open spec fn max(a: int, b: int) -> int {
    if a >= b {
        a
    } else {
        b
    }
}

/// Whether tracking goes after the glyph at `i`: a following glyph exists
/// and starts another cluster.
pub open spec fn tracking_applies(gs: Seq<ShapedGlyph>, i: int) -> bool {
    i + 1 < gs.len() && gs[i].text_index != gs[i + 1].text_index
}

/// Whether `after` is `before` with tracking `t` added between clusters: the
/// advance of each glyph followed by a glyph of another cluster grows by `t`,
/// and nothing else changes.
pub open spec fn with_tracking(before: Seq<ShapedGlyph>, after: Seq<ShapedGlyph>, t: int) -> bool {
    &&& after.len() == before.len()
    &&& forall|i: int|
        0 <= i < before.len() ==> {
            &&& #[trigger] after[i] == ShapedGlyph { x_advance: after[i].x_advance, ..before[i] }
            &&& after[i].x_advance == before[i].x_advance + if tracking_applies(before, i) {
                t
            } else {
                0
            }
        }
}

/// Apply tracking to a run of shaped glyphs.
fn track(glyphs: &mut Vec<ShapedGlyph>, tracking: i64)
    requires
        -MAX_TRACKING <= tracking <= MAX_TRACKING,
        forall|i: int|
            0 <= i < old(glyphs)@.len() ==> -MAX_FONT_EM <= #[trigger] old(glyphs)@[i].x_advance
                <= MAX_FONT_EM,
    ensures
        with_tracking(old(glyphs)@, final(glyphs)@, tracking as int),
{
    if tracking == 0 {
        return;
    }
    let ghost before = glyphs@;
    let n = glyphs.len();
    let mut i: usize = 0;
    while i < n
        invariant
            n == before.len(),
            i <= n,
            glyphs@.len() == n,
            forall|j: int| i <= j < n ==> #[trigger] glyphs@[j] == before[j],
            forall|j: int|
                0 <= j < i ==> {
                    &&& #[trigger] glyphs@[j] == ShapedGlyph {
                        x_advance: glyphs@[j].x_advance,
                        ..before[j]
                    }
                    &&& glyphs@[j].x_advance == before[j].x_advance + if tracking_applies(
                        before,
                        j,
                    ) {
                        tracking as int
                    } else {
                        0
                    }
                },
            forall|j: int|
                0 <= j < n ==> -MAX_FONT_EM <= #[trigger] before[j].x_advance <= MAX_FONT_EM,
            -MAX_TRACKING <= tracking <= MAX_TRACKING,
        decreases n - i,
    {
        if i + 1 < n && glyphs[i].text_index != glyphs[i + 1].text_index {
            let mut g = glyphs[i];
            g.x_advance = g.x_advance + tracking;
            glyphs.set(i, g);
        }
        i += 1;
    }
}

/// Applying tracking twice adds it twice: every glyph that takes tracking
/// grows by twice the value, so a second application changes the run
/// whenever the value is non-zero and some glyph takes it.
pub proof fn lemma_tracking_compounds(
    a: Seq<ShapedGlyph>,
    b: Seq<ShapedGlyph>,
    c: Seq<ShapedGlyph>,
    t: int,
)
    requires
        with_tracking(a, b, t),
        with_tracking(b, c, t),
    ensures
        forall|i: int|
            0 <= i < a.len() && tracking_applies(a, i) ==> #[trigger] c[i].x_advance
                == a[i].x_advance + 2 * t,
        t != 0 && (exists|i: int| 0 <= i < a.len() && tracking_applies(a, i)) ==> c != b,
{
    assert forall|i: int| 0 <= i < a.len() implies tracking_applies(b, i) == tracking_applies(
        a,
        i,
    ) by {
        if i + 1 < a.len() {
            assert(b[i] == ShapedGlyph { x_advance: b[i].x_advance, ..a[i] });
            assert(b[i + 1] == ShapedGlyph { x_advance: b[i + 1].x_advance, ..a[i + 1] });
        }
    }
    if t != 0 && (exists|i: int| 0 <= i < a.len() && tracking_applies(a, i)) {
        let i = choose|i: int| 0 <= i < a.len() && tracking_applies(a, i);
        assert(tracking_applies(b, i));
        assert(c[i].x_advance == b[i].x_advance + t);
    }
}

/// The sum of the resolved advances of a run.
pub open spec fn run_width(gs: Seq<ShapedGlyph>, size: int) -> int
    decreases gs.len(),
{
    if gs.len() == 0 {
        0
    } else {
        run_width(gs.drop_last(), size) + resolved(gs.last().x_advance as int, size)
    }
}

/// How far a run reaches above the baseline: the largest top metric of the
/// faces its glyphs use, and at least zero.
pub open spec fn run_top(store: FontStore, gs: Seq<ShapedGlyph>, styles: TextNode) -> int
    decreases gs.len(),
{
    if gs.len() == 0 {
        0
    } else {
        max(
            run_top(store, gs.drop_last(), styles),
            metric_at(store.faces@[gs.last().face_id as int], styles.top_edge, styles.size as int),
        )
    }
}

/// How far a run reaches below the baseline: the largest negated bottom
/// metric of the faces its glyphs use, and at least zero.
pub open spec fn run_bottom(store: FontStore, gs: Seq<ShapedGlyph>, styles: TextNode) -> int
    decreases gs.len(),
{
    if gs.len() == 0 {
        0
    } else {
        max(
            run_bottom(store, gs.drop_last(), styles),
            -metric_at(
                store.faces@[gs.last().face_id as int],
                styles.bottom_edge,
                styles.size as int,
            ),
        )
    }
}

/// The face selected by the first family at or after `i` that selects one.
pub open spec fn first_selected(
    store: FontStore,
    names: Seq<Seq<char>>,
    i: int,
    variant: FontVariant,
) -> Option<usize>
    decreases names.len() - i,
{
    if i < 0 || i >= names.len() {
        None
    } else {
        match selected(store, names[i], variant) {
            Some(id) => Some(id),
            None => first_selected(store, names, i + 1, variant),
        }
    }
}

/// Size and baseline of a run: the width is the sum of the advances; the
/// top and bottom are the largest extents of the faces used, or, for an
/// empty run, those of the first family that selects a face (zero when none
/// does); the height is their sum and the baseline lies at the top.
pub open spec fn measured(store: FontStore, gs: Seq<ShapedGlyph>, styles: TextNode) -> (Size, int) {
    let (top, bottom) = if gs.len() == 0 {
        match first_selected(store, family_names(styles), 0, variant_of(styles)) {
            Some(id) => (
                max(0, metric_at(store.faces@[id as int], styles.top_edge, styles.size as int)),
                max(0, -metric_at(store.faces@[id as int], styles.bottom_edge, styles.size as int)),
            ),
            None => (0, 0),
        }
    } else {
        (run_top(store, gs, styles), run_bottom(store, gs, styles))
    };
    (
        Size { width: run_width(gs, styles.size as int) as i128, height: (top + bottom) as i128 },
        top,
    )
}

/// The first face that a family at or after `start` of `names` selects.
fn first_face_of(store: &FontStore, names: &Vec<String>, start: usize, v: FontVariant) -> (r:
    Option<usize>)
    requires
        start <= names@.len(),
    ensures
        r == first_selected(*store, string_names(names@), start as int, v),
        r matches Some(id) ==> id < store.faces@.len(),
{
    let ghost fams = string_names(names@);
    let mut k: usize = start;
    while k < names.len()
        invariant
            start <= k <= names@.len(),
            fams == string_names(names@),
            first_selected(*store, fams, start as int, v) == first_selected(
                *store,
                fams,
                k as int,
                v,
            ),
        decreases names.len() - k,
    {
        let sel = store.select(&names[k], v);
        assert(fams[k as int] == names@[k as int]@);
        if sel.is_some() {
            return sel;
        }
        k += 1;
    }
    None
}

/// Measure the size and baseline of a run of shaped glyphs with the given
/// styles.
fn measure(store: &FontStore, glyphs: &Vec<ShapedGlyph>, styles: &TextNode) -> (r: (Size, i128))
    requires
        store.wf(),
        size_in_range(styles.size as int),
        glyphs_fit(*store, glyphs@),
    ensures
        r.0 == measured(*store, glyphs@, *styles).0,
        r.1 == measured(*store, glyphs@, *styles).1,
        0 <= r.1 <= i64::MAX + 1,
{
    let size = styles.size;
    let ghost gs = glyphs@;
    if glyphs.len() == 0 {
        let names = families(styles);
        match first_face_of(store, &names, 0, variant(styles)) {
            Some(id) => {
                let face = &store.faces[id];
                let t = vertical_metric(face, styles.top_edge, size);
                let b = vertical_metric(face, styles.bottom_edge, size);
                let top: i128 = if t > 0 { t } else { 0 };
                let bottom: i128 = if -b > 0 { -b } else { 0 };
                return (Size { width: 0, height: top + bottom }, top);
            },
            None => {
                return (Size { width: 0, height: 0 }, 0);
            },
        }
    }
    let mut width: i128 = 0;
    let mut top: i128 = 0;
    let mut bottom: i128 = 0;
    let mut i: usize = 0;
    while i < glyphs.len()
        invariant
            gs == glyphs@,
            store.wf(),
            size == styles.size,
            size_in_range(size as int),
            glyphs_fit(*store, gs),
            i <= gs.len(),
            width == run_width(gs.subrange(0, i as int), size as int),
            -(i as int) * (i64::MAX as int) <= width <= (i as int) * (i64::MAX as int),
            top == run_top(*store, gs.subrange(0, i as int), *styles),
            bottom == run_bottom(*store, gs.subrange(0, i as int), *styles),
            0 <= top <= i64::MAX + 1,
            0 <= bottom <= i64::MAX + 1,
        decreases gs.len() - i,
    {
        let g = glyphs[i];
        assert(glyph_fits(*store, gs[i as int]));
        let face = &store.faces[g.face_id];
        let adv = resolve(g.x_advance, size);
        proof {
            assert((i as int) < usize::MAX);
            assert((i as int + 1) * (i64::MAX as int) < i128::MAX) by (nonlinear_arith)
                requires 0 <= i < usize::MAX, usize::MAX <= u64::MAX;
        }
        width = width + adv;
        let t = vertical_metric(face, styles.top_edge, size);
        let b = vertical_metric(face, styles.bottom_edge, size);
        if t > top {
            top = t;
        }
        if -b > bottom {
            bottom = -b;
        }
        proof {
            let next = gs.subrange(0, i + 1);
            assert(next.drop_last() =~= gs.subrange(0, i as int));
            assert(next.last() == g);
        }
        i += 1;
    }
    assert(gs.subrange(0, gs.len() as int) =~= gs);
    (Size { width, height: top + bottom }, top)
}

/// Whether every byte of a text is a line feed (true of the empty text).
pub open spec fn only_newlines(bytes: Seq<u8>) -> bool {
    forall|i: int| 0 <= i < bytes.len() ==> bytes[i] == 10
}

/// Whether every byte of `text` is a line feed.
fn is_only_newlines(text: &str) -> (r: bool)
    ensures
        r == only_newlines(text.spec_bytes()),
{
    let bytes = text.as_bytes();
    let mut i: usize = 0;
    while i < bytes.len()
        invariant
            bytes@ == text.spec_bytes(),
            i <= bytes@.len(),
            forall|j: int| 0 <= j < i ==> bytes@[j] == 10,
        decreases bytes@.len() - i,
    {
        if bytes[i] != 10 {
            return false;
        }
        i += 1;
    }
    true
}

/// The length of a text in bytes.
fn byte_len(text: &str) -> (r: usize)
    ensures
        r == text.spec_bytes().len(),
{
    text.as_bytes().len()
}

/// Whether `start..end` is a range of `bytes` whose ends are character
/// boundaries (the end is checked in what follows the start).
pub open spec fn char_range(bytes: Seq<u8>, start: int, end: int) -> bool {
    &&& 0 <= start <= end <= bytes.len()
    &&& is_char_boundary(bytes, start)
    &&& is_char_boundary(bytes.subrange(start, bytes.len() as int), end - start)
}

/// The bytes `start..end` of `text`, where both ends are character
/// boundaries.
fn substr(text: &str, start: usize, end: usize) -> (r: Option<&str>)
    ensures
        char_range(text.spec_bytes(), start as int, end as int) ==> r is Some,
        r matches Some(sub) ==> start <= end <= text.spec_bytes().len() && sub.spec_bytes()
            == text.spec_bytes().subrange(start as int, end as int),
{
    if start > end || end > byte_len(text) || !text.is_char_boundary(start) {
        return None;
    }
    let (_, rest) = text.split_at(start);
    if !rest.is_char_boundary(end - start) {
        return None;
    }
    let (sub, _) = rest.split_at(end - start);
    assert(sub.spec_bytes() =~= text.spec_bytes().subrange(start as int, end as int));
    Some(sub)
}

/// The run of tofus that starts at glyph `first` of an engine result, and
/// the text range it covers, as (last glyph, start, end). The run extends
/// over the following glyphs with index 0. In left-to-right text the range
/// starts at the cluster of the run's first glyph and ends at the cluster of
/// the glyph after it; in right-to-left text the clusters decrease from left
/// to right, so it starts at the cluster of the run's last glyph and ends at
/// the cluster of the glyph before it. Without such a glyph the range ends
/// at `text_len`.
pub fn tofu_run(raw: &Vec<RawGlyph>, first: usize, rtl: bool, text_len: usize) -> (r: (
    usize,
    usize,
    usize,
))
    requires
        first < raw@.len(),
    ensures
        first <= r.0 < raw@.len(),
        forall|j: int| first < j <= r.0 ==> (#[trigger] raw@[j]).glyph_id == 0,
        r.0 + 1 == raw@.len() || raw@[r.0 + 1].glyph_id != 0,
        !rtl ==> r.1 == raw@[first as int].cluster && r.2 == if r.0 + 1 < raw@.len() {
            raw@[r.0 + 1].cluster as usize
        } else {
            text_len
        },
        rtl ==> r.1 == raw@[r.0 as int].cluster && r.2 == if first >= 1 {
            raw@[first - 1].cluster as usize
        } else {
            text_len
        },
{
    let n = raw.len();
    let mut i = first;
    while i + 1 < n && raw[i + 1].glyph_id == 0
        invariant
            n == raw@.len(),
            first <= i < n,
            forall|j: int| first < j <= i ==> (#[trigger] raw@[j]).glyph_id == 0,
        decreases n - i,
    {
        i += 1;
    }
    if !rtl {
        let end = if i + 1 < n {
            raw[i + 1].cluster as usize
        } else {
            text_len
        };
        (i, raw[first].cluster as usize, end)
    } else {
        let end = if first >= 1 {
            raw[first - 1].cluster as usize
        } else {
            text_len
        };
        (i, raw[i].cluster as usize, end)
    }
}

/// The glyph that a glyph of the engine becomes: its index, its advance and
/// offset in em units of the face, its cluster moved by `base`, and safe to
/// break unless the engine says otherwise.
pub open spec fn converted(r: (u32, u32, i32, i32, bool), face_id: usize, upem: u16, base: int) -> ShapedGlyph {
    ShapedGlyph {
        face_id,
        glyph_id: r.0 as u16,
        x_advance: em_of(r.2 as int, upem as int) as i64,
        x_offset: em_of(r.3 as int, upem as int) as i64,
        text_index: (base + r.1) as usize,
        safe_to_break: !r.4,
    }
}

/// Whether the engine mapped every glyph: no index is 0 or beyond 16 bits,
/// and every cluster lies inside the text of `len` bytes.
pub open spec fn all_mapped(raw: Seq<(u32, u32, i32, i32, bool)>, len: int) -> bool {
    forall|j: int| 0 <= j < raw.len() ==> 0 < (#[trigger] raw[j]).0 <= 0xFFFF && raw[j].1 < len
}

/// What the engine gives for a text with the face that the first family at
/// or after `next` selects, if any.
pub open spec fn first_engine_glyphs(
    store: FontStore,
    names: Seq<Seq<char>>,
    next: int,
    variant: FontVariant,
    text: Seq<char>,
    rtl: bool,
    features: Seq<(u32, u32)>,
) -> Option<(usize, Seq<(u32, u32, i32, i32, bool)>)> {
    match first_selected(store, names, next, variant) {
        Some(id) => Some(
            (
                id,
                engine_glyphs(
                    store.faces@[id as int].data@,
                    store.faces@[id as int].index,
                    text,
                    rtl,
                    features,
                ),
            ),
        ),
        None => None,
    }
}

/// The face that shapes tofus: the one already chosen, else the first face
/// that a family at or after `next` selects.
pub open spec fn anchor_face(
    store: FontStore,
    names: Seq<Seq<char>>,
    next: int,
    variant: FontVariant,
    first_face: Option<usize>,
) -> Option<usize> {
    match first_face {
        Some(id) => Some(id),
        None => first_selected(store, names, next, variant),
    }
}

/// What segment shaping guarantees of the glyphs it appends to `before`:
/// the glyphs already there stay; each new glyph fits the store, has an
/// advance and offset converted from design units, and a text index inside
/// `base..base + len`; a tofu (glyph 0) among them comes from the anchor
/// face.
pub open spec fn appended_ok(
    store: FontStore,
    before: Seq<ShapedGlyph>,
    after: Seq<ShapedGlyph>,
    base: int,
    len: int,
    anchor: Option<usize>,
) -> bool {
    &&& after.len() >= before.len()
    &&& after.subrange(0, before.len() as int) == before
    &&& forall|i: int|
        before.len() <= i < after.len() ==> {
            &&& glyph_fits(store, #[trigger] after[i])
            &&& -MAX_FONT_EM <= after[i].x_advance <= MAX_FONT_EM
            &&& base <= after[i].text_index < base + len
            &&& after[i].glyph_id == 0 ==> anchor == Some(after[i].face_id)
        }
}

proof fn lemma_appended_trans(
    store: FontStore,
    a: Seq<ShapedGlyph>,
    b: Seq<ShapedGlyph>,
    c: Seq<ShapedGlyph>,
    base: int,
    len: int,
    base2: int,
    len2: int,
    anchor: Option<usize>,
)
    requires
        appended_ok(store, a, b, base, len, anchor),
        appended_ok(store, b, c, base2, len2, anchor),
        base <= base2,
        base2 + len2 <= base + len,
    ensures
        appended_ok(store, a, c, base, len, anchor),
{
    assert(c.subrange(0, a.len() as int) =~= b.subrange(0, a.len() as int)) by {
        assert forall|i: int| 0 <= i < a.len() implies c[i] == b[i] by {
            assert(c.subrange(0, b.len() as int)[i] == b[i]);
        }
    }
    assert forall|i: int| a.len() <= i < c.len() implies {
        &&& glyph_fits(store, #[trigger] c[i])
        &&& -MAX_FONT_EM <= c[i].x_advance <= MAX_FONT_EM
        &&& base <= c[i].text_index < base + len
        &&& c[i].glyph_id == 0 ==> anchor == Some(c[i].face_id)
    } by {
        if i < b.len() {
            assert(c.subrange(0, b.len() as int)[i] == b[i]);
        }
    }
}

/// Shape text with font fallback: pick the face of the first family at or
/// after `next` that selects one (else the anchor face, with no further
/// fallback), shape with it, and shape every run of tofus again with the
/// remaining families.
fn shape_segment(
    store: &FontStore,
    glyphs: &mut Vec<ShapedGlyph>,
    base: usize,
    text: &str,
    variant: FontVariant,
    names: &Vec<String>,
    next: usize,
    first_face: Option<usize>,
    dir: Dir,
    features: &Vec<(u32, u32)>,
)
    requires
        store.wf(),
        next <= names@.len(),
        first_face matches Some(id) ==> id < store.faces@.len(),
        base + text.spec_bytes().len() <= usize::MAX,
    ensures
        appended_ok(
            *store,
            old(glyphs)@,
            final(glyphs)@,
            base as int,
            text.spec_bytes().len() as int,
            anchor_face(*store, string_names(names@), next as int, variant, first_face),
        ),
        only_newlines(text.spec_bytes()) ==> final(glyphs)@ == old(glyphs)@,
        // Where the first face maps everything, its glyphs are taken as they
        // are.
        !only_newlines(text.spec_bytes()) ==> match first_engine_glyphs(
            *store,
            string_names(names@),
            next as int,
            variant,
            text@,
            dir == Dir::RTL,
            features@,
        ) {
            Some((id, raw)) => all_mapped(raw, text.spec_bytes().len() as int) ==> final(glyphs)@
                == old(glyphs)@ + raw.map_values(
                |r: (u32, u32, i32, i32, bool)|
                    converted(r, id, store.faces@[id as int].units_per_em, base as int),
            ),
            None => true,
        },
    decreases names@.len() - next,
{
    let ghost before = glyphs@;
    let ghost fams = string_names(names@);
    let ghost anchor = anchor_face(*store, fams, next as int, variant, first_face);
    let ghost len = text.spec_bytes().len() as int;
    assert(glyphs@.subrange(0, before.len() as int) =~= before);
    // No font has newlines.
    if is_only_newlines(text) {
        return;
    }
    // Select the font family.
    let mut k: usize = next;
    let mut chosen: Option<usize> = None;
    while k < names.len() && chosen.is_none()
        invariant
            next <= k <= names@.len(),
            fams == string_names(names@),
            chosen is None ==> first_selected(*store, fams, next as int, variant)
                == first_selected(*store, fams, k as int, variant),
            chosen matches Some(id) ==> k > next && id < store.faces@.len() && first_selected(
                *store,
                fams,
                next as int,
                variant,
            ) == Some(id),
        decreases names.len() - k,
    {
        assert(fams[k as int] == names@[k as int]@);
        chosen = store.select(&names[k], variant);
        k += 1;
    }
    // Out of families: shape the tofus with the first face used, without
    // further fallback.
    let (face_id, fallback) = match chosen {
        Some(id) => (id, true),
        None => match first_face {
            Some(id) => (id, false),
            None => {
                return;
            },
        },
    };
    let anchor_id = match first_face {
        Some(id) => id,
        None => face_id,
    };
    assert(anchor == Some(anchor_id));
    let face = &store.faces[face_id];
    let upem = face.units_per_em;
    let rtl = match dir {
        Dir::LTR => false,
        Dir::RTL => true,
    };
    let raw = shape_text(&face.data, face.index, text, rtl, features);
    let ghost eng = raw@.map_values(|g: RawGlyph| raw_fields(g));
    let ghost conv = |r: (u32, u32, i32, i32, bool)| converted(r, face_id, upem, base as int);
    let n = raw.len();
    let mut i: usize = 0;
    assert(glyphs@ =~= before + eng.subrange(0, 0).map_values(conv));
    while i < n
        invariant
            n == raw@.len(),
            eng == raw@.map_values(|g: RawGlyph| raw_fields(g)),
            conv == (|r: (u32, u32, i32, i32, bool)| converted(r, face_id, upem, base as int)),
            fallback && all_mapped(eng, len) ==> glyphs@ == before + eng.subrange(0, i as int).map_values(conv),
            i <= n,
            store.wf(),
            face_id < store.faces@.len(),
            upem == store.faces@[face_id as int].units_per_em,
            upem > 0,
            fallback ==> k > next,
            next <= k <= names@.len(),
            !fallback ==> face_id == anchor_id,
            anchor == Some(anchor_id),
            anchor_id < store.faces@.len(),
            fams == string_names(names@),
            len == text.spec_bytes().len(),
            base + len <= usize::MAX,
            appended_ok(*store, before, glyphs@, base as int, len, anchor),
        decreases n - i,
    {
        let info: RawGlyph = raw[i];
        proof {
            if fallback && all_mapped(eng, len) {
                assert(eng[i as int] == raw_fields(info));
                assert(0 < info.glyph_id <= 0xFFFF && info.cluster < len);
            }
        }
        if info.glyph_id != 0 || !fallback {
            // Clusters lie inside the text and glyph indices fit 16 bits.
            if (info.cluster as usize) < text.len() && info.glyph_id <= 0xFFFF {
                let g = ShapedGlyph {
                    face_id,
                    glyph_id: info.glyph_id as u16,
                    x_advance: to_em(info.x_advance, upem),
                    x_offset: to_em(info.x_offset, upem),
                    text_index: base + info.cluster as usize,
                    safe_to_break: !info.unsafe_to_break,
                };
                let ghost mid = glyphs@;
                glyphs.push(g);
                proof {
                    if fallback && all_mapped(eng, len) {
                        assert(eng[i as int] == raw_fields(info));
                        assert(g == conv(eng[i as int]));
                        assert(glyphs@ =~= before + eng.subrange(0, i + 1).map_values(conv));
                    }
                    assert(glyphs@.subrange(0, before.len() as int) =~= mid.subrange(
                        0,
                        before.len() as int,
                    ));
                    assert(glyphs@[mid.len() as int] == g);
                    assert forall|j: int| before.len() <= j < glyphs@.len() implies {
                        &&& glyph_fits(*store, #[trigger] glyphs@[j])
                        &&& -MAX_FONT_EM <= glyphs@[j].x_advance <= MAX_FONT_EM
                        &&& base <= glyphs@[j].text_index < base + len
                        &&& glyphs@[j].glyph_id == 0 ==> anchor == Some(glyphs@[j].face_id)
                    } by {
                        if j < mid.len() {
                            assert(glyphs@[j] == mid[j]);
                        }
                    }
                }
            }
        } else {
            let (last, start, end) = tofu_run(&raw, i, rtl, text.len());
            i = last;
            // Shape the run again with the remaining families.
            match substr(text, start, end) {
                Some(sub) => {
                    let ghost mid = glyphs@;
                    shape_segment(
                        store,
                        glyphs,
                        base + start,
                        sub,
                        variant,
                        names,
                        k,
                        Some(anchor_id),
                        dir,
                        features,
                    );
                    proof {
                        lemma_appended_trans(
                            *store,
                            before,
                            mid,
                            glyphs@,
                            base as int,
                            len,
                            base + start,
                            end - start,
                            anchor,
                        );
                    }
                },
                None => {},
            }
        }
        i += 1;
    }
}

/// The result of shaping text.
#[derive(Debug)]
pub struct ShapedText<'a> {
    /// The text that was shaped.
    pub text: String,
    /// The text direction.
    pub dir: Dir,
    /// The text's style properties.
    pub styles: &'a TextNode,
    /// The size of the run.
    pub size: Size,
    /// The baseline from the top of the run.
    pub baseline: i128,
    /// The shaped glyphs, in visual order.
    pub glyphs: Vec<ShapedGlyph>,
}

/// Whether the styles can be shaped with: the font size and the tracking are
/// in range.
pub open spec fn styles_ok(styles: TextNode) -> bool {
    &&& size_in_range(styles.size as int)
    &&& -MAX_TRACKING <= styles.tracking <= MAX_TRACKING
}

/// The text that shaping works on: the text with the case transformation of
/// the styles applied.
pub open spec fn cased(styles: TextNode, text: Seq<char>) -> Seq<char> {
    match styles.case {
        Some(c) => crate::style::case_applied(c, text),
        None => text,
    }
}

/// What shaping guarantees of the glyphs of a run of `len` bytes: they are
/// what segment shaping from the first family gave, with the styles'
/// tracking applied once.
pub open spec fn shaped_glyphs_ok(
    store: FontStore,
    styles: TextNode,
    glyphs: Seq<ShapedGlyph>,
    len: int,
) -> bool {
    exists|pre: Seq<ShapedGlyph>|
        appended_ok(
            store,
            Seq::empty(),
            pre,
            0,
            len,
            first_selected(store, family_names(styles), 0, variant_of(styles)),
        ) && with_tracking(pre, glyphs, styles.tracking as int)
}

/// Shape text into a [`ShapedText`].
pub fn shape<'a>(store: &FontStore, text: &str, styles: &'a TextNode, dir: Dir) -> (r: ShapedText<'a>)
    requires
        store.wf(),
        styles_ok(*styles),
    ensures
        r.text@ == cased(*styles, text@),
        r.dir == dir,
        r.styles == styles,
        shaped_glyphs_ok(*store, *styles, r.glyphs@, encode_utf8(r.text@).len() as int),
        only_newlines(encode_utf8(r.text@)) ==> r.glyphs@.len() == 0,
        // Where the first face maps everything, its glyphs are taken as they
        // are, with tracking.
        !only_newlines(encode_utf8(r.text@)) ==> match first_engine_glyphs(
            *store,
            family_names(*styles),
            0,
            variant_of(*styles),
            r.text@,
            dir == Dir::RTL,
            crate::resolve::feature_list(*styles),
        ) {
            Some((id, raw)) => all_mapped(raw, encode_utf8(r.text@).len() as int) ==> with_tracking(
                raw.map_values(
                    |g: (u32, u32, i32, i32, bool)|
                        converted(g, id, store.faces@[id as int].units_per_em, 0),
                ),
                r.glyphs@,
                styles.tracking as int,
            ),
            None => true,
        },
        glyphs_fit(*store, r.glyphs@),
        r.size == measured(*store, r.glyphs@, *styles).0,
        r.baseline == measured(*store, r.glyphs@, *styles).1,
        0 <= r.baseline <= i64::MAX + 1,
{
    let owned: String = match styles.case {
        Some(c) => c.apply(text),
        None => text.to_owned(),
    };
    let shaped: &str = owned.as_str();
    let mut glyphs: Vec<ShapedGlyph> = Vec::new();
    let names = families(styles);
    let ghost anchor = first_selected(*store, family_names(*styles), 0, variant_of(*styles));
    let ghost len = shaped.spec_bytes().len() as int;
    let shaped_len = byte_len(shaped);
    if shaped_len > 0 {
        shape_segment(
            store,
            &mut glyphs,
            0,
            shaped,
            variant(styles),
            &names,
            0,
            None,
            dir,
            &tags(styles),
        );
    }
    assert(appended_ok(*store, Seq::empty(), glyphs@, 0, len, anchor)) by {
        assert(glyphs@.subrange(0, 0) =~= Seq::<ShapedGlyph>::empty());
    }
    let ghost pre = glyphs@;
    proof {
        if !only_newlines(encode_utf8(owned@)) {
            match first_engine_glyphs(
                *store,
                family_names(*styles),
                0,
                variant_of(*styles),
                owned@,
                dir == Dir::RTL,
                crate::resolve::feature_list(*styles),
            ) {
                Some((id, raw)) => {
                    let conv = |g: (u32, u32, i32, i32, bool)|
                        converted(g, id, store.faces@[id as int].units_per_em, 0);
                    if all_mapped(raw, len) {
                        assert(Seq::<ShapedGlyph>::empty() + raw.map_values(conv) =~= raw.map_values(conv));
                    }
                },
                None => {},
            }
        }
    }
    track(&mut glyphs, styles.tracking);
    assert(glyphs_fit(*store, glyphs@)) by {
        assert forall|i: int| 0 <= i < glyphs@.len() implies glyph_fits(*store, #[trigger] glyphs@[i]) by {
            assert(glyph_fits(*store, pre[i]));
        }
    }
    let (size, baseline) = measure(store, &glyphs, styles);
    ShapedText { text: owned, dir, styles, size, baseline, glyphs }
}

/// Whether glyph `i` comes before glyph `j`'s cluster in text order
/// allowed by the direction: text indices never decrease from left to right
/// in left-to-right text, and never increase in right-to-left text.
pub open spec fn in_text_order(gs: Seq<ShapedGlyph>, rtl: bool) -> bool {
    forall|i: int, j: int|
        0 <= i < j < gs.len() ==> if rtl {
            gs[i].text_index >= gs[j].text_index
        } else {
            gs[i].text_index <= gs[j].text_index
        }
}

/// Whether every glyph's text index lies below `n`.
pub open spec fn indices_below(gs: Seq<ShapedGlyph>, n: int) -> bool {
    forall|i: int| 0 <= i < gs.len() ==> #[trigger] gs[i].text_index < n
}

/// Whether glyph `i` is the first glyph of its cluster in text order: in
/// left-to-right text its left neighbour, in right-to-left text its right
/// neighbour, belongs to another cluster.
pub open spec fn starts_cluster(gs: Seq<ShapedGlyph>, i: int, rtl: bool) -> bool {
    if rtl {
        i + 1 == gs.len() || gs[i + 1].text_index != gs[i].text_index
    } else {
        i == 0 || gs[i - 1].text_index != gs[i].text_index
    }
}

/// Whether the text may be split at byte `b` without reshaping: `b` is an
/// end of the text, or the first glyph of the cluster that starts at `b` is
/// marked safe to break.
pub open spec fn safe_boundary(gs: Seq<ShapedGlyph>, rtl: bool, n: int, b: int) -> bool {
    b == 0 || b == n || exists|i: int|
        0 <= i < gs.len() && #[trigger] gs[i].text_index == b && gs[i].safe_to_break
            && starts_cluster(gs, i, rtl)
}

/// Whether glyph `i` lies visually before the text position `b`.
pub open spec fn before_boundary(g: ShapedGlyph, rtl: bool, b: int) -> bool {
    if rtl {
        g.text_index >= b
    } else {
        g.text_index < b
    }
}

/// Whether `p` splits the glyphs at the text position `b`: the glyphs left
/// of `p` lie before it, the others after it.
pub open spec fn splits_at(gs: Seq<ShapedGlyph>, rtl: bool, b: int, p: int) -> bool {
    &&& 0 <= p <= gs.len()
    &&& forall|i: int| 0 <= i < p ==> before_boundary(#[trigger] gs[i], rtl, b)
    &&& forall|i: int| p <= i < gs.len() ==> !before_boundary(#[trigger] gs[i], rtl, b)
}

impl<'a> ShapedText<'a> {
    /// The glyph offset at which the glyphs split at text index `b`, if the
    /// split is safe to break.
    fn find_safe_to_break(&self, b: usize) -> (r: Option<usize>)
        requires
            in_text_order(self.glyphs@, self.dir == Dir::RTL),
            indices_below(self.glyphs@, encode_utf8(self.text@).len() as int),
            b <= encode_utf8(self.text@).len(),
        ensures
            r is Some <==> safe_boundary(
                self.glyphs@,
                self.dir == Dir::RTL,
                encode_utf8(self.text@).len() as int,
                b as int,
            ),
            r matches Some(p) ==> splits_at(self.glyphs@, self.dir == Dir::RTL, b as int, p as int),
    {
        let rtl = self.dir == Dir::RTL;
        let ghost gs = self.glyphs@;
        let n = byte_len(self.text.as_str());
        let len = self.glyphs.len();
        // Binary search for the first glyph that lies after the position.
        let mut lo: usize = 0;
        let mut hi: usize = len;
        while lo < hi
            invariant
                gs == self.glyphs@,
                len == gs.len(),
                rtl == (self.dir == Dir::RTL),
                in_text_order(gs, rtl),
                0 <= lo <= hi <= len,
                forall|i: int| 0 <= i < lo ==> before_boundary(#[trigger] gs[i], rtl, b as int),
                forall|i: int| hi <= i < len ==> !before_boundary(#[trigger] gs[i], rtl, b as int),
            decreases hi - lo,
        {
            let mid = lo + (hi - lo) / 2;
            let ti = self.glyphs[mid].text_index;
            let before = if rtl {
                ti >= b
            } else {
                ti < b
            };
            if before {
                lo = mid + 1;
            } else {
                hi = mid;
            }
        }
        let p = lo;
        assert(splits_at(gs, rtl, b as int, p as int));
        if b == 0 || b == n {
            return Some(p);
        }
        // The first glyph of the cluster in text order decides.
        let found = if !rtl {
            p < len && self.glyphs[p].text_index == b && self.glyphs[p].safe_to_break
        } else {
            p > 0 && self.glyphs[p - 1].text_index == b && self.glyphs[p - 1].safe_to_break
        };
        proof {
            if found {
                let w: int = if rtl { p - 1 } else { p as int };
                assert(gs[w].text_index == b && gs[w].safe_to_break && starts_cluster(gs, w, rtl));
            } else if safe_boundary(gs, rtl, n as int, b as int) {
                let w = choose|i: int|
                    0 <= i < gs.len() && #[trigger] gs[i].text_index == b && gs[i].safe_to_break
                        && starts_cluster(gs, i, rtl);
                if rtl {
                    assert(w < p);
                    if w + 1 < p {
                        assert(gs[w + 1].text_index >= b);
                        assert(gs[w].text_index >= gs[w + 1].text_index);
                    }
                } else {
                    assert(w >= p);
                    if w > p {
                        assert(gs[w - 1].text_index >= b);
                        assert(gs[w - 1].text_index <= gs[w].text_index);
                    }
                }
            }
        }
        if found {
            Some(p)
        } else {
            None
        }
    }

    /// The glyphs `l..r` that represent the text range `start..end`, if both
    /// ends are safe to break.
    fn slice_safe_to_break(&self, start: usize, end: usize) -> (r: Option<(usize, usize)>)
        requires
            in_text_order(self.glyphs@, self.dir == Dir::RTL),
            indices_below(self.glyphs@, encode_utf8(self.text@).len() as int),
            start <= end <= encode_utf8(self.text@).len(),
        ensures
            r is Some <==> safe_boundary(
                self.glyphs@,
                self.dir == Dir::RTL,
                encode_utf8(self.text@).len() as int,
                start as int,
            ) && safe_boundary(
                self.glyphs@,
                self.dir == Dir::RTL,
                encode_utf8(self.text@).len() as int,
                end as int,
            ),
            r matches Some((l, h)) ==> l <= h <= self.glyphs@.len() && forall|i: int|
                0 <= i < self.glyphs@.len() ==> ((l <= i < h) <==> (start
                    <= #[trigger] self.glyphs@[i].text_index < end)),
    {
        let a = self.find_safe_to_break(start);
        let b = self.find_safe_to_break(end);
        match (a, b) {
            (Some(pa), Some(pb)) => {
                proof {
                    let gs = self.glyphs@;
                    let rtl = self.dir == Dir::RTL;
                    let (l, h) = if rtl { (pb as int, pa as int) } else { (pa as int, pb as int) };
                    assert forall|i: int| 0 <= i < gs.len() implies ((l <= i < h) <==> (start
                        <= #[trigger] gs[i].text_index < end)) by {
                        assert(before_boundary(gs[i], rtl, start as int) == (i < pa));
                        assert(before_boundary(gs[i], rtl, end as int) == (i < pb));
                    }
                    if l > h {
                        assert(before_boundary(gs[h], rtl, start as int) == (h < pa));
                        assert(before_boundary(gs[h], rtl, end as int) == (h < pb));
                    }
                }
                if self.dir == Dir::RTL {
                    Some((pb, pa))
                } else {
                    Some((pa, pb))
                }
            },
            _ => None,
        }
    }

    /// Whether the run can be measured and reshaped: its styles are in
    /// range and its glyphs fit the store.
    pub open spec fn wf(&self, store: FontStore) -> bool {
        &&& styles_ok(*self.styles)
        &&& glyphs_fit(store, self.glyphs@)
    }

    /// Whether the glyphs are in text order and their indices lie in the
    /// text, so that a sub-range can be found by searching.
    fn is_searchable(&self) -> (r: bool)
        ensures
            r == (in_text_order(self.glyphs@, self.dir == Dir::RTL) && indices_below(
                self.glyphs@,
                encode_utf8(self.text@).len() as int,
            )),
    {
        let rtl = self.dir == Dir::RTL;
        let n = byte_len(self.text.as_str());
        let len = self.glyphs.len();
        let ghost gs = self.glyphs@;
        let mut i: usize = 0;
        while i < len
            invariant
                gs == self.glyphs@,
                len == gs.len(),
                rtl == (self.dir == Dir::RTL),
                n == encode_utf8(self.text@).len(),
                i <= len,
                forall|j: int| 0 <= j < i ==> #[trigger] gs[j].text_index < n,
                forall|j: int, k: int|
                    0 <= j < k <= i && k < len ==> if rtl {
                        gs[j].text_index >= gs[k].text_index
                    } else {
                        gs[j].text_index <= gs[k].text_index
                    },
            decreases len - i,
        {
            let ti = self.glyphs[i].text_index;
            if ti >= n {
                return false;
            }
            if i + 1 < len {
                let next = self.glyphs[i + 1].text_index;
                if (rtl && ti < next) || (!rtl && ti > next) {
                    assert(!in_text_order(gs, rtl)) by {
                        assert(0 <= i < i + 1 < gs.len());
                    }
                    return false;
                }
            }
            i += 1;
        }
        true
    }

    /// Reshape a range of the shaped text, reusing the glyphs of this shaping
    /// process where both ends of the range are safe to break.
    pub fn reshape(&self, store: &FontStore, start: usize, end: usize) -> (r: ShapedText<'a>)
        requires
            store.wf(),
            self.wf(*store),
            char_range(encode_utf8(self.text@), start as int, end as int),
        ensures
            r.dir == self.dir,
            r.styles == self.styles,
            glyphs_fit(*store, r.glyphs@),
            r.size == measured(*store, r.glyphs@, *self.styles).0,
            r.baseline == measured(*store, r.glyphs@, *self.styles).1,
            0 <= r.baseline <= i64::MAX + 1,
            ({
                let gs = self.glyphs@;
                let rtl = self.dir == Dir::RTL;
                let n = encode_utf8(self.text@).len() as int;
                if in_text_order(gs, rtl) && indices_below(gs, n) && safe_boundary(
                    gs,
                    rtl,
                    n,
                    start as int,
                ) && safe_boundary(gs, rtl, n, end as int) {
                    // Reused: the text of the range and exactly its glyphs,
                    // in order.
                    encode_utf8(r.text@) == encode_utf8(self.text@).subrange(start as int, end as int)
                    && exists|l: int, h: int|
                        0 <= l <= h <= gs.len() && r.glyphs@ == gs.subrange(l, h) && forall|i: int|
                            0 <= i < gs.len() ==> ((l <= i < h) <==> (start
                                <= #[trigger] gs[i].text_index < end))
                } else {
                    // Shaped afresh from the text of the range.
                    exists|s: Seq<char>|
                        encode_utf8(s) == encode_utf8(self.text@).subrange(start as int, end as int)
                            && r.text@ == cased(*self.styles, s) && shaped_glyphs_ok(
                            *store,
                            *self.styles,
                            r.glyphs@,
                            encode_utf8(r.text@).len() as int,
                        )
                }
            }),
    {
        let sub = substr(self.text.as_str(), start, end).unwrap();
        if self.is_searchable() {
            match self.slice_safe_to_break(start, end) {
                Some((l, h)) => {
                    let mut glyphs: Vec<ShapedGlyph> = Vec::new();
                    let mut i: usize = l;
                    while i < h
                        invariant
                            l <= i <= h <= self.glyphs@.len(),
                            glyphs@ == self.glyphs@.subrange(l as int, i as int),
                        decreases h - i,
                    {
                        glyphs.push(self.glyphs[i]);
                        assert(glyphs@ =~= self.glyphs@.subrange(l as int, i + 1));
                        i += 1;
                    }
                    assert(glyphs_fit(*store, glyphs@)) by {
                        assert forall|j: int| 0 <= j < glyphs@.len() implies glyph_fits(*store, #[trigger] glyphs@[j]) by {
                            assert(glyphs@[j] == self.glyphs@[l + j]);
                        }
                    }
                    let (size, baseline) = measure(store, &glyphs, self.styles);
                    return ShapedText {
                        text: sub.to_owned(),
                        dir: self.dir,
                        styles: self.styles,
                        size,
                        baseline,
                        glyphs,
                    };
                },
                None => {},
            }
        }
        shape(store, sub, self.styles, self.dir)
    }
}

/// Tofus are contained: in a shaped run, a glyph with index 0 always comes
/// from the anchor face, the face of the first family that selects one, as
/// the one shaping left after every other family was tried; and every glyph
/// belongs to a cluster inside the text.
pub proof fn lemma_tofu_from_anchor(
    store: FontStore,
    styles: TextNode,
    glyphs: Seq<ShapedGlyph>,
    len: int,
)
    requires
        shaped_glyphs_ok(store, styles, glyphs, len),
    ensures
        forall|i: int|
            0 <= i < glyphs.len() ==> {
                &&& (#[trigger] glyphs[i]).glyph_id == 0 ==> first_selected(
                    store,
                    family_names(styles),
                    0,
                    variant_of(styles),
                ) == Some(glyphs[i].face_id)
                &&& 0 <= glyphs[i].text_index < len
            },
{
    let pre = choose|pre: Seq<ShapedGlyph>|
        appended_ok(
            store,
            Seq::empty(),
            pre,
            0,
            len,
            first_selected(store, family_names(styles), 0, variant_of(styles)),
        ) && with_tracking(pre, glyphs, styles.tracking as int);
    assert forall|i: int| 0 <= i < glyphs.len() implies {
        &&& (#[trigger] glyphs[i]).glyph_id == 0 ==> first_selected(
            store,
            family_names(styles),
            0,
            variant_of(styles),
        ) == Some(glyphs[i].face_id)
        &&& 0 <= glyphs[i].text_index < len
    } by {
        assert(glyphs[i] == ShapedGlyph { x_advance: glyphs[i].x_advance, ..pre[i] });
        assert(glyph_fits(store, pre[i]));
    }
}

} // verus!
