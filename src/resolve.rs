//! Resolution of style values into what the shaper consumes: the font
//! variant, the prioritized family names and the OpenType features.

use vstd::prelude::*;

use crate::style::{
    FontFamily, FontStyle, FontVariant, NamedFamily, NumberPosition, NumberType, NumberWidth,
    TextNode,
};

verus! {

/// The weight that strong text adds.
pub const STRONG_DELTA: u16 = 300;

/// The variant that text with these styles asks for: strong text is 300
/// heavier (saturating), emphasized text swaps upright and italic (an oblique
/// style becomes upright).
pub open spec fn variant_of(styles: TextNode) -> FontVariant {
    FontVariant {
        style: if styles.emph {
            match styles.style {
                FontStyle::Normal => FontStyle::Italic,
                _ => FontStyle::Normal,
            }
        } else {
            styles.style
        },
        weight: if styles.strong {
            if styles.weight + STRONG_DELTA > u16::MAX {
                u16::MAX
            } else {
                (styles.weight + STRONG_DELTA) as u16
            }
        } else {
            styles.weight
        },
        stretch: styles.stretch,
    }
}

/// Resolve the font variant with `strong` and `emph` factored in.
pub fn variant(styles: &TextNode) -> (r: FontVariant)
    ensures
        r == variant_of(*styles),
{
    let mut v = FontVariant { style: styles.style, weight: styles.weight, stretch: styles.stretch };
    if styles.strong {
        v.weight = v.weight.saturating_add(STRONG_DELTA);
    }
    if styles.emph {
        v.style = match v.style {
            FontStyle::Normal => FontStyle::Italic,
            FontStyle::Italic => FontStyle::Normal,
            FontStyle::Oblique => FontStyle::Normal,
        };
    }
    v
}

/// The names of a list of named families.
pub open spec fn named_names(v: Seq<NamedFamily>) -> Seq<Seq<char>> {
    v.map_values(|n: NamedFamily| n@)
}

/// The names of a list of strings.
pub open spec fn string_names(v: Seq<String>) -> Seq<Seq<char>> {
    v.map_values(|s: String| s@)
}

/// The concrete names that one entry of the family list stands for.
pub open spec fn entry_names(styles: TextNode, f: FontFamily) -> Seq<Seq<char>> {
    match f {
        FontFamily::Named(n) => seq![n@],
        FontFamily::Serif => named_names(styles.serif@),
        FontFamily::SansSerif => named_names(styles.sans_serif@),
        FontFamily::Monospace => named_names(styles.monospace@),
    }
}

/// The concrete names of a list of family entries, in order.
pub open spec fn core_names(styles: TextNode, fams: Seq<FontFamily>) -> Seq<Seq<char>>
    decreases fams.len(),
{
    if fams.len() == 0 {
        Seq::empty()
    } else {
        core_names(styles, fams.drop_last()) + entry_names(styles, fams.last())
    }
}

/// The system fallback families, tried last.
pub open spec fn fallback_names() -> Seq<Seq<char>> {
    seq!["ibm plex sans"@, "latin modern math"@, "twitter color emoji"@]
}

/// The prioritized family names for these styles: the monospace list when
/// monospace is preferred, then each entry of the family list, then the
/// fallback families when fallback is on. Nothing is deduplicated.
pub open spec fn family_names(styles: TextNode) -> Seq<Seq<char>> {
    (if styles.monospaced {
        named_names(styles.monospace@)
    } else {
        Seq::empty()
    }) + core_names(styles, styles.family@) + (if styles.fallback {
        fallback_names()
    } else {
        Seq::empty()
    })
}

/// Appends the names of `names` to `out`.
fn push_named(out: &mut Vec<String>, names: &Vec<NamedFamily>)
    ensures
        string_names(final(out)@) == string_names(old(out)@) + named_names(names@),
{
    let ghost start = string_names(out@);
    let mut i: usize = 0;
    while i < names.len()
        invariant
            i <= names.len(),
            string_names(out@) == start + named_names(names@.subrange(0, i as int)),
        decreases names.len() - i,
    {
        let ghost prev = out@;
        let s = names[i].as_str().to_owned();
        out.push(s);
        proof {
            assert(string_names(out@) =~= string_names(prev).push(names@[i as int]@));
            assert(named_names(names@.subrange(0, i + 1)) =~= named_names(
                names@.subrange(0, i as int),
            ).push(names@[i as int]@));
            assert(string_names(out@) =~= start + named_names(names@.subrange(0, i + 1)));
        }
        i += 1;
    }
    proof {
        assert(names@.subrange(0, names@.len() as int) =~= names@);
    }
}

/// Resolve the prioritized list of family names.
pub fn families(styles: &TextNode) -> (r: Vec<String>)
    ensures
        string_names(r@) == family_names(*styles),
{
    let mut out: Vec<String> = Vec::new();
    proof {
        assert(string_names(out@) =~= Seq::empty());
    }
    if styles.monospaced {
        push_named(&mut out, &styles.monospace);
    }
    let ghost head = string_names(out@);
    assert(head =~= (if styles.monospaced {
        named_names(styles.monospace@)
    } else {
        Seq::empty()
    }));
    let mut i: usize = 0;
    while i < styles.family.len()
        invariant
            i <= styles.family.len(),
            string_names(out@) == head + core_names(*styles, styles.family@.subrange(0, i as int)),
        decreases styles.family.len() - i,
    {
        let ghost before = string_names(out@);
        match &styles.family[i] {
            FontFamily::Named(n) => {
                out.push(n.as_str().to_owned());
                assert(string_names(out@) =~= before + seq![n@]);
            },
            FontFamily::Serif => {
                push_named(&mut out, &styles.serif);
            },
            FontFamily::SansSerif => {
                push_named(&mut out, &styles.sans_serif);
            },
            FontFamily::Monospace => {
                push_named(&mut out, &styles.monospace);
            },
        }
        proof {
            let fams = styles.family@.subrange(0, i + 1);
            assert(fams.drop_last() =~= styles.family@.subrange(0, i as int));
            assert(string_names(out@) =~= head + core_names(*styles, fams));
        }
        i += 1;
    }
    proof {
        assert(styles.family@.subrange(0, styles.family@.len() as int) =~= styles.family@);
    }
    let ghost mid = string_names(out@);
    if styles.fallback {
        out.push("ibm plex sans".to_owned());
        out.push("latin modern math".to_owned());
        out.push("twitter color emoji".to_owned());
        assert(string_names(out@) =~= mid + fallback_names());
    } else {
        assert(string_names(out@) =~= mid + Seq::empty());
    }
    out
}

/// "kern"
pub const KERN: u32 = 0x6B65726E;
/// "smcp"
pub const SMCP: u32 = 0x736D6370;
/// "salt"
pub const SALT: u32 = 0x73616C74;
/// "liga"
pub const LIGA: u32 = 0x6C696761;
/// "clig"
pub const CLIG: u32 = 0x636C6967;
/// "dlig"
pub const DLIG: u32 = 0x646C6967;
/// "hlig"
pub const HLIG: u32 = 0x686C6967;
/// "lnum"
pub const LNUM: u32 = 0x6C6E756D;
/// "onum"
pub const ONUM: u32 = 0x6F6E756D;
/// "pnum"
pub const PNUM: u32 = 0x706E756D;
/// "tnum"
pub const TNUM: u32 = 0x746E756D;
/// "subs"
pub const SUBS: u32 = 0x73756273;
/// "sups"
pub const SUPS: u32 = 0x73757073;
/// "zero"
pub const ZERO: u32 = 0x7A65726F;
/// "frac"
pub const FRAC: u32 = 0x66726163;
/// "ss" followed by two zero digits; a set's number goes into the last two.
pub const SS00: u32 = 0x73733030;

/// The tag of stylistic set `n` ("ss01" to "ss20"): "ss" and two decimal
/// digits.
pub open spec fn stylistic_set_tag(n: u8) -> u32 {
    (SS00 + ((n / 10) as int) * 256 + (n % 10) as int) as u32
}

/// The tag of stylistic set `n`.
fn stylistic_tag(n: u8) -> (r: u32)
    ensures
        r == stylistic_set_tag(n),
{
    let tens: u32 = (n / 10) as u32;
    let ones: u32 = (n % 10) as u32;
    assert(tens <= 25 && ones <= 9);
    SS00 + tens * 256 + ones
}

/// `seq![x]` when `cond` holds, else nothing.
pub open spec fn when(cond: bool, x: (u32, u32)) -> Seq<(u32, u32)> {
    if cond {
        seq![x]
    } else {
        Seq::empty()
    }
}

/// The feature of the selected stylistic set, if any.
pub open spec fn stylistic_set_features(styles: TextNode) -> Seq<(u32, u32)> {
    match styles.stylistic_set {
        Some(set) => seq![(stylistic_set_tag(set@), 1u32)],
        None => Seq::empty(),
    }
}

/// The features that switch ligatures off, if they are off.
pub open spec fn ligature_features(styles: TextNode) -> Seq<(u32, u32)> {
    if !styles.ligatures {
        seq![(LIGA, 0u32), (CLIG, 0u32)]
    } else {
        Seq::empty()
    }
}

/// The features of kerning, small caps, alternates, stylistic sets and
/// ligatures, in that order.
pub open spec fn glyph_features(styles: TextNode) -> Seq<(u32, u32)> {
    when(!styles.kerning, (KERN, 0)) + when(styles.smallcaps, (SMCP, 1)) + when(
        styles.alternates,
        (SALT, 1),
    ) + stylistic_set_features(styles) + ligature_features(styles) + when(
        styles.discretionary_ligatures,
        (DLIG, 1),
    ) + when(styles.historical_ligatures, (HLIG, 1))
}

/// The feature of the number type, if one is chosen.
pub open spec fn number_type_features(styles: TextNode) -> Seq<(u32, u32)> {
    match styles.number_type {
        Some(NumberType::Lining) => seq![(LNUM, 1u32)],
        Some(NumberType::OldStyle) => seq![(ONUM, 1u32)],
        None => Seq::empty(),
    }
}

/// The feature of the number width, if one is chosen.
pub open spec fn number_width_features(styles: TextNode) -> Seq<(u32, u32)> {
    match styles.number_width {
        Some(NumberWidth::Proportional) => seq![(PNUM, 1u32)],
        Some(NumberWidth::Tabular) => seq![(TNUM, 1u32)],
        None => Seq::empty(),
    }
}

/// The feature of the number position, unless it is normal.
pub open spec fn number_position_features(styles: TextNode) -> Seq<(u32, u32)> {
    match styles.number_position {
        NumberPosition::Normal => Seq::empty(),
        NumberPosition::Subscript => seq![(SUBS, 1u32)],
        NumberPosition::Superscript => seq![(SUPS, 1u32)],
    }
}

/// The features of number type, width and position, slashed zero and
/// fractions, in that order.
pub open spec fn number_features(styles: TextNode) -> Seq<(u32, u32)> {
    number_type_features(styles) + number_width_features(styles) + number_position_features(
        styles,
    ) + when(styles.slashed_zero, (ZERO, 1)) + when(styles.fractions, (FRAC, 1))
}

/// The OpenType features for these styles, in order: each switch that
/// differs from the engine's default adds its tags, and the raw features
/// come last, never deduplicated.
pub open spec fn feature_list(styles: TextNode) -> Seq<(u32, u32)> {
    glyph_features(styles) + number_features(styles) + styles.features@
}

/// Pushes `x` when `cond` holds.
fn push_when(out: &mut Vec<(u32, u32)>, cond: bool, x: (u32, u32))
    ensures
        final(out)@ == old(out)@ + when(cond, x),
{
    if cond {
        out.push(x);
    }
    assert(final(out)@ =~= old(out)@ + when(cond, x));
}

/// The features of kerning, small caps, alternates, stylistic sets and
/// ligatures.
fn glyph_feature_vec(styles: &TextNode) -> (r: Vec<(u32, u32)>)
    ensures
        r@ == glyph_features(*styles),
{
    let mut out: Vec<(u32, u32)> = Vec::new();
    push_when(&mut out, !styles.kerning, (KERN, 0));
    assert(out@ =~= when(!styles.kerning, (KERN, 0)));
    push_when(&mut out, styles.smallcaps, (SMCP, 1));
    push_when(&mut out, styles.alternates, (SALT, 1));
    let ghost a = out@;
    match styles.stylistic_set {
        Some(set) => {
            let tag = stylistic_tag(set.get_unchecked());
            out.push((tag, 1));
        },
        None => {},
    }
    assert(out@ =~= a + stylistic_set_features(*styles));
    let ghost b = out@;
    if !styles.ligatures {
        out.push((LIGA, 0));
        out.push((CLIG, 0));
    }
    assert(out@ =~= b + ligature_features(*styles));
    push_when(&mut out, styles.discretionary_ligatures, (DLIG, 1));
    push_when(&mut out, styles.historical_ligatures, (HLIG, 1));
    out
}

/// The features of number type, width and position, slashed zero and
/// fractions.
fn number_feature_vec(styles: &TextNode) -> (r: Vec<(u32, u32)>)
    ensures
        r@ == number_features(*styles),
{
    let mut out: Vec<(u32, u32)> = Vec::new();
    match styles.number_type {
        Some(NumberType::Lining) => out.push((LNUM, 1)),
        Some(NumberType::OldStyle) => out.push((ONUM, 1)),
        None => {},
    }
    assert(out@ =~= number_type_features(*styles));
    let ghost d = out@;
    match styles.number_width {
        Some(NumberWidth::Proportional) => out.push((PNUM, 1)),
        Some(NumberWidth::Tabular) => out.push((TNUM, 1)),
        None => {},
    }
    assert(out@ =~= d + number_width_features(*styles));
    let ghost e = out@;
    match styles.number_position {
        NumberPosition::Normal => {},
        NumberPosition::Subscript => out.push((SUBS, 1)),
        NumberPosition::Superscript => out.push((SUPS, 1)),
    }
    assert(out@ =~= e + number_position_features(*styles));
    push_when(&mut out, styles.slashed_zero, (ZERO, 1));
    push_when(&mut out, styles.fractions, (FRAC, 1));
    out
}

/// Appends all of `items` to `out`.
fn push_all(out: &mut Vec<(u32, u32)>, items: &Vec<(u32, u32)>)
    ensures
        final(out)@ == old(out)@ + items@,
{
    let ghost g = out@;
    let mut i: usize = 0;
    while i < items.len()
        invariant
            i <= items.len(),
            out@ == g + items@.subrange(0, i as int),
        decreases items.len() - i,
    {
        out.push(items[i]);
        assert(out@ =~= g + items@.subrange(0, i + 1));
        i += 1;
    }
    assert(items@.subrange(0, items@.len() as int) =~= items@);
}

/// Collect the OpenType features to apply, as tag and value.
pub fn tags(styles: &TextNode) -> (r: Vec<(u32, u32)>)
    ensures
        r@ == feature_list(*styles),
{
    let mut out = glyph_feature_vec(styles);
    let numbers = number_feature_vec(styles);
    push_all(&mut out, &numbers);
    push_all(&mut out, &styles.features);
    out
}

} // verus!
