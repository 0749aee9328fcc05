//! Style values consumed by the shaper: families, variants, OpenType feature
//! switches, case transforms and decoration descriptors.

use vstd::prelude::*;

use crate::engine::{lower_of, lowercase, upper_of, uppercase};

verus! {

/// A generic or named font family.
#[derive(Clone, PartialEq, Eq, Hash, Debug)]
pub enum FontFamily {
    /// A family that has "serifs", small strokes attached to letters.
    Serif,
    /// A family in which glyphs do not have "serifs", small attached strokes.
    SansSerif,
    /// A family in which (almost) all glyphs are of equal width.
    Monospace,
    /// A specific font family like "Arial".
    Named(NamedFamily),
}

impl FontFamily {
    /// How the family is written: the generic keyword or the lowercased name.
    pub fn describe(&self) -> (r: &str)
        ensures
            match self {
                FontFamily::Serif => r@ == "serif"@,
                FontFamily::SansSerif => r@ == "sans-serif"@,
                FontFamily::Monospace => r@ == "monospace"@,
                FontFamily::Named(n) => r@ == n@,
            },
    {
        match self {
            FontFamily::Serif => "serif",
            FontFamily::SansSerif => "sans-serif",
            FontFamily::Monospace => "monospace",
            FontFamily::Named(n) => n.as_str(),
        }
    }
}

/// A specific font family like "Arial", stored lowercased.
#[derive(Clone, PartialEq, Eq, Hash, Debug)]
pub struct NamedFamily(String);

impl View for NamedFamily {
    type V = Seq<char>;

    closed spec fn view(&self) -> Seq<char> {
        self.0@
    }
}

impl NamedFamily {
    /// Create a named font family variant.
    pub fn new(string: &str) -> (r: Self)
        ensures
            r@ == lower_of(string@),
    {
        NamedFamily(lowercase(string))
    }

    /// The lowercased family name.
    pub fn as_str(&self) -> (r: &str)
        ensures
            r@ == self@,
    {
        self.0.as_str()
    }

    /// A family whose name is already in lowercase.
    pub(crate) fn from_lowercase(name: &str) -> (r: Self)
        ensures
            r@ == name@,
    {
        NamedFamily(name.to_owned())
    }
}

/// A stylistic set in a font face, numbered from 1 to 20.
#[derive(Debug, Copy, Clone, PartialEq, Eq, Hash)]
pub struct StylisticSet(u8);

impl View for StylisticSet {
    type V = u8;

    closed spec fn view(&self) -> u8 {
        self.0
    }
}

impl StylisticSet {
    /// Creates a new set, clamping to 1-20.
    pub fn new(index: u8) -> (r: Self)
        ensures
            r.wf(),
            r@ == (if index < 1 {
                1
            } else if index > 20 {
                20
            } else {
                index
            }),
    {
        if index < 1 {
            StylisticSet(1)
        } else if index > 20 {
            StylisticSet(20)
        } else {
            StylisticSet(index)
        }
    }

    /// Whether the set number is in range.
    pub closed spec fn wf(&self) -> bool {
        1 <= self.0 <= 20
    }

    /// The stored number, which any set holds (1-20 when made by `new`).
    pub(crate) fn get_unchecked(self) -> (r: u8)
        ensures
            r == self@,
    {
        self.0
    }

    /// Get the value, guaranteed to be 1-20.
    pub fn get(self) -> (r: u8)
        requires
            self.wf(),
        ensures
            r == self@,
            1 <= r <= 20,
    {
        self.0
    }
}

/// Which kind of numbers / figures to select.
#[derive(Debug, Copy, Clone, PartialEq, Eq, Hash)]
pub enum NumberType {
    /// Numbers that fit well with capital text. ("lnum")
    Lining,
    /// Numbers that fit well into flow of upper- and lowercase text. ("onum")
    OldStyle,
}

/// The width of numbers / figures.
#[derive(Debug, Copy, Clone, PartialEq, Eq, Hash)]
pub enum NumberWidth {
    /// Number widths are glyph specific. ("pnum")
    Proportional,
    /// All numbers are of equal width / monospaced. ("tnum")
    Tabular,
}

/// How to position numbers.
#[derive(Debug, Copy, Clone, PartialEq, Eq, Hash)]
pub enum NumberPosition {
    /// Numbers are positioned on the same baseline as text.
    Normal,
    /// Numbers are smaller and placed at the bottom. ("subs")
    Subscript,
    /// Numbers are smaller and placed at the top. ("sups")
    Superscript,
}

/// A case transformation on text.
#[derive(Debug, Copy, Clone, PartialEq, Eq, Hash)]
pub enum Case {
    /// Everything is uppercased.
    Upper,
    /// Everything is lowercased.
    Lower,
}

/// The text a case transformation makes of `s`.
pub open spec fn case_applied(case: Case, s: Seq<char>) -> Seq<char> {
    match case {
        Case::Upper => upper_of(s),
        Case::Lower => lower_of(s),
    }
}

impl Case {
    /// Apply the case to a string of text.
    pub fn apply(self, text: &str) -> (r: String)
        ensures
            r@ == case_applied(self, text@),
    {
        match self {
            Case::Upper => uppercase(text),
            Case::Lower => lowercase(text),
        }
    }
}

/// The slant of a face.
#[derive(Debug, Copy, Clone, PartialEq, Eq, Hash, Structural)]
pub enum FontStyle {
    /// The default, upright style.
    Normal,
    /// A cursive style.
    Italic,
    /// A slanted style.
    Oblique,
}

/// Style, weight and stretch, which together select a face of a family.
#[derive(Debug, Copy, Clone, PartialEq, Eq, Hash, Structural)]
pub struct FontVariant {
    /// The slant.
    pub style: FontStyle,
    /// The weight, 400 being regular.
    pub weight: u16,
    /// The width, in thousandths of the normal width.
    pub stretch: u16,
}

/// A vertical position in a face, measured up from the baseline.
#[derive(Debug, Copy, Clone, PartialEq, Eq, Hash)]
pub enum VerticalFontMetric {
    /// The face's ascender.
    Ascender,
    /// The height of capital letters.
    CapHeight,
    /// The height of lowercase letters.
    XHeight,
    /// The baseline itself.
    Baseline,
    /// The face's descender (usually negative).
    Descender,
    /// A fixed length above the baseline.
    Length(i64),
}

/// The kind of a decorative line.
#[derive(Debug, Copy, Clone, PartialEq, Eq, Hash, Structural)]
pub enum LineKind {
    /// A line below the text.
    Underline,
    /// A line through the text.
    Strikethrough,
    /// A line above the text.
    Overline,
}

/// A decorative line over a run of text.
#[derive(Debug, Clone, PartialEq, Eq, Hash)]
pub struct Decoration {
    /// Which line to draw.
    pub line: LineKind,
    /// The stroke paint, as RGBA; the text's fill when absent.
    pub stroke: Option<u32>,
    /// The stroke thickness; the face's metric when absent.
    pub thickness: Option<i64>,
    /// The position below the baseline; the face's metric when absent.
    pub offset: Option<i64>,
    /// How far the line reaches beyond the text on each side.
    pub extent: i64,
    /// Whether the line is interrupted where it would cross glyph ink.
    pub evade: bool,
}

/// The resolved style values of a run of text.
#[derive(Debug, Clone, PartialEq, Eq, Hash)]
pub struct TextNode {
    /// A prioritized sequence of font families.
    pub family: Vec<FontFamily>,
    /// The serif font family/families.
    pub serif: Vec<NamedFamily>,
    /// The sans-serif font family/families.
    pub sans_serif: Vec<NamedFamily>,
    /// The monospace font family/families.
    pub monospace: Vec<NamedFamily>,
    /// Whether to allow font fallback when the primary font list contains no
    /// match.
    pub fallback: bool,
    /// How the font is styled.
    pub style: FontStyle,
    /// The boldness / thickness of the font's glyphs.
    pub weight: u16,
    /// The width of the glyphs.
    pub stretch: u16,
    /// The glyph fill color, as RGBA.
    pub fill: u32,
    /// The size of the glyphs, in page length units.
    pub size: i64,
    /// The amount of space that should be added between characters, in em
    /// units.
    pub tracking: i64,
    /// The top end of the text bounding box.
    pub top_edge: VerticalFontMetric,
    /// The bottom end of the text bounding box.
    pub bottom_edge: VerticalFontMetric,
    /// Whether to apply kerning ("kern").
    pub kerning: bool,
    /// Whether small capital glyphs should be used. ("smcp")
    pub smallcaps: bool,
    /// Whether to apply stylistic alternates. ("salt")
    pub alternates: bool,
    /// Which stylistic set to apply. ("ss01" - "ss20")
    pub stylistic_set: Option<StylisticSet>,
    /// Whether standard ligatures are active. ("liga", "clig")
    pub ligatures: bool,
    /// Whether ligatures that should be used sparingly are active. ("dlig")
    pub discretionary_ligatures: bool,
    /// Whether historical ligatures are active. ("hlig")
    pub historical_ligatures: bool,
    /// Which kind of numbers / figures to select; automatic when absent.
    pub number_type: Option<NumberType>,
    /// The width of numbers / figures; automatic when absent.
    pub number_width: Option<NumberWidth>,
    /// How to position numbers.
    pub number_position: NumberPosition,
    /// Whether to have a slash through the zero glyph. ("zero")
    pub slashed_zero: bool,
    /// Whether to convert fractions. ("frac")
    pub fractions: bool,
    /// Raw OpenType features to apply, as tag and value.
    pub features: Vec<(u32, u32)>,
    /// Whether the font weight should be increased by 300.
    pub strong: bool,
    /// Whether the font style should be inverted.
    pub emph: bool,
    /// Whether a monospace font should be preferred.
    pub monospaced: bool,
    /// The case transformation that should be applied to the text.
    pub case: Option<Case>,
    /// Decorative lines.
    pub lines: Vec<Decoration>,
    /// A URL the text should link to.
    pub link: Option<String>,
}

impl TextNode {
    /// The default style values: sans-serif IBM Plex at 11pt (in thousandths
    /// of a point), regular weight, black, with fallback, kerning and
    /// ligatures on and every other feature off.
    pub fn new() -> (r: TextNode)
        ensures
            r.family@ == seq![FontFamily::SansSerif],
            r.serif@.len() == 1 && r.serif@[0]@ == "ibm plex serif"@,
            r.sans_serif@.len() == 1 && r.sans_serif@[0]@ == "ibm plex sans"@,
            r.monospace@.len() == 1 && r.monospace@[0]@ == "ibm plex mono"@,
            r.fallback,
            r.style == FontStyle::Normal,
            r.weight == 400,
            r.stretch == 1000,
            r.fill == 0x000000FF,
            r.size == 11000,
            r.tracking == 0,
            r.top_edge == VerticalFontMetric::CapHeight,
            r.bottom_edge == VerticalFontMetric::Baseline,
            r.kerning && !r.smallcaps && !r.alternates && r.stylistic_set is None,
            r.ligatures && !r.discretionary_ligatures && !r.historical_ligatures,
            r.number_type is None && r.number_width is None,
            r.number_position == NumberPosition::Normal,
            !r.slashed_zero && !r.fractions && r.features@.len() == 0,
            !r.strong && !r.emph && !r.monospaced && r.case is None,
            r.lines@.len() == 0 && r.link is None,
    {
        TextNode {
            family: vec![FontFamily::SansSerif],
            serif: vec![NamedFamily::from_lowercase("ibm plex serif")],
            sans_serif: vec![NamedFamily::from_lowercase("ibm plex sans")],
            monospace: vec![NamedFamily::from_lowercase("ibm plex mono")],
            fallback: true,
            style: FontStyle::Normal,
            weight: 400,
            stretch: 1000,
            fill: 0x000000FF,
            size: 11000,
            tracking: 0,
            top_edge: VerticalFontMetric::CapHeight,
            bottom_edge: VerticalFontMetric::Baseline,
            kerning: true,
            smallcaps: false,
            alternates: false,
            stylistic_set: None,
            ligatures: true,
            discretionary_ligatures: false,
            historical_ligatures: false,
            number_type: None,
            number_width: None,
            number_position: NumberPosition::Normal,
            slashed_zero: false,
            fractions: false,
            features: Vec::new(),
            strong: false,
            emph: false,
            monospaced: false,
            case: None,
            lines: Vec::new(),
            link: None,
        }
    }
}

/// Strong text, rendered in boldface.
#[derive(Debug, Clone, PartialEq, Eq, Hash)]
pub struct StrongNode(pub String);

impl StrongNode {
    /// The styles of the body: strong is toggled, so that strong text
    /// inside strong text is regular again.
    pub fn show(&self, styles: &mut TextNode) -> (r: &str)
        ensures
            r@ == self.0@,
            *final(styles) == (TextNode { strong: !old(styles).strong, ..*old(styles) }),
    {
        styles.strong = !styles.strong;
        self.0.as_str()
    }
}

/// Emphasized text, rendered with an italic face.
#[derive(Debug, Clone, PartialEq, Eq, Hash)]
pub struct EmphNode(pub String);

impl EmphNode {
    /// The styles of the body: emphasis is toggled, so that emphasized text
    /// inside emphasized text is upright again.
    pub fn show(&self, styles: &mut TextNode) -> (r: &str)
        ensures
            r@ == self.0@,
            *final(styles) == (TextNode { emph: !old(styles).emph, ..*old(styles) }),
    {
        styles.emph = !styles.emph;
        self.0.as_str()
    }
}

/// Monospaced text with optional syntax highlighting.
#[derive(Debug, Clone, PartialEq, Eq, Hash)]
pub struct RawNode {
    /// The raw text.
    pub text: String,
    /// Whether the node is block-level.
    pub block: bool,
}

/// The underline that highlighted code uses.
pub open spec fn code_underline() -> Decoration {
    Decoration {
        line: LineKind::Underline,
        stroke: None,
        thickness: None,
        offset: None,
        extent: 0,
        evade: true,
    }
}

impl RawNode {
    /// The styles of one highlighted piece of code: its paint where it
    /// differs from the theme's foreground, strong for bold, emphasis for
    /// italic, and an underline when underlined.
    pub fn style_piece(
        styles: &mut TextNode,
        foreground: u32,
        paint: u32,
        bold: bool,
        italic: bool,
        underline: bool,
    )
        ensures
            final(styles).fill == if paint != foreground {
                paint
            } else {
                old(styles).fill
            },
            final(styles).strong == (old(styles).strong != bold),
            final(styles).emph == (old(styles).emph != italic),
            final(styles).lines@ == if underline {
                old(styles).lines@.push(code_underline())
            } else {
                old(styles).lines@
            },
            *final(styles) == (TextNode {
                fill: final(styles).fill,
                strong: final(styles).strong,
                emph: final(styles).emph,
                lines: final(styles).lines,
                ..*old(styles)
            }),
    {
        let fill = if paint != foreground {
            paint
        } else {
            styles.fill
        };
        let strong = styles.strong != bold;
        let emph = styles.emph != italic;
        styles.fill = fill;
        styles.strong = strong;
        styles.emph = emph;
        if underline {
            push_underline(&mut styles.lines);
        }
    }
}

/// Appends the underline that highlighted code uses.
fn push_underline(lines: &mut Vec<Decoration>)
    ensures
        final(lines)@ == old(lines)@.push(code_underline()),
{
    lines.push(
        Decoration {
            line: LineKind::Underline,
            stroke: None,
            thickness: None,
            offset: None,
            extent: 0,
            evade: true,
        },
    );
}

} // verus!
