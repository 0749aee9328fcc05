use text_shaping::resolve::{
    families, tags, variant, CLIG, FRAC, HLIG, KERN, LIGA, LNUM, SMCP, SUPS, TNUM,
};
use text_shaping::style::{
    Case, FontFamily, FontStyle, NamedFamily, NumberPosition, NumberType, NumberWidth,
    StylisticSet, TextNode,
};
use text_shaping::units::{resolve, to_em};

fn tag(b: &[u8; 4]) -> u32 {
    u32::from_be_bytes(*b)
}

#[test]
fn named_family_is_lowercased() {
    let f = NamedFamily::new("IBM Plex Sans");
    assert_eq!(f.as_str(), "ibm plex sans");
    assert_eq!(FontFamily::Named(f).describe(), "ibm plex sans");
    assert_eq!(FontFamily::SansSerif.describe(), "sans-serif");
    assert_eq!(FontFamily::Serif.describe(), "serif");
    assert_eq!(FontFamily::Monospace.describe(), "monospace");
}

#[test]
fn named_families_compare_case_insensitively() {
    assert_eq!(NamedFamily::new("Arial"), NamedFamily::new("ARIAL"));
}

#[test]
fn stylistic_set_clamps() {
    assert_eq!(StylisticSet::new(0).get(), 1);
    assert_eq!(StylisticSet::new(7).get(), 7);
    assert_eq!(StylisticSet::new(25).get(), 20);
}

#[test]
fn case_transforms() {
    assert_eq!(Case::Upper.apply("Straße"), "STRASSE");
    assert_eq!(Case::Lower.apply("HeLLo"), "hello");
}

#[test]
fn default_families_end_with_fallback() {
    let styles = TextNode::new();
    assert_eq!(
        families(&styles),
        vec!["ibm plex sans", "ibm plex sans", "latin modern math", "twitter color emoji"]
    );
}

#[test]
fn monospace_and_generic_families_expand() {
    let mut styles = TextNode::new();
    styles.monospaced = true;
    styles.fallback = false;
    styles.family = vec![
        FontFamily::Named(NamedFamily::new("Inria")),
        FontFamily::Serif,
        FontFamily::Monospace,
    ];
    assert_eq!(
        families(&styles),
        vec!["ibm plex mono", "inria", "ibm plex serif", "ibm plex mono"]
    );
}

#[test]
fn no_families_without_fallback() {
    let mut styles = TextNode::new();
    styles.fallback = false;
    styles.family = vec![];
    assert!(families(&styles).is_empty());
}

#[test]
fn default_styles_need_no_features() {
    assert!(tags(&TextNode::new()).is_empty());
}

#[test]
fn feature_tags_spell_their_names() {
    assert_eq!(KERN, tag(b"kern"));
    assert_eq!(SMCP, tag(b"smcp"));
    assert_eq!(LIGA, tag(b"liga"));
    assert_eq!(CLIG, tag(b"clig"));
    assert_eq!(HLIG, tag(b"hlig"));
    assert_eq!(LNUM, tag(b"lnum"));
    assert_eq!(TNUM, tag(b"tnum"));
    assert_eq!(SUPS, tag(b"sups"));
    assert_eq!(FRAC, tag(b"frac"));
}

#[test]
fn features_follow_the_flags_in_order() {
    let mut styles = TextNode::new();
    styles.kerning = false;
    styles.smallcaps = true;
    styles.stylistic_set = Some(StylisticSet::new(3));
    styles.ligatures = false;
    styles.historical_ligatures = true;
    styles.number_type = Some(NumberType::Lining);
    styles.number_width = Some(NumberWidth::Tabular);
    styles.number_position = NumberPosition::Superscript;
    styles.fractions = true;
    styles.features = vec![(tag(b"kern"), 1)];
    assert_eq!(
        tags(&styles),
        vec![
            (tag(b"kern"), 0),
            (tag(b"smcp"), 1),
            (tag(b"ss03"), 1),
            (tag(b"liga"), 0),
            (tag(b"clig"), 0),
            (tag(b"hlig"), 1),
            (tag(b"lnum"), 1),
            (tag(b"tnum"), 1),
            (tag(b"sups"), 1),
            (tag(b"frac"), 1),
            (tag(b"kern"), 1),
        ]
    );
}

#[test]
fn stylistic_set_twenty_has_two_digits() {
    let mut styles = TextNode::new();
    styles.stylistic_set = Some(StylisticSet::new(20));
    assert_eq!(tags(&styles), vec![(tag(b"ss20"), 1)]);
}

#[test]
fn strong_and_emph_change_the_variant() {
    let mut styles = TextNode::new();
    styles.strong = true;
    styles.emph = true;
    let v = variant(&styles);
    assert_eq!(v.weight, 700);
    assert_eq!(v.style, FontStyle::Italic);
    assert_eq!(v.stretch, 1000);
    styles.style = FontStyle::Oblique;
    styles.weight = 65400;
    let v = variant(&styles);
    assert_eq!(v.style, FontStyle::Normal);
    assert_eq!(v.weight, u16::MAX);
}

#[test]
fn em_conversion_and_resolution() {
    assert_eq!(to_em(500, 1000), 500_000);
    assert_eq!(to_em(-1, 3), -333_333);
    assert_eq!(resolve(500_000, 11000), 5500);
    assert_eq!(resolve(-333_333, 3), -0);
    assert_eq!(resolve(-1_500_000, 1000), -1500);
}
