use text_shaping::decorate::{evade, gap_segments, DecoLine, GlyphInk};

fn deco_line(evade: bool) -> DecoLine {
    DecoLine {
        start: 0,
        end: 3000,
        offset: 200,
        thickness: 50,
        paint: 0xFF,
        evade,
        size: 1000,
        first_glyph: 0,
        end_glyph: 3,
    }
}

fn ink(bounds: Option<(i128, i128)>, crossings: Vec<i128>) -> GlyphInk {
    GlyphInk { bounds, crossings }
}

#[test]
fn gap_cuts_the_line_in_two() {
    let r = gap_segments(0, 1000, &vec![400, 600], 10, 50);
    assert_eq!(r, vec![(0, 390), (610, 1000)]);
}

#[test]
fn slivers_are_dropped() {
    let r = gap_segments(0, 1000, &vec![20, 30, 990, 995], 10, 50);
    assert_eq!(r, vec![(40, 980)]);
}

#[test]
fn overlapping_gaps_merge() {
    let r = gap_segments(0, 1000, &vec![100, 200, 205, 300], 10, 50);
    assert_eq!(r, vec![(0, 90), (310, 1000)]);
}

#[test]
fn unpaired_crossing_is_ignored() {
    let r = gap_segments(0, 1000, &vec![500], 10, 50);
    assert_eq!(r, vec![(0, 1000)]);
}

#[test]
fn many_gaps_give_at_most_one_more_segment() {
    let crossings: Vec<i128> = (0..20).map(|i| 100 + i * 100).collect();
    let r = gap_segments(0, 2500, &crossings, 5, 20);
    assert!(r.len() <= crossings.len() / 2 + 1);
    assert_eq!(r.len(), 11);
    assert!(r.iter().all(|(a, b)| b - a >= 20));
}

#[test]
fn underline_evades_the_middle_glyph() {
    // "H_H": only the underscore's ink reaches the line.
    let inks = vec![
        ink(Some((-700, 0)), vec![]),
        ink(Some((100, 300)), vec![1900, 1100]),
        ink(Some((-700, 0)), vec![]),
    ];
    // Padding 0.08 and minimum 0.162 of the size 1000.
    let r = evade(&deco_line(true), &inks);
    assert_eq!(r, vec![(0, 1020), (1980, 3000)]);
}

#[test]
fn line_that_does_not_evade_is_whole() {
    let inks = vec![ink(Some((100, 300)), vec![1100, 1900])];
    assert_eq!(evade(&deco_line(false), &inks), vec![(0, 3000)]);
}

#[test]
fn glyphs_without_bounds_are_not_tested() {
    let inks = vec![ink(None, vec![1100, 1900]), ink(Some((300, 400)), vec![10, 20])];
    assert_eq!(evade(&deco_line(true), &inks), vec![(0, 3000)]);
}
