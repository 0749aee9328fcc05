//! The faces available to the shaper and their vertical metrics.

use vstd::prelude::*;

use crate::style::{FontVariant, VerticalFontMetric};
use crate::units::{em_of, resolve, resolved, size_in_range, to_em};

verus! {

/// Position and thickness of a decorative line, in design units.
#[derive(Debug, Copy, Clone, PartialEq, Eq, Hash)]
pub struct LineMetrics {
    /// Height above the baseline (usually negative for underlines).
    pub position: i32,
    /// Stroke thickness.
    pub thickness: i32,
}

/// A loaded face: its family and variant, its font data for the shaping
/// engine, and the metrics the layout reads, in design units.
#[derive(Debug, Clone)]
pub struct FaceInfo {
    /// The lowercased family name.
    pub family: String,
    /// Style, weight and stretch of the face.
    pub variant: FontVariant,
    /// The font file.
    pub data: Vec<u8>,
    /// The index of the face in a collection file.
    pub index: u32,
    /// Design units per em.
    pub units_per_em: u16,
    /// The ascender.
    pub ascender: i32,
    /// The height of capital letters.
    pub cap_height: i32,
    /// The height of lowercase letters.
    pub x_height: i32,
    /// The descender.
    pub descender: i32,
    /// The underline.
    pub underline: LineMetrics,
    /// The strikethrough.
    pub strikethrough: LineMetrics,
    /// The overline.
    pub overline: LineMetrics,
}

/// The faces the shaper may choose from; a face is identified by its index.
#[derive(Debug, Clone)]
pub struct FontStore {
    /// The faces, in the order in which they were loaded.
    pub faces: Vec<FaceInfo>,
}

/// The first face at or after `i` of the family `name`, and of the variant
/// `variant` where one is given.
pub open spec fn first_face_from(
    faces: Seq<FaceInfo>,
    name: Seq<char>,
    variant: Option<FontVariant>,
    i: int,
) -> Option<usize>
    decreases faces.len() - i,
{
    if i < 0 || i >= faces.len() {
        None
    } else if faces[i].family@ == name && (variant is None || faces[i].variant == variant->0) {
        Some(i as usize)
    } else {
        first_face_from(faces, name, variant, i + 1)
    }
}

/// The face selected for a family and variant: the first face of that family
/// with exactly that variant, else the first face of that family.
pub open spec fn selected(store: FontStore, name: Seq<char>, variant: FontVariant) -> Option<usize> {
    match first_face_from(store.faces@, name, Some(variant), 0) {
        Some(i) => Some(i),
        None => first_face_from(store.faces@, name, None, 0),
    }
}

/// A vertical metric of a face, resolved at a font size.
pub open spec fn metric_at(face: FaceInfo, metric: VerticalFontMetric, size: int) -> int {
    let upem = face.units_per_em as int;
    match metric {
        VerticalFontMetric::Ascender => resolved(em_of(face.ascender as int, upem), size),
        VerticalFontMetric::CapHeight => resolved(em_of(face.cap_height as int, upem), size),
        VerticalFontMetric::XHeight => resolved(em_of(face.x_height as int, upem), size),
        VerticalFontMetric::Baseline => 0,
        VerticalFontMetric::Descender => resolved(em_of(face.descender as int, upem), size),
        VerticalFontMetric::Length(l) => l as int,
    }
}

proof fn lemma_first_face_found(faces: Seq<FaceInfo>, name: Seq<char>, variant: Option<FontVariant>, i: int)
    requires
        0 <= i,
        faces.len() <= usize::MAX,
    ensures
        first_face_from(faces, name, variant, i) matches Some(k) ==> i <= k < faces.len(),
    decreases faces.len() - i,
{
    if i < faces.len() {
        lemma_first_face_found(faces, name, variant, i + 1);
    }
}

impl FontStore {
    /// Whether every face has a positive number of units per em.
    pub open spec fn wf(&self) -> bool {
        forall|i: int| 0 <= i < self.faces@.len() ==> self.faces@[i].units_per_em > 0
    }

    /// The first face of `name`, and of `variant` where one is given.
    fn find(&self, name: &String, variant: Option<FontVariant>) -> (r: Option<usize>)
        ensures
            r == first_face_from(self.faces@, name@, variant, 0),
    {
        let mut i: usize = 0;
        while i < self.faces.len()
            invariant
                i <= self.faces@.len(),
                first_face_from(self.faces@, name@, variant, 0) == first_face_from(
                    self.faces@,
                    name@,
                    variant,
                    i as int,
                ),
            decreases self.faces.len() - i,
        {
            let face = &self.faces[i];
            let fits = match variant {
                Some(v) => face.variant == v,
                None => true,
            };
            if face.family == *name && fits {
                return Some(i);
            }
            i += 1;
        }
        None
    }

    /// Select the face for a family and variant: the first face of that
    /// family with exactly that variant, else the first face of that family.
    pub fn select(&self, name: &String, variant: FontVariant) -> (r: Option<usize>)
        ensures
            r == selected(*self, name@, variant),
            r matches Some(i) ==> i < self.faces@.len(),
    {
        let ghost n = self.faces.len();
        proof {
            lemma_first_face_found(self.faces@, name@, Some(variant), 0);
            lemma_first_face_found(self.faces@, name@, None, 0);
        }
        match self.find(name, Some(variant)) {
            Some(i) => Some(i),
            None => self.find(name, None),
        }
    }
}

/// Resolve a vertical metric of a face at a font size.
pub fn vertical_metric(face: &FaceInfo, metric: VerticalFontMetric, size: i64) -> (r: i128)
    requires
        face.units_per_em > 0,
        size_in_range(size as int),
    ensures
        r == metric_at(*face, metric, size as int),
        i64::MIN <= r <= i64::MAX,
{
    let upem = face.units_per_em;
    match metric {
        VerticalFontMetric::Ascender => resolve(to_em(face.ascender, upem), size),
        VerticalFontMetric::CapHeight => resolve(to_em(face.cap_height, upem), size),
        VerticalFontMetric::XHeight => resolve(to_em(face.x_height, upem), size),
        VerticalFontMetric::Baseline => 0,
        VerticalFontMetric::Descender => resolve(to_em(face.descender, upem), size),
        VerticalFontMetric::Length(l) => l as i128,
    }
}

} // verus!
