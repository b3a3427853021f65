//! Bounding boxes and their overlap.

use vstd::prelude::*;

verus! {

/// Coordinate units per pixel.
pub const COORDINATE_SCALE: i64 = 1000;

/// Confidence and threshold units that make up the value one.
pub const CONFIDENCE_SCALE: u32 = 1_000_000;

/// Largest magnitude a box coordinate may have for its areas to be computed.
pub const COORDINATE_LIMIT: i64 = 0x1_0000_0000;

/// Largest area that two boxes within `COORDINATE_LIMIT` can cover together.
pub const AREA_LIMIT: u128 = 0x8_0000_0000_0000_0000;

/// A detection in corner form, with its confidence in parts per million.
#[derive(Debug, Clone, Copy, PartialEq, Eq, Structural)]
pub struct BoundingBox {
    pub x_min: i64,
    pub y_min: i64,
    pub x_max: i64,
    pub y_max: i64,
    pub confidence: u32,
}

/// An overlap ratio, kept as the exact fraction of two areas.
#[derive(Debug, Clone, Copy, PartialEq, Eq, Structural)]
pub struct Iou {
    pub intersection: u128,
    pub union: u128,
}

impl Iou {
    /// The fraction is at most one and small enough to be scaled.
    pub open spec fn is_bounded(&self) -> bool {
        self.intersection <= self.union <= AREA_LIMIT
    }

    /// Whether the ratio is strictly above `threshold` parts per million.
    pub fn exceeds(&self, threshold: u32) -> (r: bool)
        requires
            self.is_bounded(),
        ensures
            r == ratio_exceeds(self.intersection as int, self.union as int, threshold as int),
    {
        let limit: u128 = threshold as u128;
        assert(self.union * limit <= AREA_LIMIT * 0x1_0000_0000) by (nonlinear_arith)
            requires
                self.union <= AREA_LIMIT,
                limit <= 0x1_0000_0000,
        ;
        let scaled: u128 = self.intersection * 1_000_000u128;
        let bound: u128 = self.union * limit;
        scaled > bound
    }

    /// The ratio in parts per million, rounded down; zero over an empty union.
    pub fn ppm(&self) -> (r: u32)
        requires
            self.is_bounded(),
        ensures
            r <= CONFIDENCE_SCALE,
            self.union > 0 ==> r == self.intersection * CONFIDENCE_SCALE / (self.union as int),
            self.union == 0 ==> r == 0,
    {
        if self.union == 0 {
            0
        } else {
            let scaled: u128 = self.intersection * 1_000_000u128;
            let q: u128 = scaled / self.union;
            assert(q <= 1_000_000) by (nonlinear_arith)
                requires
                    q == scaled / (self.union as u128),
                    scaled == self.intersection * 1_000_000,
                    self.intersection <= self.union,
                    self.union > 0,
            ;
            q as u32
        }
    }
}

pub open spec fn max_of(a: int, b: int) -> int {
    if a >= b { a } else { b }
}

pub open spec fn min_of(a: int, b: int) -> int {
    if a <= b { a } else { b }
}

impl BoundingBox {
    /// Every coordinate lies within `COORDINATE_LIMIT` of the origin.
    pub open spec fn in_range(&self) -> bool {
        &&& -COORDINATE_LIMIT <= self.x_min <= COORDINATE_LIMIT
        &&& -COORDINATE_LIMIT <= self.y_min <= COORDINATE_LIMIT
        &&& -COORDINATE_LIMIT <= self.x_max <= COORDINATE_LIMIT
        &&& -COORDINATE_LIMIT <= self.y_max <= COORDINATE_LIMIT
    }

    /// The minimum corner does not lie beyond the maximum corner.
    pub open spec fn is_ordered(&self) -> bool {
        self.x_min <= self.x_max && self.y_min <= self.y_max
    }

    /// The area the box covers; a box whose corners are out of order covers nothing.
    pub open spec fn area(&self) -> int {
        if self.is_ordered() {
            (self.x_max - self.x_min) * (self.y_max - self.y_min)
        } else {
            0
        }
    }
}

/// The two boxes share at least a point on both axes.
pub open spec fn overlaps(a: BoundingBox, b: BoundingBox) -> bool {
    &&& max_of(a.x_min as int, b.x_min as int) <= min_of(a.x_max as int, b.x_max as int)
    &&& max_of(a.y_min as int, b.y_min as int) <= min_of(a.y_max as int, b.y_max as int)
}

/// Area common to both boxes, zero when they do not overlap.
pub open spec fn intersection_area(a: BoundingBox, b: BoundingBox) -> int {
    if overlaps(a, b) {
        (min_of(a.x_max as int, b.x_max as int) - max_of(a.x_min as int, b.x_min as int)) * (min_of(
            a.y_max as int,
            b.y_max as int,
        ) - max_of(a.y_min as int, b.y_min as int))
    } else {
        0
    }
}

/// Area covered by at least one of the boxes.
pub open spec fn union_area(a: BoundingBox, b: BoundingBox) -> int {
    a.area() + b.area() - intersection_area(a, b)
}

/// Whether `intersection / union` is strictly above `threshold` parts per million.
/// A ratio over an empty union exceeds nothing.
pub open spec fn ratio_exceeds(intersection: int, union: int, threshold: int) -> bool {
    intersection * CONFIDENCE_SCALE > threshold * union
}

/// Whether the overlap ratio of the two boxes is strictly above `threshold`.
pub open spec fn iou_exceeds(a: BoundingBox, b: BoundingBox, threshold: int) -> bool {
    ratio_exceeds(intersection_area(a, b), union_area(a, b), threshold)
}

/// The overlap ratio in parts per million, rounded down; zero over an empty union.
pub open spec fn iou_ppm(a: BoundingBox, b: BoundingBox) -> int {
    if union_area(a, b) > 0 {
        intersection_area(a, b) * CONFIDENCE_SCALE / union_area(a, b)
    } else {
        0
    }
}

/// Overlapping boxes are both ordered, and their common area is at most either area.
pub proof fn lemma_intersection_bounds(a: BoundingBox, b: BoundingBox)
    ensures
        0 <= intersection_area(a, b) <= a.area(),
        intersection_area(a, b) <= b.area(),
        intersection_area(a, b) <= union_area(a, b),
        overlaps(a, b) ==> a.is_ordered() && b.is_ordered(),
{
    if overlaps(a, b) {
        let w = min_of(a.x_max as int, b.x_max as int) - max_of(a.x_min as int, b.x_min as int);
        let h = min_of(a.y_max as int, b.y_max as int) - max_of(a.y_min as int, b.y_min as int);
        let wa = a.x_max - a.x_min;
        let ha = a.y_max - a.y_min;
        let wb = b.x_max - b.x_min;
        let hb = b.y_max - b.y_min;
        assert(0 <= w <= wa && 0 <= h <= ha && w <= wb && h <= hb);
        assert(0 <= w * h) by (nonlinear_arith)
            requires
                0 <= w,
                0 <= h,
        ;
        assert(w * h <= wa * ha) by (nonlinear_arith)
            requires
                0 <= w <= wa,
                0 <= h <= ha,
        ;
        assert(w * h <= wb * hb) by (nonlinear_arith)
            requires
                0 <= w <= wb,
                0 <= h <= hb,
        ;
    } else {
        lemma_area_nonnegative(a);
        lemma_area_nonnegative(b);
    }
}

/// A box that covers an area has the overlap ratio one with itself.
pub proof fn lemma_iou_of_itself(a: BoundingBox)
    requires
        a.area() > 0,
    ensures
        intersection_area(a, a) == a.area(),
        union_area(a, a) == a.area(),
        iou_ppm(a, a) == CONFIDENCE_SCALE,
        forall|threshold: int| 0 <= threshold < CONFIDENCE_SCALE ==> iou_exceeds(a, a, threshold),
{
    let area = a.area();
    assert(area * CONFIDENCE_SCALE / area == CONFIDENCE_SCALE) by (nonlinear_arith)
        requires
            area > 0,
    ;
    assert forall|threshold: int| 0 <= threshold < CONFIDENCE_SCALE implies iou_exceeds(
        a,
        a,
        threshold,
    ) by {
        assert(area * CONFIDENCE_SCALE > threshold * area) by (nonlinear_arith)
            requires
                area > 0,
                threshold < CONFIDENCE_SCALE,
        ;
    }
}

/// Boxes that do not overlap have the overlap ratio zero, which exceeds no threshold.
pub proof fn lemma_iou_of_disjoint(a: BoundingBox, b: BoundingBox)
    requires
        !overlaps(a, b),
    ensures
        intersection_area(a, b) == 0,
        iou_ppm(a, b) == 0,
        forall|threshold: int| 0 <= threshold ==> !iou_exceeds(a, b, threshold),
{
    lemma_area_nonnegative(a);
    lemma_area_nonnegative(b);
    let union = union_area(a, b);
    if union > 0 {
        assert(0 * CONFIDENCE_SCALE / union == 0) by (nonlinear_arith)
            requires
                union > 0,
        ;
    }
    assert forall|threshold: int| 0 <= threshold implies !iou_exceeds(a, b, threshold) by {
        assert(threshold * union >= 0) by (nonlinear_arith)
            requires
                threshold >= 0,
                union >= 0,
        ;
    }
}

/// No box covers a negative area.
pub proof fn lemma_area_nonnegative(a: BoundingBox)
    ensures
        0 <= a.area(),
{
    if a.is_ordered() {
        assert(0 <= (a.x_max - a.x_min) * (a.y_max - a.y_min)) by (nonlinear_arith)
            requires
                a.x_min <= a.x_max,
                a.y_min <= a.y_max,
        ;
    }
}

} // verus!
