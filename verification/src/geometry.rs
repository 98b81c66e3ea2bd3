//! Affine matrices, points and axis-aligned boxes in PDF user space.
//!
//! Points are row vectors: a matrix `M` takes `[x y 1]` to `[x y 1] · M`.

use crate::fixed::Fixed;
use vstd::prelude::*;

verus! {

/// A point of the plane.
#[derive(Clone, Copy, Debug, PartialEq, Eq, Structural)]
pub struct Point {
    pub x: Fixed,
    pub y: Fixed,
}

/// A rectangle given by a corner and its extent, as a path operator names it.
#[derive(Clone, Copy, Debug, PartialEq, Eq, Structural)]
pub struct Rect {
    pub x: Fixed,
    pub y: Fixed,
    pub width: Fixed,
    pub height: Fixed,
}

/// The affine map `[x y 1] ↦ [a·x + c·y + e, b·x + d·y + f, 1]`.
#[derive(Clone, Copy, Debug, PartialEq, Eq, Structural)]
pub struct Matrix {
    pub a: Fixed,
    pub b: Fixed,
    pub c: Fixed,
    pub d: Fixed,
    pub e: Fixed,
    pub f: Fixed,
}

/// An axis-aligned box given by its lower-left and upper-right corners.
#[derive(Clone, Copy, Debug, PartialEq, Eq, Structural)]
pub struct BBox {
    pub x0: Fixed,
    pub y0: Fixed,
    pub x1: Fixed,
    pub y1: Fixed,
}

impl Matrix {
    /// The matrix that leaves every point where it is.
    pub open spec fn spec_identity() -> Matrix {
        Matrix {
            a: Fixed { raw: 1_000_000 },
            b: Fixed { raw: 0 },
            c: Fixed { raw: 0 },
            d: Fixed { raw: 1_000_000 },
            e: Fixed { raw: 0 },
            f: Fixed { raw: 0 },
        }
    }

    /// The matrix that leaves every point where it is.
    #[verifier::when_used_as_spec(spec_identity)]
    pub fn identity() -> (m: Matrix)
        ensures
            m == Matrix::spec_identity(),
    {
        Matrix {
            a: Fixed::from_raw(1_000_000),
            b: Fixed::zero(),
            c: Fixed::zero(),
            d: Fixed::from_raw(1_000_000),
            e: Fixed::zero(),
            f: Fixed::zero(),
        }
    }

    /// The matrix that moves every point by `(tx, ty)`.
    pub open spec fn spec_translation(tx: Fixed, ty: Fixed) -> Matrix {
        Matrix {
            a: Fixed { raw: 1_000_000 },
            b: Fixed { raw: 0 },
            c: Fixed { raw: 0 },
            d: Fixed { raw: 1_000_000 },
            e: tx,
            f: ty,
        }
    }

    /// The matrix that moves every point by `(tx, ty)`.
    #[verifier::when_used_as_spec(spec_translation)]
    pub fn translation(tx: Fixed, ty: Fixed) -> (m: Matrix)
        ensures
            m == Matrix::spec_translation(tx, ty),
    {
        Matrix {
            a: Fixed::from_raw(1_000_000),
            b: Fixed::zero(),
            c: Fixed::zero(),
            d: Fixed::from_raw(1_000_000),
            e: tx,
            f: ty,
        }
    }
}

impl BBox {
    /// The lower-left corner lies neither right of nor above the upper-right one.
    pub open spec fn ordered(self) -> bool {
        self.x0.raw <= self.x1.raw && self.y0.raw <= self.y1.raw
    }

    /// The horizontal extent.
    pub open spec fn spec_width(self) -> Fixed {
        self.x1.minus(self.x0)
    }

    /// The horizontal extent.
    #[verifier::when_used_as_spec(spec_width)]
    pub fn width(self) -> (w: Fixed)
        ensures
            w == self.spec_width(),
    {
        self.x1.minus(self.x0)
    }

    /// The vertical extent.
    pub open spec fn spec_height(self) -> Fixed {
        self.y1.minus(self.y0)
    }

    /// The vertical extent.
    #[verifier::when_used_as_spec(spec_height)]
    pub fn height(self) -> (h: Fixed)
        ensures
            h == self.spec_height(),
    {
        self.y1.minus(self.y0)
    }
}

/// The product `left · right`: the map that applies `left` first and `right` second.
pub open spec fn matrix_product(left: Matrix, right: Matrix) -> Matrix {
    Matrix {
        a: left.a.times(right.a).plus(left.b.times(right.c)),
        b: left.a.times(right.b).plus(left.b.times(right.d)),
        c: left.c.times(right.a).plus(left.d.times(right.c)),
        d: left.c.times(right.b).plus(left.d.times(right.d)),
        e: left.e.times(right.a).plus(left.f.times(right.c)).plus(right.e),
        f: left.e.times(right.b).plus(left.f.times(right.d)).plus(right.f),
    }
}

/// Computes the product `left · right`.
pub fn multiply_matrix(left: &Matrix, right: &Matrix) -> (m: Matrix)
    ensures
        m == matrix_product(*left, *right),
{
    Matrix {
        a: left.a.times(right.a).plus(left.b.times(right.c)),
        b: left.a.times(right.b).plus(left.b.times(right.d)),
        c: left.c.times(right.a).plus(left.d.times(right.c)),
        d: left.c.times(right.b).plus(left.d.times(right.d)),
        e: left.e.times(right.a).plus(left.f.times(right.c)).plus(right.e),
        f: left.e.times(right.b).plus(left.f.times(right.d)).plus(right.f),
    }
}

/// The matrix that results when `inner` is set up inside the space of `outer`:
/// the product `inner · outer`.
pub open spec fn composed(outer: Matrix, inner: Matrix) -> Matrix {
    matrix_product(inner, outer)
}

/// Concatenates `next` onto the current transformation `current`: points go
/// through `next` first and through `current` second.
pub fn concat_matrix(current: &Matrix, next: &Matrix) -> (m: Matrix)
    ensures
        m == composed(*current, *next),
{
    multiply_matrix(next, current)
}

/// The identity is neutral: setting it up inside a space, or setting a space
/// up inside it, changes nothing.
pub proof fn lemma_identity_neutral(m: Matrix)
    ensures
        composed(Matrix::identity(), m) == m,
        composed(m, Matrix::identity()) == m,
        matrix_product(Matrix::identity(), m) == m,
        matrix_product(m, Matrix::identity()) == m,
{
    let one = Fixed { raw: 1_000_000 };
    let zero = Fixed { raw: 0 };
    assert forall|x: Fixed| #[trigger] x.times(one) == x && #[trigger] one.times(x) == x && x.times(zero) == zero && zero.times(x) == zero by {
        assert((x.raw * 1_000_000) / 1_000_000 == x.raw) by (nonlinear_arith);
        assert((1_000_000 * x.raw) / 1_000_000 == x.raw) by (nonlinear_arith);
        assert(x.raw * 0 == 0 && 0 * x.raw == 0) by (nonlinear_arith);
        assert(0int / 1_000_000 == 0);
    }
}

/// The image of `point` under `matrix`.
pub open spec fn transformed(matrix: Matrix, point: Point) -> Point {
    Point {
        x: matrix.a.times(point.x).plus(matrix.c.times(point.y)).plus(matrix.e),
        y: matrix.b.times(point.x).plus(matrix.d.times(point.y)).plus(matrix.f),
    }
}

/// Applies `matrix` to `point`.
pub fn apply_matrix(matrix: &Matrix, point: Point) -> (p: Point)
    ensures
        p == transformed(*matrix, point),
{
    Point {
        x: matrix.a.times(point.x).plus(matrix.c.times(point.y)).plus(matrix.e),
        y: matrix.b.times(point.x).plus(matrix.d.times(point.y)).plus(matrix.f),
    }
}

/// The smallest box around the points of a non-empty sequence. Of the empty
/// sequence it is the box of the origin alone.
pub open spec fn hull(points: Seq<Point>) -> BBox
    decreases points.len(),
{
    if points.len() == 0 {
        BBox { x0: Fixed { raw: 0 }, y0: Fixed { raw: 0 }, x1: Fixed { raw: 0 }, y1: Fixed { raw: 0 } }
    } else if points.len() == 1 {
        BBox { x0: points[0].x, y0: points[0].y, x1: points[0].x, y1: points[0].y }
    } else {
        let rest = hull(points.drop_last());
        let p = points.last();
        BBox { x0: rest.x0.min(p.x), y0: rest.y0.min(p.y), x1: rest.x1.max(p.x), y1: rest.y1.max(p.y) }
    }
}

/// The hull of a non-empty sequence is ordered, holds every point, and each of
/// its sides touches one.
pub proof fn lemma_hull(points: Seq<Point>)
    requires
        points.len() > 0,
    ensures
        hull(points).ordered(),
        forall|i: int|
            0 <= i < points.len() ==> hull(points).x0.raw <= (#[trigger] points[i]).x.raw
                <= hull(points).x1.raw && hull(points).y0.raw <= points[i].y.raw <= hull(
                points,
            ).y1.raw,
        exists|i: int| 0 <= i < points.len() && (#[trigger] points[i]).x == hull(points).x0,
        exists|i: int| 0 <= i < points.len() && (#[trigger] points[i]).x == hull(points).x1,
        exists|i: int| 0 <= i < points.len() && (#[trigger] points[i]).y == hull(points).y0,
        exists|i: int| 0 <= i < points.len() && (#[trigger] points[i]).y == hull(points).y1,
    decreases points.len(),
{
    if points.len() == 1 {
        assert(points[0].x == hull(points).x0);
    } else {
        let front = points.drop_last();
        lemma_hull(front);
        let n = points.len() - 1;
        let rest = hull(front);
        let h = hull(points);
        assert forall|i: int| 0 <= i < points.len() implies h.x0.raw <= (#[trigger] points[i]).x.raw
            <= h.x1.raw && h.y0.raw <= points[i].y.raw <= h.y1.raw by {
            if i < n {
                assert(front[i] == points[i]);
            }
        }
        let ix0 = choose|i: int| 0 <= i < front.len() && (#[trigger] front[i]).x == rest.x0;
        let ix1 = choose|i: int| 0 <= i < front.len() && (#[trigger] front[i]).x == rest.x1;
        let iy0 = choose|i: int| 0 <= i < front.len() && (#[trigger] front[i]).y == rest.y0;
        let iy1 = choose|i: int| 0 <= i < front.len() && (#[trigger] front[i]).y == rest.y1;
        assert(points[ix0] == front[ix0] && points[ix1] == front[ix1] && points[iy0] == front[iy0]
            && points[iy1] == front[iy1]);
        assert(points[n].x == h.x0 || points[ix0].x == h.x0);
        assert(points[n].x == h.x1 || points[ix1].x == h.x1);
        assert(points[n].y == h.y0 || points[iy0].y == h.y0);
        assert(points[n].y == h.y1 || points[iy1].y == h.y1);
    }
}

/// Computes the smallest box around `points`, if there is any point.
pub fn points_bbox(points: &Vec<Point>) -> (r: Option<BBox>)
    ensures
        points@.len() == 0 ==> r.is_none(),
        points@.len() > 0 ==> r == Some(hull(points@)),
{
    if points.len() == 0 {
        return None;
    }
    let first = points[0];
    let mut bbox = BBox { x0: first.x, y0: first.y, x1: first.x, y1: first.y };
    let mut i: usize = 1;
    assert(points@.subrange(0, 1) =~= seq![first]);
    while i < points.len()
        invariant
            1 <= i <= points.len(),
            bbox == hull(points@.subrange(0, i as int)),
        decreases points.len() - i,
    {
        let p = points[i];
        proof {
            let next = points@.subrange(0, i + 1);
            assert(next.drop_last() =~= points@.subrange(0, i as int));
            assert(next.last() == p);
        }
        bbox = BBox {
            x0: bbox.x0.min(p.x),
            y0: bbox.y0.min(p.y),
            x1: bbox.x1.max(p.x),
            y1: bbox.y1.max(p.y),
        };
        i += 1;
    }
    assert(points@.subrange(0, i as int) =~= points@);
    Some(bbox)
}

/// The corners of the unit square, in the order in which they are taken.
pub open spec fn unit_corners() -> Seq<Point> {
    seq![
        Point { x: Fixed { raw: 0 }, y: Fixed { raw: 0 } },
        Point { x: Fixed { raw: 1_000_000 }, y: Fixed { raw: 0 } },
        Point { x: Fixed { raw: 0 }, y: Fixed { raw: 1_000_000 } },
        Point { x: Fixed { raw: 1_000_000 }, y: Fixed { raw: 1_000_000 } },
    ]
}

/// The smallest box around the image of the unit square under `matrix`.
pub open spec fn unit_square_hull(matrix: Matrix) -> BBox {
    hull(unit_corners().map_values(|p: Point| transformed(matrix, p)))
}

/// Computes the bounds of the unit square under `matrix`: where an image that
/// is drawn under this transformation comes to lie.
pub fn unit_square_bounds(matrix: &Matrix) -> (bbox: BBox)
    ensures
        bbox == unit_square_hull(*matrix),
        bbox.ordered(),
{
    let zero = Fixed::zero();
    let one = Fixed::from_raw(1_000_000);
    let mut corners: Vec<Point> = Vec::new();
    corners.push(apply_matrix(matrix, Point { x: zero, y: zero }));
    corners.push(apply_matrix(matrix, Point { x: one, y: zero }));
    corners.push(apply_matrix(matrix, Point { x: zero, y: one }));
    corners.push(apply_matrix(matrix, Point { x: one, y: one }));
    proof {
        assert(corners@ =~= unit_corners().map_values(|p: Point| transformed(*matrix, p)));
        lemma_hull(corners@);
    }
    match points_bbox(&corners) {
        Some(bbox) => bbox,
        None => BBox { x0: zero, y0: zero, x1: zero, y1: zero },
    }
}

/// The box `outer` holds the box `inner`: no edge of `inner` lies outside.
pub open spec fn holds(outer: BBox, inner: BBox) -> bool {
    outer.x0.raw <= inner.x0.raw && outer.y0.raw <= inner.y0.raw && inner.x1.raw <= outer.x1.raw
        && inner.y1.raw <= outer.y1.raw
}

/// The union of two boxes: the component-wise minimum of the lower-left
/// corners and maximum of the upper-right ones.
pub open spec fn union_of(a: BBox, b: BBox) -> BBox {
    BBox { x0: a.x0.min(b.x0), y0: a.y0.min(b.y0), x1: a.x1.max(b.x1), y1: a.y1.max(b.y1) }
}

/// Computes the union of two boxes.
pub fn bbox_union(a: BBox, b: BBox) -> (r: BBox)
    ensures
        r == union_of(a, b),
        a.ordered() || b.ordered() ==> r.ordered(),
{
    BBox { x0: a.x0.min(b.x0), y0: a.y0.min(b.y0), x1: a.x1.max(b.x1), y1: a.y1.max(b.y1) }
}

/// The distance between the intervals `[a_min, a_max]` and `[b_min, b_max]`:
/// zero where they overlap or touch.
pub open spec fn interval_gap(a_min: Fixed, a_max: Fixed, b_min: Fixed, b_max: Fixed) -> Fixed {
    if a_max.raw < b_min.raw {
        b_min.minus(a_max)
    } else if b_max.raw < a_min.raw {
        a_min.minus(b_max)
    } else {
        Fixed { raw: 0 }
    }
}

/// Computes the distance between two intervals of one axis.
pub fn axis_gap(a_min: Fixed, a_max: Fixed, b_min: Fixed, b_max: Fixed) -> (gap: Fixed)
    ensures
        gap == interval_gap(a_min, a_max, b_min, b_max),
        gap.raw >= 0,
{
    if a_max.raw < b_min.raw {
        b_min.minus(a_max)
    } else if b_max.raw < a_min.raw {
        a_min.minus(b_max)
    } else {
        Fixed::zero()
    }
}

/// The horizontal and the vertical distance between two boxes.
pub open spec fn gaps_between(a: BBox, b: BBox) -> (Fixed, Fixed) {
    (interval_gap(a.x0, a.x1, b.x0, b.x1), interval_gap(a.y0, a.y1, b.y0, b.y1))
}

/// Computes the horizontal and the vertical distance between two boxes.
pub fn bbox_gaps(a: BBox, b: BBox) -> (gaps: (Fixed, Fixed))
    ensures
        gaps == gaps_between(a, b),
{
    (axis_gap(a.x0, a.x1, b.x0, b.x1), axis_gap(a.y0, a.y1, b.y0, b.y1))
}

/// Two boxes are close when neither distance exceeds its margin.
pub open spec fn close_to(a: BBox, b: BBox, horizontal_margin: Fixed, vertical_margin: Fixed) -> bool {
    gaps_between(a, b).0.raw <= horizontal_margin.raw && gaps_between(a, b).1.raw
        <= vertical_margin.raw
}

/// Tells whether two boxes are close under the given margins.
pub fn bbox_close(a: BBox, b: BBox, horizontal_margin: Fixed, vertical_margin: Fixed) -> (r: bool)
    ensures
        r == close_to(a, b, horizontal_margin, vertical_margin),
{
    let x_gap = axis_gap(a.x0, a.x1, b.x0, b.x1);
    let y_gap = axis_gap(a.y0, a.y1, b.y0, b.y1);
    x_gap.raw <= horizontal_margin.raw && y_gap.raw <= vertical_margin.raw
}

/// The box with the corners `(x0, y0)` and `(x1, y1)` put in order.
pub open spec fn canonical_box(x0: Fixed, y0: Fixed, x1: Fixed, y1: Fixed) -> BBox {
    BBox { x0: x0.min(x1), y0: y0.min(y1), x1: x0.max(x1), y1: y0.max(y1) }
}

/// Puts the corners of a box in order.
pub fn canonicalize(x0: Fixed, y0: Fixed, x1: Fixed, y1: Fixed) -> (r: BBox)
    ensures
        r == canonical_box(x0, y0, x1, y1),
        r.ordered(),
{
    BBox { x0: x0.min(x1), y0: y0.min(y1), x1: x0.max(x1), y1: y0.max(y1) }
}

/// The five corner points of a rectangle path, closing back to its origin.
pub open spec fn rect_corners(rect: Rect) -> Seq<Point> {
    let x2 = rect.x.plus(rect.width);
    let y2 = rect.y.plus(rect.height);
    seq![
        Point { x: rect.x, y: rect.y },
        Point { x: x2, y: rect.y },
        Point { x: x2, y: y2 },
        Point { x: rect.x, y: y2 },
        Point { x: rect.x, y: rect.y },
    ]
}

/// Computes the corner points of a rectangle path.
pub fn rect_to_points(rect: &Rect) -> (points: Vec<Point>)
    ensures
        points@ == rect_corners(*rect),
{
    let x2 = rect.x.plus(rect.width);
    let y2 = rect.y.plus(rect.height);
    let mut points: Vec<Point> = Vec::new();
    points.push(Point { x: rect.x, y: rect.y });
    points.push(Point { x: x2, y: rect.y });
    points.push(Point { x: x2, y: y2 });
    points.push(Point { x: rect.x, y: y2 });
    points.push(Point { x: rect.x, y: rect.y });
    assert(points@ =~= rect_corners(*rect));
    points
}

} // verus!
