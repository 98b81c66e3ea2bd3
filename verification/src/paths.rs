//! The path segments that a content stream draws, in the order in which it
//! draws them. Coordinates are those of the content stream: no transformation
//! is applied.

use crate::geometry::{rect_corners, rect_to_points, Point, Rect};
use crate::ops::Op;
use vstd::prelude::*;

verus! {

/// The kinds of path segment.
#[derive(Clone, Copy, Debug, PartialEq, Eq, Structural)]
pub enum PathKind {
    Line,
    Curve,
    Rect,
}

/// A segment of a path with its points.
#[derive(Clone, Copy, Debug, PartialEq, Eq, Structural)]
pub enum PathSegment {
    /// A straight line from the first point to the second.
    Line(Point, Point),
    /// A cubic curve from the first point to the last, with its two control
    /// points between them.
    Curve(Point, Point, Point, Point),
    /// A rectangle by its corners, the last being the first again.
    Rect(Point, Point, Point, Point, Point),
}

/// Where a path stands: the current point, and the point at which the
/// current subpath began.
#[derive(Clone, Copy, Debug, PartialEq, Eq, Structural)]
pub struct PathState {
    pub current_point: Option<Point>,
    pub subpath_start: Option<Point>,
}

impl PathKind {
    /// The name under which the kind is reported.
    pub open spec fn name_of(self) -> Seq<char> {
        match self {
            PathKind::Line => "line"@,
            PathKind::Curve => "curve"@,
            PathKind::Rect => "rect"@,
        }
    }

    /// The name under which the kind is reported.
    pub fn name(&self) -> (r: &'static str)
        ensures
            r@ == self.name_of(),
    {
        match self {
            PathKind::Line => "line",
            PathKind::Curve => "curve",
            PathKind::Rect => "rect",
        }
    }
}

impl PathSegment {
    /// The kind of the segment.
    pub open spec fn kind_of(self) -> PathKind {
        match self {
            PathSegment::Line(..) => PathKind::Line,
            PathSegment::Curve(..) => PathKind::Curve,
            PathSegment::Rect(..) => PathKind::Rect,
        }
    }

    /// The kind of the segment.
    pub fn kind(&self) -> (k: PathKind)
        ensures
            k == self.kind_of(),
    {
        match self {
            PathSegment::Line(..) => PathKind::Line,
            PathSegment::Curve(..) => PathKind::Curve,
            PathSegment::Rect(..) => PathKind::Rect,
        }
    }

    /// The points of the segment, in their order.
    pub open spec fn points_of(self) -> Seq<Point> {
        match self {
            PathSegment::Line(p0, p1) => seq![p0, p1],
            PathSegment::Curve(p0, c1, c2, p1) => seq![p0, c1, c2, p1],
            PathSegment::Rect(p0, p1, p2, p3, p4) => seq![p0, p1, p2, p3, p4],
        }
    }

    /// The points of the segment, in their order.
    pub fn points(&self) -> (points: Vec<Point>)
        ensures
            points@ == self.points_of(),
            points@.len() > 0,
    {
        let mut points: Vec<Point> = Vec::new();
        match self {
            PathSegment::Line(p0, p1) => {
                points.push(*p0);
                points.push(*p1);
            },
            PathSegment::Curve(p0, c1, c2, p1) => {
                points.push(*p0);
                points.push(*c1);
                points.push(*c2);
                points.push(*p1);
            },
            PathSegment::Rect(p0, p1, p2, p3, p4) => {
                points.push(*p0);
                points.push(*p1);
                points.push(*p2);
                points.push(*p3);
                points.push(*p4);
            },
        }
        assert(points@ =~= self.points_of());
        points
    }
}

/// The segment of a rectangle operator: its corner points in their order.
pub open spec fn rect_segment(rect: Rect) -> PathSegment {
    let corners = rect_corners(rect);
    PathSegment::Rect(corners[0], corners[1], corners[2], corners[3], corners[4])
}

/// What one operator does to a path, and the segment it draws.
///
/// A move starts a subpath. A line or a curve runs from the current point,
/// where there is one, and ends at its last point. A rectangle is a segment
/// of its own and starts a subpath at its origin. Closing draws the line back
/// to the start of the subpath, where both ends are known, and goes there.
pub open spec fn path_step(state: PathState, op: Op) -> (PathState, Option<PathSegment>) {
    match op {
        Op::MoveTo { p } => (PathState { current_point: Some(p), subpath_start: Some(p) }, None),
        Op::LineTo { p } => (
            PathState { current_point: Some(p), ..state },
            match state.current_point {
                Some(start) => Some(PathSegment::Line(start, p)),
                None => None,
            },
        ),
        Op::CurveTo { c1, c2, p } => (
            PathState { current_point: Some(p), ..state },
            match state.current_point {
                Some(start) => Some(PathSegment::Curve(start, c1, c2, p)),
                None => None,
            },
        ),
        Op::Rect { rect } => {
            let origin = Point { x: rect.x, y: rect.y };
            (
                PathState { current_point: Some(origin), subpath_start: Some(origin) },
                Some(rect_segment(rect)),
            )
        },
        Op::Close => (
            PathState { current_point: state.subpath_start, ..state },
            match (state.current_point, state.subpath_start) {
                (Some(start), Some(first)) => Some(PathSegment::Line(start, first)),
                _ => None,
            },
        ),
        _ => (state, None),
    }
}

/// The segments with one more, if there is one.
pub open spec fn with_segment(segments: Seq<PathSegment>, segment: Option<PathSegment>) -> Seq<
    PathSegment,
> {
    match segment {
        Some(s) => segments.push(s),
        None => segments,
    }
}

/// What a sequence of operators draws, starting without a current point.
pub open spec fn path_pass(ops: Seq<Op>) -> (PathState, Seq<PathSegment>)
    decreases ops.len(),
{
    if ops.len() == 0 {
        (PathState { current_point: None, subpath_start: None }, Seq::<PathSegment>::empty())
    } else {
        let before = path_pass(ops.drop_last());
        let last = path_step(before.0, ops.last());
        (last.0, with_segment(before.1, last.1))
    }
}

/// The path segments of a content stream, in the order of its operators.
pub open spec fn path_segments(ops: Seq<Op>) -> Seq<PathSegment> {
    path_pass(ops).1
}

/// Segments are drawn in the order of the operators: what the first `k`
/// operators draw stands first, unchanged, in what all of them draw.
pub proof fn lemma_path_segments_keep_order(ops: Seq<Op>, k: int)
    requires
        0 <= k <= ops.len(),
    ensures
        path_segments(ops.take(k)).len() <= path_segments(ops).len(),
        path_segments(ops.take(k)) == path_segments(ops).take(
            path_segments(ops.take(k)).len() as int,
        ),
    decreases ops.len(),
{
    if k == ops.len() {
        assert(ops.take(k) =~= ops);
        assert(path_segments(ops).take(path_segments(ops).len() as int) =~= path_segments(ops));
    } else {
        let front = ops.drop_last();
        lemma_path_segments_keep_order(front, k);
        assert(front.take(k) =~= ops.take(k));
        let part = path_segments(ops.take(k));
        assert(part =~= path_segments(ops).take(part.len() as int));
    }
}

/// Follows the path operators of a content stream and gathers the segments
/// that they draw.
pub fn collect_paths(ops: &Vec<Op>) -> (segments: Vec<PathSegment>)
    ensures
        segments@ == path_segments(ops@),
{
    let mut segments: Vec<PathSegment> = Vec::new();
    let mut state = PathState { current_point: None, subpath_start: None };
    let mut i: usize = 0;
    while i < ops.len()
        invariant
            i <= ops@.len(),
            state == path_pass(ops@.take(i as int)).0,
            segments@ == path_pass(ops@.take(i as int)).1,
        decreases ops@.len() - i,
    {
        proof {
            assert(ops@.take(i + 1).drop_last() =~= ops@.take(i as int));
            assert(ops@.take(i + 1).last() == ops@[i as int]);
        }
        match &ops[i] {
            Op::MoveTo { p } => {
                state = PathState { current_point: Some(*p), subpath_start: Some(*p) };
            },
            Op::LineTo { p } => {
                if let Some(start) = state.current_point {
                    segments.push(PathSegment::Line(start, *p));
                }
                state.current_point = Some(*p);
            },
            Op::CurveTo { c1, c2, p } => {
                if let Some(start) = state.current_point {
                    segments.push(PathSegment::Curve(start, *c1, *c2, *p));
                }
                state.current_point = Some(*p);
            },
            Op::Rect { rect } => {
                let points = rect_to_points(rect);
                segments.push(
                    PathSegment::Rect(points[0], points[1], points[2], points[3], points[4]),
                );
                state = PathState { current_point: Some(points[0]), subpath_start: Some(points[0]) };
            },
            Op::Close => {
                if let Some(start) = state.current_point {
                    if let Some(first) = state.subpath_start {
                        segments.push(PathSegment::Line(start, first));
                    }
                }
                state.current_point = state.subpath_start;
            },
            _ => {},
        }
        i += 1;
    }
    assert(ops@.take(i as int) =~= ops@);
    segments
}

} // verus!
