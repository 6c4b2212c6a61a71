//! Conversion of the `polyline` and `polygon` shapes into paths.

use vstd::prelude::*;

verus! {

/// A path segment in absolute coordinates of type `T`.
#[derive(Clone, Copy, PartialEq, Debug)]
pub enum PathSegment<T> {
    MoveTo { x: T, y: T },
    LineTo { x: T, y: T },
    CurveTo { x1: T, y1: T, x2: T, y2: T, x: T, y: T },
    ClosePath,
}

/// The segment that visits point `i` of a point list: a move to the first
/// point, a line to every other one.
pub open spec fn point_segment<T>(points: Seq<(T, T)>, i: int) -> PathSegment<T> {
    if i == 0 {
        PathSegment::MoveTo { x: points[i].0, y: points[i].1 }
    } else {
        PathSegment::LineTo { x: points[i].0, y: points[i].1 }
    }
}

/// Whether `path` visits `points` in order, starting with a move.
pub open spec fn visits<T>(path: Seq<PathSegment<T>>, points: Seq<(T, T)>) -> bool {
    &&& path.len() == points.len()
    &&& forall|i: int| 0 <= i < points.len() ==> path[i] == #[trigger] point_segment(points, i)
}

/// Builds the path through the points of a `points` attribute.
///
/// `points` is `None` when the attribute is missing or invalid. A shape
/// needs at least 2 points; otherwise the result is `None`.
fn points_to_path<T: Copy>(points: Option<&[(T, T)]>) -> (r: Option<Vec<PathSegment<T>>>)
    ensures
        match points {
            None => r is None,
            Some(p) => if p@.len() < 2 {
                r is None
            } else {
                r matches Some(path) && visits(path@, p@)
            },
        },
{
    let points = match points {
        Some(p) => p,
        None => return None,
    };
    let mut path: Vec<PathSegment<T>> = Vec::new();
    let mut i: usize = 0;
    while i < points.len()
        invariant
            i <= points@.len(),
            path@.len() == i,
            forall|j: int| 0 <= j < i ==> path@[j] == #[trigger] point_segment(points@, j),
        decreases points.len() - i,
    {
        let (x, y) = points[i];
        if path.len() == 0 {
            path.push(PathSegment::MoveTo { x, y });
        } else {
            path.push(PathSegment::LineTo { x, y });
        }
        i = i + 1;
    }
    if path.len() < 2 {
        return None;
    }
    Some(path)
}

/// Converts a `polyline` element with the given points into a path.
pub fn convert_polyline<T: Copy>(points: Option<&[(T, T)]>) -> (r: Option<Vec<PathSegment<T>>>)
    ensures
        match points {
            None => r is None,
            Some(p) => if p@.len() < 2 {
                r is None
            } else {
                r matches Some(path) && visits(path@, p@)
            },
        },
{
    points_to_path(points)
}

/// Converts a `polygon` element with the given points into a closed path.
pub fn convert_polygon<T: Copy>(points: Option<&[(T, T)]>) -> (r: Option<Vec<PathSegment<T>>>)
    ensures
        match points {
            None => r is None,
            Some(p) => if p@.len() < 2 {
                r is None
            } else {
                r matches Some(path) && visits(path@.drop_last(), p@) && path@.len() == p@.len() + 1
                    && path@.last() == PathSegment::<T>::ClosePath
            },
        },
{
    match points_to_path(points) {
        Some(mut path) => {
            let ghost open_path = path@;
            path.push(PathSegment::ClosePath);
            assert(path@.drop_last() =~= open_path);
            Some(path)
        },
        None => None,
    }
}

} // verus!
