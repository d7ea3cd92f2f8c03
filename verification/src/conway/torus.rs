//! Coordinates on the wrapped grid: the boundary rule and the neighbourhood.
use crate::Pos;
use vstd::prelude::*;

verus! {

/// Where a coordinate one step past an edge lands on an axis of length
/// `size`: below zero it re-enters at the far end, at or past `size` it
/// re-enters at zero. Exact for steps of one cell only.
pub open spec fn wrap(coord: int, size: int) -> int {
    if coord < 0 {
        size - 1
    } else if coord >= size {
        0
    } else {
        coord
    }
}

/// The boundary rule on machine integers. The coordinate is taken wide so
/// that a neighbour of any `i32` coordinate can be passed without overflow.
/// On an axis of positive length the result is a coordinate of the axis.
pub fn apply_periodic_boundary(coord: i64, axis_size: i32) -> (wrapped: i32)
    requires
        axis_size > i32::MIN,
    ensures
        wrapped == wrap(coord as int, axis_size as int),
        axis_size > 0 ==> 0 <= wrapped < axis_size,
{
    if coord < 0 {
        axis_size - 1
    } else if coord >= axis_size as i64 {
        0
    } else {
        coord as i32
    }
}

/// The eight steps from a cell to the cells around it, as (column, row)
/// differences:
///
/// ```text
/// (-1, 1) (0, 1) (1, 1)
/// (-1, 0) (cell) (1, 0)
/// (-1,-1) (0,-1) (1,-1)
/// ```
pub const NEIGHBORS: [(i32, i32); 8] = [
    (-1, 1),
    (0, 1),
    (1, 1),
    (-1, 0),
    (1, 0),
    (-1, -1),
    (0, -1),
    (1, -1),
];

/// Step number `k` of the eight, in the order of [`NEIGHBORS`].
pub open spec fn offset(k: int) -> (int, int) {
    if k == 0 {
        (-1, 1)
    } else if k == 1 {
        (0, 1)
    } else if k == 2 {
        (1, 1)
    } else if k == 3 {
        (-1, 0)
    } else if k == 4 {
        (1, 0)
    } else if k == 5 {
        (-1, -1)
    } else if k == 6 {
        (0, -1)
    } else {
        (1, -1)
    }
}

/// Whether `p` lies on the grid of side `size`.
pub open spec fn on_grid(p: Pos, size: int) -> bool {
    0 <= p.0 < size && 0 <= p.1 < size
}

/// The cell reached from `p` by the step `(dx, dy)`, each axis put through
/// the boundary rule.
pub open spec fn shifted(p: Pos, dx: int, dy: int, size: int) -> Pos {
    Pos(wrap(p.0 + dx, size) as i32, wrap(p.1 + dy, size) as i32)
}

/// Neighbour number `k` of `p`.
pub open spec fn neighbor(p: Pos, k: int, size: int) -> Pos {
    shifted(p, offset(k).0, offset(k).1, size)
}

/// How many of the first `k` neighbours of `p` are in `cells`. A cell that
/// is reached by several steps, as happens on grids of side one or two, is
/// counted once for each step.
pub open spec fn live_among(cells: Set<Pos>, p: Pos, size: int, k: int) -> nat
    decreases k,
{
    if k <= 0 {
        0
    } else {
        live_among(cells, p, size, k - 1) + if cells.contains(neighbor(p, k - 1, size)) {
            1nat
        } else {
            0nat
        }
    }
}

/// How many of the eight neighbours of `p` are in `cells`.
pub open spec fn live_neighbors(cells: Set<Pos>, p: Pos, size: int) -> nat {
    live_among(cells, p, size, 8)
}

/// The birth and survival rule: a cell is live in the next generation when
/// it has exactly three live neighbours, or has exactly two and is live now.
pub open spec fn lives_on(cells: Set<Pos>, p: Pos, size: int) -> bool {
    live_neighbors(cells, p, size) == 3 || (live_neighbors(cells, p, size) == 2 && cells.contains(
        p,
    ))
}

/// The generation that follows `cells` on a grid of side `size`: the cells
/// of the grid that the rule keeps or brings to life. Cells recorded outside
/// the grid are never anyone's neighbour and do not carry over.
pub open spec fn next_generation(cells: Set<Pos>, size: int) -> Set<Pos> {
    Set::new(|p: Pos| on_grid(p, size) && lives_on(cells, p, size))
}

/// Neighbour number `k` of `p` on a grid of side `size`.
pub fn neighbor_at(p: Pos, k: usize, size: i32) -> (q: Pos)
    requires
        size > 0,
        k < 8,
    ensures
        q == neighbor(p, k as int, size as int),
        on_grid(q, size as int),
{
    let step = NEIGHBORS[k];
    Pos(
        apply_periodic_boundary(p.0 as i64 + step.0 as i64, size),
        apply_periodic_boundary(p.1 as i64 + step.1 as i64, size),
    )
}

/// On the grid the neighbourhood is symmetric: the step opposite to step
/// `k` is step `7 - k`, and it leads back.
pub proof fn lemma_neighbor_symmetric(p: Pos, k: int, size: int)
    requires
        0 < size <= i32::MAX,
        on_grid(p, size),
        0 <= k < 8,
    ensures
        neighbor(neighbor(p, k, size), 7 - k, size) == p,
{
}

/// A cell with a positive count has a live neighbour.
pub proof fn lemma_some_live_neighbor(cells: Set<Pos>, p: Pos, size: int)
    requires
        live_neighbors(cells, p, size) > 0,
    ensures
        exists|k: int| 0 <= k < 8 && cells.contains(#[trigger] neighbor(p, k, size)),
{
    reveal_with_fuel(live_among, 9);
    if cells.contains(neighbor(p, 0, size)) {
    } else if cells.contains(neighbor(p, 1, size)) {
    } else if cells.contains(neighbor(p, 2, size)) {
    } else if cells.contains(neighbor(p, 3, size)) {
    } else if cells.contains(neighbor(p, 4, size)) {
    } else if cells.contains(neighbor(p, 5, size)) {
    } else if cells.contains(neighbor(p, 6, size)) {
    } else {
        assert(cells.contains(neighbor(p, 7, size)));
    }
}

} // verus!
