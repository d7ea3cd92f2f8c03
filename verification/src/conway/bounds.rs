//! The bounding box of a set of cells, and the shift that centres it.
use crate::Pos;
use vstd::prelude::*;

verus! {

/// No cell at all.
pub open spec fn is_empty(cells: Set<Pos>) -> bool {
    forall|p: Pos| !cells.contains(p)
}

/// `lo` holds the least column and the least row that occur in `cells`.
pub open spec fn is_min_corner(cells: Set<Pos>, lo: (int, int)) -> bool {
    &&& exists|p: Pos| cells.contains(p) && p.0 == lo.0
    &&& exists|p: Pos| cells.contains(p) && p.1 == lo.1
    &&& forall|p: Pos| cells.contains(p) ==> lo.0 <= p.0 && lo.1 <= p.1
}

/// `hi` holds the greatest column and the greatest row that occur in `cells`.
pub open spec fn is_max_corner(cells: Set<Pos>, hi: (int, int)) -> bool {
    &&& exists|p: Pos| cells.contains(p) && p.0 == hi.0
    &&& exists|p: Pos| cells.contains(p) && p.1 == hi.1
    &&& forall|p: Pos| cells.contains(p) ==> p.0 <= hi.0 && p.1 <= hi.1
}

/// The least column and row of `cells`; meaningful when `cells` is not empty.
pub open spec fn min_corner(cells: Set<Pos>) -> (int, int) {
    choose|lo: (int, int)| is_min_corner(cells, lo)
}

/// The greatest column and row of `cells`; meaningful when `cells` is not
/// empty.
pub open spec fn max_corner(cells: Set<Pos>) -> (int, int) {
    choose|hi: (int, int)| is_max_corner(cells, hi)
}

/// A set has at most one least corner.
pub proof fn lemma_min_corner_unique(cells: Set<Pos>, lo: (int, int))
    requires
        is_min_corner(cells, lo),
    ensures
        min_corner(cells) == lo,
{
    let c = min_corner(cells);
    assert(is_min_corner(cells, c));
    let px = choose|p: Pos| cells.contains(p) && p.0 == lo.0;
    let py = choose|p: Pos| cells.contains(p) && p.1 == lo.1;
    let qx = choose|p: Pos| cells.contains(p) && p.0 == c.0;
    let qy = choose|p: Pos| cells.contains(p) && p.1 == c.1;
    assert(c.0 <= px.0 && lo.0 <= qx.0);
    assert(c.1 <= py.1 && lo.1 <= qy.1);
}

/// A set has at most one greatest corner.
pub proof fn lemma_max_corner_unique(cells: Set<Pos>, hi: (int, int))
    requires
        is_max_corner(cells, hi),
    ensures
        max_corner(cells) == hi,
{
    let c = max_corner(cells);
    assert(is_max_corner(cells, c));
    let px = choose|p: Pos| cells.contains(p) && p.0 == hi.0;
    let py = choose|p: Pos| cells.contains(p) && p.1 == hi.1;
    let qx = choose|p: Pos| cells.contains(p) && p.0 == c.0;
    let qy = choose|p: Pos| cells.contains(p) && p.1 == c.1;
    assert(px.0 <= c.0 && qx.0 <= hi.0);
    assert(py.1 <= c.1 && qy.1 <= hi.1);
}

/// The least column and row among `cells`, or `None` for no cells.
pub fn least_corner(cells: &Vec<Pos>) -> (corner: Option<(i32, i32)>)
    ensures
        corner is None <==> cells@.len() == 0,
        corner matches Some(lo) ==> is_min_corner(cells@.to_set(), (lo.0 as int, lo.1 as int)),
        corner matches Some(lo) ==> min_corner(cells@.to_set()) == (lo.0 as int, lo.1 as int),
{
    if cells.len() == 0 {
        return None;
    }
    let mut min_x: i32 = cells[0].0;
    let mut min_y: i32 = cells[0].1;
    let mut i: usize = 1;
    while i < cells.len()
        invariant
            1 <= i <= cells.len(),
            exists|j: int| 0 <= j < i && #[trigger] cells@[j].0 == min_x,
            exists|j: int| 0 <= j < i && #[trigger] cells@[j].1 == min_y,
            forall|j: int| 0 <= j < i ==> min_x <= (#[trigger] cells@[j]).0 && min_y <= cells@[j].1,
        decreases cells.len() - i,
    {
        let el = cells[i];
        if el.0 < min_x {
            min_x = el.0;
        }
        if el.1 < min_y {
            min_y = el.1;
        }
        i += 1;
    }
    proof {
        let jx = choose|j: int| 0 <= j < cells@.len() && #[trigger] cells@[j].0 == min_x;
        let jy = choose|j: int| 0 <= j < cells@.len() && #[trigger] cells@[j].1 == min_y;
        assert(cells@.to_set().contains(cells@[jx]));
        assert(cells@.to_set().contains(cells@[jy]));
        lemma_min_corner_unique(cells@.to_set(), (min_x as int, min_y as int));
    }
    Some((min_x, min_y))
}

/// The greatest column and row among `cells`, or `None` for no cells.
pub fn greatest_corner(cells: &Vec<Pos>) -> (corner: Option<(i32, i32)>)
    ensures
        corner is None <==> cells@.len() == 0,
        corner matches Some(hi) ==> is_max_corner(cells@.to_set(), (hi.0 as int, hi.1 as int)),
        corner matches Some(hi) ==> max_corner(cells@.to_set()) == (hi.0 as int, hi.1 as int),
{
    if cells.len() == 0 {
        return None;
    }
    let mut max_x: i32 = cells[0].0;
    let mut max_y: i32 = cells[0].1;
    let mut i: usize = 1;
    while i < cells.len()
        invariant
            1 <= i <= cells.len(),
            exists|j: int| 0 <= j < i && #[trigger] cells@[j].0 == max_x,
            exists|j: int| 0 <= j < i && #[trigger] cells@[j].1 == max_y,
            forall|j: int| 0 <= j < i ==> (#[trigger] cells@[j]).0 <= max_x && cells@[j].1 <= max_y,
        decreases cells.len() - i,
    {
        let el = cells[i];
        if el.0 > max_x {
            max_x = el.0;
        }
        if el.1 > max_y {
            max_y = el.1;
        }
        i += 1;
    }
    proof {
        let jx = choose|j: int| 0 <= j < cells@.len() && #[trigger] cells@[j].0 == max_x;
        let jy = choose|j: int| 0 <= j < cells@.len() && #[trigger] cells@[j].1 == max_y;
        assert(cells@.to_set().contains(cells@[jx]));
        assert(cells@.to_set().contains(cells@[jy]));
        lemma_max_corner_unique(cells@.to_set(), (max_x as int, max_y as int));
    }
    Some((max_x, max_y))
}

/// How far a span from `lo` to `hi` must move along an axis of length
/// `size` for its middle to come to rest on the middle of the axis.
pub open spec fn centering_shift(lo: int, hi: int, size: int) -> int {
    size / 2 - (hi - lo) / 2 - lo
}

/// The shift, by column and by row, that centres `cells` on a grid of side
/// `size`. Nothing moves when there are no cells.
pub open spec fn centering_offset(cells: Set<Pos>, size: int) -> (int, int) {
    if is_empty(cells) {
        (0, 0)
    } else {
        (
            centering_shift(min_corner(cells).0, max_corner(cells).0, size),
            centering_shift(min_corner(cells).1, max_corner(cells).1, size),
        )
    }
}

/// Every cell moved by `(dx, dy)` is still a coordinate.
pub open spec fn can_translate(cells: Set<Pos>, dx: int, dy: int) -> bool {
    forall|p: Pos|
        cells.contains(p) ==> i32::MIN <= p.0 + dx <= i32::MAX && i32::MIN <= p.1 + dy
            <= i32::MAX
}

/// The cells of `cells`, each moved by `(dx, dy)`.
pub open spec fn translated(cells: Set<Pos>, dx: int, dy: int) -> Set<Pos> {
    Set::new(|q: Pos| exists|p: Pos| cells.contains(p) && q.0 == p.0 + dx && q.1 == p.1 + dy)
}

/// The shift that centres the span from `lo` to `hi` on an axis of length
/// `size`.
pub fn shift_to_center(lo: i32, hi: i32, size: i32) -> (shift: i64)
    requires
        lo <= hi,
        size > 0,
    ensures
        shift == centering_shift(lo as int, hi as int, size as int),
{
    (size / 2) as i64 - (hi as i64 - lo as i64) / 2 - lo as i64
}

/// Whether a coordinate moved by `shift` is still an `i32`.
pub fn fits_after(coord: i32, shift: i64) -> (fits: bool)
    ensures
        fits == (i32::MIN <= coord + shift <= i32::MAX),
{
    let moved: i128 = coord as i128 + shift as i128;
    -0x8000_0000 <= moved && moved <= 0x7fff_ffff
}

/// Moving a set moves its bounding box with it.
pub proof fn lemma_translated_corners(cells: Set<Pos>, dx: int, dy: int)
    requires
        !is_empty(cells),
        can_translate(cells, dx, dy),
    ensures
        !is_empty(translated(cells, dx, dy)),
        min_corner(translated(cells, dx, dy)) == (
            min_corner(cells).0 + dx,
            min_corner(cells).1 + dy,
        ),
        max_corner(translated(cells, dx, dy)) == (
            max_corner(cells).0 + dx,
            max_corner(cells).1 + dy,
        ),
{
    let moved = translated(cells, dx, dy);
    lemma_corners_exist(cells);
    let lo = min_corner(cells);
    let hi = max_corner(cells);
    let ax = choose|p: Pos| cells.contains(p) && p.0 == lo.0;
    let ay = choose|p: Pos| cells.contains(p) && p.1 == lo.1;
    let bx = choose|p: Pos| cells.contains(p) && p.0 == hi.0;
    let by = choose|p: Pos| cells.contains(p) && p.1 == hi.1;
    lemma_moved_member(cells, ax, dx, dy);
    lemma_moved_member(cells, ay, dx, dy);
    lemma_moved_member(cells, bx, dx, dy);
    lemma_moved_member(cells, by, dx, dy);
    assert forall|q: Pos| moved.contains(q) implies lo.0 + dx <= q.0 && lo.1 + dy <= q.1 && q.0
        <= hi.0 + dx && q.1 <= hi.1 + dy by {
        let p = choose|p: Pos| cells.contains(p) && q.0 == p.0 + dx && q.1 == p.1 + dy;
    }
    lemma_min_corner_unique(moved, (lo.0 + dx, lo.1 + dy));
    lemma_max_corner_unique(moved, (hi.0 + dx, hi.1 + dy));
}

/// A cell of `cells`, moved, is a cell of the moved set.
proof fn lemma_moved_member(cells: Set<Pos>, p: Pos, dx: int, dy: int)
    requires
        cells.contains(p),
        can_translate(cells, dx, dy),
    ensures
        translated(cells, dx, dy).contains(Pos((p.0 + dx) as i32, (p.1 + dy) as i32)),
{
}

/// A set that is not empty has a least and a greatest corner.
pub proof fn lemma_corners_exist(cells: Set<Pos>)
    requires
        !is_empty(cells),
    ensures
        is_min_corner(cells, min_corner(cells)),
        is_max_corner(cells, max_corner(cells)),
{
    let p = choose|p: Pos| cells.contains(p);
    let lo_x = least_from(cells, 0, p.0 as int, p.0 - i32::MIN);
    let lo_y = least_from(cells, 1, p.1 as int, p.1 - i32::MIN);
    let hi_x = greatest_from(cells, 0, p.0 as int, i32::MAX - p.0);
    let hi_y = greatest_from(cells, 1, p.1 as int, i32::MAX - p.1);
    assert(is_min_corner(cells, (lo_x, lo_y)));
    assert(is_max_corner(cells, (hi_x, hi_y)));
}

/// Column (`axis` zero) or row of a cell.
spec fn along(p: Pos, axis: int) -> int {
    if axis == 0 {
        p.0 as int
    } else {
        p.1 as int
    }
}

/// Searches downwards from a value that occurs for the least that occurs.
proof fn least_from(cells: Set<Pos>, axis: int, v: int, room: int) -> (least: int)
    requires
        room == v - i32::MIN,
        exists|p: Pos| cells.contains(p) && along(p, axis) == v,
    ensures
        exists|p: Pos| cells.contains(p) && along(p, axis) == least,
        forall|p: Pos| cells.contains(p) ==> least <= along(p, axis),
    decreases room,
{
    if exists|p: Pos| cells.contains(p) && along(p, axis) < v {
        let p = choose|p: Pos| cells.contains(p) && along(p, axis) < v;
        least_from(cells, axis, along(p, axis), along(p, axis) - i32::MIN)
    } else {
        v
    }
}

/// Searches upwards from a value that occurs for the greatest that occurs.
proof fn greatest_from(cells: Set<Pos>, axis: int, v: int, room: int) -> (greatest: int)
    requires
        room == i32::MAX - v,
        exists|p: Pos| cells.contains(p) && along(p, axis) == v,
    ensures
        exists|p: Pos| cells.contains(p) && along(p, axis) == greatest,
        forall|p: Pos| cells.contains(p) ==> along(p, axis) <= greatest,
    decreases room,
{
    if exists|p: Pos| cells.contains(p) && along(p, axis) > v {
        let p = choose|p: Pos| cells.contains(p) && along(p, axis) > v;
        greatest_from(cells, axis, along(p, axis), i32::MAX - along(p, axis))
    } else {
        v
    }
}

/// Centring does what its name says: where the move is possible, the
/// middle of the moved bounding box is the middle of the grid, on both axes.
pub proof fn lemma_centering_centers(cells: Set<Pos>, size: int)
    requires
        size > 0,
        !is_empty(cells),
        can_translate(cells, centering_offset(cells, size).0, centering_offset(cells, size).1),
    ensures
        ({
            let moved = translated(
                cells,
                centering_offset(cells, size).0,
                centering_offset(cells, size).1,
            );
            let lo = min_corner(moved);
            let hi = max_corner(moved);
            &&& lo.0 + (hi.0 - lo.0) / 2 == size / 2
            &&& lo.1 + (hi.1 - lo.1) / 2 == size / 2
        }),
{
    let d = centering_offset(cells, size);
    lemma_translated_corners(cells, d.0, d.1);
}

/// A pattern that lies on the grid can always be centred. If it spans
/// fewer columns and fewer rows than the grid has, it lies on the grid
/// afterwards too; a pattern as wide as a grid of even side ends one cell
/// past the far edge.
pub proof fn lemma_centering_on_grid(cells: Set<Pos>, size: int)
    requires
        0 < size <= i32::MAX,
        forall|p: Pos| cells.contains(p) ==> 0 <= p.0 < size && 0 <= p.1 < size,
    ensures
        can_translate(cells, centering_offset(cells, size).0, centering_offset(cells, size).1),
        !is_empty(cells) && max_corner(cells).0 - min_corner(cells).0 + 1 < size && max_corner(
            cells,
        ).1 - min_corner(cells).1 + 1 < size ==> forall|q: Pos|
            translated(
                cells,
                centering_offset(cells, size).0,
                centering_offset(cells, size).1,
            ).contains(q) ==> 0 <= q.0 < size && 0 <= q.1 < size,
{
    if !is_empty(cells) {
        lemma_corners_exist(cells);
        let d = centering_offset(cells, size);
        let lo = min_corner(cells);
        let hi = max_corner(cells);
        if hi.0 - lo.0 + 1 < size && hi.1 - lo.1 + 1 < size {
            assert forall|q: Pos| translated(cells, d.0, d.1).contains(q) implies 0 <= q.0 < size
                && 0 <= q.1 < size by {
                let p = choose|p: Pos| cells.contains(p) && q.0 == p.0 + d.0 && q.1 == p.1 + d.1;
            }
        }
    }
}

} // verus!
