//! What holds of the rule and of the wrapped grid, proved from their
//! definitions.
use crate::conway::conway_map::ConwayMap;
use crate::conway::torus::{
    live_among, live_neighbors, neighbor, next_generation, on_grid, shifted, wrap,
};
use crate::Pos;
use vstd::prelude::*;

verus! {

/// On the grid the boundary rule changes nothing; one step below zero
/// lands on the last cell of the axis, and one step past the last cell
/// lands on zero.
pub proof fn lemma_wrap_edges(coord: int, size: int)
    requires
        size > 0,
    ensures
        0 <= coord < size ==> wrap(coord, size) == coord,
        coord == -1 ==> wrap(coord, size) == size - 1,
        coord == size ==> wrap(coord, size) == 0,
        0 <= wrap(coord, size) < size,
{
}

/// For a cell of the grid and a step of at most one, the boundary rule is
/// the remainder modulo the side: the grid is a torus.
pub proof fn lemma_wrap_is_modular(coord: int, step: int, size: int)
    requires
        size > 0,
        0 <= coord < size,
        -1 <= step <= 1,
    ensures
        wrap(coord + step, size) == (coord + step) % size,
{
    if coord + step == -1 {
        assert((-1int) % size == size - 1) by (nonlinear_arith)
            requires
                size > 0,
        ;
    } else if coord + step == size {
        assert(size % size == 0) by (nonlinear_arith)
            requires
                size > 0,
        ;
    } else {
        assert((coord + step) % size == coord + step) by (nonlinear_arith)
            requires
                0 <= coord + step < size,
        ;
    }
}

/// A neighbour that lies one step past an edge is looked up at the
/// opposite edge: asking for column `-1` asks for column `size - 1`, asking
/// for column `size` asks for column zero, and the same for rows.
pub proof fn lemma_lookup_across_edge(cells: Set<Pos>, p: Pos, dx: int, dy: int, size: int)
    requires
        0 < size <= i32::MAX,
    ensures
        p.0 + dx == -1 ==> cells.contains(shifted(p, dx, dy, size)) == cells.contains(
            Pos((size - 1) as i32, wrap(p.1 + dy, size) as i32),
        ),
        p.0 + dx == size ==> cells.contains(shifted(p, dx, dy, size)) == cells.contains(
            Pos(0, wrap(p.1 + dy, size) as i32),
        ),
        p.1 + dy == -1 ==> cells.contains(shifted(p, dx, dy, size)) == cells.contains(
            Pos(wrap(p.0 + dx, size) as i32, (size - 1) as i32),
        ),
        p.1 + dy == size ==> cells.contains(shifted(p, dx, dy, size)) == cells.contains(
            Pos(wrap(p.0 + dx, size) as i32, 0),
        ),
{
}

/// Every neighbour lies on the grid, wherever the cell itself lies.
pub proof fn lemma_neighbor_on_grid(p: Pos, k: int, size: int)
    requires
        0 < size <= i32::MAX,
    ensures
        on_grid(neighbor(p, k, size), size),
{
}

/// The rule, case by case, for a cell `p` of the grid: a live cell stays
/// live with two or three live neighbours and dies otherwise; a dead cell
/// comes to life with exactly three and stays dead otherwise.
pub proof fn lemma_rule(cells: Set<Pos>, p: Pos, size: int)
    requires
        on_grid(p, size),
    ensures
        cells.contains(p) && (live_neighbors(cells, p, size) == 2 || live_neighbors(cells, p, size)
            == 3) ==> next_generation(cells, size).contains(p),
        cells.contains(p) && live_neighbors(cells, p, size) < 2 ==> !next_generation(
            cells,
            size,
        ).contains(p),
        cells.contains(p) && live_neighbors(cells, p, size) > 3 ==> !next_generation(
            cells,
            size,
        ).contains(p),
        !cells.contains(p) && live_neighbors(cells, p, size) == 3 ==> next_generation(
            cells,
            size,
        ).contains(p),
        !cells.contains(p) && live_neighbors(cells, p, size) != 3 ==> !next_generation(
            cells,
            size,
        ).contains(p),
{
}

/// No cell outside the grid is live after a step.
pub proof fn lemma_next_generation_on_grid(cells: Set<Pos>, p: Pos, size: int)
    ensures
        next_generation(cells, size).contains(p) ==> on_grid(p, size),
{
}

/// One for a live cell at column `col` and row `row`, zero for a dead one.
pub open spec fn lit(cells: Set<Pos>, col: int, row: int) -> nat {
    if cells.contains(Pos(col as i32, row as i32)) {
        1
    } else {
        0
    }
}

/// The count of live neighbours written out: the three cells of the row
/// above, the two beside, and the three of the row below, columns and rows
/// put through the boundary rule.
pub proof fn lemma_count_unfolded(cells: Set<Pos>, p: Pos, size: int)
    requires
        0 < size <= i32::MAX,
    ensures
        live_neighbors(cells, p, size) == lit(cells, wrap(p.0 - 1, size), wrap(p.1 + 1, size))
            + lit(cells, wrap(p.0 as int, size), wrap(p.1 + 1, size)) + lit(
            cells,
            wrap(p.0 + 1, size),
            wrap(p.1 + 1, size),
        ) + lit(cells, wrap(p.0 - 1, size), wrap(p.1 as int, size)) + lit(
            cells,
            wrap(p.0 + 1, size),
            wrap(p.1 as int, size),
        ) + lit(cells, wrap(p.0 - 1, size), wrap(p.1 - 1, size)) + lit(
            cells,
            wrap(p.0 as int, size),
            wrap(p.1 - 1, size),
        ) + lit(cells, wrap(p.0 + 1, size), wrap(p.1 - 1, size)),
{
    reveal_with_fuel(live_among, 9);
}

/// The cells of `cells` that lie on the grid.
pub open spec fn on_grid_part(cells: Set<Pos>, size: int) -> Set<Pos> {
    Set::new(|p: Pos| cells.contains(p) && on_grid(p, size))
}

/// Cells recorded outside the grid have no part in a step: they are never
/// counted as neighbours, and the next generation is the same without them.
pub proof fn lemma_off_grid_cells_do_not_count(cells: Set<Pos>, size: int)
    requires
        0 < size <= i32::MAX,
    ensures
        forall|p: Pos|
            live_neighbors(cells, p, size) == live_neighbors(on_grid_part(cells, size), p, size),
        next_generation(cells, size) == next_generation(on_grid_part(cells, size), size),
{
    let inner = on_grid_part(cells, size);
    assert forall|p: Pos| live_neighbors(cells, p, size) == live_neighbors(inner, p, size) by {
        lemma_count_unfolded(cells, p, size);
        lemma_count_unfolded(inner, p, size);
    }
    assert(next_generation(cells, size) =~= next_generation(inner, size));
}

/// A live cell with no other live cell anywhere dies in one step, and
/// nothing is born: the next generation is empty.
pub proof fn lemma_single_cell_dies(p: Pos, size: int)
    requires
        0 < size <= i32::MAX,
    ensures
        next_generation(set![p], size) == Set::<Pos>::empty(),
{
    let cells = set![p];
    assert forall|q: Pos| !next_generation(cells, size).contains(q) by {
        lemma_count_unfolded(cells, q, size);
    }
    assert(next_generation(cells, size) =~= Set::<Pos>::empty());
}

/// The four cells of the square whose lower corner is `(x, y)`.
pub open spec fn block(x: int, y: int) -> Set<Pos> {
    set![
        Pos(x as i32, y as i32),
        Pos((x + 1) as i32, y as i32),
        Pos(x as i32, (y + 1) as i32),
        Pos((x + 1) as i32, (y + 1) as i32),
    ]
}

/// A square of four live cells that lies within a grid of side three or
/// more is a still life: a step leaves it as it is.
pub proof fn lemma_block_is_still(x: int, y: int, size: int)
    requires
        3 <= size <= i32::MAX,
        0 <= x,
        x + 1 < size,
        0 <= y,
        y + 1 < size,
    ensures
        next_generation(block(x, y), size) == block(x, y),
{
    let cells = block(x, y);
    assert forall|q: Pos| next_generation(cells, size).contains(q) == cells.contains(q) by {
        lemma_count_unfolded(cells, q, size);
    }
    assert(next_generation(cells, size) =~= cells);
}

/// Three cells in a row, the first at `(x, y)`.
pub open spec fn bar_across(x: int, y: int) -> Set<Pos> {
    set![Pos(x as i32, y as i32), Pos((x + 1) as i32, y as i32), Pos((x + 2) as i32, y as i32)]
}

/// Three cells in a column around `(x, y)`, the outer two put through the
/// boundary rule.
pub open spec fn bar_upright(x: int, y: int, size: int) -> Set<Pos> {
    set![
        Pos(x as i32, wrap(y - 1, size) as i32),
        Pos(x as i32, y as i32),
        Pos(x as i32, wrap(y + 1, size) as i32),
    ]
}

/// A row of three live cells within a grid of side four or more turns, in
/// one step, into the column of three through its middle cell.
pub proof fn lemma_blinker_turns_upright(x: int, y: int, size: int)
    requires
        4 <= size <= i32::MAX,
        0 <= x,
        x + 2 < size,
        0 <= y < size,
    ensures
        next_generation(bar_across(x, y), size) == bar_upright(x + 1, y, size),
{
    let cells = bar_across(x, y);
    let turned = bar_upright(x + 1, y, size);
    assert forall|q: Pos| next_generation(cells, size).contains(q) == turned.contains(q) by {
        lemma_count_unfolded(cells, q, size);
    }
    assert(next_generation(cells, size) =~= turned);
}

/// The column of three turns back, in one step, into the row of three
/// through its middle cell.
pub proof fn lemma_blinker_turns_across(x: int, y: int, size: int)
    requires
        4 <= size <= i32::MAX,
        0 <= x,
        x + 2 < size,
        0 <= y < size,
    ensures
        next_generation(bar_upright(x + 1, y, size), size) == bar_across(x, y),
{
    let cells = bar_upright(x + 1, y, size);
    let turned = bar_across(x, y);
    assert forall|q: Pos| next_generation(cells, size).contains(q) == turned.contains(q) by {
        lemma_count_unfolded(cells, q, size);
    }
    assert(next_generation(cells, size) =~= turned);
}

/// The blinker has period two: two steps bring the row of three back.
pub proof fn lemma_blinker_period_two(x: int, y: int, size: int)
    requires
        4 <= size <= i32::MAX,
        0 <= x,
        x + 2 < size,
        0 <= y < size,
    ensures
        next_generation(next_generation(bar_across(x, y), size), size) == bar_across(x, y),
{
    lemma_blinker_turns_upright(x, y, size);
    lemma_blinker_turns_across(x, y, size);
}

/// Taking a snapshot, stepping once and restoring brings back the live
/// cells that the snapshot was taken of, whatever they were.
pub proof fn lemma_snapshot_round_trip(
    start: ConwayMap,
    cached: ConwayMap,
    stepped: ConwayMap,
    restored: ConwayMap,
)
    requires
        cached.is_cached(&start),
        stepped.is_updated(&cached),
        restored.is_restored(&stepped),
    ensures
        restored@ == start@,
        restored.snapshot() == start@,
        restored.initial(),
        restored.same_settings(&start),
{
}

} // verus!
