//! The engine itself: the live cells of one grid and the operations that
//! seed, advance and re-centre them.
use crate::conway::bounds::{
    can_translate, centering_offset, fits_after, greatest_corner, is_empty, is_max_corner,
    is_min_corner, least_corner, max_corner, min_corner, shift_to_center, translated,
};
use crate::conway::cells::CellSet;
use crate::conway::chance::draw_up_to;
use crate::conway::pattern::{marks, parse_pattern};
use crate::conway::torus::{
    lemma_neighbor_symmetric, lemma_some_live_neighbor, live_among, live_neighbors, lives_on,
    neighbor, neighbor_at, next_generation, on_grid,
};
use crate::Pos;
use vstd::prelude::*;

verus! {

/// The two states of a cell.
#[derive(Clone, Copy, Debug, PartialEq, Eq, Structural)]
pub enum ConwayCell {
    Alive,
    Dead,
}

impl ConwayCell {
    /// The state as a number: one for a live cell, zero for a dead one.
    pub fn value(self) -> (n: u8)
        ensures
            n == (if self == ConwayCell::Alive {
                1u8
            } else {
                0u8
            }),
    {
        match self {
            ConwayCell::Alive => 1,
            ConwayCell::Dead => 0,
        }
    }
}

/// Why an engine could not be made.
#[derive(Clone, Copy, Debug, PartialEq, Eq, Structural)]
pub enum ConstructionError {
    /// The side length was zero or negative.
    InvalidSize,
}

/// Why a pattern could not be loaded.
#[derive(Clone, Copy, Debug, PartialEq, Eq, Structural)]
pub enum LoadError {
    /// The source of the pattern could not be had, or its text is too long
    /// for its cells to be addressed.
    Unreadable,
}

/// The side length of a grid made by [`ConwayMap::new`].
pub const DEFAULT_MAP_SIZE: i32 = 75;

/// The sparsity of a grid made by [`ConwayMap::new`].
pub const DEFAULT_RAND_SCARCITY: u32 = 3;

/// A square grid whose edges wrap around, and the cells that are live on it.
///
/// The side of the grid is always positive. Beside the live cells the
/// engine keeps one snapshot of them, to which it can return.
pub struct ConwayMap {
    map_size: i32,
    rand_scarcity: u32,
    is_initial: bool,
    cells: CellSet,
    initial_state: CellSet,
}

impl View for ConwayMap {
    type V = Set<Pos>;

    /// The live cells.
    closed spec fn view(&self) -> Set<Pos> {
        self.cells@
    }
}

impl ConwayMap {
    /// Side length of the grid.
    pub closed spec fn size(&self) -> int {
        self.map_size as int
    }

    /// Sparsity of random seeding: a cell is seeded live with probability
    /// `1 / (scarcity + 1)`.
    pub closed spec fn scarcity(&self) -> int {
        self.rand_scarcity as int
    }

    /// True from a snapshot or a restore until the next generation step.
    pub closed spec fn initial(&self) -> bool {
        self.is_initial
    }

    /// The cells saved by the last snapshot.
    pub closed spec fn snapshot(&self) -> Set<Pos> {
        self.initial_state@
    }

    /// The invariant of the engine: the grid has at least one cell. The
    /// constructors establish it and every operation keeps it.
    pub open spec fn wf(&self) -> bool {
        self.size() > 0
    }

    /// Same grid side and seeding sparsity.
    pub open spec fn same_settings(&self, other: &Self) -> bool {
        self.size() == other.size() && self.scarcity() == other.scarcity()
    }

    /// `self` is what `before` becomes when a snapshot is taken: the live
    /// cells stay, the snapshot holds them too, and the state is marked
    /// initial.
    pub open spec fn is_cached(&self, before: &Self) -> bool {
        &&& self@ == before@
        &&& self.snapshot() == before@
        &&& self.initial()
        &&& self.same_settings(before)
    }

    /// `self` is what `before` becomes when the snapshot is restored: the
    /// live cells are those of the snapshot, which stays, and the state is
    /// marked initial.
    pub open spec fn is_restored(&self, before: &Self) -> bool {
        &&& self@ == before.snapshot()
        &&& self.snapshot() == before.snapshot()
        &&& self.initial()
        &&& self.same_settings(before)
    }

    /// `self` is what `before` becomes in one generation step: the live
    /// cells are the next generation, the snapshot stays, and the state is
    /// no longer initial.
    pub open spec fn is_updated(&self, before: &Self) -> bool {
        &&& self@ == next_generation(before@, before.size())
        &&& !self.initial()
        &&& self.snapshot() == before.snapshot()
        &&& self.same_settings(before)
    }

    /// An engine with the default side and sparsity, no live cell and an
    /// empty snapshot.
    pub fn new() -> (map: Self)
        ensures
            map.wf(),
            map.size() == DEFAULT_MAP_SIZE,
            map.scarcity() == DEFAULT_RAND_SCARCITY,
            map.initial(),
            map@ == Set::<Pos>::empty(),
            map.snapshot() == Set::<Pos>::empty(),
    {
        ConwayMap {
            map_size: DEFAULT_MAP_SIZE,
            rand_scarcity: DEFAULT_RAND_SCARCITY,
            is_initial: true,
            cells: CellSet::new(),
            initial_state: CellSet::new(),
        }
    }

    /// An engine with the given side and sparsity, no live cell and an empty
    /// snapshot. A side that is not positive is rejected.
    pub fn with_size(map_size: i32, rand_scarcity: u32) -> (made: Result<Self, ConstructionError>)
        ensures
            map_size <= 0 ==> made == Err::<Self, ConstructionError>(ConstructionError::InvalidSize),
            map_size > 0 ==> made is Ok,
            made matches Ok(map) ==> {
                &&& map.wf()
                &&& map.size() == map_size
                &&& map.scarcity() == rand_scarcity
                &&& map.initial()
                &&& map@ == Set::<Pos>::empty()
                &&& map.snapshot() == Set::<Pos>::empty()
            },
    {
        if map_size <= 0 {
            return Err(ConstructionError::InvalidSize);
        }
        Ok(
            ConwayMap {
                map_size,
                rand_scarcity,
                is_initial: true,
                cells: CellSet::new(),
                initial_state: CellSet::new(),
            },
        )
    }

    /// An engine as it is kept between sessions: the settings, the initial
    /// mark and the snapshot are the given ones, and no cell is live. A side
    /// that is not positive is rejected.
    pub fn from_saved(
        map_size: i32,
        rand_scarcity: u32,
        is_initial: bool,
        initial_state: &Vec<Pos>,
    ) -> (made: Result<Self, ConstructionError>)
        ensures
            map_size <= 0 ==> made == Err::<Self, ConstructionError>(ConstructionError::InvalidSize),
            map_size > 0 ==> made is Ok,
            made matches Ok(map) ==> {
                &&& map.wf()
                &&& map.size() == map_size
                &&& map.scarcity() == rand_scarcity
                &&& map.initial() == is_initial
                &&& map@ == Set::<Pos>::empty()
                &&& map.snapshot() == initial_state@.to_set()
            },
    {
        if map_size <= 0 {
            return Err(ConstructionError::InvalidSize);
        }
        let mut saved = CellSet::new();
        let mut i: usize = 0;
        while i < initial_state.len()
            invariant
                i <= initial_state.len(),
                forall|p: Pos|
                    saved@.contains(p) <==> exists|j: int|
                        0 <= j < i && #[trigger] initial_state@[j] == p,
            decreases initial_state.len() - i,
        {
            saved.insert(initial_state[i]);
            i += 1;
        }
        proof {
            assert(saved@ =~= initial_state@.to_set());
        }
        Ok(
            ConwayMap {
                map_size,
                rand_scarcity,
                is_initial,
                cells: CellSet::new(),
                initial_state: saved,
            },
        )
    }

    /// Side length of the grid.
    pub fn map_size(&self) -> (map_size: i32)
        ensures
            map_size == self.size(),
    {
        self.map_size
    }

    /// Sparsity of random seeding.
    pub fn rand_scarcity(&self) -> (rand_scarcity: u32)
        ensures
            rand_scarcity == self.scarcity(),
    {
        self.rand_scarcity
    }

    /// Whether the live cells are those of the last snapshot or restore,
    /// with no generation step since.
    pub fn is_initial(&self) -> (is_initial: bool)
        ensures
            is_initial == self.initial(),
    {
        self.is_initial
    }

    /// Changes the side of the grid; the cells stay where they are. A side
    /// that is not positive is rejected and changes nothing.
    pub fn set_map_size(&mut self, map_size: i32) -> (set: Result<(), ConstructionError>)
        ensures
            set is Ok <==> map_size > 0,
            set is Ok ==> final(self).size() == map_size,
            set is Err ==> final(self).size() == old(self).size(),
            final(self).scarcity() == old(self).scarcity(),
            final(self)@ == old(self)@,
            final(self).snapshot() == old(self).snapshot(),
            final(self).initial() == old(self).initial(),
    {
        if map_size <= 0 {
            return Err(ConstructionError::InvalidSize);
        }
        self.map_size = map_size;
        Ok(())
    }

    /// Changes the sparsity of random seeding.
    pub fn set_rand_scarcity(&mut self, rand_scarcity: u32)
        ensures
            final(self).scarcity() == rand_scarcity,
            final(self).size() == old(self).size(),
            final(self)@ == old(self)@,
            final(self).snapshot() == old(self).snapshot(),
            final(self).initial() == old(self).initial(),
    {
        self.rand_scarcity = rand_scarcity;
    }

    /// The cells of the snapshot, each once, in no particular order.
    pub fn initial_cells(&self) -> (cells: Vec<Pos>)
        ensures
            cells@.to_set() == self.snapshot(),
            cells@.no_duplicates(),
    {
        self.initial_state.to_vec()
    }

    /// The whole number of pixels that one cell gets when the grid is to
    /// span `extent` pixels: `extent` divided by the side, rounded towards
    /// zero.
    pub open spec fn fitted_cell_size(extent: int, size: int) -> int {
        if extent >= 0 {
            extent / size
        } else {
            -((-extent) / size)
        }
    }

    /// The side of a cell, in whole pixels, for a grid drawn `extent` pixels
    /// wide.
    pub fn cell_size_for(&self, extent: i32) -> (cell_size: i32)
        requires
            self.wf(),
        ensures
            cell_size == Self::fitted_cell_size(extent as int, self.size()),
    {
        extent / self.map_size
    }

    /// How many of the eight cells around `p` are live, the neighbourhood
    /// taken across the edges of the grid.
    pub fn neighbors(&self, p: &Pos) -> (count: usize)
        requires
            self.wf(),
        ensures
            count == live_neighbors(self@, *p, self.size()),
            count <= 8,
    {
        let mut count: usize = 0;
        let mut k: usize = 0;
        while k < 8
            invariant
                self.map_size > 0,
                k <= 8,
                count <= k,
                count == live_among(self@, *p, self.map_size as int, k as int),
            decreases 8 - k,
        {
            let q = neighbor_at(*p, k, self.map_size);
            if self.cells.contains(q) {
                count += 1;
            }
            k += 1;
        }
        count
    }

    /// Whether `p` is live.
    pub fn is_alive(&self, p: Pos) -> (alive: bool)
        ensures
            alive == self@.contains(p),
    {
        self.cells.contains(p)
    }

    /// The live cells, each once, in no particular order.
    pub fn live_cells(&self) -> (cells: Vec<Pos>)
        ensures
            cells@.to_set() == self@,
            cells@.no_duplicates(),
    {
        self.cells.to_vec()
    }

    /// Whether a draw seeds its cell: only the draw of exactly one does.
    pub open spec fn seeds(draw: u32) -> bool {
        draw == 1
    }

    /// The square in which random seeding places cells: columns and rows
    /// from zero to `size - 4`, which leaves a margin at the far edges.
    pub open spec fn in_seed_region(p: Pos, size: int) -> bool {
        0 <= p.0 <= size - 4 && 0 <= p.1 <= size - 4
    }

    /// Makes `p` live if `draw` seeds it, and changes nothing otherwise.
    pub fn seed_cell(&mut self, p: Pos, draw: u32)
        ensures
            final(self)@ == (if Self::seeds(draw) {
                old(self)@.insert(p)
            } else {
                old(self)@
            }),
            final(self).snapshot() == old(self).snapshot(),
            final(self).initial() == old(self).initial(),
            final(self).same_settings(old(self)),
    {
        if draw == 1 {
            self.cells.insert(p);
        }
    }

    /// Replaces the live cells by a random pattern: every cell of the seed
    /// region gets a draw of its own from zero to the sparsity, and is live
    /// if the draw seeds it. The snapshot and the initial mark are kept.
    ///
    /// Whatever is drawn, no cell outside the seed region is live
    /// afterwards, and with a sparsity of zero none is live at all.
    pub fn gen_random(&mut self)
        requires
            old(self).wf(),
        ensures
            forall|p: Pos| final(self)@.contains(p) ==> Self::in_seed_region(p, old(self).size()),
            old(self).scarcity() == 0 ==> is_empty(final(self)@),
            final(self).snapshot() == old(self).snapshot(),
            final(self).initial() == old(self).initial(),
            final(self).same_settings(old(self)),
    {
        self.clear();
        let last: i32 = self.map_size - 4;
        let mut y: i32 = 0;
        while y <= last
            invariant
                last == self.map_size - 4,
                0 <= y,
                y <= last + 1 || last < 0,
                forall|p: Pos| self@.contains(p) ==> Self::in_seed_region(p, self.size()),
                self.scarcity() == 0 ==> is_empty(self@),
                self.snapshot() == old(self).snapshot(),
                self.initial() == old(self).initial(),
                self.same_settings(old(self)),
            decreases last - y + 1,
        {
            let mut x: i32 = 0;
            while x <= last
                invariant
                    last == self.map_size - 4,
                    0 <= y <= last,
                    0 <= x <= last + 1,
                    forall|p: Pos| self@.contains(p) ==> Self::in_seed_region(p, self.size()),
                    self.scarcity() == 0 ==> is_empty(self@),
                    self.snapshot() == old(self).snapshot(),
                    self.initial() == old(self).initial(),
                    self.same_settings(old(self)),
                decreases last - x + 1,
            {
                let probability = draw_up_to(self.rand_scarcity);
                self.seed_cell(Pos(x, y), probability);
                x += 1;
            }
            y += 1;
        }
    }

    /// Replaces the live cells by the pattern read from a file.
    ///
    /// `contents` is what the host got when it read the file: the text, or
    /// `None` when the file could not be read. The load fails for `None` and
    /// for a text of more than `i32::MAX` characters, and a failed load
    /// leaves the engine exactly as it was. The cells are taken as marked,
    /// whether or not they lie on the grid; the snapshot and the initial
    /// mark are kept.
    pub fn generate_from_file(&mut self, contents: Option<&str>) -> (loaded: Result<(), LoadError>)
        ensures
            loaded is Ok <==> (contents matches Some(text) && text@.len() <= i32::MAX),
            loaded is Err ==> loaded == Err::<(), LoadError>(LoadError::Unreadable),
            loaded is Err ==> *final(self) == *old(self),
            loaded is Ok ==> (contents matches Some(text) && final(self)@ == marks(text@)),
            final(self).snapshot() == old(self).snapshot(),
            final(self).initial() == old(self).initial(),
            final(self).same_settings(old(self)),
    {
        let text = match contents {
            Some(text) => text,
            None => {
                return Err(LoadError::Unreadable);
            },
        };
        match parse_pattern(text) {
            Some(cells) => {
                self.cells = cells;
                Ok(())
            },
            None => Err(LoadError::Unreadable),
        }
    }

    /// Saves the live cells as the snapshot and marks the state initial.
    pub fn cache_initial_state(&mut self)
        ensures
            final(self).is_cached(old(self)),
    {
        self.initial_state = self.cells.clone();
        self.is_initial = true;
    }

    /// Replaces the live cells by the snapshot and marks the state initial.
    pub fn restore_initial_state(&mut self)
        ensures
            final(self).is_restored(old(self)),
    {
        self.cells = self.initial_state.clone();
        self.is_initial = true;
    }

    /// Advances the grid by one generation.
    ///
    /// Only the cells around live cells are examined, each at most once: no
    /// other cell can be live in the next generation.
    pub fn update(&mut self)
        requires
            old(self).wf(),
        ensures
            final(self).is_updated(old(self)),
    {
        let size = self.map_size;
        let live = self.cells.to_vec();
        let mut n_cells = CellSet::new();
        let mut checked = CellSet::new();
        let mut i: usize = 0;
        while i < live.len()
            invariant
                *self == *old(self),
                size == self.map_size,
                size > 0,
                i <= live.len(),
                live@.to_set() == self@,
                forall|j: int, k: int|
                    0 <= j < i && 0 <= k < 8 ==> checked@.contains(
                        #[trigger] neighbor(live@[j], k, size as int),
                    ),
                forall|q: Pos| checked@.contains(q) ==> on_grid(q, size as int),
                forall|q: Pos|
                    n_cells@.contains(q) <==> checked@.contains(q) && lives_on(
                        self@,
                        q,
                        size as int,
                    ),
            decreases live.len() - i,
        {
            let cell = live[i];
            let mut k: usize = 0;
            while k < 8
                invariant
                    *self == *old(self),
                    size == self.map_size,
                    size > 0,
                    i < live.len(),
                    cell == live@[i as int],
                    k <= 8,
                    forall|j: int, k: int|
                        0 <= j < i && 0 <= k < 8 ==> checked@.contains(
                            #[trigger] neighbor(live@[j], k, size as int),
                        ),
                    forall|h: int|
                        0 <= h < k ==> checked@.contains(#[trigger] neighbor(cell, h, size as int)),
                    forall|q: Pos| checked@.contains(q) ==> on_grid(q, size as int),
                    forall|q: Pos|
                        n_cells@.contains(q) <==> checked@.contains(q) && lives_on(
                            self@,
                            q,
                            size as int,
                        ),
                decreases 8 - k,
            {
                let xy = neighbor_at(cell, k, size);
                if !checked.contains(xy) {
                    checked.insert(xy);
                    let n = self.neighbors(&xy);
                    if n == 2 && self.cells.contains(xy) || n == 3 {
                        n_cells.insert(xy);
                    }
                }
                k += 1;
            }
            i += 1;
        }
        proof {
            let before = self@;
            assert forall|q: Pos|
                n_cells@.contains(q) == next_generation(before, size as int).contains(q) by {
                if on_grid(q, size as int) && lives_on(before, q, size as int) {
                    lemma_some_live_neighbor(before, q, size as int);
                    let k = choose|k: int|
                        0 <= k < 8 && before.contains(#[trigger] neighbor(q, k, size as int));
                    let c = neighbor(q, k, size as int);
                    assert(live@.to_set().contains(c));
                    let j = choose|j: int| 0 <= j < live@.len() && live@[j] == c;
                    lemma_neighbor_symmetric(q, k, size as int);
                    assert(checked@.contains(neighbor(live@[j], 7 - k, size as int)));
                }
            }
            assert(n_cells@ =~= next_generation(before, size as int));
        }
        self.cells = n_cells;
        self.is_initial = false;
    }

    /// The least column and the least row among the live cells, or `None`
    /// when no cell is live.
    pub fn find_min(&self) -> (corner: Option<(i32, i32)>)
        ensures
            corner is None <==> is_empty(self@),
            corner matches Some(lo) ==> is_min_corner(self@, (lo.0 as int, lo.1 as int)),
            corner matches Some(lo) ==> min_corner(self@) == (lo.0 as int, lo.1 as int),
    {
        let live = self.cells.to_vec();
        proof {
            if live@.len() > 0 {
                assert(live@.to_set().contains(live@[0]));
            }
        }
        least_corner(&live)
    }

    /// The greatest column and the greatest row among the live cells, or
    /// `None` when no cell is live.
    pub fn find_max(&self) -> (corner: Option<(i32, i32)>)
        ensures
            corner is None <==> is_empty(self@),
            corner matches Some(hi) ==> is_max_corner(self@, (hi.0 as int, hi.1 as int)),
            corner matches Some(hi) ==> max_corner(self@) == (hi.0 as int, hi.1 as int),
    {
        let live = self.cells.to_vec();
        proof {
            if live@.len() > 0 {
                assert(live@.to_set().contains(live@[0]));
            }
        }
        greatest_corner(&live)
    }

    /// The least and the greatest corner of the live cells, or `None` when
    /// no cell is live.
    pub fn bounding_box(&self) -> (corners: Option<((i32, i32), (i32, i32))>)
        ensures
            corners is None <==> is_empty(self@),
            corners matches Some((lo, hi)) ==> {
                &&& is_min_corner(self@, (lo.0 as int, lo.1 as int))
                &&& is_max_corner(self@, (hi.0 as int, hi.1 as int))
                &&& min_corner(self@) == (lo.0 as int, lo.1 as int)
                &&& max_corner(self@) == (hi.0 as int, hi.1 as int)
            },
    {
        match (self.find_min(), self.find_max()) {
            (Some(lo), Some(hi)) => Some((lo, hi)),
            _ => None,
        }
    }

    /// Moves the live cells, all by the same step, so that the middle of
    /// their bounding box comes to the middle of the grid. Nothing is wrapped:
    /// a pattern wider than the grid ends up partly outside it.
    ///
    /// Returns `false`, and moves nothing, when a moved cell would leave the
    /// range of coordinates.
    pub fn center_cells(&mut self) -> (centered: bool)
        requires
            old(self).wf(),
        ensures
            centered == can_translate(
                old(self)@,
                centering_offset(old(self)@, old(self).size()).0,
                centering_offset(old(self)@, old(self).size()).1,
            ),
            centered ==> final(self)@ == translated(
                old(self)@,
                centering_offset(old(self)@, old(self).size()).0,
                centering_offset(old(self)@, old(self).size()).1,
            ),
            !centered ==> final(self)@ == old(self)@,
            final(self).snapshot() == old(self).snapshot(),
            final(self).initial() == old(self).initial(),
            final(self).same_settings(old(self)),
    {
        let live = self.cells.to_vec();
        let (lo, hi) = match (least_corner(&live), greatest_corner(&live)) {
            (Some(lo), Some(hi)) => (lo, hi),
            _ => {
                proof {
                    assert forall|p: Pos| !self@.contains(p) by {
                        if self@.contains(p) {
                            assert(live@.to_set().contains(p));
                        }
                    }
                    assert(translated(self@, 0, 0) =~= self@);
                }
                return true;
            },
        };
        proof {
            assert(live@.to_set().contains(live@[0]));
        }
        let dx = shift_to_center(lo.0, hi.0, self.map_size);
        let dy = shift_to_center(lo.1, hi.1, self.map_size);
        let fits = fits_after(lo.0, dx) && fits_after(hi.0, dx) && fits_after(lo.1, dy)
            && fits_after(hi.1, dy);
        if !fits {
            return false;
        }
        let mut elems_c = CellSet::new();
        let mut i: usize = 0;
        while i < live.len()
            invariant
                *self == *old(self),
                i <= live.len(),
                live@.to_set() == self@,
                can_translate(self@, dx as int, dy as int),
                forall|q: Pos|
                    elems_c@.contains(q) <==> exists|j: int|
                        0 <= j < i && q.0 == (#[trigger] live@[j]).0 + dx && q.1 == live@[j].1 + dy,
            decreases live.len() - i,
        {
            let cell = live[i];
            proof {
                assert(live@.to_set().contains(cell));
            }
            let moved = Pos((cell.0 as i64 + dx) as i32, (cell.1 as i64 + dy) as i32);
            elems_c.insert(moved);
            i += 1;
        }
        proof {
            let target = translated(self@, dx as int, dy as int);
            assert forall|q: Pos| elems_c@.contains(q) == target.contains(q) by {
                if elems_c@.contains(q) {
                    let j = choose|j: int|
                        0 <= j < live@.len() && q.0 == (#[trigger] live@[j]).0 + dx && q.1
                            == live@[j].1 + dy;
                    assert(live@.to_set().contains(live@[j]));
                }
                if target.contains(q) {
                    let p = choose|p: Pos| self@.contains(p) && q.0 == p.0 + dx && q.1 == p.1 + dy;
                    assert(live@.to_set().contains(p));
                    let j = choose|j: int| 0 <= j < live@.len() && live@[j] == p;
                    assert(q.0 == live@[j].0 + dx);
                }
            }
        }
        self.cells = elems_c;
        true
    }

    /// Removes every live cell. The snapshot is kept.
    pub fn clear(&mut self)
        ensures
            final(self)@ == Set::<Pos>::empty(),
            final(self).snapshot() == old(self).snapshot(),
            final(self).initial() == old(self).initial(),
            final(self).same_settings(old(self)),
    {
        self.cells = CellSet::new();
    }
}

impl Default for ConwayMap {
    fn default() -> (map: Self)
        ensures
            map.wf(),
            map.size() == DEFAULT_MAP_SIZE,
            map.scarcity() == DEFAULT_RAND_SCARCITY,
            map.initial(),
            map@ == Set::<Pos>::empty(),
            map.snapshot() == Set::<Pos>::empty(),
    {
        ConwayMap::new()
    }
}

} // verus!
