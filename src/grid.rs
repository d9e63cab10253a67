use vstd::prelude::*;
use vstd::arithmetic::div_mod::{lemma_fundamental_div_mod, lemma_fundamental_div_mod_converse};
use crate::record::Cell;
use crate::rules::{Fate, RuleSet, MAX_NEIGHBORS, fate_for, next_alive, rule_table};
use rand::Rng;

verus! {

/// The largest grid edge length accepted: eight vertices per cell of a full
/// grid must still be addressable by a `u32` index.
pub const MAX_WIDTH: u32 = 812;

/// Number of cells of a grid of edge length `w`.
pub open spec fn cell_count(w: int) -> int {
    w * w * w
}

/// Linear index of the cell at `(x, y, z)`: x outermost, z innermost.
pub open spec fn index_of(w: int, x: int, y: int, z: int) -> int {
    (x * w + y) * w + z
}

/// The x coordinate of the cell at linear index `i`.
pub open spec fn coord_x(w: int, i: int) -> int {
    i / w / w
}

/// The y coordinate of the cell at linear index `i`.
pub open spec fn coord_y(w: int, i: int) -> int {
    (i / w) % w
}

/// The z coordinate of the cell at linear index `i`.
pub open spec fn coord_z(w: int, i: int) -> int {
    i % w
}

/// True when `(x, y, z)` lies inside the grid and that cell is alive.
pub open spec fn occupied(w: int, s: Seq<bool>, x: int, y: int, z: int) -> bool {
    0 <= x < w && 0 <= y < w && 0 <= z < w && s[index_of(w, x, y, z)]
}

/// What the neighbor at offset `(dx, dy, dz)` adds to the count of `(x, y, z)`.
pub open spec fn contribution(w: int, s: Seq<bool>, x: int, y: int, z: int, dx: int, dy: int, dz: int) -> int {
    if !(dx == 0 && dy == 0 && dz == 0) && occupied(w, s, x + dx, y + dy, z + dz) {
        1
    } else {
        0
    }
}

/// Live neighbors among the three offsets `(dx, dy, -1 ..= 1)`.
pub open spec fn row_count(w: int, s: Seq<bool>, x: int, y: int, z: int, dx: int, dy: int) -> int {
    contribution(w, s, x, y, z, dx, dy, -1) + contribution(w, s, x, y, z, dx, dy, 0)
        + contribution(w, s, x, y, z, dx, dy, 1)
}

/// Live neighbors among the nine offsets `(dx, -1 ..= 1, -1 ..= 1)`.
pub open spec fn plane_count(w: int, s: Seq<bool>, x: int, y: int, z: int, dx: int) -> int {
    row_count(w, s, x, y, z, dx, -1) + row_count(w, s, x, y, z, dx, 0) + row_count(w, s, x, y, z, dx, 1)
}

/// Number of live cells among the up to 26 in-grid neighbors of `(x, y, z)`.
pub open spec fn live_neighbors(w: int, s: Seq<bool>, x: int, y: int, z: int) -> int {
    plane_count(w, s, x, y, z, -1) + plane_count(w, s, x, y, z, 0) + plane_count(w, s, x, y, z, 1)
}

/// The state of the cell at linear index `i` in the generation after `s`.
pub open spec fn next_cell(w: int, s: Seq<bool>, table: Seq<Fate>, i: int) -> bool {
    next_alive(table[live_neighbors(w, s, coord_x(w, i), coord_y(w, i), coord_z(w, i))], s[i])
}

/// The generation after `s` under rule table `table`.
pub open spec fn next_generation(w: int, s: Seq<bool>, table: Seq<Fate>) -> Seq<bool> {
    Seq::new(s.len(), |i: int| next_cell(w, s, table, i))
}

/// The index layout: every in-grid coordinate has an index below the cell
/// count, and that index gives the coordinate back.
pub proof fn lemma_index_of_coords(w: int, x: int, y: int, z: int)
    requires
        0 <= x < w,
        0 <= y < w,
        0 <= z < w,
    ensures
        0 <= index_of(w, x, y, z) < cell_count(w),
        coord_x(w, index_of(w, x, y, z)) == x,
        coord_y(w, index_of(w, x, y, z)) == y,
        coord_z(w, index_of(w, x, y, z)) == z,
{
    let a = x * w + y;
    assert(0 <= a < w * w) by (nonlinear_arith)
        requires a == x * w + y, 0 <= x < w, 0 <= y < w;
    assert(0 <= a * w + z < w * w * w) by (nonlinear_arith)
        requires 0 <= a < w * w, 0 <= z < w;
    lemma_fundamental_div_mod_converse(a * w + z, w, a, z);
    lemma_fundamental_div_mod_converse(a, w, x, y);
}

/// Every index below the cell count has in-grid coordinates that give it back.
pub proof fn lemma_coords_of_index(w: int, i: int)
    requires
        0 < w,
        0 <= i < cell_count(w),
    ensures
        0 <= coord_x(w, i) < w,
        0 <= coord_y(w, i) < w,
        0 <= coord_z(w, i) < w,
        index_of(w, coord_x(w, i), coord_y(w, i), coord_z(w, i)) == i,
{
    lemma_fundamental_div_mod(i, w);
    lemma_fundamental_div_mod(i / w, w);
    let q = i / w;
    assert(0 <= q < w * w) by (nonlinear_arith)
        requires q == i / w, 0 <= i < w * w * w, 0 < w;
    assert(0 <= q / w < w) by (nonlinear_arith)
        requires 0 <= q < w * w, 0 < w;
    assert(((q / w) * w + q % w) * w + i % w == i) by (nonlinear_arith)
        requires q == w * (q / w) + q % w, i == w * q + i % w;
}

/// In-grid coordinates all map to indices below the cell count.
proof fn lemma_indices_in_range(w: int)
    ensures
        forall|a: int, b: int, c: int|
            0 <= a < w && 0 <= b < w && 0 <= c < w
                ==> 0 <= #[trigger] index_of(w, a, b, c) < cell_count(w),
{
    assert forall|a: int, b: int, c: int|
        0 <= a < w && 0 <= b < w && 0 <= c < w implies 0 <= #[trigger] index_of(w, a, b, c) < cell_count(w) by {
        lemma_index_of_coords(w, a, b, c);
    }
}

/// A corner cell has at most seven cells around it inside the grid, so it
/// never counts more than seven live neighbors. When none of those is alive,
/// its next state depends only on whether 0 is a birth or a survival count.
pub proof fn lemma_corner_cell(w: int, s: Seq<bool>, x: int, y: int, z: int, birth: Seq<u32>, survive: Seq<u32>)
    requires
        width_ok(w),
        s.len() == cell_count(w),
        x == 0 || x == w - 1,
        y == 0 || y == w - 1,
        z == 0 || z == w - 1,
    ensures
        live_neighbors(w, s, x, y, z) <= 7,
        (forall|a: int, b: int, c: int|
            0 <= a < w && 0 <= b < w && 0 <= c < w && -1 <= a - x <= 1 && -1 <= b - y <= 1
                && -1 <= c - z <= 1 && !(a == x && b == y && c == z) ==> !s[#[trigger] index_of(w, a, b, c)])
            ==> live_neighbors(w, s, x, y, z) == 0
                && next_cell(w, s, rule_table(birth, survive), index_of(w, x, y, z))
                    == next_alive(fate_for(birth, survive, 0), s[index_of(w, x, y, z)]),
{
    lemma_index_of_coords(w, x, y, z);
}

/// A grid with no live cell stays empty when 0 is not a birth count: nothing
/// is created from nothing.
pub proof fn lemma_dead_grid_stays_dead(w: int, s: Seq<bool>, birth: Seq<u32>, survive: Seq<u32>)
    requires
        width_ok(w),
        s.len() == cell_count(w),
        forall|i: int| 0 <= i < s.len() ==> !s[i],
        !birth.contains(0),
    ensures
        forall|i: int| 0 <= i < s.len() ==> !next_generation(w, s, rule_table(birth, survive))[i],
{
    lemma_indices_in_range(w);
    assert forall|i: int| 0 <= i < s.len() implies !next_generation(w, s, rule_table(birth, survive))[i] by {
        lemma_coords_of_index(w, i);
        assert(live_neighbors(w, s, coord_x(w, i), coord_y(w, i), coord_z(w, i)) == 0);
    }
}

/// A grid coordinate.
#[derive(Clone, Copy, Debug, PartialEq, Eq, Structural)]
pub struct Point {
    pub x: u32,
    pub y: u32,
    pub z: u32,
}

/// The coordinate of the cell at linear index `i`.
pub open spec fn point_of(w: int, i: int) -> Point {
    Point { x: coord_x(w, i) as u32, y: coord_y(w, i) as u32, z: coord_z(w, i) as u32 }
}

/// True when record `c` carries the coordinate of linear index `i`.
pub open spec fn placed(w: int, c: Cell, i: int) -> bool {
    c.x == coord_x(w, i) && c.y == coord_y(w, i) && c.z == coord_z(w, i)
}

/// The linear indices of the live cells of `s`, in increasing order.
pub open spec fn live_indices(s: Seq<bool>) -> Seq<int>
    decreases s.len(),
{
    if s.len() == 0 {
        Seq::empty()
    } else if s.last() {
        live_indices(s.drop_last()).push(s.len() - 1)
    } else {
        live_indices(s.drop_last())
    }
}

/// The coordinates of the live cells of `s`, in linear index order.
pub open spec fn live_points(w: int, s: Seq<bool>) -> Seq<Point> {
    live_indices(s).map_values(|i: int| point_of(w, i))
}

/// There are no more live cells than cells, and each live index is a cell's.
pub proof fn lemma_live_indices_bounds(s: Seq<bool>)
    ensures
        live_indices(s).len() <= s.len(),
        forall|k: int| 0 <= k < live_indices(s).len() ==> 0 <= #[trigger] live_indices(s)[k] < s.len(),
    decreases s.len(),
{
    if s.len() > 0 {
        lemma_live_indices_bounds(s.drop_last());
    }
}

/// The live indices are exactly the live cells, in increasing order.
pub proof fn lemma_live_indices_members(s: Seq<bool>)
    ensures
        forall|k: int| 0 <= k < live_indices(s).len() ==> s[#[trigger] live_indices(s)[k]],
        forall|k1: int, k2: int| 0 <= k1 < k2 < live_indices(s).len()
            ==> #[trigger] live_indices(s)[k1] < #[trigger] live_indices(s)[k2],
        forall|i: int| 0 <= i < s.len() && #[trigger] s[i]
            ==> exists|k: int| 0 <= k < live_indices(s).len() && live_indices(s)[k] == i,
    decreases s.len(),
{
    if s.len() > 0 {
        let prefix = s.drop_last();
        let before = live_indices(prefix);
        let after = live_indices(s);
        lemma_live_indices_members(prefix);
        lemma_live_indices_bounds(prefix);
        assert forall|k: int| 0 <= k < after.len() implies s[#[trigger] after[k]] by {
            if k < before.len() {
                assert(prefix[before[k]] == s[before[k]]);
            }
        }
        assert forall|i: int| 0 <= i < s.len() && #[trigger] s[i]
            implies exists|k: int| 0 <= k < after.len() && after[k] == i by {
            if i < s.len() - 1 {
                assert(prefix[i] == s[i]);
                let k = choose|k: int| 0 <= k < before.len() && before[k] == i;
                assert(after[k] == i);
            } else {
                assert(after[before.len() as int] == i);
            }
        }
    }
}

/// Why a grid could not be built.
#[derive(Clone, Copy, Debug, PartialEq, Eq, Structural)]
pub enum GridError {
    /// The edge length is zero or above [`MAX_WIDTH`].
    WidthOutOfRange,
    /// The number of cells given is not the cube of the edge length.
    WrongCellCount,
    /// The record at `index` does not carry that index's coordinate.
    Misplaced { index: usize },
}

/// Relies on `rand::thread_rng` and `rand::Rng::gen_ratio(1, 2)`: a fair
/// coin from the thread's generator. Nothing is promised of the outcome.
/// `gen_ratio` panics only for a zero denominator or a numerator above it;
/// `thread_rng` panics only if the operating system gives it no seed.
#[verifier::external_body]
fn coin_flip() -> bool {
    rand::thread_rng().gen_ratio(1, 2)
}

/// The abstract state of a grid: its edge length and the alive flag of each
/// cell in linear index order.
pub ghost struct GridView {
    pub width: int,
    pub cells: Seq<bool>,
}

/// True for an edge length that a grid accepts.
pub open spec fn width_ok(w: int) -> bool {
    1 <= w <= MAX_WIDTH
}

/// One buffer of the automaton: `width³` alive flags in linear index order.
pub struct Grid {
    width: u32,
    cells: Vec<bool>,
}

impl View for Grid {
    type V = GridView;

    closed spec fn view(&self) -> GridView {
        GridView { width: self.width as int, cells: self.cells@ }
    }
}

proof fn lemma_cell_count_bound(w: int)
    requires
        width_ok(w),
    ensures
        0 < cell_count(w) <= 535387328,
{
    assert(0 < w * w * w <= 812 * 812 * 812) by (nonlinear_arith)
        requires 1 <= w <= 812;
}

impl Grid {
    /// Edge length in range and exactly `width³` cells.
    pub open spec fn wf(&self) -> bool {
        &&& width_ok(self@.width)
        &&& self@.cells.len() == cell_count(self@.width)
    }

    /// Computes `width³` for an accepted edge length.
    fn cell_count_of(width: u32) -> (r: usize)
        requires
            width_ok(width as int),
        ensures
            r == cell_count(width as int),
    {
        proof {
            lemma_cell_count_bound(width as int);
        }
        let w = width as usize;
        assert(w * w <= 812 * 812) by (nonlinear_arith)
            requires 1 <= w <= 812;
        w * w * w
    }

    /// A grid of the given edge length with the given alive flags, in linear
    /// index order.
    pub fn new(width: u32, cells: Vec<bool>) -> (r: Result<Grid, GridError>)
        ensures
            !width_ok(width as int) ==> r == Err::<Grid, GridError>(GridError::WidthOutOfRange),
            width_ok(width as int) && cells@.len() != cell_count(width as int)
                ==> r == Err::<Grid, GridError>(GridError::WrongCellCount),
            r matches Ok(g) ==> g.wf() && g@.width == width && g@.cells == cells@,
            width_ok(width as int) && cells@.len() == cell_count(width as int) ==> r is Ok,
    {
        if width == 0 || width > MAX_WIDTH {
            return Err(GridError::WidthOutOfRange);
        }
        if cells.len() != Self::cell_count_of(width) {
            return Err(GridError::WrongCellCount);
        }
        Ok(Grid { width, cells })
    }

    /// The edge length.
    pub fn width(&self) -> (r: u32)
        ensures
            r == self@.width,
    {
        self.width
    }

    /// The alive flags in linear index order.
    pub fn cells(&self) -> (r: &Vec<bool>)
        ensures
            r@ == self@.cells,
    {
        &self.cells
    }

    /// Whether the cell at `(x, y, z)` is alive.
    pub fn is_alive(&self, x: u32, y: u32, z: u32) -> (r: bool)
        requires
            self.wf(),
            x < self@.width,
            y < self@.width,
            z < self@.width,
        ensures
            r == self@.cells[index_of(self@.width, x as int, y as int, z as int)],
    {
        proof {
            lemma_index_of_coords(self@.width, x as int, y as int, z as int);
        }
        let w = self.width as usize;
        let ghost wi = w as int;
        assert(x * wi + y < wi * wi) by (nonlinear_arith)
            requires x < wi, y < wi;
        assert(wi * wi <= 812 * 812) by (nonlinear_arith)
            requires 1 <= wi <= 812;
        let a = x as usize * w + y as usize;
        proof {
            lemma_cell_count_bound(wi);
            assert(a * wi + z == index_of(wi, x as int, y as int, z as int));
        }
        self.cells[a * w + z as usize]
    }

    /// Whether `(x, y, z)`, each coordinate at most one step outside the
    /// grid, lies inside it and holds a live cell.
    fn occupied(&self, x: i64, y: i64, z: i64) -> (r: bool)
        requires
            self.wf(),
            -1 <= x <= self@.width,
            -1 <= y <= self@.width,
            -1 <= z <= self@.width,
        ensures
            r == occupied(self@.width, self@.cells, x as int, y as int, z as int),
    {
        let w = self.width as i64;
        if x < 0 || x >= w || y < 0 || y >= w || z < 0 || z >= w {
            false
        } else {
            self.is_alive(x as u32, y as u32, z as u32)
        }
    }

    /// Live neighbors of `(x, y, z)` among the offsets `(dx, dy, -1 ..= 1)`.
    fn row_count(&self, x: u32, y: u32, z: u32, dx: i64, dy: i64) -> (r: u32)
        requires
            self.wf(),
            x < self@.width,
            y < self@.width,
            z < self@.width,
            -1 <= dx <= 1,
            -1 <= dy <= 1,
        ensures
            r == row_count(self@.width, self@.cells, x as int, y as int, z as int, dx as int, dy as int),
            r <= 3,
    {
        let mut r: u32 = 0;
        let nx = x as i64 + dx;
        let ny = y as i64 + dy;
        if self.occupied(nx, ny, z as i64 - 1) {
            r += 1;
        }
        if !(dx == 0 && dy == 0) && self.occupied(nx, ny, z as i64) {
            r += 1;
        }
        if self.occupied(nx, ny, z as i64 + 1) {
            r += 1;
        }
        r
    }

    /// Live neighbors of `(x, y, z)` among the offsets `(dx, -1 ..= 1, -1 ..= 1)`.
    fn plane_count(&self, x: u32, y: u32, z: u32, dx: i64) -> (r: u32)
        requires
            self.wf(),
            x < self@.width,
            y < self@.width,
            z < self@.width,
            -1 <= dx <= 1,
        ensures
            r == plane_count(self@.width, self@.cells, x as int, y as int, z as int, dx as int),
            r <= 9,
    {
        self.row_count(x, y, z, dx, -1) + self.row_count(x, y, z, dx, 0) + self.row_count(x, y, z, dx, 1)
    }

    /// Number of live cells among the in-grid neighbors of `(x, y, z)`.
    pub fn neighbor_count(&self, x: u32, y: u32, z: u32) -> (r: u32)
        requires
            self.wf(),
            x < self@.width,
            y < self@.width,
            z < self@.width,
        ensures
            r == live_neighbors(self@.width, self@.cells, x as int, y as int, z as int),
            r <= MAX_NEIGHBORS,
    {
        self.plane_count(x, y, z, -1) + self.plane_count(x, y, z, 0) + self.plane_count(x, y, z, 1)
    }

    /// The state in the next generation of the cell at linear index `i`.
    pub fn next_state(&self, rules: &RuleSet, i: usize) -> (r: bool)
        requires
            self.wf(),
            rules.wf(),
            i < self@.cells.len(),
        ensures
            r == next_cell(self@.width, self@.cells, rules@, i as int),
    {
        let w = self.width as usize;
        proof {
            lemma_coords_of_index(w as int, i as int);
        }
        let x = (i / w / w) as u32;
        let y = (i / w % w) as u32;
        let z = (i % w) as u32;
        let n = self.neighbor_count(x, y, z);
        rules.fate(n).apply(self.cells[i])
    }

    /// Writes into `dst` the generation that follows this one. The source is
    /// only read and `dst` only written, and each cell's new state depends on
    /// the source alone, so the order of evaluation does not matter.
    pub fn step_into(&self, rules: &RuleSet, dst: &mut Grid)
        requires
            self.wf(),
            rules.wf(),
            old(dst).wf(),
            old(dst)@.width == self@.width,
        ensures
            final(dst).wf(),
            final(dst)@.width == self@.width,
            final(dst)@.cells == next_generation(self@.width, self@.cells, rules@),
    {
        let n = self.cells.len();
        let mut i: usize = 0;
        while i < n
            invariant
                self.wf(),
                rules.wf(),
                n == self@.cells.len(),
                dst.wf(),
                dst@.width == self@.width,
                0 <= i <= n,
                forall|j: int| 0 <= j < i ==> dst@.cells[j] == next_cell(self@.width, self@.cells, rules@, j),
            decreases n - i,
        {
            let v = self.next_state(rules, i);
            dst.cells.set(i, v);
            i += 1;
        }
        assert(dst@.cells =~= next_generation(self@.width, self@.cells, rules@));
    }

    /// A grid whose cells are each alive with probability one half,
    /// independently.
    pub fn random(width: u32) -> (r: Result<Grid, GridError>)
        ensures
            r is Err <==> !width_ok(width as int),
            r is Err ==> r == Err::<Grid, GridError>(GridError::WidthOutOfRange),
            r matches Ok(g) ==> g.wf() && g@.width == width,
    {
        if width == 0 || width > MAX_WIDTH {
            return Err(GridError::WidthOutOfRange);
        }
        let n = Self::cell_count_of(width);
        let mut cells: Vec<bool> = Vec::new();
        let mut i: usize = 0;
        while i < n
            invariant
                0 <= i <= n,
                cells@.len() == i,
            decreases n - i,
        {
            cells.push(coin_flip());
            i += 1;
        }
        Ok(Grid { width, cells })
    }

    /// A second grid with the same width and cells.
    pub fn duplicate(&self) -> (r: Grid)
        ensures
            r@ == self@,
    {
        let mut cells: Vec<bool> = Vec::new();
        let mut i: usize = 0;
        while i < self.cells.len()
            invariant
                0 <= i <= self@.cells.len(),
                cells@ == self@.cells.take(i as int),
            decreases self@.cells.len() - i,
        {
            cells.push(self.cells[i]);
            i += 1;
            assert(cells@ =~= self@.cells.take(i as int));
        }
        assert(cells@ =~= self@.cells);
        Grid { width: self.width, cells }
    }

    /// The cell records of this grid, in linear index order, each with its
    /// coordinate.
    pub fn to_records(&self) -> (r: Vec<Cell>)
        requires
            self.wf(),
        ensures
            r@.len() == self@.cells.len(),
            forall|i: int| 0 <= i < r@.len() ==> (#[trigger] r@[i]).alive == self@.cells[i]
                && placed(self@.width, r@[i], i),
    {
        let w = self.width as usize;
        let n = self.cells.len();
        let mut out: Vec<Cell> = Vec::new();
        let mut i: usize = 0;
        while i < n
            invariant
                self.wf(),
                w == self@.width,
                n == self@.cells.len(),
                0 <= i <= n,
                out@.len() == i,
                forall|j: int| 0 <= j < i ==> (#[trigger] out@[j]).alive == self@.cells[j]
                    && placed(self@.width, out@[j], j),
            decreases n - i,
        {
            proof {
                lemma_coords_of_index(w as int, i as int);
            }
            out.push(Cell { alive: self.cells[i], x: (i / w / w) as u32, y: (i / w % w) as u32, z: (i % w) as u32 });
            i += 1;
        }
        out
    }

    /// Rebuilds a grid from its records. Each record must carry the
    /// coordinate of its position; the first one that does not is reported.
    pub fn from_records(width: u32, records: &Vec<Cell>) -> (r: Result<Grid, GridError>)
        ensures
            !width_ok(width as int) ==> r == Err::<Grid, GridError>(GridError::WidthOutOfRange),
            width_ok(width as int) && records@.len() != cell_count(width as int)
                ==> r == Err::<Grid, GridError>(GridError::WrongCellCount),
            r is Ok <==> width_ok(width as int) && records@.len() == cell_count(width as int)
                && forall|i: int| 0 <= i < records@.len() ==> #[trigger] placed(width as int, records@[i], i),
            r matches Ok(g) ==> g.wf() && g@.width == width && g@.cells.len() == records@.len()
                && forall|i: int| 0 <= i < records@.len() ==> g@.cells[i] == (#[trigger] records@[i]).alive,
            r matches Err(GridError::Misplaced { index }) ==> index < records@.len()
                && !placed(width as int, records@[index as int], index as int)
                && forall|j: int| 0 <= j < index ==> #[trigger] placed(width as int, records@[j], j),
    {
        if width == 0 || width > MAX_WIDTH {
            return Err(GridError::WidthOutOfRange);
        }
        let n = Self::cell_count_of(width);
        if records.len() != n {
            return Err(GridError::WrongCellCount);
        }
        let w = width as usize;
        let mut cells: Vec<bool> = Vec::new();
        let mut i: usize = 0;
        while i < n
            invariant
                width_ok(w as int),
                w == width,
                n == cell_count(w as int),
                n == records@.len(),
                0 <= i <= n,
                cells@.len() == i,
                forall|j: int| 0 <= j < i ==> #[trigger] placed(w as int, records@[j], j),
                forall|j: int| 0 <= j < i ==> cells@[j] == (#[trigger] records@[j]).alive,
            decreases n - i,
        {
            proof {
                lemma_coords_of_index(w as int, i as int);
            }
            let c = records[i];
            if c.x as usize != i / w / w || c.y as usize != i / w % w || c.z as usize != i % w {
                assert(!placed(w as int, records@[i as int], i as int));
                return Err(GridError::Misplaced { index: i });
            }
            cells.push(c.alive);
            i += 1;
        }
        Ok(Grid { width, cells })
    }

    /// The coordinates of the live cells, in linear index order.
    pub fn live_cells(&self) -> (r: Vec<Point>)
        requires
            self.wf(),
        ensures
            r@ == live_points(self@.width, self@.cells),
    {
        let w = self.width as usize;
        let n = self.cells.len();
        let mut out: Vec<Point> = Vec::new();
        let mut i: usize = 0;
        assert(self@.cells.take(0) =~= Seq::<bool>::empty());
        while i < n
            invariant
                self.wf(),
                w == self@.width,
                n == self@.cells.len(),
                0 <= i <= n,
                out@ == live_points(w as int, self@.cells.take(i as int)),
            decreases n - i,
        {
            let ghost before = self@.cells.take(i as int);
            let ghost after = self@.cells.take(i as int + 1);
            assert(after.drop_last() =~= before);
            proof {
                lemma_coords_of_index(w as int, i as int);
            }
            if self.cells[i] {
                out.push(Point { x: (i / w / w) as u32, y: (i / w % w) as u32, z: (i % w) as u32 });
                assert(live_indices(after) == live_indices(before).push(i as int));
                assert(live_points(w as int, after) =~= live_points(w as int, before).push(point_of(w as int, i as int)));
            } else {
                assert(live_indices(after) == live_indices(before));
            }
            i += 1;
        }
        assert(self@.cells.take(n as int) =~= self@.cells);
        out
    }
}

} // verus!
