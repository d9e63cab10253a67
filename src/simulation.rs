use vstd::prelude::*;
use crate::cube::Cube;
use crate::grid::{
    Grid, GridError, MAX_WIDTH, cell_count, lemma_live_indices_bounds, lemma_live_indices_members,
    live_indices, next_generation, placed, width_ok,
};
use crate::record::{DecodeError, decode_records, cell_at, tag_ok};
use crate::rules::{Fate, RuleError, RuleSet, rule_table, counts_in_range};
use crate::scene::{Tint, Vertex, live_mesh, live_mesh_indices, live_mesh_vertices, shows_generation};

verus! {

/// The buffer that holds the current generation at frame `frame`.
pub open spec fn current_of(frame: int) -> int {
    frame % 2
}

/// The buffer that the step of frame `frame` writes.
pub open spec fn scratch_of(frame: int) -> int {
    (frame + 1) % 2
}

/// Index (0 or 1) of the buffer that is current at frame `frame`.
pub fn current(frame: u64) -> (r: usize)
    ensures
        r == current_of(frame as int),
        r < 2,
{
    (frame % 2) as usize
}

/// Index (0 or 1) of the scratch buffer that the step of frame `frame`
/// writes: the one that is not current.
pub fn scratch(frame: u64) -> (r: usize)
    ensures
        r == scratch_of(frame as int),
        r < 2,
        r != current_of(frame as int),
{
    if frame % 2 == 0 { 1 } else { 0 }
}

/// Why a simulation could not be set up.
#[derive(Clone, Copy, Debug, PartialEq, Eq, Structural)]
pub enum ConfigError {
    /// The grid edge length is zero or too large for the mesh index range.
    WidthOutOfRange,
    /// A birth or survival count is above 26.
    CountOutOfRange { value: u32 },
    /// Both the birth and the survival sets are empty.
    EmptyRules,
    /// The seed does not hold one flag per cell.
    WrongSeedLength,
}

/// The abstract state of a simulation: the grid width, the rule table,
/// the two buffers, and the number of steps taken.
pub ghost struct SimulationView {
    pub width: int,
    pub table: Seq<Fate>,
    pub first: Seq<bool>,
    pub second: Seq<bool>,
    pub frame: int,
}

/// Buffer `i` (0 or 1) of a simulation.
pub open spec fn buffer(v: SimulationView, i: int) -> Seq<bool> {
    if i == 0 { v.first } else { v.second }
}

/// One call of `advance_and_collect`: the current buffer is read and left
/// as it was, the scratch buffer receives the next generation, and the
/// frame count goes up by one, which swaps the two roles.
pub open spec fn advanced(before: SimulationView, after: SimulationView) -> bool {
    let cur = current_of(before.frame);
    let scr = scratch_of(before.frame);
    &&& after.width == before.width
    &&& after.table == before.table
    &&& after.frame == before.frame + 1
    &&& buffer(after, cur) == buffer(before, cur)
    &&& buffer(after, scr) == next_generation(before.width, buffer(before, cur), before.table)
}

/// Over any run of calls from a fresh simulation: after `f` calls the
/// current buffer is `f % 2`; and the buffer that call `f` wrote as scratch
/// is left untouched by call `f + 1` and is the scratch buffer again only
/// at call `f + 2`.
pub proof fn lemma_buffer_roles(states: Seq<SimulationView>)
    requires
        states.len() >= 1,
        states[0].frame == 0,
        forall|i: int| 0 <= i < states.len() - 1 ==> advanced(#[trigger] states[i], states[i + 1]),
    ensures
        forall|f: int| 0 <= f < states.len() ==> (#[trigger] states[f]).frame == f && current_of(states[f].frame) == f % 2,
        forall|f: int| 0 <= f < states.len() - 2 ==> {
            &&& buffer(#[trigger] states[f + 2], scratch_of(f)) == buffer(states[f + 1], scratch_of(f))
            &&& scratch_of(f + 1) != scratch_of(f)
            &&& scratch_of(f + 2) == scratch_of(f)
        },
    decreases states.len(),
{
    if states.len() > 1 {
        let prefix = states.drop_last();
        assert forall|i: int| 0 <= i < prefix.len() - 1 implies advanced(#[trigger] prefix[i], prefix[i + 1]) by {
            assert(advanced(states[i], states[i + 1]));
        }
        lemma_buffer_roles(prefix);
        assert forall|f: int| 0 <= f < states.len() implies (#[trigger] states[f]).frame == f by {
            if f < states.len() - 1 {
                assert(prefix[f] == states[f]);
            } else {
                assert(prefix[f - 1] == states[f - 1]);
                assert(advanced(states[f - 1], states[f]));
            }
        }
        assert forall|f: int| 0 <= f < states.len() - 2 implies
            buffer(#[trigger] states[f + 2], scratch_of(f)) == buffer(states[f + 1], scratch_of(f)) by {
            assert(advanced(states[f + 1], states[f + 2]));
            assert(states[f + 1].frame == f + 1);
        }
    }
}

/// The automaton: a fixed rule table and two grid buffers that trade the
/// roles of current generation and scratch at every step.
pub struct Simulation {
    rules: RuleSet,
    first: Grid,
    second: Grid,
    frame: u64,
}

impl View for Simulation {
    type V = SimulationView;

    closed spec fn view(&self) -> SimulationView {
        SimulationView {
            width: self.first@.width,
            table: self.rules@,
            first: self.first@.cells,
            second: self.second@.cells,
            frame: self.frame as int,
        }
    }
}

impl Simulation {
    pub closed spec fn wf(&self) -> bool {
        &&& self.rules.wf()
        &&& self.first.wf()
        &&& self.second.wf()
        &&& self.first@.width == self.second@.width
    }

    /// Sets up a simulation of edge length `width` whose both buffers hold
    /// `seed` (alive flags in linear index order). Checks, in this order, the
    /// width, the range of the counts, that some count is given, and the
    /// seed's length.
    pub fn from_seed(width: u32, birth: &Vec<u32>, survive: &Vec<u32>, seed: Vec<bool>) -> (r: Result<Simulation, ConfigError>)
        ensures
            !width_ok(width as int) ==> r == Err::<Simulation, ConfigError>(ConfigError::WidthOutOfRange),
            width_ok(width as int) && !(counts_in_range(birth@) && counts_in_range(survive@))
                ==> (r matches Err(ConfigError::CountOutOfRange { value }) && value > 26
                    && (birth@.contains(value) || survive@.contains(value))),
            width_ok(width as int) && counts_in_range(birth@) && counts_in_range(survive@)
                && birth@.len() == 0 && survive@.len() == 0
                ==> r == Err::<Simulation, ConfigError>(ConfigError::EmptyRules),
            width_ok(width as int) && counts_in_range(birth@) && counts_in_range(survive@)
                && (birth@.len() > 0 || survive@.len() > 0) && seed@.len() != cell_count(width as int)
                ==> r == Err::<Simulation, ConfigError>(ConfigError::WrongSeedLength),
            r is Ok <==> width_ok(width as int) && counts_in_range(birth@) && counts_in_range(survive@)
                && (birth@.len() > 0 || survive@.len() > 0) && seed@.len() == cell_count(width as int),
            r matches Ok(s) ==> s.wf() && s@.width == width && s@.table == rule_table(birth@, survive@)
                && s@.first == seed@ && s@.second == seed@ && s@.frame == 0
                && s@.first.len() == cell_count(width as int) && s@.second.len() == cell_count(width as int),
    {
        if width == 0 || width > MAX_WIDTH {
            return Err(ConfigError::WidthOutOfRange);
        }
        let rules = match RuleSet::new(birth, survive) {
            Ok(t) => t,
            Err(RuleError::CountOutOfRange { value }) => return Err(ConfigError::CountOutOfRange { value }),
        };
        if birth.len() == 0 && survive.len() == 0 {
            return Err(ConfigError::EmptyRules);
        }
        let grid = match Grid::new(width, seed) {
            Ok(g) => g,
            Err(_) => return Err(ConfigError::WrongSeedLength),
        };
        let second = grid.duplicate();
        Ok(Simulation { rules, first: grid, second, frame: 0 })
    }

    /// Sets up a simulation of edge length `width` whose both buffers hold
    /// the same random generation, each cell alive with probability one half.
    /// Checks the width, the range of the counts, and that some count is
    /// given, in this order.
    pub fn initialize(width: u32, birth: &Vec<u32>, survive: &Vec<u32>) -> (r: Result<Simulation, ConfigError>)
        ensures
            !width_ok(width as int) ==> r == Err::<Simulation, ConfigError>(ConfigError::WidthOutOfRange),
            width_ok(width as int) && !(counts_in_range(birth@) && counts_in_range(survive@))
                ==> (r matches Err(ConfigError::CountOutOfRange { value }) && value > 26
                    && (birth@.contains(value) || survive@.contains(value))),
            width_ok(width as int) && counts_in_range(birth@) && counts_in_range(survive@)
                && birth@.len() == 0 && survive@.len() == 0
                ==> r == Err::<Simulation, ConfigError>(ConfigError::EmptyRules),
            r is Ok <==> width_ok(width as int) && counts_in_range(birth@) && counts_in_range(survive@)
                && (birth@.len() > 0 || survive@.len() > 0),
            r matches Ok(s) ==> s.wf() && s@.width == width && s@.table == rule_table(birth@, survive@)
                && s@.first == s@.second && s@.frame == 0
                && s@.first.len() == cell_count(width as int) && s@.second.len() == cell_count(width as int),
    {
        let grid = match Grid::random(width) {
            Ok(g) => g,
            Err(_) => return Err(ConfigError::WidthOutOfRange),
        };
        Self::from_seed(width, birth, survive, grid.cells().clone())
    }

    /// Number of steps taken so far.
    pub fn frame(&self) -> (r: u64)
        ensures
            r == self@.frame,
    {
        self.frame
    }

    /// The grid that holds the current generation: buffer `frame % 2`.
    pub fn current_grid(&self) -> (r: &Grid)
        requires
            self.wf(),
        ensures
            r.wf(),
            r@.width == self@.width,
            r@.cells == buffer(self@, current_of(self@.frame)),
    {
        if self.frame % 2 == 0 { &self.first } else { &self.second }
    }

    /// Runs one step and returns the live-cell mesh of the new generation.
    /// The step reads the current buffer and writes the scratch buffer;
    /// then the frame count goes up, so the buffer just written becomes
    /// current.
    pub fn advance_and_collect(&mut self) -> (r: (Vec<Vertex>, Vec<u32>))
        requires
            old(self).wf(),
            old(self)@.frame < u64::MAX,
        ensures
            final(self).wf(),
            advanced(old(self)@, final(self)@),
            r.0@ == live_mesh_vertices(final(self)@.width, buffer(final(self)@, current_of(final(self)@.frame))),
            r.1@ == live_mesh_indices(live_indices(buffer(final(self)@, current_of(final(self)@.frame))).len() as int),
    {
        if self.frame % 2 == 0 {
            self.first.step_into(&self.rules, &mut self.second);
        } else {
            self.second.step_into(&self.rules, &mut self.first);
        }
        self.frame = self.frame + 1;
        live_mesh(self.current_grid())
    }
}

/// Why a buffer read back from the device was not accepted.
#[derive(Clone, Copy, Debug, PartialEq, Eq, Structural)]
pub enum ReadbackError {
    /// The bytes are not a sequence of valid cell records.
    Decode(DecodeError),
    /// The records do not form a grid of the expected width.
    Layout(GridError),
}

/// Decodes a buffer of cell records read back after a step into the grid
/// it describes: the byte count must be a whole number of records, every
/// state tag valid, and each record at its own coordinate.
pub fn decode_generation(width: u32, bytes: &[u8]) -> (r: Result<Grid, ReadbackError>)
    ensures
        r is Ok <==> bytes@.len() % 16 == 0
            && (forall|i: int| 0 <= i < bytes@.len() / 16 ==> #[trigger] tag_ok(bytes@, i))
            && width_ok(width as int) && bytes@.len() / 16 == cell_count(width as int)
            && (forall|i: int| 0 <= i < bytes@.len() / 16 ==> #[trigger] placed(width as int, cell_at(bytes@, i), i)),
        r matches Ok(g) ==> g.wf() && g@.width == width && g@.cells.len() == bytes@.len() / 16
            && forall|i: int| 0 <= i < g@.cells.len() ==> #[trigger] g@.cells[i] == cell_at(bytes@, i).alive,
        bytes@.len() % 16 != 0 ==> r == Err::<Grid, ReadbackError>(ReadbackError::Decode(DecodeError::Truncated)),
        bytes@.len() % 16 == 0 && !(forall|i: int| 0 <= i < bytes@.len() / 16 ==> #[trigger] tag_ok(bytes@, i))
            ==> (r matches Err(ReadbackError::Decode(DecodeError::BadState { index })) && index < bytes@.len() / 16
                && !tag_ok(bytes@, index as int) && forall|j: int| 0 <= j < index ==> #[trigger] tag_ok(bytes@, j)),
        bytes@.len() % 16 == 0 && (forall|i: int| 0 <= i < bytes@.len() / 16 ==> #[trigger] tag_ok(bytes@, i))
            && !width_ok(width as int) ==> r == Err::<Grid, ReadbackError>(ReadbackError::Layout(GridError::WidthOutOfRange)),
        bytes@.len() % 16 == 0 && (forall|i: int| 0 <= i < bytes@.len() / 16 ==> #[trigger] tag_ok(bytes@, i))
            && width_ok(width as int) && bytes@.len() / 16 != cell_count(width as int)
            ==> r == Err::<Grid, ReadbackError>(ReadbackError::Layout(GridError::WrongCellCount)),
        r matches Err(ReadbackError::Layout(GridError::Misplaced { index })) ==> index < bytes@.len() / 16
            && !placed(width as int, cell_at(bytes@, index as int), index as int)
            && forall|j: int| 0 <= j < index ==> #[trigger] placed(width as int, cell_at(bytes@, j), j),
{
    let records = match decode_records(bytes) {
        Ok(cs) => cs,
        Err(e) => return Err(ReadbackError::Decode(e)),
    };
    match Grid::from_records(width, &records) {
        Ok(g) => Ok(g),
        Err(e) => {
            proof {
                if width_ok(width as int) && records@.len() == cell_count(width as int) {
                    let i = choose|i: int| 0 <= i < records@.len() && !#[trigger] placed(width as int, records@[i], i);
                    assert(!placed(width as int, cell_at(bytes@, i), i));
                }
            }
            Err(ReadbackError::Layout(e))
        },
    }
}

/// The scene built from a generation read back from the device shows
/// exactly its alive records: cube `c` stands at the coordinate of the
/// `c`-th alive record, in linear index order, colored by that coordinate
/// over the width; and every alive record has its cube.
pub proof fn lemma_readback_scene(width: int, bytes: Seq<u8>, cells: Seq<bool>, cubes: Seq<Cube>)
    requires
        width_ok(width),
        cells.len() == bytes.len() / 16,
        cells.len() == cell_count(width),
        forall|i: int| 0 <= i < cells.len() ==> #[trigger] placed(width, cell_at(bytes, i), i),
        forall|i: int| 0 <= i < cells.len() ==> #[trigger] cells[i] == cell_at(bytes, i).alive,
        shows_generation(cubes, width, cells),
    ensures
        cubes.len() == live_indices(cells).len(),
        forall|c: int| 0 <= c < cubes.len() ==> {
            let rec = cell_at(bytes, #[trigger] live_indices(cells)[c]);
            &&& 0 <= live_indices(cells)[c] < cells.len()
            &&& rec.alive
            &&& cubes[c].is_cube_at(rec.x as int, rec.y as int, rec.z as int, 1,
                Tint { r: rec.x, g: rec.y, b: rec.z, scale: width as u32 })
        },
        forall|c1: int, c2: int| 0 <= c1 < c2 < cubes.len()
            ==> #[trigger] live_indices(cells)[c1] < #[trigger] live_indices(cells)[c2],
        forall|i: int| 0 <= i < cells.len() && (#[trigger] cell_at(bytes, i)).alive
            ==> exists|c: int| 0 <= c < cubes.len() && live_indices(cells)[c] == i,
{
    lemma_live_indices_bounds(cells);
    lemma_live_indices_members(cells);
    assert forall|c: int| 0 <= c < cubes.len() implies {
        let rec = cell_at(bytes, #[trigger] live_indices(cells)[c]);
        &&& 0 <= live_indices(cells)[c] < cells.len()
        &&& rec.alive
        &&& cubes[c].is_cube_at(rec.x as int, rec.y as int, rec.z as int, 1,
            Tint { r: rec.x, g: rec.y, b: rec.z, scale: width as u32 })
    } by {
        let i = live_indices(cells)[c];
        assert(placed(width, cell_at(bytes, i), i));
        assert(cells[i] == cell_at(bytes, i).alive);
    }
    assert forall|i: int| 0 <= i < cells.len() && (#[trigger] cell_at(bytes, i)).alive
        implies exists|c: int| 0 <= c < cubes.len() && live_indices(cells)[c] == i by {
        assert(cells[i]);
    }
}

} // verus!
