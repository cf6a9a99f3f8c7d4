//! The double-buffered automaton: the current generation is read while the
//! next is written into the other buffer, dispatch by dispatch, and the
//! roles of the two buffers are swapped once the whole generation is done.
use crate::dispatch::{chunk_end, dispatch_chunks, is_dispatch_plan, Chunk, MAX_DISPATCH};
use crate::dsl::Statement;
use crate::grid::{
    addressable, contains, count_neighbors, next_cell, next_generation, next_state, offset,
    lemma_faces_empty_in_next_generation, neighbor_count, offset_of, on_boundary, volume,
    volume_of, Cell, Vec3,
};
use vstd::prelude::*;

verus! {

/// Which of the two buffers holds the current generation.
#[derive(Clone, Copy, Debug, PartialEq, Eq, Structural)]
pub enum BufferRole {
    PingCurrent,
    PongCurrent,
}

impl BufferRole {
    /// The other role.
    pub open spec fn toggled(self) -> BufferRole {
        match self {
            BufferRole::PingCurrent => BufferRole::PongCurrent,
            BufferRole::PongCurrent => BufferRole::PingCurrent,
        }
    }

    /// The slot (0 for ping, 1 for pong) of the current generation.
    pub open spec fn read_index(self) -> nat {
        match self {
            BufferRole::PingCurrent => 0,
            BufferRole::PongCurrent => 1,
        }
    }

    pub fn toggle(&self) -> (r: BufferRole)
        ensures
            r == self.toggled(),
    {
        match self {
            BufferRole::PingCurrent => BufferRole::PongCurrent,
            BufferRole::PongCurrent => BufferRole::PingCurrent,
        }
    }

    /// The slot that is read during the next step.
    pub fn read_slot(&self) -> (r: usize)
        ensures
            r == self.read_index(),
    {
        match self {
            BufferRole::PingCurrent => 0,
            BufferRole::PongCurrent => 1,
        }
    }

    /// The slot that is written during the next step.
    pub fn write_slot(&self) -> (r: usize)
        ensures
            r == self.toggled().read_index(),
    {
        match self {
            BufferRole::PingCurrent => 1,
            BufferRole::PongCurrent => 0,
        }
    }
}

/// Two cell buffers, one readable and one writable.
pub struct DoubleBuffer {
    ping: Vec<Cell>,
    pong: Vec<Cell>,
    role: BufferRole,
}

impl DoubleBuffer {
    /// The buffer that holds the current generation.
    pub closed spec fn readable(&self) -> Seq<Cell> {
        match self.role {
            BufferRole::PingCurrent => self.ping@,
            BufferRole::PongCurrent => self.pong@,
        }
    }

    /// The buffer that the next generation is written into.
    pub closed spec fn writable(&self) -> Seq<Cell> {
        match self.role {
            BufferRole::PingCurrent => self.pong@,
            BufferRole::PongCurrent => self.ping@,
        }
    }

    pub closed spec fn current_role(&self) -> BufferRole {
        self.role
    }

    /// A double buffer whose current generation is `cells` and whose other
    /// buffer is all empty.
    pub fn new(cells: Vec<Cell>) -> (r: Self)
        ensures
            r.readable() == cells@,
            r.writable() == Seq::new(cells@.len(), |i: int| Cell::Empty),
            r.current_role() == BufferRole::PingCurrent,
    {
        let mut second: Vec<Cell> = Vec::new();
        let mut i: usize = 0;
        while i < cells.len()
            invariant
                i <= cells@.len(),
                second@ == Seq::new(i as nat, |j: int| Cell::Empty),
            decreases cells@.len() - i,
        {
            second.push(Cell::Empty);
            i = i + 1;
            assert(second@ =~= Seq::new(i as nat, |j: int| Cell::Empty));
        }
        DoubleBuffer { ping: cells, pong: second, role: BufferRole::PingCurrent }
    }

    /// The current generation.
    pub fn read(&self) -> (r: &Vec<Cell>)
        ensures
            r@ == self.readable(),
    {
        match self.role {
            BufferRole::PingCurrent => &self.ping,
            BufferRole::PongCurrent => &self.pong,
        }
    }

    /// The writable buffer.
    pub fn write_view(&self) -> (r: &Vec<Cell>)
        ensures
            r@ == self.writable(),
    {
        match self.role {
            BufferRole::PingCurrent => &self.pong,
            BufferRole::PongCurrent => &self.ping,
        }
    }

    /// Stores `cell` at `index` of the writable buffer.
    pub fn write(&mut self, index: usize, cell: Cell)
        requires
            index < old(self).writable().len(),
        ensures
            final(self).writable() == old(self).writable().update(index as int, cell),
            final(self).readable() == old(self).readable(),
            final(self).current_role() == old(self).current_role(),
    {
        match self.role {
            BufferRole::PingCurrent => {
                self.pong[index] = cell;
            },
            BufferRole::PongCurrent => {
                self.ping[index] = cell;
            },
        }
    }

    /// Swaps the roles: the buffer just written becomes the current one.
    pub fn next(&mut self)
        ensures
            final(self).readable() == old(self).writable(),
            final(self).writable() == old(self).readable(),
            final(self).current_role() == old(self).current_role().toggled(),
    {
        self.role = self.role.toggle();
    }

    pub fn role(&self) -> (r: BufferRole)
        ensures
            r == self.current_role(),
    {
        self.role
    }
}

/// The writable buffer `write` after the dispatches of `plan` have each
/// stored the next state of their cells, computed from `cells`.
pub open spec fn apply_chunks(
    rule: Statement,
    cells: Seq<Cell>,
    d: Vec3,
    write: Seq<Cell>,
    plan: Seq<Chunk>,
) -> Seq<Cell>
    decreases plan.len(),
{
    if plan.len() == 0 {
        write
    } else {
        let before = apply_chunks(rule, cells, d, write, plan.drop_last());
        let c = plan.last();
        Seq::new(
            before.len(),
            |i: int|
                if c.offset <= i < chunk_end(c) {
                    next_cell(rule, cells, d, i)
                } else {
                    before[i]
                },
        )
    }
}

/// Where the first `k` chunks of a plan end.
pub open spec fn prefix_end(plan: Seq<Chunk>, k: int) -> int {
    if k == 0 {
        0
    } else {
        chunk_end(plan[k - 1])
    }
}

/// After the first `k` dispatches of a plan, the cells before their end
/// hold the next generation and the others are untouched.
pub proof fn lemma_apply_chunks_prefix(
    rule: Statement,
    cells: Seq<Cell>,
    d: Vec3,
    write: Seq<Cell>,
    plan: Seq<Chunk>,
    max: int,
    k: int,
)
    requires
        is_dispatch_plan(plan, write.len() as int, max),
        0 <= k <= plan.len(),
    ensures
        apply_chunks(rule, cells, d, write, plan.take(k)).len() == write.len(),
        forall|i: int|
            0 <= i < write.len() ==> #[trigger] apply_chunks(rule, cells, d, write, plan.take(k))[i]
                == if i < prefix_end(plan, k) {
                next_cell(rule, cells, d, i)
            } else {
                write[i]
            },
    decreases k,
{
    if k > 0 {
        lemma_apply_chunks_prefix(rule, cells, d, write, plan, max, k - 1);
        assert(plan.take(k).drop_last() =~= plan.take(k - 1));
        let j = k - 1;
        if j > 0 {
            let h = j - 1;
            assert(plan[h + 1].offset == chunk_end(plan[h]));
        }
        assert(plan[j].offset == prefix_end(plan, j));
    }
}

/// Running all dispatches of a plan computes the whole next generation,
/// whatever the writable buffer held before.
pub proof fn lemma_apply_chunks_complete(
    rule: Statement,
    cells: Seq<Cell>,
    d: Vec3,
    write: Seq<Cell>,
    plan: Seq<Chunk>,
    max: int,
)
    requires
        is_dispatch_plan(plan, write.len() as int, max),
        cells.len() == write.len(),
    ensures
        apply_chunks(rule, cells, d, write, plan) == next_generation(rule, cells, d),
{
    lemma_apply_chunks_prefix(rule, cells, d, write, plan, max, plan.len() as int);
    assert(plan.take(plan.len() as int) =~= plan);
    assert(apply_chunks(rule, cells, d, write, plan) =~= next_generation(rule, cells, d));
}

/// Splitting a step into dispatches of at most `max_a` cells gives the same
/// generation as splitting it into dispatches of at most `max_b` cells:
/// both are the next generation.
pub proof fn lemma_chunked_dispatch_equivalence(
    rule: Statement,
    cells: Seq<Cell>,
    d: Vec3,
    write: Seq<Cell>,
    plan_a: Seq<Chunk>,
    max_a: int,
    plan_b: Seq<Chunk>,
    max_b: int,
)
    requires
        cells.len() == write.len(),
        is_dispatch_plan(plan_a, cells.len() as int, max_a),
        is_dispatch_plan(plan_b, cells.len() as int, max_b),
    ensures
        apply_chunks(rule, cells, d, write, plan_a) == apply_chunks(rule, cells, d, write, plan_b),
        apply_chunks(rule, cells, d, write, plan_a) == next_generation(rule, cells, d),
{
    lemma_apply_chunks_complete(rule, cells, d, write, plan_a, max_a);
    lemma_apply_chunks_complete(rule, cells, d, write, plan_b, max_b);
}

/// Relies on rand::Rng::gen_ratio on the thread-local generator: true with
/// probability numerator / denominator, so never when the numerator is 0 and
/// always when it equals the denominator.
#[verifier::external_body]
fn draw_ratio(numerator: u32, denominator: u32) -> (r: bool)
    requires
        0 < denominator,
        numerator <= denominator,
    ensures
        numerator == 0 ==> !r,
        numerator == denominator ==> r,
{
    rand::Rng::gen_ratio(&mut rand::thread_rng(), numerator, denominator)
}

/// `n` cells, each alive independently with probability
/// `numerator / denominator`.
pub fn random_cells(n: usize, numerator: u32, denominator: u32) -> (r: Vec<Cell>)
    requires
        0 < denominator,
        numerator <= denominator,
    ensures
        r@.len() == n,
        numerator == 0 ==> forall|i: int| 0 <= i < n ==> r@[i] == Cell::Empty,
        numerator == denominator ==> forall|i: int| 0 <= i < n ==> r@[i] == Cell::Alive,
{
    let mut cells: Vec<Cell> = Vec::new();
    let mut i: usize = 0;
    while i < n
        invariant
            i <= n,
            cells@.len() == i,
            0 < denominator,
            numerator <= denominator,
            numerator == 0 ==> forall|j: int| 0 <= j < i ==> cells@[j] == Cell::Empty,
            numerator == denominator ==> forall|j: int| 0 <= j < i ==> cells@[j] == Cell::Alive,
        decreases n - i,
    {
        let cell = if draw_ratio(numerator, denominator) {
            Cell::Alive
        } else {
            Cell::Empty
        };
        cells.push(cell);
        i = i + 1;
    }
    cells
}

/// What the automaton holds, as mathematical values.
pub struct AutomataView {
    pub dim: Vec3,
    pub rule: Statement,
    /// The current generation.
    pub current: Seq<Cell>,
    /// The other buffer, written during the next step.
    pub stale: Seq<Cell>,
    /// The number of steps taken.
    pub iteration: nat,
    /// The largest number of cells in one dispatch.
    pub max_dispatch: nat,
    pub role: BufferRole,
}

/// The automaton's invariant: both buffers span the grid, dispatches are
/// not empty, and the current buffer is ping exactly after an even number
/// of steps.
pub open spec fn well_formed(v: AutomataView) -> bool {
    &&& addressable(v.dim)
    &&& v.current.len() == volume(v.dim)
    &&& v.stale.len() == volume(v.dim)
    &&& 1 <= v.max_dispatch <= usize::MAX
    &&& (v.role == BufferRole::PingCurrent <==> v.iteration % 2 == 0)
}

/// `after` is `before` one step later: the next generation is current, the
/// buffer that was current is the writable one, unchanged, and the step
/// counter has moved on by one.
pub open spec fn stepped(before: AutomataView, after: AutomataView) -> bool {
    &&& after.dim == before.dim
    &&& after.rule == before.rule
    &&& after.max_dispatch == before.max_dispatch
    &&& after.iteration == before.iteration + 1
    &&& after.role == before.role.toggled()
    &&& after.current == next_generation(before.rule, before.current, before.dim)
    &&& after.stale == before.current
}

/// A cellular automaton on a grid, stepped by a compiled rule.
pub struct Automata {
    dim: Vec3,
    rule: Statement,
    buffer: DoubleBuffer,
    iteration: usize,
    max_dispatch: usize,
}

impl View for Automata {
    type V = AutomataView;

    closed spec fn view(&self) -> AutomataView {
        AutomataView {
            dim: self.dim,
            rule: self.rule,
            current: self.buffer.readable(),
            stale: self.buffer.writable(),
            iteration: self.iteration as nat,
            max_dispatch: self.max_dispatch as nat,
            role: self.buffer.current_role(),
        }
    }
}

impl Automata {
    /// An automaton on a grid of extents `dim` whose first generation is
    /// `cells`, listed in row-major order.
    pub fn from_cells(dim: &Vec3, cells: Vec<Cell>, rule: Statement) -> (r: Self)
        requires
            addressable(*dim),
            cells@.len() == volume(*dim),
        ensures
            well_formed(r@),
            r@.dim == *dim,
            r@.rule == rule,
            r@.current == cells@,
            r@.stale == Seq::new(cells@.len(), |i: int| Cell::Empty),
            r@.iteration == 0,
            r@.max_dispatch == MAX_DISPATCH,
            r@.role == BufferRole::PingCurrent,
    {
        Automata {
            dim: *dim,
            rule,
            buffer: DoubleBuffer::new(cells),
            iteration: 0,
            max_dispatch: MAX_DISPATCH,
        }
    }

    /// An automaton on a grid of extents `dim` whose cells start alive
    /// independently with probability `numerator / denominator`.
    pub fn new(dim: &Vec3, numerator: u32, denominator: u32, rule: Statement) -> (r: Self)
        requires
            addressable(*dim),
            0 < denominator,
            numerator <= denominator,
        ensures
            well_formed(r@),
            r@.dim == *dim,
            r@.rule == rule,
            r@.current.len() == volume(*dim),
            numerator == 0 ==> forall|i: int|
                0 <= i < volume(*dim) ==> r@.current[i] == Cell::Empty,
            numerator == denominator ==> forall|i: int|
                0 <= i < volume(*dim) ==> r@.current[i] == Cell::Alive,
            r@.stale == Seq::new(volume(*dim) as nat, |i: int| Cell::Empty),
            r@.iteration == 0,
            r@.max_dispatch == MAX_DISPATCH,
            r@.role == BufferRole::PingCurrent,
    {
        let n = volume_of(*dim);
        let cells = random_cells(n, numerator, denominator);
        Self::from_cells(dim, cells, rule)
    }

    /// The extents of the grid.
    pub fn dim(&self) -> (r: Vec3)
        ensures
            r == self@.dim,
    {
        self.dim
    }

    /// The number of cells.
    pub fn size(&self) -> (r: usize)
        requires
            well_formed(self@),
        ensures
            r == volume(self@.dim),
    {
        volume_of(self.dim)
    }

    /// The number of steps taken so far.
    pub fn iteration(&self) -> (r: usize)
        ensures
            r == self@.iteration,
    {
        self.iteration
    }

    /// The rule that steps the automaton.
    pub fn rule(&self) -> (r: &Statement)
        ensures
            *r == self@.rule,
    {
        &self.rule
    }

    /// Which buffer holds the current generation.
    pub fn role(&self) -> (r: BufferRole)
        ensures
            r == self@.role,
    {
        self.buffer.role()
    }

    /// The current generation, in row-major order.
    pub fn current(&self) -> (r: &Vec<Cell>)
        ensures
            r@ == self@.current,
    {
        self.buffer.read()
    }

    /// The writable buffer: the generation before the current one, once a
    /// step has been taken.
    pub fn writable(&self) -> (r: &Vec<Cell>)
        ensures
            r@ == self@.stale,
    {
        self.buffer.write_view()
    }

    /// The largest number of cells in one dispatch.
    pub fn max_dispatch(&self) -> (r: usize)
        ensures
            r == self@.max_dispatch,
    {
        self.max_dispatch
    }

    /// Sets the largest number of cells in one dispatch.
    pub fn set_max_dispatch(&mut self, max: usize)
        requires
            well_formed(old(self)@),
            max >= 1,
        ensures
            well_formed(final(self)@),
            final(self)@ == (AutomataView { max_dispatch: max as nat, ..old(self)@ }),
    {
        self.max_dispatch = max;
    }

    /// The row-major offset of `pos`.
    pub fn offset(&self, pos: &Vec3) -> (r: usize)
        requires
            well_formed(self@),
            contains(self@.dim, pos.x as int, pos.y as int, pos.z as int),
        ensures
            r == offset_of(self@.dim, pos.x as int, pos.y as int, pos.z as int),
            r < volume(self@.dim),
    {
        offset(self.dim, *pos)
    }

    /// The state of the cell at `pos` in the current generation.
    pub fn get(&self, pos: &Vec3) -> (r: Cell)
        requires
            well_formed(self@),
            contains(self@.dim, pos.x as int, pos.y as int, pos.z as int),
        ensures
            r == self@.current[offset_of(self@.dim, pos.x as int, pos.y as int, pos.z as int)],
    {
        let i = self.offset(pos);
        self.buffer.read()[i]
    }

    /// Stores `cell` at `pos` in the writable buffer, which the next step
    /// overwrites.
    pub fn set(&mut self, pos: &Vec3, cell: Cell)
        requires
            well_formed(old(self)@),
            contains(old(self)@.dim, pos.x as int, pos.y as int, pos.z as int),
        ensures
            well_formed(final(self)@),
            final(self)@ == (AutomataView {
                stale: old(self)@.stale.update(
                    offset_of(old(self)@.dim, pos.x as int, pos.y as int, pos.z as int),
                    cell,
                ),
                ..old(self)@
            }),
    {
        let i = self.offset(pos);
        self.buffer.write(i, cell);
    }

    /// The number of live cells around `pos` in the current generation; 0
    /// on a face of the grid.
    pub fn neighbors(&self, pos: &Vec3) -> (r: u32)
        requires
            well_formed(self@),
            contains(self@.dim, pos.x as int, pos.y as int, pos.z as int),
        ensures
            r == neighbor_count(self@.current, self@.dim, pos.x as int, pos.y as int, pos.z as int),
    {
        count_neighbors(self.buffer.read(), self.dim, *pos)
    }

    /// The dispatches that one step is split into.
    pub fn dispatch_plan(&self) -> (r: Vec<Chunk>)
        requires
            well_formed(self@),
        ensures
            is_dispatch_plan(r@, volume(self@.dim), self@.max_dispatch as int),
    {
        dispatch_chunks(self.size(), self.max_dispatch)
    }

    /// Advances the automaton by one generation: every cell of the next
    /// generation is computed from the current one alone, dispatch by
    /// dispatch, into the writable buffer, which then becomes current.
    pub fn update(&mut self)
        requires
            well_formed(old(self)@),
            old(self)@.iteration < usize::MAX,
        ensures
            well_formed(final(self)@),
            stepped(old(self)@, final(self)@),
    {
        let n = self.size();
        let plan = self.dispatch_plan();
        let ghost cells = self.buffer.readable();
        let ghost start = self.buffer.writable();
        let ghost v0 = self@;
        let mut k: usize = 0;
        while k < plan.len()
            invariant
                v0 == old(self)@,
                well_formed(v0),
                n == volume(v0.dim),
                cells == v0.current,
                start == v0.stale,
                is_dispatch_plan(plan@, n as int, v0.max_dispatch as int),
                k <= plan@.len(),
                self.dim == v0.dim,
                self.rule == v0.rule,
                self.iteration == v0.iteration,
                self.max_dispatch == v0.max_dispatch,
                self.buffer.readable() == cells,
                self.buffer.current_role() == v0.role,
                self.buffer.writable() == apply_chunks(
                    v0.rule,
                    cells,
                    v0.dim,
                    start,
                    plan@.take(k as int),
                ),
            decreases plan@.len() - k,
        {
            let c = plan[k];
            let ghost before = self.buffer.writable();
            proof {
                lemma_apply_chunks_prefix(v0.rule, cells, v0.dim, start, plan@, v0.max_dispatch as int, k as int);
                crate::dispatch::lemma_plan_offsets(plan@, n as int, v0.max_dispatch as int, k as int);
            }
            let end = c.offset + c.count;
            let mut i = c.offset;
            while i < end
                invariant
                    c.offset <= i <= end,
                    end == chunk_end(c),
                    end <= n,
                    n == volume(v0.dim),
                    addressable(v0.dim),
                    self.dim == v0.dim,
                    self.rule == v0.rule,
                    self.iteration == v0.iteration,
                    self.max_dispatch == v0.max_dispatch,
                    self.buffer.readable() == cells,
                    cells.len() == n,
                    before.len() == n,
                    self.buffer.current_role() == v0.role,
                    self.buffer.writable() == Seq::new(
                        n as nat,
                        |j: int|
                            if c.offset <= j < i {
                                next_cell(v0.rule, cells, v0.dim, j)
                            } else {
                                before[j]
                            },
                    ),
                decreases end - i,
            {
                let cell = next_state(&self.rule, self.buffer.read(), self.dim, i);
                self.buffer.write(i, cell);
                i = i + 1;
                assert(self.buffer.writable() =~= Seq::new(
                    n as nat,
                    |j: int|
                        if c.offset <= j < i {
                            next_cell(v0.rule, cells, v0.dim, j)
                        } else {
                            before[j]
                        },
                ));
            }
            proof {
                assert(plan@.take(k + 1).drop_last() =~= plan@.take(k as int));
                assert(plan@.take(k + 1).last() == c);
                assert(self.buffer.writable() =~= apply_chunks(
                    v0.rule,
                    cells,
                    v0.dim,
                    start,
                    plan@.take(k + 1),
                ));
            }
            k = k + 1;
        }
        proof {
            assert(plan@.take(plan@.len() as int) =~= plan@);
            lemma_apply_chunks_complete(v0.rule, cells, v0.dim, start, plan@, v0.max_dispatch as int);
        }
        self.buffer.next();
        self.iteration = self.iteration + 1;
    }
}

/// After a step, every cell on a face of the grid is empty, whatever the
/// generation before it held.
pub proof fn lemma_faces_empty_after_step(
    before: AutomataView,
    after: AutomataView,
    x: int,
    y: int,
    z: int,
)
    requires
        well_formed(before),
        stepped(before, after),
        contains(before.dim, x, y, z),
        on_boundary(before.dim, x, y, z),
    ensures
        after.current[offset_of(before.dim, x, y, z)] == Cell::Empty,
{
    lemma_faces_empty_in_next_generation(before.rule, before.current, before.dim, x, y, z);
}

/// Two steps from the same generation under the same rule on the same grid
/// give the same next generation, whatever the writable buffers held, how
/// many steps came before, and how the step was split into dispatches.
pub proof fn lemma_step_deterministic(
    a: AutomataView,
    a_next: AutomataView,
    b: AutomataView,
    b_next: AutomataView,
)
    requires
        stepped(a, a_next),
        stepped(b, b_next),
        a.dim == b.dim,
        a.rule == b.rule,
        a.current == b.current,
    ensures
        a_next.current == b_next.current,
{
}

} // verus!
