//! The grid: dimensions, row-major cell addressing, cells, the Moore
//! neighbourhood, and the rule that takes one generation to the next.
use crate::dsl::{eval_statement, Statement};
use vstd::arithmetic::div_mod::{
    lemma_fundamental_div_mod, lemma_fundamental_div_mod_converse, lemma_multiply_divide_lt,
};
use vstd::prelude::*;

verus! {

/// A triple of extents, or of coordinates within such extents.
#[derive(Clone, Copy, Debug, PartialEq, Eq, Structural)]
pub struct Vec3 {
    pub x: usize,
    pub y: usize,
    pub z: usize,
}

impl Vec3 {
    pub fn new(x: usize, y: usize, z: usize) -> (r: Self)
        ensures
            r == (Vec3 { x, y, z }),
    {
        Vec3 { x, y, z }
    }
}

/// The number of cells of a grid with extents `d`.
pub open spec fn volume(d: Vec3) -> int {
    d.x * d.y * d.z
}

/// Whether a grid with extents `d` can be addressed with `usize` offsets.
pub open spec fn addressable(d: Vec3) -> bool {
    volume(d) <= usize::MAX
}

/// Whether `(x, y, z)` lies in the grid.
pub open spec fn contains(d: Vec3, x: int, y: int, z: int) -> bool {
    0 <= x < d.x && 0 <= y < d.y && 0 <= z < d.z
}

/// The row-major offset of `(x, y, z)`: layers along z, rows along y.
pub open spec fn offset_of(d: Vec3, x: int, y: int, z: int) -> int {
    z * (d.x * d.y) + y * d.x + x
}

/// The x coordinate of the cell at offset `i`.
pub open spec fn x_of(d: Vec3, i: int) -> int {
    i % (d.x as int)
}

/// The y coordinate of the cell at offset `i`.
pub open spec fn y_of(d: Vec3, i: int) -> int {
    (i / (d.x as int)) % (d.y as int)
}

/// The z coordinate of the cell at offset `i`.
pub open spec fn z_of(d: Vec3, i: int) -> int {
    (i / (d.x as int)) / (d.y as int)
}

/// Whether `(x, y, z)` lies on a face of the grid: some coordinate is 0 or
/// the last on its axis.
pub open spec fn on_boundary(d: Vec3, x: int, y: int, z: int) -> bool {
    x == 0 || x == d.x - 1 || y == 0 || y == d.y - 1 || z == 0 || z == d.z - 1
}

/// The state of one cell.
#[derive(Clone, Copy, Debug, PartialEq, Eq, Structural)]
pub enum Cell {
    Alive,
    Empty,
}

/// 1 for a live cell, 0 for an empty one.
pub open spec fn alive_value(c: Cell) -> u32 {
    match c {
        Cell::Alive => 1,
        Cell::Empty => 0,
    }
}

impl Cell {
    /// 1 for a live cell, 0 for an empty one.
    pub fn count(&self) -> (r: u32)
        ensures
            r == alive_value(*self),
    {
        match self {
            Cell::Alive => 1,
            Cell::Empty => 0,
        }
    }
}

/// The value of the cell at `(x, y, z)`.
pub open spec fn value_at(cells: Seq<Cell>, d: Vec3, x: int, y: int, z: int) -> nat {
    alive_value(cells[offset_of(d, x, y, z)]) as nat
}

/// The sum of the first `k` of the 27 positions of the 3x3x3 cube around
/// `(x, y, z)`, taken with x fastest and z slowest, leaving out the centre
/// (the 14th).
pub open spec fn neighbor_sum(cells: Seq<Cell>, d: Vec3, x: int, y: int, z: int, k: nat) -> nat
    decreases k,
{
    if k == 0 {
        0
    } else {
        let j = k - 1;
        let here = if j == 13 {
            0
        } else {
            value_at(cells, d, x - 1 + j % 3, y - 1 + (j / 3) % 3, z - 1 + j / 9)
        };
        neighbor_sum(cells, d, x, y, z, j as nat) + here
    }
}

/// The number of live cells among the 26 around `(x, y, z)`; a cell on a
/// face of the grid counts none.
pub open spec fn neighbor_count(cells: Seq<Cell>, d: Vec3, x: int, y: int, z: int) -> nat {
    if on_boundary(d, x, y, z) {
        0
    } else {
        neighbor_sum(cells, d, x, y, z, 27)
    }
}

/// The next state of the cell at offset `i`: a cell on a face becomes
/// empty; any other is alive exactly when the rule, run from the output 0,
/// leaves a value other than 0.
pub open spec fn next_cell(rule: Statement, cells: Seq<Cell>, d: Vec3, i: int) -> Cell {
    let x = x_of(d, i);
    let y = y_of(d, i);
    let z = z_of(d, i);
    if on_boundary(d, x, y, z) {
        Cell::Empty
    } else if eval_statement(
        rule,
        alive_value(cells[i]),
        neighbor_count(cells, d, x, y, z) as u32,
        0,
    ) != 0 {
        Cell::Alive
    } else {
        Cell::Empty
    }
}

/// The generation that follows `cells` under `rule`.
pub open spec fn next_generation(rule: Statement, cells: Seq<Cell>, d: Vec3) -> Seq<Cell> {
    Seq::new(cells.len(), |i: int| next_cell(rule, cells, d, i))
}

/// An offset within the grid is below its volume, and so are its parts.
pub proof fn lemma_offset_bounds(d: Vec3, x: int, y: int, z: int)
    requires
        contains(d, x, y, z),
    ensures
        0 <= y * d.x + x < d.x * d.y,
        0 <= z * (d.x * d.y),
        0 <= offset_of(d, x, y, z) < volume(d),
        d.x * d.y <= volume(d),
{
    let a = d.x as int;
    let b = d.y as int;
    let c = d.z as int;
    assert(0 <= y * a + x < a * b) by (nonlinear_arith)
        requires
            0 <= x < a,
            0 <= y < b,
    ;
    assert(0 <= z * (a * b) + (y * a + x) < a * b * c) by (nonlinear_arith)
        requires
            0 <= y * a + x < a * b,
            0 <= z < c,
    ;
    assert(0 <= z * (a * b)) by (nonlinear_arith)
        requires
            0 <= z,
            0 <= a * b,
    ;
    assert(a * b <= a * b * c) by (nonlinear_arith)
        requires
            0 <= a * b,
            1 <= c,
    ;
}

/// Each offset below the volume is the offset of exactly the position
/// that `x_of`, `y_of` and `z_of` give.
pub proof fn lemma_position_of_offset(d: Vec3, i: int)
    requires
        0 <= i < volume(d),
    ensures
        d.x > 0,
        d.y > 0,
        d.z > 0,
        contains(d, x_of(d, i), y_of(d, i), z_of(d, i)),
        offset_of(d, x_of(d, i), y_of(d, i), z_of(d, i)) == i,
{
    let a = d.x as int;
    let b = d.y as int;
    let c = d.z as int;
    assert(a > 0 && b > 0 && c > 0) by (nonlinear_arith)
        requires
            0 <= a,
            0 <= b,
            0 <= c,
            0 <= i < a * b * c,
    ;
    let q = i / a;
    lemma_fundamental_div_mod(i, a);
    lemma_fundamental_div_mod(q, b);
    assert(a * b * c == a * (b * c)) by (nonlinear_arith);
    lemma_multiply_divide_lt(i, a, b * c);
    lemma_multiply_divide_lt(q, b, c);
    let x = i % a;
    let y = q % b;
    let z = q / b;
    assert(0 <= q) by (nonlinear_arith)
        requires
            0 <= i,
            0 < a,
            q == i / a,
    ;
    assert(z * (a * b) + y * a + x == i) by (nonlinear_arith)
        requires
            i == a * q + x,
            q == b * z + y,
    ;
}

/// The row-major offset of `pos` in a grid with extents `d`.
pub fn offset(d: Vec3, pos: Vec3) -> (r: usize)
    requires
        addressable(d),
        contains(d, pos.x as int, pos.y as int, pos.z as int),
    ensures
        r == offset_of(d, pos.x as int, pos.y as int, pos.z as int),
        r < volume(d),
{
    proof {
        lemma_offset_bounds(d, pos.x as int, pos.y as int, pos.z as int);
    }
    let layer = d.x * d.y;
    pos.z * layer + pos.y * d.x + pos.x
}

/// The position of the cell at offset `i`.
pub fn position(d: Vec3, i: usize) -> (r: Vec3)
    requires
        i < volume(d),
    ensures
        r.x == x_of(d, i as int),
        r.y == y_of(d, i as int),
        r.z == z_of(d, i as int),
        contains(d, r.x as int, r.y as int, r.z as int),
        offset_of(d, r.x as int, r.y as int, r.z as int) == i,
{
    proof {
        lemma_position_of_offset(d, i as int);
    }
    let row = i / d.x;
    Vec3 { x: i % d.x, y: row % d.y, z: row / d.y }
}

/// Whether `pos` lies on a face of the grid.
pub fn is_boundary(d: Vec3, pos: Vec3) -> (r: bool)
    requires
        contains(d, pos.x as int, pos.y as int, pos.z as int),
    ensures
        r == on_boundary(d, pos.x as int, pos.y as int, pos.z as int),
{
    pos.x == 0 || pos.x == d.x - 1 || pos.y == 0 || pos.y == d.y - 1 || pos.z == 0 || pos.z
        == d.z - 1
}

/// The number of live cells among the 26 around `pos`; 0 on a face.
pub fn count_neighbors(cells: &Vec<Cell>, d: Vec3, pos: Vec3) -> (r: u32)
    requires
        addressable(d),
        cells@.len() == volume(d),
        contains(d, pos.x as int, pos.y as int, pos.z as int),
    ensures
        r == neighbor_count(cells@, d, pos.x as int, pos.y as int, pos.z as int),
        r <= 26,
{
    if is_boundary(d, pos) {
        return 0;
    }
    let mut sum: u32 = 0;
    let mut k: usize = 0;
    while k < 27
        invariant
            k <= 27,
            sum == neighbor_sum(cells@, d, pos.x as int, pos.y as int, pos.z as int, k as nat),
            sum <= k,
            k > 13 ==> sum < k,
            addressable(d),
            cells@.len() == volume(d),
            contains(d, pos.x as int, pos.y as int, pos.z as int),
            !on_boundary(d, pos.x as int, pos.y as int, pos.z as int),
        decreases 27 - k,
    {
        if k != 13 {
            let at = Vec3 { x: pos.x - 1 + k % 3, y: pos.y - 1 + (k / 3) % 3, z: pos.z - 1 + k / 9 };
            let i = offset(d, at);
            sum = sum + cells[i].count();
        }
        k = k + 1;
    }
    sum
}

/// The number of cells of a grid with extents `d`.
pub fn volume_of(d: Vec3) -> (r: usize)
    requires
        addressable(d),
    ensures
        r == volume(d),
{
    if d.x == 0 || d.y == 0 || d.z == 0 {
        assert(volume(d) == 0) by (nonlinear_arith)
            requires
                d.x == 0 || d.y == 0 || d.z == 0,
        ;
        0
    } else {
        assert(d.x * d.y <= volume(d)) by (nonlinear_arith)
            requires
                d.z >= 1,
                d.x * d.y >= 0,
        ;
        d.x * d.y * d.z
    }
}

/// The next state of the cell at offset `i` of `cells` under `rule`.
pub fn next_state(rule: &Statement, cells: &Vec<Cell>, d: Vec3, i: usize) -> (r: Cell)
    requires
        addressable(d),
        cells@.len() == volume(d),
        i < volume(d),
    ensures
        r == next_cell(*rule, cells@, d, i as int),
{
    let pos = position(d, i);
    if is_boundary(d, pos) {
        Cell::Empty
    } else {
        let neighbors = count_neighbors(cells, d, pos);
        if rule.run(cells[i].count(), neighbors, 0) != 0 {
            Cell::Alive
        } else {
            Cell::Empty
        }
    }
}

/// The device representation of a generation: 1 for each live cell, 0 for
/// each empty one.
pub fn cell_words(cells: &Vec<Cell>) -> (r: Vec<u32>)
    ensures
        r@ == cells@.map_values(|c: Cell| alive_value(c)),
{
    let mut words: Vec<u32> = Vec::new();
    let mut i: usize = 0;
    while i < cells.len()
        invariant
            i <= cells@.len(),
            words@ == cells@.subrange(0, i as int).map_values(|c: Cell| alive_value(c)),
        decreases cells@.len() - i,
    {
        words.push(cells[i].count());
        i = i + 1;
        assert(words@ =~= cells@.subrange(0, i as int).map_values(|c: Cell| alive_value(c)));
    }
    assert(cells@.subrange(0, i as int) =~= cells@);
    words
}

/// The cell that a device word stands for: alive when it is not 0.
pub open spec fn cell_of_word(w: u32) -> Cell {
    if w != 0 {
        Cell::Alive
    } else {
        Cell::Empty
    }
}

/// A generation read back from the device.
pub fn cells_of_words(words: &Vec<u32>) -> (r: Vec<Cell>)
    ensures
        r@ == words@.map_values(|w: u32| cell_of_word(w)),
{
    let mut cells: Vec<Cell> = Vec::new();
    let mut i: usize = 0;
    while i < words.len()
        invariant
            i <= words@.len(),
            cells@ == words@.subrange(0, i as int).map_values(|w: u32| cell_of_word(w)),
        decreases words@.len() - i,
    {
        let c = if words[i] != 0 {
            Cell::Alive
        } else {
            Cell::Empty
        };
        cells.push(c);
        i = i + 1;
        assert(cells@ =~= words@.subrange(0, i as int).map_values(|w: u32| cell_of_word(w)));
    }
    assert(words@.subrange(0, i as int) =~= words@);
    cells
}

/// The coordinates of the cell at the offset of `(x, y, z)` are `(x, y, z)`.
pub proof fn lemma_offset_of_position(d: Vec3, x: int, y: int, z: int)
    requires
        contains(d, x, y, z),
    ensures
        x_of(d, offset_of(d, x, y, z)) == x,
        y_of(d, offset_of(d, x, y, z)) == y,
        z_of(d, offset_of(d, x, y, z)) == z,
{
    let a = d.x as int;
    let b = d.y as int;
    let i = offset_of(d, x, y, z);
    let q = z * b + y;
    assert(i == q * a + x) by (nonlinear_arith)
        requires
            i == z * (a * b) + y * a + x,
            q == z * b + y,
    ;
    lemma_fundamental_div_mod_converse(i, a, q, x);
    lemma_fundamental_div_mod_converse(q, b, z, y);
}

/// Whatever the rule and the cells, every cell on a face of the grid is
/// empty in the next generation.
pub proof fn lemma_faces_empty_in_next_generation(
    rule: Statement,
    cells: Seq<Cell>,
    d: Vec3,
    x: int,
    y: int,
    z: int,
)
    requires
        cells.len() == volume(d),
        contains(d, x, y, z),
        on_boundary(d, x, y, z),
    ensures
        next_generation(rule, cells, d)[offset_of(d, x, y, z)] == Cell::Empty,
{
    lemma_offset_bounds(d, x, y, z);
    lemma_offset_of_position(d, x, y, z);
}

} // verus!
