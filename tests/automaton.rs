use automata::dispatch::{dispatch_chunks, Chunk, MAX_DISPATCH};
use automata::dsl::{
    alive, and, const_u32, equal, if_then_else, neighbors, or, set_result, Statement,
};
use automata::engine::{random_cells, Automata, BufferRole, DoubleBuffer};
use automata::grid::{
    cell_words, cells_of_words, count_neighbors, next_state, offset, position, volume_of, Cell,
    Vec3,
};

fn classic_rule() -> Statement {
    if_then_else(
        or(
            equal(neighbors(), const_u32(3)),
            and(equal(neighbors(), const_u32(2)), equal(alive(), const_u32(1))),
        ),
        set_result(const_u32(1)),
        set_result(const_u32(0)),
    )
}

fn grid_with(dim: Vec3, alive_at: &[(usize, usize, usize)]) -> Vec<Cell> {
    let mut cells = vec![Cell::Empty; dim.x * dim.y * dim.z];
    for &(x, y, z) in alive_at {
        cells[z * dim.x * dim.y + y * dim.x + x] = Cell::Alive;
    }
    cells
}

fn live_positions(a: &Automata) -> Vec<(usize, usize, usize)> {
    let d = a.dim();
    let mut out = Vec::new();
    for z in 0..d.z {
        for y in 0..d.y {
            for x in 0..d.x {
                if a.get(&Vec3::new(x, y, z)) == Cell::Alive {
                    out.push((x, y, z));
                }
            }
        }
    }
    out
}

fn patterned(dim: Vec3) -> Vec<Cell> {
    let n = dim.x * dim.y * dim.z;
    (0..n)
        .map(|i| if (i * 7 + i / 3) % 5 < 2 { Cell::Alive } else { Cell::Empty })
        .collect()
}

#[test]
fn offsets_are_row_major_with_layers() {
    let dim = Vec3::new(3, 4, 5);
    assert_eq!(offset(dim, Vec3::new(0, 0, 0)), 0);
    assert_eq!(offset(dim, Vec3::new(1, 2, 3)), 43);
    assert_eq!(offset(dim, Vec3::new(2, 3, 4)), 59);
    let a = Automata::from_cells(&dim, vec![Cell::Empty; 60], set_result(const_u32(0)));
    assert_eq!(a.offset(&Vec3::new(1, 2, 3)), 43);
    let p = position(dim, 43);
    assert_eq!(p, Vec3::new(1, 2, 3));
    assert_eq!(volume_of(dim), 60);
    assert_eq!(volume_of(Vec3::new(5, 0, 7)), 0);
    assert_eq!(a.size(), 60);
}

#[test]
fn neighbor_counts_match_enumeration() {
    let dim = Vec3::new(5, 5, 5);
    let centre = Vec3::new(2, 2, 2);
    let rule = set_result(const_u32(0));

    let none = Automata::from_cells(&dim, grid_with(dim, &[(2, 2, 2)]), rule.clone());
    assert_eq!(none.neighbors(&centre), 0);

    let one = Automata::from_cells(&dim, grid_with(dim, &[(1, 2, 3)]), rule.clone());
    assert_eq!(one.neighbors(&centre), 1);

    let corners: Vec<(usize, usize, usize)> = [1, 3]
        .iter()
        .flat_map(|&x| [1, 3].iter().flat_map(move |&y| [1, 3].iter().map(move |&z| (x, y, z))))
        .collect();
    let eight = Automata::from_cells(&dim, grid_with(dim, &corners), rule.clone());
    assert_eq!(eight.neighbors(&centre), 8);

    let mut cube = Vec::new();
    for x in 1..4 {
        for y in 1..4 {
            for z in 1..4 {
                if (x, y, z) != (2, 2, 2) {
                    cube.push((x, y, z));
                }
            }
        }
    }
    let all = Automata::from_cells(&dim, grid_with(dim, &cube), rule.clone());
    assert_eq!(all.neighbors(&centre), 26);
    cube.push((2, 2, 2));
    let with_self = Automata::from_cells(&dim, grid_with(dim, &cube), rule.clone());
    assert_eq!(with_self.neighbors(&centre), 26);
    assert_eq!(count_neighbors(with_self.current(), dim, centre), 26);
}

#[test]
fn cells_on_faces_count_no_neighbors() {
    let dim = Vec3::new(4, 4, 4);
    let full = Automata::from_cells(&dim, vec![Cell::Alive; 64], set_result(const_u32(1)));
    assert_eq!(full.neighbors(&Vec3::new(0, 1, 1)), 0);
    assert_eq!(full.neighbors(&Vec3::new(1, 3, 1)), 0);
    assert_eq!(full.neighbors(&Vec3::new(1, 1, 3)), 0);
    assert_eq!(full.neighbors(&Vec3::new(1, 1, 1)), 26);
}

#[test]
fn faces_are_empty_after_a_step() {
    let dim = Vec3::new(5, 4, 6);
    let mut a = Automata::new(&dim, 1, 1, set_result(const_u32(1)));
    assert!(a.current().iter().all(|c| *c == Cell::Alive));
    a.update();
    for z in 0..dim.z {
        for y in 0..dim.y {
            for x in 0..dim.x {
                let face = x == 0 || x == 4 || y == 0 || y == 3 || z == 0 || z == 5;
                let expected = if face { Cell::Empty } else { Cell::Alive };
                assert_eq!(a.get(&Vec3::new(x, y, z)), expected);
            }
        }
    }
    let mut b = Automata::new(&dim, 1, 2, classic_rule());
    b.update();
    for z in 0..dim.z {
        for y in 0..dim.y {
            for x in 0..dim.x {
                if x == 0 || x == 4 || y == 0 || y == 3 || z == 0 || z == 5 {
                    assert_eq!(b.get(&Vec3::new(x, y, z)), Cell::Empty);
                }
            }
        }
    }
}

#[test]
fn identical_runs_give_identical_generations() {
    let dim = Vec3::new(6, 7, 5);
    let mut a = Automata::from_cells(&dim, patterned(dim), classic_rule());
    let mut b = Automata::from_cells(&dim, patterned(dim), classic_rule());
    for _ in 0..4 {
        a.update();
        b.update();
        assert_eq!(a.current(), b.current());
    }
}

#[test]
fn glider_moves_one_generation() {
    let dim = Vec3::new(5, 5, 3);
    let glider = [(2, 1, 1), (3, 2, 1), (1, 3, 1), (2, 3, 1), (3, 3, 1)];
    let mut a = Automata::from_cells(&dim, grid_with(dim, &glider), classic_rule());
    a.update();
    // The glider's next phase, less the cell it grows onto the face y = 4.
    assert_eq!(live_positions(&a), vec![(1, 2, 1), (3, 2, 1), (2, 3, 1), (3, 3, 1)]);
}

#[test]
fn small_dispatches_give_the_same_generation() {
    let dim = Vec3::new(7, 6, 5);
    let mut whole = Automata::from_cells(&dim, patterned(dim), classic_rule());
    let mut ones = Automata::from_cells(&dim, patterned(dim), classic_rule());
    let mut sevens = Automata::from_cells(&dim, patterned(dim), classic_rule());
    ones.set_max_dispatch(1);
    sevens.set_max_dispatch(7);
    assert_eq!(whole.dispatch_plan().len(), 1);
    assert_eq!(ones.dispatch_plan().len(), 210);
    assert_eq!(sevens.dispatch_plan().len(), 30);
    for _ in 0..3 {
        whole.update();
        ones.update();
        sevens.update();
        assert_eq!(whole.current(), ones.current());
        assert_eq!(whole.current(), sevens.current());
    }
}

#[test]
fn step_exposes_the_written_buffer() {
    let dim = Vec3::new(5, 5, 3);
    let glider = [(2, 1, 1), (3, 2, 1), (1, 3, 1), (2, 3, 1), (3, 3, 1)];
    let mut a = Automata::from_cells(&dim, grid_with(dim, &glider), classic_rule());
    assert_eq!(a.role(), BufferRole::PingCurrent);
    assert_eq!(a.role().read_slot(), 0);
    assert_eq!(a.role().write_slot(), 1);
    let before = a.current().clone();
    assert!(a.writable().iter().all(|c| *c == Cell::Empty));
    a.update();
    assert_eq!(a.iteration(), 1);
    assert_eq!(a.role(), BufferRole::PongCurrent);
    assert_eq!(a.role().read_slot(), 1);
    assert_ne!(a.current(), &before);
    assert_eq!(a.writable(), &before);
    a.update();
    assert_eq!(a.iteration(), 2);
    assert_eq!(a.role(), BufferRole::PingCurrent);
}

#[test]
fn set_writes_only_the_writable_buffer() {
    let dim = Vec3::new(3, 3, 3);
    let mut a = Automata::from_cells(&dim, vec![Cell::Empty; 27], classic_rule());
    a.set(&Vec3::new(1, 1, 1), Cell::Alive);
    assert_eq!(a.get(&Vec3::new(1, 1, 1)), Cell::Empty);
    assert_eq!(a.writable()[13], Cell::Alive);
}

#[test]
fn double_buffer_swaps_roles() {
    let mut b = DoubleBuffer::new(vec![Cell::Alive, Cell::Empty]);
    assert_eq!(b.read(), &vec![Cell::Alive, Cell::Empty]);
    b.write(1, Cell::Alive);
    assert_eq!(b.read(), &vec![Cell::Alive, Cell::Empty]);
    b.next();
    assert_eq!(b.read(), &vec![Cell::Empty, Cell::Alive]);
    assert_eq!(b.role(), BufferRole::PongCurrent);
    assert_eq!(b.role().toggle(), BufferRole::PingCurrent);
}

#[test]
fn chunks_split_the_index_space() {
    assert_eq!(
        dispatch_chunks(10, 4),
        vec![
            Chunk { offset: 0, count: 4 },
            Chunk { offset: 4, count: 4 },
            Chunk { offset: 8, count: 2 }
        ]
    );
    assert_eq!(dispatch_chunks(8, 4).len(), 2);
    assert!(dispatch_chunks(0, 4).is_empty());
    assert_eq!(dispatch_chunks(3, MAX_DISPATCH), vec![Chunk { offset: 0, count: 3 }]);
    let big = dispatch_chunks(2 * MAX_DISPATCH + 1, MAX_DISPATCH);
    assert_eq!(big.len(), 3);
    assert_eq!(big[2], Chunk { offset: 2 * MAX_DISPATCH, count: 1 });
    let a = Automata::from_cells(&Vec3::new(2, 2, 2), vec![Cell::Empty; 8], classic_rule());
    assert_eq!(a.max_dispatch(), MAX_DISPATCH);
}

#[test]
fn seeding_respects_certain_probabilities() {
    let none = random_cells(500, 0, 7);
    assert_eq!(none.len(), 500);
    assert!(none.iter().all(|c| *c == Cell::Empty));
    let all = random_cells(500, 7, 7);
    assert!(all.iter().all(|c| *c == Cell::Alive));
    let a = Automata::new(&Vec3::new(4, 4, 4), 0, 1, classic_rule());
    assert_eq!(a.current().len(), 64);
    assert!(a.current().iter().all(|c| *c == Cell::Empty));
    assert_eq!(a.iteration(), 0);
}

#[test]
fn device_words_round_trip() {
    let cells = vec![Cell::Alive, Cell::Empty, Cell::Alive];
    let words = cell_words(&cells);
    assert_eq!(words, vec![1, 0, 1]);
    assert_eq!(cells_of_words(&words), cells);
    assert_eq!(cells_of_words(&vec![0, 5, 1]), vec![Cell::Empty, Cell::Alive, Cell::Alive]);
    assert_eq!(Cell::Alive.count(), 1);
    assert_eq!(Cell::Empty.count(), 0);
}

#[test]
fn next_state_follows_the_rule() {
    let dim = Vec3::new(5, 5, 3);
    let cells = grid_with(dim, &[(1, 1, 1), (2, 1, 1), (3, 1, 1)]);
    let rule = classic_rule();
    assert_eq!(next_state(&rule, &cells, dim, offset(dim, Vec3::new(2, 2, 1))), Cell::Alive);
    assert_eq!(next_state(&rule, &cells, dim, offset(dim, Vec3::new(2, 1, 1))), Cell::Alive);
    assert_eq!(next_state(&rule, &cells, dim, offset(dim, Vec3::new(1, 1, 1))), Cell::Empty);
    assert_eq!(next_state(&rule, &cells, dim, offset(dim, Vec3::new(2, 0, 1))), Cell::Empty);
}
