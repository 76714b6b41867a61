//! Placing food on a free cell of the board.
use rand::Rng;
use std::collections::VecDeque;
use vstd::prelude::*;
use vstd::arithmetic::div_mod::{lemma_fundamental_div_mod, lemma_fundamental_div_mod_converse};
use crate::grid::{cell_index, in_bounds, lemma_cell_index_range, Coord, GRID_HEIGHT, GRID_WIDTH};
use crate::snake::occupies;

verus! {

/// Random draws made before food placement switches to counting free cells.
pub const SPAWN_ATTEMPTS: u32 = 64;

/// Every cell of the board is covered by `body`.
pub open spec fn board_full(body: Seq<Coord>) -> bool {
    forall|c: Coord| in_bounds(c) ==> #[trigger] body.contains(c)
}

/// `c` is a cell of the board that `body` leaves free.
pub open spec fn free_cell(body: Seq<Coord>, c: Coord) -> bool {
    in_bounds(c) && !body.contains(c)
}

/// The cell at row-major position `i`.
pub open spec fn cell_at(i: int) -> Coord {
    Coord { x: (i % (GRID_WIDTH as int)) as i32, y: (i / (GRID_WIDTH as int)) as i32 }
}

/// Number of free cells among the first `i` cells in row-major order.
pub open spec fn free_before(body: Seq<Coord>, i: int) -> nat
    decreases i,
{
    if i <= 0 {
        0
    } else {
        free_before(body, i - 1) + (if free_cell(body, cell_at(i - 1)) {
            1nat
        } else {
            0nat
        })
    }
}

/// Number of free cells on the board.
pub open spec fn free_count(body: Seq<Coord>) -> nat {
    free_before(body, GRID_WIDTH * GRID_HEIGHT)
}

/// Row-major position and cell correspond one to one on the board.
pub proof fn lemma_cell_at_index(c: Coord)
    requires
        in_bounds(c),
    ensures
        cell_at(cell_index(c)) == c,
{
    lemma_fundamental_div_mod_converse(cell_index(c), GRID_WIDTH as int, c.y as int, c.x as int);
}

/// Every position in `[0, GRID_WIDTH * GRID_HEIGHT)` names a cell of the
/// board, and that cell's position is the one it came from.
pub proof fn lemma_cell_at_in_bounds(i: int)
    requires
        0 <= i < GRID_WIDTH * GRID_HEIGHT,
    ensures
        in_bounds(cell_at(i)),
        cell_index(cell_at(i)) == i,
{
    lemma_fundamental_div_mod(i, GRID_WIDTH as int);
    let q = i / (GRID_WIDTH as int);
    let r = i % (GRID_WIDTH as int);
    assert(0 <= q < 20) by (nonlinear_arith)
        requires
            i == 30 * q + r,
            0 <= r < 30,
            0 <= i < 600,
    ;
}

/// Counting further along the board never finds fewer free cells.
pub proof fn lemma_free_before_mono(body: Seq<Coord>, i: int, j: int)
    requires
        i <= j,
    ensures
        free_before(body, i) <= free_before(body, j),
    decreases j - i,
{
    if i < j {
        lemma_free_before_mono(body, i, j - 1);
    }
}

/// A board with a free cell has a positive count of free cells.
pub proof fn lemma_free_cell_counted(body: Seq<Coord>, c: Coord)
    requires
        free_cell(body, c),
    ensures
        free_count(body) >= 1,
{
    lemma_cell_at_index(c);
    lemma_cell_index_range(c);
    lemma_free_before_mono(body, cell_index(c) + 1, GRID_WIDTH * GRID_HEIGHT);
}

/// Relies on rand::thread_rng and rand::Rng::gen_range: a value drawn from
/// `[0, bound)`; gen_range panics only on an empty range.
#[verifier::external_body]
fn random_below(bound: i32) -> (r: i32)
    requires
        bound > 0,
    ensures
        0 <= r < bound,
{
    rand::thread_rng().gen_range(0..bound)
}

/// The cell at column `x` and row `y` as a place for food: `Some` exactly when
/// it lies on the board and `body` leaves it free.
pub fn food_candidate(body: &VecDeque<Coord>, x: i32, y: i32) -> (r: Option<Coord>)
    ensures
        r == (if free_cell(body@, Coord { x, y }) {
            Some(Coord { x, y })
        } else {
            None::<Coord>
        }),
{
    let c = Coord { x, y };
    if c.in_bounds() && !occupies(body, c) {
        Some(c)
    } else {
        None
    }
}

/// The first free cell of the board in row-major order, or `None` when the
/// body covers the whole board.
pub fn first_free_cell(body: &VecDeque<Coord>) -> (r: Option<Coord>)
    ensures
        r is None <==> board_full(body@),
        r matches Some(c) ==> free_cell(body@, c),
        r matches Some(c) ==> forall|e: Coord| #[trigger]
            free_cell(body@, e) ==> cell_index(c) <= cell_index(e),
{
    let mut y: i32 = 0;
    while y < GRID_HEIGHT
        invariant
            0 <= y <= GRID_HEIGHT,
            forall|c: Coord| in_bounds(c) && c.y < y ==> #[trigger] body@.contains(c),
        decreases GRID_HEIGHT - y,
    {
        let mut x: i32 = 0;
        while x < GRID_WIDTH
            invariant
                0 <= y < GRID_HEIGHT,
                0 <= x <= GRID_WIDTH,
                forall|c: Coord|
                    in_bounds(c) && (c.y < y || (c.y == y && c.x < x)) ==> #[trigger] body@.contains(
                        c,
                    ),
            decreases GRID_WIDTH - x,
        {
            let c = Coord { x, y };
            if !occupies(body, c) {
                assert forall|e: Coord| #[trigger] free_cell(body@, e) implies cell_index(c)
                    <= cell_index(e) by {
                    assert(!(e.y < y || (e.y == y && e.x < x)));
                    assert(e.y * 30 + e.x >= y * 30 + x) by (nonlinear_arith)
                        requires
                            e.y > y || (e.y == y && e.x >= x),
                            0 <= x < 30,
                            0 <= e.x < 30,
                    ;
                }
                return Some(c);
            }
            x = x + 1;
        }
        y = y + 1;
    }
    None
}

/// The number of free cells on the board.
pub fn count_free_cells(body: &VecDeque<Coord>) -> (n: u32)
    ensures
        n == free_count(body@),
        n <= GRID_WIDTH * GRID_HEIGHT,
{
    let total: u32 = (GRID_WIDTH * GRID_HEIGHT) as u32;
    let mut n: u32 = 0;
    let mut i: u32 = 0;
    while i < total
        invariant
            total == GRID_WIDTH * GRID_HEIGHT,
            i <= total,
            n <= i,
            n == free_before(body@, i as int),
        decreases total - i,
    {
        proof {
            lemma_cell_at_in_bounds(i as int);
        }
        let c = Coord { x: (i % (GRID_WIDTH as u32)) as i32, y: (i / (GRID_WIDTH as u32)) as i32 };
        assert(c == cell_at(i as int));
        if !occupies(body, c) {
            n = n + 1;
        }
        i = i + 1;
    }
    n
}

/// The free cell that has exactly `k` free cells before it in row-major order.
pub fn nth_free_cell(body: &VecDeque<Coord>, k: u32) -> (r: Coord)
    requires
        k < free_count(body@),
    ensures
        free_cell(body@, r),
        free_before(body@, cell_index(r)) == k,
{
    let total: u32 = (GRID_WIDTH * GRID_HEIGHT) as u32;
    let mut seen: u32 = 0;
    let mut i: u32 = 0;
    while i < total
        invariant
            total == GRID_WIDTH * GRID_HEIGHT,
            i <= total,
            seen <= k,
            seen == free_before(body@, i as int),
        decreases total - i,
    {
        proof {
            lemma_cell_at_in_bounds(i as int);
        }
        let c = Coord { x: (i % (GRID_WIDTH as u32)) as i32, y: (i / (GRID_WIDTH as u32)) as i32 };
        assert(c == cell_at(i as int));
        if !occupies(body, c) {
            if seen == k {
                return c;
            }
            seen = seen + 1;
        }
        i = i + 1;
    }
    Coord { x: 0, y: 0 }
}

/// A free cell for the food, drawn uniformly at random from the board and
/// redrawn while it falls on the body; after `SPAWN_ATTEMPTS` failed draws
/// the free cells are counted and one of them is drawn uniformly. `None`
/// exactly when the body covers the whole board.
pub fn spawn_food(body: &VecDeque<Coord>) -> (r: Option<Coord>)
    ensures
        r is None <==> board_full(body@),
        r matches Some(c) ==> free_cell(body@, c),
{
    let any_free = first_free_cell(body);
    let witness = match any_free {
        Some(c) => c,
        None => {
            return None;
        },
    };
    let mut tries: u32 = 0;
    while tries < SPAWN_ATTEMPTS
        invariant
            tries <= SPAWN_ATTEMPTS,
        decreases SPAWN_ATTEMPTS - tries,
    {
        let x = random_below(GRID_WIDTH);
        let y = random_below(GRID_HEIGHT);
        let found = food_candidate(body, x, y);
        if found.is_some() {
            return found;
        }
        tries = tries + 1;
    }
    proof {
        lemma_free_cell_counted(body@, witness);
    }
    let n = count_free_cells(body);
    let k = random_below(n as i32);
    Some(nth_free_cell(body, k as u32))
}

} // verus!
