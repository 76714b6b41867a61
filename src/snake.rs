//! The snake: its body, its heading, and the one-step transition rule.
use std::collections::VecDeque;
use vstd::prelude::*;
use vstd::set_lib::{lemma_int_range, lemma_len_subset, set_int_range};
use crate::laws::lemma_step_stays_on_board;
use crate::grid::{
    cell_index, in_bounds, lemma_cell_index_injective, lemma_cell_index_range, neighbor, opposite,
    Coord, Direction, GRID_HEIGHT, GRID_WIDTH,
};

verus! {

/// Column of the first segment: the middle of the board.
pub const START_X: i32 = 15;

/// Row of the first segment: the middle of the board.
pub const START_Y: i32 = 10;

/// What one step of the snake came to.
#[derive(Clone, Copy, Debug, PartialEq, Eq, Structural)]
pub enum Outcome {
    /// The snake moved one cell; its length is unchanged.
    Moved,
    /// The snake moved onto the food and grew by one cell.
    Ate,
    /// The step would leave the board or run into the body; nothing moved.
    Died,
}

/// A snake body is well formed when it has a head, every segment lies on the
/// board, and no two segments share a cell.
pub open spec fn body_wf(body: Seq<Coord>) -> bool {
    &&& body.len() >= 1
    &&& forall|i: int| 0 <= i < body.len() ==> in_bounds(#[trigger] body[i])
    &&& body.no_duplicates()
}

/// The cells that block the head's next step: the whole body when the snake
/// eats (its tail stays), else every segment but the tail, which moves away.
pub open spec fn obstacles(body: Seq<Coord>, eating: bool) -> Seq<Coord> {
    if eating {
        body
    } else {
        body.drop_last()
    }
}

/// Result of stepping the snake `body` in heading `d` with food at `food`.
pub open spec fn outcome_of(body: Seq<Coord>, d: Direction, food: Coord) -> Outcome {
    let h = neighbor(body[0], d);
    if !in_bounds(h) || obstacles(body, h == food).contains(h) {
        Outcome::Died
    } else if h == food {
        Outcome::Ate
    } else {
        Outcome::Moved
    }
}

/// The body after that step: unchanged on death, the new head prepended on
/// growth, else the new head prepended and the tail dropped.
pub open spec fn body_after(body: Seq<Coord>, d: Direction, food: Coord) -> Seq<Coord> {
    let h = neighbor(body[0], d);
    match outcome_of(body, d, food) {
        Outcome::Died => body,
        Outcome::Ate => seq![h] + body,
        Outcome::Moved => seq![h] + body.drop_last(),
    }
}

/// A well-formed body never has more segments than the board has cells.
pub proof fn lemma_body_len_bound(body: Seq<Coord>)
    requires
        body_wf(body),
    ensures
        body.len() <= GRID_WIDTH * GRID_HEIGHT,
{
    let idx = body.map_values(|c: Coord| cell_index(c));
    assert(idx.no_duplicates()) by {
        assert forall|i: int, j: int| 0 <= i < idx.len() && 0 <= j < idx.len() && i != j implies idx[i]
            != idx[j] by {
            if idx[i] == idx[j] {
                lemma_cell_index_injective(body[i], body[j]);
            }
        }
    }
    idx.unique_seq_to_set();
    assert(idx.to_set().subset_of(set_int_range(0, GRID_WIDTH * GRID_HEIGHT))) by {
        assert forall|k: int| idx.to_set().contains(k) implies set_int_range(
            0,
            GRID_WIDTH * GRID_HEIGHT,
        ).contains(k) by {
            let i = choose|i: int| 0 <= i < idx.len() && idx[i] == k;
            lemma_cell_index_range(body[i]);
        }
    }
    lemma_int_range(0, GRID_WIDTH * GRID_HEIGHT);
    lemma_len_subset(idx.to_set(), set_int_range(0, GRID_WIDTH * GRID_HEIGHT));
}

/// Whether one of the first `n` segments of `body` is the cell `c`.
pub fn hits_prefix(body: &VecDeque<Coord>, n: usize, c: Coord) -> (r: bool)
    requires
        n <= body@.len(),
    ensures
        r == body@.take(n as int).contains(c),
{
    let mut i: usize = 0;
    while i < n
        invariant
            n <= body@.len(),
            i <= n,
            forall|k: int| 0 <= k < i ==> body@[k] != c,
        decreases n - i,
    {
        if body[i] == c {
            assert(body@.take(n as int)[i as int] == c);
            return true;
        }
        i = i + 1;
    }
    assert(!body@.take(n as int).contains(c)) by {
        if body@.take(n as int).contains(c) {
            let k = choose|k: int| 0 <= k < n && body@.take(n as int)[k] == c;
            assert(body@[k] == c);
        }
    }
    false
}

/// Whether some segment of `body` is the cell `c`.
pub fn occupies(body: &VecDeque<Coord>, c: Coord) -> (r: bool)
    ensures
        r == body@.contains(c),
{
    let r = hits_prefix(body, body.len(), c);
    assert(body@.take(body@.len() as int) =~= body@);
    r
}

/// The snake: its segments, head first, the heading it will move in next,
/// and the heading of the step it took last.
pub struct Snake {
    pub body: VecDeque<Coord>,
    pub direction: Direction,
    /// Heading requests are judged against this one, so that no sequence of
    /// requests between two steps can turn the snake back onto its neck.
    pub last_step: Direction,
}

impl Snake {
    /// The snake's invariant: its body is well formed.
    pub open spec fn wf(&self) -> bool {
        body_wf(self.body@)
    }

    /// The snake a game starts with: one segment at the centre of the board,
    /// heading right.
    pub fn new() -> (r: Snake)
        ensures
            r.wf(),
            r.body@ == seq![Coord { x: START_X, y: START_Y }],
            r.direction == Direction::Right,
            r.last_step == Direction::Right,
    {
        let mut body: VecDeque<Coord> = VecDeque::new();
        body.push_back(Coord { x: START_X, y: START_Y });
        assert(body@ =~= seq![Coord { x: START_X, y: START_Y }]);
        Snake { body, direction: Direction::Right, last_step: Direction::Right }
    }

    /// A snake of the given segments, head first, moving in `direction`, which
    /// is also taken as the heading of its last step; `None` unless the
    /// segments form a well-formed body.
    pub fn from_cells(cells: Vec<Coord>, direction: Direction) -> (r: Option<Snake>)
        ensures
            r is Some <==> body_wf(cells@),
            r matches Some(s) ==> s.body@ == cells@ && s.direction == direction && s.last_step
                == direction,
    {
        if cells.len() == 0 {
            return None;
        }
        let mut body: VecDeque<Coord> = VecDeque::new();
        let mut i: usize = 0;
        while i < cells.len()
            invariant
                i <= cells@.len(),
                body@ == cells@.take(i as int),
                forall|k: int| 0 <= k < i ==> in_bounds(#[trigger] cells@[k]),
                cells@.take(i as int).no_duplicates(),
            decreases cells@.len() - i,
        {
            let c = cells[i];
            if !c.in_bounds() {
                return None;
            }
            if occupies(&body, c) {
                assert(!cells@.no_duplicates()) by {
                    let k = choose|k: int| 0 <= k < i && cells@.take(i as int)[k] == c;
                    assert(cells@[k] == cells@[i as int]);
                }
                return None;
            }
            body.push_back(c);
            assert(cells@.take(i + 1) =~= cells@.take(i as int).push(c));
            i = i + 1;
        }
        assert(cells@.take(cells@.len() as int) =~= cells@);
        Some(Snake { body, direction, last_step: direction })
    }

    /// The head segment.
    pub fn head(&self) -> (r: Coord)
        requires
            self.wf(),
        ensures
            r == self.body@[0],
    {
        self.body[0]
    }

    /// The number of segments.
    pub fn len(&self) -> (r: usize)
        ensures
            r == self.body@.len(),
    {
        self.body.len()
    }

    /// The segments, head first.
    pub fn segments(&self) -> (r: Vec<Coord>)
        ensures
            r@ == self.body@,
    {
        let mut v: Vec<Coord> = Vec::new();
        let mut i: usize = 0;
        while i < self.body.len()
            invariant
                i <= self.body@.len(),
                v@ == self.body@.take(i as int),
            decreases self.body@.len() - i,
        {
            v.push(self.body[i]);
            assert(self.body@.take(i + 1) =~= self.body@.take(i as int).push(self.body@[i as int]));
            i = i + 1;
        }
        assert(self.body@.take(self.body@.len() as int) =~= self.body@);
        v
    }

    /// Whether some segment lies on `c`.
    pub fn contains(&self, c: Coord) -> (r: bool)
        ensures
            r == self.body@.contains(c),
    {
        occupies(&self.body, c)
    }

    /// Asks for heading `d` before the next step. A request for the reverse of
    /// the heading of the last step is refused and leaves the pending heading
    /// as it was; any other replaces it. Of several requests between two steps
    /// the last one taken wins.
    pub fn turn(&mut self, d: Direction) -> (accepted: bool)
        ensures
            accepted == (d != opposite(old(self).last_step)),
            final(self).direction == (if accepted { d } else { old(self).direction }),
            final(self).last_step == old(self).last_step,
            final(self).body@ == old(self).body@,
    {
        if d == self.last_step.opposite() {
            false
        } else {
            self.direction = d;
            true
        }
    }

    /// Moves the snake one cell in its heading, with food lying at `food`.
    /// Leaving the board, or entering a cell that stays occupied (every
    /// segment but a tail that moves away), is death and changes nothing.
    /// Entering the food's cell grows the snake by one; any other step keeps
    /// its length. A step that is taken becomes the last step, and the cell
    /// behind the new head is the one the head left.
    pub fn move_forward(&mut self, food: Coord) -> (r: Outcome)
        requires
            old(self).wf(),
        ensures
            r == outcome_of(old(self).body@, old(self).direction, food),
            final(self).body@ == body_after(old(self).body@, old(self).direction, food),
            final(self).direction == old(self).direction,
            final(self).last_step == (if r == Outcome::Died {
                old(self).last_step
            } else {
                old(self).direction
            }),
            r != Outcome::Died ==> old(self).body@[0] == neighbor(
                final(self).body@[0],
                opposite(final(self).last_step),
            ),
            final(self).wf(),
    {
        let ghost body0 = self.body@;
        let head = self.body[0];
        let h = head.step(self.direction);
        if !h.in_bounds() {
            return Outcome::Died;
        }
        let eating = h == food;
        let n = if eating { self.body.len() } else { self.body.len() - 1 };
        assert(body0.take(n as int) =~= obstacles(body0, eating));
        if hits_prefix(&self.body, n, h) {
            return Outcome::Died;
        }
        self.body.push_front(h);
        if !eating {
            self.body.pop_back();
            assert(self.body@ =~= seq![h] + body0.drop_last());
        }
        assert(self.body@ =~= seq![h] + obstacles(body0, eating));
        proof {
            lemma_step_stays_on_board(body0, self.direction, food);
        }
        self.last_step = self.direction;
        if eating {
            Outcome::Ate
        } else {
            Outcome::Moved
        }
    }
}

} // verus!
