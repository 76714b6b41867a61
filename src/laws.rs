//! Properties of the transition rule over all snakes, proved once for all.
use vstd::prelude::*;
use crate::grid::{in_bounds, neighbor, opposite, Coord, Direction};
use crate::snake::{body_after, body_wf, obstacles, outcome_of, Outcome};

verus! {

/// The body after a run of steps, each given by a heading and the food's cell
/// at that step.
pub open spec fn run(body: Seq<Coord>, steps: Seq<(Direction, Coord)>) -> Seq<Coord>
    decreases steps.len(),
{
    if steps.len() == 0 {
        body
    } else {
        run(body_after(body, steps[0].0, steps[0].1), steps.drop_first())
    }
}

/// How many steps of such a run end in eating.
pub open spec fn meals(body: Seq<Coord>, steps: Seq<(Direction, Coord)>) -> nat
    decreases steps.len(),
{
    if steps.len() == 0 {
        0
    } else {
        let ate: nat = if outcome_of(body, steps[0].0, steps[0].1) == Outcome::Ate {
            1
        } else {
            0
        };
        ate + meals(body_after(body, steps[0].0, steps[0].1), steps.drop_first())
    }
}

/// A step keeps the body well formed: in particular the head never leaves
/// the board, and a step whose target cell is off the board is death.
pub proof fn lemma_step_stays_on_board(body: Seq<Coord>, d: Direction, food: Coord)
    requires
        body_wf(body),
    ensures
        body_wf(body_after(body, d, food)),
        in_bounds(body_after(body, d, food)[0]),
        !in_bounds(neighbor(body[0], d)) ==> outcome_of(body, d, food) == Outcome::Died,
{
    let h = neighbor(body[0], d);
    let out = outcome_of(body, d, food);
    let nb = body_after(body, d, food);
    if out != Outcome::Died {
        let ob = obstacles(body, h == food);
        assert(nb =~= seq![h] + ob);
        assert forall|i: int| 0 <= i < nb.len() implies in_bounds(#[trigger] nb[i]) by {
            if i > 0 {
                assert(nb[i] == body[i - 1]);
            }
        }
        assert forall|i: int, j: int| 0 <= i < nb.len() && 0 <= j < nb.len() && i != j implies nb[i]
            != nb[j] by {
            if i == 0 {
                assert(ob[j - 1] == nb[j]);
            } else if j == 0 {
                assert(ob[i - 1] == nb[i]);
            } else {
                assert(body[i - 1] == ob[i - 1]);
                assert(body[j - 1] == ob[j - 1]);
            }
        }
    }
}

/// Stepping into a segment that stays put is death: any segment but the tail,
/// and the tail too when the step eats. Stepping onto the board into the
/// cell the tail leaves, without eating, is not.
pub proof fn lemma_collision_rule(body: Seq<Coord>, d: Direction, food: Coord)
    requires
        body_wf(body),
    ensures
        forall|i: int|
            0 <= i < body.len() - 1 && #[trigger] body[i] == neighbor(body[0], d) ==> outcome_of(
                body,
                d,
                food,
            ) == Outcome::Died,
        neighbor(body[0], d) == body.last() && neighbor(body[0], d) == food ==> outcome_of(
            body,
            d,
            food,
        ) == Outcome::Died,
        neighbor(body[0], d) == body.last() && neighbor(body[0], d) != food && in_bounds(
            neighbor(body[0], d),
        ) ==> outcome_of(body, d, food) == Outcome::Moved,
{
    let h = neighbor(body[0], d);
    assert forall|i: int| 0 <= i < body.len() - 1 && #[trigger] body[i] == h implies outcome_of(
        body,
        d,
        food,
    ) == Outcome::Died by {
        if h == food {
            assert(obstacles(body, true)[i] == h);
        } else {
            assert(obstacles(body, false)[i] == h);
        }
    }
    if h == body.last() {
        if h == food {
            assert(obstacles(body, true)[body.len() - 1] == h);
        } else {
            let ob = obstacles(body, false);
            if ob.contains(h) {
                let k = choose|k: int| 0 <= k < ob.len() && ob[k] == h;
                assert(body[k] == body[body.len() - 1]);
            }
        }
    }
}

/// Over any run of steps, the body grows by exactly one segment per meal and
/// keeps its length on every other step.
pub proof fn lemma_length_over_run(body: Seq<Coord>, steps: Seq<(Direction, Coord)>)
    requires
        body_wf(body),
    ensures
        run(body, steps).len() == body.len() + meals(body, steps),
        body_wf(run(body, steps)),
    decreases steps.len(),
{
    if steps.len() > 0 {
        let d = steps[0].0;
        let food = steps[0].1;
        lemma_step_stays_on_board(body, d, food);
        lemma_length_over_run(body_after(body, d, food), steps.drop_first());
    }
}

/// A heading that the turning rule accepts, one that does not reverse the
/// last step, never leads the head back into the cell it left on that step:
/// the snake cannot turn onto its own neck.
pub proof fn lemma_no_turn_into_neck(head: Coord, last: Direction, d: Direction)
    requires
        in_bounds(head),
        d != opposite(last),
    ensures
        neighbor(head, d) != neighbor(head, opposite(last)),
{
}

} // verus!
