//! The forces of a tick cancel, so a tick keeps the momentum of the bodies.

use vstd::prelude::*;
use crate::gravity::plan::{lemma_slot, lemma_slot_parts, plan, reach, read_step, Step};

verus! {

/// What `step` adds to the sum of all the forces of a tick, where
/// `pull(on, from)` is the force on body `on` that comes from body `from`,
/// along one axis and in exact arithmetic.
pub open spec fn step_pull(step: Step, pull: spec_fn(int, int) -> int) -> int {
    match step {
        Step::Accumulate { body, source } => pull(body as int, source as int),
        Step::Stage { .. } => 0,
        Step::Commit { .. } => 0,
    }
}

/// The sum of all the forces that `steps` add up.
pub open spec fn net_pull(steps: Seq<Step>, pull: spec_fn(int, int) -> int) -> int
    decreases steps.len(),
{
    if steps.len() == 0 {
        0
    } else {
        net_pull(steps.drop_last(), pull) + step_pull(steps.last(), pull)
    }
}

/// The pull on `body` of the bodies before `limit`, itself left out.
spec fn row(pull: spec_fn(int, int) -> int, body: int, limit: int) -> int
    decreases limit,
{
    if limit <= 0 {
        0
    } else {
        row(pull, body, limit - 1) + if limit - 1 != body {
            pull(body, limit - 1)
        } else {
            0
        }
    }
}

/// The pull of `source` on the bodies before `limit`.
spec fn column(pull: spec_fn(int, int) -> int, limit: int, source: int) -> int
    decreases limit,
{
    if limit <= 0 {
        0
    } else {
        column(pull, limit - 1, source) + pull(limit - 1, source)
    }
}

/// The pull on the bodies before `rows` of the bodies before `limit`.
spec fn grid(pull: spec_fn(int, int) -> int, rows: int, limit: int) -> int
    decreases rows,
{
    if rows <= 0 {
        0
    } else {
        grid(pull, rows - 1, limit) + row(pull, rows - 1, limit)
    }
}

/// The sum of the forces that the first `upto` steps of a plan add up.
spec fn tally(pull: spec_fn(int, int) -> int, bodies: int, upto: int) -> int {
    if upto >= bodies * bodies {
        grid(pull, bodies, bodies)
    } else {
        grid(pull, upto / bodies, bodies) + row(
            pull,
            upto / bodies,
            reach(upto / bodies, upto % bodies),
        )
    }
}

proof fn lemma_grid_widens(pull: spec_fn(int, int) -> int, rows: int, limit: int)
    requires
        0 <= rows <= limit,
    ensures
        grid(pull, rows, limit + 1) == grid(pull, rows, limit) + column(pull, rows, limit),
    decreases rows,
{
    if rows > 0 {
        lemma_grid_widens(pull, rows - 1, limit);
        assert(row(pull, rows - 1, limit + 1) == row(pull, rows - 1, limit) + pull(
            rows - 1,
            limit,
        ));
    }
}

proof fn lemma_row_meets_column(pull: spec_fn(int, int) -> int, bodies: int, body: int, limit: int)
    requires
        forall|a: int, b: int|
            0 <= a < bodies && 0 <= b < bodies ==> #[trigger] pull(a, b) == -pull(b, a),
        0 <= limit <= body < bodies,
    ensures
        row(pull, body, limit) + column(pull, limit, body) == 0,
    decreases limit,
{
    if limit > 0 {
        lemma_row_meets_column(pull, bodies, body, limit - 1);
        assert(pull(body, limit - 1) == -pull(limit - 1, body));
    }
}

proof fn lemma_grid_cancels(pull: spec_fn(int, int) -> int, bodies: int, rows: int)
    requires
        forall|a: int, b: int|
            0 <= a < bodies && 0 <= b < bodies ==> #[trigger] pull(a, b) == -pull(b, a),
        0 <= rows <= bodies,
    ensures
        grid(pull, rows, rows) == 0,
    decreases rows,
{
    if rows > 0 {
        let last = rows - 1;
        lemma_grid_cancels(pull, bodies, last);
        lemma_grid_widens(pull, last, last);
        lemma_row_meets_column(pull, bodies, last, last);
        assert(row(pull, last, rows) == row(pull, last, last));
    }
}

proof fn lemma_tally(bodies: nat, pull: spec_fn(int, int) -> int, upto: nat)
    requires
        bodies <= usize::MAX,
        upto <= plan(bodies).len(),
    ensures
        net_pull(plan(bodies).subrange(0, upto as int), pull) == tally(
            pull,
            bodies as int,
            upto as int,
        ),
    decreases upto,
{
    let n = bodies as int;
    let steps = plan(bodies).subrange(0, upto as int);
    if upto == 0 {
        if n > 0 {
            lemma_slot(n, 0, 0);
        } else {
            assert(0 >= n * n) by (nonlinear_arith)
                requires
                    n == 0,
            ;
        }
    } else {
        let slot = upto - 1;
        lemma_tally(bodies, pull, slot as nat);
        assert(steps.drop_last() =~= plan(bodies).subrange(0, slot));
        assert(steps.last() == plan(bodies)[slot]);
        if slot < n * n {
            lemma_slot_parts(n, slot);
            let body = slot / n;
            let col = slot % n;
            assert(plan(bodies)[slot] == read_step(n, slot));
            if col < n - 1 {
                lemma_slot(n, body, col + 1);
                assert(upto == body * n + (col + 1));
                if col < body {
                } else if col == body {
                    assert(row(pull, body, body + 2) == row(pull, body, body + 1) + pull(
                        body,
                        body + 1,
                    ));
                    assert(row(pull, body, body + 1) == row(pull, body, body));
                } else {
                    assert(row(pull, body, col + 2) == row(pull, body, col + 1) + pull(
                        body,
                        col + 1,
                    ));
                }
            } else {
                lemma_slot(n, body, col);
                assert(upto == (body + 1) * n);
                assert(row(pull, body, reach(body, col)) == row(pull, body, n)) by {
                    if body == n - 1 {
                        assert(row(pull, body, n) == row(pull, body, n - 1));
                    }
                }
                if body + 1 < n {
                    lemma_slot(n, body + 1, 0);
                } else {
                    assert(upto == n * n);
                }
            }
        }
    }
}

/// The forces of a tick cancel: where the pull of one body on another is
/// the opposite of the pull of the second on the first, the forces that a
/// plan adds up come to nothing.  The momentum of the bodies changes by the
/// time step times that sum, so in exact arithmetic a tick keeps it.
pub proof fn lemma_pulls_cancel(bodies: nat, pull: spec_fn(int, int) -> int)
    requires
        bodies <= usize::MAX,
        forall|a: int, b: int|
            0 <= a < bodies && 0 <= b < bodies ==> #[trigger] pull(a, b) == -pull(b, a),
    ensures
        net_pull(plan(bodies), pull) == 0,
{
    lemma_tally(bodies, pull, plan(bodies).len());
    lemma_grid_cancels(pull, bodies as int, bodies as int);
    assert(plan(bodies).subrange(0, plan(bodies).len() as int) =~= plan(bodies));
}

} // verus!
