//! What the steps of a tick come to: one explicit Euler step.
//!
//! The arithmetic of forces and motion is left open here.  It is given as a
//! `Kernel` of functions, and what is proved holds of every kernel.

use vstd::prelude::*;
use crate::gravity::plan::{lemma_slot, lemma_slot_parts, plan, reach, read_step, Step};

verus! {

/// The arithmetic of a tick: what a force is, how forces add up, and what a
/// force does to a body.  `B` is the state of a body, `F` a force and `V` a
/// velocity.
#[verifier::reject_recursive_types(B)]
#[verifier::reject_recursive_types(F)]
#[verifier::reject_recursive_types(V)]
pub struct Kernel<B, F, V> {
    /// The total force on a body before any pull has been added to it.
    pub rest: F,
    /// The pull on the first body that comes from the second.
    pub pull: spec_fn(B, B) -> F,
    /// The total force with one more pull added to it.
    pub sum: spec_fn(F, F) -> F,
    /// The velocity of a body after the total force has acted on it for one
    /// time step.
    pub kick: spec_fn(B, F) -> V,
    /// The body after it has taken the velocity and moved at it for one time
    /// step.
    pub drift: spec_fn(B, V) -> B,
}

/// What a tick works on: the bodies, the total force on each as far as it
/// has been added up, and the velocity set aside for each.
pub struct TickState<B, F, V> {
    pub bodies: Seq<B>,
    pub totals: Seq<F>,
    pub staged: Seq<V>,
}

/// The state a tick starts from: the bodies as they are, no force added up
/// yet, and `staged` holding whatever it happens to hold.
pub open spec fn start_state<B, F, V>(
    kernel: Kernel<B, F, V>,
    bodies: Seq<B>,
    staged: Seq<V>,
) -> TickState<B, F, V> {
    TickState { bodies, totals: Seq::new(bodies.len(), |body: int| kernel.rest), staged }
}

/// The state after `step` has been done in `state`.
pub open spec fn do_step<B, F, V>(
    kernel: Kernel<B, F, V>,
    state: TickState<B, F, V>,
    step: Step,
) -> TickState<B, F, V> {
    match step {
        Step::Accumulate { body, source } => TickState {
            totals: state.totals.update(
                body as int,
                (kernel.sum)(
                    state.totals[body as int],
                    (kernel.pull)(state.bodies[body as int], state.bodies[source as int]),
                ),
            ),
            ..state
        },
        Step::Stage { body } => TickState {
            staged: state.staged.update(
                body as int,
                (kernel.kick)(state.bodies[body as int], state.totals[body as int]),
            ),
            ..state
        },
        Step::Commit { body } => TickState {
            bodies: state.bodies.update(
                body as int,
                (kernel.drift)(state.bodies[body as int], state.staged[body as int]),
            ),
            ..state
        },
    }
}

/// The state after all of `steps` have been done in `state`, first step
/// first.
pub open spec fn run<B, F, V>(
    kernel: Kernel<B, F, V>,
    state: TickState<B, F, V>,
    steps: Seq<Step>,
) -> TickState<B, F, V>
    decreases steps.len(),
{
    if steps.len() == 0 {
        state
    } else {
        do_step(kernel, run(kernel, state, steps.drop_last()), steps.last())
    }
}

/// The total force on `body` from the bodies before `limit`, added up in
/// registry order, `body` itself left out.
pub open spec fn total_force<B, F, V>(
    kernel: Kernel<B, F, V>,
    bodies: Seq<B>,
    body: int,
    limit: int,
) -> F
    decreases limit,
{
    if limit <= 0 {
        kernel.rest
    } else if limit - 1 == body {
        total_force(kernel, bodies, body, limit - 1)
    } else {
        (kernel.sum)(
            total_force(kernel, bodies, body, limit - 1),
            (kernel.pull)(bodies[body], bodies[limit - 1]),
        )
    }
}

/// The velocity of `body` after one time step under the pull of all the
/// other bodies.
pub open spec fn next_velocity<B, F, V>(kernel: Kernel<B, F, V>, bodies: Seq<B>, body: int) -> V {
    (kernel.kick)(bodies[body], total_force(kernel, bodies, body, bodies.len() as int))
}

/// The bodies after one explicit Euler step: each has taken the velocity
/// that the pull of all the others, as they were before the step, gives it,
/// and has moved at that velocity.
pub open spec fn euler_step<B, F, V>(kernel: Kernel<B, F, V>, bodies: Seq<B>) -> Seq<B> {
    Seq::new(
        bodies.len(),
        |body: int| (kernel.drift)(bodies[body], next_velocity(kernel, bodies, body)),
    )
}

/// What holds of the state once the first `upto` steps of the plan are done.
spec fn on_course<B, F, V>(
    kernel: Kernel<B, F, V>,
    bodies: Seq<B>,
    state: TickState<B, F, V>,
    upto: int,
) -> bool {
    let n = bodies.len() as int;
    let reading = upto < n * n;
    let body = if reading {
        upto / n
    } else {
        n
    };
    let written = if reading {
        0
    } else {
        upto - n * n
    };
    &&& state.bodies.len() == n
    &&& state.totals.len() == n
    &&& state.staged.len() == n
    &&& forall|i: int|
        0 <= i < n ==> #[trigger] state.bodies[i] == if i < written {
            euler_step(kernel, bodies)[i]
        } else {
            bodies[i]
        }
    &&& forall|i: int|
        0 <= i < n ==> #[trigger] state.totals[i] == if i < body {
            total_force(kernel, bodies, i, n)
        } else if i == body {
            total_force(kernel, bodies, i, reach(i, upto % n))
        } else {
            kernel.rest
        }
    &&& forall|i: int|
        0 <= i < body ==> #[trigger] state.staged[i] == next_velocity(kernel, bodies, i)
}

proof fn lemma_on_course<B, F, V>(
    kernel: Kernel<B, F, V>,
    bodies: Seq<B>,
    staged: Seq<V>,
    upto: nat,
)
    requires
        bodies.len() <= usize::MAX,
        staged.len() == bodies.len(),
        upto <= plan(bodies.len()).len(),
    ensures
        on_course(
            kernel,
            bodies,
            run(
                kernel,
                start_state(kernel, bodies, staged),
                plan(bodies.len()).subrange(0, upto as int),
            ),
            upto as int,
        ),
    decreases upto,
{
    let n = bodies.len() as int;
    let steps = plan(bodies.len()).subrange(0, upto as int);
    let state = run(kernel, start_state(kernel, bodies, staged), steps);
    if upto == 0 {
        if n > 0 {
            lemma_slot(n, 0, 0);
        } else {
            assert(0 >= n * n) by (nonlinear_arith)
                requires
                    n == 0,
            ;
        }
    } else {
        let slot = upto - 1;
        lemma_on_course(kernel, bodies, staged, slot as nat);
        let before = run(
            kernel,
            start_state(kernel, bodies, staged),
            plan(bodies.len()).subrange(0, slot),
        );
        assert(steps.drop_last() =~= plan(bodies.len()).subrange(0, slot));
        assert(steps.last() == plan(bodies.len())[slot]);
        assert(state == do_step(kernel, before, plan(bodies.len())[slot]));
        if slot < n * n {
            lemma_slot_parts(n, slot);
            let body = slot / n;
            let col = slot % n;
            assert(plan(bodies.len())[slot] == read_step(n, slot));
            if col < n - 1 {
                lemma_slot(n, body, col + 1);
                assert(upto == body * n + (col + 1));
                if col == body {
                    assert(total_force(kernel, bodies, body, body + 1) == total_force(
                        kernel,
                        bodies,
                        body,
                        body,
                    ));
                }
                assert(on_course(kernel, bodies, state, upto as int));
            } else {
                lemma_slot(n, body, col);
                assert(upto == (body + 1) * n);
                assert(total_force(kernel, bodies, body, reach(body, col)) == total_force(
                    kernel,
                    bodies,
                    body,
                    n,
                ));
                if body + 1 < n {
                    lemma_slot(n, body + 1, 0);
                } else {
                    assert(upto == n * n);
                }
                assert(on_course(kernel, bodies, state, upto as int));
            }
        } else {
            assert(on_course(kernel, bodies, state, upto as int));
        }
    }
}

/// A tick is one explicit Euler step.  Doing the steps of the plan in their
/// order leaves every body where the pull of all the others, computed from
/// where they were when the tick began, takes it in one time step,
/// whatever the arithmetic of forces and motion is, and whatever the
/// velocities set aside held before.
pub proof fn lemma_tick_is_euler_step<B, F, V>(
    kernel: Kernel<B, F, V>,
    bodies: Seq<B>,
    staged: Seq<V>,
)
    requires
        bodies.len() <= usize::MAX,
        staged.len() == bodies.len(),
    ensures
        run(kernel, start_state(kernel, bodies, staged), plan(bodies.len())).bodies == euler_step(
            kernel,
            bodies,
        ),
{
    let steps = plan(bodies.len());
    lemma_on_course(kernel, bodies, staged, steps.len());
    assert(steps.subrange(0, steps.len() as int) =~= steps);
    assert(run(kernel, start_state(kernel, bodies, staged), steps).bodies =~= euler_step(
        kernel,
        bodies,
    ));
}

} // verus!
