//! The plan of a tick: its steps, in the order in which they are done.

use vstd::prelude::*;
use vstd::arithmetic::div_mod::{
    lemma_fundamental_div_mod,
    lemma_fundamental_div_mod_converse,
    lemma_mod_bound,
};

verus! {

/// One unit of work within a tick.  Bodies are named by their index in the
/// registry.
#[derive(Clone, Copy, Debug, PartialEq, Eq, Structural)]
pub enum Step {
    /// Add the pull of `source` on `body` to the total force on `body`.
    Accumulate { body: usize, source: usize },
    /// Set aside the velocity that the total force on `body` gives it.
    Stage { body: usize },
    /// Give `body` the velocity set aside for it, and move it at that
    /// velocity for one time step.
    Commit { body: usize },
}

/// The `column`-th of the bodies other than `body`, in registry order.
pub open spec fn other_body(body: int, column: int) -> int {
    if column < body {
        column
    } else {
        column + 1
    }
}

/// The number of bodies that the first `column` steps of the row of `body`
/// have passed: those whose pull has been added up, and `body` itself once
/// its place among them has been passed over.
pub open spec fn reach(body: int, column: int) -> int {
    if column <= body {
        column
    } else {
        column + 1
    }
}

/// The `slot`-th step of the read pass over `bodies` bodies.  Each body
/// takes `bodies` slots in a row: one for each of the others, then the one
/// in which its velocity is set aside.
pub open spec fn read_step(bodies: int, slot: int) -> Step {
    let body = slot / bodies;
    let column = slot % bodies;
    if column < bodies - 1 {
        Step::Accumulate { body: body as usize, source: other_body(body, column) as usize }
    } else {
        Step::Stage { body: body as usize }
    }
}

/// The steps of one tick over `bodies` bodies, in the order in which they
/// are to be done: the read pass, then the write pass.
pub open spec fn plan(bodies: nat) -> Seq<Step> {
    Seq::new(bodies * bodies, |slot: int| read_step(bodies as int, slot)) + Seq::new(
        bodies,
        |body: int| Step::Commit { body: body as usize },
    )
}

/// Where in the plan the pull of `source` on `body` is added up.
pub open spec fn pair_slot(bodies: nat, body: nat, source: nat) -> int {
    body * bodies + if source < body {
        source as int
    } else {
        source - 1
    }
}

pub(crate) proof fn lemma_slot(bodies: int, body: int, column: int)
    requires
        0 <= body < bodies,
        0 <= column < bodies,
    ensures
        0 <= body * bodies + column < bodies * bodies,
        (body * bodies + column) / bodies == body,
        (body * bodies + column) % bodies == column,
        (body + 1) * bodies == body * bodies + bodies,
{
    assert(0 <= body * bodies && (body + 1) * bodies <= bodies * bodies && (body + 1) * bodies
        == body * bodies + bodies) by (nonlinear_arith)
        requires
            0 <= body < bodies,
    ;
    lemma_fundamental_div_mod_converse(body * bodies + column, bodies, body, column);
}

pub(crate) proof fn lemma_slot_parts(bodies: int, slot: int)
    requires
        0 <= bodies,
        0 <= slot < bodies * bodies,
    ensures
        0 <= slot / bodies < bodies,
        0 <= slot % bodies < bodies,
        slot == (slot / bodies) * bodies + slot % bodies,
{
    assert(bodies > 0) by (nonlinear_arith)
        requires
            0 <= bodies,
            0 <= slot < bodies * bodies,
    ;
    lemma_fundamental_div_mod(slot, bodies);
    lemma_mod_bound(slot, bodies);
    let q = slot / bodies;
    assert(0 <= q < bodies) by (nonlinear_arith)
        requires
            0 <= slot < bodies * bodies,
            slot == bodies * q + slot % bodies,
            0 <= slot % bodies < bodies,
    ;
    assert(bodies * q == q * bodies) by (nonlinear_arith);
}

/// A plan over `bodies` bodies has a slot for every ordered pair of distinct
/// bodies, one in which each body's velocity is set aside, and one in which
/// each body is written.
pub proof fn lemma_plan_len(bodies: nat)
    ensures
        plan(bodies).len() == bodies * (bodies - 1) + bodies + bodies,
{
    assert(bodies * bodies == bodies * (bodies - 1) + bodies) by (nonlinear_arith);
}

/// Every step of a plan names bodies of the registry, and no body is ever
/// asked to pull on itself.
pub proof fn lemma_steps_name_bodies(bodies: nat, slot: int)
    requires
        bodies <= usize::MAX,
        0 <= slot < plan(bodies).len(),
    ensures
        match plan(bodies)[slot] {
            Step::Accumulate { body, source } => body < bodies && source < bodies && body
                != source,
            Step::Stage { body } => body < bodies,
            Step::Commit { body } => body < bodies,
        },
{
    if slot < bodies * bodies {
        lemma_slot_parts(bodies as int, slot);
    }
}

/// No body is written before every force has been read: the steps of a plan
/// from its first `Commit` on are all `Commit`s, and they are its last
/// `bodies` steps.
pub proof fn lemma_reads_before_writes(bodies: nat)
    ensures
        forall|slot: int|
            0 <= slot < plan(bodies).len() ==> (#[trigger] plan(bodies)[slot] is Commit <==> slot
                >= bodies * bodies),
        forall|early: int, late: int|
            0 <= early < late < plan(bodies).len() && #[trigger] plan(bodies)[early] is Commit
                ==> #[trigger] plan(bodies)[late] is Commit,
{
    assert forall|slot: int| 0 <= slot < plan(bodies).len() implies (
    #[trigger] plan(bodies)[slot] is Commit <==> slot >= bodies * bodies) by {
        if slot < bodies * bodies {
            assert(plan(bodies)[slot] == read_step(bodies as int, slot));
        }
    }
}

/// The pull of each body on each other body is added up exactly once in a
/// tick, at `pair_slot`.
pub proof fn lemma_each_pair_once(bodies: nat, body: nat, source: nat)
    requires
        bodies <= usize::MAX,
        body < bodies,
        source < bodies,
        body != source,
    ensures
        0 <= pair_slot(bodies, body, source) < bodies * bodies,
        plan(bodies)[pair_slot(bodies, body, source)] == (Step::Accumulate {
            body: body as usize,
            source: source as usize,
        }),
        forall|slot: int|
            0 <= slot < plan(bodies).len() && #[trigger] plan(bodies)[slot] == (Step::Accumulate {
                body: body as usize,
                source: source as usize,
            }) ==> slot == pair_slot(bodies, body, source),
{
    let column: int = if source < body {
        source as int
    } else {
        source - 1
    };
    lemma_slot(bodies as int, body as int, column);
    assert forall|slot: int|
        0 <= slot < plan(bodies).len() && #[trigger] plan(bodies)[slot] == (Step::Accumulate {
            body: body as usize,
            source: source as usize,
        }) implies slot == pair_slot(bodies, body, source) by {
        assert(slot < bodies * bodies);
        lemma_slot_parts(bodies as int, slot);
    }
}

/// Pulls come in pairs: where a plan adds the pull of one body on another,
/// it also adds the pull of the second on the first.
pub proof fn lemma_pulls_are_mutual(bodies: nat, slot: int)
    requires
        bodies <= usize::MAX,
        0 <= slot < plan(bodies).len(),
        plan(bodies)[slot] is Accumulate,
    ensures
        0 <= pair_slot(
            bodies,
            plan(bodies)[slot]->source as nat,
            plan(bodies)[slot]->Accumulate_body as nat,
        ) < bodies * bodies,
        plan(bodies)[pair_slot(
            bodies,
            plan(bodies)[slot]->source as nat,
            plan(bodies)[slot]->Accumulate_body as nat,
        )] == (Step::Accumulate {
            body: plan(bodies)[slot]->source,
            source: plan(bodies)[slot]->Accumulate_body,
        }),
{
    lemma_steps_name_bodies(bodies, slot);
    lemma_each_pair_once(
        bodies,
        plan(bodies)[slot]->source as nat,
        plan(bodies)[slot]->Accumulate_body as nat,
    );
}

/// Each body's velocity is set aside exactly once, after every pull on that
/// body has been added up; and each body is written exactly once.
pub proof fn lemma_each_body_once(bodies: nat, body: nat)
    requires
        bodies <= usize::MAX,
        body < bodies,
    ensures
        plan(bodies)[body * bodies + bodies - 1] == (Step::Stage { body: body as usize }),
        plan(bodies)[(bodies * bodies + body) as int] == (Step::Commit { body: body as usize }),
        forall|slot: int|
            0 <= slot < plan(bodies).len() && #[trigger] plan(bodies)[slot] == (Step::Stage {
                body: body as usize,
            }) ==> slot == body * bodies + bodies - 1,
        forall|slot: int|
            0 <= slot < plan(bodies).len() && #[trigger] plan(bodies)[slot] == (Step::Commit {
                body: body as usize,
            }) ==> slot == bodies * bodies + body,
        forall|source: nat|
            source < bodies && source != body ==> #[trigger] pair_slot(bodies, body, source) < body
                * bodies + bodies - 1,
{
    lemma_slot(bodies as int, body as int, bodies - 1);
    assert forall|slot: int|
        0 <= slot < plan(bodies).len() && #[trigger] plan(bodies)[slot] == (Step::Stage {
            body: body as usize,
        }) implies slot == body * bodies + bodies - 1 by {
        assert(slot < bodies * bodies);
        lemma_slot_parts(bodies as int, slot);
    }
    assert forall|slot: int|
        0 <= slot < plan(bodies).len() && #[trigger] plan(bodies)[slot] == (Step::Commit {
            body: body as usize,
        }) implies slot == bodies * bodies + body by {
        if slot < bodies * bodies {
            assert(plan(bodies)[slot] == read_step(bodies as int, slot));
        }
    }
}

} // verus!
