//! The cursor that hands out the steps of a tick one by one.

use vstd::prelude::*;
use crate::gravity::plan::{lemma_slot, plan, Step};

verus! {

/// The place of a tick within its plan.
pub struct TickCursor {
    bodies: usize,
    body: usize,
    column: usize,
    writing: bool,
}

impl TickCursor {
    /// The cursor is at a place of its plan, or at its end.
    pub closed spec fn wf(&self) -> bool {
        if self.writing {
            self.body <= self.bodies && self.column == 0
        } else {
            self.body < self.bodies && self.column < self.bodies
        }
    }

    /// The number of bodies the tick runs over.
    pub closed spec fn bodies(&self) -> nat {
        self.bodies as nat
    }

    /// The number of steps already handed out.
    pub closed spec fn position(&self) -> nat {
        if self.writing {
            (self.bodies * self.bodies + self.body) as nat
        } else {
            (self.body * self.bodies + self.column) as nat
        }
    }

    /// The cursor never runs past the end of its plan.
    pub proof fn lemma_within_plan(&self)
        requires
            self.wf(),
        ensures
            self.position() <= plan(self.bodies()).len(),
    {
        if !self.writing {
            lemma_slot(self.bodies as int, self.body as int, self.column as int);
        }
    }

    /// A cursor at the start of a tick over `bodies` bodies.
    pub fn start(bodies: usize) -> (cursor: Self)
        ensures
            cursor.wf(),
            cursor.bodies() == bodies,
            cursor.position() == 0,
    {
        let cursor = TickCursor { bodies, body: 0, column: 0, writing: bodies == 0 };
        assert(cursor.position() == 0) by (nonlinear_arith)
            requires
                cursor.body == 0,
                cursor.column == 0,
                cursor.writing ==> cursor.bodies == 0,
                cursor.position() == if cursor.writing {
                    (cursor.bodies * cursor.bodies + cursor.body) as nat
                } else {
                    (cursor.body * cursor.bodies + cursor.column) as nat
                },
        ;
        cursor
    }

    /// Hands out the next step of the plan and moves past it; `None` once
    /// the tick is complete, and from then on.
    pub fn next_step(&mut self) -> (step: Option<Step>)
        requires
            old(self).wf(),
        ensures
            final(self).wf(),
            final(self).bodies() == old(self).bodies(),
            old(self).position() < plan(old(self).bodies()).len() ==> step == Some(
                plan(old(self).bodies())[old(self).position() as int],
            ) && final(self).position() == old(self).position() + 1,
            old(self).position() >= plan(old(self).bodies()).len() ==> step.is_none()
                && final(self).position() == old(self).position(),
    {
        let bodies: usize = self.bodies;
        if self.writing {
            if self.body < bodies {
                let body: usize = self.body;
                self.body = body + 1;
                Some(Step::Commit { body })
            } else {
                None
            }
        } else {
            let body: usize = self.body;
            let column: usize = self.column;
            proof {
                lemma_slot(bodies as int, body as int, column as int);
            }
            if column + 1 < bodies {
                let source: usize = if column < body {
                    column
                } else {
                    column + 1
                };
                self.column = column + 1;
                Some(Step::Accumulate { body, source })
            } else {
                self.column = 0;
                if body + 1 < bodies {
                    self.body = body + 1;
                } else {
                    self.body = 0;
                    self.writing = true;
                }
                Some(Step::Stage { body })
            }
        }
    }
}

} // verus!
