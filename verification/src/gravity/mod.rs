//! The order of work within one tick of the gravity integrator.
//!
//! A tick advances every body by one explicit Euler step under the pull of
//! all the others.  It has two passes.  The read pass visits the bodies in
//! turn: it adds up the pull of every other body on the one visited, and
//! sets the velocity that follows from the total aside.  The write pass then
//! gives each body the velocity set aside for it and moves it.  No body is
//! written before every force has been read, so each force is computed from
//! the positions the tick began with.
//!
//! The arithmetic of a step is done by whoever drives the cursor; this
//! module decides which step comes next, and proves what the steps come to
//! whatever that arithmetic is.

pub mod cursor;
pub mod euler;
pub mod momentum;
pub mod plan;

pub use cursor::TickCursor;
pub use plan::Step;
