//! The verified core of a small solar-system simulation.
//!
//! The crate holds the parts of the simulation that are decided in whole
//! numbers: the bounded trail each body leaves behind it, the order in which
//! one tick of the gravity integrator reads and writes the bodies, the
//! table the bodies are seeded from, the camera's reaction to pointer
//! input, and the colour of the frame-rate readout.  Every function carries
//! a contract that Verus proves.  Arithmetic on measured quantities, drawing
//! and input handling are left to the program built around the crate.

pub mod camera;
pub mod diagnostics;
pub mod gravity;
pub mod registry;
pub mod single;
pub mod trail;
