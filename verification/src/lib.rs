//! Finds which mods of a set break a program, by bisection with a person as
//! the judge of each trial.
//!
//! The library decides; its caller acts. Each component is a machine that is
//! handed what happened (a verdict, the result of a move) and answers with
//! what to do next, so that everything here is a function of plain values:
//!
//! - `arguments` reads the command line;
//! - `session` leads through a whole session, round after round;
//! - `bisect` is the search of one round, `oracle` one trial of it, and
//!   `relocate` one move of a batch of items.
//!
//! What a search concludes is said once more in `search`, as one recursive
//! definition over a model of the two locations (`placement`). `refine`
//! proves that the engine comes to that conclusion; `faults` proves what
//! holds of every conclusion, and what the conclusion is when the faults are
//! known.

pub mod arguments;
pub mod bisect;
pub mod classification;
pub mod convert;
pub mod error;
pub mod faults;
pub mod oracle;
pub mod placement;
pub mod refine;
pub mod relocate;
pub mod search;
pub mod session;
