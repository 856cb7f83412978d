//! The simulation core of a side-scrolling obstacle-avoidance arcade
//! game: a single actor falls under gravity and flaps upward on input,
//! obstacle pairs scroll in from the right at timed intervals around a
//! randomized gap, and the run ends when the actor hits an obstacle or
//! leaves the vertical play bounds, while a score counts the pairs
//! passed.
//!
//! Lengths are fixed-point milli-units, times are milliseconds; every
//! public function carries a contract, and the general guarantees of
//! the design are proved in [`laws`].

pub mod config;
pub mod store;
pub mod systems;
pub mod sim;
pub mod laws;
