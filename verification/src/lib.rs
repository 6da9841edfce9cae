//! Deterministic, rewindable snake simulation core.
//!
//! The crate models the four tick-ordered subsystems of the game —
//! the per-action input state machine, the direction controller, the
//! fixed-cadence movement stepper and the deterministic food scheduler —
//! together with the history buffer contract that makes rollback replay
//! possible.  Every tick is a pure function of the previous simulation
//! state and the raw input events of that tick, so re-running a range of
//! past ticks from a snapshot reproduces the original run bit for bit.

pub mod food;
pub mod rollback;
pub mod snake_input;
pub mod snake_logic;
