//! A batch-scenario engine: the rules by which the steps of a scenario are
//! scheduled, retried, confirmed and given up, the variables they share, and
//! what each kind of step needs from the outside world.
//!
//! The library decides and computes; it starts no process, reads no file and
//! waits for nothing. A driver performs what the library asks for and
//! reports back what happened.

pub mod confirm_bridge;
pub mod context;
pub mod error;
pub mod events;
pub mod executor;
pub mod resources;
pub mod runner;
pub mod scenario;
pub mod state;
pub mod steps;
pub mod text;
