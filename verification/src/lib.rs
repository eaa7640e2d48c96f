//! A cooperative, single-threaded actor kernel for simulations that advance
//! in discrete ticks, with the planning helpers of a colony built on it.
//!
//! The host calls [`actor::Runtime::run`] once per tick. The runtime first
//! moves every timer that has come due onto the deferred queue and then
//! drains that queue round by round until no work is left.

pub mod actor;
pub mod memory;
pub mod planner;
