//! The scheduling kernel: deferred queue, timer heap, actor lifecycle and the
//! tick driver.

pub mod arbiter;
pub mod handle;
pub mod laws;
pub mod owner;
pub mod runtime;
pub mod scheduler;
pub mod timer;
pub mod work;

pub use self::arbiter::{Arbitrator, Stage};
pub use self::handle::Actor;
pub use self::runtime::{Outcome, Runtime, Snapshot};
pub use self::scheduler::{Context, Core, Schedule};
pub use self::timer::{Timer, TimerHeap};
pub use self::work::{Behavior, Work};
