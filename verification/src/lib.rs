//! Wait groups for asynchronous tasks.
//!
//! - [`WaitGroup`]: register work with `add`, report it with `done`, wait until none is left. Any
//!   number of tasks may wait, again and again.
//! - [`wait_group::WaitGroup`]: the same for one wait cycle, by one task.
//! - [`wait_group_arrive::WaitGroupArrive`]: tasks only arrive; one task waits for a number of them.
//!
//! A group here is a plain value that its methods change; whoever shares one among tasks keeps it
//! behind a lock. A wait is a value too: it looks at the group and says what to do next. A guard or a
//! worker holds what is its own and the identity of its group, and is handed that group and no other.

pub mod counter;
pub mod group;
pub mod group_laws;
pub mod outcome;
pub mod outside;
pub mod signal;
pub mod text;
pub mod wait_group;
pub mod wait_group_arrive;
pub mod wait_group_arrive_laws;
pub mod wait_group_laws;

pub use crate::group::{
    WaitAction, WaitCall, WaitGroup, WaitGroupGuard, WaitGroupInner, WaitGroupWorker,
};
pub use crate::outcome::{Misuse, Readiness, WaitError};
