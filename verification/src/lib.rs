//! Core engine of a desktop timer scheduler: timers that fire a system action
//! (popup, lock, shutdown, reboot) at an absolute UTC instant, optionally on a
//! recurrence rule and optionally preceded by a cancellable warning prompt.
//!
//! The crate holds the verified logic: validation of creation requests, the
//! recurrence calculator, the timer store, the per-timer lifecycle state
//! machine, the decision-prompt registry, the persistence codec, and the
//! startup restore pass. Waiting, threads, the GUI and OS calls live outside,
//! driven through the state machine's commands.

pub mod clock;
pub mod codec;
pub mod prompt;
pub mod recurrence;
pub mod release;
pub mod restore;
pub mod store;
pub mod task;
pub mod text;
pub mod time;
pub mod types;
pub mod warning;
