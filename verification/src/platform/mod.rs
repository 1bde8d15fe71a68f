//! Platform backends whose logic does not depend on the operating system.

pub mod mock;
pub mod event_loop;
