//! The backends.

pub mod bladerf1;
pub mod hardware;
