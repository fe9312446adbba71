//! Statement execution over a storage.

pub mod alter;
pub mod fetch;
pub mod execute;
