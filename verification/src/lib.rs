//! Storage-call tracing and the executor pieces that run through it.

pub mod attribute;
pub mod data;
pub mod error;
pub mod executor;
pub mod glue;
pub mod instrument;
pub mod memory;
pub mod named;
pub mod store;
pub mod trace;
pub mod translate;
pub mod traced;

pub use traced::TracedResultIterator;
