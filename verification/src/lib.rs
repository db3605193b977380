//! Adapters for lazy sequences of fallible items: flatten a sequence of
//! `Result`-wrapped collections into a flat sequence of per-element results,
//! and truncate a sequence of results right after its first error.

pub mod flatten_results;
pub mod source;
pub mod stop_after_error;

pub use flatten_results::FlattenResults;
pub use source::PullSource;
pub use source::VecSource;
pub use stop_after_error::StopAfterError;
