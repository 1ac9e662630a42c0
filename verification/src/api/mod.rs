//! Selecting events for the query interface.
pub mod query;

pub use query::{select_events, EventQuery};
