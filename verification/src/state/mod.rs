pub mod builders;
pub mod kind_laws;
pub mod laws;
pub mod sort;
pub mod summary_laws;
pub mod trace;
pub mod types;

pub use types::{Edge, Event, EventMeta, Metadata, RawLine, TimeSegment, ViewMode, ViewRecord, ViewStatus};
