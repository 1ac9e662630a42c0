pub mod api;
pub mod events;
pub mod parser;
pub mod state;
pub mod text;
pub mod word;

pub use events::{EventCategory, EventKind, EventRegistry};
pub use state::{Edge, Event, ViewRecord};
