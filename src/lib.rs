//! Tree-shaped rendering of nested diagnostic spans and events.
//!
//! The renderer keeps what it needs of each live span, reconciles the path
//! of the span printed last with the span about to be printed, and draws
//! each unit as part of a box-drawing tree or with whitespace indentation.
pub mod config;
pub mod fields;
pub mod layer;
pub mod laws;
pub mod render;
pub mod retrace;
pub mod style;
pub mod text;
pub mod time;

pub use config::{Config, ThreadInfo};
pub use layer::{EventRecord, NewSpan, Renderer, SpanData};
pub use render::{Buffers, SpanMode};
pub use style::{Level, Paint};
pub use time::{FormatTime, LocalDateTime, Uptime, UtcDateTime};
