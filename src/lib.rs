//! An OpenAI-compatible gateway in front of the Vertex AI inference backend:
//! the verified core that picks regions, builds backend URLs, filters
//! forwarded headers, keeps the last authorization value, and translates the
//! backend's model catalog.

pub mod catalog;
pub mod models;
pub mod routing;
pub mod text;
pub mod token;

pub use text::{chars_of, eq_ignore_ascii_case, split_bounds, starts_with_ignore_ascii_case, str_contains};
