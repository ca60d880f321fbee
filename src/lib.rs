//! Tag-change history extraction for streams of versioned map objects.
//!
//! The library pairs consecutive versions of an object, finds the tags that
//! changed between them, filters those changes and renders each one as a row
//! of byte fields.

pub mod changeset;
pub mod column;
pub mod config;
pub mod decimal;
pub mod engine;
pub mod escape;
pub mod filter;
pub mod laws;
pub mod lists;
pub mod order;
pub mod output;
pub mod record;
pub mod render;
pub mod time;
pub mod diff;
