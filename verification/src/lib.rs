//! Offline English–Indonesian dictionary lookups: the shared data model,
//! the interpretation of translation-service replies, local index queries,
//! and the presentation of results.

pub mod text;
pub mod json;
pub mod search;
pub mod google;
pub mod schema;
pub mod index;
pub mod cli;
pub mod language;
pub mod entry;
pub mod display;
