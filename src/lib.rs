//! A file-backed note store: identifiers, tags, titles, the Zettelkasten
//! hierarchy, backlinks and the policy that keeps a search index in step.
pub mod backlinks;
pub mod codec;
pub mod config;
pub mod errors;
pub mod listing;
pub mod notes;
pub mod patterns;
pub mod relocate;
pub mod sync;
pub mod tags;
pub mod text;
pub mod zettel;
