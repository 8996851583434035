//! Fetching `.gitignore` templates: the decisions of the pipeline, verified.
//!
//! - `names`: normalizing user-supplied names, built-in flags, where a template comes from.
//! - `listing`: the template names of a directory listing, sorted and without repeats.
//! - `cache`: freshness of the cached name list.
//! - `writer`: the text of an overwrite, a dry run, or an append with its duplicate check.
//! - `text`: character-sequence helpers and their order.
pub mod cache;
pub mod listing;
pub mod names;
pub mod templates;
pub mod text;
pub mod writer;
