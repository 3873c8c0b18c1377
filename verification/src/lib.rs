//! Client-side data model and synchronization layer for a Wikibase-style
//! structured-knowledge entity store.
//!
//! The centre of the crate is the diff-to-patch reconciliation engine: given
//! two local snapshots of an entity or one of its sub-resources, it computes a
//! sequence of JSON-patch operations that transforms one snapshot into the
//! other, and it proves that replaying the computed operations really does
//! perform that transformation.

// the JSON-patch engine: trees, entries, replaying, diffing
pub mod json;
pub mod patch_entry;
pub mod apply;
pub mod differ;

// shared helpers
pub mod assoc;
pub mod error;

// the data model
pub mod config;
pub mod entity_id;
pub mod entity;
pub mod language_string;
pub mod language_strings;
pub mod label;
pub mod labels;
pub mod description;
pub mod descriptions;
pub mod aliases;
pub mod aliases_in_language;
pub mod sitelink;
pub mod sitelinks;
pub mod data_type;
pub mod property_value;
pub mod statement_rank;
pub mod statement_value_content;
pub mod statement_value;
pub mod reference;
pub mod statement;
pub mod statements;
pub mod item;
pub mod property;

// typed patches per sub-resource
pub mod language_strings_patch;
pub mod labels_patch;
pub mod aliases_patch;
pub mod sitelinks_patch;
pub mod statement_patch;
pub mod statements_patch;
pub mod entity_patch;

// the apply-protocol envelope and the loader's decisions
pub mod header_info;
pub mod revision_match;
pub mod edit_metadata;
pub mod bearer_token;
pub mod search;
pub mod container;
