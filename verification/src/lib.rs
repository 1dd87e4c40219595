//! Versioned envelopes for JSON data structures.
//!
//! A document is stored as `{"version": N, "data": ...}`, the version a
//! `u32`. The reader checks that the document is such an envelope, reads the
//! data with the parser of the version it names, and upgrades the data step
//! by step to the newest version of a [`VersionSet`]. The writer puts the
//! envelope around a payload's JSON.
//!
//! Reading is done in passes over the JSON text rather than through a
//! generic JSON value, so that nothing is lost (object key order, numbers
//! wider than 64 bits) and error positions are positions in the document:
//!
//! 1. serde_json checks that the document is JSON.
//! 2. The document's top level is scanned for its root kind and, for an
//!    object, where each member's key and value lie ([`scan`]).
//! 3. The keys are decoded and the envelope's shape checked ([`envelope`]).
//! 4. The version set's parser reads the data; the upgrade loop follows the
//!    set's steps to the latest version ([`upgrade`]).

pub mod envelope;
pub mod errors;
pub mod json;
pub mod messages;
pub mod order;
pub mod output;
pub mod read;
pub mod scan;
pub mod settings;
pub mod text;
pub mod upgrade;
pub mod versioned;
pub mod write;

pub use output::{Origin, ReadOutput};
pub use read::{
    read_json, read_json_or_else, read_json_or_else_with, read_json_or_untagged,
    read_json_or_untagged_with, read_json_with, read_untagged_json, read_untagged_json_with,
};
pub use versioned::{Step, VersionSet, Versioned, assert_version_set_well_formed};
pub use write::WriteEnvelope;
