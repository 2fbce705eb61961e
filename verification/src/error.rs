//! Unified error type of the library.

use vstd::prelude::*;

verus! {

/// Top-level error type.
#[derive(Debug)]
#[allow(inconsistent_fields)]
pub enum Error {
    /// I/O error (e.g. reading scene files), with the path when it is known.
    Io {
        /// File path where the I/O error occurred, if known.
        path: Option<String>,
        /// Text of the underlying I/O error.
        message: String,
    },
    /// YAML parse error with location hint.
    YamlParse {
        /// File path of the malformed YAML.
        path: String,
        /// Parser message with line/column hints.
        message: String,
    },
    /// Unknown feature referenced in a scene, with a `did_you_mean` suggestion.
    UnknownFeature {
        /// Feature key that didn't resolve.
        key: String,
        /// Scene id that referenced the unknown key.
        scene_id: String,
        /// Closest known key by Levenshtein distance, if any.
        did_you_mean: Option<String>,
    },
    /// Invalid feature key format (must be `a.b.c` dot-segments).
    InvalidFeatureKey(String),
    /// Scene id collision.
    DuplicateScene(String),
    /// Scene DSL schema violation.
    InvalidScene {
        /// Scene id with the problem.
        scene_id: String,
        /// Human-readable reason.
        message: String,
    },
    /// Error of the SQLite store behind the pending-scene queue (its text).
    Sqlite(String),
    /// Configuration error.
    Config(String),
}

} // verus!
