//! Quick-tag ingestion: scan a directory of audio files and turn each file's
//! decoded tag data into a normalized metadata record.
//!
//! Low-level tag decoding (format detection, raw field storage) is the job of
//! an external tag-access layer; this crate models the decoded data it hands
//! back ([`tag`]), maps it to records with per-field fallback and validation
//! rules ([`record`]), and parses numeric tag values ([`parse`]).

pub mod parse;
pub mod record;
pub mod tag;
