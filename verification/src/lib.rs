//! A build-time generator for curated C headers. A declaration tokenizer
//! cuts machine-generated declaration text into classified spans; a
//! nesting-aware grouper folds them into records, one per logical
//! declaration; a rule-based resolver routes each record to its output
//! files, with exclusivity overrides and exhaustiveness checks; and a
//! convention-based signature miner feeds a generator of type-generic
//! dispatch tables and overload sets.
pub mod text;
pub mod token;
pub mod record;
pub mod splitguide;
pub mod splitter;
pub mod signature;
pub mod genheader;
pub mod bytes_map;
pub mod opaque_types;
