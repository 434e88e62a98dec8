//! Verified core of the benchmark-collection service: the validation rules,
//! parsers and derivations that decide what the HTTP service and the log
//! importer store and answer.

pub mod text;
pub mod json;
pub mod domain;
pub mod float64;
pub mod ids;
pub mod time;
pub mod cursor;
pub mod listing;
pub mod order;
pub mod results;
pub mod stats;
pub mod api;
pub mod import;
pub mod parameters;
pub mod digest;
pub mod artifacts;
pub mod config;
pub mod model_registry;
pub mod integrity;
pub mod events;
pub mod runs;
pub mod host_rules;
pub mod runs_write;
pub mod stored;
