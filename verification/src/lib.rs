//! Web server access-log engine: format definitions, line parsers, query
//! building and the decisions of the import pipeline, with their contracts.

pub mod ext;
pub mod text;
pub mod model;
pub mod presets;
pub mod error;
pub mod compile;
pub mod validate;
pub mod record;
pub mod semantic;
pub mod ip;
pub mod w3c;
pub mod blocks;
pub mod line_parser;
pub mod applog;
pub mod reader;
pub mod store;
pub mod path_order;
pub mod scan;
pub mod query;
pub mod stats;
pub mod batch;
pub mod export;
pub mod reconstruct;
pub mod views;
pub mod detect;
pub mod importer;
pub mod preview;
pub mod service;
pub mod library;
pub mod dto;
pub mod synth;
pub mod paths;
