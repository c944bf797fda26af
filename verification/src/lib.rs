//! Marshalling between loosely typed documents, queries and aggregation
//! descriptions on one side and the typed values of a schema-driven
//! inverted-index engine on the other.
pub mod text;
pub mod value;
pub mod schema;
pub mod query;
pub mod deletion;
pub mod engine;
pub mod compile;
pub mod ip;
pub mod coerce;
pub mod document;
pub mod project;
pub mod json;
pub mod aggregation;
pub mod agg_request;
pub mod agg_compile;
pub mod agg_result;
pub mod tokenizer;
pub mod reader_manager;
pub mod index_warming;
pub mod space_analysis;
pub mod custom_collector;
pub mod merge_policy;
pub mod descriptor;
pub mod extract;
pub mod facet;
pub mod laws;
