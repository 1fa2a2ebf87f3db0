//! ValiForge: the verified core of a headless API validation engine.
//!
//! The library holds the data model of validation reports, the rules that turn
//! an HTTP exchange into an endpoint result, the extraction of endpoints from an
//! OpenAPI document, schema-file discovery, configuration resolution and the
//! JUnit / Markdown report renderers.

pub mod external;
pub mod text;
pub mod types;
pub mod engine;
pub mod report;
pub mod config;
pub mod detect;
pub mod openapi;
