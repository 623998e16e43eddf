//! Schema resolution and intermediate representation for API client generation.
pub mod casing;
pub mod config;
pub mod database;
pub mod default_request;
pub mod driver;
pub mod errors;
pub mod name_mapping;
pub mod path_utils;
pub mod resolver;
pub mod rust_names;
pub mod schema;
pub mod text;
pub mod types;
pub mod websocket_request;
pub use errors::GeneratorError;
pub use config::Language;
