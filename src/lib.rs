pub mod cli;
pub mod converter;
pub mod error;
pub mod json;
pub mod schema;

pub use converter::Converter;
pub use error::SchemaError;
pub use json::JsonValue;
pub use schema::{create_schema, Schema, SchemaParams};
