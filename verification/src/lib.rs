//! Typed configuration loading: a format-agnostic value tree, strict conversions into Rust
//! types, file-format selection, and a type check of a parsed file against a struct's fields.
pub mod text;
pub mod derive;
pub mod path;
pub mod value;
pub mod error;
pub mod format;
pub mod formats;
pub mod from_value;
pub mod load;

pub use crate::error::ConfigError;
pub use crate::format::{Format, ParseError};
pub use crate::formats::{select, Json, SelectError, Toml, Yaml};
pub use crate::from_value::FromValue;
pub use crate::path::{PathStack, Segment};
pub use crate::value::{Datetime, Table, Value};
