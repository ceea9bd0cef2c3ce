//! Planning and validation logic behind the `RusqliteFetch` and
//! `RusqliteWrite` derives: attribute interpretation, SQL statement
//! construction, generic-bound selection and aggregate-value handling.

pub mod model;
pub mod table;
pub mod text;
pub mod tokens;
pub mod bounds;
pub mod fetch;
pub mod write;
pub mod aggregate;
pub mod laws;
