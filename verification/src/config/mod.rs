//! The declarative description of what to export: the data model and its validation.

pub mod schema;
pub mod validator;
