//! A verified model of an IL2CPP runtime binding: the runtime's handle types,
//! the cached type table and its lookup rules, method resolution by signature,
//! type alias names and the decisions taken while searching for a field.

pub mod error;
pub mod handles;
pub mod text;
pub mod types;
pub mod method;
pub mod type_table;
pub mod field;
pub mod wide;
pub mod codegen;
