pub mod catalog;
pub mod values;
pub mod schema;
pub mod compiler;
pub mod document;
pub mod laws;
