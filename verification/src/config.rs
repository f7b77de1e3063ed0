//! The configuration language: documents, the line grammar, typed access.

pub mod cache;
pub mod default;
pub mod document;
pub mod helio;
pub mod laws;
pub mod syntax;
