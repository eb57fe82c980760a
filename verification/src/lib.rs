//! Persistence and templating core for a request-template manager.
//!
//! Projects group request templates and named variables; a templating
//! engine resolves `{{name}}` placeholders inside a template's JSON text
//! from the variables of the owning project.

pub mod cmd;
pub mod engine;
pub mod error;
pub mod gen;
pub mod http;
pub mod json;
pub mod laws;
pub mod parse;
pub mod paths;
pub mod project;
pub mod template;
pub mod variable;
pub mod text;
