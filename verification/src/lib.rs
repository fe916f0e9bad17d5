//! Verified core of a project-scaffolding generator.
//!
//! The library discovers "module types" in a template directory listing,
//! loads the parameter schema a chosen type declares, renders the type's
//! header/source template pair against a set of parameter bindings with
//! strict substitution semantics, and derives the names and paths of the
//! output files.  All file-system and terminal work is left to the caller;
//! every function here is a pure function of its arguments.

pub mod cli;
pub mod params;
pub mod pipeline;
pub mod prompt;
pub mod render;
pub mod scanner;
pub mod schema;
pub mod strutil;
pub mod writer;
