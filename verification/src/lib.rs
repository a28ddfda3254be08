//! Compiles a restricted `SELECT` statement into C++ source text that runs the
//! query on a columnar data-frame library.
//!
//! The compilation has three parts: [`visitor`] turns a syntax tree into an
//! intermediate representation, [`intermediate`] attaches a type to every
//! column the query touches, and [`generator`] renders the finished
//! representation as text. [`pipeline`] runs them in turn.
pub mod error;
pub mod generator;
pub mod header;
pub mod intermediate;
pub mod pipeline;
pub mod schema;
pub mod syntax;
pub mod text;
pub mod visitor;
