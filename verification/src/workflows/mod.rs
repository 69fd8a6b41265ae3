//! JavaScript workflows: parsing their declarations, building the runtime that executes them and
//! keeping the journal of their agent calls.

pub mod grammar;
pub mod handler;
pub mod journal;
pub mod laws;
pub mod literal;
pub mod meta;
pub mod parser;
pub mod runtime;
pub mod store;
pub mod tools;
