//! Account sessions, account priming and JavaScript workflows for a coding agent: the rules,
//! parsers and state machines, each with its contract.

pub mod accounts;
pub mod ids;
pub mod paths;
pub mod table;
pub mod text;
pub mod tui;
pub mod workflows;
