//! What the terminal shows of accounts, and how its commands act on them.

pub mod account_commands;
pub mod account_login;
pub mod account_priming;
pub mod actions;
pub mod chatwidget;
pub mod laws;
