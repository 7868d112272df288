//! Verified core of watn: command-flow derivation, review responses, the
//! review panel state machine, card rendering and configuration rules.
pub mod config;
pub mod error;
pub mod exec;
pub mod json;
pub mod models;
pub mod output;
pub mod provider;
pub mod quicksetup;
pub mod request;
pub mod review;
pub mod setup;
pub mod shell_completion;
pub mod shell_shortcut;
pub mod text;
