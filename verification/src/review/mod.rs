//! The review surface: command flow, provider responses, panel state and
//! rendering.
pub mod adapter;
pub mod buffer;
pub mod card;
pub mod decode;
pub mod flow;
pub mod panel;
pub mod plain;
pub mod response;
pub mod routing;
pub mod session;
