//! The state, the decisions and the message formats of a terminal client for
//! Signal that drives `signal-cli` over JSON-RPC.

pub mod display;
pub mod effects;
pub mod inbox;
pub mod json;
pub mod keys;
pub mod laws;
pub mod listing;
pub mod model;
pub mod outbox;
pub mod screen;
pub mod startup;
pub mod text;
pub mod wire;

