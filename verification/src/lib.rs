//! Core logic of the `second-opinion` relay: the message protocol between
//! the command-line client, the relay server and the browser extension, the
//! server's routing state machine, and the client's decisions.

pub mod decimal;
pub mod protocol;
pub mod server;
pub mod client;
pub mod commands;
