//! Room bookkeeping and message routing for a small websocket game relay.
//!
//! A host opens a room and receives a four-letter room code; guests ask to
//! join by code, the host admits them under a player number, and players
//! relay messages to each other through the server.
#![allow(non_snake_case)]

pub mod client;
pub mod laws;
pub mod message;
pub mod model;
pub mod numbers;
pub mod password;
pub mod payload;
pub mod server;
