//! Core of a LAN remote-control service for a desktop radio player:
//! a pairing-token authority, a playback-state store, a FIFO command
//! queue, a per-connection session machine, the JSON wire codec they
//! share, and the pairing-payload (URL and QR image) generator.
//!
//! The transport (an HTTP listener upgrading connections to WebSocket)
//! lives outside this crate; it feeds connection events and inbound
//! frames to the session machine and carries the strings this crate
//! produces back to the clients.

pub mod text;
pub mod messages;
pub mod json;
pub mod server;
pub mod session;
pub mod pairing;
pub mod overlay;
pub mod install;
