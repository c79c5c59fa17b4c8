//! Core of a one-host, many-listeners audio broadcast server.
//!
//! A broadcast session owns a relay bound to a dedicated UDP port; a registry
//! maps session ids to sessions; a signaling protocol exchanges addresses and
//! lifecycle events. This crate holds the verified logic: port selection,
//! id generation, the registry, datagram gating and fan-out planning, the
//! watchdog decision rule, and the signaling state transitions. Socket,
//! HTTP/WebSocket and JSON plumbing live outside it.

pub mod addr;
pub mod application;
pub mod audio_server;
pub mod authentication;
pub mod events;
pub mod parse;
pub mod podcast;
pub mod ws;
