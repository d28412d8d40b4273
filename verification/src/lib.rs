//! Verified core of a CLOB WebSocket client: endpoint settings, reconnection
//! backoff, JSON framing of outgoing requests, and the decisions taken on each
//! incoming frame and on each subscription, reconnection and close.

pub mod config;
pub mod backoff;
pub mod error;
pub mod json;
pub mod frame;
pub mod market;
pub mod user;
