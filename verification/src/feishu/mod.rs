//! The chat platform: card payloads and webhook events.

pub mod cards;
pub mod client;
pub mod events;
pub mod json;
pub mod laws;
