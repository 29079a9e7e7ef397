//! A verified core for a real-time checkers service: the rules engine
//! (move generation with mandatory captures, move application, promotion,
//! terminal detection) and the session relay that routes chat, invitations
//! and game payloads between sessions grouped into rooms.

pub mod board;
pub mod chat_client;
pub mod client;
pub mod engine;
pub mod game;
pub mod protocol;
pub mod relay;
pub mod session;
