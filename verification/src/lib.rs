//! The verified core of insanity, a peer-to-peer voice chat.
pub mod audio;
pub mod clerver;
pub mod connection_manager;
pub mod identity;
pub mod laws;
pub mod managed_peer;
pub mod options;
pub mod protocol;
pub mod realtime_buffer;
pub mod text;
pub mod update;
pub mod user_input_event;
