//! Peer-to-peer chat over a UDP path opened with STUN and a Pusher presence channel.
pub mod client;
pub mod message;
pub mod pusher_interaction;
pub mod pusher_test;
pub mod stun;
pub mod text;
