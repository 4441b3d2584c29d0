//! The stand-alone probe that subscribes a fixed member to the presence channel.
pub mod auth_message_gen;
