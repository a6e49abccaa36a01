//! The wire protocol: constants, commands, message layouts and encryption.

pub mod bytes;
pub mod command;
pub mod config;
pub mod encrypt;
pub mod error;
pub mod keys;
pub mod labeled;
pub mod packet;
pub mod serializer;
pub mod tlv;
