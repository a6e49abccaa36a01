//! The verified core of a HarmonyOS Device Connector.

pub mod address;
pub mod ciphers;
pub mod daemon;
pub mod host;
pub mod path;
pub mod protocol;
mod random;
pub mod tables;
pub mod text;
