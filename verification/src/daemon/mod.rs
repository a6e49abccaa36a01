//! The daemon: what a device does for a host.

pub mod app;
pub mod file;
pub mod links;
pub mod listener;
pub mod message;
pub mod session;
pub mod task;
pub mod transport;
