//! The host: the command line, the client, and the server that holds the
//! connections to the devices.

pub mod app_install;
pub mod auth;
pub mod channel;
pub mod client;
pub mod connect_map;
pub mod deveco;
pub mod dispatch;
pub mod file_transfer;
pub mod flash;
pub mod forward;
pub mod forward_bridge;
pub mod forward_map;
pub mod forward_setup;
pub mod net_discover;
pub mod parser;
pub mod server;
pub mod session;
pub mod shell;
pub mod tcp_map;
pub mod transfer;
pub mod usb;
pub mod usb_map;
pub mod wire;
