//! Serverless peer discovery and text-message dissemination over a LAN:
//! the wire codec, the peer sets, the message queue, and the decisions of
//! the discovery and chat roles.

pub mod text;
pub mod wire;
pub mod message;
pub mod peers;
pub mod queue;
pub mod networking;
pub mod laws;
pub mod console_graphics;
