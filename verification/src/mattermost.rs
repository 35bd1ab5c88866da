//! Mattermost WebSocket input and REST API output.

pub mod client;
pub mod event;
pub mod http;
pub mod inbox;
pub mod laws;
pub mod posts;
pub mod receiver;
pub mod target;
pub mod thread;
pub mod url;
