//! The logic of a chat gateway for coding agents: what happens to a message between a Mattermost
//! server and an agent backend.

pub mod chunk;
pub mod gateway;
pub mod mattermost;
pub mod number;
pub mod text;
