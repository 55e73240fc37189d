//! A message-routing core for co-operating agents.
//!
//! Every agent owns a private history of conversations, a registry of
//! priority-ordered handlers and a directory of its peers. The runtime that
//! hosts the agents delivers a message, asks the agent which handlers to run,
//! reports what they answered, and is told where the reply has to go.

pub mod role;
pub mod messages;
pub mod callbacks;
pub mod json;
pub mod conversation;
pub mod dispatch;
pub mod registry;
pub mod actors;
pub mod ai_chat_system;
pub mod laws;
