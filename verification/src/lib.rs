//! Policy-enforced relaying of messages between the actors of a node, and the
//! sessions of secure channels on top of it.
//!
//! Addresses name mailboxes; each mailbox is guarded by an incoming and an
//! outgoing policy; the router moves a message into the queue of the actor
//! that owns its destination, if the policy admits it. A session takes a
//! secure channel through its handshake, for which each side presents a
//! purpose key, and then hands out the nonces under which data is encrypted:
//! each once, in order, and never past the last. A debugger can watch the
//! router and describe what it saw.

pub mod access_control;
pub mod address;
pub mod cli_state;
pub mod command;
pub mod debugger;
pub mod mailbox;
pub mod nonce;
pub mod purpose_key;
pub mod relay;
pub mod render;
pub mod router;
pub mod secure_channel;
pub mod session_table;
