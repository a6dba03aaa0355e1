//! A runtime for nodes that talk in newline-delimited JSON envelopes: the
//! envelope and its wire form, the initialization handshake, the reaction to
//! each message with its correlated reply, and the discipline of message
//! identifiers. Three node kinds come with it: echo, unique identifiers, and
//! a local broadcast store.
//!
//! Every function states what it does over the values of its arguments, and
//! the statements are proved. What is taken on trust of `serde_json` is
//! gathered in [`json`].

pub mod echo;
pub mod error;
pub mod fields;
pub mod generate_id;
pub mod init;
pub mod json;
pub mod message;
pub mod node;
pub mod runtime;
pub mod single_broadcast;
pub mod standalone;
pub mod topology;

pub use crate::init::InitPayload;
pub use crate::message::{Message, MessageBody};
pub use crate::node::Node;
pub use crate::runtime::main_loop;
