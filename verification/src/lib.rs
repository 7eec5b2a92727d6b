//! Verified core of a stateful conversational "Responses" service: the bounded
//! metadata bag, the conversation store with its parent links, the
//! reconstruction of a conversation chain, and the translation between the
//! Responses representation and a flat chat-completion representation.

pub mod assoc;
pub mod chain;
pub mod chat;
pub mod database;
pub mod ids;
pub mod items;
pub mod json;
pub mod responses;
pub mod rows;
pub mod text;
pub mod types;
