//! Requests to the endpoints of a provider.
pub mod anthropic_body;
pub mod anthropic_item_laws;
pub mod anthropic_laws;
pub mod azure;
pub mod chat_body;
pub mod chat_item_laws;
pub mod chat_laws;
pub mod headers;
pub mod stream;
pub mod tools;
