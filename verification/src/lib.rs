//! A small client library for a remote chat-completion HTTP API.
//!
//! The library holds the client's configuration, builds the outbound JSON
//! request body, and classifies the transport's answer: it parses a success
//! body into the first choice's message content and maps every failure to a
//! typed error. The HTTP call itself is the caller's concern: the caller
//! performs one POST with the body and headers this library computes, and
//! hands the outcome back as a [`TransportOutcome`] for interpretation.

mod client;
pub mod decode;
pub mod encode;
mod error;
mod ext;
mod message;
pub mod response;

pub use client::lemma_override_idempotent;
pub use client::lemma_overrides_propagate;
pub use client::ClientView;
pub use client::MistralClient;
pub use error::ErrorView;
pub use error::MistralError;
pub use message::ChatMessage;
pub use message::MessageView;
pub use response::interpret_outcome;
pub use response::interpret_response;
pub use response::parse_chat_response;
pub use response::OutcomeView;
pub use response::TransportOutcome;
