//! The flat set of errors a call can end in.

use vstd::prelude::*;

verus! {

/// What a chat-completion call can fail with. The set is flat: every failure
/// of a call is exactly one of these.
#[derive(Debug, PartialEq, Eq, Clone)]
pub enum MistralError {
    /// The provider rejected the request: a non-success status (the raw
    /// response body is carried verbatim), or a success answer with an empty
    /// list of choices (the fixed text "No response from AI" is carried).
    ApiError(String),
    /// The transport failed (connection, timeout, TLS, ...), or a success
    /// body could not be decoded as a chat response; carries the transport's
    /// own description, or the fixed decode description.
    NetworkError(String),
    /// Reserved for callers that validate the credential's presence
    /// themselves; never produced by this library.
    MissingApiKey,
}

/// Spec-level picture of a [`MistralError`].
pub enum ErrorView {
    ApiError(Seq<char>),
    NetworkError(Seq<char>),
    MissingApiKey,
}

impl View for MistralError {
    type V = ErrorView;

    open spec fn view(&self) -> ErrorView {
        match self {
            MistralError::ApiError(m) => ErrorView::ApiError(m@),
            MistralError::NetworkError(m) => ErrorView::NetworkError(m@),
            MistralError::MissingApiKey => ErrorView::MissingApiKey,
        }
    }
}

impl MistralError {
    /// A human-readable description of the error, with the same wording for
    /// each kind of failure.
    pub fn describe(&self) -> (r: String)
        ensures
            r@ == match self@ {
                ErrorView::ApiError(m) => "API request failed: "@ + m,
                ErrorView::NetworkError(m) => "Network error: "@ + m,
                ErrorView::MissingApiKey => "Missing API key"@,
            },
    {
        match self {
            MistralError::ApiError(m) => String::from_str("API request failed: ").concat(
                m.as_str(),
            ),
            MistralError::NetworkError(m) => String::from_str("Network error: ").concat(
                m.as_str(),
            ),
            MistralError::MissingApiKey => String::from_str("Missing API key"),
        }
    }
}

} // verus!
