//! The error taxonomy of the client.

use vstd::prelude::*;

verus! {

/// Errors surfaced to the caller of the client.
///
/// All of these abort the current round and surface immediately; none are
/// retried internally.  A failed tool invocation is not an error: it is
/// folded into the history as tool-message content.
#[derive(Debug, Clone, PartialEq, Eq)]
pub enum ClientError {
    /// A named resource or item was missing.
    NotFound(String),
    /// The provided input was not valid.
    InvalidInput(String),
    /// An index was outside the allowable bounds.
    IndexOutOfBounds,
    /// The tool named by a tool call is unknown or disabled.
    ToolNotFound,
    /// The configured endpoint does not begin with `http://` or `https://`.
    InvalidEndpoint,
    /// A prompt did not meet the expected criteria.
    InvalidPrompt,
    /// The transport exchange failed.
    NetworkError,
    /// The response body was absent or malformed, or `choices` was empty.
    InvalidResponse,
    /// Neither a per-call override nor a default model configuration exists.
    ModelConfigNotSet,
    /// The response message matched none of the expected shapes.
    UnknownError,
}

impl ClientError {
    /// A human-readable description of the error.
    pub fn describe(&self) -> (r: String)
        ensures
            r@ == match self {
                ClientError::NotFound(msg) => "NotFound: "@ + msg@,
                ClientError::InvalidInput(msg) => "InvalidInput: "@ + msg@,
                ClientError::IndexOutOfBounds => "Index out of bounds"@,
                ClientError::ToolNotFound => "Tool not found"@,
                ClientError::InvalidEndpoint => "Invalid endpoint"@,
                ClientError::InvalidPrompt => "Invalid prompt"@,
                ClientError::NetworkError => "Network error"@,
                ClientError::InvalidResponse => "Invalid response"@,
                ClientError::ModelConfigNotSet => "Model config not set"@,
                ClientError::UnknownError => "Unknown error"@,
            },
    {
        match self {
            ClientError::NotFound(msg) => String::from_str("NotFound: ").concat(msg.as_str()),
            ClientError::InvalidInput(msg) => {
                String::from_str("InvalidInput: ").concat(msg.as_str())
            },
            ClientError::IndexOutOfBounds => String::from_str("Index out of bounds"),
            ClientError::ToolNotFound => String::from_str("Tool not found"),
            ClientError::InvalidEndpoint => String::from_str("Invalid endpoint"),
            ClientError::InvalidPrompt => String::from_str("Invalid prompt"),
            ClientError::NetworkError => String::from_str("Network error"),
            ClientError::InvalidResponse => String::from_str("Invalid response"),
            ClientError::ModelConfigNotSet => String::from_str("Model config not set"),
            ClientError::UnknownError => String::from_str("Unknown error"),
        }
    }
}

impl From<String> for ClientError {
    /// Wraps a bare error string as invalid input.
    fn from(err: String) -> (r: ClientError)
        ensures
            r == ClientError::InvalidInput(err),
    {
        ClientError::InvalidInput(err)
    }
}

impl vstd::std_specs::convert::FromSpecImpl<String> for ClientError {
    open spec fn obeys_from_spec() -> bool {
        true
    }

    open spec fn from_spec(err: String) -> ClientError {
        ClientError::InvalidInput(err)
    }
}

} // verus!
