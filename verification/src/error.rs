//! The three error categories of the library.

use vstd::prelude::*;

verus! {

/// OAuth failures, HTTP failures and wire-protocol failures.
#[derive(Debug, PartialEq, Eq)]
pub enum DevinError {
    /// OAuth, callback, or token-exchange failure.
    Auth { message: String },
    /// HTTP or HTTP-transport failure. Transport failures use status `0`.
    Api { message: String, status: u16, body: Option<String> },
    /// Protobuf, Connect framing, token-store, or other wire-protocol failure.
    Protocol { message: String },
}

impl DevinError {
    /// The human-readable message of the error, whatever its category.
    pub open spec fn message_view(self) -> Seq<char> {
        match self {
            DevinError::Auth { message } => message@,
            DevinError::Api { message, .. } => message@,
            DevinError::Protocol { message } => message@,
        }
    }

    pub fn auth(message: String) -> (r: Self)
        ensures
            r == (DevinError::Auth { message }),
    {
        DevinError::Auth { message }
    }

    pub fn api(message: String, status: u16, body: Option<String>) -> (r: Self)
        ensures
            r == (DevinError::Api { message, status, body }),
    {
        DevinError::Api { message, status, body }
    }

    /// An HTTP-transport failure: status `0`, no body, and the detail
    /// behind a fixed prefix.
    pub fn api_transport(message: String) -> (r: Self)
        ensures
            r is Api,
            r->Api_message@ == "Devin transport failed: "@ + message@,
            r->Api_status == 0,
            r->Api_body is None,
    {
        let text = String::from_str("Devin transport failed: ").concat(message.as_str());
        DevinError::Api { message: text, status: 0, body: None }
    }

    pub fn protocol(message: String) -> (r: Self)
        ensures
            r == (DevinError::Protocol { message }),
    {
        DevinError::Protocol { message }
    }

    /// The message, as the error's display text.
    pub fn message(&self) -> (r: String)
        ensures
            r@ == self.message_view(),
    {
        match self {
            DevinError::Auth { message } => message.clone(),
            DevinError::Api { message, .. } => message.clone(),
            DevinError::Protocol { message } => message.clone(),
        }
    }
}

impl Clone for DevinError {
    fn clone(&self) -> (r: Self)
        ensures
            r == *self,
    {
        match self {
            DevinError::Auth { message } => DevinError::Auth { message: message.clone() },
            DevinError::Api { message, status, body } => {
                let body = match body {
                    Some(b) => Some(b.clone()),
                    None => None,
                };
                DevinError::Api { message: message.clone(), status: *status, body }
            },
            DevinError::Protocol { message } => DevinError::Protocol { message: message.clone() },
        }
    }
}

} // verus!
