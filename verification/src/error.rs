//! Domain errors reported to the user.
use vstd::prelude::*;

use crate::text::{append_text, decimal, push_decimal, text_from};

verus! {

/// Domain-specific error variants for user-facing messages.
#[derive(Debug)]
pub enum ForgeError {
    NotAuthenticated,
    TokenExpired,
    NotFound(String),
    Forbidden(String),
    ApiError(u16, String),
}

/// The text shown for an error.
pub open spec fn error_message(e: ForgeError) -> Seq<char> {
    match e {
        ForgeError::NotAuthenticated => "Not authenticated. Run `forge login` first."@,
        ForgeError::TokenExpired => "Token has expired. Run `forge login` to re-authenticate."@,
        ForgeError::NotFound(msg) => msg@,
        ForgeError::Forbidden(msg) => "Access denied: "@ + msg@,
        ForgeError::ApiError(status, msg) => "API error ("@ + decimal(status as nat) + "): "@
            + msg@,
    }
}

impl ForgeError {
    /// The text shown for this error.
    pub fn message(&self) -> (r: String)
        ensures
            r@ == error_message(*self),
    {
        match self {
            ForgeError::NotAuthenticated => text_from("Not authenticated. Run `forge login` first."),
            ForgeError::TokenExpired => text_from(
                "Token has expired. Run `forge login` to re-authenticate.",
            ),
            ForgeError::NotFound(msg) => msg.clone(),
            ForgeError::Forbidden(msg) => {
                let mut r = text_from("Access denied: ");
                append_text(&mut r, msg.as_str());
                r
            },
            ForgeError::ApiError(status, msg) => {
                let mut r = text_from("API error (");
                push_decimal(&mut r, *status as u64);
                append_text(&mut r, "): ");
                append_text(&mut r, msg.as_str());
                assert(r@ == "API error ("@ + decimal(*status as nat) + "): "@ + msg@);
                r
            },
        }
    }
}

} // verus!
