//! The error every tool operation reports.
use vstd::prelude::*;

use crate::text::{concat, concat3, u64_decimal, decimal_spec};

verus! {

/// Why a tool call failed.
#[derive(Debug, Clone)]
pub enum ToolError {
    InvalidInput(String),
    Internal(String),
    PolicyDenied(String),
    RateLimited { retry_after_secs: u64 },
}

/// The human-readable message of an error.
pub open spec fn tool_error_message(e: ToolError) -> Seq<char> {
    match e {
        ToolError::InvalidInput(s) => "invalid input: "@ + s@,
        ToolError::Internal(s) => "internal error: "@ + s@,
        ToolError::PolicyDenied(s) => "policy denied: "@ + s@,
        ToolError::RateLimited { retry_after_secs } => "rate limited: retry after "@
            + decimal_spec(retry_after_secs as nat) + "s"@,
    }
}

impl ToolError {
    /// The message that describes this error, e.g. `invalid input: ...`.
    pub fn message(&self) -> (r: String)
        ensures
            r@ == tool_error_message(*self),
    {
        match self {
            ToolError::InvalidInput(s) => concat("invalid input: ", s.as_str()),
            ToolError::Internal(s) => concat("internal error: ", s.as_str()),
            ToolError::PolicyDenied(s) => concat("policy denied: ", s.as_str()),
            ToolError::RateLimited { retry_after_secs } => {
                let n = u64_decimal(*retry_after_secs);
                concat3("rate limited: retry after ", n.as_str(), "s")
            },
        }
    }
}

} // verus!
