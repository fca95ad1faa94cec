//! What tools report back to the agent, and how risky a call is.
use vstd::prelude::*;
use crate::text::push_str;

verus! {

/// The text a tool produced.
#[derive(Debug, Clone)]
pub struct ToolOutput {
    pub content: String,
}

/// How much a tool call can change or damage.
#[derive(Debug, Clone, Copy, PartialEq, Eq, Structural)]
pub enum ToolRisk {
    Safe,
    Mutating,
    Dangerous,
}

/// Why a tool call did not produce output.
#[derive(Debug)]
pub enum ToolError {
    NotFound(String),
    InvalidArgs(String),
    /// An I/O failure, by its description.
    Io(String),
    Denied(String),
    Timeout(std::time::Duration),
}

/// A confirmation question put to the user before a tool runs.
#[derive(Debug, Clone)]
pub struct ConfirmRequest {
    pub tool_name: String,
    pub risk: ToolRisk,
    pub detail: String,
}

/// Whether `t` is the text a user sees for the error `e`.
pub open spec fn describes_tool_error(e: ToolError, t: Seq<char>) -> bool {
    match e {
        ToolError::NotFound(n) => t == "tool not found: "@ + n@,
        ToolError::InvalidArgs(m) => t == "invalid arguments: "@ + m@,
        ToolError::Io(m) => t == "io error: "@ + m@,
        ToolError::Denied(m) => t == "denied: "@ + m@,
        ToolError::Timeout(d) => t == "timed out after "@ + duration_text(d),
    }
}

/// The text std's `Debug` writes for a duration (such as `50ms`).
pub uninterp spec fn duration_text(d: std::time::Duration) -> Seq<char>;

/// Debug rendering of a duration.
///
/// Calls `format!("{:?}", d)`, std's `Debug` for `Duration`; the text is
/// named `duration_text(d)`.
#[verifier::external_body]
fn duration_debug(d: &std::time::Duration) -> (r: String)
    ensures
        r@ == duration_text(*d),
{
    format!("{:?}", d)
}

impl ToolError {
    /// The text a user sees for this error.
    pub fn message(&self) -> (r: String)
        ensures
            describes_tool_error(*self, r@),
    {
        let mut s = String::new();
        match self {
            ToolError::NotFound(n) => {
                push_str(&mut s, "tool not found: ");
                push_str(&mut s, n.as_str());
            },
            ToolError::InvalidArgs(m) => {
                push_str(&mut s, "invalid arguments: ");
                push_str(&mut s, m.as_str());
            },
            ToolError::Io(m) => {
                push_str(&mut s, "io error: ");
                push_str(&mut s, m.as_str());
            },
            ToolError::Denied(m) => {
                push_str(&mut s, "denied: ");
                push_str(&mut s, m.as_str());
            },
            ToolError::Timeout(d) => {
                push_str(&mut s, "timed out after ");
                let text = duration_debug(d);
                push_str(&mut s, text.as_str());
            },
        }
        s
    }
}

/// The text of a required string argument: `value`, the argument as found
/// in the call's arguments, or, when it is absent, the error that names the
/// missing field.
pub fn required_field<'a>(value: Option<&'a str>, field: &str) -> (r: Result<&'a str, ToolError>)
    ensures
        match value {
            Some(v) => r matches Ok(t) && t@ == v@,
            None => r matches Err(ToolError::InvalidArgs(m)) && m@ == "missing '"@ + field@ + "' field"@,
        },
{
    match value {
        Some(v) => Ok(v),
        None => {
            let mut m = String::new();
            push_str(&mut m, "missing '");
            push_str(&mut m, field);
            push_str(&mut m, "' field");
            Err(ToolError::InvalidArgs(m))
        },
    }
}

} // verus!
