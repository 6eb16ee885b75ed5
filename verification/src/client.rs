//! Multiplexer client: the captured result of one external invocation,
//! the typed failures of the library, and the uniform success contract
//! that every checked invocation is held to.

use vstd::prelude::*;
use vstd::string::StringExecFns;
use vstd::utf8::{decode_utf8, valid_utf8};

verus! {

/// The captured outcome of one external-tool invocation: whether it
/// exited successfully, and the raw bytes of its two output streams.
/// Interpreted once to decide control flow, then discarded.
#[derive(Debug, Clone, PartialEq)]
pub struct CommandResult {
    pub exit_success: bool,
    pub stdout: Vec<u8>,
    pub stderr: Vec<u8>,
}

/// Every failure an operation can end in. All are terminal for the
/// operation; none is retried.
#[derive(Debug, Clone, PartialEq)]
pub enum TmwError {
    /// The requested name matches no workspace of the registry.
    UnknownWorkspace(String),
    /// The workspace directory has no textual form to hand to the tool.
    InvalidDirectory,
    /// The external tool exited with a failure; the payload is its
    /// decoded standard-error text.
    ExternalToolFailed(String),
    /// The external tool produced bytes that are not valid UTF-8.
    Encoding,
}

/// The human-readable text of each failure.
pub open spec fn spec_message(e: TmwError) -> Seq<char> {
    match e {
        TmwError::UnknownWorkspace(n) => "Project "@ + n@ + " is unknown"@,
        TmwError::InvalidDirectory => "Invalid workspace directory"@,
        TmwError::ExternalToolFailed(m) => m@,
        TmwError::Encoding => "Unexpected tmux output"@,
    }
}

impl TmwError {
    /// Renders the failure for the user.
    pub fn message(&self) -> (r: String)
        ensures
            r@ == spec_message(*self),
    {
        match self {
            TmwError::UnknownWorkspace(n) => String::from_str("Project ").concat(n.as_str())
                .concat(" is unknown"),
            TmwError::InvalidDirectory => String::from_str("Invalid workspace directory"),
            TmwError::ExternalToolFailed(m) => m.clone(),
            TmwError::Encoding => String::from_str("Unexpected tmux output"),
        }
    }
}

/// Relies on `String::from_utf8`: it succeeds exactly on valid UTF-8
/// input and returns that input's decoding.
#[verifier::external_body]
fn bytes_to_string(b: Vec<u8>) -> (r: Option<String>)
    ensures
        r is Some <==> valid_utf8(b@),
        r matches Some(s) ==> s@ == decode_utf8(b@),
{
    match String::from_utf8(b) {
        Ok(s) => Some(s),
        Err(_) => None,
    }
}

/// Decodes external-tool output, classifying bytes that are not valid
/// UTF-8 as an `Encoding` failure.
pub fn decode_output(b: Vec<u8>) -> (r: Result<String, TmwError>)
    ensures
        valid_utf8(b@) ==> (r matches Ok(s) && s@ == decode_utf8(b@)),
        !valid_utf8(b@) ==> r == Err::<String, TmwError>(TmwError::Encoding),
{
    match bytes_to_string(b) {
        Some(s) => Ok(s),
        None => Err(TmwError::Encoding),
    }
}

/// Whether `e` is the failure that a checked invocation with standard
/// error `stderr` ends in: the decoded standard-error text, or an
/// `Encoding` failure when those bytes are not valid UTF-8.
pub open spec fn is_tool_failure(e: TmwError, stderr: Seq<u8>) -> bool {
    if valid_utf8(stderr) {
        e matches TmwError::ExternalToolFailed(m) && m@ == decode_utf8(stderr)
    } else {
        e == TmwError::Encoding
    }
}

/// The uniform success contract: a successful exit yields the standard
/// output, a failing exit yields the decoded standard-error text as an
/// `ExternalToolFailed` failure (or `Encoding` when that text is not
/// valid UTF-8).
pub fn validated_output(result: CommandResult) -> (r: Result<Vec<u8>, TmwError>)
    ensures
        result.exit_success ==> (r matches Ok(out) && out@ == result.stdout@),
        !result.exit_success ==> (r matches Err(e) && is_tool_failure(e, result.stderr@)),
{
    if result.exit_success {
        Ok(result.stdout)
    } else {
        match decode_output(result.stderr) {
            Ok(text) => Err(TmwError::ExternalToolFailed(text)),
            Err(e) => Err(e),
        }
    }
}

} // verus!
