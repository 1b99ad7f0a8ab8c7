//! Error types of the path operations and their messages.

use vstd::prelude::*;

verus! {

/// What `format!("{:?}", s)` yields for a string slice: the text in double
/// quotes with std's escapes.
pub uninterp spec fn debug_quoted(s: Seq<char>) -> Seq<char>;

/// Calls std's `Debug` formatting of `str` (`format!("{:?}", s)`); the
/// result is named `debug_quoted` of the text, nothing more is claimed.
#[verifier::external_body]
fn debug_quote(s: &str) -> (r: String)
    ensures
        r@ == debug_quoted(s@),
{
    format!("{:?}", s)
}

/// `prefix` followed by `rest`, as a new string.
fn joined(prefix: &str, rest: &str) -> (r: String)
    ensures
        r@ == prefix@ + rest@,
{
    prefix.to_owned().concat(rest)
}

/// `prefix` followed by the quoted form of `value`.
fn with_quoted(prefix: &str, value: &String) -> (r: String)
    ensures
        r@ == prefix@ + debug_quoted(value@),
{
    let q = debug_quote(value.as_str());
    joined(prefix, q.as_str())
}

/// Errors of the path operations (clipping and boolean operations).
#[derive(Debug)]
pub enum PathOpsErr {
    InvalidOp(String),
    InvalidMode(String),
    InvalidFillRule(String),
    EmptyBatch,
    OpenSubpath,
    /// A path element appeared without a preceding `MoveTo`.
    MalformedPath,
    /// Any failure (or panic) reported by the sweep-line geometry.
    LinesweeperFailed(String),
}

impl PathOpsErr {
    /// The human-readable message of the error.
    pub open spec fn spec_message(&self) -> Seq<char> {
        match self {
            PathOpsErr::InvalidOp(op) => "invalid boolean op: "@ + debug_quoted(op@),
            PathOpsErr::InvalidMode(mode) => "invalid clip mode: "@ + debug_quoted(mode@),
            PathOpsErr::InvalidFillRule(rule) => "invalid fill-rule: "@ + debug_quoted(rule@),
            PathOpsErr::EmptyBatch => "path operation wasm: batch cannot be empty"@,
            PathOpsErr::OpenSubpath => "path operation wasm: every subpath should be closed"@,
            PathOpsErr::MalformedPath =>
                "path operation wasm: found a malformed path which has a segment without preceding move-to"@,
            PathOpsErr::LinesweeperFailed(msg) => "path operation wasm: linesweeper failed: "@ + msg@,
        }
    }

    /// The message that the error displays.
    pub fn message(&self) -> (r: String)
        ensures
            r@ == self.spec_message(),
    {
        match self {
            PathOpsErr::InvalidOp(op) => with_quoted("invalid boolean op: ", op),
            PathOpsErr::InvalidMode(mode) => with_quoted("invalid clip mode: ", mode),
            PathOpsErr::InvalidFillRule(rule) => with_quoted("invalid fill-rule: ", rule),
            PathOpsErr::EmptyBatch => "path operation wasm: batch cannot be empty".to_owned(),
            PathOpsErr::OpenSubpath => "path operation wasm: every subpath should be closed".to_owned(),
            PathOpsErr::MalformedPath =>
                "path operation wasm: found a malformed path which has a segment without preceding move-to".to_owned(),
            PathOpsErr::LinesweeperFailed(msg) =>
                joined("path operation wasm: linesweeper failed: ", msg.as_str()),
        }
    }
}

/// `x` and `y` are the same error: the same variant with the same text.
pub open spec fn same_error(x: PathOpsErr, y: PathOpsErr) -> bool {
    match x {
        PathOpsErr::InvalidOp(a) => y matches PathOpsErr::InvalidOp(b) && a@ == b@,
        PathOpsErr::InvalidMode(a) => y matches PathOpsErr::InvalidMode(b) && a@ == b@,
        PathOpsErr::InvalidFillRule(a) => y matches PathOpsErr::InvalidFillRule(b) && a@ == b@,
        PathOpsErr::EmptyBatch => y is EmptyBatch,
        PathOpsErr::OpenSubpath => y is OpenSubpath,
        PathOpsErr::MalformedPath => y is MalformedPath,
        PathOpsErr::LinesweeperFailed(a) => y matches PathOpsErr::LinesweeperFailed(b) && a@ == b@,
    }
}

/// Errors of the stand-alone path boolean operation.
#[derive(Debug)]
pub enum BoolError {
    InvalidOp(String),
    InvalidFillRule(String),
    OpenSubpath,
    /// A path element appeared without a preceding `MoveTo`.
    MalformedPath,
    /// Any failure (or panic) reported by the sweep-line geometry.
    LinesweeperFailed(String),
}

impl BoolError {
    /// The human-readable message of the error.
    pub open spec fn spec_message(&self) -> Seq<char> {
        match self {
            BoolError::InvalidOp(op) => "invalid path-bool op: "@ + debug_quoted(op@),
            BoolError::InvalidFillRule(rule) => "invalid fill-rule: "@ + debug_quoted(rule@),
            BoolError::OpenSubpath => "path-bool requires every subpath to be closed"@,
            BoolError::MalformedPath => "malformed path: segment without preceding move-to"@,
            BoolError::LinesweeperFailed(msg) => "linesweeper failed: "@ + msg@,
        }
    }

    /// The message that the error displays.
    pub fn message(&self) -> (r: String)
        ensures
            r@ == self.spec_message(),
    {
        match self {
            BoolError::InvalidOp(op) => with_quoted("invalid path-bool op: ", op),
            BoolError::InvalidFillRule(rule) => with_quoted("invalid fill-rule: ", rule),
            BoolError::OpenSubpath => "path-bool requires every subpath to be closed".to_owned(),
            BoolError::MalformedPath => "malformed path: segment without preceding move-to".to_owned(),
            BoolError::LinesweeperFailed(msg) => joined("linesweeper failed: ", msg.as_str()),
        }
    }
}

} // verus!
