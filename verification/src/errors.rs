//! The failures that end a run before the sandbox is started.

use vstd::prelude::*;
use crate::text::{join_by, joined_by, texts};

verus! {

/// Why the runner gave up before starting the sandbox runtime.
#[derive(Debug, Clone, PartialEq, Eq)]
pub enum RunnerError {
    /// The build-metadata provider could not be queried, or what it printed
    /// did not name a workspace root.
    MetadataUnavailable,
    /// No ancestor of the manifest directory holds the marker file, or the
    /// manifest directory is not known.
    MarkerNotFound,
    /// `target` cannot be written as a path relative to `base`.
    PathRelativization { target: String, base: String },
    /// The command line holds no `--` separator.
    MissingSeparator,
    /// The tokens before `--` hold no `--target`.
    MissingTargetArgument,
    /// The tokens before `--` hold `--target`, but are not exactly
    /// `--target wasm32-wasip2`; `tokens` are those that are not `--target`.
    UnrecognizedTarget { tokens: Vec<String> },
}

/// The diagnostic for each failure. It names the paths that could not be
/// related, and the tokens that were taken for a target.
pub open spec fn diagnostic(e: RunnerError) -> Seq<char> {
    match e {
        RunnerError::MetadataUnavailable => "workspace metadata is unavailable"@,
        RunnerError::MarkerNotFound => "no manifest found above the manifest directory"@,
        RunnerError::PathRelativization { target, base } => "cannot express \""@ + target@
            + "\" relative to \""@ + base@ + "\""@,
        RunnerError::MissingSeparator => "-- argument is required."@,
        RunnerError::MissingTargetArgument => "missing argument: --target t"@,
        RunnerError::UnrecognizedTarget { tokens } => "unrecognized target: \""@ + joined_by(
            texts(tokens@),
            " "@,
        ) + "\""@,
    }
}

/// Whether the failure lies in how the runner was called.
pub open spec fn is_usage_error(e: RunnerError) -> bool {
    e is MissingSeparator || e is MissingTargetArgument || e is UnrecognizedTarget
}

impl RunnerError {
    /// The diagnostic to print for this failure.
    pub fn message(&self) -> (r: String)
        ensures
            r@ == diagnostic(*self),
    {
        match self {
            RunnerError::MetadataUnavailable => "workspace metadata is unavailable".to_owned(),
            RunnerError::MarkerNotFound => "no manifest found above the manifest directory".to_owned(),
            RunnerError::PathRelativization { target, base } => {
                let mut out = "cannot express \"".to_owned();
                out.append(target.as_str());
                out.append("\" relative to \"");
                out.append(base.as_str());
                out.append("\"");
                out
            },
            RunnerError::MissingSeparator => "-- argument is required.".to_owned(),
            RunnerError::MissingTargetArgument => "missing argument: --target t".to_owned(),
            RunnerError::UnrecognizedTarget { tokens } => {
                let mut out = "unrecognized target: \"".to_owned();
                let named = join_by(tokens, " ");
                out.append(named.as_str());
                out.append("\"");
                out
            },
        }
    }

    /// The status with which the runner exits on this failure: never zero;
    /// `-1` where the runner was called wrongly, `1` otherwise.
    pub fn exit_code(&self) -> (r: i32)
        ensures
            r != 0,
            r == if is_usage_error(*self) {
                -1i32
            } else {
                1i32
            },
    {
        match self {
            RunnerError::MissingSeparator => -1,
            RunnerError::MissingTargetArgument => -1,
            RunnerError::UnrecognizedTarget { .. } => -1,
            RunnerError::MetadataUnavailable => 1,
            RunnerError::MarkerNotFound => 1,
            RunnerError::PathRelativization { .. } => 1,
        }
    }
}

} // verus!
