use vstd::prelude::*;

use super::json::JsonError;
use super::output::OutputError;

verus! {

/// The ways a script's evaluation fails.
#[derive(Debug, PartialEq, Eq)]
pub enum ScriptError<'d> {
    /// The JSON serializer failed.
    Json(JsonError),
    /// Bytes cannot be a command argument.
    NotAnArgument,
    /// A string was expected.
    NotAString,
    /// A list was expected.
    NotAList,
    /// No alias has this name.
    NoSuchAlias(&'d str),
    /// No variable has this name.
    VarNotFound(&'d str),
    /// A source alias did not leave a pipeline behind.
    NotAPipeline(&'d str),
    /// A pipeline without processes.
    EmptyPipeline,
    /// File content that is neither a string nor bytes.
    NotWritable,
    /// An option of the built-in `mkdir` that it does not know.
    UnknownOpt(char),
    /// The built-in `mkdir` without `-p`.
    MkdirWithoutP,
    /// The built-in `xc` cannot read a terminal.
    TtyForXc,
    /// The built-in `xc` cannot stream its output.
    StreamForXc,
    /// A command did not exit successfully.
    CommandFailed,
    /// The output of a command could not be read.
    Output(OutputError),
    /// What the runner reported of an outside operation that failed.
    Outside(String),
    /// The runner answered with an event of the wrong kind.
    Unexpected,
}

} // verus!
