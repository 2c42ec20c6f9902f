use vstd::prelude::*;

verus! {

/// A script: statements run in order.
#[derive(Debug)]
pub struct Script<'d>(pub Vec<Stmt<'d>>);

/// A statement of a script.
#[derive(Debug)]
pub enum Stmt<'d> {
    /// Run a command.
    Exec {
        cmd: &'d str,
        args: Vec<Expr<'d>>,
        cwd: Option<&'d str>,
        /// The environment variables, ordered by name.
        env: Vec<(&'d str, Expr<'d>)>,
        output: Type,
        allow_failure: bool,
        stdin: Io<'d>,
    },
    /// Run the statement once for each item of the list variable, which is
    /// taken out; `Each` gives the item.
    ForEach(&'d str, Box<Stmt<'d>>),
    /// Run the statement forever.
    Loop(Box<Stmt<'d>>),
    /// Run the statement, then set the variable to its value.
    Let(&'d str, Box<Stmt<'d>>),
    /// Name the statement, to be run later.
    Alias(&'d str, Box<Stmt<'d>>),
    /// Run the statement of an alias.
    AliasStmt(&'d str),
    /// Take a copy of a variable's value.
    Clone(&'d str),
    /// Evaluate an expression.
    Expr(Expr<'d>),
    /// Run the statements in order.
    List(Vec<Stmt<'d>>),
    /// Write a string or bytes, or the pipeline's output, to a file.
    WriteFile(Expr<'d>, Expr<'d>),
    /// Write a value as JSON, or the pipeline's output, to a file.
    WriteValue(Expr<'d>, Expr<'d>),
}

/// An expression of a script.
#[derive(Debug, PartialEq, Eq)]
pub enum Expr<'d> {
    /// A string.
    Str(&'d str),
    /// A string, written as a record.
    Str2 { s: &'d str },
    /// Bytes.
    Bs { bs: Vec<u8> },
    /// The item of the innermost `ForEach`.
    Each,
    /// A copy of a variable's value.
    Var { var: &'d str },
    /// Run an alias that must start a pipeline.
    ReadSource { source: &'d str },
    /// The values of the expressions, in order.
    List(Vec<Expr<'d>>),
}

/// How the standard output of a command is read.
#[derive(Debug, Clone, Copy, PartialEq, Eq, Structural)]
pub enum Type {
    /// Ignored.
    Null,
    /// The ids in braces of VirtualBox's machine listing.
    VBoxVms,
    /// UTF-8 text.
    String,
    /// Shown, not read.
    Display,
    /// Left to the pipeline.
    Stream,
}

impl Default for Type {
    fn default() -> (r: Self)
        ensures
            r is Null,
    {
        Type::Null
    }
}

/// Where the standard input of a command comes from.
#[derive(Debug, PartialEq, Eq)]
pub enum Io<'d> {
    /// The default input of the command.
    Default,
    /// A file under the working directory.
    File(Expr<'d>),
    /// The terminal.
    Tty,
    /// The pipeline that an alias starts.
    Source(&'d str),
}

impl<'d> Default for Io<'d> {
    fn default() -> (r: Self)
        ensures
            r is Default,
    {
        Io::Default
    }
}

} // verus!
