use vstd::prelude::*;
use vstd::utf8::encode_utf8;

use super::ast::{
    Expr,
    Io,
    Script,
    Stmt,
    Type,
};
use super::error::ScriptError;
use super::output::{
    output_ok,
    parsed_output,
};
use super::value::{
    has_bytes,
    json_of,
    jval_json,
    ValueView,
};

verus! {

/// Where a command is in its run.
#[derive(Debug, Clone, Copy, PartialEq, Eq, Structural)]
pub enum Phase {
    /// Argument `i` is evaluated next; the value of argument `i - 1` is in `r0`.
    Args(usize),
    /// Environment value `i` is evaluated next; value `i - 1` is in `r0`.
    Env(usize),
    /// The standard input is chosen next.
    Stdin,
    /// The path of the standard input file is in `r0`.
    StdinFile,
    /// The source alias of the standard input has run.
    StdinSource,
    /// The runner reports what came of the command.
    Await,
}

/// Where a file write is.
#[derive(Debug, Clone, Copy, PartialEq, Eq, Structural)]
pub enum WritePhase {
    /// The path is in `r0`.
    Path,
    /// The runner reports whether the file was created.
    Created,
    /// The content is in `r0`, or in the pipeline.
    Content,
    /// The runner reports whether the content was written.
    Written,
}

/// A piece of work left to the interpreter.
#[derive(Debug, Clone, Copy)]
pub enum Task<'p, 'd> {
    /// The statements of a script from index `i` on.
    Script(&'p Script<'d>, usize),
    Stmt(&'p Stmt<'d>),
    /// The statements of a `List` statement from index `i` on.
    Stmts(&'p Stmt<'d>, usize),
    Expr(&'p Expr<'d>),
    /// The items of a `List` expression from index `i` on; item `i - 1` is in
    /// `r0`.
    Items(&'p Expr<'d>, usize),
    /// Gives an alias back its statement after it ran.
    Realias(&'d str, &'p Stmt<'d>),
    /// Sets a variable to `r0`.
    SetVar(&'d str),
    /// Runs a loop body, forever.
    Repeat(&'p Stmt<'d>),
    /// Runs a `ForEach` body for each remaining item.
    Each(&'p Stmt<'d>),
    /// The source alias of an expression must have left a pipeline.
    CheckSource(&'d str),
    /// A command statement.
    Exec(&'p Stmt<'d>, Phase),
    /// A `WriteFile` or `WriteValue` statement.
    Write(&'p Stmt<'d>, WritePhase),
}

/// What the runner tells the interpreter.
#[derive(Debug)]
pub enum Event {
    /// Nothing: the last action asked for no answer.
    Resume,
    /// The action was done.
    Done,
    /// A command ran: its standard output and whether it exited successfully.
    Output(Vec<u8>, bool),
    /// The action failed, with the runner's message.
    Failed(String),
}

/// Where a command reads its standard input from.
#[derive(Debug)]
pub enum Stdin {
    /// The interpreter's own.
    Inherit,
    /// Nothing.
    Null,
    /// A file.
    File(String),
    /// The output of the last process of the pipeline, which has this many.
    Pipe(usize),
}

/// A command to start.
#[derive(Debug)]
pub struct Command<'d> {
    pub cmd: &'d str,
    pub args: Vec<String>,
    pub env: Vec<(String, String)>,
    pub cwd: Option<&'d str>,
    pub stdin: Stdin,
    /// Its standard output goes to the interpreter's own.
    pub display: bool,
    /// It joins the pipeline and is not waited for.
    pub stream: bool,
}

/// Where the built-in `xc` reads from.
#[derive(Debug)]
pub enum XcInput {
    Stdin,
    File(String),
    /// The output of the last process of the pipeline, which has this many.
    Pipe(usize),
}

/// What the interpreter asks of the runner.
#[derive(Debug)]
pub enum Action<'d> {
    /// Call `step` again with `Resume`.
    Continue,
    /// The script has run to its end.
    Finished,
    /// The script failed.
    Failed(ScriptError<'d>),
    /// Start a command; answer `Done` for a streamed one, else `Output`.
    Spawn(Command<'d>),
    /// Create these directories and their parents, printing each if asked;
    /// answer `Done`.
    MakeDirs(Vec<String>, bool),
    /// Run the built-in transcoder with these arguments; answer `Output`.
    RunXc(Vec<String>, XcInput),
    /// Print these bytes; answer `Resume`.
    Print(Vec<u8>),
    /// Create this file for writing; answer `Done`.
    CreateFile(String),
    /// Write these bytes to the file created last and close it; answer `Done`.
    WriteFile(Vec<u8>),
    /// Copy the output of the last process of the pipeline, which has this
    /// many, to the file created last, close it, and wait for each process,
    /// which must succeed; answer `Done`.
    CopyPipeline(usize),
}

// ---------------------------------------------------------------------------
// Models

pub enum StdinView {
    Inherit,
    Null,
    File(Seq<char>),
    Pipe(nat),
}

pub struct CommandView<'d> {
    pub cmd: &'d str,
    pub args: Seq<Seq<char>>,
    pub env: Seq<(Seq<char>, Seq<char>)>,
    pub cwd: Option<&'d str>,
    pub stdin: StdinView,
    pub display: bool,
    pub stream: bool,
}

pub enum XcInputView {
    Stdin,
    File(Seq<char>),
    Pipe(nat),
}

/// What the contracts say of an action.
pub enum ActionView<'d> {
    Continue,
    Finished,
    Failed(ScriptError<'d>),
    Spawn(CommandView<'d>),
    MakeDirs(Seq<Seq<char>>, bool),
    RunXc(Seq<Seq<char>>, XcInputView),
    Print(Seq<u8>),
    CreateFile(Seq<char>),
    WriteFile(Seq<u8>),
    CopyPipeline(nat),
}

/// What the contracts say of an event.
pub enum EventView {
    Resume,
    Done,
    Output(Seq<u8>, bool),
    Failed(String),
}

/// What the contracts say of the interpreter.
pub struct MachineView<'p, 'd> {
    pub r0: ValueView,
    pub each: ValueView,
    pub vars: Map<Seq<char>, ValueView>,
    pub aliases: Map<Seq<char>, &'p Stmt<'d>>,
    /// The number of processes of the pipeline, if there is one.
    pub h0: Option<nat>,
    pub tasks: Seq<Task<'p, 'd>>,
    /// The items of the `List` expressions being evaluated, innermost last.
    pub lists: Seq<Seq<ValueView>>,
    /// The items left to the `ForEach` statements being run, innermost last.
    pub items: Seq<Seq<ValueView>>,
    /// The arguments of the commands being prepared, innermost last.
    pub argvs: Seq<Seq<Seq<char>>>,
    /// The environments of the commands being prepared, innermost last.
    pub envs: Seq<Seq<(Seq<char>, Seq<char>)>>,
    /// A failure has ended the run.
    pub halted: bool,
}

pub open spec fn strings_view(v: Seq<String>) -> Seq<Seq<char>> {
    v.map_values(|s: String| s@)
}

pub open spec fn pairs_view(v: Seq<(String, String)>) -> Seq<(Seq<char>, Seq<char>)> {
    v.map_values(|p: (String, String)| (p.0@, p.1@))
}

pub open spec fn stdin_view(s: Stdin) -> StdinView {
    match s {
        Stdin::Inherit => StdinView::Inherit,
        Stdin::Null => StdinView::Null,
        Stdin::File(p) => StdinView::File(p@),
        Stdin::Pipe(n) => StdinView::Pipe(n as nat),
    }
}

pub open spec fn xc_input_view(s: XcInput) -> XcInputView {
    match s {
        XcInput::Stdin => XcInputView::Stdin,
        XcInput::File(p) => XcInputView::File(p@),
        XcInput::Pipe(n) => XcInputView::Pipe(n as nat),
    }
}

pub open spec fn action_view<'d>(a: Action<'d>) -> ActionView<'d> {
    match a {
        Action::Continue => ActionView::Continue,
        Action::Finished => ActionView::Finished,
        Action::Failed(e) => ActionView::Failed(e),
        Action::Spawn(c) => ActionView::Spawn(
            CommandView {
                cmd: c.cmd,
                args: strings_view(c.args@),
                env: pairs_view(c.env@),
                cwd: c.cwd,
                stdin: stdin_view(c.stdin),
                display: c.display,
                stream: c.stream,
            },
        ),
        Action::MakeDirs(p, v) => ActionView::MakeDirs(strings_view(p@), v),
        Action::RunXc(a, i) => ActionView::RunXc(strings_view(a@), xc_input_view(i)),
        Action::Print(b) => ActionView::Print(b@),
        Action::CreateFile(p) => ActionView::CreateFile(p@),
        Action::WriteFile(b) => ActionView::WriteFile(b@),
        Action::CopyPipeline(n) => ActionView::CopyPipeline(n as nat),
    }
}

pub open spec fn event_view(e: Event) -> EventView {
    match e {
        Event::Resume => EventView::Resume,
        Event::Done => EventView::Done,
        Event::Output(o, s) => EventView::Output(o@, s),
        Event::Failed(m) => EventView::Failed(m),
    }
}

// ---------------------------------------------------------------------------
// The built-in mkdir

/// The arguments of the built-in `mkdir` run in `cwd`: the program name `-`
/// dropped, options kept, paths put under `cwd`.
pub open spec fn mkdir_in(args: Seq<Seq<char>>, cwd: Seq<char>) -> Seq<Seq<char>>
    decreases args.len(),
{
    if args.len() == 0 {
        seq![]
    } else {
        let a = args.last();
        let rest = mkdir_in(args.drop_last(), cwd);
        if a == seq!['-'] {
            rest
        } else if a.len() > 0 && a[0] == '-' {
            rest.push(a)
        } else {
            rest.push(cwd + seq!['/'] + a)
        }
    }
}

/// The options and paths read so far: `-p` seen, `-v` seen, the paths.
pub type MkdirArgs = (bool, bool, Seq<Seq<char>>);

/// The option letters `cs` read after `st`; the first letter other than `p`
/// and `v` is refused.
pub open spec fn mkdir_letters(st: MkdirArgs, cs: Seq<char>) -> Result<MkdirArgs, char>
    decreases cs.len(),
{
    if cs.len() == 0 {
        Ok(st)
    } else {
        match mkdir_letters(st, cs.drop_last()) {
            Err(c) => Err(c),
            Ok(s) => if cs.last() == 'p' {
                Ok((true, s.1, s.2))
            } else if cs.last() == 'v' {
                Ok((s.0, true, s.2))
            } else {
                Err(cs.last())
            },
        }
    }
}

/// The arguments of the built-in `mkdir` read in order: one that starts with
/// `-` holds option letters, any other is a path.
pub open spec fn mkdir_args(args: Seq<Seq<char>>) -> Result<MkdirArgs, char>
    decreases args.len(),
{
    if args.len() == 0 {
        Ok((false, false, seq![]))
    } else {
        match mkdir_args(args.drop_last()) {
            Err(c) => Err(c),
            Ok(st) => {
                let a = args.last();
                if a.len() > 0 && a[0] == '-' {
                    mkdir_letters(st, a.drop_first())
                } else {
                    Ok((st.0, st.1, st.2.push(a)))
                }
            },
        }
    }
}

// ---------------------------------------------------------------------------
// The transitions

/// Which command a statement runs.
#[derive(Debug, Clone, Copy, PartialEq, Eq, Structural)]
pub enum CmdKind {
    Mkdir,
    Xc,
    Other,
}

pub open spec fn cmd_kind(cmd: &str) -> CmdKind {
    if cmd@ == "mkdir"@ {
        CmdKind::Mkdir
    } else if cmd@ == "xc"@ {
        CmdKind::Xc
    } else {
        CmdKind::Other
    }
}

/// The run ends with the failure `e`.
pub open spec fn fail<'p, 'd>(m: MachineView<'p, 'd>, e: ScriptError<'d>) -> (MachineView<'p, 'd>, ActionView<'d>) {
    (MachineView { halted: true, ..m }, ActionView::Failed(e))
}

/// `m` with `t` put on the tasks, to be done next.
pub open spec fn push<'p, 'd>(m: MachineView<'p, 'd>, t: Task<'p, 'd>) -> MachineView<'p, 'd> {
    MachineView { tasks: m.tasks.push(t), ..m }
}

/// Goes on with `m`.
pub open spec fn go<'p, 'd>(m: MachineView<'p, 'd>) -> (MachineView<'p, 'd>, ActionView<'d>) {
    (m, ActionView::Continue)
}

/// What a statement does when its turn comes; `m` no longer holds its task.
pub open spec fn stmt_step<'p, 'd>(m: MachineView<'p, 'd>, s: &'p Stmt<'d>) -> (MachineView<'p, 'd>, ActionView<'d>) {
    match *s {
        Stmt::Exec { cmd, .. } => {
            let argv = match cmd_kind(cmd) {
                CmdKind::Other => seq![],
                _ => seq![seq!['-']],
            };
            go(
                push(
                    MachineView { argvs: m.argvs.push(argv), envs: m.envs.push(seq![]), ..m },
                    Task::Exec(s, Phase::Args(0)),
                ),
            )
        },
        Stmt::ForEach(var, body) => if !m.vars.contains_key(var@) {
            fail(m, ScriptError::VarNotFound(var))
        } else {
            match m.vars[var@] {
                ValueView::List(l) => go(
                    push(
                        MachineView { vars: m.vars.remove(var@), items: m.items.push(l), ..m },
                        Task::Each(&*body),
                    ),
                ),
                _ => fail(m, ScriptError::NotAList),
            }
        },
        Stmt::Loop(body) => go(push(m, Task::Repeat(&*body))),
        Stmt::Let(name, body) => go(push(push(m, Task::SetVar(name)), Task::Stmt(&*body))),
        Stmt::Alias(name, body) => go(MachineView { aliases: m.aliases.insert(name@, &*body), ..m }),
        Stmt::AliasStmt(name) => if !m.aliases.contains_key(name@) {
            fail(m, ScriptError::NoSuchAlias(name))
        } else {
            let st = m.aliases[name@];
            go(
                push(
                    push(
                        MachineView { aliases: m.aliases.remove(name@), ..m },
                        Task::Realias(name, st),
                    ),
                    Task::Stmt(st),
                ),
            )
        },
        Stmt::Clone(name) => if !m.vars.contains_key(name@) {
            fail(m, ScriptError::VarNotFound(name))
        } else {
            go(MachineView { r0: m.vars[name@], ..m })
        },
        Stmt::Expr(e) => go(push(m, Task::Expr(&e))),
        Stmt::List(_) => go(push(m, Task::Stmts(s, 0))),
        Stmt::WriteFile(p, _) => go(push(push(m, Task::Write(s, WritePhase::Path)), Task::Expr(&p))),
        Stmt::WriteValue(p, _) => go(push(push(m, Task::Write(s, WritePhase::Path)), Task::Expr(&p))),
    }
}

/// What an expression does when its turn comes.
pub open spec fn expr_step<'p, 'd>(m: MachineView<'p, 'd>, e: &'p Expr<'d>) -> (MachineView<'p, 'd>, ActionView<'d>) {
    match *e {
        Expr::Str(x) => go(MachineView { r0: ValueView::Str(x@), ..m }),
        Expr::Str2 { s: x } => go(MachineView { r0: ValueView::Str(x@), ..m }),
        Expr::Bs { bs } => go(MachineView { r0: ValueView::Bytes(bs@), ..m }),
        Expr::Each => go(MachineView { r0: m.each, each: m.r0, ..m }),
        Expr::Var { var } => if !m.vars.contains_key(var@) {
            fail(m, ScriptError::VarNotFound(var))
        } else {
            go(MachineView { r0: m.vars[var@], ..m })
        },
        Expr::ReadSource { source } => if !m.aliases.contains_key(source@) {
            fail(m, ScriptError::NoSuchAlias(source))
        } else {
            go(push(push(m, Task::CheckSource(source)), Task::Stmt(m.aliases[source@])))
        },
        Expr::List(_) => go(push(MachineView { lists: m.lists.push(seq![]), ..m }, Task::Items(e, 0))),
    }
}

/// `m` with `r0` added to the innermost list being built, and emptied.
pub open spec fn collect<'p, 'd>(m: MachineView<'p, 'd>) -> MachineView<'p, 'd> {
    MachineView {
        lists: m.lists.update(m.lists.len() - 1, m.lists.last().push(m.r0)),
        r0: ValueView::Empty,
        ..m
    }
}

/// What the task of the items of a `List` expression does.
pub open spec fn items_step<'p, 'd>(m: MachineView<'p, 'd>, e: &'p Expr<'d>, i: nat) -> (MachineView<'p, 'd>, ActionView<'d>) {
    let m1 = if i > 0 {
        collect(m)
    } else {
        m
    };
    match *e {
        Expr::List(l) => if i < l.len() {
            go(push(push(m1, Task::Items(e, (i + 1) as usize)), Task::Expr(&l@[i as int])))
        } else {
            go(MachineView { r0: ValueView::List(m1.lists.last()), lists: m1.lists.drop_last(), ..m1 })
        },
        _ => go(m1),
    }
}

/// The argument that `r0` gives a command: for the built-ins a string as it
/// is; for others, also nothing for `Empty` and the JSON text of a list.
pub open spec fn arg_value(kind: CmdKind, r0: ValueView) -> Result<Seq<char>, ScriptError<'static>> {
    match kind {
        CmdKind::Other => match r0 {
            ValueView::Empty => Ok(seq![]),
            ValueView::Str(s) => Ok(s),
            ValueView::List(_) => Ok(json_of(r0)),
            ValueView::Bytes(_) => Err(ScriptError::NotAnArgument),
        },
        _ => match r0 {
            ValueView::Str(s) => Ok(s),
            _ => Err(ScriptError::NotAString),
        },
    }
}

/// `m` with the innermost arguments and environment of a command dropped.
pub open spec fn drop_command<'p, 'd>(m: MachineView<'p, 'd>) -> MachineView<'p, 'd> {
    MachineView { argvs: m.argvs.drop_last(), envs: m.envs.drop_last(), ..m }
}

/// Starts the command of `s` with `stdin`, and waits for the runner.
pub open spec fn spawn<'p, 'd>(m: MachineView<'p, 'd>, s: &'p Stmt<'d>, stdin: StdinView) -> (MachineView<'p, 'd>, ActionView<'d>) {
    match *s {
        Stmt::Exec { cmd, cwd, output, .. } => (
            push(drop_command(m), Task::Exec(s, Phase::Await)),
            ActionView::Spawn(
                CommandView {
                    cmd,
                    args: m.argvs.last(),
                    env: m.envs.last(),
                    cwd,
                    stdin,
                    display: output is Display,
                    stream: output is Stream,
                },
            ),
        ),
        _ => go(m),
    }
}

/// Runs the built-in transcoder on `input`, and waits for the runner.
pub open spec fn run_xc<'p, 'd>(m: MachineView<'p, 'd>, s: &'p Stmt<'d>, input: XcInputView) -> (MachineView<'p, 'd>, ActionView<'d>) {
    (push(drop_command(m), Task::Exec(s, Phase::Await)), ActionView::RunXc(m.argvs.last(), input))
}

/// Makes the directories of the built-in `mkdir`, and waits for the runner.
pub open spec fn run_mkdir<'p, 'd>(m: MachineView<'p, 'd>, s: &'p Stmt<'d>, cwd: Option<&'d str>) -> (MachineView<'p, 'd>, ActionView<'d>) {
    let args = match cwd {
        Some(c) => mkdir_in(m.argvs.last(), c@),
        None => m.argvs.last(),
    };
    match mkdir_args(args) {
        Err(c) => fail(m, ScriptError::UnknownOpt(c)),
        Ok(st) => if !st.0 {
            fail(m, ScriptError::MkdirWithoutP)
        } else {
            (push(drop_command(m), Task::Exec(s, Phase::Await)), ActionView::MakeDirs(st.2, st.1))
        },
    }
}

/// The value read from the output of a command, or the failure.
pub open spec fn read_output<'p, 'd>(m: MachineView<'p, 'd>, out: Seq<u8>, output: Type) -> (MachineView<'p, 'd>, ActionView<'d>) {
    match parsed_output(out, output) {
        Ok(v) => go(MachineView { r0: v, ..m }),
        Err(e) => fail(m, ScriptError::Output(e)),
    }
}

/// The answer to a wait, when it is not the one expected.
pub open spec fn unexpected<'p, 'd>(m: MachineView<'p, 'd>, ev: EventView) -> (MachineView<'p, 'd>, ActionView<'d>) {
    match ev {
        EventView::Failed(msg) => fail(m, ScriptError::Outside(msg)),
        _ => fail(m, ScriptError::Unexpected),
    }
}

/// The path of a file under `cwd`.
pub open spec fn under(cwd: &str, p: Seq<char>) -> Seq<char> {
    cwd@ + seq!['/'] + p
}

/// What the task of a command does in phase `ph`, with the event `ev`.
pub open spec fn exec_step<'p, 'd>(m: MachineView<'p, 'd>, s: &'p Stmt<'d>, ph: Phase, ev: EventView) -> (MachineView<'p, 'd>, ActionView<'d>) {
    match *s {
        Stmt::Exec { cmd, args, cwd, env, output, allow_failure, stdin } => {
            let kind = cmd_kind(cmd);
            match ph {
                Phase::Args(i) => {
                    let got = if i > 0 {
                        match arg_value(kind, m.r0) {
                            Ok(a) => Ok(
                                MachineView {
                                    argvs: m.argvs.update(m.argvs.len() - 1, m.argvs.last().push(a)),
                                    ..m
                                },
                            ),
                            Err(e) => Err(e),
                        }
                    } else {
                        Ok(m)
                    };
                    match got {
                        Err(e) => fail(m, e),
                        Ok(m1) => if i < args.len() {
                            go(push(push(m1, Task::Exec(s, Phase::Args((i + 1) as usize))), Task::Expr(&args@[i as int])))
                        } else {
                            match kind {
                                CmdKind::Other => go(push(m1, Task::Exec(s, Phase::Env(0)))),
                                _ => go(push(m1, Task::Exec(s, Phase::Stdin))),
                            }
                        },
                    }
                },
                Phase::Env(i) => {
                    let got = if i > 0 {
                        match m.r0 {
                            ValueView::Str(v) => Ok(
                                MachineView {
                                    envs: m.envs.update(
                                        m.envs.len() - 1,
                                        m.envs.last().push((env@[i - 1].0@, v)),
                                    ),
                                    ..m
                                },
                            ),
                            _ => Err(ScriptError::NotAString),
                        }
                    } else {
                        Ok(m)
                    };
                    match got {
                        Err(e) => fail(m, e),
                        Ok(m1) => if i < env.len() {
                            go(push(push(m1, Task::Exec(s, Phase::Env((i + 1) as usize))), Task::Expr(&env@[i as int].1)))
                        } else {
                            go(push(m1, Task::Exec(s, Phase::Stdin)))
                        },
                    }
                },
                Phase::Stdin => match kind {
                    CmdKind::Mkdir => run_mkdir(m, s, cwd),
                    _ => match cwd {
                        None => match kind {
                            CmdKind::Xc => run_xc(m, s, XcInputView::Stdin),
                            _ => spawn(m, s, StdinView::Inherit),
                        },
                        Some(_) => match stdin {
                            Io::Default => match kind {
                                CmdKind::Xc => run_xc(m, s, XcInputView::Stdin),
                                _ => spawn(m, s, StdinView::Null),
                            },
                            Io::Tty => match kind {
                                CmdKind::Xc => fail(m, ScriptError::TtyForXc),
                                _ => spawn(m, s, StdinView::Inherit),
                            },
                            Io::File(path) => go(push(push(m, Task::Exec(s, Phase::StdinFile)), Task::Expr(&path))),
                            Io::Source(name) => if !m.aliases.contains_key(name@) {
                                fail(m, ScriptError::NoSuchAlias(name))
                            } else {
                                go(push(push(m, Task::Exec(s, Phase::StdinSource)), Task::Stmt(m.aliases[name@])))
                            },
                        },
                    },
                },
                Phase::StdinFile => match (m.r0, cwd) {
                    (ValueView::Str(p), Some(c)) => match kind {
                        CmdKind::Xc => run_xc(m, s, XcInputView::File(under(c, p))),
                        _ => spawn(m, s, StdinView::File(under(c, p))),
                    },
                    _ => fail(m, ScriptError::NotAString),
                },
                Phase::StdinSource => {
                    let name = match stdin {
                        Io::Source(n) => n,
                        _ => cmd,
                    };
                    match m.h0 {
                        None => fail(m, ScriptError::NotAPipeline(name)),
                        Some(n) => {
                            let m1 = MachineView { h0: None, ..m };
                            if n == 0 {
                                fail(m1, ScriptError::EmptyPipeline)
                            } else {
                                match kind {
                                    CmdKind::Xc => run_xc(m1, s, XcInputView::Pipe(n)),
                                    _ => spawn(m1, s, StdinView::Pipe(n)),
                                }
                            }
                        },
                    }
                },
                Phase::Await => match kind {
                    CmdKind::Mkdir => match ev {
                        EventView::Done => read_output(m, seq![], output),
                        _ => unexpected(m, ev),
                    },
                    CmdKind::Xc => match ev {
                        EventView::Output(out, _) => match output {
                            Type::Display => (m, ActionView::Print(out)),
                            Type::Stream => fail(m, ScriptError::StreamForXc),
                            _ => read_output(m, out, output),
                        },
                        _ => unexpected(m, ev),
                    },
                    CmdKind::Other => match output {
                        Type::Stream => match ev {
                            EventView::Done => go(
                                MachineView {
                                    h0: Some(
                                        match m.h0 {
                                            Some(n) => n + 1,
                                            None => 1,
                                        },
                                    ),
                                    ..m
                                },
                            ),
                            _ => unexpected(m, ev),
                        },
                        _ => match ev {
                            EventView::Output(out, success) => if !success && !allow_failure {
                                fail(m, ScriptError::CommandFailed)
                            } else {
                                read_output(m, out, output)
                            },
                            _ => unexpected(m, ev),
                        },
                    },
                },
            }
        },
        _ => go(m),
    }
}

/// The bytes that a `WriteFile` or `WriteValue` statement writes, or the
/// failure.
pub open spec fn write_content<'d>(s: Stmt<'d>, r0: ValueView) -> Result<Seq<u8>, ScriptError<'d>> {
    match s {
        Stmt::WriteValue(_, _) => Ok(encode_utf8(jval_json(r0))),
        _ => match r0 {
            ValueView::Str(x) => Ok(encode_utf8(x)),
            ValueView::Bytes(b) => Ok(b),
            _ => Err(ScriptError::NotWritable),
        },
    }
}

/// What the task of a file write does in phase `ph`, with the event `ev`.
pub open spec fn write_step<'p, 'd>(m: MachineView<'p, 'd>, s: &'p Stmt<'d>, ph: WritePhase, ev: EventView) -> (MachineView<'p, 'd>, ActionView<'d>) {
    let content = match *s {
        Stmt::WriteFile(_, c) => c,
        Stmt::WriteValue(_, c) => c,
        _ => Expr::Each,
    };
    match ph {
        WritePhase::Path => match m.r0 {
            ValueView::Str(p) => (
                push(MachineView { r0: ValueView::Empty, ..m }, Task::Write(s, WritePhase::Created)),
                ActionView::CreateFile(p),
            ),
            _ => fail(m, ScriptError::NotAString),
        },
        WritePhase::Created => match ev {
            EventView::Done => go(push(push(m, Task::Write(s, WritePhase::Content)), Task::Expr(&content))),
            _ => unexpected(m, ev),
        },
        WritePhase::Content => match m.h0 {
            Some(n) => {
                let m1 = MachineView { h0: None, ..m };
                if n == 0 {
                    fail(m1, ScriptError::EmptyPipeline)
                } else {
                    (push(m1, Task::Write(s, WritePhase::Written)), ActionView::CopyPipeline(n))
                }
            },
            None => match write_content(*s, m.r0) {
                Ok(b) => (push(m, Task::Write(s, WritePhase::Written)), ActionView::WriteFile(b)),
                Err(e) => fail(m, e),
            },
        },
        WritePhase::Written => match ev {
            EventView::Done => go(m),
            _ => unexpected(m, ev),
        },
    }
}

/// What one step of the interpreter does with the event `ev`: the next task
/// is taken off and done.
pub open spec fn step_spec<'p, 'd>(m: MachineView<'p, 'd>, ev: EventView) -> (MachineView<'p, 'd>, ActionView<'d>) {
    if m.tasks.len() == 0 {
        (m, ActionView::Finished)
    } else {
        let t = m.tasks.last();
        let m0 = MachineView { tasks: m.tasks.drop_last(), ..m };
        match t {
            Task::Script(sc, i) => if i < sc.0.len() {
                go(push(push(m0, Task::Script(sc, (i + 1) as usize)), Task::Stmt(&sc.0@[i as int])))
            } else {
                go(m0)
            },
            Task::Stmt(s) => stmt_step(m0, s),
            Task::Stmts(s, i) => match *s {
                Stmt::List(l) => if i < l.len() {
                    go(push(push(m0, Task::Stmts(s, (i + 1) as usize)), Task::Stmt(&l@[i as int])))
                } else {
                    go(m0)
                },
                _ => go(m0),
            },
            Task::Expr(e) => expr_step(m0, e),
            Task::Items(e, i) => items_step(m0, e, i as nat),
            Task::Realias(name, st) => go(MachineView { aliases: m0.aliases.insert(name@, st), ..m0 }),
            Task::SetVar(name) => go(
                MachineView { vars: m0.vars.insert(name@, m0.r0), r0: ValueView::Empty, ..m0 },
            ),
            Task::Repeat(body) => go(push(push(m0, Task::Repeat(body)), Task::Stmt(body))),
            Task::Each(body) => if m0.items.last().len() > 0 {
                go(
                    push(
                        push(
                            MachineView {
                                each: m0.items.last()[0],
                                items: m0.items.update(m0.items.len() - 1, m0.items.last().drop_first()),
                                ..m0
                            },
                            Task::Each(body),
                        ),
                        Task::Stmt(body),
                    ),
                )
            } else {
                go(MachineView { items: m0.items.drop_last(), ..m0 })
            },
            Task::CheckSource(name) => match m0.h0 {
                Some(_) => go(m0),
                None => fail(m0, ScriptError::NotAPipeline(name)),
            },
            Task::Exec(s, ph) => exec_step(m0, s, ph, ev),
            Task::Write(s, ph) => write_step(m0, s, ph, ev),
        }
    }
}

/// The steps on which the interpreter would stop with a panic: writing a
/// value that holds bytes as JSON, reading `VBoxVms` output whose line has its
/// `}` before its `{`, and a pipeline grown past the largest `usize`.
pub open spec fn step_panics<'p, 'd>(m: MachineView<'p, 'd>, ev: EventView) -> bool {
    m.tasks.len() > 0 && match m.tasks.last() {
        Task::Write(s, WritePhase::Content) => {
            &&& s matches Stmt::WriteValue(_, _)
            &&& m.h0 is None
            &&& has_bytes(m.r0)
        },
        Task::Exec(s, Phase::Await) => match (*s, ev) {
            (Stmt::Exec { cmd, output, .. }, EventView::Done) => {
                &&& cmd_kind(cmd) is Other
                &&& output is Stream
                &&& m.h0 == Some(usize::MAX as nat)
            },
            (Stmt::Exec { cmd, output, allow_failure, .. }, EventView::Output(out, success)) => {
                &&& !(cmd_kind(cmd) is Mkdir)
                &&& !(output is Display) && !(output is Stream)
                &&& (cmd_kind(cmd) is Xc || success || allow_failure)
                &&& !output_ok(out, output)
            },
            _ => false,
        },
        _ => false,
    }
}

// ---------------------------------------------------------------------------
// Well-formedness

/// The numbers of unfinished `List` expressions, `ForEach` statements and
/// commands being prepared among the tasks.
pub open spec fn frame_counts<'p, 'd>(ts: Seq<Task<'p, 'd>>) -> (nat, nat, nat)
    decreases ts.len(),
{
    if ts.len() == 0 {
        (0, 0, 0)
    } else {
        let c = frame_counts(ts.drop_last());
        match ts.last() {
            Task::Items(_, _) => (c.0 + 1, c.1, c.2),
            Task::Each(_) => (c.0, c.1 + 1, c.2),
            Task::Exec(_, ph) => if ph is Await {
                c
            } else {
                (c.0, c.1, c.2 + 1)
            },
            _ => c,
        }
    }
}

/// The index a task holds is within the sequence it walks.
pub open spec fn task_ok<'p, 'd>(t: Task<'p, 'd>) -> bool {
    match t {
        Task::Script(sc, i) => i <= sc.0.len(),
        Task::Stmts(s, i) => match *s {
            Stmt::List(l) => i <= l.len(),
            _ => false,
        },
        Task::Items(e, i) => match *e {
            Expr::List(l) => i <= l.len(),
            _ => false,
        },
        Task::Exec(s, ph) => match *s {
            Stmt::Exec { args, env, .. } => match ph {
                Phase::Args(i) => i <= args.len(),
                Phase::Env(i) => i <= env.len(),
                _ => true,
            },
            _ => false,
        },
        Task::Write(s, _) => s is WriteFile || s is WriteValue,
        _ => true,
    }
}

/// Each stack holds one entry per task that uses it, and every task is in
/// bounds.
pub open spec fn machine_wf<'p, 'd>(m: MachineView<'p, 'd>) -> bool {
    let c = frame_counts(m.tasks);
    &&& m.lists.len() == c.0
    &&& m.items.len() == c.1
    &&& m.argvs.len() == c.2
    &&& m.envs.len() == c.2
    &&& forall|i: int| 0 <= i < m.tasks.len() ==> task_ok(#[trigger] m.tasks[i])
}

/// The state that a step reaches, as far as `step_spec` fixes it: all of it,
/// unless the step failed.
pub open spec fn follows<'p, 'd>(
    after: MachineView<'p, 'd>,
    r: ActionView<'d>,
    exp: (MachineView<'p, 'd>, ActionView<'d>),
) -> bool {
    &&& r == exp.1
    &&& if r is Failed {
        after.halted
    } else {
        after == exp.0
    }
}

/// How putting a task on the stack changes the frame counts.
pub broadcast proof fn lemma_counts_push<'p, 'd>(ts: Seq<Task<'p, 'd>>, t: Task<'p, 'd>)
    ensures
        #[trigger] frame_counts(ts.push(t)) == match t {
            Task::Items(_, _) => (frame_counts(ts).0 + 1, frame_counts(ts).1, frame_counts(ts).2),
            Task::Each(_) => (frame_counts(ts).0, frame_counts(ts).1 + 1, frame_counts(ts).2),
            Task::Exec(_, ph) => if ph is Await {
                frame_counts(ts)
            } else {
                (frame_counts(ts).0, frame_counts(ts).1, frame_counts(ts).2 + 1)
            },
            _ => frame_counts(ts),
        },
{
    assert(ts.push(t).drop_last() =~= ts);
}

/// `m0` is well formed once the task `t` is put back on it.
pub open spec fn popped_wf<'p, 'd>(m0: MachineView<'p, 'd>, t: Task<'p, 'd>) -> bool {
    let c = frame_counts(m0.tasks.push(t));
    &&& task_ok(t)
    &&& forall|i: int| 0 <= i < m0.tasks.len() ==> task_ok(#[trigger] m0.tasks[i])
    &&& m0.lists.len() == c.0
    &&& m0.items.len() == c.1
    &&& m0.argvs.len() == c.2
    &&& m0.envs.len() == c.2
}

/// A step that does not fail keeps the machine well formed.
pub open spec fn keeps_wf<'p, 'd>(r: (MachineView<'p, 'd>, ActionView<'d>)) -> bool {
    !(r.1 is Failed) ==> machine_wf(r.0)
}

proof fn lemma_stmt_wf<'p, 'd>(m0: MachineView<'p, 'd>, s: &'p Stmt<'d>)
    requires
        popped_wf(m0, Task::Stmt(s)),
    ensures
        keeps_wf(stmt_step(m0, s)),
{
    broadcast use lemma_counts_push;

    let n = stmt_step(m0, s).0;
    assert forall|i: int| 0 <= i < n.tasks.len() implies task_ok(#[trigger] n.tasks[i]) by {
        if i < m0.tasks.len() {
            assert(n.tasks[i] == m0.tasks[i]);
        }
    }
}

proof fn lemma_expr_wf<'p, 'd>(m0: MachineView<'p, 'd>, e: &'p Expr<'d>)
    requires
        popped_wf(m0, Task::Expr(e)),
    ensures
        keeps_wf(expr_step(m0, e)),
{
    broadcast use lemma_counts_push;

    let n = expr_step(m0, e).0;
    assert forall|i: int| 0 <= i < n.tasks.len() implies task_ok(#[trigger] n.tasks[i]) by {
        if i < m0.tasks.len() {
            assert(n.tasks[i] == m0.tasks[i]);
        }
    }
}

proof fn lemma_items_wf<'p, 'd>(m0: MachineView<'p, 'd>, e: &'p Expr<'d>, i: usize)
    requires
        popped_wf(m0, Task::Items(e, i)),
    ensures
        keeps_wf(items_step(m0, e, i as nat)),
{
    broadcast use lemma_counts_push;

    let n = items_step(m0, e, i as nat).0;
    let c = frame_counts(m0.tasks);
    assert(m0.lists.len() == c.0 + 1);
    assert forall|j: int| 0 <= j < n.tasks.len() implies task_ok(#[trigger] n.tasks[j]) by {
        if j < m0.tasks.len() {
            assert(n.tasks[j] == m0.tasks[j]);
        }
    }
    match *e {
        Expr::List(l) => {
            if i < l.len() {
                assert(task_ok(Task::Items(e, (i + 1) as usize)));
            }
        },
        _ => {},
    }
}

proof fn lemma_exec_wf<'p, 'd>(m0: MachineView<'p, 'd>, s: &'p Stmt<'d>, ph: Phase, ev: EventView)
    requires
        popped_wf(m0, Task::Exec(s, ph)),
    ensures
        keeps_wf(exec_step(m0, s, ph, ev)),
{
    broadcast use lemma_counts_push;

    let n = exec_step(m0, s, ph, ev).0;
    assert forall|j: int| 0 <= j < n.tasks.len() implies task_ok(#[trigger] n.tasks[j]) by {
        if j < m0.tasks.len() {
            assert(n.tasks[j] == m0.tasks[j]);
        }
    }
}

proof fn lemma_write_wf<'p, 'd>(m0: MachineView<'p, 'd>, s: &'p Stmt<'d>, ph: WritePhase, ev: EventView)
    requires
        popped_wf(m0, Task::Write(s, ph)),
    ensures
        keeps_wf(write_step(m0, s, ph, ev)),
{
    broadcast use lemma_counts_push;

    let n = write_step(m0, s, ph, ev).0;
    assert forall|j: int| 0 <= j < n.tasks.len() implies task_ok(#[trigger] n.tasks[j]) by {
        if j < m0.tasks.len() {
            assert(n.tasks[j] == m0.tasks[j]);
        }
    }
}

/// Every step that does not fail keeps the machine well formed: each stack
/// holds one entry per task that uses it, and every task is in bounds.
pub proof fn lemma_step_keeps_wf<'p, 'd>(m: MachineView<'p, 'd>, ev: EventView)
    requires
        machine_wf(m),
        !m.halted,
    ensures
        keeps_wf(step_spec(m, ev)),
{
    broadcast use lemma_counts_push;

    if m.tasks.len() > 0 {
        let t = m.tasks.last();
        let m0 = MachineView { tasks: m.tasks.drop_last(), ..m };
        assert(m0.tasks.push(t) =~= m.tasks);
        assert(task_ok(m.tasks[m.tasks.len() - 1]));
        assert forall|i: int| 0 <= i < m0.tasks.len() implies task_ok(#[trigger] m0.tasks[i]) by {
            assert(m0.tasks[i] == m.tasks[i]);
        }
        assert(popped_wf(m0, t));
        match t {
            Task::Stmt(s) => lemma_stmt_wf(m0, s),
            Task::Expr(e) => lemma_expr_wf(m0, e),
            Task::Items(e, i) => lemma_items_wf(m0, e, i),
            Task::Exec(s, ph) => lemma_exec_wf(m0, s, ph, ev),
            Task::Write(s, ph) => lemma_write_wf(m0, s, ph, ev),
            _ => {
                let n = step_spec(m, ev).0;
                assert forall|j: int| 0 <= j < n.tasks.len() implies task_ok(#[trigger] n.tasks[j]) by {
                    if j < m0.tasks.len() {
                        assert(n.tasks[j] == m0.tasks[j]);
                    }
                }
            },
        }
    }
}

/// A `Let` of a string literal binds the name to the string: four steps take
/// its tasks off, and leave the variable set, `r0` empty and everything else
/// as it was.
pub proof fn law_let_binds<'p, 'd>(m: MachineView<'p, 'd>, ev: EventView, name: &'d str, x: &'d str)
    requires
        m.tasks.len() > 0,
        m.tasks.last() matches Task::Stmt(s) && *s == Stmt::Let(name, Box::new(Stmt::Expr(Expr::Str(x)))),
    ensures
        ({
            let r1 = step_spec(m, ev);
            let r2 = step_spec(r1.0, ev);
            let r3 = step_spec(r2.0, ev);
            let r4 = step_spec(r3.0, ev);
            &&& r1.1 is Continue && r2.1 is Continue && r3.1 is Continue && r4.1 is Continue
            &&& r4.0 == MachineView {
                vars: m.vars.insert(name@, ValueView::Str(x@)),
                r0: ValueView::Empty,
                tasks: m.tasks.drop_last(),
                ..m
            }
        }),
{
    let r1 = step_spec(m, ev);
    let r2 = step_spec(r1.0, ev);
    let r3 = step_spec(r2.0, ev);
    let r4 = step_spec(r3.0, ev);
    let rest = m.tasks.drop_last();
    assert(r1.0.tasks.drop_last().drop_last() =~= rest);
    assert(r2.0.tasks.drop_last().drop_last() =~= rest);
    assert(r3.0.tasks.drop_last() =~= rest);
    assert(r4.0.tasks =~= rest);
}

/// A command allowed to fail has its output read whether it succeeded or
/// not: once it has run (and its output is not a stream), the step gives the
/// same for a failed run as for a successful one, and never stops the run with
/// `CommandFailed`; a command not allowed to fail stops the run with
/// `CommandFailed` when it fails.
pub proof fn law_allow_failure<'p, 'd>(m: MachineView<'p, 'd>, s: &'p Stmt<'d>, out: Seq<u8>)
    requires
        m.tasks.len() > 0,
        m.tasks.last() == Task::Exec(s, Phase::Await),
        *s matches Stmt::Exec { cmd, output, .. } && cmd_kind(cmd) is Other && !(output is Stream),
    ensures
        !(step_spec(m, EventView::Output(out, true)).1 matches ActionView::Failed(ScriptError::CommandFailed)),
        *s matches Stmt::Exec { allow_failure, .. } && allow_failure ==> step_spec(
            m,
            EventView::Output(out, false),
        ) == step_spec(m, EventView::Output(out, true)),
        *s matches Stmt::Exec { allow_failure, .. } && !allow_failure ==> step_spec(
            m,
            EventView::Output(out, false),
        ).1 matches ActionView::Failed(ScriptError::CommandFailed),
{
}

/// What a path argument is to the built-in `mkdir`: an argument that does not
/// start with `-`.
pub open spec fn is_mkdir_path(a: Seq<char>) -> bool {
    !(a.len() > 0 && a[0] == '-')
}

proof fn lemma_mkdir_letters_keep_paths(st: MkdirArgs, cs: Seq<char>)
    ensures
        mkdir_letters(st, cs) matches Ok(s) ==> s.2 == st.2,
    decreases cs.len(),
{
    if cs.len() > 0 {
        lemma_mkdir_letters_keep_paths(st, cs.drop_last());
    }
}

/// The built-in `mkdir` keeps every path: where its arguments are accepted,
/// the paths are exactly the arguments that do not start with `-`, in order.
pub proof fn law_mkdir_keeps_every_path(args: Seq<Seq<char>>)
    ensures
        mkdir_args(args) matches Ok(st) ==> st.2 == args.filter(|a: Seq<char>| is_mkdir_path(a)),
    decreases args.len(),
{
    reveal(Seq::filter);
    if args.len() > 0 {
        law_mkdir_keeps_every_path(args.drop_last());
        if let Ok(st) = mkdir_args(args.drop_last()) {
            let a = args.last();
            if a.len() > 0 && a[0] == '-' {
                lemma_mkdir_letters_keep_paths(st, a.drop_first());
            }
        }
    }
}

} // verus!
