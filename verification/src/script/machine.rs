use vstd::prelude::*;
use vstd::slice::slice_to_vec;

use super::ast::{
    Expr,
    Io,
    Script,
    Stmt,
    Type,
};
use super::engine::{
    value_has_bytes,
    value_json,
    with_name,
    with_val_id,
    Engine,
    Pipeline,
    Strval,
};
use super::error::ScriptError;
use super::eval::{
    action_view,
    lemma_counts_push,
    lemma_step_keeps_wf,
    write_step,
    exec_step,
    step_panics,
    arg_value,
    event_view,
    read_output,
    run_mkdir,
    run_xc,
    spawn,
    stdin_view,
    unexpected,
    xc_input_view,
    Command,
    Event,
    Stdin,
    XcInput,
    mkdir_args,
    mkdir_letters,
    mkdir_in,
    under,
    MkdirArgs,
    step_spec,
    EventView,
    cmd_kind,
    collect,
    expr_step,
    items_step,
    task_ok,
    follows,
    stmt_step,
    CmdKind,
    Phase,
    WritePhase,
    machine_wf,
    pairs_view,
    push,
    strings_view,
    Action,
    MachineView,
    Task,
};
use super::output::{
    output_ok,
    output_readable,
    vbox_lines_ok,
    parse,
};
use super::value::{
    json_of,
    lemma_values_view_drop_first,
    lemma_values_view_index,
    lemma_values_view_len,
    lemma_values_view_push,
    values_view,
    Value,
    ValueView,
};
use crate::text::{
    split_on,
    str_chars,
    str_eq,
};

verus! {

/// A script being run: the engine, the tasks left, and the values being
/// gathered for unfinished lists, loops and commands.
pub struct Machine<'p, 'd> {
    engine: Engine<'p, 'd>,
    tasks: Vec<Task<'p, 'd>>,
    lists: Vec<Vec<Value>>,
    items: Vec<Vec<Value>>,
    argvs: Vec<Vec<String>>,
    envs: Vec<Vec<(String, String)>>,
    halted: bool,
}

pub open spec fn vals_view(m: Map<Seq<char>, Value>) -> Map<Seq<char>, ValueView> {
    m.map_values(|v: Value| v@)
}

pub open spec fn stack_view(s: Seq<Vec<Value>>) -> Seq<Seq<ValueView>> {
    s.map_values(|l: Vec<Value>| values_view(l@))
}

pub open spec fn argvs_view(s: Seq<Vec<String>>) -> Seq<Seq<Seq<char>>> {
    s.map_values(|a: Vec<String>| strings_view(a@))
}

pub open spec fn envs_view(s: Seq<Vec<(String, String)>>) -> Seq<Seq<(Seq<char>, Seq<char>)>> {
    s.map_values(|e: Vec<(String, String)>| pairs_view(e@))
}

pub open spec fn pipeline_view(p: Option<Pipeline>) -> Option<nat> {
    match p {
        Some(p) => Some(p.children as nat),
        None => None,
    }
}

impl<'p, 'd> View for Machine<'p, 'd> {
    type V = MachineView<'p, 'd>;

    closed spec fn view(&self) -> MachineView<'p, 'd> {
        MachineView {
            r0: self.engine.r0@,
            each: self.engine.each@,
            vars: vals_view(self.engine.variables@),
            aliases: self.engine.aliases@,
            h0: pipeline_view(self.engine.h0_proc),
            tasks: self.tasks@,
            lists: stack_view(self.lists@),
            items: stack_view(self.items@),
            argvs: argvs_view(self.argvs@),
            envs: envs_view(self.envs@),
            halted: self.halted,
        }
    }
}

/// `m` without its next task.
pub open spec fn popped<'p, 'd>(m: MachineView<'p, 'd>) -> MachineView<'p, 'd> {
    MachineView { tasks: m.tasks.drop_last(), ..m }
}

/// A copy of `v`.
pub fn clone_value(v: &Value) -> (r: Value)
    ensures
        r@ == v@,
    decreases v,
{
    match v {
        Value::Empty => Value::Empty,
        Value::Str(s) => Value::Str(s.as_str().to_owned()),
        Value::Bytes(b) => Value::Bytes(slice_to_vec(b.as_slice())),
        Value::List(l) => {
            let mut out: Vec<Value> = Vec::new();
            let mut i: usize = 0;
            while i < l.len()
                invariant
                    0 <= i <= l@.len(),
                    *v == Value::List(*l),
                    values_view(out@) == values_view(l@.take(i as int)),
                decreases l@.len() - i,
            {
                proof {
                    assert(decreases_to!(*v => (*v)->List_0));
                    assert(decreases_to!(*l => l@));
                    assert(decreases_to!(l@ => l@[i as int]));
                }
                let c = clone_value(&l[i]);
                proof {
                    lemma_values_view_push(out@, c);
                    lemma_values_view_push(l@.take(i as int), l@[i as int]);
                    assert(l@.take(i as int).push(l@[i as int]) =~= l@.take(i + 1));
                }
                out.push(c);
                i = i + 1;
            }
            proof {
                assert(l@.take(l@.len() as int) =~= l@);
            }
            Value::List(out)
        },
    }
}

/// The value that leaves `r`, which is emptied.
fn take_value(r: &mut Value) -> (v: Value)
    ensures
        v == *old(r),
        final(r)@ == ValueView::Empty,
{
    let mut v = Value::Empty;
    std::mem::swap(&mut v, r);
    v
}

impl<'p, 'd> Machine<'p, 'd> {
    /// The engine is well formed, and so is the state of the run.
    pub closed spec fn wf(&self) -> bool {
        &&& self.engine.wf()
        &&& machine_wf(self@)
    }

    /// A machine that runs `script` on `engine`.
    pub fn new(engine: Engine<'p, 'd>, script: &'p Script<'d>) -> (r: Self)
        requires
            engine.wf(),
        ensures
            r.wf(),
            r@.r0 == engine.r0@,
            r@.each == engine.each@,
            r@.vars == vals_view(engine.variables@),
            r@.aliases == engine.aliases@,
            r@.h0 == pipeline_view(engine.h0_proc),
            r@.tasks == seq![Task::Script(script, 0)],
            r@.lists.len() == 0,
            r@.items.len() == 0,
            r@.argvs.len() == 0,
            r@.envs.len() == 0,
            !r@.halted,
    {
        let mut tasks = Vec::new();
        tasks.push(Task::Script(script, 0));
        let r = Machine {
            engine,
            tasks,
            lists: Vec::new(),
            items: Vec::new(),
            argvs: Vec::new(),
            envs: Vec::new(),
            halted: false,
        };
        proof {
            lemma_counts_push(Seq::<Task<'p, 'd>>::empty(), Task::Script(script, 0));
            assert(r@.tasks =~= seq![Task::Script(script, 0)]);
            assert(r@.lists =~= Seq::<Seq<ValueView>>::empty());
            assert(r@.items =~= Seq::<Seq<ValueView>>::empty());
            assert(r@.argvs =~= Seq::<Seq<Seq<char>>>::empty());
            assert(r@.envs =~= Seq::<Seq<(Seq<char>, Seq<char>)>>::empty());
        }
        r
    }

    /// The engine, once the run is over.
    pub fn into_engine(self) -> (r: Engine<'p, 'd>)
        ensures
            r.r0@ == self@.r0,
            r.each@ == self@.each,
            vals_view(r.variables@) == self@.vars,
            r.aliases@ == self@.aliases,
            pipeline_view(r.h0_proc) == self@.h0,
            self.wf() ==> r.wf(),
    {
        self.engine
    }

    /// Ends the run with `e`.
    fn fail(&mut self, e: ScriptError<'d>) -> (r: Action<'d>)
        ensures
            r == Action::Failed(e),
            final(self)@.halted,
            final(self).engine.wf() == old(self).engine.wf(),
    {
        self.halted = true;
        Action::Failed(e)
    }

    /// Puts `t` on the tasks.
    fn push_task(&mut self, t: Task<'p, 'd>)
        ensures
            final(self)@ == push(old(self)@, t),
            final(self).engine == old(self).engine,
    {
        self.tasks.push(t);
    }

    /// Takes the next task off.
    fn pop_task(&mut self)
        requires
            old(self)@.tasks.len() > 0,
        ensures
            final(self)@ == popped(old(self)@),
            final(self).engine == old(self).engine,
    {
        self.tasks.pop();
    }

    /// Does the statement task `s`.
    fn do_stmt(&mut self, s: &'p Stmt<'d>) -> (r: Action<'d>)
        requires
            old(self).wf(),
            old(self)@.tasks.len() > 0,
            old(self)@.tasks.last() == Task::Stmt(s),
        ensures
            follows(final(self)@, action_view(r), stmt_step(popped(old(self)@), s)),
            final(self).engine.wf(),
    {
        self.pop_task();
        let ghost m = self@;
        match s {
            Stmt::Exec { cmd, .. } => {
                let mut argv: Vec<String> = Vec::new();
                if str_eq(cmd, "mkdir") || str_eq(cmd, "xc") {
                    proof {
                        reveal_strlit("-");
                    }
                    argv.push("-".to_owned());
                }
                proof {
                    reveal_strlit("mkdir");
                    reveal_strlit("xc");
                    if cmd_kind(*cmd) is Other {
                        assert(argv@.len() == 0);
                        assert(strings_view(argv@) =~= Seq::<Seq<char>>::empty());
                    } else {
                        assert(argv@.len() == 1);
                        assert(argv@[0]@ == seq!['-']);
                        assert(strings_view(argv@) =~= seq![seq!['-']]);
                    }
                }
                let ghost a0 = self.argvs@;
                let ghost e0 = self.envs@;
                self.argvs.push(argv);
                self.envs.push(Vec::new());
                proof {
                    assert(argvs_view(self.argvs@) =~= argvs_view(a0).push(strings_view(argv@)));
                    let nv: Vec<(String, String)> = self.envs@.last();
                    assert(nv@.len() == 0);
                    assert(pairs_view(nv@) =~= Seq::<(Seq<char>, Seq<char>)>::empty());
                    assert(envs_view(self.envs@) =~= envs_view(e0).push(Seq::empty()));
                }
                self.push_task(Task::Exec(s, Phase::Args(0)));
                Action::Continue
            },
            Stmt::ForEach(var, body) => {
                let ghost vars0 = self.engine.variables@;
                match self.engine.variables.remove_entry(var) {
                    None => self.fail(ScriptError::VarNotFound(*var)),
                    Some((_, v)) => match v {
                        Value::List(l) => {
                            let ghost i0 = self.items@;
                            self.items.push(l);
                            proof {
                                assert(vals_view(self.engine.variables@) =~= vals_view(vars0).remove(var@));
                                assert(stack_view(self.items@) =~= stack_view(i0).push(values_view(l@)));
                            }
                            self.push_task(Task::Each(&**body));
                            Action::Continue
                        },
                        _ => self.fail(ScriptError::NotAList),
                    },
                }
            },
            Stmt::Loop(body) => {
                self.push_task(Task::Repeat(&**body));
                Action::Continue
            },
            Stmt::Let(name, body) => {
                self.push_task(Task::SetVar(*name));
                self.push_task(Task::Stmt(&**body));
                Action::Continue
            },
            Stmt::Alias(name, body) => {
                self.engine.aliases.insert((*name).to_owned(), &**body);
                Action::Continue
            },
            Stmt::AliasStmt(name) => match self.engine.aliases.remove_entry(name) {
                None => self.fail(ScriptError::NoSuchAlias(*name)),
                Some((_, st)) => {
                    self.push_task(Task::Realias(*name, st));
                    self.push_task(Task::Stmt(st));
                    Action::Continue
                },
            },
            Stmt::Clone(name) => match self.engine.variables.get(name) {
                None => self.fail(ScriptError::VarNotFound(*name)),
                Some(v) => {
                    let c = clone_value(v);
                    self.engine.r0 = c;
                    Action::Continue
                },
            },
            Stmt::Expr(e) => {
                self.push_task(Task::Expr(e));
                Action::Continue
            },
            Stmt::List(_) => {
                self.push_task(Task::Stmts(s, 0));
                Action::Continue
            },
            Stmt::WriteFile(p, _) => {
                self.push_task(Task::Write(s, WritePhase::Path));
                self.push_task(Task::Expr(p));
                Action::Continue
            },
            Stmt::WriteValue(p, _) => {
                self.push_task(Task::Write(s, WritePhase::Path));
                self.push_task(Task::Expr(p));
                Action::Continue
            },
        }
    }

    /// Does the expression task `e`.
    fn do_expr(&mut self, e: &'p Expr<'d>) -> (r: Action<'d>)
        requires
            old(self).wf(),
            old(self)@.tasks.len() > 0,
            old(self)@.tasks.last() == Task::Expr(e),
        ensures
            follows(final(self)@, action_view(r), expr_step(popped(old(self)@), e)),
            final(self).engine.wf(),
    {
        self.pop_task();
        match e {
            Expr::Str(x) => {
                self.engine.r0 = Value::Str((*x).to_owned());
                Action::Continue
            },
            Expr::Str2 { s: x } => {
                self.engine.r0 = Value::Str((*x).to_owned());
                Action::Continue
            },
            Expr::Bs { bs } => {
                self.engine.r0 = Value::Bytes(slice_to_vec(bs.as_slice()));
                Action::Continue
            },
            Expr::Each => {
                std::mem::swap(&mut self.engine.r0, &mut self.engine.each);
                Action::Continue
            },
            Expr::Var { var } => match self.engine.variables.get(var) {
                None => self.fail(ScriptError::VarNotFound(*var)),
                Some(v) => {
                    let c = clone_value(v);
                    self.engine.r0 = c;
                    Action::Continue
                },
            },
            Expr::ReadSource { source } => match self.engine.aliases.get(source) {
                None => self.fail(ScriptError::NoSuchAlias(*source)),
                Some(st) => {
                    let st: &'p Stmt<'d> = *st;
                    self.push_task(Task::CheckSource(*source));
                    self.push_task(Task::Stmt(st));
                    Action::Continue
                },
            },
            Expr::List(_) => {
                let ghost l0 = self.lists@;
                self.lists.push(Vec::new());
                proof {
                    let nv: Vec<Value> = self.lists@.last();
                    assert(nv@.len() == 0);
                    assert(values_view(nv@) =~= Seq::<ValueView>::empty());
                    assert(stack_view(self.lists@) =~= stack_view(l0).push(Seq::empty()));
                }
                self.push_task(Task::Items(e, 0));
                Action::Continue
            },
        }
    }

    /// Adds `r0` to the innermost list being built, and empties it.
    fn collect(&mut self)
        requires
            old(self)@.lists.len() > 0,
        ensures
            final(self)@ == collect(old(self)@),
            final(self).engine.wf() == old(self).engine.wf(),
    {
        let ghost m = self@;
        let ghost l0 = self.lists@;
        let v = take_value(&mut self.engine.r0);
        let mut top = self.lists.pop().unwrap();
        let ghost t0 = top@;
        top.push(v);
        self.lists.push(top);
        proof {
            lemma_values_view_push(t0, v);
            assert(t0 == l0.last()@);
            assert(values_view(top@) =~= m.lists.last().push(v@));
            assert(self.lists@ =~= l0.update(l0.len() - 1, top));
            assert(stack_view(self.lists@) =~= m.lists.update(m.lists.len() - 1, m.lists.last().push(v@)));
        }
    }

    /// Does the task of the items of the `List` expression `e`, from `i` on.
    fn do_items(&mut self, e: &'p Expr<'d>, i: usize) -> (r: Action<'d>)
        requires
            old(self).wf(),
            old(self)@.tasks.len() > 0,
            old(self)@.tasks.last() == Task::Items(e, i),
        ensures
            follows(final(self)@, action_view(r), items_step(popped(old(self)@), e, i as nat)),
            final(self).engine.wf(),
    {
        proof {
            lemma_counts_push(old(self)@.tasks.drop_last(), Task::Items(e, i));
            assert(old(self)@.tasks.drop_last().push(Task::Items(e, i)) =~= old(self)@.tasks);
            assert(task_ok(old(self)@.tasks[old(self)@.tasks.len() - 1]));
            assert(old(self)@.lists.len() > 0);
        }
        self.pop_task();
        if i > 0 {
            self.collect();
        }
        match e {
            Expr::List(l) => {
                if i < l.len() {
                    self.push_task(Task::Items(e, i + 1));
                    self.push_task(Task::Expr(&l[i]));
                } else {
                    let ghost l0 = self.lists@;
                    assert(stack_view(l0).len() == l0.len());
                    let top = self.lists.pop().unwrap();
                    proof {
                        assert(stack_view(self.lists@) =~= stack_view(l0).drop_last());
                    }
                    self.engine.r0 = Value::List(top);
                }
                Action::Continue
            },
            _ => Action::Continue,
        }
    }

    /// Does a task that walks a sequence, restores an alias, sets a
    /// variable, repeats a loop or checks a pipeline.
    fn do_plain(&mut self, t: Task<'p, 'd>, Ghost(ev): Ghost<EventView>) -> (r: Action<'d>)
        requires
            old(self).wf(),
            old(self)@.tasks.len() > 0,
            old(self)@.tasks.last() == t,
            t is Script || t is Stmts || t is Realias || t is SetVar || t is Repeat || t is Each
                || t is CheckSource,
        ensures
            follows(final(self)@, action_view(r), step_spec(old(self)@, ev)),
            final(self).engine.wf(),
    {
        proof {
            lemma_counts_push(old(self)@.tasks.drop_last(), t);
            assert(old(self)@.tasks.drop_last().push(t) =~= old(self)@.tasks);
            assert(task_ok(old(self)@.tasks[old(self)@.tasks.len() - 1]));
        }
        self.pop_task();
        match t {
            Task::Script(sc, i) => {
                if i < sc.0.len() {
                    self.push_task(Task::Script(sc, i + 1));
                    self.push_task(Task::Stmt(&sc.0[i]));
                }
                Action::Continue
            },
            Task::Stmts(s, i) => {
                match s {
                    Stmt::List(l) => {
                        if i < l.len() {
                            self.push_task(Task::Stmts(s, i + 1));
                            self.push_task(Task::Stmt(&l[i]));
                        }
                    },
                    _ => {},
                }
                Action::Continue
            },
            Task::Realias(name, st) => {
                self.engine.aliases.insert(name.to_owned(), st);
                Action::Continue
            },
            Task::SetVar(name) => {
                let mut engine = Engine::new();
                std::mem::swap(&mut engine, &mut self.engine);
                let ghost e0 = engine;
                let f = with_name(name);
                let g = with_val_id();
                self.engine = engine.set_var(f, g);
                proof {
                    let (n, v, p, q, buf) = choose|n: String, v: Value, p: &mut super::engine::Park, q: &mut super::engine::Park, buf: String|
                        {
                            &&& buf@.len() == 0
                            &&& #[trigger] f.ensures((p, buf), n)
                            &&& #[trigger] g.ensures((q, e0.r0), v)
                            &&& self.engine.variables@ == e0.variables@.insert(n@, v)
                        };
                    assert(n@ =~= name@);
                    assert(v == e0.r0);
                    assert(vals_view(self.engine.variables@) =~= vals_view(e0.variables@).insert(name@, e0.r0@));
                }
                Action::Continue
            },
            Task::Repeat(body) => {
                self.push_task(Task::Repeat(body));
                self.push_task(Task::Stmt(body));
                Action::Continue
            },
            Task::Each(body) => {
                let ghost i0 = self.items@;
                assert(stack_view(i0).len() == i0.len());
                let mut top = self.items.pop().unwrap();
                if top.len() > 0 {
                    let ghost t0 = top@;
                    let first = top.remove(0);
                    self.items.push(top);
                    proof {
                        lemma_values_view_index(t0, 0);
                        lemma_values_view_drop_first(t0);
                        assert(t0.drop_first() =~= top@);
                        assert(self.items@ =~= i0.update(i0.len() - 1, top));
                        assert(stack_view(self.items@) =~= stack_view(i0).update(
                            i0.len() - 1,
                            stack_view(i0).last().drop_first(),
                        ));
                    }
                    self.engine.each = first;
                    self.push_task(Task::Each(body));
                    self.push_task(Task::Stmt(body));
                } else {
                    proof {
                        lemma_values_view_len(top@);
                        assert(stack_view(self.items@) =~= stack_view(i0).drop_last());
                    }
                }
                Action::Continue
            },
            Task::CheckSource(name) => {
                if self.engine.h0_proc.is_some() {
                    Action::Continue
                } else {
                    self.fail(ScriptError::NotAPipeline(name))
                }
            },
            _ => Action::Continue,
        }
    }
}

} // verus!

verus! {

/// The path `p` under `cwd`.
fn under_exec(cwd: &str, p: &str) -> (r: String)
    ensures
        r@ == under(cwd, p@),
{
    proof {
        reveal_strlit("/");
    }
    let mut r = cwd.to_owned();
    r.append("/");
    r.append(p);
    r
}

/// Whether `a` starts with `-`.
fn is_option(a: &str) -> (r: bool)
    ensures
        r == (a@.len() > 0 && a@[0] == '-'),
{
    let cs = str_chars(a);
    cs.len() > 0 && cs[0] == '-'
}

/// The arguments of the built-in `mkdir` run in `cwd`.
fn mkdir_in_exec(args: &Vec<String>, cwd: &str) -> (r: Vec<String>)
    ensures
        strings_view(r@) == mkdir_in(strings_view(args@), cwd@),
{
    let mut out: Vec<String> = Vec::new();
    let mut i: usize = 0;
    proof {
        reveal_strlit("-");
        assert(strings_view(args@).take(0) =~= Seq::<Seq<char>>::empty());
        assert(strings_view(out@) =~= Seq::<Seq<char>>::empty());
    }
    while i < args.len()
        invariant
            0 <= i <= args@.len(),
            strings_view(out@) == mkdir_in(strings_view(args@).take(i as int), cwd@),
        decreases args@.len() - i,
    {
        let a = args[i].as_str();
        let ghost sv = strings_view(args@);
        let ghost before = out@;
        proof {
            reveal_strlit("-");
            assert(sv.take(i + 1).drop_last() =~= sv.take(i as int));
            assert(sv.take(i + 1).last() == a@);
        }
        if str_eq(a, "-") {
            assert(a@ == seq!['-']);
        } else if is_option(a) {
            proof {
                assert("-"@ =~= seq!['-']);
                assert(a@ != seq!['-']);
            }
            out.push(a.to_owned());
            proof {
                assert(strings_view(out@) =~= strings_view(before).push(a@));
            }
        } else {
            proof {
                assert("-"@ =~= seq!['-']);
                assert(a@ != seq!['-']);
            }
            let full = under_exec(cwd, a);
            out.push(full);
            proof {
                assert(strings_view(out@) =~= strings_view(before).push(cwd@ + seq!['/'] + a@));
            }
        }
        i = i + 1;
    }
    proof {
        assert(strings_view(args@).take(args@.len() as int) =~= strings_view(args@));
    }
    out
}

/// The options and paths of the built-in `mkdir`, or the first unknown
/// option letter.
fn mkdir_args_exec(args: Vec<String>) -> (r: Result<(bool, bool, Vec<String>), char>)
    ensures
        match r {
            Ok((p, v, paths)) => mkdir_args(strings_view(args@)) == Ok::<MkdirArgs, char>(
                (p, v, strings_view(paths@)),
            ),
            Err(c) => mkdir_args(strings_view(args@)) == Err::<MkdirArgs, char>(c),
        },
{
    let ghost sv = strings_view(args@);
    let mut parent = false;
    let mut verbose = false;
    let mut paths: Vec<String> = Vec::new();
    let mut i: usize = 0;
    proof {
        assert(sv.take(0) =~= Seq::<Seq<char>>::empty());
        assert(strings_view(paths@) =~= Seq::<Seq<char>>::empty());
    }
    while i < args.len()
        invariant
            0 <= i <= args@.len(),
            sv == strings_view(args@),
            mkdir_args(sv.take(i as int)) == Ok::<MkdirArgs, char>(
                (parent, verbose, strings_view(paths@)),
            ),
        decreases args@.len() - i,
    {
        let a = args[i].as_str();
        proof {
            assert(sv.take(i + 1).drop_last() =~= sv.take(i as int));
            assert(sv.take(i + 1).last() == a@);
        }
        if is_option(a) {
            let cs = str_chars(a);
            let ghost letters = a@.drop_first();
            let ghost st0: MkdirArgs = (parent, verbose, strings_view(paths@));
            let mut j: usize = 1;
            proof {
                assert(letters.take(0) =~= Seq::<char>::empty());
            }
            while j < cs.len()
                invariant
                    1 <= j <= cs@.len(),
                    cs@ == a@,
                    letters == a@.drop_first(),
                    0 <= i < args@.len(),
                    sv == strings_view(args@),
                    sv.take(i + 1).drop_last() == sv.take(i as int),
                    sv.take(i + 1).last() == a@,
                    a@.len() > 0 && a@[0] == '-',
                    mkdir_args(sv.take(i as int)) == Ok::<MkdirArgs, char>(st0),
                    mkdir_letters(st0, letters.take(j - 1)) == Ok::<MkdirArgs, char>(
                        (parent, verbose, strings_view(paths@)),
                    ),
                decreases cs@.len() - j,
            {
                let c = cs[j];
                proof {
                    assert(letters.take(j as int).drop_last() =~= letters.take(j - 1));
                    assert(letters.take(j as int).last() == c);
                }
                if c == 'p' {
                    parent = true;
                } else if c == 'v' {
                    verbose = true;
                } else {
                    proof {
                        assert(mkdir_letters(st0, letters.take(j as int)) == Err::<MkdirArgs, char>(c));
                        lemma_letters_err_extends(st0, letters, j as int);
                        assert(mkdir_args(sv.take(i + 1)) == mkdir_letters(st0, letters));
                        lemma_args_err_extends(sv, i + 1);
                    }
                    return Err(c);
                }
                j = j + 1;
            }
            proof {
                if cs@.len() > 0 {
                    assert(letters.take(cs@.len() - 1) =~= letters);
                }
            }
        } else {
            let ghost before = paths@;
            paths.push(a.to_owned());
            proof {
                assert(strings_view(paths@) =~= strings_view(before).push(a@));
            }
        }
        i = i + 1;
    }
    proof {
        assert(sv.take(args@.len() as int) =~= sv);
    }
    Ok((parent, verbose, paths))
}

proof fn lemma_letters_err_extends(st: MkdirArgs, cs: Seq<char>, k: int)
    requires
        0 <= k <= cs.len(),
        mkdir_letters(st, cs.take(k)) is Err,
    ensures
        mkdir_letters(st, cs) == mkdir_letters(st, cs.take(k)),
    decreases cs.len() - k,
{
    if k == cs.len() {
        assert(cs.take(k) =~= cs);
    } else {
        assert(cs.take(k + 1).drop_last() =~= cs.take(k));
        lemma_letters_err_extends(st, cs, k + 1);
    }
}

proof fn lemma_args_err_extends(args: Seq<Seq<char>>, k: int)
    requires
        0 <= k <= args.len(),
        mkdir_args(args.take(k)) is Err,
    ensures
        mkdir_args(args) == mkdir_args(args.take(k)),
    decreases args.len() - k,
{
    if k == args.len() {
        assert(args.take(k) =~= args);
    } else {
        assert(args.take(k + 1).drop_last() =~= args.take(k));
        lemma_args_err_extends(args, k + 1);
    }
}

/// Which command `cmd` runs.
fn kind_of(cmd: &str) -> (r: CmdKind)
    ensures
        r == cmd_kind(cmd),
{
    if str_eq(cmd, "mkdir") {
        CmdKind::Mkdir
    } else if str_eq(cmd, "xc") {
        CmdKind::Xc
    } else {
        CmdKind::Other
    }
}

/// The argument that `r0` gives a command of kind `kind`.
fn arg_exec(kind: CmdKind, r0: &Value) -> (r: Result<String, ScriptError<'static>>)
    ensures
        match r {
            Ok(a) => arg_value(kind, r0@) == Ok::<Seq<char>, ScriptError<'static>>(a@),
            Err(e) => arg_value(kind, r0@) == Err::<Seq<char>, ScriptError<'static>>(e),
        },
{
    match kind {
        CmdKind::Other => {
            let r = Strval(String::new()).as_argument(r0);
            proof {
                match r0@ {
                    ValueView::Empty => {
                        assert(r matches Ok(t) && t@ =~= Seq::<char>::empty());
                    },
                    ValueView::Str(x) => {
                        assert(r matches Ok(t) && t@ =~= x);
                    },
                    ValueView::List(_) => {
                        assert(r matches Ok(t) && t@ =~= json_of(r0@));
                    },
                    _ => {},
                }
            }
            r
        },
        _ => match r0 {
            Value::Str(x) => Ok(x.as_str().to_owned()),
            _ => Err(ScriptError::NotAString),
        },
    }
}

} // verus!

verus! {

impl<'p, 'd> Machine<'p, 'd> {
    /// Starts the command of `s` with `stdin`.
    fn spawn_exec(&mut self, s: &'p Stmt<'d>, stdin: Stdin) -> (r: Action<'d>)
        requires
            old(self)@.argvs.len() > 0,
            old(self)@.envs.len() > 0,
            *s is Exec,
        ensures
            follows(final(self)@, action_view(r), spawn(old(self)@, s, stdin_view(stdin))),
            final(self).engine == old(self).engine,
    {
        let ghost m = self@;
        let ghost a0 = self.argvs@;
        let ghost e0 = self.envs@;
        proof {
            assert(argvs_view(a0).len() == a0.len());
            assert(envs_view(e0).len() == e0.len());
        }
        let args = self.argvs.pop().unwrap();
        let env = self.envs.pop().unwrap();
        proof {
            assert(argvs_view(self.argvs@) =~= argvs_view(a0).drop_last());
            assert(envs_view(self.envs@) =~= envs_view(e0).drop_last());
        }
        self.push_task(Task::Exec(s, Phase::Await));
        match s {
            Stmt::Exec { cmd, cwd, output, .. } => {
                let display = match output {
                    Type::Display => true,
                    _ => false,
                };
                let stream = match output {
                    Type::Stream => true,
                    _ => false,
                };
                Action::Spawn(Command { cmd: *cmd, args, env, cwd: *cwd, stdin, display, stream })
            },
            _ => Action::Continue,
        }
    }

    /// Runs the built-in transcoder on `input`.
    fn run_xc_exec(&mut self, s: &'p Stmt<'d>, input: XcInput) -> (r: Action<'d>)
        requires
            old(self)@.argvs.len() > 0,
            old(self)@.envs.len() > 0,
        ensures
            follows(final(self)@, action_view(r), run_xc(old(self)@, s, xc_input_view(input))),
            final(self).engine == old(self).engine,
    {
        let ghost a0 = self.argvs@;
        let ghost e0 = self.envs@;
        proof {
            assert(argvs_view(a0).len() == a0.len());
            assert(envs_view(e0).len() == e0.len());
        }
        let args = self.argvs.pop().unwrap();
        let _env = self.envs.pop().unwrap();
        proof {
            assert(argvs_view(self.argvs@) =~= argvs_view(a0).drop_last());
            assert(envs_view(self.envs@) =~= envs_view(e0).drop_last());
        }
        self.push_task(Task::Exec(s, Phase::Await));
        Action::RunXc(args, input)
    }

    /// Makes the directories of the built-in `mkdir` run in `cwd`.
    fn run_mkdir_exec(&mut self, s: &'p Stmt<'d>, cwd: Option<&'d str>) -> (r: Action<'d>)
        requires
            old(self)@.argvs.len() > 0,
            old(self)@.envs.len() > 0,
        ensures
            follows(final(self)@, action_view(r), run_mkdir(old(self)@, s, cwd)),
            final(self).engine.wf() == old(self).engine.wf(),
    {
        let ghost a0 = self.argvs@;
        let ghost e0 = self.envs@;
        proof {
            assert(argvs_view(a0).len() == a0.len());
            assert(envs_view(e0).len() == e0.len());
        }
        let args = self.argvs.pop().unwrap();
        let _env = self.envs.pop().unwrap();
        proof {
            assert(argvs_view(self.argvs@) =~= argvs_view(a0).drop_last());
            assert(envs_view(self.envs@) =~= envs_view(e0).drop_last());
        }
        let args = match cwd {
            Some(c) => mkdir_in_exec(&args, c),
            None => args,
        };
        match mkdir_args_exec(args) {
            Err(c) => self.fail(ScriptError::UnknownOpt(c)),
            Ok((parent, verbose, paths)) => {
                if !parent {
                    self.fail(ScriptError::MkdirWithoutP)
                } else {
                    self.push_task(Task::Exec(s, Phase::Await));
                    Action::MakeDirs(paths, verbose)
                }
            },
        }
    }

    /// Reads the output `out` of a command as `typ` into `r0`.
    fn read_output_exec(&mut self, out: Vec<u8>, typ: Type) -> (r: Action<'d>)
        requires
            output_ok(out@, typ),
        ensures
            follows(final(self)@, action_view(r), read_output(old(self)@, out@, typ)),
            final(self).engine.wf() == old(self).engine.wf(),
    {
        match parse(out, &typ) {
            Ok(v) => {
                self.engine.r0 = v;
                Action::Continue
            },
            Err(e) => self.fail(ScriptError::Output(e)),
        }
    }

    /// Ends the run on an answer that is not the one expected.
    fn unexpected_exec(&mut self, ev: Event) -> (r: Action<'d>)
        ensures
            follows(final(self)@, action_view(r), unexpected(old(self)@, event_view(ev))),
            final(self).engine.wf() == old(self).engine.wf(),
    {
        match ev {
            Event::Failed(msg) => self.fail(ScriptError::Outside(msg)),
            _ => self.fail(ScriptError::Unexpected),
        }
    }

    /// Adds `a` to the arguments of the innermost command being prepared.
    fn push_arg(&mut self, a: String)
        requires
            old(self)@.argvs.len() > 0,
        ensures
            final(self)@ == (MachineView {
                argvs: old(self)@.argvs.update(
                    old(self)@.argvs.len() - 1,
                    old(self)@.argvs.last().push(a@),
                ),
                ..old(self)@
            }),
            final(self).engine == old(self).engine,
    {
        let ghost a0 = self.argvs@;
        assert(argvs_view(a0).len() == a0.len());
        let mut top = self.argvs.pop().unwrap();
        let ghost t0 = top@;
        top.push(a);
        self.argvs.push(top);
        proof {
            assert(strings_view(top@) =~= strings_view(t0).push(a@));
            assert(self.argvs@ =~= a0.update(a0.len() - 1, top));
            assert(argvs_view(self.argvs@) =~= argvs_view(a0).update(
                a0.len() - 1,
                argvs_view(a0).last().push(a@),
            ));
        }
    }

    /// Adds `(name, value)` to the environment of the innermost command being
    /// prepared.
    fn push_env(&mut self, name: String, value: String)
        requires
            old(self)@.envs.len() > 0,
        ensures
            final(self)@ == (MachineView {
                envs: old(self)@.envs.update(
                    old(self)@.envs.len() - 1,
                    old(self)@.envs.last().push((name@, value@)),
                ),
                ..old(self)@
            }),
            final(self).engine == old(self).engine,
    {
        let ghost e0 = self.envs@;
        assert(envs_view(e0).len() == e0.len());
        let mut top = self.envs.pop().unwrap();
        let ghost t0 = top@;
        top.push((name, value));
        self.envs.push(top);
        proof {
            assert(pairs_view(top@) =~= pairs_view(t0).push((name@, value@)));
            assert(self.envs@ =~= e0.update(e0.len() - 1, top));
            assert(envs_view(self.envs@) =~= envs_view(e0).update(
                e0.len() - 1,
                envs_view(e0).last().push((name@, value@)),
            ));
        }
    }

    /// Does the command task `s` in phase `ph`, with the event `ev`.
    fn do_exec(&mut self, s: &'p Stmt<'d>, ph: Phase, ev: Event) -> (r: Action<'d>)
        requires
            old(self).wf(),
            old(self)@.tasks.len() > 0,
            old(self)@.tasks.last() == Task::Exec(s, ph),
            !step_panics(old(self)@, event_view(ev)),
        ensures
            follows(final(self)@, action_view(r), exec_step(popped(old(self)@), s, ph, event_view(ev))),
            final(self).engine.wf(),
    {
        proof {
            lemma_counts_push(old(self)@.tasks.drop_last(), Task::Exec(s, ph));
            assert(old(self)@.tasks.drop_last().push(Task::Exec(s, ph)) =~= old(self)@.tasks);
            assert(task_ok(old(self)@.tasks[old(self)@.tasks.len() - 1]));
        }
        self.pop_task();
        match s {
            Stmt::Exec { cmd, args, cwd, env, output, allow_failure, stdin } => {
                let kind = kind_of(cmd);
                match ph {
                    Phase::Args(i) => {
                        if i > 0 {
                            match arg_exec(kind, &self.engine.r0) {
                                Ok(a) => self.push_arg(a),
                                Err(e) => {
                                    return self.fail(e);
                                },
                            }
                        }
                        if i < args.len() {
                            self.push_task(Task::Exec(s, Phase::Args(i + 1)));
                            self.push_task(Task::Expr(&args[i]));
                        } else {
                            match kind {
                                CmdKind::Other => self.push_task(Task::Exec(s, Phase::Env(0))),
                                _ => self.push_task(Task::Exec(s, Phase::Stdin)),
                            }
                        }
                        Action::Continue
                    },
                    Phase::Env(i) => {
                        if i > 0 {
                            let v = match &self.engine.r0 {
                                Value::Str(v) => v.as_str().to_owned(),
                                _ => {
                                    return self.fail(ScriptError::NotAString);
                                },
                            };
                            let name = env[i - 1].0.to_owned();
                            self.push_env(name, v);
                        }
                        if i < env.len() {
                            self.push_task(Task::Exec(s, Phase::Env(i + 1)));
                            self.push_task(Task::Expr(&env[i].1));
                        } else {
                            self.push_task(Task::Exec(s, Phase::Stdin));
                        }
                        Action::Continue
                    },
                    Phase::Stdin => match kind {
                        CmdKind::Mkdir => self.run_mkdir_exec(s, *cwd),
                        _ => match cwd {
                            None => match kind {
                                CmdKind::Xc => self.run_xc_exec(s, XcInput::Stdin),
                                _ => self.spawn_exec(s, Stdin::Inherit),
                            },
                            Some(_) => match stdin {
                                Io::Default => match kind {
                                    CmdKind::Xc => self.run_xc_exec(s, XcInput::Stdin),
                                    _ => self.spawn_exec(s, Stdin::Null),
                                },
                                Io::Tty => match kind {
                                    CmdKind::Xc => self.fail(ScriptError::TtyForXc),
                                    _ => self.spawn_exec(s, Stdin::Inherit),
                                },
                                Io::File(path) => {
                                    self.push_task(Task::Exec(s, Phase::StdinFile));
                                    self.push_task(Task::Expr(path));
                                    Action::Continue
                                },
                                Io::Source(name) => match self.engine.aliases.get(name) {
                                    None => self.fail(ScriptError::NoSuchAlias(*name)),
                                    Some(st) => {
                                        let st: &'p Stmt<'d> = *st;
                                        self.push_task(Task::Exec(s, Phase::StdinSource));
                                        self.push_task(Task::Stmt(st));
                                        Action::Continue
                                    },
                                },
                            },
                        },
                    },
                    Phase::StdinFile => {
                        let path = match (&self.engine.r0, cwd) {
                            (Value::Str(p), Some(c)) => under_exec(c, p.as_str()),
                            _ => {
                                return self.fail(ScriptError::NotAString);
                            },
                        };
                        match kind {
                            CmdKind::Xc => self.run_xc_exec(s, XcInput::File(path)),
                            _ => self.spawn_exec(s, Stdin::File(path)),
                        }
                    },
                    Phase::StdinSource => {
                        let name = match stdin {
                            Io::Source(n) => *n,
                            _ => *cmd,
                        };
                        let n = match &self.engine.h0_proc {
                            None => {
                                return self.fail(ScriptError::NotAPipeline(name));
                            },
                            Some(p) => p.children,
                        };
                        self.engine.h0_proc = None;
                        if n == 0 {
                            self.fail(ScriptError::EmptyPipeline)
                        } else {
                            match kind {
                                CmdKind::Xc => self.run_xc_exec(s, XcInput::Pipe(n)),
                                _ => self.spawn_exec(s, Stdin::Pipe(n)),
                            }
                        }
                    },
                    Phase::Await => match kind {
                        CmdKind::Mkdir => match ev {
                            Event::Done => {
                                proof {
                                    lemma_empty_output_ok(*output);
                                }
                                self.read_output_exec(Vec::new(), *output)
                            },
                            _ => self.unexpected_exec(ev),
                        },
                        CmdKind::Xc => match ev {
                            Event::Output(out, _) => match output {
                                Type::Display => Action::Print(out),
                                Type::Stream => self.fail(ScriptError::StreamForXc),
                                _ => self.read_output_exec(out, *output),
                            },
                            _ => self.unexpected_exec(ev),
                        },
                        CmdKind::Other => match output {
                            Type::Stream => match ev {
                                Event::Done => {
                                    let n = match &self.engine.h0_proc {
                                        Some(p) => p.children + 1,
                                        None => 1,
                                    };
                                    self.engine.h0_proc = Some(Pipeline { children: n });
                                    Action::Continue
                                },
                                _ => self.unexpected_exec(ev),
                            },
                            _ => match ev {
                                Event::Output(out, success) => {
                                    if !success && !*allow_failure {
                                        self.fail(ScriptError::CommandFailed)
                                    } else {
                                        self.read_output_exec(out, *output)
                                    }
                                },
                                _ => self.unexpected_exec(ev),
                            },
                        },
                    },
                }
            },
            _ => Action::Continue,
        }
    }

    /// Does the file-writing task `s` in phase `ph`, with the event `ev`.
    fn do_write(&mut self, s: &'p Stmt<'d>, ph: WritePhase, ev: Event) -> (r: Action<'d>)
        requires
            old(self).wf(),
            old(self)@.tasks.len() > 0,
            old(self)@.tasks.last() == Task::Write(s, ph),
            !step_panics(old(self)@, event_view(ev)),
        ensures
            follows(final(self)@, action_view(r), write_step(popped(old(self)@), s, ph, event_view(ev))),
            final(self).engine.wf(),
    {
        self.pop_task();
        match ph {
            WritePhase::Path => {
                let v = take_value(&mut self.engine.r0);
                match v {
                    Value::Str(p) => {
                        self.push_task(Task::Write(s, WritePhase::Created));
                        Action::CreateFile(p)
                    },
                    _ => self.fail(ScriptError::NotAString),
                }
            },
            WritePhase::Created => match ev {
                Event::Done => {
                    self.push_task(Task::Write(s, WritePhase::Content));
                    match s {
                        Stmt::WriteFile(_, c) => self.push_task(Task::Expr(c)),
                        Stmt::WriteValue(_, c) => self.push_task(Task::Expr(c)),
                        _ => self.push_task(Task::Expr(&Expr::Each)),
                    }
                    Action::Continue
                },
                _ => self.unexpected_exec(ev),
            },
            WritePhase::Content => {
                match &self.engine.h0_proc {
                    Some(p) => {
                        let n = p.children;
                        self.engine.h0_proc = None;
                        if n == 0 {
                            self.fail(ScriptError::EmptyPipeline)
                        } else {
                            self.push_task(Task::Write(s, WritePhase::Written));
                            Action::CopyPipeline(n)
                        }
                    },
                    None => {
                        let bytes = match s {
                            Stmt::WriteValue(_, _) => {
                                let t = value_json(&self.engine.r0);
                                t.as_str().as_bytes_vec()
                            },
                            _ => match &self.engine.r0 {
                                Value::Str(x) => x.as_str().as_bytes_vec(),
                                Value::Bytes(b) => slice_to_vec(b.as_slice()),
                                _ => {
                                    return self.fail(ScriptError::NotWritable);
                                },
                            },
                        };
                        self.push_task(Task::Write(s, WritePhase::Written));
                        Action::WriteFile(bytes)
                    },
                }
            },
            WritePhase::Written => match ev {
                Event::Done => Action::Continue,
                _ => self.unexpected_exec(ev),
            },
        }
    }

    /// One step of the run: the next task is taken off and done, with `ev`,
    /// the runner's answer to the last action.
    pub fn step(&mut self, ev: Event) -> (r: Action<'d>)
        requires
            old(self).wf(),
            !old(self)@.halted,
            !step_panics(old(self)@, event_view(ev)),
        ensures
            follows(final(self)@, action_view(r), step_spec(old(self)@, event_view(ev))),
            !(r is Failed) ==> final(self).wf(),
    {
        proof {
            lemma_step_keeps_wf(old(self)@, event_view(ev));
        }
        let n = self.tasks.len();
        if n == 0 {
            return Action::Finished;
        }
        let t = self.tasks[n - 1];
        match t {
            Task::Stmt(s) => self.do_stmt(s),
            Task::Expr(e) => self.do_expr(e),
            Task::Items(e, i) => self.do_items(e, i),
            Task::Exec(s, ph) => self.do_exec(s, ph, ev),
            Task::Write(s, ph) => self.do_write(s, ph, ev),
            _ => self.do_plain(t, Ghost(event_view(ev))),
        }
    }

    /// Whether the step with `ev` would stop with a panic.
    pub fn would_panic(&self, ev: &Event) -> (r: bool)
        ensures
            r == step_panics(self@, event_view(*ev)),
    {
        let n = self.tasks.len();
        if n == 0 {
            return false;
        }
        match self.tasks[n - 1] {
            Task::Write(s, WritePhase::Content) => match s {
                Stmt::WriteValue(_, _) => self.engine.h0_proc.is_none() && value_has_bytes(&self.engine.r0),
                _ => false,
            },
            Task::Exec(s, Phase::Await) => match (s, ev) {
                (Stmt::Exec { cmd, output, .. }, Event::Done) => {
                    let kind = kind_of(cmd);
                    match (kind, output, &self.engine.h0_proc) {
                        (CmdKind::Other, Type::Stream, Some(p)) => p.children == usize::MAX,
                        _ => false,
                    }
                },
                (Stmt::Exec { cmd, output, allow_failure, .. }, Event::Output(out, success)) => {
                    let kind = kind_of(cmd);
                    match kind {
                        CmdKind::Mkdir => false,
                        _ => match output {
                            Type::Display | Type::Stream => false,
                            _ => (kind == CmdKind::Xc || *success || *allow_failure) && !output_readable(
                                out.as_slice(),
                                output,
                            ),
                        },
                    }
                },
                _ => false,
            },
            _ => false,
        }
    }
}

/// A run of `script` on `engine`: the runner steps it to its end.
pub fn eval<'p, 'd>(script: &'p Script<'d>, engine: Engine<'p, 'd>) -> (r: Machine<'p, 'd>)
    requires
        engine.wf(),
    ensures
        r.wf(),
        r@.r0 == engine.r0@,
        r@.each == engine.each@,
        r@.vars == vals_view(engine.variables@),
        r@.aliases == engine.aliases@,
        r@.h0 == pipeline_view(engine.h0_proc),
        r@.tasks == seq![Task::Script(script, 0)],
        !r@.halted,
{
    Machine::new(engine, script)
}

/// Empty output reads as any type without a panic.
proof fn lemma_empty_output_ok(typ: Type)
    ensures
        output_ok(Seq::<u8>::empty(), typ),
{
    let ls = seq![Seq::<u8>::empty()];
    assert(split_on(Seq::<u8>::empty(), 10u8) =~= ls);
    assert(ls.drop_first() =~= Seq::<Seq<u8>>::empty());
    assert(vbox_lines_ok(ls.drop_first()));
    assert(ls[0].len() == 0);
    assert(vbox_lines_ok(ls));
}

} // verus!
