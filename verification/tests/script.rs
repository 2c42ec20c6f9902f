use xtools::script::ast::{Expr, Io, Script, Stmt, Type};
use xtools::script::cli::{parse_args, CliError};
use xtools::script::dict::Dict;
use xtools::script::engine::{
    value_as_list, value_as_str, value_has_bytes, value_into_list, value_json, with_name,
    with_val_id, Engine, Park, Strval,
};
use xtools::script::error::ScriptError;
use xtools::script::eval::{Action, Event};
use xtools::script::input::{strip_shebang, Input, Mem, Step};
use xtools::script::machine::{clone_value, eval, Machine};
use xtools::script::output::{output_readable, parse, split_bytes, OutputError};
use xtools::script::serve::{on_message, Served};
use xtools::script::value::{jval_from_value, parse_value, value_from_jval, JVal, Value};

fn show(v: &Value) -> String {
    format!("{:?}", v)
}

fn strs(v: &[&str]) -> Vec<String> {
    v.iter().map(|s| s.to_string()).collect()
}

/// Steps the machine, answering each action from `answers` in turn
/// (`Resume` when none is left), until it finishes or fails; gives the
/// actions seen.
fn run<'p, 'd>(m: &mut Machine<'p, 'd>, mut answers: Vec<Event>) -> Vec<String> {
    let mut seen = Vec::new();
    let mut ev = Event::Resume;
    for _ in 0..10_000 {
        let a = m.step(ev);
        let done = matches!(a, Action::Finished | Action::Failed(_));
        let asks = !matches!(a, Action::Continue | Action::Print(_));
        seen.push(format!("{:?}", a));
        if done {
            return seen;
        }
        ev = if asks && !answers.is_empty() { answers.remove(0) } else { Event::Resume };
    }
    panic!("the run did not end");
}

#[test]
fn cli_reads_options() {
    let args = strs(&["xs", "-c", "[]", "-s", "-a", "-ah", "n", "v", "--error-server"]);
    let o = parse_args(&args).unwrap();
    assert!(matches!(o.input, Input::Str("[]")));
    assert!(!o.eval);
    assert!(o.export_ast);
    assert!(o.err_server);
    assert!(!o.err_server_clear);
    assert_eq!(o.named_args.get("n"), Some(&"v"));
    let args = strs(&["xs", "-f", "a.ron", "--error-server-clear", "--error-server-quit"]);
    let o = parse_args(&args).unwrap();
    assert!(matches!(o.input, Input::File("a.ron")));
    assert!(o.eval && o.err_server_clear && o.err_server_quit);
    let args = strs(&["xs"]);
    let o = parse_args(&args).unwrap();
    assert!(matches!(o.input, Input::Stdin));
}

#[test]
fn cli_refuses_bad_lines() {
    assert_eq!(parse_args(&strs(&["xs", "-f"])).unwrap_err(), CliError::MissingFile);
    assert_eq!(parse_args(&strs(&["xs", "-c"])).unwrap_err(), CliError::MissingScript);
    assert_eq!(parse_args(&strs(&["xs", "-ah"])).unwrap_err(), CliError::MissingName);
    assert_eq!(parse_args(&strs(&["xs", "-ah", "n"])).unwrap_err(), CliError::MissingValue);
    assert_eq!(parse_args(&strs(&["xs", "-x"])).unwrap_err(), CliError::UnknownArgument("-x"));
}

#[test]
fn input_display_names() {
    assert_eq!(Input::File("p").to_display(), "p");
    assert_eq!(Input::Stdin.to_display(), "stdin");
    assert_eq!(Input::Str("s").to_display(), "s");
}

#[test]
fn shebang_stripper_steps() {
    let mut m = Mem::new();
    assert_eq!(strip_shebang(&mut m, None), Step::Fill);
    assert_eq!(strip_shebang(&mut m, Some(b"#".as_ref())), Step::Fill);
    assert_eq!(strip_shebang(&mut m, Some(b"#!/bin/xs".as_ref())), Step::Fill);
    assert_eq!(strip_shebang(&mut m, Some(b"#!/bin/xs\n[]".as_ref())), Step::Consume(9));
    assert_eq!(strip_shebang(&mut m, None), Step::Read);

    let mut m = Mem::new();
    assert_eq!(strip_shebang(&mut m, Some(b"[]".as_ref())), Step::Read);
    assert_eq!(strip_shebang(&mut m, None), Step::Read);

    let mut m = Mem::new();
    assert_eq!(strip_shebang(&mut m, Some(b"".as_ref())), Step::Read);

    let mut m = Mem::default();
    assert_eq!(strip_shebang(&mut m, Some(b"#!".as_ref())), Step::Fill);
    assert_eq!(strip_shebang(&mut m, Some(b"\nrest".as_ref())), Step::Read);
}

#[test]
fn output_is_read_by_type() {
    let out = b"\"a\" {id-1}\n\n\"b\" {id-2}\n".to_vec();
    assert!(output_readable(&out, &Type::VBoxVms));
    let v = parse(out, &Type::VBoxVms).unwrap();
    assert_eq!(show(&v), "List([Str(\"id-1\"), Str(\"id-2\")])");
    assert_eq!(show(&parse(b"text".to_vec(), &Type::String).unwrap()), "Str(\"text\")");
    assert_eq!(show(&parse(b"x".to_vec(), &Type::Null).unwrap()), "Empty");
    assert_eq!(show(&parse(b"x".to_vec(), &Type::Display).unwrap()), "Empty");
    assert_eq!(parse(b"x".to_vec(), &Type::Stream).unwrap_err(), OutputError::Todo);
    assert_eq!(parse(vec![0xff], &Type::String).unwrap_err(), OutputError::NotUtf8);
    assert_eq!(parse(b"no brace".to_vec(), &Type::VBoxVms).unwrap_err(), OutputError::MissingOpenBrace);
    assert_eq!(parse(b"{open".to_vec(), &Type::VBoxVms).unwrap_err(), OutputError::MissingCloseBrace);
    assert_eq!(parse(vec![b'{', 0xff, b'}'], &Type::VBoxVms).unwrap_err(), OutputError::NotUtf8);
    assert!(!output_readable(b"}x{", &Type::VBoxVms));
    assert!(output_readable(b"}x{", &Type::String));
    assert_eq!(split_bytes(b"a\nb\n", b'\n'), vec![b"a".to_vec(), b"b".to_vec(), vec![]]);
}

#[test]
fn values_as_arguments_and_json() {
    let list = Value::List(vec![Value::Str("a\"b".to_string()), Value::Empty, Value::List(vec![])]);
    assert_eq!(Strval(String::from(">")).as_argument(&Value::Empty).unwrap(), ">");
    assert_eq!(Strval(String::from(">")).as_argument(&Value::Str("x".into())).unwrap(), ">x");
    assert_eq!(Strval(String::new()).as_argument(&list).unwrap(), "[\"a\\\"b\",,[]]");
    assert!(matches!(
        Strval(String::new()).as_argument(&Value::Bytes(vec![1])),
        Err(ScriptError::NotAnArgument)
    ));
    assert_eq!(Strval(String::new()).as_json(&Value::Bytes(vec![1, 20])).unwrap(), "[1,20]");
    assert_eq!(value_json(&list), "[\"a\\\"b\",null,[]]");
    assert!(value_has_bytes(&Value::List(vec![Value::Bytes(vec![])])));
    assert!(!value_has_bytes(&list));
    assert_eq!(value_as_str(&Value::Str("s".into())).unwrap(), "s");
    assert!(matches!(value_as_str(&Value::Empty), Err(ScriptError::NotAString)));
    assert_eq!(value_as_list(&list).unwrap().len(), 3);
    assert!(matches!(value_as_list(&Value::Empty), Err(ScriptError::NotAList)));
    assert_eq!(value_into_list(list).unwrap().len(), 3);
    assert!(matches!(value_into_list(Value::Empty), Err(ScriptError::NotAList)));
    assert_eq!(show(&parse_value("v".to_string())), "Str(\"v\")");
}

#[test]
fn json_values_round_trip() {
    let v = Value::List(vec![Value::Str("a".into()), Value::Empty, Value::List(vec![Value::Empty])]);
    let j = jval_from_value(clone_value(&v));
    assert_eq!(format!("{:?}", j), "Arr([Str(\"a\"), Null, Arr([Null])])");
    assert_eq!(show(&value_from_jval(j)), show(&v));
    assert_eq!(show(&value_from_jval(JVal::Null)), "Empty");
}

#[test]
fn dict_reads_what_was_written() {
    let mut d: Dict<u32> = Dict::new();
    assert_eq!(d.get("a"), None);
    d.insert("a".to_string(), 1);
    d.insert("b".to_string(), 2);
    d.insert("a".to_string(), 3);
    assert_eq!(d.get("a"), Some(&3));
    assert_eq!(d.get("b"), Some(&2));
    assert_eq!(d.remove_entry("a"), Some(("a".to_string(), 3)));
    assert_eq!(d.get("a"), None);
    assert_eq!(d.remove_entry("a"), None);
}

#[test]
fn park_gives_cleared_strings() {
    let mut src = vec![String::from("used")];
    assert_eq!(Park::unpark(&mut src), "");
    assert!(src.is_empty());
    assert_eq!(Park::unpark(&mut src), "");
    let mut v: Vec<Vec<u8>> = vec![vec![1, 2]];
    assert!(Park::unpark(&mut v).is_empty());
}

#[test]
fn engine_sets_variables() {
    let ng: Engine = Engine::new();
    let ng = ng.set_r0(|_p: &mut Park, _v: Value| Value::Str("x".into()));
    let ng = ng.set_var(with_name("name"), with_val_id());
    assert_eq!(show(ng.variables.get("name").unwrap()), "Str(\"x\")");
    assert_eq!(show(&ng.r0), "Empty");
    let mut ng = ng;
    ng.each = Value::Str("e".into());
    let ng = ng.r0_load_each();
    assert_eq!(show(&ng.r0), "Str(\"e\")");
}

#[test]
fn error_server_messages() {
    assert_eq!(on_message(b"@__XERR_CMD__CLEAR"), (Served::Clear, false));
    assert_eq!(on_message(b"@__XERR_CMD__QUIT"), (Served::Quit, true));
    assert_eq!(on_message(b"trace"), (Served::Print, false));
    assert_eq!(on_message(b""), (Served::Print, true));
}

#[test]
fn script_lets_and_reads_variables() {
    let script = Script(vec![
        Stmt::Let("x", Box::new(Stmt::Expr(Expr::Str("one")))),
        Stmt::Let("l", Box::new(Stmt::Expr(Expr::List(vec![Expr::Var { var: "x" }, Expr::Str2 { s: "two" }])))),
        Stmt::Clone("l"),
    ]);
    let mut m = eval(&script, Engine::new());
    let seen = run(&mut m, vec![]);
    assert_eq!(seen.last().unwrap(), "Finished");
    let ng = m.into_engine();
    assert_eq!(show(&ng.r0), "List([Str(\"one\"), Str(\"two\")])");
    assert_eq!(show(ng.variables.get("x").unwrap()), "Str(\"one\")");
}

#[test]
fn script_runs_aliases_and_loops_over_items() {
    let script = Script(vec![
        Stmt::Let("items", Box::new(Stmt::Expr(Expr::List(vec![Expr::Str("a"), Expr::Str("b")])))),
        Stmt::Alias("show", Box::new(Stmt::Let("last", Box::new(Stmt::Expr(Expr::Each))))),
        Stmt::ForEach("items", Box::new(Stmt::AliasStmt("show"))),
        Stmt::List(vec![Stmt::Expr(Expr::Bs { bs: vec![7] })]),
    ]);
    let mut m = eval(&script, Engine::new());
    let seen = run(&mut m, vec![]);
    assert_eq!(seen.last().unwrap(), "Finished");
    let ng = m.into_engine();
    assert_eq!(show(ng.variables.get("last").unwrap()), "Str(\"b\")");
    assert!(ng.variables.get("items").is_none());
    assert!(ng.aliases.get("show").is_some());
    assert_eq!(show(&ng.r0), "Bytes([7])");
}

#[test]
fn script_failures() {
    let s1 = Script(vec![Stmt::Expr(Expr::Var { var: "nope" })]);
    let mut m = eval(&s1, Engine::new());
    assert_eq!(run(&mut m, vec![]).last().unwrap(), "Failed(VarNotFound(\"nope\"))");

    let s2 = Script(vec![Stmt::AliasStmt("nope")]);
    let mut m = eval(&s2, Engine::new());
    assert_eq!(run(&mut m, vec![]).last().unwrap(), "Failed(NoSuchAlias(\"nope\"))");

    let s3 = Script(vec![
        Stmt::Let("x", Box::new(Stmt::Expr(Expr::Str("s")))),
        Stmt::ForEach("x", Box::new(Stmt::Expr(Expr::Each))),
    ]);
    let mut m = eval(&s3, Engine::new());
    assert_eq!(run(&mut m, vec![]).last().unwrap(), "Failed(NotAList)");

    let s4 = Script(vec![
        Stmt::Alias("src", Box::new(Stmt::Expr(Expr::Str("s")))),
        Stmt::Expr(Expr::ReadSource { source: "src" }),
    ]);
    let mut m = eval(&s4, Engine::new());
    assert_eq!(run(&mut m, vec![]).last().unwrap(), "Failed(NotAPipeline(\"src\"))");
}

fn exec<'d>(cmd: &'d str, args: Vec<Expr<'d>>, cwd: Option<&'d str>, output: Type, stdin: Io<'d>) -> Stmt<'d> {
    Stmt::Exec { cmd, args, cwd, env: vec![("K", Expr::Str("V"))], output, allow_failure: false, stdin }
}

#[test]
fn script_runs_commands() {
    let script = Script(vec![exec(
        "echo",
        vec![Expr::Str("hi"), Expr::List(vec![Expr::Str("a")])],
        Some("/tmp"),
        Type::String,
        Io::Default,
    )]);
    let mut m = eval(&script, Engine::new());
    let seen = run(&mut m, vec![Event::Output(b"hi\n".to_vec(), true)]);
    let spawn = seen.iter().find(|a| a.starts_with("Spawn")).unwrap();
    assert!(spawn.contains("cmd: \"echo\""));
    assert!(spawn.contains("args: [\"hi\", \"[\\\"a\\\"]\"]"));
    assert!(spawn.contains("env: [(\"K\", \"V\")]"));
    assert!(spawn.contains("stdin: Null"));
    assert_eq!(seen.last().unwrap(), "Finished");
    assert_eq!(show(&m.into_engine().r0), "Str(\"hi\\n\")");

    let mut m = eval(&script, Engine::new());
    let seen = run(&mut m, vec![Event::Output(vec![], false)]);
    assert_eq!(seen.last().unwrap(), "Failed(CommandFailed)");

    let mut m = eval(&script, Engine::new());
    let seen = run(&mut m, vec![Event::Failed("no such program".to_string())]);
    assert_eq!(seen.last().unwrap(), "Failed(Outside(\"no such program\"))");

    let mut m = eval(&script, Engine::new());
    let seen = run(&mut m, vec![Event::Done]);
    assert_eq!(seen.last().unwrap(), "Failed(Unexpected)");
}

#[test]
fn script_pipes_a_stream_into_a_command() {
    let script = Script(vec![
        Stmt::Alias("src", Box::new(exec("ls", vec![], None, Type::Stream, Io::Default))),
        exec("sort", vec![], Some("."), Type::Display, Io::Source("src")),
    ]);
    let mut m = eval(&script, Engine::new());
    let seen = run(&mut m, vec![Event::Done, Event::Output(vec![], true)]);
    assert!(seen.iter().any(|a| a.contains("stream: true")));
    assert!(seen.iter().any(|a| a.contains("stdin: Pipe(1)")));
    assert_eq!(seen.last().unwrap(), "Finished");
}

#[test]
fn script_runs_mkdir() {
    let script = Script(vec![exec("mkdir", vec![Expr::Str("-pv"), Expr::Str("a/b")], Some("/r"), Type::Null, Io::Default)]);
    let mut m = eval(&script, Engine::new());
    let seen = run(&mut m, vec![Event::Done]);
    assert!(seen.iter().any(|a| a == "MakeDirs([\"/r/a/b\"], true)"));
    assert_eq!(seen.last().unwrap(), "Finished");

    let script = Script(vec![exec("mkdir", vec![Expr::Str("a")], None, Type::Null, Io::Default)]);
    let mut m = eval(&script, Engine::new());
    assert_eq!(run(&mut m, vec![]).last().unwrap(), "Failed(MkdirWithoutP)");

    let script = Script(vec![exec("mkdir", vec![Expr::Str("-pq")], None, Type::Null, Io::Default)]);
    let mut m = eval(&script, Engine::new());
    assert_eq!(run(&mut m, vec![]).last().unwrap(), "Failed(UnknownOpt('q'))");

    let script = Script(vec![exec("mkdir", vec![Expr::Bs { bs: vec![] }], None, Type::Null, Io::Default)]);
    let mut m = eval(&script, Engine::new());
    assert_eq!(run(&mut m, vec![]).last().unwrap(), "Failed(NotAString)");
}

#[test]
fn script_runs_xc() {
    let script = Script(vec![exec("xc", vec![Expr::Str("jy")], Some("d"), Type::String, Io::File(Expr::Str("in.json")))]);
    let mut m = eval(&script, Engine::new());
    let seen = run(&mut m, vec![Event::Output(b"a: 1\n".to_vec(), true)]);
    assert!(seen.iter().any(|a| a == "RunXc([\"-\", \"jy\"], File(\"d/in.json\"))"));
    assert_eq!(show(&m.into_engine().r0), "Str(\"a: 1\\n\")");

    let script = Script(vec![exec("xc", vec![], Some("d"), Type::String, Io::Tty)]);
    let mut m = eval(&script, Engine::new());
    assert_eq!(run(&mut m, vec![]).last().unwrap(), "Failed(TtyForXc)");

    let script = Script(vec![exec("xc", vec![], None, Type::Stream, Io::Default)]);
    let mut m = eval(&script, Engine::new());
    let seen = run(&mut m, vec![Event::Output(vec![], true)]);
    assert!(seen.iter().any(|a| a == "RunXc([\"-\"], Stdin)"));
    assert_eq!(seen.last().unwrap(), "Failed(StreamForXc)");

    let script = Script(vec![exec("xc", vec![], None, Type::Display, Io::Default)]);
    let mut m = eval(&script, Engine::new());
    let seen = run(&mut m, vec![Event::Output(b"out".to_vec(), true)]);
    assert!(seen.iter().any(|a| a == "Print([111, 117, 116])"));
    assert_eq!(seen.last().unwrap(), "Finished");
}

#[test]
fn script_writes_files() {
    let script = Script(vec![
        Stmt::WriteFile(Expr::Str("f.txt"), Expr::Str("text")),
        Stmt::WriteValue(Expr::Str("v.json"), Expr::List(vec![Expr::Str("a")])),
    ]);
    let mut m = eval(&script, Engine::new());
    let seen = run(&mut m, vec![Event::Done, Event::Done, Event::Done, Event::Done]);
    assert!(seen.iter().any(|a| a == "CreateFile(\"f.txt\")"));
    assert!(seen.iter().any(|a| a == "WriteFile([116, 101, 120, 116])"));
    assert!(seen.iter().any(|a| a == "WriteFile([91, 34, 97, 34, 93])"));
    assert_eq!(seen.last().unwrap(), "Finished");

    let script = Script(vec![Stmt::WriteFile(Expr::Str("f"), Expr::List(vec![]))]);
    let mut m = eval(&script, Engine::new());
    assert_eq!(run(&mut m, vec![Event::Done]).last().unwrap(), "Failed(NotWritable)");

    let script = Script(vec![Stmt::WriteFile(Expr::Each, Expr::Str("x"))]);
    let mut m = eval(&script, Engine::new());
    assert_eq!(run(&mut m, vec![]).last().unwrap(), "Failed(NotAString)");
}

#[test]
fn script_writing_bytes_as_json_would_panic() {
    let script = Script(vec![Stmt::WriteValue(Expr::Str("v"), Expr::Bs { bs: vec![1] })]);
    let mut m = eval(&script, Engine::new());
    let mut ev = Event::Resume;
    loop {
        if m.would_panic(&ev) {
            break;
        }
        match m.step(ev) {
            Action::CreateFile(_) => ev = Event::Done,
            Action::Continue => ev = Event::Resume,
            other => panic!("unexpected {:?}", other),
        }
    }
}
