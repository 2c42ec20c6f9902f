use vstd::prelude::*;

use super::dict::Dict;
use super::input::Input;
use crate::text::str_eq;

verus! {

/// The options of a script run.
#[derive(Debug)]
pub struct Options<'a> {
    pub input: Input<'a>,
    pub eval: bool,
    pub export_ast: bool,
    pub named_args: Dict<&'a str>,
    pub err_server: bool,
    pub err_server_clear: bool,
    pub err_server_quit: bool,
}

/// What the contracts say of an input.
pub enum InputView {
    Str(Seq<char>),
    Stdin,
    File(Seq<char>),
}

/// What the contracts say of the options.
pub struct OptionsView {
    pub input: InputView,
    pub eval: bool,
    pub export_ast: bool,
    pub named_args: Map<Seq<char>, Seq<char>>,
    pub err_server: bool,
    pub err_server_clear: bool,
    pub err_server_quit: bool,
}

/// The ways the arguments are refused.
#[derive(Debug, PartialEq, Eq)]
pub enum CliError<'a> {
    /// `-f` is the last argument.
    MissingFile,
    /// `-c` is the last argument.
    MissingScript,
    /// `-ah` is the last argument.
    MissingName,
    /// `-ah` and its name are the last arguments.
    MissingValue,
    /// An argument that is no option.
    UnknownArgument(&'a str),
}

/// What the contracts say of a refusal.
pub enum CliFailure {
    MissingFile,
    MissingScript,
    MissingName,
    MissingValue,
    UnknownArgument(Seq<char>),
}

impl<'a> CliError<'a> {
    /// What the contracts say of this refusal.
    pub open spec fn failure(&self) -> CliFailure {
        match self {
            CliError::MissingFile => CliFailure::MissingFile,
            CliError::MissingScript => CliFailure::MissingScript,
            CliError::MissingName => CliFailure::MissingName,
            CliError::MissingValue => CliFailure::MissingValue,
            CliError::UnknownArgument(a) => CliFailure::UnknownArgument(a@),
        }
    }
}

impl<'a> Input<'a> {
    /// What the contracts say of this input.
    pub open spec fn input_view(&self) -> InputView {
        match self {
            Input::Str(s) => InputView::Str(s@),
            Input::Stdin => InputView::Stdin,
            Input::File(p) => InputView::File(p@),
        }
    }
}

/// The texts of a map's values.
pub open spec fn str_values(m: Map<Seq<char>, &str>) -> Map<Seq<char>, Seq<char>> {
    m.map_values(|v: &str| v@)
}

impl<'a> Options<'a> {
    /// What the contracts say of these options.
    pub open spec fn options_view(&self) -> OptionsView {
        OptionsView {
            input: self.input.input_view(),
            eval: self.eval,
            export_ast: self.export_ast,
            named_args: str_values(self.named_args@),
            err_server: self.err_server,
            err_server_clear: self.err_server_clear,
            err_server_quit: self.err_server_quit,
        }
    }
}

/// The options of an empty command line: read the script from the standard
/// input and run it.
pub open spec fn default_options() -> OptionsView {
    OptionsView {
        input: InputView::Stdin,
        eval: true,
        export_ast: false,
        named_args: Map::empty(),
        err_server: false,
        err_server_clear: false,
        err_server_quit: false,
    }
}

/// The options that the arguments of `args` from `i` on set on top of `o`, or
/// the first refusal.
pub open spec fn options_from(args: Seq<Seq<char>>, i: int, o: OptionsView) -> Result<
    OptionsView,
    CliFailure,
>
    decreases args.len() - i,
{
    if i < 0 || i >= args.len() {
        Ok(o)
    } else {
        let a = args[i];
        if a == "--error-server"@ {
            options_from(args, i + 1, OptionsView { err_server: true, ..o })
        } else if a == "--error-server-clear"@ {
            options_from(args, i + 1, OptionsView { err_server_clear: true, ..o })
        } else if a == "--error-server-quit"@ {
            options_from(args, i + 1, OptionsView { err_server_quit: true, ..o })
        } else if a == "-f"@ {
            if i + 1 < args.len() {
                options_from(args, i + 2, OptionsView { input: InputView::File(args[i + 1]), ..o })
            } else {
                Err(CliFailure::MissingFile)
            }
        } else if a == "-c"@ {
            if i + 1 < args.len() {
                options_from(args, i + 2, OptionsView { input: InputView::Str(args[i + 1]), ..o })
            } else {
                Err(CliFailure::MissingScript)
            }
        } else if a == "-s"@ {
            options_from(args, i + 1, OptionsView { eval: false, ..o })
        } else if a == "-a"@ {
            options_from(args, i + 1, OptionsView { export_ast: true, ..o })
        } else if a == "-ah"@ {
            if i + 1 >= args.len() {
                Err(CliFailure::MissingName)
            } else if i + 2 >= args.len() {
                Err(CliFailure::MissingValue)
            } else {
                options_from(
                    args,
                    i + 3,
                    OptionsView { named_args: o.named_args.insert(args[i + 1], args[i + 2]), ..o },
                )
            }
        } else {
            Err(CliFailure::UnknownArgument(a))
        }
    }
}

/// The views of a sequence of strings.
pub open spec fn string_views(s: Seq<String>) -> Seq<Seq<char>> {
    s.map_values(|x: String| x@)
}

/// The options that the command line `args` sets; the first argument, the
/// program's name, is skipped.
pub fn parse_args<'a>(args: &'a [String]) -> (r: Result<Options<'a>, CliError<'a>>)
    ensures
        match r {
            Ok(o) => options_from(string_views(args@), 1, default_options()) == Ok::<
                OptionsView,
                CliFailure,
            >(o.options_view()) && o.named_args.wf(),
            Err(e) => options_from(string_views(args@), 1, default_options()) == Err::<
                OptionsView,
                CliFailure,
            >(e.failure()),
        },
{
    let ghost views = string_views(args@);
    let mut opts = Options {
        input: Input::Stdin,
        eval: true,
        export_ast: false,
        named_args: Dict::new(),
        err_server: false,
        err_server_clear: false,
        err_server_quit: false,
    };
    proof {
        assert(str_values(opts.named_args@) =~= Map::<Seq<char>, Seq<char>>::empty());
        assert(opts.options_view() == default_options());
    }
    let n = args.len();
    let mut i: usize = if n > 0 {
        1
    } else {
        0
    };
    while i < n
        invariant
            n == args@.len(),
            views == string_views(args@),
            views.len() == n,
            0 <= i <= n,
            n > 0 ==> i >= 1,
            opts.named_args.wf(),
            options_from(views, 1, default_options()) == options_from(views, i as int, opts.options_view()),
        decreases n - i,
    {
        let a = args[i].as_str();
        assert(views[i as int] == a@);
        if str_eq(a, "--error-server") {
            opts.err_server = true;
            i = i + 1;
        } else if str_eq(a, "--error-server-clear") {
            opts.err_server_clear = true;
            i = i + 1;
        } else if str_eq(a, "--error-server-quit") {
            opts.err_server_quit = true;
            i = i + 1;
        } else if str_eq(a, "-f") {
            if i + 1 < n {
                opts.input = Input::File(args[i + 1].as_str());
                i = i + 2;
            } else {
                return Err(CliError::MissingFile);
            }
        } else if str_eq(a, "-c") {
            if i + 1 < n {
                opts.input = Input::Str(args[i + 1].as_str());
                i = i + 2;
            } else {
                return Err(CliError::MissingScript);
            }
        } else if str_eq(a, "-s") {
            opts.eval = false;
            i = i + 1;
        } else if str_eq(a, "-a") {
            opts.export_ast = true;
            i = i + 1;
        } else if str_eq(a, "-ah") {
            if i + 1 >= n {
                return Err(CliError::MissingName);
            } else if i + 2 >= n {
                return Err(CliError::MissingValue);
            } else {
                let ghost before = opts.named_args@;
                let name = args[i + 1].as_str();
                let sval = args[i + 2].as_str();
                opts.named_args.insert(name.to_owned(), sval);
                proof {
                    assert(str_values(opts.named_args@) =~= str_values(before).insert(
                        views[i + 1],
                        views[i + 2],
                    ));
                }
                i = i + 3;
            }
        } else {
            return Err(CliError::UnknownArgument(a));
        }
    }
    Ok(opts)
}

} // verus!
