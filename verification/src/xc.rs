pub mod direct;
pub mod error;
pub mod mode;
pub mod ssh_config;
pub mod transcode;
pub mod vagrant_machine_readable_quote_unquote;

use vstd::prelude::*;
use vstd::utf8::encode_utf8;
use vstd::string::{
    StrSliceExecFns,
    StringSliceAdditionalSpecFns,
};

use self::direct::{
    do_direct,
    spec_direct,
};
use self::error::{
    converted,
    lift,
    XcError,
};
use self::mode::{
    from,
    spec_from,
    spec_to,
    to,
};
use self::ssh_config::{
    cbor_of_hosts,
    failure_of,
    ssh_index,
};
use self::transcode::{
    cbor_to,
    ron_refusal,
    ron_start,
    text_to,
    transcoded,
    InputFormat,
};
use self::vagrant_machine_readable_quote_unquote::{
    cbor_of_boxes,
    listing,
    listing_failure_of,
};
use crate::text::{
    lines,
    str_eq,
};

verus! {

/// A text format that is read by its own deserializer.
#[derive(Debug, Clone, Copy, PartialEq, Eq, Structural)]
pub enum TextFormat {
    Ron,
    Json,
    Yaml,
    Toml,
}

/// A format that is written.
#[derive(Debug, Clone, Copy, PartialEq, Eq, Structural)]
pub enum Target {
    Ron,
    Json,
    Yaml,
}

/// The mode of a conversion: the first argument after the program name, or
/// nothing.
pub fn mode_of(args: &[String]) -> (r: &str)
    ensures
        args@.len() > 1 ==> r@ == args@[1]@,
        args@.len() <= 1 ==> r@ == Seq::<char>::empty(),
{
    if args.len() > 1 {
        args[1].as_str()
    } else {
        proof {
            reveal_strlit("");
        }
        ""
    }
}

/// The text format that `f` names.
pub open spec fn spec_text_format(f: Seq<char>) -> Option<TextFormat> {
    if f == "r"@ {
        Some(TextFormat::Ron)
    } else if f == "j"@ {
        Some(TextFormat::Json)
    } else if f == "y"@ {
        Some(TextFormat::Yaml)
    } else if f == "m"@ {
        Some(TextFormat::Toml)
    } else {
        None
    }
}

/// The target that `t` names.
pub open spec fn spec_target(t: Seq<char>) -> Option<Target> {
    if t == "r"@ {
        Some(Target::Ron)
    } else if t == "j"@ {
        Some(Target::Json)
    } else if t == "y"@ {
        Some(Target::Yaml)
    } else {
        None
    }
}

/// The target of a mode, or the refusal of an unknown one.
pub fn target<'a>(mode: &'a str) -> (r: Result<Target, XcError<'a>>)
    ensures
        match spec_target(spec_to(mode@)) {
            Some(t) => r == Ok::<Target, XcError<'a>>(t),
            None => r matches Err(XcError::UnknownTo(u)) && u@ == spec_to(mode@),
        },
{
    let t = to(mode);
    proof {
        reveal_strlit("r");
        reveal_strlit("j");
        reveal_strlit("y");
    }
    if str_eq(t, "r") {
        Ok(Target::Ron)
    } else if str_eq(t, "j") {
        Ok(Target::Json)
    } else if str_eq(t, "y") {
        Ok(Target::Yaml)
    } else {
        Err(XcError::UnknownTo(t))
    }
}

/// What a conversion that read `input` in the format `from` writes for the
/// target that `to` names: the output, the failure of the reader or writer, or
/// the refusal of an unknown target.
pub open spec fn written<'a>(
    r: Result<Vec<u8>, XcError<'a>>,
    to: Seq<char>,
    from: InputFormat,
    input: Seq<u8>,
) -> bool {
    match spec_target(to) {
        Some(t) => converted(r, transcoded(from, t, input)),
        None => r matches Err(XcError::UnknownTo(u)) && u@ == to,
    }
}

/// What a conversion in `mode` writes for `buffer`: for `s`, the direct
/// output; for `r`, `j`, `y` and `m`, the buffer read in that text format and
/// written as the target; for `h`, the hosts of an SSH configuration, and for
/// `v`, the boxes of a machine-readable listing, each written as CBOR and then
/// read back and written as the target. An unknown input format is refused,
/// and so are an unknown direct output and an unknown target; the target is
/// looked at only once the input has been read (for RON, once its reader has
/// started).
pub fn convert<'a>(mode: &'a str, buffer: &'a str) -> (r: Result<Vec<u8>, XcError<'a>>)
    ensures
        if spec_from(mode@) == "s"@ {
            match spec_direct(spec_to(mode@), buffer) {
                Ok(out) => r matches Ok(v) && v@ == encode_utf8(out),
                Err(_) => r matches Err(XcError::UnknownDirect(t)) && t@ == spec_to(mode@),
            }
        } else if spec_text_format(spec_from(mode@)) is Some {
            if spec_from(mode@) == "r"@ && ron_refusal(buffer.spec_bytes()) is Some {
                r matches Err(XcError::Convert(m)) && ron_refusal(buffer.spec_bytes()) == Some(m@)
            } else {
                written(
                    r,
                    spec_to(mode@),
                    InputFormat::Text(spec_text_format(spec_from(mode@))->0),
                    buffer.spec_bytes(),
                )
            }
        } else if spec_from(mode@) == "h"@ {
            match ssh_index(lines(buffer@)) {
                Err(fail) => r matches Err(e) && (e is NoHostName || e is NoHostBefore) && failure_of(e)
                    == fail,
                Ok(idx) => written(r, spec_to(mode@), InputFormat::Cbor, cbor_of_hosts(idx)),
            }
        } else if spec_from(mode@) == "v"@ {
            match listing(lines(buffer@)) {
                Err(fail) => r matches Err(e) && (e is NoBox || e is Undone) && listing_failure_of(e)
                    == fail,
                Ok(st) => written(r, spec_to(mode@), InputFormat::Cbor, cbor_of_boxes(st.0)),
            }
        } else {
            r matches Err(XcError::UnknownFrom(u)) && u@ == spec_from(mode@)
        },
{
    let f = from(mode);
    proof {
        reveal_strlit("s");
        reveal_strlit("r");
        reveal_strlit("j");
        reveal_strlit("y");
        reveal_strlit("m");
        reveal_strlit("h");
        reveal_strlit("v");
    }
    if str_eq(f, "s") {
        match do_direct(mode, buffer) {
            Ok(out) => Ok(out.as_str().as_bytes_vec()),
            Err(e) => Err(e),
        }
    } else if str_eq(f, "r") || str_eq(f, "j") || str_eq(f, "y") || str_eq(f, "m") {
        let fmt = if str_eq(f, "r") {
            match ron_start(buffer) {
                Some(m) => {
                    return Err(XcError::Convert(m));
                },
                None => {},
            }
            TextFormat::Ron
        } else if str_eq(f, "j") {
            TextFormat::Json
        } else if str_eq(f, "y") {
            TextFormat::Yaml
        } else {
            TextFormat::Toml
        };
        match target(mode) {
            Ok(t) => lift(text_to(fmt, t, buffer)),
            Err(e) => Err(e),
        }
    } else if str_eq(f, "h") {
        match ssh_config::parse_compile(buffer) {
            Err(e) => Err(e),
            Ok(bytes) => match target(mode) {
                Ok(t) => lift(cbor_to(t, bytes)),
                Err(e) => Err(e),
            },
        }
    } else if str_eq(f, "v") {
        match vagrant_machine_readable_quote_unquote::parse_compile(buffer) {
            Err(e) => Err(e),
            Ok(bytes) => match target(mode) {
                Ok(t) => lift(cbor_to(t, bytes)),
                Err(e) => Err(e),
            },
        }
    } else {
        Err(XcError::UnknownFrom(f))
    }
}

} // verus!
