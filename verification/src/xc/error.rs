use vstd::prelude::*;

verus! {

/// The ways a conversion is refused.
#[derive(Debug, PartialEq, Eq)]
pub enum XcError<'a> {
    /// The input format is unknown.
    UnknownFrom(&'a str),
    /// The output format is unknown.
    UnknownTo(&'a str),
    /// The direct output format is unknown.
    UnknownDirect(&'a str),
    /// A `Host` line without a name.
    NoHostName(&'a str),
    /// A setting before any `Host` line.
    NoHostBefore(&'a str),
    /// A setting before any box name.
    NoBox,
    /// A line of a form that is not handled: its fields after the second.
    Undone(Option<&'a str>, Option<&'a str>, Option<&'a str>),
    /// The conversion itself failed, with the reader's or writer's message.
    Convert(String),
}

/// `r` is what `exp` says: the same bytes, or an error with the same message.
pub open spec fn gives(r: Result<Vec<u8>, String>, exp: Result<Seq<u8>, Seq<char>>) -> bool {
    match (r, exp) {
        (Ok(b), Ok(e)) => b@ == e,
        (Err(m), Err(e)) => m@ == e,
        _ => false,
    }
}

/// `r` is what `exp` says, its error a failed conversion.
pub open spec fn converted<'a>(r: Result<Vec<u8>, XcError<'a>>, exp: Result<Seq<u8>, Seq<char>>) -> bool {
    match exp {
        Ok(b) => r matches Ok(v) && v@ == b,
        Err(m) => r matches Err(XcError::Convert(s)) && s@ == m,
    }
}

/// The result of a reader or writer, its error a failed conversion.
pub(crate) fn lift<'a>(r: Result<Vec<u8>, String>) -> (out: Result<Vec<u8>, XcError<'a>>)
    ensures
        match r {
            Ok(b) => out matches Ok(v) && v@ == b@,
            Err(m) => out matches Err(XcError::Convert(s)) && s@ == m@,
        },
{
    match r {
        Ok(b) => Ok(b),
        Err(m) => Err(XcError::Convert(m)),
    }
}

} // verus!
