use vstd::prelude::*;
use vstd::string::StringSliceAdditionalSpecFns;

verus! {

/// The name of the environment variable that holds the error server's
/// address.
pub fn addr_var_name() -> (r: &'static str)
    ensures
        r@ == "XERR_TCP"@,
{
    "XERR_TCP"
}

/// The message that asks the error server to clear its screen.
pub fn clear_command() -> (r: &'static [u8])
    ensures
        r@ == "@__XERR_CMD__CLEAR".spec_bytes(),
{
    "@__XERR_CMD__CLEAR".as_bytes()
}

/// The message that asks the error server to stop.
pub fn quit_command() -> (r: &'static [u8])
    ensures
        r@ == "@__XERR_CMD__QUIT".spec_bytes(),
{
    "@__XERR_CMD__QUIT".as_bytes()
}

/// What the error server does with a message.
#[derive(Debug, Clone, Copy, PartialEq, Eq, Structural)]
pub enum Served {
    /// Clear the screen.
    Clear,
    /// Stop serving.
    Quit,
    /// Write the message to the standard error.
    Print,
}

/// What a message asks of the server.
pub open spec fn served(msg: Seq<u8>) -> Served {
    if msg == "@__XERR_CMD__CLEAR".spec_bytes() {
        Served::Clear
    } else if msg == "@__XERR_CMD__QUIT".spec_bytes() {
        Served::Quit
    } else {
        Served::Print
    }
}

fn same_bytes(a: &[u8], b: &[u8]) -> (r: bool)
    ensures
        r == (a@ == b@),
{
    if a.len() != b.len() {
        return false;
    }
    let mut i: usize = 0;
    while i < a.len()
        invariant
            a@.len() == b@.len(),
            0 <= i <= a@.len(),
            forall|j: int| 0 <= j < i ==> a@[j] == b@[j],
        decreases a@.len() - i,
    {
        if a[i] != b[i] {
            return false;
        }
        i = i + 1;
    }
    assert(a@ =~= b@);
    true
}

/// What the error server does with the message `msg`, and whether it stops
/// serving afterwards: on `Quit`, and after an empty message.
pub fn on_message(msg: &[u8]) -> (r: (Served, bool))
    ensures
        r.0 == served(msg@),
        r.1 == (r.0 is Quit || msg@.len() == 0),
{
    let s = if same_bytes(msg, clear_command()) {
        Served::Clear
    } else if same_bytes(msg, quit_command()) {
        Served::Quit
    } else {
        Served::Print
    };
    let stop = match s {
        Served::Quit => true,
        _ => msg.len() == 0,
    };
    (s, stop)
}

} // verus!
