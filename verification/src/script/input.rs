use vstd::prelude::*;

verus! {

/// Where a script is read from.
#[derive(Debug)]
pub enum Input<'a> {
    Str(&'a str),
    Stdin,
    File(&'a str),
}

impl<'a> Input<'a> {
    /// How the input is named in messages: the path, `stdin`, or the script.
    pub fn to_display(&self) -> (r: &str)
        ensures
            match self {
                Input::File(path) => r@ == path@,
                Input::Stdin => r@ == "stdin"@,
                Input::Str(s) => r@ == s@,
            },
    {
        match self {
            Input::File(path) => path,
            Input::Stdin => "stdin",
            Input::Str(s) => s,
        }
    }
}

/// What the shebang stripper remembers between reads: whether the start of the
/// input has been looked at, and how many bytes of a shebang line are still to
/// be skipped (`None` while the end of that line is not known).
#[derive(Debug)]
pub struct Mem(Option<usize>, Option<usize>);

impl Mem {
    /// The start of the input has not been looked at.
    pub fn new() -> (r: Self)
        ensures
            r.fresh(),
    {
        Mem(None, None)
    }

    pub closed spec fn fresh(&self) -> bool {
        self.0 is None && self.1 is None
    }

    /// The start has been looked at and nothing is left to skip.
    pub closed spec fn done(&self) -> bool {
        self.0 == Some(0usize) && self.1 == Some(0usize)
    }

    /// The input starts with a shebang whose line end is not known yet.
    pub closed spec fn seeking(&self) -> bool {
        self.0 == Some(0usize) && self.1 is None
    }

    pub open spec fn wf(&self) -> bool {
        self.fresh() || self.done() || self.seeking()
    }
}

impl Default for Mem {
    fn default() -> (r: Self)
        ensures
            r.fresh(),
    {
        Mem::new()
    }
}

/// What the reader that strips a shebang line must do next.
#[derive(Debug, PartialEq, Eq)]
pub enum Step {
    /// Fill the buffer of the inner reader, and give its contents back.
    Fill,
    /// Drop this many bytes from the buffer of the inner reader.
    Consume(usize),
    /// Read from the inner reader as it is.
    Read,
}

/// The position of the first line feed in `s`.
pub open spec fn first_line_feed(s: Seq<u8>) -> Option<int>
    decreases s.len(),
{
    if s.len() == 0 {
        None
    } else if s[0] == 10 {
        Some(0)
    } else {
        match first_line_feed(s.drop_first()) {
            Some(i) => Some(i + 1),
            None => None,
        }
    }
}

fn find_line_feed(s: &[u8]) -> (r: Option<usize>)
    ensures
        match r {
            Some(i) => first_line_feed(s@) == Some(i as int),
            None => first_line_feed(s@) is None,
        },
{
    let mut i: usize = 0;
    assert(s@.skip(0) =~= s@);
    while i < s.len()
        invariant
            0 <= i <= s@.len(),
            first_line_feed(s@) == match first_line_feed(s@.skip(i as int)) {
                Some(j) => Some(j + i),
                None => None,
            },
        decreases s@.len() - i,
    {
        proof {
            assert(s@.skip(i as int).drop_first() =~= s@.skip(i + 1));
        }
        if s[i] == 10 {
            return Some(i);
        }
        i = i + 1;
    }
    None
}

/// The next step of a reader that drops the shebang line (`#!` up to, not
/// including, the first line feed) at the start of its input. `filled` is
/// what the inner buffer held after the step `Fill`, and `None` otherwise.
///
/// A fresh stripper asks to fill the buffer; an empty buffer ends the
/// stripping; a buffer of one byte is filled again; a buffer that does not
/// start with `#!` ends it; one that does is searched for its line feed, the
/// buffer being filled again until one is found; the bytes before the line
/// feed are then consumed, and from then on every read goes through.
pub fn strip_shebang(mem: &mut Mem, filled: Option<&[u8]>) -> (r: Step)
    requires
        old(mem).wf(),
    ensures
        final(mem).wf(),
        old(mem).done() ==> r == Step::Read && final(mem).done(),
        old(mem).fresh() ==> match filled {
            None => r == Step::Fill && final(mem).fresh(),
            Some(b) => if b@.len() == 0 {
                r == Step::Read && final(mem).done()
            } else if b@.len() < 2 {
                r == Step::Fill && final(mem).fresh()
            } else if b@[0] == 35 && b@[1] == 33 {
                r == Step::Fill && final(mem).seeking()
            } else {
                r == Step::Read && final(mem).done()
            },
        },
        old(mem).seeking() ==> match filled {
            None => r == Step::Fill && final(mem).seeking(),
            Some(b) => match first_line_feed(b@) {
                None => r == Step::Fill && final(mem).seeking(),
                Some(p) => if p == 0 {
                    r == Step::Read && final(mem).done()
                } else {
                    r == Step::Consume(p as usize) && final(mem).done()
                },
            },
        },
{
    match (mem.0, mem.1) {
        (None, _) => match filled {
            None => Step::Fill,
            Some(buf) => {
                if buf.len() == 0 {
                    mem.0 = Some(0);
                    mem.1 = Some(0);
                    Step::Read
                } else if buf.len() < 2 {
                    Step::Fill
                } else {
                    mem.0 = Some(0);
                    if buf[0] == 35 && buf[1] == 33 {
                        mem.1 = None;
                        Step::Fill
                    } else {
                        mem.1 = Some(0);
                        Step::Read
                    }
                }
            },
        },
        (Some(_), None) => match filled {
            None => Step::Fill,
            Some(buf) => {
                let p = find_line_feed(buf);
                match p {
                    None => Step::Fill,
                    Some(0) => {
                        mem.1 = Some(0);
                        Step::Read
                    },
                    Some(b) => {
                        mem.1 = Some(0);
                        Step::Consume(b)
                    },
                }
            },
        },
        (Some(_), Some(_)) => Step::Read,
    }
}

} // verus!
