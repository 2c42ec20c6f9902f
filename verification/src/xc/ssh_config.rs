use vstd::prelude::*;

use super::error::{
    lift,
    XcError,
};
use crate::text::{
    lines,
    str_eq,
    str_lines,
    str_split_whitespace,
    views,
    words,
};

verus! {

/// The settings of a host: each key with the words that follow it.
pub type HostView = Seq<(Seq<char>, Seq<Seq<char>>)>;

/// The hosts of an SSH configuration, in order, each with its settings.
pub type IndexView = Seq<(Seq<char>, HostView)>;

/// The ways an SSH configuration is refused.
pub enum SshFailure {
    /// A `Host` line without a name.
    NoHostName(Seq<char>),
    /// A setting before any `Host` line.
    NoHostBefore(Seq<char>),
}

/// What one line does to the index: a line of no words does nothing; `Host`
/// starts a host named by the next word; any other first word is a key, set,
/// in the last host, to the words after it.
pub open spec fn ssh_line(idx: IndexView, line: Seq<char>) -> Result<IndexView, SshFailure> {
    let tokens = words(line);
    if tokens.len() == 0 {
        Ok(idx)
    } else if tokens[0] == "Host"@ {
        if tokens.len() < 2 {
            Err(SshFailure::NoHostName(line))
        } else {
            Ok(idx.push((tokens[1], seq![])))
        }
    } else if idx.len() == 0 {
        Err(SshFailure::NoHostBefore(line))
    } else {
        Ok(idx.update(idx.len() - 1, (idx.last().0, idx.last().1.push((tokens[0], tokens.drop_first())))))
    }
}

/// The index of the lines `ls`, read in order; the first refused line ends it.
pub open spec fn ssh_index(ls: Seq<Seq<char>>) -> Result<IndexView, SshFailure>
    decreases ls.len(),
{
    if ls.len() == 0 {
        Ok(seq![])
    } else {
        match ssh_index(ls.drop_last()) {
            Ok(idx) => ssh_line(idx, ls.last()),
            Err(e) => Err(e),
        }
    }
}

/// A refused line refuses every longer configuration.
proof fn lemma_ssh_err_extends(ls: Seq<Seq<char>>, k: int)
    requires
        0 <= k <= ls.len(),
        ssh_index(ls.take(k)) is Err,
    ensures
        ssh_index(ls) == ssh_index(ls.take(k)),
    decreases ls.len() - k,
{
    if k == ls.len() {
        assert(ls.take(k) =~= ls);
    } else {
        assert(ls.take(k + 1).drop_last() =~= ls.take(k));
        lemma_ssh_err_extends(ls, k + 1);
    }
}

/// The settings that the lines `ls` make: each line's first word, with the
/// words after it.
pub open spec fn settings_of(ls: Seq<Seq<char>>) -> HostView {
    ls.map_values(|l: Seq<char>| (words(l)[0], words(l).drop_first()))
}

/// Settings belong to the most recent host: after the lines `ls`, a `Host`
/// line and setting lines (none of them empty or a `Host` line), the index is
/// that of `ls` followed by one host, named by the `Host` line, that holds
/// exactly those settings, in order.
pub proof fn law_settings_go_to_last_host(ls: Seq<Seq<char>>, host: Seq<char>, settings: Seq<Seq<char>>)
    requires
        ssh_index(ls) is Ok,
        words(host).len() >= 2,
        words(host)[0] == "Host"@,
        forall|j: int| 0 <= j < settings.len() ==> words(#[trigger] settings[j]).len() > 0 && words(
            settings[j],
        )[0] != "Host"@,
    ensures
        ssh_index(ls + seq![host] + settings) == Ok::<IndexView, SshFailure>(
            ssh_index(ls)->Ok_0.push((words(host)[1], settings_of(settings))),
        ),
    decreases settings.len(),
{
    let all = ls + seq![host] + settings;
    let idx = ssh_index(ls)->Ok_0;
    if settings.len() == 0 {
        assert(all.drop_last() =~= ls);
        assert(all.last() == host);
        assert(settings_of(settings) =~= Seq::<(Seq<char>, Seq<Seq<char>>)>::empty());
    } else {
        let sd = settings.drop_last();
        let last = settings.last();
        assert forall|j: int| 0 <= j < sd.len() implies words(#[trigger] sd[j]).len() > 0 && words(
            sd[j],
        )[0] != "Host"@ by {
            assert(sd[j] == settings[j]);
        }
        law_settings_go_to_last_host(ls, host, sd);
        assert(all.drop_last() =~= ls + seq![host] + sd);
        assert(all.last() == last);
        assert(words(settings[settings.len() - 1]).len() > 0);
        let prev = idx.push((words(host)[1], settings_of(sd)));
        assert(settings_of(settings) =~= settings_of(sd).push((words(last)[0], words(last).drop_first())));
        assert(prev.update(prev.len() - 1, (prev.last().0, prev.last().1.push((words(last)[0], words(last).drop_first())))) =~= idx.push(
            (words(host)[1], settings_of(settings)),
        ));
    }
}

/// The index of an SSH configuration.
pub type Index<'a> = Vec<(&'a str, Vec<(&'a str, Vec<&'a str>)>)>;

pub open spec fn host_view<'a>(h: Vec<(&'a str, Vec<&'a str>)>) -> HostView {
    h@.map_values(|e: (&'a str, Vec<&'a str>)| (e.0@, views(e.1@)))
}

pub open spec fn index_view<'a>(idx: Index<'a>) -> IndexView {
    idx@.map_values(|e: (&'a str, Vec<(&'a str, Vec<&'a str>)>)| (e.0@, host_view(e.1)))
}

pub open spec fn failure_of<'a>(e: XcError<'a>) -> SshFailure {
    match e {
        XcError::NoHostBefore(l) => SshFailure::NoHostBefore(l@),
        _ => SshFailure::NoHostName(
            match e {
                XcError::NoHostName(l) => l@,
                _ => seq![],
            },
        ),
    }
}

/// The index of an SSH configuration: its hosts, in order, each with its
/// settings in order.
pub fn parse_index<'a>(input: &'a str) -> (r: Result<Index<'a>, XcError<'a>>)
    ensures
        match r {
            Ok(idx) => ssh_index(lines(input@)) == Ok::<IndexView, SshFailure>(index_view(idx)),
            Err(e) => {
                &&& e is NoHostName || e is NoHostBefore
                &&& ssh_index(lines(input@)) == Err::<IndexView, SshFailure>(failure_of(e))
            },
        },
{
    let ls = str_lines(input);
    let ghost all = views(ls@);
    let mut obj: Index<'a> = Vec::new();
    let mut i: usize = 0;
    proof {
        assert(all.take(0) =~= Seq::<Seq<char>>::empty());
        assert(index_view(obj) =~= Seq::<(Seq<char>, HostView)>::empty());
    }
    while i < ls.len()
        invariant
            0 <= i <= ls@.len(),
            all == views(ls@),
            all == lines(input@),
            ssh_index(all.take(i as int)) == Ok::<IndexView, SshFailure>(index_view(obj)),
        decreases ls@.len() - i,
    {
        let line = ls[i];
        let ghost prefix = all.take(i + 1);
        let ghost idx = index_view(obj);
        proof {
            assert(prefix.drop_last() =~= all.take(i as int));
            assert(prefix.last() == line@);
            assert(ssh_index(prefix) == ssh_line(idx, line@));
        }
        let tokens = str_split_whitespace(line);
        let ghost tv = views(tokens@);
        if tokens.len() == 0 {
        } else {
            let key = tokens[0];
            assert(tv[0] == key@);
            if str_eq(key, "Host") {
                if tokens.len() < 2 {
                    proof {
                        lemma_ssh_err_extends(all, i + 1);
                    }
                    return Err(XcError::NoHostName(line));
                }
                let ghost before = obj@;
                let empty: Vec<(&'a str, Vec<&'a str>)> = Vec::new();
                let ghost h = empty;
                obj.push((tokens[1], empty));
                proof {
                    assert(host_view(h) =~= Seq::<(Seq<char>, Seq<Seq<char>>)>::empty());
                    assert(obj@ =~= before.push((tokens@[1], h)));
                    assert(tv[1] == tokens@[1]@);
                    assert(index_view(obj) =~= idx.push((tv[1], seq![])));
                }
            } else {
                if obj.len() == 0 {
                    proof {
                        lemma_ssh_err_extends(all, i + 1);
                    }
                    return Err(XcError::NoHostBefore(line));
                }
                let mut rest: Vec<&'a str> = Vec::new();
                let mut j: usize = 1;
                while j < tokens.len()
                    invariant
                        1 <= j <= tokens@.len(),
                        rest@ == tokens@.subrange(1, j as int),
                    decreases tokens@.len() - j,
                {
                    rest.push(tokens[j]);
                    j = j + 1;
                }
                let last = obj.len() - 1;
                let ghost before = obj@;
                let (host_name, mut host) = obj.remove(last);
                let ghost old_host = host;
                host.push((key, rest));
                obj.push((host_name, host));
                proof {
                    assert(views(rest@) =~= tv.drop_first());
                    assert(host_view(host) =~= host_view(old_host).push((key@, views(rest@))));
                    assert(obj@ =~= before.update(last as int, (host_name, host)));
                    assert(index_view(obj) =~= idx.update(
                        idx.len() - 1,
                        (idx.last().0, idx.last().1.push((tv[0], tv.drop_first()))),
                    ));
                }
            }
        }
        i = i + 1;
    }
    proof {
        assert(all.take(i as int) =~= all);
    }
    Ok(obj)
}

/// The CBOR encoding that `serde_cbor::to_vec` makes of the hosts of an SSH
/// configuration.
pub uninterp spec fn cbor_of_hosts(hosts: IndexView) -> Seq<u8>;

/// The CBOR encoding of the hosts `idx`.
///
/// Calls `serde_cbor::to_vec` on the hosts, a sequence of pairs of strings
/// and sequences; the contract names what it makes and claims that it
/// succeeds: writing into a byte vector fails only on integers that CBOR
/// cannot hold, and the hosts hold none.
#[verifier::external_body]
fn hosts_to_cbor<'a>(idx: &Index<'a>) -> (r: Result<Vec<u8>, String>)
    ensures
        match r {
            Ok(b) => b@ == cbor_of_hosts(index_view(*idx)),
            Err(_) => false,
        },
{
    match serde_cbor::to_vec(idx) {
        Ok(b) => Ok(b),
        Err(e) => Err(format!("{:?}", e)),
    }
}

/// The hosts of an SSH configuration, in order, each with its settings in
/// order, written as CBOR.
pub fn parse_compile<'a>(input: &'a str) -> (r: Result<Vec<u8>, XcError<'a>>)
    ensures
        match ssh_index(lines(input@)) {
            Err(fail) => r matches Err(e) && (e is NoHostName || e is NoHostBefore) && failure_of(e)
                == fail,
            Ok(idx) => r matches Ok(v) && v@ == cbor_of_hosts(idx),
        },
{
    match parse_index(input) {
        Err(e) => Err(e),
        Ok(idx) => lift(hosts_to_cbor(&idx)),
    }
}

} // verus!
