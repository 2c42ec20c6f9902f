use vstd::prelude::*;

use super::error::{
    lift,
    XcError,
};
use crate::script::dict::Dict;
use crate::text::{
    lines,
    split_on,
    str_eq,
    str_lines,
    str_split_char,
    views,
};

verus! {

/// The boxes of a machine-readable listing: each box name with its settings.
pub type BoxesView = Map<Seq<char>, Map<Seq<char>, Seq<char>>>;

/// What has been read so far: the boxes, and the box that the settings go to.
pub type ListingView = (BoxesView, Option<Seq<char>>);

/// The ways a machine-readable listing is refused.
pub enum ListingFailure {
    /// A setting before any box name.
    NoBox,
    /// A line of another form: its fields after the second.
    Undone(Option<Seq<char>>, Option<Seq<char>>, Option<Seq<char>>),
}

/// The fields of a line that the listing reads: those after the timestamp and
/// the target, that is after the second comma.
pub open spec fn listing_fields(line: Seq<char>) -> Seq<Seq<char>> {
    let p = split_on(line, ',');
    if p.len() > 2 {
        p.subrange(2, p.len() as int)
    } else {
        seq![]
    }
}

/// The field at `i`, if there is one.
pub open spec fn field_at(f: Seq<Seq<char>>, i: int) -> Option<Seq<char>> {
    if 0 <= i < f.len() {
        Some(f[i])
    } else {
        None
    }
}

/// What one line does: `ui` and `box-info` lines and lines of fewer than
/// three fields are passed over; `box-name` with one name makes that box the
/// current one, adding it empty if it is new; any other kind with one value
/// sets that key of the current box; anything else is refused.
pub open spec fn listing_line(st: ListingView, line: Seq<char>) -> Result<ListingView, ListingFailure> {
    let f = listing_fields(line);
    let kind = field_at(f, 0);
    let val = field_at(f, 1);
    let more = field_at(f, 2);
    if kind == Some("ui"@) || kind is None || kind == Some("box-info"@) {
        Ok(st)
    } else if kind == Some("box-name"@) && val is Some && more is None {
        let name = val->0;
        let boxes = if st.0.contains_key(name) {
            st.0
        } else {
            st.0.insert(name, Map::empty())
        };
        Ok((boxes, Some(name)))
    } else if val is Some && more is None {
        match st.1 {
            None => Err(ListingFailure::NoBox),
            Some(b) => Ok((st.0.insert(b, st.0[b].insert(kind->0, val->0)), st.1)),
        }
    } else {
        Err(ListingFailure::Undone(kind, val, more))
    }
}

/// The listing of the lines `ls`, read in order; the first refused line ends it.
pub open spec fn listing(ls: Seq<Seq<char>>) -> Result<ListingView, ListingFailure>
    decreases ls.len(),
{
    if ls.len() == 0 {
        Ok((Map::empty(), None))
    } else {
        match listing(ls.drop_last()) {
            Ok(st) => listing_line(st, ls.last()),
            Err(e) => Err(e),
        }
    }
}

/// A `box-name` line makes its box the current one: after it, the box is
/// present, unchanged if it was there and empty if not, the other boxes are
/// as they were, and the settings of the lines that follow go to it.
pub proof fn law_box_name_selects(ls: Seq<Seq<char>>, line: Seq<char>, name: Seq<char>)
    requires
        listing(ls) is Ok,
        listing_fields(line) == seq!["box-name"@, name],
    ensures
        listing(ls.push(line)) matches Ok(st) && {
            let before = listing(ls)->Ok_0.0;
            &&& st.1 == Some(name)
            &&& st.0.contains_key(name)
            &&& st.0[name] == if before.contains_key(name) {
                before[name]
            } else {
                Map::<Seq<char>, Seq<char>>::empty()
            }
            &&& st.0.remove(name) == before.remove(name)
        },
{
    reveal_strlit("ui");
    reveal_strlit("box-info");
    reveal_strlit("box-name");
    assert(ls.push(line).drop_last() =~= ls);
    assert(ls.push(line).last() == line);
    let f = listing_fields(line);
    assert(field_at(f, 0) == Some("box-name"@));
    assert(field_at(f, 1) == Some(name));
    assert(field_at(f, 2) is None);
    assert("box-name"@.len() != "ui"@.len());
    assert("box-name"@[4] != "box-info"@[4]);
    assert(listing(ls.push(line)) == listing_line(listing(ls)->Ok_0, line));
    let before = listing(ls)->Ok_0.0;
    let st = listing(ls.push(line))->Ok_0;
    if before.contains_key(name) {
        assert(st.0 == before);
    } else {
        assert(st.0.remove(name) =~= before.remove(name));
    }
}

/// A setting goes to the current box: a line with a key (other than `ui`,
/// `box-info` and `box-name`) and one value, read where a box is current, sets
/// that key of that box to the value, and changes nothing else.
pub proof fn law_setting_goes_to_current_box(ls: Seq<Seq<char>>, line: Seq<char>, key: Seq<char>, val: Seq<char>)
    requires
        listing(ls) matches Ok(st) && st.1 is Some,
        listing_fields(line) == seq![key, val],
        key != "ui"@ && key != "box-info"@ && key != "box-name"@,
    ensures
        listing(ls.push(line)) matches Ok(st2) && {
            let st = listing(ls)->Ok_0;
            let b = st.1->0;
            &&& st2.1 == st.1
            &&& st2.0 == st.0.insert(b, st.0[b].insert(key, val))
        },
{
    assert(ls.push(line).drop_last() =~= ls);
}

proof fn lemma_listing_err_extends(ls: Seq<Seq<char>>, k: int)
    requires
        0 <= k <= ls.len(),
        listing(ls.take(k)) is Err,
    ensures
        listing(ls) == listing(ls.take(k)),
    decreases ls.len() - k,
{
    if k == ls.len() {
        assert(ls.take(k) =~= ls);
    } else {
        assert(ls.take(k + 1).drop_last() =~= ls.take(k));
        lemma_listing_err_extends(ls, k + 1);
    }
}

/// The boxes of a listing, each a map from keys to values.
pub type Boxes<'a> = Dict<Dict<&'a str>>;

/// The settings of one box, as text.
pub open spec fn box_view<'a>(b: Dict<&'a str>) -> Map<Seq<char>, Seq<char>> {
    b@.map_values(|v: &'a str| v@)
}

/// The boxes, as text.
pub open spec fn boxes_view<'a>(d: Boxes<'a>) -> BoxesView {
    d@.map_values(|b: Dict<&'a str>| box_view(b))
}

/// No name occurs twice, among the boxes or within one.
pub open spec fn boxes_wf<'a>(d: Boxes<'a>) -> bool {
    &&& d.wf()
    &&& forall|k: Seq<char>| #[trigger] d@.contains_key(k) ==> d@[k].wf()
}

/// The failure that an error of this module stands for.
pub open spec fn listing_failure_of<'a>(e: XcError<'a>) -> ListingFailure {
    match e {
        XcError::Undone(a, b, c) => ListingFailure::Undone(
            match a {
                Some(s) => Some(s@),
                None => None,
            },
            match b {
                Some(s) => Some(s@),
                None => None,
            },
            match c {
                Some(s) => Some(s@),
                None => None,
            },
        ),
        _ => ListingFailure::NoBox,
    }
}

/// The piece at `i`, if there is one.
fn piece<'a>(p: &Vec<&'a str>, i: usize) -> (r: Option<&'a str>)
    ensures
        r is Some <==> i < p@.len(),
        r matches Some(s) ==> s == p@[i as int],
{
    if i < p.len() {
        Some(p[i])
    } else {
        None
    }
}

/// The boxes of a machine-readable listing (the output of
/// `vagrant ... --machine-readable`), each with its settings.
pub fn parse_boxes<'a>(input: &'a str) -> (r: Result<Boxes<'a>, XcError<'a>>)
    ensures
        match r {
            Ok(d) => {
                &&& boxes_wf(d)
                &&& listing(lines(input@)) matches Ok(st) && st.0 == boxes_view(d)
            },
            Err(e) => {
                &&& e is NoBox || e is Undone
                &&& listing(lines(input@)) == Err::<ListingView, ListingFailure>(listing_failure_of(e))
            },
        },
{
    let ls = str_lines(input);
    let ghost all = views(ls@);
    let mut obj: Boxes<'a> = Dict::new();
    let mut bx: Option<&'a str> = None;
    proof {
        assert(all.take(0) =~= Seq::<Seq<char>>::empty());
        assert(boxes_view(obj) =~= Map::<Seq<char>, Map<Seq<char>, Seq<char>>>::empty());
    }
    let mut i: usize = 0;
    while i < ls.len()
        invariant
            0 <= i <= ls@.len(),
            all == views(ls@),
            all == lines(input@),
            boxes_wf(obj),
            listing(all.take(i as int)) == Ok::<ListingView, ListingFailure>(
                (
                    boxes_view(obj),
                    match bx {
                        Some(s) => Some(s@),
                        None => None,
                    },
                ),
            ),
            bx matches Some(b) ==> obj@.contains_key(b@),
        decreases ls@.len() - i,
    {
        let line = ls[i];
        let ghost st: ListingView = (
            boxes_view(obj),
            match bx {
                Some(s) => Some(s@),
                None => None,
            },
        );
        proof {
            assert(all.take(i + 1).drop_last() =~= all.take(i as int));
            assert(all.take(i + 1).last() == line@);
        }
        let parts = str_split_char(line, ',');
        let ghost f = listing_fields(line@);
        proof {
            if views(parts@).len() > 2 {
                assert forall|j: int| 0 <= j < f.len() implies f[j] == parts@[j + 2]@ by {}
                assert(f.len() == parts@.len() - 2);
            } else {
                assert(f.len() == 0);
            }
        }
        let kind = piece(&parts, 2);
        let val = piece(&parts, 3);
        let more = piece(&parts, 4);
        proof {
            assert(field_at(f, 0) == match kind {
                Some(s) => Some(s@),
                None => None::<Seq<char>>,
            });
            assert(field_at(f, 1) == match val {
                Some(s) => Some(s@),
                None => None::<Seq<char>>,
            });
            assert(field_at(f, 2) == match more {
                Some(s) => Some(s@),
                None => None::<Seq<char>>,
            });
        }
        proof {
            reveal_strlit("ui");
            reveal_strlit("box-info");
            reveal_strlit("box-name");
        }
        let skip = match kind {
            None => true,
            Some(k) => str_eq(k, "ui") || str_eq(k, "box-info"),
        };
        if skip {
        } else if kind.is_some() && str_eq(kind.unwrap(), "box-name") && val.is_some() && more.is_none() {
            let name = val.unwrap();
            let present = obj.get(name).is_some();
            if !present {
                let ghost before = obj;
                obj.insert(name.to_owned(), Dict::new());
                proof {
                    assert forall|key: Seq<char>| #[trigger] obj@.contains_key(key) implies obj@[key].wf() by {
                        if key != name@ {
                            assert(before@.contains_key(key));
                        }
                    }
                    assert(box_view(obj@[name@]) =~= Map::<Seq<char>, Seq<char>>::empty());
                    assert(boxes_view(obj) =~= boxes_view(before).insert(name@, Map::empty()));
                }
            }
            bx = Some(name);
        } else if val.is_some() && more.is_none() {
            let k = kind.unwrap();
            let v = val.unwrap();
            let b = match bx {
                Some(b) => b,
                None => {
                    proof {
                        lemma_listing_err_extends(all, i + 1);
                    }
                    return Err(XcError::NoBox);
                },
            };
            let ghost before = obj;
            let (name, mut settings) = match obj.remove_entry(b) {
                Some(e) => e,
                None => {
                    return Err(XcError::NoBox);
                },
            };
            let ghost old_settings = settings;
            settings.insert(k.to_owned(), v);
            obj.insert(name, settings);
            proof {
                assert forall|key: Seq<char>| #[trigger] obj@.contains_key(key) implies obj@[key].wf() by {
                    if key != b@ {
                        assert(before@.contains_key(key));
                    }
                }
                assert(box_view(settings) =~= box_view(old_settings).insert(k@, v@));
                assert(boxes_view(obj) =~= boxes_view(before).insert(
                    b@,
                    boxes_view(before)[b@].insert(k@, v@),
                ));
            }
        } else {
            proof {
                lemma_listing_err_extends(all, i + 1);
            }
            return Err(XcError::Undone(kind, val, more));
        }
        i = i + 1;
    }
    proof {
        assert(all.take(i as int) =~= all);
    }
    Ok(obj)
}

/// The CBOR encoding that `serde_cbor::to_vec` makes of the boxes of a
/// listing, held as maps ordered by name.
pub uninterp spec fn cbor_of_boxes(boxes: BoxesView) -> Seq<u8>;

/// The CBOR encoding of the boxes `b`, each a map, in a map.
///
/// Puts the boxes and their settings into `BTreeMap`s and calls
/// `serde_cbor::to_vec` on them; the contract names what it makes and claims
/// that it succeeds: writing into a byte vector fails only on integers that
/// CBOR cannot hold, and the maps hold only strings.
#[verifier::external_body]
fn boxes_to_cbor<'a>(b: &Boxes<'a>) -> (r: Result<Vec<u8>, String>)
    requires
        boxes_wf(*b),
    ensures
        match r {
            Ok(v) => v@ == cbor_of_boxes(boxes_view(*b)),
            Err(_) => false,
        },
{
    let mut map = std::collections::BTreeMap::new();
    for (name, settings) in b.entries() {
        let inner: std::collections::BTreeMap<&str, &str> = settings.entries().iter().map(|s| (s.0.as_str(), s.1)).collect();
        map.insert(name.as_str(), inner);
    }
    match serde_cbor::to_vec(&map) {
        Ok(b) => Ok(b),
        Err(e) => Err(format!("{:?}", e)),
    }
}

/// The boxes of a machine-readable listing, each with its settings, written
/// as CBOR.
pub fn parse_compile<'a>(input: &'a str) -> (r: Result<Vec<u8>, XcError<'a>>)
    ensures
        match listing(lines(input@)) {
            Err(fail) => r matches Err(e) && (e is NoBox || e is Undone) && listing_failure_of(e)
                == fail,
            Ok(st) => r matches Ok(v) && v@ == cbor_of_boxes(st.0),
        },
{
    match parse_boxes(input) {
        Err(e) => Err(e),
        Ok(b) => lift(boxes_to_cbor(&b)),
    }
}

} // verus!
