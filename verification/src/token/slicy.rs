use vstd::prelude::*;
use vstd::string::{
    StrSliceExecFns,
    StringSliceAdditionalSpecFns,
};
use vstd::utf8::{
    encode_scalar,
    encode_utf8,
    encode_utf8_decode_utf8,
    encode_utf8_valid_utf8,
    is_ascii_chars,
    is_ascii_chars_encode_utf8,
    is_char_boundary,
    is_char_boundary_iff_not_is_continuation_byte,
    is_char_boundary_start_end_of_seq,
};

use crate::text::str_chars;
use super::{
    lemma_run_from,
    run_len,
    Prop,
    Spanned,
};

verus! {

/// A source that can be cut into pieces and scanned item by item.
///
/// Every source's span starts at 0; a source that can be cut anywhere spans
/// exactly its items (a `str` spans its bytes).
pub trait Slicy: Spanned {
    type Item;

    /// The items of the source, in order.
    spec fn items(&self) -> Seq<Self::Item>;

    /// The number of items fits `usize`.
    spec fn slicy_wf(&self) -> bool;

    /// The source can be cut to the items from `s` to `e` (for `str`: the
    /// items before `e` are ASCII, so that item positions up to `e` are byte
    /// positions).
    spec fn cut_ok(&self, s: int, e: int) -> bool;

    /// The source can be cut at any two positions in order.
    spec fn divisible(&self) -> bool;

    /// The source can be cut from any of its items to its end.
    spec fn tails_ok(&self) -> bool;

    proof fn lemma_slicy(&self)
        requires
            self.slicy_wf(),
        ensures
            self.divisible() ==> self.span_ok(),
            self.spec_span().0 == 0,
            self.divisible() ==> self.spec_span().1 == self.items().len(),
            self.items().len() <= usize::MAX,
            forall|s: int, e: int| #[trigger]
                self.cut_ok(s, e) ==> 0 <= s <= e <= self.items().len(),
            self.divisible() ==> (forall|s: int, e: int|
                0 <= s <= e <= self.items().len() ==> #[trigger] self.cut_ok(s, e)),
            self.divisible() ==> self.tails_ok(),
            self.tails_ok() ==> (forall|s: int|
                0 <= s < self.items().len() ==> #[trigger] self.cut_ok(s, self.items().len() as int)),
    ;

    fn len(&self) -> (r: usize)
        requires
            self.slicy_wf(),
        ensures
            r == self.items().len(),
    ;

    fn subslice(&self, s: usize, e: usize) -> (r: &Self)
        requires
            self.slicy_wf(),
            self.cut_ok(s as int, e as int),
        ensures
            r.slicy_wf(),
            r.items() == self.items().subrange(s as int, e as int),
            r.span_ok(),
            r.spec_span() == (0int, e - s),
            self.divisible() ==> r.divisible(),
    ;

    fn subopen(&self, s: usize) -> (r: &Self)
        requires
            self.slicy_wf(),
            self.cut_ok(s as int, self.items().len() as int),
        ensures
            r.slicy_wf(),
            r.items() == self.items().skip(s as int),
            self.divisible() ==> r.divisible(),
    {
        proof {
            self.lemma_slicy();
        }
        let e = self.len();
        let r = self.subslice(s, e);
        assert(self.items().subrange(s as int, e as int) =~= self.items().skip(s as int));
        r
    }

    /// The number of leading items of which `prop` holds, each at its index.
    fn count_range_of<P: Prop<Self::Item>>(&self, prop: &P) -> (r: usize)
        requires
            self.slicy_wf(),
            prop.prop_wf(),
        ensures
            r == run_len(prop, self.items()),
    ;

    /// Whether the source has a first item and `prop` holds of it.
    fn peek<P>(&self, prop: P) -> (r: bool) where P: Fn(&Self::Item) -> bool
        requires
            self.slicy_wf(),
            self.items().len() > 0 ==> prop.requires((&self.items()[0],)),
        ensures
            r ==> self.items().len() > 0 && prop.ensures((&self.items()[0],), true),
            !r ==> self.items().len() == 0 || prop.ensures((&self.items()[0],), false),
    ;
}

impl<T> Slicy for [T] {
    type Item = T;

    open spec fn items(&self) -> Seq<T> {
        self@
    }

    open spec fn slicy_wf(&self) -> bool {
        self@.len() <= usize::MAX
    }

    open spec fn cut_ok(&self, s: int, e: int) -> bool {
        0 <= s <= e <= self@.len()
    }

    open spec fn divisible(&self) -> bool {
        true
    }

    open spec fn tails_ok(&self) -> bool {
        true
    }

    proof fn lemma_slicy(&self) {
        assert(self.tails_ok());
    }

    fn len(&self) -> (r: usize) {
        <[T]>::len(self)
    }

    fn subslice(&self, s: usize, e: usize) -> (r: &Self) {
        &self[s..e]
    }

    fn count_range_of<P: Prop<T>>(&self, prop: &P) -> (r: usize) {
        let n = <[T]>::len(self);
        let mut i: usize = 0;
        proof {
            lemma_run_from(prop, self@, 0);
        }
        while i < n && prop.check(i, &self[i])
            invariant
                n == self@.len(),
                0 <= i <= n,
                prop.prop_wf(),
                run_len(prop, self@) == super::run_from(prop, self@, i as int),
            decreases n - i,
        {
            i = i + 1;
        }
        i
    }

    fn peek<P>(&self, prop: P) -> (r: bool) where P: Fn(&T) -> bool {
        if <[T]>::len(self) == 0 {
            false
        } else {
            prop(&self[0])
        }
    }
}

proof fn lemma_ascii_bytes(s: &str)
    requires
        vstd::string::is_ascii(s),
    ensures
        s.spec_bytes().len() == s@.len(),
        forall|i: int| 0 <= i < s@.len() ==> (#[trigger] s.spec_bytes()[i]) as char == s@[i],
{
    broadcast use vstd::string::is_ascii_spec_bytes;

    assert(s.spec_bytes() =~= Seq::new(s@.len(), |i| s@.index(i) as u8));
    assert forall|i: int| 0 <= i < s@.len() implies (#[trigger] s.spec_bytes()[i]) as char == s@[i] by {
        let c = s@[i];
        assert('\0' <= c <= '\u{7f}');
        assert(s.spec_bytes()[i] == c as u8);
    }
}

/// The encoding of two character sequences one after the other is the
/// encoding of the first followed by that of the second.
proof fn lemma_encode_concat(a: Seq<char>, b: Seq<char>)
    ensures
        encode_utf8(a + b) == encode_utf8(a) + encode_utf8(b),
    decreases a.len(),
{
    if a.len() == 0 {
        assert(a + b =~= b);
        assert(encode_utf8(a) + encode_utf8(b) =~= encode_utf8(b));
    } else {
        lemma_encode_concat(a.drop_first(), b);
        assert((a + b).drop_first() =~= a.drop_first() + b);
        assert(encode_utf8(a) + encode_utf8(b) =~= encode_scalar(a[0] as u32) + (encode_utf8(
            a.drop_first(),
        ) + encode_utf8(b)));
    }
}

/// Where the first `e` characters are ASCII, byte `e` starts a character and
/// the bytes before it encode those characters.
proof fn lemma_ascii_prefix(s: Seq<char>, e: int)
    requires
        0 <= e <= s.len(),
        is_ascii_chars(s.take(e)),
    ensures
        encode_utf8(s.take(e)).len() == e,
        encode_utf8(s).subrange(0, e) == encode_utf8(s.take(e)),
        is_char_boundary(encode_utf8(s), e),
{
    lemma_encode_concat(s.take(e), s.skip(e));
    assert(s.take(e) + s.skip(e) =~= s);
    is_ascii_chars_encode_utf8(s.take(e));
    let bytes = encode_utf8(s);
    let pre = encode_utf8(s.take(e));
    let post = encode_utf8(s.skip(e));
    assert(bytes.subrange(0, e) =~= pre);
    encode_utf8_valid_utf8(s);
    if e == bytes.len() {
        is_char_boundary_start_end_of_seq(bytes);
    } else {
        encode_utf8_valid_utf8(s.skip(e));
        is_char_boundary_start_end_of_seq(post);
        is_char_boundary_iff_not_is_continuation_byte(post, 0);
        is_char_boundary_iff_not_is_continuation_byte(bytes, e);
        assert(bytes[e] == post[0]);
    }
}

impl Slicy for str {
    type Item = char;

    open spec fn items(&self) -> Seq<char> {
        self@
    }

    open spec fn slicy_wf(&self) -> bool {
        self@.len() <= usize::MAX
    }

    open spec fn cut_ok(&self, s: int, e: int) -> bool {
        &&& 0 <= s <= e <= self@.len()
        &&& is_ascii_chars(self@.take(e))
    }

    open spec fn divisible(&self) -> bool {
        vstd::string::is_ascii(self)
    }

    open spec fn tails_ok(&self) -> bool {
        vstd::string::is_ascii(self)
    }

    proof fn lemma_slicy(&self) {
        assert(self.divisible() == self.tails_ok());
        if vstd::string::is_ascii(self) {
            lemma_ascii_bytes(self);
            assert forall|s: int, e: int| 0 <= s <= e <= self@.len() implies #[trigger] self.cut_ok(
                s,
                e,
            ) by {
                assert forall|i: int| 0 <= i < self@.take(e).len() implies '\0' <= #[trigger] self@.take(
                    e,
                )[i] <= '\u{7f}' by {
                    assert(self@.take(e)[i] == self@[i]);
                }
            }
            assert forall|s: int| 0 <= s < self.items().len() implies #[trigger] self.cut_ok(
                s,
                self.items().len() as int,
            ) by {
                assert(self.cut_ok(s, self@.len() as int));
            }
        }
    }

    fn len(&self) -> (r: usize) {
        self.unicode_len()
    }

    fn subslice(&self, s: usize, e: usize) -> (r: &Self) {
        proof {
            lemma_ascii_prefix(self@, e as int);
        }
        let (pre, _) = self.split_at(e);
        proof {
            encode_utf8_decode_utf8(pre@);
            encode_utf8_decode_utf8(self@.take(e as int));
            assert(pre@ == self@.take(e as int));
        }
        let r = pre.substring_ascii(s, e);
        proof {
            lemma_ascii_bytes(r);
            if vstd::string::is_ascii(self) {
                assert forall|i: int| 0 <= i < r@.len() implies '\0' <= #[trigger] r@[i] <= '\u{7f}' by {
                    assert(r@[i] == self@[s + i]);
                }
            }
        }
        r
    }

    fn count_range_of<P: Prop<char>>(&self, prop: &P) -> (r: usize) {
        let chars = str_chars(self);
        let n = chars.len();
        let mut i: usize = 0;
        proof {
            lemma_run_from(prop, self@, 0);
        }
        while i < n && prop.check(i, &chars[i])
            invariant
                n == self@.len(),
                chars@ == self@,
                0 <= i <= n,
                prop.prop_wf(),
                run_len(prop, self@) == super::run_from(prop, self@, i as int),
            decreases n - i,
        {
            i = i + 1;
        }
        i
    }

    fn peek<P>(&self, prop: P) -> (r: bool) where P: Fn(&char) -> bool {
        let chars = str_chars(self);
        if chars.len() == 0 {
            false
        } else {
            prop(&chars[0])
        }
    }
}

} // verus!
