use vstd::prelude::*;
use vstd::string::StringSliceAdditionalSpecFns;

use super::Slicy;
use crate::parse::either::Disj;

verus! {

/// A half-open range `[.0, .1)` of positions in a source.
#[derive(Debug)]
pub struct Span(pub usize, pub usize);

/// Something that covers a span of its source.
pub trait Spanned {
    /// The span that `span` returns, as a pair of integers.
    spec fn spec_span(&self) -> (int, int);

    /// `span` can compute its result without overflow or underflow.
    spec fn span_ok(&self) -> bool;

    fn span(&self) -> (r: Span)
        requires
            self.span_ok(),
        ensures
            r.0 == self.spec_span().0,
            r.1 == self.spec_span().1,
    ;
}

impl<'s, S: Spanned + ?Sized> Spanned for &'s S {
    open spec fn spec_span(&self) -> (int, int) {
        (**self).spec_span()
    }

    open spec fn span_ok(&self) -> bool {
        (**self).span_ok()
    }

    fn span(&self) -> (r: Span) {
        S::span(*self)
    }
}

impl<T> Spanned for [T] {
    open spec fn spec_span(&self) -> (int, int) {
        (0, self@.len() as int)
    }

    open spec fn span_ok(&self) -> bool {
        true
    }

    fn span(&self) -> (r: Span) {
        Span(0, self.len())
    }
}

impl Spanned for str {
    open spec fn spec_span(&self) -> (int, int) {
        (0, self.spec_bytes().len() as int)
    }

    open spec fn span_ok(&self) -> bool {
        self.spec_bytes().len() <= usize::MAX
    }

    fn span(&self) -> (r: Span) {
        Span(0, self.len())
    }
}

impl<A: Spanned> Spanned for (A,) {
    open spec fn spec_span(&self) -> (int, int) {
        self.0.spec_span()
    }

    open spec fn span_ok(&self) -> bool {
        self.0.span_ok()
    }

    fn span(&self) -> (r: Span) {
        let (a,) = self;
        a.span()
    }
}

/// The span of a pair: from the start of the first to the end of the second,
/// the second placed after the end of the first.
impl<A: Spanned, B: Spanned> Spanned for (A, B) {
    open spec fn spec_span(&self) -> (int, int) {
        (self.0.spec_span().0, self.1.spec_span().1 + self.0.spec_span().1)
    }

    open spec fn span_ok(&self) -> bool {
        &&& self.0.span_ok()
        &&& self.1.span_ok()
        &&& 0 <= self.1.spec_span().0 + self.0.spec_span().1 <= usize::MAX
        &&& 0 <= self.1.spec_span().1 + self.0.spec_span().1 <= usize::MAX
    }

    fn span(&self) -> (r: Span) {
        let (a, b) = self;
        let a = a.span();
        let b = b.span().place_after(&a);
        Span(a.0, b.1)
    }
}

/// The sum of the lengths of the spans of the items of `s`.
pub open spec fn lens_sum<T: Spanned>(s: Seq<T>) -> int
    decreases s.len(),
{
    if s.len() == 0 {
        0
    } else {
        lens_sum(s.drop_last()) + (s.last().spec_span().1 - s.last().spec_span().0)
    }
}

/// Every item of `s` has a computable span that does not end before it starts.
pub open spec fn all_spans_ok<T: Spanned>(s: Seq<T>) -> bool {
    forall|i: int|
        0 <= i < s.len() ==> #[trigger] s[i].span_ok() && s[i].spec_span().0 <= s[i].spec_span().1
}

/// The lengths of well-formed spans add up to a length.
pub proof fn lemma_lens_sum_nonneg<T: Spanned>(s: Seq<T>)
    requires
        all_spans_ok(s),
    ensures
        0 <= lens_sum(s),
    decreases s.len(),
{
    if s.len() > 0 {
        let d = s.drop_last();
        assert(all_spans_ok(d)) by {
            assert forall|i: int| 0 <= i < d.len() implies #[trigger] d[i].span_ok()
                && d[i].spec_span().0 <= d[i].spec_span().1 by {
                assert(d[i] == s[i]);
            }
        }
        lemma_lens_sum_nonneg(d);
        assert(s[s.len() - 1].span_ok());
    }
}

proof fn lemma_lens_sum_mono<T: Spanned>(s: Seq<T>, k: int)
    requires
        0 <= k <= s.len(),
        all_spans_ok(s),
    ensures
        0 <= lens_sum(s.take(k)) <= lens_sum(s),
    decreases s.len(),
{
    if k == s.len() {
        assert(s.take(k) =~= s);
        lemma_lens_sum_nonneg(s);
    } else {
        let d = s.drop_last();
        assert(all_spans_ok(d)) by {
            assert forall|i: int| 0 <= i < d.len() implies #[trigger] d[i].span_ok()
                && d[i].spec_span().0 <= d[i].spec_span().1 by {
                assert(d[i] == s[i]);
            }
        }
        lemma_lens_sum_mono(d, k);
        assert(d.take(k) =~= s.take(k));
        assert(s[s.len() - 1].span_ok());
    }
}

/// The span of a sequence of spanned items: from 0, as long as the sum of
/// their lengths.
impl<T: Spanned> Spanned for Vec<T> {
    open spec fn spec_span(&self) -> (int, int) {
        (0, lens_sum(self@))
    }

    open spec fn span_ok(&self) -> bool {
        &&& all_spans_ok(self@)
        &&& lens_sum(self@) <= usize::MAX
    }

    fn span(&self) -> (r: Span) {
        let mut s = Span(0, 0);
        let n = self.len();
        let mut i: usize = 0;
        while i < n
            invariant
                n == self@.len(),
                0 <= i <= n,
                all_spans_ok(self@),
                lens_sum(self@) <= usize::MAX,
                s.0 == 0,
                s.1 == lens_sum(self@.take(i as int)),
            decreases n - i,
        {
            proof {
                lemma_lens_sum_mono(self@, i + 1);
                assert(self@.take(i + 1).drop_last() =~= self@.take(i as int));
                assert(self@[i as int].span_ok());
            }
            s = s.extend_by(&self[i]);
            i = i + 1;
        }
        proof {
            assert(self@.take(n as int) =~= self@);
        }
        s
    }
}

/// The span of a result: that of what it holds, either way.
impl<A: Spanned, B: Spanned> Spanned for Result<A, B> {
    open spec fn spec_span(&self) -> (int, int) {
        match self {
            Ok(a) => a.spec_span(),
            Err(b) => b.spec_span(),
        }
    }

    open spec fn span_ok(&self) -> bool {
        match self {
            Ok(a) => a.span_ok(),
            Err(b) => b.span_ok(),
        }
    }

    fn span(&self) -> (r: Span) {
        match self {
            Ok(a) => a.span(),
            Err(b) => b.span(),
        }
    }
}

impl<A: Spanned, B: Spanned> Spanned for Disj<A, B> {
    open spec fn spec_span(&self) -> (int, int) {
        match self {
            Disj::A(a) => a.spec_span(),
            Disj::B(b) => b.spec_span(),
        }
    }

    open spec fn span_ok(&self) -> bool {
        match self {
            Disj::A(a) => a.span_ok(),
            Disj::B(b) => b.span_ok(),
        }
    }

    fn span(&self) -> (r: Span) {
        match self {
            Disj::A(a) => a.span(),
            Disj::B(b) => b.span(),
        }
    }
}

impl Span {
    /// The part of `s` that this span covers.
    pub fn scope<'s, S: Slicy + ?Sized>(&self, s: &'s S) -> (r: &'s S)
        requires
            s.slicy_wf(),
            s.cut_ok(self.0 as int, self.1 as int),
        ensures
            r.slicy_wf(),
            r.items() == s.items().subrange(self.0 as int, self.1 as int),
            r.span_ok(),
            r.spec_span() == (0int, self.1 - self.0),
            s.divisible() ==> r.divisible(),
    {
        let (start, end) = (self.0, self.1);
        s.subslice(start, end)
    }

    /// The part of `s` that follows the end of this span.
    pub fn descope<'s, S: Slicy + ?Sized>(&self, s: &'s S) -> (r: &'s S)
        requires
            s.slicy_wf(),
            s.cut_ok(self.1 as int, s.items().len() as int),
        ensures
            r.slicy_wf(),
            r.items() == s.items().skip(self.1 as int),
            s.divisible() ==> r.divisible(),
    {
        let end = self.1;
        s.subopen(end)
    }

    /// This span shifted right by the end of `other`.
    pub fn place_after(&self, other: &Self) -> (r: Self)
        requires
            self.0 + other.1 <= usize::MAX,
            self.1 + other.1 <= usize::MAX,
        ensures
            r.0 == self.0 + other.1,
            r.1 == self.1 + other.1,
            r.1 - r.0 == self.1 - self.0,
    {
        let d = other.1;
        let shift = |a: usize, b: usize| -> (r: Span)
            requires
                a + d <= usize::MAX,
                b + d <= usize::MAX,
            ensures
                r.0 == a + d,
                r.1 == b + d,
        {
            Span(a + d, b + d)
        };
        self.fold(shift)
    }

    /// This span with its end moved right by the length of `other`'s span.
    pub fn extend_by<N: Spanned>(&self, other: N) -> (r: Self)
        requires
            other.span_ok(),
            other.spec_span().0 <= other.spec_span().1,
            self.1 + (other.spec_span().1 - other.spec_span().0) <= usize::MAX,
        ensures
            r.0 == self.0,
            r.1 == self.1 + (other.spec_span().1 - other.spec_span().0),
    {
        let ghost len = other.spec_span().1 - other.spec_span().0;
        let grow = move |a: usize, b: usize| -> (r: Span)
            requires
                other.span_ok(),
                other.spec_span().0 <= other.spec_span().1,
                b + len <= usize::MAX,
                len == other.spec_span().1 - other.spec_span().0,
            ensures
                r.0 == a,
                r.1 == b + len,
        {
            Span(a, b + other.span().len())
        };
        self.fold(grow)
    }

    /// `Some(self)` when the span is not empty.
    pub fn non_empty(&self) -> (r: Option<&Self>)
        requires
            self.0 <= self.1,
        ensures
            match r {
                Some(s) => s == self && self.0 < self.1,
                None => self.0 == self.1,
            },
    {
        let not_empty = |s: &Span| -> (r: bool)
            requires
                s.0 <= s.1,
            ensures
                r == (s.0 < s.1),
        {
            s.len() > 0
        };
        self.filter(not_empty)
    }

    /// The number of positions the span covers.
    pub fn len(&self) -> (r: usize)
        requires
            self.0 <= self.1,
        ensures
            r == self.1 - self.0,
    {
        let width = |a: usize, b: usize| -> (r: usize)
            requires
                a <= b,
            ensures
                r == b - a,
        {
            b - a
        };
        self.fold(width)
    }

    /// `Some(self)` when `pred` holds of the span, else `None`.
    pub fn filter<P>(&self, pred: P) -> (r: Option<&Self>) where P: FnOnce(&Self) -> bool
        requires
            pred.requires((self,)),
        ensures
            match r {
                Some(s) => s == self && pred.ensures((self,), true),
                None => pred.ensures((self,), false),
            },
    {
        if pred(self) {
            Some(self)
        } else {
            None
        }
    }

    /// `f` applied to the start and the end of the span.
    pub fn fold<F, Z>(&self, f: F) -> (z: Z) where F: FnOnce(usize, usize) -> Z
        requires
            f.requires((self.0, self.1)),
        ensures
            f.ensures((self.0, self.1), z),
    {
        let (a, b) = (self.0, self.1);
        f(a, b)
    }
}


/// What a span covers, followed by what follows its end, is the whole
/// source, for a span that starts at the source's start.
pub proof fn law_scope_descope<T>(items: Seq<T>, s: Span)
    requires
        s.0 == 0,
        s.1 <= items.len(),
    ensures
        items.subrange(s.0 as int, s.1 as int) + items.skip(s.1 as int) == items,
{
    assert(items.subrange(s.0 as int, s.1 as int) + items.skip(s.1 as int) =~= items);
}

} // verus!
