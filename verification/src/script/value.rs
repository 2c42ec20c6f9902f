use vstd::prelude::*;

verus! {

/// A value computed by a script.
#[derive(Debug)]
pub enum Value {
    /// Nothing yet.
    Empty,
    /// A text.
    Str(String),
    /// A list of values.
    List(Vec<Value>),
    /// Raw bytes.
    Bytes(Vec<u8>),
}

/// What the contracts say of a value.
pub enum ValueView {
    Empty,
    Str(Seq<char>),
    List(Seq<ValueView>),
    Bytes(Seq<u8>),
}

/// The view of a value.
pub open spec fn value_view(v: Value) -> ValueView
    decreases v, 1int,
{
    match v {
        Value::Empty => ValueView::Empty,
        Value::Str(s) => ValueView::Str(s@),
        Value::List(l) => ValueView::List(values_view(l@)),
        Value::Bytes(b) => ValueView::Bytes(b@),
    }
}

/// The views of a sequence of values.
pub open spec fn values_view(s: Seq<Value>) -> Seq<ValueView>
    decreases s, 0int,
{
    if s.len() == 0 {
        seq![]
    } else {
        seq![value_view(s[0])] + values_view(s.drop_first())
    }
}

impl View for Value {
    type V = ValueView;

    open spec fn view(&self) -> ValueView {
        value_view(*self)
    }
}

} // verus!

verus! {

/// The JSON text of a value, as `Strval::as_json` writes it: nothing for
/// `Empty`, a string literal, an array of the items, an array of the bytes.
pub open spec fn json_of(v: ValueView) -> Seq<char>
    decreases v, 1int,
{
    match v {
        ValueView::Empty => seq![],
        ValueView::Str(s) => super::json::json_string(s),
        ValueView::List(l) => seq!['['] + json_items(l) + seq![']'],
        ValueView::Bytes(b) => super::json::json_byte_array(b),
    }
}

/// The JSON texts of the items of `l`, separated by commas.
pub open spec fn json_items(l: Seq<ValueView>) -> Seq<char>
    decreases l, 0int,
{
    if l.len() == 0 {
        seq![]
    } else if l.len() == 1 {
        json_of(l[0])
    } else {
        json_items(l.drop_last()) + seq![','] + json_of(l.last())
    }
}

/// The JSON text that serde_json writes for a value without bytes:
/// `null` for `Empty`, a string literal, an array of the items.
pub open spec fn jval_json(v: ValueView) -> Seq<char>
    decreases v, 1int,
{
    match v {
        ValueView::Empty => seq!['n', 'u', 'l', 'l'],
        ValueView::Str(s) => super::json::json_string(s),
        ValueView::List(l) => seq!['['] + jval_items(l) + seq![']'],
        ValueView::Bytes(_) => seq![],
    }
}

/// The JSON texts of the items of `l`, separated by commas.
pub open spec fn jval_items(l: Seq<ValueView>) -> Seq<char>
    decreases l, 0int,
{
    if l.len() == 0 {
        seq![]
    } else if l.len() == 1 {
        jval_json(l[0])
    } else {
        jval_items(l.drop_last()) + seq![','] + jval_json(l.last())
    }
}

/// Whether `v` holds bytes, at any depth.
pub open spec fn has_bytes(v: ValueView) -> bool
    decreases v, 1int,
{
    match v {
        ValueView::Bytes(_) => true,
        ValueView::List(l) => any_has_bytes(l),
        _ => false,
    }
}

/// Whether an item of `l` holds bytes, at any depth.
pub open spec fn any_has_bytes(l: Seq<ValueView>) -> bool
    decreases l, 0int,
{
    if l.len() == 0 {
        false
    } else {
        has_bytes(l[0]) || any_has_bytes(l.drop_first())
    }
}

} // verus!

verus! {

/// The views of `s` with one more value.
pub proof fn lemma_values_view_push(s: Seq<Value>, v: Value)
    ensures
        values_view(s.push(v)) == values_view(s) + seq![v@],
    decreases s.len(),
{
    if s.len() == 0 {
        let t = s.push(v);
        assert(t.drop_first() =~= Seq::<Value>::empty());
        assert(t.len() == 1 && t[0] == v);
        assert(values_view(t.drop_first()) =~= Seq::<ValueView>::empty());
        assert(values_view(t) =~= seq![v@] + Seq::<ValueView>::empty());
        assert(values_view(s) =~= Seq::<ValueView>::empty());
    } else {
        lemma_values_view_push(s.drop_first(), v);
        assert(s.push(v).drop_first() =~= s.drop_first().push(v));
        assert(values_view(s.push(v)) =~= values_view(s) + seq![v@]);
    }
}

/// The view of the value at `i` is at `i` of the views.
pub proof fn lemma_values_view_index(l: Seq<Value>, i: int)
    requires
        0 <= i < l.len(),
    ensures
        values_view(l).len() == l.len(),
        values_view(l)[i] == l[i]@,
    decreases l.len(),
{
    if i > 0 {
        lemma_values_view_index(l.drop_first(), i - 1);
    }
    lemma_values_view_len(l);
}

/// There are as many views as values.
pub proof fn lemma_values_view_len(l: Seq<Value>)
    ensures
        values_view(l).len() == l.len(),
    decreases l.len(),
{
    if l.len() > 0 {
        lemma_values_view_len(l.drop_first());
    }
}

/// The views of a prefix are the prefix of the views.
pub proof fn lemma_values_view_take(l: Seq<Value>, i: int)
    requires
        0 <= i <= l.len(),
    ensures
        values_view(l.take(i)) == values_view(l).take(i),
{
    lemma_values_view_len(l);
    lemma_values_view_len(l.take(i));
    assert forall|j: int| 0 <= j < i implies values_view(l.take(i))[j] == values_view(l).take(i)[j] by {
        lemma_values_view_index(l.take(i), j);
        lemma_values_view_index(l, j);
    }
    assert(values_view(l.take(i)) =~= values_view(l).take(i));
}

/// The views without the first are the views of the values without the first.
pub proof fn lemma_values_view_drop_first(l: Seq<Value>)
    requires
        l.len() > 0,
    ensures
        values_view(l.drop_first()) == values_view(l).drop_first(),
{
    lemma_values_view_len(l);
    lemma_values_view_len(l.drop_first());
    assert(values_view(l) == seq![l[0]@] + values_view(l.drop_first()));
    assert(values_view(l.drop_first()) =~= values_view(l).drop_first());
}

/// A value as JSON knows it: no bytes.
#[derive(Debug)]
pub enum JVal {
    Null,
    Str(String),
    Arr(Vec<JVal>),
}

/// What the contracts say of a JSON value.
pub enum JValView {
    Null,
    Str(Seq<char>),
    Arr(Seq<JValView>),
}

/// What the contracts say of a JSON value.
pub open spec fn jval_view(j: JVal) -> JValView
    decreases j, 1int,
{
    match j {
        JVal::Null => JValView::Null,
        JVal::Str(s) => JValView::Str(s@),
        JVal::Arr(l) => JValView::Arr(jvals_view(l@)),
    }
}

/// What the contracts say of a sequence of JSON values.
pub open spec fn jvals_view(s: Seq<JVal>) -> Seq<JValView>
    decreases s, 0int,
{
    if s.len() == 0 {
        seq![]
    } else {
        seq![jval_view(s[0])] + jvals_view(s.drop_first())
    }
}

/// The JSON value of a value without bytes: `Empty` is null.
pub open spec fn jval_of(v: ValueView) -> JValView
    decreases v, 1int,
{
    match v {
        ValueView::Empty => JValView::Null,
        ValueView::Str(s) => JValView::Str(s),
        ValueView::List(l) => JValView::Arr(jvals_of(l)),
        ValueView::Bytes(_) => JValView::Null,
    }
}

/// The JSON values of a sequence of values without bytes.
pub open spec fn jvals_of(l: Seq<ValueView>) -> Seq<JValView>
    decreases l, 0int,
{
    if l.len() == 0 {
        seq![]
    } else {
        seq![jval_of(l[0])] + jvals_of(l.drop_first())
    }
}

/// The value of a JSON value: null is `Empty`.
pub open spec fn value_of_jval(j: JValView) -> ValueView
    decreases j, 1int,
{
    match j {
        JValView::Null => ValueView::Empty,
        JValView::Str(s) => ValueView::Str(s),
        JValView::Arr(l) => ValueView::List(values_of_jvals(l)),
    }
}

/// The values of a sequence of JSON values.
pub open spec fn values_of_jvals(l: Seq<JValView>) -> Seq<ValueView>
    decreases l, 0int,
{
    if l.len() == 0 {
        seq![]
    } else {
        seq![value_of_jval(l[0])] + values_of_jvals(l.drop_first())
    }
}

/// A value made of a string: the string as it is.
pub fn parse_value(s: String) -> (r: Value)
    ensures
        r@ == ValueView::Str(s@),
{
    Value::Str(s)
}

/// The views of `s` with one more item: `jvals_view` keeps order.
proof fn lemma_jvals_view_push(s: Seq<JVal>, j: JVal)
    ensures
        jvals_view(s.push(j)) == jvals_view(s).push(jval_view(j)),
    decreases s.len(),
{
    if s.len() == 0 {
        let t = s.push(j);
        assert(t.drop_first() =~= Seq::<JVal>::empty());
        assert(jvals_view(t.drop_first()) =~= Seq::<JValView>::empty());
        assert(jvals_view(t) =~= seq![jval_view(j)] + Seq::<JValView>::empty());
        assert(jvals_view(s) =~= Seq::<JValView>::empty());
        assert(jvals_view(s).push(jval_view(j)) =~= seq![jval_view(j)]);
    } else {
        lemma_jvals_view_push(s.drop_first(), j);
        assert(s.push(j).drop_first() =~= s.drop_first().push(j));
        assert(jvals_view(s.push(j)) =~= jvals_view(s).push(jval_view(j)));
    }
}

/// `jvals_of` of a sequence with one more item.
proof fn lemma_jvals_of_push(l: Seq<ValueView>, v: ValueView)
    ensures
        jvals_of(l.push(v)) == jvals_of(l).push(jval_of(v)),
    decreases l.len(),
{
    if l.len() == 0 {
        let t = l.push(v);
        assert(t.drop_first() =~= Seq::<ValueView>::empty());
        assert(jvals_of(t.drop_first()) =~= Seq::<JValView>::empty());
        assert(jvals_of(t) =~= seq![jval_of(v)] + Seq::<JValView>::empty());
        assert(jvals_of(l) =~= Seq::<JValView>::empty());
        assert(jvals_of(l).push(jval_of(v)) =~= seq![jval_of(v)]);
    } else {
        lemma_jvals_of_push(l.drop_first(), v);
        assert(l.push(v).drop_first() =~= l.drop_first().push(v));
        assert(jvals_of(l.push(v)) =~= jvals_of(l).push(jval_of(v)));
    }
}

/// `values_of_jvals` of a sequence with one more item.
proof fn lemma_values_of_jvals_push(l: Seq<JValView>, j: JValView)
    ensures
        values_of_jvals(l.push(j)) == values_of_jvals(l).push(value_of_jval(j)),
    decreases l.len(),
{
    if l.len() == 0 {
        let t = l.push(j);
        assert(t.drop_first() =~= Seq::<JValView>::empty());
        assert(values_of_jvals(t.drop_first()) =~= Seq::<ValueView>::empty());
        assert(values_of_jvals(t) =~= seq![value_of_jval(j)] + Seq::<ValueView>::empty());
        assert(values_of_jvals(l) =~= Seq::<ValueView>::empty());
        assert(values_of_jvals(l).push(value_of_jval(j)) =~= seq![value_of_jval(j)]);
    } else {
        lemma_values_of_jvals_push(l.drop_first(), j);
        assert(l.push(j).drop_first() =~= l.drop_first().push(j));
        assert(values_of_jvals(l.push(j)) =~= values_of_jvals(l).push(value_of_jval(j)));
    }
}

/// The JSON value of `v`, which holds no bytes.
pub fn jval_from_value(v: Value) -> (r: JVal)
    requires
        !has_bytes(v@),
    ensures
        jval_view(r) == jval_of(v@),
    decreases v,
{
    match v {
        Value::Empty => JVal::Null,
        Value::Str(s) => JVal::Str(s),
        Value::List(l) => {
            let ghost all = l@;
            let ghost vs = values_view(all);
            proof {
                lemma_values_view_len(all);
            }
            let _n = l.len();
            let mut rest = l;
            let mut out: Vec<JVal> = Vec::new();
            let mut k: usize = 0;
            proof {
                assert(vs.take(0) =~= Seq::<ValueView>::empty());
                assert(all.skip(0) =~= all);
            }
            while rest.len() > 0
                invariant
                    0 <= k <= all.len(),
                    all.len() <= usize::MAX,
                    rest@ == all.skip(k as int),
                    vs == values_view(all),
                    vs.len() == all.len(),
                    !any_has_bytes(vs),
                    jvals_view(out@) == jvals_of(vs.take(k as int)),
                    decreases_to!(v => all),
                decreases rest@.len(),
            {
                let ghost before = out@;
                let x = rest.remove(0);
                proof {
                    assert(x == all[k as int]);
                    assert(decreases_to!(all => all[k as int]));
                    lemma_values_view_index(all, k as int);
                    lemma_no_bytes_at(vs, k as int);
                }
                let j = jval_from_value(x);
                out.push(j);
                proof {
                    lemma_jvals_view_push(before, j);
                    lemma_jvals_of_push(vs.take(k as int), vs[k as int]);
                    assert(vs.take(k as int).push(vs[k as int]) =~= vs.take(k + 1));
                    assert(rest@ =~= all.skip(k + 1));
                }
                k = k + 1;
            }
            proof {
                assert(k == all.len());
                assert(vs.take(k as int) =~= vs);
            }
            JVal::Arr(out)
        },
        Value::Bytes(_) => JVal::Null,
    }
}

/// An item of a list without bytes holds none.
pub proof fn lemma_no_bytes_at(l: Seq<ValueView>, i: int)
    requires
        0 <= i < l.len(),
        !any_has_bytes(l),
    ensures
        !has_bytes(l[i]),
    decreases l.len(),
{
    if i > 0 {
        assert(l.drop_first()[i - 1] == l[i]);
        lemma_no_bytes_at(l.drop_first(), i - 1);
    }
}

/// The value of the JSON value `j`.
pub fn value_from_jval(j: JVal) -> (r: Value)
    ensures
        r@ == value_of_jval(jval_view(j)),
    decreases j,
{
    match j {
        JVal::Null => Value::Empty,
        JVal::Str(s) => Value::Str(s),
        JVal::Arr(l) => {
            let ghost all = l@;
            let ghost js = jvals_view(all);
            proof {
                lemma_jvals_view_len(all);
            }
            let _n = l.len();
            let mut rest = l;
            let mut out: Vec<Value> = Vec::new();
            let mut k: usize = 0;
            proof {
                assert(js.take(0) =~= Seq::<JValView>::empty());
                assert(all.skip(0) =~= all);
            }
            while rest.len() > 0
                invariant
                    0 <= k <= all.len(),
                    all.len() <= usize::MAX,
                    rest@ == all.skip(k as int),
                    js == jvals_view(all),
                    js.len() == all.len(),
                    values_view(out@) == values_of_jvals(js.take(k as int)),
                    decreases_to!(j => all),
                decreases rest@.len(),
            {
                let ghost before = out@;
                let x = rest.remove(0);
                proof {
                    assert(x == all[k as int]);
                    assert(decreases_to!(all => all[k as int]));
                    lemma_jvals_view_index(all, k as int);
                }
                let v = value_from_jval(x);
                out.push(v);
                proof {
                    lemma_values_view_push(before, v);
                    lemma_values_of_jvals_push(js.take(k as int), js[k as int]);
                    assert(js.take(k as int).push(js[k as int]) =~= js.take(k + 1));
                    assert(rest@ =~= all.skip(k + 1));
                }
                k = k + 1;
            }
            proof {
                assert(k == all.len());
                assert(js.take(k as int) =~= js);
            }
            Value::List(out)
        },
    }
}

proof fn lemma_jvals_view_len(s: Seq<JVal>)
    ensures
        jvals_view(s).len() == s.len(),
    decreases s.len(),
{
    if s.len() > 0 {
        lemma_jvals_view_len(s.drop_first());
    }
}

proof fn lemma_jvals_view_index(s: Seq<JVal>, i: int)
    requires
        0 <= i < s.len(),
    ensures
        jvals_view(s)[i] == jval_view(s[i]),
    decreases s.len(),
{
    lemma_jvals_view_len(s);
    lemma_jvals_view_len(s.drop_first());
    assert(jvals_view(s) == seq![jval_view(s[0])] + jvals_view(s.drop_first()));
    if i > 0 {
        lemma_jvals_view_index(s.drop_first(), i - 1);
        assert(s.drop_first()[i - 1] == s[i]);
    }
}

/// A value without bytes comes back unchanged from its JSON value.
pub proof fn lemma_jval_round_trip(v: ValueView)
    requires
        !has_bytes(v),
    ensures
        value_of_jval(jval_of(v)) == v,
    decreases v, 1int,
{
    match v {
        ValueView::List(l) => {
            lemma_jvals_round_trip(l);
        },
        _ => {},
    }
}

/// The items of a list without bytes come back unchanged.
pub proof fn lemma_jvals_round_trip(l: Seq<ValueView>)
    requires
        !any_has_bytes(l),
    ensures
        values_of_jvals(jvals_of(l)) == l,
    decreases l, 0int,
{
    if l.len() > 0 {
        lemma_jval_round_trip(l[0]);
        lemma_jvals_round_trip(l.drop_first());
        assert(jvals_of(l).drop_first() =~= jvals_of(l.drop_first()));
        assert(values_of_jvals(jvals_of(l)) =~= seq![l[0]] + l.drop_first());
        assert(l =~= seq![l[0]] + l.drop_first());
    } else {
        assert(l =~= Seq::<ValueView>::empty());
    }
}

} // verus!
