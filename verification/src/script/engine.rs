use vstd::prelude::*;

use super::ast::Stmt;
use super::clear::{
    clearing,
    Clear,
};
use super::dict::Dict;
use super::json::{
    to_json_bytes,
    to_json_string,
};
use super::error::ScriptError;
use super::value::{
    any_has_bytes,
    has_bytes,
    jval_items,
    jval_json,
    lemma_values_view_index,
    lemma_values_view_len,
    lemma_values_view_take,
    json_items,
    json_of,
    values_view,
    Value,
    ValueView,
};
use crate::text::string_push;

verus! {

/// The processes of a pipeline whose last standard output is still to be read:
/// the runner holds them, the engine counts them.
#[derive(Debug)]
pub struct Pipeline {
    pub children: usize,
}

/// The state of a script's evaluation.
#[derive(Debug)]
pub struct Engine<'p, 'd> {
    /// The value of the last expression.
    pub r0: Value,
    pub variables: Dict<Value>,
    pub aliases: Dict<&'p Stmt<'d>>,
    /// The item of the innermost `ForEach`.
    pub each: Value,
    /// The pipeline that a streamed command started.
    pub h0_proc: Option<Pipeline>,
    pub park: Park,
}

impl<'p, 'd> Engine<'p, 'd> {
    /// No variable and no alias name occurs twice.
    pub open spec fn wf(&self) -> bool {
        self.variables.wf() && self.aliases.wf()
    }

    pub fn new() -> (r: Self)
        ensures
            r.wf(),
            r.r0@ == ValueView::Empty,
            r.each@ == ValueView::Empty,
            r.variables@ == Map::<Seq<char>, Value>::empty(),
            r.aliases@ == Map::<Seq<char>, &'p Stmt<'d>>::empty(),
            r.h0_proc is None,
    {
        Engine {
            r0: Value::Empty,
            variables: Dict::new(),
            aliases: Dict::new(),
            each: Value::Empty,
            h0_proc: None,
            park: Park { strings: Vec::new() },
        }
    }

    /// The engine with `r0` and `each` swapped.
    pub fn r0_load_each(self) -> (r: Self)
        ensures
            r.r0 == self.each,
            r.each == self.r0,
            r.variables == self.variables,
            r.aliases == self.aliases,
            r.h0_proc == self.h0_proc,
            r.wf() == self.wf(),
    {
        let mut s = self;
        std::mem::swap(&mut s.r0, &mut s.each);
        s
    }

    /// The engine with `r0` replaced by what `f` makes of it.
    pub fn set_r0<F>(self, f: F) -> (r: Self) where F: FnOnce(&mut Park, Value) -> Value
        requires
            forall|p: &mut Park, v: Value| f.requires((p, v)),
        ensures
            exists|p: &mut Park| f.ensures((p, self.r0), r.r0),
            r.each == self.each,
            r.variables == self.variables,
            r.aliases == self.aliases,
            r.h0_proc == self.h0_proc,
            r.wf() == self.wf(),
    {
        let mut s = self;
        let mut r0 = Value::Empty;
        std::mem::swap(&mut r0, &mut s.r0);
        s.r0 = f(&mut s.park, r0);
        s
    }

    /// The engine with the variable that `name` names set to what `f` makes of
    /// `r0`, and `r0` emptied. `name` builds the name in an emptied string.
    pub fn set_var<N, F>(self, name: N, f: F) -> (r: Self) where
        N: FnOnce(&mut Park, String) -> String,
        F: FnOnce(&mut Park, Value) -> Value,

        requires
            self.wf(),
            forall|p: &mut Park, s: String| name.requires((p, s)),
            forall|p: &mut Park, v: Value| f.requires((p, v)),
        ensures
            r.wf(),
            exists|n: String, v: Value, p: &mut Park, q: &mut Park, buf: String|
                {
                    &&& buf@.len() == 0
                    &&& #[trigger] name.ensures((p, buf), n)
                    &&& #[trigger] f.ensures((q, self.r0), v)
                    &&& r.variables@ == self.variables@.insert(n@, v)
                },
            r.r0@ == ValueView::Empty,
            r.each == self.each,
            r.aliases == self.aliases,
            r.h0_proc == self.h0_proc,
    {
        let Engine { r0, mut variables, aliases, each, h0_proc, mut park } = self;
        let buf = park.unpark_string();
        let ghost buf_g = buf;
        let name = name(&mut park, buf);
        let value = f(&mut park, r0);
        let ghost value_g = value;
        variables.insert(name.clone(), value);
        park.strings.push(name);
        Engine { r0: Value::Empty, variables, aliases, each, h0_proc, park }
    }
}

/// Strings kept for reuse.
#[derive(Debug)]
pub struct Park {
    strings: Vec<String>,
}

impl Park {
    /// The texts of the strings kept for reuse, the next one to be reused last.
    pub closed spec fn kept(&self) -> Seq<Seq<char>> {
        self.strings@.map_values(|s: String| s@)
    }

    /// Gives up `_value`.
    pub fn drain(&mut self, _value: Value)
        ensures
            *final(self) == *old(self),
    {
    }

    /// The last item of `source`, or a new one, emptied.
    pub fn unpark<R>(source: &mut Vec<R>) -> (r: R) where R: Clear + Default
        ensures
            r.is_clear(),
            final(source)@ == if old(source)@.len() > 0 {
                old(source)@.drop_last()
            } else {
                old(source)@
            },
    {
        let item = match source.pop() {
            Some(item) => item,
            None => R::default(),
        };
        clearing(item)
    }

    /// An empty string: the last one kept, emptied and no longer kept, or a
    /// new one when none is kept.
    pub fn unpark_string(&mut self) -> (r: String)
        ensures
            r@.len() == 0,
            final(self).kept() == if old(self).kept().len() > 0 {
                old(self).kept().drop_last()
            } else {
                old(self).kept()
            },
    {
        let ghost before = self.strings@;
        let r = Self::unpark(&mut self.strings);
        proof {
            if before.len() > 0 {
                assert(self.kept() =~= before.map_values(|s: String| s@).drop_last());
            }
        }
        r
    }
}

/// A buffer that values are written into, as command arguments or as JSON.
pub struct Strval(pub String);

impl Strval {
    /// The buffer with `val` appended as a command argument: a string as it
    /// is, a list as JSON; nothing for `Empty`; bytes are refused.
    pub fn as_argument(self, val: &Value) -> (r: Result<String, ScriptError<'static>>)
        ensures
            match val@ {
                ValueView::Empty => r matches Ok(t) && t@ == self.0@,
                ValueView::Str(s) => r matches Ok(t) && t@ == self.0@ + s,
                ValueView::List(_) => r matches Ok(t) && t@ == self.0@ + json_of(val@),
                ValueView::Bytes(_) => r matches Err(e) && e is NotAnArgument,
            },
    {
        let Self(buf) = self;
        match val {
            Value::Empty => Ok(buf),
            Value::Str(s) => {
                let mut buf = buf;
                buf.append(s.as_str());
                Ok(buf)
            },
            Value::List(_) => Strval(buf).as_json(val),
            Value::Bytes(_) => Err(ScriptError::NotAnArgument),
        }
    }

    /// The buffer with the JSON text of `val` appended.
    pub fn as_json(self, val: &Value) -> (r: Result<String, ScriptError<'static>>)
        ensures
            r matches Ok(t) && t@ == self.0@ + json_of(val@),
        decreases val,
    {
        let Self(buf) = self;
        let mut buf = buf;
        match val {
            Value::Empty => Ok(buf),
            Value::Str(s) => match to_json_string(s.as_str()) {
                Ok(t) => {
                    buf.append(t.as_str());
                    Ok(buf)
                },
                Err(e) => Err(ScriptError::Json(e)),
            },
            Value::List(l) => {
                let ghost start = buf@;
                string_push(&mut buf, '[');
                let mut i: usize = 0;
                while i < l.len()
                    invariant
                        0 <= i <= l@.len(),
                        *val == Value::List(*l),
                        buf@ == start + seq!['['] + json_items(values_view(l@.take(i as int))),
                    decreases l@.len() - i,
                {
                    let ghost before = buf@;
                    if i > 0 {
                        string_push(&mut buf, ',');
                    }
                    proof {
                        assert(decreases_to!(*val => (*val)->List_0));
                        assert((*val)->List_0 == *l);
                        assert(decreases_to!(*l => l@));
                        assert(decreases_to!(l@ => l@[i as int]));
                        assert(decreases_to!(*val => l@[i as int]));
                    }
                    buf = match Strval(buf).as_json(&l[i]) {
                        Ok(t) => t,
                        Err(e) => return Err(e),
                    };
                    proof {
                        lemma_values_view_take(l@, i + 1);
                        lemma_values_view_take(l@, i as int);
                        lemma_values_view_index(l@, i as int);
                        lemma_values_view_len(l@);
                        let vs = values_view(l@);
                        assert(vs.take(i + 1).drop_last() =~= vs.take(i as int));
                        assert(vs.take(i + 1).last() == l@[i as int]@);
                        if i == 0 {
                            assert(vs.take(0) =~= Seq::<ValueView>::empty());
                        }
                    }
                    i = i + 1;
                }
                string_push(&mut buf, ']');
                proof {
                    assert(l@.take(l@.len() as int) =~= l@);
                }
                Ok(buf)
            },
            Value::Bytes(bs) => match to_json_bytes(bs.as_slice()) {
                Ok(t) => {
                    buf.append(t.as_str());
                    Ok(buf)
                },
                Err(e) => Err(ScriptError::Json(e)),
            },
        }
    }
}

/// The JSON text that serde_json writes for `val`, which holds no bytes:
/// `null` for `Empty`, a string literal, an array of the items.
pub fn value_json(val: &Value) -> (r: String)
    requires
        !has_bytes(val@),
    ensures
        r@ == jval_json(val@),
    decreases val,
{
    match val {
        Value::Empty => {
            proof {
                reveal_strlit("null");
            }
            let r = "null".to_owned();
            assert(r@ =~= seq!['n', 'u', 'l', 'l']);
            r
        },
        Value::Str(s) => match to_json_string(s.as_str()) {
            Ok(t) => t,
            Err(_) => String::new(),
        },
        Value::List(l) => {
            let mut buf = String::new();
            string_push(&mut buf, '[');
            let mut i: usize = 0;
            proof {
                assert(values_view(l@) == (*val)@->List_0);
            }
            while i < l.len()
                invariant
                    0 <= i <= l@.len(),
                    *val == Value::List(*l),
                    !any_has_bytes(values_view(l@)),
                    buf@ == seq!['['] + jval_items(values_view(l@.take(i as int))),
                decreases l@.len() - i,
            {
                if i > 0 {
                    string_push(&mut buf, ',');
                }
                proof {
                    assert(decreases_to!(*val => (*val)->List_0));
                    assert(decreases_to!(*l => l@));
                    assert(decreases_to!(l@ => l@[i as int]));
                    lemma_values_view_index(l@, i as int);
                    lemma_no_bytes_item(values_view(l@), i as int);
                }
                let t = value_json(&l[i]);
                buf.append(t.as_str());
                proof {
                    lemma_values_view_take(l@, i + 1);
                    lemma_values_view_take(l@, i as int);
                    lemma_values_view_len(l@);
                    let vs = values_view(l@);
                    assert(vs.take(i + 1).drop_last() =~= vs.take(i as int));
                    assert(vs.take(i + 1).last() == l@[i as int]@);
                    if i == 0 {
                        assert(vs.take(0) =~= Seq::<ValueView>::empty());
                    }
                }
                i = i + 1;
            }
            string_push(&mut buf, ']');
            proof {
                assert(l@.take(l@.len() as int) =~= l@);
            }
            buf
        },
        Value::Bytes(_) => String::new(),
    }
}

/// No item of a list without bytes holds bytes.
proof fn lemma_no_bytes_item(l: Seq<ValueView>, i: int)
    requires
        0 <= i < l.len(),
        !any_has_bytes(l),
    ensures
        !has_bytes(l[i]),
    decreases l.len(),
{
    if i > 0 {
        assert(l.drop_first()[i - 1] == l[i]);
        lemma_no_bytes_item(l.drop_first(), i - 1);
    }
}

/// Whether `val` holds bytes, at any depth.
pub fn value_has_bytes(val: &Value) -> (r: bool)
    ensures
        r == has_bytes(val@),
    decreases val,
{
    match val {
        Value::Bytes(_) => true,
        Value::List(l) => {
            let mut i: usize = 0;
            proof {
                lemma_values_view_len(l@);
                lemma_any_has_bytes(values_view(l@));
            }
            while i < l.len()
                invariant
                    0 <= i <= l@.len(),
                    *val == Value::List(*l),
                    values_view(l@).len() == l@.len(),
                    any_has_bytes(values_view(l@)) <==> exists|j: int|
                        0 <= j < l@.len() && has_bytes(#[trigger] values_view(l@)[j]),
                    forall|j: int| 0 <= j < i ==> !has_bytes(#[trigger] values_view(l@)[j]),
                decreases l@.len() - i,
            {
                proof {
                    assert(decreases_to!(*val => (*val)->List_0));
                    assert(decreases_to!(*l => l@));
                    assert(decreases_to!(l@ => l@[i as int]));
                    lemma_values_view_index(l@, i as int);
                }
                if value_has_bytes(&l[i]) {
                    return true;
                }
                i = i + 1;
            }
            false
        },
        _ => false,
    }
}

/// A list holds bytes where one of its items does.
proof fn lemma_any_has_bytes(l: Seq<ValueView>)
    ensures
        any_has_bytes(l) <==> exists|j: int| 0 <= j < l.len() && has_bytes(#[trigger] l[j]),
    decreases l.len(),
{
    if l.len() > 0 {
        lemma_any_has_bytes(l.drop_first());
        if any_has_bytes(l.drop_first()) {
            let j = choose|j: int| 0 <= j < l.drop_first().len() && has_bytes(#[trigger] l.drop_first()[j]);
            assert(l[j + 1] == l.drop_first()[j]);
        }
        if exists|j: int| 0 <= j < l.len() && has_bytes(#[trigger] l[j]) {
            let j = choose|j: int| 0 <= j < l.len() && has_bytes(#[trigger] l[j]);
            if j > 0 {
                assert(l.drop_first()[j - 1] == l[j]);
            }
        }
    }
}

/// The text of a string value.
pub fn value_as_str(val: &Value) -> (r: Result<&str, ScriptError<'static>>)
    ensures
        match val@ {
            ValueView::Str(s) => r matches Ok(t) && t@ == s,
            _ => r == Err::<&str, ScriptError<'static>>(ScriptError::NotAString),
        },
{
    match val {
        Value::Str(s) => Ok(s.as_str()),
        _ => Err(ScriptError::NotAString),
    }
}

/// The items of a list value.
pub fn value_as_list(val: &Value) -> (r: Result<&[Value], ScriptError<'static>>)
    ensures
        match val@ {
            ValueView::List(l) => r matches Ok(t) && values_view(t@) == l,
            _ => r == Err::<&[Value], ScriptError<'static>>(ScriptError::NotAList),
        },
{
    match val {
        Value::List(l) => Ok(l.as_slice()),
        _ => Err(ScriptError::NotAList),
    }
}

/// The items of a list value, taken out of it.
pub fn value_into_list(val: Value) -> (r: Result<Vec<Value>, ScriptError<'static>>)
    ensures
        match val@ {
            ValueView::List(l) => r matches Ok(t) && values_view(t@) == l,
            _ => r == Err::<Vec<Value>, ScriptError<'static>>(ScriptError::NotAList),
        },
{
    match val {
        Value::List(l) => Ok(l),
        _ => Err(ScriptError::NotAList),
    }
}

/// How a name is built: by appending `s`.
pub fn with_name(s: &str) -> (r: impl FnOnce(&mut Park, String) -> String + '_)
    ensures
        forall|p: &mut Park, st: String| r.requires((p, st)),
        forall|p: &mut Park, st: String, n: String| r.ensures((p, st), n) ==> n@ == st@ + s@,
{
    move |_p: &mut Park, st: String| -> (n: String)
        ensures
            n@ == st@ + s@,
        {
            let mut st = st;
            st.append(s);
            st
        }
}

/// How a value is set: as it is.
pub fn with_val_id() -> (r: impl FnOnce(&mut Park, Value) -> Value)
    ensures
        forall|p: &mut Park, v: Value| r.requires((p, v)),
        forall|p: &mut Park, v: Value, w: Value| r.ensures((p, v), w) ==> w == v,
{
    |_p: &mut Park, v: Value| -> (w: Value)
        ensures
            w == v,
        { v }
}

} // verus!
