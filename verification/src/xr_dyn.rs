use vstd::prelude::*;

use crate::script::dict::Dict;

verus! {

/// The version of the grammar format.
pub const VERSION: &'static str = "0.0.1";

/// A grammar: each rule name with its production.
#[derive(Debug)]
pub struct GrammarTable(pub Dict<Production>);

/// How a rule is made.
#[derive(Debug)]
pub enum Production {
    /// A run of items with a property.
    Token(Property),
    /// Rules in sequence.
    List(List),
    /// One or more repetitions of a rule.
    Any(Any),
    /// The first of several rules that applies.
    Either(Either),
}

/// A property of items.
#[derive(Debug)]
pub enum Property {
    /// The items of a given text, in order.
    Exact(Slicy),
    /// The items of which a predicate holds.
    Class(Predicate),
}

/// Rules in sequence, by name.
#[derive(Debug)]
pub struct List(pub Vec<String>);

/// Alternative rules, by name.
#[derive(Debug)]
pub struct Either(pub Vec<String>);

/// A rule repeated, by name.
#[derive(Debug)]
pub struct Any(pub String);

/// A text to match exactly.
#[derive(Debug)]
pub enum Slicy {
    /// Characters.
    SliceChar(Vec<char>),
    /// A string.
    Str(String),
    /// One character.
    Char(char),
}

/// A predicate on an item and its index.
#[derive(Debug)]
pub enum Predicate {
    /// The index is below the bound.
    Lt(usize),
    /// The item is this character.
    Eq(char),
    /// The item has a character property.
    Prop(CharProp),
    /// The predicate does not hold.
    Not(Box<Predicate>),
    /// All the predicates hold.
    All(Vec<Predicate>),
    /// One of the predicates holds.
    Either(Vec<Predicate>),
}

/// A named property of characters.
#[derive(Debug, Clone, Copy, PartialEq, Eq)]
pub enum CharProp {
    IsAlphabetic,
    IsAlphanumeric,
    IsAsciiWhitespace,
    /// A property not named here.
    Other,
}

impl GrammarTable {
    /// Whether the table is well formed: no rule name occurs twice.
    pub open spec fn wf(&self) -> bool {
        self.0.wf()
    }

    /// The production of the rule `name`, if there is one.
    pub fn get(&self, name: &str) -> (r: Option<&Production>)
        requires
            self.wf(),
        ensures
            match r {
                Some(p) => self.0@.contains_key(name@) && self.0@[name@] == *p,
                None => !self.0@.contains_key(name@),
            },
    {
        self.0.get(name)
    }
}

} // verus!
