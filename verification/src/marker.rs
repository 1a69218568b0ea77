//! Marker expressions: predicates over the facts that describe a runtime.

use vstd::prelude::*;

verus! {

/// One fact about a runtime, such as `sys_platform` = `linux`.
#[derive(Clone, Debug, PartialEq, Eq)]
pub struct Fact {
    pub key: String,
    pub value: String,
}

/// A fact in contracts: its key and its value.
pub type FactView = (Seq<char>, Seq<char>);

/// The facts that describe a runtime. Of two facts with one key the earlier
/// counts.
#[derive(Clone, Debug, PartialEq, Eq)]
pub struct MarkerEnvironment {
    pub facts: Vec<Fact>,
}

impl View for MarkerEnvironment {
    type V = Seq<FactView>;

    open spec fn view(&self) -> Seq<FactView> {
        Seq::new(self.facts@.len(), |i: int| (self.facts@[i].key@, self.facts@[i].value@))
    }
}

/// The value that `facts` give to `key`, looked for from position `from` on.
pub open spec fn value_from(facts: Seq<FactView>, key: Seq<char>, from: int) -> Option<Seq<char>>
    decreases facts.len() - from,
{
    if from < 0 || from >= facts.len() {
        None
    } else if facts[from].0 == key {
        Some(facts[from].1)
    } else {
        value_from(facts, key, from + 1)
    }
}

/// The value that `facts` give to `key`, if they state one.
pub open spec fn value_of(facts: Seq<FactView>, key: Seq<char>) -> Option<Seq<char>> {
    value_from(facts, key, 0)
}

impl MarkerEnvironment {
    /// The environment that states `facts`.
    pub fn new(facts: Vec<Fact>) -> (env: MarkerEnvironment)
        ensures
            env.facts@ == facts@,
    {
        MarkerEnvironment { facts }
    }

    /// Whether the environment gives `key` the value `value`.
    pub fn states(&self, key: &String, value: &String) -> (yes: bool)
        ensures
            yes == (value_of(self@, key@) == Some(value@)),
    {
        let mut i: usize = 0;
        while i < self.facts.len()
            invariant
                i <= self.facts.len(),
                value_of(self@, key@) == value_from(self@, key@, i as int),
            decreases self.facts.len() - i,
        {
            if self.facts[i].key == *key {
                return self.facts[i].value == *value;
            }
            i = i + 1;
        }
        false
    }
}

/// A marker expression.
#[derive(Debug, PartialEq, Eq)]
pub enum Marker {
    /// Holds of every runtime.
    Always,
    /// Holds where the runtime gives `key` the value `value`.
    Is { key: String, value: String },
    /// Holds where the runtime does not give `key` the value `value`.
    IsNot { key: String, value: String },
    /// Holds where both hold.
    Both(Box<Marker>, Box<Marker>),
    /// Holds where at least one holds.
    Either(Box<Marker>, Box<Marker>),
}

impl Marker {
    /// Whether the expression holds of a runtime described by `facts`.
    pub open spec fn holds(&self, facts: Seq<FactView>) -> bool
        decreases self,
    {
        match self {
            Marker::Always => true,
            Marker::Is { key, value } => value_of(facts, key@) == Some(value@),
            Marker::IsNot { key, value } => value_of(facts, key@) != Some(value@),
            Marker::Both(left, right) => left.holds(facts) && right.holds(facts),
            Marker::Either(left, right) => left.holds(facts) || right.holds(facts),
        }
    }

    /// Evaluates the expression against `env`.
    pub fn evaluate(&self, env: &MarkerEnvironment) -> (yes: bool)
        ensures
            yes == self.holds(env@),
        decreases self,
    {
        match self {
            Marker::Always => true,
            Marker::Is { key, value } => env.states(key, value),
            Marker::IsNot { key, value } => !env.states(key, value),
            Marker::Both(left, right) => left.evaluate(env) && right.evaluate(env),
            Marker::Either(left, right) => left.evaluate(env) || right.evaluate(env),
        }
    }

    /// Whether the expression is the one that restricts nothing.
    pub fn is_always(&self) -> (yes: bool)
        ensures
            yes == (self is Always),
    {
        match self {
            Marker::Always => true,
            _ => false,
        }
    }
}

/// An environment that a lock declares as supported: the expression, and the
/// text in which the lock states it.
#[derive(Debug, PartialEq, Eq)]
pub struct SupportedEnvironment {
    pub declared: String,
    pub expr: Marker,
}

} // verus!
