//! The lock: a pinned dependency graph, read and never changed here.

use crate::marker::FactView;
use crate::marker::Marker;
use crate::marker::MarkerEnvironment;
use crate::marker::SupportedEnvironment;
use crate::text::views;
use crate::version::Version;
use crate::version::VersionRange;
use vstd::prelude::*;

verus! {

/// A prebuilt artifact of a package, usable on runtimes that accept its tag.
#[derive(Debug, PartialEq, Eq)]
pub struct Prebuilt {
    pub tag: String,
    pub hash: Option<String>,
}

/// The source archive of a package.
#[derive(Debug, PartialEq, Eq)]
pub struct SourceArchive {
    pub hash: Option<String>,
}

/// What decides, besides its marker, whether an edge is followed.
#[derive(Debug, PartialEq, Eq)]
pub enum Gate {
    /// Nothing: the edge is a dependency of the package as it is.
    Always,
    /// The edge belongs to the extra of this name, and is followed where
    /// that extra is asked for.
    Extra(String),
    /// The edge is a development dependency, and is followed where
    /// development dependencies are wanted. No extra opens it, whatever its
    /// name.
    Development,
}

/// A dependency edge to the package at position `target` of the lock.
#[derive(Debug, PartialEq, Eq)]
pub struct Edge {
    pub target: usize,
    pub gate: Gate,
    pub marker: Marker,
}

/// One pinned package of a lock.
#[derive(Debug, PartialEq, Eq)]
pub struct LockedPackage {
    pub name: String,
    pub version: Version,
    pub source: String,
    pub prebuilt: Vec<Prebuilt>,
    pub archive: Option<SourceArchive>,
    pub edges: Vec<Edge>,
}

/// A lock.
#[derive(Debug, PartialEq, Eq)]
pub struct Lock {
    /// The interpreter versions that the lock was solved for, if it says so.
    pub requires: Option<VersionRange>,
    /// The environments that the lock declares as supported; none declared
    /// means no restriction.
    pub environments: Vec<SupportedEnvironment>,
    /// The pinned packages.
    pub packages: Vec<LockedPackage>,
}

/// Whether `texts` holds `text`.
pub fn contains_text(texts: &Vec<String>, text: &String) -> (found: bool)
    ensures
        found == views(texts@).contains(text@),
{
    let mut i: usize = 0;
    while i < texts.len()
        invariant
            i <= texts.len(),
            forall|j: int| 0 <= j < i ==> (#[trigger] views(texts@)[j]) != text@,
        decreases texts.len() - i,
    {
        if texts[i] == *text {
            assert(views(texts@)[i as int] == text@);
            return true;
        }
        i = i + 1;
    }
    false
}

impl Edge {
    /// Whether the edge is followed on a runtime described by `facts` when
    /// the extras `extras` are asked for and development dependencies are
    /// wanted or not, as `dev` says.
    pub open spec fn followed(&self, facts: Seq<FactView>, extras: Seq<Seq<char>>, dev: bool) -> bool {
        &&& self.marker.holds(facts)
        &&& match self.gate {
            Gate::Always => true,
            Gate::Extra(name) => extras.contains(name@),
            Gate::Development => dev,
        }
    }

    /// Whether the edge is followed on the runtime that `env` describes when
    /// the extras `extras` are asked for and development dependencies are
    /// wanted or not, as `dev` says.
    pub fn is_followed(&self, env: &MarkerEnvironment, extras: &Vec<String>, dev: bool) -> (yes:
        bool)
        ensures
            yes == self.followed(env@, views(extras@), dev),
    {
        let open = match &self.gate {
            Gate::Always => true,
            Gate::Extra(name) => contains_text(extras, name),
            Gate::Development => dev,
        };
        open && self.marker.evaluate(env)
    }
}

impl Lock {
    /// Whether every edge of the lock leads to a package of the lock.
    pub open spec fn edges_in_range(&self) -> bool {
        forall|a: int, k: int|
            0 <= a < self.packages@.len() && 0 <= k < self.packages@[a].edges@.len() ==> (
            #[trigger] self.packages@[a].edges@[k]).target < self.packages@.len()
    }

    /// The position of the package named `name`, looked for from `from` on.
    pub open spec fn position_from(&self, name: Seq<char>, from: int) -> Option<int>
        decreases self.packages@.len() - from,
    {
        if from < 0 || from >= self.packages@.len() {
            None
        } else if self.packages@[from].name@ == name {
            Some(from)
        } else {
            self.position_from(name, from + 1)
        }
    }

    /// The position of the first package named `name`, if the lock has one.
    pub open spec fn position(&self, name: Seq<char>) -> Option<int> {
        self.position_from(name, 0)
    }

    /// Finds the first package named `name`.
    pub fn find(&self, name: &String) -> (at: Option<usize>)
        ensures
            match at {
                Some(i) => self.position(name@) == Some(i as int),
                None => self.position(name@) is None,
            },
    {
        let mut i: usize = 0;
        while i < self.packages.len()
            invariant
                i <= self.packages.len(),
                self.position(name@) == self.position_from(name@, i as int),
            decreases self.packages.len() - i,
        {
            if self.packages[i].name == *name {
                return Some(i);
            }
            i = i + 1;
        }
        None
    }

    /// Tells whether every edge of the lock leads to a package of the lock.
    pub fn edges_sound(&self) -> (yes: bool)
        ensures
            yes == self.edges_in_range(),
    {
        let n = self.packages.len();
        let mut a: usize = 0;
        while a < n
            invariant
                a <= n,
                n == self.packages@.len(),
                forall|x: int, k: int|
                    0 <= x < a && 0 <= k < self.packages@[x].edges@.len() ==> (
                    #[trigger] self.packages@[x].edges@[k]).target < n,
            decreases n - a,
        {
            let package = &self.packages[a];
            let mut k: usize = 0;
            while k < package.edges.len()
                invariant
                    k <= package.edges.len(),
                    a < n,
                    n == self.packages@.len(),
                    *package == self.packages@[a as int],
                    forall|j: int| 0 <= j < k ==> (#[trigger] package.edges@[j]).target < n,
                decreases package.edges.len() - k,
            {
                if package.edges[k].target >= n {
                    assert(!(self.packages@[a as int].edges@[k as int].target < n));
                    return false;
                }
                k = k + 1;
            }
            a = a + 1;
        }
        true
    }
}

} // verus!
