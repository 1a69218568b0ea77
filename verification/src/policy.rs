//! The policies that an install follows: build isolation and hash checking.

use crate::lock::contains_text;
use crate::resolution::DistributionView;
use crate::resolution::Resolution;
use crate::runtime::Runtime;
use crate::text::views;
use vstd::prelude::*;

verus! {

/// Where packages are built.
#[derive(Debug, PartialEq, Eq)]
pub enum BuildIsolation {
    /// Every package is built in an environment of its own.
    Isolated,
    /// Every package is built in the runtime at `site`.
    Shared { site: String },
    /// The packages `packages` are built in the runtime at `site`, every
    /// other package in an environment of its own.
    SharedPackage { site: String, packages: Vec<String> },
}

/// What a `BuildIsolation` is in contracts.
pub enum BuildIsolationView {
    Isolated,
    Shared { site: Seq<char> },
    SharedPackage { site: Seq<char>, packages: Seq<Seq<char>> },
}

impl View for BuildIsolation {
    type V = BuildIsolationView;

    open spec fn view(&self) -> BuildIsolationView {
        match self {
            BuildIsolation::Isolated => BuildIsolationView::Isolated,
            BuildIsolation::Shared { site } => BuildIsolationView::Shared { site: site@ },
            BuildIsolation::SharedPackage { site, packages } => BuildIsolationView::SharedPackage {
                site: site@,
                packages: views(packages@),
            },
        }
    }
}

impl BuildIsolationView {
    /// Whether the package named `name` is built in an environment of its
    /// own.
    pub open spec fn isolates(self, name: Seq<char>) -> bool {
        match self {
            BuildIsolationView::Isolated => true,
            BuildIsolationView::Shared { .. } => false,
            BuildIsolationView::SharedPackage { packages, .. } => !packages.contains(name),
        }
    }
}

/// The build isolation that the settings ask for: none where isolation is
/// switched off; else full isolation where no package is excepted; else
/// isolation for all but the excepted packages.
pub open spec fn isolation_for(
    no_build_isolation: bool,
    no_build_isolation_package: Seq<Seq<char>>,
    site: Seq<char>,
) -> BuildIsolationView {
    if no_build_isolation {
        BuildIsolationView::Shared { site }
    } else if no_build_isolation_package.len() == 0 {
        BuildIsolationView::Isolated
    } else {
        BuildIsolationView::SharedPackage { site, packages: no_build_isolation_package }
    }
}

/// A copy of `texts`.
pub fn copy_texts(texts: &Vec<String>) -> (copy: Vec<String>)
    ensures
        views(copy@) == views(texts@),
{
    let mut copy: Vec<String> = Vec::new();
    let mut i: usize = 0;
    while i < texts.len()
        invariant
            i <= texts.len(),
            copy@.len() == i,
            forall|j: int| 0 <= j < i ==> (#[trigger] copy@[j])@ == texts@[j]@,
        decreases texts.len() - i,
    {
        copy.push(texts[i].clone());
        i = i + 1;
    }
    assert(views(copy@) =~= views(texts@));
    copy
}

impl BuildIsolation {
    /// Selects the build isolation for a sync into `runtime`.
    pub fn select(
        no_build_isolation: bool,
        no_build_isolation_package: &Vec<String>,
        runtime: &Runtime,
    ) -> (out: BuildIsolation)
        ensures
            out@ == isolation_for(
                no_build_isolation,
                views(no_build_isolation_package@),
                runtime.site@,
            ),
    {
        if no_build_isolation {
            BuildIsolation::Shared { site: runtime.site.clone() }
        } else if no_build_isolation_package.len() == 0 {
            BuildIsolation::Isolated
        } else {
            BuildIsolation::SharedPackage {
                site: runtime.site.clone(),
                packages: copy_texts(no_build_isolation_package),
            }
        }
    }

    /// Whether the package named `name` is built in an environment of its
    /// own.
    pub fn is_isolated(&self, name: &String) -> (yes: bool)
        ensures
            yes == self@.isolates(name@),
    {
        match self {
            BuildIsolation::Isolated => true,
            BuildIsolation::Shared { .. } => false,
            BuildIsolation::SharedPackage { packages, .. } => !contains_text(packages, name),
        }
    }
}

/// The hash that an install must find for one package.
#[derive(Debug, PartialEq, Eq)]
pub struct Pin {
    pub name: String,
    pub hash: String,
}

/// How an install checks what it fetches.
#[derive(Debug, PartialEq, Eq)]
pub enum HashPolicy {
    /// Nothing is checked.
    Unchecked,
    /// Each package must have the hash pinned for it.
    Verify(Vec<Pin>),
}

/// What a `HashPolicy` is in contracts; a pin is a name and a hash.
pub enum HashPolicyView {
    Unchecked,
    Verify(Seq<(Seq<char>, Seq<char>)>),
}

impl View for HashPolicy {
    type V = HashPolicyView;

    open spec fn view(&self) -> HashPolicyView {
        match self {
            HashPolicy::Unchecked => HashPolicyView::Unchecked,
            HashPolicy::Verify(pins) => HashPolicyView::Verify(
                Seq::new(pins@.len(), |i: int| (pins@[i].name@, pins@[i].hash@)),
            ),
        }
    }
}

/// Whether entry `at` is the first of `entries` without a hash.
pub open spec fn first_unpinned(entries: Seq<DistributionView>, at: int) -> bool {
    &&& 0 <= at < entries.len()
    &&& entries[at].hash is None
    &&& forall|i: int| 0 <= i < at ==> (#[trigger] entries[i]).hash is Some
}

/// Whether every one of `entries` has a hash.
pub open spec fn all_pinned(entries: Seq<DistributionView>) -> bool {
    forall|i: int| 0 <= i < entries.len() ==> (#[trigger] entries[i]).hash is Some
}

/// The hash policy for `entries`: each entry pinned to its hash, or the name
/// of the first entry that has none.
pub open spec fn hash_policy_for(entries: Seq<DistributionView>) -> Result<
    HashPolicyView,
    Seq<char>,
> {
    if all_pinned(entries) {
        Ok(
            HashPolicyView::Verify(
                Seq::new(entries.len(), |i: int| (entries[i].name, entries[i].hash.unwrap())),
            ),
        )
    } else {
        Err(entries[choose|at: int| first_unpinned(entries, at)].name)
    }
}

/// No more than one entry is the first without a hash.
pub proof fn lemma_first_unpinned_unique(entries: Seq<DistributionView>, a: int, b: int)
    requires
        first_unpinned(entries, a),
        first_unpinned(entries, b),
    ensures
        a == b,
{
    if a < b {
        assert(entries[a].hash is Some);
    }
    if b < a {
        assert(entries[b].hash is Some);
    }
}

/// What the outcome of deriving a hash policy is in contracts.
pub open spec fn derived_view(out: Result<HashPolicy, String>) -> Result<HashPolicyView, Seq<char>> {
    match out {
        Ok(policy) => Ok(policy@),
        Err(name) => Err(name@),
    }
}

impl HashPolicy {
    /// Derives the hash policy of a sync from the resolution to install.
    ///
    /// Every distribution must carry a hash: the name of the first that has
    /// none is returned as the error.
    pub fn from_resolution(resolution: &Resolution) -> (out: Result<HashPolicy, String>)
        ensures
            derived_view(out) == hash_policy_for(resolution@),
    {
        let mut pins: Vec<Pin> = Vec::new();
        let mut i: usize = 0;
        while i < resolution.entries.len()
            invariant
                i <= resolution.entries.len(),
                pins@.len() == i,
                forall|j: int| 0 <= j < i ==> (#[trigger] resolution@[j]).hash is Some,
                forall|j: int|
                    0 <= j < i ==> (#[trigger] pins@[j]).name@ == resolution@[j].name
                        && pins@[j].hash@ == resolution@[j].hash.unwrap(),
            decreases resolution.entries.len() - i,
        {
            let entry = &resolution.entries[i];
            assert(resolution@[i as int] == entry@);
            match &entry.hash {
                Some(hash) => {
                    pins.push(Pin { name: entry.name.clone(), hash: hash.clone() });
                },
                None => {
                    proof {
                        assert(first_unpinned(resolution@, i as int));
                        assert(!all_pinned(resolution@));
                        let at = choose|at: int| first_unpinned(resolution@, at);
                        lemma_first_unpinned_unique(resolution@, at, i as int);
                    }
                    return Err(entry.name.clone());
                },
            }
            i = i + 1;
        }
        let policy = HashPolicy::Verify(pins);
        assert(all_pinned(resolution@));
        assert(policy@->Verify_0 =~= hash_policy_for(resolution@)->Ok_0->Verify_0);
        Ok(policy)
    }
}

} // verus!
