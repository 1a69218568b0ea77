//! The resolution: the distributions that a runtime must hold.

use crate::version::Version;
use vstd::prelude::*;

verus! {

/// What an optional text is in contracts.
pub open spec fn text_of(text: Option<String>) -> Option<Seq<char>> {
    match text {
        Some(t) => Some(t@),
        None => None,
    }
}

/// A copy of an optional text.
pub fn copy_text(text: &Option<String>) -> (copy: Option<String>)
    ensures
        text_of(copy) == text_of(*text),
{
    match text {
        Some(t) => Some(t.clone()),
        None => None,
    }
}

/// The distribution chosen for one package.
#[derive(Debug, PartialEq, Eq)]
pub struct Distribution {
    pub name: String,
    pub version: Version,
    /// Where the package comes from.
    pub source: String,
    /// The tag of the prebuilt artifact that was chosen; `None` where the
    /// package is built from its source archive.
    pub tag: Option<String>,
    /// The content hash that the lock pins for the chosen artifact.
    pub hash: Option<String>,
}

/// What a distribution is in contracts.
pub struct DistributionView {
    pub name: Seq<char>,
    pub version: Seq<u64>,
    pub source: Seq<char>,
    pub tag: Option<Seq<char>>,
    pub hash: Option<Seq<char>>,
}

impl View for Distribution {
    type V = DistributionView;

    open spec fn view(&self) -> DistributionView {
        DistributionView {
            name: self.name@,
            version: self.version@,
            source: self.source@,
            tag: text_of(self.tag),
            hash: text_of(self.hash),
        }
    }
}

impl Distribution {
    /// A copy of this distribution.
    pub fn duplicate(&self) -> (copy: Distribution)
        ensures
            copy@ == self@,
    {
        Distribution {
            name: self.name.clone(),
            version: self.version.duplicate(),
            source: self.source.clone(),
            tag: copy_text(&self.tag),
            hash: copy_text(&self.hash),
        }
    }
}

/// The distributions to install, in the order of the lock they come from.
///
/// A resolution maps a name to one distribution: it is well formed where no
/// two of its entries bear one name.
#[derive(Debug, PartialEq, Eq)]
pub struct Resolution {
    pub entries: Vec<Distribution>,
}

/// Whether no two of `entries` bear one name.
pub open spec fn unique(entries: Seq<DistributionView>) -> bool {
    forall|i: int, j: int|
        0 <= i < j < entries.len() ==> (#[trigger] entries[i]).name != (#[trigger] entries[j]).name
}

impl View for Resolution {
    type V = Seq<DistributionView>;

    open spec fn view(&self) -> Seq<DistributionView> {
        Seq::new(self.entries@.len(), |i: int| self.entries@[i]@)
    }
}

/// The entries of `entries` whose name is not in `banned`, in order.
pub open spec fn without(entries: Seq<DistributionView>, banned: Set<Seq<char>>) -> Seq<
    DistributionView,
>
    decreases entries.len(),
{
    if entries.len() == 0 {
        Seq::empty()
    } else if banned.contains(entries.last().name) {
        without(entries.drop_last(), banned)
    } else {
        without(entries.drop_last(), banned).push(entries.last())
    }
}

/// Whether `entries` has an entry named `name`.
pub open spec fn names(entries: Seq<DistributionView>, name: Seq<char>) -> bool {
    exists|i: int| 0 <= i < entries.len() && (#[trigger] entries[i]).name == name
}

/// What `without` keeps: an entry is kept exactly if it was there and its
/// name is not banned.
pub proof fn lemma_without_names(
    entries: Seq<DistributionView>,
    banned: Set<Seq<char>>,
    name: Seq<char>,
)
    ensures
        names(without(entries, banned), name) <==> names(entries, name) && !banned.contains(name),
    decreases entries.len(),
{
    if entries.len() > 0 {
        let front = entries.drop_last();
        let last = entries.last();
        lemma_without_names(front, banned, name);
        let kept = without(entries, banned);
        if names(kept, name) {
            let i = choose|i: int| 0 <= i < kept.len() && (#[trigger] kept[i]).name == name;
            if !banned.contains(last.name) && i == kept.len() - 1 {
                assert(entries[entries.len() - 1].name == name);
            } else {
                assert(without(front, banned)[i].name == name);
                let j = choose|j: int| 0 <= j < front.len() && (#[trigger] front[j]).name == name;
                assert(entries[j].name == name);
            }
        }
        if names(entries, name) && !banned.contains(name) {
            let j = choose|j: int| 0 <= j < entries.len() && (#[trigger] entries[j]).name == name;
            if j == entries.len() - 1 {
                assert(kept[kept.len() - 1].name == name);
            } else {
                assert(front[j].name == name);
                let i = choose|i: int|
                    0 <= i < without(front, banned).len() && (#[trigger] without(
                        front,
                        banned,
                    )[i]).name == name;
                assert(kept[i].name == name);
            }
        }
    }
}

/// Removing names leaves a name that stood for one entry standing for one.
pub proof fn lemma_without_keeps_unique(entries: Seq<DistributionView>, banned: Set<Seq<char>>)
    requires
        unique(entries),
    ensures
        unique(without(entries, banned)),
    decreases entries.len(),
{
    if entries.len() > 0 {
        let front = entries.drop_last();
        let last = entries.last();
        assert(unique(front)) by {
            assert forall|i: int, j: int| 0 <= i < j < front.len() implies (#[trigger] front[i]).name
                != (#[trigger] front[j]).name by {
                assert(entries[i].name != entries[j].name);
            }
        }
        lemma_without_keeps_unique(front, banned);
        let kept = without(front, banned);
        let all = without(entries, banned);
        if !banned.contains(last.name) {
            assert forall|i: int, j: int| 0 <= i < j < all.len() implies (#[trigger] all[i]).name != (
            #[trigger] all[j]).name by {
                if j < kept.len() {
                    assert(kept[i].name != kept[j].name);
                } else if all[i].name == last.name {
                    assert(kept[i].name == last.name);
                    lemma_without_names(front, banned, last.name);
                    let k = choose|k: int| 0 <= k < front.len() && (#[trigger] front[k]).name == last.name;
                    assert(entries[k].name != entries[entries.len() - 1].name);
                }
            }
        }
    }
}

impl Resolution {
    /// Whether the resolution maps a name to one distribution.
    pub open spec fn well_formed(&self) -> bool {
        unique(self@)
    }

    /// The resolution with the given entries; `None` where two of them bear
    /// one name.
    pub fn new(entries: Vec<Distribution>) -> (out: Option<Resolution>)
        ensures
            match out {
                Some(resolution) => resolution.entries@ == entries@ && resolution.well_formed(),
                None => !unique((Resolution { entries })@),
            },
    {
        let resolution = Resolution { entries };
        if resolution.is_well_formed() {
            Some(resolution)
        } else {
            None
        }
    }

    /// Tells whether the resolution maps a name to one distribution.
    pub fn is_well_formed(&self) -> (yes: bool)
        ensures
            yes == self.well_formed(),
    {
        let n = self.entries.len();
        let mut a: usize = 0;
        while a < n
            invariant
                a <= n,
                n == self@.len(),
                forall|x: int, y: int|
                    0 <= x < y < n && x < a ==> (#[trigger] self@[x]).name != (#[trigger] self@[y]).name,
            decreases n - a,
        {
            let mut b: usize = a + 1;
            while b < n
                invariant
                    a < b <= n,
                    n == self@.len(),
                    forall|y: int| a < y < b ==> self@[a as int].name != (#[trigger] self@[y]).name,
                decreases n - b,
            {
                if self.entries[b].name == self.entries[a].name {
                    assert(self@[a as int].name == self@[b as int].name);
                    return false;
                }
                b = b + 1;
            }
            a = a + 1;
        }
        true
    }

    /// How many distributions the resolution has.
    pub fn len(&self) -> (n: usize)
        ensures
            n == self@.len(),
    {
        self.entries.len()
    }

    /// Whether the resolution has a distribution named `name`.
    pub fn contains(&self, name: &String) -> (found: bool)
        ensures
            found == names(self@, name@),
    {
        let mut i: usize = 0;
        while i < self.entries.len()
            invariant
                i <= self.entries.len(),
                forall|j: int| 0 <= j < i ==> (#[trigger] self@[j]).name != name@,
            decreases self.entries.len() - i,
        {
            if self.entries[i].name == *name {
                assert(self@[i as int].name == name@);
                return true;
            }
            i = i + 1;
        }
        false
    }

    /// A copy of this resolution.
    pub fn duplicate(&self) -> (copy: Resolution)
        ensures
            copy@ == self@,
    {
        let mut entries: Vec<Distribution> = Vec::new();
        let mut i: usize = 0;
        while i < self.entries.len()
            invariant
                i <= self.entries.len(),
                entries@.len() == i,
                forall|j: int| 0 <= j < i ==> (#[trigger] entries@[j])@ == self.entries@[j]@,
            decreases self.entries.len() - i,
        {
            entries.push(self.entries[i].duplicate());
            i = i + 1;
        }
        let copy = Resolution { entries };
        assert(copy@ =~= self@);
        copy
    }
}

} // verus!
