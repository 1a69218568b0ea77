//! Building a resolution from a lock and a selection.

use crate::lock::Lock;
use crate::lock::LockedPackage;
use crate::marker::FactView;
use crate::marker::MarkerEnvironment;
use crate::resolution::copy_text;
use crate::resolution::names;
use crate::resolution::text_of;
use crate::resolution::unique;
use crate::resolution::Distribution;
use crate::resolution::DistributionView;
use crate::resolution::Resolution;
use crate::text::views;
use vstd::prelude::*;

verus! {

/// Why no resolution could be built.
#[derive(Debug, PartialEq, Eq)]
pub enum ResolveError {
    /// An edge of the lock leads outside it, or the selection reaches two
    /// packages of one name.
    InconsistentLock,
    /// The lock has no package of this name, which the selection starts from.
    MissingRoot(String),
    /// The selection reaches this package, and the lock has neither a
    /// prebuilt artifact that the runtime accepts nor a source archive of it.
    NoCompatibleArtifact(String),
}

/// What a `ResolveError` is in contracts.
pub enum ResolveErrorView {
    InconsistentLock,
    MissingRoot(Seq<char>),
    NoCompatibleArtifact(Seq<char>),
}

impl View for ResolveError {
    type V = ResolveErrorView;

    open spec fn view(&self) -> ResolveErrorView {
        match self {
            ResolveError::InconsistentLock => ResolveErrorView::InconsistentLock,
            ResolveError::MissingRoot(name) => ResolveErrorView::MissingRoot(name@),
            ResolveError::NoCompatibleArtifact(name) => ResolveErrorView::NoCompatibleArtifact(
                name@,
            ),
        }
    }
}

/// What the outcome of building a resolution is in contracts.
pub open spec fn built_view(out: Result<Resolution, ResolveError>) -> Result<
    Seq<DistributionView>,
    ResolveErrorView,
> {
    match out {
        Ok(resolution) => Ok(resolution@),
        Err(error) => Err(error@),
    }
}

impl LockedPackage {
    /// The first prebuilt artifact, from position `from` on, that bears
    /// `tag`.
    pub open spec fn tagged_from(&self, tag: Seq<char>, from: int) -> Option<int>
        decreases self.prebuilt@.len() - from,
    {
        if from < 0 || from >= self.prebuilt@.len() {
            None
        } else if self.prebuilt@[from].tag@ == tag {
            Some(from)
        } else {
            self.tagged_from(tag, from + 1)
        }
    }

    /// The prebuilt artifact that a runtime takes which accepts `tags`, the
    /// preferred tags first, looked for from tag `from` on: the first
    /// artifact that bears the earliest tag that any artifact bears.
    pub open spec fn preferred_from(&self, tags: Seq<Seq<char>>, from: int) -> Option<int>
        decreases tags.len() - from,
    {
        if from < 0 || from >= tags.len() {
            None
        } else {
            match self.tagged_from(tags[from], 0) {
                Some(at) => Some(at),
                None => self.preferred_from(tags, from + 1),
            }
        }
    }

    /// The distribution of this package for a runtime that accepts `tags`:
    /// the prebuilt artifact that the runtime prefers, else the source
    /// archive, else none.
    pub open spec fn chosen(&self, tags: Seq<Seq<char>>) -> Option<DistributionView> {
        match self.preferred_from(tags, 0) {
            Some(at) => Some(
                DistributionView {
                    name: self.name@,
                    version: self.version@,
                    source: self.source@,
                    tag: Some(self.prebuilt@[at].tag@),
                    hash: text_of(self.prebuilt@[at].hash),
                },
            ),
            None => match self.archive {
                Some(archive) => Some(
                    DistributionView {
                        name: self.name@,
                        version: self.version@,
                        source: self.source@,
                        tag: None,
                        hash: text_of(archive.hash),
                    },
                ),
                None => None,
            },
        }
    }

    /// Finds the first prebuilt artifact that bears `tag`.
    pub fn tagged(&self, tag: &String) -> (out: Option<usize>)
        ensures
            match out {
                Some(at) => self.tagged_from(tag@, 0) == Some(at as int) && at
                    < self.prebuilt@.len(),
                None => self.tagged_from(tag@, 0) is None,
            },
    {
        let mut i: usize = 0;
        while i < self.prebuilt.len()
            invariant
                i <= self.prebuilt.len(),
                self.tagged_from(tag@, 0) == self.tagged_from(tag@, i as int),
            decreases self.prebuilt.len() - i,
        {
            if self.prebuilt[i].tag == *tag {
                return Some(i);
            }
            i = i + 1;
        }
        None
    }

    /// Chooses the distribution of this package for a runtime that accepts
    /// `tags`, the preferred tags first.
    pub fn select(&self, tags: &Vec<String>) -> (out: Option<Distribution>)
        ensures
            match out {
                Some(dist) => self.chosen(views(tags@)) == Some(dist@),
                None => self.chosen(views(tags@)) is None,
            },
    {
        let mut t: usize = 0;
        while t < tags.len()
            invariant
                t <= tags.len(),
                self.preferred_from(views(tags@), 0) == self.preferred_from(views(tags@), t as int),
            decreases tags.len() - t,
        {
            assert(views(tags@)[t as int] == tags@[t as int]@);
            if let Some(at) = self.tagged(&tags[t]) {
                return Some(
                    Distribution {
                        name: self.name.clone(),
                        version: self.version.duplicate(),
                        source: self.source.clone(),
                        tag: Some(self.prebuilt[at].tag.clone()),
                        hash: copy_text(&self.prebuilt[at].hash),
                    },
                );
            }
            t = t + 1;
        }
        match &self.archive {
            Some(archive) => Some(
                Distribution {
                    name: self.name.clone(),
                    version: self.version.duplicate(),
                    source: self.source.clone(),
                    tag: None,
                    hash: copy_text(&archive.hash),
                },
            ),
            None => None,
        }
    }
}

impl Lock {
    /// Whether the lock has a package for each of `names`.
    pub open spec fn roots_found(&self, names: Seq<Seq<char>>) -> bool {
        forall|j: int| 0 <= j < names.len() ==> self.position(#[trigger] names[j]) is Some
    }

    /// Whether `names[j]` is the first of `names` that the lock has no
    /// package for.
    pub open spec fn first_missing(&self, names: Seq<Seq<char>>, j: int) -> bool {
        &&& 0 <= j < names.len()
        &&& self.position(names[j]) is None
        &&& forall|i: int| 0 <= i < j ==> self.position(#[trigger] names[i]) is Some
    }

    /// The positions of the packages that `names` name.
    pub open spec fn root_positions(&self, names: Seq<Seq<char>>) -> Seq<usize> {
        Seq::new(names.len(), |j: int| self.position(names[j]).unwrap() as usize)
    }

    /// Whether the package at `at` has a distribution for the runtime, if it
    /// is reached. A package that is not reached is usable as it is.
    pub open spec fn usable(
        &self,
        facts: Seq<FactView>,
        extras: Seq<Seq<char>>,
        dev: bool,
        roots: Seq<usize>,
        tags: Seq<Seq<char>>,
        at: int,
    ) -> bool {
        self.reached(facts, extras, dev, roots, at) ==> self.packages@[at].chosen(tags) is Some
    }

    /// Whether the package at `at` is the first that is reached and has no
    /// distribution for the runtime.
    pub open spec fn first_unusable(
        &self,
        facts: Seq<FactView>,
        extras: Seq<Seq<char>>,
        dev: bool,
        roots: Seq<usize>,
        tags: Seq<Seq<char>>,
        at: int,
    ) -> bool {
        &&& 0 <= at < self.packages@.len()
        &&& !self.usable(facts, extras, dev, roots, tags, at)
        &&& forall|i: int| 0 <= i < at ==> #[trigger] self.usable(facts, extras, dev, roots, tags, i)
    }

    /// The distributions of the reached packages among the first `upto` of
    /// the lock, in the lock's order.
    pub open spec fn picked(
        &self,
        facts: Seq<FactView>,
        extras: Seq<Seq<char>>,
        dev: bool,
        roots: Seq<usize>,
        tags: Seq<Seq<char>>,
        upto: int,
    ) -> Seq<DistributionView>
        decreases upto,
    {
        if upto <= 0 {
            Seq::empty()
        } else {
            let front = self.picked(facts, extras, dev, roots, tags, upto - 1);
            if self.reached(facts, extras, dev, roots, upto - 1) && self.packages@[upto - 1].chosen(
                tags,
            ) is Some {
                front.push(self.packages@[upto - 1].chosen(tags).unwrap())
            } else {
                front
            }
        }
    }

    /// Whether every reached package has a distribution for the runtime.
    pub open spec fn all_usable(
        &self,
        facts: Seq<FactView>,
        extras: Seq<Seq<char>>,
        dev: bool,
        roots: Seq<usize>,
        tags: Seq<Seq<char>>,
    ) -> bool {
        forall|i: int|
            0 <= i < self.packages@.len() ==> #[trigger] self.usable(facts, extras, dev, roots, tags, i)
    }

    /// Whether no two packages that the selection reaches share a name.
    pub open spec fn reached_distinct(
        &self,
        facts: Seq<FactView>,
        extras: Seq<Seq<char>>,
        dev: bool,
        roots: Seq<usize>,
    ) -> bool {
        forall|a: int, b: int|
            0 <= a < b < self.packages@.len() && #[trigger] self.reached(
                facts,
                extras,
                dev,
                roots,
                a,
            ) && #[trigger] self.reached(facts, extras, dev, roots, b) ==> self.packages@[a].name@
                != self.packages@[b].name@
    }

    /// What building a resolution gives for the selection that starts from
    /// the packages `names`, on a runtime described by `facts` that accepts
    /// `tags`, with the extras `extras` asked for and development
    /// dependencies wanted or not, as `dev` says.
    ///
    /// A lock with an edge that leads outside it is refused first; then the
    /// first of `names` that the lock lacks; then a selection that reaches
    /// two packages of one name; then the first reached package, in the
    /// lock's order, without a distribution. Otherwise the resolution holds
    /// the distribution of every reached package and nothing else.
    pub open spec fn resolution(
        &self,
        names: Seq<Seq<char>>,
        facts: Seq<FactView>,
        tags: Seq<Seq<char>>,
        extras: Seq<Seq<char>>,
        dev: bool,
    ) -> Result<Seq<DistributionView>, ResolveErrorView> {
        let roots = self.root_positions(names);
        if !self.edges_in_range() {
            Err(ResolveErrorView::InconsistentLock)
        } else if !self.roots_found(names) {
            Err(ResolveErrorView::MissingRoot(names[choose|j: int| self.first_missing(names, j)]))
        } else if !self.reached_distinct(facts, extras, dev, roots) {
            Err(ResolveErrorView::InconsistentLock)
        } else if !self.all_usable(facts, extras, dev, roots, tags) {
            Err(
                ResolveErrorView::NoCompatibleArtifact(
                    self.packages@[choose|i: int|
                        self.first_unusable(facts, extras, dev, roots, tags, i)].name@,
                ),
            )
        } else {
            Ok(self.picked(facts, extras, dev, roots, tags, self.packages@.len() as int))
        }
    }

    /// Tells whether no two packages that `marks` marks share a name.
    fn marked_distinct(&self, marks: &Vec<bool>) -> (yes: bool)
        requires
            marks@.len() == self.packages@.len(),
        ensures
            yes == forall|a: int, b: int|
                0 <= a < b < self.packages@.len() && #[trigger] marks@[a] && #[trigger] marks@[b]
                    ==> self.packages@[a].name@ != self.packages@[b].name@,
    {
        let n = self.packages.len();
        let mut a: usize = 0;
        while a < n
            invariant
                a <= n,
                n == self.packages@.len(),
                marks@.len() == n,
                forall|x: int, y: int|
                    0 <= x < y < n && x < a && #[trigger] marks@[x] && #[trigger] marks@[y]
                        ==> self.packages@[x].name@ != self.packages@[y].name@,
            decreases n - a,
        {
            if marks[a] {
                let mut b: usize = a + 1;
                while b < n
                    invariant
                        a < b <= n,
                        n == self.packages@.len(),
                        marks@.len() == n,
                        marks@[a as int],
                        forall|y: int|
                            a < y < b && #[trigger] marks@[y] ==> self.packages@[a as int].name@
                                != self.packages@[y].name@,
                    decreases n - b,
                {
                    if marks[b] && self.packages[b].name == self.packages[a].name {
                        assert(marks@[a as int] && marks@[b as int]);
                        return false;
                    }
                    b = b + 1;
                }
            }
            a = a + 1;
        }
        true
    }

    /// No more than one name is the first that the lock lacks.
    pub proof fn lemma_first_missing_unique(&self, names: Seq<Seq<char>>, a: int, b: int)
        requires
            self.first_missing(names, a),
            self.first_missing(names, b),
        ensures
            a == b,
    {
        if a < b {
            assert(self.position(names[a]) is Some);
        }
        if b < a {
            assert(self.position(names[b]) is Some);
        }
    }

    /// No more than one package is the first reached one without a
    /// distribution.
    pub proof fn lemma_first_unusable_unique(
        &self,
        facts: Seq<FactView>,
        extras: Seq<Seq<char>>,
        dev: bool,
        roots: Seq<usize>,
        tags: Seq<Seq<char>>,
        a: int,
        b: int,
    )
        requires
            self.first_unusable(facts, extras, dev, roots, tags, a),
            self.first_unusable(facts, extras, dev, roots, tags, b),
        ensures
            a == b,
    {
        if a < b {
            assert(self.usable(facts, extras, dev, roots, tags, a));
        }
        if b < a {
            assert(self.usable(facts, extras, dev, roots, tags, b));
        }
    }

    /// The positions of the packages named `names`, or the first name that
    /// the lock has no package for.
    pub fn locate(&self, names: &Vec<String>) -> (out: Result<Vec<usize>, String>)
        ensures
            match out {
                Ok(at) => self.roots_found(views(names@)) && at@ == self.root_positions(
                    views(names@),
                ),
                Err(name) => exists|j: int| #[trigger]
                    self.first_missing(views(names@), j) && views(names@)[j] == name@,
            },
    {
        let mut at: Vec<usize> = Vec::new();
        let mut j: usize = 0;
        while j < names.len()
            invariant
                j <= names.len(),
                at@.len() == j,
                forall|i: int| 0 <= i < j ==> self.position(#[trigger] views(names@)[i]) is Some,
                forall|i: int|
                    0 <= i < j ==> #[trigger] at@[i] == self.position(views(names@)[i]).unwrap(),
            decreases names.len() - j,
        {
            match self.find(&names[j]) {
                Some(i) => {
                    assert(views(names@)[j as int] == names@[j as int]@);
                    at.push(i);
                },
                None => {
                    assert(views(names@)[j as int] == names@[j as int]@);
                    assert(self.first_missing(views(names@), j as int));
                    return Err(names[j].clone());
                },
            }
            j = j + 1;
        }
        assert(at@ =~= self.root_positions(views(names@)));
        Ok(at)
    }

    /// Builds the resolution for the selection that starts from the packages
    /// `roots`, on the runtime that `env` describes and that accepts `tags`,
    /// with the extras `extras` and, where `dev` is set, the development
    /// dependencies.
    pub fn to_resolution(
        &self,
        roots: &Vec<String>,
        env: &MarkerEnvironment,
        tags: &Vec<String>,
        extras: &Vec<String>,
        dev: bool,
    ) -> (out: Result<Resolution, ResolveError>)
        ensures
            built_view(out) == self.resolution(
                views(roots@),
                env@,
                views(tags@),
                views(extras@),
                dev,
            ),
            out matches Ok(resolution) ==> resolution.well_formed(),
    {
        if !self.edges_sound() {
            return Err(ResolveError::InconsistentLock);
        }
        let at = match self.locate(roots) {
            Ok(at) => at,
            Err(name) => {
                proof {
                    let names = views(roots@);
                    let j = choose|j: int| #[trigger]
                        self.first_missing(names, j) && names[j] == name@;
                    assert(self.position(names[j]) is None);
                    let k = choose|k: int| self.first_missing(names, k);
                    self.lemma_first_missing_unique(names, j, k);
                }
                return Err(ResolveError::MissingRoot(name));
            },
        };
        assert forall|j: int| 0 <= j < at@.len() implies #[trigger] at@[j] < self.packages@.len() by {
            self.lemma_position_in_range(views(roots@)[j], 0);
        }
        let marks = self.reach(env, extras, dev, &at);
        let ghost facts = env@;
        let ghost asked = views(extras@);
        if !self.marked_distinct(&marks) {
            return Err(ResolveError::InconsistentLock);
        }
        assert forall|a: int, b: int|
            0 <= a < b < self.packages@.len() && #[trigger] self.reached(
                facts,
                asked,
                dev,
                at@,
                a,
            ) && #[trigger] self.reached(facts, asked, dev, at@, b) implies self.packages@[a].name@
            != self.packages@[b].name@ by {
            assert(marks@[a] && marks@[b]);
        }
        let ghost accepted = views(tags@);
        let mut entries: Vec<Distribution> = Vec::new();
        let mut i: usize = 0;
        while i < self.packages.len()
            invariant
                i <= self.packages.len(),
                marks@.len() == self.packages@.len(),
                accepted == views(tags@),
                facts == env@,
                asked == views(extras@),
                self.edges_in_range(),
                self.reached_distinct(facts, asked, dev, at@),
                self.roots_found(views(roots@)),
                at@ == self.root_positions(views(roots@)),
                forall|x: int|
                    0 <= x < marks@.len() ==> marks@[x] == self.reached(facts, asked, dev, at@, x),
                forall|x: int| 0 <= x < i ==> #[trigger] self.usable(facts, asked, dev, at@, accepted, x),
                (Resolution { entries })@ == self.picked(facts, asked, dev, at@, accepted, i as int),
            decreases self.packages.len() - i,
        {
            if marks[i] {
                match self.packages[i].select(tags) {
                    Some(dist) => {
                        let ghost before = (Resolution { entries })@;
                        entries.push(dist);
                        assert((Resolution { entries })@ =~= before.push(dist@));
                    },
                    None => {
                        proof {
                            assert(self.first_unusable(facts, asked, dev, at@, accepted, i as int));
                            assert(!self.usable(facts, asked, dev, at@, accepted, i as int));
                            let k = choose|k: int|
                                self.first_unusable(facts, asked, dev, at@, accepted, k);
                            self.lemma_first_unusable_unique(facts, asked, dev, at@, accepted, k, i as int);
                        }
                        return Err(
                            ResolveError::NoCompatibleArtifact(self.packages[i].name.clone()),
                        );
                    },
                }
            }
            i = i + 1;
        }
        proof {
            self.lemma_built_unique(facts, asked, dev, at@, accepted, self.packages@.len() as int);
        }
        Ok(Resolution { entries })
    }

    /// What is built from the first `upto` packages of the lock bears the
    /// name of one of them that is reached.
    pub proof fn lemma_built_from_reached(
        &self,
        facts: Seq<FactView>,
        extras: Seq<Seq<char>>,
        dev: bool,
        roots: Seq<usize>,
        tags: Seq<Seq<char>>,
        upto: int,
        name: Seq<char>,
    )
        requires
            upto <= self.packages@.len(),
            names(self.picked(facts, extras, dev, roots, tags, upto), name),
        ensures
            exists|k: int|
                0 <= k < upto && #[trigger] self.reached(facts, extras, dev, roots, k)
                    && self.packages@[k].name@ == name,
        decreases upto,
    {
        if upto > 0 {
            let all = self.picked(facts, extras, dev, roots, tags, upto);
            let front = self.picked(facts, extras, dev, roots, tags, upto - 1);
            let i = choose|i: int| 0 <= i < all.len() && (#[trigger] all[i]).name == name;
            if i < front.len() {
                assert(front[i].name == name);
                self.lemma_built_from_reached(facts, extras, dev, roots, tags, upto - 1, name);
            } else {
                assert(self.reached(facts, extras, dev, roots, upto - 1));
                assert(self.packages@[upto - 1].name@ == name);
            }
        }
    }

    /// Where the selection reaches no two packages of one name, what is
    /// built maps a name to one distribution.
    pub proof fn lemma_built_unique(
        &self,
        facts: Seq<FactView>,
        extras: Seq<Seq<char>>,
        dev: bool,
        roots: Seq<usize>,
        tags: Seq<Seq<char>>,
        upto: int,
    )
        requires
            self.reached_distinct(facts, extras, dev, roots),
            upto <= self.packages@.len(),
        ensures
            unique(self.picked(facts, extras, dev, roots, tags, upto)),
        decreases upto,
    {
        if upto > 0 {
            self.lemma_built_unique(facts, extras, dev, roots, tags, upto - 1);
            let all = self.picked(facts, extras, dev, roots, tags, upto);
            let front = self.picked(facts, extras, dev, roots, tags, upto - 1);
            assert forall|i: int, j: int| 0 <= i < j < all.len() implies (#[trigger] all[i]).name != (
            #[trigger] all[j]).name by {
                if j < front.len() {
                    assert(front[i].name != front[j].name);
                } else {
                    assert(front[i].name == all[i].name);
                    if all[i].name == all[j].name {
                        self.lemma_built_from_reached(
                            facts,
                            extras,
                            dev,
                            roots,
                            tags,
                            upto - 1,
                            all[i].name,
                        );
                        let k = choose|k: int|
                            0 <= k < upto - 1 && #[trigger] self.reached(facts, extras, dev, roots, k)
                                && self.packages@[k].name@ == all[i].name;
                        assert(self.reached(facts, extras, dev, roots, upto - 1));
                        assert(self.packages@[k].name@ != self.packages@[upto - 1].name@);
                    }
                }
            }
        }
    }

    /// A position that the lock gives for a name is one of its packages, and
    /// that package bears the name.
    pub proof fn lemma_position_in_range(&self, name: Seq<char>, from: int)
        requires
            0 <= from,
        ensures
            match self.position_from(name, from) {
                Some(at) => from <= at < self.packages@.len() && self.packages@[at].name@ == name,
                None => true,
            },
        decreases self.packages@.len() - from,
    {
        if from < self.packages@.len() && self.packages@[from].name@ != name {
            self.lemma_position_in_range(name, from + 1);
        }
    }
}

} // verus!
