//! Which packages of a lock a selection reaches.

use crate::lock::Edge;
use crate::lock::Lock;
use crate::marker::FactView;
use crate::marker::MarkerEnvironment;
use crate::text::views;
use vstd::prelude::*;

verus! {

/// Whether `node` is one of `roots`.
pub open spec fn is_root(roots: Seq<usize>, node: int) -> bool {
    exists|j: int| 0 <= j < roots.len() && #[trigger] roots[j] == node
}

/// How many entries of `marks` are `false`.
pub open spec fn unmarked(marks: Seq<bool>) -> nat
    decreases marks.len(),
{
    if marks.len() == 0 {
        0
    } else {
        unmarked(marks.drop_last()) + if marks.last() {
            0nat
        } else {
            1nat
        }
    }
}

proof fn lemma_mark_one(marks: Seq<bool>, at: int)
    requires
        0 <= at < marks.len(),
        !marks[at],
    ensures
        unmarked(marks.update(at, true)) + 1 == unmarked(marks),
    decreases marks.len(),
{
    let after = marks.update(at, true);
    if at == marks.len() - 1 {
        assert(after.drop_last() =~= marks.drop_last());
    } else {
        lemma_mark_one(marks.drop_last(), at);
        assert(after.drop_last() =~= marks.drop_last().update(at, true));
    }
}

impl Lock {
    /// Edge `k` of the package at position `a`.
    pub open spec fn edge(&self, a: int, k: int) -> Edge {
        self.packages@[a].edges@[k]
    }

    /// Whether a followed edge leads from the package at `a` to the one at `b`.
    pub open spec fn arc(&self, facts: Seq<FactView>, extras: Seq<Seq<char>>,
        dev: bool, a: int, b: int) -> bool {
        &&& 0 <= a < self.packages@.len()
        &&& exists|k: int|
            0 <= k < self.packages@[a].edges@.len() && (#[trigger] self.edge(a, k)).followed(
                facts,
                extras, dev,
            ) && self.edge(a, k).target == b
    }

    /// Whether a followed edge leads from entry `i` of `route` to the next.
    pub open spec fn hop(
        &self,
        facts: Seq<FactView>,
        extras: Seq<Seq<char>>,
        dev: bool,
        route: Seq<int>,
        i: int,
    ) -> bool {
        self.arc(facts, extras, dev, route[i], route[i + 1])
    }

    /// Whether `route` starts at a root and goes on by followed edges.
    pub open spec fn is_route(
        &self,
        facts: Seq<FactView>,
        extras: Seq<Seq<char>>,
        dev: bool,
        roots: Seq<usize>,
        route: Seq<int>,
    ) -> bool {
        &&& route.len() > 0
        &&& is_root(roots, route[0])
        &&& forall|i: int| 0 <= i < route.len() - 1 ==> #[trigger] self.hop(facts, extras, dev, route, i)
    }

    /// Whether the selection reaches the package at `node`: it is a root, or
    /// followed edges lead to it from a root.
    pub open spec fn reached(
        &self,
        facts: Seq<FactView>,
        extras: Seq<Seq<char>>,
        dev: bool,
        roots: Seq<usize>,
        node: int,
    ) -> bool {
        exists|route: Seq<int>| #[trigger]
            self.is_route(facts, extras, dev, roots, route) && route.last() == node
    }

    /// A root is reached.
    pub proof fn lemma_root_reached(
        &self,
        facts: Seq<FactView>,
        extras: Seq<Seq<char>>,
        dev: bool,
        roots: Seq<usize>,
        node: int,
    )
        requires
            is_root(roots, node),
        ensures
            self.reached(facts, extras, dev, roots, node),
    {
        let route = seq![node];
        assert(self.is_route(facts, extras, dev, roots, route));
        assert(route.last() == node);
    }

    /// What a followed edge leads to from a reached package is reached.
    pub proof fn lemma_arc_reached(
        &self,
        facts: Seq<FactView>,
        extras: Seq<Seq<char>>,
        dev: bool,
        roots: Seq<usize>,
        a: int,
        b: int,
    )
        requires
            self.reached(facts, extras, dev, roots, a),
            self.arc(facts, extras, dev, a, b),
        ensures
            self.reached(facts, extras, dev, roots, b),
    {
        let route = choose|route: Seq<int>| #[trigger]
            self.is_route(facts, extras, dev, roots, route) && route.last() == a;
        let longer = route.push(b);
        assert forall|i: int| 0 <= i < longer.len() - 1 implies #[trigger] self.hop(
            facts,
            extras, dev,
            longer,
            i,
        ) by {
            if i < route.len() - 1 {
                assert(self.hop(facts, extras, dev, route, i));
            }
        }
        assert(self.is_route(facts, extras, dev, roots, longer));
        assert(longer.last() == b);
    }

    /// A set of packages that holds the roots and, with a package, all that
    /// its followed edges lead to, holds every entry of a route.
    proof fn lemma_closed_holds_route(
        &self,
        facts: Seq<FactView>,
        extras: Seq<Seq<char>>,
        dev: bool,
        roots: Seq<usize>,
        marks: Seq<bool>,
        route: Seq<int>,
        i: int,
    )
        requires
            marks.len() == self.packages@.len(),
            forall|j: int| 0 <= j < roots.len() ==> #[trigger] roots[j] < marks.len(),
            forall|r: int| is_root(roots, r) ==> 0 <= r < marks.len() && marks[r],
            forall|a: int, b: int|
                0 <= a < marks.len() && marks[a] && #[trigger] self.arc(facts, extras, dev, a, b) ==> 0
                    <= b < marks.len() && marks[b],
            self.is_route(facts, extras, dev, roots, route),
            0 <= i < route.len(),
        ensures
            0 <= route[i] < marks.len(),
            marks[route[i]],
        decreases i,
    {
        if i > 0 {
            self.lemma_closed_holds_route(facts, extras, dev, roots, marks, route, i - 1);
            assert(self.hop(facts, extras, dev, route, i - 1));
        }
    }

    /// Marks the packages that the selection reaches from `roots`.
    pub fn reach(&self, env: &MarkerEnvironment, extras: &Vec<String>, dev: bool, roots: &Vec<usize>) -> (marks:
        Vec<bool>)
        requires
            self.edges_in_range(),
            forall|j: int| 0 <= j < roots@.len() ==> #[trigger] roots@[j] < self.packages@.len(),
        ensures
            marks@.len() == self.packages@.len(),
            forall|i: int|
                0 <= i < marks@.len() ==> marks@[i] == self.reached(env@, views(extras@), dev, roots@, i),
    {
        let n = self.packages.len();
        let mut marks: Vec<bool> = Vec::new();
        while marks.len() < n
            invariant
                marks@.len() <= n,
                forall|i: int| 0 <= i < marks@.len() ==> !marks@[i],
            decreases n - marks.len(),
        {
            marks.push(false);
        }
        let mut stack: Vec<usize> = Vec::new();
        let mut r: usize = 0;
        while r < roots.len()
            invariant
                r <= roots.len(),
                n == self.packages@.len(),
                marks@.len() == n,
                forall|j: int| 0 <= j < roots@.len() ==> #[trigger] roots@[j] < n,
                forall|j: int| 0 <= j < r ==> marks@[#[trigger] roots@[j] as int],
                forall|i: int|
                    0 <= i < n && marks@[i] ==> self.reached(env@, views(extras@), dev, roots@, i)
                        && stack@.contains(i as usize),
                forall|j: int|
                    0 <= j < stack@.len() ==> #[trigger] stack@[j] < n && marks@[stack@[j] as int],
            decreases roots.len() - r,
        {
            let root = roots[r];
            if !marks[root] {
                proof {
                    assert(is_root(roots@, root as int));
                    self.lemma_root_reached(env@, views(extras@), dev, roots@, root as int);
                }
                let ghost before = stack@;
                marks.set(root, true);
                stack.push(root);
                assert forall|i: int| 0 <= i < n && marks@[i] implies stack@.contains(i as usize) by {
                    if i == root {
                        assert(stack@[stack@.len() - 1] == root);
                    } else {
                        let j = choose|j: int| 0 <= j < before.len() && before[j] == i as usize;
                        assert(stack@[j] == i as usize);
                    }
                }
            }
            r = r + 1;
        }
        while stack.len() > 0
            invariant
                n == self.packages@.len(),
                marks@.len() == n,
                self.edges_in_range(),
                forall|j: int| 0 <= j < roots@.len() ==> #[trigger] roots@[j] < n,
                forall|j: int| 0 <= j < roots@.len() ==> marks@[#[trigger] roots@[j] as int],
                forall|j: int|
                    0 <= j < stack@.len() ==> #[trigger] stack@[j] < n && marks@[stack@[j] as int],
                forall|i: int| 0 <= i < n && marks@[i] ==> self.reached(env@, views(extras@), dev, roots@, i),
                forall|a: int, b: int|
                    0 <= a < n && marks@[a] && !stack@.contains(a as usize) && #[trigger] self.arc(
                        env@,
                        views(extras@), dev,
                        a,
                        b,
                    ) ==> 0 <= b < n && marks@[b],
            decreases unmarked(marks@) + stack@.len(),
        {
            let ghost measure = unmarked(marks@) + stack@.len();
            let ghost full = stack@;
            let a = stack.pop().unwrap();
            assert(a == full[full.len() - 1]);
            assert(stack@ == full.drop_last());
            assert forall|x: usize| x != a && !(#[trigger] stack@.contains(x)) implies !full.contains(
                x,
            ) by {
                if full.contains(x) {
                    let j = choose|j: int| 0 <= j < full.len() && full[j] == x;
                    assert(stack@[j] == x);
                }
            }
            let package = &self.packages[a];
            let mut k: usize = 0;
            while k < package.edges.len()
                invariant
                    k <= package.edges.len(),
                    a < n,
                    n == self.packages@.len(),
                    marks@.len() == n,
                    self.edges_in_range(),
                    *package == self.packages@[a as int],
                    self.reached(env@, views(extras@), dev, roots@, a as int),
                    unmarked(marks@) + stack@.len() + 1 == measure,
                    forall|j: int| 0 <= j < roots@.len() ==> marks@[#[trigger] roots@[j] as int],
                    forall|j: int|
                        0 <= j < stack@.len() ==> #[trigger] stack@[j] < n && marks@[stack@[j] as int],
                    forall|j: int| 0 <= j < roots@.len() ==> #[trigger] roots@[j] < n,
                    forall|i: int|
                        0 <= i < n && marks@[i] ==> self.reached(env@, views(extras@), dev, roots@, i),
                    forall|x: int, b: int|
                        0 <= x < n && x != a && marks@[x] && !stack@.contains(x as usize)
                            && #[trigger] self.arc(env@, views(extras@), dev, x, b) ==> 0 <= b < n && marks@[b],
                    forall|j: int|
                        0 <= j < k && (#[trigger] self.edge(a as int, j)).followed(env@, views(extras@), dev)
                            ==> marks@[self.edge(a as int, j).target as int],
                decreases package.edges.len() - k,
            {
                let edge = &package.edges[k];
                assert(*edge == self.edge(a as int, k as int));
                assert(edge.target < n);
                if edge.is_followed(env, extras, dev) {
                    let b = edge.target;
                    if !marks[b] {
                        proof {
                            assert(self.arc(env@, views(extras@), dev, a as int, b as int));
                            self.lemma_arc_reached(env@, views(extras@), dev, roots@, a as int, b as int);
                            lemma_mark_one(marks@, b as int);
                        }
                        let ghost before = stack@;
                        marks.set(b, true);
                        stack.push(b);
                        assert forall|x: usize| !(#[trigger] stack@.contains(x)) implies !before.contains(
                            x,
                        ) by {
                            if before.contains(x) {
                                let j = choose|j: int| 0 <= j < before.len() && before[j] == x;
                                assert(stack@[j] == x);
                            }
                        }
                        assert(stack@.contains(b)) by {
                            assert(stack@[stack@.len() - 1] == b);
                        }
                    }
                }
                k = k + 1;
            }
            assert forall|x: int, b: int|
                0 <= x < n && marks@[x] && !stack@.contains(x as usize) && #[trigger] self.arc(
                    env@,
                    views(extras@), dev,
                    x,
                    b,
                ) implies 0 <= b < n && marks@[b] by {
                if x == a {
                    let j = choose|j: int|
                        0 <= j < self.packages@[x].edges@.len() && (#[trigger] self.edge(
                            x,
                            j,
                        )).followed(env@, views(extras@), dev) && self.edge(x, j).target == b;
                    assert(marks@[self.edge(a as int, j).target as int]);
                }
            }
        }
        proof {
            assert forall|r: int| is_root(roots@, r) implies 0 <= r < marks@.len() && marks@[r] by {
                let j = choose|j: int| 0 <= j < roots@.len() && #[trigger] roots@[j] == r;
                assert(marks@[roots@[j] as int]);
            }
            assert forall|i: int| 0 <= i < marks@.len() && self.reached(
                env@,
                views(extras@), dev,
                roots@,
                i,
            ) implies marks@[i] by {
                let route = choose|route: Seq<int>| #[trigger]
                    self.is_route(env@, views(extras@), dev, roots@, route) && route.last() == i;
                self.lemma_closed_holds_route(
                    env@,
                    views(extras@), dev,
                    roots@,
                    marks@,
                    route,
                    route.len() - 1,
                );
            }
        }
        marks
    }
}

} // verus!
