//! What holds of every sync.

use crate::error::InstallFaultView;
use crate::error::SyncErrorView;
use crate::filter::virtual_filtered;
use crate::filter::InstallOptions;
use crate::lock::Lock;
use crate::lock::Edge;
use crate::marker::FactView;
use crate::policy::all_pinned;
use crate::policy::first_unpinned;
use crate::policy::hash_policy_for;
use crate::resolution::lemma_without_names;
use crate::resolution::lemma_without_keeps_unique;
use crate::resolution::names;
use crate::resolution::unique;
use crate::resolution::without;
use crate::resolution::DistributionView;
use crate::sync::narrowed;
use crate::sync::InstallPlanView;
use crate::sync::SyncRequest;
use crate::sync::SyncStateView;
use crate::text::views;
use crate::validate::interpreter_ok;
use crate::workspace::WorkspaceUnit;
use vstd::prelude::*;

verus! {

/// A sync fails for the interpreter exactly where the lock requires a range
/// of versions and the interpreter's version is outside it; the failure
/// then carries that version and that range.
pub proof fn law_interpreter_incompatibility(request: &SyncRequest)
    ensures
        request.outcome() matches Err(SyncErrorView::LockedInterpreterIncompatibility(_, _))
            <==> !interpreter_ok(request.lock, request.runtime.version@),
        !interpreter_ok(request.lock, request.runtime.version@) ==> request.outcome() == Err::<
            InstallPlanView,
            SyncErrorView,
        >(
            SyncErrorView::LockedInterpreterIncompatibility(
                request.runtime.version@,
                request.lock.requires.unwrap()@,
            ),
        ),
{
}

/// Where the interpreter's version is admitted, a sync fails for the
/// platform exactly where the lock declares environments and none of them
/// holds of the runtime.
pub proof fn law_platform_incompatibility(request: &SyncRequest)
    requires
        interpreter_ok(request.lock, request.runtime.version@),
    ensures
        request.outcome() matches Err(SyncErrorView::LockedPlatformIncompatibility(_)) <==> (
        request.lock.environments@.len() > 0 && forall|i: int|
            0 <= i < request.lock.environments@.len() ==> !(
            #[trigger] request.lock.environments@[i]).expr.holds(request.runtime.markers@)),
{
}

/// A lock that declares no environment never fails a sync for the platform.
pub proof fn law_no_declared_environment(request: &SyncRequest)
    requires
        request.lock.environments@.len() == 0,
    ensures
        !(request.outcome() matches Err(SyncErrorView::LockedPlatformIncompatibility(_))),
{
}

/// Removing two sets of names one after the other removes their union.
pub proof fn law_without_twice(
    entries: Seq<DistributionView>,
    first: Set<Seq<char>>,
    second: Set<Seq<char>>,
)
    ensures
        without(without(entries, first), second) == without(entries, first.union(second)),
    decreases entries.len(),
{
    if entries.len() > 0 {
        law_without_twice(entries.drop_last(), first, second);
        let last = entries.last();
        if !first.contains(last.name) {
            let kept = without(entries.drop_last(), first);
            assert(kept.push(last).drop_last() =~= kept);
        }
    }
}

/// The two filters of a sync do not depend on each other: in either order
/// they leave the same distributions.
pub proof fn law_filters_commute(
    entries: Seq<DistributionView>,
    first: Set<Seq<char>>,
    second: Set<Seq<char>>,
)
    ensures
        without(without(entries, first), second) == without(without(entries, second), first),
{
    law_without_twice(entries, first, second);
    law_without_twice(entries, second, first);
    assert(first.union(second) =~= second.union(first));
}

/// A virtual member of a project's workspace is never among what a sync
/// installs, whatever the install options say.
pub proof fn law_virtual_member_left_out(
    entries: Seq<DistributionView>,
    project: &WorkspaceUnit,
    options: &InstallOptions,
    member: Seq<char>,
)
    requires
        project is Project,
        project.members().virtual_names().contains(member),
    ensures
        !names(narrowed(entries, project, options), member),
{
    lemma_without_names(entries, project.members().virtual_names(), member);
    lemma_without_names(virtual_filtered(entries, project), options.banned(project), member);
}

/// What a sync installs is what the resolution holds under a name that is
/// neither a virtual member's nor left out by the install options. The
/// options alone keep a virtual member that they do not name.
pub proof fn law_filters_in_order(
    entries: Seq<DistributionView>,
    project: &WorkspaceUnit,
    options: &InstallOptions,
    name: Seq<char>,
)
    requires
        project is Project,
    ensures
        names(narrowed(entries, project, options), name) <==> names(entries, name)
            && !project.members().virtual_names().contains(name) && !options.banned(
            project,
        ).contains(name),
        names(without(entries, options.banned(project)), name) <==> names(entries, name)
            && !options.banned(project).contains(name),
{
    lemma_without_names(entries, project.members().virtual_names(), name);
    lemma_without_names(virtual_filtered(entries, project), options.banned(project), name);
    lemma_without_names(entries, options.banned(project), name);
}

/// Where a sync hands a plan to the installer, no virtual member of the
/// project's workspace is in it.
pub proof fn law_plan_has_no_virtual_member(request: &SyncRequest, member: Seq<char>)
    requires
        request.project is Project,
        request.project.members().virtual_names().contains(member),
        request.outcome() is Ok,
    ensures
        !names(request.outcome()->Ok_0.resolution, member),
{
    let raw = request.built()->Ok_0;
    law_virtual_member_left_out(raw, request.project, request.install_options, member);
}

/// Two syncs of one request end alike: with the same distributions, names,
/// versions, sources and hashes, or with the same failure.
pub proof fn law_sync_repeatable(
    request: &SyncRequest,
    first: Result<InstallPlanView, SyncErrorView>,
    second: Result<InstallPlanView, SyncErrorView>,
)
    requires
        first == request.outcome(),
        second == request.outcome(),
    ensures
        first == second,
{
}

/// A distribution without a hash stops the sync before the installer: the
/// state that selects the policies is followed by a failure, which names the
/// first such distribution.
pub proof fn law_missing_hash_stops_sync(
    request: &SyncRequest,
    entries: Seq<DistributionView>,
    at: int,
)
    requires
        0 <= at < entries.len(),
        entries[at].hash is None,
    ensures
        SyncStateView::PolicySelecting(entries).next(request) matches SyncStateView::Failed(
            SyncErrorView::InstallOrBuildFailure(InstallFaultView::MissingHash(name)),
        ) && exists|first: int| first_unpinned(entries, first) && entries[first].name == name,
{
    assert(!all_pinned(entries));
    lemma_some_first_unpinned(entries, at);
}

/// Where an entry has no hash, some entry is the first without one.
pub proof fn lemma_some_first_unpinned(entries: Seq<DistributionView>, at: int)
    requires
        0 <= at < entries.len(),
        entries[at].hash is None,
    ensures
        exists|first: int| first_unpinned(entries, first),
    decreases at,
{
    if exists|i: int| 0 <= i < at && (#[trigger] entries[i]).hash is None {
        let i = choose|i: int| 0 <= i < at && (#[trigger] entries[i]).hash is None;
        lemma_some_first_unpinned(entries, i);
    } else {
        assert(first_unpinned(entries, at));
    }
}

/// Every distribution of a plan that reaches the installer has a hash, and
/// the plan pins each to it.
pub proof fn law_plan_is_pinned(request: &SyncRequest)
    requires
        request.outcome() is Ok,
    ensures
        all_pinned(request.outcome()->Ok_0.resolution),
        hash_policy_for(request.outcome()->Ok_0.resolution) == Ok::<
            crate::policy::HashPolicyView,
            Seq<char>,
        >(request.outcome()->Ok_0.hasher),
{
}

/// The states of a sync are passed in one line: the work of a state leads
/// to a later one, and a state that waits for the installer, or an end
/// state, is left alone.
pub proof fn law_states_in_line(state: SyncStateView, request: &SyncRequest)
    ensures
        state.working() ==> state.next(request).rank() > state.rank(),
        !state.working() ==> state.next(request) == state,
{
}

/// Only a sync that waits for the installer is moved by its answer, and
/// then to an end state.
pub proof fn law_installer_ends_sync(state: SyncStateView, result: Result<(), Seq<char>>)
    ensures
        state is Dispatching ==> state.settled(result).rank() == 5,
        !(state is Dispatching) ==> state.settled(result) == state,
{
}

/// Four steps take a sync from its first state to the installer, or to a
/// failure: with the plan, or the failure, that `outcome` states.
pub proof fn law_four_steps(request: &SyncRequest)
    ensures
        SyncStateView::Validating.next(request).next(request).next(request).next(request)
            == match request.outcome() {
            Ok(plan) => SyncStateView::Dispatching(plan),
            Err(error) => SyncStateView::Failed(error),
        },
{
}

/// A package of a lock is found under its name.
pub proof fn lemma_named_is_found(lock: &Lock, at: int, from: int)
    requires
        0 <= from <= at < lock.packages@.len(),
    ensures
        lock.position_from(lock.packages@[at].name@, from) is Some,
    decreases at - from,
{
    if lock.packages@[from].name@ != lock.packages@[at].name@ {
        lemma_named_is_found(lock, at, from + 1);
    }
}

/// Every distribution that a sync hands to the installer bears the name of
/// a package of the lock that the selection reaches.
pub proof fn law_plan_within_lock(request: &SyncRequest, name: Seq<char>)
    requires
        request.outcome() is Ok,
        names(request.outcome()->Ok_0.resolution, name),
    ensures
        request.lock.position(name) is Some,
        exists|k: int|
            0 <= k < request.lock.packages@.len() && #[trigger] request.lock.reached(
                request.runtime.markers@,
                views(request.extras@),
                request.dev,
                request.lock.root_positions(request.project.root_names()),
                k,
            ) && request.lock.packages@[k].name@ == name,
{
    let lock = request.lock;
    let facts = request.runtime.markers@;
    let extras = views(request.extras@);
    let roots = lock.root_positions(request.project.root_names());
    let raw = request.built()->Ok_0;
    lemma_without_names(
        virtual_filtered(raw, request.project),
        request.install_options.banned(request.project),
        name,
    );
    match request.project {
        WorkspaceUnit::Project { workspace, .. } => {
            lemma_without_names(raw, workspace.virtual_names(), name);
        },
        WorkspaceUnit::Virtual { .. } => {},
    }
    lock.lemma_built_from_reached(
        facts,
        extras,
        request.dev,
        roots,
        views(request.runtime.tags@),
        lock.packages@.len() as int,
        name,
    );
    let k = choose|k: int|
        0 <= k < lock.packages@.len() && #[trigger] lock.reached(
            facts,
            extras,
            request.dev,
            roots,
            k,
        ) && lock.packages@[k].name@ == name;
    lemma_named_is_found(lock, k, 0);
}

/// What a sync hands to the installer maps each name to one distribution.
pub proof fn law_plan_names_distinct(request: &SyncRequest)
    requires
        request.outcome() is Ok,
    ensures
        unique(request.outcome()->Ok_0.resolution),
{
    let raw = request.built()->Ok_0;
    request.lock.lemma_built_unique(
        request.runtime.markers@,
        views(request.extras@),
        request.dev,
        request.lock.root_positions(request.project.root_names()),
        views(request.runtime.tags@),
        request.lock.packages@.len() as int,
    );
    match request.project {
        WorkspaceUnit::Project { workspace, .. } => {
            lemma_without_keeps_unique(raw, workspace.virtual_names());
        },
        WorkspaceUnit::Virtual { .. } => {},
    }
    lemma_without_keeps_unique(
        virtual_filtered(raw, request.project),
        request.install_options.banned(request.project),
    );
}

/// A development edge is not followed where development dependencies are
/// not wanted, whatever extras are asked for and whatever their names.
pub proof fn law_development_edge_closed(edge: Edge, facts: Seq<FactView>, extras: Seq<Seq<char>>)
    requires
        edge.gate is Development,
    ensures
        !edge.followed(facts, extras, false),
        edge.followed(facts, extras, true) == edge.marker.holds(facts),
{
}

/// Whether every way to the package at `node` takes a development edge:
/// each route that is open where development dependencies are wanted has a
/// hop that is closed where they are not.
pub open spec fn development_only(
    lock: &Lock,
    facts: Seq<FactView>,
    extras: Seq<Seq<char>>,
    roots: Seq<usize>,
    node: int,
) -> bool {
    forall|route: Seq<int>| #[trigger]
        lock.is_route(facts, extras, true, roots, route) && route.last() == node ==> exists|
            i: int,
        |
            0 <= i < route.len() - 1 && !#[trigger] lock.hop(facts, extras, false, route, i)
}

/// What is followed without development dependencies is followed with
/// them.
pub proof fn lemma_route_stays_open(
    lock: &Lock,
    facts: Seq<FactView>,
    extras: Seq<Seq<char>>,
    roots: Seq<usize>,
    route: Seq<int>,
)
    requires
        lock.is_route(facts, extras, false, roots, route),
    ensures
        lock.is_route(facts, extras, true, roots, route),
{
    assert forall|i: int| 0 <= i < route.len() - 1 implies #[trigger] lock.hop(
        facts,
        extras,
        true,
        route,
        i,
    ) by {
        assert(lock.hop(facts, extras, false, route, i));
        let a = route[i];
        let k = choose|k: int|
            0 <= k < lock.packages@[a].edges@.len() && (#[trigger] lock.edge(a, k)).followed(
                facts,
                extras,
                false,
            ) && lock.edge(a, k).target == route[i + 1];
        assert(lock.edge(a, k).followed(facts, extras, true));
    }
}

/// Without development dependencies, a package to which every way takes a
/// development edge is not reached, whatever extras are asked for.
pub proof fn law_development_only_not_reached(
    lock: &Lock,
    facts: Seq<FactView>,
    extras: Seq<Seq<char>>,
    roots: Seq<usize>,
    node: int,
)
    requires
        development_only(lock, facts, extras, roots, node),
    ensures
        !lock.reached(facts, extras, false, roots, node),
{
    if lock.reached(facts, extras, false, roots, node) {
        let route = choose|route: Seq<int>| #[trigger]
            lock.is_route(facts, extras, false, roots, route) && route.last() == node;
        lemma_route_stays_open(lock, facts, extras, roots, route);
        let i = choose|i: int|
            0 <= i < route.len() - 1 && !#[trigger] lock.hop(facts, extras, false, route, i);
        assert(lock.hop(facts, extras, false, route, i));
    }
}

/// A sync without development dependencies installs nothing under a name
/// whose packages are all reached only over development edges, whatever
/// extras are asked for.
pub proof fn law_development_only_left_out(request: &SyncRequest, name: Seq<char>)
    requires
        !request.dev,
        request.outcome() is Ok,
        forall|k: int|
            0 <= k < request.lock.packages@.len() && (#[trigger] request.lock.packages@[k]).name@
                == name ==> development_only(
                request.lock,
                request.runtime.markers@,
                views(request.extras@),
                request.lock.root_positions(request.project.root_names()),
                k,
            ),
    ensures
        !names(request.outcome()->Ok_0.resolution, name),
{
    if names(request.outcome()->Ok_0.resolution, name) {
        law_plan_within_lock(request, name);
        let lock = request.lock;
        let roots = lock.root_positions(request.project.root_names());
        let k = choose|k: int|
            0 <= k < lock.packages@.len() && #[trigger] lock.reached(
                request.runtime.markers@,
                views(request.extras@),
                request.dev,
                roots,
                k,
            ) && lock.packages@[k].name@ == name;
        assert(lock.packages@[k].name@ == name);
        law_development_only_not_reached(
            lock,
            request.runtime.markers@,
            views(request.extras@),
            roots,
            k,
        );
    }
}

} // verus!
