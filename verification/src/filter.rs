//! The filters that narrow a resolution: workspace topology first, then the
//! caller's install scope.

use crate::names::empty_names;
use crate::names::held_names;
use crate::names::holds_name;
use crate::names::insert_name;
use crate::resolution::lemma_without_keeps_unique;
use crate::resolution::without;
use crate::resolution::Distribution;
use crate::resolution::DistributionView;
use crate::resolution::Resolution;
use crate::text::views;
use crate::workspace::Workspace;
use crate::workspace::WorkspaceUnit;
use rustc_hash::FxHashSet;
use vstd::prelude::*;

verus! {

/// The entries of `resolution` whose name `banned` does not hold.
pub fn drop_names(resolution: &Resolution, banned: &FxHashSet<String>) -> (out: Resolution)
    ensures
        out@ == without(resolution@, held_names(*banned)),
        resolution.well_formed() ==> out.well_formed(),
{
    let mut entries: Vec<Distribution> = Vec::new();
    let mut i: usize = 0;
    while i < resolution.entries.len()
        invariant
            i <= resolution.entries.len(),
            (Resolution { entries })@ == without(
                resolution@.subrange(0, i as int),
                held_names(*banned),
            ),
        decreases resolution.entries.len() - i,
    {
        let ghost before = (Resolution { entries })@;
        assert(resolution@.subrange(0, i + 1).drop_last() =~= resolution@.subrange(0, i as int));
        assert(resolution@.subrange(0, i + 1).last() == resolution@[i as int]);
        if !holds_name(banned, &resolution.entries[i].name) {
            entries.push(resolution.entries[i].duplicate());
            assert((Resolution { entries })@ =~= before.push(resolution@[i as int]));
        }
        i = i + 1;
    }
    assert(resolution@.subrange(0, i as int) =~= resolution@);
    proof {
        if resolution.well_formed() {
            lemma_without_keeps_unique(resolution@, held_names(*banned));
        }
    }
    Resolution { entries }
}

/// `entries` without the virtual members of a project's workspace; all of
/// `entries` where the unit of work has no root package.
pub open spec fn virtual_filtered(entries: Seq<DistributionView>, project: &WorkspaceUnit) -> Seq<
    DistributionView,
> {
    match project {
        WorkspaceUnit::Project { workspace, .. } => without(entries, workspace.virtual_names()),
        WorkspaceUnit::Virtual { .. } => entries,
    }
}

/// The virtual names among the first `upto + 1` members are those among the
/// first `upto`, and the name of member `upto` where that member is virtual.
proof fn lemma_virtual_among_next(workspace: &Workspace, upto: int)
    requires
        0 <= upto < workspace.members@.len(),
    ensures
        forall|name: Seq<char>| #[trigger]
            workspace.virtual_among(upto + 1, name) <==> workspace.virtual_among(upto, name) || (
            workspace.members@[upto].name@ == name && !workspace.members@[upto].distributable()),
{
    assert forall|name: Seq<char>| #[trigger]
        workspace.virtual_among(upto + 1, name) <==> workspace.virtual_among(upto, name) || (
        workspace.members@[upto].name@ == name
            && !workspace.members@[upto].distributable()) by {
        if workspace.virtual_among(upto + 1, name) {
            let j = choose|j: int|
                0 <= j < upto + 1 && j < workspace.members@.len() && (
                #[trigger] workspace.members@[j]).name@ == name
                    && !workspace.members@[j].distributable();
            if j < upto {
                assert(workspace.virtual_among(upto, name));
            }
        }
        if workspace.virtual_among(upto, name) {
            let j = choose|j: int|
                0 <= j < upto && j < workspace.members@.len() && (
                #[trigger] workspace.members@[j]).name@ == name
                    && !workspace.members@[j].distributable();
            assert(workspace.members@[j].name@ == name);
        }
    }
}

/// Removes the virtual members of a project's workspace from a resolution.
///
/// Where the unit of work has no root package there is nothing to remove,
/// and the resolution comes back as it is.
pub fn apply_no_virtual_project(resolution: Resolution, project: &WorkspaceUnit) -> (out:
    Resolution)
    ensures
        out@ == virtual_filtered(resolution@, project),
        resolution.well_formed() ==> out.well_formed(),
{
    let workspace = match project {
        WorkspaceUnit::Project { workspace, .. } => workspace,
        WorkspaceUnit::Virtual { .. } => {
            return resolution;
        },
    };
    let mut virtual_members = empty_names();
    let mut i: usize = 0;
    while i < workspace.members.len()
        invariant
            i <= workspace.members.len(),
            held_names(virtual_members) == Set::new(
                |name: Seq<char>| workspace.virtual_among(i as int, name),
            ),
        decreases workspace.members.len() - i,
    {
        let ghost before = held_names(virtual_members);
        if !workspace.members[i].is_package() {
            insert_name(&mut virtual_members, workspace.members[i].name.clone());
        }
        proof {
            lemma_virtual_among_next(workspace, i as int);
            assert(held_names(virtual_members) =~= Set::new(
                |name: Seq<char>| workspace.virtual_among(i + 1, name),
            ));
        }
        i = i + 1;
    }
    assert(held_names(virtual_members) =~= workspace.virtual_names());
    drop_names(&resolution, &virtual_members)
}

/// Whether one of the first `upto` of `names` is `name`.
pub open spec fn listed(names: Seq<Seq<char>>, upto: int, name: Seq<char>) -> bool {
    exists|j: int| 0 <= j < upto && j < names.len() && #[trigger] names[j] == name
}

/// Whether `held` is `start` and the first `upto` of `names`.
pub open spec fn grown(
    held: Set<Seq<char>>,
    start: Set<Seq<char>>,
    names: Seq<Seq<char>>,
    upto: int,
) -> bool {
    forall|name: Seq<char>|
        #![trigger held.contains(name)]
        #![trigger listed(names, upto, name)]
        held.contains(name) <==> start.contains(name) || listed(names, upto, name)
}

/// Puts every one of `names` into `set`.
pub fn insert_names(set: &mut FxHashSet<String>, names: &Vec<String>)
    ensures
        held_names(*final(set)) == held_names(*old(set)).union(views(names@).to_set()),
{
    let ghost start = held_names(*set);
    let mut i: usize = 0;
    while i < names.len()
        invariant
            i <= names.len(),
            grown(held_names(*set), start, views(names@), i as int),
        decreases names.len() - i,
    {
        insert_name(set, names[i].clone());
        i = i + 1;
        let ghost now = held_names(*set);
        let ghost all = views(names@);
        assert forall|name: Seq<char>|
            #![trigger now.contains(name)]
            #![trigger listed(all, i as int, name)]
            now.contains(name) <==> start.contains(name) || listed(all, i as int, name) by {
            assert(all[i - 1] == names@[i - 1]@);
            if listed(all, i as int, name) {
                let j = choose|j: int| 0 <= j < i && j < all.len() && #[trigger] all[j] == name;
                if j < i - 1 {
                    assert(listed(all, i - 1, name));
                }
            }
            if listed(all, i - 1, name) {
                let j = choose|j: int| 0 <= j < i - 1 && j < all.len() && #[trigger] all[j] == name;
                assert(all[j] == name);
            }
        }
    }
    assert forall|name: Seq<char>|
        held_names(*set).contains(name) == start.union(views(names@).to_set()).contains(name) by {
        let all = views(names@);
        if all.contains(name) {
            let j = choose|j: int| 0 <= j < all.len() && all[j] == name;
            assert(all[j] == name);
            assert(listed(all, i as int, name));
        }
        if listed(all, i as int, name) {
            let j = choose|j: int| 0 <= j < i && j < all.len() && #[trigger] all[j] == name;
            assert(all.contains(name));
        }
    }
    assert(held_names(*set) =~= start.union(views(names@).to_set()));
}

/// Which distributions of a resolution the caller does not want installed.
#[derive(Debug, PartialEq, Eq)]
pub struct InstallOptions {
    /// Leave out the root package of the project.
    pub no_install_project: bool,
    /// Leave out every member of the workspace.
    pub no_install_workspace: bool,
    /// Leave out these packages.
    pub no_install_package: Vec<String>,
}

impl InstallOptions {
    /// The names that the options leave out for the unit of work `project`.
    pub open spec fn banned(&self, project: &WorkspaceUnit) -> Set<Seq<char>> {
        let own: Set<Seq<char>> = match project {
            WorkspaceUnit::Project { root, .. } => if self.no_install_project {
                set![root@]
            } else {
                Set::empty()
            },
            WorkspaceUnit::Virtual { .. } => Set::empty(),
        };
        let members: Set<Seq<char>> = if self.no_install_workspace {
            project.members().member_names()
        } else {
            Set::empty()
        };
        own.union(members).union(views(self.no_install_package@).to_set())
    }

    /// The options that leave nothing out.
    pub fn everything() -> (options: InstallOptions)
        ensures
            !options.no_install_project,
            !options.no_install_workspace,
            options.no_install_package@.len() == 0,
    {
        InstallOptions {
            no_install_project: false,
            no_install_workspace: false,
            no_install_package: Vec::new(),
        }
    }

    /// Removes from a resolution what the options leave out.
    pub fn filter_resolution(&self, resolution: Resolution, project: &WorkspaceUnit) -> (out:
        Resolution)
        ensures
            out@ == without(resolution@, self.banned(project)),
            resolution.well_formed() ==> out.well_formed(),
    {
        let mut banned = empty_names();
        if self.no_install_project {
            match project {
                WorkspaceUnit::Project { root, .. } => {
                    insert_name(&mut banned, root.clone());
                },
                WorkspaceUnit::Virtual { .. } => {},
            }
        }
        if self.no_install_workspace {
            let members = project.workspace().names();
            insert_names(&mut banned, &members);
        }
        insert_names(&mut banned, &self.no_install_package);
        assert(held_names(banned) =~= self.banned(project));
        drop_names(&resolution, &banned)
    }
}

} // verus!
