//! The workspace: its members, and the unit of work that a sync serves.

use crate::text::views;
use vstd::prelude::*;

verus! {

/// One member of a workspace.
#[derive(Debug, PartialEq, Eq)]
pub struct Member {
    pub name: String,
    /// Whether the member declares itself to be a package.
    pub package: bool,
    /// Whether the member has a build system.
    pub build_system: bool,
}

impl Member {
    /// Whether the member can be built and installed. A member that cannot
    /// is virtual.
    pub open spec fn distributable(&self) -> bool {
        self.package || self.build_system
    }

    /// Whether the member can be built and installed.
    pub fn is_package(&self) -> (yes: bool)
        ensures
            yes == self.distributable(),
    {
        self.package || self.build_system
    }
}

/// The members of a workspace.
///
/// A workspace maps a name to one member: it is well formed where no two of
/// its members bear one name.
#[derive(Debug, PartialEq, Eq)]
pub struct Workspace {
    pub members: Vec<Member>,
}

impl Workspace {
    /// Whether the workspace maps a name to one member.
    pub open spec fn well_formed(&self) -> bool {
        forall|i: int, j: int|
            0 <= i < j < self.members@.len() ==> (#[trigger] self.members@[i]).name@ != (
            #[trigger] self.members@[j]).name@
    }

    /// The workspace with the given members; `None` where two of them bear
    /// one name.
    pub fn new(members: Vec<Member>) -> (out: Option<Workspace>)
        ensures
            match out {
                Some(workspace) => workspace.members@ == members@ && workspace.well_formed(),
                None => !(Workspace { members }).well_formed(),
            },
    {
        let workspace = Workspace { members };
        if workspace.is_well_formed() {
            Some(workspace)
        } else {
            None
        }
    }

    /// Tells whether the workspace maps a name to one member.
    pub fn is_well_formed(&self) -> (yes: bool)
        ensures
            yes == self.well_formed(),
    {
        let n = self.members.len();
        let mut a: usize = 0;
        while a < n
            invariant
                a <= n,
                n == self.members@.len(),
                forall|x: int, y: int|
                    0 <= x < y < n && x < a ==> (#[trigger] self.members@[x]).name@ != (
                    #[trigger] self.members@[y]).name@,
            decreases n - a,
        {
            let mut b: usize = a + 1;
            while b < n
                invariant
                    a < b <= n,
                    n == self.members@.len(),
                    forall|y: int|
                        a < y < b ==> self.members@[a as int].name@ != (
                        #[trigger] self.members@[y]).name@,
                decreases n - b,
            {
                if self.members[b].name == self.members[a].name {
                    assert(self.members@[a as int].name@ == self.members@[b as int].name@);
                    return false;
                }
                b = b + 1;
            }
            a = a + 1;
        }
        true
    }

    /// In a well-formed workspace a member's name is among the virtual names
    /// exactly where that member is virtual.
    pub proof fn lemma_virtual_is_the_member(&self, at: int)
        requires
            self.well_formed(),
            0 <= at < self.members@.len(),
        ensures
            self.virtual_names().contains(self.members@[at].name@)
                <==> !self.members@[at].distributable(),
    {
        let name = self.members@[at].name@;
        if self.virtual_names().contains(name) {
            let i = choose|i: int|
                0 <= i < self.members@.len() && i < self.members@.len() && (
                #[trigger] self.members@[i]).name@ == name && !self.members@[i].distributable();
            if i < at {
                assert(self.members@[i].name@ != self.members@[at].name@);
            }
            if at < i {
                assert(self.members@[at].name@ != self.members@[i].name@);
            }
        }
        if !self.members@[at].distributable() {
            assert(self.virtual_among(self.members@.len() as int, name));
        }
    }

    /// Whether one of the first `upto` members is virtual and named `name`.
    pub open spec fn virtual_among(&self, upto: int, name: Seq<char>) -> bool {
        exists|i: int|
            0 <= i < upto && i < self.members@.len() && (#[trigger] self.members@[i]).name@ == name
                && !self.members@[i].distributable()
    }

    /// The names of the virtual members. Where the workspace is not well
    /// formed, a name is among them as soon as one member of that name is
    /// virtual.
    pub open spec fn virtual_names(&self) -> Set<Seq<char>> {
        Set::new(|name: Seq<char>| self.virtual_among(self.members@.len() as int, name))
    }

    /// The names of all members, in order.
    pub open spec fn names_in_order(&self) -> Seq<Seq<char>> {
        Seq::new(self.members@.len(), |i: int| self.members@[i].name@)
    }

    /// The names of all members.
    pub open spec fn member_names(&self) -> Set<Seq<char>> {
        self.names_in_order().to_set()
    }

    /// Whether the workspace has a member named `name`.
    pub fn has_member(&self, name: &String) -> (found: bool)
        ensures
            found == self.member_names().contains(name@),
    {
        let mut i: usize = 0;
        while i < self.members.len()
            invariant
                i <= self.members.len(),
                forall|j: int| 0 <= j < i ==> (#[trigger] self.names_in_order()[j]) != name@,
            decreases self.members.len() - i,
        {
            if self.members[i].name == *name {
                assert(self.names_in_order()[i as int] == name@);
                return true;
            }
            i = i + 1;
        }
        false
    }

    /// The names of all members, in order.
    pub fn names(&self) -> (names: Vec<String>)
        ensures
            views(names@) == self.names_in_order(),
    {
        let mut names: Vec<String> = Vec::new();
        let mut i: usize = 0;
        while i < self.members.len()
            invariant
                i <= self.members.len(),
                names@.len() == i,
                forall|j: int| 0 <= j < i ==> (#[trigger] names@[j])@ == self.members@[j].name@,
            decreases self.members.len() - i,
        {
            names.push(self.members[i].name.clone());
            i = i + 1;
        }
        assert(views(names@) =~= self.names_in_order());
        names
    }
}

/// What a sync works on: a project, which has a root package, or a workspace
/// taken as a whole, which has none.
#[derive(Debug, PartialEq, Eq)]
pub enum WorkspaceUnit {
    Project { root: String, workspace: Workspace },
    Virtual { workspace: Workspace },
}

impl WorkspaceUnit {
    /// Whether the workspace of the unit is well formed.
    pub open spec fn well_formed(&self) -> bool {
        self.members().well_formed()
    }

    /// The workspace of the unit.
    pub open spec fn members(&self) -> Workspace {
        match self {
            WorkspaceUnit::Project { workspace, .. } => *workspace,
            WorkspaceUnit::Virtual { workspace } => *workspace,
        }
    }

    /// The workspace of the unit.
    pub fn workspace(&self) -> (workspace: &Workspace)
        ensures
            *workspace == self.members(),
    {
        match self {
            WorkspaceUnit::Project { workspace, .. } => workspace,
            WorkspaceUnit::Virtual { workspace } => workspace,
        }
    }

    /// The names that a selection starts from: the root of a project, or
    /// every member where there is no root.
    pub open spec fn root_names(&self) -> Seq<Seq<char>> {
        match self {
            WorkspaceUnit::Project { root, .. } => seq![root@],
            WorkspaceUnit::Virtual { workspace } => workspace.names_in_order(),
        }
    }

    /// The names that a selection starts from.
    pub fn packages(&self) -> (names: Vec<String>)
        ensures
            views(names@) == self.root_names(),
    {
        match self {
            WorkspaceUnit::Project { root, .. } => {
                let mut names: Vec<String> = Vec::new();
                names.push(root.clone());
                assert(views(names@) =~= self.root_names());
                names
            },
            WorkspaceUnit::Virtual { workspace } => workspace.names(),
        }
    }
}

} // verus!
