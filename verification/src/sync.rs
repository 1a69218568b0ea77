//! The sync itself: a lock and a runtime in, an install plan or a failure
//! out, by way of a machine whose states are passed one after the other.

use crate::error::InstallFault;
use crate::error::InstallFaultView;
use crate::error::SyncError;
use crate::error::SyncErrorView;
use crate::filter::apply_no_virtual_project;
use crate::filter::virtual_filtered;
use crate::filter::InstallOptions;
use crate::lock::Lock;
use crate::policy::hash_policy_for;
use crate::policy::isolation_for;
use crate::policy::BuildIsolation;
use crate::policy::BuildIsolationView;
use crate::policy::HashPolicy;
use crate::policy::HashPolicyView;
use crate::resolution::without;
use crate::resolution::DistributionView;
use crate::resolution::Resolution;
use crate::runtime::Runtime;
use crate::text::views;
use crate::validate::validate;
use crate::validate::validation;
use crate::workspace::WorkspaceUnit;
use vstd::prelude::*;

verus! {

/// The settings of the installer that a sync reads.
#[derive(Debug, PartialEq, Eq)]
pub struct InstallerSettings {
    /// Build every package in the runtime.
    pub no_build_isolation: bool,
    /// Build these packages in the runtime.
    pub no_build_isolation_package: Vec<String>,
}

/// What a sync hands to the installer.
#[derive(Debug, PartialEq, Eq)]
pub struct InstallPlan {
    /// The distributions that the runtime must hold.
    pub resolution: Resolution,
    /// Where packages are built.
    pub build_isolation: BuildIsolation,
    /// How what is fetched is checked.
    pub hasher: HashPolicy,
    /// The constraints on what builds may use. A sync sets none; this is a
    /// narrow default, kept on purpose.
    pub build_constraints: Vec<String>,
    /// Whether the install is only to be shown. A sync always installs.
    pub dry_run: bool,
}

/// What an `InstallPlan` is in contracts.
pub struct InstallPlanView {
    pub resolution: Seq<DistributionView>,
    pub build_isolation: BuildIsolationView,
    pub hasher: HashPolicyView,
    pub build_constraints: Seq<Seq<char>>,
    pub dry_run: bool,
}

impl View for InstallPlan {
    type V = InstallPlanView;

    open spec fn view(&self) -> InstallPlanView {
        InstallPlanView {
            resolution: self.resolution@,
            build_isolation: self.build_isolation@,
            hasher: self.hasher@,
            build_constraints: views(self.build_constraints@),
            dry_run: self.dry_run,
        }
    }
}

/// All that a sync is asked to work on.
pub struct SyncRequest<'a> {
    pub project: &'a WorkspaceUnit,
    pub runtime: &'a Runtime,
    pub lock: &'a Lock,
    pub extras: &'a Vec<String>,
    pub dev: bool,
    pub install_options: &'a InstallOptions,
    pub settings: &'a InstallerSettings,
}

/// `entries` narrowed for an install: first without the virtual members of
/// the project's workspace, then without what the options leave out.
pub open spec fn narrowed(
    entries: Seq<DistributionView>,
    project: &WorkspaceUnit,
    options: &InstallOptions,
) -> Seq<DistributionView> {
    without(virtual_filtered(entries, project), options.banned(project))
}

impl<'a> SyncRequest<'a> {
    /// What building the resolution gives for this request.
    pub open spec fn built(&self) -> Result<Seq<DistributionView>, crate::builder::ResolveErrorView> {
        self.lock.resolution(
            self.project.root_names(),
            self.runtime.markers@,
            views(self.runtime.tags@),
            views(self.extras@),
            self.dev,
        )
    }

    /// The plan for installing `entries`, or the failure for want of a hash.
    pub open spec fn planned(&self, entries: Seq<DistributionView>) -> Result<
        InstallPlanView,
        SyncErrorView,
    > {
        match hash_policy_for(entries) {
            Ok(hasher) => Ok(
                InstallPlanView {
                    resolution: entries,
                    build_isolation: isolation_for(
                        self.settings.no_build_isolation,
                        views(self.settings.no_build_isolation_package@),
                        self.runtime.site@,
                    ),
                    hasher,
                    build_constraints: Seq::empty(),
                    dry_run: false,
                },
            ),
            Err(name) => Err(
                SyncErrorView::InstallOrBuildFailure(InstallFaultView::MissingHash(name)),
            ),
        }
    }

    /// What the sync of this request hands to the installer, or why it hands
    /// over nothing.
    pub open spec fn outcome(&self) -> Result<InstallPlanView, SyncErrorView> {
        match validation(self.lock, self.runtime) {
            Some(error) => Err(error),
            None => match self.built() {
                Err(error) => Err(SyncErrorView::ResolutionConstructionFailure(error)),
                Ok(raw) => self.planned(narrowed(raw, self.project, self.install_options)),
            },
        }
    }
}

/// Where a sync stands.
#[derive(Debug, PartialEq, Eq)]
pub enum SyncState {
    /// The lock is about to be checked against the runtime.
    Validating,
    /// The resolution is about to be built.
    Resolving,
    /// The resolution that was built is about to be narrowed.
    Filtering(Resolution),
    /// The policies for installing the narrowed resolution are about to be
    /// selected.
    PolicySelecting(Resolution),
    /// The plan is with the installer.
    Dispatching(InstallPlan),
    /// The install was carried out.
    Done,
    /// The sync failed.
    Failed(SyncError),
}

/// What a `SyncState` is in contracts.
pub enum SyncStateView {
    Validating,
    Resolving,
    Filtering(Seq<DistributionView>),
    PolicySelecting(Seq<DistributionView>),
    Dispatching(InstallPlanView),
    Done,
    Failed(SyncErrorView),
}

impl View for SyncState {
    type V = SyncStateView;

    open spec fn view(&self) -> SyncStateView {
        match self {
            SyncState::Validating => SyncStateView::Validating,
            SyncState::Resolving => SyncStateView::Resolving,
            SyncState::Filtering(resolution) => SyncStateView::Filtering(resolution@),
            SyncState::PolicySelecting(resolution) => SyncStateView::PolicySelecting(resolution@),
            SyncState::Dispatching(plan) => SyncStateView::Dispatching(plan@),
            SyncState::Done => SyncStateView::Done,
            SyncState::Failed(error) => SyncStateView::Failed(error@),
        }
    }
}

impl SyncStateView {
    /// How far the state is along the line of states; both ends of a sync
    /// are furthest.
    pub open spec fn rank(self) -> nat {
        match self {
            SyncStateView::Validating => 0,
            SyncStateView::Resolving => 1,
            SyncStateView::Filtering(_) => 2,
            SyncStateView::PolicySelecting(_) => 3,
            SyncStateView::Dispatching(_) => 4,
            SyncStateView::Done => 5,
            SyncStateView::Failed(_) => 5,
        }
    }

    /// Whether the state is one that the sync leaves by its own work.
    pub open spec fn working(self) -> bool {
        self.rank() < 4
    }

    /// The state that follows this one in the sync of `request`. A state
    /// that waits for the installer, and an end state, stay as they are.
    pub open spec fn next(self, request: &SyncRequest) -> SyncStateView {
        match self {
            SyncStateView::Validating => match validation(request.lock, request.runtime) {
                Some(error) => SyncStateView::Failed(error),
                None => SyncStateView::Resolving,
            },
            SyncStateView::Resolving => match request.built() {
                Ok(raw) => SyncStateView::Filtering(raw),
                Err(error) => SyncStateView::Failed(
                    SyncErrorView::ResolutionConstructionFailure(error),
                ),
            },
            SyncStateView::Filtering(raw) => SyncStateView::PolicySelecting(
                narrowed(raw, request.project, request.install_options),
            ),
            SyncStateView::PolicySelecting(entries) => match request.planned(entries) {
                Ok(plan) => SyncStateView::Dispatching(plan),
                Err(error) => SyncStateView::Failed(error),
            },
            other => other,
        }
    }

    /// The state after the installer has answered: the end of a sync that
    /// was waiting for it. Any other state stays as it is.
    pub open spec fn settled(self, result: Result<(), Seq<char>>) -> SyncStateView {
        match self {
            SyncStateView::Dispatching(_) => match result {
                Ok(_) => SyncStateView::Done,
                Err(message) => SyncStateView::Failed(
                    SyncErrorView::InstallOrBuildFailure(InstallFaultView::Installer(message)),
                ),
            },
            other => other,
        }
    }
}

impl SyncState {
    /// The state in which every sync begins.
    pub fn start() -> (state: SyncState)
        ensures
            state@ == SyncStateView::Validating,
    {
        SyncState::Validating
    }

    /// Does the work of this state for `request` and gives the state that
    /// follows.
    pub fn advance(self, request: &SyncRequest) -> (next: SyncState)
        ensures
            next@ == self@.next(request),
    {
        match self {
            SyncState::Validating => match validate(request.lock, request.runtime) {
                Ok(_) => SyncState::Resolving,
                Err(error) => SyncState::Failed(error),
            },
            SyncState::Resolving => {
                let roots = request.project.packages();
                match request.lock.to_resolution(
                    &roots,
                    &request.runtime.markers,
                    &request.runtime.tags,
                    request.extras,
                    request.dev,
                ) {
                    Ok(raw) => SyncState::Filtering(raw),
                    Err(error) => SyncState::Failed(SyncError::ResolutionConstructionFailure(error)),
                }
            },
            SyncState::Filtering(raw) => {
                let resolution = apply_no_virtual_project(raw, request.project);
                let resolution = request.install_options.filter_resolution(
                    resolution,
                    request.project,
                );
                SyncState::PolicySelecting(resolution)
            },
            SyncState::PolicySelecting(resolution) => {
                let build_isolation = BuildIsolation::select(
                    request.settings.no_build_isolation,
                    &request.settings.no_build_isolation_package,
                    request.runtime,
                );
                match HashPolicy::from_resolution(&resolution) {
                    Ok(hasher) => {
                        let plan = InstallPlan {
                            resolution,
                            build_isolation,
                            hasher,
                            build_constraints: Vec::new(),
                            dry_run: false,
                        };
                        assert(plan@.build_constraints =~= Seq::<Seq<char>>::empty());
                        SyncState::Dispatching(plan)
                    },
                    Err(name) => SyncState::Failed(
                        SyncError::InstallOrBuildFailure(InstallFault::MissingHash(name)),
                    ),
                }
            },
            other => other,
        }
    }

    /// Takes the installer's answer: nothing on success, its message on
    /// failure.
    pub fn settle(self, result: Result<(), String>) -> (next: SyncState)
        ensures
            next@ == self@.settled(
                match result {
                    Ok(_) => Ok(()),
                    Err(message) => Err(message@),
                },
            ),
    {
        match self {
            SyncState::Dispatching(_) => match result {
                Ok(_) => SyncState::Done,
                Err(message) => SyncState::Failed(
                    SyncError::InstallOrBuildFailure(InstallFault::Installer(message)),
                ),
            },
            other => other,
        }
    }
}

/// What the outcome of a sync is in contracts.
pub open spec fn outcome_view(out: Result<InstallPlan, SyncError>) -> Result<
    InstallPlanView,
    SyncErrorView,
> {
    match out {
        Ok(plan) => Ok(plan@),
        Err(error) => Err(error@),
    }
}

/// Syncs a lock with a runtime as far as the installer: checks the lock,
/// builds and narrows the resolution, selects the policies.
pub fn do_sync(
    project: &WorkspaceUnit,
    runtime: &Runtime,
    lock: &Lock,
    extras: &Vec<String>,
    dev: bool,
    install_options: &InstallOptions,
    settings: &InstallerSettings,
) -> (out: Result<InstallPlan, SyncError>)
    ensures
        outcome_view(out) == (SyncRequest {
            project,
            runtime,
            lock,
            extras,
            dev,
            install_options,
            settings,
        }).outcome(),
        out matches Ok(plan) ==> plan.resolution.well_formed(),
{
    // Check that the lock may be used with the runtime.
    match validate(lock, runtime) {
        Ok(_) => {},
        Err(error) => {
            return Err(error);
        },
    }

    // Read the lock.
    let roots = project.packages();
    let resolution = match lock.to_resolution(&roots, &runtime.markers, &runtime.tags, extras, dev) {
        Ok(resolution) => resolution,
        Err(error) => {
            return Err(SyncError::ResolutionConstructionFailure(error));
        },
    };

    // Always leave out virtual members, which are not built or installed.
    let resolution = apply_no_virtual_project(resolution, project);

    // Leave out what the caller does not want installed.
    let resolution = install_options.filter_resolution(resolution, project);

    // Decide where packages are built.
    let build_isolation = BuildIsolation::select(
        settings.no_build_isolation,
        &settings.no_build_isolation_package,
        runtime,
    );

    // Take the hashes from the lock.
    match HashPolicy::from_resolution(&resolution) {
        Ok(hasher) => {
            // These are fixed for a sync.
            let build_constraints: Vec<String> = Vec::new();
            let dry_run = false;
            let plan = InstallPlan { resolution, build_isolation, hasher, build_constraints, dry_run };
            assert(plan@.build_constraints =~= Seq::<Seq<char>>::empty());
            Ok(plan)
        },
        Err(name) => Err(SyncError::InstallOrBuildFailure(InstallFault::MissingHash(name))),
    }
}

/// What the resolution of a sync is in contracts.
pub open spec fn reconciled_view(out: Result<Resolution, SyncError>) -> Result<
    Seq<DistributionView>,
    SyncErrorView,
> {
    match out {
        Ok(resolution) => Ok(resolution@),
        Err(error) => Err(error@),
    }
}

/// The distributions that `runtime` must hold for `lock`, or why the lock
/// cannot be synced with it.
pub fn reconcile(
    lock: &Lock,
    runtime: &Runtime,
    project: &WorkspaceUnit,
    extras: &Vec<String>,
    dev: bool,
    install_options: &InstallOptions,
    settings: &InstallerSettings,
) -> (out: Result<Resolution, SyncError>)
    ensures
        reconciled_view(out) == match (SyncRequest {
            project,
            runtime,
            lock,
            extras,
            dev,
            install_options,
            settings,
        }).outcome() {
            Ok(plan) => Ok::<Seq<DistributionView>, SyncErrorView>(plan.resolution),
            Err(error) => Err(error),
        },
        out matches Ok(resolution) ==> resolution.well_formed(),
{
    match do_sync(project, runtime, lock, extras, dev, install_options, settings) {
        Ok(plan) => Ok(plan.resolution),
        Err(error) => Err(error),
    }
}

/// How locking ended.
#[derive(Debug, PartialEq, Eq)]
pub enum LockOutcome {
    /// With a lock.
    Locked(Lock),
    /// Without one: the requirements have no solution, and the heading and
    /// the explanation say why.
    NoSolution { header: String, message: String },
}

/// Syncs the runtime with what locking gave: nothing can be synced where
/// locking found no solution, and that is then the failure.
pub fn sync(
    project: &WorkspaceUnit,
    runtime: &Runtime,
    locking: &LockOutcome,
    extras: &Vec<String>,
    dev: bool,
    install_options: &InstallOptions,
    settings: &InstallerSettings,
) -> (out: Result<InstallPlan, SyncError>)
    ensures
        outcome_view(out) == match locking {
            LockOutcome::Locked(lock) => (SyncRequest {
                project,
                runtime,
                lock,
                extras,
                dev,
                install_options,
                settings,
            }).outcome(),
            LockOutcome::NoSolution { header, message } => Err(
                SyncErrorView::NoSolutionDuringLocking { header: header@, message: message@ },
            ),
        },
        out matches Ok(plan) ==> plan.resolution.well_formed(),
{
    match locking {
        LockOutcome::Locked(lock) => do_sync(
            project,
            runtime,
            lock,
            extras,
            dev,
            install_options,
            settings,
        ),
        LockOutcome::NoSolution { header, message } => Err(
            SyncError::NoSolutionDuringLocking { header: header.clone(), message: message.clone() },
        ),
    }
}

/// The unit of work of a sync: the workspace as it was found, or, where a
/// package is named, the project of that name in it. `None` where the
/// workspace has no member of that name.
pub fn identify(package: Option<String>, discovered: WorkspaceUnit) -> (out: Option<WorkspaceUnit>)
    ensures
        match package {
            None => out == Some(discovered),
            Some(name) => if discovered.members().member_names().contains(name@) {
                out == Some(WorkspaceUnit::Project { root: name, workspace: discovered.members() })
            } else {
                out is None
            },
        },
        discovered.well_formed() ==> (out matches Some(unit) ==> unit.well_formed()),
{
    match package {
        None => Some(discovered),
        Some(name) => {
            let workspace = match discovered {
                WorkspaceUnit::Project { workspace, .. } => workspace,
                WorkspaceUnit::Virtual { workspace } => workspace,
            };
            if workspace.has_member(&name) {
                Some(WorkspaceUnit::Project { root: name, workspace })
            } else {
                None
            }
        },
    }
}

} // verus!
