//! Why a sync failed.

use crate::builder::ResolveError;
use crate::builder::ResolveErrorView;
use crate::version::BoundView;
use crate::version::Version;
use crate::version::VersionRange;
use vstd::prelude::*;

verus! {

/// What went wrong at the hand-over to the installer, or in it.
#[derive(Debug, PartialEq, Eq)]
pub enum InstallFault {
    /// The distribution of this name has no hash to verify it by.
    MissingHash(String),
    /// The installer failed, and said this.
    Installer(String),
}

/// What an `InstallFault` is in contracts.
pub enum InstallFaultView {
    MissingHash(Seq<char>),
    Installer(Seq<char>),
}

impl View for InstallFault {
    type V = InstallFaultView;

    open spec fn view(&self) -> InstallFaultView {
        match self {
            InstallFault::MissingHash(name) => InstallFaultView::MissingHash(name@),
            InstallFault::Installer(message) => InstallFaultView::Installer(message@),
        }
    }
}

/// Why a sync failed.
#[derive(Debug, PartialEq, Eq)]
pub enum SyncError {
    /// The interpreter's version, and the range that the lock requires and
    /// that does not hold it.
    LockedInterpreterIncompatibility(Version, VersionRange),
    /// The runtime is none of the environments that the lock declares; they
    /// are listed in the text.
    LockedPlatformIncompatibility(String),
    /// No resolution could be built from the lock.
    ResolutionConstructionFailure(ResolveError),
    /// Locking found no solution; the heading and the explanation say why.
    NoSolutionDuringLocking { header: String, message: String },
    /// The install was refused or failed.
    InstallOrBuildFailure(InstallFault),
}

/// What a `SyncError` is in contracts.
pub enum SyncErrorView {
    LockedInterpreterIncompatibility(Seq<u64>, Seq<BoundView>),
    LockedPlatformIncompatibility(Seq<char>),
    ResolutionConstructionFailure(ResolveErrorView),
    NoSolutionDuringLocking { header: Seq<char>, message: Seq<char> },
    InstallOrBuildFailure(InstallFaultView),
}

impl View for SyncError {
    type V = SyncErrorView;

    open spec fn view(&self) -> SyncErrorView {
        match self {
            SyncError::LockedInterpreterIncompatibility(version, range) => {
                SyncErrorView::LockedInterpreterIncompatibility(version@, range@)
            },
            SyncError::LockedPlatformIncompatibility(text) => {
                SyncErrorView::LockedPlatformIncompatibility(text@)
            },
            SyncError::ResolutionConstructionFailure(error) => {
                SyncErrorView::ResolutionConstructionFailure(error@)
            },
            SyncError::NoSolutionDuringLocking { header, message } => {
                SyncErrorView::NoSolutionDuringLocking { header: header@, message: message@ }
            },
            SyncError::InstallOrBuildFailure(fault) => SyncErrorView::InstallOrBuildFailure(fault@),
        }
    }
}

/// How the command that ran a sync ends.
#[derive(Clone, Copy, Debug, PartialEq, Eq, Structural)]
pub enum ExitStatus {
    /// The sync was carried out.
    Success,
    /// The sync could not be carried out for a reason that the user can act
    /// on, and that was reported in full.
    Failure,
    /// The sync failed.
    Error,
}

/// How the command ends after a sync with the outcome `outcome`: locking
/// without a solution is a failure that was reported, any other error an
/// error.
pub open spec fn status_of(outcome: Option<SyncErrorView>) -> ExitStatus {
    match outcome {
        None => ExitStatus::Success,
        Some(SyncErrorView::NoSolutionDuringLocking { .. }) => ExitStatus::Failure,
        Some(_) => ExitStatus::Error,
    }
}

/// How the command ends after a sync that ended as `outcome`.
pub fn exit_status(outcome: &Result<(), SyncError>) -> (status: ExitStatus)
    ensures
        status == status_of(
            match outcome {
                Ok(_) => None,
                Err(error) => Some(error@),
            },
        ),
{
    match outcome {
        Ok(_) => ExitStatus::Success,
        Err(SyncError::NoSolutionDuringLocking { .. }) => ExitStatus::Failure,
        Err(_) => ExitStatus::Error,
    }
}

} // verus!
