//! Whether a lock may be used with a runtime.

use crate::error::SyncError;
use crate::error::SyncErrorView;
use crate::lock::Lock;
use crate::marker::FactView;
use crate::marker::SupportedEnvironment;
use crate::runtime::Runtime;
use crate::text::join_texts;
use crate::text::joined;
use crate::text::quote;
use crate::text::quoted;
use crate::text::views;
use crate::version::range_contains;
use vstd::prelude::*;

verus! {

/// Whether the lock admits an interpreter of version `version`: it requires
/// no range, or the range holds the version.
pub open spec fn interpreter_ok(lock: &Lock, version: Seq<u64>) -> bool {
    match lock.requires {
        Some(range) => range_contains(range@, version),
        None => true,
    }
}

/// Whether the lock supports a runtime described by `facts`: it declares no
/// environment, or one that it declares holds.
pub open spec fn platform_ok(lock: &Lock, facts: Seq<FactView>) -> bool {
    lock.environments@.len() == 0 || exists|i: int|
        0 <= i < lock.environments@.len() && (#[trigger] lock.environments@[i]).expr.holds(facts)
}

/// The declared texts of `environments`, each between backticks, without
/// those of environments that restrict nothing.
pub open spec fn declared(environments: Seq<SupportedEnvironment>) -> Seq<Seq<char>>
    decreases environments.len(),
{
    if environments.len() == 0 {
        Seq::empty()
    } else if environments.last().expr is Always {
        declared(environments.drop_last())
    } else {
        declared(environments.drop_last()).push(quoted(environments.last().declared@))
    }
}

/// Why the lock may not be used with the runtime, if it may not: first for
/// the interpreter's version, and only then for the platform.
pub open spec fn validation(lock: &Lock, runtime: &Runtime) -> Option<SyncErrorView> {
    if !interpreter_ok(lock, runtime.version@) {
        Some(
            SyncErrorView::LockedInterpreterIncompatibility(
                runtime.version@,
                lock.requires.unwrap()@,
            ),
        )
    } else if !platform_ok(lock, runtime.markers@) {
        Some(
            SyncErrorView::LockedPlatformIncompatibility(
                joined(declared(lock.environments@), ", "@),
            ),
        )
    } else {
        None
    }
}

/// The environments that the lock declares, as a text for the user.
pub fn declared_text(lock: &Lock) -> (text: String)
    ensures
        text@ == joined(declared(lock.environments@), ", "@),
{
    let mut items: Vec<String> = Vec::new();
    let mut i: usize = 0;
    while i < lock.environments.len()
        invariant
            i <= lock.environments.len(),
            views(items@) == declared(lock.environments@.subrange(0, i as int)),
        decreases lock.environments.len() - i,
    {
        let ghost before = views(items@);
        assert(lock.environments@.subrange(0, i + 1).drop_last() =~= lock.environments@.subrange(
            0,
            i as int,
        ));
        assert(lock.environments@.subrange(0, i + 1).last() == lock.environments@[i as int]);
        if !lock.environments[i].expr.is_always() {
            items.push(quote(lock.environments[i].declared.as_str()));
            assert(views(items@) =~= before.push(quoted(lock.environments@[i as int].declared@)));
        }
        i = i + 1;
    }
    assert(lock.environments@.subrange(0, i as int) =~= lock.environments@);
    join_texts(&items, ", ")
}

/// Checks that the lock may be used with the runtime.
pub fn validate(lock: &Lock, runtime: &Runtime) -> (out: Result<(), SyncError>)
    ensures
        match out {
            Ok(_) => validation(lock, runtime) is None,
            Err(error) => validation(lock, runtime) == Some(error@),
        },
{
    if let Some(range) = &lock.requires {
        if !range.contains(&runtime.version) {
            return Err(
                SyncError::LockedInterpreterIncompatibility(
                    runtime.version.duplicate(),
                    range.duplicate(),
                ),
            );
        }
    }
    if lock.environments.len() > 0 {
        let mut i: usize = 0;
        while i < lock.environments.len()
            invariant
                i <= lock.environments.len(),
                interpreter_ok(lock, runtime.version@),
                forall|j: int|
                    0 <= j < i ==> !(#[trigger] lock.environments@[j]).expr.holds(runtime.markers@),
            decreases lock.environments.len() - i,
        {
            if lock.environments[i].expr.evaluate(&runtime.markers) {
                assert(lock.environments@[i as int].expr.holds(runtime.markers@));
                return Ok(());
            }
            i = i + 1;
        }
        return Err(SyncError::LockedPlatformIncompatibility(declared_text(lock)));
    }
    Ok(())
}

} // verus!
