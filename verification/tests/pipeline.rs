use lock_sync::builder::ResolveError;
use lock_sync::error::{exit_status, ExitStatus, InstallFault, SyncError};
use lock_sync::filter::{apply_no_virtual_project, InstallOptions};
use lock_sync::lock::{Edge, Gate, Lock, LockedPackage, Prebuilt, SourceArchive};
use lock_sync::marker::{Fact, Marker, MarkerEnvironment, SupportedEnvironment};
use lock_sync::policy::{BuildIsolation, HashPolicy, Pin};
use lock_sync::resolution::{Distribution, Resolution};
use lock_sync::runtime::Runtime;
use lock_sync::sync::{
    do_sync, identify, reconcile, sync, InstallPlan, InstallerSettings, LockOutcome, SyncRequest,
    SyncState,
};
use lock_sync::validate::{declared_text, validate};
use lock_sync::version::{Bound, Comparator, Version, VersionRange};
use lock_sync::workspace::{Member, Workspace, WorkspaceUnit};

fn text(s: &str) -> String {
    String::from(s)
}

fn version(release: &[u64]) -> Version {
    Version::new(release.to_vec())
}

fn runtime(release: &[u64], platform: &str) -> Runtime {
    Runtime {
        version: version(release),
        platform: text(platform),
        markers: MarkerEnvironment::new(vec![
            Fact { key: text("sys_platform"), value: text(platform) },
            Fact { key: text("implementation_name"), value: text("cpython") },
        ]),
        tags: vec![text("cp312-linux"), text("py3-none-any")],
        site: text("/venv/site-packages"),
    }
}

fn is(key: &str, value: &str) -> Marker {
    Marker::Is { key: text(key), value: text(value) }
}

fn edge(target: usize) -> Edge {
    Edge { target, gate: Gate::Always, marker: Marker::Always }
}

fn extra_edge(target: usize, extra: &str) -> Edge {
    Edge { target, gate: Gate::Extra(text(extra)), marker: Marker::Always }
}

fn dev_edge(target: usize) -> Edge {
    Edge { target, gate: Gate::Development, marker: Marker::Always }
}

fn resolved(entries: Vec<Distribution>) -> Resolution {
    Resolution::new(entries).unwrap()
}

fn package(name: &str, edges: Vec<Edge>) -> LockedPackage {
    LockedPackage {
        name: text(name),
        version: version(&[1, 0]),
        source: text("registry"),
        prebuilt: vec![Prebuilt { tag: text("py3-none-any"), hash: Some(format!("sha256:{name}")) }],
        archive: None,
        edges,
    }
}

fn dist(name: &str) -> Distribution {
    Distribution {
        name: text(name),
        version: version(&[1, 0]),
        source: text("registry"),
        tag: Some(text("py3-none-any")),
        hash: Some(format!("sha256:{name}")),
    }
}

fn lock_of(packages: Vec<LockedPackage>) -> Lock {
    Lock { requires: None, environments: vec![], packages }
}

fn member(name: &str, package: bool, build_system: bool) -> Member {
    Member { name: text(name), package, build_system }
}

fn project(root: &str, members: Vec<Member>) -> WorkspaceUnit {
    WorkspaceUnit::Project { root: text(root), workspace: Workspace { members } }
}

fn settings() -> InstallerSettings {
    InstallerSettings { no_build_isolation: false, no_build_isolation_package: vec![] }
}

fn names(resolution: &Resolution) -> Vec<String> {
    resolution.entries.iter().map(|d| d.name.clone()).collect()
}

/// Root `a` depends on the virtual member `b` and on `left`; `b` depends on
/// `right`; `a` has a development edge to `lint` and an edge for the extra
/// `cli` to `click`.
fn workspace_lock() -> Lock {
    lock_of(vec![
        package("a", vec![edge(1), edge(2), dev_edge(4), extra_edge(5, "cli")]),
        package("b", vec![edge(3)]),
        package("left", vec![]),
        package("right", vec![]),
        package("lint", vec![]),
        package("click", vec![]),
        package("unused", vec![]),
    ])
}

fn workspace_unit() -> WorkspaceUnit {
    project("a", vec![member("a", false, true), member("b", false, false)])
}

fn python_range() -> VersionRange {
    VersionRange::new(vec![
        Bound::new(Comparator::AtLeast, version(&[3, 9])),
        Bound::new(Comparator::Below, version(&[3, 12])),
    ])
}

#[test]
fn interpreter_below_required_range_is_refused() {
    let mut lock = workspace_lock();
    lock.requires = Some(python_range());
    let out = reconcile(
        &lock,
        &runtime(&[3, 8], "linux"),
        &workspace_unit(),
        &vec![],
        false,
        &InstallOptions::everything(),
        &settings(),
    );
    assert_eq!(
        out,
        Err(SyncError::LockedInterpreterIncompatibility(version(&[3, 8]), python_range()))
    );
}

#[test]
fn interpreter_inside_required_range_is_accepted() {
    let mut lock = workspace_lock();
    lock.requires = Some(python_range());
    for release in [&[3u64, 9][..], &[3, 9, 0], &[3, 11, 7], &[3, 10]] {
        assert_eq!(validate(&lock, &runtime(release, "linux")), Ok(()));
    }
    for release in [&[3u64, 12][..], &[3, 12, 0], &[4], &[3, 8, 20], &[2, 7]] {
        assert!(matches!(
            validate(&lock, &runtime(release, "linux")),
            Err(SyncError::LockedInterpreterIncompatibility(_, _))
        ));
    }
}

#[test]
fn lock_without_required_range_accepts_any_interpreter() {
    let lock = workspace_lock();
    assert_eq!(validate(&lock, &runtime(&[2, 7], "linux")), Ok(()));
    assert_eq!(validate(&lock, &runtime(&[], "linux")), Ok(()));
}

#[test]
fn platform_outside_declared_environments_is_refused() {
    let mut lock = workspace_lock();
    lock.environments = vec![SupportedEnvironment {
        declared: text("sys_platform=='linux'"),
        expr: is("sys_platform", "linux"),
    }];
    let out = reconcile(
        &lock,
        &runtime(&[3, 12], "darwin"),
        &workspace_unit(),
        &vec![],
        false,
        &InstallOptions::everything(),
        &settings(),
    );
    assert_eq!(out, Err(SyncError::LockedPlatformIncompatibility(text("`sys_platform=='linux'`"))));
    assert_eq!(validate(&lock, &runtime(&[3, 12], "linux")), Ok(()));
}

#[test]
fn declared_environments_are_listed_with_commas() {
    let mut lock = workspace_lock();
    lock.environments = vec![
        SupportedEnvironment {
            declared: text("sys_platform == 'linux'"),
            expr: is("sys_platform", "linux"),
        },
        SupportedEnvironment {
            declared: text("sys_platform == 'win32'"),
            expr: is("sys_platform", "win32"),
        },
        SupportedEnvironment {
            declared: text("implementation_name == 'pypy'"),
            expr: is("implementation_name", "pypy"),
        },
    ];
    assert_eq!(
        validate(&lock, &runtime(&[3, 12], "darwin")),
        Err(SyncError::LockedPlatformIncompatibility(text(
            "`sys_platform == 'linux'`, `sys_platform == 'win32'`, `implementation_name == 'pypy'`"
        )))
    );
    assert_eq!(validate(&lock, &runtime(&[3, 12], "win32")), Ok(()));
}

#[test]
fn unrestricting_environment_is_not_listed() {
    let mut lock = workspace_lock();
    lock.environments = vec![
        SupportedEnvironment { declared: text("anything"), expr: Marker::Always },
        SupportedEnvironment { declared: text("x == 'y'"), expr: is("x", "y") },
    ];
    assert_eq!(declared_text(&lock), text("`x == 'y'`"));
    assert_eq!(validate(&lock, &runtime(&[3, 12], "darwin")), Ok(()));
    lock.environments = vec![];
    assert_eq!(declared_text(&lock), text(""));
}

#[test]
fn no_declared_environment_never_fails() {
    let lock = workspace_lock();
    for platform in ["linux", "darwin", "win32", ""] {
        assert_eq!(validate(&lock, &runtime(&[3, 12], platform)), Ok(()));
    }
    let bare = Runtime {
        version: version(&[3, 12]),
        platform: text(""),
        markers: MarkerEnvironment::new(vec![]),
        tags: vec![],
        site: text(""),
    };
    assert_eq!(validate(&lock, &bare), Ok(()));
}

#[test]
fn interpreter_is_checked_before_platform() {
    let mut lock = workspace_lock();
    lock.requires = Some(python_range());
    lock.environments = vec![SupportedEnvironment {
        declared: text("sys_platform=='linux'"),
        expr: is("sys_platform", "linux"),
    }];
    assert_eq!(
        validate(&lock, &runtime(&[3, 8], "darwin")),
        Err(SyncError::LockedInterpreterIncompatibility(version(&[3, 8]), python_range()))
    );
}

#[test]
fn project_sync_leaves_out_virtual_member_and_dev_edges() {
    let lock = workspace_lock();
    let out = reconcile(
        &lock,
        &runtime(&[3, 12], "linux"),
        &workspace_unit(),
        &vec![],
        false,
        &InstallOptions::everything(),
        &settings(),
    )
    .unwrap();
    assert_eq!(names(&out), vec!["a", "left", "right"]);
    assert_eq!(out.entries[1], dist("left"));
    assert!(!out.contains(&text("b")));
    assert!(!out.contains(&text("lint")));
    assert!(out.contains(&text("right")));
    assert_eq!(out.len(), 3);
}

#[test]
fn dev_flag_follows_development_edges() {
    let lock = workspace_lock();
    let out = reconcile(
        &lock,
        &runtime(&[3, 12], "linux"),
        &workspace_unit(),
        &vec![],
        true,
        &InstallOptions::everything(),
        &settings(),
    )
    .unwrap();
    assert_eq!(names(&out), vec!["a", "left", "right", "lint"]);
}

#[test]
fn extras_follow_their_edges() {
    let lock = workspace_lock();
    let out = reconcile(
        &lock,
        &runtime(&[3, 12], "linux"),
        &workspace_unit(),
        &vec![text("cli")],
        false,
        &InstallOptions::everything(),
        &settings(),
    )
    .unwrap();
    assert_eq!(names(&out), vec!["a", "left", "right", "click"]);
    let out = reconcile(
        &lock,
        &runtime(&[3, 12], "linux"),
        &workspace_unit(),
        &vec![text("cli"), text("other")],
        true,
        &InstallOptions::everything(),
        &settings(),
    )
    .unwrap();
    assert_eq!(names(&out), vec!["a", "left", "right", "lint", "click"]);
}

#[test]
fn virtual_member_is_left_out_whatever_the_options() {
    let lock = workspace_lock();
    let all_options = [
        InstallOptions::everything(),
        InstallOptions {
            no_install_project: true,
            no_install_workspace: false,
            no_install_package: vec![],
        },
        InstallOptions {
            no_install_project: false,
            no_install_workspace: false,
            no_install_package: vec![text("left")],
        },
    ];
    for options in all_options.iter() {
        let out = reconcile(
            &lock,
            &runtime(&[3, 12], "linux"),
            &workspace_unit(),
            &vec![],
            true,
            options,
            &settings(),
        )
        .unwrap();
        assert!(!out.contains(&text("b")));
    }
}

#[test]
fn filters_remove_virtual_and_excluded_members() {
    let raw = || resolved(vec![dist("a"), dist("b"), dist("left"), dist("right")]);
    let unit = workspace_unit();
    let options = InstallOptions {
        no_install_project: false,
        no_install_workspace: false,
        no_install_package: vec![text("left")],
    };
    let both = options.filter_resolution(apply_no_virtual_project(raw(), &unit), &unit);
    assert_eq!(names(&both), vec!["a", "right"]);
    let scope_only = options.filter_resolution(raw(), &unit);
    assert_eq!(names(&scope_only), vec!["a", "b", "right"]);
    let virtual_only = apply_no_virtual_project(raw(), &unit);
    assert_eq!(names(&virtual_only), vec!["a", "left", "right"]);
    let swapped = apply_no_virtual_project(options.filter_resolution(raw(), &unit), &unit);
    assert_eq!(swapped, both);
}

#[test]
fn virtual_filter_keeps_everything_without_a_root() {
    let unit = WorkspaceUnit::Virtual {
        workspace: Workspace { members: vec![member("a", false, true), member("b", false, false)] },
    };
    let raw = resolved(vec![dist("a"), dist("b"), dist("left")]);
    let out = apply_no_virtual_project(raw.duplicate(), &unit);
    assert_eq!(out, raw);
}

#[test]
fn member_is_a_package_by_declaration_or_build_system() {
    assert!(member("x", true, false).is_package());
    assert!(member("x", false, true).is_package());
    assert!(member("x", true, true).is_package());
    assert!(!member("x", false, false).is_package());
    let unit = project(
        "a",
        vec![member("a", true, false), member("b", false, true), member("c", false, false)],
    );
    let raw = resolved(vec![dist("a"), dist("b"), dist("c"), dist("d")]);
    assert_eq!(names(&apply_no_virtual_project(raw, &unit)), vec!["a", "b", "d"]);
}

#[test]
fn install_options_leave_out_project_workspace_and_packages() {
    let unit = project("a", vec![member("a", false, true), member("b", false, true)]);
    let raw = || resolved(vec![dist("a"), dist("b"), dist("left"), dist("right")]);
    let no_project = InstallOptions {
        no_install_project: true,
        no_install_workspace: false,
        no_install_package: vec![],
    };
    assert_eq!(names(&no_project.filter_resolution(raw(), &unit)), vec!["b", "left", "right"]);
    let no_workspace = InstallOptions {
        no_install_project: false,
        no_install_workspace: true,
        no_install_package: vec![],
    };
    assert_eq!(names(&no_workspace.filter_resolution(raw(), &unit)), vec!["left", "right"]);
    let no_package = InstallOptions {
        no_install_project: false,
        no_install_workspace: false,
        no_install_package: vec![text("right"), text("a"), text("absent")],
    };
    assert_eq!(names(&no_package.filter_resolution(raw(), &unit)), vec!["b", "left"]);
    assert_eq!(InstallOptions::everything().filter_resolution(raw(), &unit), raw());
    let rootless = WorkspaceUnit::Virtual {
        workspace: Workspace { members: vec![member("a", false, true)] },
    };
    assert_eq!(no_project.filter_resolution(raw(), &rootless), raw());
}

#[test]
fn reconciling_twice_gives_the_same_resolution() {
    let lock = workspace_lock();
    let run = || {
        reconcile(
            &lock,
            &runtime(&[3, 12], "linux"),
            &workspace_unit(),
            &vec![text("cli")],
            true,
            &InstallOptions::everything(),
            &settings(),
        )
    };
    let first = run();
    let second = run();
    assert!(first.is_ok());
    assert_eq!(first, second);
}

#[test]
fn missing_hash_stops_the_sync_before_the_installer() {
    let mut lock = workspace_lock();
    lock.packages[2].prebuilt[0].hash = None;
    lock.packages[3].prebuilt[0].hash = None;
    let out = do_sync(
        &workspace_unit(),
        &runtime(&[3, 12], "linux"),
        &lock,
        &vec![],
        false,
        &InstallOptions::everything(),
        &settings(),
    );
    assert_eq!(out, Err(SyncError::InstallOrBuildFailure(InstallFault::MissingHash(text("left")))));
    let options = InstallOptions {
        no_install_project: false,
        no_install_workspace: false,
        no_install_package: vec![text("left"), text("right")],
    };
    let out = do_sync(
        &workspace_unit(),
        &runtime(&[3, 12], "linux"),
        &lock,
        &vec![],
        false,
        &options,
        &settings(),
    )
    .unwrap();
    assert_eq!(names(&out.resolution), vec!["a"]);
}

#[test]
fn hash_policy_pins_every_distribution() {
    let resolution = resolved(vec![dist("a"), dist("left")]);
    assert_eq!(
        HashPolicy::from_resolution(&resolution),
        Ok(HashPolicy::Verify(vec![
            Pin { name: text("a"), hash: text("sha256:a") },
            Pin { name: text("left"), hash: text("sha256:left") },
        ]))
    );
    assert_eq!(
        HashPolicy::from_resolution(&resolved(vec![])),
        Ok(HashPolicy::Verify(vec![]))
    );
    let mut unhashed = dist("right");
    unhashed.hash = None;
    let resolution = resolved(vec![dist("a"), unhashed, dist("left")]);
    assert_eq!(HashPolicy::from_resolution(&resolution), Err(text("right")));
}

#[test]
fn excepted_package_is_built_in_the_runtime() {
    let target = runtime(&[3, 12], "linux");
    let policy = BuildIsolation::select(false, &vec![text("nativepkg")], &target);
    assert_eq!(
        policy,
        BuildIsolation::SharedPackage {
            site: text("/venv/site-packages"),
            packages: vec![text("nativepkg")],
        }
    );
    assert!(!policy.is_isolated(&text("nativepkg")));
    assert!(policy.is_isolated(&text("other")));
    assert!(policy.is_isolated(&text("a")));
}

#[test]
fn isolation_is_the_default_and_can_be_switched_off() {
    let target = runtime(&[3, 12], "linux");
    let isolated = BuildIsolation::select(false, &vec![], &target);
    assert_eq!(isolated, BuildIsolation::Isolated);
    assert!(isolated.is_isolated(&text("any")));
    let shared = BuildIsolation::select(true, &vec![text("nativepkg")], &target);
    assert_eq!(shared, BuildIsolation::Shared { site: text("/venv/site-packages") });
    assert!(!shared.is_isolated(&text("any")));
    assert!(!shared.is_isolated(&text("nativepkg")));
    let shared = BuildIsolation::select(true, &vec![], &target);
    assert_eq!(shared, BuildIsolation::Shared { site: text("/venv/site-packages") });
}

#[test]
fn plan_carries_resolution_and_policies() {
    let lock = workspace_lock();
    let plan = do_sync(
        &workspace_unit(),
        &runtime(&[3, 12], "linux"),
        &lock,
        &vec![],
        false,
        &InstallOptions::everything(),
        &InstallerSettings {
            no_build_isolation: false,
            no_build_isolation_package: vec![text("nativepkg")],
        },
    )
    .unwrap();
    assert_eq!(
        plan,
        InstallPlan {
            resolution: resolved(vec![dist("a"), dist("left"), dist("right")]),
            build_isolation: BuildIsolation::SharedPackage {
                site: text("/venv/site-packages"),
                packages: vec![text("nativepkg")],
            },
            hasher: HashPolicy::Verify(vec![
                Pin { name: text("a"), hash: text("sha256:a") },
                Pin { name: text("left"), hash: text("sha256:left") },
                Pin { name: text("right"), hash: text("sha256:right") },
            ]),
            build_constraints: vec![],
            dry_run: false,
        }
    );
}

#[test]
fn lock_with_an_edge_that_leads_outside_is_refused() {
    let dangling = lock_of(vec![package("a", vec![]), package("b", vec![edge(3)])]);
    assert!(!dangling.edges_sound());
    assert!(workspace_lock().edges_sound());
    let out = reconcile(
        &dangling,
        &runtime(&[3, 12], "linux"),
        &workspace_unit(),
        &vec![],
        false,
        &InstallOptions::everything(),
        &settings(),
    );
    assert_eq!(out, Err(SyncError::ResolutionConstructionFailure(ResolveError::InconsistentLock)));
}

#[test]
fn name_of_two_reached_packages_is_refused() {
    let lock = lock_of(vec![
        package("a", vec![edge(1), extra_edge(2, "cli")]),
        package("b", vec![]),
        package("b", vec![]),
    ]);
    let unit = project("a", vec![member("a", false, true)]);
    let run = |extras: Vec<String>| {
        reconcile(
            &lock,
            &runtime(&[3, 12], "linux"),
            &unit,
            &extras,
            false,
            &InstallOptions::everything(),
            &settings(),
        )
    };
    assert_eq!(
        run(vec![text("cli")]),
        Err(SyncError::ResolutionConstructionFailure(ResolveError::InconsistentLock))
    );
    assert_eq!(names(&run(vec![]).unwrap()), vec!["a", "b"]);
}

#[test]
fn name_of_two_packages_that_are_not_reached_is_accepted() {
    let lock = lock_of(vec![package("a", vec![]), package("b", vec![]), package("b", vec![])]);
    let unit = project("a", vec![member("a", false, true)]);
    let out = reconcile(
        &lock,
        &runtime(&[3, 12], "linux"),
        &unit,
        &vec![],
        false,
        &InstallOptions::everything(),
        &settings(),
    );
    assert_eq!(names(&out.unwrap()), vec!["a"]);
    let twice = lock_of(vec![package("a", vec![]), package("x", vec![]), package("a", vec![])]);
    let out = reconcile(
        &twice,
        &runtime(&[3, 12], "linux"),
        &unit,
        &vec![],
        false,
        &InstallOptions::everything(),
        &settings(),
    );
    assert_eq!(names(&out.unwrap()), vec!["a"]);
}

#[test]
fn extra_named_like_development_opens_no_development_edge() {
    let lock = lock_of(vec![
        package("a", vec![dev_edge(1), extra_edge(2, "dev")]),
        package("d", vec![]),
        package("e", vec![]),
    ]);
    let unit = project("a", vec![member("a", false, true)]);
    let run = |extras: Vec<String>, dev: bool| {
        names(
            &reconcile(
                &lock,
                &runtime(&[3, 12], "linux"),
                &unit,
                &extras,
                dev,
                &InstallOptions::everything(),
                &settings(),
            )
            .unwrap(),
        )
    };
    assert_eq!(run(vec![text("dev")], false), vec!["a", "e"]);
    assert_eq!(run(vec![], false), vec!["a"]);
    assert_eq!(run(vec![], true), vec!["a", "d"]);
    assert_eq!(run(vec![text("dev")], true), vec!["a", "d", "e"]);
    let plan = do_sync(
        &unit,
        &runtime(&[3, 12], "linux"),
        &lock_of(vec![package("a", vec![dev_edge(1)]), package("d", vec![])]),
        &vec![text("dev")],
        false,
        &InstallOptions::everything(),
        &settings(),
    )
    .unwrap();
    assert_eq!(plan.resolution, resolved(vec![dist("a")]));
}

#[test]
fn resolution_and_workspace_hold_a_name_once() {
    assert!(Resolution::new(vec![dist("a"), dist("b"), dist("a")]).is_none());
    assert!(Resolution::new(vec![]).is_some());
    let made = Resolution::new(vec![dist("a"), dist("b")]).unwrap();
    assert_eq!(names(&made), vec!["a", "b"]);
    assert!(made.is_well_formed());
    assert!(!Resolution { entries: vec![dist("b"), dist("b")] }.is_well_formed());
    assert!(Workspace::new(vec![member("a", false, true), member("a", false, false)]).is_none());
    let made = Workspace::new(vec![member("a", false, true), member("b", false, false)]).unwrap();
    assert_eq!(made.members.len(), 2);
    assert!(made.is_well_formed());
    assert!(Workspace::new(vec![]).is_some());
}

#[test]
fn missing_root_is_refused() {
    let lock = lock_of(vec![package("left", vec![])]);
    let out = reconcile(
        &lock,
        &runtime(&[3, 12], "linux"),
        &workspace_unit(),
        &vec![],
        false,
        &InstallOptions::everything(),
        &settings(),
    );
    assert_eq!(
        out,
        Err(SyncError::ResolutionConstructionFailure(ResolveError::MissingRoot(text("a"))))
    );
    let rootless = WorkspaceUnit::Virtual {
        workspace: Workspace {
            members: vec![member("left", false, true), member("x", false, true), member("y", false, true)],
        },
    };
    assert_eq!(
        lock.to_resolution(
            &rootless.packages(),
            &MarkerEnvironment::new(vec![]),
            &vec![text("py3-none-any")],
            &vec![],
            false
        ),
        Err(ResolveError::MissingRoot(text("x")))
    );
}

#[test]
fn package_without_usable_artifact_is_refused() {
    let mut lock = workspace_lock();
    lock.packages[3].prebuilt[0].tag = text("cp39-win32");
    lock.packages[2].prebuilt = vec![];
    lock.packages[6].prebuilt = vec![];
    let out = reconcile(
        &lock,
        &runtime(&[3, 12], "linux"),
        &workspace_unit(),
        &vec![],
        false,
        &InstallOptions::everything(),
        &settings(),
    );
    assert_eq!(
        out,
        Err(SyncError::ResolutionConstructionFailure(ResolveError::NoCompatibleArtifact(text(
            "left"
        ))))
    );
    lock.packages[2].archive = Some(SourceArchive { hash: Some(text("sha256:src")) });
    let out = reconcile(
        &lock,
        &runtime(&[3, 12], "linux"),
        &workspace_unit(),
        &vec![],
        false,
        &InstallOptions::everything(),
        &settings(),
    );
    assert_eq!(
        out,
        Err(SyncError::ResolutionConstructionFailure(ResolveError::NoCompatibleArtifact(text(
            "right"
        ))))
    );
}

#[test]
fn unreached_package_needs_no_artifact() {
    let mut lock = workspace_lock();
    lock.packages[6].prebuilt = vec![];
    lock.packages[4].prebuilt = vec![];
    let out = reconcile(
        &lock,
        &runtime(&[3, 12], "linux"),
        &workspace_unit(),
        &vec![],
        false,
        &InstallOptions::everything(),
        &settings(),
    );
    assert_eq!(names(&out.unwrap()), vec!["a", "left", "right"]);
}

#[test]
fn preferred_prebuilt_artifact_is_chosen() {
    let mut pkg = package("a", vec![]);
    pkg.prebuilt = vec![
        Prebuilt { tag: text("cp39-win32"), hash: Some(text("h0")) },
        Prebuilt { tag: text("py3-none-any"), hash: Some(text("h1")) },
        Prebuilt { tag: text("cp312-linux"), hash: Some(text("h2")) },
    ];
    pkg.archive = Some(SourceArchive { hash: Some(text("h3")) });
    let tags = vec![text("cp312-linux"), text("py3-none-any")];
    let chosen = pkg.select(&tags).unwrap();
    assert_eq!(chosen.tag, Some(text("cp312-linux")));
    assert_eq!(chosen.hash, Some(text("h2")));
    let chosen = pkg.select(&vec![text("py3-none-any"), text("cp312-linux")]).unwrap();
    assert_eq!(chosen.tag, Some(text("py3-none-any")));
    assert_eq!(chosen.hash, Some(text("h1")));
    pkg.prebuilt.push(Prebuilt { tag: text("cp312-linux"), hash: Some(text("h4")) });
    assert_eq!(pkg.tagged(&text("cp312-linux")), Some(2));
    assert_eq!(pkg.tagged(&text("cp313-linux")), None);
    assert_eq!(pkg.select(&tags).unwrap().hash, Some(text("h2")));
    assert_eq!(chosen.name, text("a"));
    assert_eq!(chosen.version, version(&[1, 0]));
    assert_eq!(chosen.source, text("registry"));
    let chosen = pkg.select(&vec![text("cp311-macos")]).unwrap();
    assert_eq!(chosen.tag, None);
    assert_eq!(chosen.hash, Some(text("h3")));
    pkg.archive = None;
    assert_eq!(pkg.select(&vec![text("cp311-macos")]), None);
    assert_eq!(pkg.select(&vec![]), None);
}

#[test]
fn edges_are_followed_where_their_marker_holds() {
    let lock = lock_of(vec![
        package(
            "a",
            vec![
                Edge { target: 1, gate: Gate::Always, marker: is("sys_platform", "linux") },
                Edge { target: 2, gate: Gate::Always, marker: is("sys_platform", "win32") },
                Edge {
                    target: 3,
                    gate: Gate::Development,
                    marker: Marker::IsNot { key: text("sys_platform"), value: text("linux") },
                },
            ],
        ),
        package("posix", vec![edge(0)]),
        package("winapi", vec![]),
        package("colorama", vec![]),
    ]);
    let unit = project("a", vec![member("a", false, true)]);
    let run = |platform: &str, dev: bool| {
        names(
            &reconcile(
                &lock,
                &runtime(&[3, 12], platform),
                &unit,
                &vec![],
                dev,
                &InstallOptions::everything(),
                &settings(),
            )
            .unwrap(),
        )
    };
    assert_eq!(run("linux", false), vec!["a", "posix"]);
    assert_eq!(run("linux", true), vec!["a", "posix"]);
    assert_eq!(run("win32", false), vec!["a", "winapi"]);
    assert_eq!(run("win32", true), vec!["a", "winapi", "colorama"]);
    assert_eq!(run("darwin", true), vec!["a", "colorama"]);
}

#[test]
fn reach_follows_chains_and_cycles() {
    let lock = lock_of(vec![
        package("a", vec![edge(1)]),
        package("b", vec![edge(2), edge(0)]),
        package("c", vec![edge(1), edge(2)]),
        package("d", vec![edge(0)]),
        package("e", vec![]),
    ]);
    let env = MarkerEnvironment::new(vec![]);
    assert_eq!(lock.reach(&env, &vec![], false, &vec![0]), vec![true, true, true, false, false]);
    assert_eq!(lock.reach(&env, &vec![], false, &vec![3, 3]), vec![true, true, true, true, false]);
    assert_eq!(lock.reach(&env, &vec![], false, &vec![4, 2]), vec![true, true, true, false, true]);
    assert_eq!(lock.reach(&env, &vec![], false, &vec![4]), vec![false, false, false, false, true]);
    assert_eq!(lock.reach(&env, &vec![], false, &vec![]), vec![false; 5]);
    assert_eq!(lock_of(vec![]).reach(&env, &vec![], false, &vec![]), Vec::<bool>::new());
}

#[test]
fn rootless_workspace_starts_from_every_member() {
    let lock = workspace_lock();
    let unit = WorkspaceUnit::Virtual {
        workspace: Workspace { members: vec![member("b", false, false), member("unused", false, true)] },
    };
    let out = reconcile(
        &lock,
        &runtime(&[3, 12], "linux"),
        &unit,
        &vec![],
        false,
        &InstallOptions::everything(),
        &settings(),
    )
    .unwrap();
    assert_eq!(names(&out), vec!["b", "right", "unused"]);
}

#[test]
fn states_are_passed_in_line() {
    let lock = workspace_lock();
    let unit = workspace_unit();
    let target = runtime(&[3, 12], "linux");
    let extras = vec![];
    let options = InstallOptions::everything();
    let installer = settings();
    let request = SyncRequest {
        project: &unit,
        runtime: &target,
        lock: &lock,
        extras: &extras,
        dev: false,
        install_options: &options,
        settings: &installer,
    };
    let state = SyncState::start();
    assert_eq!(state, SyncState::Validating);
    let state = state.advance(&request);
    assert_eq!(state, SyncState::Resolving);
    let state = state.advance(&request);
    assert_eq!(
        state,
        SyncState::Filtering(resolved(vec![
            dist("a"),
            dist("b"),
            dist("left"),
            dist("right")
        ]))
    );
    let state = state.advance(&request);
    assert_eq!(
        state,
        SyncState::PolicySelecting(resolved(vec![dist("a"), dist("left"), dist("right")]))
    );
    let state = state.advance(&request);
    assert!(matches!(state, SyncState::Dispatching(_)));
    let waiting = state.advance(&request);
    assert!(matches!(waiting, SyncState::Dispatching(_)));
    let done = waiting.settle(Ok(()));
    assert_eq!(done, SyncState::Done);
    assert_eq!(done.advance(&request), SyncState::Done);
    assert_eq!(SyncState::Done.settle(Err(text("late"))), SyncState::Done);
    assert_eq!(SyncState::Resolving.settle(Ok(())), SyncState::Resolving);
}

#[test]
fn installer_failure_fails_the_sync() {
    let plan = InstallPlan {
        resolution: resolved(vec![dist("a")]),
        build_isolation: BuildIsolation::Isolated,
        hasher: HashPolicy::Verify(vec![Pin { name: text("a"), hash: text("sha256:a") }]),
        build_constraints: vec![],
        dry_run: false,
    };
    let failed = SyncState::Dispatching(plan).settle(Err(text("build of a failed")));
    assert_eq!(
        failed,
        SyncState::Failed(SyncError::InstallOrBuildFailure(InstallFault::Installer(text(
            "build of a failed"
        ))))
    );
    assert_eq!(
        SyncState::Failed(SyncError::LockedPlatformIncompatibility(text("x"))).settle(Ok(())),
        SyncState::Failed(SyncError::LockedPlatformIncompatibility(text("x")))
    );
}

#[test]
fn failing_states_end_the_machine() {
    let mut lock = workspace_lock();
    lock.requires = Some(python_range());
    lock.packages[2].prebuilt[0].hash = None;
    let unit = workspace_unit();
    let old = runtime(&[3, 8], "linux");
    let new = runtime(&[3, 11], "linux");
    let extras = vec![];
    let options = InstallOptions::everything();
    let installer = settings();
    let mut request = SyncRequest {
        project: &unit,
        runtime: &old,
        lock: &lock,
        extras: &extras,
        dev: false,
        install_options: &options,
        settings: &installer,
    };
    let failed = SyncState::start().advance(&request);
    assert_eq!(
        failed,
        SyncState::Failed(SyncError::LockedInterpreterIncompatibility(
            version(&[3, 8]),
            python_range()
        ))
    );
    request.runtime = &new;
    let state = SyncState::start().advance(&request).advance(&request).advance(&request);
    assert!(matches!(state, SyncState::PolicySelecting(_)));
    assert_eq!(
        state.advance(&request),
        SyncState::Failed(SyncError::InstallOrBuildFailure(InstallFault::MissingHash(text("left"))))
    );
}

#[test]
fn locking_without_solution_is_reported_as_failure() {
    let locking = LockOutcome::NoSolution {
        header: text("No solution found when resolving dependencies:"),
        message: text("a depends on b>=2 and b<2"),
    };
    let out = sync(
        &workspace_unit(),
        &runtime(&[3, 12], "linux"),
        &locking,
        &vec![],
        false,
        &InstallOptions::everything(),
        &settings(),
    );
    assert_eq!(
        out,
        Err(SyncError::NoSolutionDuringLocking {
            header: text("No solution found when resolving dependencies:"),
            message: text("a depends on b>=2 and b<2"),
        })
    );
    assert_eq!(exit_status(&out.map(|_| ())), ExitStatus::Failure);
}

#[test]
fn sync_with_a_lock_plans_the_install() {
    let locking = LockOutcome::Locked(workspace_lock());
    let out = sync(
        &workspace_unit(),
        &runtime(&[3, 12], "linux"),
        &locking,
        &vec![],
        false,
        &InstallOptions::everything(),
        &settings(),
    );
    assert_eq!(names(&out.as_ref().unwrap().resolution), vec!["a", "left", "right"]);
    assert_eq!(exit_status(&out.map(|_| ())), ExitStatus::Success);
    assert_eq!(
        exit_status(&Err(SyncError::LockedPlatformIncompatibility(text("`x`")))),
        ExitStatus::Error
    );
    assert_eq!(
        exit_status(&Err(SyncError::InstallOrBuildFailure(InstallFault::Installer(text("x"))))),
        ExitStatus::Error
    );
}

#[test]
fn named_package_becomes_the_project() {
    let members = || vec![member("a", false, true), member("b", false, false)];
    let found = WorkspaceUnit::Virtual { workspace: Workspace { members: members() } };
    assert_eq!(identify(Some(text("b")), found), Some(project("b", members())));
    let found = project("a", members());
    assert_eq!(identify(Some(text("b")), found), Some(project("b", members())));
    let found = project("a", members());
    assert_eq!(identify(Some(text("c")), found), None);
    let found = project("a", members());
    assert_eq!(identify(None, found), Some(project("a", members())));
    let found = WorkspaceUnit::Virtual { workspace: Workspace { members: members() } };
    assert_eq!(
        identify(None, found),
        Some(WorkspaceUnit::Virtual { workspace: Workspace { members: members() } })
    );
}

#[test]
fn resolution_keeps_to_the_lock() {
    let lock = workspace_lock();
    let out = reconcile(
        &lock,
        &runtime(&[3, 12], "linux"),
        &workspace_unit(),
        &vec![text("cli")],
        true,
        &InstallOptions::everything(),
        &settings(),
    )
    .unwrap();
    for entry in out.entries.iter() {
        assert!(lock.find(&entry.name).is_some());
    }
    assert_eq!(lock.find(&text("right")), Some(3));
    assert_eq!(lock.find(&text("absent")), None);
}
