use std::cell::RefCell;

use codex_patcher::arguments::UpdateOptions;
use codex_patcher::build::BuildFailure;
use codex_patcher::paths::{PatcherPaths, Platform};
use codex_patcher::shim::{
    BaselineBackup, BaselineKind, InstalledShim, ShimForm, SurfaceRecord, SURFACE_RECORD_SCHEMA,
};
use codex_patcher::state::{
    recover_repairs, recover_restores, recover_takeovers, staging_name, InstallState, STATE_SCHEMA,
};
use codex_patcher::store::StateStore;
use codex_patcher::types::{
    DesiredBuild, GenerationRef, ProbeKind, ResolvedSource, Timestamp,
};
use codex_patcher::update::{
    activate_update, check_live_inputs, next_update_step, record_changed_inputs, record_failure,
    record_resolution_problem, record_transient_build_problem, LiveInputs, UpdateFacts, UpdateStep,
};

const NOW: Timestamp = Timestamp { nanos: 1_700_000_000_000_000_000 };

fn source(version: &str, marker: char) -> ResolvedSource {
    ResolvedSource {
        channel: "stable".to_owned(),
        ref_name: format!("refs/tags/rust-v{version}"),
        ref_object_oid: marker.to_string().repeat(40),
        commit_oid: marker.to_ascii_uppercase().to_string().repeat(40),
        version: version.to_owned(),
        release_url: None,
    }
}

fn generation(source: ResolvedSource) -> GenerationRef {
    GenerationRef {
        id: source.commit_oid.clone(),
        package_dir: "/generation/package".to_owned(),
        binary: "/generation/package/bin/codex".to_owned(),
        source_key: source.commit_oid.clone(),
        source,
        patch_fingerprint: "f".repeat(64),
        target: "x86_64-unknown-linux-gnu".to_owned(),
        subcommands: Vec::new(),
        built_at: NOW,
    }
}

fn desired(version: &str, marker: char) -> DesiredBuild {
    DesiredBuild {
        source: source(version, marker),
        patch_fingerprint: "f".repeat(64),
        target: "x86_64-unknown-linux-gnu".to_owned(),
        source_key: marker.to_string().repeat(64),
    }
}

fn record(id: u128, surface: &str) -> SurfaceRecord {
    SurfaceRecord {
        schema: SURFACE_RECORD_SCHEMA,
        id,
        surface: surface.to_owned(),
        baseline: BaselineBackup {
            kind: BaselineKind::Missing,
            backup_path: None,
            symlink_target: None,
            mode: None,
            sha256: None,
            identity: None,
            security: None,
        },
        installed: InstalledShim {
            form: ShimForm::PosixSymlink,
            manager: "/m".to_owned(),
            symlink_target: Some("/m".to_owned()),
            mode: None,
            sha256: None,
            identity: None,
            security: None,
        },
        installed_at: NOW,
        updater: None,
    }
}

#[test]
fn pending_release_is_the_resolution_trust_baseline() {
    let mut state = InstallState::new("/patches", NOW);
    state.active = Some(generation(source("1.0.0", 'a')));
    let pending = source("2.0.0", 'b');
    state.probe.desired = Some(DesiredBuild {
        source: pending.clone(),
        patch_fingerprint: "f".repeat(64),
        target: "x86_64-unknown-linux-gnu".to_owned(),
        source_key: "k".repeat(64),
    });
    assert_eq!(state.resolution_baseline("stable").unwrap(), Some(&pending));
}

#[test]
fn the_newest_accepted_release_is_the_baseline() {
    let mut state = InstallState::new("/patches", NOW);
    state.active = Some(generation(source("1.9.0", 'a')));
    state.previous = Some(generation(source("1.10.0", 'b')));
    state.probe.desired = Some(desired("1.2.0", 'c'));
    let baseline = state.resolution_baseline("stable").unwrap().unwrap();
    assert_eq!(baseline.version, "1.10.0");
}

#[test]
fn other_channels_have_no_trust_baseline() {
    let mut state = InstallState::new("/patches", NOW);
    state.active = Some(generation(source("1.0.0", 'a')));
    assert_eq!(state.resolution_baseline("alpha").unwrap(), None);
    state.active = Some(generation(source("not a version", 'a')));
    state.probe.desired = Some(desired("2.0.0", 'b'));
    let cause = semver::Version::parse("not a version").err().unwrap();
    assert_eq!(
        state.resolution_baseline("stable").err().unwrap(),
        format!("stored stable source has invalid SemVer not a version: {cause}")
    );
}

#[test]
fn activation_keeps_one_previous_generation_and_is_idempotent() {
    let a = generation(source("1.0.0", 'a'));
    let b = generation(source("2.0.0", 'b'));
    let mut state = InstallState::new("/patches", NOW);
    state.activate(a.clone(), NOW);
    state.activate(b.clone(), NOW);
    assert_eq!(state.active.as_ref().map(|item| &item.id), Some(&b.id));
    assert_eq!(state.previous.as_ref().map(|item| &item.id), Some(&a.id));
    state.activate(b.clone(), NOW);
    assert_eq!(state.active.as_ref().map(|item| &item.id), Some(&b.id));
    assert_eq!(state.previous.as_ref().map(|item| &item.id), Some(&a.id));
}

#[test]
fn state_round_trip_is_atomic_and_versioned() {
    let state = InstallState::new("/patches", NOW);
    assert_eq!(state.schema, STATE_SCHEMA);
    assert_eq!(state.patch_dir, "/patches");
    assert!(state.check_schema("/state.json").is_ok());
    let mut newer = InstallState::new("/patches", NOW);
    newer.schema = STATE_SCHEMA + 1;
    assert!(newer.check_schema("/state.json").is_err());
    let name = staging_name("state.json", 1);
    assert_eq!(
        name,
        ".state.json.00000000-0000-0000-0000-000000000001.tmp"
    );
}

#[test]
fn state_lock_serializes_atomic_read_modify_write() {
    let store = StateStore::new(PatcherPaths::for_test("/t", Platform::Posix));
    let file = RefCell::new(());
    let lock = || file.try_borrow_mut().map_err(|_| "state is locked".to_owned());
    let saved = RefCell::new(InstallState::new("/patches", NOW));
    for index in 0..8 {
        store
            .update_locked(
                lock(),
                || Ok(std::mem::replace(&mut *saved.borrow_mut(), InstallState::new("/", NOW))),
                |mut state| {
                    // Another writer that comes in between is kept out.
                    let other = store.with_state_lock(lock(), || {
                        saved.borrow_mut().surfaces.clear();
                        Ok(())
                    });
                    assert_eq!(other, Err("state is locked".to_owned()));
                    state.probe.message = Some(format!("writer-{index}"));
                    state.surfaces.push(record(index, "/bin/codex"));
                    Ok((state, ()))
                },
                |state| {
                    *saved.borrow_mut() = state;
                    Ok(())
                },
            )
            .unwrap();
        assert!(file.try_borrow_mut().is_ok());
    }
    let state = saved.into_inner();
    assert!(state.probe.message.unwrap().starts_with("writer-"));
    let ids: Vec<_> = state.surfaces.iter().map(|surface| surface.id).collect();
    assert_eq!(ids, (0..8).collect::<Vec<_>>());
    let refused: Result<i32, String> =
        store.with_state_lock(Err::<(), _>("busy".to_owned()), || panic!("ran unlocked"));
    assert_eq!(refused, Err("busy".to_owned()));
    let unsaved = store.update_locked(
        lock(),
        || Ok(InstallState::new("/patches", NOW)),
        |_| Err::<(InstallState, ()), _>("no change".to_owned()),
        |_| panic!("saved without a change"),
    );
    assert_eq!(unsaved, Err("no change".to_owned()));
}

#[test]
fn recovered_takeovers_are_recorded_once() {
    let owned = vec![record(1, "/bin/codex")];
    let merged = recover_takeovers(
        Platform::Posix,
        &owned,
        &vec![record(1, "/bin/codex"), record(2, "/b/codex")],
    );
    assert_eq!(merged.unwrap().len(), 2);
    assert!(recover_takeovers(Platform::Posix, &owned, &vec![record(3, "/bin/codex")]).is_err());
    let mut drifted = record(1, "/bin/codex");
    drifted.installed.manager = "/other".to_owned();
    assert!(recover_takeovers(Platform::Posix, &owned, &vec![drifted]).is_err());
}

#[test]
fn recovered_restorations_and_repairs_change_their_records_only() {
    let owned = vec![record(1, "/bin/codex"), record(2, "/b/codex")];
    let left = recover_restores(&owned, &vec![1]);
    assert_eq!(left.len(), 1);
    assert_eq!(left[0].id, 2);
    let mut repaired = record(2, "/b/codex");
    repaired.installed.manager = "/new".to_owned();
    let after = recover_repairs(Platform::Posix, &owned, &vec![repaired]).unwrap();
    assert_eq!(after[0].installed.manager, "/m");
    assert_eq!(after[1].installed.manager, "/new");
    assert!(recover_repairs(Platform::Posix, &owned, &vec![record(9, "/b/codex")]).is_err());
    assert!(recover_repairs(Platform::Posix, &owned, &vec![record(2, "/elsewhere")]).is_err());
}

#[test]
fn transactions_without_an_installation_are_refused() {
    let store = StateStore::new(PatcherPaths::for_test("/t", Platform::Posix));
    let recovery =
        store.recover_surface_transactions(None, &vec![record(1, "/c")], &Vec::new(), &Vec::new());
    assert_eq!(
        recovery.problem.as_deref(),
        Some(
            "launcher takeover journals exist without installation state; refusing to discard \
             them: codex-patcher is not installed for this user",
        )
    );
    assert_eq!(recovery.count, 0);
    let mut state = InstallState::new("/patches", NOW);
    state.surfaces.push(record(1, "/bin/codex"));
    let recovery = store.recover_surface_transactions(
        Some(&state),
        &vec![record(2, "/b/codex")],
        &Vec::new(),
        &vec![1],
    );
    assert_eq!(recovery.problem, None);
    assert_eq!(recovery.count, 2);
    assert_eq!(recovery.surfaces.len(), 1);
    assert_eq!(recovery.surfaces[0].id, 2);
}

#[test]
fn repeated_failures_keep_their_record() {
    let mut state = InstallState::new("/patches", NOW);
    let wanted = desired("1.0.0", 'a');
    let failure = BuildFailure::new("patch", "hunk failed", "/log", &Vec::new());
    record_failure(Platform::Posix, &mut state, &wanted, &failure, 1, NOW, None);
    let first = state.failure.as_ref().unwrap().id.clone();
    assert_eq!(first, "00000000-0000-0000-0000-000000000001");
    record_failure(Platform::Posix, &mut state, &wanted, &failure, 2, NOW.plus_seconds(5), None);
    assert_eq!(state.failure.as_ref().unwrap().id, first);
    assert_eq!(state.failure.as_ref().unwrap().created_at, NOW);
    assert!(matches!(state.probe.kind, ProbeKind::Failed));
    record_failure(Platform::Posix, &mut state, &desired("1.0.0", 'b'), &failure, 3, NOW, None);
    assert_ne!(state.failure.as_ref().unwrap().id, first);
}

#[test]
fn network_failures_are_reported_but_not_recorded() {
    let mut state = InstallState::new("/patches", NOW);
    let failure = BuildFailure::new("fetch", "timed out", "/log", &Vec::new());
    record_transient_build_problem(&mut state, &desired("1.0.0", 'a'), &failure, NOW);
    assert!(state.failure.is_none());
    assert!(matches!(state.probe.kind, ProbeKind::Degraded));
    assert_eq!(
        state.probe.message.as_deref(),
        Some("temporary network failure during fetch: timed out (log: /log)")
    );
    record_resolution_problem(&mut state, "moved tag", NOW);
    assert!(matches!(state.probe.kind, ProbeKind::Blocked));
    record_changed_inputs(&mut state, &desired("1.0.0", 'c'), NOW);
    assert!(matches!(state.probe.kind, ProbeKind::Pending));
}

#[test]
fn cached_failures_are_not_rebuilt_until_retried() {
    let mut state = InstallState::new("/patches", NOW);
    let wanted = desired("1.0.0", 'a');
    let failure = BuildFailure::new("patch", "hunk failed", "/log", &Vec::new());
    record_failure(Platform::Posix, &mut state, &wanted, &failure, 1, NOW, None);
    let facts = UpdateFacts {
        inputs: Some(Ok(wanted)),
        built: None,
        recheck: None,
        live: None,
    };
    let options = |retry, force_rebuild| UpdateOptions {
        retry,
        accept_retag: false,
        accept_force_push: false,
        interactive: false,
        force_rebuild,
    };
    assert!(matches!(
        next_update_step(&state, &facts, options(false, false)),
        UpdateStep::ReportCached { .. }
    ));
    assert!(matches!(
        next_update_step(&state, &facts, options(true, false)),
        UpdateStep::Build
    ));
    assert!(matches!(
        next_update_step(&state, &facts, options(false, true)),
        UpdateStep::Build
    ));
}

#[test]
fn a_failed_recheck_discards_the_build() {
    let state = InstallState::new("/patches", NOW);
    let facts = UpdateFacts {
        inputs: Some(Ok(desired("1.0.0", 'a'))),
        built: Some(Ok(generation(source("1.0.0", 'a')))),
        recheck: Some(Err("GitHub is unreachable".to_owned())),
        live: None,
    };
    let options = UpdateOptions {
        retry: false,
        accept_retag: false,
        accept_force_push: false,
        interactive: false,
        force_rebuild: false,
    };
    match next_update_step(&state, &facts, options) {
        UpdateStep::DiscardUnresolved { message } => assert_eq!(
            message,
            "rechecking upstream before activation: GitHub is unreachable"
        ),
        other => panic!("{other:?}"),
    }
}

#[test]
fn only_the_wanted_build_is_activated() {
    let wanted = desired("1.0.0", 'a');
    let live = |fingerprint: &str| LiveInputs {
        fingerprint: fingerprint.to_owned(),
        branch: codex_patcher::config::Branch::Stable,
        target: "x86_64-unknown-linux-gnu".to_owned(),
    };
    assert!(check_live_inputs(&live(&"f".repeat(64)), &wanted, "stable").is_ok());
    assert!(check_live_inputs(&live(&"0".repeat(64)), &wanted, "stable").is_err());
    let mut state = InstallState::new("/patches", NOW);
    let built = generation(source("1.0.0", 'a'));
    activate_update(&mut state, built, &wanted, &None, NOW);
    assert!(state.active.is_some());
    assert!(state.failure.is_none());
    assert!(matches!(state.probe.kind, ProbeKind::Current));
}
