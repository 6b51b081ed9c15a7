use codex_patcher::discovery::{
    Redirectability, SurfaceCandidate, SurfaceFileIdentity, SurfaceOwner, SurfacePrecedence,
    SurfaceRisk, UpdateMethod, VersionProbe,
};
use codex_patcher::elevation::EntryType;
use codex_patcher::patchset::{EntryKind, PatchSet, RootKind, SeriesFile, WalkEntry};
use codex_patcher::paths::Platform;
use codex_patcher::quickstart::{install_patch_dir, quickstart_files, quickstart_patch_dir};
use codex_patcher::report::{
    generation_line, pad, pending_ownership_journals, print_candidates, scan_summary, short_text,
    status_lines,
};
use codex_patcher::selection::{
    deduplicate_surface_paths, has_system_updater, normalize_surface_path, offer_surfaces,
    reject_protected_explicit_surface, select_explicit, selected_candidates, warn_of_owner,
    ExplicitSurface,
};
use codex_patcher::setup::{
    adopts_drift, check_failure_choice, collect, collect_all, complete_updater, forget_surface,
    forget_updater, invoked_as_codex, is_process_name, is_repair_session, maps_use_generation,
    migrate_updaters, next_removal_step, next_setup_step, record_updater, replace_surface, role,
    rollback_cleanup, rollback_result, updater_remains, Collection, GenerationDir, RedirectFacts,
    RemovalFacts, RemovalStep, Role, SetupFacts, SetupStep,
};
use codex_patcher::shim::{
    BaselineBackup, BaselineKind, FileIdentity, InstalledShim, ShimForm, SurfaceRecord,
    UpdaterAdapterRecord, SURFACE_RECORD_SCHEMA,
};
use codex_patcher::state::InstallState;
use codex_patcher::types::{GenerationRef, ResolvedSource, Timestamp};

const NOW: Timestamp = Timestamp { nanos: 0 };

fn texts(values: &[&str]) -> Vec<String> {
    values.iter().map(|value| value.to_string()).collect()
}

fn candidate(raw: &str, owner: SurfaceOwner, redirectability: Redirectability) -> SurfaceCandidate {
    let mut identity = FileIdentity::default();
    identity.device = Some(1);
    identity.inode = Some(2);
    identity.length = 3;
    identity.modified_ns = Some(-4);
    SurfaceCandidate {
        origin: "PATH[0]".to_owned(),
        raw: raw.to_owned(),
        resolved: Some("/real".to_owned()),
        version: Some("1.2.3".to_owned()),
        owner,
        update_method: UpdateMethod::NpmGlobal,
        current: true,
        precedence: SurfacePrecedence {
            scope: codex_patcher::discovery::PrecedenceScope::Path,
            rank: Some(1),
            effective: true,
        },
        file_identity: SurfaceFileIdentity {
            path: Some("/real".to_owned()),
            identity: Some(identity),
            error: None,
        },
        redirectability,
        risk: SurfaceRisk::High,
        risk_reason: "because".to_owned(),
        exists: true,
        probe: VersionProbe::not_run(),
    }
}

fn record(id: u128, surface: &str) -> SurfaceRecord {
    SurfaceRecord {
        schema: SURFACE_RECORD_SCHEMA,
        id,
        surface: surface.to_owned(),
        baseline: BaselineBackup {
            kind: BaselineKind::Missing,
            backup_path: None,
            symlink_target: None,
            mode: None,
            sha256: None,
            identity: None,
            security: None,
        },
        installed: InstalledShim {
            form: ShimForm::PosixSymlink,
            manager: "/m".to_owned(),
            symlink_target: Some("/m".to_owned()),
            mode: None,
            sha256: None,
            identity: None,
            security: None,
        },
        installed_at: NOW,
        updater: None,
    }
}

fn updater(unit: &str) -> UpdaterAdapterRecord {
    UpdaterAdapterRecord {
        unit: unit.to_owned(),
        load_state: "loaded".to_owned(),
        enabled_state: "enabled".to_owned(),
        active_state: "active".to_owned(),
        disable_intended: true,
        stop_intended: true,
        disabled_by_patcher: false,
        stopped_by_patcher: false,
        notes: Vec::new(),
    }
}

fn generation(id: &str) -> GenerationRef {
    GenerationRef {
        id: id.to_owned(),
        package_dir: format!("/g/{id}/package"),
        binary: format!("/g/{id}/package/bin/codex"),
        source_key: "k".to_owned(),
        source: ResolvedSource {
            channel: "stable".to_owned(),
            ref_name: "refs/tags/rust-v1.2.3".to_owned(),
            ref_object_oid: "a".repeat(40),
            commit_oid: "b".repeat(40),
            version: "1.2.3".to_owned(),
            release_url: None,
        },
        patch_fingerprint: "f".repeat(64),
        target: "t".to_owned(),
        subcommands: Vec::new(),
        built_at: NOW,
    }
}

fn state() -> InstallState {
    let mut state = InstallState::new("/patches", NOW);
    state.activate(generation("one"), NOW);
    state.activate(generation("two"), NOW);
    state.surfaces.push(record(1, "/bin/codex"));
    state.surfaces.push(record(2, "/desktop/codex"));
    state
}

fn facts() -> SetupFacts {
    SetupFacts {
        installed: false,
        patch_dir: Ok("/patches".to_owned()),
        config: Ok(()),
        patches: Ok(()),
        selected: Ok(texts(&["/bin/codex"])),
        updater: Ok(true),
        yes: false,
        confirmed: Some(Ok(true)),
        manager_copied: Some(Ok(())),
        state_saved: Some(Ok(())),
        built: None,
        updater_recorded: None,
        updater_disabled: None,
        updater_completed: None,
        redirects: Vec::new(),
    }
}

fn step(facts: &SetupFacts) -> SetupStep {
    next_setup_step("patches", facts, Platform::Posix)
}

#[test]
fn selected_surface_paths_are_lexically_normalized_and_deduplicated() {
    let cwd = Ok("/work".to_owned());
    let parent = Ok("/t/bin".to_owned());
    let aliases: Vec<_> = ["/t/bin/codex", "/t/bin/./codex", "/t/bin/nested/../codex"]
        .iter()
        .map(|path| normalize_surface_path(Platform::Posix, path, &cwd, &parent))
        .collect();
    let selected = deduplicate_surface_paths(Platform::Posix, &aliases).unwrap();
    assert_eq!(selected, ["/t/bin/codex"]);
    assert!(deduplicate_surface_paths(Platform::Posix, &vec![Err("no".to_owned())]).is_err());
}

#[test]
fn normalization_preserves_the_final_launcher_symlink() {
    let cwd = Ok("/work".to_owned());
    assert_eq!(
        normalize_surface_path(
            Platform::Posix,
            "/t/bin/codex",
            &cwd,
            &Ok("/t/bin".to_owned()),
        ).unwrap(),
        "/t/bin/codex"
    );
    assert_eq!(
        normalize_surface_path(
            Platform::Posix,
            "x/codex",
            &cwd,
            &Err("gone".to_owned()),
        ).err().unwrap(),
        "canonicalizing Codex surface parent /work/x: gone"
    );
    assert_eq!(
        normalize_surface_path(Platform::Posix, "/", &cwd, &Ok("/".to_owned())).err().unwrap(),
        "Codex surface path must name a file"
    );
}

#[test]
fn generation_lease_prevents_collection_on_every_platform() {
    let dir = |name: &str, in_use| GenerationDir { name: name.to_owned(), is_dir: true, in_use };
    let id = "a".repeat(64);
    assert_eq!(collect(&state(), &dir(&id, true), false), Collection::RetainRunning);
    assert_eq!(collect(&state(), &dir(&id, false), false), Collection::Remove);
    assert_eq!(collect(&state(), &dir(&id, false), true), Collection::RetainForRepair);
    assert_eq!(collect(&state(), &dir("one", false), false), Collection::Retain);
    assert_eq!(collect(&state(), &dir("two", false), true), Collection::Retain);
    assert_eq!(
        collect(&state(), &dir(".staging-x", true), true),
        Collection::RemoveStaging
    );
    assert_eq!(collect_all(&dir("one", true)), Collection::RetainRunning);
    assert_eq!(collect_all(&dir("one", false)), Collection::Remove);
    assert!(is_repair_session(".repair-x.json"));
    assert!(is_process_name("123"));
    assert!(!is_process_name("self"));
    let maps = "7f00-7f01 r-xp 0 0:0 1   /g/one/package/bin/codex\n7f02 r 0 0 2\n";
    assert!(maps_use_generation(Platform::Posix, maps, "/g/one"));
    assert!(!maps_use_generation(Platform::Posix, maps, "/g/on"));
}

#[test]
fn quickstart_writes_a_valid_patch_directory_without_overwriting() {
    let files = quickstart_files();
    let entries: Vec<WalkEntry> = files
        .iter()
        .filter(|file| file.relative_path != "series")
        .map(|file| WalkEntry {
            path: file.relative_path.clone(),
            kind: EntryKind::File,
            contents: file.contents.clone().unwrap(),
        })
        .collect();
    let series = SeriesFile::Text(files[1].contents.clone().unwrap());
    let set = PatchSet::load(
        Platform::Posix,
        "/q",
        RootKind::Directory,
        "/q",
        &entries,
        &series,
    ).unwrap();
    assert_eq!(set.patches.len(), 1);
    assert_eq!(set.patches[0].path, "status-line.patch");
    let agents = String::from_utf8(files[3].contents.clone().unwrap()).unwrap();
    assert!(agents.contains("https://github.com/arm64be/codex-patcher"));
    let config: toml::Value =
        toml::from_str(&String::from_utf8(files[0].contents.clone().unwrap()).unwrap()).unwrap();
    assert_eq!(config.get("target").and_then(|value| value.as_str()), Some("official-native"));
    assert_eq!(
        files[0].contents.as_deref(),
        Some(
            &b"schema = 1\nbranch = \"stable\"\ntarget = \"official-native\"\n\
               failure_mode = \"error\"\nnoninteractive_pending = \"auto\"\n"[..]
        )
    );
}

#[test]
fn the_starter_directory_is_the_default_patch_directory() {
    let home = Some("/home/me".to_owned());
    assert_eq!(
        quickstart_patch_dir(Platform::Posix, &None, &home).unwrap(),
        "/home/me/.codex/codex-patcher"
    );
    assert_eq!(
        quickstart_patch_dir(Platform::Posix, &Some("/c".to_owned()), &None).unwrap(),
        "/c/codex-patcher"
    );
    assert!(quickstart_patch_dir(Platform::Posix, &Some(String::new()), &None).is_err());
    assert_eq!(install_patch_dir(
        Platform::Posix,
        &Some("p".to_owned()),
        &None,
        &home,
    ).unwrap(), "p");
    assert_eq!(
        install_patch_dir(Platform::Posix, &None, &None, &home).unwrap(),
        "/home/me/.codex/codex-patcher"
    );
}

#[test]
fn named_surfaces_are_checked_one_by_one() {
    let named = |path: &str, kind| vec![ExplicitSurface { path: Ok(path.to_owned()), kind: Ok(kind) }];
    let candidates = vec![candidate(
        "/n/codex",
        SurfaceOwner::Desktop,
        Redirectability::NotRedirectable,
    )];
    let select = |list: &Vec<ExplicitSurface>| select_explicit(
        Platform::Posix,
        list,
        "/m",
        &candidates,
    );
    assert_eq!(select(&named("/bin/codex", EntryType::File)).unwrap(), ["/bin/codex"]);
    assert_eq!(
        select(&named("/m", EntryType::File)).err().unwrap(),
        "the stable management binary cannot be selected as a Codex surface"
    );
    assert_eq!(
        select(&named("/d", EntryType::Directory)).err().unwrap(),
        "explicit Codex surface is not a file or symlink: /d"
    );
    assert_eq!(
        select(&named("/n/codex", EntryType::Symlink)).err().unwrap(),
        "surface /n/codex is not redirectable: because"
    );
    assert!(reject_protected_explicit_surface("C:\\Program Files\\WindowsApps").is_err());
    assert!(reject_protected_explicit_surface("/usr/bin/codex").is_ok());
    let gone = vec![ExplicitSurface { path: Ok("/x".to_owned()), kind: Err("gone".to_owned()) }];
    assert_eq!(
        select(&gone).err().unwrap(),
        "explicit Codex surface does not exist or cannot be inspected: /x: gone"
    );
}

#[test]
fn surfaces_are_offered_and_their_owners_warned_of() {
    let list = vec![
        candidate("/a", SurfaceOwner::Manual, Redirectability::Direct),
        candidate("/b", SurfaceOwner::Patcher, Redirectability::AlreadyOwned),
        candidate("/c", SurfaceOwner::Npm, Redirectability::OwnerManaged),
    ];
    let offered = offer_surfaces(&list, false, true).unwrap();
    assert_eq!(offered.len(), 2);
    assert_eq!(offered[1].index, 2);
    assert_eq!(offered[0].label, "/a  owner=Manual version=1.2.3 risk=High");
    assert!(offer_surfaces(&list, true, true).is_err());
    assert!(offer_surfaces(&list, false, false).is_err());
    let paths: Vec<Result<String, String>> = list.iter().map(|c| Ok(c.raw.clone())).collect();
    assert_eq!(selected_candidates(Platform::Posix, &list, &paths, &texts(&["/c"])).unwrap(), [2]);
    assert_eq!(warn_of_owner(&list[0]), None);
    assert_eq!(
        warn_of_owner(&list[2]).unwrap(),
        "WARNING: /c is owned by npm (npm-global); that owner can overwrite the dispatcher, and recovery is manual via `codex-patcher repair-shims`"
    );
    assert!(has_system_updater(SurfaceOwner::Daemon));
    assert!(!has_system_updater(SurfaceOwner::Npm));
}

#[test]
fn installations_build_before_they_touch_a_launcher() {
    let mut facts = facts();
    assert!(matches!(step(&facts), SetupStep::Build));
    facts.built = Some(Ok(()));
    assert!(matches!(step(&facts), SetupStep::RecordUpdater));
    facts.updater_recorded = Some(Ok(()));
    assert!(matches!(step(&facts), SetupStep::DisableUpdater));
    facts.updater_disabled = Some(Ok(()));
    assert!(matches!(step(&facts), SetupStep::CompleteUpdater));
    facts.updater_completed = Some(Ok(()));
    assert!(matches!(step(&facts), SetupStep::Redirect(0)));
    facts.redirects.push(RedirectFacts { installed: Ok(()), recorded: None, finalized: None });
    assert!(matches!(step(&facts), SetupStep::RecordRedirect(0)));
    facts.redirects[0].recorded = Some(Ok(()));
    assert!(matches!(step(&facts), SetupStep::FinalizeRedirect(0)));
    facts.redirects[0].finalized = Some(Ok(()));
    assert!(matches!(step(&facts), SetupStep::Done));
    facts.redirects[0].recorded = Some(Err("disk".to_owned()));
    match step(&facts) {
        SetupStep::RollBack { message, undo } => {
            assert_eq!(message, "recording launcher takeover: disk");
            assert_eq!(undo, Some(0));
        }
        other => panic!("{other:?}"),
    }
    facts.redirects[0].installed = Err("busy".to_owned());
    match step(&facts) {
        SetupStep::RollBack { message, undo } => {
            assert_eq!(message, "redirecting /bin/codex: busy");
            assert_eq!(undo, None);
        }
        other => panic!("{other:?}"),
    }
}

#[test]
fn installations_that_cannot_start_change_nothing() {
    let message = |facts: &SetupFacts| match step(facts) {
        SetupStep::Fail { message } => message,
        other => panic!("{other:?}"),
    };
    let mut installed = facts();
    installed.installed = true;
    assert!(message(&installed).starts_with("codex-patcher is already installed"));
    let mut none = facts();
    none.selected = Ok(Vec::new());
    assert_eq!(message(&none), "no redirectable Codex surfaces were selected");
    let mut missing = facts();
    missing.patch_dir = Err("gone".to_owned());
    assert_eq!(message(&missing), "canonicalizing patch directory patches: gone");
    let mut no = facts();
    no.confirmed = Some(Ok(false));
    assert_eq!(message(&no), "installation cancelled");
    let mut unasked = facts();
    unasked.confirmed = None;
    assert!(matches!(step(&unasked), SetupStep::Confirm));
    unasked.yes = true;
    assert!(matches!(step(&unasked), SetupStep::Build));
    let mut fails = facts();
    fails.built = Some(Err("no".to_owned()));
    assert!(matches!(step(&fails), SetupStep::RollBack { .. }));
    assert_eq!(
        rollback_result(&texts(&["/a: no", "/b: no"])).err().unwrap(),
        "installation failed and rollback was incomplete; retained state for `codex-patcher uninstall --yes`: /a: no; /b: no"
    );
    assert!(rollback_result(&Vec::new()).is_ok());
    let bare = InstallState::new("/p", NOW);
    assert!(rollback_cleanup(&bare, true).remove_manager);
    assert!(!rollback_cleanup(&state(), true).remove_state);
}

#[test]
fn uninstallations_give_everything_back_first() {
    let mut state = state();
    let mut facts = RemovalFacts {
        yes: true,
        terminal: false,
        confirmed: None,
        surfaces: 2,
        surfaces_tried: 0,
        updaters: 1,
        updaters_tried: 0,
        leased: Some("gen-1".to_owned()),
    };
    assert!(matches!(next_removal_step(&state, &facts), RemovalStep::RestoreSurface(1)));
    forget_surface(&mut state, 2);
    facts.surfaces_tried = 2;
    match next_removal_step(&state, &facts) {
        RemovalStep::Fail { message } => assert_eq!(
            message,
            "uninstall is incomplete because one or more surfaces drifted"
        ),
        other => panic!("{other:?}"),
    }
    forget_surface(&mut state, 1);
    assert!(state.surfaces.is_empty());
    record_updater(&mut state, &updater("a"));
    assert!(matches!(next_removal_step(&state, &facts), RemovalStep::RestoreUpdater(0)));
    facts.updaters_tried = 1;
    assert!(matches!(next_removal_step(&state, &facts), RemovalStep::Fail { .. }));
    forget_updater(&mut state, &updater("a"));
    match next_removal_step(&state, &facts) {
        RemovalStep::Fail { message } => assert_eq!(
            message,
            "uninstall is incomplete because generation gen-1 is still running; \
             its files were left in place"
        ),
        other => panic!("{other:?}"),
    }
    facts.leased = None;
    assert!(matches!(next_removal_step(&state, &facts), RemovalStep::RemoveFiles));
    facts.yes = false;
    assert!(matches!(next_removal_step(&state, &facts), RemovalStep::Fail { .. }));
    facts.terminal = true;
    assert!(matches!(next_removal_step(&state, &facts), RemovalStep::Confirm));
}

#[test]
fn updaters_belong_to_the_installation() {
    let mut state = state();
    state.surfaces[0].updater = Some(updater("a"));
    state.surfaces[1].updater = Some(updater("a"));
    migrate_updaters(&mut state);
    assert_eq!(state.updaters.len(), 1);
    let mut done = updater("a");
    assert!(updater_remains(&done));
    done.disabled_by_patcher = true;
    done.stopped_by_patcher = true;
    assert!(!updater_remains(&done));
    complete_updater(&mut state, &done).unwrap();
    assert!(state.updaters[0].disabled_by_patcher);
    assert_eq!(
        complete_updater(&mut state, &updater("b")).err().unwrap(),
        "updater takeover intent disappeared"
    );
    let mut repaired = record(2, "/desktop/codex");
    repaired.installed.manager = "/new".to_owned();
    replace_surface(&mut state, &repaired).unwrap();
    assert_eq!(state.surfaces[1].installed.manager, "/new");
    assert!(replace_surface(&mut state, &record(9, "/x")).is_err());
    assert_eq!(adopts_drift(true, true, false), Some(true));
    assert_eq!(adopts_drift(false, false, true), None);
    assert_eq!(adopts_drift(false, true, true), Some(false));
    assert_eq!(
        check_failure_choice(&state, &None).err().unwrap(),
        "there is no recorded failure"
    );
}

#[test]
fn the_binary_knows_its_role() {
    assert_eq!(role(Platform::Posix, &texts(&["/bin/codex", "exec"])), Role::Dispatcher(1));
    assert_eq!(role(
        Platform::Posix,
        &texts(&["codex-patcher", "__dispatch", "x"]),
    ), Role::Dispatcher(2));
    assert_eq!(role(Platform::Posix, &texts(&["codex", "__elevated-shim-helper"])), Role::Helper);
    assert_eq!(role(Platform::Posix, &texts(&["codex-patcher", "status"])), Role::Manager);
    assert!(invoked_as_codex(Platform::Posix, "C/Codex.EXE"));
    assert!(!invoked_as_codex(Platform::Posix, "codex-patcher"));
}

#[test]
fn status_tells_of_the_installation_its_surfaces_and_consumers() {
    let state = state();
    let matches = vec![Ok(true), Err("denied".to_owned())];
    let candidates = vec![
        candidate("/desktop/codex", SurfaceOwner::Desktop, Redirectability::OwnerManaged),
        candidate("/other", SurfaceOwner::Daemon, Redirectability::OwnerManaged),
        candidate("/bin/codex", SurfaceOwner::Manual, Redirectability::Direct),
    ];
    let lines = status_lines(
        Platform::Posix,
        &state,
        &matches,
        &candidates,
        &texts(&["/b/.repair-1.json"]),
    );
    assert_eq!(
        lines,
        [
            "patch directory: /patches",
            "active: Codex 1.2.3 refs/tags/rust-v1.2.3 (bbbbbbbbbbbb)",
            "package: /g/two/package",
            "previous: Codex 1.2.3 (bbbbbbbbbbbb)",
            "probe: Unknown",
            "surface: /bin/codex [owned]",
            "surface: /desktop/codex [inspection-error]",
            "  inspection error: denied",
            "consumer: /desktop/codex [selected but overwritten/drifted]",
            "consumer: /other [not selected; not patched]",
            "pending ownership transaction: /b/.repair-1.json",
        ]
    );
    let empty = InstallState::new("/p", NOW);
    let lines = status_lines(Platform::Posix, &empty, &Vec::new(), &Vec::new(), &Vec::new());
    assert_eq!(lines, ["patch directory: /p", "active: none", "probe: Unknown"]);
}

#[test]
fn pending_journals_are_listed_in_order() {
    assert_eq!(
        pending_ownership_journals(
            Platform::Posix,
            "/b",
            &texts(&[".takeover-2.json", "x.baseline", ".restore-1.json", ".repair-1.tmp"])
        ),
        ["/b/.restore-1.json", "/b/.takeover-2.json"]
    );
}

#[test]
fn scans_are_compact_or_verbose() {
    let list = vec![
        candidate("/a/codex", SurfaceOwner::Npm, Redirectability::NotRedirectable),
        candidate("/a/./codex", SurfaceOwner::Npm, Redirectability::OwnerManaged),
    ];
    assert_eq!(
        scan_summary(Platform::Posix, &list),
        ["* 1.2.3      npm          notredirectable /a/codex"]
    );
    let lines = print_candidates(Platform::Posix, &list);
    assert_eq!(
        lines[..5],
        [
            "#    precedence           owner        update               redirect     risk       version    path",
            "1    PATH[1]*             npm          npm-global           notredirectable high       1.2.3      /a/codex",
            "     -> /real",
            "     identity /real: dev=1 ino=2 bytes=3 modified-ns=-4",
            "     because",
        ]
    );
    assert_eq!(pad("ab", 4), "ab  ");
    assert_eq!(pad("abcde", 4), "abcde");
    assert_eq!(short_text("abcdef", 3), "abc");
    assert_eq!(
        generation_line("activated", &generation("x")),
        "activated Codex 1.2.3 (bbbbbbbbbbbb)"
    );
}
