use codex_patcher::paths::Platform;
use codex_patcher::build::BuildFailure;
use codex_patcher::config::{Branch, Config};
use codex_patcher::patchset::{Patch, PatchSet};
use codex_patcher::repair::{
    check_no_rejects_or_unmerged, check_staged_changes, choose_build_repair_name, commit_message,
    confirm_replacements, diff_lines, export_normalized_patches, find_reject_files,
    generate_repair_prompt, git_failure, launch_last_good_codex, maintenance_command,
    patch_file_change, preview_line, reject_name, validate_failure_id, validate_revision, Diff,
    ExportStep, PatchCommit, RepairConfirmation, RepairPromptContext, RunRepairOptions,
    WorktreeEntry, BUILD_REPAIR_PATCH_BASENAME, MAINTENANCE_ENV,
};
use codex_patcher::repair_run::{
    next_patch_step, next_run_step, Opening, PatchFacts, PatchStep, RunFacts, RunStep,
};
use codex_patcher::repair_session::{
    activate_repaired_generation, begin_applying, build_repair_added, build_repair_amended,
    check_commit, check_open_session, check_replaced, check_session_still_current, finish_applying,
    finish_build_repair, finish_conflicted_patch, maintenance_context, next_patch,
    next_session_step, open_repair, patch_committed, patch_conflicted, record_build_failure,
    record_repair_worktree, record_validated_generation, repair_log_path, repair_session_path,
    repaired_desired, revalidate_persisted_generation, validate_failure_config, BuildRepair,
    RepairEntry, RepairInputs, RepairSession, RepairStage, SessionFacts, SessionStep, WorktreeKind,
};
use codex_patcher::replacement::{
    begin_journal, check_snapshot, checked_target, complete_patch_stack_replacements,
    journaled_replace, mark_entry, next_apply_step, patch_stack_replacements,
    prepare_replacements, recover_replacement_journal, rollback_journal, snapshot_files,
    validate_relative_path, ApplyStep, EntryState, ExportedPatch, FileReplacement, JournalPhase,
    ReplaceFacts, ReplaceStep, ReplacementAction, Target, Undo, Way,
};
use codex_patcher::state::InstallState;
use codex_patcher::types::{
    DesiredBuild, FailureRecord, GenerationRef, ProbeKind, ResolvedSource, Timestamp,
};

const NOW: Timestamp = Timestamp { nanos: 1_700_000_000_000_000_000 };
const WORKTREES: &str = "/cache/worktrees";
const CONFIG: &[u8] = b"schema = 1\n";

fn texts(values: &[&str]) -> Vec<String> {
    values.iter().map(|value| value.to_string()).collect()
}

fn source() -> ResolvedSource {
    ResolvedSource {
        channel: "stable".to_owned(),
        ref_name: "refs/tags/rust-v1.0.0".to_owned(),
        ref_object_oid: "0".repeat(40),
        commit_oid: "0".repeat(40),
        version: "1.0.0".to_owned(),
        release_url: None,
    }
}

fn desired() -> DesiredBuild {
    DesiredBuild {
        source: source(),
        patch_fingerprint: "f".repeat(64),
        target: "x86_64-unknown-linux-gnu".to_owned(),
        source_key: "a".repeat(64),
    }
}

fn generation(id: &str, fingerprint: &str) -> GenerationRef {
    GenerationRef {
        id: id.to_owned(),
        package_dir: format!("/generations/{id}/package"),
        binary: format!("/generations/{id}/package/bin/codex"),
        source_key: "b".repeat(64),
        source: source(),
        patch_fingerprint: fingerprint.to_owned(),
        target: "x86_64-unknown-linux-gnu".to_owned(),
        subcommands: Vec::new(),
        built_at: NOW,
    }
}

fn failure(phase: &str) -> FailureRecord {
    FailureRecord {
        id: "test-failure".to_owned(),
        desired: desired(),
        phase: phase.to_owned(),
        summary: "test".to_owned(),
        failed_patch_index: None,
        failed_patch: Some("two.patch".to_owned()),
        log_path: "/logs/failure.log".to_owned(),
        created_at: NOW,
        repair_worktree: None,
    }
}

fn session(phase: &str) -> RepairSession {
    RepairSession::new(
        Platform::Posix,
        WORKTREES,
        &failure(phase),
        CONFIG,
        &generation("last-good", &"c".repeat(64)),
    )
}

fn failed_state(phase: &str) -> InstallState {
    let mut state = InstallState::new("/patches", NOW);
    state.activate(generation("last-good", &"c".repeat(64)), NOW);
    state.failure = Some(failure(phase));
    state
}

fn session_facts() -> SessionFacts {
    SessionFacts {
        snapshot: Ok("f".repeat(64)),
        worktree: WorktreeKind::Directory,
        last_good_is_file: true,
    }
}

#[test]
fn maintenance_is_direct_constrained_and_recursion_safe() {
    let command =
        maintenance_command("/generation/bin/codex", "/repair/worktree", "repair this", false);
    assert_eq!(
        command.arguments.join(" "),
        "-c check_for_update_on_startup=false -C /repair/worktree --sandbox workspace-write \
         --ask-for-approval on-request --no-alt-screen repair this"
    );
    assert_eq!(command.program, "/generation/bin/codex");
    assert_eq!(command.environment, (MAINTENANCE_ENV.to_owned(), "1".to_owned()));
    let yolo = maintenance_command(
        "/generation/bin/codex",
        "/repair/worktree",
        "repair this",
        true,
    );
    assert_eq!(
        yolo.arguments.join(" "),
        "-c check_for_update_on_startup=false -C /repair/worktree \
         --dangerously-bypass-approvals-and-sandbox --no-alt-screen repair this"
    );
    let prompt = generate_repair_prompt(&RepairPromptContext {
        failure_id: "failure-1".to_owned(),
        desired_version: "0.145.0".to_owned(),
        upstream_ref: "rust-v0.145.0".to_owned(),
        failed_patch: Some("0002-change.patch".to_owned()),
        phase: "apply".to_owned(),
        summary: "hunk failed".to_owned(),
        log_path: "/state/failure.log".to_owned(),
        patch_dir: "/patches".to_owned(),
    });
    for required in [
        "0002-change.patch",
        "do not edit directly",
        "Do not invoke codex-patcher",
        "Do not commit",
        "Remove every .rej file",
        "focused offline checks",
        "authoritative package rebuild",
    ] {
        assert!(prompt.contains(required));
    }
}

#[test]
fn maintenance_needs_its_binary_and_its_worktree() {
    let launch = |binary, worktree| launch_last_good_codex(
        "/c",
        binary,
        "/w",
        worktree,
        "p",
        false,
    );
    assert_eq!(launch(false, true).err().unwrap(), "last-good Codex does not exist: /c");
    assert_eq!(launch(true, false).err().unwrap(), "repair worktree does not exist: /w");
    assert!(launch(true, true).is_ok());
}

fn replace_facts(targets: Vec<Target>) -> ReplaceFacts {
    ReplaceFacts {
        patch_dir_exists: true,
        recovered: Ok(()),
        targets,
        confirmed: None,
        precheck: None,
    }
}

fn present(bytes: &[u8]) -> Target {
    Target::File { bytes: bytes.to_vec(), mode: Some(0o644) }
}

#[test]
fn replacement_confirms_then_prechecks_and_refuses_drift() {
    let files = vec![
        FileReplacement::write("old.patch", b"new".to_vec()),
        FileReplacement::write("series", b"old.patch\n".to_vec()),
    ];
    let mut facts = replace_facts(vec![present(b"old"), Target::Missing]);
    match journaled_replace(Platform::Posix, "/patches", &files, &facts).unwrap() {
        ReplaceStep::Confirm(set) => {
            assert_eq!(set.previews[0].action, ReplacementAction::Update);
            assert_eq!(set.previews[1].action, ReplacementAction::Create);
        }
        other => panic!("{other:?}"),
    }
    facts.confirmed = Some(Ok(true));
    assert!(matches!(
        journaled_replace(Platform::Posix, "/patches", &files, &facts).unwrap(),
        ReplaceStep::Precheck
    ));
    facts.precheck = Some(Ok(()));
    assert!(matches!(
        journaled_replace(Platform::Posix, "/patches", &files, &facts).unwrap(),
        ReplaceStep::Apply(_)
    ));
    facts.precheck = Some(Err("live fingerprint drifted".to_owned()));
    assert!(journaled_replace(Platform::Posix, "/patches", &files, &facts)
        .err()
        .unwrap()
        .contains("fingerprint drifted"));
    facts.confirmed = Some(Ok(false));
    assert!(matches!(
        journaled_replace(Platform::Posix, "/patches", &files, &facts).unwrap(),
        ReplaceStep::Declined
    ));
}

#[test]
fn interrupted_replacements_are_undone_from_their_backups() {
    let files = vec![
        FileReplacement::write("old.patch", b"new".to_vec()),
        FileReplacement::write("series", b"old.patch\n".to_vec()),
        FileReplacement::delete("gone.patch"),
    ];
    let targets = vec![present(b"old"), Target::Missing, present(b"gone")];
    let set = prepare_replacements(Platform::Posix, "/patches", &files, &targets).unwrap();
    let mut journal = begin_journal(".codex-patcher-repair-1", &set);
    assert_eq!(next_apply_step(&journal), ApplyStep::Begin(0));
    mark_entry(&mut journal, 0, EntryState::Applying);
    assert_eq!(next_apply_step(&journal), ApplyStep::Apply(0));
    mark_entry(&mut journal, 0, EntryState::Applied);
    mark_entry(&mut journal, 1, EntryState::Applying);
    let rollback = recover_replacement_journal(Platform::Posix, &journal);
    assert_eq!(rollback.problem, None);
    assert_eq!(rollback.steps.len(), 2);
    assert!(matches!(&rollback.steps[0], Undo::Remove { relative_path } if relative_path == "series"));
    assert!(matches!(
        &rollback.steps[1],
        Undo::Restore { relative_path, backup, mode }
            if relative_path == "old.patch" && backup == "backup-0" && *mode == Some(0o644)
    ));
    mark_entry(&mut journal, 1, EntryState::Applied);
    mark_entry(&mut journal, 2, EntryState::Applied);
    assert_eq!(next_apply_step(&journal), ApplyStep::Finish);
    journal.phase = JournalPhase::Complete;
    assert_eq!(next_apply_step(&journal), ApplyStep::CleanUp);
    assert!(recover_replacement_journal(Platform::Posix, &journal).steps.is_empty());
    journal.phase = JournalPhase::Applying;
    journal.entries[2].backup = None;
    assert_eq!(
        rollback_journal(Platform::Posix, &journal).problem.as_deref(),
        Some("journal is missing an original-file backup")
    );
    journal.schema = 2;
    assert_eq!(
        recover_replacement_journal(Platform::Posix, &journal).problem.as_deref(),
        Some("unsupported repair journal schema 2")
    );
}

#[test]
fn replacements_are_checked_before_they_are_staged() {
    let prepare = |path: &str, target: Target| {
        prepare_replacements(
            Platform::Posix,
            "/patches",
            &vec![FileReplacement::write(path, Vec::new())],
            &vec![target],
        )
        .err()
        .unwrap()
    };
    assert_eq!(prepare("", Target::Missing), "path is empty");
    assert_eq!(prepare("/x", Target::Missing), "path must be relative: /x");
    assert_eq!(prepare("../x", Target::Missing), "unsafe relative path: ../x");
    assert_eq!(prepare("a\\b", Target::Missing), "unsafe relative path: a\\b");
    assert_eq!(
        prepare("x", Target::Irregular),
        "replacement target is not a regular file: /patches/x"
    );
    assert_eq!(prepare("x", Target::Blocked { message: "no".to_owned() }), "no");
    assert_eq!(
        prepare_replacements(Platform::Posix, "/p", &Vec::new(), &Vec::new()).err().unwrap(),
        "replacement set is empty"
    );
    let twice = vec![
        FileReplacement::write("A.patch", Vec::new()),
        FileReplacement::write("a.patch", Vec::new()),
    ];
    assert_eq!(
        prepare_replacements(
            Platform::Posix,
            "/p",
            &twice,
            &vec![Target::Missing, Target::Missing],
        ).err().unwrap(),
        "duplicate or case-colliding replacement: a.patch"
    );
    assert_eq!(
        prepare_replacements(
            Platform::Posix,
            "/p",
            &vec![FileReplacement::delete("x")],
            &vec![Target::Missing]
        )
        .err()
        .unwrap(),
        "cannot delete missing file /p/x"
    );
    assert!(validate_relative_path(Platform::Posix, "a/b.patch").is_ok());
    assert_eq!(
        checked_target(
            Platform::Posix,
            "/p",
            "a/b/c",
            &vec![Way::Directory, Way::Missing],
        ).unwrap(),
        "/p/a/b/c"
    );
    assert_eq!(
        checked_target(
            Platform::Posix,
            "/p",
            "a/b/c",
            &vec![Way::Directory, Way::Other],
        ).err().unwrap(),
        "replacement path traverses a non-directory or symlink: /p/a/b"
    );
}

#[test]
fn conflict_resume_and_build_only_repairs_preserve_patch_order() {
    let names = texts(&["one.patch", "two.patch"]);
    let base = "0".repeat(40);
    let first = "1".repeat(40);
    let second = "2".repeat(40);
    let mut session = session("patch");
    assert_eq!(next_session_step(&session), SessionStep::Apply);
    assert_eq!(begin_applying(&mut session, &base, ""), Ok(true));
    assert_eq!(next_patch(&session, names.len()), Some(0));
    patch_committed(&mut session, 0, &names[0], &base, &format!("{first}\n"));
    assert_eq!(next_patch(&session, names.len()), Some(1));
    patch_conflicted(&mut session, 1, &Vec::new()).unwrap();
    assert_eq!(session.commits.len(), 1);
    assert_eq!(
        session.stage,
        RepairStage::Applying { next_index: 1, conflicted_index: Some(1) }
    );
    assert_eq!(next_session_step(&session), SessionStep::ResolveConflict(1));
    let rejects = find_reject_files(
        Platform::Posix,
        "/w",
        true,
        &vec![
            WorktreeEntry { relative_path: "file.txt.rej".to_owned(), is_dir: false },
            WorktreeEntry { relative_path: ".git/internal.rej".to_owned(), is_dir: false },
            WorktreeEntry { relative_path: "a.rej".to_owned(), is_dir: true },
        ],
    )
    .unwrap();
    assert_eq!(rejects, ["/w/file.txt.rej"]);
    assert!(finish_conflicted_patch(&mut session, 1, 2, &first, &rejects, "").is_err());
    finish_conflicted_patch(&mut session, 1, 2, &first, &Vec::new(), "").unwrap();
    patch_committed(&mut session, 1, &names[1], &first, &second);
    assert_eq!(begin_applying(&mut session, &second, ""), Ok(true));
    assert_eq!(next_patch(&session, names.len()), None);
    finish_applying(&mut session);
    assert_eq!(session.stage, RepairStage::ReadyToBuild);
    assert_eq!(session.commits.len(), 2);
    let diffs = vec![Diff::Bytes(b"1".to_vec()), Diff::Bytes(b"2".to_vec())];
    match export_normalized_patches(
        Platform::Posix,
        "/w",
        true,
        &session.commits,
        &diffs,
    ).unwrap() {
        ExportStep::Done(exported) => {
            assert_eq!(exported[0].name, "one.patch");
            assert_eq!(exported[1].name, "two.patch");
        }
        other => panic!("{other:?}"),
    }
    session.stage = RepairStage::BuildRepair;
    match finish_build_repair(
        Platform::Posix,
        &mut session,
        &names,
        &second,
        &Vec::new(),
        "",
        "?? repair.txt",
    ) {
        Ok(BuildRepair::Add { name }) => {
            assert_eq!(name, BUILD_REPAIR_PATCH_BASENAME);
            build_repair_added(&mut session, &name, &second, &"3".repeat(40));
        }
        other => panic!("{other:?}"),
    }
    assert_eq!(session.commits.len(), 3);
    assert_eq!(session.commits[2].name, BUILD_REPAIR_PATCH_BASENAME);
    assert_eq!(next_session_step(&session), SessionStep::Build);
    let problem = BuildFailure::new("build", "linker", "/log", &Vec::new());
    let message = record_build_failure(Platform::Posix, &mut session, &problem, None);
    assert!(message.contains("repair test-failure"), "{message}");
    assert_eq!(next_session_step(&session), SessionStep::RepairBuild);
    assert!(matches!(
        finish_build_repair(
            Platform::Posix,
            &mut session,
            &names,
            &"3".repeat(40),
            &Vec::new(),
            "",
            "M x",
        ),
        Ok(BuildRepair::Amend)
    ));
    build_repair_amended(&mut session, &"4".repeat(40));
    assert_eq!(session.commits.len(), 3);
    assert_eq!(session.commits[2].commit, "4".repeat(40));
}

#[test]
fn sessions_refuse_worktrees_that_drifted() {
    let mut open = session("patch");
    let message = begin_applying(&mut open, &"9".repeat(40), "").err().unwrap();
    assert!(message.starts_with("repair worktree HEAD drifted: expected 000"), "{message}");
    let message = begin_applying(&mut open, &"0".repeat(40), " M file\n").err().unwrap();
    assert!(message.contains("unexpected changes"), "{message}");
    open.stage = RepairStage::Applying { next_index: 1, conflicted_index: None };
    assert_eq!(
        begin_applying(&mut open, &"0".repeat(40), "").err().unwrap(),
        "repair session commit/index mismatch"
    );
    let mut idle = session("build");
    finish_applying(&mut idle);
    assert_eq!(idle.stage, RepairStage::BuildRepair);
    let message = finish_build_repair(
        Platform::Posix,
        &mut idle,
        &Vec::new(),
        &"0".repeat(40),
        &Vec::new(),
        "",
        " \n",
    )
    .err()
    .unwrap();
    assert!(message.contains("left no tracked or untracked repair changes"), "{message}");
    assert!(patch_conflicted(&mut idle, 0, &texts(&["x.rej"])).is_err());
    assert!(check_commit(Platform::Posix, "../x", Some(1), "").is_err());
    assert!(check_commit(Platform::Posix, "x.patch", Some(1), "").is_ok());
}

fn inputs(live: &str) -> RepairInputs {
    RepairInputs {
        binary_is_file: true,
        recovered: Ok(()),
        live: Ok(live.to_owned()),
        config_bytes: Ok(CONFIG.to_vec()),
        config: Ok(Config::default()),
    }
}

#[test]
fn repairs_open_resume_or_go_straight_to_activation() {
    let state = failed_state("patch");
    let open = |inputs: &RepairInputs, saved: Result<Option<RepairSession>, String>| {
        open_repair(
            Platform::Posix,
            &state,
            &failure("patch"),
            inputs,
            &saved,
            &session_facts(),
            WORKTREES,
            "linux",
            "x86_64",
        )
    };
    let live = "f".repeat(64);
    assert!(matches!(open(&inputs(&live), Ok(None)).unwrap(), RepairEntry::Prepare(_)));
    assert!(matches!(
        open(&inputs(&live), Ok(Some(session("patch")))).unwrap(),
        RepairEntry::Resume(_)
    ));
    let changed = "e".repeat(64);
    assert_eq!(
        open(&inputs(&changed), Ok(None)).err().unwrap(),
        "live patch inputs changed after failure test-failure; launch Codex again or retry update"
    );
    let mut validated = session("patch");
    record_validated_generation(&mut validated, &generation("new", &changed));
    match open(&inputs(&changed), Ok(Some(validated))).unwrap() {
        RepairEntry::Activate(generation) => assert_eq!(generation.id, "new"),
        other => panic!("{other:?}"),
    }
    let mut gone = inputs(&live);
    gone.binary_is_file = false;
    assert!(open(&gone, Ok(None)).err().unwrap().starts_with("last-good Codex does not exist"));
    let mut nightly = inputs(&live);
    let mut config = Config::default();
    config.branch = Branch::Nightly;
    nightly.config = Ok(config);
    assert_eq!(
        open(&nightly, Ok(None)).err().unwrap(),
        "configured channel changed from stable to nightly after the recorded failure"
    );
    assert!(validate_failure_config(&Config::default(), &failure("patch"), "macos", "aarch64")
        .err()
        .unwrap()
        .starts_with("configured build target changed"));
}

#[test]
fn sessions_are_held_to_their_failure_and_inputs() {
    let good = session("patch");
    let live = "f".repeat(64);
    let last_good = generation("last-good", &"c".repeat(64));
    let check = |session: &RepairSession, facts: &SessionFacts, live: &str| {
        check_open_session(
            Platform::Posix,
            WORKTREES,
            session,
            &failure("patch"),
            CONFIG,
            facts,
            live,
            &last_good,
        )
    };
    assert_eq!(check(&good, &session_facts(), &live), Ok(()));
    assert!(check(&good, &session_facts(), "other").is_err());
    let mut corrupt = session_facts();
    corrupt.snapshot = Ok("x".to_owned());
    assert_eq!(
        check(&good, &corrupt, &live).err().unwrap(),
        "persisted repair patch snapshot is corrupt"
    );
    let mut missing = session_facts();
    missing.worktree = WorktreeKind::Missing { message: "gone".to_owned() };
    assert_eq!(
        check(&good, &missing, &live).err().unwrap(),
        "persisted repair worktree is missing: /cache/worktrees/repair-test-failure: gone"
    );
    let mut foreign = session("patch");
    foreign.worktree = "/elsewhere".to_owned();
    assert_eq!(
        check(&foreign, &session_facts(), &live).err().unwrap(),
        "repair session contains paths outside the patcher-owned worktree area"
    );
    let mut newer = session("patch");
    newer.schema = 3;
    assert_eq!(
        check(&newer, &session_facts(), &live).err().unwrap(),
        "unsupported repair session schema 3"
    );
    let state = failed_state("patch");
    let current = |config: &[u8]| {
        check_session_still_current(
            Platform::Posix,
            &good,
            &state,
            &Ok("f".repeat(64)),
            &Ok(config.to_vec()),
        )
    };
    assert_eq!(current(CONFIG), Ok(()));
    assert_eq!(current(b"x").err().unwrap(), "codex-patcher.toml changed during repair");
}

#[test]
fn repaired_generations_are_activated_once_everything_agrees() {
    let mut state = failed_state("patch");
    let open = session("patch");
    let installed = "e".repeat(64);
    let candidate = PatchSet {
        root: "/c".to_owned(),
        patches: Vec::new(),
        fingerprint: installed.clone(),
    };
    let wanted = repaired_desired(&open, &candidate);
    assert_eq!(wanted.patch_fingerprint, installed);
    assert_eq!(wanted.source, source());
    let mut repaired = generation("new", &installed);
    repaired.source_key = wanted.source_key.clone();
    let mut activate = |live: &str| {
        activate_repaired_generation(
            &mut state,
            &open,
            &repaired,
            &wanted,
            &installed,
            &Ok(live.to_owned()),
            NOW,
        )
    };
    assert_eq!(
        activate("other").err().unwrap(),
        "installed repaired patch stack does not match validated candidate"
    );
    assert_eq!(activate(&installed), Ok(()));
    assert_eq!(
        activate(&installed).err().unwrap(),
        "recorded failure disappeared before repair activation"
    );
    assert_eq!(state.active.as_ref().unwrap().id, "new");
    assert_eq!(state.previous.as_ref().unwrap().id, "last-good");
    assert!(matches!(state.probe.kind, ProbeKind::Current));
    assert!(revalidate_persisted_generation(
        Platform::Posix,
        &repaired,
        &wanted,
        &Ok(repaired.clone()),
    ).is_ok());
    assert!(revalidate_persisted_generation(
        Platform::Posix,
        &repaired,
        &wanted,
        &Ok(generation("else", &installed))
    )
    .is_err());
    assert!(revalidate_persisted_generation(
        Platform::Posix,
        &repaired,
        &desired(),
        &Ok(repaired.clone()),
    ).is_err());
    assert_eq!(
        check_replaced(&Ok(false)).err().unwrap(),
        "repair patch replacement was declined; validated generation remains staged"
    );
}

#[test]
fn the_failure_remembers_where_it_is_repaired() {
    let mut state = failed_state("patch");
    record_repair_worktree(&mut state, &failure("patch"), "/w").unwrap();
    assert_eq!(
        state.failure.as_ref().unwrap().repair_worktree.as_deref(),
        Some("/w")
    );
    let mut other = failure("patch");
    other.id = "other".to_owned();
    assert!(record_repair_worktree(&mut state, &other, "/w").is_err());
    let context =
        maintenance_context(
            &session("patch"),
            &failure("patch"),
            Some(0),
            &texts(&["one.patch"]),
            "/p",
        );
    assert_eq!(context.failed_patch.as_deref(), Some("one.patch"));
    let context = maintenance_context(
        &session("patch"),
        &failure("patch"),
        None,
        &Vec::new(),
        "/p",
    );
    assert_eq!(context.failed_patch.as_deref(), Some("two.patch"));
}

#[test]
fn exports_check_each_commit_before_its_diff() {
    let commit = |name: &str, parent: &str| PatchCommit {
        parent: parent.to_owned(),
        commit: "c".repeat(40),
        name: name.to_owned(),
    };
    let one = vec![commit("a.patch", "p")];
    assert!(matches!(
        export_normalized_patches(Platform::Posix, "/w", true, &one, &Vec::new()).unwrap(),
        ExportStep::Diff(0)
    ));
    let fails = |commits: Vec<PatchCommit>, diffs: Vec<Diff>| {
        export_normalized_patches(Platform::Posix, "/w", true, &commits, &diffs).err().unwrap()
    };
    assert_eq!(
        fails(vec![commit("a.patch", "p")], vec![Diff::Bytes(Vec::new())]),
        "patch a.patch produced an empty diff"
    );
    assert_eq!(
        fails(vec![commit("a.diff", "p")], Vec::new()),
        "exported patch name must end in .patch: a.diff"
    );
    assert_eq!(
        fails(vec![commit("a.patch", "-p")], Vec::new()),
        "unsafe Git revision: -p"
    );
    assert_eq!(
        fails(vec![commit("a.patch", "p")], vec![Diff::Failed(b"bad\nrev".to_vec())]),
        "git diff failed for a.patch: bad rev"
    );
    assert_eq!(
        fails(
            vec![commit("a.patch", "p"), commit("A.patch", "p")],
            vec![Diff::Bytes(b"x".to_vec())]
        ),
        "duplicate or case-colliding patch name: A.patch"
    );
    assert_eq!(
        fails(
            vec![commit("a.patch", "p")],
            vec![Diff::Unavailable { message: "no git".to_owned() }]
        ),
        "exporting patch a.patch: no git"
    );
    assert!(export_normalized_patches(Platform::Posix, "/w", false, &one, &Vec::new()).is_err());
    assert_eq!(validate_revision("").err().unwrap(), "Git revision is empty");
    assert!(validate_revision("a b").is_err());
}

#[test]
fn stacks_are_written_with_their_series() {
    let exported = vec![
        ExportedPatch { name: "b.patch".to_owned(), bytes: b"1".to_vec() },
        ExportedPatch { name: "a.patch".to_owned(), bytes: b"2".to_vec() },
    ];
    let files = patch_stack_replacements(&exported);
    assert_eq!(files.len(), 3);
    assert_eq!(files[2].relative_path, "series");
    assert_eq!(files[2].contents.as_deref(), Some(b"b.patch\na.patch\n".as_slice()));
    let all = complete_patch_stack_replacements(
        Platform::Posix,
        &texts(&["a.patch", "old.patch"]),
        &exported,
    );
    assert_eq!(all.len(), 4);
    assert_eq!(all[3].relative_path, "old.patch");
    assert_eq!(all[3].contents, None);
    let names = texts(&["a.patch", "b.patch"]);
    assert_eq!(
        codex_patcher::patchset::load_series(
            Platform::Posix,
            &names,
            "b.patch\na.patch\n",
        ).unwrap(),
        ["b.patch", "a.patch"]
    );
    let snapshot = snapshot_files(
        Platform::Posix,
        &vec![Patch { path: "a.patch".to_owned(), bytes: b"x".to_vec() }],
        CONFIG,
    )
    .unwrap();
    assert_eq!(snapshot[0].relative_path, "codex-patcher.toml");
    assert_eq!(snapshot[2].contents.as_deref(), Some(b"a.patch\n".as_slice()));
    assert!(check_snapshot(&Ok("x".to_owned()), "x").is_ok());
    assert_eq!(
        check_snapshot(&Ok("y".to_owned()), "x").err().unwrap(),
        "repair snapshot fingerprint changed while writing"
    );
}

#[test]
fn changes_are_shown_between_their_common_lines() {
    assert_eq!(
        diff_lines(b"a\nb\nc\n", b"a\nx\ty\nc\n"),
        ["-b", "+x y"]
    );
    assert_eq!(diff_lines(b"a\na\n", b"a\n"), ["-a"]);
    let bytes = |text: &[u8]| Some(text.to_vec());
    assert_eq!(
        patch_file_change("p", &None, &bytes(b"1\n2")),
        ["--- old/p", "+++ new/p", "+1", "+2"]
    );
    assert_eq!(
        patch_file_change("p", &bytes(b"1"), &None),
        ["--- old/p", "+++ new/p", "-1"]
    );
    assert!(patch_file_change("p", &bytes(b"1"), &bytes(b"1")).is_empty());
    let set = prepare_replacements(
        Platform::Posix,
        "/p",
        &vec![FileReplacement::delete("x")],
        &vec![present(b"abc")],
    )
    .unwrap();
    assert_eq!(
        preview_line(&set.previews[0]),
        "  Delete x  ba7816bf8f01cfea414140de5dae2223b00361a396177a9cb410ff61f20015ad -> deleted"
    );
}

#[test]
fn names_ids_and_messages_have_their_forms() {
    assert_eq!(
        choose_build_repair_name(&texts(&["Codex-Patcher-Build-Repair.patch"])).unwrap(),
        "codex-patcher-build-repair-1.patch"
    );
    assert!(validate_failure_id("a-b_1").is_ok());
    assert_eq!(
        validate_failure_id("../x").err().unwrap(),
        "unsafe failure id \"../x\""
    );
    assert!(validate_failure_id(&"a".repeat(129)).is_err());
    assert_eq!(reject_name(0, b"abc"), "0001-ba7816bf8f01.rej");
    assert_eq!(
        commit_message(false, 0, 2, "one.patch"),
        "codex-patcher synthetic patch 1/2: one.patch"
    );
    assert_eq!(
        commit_message(true, 1, 2, "two.patch"),
        "codex-patcher repaired synthetic patch 2/2: two.patch"
    );
    assert_eq!(git_failure(false, b"fatal:\nno"), "git command failed: fatal: no");
    assert_eq!(git_failure(true, b"\xff"), "synthetic Git commit failed: \u{fffd}");
    assert_eq!(
        check_staged_changes(Some(0), "exit status: 0").err().unwrap(),
        "repaired patch produced no changes; preserve its intent before continuing"
    );
    assert_eq!(
        check_staged_changes(Some(2), "exit status: 2").err().unwrap(),
        "git diff --cached failed with exit status: 2"
    );
    assert_eq!(
        check_no_rejects_or_unmerged(&Vec::new(), "a\nb\n").err().unwrap(),
        "repair remains incomplete; unresolved paths: a b"
    );
    let options = |confirmation| RunRepairOptions { confirmation, yolo_mode: false };
    assert_eq!(confirm_replacements(options(RepairConfirmation::Accept), false), Ok(Some(true)));
    assert_eq!(confirm_replacements(options(RepairConfirmation::Decline), true), Ok(Some(false)));
    assert_eq!(confirm_replacements(RunRepairOptions::default(), true), Ok(None));
    assert!(confirm_replacements(RunRepairOptions::default(), false).is_err());
}

#[test]
fn repairs_replace_the_patches_only_after_the_build() {
    let ready = RepairStage::ReadyToBuild;
    let mut facts = RunFacts::new();
    assert!(matches!(next_run_step(ready, &facts), RunStep::Open));
    facts.opened = Some(Ok(Opening::Resume));
    assert!(matches!(next_run_step(ready, &facts), RunStep::RememberWorktree));
    facts.entered = Some(Ok(()));
    assert!(matches!(next_run_step(ready, &facts), RunStep::CheckSession));
    facts.checked = Some(Ok(()));
    let conflict = RepairStage::Applying { next_index: 1, conflicted_index: Some(1) };
    assert!(matches!(
        next_run_step(conflict, &facts),
        RunStep::Work(SessionStep::ResolveConflict(1))
    ));
    assert!(matches!(next_run_step(ready, &facts), RunStep::Export));
    facts.exported = Some(Ok(()));
    facts.written = Some(Ok(()));
    facts.current = Some(Ok(()));
    assert!(matches!(next_run_step(ready, &facts), RunStep::Build));
    facts.built = Some(Err("still broken".to_owned()));
    match next_run_step(ready, &facts) {
        RunStep::Fail { message } => assert_eq!(message, "still broken"),
        other => panic!("{other:?}"),
    }
    facts.built = Some(Ok(()));
    assert!(matches!(next_run_step(ready, &facts), RunStep::RecordValidated));
    facts.recorded = Some(Ok(()));
    assert!(matches!(next_run_step(ready, &facts), RunStep::Replace));
    facts.replaced = Some(Ok(false));
    match next_run_step(ready, &facts) {
        RunStep::Fail { message } => assert_eq!(
            message,
            "repair patch replacement was declined; validated generation remains staged"
        ),
        other => panic!("{other:?}"),
    }
    facts.replaced = Some(Ok(true));
    assert!(matches!(next_run_step(ready, &facts), RunStep::Revalidate));
    facts.revalidated = Some(Ok(()));
    assert!(matches!(next_run_step(ready, &facts), RunStep::Activate));
    facts.activated = Some(Ok(()));
    assert!(matches!(next_run_step(ready, &facts), RunStep::Done));
}

#[test]
fn installed_repairs_are_only_activated() {
    let ready = RepairStage::ReadyToBuild;
    let mut facts = RunFacts::new();
    facts.opened = Some(Ok(Opening::Activate));
    assert!(matches!(next_run_step(ready, &facts), RunStep::Revalidate));
    facts.revalidated = Some(Ok(()));
    assert!(matches!(next_run_step(ready, &facts), RunStep::Activate));
}

#[test]
fn session_patches_are_applied_strictly() {
    let mut facts = PatchFacts::new();
    assert!(matches!(next_patch_step(Platform::Posix, "a.patch", &facts), PatchStep::Check));
    facts.checked = Some(Ok(true));
    assert!(matches!(next_patch_step(Platform::Posix, "a.patch", &facts), PatchStep::Apply));
    facts.applied = Some(Ok(false));
    match next_patch_step(Platform::Posix, "a.patch", &facts) {
        PatchStep::Fail { message } => assert_eq!(
            message,
            "git apply --index failed after a successful check for a.patch"
        ),
        other => panic!("{other:?}"),
    }
    facts.applied = Some(Ok(true));
    assert!(matches!(next_patch_step(Platform::Posix, "a.patch", &facts), PatchStep::Compare));
    facts.compared = Some(Ok((Some(0), "exit status: 0".to_owned())));
    assert!(matches!(next_patch_step(Platform::Posix, "a.patch", &facts), PatchStep::Fail { .. }));
    facts.compared = Some(Ok((Some(1), "exit status: 1".to_owned())));
    assert!(matches!(next_patch_step(Platform::Posix, "a.patch", &facts), PatchStep::Commit));
    facts.committed = Some(Ok(()));
    assert!(matches!(next_patch_step(Platform::Posix, "a.patch", &facts), PatchStep::Committed));
    facts.checked = Some(Ok(false));
    assert!(matches!(next_patch_step(Platform::Posix, "a.patch", &facts), PatchStep::ListRejects));
    facts.rejects = Some(Ok(vec!["old.rej".to_owned()]));
    assert!(matches!(next_patch_step(Platform::Posix, "a.patch", &facts), PatchStep::Fail { .. }));
    facts.rejects = Some(Ok(Vec::new()));
    facts.rejected = Some(Ok(()));
    assert!(matches!(next_patch_step(Platform::Posix, "a.patch", &facts), PatchStep::ListLeft));
    facts.left = Some(Ok(Vec::new()));
    assert!(matches!(next_patch_step(Platform::Posix, "a.patch", &facts), PatchStep::KeepPatch));
    facts.left = Some(Ok(vec!["new.rej".to_owned()]));
    assert!(matches!(next_patch_step(Platform::Posix, "a.patch", &facts), PatchStep::Conflicted));
}

#[test]
fn repair_sessions_are_named_by_their_failure() {
    assert_eq!(repair_session_path(
        Platform::Posix,
        WORKTREES,
        "f1",
    ), "/cache/worktrees/.repair-f1.json");
    assert_eq!(repair_log_path(Platform::Posix, "/logs", "f1"), "/logs/repair-f1.log");
}
