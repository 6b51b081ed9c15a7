use codex_patcher::cas::{
    cas_paths, next_swap_step, recover_restore_swap, recover_shim_swap, RestoreArtifacts, Swap,
    SwapFacts, SwapRecovery, SwapStep, TakeoverArtifacts,
};
use codex_patcher::journal::{
    check_finalize_repair, check_finalize_restore, check_journal_size, check_repair_request, check_repaired_record,
    check_restore_record, classify_repair_journal, classify_restore_journal,
    classify_takeover_journal, cleanup_unused_baseline, complete_repair_journal, complete_restore,
    complete_takeover, is_journal_name, journal_file_name, journal_path_of, journal_paths,
    prepare_repair_journal, prepare_restore, prepare_takeover, recover_redirect_journals,
    repair_redirect, validate_repair_journal, validate_restore_journal, validate_takeover_journal,
    BackupEntry, InspectedTakeover, RepairDisposition, RepairOutcome, RestoreDisposition,
    TakeoverAction,
};
use codex_patcher::paths::Platform;
use codex_patcher::security::{
    attribute_names, owner_to_restore, sorted_attributes, stale_attributes,
};
use codex_patcher::patchset::sha256_hex;
use codex_patcher::shim::{
    BaselineBackup, BaselineKind, ExtendedAttribute, FileIdentity, SecurityMetadata, ShimForm,
    SurfaceRecord,
};
use codex_patcher::state::JournalKind;
use codex_patcher::surface::{
    baseline_is_untouched, baseline_matches_current, candidate_matches_shim, capture_baseline,
    capture_surface_snapshot,
    file_identity, inspect_installed_shim, matches_recorded_shim, matches_shim,
    snapshot_matches_current, validate_record, validate_redirect_paths,
    validate_surface_launcher_type, windows_shim_bytes, windows_shim_form, FileFacts, FileKind,
};
use codex_patcher::transactions::{
    next_repair_step, next_restore_step, next_takeover_step, RepairFacts, RepairStep, RestoreFacts,
    RestoreStep, TakeoverFacts, TakeoverStep,
};
use codex_patcher::types::Timestamp;
use codex_patcher::updater::{
    apply_codex_update_manager_disable, disable_codex_update_manager, inspect_codex_update_manager,
    planned_disable, restore_codex_update_manager, systemctl_action, UnitCommand,
};

const NOW: Timestamp = Timestamp { nanos: 1_700_000_000_000_000_000 };
const SURFACE: &str = "/home/me/bin/codex";
const MANAGER: &str = "/home/me/patcher/bin/codex-patcher";
const BACKUPS: &str = "/home/me/patcher/backups";

fn security() -> SecurityMetadata {
    let mut security = SecurityMetadata::default();
    security.unix_uid = Some(1000);
    security.unix_gid = Some(1000);
    security.extended_attributes = vec![ExtendedAttribute {
        name: b"user.codex-patcher-test".to_vec(),
        value: b"preserve me".to_vec(),
    }];
    security
}

fn identity(inode: u64) -> FileIdentity {
    let mut identity = FileIdentity::default();
    identity.device = Some(1);
    identity.inode = Some(inode);
    identity.length = 8;
    identity.modified_ns = Some(5);
    identity
}

fn file(hash: &str, inode: u64) -> Option<FileFacts> {
    Some(FileFacts {
        kind: FileKind::File,
        mode: Some(0o100751),
        identity: identity(inode),
        security: security(),
        link_target: None,
        sha256: Some(hash.to_owned()),
    })
}

fn link(target: &str, inode: u64) -> Option<FileFacts> {
    Some(FileFacts {
        kind: FileKind::Symlink,
        mode: Some(0o120777),
        identity: identity(inode),
        security: security(),
        link_target: Some(target.to_owned()),
        sha256: None,
    })
}

fn baseline(found: &Option<FileFacts>, hash: &str) -> BaselineBackup {
    let backup = Some((format!("{BACKUPS}/x.baseline"), hash.to_owned()));
    capture_baseline(Platform::Posix, SURFACE, found, &backup, found).unwrap()
}

fn installed() -> SurfaceRecord {
    let original = file("original", 1);
    let journal = prepare_takeover(7, SURFACE, MANAGER, &baseline(&original, "original"), NOW);
    let shim = inspect_installed_shim(
        Platform::Posix,
        SURFACE,
        MANAGER,
        &link(MANAGER, 2),
    ).unwrap();
    complete_takeover(&journal, &shim, NOW).1
}

/// The manager's bytes, which only Windows asks for.
fn unread() -> Result<String, String> {
    Err("manager was not read".to_owned())
}

#[test]
fn file_baseline_round_trips_exact_bytes_mode_and_security_metadata() {
    let original = file("original", 1);
    let baseline = baseline(&original, "original");
    assert_eq!(baseline.kind, BaselineKind::File);
    assert_eq!(baseline.mode, Some(0o100751));
    assert!(baseline.security.as_ref().unwrap().same_as(&security()));
    // A restored copy has the same bytes, mode and metadata under another inode.
    assert!(baseline_matches_current(Platform::Posix, &file("original", 9), &baseline));
    assert!(!baseline_is_untouched(Platform::Posix, &file("original", 9), &baseline));
    assert!(!baseline_matches_current(Platform::Posix, &file("changed", 9), &baseline));
    let mut other = file("original", 9);
    other.as_mut().unwrap().mode = Some(0o100755);
    assert!(!baseline_matches_current(Platform::Posix, &other, &baseline));
}

#[test]
fn relative_symlink_baseline_is_restored_verbatim() {
    let found = link("original", 1);
    let baseline = capture_baseline(Platform::Posix, SURFACE, &found, &None, &found).unwrap();
    assert_eq!(baseline.kind, BaselineKind::Symlink);
    assert_eq!(baseline.symlink_target.as_deref(), Some("original"));
    assert!(baseline_matches_current(Platform::Posix, &link("original", 5), &baseline));
    assert!(!baseline_matches_current(Platform::Posix, &link("elsewhere", 5), &baseline));
}

#[test]
fn atomic_cas_races_and_external_drift_never_clobber_owner() {
    let baseline = baseline(&file("original", 1), "original");
    assert!(!baseline_is_untouched(Platform::Posix, &file("racing takeover", 3), &baseline));
    let mut facts = SwapFacts {
        validated: Some(Ok(())),
        clear: Some(None),
        created: Some(Ok(())),
        snapshot: Some(Ok(())),
        swapped: Some(Ok(())),
        intact: Some(true),
        displaced: Some(Ok(false)),
        rolled_back: None,
        cleaned: None,
    };
    let step = |facts: &SwapFacts| {
        next_swap_step(Swap::Install { missing: false }, SURFACE, "/home/me/bin/.old", facts)
    };
    assert!(matches!(step(&facts), SwapStep::RollBack));
    facts.rolled_back = Some(Ok(()));
    assert!(!matches!(step(&facts), SwapStep::Done | SwapStep::RemoveDisplaced));

    let record = installed();
    assert!(!matches_recorded_shim(Platform::Posix, &file("racing uninstall", 4), &record));
    assert!(prepare_restore(Platform::Posix, &record, &file("racing uninstall", 4), NOW).is_err());
}

#[test]
fn prepared_takeover_recovers_after_atomic_mutation() {
    let original = file("original", 1);
    let journal = prepare_takeover(7, SURFACE, MANAGER, &baseline(&original, "original"), NOW);
    let path = journal_path_of(Platform::Posix, JournalKind::Takeover, BACKUPS, 7);
    assert!(validate_takeover_journal(Platform::Posix, &journal, &path).is_ok());
    match classify_takeover_journal(
        Platform::Posix,
        &journal,
        &path,
        &original,
        &unread(),
    ).unwrap() {
        TakeoverAction::NoMutation => {}
        other => panic!("{other:?}"),
    }
    let recovered = recover_redirect_journals(Platform::Posix, &vec![InspectedTakeover {
        journal,
        path,
        found: link(MANAGER, 2),
        image: unread(),
    }])
    .unwrap();
    assert_eq!(recovered.len(), 1);
    match &recovered[0] {
        TakeoverAction::Installed { completed, record } => {
            assert!(matches_recorded_shim(Platform::Posix, &link(MANAGER, 2), record));
            assert!(completed.installed.is_some());
        }
        other => panic!("{other:?}"),
    }
}

#[test]
fn drifted_takeovers_are_left_alone() {
    let original = file("original", 1);
    let journal = prepare_takeover(7, SURFACE, MANAGER, &baseline(&original, "original"), NOW);
    let path = journal_path_of(Platform::Posix, JournalKind::Takeover, BACKUPS, 7);
    assert!(classify_takeover_journal(
        Platform::Posix,
        &journal,
        &path,
        &file("drift", 8),
        &unread(),
    ).is_err());
}

#[test]
fn journaled_adopt_repair_is_recoverable_and_restores_new_baseline() {
    let record = installed();
    let update = file("owner update", 5);
    assert!(repair_redirect(Platform::Posix, &record, MANAGER, &update, &unread(), false).is_err());
    let outcome = repair_redirect(
        Platform::Posix,
        &record,
        MANAGER,
        &update,
        &unread(),
        true,
    ).unwrap();
    assert_eq!(outcome, RepairOutcome::AdoptedAndReinstalled);
    let observed = capture_surface_snapshot(Platform::Posix, SURFACE, &update, &update).unwrap();
    assert!(snapshot_matches_current(Platform::Posix, &update, &observed));
    let adopted = baseline(&update, "owner update");
    let mut journal =
        prepare_repair_journal(
            Platform::Posix, &record, MANAGER, outcome, adopted, observed, &update, &unread(), NOW,
        )
        .unwrap();
    let path = journal_path_of(Platform::Posix, JournalKind::Repair, BACKUPS, 7);
    assert!(matches!(
        classify_repair_journal(Platform::Posix, &journal, &path, &update, &unread()).unwrap(),
        RepairDisposition::RetryObserved
    ));
    let shim = inspect_installed_shim(
        Platform::Posix,
        SURFACE,
        MANAGER,
        &link(MANAGER, 6),
    ).unwrap();
    let (updated, at) =
        complete_repair_journal(Platform::Posix, &journal, &shim, &link(MANAGER, 6), NOW).unwrap();
    assert_eq!(updated.id, record.id);
    assert_eq!(updated.baseline.sha256.as_deref(), Some("owner update"));
    journal.updated = Some(updated.clone());
    journal.completed_at = Some(at);
    assert!(matches_recorded_shim(Platform::Posix, &link(MANAGER, 6), &updated));
    assert!(baseline_matches_current(
        Platform::Posix,
        &file("owner update", 30),
        &updated.baseline,
    ));
}

#[test]
fn unchanged_redirects_need_no_repair() {
    let record = installed();
    assert_eq!(
        repair_redirect(
            Platform::Posix,
            &record,
            MANAGER,
            &link(MANAGER, 2),
            &unread(),
            false,
        ).unwrap(),
        RepairOutcome::Unchanged
    );
    assert_eq!(
        repair_redirect(
            Platform::Posix,
            &record,
            MANAGER,
            &file("original", 11),
            &unread(),
            false,
        ).unwrap(),
        RepairOutcome::ReinstalledBaseline
    );
}

#[test]
fn restorations_resume_where_they_stopped() {
    let record = installed();
    let journal = prepare_restore(Platform::Posix, &record, &link(MANAGER, 2), NOW).unwrap();
    let path = journal_path_of(Platform::Posix, JournalKind::Restore, BACKUPS, 7);
    assert!(matches!(
        classify_restore_journal(Platform::Posix, &journal, &path, &link(MANAGER, 2)).unwrap(),
        RestoreDisposition::RetryInstalledShim
    ));
    assert!(matches!(
        classify_restore_journal(Platform::Posix, &journal, &path, &file("original", 12)).unwrap(),
        RestoreDisposition::BaselinePresent
    ));
    assert!(classify_restore_journal(
        Platform::Posix,
        &journal,
        &path,
        &file("drift", 12),
    ).is_err());
    assert_eq!(
        complete_restore(Platform::Posix, &journal, &file("original", 12), NOW).unwrap(),
        NOW
    );
}

#[test]
fn journals_are_found_by_their_names() {
    let name = journal_file_name(JournalKind::Takeover, 7);
    assert_eq!(name, ".takeover-00000000-0000-0000-0000-000000000007.json");
    assert!(is_journal_name(JournalKind::Takeover, &name));
    assert!(!is_journal_name(JournalKind::Repair, &name));
    let entries = vec![
        BackupEntry { name: "x.baseline".to_owned(), regular: true },
        BackupEntry { name: name.clone(), regular: true },
    ];
    assert_eq!(
        journal_paths(Platform::Posix, JournalKind::Takeover, BACKUPS, &entries).unwrap(),
        [format!("{BACKUPS}/{name}")]
    );
    let linked = vec![BackupEntry { name, regular: false }];
    assert!(journal_paths(Platform::Posix, JournalKind::Takeover, BACKUPS, &linked).is_err());
    assert!(check_journal_size(JournalKind::Takeover, "/j", 4_194_304).is_ok());
    assert!(check_journal_size(JournalKind::Takeover, "/j", 4_194_305).is_err());
}

#[test]
fn interrupted_swaps_remove_only_what_they_know() {
    let mut artifacts = TakeoverArtifacts {
        candidate_exists: false,
        displaced_exists: true,
        surface_is_shim: true,
        displaced_is_expected: true,
        candidate_is_shim: false,
    };
    assert!(matches!(
        recover_shim_swap(artifacts, SURFACE, "/d"),
        SwapRecovery::RemoveDisplaced
    ));
    artifacts.displaced_is_expected = false;
    assert!(!matches!(
        recover_shim_swap(artifacts, SURFACE, "/d"),
        SwapRecovery::RemoveDisplaced
    ));
    let restore = RestoreArtifacts {
        candidate_exists: false,
        displaced_exists: false,
        baseline_missing: false,
        surface_exists: true,
        displaced_is_shim: false,
        surface_is_baseline: true,
        candidate_is_baseline: false,
    };
    assert!(matches!(
        recover_restore_swap(restore, SURFACE, "/d"),
        SwapRecovery::Nothing
    ));
    let (candidate, displaced) = cas_paths(SURFACE, 7, "takeover", Platform::Posix).unwrap();
    assert_eq!(candidate, displaced);
    let (kept, moved) = cas_paths(SURFACE, 7, "takeover", Platform::Windows).unwrap();
    assert_ne!(kept, moved);
    assert!(candidate.starts_with("/home/me/bin/"), "{candidate}");
}

#[test]
fn launchers_and_managers_are_told_apart() {
    assert!(validate_redirect_paths(
        Platform::Posix,
        SURFACE,
        MANAGER,
        true,
        &file("x", 1),
    ).is_ok());
    assert!(validate_redirect_paths(Platform::Posix, SURFACE, SURFACE, true, &None).is_err());
    assert!(validate_redirect_paths(Platform::Posix, SURFACE, MANAGER, false, &None).is_err());
    let is_shim = |found| matches_shim(Platform::Posix, &found, SURFACE, MANAGER, &unread());
    assert_eq!(is_shim(link(MANAGER, 1)), Ok(true));
    assert_eq!(is_shim(link("/other", 1)), Ok(false));
    let mut record = installed();
    assert!(validate_record(&record).is_ok());
    record.schema = 9;
    assert_eq!(
        validate_record(&record).err().unwrap(),
        "unsupported surface record schema 9 (expected 1)"
    );
    assert_eq!(record.installed.form, ShimForm::PosixSymlink);
    assert_eq!(file_identity(1, 2, 3, 4, 5).modified_ns, Some(4_000_000_005));
}

#[test]
fn windows_launchers_have_forms() {
    assert_eq!(windows_shim_form("C/codex.CMD").unwrap(), ShimForm::WindowsCmd);
    assert_eq!(
        windows_shim_form("C/codex.ps1").unwrap(),
        ShimForm::WindowsPowerShell
    );
    assert_eq!(windows_shim_form("C/codex").unwrap(), ShimForm::WindowsNative);
    assert!(windows_shim_form("C/codex.vbs").is_err());
    assert!(validate_surface_launcher_type("C/codex.vbs", Platform::Windows).is_err());
    assert!(validate_surface_launcher_type("C/codex.vbs", Platform::Posix).is_ok());
    let native = windows_shim_bytes("C/codex.exe", MANAGER, &b"binary".to_vec()).unwrap();
    assert_eq!(native, b"binary");
    let script = windows_shim_bytes("C/codex.cmd", MANAGER, &Vec::new()).unwrap();
    assert!(String::from_utf8(script).unwrap().contains("__dispatch"));
}

#[test]
fn unused_backups_are_removed_only_from_their_directory() {
    let inside = baseline(&file("original", 1), "original");
    assert_eq!(
        cleanup_unused_baseline(Platform::Posix, &inside, BACKUPS).unwrap(),
        Some(format!("{BACKUPS}/x.baseline"))
    );
    let mut outside = inside.clone();
    outside.backup_path = Some("/etc/passwd".to_owned());
    assert!(cleanup_unused_baseline(Platform::Posix, &outside, BACKUPS).is_err());
}

#[test]
fn extended_attributes_are_listed_sorted_and_restored() {
    let names = attribute_names(&b"user.b\0user.a\0".to_vec());
    assert_eq!(names, vec![b"user.b".to_vec(), b"user.a".to_vec()]);
    let attribute = |name: &[u8], value: &[u8]| ExtendedAttribute {
        name: name.to_vec(),
        value: value.to_vec(),
    };
    let sorted = sorted_attributes(vec![attribute(b"user.b", b"1"), attribute(b"user.a", b"2")]);
    assert_eq!(sorted[0].name, b"user.a");
    let current = vec![attribute(b"user.a", b"old"), attribute(b"user.c", b"3")];
    assert_eq!(stale_attributes(&current, &sorted), vec![b"user.c".to_vec()]);
    assert_eq!(owner_to_restore(&security(), 0, 0).unwrap(), Some((1000, 1000)));
    assert_eq!(owner_to_restore(&security(), 1000, 1000).unwrap(), None);
    assert!(owner_to_restore(&SecurityMetadata::default(), 0, 0).is_err());
}

#[test]
fn update_services_are_switched_off_and_on_again() {
    let text = |value: &str| Some(value.to_owned());
    let mut record =
        inspect_codex_update_manager(&text("loaded"), &text("enabled"), &text("active")).unwrap();
    assert_eq!(planned_disable(&record).unwrap(), (true, true));
    apply_codex_update_manager_disable(&mut record, &Ok(()), &Ok(())).unwrap();
    assert!(record.stopped_by_patcher && record.disabled_by_patcher);
    let commands = restore_codex_update_manager(&record, &text("loaded")).unwrap();
    assert_eq!(commands, [UnitCommand::Enable, UnitCommand::Start]);
    assert!(inspect_codex_update_manager(&text("not-found"), &None, &None).is_none());
    let words = vec!["stop".to_owned(), "x.service".to_owned()];
    assert_eq!(
        systemctl_action(&words, &None).err().unwrap(),
        "systemctl --user stop x.service timed out or could not start"
    );
    assert_eq!(
        systemctl_action(&words, &Some((false, "no".to_owned()))).err().unwrap(),
        "systemctl --user stop x.service failed: no"
    );
    assert!(systemctl_action(&words, &Some((true, String::new()))).is_ok());
}

#[test]
fn takeovers_write_their_intent_before_the_swap() {
    let mut facts = TakeoverFacts::new();
    assert!(matches!(next_takeover_step(&facts), TakeoverStep::Validate));
    facts.valid = Some(Ok(()));
    assert!(matches!(next_takeover_step(&facts), TakeoverStep::Capture));
    facts.captured = Some(Ok(()));
    assert!(matches!(next_takeover_step(&facts), TakeoverStep::WriteIntent));
    facts.intended = Some(Err("disk full".to_owned()));
    match next_takeover_step(&facts) {
        TakeoverStep::Fail { message } => assert_eq!(message, "disk full"),
        other => panic!("{other:?}"),
    }
    facts.intended = Some(Ok(()));
    assert!(matches!(next_takeover_step(&facts), TakeoverStep::Swap));
    facts.swapped = Some(Ok(()));
    assert!(matches!(next_takeover_step(&facts), TakeoverStep::Inspect));
    facts.inspected = Some(Ok(()));
    assert!(matches!(next_takeover_step(&facts), TakeoverStep::WriteCompletion));
    facts.completed = Some(Ok(()));
    assert!(matches!(next_takeover_step(&facts), TakeoverStep::Done));
}

#[test]
fn resumed_restorations_need_no_new_intent() {
    let mut facts = RestoreFacts::new();
    assert!(matches!(next_restore_step(&facts), RestoreStep::FindJournal));
    facts.resumed = Some(Ok(false));
    assert!(matches!(next_restore_step(&facts), RestoreStep::Prepare));
    facts.prepared = Some(Ok(()));
    assert!(matches!(next_restore_step(&facts), RestoreStep::WriteIntent));
    facts.resumed = Some(Ok(true));
    assert!(matches!(next_restore_step(&facts), RestoreStep::Recover));
    facts.recovered = Some(Ok(()));
    facts.disposition = Some(Ok(RestoreDisposition::BaselinePresent));
    assert!(matches!(next_restore_step(&facts), RestoreStep::Verify));
    facts.disposition = Some(Ok(RestoreDisposition::RetryInstalledShim));
    assert!(matches!(next_restore_step(&facts), RestoreStep::SwapBack));
    facts.swapped = Some(Ok(()));
    facts.verified = Some(Ok(()));
    assert!(matches!(next_restore_step(&facts), RestoreStep::WriteCompletion));
    facts.completed = Some(Ok(()));
    assert!(matches!(next_restore_step(&facts), RestoreStep::Done));
}

#[test]
fn owned_launchers_are_not_repaired() {
    let mut facts = RepairFacts::new();
    facts.resumed = Some(Ok(false));
    assert!(matches!(next_repair_step(&facts), RepairStep::Choose));
    facts.chosen = Some(Ok(RepairOutcome::Unchanged));
    assert!(matches!(next_repair_step(&facts), RepairStep::Unchanged));
    facts.chosen = Some(Ok(RepairOutcome::ReinstalledBaseline));
    assert!(matches!(next_repair_step(&facts), RepairStep::Prepare));
    facts.prepared = Some(Ok(()));
    assert!(matches!(next_repair_step(&facts), RepairStep::WriteIntent));
    facts.intended = Some(Ok(()));
    facts.recovered = Some(Ok(()));
    facts.disposition = Some(Ok(RepairDisposition::CompletedRecordOnly));
    assert!(matches!(next_repair_step(&facts), RepairStep::UseRecord));
    facts.disposition = Some(Ok(RepairDisposition::RetryObserved));
    assert!(matches!(next_repair_step(&facts), RepairStep::Swap));
}

#[test]
fn restore_journals_are_checked_before_they_are_resumed() {
    let record = installed();
    let mut journal = prepare_restore(Platform::Posix, &record, &link(MANAGER, 2), NOW).unwrap();
    let path = journal_path_of(Platform::Posix, JournalKind::Restore, BACKUPS, 7);
    validate_restore_journal(Platform::Posix, &journal, &path).unwrap();
    check_restore_record(Platform::Posix, &journal, &record, &path).unwrap();
    let mut other = record.clone();
    other.surface = "/elsewhere/codex".to_owned();
    assert_eq!(
        check_restore_record(Platform::Posix, &journal, &other, &path).err().unwrap(),
        format!("restore journal {path} does not match the requested surface record")
    );
    assert_eq!(
        check_finalize_restore(&journal, 7, &path).err().unwrap(),
        format!("refusing to finalize incomplete restore journal {path}")
    );
    journal.completed_at = Some(NOW);
    check_finalize_restore(&journal, 7, &path).unwrap();
    assert_eq!(
        check_finalize_restore(&journal, 8, &path).err().unwrap(),
        format!("restore journal id mismatch: {path}")
    );
    let moved = format!("{BACKUPS}/.restore-other.json");
    assert_eq!(
        validate_restore_journal(Platform::Posix, &journal, &moved).err().unwrap(),
        format!("restore journal id does not match its filename: {moved}")
    );
    journal.record.id = 8;
    assert_eq!(
        validate_restore_journal(Platform::Posix, &journal, &path).err().unwrap(),
        format!("restore journal id does not match its surface record: {path}")
    );
    journal.schema = 2;
    assert_eq!(
        validate_restore_journal(Platform::Posix, &journal, &path).err().unwrap(),
        format!("unsupported restore journal schema 2 in {path} (expected 1)")
    );
}

#[test]
fn repair_journals_are_checked_before_they_are_resumed() {
    let record = installed();
    let update = file("owner update", 5);
    let observed = capture_surface_snapshot(Platform::Posix, SURFACE, &update, &update).unwrap();
    let adopted = baseline(&update, "owner update");
    let outcome = RepairOutcome::AdoptedAndReinstalled;
    let mut journal =
        prepare_repair_journal(
            Platform::Posix, &record, MANAGER, outcome, adopted, observed, &update, &unread(), NOW,
        )
        .unwrap();
    let path = journal_path_of(Platform::Posix, JournalKind::Repair, BACKUPS, 7);
    validate_repair_journal(Platform::Posix, &journal, &path).unwrap();
    check_repair_request(Platform::Posix, &journal, &record, MANAGER, &path).unwrap();
    assert_eq!(
        check_repair_request(
            Platform::Posix,
            &journal,
            &record,
            "/other/manager",
            &path,
        ).err().unwrap(),
        format!("repair journal {path} targets a different manager executable")
    );
    let mut other = record.clone();
    other.id = 8;
    assert_eq!(
        check_repair_request(Platform::Posix, &journal, &other, MANAGER, &path).err().unwrap(),
        format!("repair journal {path} does not match the requested surface record")
    );
    assert_eq!(
        check_finalize_repair(Platform::Posix, &journal, 7, &path).err().unwrap(),
        format!("refusing to finalize incomplete repair journal {path}")
    );
    journal.completed_at = Some(NOW);
    assert_eq!(
        validate_repair_journal(Platform::Posix, &journal, &path).err().unwrap(),
        format!("repair journal has inconsistent completion metadata: {path}")
    );
    let shim = inspect_installed_shim(
        Platform::Posix,
        SURFACE,
        MANAGER,
        &link(MANAGER, 6),
    ).unwrap();
    let (updated, _) = complete_repair_journal(
        Platform::Posix,
        &journal,
        &shim,
        &link(MANAGER, 6),
        NOW,
    ).unwrap();
    journal.updated = Some(updated.clone());
    validate_repair_journal(Platform::Posix, &journal, &path).unwrap();
    check_repair_request(Platform::Posix, &journal, &updated, MANAGER, &path).unwrap();
    assert!(check_finalize_repair(Platform::Posix, &journal, 7, &path).unwrap());
    let left = journal.updated.clone().unwrap();
    assert!(check_repaired_record(Platform::Posix, &journal, &left, &path).is_ok());
    let mut other = left;
    other.id = 8;
    assert_eq!(
        check_repaired_record(Platform::Posix, &journal, &other, &path).err().unwrap(),
        format!("repair journal {path} does not contain the supplied updated surface record")
    );
    journal.original.baseline = journal.replacement_baseline.clone();
    assert!(!check_finalize_repair(Platform::Posix, &journal, 7, &path).unwrap());
    journal.outcome = RepairOutcome::Unchanged;
    assert_eq!(
        validate_repair_journal(Platform::Posix, &journal, &path).err().unwrap(),
        format!("repair journal cannot contain an unchanged operation: {path}")
    );
}

#[test]
fn update_services_that_resist_leave_notes() {
    let text = |value: &str| Some(value.to_owned());
    let record = disable_codex_update_manager(
        &text("loaded"),
        &text("enabled"),
        &text("active"),
        &Err("busy".to_owned()),
        &Ok(()),
    )
    .unwrap();
    assert!(!record.stopped_by_patcher && record.disabled_by_patcher);
    assert_eq!(record.notes.len(), 1);
    assert!(disable_codex_update_manager(&None, &None, &None, &Ok(()), &Ok(())).is_none());
}

#[test]
fn candidates_link_to_exactly_the_manager() {
    let is_candidate =
        |found| candidate_matches_shim(Platform::Posix, &found, SURFACE, MANAGER, &unread());
    assert_eq!(is_candidate(link(MANAGER, 3)), Ok(true));
    assert_eq!(is_candidate(link("../patcher/bin/codex-patcher", 3)), Ok(false));
    assert_eq!(is_candidate(file("manager", 3)), Ok(false));
    assert_eq!(is_candidate(None), Ok(false));
}

#[test]
fn windows_shims_are_recognized_and_recorded() {
    let on = Platform::Windows;
    let manager = "C:\\patcher\\bin\\codex-patcher.exe";
    let bytes = b"manager".to_vec();
    let image = Ok(sha256_hex(&bytes));
    for surface in ["C:\\npm\\codex.cmd", "C:\\npm\\codex.ps1", "C:\\npm\\codex.exe"] {
        let shim = windows_shim_bytes(surface, manager, &bytes).unwrap();
        let found = file(&sha256_hex(&shim), 3);
        assert_eq!(matches_shim(on, &found, surface, manager, &image), Ok(true));
        assert_eq!(candidate_matches_shim(on, &found, surface, manager, &image), Ok(true));
        assert_eq!(matches_shim(on, &file("other", 3), surface, manager, &image), Ok(false));
        assert_eq!(matches_shim(on, &None, surface, manager, &image), Ok(false));
        let installed = inspect_installed_shim(on, surface, manager, &found).unwrap();
        assert_eq!(installed.form, windows_shim_form(surface).unwrap());
        assert_eq!(installed.symlink_target, None);

        let original = file("original", 1);
        let backup = Some(("C:\\patcher\\backups\\x.baseline".to_owned(), "original".to_owned()));
        let baseline = capture_baseline(on, surface, &original, &backup, &original).unwrap();
        let journal = prepare_takeover(7, surface, manager, &baseline, NOW);
        let path = journal_path_of(on, JournalKind::Takeover, "C:\\patcher\\backups", 7);
        validate_takeover_journal(on, &journal, &path).unwrap();
        match classify_takeover_journal(on, &journal, &path, &found, &image).unwrap() {
            TakeoverAction::Installed { record, .. } => {
                assert!(matches_recorded_shim(on, &found, &record));
                assert!(!matches_recorded_shim(on, &original, &record));
                let update = file("owner update", 9);
                assert!(repair_redirect(on, &record, manager, &update, &image, false).is_err());
                assert_eq!(
                    repair_redirect(on, &record, manager, &original, &image, false),
                    Ok(RepairOutcome::ReinstalledBaseline)
                );
            }
            other => panic!("{other:?}"),
        }
    }
    let native = "C:\\npm\\codex.exe";
    assert_eq!(matches_shim(on, &file("x", 1), native, manager, &unread()), unread().map(|_| true));
    let refused = matches_shim(on, &file("x", 1), "C:\\npm\\codex.vbs", manager, &image);
    assert_eq!(
        refused.err().unwrap(),
        "unsupported Windows Codex launcher extension .vbs; \
         select a native .exe, .cmd/.bat, or .ps1 surface"
    );
}

/// Gives a launcher back as the library says, with what stands there before and after.
fn restore(
    record: &SurfaceRecord,
    before: Option<FileFacts>,
    after: Option<FileFacts>,
) -> Result<(), String> {
    let mut facts = RestoreFacts::new();
    let path = journal_path_of(Platform::Posix, JournalKind::Restore, BACKUPS, record.id);
    let prepared = prepare_restore(Platform::Posix, record, &before, NOW);
    loop {
        match next_restore_step(&facts) {
            RestoreStep::FindJournal => facts.resumed = Some(Ok(false)),
            RestoreStep::Prepare => {
                facts.prepared =
                    Some(prepared.as_ref().map(|_| ()).map_err(|message| message.clone()));
            }
            RestoreStep::WriteIntent => facts.intended = Some(Ok(())),
            RestoreStep::Recover => facts.recovered = Some(Ok(())),
            RestoreStep::Classify => {
                let journal = prepared.as_ref().unwrap();
                facts.disposition =
                    Some(classify_restore_journal(Platform::Posix, journal, &path, &before));
            }
            RestoreStep::SwapBack => facts.swapped = Some(Ok(())),
            RestoreStep::Verify => {
                let journal = prepared.as_ref().unwrap();
                let verified = complete_restore(Platform::Posix, journal, &after, NOW);
                facts.verified = Some(verified.map(|_| ()));
            }
            RestoreStep::WriteCompletion => facts.completed = Some(Ok(())),
            RestoreStep::Done => return Ok(()),
            RestoreStep::Fail { message } => return Err(message),
        }
    }
}

#[test]
fn launchers_come_back_as_they_were_and_drifted_ones_stay() {
    let record = installed();
    assert_eq!(restore(&record, link(MANAGER, 2), file("original", 40)), Ok(()));
    assert_eq!(
        restore(&record, link(MANAGER, 2), file("something else", 40)),
        Err(format!("restored baseline failed verification for {SURFACE}"))
    );
    assert_eq!(
        restore(&record, file("owner update", 9), file("original", 40)),
        Err(format!(
            "refusing to restore {SURFACE} because the installed shim no longer matches its \
             ownership record"
        ))
    );
}

#[test]
fn adopted_launchers_come_back_as_they_were() {
    let record = installed();
    let update = file("owner update", 5);
    let observed = capture_surface_snapshot(Platform::Posix, SURFACE, &update, &update).unwrap();
    let adopted = baseline(&update, "owner update");
    let outcome = RepairOutcome::AdoptedAndReinstalled;
    let journal = prepare_repair_journal(
        Platform::Posix, &record, MANAGER, outcome, adopted, observed, &update, &unread(), NOW,
    )
    .unwrap();
    let found = link(MANAGER, 6);
    let shim = inspect_installed_shim(Platform::Posix, SURFACE, MANAGER, &found).unwrap();
    let (updated, _) =
        complete_repair_journal(Platform::Posix, &journal, &shim, &found, NOW).unwrap();
    assert_eq!(updated.surface, record.surface);
    assert_eq!(restore(&updated, link(MANAGER, 6), file("owner update", 41)), Ok(()));
    assert!(restore(&updated, link(MANAGER, 6), file("original", 41)).is_err());
}

#[test]
fn link_targets_are_hashed_as_the_platform_writes_them() {
    let target = "C:\\x\\\u{e9}\u{1f600}";
    let found = link(target, 3);
    let captured = capture_baseline(Platform::Windows, "C:\\codex.exe", &found, &None, &found);
    let wide: Vec<u8> = target.encode_utf16().flat_map(|word| word.to_le_bytes()).collect();
    assert_eq!(captured.unwrap().sha256, Some(sha256_hex(&wide)));
    let captured = capture_baseline(Platform::Posix, SURFACE, &found, &None, &found);
    assert_eq!(captured.unwrap().sha256, Some(sha256_hex(target.as_bytes())));
    let observed = capture_surface_snapshot(Platform::Windows, "C:\\codex.exe", &found, &found);
    assert_eq!(observed.unwrap().sha256, Some(sha256_hex(&wide)));
}
