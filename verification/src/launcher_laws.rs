//! When a launcher is recognized, as the shim, as the baseline or as neither, and what its
//! journals make of it.

use vstd::prelude::*;
use vstd::utf8::encode_utf8;

use crate::journal::{
    found_journals, journal_name, names_journal, precondition_holds, recovers_takeover,
    removable_backup, repair_choice, repair_disposition, repair_problem, repaired_record,
    restore_disposition, restore_problem, takeover_problem, BackupEntry, RepairDisposition,
    RepairJournal, RepairOutcome, RestoreDisposition, RestoreJournal, TakeoverAction,
    TakeoverJournal,
};
use crate::outside::{hex_text, sha256};
use crate::paths::{extension, file_name, is_absolute, join_path, parent, parts, Platform};
use crate::shim::{
    same_baseline, same_installed, same_record, BaselineKind, BaselineView, InstalledView,
    RecordView, SecurityView, ShimForm,
};
use crate::surface::{
    baseline_matches, candidate_check, captured_baseline, inspected, record_matches, shim_check,
    snapshot_matches, snapshot_of, untouched, windows_form, windows_script, FactsView, FileKind,
    SnapshotView,
};
use crate::state::JournalKind;
use crate::text::ascii_lower;
use crate::types::Timestamp;

verus! {

/// Two optional paths name the same place.
pub open spec fn same_place(
    platform: Platform,
    a: Option<Seq<char>>,
    b: Option<Seq<char>>,
) -> bool {
    (a is None && b is None) || (a is Some && b is Some && parts(platform, a->0) == parts(
        platform,
        b->0,
    ))
}

/// The mode and the owner of what was found are the recorded ones, as far as they were recorded.
pub open spec fn keeps_attributes(
    f: FactsView,
    mode: Option<u32>,
    security: Option<SecurityView>,
) -> bool {
    (mode is Some ==> f.mode == mode) && (security is Some ==> security == Some(f.security))
}

/// What was found is a link to that target.
pub open spec fn links_to(platform: Platform, f: FactsView, target: Option<Seq<char>>) -> bool {
    f.kind == FileKind::Symlink && same_place(platform, f.link_target, target)
}

/// What was found is a file with bytes of that hash.
pub open spec fn has_bytes(f: FactsView, hash: Option<Seq<char>>) -> bool {
    f.kind == FileKind::File && hash is Some && f.sha256 == hash
}

/// A launcher is the recorded shim exactly where it is the recorded link or has the recorded
/// bytes, with the recorded identity, mode and owner.
pub proof fn shims_are_told_by_their_record(
    platform: Platform,
    found: Option<FactsView>,
    record: RecordView,
)
    ensures
        record_matches(platform, found, record) <==> record.schema == 1 && (found matches Some(f)
            && (record.installed.identity is Some ==> record.installed.identity == Some(f.identity))
            && keeps_attributes(f, record.installed.mode, record.installed.security) && (
        record.installed.form == ShimForm::PosixSymlink ==> links_to(
            platform,
            f,
            record.installed.symlink_target,
        )) && (record.installed.form != ShimForm::PosixSymlink ==> has_bytes(
            f,
            record.installed.sha256,
        ))),
{
}

/// A launcher has the contents of a baseline exactly where both are absent, or it is the same
/// link or has the same bytes, with the same mode and owner. It is the baseline itself where its
/// identity is the same too.
pub proof fn baselines_are_told_by_their_contents(
    platform: Platform,
    found: Option<FactsView>,
    b: BaselineView,
)
    ensures
        ({
            let same = match found {
                None => b.kind == BaselineKind::Missing,
                Some(f) => keeps_attributes(f, b.mode, b.security) && ((b.kind
                    == BaselineKind::Symlink && links_to(platform, f, b.symlink_target)) || (b.kind
                    == BaselineKind::File && has_bytes(f, b.sha256))),
            };
            &&& baseline_matches(platform, found, b) <==> same
            &&& untouched(platform, found, b) <==> same && (found matches Some(f) ==> b.identity
                == Some(f.identity))
        }),
{
}

/// A launcher is what a snapshot observed exactly where both are absent, or it is the same link
/// or has the same bytes, with the same identity, mode and owner.
pub proof fn snapshots_are_told_by_identity(
    platform: Platform,
    found: Option<FactsView>,
    s: SnapshotView,
)
    ensures
        snapshot_matches(platform, found, s) <==> (match found {
            None => s.kind == BaselineKind::Missing,
            Some(f) => s.identity == Some(f.identity) && keeps_attributes(f, s.mode, s.security) && ((
            s.kind == BaselineKind::Symlink && links_to(platform, f, s.symlink_target)) || (s.kind
                == BaselineKind::File && has_bytes(f, s.sha256))),
        }),
{
}

/// A snapshot is taken of what is absent, and of a file or a link that is the same object before
/// and after. It records what was seen.
pub proof fn snapshots_record_what_was_seen(
    platform: Platform,
    surface: Seq<char>,
    before: Option<FactsView>,
    after: Option<FactsView>,
)
    ensures
        ({
            let r = snapshot_of(platform, surface, before, after);
            &&& r is Ok <==> (before matches Some(f) ==> f.kind != FileKind::Other && (
            after matches Some(g) && g.identity == f.identity && g.kind == f.kind))
            &&& r matches Ok(s) ==> {
                &&& before is None ==> s.kind == BaselineKind::Missing && s.identity is None
                &&& before matches Some(f) ==> {
                    &&& f.kind == FileKind::File <==> s.kind == BaselineKind::File
                    &&& f.kind == FileKind::Symlink <==> s.kind == BaselineKind::Symlink
                    &&& s.identity == Some(f.identity)
                    &&& s.mode == after->0.mode
                    &&& s.security == Some(after->0.security)
                    &&& f.kind == FileKind::File ==> s.sha256 == f.sha256 && s.symlink_target
                        is None
                    &&& f.kind == FileKind::Symlink ==> s.symlink_target == f.link_target
                }
            }
        }),
{
}

/// A baseline is captured of what is absent, of a link, and of a file whose bytes are kept; what
/// stands there must still be what was captured. The baseline holds what was found.
pub proof fn baselines_hold_what_was_found(
    platform: Platform,
    surface: Seq<char>,
    found: Option<FactsView>,
    backup: Option<(Seq<char>, Seq<char>)>,
    recheck: Option<FactsView>,
)
    ensures
        ({
            let r = captured_baseline(platform, surface, found, backup, recheck);
            let kept = found matches Some(f) ==> (f.kind == FileKind::Symlink || (f.kind
                == FileKind::File && (backup matches Some(pair) && f.sha256 == Some(pair.1))));
            let still = match found {
                None => recheck is None,
                Some(f) => recheck matches Some(g) && g.identity == f.identity && g.kind == f.kind
                    && (f.mode is Some ==> g.mode == f.mode) && g.security == f.security && (f.kind
                    == FileKind::Symlink ==> same_place(platform, g.link_target, f.link_target))
                    && (f.kind == FileKind::File ==> g.sha256 == f.sha256),
            };
            &&& r is Ok <==> kept && still
            &&& r matches Ok(b) ==> {
                &&& found is None ==> b.kind == BaselineKind::Missing && b.backup_path is None
                &&& found matches Some(f) ==> {
                    &&& b.identity == Some(f.identity)
                    &&& b.mode == f.mode
                    &&& b.security == Some(f.security)
                    &&& f.kind == FileKind::Symlink ==> b.kind == BaselineKind::Symlink
                        && b.symlink_target == f.link_target && b.backup_path is None
                    &&& f.kind == FileKind::File ==> b.kind == BaselineKind::File && b.sha256
                        == f.sha256 && b.backup_path == Some((backup->0).0) && b.symlink_target
                        is None
                }
            }
        }),
{
}

/// On POSIX a launcher is the manager's shim exactly where it is a link that leads to the
/// manager, and an unused one where it names the manager. What is recorded of it is what was
/// found.
pub proof fn posix_shims_link_to_the_manager(
    found: Option<FactsView>,
    surface: Seq<char>,
    manager: Seq<char>,
    image: Result<Seq<char>, Seq<char>>,
)
    ensures
        shim_check(Platform::Posix, found, surface, manager, image) == Ok::<bool, Seq<char>>(
            found matches Some(f) && f.kind == FileKind::Symlink && (f.link_target matches Some(target)
                && parts(
                Platform::Posix,
                if is_absolute(Platform::Posix, target) {
                    target
                } else {
                    join_path(
                        Platform::Posix,
                        match parent(Platform::Posix, surface) {
                            Some(dir) => dir,
                            None => "."@,
                        },
                        target,
                    )
                },
            ) == parts(Platform::Posix, manager)),
        ),
        candidate_check(Platform::Posix, found, surface, manager, image) == Ok::<bool, Seq<char>>(
            found matches Some(f) && links_to(Platform::Posix, f, Some(manager)),
        ),
        inspected(Platform::Posix, surface, manager, found) is Ok <==> (found matches Some(f)
            && f.kind == FileKind::Symlink),
        inspected(Platform::Posix, surface, manager, found) matches Ok(i) ==> i.form
            == ShimForm::PosixSymlink && i.manager == manager && i.symlink_target
            == found->0.link_target && i.mode == found->0.mode && i.identity == Some(
            found->0.identity,
        ) && i.security == Some(found->0.security),
{
}

/// On Windows a launcher is the manager's shim exactly where it has the bytes that its extension
/// asks for: a script that starts the manager, or the manager itself.
pub proof fn windows_shims_have_their_bytes(
    found: Option<FactsView>,
    surface: Seq<char>,
    manager: Seq<char>,
    image: Result<Seq<char>, Seq<char>>,
)
    ensures
        ({
            let ext = match extension(Platform::Windows, surface) {
                Some(e) => Some(ascii_lower(e)),
                None => None,
            };
            let form = windows_form(surface);
            let check = shim_check(Platform::Windows, found, surface, manager, image);
            let record = inspected(Platform::Windows, surface, manager, found);
            &&& form == Ok::<ShimForm, Seq<char>>(ShimForm::WindowsCmd) <==> ext == Some("cmd"@)
                || ext == Some("bat"@)
            &&& form == Ok::<ShimForm, Seq<char>>(ShimForm::WindowsPowerShell) <==> ext == Some(
                "ps1"@,
            )
            &&& form == Ok::<ShimForm, Seq<char>>(ShimForm::WindowsNative) <==> ext is None || ext
                == Some("exe"@)
            &&& form is Err <==> (ext matches Some(e) && e != "cmd"@ && e != "bat"@ && e != "ps1"@
                && e != "exe"@)
            &&& found is None ==> check == Ok::<bool, Seq<char>>(false)
            &&& found is Some && form is Err ==> check is Err
            &&& found matches Some(f) ==> (form == Ok::<ShimForm, Seq<char>>(
                ShimForm::WindowsNative,
            ) ==> (image is Err <==> check is Err) && (image matches Ok(hash) ==> check == Ok::<
                bool,
                Seq<char>,
            >(f.sha256 == Some(hash))))
            &&& found matches Some(f) ==> (form matches Ok(shape) ==> (windows_script(
                shape,
                manager,
            ) matches Some(text) ==> check == Ok::<bool, Seq<char>>(
                f.sha256 == Some(hex_text(sha256(encode_utf8(text)))),
            )))
            &&& windows_script(ShimForm::WindowsNative, manager) is None
            &&& windows_script(ShimForm::WindowsCmd, manager) is Some
            &&& windows_script(ShimForm::WindowsPowerShell, manager) is Some
            &&& record is Ok <==> found is Some && form is Ok
            &&& record matches Ok(i) ==> form == Ok::<ShimForm, Seq<char>>(i.form) && i.manager
                == manager && i.sha256 == found->0.sha256 && i.symlink_target is None && i.mode
                == found->0.mode && i.identity == Some(found->0.identity) && i.security == Some(
                found->0.security,
            )
        }),
{
    reveal_strlit("cmd");
    reveal_strlit("bat");
    reveal_strlit("ps1");
    reveal_strlit("exe");
    assert("cmd"@[0] == 'c' && "bat"@[0] == 'b' && "ps1"@[0] == 'p' && "exe"@[0] == 'e');
}

/// Records agree exactly where every field does, paths by the place that they name.
pub proof fn records_agree_field_by_field(platform: Platform, a: RecordView, b: RecordView)
    ensures
        same_baseline(platform, a.baseline, b.baseline) <==> a.baseline.kind == b.baseline.kind
            && same_place(platform, a.baseline.backup_path, b.baseline.backup_path) && same_place(
            platform,
            a.baseline.symlink_target,
            b.baseline.symlink_target,
        ) && a.baseline.mode == b.baseline.mode && a.baseline.sha256 == b.baseline.sha256
            && a.baseline.identity == b.baseline.identity && a.baseline.security
            == b.baseline.security,
        same_installed(platform, a.installed, b.installed) <==> a.installed.form == b.installed.form
            && parts(platform, a.installed.manager) == parts(platform, b.installed.manager)
            && same_place(platform, a.installed.symlink_target, b.installed.symlink_target)
            && a.installed.mode == b.installed.mode && a.installed.sha256 == b.installed.sha256
            && a.installed.identity == b.installed.identity && a.installed.security
            == b.installed.security,
        same_record(platform, a, b) <==> a.schema == b.schema && a.id == b.id && parts(
            platform,
            a.surface,
        ) == parts(platform, b.surface) && same_baseline(platform, a.baseline, b.baseline)
            && same_installed(platform, a.installed, b.installed) && a.installed_at
            == b.installed_at && a.updater == b.updater,
{
}

/// A restoration is retried exactly on the recorded shim, is over on the baseline, and refuses
/// everything else. A shim that has the contents of the baseline is still a shim.
pub proof fn restorations_are_told_by_the_launcher(
    platform: Platform,
    record: RecordView,
    path: Seq<char>,
    found: Option<FactsView>,
)
    ensures
        ({
            let r = restore_disposition(platform, record, path, found);
            let shim = record_matches(platform, found, record);
            let baseline = baseline_matches(platform, found, record.baseline);
            &&& r == Ok::<RestoreDisposition, Seq<char>>(RestoreDisposition::RetryInstalledShim)
                <==> shim
            &&& r == Ok::<RestoreDisposition, Seq<char>>(RestoreDisposition::BaselinePresent)
                <==> !shim && baseline
            &&& r is Err <==> !shim && !baseline
        }),
{
}

/// What a repair does: nothing to the recorded shim, a new record for another shim of the
/// manager, the shim again over the baseline, and over anything else only where the user adopts
/// it. Where the shim cannot be told, it fails.
pub proof fn repairs_are_chosen_by_the_launcher(
    platform: Platform,
    record: RecordView,
    manager: Seq<char>,
    found: Option<FactsView>,
    image: Result<Seq<char>, Seq<char>>,
    adopt: bool,
)
    ensures
        ({
            let r = repair_choice(platform, record, manager, found, image, adopt);
            let recorded = record_matches(platform, found, record);
            let check = shim_check(platform, found, record.surface, manager, image);
            let foreign = !recorded && check == Ok::<bool, Seq<char>>(false);
            let baseline = baseline_matches(platform, found, record.baseline);
            &&& r == Ok::<RepairOutcome, Seq<char>>(RepairOutcome::Unchanged) <==> recorded
            &&& r == Ok::<RepairOutcome, Seq<char>>(RepairOutcome::ReinstalledOwned) <==> !recorded
                && check == Ok::<bool, Seq<char>>(true)
            &&& r == Ok::<RepairOutcome, Seq<char>>(RepairOutcome::ReinstalledBaseline)
                <==> foreign && baseline
            &&& r == Ok::<RepairOutcome, Seq<char>>(RepairOutcome::AdoptedAndReinstalled)
                <==> foreign && !baseline && adopt
            &&& r is Err <==> (!recorded && check is Err) || (foreign && !baseline && !adopt)
            &&& !recorded ==> (check matches Err(why) ==> r == Err::<RepairOutcome, Seq<char>>(why))
        }),
{
}

/// A repair goes ahead only on what it observed, and only for the reason it was chosen for.
pub proof fn repairs_need_what_they_observed(
    platform: Platform,
    observed: SnapshotView,
    outcome: RepairOutcome,
    original: RecordView,
    manager: Seq<char>,
    replacement: BaselineView,
    found: Option<FactsView>,
    image: Result<Seq<char>, Seq<char>>,
)
    ensures
        precondition_holds(
            platform,
            observed,
            outcome,
            original,
            manager,
            replacement,
            found,
            image,
        ) <==> snapshot_matches(platform, found, observed) && ((outcome
            == RepairOutcome::ReinstalledOwned && shim_check(
            platform,
            found,
            original.surface,
            manager,
            image,
        ) == Ok::<bool, Seq<char>>(true)) || (outcome == RepairOutcome::ReinstalledBaseline
            && baseline_matches(platform, found, original.baseline)) || (outcome
            == RepairOutcome::AdoptedAndReinstalled && untouched(platform, found, replacement))),
{
}

/// An interrupted repair is over where the manager's shim stands at the launcher, is retried on
/// what was observed, keeps its record where it had been completed, and is refused otherwise.
pub proof fn interrupted_repairs_are_told_by_the_launcher(
    platform: Platform,
    j: RepairJournal,
    path: Seq<char>,
    found: Option<FactsView>,
    image: Result<Seq<char>, Seq<char>>,
)
    ensures
        ({
            let r = repair_disposition(platform, j, path, found, image);
            let finished = j.updated matches Some(updated) && record_matches(
                platform,
                found,
                updated@,
            );
            let check = shim_check(platform, found, j.original.surface@, j.manager@, image);
            let foreign = !finished && check == Ok::<bool, Seq<char>>(false);
            let observed = precondition_holds(
                platform,
                j.observed@,
                j.outcome,
                j.original@,
                j.manager@,
                j.replacement_baseline@,
                found,
                image,
            );
            &&& r == Ok::<RepairDisposition, Seq<char>>(RepairDisposition::ManagerPresent)
                <==> finished || check == Ok::<bool, Seq<char>>(true)
            &&& r == Ok::<RepairDisposition, Seq<char>>(RepairDisposition::RetryObserved)
                <==> foreign && observed
            &&& r == Ok::<RepairDisposition, Seq<char>>(RepairDisposition::CompletedRecordOnly)
                <==> foreign && !observed && j.updated is Some
            &&& r is Err <==> (!finished && check is Err) || (foreign && !observed && j.updated
                is None)
        }),
{
}

/// A repaired launcher keeps its record but for the baseline, the shim and the time, and the time
/// too where the same shim was recorded before.
pub proof fn repaired_records_are_renewed(
    platform: Platform,
    j: RepairJournal,
    installed: InstalledView,
    now: Timestamp,
)
    ensures
        ({
            let r = repaired_record(platform, j, installed, now);
            let again = j.updated matches Some(updated) && same_installed(
                platform,
                updated@.installed,
                installed,
            );
            &&& r.schema == j.original@.schema && r.id == j.original@.id && r.surface
                == j.original@.surface && r.updater == j.original@.updater
            &&& r.baseline == j.replacement_baseline@
            &&& r.installed == installed
            &&& again ==> r.installed_at == j.updated->0@.installed_at
            &&& !again ==> r.installed_at == now
        }),
{
}

/// An interrupted takeover is dropped where the launcher was never touched, completed where the
/// manager's shim stands there, and refused otherwise.
pub proof fn interrupted_takeovers_are_told_by_the_launcher(
    platform: Platform,
    j: TakeoverJournal,
    path: Seq<char>,
    found: Option<FactsView>,
    image: Result<Seq<char>, Seq<char>>,
    r: Result<TakeoverAction, String>,
)
    requires
        recovers_takeover(platform, j, path, found, image, r),
    ensures
        ({
            let idle = untouched(platform, found, j.baseline@);
            let check = shim_check(platform, found, j.surface@, j.manager@, image);
            &&& (r matches Ok(TakeoverAction::NoMutation)) <==> idle
            &&& (r matches Ok(TakeoverAction::Installed { .. })) <==> !idle && check == Ok::<
                bool,
                Seq<char>,
            >(true)
            &&& r is Err <==> !idle && check != Ok::<bool, Seq<char>>(true)
            &&& r matches Ok(TakeoverAction::Installed { completed, record }) ==> {
                let at = if j.installed_at is Some {
                    j.installed_at->0
                } else {
                    j.started_at
                };
                &&& inspected(platform, j.surface@, j.manager@, found) matches Ok(shim) ==> record@
                    == (RecordView {
                    schema: 1,
                    id: j.id,
                    surface: j.surface@,
                    baseline: j.baseline@,
                    installed: shim,
                    installed_at: at,
                    updater: None,
                })
                &&& completed.schema == j.schema && completed.id == j.id
                &&& completed.surface@ == j.surface@ && completed.manager@ == j.manager@
                &&& completed.baseline@ == j.baseline@ && completed.started_at == j.started_at
                &&& completed.installed matches Some(shim) && shim@ == record@.installed
                &&& completed.installed_at == Some(at)
            }
        }),
{
}

/// A takeover journal is accepted exactly where its version, its name and its paths are in order
/// and its result is whole and of its own manager.
pub proof fn takeover_journals_in_order(platform: Platform, j: TakeoverJournal, path: Seq<char>)
    ensures
        takeover_problem(platform, j, path) is None <==> j.schema == 1 && file_name(platform, path)
            == Some(journal_name(JournalKind::Takeover, j.id)) && is_absolute(platform, j.surface@)
            && is_absolute(platform, j.manager@) && (j.installed is Some <==> j.installed_at
            is Some) && (j.installed matches Some(shim) ==> parts(platform, shim.manager@) == parts(
            platform,
            j.manager@,
        )),
{
}

/// A restore journal is accepted exactly where its version, its name and its paths are in order
/// and it is that of its record.
pub proof fn restore_journals_in_order(platform: Platform, j: RestoreJournal, path: Seq<char>)
    ensures
        restore_problem(platform, j, path) is None <==> j.schema == 1 && j.id == j.record.id
            && file_name(platform, path) == Some(journal_name(JournalKind::Restore, j.id))
            && j.record.schema == 1 && is_absolute(platform, j.record.surface@) && is_absolute(
            platform,
            j.record.installed.manager@,
        ),
{
}

/// A repair journal is accepted exactly where its version, its name and its paths are in order,
/// it is that of its record, it repairs something, and its result is whole and is that record
/// with the replacement baseline and the manager.
pub proof fn repair_journals_in_order(platform: Platform, j: RepairJournal, path: Seq<char>)
    ensures
        repair_problem(platform, j, path) is None <==> j.schema == 1 && j.id == j.original.id
            && file_name(platform, path) == Some(journal_name(JournalKind::Repair, j.id))
            && j.original.schema == 1 && is_absolute(platform, j.original.surface@) && is_absolute(
            platform,
            j.manager@,
        ) && j.outcome != RepairOutcome::Unchanged && (j.updated is Some <==> j.completed_at
            is Some) && (j.updated matches Some(updated) ==> updated.schema == 1 && updated.id
            == j.id && parts(platform, updated.surface@) == parts(platform, j.original.surface@)
            && same_baseline(platform, updated.baseline@, j.replacement_baseline@) && parts(
            platform,
            updated.installed.manager@,
        ) == parts(platform, j.manager@)),
{
}

/// A backup is removed only out of the directory of the backups, and only one of a baseline.
pub proof fn only_backups_are_removed(
    platform: Platform,
    baseline: BaselineView,
    backups_dir: Seq<char>,
)
    ensures
        ({
            let r = removable_backup(platform, baseline, backups_dir);
            let ours = baseline.backup_path matches Some(path) && (parent(platform, path)
                matches Some(dir) && parts(platform, dir) == parts(platform, backups_dir))
                && extension(platform, path) == Some("baseline"@);
            &&& r is Ok <==> baseline.backup_path is Some ==> ours
            &&& r matches Ok(removed) ==> removed == baseline.backup_path
        }),
{
}

/// The name under which the journals of a kind are kept.
pub open spec fn word_of(kind: JournalKind) -> Seq<char> {
    match kind {
        JournalKind::Takeover => "takeover"@,
        JournalKind::Restore => "restore"@,
        JournalKind::Repair => "repair"@,
    }
}

/// Every entry that is named as a journal of the kind is a regular file.
pub open spec fn journals_are_regular(kind: JournalKind, entries: Seq<BackupEntry>) -> bool {
    forall|i: int|
        0 <= i < entries.len() && names_journal(kind, (#[trigger] entries[i]).name@)
            ==> entries[i].regular
}

/// The path is that of an entry that is named as a journal of the kind.
pub open spec fn is_path_of_journal(
    platform: Platform,
    kind: JournalKind,
    backups_dir: Seq<char>,
    entries: Seq<BackupEntry>,
    path: Seq<char>,
) -> bool {
    exists|i: int|
        0 <= i < entries.len() && names_journal(kind, (#[trigger] entries[i]).name@) && path
            == join_path(platform, backups_dir, entries[i].name@)
}

/// A file is named as a journal by its kind in front and its extension.
pub proof fn journals_are_named_by_kind(kind: JournalKind, name: Seq<char>)
    ensures
        names_journal(kind, name) <==> ("."@ + word_of(kind) + "-"@).is_prefix_of(name)
            && ".json"@.is_suffix_of(name),
{
}

/// The journals that are found are the regular files of the directory that are named as journals
/// of the kind, and nothing else. A journal that is no regular file is an error.
pub proof fn journals_are_found_by_name(
    platform: Platform,
    kind: JournalKind,
    backups_dir: Seq<char>,
    entries: Seq<BackupEntry>,
)
    ensures
        ({
            let r = found_journals(platform, kind, backups_dir, entries);
            &&& r is Ok <==> journals_are_regular(kind, entries)
            &&& r matches Ok(list) ==> forall|path: Seq<char>| #[trigger]
                list.contains(path) <==> is_path_of_journal(
                    platform,
                    kind,
                    backups_dir,
                    entries,
                    path,
                )
        }),
    decreases entries.len(),
{
    if entries.len() > 0 {
        let rest = entries.drop_last();
        let last = entries.last();
        journals_are_found_by_name(platform, kind, backups_dir, rest);
        assert(entries =~= rest.push(last));
        assert(entries[entries.len() - 1] == last);
        assert forall|i: int| 0 <= i < rest.len() implies #[trigger] rest[i] == entries[i] by {}
        let before = found_journals(platform, kind, backups_dir, rest);
        let r = found_journals(platform, kind, backups_dir, entries);
        if journals_are_regular(kind, entries) {
            assert forall|i: int|
                0 <= i < rest.len() && names_journal(kind, (
                #[trigger] rest[i]).name@) implies rest[i].regular by {
                assert(entries[i] == rest[i]);
            }
            assert(journals_are_regular(kind, rest));
        }
        if journals_are_regular(kind, rest) && (names_journal(kind, last.name@) ==> last.regular) {
            assert forall|i: int|
                0 <= i < entries.len() && names_journal(
                    kind,
                    (#[trigger] entries[i]).name@,
                ) implies entries[i].regular by {
                if i < rest.len() {
                    assert(entries[i] == rest[i]);
                }
            }
            assert(journals_are_regular(kind, entries));
        }
        if let Ok(list) = r {
            let prior = before->Ok_0;
            assert forall|path: Seq<char>| #[trigger] list.contains(path) <==> is_path_of_journal(
                platform,
                kind,
                backups_dir,
                entries,
                path,
            ) by {
                lemma_path_of_journal(platform, kind, backups_dir, rest, last, path);
                if list != prior {
                    lemma_contains_push(prior, join_path(platform, backups_dir, last.name@), path);
                }
            }
        }
    }
}

proof fn lemma_path_of_journal(
    platform: Platform,
    kind: JournalKind,
    backups_dir: Seq<char>,
    rest: Seq<BackupEntry>,
    last: BackupEntry,
    path: Seq<char>,
)
    ensures
        is_path_of_journal(platform, kind, backups_dir, rest.push(last), path)
            <==> is_path_of_journal(platform, kind, backups_dir, rest, path) || (names_journal(
            kind,
            last.name@,
        ) && path == join_path(platform, backups_dir, last.name@)),
{
    let all = rest.push(last);
    assert(all[rest.len() as int] == last);
    if is_path_of_journal(platform, kind, backups_dir, rest, path) {
        let i = choose|i: int|
            0 <= i < rest.len() && names_journal(kind, (#[trigger] rest[i]).name@) && path
                == join_path(platform, backups_dir, rest[i].name@);
        assert(all[i] == rest[i]);
    }
    if is_path_of_journal(platform, kind, backups_dir, all, path) {
        let i = choose|i: int|
            0 <= i < all.len() && names_journal(kind, (#[trigger] all[i]).name@) && path
                == join_path(platform, backups_dir, all[i].name@);
        if i < rest.len() {
            assert(rest[i] == all[i]);
        }
    }
}

proof fn lemma_contains_push(s: Seq<Seq<char>>, x: Seq<char>, y: Seq<char>)
    ensures
        s.push(x).contains(y) <==> s.contains(y) || y == x,
{
    let t = s.push(x);
    assert(t[s.len() as int] == x);
    if s.contains(y) {
        let k = choose|k: int| 0 <= k < s.len() && s[k] == y;
        assert(t[k] == y);
    }
    if t.contains(y) && y != x {
        let k = choose|k: int| 0 <= k < t.len() && t[k] == y;
        assert(s[k] == y);
    }
}

} // verus!
