//! Durable intents of launcher operations, and how an interrupted one is
//! resumed.
//!
//! A journal is written before the launcher is touched and stays until the
//! result is part of the manager's state.

use vstd::prelude::*;

use crate::outside::{uuid_form, uuid_text};
use crate::patchset::{text_is_less, text_less};
use crate::paths::{
    extension, extension_of, file_name, file_name_of, is_absolute, is_settled, join_path, joined,
    joined_parts, lemma_plain_name, parent, parent_of, parts, path_is_absolute, same_path, Platform,
};
use crate::shim::{
    same_baseline, same_installed, same_record, BaselineBackup, BaselineView, InstalledShim,
    InstalledView, RecordView, SurfaceRecord, SURFACE_RECORD_SCHEMA,
};
use crate::state::{journal_name_word, journal_word, JournalKind};
use crate::surface::{
    baseline_is_untouched, baseline_matches, baseline_matches_current, inspect_installed_shim,
    inspected, is_manager_shim, matches_recorded_shim, matches_shim, opt_facts, record_matches,
    schema_check, shim_check, snapshot_matches, snapshot_matches_current, untouched,
    validate_record, FactsView, FileFacts, SnapshotView, SurfaceSnapshot,
};
use crate::text::{
    decimal, decimal_text, ends_with, opt_text, result_text, result_unit, same, starts_with, texts,
};
use crate::types::Timestamp;

verus! {

pub const JOURNAL_SCHEMA: u32 = 1;

pub const MAX_JOURNAL_BYTES: u64 = 4194304;

/// The file name of a journal.
pub open spec fn journal_name(kind: JournalKind, id: u128) -> Seq<char> {
    "."@ + journal_word(kind) + "-"@ + uuid_form(id) + ".json"@
}

pub open spec fn journal_path(
    platform: Platform,
    kind: JournalKind,
    backups_dir: Seq<char>,
    id: u128,
) -> Seq<char> {
    join_path(platform, backups_dir, journal_name(kind, id))
}

/// A file name that a journal of the kind may have.
pub open spec fn names_journal(kind: JournalKind, name: Seq<char>) -> bool {
    ("."@ + journal_word(kind) + "-"@).is_prefix_of(name) && ".json"@.is_suffix_of(name)
}

pub fn journal_file_name(kind: JournalKind, id: u128) -> (r: String)
    ensures
        r@ == journal_name(kind, id),
{
    let mut name = ".".to_owned();
    name.append(journal_name_word(kind));
    name.append("-");
    name.append(uuid_text(id).as_str());
    name.append(".json");
    name
}

pub fn journal_path_of(
    platform: Platform,
    kind: JournalKind,
    backups_dir: &str,
    id: u128,
) -> (r: String)
    ensures
        r@ == journal_path(platform, kind, backups_dir@, id),
{
    joined(platform, backups_dir, journal_file_name(kind, id).as_str())
}

pub fn is_journal_name(kind: JournalKind, name: &str) -> (r: bool)
    ensures
        r == names_journal(kind, name@),
{
    let mut prefix = ".".to_owned();
    prefix.append(journal_name_word(kind));
    prefix.append("-");
    starts_with(name, prefix.as_str()) && ends_with(name, ".json")
}

/// A character that separates nothing in a path.
spec fn is_plain(c: char) -> bool {
    c != '/' && c != '\\' && c != ':'
}

proof fn lemma_journal_words()
    ensures
        "."@ == seq!['.'],
        "takeover"@.len() == 8,
        "restore"@.len() == 7,
        "repair"@.len() == 6,
        "-"@ == seq!['-'],
        forall|i: int| 0 <= i < 8 ==> is_plain("takeover"@[i]),
        forall|i: int| 0 <= i < 7 ==> is_plain("restore"@[i]),
        forall|i: int| 0 <= i < 6 ==> is_plain("repair"@[i]),
        ".json"@.len() == 5,
        forall|i: int| 0 <= i < 5 ==> is_plain(".json"@[i]),
{
    reveal_strlit(".");
    reveal_strlit("-");
    reveal_strlit("takeover");
    reveal_strlit("restore");
    reveal_strlit("repair");
    reveal_strlit(".json");
    assert("."@ =~= seq!['.']);
    assert("-"@ =~= seq!['-']);
}

/// The journals of different operations are never taken for each other.
pub proof fn journal_kinds_are_told_apart(a: JournalKind, b: JournalKind, id: u128)
    ensures
        names_journal(a, journal_name(b, id)) <==> a == b,
{
    reveal_strlit("takeover");
    reveal_strlit("restore");
    reveal_strlit("repair");
    lemma_journal_words();
    let x = "."@ + journal_word(a) + "-"@;
    let name = journal_name(b, id);
    if a == b {
        assert(name.take(x.len() as int) =~= x);
        assert(name.skip(name.len() - 5) =~= ".json"@);
    } else if x.is_prefix_of(name) {
        assert(name.take(x.len() as int)[1] == x[1]);
        assert(name.take(x.len() as int)[3] == x[3]);
        assert(x[1] == journal_word(a)[0] && name[1] == journal_word(b)[0]);
        assert(x[3] == journal_word(a)[2] && name[3] == journal_word(b)[2]);
        assert("restore"@[2] == 's' && "repair"@[2] == 'p' && "takeover"@[0] == 't');
    }
}

/// A journal is found under its own name, in the directory that it is written to.
pub proof fn journals_are_found_by_name(
    platform: Platform,
    kind: JournalKind,
    backups_dir: Seq<char>,
    id: u128,
)
    requires
        is_settled(platform, backups_dir),
    ensures
        names_journal(kind, journal_name(kind, id)),
        file_name(
            platform,
            journal_path(platform, kind, backups_dir, id),
        ) == Some(journal_name(kind, id)),
{
    lemma_journal_words();
    let word = journal_word(kind);
    let name = journal_name(kind, id);
    let prefix = "."@ + word + "-"@;
    assert(name.take(prefix.len() as int) =~= prefix);
    assert(name.skip(name.len() - 5) =~= ".json"@);
    assert forall|i: int| 0 <= i < name.len() implies is_plain(name[i]) by {
        if i == 0 {
            assert(name[i] == '.');
        } else if i < 1 + word.len() {
            assert(name[i] == word[i - 1]);
        } else if i == 1 + word.len() {
            assert(name[i] == '-');
        } else if i < 2 + word.len() + 36 {
            assert(name[i] == uuid_form(id)[i - 2 - word.len()]);
        } else {
            assert(name[i] == ".json"@[i - 38 - word.len()]);
        }
    }
    assert(name.len() > 3);
    assert(is_plain(name[1]));
    lemma_plain_name(platform, name);
    joined_parts(platform, backups_dir, name);
    assert(parts(platform, journal_path(platform, kind, backups_dir, id)).last() == name);
    assert(name != seq!['/'] && name != seq!['.', '.']);
}

/// A journal that is too large to be one is refused.
pub fn check_journal_size(kind: JournalKind, path: &str, length: u64) -> (r: Result<(), String>)
    ensures
        result_unit(r) == (if length > MAX_JOURNAL_BYTES {
            Err(journal_word(kind) + " journal is unreasonably large: "@ + path@)
        } else {
            Ok(())
        }),
{
    if length <= MAX_JOURNAL_BYTES {
        return Ok(());
    }
    let mut message = journal_name_word(kind).to_owned();
    message.append(" journal is unreasonably large: ");
    message.append(path);
    Err(message)
}

pub open spec fn irregular_message(kind: JournalKind, path: Seq<char>) -> Seq<char> {
    journal_word(kind) + " journal path is not a regular file: "@ + path
}

/// A journal must be a regular file, not a link.
pub fn check_regular_journal(
    kind: JournalKind,
    path: &str,
    regular: bool,
) -> (r: Result<(), String>)
    ensures
        result_unit(r) == (if regular {
            Ok(())
        } else {
            Err(irregular_message(kind, path@))
        }),
{
    if regular {
        return Ok(());
    }
    let mut message = journal_name_word(kind).to_owned();
    message.append(" journal path is not a regular file: ");
    message.append(path);
    Err(message)
}

/// One entry of the backup directory.
#[derive(Debug)]
pub struct BackupEntry {
    pub name: String,
    /// A regular file, not a link.
    pub regular: bool,
}

/// The paths of the journals among the entries, in the order of the directory, or the
/// first entry that is named as a journal without being a regular file.
pub open spec fn found_journals(
    platform: Platform,
    kind: JournalKind,
    backups_dir: Seq<char>,
    entries: Seq<BackupEntry>,
) -> Result<Seq<Seq<char>>, Seq<char>>
    decreases entries.len(),
{
    if entries.len() == 0 {
        Ok(Seq::empty())
    } else {
        let e = entries.last();
        match found_journals(platform, kind, backups_dir, entries.drop_last()) {
            Err(message) => Err(message),
            Ok(list) => if !names_journal(kind, e.name@) {
                Ok(list)
            } else if !e.regular {
                Err(irregular_message(kind, join_path(platform, backups_dir, e.name@)))
            } else {
                Ok(list.push(join_path(platform, backups_dir, e.name@)))
            },
        }
    }
}

pub open spec fn sorted_texts(v: Seq<Seq<char>>) -> bool {
    forall|i: int, j: int| 0 <= i < j < v.len() ==> !text_less(v[j], v[i])
}

proof fn lemma_journals_stop(
    platform: Platform,
    kind: JournalKind,
    backups_dir: Seq<char>,
    entries: Seq<BackupEntry>,
    n: int,
)
    requires
        0 <= n <= entries.len(),
        found_journals(platform, kind, backups_dir, entries.take(n)) is Err,
    ensures
        found_journals(platform, kind, backups_dir, entries) == found_journals(
            platform,
            kind,
            backups_dir,
            entries.take(n),
        ),
    decreases entries.len() - n,
{
    if n == entries.len() {
        assert(entries.take(n) =~= entries);
    } else {
        assert(entries.take(n + 1).drop_last() =~= entries.take(n));
        lemma_journals_stop(platform, kind, backups_dir, entries, n + 1);
    }
}

/// Puts a path into a sorted list.
fn insert_path(list: &mut Vec<String>, item: String)
    requires
        sorted_texts(texts(old(list)@)),
    ensures
        sorted_texts(texts(final(list)@)),
        texts(final(list)@).to_multiset() == texts(old(list)@).to_multiset().insert(item@),
{
    let ghost v = texts(list@);
    let ghost x = item@;
    let mut at: usize = list.len();
    while at > 0 && text_is_less(item.as_str(), list[at - 1].as_str())
        invariant
            at <= list@.len(),
            v == texts(list@),
            x == item@,
            sorted_texts(v),
            forall|k: int| at <= k < v.len() ==> text_less(x, #[trigger] v[k]),
        decreases at,
    {
        proof {
            assert(v[at as int - 1] == list@[at as int - 1]@);
        }
        at = at - 1;
    }
    proof {
        if at > 0 {
            assert(v[at as int - 1] == list@[at as int - 1]@);
        }
    }
    list.insert(at, item);
    proof {
        let w = texts(list@);
        assert(w =~= v.insert(at as int, x));
        vstd::seq_lib::to_multiset_insert(v, at as int, x);
        assert forall|a: int, b: int| 0 <= a < b < w.len() implies !text_less(w[b], w[a]) by {
            if a == at {
                crate::patchset::lemma_less_asymmetric(x, v[b - 1]);
            } else if b == at {
                if a < at - 1 {
                    crate::patchset::lemma_less_transitive(v[a], v[at - 1], x);
                }
            } else {
                let a0 = if a < at { a } else { a - 1 };
                let b0 = if b < at { b } else { b - 1 };
                assert(w[a] == v[a0] && w[b] == v[b0]);
            }
        }
    }
}

/// The journals of a kind, in the order of their paths.
pub fn journal_paths(
    platform: Platform,
    kind: JournalKind,
    backups_dir: &str,
    entries: &Vec<BackupEntry>,
) -> (r: Result<Vec<String>, String>)
    ensures
        match found_journals(platform, kind, backups_dir@, entries@) {
            Err(message) => r matches Err(e) && e@ == message,
            Ok(list) => r matches Ok(v) && sorted_texts(texts(v@)) && texts(v@).to_multiset()
                == list.to_multiset(),
        },
{
    let mut out: Vec<String> = Vec::new();
    let ghost mut list: Seq<Seq<char>> = Seq::empty();
    let mut i: usize = 0;
    proof {
        assert(entries@.take(0) =~= Seq::empty());
        assert(texts(out@) =~= list);
    }
    while i < entries.len()
        invariant
            i <= entries@.len(),
            found_journals(platform, kind, backups_dir@, entries@.take(i as int)) == Ok::<
                Seq<Seq<char>>,
                Seq<char>,
            >(list),
            sorted_texts(texts(out@)),
            texts(out@).to_multiset() == list.to_multiset(),
        decreases entries@.len() - i,
    {
        proof {
            assert(entries@.take(i as int + 1).drop_last() =~= entries@.take(i as int));
        }
        if is_journal_name(kind, entries[i].name.as_str()) {
            let path = joined(platform, backups_dir, entries[i].name.as_str());
            match check_regular_journal(kind, path.as_str(), entries[i].regular) {
                Ok(()) => {},
                Err(message) => {
                    proof {
                        lemma_journals_stop(platform, kind, backups_dir@, entries@, i as int + 1);
                    }
                    return Err(message);
                },
            }
            proof {
                vstd::seq_lib::to_multiset_build(list, path@);
                list = list.push(path@);
            }
            insert_path(&mut out, path);
        }
        i = i + 1;
    }
    proof {
        assert(entries@.take(entries@.len() as int) =~= entries@);
    }
    Ok(out)
}

/// Durable intent for one launcher takeover.
///
/// The prepared form (`installed == None`) is written and synced before the
/// launcher is touched. The completed form is written after the replacement
/// has been inspected. The journal is deliberately kept until the caller has
/// durably added the returned [`SurfaceRecord`] to manager state.
#[derive(Debug)]
pub struct TakeoverJournal {
    pub schema: u32,
    pub id: u128,
    pub surface: String,
    pub manager: String,
    pub baseline: BaselineBackup,
    pub started_at: Timestamp,
    pub installed: Option<InstalledShim>,
    pub installed_at: Option<Timestamp>,
}

/// Durable intent for one compare-and-swap baseline restoration.
///
/// A journal without `completed_at` is written before the installed launcher
/// is replaced. Once the baseline is verified, `completed_at` is persisted and
/// the journal remains until manager state no longer contains `record`.
#[derive(Debug)]
pub struct RestoreJournal {
    pub schema: u32,
    pub id: u128,
    pub record: SurfaceRecord,
    pub started_at: Timestamp,
    pub completed_at: Option<Timestamp>,
}

#[derive(Debug, Clone, Copy, PartialEq, Eq, Structural)]
pub enum RepairOutcome {
    Unchanged,
    ReinstalledOwned,
    ReinstalledBaseline,
    AdoptedAndReinstalled,
}

/// Durable intent and result for one repair-shims replacement.
#[derive(Debug)]
pub struct RepairJournal {
    pub schema: u32,
    pub id: u128,
    pub original: SurfaceRecord,
    pub manager: String,
    pub outcome: RepairOutcome,
    pub replacement_baseline: BaselineBackup,
    pub observed: SurfaceSnapshot,
    pub started_at: Timestamp,
    pub updated: Option<SurfaceRecord>,
    pub completed_at: Option<Timestamp>,
}

pub open spec fn journal_schema_message(
    kind: JournalKind,
    schema: u32,
    path: Seq<char>,
) -> Seq<char> {
    "unsupported "@ + journal_word(kind) + " journal schema "@ + decimal(schema as nat) + " in "@
        + path + " (expected "@ + decimal(JOURNAL_SCHEMA as nat) + ")"@
}

fn schema_message(kind: JournalKind, schema: u32, path: &str) -> (r: String)
    ensures
        r@ == journal_schema_message(kind, schema, path@),
{
    let mut message = "unsupported ".to_owned();
    message.append(journal_name_word(kind));
    message.append(" journal schema ");
    message.append(decimal_text(schema as u64).as_str());
    message.append(" in ");
    message.append(path);
    message.append(" (expected ");
    message.append(decimal_text(JOURNAL_SCHEMA as u64).as_str());
    message.append(")");
    message
}

pub open spec fn has_name(platform: Platform, path: Seq<char>, name: Seq<char>) -> bool {
    file_name(platform, path) == Some(name)
}

fn is_named(platform: Platform, path: &str, name: &str) -> (r: bool)
    ensures
        r == has_name(platform, path@, name@),
{
    match file_name_of(platform, path) {
        Some(actual) => same(actual.as_str(), name),
        None => false,
    }
}

/// A text behind a journal's path.
fn about(prefix: &str, path: &str) -> (r: String)
    ensures
        r@ == prefix@ + path@,
{
    let mut out = prefix.to_owned();
    out.append(path);
    out
}

/// What is wrong with a takeover journal, if anything is.
pub open spec fn takeover_problem(
    platform: Platform,
    j: TakeoverJournal,
    path: Seq<char>,
) -> Option<Seq<char>> {
    if j.schema != JOURNAL_SCHEMA {
        Some(journal_schema_message(JournalKind::Takeover, j.schema, path))
    } else if !has_name(platform, path, journal_name(JournalKind::Takeover, j.id)) {
        Some("takeover journal id does not match its filename: "@ + path)
    } else if !is_absolute(platform, j.surface@) || !is_absolute(platform, j.manager@) {
        Some(
            "takeover journal contains non-absolute launcher or manager path: "@ + path,
        )
    } else {
        match (j.installed, j.installed_at) {
            (Some(installed), Some(_)) => if parts(platform, installed.manager@) == parts(platform, j.manager@) {
                None
            } else {
                Some(
                    "takeover journal installed manager does not match its intent: "@ + path,
                )
            },
            (None, None) => None,
            _ => Some("takeover journal has inconsistent installed metadata: "@ + path),
        }
    }
}

pub open spec fn as_result(problem: Option<Seq<char>>) -> Result<(), Seq<char>> {
    match problem {
        Some(message) => Err(message),
        None => Ok(()),
    }
}

pub fn validate_takeover_journal(
    platform: Platform,
    journal: &TakeoverJournal,
    path: &str,
) -> (r: Result<(), String>)
    ensures
        result_unit(r) == as_result(takeover_problem(platform, *journal, path@)),
{
    if journal.schema != JOURNAL_SCHEMA {
        return Err(schema_message(JournalKind::Takeover, journal.schema, path));
    }
    if !is_named(platform, path, journal_file_name(JournalKind::Takeover, journal.id).as_str()) {
        return Err(about("takeover journal id does not match its filename: ", path));
    }
    if !path_is_absolute(
        platform,
        journal.surface.as_str(),
    ) || !path_is_absolute(platform, journal.manager.as_str()) {
        return Err(
            about("takeover journal contains non-absolute launcher or manager path: ", path),
        );
    }
    match (&journal.installed, journal.installed_at) {
        (Some(installed), Some(_)) => {
            if same_path(platform, installed.manager.as_str(), journal.manager.as_str()) {
                Ok(())
            } else {
                Err(
                    about("takeover journal installed manager does not match its intent: ", path),
                )
            }
        },
        (None, None) => Ok(()),
        _ => Err(about("takeover journal has inconsistent installed metadata: ", path)),
    }
}

pub open spec fn restore_problem(
    platform: Platform,
    j: RestoreJournal,
    path: Seq<char>,
) -> Option<Seq<char>> {
    if j.schema != JOURNAL_SCHEMA {
        Some(journal_schema_message(JournalKind::Restore, j.schema, path))
    } else if j.id != j.record.id {
        Some("restore journal id does not match its surface record: "@ + path)
    } else if !has_name(platform, path, journal_name(JournalKind::Restore, j.id)) {
        Some("restore journal id does not match its filename: "@ + path)
    } else if schema_check(j.record.schema) is Err {
        Some(schema_check(j.record.schema)->Err_0)
    } else if !is_absolute(platform, j.record.surface@) || !is_absolute(
        platform,
        j.record.installed.manager@,
    ) {
        Some("restore journal contains non-absolute launcher or manager path: "@ + path)
    } else {
        None
    }
}

pub fn validate_restore_journal(
    platform: Platform,
    journal: &RestoreJournal,
    path: &str,
) -> (r: Result<(), String>)
    ensures
        result_unit(r) == as_result(restore_problem(platform, *journal, path@)),
{
    if journal.schema != JOURNAL_SCHEMA {
        return Err(schema_message(JournalKind::Restore, journal.schema, path));
    }
    if journal.id != journal.record.id {
        return Err(about("restore journal id does not match its surface record: ", path));
    }
    if !is_named(platform, path, journal_file_name(JournalKind::Restore, journal.id).as_str()) {
        return Err(about("restore journal id does not match its filename: ", path));
    }
    match validate_record(&journal.record) {
        Ok(()) => {},
        Err(message) => return Err(message),
    }
    if !path_is_absolute(platform, journal.record.surface.as_str()) || !path_is_absolute(
        platform,
        journal.record.installed.manager.as_str(),
    ) {
        return Err(
            about("restore journal contains non-absolute launcher or manager path: ", path),
        );
    }
    Ok(())
}

/// The updated record is the original one with the replacement baseline and the manager.
pub open spec fn updated_fits(platform: Platform, j: RepairJournal, updated: RecordView) -> bool {
    &&& updated.id == j.id
    &&& parts(platform, updated.surface) == parts(platform, j.original.surface@)
    &&& same_baseline(platform, updated.baseline, j.replacement_baseline@)
    &&& parts(platform, updated.installed.manager) == parts(platform, j.manager@)
}

pub open spec fn repair_problem(
    platform: Platform,
    j: RepairJournal,
    path: Seq<char>,
) -> Option<Seq<char>> {
    if j.schema != JOURNAL_SCHEMA {
        Some(journal_schema_message(JournalKind::Repair, j.schema, path))
    } else if j.id != j.original.id {
        Some("repair journal id does not match its original surface record: "@ + path)
    } else if !has_name(platform, path, journal_name(JournalKind::Repair, j.id)) {
        Some("repair journal id does not match its filename: "@ + path)
    } else if schema_check(j.original.schema) is Err {
        Some(schema_check(j.original.schema)->Err_0)
    } else if !is_absolute(platform, j.original.surface@) || !is_absolute(platform, j.manager@) {
        Some("repair journal contains a non-absolute launcher or manager path: "@ + path)
    } else if j.outcome == RepairOutcome::Unchanged {
        Some("repair journal cannot contain an unchanged operation: "@ + path)
    } else if j.updated is Some != j.completed_at is Some {
        Some("repair journal has inconsistent completion metadata: "@ + path)
    } else {
        match j.updated {
            None => None,
            Some(updated) => if schema_check(updated.schema) is Err {
                Some(schema_check(updated.schema)->Err_0)
            } else if !updated_fits(platform, j, updated@) {
                Some("repair journal has an invalid updated surface record: "@ + path)
            } else {
                None
            },
        }
    }
}

pub fn validate_repair_journal(
    platform: Platform,
    journal: &RepairJournal,
    path: &str,
) -> (r: Result<(), String>)
    ensures
        result_unit(r) == as_result(repair_problem(platform, *journal, path@)),
{
    if journal.schema != JOURNAL_SCHEMA {
        return Err(schema_message(JournalKind::Repair, journal.schema, path));
    }
    if journal.id != journal.original.id {
        return Err(
            about("repair journal id does not match its original surface record: ", path),
        );
    }
    if !is_named(platform, path, journal_file_name(JournalKind::Repair, journal.id).as_str()) {
        return Err(about("repair journal id does not match its filename: ", path));
    }
    match validate_record(&journal.original) {
        Ok(()) => {},
        Err(message) => return Err(message),
    }
    if !path_is_absolute(platform, journal.original.surface.as_str()) || !path_is_absolute(
        platform,
        journal.manager.as_str(),
    ) {
        return Err(
            about("repair journal contains a non-absolute launcher or manager path: ", path),
        );
    }
    if journal.outcome == RepairOutcome::Unchanged {
        return Err(about("repair journal cannot contain an unchanged operation: ", path));
    }
    if journal.updated.is_some() != journal.completed_at.is_some() {
        return Err(about("repair journal has inconsistent completion metadata: ", path));
    }
    if let Some(updated) = &journal.updated {
        match validate_record(updated) {
            Ok(()) => {},
            Err(message) => return Err(message),
        }
        if updated.id != journal.id || !same_path(
            platform,
            updated.surface.as_str(),
            journal.original.surface.as_str(),
        ) || !updated.baseline.agrees_with(platform, &journal.replacement_baseline) || !same_path(
            platform,
            updated.installed.manager.as_str(),
            journal.manager.as_str(),
        ) {
            return Err(
                about("repair journal has an invalid updated surface record: ", path),
            );
        }
    }
    Ok(())
}

/// The journal that is written before a launcher is taken over.
pub fn prepare_takeover(
    id: u128,
    surface: &str,
    manager: &str,
    baseline: &BaselineBackup,
    now: Timestamp,
) -> (r: TakeoverJournal)
    ensures
        r.schema == JOURNAL_SCHEMA,
        r.id == id,
        r.surface@ == surface@,
        r.manager@ == manager@,
        r.baseline@ == baseline@,
        r.started_at == now,
        r.installed is None,
        r.installed_at is None,
{
    TakeoverJournal {
        schema: JOURNAL_SCHEMA,
        id,
        surface: surface.to_owned(),
        manager: manager.to_owned(),
        baseline: baseline.clone(),
        started_at: now,
        installed: None,
        installed_at: None,
    }
}

/// The ownership record of a completed takeover.
pub open spec fn takeover_record(
    j: TakeoverJournal,
    installed: InstalledView,
    at: Timestamp,
) -> RecordView {
    RecordView {
        schema: SURFACE_RECORD_SCHEMA,
        id: j.id,
        surface: j.surface@,
        baseline: j.baseline@,
        installed,
        installed_at: at,
        updater: None,
    }
}

/// `after` is `before` with its result.
pub open spec fn completes(
    before: TakeoverJournal,
    after: TakeoverJournal,
    installed: InstalledView,
    at: Timestamp,
) -> bool {
    &&& after.schema == before.schema
    &&& after.id == before.id
    &&& after.surface@ == before.surface@
    &&& after.manager@ == before.manager@
    &&& after.baseline@ == before.baseline@
    &&& after.started_at == before.started_at
    &&& after.installed matches Some(i) && i@ == installed
    &&& after.installed_at == Some(at)
}

/// The completed journal of a takeover, and the record that it leads to.
pub fn complete_takeover(
    journal: &TakeoverJournal,
    installed: &InstalledShim,
    at: Timestamp,
) -> (r: (
    TakeoverJournal,
    SurfaceRecord,
))
    ensures
        completes(*journal, r.0, installed@, at),
        r.1@ == takeover_record(*journal, installed@, at),
{
    let completed = TakeoverJournal {
        schema: journal.schema,
        id: journal.id,
        surface: journal.surface.clone(),
        manager: journal.manager.clone(),
        baseline: journal.baseline.clone(),
        started_at: journal.started_at,
        installed: Some(installed.clone()),
        installed_at: Some(at),
    };
    let record = SurfaceRecord {
        schema: SURFACE_RECORD_SCHEMA,
        id: journal.id,
        surface: journal.surface.clone(),
        baseline: journal.baseline.clone(),
        installed: installed.clone(),
        installed_at: at,
        updater: None,
    };
    (completed, record)
}

/// What an interrupted takeover left behind.
#[derive(Debug)]
pub enum TakeoverAction {
    /// The launcher was never touched: the journal is dropped.
    NoMutation,
    /// The launcher is the manager's: the journal is completed.
    Installed { completed: TakeoverJournal, record: SurfaceRecord },
}

pub open spec fn takeover_drift_message(path: Seq<char>, surface: Seq<char>) -> Seq<char> {
    "takeover journal "@ + path + " cannot be recovered because "@ + surface
        + " matches neither its baseline nor the codex-patcher manager shim; refusing to overwrite drift"@
}

pub open spec fn takeover_time(j: TakeoverJournal) -> Timestamp {
    match j.installed_at {
        Some(at) => at,
        None => j.started_at,
    }
}

/// What `r` must be for a journal whose launcher was found as `found`.
pub open spec fn recovers_takeover(
    platform: Platform,
    j: TakeoverJournal,
    path: Seq<char>,
    found: Option<FactsView>,
    image: Result<Seq<char>, Seq<char>>,
    r: Result<TakeoverAction, String>,
) -> bool {
    if untouched(platform, found, j.baseline@) {
        r matches Ok(TakeoverAction::NoMutation)
    } else {
        match shim_check(platform, found, j.surface@, j.manager@, image) {
            Err(message) => r matches Err(e) && e@ == message,
            Ok(true) => r matches Ok(TakeoverAction::Installed { completed, record }) && {
                let installed = inspected(platform, j.surface@, j.manager@, found)->Ok_0;
                &&& completes(j, completed, installed, takeover_time(j))
                &&& record@ == takeover_record(j, installed, takeover_time(j))
            },
            Ok(false) => r matches Err(e) && e@ == takeover_drift_message(path, j.surface@),
        }
    }
}

/// Classifies the journal at `path` by what stands at its launcher. External drift is
/// refused.
pub fn classify_takeover_journal(
    platform: Platform,
    journal: &TakeoverJournal,
    path: &str,
    found: &Option<FileFacts>,
    image: &Result<String, String>,
) -> (r: Result<TakeoverAction, String>)
    ensures
        recovers_takeover(
            platform,
            *journal,
            path@,
            opt_facts(*found),
            result_text(*image),
            r,
        ),
{
    if baseline_is_untouched(platform, found, &journal.baseline) {
        return Ok(TakeoverAction::NoMutation);
    }
    let owned = match matches_shim(
        platform,
        found,
        journal.surface.as_str(),
        journal.manager.as_str(),
        image,
    ) {
        Ok(owned) => owned,
        Err(message) => return Err(message),
    };
    if owned {
        let installed = match inspect_installed_shim(
            platform,
            journal.surface.as_str(),
            journal.manager.as_str(),
            found,
        ) {
            Ok(installed) => installed,
            Err(message) => return Err(message),
        };
        let at = match journal.installed_at {
            Some(at) => at,
            None => journal.started_at,
        };
        let (completed, record) = complete_takeover(journal, &installed, at);
        return Ok(TakeoverAction::Installed { completed, record });
    }
    let mut message = "takeover journal ".to_owned();
    message.append(path);
    message.append(" cannot be recovered because ");
    message.append(journal.surface.as_str());
    message.append(
        " matches neither its baseline nor the codex-patcher manager shim; refusing to overwrite drift",
    );
    Err(message)
}

/// A journal with its path and what stands at its launcher.
#[derive(Debug)]
pub struct InspectedTakeover {
    pub journal: TakeoverJournal,
    pub path: String,
    pub found: Option<FileFacts>,
    /// The SHA-256 of the journal's manager, or why it cannot be read.
    pub image: Result<String, String>,
}

/// Why a journal cannot be recovered.
pub open spec fn takeover_failure(platform: Platform, t: InspectedTakeover) -> Option<Seq<char>> {
    if untouched(platform, opt_facts(t.found), t.journal.baseline@) {
        None
    } else {
        match shim_check(
            platform,
            opt_facts(t.found),
            t.journal.surface@,
            t.journal.manager@,
            result_text(t.image),
        ) {
            Err(message) => Some(message),
            Ok(true) => None,
            Ok(false) => Some(takeover_drift_message(t.path@, t.journal.surface@)),
        }
    }
}

/// Classifies every journal before any of them is acted on: one that cannot be recovered
/// keeps the whole set.
pub fn recover_redirect_journals(platform: Platform, list: &Vec<InspectedTakeover>) -> (r: Result<
    Vec<TakeoverAction>,
    String,
>)
    ensures
        match r {
            Ok(actions) => actions@.len() == list@.len() && forall|i: int|
                0 <= i < list@.len() ==> recovers_takeover(
                    platform,
                    (#[trigger] list@[i]).journal,
                    list@[i].path@,
                    opt_facts(list@[i].found),
                    result_text(list@[i].image),
                    Ok(actions@[i]),
                ),
            Err(e) => exists|i: int|
                0 <= i < list@.len() && takeover_failure(platform, #[trigger] list@[i]) == Some(e@)
                    && forall|k: int|
                    0 <= k < i ==> takeover_failure(platform, #[trigger] list@[k]) is None,
        },
{
    let mut actions: Vec<TakeoverAction> = Vec::new();
    let mut i: usize = 0;
    while i < list.len()
        invariant
            i <= list@.len(),
            actions@.len() == i,
            forall|k: int|
                0 <= k < i ==> recovers_takeover(
                    platform,
                    (#[trigger] list@[k]).journal,
                    list@[k].path@,
                    opt_facts(list@[k].found),
                    result_text(list@[k].image),
                    Ok(actions@[k]),
                ),
            forall|k: int| 0 <= k < i ==> takeover_failure(platform, #[trigger] list@[k]) is None,
        decreases list@.len() - i,
    {
        let item = &list[i];
        match classify_takeover_journal(
            platform,
            &item.journal,
            item.path.as_str(),
            &item.found,
            &item.image,
        ) {
            Ok(action) => actions.push(action),
            Err(message) => {
                proof {
                    assert(takeover_failure(platform, list@[i as int]) == Some(message@));
                }
                return Err(message);
            },
        }
        i = i + 1;
    }
    Ok(actions)
}

/// Recovery of takeovers never gives up a launcher that someone else has written: a set
/// with such a journal is refused as a whole.
pub proof fn drifted_takeovers_are_refused(
    platform: Platform,
    t: InspectedTakeover,
    r: Result<TakeoverAction, String>,
)
    requires
        takeover_failure(platform, t) is Some,
        recovers_takeover(
            platform,
            t.journal,
            t.path@,
            opt_facts(t.found),
            result_text(t.image),
            r,
        ),
    ensures
        r is Err,
{
}

#[derive(Debug, Clone, Copy, PartialEq, Eq, Structural)]
pub enum RestoreDisposition {
    RetryInstalledShim,
    BaselinePresent,
}

pub open spec fn restore_disposition(
    platform: Platform,
    record: RecordView,
    path: Seq<char>,
    found: Option<FactsView>,
) -> Result<RestoreDisposition, Seq<char>> {
    if record_matches(platform, found, record) {
        Ok(RestoreDisposition::RetryInstalledShim)
    } else if baseline_matches(platform, found, record.baseline) {
        Ok(RestoreDisposition::BaselinePresent)
    } else {
        Err(
            "restore journal "@ + path + " cannot be recovered because "@ + record.surface
                + " matches neither its recorded shim nor its baseline; refusing to overwrite drift"@,
        )
    }
}

pub open spec fn restore_result(r: Result<RestoreDisposition, String>) -> Result<
    RestoreDisposition,
    Seq<char>,
> {
    match r {
        Ok(d) => Ok(d),
        Err(message) => Err(message@),
    }
}

/// Classifies a restore journal by what stands at its launcher.
pub fn classify_restore_journal(
    platform: Platform,
    journal: &RestoreJournal,
    path: &str,
    found: &Option<FileFacts>,
) -> (r: Result<RestoreDisposition, String>)
    ensures
        restore_result(r) == restore_disposition(
            platform,
            journal.record@,
            path@,
            opt_facts(*found),
        ),
{
    if matches_recorded_shim(platform, found, &journal.record) {
        return Ok(RestoreDisposition::RetryInstalledShim);
    }
    if baseline_matches_current(platform, found, &journal.record.baseline) {
        return Ok(RestoreDisposition::BaselinePresent);
    }
    let mut message = "restore journal ".to_owned();
    message.append(path);
    message.append(" cannot be recovered because ");
    message.append(journal.record.surface.as_str());
    message.append(
        " matches neither its recorded shim nor its baseline; refusing to overwrite drift",
    );
    Err(message)
}

/// The journal that is written before a baseline is restored: only an exact shim is
/// replaced.
pub fn prepare_restore(
    platform: Platform,
    record: &SurfaceRecord,
    found: &Option<FileFacts>,
    now: Timestamp,
) -> (r: Result<RestoreJournal, String>)
    ensures
        if record_matches(platform, opt_facts(*found), record@) {
            r matches Ok(j) && j.schema == JOURNAL_SCHEMA && j.id == record.id && j.record@
                == record@ && j.started_at == now && j.completed_at is None
        } else {
            r matches Err(e) && e@ == "refusing to restore "@ + record.surface@
                + " because the installed shim no longer matches its ownership record"@
        },
{
    if !matches_recorded_shim(platform, found, record) {
        let mut message = "refusing to restore ".to_owned();
        message.append(record.surface.as_str());
        message.append(
            " because the installed shim no longer matches its ownership record",
        );
        return Err(message);
    }
    Ok(
        RestoreJournal {
            schema: JOURNAL_SCHEMA,
            id: record.id,
            record: record.clone(),
            started_at: now,
            completed_at: None,
        },
    )
}

/// The time of completion, once what stands at the launcher is the baseline.
pub fn complete_restore(
    platform: Platform,
    journal: &RestoreJournal,
    found: &Option<FileFacts>,
    now: Timestamp,
) -> (r: Result<Timestamp, String>)
    ensures
        if baseline_matches(platform, opt_facts(*found), journal.record.baseline@) {
            r == Ok::<Timestamp, String>(
                match journal.completed_at {
                    Some(at) => at,
                    None => now,
                },
            )
        } else {
            r matches Err(e) && e@ == "restored baseline failed verification for "@
                + journal.record.surface@
        },
{
    if !baseline_matches_current(platform, found, &journal.record.baseline) {
        return Err(
            about(
                "restored baseline failed verification for ",
                journal.record.surface.as_str(),
            ),
        );
    }
    match journal.completed_at {
        Some(at) => Ok(at),
        None => Ok(now),
    }
}

/// A journal may be dropped once its restoration is complete.
pub fn check_finalize_restore(journal: &RestoreJournal, id: u128, path: &str) -> (r: Result<
    (),
    String,
>)
    ensures
        result_unit(r) == (if journal.id != id {
            Err("restore journal id mismatch: "@ + path@)
        } else if journal.completed_at is None {
            Err("refusing to finalize incomplete restore journal "@ + path@)
        } else {
            Ok(())
        }),
{
    if journal.id != id {
        return Err(about("restore journal id mismatch: ", path));
    }
    if journal.completed_at.is_none() {
        return Err(about("refusing to finalize incomplete restore journal ", path));
    }
    Ok(())
}

/// A restore journal that is there already must be for the same record.
pub fn check_restore_record(
    platform: Platform,
    journal: &RestoreJournal,
    record: &SurfaceRecord,
    path: &str,
) -> (r: Result<(), String>)
    ensures
        result_unit(r) == (if same_record(platform, journal.record@, record@) {
            Ok(())
        } else {
            Err(
                "restore journal "@ + path@ + " does not match the requested surface record"@,
            )
        }),
{
    if journal.record.agrees_with(platform, record) {
        return Ok(());
    }
    let mut message = "restore journal ".to_owned();
    message.append(path);
    message.append(" does not match the requested surface record");
    Err(message)
}

/// What a repair does about a launcher. Unexpected drift is never silently adopted.
pub open spec fn repair_choice(
    platform: Platform,
    record: RecordView,
    manager: Seq<char>,
    found: Option<FactsView>,
    image: Result<Seq<char>, Seq<char>>,
    adopt: bool,
) -> Result<RepairOutcome, Seq<char>> {
    if record_matches(platform, found, record) {
        Ok(RepairOutcome::Unchanged)
    } else {
        match shim_check(platform, found, record.surface, manager, image) {
            Err(message) => Err(message),
            Ok(true) => Ok(RepairOutcome::ReinstalledOwned),
            Ok(false) => if baseline_matches(platform, found, record.baseline) {
                Ok(RepairOutcome::ReinstalledBaseline)
            } else if adopt {
                Ok(RepairOutcome::AdoptedAndReinstalled)
            } else {
                Err(
                    "surface "@ + record.surface
                        + " changed outside codex-patcher; rerun with explicit adoption to overwrite it"@,
                )
            },
        }
    }
}

pub open spec fn outcome_result(r: Result<RepairOutcome, String>) -> Result<
    RepairOutcome,
    Seq<char>,
> {
    match r {
        Ok(o) => Ok(o),
        Err(message) => Err(message@),
    }
}

pub fn repair_redirect(
    platform: Platform,
    record: &SurfaceRecord,
    manager: &str,
    found: &Option<FileFacts>,
    image: &Result<String, String>,
    adopt: bool,
) -> (r: Result<RepairOutcome, String>)
    ensures
        outcome_result(r) == repair_choice(
            platform,
            record@,
            manager@,
            opt_facts(*found),
            result_text(*image),
            adopt,
        ),
{
    if matches_recorded_shim(platform, found, record) {
        return Ok(RepairOutcome::Unchanged);
    }
    match matches_shim(platform, found, record.surface.as_str(), manager, image) {
        Err(message) => return Err(message),
        Ok(owned) => {
            if owned {
                return Ok(RepairOutcome::ReinstalledOwned);
            }
        },
    }
    if baseline_matches_current(platform, found, &record.baseline) {
        return Ok(RepairOutcome::ReinstalledBaseline);
    }
    if adopt {
        return Ok(RepairOutcome::AdoptedAndReinstalled);
    }
    let mut message = "surface ".to_owned();
    message.append(record.surface.as_str());
    message.append(
        " changed outside codex-patcher; rerun with explicit adoption to overwrite it",
    );
    Err(message)
}

/// The launcher is still what the repair was authorized for.
pub open spec fn precondition_holds(
    platform: Platform,
    observed: SnapshotView,
    outcome: RepairOutcome,
    original: RecordView,
    manager: Seq<char>,
    replacement: BaselineView,
    found: Option<FactsView>,
    image: Result<Seq<char>, Seq<char>>,
) -> bool {
    snapshot_matches(platform, found, observed) && match outcome {
        RepairOutcome::Unchanged => false,
        RepairOutcome::ReinstalledOwned => is_manager_shim(
            platform,
            found,
            original.surface,
            manager,
            image,
        ),
        RepairOutcome::ReinstalledBaseline => baseline_matches(platform, found, original.baseline),
        RepairOutcome::AdoptedAndReinstalled => untouched(platform, found, replacement),
    }
}

pub open spec fn repair_precondition(
    platform: Platform,
    j: RepairJournal,
    found: Option<FactsView>,
    image: Result<Seq<char>, Seq<char>>,
) -> bool {
    precondition_holds(
        platform,
        j.observed@,
        j.outcome,
        j.original@,
        j.manager@,
        j.replacement_baseline@,
        found,
        image,
    )
}

pub fn repair_precondition_matches(
    platform: Platform,
    journal: &RepairJournal,
    found: &Option<FileFacts>,
    image: &Result<String, String>,
) -> (r: bool)
    ensures
        r == repair_precondition(platform, *journal, opt_facts(*found), result_text(*image)),
{
    if !snapshot_matches_current(platform, found, &journal.observed) {
        return false;
    }
    match journal.outcome {
        RepairOutcome::Unchanged => false,
        RepairOutcome::ReinstalledOwned => match matches_shim(
            platform,
            found,
            journal.original.surface.as_str(),
            journal.manager.as_str(),
            image,
        ) {
            Ok(owned) => owned,
            Err(_) => false,
        },
        RepairOutcome::ReinstalledBaseline => baseline_matches_current(
            platform,
            found,
            &journal.original.baseline,
        ),
        RepairOutcome::AdoptedAndReinstalled => baseline_is_untouched(
            platform,
            found,
            &journal.replacement_baseline,
        ),
    }
}

/// The journal that is written before a launcher is repaired. `found` is what stands there
/// once `observed` has been taken.
pub fn prepare_repair_journal(
    platform: Platform,
    record: &SurfaceRecord,
    manager: &str,
    outcome: RepairOutcome,
    replacement_baseline: BaselineBackup,
    observed: SurfaceSnapshot,
    found: &Option<FileFacts>,
    image: &Result<String, String>,
    now: Timestamp,
) -> (r: Result<RepairJournal, String>)
    ensures
        if precondition_holds(
            platform,
            observed@,
            outcome,
            record@,
            manager@,
            replacement_baseline@,
            opt_facts(*found),
            result_text(*image),
        ) {
            r matches Ok(j) && {
                &&& j.schema == JOURNAL_SCHEMA
                &&& j.id == record.id
                &&& j.original@ == record@
                &&& j.manager@ == manager@
                &&& j.outcome == outcome
                &&& j.replacement_baseline@ == replacement_baseline@
                &&& j.observed@ == observed@
                &&& j.started_at == now
                &&& j.updated is None
                &&& j.completed_at is None
            }
        } else {
            r matches Err(e) && e@ == "surface "@ + record.surface@
                + " changed while preparing its repair"@
        },
{
    let journal = RepairJournal {
        schema: JOURNAL_SCHEMA,
        id: record.id,
        original: record.clone(),
        manager: manager.to_owned(),
        outcome,
        replacement_baseline,
        observed,
        started_at: now,
        updated: None,
        completed_at: None,
    };
    if !repair_precondition_matches(platform, &journal, found, image) {
        let mut message = "surface ".to_owned();
        message.append(record.surface.as_str());
        message.append(" changed while preparing its repair");
        return Err(message);
    }
    Ok(journal)
}

#[derive(Debug, Clone, Copy, PartialEq, Eq, Structural)]
pub enum RepairDisposition {
    RetryObserved,
    ManagerPresent,
    CompletedRecordOnly,
}

pub open spec fn updated_matches(
    platform: Platform,
    j: RepairJournal,
    found: Option<FactsView>,
) -> bool {
    j.updated matches Some(updated) && record_matches(platform, found, updated@)
}

pub open spec fn repair_disposition(
    platform: Platform,
    j: RepairJournal,
    path: Seq<char>,
    found: Option<FactsView>,
    image: Result<Seq<char>, Seq<char>>,
) -> Result<RepairDisposition, Seq<char>> {
    if updated_matches(platform, j, found) {
        Ok(RepairDisposition::ManagerPresent)
    } else {
        match shim_check(platform, found, j.original.surface@, j.manager@, image) {
            Err(message) => Err(message),
            Ok(true) => Ok(RepairDisposition::ManagerPresent),
            Ok(false) => if repair_precondition(platform, j, found, image) {
                Ok(RepairDisposition::RetryObserved)
            } else if j.updated is Some {
                Ok(RepairDisposition::CompletedRecordOnly)
            } else {
                Err(
                    "repair journal "@ + path + " cannot be recovered because "@
                        + j.original.surface@
                        + " matches neither its observed precondition nor the manager shim; refusing to overwrite drift"@,
                )
            },
        }
    }
}

pub open spec fn repair_result(r: Result<RepairDisposition, String>) -> Result<
    RepairDisposition,
    Seq<char>,
> {
    match r {
        Ok(d) => Ok(d),
        Err(message) => Err(message@),
    }
}

/// Classifies a repair journal by what stands at its launcher. A completed record is
/// durable: later owner drift is preserved.
pub fn classify_repair_journal(
    platform: Platform,
    journal: &RepairJournal,
    path: &str,
    found: &Option<FileFacts>,
    image: &Result<String, String>,
) -> (r: Result<RepairDisposition, String>)
    ensures
        repair_result(r) == repair_disposition(
            platform,
            *journal,
            path@,
            opt_facts(*found),
            result_text(*image),
        ),
{
    if let Some(updated) = &journal.updated {
        if matches_recorded_shim(platform, found, updated) {
            return Ok(RepairDisposition::ManagerPresent);
        }
    }
    match matches_shim(
        platform,
        found,
        journal.original.surface.as_str(),
        journal.manager.as_str(),
        image,
    ) {
        Err(message) => return Err(message),
        Ok(owned) => {
            if owned {
                return Ok(RepairDisposition::ManagerPresent);
            }
        },
    }
    if repair_precondition_matches(platform, journal, found, image) {
        return Ok(RepairDisposition::RetryObserved);
    }
    if journal.updated.is_some() {
        return Ok(RepairDisposition::CompletedRecordOnly);
    }
    let mut message = "repair journal ".to_owned();
    message.append(path);
    message.append(" cannot be recovered because ");
    message.append(journal.original.surface.as_str());
    message.append(
        " matches neither its observed precondition nor the manager shim; refusing to overwrite drift",
    );
    Err(message)
}

/// The record of a repaired launcher: the original one with the replacement baseline and
/// what was installed. A record that is there already keeps its time.
pub open spec fn repaired_record(
    platform: Platform,
    j: RepairJournal,
    installed: InstalledView,
    now: Timestamp,
) -> RecordView {
    let at = match j.updated {
        Some(updated) => if same_installed(platform, updated@.installed, installed) {
            updated@.installed_at
        } else {
            now
        },
        None => now,
    };
    RecordView {
        baseline: j.replacement_baseline@,
        installed,
        installed_at: at,
        ..j.original@
    }
}

/// The result of a repair: the updated record and the time of completion. `found` is what
/// stands at the launcher now.
pub fn complete_repair_journal(
    platform: Platform,
    journal: &RepairJournal,
    installed: &InstalledShim,
    found: &Option<FileFacts>,
    now: Timestamp,
) -> (r: Result<(SurfaceRecord, Timestamp), String>)
    ensures
        ({
            let record = repaired_record(platform, *journal, installed@, now);
            if record_matches(platform, opt_facts(*found), record) {
                r matches Ok(pair) && pair.0@ == record && pair.1 == (match journal.completed_at {
                    Some(at) => at,
                    None => now,
                })
            } else {
                r matches Err(e) && e@ == "installed repair shim failed verification for "@
                    + journal.original.surface@
            }
        }),
{
    let installed_at = match &journal.updated {
        Some(updated) => {
            if updated.installed.agrees_with(platform, installed) {
                updated.installed_at
            } else {
                now
            }
        },
        None => now,
    };
    let mut record = journal.original.clone();
    record.baseline = journal.replacement_baseline.clone();
    record.installed = installed.clone();
    record.installed_at = installed_at;
    if !matches_recorded_shim(platform, found, &record) {
        return Err(
            about(
                "installed repair shim failed verification for ",
                record.surface.as_str(),
            ),
        );
    }
    let completed_at = match journal.completed_at {
        Some(at) => at,
        None => now,
    };
    Ok((record, completed_at))
}

/// A repair journal that is there already must be for the same record and manager.
pub fn check_repair_request(
    platform: Platform,
    journal: &RepairJournal,
    record: &SurfaceRecord,
    manager: &str,
    path: &str,
) -> (r: Result<(), String>)
    ensures
        result_unit(r) == (if !same_record(platform, journal.original@, record@) && !(
        journal.updated matches Some(updated) && same_record(platform, updated@, record@)) {
            Err(
                "repair journal "@ + path@ + " does not match the requested surface record"@,
            )
        } else if parts(platform, journal.manager@) != parts(platform, manager@) {
            Err("repair journal "@ + path@ + " targets a different manager executable"@)
        } else {
            Ok(())
        }),
{
    let is_updated = match &journal.updated {
        Some(updated) => updated.agrees_with(platform, record),
        None => false,
    };
    if !journal.original.agrees_with(platform, record) && !is_updated {
        let mut message = "repair journal ".to_owned();
        message.append(path);
        message.append(" does not match the requested surface record");
        return Err(message);
    }
    if !same_path(platform, journal.manager.as_str(), manager) {
        let mut message = "repair journal ".to_owned();
        message.append(path);
        message.append(" targets a different manager executable");
        return Err(message);
    }
    Ok(())
}

/// A repair journal is dropped only for the record that it left.
pub fn check_repaired_record(
    platform: Platform,
    journal: &RepairJournal,
    record: &SurfaceRecord,
    path: &str,
) -> (r: Result<(), String>)
    ensures
        result_unit(r) == (if journal.updated matches Some(updated) && same_record(
            platform,
            updated@,
            record@,
        ) {
            Ok(())
        } else {
            Err(
                "repair journal "@ + path@
                    + " does not contain the supplied updated surface record"@,
            )
        }),
{
    let recorded = match &journal.updated {
        Some(updated) => updated.agrees_with(platform, record),
        None => false,
    };
    if recorded {
        Ok(())
    } else {
        let mut message = "repair journal ".to_owned();
        message.append(path);
        message.append(" does not contain the supplied updated surface record");
        Err(message)
    }
}

/// A repair journal may be dropped once it is complete. The result says whether the
/// original baseline's backup is no longer needed.
pub fn check_finalize_repair(
    platform: Platform,
    journal: &RepairJournal,
    id: u128,
    path: &str,
) -> (r: Result<bool, String>)
    ensures
        crate::upstream::result_bool(r) == (if journal.id != id {
            Err("repair journal id mismatch: "@ + path@)
        } else if journal.updated is None || journal.completed_at is None {
            Err("refusing to finalize incomplete repair journal "@ + path@)
        } else {
            Ok(!same_baseline(platform, journal.original.baseline@, journal.replacement_baseline@))
        }),
{
    if journal.id != id {
        return Err(about("repair journal id mismatch: ", path));
    }
    if journal.updated.is_none() || journal.completed_at.is_none() {
        return Err(about("refusing to finalize incomplete repair journal ", path));
    }
    Ok(!journal.original.baseline.agrees_with(platform, &journal.replacement_baseline))
}

/// The backup of a baseline that may be removed: one that the patcher keeps.
pub open spec fn removable_backup(
    platform: Platform,
    baseline: BaselineView,
    backups_dir: Seq<char>,
) -> Result<Option<Seq<char>>, Seq<char>> {
    match baseline.backup_path {
        None => Ok(None),
        Some(path) => if (parent(platform, path) matches Some(dir) && parts(platform, dir) == parts(platform, backups_dir))
            && extension(platform, path) == Some("baseline"@) {
            Ok(Some(path))
        } else {
            Err(
                "refusing to remove baseline outside patcher backup storage: "@ + path,
            )
        },
    }
}

pub open spec fn backup_result(r: Result<Option<String>, String>) -> Result<
    Option<Seq<char>>,
    Seq<char>,
> {
    match r {
        Ok(o) => Ok(opt_text(o)),
        Err(message) => Err(message@),
    }
}

pub fn cleanup_unused_baseline(
    platform: Platform,
    baseline: &BaselineBackup,
    backups_dir: &str,
) -> (r: Result<Option<String>, String>)
    ensures
        backup_result(r) == removable_backup(platform, baseline@, backups_dir@),
{
    let path = match &baseline.backup_path {
        Some(path) => path,
        None => return Ok(None),
    };
    let inside = match parent_of(platform, path.as_str()) {
        Some(dir) => same_path(platform, dir.as_str(), backups_dir),
        None => false,
    };
    let named = match extension_of(platform, path.as_str()) {
        Some(ext) => same(ext.as_str(), "baseline"),
        None => false,
    };
    if inside && named {
        return Ok(Some(path.clone()));
    }
    Err(
        about(
            "refusing to remove baseline outside patcher backup storage: ",
            path.as_str(),
        ),
    )
}

/// A journal that a takeover prepares is accepted when it is read back.
pub proof fn prepared_takeovers_are_valid(
    platform: Platform,
    j: TakeoverJournal,
    backups_dir: Seq<char>,
)
    requires
        j.schema == JOURNAL_SCHEMA,
        is_absolute(platform, j.surface@),
        is_absolute(platform, j.manager@),
        is_settled(platform, backups_dir),
        j.installed is None,
        j.installed_at is None,
    ensures
        takeover_problem(
            platform,
            j,
            journal_path(platform, JournalKind::Takeover, backups_dir, j.id),
        ) is None,
{
    journals_are_found_by_name(platform, JournalKind::Takeover, backups_dir, j.id);
}

/// Completing a valid takeover keeps it valid.
pub proof fn completed_takeovers_are_valid(
    platform: Platform,
    before: TakeoverJournal,
    after: TakeoverJournal,
    path: Seq<char>,
    found: Option<FactsView>,
    at: Timestamp,
)
    requires
        takeover_problem(platform, before, path) is None,
        inspected(platform, before.surface@, before.manager@, found) is Ok,
        completes(
            before,
            after,
            inspected(platform, before.surface@, before.manager@, found)->Ok_0,
            at,
        ),
    ensures
        takeover_problem(platform, after, path) is None,
{
}

/// A repair that was not authorized to adopt never touches a launcher that someone else
/// has written.
pub proof fn repairs_never_overwrite_drift(
    platform: Platform,
    record: RecordView,
    manager: Seq<char>,
    found: Option<FactsView>,
    image: Result<Seq<char>, Seq<char>>,
)
    requires
        !record_matches(platform, found, record),
        !is_manager_shim(platform, found, record.surface, manager, image),
        !baseline_matches(platform, found, record.baseline),
    ensures
        repair_choice(platform, record, manager, found, image, false) is Err,
        shim_check(platform, found, record.surface, manager, image) is Ok ==> repair_choice(
            platform,
            record,
            manager,
            found,
            image,
            true,
        ) == Ok::<RepairOutcome, Seq<char>>(RepairOutcome::AdoptedAndReinstalled),
{
}

/// A restoration is only retried on the exact recorded shim, and only called complete on
/// the exact baseline.
pub proof fn restores_never_overwrite_drift(
    platform: Platform,
    record: RecordView,
    path: Seq<char>,
    found: Option<FactsView>,
)
    requires
        !record_matches(platform, found, record),
        !baseline_matches(platform, found, record.baseline),
    ensures
        restore_disposition(platform, record, path, found) is Err,
{
}

/// A repaired record is the original one but for its baseline and its shim.
pub proof fn repairs_keep_the_record(
    platform: Platform,
    j: RepairJournal,
    installed: InstalledView,
    now: Timestamp,
)
    requires
        parts(platform, installed.manager) == parts(platform, j.manager@),
        j.id == j.original.id,
    ensures
        updated_fits(platform, j, repaired_record(platform, j, installed, now)),
        repaired_record(platform, j, installed, now).updater == j.original@.updater,
        repaired_record(platform, j, installed, now).schema == j.original@.schema,
{
}

} // verus!
