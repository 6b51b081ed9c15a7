//! What a patch repair asks of the maintenance run, and how its result is read back.

use vstd::prelude::*;

use crate::build::{insert_sorted, strictly_sorted};
use crate::outside::{hex_text, lossy, lossy_text, quoted, quoted_text, sha256};
use crate::patchset::sha256_hex;
use crate::paths::{extension, extension_of, join_path, joined, parts, parts_of, Platform};
use crate::replacement::{
    fold, fold_path, path_problem, validate_relative_path, ExportedPatch, PreviewView,
    ReplacementAction, ReplacementPreview,
};
use crate::text::{
    chars_of, decimal, decimal_text, holds, is_ascii_letter, is_control, is_control_char, is_digit,
    is_digit_char, is_letter_char, is_whitespace, is_whitespace_char, join, join_texts,
    lemma_texts_push, lines, lines_of, result_text, result_unit, same, texts, text_between, trim,
    trimmed,
};
use crate::tui::{sanitize_line, sanitized};

verus! {

pub const MAINTENANCE_ENV: &'static str = "CODEX_PATCHER_MAINTENANCE";

pub const BUILD_REPAIR_PATCH_BASENAME: &'static str = "codex-patcher-build-repair.patch";

#[derive(Debug)]
pub struct RepairPromptContext {
    pub failure_id: String,
    pub desired_version: String,
    pub upstream_ref: String,
    pub failed_patch: Option<String>,
    pub phase: String,
    pub summary: String,
    pub log_path: String,
    pub patch_dir: String,
}

/// What the maintenance run is told: the facts of the failure, then the rules.
pub open spec fn repair_prompt(c: RepairPromptContext) -> Seq<char> {
    let failed_patch = match c.failed_patch {
        Some(patch) => patch@,
        None => "not identified"@,
    };
    "Repair the Codex patch stack in this maintenance worktree.\n\nFailure ID: "@ + sanitized(
        c.failure_id@,
    ) + "\nDesired Codex: "@ + sanitized(c.desired_version@) + " ("@ + sanitized(c.upstream_ref@)
        + ")\nFailed phase: "@ + sanitized(c.phase@) + "\nFailed patch: "@ + sanitized(failed_patch)
        + "\nDiagnostic: "@ + sanitized(c.summary@) + "\nFull log: "@ + c.log_path@
        + "\nLive patch directory (do not edit directly): "@ + c.patch_dir@
        + "\n\nWork only in this worktree. Resolve rejected hunks and build errors while preserving the intent and order of the existing patch stack. Remove every .rej file and leave the worktree buildable. Start with focused offline checks using the existing toolchain and cache; do not run broad workspace test suites. The outer repair transaction performs the authoritative package rebuild. Do not commit, amend, rebase, or reset Git history. Do not invoke codex-patcher or edit the live patch directory; the outer repair transaction will re-export, validate, show the changes, and request confirmation before replacing anything."@
}

pub fn generate_repair_prompt(context: &RepairPromptContext) -> (r: String)
    ensures
        r@ == repair_prompt(*context),
{
    let failed_patch = match &context.failed_patch {
        Some(patch) => patch.as_str(),
        None => "not identified",
    };
    let mut out =
        "Repair the Codex patch stack in this maintenance worktree.\n\nFailure ID: ".to_owned();
    out.append(sanitize_line(context.failure_id.as_str()).as_str());
    out.append("\nDesired Codex: ");
    out.append(sanitize_line(context.desired_version.as_str()).as_str());
    out.append(" (");
    out.append(sanitize_line(context.upstream_ref.as_str()).as_str());
    out.append(")\nFailed phase: ");
    out.append(sanitize_line(context.phase.as_str()).as_str());
    out.append("\nFailed patch: ");
    out.append(sanitize_line(failed_patch).as_str());
    out.append("\nDiagnostic: ");
    out.append(sanitize_line(context.summary.as_str()).as_str());
    out.append("\nFull log: ");
    out.append(context.log_path.as_str());
    out.append("\nLive patch directory (do not edit directly): ");
    out.append(context.patch_dir.as_str());
    out.append(
        "\n\nWork only in this worktree. Resolve rejected hunks and build errors while preserving the intent and order of the existing patch stack. Remove every .rej file and leave the worktree buildable. Start with focused offline checks using the existing toolchain and cache; do not run broad workspace test suites. The outer repair transaction performs the authoritative package rebuild. Do not commit, amend, rebase, or reset Git history. Do not invoke codex-patcher or edit the live patch directory; the outer repair transaction will re-export, validate, show the changes, and request confirmation before replacing anything.",
    );
    out
}

/// A command that is run directly, without a shell.
#[derive(Debug)]
pub struct MaintenanceCommand {
    pub program: String,
    pub arguments: Vec<String>,
    /// The one variable that is set for it.
    pub environment: (String, String),
}

/// The maintenance run may write to its worktree alone, unless the user already runs
/// without a sandbox.
pub open spec fn maintenance_arguments(
    worktree: Seq<char>,
    prompt: Seq<char>,
    yolo_mode: bool,
) -> Seq<Seq<char>> {
    seq!["-c"@, "check_for_update_on_startup=false"@, "-C"@, worktree] + (if yolo_mode {
        seq!["--dangerously-bypass-approvals-and-sandbox"@]
    } else {
        seq!["--sandbox"@, "workspace-write"@, "--ask-for-approval"@, "on-request"@]
    }) + seq!["--no-alt-screen"@, prompt]
}

pub fn maintenance_command(codex_binary: &str, worktree: &str, prompt: &str, yolo_mode: bool) -> (r:
    MaintenanceCommand)
    ensures
        r.program@ == codex_binary@,
        texts(r.arguments@) == maintenance_arguments(worktree@, prompt@, yolo_mode),
        r.environment.0@ == MAINTENANCE_ENV@,
        r.environment.1@ == "1"@,
{
    let mut arguments = vec![
        "-c".to_owned(),
        "check_for_update_on_startup=false".to_owned(),
        "-C".to_owned(),
        worktree.to_owned(),
    ];
    if yolo_mode {
        arguments.push("--dangerously-bypass-approvals-and-sandbox".to_owned());
    } else {
        arguments.push("--sandbox".to_owned());
        arguments.push("workspace-write".to_owned());
        arguments.push("--ask-for-approval".to_owned());
        arguments.push("on-request".to_owned());
    }
    arguments.push("--no-alt-screen".to_owned());
    arguments.push(prompt.to_owned());
    proof {
        assert(texts(arguments@) =~= maintenance_arguments(worktree@, prompt@, yolo_mode));
    }
    MaintenanceCommand {
        program: codex_binary.to_owned(),
        arguments,
        environment: (MAINTENANCE_ENV.to_owned(), "1".to_owned()),
    }
}

/// The maintenance run of the last-good Codex, once both it and the worktree are found.
pub fn launch_last_good_codex(
    codex_binary: &str,
    binary_is_file: bool,
    worktree: &str,
    worktree_is_dir: bool,
    prompt: &str,
    yolo_mode: bool,
) -> (r: Result<MaintenanceCommand, String>)
    ensures
        if !binary_is_file {
            r matches Err(e) && e@ == "last-good Codex does not exist: "@ + codex_binary@
        } else if !worktree_is_dir {
            r matches Err(e) && e@ == "repair worktree does not exist: "@ + worktree@
        } else {
            r matches Ok(command) && {
                &&& command.program@ == codex_binary@
                &&& texts(command.arguments@) == maintenance_arguments(
                    worktree@,
                    prompt@,
                    yolo_mode,
                )
                &&& command.environment.0@ == MAINTENANCE_ENV@
                &&& command.environment.1@ == "1"@
            }
        },
{
    if !binary_is_file {
        let mut message = "last-good Codex does not exist: ".to_owned();
        message.append(codex_binary);
        return Err(message);
    }
    if !worktree_is_dir {
        let mut message = "repair worktree does not exist: ".to_owned();
        message.append(worktree);
        return Err(message);
    }
    Ok(maintenance_command(codex_binary, worktree, prompt, yolo_mode))
}

/// How a replacement of live patches is confirmed.
#[derive(Debug, Clone, Copy, PartialEq, Eq, Structural)]
pub enum RepairConfirmation {
    Prompt,
    Accept,
    Decline,
}

impl Default for RepairConfirmation {
    fn default() -> (r: Self)
        ensures
            r == RepairConfirmation::Prompt,
    {
        RepairConfirmation::Prompt
    }
}

#[derive(Debug, Clone, Copy, PartialEq, Eq, Structural)]
pub struct RunRepairOptions {
    pub confirmation: RepairConfirmation,
    pub yolo_mode: bool,
}

impl Default for RunRepairOptions {
    fn default() -> (r: Self)
        ensures
            r == (RunRepairOptions { confirmation: RepairConfirmation::Prompt, yolo_mode: false }),
    {
        RunRepairOptions { confirmation: RepairConfirmation::Prompt, yolo_mode: false }
    }
}

/// The answer that the options give by themselves; `None` when the user is to be asked.
pub open spec fn preset_answer(options: RunRepairOptions, terminal: bool) -> Result<
    Option<bool>,
    Seq<char>,
> {
    match options.confirmation {
        RepairConfirmation::Accept => Ok(Some(true)),
        RepairConfirmation::Decline => Ok(Some(false)),
        RepairConfirmation::Prompt => if terminal {
            Ok(None)
        } else {
            Err("repair validation completed, but explicit confirmation requires a TTY"@)
        },
    }
}

pub fn confirm_replacements(options: RunRepairOptions, terminal: bool) -> (r: Result<
    Option<bool>,
    String,
>)
    ensures
        match preset_answer(options, terminal) {
            Ok(answer) => r matches Ok(given) && given == answer,
            Err(message) => r matches Err(e) && e@ == message,
        },
{
    match options.confirmation {
        RepairConfirmation::Accept => Ok(Some(true)),
        RepairConfirmation::Decline => Ok(Some(false)),
        RepairConfirmation::Prompt => if terminal {
            Ok(None)
        } else {
            Err(
                "repair validation completed, but explicit confirmation requires a TTY".to_owned(),
            )
        },
    }
}

pub open spec fn action_word(action: ReplacementAction) -> Seq<char> {
    match action {
        ReplacementAction::Create => "Create"@,
        ReplacementAction::Update => "Update"@,
        ReplacementAction::Delete => "Delete"@,
    }
}

/// One line that says what happens to a file.
pub open spec fn preview_text(p: PreviewView) -> Seq<char> {
    "  "@ + action_word(p.action) + " "@ + p.relative_path + "  "@ + (match p.old_sha256 {
        Some(hash) => hash,
        None => "missing"@,
    }) + " -> "@ + (match p.new_sha256 {
        Some(hash) => hash,
        None => "deleted"@,
    })
}

pub fn preview_line(preview: &ReplacementPreview) -> (r: String)
    ensures
        r@ == preview_text(preview@),
{
    let mut out = "  ".to_owned();
    out.append(
        match preview.action {
            ReplacementAction::Create => "Create",
            ReplacementAction::Update => "Update",
            ReplacementAction::Delete => "Delete",
        },
    );
    out.append(" ");
    out.append(preview.relative_path.as_str());
    out.append("  ");
    out.append(
        match &preview.old_sha256 {
            Some(hash) => hash.as_str(),
            None => "missing",
        },
    );
    out.append(" -> ");
    out.append(
        match &preview.new_sha256 {
            Some(hash) => hash.as_str(),
            None => "deleted",
        },
    );
    out
}

/// Lines with a sign in front and without control characters.
pub open spec fn signed(sign: Seq<char>, list: Seq<Seq<char>>) -> Seq<Seq<char>> {
    Seq::new(list.len(), |i: int| sign + sanitized(list[i]))
}

/// How many lines two texts start with in common.
pub open spec fn common_prefix(a: Seq<Seq<char>>, b: Seq<Seq<char>>) -> int
    decreases a.len(),
{
    if a.len() == 0 || b.len() == 0 || a[0] != b[0] {
        0
    } else {
        1 + common_prefix(a.drop_first(), b.drop_first())
    }
}

/// How many lines two texts end with in common.
pub open spec fn common_suffix(a: Seq<Seq<char>>, b: Seq<Seq<char>>) -> int
    decreases a.len(),
{
    if a.len() == 0 || b.len() == 0 || a.last() != b.last() {
        0
    } else {
        1 + common_suffix(a.drop_last(), b.drop_last())
    }
}

proof fn lemma_common_prefix(a: Seq<Seq<char>>, b: Seq<Seq<char>>, n: int)
    requires
        0 <= n <= a.len(),
        n <= b.len(),
        forall|i: int| 0 <= i < n ==> #[trigger] a[i] == b[i],
        n == a.len() || n == b.len() || a[n] != b[n],
    ensures
        common_prefix(a, b) == n,
    decreases n,
{
    if n > 0 {
        let x = a.drop_first();
        let y = b.drop_first();
        assert(a[0] == b[0]);
        assert forall|i: int| 0 <= i < n - 1 implies #[trigger] x[i] == y[i] by {
            assert(a[i + 1] == b[i + 1]);
        }
        lemma_common_prefix(x, y, n - 1);
    }
}

proof fn lemma_common_suffix(a: Seq<Seq<char>>, b: Seq<Seq<char>>, n: int)
    requires
        0 <= n <= a.len(),
        n <= b.len(),
        forall|i: int| 0 <= i < n ==> #[trigger] a[a.len() - 1 - i] == b[b.len() - 1 - i],
        n == a.len() || n == b.len() || a[a.len() - 1 - n] != b[b.len() - 1 - n],
    ensures
        common_suffix(a, b) == n,
    decreases n,
{
    if n > 0 {
        let x = a.drop_last();
        let y = b.drop_last();
        assert(a[a.len() - 1 - 0] == b[b.len() - 1 - 0]);
        assert forall|i: int| 0 <= i < n - 1 implies #[trigger] x[x.len() - 1 - i] == y[y.len() - 1
            - i] by {
            assert(a[a.len() - 1 - (i + 1)] == b[b.len() - 1 - (i + 1)]);
        }
        lemma_common_suffix(x, y, n - 1);
    }
}

/// The lines that a change of one text into another takes away and adds: what stands
/// between the common lines at both ends.
pub open spec fn changed_lines(old_text: Seq<char>, new_text: Seq<char>) -> Seq<Seq<char>> {
    let a = lines(old_text);
    let b = lines(new_text);
    let prefix = common_prefix(a, b);
    let x = a.skip(prefix);
    let y = b.skip(prefix);
    let suffix = common_suffix(x, y);
    signed("-"@, x.take(x.len() - suffix)) + signed("+"@, y.take(y.len() - suffix))
}

fn push_signed(out: &mut Vec<String>, sign: &str, list: &Vec<String>, from: usize, to: usize)
    requires
        from <= to <= list@.len(),
    ensures
        texts(final(out)@) == texts(old(out)@) + signed(
            sign@,
            texts(list@).subrange(from as int, to as int),
        ),
{
    let ghost before = texts(out@);
    let ghost all = texts(list@).subrange(from as int, to as int);
    let mut i: usize = from;
    proof {
        assert(signed(sign@, all.take(0)) =~= Seq::empty());
        assert(before + Seq::<Seq<char>>::empty() =~= before);
    }
    while i < to
        invariant
            from <= i <= to <= list@.len(),
            all == texts(list@).subrange(from as int, to as int),
            texts(out@) == before + signed(sign@, all.take(i - from)),
        decreases to - i,
    {
        let mut line = sign.to_owned();
        line.append(sanitize_line(list[i].as_str()).as_str());
        proof {
            lemma_texts_push(out@, line);
            assert(all[i - from] == list@[i as int]@);
            assert(before + signed(sign@, all.take(i + 1 - from)) =~= (before + signed(
                sign@,
                all.take(i - from),
            )).push(line@));
        }
        out.push(line);
        i = i + 1;
    }
    proof {
        assert(all.take(to - from) =~= all);
    }
}

/// The lines that say how one file's bytes turn into another's.
pub fn diff_lines(old_bytes: &[u8], new_bytes: &[u8]) -> (r: Vec<String>)
    ensures
        texts(r@) == changed_lines(lossy(old_bytes@), lossy(new_bytes@)),
{
    let a = lines_of(lossy_text(old_bytes).as_str());
    let b = lines_of(lossy_text(new_bytes).as_str());
    let ghost sa = texts(a@);
    let ghost sb = texts(b@);
    let mut prefix: usize = 0;
    while prefix < a.len() && prefix < b.len() && same(a[prefix].as_str(), b[prefix].as_str())
        invariant
            prefix <= a@.len(),
            prefix <= b@.len(),
            sa == texts(a@),
            sb == texts(b@),
            forall|i: int| 0 <= i < prefix ==> #[trigger] sa[i] == sb[i],
        decreases a@.len() - prefix,
    {
        proof {
            assert(sa[prefix as int] == a@[prefix as int]@);
            assert(sb[prefix as int] == b@[prefix as int]@);
        }
        prefix = prefix + 1;
    }
    proof {
        if prefix < a@.len() && prefix < b@.len() {
            assert(sa[prefix as int] == a@[prefix as int]@);
            assert(sb[prefix as int] == b@[prefix as int]@);
        }
        lemma_common_prefix(sa, sb, prefix as int);
    }
    let ghost x = sa.skip(prefix as int);
    let ghost y = sb.skip(prefix as int);
    let left: usize = a.len() - prefix;
    let right: usize = b.len() - prefix;
    let mut suffix: usize = 0;
    while suffix < left && suffix < right && same(
        a[a.len() - 1 - suffix].as_str(),
        b[b.len() - 1 - suffix].as_str(),
    )
        invariant
            suffix <= left,
            suffix <= right,
            left + prefix == a@.len(),
            right + prefix == b@.len(),
            sa == texts(a@),
            sb == texts(b@),
            x == sa.skip(prefix as int),
            y == sb.skip(prefix as int),
            forall|i: int| 0 <= i < suffix ==> #[trigger] x[x.len() - 1 - i] == y[y.len() - 1 - i],
        decreases left - suffix,
    {
        proof {
            assert(x[x.len() - 1 - suffix] == a@[a@.len() - 1 - suffix]@);
            assert(y[y.len() - 1 - suffix] == b@[b@.len() - 1 - suffix]@);
        }
        suffix = suffix + 1;
    }
    proof {
        if suffix < left && suffix < right {
            assert(x[x.len() - 1 - suffix] == a@[a@.len() - 1 - suffix]@);
            assert(y[y.len() - 1 - suffix] == b@[b@.len() - 1 - suffix]@);
        }
        lemma_common_suffix(x, y, suffix as int);
        assert(x.take(x.len() - suffix) =~= sa.subrange(prefix as int, a@.len() - suffix));
        assert(y.take(y.len() - suffix) =~= sb.subrange(prefix as int, b@.len() - suffix));
    }
    let mut out: Vec<String> = Vec::new();
    push_signed(&mut out, "-", &a, prefix, a.len() - suffix);
    push_signed(&mut out, "+", &b, prefix, b.len() - suffix);
    proof {
        assert(texts(out@) =~= changed_lines(lossy(old_bytes@), lossy(new_bytes@)));
    }
    out
}

/// The lines that show how a file changes: none when it stays as it is.
pub open spec fn file_change(
    path: Seq<char>,
    old_bytes: Option<Seq<u8>>,
    new_bytes: Option<Seq<u8>>,
) -> Seq<Seq<char>> {
    if old_bytes == new_bytes {
        Seq::empty()
    } else {
        seq!["--- old/"@ + path, "+++ new/"@ + path] + (match (old_bytes, new_bytes) {
            (Some(a), Some(b)) => changed_lines(lossy(a), lossy(b)),
            (None, Some(b)) => signed("+"@, lines(lossy(b))),
            (Some(a), None) => signed("-"@, lines(lossy(a))),
            (None, None) => Seq::empty(),
        })
    }
}

pub fn patch_file_change(
    path: &str,
    old_bytes: &Option<Vec<u8>>,
    new_bytes: &Option<Vec<u8>>,
) -> (r: Vec<String>)
    ensures
        texts(r@) == file_change(
            path@,
            crate::shim::opt_bytes(*old_bytes),
            crate::shim::opt_bytes(*new_bytes),
        ),
{
    let unchanged = match (old_bytes, new_bytes) {
        (Some(a), Some(b)) => crate::shim::same_bytes(a, b),
        (None, None) => true,
        _ => false,
    };
    let mut out: Vec<String> = Vec::new();
    if unchanged {
        proof {
            assert(texts(out@) =~= Seq::empty());
        }
        return out;
    }
    let mut first = "--- old/".to_owned();
    first.append(path);
    let mut second = "+++ new/".to_owned();
    second.append(path);
    out.push(first);
    out.push(second);
    let ghost head = texts(out@);
    proof {
        assert(head =~= seq!["--- old/"@ + path@, "+++ new/"@ + path@]);
    }
    match (old_bytes, new_bytes) {
        (Some(a), Some(b)) => {
            let mut rest = diff_lines(a.as_slice(), b.as_slice());
            let ghost tail = texts(rest@);
            out.append(&mut rest);
            proof {
                assert(texts(out@) =~= head + tail);
            }
        },
        (None, Some(b)) => {
            let list = lines_of(lossy_text(b.as_slice()).as_str());
            push_signed(&mut out, "+", &list, 0, list.len());
            proof {
                assert(texts(list@).subrange(0, list@.len() as int) =~= texts(list@));
            }
        },
        (Some(a), None) => {
            let list = lines_of(lossy_text(a.as_slice()).as_str());
            push_signed(&mut out, "-", &list, 0, list.len());
            proof {
                assert(texts(list@).subrange(0, list@.len() as int) =~= texts(list@));
            }
        },
        (None, None) => {},
    }
    out
}

/// What was found while walking a worktree, by its path from there.
#[derive(Debug)]
pub struct WorktreeEntry {
    pub relative_path: String,
    pub is_dir: bool,
}

/// A file that a failed patch has left behind, outside Git's own directory.
pub open spec fn is_reject(platform: Platform, e: WorktreeEntry) -> bool {
    &&& !e.is_dir
    &&& extension(platform, e.relative_path@) == Some("rej"@)
    &&& !parts(platform, e.relative_path@).contains(".git"@)
}

/// The paths of the rejects among the entries.
pub open spec fn reject_paths(
    platform: Platform,
    worktree: Seq<char>,
    entries: Seq<WorktreeEntry>,
) -> Set<Seq<char>>
    decreases entries.len(),
{
    if entries.len() == 0 {
        Set::empty()
    } else if is_reject(platform, entries.last()) {
        reject_paths(platform, worktree, entries.drop_last()).insert(
            join_path(platform, worktree, entries.last().relative_path@),
        )
    } else {
        reject_paths(platform, worktree, entries.drop_last())
    }
}

fn entry_is_reject(platform: Platform, e: &WorktreeEntry) -> (r: bool)
    ensures
        r == is_reject(platform, *e),
{
    if e.is_dir {
        return false;
    }
    let rejected = match extension_of(platform, e.relative_path.as_str()) {
        Some(ext) => same(ext.as_str(), "rej"),
        None => false,
    };
    rejected && !holds(&parts_of(platform, e.relative_path.as_str()), ".git")
}

/// The reject files of a worktree, in the order of their paths.
pub fn find_reject_files(
    platform: Platform,
    worktree: &str,
    is_dir: bool,
    entries: &Vec<WorktreeEntry>,
) -> (r: Result<Vec<String>, String>)
    ensures
        if !is_dir {
            r matches Err(e) && e@ == "repair worktree does not exist: "@ + worktree@
        } else {
            r matches Ok(list) && strictly_sorted(texts(list@)) && texts(list@).to_set()
                == reject_paths(platform, worktree@, entries@)
        },
{
    if !is_dir {
        let mut message = "repair worktree does not exist: ".to_owned();
        message.append(worktree);
        return Err(message);
    }
    let mut out: Vec<String> = Vec::new();
    let mut i: usize = 0;
    proof {
        assert(entries@.take(0) =~= Seq::empty());
        assert(texts(out@).to_set() =~= Set::empty());
    }
    while i < entries.len()
        invariant
            i <= entries@.len(),
            strictly_sorted(texts(out@)),
            texts(out@).to_set() == reject_paths(platform, worktree@, entries@.take(i as int)),
        decreases entries@.len() - i,
    {
        proof {
            assert(entries@.take(i as int + 1).drop_last() =~= entries@.take(i as int));
            assert(entries@.take(i as int + 1).last() == entries@[i as int]);
        }
        if entry_is_reject(platform, &entries[i]) {
            insert_sorted(&mut out, joined(platform, worktree, entries[i].relative_path.as_str()));
        }
        i = i + 1;
    }
    proof {
        assert(entries@.take(entries@.len() as int) =~= entries@);
    }
    Ok(out)
}

pub open spec fn unsafe_revision(revision: Seq<char>) -> bool {
    revision[0] == '-' || exists|i: int|
        0 <= i < revision.len() && (is_control(#[trigger] revision[i]) || is_whitespace(
            revision[i],
        ))
}

/// What is wrong with a revision that is handed to Git.
pub open spec fn revision_problem(revision: Seq<char>) -> Option<Seq<char>> {
    if revision.len() == 0 {
        Some("Git revision is empty"@)
    } else if unsafe_revision(revision) {
        Some("unsafe Git revision: "@ + revision)
    } else {
        None
    }
}

pub fn validate_revision(revision: &str) -> (r: Result<(), String>)
    ensures
        result_unit(r) == crate::journal::as_result(revision_problem(revision@)),
{
    let chars = chars_of(revision);
    if chars.len() == 0 {
        return Err("Git revision is empty".to_owned());
    }
    let mut bad = chars[0] == '-';
    let mut i: usize = 0;
    while i < chars.len()
        invariant
            i <= chars@.len(),
            chars@.len() > 0,
            chars@ == revision@,
            bad == (chars@[0] == '-' || exists|k: int|
                0 <= k < i && (is_control(#[trigger] chars@[k]) || is_whitespace(chars@[k]))),
        decreases chars@.len() - i,
    {
        if is_control_char(chars[i]) || is_whitespace_char(chars[i]) {
            bad = true;
        }
        i = i + 1;
    }
    if bad {
        let mut message = "unsafe Git revision: ".to_owned();
        message.append(revision);
        return Err(message);
    }
    Ok(())
}

/// One commit of the repaired stack: the patch is what lies between it and its parent.
#[derive(Debug)]
pub struct PatchCommit {
    pub parent: String,
    pub commit: String,
    pub name: String,
}

pub struct CommitView {
    pub parent: Seq<char>,
    pub commit: Seq<char>,
    pub name: Seq<char>,
}

impl View for PatchCommit {
    type V = CommitView;

    open spec fn view(&self) -> CommitView {
        CommitView { parent: self.parent@, commit: self.commit@, name: self.name@ }
    }
}

impl Clone for PatchCommit {
    fn clone(&self) -> (r: Self)
        ensures
            r@ == self@,
    {
        PatchCommit {
            parent: self.parent.clone(),
            commit: self.commit.clone(),
            name: self.name.clone(),
        }
    }
}

pub open spec fn commits_view(v: Seq<PatchCommit>) -> Seq<CommitView> {
    v.map_values(|c: PatchCommit| c@)
}

pub open spec fn commit_names(v: Seq<CommitView>) -> Seq<Seq<char>> {
    v.map_values(|c: CommitView| c.name)
}

pub open spec fn name_folds(names: Seq<Seq<char>>) -> Seq<Seq<char>> {
    names.map_values(|name: Seq<char>| fold(name))
}

/// What keeps the commit at position `i` from being exported, once those before it are.
pub open spec fn export_problem(
    platform: Platform,
    commits: Seq<CommitView>,
    i: int,
) -> Option<Seq<char>> {
    let c = commits[i];
    if path_problem(platform, c.name) is Some {
        path_problem(platform, c.name)
    } else if extension(platform, c.name) != Some("patch"@) {
        Some("exported patch name must end in .patch: "@ + c.name)
    } else if name_folds(commit_names(commits.take(i))).contains(fold(c.name)) {
        Some("duplicate or case-colliding patch name: "@ + c.name)
    } else if revision_problem(c.parent) is Some {
        revision_problem(c.parent)
    } else {
        revision_problem(c.commit)
    }
}

/// What Git answered to the export of one commit.
#[derive(Debug)]
pub enum Diff {
    Bytes(Vec<u8>),
    /// Git failed and wrote this.
    Failed(Vec<u8>),
    /// Git could not be run.
    Unavailable { message: String },
}

pub open spec fn diff_problem(name: Seq<char>, diff: Diff) -> Option<Seq<char>> {
    match diff {
        Diff::Unavailable { message } => Some(
            "exporting patch "@ + name + ": "@ + message@,
        ),
        Diff::Failed(stderr) => Some(
            "git diff failed for "@ + name + ": "@ + sanitized(lossy(stderr@)),
        ),
        Diff::Bytes(bytes) => if bytes@.len() == 0 {
            Some("patch "@ + name + " produced an empty diff"@)
        } else {
            None
        },
    }
}

/// What the export does next.
#[derive(Debug)]
pub enum ExportStep {
    /// Ask Git for the difference that this commit makes.
    Diff(usize),
    Done(Vec<ExportedPatch>),
}

/// The first thing, at or after position `i`, that stops the export, given the answers so
/// far; `None` once there is none.
pub open spec fn export_stop(
    platform: Platform,
    commits: Seq<CommitView>,
    diffs: Seq<Diff>,
    i: int,
) -> Option<
    Result<int, Seq<char>>,
>
    decreases commits.len() - i,
{
    if i >= commits.len() {
        None
    } else if export_problem(platform, commits, i) is Some {
        Some(Err(export_problem(platform, commits, i)->0))
    } else if i >= diffs.len() {
        Some(Ok(i))
    } else if diff_problem(commits[i].name, diffs[i]) is Some {
        Some(Err(diff_problem(commits[i].name, diffs[i])->0))
    } else {
        export_stop(platform, commits, diffs, i + 1)
    }
}

fn commit_name_taken(commits: &Vec<PatchCommit>, n: usize, name: &str) -> (r: bool)
    requires
        n <= commits@.len(),
    ensures
        r == name_folds(commit_names(commits_view(commits@).take(n as int))).contains(fold(name@)),
{
    let wanted = fold_path(name);
    let ghost all = name_folds(commit_names(commits_view(commits@).take(n as int)));
    let mut i: usize = 0;
    while i < n
        invariant
            i <= n <= commits@.len(),
            all == name_folds(commit_names(commits_view(commits@).take(n as int))),
            wanted@ == fold(name@),
            forall|k: int| 0 <= k < i ==> #[trigger] all[k] != wanted@,
        decreases n - i,
    {
        let other = fold_path(commits[i].name.as_str());
        proof {
            assert(all[i as int] == other@);
        }
        if same(other.as_str(), wanted.as_str()) {
            return true;
        }
        i = i + 1;
    }
    false
}

fn check_export(platform: Platform, commits: &Vec<PatchCommit>, i: usize) -> (r: Result<(), String>)
    requires
        i < commits@.len(),
    ensures
        result_unit(r) == crate::journal::as_result(
            export_problem(platform, commits_view(commits@), i as int),
        ),
{
    let c = &commits[i];
    let name = c.name.as_str();
    match validate_relative_path(platform, name) {
        Ok(()) => {},
        Err(message) => return Err(message),
    }
    let is_patch = match extension_of(platform, name) {
        Some(ext) => same(ext.as_str(), "patch"),
        None => false,
    };
    if !is_patch {
        let mut message = "exported patch name must end in .patch: ".to_owned();
        message.append(name);
        return Err(message);
    }
    if commit_name_taken(commits, i, name) {
        let mut message = "duplicate or case-colliding patch name: ".to_owned();
        message.append(name);
        return Err(message);
    }
    match validate_revision(c.parent.as_str()) {
        Ok(()) => {},
        Err(message) => return Err(message),
    }
    validate_revision(c.commit.as_str())
}

/// The patches are the commits by name, with the differences that Git gave for them.
pub open spec fn exports(
    list: Seq<ExportedPatch>,
    commits: Seq<PatchCommit>,
    diffs: Seq<Diff>,
) -> bool {
    &&& list.len() == commits.len()
    &&& forall|i: int|
        0 <= i < commits.len() ==> (#[trigger] list[i]).name@ == commits[i].name@ && diffs[i]
            is Bytes && list[i].bytes@ == diffs[i]->Bytes_0@
}

/// The export of the repaired stack: each commit is checked, then Git is asked for its
/// difference, in the order of the stack.
pub fn export_normalized_patches(
    platform: Platform,
    repository: &str,
    is_dir: bool,
    commits: &Vec<PatchCommit>,
    diffs: &Vec<Diff>,
) -> (r: Result<ExportStep, String>)
    ensures
        if !is_dir {
            r matches Err(e) && e@ == "repair repository does not exist: "@ + repository@
        } else {
            match export_stop(platform, commits_view(commits@), diffs@, 0) {
                Some(Err(message)) => r matches Err(e) && e@ == message,
                Some(Ok(i)) => r matches Ok(ExportStep::Diff(k)) && k == i,
                None => r matches Ok(ExportStep::Done(list)) && exports(list@, commits@, diffs@),
            }
        },
{
    if !is_dir {
        let mut message = "repair repository does not exist: ".to_owned();
        message.append(repository);
        return Err(message);
    }
    let ghost all = commits_view(commits@);
    let mut out: Vec<ExportedPatch> = Vec::new();
    let mut i: usize = 0;
    while i < commits.len()
        invariant
            i <= commits@.len(),
            is_dir,
            all == commits_view(commits@),
            out@.len() == i,
            i <= diffs@.len(),
            export_stop(platform, all, diffs@, 0) == export_stop(platform, all, diffs@, i as int),
            forall|k: int|
                0 <= k < i ==> (#[trigger] out@[k]).name@ == commits@[k].name@ && diffs@[k] is Bytes
                    && out@[k].bytes@ == diffs@[k]->Bytes_0@,
        decreases commits@.len() - i,
    {
        proof {
            assert(all[i as int] == commits@[i as int]@);
        }
        match check_export(platform, commits, i) {
            Ok(()) => {},
            Err(message) => return Err(message),
        }
        if i >= diffs.len() {
            return Ok(ExportStep::Diff(i));
        }
        let name = commits[i].name.as_str();
        let bytes = match &diffs[i] {
            Diff::Unavailable { message } => {
                let mut text = "exporting patch ".to_owned();
                text.append(name);
                text.append(": ");
                text.append(message.as_str());
                return Err(text);
            },
            Diff::Failed(stderr) => {
                let mut text = "git diff failed for ".to_owned();
                text.append(name);
                text.append(": ");
                text.append(sanitize_line(lossy_text(stderr.as_slice()).as_str()).as_str());
                return Err(text);
            },
            Diff::Bytes(bytes) => bytes,
        };
        if bytes.len() == 0 {
            let mut text = "patch ".to_owned();
            text.append(name);
            text.append(" produced an empty diff");
            return Err(text);
        }
        out.push(
            ExportedPatch {
                name: commits[i].name.clone(),
                bytes: vstd::slice::slice_to_vec(bytes.as_slice()),
            },
        );
        i = i + 1;
    }
    Ok(ExportStep::Done(out))
}

pub open spec fn is_id_char(c: char) -> bool {
    is_ascii_letter(c) || is_digit(c) || c == '-' || c == '_'
}

/// An id that may be a part of file names.
pub open spec fn safe_failure_id(id: Seq<char>) -> bool {
    &&& 0 < id.len() <= 128
    &&& forall|i: int| 0 <= i < id.len() ==> is_id_char(#[trigger] id[i])
}

pub fn validate_failure_id(id: &str) -> (r: Result<(), String>)
    ensures
        result_unit(r) == (if safe_failure_id(id@) {
            Ok(())
        } else {
            Err("unsafe failure id "@ + quoted(id@))
        }),
{
    let chars = chars_of(id);
    let mut fine = 0 < chars.len() && chars.len() <= 128;
    let mut i: usize = 0;
    while i < chars.len()
        invariant
            i <= chars@.len(),
            chars@ == id@,
            fine == (0 < chars@.len() <= 128 && forall|k: int|
                0 <= k < i ==> is_id_char(#[trigger] chars@[k])),
        decreases chars@.len() - i,
    {
        let c = chars[i];
        if !(is_letter_char(c) || is_digit_char(c) || c == '-' || c
            == '_') {
            fine = false;
        }
        i = i + 1;
    }
    if fine {
        return Ok(());
    }
    let mut message = "unsafe failure id ".to_owned();
    message.append(quoted_text(id).as_str());
    Err(message)
}

/// The names that a build repair may be given, in the order in which they are tried.
pub open spec fn build_repair_name(suffix: nat) -> Seq<char> {
    if suffix == 0 {
        BUILD_REPAIR_PATCH_BASENAME@
    } else {
        "codex-patcher-build-repair-"@ + decimal(suffix) + ".patch"@
    }
}

/// The first name, at or after `suffix`, that cannot be confused with one of the stack.
pub open spec fn free_repair_name(names: Seq<Seq<char>>, suffix: nat) -> Option<Seq<char>>
    decreases 10_000 - suffix,
{
    if suffix >= 10_000 {
        None
    } else if name_folds(names).contains(fold(build_repair_name(suffix))) {
        free_repair_name(names, suffix + 1)
    } else {
        Some(build_repair_name(suffix))
    }
}

fn folds_text(names: &Vec<String>) -> (r: Vec<String>)
    ensures
        texts(r@) == name_folds(texts(names@)),
{
    let mut out: Vec<String> = Vec::new();
    let mut i: usize = 0;
    while i < names.len()
        invariant
            i <= names@.len(),
            out@.len() == i,
            forall|k: int| 0 <= k < i ==> (#[trigger] out@[k])@ == fold(names@[k]@),
        decreases names@.len() - i,
    {
        out.push(fold_path(names[i].as_str()));
        i = i + 1;
    }
    proof {
        assert(texts(out@) =~= name_folds(texts(names@)));
    }
    out
}

/// A name for the patch that repairs the build.
pub fn choose_build_repair_name(names: &Vec<String>) -> (r: Result<String, String>)
    ensures
        result_text(r) == (match free_repair_name(texts(names@), 0) {
            Some(name) => Ok(name),
            None => Err("could not choose a unique build-repair patch filename"@),
        }),
{
    let taken = folds_text(names);
    let mut suffix: u64 = 0;
    while suffix < 10_000
        invariant
            suffix <= 10_000,
            texts(taken@) == name_folds(texts(names@)),
            free_repair_name(texts(names@), 0) == free_repair_name(texts(names@), suffix as nat),
        decreases 10_000 - suffix,
    {
        let candidate = if suffix == 0 {
            BUILD_REPAIR_PATCH_BASENAME.to_owned()
        } else {
            let mut name = "codex-patcher-build-repair-".to_owned();
            name.append(decimal_text(suffix).as_str());
            name.append(".patch");
            name
        };
        if !holds(&taken, fold_path(candidate.as_str()).as_str()) {
            return Ok(candidate);
        }
        suffix = suffix + 1;
    }
    Err("could not choose a unique build-repair patch filename".to_owned())
}

/// `n` in at least four digits.
pub open spec fn four_digits(n: nat) -> Seq<char> {
    let digits = decimal(n);
    Seq::new((if digits.len() < 4 { 4 - digits.len() } else { 0 }) as nat, |i: int| '0') + digits
}

/// The file that stands for a patch which was refused as a whole, so that Git left no
/// rejects of its own.
pub open spec fn whole_reject_name(index: nat, bytes: Seq<u8>) -> Seq<char> {
    four_digits(index + 1) + "-"@ + hex_text(sha256(bytes)).take(12) + ".rej"@
}

pub fn reject_name(index: usize, bytes: &[u8]) -> (r: String)
    requires
        index < usize::MAX,
    ensures
        r@ == whole_reject_name(index as nat, bytes@),
{
    let digits = decimal_text(index as u64 + 1);
    let chars = chars_of(digits.as_str());
    let mut out = "".to_owned();
    let mut width: usize = chars.len();
    let ghost len = chars@.len();
    proof {
        reveal_strlit("");
        assert(out@ =~= Seq::empty());
        reveal_strlit("0");
    }
    while width < 4
        invariant
            len <= width,
            len <= 4 ==> width <= 4,
            len > 4 ==> width == len,
            out@ == Seq::new((width - len) as nat, |i: int| '0'),
            "0"@.len() == 1,
            "0"@[0] == '0',
        decreases 4 - width,
    {
        out.append("0");
        width = width + 1;
        proof {
            assert(out@ =~= Seq::new((width - len) as nat, |i: int| '0'));
        }
    }
    out.append(digits.as_str());
    out.append("-");
    let hash = chars_of(sha256_hex(bytes).as_str());
    proof {
        assert(out@ =~= four_digits((index + 1) as nat) + "-"@);
        assert(hash@.subrange(0, 12) =~= hash@.take(12));
    }
    out.append(text_between(&hash, 0, 12).as_str());
    out.append(".rej");
    out
}

/// The text of the commit that stands for a patch.
pub open spec fn commit_text(repaired: bool, index: nat, count: nat, path: Seq<char>) -> Seq<char> {
    (if repaired {
        "codex-patcher repaired synthetic patch "@
    } else {
        "codex-patcher synthetic patch "@
    }) + decimal(index + 1) + "/"@ + decimal(count) + ": "@ + path
}

pub fn commit_message(repaired: bool, index: usize, count: usize, path: &str) -> (r: String)
    requires
        index < usize::MAX,
    ensures
        r@ == commit_text(repaired, index as nat, count as nat, path@),
{
    let mut out = if repaired {
        "codex-patcher repaired synthetic patch ".to_owned()
    } else {
        "codex-patcher synthetic patch ".to_owned()
    };
    out.append(decimal_text(index as u64 + 1).as_str());
    out.append("/");
    out.append(decimal_text(count as u64).as_str());
    out.append(": ");
    out.append(path);
    out
}

/// What a repaired worktree still lacks before its changes can be committed.
pub open spec fn unfinished(rejects: Seq<Seq<char>>, unmerged: Seq<char>) -> Option<Seq<char>> {
    if rejects.len() > 0 {
        Some(
            "repair remains incomplete; remove or resolve reject files: "@ + join(rejects, ", "@),
        )
    } else if trim(unmerged).len() > 0 {
        Some("repair remains incomplete; unresolved paths: "@ + sanitized(trim(unmerged)))
    } else {
        None
    }
}

pub fn check_no_rejects_or_unmerged(rejects: &Vec<String>, unmerged: &str) -> (r: Result<
    (),
    String,
>)
    ensures
        result_unit(r) == crate::journal::as_result(unfinished(texts(rejects@), unmerged@)),
{
    if rejects.len() > 0 {
        let mut message = "repair remains incomplete; remove or resolve reject files: ".to_owned();
        message.append(join_texts(rejects, ", ").as_str());
        return Err(message);
    }
    let rest = trimmed(unmerged);
    if chars_of(rest.as_str()).len() > 0 {
        let mut message = "repair remains incomplete; unresolved paths: ".to_owned();
        message.append(sanitize_line(rest.as_str()).as_str());
        return Err(message);
    }
    Ok(())
}

/// What `git diff --cached --quiet` answered, and the words for its status.
pub open spec fn staged_problem(code: Option<i32>, status: Seq<char>) -> Option<Seq<char>> {
    match code {
        Some(1) => None,
        Some(0) => Some(
            "repaired patch produced no changes; preserve its intent before continuing"@,
        ),
        _ => Some("git diff --cached failed with "@ + status),
    }
}

pub fn check_staged_changes(code: Option<i32>, status: &str) -> (r: Result<(), String>)
    ensures
        result_unit(r) == crate::journal::as_result(staged_problem(code, status@)),
{
    match code {
        Some(1) => Ok(()),
        Some(0) => Err(
            "repaired patch produced no changes; preserve its intent before continuing".to_owned(),
        ),
        _ => {
            let mut message = "git diff --cached failed with ".to_owned();
            message.append(status);
            Err(message)
        },
    }
}

/// What is said of a Git command that failed with this on its standard error.
pub fn git_failure(synthetic_commit: bool, stderr: &[u8]) -> (r: String)
    ensures
        r@ == (if synthetic_commit {
            "synthetic Git commit failed: "@
        } else {
            "git command failed: "@
        }) + sanitized(lossy(stderr@)),
{
    let mut out = if synthetic_commit {
        "synthetic Git commit failed: ".to_owned()
    } else {
        "git command failed: ".to_owned()
    };
    out.append(sanitize_line(lossy_text(stderr).as_str()).as_str());
    out
}

/// An exported stack never holds two names that a file system could confuse, and every
/// name in it is a path that stays below the patch directory.
pub proof fn exported_names_are_safe(
    platform: Platform,
    commits: Seq<CommitView>,
    diffs: Seq<Diff>,
    i: int,
    j: int,
)
    requires
        export_stop(platform, commits, diffs, 0) is None,
        0 <= i < j < commits.len(),
    ensures
        fold(commits[i].name) != fold(commits[j].name),
        path_problem(platform, commits[i].name) is None,
        extension(platform, commits[i].name) == Some("patch"@),
{
    lemma_exported(platform, commits, diffs, 0, i);
    lemma_exported(platform, commits, diffs, 0, j);
    let names = name_folds(commit_names(commits.take(j)));
    assert(names[i] == fold(commits[i].name));
    assert(names.contains(names[i]));
}

proof fn lemma_exported(
    platform: Platform,
    commits: Seq<CommitView>,
    diffs: Seq<Diff>,
    from: int,
    i: int,
)
    requires
        export_stop(platform, commits, diffs, from) is None,
        0 <= from <= i < commits.len(),
    ensures
        export_problem(platform, commits, i) is None,
    decreases i - from,
{
    if from < i {
        lemma_exported(platform, commits, diffs, from + 1, i);
    }
}

/// The name of a build repair is never one that could be confused with a patch of the
/// stack.
pub proof fn build_repairs_get_a_new_name(names: Seq<Seq<char>>, suffix: nat)
    requires
        free_repair_name(names, suffix) is Some,
    ensures
        !name_folds(names).contains(fold(free_repair_name(names, suffix)->0)),
    decreases 10_000 - suffix,
{
    if name_folds(names).contains(fold(build_repair_name(suffix))) {
        build_repairs_get_a_new_name(names, suffix + 1);
    }
}

} // verus!
