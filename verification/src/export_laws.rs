//! What a repaired stack is exported as, how its changes are shown, and how recovered
//! transactions and attributes come together.

use vstd::prelude::*;

use crate::outside::lossy;
use crate::paths::{extension, join_path, parts, Platform};
use crate::quickstart::{install_patch_dir, starter_files};
use crate::repair::{
    changed_lines, commits_view, exports, export_normalized_patches, export_problem, export_stop,
    file_change, free_repair_name, maintenance_arguments, preset_answer, reject_paths,
    revision_problem, safe_failure_id, signed, CommitView, Diff, ExportStep, PatchCommit,
    RepairConfirmation, RunRepairOptions, WorktreeEntry,
};
use crate::replacement::{fold, ExportedPatch};
use crate::replacement_laws::{accepted_paths_stay_below, stays_below};
use crate::security::{
    by_name, bytes_less, has_name, insert_by_name, listed_names, owner_to_restore, stale,
    zero_index,
};
use crate::shim::{RecordView, SecurityMetadata};
use crate::state::{with_repairs, with_takeovers, without_restored};
use crate::store::all_merged;
use crate::text::{is_ascii_letter, is_control, is_digit, is_whitespace, lines};

verus! {

/// A revision that Git takes as one: not empty, no option, and without white space or controls.
pub open spec fn is_plain_revision(s: Seq<char>) -> bool {
    s.len() > 0 && s[0] != '-' && forall|i: int|
        0 <= i < s.len() ==> !is_control(#[trigger] s[i]) && !is_whitespace(s[i])
}

/// Exactly plain revisions are handed to Git.
pub proof fn plain_revisions_are_accepted(s: Seq<char>)
    ensures
        revision_problem(s) is None <==> is_plain_revision(s),
{
}

/// The commit can be exported: its name stays below the directory, is that of a patch and cannot
/// be confused with an earlier one, and its revisions are plain.
pub open spec fn can_be_exported(platform: Platform, commits: Seq<CommitView>, i: int) -> bool {
    let c = commits[i];
    stays_below(platform, c.name) && extension(platform, c.name) == Some("patch"@)
        && is_plain_revision(c.parent) && is_plain_revision(c.commit) && forall|k: int|
        0 <= k < i ==> fold((#[trigger] commits[k]).name) != fold(c.name)
}

/// Git has answered with a difference.
pub open spec fn has_difference(diffs: Seq<Diff>, i: int) -> bool {
    i < diffs.len() && diffs[i] is Bytes && diffs[i]->Bytes_0@.len() > 0
}

proof fn lemma_exported(platform: Platform, commits: Seq<CommitView>, i: int)
    requires
        0 <= i < commits.len(),
    ensures
        export_problem(platform, commits, i) is None <==> can_be_exported(platform, commits, i),
{
    let c = commits[i];
    accepted_paths_stay_below(platform, c.name);
    plain_revisions_are_accepted(c.parent);
    plain_revisions_are_accepted(c.commit);
    let names = crate::repair::commit_names(commits.take(i));
    let folds = crate::repair::name_folds(names);
    if folds.contains(fold(c.name)) {
        let k = choose|k: int| 0 <= k < folds.len() && folds[k] == fold(c.name);
        assert(commits.take(i)[k] == commits[k]);
        assert(names[k] == commits[k].name);
        assert(fold(commits[k].name) == fold(c.name));
    } else {
        assert forall|k: int| 0 <= k < i implies fold((#[trigger] commits[k]).name) != fold(
            c.name,
        ) by {
            assert(commits.take(i)[k] == commits[k]);
            assert(names[k] == commits[k].name);
            assert(folds[k] == fold(commits[k].name));
        }
    }
}

/// All commits from that one on can be exported, and have their differences.
pub open spec fn is_exported_from(
    platform: Platform,
    commits: Seq<CommitView>,
    diffs: Seq<Diff>,
    i: int,
) -> bool {
    forall|k: int|
        i <= k < commits.len() ==> #[trigger] can_be_exported(platform, commits, k)
            && has_difference(diffs, k)
}

/// All commits between the two can be exported, and have their differences.
pub open spec fn is_exported_between(
    platform: Platform,
    commits: Seq<CommitView>,
    diffs: Seq<Diff>,
    from: int,
    to: int,
) -> bool {
    forall|k: int|
        from <= k < to ==> #[trigger] can_be_exported(platform, commits, k) && has_difference(
            diffs,
            k,
        )
}

proof fn lemma_export_stop(
    platform: Platform,
    commits: Seq<CommitView>,
    diffs: Seq<Diff>,
    i: int,
)
    requires
        0 <= i <= commits.len(),
        i <= diffs.len(),
    ensures
        export_stop(platform, commits, diffs, i) is None <==> is_exported_from(
            platform,
            commits,
            diffs,
            i,
        ),
        export_stop(platform, commits, diffs, i) matches Some(Ok(k)) ==> k == diffs.len() && k
            < commits.len() && can_be_exported(platform, commits, k) && is_exported_between(
            platform,
            commits,
            diffs,
            i,
            k,
        ),
        diffs.len() < commits.len() && can_be_exported(platform, commits, diffs.len() as int)
            && is_exported_between(platform, commits, diffs, i, diffs.len() as int) ==> export_stop(
            platform,
            commits,
            diffs,
            i,
        ) == Some(Ok::<int, Seq<char>>(diffs.len() as int)),
    decreases commits.len() - i,
{
    if i < commits.len() {
        lemma_exported(platform, commits, i);
        if i < diffs.len() {
            lemma_export_stop(platform, commits, diffs, i + 1);
            let here = can_be_exported(platform, commits, i) && has_difference(diffs, i);
            assert(is_exported_from(platform, commits, diffs, i) <==> here && is_exported_from(
                platform,
                commits,
                diffs,
                i + 1,
            ));
            let n = diffs.len() as int;
            assert(is_exported_between(platform, commits, diffs, i, n) <==> here
                && is_exported_between(platform, commits, diffs, i + 1, n));
        } else {
            assert(can_be_exported(platform, commits, i) ==> !has_difference(diffs, i));
        }
    }
}

/// The patches have the names of the commits and the bytes of the differences, in their order.
pub open spec fn are_patches_of(
    patches: Seq<ExportedPatch>,
    commits: Seq<PatchCommit>,
    diffs: Seq<Diff>,
) -> bool {
    patches.len() == commits.len() && forall|i: int|
        0 <= i < patches.len() ==> (#[trigger] patches[i]).name@ == commits[i].name@
            && has_difference(diffs, i) && patches[i].bytes@ == diffs[i]->Bytes_0@
}

/// A stack is exported commit by commit in its order: each is checked before Git is asked for
/// its difference, and the export is done once every one has one. The patches have the names of
/// the commits and the bytes of the differences.
pub proof fn stacks_are_exported_in_order(
    platform: Platform,
    repository: &str,
    is_dir: bool,
    commits: &Vec<PatchCommit>,
    diffs: &Vec<Diff>,
    r: Result<ExportStep, String>,
)
    requires
        call_ensures(
            export_normalized_patches,
            (platform, repository, is_dir, commits, diffs),
            r,
        ),
    ensures
        (r matches Ok(ExportStep::Done(_))) <==> is_dir && is_exported_from(
            platform,
            commits_view(commits@),
            diffs@,
            0,
        ),
        (r matches Ok(ExportStep::Diff(_))) <==> is_dir && diffs@.len() < commits@.len()
            && can_be_exported(platform, commits_view(commits@), diffs@.len() as int)
            && is_exported_between(
            platform,
            commits_view(commits@),
            diffs@,
            0,
            diffs@.len() as int,
        ),
        r matches Ok(ExportStep::Diff(k)) ==> k == diffs@.len(),
        r matches Ok(ExportStep::Done(patches)) ==> are_patches_of(patches@, commits@, diffs@),
{
    lemma_export_stop(platform, commits_view(commits@), diffs@, 0);
    let list = commits_view(commits@);
    let n = diffs@.len() as int;
    let stop = export_stop(platform, list, diffs@, 0);
    assert(list.len() == commits@.len());
    assert((r matches Ok(ExportStep::Done(_))) <==> is_dir && stop is None);
    assert((r matches Ok(ExportStep::Diff(_))) <==> is_dir && (stop matches Some(Ok(_))));
    if stop is None {
        assert forall|i: int| 0 <= i < commits@.len() implies has_difference(diffs@, i) by {
            assert(can_be_exported(platform, list, i));
        }
        if n < commits@.len() {
            assert(!has_difference(diffs@, n));
        }
        if let Ok(ExportStep::Done(patches)) = r {
            assert(exports(patches@, commits@, diffs@));
            assert(are_patches_of(patches@, commits@, diffs@));
        }
    }
}

/// The maintenance run works in its worktree with its prompt. It is confined to the worktree and
/// asks, unless the user runs without a sandbox anyway.
pub proof fn maintenance_is_confined(worktree: Seq<char>, prompt: Seq<char>, yolo_mode: bool)
    ensures
        ({
            let a = maintenance_arguments(worktree, prompt, yolo_mode);
            &&& a[0] == "-c"@ && a[1] == "check_for_update_on_startup=false"@
            &&& a[2] == "-C"@ && a[3] == worktree
            &&& yolo_mode ==> a.len() == 7 && a[4]
                == "--dangerously-bypass-approvals-and-sandbox"@
            &&& !yolo_mode ==> a.len() == 10 && a[4] == "--sandbox"@ && a[5] == "workspace-write"@
                && a[6] == "--ask-for-approval"@ && a[7] == "on-request"@
            &&& a[a.len() - 2] == "--no-alt-screen"@
            &&& a.last() == prompt
        }),
{
}

/// The user is asked exactly where no answer was given and there is a terminal.
pub proof fn replacements_are_confirmed_as_asked(options: RunRepairOptions, terminal: bool)
    ensures
        ({
            let r = preset_answer(options, terminal);
            let prompt = options.confirmation == RepairConfirmation::Prompt;
            &&& r == Ok::<Option<bool>, Seq<char>>(Some(true)) <==> options.confirmation
                == RepairConfirmation::Accept
            &&& r == Ok::<Option<bool>, Seq<char>>(Some(false)) <==> options.confirmation
                == RepairConfirmation::Decline
            &&& r == Ok::<Option<bool>, Seq<char>>(None) <==> prompt && terminal
            &&& r is Err <==> prompt && !terminal
        }),
{
}

/// The two lists differ between the same lines at both ends, and only there.
pub open spec fn differ_between(
    a: Seq<Seq<char>>,
    b: Seq<Seq<char>>,
    start: Seq<Seq<char>>,
    x: Seq<Seq<char>>,
    y: Seq<Seq<char>>,
    end: Seq<Seq<char>>,
) -> bool {
    a == start + x + end && b == start + y + end && (x.len() > 0 && y.len() > 0 ==> x[0] != y[0]
        && x.last() != y.last())
}

proof fn lemma_prefix(a: Seq<Seq<char>>, b: Seq<Seq<char>>)
    ensures
        ({
            let n = crate::repair::common_prefix(a, b);
            &&& 0 <= n <= a.len() && n <= b.len()
            &&& a.take(n) == b.take(n)
            &&& n < a.len() && n < b.len() ==> a[n] != b[n]
        }),
    decreases a.len(),
{
    let n = crate::repair::common_prefix(a, b);
    if a.len() > 0 && b.len() > 0 && a[0] == b[0] {
        let x = a.drop_first();
        let y = b.drop_first();
        lemma_prefix(x, y);
        assert forall|i: int| 0 <= i < n implies a[i] == b[i] by {
            if i > 0 {
                assert(x.take(n - 1)[i - 1] == a[i]);
                assert(y.take(n - 1)[i - 1] == b[i]);
            }
        }
        assert(a.take(n) =~= b.take(n));
    } else {
        assert(a.take(0) =~= b.take(0));
    }
}

proof fn lemma_suffix(a: Seq<Seq<char>>, b: Seq<Seq<char>>)
    ensures
        ({
            let n = crate::repair::common_suffix(a, b);
            &&& 0 <= n <= a.len() && n <= b.len()
            &&& a.skip(a.len() - n) == b.skip(b.len() - n)
            &&& n < a.len() && n < b.len() ==> a[a.len() - n - 1] != b[b.len() - n - 1]
        }),
    decreases a.len(),
{
    let n = crate::repair::common_suffix(a, b);
    if a.len() > 0 && b.len() > 0 && a.last() == b.last() {
        let x = a.drop_last();
        let y = b.drop_last();
        lemma_suffix(x, y);
        let s = a.skip(a.len() - n);
        let t = b.skip(b.len() - n);
        assert forall|i: int| 0 <= i < n implies s[i] == t[i] by {
            if i < n - 1 {
                assert(x.skip(x.len() - (n - 1))[i] == s[i]);
                assert(y.skip(y.len() - (n - 1))[i] == t[i]);
            }
        }
        assert(a.skip(a.len() - n) =~= b.skip(b.len() - n));
    } else {
        assert(a.skip(a.len() as int) =~= b.skip(b.len() as int));
    }
}

/// A change is shown by the lines that it takes away and then those that it adds: what stands
/// between the lines that both texts have at their ends.
pub proof fn changes_show_what_differs(old_text: Seq<char>, new_text: Seq<char>)
    ensures
        exists|start: Seq<Seq<char>>, x: Seq<Seq<char>>, y: Seq<Seq<char>>, end: Seq<Seq<char>>|
            #[trigger] differ_between(lines(old_text), lines(new_text), start, x, y, end)
                && changed_lines(old_text, new_text) == signed("-"@, x) + signed("+"@, y),
{
    let a = lines(old_text);
    let b = lines(new_text);
    let p = crate::repair::common_prefix(a, b);
    lemma_prefix(a, b);
    let u = a.skip(p);
    let v = b.skip(p);
    let q = crate::repair::common_suffix(u, v);
    lemma_suffix(u, v);
    let x = u.take(u.len() - q);
    let y = v.take(v.len() - q);
    lemma_between(a, b, p, q);
    assert(differ_between(a, b, a.take(p), x, y, u.skip(u.len() - q)));
}

proof fn lemma_between(a: Seq<Seq<char>>, b: Seq<Seq<char>>, p: int, q: int)
    requires
        0 <= p <= a.len() && p <= b.len(),
        0 <= q <= a.len() - p && q <= b.len() - p,
        a.take(p) == b.take(p),
        a.skip(p).skip(a.len() - p - q) == b.skip(p).skip(b.len() - p - q),
        p < a.len() && p < b.len() ==> a[p] != b[p],
        q < a.len() - p && q < b.len() - p ==> a.skip(p)[a.len() - p - q - 1] != b.skip(p)[b.len()
            - p - q - 1],
    ensures
        ({
            let x = a.skip(p).take(a.len() - p - q);
            let y = b.skip(p).take(b.len() - p - q);
            differ_between(a, b, a.take(p), x, y, a.skip(p).skip(a.len() - p - q))
        }),
{
    lemma_three_parts(a, p, q);
    lemma_three_parts(b, p, q);
}

proof fn lemma_three_parts(a: Seq<Seq<char>>, p: int, q: int)
    requires
        0 <= p <= a.len(),
        0 <= q <= a.len() - p,
    ensures
        a == a.take(p) + a.skip(p).take(a.len() - p - q) + a.skip(p).skip(a.len() - p - q),
{
    assert(a =~= a.take(p) + a.skip(p).take(a.len() - p - q) + a.skip(p).skip(a.len() - p - q));
}

/// A file that stays as it is shows nothing. One that is added shows all its lines as added, one
/// that goes shows all as taken away.
pub proof fn files_show_their_change(
    path: Seq<char>,
    old_bytes: Option<Seq<u8>>,
    new_bytes: Option<Seq<u8>>,
)
    ensures
        ({
            let r = file_change(path, old_bytes, new_bytes);
            &&& r.len() == 0 <==> old_bytes == new_bytes
            &&& old_bytes != new_bytes ==> r[0] == "--- old/"@ + path && r[1] == "+++ new/"@ + path
            &&& old_bytes is None ==> (new_bytes matches Some(b) ==> r.skip(2) == signed(
                "+"@,
                lines(lossy(b)),
            ))
            &&& new_bytes is None ==> (old_bytes matches Some(a) ==> r.skip(2) == signed(
                "-"@,
                lines(lossy(a)),
            ))
            &&& old_bytes != new_bytes ==> (old_bytes matches Some(a) ==> (
            new_bytes matches Some(b) ==> r.skip(2) == changed_lines(lossy(a), lossy(b))))
        }),
{
    let r = file_change(path, old_bytes, new_bytes);
    if old_bytes != new_bytes {
        let body = match (old_bytes, new_bytes) {
            (Some(a), Some(b)) => changed_lines(lossy(a), lossy(b)),
            (None, Some(b)) => signed("+"@, lines(lossy(b))),
            (Some(a), None) => signed("-"@, lines(lossy(a))),
            (None, None) => Seq::empty(),
        };
        assert(r == seq!["--- old/"@ + path, "+++ new/"@ + path] + body);
        assert(r.skip(2) =~= body);
    }
}

/// The entry is a reject file outside Git's own directory.
pub open spec fn is_left_behind(platform: Platform, e: WorktreeEntry) -> bool {
    !e.is_dir && extension(platform, e.relative_path@) == Some("rej"@) && forall|i: int|
        0 <= i < parts(platform, e.relative_path@).len() ==> #[trigger] parts(
            platform,
            e.relative_path@,
        )[i] != ".git"@
}

/// Exactly the reject files outside Git's own directory are found.
pub proof fn every_reject_is_found(
    platform: Platform,
    worktree: Seq<char>,
    entries: Seq<WorktreeEntry>,
    path: Seq<char>,
)
    ensures
        reject_paths(platform, worktree, entries).contains(path) <==> exists|i: int|
            0 <= i < entries.len() && is_left_behind(platform, #[trigger] entries[i]) && path
                == join_path(platform, worktree, entries[i].relative_path@),
    decreases entries.len(),
{
    if entries.len() > 0 {
        let rest = entries.drop_last();
        let last = entries.last();
        every_reject_is_found(platform, worktree, rest, path);
        assert(entries[entries.len() - 1] == last);
        assert(crate::repair::is_reject(platform, last) <==> is_left_behind(platform, last));
        if exists|i: int|
            0 <= i < rest.len() && is_left_behind(platform, #[trigger] rest[i]) && path
                == join_path(platform, worktree, rest[i].relative_path@) {
            let i = choose|i: int|
                0 <= i < rest.len() && is_left_behind(platform, #[trigger] rest[i]) && path
                    == join_path(platform, worktree, rest[i].relative_path@);
            assert(entries[i] == rest[i]);
        }
        if exists|i: int|
            0 <= i < entries.len() && is_left_behind(platform, #[trigger] entries[i]) && path
                == join_path(platform, worktree, entries[i].relative_path@) {
            let i = choose|i: int|
                0 <= i < entries.len() && is_left_behind(platform, #[trigger] entries[i]) && path
                    == join_path(platform, worktree, entries[i].relative_path@);
            if i < rest.len() {
                assert(rest[i] == entries[i]);
            }
        }
    }
}

/// An id is safe exactly where it is made of letters, digits, `-` and `_`, and not too long.
pub proof fn safe_ids_name_files(id: Seq<char>)
    ensures
        safe_failure_id(id) <==> 0 < id.len() <= 128 && forall|i: int|
            0 <= i < id.len() ==> is_ascii_letter(#[trigger] id[i]) || is_digit(id[i]) || id[i]
                == '-' || id[i] == '_',
{
    if safe_failure_id(id) {
        assert forall|i: int| 0 <= i < id.len() implies is_ascii_letter(#[trigger] id[i])
            || is_digit(id[i]) || id[i] == '-' || id[i] == '_' by {
            assert(crate::repair::is_id_char(id[i]));
        }
    }
}

/// The name of that number could be confused with one of the stack.
pub open spec fn is_taken(names: Seq<Seq<char>>, k: nat) -> bool {
    exists|i: int|
        0 <= i < names.len() && fold(#[trigger] names[i]) == fold(
            crate::repair::build_repair_name(k),
        )
}

proof fn lemma_taken(names: Seq<Seq<char>>, k: nat)
    ensures
        crate::repair::name_folds(names).contains(fold(crate::repair::build_repair_name(k)))
            <==> is_taken(names, k),
{
    let folds = crate::repair::name_folds(names);
    let mine = fold(crate::repair::build_repair_name(k));
    if folds.contains(mine) {
        let i = choose|i: int| 0 <= i < folds.len() && folds[i] == mine;
        assert(fold(names[i]) == mine);
    }
    if is_taken(names, k) {
        let i = choose|i: int| 0 <= i < names.len() && fold(#[trigger] names[i]) == mine;
        assert(folds[i] == mine);
    }
}

/// A build repair gets the first of its names that is free, and none only where all are taken.
pub proof fn build_repairs_get_the_first_free_name(names: Seq<Seq<char>>, from: nat)
    requires
        from <= 10_000,
    ensures
        match free_repair_name(names, from) {
            Some(name) => exists|k: nat|
                from <= k < 10_000 && name == #[trigger] crate::repair::build_repair_name(k)
                    && !is_taken(names, k) && forall|j: nat|
                    from <= j < k ==> #[trigger] is_taken(names, j),
            None => forall|j: nat| from <= j < 10_000 ==> #[trigger] is_taken(names, j),
        },
    decreases 10_000 - from,
{
    if from < 10_000 {
        lemma_taken(names, from);
        if is_taken(names, from) {
            build_repairs_get_the_first_free_name(names, from + 1);
            match free_repair_name(names, from) {
                Some(name) => {
                    let k = choose|k: nat|
                        from + 1 <= k < 10_000 && name
                            == #[trigger] crate::repair::build_repair_name(k) && !is_taken(names, k)
                            && forall|j: nat| from + 1 <= j < k ==> #[trigger] is_taken(names, j);
                    assert forall|j: nat| from <= j < k implies #[trigger] is_taken(names, j) by {
                        if j > from {
                            assert(from + 1 <= j);
                        }
                    }
                    assert(name == crate::repair::build_repair_name(k));
                },
                None => {
                    assert forall|j: nat| from <= j < 10_000 implies #[trigger] is_taken(
                        names,
                        j,
                    ) by {
                        if j > from {
                            assert(from + 1 <= j);
                        }
                    }
                },
            }
        } else {
            assert(crate::repair::build_repair_name(from) == free_repair_name(names, from)->0);
        }
    }
}

/// Recovered transactions are brought into the records in one order: takeovers, repairs,
/// restorations. Without an installation none may be there. What stops a kind keeps the kinds
/// after it, and what came before stays; the count is of what was recovered.
pub proof fn transactions_are_recovered_in_order(
    platform: Platform,
    installed: bool,
    surfaces: Seq<RecordView>,
    takeovers: Seq<RecordView>,
    repairs: Seq<RecordView>,
    restored: Seq<u128>,
)
    ensures
        ({
            let r = all_merged(platform, installed, surfaces, takeovers, repairs, restored);
            let first = with_takeovers(platform, surfaces, takeovers);
            let second = with_repairs(platform, first->Ok_0, repairs);
            &&& installed ==> (r.problem is None <==> first is Ok && second is Ok)
            &&& !installed ==> (r.problem is None <==> takeovers.len() == 0 && repairs.len() == 0
                && restored.len() == 0)
            &&& installed && r.problem is None ==> r.count == takeovers.len() + repairs.len()
                + restored.len()
            &&& installed && r.problem is None && restored.len() > 0 ==> r.surfaces
                == without_restored(second->Ok_0, restored)
            &&& installed && r.problem is None && restored.len() == 0 ==> r.surfaces
                == second->Ok_0
            &&& installed && first is Err ==> r.surfaces == surfaces && r.count == 0 && r.problem
                == Some(first->Err_0)
            &&& installed && first is Ok && second is Err ==> r.surfaces == first->Ok_0 && r.count
                == takeovers.len() && r.problem == Some(second->Err_0)
        }),
{
    if takeovers.len() == 0 {
        assert(with_takeovers(platform, surfaces, takeovers) == Ok::<
            Seq<RecordView>,
            Seq<char>,
        >(surfaces));
    }
}

/// A name of an attribute has no zero byte and is not empty.
pub open spec fn is_attribute_name(name: Seq<u8>) -> bool {
    name.len() > 0 && forall|i: int| 0 <= i < name.len() ==> #[trigger] name[i] != 0
}

proof fn lemma_zero_index(name: Seq<u8>, rest: Seq<u8>)
    requires
        forall|i: int| 0 <= i < name.len() ==> #[trigger] name[i] != 0,
    ensures
        zero_index(name + seq![0u8] + rest) == name.len(),
    decreases name.len(),
{
    let all = name + seq![0u8] + rest;
    if name.len() > 0 {
        assert(all[0] == name[0]);
        let tail = name.drop_first();
        assert forall|i: int| 0 <= i < tail.len() implies #[trigger] tail[i] != 0 by {
            assert(tail[i] == name[i + 1]);
        }
        lemma_zero_index(tail, rest);
        assert(all.drop_first() =~= tail + seq![0u8] + rest);
    } else {
        assert(all[0] == 0);
    }
}

/// A list of names is read name by name: each is followed by a zero byte, and an empty one is
/// passed over.
pub proof fn attribute_names_read_back(name: Seq<u8>, rest: Seq<u8>)
    ensures
        listed_names(Seq::empty()).len() == 0,
        listed_names(seq![0u8] + rest) == listed_names(rest),
        is_attribute_name(name) ==> listed_names(name + seq![0u8] + rest) == seq![name]
            + listed_names(rest),
{
    let blank = seq![0u8] + rest;
    assert(blank[0] == 0);
    assert(blank.skip(1) =~= rest);
    if is_attribute_name(name) {
        lemma_zero_index(name, rest);
        let all = name + seq![0u8] + rest;
        assert(all.skip(name.len() as int + 1) =~= rest);
        assert(all.take(name.len() as int) =~= name);
    }
}

proof fn lemma_bytes_order(a: Seq<u8>, b: Seq<u8>, c: Seq<u8>)
    ensures
        !bytes_less(b, a) && !bytes_less(c, b) ==> !bytes_less(c, a),
        bytes_less(a, b) ==> !bytes_less(b, a),
    decreases a.len(),
{
    if a.len() > 0 && b.len() > 0 {
        if c.len() > 0 {
            lemma_bytes_order(a.drop_first(), b.drop_first(), c.drop_first());
        } else {
            lemma_bytes_order(a.drop_first(), b.drop_first(), c);
        }
    }
}

/// The attributes stand in the order of their names.
pub open spec fn is_sorted_by_name(list: Seq<(Seq<u8>, Seq<u8>)>) -> bool {
    forall|i: int, j: int|
        #![trigger list[i], list[j]]
        0 <= i < j < list.len() ==> !bytes_less(list[j].0, list[i].0)
}

proof fn lemma_insert(list: Seq<(Seq<u8>, Seq<u8>)>, x: (Seq<u8>, Seq<u8>))
    requires
        is_sorted_by_name(list),
    ensures
        is_sorted_by_name(insert_by_name(list, x)),
        insert_by_name(list, x).to_multiset() == list.to_multiset().insert(x),
        insert_by_name(list, x).len() == list.len() + 1,
    decreases list.len(),
{
    broadcast use vstd::seq_lib::group_to_multiset_ensures;

    let after = insert_by_name(list, x);
    if list.len() == 0 || !bytes_less(x.0, list.last().0) {
        assert forall|i: int, j: int|
            #![trigger after[i], after[j]]
            0 <= i < j < after.len() implies !bytes_less(after[j].0, after[i].0) by {
            assert(after[i] == list[i]);
            if j < list.len() {
                assert(after[j] == list[j]);
            } else {
                let n = list.len() - 1;
                if i < n {
                    assert(!bytes_less(list[n].0, list[i].0));
                    lemma_bytes_order(list[i].0, list[n].0, x.0);
                }
            }
        }
    } else {
        let rest = list.drop_last();
        let last = list.last();
        assert forall|i: int, j: int|
            #![trigger rest[i], rest[j]]
            0 <= i < j < rest.len() implies !bytes_less(rest[j].0, rest[i].0) by {
            assert(rest[i] == list[i] && rest[j] == list[j]);
        }
        lemma_insert(rest, x);
        let inner = insert_by_name(rest, x);
        assert(list =~= rest.push(last));
        assert(after.to_multiset() =~= list.to_multiset().insert(x));
        assert forall|i: int, j: int|
            #![trigger after[i], after[j]]
            0 <= i < j < after.len() implies !bytes_less(after[j].0, after[i].0) by {
            assert(after[i] == inner[i]);
            if j < inner.len() {
                assert(after[j] == inner[j]);
            } else {
                assert(inner.to_multiset().contains(inner[i])) by {
                    assert(inner.contains(inner[i]));
                }
                if inner[i] == x {
                    lemma_bytes_order(x.0, last.0, x.0);
                } else {
                    assert(rest.to_multiset().contains(inner[i]));
                    assert(rest.contains(inner[i]));
                    let k = choose|k: int| 0 <= k < rest.len() && rest[k] == inner[i];
                    assert(list[k] == inner[i] && list[list.len() - 1] == last);
                }
            }
        }
    }
}

/// Attributes are recorded in the order of their names, and none is lost or added.
pub proof fn attributes_are_sorted(list: Seq<(Seq<u8>, Seq<u8>)>)
    ensures
        is_sorted_by_name(by_name(list)),
        by_name(list).to_multiset() == list.to_multiset(),
    decreases list.len(),
{
    broadcast use vstd::seq_lib::group_to_multiset_ensures;

    if list.len() > 0 {
        let rest = list.drop_last();
        attributes_are_sorted(rest);
        lemma_insert(by_name(rest), list.last());
        assert(list =~= rest.push(list.last()));
    } else {
        assert(by_name(list) =~= list);
    }
}

/// The list has an attribute of that name.
pub open spec fn is_set(list: Seq<(Seq<u8>, Seq<u8>)>, name: Seq<u8>) -> bool {
    exists|i: int| 0 <= i < list.len() && (#[trigger] list[i]).0 == name
}

/// Exactly the attributes that are set and should not be are removed.
pub proof fn stale_attributes_are_removed(
    current: Seq<(Seq<u8>, Seq<u8>)>,
    expected: Seq<(Seq<u8>, Seq<u8>)>,
    name: Seq<u8>,
)
    ensures
        stale(current, expected).contains(name) <==> is_set(current, name) && !is_set(
            expected,
            name,
        ),
    decreases current.len(),
{
    assert(has_name(expected, name) == is_set(expected, name));
    if current.len() > 0 {
        let rest = current.drop_last();
        let last = current.last();
        stale_attributes_are_removed(rest, expected, name);
        let before = stale(rest, expected);
        let after = stale(current, expected);
        assert(current[current.len() - 1] == last);
        if is_set(rest, name) {
            let i = choose|i: int| 0 <= i < rest.len() && (#[trigger] rest[i]).0 == name;
            assert(current[i] == rest[i]);
        }
        if is_set(current, name) {
            let i = choose|i: int| 0 <= i < current.len() && (#[trigger] current[i]).0 == name;
            if i < rest.len() {
                assert(rest[i] == current[i]);
            }
        }
        if after != before {
            assert(after[before.len() as int] == last.0);
            if before.contains(name) {
                let k = choose|k: int| 0 <= k < before.len() && before[k] == name;
                assert(after[k] == name);
            }
            if after.contains(name) && name != last.0 {
                let k = choose|k: int| 0 <= k < after.len() && after[k] == name;
                assert(before[k] == name);
            }
        }
    }
}

/// A file is given to its recorded owner exactly where it belongs to another.
pub proof fn files_go_back_to_their_owner(
    security: &SecurityMetadata,
    uid: u32,
    gid: u32,
    r: Result<Option<(u32, u32)>, String>,
)
    requires
        call_ensures(owner_to_restore, (security, uid, gid), r),
    ensures
        r is Ok <==> security.unix_uid is Some && security.unix_gid is Some,
        r matches Ok(owner) ==> (owner is None <==> security.unix_uid == Some(uid)
            && security.unix_gid == Some(gid)),
        r matches Ok(Some(owner)) ==> security.unix_uid == Some(owner.0) && security.unix_gid
            == Some(owner.1),
{
}

/// The patch directory is the one that was given, or else below the home of Codex, or else below
/// the user's home; without any of them there is none.
pub proof fn patch_directories_are_found(
    platform: Platform,
    given: &Option<String>,
    codex_home: &Option<String>,
    home: &Option<String>,
    r: Result<String, String>,
)
    requires
        call_ensures(install_patch_dir, (platform, given, codex_home, home), r),
    ensures
        ({
            let named = codex_home matches Some(dir) && dir@.len() > 0;
            &&& r is Ok <==> given is Some || named || home is Some
            &&& given matches Some(dir) ==> (r matches Ok(found) && found@ == dir@)
            &&& given is None && named ==> (r matches Ok(found) && found@ == join_path(
                platform,
                codex_home->0@,
                "codex-patcher"@,
            ))
            &&& given is None && !named ==> (home matches Some(dir) ==> (r matches Ok(found)
                && found@ == join_path(
                platform,
                join_path(platform, dir@, ".codex"@),
                "codex-patcher"@,
            )))
        }),
{
}

/// The starter directory holds a configuration, a series, the patch that it lists and a note,
/// each written with its contents.
pub proof fn starter_directories_are_whole(name: Seq<char>)
    ensures
        (exists|i: int|
            0 <= i < starter_files().len() && (#[trigger] starter_files()[i]).relative_path == name)
            <==> name == "codex-patcher.toml"@ || name == "series"@ || name == "status-line.patch"@
            || name == "AGENTS.md"@,
        forall|i: int|
            0 <= i < starter_files().len() ==> (#[trigger] starter_files()[i]).contents is Some,
{
    let list = starter_files();
    assert(list[0].relative_path == "codex-patcher.toml"@);
    assert(list[1].relative_path == "series"@);
    assert(list[2].relative_path == "status-line.patch"@);
    assert(list[3].relative_path == "AGENTS.md"@);
}

} // verus!
