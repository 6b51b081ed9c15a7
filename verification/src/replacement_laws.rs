//! What a replacement of patch files needs, does and undoes, in terms of its files.

use vstd::prelude::*;

use crate::paths::{is_absolute, is_name, parts, Platform};
use crate::replacement::{
    begin_journal, dropped, first_path_problem, first_problem, fold, folds_of, journaled_replace,
    names_path, next_apply, path_problem, preparation_problem, replacements_view, set_problem,
    stack_files, undo_plan, undo_problem, way_problem, ApplyStep, EntryState, EntryView,
    ExportedPatch, FileReplacement, JournalPhase, PreparedSet, ReplaceFacts, ReplaceStep,
    ReplacementAction, ReplacementJournal, ReplacementView, Target, UndoView, Way,
};

verus! {

/// A part of a path that names something below the directory it is in.
pub open spec fn is_plain_part(platform: Platform, part: Seq<char>) -> bool {
    is_name(platform, part) && !part.contains('\\') && !part.contains('\0')
}

/// A path that leads below the directory it starts from.
pub open spec fn stays_below(platform: Platform, path: Seq<char>) -> bool {
    path.len() > 0 && !is_absolute(platform, path) && forall|i: int|
        0 <= i < parts(platform, path).len() ==> is_plain_part(
            platform,
            #[trigger] parts(platform, path)[i],
        )
}

/// A path is accepted exactly where it leads below the directory, part by part.
pub proof fn accepted_paths_stay_below(platform: Platform, path: Seq<char>)
    ensures
        path_problem(platform, path) is None <==> stays_below(platform, path),
{
    let list = parts(platform, path);
    if path_problem(platform, path) is None {
        assert forall|i: int| 0 <= i < list.len() implies is_plain_part(
            platform,
            #[trigger] list[i],
        ) by {
            assert(!crate::replacement::unsafe_part(platform, list[i]));
        }
    }
}

/// A list of paths is accepted exactly where every one is.
pub proof fn accepted_lists_stay_below(platform: Platform, list: Seq<Seq<char>>)
    ensures
        first_path_problem(platform, list) is None <==> forall|i: int|
            0 <= i < list.len() ==> stays_below(platform, #[trigger] list[i]),
    decreases list.len(),
{
    if list.len() > 0 {
        let rest = list.drop_first();
        accepted_paths_stay_below(platform, list[0]);
        accepted_lists_stay_below(platform, rest);
        assert forall|i: int| 0 <= i < rest.len() implies #[trigger] rest[i] == list[i + 1] by {}
        if first_path_problem(platform, list) is None {
            assert forall|i: int| 0 <= i < list.len() implies stays_below(
                platform,
                #[trigger] list[i],
            ) by {
                if i > 0 {
                    assert(rest[i - 1] == list[i]);
                }
            }
        }
    }
}

/// The way to a file is clear exactly where nothing on it is anything but a directory.
pub proof fn clear_ways_are_directories(
    platform: Platform,
    root: Seq<char>,
    parts: Seq<Seq<char>>,
    ways: Seq<Way>,
    n: int,
)
    requires
        0 <= n <= ways.len(),
    ensures
        way_problem(platform, root, parts, ways, n) is None <==> forall|i: int|
            0 <= i < n ==> (#[trigger] ways[i]) is Missing || ways[i] is Directory,
    decreases n,
{
    if n > 0 {
        clear_ways_are_directories(platform, root, parts, ways, n - 1);
        let last = ways[n - 1];
    }
}

/// What stands at the path of a replacement lets it be made.
pub open spec fn lets_replace(f: ReplacementView, t: Target) -> bool {
    t is File || (t is Missing && f.contents is Some)
}

/// The replacement can be made, and no earlier one is of a path that could be confused with its.
pub open spec fn fits(
    platform: Platform,
    list: Seq<ReplacementView>,
    targets: Seq<Target>,
    i: int,
) -> bool {
    stays_below(platform, list[i].relative_path) && lets_replace(list[i], targets[i]) && forall|k: int|
        0 <= k < i ==> fold((#[trigger] list[k]).relative_path) != fold(list[i].relative_path)
}

proof fn lemma_fits(
    platform: Platform,
    patch_dir: Seq<char>,
    list: Seq<ReplacementView>,
    targets: Seq<Target>,
    i: int,
)
    requires
        0 <= i < list.len(),
    ensures
        preparation_problem(platform, patch_dir, list, targets, i) is None <==> fits(
            platform,
            list,
            targets,
            i,
        ),
{
    accepted_paths_stay_below(platform, list[i].relative_path);
    let before = folds_of(list.take(i));
    let mine = fold(list[i].relative_path);
    if before.contains(mine) {
        let k = choose|k: int| 0 <= k < before.len() && before[k] == mine;
        assert(list.take(i)[k] == list[k]);
        assert(fold(list[k].relative_path) == mine);
    }
    if !before.contains(mine) {
        assert forall|k: int| 0 <= k < i implies fold((#[trigger] list[k]).relative_path)
            != mine by {
            assert(list.take(i)[k] == list[k]);
            assert(before[k] == fold(list[k].relative_path));
        }
    }
}

proof fn lemma_all_fit(
    platform: Platform,
    patch_dir: Seq<char>,
    list: Seq<ReplacementView>,
    targets: Seq<Target>,
    i: int,
)
    requires
        0 <= i <= list.len(),
    ensures
        first_problem(platform, patch_dir, list, targets, i) is None <==> forall|k: int|
            i <= k < list.len() ==> #[trigger] fits(platform, list, targets, k),
    decreases list.len() - i,
{
    if i < list.len() {
        lemma_fits(platform, patch_dir, list, targets, i);
        lemma_all_fit(platform, patch_dir, list, targets, i + 1);
    }
}

/// A set of replacements is accepted exactly where it is not empty, every path leads below the
/// directory, no two paths can be confused, no link or directory is replaced, and nothing is
/// deleted that is not there.
pub proof fn accepted_sets_can_be_made(
    platform: Platform,
    patch_dir: Seq<char>,
    list: Seq<ReplacementView>,
    targets: Seq<Target>,
)
    ensures
        set_problem(platform, patch_dir, list, targets) is None <==> list.len() > 0 && forall|i: int|
            0 <= i < list.len() ==> #[trigger] fits(platform, list, targets, i),
{
    lemma_all_fit(platform, patch_dir, list, targets, 0);
}

/// The set says of each replacement what it does, and keeps the original with its mode.
pub open spec fn holds_replacements(
    set: PreparedSet,
    list: Seq<ReplacementView>,
    targets: Seq<Target>,
) -> bool {
    set.previews@.len() == list.len() && set.entries@.len() == list.len() && forall|i: int|
        0 <= i < list.len() ==> holds_replacement(set, #[trigger] list[i], targets[i], i)
}

/// One entry of the set, and its preview.
pub open spec fn holds_replacement(
    set: PreparedSet,
    f: ReplacementView,
    t: Target,
    i: int,
) -> bool {
    let preview = set.previews@[i]@;
    let entry = set.entries@[i]@;
    &&& preview.relative_path == f.relative_path && entry.relative_path == f.relative_path
    &&& preview.action == ReplacementAction::Create <==> !(t is File)
    &&& preview.action == ReplacementAction::Update <==> t is File && f.contents is Some
    &&& preview.action == ReplacementAction::Delete <==> t is File && f.contents is None
    &&& entry.contents == f.contents
    &&& t is File <==> entry.original is Some
    &&& t matches Target::File { bytes, mode } ==> entry.original == Some(bytes@)
        && entry.original_mode == mode
    &&& preview.old_sha256 is Some <==> t is File
    &&& preview.new_sha256 is Some <==> f.contents is Some
}

/// A replacement is prepared, confirmed and checked once more, in this order, and is made only
/// where the user agrees and the inputs have not changed. What it makes is what was asked for.
pub proof fn replacements_are_agreed_to(
    platform: Platform,
    patch_dir: &str,
    replacements: &Vec<FileReplacement>,
    facts: &ReplaceFacts,
    r: Result<ReplaceStep, String>,
)
    requires
        call_ensures(journaled_replace, (platform, patch_dir, replacements, facts), r),
    ensures
        ({
            let list = replacements_view(replacements@);
            let accepted = facts.patch_dir_exists && facts.recovered is Ok && list.len() > 0
                && forall|i: int|
                0 <= i < list.len() ==> #[trigger] fits(platform, list, facts.targets@, i);
            let agreed = accepted && facts.confirmed == Some(Ok::<bool, String>(true));
            &&& (r matches Ok(ReplaceStep::Confirm(_))) <==> accepted && facts.confirmed is None
            &&& (r matches Ok(ReplaceStep::Declined)) <==> accepted && facts.confirmed == Some(
                Ok::<bool, String>(false),
            )
            &&& (r matches Ok(ReplaceStep::Precheck)) <==> agreed && facts.precheck is None
            &&& (r matches Ok(ReplaceStep::Apply(_))) <==> agreed && (
            facts.precheck matches Some(Ok(_)))
            &&& r is Err <==> !accepted || (facts.confirmed matches Some(Err(_))) || (agreed && (
            facts.precheck matches Some(Err(_))))
            &&& r matches Ok(ReplaceStep::Confirm(set)) ==> holds_replacements(
                set,
                list,
                facts.targets@,
            )
            &&& r matches Ok(ReplaceStep::Apply(set)) ==> holds_replacements(
                set,
                list,
                facts.targets@,
            )
        }),
{
    let list = replacements_view(replacements@);
    accepted_sets_can_be_made(platform, patch_dir@, list, facts.targets@);
}

/// The journal has an entry for each prepared file, in their order, and each starts untouched.
/// New contents are staged and originals backed up, each under a name of its own.
pub proof fn journals_hold_every_file(
    transaction_dir: &str,
    prepared: &PreparedSet,
    r: ReplacementJournal,
    i: int,
)
    requires
        call_ensures(begin_journal, (transaction_dir, prepared), r),
        0 <= i < prepared.entries@.len(),
    ensures
        r.schema == 1,
        r.transaction_dir@ == transaction_dir@,
        r.phase == JournalPhase::Applying,
        r.entries@.len() == prepared.entries@.len(),
        ({
            let p = prepared.entries@[i]@;
            let e = r.entries@[i]@;
            &&& e.relative_path == p.relative_path
            &&& e.state == EntryState::Prepared
            &&& e.original_exists <==> p.original is Some
            &&& e.original_mode == p.original_mode
            &&& e.staged is Some <==> p.contents is Some
            &&& e.backup is Some <==> p.original is Some
        }),
{
    assert(r.entries@[i]@ == crate::replacement::journal_entry(prepared.entries@[i]@, i as nat));
}

/// The entries before that one have all been applied.
pub open spec fn applied_before(entries: Seq<EntryView>, n: int) -> bool {
    forall|i: int| 0 <= i < n ==> (#[trigger] entries[i]).state == EntryState::Applied
}

proof fn lemma_first_unapplied(entries: Seq<EntryView>)
    ensures
        0 <= crate::replacement::first_unapplied(entries) <= entries.len(),
        applied_before(entries, crate::replacement::first_unapplied(entries)),
        crate::replacement::first_unapplied(entries) < entries.len()
            ==> entries[crate::replacement::first_unapplied(entries)].state != EntryState::Applied,
    decreases entries.len(),
{
    if entries.len() > 0 && entries[0].state == EntryState::Applied {
        let rest = entries.drop_first();
        lemma_first_unapplied(rest);
        let n = crate::replacement::first_unapplied(rest);
        assert forall|i: int| 0 <= i < n + 1 implies (#[trigger] entries[i]).state
            == EntryState::Applied by {
            if i > 0 {
                assert(rest[i - 1] == entries[i]);
            }
        }
    }
}

/// A replacement goes on at the first file that is not yet replaced, which is marked before it
/// is touched. It is finished once all are replaced, and cleaned up once that is on record.
pub proof fn replacements_go_on_where_they_stopped(
    phase: JournalPhase,
    entries: Seq<EntryView>,
    i: usize,
)
    requires
        entries.len() <= usize::MAX,
    ensures
        ({
            let step = next_apply(phase, entries);
            &&& step is CleanUp <==> phase == JournalPhase::Complete
            &&& step is Finish <==> phase == JournalPhase::Applying && applied_before(
                entries,
                entries.len() as int,
            )
            &&& step == ApplyStep::Begin(i) <==> phase == JournalPhase::Applying && i
                < entries.len() && applied_before(entries, i as int) && entries[i as int].state
                == EntryState::Prepared
            &&& step == ApplyStep::Apply(i) <==> phase == JournalPhase::Applying && i
                < entries.len() && applied_before(entries, i as int) && entries[i as int].state
                == EntryState::Applying
        }),
{
    lemma_first_unapplied(entries);
    let n = crate::replacement::first_unapplied(entries);
    if n < entries.len() {
        assert(entries[n].state != EntryState::Applied);
    }
    if i < entries.len() {
        let e = entries[i as int];
    }
}

/// What an entry needs to be undone: its path, and a backup where there was an original.
pub open spec fn can_be_undone(platform: Platform, e: EntryView) -> bool {
    stays_below(platform, e.relative_path) && (e.original_exists ==> (e.backup matches Some(backup)
        && stays_below(platform, backup)))
}

/// The step undoes the entry: it puts the original back with its mode, or removes what was
/// created.
pub open spec fn undoes(step: UndoView, e: EntryView) -> bool {
    match step {
        UndoView::Restore { relative_path, backup, mode } => e.original_exists && relative_path
            == e.relative_path && e.backup == Some(backup) && mode == e.original_mode,
        UndoView::Remove { relative_path } => !e.original_exists && relative_path
            == e.relative_path,
    }
}

/// The entries that were touched.
pub open spec fn is_touched(e: EntryView) -> bool {
    e.state == EntryState::Applying || e.state == EntryState::Applied
}

/// A rollback undoes every entry that was touched and no other, the last first, and stops only
/// at one that cannot be undone.
pub proof fn rollbacks_undo_what_was_touched(platform: Platform, entries: Seq<EntryView>)
    ensures
        ({
            let plan = undo_plan(platform, entries);
            let before = undo_plan(platform, entries.drop_last());
            &&& entries.len() == 0 ==> plan.steps.len() == 0 && plan.problem is None
            &&& plan.problem is None <==> forall|i: int|
                0 <= i < entries.len() && is_touched(#[trigger] entries[i]) ==> can_be_undone(
                    platform,
                    entries[i],
                )
            &&& entries.len() > 0 && !is_touched(entries.last()) ==> plan == before
            &&& entries.len() > 0 && is_touched(entries.last()) && can_be_undone(
                platform,
                entries.last(),
            ) ==> plan.steps.len() == before.steps.len() + 1 && undoes(
                plan.steps[0],
                entries.last(),
            ) && plan.steps.drop_first() == before.steps && plan.problem == before.problem
            &&& entries.len() > 0 && is_touched(entries.last()) && !can_be_undone(
                platform,
                entries.last(),
            ) ==> plan.steps.len() == 0
        }),
    decreases entries.len(),
{
    if entries.len() > 0 {
        let rest = entries.drop_last();
        let last = entries.last();
        rollbacks_undo_what_was_touched(platform, rest);
        accepted_paths_stay_below(platform, last.relative_path);
        if let Some(backup) = last.backup {
            accepted_paths_stay_below(platform, backup);
        }
        assert(undo_problem(platform, last) is None <==> can_be_undone(platform, last));
        let plan = undo_plan(platform, entries);
        let before = undo_plan(platform, rest);
        if is_touched(last) && can_be_undone(platform, last) {
            assert(plan.steps.drop_first() =~= before.steps);
        }
        assert forall|i: int| 0 <= i < rest.len() implies #[trigger] rest[i] == entries[i] by {}
        if forall|i: int|
            0 <= i < entries.len() && is_touched(#[trigger] entries[i]) ==> can_be_undone(
                platform,
                entries[i],
            ) {
            assert forall|i: int|
                0 <= i < rest.len() && is_touched(#[trigger] rest[i]) implies can_be_undone(
                platform,
                rest[i],
            ) by {
                assert(rest[i] == entries[i]);
            }
            assert(entries[entries.len() - 1] == last);
        }
        if plan.problem is None {
            assert forall|i: int|
                0 <= i < entries.len() && is_touched(#[trigger] entries[i]) implies can_be_undone(
                platform,
                entries[i],
            ) by {
                if i < rest.len() {
                    assert(rest[i] == entries[i]);
                }
            }
        }
    }
}

/// Of an exported stack, every patch is written with its bytes, in their order, and then the
/// series; and exactly the originals that it no longer has are deleted.
pub proof fn exported_stacks_replace_the_patches(
    platform: Platform,
    original: Seq<Seq<char>>,
    exported: Seq<ExportedPatch>,
    names: Seq<Seq<char>>,
)
    ensures
        ({
            let files = stack_files(exported);
            &&& files.len() == exported.len() + 1
            &&& forall|i: int|
                0 <= i < exported.len() ==> (#[trigger] files[i]).relative_path
                    == exported[i].name@ && files[i].contents == Some(exported[i].bytes@)
            &&& files.last().relative_path == "series"@
            &&& files.last().contents is Some
        }),
        forall|i: int|
            0 <= i < dropped(platform, original, names).len() ==> (#[trigger] dropped(
                platform,
                original,
                names,
            )[i]).contents is None && original.contains(
                dropped(platform, original, names)[i].relative_path,
            ) && !is_named(platform, names, dropped(platform, original, names)[i].relative_path),
        forall|k: int|
            0 <= k < original.len() && !is_named(platform, names, #[trigger] original[k])
                ==> dropped(platform, original, names).contains(
                ReplacementView { relative_path: original[k], contents: None },
            ),
    decreases original.len(),
{
    if original.len() > 0 {
        let rest = original.drop_last();
        let last = original.last();
        exported_stacks_replace_the_patches(platform, rest, exported, names);
        let before = dropped(platform, rest, names);
        let all = dropped(platform, original, names);
        assert(names_path(platform, names, last) == is_named(platform, names, last)) by {
            if names_path(platform, names, last) {
                let i = choose|i: int| 0 <= i < names.len() && parts(
                    platform,
                    #[trigger] names[i],
                ) == parts(platform, last);
                assert(parts(platform, names[i]) == parts(platform, last));
            }
        }
        assert(original[original.len() - 1] == last);
        assert forall|i: int| 0 <= i < all.len() implies (#[trigger] all[i]).contents is None
            && original.contains(all[i].relative_path) && !is_named(
            platform,
            names,
            all[i].relative_path,
        ) by {
            if i < before.len() {
                assert(all[i] == before[i]);
                let k = choose|k: int| 0 <= k < rest.len() && rest[k] == before[i].relative_path;
                assert(original[k] == rest[k]);
            }
        }
        assert forall|k: int|
            0 <= k < original.len() && !is_named(
                platform,
                names,
                #[trigger] original[k],
            ) implies all.contains(
            ReplacementView { relative_path: original[k], contents: None },
        ) by {
            let f = ReplacementView { relative_path: original[k], contents: None };
            if k < rest.len() {
                assert(rest[k] == original[k]);
                let j = choose|j: int| 0 <= j < before.len() && before[j] == f;
                assert(all[j] == f);
            } else {
                assert(all[before.len() as int] == f);
            }
        }
    }
}

/// One of the names leads to the same place.
pub open spec fn is_named(platform: Platform, names: Seq<Seq<char>>, path: Seq<char>) -> bool {
    exists|i: int| 0 <= i < names.len() && parts(platform, #[trigger] names[i]) == parts(
        platform,
        path,
    )
}

} // verus!
