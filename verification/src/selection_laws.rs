//! Which launchers are selected, and what becomes of a system updater, in terms of what was
//! named, found and answered.

use vstd::prelude::*;

use crate::discovery::{owner_word, search_form, CandidateView, Redirectability};
use crate::elevation::{absolute, EntryType};
use crate::paths::{file_name, join_path, parent, parts, Platform};
use crate::selection::{
    candidate_at, chosen, distinct_paths, explicit_problem, explicit_selection, has_path,
    is_protected, normalized, offered, or_unknown, risk_word, with_path, ExplicitSurface,
};
use crate::shim::UpdaterView;
use crate::text::{contains_text, trim};
use crate::updater::{after_disable, after_stop, inspected_unit, restore_commands, UnitCommand};

verus! {

/// One of the paths leads to the same place.
pub open spec fn reaches(platform: Platform, list: Seq<Seq<char>>, path: Seq<char>) -> bool {
    exists|i: int|
        0 <= i < list.len() && parts(platform, #[trigger] list[i]) == parts(platform, path)
}

/// No two of the paths lead to the same place.
pub open spec fn are_distinct(platform: Platform, list: Seq<Seq<char>>) -> bool {
    forall|i: int, j: int|
        #![trigger list[i], list[j]]
        0 <= i < j < list.len() ==> parts(platform, list[i]) != parts(platform, list[j])
}

proof fn lemma_with_path(
    platform: Platform,
    list: Seq<Seq<char>>,
    path: Seq<char>,
    other: Seq<char>,
)
    ensures
        reaches(platform, with_path(platform, list, path), other) <==> reaches(
            platform,
            list,
            other,
        ) || parts(platform, path) == parts(platform, other),
        are_distinct(platform, list) ==> are_distinct(platform, with_path(platform, list, path)),
{
    let after = with_path(platform, list, path);
    assert(has_path(platform, list, path) == reaches(platform, list, path));
    if after != list {
        assert(after == list.push(path));
        assert(after[list.len() as int] == path);
    }
    if reaches(platform, list, other) {
        let i = choose|i: int|
            0 <= i < list.len() && parts(platform, #[trigger] list[i]) == parts(platform, other);
        assert(after[i] == list[i]);
    }
    if reaches(platform, after, other) {
        let i = choose|i: int|
            0 <= i < after.len() && parts(platform, #[trigger] after[i]) == parts(platform, other);
        if i < list.len() {
            assert(list[i] == after[i]);
        }
    }
    if parts(platform, path) == parts(platform, other) && after == list {
        let i = choose|i: int|
            0 <= i < list.len() && parts(platform, #[trigger] list[i]) == parts(platform, path);
        assert(parts(platform, list[i]) == parts(platform, other));
    }
    if are_distinct(platform, list) && after != list {
        assert forall|i: int, j: int|
            #![trigger after[i], after[j]]
            0 <= i < j < after.len() implies parts(platform, after[i]) != parts(
            platform,
            after[j],
        ) by {
            assert(after[i] == list[i]);
            if j < list.len() {
                assert(after[j] == list[j]);
            } else {
                assert(parts(platform, list[i]) != parts(platform, path));
            }
        }
    }
}

/// A path is normalized exactly where it is absolute or can be made so, names a file in a
/// directory, and the links of the directory can be followed. Its last name stays.
pub proof fn normalized_paths_keep_their_name(
    platform: Platform,
    path: Seq<char>,
    cwd: Result<Seq<char>, Seq<char>>,
    there: Result<Seq<char>, Seq<char>>,
)
    ensures
        ({
            let r = normalized(platform, path, cwd, there);
            let full = absolute(platform, path, cwd);
            &&& r is Ok <==> full is Ok && file_name(platform, full->Ok_0) is Some && parent(
                platform,
                full->Ok_0,
            ) is Some && there is Ok
            &&& r is Ok ==> r->Ok_0 == join_path(
                platform,
                there->Ok_0,
                file_name(platform, full->Ok_0)->0,
            )
        }),
{
}

/// One of the paths could be normalized, and leads there.
pub open spec fn is_among(
    platform: Platform,
    list: Seq<Result<String, String>>,
    path: Seq<char>,
) -> bool {
    exists|i: int|
        0 <= i < list.len() && (#[trigger] list[i]) is Ok && parts(platform, list[i]->Ok_0@)
            == parts(platform, path)
}

/// Paths are taken together exactly where each could be normalized. Each place stays once, and
/// no place is lost or added.
pub proof fn places_are_kept_once(
    platform: Platform,
    list: Seq<Result<String, String>>,
    path: Seq<char>,
)
    ensures
        ({
            let r = distinct_paths(platform, list);
            &&& r is Ok <==> forall|i: int| 0 <= i < list.len() ==> (#[trigger] list[i]) is Ok
            &&& r matches Ok(places) ==> are_distinct(platform, places) && (reaches(
                platform,
                places,
                path,
            ) <==> is_among(platform, list, path))
        }),
    decreases list.len(),
{
    if list.len() > 0 {
        let rest = list.drop_last();
        let last = list.last();
        places_are_kept_once(platform, rest, path);
        assert(list[list.len() - 1] == last);
        assert forall|i: int| 0 <= i < rest.len() implies #[trigger] rest[i] == list[i] by {}
        if forall|i: int| 0 <= i < list.len() ==> (#[trigger] list[i]) is Ok {
            assert forall|i: int| 0 <= i < rest.len() implies (#[trigger] rest[i]) is Ok by {
                assert(rest[i] == list[i]);
            }
        }
        let r = distinct_paths(platform, list);
        if r is Ok {
            let before = distinct_paths(platform, rest)->Ok_0;
            lemma_with_path(platform, before, last->Ok_0@, path);
            assert forall|i: int| 0 <= i < list.len() implies (#[trigger] list[i]) is Ok by {
                if i < rest.len() {
                    assert(rest[i] == list[i]);
                }
            }
            if is_among(platform, list, path) {
                let i = choose|i: int|
                    0 <= i < list.len() && (#[trigger] list[i]) is Ok && parts(
                        platform,
                        list[i]->Ok_0@,
                    ) == parts(platform, path);
                if i < rest.len() {
                    assert(rest[i] == list[i]);
                }
            }
            if is_among(platform, rest, path) {
                let i = choose|i: int|
                    0 <= i < rest.len() && (#[trigger] rest[i]) is Ok && parts(
                        platform,
                        rest[i]->Ok_0@,
                    ) == parts(platform, path);
                assert(list[i] == rest[i]);
            }
        }
    }
}

/// The path is inside a signed application.
pub open spec fn is_inside_application(path: Seq<char>) -> bool {
    contains_text(search_form(path), ".app/contents/"@) || contains_text(
        search_form(path),
        "/windowsapps/"@,
    ) || "/windowsapps"@.is_suffix_of(search_form(path))
}

/// The candidate is the first of the list at that place.
pub open spec fn is_first_at(
    platform: Platform,
    list: Seq<CandidateView>,
    path: Seq<char>,
    i: int,
) -> bool {
    0 <= i < list.len() && parts(platform, list[i].raw) == parts(platform, path) && forall|k: int|
        0 <= k < i ==> parts(platform, (#[trigger] list[k]).raw) != parts(platform, path)
}

/// A candidate is looked up by its place, and the first counts.
pub proof fn candidates_are_found_by_place(
    platform: Platform,
    list: Seq<CandidateView>,
    path: Seq<char>,
)
    ensures
        match candidate_at(platform, list, path) {
            Some(c) => exists|i: int| #[trigger]
                is_first_at(platform, list, path, i) && list[i] == c,
            None => forall|i: int|
                0 <= i < list.len() ==> parts(platform, (#[trigger] list[i]).raw) != parts(
                    platform,
                    path,
                ),
        },
    decreases list.len(),
{
    if list.len() > 0 {
        let rest = list.drop_first();
        if parts(platform, list[0].raw) == parts(platform, path) {
            assert(is_first_at(platform, list, path, 0));
        } else {
            candidates_are_found_by_place(platform, rest, path);
            assert forall|i: int| 0 <= i < rest.len() implies #[trigger] rest[i]
                == list[i + 1] by {}
            match candidate_at(platform, list, path) {
                Some(c) => {
                    let i = choose|i: int| #[trigger]
                        is_first_at(platform, rest, path, i) && rest[i] == c;
                    assert forall|k: int| 0 <= k < i + 1 implies parts(
                        platform,
                        (#[trigger] list[k]).raw,
                    ) != parts(platform, path) by {
                        if k > 0 {
                            assert(rest[k - 1] == list[k]);
                        }
                    }
                    assert(is_first_at(platform, list, path, i + 1));
                },
                None => {
                    assert forall|i: int| 0 <= i < list.len() implies parts(
                        platform,
                        (#[trigger] list[i]).raw,
                    ) != parts(platform, path) by {
                        if i > 0 {
                            assert(rest[i - 1] == list[i]);
                        }
                    }
                },
            }
        }
    }
}

/// The named launcher can be taken over: it is a file or a link outside signed applications, is
/// not the manager, and is not known to resist redirection.
pub open spec fn can_be_taken_over(
    platform: Platform,
    e: ExplicitSurface,
    manager: Seq<char>,
    candidates: Seq<CandidateView>,
) -> bool {
    e.path matches Ok(path) && parts(platform, path@) != parts(platform, manager)
        && !is_inside_application(path@) && (e.kind == Ok::<EntryType, String>(EntryType::File)
        || e.kind == Ok::<EntryType, String>(EntryType::Symlink)) && (candidate_at(
        platform,
        candidates,
        path@,
    ) matches Some(c) ==> c.redirectability != Redirectability::NotRedirectable)
}

/// One of the named launchers leads there.
pub open spec fn is_named_surface(
    platform: Platform,
    list: Seq<ExplicitSurface>,
    path: Seq<char>,
) -> bool {
    exists|i: int|
        0 <= i < list.len() && (#[trigger] list[i]).path is Ok && parts(
            platform,
            list[i].path->Ok_0@,
        ) == parts(platform, path)
}

/// Named launchers are selected exactly where every one of them can be taken over. All of them
/// are selected, each once, and nothing else.
pub proof fn named_surfaces_are_selected(
    platform: Platform,
    list: Seq<ExplicitSurface>,
    manager: Seq<char>,
    candidates: Seq<CandidateView>,
    path: Seq<char>,
)
    ensures
        ({
            let r = explicit_selection(platform, list, manager, candidates);
            &&& r is Ok <==> forall|i: int|
                0 <= i < list.len() ==> can_be_taken_over(
                    platform,
                    #[trigger] list[i],
                    manager,
                    candidates,
                )
            &&& r matches Ok(selected) ==> are_distinct(platform, selected) && (reaches(
                platform,
                selected,
                path,
            ) <==> is_named_surface(platform, list, path))
        }),
    decreases list.len(),
{
    if list.len() > 0 {
        let rest = list.drop_last();
        let last = list.last();
        named_surfaces_are_selected(platform, rest, manager, candidates, path);
        assert(list[list.len() - 1] == last);
        assert forall|i: int| 0 <= i < rest.len() implies #[trigger] rest[i] == list[i] by {}
        assert(last.path is Ok ==> (is_protected(last.path->Ok_0@) <==> is_inside_application(
            last.path->Ok_0@,
        )));
        assert(can_be_taken_over(platform, last, manager, candidates) <==> last.path is Ok
            && explicit_problem(
            platform,
            last.path->Ok_0@,
            last.kind,
            manager,
            candidates,
        ) is None);
        if forall|i: int|
            0 <= i < list.len() ==> can_be_taken_over(
                platform,
                #[trigger] list[i],
                manager,
                candidates,
            ) {
            assert forall|i: int| 0 <= i < rest.len() implies can_be_taken_over(
                platform,
                #[trigger] rest[i],
                manager,
                candidates,
            ) by {
                assert(rest[i] == list[i]);
            }
        }
        let r = explicit_selection(platform, list, manager, candidates);
        if r is Ok {
            let before = explicit_selection(platform, rest, manager, candidates)->Ok_0;
            lemma_with_path(platform, before, last.path->Ok_0@, path);
            assert forall|i: int| 0 <= i < list.len() implies can_be_taken_over(
                platform,
                #[trigger] list[i],
                manager,
                candidates,
            ) by {
                if i < rest.len() {
                    assert(rest[i] == list[i]);
                }
            }
            if is_named_surface(platform, list, path) {
                let i = choose|i: int|
                    0 <= i < list.len() && (#[trigger] list[i]).path is Ok && parts(
                        platform,
                        list[i].path->Ok_0@,
                    ) == parts(platform, path);
                if i < rest.len() {
                    assert(rest[i] == list[i]);
                }
            }
            if is_named_surface(platform, rest, path) {
                let i = choose|i: int|
                    0 <= i < rest.len() && (#[trigger] rest[i]).path is Ok && parts(
                        platform,
                        rest[i].path->Ok_0@,
                    ) == parts(platform, path);
                assert(list[i] == rest[i]);
            }
        }
    }
}

/// The offer is that of the candidate: its place, owner, version and risk, selected at first where
/// it is the current one.
pub open spec fn offers(list: Seq<CandidateView>, o: (int, Seq<char>, bool)) -> bool {
    let c = list[o.0];
    0 <= o.0 < list.len() && c.exists && (c.redirectability == Redirectability::Direct
        || c.redirectability == Redirectability::OwnerManaged) && o.1 == c.raw + "  owner="@
        + owner_word(c.owner) + " version="@ + or_unknown(c.version) + " risk="@ + risk_word(c.risk)
        && o.2 == c.current
}

/// Exactly the launchers that are there and can be redirected are offered, in their order.
pub proof fn redirectable_launchers_are_offered(
    list: Seq<CandidateView>,
    o: (int, Seq<char>, bool),
)
    ensures
        offered(list).contains(o) <==> offers(list, o),
        forall|i: int, j: int|
            #![trigger offered(list)[i], offered(list)[j]]
            0 <= i < j < offered(list).len() ==> offered(list)[i].0 < offered(list)[j].0,
        forall|i: int|
            0 <= i < offered(list).len() ==> 0 <= (#[trigger] offered(list)[i]).0 < list.len(),
    decreases list.len(),
{
    if list.len() > 0 {
        let rest = list.drop_last();
        redirectable_launchers_are_offered(rest, o);
        let before = offered(rest);
        let after = offered(list);
        if 0 <= o.0 < rest.len() {
            assert(rest[o.0] == list[o.0]);
        }
        if after != before {
            let new = after.last();
            assert(after == before.push(new));
            assert(after[before.len() as int] == new);
            if before.contains(o) {
                let k = choose|k: int| 0 <= k < before.len() && before[k] == o;
                assert(after[k] == o);
            }
            if after.contains(o) && o != new {
                let k = choose|k: int| 0 <= k < after.len() && after[k] == o;
                assert(before[k] == o);
            }
            assert forall|i: int| 0 <= i < after.len() implies 0 <= (#[trigger] after[i]).0
                < list.len() by {
                if i < before.len() {
                    assert(after[i] == before[i]);
                }
            }
            assert forall|i: int, j: int|
                #![trigger after[i], after[j]]
                0 <= i < j < after.len() implies after[i].0 < after[j].0 by {
                assert(after[i] == before[i]);
                if j < before.len() {
                    assert(after[j] == before[j]);
                }
            }
        }
    }
}

/// The candidate is there, and its place was selected.
pub open spec fn is_chosen(
    platform: Platform,
    list: Seq<CandidateView>,
    paths: Seq<Result<String, String>>,
    selected: Seq<Seq<char>>,
    i: int,
) -> bool {
    0 <= i < list.len() && list[i].exists && paths[i] is Ok && reaches(
        platform,
        selected,
        paths[i]->Ok_0@,
    )
}

/// The selected places stand for exactly the candidates that are there, unless the path of one
/// of them could not be normalized.
pub proof fn selected_places_stand_for_candidates(
    platform: Platform,
    list: Seq<CandidateView>,
    paths: Seq<Result<String, String>>,
    selected: Seq<Seq<char>>,
    i: int,
)
    ensures
        ({
            let r = chosen(platform, list, paths, selected);
            &&& r is Ok <==> forall|k: int|
                0 <= k < list.len() && (#[trigger] list[k]).exists ==> paths[k] is Ok
            &&& r matches Ok(positions) ==> (positions.contains(i) <==> is_chosen(
                platform,
                list,
                paths,
                selected,
                i,
            ))
        }),
    decreases list.len(),
{
    if list.len() > 0 {
        let rest = list.drop_last();
        selected_places_stand_for_candidates(platform, rest, paths, selected, i);
        let n = list.len() - 1;
        assert forall|k: int| 0 <= k < rest.len() implies #[trigger] rest[k] == list[k] by {}
        if forall|k: int| 0 <= k < list.len() && (#[trigger] list[k]).exists ==> paths[k] is Ok {
            assert forall|k: int|
                0 <= k < rest.len() && (#[trigger] rest[k]).exists implies paths[k] is Ok by {
                assert(rest[k] == list[k]);
            }
            assert(list[n].exists ==> paths[n] is Ok);
        }
        let r = chosen(platform, list, paths, selected);
        if let Ok(after) = r {
            let before = chosen(platform, rest, paths, selected)->Ok_0;
            assert forall|k: int|
                0 <= k < list.len() && (#[trigger] list[k]).exists implies paths[k] is Ok by {
                if k < n {
                    assert(rest[k] == list[k]);
                }
            }
            if paths[n] is Ok {
                assert(has_path(platform, selected, paths[n]->Ok_0@) == reaches(
                    platform,
                    selected,
                    paths[n]->Ok_0@,
                ));
            }
            if after != before {
                assert(after == before.push(n));
                assert(after[before.len() as int] == n);
                if before.contains(i) {
                    let k = choose|k: int| 0 <= k < before.len() && before[k] == i;
                    assert(after[k] == i);
                }
                if after.contains(i) && i != n {
                    let k = choose|k: int| 0 <= k < after.len() && after[k] == i;
                    assert(before[k] == i);
                }
            }
        }
    }
}

/// What was answered about a unit, without the white space around it.
pub open spec fn answer(o: Option<Seq<char>>) -> Seq<char> {
    match o {
        Some(text) => trim(text),
        None => "unknown"@,
    }
}

/// A unit that is loaded is recorded as it was found. It is to be stopped where it is running
/// and to be disabled where it is enabled, and nothing has been done to it yet.
pub proof fn loaded_updaters_are_recorded(
    load: Option<Seq<char>>,
    enabled: Option<Seq<char>>,
    active: Option<Seq<char>>,
)
    ensures
        ({
            let r = inspected_unit(load, enabled, active);
            &&& r is Some <==> (load matches Some(text) && trim(text).len() > 0 && trim(text)
                != "not-found"@)
            &&& r matches Some(u) ==> {
                &&& u.unit == "codex-update-manager.service"@
                &&& u.load_state == trim(load->0)
                &&& u.enabled_state == answer(enabled)
                &&& u.active_state == answer(active)
                &&& u.stop_intended <==> answer(active) == "active"@ || answer(active)
                    == "activating"@
                &&& u.disable_intended <==> answer(enabled) == "enabled"@ || answer(enabled)
                    == "enabled-runtime"@
                &&& !u.stopped_by_patcher && !u.disabled_by_patcher
                &&& u.notes.len() > 0 <==> answer(enabled) == "linked"@ || answer(enabled)
                    == "linked-runtime"@
            }
        }),
{
}

/// What is known of a unit once it was to be stopped and disabled: what went well is marked as
/// the patcher's doing, what failed leaves a note, and what was not intended is not touched.
pub proof fn switched_off_updaters_are_marked(
    u: UpdaterView,
    stopped: Result<(), Seq<char>>,
    disabled: Result<(), Seq<char>>,
)
    ensures
        ({
            let t = after_disable(after_stop(u, stopped), disabled);
            let stops = u.stop_intended && !u.stopped_by_patcher;
            let disables = u.disable_intended && !u.disabled_by_patcher;
            &&& t.unit == u.unit && t.load_state == u.load_state && t.enabled_state
                == u.enabled_state && t.active_state == u.active_state
            &&& t.stop_intended == u.stop_intended && t.disable_intended == u.disable_intended
            &&& t.stopped_by_patcher <==> u.stopped_by_patcher || (u.stop_intended && stopped is Ok)
            &&& t.disabled_by_patcher <==> u.disabled_by_patcher || (u.disable_intended && disabled
                is Ok)
            &&& (stops ==> stopped is Ok) && (disables ==> disabled is Ok) ==> t.notes == u.notes
            &&& stops ==> (stopped matches Err(why) ==> t.notes.contains(
                "could not stop updater: "@ + why,
            ))
            &&& disables ==> (disabled matches Err(why) ==> t.notes.contains(
                "could not disable updater: "@ + why,
            ))
        }),
{
    let a = after_stop(u, stopped);
    let t = after_disable(a, disabled);
    if let Err(why) = stopped {
        lemma_note(u.notes, "could not stop updater: "@ + why);
        if let Err(other) = disabled {
            let note = "could not stop updater: "@ + why;
            lemma_note_kept(a.notes, "could not disable updater: "@ + other, note);
        }
    }
    if let Err(why) = disabled {
        lemma_note(a.notes, "could not disable updater: "@ + why);
    }
}

proof fn lemma_note(notes: Seq<Seq<char>>, note: Seq<char>)
    ensures
        crate::updater::with_note(notes, note).contains(note),
{
    let after = crate::updater::with_note(notes, note);
    if !notes.contains(note) {
        assert(after[notes.len() as int] == note);
    }
}

proof fn lemma_note_kept(notes: Seq<Seq<char>>, note: Seq<char>, other: Seq<char>)
    ensures
        notes.contains(other) ==> crate::updater::with_note(notes, note).contains(other),
{
    let after = crate::updater::with_note(notes, note);
    if notes.contains(other) {
        let k = choose|k: int| 0 <= k < notes.len() && notes[k] == other;
        assert(after[k] == other);
    }
}

/// How a unit is switched on again: it is enabled as it was where it was to be disabled, and
/// then started where it was running and was to be stopped. A unit that is unknown or gone is
/// an error, and so is a way of being enabled that cannot be brought back.
pub proof fn updaters_are_switched_on_again(u: UpdaterView, exists: bool)
    ensures
        ({
            let r = restore_commands(u, exists);
            let known = u.unit == "codex-update-manager.service"@ && exists;
            let enables = u.disabled_by_patcher || u.disable_intended;
            let starts = (u.stopped_by_patcher || u.stop_intended) && (u.active_state == "active"@
                || u.active_state == "activating"@);
            &&& r is Ok <==> known && (enables ==> u.enabled_state == "enabled"@ || u.enabled_state
                == "enabled-runtime"@)
            &&& r matches Ok(commands) ==> {
                &&& commands.len() == (if enables {
                    1int
                } else {
                    0int
                }) + (if starts {
                    1int
                } else {
                    0int
                })
                &&& starts ==> commands.last() == UnitCommand::Start
                &&& enables ==> (commands[0] == UnitCommand::Enable <==> u.enabled_state
                    == "enabled"@)
                &&& enables ==> (commands[0] == UnitCommand::EnableRuntime <==> u.enabled_state
                    == "enabled-runtime"@)
            }
        }),
{
    reveal_strlit("enabled");
    reveal_strlit("enabled-runtime");
    assert("enabled"@.len() == 7 && "enabled-runtime"@.len() == 15);
}

} // verus!
