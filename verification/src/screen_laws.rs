//! What the screens show and what the keys choose.

use vstd::prelude::*;

use crate::text::is_control;
use crate::tui::{
    failure_answer, failure_choice, failure_menu, failure_screen_lines, menu_line, menu_step,
    progress_screen_lines, sanitized, transition_text, update_answer, update_choice,
    update_screen_lines, FailureChoice, FailureScreenView, Key, KeyPress, MenuChoice,
    ProgressScreenView, Tone, UpdateChoice, UpdateScreenView,
};

verus! {

/// The key leaves the menu: escape, or an interrupt.
pub open spec fn is_exit(press: KeyPress) -> bool {
    !press.released && (press.key == Key::Escape || (press.control && (press.key == Key::Char('c')
        || press.key == Key::Char('d'))))
}

/// The key moves up.
pub open spec fn is_up(press: KeyPress) -> bool {
    !press.released && !is_exit(press) && (press.key == Key::Up || press.key == Key::Char('k'))
}

/// The key moves down.
pub open spec fn is_down(press: KeyPress) -> bool {
    !press.released && !is_exit(press) && (press.key == Key::Down || press.key == Key::Char('j'))
}

/// The key is the number of an entry of the menu.
pub open spec fn is_number_of(press: KeyPress, n: int, count: int) -> bool {
    !press.released && !is_exit(press) && 1 <= n <= 9 && n <= count && (press.key matches Key::Char(
        c,
    ) && c as int == '0' as int + n)
}

/// Keys move within the menu, and round its ends. The return key chooses what is selected, a
/// number chooses its entry, and escape leaves. No other key does anything, and a key that is
/// let go never does.
pub proof fn keys_move_choose_and_leave(selected: int, count: int, press: KeyPress, n: int)
    requires
        0 <= selected < count <= 9,
    ensures
        ({
            let (after, choice) = menu_step(selected, count, press);
            let enters = !press.released && !is_exit(press) && press.key == Key::Enter;
            &&& choice == Some(MenuChoice::Exit) <==> is_exit(press)
            &&& enters ==> choice == Some(MenuChoice::Select(selected as usize))
            &&& is_number_of(press, n, count) ==> choice == Some(
                MenuChoice::Select((n - 1) as usize),
            )
            &&& choice matches Some(MenuChoice::Select(chosen)) ==> (enters && chosen == selected)
                || is_number_of(press, chosen + 1, count)
            &&& is_up(press) ==> choice is None && after == (if selected == 0 {
                count - 1
            } else {
                selected - 1
            })
            &&& is_down(press) ==> choice is None && after == (if selected == count - 1 {
                0
            } else {
                selected + 1
            })
            &&& !is_up(press) && !is_down(press) ==> after == selected
        }),
{
    if selected > 0 {
        assert((selected + count - 1) % count == selected - 1) by (nonlinear_arith)
            requires
                0 < selected < count,
        ;
    } else {
        assert((count - 1) % count == count - 1) by (nonlinear_arith)
            requires
                0 < count,
        ;
    }
    if selected == count - 1 {
        assert(count % count == 0) by (nonlinear_arith)
            requires
                0 < count,
        ;
    } else {
        assert((selected + 1) % count == selected + 1) by (nonlinear_arith)
            requires
                0 <= selected < count - 1,
        ;
    }
}

/// The first entry of the update menu builds and every other way out leaves. The first entry of
/// the failure menu repairs, where it is there.
pub proof fn choices_mean_what_they_say(choice: Option<MenuChoice>, count: int)
    ensures
        update_choice(choice) is None <==> choice is None,
        update_choice(choice) == Some(UpdateChoice::Build) <==> choice == Some(
            MenuChoice::Select(0),
        ),
        failure_choice(choice, count) is None <==> choice is None,
        failure_choice(choice, count) == Some(FailureChoice::Repair) <==> choice == Some(
            MenuChoice::Select(0),
        ) && count == 2,
{
}

/// The press can choose the first entry: the return key, or its number.
pub open spec fn may_choose_first(press: KeyPress) -> bool {
    !press.released && (press.key == Key::Enter || press.key == Key::Char('1'))
}

/// An update is built only by the return key or the number of its entry, and the first key that
/// leaves, before any that chooses, leaves for good.
pub proof fn updates_are_built_on_request(selected: int, presses: Seq<KeyPress>, i: int)
    requires
        0 <= selected < 2,
        0 <= i <= presses.len(),
    ensures
        update_answer(selected, presses, i) == Some(UpdateChoice::Build) ==> exists|k: int|
            i <= k < presses.len() && may_choose_first(#[trigger] presses[k]),
        i < presses.len() && is_exit(presses[i]) ==> update_answer(selected, presses, i) == Some(
            UpdateChoice::Exit,
        ),
        i < presses.len() && !is_exit(presses[i]) && !presses[i].released && presses[i].key
            == Key::Enter ==> update_answer(selected, presses, i) == Some(
            if selected == 0 {
                UpdateChoice::Build
            } else {
                UpdateChoice::Exit
            },
        ),
        i < presses.len() && presses[i].released ==> update_answer(selected, presses, i)
            == update_answer(selected, presses, i + 1),
        i == presses.len() ==> update_answer(selected, presses, i) is None,
    decreases presses.len() - i,
{
    if i < presses.len() {
        let press = presses[i];
        keys_move_choose_and_leave(selected, 2, press, 1);
        let (after, choice) = menu_step(selected, 2, press);
        updates_are_built_on_request(after, presses, i + 1);
        if choice == Some(MenuChoice::Select(0)) {
            assert(may_choose_first(presses[i]));
        }
        if choice is None && update_answer(after, presses, i + 1) == Some(UpdateChoice::Build) {
            let k = choose|k: int|
                i + 1 <= k < presses.len() && may_choose_first(#[trigger] presses[k]);
            assert(may_choose_first(presses[k]));
        }
    }
}

/// A failure is repaired only by the return key or the number of its entry, and only where the
/// entry is there. The first key that leaves, before any that chooses, leaves for good.
pub proof fn failures_are_repaired_on_request(
    selected: int,
    count: int,
    presses: Seq<KeyPress>,
    i: int,
)
    requires
        0 <= selected < count <= 2,
        0 <= i <= presses.len(),
    ensures
        failure_answer(selected, count, presses, i) == Some(FailureChoice::Repair) ==> count == 2
            && exists|k: int| i <= k < presses.len() && may_choose_first(#[trigger] presses[k]),
        i < presses.len() && is_exit(presses[i]) ==> failure_answer(selected, count, presses, i)
            == Some(FailureChoice::Exit),
        i < presses.len() && !is_exit(presses[i]) && !presses[i].released && presses[i].key
            == Key::Enter ==> failure_answer(selected, count, presses, i) == Some(
            if selected == 0 && count == 2 {
                FailureChoice::Repair
            } else {
                FailureChoice::Exit
            },
        ),
        i < presses.len() && presses[i].released ==> failure_answer(selected, count, presses, i)
            == failure_answer(selected, count, presses, i + 1),
        i == presses.len() ==> failure_answer(selected, count, presses, i) is None,
    decreases presses.len() - i,
{
    if i < presses.len() {
        let press = presses[i];
        keys_move_choose_and_leave(selected, count, press, 1);
        let (after, choice) = menu_step(selected, count, press);
        failures_are_repaired_on_request(after, count, presses, i + 1);
        if choice == Some(MenuChoice::Select(0)) {
            assert(may_choose_first(presses[i]));
        }
        if choice is None && failure_answer(after, count, presses, i + 1) == Some(
            FailureChoice::Repair,
        ) {
            let k = choose|k: int|
                i + 1 <= k < presses.len() && may_choose_first(#[trigger] presses[k]);
            assert(may_choose_first(presses[k]));
        }
    }
}

/// What is shown of a text has a character for each of its own, the same one unless it is a
/// control.
pub proof fn texts_are_shown_without_controls(s: Seq<char>, i: int)
    requires
        0 <= i < s.len(),
    ensures
        sanitized(s).len() == s.len(),
        !is_control(s[i]) ==> sanitized(s)[i] == s[i],
        is_control(s[i]) ==> sanitized(s)[i] == ' ',
{
}

/// An entry of a menu shows its number and its label behind the marker where it is selected, and
/// behind a space otherwise.
pub proof fn entries_show_whether_they_are_selected(
    ascii: bool,
    number: nat,
    label: Seq<char>,
)
    ensures
        menu_line(ascii, number, label, true).len() == 2,
        menu_line(ascii, number, label, true)[0].1 == Tone::Accent,
        menu_line(ascii, number, label, false).len() == 1,
        menu_line(ascii, number, label, false)[0].0 == " "@ + menu_line(
            ascii,
            number,
            label,
            true,
        )[1].0,
        menu_line(ascii, number, label, true)[1].0 == " "@ + crate::text::decimal(number) + ". "@
            + label,
{
}

/// The update prompt says what would change and where to read about it, and offers to build or
/// to leave, with the selected entry marked.
pub proof fn update_prompts_offer_the_build(s: UpdateScreenView, selected: nat, ascii: bool)
    ensures
        ({
            let lines = update_screen_lines(s, selected, ascii);
            &&& lines.len() == 9
            &&& lines[1].last().0 == transition_text(s)
            &&& s.release_url matches Some(url) ==> lines[3].last().0 == sanitized(url)
            &&& s.release_url is None ==> lines[3].last().0
                == "https://github.com/openai/codex/releases"@
            &&& lines[5] == menu_line(ascii, 1, "Build patched update now"@, selected == 0)
            &&& lines[6] == menu_line(ascii, 2, "Exit"@, selected == 1)
        }),
{
}

/// What changes is shown by the two versions, and by the two fingerprints exactly where both are
/// known and differ.
pub proof fn changes_show_versions_and_patches(s: UpdateScreenView)
    ensures
        ({
            let versions = sanitized(s.current_version) + " -> "@ + sanitized(s.desired_version);
            let t = transition_text(s);
            let patched = s.current_patch_fingerprint is Some && s.desired_patch_fingerprint is Some
                && s.current_patch_fingerprint != s.desired_patch_fingerprint;
            &&& !patched ==> t == versions
            &&& patched ==> t.len() > versions.len() && versions.is_prefix_of(t)
        }),
{
    let versions = sanitized(s.current_version) + " -> "@ + sanitized(s.desired_version);
    let t = transition_text(s);
    assert(versions.take(versions.len() as int) =~= versions);
    reveal_strlit("  patches ");
    reveal_strlit(" -> ");
    if s.current_patch_fingerprint is Some && s.desired_patch_fingerprint is Some
        && s.current_patch_fingerprint != s.desired_patch_fingerprint {
        assert(t.take(versions.len() as int) =~= versions);
    }
}

/// The failure prompt says what failed, in which phase and where the log is. It offers a repair
/// exactly where there is something to repair with, and always a way out.
pub proof fn failure_prompts_offer_the_repair(s: FailureScreenView, selected: nat, ascii: bool)
    ensures
        ({
            let lines = failure_screen_lines(s, selected, ascii);
            let menu = failure_menu(s, selected, ascii);
            let n = lines.len() - menu.len();
            &&& menu.is_suffix_of(lines)
            &&& s.last_good_version matches Some(version) ==> menu.len() == 2 && menu[0]
                == menu_line(
                ascii,
                1,
                "Repair with last-good Codex "@ + sanitized(version),
                selected == 0,
            ) && menu[1] == menu_line(ascii, 2, "Exit"@, selected == 1)
            &&& s.last_good_version is None ==> menu.len() == 1 && menu[0] == menu_line(
                ascii,
                1,
                "Exit"@,
                true,
            )
            &&& lines[1].last().0 == sanitized(s.current_version) + " -> "@ + sanitized(
                s.desired_version,
            )
            &&& lines[3][0].0 == "  Phase: "@ + sanitized(s.phase)
            &&& lines[n - 3][0].0 == "  "@ + sanitized(s.summary)
            &&& lines[n - 2].last().0 == sanitized(s.log_path)
            &&& s.failed_patch is Some <==> n == 8
            &&& s.failed_patch is None <==> n == 7
        }),
{
    let lines = failure_screen_lines(s, selected, ascii);
    let menu = failure_menu(s, selected, ascii);
    assert(lines.subrange(lines.len() - menu.len(), lines.len() as int) =~= menu);
}

/// The progress screen says what is built and in which phase, and the latest line and the log
/// where they are known.
pub proof fn progress_shows_the_phase(s: ProgressScreenView, ascii: bool)
    ensures
        ({
            let lines = progress_screen_lines(s, ascii);
            &&& lines[1].last().0 == sanitized(s.current_version) + " -> "@ + sanitized(
                s.desired_version,
            )
            &&& lines[3].last().0 == sanitized(s.phase)
            &&& s.latest_line matches Some(text) ==> lines[4][0].0 == "  "@ + sanitized(text)
            &&& s.log_path matches Some(path) ==> lines.last().last().0 == sanitized(path)
            &&& s.latest_line is None && s.log_path is None ==> lines.len() == 4
        }),
{
}

} // verus!
