//! Installing, repairing and removing the patcher, and clearing what it no longer needs.

use vstd::prelude::*;

use crate::elevation::HELPER_COMMAND;
use crate::journal::as_result;
use crate::paths::{is_below, path_is_below, stem, stem_of, Platform};
use crate::shim::{records_view, RecordView, SurfaceRecord, UpdaterAdapterRecord, UpdaterView};
use crate::state::{
    index_of_id, recover_restores, updaters_view, without_restored, InstallState, StateView,
};
use crate::surface::{validate_surface_launcher_type, windows_form};
use crate::text::{
    ascii_lower, chars_of, ends_with, is_digit, is_digit_char, join, join_texts, lines, lines_of,
    opt_text, result_unit, same, starts_with, texts, to_ascii_lower,
};

verus! {

/// What a command line asks the manager's binary to be.
#[derive(Debug, Clone, Copy, PartialEq, Eq, Structural)]
pub enum Role {
    /// The privileged helper.
    Helper,
    /// The dispatcher of a Codex launch, whose own arguments start here.
    Dispatcher(usize),
    /// The management command.
    Manager,
}

/// A name under which the binary stands in for Codex.
pub open spec fn named_codex(platform: Platform, argument: Seq<char>) -> bool {
    match stem(platform, argument) {
        Some(name) => ascii_lower(name) == "codex"@,
        None => false,
    }
}

pub open spec fn role_of(platform: Platform, words: Seq<Seq<char>>) -> Role {
    if words.len() > 1 && words[1] == HELPER_COMMAND@ {
        Role::Helper
    } else if words.len() > 1 && words[1] == "__dispatch"@ {
        Role::Dispatcher(2)
    } else if words.len() > 0 && named_codex(platform, words[0]) {
        Role::Dispatcher(1)
    } else {
        Role::Manager
    }
}

pub fn invoked_as_codex(platform: Platform, argument: &str) -> (r: bool)
    ensures
        r == named_codex(platform, argument@),
{
    match stem_of(platform, argument) {
        Some(name) => same(to_ascii_lower(name.as_str()).as_str(), "codex"),
        None => false,
    }
}

pub fn role(platform: Platform, arguments: &Vec<String>) -> (r: Role)
    ensures
        r == role_of(platform, texts(arguments@)),
{
    let ghost words = texts(arguments@);
    if arguments.len() > 1 {
        proof {
            assert(words[1] == arguments@[1]@);
        }
        if same(arguments[1].as_str(), HELPER_COMMAND) {
            return Role::Helper;
        }
        if same(arguments[1].as_str(), "__dispatch") {
            return Role::Dispatcher(2);
        }
    }
    if arguments.len() > 0 {
        proof {
            assert(words[0] == arguments@[0]@);
        }
        if invoked_as_codex(platform, arguments[0].as_str()) {
            return Role::Dispatcher(1);
        }
    }
    Role::Manager
}

/// How the takeover of one launcher went, as far as it has come.
#[derive(Debug)]
pub struct RedirectFacts {
    pub installed: Result<(), String>,
    pub recorded: Option<Result<(), String>>,
    pub finalized: Option<Result<(), String>>,
}

/// How an installation went, as far as it has come.
#[derive(Debug)]
pub struct SetupFacts {
    /// There is an installation already.
    pub installed: bool,
    /// The patch directory with its links followed.
    pub patch_dir: Result<String, String>,
    pub config: Result<(), String>,
    pub patches: Result<(), String>,
    pub selected: Result<Vec<String>, String>,
    /// Whether there is a system updater to switch off.
    pub updater: Result<bool, String>,
    /// No questions are asked.
    pub yes: bool,
    pub confirmed: Option<Result<bool, String>>,
    pub manager_copied: Option<Result<(), String>>,
    pub state_saved: Option<Result<(), String>>,
    pub built: Option<Result<(), String>>,
    pub updater_recorded: Option<Result<(), String>>,
    pub updater_disabled: Option<Result<(), String>>,
    pub updater_completed: Option<Result<(), String>>,
    pub redirects: Vec<RedirectFacts>,
}

/// What an installation does next.
#[derive(Debug)]
pub enum SetupStep {
    Confirm,
    CopyManager,
    SaveState,
    /// Build and validate the first generation.
    Build,
    RecordUpdater,
    DisableUpdater,
    CompleteUpdater,
    /// Take the launcher at this position over.
    Redirect(usize),
    RecordRedirect(usize),
    FinalizeRedirect(usize),
    Done,
    /// Nothing has been changed: stop.
    Fail { message: String },
    /// Undo everything, first the launcher at `undo` whose ownership is not recorded.
    RollBack { message: String, undo: Option<usize> },
}

pub enum SetupStepView {
    Confirm,
    CopyManager,
    SaveState,
    Build,
    RecordUpdater,
    DisableUpdater,
    CompleteUpdater,
    Redirect(int),
    RecordRedirect(int),
    FinalizeRedirect(int),
    Done,
    Fail { message: Seq<char> },
    RollBack { message: Seq<char>, undo: Option<int> },
}

impl View for SetupStep {
    type V = SetupStepView;

    open spec fn view(&self) -> SetupStepView {
        match self {
            SetupStep::Confirm => SetupStepView::Confirm,
            SetupStep::CopyManager => SetupStepView::CopyManager,
            SetupStep::SaveState => SetupStepView::SaveState,
            SetupStep::Build => SetupStepView::Build,
            SetupStep::RecordUpdater => SetupStepView::RecordUpdater,
            SetupStep::DisableUpdater => SetupStepView::DisableUpdater,
            SetupStep::CompleteUpdater => SetupStepView::CompleteUpdater,
            SetupStep::Redirect(i) => SetupStepView::Redirect(*i as int),
            SetupStep::RecordRedirect(i) => SetupStepView::RecordRedirect(*i as int),
            SetupStep::FinalizeRedirect(i) => SetupStepView::FinalizeRedirect(*i as int),
            SetupStep::Done => SetupStepView::Done,
            SetupStep::Fail { message } => SetupStepView::Fail { message: message@ },
            SetupStep::RollBack { message, undo } => SetupStepView::RollBack {
                message: message@,
                undo: match undo {
                    Some(i) => Some(*i as int),
                    None => None,
                },
            },
        }
    }
}

/// The first launcher whose type cannot be redirected.
pub open spec fn launcher_problem(selected: Seq<Seq<char>>, platform: Platform) -> Option<Seq<char>>
    decreases selected.len(),
{
    if selected.len() == 0 {
        None
    } else if platform is Windows && windows_form(selected[0]) is Err {
        Some(windows_form(selected[0])->Err_0)
    } else {
        launcher_problem(selected.drop_first(), platform)
    }
}

/// What forbids an installation before anything is asked or changed.
pub open spec fn setup_problem(given: Seq<char>, facts: SetupFacts, platform: Platform) -> Option<
    Seq<char>,
> {
    if facts.installed {
        Some("codex-patcher is already installed; uninstall it before changing patch roots"@)
    } else if facts.patch_dir is Err {
        Some(
            "canonicalizing patch directory "@ + given + ": "@ + facts.patch_dir->Err_0@,
        )
    } else if facts.config is Err {
        Some(facts.config->Err_0@)
    } else if facts.patches is Err {
        Some(facts.patches->Err_0@)
    } else {
        match facts.selected {
            Err(message) => Some(message@),
            Ok(selected) => if selected@.len() == 0 {
                Some("no redirectable Codex surfaces were selected"@)
            } else if launcher_problem(texts(selected@), platform) is Some {
                launcher_problem(texts(selected@), platform)
            } else if facts.updater is Err {
                Some(facts.updater->Err_0@)
            } else {
                None
            },
        }
    }
}

pub open spec fn roll_back(context: Seq<char>, message: String) -> SetupStepView {
    SetupStepView::RollBack { message: context + ": "@ + message@, undo: None }
}

/// The next step of taking over the launchers, from the one at `i` on.
pub open spec fn redirect_step(
    selected: Seq<Seq<char>>,
    redirects: Seq<RedirectFacts>,
    i: int,
) -> SetupStepView
    decreases selected.len() - i,
{
    if i >= selected.len() {
        SetupStepView::Done
    } else if i >= redirects.len() {
        SetupStepView::Redirect(i)
    } else {
        let facts = redirects[i];
        match facts.installed {
            Err(message) => roll_back("redirecting "@ + selected[i], message),
            Ok(_) => match facts.recorded {
                None => SetupStepView::RecordRedirect(i),
                Some(Err(message)) => SetupStepView::RollBack {
                    message: "recording launcher takeover: "@ + message@,
                    undo: Some(i),
                },
                Some(Ok(_)) => match facts.finalized {
                    None => SetupStepView::FinalizeRedirect(i),
                    Some(Err(message)) => roll_back(
                        "finalizing launcher takeover journal"@,
                        message,
                    ),
                    Some(Ok(_)) => redirect_step(selected, redirects, i + 1),
                },
            },
        }
    }
}

/// The next step of switching off the system updater, and then of the takeovers.
pub open spec fn updater_step(selected: Seq<Seq<char>>, facts: SetupFacts) -> SetupStepView {
    if facts.updater == Ok::<bool, String>(false) {
        redirect_step(selected, facts.redirects@, 0)
    } else {
        match facts.updater_recorded {
            None => SetupStepView::RecordUpdater,
            Some(Err(message)) => roll_back("recording updater takeover intent"@, message),
            Some(Ok(_)) => match facts.updater_disabled {
                None => SetupStepView::DisableUpdater,
                Some(Err(message)) => roll_back("disabling the existing Codex updater"@, message),
                Some(Ok(_)) => match facts.updater_completed {
                    None => SetupStepView::CompleteUpdater,
                    Some(Err(message)) => roll_back(
                        "recording completed updater takeover"@,
                        message,
                    ),
                    Some(Ok(_)) => redirect_step(selected, facts.redirects@, 0),
                },
            },
        }
    }
}

/// The next step of an installation.
pub open spec fn next_setup(
    given: Seq<char>,
    facts: SetupFacts,
    platform: Platform,
) -> SetupStepView {
    if setup_problem(given, facts, platform) is Some {
        SetupStepView::Fail { message: setup_problem(given, facts, platform)->0 }
    } else if !facts.yes && facts.confirmed is None {
        SetupStepView::Confirm
    } else if !facts.yes && facts.confirmed->0 is Err {
        SetupStepView::Fail { message: facts.confirmed->0->Err_0@ }
    } else if !facts.yes && facts.confirmed->0 == Ok::<bool, String>(false) {
        SetupStepView::Fail { message: "installation cancelled"@ }
    } else {
        match facts.manager_copied {
            None => SetupStepView::CopyManager,
            Some(Err(message)) => SetupStepView::Fail { message: message@ },
            Some(Ok(_)) => match facts.state_saved {
                None => SetupStepView::SaveState,
                Some(Err(message)) => SetupStepView::Fail { message: message@ },
                Some(Ok(_)) => match facts.built {
                    None => SetupStepView::Build,
                    Some(Err(message)) => roll_back(
                        "building the initial patched generation"@,
                        message,
                    ),
                    Some(Ok(_)) => updater_step(texts(facts.selected->Ok_0@), facts),
                },
            },
        }
    }
}

fn check_launchers(selected: &Vec<String>, platform: Platform) -> (r: Option<String>)
    ensures
        opt_text(r) == launcher_problem(texts(selected@), platform),
{
    let ghost all = texts(selected@);
    let mut i: usize = 0;
    proof {
        assert(all.skip(0) =~= all);
    }
    while i < selected.len()
        invariant
            i <= selected@.len(),
            all == texts(selected@),
            launcher_problem(all, platform) == launcher_problem(all.skip(i as int), platform),
        decreases selected@.len() - i,
    {
        proof {
            assert(all.skip(i as int)[0] == selected@[i as int]@);
            assert(all.skip(i as int).drop_first() =~= all.skip(i as int + 1));
        }
        if let Err(message) = validate_surface_launcher_type(selected[i].as_str(), platform) {
            return Some(message);
        }
        i = i + 1;
    }
    None
}

fn check_setup(given: &str, facts: &SetupFacts, platform: Platform) -> (r: Option<String>)
    ensures
        opt_text(r) == setup_problem(given@, *facts, platform),
{
    if facts.installed {
        return Some(
            "codex-patcher is already installed; uninstall it before changing patch roots".to_owned(),
        );
    }
    if let Err(inner) = &facts.patch_dir {
        let mut message = "canonicalizing patch directory ".to_owned();
        message.append(given);
        message.append(": ");
        message.append(inner.as_str());
        return Some(message);
    }
    if let Err(message) = &facts.config {
        return Some(message.clone());
    }
    if let Err(message) = &facts.patches {
        return Some(message.clone());
    }
    match &facts.selected {
        Err(message) => Some(message.clone()),
        Ok(selected) => {
            if selected.len() == 0 {
                return Some("no redirectable Codex surfaces were selected".to_owned());
            }
            if let Some(message) = check_launchers(selected, platform) {
                return Some(message);
            }
            if let Err(message) = &facts.updater {
                return Some(message.clone());
            }
            None
        },
    }
}

fn undo_all(context: &str, inner: &String) -> (r: SetupStep)
    ensures
        r@ == roll_back(context@, *inner),
{
    let mut message = context.to_owned();
    message.append(": ");
    message.append(inner.as_str());
    SetupStep::RollBack { message, undo: None }
}

fn next_redirect(selected: &Vec<String>, redirects: &Vec<RedirectFacts>) -> (r: SetupStep)
    ensures
        r@ == redirect_step(texts(selected@), redirects@, 0),
{
    let ghost all = texts(selected@);
    let mut i: usize = 0;
    while i < selected.len()
        invariant
            i <= selected@.len(),
            all == texts(selected@),
            redirect_step(all, redirects@, 0) == redirect_step(all, redirects@, i as int),
        decreases selected@.len() - i,
    {
        if i >= redirects.len() {
            return SetupStep::Redirect(i);
        }
        let facts = &redirects[i];
        if let Err(message) = &facts.installed {
            let mut context = "redirecting ".to_owned();
            context.append(selected[i].as_str());
            return undo_all(context.as_str(), message);
        }
        match &facts.recorded {
            None => return SetupStep::RecordRedirect(i),
            Some(Err(inner)) => {
                let mut message = "recording launcher takeover: ".to_owned();
                message.append(inner.as_str());
                return SetupStep::RollBack { message, undo: Some(i) };
            },
            Some(Ok(())) => {},
        }
        match &facts.finalized {
            None => return SetupStep::FinalizeRedirect(i),
            Some(Err(message)) => return undo_all(
                "finalizing launcher takeover journal",
                message,
            ),
            Some(Ok(())) => {},
        }
        i = i + 1;
    }
    SetupStep::Done
}

fn next_updater(selected: &Vec<String>, facts: &SetupFacts, has_updater: bool) -> (r: SetupStep)
    requires
        facts.updater == Ok::<bool, String>(has_updater),
    ensures
        r@ == updater_step(texts(selected@), *facts),
{
    if !has_updater {
        return next_redirect(selected, &facts.redirects);
    }
    match &facts.updater_recorded {
        None => return SetupStep::RecordUpdater,
        Some(Err(message)) => return undo_all("recording updater takeover intent", message),
        Some(Ok(())) => {},
    }
    match &facts.updater_disabled {
        None => return SetupStep::DisableUpdater,
        Some(Err(message)) => return undo_all("disabling the existing Codex updater", message),
        Some(Ok(())) => {},
    }
    match &facts.updater_completed {
        None => return SetupStep::CompleteUpdater,
        Some(Err(message)) => return undo_all("recording completed updater takeover", message),
        Some(Ok(())) => {},
    }
    next_redirect(selected, &facts.redirects)
}

/// What an installation does next. `given` is the patch directory as the user wrote it.
pub fn next_setup_step(given: &str, facts: &SetupFacts, platform: Platform) -> (r: SetupStep)
    ensures
        r@ == next_setup(given@, *facts, platform),
{
    if let Some(message) = check_setup(given, facts, platform) {
        return SetupStep::Fail { message };
    }
    if !facts.yes {
        match &facts.confirmed {
            None => return SetupStep::Confirm,
            Some(Err(message)) => return SetupStep::Fail { message: message.clone() },
            Some(Ok(yes)) => {
                if !*yes {
                    return SetupStep::Fail { message: "installation cancelled".to_owned() };
                }
            },
        }
    }
    match &facts.manager_copied {
        None => return SetupStep::CopyManager,
        Some(Err(message)) => return SetupStep::Fail { message: message.clone() },
        Some(Ok(())) => {},
    }
    match &facts.state_saved {
        None => return SetupStep::SaveState,
        Some(Err(message)) => return SetupStep::Fail { message: message.clone() },
        Some(Ok(())) => {},
    }
    match &facts.built {
        None => return SetupStep::Build,
        Some(Err(message)) => return undo_all("building the initial patched generation", message),
        Some(Ok(())) => {},
    }
    match (&facts.selected, &facts.updater) {
        (Ok(selected), Ok(has_updater)) => next_updater(selected, facts, *has_updater),
        _ => SetupStep::Done,
    }
}

/// What is said of an installation that was rolled back: what the rollback could not undo
/// comes first.
pub open spec fn rollback_text(errors: Seq<Seq<char>>) -> Seq<char> {
    "installation failed and rollback was incomplete; retained state for `codex-patcher uninstall --yes`: "@
        + join(errors, "; "@)
}

pub fn rollback_result(errors: &Vec<String>) -> (r: Result<(), String>)
    ensures
        result_unit(r) == (if errors@.len() == 0 {
            Ok(())
        } else {
            Err(rollback_text(texts(errors@)))
        }),
{
    if errors.len() == 0 {
        return Ok(());
    }
    let mut message =
        "installation failed and rollback was incomplete; retained state for `codex-patcher uninstall --yes`: ".to_owned();
    message.append(join_texts(errors, "; ").as_str());
    Err(message)
}

/// What a rollback may remove, given the state it has left.
#[derive(Debug, Clone, Copy, PartialEq, Eq, Structural)]
pub struct Cleanup {
    /// The system updaters may be switched on again.
    pub restore_updaters: bool,
    pub remove_state: bool,
    pub remove_manager: bool,
}

pub open spec fn cleanup_of(s: StateView, manager_copied: bool) -> Cleanup {
    let bare = s.surfaces.len() == 0 && s.updaters.len() == 0;
    Cleanup {
        restore_updaters: s.surfaces.len() == 0,
        remove_state: bare,
        remove_manager: bare && manager_copied,
    }
}

pub fn rollback_cleanup(state: &InstallState, manager_copied: bool) -> (r: Cleanup)
    ensures
        r == cleanup_of(state@, manager_copied),
{
    let surfaces = state.surfaces.len() == 0;
    let bare = surfaces && state.updaters.len() == 0;
    Cleanup {
        restore_updaters: surfaces,
        remove_state: bare,
        remove_manager: bare && manager_copied,
    }
}

pub open spec fn with_updater(list: Seq<UpdaterView>, updater: UpdaterView) -> Seq<UpdaterView> {
    if list.contains(updater) {
        list
    } else {
        list.push(updater)
    }
}

/// Keeps an updater with the installation, once.
pub fn record_updater(state: &mut InstallState, updater: &UpdaterAdapterRecord)
    ensures
        final(state)@ == (StateView {
            updaters: with_updater(old(state)@.updaters, updater@),
            ..old(state)@
        }),
{
    push_updater(&mut state.updaters, updater);
}

fn push_updater(list: &mut Vec<UpdaterAdapterRecord>, updater: &UpdaterAdapterRecord)
    ensures
        updaters_view(final(list)@) == with_updater(updaters_view(old(list)@), updater@),
{
    let ghost all = updaters_view(list@);
    let mut i: usize = 0;
    while i < list.len()
        invariant
            i <= list@.len(),
            all == updaters_view(list@),
            forall|k: int| 0 <= k < i ==> #[trigger] all[k] != updater@,
        decreases list@.len() - i,
    {
        proof {
            assert(all[i as int] == list@[i as int]@);
        }
        if list[i].same_as(updater) {
            return ;
        }
        i = i + 1;
    }
    let copy = updater.clone();
    proof {
        assert(updaters_view(list@.push(copy)) =~= all.push(copy@));
    }
    list.push(copy);
}

/// The position of the first updater of that unit, or the length.
pub open spec fn index_of_unit(list: Seq<UpdaterView>, unit: Seq<char>) -> int
    decreases list.len(),
{
    if list.len() == 0 || list[0].unit == unit {
        0
    } else {
        1 + index_of_unit(list.drop_first(), unit)
    }
}

/// Replaces what was recorded of an updater by what became of it.
pub fn complete_updater(state: &mut InstallState, updater: &UpdaterAdapterRecord) -> (r: Result<
    (),
    String,
>)
    ensures
        ({
            let list = old(state)@.updaters;
            let i = index_of_unit(list, updater.unit@);
            if i >= list.len() {
                &&& r matches Err(e) && e@ == "updater takeover intent disappeared"@
                &&& final(state)@ == old(state)@
            } else {
                r is Ok && final(state)@ == (StateView {
                    updaters: list.update(i, updater@),
                    ..old(state)@
                })
            }
        }),
{
    let ghost all = updaters_view(state.updaters@);
    let mut i: usize = 0;
    proof {
        assert(all.skip(0) =~= all);
    }
    while i < state.updaters.len()
        invariant
            i <= state.updaters@.len(),
            all == updaters_view(state.updaters@),
            index_of_unit(all, updater.unit@) == i + index_of_unit(
                all.skip(i as int),
                updater.unit@,
            ),
            *state == *old(state),
            all == old(state)@.updaters,
        decreases state.updaters@.len() - i,
    {
        proof {
            assert(all.skip(i as int)[0] == state.updaters@[i as int]@);
            assert(all.skip(i as int).drop_first() =~= all.skip(i as int + 1));
        }
        if same(state.updaters[i].unit.as_str(), updater.unit.as_str()) {
            let copy = updater.clone();
            state.updaters.set(i, copy);
            proof {
                assert(updaters_view(state.updaters@) =~= all.update(i as int, updater@));
            }
            return Ok(());
        }
        i = i + 1;
    }
    Err("updater takeover intent disappeared".to_owned())
}

/// Whether an updater that was to be switched off is still on in part.
pub fn updater_remains(updater: &UpdaterAdapterRecord) -> (r: bool)
    ensures
        r == ((updater.disable_intended && !updater.disabled_by_patcher) || (updater.stop_intended
            && !updater.stopped_by_patcher)),
{
    (updater.disable_intended && !updater.disabled_by_patcher) || (updater.stop_intended
        && !updater.stopped_by_patcher)
}

/// Records that the launchers attached to themselves, kept with the installation.
pub open spec fn migrated(updaters: Seq<UpdaterView>, surfaces: Seq<RecordView>) -> Seq<UpdaterView>
    decreases surfaces.len(),
{
    if surfaces.len() == 0 {
        updaters
    } else {
        let before = migrated(updaters, surfaces.drop_last());
        match surfaces.last().updater {
            Some(updater) => with_updater(before, updater),
            None => before,
        }
    }
}

/// Moves the updaters of single launchers to the installation.
pub fn migrate_updaters(state: &mut InstallState)
    ensures
        final(state)@ == (StateView {
            updaters: migrated(old(state)@.updaters, old(state)@.surfaces),
            ..old(state)@
        }),
{
    let ghost all = records_view(state.surfaces@);
    let ghost start = updaters_view(state.updaters@);
    let mut i: usize = 0;
    proof {
        assert(all.take(0) =~= Seq::empty());
    }
    while i < state.surfaces.len()
        invariant
            i <= state.surfaces@.len(),
            all == records_view(state.surfaces@),
            state@ == (StateView {
                updaters: migrated(start, all.take(i as int)),
                ..old(state)@
            }),
        decreases state.surfaces@.len() - i,
    {
        proof {
            assert(all.take(i as int + 1).drop_last() =~= all.take(i as int));
            assert(all.take(i as int + 1).last() == state.surfaces@[i as int]@);
        }
        let legacy = match &state.surfaces[i].updater {
            Some(updater) => Some(updater.clone()),
            None => None,
        };
        if let Some(updater) = legacy {
            push_updater(&mut state.updaters, &updater);
        }
        i = i + 1;
    }
    proof {
        assert(all.take(state.surfaces@.len() as int) =~= all);
    }
}

/// Forgets a launcher that was given back.
pub fn forget_surface(state: &mut InstallState, id: u128)
    ensures
        final(state)@ == (StateView {
            surfaces: without_restored(old(state)@.surfaces, seq![id]),
            ..old(state)@
        }),
{
    let restored = vec![id];
    proof {
        assert(restored@ =~= seq![id]);
    }
    state.surfaces = recover_restores(&state.surfaces, &restored);
}

pub open spec fn without_updater(list: Seq<UpdaterView>, updater: UpdaterView) -> Seq<UpdaterView>
    decreases list.len(),
{
    if list.len() == 0 {
        Seq::empty()
    } else if list.last() == updater {
        without_updater(list.drop_last(), updater)
    } else {
        without_updater(list.drop_last(), updater).push(list.last())
    }
}

/// Forgets an updater that was switched on again.
pub fn forget_updater(state: &mut InstallState, updater: &UpdaterAdapterRecord)
    ensures
        final(state)@ == (StateView {
            updaters: without_updater(old(state)@.updaters, updater@),
            ..old(state)@
        }),
{
    let ghost all = updaters_view(state.updaters@);
    let mut kept: Vec<UpdaterAdapterRecord> = Vec::new();
    let mut i: usize = 0;
    proof {
        assert(all.take(0) =~= Seq::empty());
        assert(updaters_view(kept@) =~= Seq::empty());
    }
    while i < state.updaters.len()
        invariant
            i <= state.updaters@.len(),
            all == updaters_view(state.updaters@),
            *state == *old(state),
            updaters_view(kept@) == without_updater(all.take(i as int), updater@),
        decreases state.updaters@.len() - i,
    {
        proof {
            assert(all.take(i as int + 1).drop_last() =~= all.take(i as int));
            assert(all.take(i as int + 1).last() == state.updaters@[i as int]@);
        }
        if !state.updaters[i].same_as(updater) {
            let copy = state.updaters[i].clone();
            proof {
                assert(updaters_view(kept@.push(copy)) =~= updaters_view(kept@).push(copy@));
            }
            kept.push(copy);
        }
        i = i + 1;
    }
    proof {
        assert(all.take(state.updaters@.len() as int) =~= all);
    }
    state.updaters = kept;
}

/// How far an uninstallation has come. The launchers and the updaters are those it started
/// with.
#[derive(Debug)]
pub struct RemovalFacts {
    pub yes: bool,
    pub terminal: bool,
    pub confirmed: Option<Result<bool, String>>,
    pub surfaces: usize,
    pub surfaces_tried: usize,
    pub updaters: usize,
    pub updaters_tried: usize,
    /// A generation that a process still runs from.
    pub leased: Option<String>,
}

/// What an uninstallation does next.
#[derive(Debug)]
pub enum RemovalStep {
    Confirm,
    /// Give back the launcher at this position.
    RestoreSurface(usize),
    /// Switch the updater at this position on again.
    RestoreUpdater(usize),
    /// Remove the state, the caches, the backups and the manager.
    RemoveFiles,
    Fail { message: String },
}

pub enum RemovalStepView {
    Confirm,
    RestoreSurface(int),
    RestoreUpdater(int),
    RemoveFiles,
    Fail { message: Seq<char> },
}

impl View for RemovalStep {
    type V = RemovalStepView;

    open spec fn view(&self) -> RemovalStepView {
        match self {
            RemovalStep::Confirm => RemovalStepView::Confirm,
            RemovalStep::RestoreSurface(i) => RemovalStepView::RestoreSurface(*i as int),
            RemovalStep::RestoreUpdater(i) => RemovalStepView::RestoreUpdater(*i as int),
            RemovalStep::RemoveFiles => RemovalStepView::RemoveFiles,
            RemovalStep::Fail { message } => RemovalStepView::Fail { message: message@ },
        }
    }
}

/// What is said while a process still runs from a generation.
pub open spec fn leased_text(generation: Seq<char>) -> Seq<char> {
    "uninstall is incomplete because generation "@ + generation
        + " is still running; its files were left in place"@
}

/// The next step of an uninstallation: the launchers are given back from the last to the
/// first, then the updaters are switched on, and only when nothing is left and no process runs
/// from a generation are files removed.
pub open spec fn next_removal(s: StateView, facts: RemovalFacts) -> RemovalStepView {
    let cancelled = RemovalStepView::Fail {
        message: "uninstall cancelled; use --yes for a noninteractive uninstall"@,
    };
    if !facts.yes && !facts.terminal {
        cancelled
    } else if !facts.yes && facts.confirmed is None {
        RemovalStepView::Confirm
    } else if !facts.yes && facts.confirmed->0 is Err {
        RemovalStepView::Fail { message: facts.confirmed->0->Err_0@ }
    } else if !facts.yes && facts.confirmed->0 == Ok::<bool, String>(false) {
        cancelled
    } else if facts.surfaces_tried < facts.surfaces {
        RemovalStepView::RestoreSurface(facts.surfaces - 1 - facts.surfaces_tried)
    } else if s.surfaces.len() > 0 {
        RemovalStepView::Fail {
            message: "uninstall is incomplete because one or more surfaces drifted"@,
        }
    } else if facts.updaters_tried < facts.updaters {
        RemovalStepView::RestoreUpdater(facts.updaters_tried as int)
    } else if s.updaters.len() > 0 {
        RemovalStepView::Fail {
            message: "uninstall is incomplete because an updater could not be restored"@,
        }
    } else {
        match facts.leased {
            Some(generation) => RemovalStepView::Fail { message: leased_text(generation@) },
            None => RemovalStepView::RemoveFiles,
        }
    }
}

/// What an uninstallation does next, given the state as it is now.
pub fn next_removal_step(state: &InstallState, facts: &RemovalFacts) -> (r: RemovalStep)
    ensures
        r@ == next_removal(state@, *facts),
{
    if !facts.yes {
        let confirmed = if !facts.terminal {
            false
        } else {
            match &facts.confirmed {
                None => return RemovalStep::Confirm,
                Some(Err(message)) => return RemovalStep::Fail { message: message.clone() },
                Some(Ok(yes)) => *yes,
            }
        };
        if !confirmed {
            return RemovalStep::Fail {
                message: "uninstall cancelled; use --yes for a noninteractive uninstall".to_owned(),
            };
        }
    }
    if facts.surfaces_tried < facts.surfaces {
        return RemovalStep::RestoreSurface(facts.surfaces - 1 - facts.surfaces_tried);
    }
    if state.surfaces.len() > 0 {
        return RemovalStep::Fail {
            message: "uninstall is incomplete because one or more surfaces drifted".to_owned(),
        };
    }
    if facts.updaters_tried < facts.updaters {
        return RemovalStep::RestoreUpdater(facts.updaters_tried);
    }
    if state.updaters.len() > 0 {
        return RemovalStep::Fail {
            message: "uninstall is incomplete because an updater could not be restored".to_owned(),
        };
    }
    match &facts.leased {
        Some(generation) => {
            let mut message = "uninstall is incomplete because generation ".to_owned();
            message.append(generation.as_str());
            message.append(" is still running; its files were left in place");
            RemovalStep::Fail { message }
        },
        None => RemovalStep::RemoveFiles,
    }
}

/// Whether a drifted launcher becomes the new baseline: when the user said so beforehand, or
/// says so now. `None` when the user is to be asked.
pub fn adopts_drift(adopt_drift: bool, yes: bool, terminal: bool) -> (r: Option<bool>)
    ensures
        r == (if adopt_drift {
            Some(true)
        } else if terminal && !yes {
            None
        } else {
            Some(false)
        }),
{
    if adopt_drift {
        Some(true)
    } else if terminal && !yes {
        None
    } else {
        Some(false)
    }
}

/// Replaces the record of a repaired launcher.
pub fn replace_surface(state: &mut InstallState, record: &SurfaceRecord) -> (r: Result<(), String>)
    ensures
        ({
            let list = old(state)@.surfaces;
            let i = index_of_id(list, record.id);
            if i >= list.len() {
                &&& r matches Err(e) && e@
                    == "surface ownership record changed during shim repair"@
                &&& final(state)@ == old(state)@
            } else {
                r is Ok && final(state)@ == (StateView {
                    surfaces: list.update(i, record@),
                    ..old(state)@
                })
            }
        }),
{
    let ghost all = records_view(state.surfaces@);
    let mut i: usize = 0;
    proof {
        assert(all.skip(0) =~= all);
    }
    while i < state.surfaces.len()
        invariant
            i <= state.surfaces@.len(),
            all == records_view(state.surfaces@),
            index_of_id(all, record.id) == i + index_of_id(all.skip(i as int), record.id),
            *state == *old(state),
            all == old(state)@.surfaces,
        decreases state.surfaces@.len() - i,
    {
        proof {
            assert(all.skip(i as int)[0] == state.surfaces@[i as int]@);
            assert(all.skip(i as int).drop_first() =~= all.skip(i as int + 1));
        }
        if state.surfaces[i].id == record.id {
            let copy = record.clone();
            state.surfaces.set(i, copy);
            proof {
                assert(records_view(state.surfaces@) =~= all.update(i as int, record@));
            }
            return Ok(());
        }
        i = i + 1;
    }
    Err("surface ownership record changed during shim repair".to_owned())
}

/// The recorded failure, when it is the one that is asked for.
pub open spec fn failure_choice(s: StateView, id: Option<Seq<char>>) -> Option<Seq<char>> {
    match s.failure {
        None => Some("there is no recorded failure"@),
        Some(failure) => match id {
            Some(wanted) => if failure.id != wanted {
                Some("recorded failure is "@ + failure.id + ", not "@ + wanted)
            } else {
                None
            },
            None => None,
        },
    }
}

pub fn check_failure_choice(state: &InstallState, id: &Option<String>) -> (r: Result<(), String>)
    ensures
        result_unit(r) == as_result(failure_choice(state@, opt_text(*id))),
{
    match &state.failure {
        None => Err("there is no recorded failure".to_owned()),
        Some(failure) => {
            if let Some(wanted) = id {
                if !same(failure.id.as_str(), wanted.as_str()) {
                    let mut message = "recorded failure is ".to_owned();
                    message.append(failure.id.as_str());
                    message.append(", not ");
                    message.append(wanted.as_str());
                    return Err(message);
                }
            }
            Ok(())
        },
    }
}

/// A directory of a generation, or what is left of one.
#[derive(Debug)]
pub struct GenerationDir {
    pub name: String,
    pub is_dir: bool,
    /// Something still runs from it, or may do so.
    pub in_use: bool,
}

/// What becomes of it.
#[derive(Debug, Clone, Copy, PartialEq, Eq, Structural)]
pub enum Collection {
    Ignore,
    RemoveStaging,
    /// It is the active or the previous generation.
    Retain,
    /// An unfinished repair may still need it.
    RetainForRepair,
    RetainRunning,
    Remove,
}

pub open spec fn is_retained(s: StateView, name: Seq<char>) -> bool {
    (s.active is Some && s.active->0.id == name) || (s.previous is Some && s.previous->0.id == name)
}

pub open spec fn collected(s: StateView, dir: GenerationDir, repair: bool) -> Collection {
    if !dir.is_dir {
        Collection::Ignore
    } else if ".staging-"@.is_prefix_of(dir.name@) {
        Collection::RemoveStaging
    } else if is_retained(s, dir.name@) {
        Collection::Retain
    } else if repair {
        Collection::RetainForRepair
    } else if dir.in_use {
        Collection::RetainRunning
    } else {
        Collection::Remove
    }
}

/// What the collector of unused generations does with a directory.
pub fn collect(
    state: &InstallState,
    dir: &GenerationDir,
    repair_in_progress: bool,
) -> (r: Collection)
    ensures
        r == collected(state@, *dir, repair_in_progress),
{
    if !dir.is_dir {
        return Collection::Ignore;
    }
    if starts_with(dir.name.as_str(), ".staging-") {
        return Collection::RemoveStaging;
    }
    if let Some(active) = &state.active {
        if same(active.id.as_str(), dir.name.as_str()) {
            return Collection::Retain;
        }
    }
    if let Some(previous) = &state.previous {
        if same(previous.id.as_str(), dir.name.as_str()) {
            return Collection::Retain;
        }
    }
    if repair_in_progress {
        Collection::RetainForRepair
    } else if dir.in_use {
        Collection::RetainRunning
    } else {
        Collection::Remove
    }
}

/// What an uninstallation does with a directory of a generation.
pub fn collect_all(dir: &GenerationDir) -> (r: Collection)
    ensures
        r == (if !dir.is_dir {
            Collection::Ignore
        } else if ".staging-"@.is_prefix_of(dir.name@) {
            Collection::RemoveStaging
        } else if dir.in_use {
            Collection::RetainRunning
        } else {
            Collection::Remove
        }),
{
    if !dir.is_dir {
        return Collection::Ignore;
    }
    if starts_with(dir.name.as_str(), ".staging-") {
        return Collection::RemoveStaging;
    }
    if dir.in_use {
        Collection::RetainRunning
    } else {
        Collection::Remove
    }
}

/// The file of an unfinished repair.
pub fn is_repair_session(name: &str) -> (r: bool)
    ensures
        r == (".repair-"@.is_prefix_of(name@) && ".json"@.is_suffix_of(name@)),
{
    starts_with(name, ".repair-") && ends_with(name, ".json")
}

/// A directory under `/proc` that stands for a process.
pub fn is_process_name(name: &str) -> (r: bool)
    ensures
        r == (forall|i: int| 0 <= i < name@.len() ==> is_digit(#[trigger] name@[i])),
{
    let chars = chars_of(name);
    let mut i: usize = 0;
    while i < chars.len()
        invariant
            i <= chars@.len(),
            chars@ == name@,
            forall|k: int| 0 <= k < i ==> is_digit(#[trigger] chars@[k]),
        decreases chars@.len() - i,
    {
        if !is_digit_char(chars[i]) {
            return false;
        }
        i = i + 1;
    }
    true
}

/// A line of a process's memory map names a file below the directory.
pub open spec fn maps_below(platform: Platform, list: Seq<Seq<char>>, dir: Seq<char>) -> bool {
    exists|i: int|
        0 <= i < list.len() && crate::discovery::last_word(#[trigger] list[i]).len() > 0 && is_below(
            platform,
            crate::discovery::last_word(list[i]),
            dir,
        )
}

/// Whether a process has a file of the generation mapped. `maps` is its memory map.
pub fn maps_use_generation(platform: Platform, maps: &str, generation: &str) -> (r: bool)
    ensures
        r == maps_below(platform, lines(maps@), generation@),
{
    let list = lines_of(maps);
    let ghost all = lines(maps@);
    let mut i: usize = 0;
    while i < list.len()
        invariant
            i <= list@.len(),
            all == texts(list@),
            all == lines(maps@),
            forall|k: int|
                0 <= k < i ==> !(crate::discovery::last_word(#[trigger] all[k]).len() > 0
                    && is_below(platform, crate::discovery::last_word(all[k]), generation@)),
        decreases list@.len() - i,
    {
        proof {
            assert(all[i as int] == list@[i as int]@);
        }
        let word = crate::discovery::last_word_of(list[i].as_str());
        if chars_of(word.as_str()).len() > 0 && path_is_below(platform, word.as_str(), generation) {
            proof {
                assert(crate::discovery::last_word(all[i as int]).len() > 0);
            }
            return true;
        }
        i = i + 1;
    }
    false
}

/// No launcher is touched before the first generation is built and validated and the user
/// has agreed.
pub proof fn launchers_change_only_after_the_build(
    given: Seq<char>,
    facts: SetupFacts,
    platform: Platform,
    i: int,
)
    requires
        next_setup(given, facts, platform) == SetupStepView::Redirect(i),
    ensures
        facts.built matches Some(Ok(_)),
        facts.yes || (facts.confirmed matches Some(Ok(yes)) && yes),
        facts.updater == Ok::<bool, String>(true) ==> (facts.updater_completed matches Some(Ok(_))),
{
}

proof fn lemma_redirects_never_fail(
    selected: Seq<Seq<char>>,
    redirects: Seq<RedirectFacts>,
    i: int,
)
    ensures
        !(redirect_step(selected, redirects, i) is Fail),
    decreases selected.len() - i,
{
    if i < selected.len() && i < redirects.len() {
        lemma_redirects_never_fail(selected, redirects, i + 1);
    }
}

/// Once the state is saved, whatever fails is rolled back.
pub proof fn failed_installations_are_rolled_back(
    given: Seq<char>,
    facts: SetupFacts,
    platform: Platform,
)
    requires
        next_setup(given, facts, platform) is Fail,
        setup_problem(given, facts, platform) is None,
        facts.yes || (facts.confirmed matches Some(Ok(yes)) && yes),
        facts.manager_copied matches Some(Ok(_)),
    ensures
        !(facts.state_saved matches Some(Ok(_))),
{
    if facts.state_saved matches Some(Ok(_)) {
        lemma_redirects_never_fail(texts(facts.selected->Ok_0@), facts.redirects@, 0);
    }
}

/// Files are removed only when every launcher has been given back, every updater is on again
/// and no process runs from a generation.
pub proof fn nothing_is_removed_while_launchers_are_owned(s: StateView, facts: RemovalFacts)
    requires
        next_removal(s, facts) is RemoveFiles,
    ensures
        s.surfaces.len() == 0,
        s.updaters.len() == 0,
        facts.leased is None,
        facts.yes || (facts.confirmed matches Some(Ok(yes)) && yes),
{
}

/// The active and the previous generation are never collected, whatever runs from them, and
/// neither is any generation while a repair is unfinished.
pub proof fn needed_generations_are_kept(s: StateView, dir: GenerationDir, repair: bool)
    requires
        !".staging-"@.is_prefix_of(dir.name@),
        is_retained(s, dir.name@) || repair || dir.in_use,
    ensures
        collected(s, dir, repair) != Collection::Remove,
        collected(s, dir, repair) != Collection::RemoveStaging,
{
}

} // verus!
