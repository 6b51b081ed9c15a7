//! What a wrapped launch does.

use vstd::prelude::*;

use crate::arguments::{
    is_interactive_invocation_with_subcommands, opens_tui, wrapped, wrapped_update, UpdateOptions,
    WrappedUpdate,
};
use crate::build::{is_safe_name, safe_name};
use crate::config::{Config, FailureMode, NoninteractivePending};
use crate::paths::{join_path, joined, Platform};
use crate::state::{InstallState, StateView};
use crate::text::{opt_text, same, texts};
use crate::tui::{FailureChoice, FailureScreen, FailureScreenView, UpdateScreen, UpdateScreenView};
use crate::types::{
    copy_opt, DesiredBuild, DesiredView, GenerationRef, GenerationView, ProbeKind, ResolvedSource,
    SourceView,
};

verus! {

pub const EXIT_UPDATE_NEEDED: i32 = 75;

/// What a launch is, before freshness is checked.
#[derive(Debug, Clone, Copy, PartialEq, Eq, Structural)]
pub enum Launch {
    UpdateHelp,
    Update(UpdateOptions),
    Check,
}

pub open spec fn launch_result(r: Result<Launch, String>) -> Result<Launch, Seq<char>> {
    match r {
        Ok(launch) => Ok(launch),
        Err(message) => Err(message@),
    }
}

/// The kind of a launch. `maintenance` inside a patch-maintenance session, `terminal` with
/// an interactive terminal.
pub open spec fn launch_kind(maintenance: bool, args: Seq<Seq<char>>, terminal: bool) -> Result<
    Launch,
    Seq<char>,
> {
    if maintenance {
        Err(
            "codex-patcher dispatcher recursion is disabled inside a patch-maintenance session; use the pinned executable named in the repair prompt"@,
        )
    } else {
        match wrapped(args) {
            Err(message) => Err(message),
            Ok(None) => Ok(Launch::Check),
            Ok(Some(WrappedUpdate::Help)) => Ok(Launch::UpdateHelp),
            Ok(Some(WrappedUpdate::Run(options))) => Ok(
                Launch::Update(UpdateOptions { interactive: terminal, ..options }),
            ),
        }
    }
}

pub fn classify_launch(maintenance: bool, arguments: &Vec<String>, terminal: bool) -> (r: Result<
    Launch,
    String,
>)
    ensures
        launch_result(r) == launch_kind(maintenance, texts(arguments@), terminal),
{
    if maintenance {
        return Err(
            "codex-patcher dispatcher recursion is disabled inside a patch-maintenance session; use the pinned executable named in the repair prompt".to_owned(),
        );
    }
    match wrapped_update(arguments) {
        Err(message) => Err(message),
        Ok(None) => Ok(Launch::Check),
        Ok(Some(WrappedUpdate::Help)) => Ok(Launch::UpdateHelp),
        Ok(Some(WrappedUpdate::Run(options))) => {
            let mut chosen = options;
            chosen.interactive = terminal;
            Ok(Launch::Update(chosen))
        },
    }
}

/// A terminal that can show the prompts: `TERM` is not `dumb`.
pub fn terminal_interactive(stdin: bool, stderr: bool, term: Option<&str>) -> (r: bool)
    ensures
        r == (stdin && stderr && (term is None || term->0@ != "dumb"@)),
{
    stdin && stderr && match term {
        Some(t) => !same(t, "dumb"),
        None => true,
    }
}

/// Only the patch stack has changed.
pub open spec fn only_patches_changed(s: StateView) -> bool {
    match (s.active, s.probe.desired) {
        (Some(active), Some(desired)) => active.source == desired.source && active.target
            == desired.target && active.patch_fingerprint != desired.patch_fingerprint,
        _ => false,
    }
}

pub fn patch_only_update(state: &InstallState) -> (r: bool)
    ensures
        r == only_patches_changed(state@),
{
    match (&state.active, &state.probe.desired) {
        (Some(active), Some(desired)) => {
            active.source.same_as(&desired.source) && same(
                active.target.as_str(),
                desired.target.as_str(),
            ) && !same(active.patch_fingerprint.as_str(), desired.patch_fingerprint.as_str())
        },
        _ => false,
    }
}

/// The page that describes a source.
pub open spec fn link_of(source: SourceView) -> Option<Seq<char>> {
    match source.release_url {
        Some(url) => Some(url),
        None => if source.channel == "nightly"@ {
            Some("https://github.com/openai/codex/commit/"@ + source.commit_oid)
        } else {
            None
        },
    }
}

pub fn source_link(source: &ResolvedSource) -> (r: Option<String>)
    ensures
        opt_text(r) == link_of(source@),
{
    match &source.release_url {
        Some(url) => Some(url.clone()),
        None => {
            if same(source.channel.as_str(), "nightly") {
                let mut link = "https://github.com/openai/codex/commit/".to_owned();
                link.append(source.commit_oid.as_str());
                Some(link)
            } else {
                None
            }
        },
    }
}

/// What a launch does once freshness has been checked.
#[derive(Debug)]
pub enum LaunchPlan {
    /// Rebuild the changed patch stack, then run.
    Rebuild { desired: DesiredBuild, interactive: bool },
    /// Ask whether to build the update.
    PromptUpdate { screen: UpdateScreen },
    /// Show why there is nothing to run.
    PromptFailure,
    /// Follow the policy for launches that cannot ask.
    Policy,
    Run { generation: GenerationRef },
    Fail { message: String },
}

pub enum LaunchPlanView {
    Rebuild { desired: DesiredView, interactive: bool },
    PromptUpdate { screen: UpdateScreenView },
    PromptFailure,
    Policy,
    Run { generation: GenerationView },
    Fail { message: Seq<char> },
}

impl View for LaunchPlan {
    type V = LaunchPlanView;

    open spec fn view(&self) -> LaunchPlanView {
        match self {
            LaunchPlan::Rebuild { desired, interactive } => LaunchPlanView::Rebuild {
                desired: desired@,
                interactive: *interactive,
            },
            LaunchPlan::PromptUpdate { screen } => LaunchPlanView::PromptUpdate {
                screen: screen@,
            },
            LaunchPlan::PromptFailure => LaunchPlanView::PromptFailure,
            LaunchPlan::Policy => LaunchPlanView::Policy,
            LaunchPlan::Run { generation } => LaunchPlanView::Run { generation: generation@ },
            LaunchPlan::Fail { message } => LaunchPlanView::Fail { message: message@ },
        }
    }
}

pub open spec fn prompt_screen(active: GenerationView, desired: DesiredView) -> UpdateScreenView {
    UpdateScreenView {
        current_version: active.source.version,
        desired_version: desired.source.version,
        current_patch_fingerprint: Some(active.patch_fingerprint),
        desired_patch_fingerprint: Some(desired.patch_fingerprint),
        release_url: link_of(desired.source),
    }
}

pub open spec fn known_subcommands(s: StateView) -> Seq<Seq<char>> {
    match s.active {
        Some(active) => active.subcommands,
        None => Seq::empty(),
    }
}

/// The plan of a launch without changed patches to rebuild.
pub open spec fn ordinary_plan(s: StateView, tui: bool) -> LaunchPlanView {
    match s.probe.kind {
        ProbeKind::Pending => if tui {
            match (s.probe.desired, s.active) {
                (None, _) => LaunchPlanView::Fail {
                    message: "pending freshness state has no desired build"@,
                },
                (Some(_), None) => LaunchPlanView::Fail {
                    message: "no active patched generation"@,
                },
                (Some(desired), Some(active)) => LaunchPlanView::PromptUpdate {
                    screen: prompt_screen(active, desired),
                },
            }
        } else {
            LaunchPlanView::Policy
        },
        ProbeKind::Failed | ProbeKind::Blocked => if tui {
            LaunchPlanView::PromptFailure
        } else {
            LaunchPlanView::Policy
        },
        ProbeKind::Unknown | ProbeKind::Current | ProbeKind::Degraded => match s.active {
            Some(active) => LaunchPlanView::Run { generation: active },
            None => LaunchPlanView::Fail { message: "no active patched generation"@ },
        },
    }
}

/// The plan of a launch. `auto_rebuild` is the configuration's `auto_rebuild_patches`, or
/// why it could not be read.
pub open spec fn planned(
    s: StateView,
    args: Seq<Seq<char>>,
    terminal: bool,
    auto_rebuild: Result<bool, Seq<char>>,
) -> LaunchPlanView {
    let tui = terminal && opens_tui(args, known_subcommands(s));
    if s.probe.kind == ProbeKind::Pending && only_patches_changed(s) {
        match auto_rebuild {
            Err(message) => LaunchPlanView::Fail { message },
            Ok(true) => LaunchPlanView::Rebuild {
                desired: s.probe.desired->0,
                interactive: tui,
            },
            Ok(false) => ordinary_plan(s, tui),
        }
    } else {
        ordinary_plan(s, tui)
    }
}

fn plan_ordinary(state: &InstallState, tui: bool) -> (r: LaunchPlan)
    ensures
        r@ == ordinary_plan(state@, tui),
{
    match state.probe.kind {
        ProbeKind::Pending => {
            if !tui {
                return LaunchPlan::Policy;
            }
            let desired = match &state.probe.desired {
                Some(desired) => desired,
                None => return LaunchPlan::Fail {
                    message: "pending freshness state has no desired build".to_owned(),
                },
            };
            let active = match &state.active {
                Some(active) => active,
                None => return LaunchPlan::Fail {
                    message: "no active patched generation".to_owned(),
                },
            };
            let mut screen = UpdateScreen::new(
                active.source.version.as_str(),
                desired.source.version.as_str(),
            );
            screen.current_patch_fingerprint = Some(active.patch_fingerprint.clone());
            screen.desired_patch_fingerprint = Some(desired.patch_fingerprint.clone());
            screen.release_url = source_link(&desired.source);
            LaunchPlan::PromptUpdate { screen }
        },
        ProbeKind::Failed | ProbeKind::Blocked => {
            if tui {
                LaunchPlan::PromptFailure
            } else {
                LaunchPlan::Policy
            }
        },
        ProbeKind::Unknown | ProbeKind::Current | ProbeKind::Degraded => match &state.active {
            Some(active) => LaunchPlan::Run { generation: active.clone() },
            None => LaunchPlan::Fail { message: "no active patched generation".to_owned() },
        },
    }
}

pub open spec fn bool_result(r: Result<bool, String>) -> Result<bool, Seq<char>> {
    match r {
        Ok(b) => Ok(b),
        Err(message) => Err(message@),
    }
}

/// Decides what a launch does once freshness has been checked.
pub fn dispatch(
    state: &InstallState,
    arguments: &Vec<String>,
    terminal: bool,
    auto_rebuild: &Result<bool, String>,
) -> (r: LaunchPlan)
    ensures
        r@ == planned(state@, texts(arguments@), terminal, bool_result(*auto_rebuild)),
{
    let tui = terminal && match &state.active {
        Some(active) => is_interactive_invocation_with_subcommands(
            arguments,
            &active.subcommands,
        ),
        None => {
            let none: Vec<String> = Vec::new();
            proof {
                assert(texts(none@) =~= Seq::empty());
            }
            is_interactive_invocation_with_subcommands(arguments, &none)
        },
    };
    if state.probe.kind == ProbeKind::Pending && patch_only_update(state) {
        match auto_rebuild {
            Err(message) => return LaunchPlan::Fail { message: message.clone() },
            Ok(enabled) => {
                if *enabled {
                    if let Some(desired) = &state.probe.desired {
                        return LaunchPlan::Rebuild {
                            desired: desired.clone(),
                            interactive: tui,
                        };
                    }
                }
            },
        }
    }
    plan_ordinary(state, tui)
}

/// A launch that cannot ask never shows a prompt.
pub proof fn launches_without_a_terminal_never_prompt(
    s: StateView,
    args: Seq<Seq<char>>,
    auto_rebuild: Result<bool, Seq<char>>,
)
    ensures
        !(planned(s, args, false, auto_rebuild) is PromptUpdate),
        !(planned(s, args, false, auto_rebuild) is PromptFailure),
{
}

/// A patch change at the same source is rebuilt by the launch that detects it, where that
/// is enabled, with or without a terminal.
pub proof fn patch_changes_are_rebuilt_at_once(
    s: StateView,
    args: Seq<Seq<char>>,
    terminal: bool,
)
    requires
        s.probe.kind == ProbeKind::Pending,
        only_patches_changed(s),
    ensures
        planned(s, args, terminal, Ok(true)) is Rebuild,
        !(planned(s, args, terminal, Ok(false)) is Rebuild),
{
}

/// What a failed update comes to for the launch that wanted it.
#[derive(Debug, Clone, Copy, PartialEq, Eq, Structural)]
pub enum AfterFailedUpdate {
    PromptFailure,
    Policy,
    Report,
}

/// `launching` when the update was made for a launch.
pub fn after_failed_update(interactive: bool, launching: bool) -> (r: AfterFailedUpdate)
    ensures
        r == (if interactive {
            AfterFailedUpdate::PromptFailure
        } else if launching {
            AfterFailedUpdate::Policy
        } else {
            AfterFailedUpdate::Report
        }),
{
    if interactive {
        AfterFailedUpdate::PromptFailure
    } else if launching {
        AfterFailedUpdate::Policy
    } else {
        AfterFailedUpdate::Report
    }
}

pub open spec fn or_text(o: Option<Seq<char>>, otherwise: Seq<char>) -> Seq<char> {
    match o {
        Some(s) => s,
        None => otherwise,
    }
}

pub open spec fn active_version(s: StateView) -> Option<Seq<char>> {
    match s.active {
        Some(active) => Some(active.source.version),
        None => None,
    }
}

/// What the failure prompt shows of a state.
pub open spec fn failure_screen_of(
    platform: Platform,
    s: StateView,
    logs_dir: Seq<char>,
) -> FailureScreenView {
    FailureScreenView {
        current_version: or_text(active_version(s), "not installed"@),
        desired_version: match s.failure {
            Some(failure) => failure.desired.source.version,
            None => match s.probe.desired {
                Some(desired) => desired.source.version,
                None => or_text(active_version(s), "unknown"@),
            },
        },
        phase: match s.failure {
            Some(failure) => failure.phase,
            None => "resolve"@,
        },
        summary: match s.failure {
            Some(failure) => failure.summary,
            None => or_text(
                s.probe.message,
                "the desired patched generation is unavailable"@,
            ),
        },
        failed_patch_index: match s.failure {
            Some(failure) => failure.failed_patch_index,
            None => None,
        },
        failed_patch: match s.failure {
            Some(failure) => failure.failed_patch,
            None => None,
        },
        log_path: match s.failure {
            Some(failure) => failure.log_path,
            None => join_path(platform, logs_dir, "runtime.log"@),
        },
        last_good_version: match s.failure {
            Some(_) => active_version(s),
            None => None,
        },
    }
}

pub fn failure_screen(
    platform: Platform,
    state: &InstallState,
    logs_dir: &str,
) -> (r: FailureScreen)
    ensures
        r@ == failure_screen_of(platform, state@, logs_dir@),
{
    let running = match &state.active {
        Some(active) => Some(active.source.version.clone()),
        None => None,
    };
    let current_version = match &running {
        Some(version) => version.clone(),
        None => "not installed".to_owned(),
    };
    match &state.failure {
        Some(failure) => FailureScreen {
            current_version,
            desired_version: failure.desired.source.version.clone(),
            phase: failure.phase.clone(),
            summary: failure.summary.clone(),
            failed_patch_index: failure.failed_patch_index,
            failed_patch: copy_opt(&failure.failed_patch),
            log_path: failure.log_path.clone(),
            last_good_version: running,
        },
        None => FailureScreen {
            current_version,
            desired_version: match &state.probe.desired {
                Some(desired) => desired.source.version.clone(),
                None => match &running {
                    Some(version) => version.clone(),
                    None => "unknown".to_owned(),
                },
            },
            phase: "resolve".to_owned(),
            summary: match &state.probe.message {
                Some(message) => message.clone(),
                None => "the desired patched generation is unavailable".to_owned(),
            },
            failed_patch_index: None,
            failed_patch: None,
            log_path: joined(platform, logs_dir, "runtime.log"),
            last_good_version: None,
        },
    }
}

/// Whether the failure prompt's choice starts a repair; otherwise the launch ends with the
/// status [`EXIT_UPDATE_NEEDED`].
pub fn handle_interactive_failure(state: &InstallState, choice: FailureChoice) -> (r: bool)
    ensures
        r == (choice == FailureChoice::Repair && state@.active is Some && state@.failure is Some),
{
    choice == FailureChoice::Repair && state.active.is_some() && state.failure.is_some()
}

/// What a launch that cannot ask does.
#[derive(Debug)]
pub enum PolicyOutcome {
    /// Run the generation after printing `warning`.
    Run { generation: GenerationRef, warning: String },
    /// Print the lines and exit with the status [`EXIT_UPDATE_NEEDED`].
    Exit { lines: Vec<String> },
    Fail { message: String },
}

pub enum PolicyView {
    Run { generation: GenerationView, warning: Seq<char> },
    Exit { lines: Seq<Seq<char>> },
    Fail { message: Seq<char> },
}

impl View for PolicyOutcome {
    type V = PolicyView;

    open spec fn view(&self) -> PolicyView {
        match self {
            PolicyOutcome::Run { generation, warning } => PolicyView::Run {
                generation: generation@,
                warning: warning@,
            },
            PolicyOutcome::Exit { lines } => PolicyView::Exit { lines: texts(lines@) },
            PolicyOutcome::Fail { message } => PolicyView::Fail { message: message@ },
        }
    }
}

/// The last-good generation may be run although an update is due: `auto` follows the
/// failure mode.
pub open spec fn runs_last_good(pending: NoninteractivePending, mode: FailureMode) -> bool {
    match pending {
        NoninteractivePending::WarnRun => true,
        NoninteractivePending::Error => false,
        NoninteractivePending::Auto => mode == FailureMode::LastGood,
    }
}

pub open spec fn policy_lines(s: StateView) -> Seq<Seq<char>> {
    let detail = "codex-patcher: "@ + or_text(s.probe.message, "a patched update is pending"@);
    match s.failure {
        Some(failure) => seq![
            detail,
            "log: "@ + failure.log_path,
            "repair: codex-patcher repair "@ + failure.id,
        ],
        None => seq![detail, "update: codex-patcher update"@],
    }
}

pub open spec fn invalid_config_lines(s: StateView, error: Seq<char>) -> Seq<Seq<char>> {
    let first = "codex-patcher: invalid live configuration after the freshness check: "@ + error;
    match s.probe.message {
        Some(detail) => seq![first, "detail: "@ + detail],
        None => seq![first],
    }
}

pub open spec fn policy(s: StateView, config: Result<Config, String>) -> PolicyView {
    match config {
        Err(error) => PolicyView::Exit { lines: invalid_config_lines(s, error@) },
        Ok(c) => if runs_last_good(c.noninteractive_pending, c.failure_mode) {
            match s.active {
                Some(active) => PolicyView::Run {
                    generation: active,
                    warning:
                        "codex-patcher: update pending or failed; running last-good patched Codex "@
                        + active.source.version,
                },
                None => PolicyView::Fail { message: "no last-good patched generation"@ },
            }
        } else {
            PolicyView::Exit { lines: policy_lines(s) }
        },
    }
}

fn lines2(a: String, b: String) -> (r: Vec<String>)
    ensures
        texts(r@) == seq![a@, b@],
{
    let r = vec![a, b];
    proof {
        assert(texts(r@) =~= seq![a@, b@]);
    }
    r
}

pub fn apply_noninteractive_policy(state: &InstallState, config: &Result<Config, String>) -> (r:
    PolicyOutcome)
    ensures
        r@ == policy(state@, *config),
{
    let config = match config {
        Ok(config) => config,
        Err(error) => {
            let mut first =
                "codex-patcher: invalid live configuration after the freshness check: ".to_owned();
            first.append(error.as_str());
            return match &state.probe.message {
                Some(detail) => {
                    let mut second = "detail: ".to_owned();
                    second.append(detail.as_str());
                    PolicyOutcome::Exit { lines: lines2(first, second) }
                },
                None => {
                    let lines = vec![first];
                    proof {
                        assert(texts(lines@) =~= seq![first@]);
                    }
                    PolicyOutcome::Exit { lines }
                },
            };
        },
    };
    let warn_run = match config.noninteractive_pending {
        NoninteractivePending::WarnRun => true,
        NoninteractivePending::Error => false,
        NoninteractivePending::Auto => config.failure_mode == FailureMode::LastGood,
    };
    if warn_run {
        return match &state.active {
            Some(active) => {
                let mut warning =
                    "codex-patcher: update pending or failed; running last-good patched Codex ".to_owned();
                warning.append(active.source.version.as_str());
                PolicyOutcome::Run { generation: active.clone(), warning }
            },
            None => PolicyOutcome::Fail {
                message: "no last-good patched generation".to_owned(),
            },
        };
    }
    let mut detail = "codex-patcher: ".to_owned();
    match &state.probe.message {
        Some(message) => detail.append(message.as_str()),
        None => detail.append("a patched update is pending"),
    }
    match &state.failure {
        Some(failure) => {
            let mut log = "log: ".to_owned();
            log.append(failure.log_path.as_str());
            let mut repair = "repair: codex-patcher repair ".to_owned();
            repair.append(failure.id.as_str());
            let lines = vec![detail, log, repair];
            proof {
                assert(texts(lines@) =~= seq![detail@, log@, repair@]);
            }
            PolicyOutcome::Exit { lines }
        },
        None => PolicyOutcome::Exit {
            lines: lines2(detail, "update: codex-patcher update".to_owned()),
        },
    }
}

/// The policy `error` never starts Codex, and `warn-run` and `auto` with the failure mode
/// `last-good` start nothing but the active generation.
pub proof fn policies_run_nothing_but_the_last_good(s: StateView, config: Config)
    ensures
        config.noninteractive_pending == NoninteractivePending::Error ==> policy(s, Ok(config))
            is Exit,
        config.noninteractive_pending == NoninteractivePending::Auto && config.failure_mode
            == FailureMode::Error ==> policy(s, Ok(config)) is Exit,
        config.noninteractive_pending == NoninteractivePending::WarnRun && s.active is Some
            ==> policy(s, Ok(config)) is Run,
        policy(s, Ok(config)) matches PolicyView::Run { generation, warning } ==> s.active
            == Some(generation),
{
}

/// The lock file of a generation's execution lease, below the state directory.
pub fn lease_path(
    platform: Platform,
    state_dir: &str,
    generation_id: &str,
) -> (r: Result<String, String>)
    ensures
        crate::text::result_text(r) == (if generation_id@.len() > 0 && safe_name(generation_id@) {
            Ok(
                join_path(
                    platform,
                    join_path(platform, state_dir@, "leases"@),
                    generation_id@ + ".lock"@,
                ),
            )
        } else {
            Err("generation id contains unsafe path characters"@)
        }),
{
    if crate::text::chars_of(generation_id).len() == 0 || !is_safe_name(generation_id) {
        return Err("generation id contains unsafe path characters".to_owned());
    }
    let mut name = generation_id.to_owned();
    name.append(".lock");
    let directory = joined(platform, state_dir, "leases");
    Ok(joined(platform, directory.as_str(), name.as_str()))
}

} // verus!
