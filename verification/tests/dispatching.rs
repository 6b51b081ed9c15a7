use codex_patcher::paths::Platform;
use codex_patcher::arguments::{
    append_windows_argument, inject_managed_update_override, invocation_uses_yolo_mode,
    is_interactive_invocation, is_interactive_invocation_with_subcommands, windows_command_line,
    wrapped_update, UpdateOptions, WrappedUpdate, MANAGED_UPDATE_OVERRIDE,
};
use codex_patcher::config::{Branch, Config, FailureMode, NoninteractivePending};
use codex_patcher::dispatch::{
    after_failed_update, apply_noninteractive_policy, classify_launch, dispatch, failure_screen,
    handle_interactive_failure, lease_path, patch_only_update, source_link, terminal_interactive,
    AfterFailedUpdate, Launch, LaunchPlan, PolicyOutcome,
};
use codex_patcher::patchset::{Patch, PatchSet};
use codex_patcher::probe::{
    begin_refresh, cached_remote_freshness_is_valid, desired_for, finish_refresh, record_refresh,
    resolution_is_blocked, RefreshRecord, RefreshStep, ResolveOutcome,
};
use codex_patcher::state::InstallState;
use codex_patcher::tui::FailureChoice;
use codex_patcher::update::resolve_build_inputs;
use codex_patcher::types::{
    DesiredBuild, FailureRecord, GenerationRef, ProbeKind, ResolvedSource, Timestamp,
};

fn args(values: &[&str]) -> Vec<String> {
    values.iter().map(|value| value.to_string()).collect()
}

fn raw(values: &[&str]) -> Vec<Vec<u8>> {
    values.iter().map(|value| value.as_bytes().to_vec()).collect()
}

const NOW: Timestamp = Timestamp { nanos: 1_700_000_000_000_000_000 };

fn source(version: &str) -> ResolvedSource {
    ResolvedSource {
        channel: "stable".to_owned(),
        ref_name: format!("refs/tags/rust-v{version}"),
        ref_object_oid: "1".repeat(40),
        commit_oid: "2".repeat(40),
        version: version.to_owned(),
        release_url: None,
    }
}

fn patches(body: &[u8]) -> PatchSet {
    let list = vec![Patch { path: "one.patch".to_owned(), bytes: body.to_vec() }];
    let fingerprint = codex_patcher::patchset::fingerprint(&list);
    PatchSet { root: "/patches".to_owned(), patches: list, fingerprint }
}

const TARGET: &str = "x86_64-unknown-linux-gnu";

fn generation(desired: &DesiredBuild) -> GenerationRef {
    GenerationRef {
        id: "generation-a".to_owned(),
        package_dir: "/generations/a/package".to_owned(),
        binary: "/generations/a/package/bin/codex".to_owned(),
        source_key: desired.source_key.clone(),
        source: desired.source.clone(),
        patch_fingerprint: desired.patch_fingerprint.clone(),
        target: desired.target.clone(),
        subcommands: vec!["exec".to_owned(), "app-server".to_owned()],
        built_at: NOW,
    }
}

/// A current installation of version 1.2.3 with one patch.
fn installed() -> InstallState {
    let desired = desired_for(&source("1.2.3"), &patches(b"old"), TARGET);
    let mut state = InstallState::new("/patches", NOW);
    state.activate(generation(&desired), NOW);
    state.probe.kind = ProbeKind::Current;
    state.probe.checked_at = Some(NOW);
    state.probe.next_check_at = Some(NOW.plus_seconds(300));
    state.probe.desired = Some(desired);
    state
}

fn pending(body: &[u8], version: &str) -> InstallState {
    let mut state = installed();
    state.probe.kind = ProbeKind::Pending;
    state.probe.desired = Some(desired_for(&source(version), &patches(body), TARGET));
    state
}

fn config(failure_mode: FailureMode, policy: NoninteractivePending) -> Config {
    let mut config = Config::default();
    config.failure_mode = failure_mode;
    config.noninteractive_pending = policy;
    config
}

#[test]
fn update_override_is_last_before_delimiter() {
    assert_eq!(
        inject_managed_update_override(&raw(&["exec", "--", "-not-a-flag"])),
        raw(&[
            "exec",
            "-c",
            "check_for_update_on_startup=false",
            "--",
            "-not-a-flag"
        ])
    );
}

#[test]
fn update_override_wins_over_caller_value() {
    assert_eq!(
        inject_managed_update_override(&raw(&[
            "-c",
            "check_for_update_on_startup=true",
            "hello"
        ])),
        raw(&[
            "-c",
            "check_for_update_on_startup=true",
            "hello",
            "-c",
            "check_for_update_on_startup=false"
        ])
    );
}

#[test]
fn managed_override_preserves_all_caller_arguments() {
    assert_eq!(
        inject_managed_update_override(&raw(&["-c", "x=y", "exec", "--", "-literal"])),
        raw(&["-c", "x=y", "exec", "-c", MANAGED_UPDATE_OVERRIDE, "--", "-literal"])
    );
}

#[test]
fn service_stdout_is_clean_and_override_is_injected_before_delimiter() {
    assert_eq!(
        inject_managed_update_override(&raw(&["app-server", "--", "literal"])),
        raw(&["app-server", "-c", MANAGED_UPDATE_OVERRIDE, "--", "literal"])
    );
}

#[test]
fn interactive_classification_covers_tui_and_protocol_modes() {
    assert!(is_interactive_invocation(&args(&[])));
    assert!(is_interactive_invocation(&args(&["resume", "--last"])));
    assert!(is_interactive_invocation(&args(&["-m", "gpt-5", "fix it"])));
    assert!(!is_interactive_invocation(&args(&["exec", "fix it"])));
    assert!(!is_interactive_invocation(&args(&["app-server"])));
    assert!(!is_interactive_invocation(&args(&["help", "resume"])));
    assert!(!is_interactive_invocation(&args(&[
        "--enable", "foo", "exec", "fix it"
    ])));
    assert!(!is_interactive_invocation(&args(&[
        "--remote=ws://localhost:1",
        "app-server"
    ])));
    assert!(!is_interactive_invocation(&args(&["--version"])));
}

#[test]
fn new_subcommands_of_the_generation_are_not_interactive() {
    let known = args(&["future-io"]);
    assert!(!is_interactive_invocation_with_subcommands(
        &args(&["future-io"]),
        &known
    ));
    assert!(is_interactive_invocation_with_subcommands(
        &args(&["some prompt"]),
        &known
    ));
}

#[test]
fn repair_yolo_inheritance_only_recognizes_real_cli_flags() {
    assert!(invocation_uses_yolo_mode(&args(&["--yolo", "fix it"])));
    assert!(invocation_uses_yolo_mode(&args(&[
        "fix it",
        "--dangerously-bypass-approvals-and-sandbox"
    ])));
    assert!(!invocation_uses_yolo_mode(&args(&["fix --yolo"])));
    assert!(!invocation_uses_yolo_mode(&args(&["--", "--yolo"])));
}

#[test]
fn wrapped_update_accepts_management_flags_after_global_options() {
    assert_eq!(
        wrapped_update(&args(&[
            "-c",
            "foo=true",
            "update",
            "--retry",
            "--accept-force-push"
        ]))
        .unwrap(),
        Some(WrappedUpdate::Run(UpdateOptions {
            retry: true,
            accept_retag: false,
            accept_force_push: true,
            interactive: false,
            force_rebuild: false,
        }))
    );
    assert_eq!(
        wrapped_update(&args(&["update", "--help"])).unwrap(),
        Some(WrappedUpdate::Help)
    );
    assert_eq!(wrapped_update(&args(&["--", "update"])).unwrap(), None);
    assert!(wrapped_update(&args(&["update", "--wat"])).is_err());
}

#[test]
fn nightly_update_uses_an_immutable_commit_link() {
    let source = ResolvedSource {
        channel: "nightly".to_owned(),
        ref_name: "refs/heads/main".to_owned(),
        ref_object_oid: "a".repeat(40),
        commit_oid: "a".repeat(40),
        version: "0.0.0".to_owned(),
        release_url: None,
    };
    assert_eq!(
        source_link(&source).as_deref(),
        Some(format!("https://github.com/openai/codex/commit/{}", "a".repeat(40)).as_str())
    );
}

#[test]
fn windows_command_line_quotes_spaces_quotes_and_trailing_backslashes() {
    let quote = |value: &str| {
        let mut output = Vec::new();
        append_windows_argument(&mut output, &value.encode_utf16().collect::<Vec<_>>());
        String::from_utf16(&output).unwrap()
    };
    assert_eq!(quote("plain"), "plain");
    assert_eq!(quote("two words"), "\"two words\"");
    assert_eq!(quote("a\"b"), "\"a\\\"b\"");
    assert_eq!(quote("space\\"), "space\\");
    assert_eq!(quote("two words\\"), "\"two words\\\\\"");
}

#[test]
fn launches_are_classified_before_anything_is_checked() {
    assert!(matches!(
        classify_launch(false, &args(&["update", "--help"]), true).unwrap(),
        Launch::UpdateHelp
    ));
    assert!(matches!(
        classify_launch(false, &args(&["exec"]), true).unwrap(),
        Launch::Check
    ));
    assert!(classify_launch(true, &args(&["update"]), true).is_err());
    assert!(terminal_interactive(true, true, Some("xterm")));
    assert!(!terminal_interactive(true, false, Some("xterm")));
    assert!(!terminal_interactive(true, true, Some("dumb")));
}

#[test]
fn patch_change_is_observed_by_the_same_launch() {
    let mut state = installed();
    let changed = patches(b"new");
    let inputs = Ok((Config::default(), patches(b"new"), TARGET.to_owned()));
    match begin_refresh(&state, &inputs, NOW) {
        RefreshStep::Resolve { fallback, .. } => {
            let outcome = Ok(ResolveOutcome {
                source: source("1.2.3"),
                used_stale_cache: false,
                next_check_at: Some(NOW.plus_seconds(300)),
            });
            let record = finish_refresh(&outcome, fallback, &changed, TARGET, NOW);
            assert!(record_refresh(Platform::Posix, &mut state, "/patches", record, NOW));
        }
        other => panic!("{other:?}"),
    }
    assert!(matches!(state.probe.kind, ProbeKind::Pending));
    let desired = desired_for(&source("1.2.3"), &changed, TARGET);
    assert_eq!(state.probe.desired, Some(desired));
    assert!(patch_only_update(&state));
    let outcome = apply_noninteractive_policy(
        &state,
        &Ok(config(FailureMode::Error, NoninteractivePending::Error)),
    );
    match outcome {
        PolicyOutcome::Exit { lines } => {
            assert!(lines.join("\n").contains("a patched update is pending"))
        }
        other => panic!("{other:?}"),
    }
}

#[test]
fn upstream_change_is_observed_by_the_same_launch() {
    let mut state = installed();
    state.probe.next_check_at = Some(NOW);
    let inputs = Ok((Config::default(), patches(b"old"), TARGET.to_owned()));
    let later = NOW.plus_seconds(400);
    assert!(matches!(
        begin_refresh(&state, &inputs, later),
        RefreshStep::Resolve { .. }
    ));
    let outcome = Ok(ResolveOutcome {
        source: source("1.2.4"),
        used_stale_cache: false,
        next_check_at: None,
    });
    let record = finish_refresh(&outcome, None, &patches(b"old"), TARGET, later);
    assert!(record_refresh(Platform::Posix, &mut state, "/patches", record, later));
    assert!(matches!(state.probe.kind, ProbeKind::Pending));
    assert_eq!(
        state.probe.desired.as_ref().map(|desired| desired.source.clone()),
        Some(source("1.2.4"))
    );
    assert!(!patch_only_update(&state));
}

#[test]
fn same_version_patch_change_auto_activates_before_launch() {
    let state = pending(b"new", "1.2.3");
    match dispatch(&state, &args(&["app-server"]), false, &Ok(true)) {
        LaunchPlan::Rebuild { desired, .. } => {
            assert_eq!(Some(desired), state.probe.desired)
        }
        other => panic!("{other:?}"),
    }
    assert!(matches!(
        dispatch(&state, &args(&["app-server"]), false, &Ok(false)),
        LaunchPlan::Policy
    ));
}

#[test]
fn cached_synchronous_freshness_check_keeps_launch_fast() {
    let state = installed();
    let inputs = Ok((Config::default(), patches(b"old"), TARGET.to_owned()));
    assert!(matches!(
        begin_refresh(&state, &inputs, NOW.plus_seconds(1)),
        RefreshStep::Reuse
    ));
    assert!(cached_remote_freshness_is_valid(
        &state,
        &Config::default(),
        &patches(b"old"),
        TARGET,
        NOW.plus_seconds(299)
    ));
    assert!(!cached_remote_freshness_is_valid(
        &state,
        &Config::default(),
        &patches(b"old"),
        TARGET,
        NOW.plus_seconds(300)
    ));
    match dispatch(&state, &args(&["app-server"]), false, &Ok(true)) {
        LaunchPlan::Run { generation } => assert_eq!(generation.id, "generation-a"),
        other => panic!("{other:?}"),
    }
}

#[test]
fn invalid_local_patch_input_blocks_the_same_launch() {
    let mut state = installed();
    match begin_refresh(&state, &Err("series names a missing patch".to_owned()), NOW) {
        RefreshStep::LocalFailure(message) => {
            let record = RefreshRecord::LocalFailure { message };
            assert!(record_refresh(Platform::Posix, &mut state, "/patches", record, NOW));
        }
        other => panic!("{other:?}"),
    }
    assert!(state
        .probe
        .message
        .as_deref()
        .unwrap()
        .contains("local patch input is invalid"));
    assert!(matches!(
        dispatch(&state, &args(&["app-server"]), false, &Err("bad".to_owned())),
        LaunchPlan::Policy
    ));
}

#[test]
fn noninteractive_error_policy_refuses_pending_generation() {
    let state = pending(b"new", "1.2.3");
    match apply_noninteractive_policy(
        &state,
        &Ok(config(FailureMode::LastGood, NoninteractivePending::Error)),
    ) {
        PolicyOutcome::Exit { lines } => {
            assert!(lines.join("\n").contains("a patched update is pending"))
        }
        other => panic!("{other:?}"),
    }
}

#[test]
fn noninteractive_failure_prints_log_and_retry_command_without_protocol_output() {
    let mut state = pending(b"new", "1.2.3");
    let desired = state.probe.desired.as_ref().unwrap().clone();
    state.failure = Some(FailureRecord {
        id: "failure-123".to_owned(),
        desired,
        phase: "patch".to_owned(),
        summary: "patch 2 no longer applies".to_owned(),
        failed_patch_index: Some(2),
        failed_patch: Some("feature.patch".to_owned()),
        log_path: "/state/logs/failed-build.log".to_owned(),
        created_at: NOW,
        repair_worktree: None,
    });
    state.probe.kind = ProbeKind::Failed;
    state.probe.message = Some("patch 2 no longer applies".to_owned());
    // The launch checks freshness first and finds the failure of the same build.
    let record = RefreshRecord::Desired {
        desired: state.probe.desired.as_ref().unwrap().clone(),
        current_kind: ProbeKind::Current,
        message: None,
        next_check_at: None,
    };
    assert!(record_refresh(Platform::Posix, &mut state, "/patches", record, NOW));
    match apply_noninteractive_policy(
        &state,
        &Ok(config(FailureMode::Error, NoninteractivePending::Error)),
    ) {
        PolicyOutcome::Exit { lines } => {
            let text = lines.join("\n");
            assert!(text.contains("patch 2 no longer applies"), "{text}");
            assert!(text.contains("/state/logs/failed-build.log"), "{text}");
            assert!(text.contains("codex-patcher update --retry"), "{text}");
            assert_eq!(
                lines,
                vec![
                    "codex-patcher: cached build failure for this patch set: \
                     patch 2 no longer applies; use `codex-patcher update --retry`",
                    "log: /state/logs/failed-build.log",
                    "repair: codex-patcher repair failure-123",
                ]
            );
        }
        other => panic!("{other:?}"),
    }
}

#[test]
fn noninteractive_warn_run_policy_runs_validated_last_good() {
    let state = pending(b"new", "1.2.3");
    match apply_noninteractive_policy(
        &state,
        &Ok(config(FailureMode::Error, NoninteractivePending::WarnRun)),
    ) {
        PolicyOutcome::Run { generation, warning } => {
            assert_eq!(generation.id, "generation-a");
            assert!(warning.contains("running last-good patched Codex"), "{warning}");
        }
        other => panic!("{other:?}"),
    }
}

#[test]
fn noninteractive_auto_policy_derives_from_failure_mode() {
    let state = pending(b"new", "1.2.3");
    assert!(matches!(
        apply_noninteractive_policy(
            &state,
            &Ok(config(FailureMode::Error, NoninteractivePending::Auto))
        ),
        PolicyOutcome::Exit { .. }
    ));
    assert!(matches!(
        apply_noninteractive_policy(
            &state,
            &Ok(config(FailureMode::LastGood, NoninteractivePending::Auto))
        ),
        PolicyOutcome::Run { .. }
    ));
}

#[test]
fn interactive_launches_prompt_and_services_do_not() {
    let state = pending(b"old", "1.2.4");
    assert!(matches!(
        dispatch(&state, &args(&[]), true, &Ok(true)),
        LaunchPlan::PromptUpdate { .. }
    ));
    assert!(matches!(
        dispatch(&state, &args(&["app-server"]), true, &Ok(true)),
        LaunchPlan::Policy
    ));
    assert!(matches!(
        after_failed_update(true, true),
        AfterFailedUpdate::PromptFailure
    ));
    assert!(matches!(
        after_failed_update(false, true),
        AfterFailedUpdate::Policy
    ));
}

#[test]
fn failures_offer_a_repair_of_the_last_good_generation() {
    let mut state = pending(b"new", "1.2.3");
    let desired = state.probe.desired.as_ref().unwrap().clone();
    state.failure = Some(FailureRecord {
        id: "f".to_owned(),
        desired,
        phase: "patch".to_owned(),
        summary: "no".to_owned(),
        failed_patch_index: None,
        failed_patch: None,
        log_path: "/log".to_owned(),
        created_at: NOW,
        repair_worktree: None,
    });
    let screen = failure_screen(Platform::Posix, &state, "/logs");
    assert_eq!(screen.summary, "no");
    assert_eq!(screen.last_good_version.as_deref(), Some("1.2.3"));
    assert!(handle_interactive_failure(&state, FailureChoice::Repair));
    assert!(!handle_interactive_failure(&state, FailureChoice::Exit));
}

#[test]
fn consent_problems_are_blocked_and_leases_are_named_by_their_generation() {
    assert!(resolution_is_blocked("refusing a retag of the release"));
    assert!(!resolution_is_blocked("connection reset"));
    assert_eq!(
        lease_path(Platform::Posix, "/state", "abc").unwrap(),
        "/state/leases/abc.lock"
    );
    assert!(lease_path(Platform::Posix, "/state", "../abc").is_err());
}

#[test]
fn launch_rebuilds_refuse_inputs_that_moved_on() {
    let expected = desired_for(&source("1.2.3"), &patches(b"new"), TARGET);
    let config = Config::default();
    let built = resolve_build_inputs(&config, &patches(b"new"), TARGET, &expected).unwrap();
    assert!(built.same_as(&expected));
    assert_eq!(
        resolve_build_inputs(&config, &patches(b"newer"), TARGET, &expected).err().unwrap(),
        "patch inputs changed after the launch freshness check"
    );
    assert_eq!(
        resolve_build_inputs(&config, &patches(b"new"), "other-target", &expected).err().unwrap(),
        format!(
            "build target changed after the launch freshness check (expected {TARGET}, found other-target)"
        )
    );
    let mut nightly = Config::default();
    nightly.branch = Branch::Nightly;
    assert_eq!(
        resolve_build_inputs(&nightly, &patches(b"new"), TARGET, &expected).err().unwrap(),
        "release channel changed after the launch freshness check (expected stable, found nightly)"
    );
}

#[test]
fn windows_programs_are_started_with_one_line() {
    let wide = |value: &str| value.encode_utf16().collect::<Vec<u16>>();
    let line = windows_command_line(
        &wide("C:\\Program Files\\codex.exe"),
        &vec![wide("exec"), wide("two words"), wide("")],
    );
    assert_eq!(line.last(), Some(&0));
    assert_eq!(
        String::from_utf16(&line[..line.len() - 1]).unwrap(),
        "\"C:\\Program Files\\codex.exe\" exec \"two words\" \"\""
    );
}
