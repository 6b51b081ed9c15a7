use codex_patcher::tui::{
    failure_key, failure_option_count, menu_key, prompt_failure, prompt_update,
    render_failure_80x12, render_progress_80x12, render_update_80x12, sanitize_line, update_key,
    FailureChoice, FailureScreen, Key, KeyPress, ProgressScreen, RenderOptions, UpdateChoice,
    UpdateScreen,
};

fn update_screen() -> UpdateScreen {
    UpdateScreen {
        current_version: "0.144.0".to_owned(),
        desired_version: "0.145.0".to_owned(),
        current_patch_fingerprint: Some("111111111111".to_owned()),
        desired_patch_fingerprint: Some("222222222222".to_owned()),
        release_url: Some(
            "https://github.com/openai/codex/releases/tag/rust-v0.145.0".to_owned(),
        ),
    }
}

fn failure_screen(last_good: Option<&str>) -> FailureScreen {
    FailureScreen {
        current_version: "0.1".to_owned(),
        desired_version: "0.2".to_owned(),
        phase: "Apply patches".to_owned(),
        summary: "patch did not apply".to_owned(),
        failed_patch_index: None,
        failed_patch: Some("0001.patch".to_owned()),
        log_path: "/tmp/build.log".to_owned(),
        last_good_version: last_good.map(|version| version.to_owned()),
    }
}

fn key(key: Key) -> KeyPress {
    KeyPress { key, control: false, released: false }
}

#[test]
fn update_snapshot_is_exactly_80_by_12_and_matches_visual_grammar() {
    let mut screen = update_screen();
    let rendered = render_update_80x12(&screen, RenderOptions::plain_ascii());
    let rows: Vec<_> = rendered.lines().collect();
    assert_eq!(rows.len(), 12);
    assert!(rows.iter().all(|row| row.chars().count() == 80));
    assert_eq!(
        rows[1].trim_end(),
        "  * Update available! 0.144.0 -> 0.145.0  patches 11111111 -> 22222222"
    );
    assert_eq!(rows[5].trim_end(), "> 1. Build patched update now");
    assert_eq!(rows[6].trim_end(), "  2. Exit");

    screen.desired_version = screen.current_version.clone();
    let patch_only = render_update_80x12(
        &screen,
        RenderOptions {
            color: false,
            ascii: false,
        },
    );
    assert!(
        patch_only.contains("0.144.0 -> 0.144.0")
            && patch_only.contains("patches")
            && patch_only.contains('✨')
            && !patch_only.contains('\u{1b}')
    );
    screen.desired_patch_fingerprint = screen.current_patch_fingerprint.clone();
    assert!(!render_update_80x12(&screen, RenderOptions::plain_ascii()).contains("patches"));
}

#[test]
fn all_documented_update_keys_work_and_release_is_ignored() {
    for code in [Key::Up, Key::Down, Key::Char('j'), Key::Char('k')] {
        let mut selected = 0;
        assert_eq!(menu_key(&mut selected, 2, key(code)), None);
        assert_eq!(selected, 1);
    }

    let mut selected = 1;
    assert_eq!(
        update_key(&mut selected, key(Key::Enter)),
        Some(UpdateChoice::Exit)
    );
    assert_eq!(
        update_key(&mut selected, key(Key::Char('1'))),
        Some(UpdateChoice::Build)
    );
    assert_eq!(
        update_key(&mut selected, key(Key::Char('2'))),
        Some(UpdateChoice::Exit)
    );
    for code in [Key::Escape, Key::Char('c'), Key::Char('d')] {
        let press = KeyPress { key: code, control: code != Key::Escape, released: false };
        assert_eq!(update_key(&mut selected, press), Some(UpdateChoice::Exit));
    }
    let released = KeyPress { key: Key::Char('1'), control: false, released: true };
    assert_eq!(update_key(&mut selected, released), None);

    assert_eq!(
        failure_key(&mut selected, 2, key(Key::Char('1'))),
        Some(FailureChoice::Repair)
    );
    assert_eq!(
        failure_key(&mut selected, 2, key(Key::Char('2'))),
        Some(FailureChoice::Exit)
    );
    assert_eq!(
        failure_key(&mut selected, 1, key(Key::Char('1'))),
        Some(FailureChoice::Exit)
    );
}

#[test]
fn progress_handle_sanitizes_updates_and_can_run_detached() {
    let mut screen = ProgressScreen::new("0.1", "0.2");
    screen.set_phase("Apply\npatches");
    screen.set_latest_line("patch 1\rfailed");
    assert_eq!(screen.phase, "Apply patches");
    assert_eq!(screen.latest_line.as_deref(), Some("patch 1 failed"));
    let rendered = render_progress_80x12(&screen, RenderOptions::plain_ascii());
    assert!(rendered.contains("Phase  Apply patches"));
    screen.clear_latest_line();
    assert_eq!(screen.latest_line, None);
}

#[test]
fn failure_without_last_good_only_offers_exit() {
    let rendered = render_failure_80x12(&failure_screen(None), RenderOptions::plain_ascii());
    assert!(rendered.contains("> 1. Exit"));
    assert!(!rendered.contains("Repair with"));
}

#[test]
fn whole_prompts_come_to_their_answer() {
    assert_eq!(prompt_update(&vec![key(Key::Enter)]), Some(UpdateChoice::Build));
    assert_eq!(
        prompt_update(&vec![key(Key::Down), key(Key::Other), key(Key::Enter)]),
        Some(UpdateChoice::Exit)
    );
    assert_eq!(
        prompt_update(&vec![key(Key::Down), key(Key::Down), key(Key::Enter)]),
        Some(UpdateChoice::Build)
    );
    assert_eq!(prompt_update(&vec![key(Key::Up)]), None);
    let repairable = failure_screen(Some("0.1"));
    let final_one = failure_screen(None);
    assert_eq!(failure_option_count(&repairable), 2);
    assert_eq!(failure_option_count(&final_one), 1);
    assert_eq!(
        prompt_failure(&repairable, &vec![key(Key::Enter)]),
        Some(FailureChoice::Repair)
    );
    assert_eq!(
        prompt_failure(&final_one, &vec![key(Key::Down), key(Key::Enter)]),
        Some(FailureChoice::Exit)
    );
}

#[test]
fn controls_become_spaces_and_settings_choose_the_drawing() {
    assert_eq!(sanitize_line("a\u{1b}[1mb\tc"), "a [1mb c");
    let plain = RenderOptions::from_settings(true, false, true);
    assert!(!plain.color);
    let fresh = UpdateScreen::new("1", "2");
    assert_eq!(fresh.release_url, None);
}

#[test]
fn escapes_in_the_fields_never_reach_a_screen() {
    let hostile = "1.0\u{1b}[2J\n\t2".to_owned();
    let mut update = update_screen();
    update.current_version = hostile.clone();
    update.desired_version = hostile.clone();
    update.current_patch_fingerprint = Some("\u{1b}[1m".to_owned());
    update.release_url = Some(hostile.clone());
    let mut failure = failure_screen(Some(&hostile));
    failure.desired_version = hostile.clone();
    failure.log_path = hostile.clone();
    failure.phase = hostile.clone();
    failure.summary = hostile.clone();
    let mut progress = ProgressScreen::new(&hostile, &hostile);
    progress.log_path = Some(hostile.clone());
    let options = RenderOptions::plain_ascii();
    for rendered in [
        render_update_80x12(&update, options),
        render_failure_80x12(&failure, options),
        render_progress_80x12(&progress, options),
    ] {
        let rows: Vec<_> = rendered.split('\n').collect();
        assert_eq!(rows.len(), 12);
        assert!(rows.iter().all(|row| row.chars().count() == 80));
        assert!(rows.iter().all(|row| !row.chars().any(|c| c.is_control())));
        assert!(rendered.contains("1.0 [2J  2"));
    }
}
