use codex_patcher::build::checkout::{
    check_mirror_origin, check_validation_output, next_source_step, next_worktree_step,
    SourceStep, WorktreeStep,
};
use codex_patcher::build::plan::{
    next_build_step, BuildFacts, BuildPhase, BuildPlan, BuildStep, Existing,
};
use codex_patcher::build::{
    build_cache_dir, build_log_name, build_worktree_dir, check_commands, check_manifest,
    check_outputs, display_user_path, hash_tree, metadata_matches, new_generation,
    package_builder_failure_summary, package_builder_log_diagnostic, parse_subcommands,
    required_package_files, sanitize_line, source_fetch_refspec, source_ref,
    transient_network_failure, validate_package, verify_workspace_version, BuildFailure,
    OutputEntry, PackageFacts, PackageFile, PackageMetadata,
};
use codex_patcher::paths::{PatcherPaths, Platform};
use codex_patcher::types::{DesiredBuild, GenerationManifest, ResolvedSource, Timestamp};

fn source() -> ResolvedSource {
    ResolvedSource {
        channel: "stable".to_owned(),
        ref_name: "refs/tags/rust-v1.2.3".to_owned(),
        ref_object_oid: "a".repeat(40),
        commit_oid: "b".repeat(40),
        version: "1.2.3".to_owned(),
        release_url: None,
    }
}

fn desired(target: &str) -> DesiredBuild {
    DesiredBuild {
        source: source(),
        patch_fingerprint: "c".repeat(64),
        target: target.to_owned(),
        source_key: "d".repeat(64),
    }
}

#[test]
fn log_lines_drop_terminal_controls_and_are_bounded() {
    let source = format!("\u{1b}[31m{}\n", "x".repeat(400));
    let clean = sanitize_line(&source);
    assert!(!clean.contains('\u{1b}'));
    assert_eq!(clean.chars().count(), 301);
}

#[test]
fn fetch_refspec_does_not_duplicate_the_resolved_tag_namespace() {
    let desired = desired("x86_64-unknown-linux-musl");
    assert_eq!(
        source_fetch_refspec(&desired, "refs/codex-patcher/source/test"),
        "+refs/tags/rust-v1.2.3:refs/codex-patcher/source/test"
    );
}

#[test]
fn help_subcommands_are_captured_for_dispatch_classification() {
    let help = "Codex CLI\n\nCommands:\n  exec        Run\n  app-server  Serve\n  resume      Resume\n  fork        Fork\n  future-io   New protocol\n  help        Help\n\nArguments:\n  [PROMPT]\n";
    assert_eq!(
        parse_subcommands(help).unwrap(),
        ["app-server", "exec", "fork", "future-io", "help", "resume"]
    );
}

#[test]
fn only_network_build_failures_are_marked_transient() {
    let network = b"spurious network error: failed to download crate\n".to_vec();
    assert!(BuildFailure::new("build", "builder failed", "/log", &network).transient);
    assert!(!BuildFailure::new("patch", "builder failed", "/log", &network).transient);
    let types = b"error[E0308]: mismatched types\n".to_vec();
    assert!(!BuildFailure::new("build", "builder failed", "/log", &types).transient);
    assert!(transient_network_failure("build", "builder failed", &network));
}

#[test]
fn package_builder_failures_surface_the_first_useful_diagnostic() {
    let log = b"error[E0463]: can't find crate for `core`\n\
          = note: the `x86_64-unknown-linux-musl` target may not be installed\n\
          error: could not compile `cfg-if`\n"
        .to_vec();
    assert_eq!(
        package_builder_log_diagnostic("x86_64-unknown-linux-musl", &log).as_deref(),
        Some("Rust target x86_64-unknown-linux-musl is not installed for Codex's pinned toolchain")
    );
    let log = b"warning: noisy\nerror: linking with `cc` failed\nTraceback (most recent call last)\n"
        .to_vec();
    assert_eq!(
        package_builder_log_diagnostic("x86_64-unknown-linux-gnu", &log).as_deref(),
        Some("package builder failed: error: linking with `cc` failed")
    );
}

#[test]
fn a_builder_without_a_diagnostic_reports_its_status() {
    let log = b"nothing of note\n".to_vec();
    let summary = package_builder_failure_summary("exit status: 3", "t", Some(&log));
    assert!(summary.contains("exit status: 3"), "{summary}");
}

#[test]
fn compatible_source_keys_reuse_a_warm_incremental_cache() {
    let paths = PatcherPaths::from_home("/home/test/patcher", Platform::Posix);
    let first_desired = desired("x86_64-unknown-linux-gnu");
    let second_desired = DesiredBuild {
        source_key: "e".repeat(64),
        patch_fingerprint: "f".repeat(64),
        ..first_desired.clone()
    };
    let first = build_cache_dir(&paths, &first_desired);
    let second = build_cache_dir(&paths, &second_desired);
    let first_worktree = build_worktree_dir(&paths, &first_desired).unwrap();
    let second_worktree = build_worktree_dir(&paths, &second_desired).unwrap();
    assert_ne!(first_desired.source_key, second_desired.source_key);
    assert_eq!(first, second);
    assert_eq!(first_worktree, second_worktree);
    assert_eq!(
        first,
        "/home/test/patcher/cache/cargo-target/x86_64-unknown-linux-gnu/dev-small"
    );
}

#[test]
fn clean_lines_drop_escape_sequences_and_keep_text() {
    assert_eq!(sanitize_line("plain text"), "plain text");
    assert!(!sanitize_line("a\u{7}b").contains('\u{7}'));
}

#[test]
fn failures_name_their_phase_and_log() {
    let failure = BuildFailure::new("patch", "hunk failed", "/home/me/log.txt", &Vec::new())
        .patch(1, "two.patch");
    assert_eq!(failure.failed_patch_index, Some(1));
    assert_eq!(failure.failed_patch.as_deref(), Some("two.patch"));
    assert_eq!(
        failure.message(Platform::Posix, Some("/home/me")),
        "patch: hunk failed (details: ~/log.txt)"
    );
    assert_eq!(
        failure.message(Platform::Posix, None),
        "patch: hunk failed (details: /home/me/log.txt)"
    );
    assert_eq!(display_user_path(Platform::Posix, "/home/me", Some("/home/me")), "~");
}

#[test]
fn workspace_versions_must_be_the_resolved_ones() {
    let desired = desired("x86_64-unknown-linux-gnu");
    let right = "[workspace.package]\nversion = \"1.2.3\"\n";
    let wrong = "[workspace.package]\nversion = \"1.2.4\"\n";
    assert!(verify_workspace_version(right, &desired).is_ok());
    assert!(verify_workspace_version(wrong, &desired).is_err());
    assert!(verify_workspace_version("[workspace.package]\n", &desired).is_err());
    let unreadable = verify_workspace_version("version = ", &desired).err().unwrap();
    let parser = toml::from_str::<toml::Value>("version = ").err().unwrap();
    assert_eq!(unreadable, parser.to_string());
}

fn metadata() -> PackageMetadata {
    PackageMetadata {
        layout_version: 1,
        version: "1.2.3".to_owned(),
        target: "x86_64-unknown-linux-gnu".to_owned(),
        variant: "codex".to_owned(),
        entrypoint: "bin/codex".to_owned(),
        resources_dir: "codex-resources".to_owned(),
        path_dir: "codex-path".to_owned(),
    }
}

#[test]
fn packages_of_another_version_are_refused() {
    let desired = desired("x86_64-unknown-linux-gnu");
    let good = metadata_matches(&metadata(), &desired);
    let mut other = metadata();
    other.version = "9.9.9".to_owned();
    assert!(!metadata_matches(&other, &desired));
    let files = required_package_files("x86_64-unknown-linux-gnu");
    let facts = |metadata: PackageMetadata, version: &str| PackageFacts {
        package: "/p".to_owned(),
        metadata,
        metadata_text: "{}".to_owned(),
        bin_dir: true,
        resources_dir: true,
        path_dir: true,
        files: files.iter().map(|_| PackageFile::Fine).collect(),
        version: version.to_owned(),
        help: "Commands:\n  exec  Run\n  resume  R\n  fork  F\n  app-server  S\n\n".to_owned(),
    };
    let checked = validate_package(
        Platform::Posix,
        &facts(metadata(), "codex-cli 1.2.3"),
        &desired,
    );
    assert_eq!(checked.is_ok(), good, "{checked:?}");
    assert!(validate_package(Platform::Posix, &facts(other, "codex-cli 1.2.3"), &desired).is_err());
    let mut bare = facts(metadata(), "codex-cli 1.2.3");
    bare.bin_dir = false;
    assert!(validate_package(Platform::Posix, &bare, &desired).is_err());
    let mut unlisted = facts(metadata(), "codex-cli 1.2.3");
    unlisted.files.pop();
    assert_eq!(
        validate_package(Platform::Posix, &unlisted, &desired).err().unwrap(),
        "canonical package is missing codex-resources/zsh/bin/zsh"
    );
}

#[test]
fn manifests_are_held_to_their_outputs_and_commands() {
    let paths = PatcherPaths::from_home("/home/test/patcher", Platform::Posix);
    let desired = desired("x86_64-unknown-linux-gnu");
    let commands = vec!["exec".to_owned()];
    let now = Timestamp { nanos: 5 };
    let generation = new_generation(&paths, &desired, &commands, now);
    assert_eq!(generation.source_key, desired.source_key);
    assert_eq!(generation.desired(), desired);
    let outputs = hash_tree(&vec![
        OutputEntry { path: "b".to_owned(), bytes: b"2".to_vec() },
        OutputEntry { path: "a".to_owned(), bytes: b"1".to_vec() },
    ]);
    assert_eq!(outputs.len(), 2);
    let twice = hash_tree(&vec![
        OutputEntry { path: "a/b".to_owned(), bytes: b"2".to_vec() },
        OutputEntry { path: "a".to_owned(), bytes: b"1".to_vec() },
        OutputEntry { path: "a\\b".to_owned(), bytes: b"1".to_vec() },
    ]);
    assert_eq!(twice[1].path, twice[2].path);
    assert_ne!(twice[1].sha256, outputs[0].sha256);
    assert_eq!(twice[2].sha256, outputs[0].sha256);
    assert_eq!(
        outputs[0].sha256,
        "6b86b273ff34fce19d6b804eff5a3f5747ada4eaa22f1d49c01e52ddb7875b4b"
    );
    let manifest = GenerationManifest {
        schema: 1,
        generation,
        outputs,
        rustc: None,
        cargo: None,
        python: None,
        linker: None,
        sdk: None,
        environment: Vec::new(),
    };
    assert!(check_commands(&manifest, &commands, "k").is_ok());
    assert!(check_commands(&manifest, &Vec::new(), "k").is_err());
    let other = hash_tree(&vec![OutputEntry { path: "a".to_owned(), bytes: b"1".to_vec() }]);
    assert!(check_outputs(&manifest, &other, "k").is_err());
    let mut foreign = desired.clone();
    foreign.source_key = "0".repeat(64);
    assert!(check_manifest(Platform::Posix, &manifest, "/m", &foreign).is_err());
}

#[test]
fn source_refs_and_log_names_carry_the_source_key() {
    let key = "d".repeat(64);
    assert!(source_ref(&key).contains(&key[..12]));
    assert!(build_log_name("20260101T000000Z", &key).contains("20260101T000000Z"));
}

fn plan() -> BuildPlan {
    BuildPlan {
        desired: desired("x86_64-unknown-linux-gnu"),
        previous: None,
        patch_count: 2,
        patch_fingerprint: "c".repeat(64),
        allow_force_push: false,
        retry: false,
        force_rebuild: false,
    }
}

#[test]
fn builds_look_for_an_existing_generation_first() {
    let mut facts = BuildFacts::new();
    assert!(matches!(
        next_build_step(&plan(), &facts, "/g"),
        BuildStep::LookForExisting
    ));
    facts.existing = Some(Existing::Valid);
    assert!(matches!(next_build_step(&plan(), &facts, "/g"), BuildStep::Reuse));
    facts.existing = Some(Existing::Absent);
    assert!(matches!(next_build_step(&plan(), &facts, "/g"), BuildStep::Fetch));
}

#[test]
fn a_patch_that_does_not_apply_stops_the_build() {
    let mut facts = BuildFacts::new();
    facts.existing = Some(Existing::Absent);
    facts.fetched = Some(Ok(("a".repeat(40), "b".repeat(40))));
    facts.checkout = Some(Ok(()));
    facts.version_before = Some(Ok(()));
    assert!(matches!(
        next_build_step(&plan(), &facts, "/g"),
        BuildStep::CheckPatch(1)
    ));
    facts.patch_checked = true;
    assert!(matches!(
        next_build_step(&plan(), &facts, "/g"),
        BuildStep::ApplyPatch(1)
    ));
    facts.applied = 1;
    facts.patch_checked = false;
    facts.patch_error = Some("hunk failed".to_owned());
    match next_build_step(&plan(), &facts, "/g") {
        BuildStep::Fail { phase, patch, .. } => {
            assert_eq!(phase, BuildPhase::Patch);
            assert_eq!(patch, Some(2));
        }
        other => panic!("{other:?}"),
    }
}

#[test]
fn stable_worktrees_are_reset_and_reused() {
    assert_eq!(next_worktree_step(false, None, None), WorktreeStep::Recreate);
    assert_eq!(next_worktree_step(true, None, None), WorktreeStep::Reset);
    assert_eq!(next_worktree_step(true, Some(true), None), WorktreeStep::Clean);
    assert_eq!(next_worktree_step(true, Some(true), Some(true)), WorktreeStep::Reuse);
    assert_eq!(next_worktree_step(true, Some(false), None), WorktreeStep::Recreate);
    assert_eq!(next_worktree_step(true, Some(true), Some(false)), WorktreeStep::Recreate);
}

#[test]
fn repairs_start_from_the_resolved_source() {
    let desired = plan().desired;
    let right = (desired.source.ref_object_oid.clone(), desired.source.commit_oid.clone());
    let wrong = ("0".repeat(40), "1".repeat(40));
    let missing = Err("unknown revision".to_owned());
    assert!(matches!(
        next_source_step(&desired, &Ok(right.clone()), &None),
        SourceStep::Use
    ));
    assert!(matches!(next_source_step(&desired, &missing, &None), SourceStep::Fetch));
    assert!(matches!(
        next_source_step(&desired, &Ok(wrong.clone()), &Some(Ok(right.clone()))),
        SourceStep::Use
    ));
    match next_source_step(&desired, &missing, &Some(Ok(wrong.clone()))) {
        SourceStep::Fail { message } => assert_eq!(
            message,
            format!(
                "repair source identity changed: expected {}/{}, got {}/{}",
                right.0, right.1, wrong.0, wrong.1
            )
        ),
        other => panic!("{other:?}"),
    }
}

#[test]
fn mirrors_and_outputs_are_checked() {
    assert!(check_mirror_origin("https://github.com/openai/codex.git\n").is_ok());
    assert_eq!(
        check_mirror_origin("https://example.com/x.git").err().unwrap(),
        "private mirror origin is https://example.com/x.git, expected https://github.com/openai/codex.git"
    );
    assert!(check_validation_output(4_194_304).is_ok());
    assert_eq!(
        check_validation_output(4_194_305).err().unwrap(),
        "validation command emitted more than 4194304 bytes"
    );
}
