use codex_patcher::config::{
    resolve_host_target, validate_target, validate_target_for_host, Branch, Config, FailureMode,
    NoninteractivePending, TargetSpec,
};

#[test]
fn host_mapping_and_explicit_targets_are_native_only() {
    assert_eq!(
        resolve_host_target("linux", "x86_64").unwrap(),
        "x86_64-unknown-linux-gnu"
    );
    assert_eq!(
        resolve_host_target("macos", "aarch64").unwrap(),
        "aarch64-apple-darwin"
    );
    assert!(resolve_host_target("freebsd", "x86_64").is_err());
    assert!(validate_target_for_host("x86_64-unknown-linux-gnu", "linux", "x86_64").is_ok());
    assert!(validate_target_for_host("x86_64-unknown-linux-musl", "linux", "x86_64").is_ok());
    assert!(validate_target_for_host("aarch64-unknown-linux-musl", "linux", "x86_64").is_err());
    assert!(validate_target_for_host("x86_64-pc-windows-msvc", "linux", "x86_64").is_err());
}

#[test]
fn documented_config_spellings_defaults_and_schema_are_strict() {
    assert!(matches!(
        TargetSpec::parse("x86_64-unknown-linux-gnu").unwrap(),
        TargetSpec::Triple(name) if name == "x86_64-unknown-linux-gnu"
    ));
    assert!(matches!(
        TargetSpec::parse("official-native").unwrap(),
        TargetSpec::OfficialNative
    ));
    assert!(matches!(
        TargetSpec::parse("native").unwrap(),
        TargetSpec::OfficialNative
    ));
    let config = Config::default();
    assert!(matches!(config.target, TargetSpec::OfficialNative));
    assert!(matches!(config.failure_mode, FailureMode::Error));
    assert!(matches!(
        config.noninteractive_pending,
        NoninteractivePending::Auto
    ));
    assert!(config.auto_rebuild_patches);
    assert!(config.target.name().contains("native"));
    assert!(config.validate("linux", "x86_64").is_ok());
    let mut other = Config::default();
    other.schema = 2;
    assert!(other.validate("linux", "x86_64").is_err());
}

#[test]
fn targets_read_back_and_resolve_natively() {
    assert!(validate_target("sparc-sun-solaris").is_err());
    let target = TargetSpec::parse("aarch64-apple-darwin").unwrap();
    assert_eq!(target.name(), "aarch64-apple-darwin");
    assert_eq!(
        target.resolve("macos", "aarch64").unwrap(),
        "aarch64-apple-darwin"
    );
    assert!(target.resolve("linux", "x86_64").is_err());
    assert_eq!(
        Config::default().resolved_target("windows", "x86_64").unwrap(),
        "x86_64-pc-windows-msvc"
    );
}

#[test]
fn branch_names_differ() {
    assert_eq!(Branch::Stable.as_str(), "stable");
    assert_eq!(Branch::Alpha.as_str(), "alpha");
    assert_eq!(Branch::Nightly.as_str(), "nightly");
}
