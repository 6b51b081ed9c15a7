use codex_patcher::candidates::{
    discover, discover_with_options, plan_probes, SeedFacts,
};
use codex_patcher::discovery::{
    bounded_command_output, bracketed_rank, classify_owner, compact_display_text, is_bare_command,
    is_protected_bundle_path, parse_codex_version, probe_version, probe_version_detailed,
    retries_busy, risk_for,
    surface_precedence, update_method_for, version_command, DiscoveryOptions, PrecedenceScope,
    ProbeRun, ProbeStatus, Redirectability, SurfaceOwner, SurfaceRisk, UpdateMethod, VersionProbe,
};
use codex_patcher::discovery_seeds::{
    bun_default_surfaces, cli_override, command_names_for, desktop_surfaces, find_on_path,
    homebrew_surfaces, launcher_queries, lookup_paths, manager_surfaces, package_leaves,
    package_queries, parsed_shell_resolutions, patcher_surface, path_surfaces, powershell_payload,
    powershell_surfaces,
    present_seeds, primary_command_file_name, resolution_surface, shell_arguments,
    standalone_surfaces, PackageEntry, PowerShellResolution, ResolutionFacts, SurfaceSeed,
};
use codex_patcher::paths::Platform;
use codex_patcher::shim::FileIdentity;

fn texts(values: &[&str]) -> Vec<String> {
    values.iter().map(|value| value.to_string()).collect()
}

fn finished(stdout: &[u8]) -> ProbeRun {
    ProbeRun::Finished {
        success: true,
        status: "exit status: 0".to_owned(),
        stdout: stdout.to_vec(),
        stderr: Vec::new(),
    }
}

#[test]
fn version_probe_parses_codex_and_kills_a_hung_candidate() {
    let probe = probe_version_detailed(&finished(b"codex-cli 1.2.3\n"), 5);
    assert_eq!(
        (probe.status, probe.version.as_deref()),
        (ProbeStatus::Succeeded, Some("1.2.3")),
        "{probe:#?}"
    );
    assert_eq!(parse_codex_version("noise"), None);
    let probe = probe_version_detailed(&ProbeRun::TimedOut { timeout_ms: 30 }, 31);
    assert_eq!(probe.status, ProbeStatus::TimedOut, "{probe:#?}");
    assert_eq!(probe.error.as_deref(), Some("exceeded 30 ms"));
}

#[test]
fn versions_are_read_as_their_grammar_says() {
    let regex = regex::Regex::new(
        r"(?m)(?:^|\s)([0-9]+\.[0-9]+\.[0-9]+(?:[-+][0-9A-Za-z.-]+)?)\s*$",
    )
    .unwrap();
    let matched = |output: &str| {
        regex
            .captures(output.trim())
            .and_then(|captures| captures.get(1))
            .map(|value| value.as_str().to_string())
    };
    let pieces = [
        "1.2.3", "codex-cli", "1.2", "1.2.3.4", "0.0.0-alpha.1", "1.2.3+b.7", "1.2.3-", "v1.2.3",
        " ", "\n", "\r\n", "\t", "\u{2028}", "10.20.30-x-y", "1.2.3-ä", "", "12.3.4 ",
    ];
    for a in pieces {
        for b in pieces {
            let text = format!("{a}{b}");
            assert_eq!(parse_codex_version(&text), matched(&text), "{text:?}");
            let text = format!("x {a}\n{b} y\n{a} {b}\n");
            assert_eq!(parse_codex_version(&text), matched(&text), "{text:?}");
        }
    }
    assert_eq!(
        parse_codex_version("warning\ncodex-cli 1.2.3-alpha.4\nmore").as_deref(),
        Some("1.2.3-alpha.4")
    );
}

#[test]
fn failed_probes_keep_what_was_printed() {
    let probe = probe_version_detailed(
        &ProbeRun::Finished {
            success: false,
            status: "exit status: 2".to_owned(),
            stdout: Vec::new(),
            stderr: b" broken \n".to_vec(),
        },
        1,
    );
    assert_eq!(probe.status, ProbeStatus::Failed);
    assert_eq!(probe.output.as_deref(), Some("broken"));
    assert_eq!(probe.error.as_deref(), Some("exit status exit status: 2"));
    assert_eq!(
        probe_version("/c", &probe).err().unwrap(),
        "version probe failed for /c: exit status exit status: 2"
    );
    let odd = probe_version_detailed(&finished(b"hello"), 1);
    assert_eq!(odd.error.as_deref(), Some("unrecognized version output"));
    let gone = probe_version_detailed(&ProbeRun::Unavailable { message: "no".to_owned() }, 1);
    assert_eq!(gone.error.as_deref(), Some("no"));
    assert_eq!(probe_version("/c", &VersionProbe::not_run()).unwrap(), None);
    let slow = probe_version_detailed(&ProbeRun::TimedOut { timeout_ms: 1 }, 1);
    assert_eq!(
        probe_version("/c", &slow).err().unwrap(),
        "version probe timed out for /c"
    );
}

#[test]
fn path_surfaces_are_not_deduplicated_after_resolution() {
    let seeds = path_surfaces(Platform::Posix, &texts(&["/one", "/two"]), &texts(&["codex"]));
    assert_eq!(seeds.len(), 2);
    assert_ne!(seeds[0].raw, seeds[1].raw);
    let facts: Vec<SeedFacts> = seeds
        .iter()
        .map(|_| SeedFacts {
            exists: true,
            launchable: true,
            resolved: Some("/real-codex".to_owned()),
            inspected: Err("not looked at".to_owned()),
        })
        .collect();
    let options = DiscoveryOptions::default();
    let plan = plan_probes(Platform::Posix, &seeds, &facts, &options);
    assert_eq!(plan, ["/real-codex"]);
    let probes = vec![probe_version_detailed(&finished(b"codex-cli 9.8.7\n"), 1)];
    let found = discover("/patcher", &seeds, &facts, &probes, Platform::Posix);
    assert_eq!(found.len(), 2);
    assert_eq!(found[0].resolved, found[1].resolved);
    assert_ne!(found[0].raw, found[1].raw);
    assert_eq!(found[1].version.as_deref(), Some("9.8.7"));
    assert!(found[0].current && !found[1].current);
    assert_eq!(found[0].display_path(), "/real-codex");
}

#[test]
fn managed_and_protected_surfaces_keep_their_redirectability() {
    assert_eq!(
        update_method_for(SurfaceOwner::Daemon),
        UpdateMethod::OfficialStandalone
    );
    let package = risk_for(SurfaceOwner::Npm, true);
    assert_eq!(
        (package.0, package.1),
        (Redirectability::OwnerManaged, SurfaceRisk::Critical)
    );
    let (redirectability, risk, reason) = risk_for(SurfaceOwner::Daemon, false);
    assert_eq!(
        (redirectability, risk),
        (Redirectability::OwnerManaged, SurfaceRisk::Critical)
    );
    assert!(reason.contains("daemon path"));
    assert!(!is_protected_bundle_path(
        "/home/test/.codex/packages/standalone/current/codex",
        &None,
    ));
    for path in [
        "/Applications/Codex.app/Contents/Resources/codex",
        r"C:\Program Files\WindowsApps\OpenAI.Codex\codex.exe",
    ] {
        assert!(is_protected_bundle_path(path, &None));
    }
    assert!(!is_protected_bundle_path("/usr/local/bin/codex", &None));
}

#[test]
fn shell_resolution_process_is_bounded_and_command_only() {
    assert_eq!(
        shell_arguments("zsh").unwrap(),
        ["-i", "-c", "whence -va -- codex"]
    );
    assert_eq!(shell_arguments("tcsh"), None);
    let output = "codex is an alias for '/tmp/codex'\ncodex is a shell function\ncodex is /usr/bin/codex\n";
    let seeds = parsed_shell_resolutions("zsh", output);
    assert_eq!(seeds.len(), 2);
    assert!(seeds
        .iter()
        .all(|seed| !seed.probeable && seed.read_only_reason.is_some()));
    assert!(seeds[0].origin.contains("alias") && seeds[0].current);
    assert!(seeds[1].origin.contains("function") && !seeds[1].current);
    let many = "codex is an alias\n".repeat(40);
    assert_eq!(parsed_shell_resolutions("bash", &many).len(), 16);
}

#[test]
fn parses_bounded_powershell_get_command_results() {
    let output = concat_text(&[
        "profile banner\n",
        "__CODEX_PATCHER_GET_COMMAND_BEGIN__\n",
        r#"[{"Name":"codex","CommandType":"Alias","Path":"","Source":"","Definition":"Invoke-Codex"},{"Name":"codex.exe","CommandType":"Application","Path":"C:\\tools\\codex.exe","Source":"C:\\tools\\codex.exe","Definition":"C:\\tools\\codex.exe"}]"#,
        "\n__CODEX_PATCHER_GET_COMMAND_END__\n",
        "profile trailer\n",
    ]);
    let payload = powershell_payload(&output);
    let values: Vec<serde_json::Value> = serde_json::from_str(&payload).unwrap();
    let field = |value: &serde_json::Value, name: &str| {
        value.get(name).and_then(|text| text.as_str()).unwrap().to_owned()
    };
    let parsed: Vec<PowerShellResolution> = values
        .iter()
        .map(|value| PowerShellResolution {
            name: field(value, "Name"),
            command_type: field(value, "CommandType"),
            path: field(value, "Path"),
            source: field(value, "Source"),
            definition: field(value, "Definition"),
        })
        .collect();
    assert_eq!(parsed.len(), 2);
    assert_eq!(
        (parsed[0].command_type.as_str(), parsed[0].definition.as_str()),
        ("Alias", "Invoke-Codex")
    );
    assert_eq!(parsed[1].path, r"C:\tools\codex.exe");
    let facts = ResolutionFacts { definition_found: false, file_present: true };
    let alias = resolution_surface("pwsh.exe", 0, &parsed[0], facts).unwrap();
    assert_eq!(alias.raw, "PowerShell Alias codex -> Invoke-Codex");
    assert!(alias.current && !alias.probeable);
    let application = resolution_surface("pwsh.exe", 1, &parsed[1], facts).unwrap();
    assert_eq!(application.raw, r"C:\tools\codex.exe");
    assert_eq!(application.origin, "powershell-pwsh.exe[1]-application");
    let both = powershell_surfaces("pwsh.exe", &parsed, &vec![facts, facts]);
    assert_eq!(both.len(), 2);
    assert!(!both[1].current);
    let gone = ResolutionFacts { definition_found: false, file_present: false };
    assert!(resolution_surface("pwsh.exe", 1, &parsed[1], gone).is_none());
}

fn concat_text(pieces: &[&str]) -> String {
    pieces.join("")
}

#[test]
fn payloads_without_marks_are_taken_whole() {
    assert_eq!(powershell_payload("  [] \n"), "[]");
}

#[test]
fn origins_give_ranks() {
    let precedence = surface_precedence("PATH[3]", true);
    assert_eq!(precedence.scope, PrecedenceScope::Path);
    assert_eq!(precedence.rank, Some(4));
    assert_eq!(precedence.label(), "PATH[4]*");
    assert_eq!(surface_precedence("CODEX_CLI_PATH", false).label(), "cli-override[1]");
    assert_eq!(surface_precedence("bun-default", false).label(), "known-location");
    assert_eq!(surface_precedence("shell-zsh[0]-alias", true).label(), "shell[1]*");
    assert_eq!(bracketed_rank("PATH[x]"), None);
    assert_eq!(bracketed_rank("PATH"), None);
    assert_eq!(UpdateMethod::HomebrewCask.label(), "homebrew-cask");
    assert!(SurfaceOwner::Npm.is_external_manager());
    assert!(!SurfaceOwner::Manual.is_external_manager());
}

#[test]
fn owners_are_read_from_paths() {
    let owner = |raw: &str, resolved: Option<&str>| {
        classify_owner(
            Platform::Posix,
            SurfaceOwner::Unknown,
            raw,
            &resolved.map(|path| path.to_owned()),
            "/home/me/.patcher",
        )
    };
    assert_eq!(owner("/home/me/.patcher/bin/x", None), SurfaceOwner::Patcher);
    assert_eq!(owner("/home/me/.bun/bin/codex", None), SurfaceOwner::Bun);
    assert_eq!(
        owner("/usr/bin/codex", Some("/usr/lib/node_modules/@openai/codex/x")),
        SurfaceOwner::Npm
    );
    assert_eq!(owner("/opt/homebrew/Caskroom/codex/1/codex", None), SurfaceOwner::Homebrew);
    assert_eq!(owner("/usr/bin/codex", None), SurfaceOwner::Manual);
    assert_eq!(
        classify_owner(Platform::Posix, SurfaceOwner::Daemon, "/home/me/.bun/x", &None, "/h"),
        SurfaceOwner::Daemon
    );
    let windows = |raw| {
        let home = "C:\\Users\\me\\patcher";
        classify_owner(Platform::Windows, SurfaceOwner::Unknown, raw, &None, home)
    };
    assert_eq!(windows("c:/Users/me/patcher/bin/codex.exe"), SurfaceOwner::Patcher);
    assert_eq!(windows("C:\\Users\\me\\.bun\\bin\\codex.exe"), SurfaceOwner::Bun);
}

#[test]
fn display_texts_are_compact() {
    assert_eq!(compact_display_text(" a \t\n b\u{7}c ", 512), "a b c");
    assert_eq!(compact_display_text("abcdef", 3), "abc");
    assert!(is_bare_command(Platform::Posix, "codex"));
    assert!(!is_bare_command(Platform::Posix, "./codex"));
    assert!(!is_bare_command(Platform::Posix, "/codex"));
    assert_eq!(bounded_command_output(&b" /usr \n".to_vec(), 64).as_deref(), Some("/usr"));
    assert_eq!(bounded_command_output(&b"abc".to_vec(), 2), None);
    assert_eq!(bounded_command_output(&b"  ".to_vec(), 64), None);
}

#[test]
fn commands_are_looked_up_under_their_names() {
    assert_eq!(command_names_for("codex", Platform::Posix, ""), ["codex"]);
    assert_eq!(
        command_names_for("codex", Platform::Windows, ".EXE;;.CMD;.exe"),
        ["codex.exe", "codex.cmd", "codex"]
    );
    assert_eq!(command_names_for("a.ps1", Platform::Windows, ".EXE"), ["a.ps1"]);
    let places = lookup_paths(Platform::Posix, &texts(&["/a", "/b"]), &texts(&["codex"]));
    assert_eq!(places, ["/a/codex", "/b/codex"]);
    assert_eq!(find_on_path(&places, &vec![false, true]).as_deref(), Some("/b/codex"));
    assert_eq!(find_on_path(&places, &vec![false, false]), None);
    assert_eq!(primary_command_file_name(Platform::Windows), "codex.exe");
    assert_eq!(
        version_command("C/codex.cmd", Platform::Windows),
        ["cmd.exe", "/D", "/C", "C/codex.cmd", "--version"]
    );
    assert_eq!(version_command("/c", Platform::Posix), ["/c", "--version"]);
}

#[test]
fn overrides_lead_into_directories_and_along_the_path() {
    let names = texts(&["codex"]);
    let seed = cli_override("/dir", true, &names, &vec![false], &None, Platform::Posix).unwrap();
    assert_eq!(seed.raw, "/dir/codex");
    assert!(seed.current);
    let found = Some("/usr/bin/codex".to_owned());
    let seed = cli_override("codex", false, &names, &vec![false], &found, Platform::Posix).unwrap();
    assert_eq!(seed.raw, "/usr/bin/codex");
    let seed = cli_override("/x/y", false, &names, &vec![false], &found, Platform::Posix).unwrap();
    assert_eq!(seed.raw, "/x/y");
    assert!(cli_override("", false, &names, &vec![false], &None, Platform::Posix).is_none());
}

#[test]
fn known_locations_are_looked_at() {
    let names = texts(&["codex"]);
    let seeds = standalone_surfaces(
        "/h/.codex",
        &None,
        &Some("/h".to_owned()),
        &names,
        Platform::Posix,
    );
    let raws: Vec<_> = seeds.iter().map(|seed| seed.raw.as_str()).collect();
    assert_eq!(
        raws,
        [
            "/h/.codex/packages/standalone/current/bin/codex",
            "/h/.codex/packages/standalone/current/codex",
            "/h/.local/bin/codex",
        ]
    );
    let npm = manager_surfaces("npm", "/usr\n", SurfaceOwner::Npm, &names, Platform::Posix);
    assert_eq!(npm[0].raw, "/usr/bin/codex");
    assert_eq!(npm[0].origin, "npm-global");
    assert!(manager_surfaces("npm", " ", SurfaceOwner::Npm, &names, Platform::Posix).is_empty());
    assert_eq!(bun_default_surfaces(Platform::Posix, "/h", &names)[0].raw, "/h/.bun/bin/codex");
    assert_eq!(launcher_queries()[2].args, ["pm", "bin", "-g"]);
    assert_eq!(package_queries()[0].program, "npm");
    let leaves = package_leaves(
        &vec![
            PackageEntry { path: "/r/@openai/codex/bin/codex".to_owned(), is_file: true },
            PackageEntry { path: "/r/other/codex".to_owned(), is_file: true },
            PackageEntry { path: "/r/@openai/codex".to_owned(), is_file: false },
        ],
        SurfaceOwner::Npm,
        "npm",
        Platform::Posix,
    );
    assert_eq!(leaves.len(), 1);
    assert!(leaves[0].package_leaf);
    let brew = homebrew_surfaces(
        Platform::Posix,
        "/opt/brew\n",
        &texts(&["/opt/brew/Caskroom/codex/1/codex-arm", "/opt/brew/Caskroom/codex/1/x"]),
    );
    assert_eq!(brew.len(), 2);
    assert_eq!(brew[0].raw, "/opt/brew/bin/codex");
    let desktop = desktop_surfaces(
        Platform::Posix,
        "linux",
        &None,
        &Vec::new(),
        &Some("/app".to_owned()),
    );
    assert_eq!(desktop.len(), 7);
    assert_eq!(desktop[6].raw, "/app/usr/bin/codex");
    let windows = desktop_surfaces(Platform::Posix, "windows", &None, &texts(&["C"]), &None);
    assert_eq!(windows[1].raw, "C/OpenAI/Codex/resources/codex.exe");
    let macos = desktop_surfaces(
        Platform::Posix,
        "macos",
        &Some("/u".to_owned()),
        &Vec::new(),
        &None,
    );
    assert_eq!(macos.len(), 3);
    assert_eq!(patcher_surface("/m").owner, SurfaceOwner::Patcher);
    let kept = present_seeds(&desktop, &vec![true, false, false, false, false, false, true]);
    assert_eq!(kept.len(), 2);
}

#[test]
fn limits_and_protection_hold_for_every_candidate() {
    let mut seeds: Vec<SurfaceSeed> = parsed_shell_resolutions("zsh", "codex is an alias for x\n");
    seeds.push(SurfaceSeed::physical(
        "desktop-bundle",
        "/Applications/Codex.app/Contents/Resources/codex".to_owned(),
        SurfaceOwner::Desktop,
        true,
    ));
    seeds.push(patcher_surface("/h/.patcher/bin/codex-patcher"));
    let facts = |resolved: Option<&str>| SeedFacts {
        exists: resolved.is_some(),
        launchable: true,
        resolved: resolved.map(|path| path.to_owned()),
        inspected: Ok(FileIdentity::default()),
    };
    let mut options = DiscoveryOptions::default();
    options.max_surfaces = 2;
    options.max_version_probes = 0;
    let all = vec![facts(None), facts(Some("/Applications/Codex.app/Contents/Resources/codex"))];
    let found =
        discover_with_options("/h/.patcher", &options, &seeds, &all, &Vec::new(), Platform::Posix);
    assert_eq!(found.len(), 2);
    assert!(found
        .iter()
        .all(|candidate| candidate.redirectability == Redirectability::NotRedirectable));
    assert_eq!(found[0].probe.status, ProbeStatus::NotRun);
    assert_eq!(found[1].probe.status, ProbeStatus::NotRun);
    assert_eq!(
        found[0].file_identity.error.as_deref(),
        Some("virtual command surface has no executable file")
    );
    options.max_surfaces = 1;
    let gone = vec![SurfaceSeed::physical(
        "PATH[0]",
        "/gone".to_owned(),
        SurfaceOwner::Unknown,
        false,
    )];
    let found = discover_with_options(
        "/h/.patcher",
        &options,
        &gone,
        &vec![facts(None)],
        &Vec::new(),
        Platform::Posix,
    );
    assert_eq!(
        found[0].probe.error.as_deref(),
        Some("surface does not resolve to a file")
    );
}

/// A launcher that is written for the first `busy_for` attempts, probed as the library says.
fn probe_of_a_busy_launcher(busy_for: usize) -> (usize, VersionProbe) {
    let mut retry = 0;
    loop {
        let busy = retry < busy_for;
        if retries_busy(busy, retry) {
            retry += 1;
            continue;
        }
        let run = if busy {
            ProbeRun::Unavailable { message: "Text file busy".to_owned() }
        } else {
            ProbeRun::Finished {
                success: true,
                status: "exit status: 0".to_owned(),
                stdout: b"codex-cli 1.2.3\n".to_vec(),
                stderr: Vec::new(),
            }
        };
        return (retry, probe_version_detailed(&run, 15));
    }
}

#[test]
fn version_probe_retries_a_transient_busy_executable() {
    let (retries, probe) = probe_of_a_busy_launcher(2);
    assert_eq!(retries, 2);
    assert_eq!(
        (probe.status, probe.version.as_deref()),
        (ProbeStatus::Succeeded, Some("1.2.3")),
        "{probe:#?}"
    );
    let (retries, probe) = probe_of_a_busy_launcher(usize::MAX);
    assert_eq!(retries, 4);
    assert_eq!(probe.version, None);
    assert!(!retries_busy(false, 0));
}
