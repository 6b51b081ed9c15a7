use codex_patcher::paths::{
    display_user_path_with_home, display_windows_path, extension_of, file_name_of, joined,
    manager_file_name, parent_of, parts_of, path_is_absolute, path_is_below, plain_path_display,
    same_path, stem_of, PatcherPaths, Platform,
};

#[test]
fn paths_under_home_are_compact_for_display() {
    let home = "/home/example";
    assert_eq!(display_user_path_with_home(Platform::Posix, home, home), "~");
    assert_eq!(
        display_user_path_with_home(Platform::Posix, "/home/example/.codex/codex-patcher", home),
        "~/.codex/codex-patcher"
    );
    let home = "C:\\Users\\example";
    assert_eq!(display_windows_path(home, home), "~");
    assert_eq!(
        display_windows_path("\\\\?\\C:\\Users\\example\\.codex\\codex-patcher", home),
        "~\\.codex\\codex-patcher"
    );
}

#[test]
fn other_paths_are_shown_as_they_are() {
    assert_eq!(
        display_user_path_with_home(Platform::Posix, "/home/examples/x", "/home/example"),
        "/home/examples/x"
    );
    assert_eq!(display_windows_path(
        "C:\\Users\\examples",
        "C:\\Users\\example",
    ), "C:\\Users\\examples");
    assert_eq!(plain_path_display("\\\\?\\UNC\\server\\share"), "\\\\server\\share");
}

#[test]
fn ensure_creates_the_layout_but_not_state_files() {
    let paths = PatcherPaths::from_home("/root/patcher", Platform::Posix);
    let created = paths.ensure().unwrap();
    for directory in paths.directories() {
        assert!(created.contains(&directory), "{directory}");
    }
    assert!(!created.contains(&paths.state));
    assert!(!created.contains(&paths.manager_lock));
    assert!(!created.contains(&paths.build_lock));
}

#[test]
fn platform_roots_keep_cache_and_state_separate() {
    let (data, cache, state) = ("/tmp/data", "/tmp/cache", "/tmp/state");
    let paths = PatcherPaths::from_roots(data, cache, state, Platform::Posix);
    assert!(path_is_below(Platform::Posix, &paths.manager_binary(), data));
    assert!(path_is_below(Platform::Posix, &paths.generations_dir(), data));
    assert!(path_is_below(Platform::Posix, &paths.backups_dir, data));
    assert!(path_is_below(Platform::Posix, &paths.mirror_dir(), cache));
    assert!(path_is_below(Platform::Posix, &paths.worktrees_dir(), cache));
    assert!(path_is_below(Platform::Posix, &paths.cargo_target_dir(), cache));
    assert!(path_is_below(Platform::Posix, &paths.state_file(), state));
    assert_eq!(paths.remote_cache_file(), "/tmp/state/remote.json");
    assert!(path_is_below(Platform::Posix, &paths.logs_dir(), state));
    assert!(path_is_below(Platform::Posix, &paths.state_lock(), state));
    assert_eq!(paths.generation("abc"), "/tmp/data/generations/abc");
    assert_eq!(paths.worktree("abc"), "/tmp/cache/worktrees/abc");
    assert_eq!(paths.log("abc"), "/tmp/state/logs/abc.log");
}

#[test]
fn paths_are_taken_apart_like_the_system_does() {
    assert_eq!(parts_of(Platform::Posix, "/a//b/./c"), ["/", "a", "b", "c"]);
    assert_eq!(parts_of(Platform::Posix, "./a"), [".", "a"]);
    assert!(same_path(Platform::Posix, "/a/b/", "/a/./b"));
    assert_eq!(joined(Platform::Posix, "/a", "b"), "/a/b");
    assert_eq!(joined(Platform::Posix, "/a", "/b"), "/b");
    assert_eq!(file_name_of(Platform::Posix, "/a/b").as_deref(), Some("b"));
    assert_eq!(file_name_of(Platform::Posix, "/a/.."), None);
    assert_eq!(parent_of(Platform::Posix, "/a/b").as_deref(), Some("/a"));
    assert_eq!(parent_of(Platform::Posix, "/"), None);
    assert_eq!(parent_of(Platform::Posix, "/a/./b//c/").as_deref(), Some("/a/./b"));
    assert_eq!(parent_of(Platform::Posix, "//a").as_deref(), Some("/"));
    assert_eq!(parent_of(Platform::Posix, "./a").as_deref(), Some("."));
    assert_eq!(parent_of(Platform::Posix, ".").as_deref(), Some(""));
    assert_eq!(parent_of(Platform::Posix, "a").as_deref(), Some(""));
    assert_eq!(extension_of(Platform::Posix, "a/b.tar.gz").as_deref(), Some("gz"));
    assert_eq!(extension_of(Platform::Posix, ".bashrc"), None);
    assert_eq!(stem_of(Platform::Posix, "/bin/codex.exe").as_deref(), Some("codex"));
    assert_eq!(stem_of(Platform::Posix, ".bashrc").as_deref(), Some(".bashrc"));
    assert!(path_is_absolute(Platform::Posix, "/x"));
    assert!(!path_is_absolute(Platform::Posix, "x"));
    assert!(path_is_below(Platform::Posix, "/a/b", "/a"));
    assert!(!path_is_below(Platform::Posix, "/ab", "/a"));
    assert_eq!(manager_file_name(Platform::Windows), "codex-patcher.exe");
}

#[test]
fn an_explicit_home_is_made_absolute() {
    assert_eq!(
        PatcherPaths::configured_home(Platform::Posix, Some("here"), "/work").as_deref(),
        Some("/work/here")
    );
    assert_eq!(
        PatcherPaths::configured_home(Platform::Posix, Some("/there"), "/work").as_deref(),
        Some("/there")
    );
    assert_eq!(PatcherPaths::configured_home(Platform::Posix, None, "/work"), None);
}

#[test]
fn windows_paths_have_drives_shares_and_two_separators() {
    let on = Platform::Windows;
    assert_eq!(parts_of(on, "c:\\Users/me\\.\\x"), ["C:\\", "\\", "Users", "me", "x"]);
    assert_eq!(parts_of(on, "C:x"), ["C:\\", "x"]);
    assert_eq!(parts_of(on, "\\\\server\\share\\x"), ["\\\\server\\share\\", "\\", "x"]);
    assert_eq!(parts_of(on, "\\x\\y"), ["\\", "x", "y"]);
    assert_eq!(parts_of(Platform::Posix, "c:\\x"), ["c:\\x"]);
    for absolute in ["C:\\x", "c:/x", "\\\\server\\share", "\\\\?\\C:\\x"] {
        assert!(path_is_absolute(on, absolute), "{absolute}");
        assert!(!path_is_absolute(Platform::Posix, absolute), "{absolute}");
    }
    for relative in ["x", "C:x", "\\x", "/x", "\\\\server", ""] {
        assert!(!path_is_absolute(on, relative), "{relative}");
    }
    assert!(same_path(on, "C:\\Users\\me", "c:/Users//me/"));
    assert!(!same_path(on, "C:\\Users\\me", "D:\\Users\\me"));
    assert!(path_is_below(on, "C:\\Users\\me\\bin\\codex.exe", "c:\\Users\\me"));
    assert!(!path_is_below(on, "C:\\Users\\me2", "C:\\Users\\me"));
    assert_eq!(joined(on, "C:\\a", "b"), "C:\\a\\b");
    assert_eq!(joined(on, "C:\\a\\", "b"), "C:\\a\\b");
    assert_eq!(joined(on, "C:\\a", "\\b"), "C:\\b");
    assert_eq!(joined(on, "\\\\s\\t\\a", "/b"), "\\\\s\\t/b");
    assert_eq!(joined(on, "C:\\a", "D:b"), "D:b");
    assert_eq!(joined(on, "C:", "b"), "C:b");
    assert_eq!(file_name_of(on, "C:\\a\\b.exe").as_deref(), Some("b.exe"));
    assert_eq!(file_name_of(on, "C:"), None);
    assert_eq!(file_name_of(on, "\\\\s\\t"), None);
    assert_eq!(parent_of(on, "c:\\a\\b").as_deref(), Some("c:\\a"));
    assert_eq!(parent_of(on, "C:\\a").as_deref(), Some("C:\\"));
    assert_eq!(parent_of(on, "\\\\s\\t\\a").as_deref(), Some("\\\\s\\t\\"));
    assert_eq!(parent_of(on, "c:/a/.\\b/c").as_deref(), Some("c:/a/.\\b"));
    assert_eq!(parent_of(on, "C:a").as_deref(), Some("C:"));
    assert_eq!(parent_of(on, "C:\\"), None);
    assert_eq!(parent_of(on, "C:"), None);
    assert_eq!(extension_of(on, "C:\\a.b\\codex.CMD").as_deref(), Some("CMD"));
    assert_eq!(stem_of(on, "C:\\bin\\codex.exe").as_deref(), Some("codex"));
    assert_eq!(
        display_user_path_with_home(on, "C:\\Users\\Me\\x", "c:\\users\\me"),
        "~\\x"
    );
}

#[test]
fn windows_layouts_stay_below_their_roots() {
    let paths = PatcherPaths::from_home("C:\\Users\\me\\patcher", Platform::Windows);
    assert_eq!(paths.manager, "C:\\Users\\me\\patcher\\bin\\codex-patcher.exe");
    assert_eq!(paths.generation("abc"), "C:\\Users\\me\\patcher\\generations\\abc");
    assert!(path_is_below(Platform::Windows, &paths.state_lock(), "c:/Users/me/patcher/state"));
    let home = |value| PatcherPaths::configured_home(Platform::Windows, Some(value), "C:\\work");
    assert_eq!(home("D:\\patcher").as_deref(), Some("D:\\patcher"));
    assert_eq!(home("patcher").as_deref(), Some("C:\\work\\patcher"));
}

#[test]
fn extended_windows_paths_have_prefixes_of_their_own() {
    let on = Platform::Windows;
    for prefix in [
        r"\\?\UNC\server\share",
        r"\\?\UNC\server\share\",
        r"\\?\C:",
        r"\\?\C:\",
        r"\\?\pictures",
        r"\\.\COM42",
    ] {
        assert!(path_is_absolute(on, prefix), "{prefix}");
        assert_eq!(file_name_of(on, prefix), None, "{prefix}");
        assert_eq!(parent_of(on, prefix), None, "{prefix}");
    }
    assert_eq!(file_name_of(on, r"\\?\UNC\server\share\x").as_deref(), Some("x"));
    assert_eq!(parent_of(on, r"\\?\C:\a\b").as_deref(), Some(r"\\?\C:\a"));
    // The letter of a drive counts in either case, and only `\` separates.
    assert!(same_path(on, r"\\?\c:\a", r"\\?\C:\a"));
    assert!(!same_path(on, r"\\?\C:\a", r"C:\a"));
    assert_eq!(file_name_of(on, r"\\?\C:\a/b").as_deref(), Some("a/b"));
    assert_eq!(parts_of(on, r"\\?\C:\a\.\b").len(), 5);
    assert!(!same_path(on, r"//?/C:/a", r"\\?\C:\a"));
    // Joining leaves no `.` and `..` behind.
    assert_eq!(joined(on, r"\\?\C:\a\b", "../c/./d"), r"\\?\C:\a\c\d");
    assert_eq!(joined(on, r"\\?\C:\a", r"\b"), r"\\?\C:\b");
    assert_eq!(joined(on, r"\\?\C:", "a"), r"\\?\C:\a");
    assert_eq!(joined(on, r"\\?\C:\a", r"D:\b"), r"D:\b");
    assert_eq!(joined(on, r"\\.\COM42", "a"), r"\\.\COM42\a");
}

#[test]
fn the_directories_differ_and_hold_the_files() {
    for (home, on) in [
        ("/home/me/patcher", Platform::Posix),
        ("C:\\patcher", Platform::Windows),
        (r"\\?\C:", Platform::Windows),
        (r"\\\patcher", Platform::Windows),
    ] {
        let paths = PatcherPaths::from_home(home, on);
        let directories = paths.directories();
        assert_eq!(directories[0], home);
        for (index, one) in directories.iter().enumerate() {
            assert!(path_is_below(on, one, home), "{one}");
            for other in &directories[..index] {
                assert!(!same_path(on, one, other), "{one} {other}");
            }
        }
        for file in [
            &paths.manager,
            &paths.state,
            &paths.manager_lock,
            &paths.state_lock,
            &paths.probe_lock,
            &paths.build_lock,
            &paths.remote_cache,
        ] {
            let parent = parent_of(on, file).unwrap();
            assert!(directories.iter().any(|one| same_path(on, one, &parent)), "{file}");
            assert!(!directories.iter().any(|one| same_path(on, one, file)), "{file}");
            assert!(path_is_below(on, file, home), "{file}");
        }
    }
    let home = "/home/me/patcher";
    let roots = PatcherPaths::from_roots(
        home,
        "/home/me/patcher/cache",
        "/home/me/patcher/state",
        Platform::Posix,
    );
    assert_eq!(PatcherPaths::from_home(home, Platform::Posix), roots);
}
