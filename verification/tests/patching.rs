use codex_patcher::paths::Platform;
use codex_patcher::patchset::{
    casefold_path, fingerprint, is_patch_name, load_series, portable_relative_path, sha256_hex,
    text_is_less, validate_series_entry, EntryKind, Patch, PatchSet, RootKind, SeriesFile,
    WalkEntry,
};
use codex_patcher::types::ResolvedSource;

fn file(path: &str, contents: &[u8]) -> WalkEntry {
    WalkEntry {
        path: path.to_owned(),
        kind: EntryKind::File,
        contents: contents.to_vec(),
    }
}

fn load(entries: Vec<WalkEntry>, series: SeriesFile) -> Result<PatchSet, String> {
    PatchSet::load(Platform::Posix, "/patches", RootKind::Directory, "/patches", &entries, &series)
}

fn series(text: &str) -> SeriesFile {
    SeriesFile::Text(text.as_bytes().to_vec())
}

fn source() -> ResolvedSource {
    ResolvedSource {
        channel: "stable".to_owned(),
        ref_name: "refs/tags/rust-v1.2.3".to_owned(),
        ref_object_oid: "a".repeat(40),
        commit_oid: "b".repeat(40),
        version: "1.2.3".to_owned(),
        release_url: None,
    }
}

#[test]
fn fallback_order_fingerprints_and_source_keys_are_deterministic() {
    let entries = |z: &[u8]| vec![file("z.patch", z), file("a/2.patch", b"two"), file("a/10.patch", b"ten")];
    let set = load(entries(b"z"), SeriesFile::Absent).unwrap();
    let paths: Vec<_> = set.patches.iter().map(|patch| patch.path.as_str()).collect();
    assert_eq!(paths, ["a/10.patch", "a/2.patch", "z.patch"]);
    assert_ne!(
        set.fingerprint,
        load(entries(b"z\n"), SeriesFile::Absent).unwrap().fingerprint
    );
    assert_ne!(
        set.source_key(&source(), "x86_64-unknown-linux-musl"),
        set.source_key(&source(), "aarch64-unknown-linux-musl")
    );
}

#[test]
fn series_controls_order_and_enforces_portable_complete_paths() {
    let two = || vec![file("a.patch", b"a"), file("b.patch", b"b")];
    let set = load(two(), series("b.patch\na.patch\n")).unwrap();
    assert_eq!(set.patches[0].path, "b.patch");
    assert!(load(two(), series("a.patch\n")).is_err());
    assert!(load(two(), series("../a.patch\n")).is_err());
    assert!(load(two(), series("a.patch\nA.patch\nb.patch\n")).is_err());
    let three = vec![file("A.patch", b"A"), file("a.patch", b"a"), file("b.patch", b"b")];
    assert!(load(three, SeriesFile::Absent).is_err());
    let mut reserved = two();
    reserved.push(WalkEntry {
        path: "Series".to_owned(),
        kind: EntryKind::Other,
        contents: Vec::new(),
    });
    assert_eq!(
        load(reserved, SeriesFile::Absent).err().unwrap(),
        "path \"Series\" conflicts with reserved series file"
    );
    assert!(load(two(), SeriesFile::Irregular).is_err());
    let bytes = b"a.patch\n\xff".to_vec();
    let cause = std::str::from_utf8(&bytes).err().unwrap();
    assert_eq!(
        load(two(), SeriesFile::Text(bytes.clone())).err().unwrap(),
        format!("series is not valid UTF-8: {cause}")
    );
    assert_eq!(casefold_path("É.patch"), casefold_path("e\u{301}.patch"));
    assert_eq!(casefold_path("Ａ.patch"), casefold_path("a.patch"));
}

#[test]
fn symlinks_are_rejected() {
    let entries = vec![
        file("outside", b"patch"),
        WalkEntry {
            path: "linked.patch".to_owned(),
            kind: EntryKind::Symlink,
            contents: Vec::new(),
        },
    ];
    assert!(load(entries, SeriesFile::Absent).is_err());
}

#[test]
fn roots_that_are_no_directories_are_refused() {
    let none = Vec::new();
    let message = PatchSet::load(
        Platform::Posix,
        "/link",
        RootKind::Symlink,
        "/x",
        &none,
        &SeriesFile::Absent,
    )
        .err()
        .unwrap();
    assert_eq!(message, "patch directory must not be a symlink: /link");
    let message = PatchSet::load(
        Platform::Posix,
        "/file",
        RootKind::Other,
        "/file",
        &none,
        &SeriesFile::Absent,
    )
        .err()
        .unwrap();
    assert_eq!(message, "patch path is not a directory: /file");
}

#[test]
fn series_lines_may_be_blank_or_comments_but_not_padded() {
    let known = vec!["a.patch".to_owned(), "b.patch".to_owned()];
    assert_eq!(
        load_series(Platform::Posix, &known, "# order\n\nb.patch\r\na.patch").unwrap(),
        ["b.patch", "a.patch"]
    );
    assert_eq!(
        load_series(Platform::Posix, &known, " a.patch\nb.patch\n").err().unwrap(),
        "series line 1 has leading or trailing whitespace"
    );
    assert_eq!(
        load_series(Platform::Posix, &known, "a.patch\n").err().unwrap(),
        "series does not list every patch file: b.patch"
    );
    assert_eq!(
        load_series(Platform::Posix, &known, "a.patch\na.patch\n").err().unwrap(),
        "duplicate or case-colliding series entry \"a.patch\""
    );
    assert_eq!(
        load_series(Platform::Posix, &known, "c.patch\n").err().unwrap(),
        "series entry does not name a regular patch file: \"c.patch\""
    );
    assert!(load(Vec::new(), SeriesFile::Text(vec![0xff])).is_err());
}

#[test]
fn unsafe_names_are_refused() {
    assert!(validate_series_entry(Platform::Posix, "ok/one.patch").is_ok());
    assert!(validate_series_entry(Platform::Posix, "/one.patch").is_err());
    assert!(validate_series_entry(Platform::Posix, "a\\b.patch").is_err());
    assert!(validate_series_entry(Platform::Posix, "one.diff").is_err());
    assert!(is_patch_name(Platform::Posix, "x/y.patch"));
    assert!(!is_patch_name(Platform::Posix, ".patch"));
    assert_eq!(portable_relative_path(Platform::Posix, "a//b/./c.patch").unwrap(), "a/b/c.patch");
    assert!(portable_relative_path(Platform::Posix, "../x.patch").is_err());
    assert!(text_is_less("a/10", "a/2"));
    assert!(!text_is_less("b", "a"));
}

#[test]
fn digests_are_those_of_sha_256() {
    assert_eq!(
        sha256_hex(b"abc"),
        "ba7816bf8f01cfea414140de5dae2223b00361a396177a9cb410ff61f20015ad"
    );
    let one = vec![Patch { path: "a".to_owned(), bytes: b"bc".to_vec() }];
    let other = vec![Patch { path: "ab".to_owned(), bytes: b"c".to_vec() }];
    assert_ne!(fingerprint(&one), fingerprint(&other));
    assert_eq!(fingerprint(&one).len(), 64);
}

#[test]
fn an_empty_directory_is_an_empty_stack() {
    let set = load(Vec::new(), SeriesFile::Absent).unwrap();
    assert!(set.is_empty());
}

#[test]
fn paths_are_ordered_by_their_bytes() {
    let paths = ["", "a", "a/b", "ab", "b", "z", "\u{e9}", "\u{7ff}", "\u{800}", "\u{ffff}", "\u{10000}"];
    for a in paths {
        for b in paths {
            assert_eq!(text_is_less(a, b), a.as_bytes() < b.as_bytes(), "{a:?} {b:?}");
        }
    }
}
