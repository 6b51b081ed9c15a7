//! What a build is checked against, and how its failure is described.

use vstd::prelude::*;
use vstd::utf8::{decode_utf8, encode_utf8, encode_utf8_decode_utf8, is_char_boundary};

use crate::outside::{
    hex_text, lossy, lossy_text, quoted, quoted_text, sha256, toml_string, toml_string_at,
};
use crate::patchset::{sha256_hex, text_is_less, text_less};
use crate::paths::{
    display_path, display_user_path_with_home, join_path, joined, parent, parent_of, parts,
    same_path, PatcherPaths, Platform,
};
use crate::state::STATE_SCHEMA;
use crate::text::{
    ascii_lower, chars_of, contains, contains_any, contains_text, forward_slashes,
    is_ascii_letter, is_control,
    is_control_char, is_digit, is_digit_char, is_letter_char, is_whitespace, is_whitespace_char,
    lines, lines_of, mentions_any, opt_text, result_text, result_unit, same, slices, starts_with,
    text_between, text_of, texts, to_ascii_lower, trim, trim_start, trimmed,
    with_forward_slashes,
};
use crate::types::{
    DesiredBuild, DesiredView, FileHash, FileHashView, GenerationManifest, GenerationRef,
    GenerationView, Timestamp,
};

pub mod checkout;
pub mod plan;
pub mod plan_laws;
pub mod package_laws;

verus! {

/// Codex's package builder defines this profile specifically for fast, small
/// local iteration. Unlike `release`, it does not run ThinLTO after every patch.
pub const CARGO_PROFILE: &'static str = "dev-small";

pub const MAX_FAILURE_LOG_TAIL: usize = 65536;

/// The characters that may stand in a log line.
pub open spec fn printable(s: Seq<char>) -> Seq<char>
    decreases s.len(),
{
    if s.len() == 0 {
        Seq::empty()
    } else if s.last() == '\t' || !is_control(s.last()) {
        printable(s.drop_last()).push(s.last())
    } else {
        printable(s.drop_last())
    }
}

/// A log line without terminal controls and of bounded length.
pub open spec fn clean_line(s: Seq<char>) -> Seq<char> {
    let t = trim(printable(s));
    if t.len() > 300 {
        t.take(300) + "…"@
    } else {
        t
    }
}

pub fn sanitize_line(line: &str) -> (r: String)
    ensures
        r@ == clean_line(line@),
{
    let chars = chars_of(line);
    let mut kept: Vec<char> = Vec::new();
    let mut i: usize = 0;
    proof {
        assert(chars@.take(0) =~= Seq::empty());
    }
    while i < chars.len()
        invariant
            i <= chars@.len(),
            kept@ == printable(chars@.take(i as int)),
        decreases chars@.len() - i,
    {
        proof {
            assert(chars@.take(i as int + 1).drop_last() =~= chars@.take(i as int));
        }
        if chars[i] == '\t' || !is_control_char(chars[i]) {
            kept.push(chars[i]);
        }
        i = i + 1;
    }
    proof {
        assert(chars@.take(chars@.len() as int) =~= chars@);
    }
    let short = trimmed(text_of(&kept).as_str());
    let rest = chars_of(short.as_str());
    if rest.len() > 300 {
        let mut out = text_between(&rest, 0, 300);
        proof {
            assert(out@ =~= short@.take(300));
        }
        out.append("…");
        out
    } else {
        short
    }
}

/// A shown log line holds no control but tabs, and at most 301 characters.
pub proof fn clean_lines_are_bounded(s: Seq<char>)
    ensures
        clean_line(s).len() <= 301,
        forall|i: int|
            0 <= i < clean_line(s).len() ==> #[trigger] clean_line(s)[i] == '\t' || !is_control(
                clean_line(s)[i],
            ),
{
    reveal_strlit("…");
    assert("…"@.len() == 1 && !is_control("…"@[0]));
    lemma_printable(s);
    lemma_trim_keeps(printable(s));
}

pub open spec fn only_printable(s: Seq<char>) -> bool {
    forall|i: int| 0 <= i < s.len() ==> #[trigger] s[i] == '\t' || !is_control(s[i])
}

proof fn lemma_printable(s: Seq<char>)
    ensures
        only_printable(printable(s)),
    decreases s.len(),
{
    if s.len() > 0 {
        lemma_printable(s.drop_last());
    }
}

proof fn lemma_trim_start_keeps(s: Seq<char>)
    requires
        only_printable(s),
    ensures
        only_printable(trim_start(s)),
    decreases s.len(),
{
    if s.len() > 0 && is_whitespace(s[0]) {
        assert forall|i: int| 0 <= i < s.drop_first().len() implies #[trigger] s.drop_first()[i]
            == '\t' || !is_control(s.drop_first()[i]) by {
            assert(s.drop_first()[i] == s[i + 1]);
        }
        lemma_trim_start_keeps(s.drop_first());
    }
}

proof fn lemma_trim_end_keeps(s: Seq<char>)
    requires
        only_printable(s),
    ensures
        only_printable(crate::text::trim_end(s)),
    decreases s.len(),
{
    if s.len() > 0 && is_whitespace(s.last()) {
        assert forall|i: int| 0 <= i < s.drop_last().len() implies #[trigger] s.drop_last()[i]
            == '\t' || !is_control(s.drop_last()[i]) by {
            assert(s.drop_last()[i] == s[i]);
        }
        lemma_trim_end_keeps(s.drop_last());
    }
}

proof fn lemma_trim_keeps(s: Seq<char>)
    requires
        only_printable(s),
    ensures
        only_printable(trim(s)),
{
    lemma_trim_start_keeps(s);
    lemma_trim_end_keeps(trim_start(s));
}

/// The end of a log that is searched for a diagnosis.
pub open spec fn log_tail(log: Seq<u8>) -> Seq<u8> {
    if log.len() > MAX_FAILURE_LOG_TAIL {
        log.skip(log.len() - MAX_FAILURE_LOG_TAIL)
    } else {
        log
    }
}

fn tail_text(log: &Vec<u8>) -> (r: String)
    ensures
        r@ == lossy(log_tail(log@)),
{
    let from: usize = if log.len() > MAX_FAILURE_LOG_TAIL {
        log.len() - MAX_FAILURE_LOG_TAIL
    } else {
        0
    };
    let tail = vstd::slice::slice_subrange(log.as_slice(), from, log.len());
    proof {
        assert(tail@ =~= log_tail(log@));
    }
    lossy_text(tail)
}

pub open spec fn network_needles() -> Seq<Seq<char>> {
    seq![
        "could not resolve host"@,
        "temporary failure in name resolution"@,
        "connection reset"@,
        "connection refused"@,
        "connection timed out"@,
        "operation timed out"@,
        "network failure"@,
        "spurious network error"@,
        "failed to download"@,
        "failed to get successful http response"@,
        "unable to access 'http"@,
        "error sending request"@,
        "http 429"@,
        "http 500"@,
        "http 502"@,
        "http 503"@,
        "http 504"@,
        "tls handshake"@,
        "ssl connect error"@,
    ]
}

/// A failure of the phases that use the network whose summary or log speaks of the
/// network.
pub open spec fn is_transient(phase: Seq<char>, summary: Seq<char>, log: Seq<u8>) -> bool {
    (phase == "resolve"@ || phase == "build"@) && mentions_any(
        ascii_lower(summary + "\n"@ + lossy(log_tail(log))),
        network_needles(),
    )
}

pub fn transient_network_failure(phase: &str, summary: &str, log: &Vec<u8>) -> (r: bool)
    ensures
        r == is_transient(phase@, summary@, log@),
{
    if !same(phase, "resolve") && !same(phase, "build") {
        return false;
    }
    let mut text = summary.to_owned();
    text.append("\n");
    text.append(tail_text(log).as_str());
    let folded = to_ascii_lower(text.as_str());
    let needles = vec![
        "could not resolve host",
        "temporary failure in name resolution",
        "connection reset",
        "connection refused",
        "connection timed out",
        "operation timed out",
        "network failure",
        "spurious network error",
        "failed to download",
        "failed to get successful http response",
        "unable to access 'http",
        "error sending request",
        "http 429",
        "http 500",
        "http 502",
        "http 503",
        "http 504",
        "tls handshake",
        "ssl connect error",
    ];
    proof {
        assert(slices(needles@) =~= network_needles());
    }
    contains_any(folded.as_str(), &needles)
}

#[derive(Debug)]
pub struct BuildFailure {
    pub phase: String,
    pub summary: String,
    /// True only for recognized network/transport failures. These must not be
    /// cached as deterministic failures of a source key when last-good exists.
    pub transient: bool,
    pub failed_patch_index: Option<usize>,
    pub failed_patch: Option<String>,
    pub log_path: String,
}

pub struct BuildFailureView {
    pub phase: Seq<char>,
    pub summary: Seq<char>,
    pub transient: bool,
    pub failed_patch_index: Option<usize>,
    pub failed_patch: Option<Seq<char>>,
    pub log_path: Seq<char>,
}

impl View for BuildFailure {
    type V = BuildFailureView;

    open spec fn view(&self) -> BuildFailureView {
        BuildFailureView {
            phase: self.phase@,
            summary: self.summary@,
            transient: self.transient,
            failed_patch_index: self.failed_patch_index,
            failed_patch: opt_text(self.failed_patch),
            log_path: self.log_path@,
        }
    }
}

pub open spec fn shown_path(platform: Platform, path: Seq<char>, home: Option<&str>) -> Seq<char> {
    match home {
        Some(h) => display_path(platform, path, h@),
        None => path,
    }
}

/// A path as it is shown to a user whose home directory may be known.
pub fn display_user_path(platform: Platform, path: &str, home: Option<&str>) -> (r: String)
    ensures
        r@ == shown_path(platform, path@, home),
{
    match home {
        Some(h) => display_user_path_with_home(platform, path, h),
        None => path.to_owned(),
    }
}

pub open spec fn failure_text(
    platform: Platform,
    f: BuildFailureView,
    home: Option<&str>,
) -> Seq<char> {
    f.phase + ": "@ + f.summary + " (details: "@ + shown_path(platform, f.log_path, home) + ")"@
}

impl BuildFailure {
    /// The failure of `phase` with `error`. `log` is what the log holds.
    pub fn new(phase: &str, error: &str, log_path: &str, log: &Vec<u8>) -> (r: Self)
        ensures
            r@ == (BuildFailureView {
                phase: phase@,
                summary: clean_line(error@),
                transient: is_transient(phase@, clean_line(error@), log@),
                failed_patch_index: None,
                failed_patch: None,
                log_path: log_path@,
            }),
    {
        let summary = sanitize_line(error);
        let transient = transient_network_failure(phase, summary.as_str(), log);
        BuildFailure {
            transient,
            phase: phase.to_owned(),
            summary,
            failed_patch_index: None,
            failed_patch: None,
            log_path: log_path.to_owned(),
        }
    }

    /// The failure, blamed on the patch of that number.
    pub fn patch(self, index: usize, path: &str) -> (r: Self)
        ensures
            r@ == (BuildFailureView {
                failed_patch_index: Some(index),
                failed_patch: Some(path@),
                ..self@
            }),
    {
        BuildFailure {
            failed_patch_index: Some(index),
            failed_patch: Some(path.to_owned()),
            phase: self.phase,
            summary: self.summary,
            transient: self.transient,
            log_path: self.log_path,
        }
    }

    pub fn message(&self, platform: Platform, home: Option<&str>) -> (r: String)
        ensures
            r@ == failure_text(platform, self@, home),
    {
        let mut out = self.phase.clone();
        out.append(": ");
        out.append(self.summary.as_str());
        out.append(" (details: ");
        out.append(display_user_path(platform, self.log_path.as_str(), home).as_str());
        out.append(")");
        out
    }
}

pub open spec fn is_error_line(line: Seq<char>) -> bool {
    "error:"@.is_prefix_of(line) || "error["@.is_prefix_of(line)
}

/// The first line that, without white space at its ends, reports an error.
pub open spec fn first_error(list: Seq<Seq<char>>) -> Option<Seq<char>>
    decreases list.len(),
{
    if list.len() == 0 {
        None
    } else if is_error_line(trim(list[0])) {
        Some(trim(list[0]))
    } else {
        first_error(list.drop_first())
    }
}

/// What the package builder's log says of its failure.
pub open spec fn builder_diagnostic(target: Seq<char>, log: Seq<u8>) -> Option<Seq<char>> {
    let text = lossy(log_tail(log));
    let folded = ascii_lower(text);
    if contains_text(folded, "can't find crate for `core`"@) && contains_text(
        folded,
        "target may not be installed"@,
    ) {
        Some(
            "Rust target "@ + target + " is not installed for Codex's pinned toolchain"@,
        )
    } else {
        match first_error(lines(text)) {
            Some(line) => Some("package builder failed: "@ + clean_line(line)),
            None => None,
        }
    }
}

pub fn package_builder_log_diagnostic(target: &str, log: &Vec<u8>) -> (r: Option<String>)
    ensures
        opt_text(r) == builder_diagnostic(target@, log@),
{
    let text = tail_text(log);
    let folded = to_ascii_lower(text.as_str());
    if contains(folded.as_str(), "can't find crate for `core`") && contains(
        folded.as_str(),
        "target may not be installed",
    ) {
        let mut out = "Rust target ".to_owned();
        out.append(target);
        out.append(" is not installed for Codex's pinned toolchain");
        return Some(out);
    }
    let list = lines_of(text.as_str());
    let ghost all = texts(list@);
    let mut i: usize = 0;
    proof {
        assert(all.skip(0) =~= all);
    }
    while i < list.len()
        invariant
            i <= list@.len(),
            all == texts(list@),
            all == lines(text@),
            text@ == lossy(log_tail(log@)),
            folded@ == ascii_lower(text@),
            !(contains_text(folded@, "can't find crate for `core`"@) && contains_text(
                folded@,
                "target may not be installed"@,
            )),
            first_error(all) == first_error(all.skip(i as int)),
        decreases list@.len() - i,
    {
        let line = trimmed(list[i].as_str());
        proof {
            assert(all.skip(i as int)[0] == list@[i as int]@);
            assert(all.skip(i as int).drop_first() =~= all.skip(i as int + 1));
        }
        if starts_with(line.as_str(), "error:") || starts_with(line.as_str(), "error[") {
            let mut out = "package builder failed: ".to_owned();
            out.append(sanitize_line(line.as_str()).as_str());
            return Some(out);
        }
        i = i + 1;
    }
    None
}

/// Why the package builder failed; `status` is how it exited. `log` is what the log holds,
/// when it could be read.
pub fn package_builder_failure_summary(status: &str, target: &str, log: Option<&Vec<u8>>) -> (r:
    String)
    ensures
        r@ == (match log {
            Some(bytes) => match builder_diagnostic(target@, bytes@) {
                Some(text) => text,
                None => "package builder exited with "@ + status@,
            },
            None => "package builder exited with "@ + status@,
        }),
{
    if let Some(bytes) = log {
        if let Some(text) = package_builder_log_diagnostic(target, bytes) {
            return text;
        }
    }
    let mut out = "package builder exited with ".to_owned();
    out.append(status);
    out
}

/// What is fetched from upstream, and where it is kept. The ref name is fully qualified
/// already.
pub fn source_fetch_refspec(desired: &DesiredBuild, destination: &str) -> (r: String)
    ensures
        r@ == "+"@ + desired.source.ref_name@ + ":"@ + destination@,
{
    let mut out = "+".to_owned();
    out.append(desired.source.ref_name.as_str());
    out.append(":");
    out.append(destination);
    out
}

/// The text of the first `n` bytes.
pub open spec fn key_prefix(key: Seq<char>, n: int) -> Seq<char> {
    decode_utf8(encode_utf8(key).take(n))
}

fn prefix_of_key(key: &str, n: usize) -> (r: String)
    requires
        is_char_boundary(encode_utf8(key@), n as int),
    ensures
        r@ == key_prefix(key@, n as int),
{
    let (head, _) = key.split_at(n);
    proof {
        encode_utf8_decode_utf8(head@);
        assert(encode_utf8(head@) =~= encode_utf8(key@).take(n as int));
    }
    head.to_owned()
}

/// The ref under which the mirror keeps a source.
pub fn source_ref(source_key: &str) -> (r: String)
    requires
        is_char_boundary(encode_utf8(source_key@), 16),
    ensures
        r@ == "refs/codex-patcher/source/"@ + key_prefix(source_key@, 16),
{
    let mut out = "refs/codex-patcher/source/".to_owned();
    out.append(prefix_of_key(source_key, 16).as_str());
    out
}

/// The file name of a build's log; `stamp` is the time at which it started.
pub fn build_log_name(stamp: &str, source_key: &str) -> (r: String)
    requires
        is_char_boundary(encode_utf8(source_key@), 12),
    ensures
        r@ == "build-"@ + stamp@ + "-"@ + key_prefix(source_key@, 12) + ".log"@,
{
    let mut out = "build-".to_owned();
    out.append(stamp);
    out.append("-");
    out.append(prefix_of_key(source_key, 12).as_str());
    out.append(".log");
    out
}

/// Letters, digits, `-` and `_` only.
pub open spec fn safe_name(s: Seq<char>) -> bool {
    forall|i: int|
        0 <= i < s.len() ==> is_digit(#[trigger] s[i]) || is_ascii_letter(s[i]) || s[i] == '-'
            || s[i] == '_'
}

pub fn is_safe_name(s: &str) -> (r: bool)
    ensures
        r == safe_name(s@),
{
    let chars = chars_of(s);
    let mut i: usize = 0;
    while i < chars.len()
        invariant
            i <= chars@.len(),
            chars@ == s@,
            forall|j: int|
                0 <= j < i ==> is_digit(#[trigger] chars@[j]) || is_ascii_letter(chars@[j])
                    || chars@[j] == '-' || chars@[j] == '_',
        decreases chars@.len() - i,
    {
        if !is_digit_char(chars[i]) && !is_letter_char(chars[i]) && chars[i] != '-' && chars[i]
            != '_' {
            return false;
        }
        i = i + 1;
    }
    true
}

/// One checkout for each target, so that Cargo can reuse what it built there.
pub fn build_worktree_dir(paths: &PatcherPaths, desired: &DesiredBuild) -> (r: Result<
    String,
    String,
>)
    ensures
        result_text(r) == (if safe_name(desired.target@) {
            Ok(
                join_path(
                    paths.platform,
                    paths.worktrees_dir@,
                    "build-"@ + desired.target@ + "-"@ + CARGO_PROFILE@,
                ),
            )
        } else {
            Err("build target contains unsafe path characters"@)
        }),
{
    if !is_safe_name(desired.target.as_str()) {
        return Err("build target contains unsafe path characters".to_owned());
    }
    let mut name = "build-".to_owned();
    name.append(desired.target.as_str());
    name.append("-");
    name.append(CARGO_PROFILE);
    Ok(joined(paths.platform, paths.worktrees_dir.as_str(), name.as_str()))
}

pub fn build_cache_dir(paths: &PatcherPaths, desired: &DesiredBuild) -> (r: String)
    ensures
        r@ == join_path(
            paths.platform,
            join_path(paths.platform, paths.cargo_target_dir@, desired.target@),
            CARGO_PROFILE@,
        ),
{
    paths.cargo_target_dir_for(desired.target.as_str(), CARGO_PROFILE)
}

/// The version that a source's workspace and package must have.
pub open spec fn expected_version(d: DesiredView) -> Seq<char> {
    if d.source.channel == "nightly"@ {
        "0.0.0"@
    } else {
        d.source.version
    }
}

fn expected_version_of(desired: &DesiredBuild) -> (r: String)
    ensures
        r@ == expected_version(desired@),
{
    if same(desired.source.channel.as_str(), "nightly") {
        "0.0.0".to_owned()
    } else {
        desired.source.version.clone()
    }
}

/// What the version found in a workspace comes to.
pub open spec fn version_check(
    found: Result<Option<Seq<char>>, Seq<char>>,
    d: DesiredView,
) -> Result<(), Seq<char>> {
    match found {
        Err(error) => Err(error),
        Ok(None) => Err("codex-rs/Cargo.toml has no workspace.package.version"@),
        Ok(Some(actual)) => if actual == expected_version(d) {
            Ok(())
        } else {
            Err(
                "workspace version "@ + actual + " does not match resolved source "@
                    + expected_version(d),
            )
        },
    }
}

/// The version that was found is the one that the source was resolved to.
pub fn check_workspace_version(
    found: &Result<Option<String>, String>,
    desired: &DesiredBuild,
) -> (r: Result<(), String>)
    ensures
        result_unit(r) == version_check(
            match found {
                Ok(o) => Ok(opt_text(*o)),
                Err(e) => Err(e@),
            },
            desired@,
        ),
{
    match found {
        Err(error) => Err(error.clone()),
        Ok(None) => Err("codex-rs/Cargo.toml has no workspace.package.version".to_owned()),
        Ok(Some(actual)) => {
            let expected = expected_version_of(desired);
            if same(actual.as_str(), expected.as_str()) {
                Ok(())
            } else {
                let mut message = "workspace version ".to_owned();
                message.append(actual.as_str());
                message.append(" does not match resolved source ");
                message.append(expected.as_str());
                Err(message)
            }
        },
    }
}

/// `cargo_toml` is the text of the workspace's `codex-rs/Cargo.toml`.
pub fn verify_workspace_version(cargo_toml: &str, desired: &DesiredBuild) -> (r: Result<(), String>)
    ensures
        result_unit(r) == version_check(
            toml_string(cargo_toml@, "workspace"@, "package"@, "version"@),
            desired@,
        ),
{
    let found = toml_string_at(cargo_toml, "workspace", "package", "version");
    check_workspace_version(&found, desired)
}

/// What the package builder wrote of its package.
#[derive(Debug)]
pub struct PackageMetadata {
    pub layout_version: u32,
    pub version: String,
    pub target: String,
    pub variant: String,
    pub entrypoint: String,
    pub resources_dir: String,
    pub path_dir: String,
}

pub open spec fn for_windows(target: Seq<char>) -> bool {
    contains_text(target, "windows"@)
}

pub open spec fn executable_suffix(target: Seq<char>) -> Seq<char> {
    if for_windows(target) {
        ".exe"@
    } else {
        ""@
    }
}

fn suffix_for(target: &str) -> (r: &'static str)
    ensures
        r@ == executable_suffix(target@),
{
    if contains(target, "windows") {
        ".exe"
    } else {
        ""
    }
}

/// The metadata describes the canonical package of the desired build.
pub open spec fn describes_package(m: PackageMetadata, d: DesiredView) -> bool {
    &&& m.layout_version == 1
    &&& m.version@ == expected_version(d)
    &&& m.target@ == d.target
    &&& m.variant@ == "codex"@
    &&& m.entrypoint@ == "bin/codex"@ + executable_suffix(d.target)
    &&& m.resources_dir@ == "codex-resources"@
    &&& m.path_dir@ == "codex-path"@
}

/// Whether the metadata of a package describes the desired build.
pub fn metadata_matches(metadata: &PackageMetadata, desired: &DesiredBuild) -> (r: bool)
    ensures
        r == describes_package(*metadata, desired@),
{
    let mut entrypoint = "bin/codex".to_owned();
    entrypoint.append(suffix_for(desired.target.as_str()));
    metadata.layout_version == 1 && same(
        metadata.version.as_str(),
        expected_version_of(desired).as_str(),
    ) && same(metadata.target.as_str(), desired.target.as_str()) && same(
        metadata.variant.as_str(),
        "codex",
    ) && same(metadata.entrypoint.as_str(), entrypoint.as_str()) && same(
        metadata.resources_dir.as_str(),
        "codex-resources",
    ) && same(metadata.path_dir.as_str(), "codex-path")
}

/// The files that a package for a target must hold, executable ones off Windows.
pub open spec fn package_files(target: Seq<char>) -> Seq<Seq<char>> {
    let suffix = executable_suffix(target);
    seq![
        "bin/codex"@ + suffix,
        "bin/codex-code-mode-host"@ + suffix,
        "codex-path/rg"@ + suffix,
    ] + (if contains_text(target, "linux"@) {
        seq!["codex-resources/bwrap"@]
    } else {
        Seq::empty()
    }) + (if for_windows(target) {
        seq![
            "codex-resources/codex-command-runner.exe"@,
            "codex-resources/codex-windows-sandbox-setup.exe"@,
        ]
    } else {
        seq!["codex-resources/zsh/bin/zsh"@]
    })
}

pub fn required_package_files(target: &str) -> (r: Vec<String>)
    ensures
        texts(r@) == package_files(target@),
{
    let suffix = suffix_for(target);
    let mut codex = "bin/codex".to_owned();
    codex.append(suffix);
    let mut host = "bin/codex-code-mode-host".to_owned();
    host.append(suffix);
    let mut rg = "codex-path/rg".to_owned();
    rg.append(suffix);
    let mut list = vec![codex, host, rg];
    if contains(target, "linux") {
        list.push("codex-resources/bwrap".to_owned());
    }
    if contains(target, "windows") {
        list.push("codex-resources/codex-command-runner.exe".to_owned());
        list.push("codex-resources/codex-windows-sandbox-setup.exe".to_owned());
    } else {
        list.push("codex-resources/zsh/bin/zsh".to_owned());
    }
    proof {
        assert(texts(list@) =~= package_files(target@));
    }
    list
}

/// What a required file of a package was found to be.
#[derive(Debug, Clone, Copy, PartialEq, Eq, Structural)]
pub enum PackageFile {
    Missing,
    NotExecutable,
    Fine,
}

/// The facts about a package that decide whether it is used. `files` are the required
/// files in the order of [`required_package_files`].
#[derive(Debug)]
pub struct PackageFacts {
    pub package: String,
    pub metadata: PackageMetadata,
    /// The metadata as it is shown in a message.
    pub metadata_text: String,
    pub bin_dir: bool,
    pub resources_dir: bool,
    pub path_dir: bool,
    pub files: Vec<PackageFile>,
    /// What `--version` printed.
    pub version: String,
    /// What `--help` printed.
    pub help: String,
}

/// The first required file that is missing or cannot be executed. A file of which nothing is
/// known is missing.
pub open spec fn package_file_problem(
    platform: Platform,
    package: Seq<char>,
    required: Seq<Seq<char>>,
    files: Seq<PackageFile>,
    windows: bool,
) -> Option<Seq<char>>
    decreases required.len(),
{
    if required.len() == 0 {
        None
    } else if files.len() == 0 || files[0] == PackageFile::Missing {
        Some("canonical package is missing "@ + required[0])
    } else if files[0] == PackageFile::NotExecutable && !windows {
        Some(
            "canonical package resource is not executable: "@ + join_path(
                platform,
                package,
                required[0],
            ),
        )
    } else {
        package_file_problem(platform, package, required.drop_first(), files.drop_first(), windows)
    }
}

/// The subcommands of a package that passed, or the first rule that it breaks.
pub open spec fn package_problem(
    platform: Platform,
    f: PackageFacts,
    d: DesiredView,
) -> Option<Seq<char>> {
    if !describes_package(f.metadata, d) {
        Some(
            "codex-package.json does not describe the requested canonical package: "@
                + f.metadata_text@,
        )
    } else if !f.bin_dir {
        Some("canonical package is missing directory bin"@)
    } else if !f.resources_dir {
        Some("canonical package is missing directory codex-resources"@)
    } else if !f.path_dir {
        Some("canonical package is missing directory codex-path"@)
    } else {
        match package_file_problem(
            platform,
            f.package@,
            package_files(d.target),
            f.files@,
            for_windows(d.target),
        ) {
            Some(message) => Some(message),
            None => if !contains_text(f.version@, expected_version(d)) {
                Some(
                    "built Codex version "@ + quoted(f.version@) + " does not contain expected "@
                        + expected_version(d),
                )
            } else {
                None
            },
        }
    }
}

fn find_package_file_problem(
    platform: Platform,
    package: &str,
    required: &Vec<String>,
    files: &Vec<PackageFile>,
    windows: bool,
) -> (r: Option<String>)
    ensures
        opt_text(r) == package_file_problem(platform, package@, texts(required@), files@, windows),
{
    let ghost all = texts(required@);
    let mut i: usize = 0;
    proof {
        assert(all.skip(0) =~= all);
        assert(files@.skip(0) =~= files@);
    }
    while i < required.len()
        invariant
            i <= required@.len(),
            i <= files@.len(),
            all == texts(required@),
            package_file_problem(platform, package@, all, files@, windows) == package_file_problem(
                platform,
                package@,
                all.skip(i as int),
                files@.skip(i as int),
                windows,
            ),
        decreases required@.len() - i,
    {
        proof {
            assert(all.skip(i as int)[0] == required@[i as int]@);
            assert(all.skip(i as int).drop_first() =~= all.skip(i as int + 1));
            if i < files@.len() {
                assert(files@.skip(i as int).drop_first() =~= files@.skip(i as int + 1));
            }
        }
        let found = if i < files.len() { files[i] } else { PackageFile::Missing };
        match found {
            PackageFile::Missing => {
                let mut message = "canonical package is missing ".to_owned();
                message.append(required[i].as_str());
                return Some(message);
            },
            PackageFile::NotExecutable => {
                if !windows {
                    let mut message =
                        "canonical package resource is not executable: ".to_owned();
                    message.append(joined(platform, package, required[i].as_str()).as_str());
                    return Some(message);
                }
            },
            PackageFile::Fine => {},
        }
        i = i + 1;
    }
    None
}

proof fn lemma_package_files(
    platform: Platform,
    package: Seq<char>,
    required: Seq<Seq<char>>,
    files: Seq<PackageFile>,
    windows: bool,
)
    requires
        package_file_problem(platform, package, required, files, windows) is None,
    ensures
        required.len() <= files.len(),
        forall|i: int|
            0 <= i < required.len() ==> #[trigger] files[i] == PackageFile::Fine || (windows
                && files[i] == PackageFile::NotExecutable),
    decreases required.len(),
{
    if required.len() > 0 {
        lemma_package_files(platform, package, required.drop_first(), files.drop_first(), windows);
        assert forall|i: int| 0 <= i < required.len() implies #[trigger] files[i]
            == PackageFile::Fine || (windows && files[i] == PackageFile::NotExecutable) by {
            if i > 0 {
                assert(files.drop_first()[i - 1] == files[i]);
            }
        }
    }
}

/// A package is used only when each file that its target requires was found, and off Windows
/// found to be executable.
pub proof fn used_packages_are_whole(platform: Platform, f: PackageFacts, d: DesiredView)
    requires
        package_problem(platform, f, d) is None,
    ensures
        package_files(d.target).len() <= f.files@.len(),
        forall|i: int|
            0 <= i < package_files(d.target).len() ==> #[trigger] f.files@[i] == PackageFile::Fine
                || (for_windows(d.target) && f.files@[i] == PackageFile::NotExecutable),
{
    lemma_package_files(
        platform,
        f.package@,
        package_files(d.target),
        f.files@,
        for_windows(d.target),
    );
}

/// The subcommands of a validated package.
pub fn validate_package(
    platform: Platform,
    facts: &PackageFacts,
    desired: &DesiredBuild,
) -> (r: Result<Vec<String>, String>)
    ensures
        match package_problem(platform, *facts, desired@) {
            Some(message) => r matches Err(e) && e@ == message,
            None => subcommands_of(r, facts.help@),
        },
{
    if !metadata_matches(&facts.metadata, desired) {
        let mut message =
            "codex-package.json does not describe the requested canonical package: ".to_owned();
        message.append(facts.metadata_text.as_str());
        return Err(message);
    }
    if !facts.bin_dir {
        return Err("canonical package is missing directory bin".to_owned());
    }
    if !facts.resources_dir {
        return Err("canonical package is missing directory codex-resources".to_owned());
    }
    if !facts.path_dir {
        return Err("canonical package is missing directory codex-path".to_owned());
    }
    let required = required_package_files(desired.target.as_str());
    let windows = contains(desired.target.as_str(), "windows");
    match find_package_file_problem(
        platform,
        facts.package.as_str(),
        &required,
        &facts.files,
        windows,
    ) {
        Some(message) => return Err(message),
        None => {},
    }
    let expected = expected_version_of(desired);
    if !contains(facts.version.as_str(), expected.as_str()) {
        let mut message = "built Codex version ".to_owned();
        message.append(quoted_text(facts.version.as_str()).as_str());
        message.append(" does not contain expected ");
        message.append(expected.as_str());
        return Err(message);
    }
    parse_subcommands(facts.help.as_str())
}

/// The characters up to the first white space.
pub open spec fn word(s: Seq<char>) -> Seq<char>
    decreases s.len(),
{
    if s.len() == 0 || is_whitespace(s[0]) {
        Seq::empty()
    } else {
        seq![s[0]] + word(s.drop_first())
    }
}

/// The first word of a text.
pub open spec fn first_word(s: Seq<char>) -> Seq<char> {
    word(trim_start(s))
}

fn first_word_of(s: &str) -> (r: String)
    ensures
        r@ == first_word(s@),
{
    let chars = chars_of(s);
    let mut from: usize = 0;
    proof {
        assert(chars@.skip(0) =~= s@);
    }
    while from < chars.len() && is_whitespace_char(chars[from])
        invariant
            from <= chars@.len(),
            trim_start(s@) == trim_start(chars@.skip(from as int)),
        decreases chars@.len() - from,
    {
        proof {
            assert(chars@.skip(from as int).drop_first() =~= chars@.skip(from as int + 1));
        }
        from = from + 1;
    }
    let ghost rest = chars@.skip(from as int);
    proof {
        if from < chars@.len() {
            assert(rest[0] == chars@[from as int]);
        }
        assert(trim_start(s@) == rest);
    }
    let mut out = String::new();
    let mut i: usize = from;
    proof {
        assert(out@ + word(rest) =~= word(rest));
    }
    while i < chars.len() && !is_whitespace_char(chars[i])
        invariant
            from <= i <= chars@.len(),
            out@ + word(chars@.skip(i as int)) == word(rest),
        decreases chars@.len() - i,
    {
        let ghost before = out@;
        out.push(chars[i]);
        proof {
            let here = chars@.skip(i as int);
            assert(here[0] == chars@[i as int]);
            assert(here.drop_first() =~= chars@.skip(i as int + 1));
            assert(out@ + word(chars@.skip(i as int + 1)) =~= before + word(here));
        }
        i = i + 1;
    }
    proof {
        let here = chars@.skip(i as int);
        if i < chars@.len() {
            assert(here[0] == chars@[i as int]);
        }
        assert(word(here) =~= Seq::empty());
        assert(out@ + Seq::<char>::empty() =~= out@);
    }
    out
}

pub open spec fn is_command_name(s: Seq<char>) -> bool {
    s.len() > 0 && forall|i: int|
        0 <= i < s.len() ==> is_digit(#[trigger] s[i]) || is_ascii_letter(s[i]) || s[i] == '-'
}

/// The command that a line of the command list names: it is indented by two spaces and no
/// more than three.
pub open spec fn listed_command(line: Seq<char>) -> Option<Seq<char>> {
    if "  "@.is_prefix_of(line) && !"    "@.is_prefix_of(line) && is_command_name(
        first_word(line),
    ) {
        Some(first_word(line))
    } else {
        None
    }
}

/// The commands in the list that follows a line `Commands:`.
pub open spec fn listed_commands(list: Seq<Seq<char>>, in_commands: bool) -> Seq<Seq<char>>
    decreases list.len(),
{
    if list.len() == 0 {
        Seq::empty()
    } else {
        let line = list[0];
        let rest = list.drop_first();
        if trim(line) == "Commands:"@ {
            listed_commands(rest, true)
        } else if !in_commands {
            listed_commands(rest, false)
        } else if trim(line) == "Arguments:"@ || trim(line) == "Options:"@ {
            Seq::empty()
        } else {
            match listed_command(line) {
                Some(command) => seq![command] + listed_commands(rest, true),
                None => listed_commands(rest, true),
            }
        }
    }
}

pub open spec fn strictly_sorted(v: Seq<Seq<char>>) -> bool {
    forall|i: int, j: int| 0 <= i < j < v.len() ==> text_less(v[i], v[j])
}

pub open spec fn required_commands() -> Seq<Seq<char>> {
    seq!["exec"@, "resume"@, "fork"@, "app-server"@]
}

pub open spec fn missing_command(found: Set<Seq<char>>, required: Seq<Seq<char>>) -> Option<
    Seq<char>,
>
    decreases required.len(),
{
    if required.len() == 0 {
        None
    } else if !found.contains(required[0]) {
        Some(required[0])
    } else {
        missing_command(found, required.drop_first())
    }
}

/// The sorted subcommands of a help text, or the first required one that it lacks.
pub open spec fn subcommands_of(r: Result<Vec<String>, String>, help: Seq<char>) -> bool {
    let listed = listed_commands(lines(help), false).to_set();
    match missing_command(listed, required_commands()) {
        Some(name) => r matches Err(e) && e@
            == "Codex help output is missing expected subcommand "@ + quoted(name),
        None => r matches Ok(v) && strictly_sorted(texts(v@)) && texts(v@).to_set() == listed,
    }
}

fn is_command_text(s: &str) -> (r: bool)
    ensures
        r == is_command_name(s@),
{
    let chars = chars_of(s);
    let mut i: usize = 0;
    while i < chars.len()
        invariant
            i <= chars@.len(),
            chars@ == s@,
            forall|j: int|
                0 <= j < i ==> is_digit(#[trigger] chars@[j]) || is_ascii_letter(chars@[j])
                    || chars@[j] == '-',
        decreases chars@.len() - i,
    {
        if !is_digit_char(chars[i]) && !is_letter_char(chars[i]) && chars[i] != '-' {
            return false;
        }
        i = i + 1;
    }
    chars.len() > 0
}

proof fn lemma_less_total(a: Seq<char>, b: Seq<char>)
    ensures
        text_less(a, b) || text_less(b, a) || a == b,
    decreases a.len(),
{
    if a.len() > 0 && b.len() > 0 && a[0] == b[0] {
        lemma_less_total(a.drop_first(), b.drop_first());
        if a.drop_first() == b.drop_first() {
            assert(a =~= seq![a[0]] + a.drop_first());
            assert(b =~= seq![b[0]] + b.drop_first());
        }
    } else if a.len() == 0 && b.len() == 0 {
        assert(a =~= b);
    }
}

proof fn lemma_less_chain(a: Seq<char>, b: Seq<char>, c: Seq<char>)
    requires
        text_less(a, b),
        text_less(b, c),
    ensures
        text_less(a, c),
    decreases a.len(),
{
    if a.len() > 0 && b.len() > 0 && c.len() > 0 && a[0] == b[0] && b[0] == c[0] {
        lemma_less_chain(a.drop_first(), b.drop_first(), c.drop_first());
    }
}

/// Puts a text into a sorted list, unless it is there already.
pub fn insert_sorted(list: &mut Vec<String>, item: String)
    requires
        strictly_sorted(texts(old(list)@)),
    ensures
        strictly_sorted(texts(final(list)@)),
        texts(final(list)@).to_set() == texts(old(list)@).to_set().insert(item@),
{
    let ghost before = texts(list@);
    let mut at: usize = 0;
    while at < list.len() && text_is_less(list[at].as_str(), item.as_str())
        invariant
            at <= list@.len(),
            before == texts(list@),
            strictly_sorted(before),
            forall|j: int| 0 <= j < at ==> text_less(#[trigger] before[j], item@),
        decreases list@.len() - at,
    {
        proof {
            assert(before[at as int] == list@[at as int]@);
        }
        at = at + 1;
    }
    if at < list.len() && same(list[at].as_str(), item.as_str()) {
        proof {
            assert(before[at as int] == item@);
            assert(before.to_set() =~= before.to_set().insert(item@));
        }
        return;
    }
    let ghost x = item@;
    list.insert(at, item);
    proof {
        let after = texts(list@);
        assert(after =~= before.insert(at as int, x));
        assert forall|i: int, j: int| 0 <= i < j < after.len() implies text_less(
            after[i],
            after[j],
        ) by {
            if j < at {
                assert(after[i] == before[i] && after[j] == before[j]);
            } else if j == at {
                assert(after[i] == before[i]);
            } else if i == at {
                assert(after[j] == before[j - 1]);
                lemma_less_total(before[at as int], x);
                if j - 1 > at {
                    lemma_less_chain(x, before[at as int], before[j - 1]);
                }
            } else if i < at {
                assert(after[i] == before[i] && after[j] == before[j - 1]);
            } else {
                assert(after[i] == before[i - 1] && after[j] == before[j - 1]);
            }
        }
        assert forall|p: Seq<char>| after.to_set().contains(p) == before.to_set().insert(
            x,
        ).contains(p) by {
            if after.contains(p) {
                let k = choose|k: int| 0 <= k < after.len() && after[k] == p;
                if k < at {
                    assert(before[k] == p);
                } else if k > at {
                    assert(before[k - 1] == p);
                }
            }
            if before.contains(p) {
                let k = choose|k: int| 0 <= k < before.len() && before[k] == p;
                if k < at {
                    assert(after[k] == p);
                } else {
                    assert(after[k + 1] == p);
                }
            }
            assert(after[at as int] == x);
        }
        assert(after.to_set() =~= before.to_set().insert(x));
    }
}

/// The subcommands that a help text lists, sorted.
pub fn parse_subcommands(help: &str) -> (r: Result<Vec<String>, String>)
    ensures
        subcommands_of(r, help@),
{
    let list = lines_of(help);
    let ghost all = texts(list@);
    let mut in_commands = false;
    let mut commands: Vec<String> = Vec::new();
    let mut i: usize = 0;
    let ghost wanted = listed_commands(all, false).to_set();
    let mut done = false;
    proof {
        assert(all.skip(0) =~= all);
        assert(texts(commands@) =~= Seq::empty());
        assert(wanted =~= texts(commands@).to_set().union(
            listed_commands(all.skip(0), false).to_set(),
        ));
    }
    while i < list.len() && !done
        invariant
            i <= list@.len(),
            all == texts(list@),
            strictly_sorted(texts(commands@)),
            !done ==> wanted == texts(commands@).to_set().union(
                listed_commands(all.skip(i as int), in_commands).to_set(),
            ),
            done ==> wanted == texts(commands@).to_set(),
        decreases list@.len() - i, !done as int,
    {
        let line = list[i].as_str();
        let short = trimmed(line);
        let ghost rest = all.skip(i as int + 1);
        proof {
            assert(all.skip(i as int)[0] == line@);
            assert(all.skip(i as int).drop_first() =~= rest);
        }
        if same(short.as_str(), "Commands:") {
            in_commands = true;
        } else if in_commands {
            if same(short.as_str(), "Arguments:") || same(short.as_str(), "Options:") {
                done = true;
                proof {
                    assert(wanted =~= texts(commands@).to_set());
                }
            } else if starts_with(line, "  ") && !starts_with(line, "    ") {
                let command = first_word_of(line);
                if is_command_text(command.as_str()) {
                    let ghost before = texts(commands@).to_set();
                    let ghost c = command@;
                    insert_sorted(&mut commands, command);
                    proof {
                        let tail = listed_commands(rest, true);
                        let here = seq![c] + tail;
                        assert(here.to_set() =~= tail.to_set().insert(c)) by {
                            assert forall|p: Seq<char>|
                                here.to_set().contains(p) == tail.to_set().insert(c).contains(
                                    p,
                                ) by {
                                if here.contains(p) {
                                    let k = choose|k: int| 0 <= k < here.len() && here[k] == p;
                                    if k > 0 {
                                        assert(tail[k - 1] == p);
                                    }
                                }
                                if tail.contains(p) {
                                    let k = choose|k: int| 0 <= k < tail.len() && tail[k] == p;
                                    assert(here[k + 1] == p);
                                }
                                assert(here[0] == c);
                            }
                        }
                        assert(before.union(here.to_set()) =~= before.insert(c).union(
                            tail.to_set(),
                        ));
                    }
                }
            }
        }
        i = i + 1;
    }
    proof {
        if !done {
            assert(all.skip(i as int) =~= Seq::empty());
            assert(wanted =~= texts(commands@).to_set());
        }
    }
    let required = vec!["exec", "resume", "fork", "app-server"];
    let ghost names = slices(required@);
    proof {
        assert(names =~= required_commands());
        assert(names.skip(0) =~= names);
    }
    let mut k: usize = 0;
    while k < required.len()
        invariant
            k <= required@.len(),
            names == slices(required@),
            names == required_commands(),
            wanted == texts(commands@).to_set(),
            wanted == listed_commands(lines(help@), false).to_set(),
            missing_command(wanted, names) == missing_command(wanted, names.skip(k as int)),
        decreases required@.len() - k,
    {
        proof {
            assert(names.skip(k as int)[0] == required@[k as int]@);
            assert(names.skip(k as int).drop_first() =~= names.skip(k as int + 1));
        }
        if !crate::text::holds(&commands, required[k]) {
            let mut message = "Codex help output is missing expected subcommand ".to_owned();
            message.append(quoted_text(required[k]).as_str());
            return Err(message);
        }
        k = k + 1;
    }
    Ok(commands)
}

/// One file of a package: its path below the package, and its bytes, or the target of a
/// link.
#[derive(Debug)]
pub struct OutputEntry {
    pub path: String,
    pub bytes: Vec<u8>,
}

pub open spec fn hash_of(e: OutputEntry) -> FileHashView {
    FileHashView { path: forward_slashes(e.path@), sha256: hex_text(sha256(e.bytes@)) }
}

pub open spec fn hashes_view(v: Seq<FileHash>) -> Seq<FileHashView> {
    v.map_values(|h: FileHash| h@)
}

pub open spec fn hashes_of(v: Seq<OutputEntry>) -> Seq<FileHashView> {
    v.map_values(|e: OutputEntry| hash_of(e))
}

pub open spec fn sorted_hashes(v: Seq<FileHashView>) -> bool {
    forall|i: int, j: int| 0 <= i < j < v.len() ==> !text_less(v[j].path, v[i].path)
}

/// The hashes of one path, in their order.
pub open spec fn of_path(v: Seq<FileHashView>, path: Seq<char>) -> Seq<FileHashView>
    decreases v.len(),
{
    if v.len() == 0 {
        v
    } else if v.last().path == path {
        of_path(v.drop_last(), path).push(v.last())
    } else {
        of_path(v.drop_last(), path)
    }
}

proof fn lemma_of_path_concat(a: Seq<FileHashView>, b: Seq<FileHashView>, path: Seq<char>)
    ensures
        of_path(a + b, path) == of_path(a, path) + of_path(b, path),
    decreases b.len(),
{
    if b.len() == 0 {
        assert(a + b =~= a);
        assert(of_path(a, path) + of_path(b, path) =~= of_path(a, path));
    } else {
        assert((a + b).drop_last() =~= a + b.drop_last());
        lemma_of_path_concat(a, b.drop_last(), path);
        assert(of_path(a + b, path) =~= of_path(a, path) + of_path(b, path));
    }
}

proof fn lemma_not_of_path(v: Seq<FileHashView>, path: Seq<char>)
    requires
        forall|k: int| 0 <= k < v.len() ==> (#[trigger] v[k]).path != path,
    ensures
        of_path(v, path) == Seq::<FileHashView>::empty(),
    decreases v.len(),
{
    if v.len() == 0 {
        assert(v =~= Seq::empty());
    } else {
        let init = v.drop_last();
        assert forall|k: int| 0 <= k < init.len() implies (#[trigger] init[k]).path != path by {
            assert(init[k] == v[k]);
        }
        lemma_not_of_path(init, path);
        assert(v[v.len() - 1].path != path);
    }
}

/// A hash that is put before greater paths alone comes last of its own path.
proof fn lemma_placed_hash(v: Seq<FileHashView>, x: FileHashView, at: int, path: Seq<char>)
    requires
        0 <= at <= v.len(),
        forall|k: int| at <= k < v.len() ==> text_less(x.path, #[trigger] v[k].path),
    ensures
        of_path(v.insert(at, x), path) == of_path(v.push(x), path),
{
    let head = v.take(at);
    let tail = v.skip(at);
    assert(v.insert(at, x) =~= head.push(x) + tail);
    assert(v =~= head + tail);
    assert(v.push(x).drop_last() =~= v);
    assert(head.push(x).drop_last() =~= head);
    lemma_of_path_concat(head.push(x), tail, path);
    lemma_of_path_concat(head, tail, path);
    if x.path == path {
        assert forall|k: int| 0 <= k < tail.len() implies (#[trigger] tail[k]).path != path by {
            assert(tail[k] == v[at + k]);
            if tail[k].path == path {
                crate::patchset::lemma_less_asymmetric(path, path);
            }
        }
        lemma_not_of_path(tail, path);
        assert(of_path(head, path) + of_path(tail, path) =~= of_path(head, path));
        assert(of_path(head.push(x), path) + of_path(tail, path) =~= of_path(head, path).push(x));
    }
}

/// The hash of every output, in the order of the paths. Those of one path keep their order.
pub fn hash_tree(entries: &Vec<OutputEntry>) -> (r: Vec<FileHash>)
    ensures
        sorted_hashes(hashes_view(r@)),
        hashes_view(r@).to_multiset() == hashes_of(entries@).to_multiset(),
        forall|path: Seq<char>| #[trigger]
            of_path(hashes_view(r@), path) == of_path(hashes_of(entries@), path),
{
    let mut out: Vec<FileHash> = Vec::new();
    let ghost all = hashes_of(entries@);
    let mut i: usize = 0;
    proof {
        assert(hashes_view(out@) =~= all.take(0));
    }
    while i < entries.len()
        invariant
            i <= entries@.len(),
            all == hashes_of(entries@),
            sorted_hashes(hashes_view(out@)),
            hashes_view(out@).to_multiset() == all.take(i as int).to_multiset(),
            forall|path: Seq<char>| #[trigger]
                of_path(hashes_view(out@), path) == of_path(all.take(i as int), path),
        decreases entries@.len() - i,
    {
        let item = FileHash {
            path: with_forward_slashes(entries[i].path.as_str()),
            sha256: sha256_hex(entries[i].bytes.as_slice()),
        };
        let mut at: usize = out.len();
        let ghost x = item@;
        let ghost v = hashes_view(out@);
        while at > 0 && text_is_less(item.path.as_str(), out[at - 1].path.as_str())
            invariant
                at <= out@.len(),
                v == hashes_view(out@),
                x == item@,
                sorted_hashes(v),
                forall|k: int| at <= k < v.len() ==> text_less(x.path, #[trigger] v[k].path),
            decreases at,
        {
            at = at - 1;
        }
        out.insert(at, item);
        proof {
            let w = hashes_view(out@);
            assert(w =~= v.insert(at as int, x));
            vstd::seq_lib::to_multiset_insert(v, at as int, x);
            assert(all[i as int] == x);
            assert(all.take(i as int + 1) =~= all.take(i as int).push(x));
            vstd::seq_lib::to_multiset_build(all.take(i as int), x);
            assert forall|path: Seq<char>| #[trigger] of_path(w, path) == of_path(
                all.take(i as int + 1),
                path,
            ) by {
                lemma_placed_hash(v, x, at as int, path);
                assert(v.push(x).drop_last() =~= v);
                assert(all.take(i as int).push(x).drop_last() =~= all.take(i as int));
                assert(of_path(v, path) == of_path(all.take(i as int), path));
            }
            assert forall|a: int, b: int| 0 <= a < b < w.len() implies !text_less(
                w[b].path,
                w[a].path,
            ) by {
                if a == at {
                    crate::patchset::lemma_less_asymmetric(x.path, v[b - 1].path);
                } else if b == at {
                    if a < at - 1 {
                        crate::patchset::lemma_less_transitive(v[a].path, v[at - 1].path, x.path);
                    }
                } else {
                    let a0 = if a < at { a } else { a - 1 };
                    let b0 = if b < at { b } else { b - 1 };
                    assert(w[a] == v[a0] && w[b] == v[b0]);
                }
            }
        }
        i = i + 1;
    }
    proof {
        assert(all.take(entries@.len() as int) =~= all);
    }
    out
}

pub open spec fn binary_name(target: Seq<char>) -> Seq<char> {
    "codex"@ + executable_suffix(target)
}

/// The manifest describes the desired build, kept below `root`.
pub open spec fn manifest_matches(
    platform: Platform,
    m: GenerationManifest,
    root: Seq<char>,
    d: DesiredView,
) -> bool {
    let g = m.generation@;
    &&& m.schema == STATE_SCHEMA
    &&& g.id == d.source_key
    &&& g.source_key == d.source_key
    &&& g.source == d.source
    &&& g.patch_fingerprint == d.patch_fingerprint
    &&& g.target == d.target
    &&& parts(platform, g.package_dir) == parts(platform, join_path(platform, root, "package"@))
    &&& parts(platform, g.binary) == parts(
        platform,
        join_path(platform, join_path(platform, root, "package/bin"@), binary_name(d.target)),
    )
}

/// The manifest at `manifest_path` belongs to the desired build.
pub fn check_manifest(
    platform: Platform,
    manifest: &GenerationManifest,
    manifest_path: &str,
    desired: &DesiredBuild,
) -> (r: Result<(), String>)
    ensures
        result_unit(r) == (match parent(platform, manifest_path@) {
            None => Err("generation manifest has no parent"@),
            Some(root) => if manifest_matches(platform, *manifest, root, desired@) {
                Ok(())
            } else {
                Err(
                    "immutable generation manifest does not match desired source key "@
                        + desired.source_key@,
                )
            },
        }),
{
    let root = match parent_of(platform, manifest_path) {
        Some(root) => root,
        None => return Err("generation manifest has no parent".to_owned()),
    };
    let g = &manifest.generation;
    let package = joined(platform, root.as_str(), "package");
    let bin = joined(platform, root.as_str(), "package/bin");
    let mut name = "codex".to_owned();
    name.append(suffix_for(desired.target.as_str()));
    let binary = joined(platform, bin.as_str(), name.as_str());
    if manifest.schema == STATE_SCHEMA && same(g.id.as_str(), desired.source_key.as_str()) && same(
        g.source_key.as_str(),
        desired.source_key.as_str(),
    ) && g.source.same_as(&desired.source) && same(
        g.patch_fingerprint.as_str(),
        desired.patch_fingerprint.as_str(),
    ) && same(g.target.as_str(), desired.target.as_str()) && same_path(
        platform,
        g.package_dir.as_str(),
        package.as_str(),
    ) && same_path(platform, g.binary.as_str(), binary.as_str()) {
        Ok(())
    } else {
        let mut message =
            "immutable generation manifest does not match desired source key ".to_owned();
        message.append(desired.source_key.as_str());
        Err(message)
    }
}

pub fn same_hashes(a: &Vec<FileHash>, b: &Vec<FileHash>) -> (r: bool)
    ensures
        r == (hashes_view(a@) == hashes_view(b@)),
{
    let ghost x = hashes_view(a@);
    let ghost y = hashes_view(b@);
    if a.len() != b.len() {
        proof {
            assert(x.len() != y.len());
        }
        return false;
    }
    let mut i: usize = 0;
    while i < a.len()
        invariant
            i <= a@.len(),
            a@.len() == b@.len(),
            x == hashes_view(a@),
            y == hashes_view(b@),
            forall|j: int| 0 <= j < i ==> x[j] == y[j],
        decreases a@.len() - i,
    {
        if !same(a[i].path.as_str(), b[i].path.as_str()) || !same(
            a[i].sha256.as_str(),
            b[i].sha256.as_str(),
        ) {
            proof {
                assert(x[i as int] != y[i as int]);
            }
            return false;
        }
        i = i + 1;
    }
    proof {
        assert(x =~= y);
    }
    true
}

/// The outputs of an immutable generation are what its manifest recorded.
pub fn check_outputs(manifest: &GenerationManifest, actual: &Vec<FileHash>, source_key: &str) -> (r:
    Result<(), String>)
    ensures
        result_unit(r) == (if hashes_view(actual@) == hashes_view(manifest.outputs@) {
            Ok(())
        } else {
            Err(
                "immutable generation "@ + source_key@ + " failed output hash verification"@,
            )
        }),
{
    if same_hashes(actual, &manifest.outputs) {
        Ok(())
    } else {
        let mut message = "immutable generation ".to_owned();
        message.append(source_key);
        message.append(" failed output hash verification");
        Err(message)
    }
}

/// The binary of an immutable generation has the subcommands that its manifest recorded.
pub fn check_commands(manifest: &GenerationManifest, actual: &Vec<String>, source_key: &str) -> (r:
    Result<(), String>)
    ensures
        result_unit(r) == (if texts(actual@) == texts(manifest.generation.subcommands@) {
            Ok(())
        } else {
            Err(
                "immutable generation "@ + source_key@ + " has inconsistent command metadata"@,
            )
        }),
{
    if crate::types::same_texts(actual, &manifest.generation.subcommands) {
        Ok(())
    } else {
        let mut message = "immutable generation ".to_owned();
        message.append(source_key);
        message.append(" has inconsistent command metadata");
        Err(message)
    }
}

pub open spec fn built_generation(
    paths: PatcherPaths,
    d: DesiredView,
    subcommands: Seq<Seq<char>>,
    now: Timestamp,
) -> GenerationView {
    let root = join_path(paths.platform, paths.generations_dir@, d.source_key);
    GenerationView {
        id: d.source_key,
        package_dir: join_path(paths.platform, root, "package"@),
        binary: join_path(
            paths.platform,
            join_path(paths.platform, join_path(paths.platform, root, "package"@), "bin"@),
            binary_name(d.target),
        ),
        source_key: d.source_key,
        source: d.source,
        patch_fingerprint: d.patch_fingerprint,
        target: d.target,
        subcommands,
        built_at: now,
    }
}

/// The record of a build that has been validated.
pub fn new_generation(
    paths: &PatcherPaths,
    desired: &DesiredBuild,
    subcommands: &Vec<String>,
    now: Timestamp,
) -> (r: GenerationRef)
    ensures
        r@ == built_generation(*paths, desired@, texts(subcommands@), now),
{
    let root = paths.generation(desired.source_key.as_str());
    let package_dir = joined(paths.platform, root.as_str(), "package");
    let bin = joined(paths.platform, package_dir.as_str(), "bin");
    let mut name = "codex".to_owned();
    name.append(suffix_for(desired.target.as_str()));
    GenerationRef {
        id: desired.source_key.clone(),
        binary: joined(paths.platform, bin.as_str(), name.as_str()),
        package_dir,
        source_key: desired.source_key.clone(),
        source: desired.source.clone(),
        patch_fingerprint: desired.patch_fingerprint.clone(),
        target: desired.target.clone(),
        subcommands: crate::types::copy_texts(subcommands),
        built_at: now,
    }
}

/// A new generation records the build that it was made for.
pub proof fn new_generations_record_their_build(
    paths: PatcherPaths,
    d: DesiredView,
    subcommands: Seq<Seq<char>>,
    now: Timestamp,
)
    ensures
        crate::types::desired_of(built_generation(paths, d, subcommands, now)) == d,
{
}

} // verus!
