//! When a package is used, what its commands are, and how a failure is told, in terms of what
//! was found.

use vstd::prelude::*;

use crate::build::checkout::{check_mirror_origin, repair_source, worktree_step, SourceStepView};
use crate::build::{
    build_worktree_dir, builder_diagnostic, built_generation, check_manifest, check_outputs,
    clean_line, first_error, first_word, hashes_view, is_transient, listed_command, listed_commands,
    log_tail, missing_command, network_needles, package_files, package_problem, printable,
    required_commands, version_check, BuildFailure, PackageFacts, PackageFile,
};
use crate::outside::lossy;
use crate::paths::{join_path, parent, parts, PatcherPaths, Platform};
use crate::text::{
    ascii_lower, contains_text, is_ascii_letter, is_control, is_digit, is_whitespace, lines,
    result_text, trim, trim_start,
};
use crate::types::{
    DesiredBuild, DesiredView, FileHash, GenerationManifest, GenerationView, Timestamp,
};

verus! {

/// The version that the package of a build has: a nightly has none of its own.
pub open spec fn version_of(d: DesiredView) -> Seq<char> {
    if d.source.channel == "nightly"@ {
        "0.0.0"@
    } else {
        d.source.version
    }
}

/// What executables of the target end in.
pub open spec fn suffix_of(target: Seq<char>) -> Seq<char> {
    if contains_text(target, "windows"@) {
        ".exe"@
    } else {
        ""@
    }
}

/// A package holds the binary, its host and the search tool, and what the sandbox of its system
/// needs.
pub proof fn packages_hold_what_their_system_needs(target: Seq<char>, name: Seq<char>)
    ensures
        package_files(target).contains(name) <==> name == "bin/codex"@ + suffix_of(target) || name
            == "bin/codex-code-mode-host"@ + suffix_of(target) || name == "codex-path/rg"@
            + suffix_of(target) || (contains_text(target, "linux"@) && name
            == "codex-resources/bwrap"@) || (contains_text(target, "windows"@) && (name
            == "codex-resources/codex-command-runner.exe"@ || name
            == "codex-resources/codex-windows-sandbox-setup.exe"@)) || (!contains_text(
            target,
            "windows"@,
        ) && name == "codex-resources/zsh/bin/zsh"@),
{
    let list = package_files(target);
    let linux: int = if contains_text(target, "linux"@) {
        1
    } else {
        0
    };
    assert(list[0] == "bin/codex"@ + suffix_of(target));
    assert(list[1] == "bin/codex-code-mode-host"@ + suffix_of(target));
    assert(list[2] == "codex-path/rg"@ + suffix_of(target));
    if contains_text(target, "linux"@) {
        assert(list[3] == "codex-resources/bwrap"@);
    }
    if contains_text(target, "windows"@) {
        assert(list[3 + linux] == "codex-resources/codex-command-runner.exe"@);
        assert(list[4 + linux] == "codex-resources/codex-windows-sandbox-setup.exe"@);
    } else {
        assert(list[3 + linux] == "codex-resources/zsh/bin/zsh"@);
    }
}

/// The files that a package needs were all found, and off Windows can be executed.
pub open spec fn files_are_fine(needed: nat, files: Seq<PackageFile>, windows: bool) -> bool {
    needed <= files.len() && forall|i: int|
        0 <= i < needed ==> #[trigger] files[i] == PackageFile::Fine || (windows && files[i]
            == PackageFile::NotExecutable)
}

proof fn lemma_files(
    platform: Platform,
    package: Seq<char>,
    required: Seq<Seq<char>>,
    files: Seq<PackageFile>,
    windows: bool,
)
    ensures
        crate::build::package_file_problem(platform, package, required, files, windows) is None
            <==> files_are_fine(required.len(), files, windows),
    decreases required.len(),
{
    if required.len() > 0 && files.len() > 0 {
        let rest = files.drop_first();
        lemma_files(platform, package, required.drop_first(), rest, windows);
        let n = (required.len() - 1) as nat;
        assert forall|i: int| 0 <= i < rest.len() implies #[trigger] rest[i] == files[i + 1] by {}
        if files_are_fine(required.len(), files, windows) {
            assert(files[0] == PackageFile::Fine || (windows && files[0]
                == PackageFile::NotExecutable));
            assert forall|i: int| 0 <= i < n implies #[trigger] rest[i] == PackageFile::Fine || (
            windows && rest[i] == PackageFile::NotExecutable) by {
                assert(rest[i] == files[i + 1]);
            }
        }
        if files_are_fine(n, rest, windows) && (files[0] == PackageFile::Fine || (windows
            && files[0] == PackageFile::NotExecutable)) {
            assert forall|i: int| 0 <= i < required.len() implies #[trigger] files[i]
                == PackageFile::Fine || (windows && files[i] == PackageFile::NotExecutable) by {
                if i > 0 {
                    assert(rest[i - 1] == files[i]);
                }
            }
        }
    }
}

/// A package is used exactly where its metadata is that of the wanted build, its directories and
/// files are there, and the binary tells the wanted version.
pub proof fn packages_are_used_when_whole(platform: Platform, f: PackageFacts, d: DesiredView)
    ensures
        package_problem(platform, f, d) is None <==> f.metadata.layout_version == 1
            && f.metadata.version@ == version_of(d) && f.metadata.target@ == d.target
            && f.metadata.variant@ == "codex"@ && f.metadata.entrypoint@ == "bin/codex"@
            + suffix_of(d.target) && f.metadata.resources_dir@ == "codex-resources"@
            && f.metadata.path_dir@ == "codex-path"@ && f.bin_dir && f.resources_dir && f.path_dir
            && files_are_fine(
            package_files(d.target).len(),
            f.files@,
            contains_text(d.target, "windows"@),
        ) && contains_text(f.version@, version_of(d)),
{
    lemma_files(
        platform,
        f.package@,
        package_files(d.target),
        f.files@,
        contains_text(d.target, "windows"@),
    );
}

/// A workspace is built exactly where its version could be read and is the wanted one.
pub proof fn workspaces_have_their_version(
    found: Result<Option<Seq<char>>, Seq<char>>,
    d: DesiredView,
)
    ensures
        version_check(found, d) is Ok <==> found == Ok::<Option<Seq<char>>, Seq<char>>(
            Some(version_of(d)),
        ),
        found matches Err(why) ==> version_check(found, d) == Err::<(), Seq<char>>(why),
{
}

/// A character that may be shown.
pub open spec fn may_be_shown(c: char) -> bool {
    c == '\t' || !is_control(c)
}

/// A text is shown character by character: what may be shown stays in its order, and the rest
/// goes.
pub proof fn texts_are_shown_character_by_character(a: Seq<char>, b: Seq<char>, c: char)
    ensures
        printable(a + b) == printable(a) + printable(b),
        may_be_shown(c) ==> printable(seq![c]) == seq![c],
        !may_be_shown(c) ==> printable(seq![c]) == Seq::<char>::empty(),
    decreases b.len(),
{
    let one = seq![c];
    assert(one.drop_last() =~= Seq::<char>::empty());
    assert(printable(one.drop_last()) =~= Seq::<char>::empty());
    assert(one.last() == c);
    assert(Seq::<char>::empty().push(c) =~= one);
    if b.len() == 0 {
        assert(a + b =~= a);
        assert(printable(a) + printable(b) =~= printable(a));
    } else {
        let rest = b.drop_last();
        texts_are_shown_character_by_character(a, rest, c);
        assert((a + b).drop_last() =~= a + rest);
        assert((a + b).last() == b.last());
        assert(printable(a + b) =~= printable(a) + printable(b));
    }
}

/// A line is shown without the white space around it, and cut where it is long.
pub proof fn long_lines_are_cut(s: Seq<char>)
    ensures
        ({
            let t = trim(printable(s));
            &&& t.len() <= 300 ==> clean_line(s) == t
            &&& t.len() > 300 ==> clean_line(s).len() == 301 && clean_line(s).take(300) == t.take(
                300,
            ) && clean_line(s)[300] == '…'
        }),
{
    reveal_strlit("…");
    let t = trim(printable(s));
    if t.len() > 300 {
        assert(clean_line(s).take(300) =~= t.take(300));
    }
}

/// The text speaks of a problem with the network.
pub open spec fn speaks_of_the_network(s: Seq<char>) -> bool {
    contains_text(s, "could not resolve host"@) || contains_text(
        s,
        "temporary failure in name resolution"@,
    ) || contains_text(s, "connection reset"@) || contains_text(s, "connection refused"@)
        || contains_text(s, "connection timed out"@) || contains_text(s, "operation timed out"@)
        || contains_text(s, "network failure"@) || contains_text(s, "spurious network error"@)
        || contains_text(s, "failed to download"@) || contains_text(
        s,
        "failed to get successful http response"@,
    ) || contains_text(s, "unable to access 'http"@) || contains_text(s, "error sending request"@)
        || contains_text(s, "http 429"@) || contains_text(s, "http 500"@) || contains_text(
        s,
        "http 502"@,
    ) || contains_text(s, "http 503"@) || contains_text(s, "http 504"@) || contains_text(
        s,
        "tls handshake"@,
    ) || contains_text(s, "ssl connect error"@)
}

/// The end of a log.
pub open spec fn end_of(log: Seq<u8>) -> Seq<u8> {
    if log.len() > 65536 {
        log.subrange(log.len() - 65536, log.len() as int)
    } else {
        log
    }
}

/// A failure passes by itself exactly where it is one of resolving or building, and its summary
/// or the end of its log speaks of the network, in whatever case.
pub proof fn network_failures_are_transient(phase: Seq<char>, summary: Seq<char>, log: Seq<u8>)
    ensures
        is_transient(phase, summary, log) <==> (phase == "resolve"@ || phase == "build"@)
            && speaks_of_the_network(ascii_lower(summary + "\n"@ + lossy(end_of(log)))),
{
    assert(log_tail(log) =~= end_of(log));
    let list = network_needles();
    assert(list[0] == "could not resolve host"@);
    assert(list[1] == "temporary failure in name resolution"@);
    assert(list[2] == "connection reset"@);
    assert(list[3] == "connection refused"@);
    assert(list[4] == "connection timed out"@);
    assert(list[5] == "operation timed out"@);
    assert(list[6] == "network failure"@);
    assert(list[7] == "spurious network error"@);
    assert(list[8] == "failed to download"@);
    assert(list[9] == "failed to get successful http response"@);
    assert(list[10] == "unable to access 'http"@);
    assert(list[11] == "error sending request"@);
    assert(list[12] == "http 429"@);
    assert(list[13] == "http 500"@);
    assert(list[14] == "http 502"@);
    assert(list[15] == "http 503"@);
    assert(list[16] == "http 504"@);
    assert(list[17] == "tls handshake"@);
    assert(list[18] == "ssl connect error"@);
}

/// A failure holds its phase, its summary as it is shown, and whether it passes by itself. No
/// patch is blamed yet.
pub proof fn failures_hold_what_went_wrong(
    phase: &str,
    error: &str,
    log_path: &str,
    log: &Vec<u8>,
    r: BuildFailure,
)
    requires
        call_ensures(BuildFailure::new, (phase, error, log_path, log), r),
    ensures
        r.phase@ == phase@,
        r.summary@ == clean_line(error@),
        r.log_path@ == log_path@,
        r.failed_patch_index is None,
        r.failed_patch is None,
        r.transient <==> (phase@ == "resolve"@ || phase@ == "build"@) && speaks_of_the_network(
            ascii_lower(clean_line(error@) + "\n"@ + lossy(end_of(log@))),
        ),
{
    network_failures_are_transient(phase@, clean_line(error@), log@);
}

/// The line reports an error.
pub open spec fn reports_error(line: Seq<char>) -> bool {
    "error:"@.is_prefix_of(trim(line)) || "error["@.is_prefix_of(trim(line))
}

/// The line is the first that reports an error.
pub open spec fn is_first_error(list: Seq<Seq<char>>, i: int) -> bool {
    0 <= i < list.len() && reports_error(list[i]) && forall|k: int|
        0 <= k < i ==> !reports_error(#[trigger] list[k])
}

/// The first line that reports an error is found, without the white space around it.
pub proof fn the_first_error_is_found(list: Seq<Seq<char>>)
    ensures
        match first_error(list) {
            Some(line) => exists|i: int| #[trigger] is_first_error(list, i) && line == trim(list[i]),
            None => forall|i: int| 0 <= i < list.len() ==> !reports_error(#[trigger] list[i]),
        },
    decreases list.len(),
{
    if list.len() > 0 {
        if reports_error(list[0]) {
            assert(is_first_error(list, 0));
        } else {
            let rest = list.drop_first();
            the_first_error_is_found(rest);
            match first_error(list) {
                Some(line) => {
                    let i = choose|i: int| #[trigger]
                        is_first_error(rest, i) && line == trim(rest[i]);
                    assert(list[i + 1] == rest[i]);
                    assert forall|k: int| 0 <= k < i + 1 implies !reports_error(
                        #[trigger] list[k],
                    ) by {
                        if k > 0 {
                            assert(rest[k - 1] == list[k]);
                        }
                    }
                    assert(is_first_error(list, i + 1));
                },
                None => {
                    assert forall|i: int| 0 <= i < list.len() implies !reports_error(
                        #[trigger] list[i],
                    ) by {
                        if i > 0 {
                            assert(rest[i - 1] == list[i]);
                        }
                    }
                },
            }
        }
    }
}

/// A builder that lacks the standard library of its target says so. Otherwise the first error of
/// the end of the log counts, and without one there is no diagnosis.
pub proof fn builders_say_what_is_missing(target: Seq<char>, log: Seq<u8>)
    ensures
        ({
            let text = lossy(end_of(log));
            let lacks = contains_text(ascii_lower(text), "can't find crate for `core`"@)
                && contains_text(ascii_lower(text), "target may not be installed"@);
            let r = builder_diagnostic(target, log);
            &&& lacks ==> r == Some(
                "Rust target "@ + target + " is not installed for Codex's pinned toolchain"@,
            )
            &&& !lacks ==> (r is Some <==> first_error(lines(text)) is Some)
            &&& !lacks ==> (first_error(lines(text)) matches Some(line) ==> r == Some(
                "package builder failed: "@ + clean_line(line),
            ))
        }),
{
    assert(log_tail(log) =~= end_of(log));
}

/// The word is what a text starts with, up to the first white space.
pub open spec fn starts_in_word(s: Seq<char>, w: Seq<char>) -> bool {
    w.is_prefix_of(s) && (w.len() < s.len() ==> is_whitespace(s[w.len() as int])) && forall|i: int|
        0 <= i < w.len() ==> !is_whitespace(#[trigger] w[i])
}

proof fn lemma_word(s: Seq<char>)
    ensures
        starts_in_word(s, crate::build::word(s)),
    decreases s.len(),
{
    let w = crate::build::word(s);
    if s.len() > 0 && !is_whitespace(s[0]) {
        let rest = s.drop_first();
        lemma_word(rest);
        let v = crate::build::word(rest);
        assert(s.take(w.len() as int) =~= w) by {
            assert forall|i: int| 0 <= i < w.len() implies s[i] == w[i] by {
                if i > 0 {
                    assert(w[i] == v[i - 1]);
                    assert(rest.take(v.len() as int)[i - 1] == v[i - 1]);
                }
            }
        }
        assert forall|i: int| 0 <= i < w.len() implies !is_whitespace(#[trigger] w[i]) by {
            if i > 0 {
                assert(w[i] == v[i - 1]);
            }
        }
    } else {
        assert(s.take(0) =~= w);
    }
}

/// The line names the command: it is indented by two or three spaces and starts with it.
pub open spec fn names_command(line: Seq<char>, command: Seq<char>) -> bool {
    "  "@.is_prefix_of(line) && !"    "@.is_prefix_of(line) && starts_in_word(
        trim_start(line),
        command,
    ) && command.len() > 0 && forall|i: int|
        0 <= i < command.len() ==> is_digit(#[trigger] command[i]) || is_ascii_letter(command[i])
            || command[i] == '-'
}

proof fn lemma_same_word(s: Seq<char>, a: Seq<char>, b: Seq<char>)
    requires
        starts_in_word(s, a),
        starts_in_word(s, b),
    ensures
        a == b,
{
    if a.len() < b.len() {
        assert(s.take(b.len() as int)[a.len() as int] == b[a.len() as int]);
    }
    if b.len() < a.len() {
        assert(s.take(a.len() as int)[b.len() as int] == a[b.len() as int]);
    }
    assert(a =~= b);
}

/// A line of the list of commands names at most the command that it starts with.
pub proof fn lines_name_their_command(line: Seq<char>, command: Seq<char>)
    ensures
        listed_command(line) == Some(command) <==> names_command(line, command),
{
    lemma_word(trim_start(line));
    if names_command(line, command) {
        lemma_same_word(trim_start(line), command, first_word(line));
    }
}

/// The list of commands starts at that line.
pub open spec fn opens_list(line: Seq<char>) -> bool {
    trim(line) == "Commands:"@
}

/// The list of commands ends at that line.
pub open spec fn ends_list(line: Seq<char>) -> bool {
    trim(line) == "Arguments:"@ || trim(line) == "Options:"@
}

/// The line at that position is in the list of commands: the list has been opened before, and
/// has not been ended since.
pub open spec fn in_list(list: Seq<Seq<char>>, open: bool, i: int) -> bool {
    if open {
        forall|j: int| 0 <= j <= i ==> !ends_list(#[trigger] list[j])
    } else {
        exists|k: int| #[trigger] opens_at(list, i, k)
    }
}

/// The list of commands is opened first at that line, and not ended from there on.
pub open spec fn opens_at(list: Seq<Seq<char>>, i: int, k: int) -> bool {
    0 <= k < i && opens_list(list[k]) && (forall|j: int|
        0 <= j < k ==> !opens_list(#[trigger] list[j])) && (forall|j: int|
        k < j <= i ==> !ends_list(#[trigger] list[j]))
}

/// The command is named at that line of the list.
pub open spec fn is_listed_at(
    list: Seq<Seq<char>>,
    open: bool,
    command: Seq<char>,
    i: int,
) -> bool {
    0 <= i < list.len() && in_list(list, open, i) && !opens_list(list[i]) && names_command(
        list[i],
        command,
    )
}

proof fn lemma_opens_is_no_end(line: Seq<char>)
    ensures
        !(opens_list(line) && ends_list(line)),
{
    reveal_strlit("Commands:");
    reveal_strlit("Arguments:");
    reveal_strlit("Options:");
    assert("Commands:"@[0] == 'C' && "Arguments:"@[0] == 'A' && "Options:"@[0] == 'O');
}

proof fn lemma_in_list_shift(list: Seq<Seq<char>>, open: bool, i: int)
    requires
        0 < i < list.len(),
    ensures
        opens_list(list[0]) ==> (in_list(list, open, i) <==> in_list(list.drop_first(), true, i - 1)),
        !opens_list(list[0]) && !open ==> (in_list(list, open, i) <==> in_list(
            list.drop_first(),
            false,
            i - 1,
        )),
        !opens_list(list[0]) && open ==> (in_list(list, open, i) <==> !ends_list(list[0])
            && in_list(list.drop_first(), true, i - 1)),
{
    let rest = list.drop_first();
    assert forall|j: int| 0 <= j < rest.len() implies #[trigger] rest[j] == list[j + 1] by {}
    lemma_opens_is_no_end(list[0]);
    if in_list(rest, true, i - 1) {
        assert forall|j: int| 1 <= j <= i implies !ends_list(#[trigger] list[j]) by {
            assert(rest[j - 1] == list[j]);
        }
        if opens_list(list[0]) {
            assert(opens_at(list, i, 0));
        }
    }
    if open && in_list(list, open, i) {
        assert forall|j: int| 0 <= j <= i - 1 implies !ends_list(#[trigger] rest[j]) by {
            assert(rest[j] == list[j + 1]);
        }
    }
    if !open && in_list(list, open, i) {
        let k = choose|k: int| #[trigger] opens_at(list, i, k);
        if opens_list(list[0]) {
            assert(k == 0);
            assert forall|j: int| 0 <= j <= i - 1 implies !ends_list(#[trigger] rest[j]) by {
                assert(rest[j] == list[j + 1]);
            }
        } else {
            assert forall|j: int| 0 <= j < k - 1 implies !opens_list(#[trigger] rest[j]) by {
                assert(rest[j] == list[j + 1]);
            }
            assert forall|j: int| k - 1 < j <= i - 1 implies !ends_list(#[trigger] rest[j]) by {
                assert(rest[j] == list[j + 1]);
            }
            assert(opens_at(rest, i - 1, k - 1));
        }
    }
    if !open && !opens_list(list[0]) && in_list(rest, false, i - 1) {
        let k = choose|k: int| #[trigger] opens_at(rest, i - 1, k);
        assert forall|j: int| 0 <= j < k + 1 implies !opens_list(#[trigger] list[j]) by {
            if j > 0 {
                assert(rest[j - 1] == list[j]);
            }
        }
        assert forall|j: int| k + 1 < j <= i implies !ends_list(#[trigger] list[j]) by {
            assert(rest[j - 1] == list[j]);
        }
        assert(opens_at(list, i, k + 1));
    }
}

proof fn lemma_listed(list: Seq<Seq<char>>, open: bool, command: Seq<char>)
    ensures
        listed_commands(list, open).contains(command) <==> exists|i: int| #[trigger]
            is_listed_at(list, open, command, i),
    decreases list.len(),
{
    if list.len() > 0 {
        let rest = list.drop_first();
        let line = list[0];
        let next = opens_list(line) || open;
        lemma_listed(rest, next, command);
        lines_name_their_command(line, command);
        let all = listed_commands(list, open);
        let tail = listed_commands(rest, next);
        let here = open && !opens_list(line) && !ends_list(line) && names_command(line, command);
        let ended = open && !opens_list(line) && ends_list(line);
        assert(all.contains(command) <==> here || (!ended && tail.contains(command))) by {
            if open && !opens_list(line) && !ends_list(line) {
                if let Some(found) = listed_command(line) {
                    assert(all == seq![found] + tail);
                    assert(all[0] == found);
                    if tail.contains(command) {
                        let k = choose|k: int| 0 <= k < tail.len() && tail[k] == command;
                        assert(all[k + 1] == command);
                    }
                    if all.contains(command) && command != found {
                        let k = choose|k: int| 0 <= k < all.len() && all[k] == command;
                        assert(tail[k - 1] == command);
                    }
                }
            }
        }
        if here {
            assert(in_list(list, open, 0));
            assert(is_listed_at(list, open, command, 0));
        }
        if !ended && tail.contains(command) {
            let i = choose|i: int| #[trigger] is_listed_at(rest, next, command, i);
            assert(list[i + 1] == rest[i]);
            lemma_in_list_shift(list, open, i + 1);
            assert(is_listed_at(list, open, command, i + 1));
        }
        if exists|i: int| #[trigger] is_listed_at(list, open, command, i) {
            let i = choose|i: int| #[trigger] is_listed_at(list, open, command, i);
            if i == 0 {
                if !open {
                    let k = choose|k: int| #[trigger] opens_at(list, 0, k);
                    assert(false);
                }
                assert(!ends_list(list[0]));
            } else {
                assert(rest[i - 1] == list[i]);
                lemma_in_list_shift(list, open, i);
                assert(is_listed_at(rest, next, command, i - 1));
            }
        }
    }
}

/// The commands of a help text are those that the lines between `Commands:` and the arguments or
/// the options name.
pub proof fn commands_are_listed_in_their_section(help: Seq<char>, command: Seq<char>)
    ensures
        listed_commands(lines(help), false).contains(command) <==> exists|i: int| #[trigger]
            is_listed_at(lines(help), false, command, i),
{
    lemma_listed(lines(help), false, command);
}

/// Nothing is missing exactly where every command that is needed was found.
pub proof fn needed_commands_are_there(found: Set<Seq<char>>)
    ensures
        missing_command(found, required_commands()) is None <==> found.contains("exec"@)
            && found.contains("resume"@) && found.contains("fork"@) && found.contains(
            "app-server"@,
        ),
{
    let list = required_commands();
    let a = list.drop_first();
    let b = a.drop_first();
    let c = b.drop_first();
    let e = c.drop_first();
    assert(list[0] == "exec"@ && a[0] == "resume"@ && b[0] == "fork"@ && c[0] == "app-server"@);
    assert(missing_command(found, e) is None);
    assert(missing_command(found, c) is None <==> found.contains("app-server"@));
    assert(missing_command(found, b) is None <==> found.contains("fork"@) && found.contains(
        "app-server"@,
    ));
    assert(missing_command(found, a) is None <==> found.contains("resume"@) && found.contains(
        "fork"@,
    ) && found.contains("app-server"@));
}

/// A manifest is that of the wanted build exactly where it records the build, and a package and
/// a binary below its own directory.
pub proof fn manifests_belong_to_their_build(
    platform: Platform,
    manifest: &GenerationManifest,
    manifest_path: &str,
    desired: &DesiredBuild,
    r: Result<(), String>,
)
    requires
        call_ensures(check_manifest, (platform, manifest, manifest_path, desired), r),
    ensures
        r is Ok <==> (parent(platform, manifest_path@) matches Some(root) && ({
            let g = manifest.generation@;
            let d = desired@;
            manifest.schema == 1 && g.id == d.source_key && g.source_key == d.source_key
                && g.source == d.source && g.patch_fingerprint == d.patch_fingerprint && g.target
                == d.target && parts(platform, g.package_dir) == parts(
                platform,
                join_path(platform, root, "package"@),
            ) && parts(platform, g.binary) == parts(
                platform,
                join_path(
                    platform,
                    join_path(platform, root, "package/bin"@),
                    "codex"@ + suffix_of(d.target),
                ),
            )
        })),
{
}

/// Outputs are accepted exactly where they are those of the manifest, file by file.
pub proof fn outputs_are_those_of_the_manifest(
    manifest: &GenerationManifest,
    actual: &Vec<FileHash>,
    source_key: &str,
    r: Result<(), String>,
)
    requires
        call_ensures(check_outputs, (manifest, actual, source_key), r),
    ensures
        r is Ok <==> actual@.len() == manifest.outputs@.len() && forall|i: int|
            0 <= i < actual@.len() ==> (#[trigger] actual@[i])@ == manifest.outputs@[i]@,
{
    let a = hashes_view(actual@);
    let b = hashes_view(manifest.outputs@);
    if r is Ok {
        assert(a == b);
        assert forall|i: int| 0 <= i < actual@.len() implies (#[trigger] actual@[i])@
            == manifest.outputs@[i]@ by {
            assert(a[i] == actual@[i]@ && b[i] == manifest.outputs@[i]@);
        }
    }
    if actual@.len() == manifest.outputs@.len() && forall|i: int|
        0 <= i < actual@.len() ==> (#[trigger] actual@[i])@ == manifest.outputs@[i]@ {
        assert(a =~= b);
    }
}

/// A new generation is named by the key of its build, records the build and its commands, and
/// keeps its package below its own directory.
pub proof fn generations_record_what_was_built(
    paths: PatcherPaths,
    d: DesiredView,
    subcommands: Seq<Seq<char>>,
    now: Timestamp,
)
    ensures
        ({
            let g: GenerationView = built_generation(paths, d, subcommands, now);
            let root = join_path(paths.platform, paths.generations_dir@, d.source_key);
            &&& g.id == d.source_key && g.source_key == d.source_key
            &&& g.source == d.source && g.patch_fingerprint == d.patch_fingerprint
            &&& g.target == d.target
            &&& g.subcommands == subcommands
            &&& g.built_at == now
            &&& g.package_dir == join_path(paths.platform, root, "package"@)
            &&& g.binary == join_path(
                paths.platform,
                join_path(paths.platform, g.package_dir, "bin"@),
                "codex"@ + suffix_of(d.target),
            )
        }),
{
}

/// A worktree is used again exactly where it stands and could be reset and cleaned, in this
/// order, and is made anew as soon as one of them fails.
pub proof fn worktrees_are_reused_when_clean(
    is_dir: bool,
    was_reset: Option<bool>,
    was_cleaned: Option<bool>,
)
    ensures
        ({
            let step = worktree_step(is_dir, was_reset, was_cleaned);
            &&& step is Reset <==> is_dir && was_reset is None
            &&& step is Clean <==> is_dir && was_reset == Some(true) && was_cleaned is None
            &&& step is Reuse <==> is_dir && was_reset == Some(true) && was_cleaned == Some(true)
            &&& step is Recreate <==> !is_dir || was_reset == Some(false) || (was_reset == Some(
                true,
            ) && was_cleaned == Some(false))
        }),
{
}

/// What was found is the object and the commit of the wanted source.
pub open spec fn is_wanted(d: DesiredView, found: Result<(String, String), String>) -> bool {
    found matches Ok(pair) && pair.0@ == d.source.ref_object_oid && pair.1@ == d.source.commit_oid
}

/// The source of a repair is used exactly where it is the wanted one: the one that the failed
/// build left, or else the one that was fetched, which is fetched only where the first is not.
pub proof fn repairs_use_the_wanted_source(
    d: DesiredView,
    cached: Result<(String, String), String>,
    fetched: Option<Result<(String, String), String>>,
)
    ensures
        ({
            let step = repair_source(d, cached, fetched);
            let left = is_wanted(d, cached);
            &&& step is Use <==> left || (fetched is Some && is_wanted(d, fetched->0))
            &&& step is Fetch <==> !left && fetched is None
            &&& step is Fail <==> !left && fetched is Some && !is_wanted(d, fetched->0)
            &&& !left ==> (fetched matches Some(Err(why)) ==> step == (SourceStepView::Fail {
                message: why@,
            }))
        }),
{
}

/// The mirror is used exactly where its origin is the upstream repository.
pub proof fn mirrors_are_of_upstream(current: &str, r: Result<(), String>)
    requires
        call_ensures(check_mirror_origin, (current,), r),
    ensures
        r is Ok <==> trim(current@) == "https://github.com/openai/codex.git"@,
{
}

/// The worktree of a build is named by its target, where that is safe to name a directory.
pub proof fn worktrees_are_named_by_target(
    paths: &PatcherPaths,
    desired: &DesiredBuild,
    r: Result<String, String>,
)
    requires
        call_ensures(build_worktree_dir, (paths, desired), r),
    ensures
        r is Ok <==> forall|i: int|
            0 <= i < desired.target@.len() ==> is_digit(#[trigger] desired.target@[i])
                || is_ascii_letter(desired.target@[i]) || desired.target@[i] == '-'
                || desired.target@[i] == '_',
        r is Ok ==> result_text(r) == Ok::<Seq<char>, Seq<char>>(
            join_path(
                paths.platform,
                paths.worktrees_dir@,
                "build-"@ + desired.target@ + "-"@ + "dev-small"@,
            ),
        ),
{
}

} // verus!
