//! Where launchers are looked for, and what is said of them, in terms of what was given.

use vstd::prelude::*;

use crate::discovery::{bare, CandidateView, SurfaceOwner};
use crate::discovery_seeds::{
    first_at, first_marked, homebrew_seeds, is_codex_leaf, last_at, leaf_seeds, lookup_list,
    marked_seeds, names_for, override_path, path_seeds, primary_name, resolution_file,
    resolution_seed, shell_kind, shell_seeds, shell_words, standalone_seeds, with_extensions,
    with_name, PackageEntry, PowerShellResolution, ResolutionFacts, SeedView,
};
use crate::paths::{extension, file_name, join_path, parts, Platform};
use crate::report::{
    active_lines, consumer_line, consumer_lines, failure_lines, installation_lines, journal_set,
    ownership_word, padded, record_at, short, surface_lines,
};
use crate::shim::RecordView;
use crate::state::StateView;
use crate::text::{ascii_lower, contains_text, decimal, occurs_at, split_on, trim};
use crate::types::ProbeKind;

verus! {

/// The path is that of one of the names in one of the directories.
pub open spec fn is_place(
    platform: Platform,
    dirs: Seq<Seq<char>>,
    names: Seq<Seq<char>>,
    path: Seq<char>,
) -> bool {
    exists|d: int, k: int|
        0 <= d < dirs.len() && 0 <= k < names.len() && path == #[trigger] join_path(
            platform,
            dirs[d],
            names[k],
        )
}

/// A command is looked for under each of its names in each directory of the search path, and
/// nowhere else. What an earlier directory leads to comes first, and in one directory the names
/// keep their order.
pub proof fn commands_are_looked_up_along_the_path(
    platform: Platform,
    dirs: Seq<Seq<char>>,
    names: Seq<Seq<char>>,
    dir: Seq<char>,
    path: Seq<char>,
)
    ensures
        lookup_list(platform, dirs, names).contains(path) <==> is_place(
            platform,
            dirs,
            names,
            path,
        ),
        lookup_list(platform, dirs, names).is_prefix_of(
            lookup_list(platform, dirs.push(dir), names),
        ),
        lookup_list(platform, seq![dir], names).len() == names.len(),
        forall|k: int|
            0 <= k < names.len() ==> #[trigger] lookup_list(platform, seq![dir], names)[k]
                == join_path(platform, dir, names[k]),
    decreases dirs.len(),
{
    let longer = dirs.push(dir);
    assert(longer.drop_last() =~= dirs);
    let all = lookup_list(platform, dirs, names);
    let more = lookup_list(platform, longer, names);
    assert(more.take(all.len() as int) =~= all);
    let one = seq![dir];
    assert(one.drop_last() =~= Seq::<Seq<char>>::empty());
    assert(lookup_list(platform, one.drop_last(), names) =~= Seq::<Seq<char>>::empty());
    if dirs.len() > 0 {
        let rest = dirs.drop_last();
        let last = dirs.last();
        commands_are_looked_up_along_the_path(platform, rest, names, dir, path);
        let before = lookup_list(platform, rest, names);
        assert(dirs[dirs.len() - 1] == last);
        if is_place(platform, dirs, names, path) {
            let (d, k) = choose|d: int, k: int|
                0 <= d < dirs.len() && 0 <= k < names.len() && path == #[trigger] join_path(
                    platform,
                    dirs[d],
                    names[k],
                );
            if d < rest.len() {
                assert(rest[d] == dirs[d]);
                assert(path == join_path(platform, rest[d], names[k]));
                let i = choose|i: int| 0 <= i < before.len() && before[i] == path;
                assert(all[i] == path);
            } else {
                assert(all[before.len() + k] == path);
            }
        }
        if all.contains(path) {
            let i = choose|i: int| 0 <= i < all.len() && all[i] == path;
            if i < before.len() {
                assert(before[i] == path);
                let (d, k) = choose|d: int, k: int|
                    0 <= d < rest.len() && 0 <= k < names.len() && path == #[trigger] join_path(
                        platform,
                        rest[d],
                        names[k],
                    );
                assert(dirs[d] == rest[d]);
                assert(path == join_path(platform, dirs[d], names[k]));
            } else {
                let k = i - before.len();
                assert(path == join_path(platform, dirs[dirs.len() - 1], names[k]));
            }
        }
    }
}

/// What is known of a seed of the search path: its directory, its number and its name.
pub open spec fn is_seed_of(
    platform: Platform,
    dirs: Seq<Seq<char>>,
    names: Seq<Seq<char>>,
    seed: SeedView,
    d: int,
    k: int,
) -> bool {
    0 <= d < dirs.len() && 0 <= k < names.len() && seed.origin == "PATH["@ + decimal(d as nat)
        + "]"@ && seed.raw == join_path(platform, dirs[d], names[k]) && seed.owner
        == SurfaceOwner::Unknown && !seed.current && !seed.package_leaf && seed.probeable
        && seed.read_only_reason is None
}

/// The search path is looked at directory by directory: each name in each of them is a file that
/// may be there, numbered by its directory and owned by nobody yet.
pub proof fn the_search_path_is_looked_at(
    platform: Platform,
    dirs: Seq<Seq<char>>,
    names: Seq<Seq<char>>,
    seed: SeedView,
)
    ensures
        path_seeds(platform, dirs, names).contains(seed) <==> exists|d: int, k: int| #[trigger]
            is_seed_of(platform, dirs, names, seed, d, k),
    decreases dirs.len(),
{
    if dirs.len() > 0 {
        let rest = dirs.drop_last();
        the_search_path_is_looked_at(platform, rest, names, seed);
        let before = path_seeds(platform, rest, names);
        let all = path_seeds(platform, dirs, names);
        let n = dirs.len() - 1;
        if exists|d: int, k: int| #[trigger] is_seed_of(platform, dirs, names, seed, d, k) {
            let (d, k) = choose|d: int, k: int| #[trigger]
                is_seed_of(platform, dirs, names, seed, d, k);
            if d < n {
                assert(rest[d] == dirs[d]);
                assert(is_seed_of(platform, rest, names, seed, d, k));
                let i = choose|i: int| 0 <= i < before.len() && before[i] == seed;
                assert(all[i] == seed);
            } else {
                assert(all[before.len() + k] == seed);
            }
        }
        if all.contains(seed) {
            let i = choose|i: int| 0 <= i < all.len() && all[i] == seed;
            if i < before.len() {
                assert(before[i] == seed);
                let (d, k) = choose|d: int, k: int| #[trigger]
                    is_seed_of(platform, rest, names, seed, d, k);
                assert(dirs[d] == rest[d]);
                assert(is_seed_of(platform, dirs, names, seed, d, k));
            } else {
                assert(is_seed_of(platform, dirs, names, seed, n, i - before.len()));
            }
        }
    }
}

/// Exactly the marked seeds are kept.
pub proof fn present_files_are_kept(seeds: Seq<SeedView>, marks: Seq<bool>, seed: SeedView)
    ensures
        marked_seeds(seeds, marks).contains(seed) <==> exists|i: int|
            0 <= i < seeds.len() && marks[i] && #[trigger] seeds[i] == seed,
        marked_seeds(seeds, marks).len() <= seeds.len(),
    decreases seeds.len(),
{
    if seeds.len() > 0 {
        let rest = seeds.drop_last();
        let n = seeds.len() - 1;
        present_files_are_kept(rest, marks, seed);
        let before = marked_seeds(rest, marks);
        let all = marked_seeds(seeds, marks);
        if exists|i: int| 0 <= i < seeds.len() && marks[i] && #[trigger] seeds[i] == seed {
            let i = choose|i: int| 0 <= i < seeds.len() && marks[i] && #[trigger] seeds[i] == seed;
            if i < n {
                assert(rest[i] == seed);
                let k = choose|k: int| 0 <= k < before.len() && before[k] == seed;
                assert(all[k] == seed);
            } else {
                assert(all[before.len() as int] == seed);
            }
        }
        if all.contains(seed) {
            let k = choose|k: int| 0 <= k < all.len() && all[k] == seed;
            if k < before.len() {
                assert(before[k] == seed);
                let i = choose|i: int|
                    0 <= i < rest.len() && marks[i] && #[trigger] rest[i] == seed;
                assert(seeds[i] == seed);
            } else {
                assert(seeds[n] == seed);
            }
        }
    }
}

/// The first marked text is taken, and none only where none is marked.
pub proof fn the_first_marked_is_taken(list: Seq<Seq<char>>, marks: Seq<bool>, from: int)
    requires
        0 <= from <= list.len(),
    ensures
        match first_marked(list, marks, from) {
            Some(text) => exists|i: int|
                from <= i < list.len() && #[trigger] list[i] == text && marks[i] && forall|k: int|
                    from <= k < i ==> !#[trigger] marks[k],
            None => forall|k: int| from <= k < list.len() ==> !#[trigger] marks[k],
        },
    decreases list.len() - from,
{
    if from < list.len() {
        if marks[from] {
            assert(list[from] == first_marked(list, marks, from)->0);
        } else {
            the_first_marked_is_taken(list, marks, from + 1);
            match first_marked(list, marks, from) {
                Some(text) => {
                    let i = choose|i: int|
                        from + 1 <= i < list.len() && #[trigger] list[i] == text && marks[i]
                            && forall|k: int| from + 1 <= k < i ==> !#[trigger] marks[k];
                    assert(list[i] == text);
                },
                None => {},
            }
        }
    }
}

/// The name is the command with one of the extensions.
pub open spec fn is_extended(stem: Seq<char>, extensions: Seq<Seq<char>>, name: Seq<char>) -> bool {
    exists|i: int|
        0 <= i < extensions.len() && (#[trigger] extensions[i]).len() > 0 && name == stem
            + ascii_lower(extensions[i])
}

proof fn lemma_extended(stem: Seq<char>, extensions: Seq<Seq<char>>, name: Seq<char>)
    ensures
        with_extensions(stem, extensions).contains(name) <==> is_extended(stem, extensions, name),
    decreases extensions.len(),
{
    if extensions.len() > 0 {
        let rest = extensions.drop_last();
        let last = extensions.last();
        lemma_extended(stem, rest, name);
        let before = with_extensions(stem, rest);
        assert(extensions[extensions.len() - 1] == last);
        if last.len() > 0 {
            lemma_with_name(before, stem + ascii_lower(last), name);
        }
        if is_extended(stem, rest, name) {
            let i = choose|i: int|
                0 <= i < rest.len() && (#[trigger] rest[i]).len() > 0 && name == stem + ascii_lower(
                    rest[i],
                );
            assert(extensions[i] == rest[i]);
        }
        if is_extended(stem, extensions, name) {
            let i = choose|i: int|
                0 <= i < extensions.len() && (#[trigger] extensions[i]).len() > 0 && name == stem
                    + ascii_lower(extensions[i]);
            if i < rest.len() {
                assert(rest[i] == extensions[i]);
            }
        }
    }
}

proof fn lemma_with_name(names: Seq<Seq<char>>, name: Seq<char>, other: Seq<char>)
    ensures
        with_name(names, name).contains(other) <==> names.contains(other) || other == name,
{
    let after = with_name(names, name);
    if !names.contains(name) {
        assert(after[names.len() as int] == name);
    }
    if names.contains(other) {
        let k = choose|k: int| 0 <= k < names.len() && names[k] == other;
        assert(after[k] == other);
    }
    if after.contains(other) && other != name {
        let k = choose|k: int| 0 <= k < after.len() && after[k] == other;
        assert(names[k] == other);
    }
}

/// A command is looked up under its own name, and on Windows, where it has no extension, under
/// each that Windows tries before that.
pub proof fn commands_are_looked_up_by_name(
    stem: Seq<char>,
    platform: Platform,
    pathext: Seq<char>,
    name: Seq<char>,
)
    ensures
        ({
            let tries = platform is Windows && extension(platform, stem) is None;
            names_for(stem, platform, pathext).contains(name) <==> name == stem || (tries
                && is_extended(stem, split_on(pathext, ';'), name))
        }),
{
    let list = names_for(stem, platform, pathext);
    if platform is Posix || extension(platform, stem) is Some {
        assert(list[0] == stem);
    } else {
        lemma_extended(stem, split_on(pathext, ';'), name);
        lemma_with_name(with_extensions(stem, split_on(pathext, ';')), stem, name);
    }
}

/// The override leads into its directory, to the first of the names that is there; by a bare
/// name to what the search path leads to; and otherwise to itself.
pub proof fn overrides_lead_to_a_file(
    configured: Seq<char>,
    is_dir: bool,
    names: Seq<Seq<char>>,
    present: Seq<bool>,
    found: Option<Seq<char>>,
    platform: Platform,
)
    ensures
        ({
            let path = override_path(configured, is_dir, names, present, found, platform);
            &&& is_dir ==> (first_marked(names, present, 0) matches Some(name) ==> path
                == join_path(platform, configured, name))
            &&& is_dir && first_marked(names, present, 0) is None ==> path == join_path(
                platform,
                configured,
                match platform {
                    Platform::Posix => "codex"@,
                    Platform::Windows => "codex.exe"@,
                },
            )
            &&& !is_dir && bare(platform, configured) ==> (found matches Some(there) ==> path
                == there)
            &&& !is_dir && (!bare(platform, configured) || found is None) ==> path == configured
        }),
{
}

/// A shell is asked exactly where it is known how, interactively and by the last argument.
pub proof fn known_shells_are_asked(shell: Seq<char>)
    ensures
        shell_words(shell) is Some <==> shell == "bash"@ || shell == "zsh"@ || shell == "fish"@
            || shell == "ksh"@ || shell == "ksh93"@,
        shell_words(shell) matches Some(words) ==> words.len() == 3,
        shell_words("bash"@) == Some(seq!["-i"@, "-c"@, "type -a -- codex"@]),
{
}

/// The line speaks of `codex` itself.
pub open spec fn speaks_of_codex(detail: Seq<char>) -> bool {
    "codex "@.is_prefix_of(ascii_lower(detail)) || "codex:"@.is_prefix_of(ascii_lower(detail))
}

/// A line tells of an alias or a function exactly where it speaks of `codex` and says so.
pub proof fn shells_tell_of_aliases_and_functions(detail: Seq<char>)
    ensures
        ({
            let k = shell_kind(detail);
            let alias = contains_text(ascii_lower(detail), "alias"@);
            let function = contains_text(ascii_lower(detail), "function"@);
            &&& k is Some <==> speaks_of_codex(detail) && (alias || function)
            &&& k matches Some(word) ==> (alias ==> word == "alias"@) && (!alias ==> word
                == "function"@)
        }),
{
}

/// What a shell tells of is never a file: it is not probed, and says why it cannot be replaced.
/// The first is the one that runs, and there are no more than the limit.
pub proof fn shell_state_is_no_file(shell: Seq<char>, list: Seq<Seq<char>>)
    ensures
        shell_seeds(shell, list).len() <= 16,
        forall|i: int|
            0 <= i < shell_seeds(shell, list).len() ==> {
                let seed = #[trigger] shell_seeds(shell, list)[i];
                !seed.probeable && seed.read_only_reason is Some && !seed.package_leaf && seed.owner
                    == SurfaceOwner::Manual && (seed.current <==> i == 0)
            },
    decreases list.len(),
{
    if list.len() > 0 {
        shell_state_is_no_file(shell, list.drop_last());
        let before = shell_seeds(shell, list.drop_last());
        let all = shell_seeds(shell, list);
        assert forall|i: int| 0 <= i < all.len() implies {
            let seed = #[trigger] all[i];
            !seed.probeable && seed.read_only_reason is Some && !seed.package_leaf && seed.owner
                == SurfaceOwner::Manual && (seed.current <==> i == 0)
        } by {
            if i < before.len() {
                assert(all[i] == before[i]);
            }
        }
    }
}

/// The first place of a text is found from the left, the last from the right.
pub proof fn marks_are_found_from_both_ends(s: Seq<char>, needle: Seq<char>, from: int)
    requires
        0 <= from <= s.len(),
    ensures
        match first_at(s, needle, from) {
            Some(i) => from <= i < s.len() && occurs_at(s, needle, i) && forall|k: int|
                from <= k < i ==> !#[trigger] occurs_at(s, needle, k),
            None => forall|k: int| from <= k < s.len() ==> !#[trigger] occurs_at(s, needle, k),
        },
    decreases s.len() - from,
{
    if from < s.len() && !occurs_at(s, needle, from) {
        marks_are_found_from_both_ends(s, needle, from + 1);
    }
}

/// The last place of a text at or before a position.
pub proof fn last_marks_are_found(s: Seq<char>, needle: Seq<char>, from: int)
    ensures
        match last_at(s, needle, from) {
            Some(i) => 0 <= i <= from && occurs_at(s, needle, i) && forall|k: int|
                i < k <= from ==> !#[trigger] occurs_at(s, needle, k),
            None => forall|k: int| 0 <= k <= from ==> !#[trigger] occurs_at(s, needle, k),
        },
    decreases from + 1,
{
    if from >= 0 && !occurs_at(s, needle, from) {
        last_marks_are_found(s, needle, from - 1);
    }
}

/// What PowerShell finds is a file exactly where it is an application or a script that names
/// one, and then it must be there. Anything else is shown, but is never a file.
pub proof fn resolutions_are_files_or_state(
    program: Seq<char>,
    index: nat,
    r: PowerShellResolution,
    facts: ResolutionFacts,
)
    ensures
        ({
            let seed = resolution_seed(program, index, r, facts);
            let file = resolution_file(r, facts);
            let runs = ascii_lower(r.command_type@) == "application"@ || ascii_lower(
                r.command_type@,
            ) == "externalscript"@;
            &&& file is Some <==> trim(r.path@).len() > 0 || facts.definition_found
            &&& trim(r.path@).len() > 0 ==> file == Some(trim(r.path@))
            &&& trim(r.path@).len() == 0 && facts.definition_found ==> file == Some(
                trim(r.definition@),
            )
            &&& seed is None <==> runs && file is Some && !facts.file_present
            &&& seed matches Some(s) ==> (s.probeable <==> runs && file is Some)
            &&& seed matches Some(s) ==> (s.probeable <==> s.read_only_reason is None)
            &&& seed matches Some(s) ==> (s.probeable ==> Some(s.raw) == file && s.owner
                == SurfaceOwner::Unknown)
            &&& seed matches Some(s) ==> (!s.probeable ==> s.owner == SurfaceOwner::Manual)
            &&& seed matches Some(s) ==> (s.current <==> index == 0)
        }),
{
}

/// The entry is an executable of the Codex package.
pub open spec fn is_executable_of_codex(e: PackageEntry, platform: Platform) -> bool {
    e.is_file && file_name(platform, e.path@) == Some(
        match platform {
            Platform::Posix => "codex"@,
            Platform::Windows => "codex.exe"@,
        },
    ) && contains_text(ascii_lower(e.path@), "@openai"@) && contains_text(
        ascii_lower(e.path@),
        "codex"@,
    )
}

/// The executables of the Codex package are found in the tree of its manager, and nothing else,
/// as long as neither limit is reached.
pub proof fn package_executables_are_found(
    entries: Seq<PackageEntry>,
    owner: SurfaceOwner,
    manager: Seq<char>,
    platform: Platform,
    i: int,
)
    requires
        0 <= i < entries.len() <= 4096,
        leaf_seeds(entries, owner, manager, platform).len() < 32,
    ensures
        is_executable_of_codex(entries[i], platform) <==> is_codex_leaf(entries[i], platform),
        is_executable_of_codex(entries[i], platform) ==> exists|k: int|
            0 <= k < leaf_seeds(entries, owner, manager, platform).len() && (
            #[trigger] leaf_seeds(entries, owner, manager, platform)[k]).raw == entries[i].path@,
    decreases entries.len(),
{
    let rest = entries.drop_last();
    let before = leaf_seeds(rest, owner, manager, platform);
    let all = leaf_seeds(entries, owner, manager, platform);
    if i < rest.len() {
        assert(rest[i] == entries[i]);
        package_executables_are_found(rest, owner, manager, platform, i);
        if is_executable_of_codex(entries[i], platform) {
            let k = choose|k: int|
                0 <= k < before.len() && (#[trigger] before[k]).raw == entries[i].path@;
            assert(all[k] == before[k]);
        }
    } else if is_executable_of_codex(entries[i], platform) {
        assert(all[before.len() as int].raw == entries[i].path@);
    }
}

/// What is found in the tree of a manager belongs to it and is one of its packages.
pub proof fn package_executables_belong_to_the_manager(
    entries: Seq<PackageEntry>,
    owner: SurfaceOwner,
    manager: Seq<char>,
    platform: Platform,
)
    ensures
        leaf_seeds(entries, owner, manager, platform).len() <= 32,
        forall|k: int|
            0 <= k < leaf_seeds(entries, owner, manager, platform).len() ==> {
                let seed = #[trigger] leaf_seeds(entries, owner, manager, platform)[k];
                seed.owner == owner && seed.package_leaf && seed.probeable && seed.origin == manager
                    + "-native-package"@ && exists|i: int|
                    0 <= i < entries.len() && is_executable_of_codex(
                        #[trigger] entries[i],
                        platform,
                    ) && seed.raw == entries[i].path@
            },
    decreases entries.len(),
{
    if entries.len() > 0 {
        let rest = entries.drop_last();
        package_executables_belong_to_the_manager(rest, owner, manager, platform);
        let before = leaf_seeds(rest, owner, manager, platform);
        let all = leaf_seeds(entries, owner, manager, platform);
        assert forall|k: int| 0 <= k < all.len() implies {
            let seed = #[trigger] all[k];
            seed.owner == owner && seed.package_leaf && seed.probeable && seed.origin == manager
                + "-native-package"@ && exists|i: int|
                0 <= i < entries.len() && is_executable_of_codex(#[trigger] entries[i], platform)
                    && seed.raw == entries[i].path@
        } by {
            if k < before.len() {
                assert(all[k] == before[k]);
                let i = choose|i: int|
                    0 <= i < rest.len() && is_executable_of_codex(#[trigger] rest[i], platform)
                        && before[k].raw == rest[i].path@;
                assert(entries[i] == rest[i]);
            } else {
                assert(is_executable_of_codex(entries[entries.len() - 1], platform));
            }
        }
    }
}

/// Homebrew's link is looked at first, and then exactly the files whose names start as its
/// executables do.
pub proof fn homebrew_files_are_told_by_name(
    platform: Platform,
    prefix: Seq<char>,
    files: Seq<Seq<char>>,
)
    ensures
        ({
            let list = homebrew_seeds(platform, prefix, files);
            &&& list.len() >= 1
            &&& list[0].raw == join_path(platform, trim(prefix), "bin/codex"@)
            &&& !list[0].package_leaf
            &&& forall|k: int|
                1 <= k < list.len() ==> files.contains((#[trigger] list[k]).raw)
                    && list[k].package_leaf && (file_name(platform, list[k].raw) matches Some(name)
                    && "codex-"@.is_prefix_of(name))
            &&& forall|k: int|
                0 <= k < list.len() ==> (#[trigger] list[k]).owner == SurfaceOwner::Homebrew
            &&& files.len() > 0 && (file_name(platform, files.last()) matches Some(name)
                && "codex-"@.is_prefix_of(name)) ==> list.len() > 1 && list.last().raw
                == files.last()
        }),
    decreases files.len(),
{
    if files.len() > 0 {
        let rest = files.drop_last();
        homebrew_files_are_told_by_name(platform, prefix, rest);
        let before = homebrew_seeds(platform, prefix, rest);
        let list = homebrew_seeds(platform, prefix, files);
        assert(list[0] == before[0]);
        assert(files[files.len() - 1] == files.last());
        assert forall|k: int| 1 <= k < list.len() implies files.contains((#[trigger] list[k]).raw)
            && list[k].package_leaf && (file_name(platform, list[k].raw) matches Some(name)
            && "codex-"@.is_prefix_of(name)) by {
            if k < before.len() {
                assert(list[k] == before[k]);
                let i = choose|i: int| 0 <= i < rest.len() && rest[i] == before[k].raw;
                assert(files[i] == rest[i]);
            }
        }
        assert forall|k: int| 0 <= k < list.len() implies (#[trigger] list[k]).owner
            == SurfaceOwner::Homebrew by {
            if k < before.len() {
                assert(list[k] == before[k]);
            }
        }
    }
}

/// The standalone package and its daemon are always looked at, and then the launchers of the
/// directory that was configured, or the visible one of the system.
pub proof fn standalone_files_are_looked_at(
    codex_home: Seq<char>,
    install_dir: Option<Seq<char>>,
    visible_default: Option<Seq<char>>,
    names: Seq<Seq<char>>,
    platform: Platform,
)
    ensures
        ({
            let list = standalone_seeds(codex_home, install_dir, visible_default, names, platform);
            let current = join_path(
                platform,
                join_path(platform, join_path(platform, codex_home, "packages"@), "standalone"@),
                "current"@,
            );
            &&& list[0].owner == SurfaceOwner::Standalone && list[0].package_leaf
            &&& list[0].raw == join_path(
                platform,
                join_path(platform, current, "bin"@),
                primary_name(platform),
            )
            &&& list[1].owner == SurfaceOwner::Daemon && !list[1].package_leaf
            &&& list[1].raw == join_path(platform, current, primary_name(platform))
            &&& install_dir matches Some(dir) ==> list.len() == 2 + names.len() && forall|k: int|
                0 <= k < names.len() ==> (#[trigger] list[2 + k]).raw == join_path(
                    platform,
                    dir,
                    names[k],
                ) && list[2 + k].owner == SurfaceOwner::Standalone
            &&& install_dir is None && visible_default is Some ==> list.len() == 3 && list[2].owner
                == SurfaceOwner::Standalone
            &&& install_dir is None && visible_default is None ==> list.len() == 2
        }),
{
}

/// The record is the first of that launcher.
pub open spec fn is_first_record(
    platform: Platform,
    records: Seq<RecordView>,
    path: Seq<char>,
    i: int,
) -> bool {
    0 <= i < records.len() && parts(platform, records[i].surface) == parts(platform, path)
        && forall|k: int|
        0 <= k < i ==> parts(platform, (#[trigger] records[k]).surface) != parts(platform, path)
}

/// The record of a launcher is found by its place, and the first counts.
pub proof fn records_are_found_by_place(
    platform: Platform,
    records: Seq<RecordView>,
    path: Seq<char>,
)
    ensures
        0 <= record_at(platform, records, path) <= records.len(),
        record_at(platform, records, path) < records.len() ==> is_first_record(
            platform,
            records,
            path,
            record_at(platform, records, path),
        ),
        record_at(platform, records, path) == records.len() ==> forall|i: int|
            0 <= i < records.len() ==> parts(platform, (#[trigger] records[i]).surface) != parts(
                platform,
                path,
            ),
    decreases records.len(),
{
    if records.len() > 0 && parts(platform, records[0].surface) != parts(platform, path) {
        let rest = records.drop_first();
        records_are_found_by_place(platform, rest, path);
        let n = record_at(platform, rest, path);
        assert forall|k: int| 0 <= k < n + 1 implies parts(
            platform,
            (#[trigger] records[k]).surface,
        ) != parts(platform, path) by {
            if k > 0 {
                assert(rest[k - 1] == records[k]);
            }
        }
        if n < rest.len() {
            assert(records[n + 1] == rest[n]);
        }
    }
}

/// A consumer is reported as patched exactly where its launcher is recorded and is as it was
/// left, and else as drifted or as not selected.
pub proof fn consumers_are_reported(
    platform: Platform,
    c: CandidateView,
    records: Seq<RecordView>,
    matches: Seq<Result<bool, String>>,
)
    ensures
        ({
            let i = record_at(platform, records, c.raw);
            let line = consumer_line(platform, c, records, matches);
            let start = "consumer: "@ + c.raw + " ["@;
            &&& (forall|k: int|
                0 <= k < records.len() ==> parts(platform, (#[trigger] records[k]).surface)
                    != parts(platform, c.raw)) ==> line == start + "not selected; not patched"@
                + "]"@
            &&& i < records.len() && matches[i] == Ok::<bool, String>(true) ==> line == start
                + "patched selected surface"@ + "]"@
            &&& i < records.len() && matches[i] != Ok::<bool, String>(true) ==> line == start
                + "selected but overwritten/drifted"@ + "]"@
        }),
{
    records_are_found_by_place(platform, records, c.raw);
    let i = record_at(platform, records, c.raw);
    if i < records.len() {
        assert(parts(platform, records[i].surface) == parts(platform, c.raw));
    }
}

/// Exactly the launchers of the application and of the daemon are reported as consumers.
pub proof fn applications_and_daemons_are_consumers(
    platform: Platform,
    list: Seq<CandidateView>,
    c: CandidateView,
    records: Seq<RecordView>,
    matches: Seq<Result<bool, String>>,
)
    ensures
        ({
            let before = consumer_lines(platform, list, records, matches);
            let after = consumer_lines(platform, list.push(c), records, matches);
            let consumes = c.owner == SurfaceOwner::Desktop || c.owner == SurfaceOwner::Daemon;
            &&& consumer_lines(platform, Seq::empty(), records, matches).len() == 0
            &&& consumes ==> after == before.push(consumer_line(platform, c, records, matches))
            &&& !consumes ==> after == before
        }),
{
    let longer = list.push(c);
    assert(longer.drop_last() =~= list);
    assert(longer.last() == c);
    let before = consumer_lines(platform, list, records, matches);
    let line = consumer_line(platform, c, records, matches);
    assert(before + seq![line] =~= before.push(line));
}

/// A launcher that was taken over is reported as owned exactly where it is as it was left, and
/// an inspection that failed says why.
pub proof fn ownership_is_reported(record: RecordView, matches: Result<bool, String>)
    ensures
        ({
            let lines = surface_lines(record, matches);
            &&& matches == Ok::<bool, String>(true) ==> lines == seq![
                "surface: "@ + record.surface + " ["@ + "owned"@ + "]"@,
            ]
            &&& matches == Ok::<bool, String>(false) ==> lines == seq![
                "surface: "@ + record.surface + " ["@ + "overwritten/drifted"@ + "]"@,
            ]
            &&& matches matches Err(why) ==> lines == seq![
                "surface: "@ + record.surface + " ["@ + "inspection-error"@ + "]"@,
                "  inspection error: "@ + why@,
            ]
        }),
{
    let lines = surface_lines(record, matches);
    let first = "surface: "@ + record.surface + " ["@ + ownership_word(matches) + "]"@;
    if let Err(why) = matches {
        assert(lines =~= seq![first, "  inspection error: "@ + why@]);
    } else {
        assert(lines =~= seq![first]);
    }
}

/// The report of an installation starts with its patch directory, says what runs and what the
/// check found, and ends with the failure where there is one.
pub proof fn installations_are_reported(s: StateView)
    ensures
        ({
            let lines = installation_lines(s);
            &&& lines[0] == "patch directory: "@ + s.patch_dir
            &&& s.active is None ==> lines[1] == "active: none"@
            &&& s.active matches Some(g) ==> lines[1] == "active: Codex "@ + g.source.version
                + " "@ + g.source.ref_name + " ("@ + short(g.source.commit_oid, 12) + ")"@
                && lines[2] == "package: "@ + g.package_dir
            &&& s.failure matches Some(f) ==> lines[lines.len() - 2] == "failure: "@ + f.id + " "@
                + f.phase + ": "@ + f.summary && lines.last() == "failure log: "@ + f.log_path
            &&& s.probe.kind == ProbeKind::Blocked ==> lines.contains("probe: "@ + "Blocked"@)
            &&& s.probe.kind == ProbeKind::Current ==> lines.contains("probe: "@ + "Current"@)
            &&& s.probe.kind == ProbeKind::Degraded ==> lines.contains("probe: "@ + "Degraded"@)
            &&& s.probe.kind == ProbeKind::Failed ==> lines.contains("probe: "@ + "Failed"@)
            &&& s.probe.kind == ProbeKind::Pending ==> lines.contains("probe: "@ + "Pending"@)
            &&& s.probe.kind == ProbeKind::Unknown ==> lines.contains("probe: "@ + "Unknown"@)
            &&& s.probe.message matches Some(text) ==> lines.contains("probe detail: "@ + text)
        }),
{
    let lines = installation_lines(s);
    let a = active_lines(s.active).len() as int;
    let b = crate::report::previous_lines(s.previous).len() as int;
    let d = crate::report::desired_lines(s.probe.desired).len() as int;
    let f = failure_lines(s.failure).len();
    assert(lines[1 + a + b] == "probe: "@ + crate::report::probe_word(s.probe.kind));
    if s.probe.message is Some {
        assert(lines[2 + a + b + d] == "probe detail: "@ + s.probe.message->0);
    }
}

/// A text is cut to a length, or filled up to one, and is otherwise as it was.
pub proof fn texts_are_cut_and_filled(s: Seq<char>, n: nat)
    ensures
        short(s, n).is_prefix_of(s),
        short(s, n).len() == if s.len() <= n {
            s.len()
        } else {
            n
        },
        s.is_prefix_of(padded(s, n)),
        padded(s, n).len() == if s.len() >= n {
            s.len()
        } else {
            n
        },
        forall|i: int| s.len() <= i < padded(s, n).len() ==> #[trigger] padded(s, n)[i] == ' ',
{
    assert(s.take(s.len() as int) =~= s);
    assert(padded(s, n).take(s.len() as int) =~= s);
}

/// A pending transaction is told by the name of its journal.
pub open spec fn is_pending(name: Seq<char>) -> bool {
    ".json"@.is_suffix_of(name) && (".takeover-"@.is_prefix_of(name) || ".restore-"@.is_prefix_of(
        name,
    ) || ".repair-"@.is_prefix_of(name))
}

/// Exactly the journals among the files are pending transactions.
pub proof fn journals_are_pending(
    platform: Platform,
    dir: Seq<char>,
    names: Seq<Seq<char>>,
    path: Seq<char>,
)
    ensures
        journal_set(platform, dir, names).contains(path) <==> exists|i: int|
            0 <= i < names.len() && is_pending(#[trigger] names[i]) && path == join_path(
                platform,
                dir,
                names[i],
            ),
    decreases names.len(),
{
    if names.len() > 0 {
        let rest = names.drop_last();
        let last = names.last();
        journals_are_pending(platform, dir, rest, path);
        assert(names[names.len() - 1] == last);
        if exists|i: int|
            0 <= i < rest.len() && is_pending(#[trigger] rest[i]) && path == join_path(
                platform,
                dir,
                rest[i],
            ) {
            let i = choose|i: int|
                0 <= i < rest.len() && is_pending(#[trigger] rest[i]) && path == join_path(
                    platform,
                    dir,
                    rest[i],
                );
            assert(names[i] == rest[i]);
        }
        if exists|i: int|
            0 <= i < names.len() && is_pending(#[trigger] names[i]) && path == join_path(
                platform,
                dir,
                names[i],
            ) {
            let i = choose|i: int|
                0 <= i < names.len() && is_pending(#[trigger] names[i]) && path == join_path(
                    platform,
                    dir,
                    names[i],
                );
            if i < rest.len() {
                assert(rest[i] == names[i]);
            }
        }
    }
}

} // verus!
