//! Where the files and directories of the patcher lie.

use vstd::prelude::*;

use crate::paths::{
    base_parts, below_is_transitive, directory_list, file_list, is_below, is_name, is_settled,
    join_path, joined_parts, laid_out, layout_keeps_roots_separate, lemma_plain_name, manager_name,
    parts, PatcherPaths, Platform,
};

verus! {

/// Everything lies below one home.
pub open spec fn laid_out_at(p: PatcherPaths, home: Seq<char>, platform: Platform) -> bool {
    laid_out(
        p,
        home,
        join_path(platform, home, "cache"@),
        join_path(platform, home, "state"@),
        platform,
    )
}

/// Two layouts name the same places.
pub open spec fn same_layout(a: PatcherPaths, b: PatcherPaths) -> bool {
    &&& a.platform == b.platform
    &&& directory_list(a) == directory_list(b)
    &&& file_list(a) == file_list(b)
    &&& a.mirror_dir@ == b.mirror_dir@
}

/// The three roots determine the layout: `from_home` lays out what `from_roots` does for the
/// home, its `cache` and its `state`.
pub proof fn roots_determine_the_layout(
    a: PatcherPaths,
    b: PatcherPaths,
    data: Seq<char>,
    cache: Seq<char>,
    state: Seq<char>,
    platform: Platform,
)
    requires
        laid_out(a, data, cache, state, platform),
        laid_out(b, data, cache, state, platform),
    ensures
        same_layout(a, b),
{
}

/// `name` joined to a directory is that directory's parts and one more.
proof fn lemma_child(platform: Platform, dir: Seq<char>, name: Seq<char>)
    requires
        is_settled(platform, dir),
        name.len() > 2,
        forall|i: int| 0 <= i < name.len() ==> name[i] != '/' && name[i] != '\\' && name[i] != ':',
    ensures
        ({
            let child = join_path(platform, dir, name);
            &&& parts(platform, child) == base_parts(platform, dir).push(name)
            &&& base_parts(platform, child) == parts(platform, child)
            &&& is_settled(platform, child)
            &&& is_below(platform, child, dir)
        }),
        is_name(platform, name),
{
    lemma_plain_name(platform, name);
    joined_parts(platform, dir, name);
    assert(base_parts(platform, dir) + seq![name] =~= base_parts(platform, dir).push(name));
    if name.contains('\\') {
        let i = choose|i: int| 0 <= i < name.len() && name[i] == '\\';
        assert(name[i] != '\\');
    }
}

proof fn lemma_names()
    ensures
        "bin"@ == seq!['b', 'i', 'n'],
        "cache"@.len() == 5 && "cache"@[0] == 'c',
        "state"@.len() == 5 && "state"@[0] == 's',
        "locks"@.len() == 5 && "locks"@[0] == 'l',
        "logs"@.len() == 4,
        "cargo-target"@.len() == 12,
        "worktrees"@.len() == 9,
        "generations"@.len() == 11,
        "backups"@.len() == 7,
        "state.json"@.len() == 10,
        "remote.json"@.len() == 11,
{
    reveal_strlit("bin");
    reveal_strlit("cache");
    reveal_strlit("state");
    reveal_strlit("locks");
    reveal_strlit("logs");
    reveal_strlit("cargo-target");
    reveal_strlit("worktrees");
    reveal_strlit("generations");
    reveal_strlit("backups");
    reveal_strlit("state.json");
    reveal_strlit("remote.json");
    assert("bin"@ =~= seq!['b', 'i', 'n']);
}

/// What each place of a layout is, seen from the home.
proof fn lemma_places(p: PatcherPaths, home: Seq<char>, platform: Platform)
    requires
        laid_out_at(p, home, platform),
        is_settled(platform, home),
    ensures
        ({
            let h = base_parts(platform, home);
            let name = manager_name(platform);
            &&& parts(platform, p.manager_dir@) == h.push("bin"@)
            &&& parts(platform, p.state_dir@) == h.push("state"@)
            &&& parts(platform, p.cache_dir@) == h.push("cache"@)
            &&& parts(platform, p.generations_dir@) == h.push("generations"@)
            &&& parts(platform, p.backups_dir@) == h.push("backups"@)
            &&& parts(platform, p.locks_dir@) == h.push("state"@).push("locks"@)
            &&& parts(platform, p.logs_dir@) == h.push("state"@).push("logs"@)
            &&& parts(platform, p.cargo_target_dir@) == h.push("cache"@).push("cargo-target"@)
            &&& parts(platform, p.worktrees_dir@) == h.push("cache"@).push("worktrees"@)
            &&& parts(platform, p.manager@) == h.push("bin"@).push(name)
            &&& parts(platform, p.state@) == h.push("state"@).push("state.json"@)
            &&& parts(platform, p.remote_cache@) == h.push("state"@).push("remote.json"@)
            &&& parts(platform, p.manager_lock@) == h.push("state"@).push("locks"@).push(
                "manager.lock"@,
            )
            &&& parts(platform, p.state_lock@) == h.push("state"@).push("locks"@).push(
                "state.lock"@,
            )
            &&& parts(platform, p.probe_lock@) == h.push("state"@).push("locks"@).push(
                "probe.lock"@,
            )
            &&& parts(platform, p.build_lock@) == h.push("state"@).push("locks"@).push(
                "build.lock"@,
            )
            &&& is_name(platform, name)
            &&& is_name(platform, "state.json"@)
            &&& is_name(platform, "remote.json"@)
            &&& is_name(platform, "manager.lock"@)
            &&& is_name(platform, "state.lock"@)
            &&& is_name(platform, "probe.lock"@)
            &&& is_name(platform, "build.lock"@)
        }),
        is_settled(platform, p.cache_dir@),
        is_settled(platform, p.state_dir@),
        is_below(platform, p.cache_dir@, home),
        is_below(platform, p.state_dir@, home),
{
    reveal_strlit("bin");
    reveal_strlit("cache");
    reveal_strlit("state");
    reveal_strlit("locks");
    reveal_strlit("logs");
    reveal_strlit("cargo-target");
    reveal_strlit("worktrees");
    reveal_strlit("generations");
    reveal_strlit("backups");
    reveal_strlit("state.json");
    reveal_strlit("remote.json");
    reveal_strlit("manager.lock");
    reveal_strlit("state.lock");
    reveal_strlit("probe.lock");
    reveal_strlit("build.lock");
    reveal_strlit("codex-patcher");
    reveal_strlit("codex-patcher.exe");
    lemma_child(platform, home, "bin"@);
    lemma_child(platform, home, "state"@);
    lemma_child(platform, home, "cache"@);
    lemma_child(platform, home, "generations"@);
    lemma_child(platform, home, "backups"@);
    lemma_child(platform, p.state_dir@, "locks"@);
    lemma_child(platform, p.state_dir@, "logs"@);
    lemma_child(platform, p.cache_dir@, "cargo-target"@);
    lemma_child(platform, p.cache_dir@, "worktrees"@);
    lemma_child(platform, p.manager_dir@, manager_name(platform));
    lemma_child(platform, p.state_dir@, "state.json"@);
    lemma_child(platform, p.state_dir@, "remote.json"@);
    lemma_child(platform, p.locks_dir@, "manager.lock"@);
    lemma_child(platform, p.locks_dir@, "state.lock"@);
    lemma_child(platform, p.locks_dir@, "probe.lock"@);
    lemma_child(platform, p.locks_dir@, "build.lock"@);
}

/// Everything that the patcher owns lies below the home.
pub proof fn home_holds_everything(p: PatcherPaths, home: Seq<char>, platform: Platform)
    requires
        laid_out_at(p, home, platform),
        is_settled(platform, home),
    ensures
        forall|i: int|
            0 <= i < directory_list(p).len() ==> is_below(
                platform,
                #[trigger] directory_list(p)[i],
                home,
            ),
        forall|i: int|
            0 <= i < file_list(p).len() ==> is_below(platform, #[trigger] file_list(p)[i], home),
        is_below(platform, p.mirror_dir@, home),
{
    lemma_places(p, home, platform);
    layout_keeps_roots_separate(p, home, p.cache_dir@, p.state_dir@, platform);
    below_is_transitive(platform, p.locks_dir@, p.state_dir@, home);
    below_is_transitive(platform, p.logs_dir@, p.state_dir@, home);
    below_is_transitive(platform, p.cargo_target_dir@, p.cache_dir@, home);
    below_is_transitive(platform, p.worktrees_dir@, p.cache_dir@, home);
    below_is_transitive(platform, p.mirror_dir@, p.cache_dir@, home);
    below_is_transitive(platform, p.state@, p.state_dir@, home);
    below_is_transitive(platform, p.remote_cache@, p.state_dir@, home);
    below_is_transitive(platform, p.manager_lock@, p.state_dir@, home);
    below_is_transitive(platform, p.state_lock@, p.state_dir@, home);
    below_is_transitive(platform, p.probe_lock@, p.state_dir@, home);
    below_is_transitive(platform, p.build_lock@, p.state_dir@, home);
    assert(parts(platform, home).take(parts(platform, home).len() as int) =~= parts(
        platform,
        home,
    ));
}

/// `file` names an entry of the directory `dir`.
pub open spec fn lies_in(platform: Platform, file: Seq<char>, dir: Seq<char>) -> bool {
    let all = parts(platform, file);
    all.len() > 0 && is_name(platform, all.last()) && all.drop_last() == parts(platform, dir)
}

/// Which directory of a layout stands at these steps from the home, if one does.
spec fn place(steps: Seq<Seq<char>>) -> int {
    let last = steps.last();
    if steps.len() == 0 {
        0
    } else if steps.len() == 1 && last.len() == 3 {
        1
    } else if steps.len() == 1 && last.len() == 5 && last[0] == 's' {
        2
    } else if steps.len() == 2 && last.len() == 5 {
        3
    } else if steps.len() == 2 && last.len() == 4 {
        4
    } else if steps.len() == 1 && last.len() == 5 {
        5
    } else if steps.len() == 2 && last.len() == 12 {
        6
    } else if steps.len() == 2 && last.len() == 9 {
        7
    } else if steps.len() == 1 && last.len() == 11 {
        8
    } else if steps.len() == 1 && last.len() == 7 {
        9
    } else {
        10
    }
}

/// The steps from the home; none for the home itself.
spec fn steps_from(platform: Platform, home: Seq<char>, p: Seq<char>) -> Seq<Seq<char>> {
    let h = base_parts(platform, home);
    if parts(platform, p).len() <= h.len() {
        Seq::empty()
    } else {
        parts(platform, p).skip(h.len() as int)
    }
}

proof fn lemma_one_step(platform: Platform, home: Seq<char>, p: Seq<char>, a: Seq<char>)
    requires
        parts(platform, p) == base_parts(platform, home).push(a),
    ensures
        steps_from(platform, home, p) == seq![a],
{
    let h = base_parts(platform, home);
    assert(h.push(a).skip(h.len() as int) =~= seq![a]);
}

proof fn lemma_two_steps(
    platform: Platform,
    home: Seq<char>,
    p: Seq<char>,
    a: Seq<char>,
    b: Seq<char>,
)
    requires
        parts(platform, p) == base_parts(platform, home).push(a).push(b),
    ensures
        steps_from(platform, home, p) == seq![a, b],
{
    let h = base_parts(platform, home);
    assert(h.push(a).push(b).skip(h.len() as int) =~= seq![a, b]);
}

proof fn lemma_directory_steps(p: PatcherPaths, home: Seq<char>, platform: Platform)
    requires
        laid_out_at(p, home, platform),
        is_settled(platform, home),
    ensures
        forall|i: int|
            0 <= i < 10 ==> place(
                steps_from(platform, home, #[trigger] directory_list(p)[i]),
            ) == i,
{
    lemma_places(p, home, platform);
    lemma_names();
    assert(parts(platform, home).len() <= base_parts(platform, home).len());
    lemma_one_step(platform, home, p.manager_dir@, "bin"@);
    lemma_one_step(platform, home, p.state_dir@, "state"@);
    lemma_two_steps(platform, home, p.locks_dir@, "state"@, "locks"@);
    lemma_two_steps(platform, home, p.logs_dir@, "state"@, "logs"@);
    lemma_one_step(platform, home, p.cache_dir@, "cache"@);
    lemma_two_steps(platform, home, p.cargo_target_dir@, "cache"@, "cargo-target"@);
    lemma_two_steps(platform, home, p.worktrees_dir@, "cache"@, "worktrees"@);
    lemma_one_step(platform, home, p.generations_dir@, "generations"@);
    lemma_one_step(platform, home, p.backups_dir@, "backups"@);
}

proof fn lemma_file_steps(p: PatcherPaths, home: Seq<char>, platform: Platform)
    requires
        laid_out_at(p, home, platform),
        is_settled(platform, home),
    ensures
        forall|i: int|
            0 <= i < 7 ==> place(steps_from(platform, home, #[trigger] file_list(p)[i])) == 10,
{
    lemma_places(p, home, platform);
    lemma_names();
    reveal_strlit("codex-patcher");
    reveal_strlit("codex-patcher.exe");
    lemma_two_steps(platform, home, p.manager@, "bin"@, manager_name(platform));
    lemma_two_steps(platform, home, p.state@, "state"@, "state.json"@);
    lemma_two_steps(platform, home, p.remote_cache@, "state"@, "remote.json"@);
    let h = base_parts(platform, home);
    assert(parts(platform, p.manager_lock@).len() == h.len() + 3);
    assert(parts(platform, p.state_lock@).len() == h.len() + 3);
    assert(parts(platform, p.probe_lock@).len() == h.len() + 3);
    assert(parts(platform, p.build_lock@).len() == h.len() + 3);
}

/// The ten directories are ten different places, the home first. Each file of the layout lies
/// in one of them and is none of them, so creating the directories creates no file.
pub proof fn directories_hold_the_files(p: PatcherPaths, home: Seq<char>, platform: Platform)
    requires
        laid_out_at(p, home, platform),
        is_settled(platform, home),
    ensures
        directory_list(p).len() == 10,
        directory_list(p)[0] == home,
        forall|i: int, j: int|
            0 <= i < j < 10 ==> parts(platform, #[trigger] directory_list(p)[i]) != parts(
                platform,
                #[trigger] directory_list(p)[j],
            ),
        forall|i: int, j: int|
            0 <= i < 7 && 0 <= j < 10 ==> parts(platform, #[trigger] file_list(p)[i]) != parts(
                platform,
                #[trigger] directory_list(p)[j],
            ),
        lies_in(platform, p.manager@, p.manager_dir@),
        lies_in(platform, p.state@, p.state_dir@),
        lies_in(platform, p.remote_cache@, p.state_dir@),
        lies_in(platform, p.manager_lock@, p.locks_dir@),
        lies_in(platform, p.state_lock@, p.locks_dir@),
        lies_in(platform, p.probe_lock@, p.locks_dir@),
        lies_in(platform, p.build_lock@, p.locks_dir@),
{
    lemma_places(p, home, platform);
    lemma_directory_steps(p, home, platform);
    lemma_file_steps(p, home, platform);
    let h = base_parts(platform, home);
    let locks = h.push("state"@).push("locks"@);
    assert(locks.push("manager.lock"@).drop_last() =~= locks);
    assert(locks.push("state.lock"@).drop_last() =~= locks);
    assert(locks.push("probe.lock"@).drop_last() =~= locks);
    assert(locks.push("build.lock"@).drop_last() =~= locks);
    assert(h.push("state"@).push("state.json"@).drop_last() =~= h.push("state"@));
    assert(h.push("state"@).push("remote.json"@).drop_last() =~= h.push("state"@));
    assert(h.push("bin"@).push(manager_name(platform)).drop_last() =~= h.push("bin"@));
}

} // verus!
