//! What is made of a launcher that was found: its owner, its version, and whether it can be
//! redirected.

use vstd::prelude::*;

use crate::candidates::{
    candidate, index_of_path, probe_for, probe_path, probe_plan, redirect_of, resolved_of,
    SeedFacts,
};
use crate::discovery::{
    is_version, last_word, launch_words, method_of, owner_in, owner_of, precedence_of, printed,
    probed, search_form, version_in, DiscoveryOptions, PrecedenceScope, ProbeRun, ProbeStatus,
    Redirectability, SurfaceOwner, SurfaceRisk, UpdateMethod, VersionProbe, VersionView,
};
use crate::discovery_seeds::SeedView;
use crate::paths::{extension, is_below, parts, Platform};
use crate::surface::windows_form;
use crate::text::{
    ascii_lower, contains_text, is_ascii_letter, is_digit, is_whitespace, split_on, trim, trim_end,
};

verus! {

/// The path is one of the standalone installer.
pub open spec fn marks_standalone(p: Seq<char>) -> bool {
    contains_text(p, "/.codex/packages/standalone/"@)
}

/// The path is one of Bun.
pub open spec fn marks_bun(p: Seq<char>) -> bool {
    contains_text(p, ".bun/"@) || contains_text(p, "/bun/install/global/"@)
}

/// The path is one of pnpm.
pub open spec fn marks_pnpm(p: Seq<char>) -> bool {
    contains_text(p, "/.pnpm/"@) || contains_text(p, "/pnpm/"@)
}

/// The path is one of npm.
pub open spec fn marks_npm(p: Seq<char>) -> bool {
    contains_text(p, "node_modules/@openai/codex"@) || contains_text(p, "/npm/"@)
}

/// The path is one of Homebrew.
pub open spec fn marks_homebrew(p: Seq<char>) -> bool {
    contains_text(p, "/caskroom/codex/"@) || contains_text(p, "/cellar/codex/"@)
}

/// The path is one of the desktop application.
pub open spec fn marks_desktop(p: Seq<char>) -> bool {
    contains_text(p, "codex.app/contents/resources/"@) || contains_text(
        p,
        "codex-desktop/resources/"@,
    )
}

/// A path tells its owner by the first mark that it bears: the home of the patcher, then the
/// installer, then the package managers, then the application. Case and the kind of slash do not
/// matter for a mark.
pub proof fn owners_are_told_by_marks(platform: Platform, path: Seq<char>, home: Seq<char>)
    ensures
        ({
            let o = owner_in(platform, path, home);
            let p = search_form(path);
            let own = is_below(platform, path, home);
            let a = !own && !marks_standalone(p);
            let b = a && !marks_bun(p);
            let c = b && !marks_pnpm(p);
            let d = c && !marks_npm(p);
            let e = d && !marks_homebrew(p);
            &&& o == Some(SurfaceOwner::Patcher) <==> own
            &&& o == Some(SurfaceOwner::Standalone) <==> !own && marks_standalone(p)
            &&& o == Some(SurfaceOwner::Bun) <==> a && marks_bun(p)
            &&& o == Some(SurfaceOwner::Pnpm) <==> b && marks_pnpm(p)
            &&& o == Some(SurfaceOwner::Npm) <==> c && marks_npm(p)
            &&& o == Some(SurfaceOwner::Homebrew) <==> d && marks_homebrew(p)
            &&& o == Some(SurfaceOwner::Desktop) <==> e && marks_desktop(p)
            &&& o is None <==> e && !marks_desktop(p)
        }),
{
}

/// The owner is the one that is known from where the launcher was found; else the one of its own
/// path; else the one of where it leads; else the user.
pub proof fn owners_are_looked_up_in_order(
    platform: Platform,
    hinted: SurfaceOwner,
    raw: Seq<char>,
    resolved: Option<Seq<char>>,
    home: Seq<char>,
)
    ensures
        ({
            let o = owner_of(platform, hinted, raw, resolved, home);
            let here = owner_in(platform, raw, home);
            let there = match resolved {
                Some(path) => owner_in(platform, path, home),
                None => None,
            };
            &&& hinted != SurfaceOwner::Unknown ==> o == hinted
            &&& hinted == SurfaceOwner::Unknown && here is Some ==> here == Some(o)
            &&& hinted == SurfaceOwner::Unknown && here is None && there is Some ==> there == Some(
                o,
            )
            &&& hinted == SurfaceOwner::Unknown && here is None && there is None ==> o
                == SurfaceOwner::Manual
        }),
{
}

/// Who updates a launcher follows from its owner, and the other way round but for the standalone
/// package, which serves two.
pub proof fn owners_update_their_own(owner: SurfaceOwner)
    ensures
        method_of(owner) == UpdateMethod::CodexPatcher <==> owner == SurfaceOwner::Patcher,
        method_of(owner) == UpdateMethod::OfficialStandalone <==> owner == SurfaceOwner::Standalone
            || owner == SurfaceOwner::Daemon,
        method_of(owner) == UpdateMethod::NpmGlobal <==> owner == SurfaceOwner::Npm,
        method_of(owner) == UpdateMethod::PnpmGlobal <==> owner == SurfaceOwner::Pnpm,
        method_of(owner) == UpdateMethod::BunGlobal <==> owner == SurfaceOwner::Bun,
        method_of(owner) == UpdateMethod::HomebrewCask <==> owner == SurfaceOwner::Homebrew,
        method_of(owner) == UpdateMethod::DesktopUpdater <==> owner == SurfaceOwner::Desktop,
        method_of(owner) == UpdateMethod::Manual <==> owner == SurfaceOwner::Manual,
        method_of(owner) == UpdateMethod::Unknown <==> owner == SurfaceOwner::Unknown,
{
}

/// The path is inside a signed or protected application.
pub open spec fn is_bundled(path: Seq<char>) -> bool {
    contains_text(search_form(path), ".app/contents/"@) || contains_text(
        search_form(path),
        "/windowsapps/"@,
    ) || contains_text(search_form(path), "/appx/"@)
}

proof fn lemma_bundled(path: Seq<char>)
    ensures
        crate::text::mentions_any(search_form(path), crate::discovery::bundle_marks())
            <==> is_bundled(path),
{
    let list = crate::discovery::bundle_marks();
    assert(list[0] == ".app/contents/"@);
    assert(list[1] == "/windowsapps/"@);
    assert(list[2] == "/appx/"@);
}

/// A launcher cannot be redirected where its type, its nature or its place forbids it. Otherwise
/// the patcher's own is already redirected, the user's own is redirected directly, and what
/// something else updates stays managed by it.
pub proof fn redirection_follows_the_owner(
    seed: SeedView,
    owner: SurfaceOwner,
    resolved: Option<Seq<char>>,
    platform: Platform,
)
    ensures
        ({
            let (way, risk, reason) = redirect_of(seed, owner, resolved, platform);
            let forbidden = (platform is Windows && windows_form(seed.raw) is Err)
                || seed.read_only_reason is Some || is_bundled(seed.raw) || (
            resolved matches Some(path) && is_bundled(path));
            &&& way == Redirectability::NotRedirectable <==> forbidden
            &&& forbidden ==> risk == SurfaceRisk::Critical
            &&& way == Redirectability::OwnerManaged <==> !forbidden && (seed.package_leaf || !(
            owner == SurfaceOwner::Patcher || owner == SurfaceOwner::Manual || owner
                == SurfaceOwner::Unknown))
            &&& way == Redirectability::AlreadyOwned <==> !forbidden && !seed.package_leaf && owner
                == SurfaceOwner::Patcher
            &&& way == Redirectability::Direct <==> !forbidden && !seed.package_leaf && (owner
                == SurfaceOwner::Manual || owner == SurfaceOwner::Unknown)
            &&& way == Redirectability::AlreadyOwned <==> risk == SurfaceRisk::Low
            &&& way == Redirectability::Direct <==> risk == SurfaceRisk::Medium
            &&& !forbidden ==> (risk == SurfaceRisk::Critical <==> seed.package_leaf || owner
                == SurfaceOwner::Daemon)
            &&& !(platform is Windows && windows_form(seed.raw) is Err) ==> (
            seed.read_only_reason matches Some(why) ==> reason == why)
        }),
{
    lemma_bundled(seed.raw);
    if let Some(path) = resolved {
        lemma_bundled(path);
    }
}

/// What is reported of a launcher: where it was found, where it leads, its version as probed,
/// its owner with what follows from it, and whether it is the one that runs.
pub proof fn candidates_report_what_was_found(
    seed: SeedView,
    facts: SeedFacts,
    first: bool,
    home: Seq<char>,
    probe: VersionView,
    platform: Platform,
)
    ensures
        ({
            let c = candidate(seed, facts, first, home, probe, platform);
            &&& c.origin == seed.origin && c.raw == seed.raw
            &&& c.exists == facts.exists
            &&& c.version == probe.version && c.probe == probe
            &&& seed.probeable ==> (c.resolved is Some <==> facts.resolved is Some)
            &&& seed.probeable ==> (facts.resolved matches Some(path) ==> c.resolved == Some(path@))
            &&& !seed.probeable ==> c.resolved is None && c.file_identity.path is None
                && c.file_identity.identity is None
            &&& c.owner == owner_of(platform, seed.owner, seed.raw, c.resolved, home)
            &&& c.update_method == method_of(c.owner)
            &&& c.current <==> seed.current || first
            &&& c.precedence.effective == c.current
            &&& (c.redirectability, c.risk, c.risk_reason) == redirect_of(
                seed,
                c.owner,
                c.resolved,
                platform,
            )
            &&& seed.probeable && (c.resolved is Some || facts.exists) ==> {
                &&& c.file_identity.path == Some(
                    if c.resolved is Some {
                        c.resolved->0
                    } else {
                        seed.raw
                    },
                )
                &&& c.file_identity.identity is Some <==> facts.inspected is Ok
                &&& facts.inspected matches Ok(identity) ==> c.file_identity.identity == Some(
                    identity@,
                )
            }
            &&& seed.probeable && c.resolved is None && !facts.exists
                ==> c.file_identity.identity is None
        }),
{
}

/// Where the order of a launcher comes from: the override, the search path, a shell, or a known
/// place; the rank is counted from one.
pub proof fn precedence_follows_the_origin(origin: Seq<char>, effective: bool)
    ensures
        ({
            let p = precedence_of(origin, effective);
            let a = origin != "CODEX_CLI_PATH"@;
            let b = a && !"PATH["@.is_prefix_of(origin);
            let c = b && !"shell-"@.is_prefix_of(origin);
            &&& p.effective == effective
            &&& p.scope == PrecedenceScope::CliOverride <==> origin == "CODEX_CLI_PATH"@
            &&& p.scope == PrecedenceScope::Path <==> a && "PATH["@.is_prefix_of(origin)
            &&& p.scope == PrecedenceScope::Shell <==> b && "shell-"@.is_prefix_of(origin)
            &&& p.scope == PrecedenceScope::PowerShell <==> c && "powershell-"@.is_prefix_of(origin)
            &&& p.scope == PrecedenceScope::KnownLocation <==> c && !"powershell-"@.is_prefix_of(
                origin,
            )
            &&& p.scope == PrecedenceScope::CliOverride ==> p.rank == Some(1u64)
            &&& p.scope == PrecedenceScope::KnownLocation ==> p.rank is None
            &&& p.scope == PrecedenceScope::Path || p.scope == PrecedenceScope::Shell || p.scope
                == PrecedenceScope::PowerShell ==> (p.rank matches Some(rank) ==> rank > 0
                && crate::discovery::rank_in(origin) == Some((rank - 1) as u64))
        }),
{
}

/// All characters are digits.
pub open spec fn is_number(s: Seq<char>) -> bool {
    s.len() > 0 && forall|i: int| 0 <= i < s.len() ==> is_digit(#[trigger] s[i])
}

/// What may follow the three numbers of a version.
pub open spec fn is_tail(s: Seq<char>) -> bool {
    s.len() == 0 || (s.len() > 1 && (s[0] == '-' || s[0] == '+') && forall|i: int|
        1 <= i < s.len() ==> is_ascii_letter(#[trigger] s[i]) || is_digit(s[i]) || s[i] == '.'
            || s[i] == '-')
}

/// The text is three numbers with dots between them, and a tail.
pub open spec fn is_made_of(
    s: Seq<char>,
    a: Seq<char>,
    b: Seq<char>,
    c: Seq<char>,
    tail: Seq<char>,
) -> bool {
    is_number(a) && is_number(b) && is_number(c) && is_tail(tail) && s == a + seq!['.'] + b + seq![
        '.',
    ] + c + tail
}

proof fn lemma_skip_digits(d: Seq<char>, t: Seq<char>)
    requires
        forall|i: int| 0 <= i < d.len() ==> is_digit(#[trigger] d[i]),
        t.len() == 0 || !is_digit(t[0]),
    ensures
        crate::discovery::skip_digits(d + t) == t,
    decreases d.len(),
{
    let s = d + t;
    if d.len() > 0 {
        assert(s[0] == d[0]);
        assert(s.drop_first() =~= d.drop_first() + t);
        lemma_skip_digits(d.drop_first(), t);
    } else {
        assert(s =~= t);
    }
}

proof fn lemma_digits_split(s: Seq<char>) -> (d: Seq<char>)
    ensures
        s == d + crate::discovery::skip_digits(s),
        forall|i: int| 0 <= i < d.len() ==> is_digit(#[trigger] d[i]),
        s.len() > 0 && is_digit(s[0]) ==> d.len() > 0,
    decreases s.len(),
{
    if s.len() > 0 && is_digit(s[0]) {
        let rest = lemma_digits_split(s.drop_first());
        let d = seq![s[0]] + rest;
        let t = crate::discovery::skip_digits(s.drop_first());
        assert(s =~= seq![s[0]] + s.drop_first());
        assert(s =~= d + t);
        assert forall|i: int| 0 <= i < d.len() implies is_digit(#[trigger] d[i]) by {
            if i > 0 {
                assert(d[i] == rest[i - 1]);
            }
        }
        d
    } else {
        assert(s =~= Seq::<char>::empty() + s);
        Seq::empty()
    }
}

/// A text is a version exactly where it is three numbers with dots between them and a tail.
pub proof fn versions_have_three_numbers(s: Seq<char>)
    ensures
        is_version(s) <==> exists|a: Seq<char>, b: Seq<char>, c: Seq<char>, tail: Seq<char>|
            #[trigger] is_made_of(s, a, b, c, tail),
{
    if is_version(s) {
        let a = lemma_digits_split(s);
        let s1 = crate::discovery::skip_digits(s);
        let b = lemma_digits_split(s1.skip(1));
        let s2 = crate::discovery::skip_digits(s1.skip(1));
        let c = lemma_digits_split(s2.skip(1));
        let tail = crate::discovery::skip_digits(s2.skip(1));
        assert(s1 =~= seq!['.'] + s1.skip(1));
        assert(s2 =~= seq!['.'] + s2.skip(1));
        assert(s1.skip(1)[0] == s1[1]);
        assert(s2.skip(1)[0] == s2[1]);
        assert(s =~= a + seq!['.'] + b + seq!['.'] + c + tail);
        assert forall|i: int| 1 <= i < tail.len() implies is_ascii_letter(#[trigger] tail[i])
            || is_digit(tail[i]) || tail[i] == '.' || tail[i] == '-' by {
            assert(crate::discovery::is_suffix_char(tail[i]));
        }
        assert(is_made_of(s, a, b, c, tail));
    }
    if exists|a: Seq<char>, b: Seq<char>, c: Seq<char>, tail: Seq<char>| #[trigger]
        is_made_of(s, a, b, c, tail) {
        let (a, b, c, tail) = choose|a: Seq<char>, b: Seq<char>, c: Seq<char>, tail: Seq<char>|
            #[trigger] is_made_of(s, a, b, c, tail);
        let t3 = tail;
        let t2 = seq!['.'] + c + tail;
        let t1 = seq!['.'] + b + t2;
        assert(s =~= a + t1);
        lemma_skip_digits(a, t1);
        assert(t1.skip(1) =~= b + t2);
        lemma_skip_digits(b, t2);
        assert(t2.skip(1) =~= c + tail);
        lemma_skip_digits(c, tail);
        assert(s[0] == a[0]);
        assert(t1[1] == b[0]);
        assert(t2[1] == c[0]);
        assert(crate::discovery::is_version_suffix(tail));
    }
}

/// The line ends in that word.
pub open spec fn ends_in_word(line: Seq<char>, word: Seq<char>) -> bool {
    let s = trim_end(line);
    word.is_suffix_of(s) && (word.len() < s.len() ==> is_whitespace(s[s.len() - word.len() - 1]))
        && forall|i: int| 0 <= i < word.len() ==> !is_whitespace(#[trigger] word[i])
}

proof fn lemma_after_space(s: Seq<char>)
    ensures
        0 <= crate::discovery::after_space(s) <= s.len(),
        crate::discovery::after_space(s) > 0 ==> is_whitespace(
            s[crate::discovery::after_space(s) - 1],
        ),
        forall|i: int| crate::discovery::after_space(s) <= i < s.len() ==> !is_whitespace(
            #[trigger] s[i],
        ),
    decreases s.len(),
{
    if s.len() > 0 && !is_whitespace(s.last()) {
        let rest = s.drop_last();
        lemma_after_space(rest);
        assert forall|i: int| crate::discovery::after_space(s) <= i < s.len() implies !is_whitespace(
            #[trigger] s[i],
        ) by {
            if i < rest.len() {
                assert(rest[i] == s[i]);
            }
        }
    }
}

/// The last word of a line is what stands behind the last white space in it.
pub proof fn lines_end_in_their_last_word(line: Seq<char>)
    ensures
        ends_in_word(line, last_word(line)),
{
    let s = trim_end(line);
    lemma_after_space(s);
    let n = crate::discovery::after_space(s);
    let word = s.skip(n);
    assert(s.subrange(s.len() - word.len(), s.len() as int) =~= word);
    assert forall|i: int| 0 <= i < word.len() implies !is_whitespace(#[trigger] word[i]) by {
        assert(word[i] == s[n + i]);
    }
}

/// The version of that line is the first.
pub open spec fn is_first_version(list: Seq<Seq<char>>, i: int) -> bool {
    0 <= i < list.len() && is_version(last_word(list[i])) && forall|k: int|
        0 <= k < i ==> !is_version(last_word(#[trigger] list[k]))
}

proof fn lemma_first_version(list: Seq<Seq<char>>)
    ensures
        match crate::discovery::first_version(list) {
            Some(v) => exists|i: int| #[trigger]
                is_first_version(list, i) && v == last_word(list[i]),
            None => forall|i: int|
                0 <= i < list.len() ==> !is_version(last_word(#[trigger] list[i])),
        },
    decreases list.len(),
{
    if list.len() > 0 {
        if is_version(last_word(list[0])) {
            assert(is_first_version(list, 0));
        } else {
            let rest = list.drop_first();
            lemma_first_version(rest);
            assert forall|i: int| 0 <= i < rest.len() implies #[trigger] rest[i]
                == list[i + 1] by {}
            match crate::discovery::first_version(list) {
                Some(v) => {
                    let i = choose|i: int| #[trigger]
                        is_first_version(rest, i) && v == last_word(rest[i]);
                    assert forall|k: int| 0 <= k < i + 1 implies !is_version(
                        last_word(#[trigger] list[k]),
                    ) by {
                        if k > 0 {
                            assert(rest[k - 1] == list[k]);
                        }
                    }
                    assert(is_first_version(list, i + 1));
                },
                None => {
                    assert forall|i: int| 0 <= i < list.len() implies !is_version(
                        last_word(#[trigger] list[i]),
                    ) by {
                        if i > 0 {
                            assert(rest[i - 1] == list[i]);
                        }
                    }
                },
            }
        }
    }
}

/// The version in an output is the last word of the first line that ends in a version.
pub proof fn the_first_version_counts(output: Seq<char>)
    ensures
        ({
            let list = split_on(trim(output), '\n');
            match version_in(output) {
                Some(v) => exists|i: int| #[trigger]
                    is_first_version(list, i) && v == last_word(list[i]),
                None => forall|i: int|
                    0 <= i < list.len() ==> !is_version(last_word(#[trigger] list[i])),
            }
        }),
{
    lemma_first_version(split_on(trim(output), '\n'));
}

/// A probe succeeds exactly where the launcher ended well and printed a version. What it printed
/// is kept, and why it failed.
pub proof fn probes_succeed_with_a_version(run: ProbeRun, elapsed_ms: u128)
    ensures
        ({
            let p = probed(run, elapsed_ms);
            &&& p.elapsed_ms == elapsed_ms
            &&& p.status == ProbeStatus::Succeeded <==> (run matches ProbeRun::Finished {
                success,
                stdout,
                stderr,
                ..
            } && success && version_in(printed(stdout@, stderr@)) is Some)
            &&& p.status == ProbeStatus::TimedOut <==> run is TimedOut
            &&& p.status == ProbeStatus::Succeeded || p.status == ProbeStatus::TimedOut || p.status
                == ProbeStatus::Failed
            &&& p.version is Some <==> p.status == ProbeStatus::Succeeded
            &&& p.error is None <==> p.status == ProbeStatus::Succeeded
            &&& run matches ProbeRun::Finished { success, stdout, stderr, .. } ==> {
                let text = printed(stdout@, stderr@);
                &&& p.output is Some <==> text.len() > 0
                &&& text.len() > 0 ==> p.output == Some(text)
                &&& success ==> p.version == version_in(text)
            }
            &&& run is Unavailable || run is TimedOut ==> p.output is None
        }),
{
}

/// A launcher is run as it is, and a script of Windows through its interpreter. The arguments
/// follow as they were given.
pub proof fn launchers_get_their_arguments(
    path: Seq<char>,
    args: Seq<Seq<char>>,
    platform: Platform,
)
    ensures
        ({
            let words = launch_words(path, args, platform);
            let ext = match extension(platform, path) {
                Some(e) => ascii_lower(e),
                None => Seq::empty(),
            };
            let batch = platform is Windows && (ext == "cmd"@ || ext == "bat"@);
            let script = platform is Windows && ext == "ps1"@;
            &&& args.is_suffix_of(words)
            &&& words.len() > args.len()
            &&& words[words.len() - args.len() - 1] == path
            &&& batch <==> words.len() == args.len() + 4
            &&& script <==> words.len() == args.len() + 6
            &&& !batch && !script <==> words.len() == args.len() + 1
            &&& batch ==> words[0] == "cmd.exe"@ && words[2] == "/C"@
            &&& script ==> words[0] == "powershell.exe"@ && words[4] == "-File"@
        }),
{
    reveal_strlit("cmd");
    reveal_strlit("bat");
    reveal_strlit("ps1");
    assert("cmd"@[0] == 'c' && "bat"@[0] == 'b' && "ps1"@[0] == 'p');
    let words = launch_words(path, args, platform);
    let n = words.len() - args.len();
    assert(words.subrange(n, words.len() as int) =~= args);
}

/// One of the planned probes is of that place.
pub open spec fn is_planned(platform: Platform, plan: Seq<Seq<char>>, path: Seq<char>) -> bool {
    exists|k: int|
        0 <= k < plan.len() && parts(platform, #[trigger] plan[k]) == parts(platform, path)
}

proof fn lemma_index(platform: Platform, list: Seq<Seq<char>>, path: Seq<char>)
    ensures
        0 <= index_of_path(platform, list, path) <= list.len(),
        index_of_path(platform, list, path) < list.len() <==> is_planned(platform, list, path),
        index_of_path(platform, list, path) < list.len() ==> parts(
            platform,
            list[index_of_path(platform, list, path)],
        ) == parts(platform, path),
    decreases list.len(),
{
    if list.len() > 0 {
        if parts(platform, list[0]) != parts(platform, path) {
            let rest = list.drop_first();
            lemma_index(platform, rest, path);
            if is_planned(platform, rest, path) {
                let k = choose|k: int|
                    0 <= k < rest.len() && parts(platform, #[trigger] rest[k]) == parts(
                        platform,
                        path,
                    );
                assert(list[k + 1] == rest[k]);
            }
            if is_planned(platform, list, path) {
                let k = choose|k: int|
                    0 <= k < list.len() && parts(platform, #[trigger] list[k]) == parts(
                        platform,
                        path,
                    );
                assert(rest[k - 1] == list[k]);
            }
        }
    }
}

/// Unless the limit is reached, every launcher that can be asked is asked.
pub proof fn every_launcher_is_probed(
    platform: Platform,
    seeds: Seq<SeedView>,
    facts: Seq<SeedFacts>,
    max: nat,
    i: int,
)
    requires
        0 <= i < seeds.len(),
        probe_plan(platform, seeds, facts, max).len() < max,
        probe_path(seeds[i], facts[i]) is Some,
    ensures
        is_planned(
            platform,
            probe_plan(platform, seeds, facts, max),
            probe_path(seeds[i], facts[i])->0,
        ),
    decreases seeds.len(),
{
    let rest = seeds.drop_last();
    let before = probe_plan(platform, rest, facts, max);
    let plan = probe_plan(platform, seeds, facts, max);
    let path = probe_path(seeds[i], facts[i])->0;
    if i < rest.len() {
        assert(rest[i] == seeds[i]);
        every_launcher_is_probed(platform, rest, facts, max, i);
        let k = choose|k: int|
            0 <= k < before.len() && parts(platform, #[trigger] before[k]) == parts(platform, path);
        assert(plan[k] == before[k]);
    } else {
        lemma_index(platform, before, path);
        if plan != before {
            assert(plan[before.len() as int] == path);
        }
    }
}

/// A launcher gets the answer of the probe that was planned for its file, and none where it was
/// not asked.
pub proof fn launchers_get_their_own_answer(
    platform: Platform,
    path: Option<Seq<char>>,
    probeable: bool,
    plan: Seq<Seq<char>>,
    probes: Seq<VersionProbe>,
    options: DiscoveryOptions,
)
    ensures
        ({
            let p = probe_for(platform, path, probeable, plan, probes, options);
            let asked = probeable && options.probe_versions;
            &&& !asked ==> p.status == ProbeStatus::NotRun && p.version is None
            &&& asked && path is None ==> p.status == ProbeStatus::Failed && p.version is None
            &&& asked && path is Some && !is_planned(platform, plan, path->0) ==> p.status
                == ProbeStatus::NotRun && p.version is None
            &&& asked && path is Some && is_planned(platform, plan, path->0) ==> exists|k: int|
                0 <= k < plan.len() && parts(platform, #[trigger] plan[k]) == parts(
                    platform,
                    path->0,
                ) && p == probes[k]@
        }),
{
    if let Some(there) = path {
        lemma_index(platform, plan, there);
        let k = index_of_path(platform, plan, there);
        if k < plan.len() {
            assert(parts(platform, plan[k]) == parts(platform, there));
        }
    }
}

/// The file that is asked is where the launcher leads, or the launcher itself where it leads
/// nowhere else and is there. What is no file is not asked.
pub proof fn the_file_behind_a_launcher_is_probed(seed: SeedView, facts: SeedFacts)
    ensures
        ({
            let p = probe_path(seed, facts);
            &&& !seed.probeable ==> p is None && resolved_of(seed, facts) is None
            &&& seed.probeable ==> (facts.resolved matches Some(path) ==> p == Some(path@))
            &&& seed.probeable && facts.resolved is None && facts.exists ==> p == Some(seed.raw)
            &&& seed.probeable && facts.resolved is None && !facts.exists ==> p is None
        }),
{
}

} // verus!
