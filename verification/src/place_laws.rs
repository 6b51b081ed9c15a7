//! Where files stand and what is read out of an answer.

use vstd::prelude::*;

use crate::cas::cas_paths;
use crate::discovery::{compact, SurfaceOwner};
use crate::discovery_seeds::{
    between_marks, desktop_paths, manager_seeds, resolution_seed, resolution_seeds,
    PowerShellResolution, ResolutionFacts,
};
use crate::outside::uuid_form;
use crate::patchset::PatchView;
use crate::paths::{join_path, parent, parts, Platform};
use crate::replacement::{pushed, snapshot_views, target_path};
use crate::seed_laws::{last_marks_are_found, marks_are_found_from_both_ends};
use crate::state::JournalKind;
use crate::text::{is_control, is_whitespace, trim};
use crate::text_laws::trimming_takes_the_white_space;

verus! {

/// A file is reached part by part from its root.
pub proof fn files_are_reached_part_by_part(
    platform: Platform,
    root: Seq<char>,
    list: Seq<Seq<char>>,
    part: Seq<char>,
    relative: Seq<char>,
)
    ensures
        pushed(platform, root, Seq::empty()) == root,
        pushed(platform, root, list.push(part)) == join_path(
            platform,
            pushed(platform, root, list),
            part,
        ),
        parts(platform, relative).len() == 1 ==> target_path(platform, root, relative) == join_path(
            platform,
            root,
            parts(platform, relative)[0],
        ),
{
    let longer = list.push(part);
    assert(longer.drop_last() =~= list);
    assert(longer.last() == part);
    let only = parts(platform, relative);
    if only.len() == 1 {
        assert(only.drop_last() =~= Seq::<Seq<char>>::empty());
        assert(pushed(platform, root, only.drop_last()) == root);
    }
}

/// What a swap prepares and what it displaces stand beside the launcher, under names of the
/// operation. Off Windows they are one place.
pub proof fn swaps_stand_beside_the_launcher(
    surface: &str,
    id: u128,
    operation: &str,
    platform: Platform,
    r: Result<(String, String), String>,
)
    requires
        call_ensures(cas_paths, (surface, id, operation, platform), r),
    ensures
        r is Ok <==> parent(platform, surface@) is Some,
        r matches Ok(pair) ==> {
            let start = ".codex-patcher-"@ + uuid_form(id) + "."@ + operation@;
            let dir = parent(platform, surface@)->0;
            &&& pair.0@ == join_path(platform, dir, start + "-candidate"@)
            &&& platform is Posix ==> pair.1@ == pair.0@
            &&& platform is Windows ==> pair.1@ == join_path(platform, dir, start + "-displaced"@)
        },
{
}

/// The journal of an operation is named by its kind and its id.
pub proof fn journals_are_named_by_kind_and_id(id: u128)
    ensures
        crate::journal::journal_name(JournalKind::Takeover, id) == "."@ + "takeover"@ + "-"@
            + uuid_form(id) + ".json"@,
        crate::journal::journal_name(JournalKind::Restore, id) == "."@ + "restore"@ + "-"@
            + uuid_form(id) + ".json"@,
        crate::journal::journal_name(JournalKind::Repair, id) == "."@ + "repair"@ + "-"@
            + uuid_form(id) + ".json"@,
{
}

/// The text stands between the marks.
pub open spec fn is_marked(
    s: Seq<char>,
    before: Seq<char>,
    open: Seq<char>,
    t: Seq<char>,
    close: Seq<char>,
    after: Seq<char>,
) -> bool {
    s == before + open + t + close + after
}

/// What is read out of an output stands between the marks; and where a mark is missing it is the
/// whole output.
pub proof fn answers_stand_between_marks(s: Seq<char>, open: Seq<char>, close: Seq<char>)
    requires
        open.len() > 0,
        close.len() > 0,
    ensures
        ({
            let t = between_marks(s, open, close);
            t == s || exists|before: Seq<char>, after: Seq<char>| #[trigger]
                is_marked(s, before, open, t, close, after)
        }),
        !crate::text::contains_text(s, open) ==> between_marks(s, open, close) == s,
        !crate::text::contains_text(s, close) ==> between_marks(s, open, close) == s,
{
    marks_are_found_from_both_ends(s, open, 0);
    if let Some(i) = crate::discovery_seeds::first_at(s, open, 0) {
        assert(crate::text::occurs_at(s, open, i));
        let rest = s.skip(i + open.len());
        last_marks_are_found(rest, close, rest.len() as int);
        if let Some(j) = crate::discovery_seeds::last_at(rest, close, rest.len() as int) {
            let t = rest.take(j);
            let before = s.take(i);
            let after = rest.skip(j + close.len());
            assert(rest =~= t + close + after) by {
                assert(rest.subrange(j, j + close.len()) == close);
                assert(rest =~= rest.take(j) + rest.subrange(j, j + close.len()) + rest.skip(
                    j + close.len(),
                ));
            }
            assert(s =~= s.take(i) + s.subrange(i, i + open.len()) + rest);
            assert(s =~= before + open + t + close + after);
            assert(is_marked(s, before, open, t, close, after));
            let k = i + open.len() + j;
            assert(s.subrange(k, k + close.len()) =~= close);
            assert(crate::text::occurs_at(s, close, k));
        }
    }
}

/// A package manager that says where its launchers are is looked at there, in its own directory
/// of executables where it says where that is; one that says nothing is not.
pub proof fn managers_say_where_to_look(
    program: Seq<char>,
    output: Seq<char>,
    owner: SurfaceOwner,
    names: Seq<Seq<char>>,
    platform: Platform,
)
    ensures
        ({
            let list = manager_seeds(program, output, owner, names, platform);
            let dir = if platform is Posix && program == "npm"@ {
                join_path(platform, trim(output), "bin"@)
            } else {
                trim(output)
            };
            &&& trim(output).len() == 0 ==> list.len() == 0
            &&& trim(output).len() > 0 ==> list.len() == names.len() && forall|k: int|
                0 <= k < names.len() ==> (#[trigger] list[k]).raw == join_path(
                    platform,
                    dir,
                    names[k],
                ) && list[k].owner == owner && list[k].origin == program + "-global"@
                    && list[k].probeable && !list[k].package_leaf && !list[k].current
        }),
{
}

/// What PowerShell finds is taken in its order, each by its number, up to the limit; what stands
/// for nothing is left out.
pub proof fn resolutions_keep_their_order(
    program: Seq<char>,
    list: Seq<PowerShellResolution>,
    facts: Seq<ResolutionFacts>,
    r: PowerShellResolution,
)
    ensures
        ({
            let before = resolution_seeds(program, list, facts);
            let after = resolution_seeds(program, list.push(r), facts);
            let seed = resolution_seed(program, list.len(), r, facts[list.len() as int]);
            &&& resolution_seeds(program, Seq::empty(), facts).len() == 0
            &&& list.len() >= 64 ==> after == before
            &&& list.len() < 64 && seed is None ==> after == before
            &&& list.len() < 64 ==> (seed matches Some(s) ==> after == before.push(s))
        }),
{
    let longer = list.push(r);
    assert(longer.drop_last() =~= list);
    assert(longer.last() == r);
}

/// The application is looked for where its system installs it, and in the image that runs.
pub proof fn applications_are_looked_for_by_system(
    platform: Platform,
    home: Option<Seq<char>>,
    bases: Seq<Seq<char>>,
    dir: Seq<char>,
)
    ensures
        ({
            let linux = desktop_paths(platform, "linux"@, home, bases, None);
            let macos = desktop_paths(platform, "macos"@, home, bases, None);
            let image = desktop_paths(platform, "linux"@, home, bases, Some(dir));
            &&& linux.contains("/opt/codex-desktop/resources/codex"@)
            &&& linux.contains("/usr/lib/codex-desktop/resources/codex"@)
            &&& macos.contains("/Applications/Codex.app/Contents/Resources/codex"@)
            &&& home matches Some(h) ==> macos.contains(
                join_path(platform, h, "Applications/Codex.app/Contents/Resources/codex"@),
            )
            &&& image.contains(join_path(platform, dir, "resources/codex"@))
            &&& image.contains(join_path(platform, dir, "usr/bin/codex"@))
        }),
{
    reveal_strlit("linux");
    reveal_strlit("macos");
    assert("linux"@[0] == 'l' && "macos"@[0] == 'm');
    let linux = desktop_paths(platform, "linux"@, home, bases, None);
    let macos = desktop_paths(platform, "macos"@, home, bases, None);
    let image = desktop_paths(platform, "linux"@, home, bases, Some(dir));
    assert(linux[0] == "/opt/codex-desktop/resources/codex"@);
    assert(linux[2] == "/usr/lib/codex-desktop/resources/codex"@);
    assert(macos[0] == "/Applications/Codex.app/Contents/Resources/codex"@);
    if home is Some {
        assert(macos[2] == join_path(
            platform,
            home->0,
            "Applications/Codex.app/Contents/Resources/codex"@,
        ));
    }
    assert(image[5] == join_path(platform, dir, "resources/codex"@));
    assert(image[6] == join_path(platform, dir, "usr/bin/codex"@));
}

/// The text has no controls, and no white space but single spaces.
pub open spec fn is_compact(s: Seq<char>) -> bool {
    (forall|i: int|
        0 <= i < s.len() ==> #[trigger] s[i] == ' ' || (!is_control(s[i]) && !is_whitespace(s[i])))
        && forall|i: int| 0 < i < s.len() && #[trigger] s[i] == ' ' ==> s[i - 1] != ' '
}

proof fn lemma_spaced(s: Seq<char>)
    ensures
        is_compact(crate::discovery::spaced(s)),
    decreases s.len(),
{
    if s.len() > 0 {
        lemma_spaced(s.drop_last());
        let before = crate::discovery::spaced(s.drop_last());
        let after = crate::discovery::spaced(s);
        assert forall|i: int| 0 <= i < after.len() implies #[trigger] after[i] == ' ' || (
        !is_control(after[i]) && !is_whitespace(after[i])) by {
            if i < before.len() {
                assert(after[i] == before[i]);
            }
        }
        assert forall|i: int| 0 < i < after.len() && #[trigger] after[i] == ' ' implies after[i - 1]
            != ' ' by {
            assert(after[i - 1] == before[i - 1]);
            if i < before.len() {
                assert(after[i] == before[i]);
            }
        }
    }
}

/// What is shown of an output has no controls, and single spaces alone between its words and
/// none around them.
pub proof fn outputs_are_shown_compactly(s: Seq<char>, max: nat)
    ensures
        is_compact(compact(s, max)),
        compact(s, max).len() > 0 ==> compact(s, max)[0] != ' ' && compact(s, max).last() != ' ',
{
    let cut = if s.len() <= max {
        s
    } else {
        s.take(max as int)
    };
    let t = crate::discovery::spaced(cut);
    lemma_spaced(cut);
    trimming_takes_the_white_space(t);
    let (a, b) = choose|a: Seq<char>, b: Seq<char>| #[trigger]
        crate::text_laws::stands_between(t, a, trim(t), b);
    let r = trim(t);
    assert forall|i: int| 0 <= i < r.len() implies #[trigger] r[i] == ' ' || (!is_control(r[i])
        && !is_whitespace(r[i])) by {
        assert(r[i] == t[a.len() + i]);
    }
    assert forall|i: int| 0 < i < r.len() && #[trigger] r[i] == ' ' implies r[i - 1] != ' ' by {
        assert(r[i] == t[a.len() + i]);
        assert(r[i - 1] == t[a.len() + i - 1]);
    }
    assert(is_whitespace(' '));
}

/// The snapshot of a repair holds the configuration first, then each patch under its path with
/// its bytes, in their order, and the series last.
pub proof fn snapshots_hold_every_input(v: Seq<PatchView>, config: Seq<u8>, i: int)
    requires
        0 <= i < v.len(),
    ensures
        ({
            let files = snapshot_views(v, config);
            &&& files.len() == v.len() + 2
            &&& files[0].relative_path == "codex-patcher.toml"@ && files[0].contents == Some(config)
            &&& files[i + 1].relative_path == v[i].path && files[i + 1].contents == Some(
                v[i].bytes,
            )
            &&& files.last().relative_path == "series"@ && files.last().contents is Some
        }),
{
}

} // verus!
