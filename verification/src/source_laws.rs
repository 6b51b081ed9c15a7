//! What a new source may change, where questions go, and how single values are told.

use vstd::prelude::*;
use vstd::utf8::encode_utf8;

use crate::arguments::{delimiter, needs_quotes, windows_argument, windows_arguments, with_override};
use crate::config::Branch;
use crate::outside::{semver_before, semver_parse};
use crate::paths::{is_below, lemma_split_concat, parts, Platform};
use crate::setup::{cleanup_of, failure_choice, maps_use_generation, rollback_result};
use crate::state::StateView;
use crate::discovery_laws::is_number;
use crate::text::{
    is_ascii_letter, is_digit, join, lemma_first_index, lemma_first_index_unique, lines, split_on,
};
use crate::text_laws::splitting_is_undone_by_joining;
use crate::types::{same_generation, GenerationView, SourceView};
use crate::upstream::{
    answer_of, canonical_version, endpoint, force_push_check, known_comparison,
    previous_release_check, ref_named, regression_check, release_version, retag_check,
    trusted_tag_check, valid_oid, Answer, QuestionView, RepliesView, StepView,
};

verus! {

/// A release whose tag has moved is refused exactly on a channel of releases, and where nobody
/// has accepted it: the tag is the same one, and its object or its commit is another.
pub proof fn moved_tags_are_refused(
    branch: Branch,
    previous: Option<SourceView>,
    current: SourceView,
    accept_retag: bool,
)
    ensures
        retag_check(branch, previous, current, accept_retag) is Err <==> branch != Branch::Nightly
            && !accept_retag && (previous matches Some(p) && p.channel == current.channel
            && p.ref_name == current.ref_name && !(p.ref_object_oid == current.ref_object_oid
            && p.commit_oid == current.commit_oid)),
{
}

/// A release that is older than the trusted one of its channel is refused, and so are versions
/// that cannot be read, unless it is a nightly or somebody has accepted it.
pub proof fn older_releases_are_refused(
    branch: Branch,
    previous: Option<SourceView>,
    current: SourceView,
    accept_retag: bool,
)
    ensures
        regression_check(branch, previous, current, accept_retag) is Err <==> branch
            != Branch::Nightly && !accept_retag && (previous matches Some(p) && p.channel
            == current.channel && (semver_parse(p.version) is Err || semver_parse(current.version)
            is Err || semver_before(current.version, p.version))),
{
}

/// A nightly that does not follow the trusted one is refused. Upstream is asked exactly where
/// the commit has changed, nobody has accepted it, and the answer is not known.
pub proof fn diverged_nightlies_are_refused(
    replies: RepliesView,
    previous: Option<SourceView>,
    current: SourceView,
    accept_force_push: bool,
)
    ensures
        ({
            let r = force_push_check(replies, previous, current, accept_force_push);
            let moved = !accept_force_push && current.channel == "nightly"@ && (
            previous matches Some(p) && p.channel == current.channel && p.commit_oid
                != current.commit_oid);
            let known = known_comparison(
                replies.comparisons,
                previous->0.commit_oid,
                current.commit_oid,
            );
            &&& r is Done <==> !moved || known == Some("ahead"@)
            &&& r is Ask <==> moved && known is None
            &&& r is Fail <==> moved && known is Some && known != Some("ahead"@)
            &&& r matches StepView::Ask(q) ==> q == QuestionView::Compare(
                previous->0.commit_oid,
                current.commit_oid,
            )
        }),
{
}

/// A trusted release must still be there under its own version, as far as it is of the channel.
pub proof fn trusted_releases_stay_published(
    replies: RepliesView,
    branch: Branch,
    previous: Option<SourceView>,
)
    ensures
        ({
            let r = previous_release_check(replies, branch, previous);
            let name = match branch {
                Branch::Stable => "stable"@,
                Branch::Alpha => "alpha"@,
                Branch::Nightly => "nightly"@,
            };
            let trusted = previous matches Some(p) && p.channel == name;
            let p = previous->0;
            let there = ref_named(replies.refs->0, p.ref_name);
            &&& !trusted ==> r is Done
            &&& trusted && replies.refs is None ==> r == StepView::<()>::Ask(QuestionView::Refs)
            &&& trusted && replies.refs is Some && there is None ==> r is Fail
            &&& trusted && replies.refs is Some && there is Some && release_version(
                there->0.ref_name,
            ) != Some(p.version) ==> r is Fail
            &&& trusted && replies.refs is Some && there is Some && release_version(
                there->0.ref_name,
            ) == Some(p.version) ==> r == trusted_tag_check(replies, branch, p, there->0)
        }),
{
}

/// Each question has its own place below the base of the API, and names what it asks about.
pub proof fn questions_go_to_their_endpoint(
    base: Seq<char>,
    tag: Seq<char>,
    sha: Seq<char>,
    a: Seq<char>,
    b: Seq<char>,
)
    ensures
        endpoint(QuestionView::Refs, base) == base + "/git/matching-refs/tags/rust-v"@,
        endpoint(QuestionView::Main, base) == base + "/git/ref/heads/main"@,
        endpoint(QuestionView::Release(tag), base) == base + "/releases/tags/"@ + tag,
        endpoint(QuestionView::Tag(sha), base) == base + "/git/tags/"@ + sha,
        endpoint(QuestionView::Compare(a, b), base) == base + "/compare/"@ + a + "..."@ + b,
{
}

/// A reply is an answer exactly where it is a success, or says that a release is not there.
pub proof fn replies_are_answers(question: QuestionView, status: u16)
    ensures
        answer_of(question, status) == Answer::Body <==> status == 200,
        answer_of(question, status) == Answer::Absent <==> status == 404 && question is Release,
        answer_of(question, status) == Answer::Unexpected <==> status != 200 && !(status == 404
            && question is Release),
{
}

/// An object is named by forty or sixty-four hexadecimal digits.
pub proof fn objects_are_named_in_hexadecimal(oid: Seq<char>)
    ensures
        valid_oid(oid) <==> (oid.len() == 40 || oid.len() == 64) && forall|i: int|
            0 <= i < oid.len() ==> ('0' <= #[trigger] oid[i] <= '9') || ('a' <= oid[i] <= 'f') || (
            'A' <= oid[i] <= 'F'),
{
    if valid_oid(oid) {
        assert forall|i: int| 0 <= i < oid.len() implies ('0' <= #[trigger] oid[i] <= '9') || (
        'a' <= oid[i] <= 'f') || ('A' <= oid[i] <= 'F') by {
            assert(crate::text::is_hex_digit(oid[i]));
        }
    }
}

/// The override is put in front of the delimiter, or at the end where there is none: one option
/// and its value, with every argument in its place around them.
pub proof fn the_override_stands_before_the_prompt(args: Seq<Seq<u8>>, i: int)
    requires
        0 <= delimiter(args) <= args.len(),
    ensures
        ({
            let out = with_override(args);
            let n = delimiter(args);
            &&& out.len() == args.len() + 2
            &&& out[n] == encode_utf8("-c"@)
            &&& out[n + 1] == encode_utf8("check_for_update_on_startup=false"@)
            &&& 0 <= i < n ==> out[i] == args[i]
            &&& n <= i < args.len() ==> out[i + 2] == args[i]
        }),
{
}

/// An argument is quoted exactly where it is empty or has a space, a tab or a quote mark in it.
/// Each is put behind a space.
pub proof fn arguments_are_quoted_when_needed(a: Seq<u16>, list: Seq<Seq<u16>>)
    ensures
        needs_quotes(a) <==> a.len() == 0 || exists|i: int|
            0 <= i < a.len() && (#[trigger] a[i] == 0x20 || a[i] == 0x09 || a[i] == 0x22),
        !needs_quotes(a) ==> windows_argument(a) == a,
        needs_quotes(a) ==> windows_argument(a).len() >= 2 && windows_argument(a)[0] == 0x22
            && windows_argument(a).last() == 0x22,
        windows_arguments(Seq::empty()).len() == 0,
        windows_arguments(list.push(a)) == windows_arguments(list) + seq![0x20u16]
            + windows_argument(a),
{
    let longer = list.push(a);
    assert(longer.drop_last() =~= list);
    assert(longer.last() == a);
    assert(windows_arguments(list).push(0x20u16) + windows_argument(a) =~= windows_arguments(list)
        + seq![0x20u16] + windows_argument(a));
}

/// A rollback switches updaters on again once no launcher is owned, and removes the state, and
/// the manager where it was copied, once nothing is left to undo.
pub proof fn rollbacks_clean_up_last(s: StateView, manager_copied: bool)
    ensures
        ({
            let c = cleanup_of(s, manager_copied);
            &&& c.restore_updaters <==> s.surfaces.len() == 0
            &&& c.remove_state <==> s.surfaces.len() == 0 && s.updaters.len() == 0
            &&& c.remove_manager <==> s.surfaces.len() == 0 && s.updaters.len() == 0
                && manager_copied
        }),
{
}

/// A rollback is complete exactly where nothing went wrong in it.
pub proof fn rollbacks_report_every_error(errors: &Vec<String>, r: Result<(), String>)
    requires
        call_ensures(rollback_result, (errors,), r),
    ensures
        r is Ok <==> errors@.len() == 0,
{
}

/// A failure can be chosen exactly where one is recorded, and it is the one that was asked for
/// where one was.
pub proof fn recorded_failures_can_be_chosen(s: StateView, id: Option<Seq<char>>)
    ensures
        failure_choice(s, id) is None <==> (s.failure matches Some(f) && (id matches Some(wanted)
            ==> f.id == wanted)),
{
}

/// A process uses a generation exactly where a line of its map ends in a path below it.
pub proof fn processes_use_what_they_map(
    platform: Platform,
    maps: &str,
    generation: &str,
    used: bool,
)
    requires
        call_ensures(maps_use_generation, (platform, maps, generation), used),
    ensures
        used <==> exists|i: int|
            0 <= i < lines(maps@).len() && crate::discovery::last_word(
                #[trigger] lines(maps@)[i],
            ).len() > 0 && is_below(
                platform,
                crate::discovery::last_word(lines(maps@)[i]),
                generation@,
            ),
{
}

/// Generations agree exactly where every field does, paths by the place that they name.
pub proof fn generations_agree_field_by_field(
    platform: Platform,
    a: GenerationView,
    b: GenerationView,
)
    ensures
        same_generation(platform, a, b) <==> a.id == b.id && a.source_key == b.source_key
            && a.source == b.source && a.patch_fingerprint == b.patch_fingerprint && a.target
            == b.target && a.subcommands == b.subcommands && a.built_at == b.built_at && parts(
            platform,
            a.package_dir,
        ) == parts(platform, b.package_dir) && parts(platform, a.binary) == parts(
            platform,
            b.binary,
        ),
{
}

/// Three numbers with dots between them.
pub open spec fn core_of(a: Seq<char>, b: Seq<char>, c: Seq<char>) -> Seq<char> {
    a + seq!['.'] + b + seq!['.'] + c
}

/// The text is an identifier of letters, digits and hyphens.
pub open spec fn is_plain_identifier(s: Seq<char>) -> bool {
    s.len() > 0 && forall|i: int|
        0 <= i < s.len() ==> is_digit(#[trigger] s[i]) || is_ascii_letter(s[i]) || s[i] == '-'
}

/// The text is made of identifiers with dots between them.
pub open spec fn are_identifiers(pre: Seq<char>) -> bool {
    forall|i: int|
        0 <= i < split_on(pre, '.').len() ==> is_plain_identifier(#[trigger] split_on(pre, '.')[i])
}

proof fn lemma_number_has_no(s: Seq<char>, c: char)
    requires
        is_number(s),
        !is_digit(c),
    ensures
        split_on(s, c) == seq![s],
        !s.contains(c),
{
    lemma_first_index_unique(s, c, s.len() as int);
}

proof fn lemma_core(a: Seq<char>, b: Seq<char>, c: Seq<char>)
    requires
        is_number(a),
        is_number(b),
        is_number(c),
    ensures
        split_on(core_of(a, b, c), '.') == seq![a, b, c],
        !core_of(a, b, c).contains('-'),
{
    lemma_number_has_no(a, '.');
    lemma_number_has_no(b, '.');
    lemma_number_has_no(c, '.');
    lemma_number_has_no(a, '-');
    lemma_number_has_no(b, '-');
    lemma_number_has_no(c, '-');
    lemma_split_concat(a + seq!['.'] + b, c, '.');
    lemma_split_concat(a, b, '.');
    assert(seq![a] + seq![b] + seq![c] =~= seq![a, b, c]);
    let core = core_of(a, b, c);
    assert forall|i: int| 0 <= i < core.len() implies core[i] != '-' by {
        if i < a.len() {
            assert(core[i] == a[i]);
            assert(a.contains(a[i]));
        } else if a.len() < i < a.len() + 1 + b.len() {
            assert(core[i] == b[i - a.len() - 1]);
            assert(b.contains(b[i - a.len() - 1]));
        } else if i > a.len() + 1 + b.len() {
            assert(core[i] == c[i - a.len() - b.len() - 2]);
            assert(c.contains(c[i - a.len() - b.len() - 2]));
        }
    }
}

/// Three numbers with dots between them are a version, and with a hyphen and identifiers behind
/// them too. A hyphen with anything else behind it makes none.
pub proof fn versions_are_numbers_and_identifiers(
    a: Seq<char>,
    b: Seq<char>,
    c: Seq<char>,
    pre: Seq<char>,
)
    requires
        is_number(a),
        is_number(b),
        is_number(c),
    ensures
        canonical_version(core_of(a, b, c)),
        canonical_version(core_of(a, b, c) + seq!['-'] + pre) <==> are_identifiers(pre),
{
    lemma_core(a, b, c);
    let core = core_of(a, b, c);
    assert forall|i: int| 0 <= i < core.len() implies core[i] != '-' by {
        assert(core.contains(core[i]));
    }
    lemma_first_index_unique(core, '-', core.len() as int);
    assert(core.take(core.len() as int) =~= core);
    let numbers = seq![a, b, c];
    let all = |s: Seq<char>| crate::upstream::all_digits(s);
    assert forall|i: int| 0 <= i < numbers.len() implies all(#[trigger] numbers[i]) by {
        assert(crate::upstream::all_digits(numbers[i]));
    }
    let v = core + seq!['-'] + pre;
    assert(v[core.len() as int] == '-');
    assert forall|i: int| 0 <= i < core.len() implies v[i] != '-' by {
        assert(v[i] == core[i]);
    }
    lemma_first_index_unique(v, '-', core.len() as int);
    assert(v.take(core.len() as int) =~= core);
    assert(v.skip(core.len() as int + 1) =~= pre);
    let list = split_on(pre, '.');
    let good = |s: Seq<char>| crate::upstream::is_identifier(s);
    if are_identifiers(pre) {
        assert forall|i: int| 0 <= i < list.len() implies good(#[trigger] list[i]) by {
            assert(is_plain_identifier(list[i]));
        }
    }
    if crate::upstream::every(list, good) {
        assert forall|i: int| 0 <= i < list.len() implies is_plain_identifier(
            #[trigger] list[i],
        ) by {
            assert(good(list[i]));
        }
    }
}

/// A version starts with three numbers with dots between them, and goes on with nothing but a
/// hyphen and what follows it.
pub proof fn versions_start_with_three_numbers(v: Seq<char>)
    requires
        canonical_version(v),
    ensures
        exists|a: Seq<char>, b: Seq<char>, c: Seq<char>|
            is_number(a) && is_number(b) && is_number(c) && (#[trigger] core_of(
                a,
                b,
                c,
            )).is_prefix_of(v) && (core_of(a, b, c).len() < v.len() ==> v[core_of(
                a,
                b,
                c,
            ).len() as int] == '-'),
{
    lemma_first_index(v, '-');
    let n = crate::text::first_index(v, '-');
    let core = v.take(n);
    let numbers = split_on(core, '.');
    splitting_is_undone_by_joining(core, '.');
    let a = numbers[0];
    let b = numbers[1];
    let c = numbers[2];
    let all = |s: Seq<char>| crate::upstream::all_digits(s);
    assert(all(numbers[0]) && all(numbers[1]) && all(numbers[2]));
    assert(numbers.drop_last() =~= seq![a, b]);
    assert(seq![a, b].drop_last() =~= seq![a]);
    assert(join(seq![a], seq!['.']) == a);
    assert(join(seq![a, b], seq!['.']) == a + seq!['.'] + b);
    assert(join(numbers, seq!['.']) == a + seq!['.'] + b + seq!['.'] + c);
    assert(core == core_of(a, b, c));
    assert(core.is_prefix_of(v));
}

} // verus!
