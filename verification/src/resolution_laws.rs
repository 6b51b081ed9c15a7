//! What a resolved source is, in terms of what GitHub replied.

use vstd::prelude::*;

use crate::config::Branch;
use crate::outside::{semver_before, semver_parse};
use crate::types::SourceView;
use crate::upstream::{
    candidate_named, candidate_order, canonical_version, channel_version, first_published,
    known_comparison, known_release, known_tag, peeled, ref_named, release_order, resolution,
    selected, tag_name_of, version_text, CandidateView, ObjectView, QuestionView, RefView,
    ReleaseView, RepliesView, StepView, TagView,
};
use crate::upstream_laws::ordering_keeps_the_candidates;

verus! {

/// Forty or sixty-four hexadecimal digits.
pub open spec fn is_object_id(s: Seq<char>) -> bool {
    (s.len() == 40 || s.len() == 64) && forall|i: int|
        0 <= i < s.len() ==> ('0' <= #[trigger] s[i] <= '9') || ('a' <= s[i] <= 'f') || ('A'
            <= s[i] <= 'F')
}

/// The first reply about the annotated tag with that id.
pub open spec fn tag_reply(tags: Seq<(Seq<char>, TagView)>, sha: Seq<char>, tag: TagView) -> bool {
    exists|t: int|
        0 <= t < tags.len() && #[trigger] tags[t] == (sha, tag) && forall|u: int|
            0 <= u < t ==> (#[trigger] tags[u]).0 != sha
}

/// The first reply about the release of that tag; none where there is no release.
pub open spec fn release_reply(
    releases: Seq<(Seq<char>, Option<ReleaseView>)>,
    name: Seq<char>,
    release: Option<ReleaseView>,
) -> bool {
    exists|t: int|
        0 <= t < releases.len() && #[trigger] releases[t] == (name, release) && forall|u: int|
            0 <= u < t ==> (#[trigger] releases[u]).0 != name
}

/// The first reply about the comparison of two commits.
pub open spec fn comparison_reply(
    comparisons: Seq<(Seq<char>, Seq<char>, Seq<char>)>,
    base: Seq<char>,
    head: Seq<char>,
    status: Seq<char>,
) -> bool {
    exists|t: int|
        0 <= t < comparisons.len() && #[trigger] comparisons[t] == (base, head, status)
            && forall|u: int|
            0 <= u < t ==> !((#[trigger] comparisons[u]).0 == base && comparisons[u].1 == head)
}

/// `a` is an annotated tag, and the reply about it names `b`.
pub open spec fn names_next(
    tags: Seq<(Seq<char>, TagView)>,
    a: ObjectView,
    b: ObjectView,
) -> bool {
    a.kind == "tag"@ && exists|tag: TagView| #[trigger]
        tag_reply(tags, a.sha, tag) && tag.object == b
}

/// Each object but the last is an annotated tag that names the next.
pub open spec fn is_tag_chain(tags: Seq<(Seq<char>, TagView)>, chain: Seq<ObjectView>) -> bool {
    forall|i: int|
        0 <= i < chain.len() - 1 ==> names_next(tags, #[trigger] chain[i], chain[i + 1])
}

/// Following annotated tags from the object ends at the commit.
pub open spec fn leads_to_commit(
    tags: Seq<(Seq<char>, TagView)>,
    object: ObjectView,
    commit: Seq<char>,
) -> bool {
    exists|chain: Seq<ObjectView>|
        chain.len() > 0 && chain[0] == object && chain.last().kind == "commit"@
            && chain.last().sha == commit && #[trigger] is_tag_chain(tags, chain)
}

proof fn lemma_tag_reply(tags: Seq<(Seq<char>, TagView)>, sha: Seq<char>)
    ensures
        known_tag(tags, sha) matches Some(tag) ==> tag_reply(tags, sha, tag),
        known_tag(tags, sha) is None ==> forall|t: int|
            0 <= t < tags.len() ==> (#[trigger] tags[t]).0 != sha,
    decreases tags.len(),
{
    if tags.len() > 0 {
        let rest = tags.drop_first();
        if tags[0].0 == sha {
            assert(tags[0] == (sha, tags[0].1));
        } else {
            lemma_tag_reply(rest, sha);
            if let Some(tag) = known_tag(rest, sha) {
                let t = choose|t: int|
                    0 <= t < rest.len() && #[trigger] rest[t] == (sha, tag) && forall|u: int|
                        0 <= u < t ==> (#[trigger] rest[u]).0 != sha;
                assert(tags[t + 1] == (sha, tag));
                assert forall|u: int| 0 <= u < t + 1 implies (#[trigger] tags[u]).0 != sha by {
                    if u > 0 {
                        assert(tags[u] == rest[u - 1]);
                    }
                }
            } else {
                assert forall|t: int| 0 <= t < tags.len() implies (#[trigger] tags[t]).0 != sha by {
                    if t > 0 {
                        assert(tags[t] == rest[t - 1]);
                    }
                }
            }
        }
    }
}

proof fn lemma_one_tag_reply(
    tags: Seq<(Seq<char>, TagView)>,
    sha: Seq<char>,
    a: TagView,
    b: TagView,
)
    requires
        tag_reply(tags, sha, a),
        tag_reply(tags, sha, b),
    ensures
        a == b,
{
    let t = choose|t: int|
        0 <= t < tags.len() && #[trigger] tags[t] == (sha, a) && forall|u: int|
            0 <= u < t ==> (#[trigger] tags[u]).0 != sha;
    let v = choose|v: int|
        0 <= v < tags.len() && #[trigger] tags[v] == (sha, b) && forall|u: int|
            0 <= u < v ==> (#[trigger] tags[u]).0 != sha;
    if t < v {
        assert(tags[t].0 != sha);
    } else if v < t {
        assert(tags[v].0 != sha);
    }
}

proof fn lemma_known_tag(tags: Seq<(Seq<char>, TagView)>, sha: Seq<char>, tag: TagView)
    requires
        tag_reply(tags, sha, tag),
    ensures
        known_tag(tags, sha) == Some(tag),
{
    lemma_tag_reply(tags, sha);
    let t = choose|t: int|
        0 <= t < tags.len() && #[trigger] tags[t] == (sha, tag) && forall|u: int|
            0 <= u < t ==> (#[trigger] tags[u]).0 != sha;
    assert(tags[t].0 == sha);
    lemma_one_tag_reply(tags, sha, tag, known_tag(tags, sha)->0);
}

proof fn lemma_release_reply(releases: Seq<(Seq<char>, Option<ReleaseView>)>, name: Seq<char>)
    ensures
        known_release(releases, name) matches Some(release) ==> release_reply(
            releases,
            name,
            release,
        ),
        known_release(releases, name) is None ==> forall|t: int|
            0 <= t < releases.len() ==> (#[trigger] releases[t]).0 != name,
    decreases releases.len(),
{
    if releases.len() > 0 {
        let rest = releases.drop_first();
        if releases[0].0 == name {
            assert(releases[0] == (name, releases[0].1));
        } else {
            lemma_release_reply(rest, name);
            if let Some(release) = known_release(rest, name) {
                let t = choose|t: int|
                    0 <= t < rest.len() && #[trigger] rest[t] == (name, release) && forall|u: int|
                        0 <= u < t ==> (#[trigger] rest[u]).0 != name;
                assert(releases[t + 1] == (name, release));
                assert forall|u: int| 0 <= u < t + 1 implies (#[trigger] releases[u]).0 != name by {
                    if u > 0 {
                        assert(releases[u] == rest[u - 1]);
                    }
                }
            } else {
                assert forall|t: int| 0 <= t < releases.len() implies (#[trigger] releases[t]).0
                    != name by {
                    if t > 0 {
                        assert(releases[t] == rest[t - 1]);
                    }
                }
            }
        }
    }
}

proof fn lemma_known_release(
    releases: Seq<(Seq<char>, Option<ReleaseView>)>,
    name: Seq<char>,
    release: Option<ReleaseView>,
)
    requires
        release_reply(releases, name, release),
    ensures
        known_release(releases, name) == Some(release),
{
    lemma_release_reply(releases, name);
    let t = choose|t: int|
        0 <= t < releases.len() && #[trigger] releases[t] == (name, release) && forall|u: int|
            0 <= u < t ==> (#[trigger] releases[u]).0 != name;
    assert(releases[t].0 == name);
    let found = known_release(releases, name)->0;
    let v = choose|v: int|
        0 <= v < releases.len() && #[trigger] releases[v] == (name, found) && forall|u: int|
            0 <= u < v ==> (#[trigger] releases[u]).0 != name;
    if t < v {
        assert(releases[t].0 != name);
    } else if v < t {
        assert(releases[v].0 != name);
    }
}

proof fn lemma_comparison_reply(
    comparisons: Seq<(Seq<char>, Seq<char>, Seq<char>)>,
    base: Seq<char>,
    head: Seq<char>,
)
    ensures
        known_comparison(comparisons, base, head) matches Some(status) ==> comparison_reply(
            comparisons,
            base,
            head,
            status,
        ),
        known_comparison(comparisons, base, head) is None ==> forall|t: int|
            0 <= t < comparisons.len() ==> !((#[trigger] comparisons[t]).0 == base
                && comparisons[t].1 == head),
    decreases comparisons.len(),
{
    if comparisons.len() > 0 {
        let rest = comparisons.drop_first();
        if comparisons[0].0 == base && comparisons[0].1 == head {
            assert(comparisons[0] == (base, head, comparisons[0].2));
        } else {
            lemma_comparison_reply(rest, base, head);
            if let Some(status) = known_comparison(rest, base, head) {
                let t = choose|t: int|
                    0 <= t < rest.len() && #[trigger] rest[t] == (base, head, status) && forall|
                        u: int,
                    |
                        0 <= u < t ==> !((#[trigger] rest[u]).0 == base && rest[u].1 == head);
                assert(comparisons[t + 1] == (base, head, status));
                assert forall|u: int| 0 <= u < t + 1 implies !((#[trigger] comparisons[u]).0 == base
                    && comparisons[u].1 == head) by {
                    if u > 0 {
                        assert(comparisons[u] == rest[u - 1]);
                    }
                }
            } else {
                assert forall|t: int| 0 <= t < comparisons.len() implies !((
                #[trigger] comparisons[t]).0 == base && comparisons[t].1 == head) by {
                    if t > 0 {
                        assert(comparisons[t] == rest[t - 1]);
                    }
                }
            }
        }
    }
}

proof fn lemma_known_comparison(
    comparisons: Seq<(Seq<char>, Seq<char>, Seq<char>)>,
    base: Seq<char>,
    head: Seq<char>,
    status: Seq<char>,
)
    requires
        comparison_reply(comparisons, base, head, status),
    ensures
        known_comparison(comparisons, base, head) == Some(status),
{
    lemma_comparison_reply(comparisons, base, head);
    let t = choose|t: int|
        0 <= t < comparisons.len() && #[trigger] comparisons[t] == (base, head, status) && forall|
            u: int,
        |
            0 <= u < t ==> !((#[trigger] comparisons[u]).0 == base && comparisons[u].1 == head);
    assert(comparisons[t].0 == base);
    let found = known_comparison(comparisons, base, head)->0;
    let v = choose|v: int|
        0 <= v < comparisons.len() && #[trigger] comparisons[v] == (base, head, found) && forall|
            u: int,
        |
            0 <= u < v ==> !((#[trigger] comparisons[u]).0 == base && comparisons[u].1 == head);
    if t < v {
        assert(comparisons[t].0 == base);
    } else if v < t {
        assert(comparisons[v].0 == base);
    }
}

proof fn lemma_peeled_leads(
    replies: RepliesView,
    tag_name: Seq<char>,
    object: ObjectView,
    depth: nat,
    visited: Seq<Seq<char>>,
)
    ensures
        peeled(replies, tag_name, object, depth, visited) matches StepView::Done(commit)
            ==> leads_to_commit(replies.tags, object, commit) && is_object_id(commit)
            && is_object_id(object.sha),
    decreases crate::upstream::MAX_TAG_DEPTH - depth,
{
    if let StepView::Done(commit) = peeled(replies, tag_name, object, depth, visited) {
        if object.kind == "commit"@ {
            let chain = seq![object];
            assert(is_tag_chain(replies.tags, chain));
        } else {
            let tag = known_tag(replies.tags, object.sha)->0;
            lemma_tag_reply(replies.tags, object.sha);
            lemma_peeled_leads(
                replies,
                tag_name,
                tag.object,
                depth + 1,
                visited.push(object.sha),
            );
            let rest = choose|chain: Seq<ObjectView>|
                chain.len() > 0 && chain[0] == tag.object && chain.last().kind == "commit"@
                    && chain.last().sha == commit && #[trigger] is_tag_chain(replies.tags, chain);
            let chain = seq![object] + rest;
            assert forall|i: int| 0 <= i < chain.len() - 1 implies names_next(
                replies.tags,
                #[trigger] chain[i],
                chain[i + 1],
            ) by {
                if i == 0 {
                    assert(chain[1] == rest[0]);
                    assert(tag_reply(replies.tags, chain[0].sha, tag));
                } else {
                    assert(chain[i] == rest[i - 1] && chain[i + 1] == rest[i]);
                    assert(names_next(replies.tags, rest[i - 1], rest[i - 1 + 1]));
                }
            }
            assert(is_tag_chain(replies.tags, chain));
            assert(chain.last() == rest.last());
        }
    }
}

/// A chain of at most eight different annotated tags that ends at a commit. The first tag
/// bears the name that was asked for.
pub open spec fn is_sound_chain(
    tags: Seq<(Seq<char>, TagView)>,
    chain: Seq<ObjectView>,
    tag_name: Seq<char>,
) -> bool {
    &&& 0 < chain.len() <= 9
    &&& is_tag_chain(tags, chain)
    &&& chain.last().kind == "commit"@
    &&& forall|i: int| 0 <= i < chain.len() ==> is_object_id((#[trigger] chain[i]).sha)
    &&& forall|i: int, j: int|
        0 <= i < j < chain.len() - 1 ==> (#[trigger] chain[i]).sha != (#[trigger] chain[j]).sha
    &&& chain.len() > 1 ==> exists|tag: TagView| #[trigger]
        tag_reply(tags, chain[0].sha, tag) && tag.tag == tag_name
}

proof fn lemma_sound_chain_peels(
    replies: RepliesView,
    tag_name: Seq<char>,
    chain: Seq<ObjectView>,
    n: int,
    visited: Seq<Seq<char>>,
)
    requires
        is_sound_chain(replies.tags, chain, tag_name),
        0 <= n < chain.len(),
        forall|v: Seq<char>|
            visited.contains(v) ==> exists|i: int| 0 <= i < n && (#[trigger] chain[i]).sha == v,
    ensures
        peeled(replies, tag_name, chain[n], n as nat, visited) == StepView::Done(chain.last().sha),
    decreases chain.len() - n,
{
    assert(is_object_id(chain[n].sha));
    reveal_strlit("tag");
    reveal_strlit("commit");
    if n == chain.len() - 1 {
    } else {
        assert(names_next(replies.tags, chain[n], chain[n + 1]));
        assert("tag"@.len() != "commit"@.len());
        assert(!visited.contains(chain[n].sha)) by {
            if visited.contains(chain[n].sha) {
                let i = choose|i: int| 0 <= i < n && (#[trigger] chain[i]).sha == chain[n].sha;
                assert(chain[i].sha != chain[n].sha);
            }
        }
        let tag = choose|tag: TagView| #[trigger]
            tag_reply(replies.tags, chain[n].sha, tag) && tag.object == chain[n + 1];
        lemma_known_tag(replies.tags, chain[n].sha, tag);
        if n == 0 {
            let first = choose|first: TagView| #[trigger]
                tag_reply(replies.tags, chain[0].sha, first) && first.tag == tag_name;
            lemma_one_tag_reply(replies.tags, chain[0].sha, tag, first);
        }
        let more = visited.push(chain[n].sha);
        assert forall|v: Seq<char>| more.contains(v) implies exists|i: int|
            0 <= i < n + 1 && (#[trigger] chain[i]).sha == v by {
            let k = choose|k: int| 0 <= k < more.len() && more[k] == v;
            if k == visited.len() {
                assert(chain[n].sha == v);
            } else {
                assert(visited[k] == v);
                assert(visited.contains(v));
                let i = choose|i: int| 0 <= i < n && (#[trigger] chain[i]).sha == v;
                assert(chain[i].sha == v);
            }
        }
        lemma_sound_chain_peels(replies, tag_name, chain, n + 1, more);
    }
}

/// The release is published, of the channel's kind, and belongs to the tag.
pub open spec fn is_published(alpha: bool, name: Seq<char>, release: ReleaseView) -> bool {
    release.tag_name == name && !release.draft && release.published_at is Some
        && release.prerelease == alpha && release.html_url.len() > 0
}

/// The tag is known to have no release, or only a draft or unpublished one.
pub open spec fn is_unpublished(
    releases: Seq<(Seq<char>, Option<ReleaseView>)>,
    name: Seq<char>,
) -> bool {
    release_reply(releases, name, None) || exists|release: ReleaseView| #[trigger]
        release_reply(releases, name, Some(release)) && release.tag_name == name && (release.draft
            || release.published_at is None)
}

/// One of the refs is this tag, and it leads to this commit.
pub open spec fn names_commit(
    replies: RepliesView,
    ref_name: Seq<char>,
    object: Seq<char>,
    commit: Seq<char>,
) -> bool {
    replies.refs matches Some(refs) && exists|k: int|
        0 <= k < refs.len() && (#[trigger] refs[k]).ref_name == ref_name && refs[k].object.sha
            == object && leads_to_commit(replies.tags, refs[k].object, commit)
}

/// The tag of that version has a published release at that address.
pub open spec fn has_release(
    replies: RepliesView,
    branch: Branch,
    version: Seq<char>,
    url: Option<Seq<char>>,
) -> bool {
    exists|release: ReleaseView| #[trigger]
        release_reply(replies.releases, "rust-v"@ + version, Some(release)) && is_published(
            branch == Branch::Alpha,
            "rust-v"@ + version,
            release,
        ) && (url is Some ==> url == Some(release.html_url))
}

proof fn lemma_tag_names(ref_name: Seq<char>)
    requires
        "refs/tags/rust-v"@.is_prefix_of(ref_name),
    ensures
        ({
            let version = ref_name.skip("refs/tags/rust-v"@.len() as int);
            &&& ref_name == "refs/tags/rust-v"@ + version
            &&& tag_name_of(ref_name) == "rust-v"@ + version
        }),
{
    reveal_strlit("refs/tags/rust-v");
    reveal_strlit("refs/tags/");
    reveal_strlit("rust-v");
    let long = "refs/tags/rust-v"@;
    let version = ref_name.skip(16);
    assert(ref_name.take(16) == long);
    assert(ref_name =~= long + version);
    assert forall|i: int| 10 <= i < 16 implies ref_name[i] == "rust-v"@[i - 10] by {
        assert(ref_name.take(16)[i] == long[i]);
    }
    assert(tag_name_of(ref_name) =~= "rust-v"@ + version);
}

/// The candidate is one of the refs, with what its name says.
spec fn comes_from(c: CandidateView, branch: Branch, refs: Seq<RefView>) -> bool {
    c.tag_name == tag_name_of(c.ref_name) && Some(c.version) == channel_version(branch, c.ref_name)
        && refs.contains(RefView { ref_name: c.ref_name, object: c.object })
}

/// Every candidate is one of the refs.
spec fn come_from(v: Seq<CandidateView>, branch: Branch, refs: Seq<RefView>) -> bool {
    forall|i: int| 0 <= i < v.len() ==> comes_from(#[trigger] v[i], branch, refs)
}

/// The ref is one of the candidates.
spec fn is_found(v: Seq<CandidateView>, r: RefView) -> bool {
    exists|i: int|
        0 <= i < v.len() && (#[trigger] v[i]).ref_name == r.ref_name && v[i].object == r.object
}

/// Every ref of the channel is one of the candidates.
spec fn all_found(v: Seq<CandidateView>, branch: Branch, refs: Seq<RefView>) -> bool {
    forall|k: int|
        0 <= k < refs.len() && channel_version(branch, (#[trigger] refs[k]).ref_name) is Some
            ==> is_found(v, refs[k])
}

proof fn lemma_named(found: Seq<CandidateView>, name: Seq<char>)
    ensures
        candidate_named(found, name) matches Some(c) ==> exists|i: int|
            0 <= i < found.len() && #[trigger] found[i] == c && c.ref_name == name,
    decreases found.len(),
{
    if found.len() > 0 {
        if found[0].ref_name == name {
            assert(found[0] == candidate_named(found, name)->0);
        } else {
            let rest = found.drop_first();
            lemma_named(rest, name);
            if let Some(c) = candidate_named(rest, name) {
                let i = choose|i: int|
                    0 <= i < rest.len() && #[trigger] rest[i] == c && c.ref_name == name;
                assert(found[i + 1] == c);
            }
        }
    }
}

proof fn lemma_found_more(v: Seq<CandidateView>, w: Seq<CandidateView>, r: RefView)
    requires
        v.is_prefix_of(w),
        is_found(v, r),
    ensures
        is_found(w, r),
{
    let i = choose|i: int|
        0 <= i < v.len() && (#[trigger] v[i]).ref_name == r.ref_name && v[i].object == r.object;
    assert(w.take(v.len() as int)[i] == w[i]);
}

proof fn lemma_selected(branch: Branch, refs: Seq<RefView>)
    requires
        selected(branch, refs) is Ok,
    ensures
        come_from(selected(branch, refs)->Ok_0, branch, refs),
        all_found(selected(branch, refs)->Ok_0, branch, refs),
    decreases refs.len(),
{
    if refs.len() > 0 {
        let init = refs.drop_last();
        let last = refs.last();
        lemma_selected(branch, init);
        let before = selected(branch, init)->Ok_0;
        let after = selected(branch, refs)->Ok_0;
        lemma_named(before, last.ref_name);
        assert(refs[refs.len() - 1] == last);
        assert(after.take(before.len() as int) =~= before);
        assert(channel_version(branch, last.ref_name) is Some ==> is_found(after, last)) by {
            if channel_version(branch, last.ref_name) is Some {
                if let Some(c) = candidate_named(before, last.ref_name) {
                    let i = choose|i: int|
                        0 <= i < before.len() && #[trigger] before[i] == c && c.ref_name
                            == last.ref_name;
                    assert(after[i] == before[i]);
                } else {
                    assert(after[after.len() - 1].ref_name == last.ref_name);
                }
            }
        }
        assert forall|k: int|
            0 <= k < refs.len() && channel_version(
                branch,
                (#[trigger] refs[k]).ref_name,
            ) is Some implies is_found(after, refs[k]) by {
            if k < init.len() {
                assert(init[k] == refs[k]);
                lemma_found_more(before, after, refs[k]);
            }
        }
        assert forall|i: int| 0 <= i < after.len() implies comes_from(
            #[trigger] after[i],
            branch,
            refs,
        ) by {
            let r = RefView { ref_name: after[i].ref_name, object: after[i].object };
            if i < before.len() {
                assert(after[i] == before[i]);
                assert(comes_from(before[i], branch, init));
                let k = choose|k: int| 0 <= k < init.len() && init[k] == r;
                assert(refs[k] == r);
            } else {
                assert(refs[refs.len() - 1] == r);
            }
        }
    }
}

proof fn lemma_same_members(a: Seq<CandidateView>, b: Seq<CandidateView>)
    requires
        a.to_multiset() == b.to_multiset(),
    ensures
        forall|x: CandidateView| a.contains(x) <==> b.contains(x),
{
    broadcast use vstd::seq_lib::group_to_multiset_ensures;

    assert forall|x: CandidateView| a.contains(x) <==> b.contains(x) by {
        assert(a.contains(x) <==> a.to_multiset().count(x) > 0);
        assert(b.contains(x) <==> b.to_multiset().count(x) > 0);
    }
}

proof fn lemma_ordered(branch: Branch, refs: Seq<RefView>)
    requires
        release_order(branch, refs) is Ok,
    ensures
        come_from(release_order(branch, refs)->Ok_0, branch, refs),
        all_found(release_order(branch, refs)->Ok_0, branch, refs),
{
    let found = selected(branch, refs)->Ok_0;
    let list = candidate_order(found);
    lemma_selected(branch, refs);
    ordering_keeps_the_candidates(found);
    lemma_same_members(list, found);
    assert forall|i: int| 0 <= i < list.len() implies comes_from(
        #[trigger] list[i],
        branch,
        refs,
    ) by {
        assert(list.contains(list[i]));
        let j = choose|j: int| 0 <= j < found.len() && found[j] == list[i];
        assert(comes_from(found[j], branch, refs));
    }
    assert forall|k: int|
        0 <= k < refs.len() && channel_version(
            branch,
            (#[trigger] refs[k]).ref_name,
        ) is Some implies is_found(list, refs[k]) by {
        assert(is_found(found, refs[k]));
        let j = choose|j: int|
            0 <= j < found.len() && (#[trigger] found[j]).ref_name == refs[k].ref_name
                && found[j].object == refs[k].object;
        assert(found.contains(found[j]));
        assert(list.contains(found[j]));
        let i = choose|i: int| 0 <= i < list.len() && list[i] == found[j];
        assert(list[i].ref_name == refs[k].ref_name);
    }
}

/// A version text of the channel: three numbers and, for alphas, a pre-release, written the
/// one way that a version is written.
pub open spec fn is_channel_version(branch: Branch, version: Seq<char>) -> bool {
    canonical_version(version) && (semver_parse(version) matches Ok(v) && version_text(v) == version
        && (branch == Branch::Stable <==> v.3.len() == 0))
}

/// The candidates of a release channel are exactly its tags: each ref `rust-v` and a version of
/// the channel, with the object that it names, and nothing else. They are refused only where
/// one name has two objects.
pub proof fn candidates_are_the_tags_of_the_channel(branch: Branch, refs: Seq<RefView>)
    requires
        branch != Branch::Nightly,
    ensures
        release_order(branch, refs) matches Ok(list) ==> {
            &&& forall|i: int|
                0 <= i < list.len() ==> (#[trigger] list[i]).ref_name == "refs/tags/rust-v"@
                    + list[i].version && list[i].tag_name == "rust-v"@ + list[i].version
                    && is_channel_version(branch, list[i].version) && refs.contains(
                    RefView { ref_name: list[i].ref_name, object: list[i].object },
                )
            &&& forall|k: int, version: Seq<char>|
                0 <= k < refs.len() && (#[trigger] refs[k]).ref_name == "refs/tags/rust-v"@
                    + version && #[trigger] is_channel_version(branch, version) ==> exists|i: int|
                    0 <= i < list.len() && (#[trigger] list[i]).version == version
                        && list[i].object == refs[k].object
        },
        release_order(branch, refs) is Err ==> exists|a: int, b: int|
            0 <= a < b < refs.len() && (#[trigger] refs[a]).ref_name == (
            #[trigger] refs[b]).ref_name && refs[a].object != refs[b].object,
{
    if let Ok(list) = release_order(branch, refs) {
        lemma_ordered(branch, refs);
        assert forall|i: int| 0 <= i < list.len() implies (#[trigger] list[i]).ref_name
            == "refs/tags/rust-v"@ + list[i].version && list[i].tag_name == "rust-v"@
            + list[i].version && is_channel_version(branch, list[i].version) && refs.contains(
            RefView { ref_name: list[i].ref_name, object: list[i].object },
        ) by {
            assert(comes_from(list[i], branch, refs));
            lemma_tag_names(list[i].ref_name);
        }
        assert forall|k: int, version: Seq<char>|
            0 <= k < refs.len() && (#[trigger] refs[k]).ref_name == "refs/tags/rust-v"@ + version
                && #[trigger] is_channel_version(branch, version) implies exists|i: int|
            0 <= i < list.len() && (#[trigger] list[i]).version == version && list[i].object
                == refs[k].object by {
            lemma_channel_ref(branch, version);
            assert(is_found(list, refs[k]));
            let i = choose|i: int|
                0 <= i < list.len() && (#[trigger] list[i]).ref_name == refs[k].ref_name
                    && list[i].object == refs[k].object;
            assert(comes_from(list[i], branch, refs));
        }
    } else {
        lemma_conflict(branch, refs);
    }
}

proof fn lemma_channel_ref(branch: Branch, version: Seq<char>)
    requires
        is_channel_version(branch, version),
    ensures
        channel_version(branch, "refs/tags/rust-v"@ + version) == Some(version),
{
    let prefix = "refs/tags/rust-v"@;
    let name = prefix + version;
    assert(name.take(prefix.len() as int) =~= prefix);
    assert(name.skip(prefix.len() as int) =~= version);
}

proof fn lemma_conflict(branch: Branch, refs: Seq<RefView>)
    requires
        selected(branch, refs) is Err,
    ensures
        exists|a: int, b: int|
            0 <= a < b < refs.len() && (#[trigger] refs[a]).ref_name == (
            #[trigger] refs[b]).ref_name && refs[a].object != refs[b].object,
    decreases refs.len(),
{
    let init = refs.drop_last();
    if selected(branch, init) is Err {
        lemma_conflict(branch, init);
        let (a, b) = choose|a: int, b: int|
            0 <= a < b < init.len() && (#[trigger] init[a]).ref_name == (
            #[trigger] init[b]).ref_name && init[a].object != init[b].object;
        assert(refs[a] == init[a] && refs[b] == init[b]);
    } else {
        let before = selected(branch, init)->Ok_0;
        lemma_selected(branch, init);
        lemma_named(before, refs.last().ref_name);
        let c = candidate_named(before, refs.last().ref_name)->0;
        let i = choose|i: int|
            0 <= i < before.len() && #[trigger] before[i] == c && c.ref_name
                == refs.last().ref_name;
        assert(comes_from(before[i], branch, init));
        let r = RefView { ref_name: c.ref_name, object: c.object };
        let k = choose|k: int| 0 <= k < init.len() && init[k] == r;
        assert(refs[k] == init[k]);
        assert(refs[refs.len() - 1] == refs.last());
    }
}

/// The source was made of this candidate.
spec fn is_picked(
    replies: RepliesView,
    branch: Branch,
    c: CandidateView,
    source: SourceView,
) -> bool {
    &&& c.ref_name == source.ref_name
    &&& c.version == source.version
    &&& c.object.sha == source.ref_object_oid
    &&& peeled(replies, c.tag_name, c.object, 0, Seq::empty()) == StepView::Done(source.commit_oid)
    &&& known_release(replies.releases, c.tag_name) matches Some(Some(release)) && is_published(
        branch == Branch::Alpha,
        c.tag_name,
        release,
    ) && source.release_url == Some(release.html_url)
    &&& source.channel == crate::config::branch_name(branch)
    &&& is_object_id(source.ref_object_oid)
}

/// What is taken from the candidates is one of them, published, and leads to its commit.
proof fn lemma_picked(
    replies: RepliesView,
    branch: Branch,
    list: Seq<CandidateView>,
    source: SourceView,
) -> (i: int)
    requires
        first_published(replies, branch, list) == StepView::Done(source),
    ensures
        0 <= i < list.len(),
        is_picked(replies, branch, list[i], source),
    decreases list.len(),
{
    let c = list[0];
    let here = known_release(replies.releases, c.tag_name) matches Some(Some(release))
        && crate::upstream::published(branch, c.tag_name, release) == Ok::<bool, Seq<char>>(true);
    if here {
        0
    } else {
        let rest = list.drop_first();
        let i = lemma_picked(replies, branch, rest, source);
        assert(list[i + 1] == rest[i]);
        i + 1
    }
}

/// A resolved release is a tag of its channel with a published release, and its commit is the
/// commit that the tag leads to, through the annotated tags in between.
pub proof fn releases_resolve_to_their_commit(
    replies: RepliesView,
    branch: Branch,
    previous: Option<SourceView>,
    accept_retag: bool,
    accept_force_push: bool,
    source: SourceView,
)
    requires
        branch != Branch::Nightly,
        resolution(replies, branch, previous, accept_retag, accept_force_push) == StepView::Done(
            source,
        ),
    ensures
        source.channel == (if branch == Branch::Stable {
            "stable"@
        } else {
            "alpha"@
        }),
        source.ref_name == "refs/tags/rust-v"@ + source.version,
        is_channel_version(branch, source.version),
        is_object_id(source.ref_object_oid),
        is_object_id(source.commit_oid),
        names_commit(replies, source.ref_name, source.ref_object_oid, source.commit_oid),
        source.release_url is Some,
        has_release(replies, branch, source.version, source.release_url),
{
    let refs = replies.refs->0;
    let list = release_order(branch, refs)->Ok_0;
    lemma_ordered(branch, refs);
    let i = lemma_picked(replies, branch, list, source);
    assert(comes_from(list[i], branch, refs));
    candidates_are_the_tags_of_the_channel(branch, refs);
    lemma_peeled_leads(replies, list[i].tag_name, list[i].object, 0, Seq::empty());
    lemma_release_reply(replies.releases, list[i].tag_name);
    let r = RefView { ref_name: list[i].ref_name, object: list[i].object };
    let k = choose|k: int| 0 <= k < refs.len() && refs[k] == r;
    assert(refs[k].object.sha == source.ref_object_oid);
    let release = known_release(replies.releases, list[i].tag_name)->0->0;
    assert(release_reply(replies.releases, "rust-v"@ + source.version, Some(release)));
}

/// One object leads to one commit: a tag object to what its reply names, a commit to itself.
pub proof fn tags_lead_to_one_commit(
    tags: Seq<(Seq<char>, TagView)>,
    object: ObjectView,
    a: Seq<char>,
    b: Seq<char>,
)
    requires
        leads_to_commit(tags, object, a),
        leads_to_commit(tags, object, b),
    ensures
        a == b,
        object.kind == "commit"@ ==> a == object.sha,
        object.kind == "tag"@ ==> exists|tag: TagView| #[trigger]
            tag_reply(tags, object.sha, tag) && leads_to_commit(tags, tag.object, a),
{
    reveal_strlit("tag");
    reveal_strlit("commit");
    assert("tag"@.len() != "commit"@.len());
    let x = choose|chain: Seq<ObjectView>|
        chain.len() > 0 && chain[0] == object && chain.last().kind == "commit"@ && chain.last().sha
            == a && #[trigger] is_tag_chain(tags, chain);
    let y = choose|chain: Seq<ObjectView>|
        chain.len() > 0 && chain[0] == object && chain.last().kind == "commit"@ && chain.last().sha
            == b && #[trigger] is_tag_chain(tags, chain);
    lemma_chains_agree(tags, x, y, 0);
    if object.kind == "tag"@ {
        assert(x.len() > 1);
        assert(names_next(tags, x[0], x[1]));
        let tag = choose|tag: TagView| #[trigger]
            tag_reply(tags, x[0].sha, tag) && tag.object == x[1];
        let rest = x.drop_first();
        assert forall|i: int| 0 <= i < rest.len() - 1 implies names_next(
            tags,
            #[trigger] rest[i],
            rest[i + 1],
        ) by {
            assert(rest[i] == x[i + 1] && rest[i + 1] == x[i + 2]);
            assert(names_next(tags, x[i + 1], x[i + 1 + 1]));
        }
        assert(is_tag_chain(tags, rest));
        assert(rest[0] == tag.object && rest.last() == x.last());
        assert(leads_to_commit(tags, tag.object, a));
    } else {
        if x.len() > 1 {
            assert(names_next(tags, x[0], x[1]));
        }
    }
}

proof fn lemma_chains_agree(
    tags: Seq<(Seq<char>, TagView)>,
    x: Seq<ObjectView>,
    y: Seq<ObjectView>,
    n: int,
)
    requires
        is_tag_chain(tags, x),
        is_tag_chain(tags, y),
        0 <= n < x.len(),
        n < y.len(),
        x[n] == y[n],
        x.last().kind == "commit"@,
        y.last().kind == "commit"@,
    ensures
        x.last() == y.last(),
    decreases x.len() - n,
{
    reveal_strlit("tag");
    reveal_strlit("commit");
    assert("tag"@.len() != "commit"@.len());
    if n == x.len() - 1 {
        if n < y.len() - 1 {
            assert(names_next(tags, y[n], y[n + 1]));
        }
    } else if n == y.len() - 1 {
        assert(names_next(tags, x[n], x[n + 1]));
    } else {
        assert(names_next(tags, x[n], x[n + 1]) && names_next(tags, y[n], y[n + 1]));
        let s = choose|tag: TagView| #[trigger]
            tag_reply(tags, x[n].sha, tag) && tag.object == x[n + 1];
        let t = choose|tag: TagView| #[trigger]
            tag_reply(tags, y[n].sha, tag) && tag.object == y[n + 1];
        lemma_one_tag_reply(tags, x[n].sha, s, t);
        lemma_chains_agree(tags, x, y, n + 1);
    }
}

/// What a resolved nightly is: the commit of `main`, and nothing else.
pub open spec fn is_nightly(replies: RepliesView, source: SourceView) -> bool {
    replies.main matches Some(r) && {
        &&& r.ref_name == "refs/heads/main"@
        &&& r.object.kind == "commit"@
        &&& is_object_id(r.object.sha)
        &&& source == SourceView {
            channel: "nightly"@,
            ref_name: "refs/heads/main"@,
            ref_object_oid: r.object.sha,
            commit_oid: r.object.sha,
            version: "0.0.0"@,
            release_url: None,
        }
    }
}

/// The nightly follows the one that was trusted before, or it does not have to.
pub open spec fn may_follow(
    replies: RepliesView,
    previous: Option<SourceView>,
    accept_force_push: bool,
    commit: Seq<char>,
) -> bool {
    accept_force_push || match previous {
        None => true,
        Some(p) => p.channel != "nightly"@ || p.commit_oid == commit || comparison_reply(
            replies.comparisons,
            p.commit_oid,
            commit,
            "ahead"@,
        ),
    }
}

/// A nightly is resolved exactly where `main` is known to be a commit that may follow, and then
/// it is that commit.
pub proof fn nightlies_resolve_to_main(
    replies: RepliesView,
    previous: Option<SourceView>,
    accept_retag: bool,
    accept_force_push: bool,
    source: SourceView,
)
    ensures
        resolution(replies, Branch::Nightly, previous, accept_retag, accept_force_push)
            == StepView::Done(source) <==> is_nightly(replies, source) && may_follow(
            replies,
            previous,
            accept_force_push,
            source.commit_oid,
        ),
{
    if let Some(r) = replies.main {
        if let Some(p) = previous {
            lemma_comparison_reply(replies.comparisons, p.commit_oid, r.object.sha);
            if comparison_reply(replies.comparisons, p.commit_oid, r.object.sha, "ahead"@) {
                lemma_known_comparison(
                    replies.comparisons,
                    p.commit_oid,
                    r.object.sha,
                    "ahead"@,
                );
            }
        }
    }
}

proof fn lemma_skips_unpublished(
    replies: RepliesView,
    branch: Branch,
    list: Seq<CandidateView>,
    n: int,
)
    requires
        0 <= n <= list.len(),
        forall|h: int|
            0 <= h < n ==> is_unpublished(replies.releases, (#[trigger] list[h]).tag_name),
    ensures
        first_published(replies, branch, list) == first_published(replies, branch, list.skip(n)),
    decreases n,
{
    if n == 0 {
        assert(list.skip(0) =~= list);
    } else {
        let rest = list.drop_first();
        assert(is_unpublished(replies.releases, list[0].tag_name));
        if release_reply(replies.releases, list[0].tag_name, None) {
            lemma_known_release(replies.releases, list[0].tag_name, None);
        } else {
            let release = choose|release: ReleaseView| #[trigger]
                release_reply(replies.releases, list[0].tag_name, Some(release))
                    && release.tag_name == list[0].tag_name && (release.draft
                    || release.published_at is None);
            lemma_known_release(replies.releases, list[0].tag_name, Some(release));
        }
        assert forall|h: int| 0 <= h < n - 1 implies is_unpublished(
            replies.releases,
            (#[trigger] rest[h]).tag_name,
        ) by {
            assert(rest[h] == list[h + 1]);
        }
        lemma_skips_unpublished(replies, branch, rest, n - 1);
        assert(rest.skip(n - 1) =~= list.skip(n));
    }
}

/// The first candidate that is not known to be unpublished decides. With a published release
/// and a sound chain of tags it is resolved to the commit at the chain's end; while its release
/// is unknown, that is asked for.
pub proof fn the_first_published_candidate_is_resolved(
    replies: RepliesView,
    branch: Branch,
    previous: Option<SourceView>,
    accept_retag: bool,
    accept_force_push: bool,
    n: int,
    chain: Seq<ObjectView>,
    release: ReleaseView,
)
    requires
        branch != Branch::Nightly,
        previous is None || accept_retag,
        replies.refs is Some,
        release_order(branch, replies.refs->0) is Ok,
        ({
            let list = release_order(branch, replies.refs->0)->Ok_0;
            &&& 0 <= n < list.len()
            &&& forall|h: int|
                0 <= h < n ==> is_unpublished(replies.releases, (#[trigger] list[h]).tag_name)
        }),
    ensures
        ({
            let c = release_order(branch, replies.refs->0)->Ok_0[n];
            let step = resolution(replies, branch, previous, accept_retag, accept_force_push);
            &&& release_reply(replies.releases, c.tag_name, Some(release)) && is_published(
                branch == Branch::Alpha,
                c.tag_name,
                release,
            ) && is_sound_chain(replies.tags, chain, c.tag_name) && chain[0] == c.object
                ==> step == StepView::Done(
                SourceView {
                    channel: (if branch == Branch::Stable {
                        "stable"@
                    } else {
                        "alpha"@
                    }),
                    ref_name: c.ref_name,
                    ref_object_oid: c.object.sha,
                    commit_oid: chain.last().sha,
                    version: c.version,
                    release_url: Some(release.html_url),
                },
            )
            &&& (forall|t: int|
                0 <= t < replies.releases.len() ==> (#[trigger] replies.releases[t]).0
                    != c.tag_name) ==> step == StepView::<SourceView>::Ask(
                QuestionView::Release(c.tag_name),
            )
        }),
{
    reveal_strlit("stable");
    reveal_strlit("alpha");
    reveal_strlit("nightly");
    assert("stable"@.len() == 6 && "alpha"@.len() == 5 && "nightly"@.len() == 7);
    let list = release_order(branch, replies.refs->0)->Ok_0;
    let c = list[n];
    lemma_skips_unpublished(replies, branch, list, n);
    let rest = list.skip(n);
    assert(rest[0] == c);
    lemma_release_reply(replies.releases, c.tag_name);
    if release_reply(replies.releases, c.tag_name, Some(release)) && is_published(
        branch == Branch::Alpha,
        c.tag_name,
        release,
    ) && is_sound_chain(replies.tags, chain, c.tag_name) && chain[0] == c.object {
        lemma_known_release(replies.releases, c.tag_name, Some(release));
        assert(is_object_id(chain[0].sha));
        lemma_sound_chain_peels(replies, c.tag_name, chain, 0, Seq::empty());
        candidates_are_the_tags_of_the_channel(branch, replies.refs->0);
    }
    if forall|t: int|
        0 <= t < replies.releases.len() ==> (#[trigger] replies.releases[t]).0 != c.tag_name {
        if let Some(found) = known_release(replies.releases, c.tag_name) {
            let t = choose|t: int|
                0 <= t < replies.releases.len() && #[trigger] replies.releases[t] == (
                    c.tag_name,
                    found,
                ) && forall|u: int| 0 <= u < t ==> (#[trigger] replies.releases[u]).0 != c.tag_name;
            assert(replies.releases[t].0 == c.tag_name);
        }
    }
}

/// Nothing is resolved before it is asked for: the refs of a release channel, `main` of the
/// nightlies.
pub proof fn resolving_starts_with_the_refs(
    replies: RepliesView,
    branch: Branch,
    previous: Option<SourceView>,
    accept_retag: bool,
    accept_force_push: bool,
)
    ensures
        branch != Branch::Nightly && replies.refs is None ==> resolution(
            replies,
            branch,
            previous,
            accept_retag,
            accept_force_push,
        ) == StepView::<SourceView>::Ask(QuestionView::Refs),
        branch == Branch::Nightly && replies.main is None ==> resolution(
            replies,
            branch,
            previous,
            accept_retag,
            accept_force_push,
        ) == StepView::<SourceView>::Ask(QuestionView::Main),
{
}

/// Consent only ever allows more: what is resolved without it is resolved with it, to the same
/// source.
pub proof fn consent_changes_no_resolved_source(
    replies: RepliesView,
    branch: Branch,
    previous: Option<SourceView>,
    source: SourceView,
)
    requires
        resolution(replies, branch, previous, false, false) == StepView::Done(source),
    ensures
        resolution(replies, branch, previous, true, false) == StepView::Done(source),
        resolution(replies, branch, previous, false, true) == StepView::Done(source),
        resolution(replies, branch, previous, true, true) == StepView::Done(source),
        resolution(replies, branch, None, false, false) == StepView::Done(source),
{
}

/// A trusted release that has not been touched: its tag is still there with its objects, and
/// its release is published.
pub open spec fn is_unchanged(replies: RepliesView, branch: Branch, p: SourceView) -> bool {
    names_commit(replies, p.ref_name, p.ref_object_oid, p.commit_oid) && p.ref_name
        == "refs/tags/rust-v"@ + p.version && has_release(replies, branch, p.version, None)
}

proof fn lemma_ref_named(refs: Seq<RefView>, name: Seq<char>)
    ensures
        ref_named(refs, name) matches Some(r) ==> r.ref_name == name && refs.contains(r),
        ref_named(refs, name) is None ==> forall|k: int|
            0 <= k < refs.len() ==> (#[trigger] refs[k]).ref_name != name,
    decreases refs.len(),
{
    if refs.len() > 0 {
        if refs[0].ref_name == name {
            assert(refs.contains(refs[0]));
        } else {
            let rest = refs.drop_first();
            lemma_ref_named(rest, name);
            if let Some(r) = ref_named(rest, name) {
                let k = choose|k: int| 0 <= k < rest.len() && rest[k] == r;
                assert(refs[k + 1] == r);
            } else {
                assert forall|k: int| 0 <= k < refs.len() implies (#[trigger] refs[k]).ref_name
                    != name by {
                    if k > 0 {
                        assert(refs[k] == rest[k - 1]);
                    }
                }
            }
        }
    }
}

/// Without consent nothing is resolved once the trusted release of the channel was retagged,
/// unpublished or deleted; nor is an older version, or the same tag with other objects.
pub proof fn trusted_releases_are_unchanged(
    replies: RepliesView,
    branch: Branch,
    previous: SourceView,
    accept_force_push: bool,
    source: SourceView,
)
    requires
        branch != Branch::Nightly,
        previous.channel == (if branch == Branch::Stable {
            "stable"@
        } else {
            "alpha"@
        }),
        resolution(replies, branch, Some(previous), false, accept_force_push) == StepView::Done(
            source,
        ),
    ensures
        is_unchanged(replies, branch, previous),
        !semver_before(source.version, previous.version),
        source.ref_name == previous.ref_name ==> source.ref_object_oid == previous.ref_object_oid
            && source.commit_oid == previous.commit_oid,
{
    let refs = replies.refs->0;
    lemma_ref_named(refs, previous.ref_name);
    let r = ref_named(refs, previous.ref_name)->0;
    let k = choose|k: int| 0 <= k < refs.len() && refs[k] == r;
    let name = tag_name_of(r.ref_name);
    lemma_tag_names(r.ref_name);
    lemma_peeled_leads(replies, name, r.object, 0, Seq::empty());
    lemma_release_reply(replies.releases, name);
    let release = known_release(replies.releases, name)->0->0;
    assert(refs[k].ref_name == previous.ref_name);
    assert(release_reply(replies.releases, "rust-v"@ + previous.version, Some(release)));
    releases_resolve_to_their_commit(
        replies,
        branch,
        Some(previous),
        false,
        accept_force_push,
        source,
    );
}

/// A release that was just resolved is resolved again, without consent, while GitHub's replies
/// stay the same. No version comes before itself.
pub proof fn resolved_releases_resolve_again(
    replies: RepliesView,
    branch: Branch,
    source: SourceView,
)
    requires
        branch != Branch::Nightly,
        resolution(replies, branch, None, false, false) == StepView::Done(source),
        !semver_before(source.version, source.version),
    ensures
        resolution(replies, branch, Some(source), false, false) == StepView::Done(source),
{
    let refs = replies.refs->0;
    let list = release_order(branch, refs)->Ok_0;
    lemma_ordered(branch, refs);
    let i = lemma_picked(replies, branch, list, source);
    assert(comes_from(list[i], branch, refs));
    lemma_ref_named(refs, source.ref_name);
    let own = RefView { ref_name: list[i].ref_name, object: list[i].object };
    let k = choose|k: int| 0 <= k < refs.len() && refs[k] == own;
    assert(refs[k].ref_name == source.ref_name);
    let r = ref_named(refs, source.ref_name)->0;
    lemma_one_object(branch, refs, r, own);
    candidates_are_the_tags_of_the_channel(branch, refs);
    lemma_channel_ref(branch, source.version);
}

/// Refs of one name that were accepted have one object.
proof fn lemma_one_object(branch: Branch, refs: Seq<RefView>, a: RefView, b: RefView)
    requires
        selected(branch, refs) is Ok,
        refs.contains(a),
        refs.contains(b),
        a.ref_name == b.ref_name,
        channel_version(branch, a.ref_name) is Some,
    ensures
        a.object == b.object,
    decreases refs.len(),
{
    let init = refs.drop_last();
    let last = refs.last();
    let i = choose|i: int| 0 <= i < refs.len() && refs[i] == a;
    let j = choose|j: int| 0 <= j < refs.len() && refs[j] == b;
    lemma_selected(branch, init);
    let before = selected(branch, init)->Ok_0;
    if i < init.len() && j < init.len() {
        assert(init[i] == a && init[j] == b);
        lemma_one_object(branch, init, a, b);
    } else if i < init.len() || j < init.len() {
        let h = if i < init.len() {
            i
        } else {
            j
        };
        let other = init[h];
        assert(other == refs[h]);
        assert(is_found(before, init[h]));
        let c = choose|c: int|
            0 <= c < before.len() && (#[trigger] before[c]).ref_name == init[h].ref_name
                && before[c].object == init[h].object;
        lemma_found_by_name(before, c, last.ref_name);
        lemma_named(before, last.ref_name);
        let found = candidate_named(before, last.ref_name)->0;
        let d = choose|d: int|
            0 <= d < before.len() && #[trigger] before[d] == found && found.ref_name
                == last.ref_name;
        assert(comes_from(before[d], branch, init));
        let own = RefView { ref_name: found.ref_name, object: found.object };
        assert(init.contains(own) && init.contains(init[h]));
        lemma_one_object(branch, init, own, init[h]);
    }
}

proof fn lemma_found_by_name(found: Seq<CandidateView>, c: int, name: Seq<char>)
    requires
        0 <= c < found.len(),
        found[c].ref_name == name,
    ensures
        candidate_named(found, name) is Some,
    decreases found.len(),
{
    if found[0].ref_name != name {
        assert(found.drop_first()[c - 1] == found[c]);
        lemma_found_by_name(found.drop_first(), c - 1, name);
    }
}

} // verus!
