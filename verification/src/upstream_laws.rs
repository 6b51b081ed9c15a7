//! What a resolved source is known to have passed.

use vstd::prelude::*;

use crate::config::{branch_name, Branch};
use crate::outside::semver_before;
use crate::types::SourceView;
use crate::upstream::{
    first_published, known_comparison, known_release, peeled, published, ref_named, release_order,
    candidate_named, candidate_order, channel_version, insert_candidate, newest_throughout,
    resolution, selected, tag_name_of, valid_oid, CandidateView, QuestionView, RefView, RepliesView,
    StepView,
};

verus! {

/// A published, non-draft release of the source's own tag, of the channel's kind.
pub open spec fn has_published_release(
    replies: RepliesView,
    branch: Branch,
    source: SourceView,
) -> bool {
    known_release(replies.releases, tag_name_of(source.ref_name)) matches Some(Some(release))
        && release.tag_name == tag_name_of(source.ref_name) && !release.draft
        && release.published_at is Some && release.prerelease == (branch == Branch::Alpha)
        && source.release_url == Some(release.html_url)
}

pub open spec fn named_by_ref(v: Seq<CandidateView>) -> bool {
    forall|i: int| 0 <= i < v.len() ==> (#[trigger] v[i]).tag_name == tag_name_of(v[i].ref_name)
}

proof fn lemma_first_published(
    replies: RepliesView,
    branch: Branch,
    candidates: Seq<CandidateView>,
)
    requires
        named_by_ref(candidates),
    ensures
        first_published(replies, branch, candidates) matches StepView::Done(source) ==> {
            &&& has_published_release(replies, branch, source)
            &&& source.channel == branch_name(branch)
            &&& valid_oid(source.ref_object_oid)
        },
    decreases candidates.len(),
{
    if candidates.len() > 0 {
        let rest = candidates.drop_first();
        assert forall|i: int| 0 <= i < rest.len() implies (#[trigger] rest[i]).tag_name
            == tag_name_of(rest[i].ref_name) by {
            assert(rest[i] == candidates[i + 1]);
        }
        lemma_first_published(replies, branch, rest);
        assert(candidates[0].tag_name == tag_name_of(candidates[0].ref_name));
    }
}

proof fn lemma_order_names(branch: Branch, refs: Seq<RefView>)
    ensures
        release_order(branch, refs) matches Ok(v) ==> named_by_ref(v),
{
    if branch != Branch::Nightly {
        if let Ok(found) = crate::upstream::selected(branch, refs) {
            lemma_selected_names(branch, refs);
            lemma_candidate_order_names(found);
        }
    }
}

proof fn lemma_selected_names(branch: Branch, refs: Seq<RefView>)
    ensures
        crate::upstream::selected(branch, refs) matches Ok(v) ==> named_by_ref(v),
    decreases refs.len(),
{
    if refs.len() > 0 {
        lemma_selected_names(branch, refs.drop_last());
    }
}

proof fn lemma_insert_names(v: Seq<CandidateView>, x: CandidateView)
    requires
        named_by_ref(v),
        x.tag_name == tag_name_of(x.ref_name),
    ensures
        named_by_ref(crate::upstream::insert_candidate(v, x)),
    decreases v.len(),
{
    if v.len() > 0 && crate::upstream::goes_before(x, v.last()) {
        let u = v.drop_last();
        assert forall|i: int| 0 <= i < u.len() implies (#[trigger] u[i]).tag_name == tag_name_of(
            u[i].ref_name,
        ) by {
            assert(u[i] == v[i]);
        }
        lemma_insert_names(u, x);
        assert(v[v.len() - 1] == v.last());
    }
}

proof fn lemma_candidate_order_names(v: Seq<CandidateView>)
    requires
        named_by_ref(v),
    ensures
        named_by_ref(crate::upstream::candidate_order(v)),
    decreases v.len(),
{
    if v.len() > 0 {
        let u = v.drop_last();
        assert forall|i: int| 0 <= i < u.len() implies (#[trigger] u[i]).tag_name == tag_name_of(
            u[i].ref_name,
        ) by {
            assert(u[i] == v[i]);
        }
        lemma_candidate_order_names(u);
        assert(v[v.len() - 1] == v.last());
        lemma_insert_names(crate::upstream::candidate_order(u), v.last());
    }
}

/// A stable or alpha source always has a published, non-draft GitHub Release, and belongs
/// to the channel that was asked for.
pub proof fn resolved_releases_are_published(
    replies: RepliesView,
    branch: Branch,
    previous: Option<SourceView>,
    accept_retag: bool,
    accept_force_push: bool,
    source: SourceView,
)
    requires
        resolution(replies, branch, previous, accept_retag, accept_force_push) == StepView::Done(
            source,
        ),
    ensures
        source.channel == branch_name(branch),
        branch != Branch::Nightly ==> has_published_release(replies, branch, source),
{
    if branch != Branch::Nightly {
        let refs = replies.refs->0;
        lemma_order_names(branch, refs);
        lemma_first_published(replies, branch, release_order(branch, refs)->Ok_0);
    }
}

/// One version comes after another.
pub open spec fn newer_than(a: Seq<char>, b: Seq<char>) -> bool {
    a != b && semver_before(b, a)
}

/// A tag that is known to have no release, or one that is not published.
pub open spec fn known_unpublished(
    replies: RepliesView,
    branch: Branch,
    tag_name: Seq<char>,
) -> bool {
    match known_release(replies.releases, tag_name) {
        None => false,
        Some(None) => true,
        Some(Some(release)) => published(branch, tag_name, release) == Ok::<bool, Seq<char>>(false),
    }
}

/// Every tag of the channel that is newer than `version` is known to be unpublished.
pub open spec fn newest_published(
    replies: RepliesView,
    branch: Branch,
    version: Seq<char>,
) -> bool {
    replies.refs matches Some(refs) && forall|k: int|
        0 <= k < refs.len() ==> (channel_version(
            branch,
            (#[trigger] refs[k]).ref_name,
        ) matches Some(
            newer,
        ) ==> newer_than(newer, version) ==> known_unpublished(
            replies,
            branch,
            tag_name_of(refs[k].ref_name),
        ))
}

/// Some candidate stands for the ref.
pub open spec fn stands_for(v: Seq<CandidateView>, branch: Branch, ref_name: Seq<char>) -> bool {
    exists|i: int|
        0 <= i < v.len() && (#[trigger] v[i]).ref_name == ref_name && v[i].tag_name == tag_name_of(
            ref_name,
        ) && Some(v[i].version) == channel_version(branch, ref_name)
}

/// The candidates carry what their ref names say.
pub open spec fn true_to_refs(v: Seq<CandidateView>, branch: Branch) -> bool {
    forall|i: int|
        0 <= i < v.len() ==> (#[trigger] v[i]).tag_name == tag_name_of(v[i].ref_name) && Some(
            v[i].version,
        ) == channel_version(branch, v[i].ref_name)
}

proof fn lemma_named_candidate(found: Seq<CandidateView>, ref_name: Seq<char>)
    requires
        candidate_named(found, ref_name) is Some,
    ensures
        exists|i: int| 0 <= i < found.len() && (#[trigger] found[i]).ref_name == ref_name,
    decreases found.len(),
{
    if found[0].ref_name != ref_name {
        let rest = found.drop_first();
        lemma_named_candidate(rest, ref_name);
        let i = choose|i: int| 0 <= i < rest.len() && (#[trigger] rest[i]).ref_name == ref_name;
        assert(found[i + 1] == rest[i]);
    }
}

proof fn lemma_selected_stands(branch: Branch, refs: Seq<RefView>)
    requires
        selected(branch, refs) is Ok,
    ensures
        true_to_refs(selected(branch, refs)->Ok_0, branch),
        forall|k: int|
            0 <= k < refs.len() && channel_version(branch, (#[trigger] refs[k]).ref_name) is Some
                ==> stands_for(selected(branch, refs)->Ok_0, branch, refs[k].ref_name),
    decreases refs.len(),
{
    if refs.len() > 0 {
        let before = selected(branch, refs.drop_last())->Ok_0;
        let after = selected(branch, refs)->Ok_0;
        lemma_selected_stands(branch, refs.drop_last());
        if candidate_named(before, refs.last().ref_name) is Some {
            lemma_named_candidate(before, refs.last().ref_name);
        }
        assert forall|k: int|
            0 <= k < refs.len() && channel_version(
                branch,
                (#[trigger] refs[k]).ref_name,
            ) is Some implies stands_for(after, branch, refs[k].ref_name) by {
            if k < refs.len() - 1 {
                assert(refs.drop_last()[k] == refs[k]);
                let i = choose|i: int|
                    0 <= i < before.len() && (#[trigger] before[i]).ref_name == refs[k].ref_name
                        && before[i].tag_name == tag_name_of(refs[k].ref_name) && Some(
                        before[i].version,
                    ) == channel_version(branch, refs[k].ref_name);
                assert(after[i] == before[i]);
            } else if candidate_named(before, refs[k].ref_name) is Some {
                let i = choose|i: int|
                    0 <= i < before.len() && (#[trigger] before[i]).ref_name == refs[k].ref_name;
                assert(after[i] == before[i]);
            } else {
                assert(after[after.len() - 1].ref_name == refs[k].ref_name);
            }
        }
    }
}

proof fn lemma_insertion_keeps(v: Seq<CandidateView>, x: CandidateView)
    ensures
        insert_candidate(v, x).to_multiset() =~= v.to_multiset().insert(x),
    decreases v.len(),
{
    broadcast use vstd::seq_lib::group_to_multiset_ensures;

    if v.len() > 0 {
        assert(v.drop_last().push(v.last()) =~= v);
        lemma_insertion_keeps(v.drop_last(), x);
    }
}

proof fn lemma_order_keeps(v: Seq<CandidateView>)
    ensures
        candidate_order(v).to_multiset() =~= v.to_multiset(),
    decreases v.len(),
{
    broadcast use vstd::seq_lib::group_to_multiset_ensures;

    if v.len() > 0 {
        assert(v.drop_last().push(v.last()) =~= v);
        lemma_order_keeps(v.drop_last());
        lemma_insertion_keeps(candidate_order(v.drop_last()), v.last());
    }
}

/// The candidates of a channel are exactly its selected tags, in another order.
pub proof fn ordering_keeps_the_candidates(v: Seq<CandidateView>)
    ensures
        candidate_order(v).len() == v.len(),
        candidate_order(v).to_multiset() == v.to_multiset(),
{
    broadcast use vstd::seq_lib::group_to_multiset_ensures;

    lemma_order_keeps(v);
    assert(candidate_order(v).to_multiset().len() == v.to_multiset().len());
}

proof fn lemma_published_is_newest(
    replies: RepliesView,
    branch: Branch,
    candidates: Seq<CandidateView>,
)
    requires
        newest_throughout(candidates),
    ensures
        first_published(replies, branch, candidates) matches StepView::Done(source) ==> forall|
            i: int,
        |
            0 <= i < candidates.len() && newer_than(
                (#[trigger] candidates[i]).version,
                source.version,
            ) ==> known_unpublished(replies, branch, candidates[i].tag_name),
    decreases candidates.len(),
{
    if candidates.len() > 0 {
        let rest = candidates.drop_first();
        assert forall|i: int, j: int| 0 <= i < j < rest.len() implies !semver_before(
            #[trigger] rest[i].version,
            #[trigger] rest[j].version,
        ) by {
            assert(rest[i] == candidates[i + 1] && rest[j] == candidates[j + 1]);
        }
        lemma_published_is_newest(replies, branch, rest);
        if let StepView::Done(source) = first_published(replies, branch, candidates) {
            assert forall|i: int|
                0 <= i < candidates.len() && newer_than(
                    (#[trigger] candidates[i]).version,
                    source.version,
                ) implies known_unpublished(replies, branch, candidates[i].tag_name) by {
                if i > 0 {
                    assert(candidates[i] == rest[i - 1]);
                }
            }
        }
    }
}

/// A stable or alpha source is the newest published release of its channel: every tag of the
/// channel with a greater version is known to be unpublished. The candidates stand in the
/// order that `release_candidates` gives them.
pub proof fn resolved_releases_are_the_newest(
    replies: RepliesView,
    branch: Branch,
    previous: Option<SourceView>,
    accept_retag: bool,
    accept_force_push: bool,
    source: SourceView,
)
    requires
        branch != Branch::Nightly,
        resolution(replies, branch, previous, accept_retag, accept_force_push) == StepView::Done(
            source,
        ),
        newest_throughout(release_order(branch, replies.refs->0)->Ok_0),
    ensures
        newest_published(replies, branch, source.version),
{
    broadcast use vstd::seq_lib::group_to_multiset_ensures;

    let refs = replies.refs->0;
    let found = selected(branch, refs)->Ok_0;
    let candidates = candidate_order(found);
    lemma_selected_stands(branch, refs);
    lemma_order_keeps(found);
    lemma_published_is_newest(replies, branch, candidates);
    assert forall|k: int| 0 <= k < refs.len() implies (channel_version(
        branch,
        (#[trigger] refs[k]).ref_name,
    ) matches Some(newer) ==> newer_than(newer, source.version) ==> known_unpublished(
        replies,
        branch,
        tag_name_of(refs[k].ref_name),
    )) by {
        let name = refs[k].ref_name;
        if channel_version(branch, name) is Some && newer_than(
            channel_version(branch, name)->0,
            source.version,
        ) {
            assert(stands_for(found, branch, name));
            let i = choose|i: int|
                0 <= i < found.len() && (#[trigger] found[i]).ref_name == name && found[i].tag_name
                    == tag_name_of(name) && Some(found[i].version) == channel_version(branch, name);
            assert(found.contains(found[i]));
            assert(found.to_multiset().count(found[i]) > 0);
            assert(candidates.contains(found[i]));
            let j = choose|j: int| 0 <= j < candidates.len() && candidates[j] == found[i];
            assert(candidates[j].tag_name == tag_name_of(name));
        }
    }
}

/// The trusted release is still what it was: its tag names the same objects, and its
/// release is published.
pub open spec fn still_trusted(replies: RepliesView, branch: Branch, p: SourceView) -> bool {
    replies.refs matches Some(refs) && ref_named(refs, p.ref_name) matches Some(r) && {
        &&& r.object.sha == p.ref_object_oid
        &&& peeled(replies, tag_name_of(r.ref_name), r.object, 0, Seq::empty()) == StepView::Done(
            p.commit_oid,
        )
        &&& known_release(replies.releases, tag_name_of(r.ref_name)) matches Some(Some(release))
        && published(branch, tag_name_of(r.ref_name), release) == Ok::<bool, Seq<char>>(true)
    }
}

/// Without the user's acceptance no release source is used once the trusted release has
/// been retagged, unpublished or deleted, and none that is older than the trusted one.
pub proof fn releases_need_acceptance_to_regress(
    replies: RepliesView,
    branch: Branch,
    previous: SourceView,
    accept_force_push: bool,
    source: SourceView,
)
    requires
        branch != Branch::Nightly,
        previous.channel == branch_name(branch),
        resolution(replies, branch, Some(previous), false, accept_force_push) == StepView::Done(
            source,
        ),
    ensures
        still_trusted(replies, branch, previous),
        !semver_before(source.version, previous.version),
        source.ref_name == previous.ref_name ==> source.ref_object_oid == previous.ref_object_oid
            && source.commit_oid == previous.commit_oid,
{
    resolved_releases_are_published(
        replies,
        branch,
        Some(previous),
        false,
        accept_force_push,
        source,
    );
}

/// Without the user's acceptance `main` is only followed forward.
pub proof fn nightlies_need_acceptance_to_diverge(
    replies: RepliesView,
    previous: SourceView,
    accept_retag: bool,
    source: SourceView,
)
    requires
        previous.channel == branch_name(Branch::Nightly),
        resolution(replies, Branch::Nightly, Some(previous), accept_retag, false)
            == StepView::Done(source),
    ensures
        source.commit_oid == previous.commit_oid || known_comparison(
            replies.comparisons,
            previous.commit_oid,
            source.commit_oid,
        ) == Some("ahead"@),
{
    resolved_releases_are_published(
        replies,
        Branch::Nightly,
        Some(previous),
        accept_retag,
        false,
        source,
    );
}

pub open spec fn answered(replies: RepliesView, q: QuestionView) -> bool {
    match q {
        QuestionView::Refs => replies.refs is Some,
        QuestionView::Main => replies.main is Some,
        QuestionView::Release(tag) => known_release(replies.releases, tag) is Some,
        QuestionView::Tag(sha) => crate::upstream::known_tag(replies.tags, sha) is Some,
        QuestionView::Compare(a, b) => known_comparison(replies.comparisons, a, b) is Some,
    }
}

proof fn lemma_peel_asks_news(
    replies: RepliesView,
    tag_name: Seq<char>,
    object: crate::upstream::ObjectView,
    depth: nat,
    visited: Seq<Seq<char>>,
)
    ensures
        peeled(replies, tag_name, object, depth, visited) matches StepView::Ask(q) ==> !answered(
            replies,
            q,
        ),
    decreases crate::upstream::MAX_TAG_DEPTH - depth,
{
    if depth < crate::upstream::MAX_TAG_DEPTH {
        if let Some(tag) = crate::upstream::known_tag(replies.tags, object.sha) {
            lemma_peel_asks_news(
                replies,
                tag_name,
                tag.object,
                depth + 1,
                visited.push(object.sha),
            );
        }
    }
}

proof fn lemma_publication_asks_news(
    replies: RepliesView,
    branch: Branch,
    candidates: Seq<CandidateView>,
)
    ensures
        first_published(replies, branch, candidates) matches StepView::Ask(q) ==> !answered(
            replies,
            q,
        ),
    decreases candidates.len(),
{
    if candidates.len() > 0 {
        lemma_publication_asks_news(replies, branch, candidates.drop_first());
        lemma_peel_asks_news(
            replies,
            candidates[0].tag_name,
            candidates[0].object,
            0,
            Seq::empty(),
        );
    }
}

/// Upstream is never asked a question whose answer is already known.
pub proof fn questions_are_asked_once(
    replies: RepliesView,
    branch: Branch,
    previous: Option<SourceView>,
    accept_retag: bool,
    accept_force_push: bool,
    q: QuestionView,
)
    requires
        resolution(replies, branch, previous, accept_retag, accept_force_push) == StepView::<
            SourceView,
        >::Ask(q),
    ensures
        !answered(replies, q),
{
    if let Some(p) = previous {
        if let Some(refs) = replies.refs {
            if let Some(r) = ref_named(refs, p.ref_name) {
                lemma_peel_asks_news(
                    replies,
                    tag_name_of(r.ref_name),
                    r.object,
                    0,
                    Seq::empty(),
                );
            }
        }
    }
    if let Some(refs) = replies.refs {
        if let Ok(candidates) = release_order(branch, refs) {
            lemma_publication_asks_news(replies, branch, candidates);
        }
    }
}

} // verus!
