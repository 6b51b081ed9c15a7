//! Resolve the source revision for the configured Codex release channel.
//!
//! Git refs alone are not a sufficient publication signal: the release workflow
//! creates a tag before all release work has completed. Stable and alpha
//! therefore select only canonical `rust-v*` tags that also have a published,
//! non-draft GitHub Release.
//!
//! Resolution is a function of the replies that are known so far: it either
//! names the next question, or it ends.

use vstd::prelude::*;

use crate::config::{branch_name, Branch};
use crate::outside::{
    parse_version, quoted, quoted_text, semver_before, semver_parse, version_before,
};
use crate::patchset::{text_is_less, text_less};
use crate::text::{
    chars_of, decimal, decimal_text, first_index, is_ascii_letter, is_digit, is_digit_char,
    is_hex_char, is_hex_digit, is_letter_char, opt_text, result_unit, same, split_on, split_text,
    strip_prefix, text_between, texts,
};
use crate::types::{ResolvedSource, SourceView, Timestamp};
use crate::upstream_laws::{newest_published, resolved_releases_are_the_newest};

verus! {

pub const CACHE_SCHEMA: u32 = 1;

pub const FALLBACK_POLL_FLOOR_SECONDS: u64 = 300;

pub const MAX_TAG_DEPTH: usize = 8;

pub const DEFAULT_API_BASE: &'static str = "https://api.github.com/repos/openai/codex";

/// The Git repository that sources are fetched from.
pub const UPSTREAM_REPOSITORY: &'static str = "https://github.com/openai/codex.git";

/// Network and trust-policy controls for [`resolve`].
#[derive(Debug)]
pub struct ResolveOptions {
    /// Bypass the local 300-second fallback cache. An explicit polling floor
    /// advertised by GitHub is still obeyed.
    pub force: bool,
    /// Permit an existing release tag to resolve to a different Git object.
    pub accept_retag: bool,
    /// Permit `main` to move to a commit that is not a fast-forward from the
    /// last activated nightly generation.
    pub accept_force_push: bool,
    /// Repository-scoped GitHub API base. Overridable for deterministic tests.
    pub api_base: String,
    /// Optional GitHub token. If absent, `GITHUB_TOKEN` and then `GH_TOKEN` are
    /// consulted.
    pub token: Option<String>,
    /// Upper bound on the time spent on the network, in seconds.
    pub network_budget: Option<u64>,
    /// Answer from an expired cached response when GitHub cannot be reached.
    pub stale_if_unreachable: bool,
}

impl Default for ResolveOptions {
    fn default() -> (r: Self)
        ensures
            !r.force,
            !r.accept_retag,
            !r.accept_force_push,
            r.api_base@ == DEFAULT_API_BASE@,
            r.token is None,
            r.network_budget is None,
            !r.stale_if_unreachable,
    {
        ResolveOptions {
            force: false,
            accept_retag: false,
            accept_force_push: false,
            api_base: DEFAULT_API_BASE.to_owned(),
            token: None,
            network_budget: None,
            stale_if_unreachable: false,
        }
    }
}

#[derive(Debug)]
pub struct GitObject {
    pub sha: String,
    pub kind: String,
}

pub struct ObjectView {
    pub sha: Seq<char>,
    pub kind: Seq<char>,
}

impl View for GitObject {
    type V = ObjectView;

    open spec fn view(&self) -> ObjectView {
        ObjectView { sha: self.sha@, kind: self.kind@ }
    }
}

impl Clone for GitObject {
    fn clone(&self) -> (r: Self)
        ensures
            r@ == self@,
    {
        GitObject { sha: self.sha.clone(), kind: self.kind.clone() }
    }
}

#[derive(Debug)]
pub struct GitRef {
    pub ref_name: String,
    pub object: GitObject,
}

pub struct RefView {
    pub ref_name: Seq<char>,
    pub object: ObjectView,
}

impl View for GitRef {
    type V = RefView;

    open spec fn view(&self) -> RefView {
        RefView { ref_name: self.ref_name@, object: self.object@ }
    }
}

impl Clone for GitRef {
    fn clone(&self) -> (r: Self)
        ensures
            r@ == self@,
    {
        GitRef { ref_name: self.ref_name.clone(), object: self.object.clone() }
    }
}

/// An annotated tag object.
#[derive(Debug)]
pub struct GitTag {
    pub tag: String,
    pub object: GitObject,
}

pub struct TagView {
    pub tag: Seq<char>,
    pub object: ObjectView,
}

impl View for GitTag {
    type V = TagView;

    open spec fn view(&self) -> TagView {
        TagView { tag: self.tag@, object: self.object@ }
    }
}

#[derive(Debug)]
pub struct GitRelease {
    pub tag_name: String,
    pub draft: bool,
    pub prerelease: bool,
    pub published_at: Option<Timestamp>,
    pub html_url: String,
}

pub struct ReleaseView {
    pub tag_name: Seq<char>,
    pub draft: bool,
    pub prerelease: bool,
    pub published_at: Option<Timestamp>,
    pub html_url: Seq<char>,
}

impl View for GitRelease {
    type V = ReleaseView;

    open spec fn view(&self) -> ReleaseView {
        ReleaseView {
            tag_name: self.tag_name@,
            draft: self.draft,
            prerelease: self.prerelease,
            published_at: self.published_at,
            html_url: self.html_url@,
        }
    }
}

/// A release tag of the wanted channel.
#[derive(Debug)]
pub struct TagCandidate {
    pub ref_name: String,
    pub tag_name: String,
    pub version: String,
    pub object: GitObject,
}

pub struct CandidateView {
    pub ref_name: Seq<char>,
    pub tag_name: Seq<char>,
    pub version: Seq<char>,
    pub object: ObjectView,
}

impl View for TagCandidate {
    type V = CandidateView;

    open spec fn view(&self) -> CandidateView {
        CandidateView {
            ref_name: self.ref_name@,
            tag_name: self.tag_name@,
            version: self.version@,
            object: self.object@,
        }
    }
}

pub open spec fn refs_view(v: Seq<GitRef>) -> Seq<RefView> {
    v.map_values(|r: GitRef| r@)
}

pub open spec fn candidates_view(v: Seq<TagCandidate>) -> Seq<CandidateView> {
    v.map_values(|c: TagCandidate| c@)
}

pub open spec fn all_digits(s: Seq<char>) -> bool {
    s.len() > 0 && forall|i: int| 0 <= i < s.len() ==> is_digit(#[trigger] s[i])
}

pub open spec fn is_identifier(s: Seq<char>) -> bool {
    s.len() > 0 && forall|i: int|
        0 <= i < s.len() ==> is_digit(#[trigger] s[i]) || is_ascii_letter(s[i]) || s[i] == '-'
}

pub open spec fn every(list: Seq<Seq<char>>, p: spec_fn(Seq<char>) -> bool) -> bool {
    forall|i: int| 0 <= i < list.len() ==> p(#[trigger] list[i])
}

/// Three numbers with dots between them, and after a `-` dot-separated identifiers of
/// letters, digits and hyphens.
pub open spec fn canonical_version(v: Seq<char>) -> bool {
    let n = first_index(v, '-');
    let numbers = split_on(v.take(n), '.');
    &&& numbers.len() == 3
    &&& every(numbers, |s: Seq<char>| all_digits(s))
    &&& n < v.len() ==> every(split_on(v.skip(n + 1), '.'), |s: Seq<char>| is_identifier(s))
}

/// The version that a canonical release ref encodes.
pub open spec fn release_version(ref_name: Seq<char>) -> Option<Seq<char>> {
    let prefix = "refs/tags/rust-v"@;
    if prefix.is_prefix_of(ref_name) && canonical_version(ref_name.skip(prefix.len() as int)) {
        Some(ref_name.skip(prefix.len() as int))
    } else {
        None
    }
}

/// How a parsed version is written.
pub open spec fn version_text(v: (u64, u64, u64, Seq<char>, Seq<char>)) -> Seq<char> {
    let core = decimal(v.0 as nat) + "."@ + decimal(v.1 as nat) + "."@ + decimal(v.2 as nat);
    let pre = if v.3.len() > 0 {
        core + "-"@ + v.3
    } else {
        core
    };
    if v.4.len() > 0 {
        pre + "+"@ + v.4
    } else {
        pre
    }
}

/// The version of a ref that belongs to a release channel.
pub open spec fn channel_version(branch: Branch, ref_name: Seq<char>) -> Option<Seq<char>> {
    match release_version(ref_name) {
        None => None,
        Some(text) => match semver_parse(text) {
            Err(_) => None,
            Ok(v) => if version_text(v) == text && (branch == Branch::Stable) == (v.3.len()
                == 0) {
                Some(text)
            } else {
                None
            },
        },
    }
}

pub open spec fn candidate_named(found: Seq<CandidateView>, ref_name: Seq<char>) -> Option<
    CandidateView,
>
    decreases found.len(),
{
    if found.len() == 0 {
        None
    } else if found[0].ref_name == ref_name {
        Some(found[0])
    } else {
        candidate_named(found.drop_first(), ref_name)
    }
}

pub open spec fn tag_name_of(ref_name: Seq<char>) -> Seq<char> {
    ref_name.skip("refs/tags/"@.len() as int)
}

/// What one more ref does to the candidates.
pub open spec fn take_ref(branch: Branch, found: Seq<CandidateView>, r: RefView) -> Result<
    Seq<CandidateView>,
    Seq<char>,
> {
    match channel_version(branch, r.ref_name) {
        None => Ok(found),
        Some(version) => match candidate_named(found, r.ref_name) {
            Some(existing) => if existing.object == r.object {
                Ok(found)
            } else {
                Err("GitHub returned conflicting objects for ref "@ + quoted(r.ref_name))
            },
            None => Ok(
                found.push(
                    CandidateView {
                        ref_name: r.ref_name,
                        tag_name: tag_name_of(r.ref_name),
                        version,
                        object: r.object,
                    },
                ),
            ),
        },
    }
}

pub open spec fn selected(branch: Branch, refs: Seq<RefView>) -> Result<
    Seq<CandidateView>,
    Seq<char>,
>
    decreases refs.len(),
{
    if refs.len() == 0 {
        Ok(Seq::empty())
    } else {
        match selected(branch, refs.drop_last()) {
            Err(message) => Err(message),
            Ok(found) => take_ref(branch, found, refs.last()),
        }
    }
}

/// The newer version first, and of equal versions the smaller ref name.
pub open spec fn goes_before(a: CandidateView, b: CandidateView) -> bool {
    if semver_before(b.version, a.version) {
        true
    } else if semver_before(a.version, b.version) {
        false
    } else {
        text_less(a.ref_name, b.ref_name)
    }
}

pub open spec fn insert_candidate(v: Seq<CandidateView>, x: CandidateView) -> Seq<CandidateView>
    decreases v.len(),
{
    if v.len() == 0 || !goes_before(x, v.last()) {
        v.push(x)
    } else {
        insert_candidate(v.drop_last(), x).push(v.last())
    }
}

pub open spec fn candidate_order(v: Seq<CandidateView>) -> Seq<CandidateView>
    decreases v.len(),
{
    if v.len() == 0 {
        v
    } else {
        insert_candidate(candidate_order(v.drop_last()), v.last())
    }
}

/// The release tags of a channel, the newest first.
pub open spec fn release_order(branch: Branch, refs: Seq<RefView>) -> Result<
    Seq<CandidateView>,
    Seq<char>,
> {
    if branch == Branch::Nightly {
        Err("nightly does not use release tag candidates"@)
    } else {
        match selected(branch, refs) {
            Err(message) => Err(message),
            Ok(found) => Ok(candidate_order(found)),
        }
    }
}

pub open spec fn bool_text(b: bool) -> Seq<char> {
    if b {
        "true"@
    } else {
        "false"@
    }
}

fn bool_word(b: bool) -> (r: &'static str)
    ensures
        r@ == bool_text(b),
{
    if b {
        "true"
    } else {
        "false"
    }
}

/// A published release of the channel; drafts are not.
pub open spec fn published(branch: Branch, tag_name: Seq<char>, release: ReleaseView) -> Result<
    bool,
    Seq<char>,
> {
    if release.tag_name != tag_name {
        Err(
            "GitHub Release tag "@ + quoted(release.tag_name) + " does not match requested tag "@
                + quoted(tag_name),
        )
    } else if release.draft || release.published_at is None {
        Ok(false)
    } else if release.prerelease != (branch == Branch::Alpha) {
        Err(
            "published release "@ + quoted(tag_name) + " has prerelease="@ + bool_text(
                release.prerelease,
            ) + ", expected "@ + bool_text(branch == Branch::Alpha) + " for "@ + branch_name(branch)
                + " channel"@,
        )
    } else if release.html_url.len() == 0 {
        Err("published release "@ + quoted(tag_name) + " has no HTML URL"@)
    } else {
        Ok(true)
    }
}

/// A full Git object ID in hexadecimal.
pub open spec fn valid_oid(oid: Seq<char>) -> bool {
    (oid.len() == 40 || oid.len() == 64) && forall|i: int|
        0 <= i < oid.len() ==> is_hex_digit(#[trigger] oid[i])
}

pub open spec fn invalid_oid_message(oid: Seq<char>) -> Seq<char> {
    "invalid Git object ID "@ + quoted(oid)
}

pub open spec fn retag_check(
    branch: Branch,
    previous: Option<SourceView>,
    current: SourceView,
    accept_retag: bool,
) -> Result<(), Seq<char>> {
    match previous {
        Some(p) => if branch != Branch::Nightly && !accept_retag && p.channel == current.channel
            && p.ref_name == current.ref_name && (p.ref_object_oid != current.ref_object_oid
            || p.commit_oid != current.commit_oid) {
            Err(
                "release tag "@ + current.ref_name + " moved from "@ + p.ref_object_oid + "/"@
                    + p.commit_oid + " to "@ + current.ref_object_oid + "/"@ + current.commit_oid
                    + "; refusing retagged source without explicit acceptance"@,
            )
        } else {
            Ok(())
        },
        None => Ok(()),
    }
}

pub open spec fn regression_check(
    branch: Branch,
    previous: Option<SourceView>,
    current: SourceView,
    accept_retag: bool,
) -> Result<(), Seq<char>> {
    match previous {
        Some(p) => if branch == Branch::Nightly || accept_retag || p.channel != current.channel {
            Ok(())
        } else if let Err(cause) = semver_parse(p.version) {
            Err("stored source has invalid SemVer "@ + p.version + ": "@ + cause)
        } else if let Err(cause) = semver_parse(current.version) {
            Err("resolved source has invalid SemVer "@ + current.version + ": "@ + cause)
        } else if semver_before(current.version, p.version) {
            Err(
                "resolved "@ + current.channel + " release "@ + current.version
                    + " is older than the active release "@ + p.version
                    + "; refusing release deletion or downgrade"@,
            )
        } else {
            Ok(())
        },
        None => Ok(()),
    }
}

/// What upstream can be asked.
#[derive(Debug)]
pub enum Question {
    /// Every release tag.
    Refs,
    /// The branch `main`.
    Main,
    Release(String),
    Tag(String),
    Compare(String, String),
}

pub enum QuestionView {
    Refs,
    Main,
    Release(Seq<char>),
    Tag(Seq<char>),
    Compare(Seq<char>, Seq<char>),
}

impl View for Question {
    type V = QuestionView;

    open spec fn view(&self) -> QuestionView {
        match self {
            Question::Refs => QuestionView::Refs,
            Question::Main => QuestionView::Main,
            Question::Release(tag) => QuestionView::Release(tag@),
            Question::Tag(sha) => QuestionView::Tag(sha@),
            Question::Compare(a, b) => QuestionView::Compare(a@, b@),
        }
    }
}

/// The endpoint that answers a question.
pub open spec fn endpoint(q: QuestionView, api_base: Seq<char>) -> Seq<char> {
    match q {
        QuestionView::Refs => api_base + "/git/matching-refs/tags/rust-v"@,
        QuestionView::Main => api_base + "/git/ref/heads/main"@,
        QuestionView::Release(tag) => api_base + "/releases/tags/"@ + tag,
        QuestionView::Tag(sha) => api_base + "/git/tags/"@ + sha,
        QuestionView::Compare(a, b) => api_base + "/compare/"@ + a + "..."@ + b,
    }
}

impl Question {
    pub fn url(&self, api_base: &str) -> (r: String)
        ensures
            r@ == endpoint(self@, api_base@),
    {
        let mut url = api_base.to_owned();
        match self {
            Question::Refs => url.append("/git/matching-refs/tags/rust-v"),
            Question::Main => url.append("/git/ref/heads/main"),
            Question::Release(tag) => {
                url.append("/releases/tags/");
                url.append(tag.as_str());
            },
            Question::Tag(sha) => {
                url.append("/git/tags/");
                url.append(sha.as_str());
            },
            Question::Compare(a, b) => {
                url.append("/compare/");
                url.append(a.as_str());
                url.append("...");
                url.append(b.as_str());
            },
        }
        url
    }
}

/// What the status of a response makes of it.
#[derive(Debug, Clone, Copy, PartialEq, Eq, Structural)]
pub enum Answer {
    /// The body is the answer.
    Body,
    /// There is no such thing upstream.
    Absent,
    Unexpected,
}

/// Only a release may be missing; every other question is answered with 200.
pub open spec fn answer_of(question: QuestionView, status: u16) -> Answer {
    if status == 200 {
        Answer::Body
    } else if status == 404 && question is Release {
        Answer::Absent
    } else {
        Answer::Unexpected
    }
}

pub fn answer(question: &Question, status: u16) -> (r: Answer)
    ensures
        r == answer_of(question@, status),
{
    if status == 200 {
        return Answer::Body;
    }
    match question {
        Question::Release(_) => if status == 404 {
            Answer::Absent
        } else {
            Answer::Unexpected
        },
        _ => Answer::Unexpected,
    }
}

/// The reply to a question about one release: none when there is no such release.
#[derive(Debug)]
pub struct ReleaseReply {
    pub tag: String,
    pub release: Option<GitRelease>,
}

#[derive(Debug)]
pub struct TagReply {
    pub sha: String,
    pub tag: GitTag,
}

#[derive(Debug)]
pub struct CompareReply {
    pub base: String,
    pub head: String,
    pub status: String,
}

/// The replies that are known so far.
#[derive(Debug)]
pub struct Replies {
    pub refs: Option<Vec<GitRef>>,
    pub main: Option<GitRef>,
    pub releases: Vec<ReleaseReply>,
    pub tags: Vec<TagReply>,
    pub comparisons: Vec<CompareReply>,
}

pub struct RepliesView {
    pub refs: Option<Seq<RefView>>,
    pub main: Option<RefView>,
    pub releases: Seq<(Seq<char>, Option<ReleaseView>)>,
    pub tags: Seq<(Seq<char>, TagView)>,
    pub comparisons: Seq<(Seq<char>, Seq<char>, Seq<char>)>,
}

pub open spec fn release_reply(r: ReleaseReply) -> (Seq<char>, Option<ReleaseView>) {
    (
        r.tag@,
        match r.release {
            Some(x) => Some(x@),
            None => None,
        },
    )
}

impl View for Replies {
    type V = RepliesView;

    open spec fn view(&self) -> RepliesView {
        RepliesView {
            refs: match self.refs {
                Some(v) => Some(refs_view(v@)),
                None => None,
            },
            main: match self.main {
                Some(r) => Some(r@),
                None => None,
            },
            releases: self.releases@.map_values(|r: ReleaseReply| release_reply(r)),
            tags: self.tags@.map_values(|t: TagReply| (t.sha@, t.tag@)),
            comparisons: self.comparisons@.map_values(
                |c: CompareReply| (c.base@, c.head@, c.status@),
            ),
        }
    }
}

impl Replies {
    /// Nothing is known yet.
    pub fn none() -> (r: Self)
        ensures
            r@ == (RepliesView {
                refs: None,
                main: None,
                releases: Seq::empty(),
                tags: Seq::empty(),
                comparisons: Seq::empty(),
            }),
    {
        let r = Replies {
            refs: None,
            main: None,
            releases: Vec::new(),
            tags: Vec::new(),
            comparisons: Vec::new(),
        };
        proof {
            assert(r@.releases =~= Seq::empty());
            assert(r@.tags =~= Seq::empty());
            assert(r@.comparisons =~= Seq::empty());
        }
        r
    }
}

pub open spec fn known_release(
    list: Seq<(Seq<char>, Option<ReleaseView>)>,
    tag: Seq<char>,
) -> Option<
    Option<ReleaseView>,
>
    decreases list.len(),
{
    if list.len() == 0 {
        None
    } else if list[0].0 == tag {
        Some(list[0].1)
    } else {
        known_release(list.drop_first(), tag)
    }
}

pub open spec fn known_tag(list: Seq<(Seq<char>, TagView)>, sha: Seq<char>) -> Option<TagView>
    decreases list.len(),
{
    if list.len() == 0 {
        None
    } else if list[0].0 == sha {
        Some(list[0].1)
    } else {
        known_tag(list.drop_first(), sha)
    }
}

pub open spec fn known_comparison(
    list: Seq<(Seq<char>, Seq<char>, Seq<char>)>,
    base: Seq<char>,
    head: Seq<char>,
) -> Option<Seq<char>>
    decreases list.len(),
{
    if list.len() == 0 {
        None
    } else if list[0].0 == base && list[0].1 == head {
        Some(list[0].2)
    } else {
        known_comparison(list.drop_first(), base, head)
    }
}

/// How far the known replies lead: to a question, to a value, or to a refusal.
#[derive(Debug)]
pub enum Step<T> {
    Ask(Question),
    Done(T),
    Fail(String),
}

pub enum StepView<T> {
    Ask(QuestionView),
    Done(T),
    Fail(Seq<char>),
}

pub open spec fn step_view<T: View>(s: Step<T>) -> StepView<T::V> {
    match s {
        Step::Ask(q) => StepView::Ask(q@),
        Step::Done(value) => StepView::Done(value@),
        Step::Fail(message) => StepView::Fail(message@),
    }
}

/// The commit behind a tag, through at most eight annotated tags.
pub open spec fn peeled(
    replies: RepliesView,
    tag_name: Seq<char>,
    object: ObjectView,
    depth: nat,
    visited: Seq<Seq<char>>,
) -> StepView<Seq<char>>
    decreases MAX_TAG_DEPTH - depth,
{
    if !valid_oid(object.sha) {
        StepView::Fail(
            "tag contains an invalid Git object ID: "@ + invalid_oid_message(object.sha),
        )
    } else if object.kind == "commit"@ {
        StepView::Done(object.sha)
    } else if object.kind != "tag"@ {
        StepView::Fail(
            "release tag "@ + quoted(tag_name) + " resolves to unsupported Git object type "@
                + quoted(object.kind),
        )
    } else if depth >= MAX_TAG_DEPTH {
        StepView::Fail(
            "annotated tag "@ + quoted(tag_name) + " exceeds the maximum peel depth of "@
                + decimal(MAX_TAG_DEPTH as nat),
        )
    } else if visited.contains(object.sha) {
        StepView::Fail("annotated tag "@ + quoted(tag_name) + " contains an object cycle"@)
    } else {
        match known_tag(replies.tags, object.sha) {
            None => StepView::Ask(QuestionView::Tag(object.sha)),
            Some(tag) => if depth == 0 && tag.tag != tag_name {
                StepView::Fail(
                    "annotated tag object name "@ + quoted(tag.tag) + " does not match ref "@
                        + quoted(tag_name),
                )
            } else {
                peeled(replies, tag_name, tag.object, depth + 1, visited.push(object.sha))
            },
        }
    }
}

/// The first published release among the candidates.
pub open spec fn first_published(
    replies: RepliesView,
    branch: Branch,
    candidates: Seq<CandidateView>,
) -> StepView<SourceView>
    decreases candidates.len(),
{
    if candidates.len() == 0 {
        StepView::Fail(
            "no canonical "@ + branch_name(branch)
                + " Codex tag has a published, non-draft GitHub Release"@,
        )
    } else {
        let c = candidates[0];
        match known_release(replies.releases, c.tag_name) {
            None => StepView::Ask(QuestionView::Release(c.tag_name)),
            Some(None) => first_published(replies, branch, candidates.drop_first()),
            Some(Some(release)) => match published(branch, c.tag_name, release) {
                Err(message) => StepView::Fail(message),
                Ok(false) => first_published(replies, branch, candidates.drop_first()),
                Ok(true) => if !valid_oid(c.object.sha) {
                    StepView::Fail(
                        "release ref has an invalid object ID: "@ + invalid_oid_message(
                            c.object.sha,
                        ),
                    )
                } else {
                    match peeled(replies, c.tag_name, c.object, 0, Seq::empty()) {
                        StepView::Ask(q) => StepView::Ask(q),
                        StepView::Fail(message) => StepView::Fail(message),
                        StepView::Done(commit) => StepView::Done(
                            SourceView {
                                channel: branch_name(branch),
                                ref_name: c.ref_name,
                                ref_object_oid: c.object.sha,
                                commit_oid: commit,
                                version: c.version,
                                release_url: Some(release.html_url),
                            },
                        ),
                    }
                },
            },
        }
    }
}

pub open spec fn release_resolution(replies: RepliesView, branch: Branch) -> StepView<SourceView> {
    match replies.refs {
        None => StepView::Ask(QuestionView::Refs),
        Some(refs) => match release_order(branch, refs) {
            Err(message) => StepView::Fail(message),
            Ok(candidates) => if candidates.len() == 0 {
                StepView::Fail(
                    "no canonical "@ + branch_name(branch) + " Codex release tags were found"@,
                )
            } else {
                first_published(replies, branch, candidates)
            },
        },
    }
}

pub open spec fn nightly_resolution(replies: RepliesView) -> StepView<SourceView> {
    match replies.main {
        None => StepView::Ask(QuestionView::Main),
        Some(r) => if r.ref_name != "refs/heads/main"@ {
            StepView::Fail("GitHub returned unexpected main ref name "@ + quoted(r.ref_name))
        } else if r.object.kind != "commit"@ {
            StepView::Fail(
                "refs/heads/main points to unsupported Git object type "@ + quoted(r.object.kind),
            )
        } else if !valid_oid(r.object.sha) {
            StepView::Fail("main has an invalid commit ID: "@ + invalid_oid_message(r.object.sha))
        } else {
            StepView::Done(
                SourceView {
                    channel: branch_name(Branch::Nightly),
                    ref_name: r.ref_name,
                    ref_object_oid: r.object.sha,
                    commit_oid: r.object.sha,
                    version: "0.0.0"@,
                    release_url: None,
                },
            )
        },
    }
}

pub open spec fn ref_named(refs: Seq<RefView>, name: Seq<char>) -> Option<RefView>
    decreases refs.len(),
{
    if refs.len() == 0 {
        None
    } else if refs[0].ref_name == name {
        Some(refs[0])
    } else {
        ref_named(refs.drop_first(), name)
    }
}

/// The complete trust anchor is revalidated even when a newer release will be selected.
/// Looking only at the winning tag would let an older active or pending release be
/// silently deleted, unpublished, or retagged during an otherwise ordinary upgrade.
pub open spec fn previous_release_check(
    replies: RepliesView,
    branch: Branch,
    previous: Option<SourceView>,
) -> StepView<()> {
    match previous {
        None => StepView::Done(()),
        Some(p) => if p.channel != branch_name(branch) {
            StepView::Done(())
        } else {
            match replies.refs {
                None => StepView::Ask(QuestionView::Refs),
                Some(refs) => match ref_named(refs, p.ref_name) {
                    None => StepView::Fail(
                        "previously trusted release tag "@ + p.ref_name
                            + " was deleted; refusing without --accept-retag"@,
                    ),
                    Some(r) => match release_version(r.ref_name) {
                        None => StepView::Fail(
                            "stored release ref "@ + r.ref_name + " is no longer canonical"@,
                        ),
                        Some(version) => if version != p.version {
                            StepView::Fail(
                                "stored release "@ + p.ref_name + " claims version "@ + p.version
                                    + ", but its canonical tag encodes "@ + version
                                    + "; refusing without --accept-retag"@,
                            )
                        } else {
                            trusted_tag_check(replies, branch, p, r)
                        },
                    },
                },
            }
        },
    }
}

/// The tag still names the same objects, and its release is still published.
pub open spec fn trusted_tag_check(
    replies: RepliesView,
    branch: Branch,
    p: SourceView,
    r: RefView,
) -> StepView<()> {
    let tag_name = tag_name_of(r.ref_name);
    match peeled(replies, tag_name, r.object, 0, Seq::empty()) {
        StepView::Ask(q) => StepView::Ask(q),
        StepView::Fail(message) => StepView::Fail(message),
        StepView::Done(commit) => if r.object.sha != p.ref_object_oid || commit != p.commit_oid {
            StepView::Fail(
                "previously trusted release tag "@ + p.ref_name + " moved from "@
                    + p.ref_object_oid + "/"@ + p.commit_oid + " to "@ + r.object.sha + "/"@
                    + commit + "; refusing without --accept-retag"@,
            )
        } else {
            match known_release(replies.releases, tag_name) {
                None => StepView::Ask(QuestionView::Release(tag_name)),
                Some(None) => StepView::Fail(
                    "published release for previously trusted tag "@ + p.ref_name
                        + " was deleted; refusing without --accept-retag"@,
                ),
                Some(Some(release)) => match published(branch, tag_name, release) {
                    Err(message) => StepView::Fail(message),
                    Ok(false) => StepView::Fail(
                        "previously trusted release "@ + p.ref_name
                            + " is no longer published and eligible; refusing without --accept-retag"@,
                    ),
                    Ok(true) => StepView::Done(()),
                },
            }
        },
    }
}

/// `main` may only move forward.
pub open spec fn force_push_check(
    replies: RepliesView,
    previous: Option<SourceView>,
    current: SourceView,
    accept_force_push: bool,
) -> StepView<()> {
    if accept_force_push || current.channel != branch_name(Branch::Nightly) {
        StepView::Done(())
    } else {
        match previous {
            None => StepView::Done(()),
            Some(p) => if p.channel != current.channel || p.commit_oid == current.commit_oid {
                StepView::Done(())
            } else {
                match known_comparison(replies.comparisons, p.commit_oid, current.commit_oid) {
                    None => StepView::Ask(
                        QuestionView::Compare(p.commit_oid, current.commit_oid),
                    ),
                    Some(status) => if status != "ahead"@ {
                        StepView::Fail(
                            "upstream main moved from "@ + p.commit_oid + " to "@
                                + current.commit_oid + " with comparison status "@ + quoted(status)
                                + "; refusing a non-fast-forward change without --accept-force-push"@,
                        )
                    } else {
                        StepView::Done(())
                    },
                }
            },
        }
    }
}

/// The trust rules that a resolved source has to meet.
pub open spec fn accepted(
    replies: RepliesView,
    branch: Branch,
    previous: Option<SourceView>,
    source: SourceView,
    accept_retag: bool,
    accept_force_push: bool,
) -> StepView<SourceView> {
    match regression_check(branch, previous, source, accept_retag) {
        Err(message) => StepView::Fail(message),
        Ok(_) => match retag_check(branch, previous, source, accept_retag) {
            Err(message) => StepView::Fail(message),
            Ok(_) => match force_push_check(replies, previous, source, accept_force_push) {
                StepView::Ask(q) => StepView::Ask(q),
                StepView::Fail(message) => StepView::Fail(message),
                StepView::Done(_) => StepView::Done(source),
            },
        },
    }
}

/// The newest usable source revision of a channel, as far as the replies tell.
pub open spec fn resolution(
    replies: RepliesView,
    branch: Branch,
    previous: Option<SourceView>,
    accept_retag: bool,
    accept_force_push: bool,
) -> StepView<SourceView> {
    let trust = if branch != Branch::Nightly && !accept_retag {
        previous_release_check(replies, branch, previous)
    } else {
        StepView::Done(())
    };
    match trust {
        StepView::Ask(q) => StepView::Ask(q),
        StepView::Fail(message) => StepView::Fail(message),
        StepView::Done(_) => {
            let found = if branch == Branch::Nightly {
                nightly_resolution(replies)
            } else {
                release_resolution(replies, branch)
            };
            match found {
                StepView::Ask(q) => StepView::Ask(q),
                StepView::Fail(message) => StepView::Fail(message),
                StepView::Done(source) => accepted(
                    replies,
                    branch,
                    previous,
                    source,
                    accept_retag,
                    accept_force_push,
                ),
            }
        },
    }
}

fn only_digits(s: &str) -> (r: bool)
    ensures
        r == all_digits(s@),
{
    let chars = chars_of(s);
    let mut i: usize = 0;
    while i < chars.len()
        invariant
            i <= chars@.len(),
            chars@ == s@,
            forall|j: int| 0 <= j < i ==> is_digit(#[trigger] chars@[j]),
        decreases chars@.len() - i,
    {
        if !is_digit_char(chars[i]) {
            return false;
        }
        i = i + 1;
    }
    chars.len() > 0
}

fn only_identifier(s: &str) -> (r: bool)
    ensures
        r == is_identifier(s@),
{
    let chars = chars_of(s);
    let mut i: usize = 0;
    while i < chars.len()
        invariant
            i <= chars@.len(),
            chars@ == s@,
            forall|j: int|
                0 <= j < i ==> is_digit(#[trigger] chars@[j]) || is_ascii_letter(chars@[j])
                    || chars@[j] == '-',
        decreases chars@.len() - i,
    {
        if !is_digit_char(chars[i]) && !is_letter_char(chars[i]) && chars[i] != '-' {
            return false;
        }
        i = i + 1;
    }
    chars.len() > 0
}

fn every_number(list: &Vec<String>) -> (r: bool)
    ensures
        r == every(texts(list@), |s: Seq<char>| all_digits(s)),
{
    let ghost all = texts(list@);
    let ghost p = |s: Seq<char>| all_digits(s);
    let mut i: usize = 0;
    while i < list.len()
        invariant
            i <= list@.len(),
            all == texts(list@),
            p == (|s: Seq<char>| all_digits(s)),
            forall|j: int| 0 <= j < i ==> p(#[trigger] all[j]),
        decreases list@.len() - i,
    {
        proof {
            assert(all[i as int] == list@[i as int]@);
        }
        if !only_digits(list[i].as_str()) {
            proof {
                assert(!p(all[i as int]));
            }
            return false;
        }
        i = i + 1;
    }
    true
}

fn every_identifier(list: &Vec<String>) -> (r: bool)
    ensures
        r == every(texts(list@), |s: Seq<char>| is_identifier(s)),
{
    let ghost all = texts(list@);
    let ghost p = |s: Seq<char>| is_identifier(s);
    let mut i: usize = 0;
    while i < list.len()
        invariant
            i <= list@.len(),
            all == texts(list@),
            p == (|s: Seq<char>| is_identifier(s)),
            forall|j: int| 0 <= j < i ==> p(#[trigger] all[j]),
        decreases list@.len() - i,
    {
        proof {
            assert(all[i as int] == list@[i as int]@);
        }
        if !only_identifier(list[i].as_str()) {
            proof {
                assert(!p(all[i as int]));
            }
            return false;
        }
        i = i + 1;
    }
    true
}

fn is_canonical_version(v: &str) -> (r: bool)
    ensures
        r == canonical_version(v@),
{
    let chars = chars_of(v);
    let mut n: usize = 0;
    while n < chars.len() && chars[n] != '-'
        invariant
            n <= chars@.len(),
            forall|j: int| 0 <= j < n ==> chars@[j] != '-',
        decreases chars@.len() - n,
    {
        n = n + 1;
    }
    proof {
        crate::text::lemma_first_index_unique(v@, '-', n as int);
    }
    let core = text_between(&chars, 0, n);
    proof {
        assert(core@ =~= v@.take(n as int));
    }
    let numbers = split_text(core.as_str(), '.');
    proof {
        assert(texts(numbers@).len() == numbers@.len());
    }
    if numbers.len() != 3 || !every_number(&numbers) {
        return false;
    }
    if n < chars.len() {
        let rest = text_between(&chars, n + 1, chars.len());
        proof {
            assert(rest@ =~= v@.skip(n as int + 1));
        }
        let identifiers = split_text(rest.as_str(), '.');
        every_identifier(&identifiers)
    } else {
        true
    }
}

/// The version of a canonical release ref.
pub fn release_version_of(ref_name: &str) -> (r: Option<String>)
    ensures
        opt_text(r) == release_version(ref_name@),
{
    match strip_prefix(ref_name, "refs/tags/rust-v") {
        Some(version) => {
            if is_canonical_version(version.as_str()) {
                Some(version)
            } else {
                None
            }
        },
        None => None,
    }
}

fn render_version(major: u64, minor: u64, patch: u64, pre: &str, build: &str) -> (r: String)
    ensures
        r@ == version_text((major, minor, patch, pre@, build@)),
{
    let mut out = decimal_text(major);
    out.append(".");
    out.append(decimal_text(minor).as_str());
    out.append(".");
    out.append(decimal_text(patch).as_str());
    if chars_of(pre).len() > 0 {
        out.append("-");
        out.append(pre);
    }
    if chars_of(build).len() > 0 {
        out.append("+");
        out.append(build);
    }
    out
}

fn channel_version_of(branch: Branch, ref_name: &str) -> (r: Option<String>)
    ensures
        opt_text(r) == channel_version(branch, ref_name@),
{
    let text = match release_version_of(ref_name) {
        Some(text) => text,
        None => return None,
    };
    match parse_version(text.as_str()) {
        Err(_) => None,
        Ok((major, minor, patch, pre, build)) => {
            let shown = render_version(major, minor, patch, pre.as_str(), build.as_str());
            let released = chars_of(pre.as_str()).len() == 0;
            if same(shown.as_str(), text.as_str()) && (branch == Branch::Stable) == released {
                Some(text)
            } else {
                None
            }
        },
    }
}

fn find_candidate(found: &Vec<TagCandidate>, ref_name: &str) -> (r: Option<usize>)
    ensures
        match candidate_named(candidates_view(found@), ref_name@) {
            Some(c) => r is Some && r->0 < found@.len() && found@[r->0 as int]@ == c,
            None => r is None,
        },
{
    let ghost all = candidates_view(found@);
    let mut i: usize = 0;
    proof {
        assert(all.skip(0) =~= all);
    }
    while i < found.len()
        invariant
            i <= found@.len(),
            all == candidates_view(found@),
            candidate_named(all, ref_name@) == candidate_named(all.skip(i as int), ref_name@),
        decreases found@.len() - i,
    {
        proof {
            assert(all.skip(i as int)[0] == found@[i as int]@);
            assert(all.skip(i as int).drop_first() =~= all.skip(i as int + 1));
        }
        if same(found[i].ref_name.as_str(), ref_name) {
            return Some(i);
        }
        i = i + 1;
    }
    None
}

proof fn lemma_selected_stops(branch: Branch, refs: Seq<RefView>, n: int)
    requires
        0 <= n <= refs.len(),
        selected(branch, refs.take(n)) is Err,
    ensures
        selected(branch, refs) == selected(branch, refs.take(n)),
    decreases refs.len() - n,
{
    if n == refs.len() {
        assert(refs.take(n) =~= refs);
    } else {
        assert(refs.take(n + 1).drop_last() =~= refs.take(n));
        lemma_selected_stops(branch, refs, n + 1);
    }
}

proof fn lemma_channel_version(branch: Branch, ref_name: Seq<char>)
    requires
        channel_version(branch, ref_name) is Some,
    ensures
        "refs/tags/"@.is_prefix_of(ref_name),
        semver_parse(channel_version(branch, ref_name)->0) is Ok,
{
    reveal_strlit("refs/tags/");
    reveal_strlit("refs/tags/rust-v");
    let long = "refs/tags/rust-v"@;
    assert("refs/tags/"@ =~= long.take(10));
    assert(ref_name.take(16) == long);
    assert(ref_name.take(10) =~= long.take(10));
}

pub open spec fn versions_parse(v: Seq<CandidateView>) -> bool {
    forall|i: int| 0 <= i < v.len() ==> semver_parse(#[trigger] v[i].version) is Ok
}

fn select_candidates(branch: Branch, refs: &Vec<GitRef>) -> (r: Result<Vec<TagCandidate>, String>)
    ensures
        match r {
            Ok(v) => selected(branch, refs_view(refs@)) == Ok::<Seq<CandidateView>, Seq<char>>(
                candidates_view(v@),
            ) && versions_parse(candidates_view(v@)),
            Err(e) => selected(branch, refs_view(refs@)) == Err::<Seq<CandidateView>, Seq<char>>(
                e@,
            ),
        },
{
    let mut found: Vec<TagCandidate> = Vec::new();
    let ghost all = refs_view(refs@);
    let mut i: usize = 0;
    proof {
        assert(all.take(0) =~= Seq::empty());
        assert(candidates_view(found@) =~= Seq::empty());
    }
    while i < refs.len()
        invariant
            i <= refs@.len(),
            all == refs_view(refs@),
            versions_parse(candidates_view(found@)),
            selected(branch, all.take(i as int)) == Ok::<Seq<CandidateView>, Seq<char>>(
                candidates_view(found@),
            ),
        decreases refs@.len() - i,
    {
        let git_ref = &refs[i];
        proof {
            assert(all.take(i as int + 1).drop_last() =~= all.take(i as int));
            assert(all.take(i as int + 1).last() == git_ref@);
        }
        match channel_version_of(branch, git_ref.ref_name.as_str()) {
            None => {},
            Some(version) => {
                proof {
                    lemma_channel_version(branch, git_ref.ref_name@);
                }
                match find_candidate(&found, git_ref.ref_name.as_str()) {
                    Some(at) => {
                        let existing = &found[at].object;
                        if !same(existing.sha.as_str(), git_ref.object.sha.as_str()) || !same(
                            existing.kind.as_str(),
                            git_ref.object.kind.as_str(),
                        ) {
                            let mut message =
                                "GitHub returned conflicting objects for ref ".to_owned();
                            message.append(quoted_text(git_ref.ref_name.as_str()).as_str());
                            proof {
                                lemma_selected_stops(branch, all, i as int + 1);
                            }
                            return Err(message);
                        }
                    },
                    None => {
                        let tag_name = match strip_prefix(git_ref.ref_name.as_str(), "refs/tags/") {
                            Some(name) => name,
                            None => String::new(),
                        };
                        let candidate = TagCandidate {
                            ref_name: git_ref.ref_name.clone(),
                            tag_name,
                            version,
                            object: git_ref.object.clone(),
                        };
                        proof {
                            assert(candidates_view(found@.push(candidate)) =~= candidates_view(
                                found@,
                            ).push(candidate@));
                        }
                        found.push(candidate);
                    },
                }
            },
        }
        i = i + 1;
    }
    proof {
        assert(all.take(refs@.len() as int) =~= all);
    }
    Ok(found)
}

/// What does not come before `b` does not come before `a` either.
#[verifier::opaque]
spec fn stands_behind(a: Seq<char>, b: Seq<char>) -> bool {
    forall|c: Seq<char>| #[trigger]
        semver_parse(c) is Ok && !semver_before(c, b) ==> !semver_before(c, a)
}

proof fn lemma_stands_behind_all(v: Seq<CandidateView>, x: CandidateView, at: int)
    requires
        0 < at <= v.len(),
        versions_parse(v),
        newest_throughout(v),
        stands_behind(x.version, v[at - 1].version),
        !semver_before(v[at - 1].version, x.version),
    ensures
        forall|h: int| 0 <= h < at ==> !semver_before(#[trigger] v[h].version, x.version),
{
    reveal(stands_behind);
    assert forall|h: int| 0 <= h < at implies !semver_before(
        #[trigger] v[h].version,
        x.version,
    ) by {
        assert(semver_parse(v[h].version) is Ok);
        assert(h < at - 1 ==> !semver_before(v[h].version, v[at - 1].version));
    }
}

fn goes_first(a: &TagCandidate, b: &TagCandidate) -> (r: bool)
    requires
        semver_parse(a.version@) is Ok,
        semver_parse(b.version@) is Ok,
    ensures
        r == goes_before(a@, b@),
        r ==> !goes_before(b@, a@),
        r ==> !semver_before(a@.version, b@.version),
        !r ==> !semver_before(b@.version, a@.version),
        !r ==> stands_behind(a@.version, b@.version),
{
    proof {
        reveal(stands_behind);
    }
    if version_before(b.version.as_str(), a.version.as_str()) {
        true
    } else if version_before(a.version.as_str(), b.version.as_str()) {
        false
    } else {
        proof {
            if text_less(a.ref_name@, b.ref_name@) {
                crate::patchset::lemma_less_asymmetric(a.ref_name@, b.ref_name@);
            }
        }
        text_is_less(a.ref_name.as_str(), b.ref_name.as_str())
    }
}

/// Each candidate stands behind no candidate that it should precede.
pub open spec fn newest_first(v: Seq<CandidateView>) -> bool {
    forall|i: int| 0 < i < v.len() ==> !goes_before(#[trigger] v[i], v[i - 1])
}

/// No candidate stands behind an older one, however far apart they are.
pub open spec fn newest_throughout(v: Seq<CandidateView>) -> bool {
    forall|i: int, j: int|
        0 <= i < j < v.len() ==> !semver_before(#[trigger] v[i].version, #[trigger] v[j].version)
}

impl Clone for TagCandidate {
    fn clone(&self) -> (r: Self)
        ensures
            r@ == self@,
    {
        TagCandidate {
            ref_name: self.ref_name.clone(),
            tag_name: self.tag_name.clone(),
            version: self.version.clone(),
            object: self.object.clone(),
        }
    }
}

/// Puts a candidate in its place behind those that it does not precede.
fn place_candidate(out: &mut Vec<TagCandidate>, candidate: TagCandidate)
    requires
        versions_parse(candidates_view(old(out)@)),
        newest_first(candidates_view(old(out)@)),
        newest_throughout(candidates_view(old(out)@)),
        semver_parse(candidate.version@) is Ok,
    ensures
        candidates_view(final(out)@) == insert_candidate(candidates_view(old(out)@), candidate@),
        versions_parse(candidates_view(final(out)@)),
        newest_first(candidates_view(final(out)@)),
        newest_throughout(candidates_view(final(out)@)),
{
    let mut at: usize = out.len();
    let ghost x = candidate@;
    let ghost v = candidates_view(out@);
    proof {
        assert(v.take(at as int) =~= v);
        assert(insert_candidate(v, x) =~= insert_candidate(v.take(at as int), x) + v.skip(
            at as int,
        ));
        assert forall|k: int| 0 <= k < out@.len() implies semver_parse(
            (#[trigger] out@[k]).version@,
        ) is Ok by {
            assert(v[k] == out@[k]@);
        }
    }
    while at > 0 && goes_first(&candidate, &out[at - 1])
        invariant
            at <= out@.len(),
            forall|k: int|
                0 <= k < out@.len() ==> semver_parse((#[trigger] out@[k]).version@) is Ok,
            v == candidates_view(out@),
            x == candidate@,
            semver_parse(x.version) is Ok,
            at < v.len() ==> !goes_before(v[at as int], x),
            forall|k: int|
                at <= k < v.len() ==> !semver_before(x.version, #[trigger] v[k].version),
            insert_candidate(v, x) == insert_candidate(v.take(at as int), x) + v.skip(at as int),
        decreases at,
    {
        proof {
            assert(v.take(at as int).drop_last() =~= v.take(at as int - 1));
            assert(v.take(at as int).last() == v[at as int - 1]);
            assert(insert_candidate(v.take(at as int - 1), x).push(v[at as int - 1]) + v.skip(
                at as int,
            ) =~= insert_candidate(v.take(at as int - 1), x) + v.skip(at as int - 1));
        }
        at = at - 1;
    }
    proof {
        if at > 0 {
            assert(v.take(at as int).last() == v[at as int - 1]);
            assert(!goes_before(x, v[at - 1]));
            lemma_stands_behind_all(v, x, at as int);
        }
    }
    out.insert(at, candidate);
    proof {
        lemma_placed(v, x, at as int);
        assert(insert_candidate(v.take(at as int), x) == v.take(at as int).push(x));
        assert(candidates_view(out@) =~= v.take(at as int).push(x) + v.skip(at as int));
    }
}

proof fn lemma_placed(v: Seq<CandidateView>, x: CandidateView, at: int)
    requires
        0 <= at <= v.len(),
        versions_parse(v),
        newest_first(v),
        newest_throughout(v),
        semver_parse(x.version) is Ok,
        at > 0 ==> !goes_before(x, v[at - 1]),
        at < v.len() ==> !goes_before(v[at], x),
        forall|h: int| 0 <= h < at ==> !semver_before(#[trigger] v[h].version, x.version),
        forall|k: int| at <= k < v.len() ==> !semver_before(x.version, #[trigger] v[k].version),
    ensures
        versions_parse(v.take(at).push(x) + v.skip(at)),
        newest_first(v.take(at).push(x) + v.skip(at)),
        newest_throughout(v.take(at).push(x) + v.skip(at)),
{
    let w = v.take(at).push(x) + v.skip(at);
    assert forall|k: int| 0 <= k < w.len() implies #[trigger] w[k] == (if k < at {
        v[k]
    } else if k == at {
        x
    } else {
        v[k - 1]
    }) by {}
    assert forall|k: int| 0 < k < w.len() implies !goes_before(#[trigger] w[k], w[k - 1]) by {
        assert(w[k - 1] == w[k - 1]);
    }
}

fn order_candidates(list: Vec<TagCandidate>) -> (r: Vec<TagCandidate>)
    requires
        versions_parse(candidates_view(list@)),
    ensures
        candidates_view(r@) == candidate_order(candidates_view(list@)),
        newest_first(candidates_view(r@)),
        newest_throughout(candidates_view(r@)),
{
    let mut out: Vec<TagCandidate> = Vec::new();
    let ghost all = candidates_view(list@);
    let mut i: usize = 0;
    proof {
        assert(candidates_view(out@) =~= all.take(0));
    }
    while i < list.len()
        invariant
            i <= list@.len(),
            all == candidates_view(list@),
            versions_parse(all),
            versions_parse(candidates_view(out@)),
            newest_first(candidates_view(out@)),
            newest_throughout(candidates_view(out@)),
            candidates_view(out@) == candidate_order(all.take(i as int)),
        decreases list@.len() - i,
    {
        proof {
            assert(all[i as int] == list@[i as int]@);
            assert(all.take(i as int + 1).drop_last() =~= all.take(i as int));
            assert(all.take(i as int + 1).last() == all[i as int]);
        }
        let candidate = list[i].clone();
        proof {
            assert(semver_parse(all[i as int].version) is Ok);
            assert(candidate@.version == candidate.version@);
        }
        place_candidate(&mut out, candidate);
        i = i + 1;
    }
    proof {
        assert(all.take(list@.len() as int) =~= all);
    }
    out
}

/// The release tags of a channel, the newest first.
pub fn release_candidates(branch: Branch, refs: &Vec<GitRef>) -> (r: Result<
    Vec<TagCandidate>,
    String,
>)
    ensures
        match r {
            Ok(v) => release_order(branch, refs_view(refs@)) == Ok::<
                Seq<CandidateView>,
                Seq<char>,
            >(candidates_view(v@)) && newest_first(candidates_view(v@)) && newest_throughout(
                candidates_view(v@),
            ),
            Err(e) => release_order(branch, refs_view(refs@)) == Err::<
                Seq<CandidateView>,
                Seq<char>,
            >(e@),
        },
{
    if branch == Branch::Nightly {
        return Err("nightly does not use release tag candidates".to_owned());
    }
    match select_candidates(branch, refs) {
        Err(message) => Err(message),
        Ok(found) => Ok(order_candidates(found)),
    }
}

pub open spec fn result_bool(r: Result<bool, String>) -> Result<bool, Seq<char>> {
    match r {
        Ok(b) => Ok(b),
        Err(message) => Err(message@),
    }
}

pub fn release_is_published(branch: Branch, tag_name: &str, release: &GitRelease) -> (r: Result<
    bool,
    String,
>)
    ensures
        result_bool(r) == published(branch, tag_name@, release@),
{
    if !same(release.tag_name.as_str(), tag_name) {
        let mut message = "GitHub Release tag ".to_owned();
        message.append(quoted_text(release.tag_name.as_str()).as_str());
        message.append(" does not match requested tag ");
        message.append(quoted_text(tag_name).as_str());
        return Err(message);
    }
    if release.draft || release.published_at.is_none() {
        return Ok(false);
    }
    let expected = branch == Branch::Alpha;
    if release.prerelease != expected {
        let mut message = "published release ".to_owned();
        message.append(quoted_text(tag_name).as_str());
        message.append(" has prerelease=");
        message.append(bool_word(release.prerelease));
        message.append(", expected ");
        message.append(bool_word(expected));
        message.append(" for ");
        message.append(branch.as_str());
        message.append(" channel");
        return Err(message);
    }
    if chars_of(release.html_url.as_str()).len() == 0 {
        let mut message = "published release ".to_owned();
        message.append(quoted_text(tag_name).as_str());
        message.append(" has no HTML URL");
        return Err(message);
    }
    Ok(true)
}

pub open spec fn opt_source_ref(o: Option<&ResolvedSource>) -> Option<SourceView> {
    match o {
        Some(s) => Some(s@),
        None => None,
    }
}

/// A release tag that names other objects than before is refused, unless that is accepted.
pub fn reject_retag(
    branch: Branch,
    previous: Option<&ResolvedSource>,
    current: &ResolvedSource,
    accept_retag: bool,
) -> (r: Result<(), String>)
    ensures
        result_unit(r) == retag_check(branch, opt_source_ref(previous), current@, accept_retag),
{
    if branch == Branch::Nightly || accept_retag {
        return Ok(());
    }
    let p = match previous {
        Some(p) => p,
        None => return Ok(()),
    };
    if same(p.channel.as_str(), current.channel.as_str()) && same(
        p.ref_name.as_str(),
        current.ref_name.as_str(),
    ) && (!same(p.ref_object_oid.as_str(), current.ref_object_oid.as_str()) || !same(
        p.commit_oid.as_str(),
        current.commit_oid.as_str(),
    )) {
        let mut message = "release tag ".to_owned();
        message.append(current.ref_name.as_str());
        message.append(" moved from ");
        message.append(p.ref_object_oid.as_str());
        message.append("/");
        message.append(p.commit_oid.as_str());
        message.append(" to ");
        message.append(current.ref_object_oid.as_str());
        message.append("/");
        message.append(current.commit_oid.as_str());
        message.append("; refusing retagged source without explicit acceptance");
        return Err(message);
    }
    Ok(())
}

/// A release older than the trusted one is refused, unless that is accepted.
pub fn reject_release_regression(
    branch: Branch,
    previous: Option<&ResolvedSource>,
    current: &ResolvedSource,
    accept_retag: bool,
) -> (r: Result<(), String>)
    ensures
        result_unit(r) == regression_check(
            branch,
            opt_source_ref(previous),
            current@,
            accept_retag,
        ),
{
    let p = match previous {
        Some(p) => p,
        None => return Ok(()),
    };
    if branch == Branch::Nightly || accept_retag || !same(
        p.channel.as_str(),
        current.channel.as_str(),
    ) {
        return Ok(());
    }
    if let Err(cause) = parse_version(p.version.as_str()) {
        let mut message = "stored source has invalid SemVer ".to_owned();
        message.append(p.version.as_str());
        message.append(": ");
        message.append(cause.as_str());
        return Err(message);
    }
    if let Err(cause) = parse_version(current.version.as_str()) {
        let mut message = "resolved source has invalid SemVer ".to_owned();
        message.append(current.version.as_str());
        message.append(": ");
        message.append(cause.as_str());
        return Err(message);
    }
    if version_before(current.version.as_str(), p.version.as_str()) {
        let mut message = "resolved ".to_owned();
        message.append(current.channel.as_str());
        message.append(" release ");
        message.append(current.version.as_str());
        message.append(" is older than the active release ");
        message.append(p.version.as_str());
        message.append("; refusing release deletion or downgrade");
        return Err(message);
    }
    Ok(())
}

pub fn validate_oid(oid: &str) -> (r: Result<(), String>)
    ensures
        result_unit(r) == (if valid_oid(oid@) {
            Ok(())
        } else {
            Err(invalid_oid_message(oid@))
        }),
{
    let chars = chars_of(oid);
    let mut hex = true;
    let mut i: usize = 0;
    while i < chars.len()
        invariant
            i <= chars@.len(),
            chars@ == oid@,
            hex == (forall|j: int| 0 <= j < i ==> is_hex_digit(#[trigger] chars@[j])),
        decreases chars@.len() - i,
    {
        if !is_hex_char(chars[i]) {
            hex = false;
        }
        i = i + 1;
    }
    if (chars.len() == 40 || chars.len() == 64) && hex {
        Ok(())
    } else {
        let mut message = "invalid Git object ID ".to_owned();
        message.append(quoted_text(oid).as_str());
        Err(message)
    }
}

fn find_tag(list: &Vec<TagReply>, sha: &str) -> (r: Option<usize>)
    ensures
        match known_tag(list@.map_values(|t: TagReply| (t.sha@, t.tag@)), sha@) {
            Some(t) => r is Some && r->0 < list@.len() && list@[r->0 as int].tag@ == t,
            None => r is None,
        },
{
    let ghost all = list@.map_values(|t: TagReply| (t.sha@, t.tag@));
    let mut i: usize = 0;
    proof {
        assert(all.skip(0) =~= all);
    }
    while i < list.len()
        invariant
            i <= list@.len(),
            all == list@.map_values(|t: TagReply| (t.sha@, t.tag@)),
            known_tag(all, sha@) == known_tag(all.skip(i as int), sha@),
        decreases list@.len() - i,
    {
        proof {
            assert(all.skip(i as int)[0] == (list@[i as int].sha@, list@[i as int].tag@));
            assert(all.skip(i as int).drop_first() =~= all.skip(i as int + 1));
        }
        if same(list[i].sha.as_str(), sha) {
            return Some(i);
        }
        i = i + 1;
    }
    None
}

fn find_release(list: &Vec<ReleaseReply>, tag: &str) -> (r: Option<usize>)
    ensures
        match known_release(list@.map_values(|x: ReleaseReply| release_reply(x)), tag@) {
            Some(t) => r is Some && r->0 < list@.len() && release_reply(list@[r->0 as int]).1 == t,
            None => r is None,
        },
{
    let ghost all = list@.map_values(|x: ReleaseReply| release_reply(x));
    let mut i: usize = 0;
    proof {
        assert(all.skip(0) =~= all);
    }
    while i < list.len()
        invariant
            i <= list@.len(),
            all == list@.map_values(|x: ReleaseReply| release_reply(x)),
            known_release(all, tag@) == known_release(all.skip(i as int), tag@),
        decreases list@.len() - i,
    {
        proof {
            assert(all.skip(i as int)[0] == release_reply(list@[i as int]));
            assert(all.skip(i as int).drop_first() =~= all.skip(i as int + 1));
        }
        if same(list[i].tag.as_str(), tag) {
            return Some(i);
        }
        i = i + 1;
    }
    None
}

fn find_comparison(list: &Vec<CompareReply>, base: &str, head: &str) -> (r: Option<usize>)
    ensures
        match known_comparison(
            list@.map_values(|c: CompareReply| (c.base@, c.head@, c.status@)),
            base@,
            head@,
        ) {
            Some(t) => r is Some && r->0 < list@.len() && list@[r->0 as int].status@ == t,
            None => r is None,
        },
{
    let ghost all = list@.map_values(|c: CompareReply| (c.base@, c.head@, c.status@));
    let mut i: usize = 0;
    proof {
        assert(all.skip(0) =~= all);
    }
    while i < list.len()
        invariant
            i <= list@.len(),
            all == list@.map_values(|c: CompareReply| (c.base@, c.head@, c.status@)),
            known_comparison(all, base@, head@) == known_comparison(
                all.skip(i as int),
                base@,
                head@,
            ),
        decreases list@.len() - i,
    {
        proof {
            let c = list@[i as int];
            assert(all.skip(i as int)[0] == (c.base@, c.head@, c.status@));
            assert(all.skip(i as int).drop_first() =~= all.skip(i as int + 1));
        }
        if same(list[i].base.as_str(), base) && same(list[i].head.as_str(), head) {
            return Some(i);
        }
        i = i + 1;
    }
    None
}

/// The commit behind a tag.
fn peel_to_commit(
    replies: &Replies,
    tag_name: &str,
    object: &GitObject,
    depth: usize,
    visited: &mut Vec<String>,
) -> (r: Step<String>)
    requires
        depth <= MAX_TAG_DEPTH,
    ensures
        step_view(r) == peeled(replies@, tag_name@, object@, depth as nat, texts(old(visited)@)),
    decreases MAX_TAG_DEPTH - depth,
{
    match validate_oid(object.sha.as_str()) {
        Ok(()) => {},
        Err(inner) => {
            let mut message = "tag contains an invalid Git object ID: ".to_owned();
            message.append(inner.as_str());
            return Step::Fail(message);
        },
    }
    if same(object.kind.as_str(), "commit") {
        return Step::Done(object.sha.clone());
    }
    if !same(object.kind.as_str(), "tag") {
        let mut message = "release tag ".to_owned();
        message.append(quoted_text(tag_name).as_str());
        message.append(" resolves to unsupported Git object type ");
        message.append(quoted_text(object.kind.as_str()).as_str());
        return Step::Fail(message);
    }
    if depth >= MAX_TAG_DEPTH {
        let mut message = "annotated tag ".to_owned();
        message.append(quoted_text(tag_name).as_str());
        message.append(" exceeds the maximum peel depth of ");
        message.append(decimal_text(MAX_TAG_DEPTH as u64).as_str());
        return Step::Fail(message);
    }
    if crate::text::holds(visited, object.sha.as_str()) {
        let mut message = "annotated tag ".to_owned();
        message.append(quoted_text(tag_name).as_str());
        message.append(" contains an object cycle");
        return Step::Fail(message);
    }
    let at = match find_tag(&replies.tags, object.sha.as_str()) {
        Some(at) => at,
        None => return Step::Ask(Question::Tag(object.sha.clone())),
    };
    let tag = &replies.tags[at].tag;
    if depth == 0 && !same(tag.tag.as_str(), tag_name) {
        let mut message = "annotated tag object name ".to_owned();
        message.append(quoted_text(tag.tag.as_str()).as_str());
        message.append(" does not match ref ");
        message.append(quoted_text(tag_name).as_str());
        return Step::Fail(message);
    }
    proof {
        crate::text::lemma_texts_push(visited@, object.sha);
    }
    visited.push(object.sha.clone());
    proof {
        assert(texts(visited@) =~= texts(old(visited)@).push(object.sha@));
    }
    peel_to_commit(replies, tag_name, &tag.object, depth + 1, visited)
}

fn peel(replies: &Replies, tag_name: &str, object: &GitObject) -> (r: Step<String>)
    ensures
        step_view(r) == peeled(replies@, tag_name@, object@, 0, Seq::empty()),
{
    let mut visited: Vec<String> = Vec::new();
    proof {
        assert(texts(visited@) =~= Seq::empty());
    }
    peel_to_commit(replies, tag_name, object, 0, &mut visited)
}

fn pick_release(replies: &Replies, branch: Branch, candidates: &Vec<TagCandidate>) -> (r: Step<
    ResolvedSource,
>)
    ensures
        step_view(r) == first_published(replies@, branch, candidates_view(candidates@)),
{
    let ghost all = candidates_view(candidates@);
    let mut i: usize = 0;
    proof {
        assert(all.skip(0) =~= all);
    }
    while i < candidates.len()
        invariant
            i <= candidates@.len(),
            all == candidates_view(candidates@),
            first_published(replies@, branch, all) == first_published(
                replies@,
                branch,
                all.skip(i as int),
            ),
        decreases candidates@.len() - i,
    {
        let candidate = &candidates[i];
        proof {
            assert(all.skip(i as int)[0] == candidate@);
            assert(all.skip(i as int).drop_first() =~= all.skip(i as int + 1));
        }
        let tag_name = candidate.tag_name.as_str();
        let at = match find_release(&replies.releases, tag_name) {
            Some(at) => at,
            None => return Step::Ask(Question::Release(candidate.tag_name.clone())),
        };
        if let Some(release) = &replies.releases[at].release {
            match release_is_published(branch, tag_name, release) {
                Err(message) => return Step::Fail(message),
                Ok(eligible) => {
                    if eligible {
                        match validate_oid(candidate.object.sha.as_str()) {
                            Ok(()) => {},
                            Err(inner) => {
                                let mut message =
                                    "release ref has an invalid object ID: ".to_owned();
                                message.append(inner.as_str());
                                return Step::Fail(message);
                            },
                        }
                        return match peel(replies, tag_name, &candidate.object) {
                            Step::Ask(q) => Step::Ask(q),
                            Step::Fail(message) => Step::Fail(message),
                            Step::Done(commit_oid) => Step::Done(
                                ResolvedSource {
                                    channel: branch.as_str().to_owned(),
                                    ref_name: candidate.ref_name.clone(),
                                    ref_object_oid: candidate.object.sha.clone(),
                                    commit_oid,
                                    version: candidate.version.clone(),
                                    release_url: Some(release.html_url.clone()),
                                },
                            ),
                        };
                    }
                },
            }
        }
        i = i + 1;
    }
    let mut message = "no canonical ".to_owned();
    message.append(branch.as_str());
    message.append(" Codex tag has a published, non-draft GitHub Release");
    Step::Fail(message)
}

fn resolve_release(replies: &Replies, branch: Branch) -> (r: Step<ResolvedSource>)
    ensures
        step_view(r) == release_resolution(replies@, branch),
        r is Done ==> newest_throughout(release_order(branch, replies@.refs->0)->Ok_0),
{
    let refs = match &replies.refs {
        Some(refs) => refs,
        None => return Step::Ask(Question::Refs),
    };
    let candidates = match release_candidates(branch, refs) {
        Ok(candidates) => candidates,
        Err(message) => return Step::Fail(message),
    };
    proof {
        assert(candidates_view(candidates@).len() == candidates@.len());
    }
    if candidates.len() == 0 {
        let mut message = "no canonical ".to_owned();
        message.append(branch.as_str());
        message.append(" Codex release tags were found");
        return Step::Fail(message);
    }
    pick_release(replies, branch, &candidates)
}

fn resolve_nightly(replies: &Replies) -> (r: Step<ResolvedSource>)
    ensures
        step_view(r) == nightly_resolution(replies@),
{
    let git_ref = match &replies.main {
        Some(git_ref) => git_ref,
        None => return Step::Ask(Question::Main),
    };
    if !same(git_ref.ref_name.as_str(), "refs/heads/main") {
        let mut message = "GitHub returned unexpected main ref name ".to_owned();
        message.append(quoted_text(git_ref.ref_name.as_str()).as_str());
        return Step::Fail(message);
    }
    if !same(git_ref.object.kind.as_str(), "commit") {
        let mut message = "refs/heads/main points to unsupported Git object type ".to_owned();
        message.append(quoted_text(git_ref.object.kind.as_str()).as_str());
        return Step::Fail(message);
    }
    match validate_oid(git_ref.object.sha.as_str()) {
        Ok(()) => {},
        Err(inner) => {
            let mut message = "main has an invalid commit ID: ".to_owned();
            message.append(inner.as_str());
            return Step::Fail(message);
        },
    }
    Step::Done(
        ResolvedSource {
            channel: Branch::Nightly.as_str().to_owned(),
            ref_name: git_ref.ref_name.clone(),
            ref_object_oid: git_ref.object.sha.clone(),
            commit_oid: git_ref.object.sha.clone(),
            version: "0.0.0".to_owned(),
            release_url: None,
        },
    )
}

fn find_ref(refs: &Vec<GitRef>, name: &str) -> (r: Option<usize>)
    ensures
        match ref_named(refs_view(refs@), name@) {
            Some(found) => r is Some && r->0 < refs@.len() && refs@[r->0 as int]@ == found,
            None => r is None,
        },
{
    let ghost all = refs_view(refs@);
    let mut i: usize = 0;
    proof {
        assert(all.skip(0) =~= all);
    }
    while i < refs.len()
        invariant
            i <= refs@.len(),
            all == refs_view(refs@),
            ref_named(all, name@) == ref_named(all.skip(i as int), name@),
        decreases refs@.len() - i,
    {
        proof {
            assert(all.skip(i as int)[0] == refs@[i as int]@);
            assert(all.skip(i as int).drop_first() =~= all.skip(i as int + 1));
        }
        if same(refs[i].ref_name.as_str(), name) {
            return Some(i);
        }
        i = i + 1;
    }
    None
}

proof fn lemma_release_ref_prefix(ref_name: Seq<char>)
    requires
        release_version(ref_name) is Some,
    ensures
        "refs/tags/"@.is_prefix_of(ref_name),
{
    reveal_strlit("refs/tags/");
    reveal_strlit("refs/tags/rust-v");
    let long = "refs/tags/rust-v"@;
    assert("refs/tags/"@ =~= long.take(10));
    assert(ref_name.take(16) == long);
    assert(ref_name.take(10) =~= long.take(10));
}

fn verify_trusted_tag(
    replies: &Replies,
    branch: Branch,
    p: &ResolvedSource,
    git_ref: &GitRef,
) -> (r: Step<()>)
    requires
        release_version(git_ref.ref_name@) is Some,
    ensures
        step_view(r) == trusted_tag_check(replies@, branch, p@, git_ref@),
{
    proof {
        lemma_release_ref_prefix(git_ref.ref_name@);
    }
    let tag_name = match strip_prefix(git_ref.ref_name.as_str(), "refs/tags/") {
        Some(name) => name,
        None => String::new(),
    };
    let commit = match peel(replies, tag_name.as_str(), &git_ref.object) {
        Step::Ask(q) => return Step::Ask(q),
        Step::Fail(message) => return Step::Fail(message),
        Step::Done(commit) => commit,
    };
    if !same(git_ref.object.sha.as_str(), p.ref_object_oid.as_str()) || !same(
        commit.as_str(),
        p.commit_oid.as_str(),
    ) {
        let mut message = "previously trusted release tag ".to_owned();
        message.append(p.ref_name.as_str());
        message.append(" moved from ");
        message.append(p.ref_object_oid.as_str());
        message.append("/");
        message.append(p.commit_oid.as_str());
        message.append(" to ");
        message.append(git_ref.object.sha.as_str());
        message.append("/");
        message.append(commit.as_str());
        message.append("; refusing without --accept-retag");
        return Step::Fail(message);
    }
    let at = match find_release(&replies.releases, tag_name.as_str()) {
        Some(at) => at,
        None => return Step::Ask(Question::Release(tag_name)),
    };
    match &replies.releases[at].release {
        None => {
            let mut message = "published release for previously trusted tag ".to_owned();
            message.append(p.ref_name.as_str());
            message.append(" was deleted; refusing without --accept-retag");
            Step::Fail(message)
        },
        Some(release) => match release_is_published(branch, tag_name.as_str(), release) {
            Err(message) => Step::Fail(message),
            Ok(eligible) => {
                if eligible {
                    Step::Done(())
                } else {
                    let mut message = "previously trusted release ".to_owned();
                    message.append(p.ref_name.as_str());
                    message.append(
                        " is no longer published and eligible; refusing without --accept-retag",
                    );
                    Step::Fail(message)
                }
            },
        },
    }
}

/// The trusted release of the channel is still there, unmoved and published.
pub fn verify_previous_release(
    replies: &Replies,
    branch: Branch,
    previous: Option<&ResolvedSource>,
) -> (r: Step<()>)
    ensures
        step_view(r) == previous_release_check(replies@, branch, opt_source_ref(previous)),
{
    let p = match previous {
        Some(p) => p,
        None => return Step::Done(()),
    };
    if !same(p.channel.as_str(), branch.as_str()) {
        return Step::Done(());
    }
    let refs = match &replies.refs {
        Some(refs) => refs,
        None => return Step::Ask(Question::Refs),
    };
    let at = match find_ref(refs, p.ref_name.as_str()) {
        Some(at) => at,
        None => {
            let mut message = "previously trusted release tag ".to_owned();
            message.append(p.ref_name.as_str());
            message.append(" was deleted; refusing without --accept-retag");
            return Step::Fail(message);
        },
    };
    let git_ref = &refs[at];
    match release_version_of(git_ref.ref_name.as_str()) {
        None => {
            let mut message = "stored release ref ".to_owned();
            message.append(git_ref.ref_name.as_str());
            message.append(" is no longer canonical");
            Step::Fail(message)
        },
        Some(version) => {
            if !same(version.as_str(), p.version.as_str()) {
                let mut message = "stored release ".to_owned();
                message.append(p.ref_name.as_str());
                message.append(" claims version ");
                message.append(p.version.as_str());
                message.append(", but its canonical tag encodes ");
                message.append(version.as_str());
                message.append("; refusing without --accept-retag");
                return Step::Fail(message);
            }
            verify_trusted_tag(replies, branch, p, git_ref)
        },
    }
}

/// A nightly that does not descend from the trusted one is refused, unless that is
/// accepted.
pub fn reject_nightly_force_push(
    replies: &Replies,
    previous: Option<&ResolvedSource>,
    current: &ResolvedSource,
    accept_force_push: bool,
) -> (r: Step<()>)
    ensures
        step_view(r) == force_push_check(
            replies@,
            opt_source_ref(previous),
            current@,
            accept_force_push,
        ),
{
    if accept_force_push || !same(current.channel.as_str(), Branch::Nightly.as_str()) {
        return Step::Done(());
    }
    let p = match previous {
        Some(p) => p,
        None => return Step::Done(()),
    };
    if !same(p.channel.as_str(), current.channel.as_str()) || same(
        p.commit_oid.as_str(),
        current.commit_oid.as_str(),
    ) {
        return Step::Done(());
    }
    let at = match find_comparison(
        &replies.comparisons,
        p.commit_oid.as_str(),
        current.commit_oid.as_str(),
    ) {
        Some(at) => at,
        None => return Step::Ask(
            Question::Compare(p.commit_oid.clone(), current.commit_oid.clone()),
        ),
    };
    let status = replies.comparisons[at].status.as_str();
    if !same(status, "ahead") {
        let mut message = "upstream main moved from ".to_owned();
        message.append(p.commit_oid.as_str());
        message.append(" to ");
        message.append(current.commit_oid.as_str());
        message.append(" with comparison status ");
        message.append(quoted_text(status).as_str());
        message.append("; refusing a non-fast-forward change without --accept-force-push");
        return Step::Fail(message);
    }
    Step::Done(())
}

/// Resolve the newest usable source revision for `branch` from the replies so far.
///
/// `previous` is used to reject a moved stable/alpha tag unless `accept_retag` is
/// enabled.
pub fn resolve(
    replies: &Replies,
    branch: Branch,
    previous: Option<&ResolvedSource>,
    accept_retag: bool,
    accept_force_push: bool,
) -> (r: Step<ResolvedSource>)
    ensures
        step_view(r) == resolution(
            replies@,
            branch,
            opt_source_ref(previous),
            accept_retag,
            accept_force_push,
        ),
        branch != Branch::Nightly ==> (r matches Step::Done(source) ==> newest_published(
            replies@,
            branch,
            source@.version,
        )),
{
    if branch != Branch::Nightly && !accept_retag {
        match verify_previous_release(replies, branch, previous) {
            Step::Ask(q) => return Step::Ask(q),
            Step::Fail(message) => return Step::Fail(message),
            Step::Done(()) => {},
        }
    }
    let found = match branch {
        Branch::Nightly => resolve_nightly(replies),
        _ => resolve_release(replies, branch),
    };
    let source = match found {
        Step::Ask(q) => return Step::Ask(q),
        Step::Fail(message) => return Step::Fail(message),
        Step::Done(source) => source,
    };
    match reject_release_regression(branch, previous, &source, accept_retag) {
        Ok(()) => {},
        Err(message) => return Step::Fail(message),
    }
    match reject_retag(branch, previous, &source, accept_retag) {
        Ok(()) => {},
        Err(message) => return Step::Fail(message),
    }
    match reject_nightly_force_push(replies, previous, &source, accept_force_push) {
        Step::Ask(q) => Step::Ask(q),
        Step::Fail(message) => Step::Fail(message),
        Step::Done(()) => {
            proof {
                if branch != Branch::Nightly {
                    resolved_releases_are_the_newest(
                        replies@,
                        branch,
                        opt_source_ref(previous),
                        accept_retag,
                        accept_force_push,
                        source@,
                    );
                }
            }
            Step::Done(source)
        },
    }
}

} // verus!
