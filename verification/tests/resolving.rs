use codex_patcher::config::Branch;
use codex_patcher::types::{ResolvedSource, Timestamp};
use codex_patcher::upstream::{
    answer, reject_nightly_force_push, reject_release_regression, reject_retag, release_candidates,
    release_is_published, release_version_of, resolve, validate_oid, Answer, CompareReply, GitObject,
    GitRef, GitRelease, Question, ReleaseReply, Replies, Step,
};
use codex_patcher::upstream_cache::{
    budget_left, cache_entry_is_fresh, choose_token, normalized_api_base, parse_u64, poll_floor,
    unexpected_status, CacheEntry, Fetch, HttpCache, HttpReply,
};

const NOW: Timestamp = Timestamp { nanos: 1_700_000_000_000_000_000 };
const SECOND: i128 = 1_000_000_000;

fn before(seconds: i128) -> Timestamp {
    Timestamp { nanos: NOW.nanos - seconds * SECOND }
}

fn object(byte: char) -> GitObject {
    GitObject {
        sha: byte.to_string().repeat(40),
        kind: "commit".to_owned(),
    }
}

fn git_ref(name: &str, byte: char) -> GitRef {
    GitRef {
        ref_name: name.to_owned(),
        object: object(byte),
    }
}

fn release(tag: &str, prerelease: bool) -> GitRelease {
    GitRelease {
        tag_name: tag.to_owned(),
        draft: false,
        prerelease,
        published_at: Some(NOW),
        html_url: format!("https://example.invalid/{tag}"),
    }
}

fn stable(version: &str) -> ResolvedSource {
    ResolvedSource {
        channel: "stable".to_owned(),
        ref_name: format!("refs/tags/rust-v{version}"),
        ref_object_oid: "a".repeat(40),
        commit_oid: "b".repeat(40),
        version: version.to_owned(),
        release_url: None,
    }
}

#[test]
fn canonical_release_tags_are_filtered_and_semver_sorted() {
    let refs = vec![
        git_ref("refs/tags/rust-v1.9.0", 'a'),
        git_ref("refs/tags/rust-v2.0.0-alpha.9", 'b'),
        git_ref("refs/tags/rust-v1.10.0", 'c'),
        git_ref("refs/tags/rust-v2.0.0-beta.1", 'd'),
        git_ref("refs/tags/rust-v01.11.0", 'e'),
        git_ref("refs/tags/rust-v2.0.0-rc.1", 'f'),
        git_ref("refs/tags/latest-alpha-cli", '0'),
    ];
    let versions = |branch| {
        release_candidates(branch, &refs)
            .unwrap()
            .iter()
            .map(|candidate| candidate.version.clone())
            .collect::<Vec<_>>()
    };
    assert_eq!(versions(Branch::Stable), ["1.10.0", "1.9.0"]);
    assert_eq!(
        versions(Branch::Alpha),
        ["2.0.0-rc.1", "2.0.0-beta.1", "2.0.0-alpha.9"]
    );
}

#[test]
fn publication_gate_rejects_drafts_and_wrong_release_kinds() {
    let tag = "rust-v1.2.3";
    assert!(release_is_published(Branch::Stable, tag, &release(tag, false)).unwrap());

    let mut draft = release(tag, false);
    draft.draft = true;
    assert!(!release_is_published(Branch::Stable, tag, &draft).unwrap());

    let wrong_kind = release(tag, true);
    assert!(release_is_published(Branch::Stable, tag, &wrong_kind).is_err());
}

#[test]
fn stable_retags_are_rejected_but_nightly_moves_are_normal() {
    let previous = stable("1.2.3");
    let mut current = previous.clone();
    current.commit_oid = "c".repeat(40);
    assert!(reject_retag(Branch::Stable, Some(&previous), &current, false).is_err());
    assert!(reject_retag(Branch::Stable, Some(&previous), &current, true).is_ok());
    assert!(reject_retag(Branch::Nightly, Some(&previous), &current, false).is_ok());
}

#[test]
fn release_deletion_or_downgrade_is_rejected() {
    let previous = stable("2.0.0");
    let mut current = previous.clone();
    current.ref_name = "refs/tags/rust-v1.99.0".to_owned();
    current.version = "1.99.0".to_owned();
    assert!(reject_release_regression(Branch::Stable, Some(&previous), &current, false).is_err());
    assert!(reject_release_regression(Branch::Stable, Some(&previous), &current, true).is_ok());

    current.channel = "alpha".to_owned();
    current.version = "3.0.0-alpha.1".to_owned();
    assert!(reject_release_regression(Branch::Alpha, Some(&previous), &current, false).is_ok());
}

fn entry(checked_at: Timestamp, seconds: u64, advertised: bool) -> CacheEntry {
    CacheEntry {
        status: 200,
        etag: Some("etag".to_owned()),
        checked_at,
        poll_floor_seconds: seconds,
        poll_floor_advertised: advertised,
        body: "{}".to_owned(),
    }
}

#[test]
fn response_cache_obeys_the_poll_floor() {
    assert!(cache_entry_is_fresh(&entry(before(299), 300, false), NOW, false));
    assert!(!cache_entry_is_fresh(&entry(before(299), 300, false), NOW, true));
    assert!(!cache_entry_is_fresh(&entry(before(300), 300, false), NOW, false));
    assert!(cache_entry_is_fresh(&entry(before(9), 10, true), NOW, true));
    assert!(!cache_entry_is_fresh(&entry(before(10), 10, true), NOW, true));
}

#[test]
fn object_ids_must_be_full_hex_values() {
    assert!(validate_oid(&"a".repeat(40)).is_ok());
    assert!(validate_oid(&"f".repeat(64)).is_ok());
    assert!(validate_oid("abc").is_err());
    assert!(validate_oid(&"z".repeat(40)).is_err());
}

#[test]
fn release_refs_name_their_versions() {
    assert_eq!(
        release_version_of("refs/tags/rust-v1.2.3").as_deref(),
        Some("1.2.3")
    );
    assert_eq!(
        release_version_of("refs/tags/rust-v1.2.3-alpha.1").as_deref(),
        Some("1.2.3-alpha.1")
    );
    assert_eq!(release_version_of("refs/tags/rust-v1.2"), None);
    assert_eq!(release_version_of("refs/tags/rust-v1.2.3-"), None);
    assert_eq!(release_version_of("refs/heads/main"), None);
}

#[test]
fn a_release_is_resolved_question_by_question() {
    let mut replies = Replies::none();
    assert!(matches!(
        resolve(&replies, Branch::Stable, None, false, false),
        Step::Ask(Question::Refs)
    ));
    replies.refs = Some(vec![git_ref("refs/tags/rust-v1.2.3", 'c')]);
    match resolve(&replies, Branch::Stable, None, false, false) {
        Step::Ask(Question::Release(tag)) => assert_eq!(tag, "rust-v1.2.3"),
        other => panic!("{other:?}"),
    }
    replies.releases.push(ReleaseReply {
        tag: "rust-v1.2.3".to_owned(),
        release: Some(release("rust-v1.2.3", false)),
    });
    match resolve(&replies, Branch::Stable, None, false, false) {
        Step::Done(source) => {
            assert_eq!(source.version, "1.2.3");
            assert_eq!(source.commit_oid, "c".repeat(40));
            assert_eq!(
                source.release_url.as_deref(),
                Some("https://example.invalid/rust-v1.2.3")
            );
        }
        other => panic!("{other:?}"),
    }
}

#[test]
fn a_nightly_that_does_not_descend_needs_consent() {
    let previous = ResolvedSource {
        channel: "nightly".to_owned(),
        ref_name: "refs/heads/main".to_owned(),
        ..stable("0.0.0")
    };
    let mut current = previous.clone();
    current.commit_oid = "c".repeat(40);
    let mut replies = Replies::none();
    assert!(matches!(
        reject_nightly_force_push(&replies, Some(&previous), &current, false),
        Step::Ask(Question::Compare(..))
    ));
    replies.comparisons.push(CompareReply {
        base: "b".repeat(40),
        head: "c".repeat(40),
        status: "diverged".to_owned(),
    });
    assert!(matches!(
        reject_nightly_force_push(&replies, Some(&previous), &current, false),
        Step::Fail(_)
    ));
    assert!(matches!(
        reject_nightly_force_push(&replies, Some(&previous), &current, true),
        Step::Done(())
    ));
}

#[test]
fn questions_have_their_endpoints() {
    let base = "https://api.example/repos/openai/codex";
    let url = Question::Main.url(base);
    assert!(url.starts_with(base), "{url}");
    assert!(url.contains("main"), "{url}");
    assert!(Question::Tag("abc".to_owned()).url(base).ends_with("abc"));
}

#[test]
fn replies_are_stored_revalidated_and_reused() {
    let mut cache = HttpCache { schema: 1, entries: Vec::new() };
    assert!(cache.check_schema("/cache").is_ok());
    assert!(matches!(
        cache.plan("u", NOW, false),
        Fetch::Request { etag: None }
    ));
    let reply = HttpReply {
        status: 200,
        etag: Some("e1".to_owned()),
        poll_floor: None,
        body: "body".to_owned(),
    };
    assert_eq!(cache.store("u", &reply, NOW).unwrap(), (200, "body".to_owned()));
    match cache.plan("u", NOW.plus_seconds(1), false) {
        Fetch::Cached { status, body } => {
            assert_eq!(status, 200);
            assert_eq!(body, "body");
        }
        other => panic!("{other:?}"),
    }
    match cache.plan("u", NOW.plus_seconds(301), false) {
        Fetch::Request { etag } => assert_eq!(etag.as_deref(), Some("e1")),
        other => panic!("{other:?}"),
    }
    let not_modified = HttpReply {
        status: 304,
        etag: None,
        poll_floor: None,
        body: String::new(),
    };
    assert_eq!(
        cache.store("u", &not_modified, NOW.plus_seconds(301)).unwrap(),
        (200, "body".to_owned())
    );
    assert_eq!(cache.fallback("u", true), Some((200, "body".to_owned())));
    assert_eq!(cache.fallback("u", false), None);
    assert_eq!(
        cache.next_check_at(&vec!["u".to_owned()], true, NOW),
        Some(NOW.plus_seconds(30))
    );
    let other = HttpCache { schema: 9, entries: Vec::new() };
    assert!(other.check_schema("/cache").is_err());
}

#[test]
fn headers_bases_and_tokens_are_read_strictly() {
    assert_eq!(parse_u64("+60"), Some(60));
    assert_eq!(parse_u64("18446744073709551615"), Some(u64::MAX));
    assert_eq!(parse_u64("18446744073709551616"), None);
    assert_eq!(parse_u64(""), None);
    assert_eq!(parse_u64("-1"), None);
    assert_eq!(poll_floor(Some("60")).unwrap(), Some(60));
    assert_eq!(
        poll_floor(Some("0")).err().unwrap(),
        "GitHub returned a zero X-Poll-Interval header"
    );
    assert_eq!(
        poll_floor(Some("soon")).err().unwrap(),
        "GitHub returned a non-numeric X-Poll-Interval header: invalid digit found in string"
    );
    assert_eq!(
        normalized_api_base("https://api.example/").unwrap(),
        "https://api.example"
    );
    let text = |value: &str| Some(value.to_owned());
    assert_eq!(choose_token(&text("a"), &text("b"), &None), text("a"));
    assert_eq!(choose_token(&None, &None, &text("c")), text("c"));
    let message = unexpected_status("u", "500 Internal Server Error", &"x".repeat(501));
    assert!(message.ends_with("..."), "{message}");
    assert!(budget_left(3, NOW, NOW.plus_seconds(4)) <= 0);
    assert!(budget_left(3, NOW, NOW.plus_seconds(1)) > 0);
}

#[test]
fn only_releases_may_be_missing() {
    let release = Question::Release("rust-v1.0.0".to_owned());
    assert_eq!(answer(&release, 200), Answer::Body);
    assert_eq!(answer(&release, 404), Answer::Absent);
    assert_eq!(answer(&release, 500), Answer::Unexpected);
    assert_eq!(answer(&Question::Refs, 404), Answer::Unexpected);
    assert_eq!(answer(&Question::Main, 200), Answer::Body);
}

#[test]
fn the_newest_published_release_is_resolved_whatever_the_order_of_the_tags() {
    for names in [["1.9.0", "1.10.0", "1.2.0"], ["1.10.0", "1.2.0", "1.9.0"]] {
        let refs = names.iter().map(|name| git_ref(&format!("refs/tags/rust-v{name}"), 'a'));
        let mut replies = Replies::none();
        replies.refs = Some(refs.collect());
        for tag in ["rust-v1.10.0", "rust-v1.9.0"] {
            let release = Some(release(tag, false));
            replies.releases.push(ReleaseReply { tag: tag.to_owned(), release });
        }
        match resolve(&replies, Branch::Stable, None, false, false) {
            Step::Done(source) => assert_eq!(source.version, "1.10.0"),
            other => panic!("{other:?}"),
        }
        let newest = &mut replies.releases[0].release;
        newest.as_mut().unwrap().published_at = None;
        match resolve(&replies, Branch::Stable, None, false, false) {
            Step::Done(source) => assert_eq!(source.version, "1.9.0"),
            other => panic!("{other:?}"),
        }
    }
}

#[test]
fn versions_that_are_none_are_reported_with_their_cause() {
    let cause = semver::Version::parse("1.2").err().unwrap();
    let (bad, good) = (stable("1.2"), stable("1.2.3"));
    assert_eq!(
        reject_release_regression(Branch::Stable, Some(&bad), &good, false).err().unwrap(),
        format!("stored source has invalid SemVer 1.2: {cause}")
    );
    assert_eq!(
        reject_release_regression(Branch::Stable, Some(&good), &bad, false).err().unwrap(),
        format!("resolved source has invalid SemVer 1.2: {cause}")
    );
}
