//! When a cached response stands, and which target a configuration comes to.

use vstd::prelude::*;

use crate::config::{
    native_targets, parsed_target, resolved, supported_targets, target_check, Config, TargetSpec,
};
use crate::text::{decimal, is_digit, opt_text, trim};
use crate::types::Timestamp;
use crate::upstream_cache::{
    cached, choose_token, digits_value, entry_after, is_fresh, normalized_api_base, parsed_u64,
    poll_floor, without_slashes, EntryView, Fetch, HttpCache, ReplyView,
};

verus! {

/// A response is looked up by its endpoint, and the first counts.
pub proof fn responses_are_found_by_endpoint(list: Seq<(Seq<char>, EntryView)>, url: Seq<char>)
    ensures
        match cached(list, url) {
            Some(e) => exists|i: int| #[trigger] is_first_response(list, url, i) && list[i].1 == e,
            None => forall|i: int| 0 <= i < list.len() ==> (#[trigger] list[i]).0 != url,
        },
    decreases list.len(),
{
    if list.len() > 0 {
        if list[0].0 == url {
            assert(is_first_response(list, url, 0));
        } else {
            let rest = list.drop_first();
            responses_are_found_by_endpoint(rest, url);
            match cached(list, url) {
                Some(e) => {
                    let i = choose|i: int| #[trigger]
                        is_first_response(rest, url, i) && rest[i].1 == e;
                    assert(list[i + 1] == rest[i]);
                    assert forall|k: int| 0 <= k < i + 1 implies (#[trigger] list[k]).0 != url by {
                        if k > 0 {
                            assert(rest[k - 1] == list[k]);
                        }
                    }
                    assert(is_first_response(list, url, i + 1));
                },
                None => {
                    assert forall|i: int| 0 <= i < list.len() implies (#[trigger] list[i]).0
                        != url by {
                        if i > 0 {
                            assert(rest[i - 1] == list[i]);
                        }
                    }
                },
            }
        }
    }
}

/// The response is the first of its endpoint.
pub open spec fn is_first_response(
    list: Seq<(Seq<char>, EntryView)>,
    url: Seq<char>,
    i: int,
) -> bool {
    0 <= i < list.len() && list[i].0 == url && forall|k: int|
        0 <= k < i ==> (#[trigger] list[k]).0 != url
}

/// The time that has passed since a response was confirmed is within its floor, which is a
/// second at least.
pub open spec fn is_within_floor(e: EntryView, now: Timestamp) -> bool {
    now.nanos < e.checked_at.nanos + 1_000_000_000 || now.nanos < e.checked_at.nanos
        + e.poll_floor_seconds * 1_000_000_000
}

/// A response stands exactly while it is within its floor, and where the check is forced only
/// if the floor was advertised. Otherwise the endpoint is asked, with the tag of the response.
pub proof fn endpoints_are_asked_after_the_floor(
    cache: &HttpCache,
    url: &str,
    now: Timestamp,
    force: bool,
    r: Fetch,
)
    requires
        call_ensures(HttpCache::plan, (cache, url, now, force), r),
    ensures
        ({
            let e = cache.entry(url@);
            let stands = e is Some && is_within_floor(e->0, now) && (force
                ==> e->0.poll_floor_advertised);
            &&& r is Cached <==> stands
            &&& r matches Fetch::Cached { status, body } ==> status == e->0.status && body@
                == e->0.body
            &&& r matches Fetch::Request { etag } ==> opt_text(etag) == (match e {
                Some(known) => known.etag,
                None => None,
            })
        }),
{
    if let Some(e) = cache.entry(url@) {
        assert(is_fresh(e, now, force) <==> is_within_floor(e, now) && (force
            ==> e.poll_floor_advertised)) by (nonlinear_arith);
    }
}

/// A confirmation keeps the response and renews its time, and its tag and floor where they were
/// sent. Any other reply takes the place of the response.
pub proof fn replies_renew_or_replace(
    url: Seq<char>,
    before: Option<EntryView>,
    reply: ReplyView,
    now: Timestamp,
)
    ensures
        ({
            let r = entry_after(url, before, reply, now);
            &&& r is Err <==> reply.status == 304 && before is None
            &&& r matches Ok(e) ==> e.checked_at == now
            &&& r matches Ok(e) ==> (reply.status == 304 ==> e.status == before->0.status && e.body
                == before->0.body && (reply.etag is Some ==> e.etag == reply.etag) && (reply.etag
                is None ==> e.etag == before->0.etag) && (reply.poll_floor matches Some(floor)
                ==> e.poll_floor_seconds == floor && e.poll_floor_advertised) && (reply.poll_floor
                is None ==> e.poll_floor_seconds == before->0.poll_floor_seconds
                && e.poll_floor_advertised == before->0.poll_floor_advertised))
            &&& r matches Ok(e) ==> (reply.status != 304 ==> e.status == reply.status && e.body
                == reply.body && e.etag == reply.etag && (e.poll_floor_advertised
                <==> reply.poll_floor is Some) && (reply.poll_floor matches Some(floor)
                ==> e.poll_floor_seconds == floor) && (reply.poll_floor is None
                ==> e.poll_floor_seconds == 300))
        }),
{
}

/// A response that cannot be confirmed answers exactly where that is allowed.
pub proof fn stale_responses_answer_when_allowed(
    cache: &HttpCache,
    url: &str,
    allowed: bool,
    r: Option<(u16, String)>,
)
    requires
        call_ensures(HttpCache::fallback, (cache, url, allowed), r),
    ensures
        r is Some <==> allowed && cache.entry(url@) is Some,
        r matches Some(answer) ==> answer.0 == cache.entry(url@)->0.status && answer.1@
            == cache.entry(url@)->0.body,
{
}

/// A header is a floor exactly where it is a number above zero.
pub proof fn floors_are_positive_numbers(header: Option<&str>, r: Result<Option<u64>, String>)
    requires
        call_ensures(poll_floor, (header,), r),
    ensures
        (r matches Ok(None)) <==> header is None,
        (r matches Ok(Some(_))) <==> (header matches Some(value) && (parsed_u64(
            value@,
        ) matches Some(seconds) && seconds > 0)),
        r matches Ok(Some(seconds)) ==> parsed_u64(header->0@) == Some(seconds),
{
}

proof fn lemma_digits(n: nat)
    ensures
        decimal(n).len() > 0,
        forall|i: int| 0 <= i < decimal(n).len() ==> is_digit(#[trigger] decimal(n)[i]),
        digits_value(decimal(n)) == n,
    decreases n,
{
    let d = decimal(n);
    if n < 10 {
        assert(d.drop_last() =~= Seq::<char>::empty());
        assert(digits_value(d.drop_last()) == 0);
    } else {
        lemma_digits(n / 10);
        assert(d.drop_last() =~= decimal(n / 10));
        assert forall|i: int| 0 <= i < d.len() implies is_digit(#[trigger] d[i]) by {
            if i < d.len() - 1 {
                assert(d[i] == decimal(n / 10)[i]);
            }
        }
    }
}

/// A number is read back from its digits, with or without a sign in front.
pub proof fn numbers_read_back(n: u64)
    ensures
        parsed_u64(decimal(n as nat)) == Some(n),
        parsed_u64(seq!['+'] + decimal(n as nat)) == Some(n),
{
    lemma_digits(n as nat);
    let d = decimal(n as nat);
    assert(is_digit(d[0]));
    assert((seq!['+'] + d).drop_first() =~= d);
}

/// What is read as a number has digits alone behind its sign.
pub proof fn numbers_have_digits_alone(s: Seq<char>)
    ensures
        s.len() == 0 ==> parsed_u64(s) is None,
        s == seq!['+'] ==> parsed_u64(s) is None,
        forall|i: int|
            0 < i < s.len() && !is_digit(#[trigger] s[i]) ==> parsed_u64(s) is None,
        s.len() > 0 && s[0] != '+' && !is_digit(s[0]) ==> parsed_u64(s) is None,
{
    if s.len() > 0 {
        let d = s.drop_first();
        assert forall|i: int| 0 < i < s.len() && !is_digit(#[trigger] s[i]) implies parsed_u64(
            s,
        ) is None by {
            assert(d[i - 1] == s[i]);
        }
    }
}

/// The base of the API is accepted exactly where it is not blank. Slashes at its end go, and
/// nothing else.
pub proof fn bases_lose_their_last_slashes(base: &str, r: Result<String, String>)
    requires
        call_ensures(normalized_api_base, (base,), r),
    ensures
        r is Ok <==> trim(base@).len() > 0,
        r matches Ok(kept) ==> kept@.is_prefix_of(base@) && (kept@.len() > 0 ==> kept@.last()
            != '/') && forall|i: int| kept@.len() <= i < base@.len() ==> #[trigger] base@[i] == '/',
{
    lemma_slashes(base@);
}

proof fn lemma_slashes(s: Seq<char>)
    ensures
        without_slashes(s).is_prefix_of(s),
        without_slashes(s).len() > 0 ==> without_slashes(s).last() != '/',
        forall|i: int| without_slashes(s).len() <= i < s.len() ==> #[trigger] s[i] == '/',
    decreases s.len(),
{
    if s.len() > 0 && s.last() == '/' {
        let rest = s.drop_last();
        lemma_slashes(rest);
        let kept = without_slashes(s);
        assert(kept =~= s.take(kept.len() as int)) by {
            assert(rest.take(kept.len() as int) =~= s.take(kept.len() as int));
        }
        assert forall|i: int| kept.len() <= i < s.len() implies #[trigger] s[i] == '/' by {
            if i < rest.len() {
                assert(rest[i] == s[i]);
            }
        }
    } else {
        assert(s.take(s.len() as int) =~= s);
    }
}

/// The token that is sent is the first that was given and is not empty: the user's own, then the
/// one of GitHub, then the one of its tool.
pub proof fn the_first_token_is_sent(
    given: &Option<String>,
    github_token: &Option<String>,
    gh_token: &Option<String>,
    r: Option<String>,
)
    requires
        call_ensures(choose_token, (given, github_token, gh_token), r),
    ensures
        ({
            let a = given matches Some(t) && t@.len() > 0;
            let b = github_token matches Some(t) && t@.len() > 0;
            let c = gh_token matches Some(t) && t@.len() > 0;
            &&& r is None <==> !a && !b && !c
            &&& a ==> opt_text(r) == opt_text(*given)
            &&& !a && b ==> opt_text(r) == opt_text(*github_token)
            &&& !a && !b && c ==> opt_text(r) == opt_text(*gh_token)
        }),
{
}

/// A target that can be built.
pub open spec fn is_known_target(t: Seq<char>) -> bool {
    t == "aarch64-apple-darwin"@ || t == "aarch64-pc-windows-msvc"@ || t
        == "aarch64-unknown-linux-gnu"@ || t == "aarch64-unknown-linux-musl"@ || t
        == "x86_64-apple-darwin"@ || t == "x86_64-pc-windows-msvc"@ || t
        == "x86_64-unknown-linux-gnu"@ || t == "x86_64-unknown-linux-musl"@
}

/// What the targets of a system end in, its default first.
pub open spec fn is_of_system(rest: Seq<char>, os: Seq<char>) -> bool {
    (os == "linux"@ && (rest == "-unknown-linux-gnu"@ || rest == "-unknown-linux-musl"@)) || (os
        == "macos"@ && rest == "-apple-darwin"@) || (os == "windows"@ && rest
        == "-pc-windows-msvc"@)
}

proof fn lemma_known(t: Seq<char>)
    ensures
        supported_targets().contains(t) <==> is_known_target(t),
{
    let s = supported_targets();
    assert(s[0] == "aarch64-apple-darwin"@);
    assert(s[1] == "aarch64-pc-windows-msvc"@);
    assert(s[2] == "aarch64-unknown-linux-gnu"@);
    assert(s[3] == "aarch64-unknown-linux-musl"@);
    assert(s[4] == "x86_64-apple-darwin"@);
    assert(s[5] == "x86_64-pc-windows-msvc"@);
    assert(s[6] == "x86_64-unknown-linux-gnu"@);
    assert(s[7] == "x86_64-unknown-linux-musl"@);
}

/// A value names the native target, or one that can be built.
pub proof fn values_name_targets(value: Seq<char>)
    ensures
        parsed_target(value) is Ok <==> value == "native"@ || value == "official-native"@
            || is_known_target(value),
        parsed_target(value) matches Ok(None) ==> value == "native"@ || value == "official-native"@,
        parsed_target(value) matches Ok(Some(t)) ==> t == value,
        value == "native"@ || value == "official-native"@ ==> parsed_target(value) == Ok::<
            Option<Seq<char>>,
            Seq<char>,
        >(None),
{
    lemma_known(value);
}

proof fn lemma_spelled()
    ensures
        "x86_64"@ + "-unknown-linux-gnu"@ == "x86_64-unknown-linux-gnu"@,
        "x86_64"@ + "-unknown-linux-musl"@ == "x86_64-unknown-linux-musl"@,
        "aarch64"@ + "-unknown-linux-gnu"@ == "aarch64-unknown-linux-gnu"@,
        "aarch64"@ + "-unknown-linux-musl"@ == "aarch64-unknown-linux-musl"@,
        "x86_64"@ + "-apple-darwin"@ == "x86_64-apple-darwin"@,
        "aarch64"@ + "-apple-darwin"@ == "aarch64-apple-darwin"@,
        "x86_64"@ + "-pc-windows-msvc"@ == "x86_64-pc-windows-msvc"@,
        "aarch64"@ + "-pc-windows-msvc"@ == "aarch64-pc-windows-msvc"@,
        "x86_64"@ != "aarch64"@,
        "linux"@ != "macos"@,
        "linux"@ != "windows"@,
        "macos"@ != "windows"@,
{
    reveal_strlit("x86_64");
    reveal_strlit("aarch64");
    reveal_strlit("linux");
    reveal_strlit("macos");
    reveal_strlit("windows");
    reveal_strlit("-unknown-linux-gnu");
    reveal_strlit("-unknown-linux-musl");
    reveal_strlit("-apple-darwin");
    reveal_strlit("-pc-windows-msvc");
    reveal_strlit("x86_64-unknown-linux-gnu");
    reveal_strlit("x86_64-unknown-linux-musl");
    reveal_strlit("aarch64-unknown-linux-gnu");
    reveal_strlit("aarch64-unknown-linux-musl");
    reveal_strlit("x86_64-apple-darwin");
    reveal_strlit("aarch64-apple-darwin");
    reveal_strlit("x86_64-pc-windows-msvc");
    reveal_strlit("aarch64-pc-windows-msvc");
    assert("x86_64"@ + "-unknown-linux-gnu"@ =~= "x86_64-unknown-linux-gnu"@);
    assert("x86_64"@ + "-unknown-linux-musl"@ =~= "x86_64-unknown-linux-musl"@);
    assert("aarch64"@ + "-unknown-linux-gnu"@ =~= "aarch64-unknown-linux-gnu"@);
    assert("aarch64"@ + "-unknown-linux-musl"@ =~= "aarch64-unknown-linux-musl"@);
    assert("x86_64"@ + "-apple-darwin"@ =~= "x86_64-apple-darwin"@);
    assert("aarch64"@ + "-apple-darwin"@ =~= "aarch64-apple-darwin"@);
    assert("x86_64"@ + "-pc-windows-msvc"@ =~= "x86_64-pc-windows-msvc"@);
    assert("aarch64"@ + "-pc-windows-msvc"@ =~= "aarch64-pc-windows-msvc"@);
    assert("x86_64"@[0] == 'x' && "aarch64"@[0] == 'a');
    assert("linux"@[0] == 'l' && "macos"@[0] == 'm' && "windows"@[0] == 'w');
}

/// A host that is known: one of three systems on one of two processors.
pub open spec fn is_known_host(os: Seq<char>, arch: Seq<char>) -> bool {
    (os == "linux"@ || os == "macos"@ || os == "windows"@) && (arch == "x86_64"@ || arch
        == "aarch64"@)
}

/// What the default target of a system ends in.
pub open spec fn default_of(os: Seq<char>) -> Seq<char> {
    if os == "linux"@ {
        "-unknown-linux-gnu"@
    } else if os == "macos"@ {
        "-apple-darwin"@
    } else {
        "-pc-windows-msvc"@
    }
}

/// The native target of a known host is that of its own processor and system, and no other host
/// has one. A target by name is accepted exactly where it is of the host's own processor and
/// system.
pub proof fn hosts_build_for_themselves(t: TargetSpec, os: Seq<char>, arch: Seq<char>)
    ensures
        t is OfficialNative ==> (resolved(t, os, arch) is Ok <==> is_known_host(os, arch)),
        t is OfficialNative && is_known_host(os, arch) ==> resolved(t, os, arch) == Ok::<
            Seq<char>,
            Seq<char>,
        >(arch + default_of(os)),
        t matches TargetSpec::Triple(target) ==> (resolved(t, os, arch) is Ok <==> is_known_host(
            os,
            arch,
        ) && is_of_host(target@, os, arch)),
        t matches TargetSpec::Triple(target) ==> (resolved(t, os, arch) matches Ok(r) ==> r
            == target@),
{
    lemma_spelled();
    if let TargetSpec::Triple(target) = t {
        let name = target@;
        lemma_known(name);
        let n = native_targets(os, arch);
        if n.len() > 0 {
            assert(n.contains(n[0]));
        }
        if n.len() > 1 {
            assert(n.contains(n[1]));
        }
        assert(resolved(t, os, arch) is Ok <==> target_check(name, os, arch) is Ok);
        if is_known_host(os, arch) {
            assert(n.contains(name) <==> is_of_host(name, os, arch)) by {
                if is_of_host(name, os, arch) {
                    let rest = choose|rest: Seq<char>| #[trigger]
                        is_of_system(rest, os) && name == arch + rest;
                    if os == "linux"@ && rest == "-unknown-linux-musl"@ {
                        assert(n[1] == name);
                    } else {
                        assert(n[0] == name);
                    }
                }
                if n.contains(name) {
                    let i = choose|i: int| 0 <= i < n.len() && n[i] == name;
                    if i == 0 {
                        assert(is_of_system(default_of(os), os));
                        assert(name == arch + default_of(os));
                    } else {
                        assert(is_of_system("-unknown-linux-musl"@, os));
                        assert(name == arch + "-unknown-linux-musl"@);
                    }
                }
            }
            if is_of_host(name, os, arch) {
                let rest = choose|rest: Seq<char>| #[trigger]
                    is_of_system(rest, os) && name == arch + rest;
                assert(is_known_target(name));
            }
        }
    }
}

/// The target is one of that processor and system.
pub open spec fn is_of_host(target: Seq<char>, os: Seq<char>, arch: Seq<char>) -> bool {
    exists|rest: Seq<char>| #[trigger] is_of_system(rest, os) && target == arch + rest
}

/// A configuration is valid exactly where its version is known and its target can be built on
/// the host.
pub proof fn configurations_fit_their_host(
    config: &Config,
    os: &str,
    arch: &str,
    r: Result<(), String>,
)
    requires
        call_ensures(Config::validate, (config, os, arch), r),
    ensures
        r is Ok <==> config.schema == 1 && resolved(config.target, os@, arch@) is Ok,
{
}

} // verus!
