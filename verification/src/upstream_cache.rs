//! Cached GitHub responses and the polling floor.

use vstd::prelude::*;

use crate::outside::{u64_error, u64_error_text};
use crate::probe::UNREACHABLE_RETRY_SECONDS;
use crate::text::{
    chars_of, decimal, decimal_text, is_digit, is_digit_char, opt_text, result_text, result_unit,
    same, text_between, trim, trimmed,
};
use crate::types::{copy_opt, in_calendar, later, Timestamp};
use crate::upstream::{CACHE_SCHEMA, FALLBACK_POLL_FLOOR_SECONDS};

verus! {

/// One response, when it was last confirmed, and for how long it must not be asked again.
#[derive(Debug)]
pub struct CacheEntry {
    pub status: u16,
    pub etag: Option<String>,
    pub checked_at: Timestamp,
    pub poll_floor_seconds: u64,
    pub poll_floor_advertised: bool,
    pub body: String,
}

pub struct EntryView {
    pub status: u16,
    pub etag: Option<Seq<char>>,
    pub checked_at: Timestamp,
    pub poll_floor_seconds: u64,
    pub poll_floor_advertised: bool,
    pub body: Seq<char>,
}

impl View for CacheEntry {
    type V = EntryView;

    open spec fn view(&self) -> EntryView {
        EntryView {
            status: self.status,
            etag: opt_text(self.etag),
            checked_at: self.checked_at,
            poll_floor_seconds: self.poll_floor_seconds,
            poll_floor_advertised: self.poll_floor_advertised,
            body: self.body@,
        }
    }
}

#[derive(Debug)]
pub struct CachedUrl {
    pub url: String,
    pub entry: CacheEntry,
}

/// The responses, at most one for each endpoint.
#[derive(Debug)]
pub struct HttpCache {
    pub schema: u32,
    pub entries: Vec<CachedUrl>,
}

pub open spec fn entries_view(v: Seq<CachedUrl>) -> Seq<(Seq<char>, EntryView)> {
    v.map_values(|c: CachedUrl| (c.url@, c.entry@))
}

pub open spec fn cached(list: Seq<(Seq<char>, EntryView)>, url: Seq<char>) -> Option<EntryView>
    decreases list.len(),
{
    if list.len() == 0 {
        None
    } else if list[0].0 == url {
        Some(list[0].1)
    } else {
        cached(list.drop_first(), url)
    }
}

impl HttpCache {
    pub open spec fn entry(&self, url: Seq<char>) -> Option<EntryView> {
        cached(entries_view(self.entries@), url)
    }
}

impl Default for HttpCache {
    fn default() -> (r: Self)
        ensures
            r.schema == CACHE_SCHEMA,
            forall|url: Seq<char>| r.entry(url) is None,
    {
        HttpCache { schema: CACHE_SCHEMA, entries: Vec::new() }
    }
}

/// The polling floor in seconds is at least one.
pub open spec fn floor_of(e: EntryView) -> u64 {
    if e.poll_floor_seconds == 0 {
        1
    } else {
        e.poll_floor_seconds
    }
}

/// The response may be used without asking again. Forcing overrides a floor that GitHub
/// did not advertise.
pub open spec fn is_fresh(e: EntryView, now: Timestamp, force: bool) -> bool {
    (e.poll_floor_advertised || !force) && now.nanos - e.checked_at.nanos < floor_of(e)
        * 1_000_000_000
}

pub fn cache_entry_is_fresh(entry: &CacheEntry, now: Timestamp, force: bool) -> (r: bool)
    requires
        in_calendar(now),
        in_calendar(entry.checked_at),
    ensures
        r == is_fresh(entry@, now, force),
{
    if force && !entry.poll_floor_advertised {
        return false;
    }
    let floor: u64 = if entry.poll_floor_seconds == 0 { 1 } else { entry.poll_floor_seconds };
    let age: i128 = now.nanos - entry.checked_at.nanos;
    age < (floor as i128) * 1_000_000_000
}

/// When a response must be confirmed again.
pub open spec fn expiry(e: EntryView) -> Timestamp {
    later(e.checked_at, floor_of(e))
}

/// The number that a text of digits writes.
pub open spec fn digits_value(s: Seq<char>) -> nat
    decreases s.len(),
{
    if s.len() == 0 {
        0
    } else {
        10 * digits_value(s.drop_last()) + (s.last() as nat - '0' as nat) as nat
    }
}

pub open spec fn without_plus(s: Seq<char>) -> Seq<char> {
    if s.len() > 0 && s[0] == '+' {
        s.drop_first()
    } else {
        s
    }
}

/// Decimal digits, after an optional `+`, of a number that fits in 64 bits.
pub open spec fn parsed_u64(s: Seq<char>) -> Option<u64> {
    let digits = without_plus(s);
    if digits.len() > 0 && (forall|i: int| 0 <= i < digits.len() ==> is_digit(#[trigger] digits[i]))
        && digits_value(digits) <= u64::MAX {
        Some(digits_value(digits) as u64)
    } else {
        None
    }
}

proof fn lemma_digits_grow(s: Seq<char>, n: int)
    requires
        0 <= n <= s.len(),
    ensures
        digits_value(s.take(n)) <= digits_value(s),
    decreases s.len() - n,
{
    if n < s.len() {
        assert(s.take(n + 1).drop_last() =~= s.take(n));
        lemma_digits_grow(s, n + 1);
    } else {
        assert(s.take(n) =~= s);
    }
}

pub fn parse_u64(s: &str) -> (r: Option<u64>)
    ensures
        r == parsed_u64(s@),
{
    let chars = chars_of(s);
    let start: usize = if chars.len() > 0 && chars[0] == '+' { 1 } else { 0 };
    let ghost digits = without_plus(s@);
    proof {
        assert(digits =~= chars@.skip(start as int));
        assert(digits.take(0) =~= Seq::empty());
    }
    let mut value: u64 = 0;
    let mut i: usize = start;
    while i < chars.len()
        invariant
            start <= i <= chars@.len(),
            start <= 1,
            chars@ == s@,
            digits == without_plus(s@),
            digits == chars@.skip(start as int),
            value == digits_value(digits.take(i - start)),
            forall|j: int| 0 <= j < i - start ==> is_digit(#[trigger] digits[j]),
        decreases chars@.len() - i,
    {
        let c: char = chars[i];
        proof {
            assert(digits[i - start] == c);
            assert(digits.take(i - start + 1).drop_last() =~= digits.take(i - start));
            assert(digits.take(i - start + 1).last() == c);
        }
        if !is_digit_char(c) {
            return None;
        }
        let d: u64 = (c as u32 - 48) as u64;
        proof {
            lemma_digits_grow(digits, i - start + 1);
        }
        if value > (u64::MAX - d) / 10 {
            proof {
                assert(10 * value + d > u64::MAX) by (nonlinear_arith)
                    requires
                        value > (u64::MAX - d) / 10,
                        d <= 9,
                ;
            }
            return None;
        }
        proof {
            assert(10 * value + d <= u64::MAX) by (nonlinear_arith)
                requires
                    value <= (u64::MAX - d) / 10,
                    d <= 9,
            ;
        }
        value = 10 * value + d;
        i = i + 1;
    }
    proof {
        assert(digits.take(digits.len() as int) =~= digits);
    }
    if start == chars.len() {
        None
    } else {
        Some(value)
    }
}

pub open spec fn floor_result(r: Result<Option<u64>, String>) -> Result<Option<u64>, Seq<char>> {
    match r {
        Ok(v) => Ok(v),
        Err(message) => Err(message@),
    }
}

/// The polling floor that a response advertises in `X-Poll-Interval`.
pub fn poll_floor(header: Option<&str>) -> (r: Result<Option<u64>, String>)
    ensures
        floor_result(r) == (match header {
            None => Ok(None),
            Some(value) => match parsed_u64(value@) {
                None => Err(
                    "GitHub returned a non-numeric X-Poll-Interval header: "@ + u64_error(value@)->0,
                ),
                Some(seconds) => if seconds == 0 {
                    Err("GitHub returned a zero X-Poll-Interval header"@)
                } else {
                    Ok(Some(seconds))
                },
            },
        }),
{
    match header {
        None => Ok(None),
        Some(value) => match parse_u64(value) {
            None => {
                let mut message =
                    "GitHub returned a non-numeric X-Poll-Interval header: ".to_owned();
                if let Some(cause) = u64_error_text(value) {
                    message.append(cause.as_str());
                }
                Err(message)
            },
            Some(seconds) => {
                if seconds == 0 {
                    Err("GitHub returned a zero X-Poll-Interval header".to_owned())
                } else {
                    Ok(Some(seconds))
                }
            },
        },
    }
}

/// What to do about one endpoint.
#[derive(Debug)]
pub enum Fetch {
    /// The cached response stands.
    Cached { status: u16, body: String },
    /// Ask, with the entity tag of the cached response.
    Request { etag: Option<String> },
}

/// What GitHub sent back.
#[derive(Debug)]
pub struct HttpReply {
    pub status: u16,
    pub etag: Option<String>,
    pub poll_floor: Option<u64>,
    pub body: String,
}

pub struct ReplyView {
    pub status: u16,
    pub etag: Option<Seq<char>>,
    pub poll_floor: Option<u64>,
    pub body: Seq<char>,
}

impl View for HttpReply {
    type V = ReplyView;

    open spec fn view(&self) -> ReplyView {
        ReplyView {
            status: self.status,
            etag: opt_text(self.etag),
            poll_floor: self.poll_floor,
            body: self.body@,
        }
    }
}

/// What is kept of a reply. A reply of status 304 confirms the response that is there.
pub open spec fn entry_after(
    url: Seq<char>,
    before: Option<EntryView>,
    reply: ReplyView,
    now: Timestamp,
) -> Result<EntryView, Seq<char>> {
    if reply.status == 304 {
        match before {
            None => Err(
                "GitHub returned 304 for "@ + url + ", but no cached response exists"@,
            ),
            Some(e) => Ok(
                EntryView {
                    checked_at: now,
                    etag: match reply.etag {
                        Some(tag) => Some(tag),
                        None => e.etag,
                    },
                    poll_floor_seconds: match reply.poll_floor {
                        Some(floor) => floor,
                        None => e.poll_floor_seconds,
                    },
                    poll_floor_advertised: reply.poll_floor is Some || e.poll_floor_advertised,
                    ..e
                },
            ),
        }
    } else {
        Ok(
            EntryView {
                status: reply.status,
                etag: reply.etag,
                checked_at: now,
                poll_floor_seconds: match reply.poll_floor {
                    Some(floor) => floor,
                    None => FALLBACK_POLL_FLOOR_SECONDS,
                },
                poll_floor_advertised: reply.poll_floor is Some,
                body: reply.body,
            },
        )
    }
}

proof fn lemma_cached_update(
    list: Seq<(Seq<char>, EntryView)>,
    i: int,
    e: EntryView,
    url: Seq<char>,
)
    requires
        0 <= i < list.len(),
        forall|j: int| 0 <= j < i ==> (#[trigger] list[j]).0 != list[i].0,
    ensures
        cached(list.update(i, (list[i].0, e)), url) == (if url == list[i].0 {
            Some(e)
        } else {
            cached(list, url)
        }),
    decreases i,
{
    let after = list.update(i, (list[i].0, e));
    if i == 0 {
        assert(after.drop_first() =~= list.drop_first());
    } else {
        assert(after.drop_first() =~= list.drop_first().update(i - 1, (list[i].0, e)));
        assert(list.drop_first()[i - 1] == list[i]);
        assert forall|j: int| 0 <= j < i - 1 implies (#[trigger] list.drop_first()[j]).0
            != list.drop_first()[i - 1].0 by {
            assert(list.drop_first()[j] == list[j + 1]);
        }
        lemma_cached_update(list.drop_first(), i - 1, e, url);
        assert(list[0].0 != list[i].0);
    }
}

proof fn lemma_cached_push(
    list: Seq<(Seq<char>, EntryView)>,
    x: (Seq<char>, EntryView),
    url: Seq<char>,
)
    requires
        cached(list, x.0) is None,
    ensures
        cached(list.push(x), url) == (if url == x.0 {
            Some(x.1)
        } else {
            cached(list, url)
        }),
    decreases list.len(),
{
    if list.len() > 0 {
        assert(list.push(x).drop_first() =~= list.drop_first().push(x));
        lemma_cached_push(list.drop_first(), x, url);
    } else {
        reveal_with_fuel(cached, 2);
        assert(list.push(x).drop_first() =~= list);
    }
}

impl HttpCache {
    /// The position of the first response of that endpoint, or the length.
    fn position(&self, url: &str) -> (r: usize)
        ensures
            r <= self.entries@.len(),
            r < self.entries@.len() ==> self.entries@[r as int].url@ == url@ && self.entry(url@)
                == Some(self.entries@[r as int].entry@),
            r == self.entries@.len() ==> self.entry(url@) is None,
            forall|j: int| 0 <= j < r ==> (#[trigger] self.entries@[j]).url@ != url@,
    {
        let ghost all = entries_view(self.entries@);
        let mut i: usize = 0;
        proof {
            assert(all.skip(0) =~= all);
        }
        while i < self.entries.len()
            invariant
                i <= self.entries@.len(),
                all == entries_view(self.entries@),
                cached(all, url@) == cached(all.skip(i as int), url@),
                forall|j: int| 0 <= j < i ==> (#[trigger] self.entries@[j]).url@ != url@,
            decreases self.entries@.len() - i,
        {
            proof {
                let c = self.entries@[i as int];
                assert(all.skip(i as int)[0] == (c.url@, c.entry@));
                assert(all.skip(i as int).drop_first() =~= all.skip(i as int + 1));
            }
            if same(self.entries[i].url.as_str(), url) {
                return i;
            }
            i = i + 1;
        }
        i
    }

    /// A cache of another schema is refused.
    pub fn check_schema(&self, path: &str) -> (r: Result<(), String>)
        ensures
            result_unit(r) == (if self.schema == CACHE_SCHEMA {
                Ok(())
            } else {
                Err(
                    "unsupported HTTP cache schema "@ + decimal(self.schema as nat) + " in "@
                        + path@ + "; expected "@ + decimal(CACHE_SCHEMA as nat),
                )
            }),
    {
        if self.schema == CACHE_SCHEMA {
            return Ok(());
        }
        let mut message = "unsupported HTTP cache schema ".to_owned();
        message.append(decimal_text(self.schema as u64).as_str());
        message.append(" in ");
        message.append(path);
        message.append("; expected ");
        message.append(decimal_text(CACHE_SCHEMA as u64).as_str());
        Err(message)
    }

    /// Whether an endpoint has to be asked.
    pub fn plan(&self, url: &str, now: Timestamp, force: bool) -> (r: Fetch)
        requires
            in_calendar(now),
            forall|i: int|
                0 <= i < self.entries@.len() ==> in_calendar(
                    (#[trigger] self.entries@[i]).entry.checked_at,
                ),
        ensures
            match self.entry(url@) {
                Some(e) => if is_fresh(e, now, force) {
                    r matches Fetch::Cached { status, body } && status == e.status && body@
                        == e.body
                } else {
                    r matches Fetch::Request { etag } && opt_text(etag) == e.etag
                },
                None => r matches Fetch::Request { etag } && etag is None,
            },
    {
        let at: usize = self.position(url);
        if at >= self.entries.len() {
            return Fetch::Request { etag: None };
        }
        let entry = &self.entries[at].entry;
        if cache_entry_is_fresh(entry, now, force) {
            Fetch::Cached { status: entry.status, body: entry.body.clone() }
        } else {
            Fetch::Request { etag: copy_opt(&entry.etag) }
        }
    }

    /// Keeps a reply, and gives back the status and body that count.
    pub fn store(&mut self, url: &str, reply: &HttpReply, now: Timestamp) -> (r: Result<
        (u16, String),
        String,
    >)
        ensures
            match entry_after(url@, old(self).entry(url@), reply@, now) {
                Ok(e) => {
                    &&& r is Ok
                    &&& r->Ok_0.0 == e.status
                    &&& r->Ok_0.1@ == e.body
                    &&& final(self).schema == old(self).schema
                    &&& forall|u: Seq<char>|
                        #![trigger final(self).entry(u)]
                        final(self).entry(u) == (if u == url@ {
                            Some(e)
                        } else {
                            old(self).entry(u)
                        })
                },
                Err(message) => r matches Err(e) && e@ == message && *final(self) == *old(self),
            },
    {
        let at: usize = self.position(url);
        let ghost before = entries_view(self.entries@);
        if reply.status == 304 {
            if at >= self.entries.len() {
                let mut message = "GitHub returned 304 for ".to_owned();
                message.append(url);
                message.append(", but no cached response exists");
                return Err(message);
            }
            let old_entry = &self.entries[at].entry;
            let entry = CacheEntry {
                status: old_entry.status,
                etag: match &reply.etag {
                    Some(tag) => Some(tag.clone()),
                    None => copy_opt(&old_entry.etag),
                },
                checked_at: now,
                poll_floor_seconds: match reply.poll_floor {
                    Some(floor) => floor,
                    None => old_entry.poll_floor_seconds,
                },
                poll_floor_advertised: reply.poll_floor.is_some() || old_entry.poll_floor_advertised,
                body: old_entry.body.clone(),
            };
            let result = (entry.status, entry.body.clone());
            let ghost e = entry@;
            let item = CachedUrl { url: url.to_owned(), entry };
            self.entries.set(at, item);
            proof {
                let after = entries_view(self.entries@);
                assert(after =~= before.update(at as int, (before[at as int].0, e)));
                assert forall|u: Seq<char>| #[trigger] self.entry(u) == (if u == url@ {
                    Some(e)
                } else {
                    cached(before, u)
                }) by {
                    assert forall|j: int| 0 <= j < at implies (#[trigger] before[j]).0
                        != before[at as int].0 by {
                        assert(before[j].0 == old(self).entries@[j].url@);
                    }
                    lemma_cached_update(before, at as int, e, u);
                }
            }
            return Ok(result);
        }
        let entry = CacheEntry {
            status: reply.status,
            etag: copy_opt(&reply.etag),
            checked_at: now,
            poll_floor_seconds: match reply.poll_floor {
                Some(floor) => floor,
                None => FALLBACK_POLL_FLOOR_SECONDS,
            },
            poll_floor_advertised: reply.poll_floor.is_some(),
            body: reply.body.clone(),
        };
        let result = (entry.status, entry.body.clone());
        let ghost e = entry@;
        let item = CachedUrl { url: url.to_owned(), entry };
        if at < self.entries.len() {
            self.entries.set(at, item);
            proof {
                let after = entries_view(self.entries@);
                assert(after =~= before.update(at as int, (before[at as int].0, e)));
                assert forall|u: Seq<char>| #[trigger] self.entry(u) == (if u == url@ {
                    Some(e)
                } else {
                    cached(before, u)
                }) by {
                    assert forall|j: int| 0 <= j < at implies (#[trigger] before[j]).0
                        != before[at as int].0 by {
                        assert(before[j].0 == old(self).entries@[j].url@);
                    }
                    lemma_cached_update(before, at as int, e, u);
                }
            }
        } else {
            self.entries.push(item);
            proof {
                let after = entries_view(self.entries@);
                assert(after =~= before.push((url@, e)));
                assert forall|u: Seq<char>| #[trigger] self.entry(u) == (if u == url@ {
                    Some(e)
                } else {
                    cached(before, u)
                }) by {
                    lemma_cached_push(before, (url@, e), u);
                }
            }
        }
        Ok(result)
    }

    /// What answers an endpoint that cannot be reached: the expired response, where that is
    /// allowed and there is one.
    pub fn fallback(&self, url: &str, stale_if_unreachable: bool) -> (r: Option<(u16, String)>)
        ensures
            match self.entry(url@) {
                Some(e) => if stale_if_unreachable {
                    r matches Some(x) && x.0 == e.status && x.1@ == e.body
                } else {
                    r is None
                },
                None => r is None,
            },
    {
        let at: usize = self.position(url);
        if !stale_if_unreachable || at >= self.entries.len() {
            return None;
        }
        let entry = &self.entries[at].entry;
        Some((entry.status, entry.body.clone()))
    }

    /// When the responses that an answer rests on have to be confirmed: the first of them
    /// to expire decides. An answer from an expired response is retried after a short wait.
    pub fn next_check_at(&self, used: &Vec<String>, used_stale: bool, now: Timestamp) -> (r: Option<
        Timestamp,
    >)
        requires
            in_calendar(now),
            forall|i: int|
                0 <= i < self.entries@.len() ==> in_calendar(
                    (#[trigger] self.entries@[i]).entry.checked_at,
                ),
        ensures
            used_stale ==> r == Some(later(now, UNREACHABLE_RETRY_SECONDS)),
            !used_stale ==> {
                &&& r is None <==> forall|i: int|
                    0 <= i < used@.len() ==> self.entry((#[trigger] used@[i])@) is None
                &&& r is Some ==> (exists|i: int|
                    #![trigger used@[i]]
                    0 <= i < used@.len() && self.entry(used@[i]@) is Some && expiry(
                        self.entry(used@[i]@)->0,
                    ) == r->0)
                &&& r is Some ==> (forall|i: int|
                    #![trigger used@[i]]
                    0 <= i < used@.len() && self.entry(used@[i]@) is Some ==> r->0.nanos
                        <= expiry(self.entry(used@[i]@)->0).nanos)
            },
    {
        if used_stale {
            return Some(now.plus_seconds(UNREACHABLE_RETRY_SECONDS));
        }
        let mut earliest: Option<Timestamp> = None;
        let mut i: usize = 0;
        while i < used.len()
            invariant
                i <= used@.len(),
                forall|k: int|
                    0 <= k < self.entries@.len() ==> in_calendar(
                        (#[trigger] self.entries@[k]).entry.checked_at,
                    ),
                earliest is None <==> forall|k: int|
                    0 <= k < i ==> self.entry((#[trigger] used@[k])@) is None,
                earliest is Some ==> (exists|k: int|
                    #![trigger used@[k]]
                    0 <= k < i && self.entry(used@[k]@) is Some && expiry(
                        self.entry(used@[k]@)->0,
                    ) == earliest->0),
                earliest is Some ==> (forall|k: int|
                    #![trigger used@[k]]
                    0 <= k < i && self.entry(used@[k]@) is Some ==> earliest->0.nanos <= expiry(
                        self.entry(used@[k]@)->0,
                    ).nanos),
            decreases used@.len() - i,
        {
            let at: usize = self.position(used[i].as_str());
            if at < self.entries.len() {
                let entry = &self.entries[at].entry;
                let floor: u64 = if entry.poll_floor_seconds == 0 {
                    1
                } else {
                    entry.poll_floor_seconds
                };
                let due = entry.checked_at.plus_seconds(floor);
                proof {
                    assert(due == expiry(self.entry(used@[i as int]@)->0));
                }
                let sooner = match earliest {
                    Some(e) => due.nanos < e.nanos,
                    None => true,
                };
                if sooner {
                    earliest = Some(due);
                }
            }
            i = i + 1;
        }
        earliest
    }
}

/// Within its polling floor a stored reply is used again without asking, even when the
/// check is forced and the floor was advertised.
pub proof fn stored_replies_obey_the_floor(
    url: Seq<char>,
    before: Option<EntryView>,
    reply: ReplyView,
    now: Timestamp,
    t: Timestamp,
    force: bool,
)
    requires
        entry_after(url, before, reply, now) is Ok,
        reply.poll_floor is Some || !force,
        t.nanos < now.nanos + floor_of(entry_after(url, before, reply, now)->Ok_0)
            * 1_000_000_000,
    ensures
        is_fresh(entry_after(url, before, reply, now)->Ok_0, t, force),
{
}

/// A floor that was not advertised never holds a forced check back.
pub proof fn forced_checks_ask_again(
    url: Seq<char>,
    reply: ReplyView,
    now: Timestamp,
    t: Timestamp,
)
    requires
        reply.status != 304,
        reply.poll_floor is None,
    ensures
        !is_fresh(entry_after(url, None, reply, now)->Ok_0, t, true),
{
}

/// How many nanoseconds of a budget are left.
pub open spec fn allowance(budget_seconds: u64, started: Timestamp, now: Timestamp) -> int {
    let total = budget_seconds * 1_000_000_000;
    let spent = now.nanos - started.nanos;
    if total > spent {
        total - spent
    } else {
        0
    }
}

/// However many requests a check makes, and whatever each of them takes of what is left, all
/// of them together stay within the budget.
pub proof fn checks_stay_within_their_budget(
    budget_seconds: u64,
    started: Timestamp,
    times: Seq<Timestamp>,
    n: int,
)
    requires
        times.len() > 0,
        times[0] == started,
        0 <= n < times.len(),
        forall|i: int|
            0 <= i < times.len() - 1 ==> (#[trigger] times[i + 1]).nanos <= times[i].nanos
                + allowance(budget_seconds, started, times[i]),
    ensures
        times[n].nanos - started.nanos <= budget_seconds * 1_000_000_000,
    decreases n,
{
    if n > 0 {
        checks_stay_within_their_budget(budget_seconds, started, times, n - 1);
        assert(times[n - 1 + 1].nanos <= times[n - 1].nanos + allowance(
            budget_seconds,
            started,
            times[n - 1],
        ));
    }
}

/// The time that is left of a network budget, in nanoseconds.
pub fn budget_left(budget_seconds: u64, started: Timestamp, now: Timestamp) -> (r: i128)
    requires
        in_calendar(started),
        in_calendar(now),
    ensures
        r == allowance(budget_seconds, started, now),
{
    let total: i128 = (budget_seconds as i128) * 1_000_000_000;
    let spent: i128 = now.nanos - started.nanos;
    if total > spent {
        total - spent
    } else {
        0
    }
}

pub open spec fn without_slashes(s: Seq<char>) -> Seq<char>
    decreases s.len(),
{
    if s.len() > 0 && s.last() == '/' {
        without_slashes(s.drop_last())
    } else {
        s
    }
}

/// The API base without slashes at its end; a blank one is refused.
pub fn normalized_api_base(base: &str) -> (r: Result<String, String>)
    ensures
        result_text(r) == (if trim(base@).len() == 0 {
            Err("GitHub API base must not be empty"@)
        } else {
            Ok(without_slashes(base@))
        }),
{
    if chars_of(trimmed(base).as_str()).len() == 0 {
        return Err("GitHub API base must not be empty".to_owned());
    }
    let chars = chars_of(base);
    let mut end: usize = chars.len();
    proof {
        assert(chars@.take(end as int) =~= base@);
    }
    while end > 0 && chars[end - 1] == '/'
        invariant
            end <= chars@.len(),
            without_slashes(base@) == without_slashes(chars@.take(end as int)),
        decreases end,
    {
        proof {
            assert(chars@.take(end as int).drop_last() =~= chars@.take(end as int - 1));
        }
        end = end - 1;
    }
    proof {
        if end > 0 {
            assert(chars@.take(end as int).last() == chars@[end as int - 1]);
        }
    }
    let r = text_between(&chars, 0, end);
    proof {
        assert(r@ =~= chars@.take(end as int));
    }
    Ok(r)
}

pub open spec fn nonempty(o: Option<Seq<char>>) -> Option<Seq<char>> {
    match o {
        Some(s) => if s.len() > 0 {
            Some(s)
        } else {
            None
        },
        None => None,
    }
}

fn nonempty_text(o: &Option<String>) -> (r: Option<String>)
    ensures
        opt_text(r) == nonempty(opt_text(*o)),
{
    match o {
        Some(s) => {
            if chars_of(s.as_str()).len() > 0 {
                Some(s.clone())
            } else {
                None
            }
        },
        None => None,
    }
}

/// The token that is sent: the given one, else `GITHUB_TOKEN`, else `GH_TOKEN`.
pub fn choose_token(
    given: &Option<String>,
    github_token: &Option<String>,
    gh_token: &Option<String>,
) -> (r: Option<String>)
    ensures
        opt_text(r) == (match nonempty(opt_text(*given)) {
            Some(t) => Some(t),
            None => match nonempty(opt_text(*github_token)) {
                Some(t) => Some(t),
                None => nonempty(opt_text(*gh_token)),
            },
        }),
{
    match nonempty_text(given) {
        Some(token) => Some(token),
        None => match nonempty_text(github_token) {
            Some(token) => Some(token),
            None => nonempty_text(gh_token),
        },
    }
}

/// What is reported of a status that was not expected: the first 500 characters of the
/// body are shown. `status` is the code with its reason.
pub fn unexpected_status(url: &str, status: &str, body: &str) -> (r: String)
    ensures
        r@ == "GitHub endpoint "@ + url@ + " returned HTTP "@ + status@ + ": "@ + (if body@.len()
            > 500 {
            body@.take(500) + "..."@
        } else {
            body@
        }),
{
    let chars = chars_of(body);
    let long = chars.len() > 500;
    let end: usize = if long { 500 } else { chars.len() };
    let mut snippet = text_between(&chars, 0, end);
    proof {
        assert(snippet@ =~= body@.take(end as int));
        if !long {
            assert(snippet@ =~= body@);
        }
    }
    if long {
        snippet.append("...");
    }
    let mut message = "GitHub endpoint ".to_owned();
    message.append(url);
    message.append(" returned HTTP ");
    message.append(status);
    message.append(": ");
    message.append(snippet.as_str());
    message
}

} // verus!
