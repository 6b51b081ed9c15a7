//! What `status` and `scan` print.

use vstd::prelude::*;

use crate::build::{insert_sorted, strictly_sorted};
use crate::discovery::{
    method_label, owner_name, owner_word, precedence_label, wide_decimal, CandidateView,
    Redirectability, SurfaceCandidate, SurfaceOwner,
};
use crate::paths::{join_path, joined, parts, same_path, Platform};
use crate::selection::{candidates_view, has_path, or_unknown, risk_name, risk_word};
use crate::shim::{records_view, FileIdentity, IdentityView, RecordView, SurfaceRecord};
use crate::state::{InstallState, StateView};
use crate::text::{
    ascii_lower, chars_of, decimal, decimal_text, ends_with, lemma_texts_push, opt_text,
    starts_with, text_between, texts, to_ascii_lower,
};
use crate::types::{
    DesiredBuild, DesiredView, FailureRecord, FailureView, GenerationRef, GenerationView, ProbeKind,
};

verus! {

/// The first `n` characters of a text.
pub open spec fn short(s: Seq<char>, n: nat) -> Seq<char> {
    if s.len() <= n {
        s
    } else {
        s.take(n as int)
    }
}

pub fn short_text(s: &str, n: usize) -> (r: String)
    ensures
        r@ == short(s@, n as nat),
{
    let chars = chars_of(s);
    let end: usize = if chars.len() <= n { chars.len() } else { n };
    proof {
        assert(chars@.subrange(0, end as int) =~= short(s@, n as nat));
    }
    text_between(&chars, 0, end)
}

fn add_lines(out: &mut Vec<String>, more: Vec<String>)
    ensures
        texts(final(out)@) == texts(old(out)@) + texts(more@),
{
    let mut rest = more;
    let ghost a = texts(out@);
    let ghost b = texts(rest@);
    out.append(&mut rest);
    proof {
        assert(texts(out@) =~= a + b);
    }
}

fn add_line(out: &mut Vec<String>, line: String)
    ensures
        texts(final(out)@) == texts(old(out)@) + seq![line@],
{
    proof {
        lemma_texts_push(out@, line);
        assert(texts(out@).push(line@) =~= texts(out@) + seq![line@]);
    }
    out.push(line);
}

pub open spec fn active_lines(active: Option<GenerationView>) -> Seq<Seq<char>> {
    match active {
        Some(g) => seq![
            "active: Codex "@ + g.source.version + " "@ + g.source.ref_name + " ("@ + short(
                g.source.commit_oid,
                12,
            ) + ")"@,
            "package: "@ + g.package_dir,
        ],
        None => seq!["active: none"@],
    }
}

pub open spec fn previous_lines(previous: Option<GenerationView>) -> Seq<Seq<char>> {
    match previous {
        Some(g) => seq![
            "previous: Codex "@ + g.source.version + " ("@ + short(g.source.commit_oid, 12) + ")"@,
        ],
        None => Seq::empty(),
    }
}

pub open spec fn probe_word(kind: ProbeKind) -> Seq<char> {
    match kind {
        ProbeKind::Unknown => "Unknown"@,
        ProbeKind::Current => "Current"@,
        ProbeKind::Pending => "Pending"@,
        ProbeKind::Degraded => "Degraded"@,
        ProbeKind::Failed => "Failed"@,
        ProbeKind::Blocked => "Blocked"@,
    }
}

pub open spec fn desired_lines(desired: Option<DesiredView>) -> Seq<Seq<char>> {
    match desired {
        Some(d) => seq![
            "desired: Codex "@ + d.source.version + " "@ + d.source.ref_name + " ("@ + short(
                d.source.commit_oid,
                12,
            ) + ") patches "@ + short(d.patch_fingerprint, 8),
        ],
        None => Seq::empty(),
    }
}

pub open spec fn message_lines(message: Option<Seq<char>>) -> Seq<Seq<char>> {
    match message {
        Some(text) => seq!["probe detail: "@ + text],
        None => Seq::empty(),
    }
}

pub open spec fn failure_lines(failure: Option<FailureView>) -> Seq<Seq<char>> {
    match failure {
        Some(f) => seq![
            "failure: "@ + f.id + " "@ + f.phase + ": "@ + f.summary,
            "failure log: "@ + f.log_path,
        ],
        None => Seq::empty(),
    }
}

/// What is said of the installation itself.
pub open spec fn installation_lines(s: StateView) -> Seq<Seq<char>> {
    seq!["patch directory: "@ + s.patch_dir] + active_lines(s.active) + previous_lines(s.previous)
        + seq!["probe: "@ + probe_word(s.probe.kind)] + desired_lines(s.probe.desired)
        + message_lines(s.probe.message) + failure_lines(s.failure)
}

fn active_text(active: &Option<GenerationRef>) -> (r: Vec<String>)
    ensures
        texts(r@) == active_lines(crate::types::opt_generation(*active)),
{
    let mut out: Vec<String> = Vec::new();
    match active {
        Some(g) => {
            let mut line = "active: Codex ".to_owned();
            line.append(g.source.version.as_str());
            line.append(" ");
            line.append(g.source.ref_name.as_str());
            line.append(" (");
            line.append(short_text(g.source.commit_oid.as_str(), 12).as_str());
            line.append(")");
            let mut package = "package: ".to_owned();
            package.append(g.package_dir.as_str());
            out.push(line);
            out.push(package);
        },
        None => out.push("active: none".to_owned()),
    }
    proof {
        assert(texts(out@) =~= active_lines(crate::types::opt_generation(*active)));
    }
    out
}

fn previous_text(previous: &Option<GenerationRef>) -> (r: Vec<String>)
    ensures
        texts(r@) == previous_lines(crate::types::opt_generation(*previous)),
{
    let mut out: Vec<String> = Vec::new();
    if let Some(g) = previous {
        let mut line = "previous: Codex ".to_owned();
        line.append(g.source.version.as_str());
        line.append(" (");
        line.append(short_text(g.source.commit_oid.as_str(), 12).as_str());
        line.append(")");
        out.push(line);
    }
    proof {
        assert(texts(out@) =~= previous_lines(crate::types::opt_generation(*previous)));
    }
    out
}

fn desired_text(desired: &Option<DesiredBuild>) -> (r: Vec<String>)
    ensures
        texts(r@) == desired_lines(crate::types::opt_desired(*desired)),
{
    let mut out: Vec<String> = Vec::new();
    if let Some(d) = desired {
        let mut line = "desired: Codex ".to_owned();
        line.append(d.source.version.as_str());
        line.append(" ");
        line.append(d.source.ref_name.as_str());
        line.append(" (");
        line.append(short_text(d.source.commit_oid.as_str(), 12).as_str());
        line.append(") patches ");
        line.append(short_text(d.patch_fingerprint.as_str(), 8).as_str());
        out.push(line);
    }
    proof {
        assert(texts(out@) =~= desired_lines(crate::types::opt_desired(*desired)));
    }
    out
}

fn failure_text_lines(failure: &Option<FailureRecord>) -> (r: Vec<String>)
    ensures
        texts(r@) == failure_lines(crate::types::opt_failure(*failure)),
{
    let mut out: Vec<String> = Vec::new();
    if let Some(f) = failure {
        let mut line = "failure: ".to_owned();
        line.append(f.id.as_str());
        line.append(" ");
        line.append(f.phase.as_str());
        line.append(": ");
        line.append(f.summary.as_str());
        let mut log = "failure log: ".to_owned();
        log.append(f.log_path.as_str());
        out.push(line);
        out.push(log);
    }
    proof {
        assert(texts(out@) =~= failure_lines(crate::types::opt_failure(*failure)));
    }
    out
}

fn installation_text(state: &InstallState) -> (r: Vec<String>)
    ensures
        texts(r@) == installation_lines(state@),
{
    let mut first = "patch directory: ".to_owned();
    first.append(state.patch_dir.as_str());
    let mut out: Vec<String> = Vec::new();
    out.push(first);
    proof {
        assert(texts(out@) =~= seq!["patch directory: "@ + state.patch_dir@]);
    }
    add_lines(&mut out, active_text(&state.active));
    add_lines(&mut out, previous_text(&state.previous));
    let mut probe = "probe: ".to_owned();
    probe.append(
        match state.probe.kind {
            ProbeKind::Unknown => "Unknown",
            ProbeKind::Current => "Current",
            ProbeKind::Pending => "Pending",
            ProbeKind::Degraded => "Degraded",
            ProbeKind::Failed => "Failed",
            ProbeKind::Blocked => "Blocked",
        },
    );
    add_line(&mut out, probe);
    add_lines(&mut out, desired_text(&state.probe.desired));
    let ghost before = texts(out@);
    if let Some(message) = &state.probe.message {
        let mut line = "probe detail: ".to_owned();
        line.append(message.as_str());
        add_line(&mut out, line);
    }
    proof {
        assert(texts(out@) =~= before + message_lines(opt_text(state.probe.message)));
    }
    add_lines(&mut out, failure_text_lines(&state.failure));
    out
}

/// What became of a launcher that was taken over.
pub open spec fn ownership_word(matches: Result<bool, String>) -> Seq<char> {
    match matches {
        Ok(true) => "owned"@,
        Ok(false) => "overwritten/drifted"@,
        Err(_) => "inspection-error"@,
    }
}

pub fn ownership_name(matches: &Result<bool, String>) -> (r: &'static str)
    ensures
        r@ == ownership_word(*matches),
{
    match matches {
        Ok(owned) => if *owned {
            "owned"
        } else {
            "overwritten/drifted"
        },
        Err(_) => "inspection-error",
    }
}

pub open spec fn surface_lines(
    record: RecordView,
    matches: Result<bool, String>,
) -> Seq<Seq<char>> {
    seq!["surface: "@ + record.surface + " ["@ + ownership_word(matches) + "]"@] + (match matches {
        Err(message) => seq!["  inspection error: "@ + message@],
        Ok(_) => Seq::empty(),
    })
}

pub open spec fn all_surface_lines(
    records: Seq<RecordView>,
    matches: Seq<Result<bool, String>>,
) -> Seq<Seq<char>>
    decreases records.len(),
{
    if records.len() == 0 {
        Seq::empty()
    } else {
        all_surface_lines(records.drop_last(), matches) + surface_lines(
            records.last(),
            matches[records.len() - 1],
        )
    }
}

fn surfaces_text(records: &Vec<SurfaceRecord>, matches: &Vec<Result<bool, String>>) -> (r: Vec<
    String,
>)
    requires
        matches@.len() == records@.len(),
    ensures
        texts(r@) == all_surface_lines(records_view(records@), matches@),
{
    let ghost all = records_view(records@);
    let mut out: Vec<String> = Vec::new();
    let mut i: usize = 0;
    proof {
        assert(all.take(0) =~= Seq::empty());
        assert(texts(out@) =~= Seq::empty());
    }
    while i < records.len()
        invariant
            i <= records@.len(),
            matches@.len() == records@.len(),
            all == records_view(records@),
            texts(out@) == all_surface_lines(all.take(i as int), matches@),
        decreases records@.len() - i,
    {
        let ghost before = texts(out@);
        let mut line = "surface: ".to_owned();
        line.append(records[i].surface.as_str());
        line.append(" [");
        line.append(ownership_name(&matches[i]));
        line.append("]");
        add_line(&mut out, line);
        if let Err(message) = &matches[i] {
            let mut detail = "  inspection error: ".to_owned();
            detail.append(message.as_str());
            add_line(&mut out, detail);
        }
        proof {
            assert(all.take(i as int + 1).drop_last() =~= all.take(i as int));
            assert(all.take(i as int + 1).last() == records@[i as int]@);
            assert(texts(out@) =~= before + surface_lines(records@[i as int]@, matches@[i as int]));
        }
        i = i + 1;
    }
    proof {
        assert(all.take(records@.len() as int) =~= all);
    }
    out
}

/// The position of the first record of that launcher, or the length.
pub open spec fn record_at(platform: Platform, records: Seq<RecordView>, path: Seq<char>) -> int
    decreases records.len(),
{
    if records.len() == 0 || parts(platform, records[0].surface) == parts(platform, path) {
        0
    } else {
        1 + record_at(platform, records.drop_first(), path)
    }
}

pub fn find_record(platform: Platform, records: &Vec<SurfaceRecord>, path: &str) -> (r: usize)
    ensures
        r == record_at(platform, records_view(records@), path@),
        r <= records@.len(),
{
    let ghost all = records_view(records@);
    let mut i: usize = 0;
    proof {
        assert(all.skip(0) =~= all);
    }
    while i < records.len()
        invariant
            i <= records@.len(),
            all == records_view(records@),
            record_at(platform, all, path@) == i + record_at(platform, all.skip(i as int), path@),
        decreases records@.len() - i,
    {
        proof {
            assert(all.skip(i as int)[0] == records@[i as int]@);
            assert(all.skip(i as int).drop_first() =~= all.skip(i as int + 1));
        }
        if same_path(platform, records[i].surface.as_str(), path) {
            return i;
        }
        i = i + 1;
    }
    i
}

/// The Desktop application and the daemon run Codex by themselves.
pub open spec fn is_consumer(c: CandidateView) -> bool {
    c.owner == SurfaceOwner::Desktop || c.owner == SurfaceOwner::Daemon
}

pub open spec fn consumer_line(
    platform: Platform,
    c: CandidateView,
    records: Seq<RecordView>,
    matches: Seq<Result<bool, String>>,
) -> Seq<char> {
    let i = record_at(platform, records, c.raw);
    "consumer: "@ + c.raw + " ["@ + (if i >= records.len() {
        "not selected; not patched"@
    } else if matches[i] == Ok::<bool, String>(true) {
        "patched selected surface"@
    } else {
        "selected but overwritten/drifted"@
    }) + "]"@
}

pub open spec fn consumer_lines(
    platform: Platform,
    list: Seq<CandidateView>,
    records: Seq<RecordView>,
    matches: Seq<Result<bool, String>>,
) -> Seq<Seq<char>>
    decreases list.len(),
{
    if list.len() == 0 {
        Seq::empty()
    } else if is_consumer(list.last()) {
        consumer_lines(platform, list.drop_last(), records, matches) + seq![
            consumer_line(platform, list.last(), records, matches),
        ]
    } else {
        consumer_lines(platform, list.drop_last(), records, matches)
    }
}

fn consumers_text(
    platform: Platform,
    candidates: &Vec<SurfaceCandidate>,
    records: &Vec<SurfaceRecord>,
    matches: &Vec<Result<bool, String>>,
) -> (r: Vec<String>)
    requires
        matches@.len() == records@.len(),
    ensures
        texts(r@) == consumer_lines(
            platform,
            candidates_view(candidates@),
            records_view(records@),
            matches@,
        ),
{
    let ghost all = candidates_view(candidates@);
    let mut out: Vec<String> = Vec::new();
    let mut i: usize = 0;
    proof {
        assert(all.take(0) =~= Seq::empty());
        assert(texts(out@) =~= Seq::empty());
    }
    while i < candidates.len()
        invariant
            i <= candidates@.len(),
            matches@.len() == records@.len(),
            all == candidates_view(candidates@),
            texts(out@) == consumer_lines(
                platform,
                all.take(i as int),
                records_view(records@),
                matches@,
            ),
        decreases candidates@.len() - i,
    {
        let c = &candidates[i];
        proof {
            assert(all.take(i as int + 1).drop_last() =~= all.take(i as int));
            assert(all.take(i as int + 1).last() == c@);
        }
        if matches!(c.owner, SurfaceOwner::Desktop | SurfaceOwner::Daemon) {
            let mut line = "consumer: ".to_owned();
            line.append(c.raw.as_str());
            line.append(" [");
            let n = find_record(platform, records, c.raw.as_str());
            let label = if n >= records.len() {
                "not selected; not patched"
            } else {
                match &matches[n] {
                    Ok(owned) => if *owned {
                        "patched selected surface"
                    } else {
                        "selected but overwritten/drifted"
                    },
                    Err(_) => "selected but overwritten/drifted",
                }
            };
            line.append(label);
            line.append("]");
            add_line(&mut out, line);
        }
        i = i + 1;
    }
    proof {
        assert(all.take(candidates@.len() as int) =~= all);
    }
    out
}

pub open spec fn journal_lines(journals: Seq<Seq<char>>) -> Seq<Seq<char>> {
    journals.map_values(|path: Seq<char>| "pending ownership transaction: "@ + path)
}

fn journals_text(journals: &Vec<String>) -> (r: Vec<String>)
    ensures
        texts(r@) == journal_lines(texts(journals@)),
{
    let mut out: Vec<String> = Vec::new();
    let mut i: usize = 0;
    while i < journals.len()
        invariant
            i <= journals@.len(),
            out@.len() == i,
            forall|k: int|
                0 <= k < i ==> (#[trigger] out@[k])@ == "pending ownership transaction: "@
                    + journals@[k]@,
        decreases journals@.len() - i,
    {
        let mut line = "pending ownership transaction: ".to_owned();
        line.append(journals[i].as_str());
        out.push(line);
        i = i + 1;
    }
    proof {
        assert(texts(out@) =~= journal_lines(texts(journals@)));
    }
    out
}

/// What `status` prints. `matches` says of each launcher that was taken over whether it is
/// still as it was left, `candidates` are the launchers of the machine, and `journals` the
/// pending transactions.
pub fn status_lines(
    platform: Platform,
    state: &InstallState,
    matches: &Vec<Result<bool, String>>,
    candidates: &Vec<SurfaceCandidate>,
    journals: &Vec<String>,
) -> (r: Vec<String>)
    requires
        matches@.len() == state.surfaces@.len(),
    ensures
        texts(r@) == installation_lines(state@) + all_surface_lines(state@.surfaces, matches@)
            + consumer_lines(platform, candidates_view(candidates@), state@.surfaces, matches@)
            + journal_lines(texts(journals@)),
{
    let mut out = installation_text(state);
    add_lines(&mut out, surfaces_text(&state.surfaces, matches));
    add_lines(&mut out, consumers_text(platform, candidates, &state.surfaces, matches));
    add_lines(&mut out, journals_text(journals));
    out
}

/// The journal of an ownership transaction, by its name.
pub open spec fn is_ownership_journal(name: Seq<char>) -> bool {
    (".takeover-"@.is_prefix_of(name) || ".restore-"@.is_prefix_of(name)
        || ".repair-"@.is_prefix_of(name)) && ".json"@.is_suffix_of(name)
}

pub open spec fn journal_set(
    platform: Platform,
    dir: Seq<char>,
    names: Seq<Seq<char>>,
) -> Set<Seq<char>>
    decreases names.len(),
{
    if names.len() == 0 {
        Set::empty()
    } else if is_ownership_journal(names.last()) {
        journal_set(platform, dir, names.drop_last()).insert(join_path(platform, dir, names.last()))
    } else {
        journal_set(platform, dir, names.drop_last())
    }
}

/// The pending transactions among the files of the directory of backups, in their order.
pub fn pending_ownership_journals(
    platform: Platform,
    dir: &str,
    names: &Vec<String>,
) -> (r: Vec<String>)
    ensures
        strictly_sorted(texts(r@)),
        texts(r@).to_set() == journal_set(platform, dir@, texts(names@)),
{
    let ghost all = texts(names@);
    let mut out: Vec<String> = Vec::new();
    let mut i: usize = 0;
    proof {
        assert(all.take(0) =~= Seq::empty());
        assert(texts(out@).to_set() =~= Set::empty());
    }
    while i < names.len()
        invariant
            i <= names@.len(),
            all == texts(names@),
            strictly_sorted(texts(out@)),
            texts(out@).to_set() == journal_set(platform, dir@, all.take(i as int)),
        decreases names@.len() - i,
    {
        let name = names[i].as_str();
        proof {
            assert(all.take(i as int + 1).drop_last() =~= all.take(i as int));
            assert(all.take(i as int + 1).last() == name@);
        }
        if (starts_with(name, ".takeover-") || starts_with(name, ".restore-") || starts_with(
            name,
            ".repair-",
        )) && ends_with(name, ".json") {
            insert_sorted(&mut out, joined(platform, dir, name));
        }
        i = i + 1;
    }
    proof {
        assert(all.take(names@.len() as int) =~= all);
    }
    out
}

/// A text with spaces behind it, up to `n` characters.
pub open spec fn padded(s: Seq<char>, n: nat) -> Seq<char> {
    if s.len() >= n {
        s
    } else {
        s + Seq::new((n - s.len()) as nat, |i: int| ' ')
    }
}

pub fn pad(s: &str, n: usize) -> (r: String)
    ensures
        r@ == padded(s@, n as nat),
{
    let len: usize = chars_of(s).len();
    let mut out = s.to_owned();
    let mut i: usize = len;
    proof {
        assert(s@ + Seq::new(0, |k: int| ' ') =~= s@);
    }
    while i < n
        invariant
            len == s@.len(),
            len <= i,
            len <= n ==> i <= n,
            len > n ==> i == len,
            out@ == s@ + Seq::new((i - len) as nat, |k: int| ' '),
        decreases n - i,
    {
        out.push(' ');
        i = i + 1;
        proof {
            assert(out@ =~= s@ + Seq::new((i - len) as nat, |k: int| ' '));
        }
    }
    proof {
        assert(out@ =~= padded(s@, n as nat));
    }
    out
}

pub open spec fn redirect_word(r: Redirectability) -> Seq<char> {
    match r {
        Redirectability::AlreadyOwned => "alreadyowned"@,
        Redirectability::Direct => "direct"@,
        Redirectability::OwnerManaged => "ownermanaged"@,
        Redirectability::NotRedirectable => "notredirectable"@,
    }
}

fn redirect_name(r: Redirectability) -> (s: &'static str)
    ensures
        s@ == redirect_word(r),
{
    match r {
        Redirectability::AlreadyOwned => "alreadyowned",
        Redirectability::Direct => "direct",
        Redirectability::OwnerManaged => "ownermanaged",
        Redirectability::NotRedirectable => "notredirectable",
    }
}

pub open spec fn header_line() -> Seq<char> {
    padded("#"@, 4) + " "@ + padded("precedence"@, 20) + " "@ + padded("owner"@, 12) + " "@
        + padded("update"@, 20) + " "@ + padded("redirect"@, 12) + " "@ + padded("risk"@, 10) + " "@
        + padded("version"@, 10) + " path"@
}

pub open spec fn candidate_row(index: nat, c: CandidateView) -> Seq<char> {
    padded(decimal(index + 1), 4) + " "@ + padded(precedence_label(c.precedence), 20) + " "@
        + padded(ascii_lower(owner_word(c.owner)), 12) + " "@ + padded(
        method_label(c.update_method),
        20,
    ) + " "@ + padded(redirect_word(c.redirectability), 12) + " "@ + padded(
        ascii_lower(risk_word(c.risk)),
        10,
    ) + " "@ + padded(or_unknown(c.version), 10) + " "@ + c.raw
}

/// A whole number in decimal digits, with a sign when it is negative.
pub open spec fn signed_decimal(n: int) -> Seq<char> {
    if n < 0 {
        "-"@ + decimal((-n) as nat)
    } else {
        decimal(n as nat)
    }
}

fn signed_digits(n: i128) -> (r: String)
    ensures
        r@ == signed_decimal(n as int),
{
    if n < 0 {
        let mut out = "-".to_owned();
        let magnitude: u128 = if n == i128::MIN {
            0x8000_0000_0000_0000_0000_0000_0000_0000
        } else {
            (-n) as u128
        };
        out.append(wide_decimal(magnitude).as_str());
        out
    } else {
        wide_decimal(n as u128)
    }
}

/// What tells a file apart on its platform.
pub open spec fn platform_identity(i: IdentityView) -> Seq<char> {
    if i.device is Some && i.inode is Some {
        "dev="@ + decimal(i.device->0 as nat) + " ino="@ + decimal(i.inode->0 as nat)
    } else if i.volume_serial is Some && i.file_id is Some {
        "volume="@ + decimal(i.volume_serial->0 as nat) + " file="@ + i.file_id->0
    } else {
        "platform-id=unavailable"@
    }
}

fn platform_identity_text(i: &FileIdentity) -> (r: String)
    ensures
        r@ == platform_identity(i@),
{
    if let (Some(device), Some(inode)) = (i.device, i.inode) {
        let mut out = "dev=".to_owned();
        out.append(decimal_text(device).as_str());
        out.append(" ino=");
        out.append(decimal_text(inode).as_str());
        return out;
    }
    if let (Some(volume), Some(file_id)) = (i.volume_serial, &i.file_id) {
        let mut out = "volume=".to_owned();
        out.append(decimal_text(volume).as_str());
        out.append(" file=");
        out.append(file_id.as_str());
        return out;
    }
    "platform-id=unavailable".to_owned()
}

pub open spec fn shown_path(c: CandidateView) -> Seq<char> {
    match c.resolved {
        Some(path) => path,
        None => c.raw,
    }
}

pub open spec fn identity_lines(c: CandidateView) -> Seq<Seq<char>> {
    match c.file_identity.identity {
        Some(i) => seq![
            "     identity "@ + (match c.file_identity.path {
                Some(path) => path,
                None => shown_path(c),
            }) + ": "@ + platform_identity(i) + " bytes="@ + decimal(i.length as nat)
                + " modified-ns="@ + (match i.modified_ns {
                Some(n) => signed_decimal(n as int),
                None => "unknown"@,
            }),
        ],
        None => match c.file_identity.error {
            Some(message) => seq!["     identity unavailable: "@ + message],
            None => Seq::empty(),
        },
    }
}

/// Everything that is known of a launcher.
pub open spec fn candidate_lines(
    platform: Platform,
    index: nat,
    c: CandidateView,
) -> Seq<Seq<char>> {
    seq![candidate_row(index, c)] + (if c.resolved is Some && parts(platform, c.resolved->0) != parts(
        platform,
        c.raw,
    ) {
        seq!["     -> "@ + shown_path(c)]
    } else {
        Seq::empty()
    }) + identity_lines(c) + (if c.redirectability == Redirectability::NotRedirectable {
        seq!["     "@ + c.risk_reason]
    } else {
        Seq::empty()
    })
}

pub open spec fn verbose_lines(platform: Platform, list: Seq<CandidateView>) -> Seq<Seq<char>>
    decreases list.len(),
{
    if list.len() == 0 {
        seq![header_line()]
    } else {
        verbose_lines(platform, list.drop_last()) + candidate_lines(
            platform,
            (list.len() - 1) as nat,
            list.last(),
        )
    }
}

fn candidate_row_text(index: usize, c: &SurfaceCandidate) -> (r: String)
    requires
        index < usize::MAX,
    ensures
        r@ == candidate_row(index as nat, c@),
{
    let mut out = pad(decimal_text(index as u64 + 1).as_str(), 4);
    out.append(" ");
    out.append(pad(c.precedence.label().as_str(), 20).as_str());
    out.append(" ");
    out.append(pad(to_ascii_lower(owner_name(c.owner)).as_str(), 12).as_str());
    out.append(" ");
    out.append(pad(c.update_method.label(), 20).as_str());
    out.append(" ");
    out.append(pad(redirect_name(c.redirectability), 12).as_str());
    out.append(" ");
    out.append(pad(to_ascii_lower(risk_name(c.risk)).as_str(), 10).as_str());
    out.append(" ");
    let version = match &c.version {
        Some(version) => version.as_str(),
        None => "unknown",
    };
    out.append(pad(version, 10).as_str());
    out.append(" ");
    out.append(c.raw.as_str());
    out
}

fn identity_text(c: &SurfaceCandidate) -> (r: Vec<String>)
    ensures
        texts(r@) == identity_lines(c@),
{
    let mut out: Vec<String> = Vec::new();
    match &c.file_identity.identity {
        Some(i) => {
            let mut line = "     identity ".to_owned();
            line.append(
                match &c.file_identity.path {
                    Some(path) => path.as_str(),
                    None => c.display_path(),
                },
            );
            line.append(": ");
            line.append(platform_identity_text(i).as_str());
            line.append(" bytes=");
            line.append(decimal_text(i.length).as_str());
            line.append(" modified-ns=");
            match i.modified_ns {
                Some(n) => line.append(signed_digits(n).as_str()),
                None => line.append("unknown"),
            }
            out.push(line);
        },
        None => {
            if let Some(message) = &c.file_identity.error {
                let mut line = "     identity unavailable: ".to_owned();
                line.append(message.as_str());
                out.push(line);
            }
        },
    }
    proof {
        assert(texts(out@) =~= identity_lines(c@));
    }
    out
}

fn candidate_text(platform: Platform, index: usize, c: &SurfaceCandidate) -> (r: Vec<String>)
    requires
        index < usize::MAX,
    ensures
        texts(r@) == candidate_lines(platform, index as nat, c@),
{
    let mut out: Vec<String> = Vec::new();
    out.push(candidate_row_text(index, c));
    let ghost first = texts(out@);
    proof {
        assert(first =~= seq![candidate_row(index as nat, c@)]);
    }
    let elsewhere = match &c.resolved {
        Some(path) => !same_path(platform, path.as_str(), c.raw.as_str()),
        None => false,
    };
    if elsewhere {
        let mut line = "     -> ".to_owned();
        line.append(c.display_path());
        add_line(&mut out, line);
    }
    add_lines(&mut out, identity_text(c));
    if c.redirectability == Redirectability::NotRedirectable {
        let mut line = "     ".to_owned();
        line.append(c.risk_reason.as_str());
        add_line(&mut out, line);
    }
    proof {
        assert(texts(out@) =~= candidate_lines(platform, index as nat, c@));
    }
    out
}

fn header_text() -> (r: String)
    ensures
        r@ == header_line(),
{
    let mut out = pad("#", 4);
    out.append(" ");
    out.append(pad("precedence", 20).as_str());
    out.append(" ");
    out.append(pad("owner", 12).as_str());
    out.append(" ");
    out.append(pad("update", 20).as_str());
    out.append(" ");
    out.append(pad("redirect", 12).as_str());
    out.append(" ");
    out.append(pad("risk", 10).as_str());
    out.append(" ");
    out.append(pad("version", 10).as_str());
    out.append(" path");
    out
}

/// What `scan --verbose` prints.
pub fn print_candidates(platform: Platform, candidates: &Vec<SurfaceCandidate>) -> (r: Vec<String>)
    ensures
        texts(r@) == verbose_lines(platform, candidates_view(candidates@)),
{
    let ghost all = candidates_view(candidates@);
    let mut out: Vec<String> = Vec::new();
    out.push(header_text());
    let mut i: usize = 0;
    proof {
        assert(all.take(0) =~= Seq::empty());
        reveal_with_fuel(verbose_lines, 2);
        assert(texts(out@) =~= verbose_lines(platform, all.take(0)));
    }
    while i < candidates.len()
        invariant
            i <= candidates@.len(),
            all == candidates_view(candidates@),
            texts(out@) == verbose_lines(platform, all.take(i as int)),
        decreases candidates@.len() - i,
    {
        proof {
            assert(all.take(i as int + 1).drop_last() =~= all.take(i as int));
            assert(all.take(i as int + 1).last() == candidates@[i as int]@);
        }
        add_lines(&mut out, candidate_text(platform, i, &candidates[i]));
        i = i + 1;
    }
    proof {
        assert(all.take(candidates@.len() as int) =~= all);
    }
    out
}

/// One line for a launcher; a star marks one that is in use.
pub open spec fn summary_line(c: CandidateView) -> Seq<char> {
    (if c.current {
        "* "@
    } else {
        "  "@
    }) + padded(or_unknown(c.version), 10) + " "@ + padded(ascii_lower(owner_word(c.owner)), 12)
        + " "@ + padded(redirect_word(c.redirectability), 16) + c.raw
}

/// The first candidate of each launcher.
pub open spec fn distinct_launchers(
    platform: Platform,
    list: Seq<CandidateView>,
) -> Seq<CandidateView>
    decreases list.len(),
{
    if list.len() == 0 {
        Seq::empty()
    } else {
        let before = distinct_launchers(platform, list.drop_last());
        if has_path(platform, before.map_values(|c: CandidateView| c.raw), list.last().raw) {
            before
        } else {
            before.push(list.last())
        }
    }
}

pub open spec fn summary_lines(platform: Platform, list: Seq<CandidateView>) -> Seq<Seq<char>> {
    distinct_launchers(platform, list).map_values(|c: CandidateView| summary_line(c))
}

fn summary_text(c: &SurfaceCandidate) -> (r: String)
    ensures
        r@ == summary_line(c@),
{
    let mut out = if c.current { "* ".to_owned() } else { "  ".to_owned() };
    let version = match &c.version {
        Some(version) => version.as_str(),
        None => "unknown",
    };
    out.append(pad(version, 10).as_str());
    out.append(" ");
    out.append(pad(to_ascii_lower(owner_name(c.owner)).as_str(), 12).as_str());
    out.append(" ");
    out.append(pad(redirect_name(c.redirectability), 16).as_str());
    out.append(c.raw.as_str());
    out
}

/// What `scan` prints: each launcher once.
pub fn scan_summary(platform: Platform, candidates: &Vec<SurfaceCandidate>) -> (r: Vec<String>)
    ensures
        texts(r@) == summary_lines(platform, candidates_view(candidates@)),
{
    let ghost all = candidates_view(candidates@);
    let mut out: Vec<String> = Vec::new();
    let mut seen: Vec<String> = Vec::new();
    let mut i: usize = 0;
    proof {
        assert(all.take(0) =~= Seq::empty());
        assert(texts(out@) =~= summary_lines(platform, all.take(0)));
        assert(texts(seen@) =~= distinct_launchers(platform, all.take(0)).map_values(
            |c: CandidateView| c.raw,
        ));
    }
    while i < candidates.len()
        invariant
            i <= candidates@.len(),
            all == candidates_view(candidates@),
            texts(out@) == summary_lines(platform, all.take(i as int)),
            texts(seen@) == distinct_launchers(platform, all.take(i as int)).map_values(
                |c: CandidateView| c.raw,
            ),
        decreases candidates@.len() - i,
    {
        let c = &candidates[i];
        let ghost before = distinct_launchers(platform, all.take(i as int));
        proof {
            assert(all.take(i as int + 1).drop_last() =~= all.take(i as int));
            assert(all.take(i as int + 1).last() == c@);
        }
        if !crate::selection::holds_path(platform, &seen, c.raw.as_str()) {
            let line = summary_text(c);
            let raw = c.raw.clone();
            proof {
                lemma_texts_push(out@, line);
                lemma_texts_push(seen@, raw);
                assert(before.push(c@).map_values(|c: CandidateView| summary_line(c))
                    =~= before.map_values(|c: CandidateView| summary_line(c)).push(line@));
                assert(before.push(c@).map_values(|c: CandidateView| c.raw) =~= before.map_values(
                    |c: CandidateView| c.raw,
                ).push(raw@));
            }
            out.push(line);
            seen.push(raw);
        }
        i = i + 1;
    }
    proof {
        assert(all.take(candidates@.len() as int) =~= all);
    }
    out
}

/// What is said of a generation that was activated or built.
pub fn generation_line(word: &str, generation: &GenerationRef) -> (r: String)
    ensures
        r@ == word@ + " Codex "@ + generation.source.version@ + " ("@ + short(
            generation.source.commit_oid@,
            12,
        ) + ")"@,
{
    let mut out = word.to_owned();
    out.append(" Codex ");
    out.append(generation.source.version.as_str());
    out.append(" (");
    out.append(short_text(generation.source.commit_oid.as_str(), 12).as_str());
    out.append(")");
    out
}

/// A summary names no launcher twice, and leaves none out.
pub proof fn summaries_list_each_launcher_once(platform: Platform, list: Seq<CandidateView>)
    ensures
        ({
            let kept = distinct_launchers(platform, list);
            &&& forall|i: int, j: int|
                #![trigger kept[i], kept[j]]
                0 <= i < j < kept.len() ==> parts(platform, kept[i].raw) != parts(platform, kept[j].raw)
            &&& forall|i: int|
                #![trigger list[i]]
                0 <= i < list.len() ==> exists|j: int|
                    0 <= j < kept.len() && parts(
                        platform,
                        (#[trigger] kept[j]).raw,
                    ) == parts(platform, list[i].raw)
        }),
    decreases list.len(),
{
    if list.len() > 0 {
        let rest = list.drop_last();
        summaries_list_each_launcher_once(platform, rest);
        let before = distinct_launchers(platform, rest);
        let kept = distinct_launchers(platform, list);
        let raws = before.map_values(|c: CandidateView| c.raw);
        let last = list.last();
        if has_path(platform, raws, last.raw) {
            let j = choose|j: int| 0 <= j < raws.len() && parts(platform, #[trigger] raws[j]) == parts(
                platform,
                last.raw,
            );
            assert(parts(platform, kept[j].raw) == parts(platform, last.raw));
        } else {
            assert forall|i: int, j: int|
                #![trigger kept[i], kept[j]]
                0 <= i < j < kept.len() implies parts(platform, kept[i].raw) != parts(platform, kept[j].raw) by {
                assert(kept[i] == before[i]);
                assert(raws[i] == before[i].raw);
                if j < before.len() {
                    assert(kept[j] == before[j]);
                }
            }
            assert(kept[before.len() as int] == last);
        }
        assert forall|i: int|
            #![trigger list[i]]
            0 <= i < list.len() implies exists|j: int|
            0 <= j < kept.len() && parts(
                platform,
                (#[trigger] kept[j]).raw,
            ) == parts(platform, list[i].raw) by {
            if i < rest.len() {
                assert(rest[i] == list[i]);
                let j = choose|j: int|
                    0 <= j < before.len() && parts(platform, (#[trigger] before[j]).raw) == parts(
                        platform,
                        rest[i].raw,
                    );
                assert(kept[j] == before[j]);
            }
        }
    }
}

} // verus!
