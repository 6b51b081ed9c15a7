//! The durable state of one installation.

use vstd::prelude::*;

use crate::outside::{
    parse_version, semver_before, semver_parse, uuid_form, uuid_text, version_before,
};
use crate::paths::{parts, same_path, Platform};
use crate::shim::{
    records_view, same_record, RecordView, SurfaceRecord, UpdaterAdapterRecord, UpdaterView,
};
use crate::text::{decimal, decimal_text, result_unit, same};
use crate::types::{
    opt_failure, opt_generation, unknown_probe, DesiredView, FailureRecord, FailureView,
    GenerationRef, GenerationView, ProbeState, ProbeView, ResolvedSource, SourceView, Timestamp,
};
use crate::upstream_laws::newer_than;

verus! {

pub const STATE_SCHEMA: u32 = 1;

#[derive(Debug)]
pub struct InstallState {
    pub schema: u32,
    pub patch_dir: String,
    pub active: Option<GenerationRef>,
    pub previous: Option<GenerationRef>,
    pub probe: ProbeState,
    pub failure: Option<FailureRecord>,
    pub surfaces: Vec<SurfaceRecord>,
    pub updaters: Vec<UpdaterAdapterRecord>,
    pub installed_at: Timestamp,
    pub updated_at: Timestamp,
}

pub struct StateView {
    pub schema: u32,
    pub patch_dir: Seq<char>,
    pub active: Option<GenerationView>,
    pub previous: Option<GenerationView>,
    pub probe: ProbeView,
    pub failure: Option<FailureView>,
    pub surfaces: Seq<RecordView>,
    pub updaters: Seq<UpdaterView>,
    pub installed_at: Timestamp,
    pub updated_at: Timestamp,
}

pub open spec fn updaters_view(v: Seq<UpdaterAdapterRecord>) -> Seq<UpdaterView> {
    v.map_values(|u: UpdaterAdapterRecord| u@)
}

impl View for InstallState {
    type V = StateView;

    open spec fn view(&self) -> StateView {
        StateView {
            schema: self.schema,
            patch_dir: self.patch_dir@,
            active: opt_generation(self.active),
            previous: opt_generation(self.previous),
            probe: self.probe@,
            failure: opt_failure(self.failure),
            surfaces: records_view(self.surfaces@),
            updaters: updaters_view(self.updaters@),
            installed_at: self.installed_at,
            updated_at: self.updated_at,
        }
    }
}

/// The state after a generation has become the active one: the generation that was active
/// is kept as the previous one, unless it is the same generation again.
pub open spec fn activated(s: StateView, g: GenerationView, now: Timestamp) -> StateView {
    let again = match s.active {
        Some(active) => active.id == g.id,
        None => false,
    };
    StateView {
        active: Some(g),
        previous: if again {
            s.previous
        } else {
            s.active
        },
        failure: None,
        updated_at: now,
        ..s
    }
}

/// The sources of one channel that were accepted before, the latest last.
pub open spec fn trusted_sources(s: StateView, channel: Seq<char>) -> Seq<SourceView> {
    let a = match s.active {
        Some(g) => if g.source.channel == channel {
            seq![g.source]
        } else {
            Seq::empty()
        },
        None => Seq::empty(),
    };
    let b = match s.previous {
        Some(g) => if g.source.channel == channel {
            seq![g.source]
        } else {
            Seq::empty()
        },
        None => Seq::empty(),
    };
    let c = match s.probe.desired {
        Some(d) => if d.source.channel == channel {
            seq![d.source]
        } else {
            Seq::empty()
        },
        None => Seq::empty(),
    };
    a + b + c
}

pub open spec fn invalid_version_message(source: SourceView, cause: Seq<char>) -> Seq<char> {
    "stored "@ + source.channel + " source has invalid SemVer "@ + source.version + ": "@ + cause
}

/// The source of the greatest version, and of equal versions the last.
pub open spec fn newest(sources: Seq<SourceView>) -> Result<Option<SourceView>, Seq<char>>
    decreases sources.len(),
{
    if sources.len() == 0 {
        Ok(None)
    } else {
        match newest(sources.drop_last()) {
            Err(message) => Err(message),
            Ok(best) => if let Err(cause) = semver_parse(sources.last().version) {
                Err(invalid_version_message(sources.last(), cause))
            } else {
                match best {
                    Some(b) => if semver_before(sources.last().version, b.version) {
                        Ok(best)
                    } else {
                        Ok(Some(sources.last()))
                    },
                    None => Ok(Some(sources.last())),
                }
            },
        }
    }
}

/// No source of the list has a greater version.
pub open spec fn no_newer(sources: Seq<SourceView>, version: Seq<char>) -> bool {
    forall|k: int|
        0 <= k < sources.len() ==> !newer_than(#[trigger] sources[k].version, version)
}

/// The source that a newly resolved one is measured against.
pub open spec fn baseline_source(s: StateView, channel: Seq<char>) -> Result<
    Option<SourceView>,
    Seq<char>,
> {
    let sources = trusted_sources(s, channel);
    if channel == "nightly"@ {
        Ok(
            if sources.len() == 0 {
                None
            } else {
                Some(sources.last())
            },
        )
    } else {
        newest(sources)
    }
}

pub open spec fn source_result(r: Result<Option<&ResolvedSource>, String>) -> Result<
    Option<SourceView>,
    Seq<char>,
> {
    match r {
        Ok(Some(source)) => Ok(Some(source@)),
        Ok(None) => Ok(None),
        Err(message) => Err(message@),
    }
}

proof fn lemma_newest_is_valid(sources: Seq<SourceView>)
    ensures
        newest(sources) matches Ok(Some(best)) ==> semver_parse(best.version) is Ok,
    decreases sources.len(),
{
    if sources.len() > 0 {
        lemma_newest_is_valid(sources.drop_last());
    }
}

proof fn lemma_newest_stops(sources: Seq<SourceView>, n: int)
    requires
        0 <= n <= sources.len(),
        newest(sources.take(n)) is Err,
    ensures
        newest(sources) == newest(sources.take(n)),
    decreases sources.len() - n,
{
    if n == sources.len() {
        assert(sources.take(n) =~= sources);
    } else {
        assert(sources.take(n + 1).drop_last() =~= sources.take(n));
        lemma_newest_stops(sources, n + 1);
    }
}

/// A release that is pending is trusted as much as one that runs: what is measured against
/// is at least as new as every accepted source of the channel.
pub proof fn baseline_is_not_older_than_the_pending_release(
    s: StateView,
    channel: Seq<char>,
    pending: DesiredView,
)
    requires
        s.probe.desired == Some(pending),
        pending.source.channel == channel,
        baseline_source(s, channel) is Ok,
    ensures
        baseline_source(s, channel)->Ok_0 is Some,
        channel != "nightly"@ ==> {
            let best = baseline_source(s, channel)->Ok_0->0;
            best == pending.source || semver_before(pending.source.version, best.version)
        },
        channel == "nightly"@ ==> baseline_source(s, channel)->Ok_0 == Some(pending.source),
{
    assert(trusted_sources(s, channel).last() == pending.source);
}

impl InstallState {
    pub fn new(patch_dir: &str, now: Timestamp) -> (r: Self)
        ensures
            r@ == (StateView {
                schema: STATE_SCHEMA,
                patch_dir: patch_dir@,
                active: None,
                previous: None,
                probe: unknown_probe(),
                failure: None,
                surfaces: Seq::empty(),
                updaters: Seq::empty(),
                installed_at: now,
                updated_at: now,
            }),
    {
        let surfaces: Vec<SurfaceRecord> = Vec::new();
        let updaters: Vec<UpdaterAdapterRecord> = Vec::new();
        proof {
            assert(records_view(surfaces@) =~= Seq::empty());
            assert(updaters_view(updaters@) =~= Seq::empty());
        }
        InstallState {
            schema: STATE_SCHEMA,
            patch_dir: patch_dir.to_owned(),
            active: None,
            previous: None,
            probe: ProbeState::default(),
            failure: None,
            surfaces,
            updaters,
            installed_at: now,
            updated_at: now,
        }
    }

    pub fn activate(&mut self, generation: GenerationRef, now: Timestamp)
        ensures
            final(self)@ == activated(old(self)@, generation@, now),
    {
        let again = match &self.active {
            Some(active) => same(active.id.as_str(), generation.id.as_str()),
            None => false,
        };
        if !again {
            let displaced = self.active.take();
            self.previous = displaced;
        }
        self.active = Some(generation);
        self.failure = None;
        self.updated_at = now;
    }

    /// The accepted sources of a channel, the latest last.
    fn sources_of(&self, channel: &str) -> (r: Vec<&ResolvedSource>)
        ensures
            r@.map_values(|s: &ResolvedSource| s@) == trusted_sources(self@, channel@),
    {
        let mut list: Vec<&ResolvedSource> = Vec::new();
        if let Some(active) = &self.active {
            if same(active.source.channel.as_str(), channel) {
                list.push(&active.source);
            }
        }
        if let Some(previous) = &self.previous {
            if same(previous.source.channel.as_str(), channel) {
                list.push(&previous.source);
            }
        }
        if let Some(desired) = &self.probe.desired {
            if same(desired.source.channel.as_str(), channel) {
                list.push(&desired.source);
            }
        }
        proof {
            assert(list@.map_values(|s: &ResolvedSource| s@) =~= trusted_sources(self@, channel@));
        }
        list
    }

    /// The source that a newly resolved one is measured against: for the nightly channel
    /// the latest accepted one, for releases the one of the greatest version.
    pub fn resolution_baseline(&self, channel: &str) -> (r: Result<Option<&ResolvedSource>, String>)
        ensures
            source_result(r) == baseline_source(self@, channel@),
            channel@ != "nightly"@ ==> (r matches Ok(Some(best)) ==> no_newer(
                trusted_sources(self@, channel@),
                best@.version,
            )),
    {
        let sources = self.sources_of(channel);
        let ghost all = sources@.map_values(|s: &ResolvedSource| s@);
        if same(channel, "nightly") {
            if sources.len() == 0 {
                return Ok(None);
            }
            let last = sources[sources.len() - 1];
            proof {
                assert(all.last() == last@);
            }
            return Ok(Some(last));
        }
        let mut best: Option<&ResolvedSource> = None;
        let mut i: usize = 0;
        proof {
            assert(all.take(0) =~= Seq::empty());
        }
        while i < sources.len()
            invariant
                i <= sources@.len(),
                all == sources@.map_values(|s: &ResolvedSource| s@),
                all == trusted_sources(self@, channel@),
                channel@ != "nightly"@,
                newest(all.take(i as int)) == source_result(Ok(best)),
                best matches Some(b) ==> no_newer(all.take(i as int), b@.version),
                forall|k: int| 0 <= k < i ==> semver_parse(#[trigger] all[k].version) is Ok,
            decreases sources@.len() - i,
        {
            let source = sources[i];
            proof {
                assert(all.take(i as int + 1).drop_last() =~= all.take(i as int));
                assert(all.take(i as int + 1).last() == source@);
                lemma_newest_is_valid(all.take(i as int));
            }
            if let Err(cause) = parse_version(source.version.as_str()) {
                let mut message = "stored ".to_owned();
                message.append(source.channel.as_str());
                message.append(" source has invalid SemVer ");
                message.append(source.version.as_str());
                message.append(": ");
                message.append(cause.as_str());
                proof {
                    lemma_newest_stops(all, i as int + 1);
                }
                return Err(message);
            }
            let keep = match best {
                Some(b) => version_before(source.version.as_str(), b.version.as_str()),
                None => false,
            };
            if !keep {
                best = Some(source);
            }
            proof {
                let seen = all.take(i as int + 1);
                assert forall|k: int| 0 <= k < seen.len() implies !newer_than(
                    #[trigger] seen[k].version,
                    best->0@.version,
                ) by {
                    if k < i {
                        assert(all.take(i as int)[k] == seen[k]);
                        assert(semver_parse(all[k].version) is Ok);
                    }
                }
            }
            i = i + 1;
        }
        proof {
            assert(all.take(sources@.len() as int) =~= all);
        }
        Ok(best)
    }

    /// A state of another schema is refused. `path` is where it was read.
    pub fn check_schema(&self, path: &str) -> (r: Result<(), String>)
        ensures
            result_unit(r) == (if self.schema == STATE_SCHEMA {
                Ok(())
            } else {
                Err(
                    "unsupported state schema "@ + decimal(self.schema as nat) + " in "@ + path@
                        + "; expected "@ + decimal(STATE_SCHEMA as nat),
                )
            }),
    {
        if self.schema == STATE_SCHEMA {
            return Ok(());
        }
        let mut message = "unsupported state schema ".to_owned();
        message.append(decimal_text(self.schema as u64).as_str());
        message.append(" in ");
        message.append(path);
        message.append("; expected ");
        message.append(decimal_text(STATE_SCHEMA as u64).as_str());
        Err(message)
    }
}

/// Activating the same generation twice changes nothing but the time, and one previous
/// generation is kept.
pub proof fn activation_is_idempotent(
    s: StateView,
    g: GenerationView,
    t: Timestamp,
    u: Timestamp,
)
    ensures
        activated(activated(s, g, t), g, u) == activated(s, g, u),
{
}

/// After two generations have been activated in turn, the first is the previous one,
/// however often the second is activated again.
pub proof fn activation_keeps_the_previous_generation(
    s: StateView,
    a: GenerationView,
    b: GenerationView,
    t: Timestamp,
)
    requires
        a.id != b.id,
    ensures
        activated(activated(s, a, t), b, t).active == Some(b),
        activated(activated(s, a, t), b, t).previous == Some(a),
        activated(activated(activated(s, a, t), b, t), b, t).previous == Some(a),
        activated(s, a, t).failure is None,
{
}

/// The first record of that id.
pub open spec fn record_of(surfaces: Seq<RecordView>, id: u128) -> Option<RecordView>
    decreases surfaces.len(),
{
    if surfaces.len() == 0 {
        None
    } else if surfaces[0].id == id {
        Some(surfaces[0])
    } else {
        record_of(surfaces.drop_first(), id)
    }
}

pub open spec fn owns_surface(
    platform: Platform,
    surfaces: Seq<RecordView>,
    surface: Seq<char>,
) -> bool {
    exists|i: int|
        0 <= i < surfaces.len() && parts(
            platform,
            #[trigger] surfaces[i].surface,
        ) == parts(platform, surface)
}

/// One recovered takeover added to the ownership records.
pub open spec fn add_takeover(
    platform: Platform,
    surfaces: Seq<RecordView>,
    record: RecordView,
) -> Result<Seq<RecordView>, Seq<char>> {
    match record_of(surfaces, record.id) {
        Some(existing) => if same_record(platform, existing, record) {
            Ok(surfaces)
        } else {
            Err(
                "takeover journal "@ + uuid_form(record.id)
                    + " disagrees with its durable ownership record"@,
            )
        },
        None => if owns_surface(platform, surfaces, record.surface) {
            Err("multiple ownership records refer to launcher "@ + record.surface)
        } else {
            Ok(surfaces.push(record))
        },
    }
}

pub open spec fn with_takeovers(
    platform: Platform,
    surfaces: Seq<RecordView>,
    recovered: Seq<RecordView>,
) -> Result<
    Seq<RecordView>,
    Seq<char>,
>
    decreases recovered.len(),
{
    if recovered.len() == 0 {
        Ok(surfaces)
    } else {
        match with_takeovers(platform, surfaces, recovered.drop_last()) {
            Err(message) => Err(message),
            Ok(so_far) => add_takeover(platform, so_far, recovered.last()),
        }
    }
}

/// The records whose launcher has not been restored.
pub open spec fn without_restored(surfaces: Seq<RecordView>, restored: Seq<u128>) -> Seq<
    RecordView,
>
    decreases surfaces.len(),
{
    if surfaces.len() == 0 {
        Seq::empty()
    } else if restored.contains(surfaces.last().id) {
        without_restored(surfaces.drop_last(), restored)
    } else {
        without_restored(surfaces.drop_last(), restored).push(surfaces.last())
    }
}

pub open spec fn index_of_id(surfaces: Seq<RecordView>, id: u128) -> int
    decreases surfaces.len(),
{
    if surfaces.len() == 0 || surfaces[0].id == id {
        0
    } else {
        1 + index_of_id(surfaces.drop_first(), id)
    }
}

/// One repaired launcher put in the place of its record.
pub open spec fn replace_repaired(
    platform: Platform,
    surfaces: Seq<RecordView>,
    record: RecordView,
) -> Result<Seq<RecordView>, Seq<char>> {
    let i = index_of_id(surfaces, record.id);
    if i >= surfaces.len() {
        Err(
            "repair journal "@ + uuid_form(record.id)
                + " has no selected launcher ownership record"@,
        )
    } else if parts(platform, surfaces[i].surface) != parts(platform, record.surface) {
        Err(
            "repair journal "@ + uuid_form(record.id) + " targets "@ + record.surface
                + ", but state records "@ + surfaces[i].surface,
        )
    } else {
        Ok(surfaces.update(i, record))
    }
}

pub open spec fn with_repairs(
    platform: Platform,
    surfaces: Seq<RecordView>,
    recovered: Seq<RecordView>,
) -> Result<
    Seq<RecordView>,
    Seq<char>,
>
    decreases recovered.len(),
{
    if recovered.len() == 0 {
        Ok(surfaces)
    } else {
        match with_repairs(platform, surfaces, recovered.drop_last()) {
            Err(message) => Err(message),
            Ok(so_far) => replace_repaired(platform, so_far, recovered.last()),
        }
    }
}

pub open spec fn result_records(r: Result<Vec<SurfaceRecord>, String>) -> Result<
    Seq<RecordView>,
    Seq<char>,
> {
    match r {
        Ok(v) => Ok(records_view(v@)),
        Err(message) => Err(message@),
    }
}

pub fn copy_records(list: &Vec<SurfaceRecord>) -> (r: Vec<SurfaceRecord>)
    ensures
        records_view(r@) == records_view(list@),
{
    let mut out: Vec<SurfaceRecord> = Vec::new();
    let ghost all = records_view(list@);
    let mut i: usize = 0;
    while i < list.len()
        invariant
            i <= list@.len(),
            all == records_view(list@),
            records_view(out@) == all.take(i as int),
        decreases list@.len() - i,
    {
        let item = list[i].clone();
        proof {
            assert(records_view(out@.push(item)) =~= records_view(out@).push(item@));
            assert(all.take(i as int + 1) =~= all.take(i as int).push(item@));
        }
        out.push(item);
        i = i + 1;
    }
    proof {
        assert(all.take(list@.len() as int) =~= all);
    }
    out
}

/// The position of the first record of that id, or the length.
fn find_record(list: &Vec<SurfaceRecord>, id: u128) -> (r: usize)
    ensures
        r <= list@.len(),
        r == index_of_id(records_view(list@), id),
        match record_of(records_view(list@), id) {
            Some(found) => r < list@.len() && list@[r as int]@ == found,
            None => r == list@.len(),
        },
{
    let ghost all = records_view(list@);
    let mut i: usize = 0;
    proof {
        assert(all.skip(0) =~= all);
    }
    while i < list.len() && list[i].id != id
        invariant
            i <= list@.len(),
            all == records_view(list@),
            index_of_id(all, id) == i + index_of_id(all.skip(i as int), id),
            record_of(all, id) == record_of(all.skip(i as int), id),
        decreases list@.len() - i,
    {
        proof {
            assert(all.skip(i as int)[0] == list@[i as int]@);
            assert(all.skip(i as int).drop_first() =~= all.skip(i as int + 1));
        }
        i = i + 1;
    }
    proof {
        if i < list@.len() {
            assert(all.skip(i as int)[0] == list@[i as int]@);
        }
    }
    i
}

fn owns(platform: Platform, list: &Vec<SurfaceRecord>, surface: &str) -> (r: bool)
    ensures
        r == owns_surface(platform, records_view(list@), surface@),
{
    let ghost all = records_view(list@);
    let mut i: usize = 0;
    while i < list.len()
        invariant
            i <= list@.len(),
            all == records_view(list@),
            forall|j: int| 0 <= j < i ==> parts(
                platform,
                #[trigger] all[j].surface,
            ) != parts(platform, surface@),
        decreases list@.len() - i,
    {
        proof {
            assert(all[i as int] == list@[i as int]@);
        }
        if same_path(platform, list[i].surface.as_str(), surface) {
            proof {
                assert(parts(platform, all[i as int].surface) == parts(platform, surface@));
            }
            return true;
        }
        i = i + 1;
    }
    false
}

proof fn lemma_takeovers_stop(
    platform: Platform,
    surfaces: Seq<RecordView>,
    recovered: Seq<RecordView>,
    n: int,
)
    requires
        0 <= n <= recovered.len(),
        with_takeovers(platform, surfaces, recovered.take(n)) is Err,
    ensures
        with_takeovers(platform, surfaces, recovered) == with_takeovers(
            platform,
            surfaces,
            recovered.take(n),
        ),
    decreases recovered.len() - n,
{
    if n == recovered.len() {
        assert(recovered.take(n) =~= recovered);
    } else {
        assert(recovered.take(n + 1).drop_last() =~= recovered.take(n));
        lemma_takeovers_stop(platform, surfaces, recovered, n + 1);
    }
}

proof fn lemma_repairs_stop(
    platform: Platform,
    surfaces: Seq<RecordView>,
    recovered: Seq<RecordView>,
    n: int,
)
    requires
        0 <= n <= recovered.len(),
        with_repairs(platform, surfaces, recovered.take(n)) is Err,
    ensures
        with_repairs(platform, surfaces, recovered) == with_repairs(
            platform,
            surfaces,
            recovered.take(n),
        ),
    decreases recovered.len() - n,
{
    if n == recovered.len() {
        assert(recovered.take(n) =~= recovered);
    } else {
        assert(recovered.take(n + 1).drop_last() =~= recovered.take(n));
        lemma_repairs_stop(platform, surfaces, recovered, n + 1);
    }
}

/// The ownership records once the recovered takeovers are part of them.
pub fn recover_takeovers(
    platform: Platform,
    surfaces: &Vec<SurfaceRecord>,
    recovered: &Vec<SurfaceRecord>,
) -> (r: Result<Vec<SurfaceRecord>, String>)
    ensures
        result_records(r) == with_takeovers(
            platform,
            records_view(surfaces@),
            records_view(recovered@),
        ),
{
    let mut out = copy_records(surfaces);
    let ghost start = records_view(surfaces@);
    let ghost all = records_view(recovered@);
    let mut i: usize = 0;
    proof {
        assert(all.take(0) =~= Seq::empty());
    }
    while i < recovered.len()
        invariant
            i <= recovered@.len(),
            start == records_view(surfaces@),
            all == records_view(recovered@),
            with_takeovers(platform, start, all.take(i as int)) == Ok::<Seq<RecordView>, Seq<char>>(
                records_view(out@),
            ),
        decreases recovered@.len() - i,
    {
        let record = &recovered[i];
        proof {
            assert(all.take(i as int + 1).drop_last() =~= all.take(i as int));
            assert(all.take(i as int + 1).last() == record@);
        }
        let at: usize = find_record(&out, record.id);
        if at < out.len() {
            if !out[at].agrees_with(platform, record) {
                let mut message = "takeover journal ".to_owned();
                message.append(uuid_text(record.id).as_str());
                message.append(" disagrees with its durable ownership record");
                proof {
                    lemma_takeovers_stop(platform, start, all, i as int + 1);
                }
                return Err(message);
            }
        } else if owns(platform, &out, record.surface.as_str()) {
            let mut message = "multiple ownership records refer to launcher ".to_owned();
            message.append(record.surface.as_str());
            proof {
                lemma_takeovers_stop(platform, start, all, i as int + 1);
            }
            return Err(message);
        } else {
            let item = record.clone();
            proof {
                assert(records_view(out@.push(item)) =~= records_view(out@).push(item@));
            }
            out.push(item);
        }
        i = i + 1;
    }
    proof {
        assert(all.take(recovered@.len() as int) =~= all);
    }
    Ok(out)
}

/// The ownership records without those whose launcher has been restored.
pub fn recover_restores(surfaces: &Vec<SurfaceRecord>, restored: &Vec<u128>) -> (r: Vec<
    SurfaceRecord,
>)
    ensures
        records_view(r@) == without_restored(records_view(surfaces@), restored@),
{
    let mut out: Vec<SurfaceRecord> = Vec::new();
    let ghost all = records_view(surfaces@);
    let mut i: usize = 0;
    proof {
        assert(all.take(0) =~= Seq::empty());
        assert(records_view(out@) =~= Seq::empty());
    }
    while i < surfaces.len()
        invariant
            i <= surfaces@.len(),
            all == records_view(surfaces@),
            records_view(out@) == without_restored(all.take(i as int), restored@),
        decreases surfaces@.len() - i,
    {
        let record = &surfaces[i];
        proof {
            assert(all.take(i as int + 1).drop_last() =~= all.take(i as int));
            assert(all.take(i as int + 1).last() == record@);
        }
        let mut gone = false;
        let mut k: usize = 0;
        while k < restored.len()
            invariant
                k <= restored@.len(),
                gone == (exists|j: int| 0 <= j < k && restored@[j] == record.id),
            decreases restored@.len() - k,
        {
            if restored[k] == record.id {
                gone = true;
            }
            k = k + 1;
        }
        if !gone {
            let item = record.clone();
            proof {
                assert(records_view(out@.push(item)) =~= records_view(out@).push(item@));
            }
            out.push(item);
        }
        i = i + 1;
    }
    proof {
        assert(all.take(surfaces@.len() as int) =~= all);
    }
    out
}

/// The ownership records with the repaired launchers in their places.
pub fn recover_repairs(
    platform: Platform,
    surfaces: &Vec<SurfaceRecord>,
    recovered: &Vec<SurfaceRecord>,
) -> (r: Result<Vec<SurfaceRecord>, String>)
    ensures
        result_records(r) == with_repairs(
            platform,
            records_view(surfaces@),
            records_view(recovered@),
        ),
{
    let mut out = copy_records(surfaces);
    let ghost start = records_view(surfaces@);
    let ghost all = records_view(recovered@);
    let mut i: usize = 0;
    proof {
        assert(all.take(0) =~= Seq::empty());
    }
    while i < recovered.len()
        invariant
            i <= recovered@.len(),
            start == records_view(surfaces@),
            all == records_view(recovered@),
            with_repairs(platform, start, all.take(i as int)) == Ok::<Seq<RecordView>, Seq<char>>(
                records_view(out@),
            ),
        decreases recovered@.len() - i,
    {
        let record = &recovered[i];
        proof {
            assert(all.take(i as int + 1).drop_last() =~= all.take(i as int));
            assert(all.take(i as int + 1).last() == record@);
        }
        let at: usize = find_record(&out, record.id);
        if at >= out.len() {
            let mut message = "repair journal ".to_owned();
            message.append(uuid_text(record.id).as_str());
            message.append(" has no selected launcher ownership record");
            proof {
                lemma_repairs_stop(platform, start, all, i as int + 1);
            }
            return Err(message);
        }
        if !same_path(platform, out[at].surface.as_str(), record.surface.as_str()) {
            let mut message = "repair journal ".to_owned();
            message.append(uuid_text(record.id).as_str());
            message.append(" targets ");
            message.append(record.surface.as_str());
            message.append(", but state records ");
            message.append(out[at].surface.as_str());
            proof {
                lemma_repairs_stop(platform, start, all, i as int + 1);
            }
            return Err(message);
        }
        let item = record.clone();
        let ghost before = records_view(out@);
        out.set(at, item);
        proof {
            assert(records_view(out@) =~= before.update(at as int, item@));
        }
        i = i + 1;
    }
    proof {
        assert(all.take(recovered@.len() as int) =~= all);
    }
    Ok(out)
}

/// No two records share an id, and no two own the same launcher.
pub open spec fn well_owned(platform: Platform, surfaces: Seq<RecordView>) -> bool {
    forall|i: int, j: int|
        0 <= i < j < surfaces.len() ==> (#[trigger] surfaces[i]).id != (
        #[trigger] surfaces[j]).id && parts(
            platform,
            surfaces[i].surface,
        ) != parts(platform, surfaces[j].surface)
}

proof fn lemma_record_of(surfaces: Seq<RecordView>, id: u128)
    ensures
        record_of(surfaces, id) is None ==> forall|i: int|
            0 <= i < surfaces.len() ==> (#[trigger] surfaces[i]).id != id,
        record_of(surfaces, id) is Some ==> surfaces.contains(record_of(surfaces, id)->0),
        0 <= index_of_id(surfaces, id) <= surfaces.len(),
        index_of_id(surfaces, id) < surfaces.len() ==> surfaces[index_of_id(surfaces, id)].id
            == id,
    decreases surfaces.len(),
{
    if surfaces.len() > 0 && surfaces[0].id != id {
        let rest = surfaces.drop_first();
        lemma_record_of(rest, id);
        if record_of(surfaces, id) is None {
            assert forall|i: int| 0 <= i < surfaces.len() implies (#[trigger] surfaces[i]).id
                != id by {
                if i > 0 {
                    assert(rest[i - 1] == surfaces[i]);
                }
            }
        } else {
            let k = choose|k: int| 0 <= k < rest.len() && rest[k] == record_of(rest, id)->0;
            assert(surfaces[k + 1] == rest[k]);
        }
        if index_of_id(rest, id) < rest.len() {
            assert(rest[index_of_id(rest, id)] == surfaces[index_of_id(rest, id) + 1]);
        }
    } else if surfaces.len() > 0 {
        assert(surfaces[0] == record_of(surfaces, id)->0);
    }
}

/// Recovering takeovers keeps one record for each launcher, and loses none.
pub proof fn takeovers_keep_ownership(
    platform: Platform,
    surfaces: Seq<RecordView>,
    recovered: Seq<RecordView>,
)
    requires
        well_owned(platform, surfaces),
        with_takeovers(platform, surfaces, recovered) is Ok,
    ensures
        well_owned(platform, with_takeovers(platform, surfaces, recovered)->Ok_0),
        surfaces.is_prefix_of(with_takeovers(platform, surfaces, recovered)->Ok_0),
    decreases recovered.len(),
{
    if recovered.len() == 0 {
        assert(surfaces.take(surfaces.len() as int) =~= surfaces);
    } else {
        takeovers_keep_ownership(platform, surfaces, recovered.drop_last());
        let before = with_takeovers(platform, surfaces, recovered.drop_last())->Ok_0;
        let record = recovered.last();
        lemma_record_of(before, record.id);
        let after = with_takeovers(platform, surfaces, recovered)->Ok_0;
        if after != before {
            assert(after == before.push(record));
            assert forall|i: int, j: int| 0 <= i < j < after.len() implies (
            #[trigger] after[i]).id != (#[trigger] after[j]).id && parts(platform, after[i].surface)
                != parts(platform, after[j].surface) by {
                assert(after[i] == before[i]);
                if j < before.len() {
                    assert(after[j] == before[j]);
                } else {
                    assert(after[j] == record);
                    assert(before[i].id != record.id);
                    assert(parts(platform, before[i].surface) != parts(platform, record.surface));
                }
            }
            assert(after.take(surfaces.len() as int) =~= before.take(surfaces.len() as int));
        }
    }
}

proof fn lemma_takeovers_recorded(
    platform: Platform,
    surfaces: Seq<RecordView>,
    recovered: Seq<RecordView>,
    k: int,
)
    requires
        with_takeovers(platform, surfaces, recovered) is Ok,
        0 <= k < recovered.len(),
    ensures
        record_of(with_takeovers(platform, surfaces, recovered)->Ok_0, recovered[k].id) is Some,
        same_record(
            platform,
            record_of(with_takeovers(platform, surfaces, recovered)->Ok_0, recovered[k].id)->0,
            recovered[k],
        ),
    decreases recovered.len(),
{
    let before = with_takeovers(platform, surfaces, recovered.drop_last())->Ok_0;
    let last = recovered.last();
    if record_of(before, last.id) is None {
        lemma_record_of_push(before, last);
    }
    if k < recovered.len() - 1 {
        lemma_takeovers_recorded(platform, surfaces, recovered.drop_last(), k);
        assert(recovered.drop_last()[k] == recovered[k]);
        if record_of(before, last.id) is None {
            lemma_record_of_kept(before, last, recovered[k].id);
        }
    }
}

proof fn lemma_takeovers_settled(
    platform: Platform,
    surfaces: Seq<RecordView>,
    recovered: Seq<RecordView>,
)
    requires
        forall|k: int|
            #![trigger recovered[k]]
            0 <= k < recovered.len() ==> record_of(surfaces, recovered[k].id) is Some
                && same_record(platform, record_of(surfaces, recovered[k].id)->0, recovered[k]),
    ensures
        with_takeovers(platform, surfaces, recovered) == Ok::<Seq<RecordView>, Seq<char>>(surfaces),
    decreases recovered.len(),
{
    if recovered.len() > 0 {
        let rest = recovered.drop_last();
        assert forall|k: int| 0 <= k < rest.len() implies record_of(
            surfaces,
            (#[trigger] rest[k]).id,
        ) is Some && same_record(platform, record_of(surfaces, rest[k].id)->0, rest[k]) by {
            assert(rest[k] == recovered[k]);
        }
        lemma_takeovers_settled(platform, surfaces, rest);
        assert(recovered[recovered.len() - 1] == recovered.last());
    }
}

/// Recovering the same takeovers again finds every record in place.
pub proof fn takeovers_recover_once(
    platform: Platform,
    surfaces: Seq<RecordView>,
    recovered: Seq<RecordView>,
)
    requires
        with_takeovers(platform, surfaces, recovered) is Ok,
    ensures
        with_takeovers(
            platform,
            with_takeovers(platform, surfaces, recovered)->Ok_0,
            recovered,
        ) == with_takeovers(
            platform,
            surfaces,
            recovered,
        ),
{
    let out = with_takeovers(platform, surfaces, recovered)->Ok_0;
    assert forall|k: int| 0 <= k < recovered.len() implies record_of(
        out,
        (#[trigger] recovered[k]).id,
    ) is Some && same_record(platform, record_of(out, recovered[k].id)->0, recovered[k]) by {
        lemma_takeovers_recorded(platform, surfaces, recovered, k);
    }
    lemma_takeovers_settled(platform, out, recovered);
}

proof fn lemma_record_of_kept(surfaces: Seq<RecordView>, record: RecordView, id: u128)
    requires
        record_of(surfaces, id) is Some,
    ensures
        record_of(surfaces.push(record), id) == record_of(surfaces, id),
    decreases surfaces.len(),
{
    if surfaces[0].id != id {
        assert(surfaces.push(record).drop_first() =~= surfaces.drop_first().push(record));
        lemma_record_of_kept(surfaces.drop_first(), record, id);
    }
}

proof fn lemma_record_of_push(surfaces: Seq<RecordView>, record: RecordView)
    requires
        record_of(surfaces, record.id) is None,
    ensures
        record_of(surfaces.push(record), record.id) == Some(record),
    decreases surfaces.len(),
{
    if surfaces.len() > 0 {
        assert(surfaces.push(record).drop_first() =~= surfaces.drop_first().push(record));
        lemma_record_of_push(surfaces.drop_first(), record);
    }
}

/// Repairs change neither the number of records nor their ids and launchers.
pub proof fn repairs_keep_ownership(
    platform: Platform,
    surfaces: Seq<RecordView>,
    recovered: Seq<RecordView>,
)
    requires
        with_repairs(platform, surfaces, recovered) is Ok,
    ensures
        with_repairs(platform, surfaces, recovered)->Ok_0.len() == surfaces.len(),
        forall|i: int|
            #![trigger with_repairs(platform, surfaces, recovered)->Ok_0[i]]
            0 <= i < surfaces.len() ==> with_repairs(platform, surfaces, recovered)->Ok_0[i].id
                == surfaces[i].id && parts(
                    platform,
                    with_repairs(platform, surfaces, recovered)->Ok_0[i].surface,
                )
                == parts(platform, surfaces[i].surface),
        well_owned(platform, surfaces) ==> well_owned(
            platform,
            with_repairs(platform, surfaces, recovered)->Ok_0,
        ),
    decreases recovered.len(),
{
    if recovered.len() > 0 {
        repairs_keep_ownership(platform, surfaces, recovered.drop_last());
        let before = with_repairs(platform, surfaces, recovered.drop_last())->Ok_0;
        let after = with_repairs(platform, surfaces, recovered)->Ok_0;
        lemma_record_of(before, recovered.last().id);
        let k = index_of_id(before, recovered.last().id);
        assert(after == before.update(k, recovered.last()));
        assert forall|i: int| 0 <= i < surfaces.len() implies (#[trigger] after[i]).id
            == surfaces[i].id && parts(platform, after[i].surface) == parts(
                platform,
                surfaces[i].surface,
            ) by {
            assert(before[i].id == surfaces[i].id && parts(platform, before[i].surface) == parts(
                platform,
                surfaces[i].surface,
            ));
        }
        if well_owned(platform, surfaces) {
            assert forall|i: int, j: int| 0 <= i < j < after.len() implies (
            #[trigger] after[i]).id != (#[trigger] after[j]).id && parts(platform, after[i].surface)
                != parts(platform, after[j].surface) by {
                assert(surfaces[i].id != surfaces[j].id);
            }
        }
    }
}

/// What a record is after the repairs: the last repaired one of its id, or itself.
pub open spec fn repaired_record(recovered: Seq<RecordView>, record: RecordView) -> RecordView
    decreases recovered.len(),
{
    if recovered.len() == 0 {
        record
    } else if recovered.last().id == record.id {
        recovered.last()
    } else {
        repaired_record(recovered.drop_last(), record)
    }
}

/// Some record has the id of the repaired one and owns the same launcher.
pub open spec fn has_record_for(
    platform: Platform,
    surfaces: Seq<RecordView>,
    repaired: RecordView,
) -> bool {
    exists|i: int|
        0 <= i < surfaces.len() && (#[trigger] surfaces[i]).id == repaired.id && parts(
            platform,
            surfaces[i].surface,
        ) == parts(platform, repaired.surface)
}

/// Repairs replace exactly the records that they name and leave every other as it was, in
/// the same order. They are refused exactly when one of them has no record of its id, or
/// that record owns another launcher.
pub proof fn repairs_replace_exactly(
    platform: Platform,
    surfaces: Seq<RecordView>,
    recovered: Seq<RecordView>,
)
    requires
        well_owned(platform, surfaces),
    ensures
        with_repairs(platform, surfaces, recovered) is Ok <==> forall|k: int|
            0 <= k < recovered.len() ==> has_record_for(
                platform,
                surfaces,
                #[trigger] recovered[k],
            ),
        with_repairs(
            platform,
            surfaces,
            recovered,
        ) matches Ok(after) ==> after.len() == surfaces.len()
            && forall|i: int|
            0 <= i < surfaces.len() ==> #[trigger] after[i] == repaired_record(
                recovered,
                surfaces[i],
            ),
    decreases recovered.len(),
{
    if recovered.len() > 0 {
        let rest = recovered.drop_last();
        let last = recovered.last();
        repairs_replace_exactly(platform, surfaces, rest);
        if with_repairs(platform, surfaces, rest) is Err {
            let k = choose|k: int|
                0 <= k < rest.len() && !has_record_for(platform, surfaces, #[trigger] rest[k]);
            assert(rest[k] == recovered[k]);
        } else {
            let before = with_repairs(platform, surfaces, rest)->Ok_0;
            repairs_keep_ownership(platform, surfaces, rest);
            lemma_record_of(before, last.id);
            lemma_index_of_id(before, last.id);
            let at = index_of_id(before, last.id);
            assert(recovered[recovered.len() - 1] == last);
            if at < before.len() {
                assert(surfaces[at].id == last.id);
                if parts(platform, before[at].surface) == parts(platform, last.surface) {
                    assert(has_record_for(platform, surfaces, last));
                    assert forall|k: int| 0 <= k < recovered.len() implies has_record_for(
                        platform,
                        surfaces,
                        #[trigger] recovered[k],
                    ) by {
                        if k < rest.len() {
                            assert(rest[k] == recovered[k]);
                        }
                    }
                    let after = with_repairs(platform, surfaces, recovered)->Ok_0;
                    assert forall|i: int| 0 <= i < surfaces.len() implies #[trigger] after[i]
                        == repaired_record(recovered, surfaces[i]) by {
                        assert(before[i].id == surfaces[i].id);
                        if i != at {
                            assert(before[i].id != before[at].id) by {
                                if i < at {
                                    assert(surfaces[i].id != surfaces[at].id);
                                } else {
                                    assert(surfaces[at].id != surfaces[i].id);
                                }
                            }
                        }
                    }
                }
            }
            if has_record_for(platform, surfaces, last) {
                let i = choose|i: int|
                    0 <= i < surfaces.len() && (#[trigger] surfaces[i]).id == last.id && parts(
                        platform,
                        surfaces[i].surface,
                    ) == parts(platform, last.surface);
                assert(before[i].id == last.id);
                assert(at < before.len());
                if i != at {
                    if i < at {
                        assert(surfaces[i].id != surfaces[at].id);
                    } else {
                        assert(surfaces[at].id != surfaces[i].id);
                    }
                }
            }
        }
    }
}

proof fn lemma_index_of_id(surfaces: Seq<RecordView>, id: u128)
    ensures
        index_of_id(surfaces, id) >= surfaces.len() ==> forall|i: int|
            0 <= i < surfaces.len() ==> (#[trigger] surfaces[i]).id != id,
    decreases surfaces.len(),
{
    if surfaces.len() > 0 && surfaces[0].id != id {
        let rest = surfaces.drop_first();
        lemma_index_of_id(rest, id);
        if index_of_id(surfaces, id) >= surfaces.len() {
            assert forall|i: int| 0 <= i < surfaces.len() implies (#[trigger] surfaces[i]).id
                != id by {
                if i > 0 {
                    assert(rest[i - 1] == surfaces[i]);
                }
            }
        }
    }
}

/// A restored launcher has no record left, and every other record stays.
pub proof fn restores_remove_exactly(surfaces: Seq<RecordView>, restored: Seq<u128>)
    ensures
        forall|r: RecordView|
            #[trigger] without_restored(surfaces, restored).contains(r) <==> (surfaces.contains(r)
                && !restored.contains(r.id)),
    decreases surfaces.len(),
{
    if surfaces.len() > 0 {
        let rest = surfaces.drop_last();
        restores_remove_exactly(rest, restored);
        let out = without_restored(surfaces, restored);
        let inner = without_restored(rest, restored);
        assert forall|r: RecordView| #[trigger] out.contains(r) <==> (surfaces.contains(r)
            && !restored.contains(r.id)) by {
            assert(inner.contains(r) <==> (rest.contains(r) && !restored.contains(r.id)));
            if surfaces.contains(r) {
                let k = choose|k: int| 0 <= k < surfaces.len() && surfaces[k] == r;
                if k < rest.len() {
                    assert(rest[k] == r);
                }
            }
            if rest.contains(r) {
                let k = choose|k: int| 0 <= k < rest.len() && rest[k] == r;
                assert(surfaces[k] == r);
            }
            assert(surfaces[surfaces.len() - 1] == surfaces.last());
            if out != inner {
                assert(out == inner.push(surfaces.last()));
                if inner.contains(r) {
                    let k = choose|k: int| 0 <= k < inner.len() && inner[k] == r;
                    assert(out[k] == r);
                }
                if r == surfaces.last() {
                    assert(out[out.len() - 1] == r);
                }
                if out.contains(r) && r != surfaces.last() {
                    let k = choose|k: int| 0 <= k < out.len() && out[k] == r;
                    assert(inner[k] == r);
                }
            }
        }
    }
}

/// Which operation a journal in the backup directory belongs to.
#[derive(Debug, Clone, Copy, PartialEq, Eq, Structural)]
pub enum JournalKind {
    Takeover,
    Restore,
    Repair,
}

pub open spec fn journal_word(kind: JournalKind) -> Seq<char> {
    match kind {
        JournalKind::Takeover => "takeover"@,
        JournalKind::Restore => "restore"@,
        JournalKind::Repair => "repair"@,
    }
}

pub fn journal_name_word(kind: JournalKind) -> (r: &'static str)
    ensures
        r@ == journal_word(kind),
{
    match kind {
        JournalKind::Takeover => "takeover",
        JournalKind::Restore => "restore",
        JournalKind::Repair => "repair",
    }
}

/// What is said where the state is missing.
pub open spec fn not_installed() -> Seq<char> {
    "codex-patcher is not installed for this user"@
}

/// Recovered journals are merged into the state, which must exist; without any there is
/// nothing to merge.
pub fn merge_needed(kind: JournalKind, recovered: usize, installed: bool) -> (r: Result<
    bool,
    String,
>)
    ensures
        recovered == 0 ==> r == Ok::<bool, String>(false),
        recovered > 0 && installed ==> r == Ok::<bool, String>(true),
        recovered > 0 && !installed ==> (r matches Err(e) && e@ == "launcher "@ + journal_word(kind)
            + " journals exist without installation state; refusing to discard them: "@
            + not_installed()),
{
    if recovered == 0 {
        Ok(false)
    } else if installed {
        Ok(true)
    } else {
        let mut message = "launcher ".to_owned();
        message.append(journal_name_word(kind));
        message.append(" journals exist without installation state; refusing to discard them: ");
        message.append("codex-patcher is not installed for this user");
        Err(message)
    }
}

/// The name of the file that is written before it replaces `name`.
pub fn staging_name(name: &str, id: u128) -> (r: String)
    ensures
        r@ == "."@ + name@ + "."@ + uuid_form(id) + ".tmp"@,
{
    let mut out = ".".to_owned();
    out.append(name);
    out.append(".");
    out.append(uuid_text(id).as_str());
    out.append(".tmp");
    out
}

} // verus!
