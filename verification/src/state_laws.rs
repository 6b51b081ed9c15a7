//! What the recorded state keeps, adds and trusts.

use vstd::prelude::*;

use crate::outside::{semver_before, semver_parse};
use crate::paths::{parts, Platform};
use crate::shim::{same_record, RecordView};
use crate::state::{
    activated, add_takeover, baseline_source, newest, record_of, replace_repaired, trusted_sources,
    with_takeovers, StateView,
};
use crate::types::{GenerationView, SourceView, Timestamp};

verus! {

/// An activation makes the generation the one that runs, keeps the one that ran to go back to,
/// forgets the failure, and leaves everything else.
pub proof fn activations_swap_generations(s: StateView, g: GenerationView, now: Timestamp)
    ensures
        ({
            let t = activated(s, g, now);
            let again = s.active matches Some(active) && active.id == g.id;
            &&& t.active == Some(g)
            &&& again ==> t.previous == s.previous
            &&& !again ==> t.previous == s.active
            &&& t.failure is None
            &&& t.updated_at == now
            &&& t.schema == s.schema && t.patch_dir == s.patch_dir && t.probe == s.probe
            &&& t.surfaces == s.surfaces && t.updaters == s.updaters
            &&& t.installed_at == s.installed_at
        }),
{
}

/// The source is of that channel, and runs, ran before or is wanted.
pub open spec fn is_trusted(s: StateView, channel: Seq<char>, source: SourceView) -> bool {
    source.channel == channel && ((s.active matches Some(g) && g.source == source) || (
    s.previous matches Some(g) && g.source == source) || (s.probe.desired matches Some(d)
        && d.source == source))
}

/// The trusted sources of a channel are those of it that run, ran before or are wanted, and no
/// other. The wanted one is the last, and else the one that ran before.
pub proof fn accepted_sources_are_trusted(s: StateView, channel: Seq<char>, source: SourceView)
    ensures
        trusted_sources(s, channel).contains(source) <==> is_trusted(s, channel, source),
        trusted_sources(s, channel).len() <= 3,
        s.probe.desired matches Some(d) ==> (d.source.channel == channel ==> trusted_sources(
            s,
            channel,
        ).last() == d.source),
        !(s.probe.desired matches Some(d) && d.source.channel == channel) ==> (
        s.previous matches Some(g) ==> (g.source.channel == channel ==> trusted_sources(
            s,
            channel,
        ).last() == g.source)),
        s.active matches Some(g) ==> (g.source.channel == channel ==> trusted_sources(
            s,
            channel,
        )[0] == g.source),
{
    let list = trusted_sources(s, channel);
    let a: int = if s.active matches Some(g) && g.source.channel == channel {
        1
    } else {
        0
    };
    let b: int = if s.previous matches Some(g) && g.source.channel == channel {
        1
    } else {
        0
    };
    if s.active matches Some(g) && g.source.channel == channel {
        assert(list[0] == s.active->0.source);
    }
    if s.previous matches Some(g) && g.source.channel == channel {
        assert(list[a] == s.previous->0.source);
    }
    if s.probe.desired matches Some(d) && d.source.channel == channel {
        assert(list[a + b] == s.probe.desired->0.source);
    }
}

/// Each version of the list can be read.
pub open spec fn are_readable(sources: Seq<SourceView>) -> bool {
    forall|i: int| 0 <= i < sources.len() ==> semver_parse((#[trigger] sources[i]).version) is Ok
}

/// What is before what, among three sources, follows from the middle one.
pub open spec fn order_holds(sources: Seq<SourceView>, i: int, j: int, k: int) -> bool {
    let first = semver_before(sources[i].version, sources[j].version);
    let second = semver_before(sources[j].version, sources[k].version);
    let both = semver_before(sources[i].version, sources[k].version);
    (first && second ==> both) && (!first && !second ==> !both)
}

/// The versions of the list are ordered.
pub open spec fn are_ordered(sources: Seq<SourceView>) -> bool {
    forall|i: int, j: int, k: int|
        0 <= i < sources.len() && 0 <= j < sources.len() && 0 <= k < sources.len()
            ==> #[trigger] order_holds(sources, i, j, k)
}

/// The source at that position is the best: each later one is older, and no earlier one is newer.
pub open spec fn is_best(sources: Seq<SourceView>, i: int) -> bool {
    0 <= i < sources.len() && (forall|k: int|
        i < k < sources.len() ==> semver_before(
            (#[trigger] sources[k]).version,
            sources[i].version,
        )) && (forall|k: int|
        0 <= k < i ==> !semver_before(sources[i].version, (#[trigger] sources[k]).version))
}

proof fn lemma_newest(sources: Seq<SourceView>, all: Seq<SourceView>) -> (i: int)
    requires
        sources.is_prefix_of(all),
        are_ordered(all),
    ensures
        newest(sources) is Ok <==> are_readable(sources),
        newest(sources) matches Ok(None) ==> sources.len() == 0,
        newest(sources) matches Ok(Some(best)) ==> is_best(sources, i) && sources[i] == best,
    decreases sources.len(),
{
    if sources.len() == 0 {
        0
    } else {
        let rest = sources.drop_last();
        let n = sources.len() - 1;
        assert(rest =~= all.take(n));
        assert(rest.is_prefix_of(all));
        assert forall|k: int| 0 <= k < sources.len() implies #[trigger] sources[k] == all[k] by {}
        assert forall|k: int| 0 <= k < rest.len() implies #[trigger] rest[k] == sources[k] by {}
        let i = lemma_newest(rest, all);
        if are_readable(sources) {
            assert forall|k: int| 0 <= k < rest.len() implies semver_parse(
                (#[trigger] rest[k]).version,
            ) is Ok by {
                assert(rest[k] == sources[k]);
            }
            assert(semver_parse(sources[n].version) is Ok);
        }
        if newest(sources) is Ok {
            assert forall|k: int| 0 <= k < sources.len() implies semver_parse(
                (#[trigger] sources[k]).version,
            ) is Ok by {
                if k < n {
                    assert(rest[k] == sources[k]);
                }
            }
        }
        if newest(sources) is Ok && newest(rest)->Ok_0 is Some {
            let b = newest(rest)->Ok_0->0;
            if semver_before(sources[n].version, b.version) {
                assert forall|k: int| i < k < sources.len() implies semver_before(
                    (#[trigger] sources[k]).version,
                    sources[i].version,
                ) by {
                    if k < n {
                        assert(rest[k] == sources[k]);
                    }
                }
                assert forall|k: int| 0 <= k < i implies !semver_before(
                    sources[i].version,
                    (#[trigger] sources[k]).version,
                ) by {
                    assert(rest[k] == sources[k]);
                }
                i
            } else {
                assert forall|k: int| 0 <= k < n implies !semver_before(
                    sources[n].version,
                    (#[trigger] sources[k]).version,
                ) by {
                    assert(rest[k] == sources[k] && rest[i] == sources[i]);
                    assert(sources[k] == all[k] && sources[n] == all[n] && sources[i] == all[i]);
                    if k < i {
                        assert(!semver_before(rest[i].version, rest[k].version));
                        assert(order_holds(all, n, i, k));
                    } else if k > i {
                        assert(semver_before(rest[k].version, rest[i].version));
                        assert(order_holds(all, n, k, i));
                    }
                }
                n
            }
        } else {
            n
        }
    }
}

/// The newest source is taken exactly where every version can be read. No earlier one is newer
/// than it, and every later one is older.
pub proof fn the_newest_source_is_taken(sources: Seq<SourceView>)
    requires
        are_ordered(sources),
    ensures
        newest(sources) is Ok <==> are_readable(sources),
        newest(sources) is Ok ==> (newest(sources)->Ok_0 is None <==> sources.len() == 0),
        newest(sources) matches Ok(Some(best)) ==> exists|i: int| #[trigger]
            is_best(sources, i) && sources[i] == best,
{
    assert(sources.take(sources.len() as int) =~= sources);
    let i = lemma_newest(sources, sources);
}

/// A new source is measured against the newest trusted one of its channel, and a nightly against
/// the one that was trusted last.
pub proof fn baselines_are_trusted(s: StateView, channel: Seq<char>)
    requires
        are_ordered(trusted_sources(s, channel)),
    ensures
        ({
            let list = trusted_sources(s, channel);
            let r = baseline_source(s, channel);
            &&& channel == "nightly"@ ==> r is Ok
            &&& channel != "nightly"@ ==> (r is Ok <==> are_readable(list))
            &&& r is Ok ==> (r->Ok_0 is None <==> list.len() == 0)
            &&& r matches Ok(Some(source)) ==> is_trusted(s, channel, source)
            &&& r matches Ok(Some(source)) ==> (channel == "nightly"@ ==> source == list.last())
            &&& r matches Ok(Some(source)) ==> (channel != "nightly"@ ==> exists|i: int| #[trigger]
                is_best(list, i) && list[i] == source)
        }),
{
    let list = trusted_sources(s, channel);
    the_newest_source_is_taken(list);
    if let Ok(Some(source)) = baseline_source(s, channel) {
        if channel == "nightly"@ {
            assert(list[list.len() - 1] == source);
        } else {
            let i = choose|i: int| #[trigger] is_best(list, i) && list[i] == source;
            assert(list[i] == source);
        }
        assert(list.contains(source));
        accepted_sources_are_trusted(s, channel, source);
    }
}

/// The record is the first of its id in the list.
pub open spec fn is_first_of_id(list: Seq<RecordView>, id: u128, i: int) -> bool {
    0 <= i < list.len() && list[i].id == id && forall|k: int|
        0 <= k < i ==> (#[trigger] list[k]).id != id
}

/// A record is looked up by its id, and the first counts.
pub proof fn records_are_found_by_id(list: Seq<RecordView>, id: u128)
    ensures
        match record_of(list, id) {
            Some(r) => exists|i: int| #[trigger] is_first_of_id(list, id, i) && list[i] == r,
            None => forall|i: int| 0 <= i < list.len() ==> (#[trigger] list[i]).id != id,
        },
    decreases list.len(),
{
    if list.len() > 0 {
        let rest = list.drop_first();
        if list[0].id == id {
            assert(is_first_of_id(list, id, 0));
        } else {
            records_are_found_by_id(rest, id);
            assert forall|i: int| 0 <= i < rest.len() implies #[trigger] rest[i]
                == list[i + 1] by {}
            match record_of(list, id) {
                Some(r) => {
                    let i = choose|i: int| #[trigger]
                        is_first_of_id(rest, id, i) && rest[i] == r;
                    assert forall|k: int| 0 <= k < i + 1 implies (#[trigger] list[k]).id
                        != id by {
                        if k > 0 {
                            assert(rest[k - 1] == list[k]);
                        }
                    }
                    assert(is_first_of_id(list, id, i + 1));
                },
                None => {
                    assert forall|i: int| 0 <= i < list.len() implies (#[trigger] list[i]).id
                        != id by {
                        if i > 0 {
                            assert(rest[i - 1] == list[i]);
                        }
                    }
                },
            }
        }
    }
}

/// The launcher of the record has a record already.
pub open spec fn is_owned(platform: Platform, list: Seq<RecordView>, record: RecordView) -> bool {
    exists|i: int|
        0 <= i < list.len() && parts(platform, (#[trigger] list[i]).surface) == parts(
            platform,
            record.surface,
        )
}

/// The record is on record already, as it is.
pub open spec fn is_recorded(
    platform: Platform,
    list: Seq<RecordView>,
    record: RecordView,
) -> bool {
    record_of(list, record.id) matches Some(existing) && same_record(platform, existing, record)
}

/// A takeover is added exactly where its id is new and its launcher is not owned, and changes
/// nothing where it is on record as it is. Everything else is an error.
pub proof fn takeovers_are_added_once(
    platform: Platform,
    list: Seq<RecordView>,
    record: RecordView,
)
    ensures
        ({
            let r = add_takeover(platform, list, record);
            let fresh = record_of(list, record.id) is None && !is_owned(platform, list, record);
            &&& r is Ok <==> fresh || is_recorded(platform, list, record)
            &&& fresh ==> r == Ok::<Seq<RecordView>, Seq<char>>(list.push(record))
            &&& is_recorded(platform, list, record) ==> r == Ok::<Seq<RecordView>, Seq<char>>(list)
        }),
{
    assert(crate::state::owns_surface(platform, list, record.surface) == is_owned(
        platform,
        list,
        record,
    )) by {
        if is_owned(platform, list, record) {
            let i = choose|i: int|
                0 <= i < list.len() && parts(platform, (#[trigger] list[i]).surface) == parts(
                    platform,
                    record.surface,
                );
            assert(parts(platform, list[i].surface) == parts(platform, record.surface));
        }
        if crate::state::owns_surface(platform, list, record.surface) {
            let i = choose|i: int|
                0 <= i < list.len() && parts(platform, #[trigger] list[i].surface) == parts(
                    platform,
                    record.surface,
                );
            assert(parts(platform, list[i].surface) == parts(platform, record.surface));
        }
    }
}

/// Nothing but what was there and what was recovered is on record after a recovery.
pub proof fn recovered_takeovers_add_nothing_else(
    platform: Platform,
    list: Seq<RecordView>,
    recovered: Seq<RecordView>,
    record: RecordView,
)
    requires
        with_takeovers(platform, list, recovered) is Ok,
        with_takeovers(platform, list, recovered)->Ok_0.contains(record),
    ensures
        list.contains(record) || recovered.contains(record),
    decreases recovered.len(),
{
    if recovered.len() > 0 {
        let rest = recovered.drop_last();
        let before = with_takeovers(platform, list, rest)->Ok_0;
        let after = with_takeovers(platform, list, recovered)->Ok_0;
        let k = choose|k: int| 0 <= k < after.len() && after[k] == record;
        if k < before.len() {
            assert(before[k] == record);
            recovered_takeovers_add_nothing_else(platform, list, rest, record);
            if rest.contains(record) {
                let j = choose|j: int| 0 <= j < rest.len() && rest[j] == record;
                assert(recovered[j] == record);
            }
        } else {
            assert(recovered[recovered.len() - 1] == record);
        }
    }
}

/// A repaired record takes the place of the one of its id exactly where that is of the same
/// launcher. No other record changes.
pub proof fn repaired_records_take_their_place(
    platform: Platform,
    list: Seq<RecordView>,
    record: RecordView,
    i: int,
)
    requires
        is_first_of_id(list, record.id, i),
    ensures
        ({
            let r = replace_repaired(platform, list, record);
            &&& r is Ok <==> parts(platform, list[i].surface) == parts(platform, record.surface)
            &&& r matches Ok(after) ==> after.len() == list.len() && after[i] == record
                && forall|k: int|
                0 <= k < list.len() && k != i ==> #[trigger] after[k] == list[k]
        }),
{
    lemma_index(list, record.id, i);
}

proof fn lemma_index(list: Seq<RecordView>, id: u128, i: int)
    requires
        is_first_of_id(list, id, i),
    ensures
        crate::state::index_of_id(list, id) == i,
    decreases list.len(),
{
    if i > 0 {
        assert(list[0].id != id);
        let rest = list.drop_first();
        assert(rest[i - 1] == list[i]);
        assert forall|k: int| 0 <= k < i - 1 implies (#[trigger] rest[k]).id != id by {
            assert(rest[k] == list[k + 1]);
        }
        lemma_index(rest, id, i - 1);
    }
}

} // verus!
