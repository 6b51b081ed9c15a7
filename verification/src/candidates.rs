//! The surfaces of a machine, each with its owner, its version and its risk.

use vstd::prelude::*;

use crate::discovery::{
    classify_owner, default_discovery, empty_probe, identity_of, in_bundle,
    is_protected_bundle_path, leaf_of, method_of, owner_of, precedence_of, risk_for, risk_of,
    surface_file_identity, surface_leaf, surface_precedence, update_method_for, CandidateView,
    DiscoveryOptions, ProbeStatus, Redirectability, SurfaceCandidate, SurfaceOwner, SurfaceRisk,
    VersionProbe, VersionView,
};
use crate::discovery_seeds::{seeds_view, SeedView, SurfaceSeed};
use crate::paths::{parts, same_path, Platform};
use crate::shim::FileIdentity;
use crate::surface::{validate_surface_launcher_type, windows_form};
use crate::text::{lemma_texts_push, opt_text, same, starts_with, texts};
use crate::types::copy_opt;

verus! {

/// What is found where a seed points.
#[derive(Debug)]
pub struct SeedFacts {
    pub exists: bool,
    pub launchable: bool,
    /// Where it leads, with every link followed.
    pub resolved: Option<String>,
    /// The identity of the file it leads to.
    pub inspected: Result<FileIdentity, String>,
}

/// Where a seed leads: a virtual one leads nowhere.
pub open spec fn resolved_of(seed: SeedView, facts: SeedFacts) -> Option<Seq<char>> {
    if seed.probeable {
        opt_text(facts.resolved)
    } else {
        None
    }
}

/// The file whose version is asked for.
pub open spec fn probe_path(seed: SeedView, facts: SeedFacts) -> Option<Seq<char>> {
    if seed.probeable {
        leaf_of(seed.raw, resolved_of(seed, facts), facts.exists)
    } else {
        None
    }
}

/// The position of the first path that is the same as `path`, or the length.
pub open spec fn index_of_path(platform: Platform, list: Seq<Seq<char>>, path: Seq<char>) -> int
    decreases list.len(),
{
    if list.len() == 0 || parts(platform, list[0]) == parts(platform, path) {
        0
    } else {
        1 + index_of_path(platform, list.drop_first(), path)
    }
}

fn position_of_path(platform: Platform, list: &Vec<String>, path: &str) -> (r: usize)
    ensures
        r == index_of_path(platform, texts(list@), path@),
        r <= list@.len(),
{
    let ghost all = texts(list@);
    let mut i: usize = 0;
    proof {
        assert(all.skip(0) =~= all);
    }
    while i < list.len()
        invariant
            i <= list@.len(),
            all == texts(list@),
            index_of_path(platform, all, path@) == i + index_of_path(
                platform,
                all.skip(i as int),
                path@,
            ),
        decreases list@.len() - i,
    {
        proof {
            assert(all.skip(i as int)[0] == list@[i as int]@);
            assert(all.skip(i as int).drop_first() =~= all.skip(i as int + 1));
        }
        if same_path(platform, list[i].as_str(), path) {
            return i;
        }
        i = i + 1;
    }
    i
}

/// The files whose versions are asked for: each once, in the order of the seeds, up to a
/// limit.
pub open spec fn probe_plan(
    platform: Platform,
    seeds: Seq<SeedView>,
    facts: Seq<SeedFacts>,
    max: nat,
) -> Seq<Seq<char>>
    decreases seeds.len(),
{
    if seeds.len() == 0 {
        Seq::empty()
    } else {
        let before = probe_plan(platform, seeds.drop_last(), facts, max);
        match probe_path(seeds.last(), facts[seeds.len() - 1]) {
            Some(path) => if before.len() < max && index_of_path(platform, before, path) == before.len() {
                before.push(path)
            } else {
                before
            },
            None => before,
        }
    }
}

/// How many of the seeds are looked at.
pub open spec fn kept(count: nat, options: DiscoveryOptions) -> nat {
    if count <= options.max_surfaces {
        count
    } else {
        options.max_surfaces as nat
    }
}

pub open spec fn planned_probes(
    platform: Platform,
    seeds: Seq<SeedView>,
    facts: Seq<SeedFacts>,
    options: DiscoveryOptions,
) -> Seq<Seq<char>> {
    if options.probe_versions {
        probe_plan(
            platform,
            seeds.take(kept(seeds.len(), options) as int),
            facts,
            options.max_version_probes as nat,
        )
    } else {
        Seq::empty()
    }
}

fn seed_probe_path(seed: &SurfaceSeed, facts: &SeedFacts) -> (r: Option<String>)
    ensures
        opt_text(r) == probe_path(seed@, *facts),
{
    if seed.probeable {
        surface_leaf(seed.raw.as_str(), &facts.resolved, facts.exists)
    } else {
        None
    }
}

/// The files to ask for their versions.
pub fn plan_probes(
    platform: Platform,
    seeds: &Vec<SurfaceSeed>,
    facts: &Vec<SeedFacts>,
    options: &DiscoveryOptions,
) -> (r: Vec<String>)
    requires
        facts@.len() == kept(seeds@.len(), *options),
    ensures
        texts(r@) == planned_probes(platform, seeds_view(seeds@), facts@, *options),
        r@.len() <= options.max_version_probes,
{
    let mut out: Vec<String> = Vec::new();
    let ghost all = seeds_view(seeds@);
    proof {
        assert(all.take(0) =~= Seq::empty());
        assert(texts(out@) =~= Seq::empty());
    }
    if !options.probe_versions {
        return out;
    }
    let mut i: usize = 0;
    while i < facts.len()
        invariant
            i <= facts@.len(),
            facts@.len() == kept(seeds@.len(), *options),
            all == seeds_view(seeds@),
            out@.len() <= options.max_version_probes,
            texts(out@) == probe_plan(
                platform,
                all.take(i as int),
                facts@,
                options.max_version_probes as nat,
            ),
        decreases facts@.len() - i,
    {
        proof {
            assert(all.take(i as int + 1).drop_last() =~= all.take(i as int));
            assert(all.take(i as int + 1).last() == seeds@[i as int]@);
            assert(texts(out@).len() == out@.len());
        }
        if let Some(path) = seed_probe_path(&seeds[i], &facts[i]) {
            if out.len() < options.max_version_probes && position_of_path(
                platform,
                &out,
                path.as_str(),
            )
                == out.len() {
                proof {
                    lemma_texts_push(out@, path);
                }
                out.push(path);
            }
        }
        i = i + 1;
    }
    out
}

/// What is known of a seed's version, given the planned probes and their results.
pub open spec fn probe_for(
    platform: Platform,
    path: Option<Seq<char>>,
    probeable: bool,
    plan: Seq<Seq<char>>,
    probes: Seq<VersionProbe>,
    options: DiscoveryOptions,
) -> VersionView {
    if !probeable || !options.probe_versions {
        empty_probe(ProbeStatus::NotRun, None, 0)
    } else {
        match path {
            None => empty_probe(
                ProbeStatus::Failed,
                Some("surface does not resolve to a file"@),
                0,
            ),
            Some(path) => if index_of_path(platform, plan, path) < plan.len() {
                probes[index_of_path(platform, plan, path)]@
            } else {
                empty_probe(ProbeStatus::NotRun, None, 0)
            },
        }
    }
}

/// How a seed can be redirected: never when it is no file or belongs to a signed bundle, nor
/// when the platform has no launcher of its type.
pub open spec fn redirect_of(
    seed: SeedView,
    owner: SurfaceOwner,
    resolved: Option<Seq<char>>,
    platform: Platform,
) -> (Redirectability, SurfaceRisk, Seq<char>) {
    let (redirectability, risk, reason) = risk_of(owner, seed.package_leaf);
    if platform is Windows && windows_form(seed.raw) is Err {
        (
            Redirectability::NotRedirectable,
            SurfaceRisk::Critical,
            windows_form(seed.raw)->Err_0,
        )
    } else if seed.read_only_reason is Some {
        (Redirectability::NotRedirectable, SurfaceRisk::Critical, seed.read_only_reason->0)
    } else if in_bundle(seed.raw, resolved) {
        (
            Redirectability::NotRedirectable,
            SurfaceRisk::Critical,
            "signed or protected application-bundle internals cannot be replaced safely"@,
        )
    } else {
        (redirectability, risk, reason)
    }
}

/// The position of the first file on the search path that can be launched, or the length.
pub open spec fn first_on_path(seeds: Seq<SeedView>, facts: Seq<SeedFacts>, from: int) -> int
    decreases seeds.len() - from,
{
    if from >= seeds.len() || ("PATH["@.is_prefix_of(seeds[from].origin)
        && facts[from].launchable) {
        from
    } else {
        first_on_path(seeds, facts, from + 1)
    }
}

/// What is made of one seed.
pub open spec fn candidate(
    seed: SeedView,
    facts: SeedFacts,
    first: bool,
    home: Seq<char>,
    probe: VersionView,
    platform: Platform,
) -> CandidateView {
    let resolved = resolved_of(seed, facts);
    let owner = owner_of(platform, seed.owner, seed.raw, resolved, home);
    let (redirectability, risk, risk_reason) = redirect_of(seed, owner, resolved, platform);
    CandidateView {
        origin: seed.origin,
        raw: seed.raw,
        resolved,
        version: probe.version,
        owner,
        update_method: method_of(owner),
        current: seed.current || first,
        precedence: precedence_of(seed.origin, seed.current || first),
        file_identity: identity_of(
            seed.probeable,
            seed.raw,
            leaf_of(seed.raw, resolved, facts.exists),
            facts.inspected,
        ),
        redirectability,
        risk,
        risk_reason,
        exists: facts.exists,
        probe,
    }
}

fn redirect_for(
    seed: &SurfaceSeed,
    owner: SurfaceOwner,
    resolved: &Option<String>,
    platform: Platform,
) -> (r: (Redirectability, SurfaceRisk, String))
    ensures
        (r.0, r.1, r.2@) == redirect_of(seed@, owner, opt_text(*resolved), platform),
{
    if let Err(message) = validate_surface_launcher_type(seed.raw.as_str(), platform) {
        return (Redirectability::NotRedirectable, SurfaceRisk::Critical, message);
    }
    if let Some(reason) = &seed.read_only_reason {
        return (Redirectability::NotRedirectable, SurfaceRisk::Critical, reason.clone());
    }
    if is_protected_bundle_path(seed.raw.as_str(), resolved) {
        return (
            Redirectability::NotRedirectable,
            SurfaceRisk::Critical,
            "signed or protected application-bundle internals cannot be replaced safely".to_owned(),
        );
    }
    risk_for(owner, seed.package_leaf)
}

fn make_candidate(
    seed: &SurfaceSeed,
    facts: &SeedFacts,
    first: bool,
    home: &str,
    probe: VersionProbe,
    platform: Platform,
) -> (r: SurfaceCandidate)
    ensures
        r@ == candidate(seed@, *facts, first, home@, probe@, platform),
{
    let resolved = if seed.probeable { copy_opt(&facts.resolved) } else { None };
    let owner = classify_owner(platform, seed.owner, seed.raw.as_str(), &resolved, home);
    let (redirectability, risk, risk_reason) = redirect_for(seed, owner, &resolved, platform);
    let current = seed.current || first;
    let precedence = surface_precedence(seed.origin.as_str(), current);
    let leaf = surface_leaf(seed.raw.as_str(), &resolved, facts.exists);
    let file_identity = surface_file_identity(
        seed.probeable,
        seed.raw.as_str(),
        &leaf,
        &facts.inspected,
    );
    SurfaceCandidate {
        origin: seed.origin.clone(),
        raw: seed.raw.clone(),
        resolved,
        version: copy_opt(&probe.version),
        owner,
        update_method: update_method_for(owner),
        current,
        precedence,
        file_identity,
        redirectability,
        risk,
        risk_reason,
        exists: facts.exists,
        probe,
    }
}

fn probe_result(
    platform: Platform,
    seed: &SurfaceSeed,
    facts: &SeedFacts,
    plan: &Vec<String>,
    probes: &Vec<VersionProbe>,
    options: &DiscoveryOptions,
) -> (r: VersionProbe)
    requires
        plan@.len() == probes@.len(),
    ensures
        r@ == probe_for(
            platform,
            probe_path(seed@, *facts),
            seed.probeable,
            texts(plan@),
            probes@,
            *options,
        ),
{
    proof {
        assert(texts(plan@).len() == plan@.len());
    }
    if !seed.probeable || !options.probe_versions {
        return VersionProbe::not_run();
    }
    match seed_probe_path(seed, facts) {
        None => VersionProbe {
            status: ProbeStatus::Failed,
            version: None,
            output: None,
            error: Some("surface does not resolve to a file".to_owned()),
            elapsed_ms: 0,
        },
        Some(path) => {
            let i = position_of_path(platform, plan, path.as_str());
            if i < plan.len() {
                probes[i].clone()
            } else {
                VersionProbe::not_run()
            }
        },
    }
}

/// The surfaces that the seeds turn out to be: one for each, in their order, up to the
/// limit. `facts` are what is found of those within the limit, and `probes` what the
/// launchers that `plan_probes` lists have answered.
pub fn discover_with_options(
    home: &str,
    options: &DiscoveryOptions,
    seeds: &Vec<SurfaceSeed>,
    facts: &Vec<SeedFacts>,
    probes: &Vec<VersionProbe>,
    platform: Platform,
) -> (r: Vec<SurfaceCandidate>)
    requires
        facts@.len() == kept(seeds@.len(), *options),
        probes@.len() == planned_probes(platform, seeds_view(seeds@), facts@, *options).len(),
    ensures
        ({
            let list = seeds_view(seeds@).take(facts@.len() as int);
            let plan = planned_probes(platform, seeds_view(seeds@), facts@, *options);
            let first = first_on_path(list, facts@, 0);
            &&& r@.len() == list.len()
            &&& forall|i: int|
                0 <= i < list.len() ==> (#[trigger] r@[i])@ == candidate(
                    list[i],
                    facts@[i],
                    i == first,
                    home@,
                    probe_for(
                        platform,
                        probe_path(list[i], facts@[i]),
                        list[i].probeable,
                        plan,
                        probes@,
                        *options,
                    ),
                    platform,
                )
        }),
{
    let plan = plan_probes(platform, seeds, facts, options);
    let ghost list = seeds_view(seeds@).take(facts@.len() as int);
    let ghost planned = planned_probes(platform, seeds_view(seeds@), facts@, *options);
    proof {
        assert(texts(plan@).len() == plan@.len());
    }
    let mut first: usize = 0;
    while first < facts.len() && !(starts_with(seeds[first].origin.as_str(), "PATH[")
        && facts[first].launchable)
        invariant
            first <= facts@.len() <= seeds@.len(),
            list == seeds_view(seeds@).take(facts@.len() as int),
            first_on_path(list, facts@, 0) == first_on_path(list, facts@, first as int),
        decreases facts@.len() - first,
    {
        proof {
            assert(list[first as int] == seeds@[first as int]@);
        }
        first = first + 1;
    }
    proof {
        if first < facts@.len() {
            assert(list[first as int] == seeds@[first as int]@);
        }
        assert(first == first_on_path(list, facts@, 0));
    }
    let mut out: Vec<SurfaceCandidate> = Vec::new();
    let mut i: usize = 0;
    while i < facts.len()
        invariant
            i <= facts@.len() <= seeds@.len(),
            out@.len() == i,
            list == seeds_view(seeds@).take(facts@.len() as int),
            planned == texts(plan@),
            plan@.len() == probes@.len(),
            first == first_on_path(list, facts@, 0),
            forall|k: int|
                0 <= k < i ==> (#[trigger] out@[k])@ == candidate(
                    list[k],
                    facts@[k],
                    k == first,
                    home@,
                    probe_for(
                        platform,
                        probe_path(list[k], facts@[k]),
                        list[k].probeable,
                        planned,
                        probes@,
                        *options,
                    ),
                    platform,
                ),
        decreases facts@.len() - i,
    {
        proof {
            assert(list[i as int] == seeds@[i as int]@);
        }
        let probe = probe_result(platform, &seeds[i], &facts[i], &plan, probes, options);
        out.push(make_candidate(&seeds[i], &facts[i], i == first, home, probe, platform));
        i = i + 1;
    }
    out
}

/// The surfaces of a machine, within the default limits.
pub fn discover(
    home: &str,
    seeds: &Vec<SurfaceSeed>,
    facts: &Vec<SeedFacts>,
    probes: &Vec<VersionProbe>,
    platform: Platform,
) -> (r: Vec<SurfaceCandidate>)
    requires
        facts@.len() == kept(seeds@.len(), default_discovery()),
        probes@.len() == planned_probes(
            platform,
            seeds_view(seeds@),
            facts@,
            default_discovery(),
        ).len(),
    ensures
        ({
            let list = seeds_view(seeds@).take(facts@.len() as int);
            let plan = planned_probes(platform, seeds_view(seeds@), facts@, default_discovery());
            let first = first_on_path(list, facts@, 0);
            &&& r@.len() == list.len()
            &&& forall|i: int|
                0 <= i < list.len() ==> (#[trigger] r@[i])@ == candidate(
                    list[i],
                    facts@[i],
                    i == first,
                    home@,
                    probe_for(
                        platform,
                        probe_path(list[i], facts@[i]),
                        list[i].probeable,
                        plan,
                        probes@,
                        default_discovery(),
                    ),
                    platform,
                )
        }),
{
    let options = DiscoveryOptions::default();
    discover_with_options(home, &options, seeds, facts, probes, platform)
}

/// Shell state and the insides of signed bundles are reported, but never offered for
/// redirection, whoever owns them.
pub proof fn protected_surfaces_are_never_redirected(
    seed: SeedView,
    facts: SeedFacts,
    first: bool,
    home: Seq<char>,
    probe: VersionView,
    platform: Platform,
)
    requires
        seed.read_only_reason is Some || in_bundle(seed.raw, resolved_of(seed, facts)),
    ensures
        ({
            let c = candidate(seed, facts, first, home, probe, platform);
            c.redirectability == Redirectability::NotRedirectable && c.risk
                == SurfaceRisk::Critical
        }),
{
}

/// Only a surface that no package manager, application or installer owns is offered for
/// direct redirection.
pub proof fn managed_surfaces_are_never_direct(
    seed: SeedView,
    facts: SeedFacts,
    first: bool,
    home: Seq<char>,
    probe: VersionView,
    platform: Platform,
)
    ensures
        ({
            let c = candidate(seed, facts, first, home, probe, platform);
            c.redirectability == Redirectability::Direct ==> (c.owner == SurfaceOwner::Manual
                || c.owner == SurfaceOwner::Unknown) && !seed.package_leaf
        }),
{
}

proof fn lemma_index_of_path(platform: Platform, list: Seq<Seq<char>>, path: Seq<char>)
    ensures
        0 <= index_of_path(platform, list, path) <= list.len(),
        index_of_path(platform, list, path) < list.len() ==> parts(
            platform,
            list[index_of_path(platform, list, path)],
        )
            == parts(platform, path),
        forall|i: int|
            0 <= i < index_of_path(platform, list, path) ==> parts(platform, #[trigger] list[i]) != parts(platform, path),
    decreases list.len(),
{
    if list.len() > 0 && parts(platform, list[0]) != parts(platform, path) {
        let rest = list.drop_first();
        lemma_index_of_path(platform, rest, path);
        let n = index_of_path(platform, rest, path);
        assert forall|i: int| 0 <= i < n + 1 implies parts(platform, #[trigger] list[i]) != parts(platform, path) by {
            if i > 0 {
                assert(rest[i - 1] == list[i]);
            }
        }
        if n < rest.len() {
            assert(rest[n] == list[n + 1]);
        }
    }
}

/// No launcher is asked for its version twice, and no more of them than the limit allows.
pub proof fn launchers_are_probed_once(
    platform: Platform,
    seeds: Seq<SeedView>,
    facts: Seq<SeedFacts>,
    max: nat,
)
    ensures
        probe_plan(platform, seeds, facts, max).len() <= max,
        forall|i: int, j: int|
            #![trigger probe_plan(platform, seeds, facts, max)[i], probe_plan(platform, seeds, facts, max)[j]]
            0 <= i < j < probe_plan(platform, seeds, facts, max).len() ==> parts(
                platform,
                probe_plan(platform, seeds, facts, max)[i],
            ) != parts(platform, probe_plan(platform, seeds, facts, max)[j]),
    decreases seeds.len(),
{
    if seeds.len() > 0 {
        launchers_are_probed_once(platform, seeds.drop_last(), facts, max);
        let before = probe_plan(platform, seeds.drop_last(), facts, max);
        let after = probe_plan(platform, seeds, facts, max);
        if after != before {
            let path = probe_path(seeds.last(), facts[seeds.len() - 1])->0;
            lemma_index_of_path(platform, before, path);
            assert(after == before.push(path));
            assert forall|i: int, j: int|
                #![trigger after[i], after[j]]
                0 <= i < j < after.len() implies parts(platform, after[i]) != parts(platform, after[j]) by {
                assert(after[i] == before[i]);
                if j < before.len() {
                    assert(after[j] == before[j]);
                }
            }
        }
    }
}

/// At most one file of the search path is the current one, and it is the first that can be
/// launched.
pub proof fn the_first_launchable_file_is_current(
    seeds: Seq<SeedView>,
    facts: Seq<SeedFacts>,
    from: int,
    i: int,
)
    requires
        0 <= from <= i < seeds.len(),
        "PATH["@.is_prefix_of(seeds[i].origin),
        facts[i].launchable,
    ensures
        from <= first_on_path(seeds, facts, from) <= i,
        "PATH["@.is_prefix_of(seeds[first_on_path(seeds, facts, from)].origin),
        facts[first_on_path(seeds, facts, from)].launchable,
    decreases i - from,
{
    if !("PATH["@.is_prefix_of(seeds[from].origin) && facts[from].launchable) {
        the_first_launchable_file_is_current(seeds, facts, from + 1, i);
    }
}

} // verus!
