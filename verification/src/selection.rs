//! Which launchers an installation takes over.

use vstd::prelude::*;

use crate::discovery::{
    method_label, owner_name, owner_word, search_form, CandidateView, Redirectability,
    SurfaceCandidate, SurfaceOwner, SurfaceRisk,
};
use crate::elevation::{absolute, absolute_path, EntryType};
use crate::journal::as_result;
use crate::paths::{
    file_name, file_name_of, join_path, joined, parent, parent_of, parts, same_path, Platform,
};
use crate::patchset::result_texts;
use crate::text::{
    with_forward_slashes,
    ascii_lower, contains, contains_text, ends_with, lemma_texts_push, result_text, result_unit,
    texts, to_ascii_lower,
};

verus! {

/// A launcher's path with the links of its directory followed. A link at its end stays: two
/// launchers that lead to one executable are two launchers. `canonical_parent` is the
/// directory with its links followed.
pub open spec fn normalized(
    platform: Platform,
    path: Seq<char>,
    cwd: Result<Seq<char>, Seq<char>>,
    canonical_parent: Result<Seq<char>, Seq<char>>,
) -> Result<Seq<char>, Seq<char>> {
    match absolute(platform, path, cwd) {
        Err(message) => Err(message),
        Ok(full) => match (file_name(platform, full), parent(platform, full)) {
            (None, _) => Err("Codex surface path must name a file"@),
            (Some(_), None) => Err("Codex surface path has no parent directory"@),
            (Some(name), Some(dir)) => match canonical_parent {
                Err(message) => Err(
                    "canonicalizing Codex surface parent "@ + dir + ": "@ + message,
                ),
                Ok(there) => Ok(join_path(platform, there, name)),
            },
        },
    }
}

pub fn normalize_surface_path(
    platform: Platform,
    path: &str,
    cwd: &Result<String, String>,
    canonical_parent: &Result<String, String>,
) -> (r: Result<String, String>)
    ensures
        result_text(r) == normalized(
            platform,
            path@,
            result_text(*cwd),
            result_text(*canonical_parent),
        ),
{
    let full = match absolute_path(platform, path, cwd) {
        Ok(full) => full,
        Err(message) => return Err(message),
    };
    let name = match file_name_of(platform, full.as_str()) {
        Some(name) => name,
        None => return Err("Codex surface path must name a file".to_owned()),
    };
    let dir = match parent_of(platform, full.as_str()) {
        Some(dir) => dir,
        None => return Err("Codex surface path has no parent directory".to_owned()),
    };
    match canonical_parent {
        Err(inner) => {
            let mut message = "canonicalizing Codex surface parent ".to_owned();
            message.append(dir.as_str());
            message.append(": ");
            message.append(inner.as_str());
            Err(message)
        },
        Ok(there) => Ok(joined(platform, there.as_str(), name.as_str())),
    }
}

/// The list holds that path.
pub open spec fn has_path(platform: Platform, list: Seq<Seq<char>>, path: Seq<char>) -> bool {
    exists|i: int| 0 <= i < list.len() && parts(platform, #[trigger] list[i]) == parts(platform, path)
}

pub fn holds_path(platform: Platform, list: &Vec<String>, path: &str) -> (r: bool)
    ensures
        r == has_path(platform, texts(list@), path@),
{
    let ghost all = texts(list@);
    let mut i: usize = 0;
    while i < list.len()
        invariant
            i <= list@.len(),
            all == texts(list@),
            forall|k: int| 0 <= k < i ==> parts(platform, #[trigger] all[k]) != parts(platform, path@),
        decreases list@.len() - i,
    {
        proof {
            assert(all[i as int] == list@[i as int]@);
        }
        if same_path(platform, list[i].as_str(), path) {
            proof {
                assert(parts(platform, all[i as int]) == parts(platform, path@));
            }
            return true;
        }
        i = i + 1;
    }
    false
}

pub open spec fn with_path(
    platform: Platform,
    list: Seq<Seq<char>>,
    path: Seq<char>,
) -> Seq<Seq<char>> {
    if has_path(platform, list, path) {
        list
    } else {
        list.push(path)
    }
}

fn push_path(platform: Platform, list: &mut Vec<String>, path: String)
    ensures
        texts(final(list)@) == with_path(platform, texts(old(list)@), path@),
{
    if !holds_path(platform, list, path.as_str()) {
        proof {
            lemma_texts_push(list@, path);
        }
        list.push(path);
    }
}

/// Each path once, in order, unless one could not be normalized.
pub open spec fn distinct_paths(platform: Platform, list: Seq<Result<String, String>>) -> Result<
    Seq<Seq<char>>,
    Seq<char>,
>
    decreases list.len(),
{
    if list.len() == 0 {
        Ok(Seq::empty())
    } else {
        match distinct_paths(platform, list.drop_last()) {
            Err(message) => Err(message),
            Ok(before) => match list.last() {
                Err(message) => Err(message@),
                Ok(path) => Ok(with_path(platform, before, path@)),
            },
        }
    }
}

proof fn lemma_distinct_stops(platform: Platform, list: Seq<Result<String, String>>, n: int)
    requires
        0 <= n <= list.len(),
        distinct_paths(platform, list.take(n)) is Err,
    ensures
        distinct_paths(platform, list) == distinct_paths(platform, list.take(n)),
    decreases list.len() - n,
{
    if n < list.len() {
        assert(list.take(n + 1).drop_last() =~= list.take(n));
        lemma_distinct_stops(platform, list, n + 1);
    } else {
        assert(list.take(n) =~= list);
    }
}

pub fn deduplicate_surface_paths(
    platform: Platform,
    normalized: &Vec<Result<String, String>>,
) -> (r: Result<Vec<String>, String>)
    ensures
        result_texts(r) == distinct_paths(platform, normalized@),
{
    let mut out: Vec<String> = Vec::new();
    let mut i: usize = 0;
    proof {
        assert(normalized@.take(0) =~= Seq::empty());
        assert(texts(out@) =~= Seq::empty());
    }
    while i < normalized.len()
        invariant
            i <= normalized@.len(),
            distinct_paths(platform, normalized@.take(i as int)) == Ok::<Seq<Seq<char>>, Seq<char>>(
                texts(out@),
            ),
        decreases normalized@.len() - i,
    {
        proof {
            assert(normalized@.take(i as int + 1).drop_last() =~= normalized@.take(i as int));
            assert(normalized@.take(i as int + 1).last() == normalized@[i as int]);
        }
        match &normalized[i] {
            Err(message) => {
                proof {
                    lemma_distinct_stops(platform, normalized@, i as int + 1);
                }
                return Err(message.clone());
            },
            Ok(path) => push_path(platform, &mut out, path.clone()),
        }
        i = i + 1;
    }
    proof {
        assert(normalized@.take(normalized@.len() as int) =~= normalized@);
    }
    Ok(out)
}

/// The insides of signed applications, by their paths.
pub open spec fn is_protected(path: Seq<char>) -> bool {
    let folded = search_form(path);
    contains_text(folded, ".app/contents/"@) || contains_text(folded, "/windowsapps/"@)
        || "/windowsapps"@.is_suffix_of(folded)
}

pub open spec fn protection_problem(path: Seq<char>) -> Option<Seq<char>> {
    if is_protected(path) {
        Some("refusing to replace protected or signed application contents directly: "@ + path)
    } else {
        None
    }
}

pub fn reject_protected_explicit_surface(path: &str) -> (r: Result<(), String>)
    ensures
        result_unit(r) == as_result(protection_problem(path@)),
{
    let form = to_ascii_lower(with_forward_slashes(path).as_str());
    let folded = form.as_str();
    if contains(folded, ".app/contents/") || contains(folded, "/windowsapps/") || ends_with(
        folded,
        "/windowsapps",
    ) {
        let mut message =
            "refusing to replace protected or signed application contents directly: ".to_owned();
        message.append(path);
        return Err(message);
    }
    Ok(())
}

/// A launcher that was named on the command line.
#[derive(Debug)]
pub struct ExplicitSurface {
    /// Its normalized path.
    pub path: Result<String, String>,
    /// What stands there, links not followed.
    pub kind: Result<EntryType, String>,
}

pub open spec fn candidates_view(v: Seq<SurfaceCandidate>) -> Seq<CandidateView> {
    v.map_values(|c: SurfaceCandidate| c@)
}

/// The first candidate at that path.
pub open spec fn candidate_at(
    platform: Platform,
    list: Seq<CandidateView>,
    path: Seq<char>,
) -> Option<CandidateView>
    decreases list.len(),
{
    if list.len() == 0 {
        None
    } else if parts(platform, list[0].raw) == parts(platform, path) {
        Some(list[0])
    } else {
        candidate_at(platform, list.drop_first(), path)
    }
}

fn find_candidate(
    platform: Platform,
    list: &Vec<SurfaceCandidate>,
    path: &str,
) -> (r: Option<usize>)
    ensures
        match r {
            Some(i) => i < list@.len() && candidate_at(
                platform,
                candidates_view(list@),
                path@,
            ) == Some(
                list@[i as int]@,
            ),
            None => candidate_at(platform, candidates_view(list@), path@) is None,
        },
{
    let ghost all = candidates_view(list@);
    let mut i: usize = 0;
    proof {
        assert(all.skip(0) =~= all);
    }
    while i < list.len()
        invariant
            i <= list@.len(),
            all == candidates_view(list@),
            candidate_at(platform, all, path@) == candidate_at(platform, all.skip(i as int), path@),
        decreases list@.len() - i,
    {
        proof {
            assert(all.skip(i as int)[0] == list@[i as int]@);
            assert(all.skip(i as int).drop_first() =~= all.skip(i as int + 1));
        }
        if same_path(platform, list[i].raw.as_str(), path) {
            return Some(i);
        }
        i = i + 1;
    }
    None
}

/// Why a launcher that was named cannot be taken over.
pub open spec fn explicit_problem(
    platform: Platform,
    path: Seq<char>,
    kind: Result<EntryType, String>,
    manager: Seq<char>,
    candidates: Seq<CandidateView>,
) -> Option<Seq<char>> {
    if parts(platform, path) == parts(platform, manager) {
        Some("the stable management binary cannot be selected as a Codex surface"@)
    } else if protection_problem(path) is Some {
        protection_problem(path)
    } else {
        match kind {
            Err(message) => Some(
                "explicit Codex surface does not exist or cannot be inspected: "@ + path + ": "@
                    + message@,
            ),
            Ok(kind) => if kind != EntryType::File && kind != EntryType::Symlink {
                Some("explicit Codex surface is not a file or symlink: "@ + path)
            } else {
                match candidate_at(platform, candidates, path) {
                    Some(c) => if c.redirectability == Redirectability::NotRedirectable {
                        Some("surface "@ + path + " is not redirectable: "@ + c.risk_reason)
                    } else {
                        None
                    },
                    None => None,
                }
            },
        }
    }
}

/// The named launchers, each once, unless one of them is refused.
pub open spec fn explicit_selection(
    platform: Platform,
    list: Seq<ExplicitSurface>,
    manager: Seq<char>,
    candidates: Seq<CandidateView>,
) -> Result<Seq<Seq<char>>, Seq<char>>
    decreases list.len(),
{
    if list.len() == 0 {
        Ok(Seq::empty())
    } else {
        match explicit_selection(platform, list.drop_last(), manager, candidates) {
            Err(message) => Err(message),
            Ok(before) => match list.last().path {
                Err(message) => Err(message@),
                Ok(path) => match explicit_problem(
                    platform,
                    path@,
                    list.last().kind,
                    manager,
                    candidates,
                ) {
                    Some(message) => Err(message),
                    None => Ok(with_path(platform, before, path@)),
                },
            },
        }
    }
}

proof fn lemma_explicit_stops(
    platform: Platform,
    list: Seq<ExplicitSurface>,
    manager: Seq<char>,
    candidates: Seq<CandidateView>,
    n: int,
)
    requires
        0 <= n <= list.len(),
        explicit_selection(platform, list.take(n), manager, candidates) is Err,
    ensures
        explicit_selection(platform, list, manager, candidates) == explicit_selection(
            platform,
            list.take(n),
            manager,
            candidates,
        ),
    decreases list.len() - n,
{
    if n < list.len() {
        assert(list.take(n + 1).drop_last() =~= list.take(n));
        lemma_explicit_stops(platform, list, manager, candidates, n + 1);
    } else {
        assert(list.take(n) =~= list);
    }
}

fn check_explicit(
    platform: Platform,
    path: &str,
    kind: &Result<EntryType, String>,
    manager: &str,
    candidates: &Vec<SurfaceCandidate>,
) -> (r: Result<(), String>)
    ensures
        result_unit(r) == as_result(
            explicit_problem(platform, path@, *kind, manager@, candidates_view(candidates@)),
        ),
{
    if same_path(platform, path, manager) {
        return Err(
            "the stable management binary cannot be selected as a Codex surface".to_owned(),
        );
    }
    match reject_protected_explicit_surface(path) {
        Ok(()) => {},
        Err(message) => return Err(message),
    }
    match kind {
        Err(inner) => {
            let mut message =
                "explicit Codex surface does not exist or cannot be inspected: ".to_owned();
            message.append(path);
            message.append(": ");
            message.append(inner.as_str());
            return Err(message);
        },
        Ok(kind) => {
            if *kind != EntryType::File && *kind != EntryType::Symlink {
                let mut message = "explicit Codex surface is not a file or symlink: ".to_owned();
                message.append(path);
                return Err(message);
            }
        },
    }
    if let Some(i) = find_candidate(platform, candidates, path) {
        if candidates[i].redirectability == Redirectability::NotRedirectable {
            let mut message = "surface ".to_owned();
            message.append(path);
            message.append(" is not redirectable: ");
            message.append(candidates[i].risk_reason.as_str());
            return Err(message);
        }
    }
    Ok(())
}

/// The launchers that were named on the command line.
pub fn select_explicit(
    platform: Platform,
    explicit: &Vec<ExplicitSurface>,
    manager: &str,
    candidates: &Vec<SurfaceCandidate>,
) -> (r: Result<Vec<String>, String>)
    ensures
        result_texts(r) == explicit_selection(
            platform,
            explicit@,
            manager@,
            candidates_view(candidates@),
        ),
{
    let ghost all = candidates_view(candidates@);
    let mut out: Vec<String> = Vec::new();
    let mut i: usize = 0;
    proof {
        assert(explicit@.take(0) =~= Seq::empty());
        assert(texts(out@) =~= Seq::empty());
    }
    while i < explicit.len()
        invariant
            i <= explicit@.len(),
            all == candidates_view(candidates@),
            explicit_selection(platform, explicit@.take(i as int), manager@, all) == Ok::<
                Seq<Seq<char>>,
                Seq<char>,
            >(texts(out@)),
        decreases explicit@.len() - i,
    {
        proof {
            assert(explicit@.take(i as int + 1).drop_last() =~= explicit@.take(i as int));
            assert(explicit@.take(i as int + 1).last() == explicit@[i as int]);
        }
        match &explicit[i].path {
            Err(message) => {
                proof {
                    lemma_explicit_stops(platform, explicit@, manager@, all, i as int + 1);
                }
                return Err(message.clone());
            },
            Ok(path) => {
                match check_explicit(
                    platform,
                    path.as_str(),
                    &explicit[i].kind,
                    manager,
                    candidates,
                ) {
                    Ok(()) => {},
                    Err(message) => {
                        proof {
                            lemma_explicit_stops(platform, explicit@, manager@, all, i as int + 1);
                        }
                        return Err(message);
                    },
                }
                push_path(platform, &mut out, path.clone());
            },
        }
        i = i + 1;
    }
    proof {
        assert(explicit@.take(explicit@.len() as int) =~= explicit@);
    }
    Ok(out)
}

/// A launcher that is offered: it is there, and can be redirected.
pub open spec fn is_selectable(c: CandidateView) -> bool {
    c.exists && (c.redirectability == Redirectability::Direct || c.redirectability
        == Redirectability::OwnerManaged)
}

pub open spec fn risk_word(risk: SurfaceRisk) -> Seq<char> {
    match risk {
        SurfaceRisk::Low => "Low"@,
        SurfaceRisk::Medium => "Medium"@,
        SurfaceRisk::High => "High"@,
        SurfaceRisk::Critical => "Critical"@,
    }
}

pub fn risk_name(risk: SurfaceRisk) -> (r: &'static str)
    ensures
        r@ == risk_word(risk),
{
    match risk {
        SurfaceRisk::Low => "Low",
        SurfaceRisk::Medium => "Medium",
        SurfaceRisk::High => "High",
        SurfaceRisk::Critical => "Critical",
    }
}

pub open spec fn or_unknown(o: Option<Seq<char>>) -> Seq<char> {
    match o {
        Some(s) => s,
        None => "unknown"@,
    }
}

/// How a launcher is offered.
pub open spec fn choice_label(c: CandidateView) -> Seq<char> {
    c.raw + "  owner="@ + owner_word(c.owner) + " version="@ + or_unknown(c.version) + " risk="@
        + risk_word(c.risk)
}

pub fn surface_label(c: &SurfaceCandidate) -> (r: String)
    ensures
        r@ == choice_label(c@),
{
    let mut out = c.raw.clone();
    out.append("  owner=");
    out.append(owner_name(c.owner));
    out.append(" version=");
    out.append(
        match &c.version {
            Some(version) => version.as_str(),
            None => "unknown",
        },
    );
    out.append(" risk=");
    out.append(risk_name(c.risk));
    out
}

/// A launcher as it is offered: its position among the candidates, its label, and whether
/// it is selected at first.
#[derive(Debug)]
pub struct SurfaceChoice {
    pub index: usize,
    pub label: String,
    pub selected: bool,
}

pub open spec fn choices_view(v: Seq<SurfaceChoice>) -> Seq<(int, Seq<char>, bool)> {
    v.map_values(|c: SurfaceChoice| (c.index as int, c.label@, c.selected))
}

pub open spec fn offered(list: Seq<CandidateView>) -> Seq<(int, Seq<char>, bool)>
    decreases list.len(),
{
    if list.len() == 0 {
        Seq::empty()
    } else if is_selectable(list.last()) {
        offered(list.drop_last()).push(
            (list.len() - 1, choice_label(list.last()), list.last().current),
        )
    } else {
        offered(list.drop_last())
    }
}

/// The launchers that are offered when none was named. `yes` asks for no questions.
pub fn offer_surfaces(candidates: &Vec<SurfaceCandidate>, yes: bool, terminal: bool) -> (r: Result<
    Vec<SurfaceChoice>,
    String,
>)
    ensures
        if yes || !terminal {
            r matches Err(e) && e@ == "noninteractive install requires at least one --surface PATH"@
        } else {
            r matches Ok(list) && choices_view(list@) == offered(candidates_view(candidates@))
        },
{
    if yes || !terminal {
        return Err("noninteractive install requires at least one --surface PATH".to_owned());
    }
    let ghost all = candidates_view(candidates@);
    let mut out: Vec<SurfaceChoice> = Vec::new();
    let mut i: usize = 0;
    proof {
        assert(all.take(0) =~= Seq::empty());
        assert(choices_view(out@) =~= Seq::empty());
    }
    while i < candidates.len()
        invariant
            i <= candidates@.len(),
            !yes && terminal,
            all == candidates_view(candidates@),
            choices_view(out@) == offered(all.take(i as int)),
        decreases candidates@.len() - i,
    {
        let c = &candidates[i];
        proof {
            assert(all.take(i as int + 1).drop_last() =~= all.take(i as int));
            assert(all.take(i as int + 1).last() == c@);
        }
        if c.exists && (c.redirectability == Redirectability::Direct || c.redirectability
            == Redirectability::OwnerManaged) {
            let item = SurfaceChoice { index: i, label: surface_label(c), selected: c.current };
            proof {
                assert(choices_view(out@.push(item)) =~= choices_view(out@).push(
                    (i as int, item.label@, item.selected),
                ));
            }
            out.push(item);
        }
        i = i + 1;
    }
    proof {
        assert(all.take(candidates@.len() as int) =~= all);
    }
    Ok(out)
}

/// The positions of the candidates that are there and were selected.
pub open spec fn chosen(
    platform: Platform,
    list: Seq<CandidateView>,
    paths: Seq<Result<String, String>>,
    selected: Seq<Seq<char>>,
) -> Result<Seq<int>, Seq<char>>
    decreases list.len(),
{
    if list.len() == 0 {
        Ok(Seq::empty())
    } else {
        match chosen(platform, list.drop_last(), paths, selected) {
            Err(message) => Err(message),
            Ok(before) => if !list.last().exists {
                Ok(before)
            } else {
                match paths[list.len() - 1] {
                    Err(message) => Err(message@),
                    Ok(path) => if has_path(platform, selected, path@) {
                        Ok(before.push(list.len() - 1))
                    } else {
                        Ok(before)
                    },
                }
            },
        }
    }
}

pub open spec fn positions(v: Seq<usize>) -> Seq<int> {
    v.map_values(|i: usize| i as int)
}

pub open spec fn positions_result(r: Result<Vec<usize>, String>) -> Result<Seq<int>, Seq<char>> {
    match r {
        Ok(v) => Ok(positions(v@)),
        Err(message) => Err(message@),
    }
}

proof fn lemma_chosen_stops(
    platform: Platform,
    list: Seq<CandidateView>,
    paths: Seq<Result<String, String>>,
    selected: Seq<Seq<char>>,
    n: int,
)
    requires
        0 <= n <= list.len(),
        chosen(platform, list.take(n), paths, selected) is Err,
    ensures
        chosen(platform, list, paths, selected) == chosen(platform, list.take(n), paths, selected),
    decreases list.len() - n,
{
    if n < list.len() {
        assert(list.take(n + 1).drop_last() =~= list.take(n));
        lemma_chosen_stops(platform, list, paths, selected, n + 1);
    } else {
        assert(list.take(n) =~= list);
    }
}

/// The candidates that the selected paths stand for. `paths` are the normalized paths of
/// the candidates.
pub fn selected_candidates(
    platform: Platform,
    candidates: &Vec<SurfaceCandidate>,
    paths: &Vec<Result<String, String>>,
    selected: &Vec<String>,
) -> (r: Result<Vec<usize>, String>)
    requires
        paths@.len() == candidates@.len(),
    ensures
        positions_result(r) == chosen(
            platform,
            candidates_view(candidates@),
            paths@,
            texts(selected@),
        ),
        r matches Ok(list) ==> forall|i: int|
            0 <= i < list@.len() ==> (#[trigger] list@[i]) < candidates@.len(),
{
    let ghost all = candidates_view(candidates@);
    let mut out: Vec<usize> = Vec::new();
    let mut i: usize = 0;
    proof {
        assert(all.take(0) =~= Seq::empty());
        assert(positions(out@) =~= Seq::empty());
    }
    while i < candidates.len()
        invariant
            i <= candidates@.len(),
            paths@.len() == candidates@.len(),
            all == candidates_view(candidates@),
            chosen(
                platform,
                all.take(i as int),
                paths@,
                texts(selected@),
            ) == Ok::<Seq<int>, Seq<char>>(
                positions(out@),
            ),
            forall|k: int| 0 <= k < out@.len() ==> (#[trigger] out@[k]) < candidates@.len(),
        decreases candidates@.len() - i,
    {
        proof {
            assert(all.take(i as int + 1).drop_last() =~= all.take(i as int));
            assert(all.take(i as int + 1).last() == candidates@[i as int]@);
        }
        if candidates[i].exists {
            match &paths[i] {
                Err(message) => {
                    proof {
                        lemma_chosen_stops(platform, all, paths@, texts(selected@), i as int + 1);
                    }
                    return Err(message.clone());
                },
                Ok(path) => {
                    if holds_path(platform, selected, path.as_str()) {
                        proof {
                            assert(positions(out@.push(i)) =~= positions(out@).push(i as int));
                        }
                        out.push(i);
                    }
                },
            }
        }
        i = i + 1;
    }
    proof {
        assert(all.take(candidates@.len() as int) =~= all);
    }
    Ok(out)
}

pub open spec fn owner_warning(c: CandidateView) -> Seq<char> {
    "WARNING: "@ + c.raw + " is owned by "@ + ascii_lower(owner_word(c.owner)) + " ("@
        + method_label(c.update_method)
        + "); that owner can overwrite the dispatcher, and recovery is manual via `codex-patcher repair-shims`"@
}

/// What is said of a selected launcher that something else updates.
pub fn warn_of_owner(c: &SurfaceCandidate) -> (r: Option<String>)
    ensures
        match r {
            Some(text) => c.redirectability == Redirectability::OwnerManaged && text@
                == owner_warning(c@),
            None => c.redirectability != Redirectability::OwnerManaged,
        },
{
    if c.redirectability != Redirectability::OwnerManaged {
        return None;
    }
    let method = c.update_method.label();
    let mut out = "WARNING: ".to_owned();
    out.append(c.raw.as_str());
    out.append(" is owned by ");
    out.append(to_ascii_lower(owner_name(c.owner)).as_str());
    out.append(" (");
    out.append(method);
    out.append(
        "); that owner can overwrite the dispatcher, and recovery is manual via `codex-patcher repair-shims`",
    );
    Some(out)
}

/// A launcher whose owner may have a system updater that can be switched off.
pub fn has_system_updater(owner: SurfaceOwner) -> (r: bool)
    ensures
        r == (owner is Standalone || owner is Desktop || owner is Daemon),
{
    matches!(owner, SurfaceOwner::Standalone | SurfaceOwner::Desktop | SurfaceOwner::Daemon)
}

/// Nothing that is named twice is selected twice, and nothing protected or refused is
/// selected at all.
pub proof fn named_surfaces_are_safe(
    platform: Platform,
    list: Seq<ExplicitSurface>,
    manager: Seq<char>,
    candidates: Seq<CandidateView>,
)
    requires
        explicit_selection(platform, list, manager, candidates) is Ok,
    ensures
        ({
            let selected = explicit_selection(platform, list, manager, candidates)->Ok_0;
            &&& forall|i: int|
                0 <= i < selected.len() ==> !is_protected(#[trigger] selected[i]) && parts(
                    platform,
                    selected[i],
                ) != parts(platform, manager)
            &&& forall|i: int, j: int|
                #![trigger selected[i], selected[j]]
                0 <= i < j < selected.len() ==> parts(platform, selected[i]) != parts(platform, selected[j])
        }),
    decreases list.len(),
{
    if list.len() > 0 {
        named_surfaces_are_safe(platform, list.drop_last(), manager, candidates);
        let before = explicit_selection(platform, list.drop_last(), manager, candidates)->Ok_0;
        let path = list.last().path->Ok_0@;
        let after = explicit_selection(platform, list, manager, candidates)->Ok_0;
        assert(after == with_path(platform, before, path));
        if !has_path(platform, before, path) {
            assert forall|i: int, j: int|
                #![trigger after[i], after[j]]
                0 <= i < j < after.len() implies parts(platform, after[i]) != parts(platform, after[j]) by {
                assert(after[i] == before[i]);
                if j < before.len() {
                    assert(after[j] == before[j]);
                } else {
                    assert(parts(platform, before[i]) != parts(platform, path));
                }
            }
            assert forall|i: int| 0 <= i < after.len() implies !is_protected(#[trigger] after[i])
                && parts(platform, after[i]) != parts(platform, manager) by {
                if i < before.len() {
                    assert(after[i] == before[i]);
                }
            }
        }
    }
}

} // verus!
