//! What a build is made from and what it produced.

use vstd::prelude::*;

use crate::paths::{parts, same_path, Platform};
use crate::text::{opt_text, same, same_opt, texts};

verus! {

/// Nanoseconds since the Unix epoch.
#[derive(Debug, Clone, Copy, PartialEq, Eq, Structural)]
pub struct Timestamp {
    pub nanos: i128,
}

/// Instants that lie within the calendar, with room to spare.
pub open spec fn in_calendar(t: Timestamp) -> bool {
    -1_000_000_000_000_000_000_000_000_000_000 <= t.nanos
        <= 1_000_000_000_000_000_000_000_000_000_000
}

/// `t` and so many seconds later.
pub open spec fn later(t: Timestamp, seconds: u64) -> Timestamp {
    Timestamp { nanos: (t.nanos + seconds * 1_000_000_000) as i128 }
}

impl Timestamp {
    pub fn plus_seconds(self, seconds: u64) -> (r: Timestamp)
        requires
            in_calendar(self),
        ensures
            r == later(self, seconds),
            r.nanos == self.nanos + seconds * 1_000_000_000,
    {
        Timestamp { nanos: self.nanos + (seconds as i128) * 1_000_000_000 }
    }
}

/// An upstream commit, and the ref and version under which it was found.
#[derive(Debug, PartialEq, Eq)]
pub struct ResolvedSource {
    pub channel: String,
    pub ref_name: String,
    pub ref_object_oid: String,
    pub commit_oid: String,
    pub version: String,
    pub release_url: Option<String>,
}

pub struct SourceView {
    pub channel: Seq<char>,
    pub ref_name: Seq<char>,
    pub ref_object_oid: Seq<char>,
    pub commit_oid: Seq<char>,
    pub version: Seq<char>,
    pub release_url: Option<Seq<char>>,
}

impl View for ResolvedSource {
    type V = SourceView;

    open spec fn view(&self) -> SourceView {
        SourceView {
            channel: self.channel@,
            ref_name: self.ref_name@,
            ref_object_oid: self.ref_object_oid@,
            commit_oid: self.commit_oid@,
            version: self.version@,
            release_url: opt_text(self.release_url),
        }
    }
}

impl Clone for ResolvedSource {
    fn clone(&self) -> (r: Self)
        ensures
            r@ == self@,
    {
        ResolvedSource {
            channel: self.channel.clone(),
            ref_name: self.ref_name.clone(),
            ref_object_oid: self.ref_object_oid.clone(),
            commit_oid: self.commit_oid.clone(),
            version: self.version.clone(),
            release_url: copy_opt(&self.release_url),
        }
    }
}

impl ResolvedSource {
    /// Whether two sources agree in every field.
    pub fn same_as(&self, other: &ResolvedSource) -> (r: bool)
        ensures
            r == (self@ == other@),
    {
        same(self.channel.as_str(), other.channel.as_str()) && same(
            self.ref_name.as_str(),
            other.ref_name.as_str(),
        ) && same(self.ref_object_oid.as_str(), other.ref_object_oid.as_str()) && same(
            self.commit_oid.as_str(),
            other.commit_oid.as_str(),
        ) && same(self.version.as_str(), other.version.as_str()) && same_opt(
            &self.release_url,
            &other.release_url,
        )
    }
}

/// The build that the current inputs ask for.
#[derive(Debug, PartialEq, Eq)]
pub struct DesiredBuild {
    pub source: ResolvedSource,
    pub patch_fingerprint: String,
    pub target: String,
    pub source_key: String,
}

pub struct DesiredView {
    pub source: SourceView,
    pub patch_fingerprint: Seq<char>,
    pub target: Seq<char>,
    pub source_key: Seq<char>,
}

impl View for DesiredBuild {
    type V = DesiredView;

    open spec fn view(&self) -> DesiredView {
        DesiredView {
            source: self.source@,
            patch_fingerprint: self.patch_fingerprint@,
            target: self.target@,
            source_key: self.source_key@,
        }
    }
}

impl Clone for DesiredBuild {
    fn clone(&self) -> (r: Self)
        ensures
            r@ == self@,
    {
        DesiredBuild {
            source: self.source.clone(),
            patch_fingerprint: self.patch_fingerprint.clone(),
            target: self.target.clone(),
            source_key: self.source_key.clone(),
        }
    }
}

impl DesiredBuild {
    pub fn same_as(&self, other: &DesiredBuild) -> (r: bool)
        ensures
            r == (self@ == other@),
    {
        self.source.same_as(&other.source) && same(
            self.patch_fingerprint.as_str(),
            other.patch_fingerprint.as_str(),
        ) && same(self.target.as_str(), other.target.as_str()) && same(
            self.source_key.as_str(),
            other.source_key.as_str(),
        )
    }
}

/// A validated, immutable build.
#[derive(Debug, PartialEq, Eq)]
pub struct GenerationRef {
    pub id: String,
    pub package_dir: String,
    pub binary: String,
    pub source_key: String,
    pub source: ResolvedSource,
    pub patch_fingerprint: String,
    pub target: String,
    /// Subcommands parsed from the validated binary's help output. The
    /// dispatcher uses this to keep newly introduced service commands out of
    /// its interactive update UI without delaying launches to query help.
    pub subcommands: Vec<String>,
    pub built_at: Timestamp,
}

pub struct GenerationView {
    pub id: Seq<char>,
    pub package_dir: Seq<char>,
    pub binary: Seq<char>,
    pub source_key: Seq<char>,
    pub source: SourceView,
    pub patch_fingerprint: Seq<char>,
    pub target: Seq<char>,
    pub subcommands: Seq<Seq<char>>,
    pub built_at: Timestamp,
}

impl View for GenerationRef {
    type V = GenerationView;

    open spec fn view(&self) -> GenerationView {
        GenerationView {
            id: self.id@,
            package_dir: self.package_dir@,
            binary: self.binary@,
            source_key: self.source_key@,
            source: self.source@,
            patch_fingerprint: self.patch_fingerprint@,
            target: self.target@,
            subcommands: texts(self.subcommands@),
            built_at: self.built_at,
        }
    }
}

impl Clone for GenerationRef {
    fn clone(&self) -> (r: Self)
        ensures
            r@ == self@,
    {
        GenerationRef {
            id: self.id.clone(),
            package_dir: self.package_dir.clone(),
            binary: self.binary.clone(),
            source_key: self.source_key.clone(),
            source: self.source.clone(),
            patch_fingerprint: self.patch_fingerprint.clone(),
            target: self.target.clone(),
            subcommands: copy_texts(&self.subcommands),
            built_at: self.built_at,
        }
    }
}

/// Two generations agree: paths by their parts, everything else as it is written.
pub open spec fn same_generation(platform: Platform, a: GenerationView, b: GenerationView) -> bool {
    &&& a.id == b.id
    &&& parts(platform, a.package_dir) == parts(platform, b.package_dir)
    &&& parts(platform, a.binary) == parts(platform, b.binary)
    &&& a.source_key == b.source_key
    &&& a.source == b.source
    &&& a.patch_fingerprint == b.patch_fingerprint
    &&& a.target == b.target
    &&& a.subcommands == b.subcommands
    &&& a.built_at == b.built_at
}

impl GenerationRef {
    pub fn agrees_with(&self, platform: Platform, other: &GenerationRef) -> (r: bool)
        ensures
            r == same_generation(platform, self@, other@),
    {
        same(self.id.as_str(), other.id.as_str()) && same_path(
            platform,
            self.package_dir.as_str(),
            other.package_dir.as_str(),
        ) && same_path(platform, self.binary.as_str(), other.binary.as_str()) && same(
            self.source_key.as_str(),
            other.source_key.as_str(),
        ) && self.source.same_as(&other.source) && same(
            self.patch_fingerprint.as_str(),
            other.patch_fingerprint.as_str(),
        ) && same(self.target.as_str(), other.target.as_str()) && same_texts(
            &self.subcommands,
            &other.subcommands,
        ) && self.built_at == other.built_at
    }

    /// The build that this generation is the result of.
    pub fn desired(&self) -> (r: DesiredBuild)
        ensures
            r@ == desired_of(self@),
    {
        DesiredBuild {
            source: self.source.clone(),
            patch_fingerprint: self.patch_fingerprint.clone(),
            target: self.target.clone(),
            source_key: self.source_key.clone(),
        }
    }
}

pub open spec fn desired_of(g: GenerationView) -> DesiredView {
    DesiredView {
        source: g.source,
        patch_fingerprint: g.patch_fingerprint,
        target: g.target,
        source_key: g.source_key,
    }
}

/// How the active generation stands against the desired build.
#[derive(Debug, Clone, Copy, PartialEq, Eq, Structural)]
pub enum ProbeKind {
    Unknown,
    Current,
    Pending,
    Degraded,
    Failed,
    Blocked,
}

impl Default for ProbeKind {
    fn default() -> (r: Self)
        ensures
            r == ProbeKind::Unknown,
    {
        ProbeKind::Unknown
    }
}

#[derive(Debug)]
pub struct ProbeState {
    pub kind: ProbeKind,
    pub checked_at: Option<Timestamp>,
    /// Earliest instant at which upstream freshness must be revalidated.
    /// Local config and patch inputs are still inspected on every launch.
    pub next_check_at: Option<Timestamp>,
    pub desired: Option<DesiredBuild>,
    pub message: Option<String>,
}

pub struct ProbeView {
    pub kind: ProbeKind,
    pub checked_at: Option<Timestamp>,
    pub next_check_at: Option<Timestamp>,
    pub desired: Option<DesiredView>,
    pub message: Option<Seq<char>>,
}

impl View for ProbeState {
    type V = ProbeView;

    open spec fn view(&self) -> ProbeView {
        ProbeView {
            kind: self.kind,
            checked_at: self.checked_at,
            next_check_at: self.next_check_at,
            desired: opt_desired(self.desired),
            message: opt_text(self.message),
        }
    }
}

impl Clone for ProbeState {
    fn clone(&self) -> (r: Self)
        ensures
            r@ == self@,
    {
        ProbeState {
            kind: self.kind,
            checked_at: self.checked_at,
            next_check_at: self.next_check_at,
            desired: copy_desired(&self.desired),
            message: copy_opt(&self.message),
        }
    }
}

pub open spec fn unknown_probe() -> ProbeView {
    ProbeView {
        kind: ProbeKind::Unknown,
        checked_at: None,
        next_check_at: None,
        desired: None,
        message: None,
    }
}

impl Default for ProbeState {
    fn default() -> (r: Self)
        ensures
            r@ == unknown_probe(),
    {
        ProbeState {
            kind: ProbeKind::Unknown,
            checked_at: None,
            next_check_at: None,
            desired: None,
            message: None,
        }
    }
}

#[derive(Debug)]
pub struct FailureRecord {
    pub id: String,
    pub desired: DesiredBuild,
    pub phase: String,
    pub summary: String,
    pub failed_patch_index: Option<usize>,
    pub failed_patch: Option<String>,
    pub log_path: String,
    pub created_at: Timestamp,
    pub repair_worktree: Option<String>,
}

pub struct FailureView {
    pub id: Seq<char>,
    pub desired: DesiredView,
    pub phase: Seq<char>,
    pub summary: Seq<char>,
    pub failed_patch_index: Option<usize>,
    pub failed_patch: Option<Seq<char>>,
    pub log_path: Seq<char>,
    pub created_at: Timestamp,
    pub repair_worktree: Option<Seq<char>>,
}

impl View for FailureRecord {
    type V = FailureView;

    open spec fn view(&self) -> FailureView {
        FailureView {
            id: self.id@,
            desired: self.desired@,
            phase: self.phase@,
            summary: self.summary@,
            failed_patch_index: self.failed_patch_index,
            failed_patch: opt_text(self.failed_patch),
            log_path: self.log_path@,
            created_at: self.created_at,
            repair_worktree: opt_text(self.repair_worktree),
        }
    }
}

impl Clone for FailureRecord {
    fn clone(&self) -> (r: Self)
        ensures
            r@ == self@,
    {
        FailureRecord {
            id: self.id.clone(),
            desired: self.desired.clone(),
            phase: self.phase.clone(),
            summary: self.summary.clone(),
            failed_patch_index: self.failed_patch_index,
            failed_patch: copy_opt(&self.failed_patch),
            log_path: self.log_path.clone(),
            created_at: self.created_at,
            repair_worktree: copy_opt(&self.repair_worktree),
        }
    }
}

/// One output file and the SHA-256 of its bytes.
#[derive(Debug, PartialEq, Eq)]
pub struct FileHash {
    pub path: String,
    pub sha256: String,
}

pub struct FileHashView {
    pub path: Seq<char>,
    pub sha256: Seq<char>,
}

impl View for FileHash {
    type V = FileHashView;

    open spec fn view(&self) -> FileHashView {
        FileHashView { path: self.path@, sha256: self.sha256@ }
    }
}

/// What is recorded beside a validated generation.
#[derive(Debug)]
pub struct GenerationManifest {
    pub schema: u32,
    pub generation: GenerationRef,
    pub outputs: Vec<FileHash>,
    pub rustc: Option<String>,
    pub cargo: Option<String>,
    pub python: Option<String>,
    pub linker: Option<String>,
    pub sdk: Option<String>,
    pub environment: Vec<(String, String)>,
}

pub open spec fn opt_desired(o: Option<DesiredBuild>) -> Option<DesiredView> {
    match o {
        Some(d) => Some(d@),
        None => None,
    }
}

pub open spec fn opt_generation(o: Option<GenerationRef>) -> Option<GenerationView> {
    match o {
        Some(g) => Some(g@),
        None => None,
    }
}

pub open spec fn opt_failure(o: Option<FailureRecord>) -> Option<FailureView> {
    match o {
        Some(f) => Some(f@),
        None => None,
    }
}

pub fn copy_opt(o: &Option<String>) -> (r: Option<String>)
    ensures
        opt_text(r) == opt_text(*o),
{
    match o {
        Some(s) => Some(s.clone()),
        None => None,
    }
}

pub fn copy_desired(o: &Option<DesiredBuild>) -> (r: Option<DesiredBuild>)
    ensures
        opt_desired(r) == opt_desired(*o),
{
    match o {
        Some(d) => Some(d.clone()),
        None => None,
    }
}

pub fn copy_texts(list: &Vec<String>) -> (r: Vec<String>)
    ensures
        texts(r@) == texts(list@),
{
    let mut out: Vec<String> = Vec::new();
    let mut i: usize = 0;
    while i < list.len()
        invariant
            i <= list@.len(),
            texts(out@) == texts(list@.take(i as int)),
        decreases list@.len() - i,
    {
        out.push(list[i].clone());
        proof {
            assert(texts(list@.take(i as int + 1)) =~= texts(list@.take(i as int)).push(
                list@[i as int]@,
            ));
        }
        i = i + 1;
    }
    proof {
        assert(list@.take(list@.len() as int) =~= list@);
    }
    out
}

pub fn same_texts(a: &Vec<String>, b: &Vec<String>) -> (r: bool)
    ensures
        r == (texts(a@) == texts(b@)),
{
    if a.len() != b.len() {
        proof {
            assert(texts(a@).len() != texts(b@).len());
        }
        return false;
    }
    let mut i: usize = 0;
    while i < a.len()
        invariant
            i <= a@.len(),
            a@.len() == b@.len(),
            forall|j: int| 0 <= j < i ==> texts(a@)[j] == texts(b@)[j],
        decreases a@.len() - i,
    {
        if !same(a[i].as_str(), b[i].as_str()) {
            proof {
                assert(texts(a@)[i as int] != texts(b@)[i as int]);
            }
            return false;
        }
        i = i + 1;
    }
    proof {
        assert(texts(a@) =~= texts(b@));
    }
    true
}

} // verus!
