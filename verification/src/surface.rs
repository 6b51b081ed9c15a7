//! What a launcher is found to be, and what that says about a record of it.

use vstd::prelude::*;
use vstd::utf8::encode_utf8;

use crate::outside::{hex_text, sha256};
use crate::patchset::sha256_hex;
use crate::paths::{
    extension, extension_of, is_absolute, join_path, joined, parent, parent_of, parts,
    path_is_absolute, same_path, Platform,
};
use crate::shim::{
    opt_parts, same_opt_path, BaselineBackup, BaselineKind, BaselineView, FileIdentity,
    IdentityView, InstalledShim, InstalledView, RecordView, SecurityMetadata, SecurityView,
    ShimForm, SurfaceRecord, SURFACE_RECORD_SCHEMA,
};
use crate::text::{
    ascii_lower, chars_of, decimal, decimal_text, expand, opt_text, result_text, result_unit, same,
    to_ascii_lower, wide_bytes, wide_bytes_of,
};
use crate::types::copy_opt;
use crate::upstream::result_bool;

verus! {

#[derive(Debug, Clone, Copy, PartialEq, Eq, Structural)]
pub enum FileKind {
    File,
    Symlink,
    Other,
}

/// What stands at a path: the target of a link, or the SHA-256 of a file's bytes in
/// hexadecimal.
#[derive(Debug)]
pub struct FileFacts {
    pub kind: FileKind,
    pub mode: Option<u32>,
    pub identity: FileIdentity,
    pub security: SecurityMetadata,
    pub link_target: Option<String>,
    pub sha256: Option<String>,
}

pub struct FactsView {
    pub kind: FileKind,
    pub mode: Option<u32>,
    pub identity: IdentityView,
    pub security: SecurityView,
    pub link_target: Option<Seq<char>>,
    pub sha256: Option<Seq<char>>,
}

impl View for FileFacts {
    type V = FactsView;

    open spec fn view(&self) -> FactsView {
        FactsView {
            kind: self.kind,
            mode: self.mode,
            identity: self.identity@,
            security: self.security@,
            link_target: opt_text(self.link_target),
            sha256: opt_text(self.sha256),
        }
    }
}

pub open spec fn opt_facts(o: Option<FileFacts>) -> Option<FactsView> {
    match o {
        Some(f) => Some(f@),
        None => None,
    }
}

/// The mode is the recorded one, where one was recorded.
pub open spec fn mode_matches(actual: Option<u32>, expected: Option<u32>) -> bool {
    expected is None || actual == expected
}

fn mode_agrees(actual: Option<u32>, expected: Option<u32>) -> (r: bool)
    ensures
        r == mode_matches(actual, expected),
{
    match expected {
        None => true,
        Some(e) => match actual {
            Some(a) => a == e,
            None => false,
        },
    }
}

/// Records from before security metadata was captured match any.
pub open spec fn security_matches(actual: SecurityView, expected: Option<SecurityView>) -> bool {
    expected is None || expected == Some(actual)
}

fn security_agrees(actual: &SecurityMetadata, expected: &Option<SecurityMetadata>) -> (r: bool)
    ensures
        r == security_matches(actual@, crate::shim::opt_security(*expected)),
{
    match expected {
        None => true,
        Some(e) => actual.same_as(e),
    }
}

/// What stands there is exactly the recorded shim.
pub open spec fn installed_matches(
    platform: Platform,
    found: Option<FactsView>,
    installed: InstalledView,
) -> bool {
    match found {
        None => false,
        Some(f) => {
            &&& installed.identity is None || installed.identity == Some(f.identity)
            &&& mode_matches(f.mode, installed.mode)
            &&& security_matches(f.security, installed.security)
            &&& match installed.form {
                ShimForm::PosixSymlink => f.kind == FileKind::Symlink && opt_parts(platform, f.link_target)
                    == opt_parts(platform, installed.symlink_target),
                _ => f.kind == FileKind::File && installed.sha256 is Some && f.sha256
                    == installed.sha256,
            }
        },
    }
}

pub fn installed_matches_at(
    platform: Platform,
    found: &Option<FileFacts>,
    installed: &InstalledShim,
) -> (r: bool)
    ensures
        r == installed_matches(platform, opt_facts(*found), installed@),
{
    let f = match found {
        Some(f) => f,
        None => return false,
    };
    if let Some(expected) = &installed.identity {
        if !expected.same_as(&f.identity) {
            return false;
        }
    }
    if !mode_agrees(f.mode, installed.mode) || !security_agrees(&f.security, &installed.security) {
        return false;
    }
    match installed.form {
        ShimForm::PosixSymlink => f.kind == FileKind::Symlink && same_opt_path(
            platform,
            &f.link_target,
            &installed.symlink_target,
        ),
        _ => f.kind == FileKind::File && installed.sha256.is_some() && crate::text::same_opt(
            &f.sha256,
            &installed.sha256,
        ),
    }
}

pub open spec fn record_matches(
    platform: Platform,
    found: Option<FactsView>,
    record: RecordView,
) -> bool {
    record.schema == SURFACE_RECORD_SCHEMA && installed_matches(platform, found, record.installed)
}

/// The launcher is exactly the shim that its ownership record describes.
pub fn matches_recorded_shim(
    platform: Platform,
    found: &Option<FileFacts>,
    record: &SurfaceRecord,
) -> (r: bool)
    ensures
        r == record_matches(platform, opt_facts(*found), record@),
{
    record.schema == SURFACE_RECORD_SCHEMA && installed_matches_at(
        platform,
        found,
        &record.installed,
    )
}

/// What stands there has the contents of the baseline; its identity may differ.
pub open spec fn baseline_matches(
    platform: Platform,
    found: Option<FactsView>,
    baseline: BaselineView,
) -> bool {
    match baseline.kind {
        BaselineKind::Missing => found is None,
        BaselineKind::Symlink => match found {
            None => false,
            Some(f) => f.kind == FileKind::Symlink && opt_parts(platform, f.link_target) == opt_parts(
                platform,
                baseline.symlink_target,
            ) && mode_matches(f.mode, baseline.mode) && security_matches(
                f.security,
                baseline.security,
            ),
        },
        BaselineKind::File => match found {
            None => false,
            Some(f) => f.kind == FileKind::File && baseline.sha256 is Some && f.sha256
                == baseline.sha256 && mode_matches(f.mode, baseline.mode) && security_matches(
                f.security,
                baseline.security,
            ),
        },
    }
}

pub fn baseline_matches_current(
    platform: Platform,
    found: &Option<FileFacts>,
    baseline: &BaselineBackup,
) -> (r: bool)
    ensures
        r == baseline_matches(platform, opt_facts(*found), baseline@),
{
    match baseline.kind {
        BaselineKind::Missing => found.is_none(),
        BaselineKind::Symlink => match found {
            None => false,
            Some(f) => f.kind == FileKind::Symlink && same_opt_path(
                platform,
                &f.link_target,
                &baseline.symlink_target,
            ) && mode_agrees(f.mode, baseline.mode) && security_agrees(
                &f.security,
                &baseline.security,
            ),
        },
        BaselineKind::File => match found {
            None => false,
            Some(f) => f.kind == FileKind::File && baseline.sha256.is_some()
                && crate::text::same_opt(&f.sha256, &baseline.sha256) && mode_agrees(
                f.mode,
                baseline.mode,
            ) && security_agrees(&f.security, &baseline.security),
        },
    }
}

/// What stands there is the baseline itself. Journal recovery needs to distinguish "the
/// mutation never happened" from an atomic replacement that happened to produce identical
/// bytes, mode, or a symlink to the same target.
pub open spec fn untouched(
    platform: Platform,
    found: Option<FactsView>,
    baseline: BaselineView,
) -> bool {
    baseline_matches(platform, found, baseline) && (baseline.kind == BaselineKind::Missing || (
    baseline.identity is Some && found is Some && baseline.identity == Some(found->0.identity)))
}

pub fn baseline_is_untouched(
    platform: Platform,
    found: &Option<FileFacts>,
    baseline: &BaselineBackup,
) -> (r: bool)
    ensures
        r == untouched(platform, opt_facts(*found), baseline@),
{
    if !baseline_matches_current(platform, found, baseline) {
        return false;
    }
    if baseline.kind == BaselineKind::Missing {
        return true;
    }
    match (&baseline.identity, found) {
        (Some(expected), Some(f)) => expected.same_as(&f.identity),
        _ => false,
    }
}

/// Exact observed state used as the compare-and-swap precondition for a
/// launcher repair. Unlike a restore baseline, this has no payload backup: it
/// exists only to prove that the surface has not drifted before retrying the
/// already-authorized mutation.
#[derive(Debug)]
pub struct SurfaceSnapshot {
    pub kind: BaselineKind,
    pub symlink_target: Option<String>,
    pub mode: Option<u32>,
    pub sha256: Option<String>,
    pub identity: Option<FileIdentity>,
    pub security: Option<SecurityMetadata>,
}

pub struct SnapshotView {
    pub kind: BaselineKind,
    pub symlink_target: Option<Seq<char>>,
    pub mode: Option<u32>,
    pub sha256: Option<Seq<char>>,
    pub identity: Option<IdentityView>,
    pub security: Option<SecurityView>,
}

impl View for SurfaceSnapshot {
    type V = SnapshotView;

    open spec fn view(&self) -> SnapshotView {
        SnapshotView {
            kind: self.kind,
            symlink_target: opt_text(self.symlink_target),
            mode: self.mode,
            sha256: opt_text(self.sha256),
            identity: crate::shim::opt_identity(self.identity),
            security: crate::shim::opt_security(self.security),
        }
    }
}

/// The bytes by which a link's target is hashed: its UTF-16 words on Windows.
pub open spec fn target_bytes(platform: Platform, target: Seq<char>) -> Seq<u8> {
    match platform {
        Platform::Posix => encode_utf8(target),
        Platform::Windows => wide_bytes(target),
    }
}

pub open spec fn opt_hash(platform: Platform, target: Option<Seq<char>>) -> Option<Seq<char>> {
    match target {
        Some(t) => Some(hex_text(sha256(target_bytes(platform, t)))),
        None => None,
    }
}

fn target_hash(platform: Platform, target: &Option<String>) -> (r: Option<String>)
    ensures
        opt_text(r) == opt_hash(platform, opt_text(*target)),
{
    match target {
        Some(t) => match platform {
            Platform::Posix => Some(sha256_hex(t.as_str().as_bytes())),
            Platform::Windows => Some(sha256_hex(wide_bytes_of(t.as_str()).as_slice())),
        },
        None => None,
    }
}

pub open spec fn missing_snapshot() -> SnapshotView {
    SnapshotView {
        kind: BaselineKind::Missing,
        symlink_target: None,
        mode: None,
        sha256: None,
        identity: None,
        security: None,
    }
}

/// What two inspections of a launcher, one after the other, record of it.
pub open spec fn snapshot_of(
    platform: Platform,
    surface: Seq<char>,
    before: Option<FactsView>,
    after: Option<FactsView>,
) -> Result<SnapshotView, Seq<char>> {
    match before {
        None => Ok(missing_snapshot()),
        Some(f) => if f.kind == FileKind::Other {
            Err("cannot snapshot non-file repair surface "@ + surface)
        } else {
            match after {
                None => Err("reinspect repair surface "@ + surface),
                Some(g) => if g.identity != f.identity || g.kind != f.kind {
                    Err("repair surface changed while it was being inspected: "@ + surface)
                } else {
                    Ok(
                        SnapshotView {
                            kind: if f.kind == FileKind::Symlink {
                                BaselineKind::Symlink
                            } else {
                                BaselineKind::File
                            },
                            symlink_target: if f.kind == FileKind::Symlink {
                                f.link_target
                            } else {
                                None
                            },
                            mode: g.mode,
                            sha256: if f.kind == FileKind::Symlink {
                                opt_hash(platform, f.link_target)
                            } else {
                                f.sha256
                            },
                            identity: Some(f.identity),
                            security: Some(g.security),
                        },
                    )
                },
            }
        },
    }
}

pub open spec fn snapshot_result(r: Result<SurfaceSnapshot, String>) -> Result<
    SnapshotView,
    Seq<char>,
> {
    match r {
        Ok(s) => Ok(s@),
        Err(message) => Err(message@),
    }
}

pub fn capture_surface_snapshot(
    platform: Platform,
    surface: &str,
    before: &Option<FileFacts>,
    after: &Option<FileFacts>,
) -> (r: Result<SurfaceSnapshot, String>)
    ensures
        snapshot_result(r) == snapshot_of(
            platform,
            surface@,
            opt_facts(*before),
            opt_facts(*after),
        ),
{
    let f = match before {
        Some(f) => f,
        None => return Ok(
            SurfaceSnapshot {
                kind: BaselineKind::Missing,
                symlink_target: None,
                mode: None,
                sha256: None,
                identity: None,
                security: None,
            },
        ),
    };
    if f.kind == FileKind::Other {
        let mut message = "cannot snapshot non-file repair surface ".to_owned();
        message.append(surface);
        return Err(message);
    }
    let g = match after {
        Some(g) => g,
        None => {
            let mut message = "reinspect repair surface ".to_owned();
            message.append(surface);
            return Err(message);
        },
    };
    if !g.identity.same_as(&f.identity) || g.kind != f.kind {
        let mut message = "repair surface changed while it was being inspected: ".to_owned();
        message.append(surface);
        return Err(message);
    }
    let link = f.kind == FileKind::Symlink;
    Ok(
        SurfaceSnapshot {
            kind: if link { BaselineKind::Symlink } else { BaselineKind::File },
            symlink_target: if link { copy_opt(&f.link_target) } else { None },
            mode: g.mode,
            sha256: if link { target_hash(platform, &f.link_target) } else { copy_opt(&f.sha256) },
            identity: Some(f.identity.clone()),
            security: Some(g.security.clone()),
        },
    )
}

/// What stands there is what the snapshot observed, down to its identity.
pub open spec fn snapshot_matches(
    platform: Platform,
    found: Option<FactsView>,
    s: SnapshotView,
) -> bool {
    match s.kind {
        BaselineKind::Missing => found is None,
        BaselineKind::Symlink => match found {
            None => false,
            Some(f) => f.kind == FileKind::Symlink && opt_parts(platform, f.link_target) == opt_parts(
                platform,
                s.symlink_target,
            ) && mode_matches(f.mode, s.mode) && s.identity == Some(f.identity)
                && security_matches(f.security, s.security),
        },
        BaselineKind::File => match found {
            None => false,
            Some(f) => f.kind == FileKind::File && mode_matches(f.mode, s.mode) && s.sha256 is Some
                && s.identity is Some && f.sha256 == s.sha256 && s.identity == Some(f.identity)
                && security_matches(f.security, s.security),
        },
    }
}

pub fn snapshot_matches_current(
    platform: Platform,
    found: &Option<FileFacts>,
    snapshot: &SurfaceSnapshot,
) -> (r: bool)
    ensures
        r == snapshot_matches(platform, opt_facts(*found), snapshot@),
{
    if snapshot.kind == BaselineKind::Missing {
        return found.is_none();
    }
    let f = match found {
        Some(f) => f,
        None => return false,
    };
    let expected = match &snapshot.identity {
        Some(expected) => expected,
        None => return false,
    };
    if !mode_agrees(f.mode, snapshot.mode) || !expected.same_as(&f.identity) || !security_agrees(
        &f.security,
        &snapshot.security,
    ) {
        return false;
    }
    match snapshot.kind {
        BaselineKind::Symlink => f.kind == FileKind::Symlink && same_opt_path(
            platform,
            &f.link_target,
            &snapshot.symlink_target,
        ),
        _ => f.kind == FileKind::File && snapshot.sha256.is_some() && crate::text::same_opt(
            &f.sha256,
            &snapshot.sha256,
        ),
    }
}

/// What a launcher is, once it has been backed up: `backup` is where a file's bytes are
/// kept, and the hash of what was kept.
pub open spec fn captured(
    platform: Platform,
    surface: Seq<char>,
    found: Option<FactsView>,
    backup: Option<(Seq<char>, Seq<char>)>,
) -> Result<BaselineView, Seq<char>> {
    match found {
        None => Ok(
            BaselineView {
                kind: BaselineKind::Missing,
                backup_path: None,
                symlink_target: None,
                mode: None,
                sha256: None,
                identity: None,
                security: None,
            },
        ),
        Some(f) => match f.kind {
            FileKind::Symlink => Ok(
                BaselineView {
                    kind: BaselineKind::Symlink,
                    backup_path: None,
                    symlink_target: f.link_target,
                    mode: f.mode,
                    sha256: opt_hash(platform, f.link_target),
                    identity: Some(f.identity),
                    security: Some(f.security),
                },
            ),
            FileKind::Other => Err("refusing to redirect non-file surface "@ + surface),
            FileKind::File => match backup {
                Some((path, digest)) => if f.sha256 == Some(digest) {
                    Ok(
                        BaselineView {
                            kind: BaselineKind::File,
                            backup_path: Some(path),
                            symlink_target: None,
                            mode: f.mode,
                            sha256: f.sha256,
                            identity: Some(f.identity),
                            security: Some(f.security),
                        },
                    )
                } else {
                    Err("baseline changed while backing up "@ + surface)
                },
                None => Err("baseline changed while backing up "@ + surface),
            },
        },
    }
}

/// The baseline of a launcher, if the launcher is still untouched once it has been
/// captured. `recheck` is what stands there then.
pub open spec fn captured_baseline(
    platform: Platform,
    surface: Seq<char>,
    found: Option<FactsView>,
    backup: Option<(Seq<char>, Seq<char>)>,
    recheck: Option<FactsView>,
) -> Result<BaselineView, Seq<char>> {
    match captured(platform, surface, found, backup) {
        Err(message) => Err(message),
        Ok(baseline) => if untouched(platform, recheck, baseline) {
            Ok(baseline)
        } else {
            Err(
                "launcher "@ + surface + " changed while its baseline was being captured"@,
            )
        },
    }
}

pub open spec fn opt_backup(o: Option<(String, String)>) -> Option<(Seq<char>, Seq<char>)> {
    match o {
        Some(pair) => Some((pair.0@, pair.1@)),
        None => None,
    }
}

pub open spec fn baseline_result(r: Result<BaselineBackup, String>) -> Result<
    BaselineView,
    Seq<char>,
> {
    match r {
        Ok(b) => Ok(b@),
        Err(message) => Err(message@),
    }
}

fn capture(
    platform: Platform,
    surface: &str,
    found: &Option<FileFacts>,
    backup: &Option<(String, String)>,
) -> (r: Result<BaselineBackup, String>)
    ensures
        baseline_result(r) == captured(platform, surface@, opt_facts(*found), opt_backup(*backup)),
{
    let f = match found {
        Some(f) => f,
        None => return Ok(
            BaselineBackup {
                kind: BaselineKind::Missing,
                backup_path: None,
                symlink_target: None,
                mode: None,
                sha256: None,
                identity: None,
                security: None,
            },
        ),
    };
    match f.kind {
        FileKind::Symlink => Ok(
            BaselineBackup {
                kind: BaselineKind::Symlink,
                backup_path: None,
                symlink_target: copy_opt(&f.link_target),
                mode: f.mode,
                sha256: target_hash(platform, &f.link_target),
                identity: Some(f.identity.clone()),
                security: Some(f.security.clone()),
            },
        ),
        FileKind::Other => {
            let mut message = "refusing to redirect non-file surface ".to_owned();
            message.append(surface);
            Err(message)
        },
        FileKind::File => {
            if let Some((path, digest)) = backup {
                if let Some(actual) = &f.sha256 {
                    if same(actual.as_str(), digest.as_str()) {
                        return Ok(
                            BaselineBackup {
                                kind: BaselineKind::File,
                                backup_path: Some(path.clone()),
                                symlink_target: None,
                                mode: f.mode,
                                sha256: Some(actual.clone()),
                                identity: Some(f.identity.clone()),
                                security: Some(f.security.clone()),
                            },
                        );
                    }
                }
            }
            let mut message = "baseline changed while backing up ".to_owned();
            message.append(surface);
            Err(message)
        },
    }
}

pub fn capture_baseline(
    platform: Platform,
    surface: &str,
    found: &Option<FileFacts>,
    backup: &Option<(String, String)>,
    recheck: &Option<FileFacts>,
) -> (r: Result<BaselineBackup, String>)
    ensures
        baseline_result(r) == captured_baseline(
            platform,
            surface@,
            opt_facts(*found),
            opt_backup(*backup),
            opt_facts(*recheck),
        ),
{
    let baseline = match capture(platform, surface, found, backup) {
        Ok(baseline) => baseline,
        Err(message) => return Err(message),
    };
    if baseline_is_untouched(platform, recheck, &baseline) {
        return Ok(baseline);
    }
    let mut message = "launcher ".to_owned();
    message.append(surface);
    message.append(" changed while its baseline was being captured");
    Err(message)
}

/// What a launcher was captured as is recognized while nothing touches it.
pub proof fn captured_baselines_are_untouched(
    platform: Platform,
    surface: Seq<char>,
    found: Option<FactsView>,
    backup: Option<(Seq<char>, Seq<char>)>,
)
    requires
        captured(platform, surface, found, backup) is Ok,
    ensures
        untouched(platform, found, captured(platform, surface, found, backup)->Ok_0),
        captured_baseline(
            platform,
            surface,
            found,
            backup,
            found,
        ) == captured(platform, surface, found, backup),
{
}

/// A restored copy of a baseline is recognized whatever its identity.
pub proof fn restored_copies_are_recognized(
    platform: Platform,
    f: FactsView,
    identity: IdentityView,
    baseline: BaselineView,
)
    requires
        baseline_matches(platform, Some(f), baseline),
    ensures
        baseline_matches(platform, Some(FactsView { identity, ..f }), baseline),
{
}

/// The same launcher at two times: absent both times, or with the same bytes or the same link
/// and the same mode, owner and attributes; only its identity may differ.
pub open spec fn same_launcher(
    platform: Platform,
    then: Option<FactsView>,
    now: Option<FactsView>,
) -> bool {
    match then {
        None => now is None,
        Some(f) => now matches Some(g) && {
            &&& g.kind == f.kind
            &&& f.mode is Some ==> g.mode == f.mode
            &&& g.security == f.security
            &&& f.kind == FileKind::File ==> g.sha256 == f.sha256
            &&& f.kind == FileKind::Symlink ==> opt_parts(platform, g.link_target) == opt_parts(platform, f.link_target)
        },
    }
}

/// A launcher that is recognized as given back is what it was when it was taken over: it has
/// the same bytes or is the same link, with the same mode, owner and attributes; only its
/// identity may differ.
pub proof fn restored_launchers_are_what_they_were(
    platform: Platform,
    surface: Seq<char>,
    found: Option<FactsView>,
    backup: Option<(Seq<char>, Seq<char>)>,
    restored: Option<FactsView>,
)
    requires
        captured(platform, surface, found, backup) is Ok,
        baseline_matches(platform, restored, captured(platform, surface, found, backup)->Ok_0),
    ensures
        same_launcher(platform, found, restored),
{
}

/// A snapshot matches what it was taken of, and nothing of another identity.
pub proof fn snapshots_match_their_surface(
    platform: Platform,
    surface: Seq<char>,
    f: FactsView,
    g: FactsView,
)
    requires
        snapshot_of(platform, surface, Some(f), Some(f)) is Ok,
        f.kind == FileKind::File ==> f.sha256 is Some,
    ensures
        snapshot_matches(platform, Some(f), snapshot_of(platform, surface, Some(f), Some(f))->Ok_0),
        g.identity != f.identity ==> !snapshot_matches(
            platform,
            Some(g),
            snapshot_of(platform, surface, Some(f), Some(f))->Ok_0,
        ),
{
}

/// Where a link points, seen from the directory that it stands in.
pub open spec fn resolved_target(
    platform: Platform,
    link: Seq<char>,
    target: Seq<char>,
) -> Seq<char> {
    if is_absolute(platform, target) {
        target
    } else {
        match parent(platform, link) {
            Some(dir) => join_path(platform, dir, target),
            None => join_path(platform, "."@, target),
        }
    }
}

fn resolve_link_target(platform: Platform, link: &str, target: &str) -> (r: String)
    ensures
        r@ == resolved_target(platform, link@, target@),
{
    if path_is_absolute(platform, target) {
        return target.to_owned();
    }
    match parent_of(platform, link) {
        Some(dir) => joined(platform, dir.as_str(), target),
        None => joined(platform, ".", target),
    }
}

/// The SHA-256 of the shim for a Windows launcher. `image` is that of the manager, or why it
/// cannot be read.
pub open spec fn windows_shim_hash(
    surface: Seq<char>,
    manager: Seq<char>,
    image: Result<Seq<char>, Seq<char>>,
) -> Result<Seq<char>, Seq<char>> {
    match windows_form(surface) {
        Err(message) => Err(message),
        Ok(form) => match windows_script(form, manager) {
            Some(text) => Ok(hex_text(sha256(encode_utf8(text)))),
            None => image,
        },
    }
}

fn shim_hash_of(surface: &str, manager: &str, image: &Result<String, String>) -> (r: Result<
    String,
    String,
>)
    ensures
        result_text(r) == windows_shim_hash(surface@, manager@, result_text(*image)),
{
    match windows_shim_form(surface) {
        Err(message) => Err(message),
        Ok(form) => match script_of(form, manager) {
            Some(text) => Ok(sha256_hex(text.as_str().as_bytes())),
            None => match image {
                Ok(hash) => Ok(hash.clone()),
                Err(message) => Err(message.clone()),
            },
        },
    }
}

/// Whether what stands at the launcher is the manager's shim: a link to the manager, or on
/// Windows a file with the bytes of the shim, told by their SHA-256.
pub open spec fn shim_check(
    platform: Platform,
    found: Option<FactsView>,
    surface: Seq<char>,
    manager: Seq<char>,
    image: Result<Seq<char>, Seq<char>>,
) -> Result<bool, Seq<char>> {
    match found {
        None => Ok(false),
        Some(f) => match platform {
            Platform::Posix => Ok(
                f.kind == FileKind::Symlink && f.link_target is Some && parts(
                    platform,
                    resolved_target(platform, surface, f.link_target->0),
                ) == parts(platform, manager),
            ),
            Platform::Windows => match windows_shim_hash(surface, manager, image) {
                Err(message) => Err(message),
                Ok(hash) => Ok(f.sha256 == Some(hash)),
            },
        },
    }
}

/// What stands at the launcher is the manager's shim.
pub open spec fn is_manager_shim(
    platform: Platform,
    found: Option<FactsView>,
    surface: Seq<char>,
    manager: Seq<char>,
    image: Result<Seq<char>, Seq<char>>,
) -> bool {
    shim_check(platform, found, surface, manager, image) == Ok::<bool, Seq<char>>(true)
}

/// Whether the launcher is the manager's shim. This is useful before an ownership record has
/// been loaded. `image` is the SHA-256 of the manager, or why it cannot be read; only Windows
/// asks for it.
pub fn matches_shim(
    platform: Platform,
    found: &Option<FileFacts>,
    surface: &str,
    manager: &str,
    image: &Result<String, String>,
) -> (r: Result<bool, String>)
    ensures
        result_bool(r) == shim_check(
            platform,
            opt_facts(*found),
            surface@,
            manager@,
            result_text(*image),
        ),
{
    let f = match found {
        None => return Ok(false),
        Some(f) => f,
    };
    match platform {
        Platform::Posix => match &f.link_target {
            None => Ok(false),
            Some(target) => Ok(
                f.kind == FileKind::Symlink && same_path(
                    platform,
                    resolve_link_target(platform, surface, target.as_str()).as_str(),
                    manager,
                ),
            ),
        },
        Platform::Windows => match shim_hash_of(surface, manager, image) {
            Err(message) => Err(message),
            Ok(hash) => match &f.sha256 {
                None => Ok(false),
                Some(actual) => Ok(same(actual.as_str(), hash.as_str())),
            },
        },
    }
}

/// The record of the shim that was put in the place of a launcher.
pub open spec fn inspected(
    platform: Platform,
    surface: Seq<char>,
    manager: Seq<char>,
    found: Option<FactsView>,
) -> Result<InstalledView, Seq<char>> {
    match found {
        None => Err("inspect installed shim "@ + surface),
        Some(f) => match platform {
            Platform::Posix => if f.kind != FileKind::Symlink {
                Err("installed POSIX shim is not a symlink: "@ + surface)
            } else {
                Ok(
                    InstalledView {
                        form: ShimForm::PosixSymlink,
                        manager,
                        symlink_target: f.link_target,
                        mode: f.mode,
                        sha256: opt_hash(platform, f.link_target),
                        identity: Some(f.identity),
                        security: Some(f.security),
                    },
                )
            },
            Platform::Windows => match windows_form(surface) {
                Err(message) => Err(message),
                Ok(form) => Ok(
                    InstalledView {
                        form,
                        manager,
                        symlink_target: None,
                        mode: f.mode,
                        sha256: f.sha256,
                        identity: Some(f.identity),
                        security: Some(f.security),
                    },
                ),
            },
        },
    }
}

pub open spec fn installed_result(r: Result<InstalledShim, String>) -> Result<
    InstalledView,
    Seq<char>,
> {
    match r {
        Ok(i) => Ok(i@),
        Err(message) => Err(message@),
    }
}

/// Whether what stands there is a candidate of the patcher's own: a link to exactly the
/// manager, or on Windows a file with the bytes of the shim for the launcher.
pub open spec fn candidate_check(
    platform: Platform,
    found: Option<FactsView>,
    surface: Seq<char>,
    manager: Seq<char>,
    image: Result<Seq<char>, Seq<char>>,
) -> Result<bool, Seq<char>> {
    match platform {
        Platform::Posix => Ok(
            found matches Some(f) && f.kind == FileKind::Symlink && opt_parts(
                platform,
                f.link_target,
            ) == Some(parts(platform, manager)),
        ),
        Platform::Windows => match windows_shim_hash(surface, manager, image) {
            Err(message) => Err(message),
            Ok(hash) => Ok(found matches Some(f) && f.sha256 == Some(hash)),
        },
    }
}

pub fn candidate_matches_shim(
    platform: Platform,
    found: &Option<FileFacts>,
    surface: &str,
    manager: &str,
    image: &Result<String, String>,
) -> (r: Result<bool, String>)
    ensures
        result_bool(r) == candidate_check(
            platform,
            opt_facts(*found),
            surface@,
            manager@,
            result_text(*image),
        ),
{
    match platform {
        Platform::Posix => match found {
            None => Ok(false),
            Some(f) => match &f.link_target {
                None => Ok(false),
                Some(target) => Ok(
                    f.kind == FileKind::Symlink && same_path(platform, target.as_str(), manager),
                ),
            },
        },
        Platform::Windows => match shim_hash_of(surface, manager, image) {
            Err(message) => Err(message),
            Ok(hash) => match found {
                None => Ok(false),
                Some(f) => match &f.sha256 {
                    None => Ok(false),
                    Some(actual) => Ok(same(actual.as_str(), hash.as_str())),
                },
            },
        },
    }
}

pub fn inspect_installed_shim(
    platform: Platform,
    surface: &str,
    manager: &str,
    found: &Option<FileFacts>,
) -> (r: Result<InstalledShim, String>)
    ensures
        installed_result(r) == inspected(platform, surface@, manager@, opt_facts(*found)),
{
    let f = match found {
        Some(f) => f,
        None => {
            let mut message = "inspect installed shim ".to_owned();
            message.append(surface);
            return Err(message);
        },
    };
    if platform == Platform::Windows {
        return match windows_shim_form(surface) {
            Err(message) => Err(message),
            Ok(form) => Ok(
                InstalledShim {
                    form,
                    manager: manager.to_owned(),
                    symlink_target: None,
                    mode: f.mode,
                    sha256: copy_opt(&f.sha256),
                    identity: Some(f.identity.clone()),
                    security: Some(f.security.clone()),
                },
            ),
        };
    }
    if f.kind != FileKind::Symlink {
        let mut message = "installed POSIX shim is not a symlink: ".to_owned();
        message.append(surface);
        return Err(message);
    }
    Ok(
        InstalledShim {
            form: ShimForm::PosixSymlink,
            manager: manager.to_owned(),
            symlink_target: copy_opt(&f.link_target),
            mode: f.mode,
            sha256: target_hash(platform, &f.link_target),
            identity: Some(f.identity.clone()),
            security: Some(f.security.clone()),
        },
    )
}

/// A shim is recognized by the record that was made of it, and by nothing else that
/// replaced it.
pub proof fn inspected_shims_are_recognized(
    platform: Platform,
    surface: Seq<char>,
    manager: Seq<char>,
    f: FactsView,
    g: FactsView,
)
    requires
        inspected(platform, surface, manager, Some(f)) is Ok,
        platform == Platform::Windows ==> f.kind == FileKind::File && f.sha256 is Some,
    ensures
        installed_matches(platform, Some(f), inspected(platform, surface, manager, Some(f))->Ok_0),
        g.identity != f.identity ==> !installed_matches(
            platform,
            Some(g),
            inspected(platform, surface, manager, Some(f))->Ok_0,
        ),
        !installed_matches(platform, None, inspected(platform, surface, manager, Some(f))->Ok_0),
{
}

/// The form of the shim that stands for a Windows launcher, by its extension.
pub open spec fn windows_form(surface: Seq<char>) -> Result<ShimForm, Seq<char>> {
    match extension(Platform::Windows, surface) {
        None => Ok(ShimForm::WindowsNative),
        Some(ext) => {
            let e = ascii_lower(ext);
            if e == "cmd"@ || e == "bat"@ {
                Ok(ShimForm::WindowsCmd)
            } else if e == "ps1"@ {
                Ok(ShimForm::WindowsPowerShell)
            } else if e == "exe"@ {
                Ok(ShimForm::WindowsNative)
            } else {
                Err(
                    "unsupported Windows Codex launcher extension ."@ + e
                        + "; select a native .exe, .cmd/.bat, or .ps1 surface"@,
                )
            }
        },
    }
}

pub open spec fn form_result(r: Result<ShimForm, String>) -> Result<ShimForm, Seq<char>> {
    match r {
        Ok(form) => Ok(form),
        Err(message) => Err(message@),
    }
}

pub fn windows_shim_form(surface: &str) -> (r: Result<ShimForm, String>)
    ensures
        form_result(r) == windows_form(surface@),
{
    let ext = match extension_of(Platform::Windows, surface) {
        Some(ext) => to_ascii_lower(ext.as_str()),
        None => return Ok(ShimForm::WindowsNative),
    };
    if same(ext.as_str(), "cmd") || same(ext.as_str(), "bat") {
        Ok(ShimForm::WindowsCmd)
    } else if same(ext.as_str(), "ps1") {
        Ok(ShimForm::WindowsPowerShell)
    } else if same(ext.as_str(), "exe") {
        Ok(ShimForm::WindowsNative)
    } else {
        let mut message = "unsupported Windows Codex launcher extension .".to_owned();
        message.append(ext.as_str());
        message.append("; select a native .exe, .cmd/.bat, or .ps1 surface");
        Err(message)
    }
}

/// A launcher whose type can be redirected on the platform.
pub fn validate_surface_launcher_type(surface: &str, platform: Platform) -> (r: Result<(), String>)
    ensures
        result_unit(r) == (match platform {
            Platform::Posix => Ok(()),
            Platform::Windows => match windows_form(surface@) {
                Ok(_) => Ok(()),
                Err(message) => Err(message),
            },
        }),
{
    match platform {
        Platform::Posix => Ok(()),
        Platform::Windows => match windows_shim_form(surface) {
            Ok(_) => Ok(()),
            Err(message) => Err(message),
        },
    }
}

pub open spec fn doubling(c: char) -> spec_fn(char) -> Seq<char> {
    |x: char|
        if x == c {
            seq![c, c]
        } else {
            seq![x]
        }
}

/// `s` with each `c` written twice.
pub open spec fn doubled(s: Seq<char>, c: char) -> Seq<char> {
    expand(s, doubling(c))
}

fn double(s: &str, c: char) -> (r: String)
    ensures
        r@ == doubled(s@, c),
{
    let chars = chars_of(s);
    let mut out = String::new();
    let mut i: usize = 0;
    let ghost f = doubling(c);
    while i < chars.len()
        invariant
            i <= chars@.len(),
            f == doubling(c),
            out@ == expand(chars@.take(i as int), f),
        decreases chars@.len() - i,
    {
        let ghost before = out@;
        out.push(chars[i]);
        if chars[i] == c {
            out.push(chars[i]);
        }
        proof {
            assert(chars@.take(i as int + 1).drop_last() =~= chars@.take(i as int));
            assert(out@ =~= before + f(chars@[i as int]));
        }
        i = i + 1;
    }
    proof {
        assert(chars@.take(chars@.len() as int) =~= chars@);
    }
    out
}

/// The text of a script that starts the manager; a native shim is the manager itself.
pub open spec fn windows_script(form: ShimForm, manager: Seq<char>) -> Option<Seq<char>> {
    match form {
        ShimForm::WindowsCmd => Some(
            "@echo off\r\n\""@ + doubled(manager, '%')
                + "\" __dispatch %*\r\nexit /b %ERRORLEVEL%\r\n"@,
        ),
        ShimForm::WindowsPowerShell => Some(
            "& '"@ + doubled(manager, '\'') + "' '__dispatch' @args\r\nexit $LASTEXITCODE\r\n"@,
        ),
        _ => None,
    }
}

fn script_of(form: ShimForm, manager: &str) -> (r: Option<String>)
    ensures
        opt_text(r) == windows_script(form, manager@),
{
    match form {
        ShimForm::WindowsCmd => {
            let mut text = "@echo off\r\n\"".to_owned();
            text.append(double(manager, '%').as_str());
            text.append("\" __dispatch %*\r\nexit /b %ERRORLEVEL%\r\n");
            Some(text)
        },
        ShimForm::WindowsPowerShell => {
            let mut text = "& '".to_owned();
            text.append(double(manager, '\'').as_str());
            text.append("' '__dispatch' @args\r\nexit $LASTEXITCODE\r\n");
            Some(text)
        },
        _ => None,
    }
}

/// The bytes of the shim for a Windows launcher. `manager_bytes` are those of the manager.
pub fn windows_shim_bytes(surface: &str, manager: &str, manager_bytes: &Vec<u8>) -> (r: Result<
    Vec<u8>,
    String,
>)
    ensures
        match windows_form(surface@) {
            Err(message) => r matches Err(e) && e@ == message,
            Ok(form) => r matches Ok(bytes) && bytes@ == (match windows_script(form, manager@) {
                Some(text) => encode_utf8(text),
                None => manager_bytes@,
            }),
        },
{
    let form = match windows_shim_form(surface) {
        Ok(form) => form,
        Err(message) => return Err(message),
    };
    match script_of(form, manager) {
        Some(text) => Ok(vstd::slice::slice_to_vec(text.as_str().as_bytes())),
        None => Ok(vstd::slice::slice_to_vec(manager_bytes.as_slice())),
    }
}

/// The shim that is put in the place of a Windows launcher is recognized by its hash.
pub proof fn windows_shims_are_recognized(
    f: FactsView,
    surface: Seq<char>,
    manager: Seq<char>,
    manager_bytes: Seq<u8>,
)
    requires
        windows_form(surface) is Ok,
        f.sha256 == Some(
            hex_text(
                sha256(
                    match windows_script(windows_form(surface)->Ok_0, manager) {
                        Some(text) => encode_utf8(text),
                        None => manager_bytes,
                    },
                ),
            ),
        ),
    ensures
        is_manager_shim(
            Platform::Windows,
            Some(f),
            surface,
            manager,
            Ok(hex_text(sha256(manager_bytes))),
        ),
        inspected(Platform::Windows, surface, manager, Some(f)) is Ok,
{
}

/// A record of another schema is refused.
pub open spec fn schema_check(schema: u32) -> Result<(), Seq<char>> {
    if schema == SURFACE_RECORD_SCHEMA {
        Ok(())
    } else {
        Err(
            "unsupported surface record schema "@ + decimal(schema as nat) + " (expected "@
                + decimal(SURFACE_RECORD_SCHEMA as nat) + ")"@,
        )
    }
}

pub fn validate_record(record: &SurfaceRecord) -> (r: Result<(), String>)
    ensures
        result_unit(r) == schema_check(record.schema),
{
    if record.schema == SURFACE_RECORD_SCHEMA {
        return Ok(());
    }
    let mut message = "unsupported surface record schema ".to_owned();
    message.append(decimal_text(record.schema as u64).as_str());
    message.append(" (expected ");
    message.append(decimal_text(SURFACE_RECORD_SCHEMA as u64).as_str());
    message.append(")");
    Err(message)
}

/// A launcher may be redirected to the manager: they differ, the manager is a file, and
/// what stands at the launcher, if anything, is a file or a link.
pub open spec fn redirect_check(
    platform: Platform,
    surface: Seq<char>,
    manager: Seq<char>,
    manager_is_file: bool,
    found: Option<FactsView>,
) -> Result<(), Seq<char>> {
    if parts(platform, surface) == parts(platform, manager) {
        Err("surface and stable manager are the same path"@)
    } else if !manager_is_file {
        Err("stable manager does not exist: "@ + manager)
    } else if parent(platform, surface) is None {
        Err("redirect surface has no parent directory"@)
    } else if found is Some && found->0.kind == FileKind::Other {
        Err("refusing to replace non-file surface "@ + surface)
    } else {
        Ok(())
    }
}

pub fn validate_redirect_paths(
    platform: Platform,
    surface: &str,
    manager: &str,
    manager_is_file: bool,
    found: &Option<FileFacts>,
) -> (r: Result<(), String>)
    ensures
        result_unit(r) == redirect_check(
            platform,
            surface@,
            manager@,
            manager_is_file,
            opt_facts(*found),
        ),
{
    if same_path(platform, surface, manager) {
        return Err("surface and stable manager are the same path".to_owned());
    }
    if !manager_is_file {
        let mut message = "stable manager does not exist: ".to_owned();
        message.append(manager);
        return Err(message);
    }
    if parent_of(platform, surface).is_none() {
        return Err("redirect surface has no parent directory".to_owned());
    }
    if let Some(f) = found {
        if f.kind == FileKind::Other {
            let mut message = "refusing to replace non-file surface ".to_owned();
            message.append(surface);
            return Err(message);
        }
    }
    Ok(())
}

/// The identity of a file on a POSIX host, from what the host reports of it.
pub open spec fn posix_identity(
    device: u64,
    inode: u64,
    length: u64,
    mtime: i64,
    mtime_nsec: i64,
) -> IdentityView {
    IdentityView {
        device: Some(device),
        inode: Some(inode),
        volume_serial: None,
        file_id: None,
        length,
        modified_ns: Some((mtime * 1_000_000_000 + mtime_nsec) as i128),
    }
}

pub fn file_identity(device: u64, inode: u64, length: u64, mtime: i64, mtime_nsec: i64) -> (r:
    FileIdentity)
    ensures
        r@ == posix_identity(device, inode, length, mtime, mtime_nsec),
{
    FileIdentity {
        device: Some(device),
        inode: Some(inode),
        volume_serial: None,
        file_id: None,
        length,
        modified_ns: Some((mtime as i128) * 1_000_000_000 + (mtime_nsec as i128)),
    }
}

} // verus!
