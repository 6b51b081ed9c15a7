//! What is recorded of a launcher before and after it is taken over.

use vstd::prelude::*;

use crate::paths::{parts, same_path, Platform};
use crate::text::{opt_text, same, same_opt, texts};
use crate::types::{copy_opt, copy_texts, same_texts, Timestamp};

verus! {

pub const SURFACE_RECORD_SCHEMA: u32 = 1;

/// What a launcher was before takeover.
#[derive(Debug, Clone, Copy, PartialEq, Eq, Structural)]
pub enum BaselineKind {
    Missing,
    File,
    Symlink,
}

/// What tells one file system object from another.
#[derive(Debug, PartialEq, Eq)]
pub struct FileIdentity {
    pub device: Option<u64>,
    pub inode: Option<u64>,
    pub volume_serial: Option<u64>,
    pub file_id: Option<String>,
    pub length: u64,
    pub modified_ns: Option<i128>,
}

pub struct IdentityView {
    pub device: Option<u64>,
    pub inode: Option<u64>,
    pub volume_serial: Option<u64>,
    pub file_id: Option<Seq<char>>,
    pub length: u64,
    pub modified_ns: Option<i128>,
}

impl View for FileIdentity {
    type V = IdentityView;

    open spec fn view(&self) -> IdentityView {
        IdentityView {
            device: self.device,
            inode: self.inode,
            volume_serial: self.volume_serial,
            file_id: opt_text(self.file_id),
            length: self.length,
            modified_ns: self.modified_ns,
        }
    }
}

impl Default for FileIdentity {
    fn default() -> (r: Self)
        ensures
            r@ == (IdentityView {
                device: None,
                inode: None,
                volume_serial: None,
                file_id: None,
                length: 0,
                modified_ns: None,
            }),
    {
        FileIdentity {
            device: None,
            inode: None,
            volume_serial: None,
            file_id: None,
            length: 0,
            modified_ns: None,
        }
    }
}

impl Clone for FileIdentity {
    fn clone(&self) -> (r: Self)
        ensures
            r@ == self@,
    {
        FileIdentity {
            device: self.device,
            inode: self.inode,
            volume_serial: self.volume_serial,
            file_id: copy_opt(&self.file_id),
            length: self.length,
            modified_ns: self.modified_ns,
        }
    }
}

fn same_u64(a: &Option<u64>, b: &Option<u64>) -> (r: bool)
    ensures
        r == (*a == *b),
{
    match (a, b) {
        (Some(x), Some(y)) => *x == *y,
        (None, None) => true,
        _ => false,
    }
}

fn same_u32(a: &Option<u32>, b: &Option<u32>) -> (r: bool)
    ensures
        r == (*a == *b),
{
    match (a, b) {
        (Some(x), Some(y)) => *x == *y,
        (None, None) => true,
        _ => false,
    }
}

fn same_bool(a: &Option<bool>, b: &Option<bool>) -> (r: bool)
    ensures
        r == (*a == *b),
{
    match (a, b) {
        (Some(x), Some(y)) => *x == *y,
        (None, None) => true,
        _ => false,
    }
}

fn same_i128(a: &Option<i128>, b: &Option<i128>) -> (r: bool)
    ensures
        r == (*a == *b),
{
    match (a, b) {
        (Some(x), Some(y)) => *x == *y,
        (None, None) => true,
        _ => false,
    }
}

impl FileIdentity {
    pub fn same_as(&self, other: &FileIdentity) -> (r: bool)
        ensures
            r == (self@ == other@),
    {
        same_u64(&self.device, &other.device) && same_u64(&self.inode, &other.inode) && same_u64(
            &self.volume_serial,
            &other.volume_serial,
        ) && same_opt(&self.file_id, &other.file_id) && self.length == other.length && same_i128(
            &self.modified_ns,
            &other.modified_ns,
        )
    }
}

#[derive(Debug, PartialEq, Eq)]
pub struct ExtendedAttribute {
    pub name: Vec<u8>,
    pub value: Vec<u8>,
}

pub open spec fn attribute_view(a: ExtendedAttribute) -> (Seq<u8>, Seq<u8>) {
    (a.name@, a.value@)
}

pub open spec fn attributes_view(v: Seq<ExtendedAttribute>) -> Seq<(Seq<u8>, Seq<u8>)> {
    v.map_values(|a: ExtendedAttribute| attribute_view(a))
}

/// Platform-native ownership and access-control state captured independently
/// from ordinary mode/file-attribute bits. Optional storage keeps development
/// records from before this metadata existed readable; every new non-missing
/// baseline records `Some`, including an explicitly empty ACL/xattr set.
#[derive(Debug, PartialEq, Eq)]
pub struct SecurityMetadata {
    pub unix_uid: Option<u32>,
    pub unix_gid: Option<u32>,
    pub extended_attributes: Vec<ExtendedAttribute>,
    pub macos_acl_text: Option<Vec<u8>>,
    pub windows_security_descriptor: Option<Vec<u8>>,
    pub windows_dacl_protected: Option<bool>,
}

pub struct SecurityView {
    pub unix_uid: Option<u32>,
    pub unix_gid: Option<u32>,
    pub extended_attributes: Seq<(Seq<u8>, Seq<u8>)>,
    pub macos_acl_text: Option<Seq<u8>>,
    pub windows_security_descriptor: Option<Seq<u8>>,
    pub windows_dacl_protected: Option<bool>,
}

pub open spec fn opt_bytes(o: Option<Vec<u8>>) -> Option<Seq<u8>> {
    match o {
        Some(v) => Some(v@),
        None => None,
    }
}

impl View for SecurityMetadata {
    type V = SecurityView;

    open spec fn view(&self) -> SecurityView {
        SecurityView {
            unix_uid: self.unix_uid,
            unix_gid: self.unix_gid,
            extended_attributes: attributes_view(self.extended_attributes@),
            macos_acl_text: opt_bytes(self.macos_acl_text),
            windows_security_descriptor: opt_bytes(self.windows_security_descriptor),
            windows_dacl_protected: self.windows_dacl_protected,
        }
    }
}

impl Default for SecurityMetadata {
    fn default() -> (r: Self)
        ensures
            r@ == (SecurityView {
                unix_uid: None,
                unix_gid: None,
                extended_attributes: Seq::empty(),
                macos_acl_text: None,
                windows_security_descriptor: None,
                windows_dacl_protected: None,
            }),
    {
        let none: Vec<ExtendedAttribute> = Vec::new();
        proof {
            assert(attributes_view(none@) =~= Seq::empty());
        }
        SecurityMetadata {
            unix_uid: None,
            unix_gid: None,
            extended_attributes: none,
            macos_acl_text: None,
            windows_security_descriptor: None,
            windows_dacl_protected: None,
        }
    }
}

pub fn same_bytes(a: &Vec<u8>, b: &Vec<u8>) -> (r: bool)
    ensures
        r == (a@ == b@),
{
    if a.len() != b.len() {
        return false;
    }
    let mut i: usize = 0;
    while i < a.len()
        invariant
            i <= a@.len(),
            a@.len() == b@.len(),
            forall|j: int| 0 <= j < i ==> a@[j] == b@[j],
        decreases a@.len() - i,
    {
        if a[i] != b[i] {
            return false;
        }
        i = i + 1;
    }
    proof {
        assert(a@ =~= b@);
    }
    true
}

pub fn same_opt_bytes(a: &Option<Vec<u8>>, b: &Option<Vec<u8>>) -> (r: bool)
    ensures
        r == (opt_bytes(*a) == opt_bytes(*b)),
{
    match (a, b) {
        (Some(x), Some(y)) => same_bytes(x, y),
        (None, None) => true,
        _ => false,
    }
}

fn copy_bytes(o: &Option<Vec<u8>>) -> (r: Option<Vec<u8>>)
    ensures
        opt_bytes(r) == opt_bytes(*o),
{
    match o {
        Some(v) => Some(vstd::slice::slice_to_vec(v.as_slice())),
        None => None,
    }
}

fn same_attributes(a: &Vec<ExtendedAttribute>, b: &Vec<ExtendedAttribute>) -> (r: bool)
    ensures
        r == (attributes_view(a@) == attributes_view(b@)),
{
    let ghost x = attributes_view(a@);
    let ghost y = attributes_view(b@);
    if a.len() != b.len() {
        proof {
            assert(x.len() != y.len());
        }
        return false;
    }
    let mut i: usize = 0;
    while i < a.len()
        invariant
            i <= a@.len(),
            a@.len() == b@.len(),
            x == attributes_view(a@),
            y == attributes_view(b@),
            forall|j: int| 0 <= j < i ==> x[j] == y[j],
        decreases a@.len() - i,
    {
        if !same_bytes(&a[i].name, &b[i].name) || !same_bytes(&a[i].value, &b[i].value) {
            proof {
                assert(x[i as int] != y[i as int]);
            }
            return false;
        }
        i = i + 1;
    }
    proof {
        assert(x =~= y);
    }
    true
}

impl Clone for SecurityMetadata {
    fn clone(&self) -> (r: Self)
        ensures
            r@ == self@,
    {
        let mut list: Vec<ExtendedAttribute> = Vec::new();
        let ghost all = attributes_view(self.extended_attributes@);
        let mut i: usize = 0;
        while i < self.extended_attributes.len()
            invariant
                i <= self.extended_attributes@.len(),
                all == attributes_view(self.extended_attributes@),
                attributes_view(list@) == all.take(i as int),
            decreases self.extended_attributes@.len() - i,
        {
            let item = ExtendedAttribute {
                name: vstd::slice::slice_to_vec(self.extended_attributes[i].name.as_slice()),
                value: vstd::slice::slice_to_vec(self.extended_attributes[i].value.as_slice()),
            };
            proof {
                assert(attributes_view(list@.push(item)) =~= attributes_view(list@).push(
                    attribute_view(item),
                ));
                assert(all.take(i as int + 1) =~= all.take(i as int).push(attribute_view(item)));
            }
            list.push(item);
            i = i + 1;
        }
        proof {
            assert(all.take(self.extended_attributes@.len() as int) =~= all);
        }
        SecurityMetadata {
            unix_uid: self.unix_uid,
            unix_gid: self.unix_gid,
            extended_attributes: list,
            macos_acl_text: copy_bytes(&self.macos_acl_text),
            windows_security_descriptor: copy_bytes(&self.windows_security_descriptor),
            windows_dacl_protected: self.windows_dacl_protected,
        }
    }
}

impl SecurityMetadata {
    pub fn same_as(&self, other: &SecurityMetadata) -> (r: bool)
        ensures
            r == (self@ == other@),
    {
        same_u32(&self.unix_uid, &other.unix_uid) && same_u32(&self.unix_gid, &other.unix_gid)
            && same_attributes(&self.extended_attributes, &other.extended_attributes)
            && same_opt_bytes(&self.macos_acl_text, &other.macos_acl_text) && same_opt_bytes(
            &self.windows_security_descriptor,
            &other.windows_security_descriptor,
        ) && same_bool(&self.windows_dacl_protected, &other.windows_dacl_protected)
    }
}

pub open spec fn opt_identity(o: Option<FileIdentity>) -> Option<IdentityView> {
    match o {
        Some(i) => Some(i@),
        None => None,
    }
}

pub open spec fn opt_security(o: Option<SecurityMetadata>) -> Option<SecurityView> {
    match o {
        Some(s) => Some(s@),
        None => None,
    }
}

/// The parts of an optional path.
pub open spec fn opt_parts(platform: Platform, o: Option<Seq<char>>) -> Option<Seq<Seq<char>>> {
    match o {
        Some(p) => Some(parts(platform, p)),
        None => None,
    }
}

pub fn same_opt_path(platform: Platform, a: &Option<String>, b: &Option<String>) -> (r: bool)
    ensures
        r == (opt_parts(platform, opt_text(*a)) == opt_parts(platform, opt_text(*b))),
{
    match (a, b) {
        (Some(x), Some(y)) => same_path(platform, x.as_str(), y.as_str()),
        (None, None) => true,
        _ => false,
    }
}

fn same_opt_identity(a: &Option<FileIdentity>, b: &Option<FileIdentity>) -> (r: bool)
    ensures
        r == (opt_identity(*a) == opt_identity(*b)),
{
    match (a, b) {
        (Some(x), Some(y)) => x.same_as(y),
        (None, None) => true,
        _ => false,
    }
}

fn same_opt_security(a: &Option<SecurityMetadata>, b: &Option<SecurityMetadata>) -> (r: bool)
    ensures
        r == (opt_security(*a) == opt_security(*b)),
{
    match (a, b) {
        (Some(x), Some(y)) => x.same_as(y),
        (None, None) => true,
        _ => false,
    }
}

fn copy_identity(o: &Option<FileIdentity>) -> (r: Option<FileIdentity>)
    ensures
        opt_identity(r) == opt_identity(*o),
{
    match o {
        Some(i) => Some(i.clone()),
        None => None,
    }
}

fn copy_security(o: &Option<SecurityMetadata>) -> (r: Option<SecurityMetadata>)
    ensures
        opt_security(r) == opt_security(*o),
{
    match o {
        Some(s) => Some(s.clone()),
        None => None,
    }
}

/// Exact recoverable state of a surface before takeover.
///
/// Regular-file bytes are retained in `backup_path`; symlinks retain their raw
/// (possibly relative) target. Identity fields document what was captured,
/// while compare-and-swap decisions use kind, bytes/hash, target, and mode so a
/// restored copy is still recognizable after its inode changes.
#[derive(Debug, PartialEq, Eq)]
pub struct BaselineBackup {
    pub kind: BaselineKind,
    pub backup_path: Option<String>,
    pub symlink_target: Option<String>,
    pub mode: Option<u32>,
    pub sha256: Option<String>,
    pub identity: Option<FileIdentity>,
    pub security: Option<SecurityMetadata>,
}

pub struct BaselineView {
    pub kind: BaselineKind,
    pub backup_path: Option<Seq<char>>,
    pub symlink_target: Option<Seq<char>>,
    pub mode: Option<u32>,
    pub sha256: Option<Seq<char>>,
    pub identity: Option<IdentityView>,
    pub security: Option<SecurityView>,
}

impl View for BaselineBackup {
    type V = BaselineView;

    open spec fn view(&self) -> BaselineView {
        BaselineView {
            kind: self.kind,
            backup_path: opt_text(self.backup_path),
            symlink_target: opt_text(self.symlink_target),
            mode: self.mode,
            sha256: opt_text(self.sha256),
            identity: opt_identity(self.identity),
            security: opt_security(self.security),
        }
    }
}

/// Two baselines agree, paths by their parts.
pub open spec fn same_baseline(platform: Platform, a: BaselineView, b: BaselineView) -> bool {
    &&& a.kind == b.kind
    &&& opt_parts(platform, a.backup_path) == opt_parts(platform, b.backup_path)
    &&& opt_parts(platform, a.symlink_target) == opt_parts(platform, b.symlink_target)
    &&& a.mode == b.mode
    &&& a.sha256 == b.sha256
    &&& a.identity == b.identity
    &&& a.security == b.security
}

impl Clone for BaselineBackup {
    fn clone(&self) -> (r: Self)
        ensures
            r@ == self@,
    {
        BaselineBackup {
            kind: self.kind,
            backup_path: copy_opt(&self.backup_path),
            symlink_target: copy_opt(&self.symlink_target),
            mode: self.mode,
            sha256: copy_opt(&self.sha256),
            identity: copy_identity(&self.identity),
            security: copy_security(&self.security),
        }
    }
}

impl BaselineBackup {
    pub fn agrees_with(&self, platform: Platform, other: &BaselineBackup) -> (r: bool)
        ensures
            r == same_baseline(platform, self@, other@),
    {
        self.kind == other.kind && same_opt_path(platform, &self.backup_path, &other.backup_path)
            && same_opt_path(platform, &self.symlink_target, &other.symlink_target) && same_u32(
            &self.mode,
            &other.mode,
        ) && same_opt(&self.sha256, &other.sha256) && same_opt_identity(
            &self.identity,
            &other.identity,
        ) && same_opt_security(&self.security, &other.security)
    }
}

#[derive(Debug, Clone, Copy, PartialEq, Eq, Structural)]
pub enum ShimForm {
    PosixSymlink,
    WindowsNative,
    WindowsCmd,
    WindowsPowerShell,
}

/// The launcher that stands in the place of the baseline.
#[derive(Debug, PartialEq, Eq)]
pub struct InstalledShim {
    pub form: ShimForm,
    pub manager: String,
    pub symlink_target: Option<String>,
    pub mode: Option<u32>,
    pub sha256: Option<String>,
    pub identity: Option<FileIdentity>,
    pub security: Option<SecurityMetadata>,
}

pub struct InstalledView {
    pub form: ShimForm,
    pub manager: Seq<char>,
    pub symlink_target: Option<Seq<char>>,
    pub mode: Option<u32>,
    pub sha256: Option<Seq<char>>,
    pub identity: Option<IdentityView>,
    pub security: Option<SecurityView>,
}

impl View for InstalledShim {
    type V = InstalledView;

    open spec fn view(&self) -> InstalledView {
        InstalledView {
            form: self.form,
            manager: self.manager@,
            symlink_target: opt_text(self.symlink_target),
            mode: self.mode,
            sha256: opt_text(self.sha256),
            identity: opt_identity(self.identity),
            security: opt_security(self.security),
        }
    }
}

pub open spec fn same_installed(platform: Platform, a: InstalledView, b: InstalledView) -> bool {
    &&& a.form == b.form
    &&& parts(platform, a.manager) == parts(platform, b.manager)
    &&& opt_parts(platform, a.symlink_target) == opt_parts(platform, b.symlink_target)
    &&& a.mode == b.mode
    &&& a.sha256 == b.sha256
    &&& a.identity == b.identity
    &&& a.security == b.security
}

impl Clone for InstalledShim {
    fn clone(&self) -> (r: Self)
        ensures
            r@ == self@,
    {
        InstalledShim {
            form: self.form,
            manager: self.manager.clone(),
            symlink_target: copy_opt(&self.symlink_target),
            mode: self.mode,
            sha256: copy_opt(&self.sha256),
            identity: copy_identity(&self.identity),
            security: copy_security(&self.security),
        }
    }
}

impl InstalledShim {
    pub fn agrees_with(&self, platform: Platform, other: &InstalledShim) -> (r: bool)
        ensures
            r == same_installed(platform, self@, other@),
    {
        self.form == other.form && same_path(
            platform,
            self.manager.as_str(),
            other.manager.as_str(),
        )
            && same_opt_path(platform, &self.symlink_target, &other.symlink_target) && same_u32(
            &self.mode,
            &other.mode,
        ) && same_opt(&self.sha256, &other.sha256) && same_opt_identity(
            &self.identity,
            &other.identity,
        ) && same_opt_security(&self.security, &other.security)
    }
}

#[derive(Debug, PartialEq, Eq)]
pub struct UpdaterAdapterRecord {
    pub unit: String,
    pub load_state: String,
    pub enabled_state: String,
    pub active_state: String,
    /// Persisted before takeover so a crash between a systemctl action and the
    /// next state write can still restore the exact pre-install state.
    pub disable_intended: bool,
    pub stop_intended: bool,
    pub disabled_by_patcher: bool,
    pub stopped_by_patcher: bool,
    pub notes: Vec<String>,
}

pub struct UpdaterView {
    pub unit: Seq<char>,
    pub load_state: Seq<char>,
    pub enabled_state: Seq<char>,
    pub active_state: Seq<char>,
    pub disable_intended: bool,
    pub stop_intended: bool,
    pub disabled_by_patcher: bool,
    pub stopped_by_patcher: bool,
    pub notes: Seq<Seq<char>>,
}

impl View for UpdaterAdapterRecord {
    type V = UpdaterView;

    open spec fn view(&self) -> UpdaterView {
        UpdaterView {
            unit: self.unit@,
            load_state: self.load_state@,
            enabled_state: self.enabled_state@,
            active_state: self.active_state@,
            disable_intended: self.disable_intended,
            stop_intended: self.stop_intended,
            disabled_by_patcher: self.disabled_by_patcher,
            stopped_by_patcher: self.stopped_by_patcher,
            notes: texts(self.notes@),
        }
    }
}

impl Clone for UpdaterAdapterRecord {
    fn clone(&self) -> (r: Self)
        ensures
            r@ == self@,
    {
        UpdaterAdapterRecord {
            unit: self.unit.clone(),
            load_state: self.load_state.clone(),
            enabled_state: self.enabled_state.clone(),
            active_state: self.active_state.clone(),
            disable_intended: self.disable_intended,
            stop_intended: self.stop_intended,
            disabled_by_patcher: self.disabled_by_patcher,
            stopped_by_patcher: self.stopped_by_patcher,
            notes: copy_texts(&self.notes),
        }
    }
}

impl UpdaterAdapterRecord {
    pub fn same_as(&self, other: &UpdaterAdapterRecord) -> (r: bool)
        ensures
            r == (self@ == other@),
    {
        same(self.unit.as_str(), other.unit.as_str()) && same(
            self.load_state.as_str(),
            other.load_state.as_str(),
        ) && same(self.enabled_state.as_str(), other.enabled_state.as_str()) && same(
            self.active_state.as_str(),
            other.active_state.as_str(),
        ) && self.disable_intended == other.disable_intended && self.stop_intended
            == other.stop_intended && self.disabled_by_patcher == other.disabled_by_patcher
            && self.stopped_by_patcher == other.stopped_by_patcher && same_texts(
            &self.notes,
            &other.notes,
        )
    }
}

/// The ownership record of one taken-over launcher. `id` is the number of its UUID.
#[derive(Debug, PartialEq, Eq)]
pub struct SurfaceRecord {
    pub schema: u32,
    pub id: u128,
    pub surface: String,
    pub baseline: BaselineBackup,
    pub installed: InstalledShim,
    pub installed_at: Timestamp,
    pub updater: Option<UpdaterAdapterRecord>,
}

pub struct RecordView {
    pub schema: u32,
    pub id: u128,
    pub surface: Seq<char>,
    pub baseline: BaselineView,
    pub installed: InstalledView,
    pub installed_at: Timestamp,
    pub updater: Option<UpdaterView>,
}

pub open spec fn opt_updater(o: Option<UpdaterAdapterRecord>) -> Option<UpdaterView> {
    match o {
        Some(u) => Some(u@),
        None => None,
    }
}

impl View for SurfaceRecord {
    type V = RecordView;

    open spec fn view(&self) -> RecordView {
        RecordView {
            schema: self.schema,
            id: self.id,
            surface: self.surface@,
            baseline: self.baseline@,
            installed: self.installed@,
            installed_at: self.installed_at,
            updater: opt_updater(self.updater),
        }
    }
}

/// Two ownership records agree, paths by their parts.
pub open spec fn same_record(platform: Platform, a: RecordView, b: RecordView) -> bool {
    &&& a.schema == b.schema
    &&& a.id == b.id
    &&& parts(platform, a.surface) == parts(platform, b.surface)
    &&& same_baseline(platform, a.baseline, b.baseline)
    &&& same_installed(platform, a.installed, b.installed)
    &&& a.installed_at == b.installed_at
    &&& a.updater == b.updater
}

pub open spec fn records_view(v: Seq<SurfaceRecord>) -> Seq<RecordView> {
    v.map_values(|r: SurfaceRecord| r@)
}

impl Clone for SurfaceRecord {
    fn clone(&self) -> (r: Self)
        ensures
            r@ == self@,
    {
        SurfaceRecord {
            schema: self.schema,
            id: self.id,
            surface: self.surface.clone(),
            baseline: self.baseline.clone(),
            installed: self.installed.clone(),
            installed_at: self.installed_at,
            updater: copy_updater(&self.updater),
        }
    }
}

fn copy_updater(o: &Option<UpdaterAdapterRecord>) -> (r: Option<UpdaterAdapterRecord>)
    ensures
        opt_updater(r) == opt_updater(*o),
{
    match o {
        Some(u) => Some(u.clone()),
        None => None,
    }
}

impl SurfaceRecord {
    pub fn agrees_with(&self, platform: Platform, other: &SurfaceRecord) -> (r: bool)
        ensures
            r == same_record(platform, self@, other@),
    {
        let same_updater = match (&self.updater, &other.updater) {
            (Some(a), Some(b)) => a.same_as(b),
            (None, None) => true,
            _ => false,
        };
        self.schema == other.schema && self.id == other.id && same_path(
            platform,
            self.surface.as_str(),
            other.surface.as_str(),
        ) && self.baseline.agrees_with(platform, &other.baseline) && self.installed.agrees_with(platform, &other.installed)
            && self.installed_at == other.installed_at && same_updater
    }
}

} // verus!
