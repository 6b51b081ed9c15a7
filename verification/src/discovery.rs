//! What is known of the ways in which Codex can be started on a machine.

use vstd::prelude::*;

use crate::outside::{lossy, lossy_text};
use crate::paths::{
    extension, extension_of, is_absolute, is_below, parts, parts_of, path_is_absolute,
    path_is_below, Platform,
};
use crate::shim::{FileIdentity, IdentityView};
use crate::text::{
    ascii_lower, chars_of, contains, contains_any, contains_text, decimal, decimal_text,
    first_index, forward_slashes, is_ascii_letter, is_control, is_control_char, is_digit,
    is_digit_char, is_letter_char, is_whitespace, is_whitespace_char, lemma_first_index_unique,
    mentions_any, opt_text, same, slices, split_on, split_text, starts_with, text_between, texts,
    to_ascii_lower, trim, trim_end, trimmed, with_forward_slashes,
};
use crate::types::{copy_opt, copy_texts};
use crate::upstream_cache::{parse_u64, parsed_u64};

verus! {

pub const DEFAULT_PROBE_TIMEOUT_MS: u64 = 2_000;

pub const DEFAULT_MAX_PATH_ENTRIES: usize = 256;

pub const DEFAULT_MAX_SURFACES: usize = 512;

pub const DEFAULT_MAX_VERSION_PROBES: usize = 64;

/// How often a launcher that is still being written is tried again.
pub const VERSION_PROBE_BUSY_RETRIES: usize = 4;

pub const MAX_COMMAND_OUTPUT_BYTES: usize = 65_536;

#[derive(Debug, Clone, Copy, PartialEq, Eq, Structural)]
pub struct DiscoveryOptions {
    pub probe_timeout_ms: u64,
    pub command_timeout_ms: u64,
    pub max_path_entries: usize,
    pub max_surfaces: usize,
    pub max_version_probes: usize,
    pub probe_versions: bool,
}

pub open spec fn default_discovery() -> DiscoveryOptions {
    DiscoveryOptions {
        probe_timeout_ms: DEFAULT_PROBE_TIMEOUT_MS,
        command_timeout_ms: DEFAULT_PROBE_TIMEOUT_MS,
        max_path_entries: DEFAULT_MAX_PATH_ENTRIES,
        max_surfaces: DEFAULT_MAX_SURFACES,
        max_version_probes: DEFAULT_MAX_VERSION_PROBES,
        probe_versions: true,
    }
}

impl Default for DiscoveryOptions {
    fn default() -> (r: Self)
        ensures
            r == default_discovery(),
    {
        DiscoveryOptions {
            probe_timeout_ms: DEFAULT_PROBE_TIMEOUT_MS,
            command_timeout_ms: DEFAULT_PROBE_TIMEOUT_MS,
            max_path_entries: DEFAULT_MAX_PATH_ENTRIES,
            max_surfaces: DEFAULT_MAX_SURFACES,
            max_version_probes: DEFAULT_MAX_VERSION_PROBES,
            probe_versions: true,
        }
    }
}

#[derive(Debug, Clone, Copy, PartialEq, Eq, Structural)]
pub enum SurfaceOwner {
    Patcher,
    Standalone,
    Npm,
    Pnpm,
    Bun,
    Homebrew,
    Desktop,
    Daemon,
    Manual,
    Unknown,
}

impl SurfaceOwner {
    /// Something else than the user or the patcher updates the surface.
    pub fn is_external_manager(self) -> (r: bool)
        ensures
            r == !(self is Patcher || self is Manual || self is Unknown),
    {
        matches!(
            self,
            SurfaceOwner::Standalone
                | SurfaceOwner::Npm
                | SurfaceOwner::Pnpm
                | SurfaceOwner::Bun
                | SurfaceOwner::Homebrew
                | SurfaceOwner::Desktop
                | SurfaceOwner::Daemon
        )
    }
}

#[derive(Debug, Clone, Copy, PartialEq, Eq, Structural)]
pub enum Redirectability {
    AlreadyOwned,
    Direct,
    OwnerManaged,
    NotRedirectable,
}

#[derive(Debug, Clone, Copy, PartialEq, Eq, PartialOrd, Ord, Structural)]
pub enum SurfaceRisk {
    Low,
    Medium,
    High,
    Critical,
}

#[derive(Debug, Clone, Copy, PartialEq, Eq, Structural)]
pub enum ProbeStatus {
    NotRun,
    Succeeded,
    TimedOut,
    Failed,
}

/// The resolver in which a surface has a rank. Known absolute locations are reported, but
/// no resolver orders them.
#[derive(Debug, Clone, Copy, PartialEq, Eq, Structural)]
pub enum PrecedenceScope {
    CliOverride,
    Shell,
    PowerShell,
    Path,
    KnownLocation,
}

#[derive(Debug, Clone, Copy, PartialEq, Eq, Structural)]
pub struct SurfacePrecedence {
    pub scope: PrecedenceScope,
    /// One-based rank within `scope`, when that scope has an ordered resolver.
    pub rank: Option<u64>,
    /// Whether this resolver currently selects the surface. Several resolvers can select
    /// one at once.
    pub effective: bool,
}

pub open spec fn scope_name(scope: PrecedenceScope) -> Seq<char> {
    match scope {
        PrecedenceScope::CliOverride => "cli-override"@,
        PrecedenceScope::Shell => "shell"@,
        PrecedenceScope::PowerShell => "powershell"@,
        PrecedenceScope::Path => "PATH"@,
        PrecedenceScope::KnownLocation => "known-location"@,
    }
}

pub open spec fn precedence_label(p: SurfacePrecedence) -> Seq<char> {
    scope_name(p.scope) + (match p.rank {
        Some(rank) => "["@ + decimal(rank as nat) + "]"@,
        None => Seq::empty(),
    }) + (if p.effective {
        "*"@
    } else {
        Seq::empty()
    })
}

impl SurfacePrecedence {
    pub fn label(&self) -> (r: String)
        ensures
            r@ == precedence_label(*self),
    {
        let mut out = match self.scope {
            PrecedenceScope::CliOverride => "cli-override".to_owned(),
            PrecedenceScope::Shell => "shell".to_owned(),
            PrecedenceScope::PowerShell => "powershell".to_owned(),
            PrecedenceScope::Path => "PATH".to_owned(),
            PrecedenceScope::KnownLocation => "known-location".to_owned(),
        };
        let ghost scope = out@;
        if let Some(rank) = self.rank {
            out.append("[");
            out.append(decimal_text(rank).as_str());
            out.append("]");
        }
        if self.effective {
            out.append("*");
        }
        proof {
            assert(out@ =~= precedence_label(*self));
        }
        out
    }
}

#[derive(Debug, Clone, Copy, PartialEq, Eq, Structural)]
pub enum UpdateMethod {
    CodexPatcher,
    OfficialStandalone,
    NpmGlobal,
    PnpmGlobal,
    BunGlobal,
    HomebrewCask,
    DesktopUpdater,
    Manual,
    Unknown,
}

pub open spec fn method_label(method: UpdateMethod) -> Seq<char> {
    match method {
        UpdateMethod::CodexPatcher => "codex-patcher"@,
        UpdateMethod::OfficialStandalone => "official-standalone"@,
        UpdateMethod::NpmGlobal => "npm-global"@,
        UpdateMethod::PnpmGlobal => "pnpm-global"@,
        UpdateMethod::BunGlobal => "bun-global"@,
        UpdateMethod::HomebrewCask => "homebrew-cask"@,
        UpdateMethod::DesktopUpdater => "desktop-updater"@,
        UpdateMethod::Manual => "manual"@,
        UpdateMethod::Unknown => "unknown"@,
    }
}

impl UpdateMethod {
    pub fn label(self) -> (r: &'static str)
        ensures
            r@ == method_label(self),
    {
        match self {
            UpdateMethod::CodexPatcher => "codex-patcher",
            UpdateMethod::OfficialStandalone => "official-standalone",
            UpdateMethod::NpmGlobal => "npm-global",
            UpdateMethod::PnpmGlobal => "pnpm-global",
            UpdateMethod::BunGlobal => "bun-global",
            UpdateMethod::HomebrewCask => "homebrew-cask",
            UpdateMethod::DesktopUpdater => "desktop-updater",
            UpdateMethod::Manual => "manual",
            UpdateMethod::Unknown => "unknown",
        }
    }
}

pub open spec fn method_of(owner: SurfaceOwner) -> UpdateMethod {
    match owner {
        SurfaceOwner::Patcher => UpdateMethod::CodexPatcher,
        SurfaceOwner::Standalone => UpdateMethod::OfficialStandalone,
        SurfaceOwner::Daemon => UpdateMethod::OfficialStandalone,
        SurfaceOwner::Npm => UpdateMethod::NpmGlobal,
        SurfaceOwner::Pnpm => UpdateMethod::PnpmGlobal,
        SurfaceOwner::Bun => UpdateMethod::BunGlobal,
        SurfaceOwner::Homebrew => UpdateMethod::HomebrewCask,
        SurfaceOwner::Desktop => UpdateMethod::DesktopUpdater,
        SurfaceOwner::Manual => UpdateMethod::Manual,
        SurfaceOwner::Unknown => UpdateMethod::Unknown,
    }
}

pub fn update_method_for(owner: SurfaceOwner) -> (r: UpdateMethod)
    ensures
        r == method_of(owner),
{
    match owner {
        SurfaceOwner::Patcher => UpdateMethod::CodexPatcher,
        SurfaceOwner::Standalone | SurfaceOwner::Daemon => UpdateMethod::OfficialStandalone,
        SurfaceOwner::Npm => UpdateMethod::NpmGlobal,
        SurfaceOwner::Pnpm => UpdateMethod::PnpmGlobal,
        SurfaceOwner::Bun => UpdateMethod::BunGlobal,
        SurfaceOwner::Homebrew => UpdateMethod::HomebrewCask,
        SurfaceOwner::Desktop => UpdateMethod::DesktopUpdater,
        SurfaceOwner::Manual => UpdateMethod::Manual,
        SurfaceOwner::Unknown => UpdateMethod::Unknown,
    }
}

/// The number in the first pair of brackets.
pub open spec fn rank_in(origin: Seq<char>) -> Option<u64> {
    let open = first_index(origin, '[');
    let tail = origin.skip(open + 1);
    let close = first_index(tail, ']');
    if open >= origin.len() || close >= tail.len() {
        None
    } else {
        parsed_u64(tail.take(close))
    }
}

pub fn bracketed_rank(origin: &str) -> (r: Option<u64>)
    ensures
        r == rank_in(origin@),
{
    let chars = chars_of(origin);
    let mut open: usize = 0;
    while open < chars.len() && chars[open] != '['
        invariant
            open <= chars@.len(),
            forall|k: int| 0 <= k < open ==> chars@[k] != '[',
        decreases chars@.len() - open,
    {
        open = open + 1;
    }
    proof {
        lemma_first_index_unique(chars@, '[', open as int);
    }
    if open >= chars.len() {
        return None;
    }
    let ghost tail = chars@.skip(open as int + 1);
    let start: usize = open + 1;
    let mut close: usize = start;
    while close < chars.len() && chars[close] != ']'
        invariant
            start <= close <= chars@.len(),
            start == open + 1,
            tail == chars@.skip(start as int),
            forall|k: int| 0 <= k < close - start ==> tail[k] != ']',
        decreases chars@.len() - close,
    {
        proof {
            assert(tail[close - start] == chars@[close as int]);
        }
        close = close + 1;
    }
    proof {
        if close < chars@.len() {
            assert(tail[close - start] == chars@[close as int]);
        }
        lemma_first_index_unique(tail, ']', close - start);
    }
    if close >= chars.len() {
        return None;
    }
    proof {
        assert(tail.take(close - start) =~= chars@.subrange(start as int, close as int));
    }
    parse_u64(text_between(&chars, start, close).as_str())
}

/// Where a surface stands in the order of the resolver that found it.
pub open spec fn precedence_of(origin: Seq<char>, effective: bool) -> SurfacePrecedence {
    let rank = match rank_in(origin) {
        Some(n) => if n < u64::MAX {
            Some((n + 1) as u64)
        } else {
            None
        },
        None => None,
    };
    if origin == "CODEX_CLI_PATH"@ {
        SurfacePrecedence { scope: PrecedenceScope::CliOverride, rank: Some(1), effective }
    } else if "PATH["@.is_prefix_of(origin) {
        SurfacePrecedence { scope: PrecedenceScope::Path, rank, effective }
    } else if "shell-"@.is_prefix_of(origin) {
        SurfacePrecedence { scope: PrecedenceScope::Shell, rank, effective }
    } else if "powershell-"@.is_prefix_of(origin) {
        SurfacePrecedence { scope: PrecedenceScope::PowerShell, rank, effective }
    } else {
        SurfacePrecedence { scope: PrecedenceScope::KnownLocation, rank: None, effective }
    }
}

pub fn surface_precedence(origin: &str, effective: bool) -> (r: SurfacePrecedence)
    ensures
        r == precedence_of(origin@, effective),
{
    if same(origin, "CODEX_CLI_PATH") {
        return SurfacePrecedence {
            scope: PrecedenceScope::CliOverride,
            rank: Some(1),
            effective,
        };
    }
    let scope = if starts_with(origin, "PATH[") {
        PrecedenceScope::Path
    } else if starts_with(origin, "shell-") {
        PrecedenceScope::Shell
    } else if starts_with(origin, "powershell-") {
        PrecedenceScope::PowerShell
    } else {
        return SurfacePrecedence { scope: PrecedenceScope::KnownLocation, rank: None, effective };
    };
    let rank = match bracketed_rank(origin) {
        Some(n) => if n < u64::MAX {
            Some(n + 1)
        } else {
            None
        },
        None => None,
    };
    SurfacePrecedence { scope, rank, effective }
}

/// A path as it is searched for the marks of its owner.
pub open spec fn search_form(path: Seq<char>) -> Seq<char> {
    ascii_lower(forward_slashes(path))
}

/// The owner that a path gives away.
pub open spec fn owner_in(
    platform: Platform,
    path: Seq<char>,
    home: Seq<char>,
) -> Option<SurfaceOwner> {
    let lower = search_form(path);
    if is_below(platform, path, home) {
        Some(SurfaceOwner::Patcher)
    } else if contains_text(lower, "/.codex/packages/standalone/"@) {
        Some(SurfaceOwner::Standalone)
    } else if contains_text(lower, ".bun/"@) || contains_text(lower, "/bun/install/global/"@) {
        Some(SurfaceOwner::Bun)
    } else if contains_text(lower, "/.pnpm/"@) || contains_text(lower, "/pnpm/"@) {
        Some(SurfaceOwner::Pnpm)
    } else if contains_text(lower, "node_modules/@openai/codex"@) || contains_text(
        lower,
        "/npm/"@,
    ) {
        Some(SurfaceOwner::Npm)
    } else if contains_text(lower, "/caskroom/codex/"@) || contains_text(
        lower,
        "/cellar/codex/"@,
    ) {
        Some(SurfaceOwner::Homebrew)
    } else if contains_text(lower, "codex.app/contents/resources/"@) || contains_text(
        lower,
        "codex-desktop/resources/"@,
    ) {
        Some(SurfaceOwner::Desktop)
    } else {
        None
    }
}

fn owner_of_path(platform: Platform, path: &str, home: &str) -> (r: Option<SurfaceOwner>)
    ensures
        r == owner_in(platform, path@, home@),
{
    if path_is_below(platform, path, home) {
        return Some(SurfaceOwner::Patcher);
    }
    let form = to_ascii_lower(with_forward_slashes(path).as_str());
    let lower = form.as_str();
    if contains(lower, "/.codex/packages/standalone/") {
        Some(SurfaceOwner::Standalone)
    } else if contains(lower, ".bun/") || contains(lower, "/bun/install/global/") {
        Some(SurfaceOwner::Bun)
    } else if contains(lower, "/.pnpm/") || contains(lower, "/pnpm/") {
        Some(SurfaceOwner::Pnpm)
    } else if contains(lower, "node_modules/@openai/codex") || contains(lower, "/npm/") {
        Some(SurfaceOwner::Npm)
    } else if contains(lower, "/caskroom/codex/") || contains(lower, "/cellar/codex/") {
        Some(SurfaceOwner::Homebrew)
    } else if contains(lower, "codex.app/contents/resources/") || contains(
        lower,
        "codex-desktop/resources/",
    ) {
        Some(SurfaceOwner::Desktop)
    } else {
        None
    }
}

/// Who owns a surface: the hint decides, then its own path, then the path it leads to.
pub open spec fn owner_of(
    platform: Platform,
    hinted: SurfaceOwner,
    raw: Seq<char>,
    resolved: Option<Seq<char>>,
    home: Seq<char>,
) -> SurfaceOwner {
    if hinted != SurfaceOwner::Unknown {
        hinted
    } else if owner_in(platform, raw, home) is Some {
        owner_in(platform, raw, home)->0
    } else if resolved is Some && owner_in(platform, resolved->0, home) is Some {
        owner_in(platform, resolved->0, home)->0
    } else {
        SurfaceOwner::Manual
    }
}

pub fn classify_owner(
    platform: Platform,
    hinted: SurfaceOwner,
    raw: &str,
    resolved: &Option<String>,
    home: &str,
) -> (r: SurfaceOwner)
    ensures
        r == owner_of(platform, hinted, raw@, opt_text(*resolved), home@),
{
    if hinted != SurfaceOwner::Unknown {
        return hinted;
    }
    if let Some(owner) = owner_of_path(platform, raw, home) {
        return owner;
    }
    if let Some(path) = resolved {
        if let Some(owner) = owner_of_path(platform, path.as_str(), home) {
            return owner;
        }
    }
    SurfaceOwner::Manual
}

pub open spec fn owner_word(owner: SurfaceOwner) -> Seq<char> {
    match owner {
        SurfaceOwner::Patcher => "Patcher"@,
        SurfaceOwner::Standalone => "Standalone"@,
        SurfaceOwner::Npm => "Npm"@,
        SurfaceOwner::Pnpm => "Pnpm"@,
        SurfaceOwner::Bun => "Bun"@,
        SurfaceOwner::Homebrew => "Homebrew"@,
        SurfaceOwner::Desktop => "Desktop"@,
        SurfaceOwner::Daemon => "Daemon"@,
        SurfaceOwner::Manual => "Manual"@,
        SurfaceOwner::Unknown => "Unknown"@,
    }
}

pub fn owner_name(owner: SurfaceOwner) -> (r: &'static str)
    ensures
        r@ == owner_word(owner),
{
    match owner {
        SurfaceOwner::Patcher => "Patcher",
        SurfaceOwner::Standalone => "Standalone",
        SurfaceOwner::Npm => "Npm",
        SurfaceOwner::Pnpm => "Pnpm",
        SurfaceOwner::Bun => "Bun",
        SurfaceOwner::Homebrew => "Homebrew",
        SurfaceOwner::Desktop => "Desktop",
        SurfaceOwner::Daemon => "Daemon",
        SurfaceOwner::Manual => "Manual",
        SurfaceOwner::Unknown => "Unknown",
    }
}

/// Whether a surface can be redirected, and what that risks.
pub open spec fn risk_of(owner: SurfaceOwner, package_leaf: bool) -> (
    Redirectability,
    SurfaceRisk,
    Seq<char>,
) {
    if package_leaf {
        (
            Redirectability::OwnerManaged,
            SurfaceRisk::Critical,
            "package-manager-owned native command surface; updates replace it and may affect every launcher for that package"@,
        )
    } else {
        match owner {
            SurfaceOwner::Patcher => (
                Redirectability::AlreadyOwned,
                SurfaceRisk::Low,
                "patcher-owned surface"@,
            ),
            SurfaceOwner::Manual | SurfaceOwner::Unknown => (
                Redirectability::Direct,
                SurfaceRisk::Medium,
                "ownership is not externally verifiable; retain an exact baseline"@,
            ),
            SurfaceOwner::Desktop => (
                Redirectability::OwnerManaged,
                SurfaceRisk::High,
                "Desktop updater owns this command surface and may overwrite a redirect"@,
            ),
            SurfaceOwner::Daemon => (
                Redirectability::OwnerManaged,
                SurfaceRisk::Critical,
                "daemon path is hard-coded under the upstream standalone tree and auto-updated"@,
            ),
            _ => (
                Redirectability::OwnerManaged,
                SurfaceRisk::High,
                owner_word(owner) + " owns this surface and may overwrite a redirect"@,
            ),
        }
    }
}

pub fn risk_for(owner: SurfaceOwner, package_leaf: bool) -> (r: (
    Redirectability,
    SurfaceRisk,
    String,
))
    ensures
        (r.0, r.1, r.2@) == risk_of(owner, package_leaf),
{
    if package_leaf {
        return (
            Redirectability::OwnerManaged,
            SurfaceRisk::Critical,
            "package-manager-owned native command surface; updates replace it and may affect every launcher for that package".to_owned(),
        );
    }
    match owner {
        SurfaceOwner::Patcher => (
            Redirectability::AlreadyOwned,
            SurfaceRisk::Low,
            "patcher-owned surface".to_owned(),
        ),
        SurfaceOwner::Manual | SurfaceOwner::Unknown => (
            Redirectability::Direct,
            SurfaceRisk::Medium,
            "ownership is not externally verifiable; retain an exact baseline".to_owned(),
        ),
        SurfaceOwner::Desktop => (
            Redirectability::OwnerManaged,
            SurfaceRisk::High,
            "Desktop updater owns this command surface and may overwrite a redirect".to_owned(),
        ),
        SurfaceOwner::Daemon => (
            Redirectability::OwnerManaged,
            SurfaceRisk::Critical,
            "daemon path is hard-coded under the upstream standalone tree and auto-updated".to_owned(),
        ),
        _ => {
            let mut reason = owner_name(owner).to_owned();
            reason.append(" owns this surface and may overwrite a redirect");
            (Redirectability::OwnerManaged, SurfaceRisk::High, reason)
        },
    }
}

pub open spec fn bundle_marks() -> Seq<Seq<char>> {
    seq![".app/contents/"@, "/windowsapps/"@, "/appx/"@]
}

/// The surface, or what it leads to, lies inside a signed application bundle.
pub open spec fn in_bundle(raw: Seq<char>, resolved: Option<Seq<char>>) -> bool {
    mentions_any(search_form(raw), bundle_marks()) || (resolved is Some && mentions_any(
        search_form(resolved->0),
        bundle_marks(),
    ))
}

fn path_in_bundle(path: &str) -> (r: bool)
    ensures
        r == mentions_any(search_form(path@), bundle_marks()),
{
    let marks = vec![".app/contents/", "/windowsapps/", "/appx/"];
    proof {
        assert(slices(marks@) =~= bundle_marks());
    }
    contains_any(to_ascii_lower(with_forward_slashes(path).as_str()).as_str(), &marks)
}

pub fn is_protected_bundle_path(raw: &str, resolved: &Option<String>) -> (r: bool)
    ensures
        r == in_bundle(raw@, opt_text(*resolved)),
{
    if path_in_bundle(raw) {
        return true;
    }
    match resolved {
        Some(path) => path_in_bundle(path.as_str()),
        None => false,
    }
}

/// A command that is looked up by its name alone.
pub open spec fn bare(platform: Platform, path: Seq<char>) -> bool {
    parts(platform, path).len() == 1 && !is_absolute(platform, path)
}

pub fn is_bare_command(platform: Platform, path: &str) -> (r: bool)
    ensures
        r == bare(platform, path@),
{
    let list = parts_of(platform, path);
    proof {
        assert(texts(list@).len() == list@.len());
    }
    list.len() == 1 && !path_is_absolute(platform, path)
}

/// The text with every run of controls and white space made one space.
pub open spec fn spaced(s: Seq<char>) -> Seq<char>
    decreases s.len(),
{
    if s.len() == 0 {
        Seq::empty()
    } else {
        let before = spaced(s.drop_last());
        if is_control(s.last()) || is_whitespace(s.last()) {
            if before.len() > 0 && before.last() == ' ' {
                before
            } else {
                before.push(' ')
            }
        } else {
            before.push(s.last())
        }
    }
}

/// The first `max` characters of a text, on one line and without needless space.
pub open spec fn compact(s: Seq<char>, max: nat) -> Seq<char> {
    trim(spaced(if s.len() <= max { s } else { s.take(max as int) }))
}

pub fn compact_display_text(input: &str, max_chars: usize) -> (r: String)
    ensures
        r@ == compact(input@, max_chars as nat),
{
    let chars = chars_of(input);
    let n: usize = if chars.len() <= max_chars { chars.len() } else { max_chars };
    let mut out = String::new();
    let mut last_was_space = false;
    let mut i: usize = 0;
    proof {
        assert(chars@.take(0) =~= Seq::empty());
        assert(chars@.take(n as int) =~= (if input@.len() <= max_chars {
            input@
        } else {
            input@.take(max_chars as int)
        }));
    }
    while i < n
        invariant
            i <= n <= chars@.len(),
            out@ == spaced(chars@.take(i as int)),
            last_was_space == (out@.len() > 0 && out@.last() == ' '),
        decreases n - i,
    {
        let c = chars[i];
        proof {
            assert(chars@.take(i as int + 1).drop_last() =~= chars@.take(i as int));
            assert(chars@.take(i as int + 1).last() == c);
        }
        if is_control_char(c) || is_whitespace_char(c) {
            if !last_was_space {
                out.push(' ');
                last_was_space = true;
            }
        } else {
            out.push(c);
            last_was_space = false;
            proof {
                assert(is_whitespace(' '));
            }
        }
        i = i + 1;
    }
    trimmed(out.as_str())
}

/// What follows the digits that a text starts with.
pub open spec fn skip_digits(s: Seq<char>) -> Seq<char>
    decreases s.len(),
{
    if s.len() > 0 && is_digit(s[0]) {
        skip_digits(s.drop_first())
    } else {
        s
    }
}

pub open spec fn is_suffix_char(c: char) -> bool {
    is_ascii_letter(c) || is_digit(c) || c == '.' || c == '-'
}

/// What may follow the third number of a version.
pub open spec fn is_version_suffix(s: Seq<char>) -> bool {
    s.len() == 0 || (s.len() > 1 && (s[0] == '-' || s[0] == '+') && forall|i: int|
        1 <= i < s.len() ==> is_suffix_char(#[trigger] s[i]))
}

pub open spec fn starts_with_digit(s: Seq<char>) -> bool {
    s.len() > 0 && is_digit(s[0])
}

/// A text that starts with a dot and a digit.
pub open spec fn starts_with_number(s: Seq<char>) -> bool {
    s.len() > 1 && s[0] == '.' && is_digit(s[1])
}

/// Three numbers with dots between them, then nothing or a suffix.
pub open spec fn is_version(s: Seq<char>) -> bool {
    let a = skip_digits(s);
    let b = skip_digits(a.skip(1));
    let c = skip_digits(b.skip(1));
    starts_with_digit(s) && starts_with_number(a) && starts_with_number(b) && is_version_suffix(c)
}

/// The position behind the last white space.
pub open spec fn after_space(s: Seq<char>) -> int
    decreases s.len(),
{
    if s.len() == 0 || is_whitespace(s.last()) {
        s.len() as int
    } else {
        after_space(s.drop_last())
    }
}

/// The last word of a line.
pub open spec fn last_word(line: Seq<char>) -> Seq<char> {
    let s = trim_end(line);
    s.skip(after_space(s))
}

/// The version that the first line to end in one ends in.
pub open spec fn first_version(list: Seq<Seq<char>>) -> Option<Seq<char>>
    decreases list.len(),
{
    if list.len() == 0 {
        None
    } else if is_version(last_word(list[0])) {
        Some(last_word(list[0]))
    } else {
        first_version(list.drop_first())
    }
}

pub open spec fn version_in(output: Seq<char>) -> Option<Seq<char>> {
    first_version(split_on(trim(output), '\n'))
}

fn digits_end(chars: &Vec<char>, from: usize) -> (r: usize)
    requires
        from <= chars@.len(),
    ensures
        from <= r <= chars@.len(),
        chars@.skip(r as int) == skip_digits(chars@.skip(from as int)),
{
    let mut i: usize = from;
    while i < chars.len() && is_digit_char(chars[i])
        invariant
            from <= i <= chars@.len(),
            skip_digits(chars@.skip(i as int)) == skip_digits(chars@.skip(from as int)),
        decreases chars@.len() - i,
    {
        proof {
            assert(chars@.skip(i as int).drop_first() =~= chars@.skip(i as int + 1));
        }
        i = i + 1;
    }
    proof {
        let rest = chars@.skip(i as int);
        assert(i < chars@.len() ==> rest[0] == chars@[i as int]);
    }
    i
}

fn number_at(chars: &Vec<char>, i: usize) -> (r: bool)
    requires
        i <= chars@.len(),
    ensures
        r == starts_with_number(chars@.skip(i as int)),
{
    if chars.len() - i < 2 {
        return false;
    }
    proof {
        let rest = chars@.skip(i as int);
        assert(rest[0] == chars@[i as int] && rest[1] == chars@[i + 1]);
    }
    chars[i] == '.' && is_digit_char(chars[i + 1])
}

fn suffix_at(chars: &Vec<char>, from: usize) -> (r: bool)
    requires
        from <= chars@.len(),
    ensures
        r == is_version_suffix(chars@.skip(from as int)),
{
    let ghost rest = chars@.skip(from as int);
    if from == chars.len() {
        return true;
    }
    proof {
        assert(rest[0] == chars@[from as int]);
    }
    if chars.len() - from < 2 || !(chars[from] == '-' || chars[from] == '+') {
        return false;
    }
    let mut i: usize = from + 1;
    while i < chars.len()
        invariant
            from < i <= chars@.len(),
            rest == chars@.skip(from as int),
            forall|k: int| 1 <= k < i - from ==> is_suffix_char(#[trigger] rest[k]),
        decreases chars@.len() - i,
    {
        let c = chars[i];
        proof {
            assert(rest[i - from] == c);
        }
        if !(is_letter_char(c) || is_digit_char(c) || c == '.' || c == '-') {
            return false;
        }
        i = i + 1;
    }
    true
}

fn is_version_text(chars: &Vec<char>) -> (r: bool)
    ensures
        r == is_version(chars@),
{
    proof {
        assert(chars@.skip(0) =~= chars@);
    }
    if chars.len() == 0 || !is_digit_char(chars[0]) {
        return false;
    }
    let a = digits_end(chars, 0);
    if !number_at(chars, a) {
        return false;
    }
    proof {
        assert(chars@.skip(a as int).skip(1) =~= chars@.skip(a as int + 1));
        assert(chars@.skip(a as int).len() > 1);
    }
    let b = digits_end(chars, a + 1);
    if !number_at(chars, b) {
        return false;
    }
    proof {
        assert(chars@.skip(b as int).skip(1) =~= chars@.skip(b as int + 1));
        assert(chars@.skip(b as int).len() > 1);
    }
    let c = digits_end(chars, b + 1);
    suffix_at(chars, c)
}

proof fn lemma_after_space(s: Seq<char>, n: int)
    requires
        0 <= n <= s.len(),
        n > 0 ==> is_whitespace(s[n - 1]),
        forall|i: int| n <= i < s.len() ==> !is_whitespace(#[trigger] s[i]),
    ensures
        after_space(s) == n,
    decreases s.len(),
{
    if s.len() > n {
        assert(!is_whitespace(s[s.len() - 1]));
        assert forall|i: int| n <= i < s.drop_last().len() implies !is_whitespace(
            #[trigger] s.drop_last()[i],
        ) by {
            assert(s.drop_last()[i] == s[i]);
        }
        lemma_after_space(s.drop_last(), n);
    }
}

pub fn last_word_of(line: &str) -> (r: String)
    ensures
        r@ == last_word(line@),
{
    let chars = chars_of(line);
    let mut to: usize = chars.len();
    proof {
        assert(chars@.take(to as int) =~= chars@);
    }
    while to > 0 && is_whitespace_char(chars[to - 1])
        invariant
            to <= chars@.len(),
            trim_end(chars@.take(to as int)) == trim_end(chars@),
        decreases to,
    {
        proof {
            assert(chars@.take(to as int).drop_last() =~= chars@.take(to as int - 1));
            assert(chars@.take(to as int).last() == chars@[to - 1]);
        }
        to = to - 1;
    }
    let ghost s = chars@.take(to as int);
    proof {
        assert(to > 0 ==> s.last() == chars@[to - 1]);
        assert(trim_end(chars@) == s);
    }
    let mut from: usize = to;
    while from > 0 && !is_whitespace_char(chars[from - 1])
        invariant
            from <= to <= chars@.len(),
            s == chars@.take(to as int),
            forall|i: int| from <= i < to ==> !is_whitespace(#[trigger] s[i]),
        decreases from,
    {
        from = from - 1;
    }
    proof {
        lemma_after_space(s, from as int);
        assert(s.skip(from as int) =~= chars@.subrange(from as int, to as int));
    }
    text_between(&chars, from, to)
}

/// The version that a `--version` output names.
pub fn parse_codex_version(output: &str) -> (r: Option<String>)
    ensures
        opt_text(r) == version_in(output@),
{
    let list = split_text(trimmed(output).as_str(), '\n');
    let ghost all = split_on(trim(output@), '\n');
    let mut i: usize = 0;
    proof {
        assert(all.skip(0) =~= all);
    }
    while i < list.len()
        invariant
            i <= list@.len(),
            all == texts(list@),
            all == split_on(trim(output@), '\n'),
            first_version(all) == first_version(all.skip(i as int)),
        decreases list@.len() - i,
    {
        let word = last_word_of(list[i].as_str());
        proof {
            assert(all.skip(i as int)[0] == list@[i as int]@);
            assert(all.skip(i as int).drop_first() =~= all.skip(i as int + 1));
        }
        if is_version_text(&chars_of(word.as_str())) {
            return Some(word);
        }
        i = i + 1;
    }
    None
}

#[derive(Debug)]
pub struct VersionProbe {
    pub status: ProbeStatus,
    pub version: Option<String>,
    pub output: Option<String>,
    pub error: Option<String>,
    pub elapsed_ms: u128,
}

pub struct VersionView {
    pub status: ProbeStatus,
    pub version: Option<Seq<char>>,
    pub output: Option<Seq<char>>,
    pub error: Option<Seq<char>>,
    pub elapsed_ms: u128,
}

impl View for VersionProbe {
    type V = VersionView;

    open spec fn view(&self) -> VersionView {
        VersionView {
            status: self.status,
            version: opt_text(self.version),
            output: opt_text(self.output),
            error: opt_text(self.error),
            elapsed_ms: self.elapsed_ms,
        }
    }
}

impl Clone for VersionProbe {
    fn clone(&self) -> (r: Self)
        ensures
            r@ == self@,
    {
        VersionProbe {
            status: self.status,
            version: copy_opt(&self.version),
            output: copy_opt(&self.output),
            error: copy_opt(&self.error),
            elapsed_ms: self.elapsed_ms,
        }
    }
}

/// A probe without a version.
pub open spec fn empty_probe(
    status: ProbeStatus,
    error: Option<Seq<char>>,
    elapsed_ms: u128,
) -> VersionView {
    VersionView { status, version: None, output: None, error, elapsed_ms }
}

impl VersionProbe {
    pub fn not_run() -> (r: Self)
        ensures
            r@ == empty_probe(ProbeStatus::NotRun, None, 0),
    {
        VersionProbe {
            status: ProbeStatus::NotRun,
            version: None,
            output: None,
            error: None,
            elapsed_ms: 0,
        }
    }
}

/// How the run of a launcher with `--version` ended.
#[derive(Debug)]
pub enum ProbeRun {
    /// It could not be started, or not be waited for.
    Unavailable { message: String },
    /// It ran for longer than this.
    TimedOut { timeout_ms: u128 },
    /// It ended; `status` are the words for how.
    Finished { success: bool, status: String, stdout: Vec<u8>, stderr: Vec<u8> },
}

/// What a launcher printed: its standard output, or its standard error when there is none.
pub open spec fn printed(stdout: Seq<u8>, stderr: Seq<u8>) -> Seq<char> {
    if trim(lossy(stdout)).len() > 0 {
        trim(lossy(stdout))
    } else {
        trim(lossy(stderr))
    }
}

pub open spec fn some_text(s: Seq<char>) -> Option<Seq<char>> {
    if s.len() > 0 {
        Some(s)
    } else {
        None
    }
}

/// What is known of a version after its launcher ran.
pub open spec fn probed(run: ProbeRun, elapsed_ms: u128) -> VersionView {
    match run {
        ProbeRun::Unavailable { message } => empty_probe(
            ProbeStatus::Failed,
            Some(message@),
            elapsed_ms,
        ),
        ProbeRun::TimedOut { timeout_ms } => empty_probe(
            ProbeStatus::TimedOut,
            Some("exceeded "@ + decimal(timeout_ms as nat) + " ms"@),
            elapsed_ms,
        ),
        ProbeRun::Finished { success, status, stdout, stderr } => {
            let text = printed(stdout@, stderr@);
            if !success {
                VersionView {
                    status: ProbeStatus::Failed,
                    version: None,
                    output: some_text(text),
                    error: Some("exit status "@ + status@),
                    elapsed_ms,
                }
            } else {
                VersionView {
                    status: if version_in(text) is Some {
                        ProbeStatus::Succeeded
                    } else {
                        ProbeStatus::Failed
                    },
                    version: version_in(text),
                    output: some_text(text),
                    error: if version_in(text) is Some {
                        None
                    } else {
                        Some("unrecognized version output"@)
                    },
                    elapsed_ms,
                }
            }
        },
    }
}

fn failed_probe(status: ProbeStatus, error: String, elapsed_ms: u128) -> (r: VersionProbe)
    ensures
        r@ == empty_probe(status, Some(error@), elapsed_ms),
{
    VersionProbe { status, version: None, output: None, error: Some(error), elapsed_ms }
}

/// `n` in decimal digits.
pub fn wide_decimal(n: u128) -> (r: String)
    ensures
        r@ == decimal(n as nat),
    decreases n,
{
    if n < 10 {
        decimal_text(n as u64)
    } else {
        let mut out = wide_decimal(n / 10);
        let last = decimal_text((n % 10) as u64);
        let ghost head = out@;
        out.append(last.as_str());
        proof {
            assert(decimal((n % 10) as nat) =~= seq![crate::text::digit_char((n % 10) as nat)]);
            assert(out@ =~= head.push(crate::text::digit_char((n % 10) as nat)));
        }
        out
    }
}

/// Whether a launcher that could not be started is tried again, after so many retries: only
/// one whose file is busy, which a concurrent fork can make it for a moment.
pub fn retries_busy(busy: bool, retry: usize) -> (r: bool)
    ensures
        r == (busy && retry < VERSION_PROBE_BUSY_RETRIES),
{
    busy && retry < VERSION_PROBE_BUSY_RETRIES
}

pub fn probe_version_detailed(run: &ProbeRun, elapsed_ms: u128) -> (r: VersionProbe)
    ensures
        r@ == probed(*run, elapsed_ms),
{
    match run {
        ProbeRun::Unavailable { message } => failed_probe(
            ProbeStatus::Failed,
            message.clone(),
            elapsed_ms,
        ),
        ProbeRun::TimedOut { timeout_ms } => {
            let mut error = "exceeded ".to_owned();
            error.append(wide_decimal(*timeout_ms).as_str());
            error.append(" ms");
            failed_probe(ProbeStatus::TimedOut, error, elapsed_ms)
        },
        ProbeRun::Finished { success, status, stdout, stderr } => {
            let out = trimmed(lossy_text(stdout.as_slice()).as_str());
            let text = if chars_of(out.as_str()).len() > 0 {
                out
            } else {
                trimmed(lossy_text(stderr.as_slice()).as_str())
            };
            let output = if chars_of(text.as_str()).len() > 0 { Some(text.clone()) } else { None };
            if !*success {
                let mut error = "exit status ".to_owned();
                error.append(status.as_str());
                return VersionProbe {
                    status: ProbeStatus::Failed,
                    version: None,
                    output,
                    error: Some(error),
                    elapsed_ms,
                };
            }
            match parse_codex_version(text.as_str()) {
                Some(version) => VersionProbe {
                    status: ProbeStatus::Succeeded,
                    version: Some(version),
                    output,
                    error: None,
                    elapsed_ms,
                },
                None => VersionProbe {
                    status: ProbeStatus::Failed,
                    version: None,
                    output,
                    error: Some("unrecognized version output".to_owned()),
                    elapsed_ms,
                },
            }
        },
    }
}

pub open spec fn opt_result(r: Result<Option<String>, String>) -> Result<
    Option<Seq<char>>,
    Seq<char>,
> {
    match r {
        Ok(o) => Ok(opt_text(o)),
        Err(message) => Err(message@),
    }
}

/// The version of the launcher at `path`, given what its run told.
pub fn probe_version(path: &str, probe: &VersionProbe) -> (r: Result<Option<String>, String>)
    ensures
        opt_result(r) == (match probe.status {
            ProbeStatus::Succeeded => Ok(opt_text(probe.version)),
            ProbeStatus::TimedOut => Err("version probe timed out for "@ + path@),
            ProbeStatus::Failed => Err(
                "version probe failed for "@ + path@ + ": "@ + (match probe.error {
                    Some(error) => error@,
                    None => "unknown error"@,
                }),
            ),
            ProbeStatus::NotRun => Ok(None),
        }),
{
    match probe.status {
        ProbeStatus::Succeeded => Ok(copy_opt(&probe.version)),
        ProbeStatus::TimedOut => {
            let mut message = "version probe timed out for ".to_owned();
            message.append(path);
            Err(message)
        },
        ProbeStatus::Failed => {
            let mut message = "version probe failed for ".to_owned();
            message.append(path);
            message.append(": ");
            message.append(
                match &probe.error {
                    Some(error) => error.as_str(),
                    None => "unknown error",
                },
            );
            Err(message)
        },
        ProbeStatus::NotRun => Ok(None),
    }
}

/// What a helper command printed, unless it is too much or nothing.
pub open spec fn bounded(bytes: Seq<u8>, max: nat) -> Option<Seq<char>> {
    if bytes.len() > max {
        None
    } else {
        some_text(trim(lossy(bytes)))
    }
}

pub fn bounded_command_output(bytes: &Vec<u8>, max_bytes: usize) -> (r: Option<String>)
    ensures
        opt_text(r) == bounded(bytes@, max_bytes as nat),
{
    if bytes.len() > max_bytes {
        return None;
    }
    let text = trimmed(lossy_text(bytes.as_slice()).as_str());
    if chars_of(text.as_str()).len() > 0 {
        Some(text)
    } else {
        None
    }
}

/// The program and the arguments that run a launcher: scripts need an interpreter on
/// Windows.
pub open spec fn launch_words(path: Seq<char>, args: Seq<Seq<char>>, platform: Platform) -> Seq<
    Seq<char>,
> {
    let ext = match extension(platform, path) {
        Some(e) => ascii_lower(e),
        None => Seq::empty(),
    };
    if platform is Windows && (ext == "cmd"@ || ext == "bat"@) {
        seq!["cmd.exe"@, "/D"@, "/C"@, path] + args
    } else if platform is Windows && ext == "ps1"@ {
        seq![
            "powershell.exe"@,
            "-NoProfile"@,
            "-ExecutionPolicy"@,
            "Bypass"@,
            "-File"@,
            path,
        ] + args
    } else {
        seq![path] + args
    }
}

pub fn launcher_command(path: &str, args: &Vec<String>, platform: Platform) -> (r: Vec<String>)
    ensures
        texts(r@) == launch_words(path@, texts(args@), platform),
{
    let ext = match extension_of(platform, path) {
        Some(e) => to_ascii_lower(e.as_str()),
        None => "".to_owned(),
    };
    proof {
        reveal_strlit("");
        assert(extension(platform, path@) is None ==> ext@ =~= Seq::empty());
    }
    let windows = match platform {
        Platform::Windows => true,
        Platform::Posix => false,
    };
    let mut out: Vec<String> = if windows && (same(ext.as_str(), "cmd") || same(
        ext.as_str(),
        "bat",
    )) {
        vec!["cmd.exe".to_owned(), "/D".to_owned(), "/C".to_owned(), path.to_owned()]
    } else if windows && same(ext.as_str(), "ps1") {
        vec![
            "powershell.exe".to_owned(),
            "-NoProfile".to_owned(),
            "-ExecutionPolicy".to_owned(),
            "Bypass".to_owned(),
            "-File".to_owned(),
            path.to_owned(),
        ]
    } else {
        vec![path.to_owned()]
    };
    let ghost head = texts(out@);
    let mut rest = copy_texts(args);
    out.append(&mut rest);
    proof {
        assert(texts(out@) =~= head + texts(args@));
        assert(texts(out@) =~= launch_words(path@, texts(args@), platform));
    }
    out
}

/// The command that asks a launcher for its version.
pub fn version_command(path: &str, platform: Platform) -> (r: Vec<String>)
    ensures
        texts(r@) == launch_words(path@, seq!["--version"@], platform),
{
    let args = vec!["--version".to_owned()];
    proof {
        assert(texts(args@) =~= seq!["--version"@]);
    }
    launcher_command(path, &args, platform)
}

#[derive(Debug)]
pub struct SurfaceFileIdentity {
    /// The resolved executable or package leaf whose identity was inspected.
    pub path: Option<String>,
    pub identity: Option<FileIdentity>,
    /// Present when there is no file to inspect, or when inspecting it failed.
    pub error: Option<String>,
}

pub struct SurfaceIdentityView {
    pub path: Option<Seq<char>>,
    pub identity: Option<IdentityView>,
    pub error: Option<Seq<char>>,
}

pub open spec fn opt_identity(o: Option<FileIdentity>) -> Option<IdentityView> {
    match o {
        Some(i) => Some(i@),
        None => None,
    }
}

impl View for SurfaceFileIdentity {
    type V = SurfaceIdentityView;

    open spec fn view(&self) -> SurfaceIdentityView {
        SurfaceIdentityView {
            path: opt_text(self.path),
            identity: opt_identity(self.identity),
            error: opt_text(self.error),
        }
    }
}

/// The file that a surface leads to.
pub open spec fn leaf_of(raw: Seq<char>, resolved: Option<Seq<char>>, exists: bool) -> Option<
    Seq<char>,
> {
    match resolved {
        Some(path) => Some(path),
        None => if exists {
            Some(raw)
        } else {
            None
        },
    }
}

pub open spec fn identity_of(
    probeable: bool,
    raw: Seq<char>,
    leaf: Option<Seq<char>>,
    inspected: Result<FileIdentity, String>,
) -> SurfaceIdentityView {
    if !probeable {
        SurfaceIdentityView {
            path: None,
            identity: None,
            error: Some("virtual command surface has no executable file"@),
        }
    } else {
        match leaf {
            None => SurfaceIdentityView {
                path: Some(raw),
                identity: None,
                error: Some("surface does not resolve to a file"@),
            },
            Some(path) => match inspected {
                Ok(identity) => SurfaceIdentityView {
                    path: Some(path),
                    identity: Some(identity@),
                    error: None,
                },
                Err(message) => SurfaceIdentityView {
                    path: Some(path),
                    identity: None,
                    error: Some(message@),
                },
            },
        }
    }
}

pub fn surface_leaf(raw: &str, resolved: &Option<String>, exists: bool) -> (r: Option<String>)
    ensures
        opt_text(r) == leaf_of(raw@, opt_text(*resolved), exists),
{
    match resolved {
        Some(path) => Some(path.clone()),
        None => if exists {
            Some(raw.to_owned())
        } else {
            None
        },
    }
}

/// What is known of a surface's file. `inspected` is the identity of its leaf.
pub fn surface_file_identity(
    probeable: bool,
    raw: &str,
    leaf: &Option<String>,
    inspected: &Result<FileIdentity, String>,
) -> (r: SurfaceFileIdentity)
    ensures
        r@ == identity_of(probeable, raw@, opt_text(*leaf), *inspected),
{
    if !probeable {
        return SurfaceFileIdentity {
            path: None,
            identity: None,
            error: Some("virtual command surface has no executable file".to_owned()),
        };
    }
    match leaf {
        None => SurfaceFileIdentity {
            path: Some(raw.to_owned()),
            identity: None,
            error: Some("surface does not resolve to a file".to_owned()),
        },
        Some(path) => match inspected {
            Ok(identity) => SurfaceFileIdentity {
                path: Some(path.clone()),
                identity: Some(identity.clone()),
                error: None,
            },
            Err(message) => SurfaceFileIdentity {
                path: Some(path.clone()),
                identity: None,
                error: Some(message.clone()),
            },
        },
    }
}

/// One way in which a caller can reach Codex. Two candidates may lead to one executable.
#[derive(Debug)]
pub struct SurfaceCandidate {
    pub origin: String,
    pub raw: String,
    pub resolved: Option<String>,
    pub version: Option<String>,
    pub owner: SurfaceOwner,
    pub update_method: UpdateMethod,
    pub current: bool,
    pub precedence: SurfacePrecedence,
    pub file_identity: SurfaceFileIdentity,
    pub redirectability: Redirectability,
    pub risk: SurfaceRisk,
    pub risk_reason: String,
    pub exists: bool,
    pub probe: VersionProbe,
}

pub struct CandidateView {
    pub origin: Seq<char>,
    pub raw: Seq<char>,
    pub resolved: Option<Seq<char>>,
    pub version: Option<Seq<char>>,
    pub owner: SurfaceOwner,
    pub update_method: UpdateMethod,
    pub current: bool,
    pub precedence: SurfacePrecedence,
    pub file_identity: SurfaceIdentityView,
    pub redirectability: Redirectability,
    pub risk: SurfaceRisk,
    pub risk_reason: Seq<char>,
    pub exists: bool,
    pub probe: VersionView,
}

impl View for SurfaceCandidate {
    type V = CandidateView;

    open spec fn view(&self) -> CandidateView {
        CandidateView {
            origin: self.origin@,
            raw: self.raw@,
            resolved: opt_text(self.resolved),
            version: opt_text(self.version),
            owner: self.owner,
            update_method: self.update_method,
            current: self.current,
            precedence: self.precedence,
            file_identity: self.file_identity@,
            redirectability: self.redirectability,
            risk: self.risk,
            risk_reason: self.risk_reason@,
            exists: self.exists,
            probe: self.probe@,
        }
    }
}

impl SurfaceCandidate {
    /// The path to show: where the surface leads, or the surface itself.
    pub fn display_path(&self) -> (r: &str)
        ensures
            r@ == (match self.resolved {
                Some(path) => path@,
                None => self.raw@,
            }),
    {
        match &self.resolved {
            Some(path) => path.as_str(),
            None => self.raw.as_str(),
        }
    }
}

} // verus!
