//! The user's configuration and the targets that a host can build for.

use vstd::prelude::*;

use crate::outside::{quoted, quoted_text};
use crate::text::{decimal, decimal_text, join, join_texts, result_text, result_unit, same, texts};

verus! {

pub const CONFIG_SCHEMA: u32 = 1;

/// The upstream channel that is followed.
#[derive(Debug, Clone, Copy, PartialEq, Eq, Structural)]
pub enum Branch {
    Stable,
    Alpha,
    Nightly,
}

impl Default for Branch {
    fn default() -> (r: Self)
        ensures
            r == Branch::Stable,
    {
        Branch::Stable
    }
}

pub open spec fn branch_name(b: Branch) -> Seq<char> {
    match b {
        Branch::Stable => "stable"@,
        Branch::Alpha => "alpha"@,
        Branch::Nightly => "nightly"@,
    }
}

impl Branch {
    pub fn as_str(self) -> (r: &'static str)
        ensures
            r@ == branch_name(self),
    {
        match self {
            Branch::Stable => "stable",
            Branch::Alpha => "alpha",
            Branch::Nightly => "nightly",
        }
    }
}

/// No two channels share a name.
pub proof fn branch_names_are_distinct(a: Branch, b: Branch)
    ensures
        branch_name(a) == branch_name(b) <==> a == b,
{
    reveal_strlit("stable");
    reveal_strlit("alpha");
    reveal_strlit("nightly");
    assert("stable"@.len() == 6 && "alpha"@.len() == 5 && "nightly"@.len() == 7);
}

/// The target that is built: the host's own, or one given by name.
#[derive(Debug, PartialEq, Eq)]
pub enum TargetSpec {
    OfficialNative,
    Triple(String),
}

impl Default for TargetSpec {
    fn default() -> (r: Self)
        ensures
            r is OfficialNative,
    {
        TargetSpec::OfficialNative
    }
}

impl Clone for TargetSpec {
    fn clone(&self) -> (r: Self)
        ensures
            target_name(r) == target_name(*self),
            r is OfficialNative == self is OfficialNative,
    {
        match self {
            TargetSpec::OfficialNative => TargetSpec::OfficialNative,
            TargetSpec::Triple(target) => TargetSpec::Triple(target.clone()),
        }
    }
}

/// How a target is written in the configuration file.
pub open spec fn target_name(t: TargetSpec) -> Seq<char> {
    match t {
        TargetSpec::OfficialNative => "native"@,
        TargetSpec::Triple(target) => target@,
    }
}

/// The target that was given by name, if one was.
pub open spec fn explicit_target(t: TargetSpec) -> Option<Seq<char>> {
    match t {
        TargetSpec::OfficialNative => None,
        TargetSpec::Triple(target) => Some(target@),
    }
}

/// What a configuration value names: the native target, or one given by name.
pub open spec fn parsed_target(value: Seq<char>) -> Result<Option<Seq<char>>, Seq<char>> {
    if value == "native"@ || value == "official-native"@ {
        Ok(None)
    } else if supported_targets().contains(value) {
        Ok(Some(value))
    } else {
        Err(unsupported_target_message(value))
    }
}

#[derive(Debug, Clone, Copy, PartialEq, Eq, Structural)]
pub enum FailureMode {
    Error,
    LastGood,
}

impl Default for FailureMode {
    fn default() -> (r: Self)
        ensures
            r == FailureMode::Error,
    {
        FailureMode::Error
    }
}

/// What a launch without a terminal does when a build is pending.
#[derive(Debug, Clone, Copy, PartialEq, Eq, Structural)]
pub enum NoninteractivePending {
    Auto,
    WarnRun,
    Error,
}

impl Default for NoninteractivePending {
    fn default() -> (r: Self)
        ensures
            r == NoninteractivePending::Auto,
    {
        NoninteractivePending::Auto
    }
}

#[derive(Debug, PartialEq, Eq)]
pub struct Config {
    pub schema: u32,
    pub branch: Branch,
    pub target: TargetSpec,
    pub failure_mode: FailureMode,
    pub noninteractive_pending: NoninteractivePending,
    /// Rebuild without asking when only the patch stack has changed.
    pub auto_rebuild_patches: bool,
}

impl Default for Config {
    fn default() -> (r: Self)
        ensures
            r.schema == CONFIG_SCHEMA,
            r.branch == Branch::Stable,
            r.target is OfficialNative,
            r.failure_mode == FailureMode::Error,
            r.noninteractive_pending == NoninteractivePending::Auto,
            r.auto_rebuild_patches,
    {
        Config {
            schema: CONFIG_SCHEMA,
            branch: Branch::Stable,
            target: TargetSpec::OfficialNative,
            failure_mode: FailureMode::Error,
            noninteractive_pending: NoninteractivePending::Auto,
            auto_rebuild_patches: true,
        }
    }
}

pub const SUPPORTED_TARGETS: [&'static str; 8] = [
    "aarch64-apple-darwin",
    "aarch64-pc-windows-msvc",
    "aarch64-unknown-linux-gnu",
    "aarch64-unknown-linux-musl",
    "x86_64-apple-darwin",
    "x86_64-pc-windows-msvc",
    "x86_64-unknown-linux-gnu",
    "x86_64-unknown-linux-musl",
];

pub open spec fn supported_targets() -> Seq<Seq<char>> {
    seq![
        "aarch64-apple-darwin"@,
        "aarch64-pc-windows-msvc"@,
        "aarch64-unknown-linux-gnu"@,
        "aarch64-unknown-linux-musl"@,
        "x86_64-apple-darwin"@,
        "x86_64-pc-windows-msvc"@,
        "x86_64-unknown-linux-gnu"@,
        "x86_64-unknown-linux-musl"@,
    ]
}

/// The targets that a host can build natively, its default first; none for an unknown
/// host.
pub open spec fn native_targets(os: Seq<char>, arch: Seq<char>) -> Seq<Seq<char>> {
    if os == "linux"@ && arch == "x86_64"@ {
        seq!["x86_64-unknown-linux-gnu"@, "x86_64-unknown-linux-musl"@]
    } else if os == "linux"@ && arch == "aarch64"@ {
        seq!["aarch64-unknown-linux-gnu"@, "aarch64-unknown-linux-musl"@]
    } else if os == "macos"@ && arch == "x86_64"@ {
        seq!["x86_64-apple-darwin"@]
    } else if os == "macos"@ && arch == "aarch64"@ {
        seq!["aarch64-apple-darwin"@]
    } else if os == "windows"@ && arch == "x86_64"@ {
        seq!["x86_64-pc-windows-msvc"@]
    } else if os == "windows"@ && arch == "aarch64"@ {
        seq!["aarch64-pc-windows-msvc"@]
    } else {
        Seq::empty()
    }
}

pub open spec fn unsupported_target_message(target: Seq<char>) -> Seq<char> {
    "unsupported target "@ + quoted(target) + "; supported targets: "@ + join(
        supported_targets(),
        ", "@,
    )
}

pub open spec fn unsupported_host_message(os: Seq<char>, arch: Seq<char>) -> Seq<char> {
    "unsupported host platform "@ + os + "/"@ + arch
}

pub open spec fn foreign_target_message(
    target: Seq<char>,
    os: Seq<char>,
    arch: Seq<char>,
) -> Seq<char> {
    "target "@ + quoted(target) + " does not match host platform "@ + os + "/"@ + arch
        + "; allowed targets: "@ + join(native_targets(os, arch), ", "@)
}

/// What an explicit target comes to on a host.
pub open spec fn target_check(target: Seq<char>, os: Seq<char>, arch: Seq<char>) -> Result<
    (),
    Seq<char>,
> {
    if !supported_targets().contains(target) {
        Err(unsupported_target_message(target))
    } else if native_targets(os, arch).len() == 0 {
        Err(unsupported_host_message(os, arch))
    } else if !native_targets(os, arch).contains(target) {
        Err(foreign_target_message(target, os, arch))
    } else {
        Ok(())
    }
}

pub open spec fn resolved(t: TargetSpec, os: Seq<char>, arch: Seq<char>) -> Result<
    Seq<char>,
    Seq<char>,
> {
    match t {
        TargetSpec::OfficialNative => if native_targets(os, arch).len() == 0 {
            Err(unsupported_host_message(os, arch))
        } else {
            Ok(native_targets(os, arch)[0])
        },
        TargetSpec::Triple(target) => match target_check(target@, os, arch) {
            Ok(_) => Ok(target@),
            Err(message) => Err(message),
        },
    }
}

fn supported_list() -> (r: Vec<String>)
    ensures
        texts(r@) == supported_targets(),
{
    let mut out: Vec<String> = Vec::new();
    let mut i: usize = 0;
    while i < 8
        invariant
            i <= 8,
            out@.len() == i,
            forall|j: int| 0 <= j < i ==> out@[j]@ == supported_targets()[j],
        decreases 8 - i,
    {
        out.push(SUPPORTED_TARGETS[i].to_owned());
        i = i + 1;
    }
    proof {
        assert(texts(out@) =~= supported_targets());
    }
    out
}

fn one(a: &str) -> (r: Vec<String>)
    ensures
        texts(r@) == seq![a@],
{
    let r = vec![a.to_owned()];
    proof {
        assert(texts(r@) =~= seq![a@]);
    }
    r
}

fn two(a: &str, b: &str) -> (r: Vec<String>)
    ensures
        texts(r@) == seq![a@, b@],
{
    let r = vec![a.to_owned(), b.to_owned()];
    proof {
        assert(texts(r@) =~= seq![a@, b@]);
    }
    r
}

fn targets_for_host(os: &str, arch: &str) -> (r: Vec<String>)
    ensures
        texts(r@) == native_targets(os@, arch@),
{
    if same(os, "linux") && same(arch, "x86_64") {
        two("x86_64-unknown-linux-gnu", "x86_64-unknown-linux-musl")
    } else if same(os, "linux") && same(arch, "aarch64") {
        two("aarch64-unknown-linux-gnu", "aarch64-unknown-linux-musl")
    } else if same(os, "macos") && same(arch, "x86_64") {
        one("x86_64-apple-darwin")
    } else if same(os, "macos") && same(arch, "aarch64") {
        one("aarch64-apple-darwin")
    } else if same(os, "windows") && same(arch, "x86_64") {
        one("x86_64-pc-windows-msvc")
    } else if same(os, "windows") && same(arch, "aarch64") {
        one("aarch64-pc-windows-msvc")
    } else {
        let none: Vec<String> = Vec::new();
        proof {
            assert(texts(none@) =~= Seq::<Seq<char>>::empty());
        }
        none
    }
}

fn unsupported_host(os: &str, arch: &str) -> (r: String)
    ensures
        r@ == unsupported_host_message(os@, arch@),
{
    let mut message = "unsupported host platform ".to_owned();
    message.append(os);
    message.append("/");
    message.append(arch);
    message
}

pub fn validate_target(target: &str) -> (r: Result<(), String>)
    ensures
        result_unit(r) == (if supported_targets().contains(target@) {
            Ok(())
        } else {
            Err(unsupported_target_message(target@))
        }),
{
    let supported = supported_list();
    if crate::text::holds(&supported, target) {
        Ok(())
    } else {
        let mut message = "unsupported target ".to_owned();
        message.append(quoted_text(target).as_str());
        message.append("; supported targets: ");
        message.append(join_texts(&supported, ", ").as_str());
        Err(message)
    }
}

/// An explicit target is accepted exactly when the host builds it natively.
pub fn validate_target_for_host(target: &str, os: &str, arch: &str) -> (r: Result<(), String>)
    ensures
        result_unit(r) == target_check(target@, os@, arch@),
{
    match validate_target(target) {
        Ok(()) => {},
        Err(message) => return Err(message),
    }
    let allowed = targets_for_host(os, arch);
    proof {
        assert(texts(allowed@).len() == allowed@.len());
    }
    if allowed.len() == 0 {
        return Err(unsupported_host(os, arch));
    }
    if crate::text::holds(&allowed, target) {
        Ok(())
    } else {
        let mut message = "target ".to_owned();
        message.append(quoted_text(target).as_str());
        message.append(" does not match host platform ");
        message.append(os);
        message.append("/");
        message.append(arch);
        message.append("; allowed targets: ");
        message.append(join_texts(&allowed, ", ").as_str());
        Err(message)
    }
}

/// The target that a host builds when none is given.
pub fn resolve_host_target(os: &str, arch: &str) -> (r: Result<String, String>)
    ensures
        result_text(r) == resolved(TargetSpec::OfficialNative, os@, arch@),
{
    let allowed = targets_for_host(os, arch);
    proof {
        assert(texts(allowed@).len() == allowed@.len());
    }
    if allowed.len() == 0 {
        return Err(unsupported_host(os, arch));
    }
    let target = allowed[0].clone();
    proof {
        assert(texts(allowed@)[0] == target@);
    }
    Ok(target)
}

impl TargetSpec {
    /// The target to build on the host `os`/`arch`.
    pub fn resolve(&self, os: &str, arch: &str) -> (r: Result<String, String>)
        ensures
            result_text(r) == resolved(*self, os@, arch@),
    {
        match self {
            TargetSpec::OfficialNative => resolve_host_target(os, arch),
            TargetSpec::Triple(target) => {
                match validate_target_for_host(target.as_str(), os, arch) {
                    Ok(()) => Ok(target.clone()),
                    Err(message) => Err(message),
                }
            },
        }
    }

    /// The target that a configuration value names.
    pub fn parse(value: &str) -> (r: Result<TargetSpec, String>)
        ensures
            match r {
                Ok(t) => parsed_target(value@) == Ok::<Option<Seq<char>>, Seq<char>>(
                    explicit_target(t),
                ),
                Err(e) => parsed_target(value@) == Err::<Option<Seq<char>>, Seq<char>>(e@),
            },
    {
        if same(value, "native") || same(value, "official-native") {
            Ok(TargetSpec::OfficialNative)
        } else {
            match validate_target(value) {
                Ok(()) => Ok(TargetSpec::Triple(value.to_owned())),
                Err(message) => Err(message),
            }
        }
    }

    /// The value that the configuration file holds for this target.
    pub fn name(&self) -> (r: String)
        ensures
            r@ == target_name(*self),
    {
        match self {
            TargetSpec::OfficialNative => "native".to_owned(),
            TargetSpec::Triple(target) => target.clone(),
        }
    }
}

impl Config {
    /// A configuration is valid when its schema is the current one and its target can be
    /// built on the host.
    pub fn validate(&self, os: &str, arch: &str) -> (r: Result<(), String>)
        ensures
            result_unit(r) == (if self.schema != CONFIG_SCHEMA {
                Err(
                    "unsupported config schema "@ + decimal(self.schema as nat) + "; expected "@
                        + decimal(CONFIG_SCHEMA as nat),
                )
            } else {
                match resolved(self.target, os@, arch@) {
                    Ok(_) => Ok(()),
                    Err(message) => Err(message),
                }
            }),
    {
        if self.schema != CONFIG_SCHEMA {
            let mut message = "unsupported config schema ".to_owned();
            message.append(decimal_text(self.schema as u64).as_str());
            message.append("; expected ");
            message.append(decimal_text(CONFIG_SCHEMA as u64).as_str());
            return Err(message);
        }
        match self.target.resolve(os, arch) {
            Ok(_) => Ok(()),
            Err(message) => Err(message),
        }
    }

    pub fn resolved_target(&self, os: &str, arch: &str) -> (r: Result<String, String>)
        ensures
            result_text(r) == resolved(self.target, os@, arch@),
    {
        self.target.resolve(os, arch)
    }
}

/// What is written for a target is read back as that target, when it is a supported one.
pub proof fn target_names_read_back(t: TargetSpec)
    requires
        t is Triple ==> supported_targets().contains(target_name(t)),
    ensures
        parsed_target(target_name(t)) == Ok::<Option<Seq<char>>, Seq<char>>(explicit_target(t)),
{
    reveal_strlit("native");
    reveal_strlit("official-native");
    reveal_strlit("aarch64-apple-darwin");
    reveal_strlit("aarch64-pc-windows-msvc");
    reveal_strlit("aarch64-unknown-linux-gnu");
    reveal_strlit("aarch64-unknown-linux-musl");
    reveal_strlit("x86_64-apple-darwin");
    reveal_strlit("x86_64-pc-windows-msvc");
    reveal_strlit("x86_64-unknown-linux-gnu");
    reveal_strlit("x86_64-unknown-linux-musl");
    assert("native"@.len() == 6 && "official-native"@.len() == 15);
    if t is Triple {
        let i = choose|i: int| 0 <= i < 8 && supported_targets()[i] == target_name(t);
        assert(supported_targets()[i].len() >= 19);
    }
}

/// Whatever a configuration resolves to is a target that its host builds natively, and
/// that target is again accepted by name.
pub proof fn resolved_targets_are_native(t: TargetSpec, os: Seq<char>, arch: Seq<char>)
    requires
        resolved(t, os, arch) is Ok,
    ensures
        native_targets(os, arch).contains(resolved(t, os, arch)->Ok_0),
        target_check(resolved(t, os, arch)->Ok_0, os, arch) is Ok,
{
    let s = supported_targets();
    assert(s[0] == "aarch64-apple-darwin"@ && s[1] == "aarch64-pc-windows-msvc"@ && s[2]
        == "aarch64-unknown-linux-gnu"@ && s[4] == "x86_64-apple-darwin"@ && s[5]
        == "x86_64-pc-windows-msvc"@ && s[6] == "x86_64-unknown-linux-gnu"@);
    if t is OfficialNative {
        let n = native_targets(os, arch);
        assert(n.contains(n[0]));
        assert(s.contains(n[0])) by {
            assert(s.contains(s[0]) && s.contains(s[1]) && s.contains(s[2]) && s.contains(s[4])
                && s.contains(s[5]) && s.contains(s[6]));
        }
    }
}

} // verus!
