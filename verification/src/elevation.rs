//! Narrow privilege elevation for launcher mutations. Discovery and builds stay in the
//! unelevated manager; a helper that runs with more rights does one checked operation.

use vstd::prelude::*;

use crate::outside::{u32_error, u32_error_text};
use crate::journal::{as_result, RepairOutcome};
use crate::paths::{
    file_name, file_name_of, is_absolute, join_path, joined, parent, parent_of, parts,
    path_is_absolute, same_path, Platform,
};
use crate::shim::{opt_parts, BaselineKind, BaselineView, RecordView, SurfaceRecord};
use crate::surface::{schema_check, validate_record};
use crate::text::{
    chars_of, decimal, decimal_text, ends_with, result_text, result_unit, same, starts_with, texts,
};
use crate::upstream_cache::{parse_u64, parsed_u64};

verus! {

pub const HELPER_COMMAND: &'static str = "__elevated-shim-helper";

pub const WIRE_SCHEMA: u32 = 1;

pub const MAX_WIRE_BYTES: u64 = 16_777_216;

/// What the helper is asked to do.
#[derive(Debug)]
pub enum ElevationRequest {
    Install { surface: String, manager: String, backups_dir: String },
    Uninstall { record: SurfaceRecord, backups_dir: String },
    Repair { record: SurfaceRecord, manager: String, backups_dir: String, adopt: bool },
}

pub enum RequestView {
    Install { surface: Seq<char>, manager: Seq<char>, backups_dir: Seq<char> },
    Uninstall { record: RecordView, backups_dir: Seq<char> },
    Repair { record: RecordView, manager: Seq<char>, backups_dir: Seq<char>, adopt: bool },
}

impl View for ElevationRequest {
    type V = RequestView;

    open spec fn view(&self) -> RequestView {
        match self {
            ElevationRequest::Install { surface, manager, backups_dir } => RequestView::Install {
                surface: surface@,
                manager: manager@,
                backups_dir: backups_dir@,
            },
            ElevationRequest::Uninstall { record, backups_dir } => RequestView::Uninstall {
                record: record@,
                backups_dir: backups_dir@,
            },
            ElevationRequest::Repair { record, manager, backups_dir, adopt } => RequestView::Repair {
                record: record@,
                manager: manager@,
                backups_dir: backups_dir@,
                adopt: *adopt,
            },
        }
    }
}

/// What the helper answers.
#[derive(Debug)]
pub enum ElevationResponse {
    Installed { record: SurfaceRecord },
    Uninstalled,
    Repaired { record: SurfaceRecord, outcome: RepairOutcome },
    Error { message: String },
}

pub enum ResponseView {
    Installed { record: RecordView },
    Uninstalled,
    Repaired { record: RecordView, outcome: RepairOutcome },
    Error { message: Seq<char> },
}

impl View for ElevationResponse {
    type V = ResponseView;

    open spec fn view(&self) -> ResponseView {
        match self {
            ElevationResponse::Installed { record } => ResponseView::Installed { record: record@ },
            ElevationResponse::Uninstalled => ResponseView::Uninstalled,
            ElevationResponse::Repaired { record, outcome } => ResponseView::Repaired {
                record: record@,
                outcome: *outcome,
            },
            ElevationResponse::Error { message } => ResponseView::Error { message: message@ },
        }
    }
}

/// An operation that failed; `denied` when it lacked the permission.
#[derive(Debug)]
pub struct Denial {
    pub message: String,
    pub denied: bool,
}

/// A path as seen from the current directory, when that is known.
pub open spec fn absolute(
    platform: Platform,
    path: Seq<char>,
    cwd: Result<Seq<char>, Seq<char>>,
) -> Result<Seq<char>, Seq<char>> {
    if is_absolute(platform, path) {
        Ok(path)
    } else {
        match cwd {
            Ok(dir) => Ok(join_path(platform, dir, path)),
            Err(message) => Err(message),
        }
    }
}

pub fn absolute_path(
    platform: Platform,
    path: &str,
    cwd: &Result<String, String>,
) -> (r: Result<String, String>)
    ensures
        result_text(r) == absolute(platform, path@, result_text(*cwd)),
{
    if path_is_absolute(platform, path) {
        return Ok(path.to_owned());
    }
    match cwd {
        Ok(dir) => Ok(joined(platform, dir.as_str(), path)),
        Err(message) => Err(message.clone()),
    }
}

/// Two paths lead to the same place, as far as the current directory tells.
pub open spec fn same_place(
    platform: Platform,
    a: Seq<char>,
    b: Seq<char>,
    cwd: Result<Seq<char>, Seq<char>>,
) -> bool {
    match (absolute(platform, a, cwd), absolute(platform, b, cwd)) {
        (Ok(x), Ok(y)) => parts(platform, x) == parts(platform, y),
        (Err(_), Err(_)) => true,
        _ => false,
    }
}

pub fn same_absolute_path(
    platform: Platform,
    left: &str,
    right: &str,
    cwd: &Result<String, String>,
) -> (r: bool)
    ensures
        r == same_place(platform, left@, right@, result_text(*cwd)),
{
    match (absolute_path(platform, left, cwd), absolute_path(platform, right, cwd)) {
        (Ok(x), Ok(y)) => same_path(platform, x.as_str(), y.as_str()),
        (Err(_), Err(_)) => true,
        _ => false,
    }
}

/// How an installation goes on.
#[derive(Debug)]
pub enum InstallStep {
    Installed(SurfaceRecord),
    /// Recover the takeovers that the attempt may have begun.
    Recover,
    /// Ask the helper.
    Elevate(ElevationRequest),
}

pub enum InstallStepView {
    Installed(RecordView),
    Recover,
    Elevate(RequestView),
}

impl View for InstallStep {
    type V = InstallStepView;

    open spec fn view(&self) -> InstallStepView {
        match self {
            InstallStep::Installed(record) => InstallStepView::Installed(record@),
            InstallStep::Recover => InstallStepView::Recover,
            InstallStep::Elevate(request) => InstallStepView::Elevate(request@),
        }
    }
}

pub open spec fn install_result(r: Result<InstallStep, String>) -> Result<
    InstallStepView,
    Seq<char>,
> {
    match r {
        Ok(step) => Ok(step@),
        Err(message) => Err(message@),
    }
}

/// The first of the records that redirects the surface to the manager.
pub open spec fn recovered_takeover(
    platform: Platform,
    records: Seq<SurfaceRecord>,
    surface: Seq<char>,
    manager: Seq<char>,
    cwd: Result<Seq<char>, Seq<char>>,
) -> Option<RecordView>
    decreases records.len(),
{
    if records.len() == 0 {
        None
    } else if same_place(platform, records[0]@.surface, surface, cwd) && same_place(
        platform,
        records[0]@.installed.manager,
        manager,
        cwd,
    ) {
        Some(records[0]@)
    } else {
        recovered_takeover(platform, records.drop_first(), surface, manager, cwd)
    }
}

pub open spec fn install_request(
    platform: Platform,
    surface: Seq<char>,
    manager: Seq<char>,
    backups_dir: Seq<char>,
    cwd: Result<Seq<char>, Seq<char>>,
) -> Result<InstallStepView, Seq<char>> {
    match (absolute(platform, surface, cwd), absolute(platform, manager, cwd), absolute(platform, backups_dir, cwd)) {
        (Ok(s), Ok(m), Ok(b)) => Ok(
            InstallStepView::Elevate(
                RequestView::Install { surface: s, manager: m, backups_dir: b },
            ),
        ),
        _ => Err(cwd->Err_0),
    }
}

/// An installation is elevated only when it lacked a permission and left nothing behind.
pub open spec fn next_install(
    platform: Platform,
    direct: Result<SurfaceRecord, Denial>,
    recovered: Option<Result<Vec<SurfaceRecord>, Denial>>,
    surface: Seq<char>,
    manager: Seq<char>,
    backups_dir: Seq<char>,
    cwd: Result<Seq<char>, Seq<char>>,
) -> Result<InstallStepView, Seq<char>> {
    match direct {
        Ok(record) => Ok(InstallStepView::Installed(record@)),
        Err(failure) => if !failure.denied {
            Err(failure.message@)
        } else {
            match recovered {
                None => Ok(InstallStepView::Recover),
                Some(Err(second)) => if second.denied {
                    install_request(platform, surface, manager, backups_dir, cwd)
                } else {
                    Err(second.message@)
                },
                Some(Ok(records)) => match recovered_takeover(
                    platform,
                    records@,
                    surface,
                    manager,
                    cwd,
                ) {
                    Some(record) => Ok(InstallStepView::Installed(record)),
                    None => if records@.len() > 0 {
                        Err(
                            "a different completed takeover was recovered; refusing to overwrite it during elevation"@,
                        )
                    } else {
                        install_request(platform, surface, manager, backups_dir, cwd)
                    },
                },
            }
        },
    }
}

fn find_takeover(
    platform: Platform,
    records: &Vec<SurfaceRecord>,
    surface: &str,
    manager: &str,
    cwd: &Result<String, String>,
) -> (r: Option<SurfaceRecord>)
    ensures
        match r {
            Some(record) => recovered_takeover(
                platform,
                records@,
                surface@,
                manager@,
                result_text(*cwd),
            )
                == Some(record@),
            None => recovered_takeover(
                platform,
                records@,
                surface@,
                manager@,
                result_text(*cwd),
            ) is None,
        },
{
    let ghost there = result_text(*cwd);
    let mut i: usize = 0;
    proof {
        assert(records@.skip(0) =~= records@);
    }
    while i < records.len()
        invariant
            i <= records@.len(),
            there == result_text(*cwd),
            recovered_takeover(platform, records@, surface@, manager@, there) == recovered_takeover(
                platform,
                records@.skip(i as int),
                surface@,
                manager@,
                there,
            ),
        decreases records@.len() - i,
    {
        proof {
            assert(records@.skip(i as int)[0] == records@[i as int]);
            assert(records@.skip(i as int).drop_first() =~= records@.skip(i as int + 1));
        }
        if same_absolute_path(
            platform,
            records[i].surface.as_str(),
            surface,
            cwd,
        ) && same_absolute_path(
            platform,
            records[i].installed.manager.as_str(),
            manager,
            cwd,
        ) {
            return Some(records[i].clone());
        }
        i = i + 1;
    }
    None
}

fn elevate_install(
    platform: Platform,
    surface: &str,
    manager: &str,
    backups_dir: &str,
    cwd: &Result<String, String>,
) -> (r: Result<InstallStep, String>)
    ensures
        install_result(r) == install_request(
            platform,
            surface@,
            manager@,
            backups_dir@,
            result_text(*cwd),
        ),
{
    let surface = match absolute_path(platform, surface, cwd) {
        Ok(path) => path,
        Err(message) => return Err(message),
    };
    let manager = match absolute_path(platform, manager, cwd) {
        Ok(path) => path,
        Err(message) => return Err(message),
    };
    let backups_dir = match absolute_path(platform, backups_dir, cwd) {
        Ok(path) => path,
        Err(message) => return Err(message),
    };
    Ok(InstallStep::Elevate(ElevationRequest::Install { surface, manager, backups_dir }))
}

/// How an installation goes on after the direct attempt, and after recovering what that
/// attempt may have begun.
pub fn install_redirect(
    platform: Platform,
    direct: &Result<SurfaceRecord, Denial>,
    recovered: &Option<Result<Vec<SurfaceRecord>, Denial>>,
    surface: &str,
    manager: &str,
    backups_dir: &str,
    cwd: &Result<String, String>,
) -> (r: Result<InstallStep, String>)
    ensures
        install_result(r) == next_install(
            platform,
            *direct,
            *recovered,
            surface@,
            manager@,
            backups_dir@,
            result_text(*cwd),
        ),
{
    match direct {
        Ok(record) => return Ok(InstallStep::Installed(record.clone())),
        Err(failure) => {
            if !failure.denied {
                return Err(failure.message.clone());
            }
        },
    }
    match recovered {
        None => Ok(InstallStep::Recover),
        Some(Err(second)) => {
            if second.denied {
                elevate_install(platform, surface, manager, backups_dir, cwd)
            } else {
                Err(second.message.clone())
            }
        },
        Some(Ok(records)) => {
            if let Some(record) = find_takeover(platform, records, surface, manager, cwd) {
                return Ok(InstallStep::Installed(record));
            }
            if records.len() > 0 {
                return Err(
                    "a different completed takeover was recovered; refusing to overwrite it during elevation".to_owned(),
                );
            }
            elevate_install(platform, surface, manager, backups_dir, cwd)
        },
    }
}

pub open spec fn request_result(r: Result<Option<ElevationRequest>, String>) -> Result<
    Option<RequestView>,
    Seq<char>,
> {
    match r {
        Ok(Some(request)) => Ok(Some(request@)),
        Ok(None) => Ok(None),
        Err(message) => Err(message@),
    }
}

/// What the helper is asked after the direct removal of a redirect, if anything.
pub fn uninstall_redirect(
    platform: Platform,
    direct: &Result<(), Denial>,
    record: &SurfaceRecord,
    backups_dir: &str,
    cwd: &Result<String, String>,
) -> (r: Result<Option<ElevationRequest>, String>)
    ensures
        request_result(r) == (match direct {
            Ok(_) => Ok(None),
            Err(failure) => if !failure.denied {
                Err(failure.message@)
            } else {
                match absolute(platform, backups_dir@, result_text(*cwd)) {
                    Ok(dir) => Ok(
                        Some(RequestView::Uninstall { record: record@, backups_dir: dir }),
                    ),
                    Err(message) => Err(message),
                }
            },
        }),
{
    match direct {
        Ok(()) => return Ok(None),
        Err(failure) => {
            if !failure.denied {
                return Err(failure.message.clone());
            }
        },
    }
    match absolute_path(platform, backups_dir, cwd) {
        Ok(dir) => Ok(
            Some(ElevationRequest::Uninstall { record: record.clone(), backups_dir: dir }),
        ),
        Err(message) => Err(message),
    }
}

/// What the helper is asked after the direct repair of a redirect, if anything.
pub fn repair_redirect(
    platform: Platform,
    direct: &Result<(), Denial>,
    record: &SurfaceRecord,
    manager: &str,
    backups_dir: &str,
    adopt: bool,
    cwd: &Result<String, String>,
) -> (r: Result<Option<ElevationRequest>, String>)
    ensures
        request_result(r) == (match direct {
            Ok(_) => Ok(None),
            Err(failure) => if !failure.denied {
                Err(failure.message@)
            } else {
                match (
                    absolute(platform, manager@, result_text(*cwd)),
                    absolute(platform, backups_dir@, result_text(*cwd)),
                ) {
                    (Ok(m), Ok(b)) => Ok(
                        Some(
                            RequestView::Repair {
                                record: record@,
                                manager: m,
                                backups_dir: b,
                                adopt,
                            },
                        ),
                    ),
                    _ => Err(result_text(*cwd)->Err_0),
                }
            },
        }),
{
    match direct {
        Ok(()) => return Ok(None),
        Err(failure) => {
            if !failure.denied {
                return Err(failure.message.clone());
            }
        },
    }
    let manager = match absolute_path(platform, manager, cwd) {
        Ok(path) => path,
        Err(message) => return Err(message),
    };
    let backups_dir = match absolute_path(platform, backups_dir, cwd) {
        Ok(path) => path,
        Err(message) => return Err(message),
    };
    Ok(
        Some(
            ElevationRequest::Repair { record: record.clone(), manager, backups_dir, adopt },
        ),
    )
}

/// Whether the arguments call the helper, and with which request and response paths.
pub fn helper_entrypoint(arguments: &Vec<String>) -> (r: Result<Option<(String, String)>, String>)
    ensures
        ({
            let words = texts(arguments@);
            if words.len() < 2 || words[1] != HELPER_COMMAND@ {
                r matches Ok(None)
            } else if words.len() != 4 {
                r matches Err(e) && e@ == HELPER_COMMAND@
                    + " requires exactly a request and response path"@
            } else {
                r matches Ok(Some(paths)) && paths.0@ == words[2] && paths.1@ == words[3]
            }
        }),
{
    let ghost words = texts(arguments@);
    if arguments.len() < 2 {
        return Ok(None);
    }
    proof {
        assert(words[1] == arguments@[1]@);
    }
    if !same(arguments[1].as_str(), HELPER_COMMAND) {
        return Ok(None);
    }
    if arguments.len() != 4 {
        let mut message = HELPER_COMMAND.to_owned();
        message.append(" requires exactly a request and response path");
        return Err(message);
    }
    Ok(Some((arguments[2].clone(), arguments[3].clone())))
}

pub open spec fn exchange_problem(
    platform: Platform,
    request: Seq<char>,
    response: Seq<char>,
) -> Option<Seq<char>> {
    if !is_absolute(platform, request) || !is_absolute(platform, response) {
        Some("elevation exchange paths must be absolute"@)
    } else if parts(platform, request) == parts(platform, response) || file_name(platform, request) != Some("request.json"@) {
        Some("invalid elevation request path"@)
    } else if file_name(platform, response) != Some("response.json"@) {
        Some("invalid elevation response path"@)
    } else if opt_parts(platform, parent(platform, request)) != opt_parts(
        platform,
        parent(platform, response),
    ) {
        Some("elevation exchange files must share one private directory"@)
    } else {
        None
    }
}

fn is_named(platform: Platform, path: &str, name: &str) -> (r: bool)
    ensures
        r == (file_name(platform, path@) == Some(name@)),
{
    match file_name_of(platform, path) {
        Some(found) => same(found.as_str(), name),
        None => false,
    }
}

/// The two files of an exchange have their names and one directory.
pub fn validate_exchange_paths(
    platform: Platform,
    request: &str,
    response: &str,
) -> (r: Result<(), String>)
    ensures
        result_unit(r) == as_result(exchange_problem(platform, request@, response@)),
{
    if !path_is_absolute(platform, request) || !path_is_absolute(platform, response) {
        return Err("elevation exchange paths must be absolute".to_owned());
    }
    if same_path(platform, request, response) || !is_named(platform, request, "request.json") {
        return Err("invalid elevation request path".to_owned());
    }
    if !is_named(platform, response, "response.json") {
        return Err("invalid elevation response path".to_owned());
    }
    if !crate::shim::same_opt_path(
        platform,
        &parent_of(platform, request),
        &parent_of(platform, response),
    ) {
        return Err("elevation exchange files must share one private directory".to_owned());
    }
    Ok(())
}

pub open spec fn wire_schema_problem(schema: u32) -> Option<Seq<char>> {
    if schema == WIRE_SCHEMA {
        None
    } else {
        Some(
            "unsupported elevation request schema "@ + decimal(schema as nat) + " (expected "@
                + decimal(WIRE_SCHEMA as nat) + ")"@,
        )
    }
}

pub fn validate_schema(schema: u32) -> (r: Result<(), String>)
    ensures
        result_unit(r) == as_result(wire_schema_problem(schema)),
{
    if schema == WIRE_SCHEMA {
        return Ok(());
    }
    let mut message = "unsupported elevation request schema ".to_owned();
    message.append(decimal_text(schema as u64).as_str());
    message.append(" (expected ");
    message.append(decimal_text(WIRE_SCHEMA as u64).as_str());
    message.append(")");
    Err(message)
}

/// The length of an exchange file that is read.
pub fn check_wire_length(length: u64) -> (r: Result<(), String>)
    ensures
        result_unit(r) == (if 0 < length <= MAX_WIRE_BYTES {
            Ok(())
        } else {
            Err("elevation exchange has invalid length "@ + decimal(length as nat))
        }),
{
    if 0 < length && length <= MAX_WIRE_BYTES {
        return Ok(());
    }
    let mut message = "elevation exchange has invalid length ".to_owned();
    message.append(decimal_text(length).as_str());
    Err(message)
}

/// The length of an exchange file that is written.
pub fn check_wire_size(length: u64) -> (r: Result<(), String>)
    ensures
        result_unit(r) == (if length <= MAX_WIRE_BYTES {
            Ok(())
        } else {
            Err("elevation exchange is too large"@)
        }),
{
    if length <= MAX_WIRE_BYTES {
        return Ok(());
    }
    Err("elevation exchange is too large".to_owned())
}

/// Who called the helper.
#[derive(Debug, Clone, Copy, PartialEq, Eq, Structural)]
pub struct HelperIdentity {
    pub uid: u32,
    pub gid: u32,
}

/// An id that `sudo` passes on. `value` is the variable, or why it cannot be read.
pub open spec fn sudo_id(name: Seq<char>, value: Result<Seq<char>, Seq<char>>) -> Result<
    u32,
    Seq<char>,
> {
    match value {
        Err(message) => Err("sudo did not provide "@ + name + ": "@ + message),
        Ok(text) => match u32_error(text) {
            Some(cause) => Err("sudo provided an invalid "@ + name + ": "@ + cause),
            None => Ok(parsed_u64(text)->0 as u32),
        },
    }
}

pub open spec fn id_result(r: Result<u32, String>) -> Result<u32, Seq<char>> {
    match r {
        Ok(n) => Ok(n),
        Err(message) => Err(message@),
    }
}

pub fn parse_sudo_id(name: &str, value: &Result<String, String>) -> (r: Result<u32, String>)
    ensures
        id_result(r) == sudo_id(name@, result_text(*value)),
{
    match value {
        Err(message) => {
            let mut text = "sudo did not provide ".to_owned();
            text.append(name);
            text.append(": ");
            text.append(message.as_str());
            Err(text)
        },
        Ok(text) => {
            let cause = u32_error_text(text.as_str());
            match (parse_u64(text.as_str()), cause) {
                (Some(n), None) => Ok(n as u32),
                (_, cause) => {
                    let mut message = "sudo provided an invalid ".to_owned();
                    message.append(name);
                    message.append(": ");
                    if let Some(cause) = cause {
                        message.append(cause.as_str());
                    }
                    Err(message)
                },
            }
        },
    }
}

pub open spec fn identity_result(r: Result<HelperIdentity, String>) -> Result<
    HelperIdentity,
    Seq<char>,
> {
    match r {
        Ok(identity) => Ok(identity),
        Err(message) => Err(message@),
    }
}

/// The caller of a helper that runs as root through `sudo`. A request that root itself
/// made is refused.
pub open spec fn caller(
    effective_uid: u32,
    uid: Result<Seq<char>, Seq<char>>,
    gid: Result<Seq<char>, Seq<char>>,
) -> Result<HelperIdentity, Seq<char>> {
    if effective_uid != 0 {
        Err("privileged launcher helper must run as root through sudo"@)
    } else {
        match (sudo_id("SUDO_UID"@, uid), sudo_id("SUDO_GID"@, gid)) {
            (Err(message), _) => Err(message),
            (Ok(_), Err(message)) => Err(message),
            (Ok(u), Ok(g)) => if u == 0 {
                Err("privileged launcher helper refuses a root-origin request"@)
            } else {
                Ok(HelperIdentity { uid: u, gid: g })
            },
        }
    }
}

pub fn helper_identity(
    effective_uid: u32,
    uid: &Result<String, String>,
    gid: &Result<String, String>,
) -> (r: Result<HelperIdentity, String>)
    ensures
        identity_result(r) == caller(effective_uid, result_text(*uid), result_text(*gid)),
{
    if effective_uid != 0 {
        return Err("privileged launcher helper must run as root through sudo".to_owned());
    }
    let uid = match parse_sudo_id("SUDO_UID", uid) {
        Ok(n) => n,
        Err(message) => return Err(message),
    };
    let gid = match parse_sudo_id("SUDO_GID", gid) {
        Ok(n) => n,
        Err(message) => return Err(message),
    };
    if uid == 0 {
        return Err("privileged launcher helper refuses a root-origin request".to_owned());
    }
    Ok(HelperIdentity { uid, gid })
}

#[derive(Debug, Clone, Copy, PartialEq, Eq, Structural)]
pub enum EntryType {
    File,
    Directory,
    Symlink,
    Other,
}

/// What the file system says of a path, links not followed. On Windows `owner` is how the
/// check of its access list went.
#[derive(Debug)]
pub struct EntryFacts {
    pub kind: EntryType,
    pub length: u64,
    pub uid: u32,
    pub links: u64,
    pub mode: u32,
    pub owner: Result<(), String>,
}

pub open spec fn windows_problem(facts: EntryFacts) -> Option<Seq<char>> {
    match facts.owner {
        Ok(_) => None,
        Err(message) => Some(message@),
    }
}

/// What is wrong with a file of the exchange: it must be the caller's alone.
pub open spec fn endpoint_problem(
    path: Seq<char>,
    facts: EntryFacts,
    identity: HelperIdentity,
    platform: Platform,
) -> Option<Seq<char>> {
    if facts.kind != EntryType::File {
        Some("elevation endpoint is not a regular file: "@ + path)
    } else if facts.length > MAX_WIRE_BYTES {
        Some("elevation endpoint is too large: "@ + path)
    } else {
        match platform {
            Platform::Windows => windows_problem(facts),
            Platform::Posix => if facts.uid != identity.uid || facts.links != 1 || facts.mode & 0o077
                != 0 {
                Some("elevation endpoint is not a private caller-owned file: "@ + path)
            } else {
                None
            },
        }
    }
}

fn owner_check(facts: &EntryFacts) -> (r: Result<(), String>)
    ensures
        result_unit(r) == as_result(windows_problem(*facts)),
{
    match &facts.owner {
        Ok(()) => Ok(()),
        Err(message) => Err(message.clone()),
    }
}

pub fn validate_endpoint_metadata(
    path: &str,
    facts: &EntryFacts,
    identity: HelperIdentity,
    platform: Platform,
) -> (r: Result<(), String>)
    ensures
        result_unit(r) == as_result(endpoint_problem(path@, *facts, identity, platform)),
{
    if facts.kind != EntryType::File {
        let mut message = "elevation endpoint is not a regular file: ".to_owned();
        message.append(path);
        return Err(message);
    }
    if facts.length > MAX_WIRE_BYTES {
        let mut message = "elevation endpoint is too large: ".to_owned();
        message.append(path);
        return Err(message);
    }
    match platform {
        Platform::Windows => owner_check(facts),
        Platform::Posix => {
            if facts.uid != identity.uid || facts.links != 1 || facts.mode & 0o077 != 0 {
                let mut message =
                    "elevation endpoint is not a private caller-owned file: ".to_owned();
                message.append(path);
                return Err(message);
            }
            Ok(())
        },
    }
}

/// What is wrong with the directory of an exchange.
pub open spec fn exchange_directory_problem(
    path: Seq<char>,
    facts: EntryFacts,
    identity: HelperIdentity,
    platform: Platform,
) -> Option<Seq<char>> {
    if facts.kind != EntryType::Directory {
        Some("elevation exchange parent is not a real directory"@)
    } else {
        match platform {
            Platform::Windows => windows_problem(facts),
            Platform::Posix => if facts.uid != identity.uid || facts.mode & 0o077 != 0 {
                Some("elevation exchange directory is not private and caller-owned: "@ + path)
            } else {
                None
            },
        }
    }
}

pub fn validate_private_directory(
    path: &str,
    facts: &EntryFacts,
    identity: HelperIdentity,
    platform: Platform,
) -> (r: Result<(), String>)
    ensures
        result_unit(r) == as_result(exchange_directory_problem(path@, *facts, identity, platform)),
{
    if facts.kind != EntryType::Directory {
        return Err("elevation exchange parent is not a real directory".to_owned());
    }
    match platform {
        Platform::Windows => owner_check(facts),
        Platform::Posix => {
            if facts.uid != identity.uid || facts.mode & 0o077 != 0 {
                let mut message =
                    "elevation exchange directory is not private and caller-owned: ".to_owned();
                message.append(path);
                return Err(message);
            }
            Ok(())
        },
    }
}

/// What is wrong with the directory of backups: it must belong to the caller, and nobody
/// else may write to it.
pub open spec fn backups_problem(
    path: Seq<char>,
    facts: Result<EntryFacts, String>,
    identity: HelperIdentity,
    platform: Platform,
) -> Option<Seq<char>> {
    if !is_absolute(platform, path) {
        Some("backup directory path must be absolute"@)
    } else {
        match facts {
            Err(message) => Some("inspect backup directory "@ + path + ": "@ + message@),
            Ok(facts) => if facts.kind != EntryType::Directory {
                Some("backup directory is not a real directory: "@ + path)
            } else {
                match platform {
                    Platform::Windows => windows_problem(facts),
                    Platform::Posix => if facts.uid != identity.uid || facts.mode & 0o022 != 0 {
                        Some(
                            "backup directory is not safely owned by the sudo caller: "@ + path,
                        )
                    } else {
                        None
                    },
                }
            },
        }
    }
}

pub fn validate_backups_directory(
    path: &str,
    facts: &Result<EntryFacts, String>,
    identity: HelperIdentity,
    platform: Platform,
) -> (r: Result<(), String>)
    ensures
        result_unit(r) == as_result(backups_problem(path@, *facts, identity, platform)),
{
    if !path_is_absolute(platform, path) {
        return Err("backup directory path must be absolute".to_owned());
    }
    match facts {
        Err(inner) => {
            let mut message = "inspect backup directory ".to_owned();
            message.append(path);
            message.append(": ");
            message.append(inner.as_str());
            Err(message)
        },
        Ok(facts) => {
            if facts.kind != EntryType::Directory {
                let mut message = "backup directory is not a real directory: ".to_owned();
                message.append(path);
                return Err(message);
            }
            match platform {
                Platform::Windows => owner_check(facts),
                Platform::Posix => {
                    if facts.uid != identity.uid || facts.mode & 0o022 != 0 {
                        let mut message =
                            "backup directory is not safely owned by the sudo caller: ".to_owned();
                        message.append(path);
                        return Err(message);
                    }
                    Ok(())
                },
            }
        },
    }
}

/// What is wrong with a launcher's path.
pub open spec fn surface_problem(platform: Platform, surface: Seq<char>) -> Option<Seq<char>> {
    if !is_absolute(platform, surface) {
        Some("launcher surface path must be absolute"@)
    } else if parent(platform, surface) is None || file_name(platform, surface) is None {
        Some("launcher surface must name a file"@)
    } else {
        None
    }
}

pub fn validate_surface(platform: Platform, surface: &str) -> (r: Result<(), String>)
    ensures
        result_unit(r) == as_result(surface_problem(platform, surface@)),
{
    if !path_is_absolute(platform, surface) {
        return Err("launcher surface path must be absolute".to_owned());
    }
    if parent_of(platform, surface).is_none() || file_name_of(platform, surface).is_none() {
        return Err("launcher surface must name a file".to_owned());
    }
    Ok(())
}

/// What is found of a record's backup.
#[derive(Debug)]
pub struct BackupFacts {
    /// The directory of backups, with every link followed.
    pub expected_parent: Result<String, String>,
    /// The directory of the backup, with every link followed.
    pub actual_parent: Result<String, String>,
    pub entry: Result<EntryFacts, String>,
}

/// What is wrong with a backup: it must lie in the directory of backups, be a file without
/// other names, and belong to the caller or, after an interrupted helper, to root.
pub open spec fn backup_problem(
    backup: Seq<char>,
    facts: BackupFacts,
    identity: HelperIdentity,
    platform: Platform,
) -> Option<Seq<char>> {
    match result_text(facts.expected_parent) {
        Err(message) => Some(message),
        Ok(expected) => if parent(platform, backup) is None {
            Some("baseline backup has no parent directory"@)
        } else {
            match result_text(facts.actual_parent) {
                Err(message) => Some(message),
                Ok(actual) => if parts(platform, actual) != parts(platform, expected) {
                    Some("surface record baseline is outside the requested backup directory"@)
                } else {
                    match facts.entry {
                        Err(message) => Some(
                            "inspect baseline backup "@ + backup + ": "@ + message@,
                        ),
                        Ok(entry) => if entry.kind != EntryType::File {
                            Some(
                                "surface record baseline backup is not a regular file: "@ + backup,
                            )
                        } else {
                            match platform {
                                Platform::Windows => windows_problem(entry),
                                Platform::Posix => if entry.uid != identity.uid && entry.uid
                                    != 0 {
                                    Some(
                                        "baseline backup has an unexpected owner: "@ + backup,
                                    )
                                } else if entry.links != 1 {
                                    Some("baseline backup has multiple hard links: "@ + backup)
                                } else {
                                    None
                                },
                            }
                        },
                    }
                },
            }
        },
    }
}

fn check_backup(
    backup: &str,
    facts: &BackupFacts,
    identity: HelperIdentity,
    platform: Platform,
) -> (r: Result<(), String>)
    ensures
        result_unit(r) == as_result(backup_problem(backup@, *facts, identity, platform)),
{
    let expected = match &facts.expected_parent {
        Ok(path) => path,
        Err(message) => return Err(message.clone()),
    };
    if parent_of(platform, backup).is_none() {
        return Err("baseline backup has no parent directory".to_owned());
    }
    match &facts.actual_parent {
        Err(message) => return Err(message.clone()),
        Ok(actual) => {
            if !same_path(platform, actual.as_str(), expected.as_str()) {
                return Err(
                    "surface record baseline is outside the requested backup directory".to_owned(),
                );
            }
        },
    }
    let entry = match &facts.entry {
        Ok(entry) => entry,
        Err(inner) => {
            let mut message = "inspect baseline backup ".to_owned();
            message.append(backup);
            message.append(": ");
            message.append(inner.as_str());
            return Err(message);
        },
    };
    if entry.kind != EntryType::File {
        let mut message = "surface record baseline backup is not a regular file: ".to_owned();
        message.append(backup);
        return Err(message);
    }
    match platform {
        Platform::Windows => owner_check(entry),
        Platform::Posix => {
            if entry.uid != identity.uid && entry.uid != 0 {
                let mut message = "baseline backup has an unexpected owner: ".to_owned();
                message.append(backup);
                return Err(message);
            }
            if entry.links != 1 {
                let mut message = "baseline backup has multiple hard links: ".to_owned();
                message.append(backup);
                return Err(message);
            }
            Ok(())
        },
    }
}

/// A baseline says what it must for its kind, and nothing else.
pub open spec fn consistent_baseline(b: BaselineView) -> bool {
    match b.kind {
        BaselineKind::Missing => b.backup_path is None && b.symlink_target is None && b.sha256
            is None,
        BaselineKind::File => b.backup_path is Some && b.symlink_target is None && b.sha256 is Some,
        BaselineKind::Symlink => b.backup_path is None && b.symlink_target is Some && b.sha256
            is Some,
    }
}

pub open spec fn record_problem(
    record: RecordView,
    facts: BackupFacts,
    identity: HelperIdentity,
    platform: Platform,
) -> Option<Seq<char>> {
    if schema_check(record.schema) is Err {
        Some(schema_check(record.schema)->Err_0)
    } else if surface_problem(platform, record.surface) is Some {
        surface_problem(platform, record.surface)
    } else if !is_absolute(platform, record.installed.manager) {
        Some("surface record manager path must be absolute"@)
    } else if record.baseline.backup_path is Some && backup_problem(
        record.baseline.backup_path->0,
        facts,
        identity,
        platform,
    ) is Some {
        backup_problem(record.baseline.backup_path->0, facts, identity, platform)
    } else if !consistent_baseline(record.baseline) {
        Some("surface record contains inconsistent baseline metadata"@)
    } else {
        None
    }
}

pub fn validate_surface_record(
    record: &SurfaceRecord,
    facts: &BackupFacts,
    identity: HelperIdentity,
    platform: Platform,
) -> (r: Result<(), String>)
    ensures
        result_unit(r) == as_result(record_problem(record@, *facts, identity, platform)),
{
    match validate_record(record) {
        Ok(()) => {},
        Err(message) => return Err(message),
    }
    match validate_surface(platform, record.surface.as_str()) {
        Ok(()) => {},
        Err(message) => return Err(message),
    }
    if !path_is_absolute(platform, record.installed.manager.as_str()) {
        return Err("surface record manager path must be absolute".to_owned());
    }
    let b = &record.baseline;
    if let Some(backup) = &b.backup_path {
        match check_backup(backup.as_str(), facts, identity, platform) {
            Ok(()) => {},
            Err(message) => return Err(message),
        }
    }
    let backup = b.backup_path.is_some();
    let link = b.symlink_target.is_some();
    let hash = b.sha256.is_some();
    let consistent = match b.kind {
        BaselineKind::Missing => !backup && !link && !hash,
        BaselineKind::File => backup && !link && hash,
        BaselineKind::Symlink => !backup && link && hash,
    };
    if !consistent {
        return Err("surface record contains inconsistent baseline metadata".to_owned());
    }
    Ok(())
}

/// What is found of the files that a request names.
#[derive(Debug)]
pub struct RequestFacts {
    pub cwd: Result<String, String>,
    pub backup: BackupFacts,
    /// Whether the manager is a regular file, links followed.
    pub manager_is_file: Result<bool, String>,
    /// Whether the manager is the running executable.
    pub manager_is_running: Result<bool, String>,
    pub backups_dir: Result<EntryFacts, String>,
}

pub open spec fn manager_problem(
    platform: Platform,
    manager: Seq<char>,
    facts: RequestFacts,
) -> Option<Seq<char>> {
    if !is_absolute(platform, manager) {
        Some("stable manager path must be absolute"@)
    } else {
        match facts.manager_is_file {
            Err(message) => Some("inspect stable manager "@ + manager + ": "@ + message@),
            Ok(is_file) => if !is_file {
                Some("stable manager is not a regular file: "@ + manager)
            } else {
                match facts.manager_is_running {
                    Err(message) => Some(message@),
                    Ok(running) => if !running {
                        Some("elevation request manager is not the running stable manager"@)
                    } else {
                        None
                    },
                }
            },
        }
    }
}

pub open spec fn manager_of(request: RequestView) -> Seq<char> {
    match request {
        RequestView::Install { surface, manager, backups_dir } => manager,
        RequestView::Uninstall { record, backups_dir } => record.installed.manager,
        RequestView::Repair { record, manager, backups_dir, adopt } => manager,
    }
}

pub open spec fn backups_of(request: RequestView) -> Seq<char> {
    match request {
        RequestView::Install { surface, manager, backups_dir } => backups_dir,
        RequestView::Uninstall { record, backups_dir } => backups_dir,
        RequestView::Repair { record, manager, backups_dir, adopt } => backups_dir,
    }
}

/// What is wrong with what a request asks for by itself.
pub open spec fn operation_problem(
    request: RequestView,
    facts: RequestFacts,
    identity: HelperIdentity,
    platform: Platform,
) -> Option<Seq<char>> {
    match request {
        RequestView::Install { surface, manager, backups_dir } => if surface_problem(platform, surface)
            is Some {
            surface_problem(platform, surface)
        } else if same_place(platform, surface, manager, result_text(facts.cwd)) {
            Some("launcher surface and stable manager must be different paths"@)
        } else {
            None
        },
        RequestView::Uninstall { record, backups_dir } => record_problem(
            record,
            facts.backup,
            identity,
            platform,
        ),
        RequestView::Repair { record, manager, backups_dir, adopt } => if record_problem(
            record,
            facts.backup,
            identity,
            platform,
        ) is Some {
            record_problem(record, facts.backup, identity, platform)
        } else if parts(platform, record.installed.manager) != parts(platform, manager) {
            Some("repair manager does not match the recorded stable manager"@)
        } else {
            None
        },
    }
}

/// Everything that the helper refuses before it touches a file.
pub open spec fn request_problem(
    request: RequestView,
    facts: RequestFacts,
    identity: HelperIdentity,
    platform: Platform,
) -> Option<Seq<char>> {
    if operation_problem(request, facts, identity, platform) is Some {
        operation_problem(request, facts, identity, platform)
    } else if manager_problem(platform, manager_of(request), facts) is Some {
        manager_problem(platform, manager_of(request), facts)
    } else {
        backups_problem(backups_of(request), facts.backups_dir, identity, platform)
    }
}

fn check_manager(platform: Platform, manager: &str, facts: &RequestFacts) -> (r: Result<(), String>)
    ensures
        result_unit(r) == as_result(manager_problem(platform, manager@, *facts)),
{
    if !path_is_absolute(platform, manager) {
        return Err("stable manager path must be absolute".to_owned());
    }
    match &facts.manager_is_file {
        Err(inner) => {
            let mut message = "inspect stable manager ".to_owned();
            message.append(manager);
            message.append(": ");
            message.append(inner.as_str());
            return Err(message);
        },
        Ok(is_file) => {
            if !*is_file {
                let mut message = "stable manager is not a regular file: ".to_owned();
                message.append(manager);
                return Err(message);
            }
        },
    }
    match &facts.manager_is_running {
        Err(message) => Err(message.clone()),
        Ok(running) => {
            if !*running {
                return Err(
                    "elevation request manager is not the running stable manager".to_owned(),
                );
            }
            Ok(())
        },
    }
}

fn check_operation(
    request: &ElevationRequest,
    facts: &RequestFacts,
    identity: HelperIdentity,
    platform: Platform,
) -> (r: Result<(), String>)
    ensures
        result_unit(r) == as_result(operation_problem(request@, *facts, identity, platform)),
{
    match request {
        ElevationRequest::Install { surface, manager, backups_dir: _ } => {
            match validate_surface(platform, surface.as_str()) {
                Ok(()) => {},
                Err(message) => return Err(message),
            }
            if same_absolute_path(platform, surface.as_str(), manager.as_str(), &facts.cwd) {
                return Err(
                    "launcher surface and stable manager must be different paths".to_owned(),
                );
            }
            Ok(())
        },
        ElevationRequest::Uninstall { record, backups_dir: _ } => validate_surface_record(
            record,
            &facts.backup,
            identity,
            platform,
        ),
        ElevationRequest::Repair { record, manager, backups_dir: _, adopt: _ } => {
            match validate_surface_record(record, &facts.backup, identity, platform) {
                Ok(()) => {},
                Err(message) => return Err(message),
            }
            if !same_path(platform, record.installed.manager.as_str(), manager.as_str()) {
                return Err(
                    "repair manager does not match the recorded stable manager".to_owned(),
                );
            }
            Ok(())
        },
    }
}

/// Whether the helper carries a request out.
pub fn validate_request(
    request: &ElevationRequest,
    facts: &RequestFacts,
    identity: HelperIdentity,
    platform: Platform,
) -> (r: Result<(), String>)
    ensures
        result_unit(r) == as_result(request_problem(request@, *facts, identity, platform)),
{
    match check_operation(request, facts, identity, platform) {
        Ok(()) => {},
        Err(message) => return Err(message),
    }
    let (manager, backups_dir) = match request {
        ElevationRequest::Install { surface: _, manager, backups_dir } => (manager, backups_dir),
        ElevationRequest::Uninstall { record, backups_dir } => (
            &record.installed.manager,
            backups_dir,
        ),
        ElevationRequest::Repair { record: _, manager, backups_dir, adopt: _ } => (
            manager,
            backups_dir,
        ),
    };
    match check_manager(platform, manager.as_str(), facts) {
        Ok(()) => {},
        Err(message) => return Err(message),
    }
    validate_backups_directory(backups_dir.as_str(), &facts.backups_dir, identity, platform)
}

/// How an operation of the helper ended.
#[derive(Debug)]
pub enum Outcome {
    Installed(SurfaceRecord),
    Uninstalled,
    Repaired(SurfaceRecord, RepairOutcome),
    Failed { message: String },
}

/// The answer of the helper. What keeps the artifacts from being given back to the caller
/// is reported first, whatever became of the operation.
pub fn respond(ownership: &Result<(), String>, outcome: &Outcome) -> (r: ElevationResponse)
    ensures
        r@ == (match ownership {
            Err(message) => ResponseView::Error { message: message@ },
            Ok(_) => match outcome {
                Outcome::Installed(record) => ResponseView::Installed { record: record@ },
                Outcome::Uninstalled => ResponseView::Uninstalled,
                Outcome::Repaired(record, repaired) => ResponseView::Repaired {
                    record: record@,
                    outcome: *repaired,
                },
                Outcome::Failed { message } => ResponseView::Error { message: message@ },
            },
        }),
{
    match ownership {
        Err(message) => return ElevationResponse::Error { message: message.clone() },
        Ok(()) => {},
    }
    match outcome {
        Outcome::Installed(record) => ElevationResponse::Installed { record: record.clone() },
        Outcome::Uninstalled => ElevationResponse::Uninstalled,
        Outcome::Repaired(record, repaired) => ElevationResponse::Repaired {
            record: record.clone(),
            outcome: *repaired,
        },
        Outcome::Failed { message } => ElevationResponse::Error { message: message.clone() },
    }
}

pub open spec fn unexpected(operation: Seq<char>, shown: Seq<char>) -> Seq<char> {
    "privileged "@ + operation + " returned an unexpected response: "@ + shown
}

/// What is said of a response that does not belong to the operation. `shown` is the whole
/// response as it is shown to a developer.
pub fn unexpected_response(operation: &str, shown: &str) -> (r: String)
    ensures
        r@ == unexpected(operation@, shown@),
{
    let mut message = "privileged ".to_owned();
    message.append(operation);
    message.append(" returned an unexpected response: ");
    message.append(shown);
    message
}

pub open spec fn response_result(r: Result<ElevationResponse, String>) -> Result<
    ResponseView,
    Seq<char>,
> {
    match r {
        Ok(response) => Ok(response@),
        Err(message) => Err(message@),
    }
}

/// What is taken from an answer of the helper.
pub fn read_response(schema: u32, response: ElevationResponse) -> (r: Result<
    ElevationResponse,
    String,
>)
    ensures
        response_result(r) == (match wire_schema_problem(schema) {
            Some(message) => Err(message),
            None => match response@ {
                ResponseView::Error { message } => Err(
                    "privileged launcher operation: "@ + message,
                ),
                other => Ok(other),
            },
        }),
{
    match validate_schema(schema) {
        Ok(()) => {},
        Err(message) => return Err(message),
    }
    match response {
        ElevationResponse::Error { message } => {
            let mut text = "privileged launcher operation: ".to_owned();
            text.append(message.as_str());
            Err(text)
        },
        other => Ok(other),
    }
}

/// A file of the directory of backups that the helper may have written.
pub open spec fn owned_artifact(name: Seq<char>) -> bool {
    ||| ".takeover-"@.is_prefix_of(name) && ".json"@.is_suffix_of(name)
    ||| ".restore-"@.is_prefix_of(name) && ".json"@.is_suffix_of(name)
    ||| ".repair-"@.is_prefix_of(name) && ".json"@.is_suffix_of(name)
    ||| ".baseline"@.is_suffix_of(name)
}

pub fn is_owned_artifact(name: &str) -> (r: bool)
    ensures
        r == owned_artifact(name@),
{
    let json = ends_with(name, ".json");
    (starts_with(name, ".takeover-") && json) || (starts_with(name, ".restore-") && json) || (
    starts_with(name, ".repair-") && json) || ends_with(name, ".baseline")
}

/// Whether an artifact is given back to the caller: a file without other names that belongs
/// to root.
pub fn returns_to_caller(facts: &EntryFacts) -> (r: bool)
    ensures
        r == (facts.kind == EntryType::File && facts.links == 1 && facts.uid == 0),
{
    facts.kind == EntryType::File && facts.links == 1 && facts.uid == 0
}

pub open spec fn backslashes(n: nat) -> Seq<char> {
    Seq::new(n, |i: int| '\\')
}

/// `s` behind `run` pending backslashes, as it is written between quotes.
pub open spec fn escaped_text(s: Seq<char>, run: nat) -> Seq<char>
    decreases s.len(),
{
    if s.len() == 0 {
        backslashes(2 * run)
    } else if s[0] == '\\' {
        escaped_text(s.drop_first(), run + 1)
    } else if s[0] == '"' {
        backslashes(2 * run + 1).push('"') + escaped_text(s.drop_first(), 0)
    } else {
        backslashes(run).push(s[0]) + escaped_text(s.drop_first(), 0)
    }
}

fn push_backslashes(out: &mut String, n: usize)
    ensures
        final(out)@ == old(out)@ + backslashes(n as nat),
{
    let ghost before = out@;
    let mut i: usize = 0;
    proof {
        assert(before + backslashes(0) =~= before);
    }
    while i < n
        invariant
            i <= n,
            out@ == before + backslashes(i as nat),
        decreases n - i,
    {
        out.push('\\');
        i = i + 1;
        proof {
            assert(out@ =~= before + backslashes(i as nat));
        }
    }
}

/// An argument in quotes, as Windows programs read it.
pub fn quote_windows_arg(value: &str) -> (r: String)
    ensures
        r@ == seq!['"'] + escaped_text(value@, 0) + seq!['"'],
{
    let chars = chars_of(value);
    let mut out = String::new();
    out.push('"');
    let mut slashes: usize = 0;
    let mut i: usize = 0;
    let ghost target = seq!['"'] + escaped_text(value@, 0);
    proof {
        assert(chars@.skip(0) =~= chars@);
        assert(out@ =~= seq!['"']);
    }
    while i < chars.len()
        invariant
            slashes <= i <= chars@.len(),
            chars@ == value@,
            target == out@ + escaped_text(chars@.skip(i as int), slashes as nat),
        decreases chars@.len() - i,
    {
        let c = chars[i];
        let ghost rest = chars@.skip(i as int);
        let ghost before = out@;
        let ghost run = slashes as nat;
        proof {
            assert(rest[0] == c);
            assert(rest.drop_first() =~= chars@.skip(i as int + 1));
        }
        if c == '\\' {
            slashes = slashes + 1;
        } else if c == '"' {
            push_backslashes(&mut out, slashes);
            push_backslashes(&mut out, slashes);
            out.push('\\');
            out.push('"');
            slashes = 0;
            proof {
                assert(out@ =~= before + backslashes(2 * run + 1).push('"'));
                assert(target =~= out@ + escaped_text(rest.drop_first(), 0));
            }
        } else {
            push_backslashes(&mut out, slashes);
            slashes = 0;
            out.push(c);
            proof {
                assert(out@ =~= before + backslashes(run).push(c));
                assert(target =~= out@ + escaped_text(rest.drop_first(), 0));
            }
        }
        i = i + 1;
    }
    let ghost before = out@;
    push_backslashes(&mut out, slashes);
    push_backslashes(&mut out, slashes);
    proof {
        assert(chars@.skip(chars@.len() as int) =~= Seq::empty());
        assert(out@ =~= before + backslashes(2 * slashes as nat));
        assert(out@ =~= target);
    }
    out.push('"');
    proof {
        assert(out@ =~= target + seq!['"']);
    }
    out
}

/// The program and the arguments that run the helper with more rights.
pub open spec fn elevated_words(
    executable: Seq<char>,
    request: Seq<char>,
    response: Seq<char>,
    platform: Platform,
) -> Seq<Seq<char>> {
    let quoted = |s: Seq<char>| seq!['"'] + escaped_text(s, 0) + seq!['"'];
    match platform {
        Platform::Posix => seq!["sudo"@, "--"@, executable, HELPER_COMMAND@, request, response],
        Platform::Windows => seq![
            "powershell.exe"@,
            "-NoLogo"@,
            "-NoProfile"@,
            "-NonInteractive"@,
            "-Command"@,
            "$p = Start-Process -FilePath $args[0] -ArgumentList $args[1] -Verb RunAs -Wait -PassThru; exit $p.ExitCode"@,
            executable,
            quoted(HELPER_COMMAND@) + " "@ + quoted(request) + " "@ + quoted(response),
        ],
    }
}

pub fn elevated_command(
    executable: &str,
    request: &str,
    response: &str,
    platform: Platform,
) -> (r: Vec<String>)
    ensures
        texts(r@) == elevated_words(executable@, request@, response@, platform),
{
    match platform {
        Platform::Posix => {
            let words = vec![
                "sudo".to_owned(),
                "--".to_owned(),
                executable.to_owned(),
                HELPER_COMMAND.to_owned(),
                request.to_owned(),
                response.to_owned(),
            ];
            proof {
                assert(texts(words@) =~= elevated_words(
                    executable@,
                    request@,
                    response@,
                    platform,
                ));
            }
            words
        },
        Platform::Windows => {
            let mut line = quote_windows_arg(HELPER_COMMAND);
            line.append(" ");
            line.append(quote_windows_arg(request).as_str());
            line.append(" ");
            line.append(quote_windows_arg(response).as_str());
            let words = vec![
                "powershell.exe".to_owned(),
                "-NoLogo".to_owned(),
                "-NoProfile".to_owned(),
                "-NonInteractive".to_owned(),
                "-Command".to_owned(),
                "$p = Start-Process -FilePath $args[0] -ArgumentList $args[1] -Verb RunAs -Wait -PassThru; exit $p.ExitCode".to_owned(),
                executable.to_owned(),
                line,
            ];
            proof {
                assert(texts(words@) =~= elevated_words(
                    executable@,
                    request@,
                    response@,
                    platform,
                ));
            }
            words
        },
    }
}

/// A request that the helper carries out names absolute paths throughout, a manager that is
/// the running one, and, off Windows, a directory of backups that only the caller can write
/// to.
pub proof fn elevated_requests_are_confined(
    platform: Platform,
    request: RequestView,
    facts: RequestFacts,
    identity: HelperIdentity,
)
    requires
        request_problem(request, facts, identity, platform) is None,
    ensures
        is_absolute(platform, manager_of(request)),
        is_absolute(platform, backups_of(request)),
        facts.manager_is_running == Ok::<bool, String>(true),
        platform == Platform::Posix ==> (facts.backups_dir matches Ok(dir) && dir.kind
            == EntryType::Directory && dir.uid == identity.uid && dir.mode & 0o022 == 0),
        match request {
            RequestView::Install { surface, manager, backups_dir } => is_absolute(platform, surface)
                && parts(platform, surface) != parts(platform, manager),
            RequestView::Uninstall { record, backups_dir } => is_absolute(platform, record.surface)
                && consistent_baseline(record.baseline),
            RequestView::Repair { record, manager, backups_dir, adopt } => is_absolute(
                platform,
                record.surface,
            ) && consistent_baseline(record.baseline) && parts(
                platform,
                record.installed.manager,
            ) == parts(
                platform,
                manager,
            ),
        },
{
}

/// Nothing is elevated that succeeded, or that failed for another reason than a missing
/// permission.
pub proof fn only_denied_installations_are_elevated(
    platform: Platform,
    direct: Result<SurfaceRecord, Denial>,
    recovered: Option<Result<Vec<SurfaceRecord>, Denial>>,
    surface: Seq<char>,
    manager: Seq<char>,
    backups_dir: Seq<char>,
    cwd: Result<Seq<char>, Seq<char>>,
)
    requires
        next_install(
            platform,
            direct,
            recovered,
            surface,
            manager,
            backups_dir,
            cwd,
        ) matches Ok(step)
            && step is Elevate,
    ensures
        direct matches Err(failure) && failure.denied,
        match recovered {
            Some(Ok(records)) => records@.len() == 0,
            Some(Err(second)) => second.denied,
            None => false,
        },
{
}

/// How Windows reads the part of a command line that follows an opening quote mark: a run
/// of backslashes before a quote mark stands for half as many, and an odd one escapes the
/// mark. Nothing but the closing mark may be left.
pub open spec fn read_quoted_text(line: Seq<char>, run: nat) -> Option<Seq<char>>
    decreases line.len(),
{
    if line.len() == 0 {
        None
    } else if line[0] == '\\' {
        read_quoted_text(line.drop_first(), run + 1)
    } else if line[0] == '"' {
        if run % 2 == 0 {
            if line.len() == 1 {
                Some(backslashes(run / 2))
            } else {
                None
            }
        } else {
            match read_quoted_text(line.drop_first(), 0) {
                Some(rest) => Some(backslashes(run / 2).push('"') + rest),
                None => None,
            }
        }
    } else {
        match read_quoted_text(line.drop_first(), 0) {
            Some(rest) => Some(backslashes(run).push(line[0]) + rest),
            None => None,
        }
    }
}

proof fn lemma_read_slashes(line: Seq<char>, n: nat, run: nat)
    ensures
        read_quoted_text(backslashes(n) + line, run) == read_quoted_text(line, run + n),
    decreases n,
{
    let whole = backslashes(n) + line;
    if n == 0 {
        assert(whole =~= line);
    } else {
        assert(whole[0] == '\\');
        assert(whole.drop_first() =~= backslashes((n - 1) as nat) + line);
        lemma_read_slashes(line, (n - 1) as nat, run + 1);
    }
}

proof fn lemma_escapes_read_back(a: Seq<char>, run: nat)
    ensures
        read_quoted_text(escaped_text(a, run) + seq!['"'], 0) == Some(
            backslashes(run) + a,
        ),
    decreases a.len(),
{
    let end = seq!['"'];
    if a.len() == 0 {
        lemma_read_slashes(end, 2 * run, 0);
        assert(read_quoted_text(end, 2 * run) == Some(backslashes(run)));
        assert(backslashes(run) + a =~= backslashes(run));
    } else {
        let rest = a.drop_first();
        if a[0] == '\\' {
            lemma_escapes_read_back(rest, run + 1);
            assert(backslashes(run + 1) + rest =~= backslashes(run) + a);
        } else if a[0] == '"' {
            lemma_escapes_read_back(rest, 0);
            let tail = escaped_text(rest, 0) + end;
            let line = seq!['"'] + tail;
            assert(escaped_text(a, run) + end =~= backslashes(2 * run + 1) + line);
            lemma_read_slashes(line, 2 * run + 1, 0);
            assert(line.drop_first() =~= tail);
            assert((2 * run + 1) / 2 == run);
            assert(backslashes(0) + rest =~= rest);
            assert(backslashes(run).push('"') + rest =~= backslashes(run) + a);
        } else {
            lemma_escapes_read_back(rest, 0);
            let tail = escaped_text(rest, 0) + end;
            let line = seq![a[0]] + tail;
            assert(escaped_text(a, run) + end =~= backslashes(run) + line);
            lemma_read_slashes(line, run, 0);
            assert(line.drop_first() =~= tail);
            assert(backslashes(0) + rest =~= rest);
            assert(backslashes(run).push(a[0]) + rest =~= backslashes(run)
                + a);
        }
    }
}

/// A quoted argument of the helper is read back by Windows as it was.
pub proof fn helper_arguments_read_back(s: Seq<char>)
    ensures
        read_quoted_text(escaped_text(s, 0) + seq!['"'], 0) == Some(s),
{
    lemma_escapes_read_back(s, 0);
    assert(backslashes(0) + s =~= s);
}

} // verus!
