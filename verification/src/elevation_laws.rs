//! When an operation is handed to the privileged helper, what the helper accepts, and what it
//! answers.

use vstd::prelude::*;

use crate::elevation::{
    absolute, backup_problem, backups_problem, caller, elevated_words, endpoint_problem,
    exchange_directory_problem, exchange_problem, helper_entrypoint, next_install, owned_artifact,
    read_response, record_problem, recovered_takeover, repair_redirect, request_problem, respond,
    same_place, sudo_id, uninstall_redirect, BackupFacts, Denial, ElevationRequest,
    ElevationResponse, EntryFacts, EntryType, HelperIdentity, InstallStepView, Outcome,
    RequestFacts, RequestView, ResponseView,
};
use crate::paths::{file_name, is_absolute, join_path, parent, parts, Platform};
use crate::shim::{BaselineKind, RecordView, SurfaceRecord};
use crate::text::{result_text, texts};

verus! {

/// A path is made absolute exactly where it is so, or the current directory is known.
pub proof fn paths_are_made_absolute(
    platform: Platform,
    path: Seq<char>,
    cwd: Result<Seq<char>, Seq<char>>,
)
    ensures
        absolute(platform, path, cwd) is Ok <==> is_absolute(platform, path) || cwd is Ok,
        is_absolute(platform, path) ==> absolute(platform, path, cwd) == Ok::<Seq<char>, Seq<char>>(
            path,
        ),
        !is_absolute(platform, path) ==> (cwd matches Ok(dir) ==> absolute(platform, path, cwd)
            == Ok::<Seq<char>, Seq<char>>(join_path(platform, dir, path))),
{
}

/// The record redirects the launcher to the manager.
pub open spec fn redirects(
    platform: Platform,
    record: RecordView,
    surface: Seq<char>,
    manager: Seq<char>,
    cwd: Result<Seq<char>, Seq<char>>,
) -> bool {
    same_place(platform, record.surface, surface, cwd) && same_place(
        platform,
        record.installed.manager,
        manager,
        cwd,
    )
}

/// A recovered takeover is looked up by its launcher and its manager, and the first counts.
pub proof fn takeovers_are_found_by_launcher(
    platform: Platform,
    records: Seq<SurfaceRecord>,
    surface: Seq<char>,
    manager: Seq<char>,
    cwd: Result<Seq<char>, Seq<char>>,
)
    ensures
        match recovered_takeover(platform, records, surface, manager, cwd) {
            Some(r) => redirects(platform, r, surface, manager, cwd) && exists|i: int|
                0 <= i < records.len() && (#[trigger] records[i])@ == r,
            None => forall|i: int|
                0 <= i < records.len() ==> !redirects(
                    platform,
                    (#[trigger] records[i])@,
                    surface,
                    manager,
                    cwd,
                ),
        },
    decreases records.len(),
{
    if records.len() > 0 {
        if redirects(platform, records[0]@, surface, manager, cwd) {
            assert(records[0]@ == records[0]@);
        } else {
            let rest = records.drop_first();
            takeovers_are_found_by_launcher(platform, rest, surface, manager, cwd);
            match recovered_takeover(platform, records, surface, manager, cwd) {
                Some(r) => {
                    let i = choose|i: int| 0 <= i < rest.len() && (#[trigger] rest[i])@ == r;
                    assert(records[i + 1]@ == r);
                },
                None => {
                    assert forall|i: int| 0 <= i < records.len() implies !redirects(
                        platform,
                        (#[trigger] records[i])@,
                        surface,
                        manager,
                        cwd,
                    ) by {
                        if i > 0 {
                            assert(rest[i - 1] == records[i]);
                        }
                    }
                },
            }
        }
    }
}

/// An installation that went well is taken as it is. One that lacked a permission is first
/// recovered, and handed to the helper, with absolute paths, only where that left nothing behind
/// or lacked a permission too. Every other failure is reported.
pub proof fn denied_installations_are_handed_on(
    platform: Platform,
    direct: Result<SurfaceRecord, Denial>,
    recovered: Option<Result<Vec<SurfaceRecord>, Denial>>,
    surface: Seq<char>,
    manager: Seq<char>,
    backups_dir: Seq<char>,
    cwd: Result<Seq<char>, Seq<char>>,
)
    ensures
        ({
            let r = next_install(
                platform,
                direct,
                recovered,
                surface,
                manager,
                backups_dir,
                cwd,
            );
            let denied = direct matches Err(failure) && failure.denied;
            let nothing_left = denied && (recovered matches Some(result) && (match result {
                Ok(records) => records@.len() == 0,
                Err(second) => second.denied,
            }));
            let known = cwd is Ok || (is_absolute(platform, surface) && is_absolute(
                platform,
                manager,
            ) && is_absolute(platform, backups_dir));
            &&& direct matches Ok(record) ==> r == Ok::<InstallStepView, Seq<char>>(
                InstallStepView::Installed(record@),
            )
            &&& direct matches Err(failure) ==> (!failure.denied ==> r == Err::<
                InstallStepView,
                Seq<char>,
            >(failure.message@))
            &&& (r matches Ok(InstallStepView::Recover)) <==> denied && recovered is None
            &&& (r matches Ok(InstallStepView::Elevate(_))) <==> nothing_left && known
            &&& r matches Ok(InstallStepView::Elevate(request)) ==> (
            request matches RequestView::Install { surface: s, manager: m, backups_dir: b }
                && absolute(platform, surface, cwd) == Ok::<Seq<char>, Seq<char>>(s) && absolute(
                platform,
                manager,
                cwd,
            ) == Ok::<Seq<char>, Seq<char>>(m) && absolute(platform, backups_dir, cwd) == Ok::<
                Seq<char>,
                Seq<char>,
            >(b))
            &&& denied ==> (recovered matches Some(Err(second)) ==> (!second.denied ==> r == Err::<
                InstallStepView,
                Seq<char>,
            >(second.message@)))
            &&& denied ==> (recovered matches Some(Ok(records)) ==> (records@.len() > 0 ==> match
                recovered_takeover(platform, records@, surface, manager, cwd) {
                Some(record) => r == Ok::<InstallStepView, Seq<char>>(
                    InstallStepView::Installed(record),
                ),
                None => r is Err,
            }))
        }),
{
    if recovered matches Some(Ok(records)) && records@.len() == 0 {
        assert(recovered_takeover(
            platform,
            recovered->0->Ok_0@,
            surface,
            manager,
            cwd,
        ) is None);
    }
}

/// A removal is handed to the helper exactly where it lacked a permission, with the record as it
/// is and an absolute directory.
pub proof fn denied_removals_are_handed_on(
    platform: Platform,
    direct: &Result<(), Denial>,
    record: &SurfaceRecord,
    backups_dir: &str,
    cwd: &Result<String, String>,
    r: Result<Option<ElevationRequest>, String>,
)
    requires
        call_ensures(uninstall_redirect, (platform, direct, record, backups_dir, cwd), r),
    ensures
        ({
            let denied = direct matches Err(failure) && failure.denied;
            let known = cwd is Ok || is_absolute(platform, backups_dir@);
            &&& (r matches Ok(None)) <==> direct is Ok
            &&& (r matches Ok(Some(_))) <==> denied && known
            &&& r matches Ok(Some(request)) ==> (request@ matches RequestView::Uninstall {
                record: handed,
                backups_dir: dir,
            } && handed == record@ && absolute(platform, backups_dir@, result_text(*cwd)) == Ok::<
                Seq<char>,
                Seq<char>,
            >(dir))
            &&& direct matches Err(failure) ==> (!failure.denied ==> (r matches Err(e) && e@
                == failure.message@))
        }),
{
}

/// A repair is handed to the helper exactly where it lacked a permission, with the record and
/// the user's choice as they are and absolute paths.
pub proof fn denied_repairs_are_handed_on(
    platform: Platform,
    direct: &Result<(), Denial>,
    record: &SurfaceRecord,
    manager: &str,
    backups_dir: &str,
    adopt: bool,
    cwd: &Result<String, String>,
    r: Result<Option<ElevationRequest>, String>,
)
    requires
        call_ensures(
            repair_redirect,
            (platform, direct, record, manager, backups_dir, adopt, cwd),
            r,
        ),
    ensures
        ({
            let denied = direct matches Err(failure) && failure.denied;
            let known = cwd is Ok || (is_absolute(platform, manager@) && is_absolute(
                platform,
                backups_dir@,
            ));
            &&& (r matches Ok(None)) <==> direct is Ok
            &&& (r matches Ok(Some(_))) <==> denied && known
            &&& r matches Ok(Some(request)) ==> (request@ matches RequestView::Repair {
                record: handed,
                manager: m,
                backups_dir: dir,
                adopt: adopted,
            } && handed == record@ && adopted == adopt && absolute(
                platform,
                manager@,
                result_text(*cwd),
            ) == Ok::<Seq<char>, Seq<char>>(m) && absolute(
                platform,
                backups_dir@,
                result_text(*cwd),
            ) == Ok::<Seq<char>, Seq<char>>(dir))
            &&& direct matches Err(failure) ==> (!failure.denied ==> (r matches Err(e) && e@
                == failure.message@))
        }),
{
}

/// The helper runs exactly where its command is named, with two paths.
pub proof fn the_helper_is_called_by_name(
    arguments: &Vec<String>,
    r: Result<Option<(String, String)>, String>,
)
    requires
        call_ensures(helper_entrypoint, (arguments,), r),
    ensures
        ({
            let words = texts(arguments@);
            let named = words.len() >= 2 && words[1] == "__elevated-shim-helper"@;
            &&& (r matches Ok(None)) <==> !named
            &&& (r matches Ok(Some(_))) <==> named && words.len() == 4
            &&& r is Err <==> named && words.len() != 4
            &&& r matches Ok(Some(paths)) ==> paths.0@ == words[2] && paths.1@ == words[3]
        }),
{
}

/// The two files of an exchange are accepted exactly where they are the request and the response
/// of one directory, by absolute paths.
pub proof fn exchanges_share_a_directory(
    platform: Platform,
    request: Seq<char>,
    response: Seq<char>,
)
    ensures
        exchange_problem(platform, request, response) is None <==> is_absolute(platform, request)
            && is_absolute(platform, response) && parts(platform, request) != parts(
            platform,
            response,
        ) && file_name(platform, request) == Some("request.json"@) && file_name(platform, response)
            == Some("response.json"@) && (match (
            parent(platform, request),
            parent(platform, response),
        ) {
            (Some(a), Some(b)) => parts(platform, a) == parts(platform, b),
            (None, None) => true,
            _ => false,
        }),
{
}

/// The helper answers a caller exactly where it runs as root for somebody else.
pub proof fn the_helper_serves_its_caller(
    effective_uid: u32,
    uid: Result<Seq<char>, Seq<char>>,
    gid: Result<Seq<char>, Seq<char>>,
)
    ensures
        ({
            let r = caller(effective_uid, uid, gid);
            let u = sudo_id("SUDO_UID"@, uid);
            let g = sudo_id("SUDO_GID"@, gid);
            &&& r is Ok <==> effective_uid == 0 && u is Ok && u->Ok_0 != 0 && g is Ok
            &&& r matches Ok(identity) ==> u == Ok::<u32, Seq<char>>(identity.uid) && g == Ok::<
                u32,
                Seq<char>,
            >(identity.gid)
        }),
{
}

/// A file of the exchange is accepted exactly where it is a regular file of bounded length that
/// is the caller's alone, and its directory where it is the caller's alone.
pub proof fn exchanges_are_private(
    path: Seq<char>,
    facts: EntryFacts,
    identity: HelperIdentity,
    platform: Platform,
)
    ensures
        ({
            let posix = platform is Posix;
            let private = facts.mode & 0o077 == 0;
            &&& endpoint_problem(path, facts, identity, platform) is None <==> facts.kind
                == EntryType::File && facts.length <= 16_777_216 && (posix ==> facts.uid
                == identity.uid && facts.links == 1 && private) && (!posix ==> facts.owner is Ok)
            &&& exchange_directory_problem(path, facts, identity, platform) is None <==> facts.kind
                == EntryType::Directory && (posix ==> facts.uid == identity.uid && private) && (
            !posix ==> facts.owner is Ok)
        }),
{
}

/// The directory of backups is accepted exactly where it is a directory by an absolute path that
/// the caller owns and nobody else can write to.
pub proof fn backups_are_the_callers(
    path: Seq<char>,
    facts: Result<EntryFacts, String>,
    identity: HelperIdentity,
    platform: Platform,
)
    ensures
        backups_problem(path, facts, identity, platform) is None <==> is_absolute(platform, path)
            && (facts matches Ok(dir) && dir.kind == EntryType::Directory && (platform is Posix
            ==> dir.uid == identity.uid && dir.mode & 0o022 == 0) && (platform is Windows
            ==> dir.owner is Ok)),
{
}

/// A backup is accepted exactly where it is a file in the directory of backups, and off Windows
/// has one name and belongs to the caller or to root.
pub proof fn backups_stay_in_their_directory(
    backup: Seq<char>,
    facts: BackupFacts,
    identity: HelperIdentity,
    platform: Platform,
)
    ensures
        backup_problem(backup, facts, identity, platform) is None <==> parent(platform, backup)
            is Some && (facts.expected_parent matches Ok(expected) && (
        facts.actual_parent matches Ok(actual) && parts(platform, actual@) == parts(
            platform,
            expected@,
        ))) && (facts.entry matches Ok(entry) && entry.kind == EntryType::File && (platform is Posix
            ==> (entry.uid == identity.uid || entry.uid == 0) && entry.links == 1) && (
        platform is Windows ==> entry.owner is Ok)),
{
}

/// A launcher is named by an absolute path with a directory and a name.
pub open spec fn names_launcher(platform: Platform, surface: Seq<char>) -> bool {
    is_absolute(platform, surface) && parent(platform, surface) is Some && file_name(
        platform,
        surface,
    ) is Some
}

/// A record is accepted exactly where its version and its paths are in order, its backup is, and
/// its baseline says what its kind needs and nothing else.
pub proof fn accepted_records_are_whole(
    record: RecordView,
    facts: BackupFacts,
    identity: HelperIdentity,
    platform: Platform,
)
    ensures
        ({
            let b = record.baseline;
            record_problem(record, facts, identity, platform) is None <==> record.schema == 1
                && names_launcher(platform, record.surface) && is_absolute(
                platform,
                record.installed.manager,
            ) && (b.backup_path matches Some(path) ==> backup_problem(
                path,
                facts,
                identity,
                platform,
            ) is None) && (b.backup_path is Some <==> b.kind == BaselineKind::File) && (
            b.symlink_target is Some <==> b.kind == BaselineKind::Symlink) && (b.sha256 is Some
                <==> b.kind != BaselineKind::Missing)
        }),
{
}

/// The helper carries out a request exactly where its record or its launcher is in order, its
/// manager is the running one, and its backups are the caller's.
pub proof fn accepted_requests_are_safe(
    request: RequestView,
    facts: RequestFacts,
    identity: HelperIdentity,
    platform: Platform,
)
    ensures
        ({
            let accepted = request_problem(request, facts, identity, platform) is None;
            let running = facts.manager_is_file == Ok::<bool, String>(true)
                && facts.manager_is_running == Ok::<bool, String>(true);
            match request {
                RequestView::Install { surface, manager, backups_dir } => accepted
                    <==> names_launcher(platform, surface) && !same_place(
                    platform,
                    surface,
                    manager,
                    result_text(facts.cwd),
                ) && is_absolute(platform, manager) && running && backups_problem(
                    backups_dir,
                    facts.backups_dir,
                    identity,
                    platform,
                ) is None,
                RequestView::Uninstall { record, backups_dir } => accepted <==> record_problem(
                    record,
                    facts.backup,
                    identity,
                    platform,
                ) is None && is_absolute(platform, record.installed.manager) && running
                    && backups_problem(backups_dir, facts.backups_dir, identity, platform) is None,
                RequestView::Repair { record, manager, backups_dir, adopt } => accepted
                    <==> record_problem(record, facts.backup, identity, platform) is None && parts(
                    platform,
                    record.installed.manager,
                ) == parts(platform, manager) && is_absolute(platform, manager) && running
                    && backups_problem(backups_dir, facts.backups_dir, identity, platform) is None,
            }
        }),
{
}

/// The helper answers with what became of the operation, unless it could not give its artifacts
/// back: that is an error whatever became of it.
pub proof fn the_helper_answers_what_happened(
    ownership: &Result<(), String>,
    outcome: &Outcome,
    r: ElevationResponse,
)
    requires
        call_ensures(respond, (ownership, outcome), r),
    ensures
        ownership matches Err(why) ==> r@ == (ResponseView::Error { message: why@ }),
        ownership is Ok ==> {
            &&& outcome matches Outcome::Installed(record) ==> r@ == (ResponseView::Installed {
                record: record@,
            })
            &&& outcome is Uninstalled <==> r@ is Uninstalled
            &&& outcome matches Outcome::Repaired(record, repaired) ==> r@ == (
            ResponseView::Repaired { record: record@, outcome: *repaired })
            &&& outcome matches Outcome::Failed { message } ==> r@ == (ResponseView::Error {
                message: message@,
            })
        },
{
}

/// An answer is taken exactly where its version is known and it is no error.
pub proof fn answers_are_taken_as_they_are(
    schema: u32,
    response: ElevationResponse,
    r: Result<ElevationResponse, String>,
)
    requires
        call_ensures(read_response, (schema, response), r),
    ensures
        r is Ok <==> schema == 1 && !(response@ is Error),
        r matches Ok(taken) ==> taken@ == response@,
        schema == 1 ==> (response@ matches ResponseView::Error { message } ==> (r matches Err(e)
            && e@ == "privileged launcher operation: "@ + message)),
{
}

/// What the helper may have written to the directory of backups: journals and baselines.
pub proof fn artifacts_are_journals_and_baselines(name: Seq<char>)
    ensures
        owned_artifact(name) <==> ".baseline"@.is_suffix_of(name) || (".json"@.is_suffix_of(name)
            && (".takeover-"@.is_prefix_of(name) || ".restore-"@.is_prefix_of(name)
            || ".repair-"@.is_prefix_of(name))),
{
}

/// The helper is run through `sudo`, or on Windows through a prompt, with the two paths of the
/// exchange.
pub proof fn the_helper_is_run_with_its_paths(
    executable: Seq<char>,
    request: Seq<char>,
    response: Seq<char>,
)
    ensures
        ({
            let posix = elevated_words(executable, request, response, Platform::Posix);
            let windows = elevated_words(executable, request, response, Platform::Windows);
            &&& posix.len() == 6
            &&& posix[0] == "sudo"@ && posix[1] == "--"@
            &&& posix[2] == executable && posix[3] == "__elevated-shim-helper"@
            &&& posix[4] == request && posix[5] == response
            &&& windows.len() == 8
            &&& windows[0] == "powershell.exe"@
            &&& windows[6] == executable
        }),
{
}

} // verus!
