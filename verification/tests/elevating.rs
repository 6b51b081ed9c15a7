use codex_patcher::elevation::{
    absolute_path, check_wire_length, check_wire_size, elevated_command, helper_entrypoint,
    helper_identity, install_redirect, is_owned_artifact, parse_sudo_id, quote_windows_arg,
    read_response, repair_redirect, respond, returns_to_caller, unexpected_response,
    uninstall_redirect, validate_backups_directory, validate_endpoint_metadata,
    validate_exchange_paths, validate_private_directory, validate_request, validate_schema,
    validate_surface, validate_surface_record, BackupFacts, Denial, ElevationRequest,
    ElevationResponse, EntryFacts, EntryType, HelperIdentity, InstallStep, Outcome, RequestFacts,
    HELPER_COMMAND, MAX_WIRE_BYTES,
};
use codex_patcher::paths::Platform;
use codex_patcher::shim::{
    BaselineBackup, BaselineKind, InstalledShim, ShimForm, SurfaceRecord, SURFACE_RECORD_SCHEMA,
};
use codex_patcher::types::Timestamp;

const CALLER: HelperIdentity = HelperIdentity { uid: 1000, gid: 1000 };

fn text<T>(value: &str) -> Result<String, T> {
    Ok(value.to_owned())
}

fn entry(kind: EntryType, mode: u32) -> EntryFacts {
    EntryFacts { kind, length: 10, uid: 1000, links: 1, mode, owner: Ok(()) }
}

fn record(kind: BaselineKind) -> SurfaceRecord {
    let file = kind == BaselineKind::File;
    SurfaceRecord {
        schema: SURFACE_RECORD_SCHEMA,
        id: 1,
        surface: "/bin/codex".to_owned(),
        baseline: BaselineBackup {
            kind,
            backup_path: if file { Some("/b/1.baseline".to_owned()) } else { None },
            symlink_target: None,
            mode: None,
            sha256: if file { Some("x".to_owned()) } else { None },
            identity: None,
            security: None,
        },
        installed: InstalledShim {
            form: ShimForm::PosixSymlink,
            manager: "/m".to_owned(),
            symlink_target: Some("/m".to_owned()),
            mode: None,
            sha256: None,
            identity: None,
            security: None,
        },
        installed_at: Timestamp { nanos: 0 },
        updater: None,
    }
}

fn facts() -> RequestFacts {
    RequestFacts {
        cwd: text("/work"),
        backup: BackupFacts {
            expected_parent: text("/b"),
            actual_parent: text("/b"),
            entry: Ok(entry(EntryType::File, 0o600)),
        },
        manager_is_file: Ok(true),
        manager_is_running: Ok(true),
        backups_dir: Ok(entry(EntryType::Directory, 0o700)),
    }
}

fn install(surface: &str) -> ElevationRequest {
    ElevationRequest::Install {
        surface: surface.to_owned(),
        manager: "/tmp/x/manager".to_owned(),
        backups_dir: "/tmp/x/backups".to_owned(),
    }
}

#[test]
fn request_validation_rejects_relative_paths_before_mutation() {
    let message = validate_request(&install("relative/codex"), &facts(), CALLER, Platform::Posix)
        .err()
        .unwrap();
    assert!(message.contains("absolute"), "{message}");
}

#[test]
fn exchange_validation_rejects_different_directories() {
    assert!(validate_exchange_paths(
        Platform::Posix,
        "/t/left/request.json",
        "/t/right/response.json",
    ).is_err());
    assert!(validate_exchange_paths(
        Platform::Posix,
        "/t/x/request.json",
        "/t/x/response.json",
    ).is_ok());
}

#[test]
fn wire_schema_and_unknown_fields_fail_closed() {
    assert!(validate_schema(2).is_err());
    assert!(validate_schema(1).is_ok());
    assert_eq!(
        validate_schema(2).err().unwrap(),
        "unsupported elevation request schema 2 (expected 1)"
    );
}

#[test]
fn exchange_paths_have_their_names() {
    let problem = |request: &str, response: &str| {
        validate_exchange_paths(Platform::Posix, request, response).err().unwrap()
    };
    assert_eq!(
        problem("request.json", "/t/response.json"),
        "elevation exchange paths must be absolute"
    );
    assert_eq!(problem("/t/r.json", "/t/response.json"), "invalid elevation request path");
    assert_eq!(problem("/t/request.json", "/t/r.json"), "invalid elevation response path");
}

#[test]
fn valid_requests_pass_and_each_fault_is_named() {
    let check = |facts: &RequestFacts| {
        validate_request(&install("/bin/codex"), facts, CALLER, Platform::Posix)
    };
    assert_eq!(check(&facts()), Ok(()));
    let mut other = facts();
    other.manager_is_running = Ok(false);
    assert_eq!(
        check(&other).err().unwrap(),
        "elevation request manager is not the running stable manager"
    );
    let mut other = facts();
    other.manager_is_file = Ok(false);
    assert!(check(&other).err().unwrap().contains("not a regular file"));
    let mut other = facts();
    other.backups_dir = Ok(entry(EntryType::Directory, 0o777));
    assert!(check(&other).err().unwrap().contains("not safely owned"));
    let same = ElevationRequest::Install {
        surface: "/m/x".to_owned(),
        manager: "/m/./x".to_owned(),
        backups_dir: "/b".to_owned(),
    };
    assert_eq!(
        validate_request(&same, &facts(), CALLER, Platform::Posix).err().unwrap(),
        "launcher surface and stable manager must be different paths"
    );
    let repair = ElevationRequest::Repair {
        record: record(BaselineKind::File),
        manager: "/other".to_owned(),
        backups_dir: "/b".to_owned(),
        adopt: false,
    };
    assert_eq!(
        validate_request(&repair, &facts(), CALLER, Platform::Posix).err().unwrap(),
        "repair manager does not match the recorded stable manager"
    );
}

#[test]
fn records_must_be_consistent_and_their_backups_confined() {
    let check = |record: &SurfaceRecord, facts: &BackupFacts| {
        validate_surface_record(record, facts, CALLER, Platform::Posix)
    };
    assert!(check(&record(BaselineKind::File), &facts().backup).is_ok());
    assert!(check(&record(BaselineKind::Missing), &facts().backup).is_ok());
    let mut odd = record(BaselineKind::Missing);
    odd.baseline.sha256 = Some("x".to_owned());
    assert_eq!(
        check(&odd, &facts().backup).err().unwrap(),
        "surface record contains inconsistent baseline metadata"
    );
    let mut elsewhere = facts().backup;
    elsewhere.actual_parent = text("/etc");
    assert_eq!(
        check(&record(BaselineKind::File), &elsewhere).err().unwrap(),
        "surface record baseline is outside the requested backup directory"
    );
    let mut linked = facts().backup;
    linked.entry = Ok(EntryFacts { links: 2, ..entry(EntryType::File, 0o600) });
    assert!(check(&record(BaselineKind::File), &linked)
        .err()
        .unwrap()
        .contains("multiple hard links"));
    let mut foreign = facts().backup;
    foreign.entry = Ok(EntryFacts { uid: 7, ..entry(EntryType::File, 0o600) });
    assert!(check(&record(BaselineKind::File), &foreign)
        .err()
        .unwrap()
        .contains("unexpected owner"));
    let mut old = record(BaselineKind::Missing);
    old.schema = 4;
    assert!(check(&old, &facts().backup).is_err());
    assert!(validate_surface(Platform::Posix, "/").is_err());
}

#[test]
fn endpoints_and_directories_are_private() {
    let file = |mode| {
        validate_endpoint_metadata("/e", &entry(EntryType::File, mode), CALLER, Platform::Posix)
    };
    assert!(file(0o600).is_ok());
    assert!(file(0o640).is_err());
    let mut long = entry(EntryType::File, 0o600);
    long.length = MAX_WIRE_BYTES + 1;
    assert_eq!(
        validate_endpoint_metadata("/e", &long, CALLER, Platform::Posix).err().unwrap(),
        "elevation endpoint is too large: /e"
    );
    assert!(validate_private_directory(
        "/d",
        &entry(EntryType::Directory, 0o700),
        CALLER,
        Platform::Posix
    )
    .is_ok());
    assert!(validate_private_directory(
        "/d",
        &entry(EntryType::Symlink, 0o700),
        CALLER,
        Platform::Posix
    )
    .is_err());
    assert!(
        validate_backups_directory("b", &Err("gone".to_owned()), CALLER, Platform::Posix).is_err()
    );
    let mut windows = entry(EntryType::File, 0o777);
    windows.owner = Err("not private".to_owned());
    assert_eq!(
        validate_endpoint_metadata("/e", &windows, CALLER, Platform::Windows),
        Err("not private".to_owned())
    );
}

#[test]
fn only_sudo_callers_are_served() {
    let id = |value: &str| text(value);
    assert_eq!(
        helper_identity(0, &id("1000"), &id("100")),
        Ok(HelperIdentity { uid: 1000, gid: 100 })
    );
    assert!(helper_identity(5, &id("1000"), &id("100")).is_err());
    assert!(helper_identity(0, &id("0"), &id("0")).is_err());
    assert_eq!(
        parse_sudo_id("SUDO_UID", &id("4294967296")).err().unwrap(),
        "sudo provided an invalid SUDO_UID: number too large to fit in target type"
    );
    assert_eq!(
        parse_sudo_id("SUDO_UID", &Err("unset".to_owned())).err().unwrap(),
        "sudo did not provide SUDO_UID: unset"
    );
}

#[test]
fn lengths_and_artifacts_are_bounded() {
    assert!(check_wire_length(1).is_ok());
    assert_eq!(
        check_wire_length(0).err().unwrap(),
        "elevation exchange has invalid length 0"
    );
    assert!(check_wire_length(MAX_WIRE_BYTES + 1).is_err());
    assert!(check_wire_size(MAX_WIRE_BYTES).is_ok());
    assert!(check_wire_size(MAX_WIRE_BYTES + 1).is_err());
    assert!(is_owned_artifact(".takeover-1.json"));
    assert!(is_owned_artifact("x.baseline"));
    assert!(!is_owned_artifact("state.json"));
    let mut owned = entry(EntryType::File, 0o600);
    assert!(!returns_to_caller(&owned));
    owned.uid = 0;
    assert!(returns_to_caller(&owned));
}

#[test]
fn only_missing_permissions_are_elevated() {
    let denied = || Err(Denial { message: "denied".to_owned(), denied: true });
    let step = |direct: Result<SurfaceRecord, Denial>, recovered| {
        install_redirect(Platform::Posix, &direct, &recovered, "codex", "/m", "/b", &text("/work"))
    };
    match step(denied(), Some(Ok(Vec::new()))).unwrap() {
        InstallStep::Elevate(ElevationRequest::Install { surface, .. }) => {
            assert_eq!(surface, "/work/codex")
        }
        other => panic!("{other:?}"),
    }
    assert!(matches!(step(denied(), None).unwrap(), InstallStep::Recover));
    let other = Err(Denial { message: "disk full".to_owned(), denied: false });
    assert_eq!(step(other, None).err().unwrap(), "disk full");
    let mut mine = record(BaselineKind::Missing);
    mine.surface = "/work/codex".to_owned();
    assert!(matches!(
        step(denied(), Some(Ok(vec![mine]))).unwrap(),
        InstallStep::Installed(_)
    ));
    assert!(step(denied(), Some(Ok(vec![record(BaselineKind::Missing)]))).is_err());
    let failed = |denied| Err(Denial { message: "no".to_owned(), denied });
    let owned = record(BaselineKind::Missing);
    assert!(uninstall_redirect(
        Platform::Posix,
        &Ok(()),
        &owned,
        "/b",
        &text("/w"),
    ).unwrap().is_none());
    assert!(uninstall_redirect(
        Platform::Posix,
        &failed(true),
        &owned,
        "/b",
        &text("/w"),
    ).unwrap().is_some());
    assert!(uninstall_redirect(
        Platform::Posix,
        &failed(false),
        &owned,
        "/b",
        &text("/w"),
    ).is_err());
    match repair_redirect(
        Platform::Posix,
        &failed(true),
        &owned,
        "m",
        "/b",
        true,
        &text("/w"),
    ).unwrap() {
        Some(ElevationRequest::Repair { manager, adopt, .. }) => {
            assert_eq!(manager, "/w/m");
            assert!(adopt);
        }
        other => panic!("{other:?}"),
    }
    assert_eq!(absolute_path(
        Platform::Posix,
        "a",
        &Err("gone".to_owned()),
    ), Err("gone".to_owned()));
}

#[test]
fn the_helper_is_called_with_two_paths() {
    let words = |list: &[&str]| list.iter().map(|word| word.to_string()).collect::<Vec<_>>();
    assert_eq!(helper_entrypoint(&words(&["x", "status"])), Ok(None));
    assert!(helper_entrypoint(&words(&["x", HELPER_COMMAND, "/r"])).is_err());
    assert_eq!(
        helper_entrypoint(&words(&["x", HELPER_COMMAND, "/r", "/s"])),
        Ok(Some(("/r".to_owned(), "/s".to_owned())))
    );
    assert_eq!(
        elevated_command("/m", "/r", "/s", Platform::Posix),
        ["sudo", "--", "/m", HELPER_COMMAND, "/r", "/s"]
    );
    let windows = elevated_command("m", "a b", "c", Platform::Windows);
    assert_eq!(
        windows.last().map(|line| line.as_str()),
        Some("\"__elevated-shim-helper\" \"a b\" \"c\"")
    );
    assert_eq!(quote_windows_arg("a\"b\\"), "\"a\\\"b\\\\\"");
}

#[test]
fn answers_are_taken_only_for_what_they_are() {
    let response = respond(&Ok(()), &Outcome::Uninstalled);
    assert!(matches!(response, ElevationResponse::Uninstalled));
    assert!(matches!(
        respond(&Err("chown".to_owned()), &Outcome::Uninstalled),
        ElevationResponse::Error { .. }
    ));
    assert!(read_response(1, ElevationResponse::Uninstalled).is_ok());
    assert_eq!(
        read_response(1, ElevationResponse::Error { message: "no".to_owned() })
            .err()
            .unwrap(),
        "privileged launcher operation: no"
    );
    assert!(read_response(3, ElevationResponse::Uninstalled).is_err());
    assert_eq!(
        unexpected_response("install", "Uninstalled"),
        "privileged install returned an unexpected response: Uninstalled"
    );
}

#[test]
fn windows_exchanges_and_requests_have_windows_paths() {
    let on = Platform::Windows;
    let check = |request, response| validate_exchange_paths(on, request, response);
    assert!(check("C:\\t\\x\\request.json", "C:\\t\\x\\response.json").is_ok());
    assert!(check("\\\\s\\t\\x\\request.json", "\\\\s\\t\\x\\response.json").is_ok());
    assert_eq!(
        check("/t/x/request.json", "C:\\t\\x\\response.json").err().unwrap(),
        "elevation exchange paths must be absolute"
    );
    assert!(check("C:\\t\\x\\request.json", "D:\\t\\x\\response.json").is_err());
    assert!(validate_surface(on, "C:\\npm\\codex.cmd").is_ok());
    assert!(validate_surface(on, "npm\\codex.cmd").is_err());
}
