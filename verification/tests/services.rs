use rrt_daemon::entrypoint::{
    check_config_file, check_spec, exit_info, exit_json, exit_value, lookups, push_tail,
    resolve_identity,
    signal_name, validate_canonical_absolute_path, wait_failed_info, Ending, EntrypointState,
    ExitInfo, Failure, Manager, Probe, ProcessSpec, UserKey,
};
use rrt_daemon::filesystem::{map_io, EntryStat, FilesystemSvc, IoFault, IoKind, Removal, StatResponse};
use rrt_daemon::health::HealthSvc;
use rrt_daemon::messages::ErrorCodes;
use rrt_daemon::port::{decode_hex_ip, parse_proc_net_tcp};
use rrt_daemon::process::{
    exec_arguments, exec_json, ExecEnd, ExecRequest, ExecResponse, Fault, ProcessSvc,
};
use rrt_daemon::value::Datum;

#[test]
fn parses_ipv4_listen() {
    // Port 0x1538=5432; address 0100007F=127.0.0.1 in little-endian form.
    let sample = "  sl  local_address rem_address   st ...\n   0: 0100007F:1538 00000000:0000 0A 00000000\n   1: 0100007F:0050 0100007F:9999 01 00000000\n";
    let mut out = Vec::new();
    parse_proc_net_tcp(sample, false, &mut out);
    assert_eq!(out.len(), 1); // Only the 0A (LISTEN) line remains.
    assert_eq!(out[0].port, 5432);
    assert_eq!(out[0].address, "127.0.0.1");
}

#[test]
fn addresses_of_sixteen_bytes_are_grouped() {
    assert_eq!(
        decode_hex_ip("00000000000000000000000001000000", true),
        "0000:0000:0000:0000:0000:0000:0000:0001"
    );
    assert_eq!(decode_hex_ip("B80D0120000000000000000001000000", true), "2001:0db8:0000:0000:0000:0000:0000:0001");
    assert_eq!(decode_hex_ip("0100007F", true), "0100007F");
    assert_eq!(decode_hex_ip("0100007G", false), "0100007G");
}

#[test]
fn tables_without_listeners_add_nothing() {
    let mut out = Vec::new();
    parse_proc_net_tcp("", false, &mut out);
    parse_proc_net_tcp("caption\nshort line\n0: nocolon x 0A\n", false, &mut out);
    parse_proc_net_tcp("caption\n 0: 0100007F:zz 00000000:0000 0A\n", false, &mut out);
    assert!(out.is_empty());
}

#[test]
fn health_is_reported_with_a_version() {
    let answer = HealthSvc::default().check();
    assert!(answer.healthy);
    assert_eq!(answer.version, "0.1.0");
}

#[test]
fn empty_commands_are_refused() {
    let svc = ProcessSvc::default();
    let request = |cmd: &str, cwd: &str| ExecRequest {
        cmd: cmd.to_string(),
        args: vec!["a".to_string()],
        cwd: cwd.to_string(),
        env: Vec::new(),
    };
    assert_eq!(
        svc.plan_exec(request("", "")),
        Err(Fault::InvalidArgument("cmd is empty".to_string()))
    );
    let plan = svc.plan_exec(request("ls", "/tmp")).unwrap();
    assert_eq!((plan.cmd.as_str(), plan.cwd.as_deref()), ("ls", Some("/tmp")));
    assert_eq!(svc.plan_exec(request("ls", "")).unwrap().cwd, None);
}

#[test]
fn commands_that_a_signal_ended_have_no_code() {
    let svc = ProcessSvc::default();
    let ended = |code| ExecEnd::Ended {
        code,
        stdout: b"out".to_vec(),
        stderr: Vec::new(),
    };
    assert_eq!(svc.exec(ended(Some(3))).unwrap().exit_code, 3);
    assert_eq!(svc.exec(ended(None)).unwrap().exit_code, -1);
    assert_eq!(
        svc.exec(ExecEnd::NotStarted("no such file".to_string())),
        Err(Fault::Internal("spawn failed: no such file".to_string()))
    );
}

#[test]
fn results_of_commands_are_json() {
    let response = ExecResponse {
        exit_code: -1,
        stdout: b"a\n".to_vec(),
        stderr: b"\xff".to_vec(),
    };
    assert_eq!(
        exec_json(&response),
        "{\"returncode\":-1,\"stderr\":\"\u{fffd}\",\"stdout\":\"a\\n\"}"
    );
}

#[test]
fn command_lines_need_four_words() {
    let words = |line: &str| line.split(' ').map(str::to_string).collect::<Vec<_>>();
    let (address, request) = exec_arguments(&words("rrtctl exec http://a ls -l /")).unwrap();
    assert_eq!(address, "http://a");
    assert_eq!((request.cmd.as_str(), request.args.len()), ("ls", 2));
    assert!(exec_arguments(&words("rrtctl exec http://a")).is_none());
    assert!(exec_arguments(&words("rrtctl run http://a ls")).is_none());
}

#[test]
fn missing_entries_are_an_answer() {
    let svc = FilesystemSvc::default();
    let fault = |kind| IoFault {
        kind,
        message: "m".to_string(),
    };
    let there = EntryStat {
        is_dir: true,
        size: 1,
        mode: 2,
        mtime_unix: 3,
    };
    assert_eq!(
        svc.stat(Ok(there)),
        Ok(StatResponse {
            exists: true,
            is_dir: true,
            size: 1,
            mode: 2,
            mtime_unix: 3
        })
    );
    assert!(!svc.stat(Err(fault(IoKind::NotFound))).unwrap().exists);
    assert_eq!(
        svc.stat(Err(fault(IoKind::PermissionDenied))),
        Err(Fault::Internal("m".to_string()))
    );
    assert_eq!(
        map_io::<()>(Err(fault(IoKind::NotFound))),
        Err(Fault::NotFound("m".to_string()))
    );
    assert_eq!(
        map_io::<()>(Err(fault(IoKind::PermissionDenied))),
        Err(Fault::PermissionDenied("m".to_string()))
    );
    assert_eq!(
        map_io::<()>(Err(fault(IoKind::Other))),
        Err(Fault::Internal("m".to_string()))
    );
    assert_eq!(map_io(Ok(1)), Ok(1));
    assert_eq!(svc.remove(true, true), Removal::Tree);
    assert_eq!(svc.remove(true, false), Removal::EmptyDirectory);
    assert_eq!(svc.remove(false, true), Removal::File);
}

// ───────────────────────── the entrypoint ─────────────────────────

fn codes() -> ErrorCodes {
    ErrorCodes {
        none: 0,
        instance_busy: 1009,
        inner_system_error: 3003,
        param_invalid: 1001,
        user_function_exception: 2002,
    }
}

fn spec(args: &[&str]) -> ProcessSpec {
    ProcessSpec {
        version: 1,
        args: args.iter().map(|a| a.to_string()).collect(),
        cwd: "/".to_string(),
        user: String::new(),
    }
}

#[test]
fn empty_effective_argv_matches_docker_create_failure() {
    assert_eq!(
        check_spec(&spec(&[])).unwrap_err(),
        "image has no startup command"
    );
}

#[test]
fn preserves_empty_nonzero_argv_elements() {
    let spec = spec(&["/bin/echo", ""]);
    check_spec(&spec).expect("empty argument is valid after argv[0]");
    assert_eq!(spec.args[1], "");
}

#[test]
fn specs_are_refused_for_a_reason() {
    assert_eq!(
        check_spec(&spec(&[""])).unwrap_err(),
        "image process argv[0] is empty"
    );
    assert_eq!(
        check_spec(&spec(&["a", "b\0"])).unwrap_err(),
        "image process argument contains NUL"
    );
    let mut other = spec(&["a"]);
    other.version = 2;
    assert_eq!(
        check_spec(&other).unwrap_err(),
        "unsupported image process config version 2"
    );
    let mut other = spec(&["a"]);
    other.cwd = "tmp".to_string();
    assert!(check_spec(&other).is_err());
    let mut other = spec(&["a"]);
    other.user = "\0".to_string();
    assert_eq!(check_spec(&other).unwrap_err(), "image user contains NUL");
}

#[test]
fn paths_are_absolute_and_plain() {
    assert!(validate_canonical_absolute_path("/a/b", "dir").is_ok());
    assert!(validate_canonical_absolute_path("a/b", "dir").is_err());
    assert!(validate_canonical_absolute_path("/a/../b", "dir").is_err());
}

#[test]
fn config_files_are_regular_and_small() {
    assert!(check_config_file("/c", true, 10).is_ok());
    assert!(check_config_file("/c", false, 10).is_err());
    assert!(check_config_file("/c", true, u64::MAX).is_err());
}

#[test]
fn resolves_numeric_and_named_image_users() {
    let numeric = resolve_identity("1234:5678", None, None)
        .expect("numeric identity")
        .expect("configured identity");
    assert_eq!(numeric.uid, 1234);
    assert_eq!(numeric.gid, 5678);
    assert!(numeric.user_name.is_none());

    let named = resolve_identity("root", Some((0, 0)), None)
        .expect("root identity")
        .expect("configured identity");
    assert_eq!(named.uid, 0);
    assert!(named.user_name.is_some());
}

#[test]
fn unknown_users_and_groups_are_named() {
    assert_eq!(resolve_identity("", None, None), Ok(None));
    assert_eq!(lookups("12:staff"), (UserKey::Number(12), "staff".to_string()));
    assert_eq!(lookups("root"), (UserKey::Name("root".to_string()), String::new()));
    assert!(resolve_identity("nobody2", None, None)
        .unwrap_err()
        .contains("\"nobody2\""));
    assert!(resolve_identity("1:staff2", None, None)
        .unwrap_err()
        .contains("\"staff2\""));
}

fn exited(code: i32) -> ExitInfo {
    ExitInfo {
        kind: "entrypoint_exited",
        pid: 7,
        status_kind: "exited",
        exit_code: Some(code),
        signal: None,
        signal_name: None,
        shell_exit_code: code,
        core_dumped: false,
        started_at: 1,
        exited_at: 2,
        runtime_ms: 1,
        stderr_tail: String::new(),
        message: format!("entrypoint exited with code {code}"),
    }
}

#[test]
fn complete_create_fails_if_entrypoint_already_exited() {
    let mut manager = Manager::disabled();
    manager.state = EntrypointState::Exited(exited(0));
    let error = manager
        .complete_create(&Probe::Running, &codes())
        .expect_err("create must fail");
    assert_eq!(error.code, codes().user_function_exception);
}

#[test]
fn completed_create_remains_successful_after_entrypoint_exit() {
    let mut manager = Manager::disabled();
    manager.create_completed = true;
    manager.state = EntrypointState::Exited(exited(1));
    assert!(manager.complete_create(&Probe::Running, &codes()).is_ok());
}

#[test]
fn failures_of_the_entrypoint_are_reported() {
    let mut manager = Manager::disabled();
    manager.fail_invalid("bad".to_string(), &codes());
    assert_eq!(
        manager.complete_create(&Probe::Running, &codes()),
        Err(Failure {
            code: codes().param_invalid,
            message: "bad".to_string()
        })
    );
    let mut manager = Manager::disabled();
    manager.spawned(Err("no file".to_string()), &codes());
    assert_eq!(
        manager.complete_create(&Probe::Running, &codes()),
        Err(Failure {
            code: codes().user_function_exception,
            message: "failed to spawn image entrypoint: no file".to_string()
        })
    );
}

#[test]
fn exits_are_described() {
    let ending = |code, signal| Ending {
        code,
        signal,
        core_dumped: false,
        started_at: 1,
        exited_at: 5,
        runtime_ms: 4,
    };
    assert_eq!(exit_info(7, ending(Some(0), None), String::new()).message, "entrypoint exited with code 0");
    let killed = exit_info(7, ending(None, Some(9)), String::new());
    assert_eq!(killed.signal_name, Some("SIGKILL"));
    assert_eq!(killed.shell_exit_code, 137);
    assert_eq!(signal_name(15), Some("SIGTERM"));
    let lost = wait_failed_info(7, 1, 5, 4, String::new(), "gone");
    assert_eq!(lost.status_kind, "wait_failed");
    assert_eq!(lost.message, "failed to wait for image entrypoint: gone");
    assert!(exit_json(&exited(0)).contains("\"exit_code\":0"));
    let Datum::Dict(fields) = exit_value(&exited(3)) else {
        panic!("no dictionary");
    };
    assert!(fields
        .iter()
        .any(|(k, v)| k.as_str() == Some("exit_code") && v.as_i64() == Some(3)));
}

#[test]
fn tails_keep_the_last_bytes() {
    let mut tail = vec![1u8; 10];
    push_tail(&mut tail, &vec![2u8; 1 << 20]);
    assert!(tail.len() < 1 << 20);
    assert!(tail.iter().all(|b| *b == 2));
}
