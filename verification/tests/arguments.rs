use rrt_daemon::args::{
    allows_logical_instance_id_rebind, configured_tunnel_ports, instance_id_from_runtime,
    load_args_from, load_reconnect_control_args, parse_runtime_port, Args, ReconnectControlState,
};
use rrt_daemon::startup::{
    read_checkpoint_outcome, read_environment_file, select_checkpoint_handoff_path, strip_quotes,
    CheckpointOutcome, Environment,
};
use rrt_daemon::stream_loop::stream_metadata;

fn environment(pairs: &[(&str, &str)]) -> Environment {
    let mut env = Environment::new();
    for (key, value) in pairs {
        env.insert(key.to_string(), value.to_string());
    }
    env
}

fn args_from(pairs: &[(&str, &str)]) -> Args {
    load_args_from(&environment(pairs))
}

#[test]
fn load_args_from_env_names() {
    let args = args_from(&[
        ("POSIX_LISTEN_ADDR", "192.168.0.2:22773"),
        ("YR_SERVER_ADDRESS", "ignored:1"),
        (
            "YR_RUNTIME_ID",
            "runtime-akernel-my-test-sandbox-000033cfcc77",
        ),
        ("INSTANCE_ID", "akernel-my-test-sandbox"),
        ("YR_JOB_ID", "job-f8ade5e6"),
        (
            "YR_FUNCTION_LIB_PATH",
            "/usr/lib64/python3.11/site-packages/yr/inner/deploy/process/",
        ),
        ("YR_LOG_LEVEL", "INFO"),
    ]);

    assert_eq!(args.rt_server, "192.168.0.2:22773");
    assert_eq!(
        args.runtime_id,
        "runtime-akernel-my-test-sandbox-000033cfcc77"
    );
    assert_eq!(args.instance_id, "akernel-my-test-sandbox");
    assert_eq!(args.job_id, "job-f8ade5e6");
    assert_eq!(
        args.deploy_dir,
        "/usr/lib64/python3.11/site-packages/yr/inner/deploy/process/"
    );
    assert_eq!(args.log_level, "INFO");
}

#[test]
fn load_args_falls_back_to_runtime_id_and_defaults() {
    let args = args_from(&[("YR_RUNTIME_ID", "runtime-demo-sandbox-abcdef")]);

    assert_eq!(args.instance_id, "demo-sandbox");
    assert_eq!(args.log_level, "INFO");
}

#[test]
fn runtime_ids_name_the_instance_between_prefix_and_number() {
    assert_eq!(instance_id_from_runtime("runtime-demo-abc"), "demo");
    assert_eq!(instance_id_from_runtime("other-demo-abc"), "other-demo");
    assert_eq!(instance_id_from_runtime("runtime-demo"), "demo");
}

fn reconnect_args_from(source: &Args, text: &str) -> Result<Args, String> {
    let env = read_environment_file(text.as_bytes()).expect("valid environment");
    load_reconnect_control_args(source, Some(&env))
}

fn source_args() -> Args {
    Args {
        rt_server: "source-proxy:22773".to_string(),
        runtime_id: "runtime-source-attempt".to_string(),
        instance_id: "source-sandbox".to_string(),
        ..Default::default()
    }
}

#[test]
fn trusted_reusable_snapshot_restore_rebinds_logical_instance_id() {
    let source = source_args();

    let restored = reconnect_args_from(
        &source,
        "POSIX_LISTEN_ADDR=target-proxy:22773\n\
         YR_RUNTIME_ID=runtime-clone-attempt\n\
         INSTANCE_ID=clone-sandbox\n\
         YR_ALLOW_LOGICAL_INSTANCE_ID_REBIND=true\n",
    )
    .expect("trusted reusable snapshot restore should permit the target logical identity");

    assert_eq!(restored.rt_server, "target-proxy:22773");
    assert_eq!(restored.runtime_id, "runtime-clone-attempt");
    assert_eq!(restored.instance_id, "clone-sandbox");
}

#[test]
fn ordinary_resume_rejects_logical_instance_id_rebind() {
    let source = source_args();

    let error = reconnect_args_from(
        &source,
        "POSIX_LISTEN_ADDR=target-proxy:22773\n\
         YR_RUNTIME_ID=runtime-resume-attempt\n\
         INSTANCE_ID=other-sandbox\n",
    )
    .expect_err("ordinary pause/resume must keep the source logical identity");

    assert!(error.contains("changed logical instance ID"), "{error}");
}

#[test]
fn invalid_logical_instance_id_rebind_authorization_fails_closed() {
    let source = source_args();

    let error = reconnect_args_from(
        &source,
        "POSIX_LISTEN_ADDR=target-proxy:22773\n\
         YR_RUNTIME_ID=runtime-clone-attempt\n\
         INSTANCE_ID=clone-sandbox\n\
         YR_ALLOW_LOGICAL_INSTANCE_ID_REBIND=maybe\n",
    )
    .expect_err("invalid authorization must never permit logical identity rebind");

    assert!(error.contains("invalid value"), "{error}");
    assert!(error.contains("\"maybe\""), "{error}");
}

#[test]
fn trusted_clone_identity_becomes_baseline_for_ordinary_resume() {
    let mut state = ReconnectControlState::new(source_args());
    let clone_environment = read_environment_file(
        b"POSIX_LISTEN_ADDR=clone-proxy:22773\n\
          YR_RUNTIME_ID=runtime-clone-attempt\n\
          INSTANCE_ID=clone-sandbox\n\
          YR_ALLOW_LOGICAL_INSTANCE_ID_REBIND=true\n",
    )
    .expect("valid clone restore environment");

    let clone = state
        .load(Some(&clone_environment))
        .expect("trusted reusable restore should adopt the clone identity");
    assert_eq!(clone.instance_id, "clone-sandbox");

    let resume_environment = read_environment_file(
        b"POSIX_LISTEN_ADDR=resume-proxy:22773\n\
          YR_RUNTIME_ID=runtime-resume-attempt\n\
          INSTANCE_ID=clone-sandbox\n",
    )
    .expect("valid ordinary resume environment");

    let resumed = state
        .load(Some(&resume_environment))
        .expect("ordinary resume of a cloned sandbox must retain the adopted identity");
    assert_eq!(resumed.instance_id, "clone-sandbox");
    assert_eq!(resumed.runtime_id, "runtime-resume-attempt");
}

#[test]
fn reconnecting_without_an_environment_keeps_the_arguments() {
    let source = source_args();
    let kept = load_reconnect_control_args(&source, None).unwrap();
    assert_eq!(kept, source);
}

#[test]
fn reconnect_stream_metadata_uses_validated_target_logical_identity() {
    let target = Args {
        runtime_id: "runtime-clone-attempt".to_string(),
        instance_id: "clone-sandbox".to_string(),
        ..Default::default()
    };

    let metadata = stream_metadata(&target);
    let get = |name: &str| {
        metadata
            .iter()
            .find(|(key, _)| key == name)
            .map(|(_, value)| value.as_str())
    };

    assert_eq!(get("instance_id"), Some("clone-sandbox"));
    assert_eq!(get("source_id"), Some("clone-sandbox"));
}

#[test]
fn rebinding_is_allowed_by_words_and_numbers() {
    for (raw, allowed) in [("true", true), ("1", true), ("false", false), ("0", false)] {
        let env = environment(&[("YR_ALLOW_LOGICAL_INSTANCE_ID_REBIND", raw)]);
        assert_eq!(allows_logical_instance_id_rebind(&env), Ok(allowed));
    }
    assert_eq!(allows_logical_instance_id_rebind(&environment(&[])), Ok(false));
}

#[test]
fn ports_are_numbers_above_zero() {
    assert_eq!(parse_runtime_port("RRT_HTTP_PORT", "50090"), Ok(50090));
    assert!(parse_runtime_port("RRT_HTTP_PORT", "70000").is_err());
    assert!(parse_runtime_port("RRT_HTTP_PORT", "http").is_err());
}

#[test]
fn tunnel_ports_follow_the_first() {
    assert_eq!(configured_tunnel_ports(None, None), Ok(None));
    assert_eq!(
        configured_tunnel_ports(Some("8765"), Some("8766")),
        Ok(Some((8765, 8766)))
    );
    assert_eq!(
        configured_tunnel_ports(Some("8765"), None),
        Ok(Some((8765, 8766)))
    );
    assert_eq!(
        configured_tunnel_ports(Some("65535"), None),
        Err("RRT_TUNNEL_HTTP_PORT is required when RRT_TUNNEL_WS_PORT is 65535".to_string())
    );
    assert_eq!(configured_tunnel_ports(None, Some("8766")), Ok(None));
}

#[test]
fn strip_matching_quotes_only() {
    assert_eq!(strip_quotes("\"quoted value\""), "quoted value");
    assert_eq!(strip_quotes("'quoted value'"), "quoted value");
    assert_eq!(strip_quotes("\"unmatched'"), "\"unmatched'");
    assert_eq!(strip_quotes("plain"), "plain");
}

#[test]
fn a_single_quote_character_is_kept() {
    assert_eq!(strip_quotes("\""), "\"");
    assert_eq!(strip_quotes("''"), "");
}

#[test]
fn dedicated_checkpoint_handoff_path_wins_over_runtime_fallback() {
    assert_eq!(
        select_checkpoint_handoff_path(
            Some("/run/sandboxd/checkpoint"),
            "/proc/gvisor/checkpoint",
            true,
        ),
        Some("/run/sandboxd/checkpoint".to_string()),
    );
    assert_eq!(
        select_checkpoint_handoff_path(Some(""), "/proc/gvisor/checkpoint", true),
        Some("/proc/gvisor/checkpoint".to_string()),
    );
}

#[test]
fn without_any_checkpoint_path_there_is_none() {
    assert_eq!(
        select_checkpoint_handoff_path(None, "/proc/gvisor/checkpoint", false),
        None
    );
}

#[test]
fn checkpoint_outcomes_are_three_words() {
    assert_eq!(read_checkpoint_outcome(" resume\n"), Some(CheckpointOutcome::Resume));
    assert_eq!(read_checkpoint_outcome("restore"), Some(CheckpointOutcome::Restore));
    assert_eq!(read_checkpoint_outcome("error"), Some(CheckpointOutcome::Error));
    assert_eq!(read_checkpoint_outcome("other"), None);
}

#[test]
fn environment_files_have_lines_comments_and_quotes() {
    let env = read_environment_file(b"# note\nA = \"x y\"\n\nbroken\n=none\nB=2\nA='z'\n").unwrap();
    assert_eq!(env.get("A").map(String::as_str), Some("z"));
    assert_eq!(env.get("B").map(String::as_str), Some("2"));
    assert_eq!(env.get("broken"), None);
}

#[test]
fn environment_files_with_zero_bytes_keep_values_as_they_are() {
    let env = read_environment_file(b"A=\"x\"\0B= y \0").unwrap();
    assert_eq!(env.get("A").map(String::as_str), Some("\"x\""));
    assert_eq!(env.get("B").map(String::as_str), Some(" y"));
}

#[test]
fn environment_entries_that_are_no_text_are_refused_by_line() {
    assert_eq!(read_environment_file(b"A=1\nB=\xff\n").err(), Some(2));
}
