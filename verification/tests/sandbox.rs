use rrt_daemon::bash::{find_completion, open_error, OpenStep, Sessions};
use rrt_daemon::child_env::{filtered, is_reserved, validate_override};
use rrt_daemon::cmd::{
    cmd_kill, cmd_poll, cmd_wait, command_not_started, command_step, drained, env_pairs, kw_number,
    needs_direct_kill, plan_command, plan_start, reap_step, run_command, ChildPoll, CommandStep,
    Ended, Number, Processes, ReapStep,
};
use rrt_daemon::codec::{map_value, Kwargs};
use rrt_daemon::dedup::{DedupCache, Once, REQUEST_DEDUP_TTL};
use rrt_daemon::dispatch::{
    access_command_summary, access_trace_id, dispatch_runtime_action, execute_sandbox_action,
    normalize_sandbox_action, sanitize_log_field, start_tunnel_server, tunnel_not_ready, CallPlan,
    Ctx, Performed, RuntimeAction,
};
use rrt_daemon::fs::{
    decode_hex, encode_hex, file_name, fs_exists, fs_get_info, fs_list, fs_make_dir, fs_read,
    fs_read_chunk, fs_remove, fs_rename, fs_write, fs_write_bytes, fs_write_chunk, kw_limit,
    kw_offset, plan_write_chunk, EntryFacts, EntryKind,
};
use rrt_daemon::http::request::request_id_from;
use rrt_daemon::http::server::execute_invoke;
use rrt_daemon::messages::{Body, CallRequest, ErrorCodes};
use rrt_daemon::stream::{
    plan_open, sandbox_stream_close, sandbox_stream_recv, StreamKind, Streams, TarEnd,
};
use rrt_daemon::value::Datum;
use rrt_daemon::args::Args;
use rrt_daemon::codec::{yr_deserialize, yr_serialize_value, Arg};

fn keywords(entries: Vec<(&str, Datum)>) -> Kwargs {
    let mut kw = Kwargs::new();
    for (key, value) in entries {
        kw.insert(key.to_string(), value);
    }
    kw
}

fn field<'a>(value: &'a Datum, name: &str) -> &'a Datum {
    let Datum::Dict(fields) = value else {
        panic!("no dictionary: {value:?}");
    };
    fields
        .iter()
        .find(|(key, _)| key.as_str() == Some(name))
        .map(|(_, value)| value)
        .unwrap_or_else(|| panic!("no {name} in {value:?}"))
}

fn names(value: &Datum) -> Vec<String> {
    let Datum::Dict(fields) = value else {
        panic!("no dictionary: {value:?}");
    };
    fields
        .iter()
        .map(|(key, _)| key.as_str().unwrap().to_string())
        .collect()
}

// ───────────────────────── names and logs ─────────────────────────

#[test]
fn normalizes_public_sandbox_actions_to_rrt_methods() {
    assert_eq!(normalize_sandbox_action("process.exec"), Some("cmd_run"));
    assert_eq!(normalize_sandbox_action("file.read"), Some("fs_read"));
    assert_eq!(normalize_sandbox_action("shell.run"), Some("bash_submit"));
    assert_eq!(normalize_sandbox_action("unknown"), None);
}

#[test]
fn methods_find_the_operation_of_the_same_name() {
    assert_eq!(dispatch_runtime_action("fs_rename"), Some(RuntimeAction::FsRename));
    assert_eq!(dispatch_runtime_action("process.exec"), None);
    assert_eq!(RuntimeAction::FsRename.name(), "fs_rename");
}

#[test]
fn access_command_summary_includes_command_and_sanitizes_newlines() {
    let kw = keywords(vec![("cmd", Datum::text("printf 'hello\nworld'"))]);
    assert_eq!(
        access_command_summary("cmd_run", &kw),
        "cmd_run printf 'hello\\nworld'"
    );
}

#[test]
fn access_command_summary_truncates_at_utf8_boundary() {
    let command = format!("{}中{}", "a".repeat(511), "b".repeat(280));
    assert_eq!(command.len(), 794);

    let kw = keywords(vec![("cmd", Datum::Text(command))]);

    assert_eq!(
        access_command_summary("cmd_run", &kw),
        format!("cmd_run {}...", "a".repeat(511))
    );
}

#[test]
fn short_log_fields_are_kept_whole() {
    assert_eq!(sanitize_log_field("a b\r\n"), "a b\\r\\n");
    assert_eq!(sanitize_log_field(&"x".repeat(512)), "x".repeat(512));
}

#[test]
fn access_trace_id_falls_back_to_request_id() {
    assert_eq!(access_trace_id("trace-1", "req-1"), "trace-1");
    assert_eq!(access_trace_id("", "req-1"), "req-1");
}

#[test]
fn dispatches_process_exec_action_args() {
    let kw = keywords(vec![("cmd", Datum::text("printf sandbox-invoke"))]);
    let action = execute_sandbox_action("process.exec")
        .expect("sandbox action should dispatch through the shared path");
    assert_eq!(action, RuntimeAction::CmdRun);
    let spec = plan_command(&kw).expect("the command can run");
    assert_eq!(spec.cmd, "printf sandbox-invoke");
    let result = run_command(
        ChildPoll::Exited { code: Some(0) },
        false,
        b"sandbox-invoke",
        b"",
        "",
    );
    assert_eq!(field(&result, "stdout").as_str(), Some("sandbox-invoke"));
    assert_eq!(field(&result, "exit_code").as_i64(), Some(0));
}

#[test]
fn unknown_actions_are_refused_by_name() {
    assert_eq!(
        execute_sandbox_action("nothing"),
        Err("unsupported sandbox action: nothing".to_string())
    );
}

#[test]
fn deduplicates_sandbox_actions_by_request_id() {
    let mut cache: DedupCache<String> = DedupCache::new();
    let Once::Own(slot) = cache.once(Some("rrt-dedup-test-request"), 0) else {
        panic!("first action should run");
    };
    cache.complete_dedup_response(slot, "first".to_string());
    let Once::Follow(duplicate) = cache.once(Some("rrt-dedup-test-request"), 1) else {
        panic!("duplicate action should reuse the first result");
    };
    assert_eq!(
        cache.wait_dedup_response(duplicate).map(String::as_str),
        Some("first")
    );
}

#[test]
fn requests_without_a_number_run_each_time() {
    let mut cache: DedupCache<u8> = DedupCache::new();
    assert_eq!(cache.once(None, 0), Once::Run);
    assert_eq!(cache.once(None, 0), Once::Run);
}

#[test]
fn retries_get_the_first_result_over_either_transport() {
    let mut cache: DedupCache<Performed> = DedupCache::new();
    let mut request = call(false, vec![]);
    request.request_id = "req-9".to_string();
    let Once::Own(slot) = cache.once(Some(&request.request_id), 0) else {
        panic!("first action should run");
    };
    let Once::Own(other) = cache.once(Some("another"), 1) else {
        panic!("another action should run");
    };
    cache.complete_dedup_response(other, Performed::Broken("x".to_string()));
    cache.complete_dedup_response(slot, Performed::Done(Datum::text("first")));

    let head = "POST /invoke HTTP/1.1\r\nX-Request-Id: req-9\r\n\r\n";
    let number = request_id_from(head, None);
    assert_eq!(cache.once(number.as_deref(), 2), Once::Follow(slot));
    let first = cache.wait_dedup_response(slot).unwrap().duplicate();
    assert_eq!(execute_invoke(&first).body, "\"first\"");

    assert_eq!(cache.once(Some(&request.request_id), 3), Once::Follow(slot));
    let again = cache.wait_dedup_response(slot).unwrap().duplicate();
    let codes = ErrorCodes {
        none: 0,
        instance_busy: 1,
        inner_system_error: 2,
        param_invalid: 3,
        user_function_exception: 4,
    };
    assert_eq!(
        context().performed_reply(&request, &again, &codes),
        context().value_reply(&request, &Datum::text("first"))
    );
    assert_eq!(
        context().performed_reply(&request, &Performed::Unsupported("a".to_string()), &codes),
        context().error_reply(&request, "unsupported sandbox action: a")
    );
}

#[test]
fn late_followers_still_get_the_response() {
    let mut cache: DedupCache<u8> = DedupCache::new();
    let (slot, _) = cache.reserve_request_id("r", 0);
    assert_eq!(cache.reserve_request_id("r", 1), (slot, false));
    cache.cleanup_dedup_cache(REQUEST_DEDUP_TTL + 1);
    assert_eq!(cache.wait_dedup_response(slot), None);
    assert!(cache.reserve_request_id("r", REQUEST_DEDUP_TTL + 1).1);
    cache.complete_dedup_response(slot, 7);
    cache.cleanup_dedup_cache(REQUEST_DEDUP_TTL + 2);
    assert_eq!(cache.wait_dedup_response(slot), Some(&7));
    cache.cleanup_dedup_cache(REQUEST_DEDUP_TTL + 2);
    assert_eq!(cache.wait_dedup_response(slot), None);
}

#[test]
fn tunnels_that_do_not_start_are_reported() {
    let request = call(false, vec![]);
    assert_eq!(
        context().tunnel_reply(&request, &Ok(())),
        context().value_reply(&request, &Datum::Nil)
    );
    assert_eq!(
        context().tunnel_reply(&request, &Err("late".to_string())),
        context().error_reply(&request, "late")
    );
}

#[test]
fn old_responses_are_forgotten() {
    let mut cache: DedupCache<u8> = DedupCache::new();
    let (slot, owner) = cache.reserve_request_id("r", 0);
    assert!(owner);
    cache.complete_dedup_response(slot, 1);
    assert!(!cache.reserve_request_id("r", REQUEST_DEDUP_TTL).1);
    assert!(cache.reserve_request_id("r", REQUEST_DEDUP_TTL + 1).1);
}

// ───────────────────────── environment ─────────────────────────

#[test]
fn filters_reserved_runtime_environment() {
    let variable = |key: &str, value: &str| (key.as_bytes().to_vec(), value.as_bytes().to_vec());
    let values = filtered(vec![
        variable("PATH", "/bin"),
        variable("YR_IMAGE_PROCESS_CONFIG", "/tmp/spec"),
        variable("USER_VALUE", "ok"),
    ]);
    assert_eq!(values.len(), 2);
    assert!(values.iter().all(|(key, _)| !is_reserved(key)));
}

#[test]
fn rejects_reserved_user_override() {
    assert!(validate_override("YR_INTERNAL").is_err());
    assert!(validate_override("USER_VALUE").is_ok());
}

// ───────────────────────── commands ─────────────────────────

#[test]
fn commands_take_directory_variables_and_timeout() {
    let envs = map_value(vec![("A", Datum::text("1")), ("B", Datum::integer(2))]);
    let kw = keywords(vec![
        ("cmd", Datum::text("true")),
        ("cwd", Datum::text("")),
        ("envs", envs),
        ("timeout", Datum::integer(5)),
    ]);
    let spec = plan_command(&kw).unwrap();
    assert_eq!(spec.cwd, None);
    assert_eq!(spec.envs, vec![("A".to_string(), "1".to_string())]);
    assert_eq!(spec.timeout, Some(Number::Signed(5)));
}

#[test]
fn commands_may_not_set_reserved_variables() {
    let envs = map_value(vec![("YR_SECRET", Datum::text("1"))]);
    let kw = keywords(vec![("cmd", Datum::text("true")), ("envs", envs)]);
    let refused = plan_command(&kw).unwrap_err();
    assert_eq!(field(&refused, "exit_code").as_i64(), Some(-1));
    assert_eq!(
        field(&refused, "stderr").as_str(),
        Some("environment variable YR_SECRET uses the reserved YR_ prefix")
    );
}

#[test]
fn numbers_come_as_integers_or_floats() {
    let kw = keywords(vec![
        ("f", Datum::Float64(0.5f64.to_bits())),
        ("i", Datum::Signed(-3)),
        ("s", Datum::text("1")),
    ]);
    assert_eq!(kw_number(&kw, "f"), Some(Number::Float64(0.5f64.to_bits())));
    assert_eq!(kw_number(&kw, "i"), Some(Number::Signed(-3)));
    assert_eq!(kw_number(&kw, "s"), None);
    assert_eq!(kw_number(&kw, "none"), None);
}

#[test]
fn commands_are_killed_once_their_time_is_over() {
    assert_eq!(command_step(&ChildPoll::Running, false), CommandStep::Wait);
    assert_eq!(command_step(&ChildPoll::Running, true), CommandStep::Kill);
    assert_eq!(
        command_step(&ChildPoll::Exited { code: None }, true),
        CommandStep::Finish
    );
}

#[test]
fn timed_out_commands_say_after_how_long() {
    let result = run_command(ChildPoll::Exited { code: None }, true, b"", b"", "0.1");
    assert_eq!(field(&result, "exit_code").as_i64(), Some(-1));
    assert!(field(&result, "stderr")
        .as_str()
        .unwrap()
        .contains("Command timed out after 0.1 seconds"));
}

#[test]
fn output_that_is_no_text_is_replaced() {
    let result = run_command(ChildPoll::Exited { code: Some(3) }, false, b"a\xffb", b"e", "");
    assert_eq!(field(&result, "stdout").as_str(), Some("a\u{fffd}b"));
    assert_eq!(field(&result, "stderr").as_str(), Some("e"));
    assert_eq!(field(&result, "exit_code").as_i64(), Some(3));
}

#[test]
fn commands_that_do_not_start_have_no_output() {
    let result = command_not_started("no shell".to_string());
    assert_eq!(field(&result, "stdout").as_str(), Some(""));
    assert_eq!(field(&result, "stderr").as_str(), Some("no shell"));
    assert_eq!(field(&result, "exit_code").as_i64(), Some(-1));
}

#[test]
fn a_child_is_killed_directly_where_its_group_was_not() {
    assert!(!needs_direct_kill(true, false));
    assert!(needs_direct_kill(false, false));
}

#[test]
fn variables_are_the_texts_of_a_dictionary() {
    assert!(env_pairs(None).is_empty());
    assert!(env_pairs(Some(&Datum::integer(1))).is_empty());
}

#[test]
fn processes_are_listed_and_waited_for() {
    let mut processes = Processes::new();
    let start = plan_start(&keywords(vec![
        ("cmd", Datum::text("cat")),
        ("want_stdin", Datum::Boolean(true)),
    ]));
    assert!(start.want_stdin);
    let (reply, number) = processes.cmd_start(&start, Ok(42));
    assert_eq!(field(&reply, "pid").as_i64(), Some(42));
    assert_eq!(field(&reply, "error"), &Datum::Nil);

    let listed = processes.cmd_list();
    let Datum::Array(items) = field(&listed, "processes") else {
        panic!("{listed:?}");
    };
    assert_eq!(field(&items[0], "running"), &Datum::Boolean(true));
    assert_eq!(field(&items[0], "cmd").as_str(), Some("cat"));

    let pid = keywords(vec![("pid", Datum::integer(42))]);
    assert_eq!(processes.plan_wait(&pid).unwrap(), (42, None));
    assert_eq!(processes.plan_kill(&pid).unwrap(), 42);
    processes.exited(42, number.unwrap(), None);
    let listed = processes.cmd_list();
    let Datum::Array(items) = field(&listed, "processes") else {
        panic!("{listed:?}");
    };
    assert_eq!(field(&items[0], "running"), &Datum::Boolean(false));
}

#[test]
fn every_process_is_listed_once() {
    let mut processes = Processes::new();
    let start = plan_start(&keywords(vec![("cmd", Datum::text("cat"))]));
    let mut numbers = Vec::new();
    for pid in [3i64, 1, 2, 3] {
        numbers.push(processes.cmd_start(&start, Ok(pid)).1.unwrap());
    }
    processes.exited(2, numbers[2], Some(0));
    let listed = processes.cmd_list();
    let Datum::Array(items) = field(&listed, "processes") else {
        panic!("{listed:?}");
    };
    let mut found: Vec<(i64, bool)> = items
        .iter()
        .map(|item| {
            let running = field(item, "running") == &Datum::Boolean(true);
            (field(item, "pid").as_i64().unwrap(), running)
        })
        .collect();
    found.sort();
    assert_eq!(found, vec![(1, true), (2, false), (3, true)]);
}

#[test]
fn an_exit_does_not_touch_a_later_process() {
    let running = |processes: &Processes| {
        let listed = processes.cmd_list();
        let Datum::Array(items) = field(&listed, "processes") else {
            panic!("{listed:?}");
        };
        assert_eq!(items.len(), 1);
        field(&items[0], "running") == &Datum::Boolean(true)
    };
    let mut processes = Processes::new();
    let start = plan_start(&keywords(vec![("cmd", Datum::text("cat"))]));
    let first = processes.cmd_start(&start, Ok(42)).1.unwrap();
    let second = processes.cmd_start(&start, Ok(42)).1.unwrap();
    assert_ne!(first, second);
    processes.exited(42, first, Some(0));
    assert!(running(&processes));
    processes.exited(42, second, Some(0));
    assert!(!running(&processes));
}

#[test]
fn killed_commands_are_waited_for_a_moment() {
    let running = ChildPoll::Running;
    assert_eq!(reap_step(&running, false), ReapStep::Wait);
    assert_eq!(reap_step(&running, true), ReapStep::HandOver);
    let exited = ChildPoll::Exited { code: None };
    assert_eq!(reap_step(&exited, true), ReapStep::Finish);
    let failed = ChildPoll::Failed {
        error: "gone".to_string(),
    };
    assert_eq!(reap_step(&failed, false), ReapStep::Finish);
}

#[test]
fn outputs_are_waited_for_a_while() {
    assert!(!drained(false, false, false));
    assert!(!drained(true, false, false));
    assert!(!drained(false, true, false));
    assert!(drained(true, true, false));
    assert!(drained(false, true, true));
}

#[test]
fn processes_that_are_not_there_are_named() {
    let mut processes = Processes::new();
    let none = keywords(vec![("pid", Datum::integer(7))]);
    let wait = processes.plan_wait(&none).unwrap_err();
    assert_eq!(field(&wait, "stderr").as_str(), Some("No process with pid 7"));
    let poll = processes.plan_poll(&none).unwrap_err();
    assert_eq!(field(&poll, "status").as_str(), Some("error"));
    let kill = processes.plan_kill(&none).unwrap_err();
    assert_eq!(field(&kill, "killed"), &Datum::Boolean(false));
    let stdin = processes.plan_stdin(&none).unwrap_err();
    assert_eq!(field(&stdin, "error").as_str(), Some("No process with pid 7"));
    let failed = plan_start(&keywords(vec![("cmd", Datum::text("x"))]));
    let (reply, number) = processes.cmd_start(&failed, Err("no shell".to_string()));
    assert_eq!(number, None);
    assert_eq!(field(&reply, "pid").as_i64(), Some(-1));
    assert_eq!(field(&reply, "error").as_str(), Some("no shell"));
}

#[test]
fn standard_input_is_open_until_its_end() {
    let mut processes = Processes::new();
    let start = plan_start(&keywords(vec![
        ("cmd", Datum::text("cat")),
        ("want_stdin", Datum::Boolean(true)),
    ]));
    processes.cmd_start(&start, Ok(1));
    let kw = keywords(vec![
        ("pid", Datum::integer(1)),
        ("data", Datum::text("x")),
        ("eof", Datum::Boolean(true)),
    ]);
    let spec = processes.plan_stdin(&kw).unwrap();
    assert_eq!((spec.data.as_str(), spec.eof), ("x", true));
    let reply = processes.cmd_send_stdin(&spec, None);
    assert_eq!(field(&reply, "error"), &Datum::Nil);
    let closed = processes.plan_stdin(&kw).unwrap_err();
    assert!(field(&closed, "error")
        .as_str()
        .unwrap()
        .starts_with("process 1 was not started with stdin enabled"));
}

#[test]
fn ended_processes_hand_over_their_output() {
    let ended = Ended {
        stdout: b"out".to_vec(),
        stderr: Vec::new(),
        code: 3,
    };
    let wait = cmd_wait(9, Some(&ended));
    assert_eq!(field(&wait, "stdout").as_str(), Some("out"));
    assert_eq!(field(&wait, "exit_code").as_i64(), Some(3));
    let late = cmd_wait(9, None);
    assert_eq!(field(&late, "stderr").as_str(), Some("process 9 wait timed out"));
    assert_eq!(field(&cmd_poll(None), "status").as_str(), Some("running"));
    assert_eq!(field(&cmd_poll(Some(&ended)), "status").as_str(), Some("done"));
    assert_eq!(field(&cmd_kill(None), "killed"), &Datum::Boolean(true));
    assert_eq!(field(&cmd_kill(Some("gone")), "error").as_str(), Some("gone"));
}

// ───────────────────────── shells ─────────────────────────

#[test]
fn shells_are_done_when_the_marker_has_a_number() {
    assert_eq!(
        find_completion("ls\r\necho __RRT_DONE_$?__\r\nfile\r\n__RRT_DONE_0__\r\n"),
        Some((
            "ls\r\necho __RRT_DONE_$?__\r\nfile\r\n".to_string(),
            0
        ))
    );
    assert_eq!(find_completion("__RRT_DONE_-1__"), Some((String::new(), -1)));
    assert_eq!(find_completion("echo __RRT_DONE_$?__"), None);
    assert_eq!(find_completion("__RRT_DONE_"), None);
}

#[test]
fn shells_are_opened_used_and_closed() {
    let mut shells = Sessions::new();
    let kw = keywords(vec![
        ("session_id", Datum::text("s")),
        ("command", Datum::text("ls")),
    ]);
    let opening = shells.bash_init(&kw).unwrap();
    assert_eq!(opening.shell, "/bin/bash");
    let (reply, number) = shells.bash_opened(opening.id, None);
    assert_eq!(field(&reply, "error"), &Datum::Nil);
    assert_eq!(
        field(&shells.bash_init(&kw).unwrap_err(), "error").as_str(),
        Some("session s already exists")
    );
    let (id, line) = shells.bash_submit(&kw).unwrap();
    assert_eq!(id, "s");
    assert_eq!(line, "ls\necho __RRT_DONE_$?__\n");
    assert_eq!(field(&shells.bash_poll(&kw), "status").as_str(), Some("running"));
    shells.append_output("s", number.unwrap(), "file\n__RRT_DONE_2__\n");
    let done = shells.bash_poll(&kw);
    assert_eq!(field(&done, "status").as_str(), Some("done"));
    assert_eq!(field(&done, "stdout").as_str(), Some("file\n"));
    assert_eq!(field(&done, "exit_code").as_i64(), Some(2));
    let (closed, reply) = shells.bash_destroy(&kw);
    assert_eq!(closed, Some("s".to_string()));
    assert_eq!(field(&reply, "error"), &Datum::Nil);
    assert_eq!(
        field(&shells.bash_poll(&kw), "error").as_str(),
        Some("session s not found")
    );
}

#[test]
fn late_output_does_not_reach_a_later_shell() {
    let mut shells = Sessions::new();
    let kw = keywords(vec![("session_id", Datum::text("s"))]);
    let first = shells.bash_opened("s".to_string(), None).1.unwrap();
    shells.bash_destroy(&kw);
    shells.append_output("s", first, "__RRT_DONE_0__");
    assert_eq!(field(&shells.bash_poll(&kw), "status").as_str(), Some("error"));
    let second = shells.bash_opened("s".to_string(), None).1.unwrap();
    assert_ne!(first, second);
    shells.append_output("s", first, "__RRT_DONE_0__");
    assert_eq!(field(&shells.bash_poll(&kw), "status").as_str(), Some("running"));
    shells.append_output("s", second, "__RRT_DONE_1__");
    assert_eq!(field(&shells.bash_poll(&kw), "exit_code").as_i64(), Some(1));
    let (reply, number) = shells.bash_opened("t".to_string(), Some("no terminal"));
    assert_eq!(field(&reply, "error").as_str(), Some("no terminal"));
    assert_eq!(number, None);
}

#[test]
fn shells_that_do_not_open_say_why() {
    assert_eq!(open_error(OpenStep::OpenPty, "e"), "openpty failed: e");
    assert_eq!(open_error(OpenStep::Spawn, "e"), "spawn failed: e");
    assert_eq!(open_error(OpenStep::Reader, "e"), "reader failed: e");
    assert_eq!(open_error(OpenStep::Writer, "e"), "writer failed: e");
}

// ───────────────────────── files ─────────────────────────

fn facts() -> EntryFacts {
    EntryFacts {
        kind: EntryKind::File,
        size: 5,
        mode: 0o100644,
        modified: 1.5f64.to_bits(),
    }
}

#[test]
fn hexadecimal_data_reads_back() {
    let bytes = [0u8, 1, 0x7f, 0xff];
    assert_eq!(encode_hex(&bytes), "00017fff");
    assert_eq!(decode_hex("00017fff"), Ok(bytes.to_vec()));
    assert_eq!(decode_hex("0"), Err("hex data length must be even".to_string()));
    assert_eq!(
        decode_hex("0g"),
        Err("invalid hex data: invalid digit found in string".to_string())
    );
}

#[test]
fn reading_gives_text_or_hexadecimal() {
    let text = fs_read(&keywords(vec![]), Ok(b"hi".to_vec()));
    assert_eq!(field(&text, "data").as_str(), Some("hi"));
    let kw = keywords(vec![("binary", Datum::Boolean(true))]);
    let hex = fs_read(&kw, Ok(b"hi".to_vec()));
    assert_eq!(field(&hex, "data").as_str(), Some("6869"));
    let failed = fs_read(&kw, Err("denied".to_string()));
    assert_eq!(field(&failed, "data"), &Datum::Nil);
    assert_eq!(field(&failed, "error").as_str(), Some("denied"));
}

#[test]
fn writing_takes_text_or_hexadecimal() {
    assert_eq!(fs_write_bytes(&keywords(vec![("data", Datum::text("hi"))])), b"hi");
    let kw = keywords(vec![
        ("data", Datum::text("68zz69")),
        ("binary", Datum::Boolean(true)),
        ("path", Datum::text("/tmp/x")),
    ]);
    assert_eq!(fs_write_bytes(&kw), b"hi");
    let reply = fs_write(&kw, Some(facts()), None);
    assert_eq!(names(&reply), ["name", "path", "type", "size", "error"]);
    assert_eq!(field(&reply, "name").as_str(), Some("x"));
    assert_eq!(field(&reply, "size").as_i64(), Some(5));
    let failed = fs_write(&kw, None, Some("denied"));
    assert_eq!(names(&failed), ["path", "name", "type", "size", "error"]);
    assert_eq!(field(&failed, "error").as_str(), Some("denied"));
}

#[test]
fn chunks_are_written_at_their_offset() {
    let kw = keywords(vec![
        ("path", Datum::text("/tmp/x")),
        ("offset", Datum::integer(4)),
        ("data", Datum::text("6869")),
    ]);
    let plan = plan_write_chunk(&kw).unwrap();
    assert_eq!((plan.offset, plan.truncate), (4, false));
    assert_eq!(plan.bytes, b"hi");
    let reply = fs_write_chunk(&kw, &plan, None);
    assert_eq!(field(&reply, "bytes_written").as_i64(), Some(2));
    let first = keywords(vec![("offset", Datum::integer(-4))]);
    assert_eq!(kw_offset(&first), 0);
    assert!(plan_write_chunk(&first).unwrap().truncate);
    let odd = keywords(vec![("data", Datum::text("6"))]);
    let refused = plan_write_chunk(&odd).unwrap_err();
    assert_eq!(
        field(&refused, "error").as_str(),
        Some("hex data length must be even")
    );
}

#[test]
fn chunks_are_read_up_to_a_limit() {
    assert_eq!(kw_limit(&keywords(vec![])), 65536);
    assert_eq!(kw_limit(&keywords(vec![("limit", Datum::integer(0))])), 1);
    assert_eq!(
        kw_limit(&keywords(vec![("limit", Datum::integer(1 << 40))])),
        4 * 1024 * 1024
    );
    let kw = keywords(vec![("offset", Datum::integer(3))]);
    let part = fs_read_chunk(&kw, Ok(b"hi".to_vec()), 6);
    assert_eq!(field(&part, "data").as_str(), Some("6869"));
    assert_eq!(field(&part, "eof"), &Datum::Boolean(false));
    let last = fs_read_chunk(&kw, Ok(b"hi".to_vec()), 5);
    assert_eq!(field(&last, "eof"), &Datum::Boolean(true));
    let failed = fs_read_chunk(&kw, Err("denied".to_string()), 0);
    assert_eq!(field(&failed, "bytes_read").as_i64(), Some(0));
    assert_eq!(field(&failed, "error").as_str(), Some("denied"));
}

#[test]
fn entries_are_described() {
    let reply = fs_list(&vec![("/tmp/a".to_string(), Some(facts()))], None);
    let Datum::Array(entries) = field(&reply, "entries") else {
        panic!("{reply:?}");
    };
    assert_eq!(
        names(&entries[0]),
        ["name", "path", "type", "size", "permissions", "modified_time"]
    );
    assert_eq!(field(&entries[0], "permissions").as_str(), Some("644"));
    assert_eq!(field(&entries[0], "type").as_str(), Some("file"));
    assert_eq!(
        field(&entries[0], "modified_time"),
        &Datum::Float64(1.5f64.to_bits())
    );
    let failed = fs_list(&Vec::new(), Some("denied"));
    assert_eq!(field(&failed, "error").as_str(), Some("denied"));
    let kw = keywords(vec![("path", Datum::text("/tmp/none"))]);
    let missing = fs_get_info(&kw, false, None);
    assert_eq!(
        field(&missing, "error").as_str(),
        Some("path not found: /tmp/none")
    );
    assert_eq!(
        field(&fs_get_info(&kw, true, Some(facts())), "name").as_str(),
        Some("none")
    );
}

#[test]
fn small_file_replies() {
    assert_eq!(field(&fs_exists(true), "exists"), &Datum::Boolean(true));
    assert_eq!(field(&fs_remove(None), "error"), &Datum::Nil);
    assert_eq!(field(&fs_remove(Some("busy")), "error").as_str(), Some("busy"));
    assert_eq!(field(&fs_make_dir(false, None), "created"), &Datum::Boolean(true));
    assert_eq!(field(&fs_make_dir(true, None), "created"), &Datum::Boolean(false));
    let kw = keywords(vec![("new_path", Datum::text("/tmp/b"))]);
    let moved = fs_rename(&kw, Some(facts()), None);
    assert_eq!(field(&moved, "path").as_str(), Some("/tmp/b"));
    assert_eq!(names(&fs_rename(&kw, None, Some("gone"))), ["error"]);
}

#[test]
fn file_names_are_the_last_part_of_a_path() {
    assert_eq!(file_name("/tmp/a"), "a");
    assert_eq!(file_name("/tmp/a/"), "a");
    assert_eq!(file_name("/tmp/a/."), "a");
    assert_eq!(file_name("/tmp/.."), "");
    assert_eq!(file_name("/"), "");
}

// ───────────────────────── streams ─────────────────────────

#[test]
fn streams_are_written_and_closed() {
    let mut streams = Streams::new();
    let kw = keywords(vec![
        ("path", Datum::text("/tmp/x")),
        ("mode", Datum::text("upload")),
    ]);
    let spec = plan_open(&kw).unwrap();
    assert_eq!(spec.kind, StreamKind::FileWrite);
    let reply = streams.sandbox_stream_open(&spec, None);
    let id = field(&reply, "stream_id").as_str().unwrap().to_string();
    assert_eq!(id, "rrt-stream-1");
    let other = streams.sandbox_stream_open(&spec, None);
    assert_eq!(field(&other, "stream_id").as_str(), Some("rrt-stream-2"));
    let send = keywords(vec![
        ("stream_id", Datum::Text(id.clone())),
        ("data", Datum::Binary(vec![1, 2, 3])),
    ]);
    assert_eq!(streams.plan_send(&send).unwrap(), (id.clone(), vec![1, 2, 3]));
    let sent = streams.sandbox_stream_send(&id, 3, None);
    assert_eq!(field(&sent, "offset").as_i64(), Some(3));
    assert_eq!(
        field(&streams.plan_recv(&send).unwrap_err(), "error").as_str(),
        Some("stream is not readable")
    );
    let (closed, entry) = streams.plan_close(&send).unwrap();
    assert_eq!((closed, entry.offset), (id.clone(), 3));
    let reply = sandbox_stream_close(&id, &entry, &TarEnd::Success);
    assert_eq!(field(&reply, "path").as_str(), Some("/tmp/x"));
    let again = match streams.plan_close(&send) {
        Ok(_) => panic!("closed twice"),
        Err(reply) => reply,
    };
    assert_eq!(field(&again, "error").as_str(), Some("unknown stream_id"));
}

#[test]
fn streams_are_refused_for_a_reason() {
    let open = |entries: Vec<(&str, Datum)>| {
        let reply = plan_open(&keywords(entries)).unwrap_err();
        field(&reply, "error").as_str().unwrap().to_string()
    };
    assert_eq!(open(vec![]), "path is required");
    assert_eq!(
        open(vec![("path", Datum::text("/x")), ("mode", Datum::text("both"))]),
        "mode must be read or write"
    );
    assert_eq!(
        open(vec![("path", Datum::text("/x")), ("type", Datum::text("zip"))]),
        "type must be file or tar"
    );
    let streams = Streams::new();
    let send = |entries| field(&streams.plan_send(&keywords(entries)).unwrap_err(), "error").duplicate();
    assert_eq!(send(vec![]).as_str(), Some("data is required"));
    assert_eq!(
        send(vec![("data", Datum::text("x"))]).as_str(),
        Some("unknown stream_id")
    );
}

#[test]
fn received_data_ends_with_nothing() {
    let part = sandbox_stream_recv("s", Ok(vec![1]));
    assert_eq!(field(&part, "eof"), &Datum::Boolean(false));
    assert_eq!(field(&part, "data"), &Datum::Binary(vec![1]));
    let end = sandbox_stream_recv("s", Ok(Vec::new()));
    assert_eq!(field(&end, "eof"), &Datum::Boolean(true));
    let failed = sandbox_stream_recv("s", Err("gone".to_string()));
    assert_eq!(field(&failed, "error").as_str(), Some("gone"));
}

#[test]
fn unpacking_reports_how_it_failed() {
    let mut streams = Streams::new();
    let kw = keywords(vec![
        ("path", Datum::text("/tmp/d")),
        ("type", Datum::text("tar")),
        ("mode", Datum::text("write")),
    ]);
    let spec = plan_open(&kw).unwrap();
    assert_eq!(spec.kind, StreamKind::TarWrite);
    assert!(spec.kind.is_writable());
    streams.sandbox_stream_open(&spec, None);
    let id = keywords(vec![("stream_id", Datum::text("rrt-stream-1"))]);
    let (_, entry) = match streams.plan_close(&id) {
        Ok(x) => x,
        Err(e) => panic!("{e:?}"),
    };
    let failed = sandbox_stream_close(
        "rrt-stream-1",
        &entry,
        &TarEnd::Failed("exit status: 2".to_string()),
    );
    assert_eq!(
        field(&failed, "error").as_str(),
        Some("tar extract failed: exit status: 2")
    );
}

// ───────────────────────── calls ─────────────────────────

fn call(is_create: bool, values: Vec<Datum>) -> CallRequest {
    CallRequest {
        request_id: "request".to_string(),
        sender_id: String::new(),
        trace_id: "trace".to_string(),
        is_create,
        args: values
            .iter()
            .map(|value| Arg {
                value: yr_serialize_value(value),
            })
            .collect(),
        return_object_id: String::new(),
        return_object_ids: Vec::new(),
    }
}

/// A call of a method, with a path among its arguments.
fn method_call(method: &str) -> CallRequest {
    let words = ["metadata", "sandbox_method", method, "path", "/tmp/x"];
    call(false, words.iter().map(|word| Datum::text(word)).collect())
}

fn context() -> Ctx {
    Ctx::new(Args {
        instance_id: "sandbox".to_string(),
        ..Default::default()
    })
}

#[test]
fn creating_calls_are_answered_by_the_entrypoint() {
    let ctx = context();
    let request = call(true, vec![]);
    assert!(matches!(ctx.handle_call(&request), CallPlan::Create));
    let reply = ctx.create_reply(&request, &Ok(()));
    let Some(Body::CallResultReq(result)) = reply.body else {
        panic!("no result");
    };
    assert_eq!((result.code, result.instance_id.as_str()), (0, "sandbox"));
}

#[test]
fn values_are_answered_in_serialised_form() {
    let ctx = context();
    let request = call(false, vec![]);
    let reply = ctx.value_reply(&request, &Datum::text("done"));
    let Some(Body::CallResultReq(result)) = reply.body else {
        panic!("no result");
    };
    let value = yr_deserialize(&result.small_objects[0].value).unwrap();
    assert_eq!(value.as_str(), Some("done"));
}

#[test]
fn pings_are_answered_with_a_status() {
    let CallPlan::Reply { message } = context().handle_call(&method_call("ping")) else {
        panic!("no reply");
    };
    let Some(Body::CallResultReq(result)) = message.body else {
        panic!("no result");
    };
    assert_eq!((result.code, result.message.as_str()), (0, "ok"));
    let mut expected = vec![0u8; 16];
    expected.extend(b"\x81\xa6status\xa2ok");
    assert_eq!(result.small_objects[0].value, expected);
}

#[test]
fn calls_name_an_operation() {
    let ctx = context();
    let plan = |method: &str| ctx.handle_call(&method_call(method));
    match plan("fs_read") {
        CallPlan::Perform {
            operation,
            kw,
            trace_id,
        } => {
            assert_eq!(operation, RuntimeAction::FsRead);
            assert_eq!(kw.get("path").and_then(|v| v.as_str()), Some("/tmp/x"));
            assert_eq!(trace_id, "trace");
        }
        _ => panic!("not planned"),
    }
    assert!(matches!(plan("get_info"), CallPlan::Info));
    assert!(matches!(plan("sandbox_invoke"), CallPlan::Invoke { .. }));
    let CallPlan::Reply { message } = plan("nothing") else {
        panic!("no reply");
    };
    let Some(Body::CallResultReq(result)) = message.body else {
        panic!("no result");
    };
    assert_eq!((result.code, result.message.as_str()), (1, "unsupported: nothing"));
}

#[test]
fn tunnel_ports_have_defaults() {
    assert_eq!(start_tunnel_server(&Vec::new()), (8765, 8766));
    assert!(tunnel_not_ready(8766).contains("8766"));
}
