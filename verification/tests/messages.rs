use rrt_daemon::args::Args;
use rrt_daemon::messages::{
    activity_report_msg, body_kind, call_response_msg, call_result_msg, checkpoint_request_msg,
    should_retry_outbound_msg, shutdown_response_msg, Body, CallRequest, ErrorCodes, Status,
    StreamingMessage,
};
use rrt_daemon::startup::{CheckpointOutcome, Environment};
use rrt_daemon::stream_loop::{
    barrier_found, broken_call, combine_runtime_readiness, drained_for_checkpoint,
    handle_inbound_message, next_backoff, prepare_snap_response, readiness_failure, rearm_error,
    service_lost, shutdown_after_wait, snap_started_response, stream_survives, wait_until_drained,
    DrainWait, Inbound, ReadyWait, Rearm, RuntimeReadyState, Service, SnapPreparation,
    StreamAction, StreamEvent, StreamLoop,
};

fn codes() -> ErrorCodes {
    ErrorCodes {
        none: 0,
        instance_busy: 1009,
        inner_system_error: 3003,
        param_invalid: 1001,
        user_function_exception: 2002,
    }
}

fn call(request_id: &str) -> CallRequest {
    CallRequest {
        request_id: request_id.to_string(),
        sender_id: String::new(),
        trace_id: String::new(),
        is_create: false,
        args: Vec::new(),
        return_object_id: String::new(),
        return_object_ids: Vec::new(),
    }
}

fn message(id: &str, body: Body) -> StreamingMessage {
    StreamingMessage {
        message_id: id.to_string(),
        body: Some(body),
    }
}

fn status(message: &StreamingMessage) -> (i32, String) {
    match &message.body {
        Some(Body::ShutdownRsp(s))
        | Some(Body::PrepareSnapRsp(s))
        | Some(Body::SnapStartedRsp(s))
        | Some(Body::CallRsp(s)) => (s.code, s.message.clone()),
        Some(Body::CallResultReq(r)) => (r.code, r.message.clone()),
        other => panic!("no status in {other:?}"),
    }
}

#[test]
fn call_result_keeps_inline_value_without_object_id() {
    let message = call_result_msg(
        "request-inline".to_string(),
        "sandbox-instance".to_string(),
        String::new(),
        0,
        "ok",
        vec![1, 2, 3],
    );

    let Some(Body::CallResultReq(result)) = message.body else {
        panic!("expected CallResultReq");
    };
    assert_eq!(result.small_objects.len(), 1);
    assert!(result.small_objects[0].id.is_empty());
    assert_eq!(result.small_objects[0].value, vec![1, 2, 3]);
}

#[test]
fn call_result_preserves_supplied_object_id() {
    let message = call_result_msg(
        "request-object".to_string(),
        "sandbox-instance".to_string(),
        "object-result".to_string(),
        0,
        "ok",
        vec![4, 5, 6],
    );

    let Some(Body::CallResultReq(result)) = message.body else {
        panic!("expected CallResultReq");
    };
    assert_eq!(result.small_objects.len(), 1);
    assert_eq!(result.small_objects[0].id, "object-result");
    assert_eq!(result.small_objects[0].value, vec![4, 5, 6]);
}

#[test]
fn call_result_omits_small_object_without_inline_value() {
    let message = call_result_msg(
        "request-empty".to_string(),
        "sandbox-instance".to_string(),
        "unused-object".to_string(),
        0,
        "created",
        Vec::new(),
    );

    let Some(Body::CallResultReq(result)) = message.body else {
        panic!("expected CallResultReq");
    };
    assert!(result.small_objects.is_empty());
}

#[test]
fn calls_are_acknowledged_before_they_are_answered() {
    let inbound = message("transport-message-id", Body::CallReq(call("request")));
    match handle_inbound_message(inbound, "sandbox", &codes()) {
        Inbound::Call { receipt, call } => {
            assert_eq!(receipt.message_id, "transport-message-id");
            assert_eq!(status(&receipt), (0, String::new()));
            assert_eq!(call.request_id, "request");
            assert_eq!(receipt, call_response_msg("transport-message-id".to_string(), &codes()));
        }
        other => panic!("{other:?}"),
    }
}

#[test]
fn inbound_messages_are_sorted() {
    assert_eq!(
        handle_inbound_message(message("m", Body::ShutdownReq(7)), "i", &codes()),
        Inbound::Shutdown {
            message_id: "m".to_string(),
            grace_seconds: 7
        }
    );
    assert_eq!(
        handle_inbound_message(message("m", Body::PrepareSnapReq), "i", &codes()),
        Inbound::PrepareSnap {
            message_id: "m".to_string()
        }
    );
    assert_eq!(
        handle_inbound_message(message("m", Body::SnapStartedReq), "i", &codes()),
        Inbound::SnapStarted {
            message_id: "m".to_string()
        }
    );
    assert!(matches!(
        handle_inbound_message(message("m", Body::HeartbeatReq), "i", &codes()),
        Inbound::Reply { .. }
    ));
    let silent = StreamingMessage {
        message_id: "m".to_string(),
        body: None,
    };
    assert_eq!(handle_inbound_message(silent, "i", &codes()), Inbound::Ignore);
}

#[test]
fn readiness_is_the_least_of_all_parts() {
    let ready = || RuntimeReadyState::Ready;
    assert_eq!(
        combine_runtime_readiness(&vec![ready(), ready()]),
        RuntimeReadyState::Ready
    );
    assert_eq!(
        combine_runtime_readiness(&vec![ready(), RuntimeReadyState::Starting]),
        RuntimeReadyState::Starting
    );
    assert_eq!(
        combine_runtime_readiness(&vec![
            RuntimeReadyState::Starting,
            RuntimeReadyState::Failed("bind".to_string())
        ]),
        RuntimeReadyState::Failed("bind".to_string())
    );
    assert_eq!(combine_runtime_readiness(&Vec::new()), RuntimeReadyState::Ready);
}

#[test]
fn calls_fail_where_the_runtime_is_not_ready() {
    assert!(readiness_failure(
        &ReadyWait::Reached(RuntimeReadyState::Ready),
        "r",
        "i",
        &codes()
    )
    .is_none());
    let failed = readiness_failure(
        &ReadyWait::Reached(RuntimeReadyState::Failed("no port".to_string())),
        "r",
        "i",
        &codes(),
    )
    .unwrap();
    assert_eq!(status(&failed).0, codes().inner_system_error);
    assert!(status(&failed).1.contains("no port"));
    let late = readiness_failure(&ReadyWait::TimedOut, "r", "i", &codes()).unwrap();
    assert_eq!(
        status(&late).1,
        "runtime initialization failed: RRT service readiness timed out after 30 seconds"
    );
    let closed = readiness_failure(&ReadyWait::Closed, "r", "i", &codes()).unwrap();
    assert_eq!(
        status(&closed).1,
        "runtime initialization failed: RRT service readiness channel closed before startup completed"
    );
    assert_eq!(service_lost(0, 1), ReadyWait::Closed);
    assert_eq!(
        service_lost(1, 2),
        ReadyWait::Reached(RuntimeReadyState::Failed(
            "RRT service readiness channel 1 closed".to_string()
        ))
    );
    assert_eq!(
        status(&broken_call("r", "i", "panicked", &codes())).0,
        codes().inner_system_error
    );
}

#[test]
fn shutdown_says_whether_work_was_left() {
    let done = shutdown_after_wait("m".to_string(), true, 0, 5, &codes());
    assert_eq!(status(&done).0, 0);
    let busy = shutdown_after_wait("m".to_string(), false, 2, 5, &codes());
    assert_ne!(status(&busy).0, 0);
    assert_eq!(
        status(&shutdown_response_msg("m".to_string(), 4, "late".to_string())),
        (4, "late".to_string())
    );
}

#[test]
fn snapshots_wait_for_the_work_to_drain() {
    assert!(drained_for_checkpoint(0));
    assert!(!drained_for_checkpoint(3));
    let busy = prepare_snap_response(
        "m".to_string(),
        SnapPreparation::Busy {
            active: 2,
            seconds: 10,
        },
        &codes(),
    );
    assert_eq!(status(&busy).0, codes().instance_busy);
    let ready = prepare_snap_response("m".to_string(), SnapPreparation::Ready, &codes());
    assert_eq!(status(&ready).0, 0);
}

#[test]
fn a_stream_ends_only_with_a_restore() {
    assert!(stream_survives(Some(CheckpointOutcome::Resume)));
    assert!(!stream_survives(Some(CheckpointOutcome::Restore)));
    assert!(stream_survives(Some(CheckpointOutcome::Error)));
    assert!(stream_survives(None));
}

#[test]
fn services_are_rearmed_in_order() {
    let mut all = Rearm {
        http: true,
        tunnel: false,
        checkpoint: true,
        done: 0,
    };
    assert_eq!(all.next(), Some(Service::Http));
    assert_eq!(all.next(), Some(Service::Checkpoint));
    assert_eq!(all.next(), None);
    assert!(rearm_error(Service::Http, "closed").contains("closed"));
    assert_eq!(status(&snap_started_response("m".to_string(), None, &codes())).0, 0);
    assert_ne!(
        status(&snap_started_response("m".to_string(), Some("closed"), &codes())).0,
        0
    );
}

#[test]
fn pauses_double_up_to_a_limit() {
    assert_eq!(next_backoff(100, 1000), 200);
    assert_eq!(next_backoff(800, 1000), 1000);
    assert_eq!(next_backoff(u64::MAX, 1000), 1000);
}

fn opening() -> StreamLoop {
    let args = Args {
        rt_server: "proxy:1".to_string(),
        instance_id: "sandbox".to_string(),
        ..Default::default()
    };
    let mut stream = StreamLoop::new(args);
    assert_eq!(stream.step(StreamEvent::Ready), StreamAction::ReadEnvironment);
    match stream.step(StreamEvent::EnvironmentRead(None)) {
        StreamAction::Open { endpoint, args } => {
            assert_eq!(endpoint, "http://proxy:1");
            assert_eq!(args.instance_id, "sandbox");
        }
        other => panic!("{other:?}"),
    }
    stream
}

#[test]
fn streams_start_with_the_state_and_the_message_that_was_kept() {
    let mut stream = opening();
    let report = |state: &str| StreamAction::Send {
        message: activity_report_msg("sandbox", state.as_bytes().to_vec()),
    };
    assert_eq!(stream.step(StreamEvent::Opened("idle".to_string())), report("idle"));
    assert_eq!(stream.step(StreamEvent::Sent), StreamAction::Serve);
    let result = || call_result_msg("r".into(), "i".into(), String::new(), 0, "", vec![1]);
    assert!(should_retry_outbound_msg(&result()));
    assert_eq!(
        stream.step(StreamEvent::Outbound(result())),
        StreamAction::Send { message: result() }
    );
    assert_eq!(
        stream.step(StreamEvent::Unsent(result())),
        StreamAction::Pause {
            millis: 200,
            refused: None
        }
    );
    stream.step(StreamEvent::Ready);
    stream.step(StreamEvent::EnvironmentRead(None));
    assert_eq!(stream.step(StreamEvent::Opened("busy".to_string())), report("busy"));
    match stream.step(StreamEvent::Sent) {
        StreamAction::Send { message } => {
            assert_eq!(body_kind(message.body.as_ref().unwrap()), "callResultReq");
        }
        other => panic!("{other:?}"),
    }
    assert_eq!(stream.step(StreamEvent::Sent), StreamAction::Serve);
    assert_eq!(stream.step(StreamEvent::OutboundClosed), StreamAction::Stop);
}

#[test]
fn stale_reports_are_not_kept() {
    let mut stream = opening();
    stream.step(StreamEvent::Opened("idle".to_string()));
    stream.step(StreamEvent::Sent);
    let report = activity_report_msg("sandbox", b"idle".to_vec());
    assert!(!should_retry_outbound_msg(&report));
    stream.step(StreamEvent::Unsent(report));
    assert!(stream.pending.is_none());
}

#[test]
fn pauses_of_the_stream_loop_grow_until_it_is_open() {
    let mut stream = opening();
    let pause = |millis| StreamAction::Pause {
        millis,
        refused: None,
    };
    assert_eq!(stream.step(StreamEvent::Failed), pause(200));
    stream.step(StreamEvent::Ready);
    assert_eq!(stream.step(StreamEvent::Failed), pause(400));
    stream.step(StreamEvent::Ready);
    stream.step(StreamEvent::EnvironmentRead(None));
    stream.step(StreamEvent::Opened("idle".to_string()));
    stream.step(StreamEvent::Sent);
    let inbound = StreamingMessage {
        message_id: "m".to_string(),
        body: None,
    };
    assert!(matches!(
        stream.step(StreamEvent::Inbound(inbound)),
        StreamAction::Handle { .. }
    ));
    assert_eq!(stream.step(StreamEvent::Handled(true)), StreamAction::Serve);
    assert_eq!(stream.step(StreamEvent::Lost), pause(200));
    assert_eq!(stream.attempts, 3);
}

#[test]
fn streams_that_do_not_take_the_state_are_opened_anew_at_once() {
    let mut stream = opening();
    stream.step(StreamEvent::Opened("idle".to_string()));
    let report = activity_report_msg("sandbox", b"idle".to_vec());
    assert_eq!(
        stream.step(StreamEvent::Unsent(report)),
        StreamAction::ReadEnvironment
    );
}

#[test]
fn environments_of_another_instance_are_read_again_later() {
    let mut stream = opening();
    stream.step(StreamEvent::Failed);
    stream.step(StreamEvent::Ready);
    let mut other = Environment::new();
    other.insert("POSIX_LISTEN_ADDR".to_string(), "proxy:2".to_string());
    other.insert("YR_RUNTIME_ID".to_string(), "runtime-x-1".to_string());
    other.insert("INSTANCE_ID".to_string(), "other".to_string());
    match stream.step(StreamEvent::EnvironmentRead(Some(other))) {
        StreamAction::Pause {
            refused: Some(text), ..
        } => assert!(text.contains("changed logical instance ID"), "{text}"),
        other => panic!("{other:?}"),
    }
}

#[test]
fn runtimes_have_a_minute_to_drain() {
    assert_eq!(wait_until_drained(2, 9, 5), DrainWait::Drained);
    assert_eq!(wait_until_drained(3, 4, 5), DrainWait::Waiting);
    assert_eq!(
        wait_until_drained(3, 5, 5),
        DrainWait::Refused(SnapPreparation::Busy {
            active: 3,
            seconds: 60
        })
    );
    assert_eq!(barrier_found(true), SnapPreparation::Ready);
    assert_eq!(barrier_found(false), SnapPreparation::NoBarrier);
}

#[test]
fn checkpoint_requests_carry_a_number_of_their_own() {
    let a = checkpoint_request_msg("sandbox", 10, 1);
    let b = checkpoint_request_msg("sandbox", 10, 2);
    assert_ne!(a, b);
    match a.body {
        Some(Body::KillReq(kill)) => assert_eq!(kill.instance_id, "sandbox"),
        other => panic!("{other:?}"),
    }
}

#[test]
fn statuses_compare_by_their_fields() {
    let s = |code| Status {
        code,
        message: String::new(),
    };
    assert_eq!(s(1), s(1));
    assert_ne!(s(1), s(2));
}
