use rrt_daemon::activity::{
    active_count, current_state, enter, idle_report, init, init_reporter, leave,
    rebind_reporter_instance_id, report_current_activity, state_transition, wait_until_idle,
    Activity, ActivitySource, IdleWait,
};
use rrt_daemon::messages::{Body, StreamingMessage};

fn payload(message: &StreamingMessage) -> (String, String) {
    match &message.body {
        Some(Body::KillReq(kill)) => (
            kill.instance_id.clone(),
            String::from_utf8(kill.payload.clone()).unwrap(),
        ),
        other => panic!("expected a report, got {other:?}"),
    }
}

fn reporting() -> Activity {
    let mut activity = init();
    assert!(init_reporter(&mut activity, "sandbox-under-test".to_string()));
    activity
}

#[test]
fn state_transition_only_on_zero_boundary() {
    assert_eq!(state_transition(0, true), Some("busy"));
    assert_eq!(state_transition(1, true), None);
    assert_eq!(state_transition(2, false), None);
    assert_eq!(state_transition(1, false), Some("idle"));
    assert_eq!(state_transition(0, false), None);
}

#[test]
fn guard_increments_then_decrements() {
    let mut activity = init();
    let base = active_count(&activity);
    {
        let (guard, _) = enter(&mut activity, ActivitySource::DirectHttp);
        assert_eq!(active_count(&activity), base + 1);
        leave(&mut activity, guard, 0);
    }
    assert_eq!(active_count(&activity), base);
}

#[test]
fn reporter_is_set_up_once() {
    let mut activity = reporting();
    assert!(!init_reporter(&mut activity, "another".to_string()));
    let (_, report) = enter(&mut activity, ActivitySource::RuntimeRpc);
    assert_eq!(
        payload(&report.unwrap()),
        ("sandbox-under-test".to_string(), "busy".to_string())
    );
}

#[test]
fn rebound_reporter_names_the_new_instance() {
    let mut activity = reporting();
    rebind_reporter_instance_id(&mut activity, "clone-sandbox");
    let (_, report) = enter(&mut activity, ActivitySource::RuntimeRpc);
    assert_eq!(
        payload(&report.unwrap()),
        ("clone-sandbox".to_string(), "busy".to_string())
    );
}

#[test]
fn without_a_reporter_nothing_is_reported() {
    let mut activity = init();
    let (_, report) = enter(&mut activity, ActivitySource::RuntimeRpc);
    assert!(report.is_none());
    assert!(report_current_activity(&activity, 0).is_none());
}

#[test]
fn idle_is_reported_only_while_nothing_new_began() {
    let mut activity = reporting();
    let (first, _) = enter(&mut activity, ActivitySource::RuntimeRpc);
    assert_eq!(current_state(&activity), "busy");
    let epoch = leave(&mut activity, first, 0).unwrap();
    assert_eq!(
        payload(&idle_report(&activity, epoch).unwrap()).1,
        "idle"
    );
    let (second, _) = enter(&mut activity, ActivitySource::RuntimeRpc);
    assert!(idle_report(&activity, epoch).is_none());
    let later = leave(&mut activity, second, 0).unwrap();
    assert!(idle_report(&activity, epoch).is_none());
    assert!(idle_report(&activity, later).is_some());
}

#[test]
fn nested_work_keeps_the_state_busy() {
    let mut activity = reporting();
    let (outer, _) = enter(&mut activity, ActivitySource::RuntimeRpc);
    let (inner, _) = enter(&mut activity, ActivitySource::DirectHttp);
    assert_eq!(leave(&mut activity, inner, 0), None);
    assert_eq!(current_state(&activity), "busy");
    assert!(leave(&mut activity, outer, 0).is_some());
}

#[test]
fn waiting_for_idleness_ends_with_the_work_or_the_deadline() {
    let mut activity = init();
    let (guard, _) = enter(&mut activity, ActivitySource::Checkpoint);
    assert_eq!(wait_until_idle(&activity, 0, 10), IdleWait::Waiting);
    assert_eq!(wait_until_idle(&activity, 10, 10), IdleWait::TimedOut);
    leave(&mut activity, guard, 3);
    assert_eq!(wait_until_idle(&activity, 3, 10), IdleWait::Idle);
}
