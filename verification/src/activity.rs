//! Whether the runtime is busy. Requests and connections count as activity;
//! background processes do not. The proxy hears that the runtime is busy as
//! soon as work begins, and that it is idle only a while after the last work
//! ended.
use crate::messages::{activity_report, activity_report_msg, MessageModel, StreamingMessage};
use crate::text::opt_view;
use vstd::prelude::*;
use vstd::utf8::encode_utf8;

verus! {

/// How long the runtime has to be without work before it is reported idle, in
/// nanoseconds.
pub const IDLE_REPORT_DEBOUNCE: u64 = 800_000_000;

/// Where activity comes from.
#[derive(Clone, Copy, Debug, Eq, PartialEq, Structural)]
pub enum ActivitySource {
    Checkpoint,
    DirectHttp,
    RuntimeRpc,
    Tunnel,
}

impl ActivitySource {
    /// The text of the source.
    pub open spec fn name(self) -> Seq<char> {
        match self {
            ActivitySource::Checkpoint => "checkpoint"@,
            ActivitySource::DirectHttp => "direct-http"@,
            ActivitySource::RuntimeRpc => "runtime-rpc"@,
            ActivitySource::Tunnel => "tunnel"@,
        }
    }

    /// The text of the source.
    pub fn as_str(self) -> (r: &'static str)
        ensures
            r@ == self.name(),
    {
        match self {
            ActivitySource::Checkpoint => "checkpoint",
            ActivitySource::DirectHttp => "direct-http",
            ActivitySource::RuntimeRpc => "runtime-rpc",
            ActivitySource::Tunnel => "tunnel",
        }
    }

    /// A direct request renews a lease, and a tunnel connection owns one: both
    /// are reported also where other work is going on.
    pub open spec fn renews(self) -> bool {
        self == ActivitySource::DirectHttp || self == ActivitySource::Tunnel
    }

    /// Whether work of this source reports that the runtime is busy even where it was.
    pub fn reasserts_busy(self) -> (r: bool)
        ensures
            r == self.renews(),
    {
        match self {
            ActivitySource::DirectHttp => true,
            ActivitySource::Tunnel => true,
            _ => false,
        }
    }
}

/// The activity of a runtime.
pub struct Activity {
    /// Requests and connections that are open.
    pub active: i64,
    /// Changes whenever a report that was put off becomes void.
    pub epoch: u64,
    /// When the last work ended, where none is going on.
    pub idle_since: Option<u64>,
    /// The instance that reports are about, once there is someone to report to.
    pub reporter: Option<String>,
}

/// The model of an [`Activity`].
pub struct ActivityModel {
    pub active: i64,
    pub epoch: u64,
    pub idle_since: Option<u64>,
    pub reporter: Option<Seq<char>>,
}

impl View for Activity {
    type V = ActivityModel;

    open spec fn view(&self) -> ActivityModel {
        ActivityModel {
            active: self.active,
            epoch: self.epoch,
            idle_since: self.idle_since,
            reporter: opt_view(self.reporter),
        }
    }
}

/// Open work. It ends when the guard is handed back.
#[must_use]
#[derive(Debug)]
pub struct ActiveGuard {
    pub source: ActivitySource,
}

/// The number after an epoch.
pub open spec fn following(epoch: u64) -> u64 {
    if epoch < u64::MAX {
        (epoch + 1) as u64
    } else {
        0
    }
}

fn next_epoch(epoch: u64) -> (r: u64)
    ensures
        r == following(epoch),
{
    if epoch < u64::MAX {
        epoch + 1
    } else {
        0
    }
}

impl ActivityModel {
    /// The text of the state.
    pub open spec fn state(self) -> Seq<char> {
        if self.active > 0 {
            "busy"@
        } else {
            "idle"@
        }
    }

    /// A report of a state, where there is someone to report to.
    pub open spec fn report(self, state: Seq<char>) -> Option<MessageModel> {
        match self.reporter {
            Some(instance) => Some(activity_report(instance, encode_utf8(state))),
            None => None,
        }
    }

    /// After work began. The first work makes a pending report of idleness
    /// void.
    pub open spec fn entered(self) -> ActivityModel {
        let more = ActivityModel { active: (self.active + 1) as i64, ..self };
        if self.active == 0 {
            ActivityModel { idle_since: None, epoch: following(self.epoch), ..more }
        } else {
            more
        }
    }

    /// Whether the beginning of work is reported.
    pub open spec fn announces(self, source: ActivitySource) -> bool {
        self.active == 0 || source.renews()
    }

    /// After work ended.
    pub open spec fn left(self, now: u64) -> ActivityModel {
        let less = ActivityModel { active: (self.active - 1) as i64, ..self };
        if self.active == 1 {
            ActivityModel { idle_since: Some(now), epoch: following(self.epoch), ..less }
        } else {
            less
        }
    }

    /// Whether a report of idleness that was put off in `epoch` still holds.
    pub open spec fn still_idle(self, epoch: u64) -> bool {
        self.epoch == epoch && self.active == 0
    }

    /// Whether the runtime was idle for too short a time to report it.
    pub open spec fn settling(self, now: u64) -> bool {
        self.active <= 0 && (self.idle_since matches Some(since) && (if now >= since {
            now - since
        } else {
            0
        }) < IDLE_REPORT_DEBOUNCE)
    }
}

/// The model of a message, where there is one.
pub open spec fn opt_message(m: Option<StreamingMessage>) -> Option<MessageModel> {
    match m {
        Some(x) => Some(x@),
        None => None,
    }
}

/// The activity of a runtime that has just started.
pub fn init() -> (r: Activity)
    ensures
        r@ == (ActivityModel { active: 0, epoch: 0, idle_since: None, reporter: None }),
{
    Activity { active: 0, epoch: 0, idle_since: None, reporter: None }
}

/// Reports from now on are about an instance. Only the first call counts.
pub fn init_reporter(activity: &mut Activity, instance_id: String) -> (r: bool)
    ensures
        r == (old(activity)@.reporter is None),
        final(activity)@ == (if old(activity)@.reporter is None {
            ActivityModel { reporter: Some(instance_id@), ..old(activity)@ }
        } else {
            old(activity)@
        }),
{
    if activity.reporter.is_none() {
        activity.reporter = Some(instance_id);
        true
    } else {
        false
    }
}

/// Reports from now on are about another instance, where there are any.
pub fn rebind_reporter_instance_id(activity: &mut Activity, instance_id: &str)
    ensures
        final(activity)@ == (if old(activity)@.reporter is Some {
            ActivityModel { reporter: Some(instance_id@), ..old(activity)@ }
        } else {
            old(activity)@
        }),
{
    if activity.reporter.is_some() {
        activity.reporter = Some(instance_id.to_owned());
    }
}

/// Open requests and connections.
pub fn active_count(activity: &Activity) -> (r: i64)
    ensures
        r == activity@.active,
{
    activity.active
}

/// The text of the state.
pub fn current_state(activity: &Activity) -> (r: &'static str)
    ensures
        r@ == activity@.state(),
{
    if activity.active > 0 {
        "busy"
    } else {
        "idle"
    }
}

/// The state that a change of the count leads to, where it is another: work
/// begins when there was none, and ends with the last.
pub open spec fn transition(previous: i64, entering: bool) -> Option<Seq<char>> {
    if previous == 0 && entering {
        Some("busy"@)
    } else if previous == 1 && !entering {
        Some("idle"@)
    } else {
        None
    }
}

/// The state that a change of the count leads to, where it crosses zero.
pub fn state_transition(previous: i64, entering: bool) -> (r: Option<&'static str>)
    ensures
        crate::text::opt_str_view(r) == transition(previous, entering),
{
    if previous == 0 && entering {
        Some("busy")
    } else if previous == 1 && !entering {
        Some("idle")
    } else {
        None
    }
}

fn make_report(activity: &Activity, state: &str) -> (r: Option<StreamingMessage>)
    ensures
        opt_message(r) == activity@.report(state@),
{
    match &activity.reporter {
        Some(instance) => Some(
            activity_report_msg(instance.as_str(), crate::bytes::copy_all(state.as_bytes())),
        ),
        None => None,
    }
}

/// Begins work. The message, if there is one, is to be sent.
pub fn enter(activity: &mut Activity, source: ActivitySource) -> (r: (
    ActiveGuard,
    Option<StreamingMessage>,
))
    requires
        old(activity)@.active < i64::MAX,
    ensures
        r.0.source == source,
        final(activity)@ == old(activity)@.entered(),
        opt_message(r.1) == (if old(activity)@.announces(source) {
            old(activity)@.report("busy"@)
        } else {
            None
        }),
{
    let crossed = state_transition(activity.active, true).is_some();
    activity.active = activity.active + 1;
    if crossed {
        activity.idle_since = None;
        activity.epoch = next_epoch(activity.epoch);
    }
    let report = if crossed || source.reasserts_busy() {
        make_report(activity, "busy")
    } else {
        None
    };
    (ActiveGuard { source }, report)
}

/// Ends work. The number, if there is one, is to be asked about with
/// [`idle_report`] a while later.
pub fn leave(activity: &mut Activity, guard: ActiveGuard, now: u64) -> (r: Option<u64>)
    requires
        old(activity)@.active > i64::MIN,
    ensures
        final(activity)@ == old(activity)@.left(now),
        r == (if old(activity)@.active == 1 {
            Some(final(activity)@.epoch)
        } else {
            None
        }),
{
    let last = state_transition(activity.active, false).is_some();
    activity.active = activity.active - 1;
    if last {
        activity.idle_since = Some(now);
        activity.epoch = next_epoch(activity.epoch);
        Some(activity.epoch)
    } else {
        None
    }
}

/// The report of idleness that was put off, where it still holds.
pub fn idle_report(activity: &Activity, epoch: u64) -> (r: Option<StreamingMessage>)
    ensures
        opt_message(r) == (if activity@.still_idle(epoch) {
            activity@.report("idle"@)
        } else {
            None
        }),
{
    if activity.epoch == epoch && activity.active == 0 {
        make_report(activity, "idle")
    } else {
        None
    }
}

/// The report that repeats the state from time to time. Idleness is not
/// repeated before it was reported.
pub fn report_current_activity(activity: &Activity, now: u64) -> (r: Option<StreamingMessage>)
    ensures
        opt_message(r) == (if activity@.settling(now) {
            None
        } else {
            activity@.report(activity@.state())
        }),
{
    if activity.active <= 0 {
        if let Some(since) = activity.idle_since {
            let elapsed: u64 = if now >= since {
                now - since
            } else {
                0
            };
            if elapsed < IDLE_REPORT_DEBOUNCE {
                return None;
            }
        }
    }
    make_report(activity, current_state(activity))
}

/// What waiting for idleness has come to.
#[derive(Clone, Copy, Debug, PartialEq, Eq, Structural)]
pub enum IdleWait {
    Idle,
    TimedOut,
    /// Look again a moment later.
    Waiting,
}

/// Whether nothing is open any more, with a time limit.
pub fn wait_until_idle(activity: &Activity, now: u64, deadline: u64) -> (r: IdleWait)
    ensures
        r == (if activity@.active <= 0 {
            IdleWait::Idle
        } else if now >= deadline {
            IdleWait::TimedOut
        } else {
            IdleWait::Waiting
        }),
{
    if activity.active <= 0 {
        IdleWait::Idle
    } else if now >= deadline {
        IdleWait::TimedOut
    } else {
        IdleWait::Waiting
    }
}

// ───────────────────────── laws ─────────────────────────

/// Work that begins and ends leaves the count as it was.
pub proof fn work_leaves_count(a: ActivityModel, now: u64)
    requires
        0 <= a.active < i64::MAX,
    ensures
        a.entered().active == a.active + 1,
        a.entered().left(now).active == a.active,
        a.entered().state() == "busy"@,
{
}

/// Busy and idle alternate: the state changes exactly where a transition says
/// so.
pub proof fn state_changes_at_zero(a: ActivityModel, now: u64)
    requires
        0 <= a.active < i64::MAX,
    ensures
        a.state() != a.entered().state() <==> transition(a.active, true) is Some,
        a.active > 0 ==> (a.state() != a.left(now).state() <==> transition(a.active, false)
            is Some),
{
    reveal_strlit("busy");
    reveal_strlit("idle");
    assert("busy"@[0] == 'b' && "idle"@[0] == 'i');
}

/// A report of idleness that was put off is void once new work began, also
/// where that has ended again.
pub proof fn new_work_cancels_idle_report(a: ActivityModel, now: u64, later: u64)
    requires
        a.active == 1,
        a.epoch < u64::MAX - 3,
    ensures
        a.left(now).still_idle(a.left(now).epoch),
        !a.left(now).entered().still_idle(a.left(now).epoch),
        !a.left(now).entered().left(later).still_idle(a.left(now).epoch),
{
}

/// Idleness is not repeated while its first report is still put off, and is
/// afterwards.
pub proof fn idleness_settles(a: ActivityModel, now: u64, later: u64)
    requires
        a.active == 1,
        now <= later,
    ensures
        later - now < IDLE_REPORT_DEBOUNCE <==> a.left(now).settling(later),
        !a.entered().settling(later) || a.active == i64::MAX,
{
}

} // verus!
