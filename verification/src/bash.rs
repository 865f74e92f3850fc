//! Shell sessions. A command is followed by a line that prints a mark with its
//! exit code; the command is done when the mark is in the output.
use crate::codec::{dict, kw_str, map_value, named_models, named_text, Kwargs};
use crate::numbers::{after, drawn, drawn_numbers_differ, following};
use crate::text::{
    chars_of, find_at, find_text, join, join3, opt_str_view, opt_view, parse_signed, same,
    signed_numeral, slice,
};
use crate::value::{Datum, Model};
use vstd::prelude::*;

verus! {

/// A session, with what it has printed since its last command. Its number
/// tells it from every other that had its name.
pub struct Session {
    pub id: String,
    pub number: u64,
    pub output: String,
}

/// The model of a [`Session`].
pub struct SessionModel {
    pub number: u64,
    pub output: Seq<char>,
}

impl View for Session {
    type V = SessionModel;

    open spec fn view(&self) -> SessionModel {
        SessionModel { number: self.number, output: self.output@ }
    }
}

/// The sessions that are open, and the number that the next one gets.
pub struct Sessions {
    pub list: Vec<Session>,
    pub next: u64,
}

/// The model of [`Sessions`].
pub struct SessionsModel {
    pub open: Map<Seq<char>, SessionModel>,
    pub next: u64,
}

/// A list of sessions by their names; a later one takes the place of an earlier
/// one of the same name.
pub open spec fn by_name(s: Seq<Session>) -> Map<Seq<char>, SessionModel>
    decreases s.len(),
{
    if s.len() == 0 {
        Map::empty()
    } else {
        by_name(s.drop_last()).insert(s.last().id@, s.last()@)
    }
}

impl View for Sessions {
    type V = SessionsModel;

    closed spec fn view(&self) -> SessionsModel {
        SessionsModel { open: by_name(self.list@), next: self.next }
    }
}

impl Sessions {
    /// No two sessions share a name.
    pub closed spec fn wf(self) -> bool {
        forall|i: int, j: int| 0 <= i < j < self.list@.len() ==> self.list@[i].id@ != self.list@[j].id@
    }
}

impl SessionsModel {
    /// The sessions with a fresh one, in place of any of its name.
    pub open spec fn opened(self, id: Seq<char>) -> SessionsModel {
        SessionsModel {
            open: self.open.insert(
                id,
                SessionModel { number: self.next, output: Seq::empty() },
            ),
            next: after(self.next),
        }
    }

    /// The sessions once the one with a number has printed a text.
    pub open spec fn printed(self, id: Seq<char>, number: u64, text: Seq<char>) -> SessionsModel {
        if self.open.contains_key(id) && self.open[id].number == number {
            SessionsModel {
                open: self.open.insert(
                    id,
                    SessionModel { number, output: self.open[id].output + text },
                ),
                ..self
            }
        } else {
            self
        }
    }

    /// The sessions once the output of one starts anew.
    pub open spec fn submitted(self, id: Seq<char>) -> SessionsModel {
        if self.open.contains_key(id) {
            SessionsModel {
                open: self.open.insert(
                    id,
                    SessionModel { output: Seq::empty(), ..self.open[id] },
                ),
                ..self
            }
        } else {
            self
        }
    }

    /// The sessions without one.
    pub open spec fn destroyed(self, id: Seq<char>) -> SessionsModel {
        SessionsModel { open: self.open.remove(id), ..self }
    }

    /// The sessions after one more thing has happened.
    pub open spec fn apply(self, step: SessionStep) -> SessionsModel {
        match step {
            SessionStep::Open { id } => self.opened(id),
            SessionStep::Print { id, number, text } => self.printed(id, number, text),
            SessionStep::Submit { id } => self.submitted(id),
            SessionStep::Destroy { id } => self.destroyed(id),
        }
    }

    /// The sessions after all that has happened.
    pub open spec fn run(self, steps: Seq<SessionStep>) -> SessionsModel
        decreases steps.len(),
    {
        if steps.len() == 0 {
            self
        } else {
            self.run(steps.drop_last()).apply(steps.last())
        }
    }
}

/// What happens to sessions.
pub enum SessionStep {
    Open { id: Seq<char> },
    Print { id: Seq<char>, number: u64, text: Seq<char> },
    Submit { id: Seq<char> },
    Destroy { id: Seq<char> },
}

/// How many sessions are opened.
pub open spec fn openings(steps: Seq<SessionStep>) -> nat
    decreases steps.len(),
{
    if steps.len() == 0 {
        0
    } else {
        openings(steps.drop_last()) + (if steps.last() is Open {
            1nat
        } else {
            0nat
        })
    }
}

/// Whether a step ends the session of a name: it closes it, or opens another.
pub open spec fn ends(step: SessionStep, id: Seq<char>) -> bool {
    match step {
        SessionStep::Open { id: i } => i == id,
        SessionStep::Destroy { id: i } => i == id,
        _ => false,
    }
}

/// Whether a session does not outlive what happens.
pub open spec fn ended(steps: Seq<SessionStep>, id: Seq<char>) -> bool {
    exists|i: int| 0 <= i < steps.len() && ends(#[trigger] steps[i], id)
}

proof fn named_at(s: Seq<Session>, i: int, id: Seq<char>)
    requires
        -1 <= i < s.len(),
        i >= 0 ==> s[i].id@ == id,
        forall|j: int| i < j < s.len() ==> s[j].id@ != id,
    ensures
        i >= 0 ==> by_name(s).contains_key(id) && by_name(s)[id] == s[i]@,
        i < 0 ==> !by_name(s).contains_key(id),
    decreases s.len(),
{
    if s.len() > 0 && i < s.len() - 1 {
        named_at(s.drop_last(), i, id);
    }
}

proof fn named_update(s: Seq<Session>, i: int, e: Session)
    requires
        0 <= i < s.len(),
        e.id@ == s[i].id@,
        forall|j: int| i < j < s.len() ==> s[j].id@ != e.id@,
    ensures
        by_name(s.update(i, e)) == by_name(s).insert(e.id@, e@),
    decreases s.len(),
{
    let t = s.update(i, e);
    if i == s.len() - 1 {
        assert(t.drop_last() =~= s.drop_last());
        assert(by_name(t) =~= by_name(s).insert(e.id@, e@));
    } else {
        named_update(s.drop_last(), i, e);
        assert(t.drop_last() =~= s.drop_last().update(i, e));
        assert(by_name(t) =~= by_name(s).insert(e.id@, e@));
    }
}

proof fn named_remove(s: Seq<Session>, i: int)
    requires
        0 <= i < s.len(),
        forall|a: int, b: int| 0 <= a < b < s.len() ==> s[a].id@ != s[b].id@,
    ensures
        by_name(s.remove(i)) == by_name(s).remove(s[i].id@),
    decreases s.len(),
{
    let t = s.remove(i);
    if i == s.len() - 1 {
        assert(t =~= s.drop_last());
        named_at(t, -1, s[i].id@);
        assert(by_name(t) =~= by_name(s).remove(s[i].id@));
    } else {
        named_remove(s.drop_last(), i);
        assert(t.drop_last() =~= s.drop_last().remove(i));
        assert(t.last() == s.last());
        assert(by_name(t) =~= by_name(s).remove(s[i].id@));
    }
}

// ───────────────────────── completion ─────────────────────────

/// The output before the mark, and the exit code of the mark, from `from` on.
/// A mark is `__RRT_DONE_`, a numeral, and `__`; the echo of the line that
/// prints it has no numeral there.
pub open spec fn completion(out: Seq<char>, from: int) -> Option<(Seq<char>, int)>
    decreases out.len() - from,
{
    let mark = "__RRT_DONE_"@;
    match find_at(out, mark, from) {
        None => None,
        Some(p) => if p < from || mark.len() == 0 || p + mark.len() > out.len() {
            None
        } else {
            let rest = out.skip(p + mark.len());
            match find_at(rest, "__"@, 0) {
                Some(e) => match signed_numeral(rest.take(e)) {
                    Some(code) => Some((out.take(p), code)),
                    None => completion(out, p + mark.len()),
                },
                None => completion(out, p + mark.len()),
            }
        },
    }
}

/// Finds the end of a command in the output of its session.
pub fn find_completion(out: &str) -> (r: Option<(String, i64)>)
    ensures
        match r {
            Some((text, code)) => completion(out@, 0) == Some((text@, code as int)),
            None => completion(out@, 0) is None,
        },
{
    let chars = chars_of(out);
    let mark = chars_of("__RRT_DONE_");
    let tail = chars_of("__");
    proof {
        reveal_strlit("__RRT_DONE_");
    }
    let mut from: usize = 0;
    loop
        invariant
            chars@ == out@,
            mark@ == "__RRT_DONE_"@,
            mark@.len() == 11,
            tail@ == "__"@,
            from <= chars.len(),
            completion(out@, 0) == completion(out@, from as int),
        decreases chars@.len() - from,
    {
        match find_text(&chars, &mark, from) {
            None => {
                return None;
            },
            Some(p) => {
                let start: usize = p + mark.len();
                let ghost rest = out@.skip(start as int);
                let rest_text = slice(&chars, start, chars.len());
                assert(rest_text@ =~= rest);
                let rest_chars = chars_of(rest_text.as_str());
                if let Some(e) = find_text(&rest_chars, &tail, 0) {
                    let number = slice(&rest_chars, 0, e);
                    assert(number@ =~= rest.take(e as int));
                    if let Some(code) = parse_signed(number.as_str()) {
                        let text = slice(&chars, 0, p);
                        assert(text@ =~= out@.take(p as int));
                        return Some((text, code));
                    }
                }
                from = start;
            },
        }
    }
}

/// The line that a session gets for a command.
pub open spec fn submitted_line(command: Seq<char>) -> Seq<char> {
    command + "\necho __RRT_DONE_$?__\n"@
}

/// The session that a call is about.
pub open spec fn session_of(kw: Map<Seq<char>, Model>) -> Seq<char> {
    match named_text(kw, "session_id"@) {
        Some(s) => s,
        None => Seq::empty(),
    }
}

fn session_id(kw: &Kwargs) -> (r: String)
    ensures
        r@ == session_of(kw@),
{
    match kw_str(kw, "session_id") {
        Some(s) => s,
        None => String::new(),
    }
}

/// A reply with nothing but an error, or none.
pub open spec fn error_reply(error: Option<Seq<char>>) -> Model {
    dict(
        seq![
            (
                "error"@,
                match error {
                    Some(e) => Model::Text(e),
                    None => Model::Nil,
                },
            ),
        ],
    )
}

/// Makes a reply with nothing but an error, or none.
pub fn error_value(error: Option<&str>) -> (r: Datum)
    ensures
        r@ == error_reply(opt_str_view(error)),
{
    let d = match error {
        Some(e) => Datum::text(e),
        None => Datum::Nil,
    };
    let mut pairs: Vec<(&str, Datum)> = Vec::new();
    pairs.push(("error", d));
    assert(named_models(pairs@) =~= seq![("error"@, d@)]);
    map_value(pairs)
}

/// What opening a session takes.
#[derive(Debug, Clone, Copy, PartialEq, Eq, Structural)]
pub enum OpenStep {
    OpenPty,
    Spawn,
    Reader,
    Writer,
}

/// What is said of a step that failed.
pub open spec fn open_failure(step: OpenStep, error: Seq<char>) -> Seq<char> {
    (match step {
        OpenStep::OpenPty => "openpty failed: "@,
        OpenStep::Spawn => "spawn failed: "@,
        OpenStep::Reader => "reader failed: "@,
        OpenStep::Writer => "writer failed: "@,
    }) + error
}

/// Says what went wrong when a session was opened.
pub fn open_error(step: OpenStep, error: &str) -> (r: String)
    ensures
        r@ == open_failure(step, error@),
{
    let head = match step {
        OpenStep::OpenPty => "openpty failed: ",
        OpenStep::Spawn => "spawn failed: ",
        OpenStep::Reader => "reader failed: ",
        OpenStep::Writer => "writer failed: ",
    };
    join(head, error)
}

/// A session to be opened.
#[derive(Debug, PartialEq, Eq)]
pub struct NewSession {
    pub id: String,
    pub shell: String,
}

impl Sessions {
    /// No sessions.
    pub fn new() -> (r: Sessions)
        ensures
            r.wf(),
            r@ == (SessionsModel { open: Map::empty(), next: 0 }),
    {
        Sessions { list: Vec::new(), next: 0 }
    }

    fn position(&self, id: &str) -> (r: Option<usize>)
        ensures
            match r {
                Some(i) => i < self.list@.len() && self.list@[i as int].id@ == id@ && forall|j: int|
                    i < j < self.list@.len() ==> self.list@[j].id@ != id@,
                None => forall|j: int| 0 <= j < self.list@.len() ==> self.list@[j].id@ != id@,
            },
    {
        let mut i: usize = self.list.len();
        while i > 0
            invariant
                i <= self.list@.len(),
                forall|j: int| i <= j < self.list@.len() ==> self.list@[j].id@ != id@,
            decreases i,
        {
            i = i - 1;
            if same(self.list[i].id.as_str(), id) {
                return Some(i);
            }
        }
        None
    }

    /// Whether a session is open.
    pub fn contains(&self, id: &str) -> (r: bool)
        ensures
            r == self@.open.contains_key(id@),
    {
        match self.position(id) {
            Some(i) => {
                proof {
                    named_at(self.list@, i as int, id@);
                }
                true
            },
            None => {
                proof {
                    named_at(self.list@, -1, id@);
                }
                false
            },
        }
    }

    /// Plans to open a session, unless one of its name is open.
    pub fn bash_init(&self, kw: &Kwargs) -> (r: Result<NewSession, Datum>)
        ensures
            ({
                let id = session_of(kw@);
                match r {
                    Ok(s) => !self@.open.contains_key(id) && s.id@ == id && s.shell@ == (
                    match named_text(kw@, "shell"@) {
                        Some(shell) => shell,
                        None => "/bin/bash"@,
                    }),
                    Err(reply) => self@.open.contains_key(id) && reply@ == error_reply(
                        Some("session "@ + id + " already exists"@),
                    ),
                }
            }),
    {
        let id = session_id(kw);
        if self.contains(id.as_str()) {
            let message = join3("session ", id.as_str(), " already exists");
            return Err(error_value(Some(message.as_str())));
        }
        let shell = match kw_str(kw, "shell") {
            Some(s) => s,
            None => "/bin/bash".to_owned(),
        };
        Ok(NewSession { id, shell })
    }

    /// Follows the opening of a session, or its failure. A session that was
    /// opened has the number that comes with the reply.
    pub fn bash_opened(&mut self, id: String, failure: Option<&str>) -> (r: (Datum, Option<u64>))
        requires
            old(self).wf(),
        ensures
            final(self).wf(),
            r.0@ == error_reply(opt_str_view(failure)),
            r.1 == (if failure is Some {
                None
            } else {
                Some(old(self)@.next)
            }),
            final(self)@ == (if failure is Some {
                old(self)@
            } else {
                old(self)@.opened(id@)
            }),
    {
        let reply = error_value(failure);
        if failure.is_some() {
            return (reply, None);
        }
        let number: u64 = self.next;
        let ghost before = self.list@;
        let place = self.position(id.as_str());
        let fresh = Session { id, number, output: String::new() };
        assert(fresh.output@ =~= Seq::empty());
        match place {
            Some(i) => {
                self.list[i] = fresh;
                proof {
                    named_update(before, i as int, fresh);
                    assert(self.list@ =~= before.update(i as int, fresh));
                }
            },
            None => {
                self.list.push(fresh);
                assert(self.list@.drop_last() =~= before);
            },
        }
        self.next = following(number);
        (reply, Some(number))
    }

    /// Adds to the output of the session with a number.
    pub fn append_output(&mut self, id: &str, number: u64, text: &str)
        requires
            old(self).wf(),
        ensures
            final(self).wf(),
            final(self)@ == old(self)@.printed(id@, number, text@),
    {
        match self.position(id) {
            Some(i) => {
                proof {
                    named_at(self.list@, i as int, id@);
                }
                if self.list[i].number == number {
                    let ghost before = self.list@;
                    let longer = join(self.list[i].output.as_str(), text);
                    self.list[i].output = longer;
                    proof {
                        named_update(before, i as int, self.list@[i as int]);
                        assert(self.list@ =~= before.update(i as int, self.list@[i as int]));
                    }
                }
            },
            None => {
                proof {
                    named_at(self.list@, -1, id@);
                }
            },
        }
    }

    /// Plans to run a command in a session: the session, and the line that it
    /// gets. Its output starts anew.
    pub fn bash_submit(&mut self, kw: &Kwargs) -> (r: Result<(String, String), Datum>)
        requires
            old(self).wf(),
        ensures
            final(self).wf(),
            ({
                let id = session_of(kw@);
                let command = match named_text(kw@, "command"@) {
                    Some(c) => c,
                    None => Seq::empty(),
                };
                match r {
                    Ok((sid, line)) => old(self)@.open.contains_key(id) && sid@ == id && line@
                        == submitted_line(command),
                    Err(reply) => !old(self)@.open.contains_key(id) && reply@ == error_reply(
                        Some("session "@ + id + " not found"@),
                    ),
                }
            }),
            final(self)@ == old(self)@.submitted(session_of(kw@)),
    {
        let id = session_id(kw);
        let command = match kw_str(kw, "command") {
            Some(c) => c,
            None => String::new(),
        };
        match self.position(id.as_str()) {
            Some(i) => {
                let ghost before = self.list@;
                self.list[i].output = String::new();
                proof {
                    named_at(before, i as int, id@);
                    named_update(before, i as int, self.list@[i as int]);
                    assert(self.list@ =~= before.update(i as int, self.list@[i as int]));
                    assert(self.list@[i as int].output@ =~= Seq::empty());
                }
                let line = join(command.as_str(), "\necho __RRT_DONE_$?__\n");
                Ok((id, line))
            },
            None => {
                proof {
                    named_at(self.list@, -1, id@);
                }
                let message = join3("session ", id.as_str(), " not found");
                Err(error_value(Some(message.as_str())))
            },
        }
    }

    /// Says whether the command of a session is done, and with what.
    pub fn bash_poll(&self, kw: &Kwargs) -> (r: Datum)
        ensures
            r@ == poll_reply(self@.open, session_of(kw@)),
    {
        let id = session_id(kw);
        match self.position(id.as_str()) {
            None => {
                proof {
                    named_at(self.list@, -1, id@);
                }
                let message = join3("session ", id.as_str(), " not found");
                let a = Datum::text("error");
                let b = Datum::text(message.as_str());
                let mut pairs: Vec<(&str, Datum)> = Vec::new();
                pairs.push(("status", a));
                pairs.push(("error", b));
                assert(named_models(pairs@) =~= seq![("status"@, a@), ("error"@, b@)]);
                map_value(pairs)
            },
            Some(i) => {
                proof {
                    named_at(self.list@, i as int, id@);
                }
                match find_completion(self.list[i].output.as_str()) {
                    Some((text, code)) => {
                        let a = Datum::text("done");
                        let b = Datum::Text(text);
                        let c = Datum::text("");
                        let d = Datum::integer(code);
                        let mut pairs: Vec<(&str, Datum)> = Vec::new();
                        pairs.push(("status", a));
                        pairs.push(("stdout", b));
                        pairs.push(("stderr", c));
                        pairs.push(("exit_code", d));
                        assert(named_models(pairs@) =~= seq![
                            ("status"@, a@),
                            ("stdout"@, b@),
                            ("stderr"@, c@),
                            ("exit_code"@, d@),
                        ]);
                        map_value(pairs)
                    },
                    None => {
                        let a = Datum::text("running");
                        let mut pairs: Vec<(&str, Datum)> = Vec::new();
                        pairs.push(("status", a));
                        assert(named_models(pairs@) =~= seq![("status"@, a@)]);
                        map_value(pairs)
                    },
                }
            },
        }
    }

    /// Closes a session. Says whether there is one whose shell has to be ended.
    pub fn bash_destroy(&mut self, kw: &Kwargs) -> (r: (Option<String>, Datum))
        requires
            old(self).wf(),
        ensures
            final(self).wf(),
            r.1@ == error_reply(None),
            final(self)@ == old(self)@.destroyed(session_of(kw@)),
            opt_view(r.0) == (if old(self)@.open.contains_key(session_of(kw@)) {
                Some(session_of(kw@))
            } else {
                None
            }),
    {
        let id = session_id(kw);
        match self.position(id.as_str()) {
            Some(i) => {
                let ghost before = self.list@;
                let _ = self.list.remove(i);
                proof {
                    named_at(before, i as int, id@);
                    named_remove(before, i as int);
                }
                (Some(id), error_value(None))
            },
            None => {
                proof {
                    named_at(self.list@, -1, id@);
                    assert(self@.open =~= self@.open.remove(id@));
                }
                (None, error_value(None))
            },
        }
    }
}

/// The reply to a poll.
pub open spec fn poll_reply(sessions: Map<Seq<char>, SessionModel>, id: Seq<char>) -> Model {
    if !sessions.contains_key(id) {
        dict(
            seq![
                ("status"@, Model::Text("error"@)),
                ("error"@, Model::Text("session "@ + id + " not found"@)),
            ],
        )
    } else {
        match completion(sessions[id].output, 0) {
            Some((text, code)) => dict(
                seq![
                    ("status"@, Model::Text("done"@)),
                    ("stdout"@, Model::Text(text)),
                    ("stderr"@, Model::Text(""@)),
                    ("exit_code"@, Model::Integer(code)),
                ],
            ),
            None => dict(seq![("status"@, Model::Text("running"@))]),
        }
    }
}

/// A command is done only where its mark stands in the output with a number,
/// and what stands before the mark is its output. The echo of the line that
/// prints the mark has no number there.
pub proof fn completion_has_a_number(out: Seq<char>, from: int)
    requires
        0 <= from,
        completion(out, from) is Some,
    ensures
        ({
            let (text, code) = completion(out, from)->0;
            let mark = "__RRT_DONE_"@;
            let at = text.len() as int;
            &&& from <= at <= at + mark.len() <= out.len()
            &&& text == out.take(at)
            &&& out.subrange(at, at + mark.len()) == mark
            &&& exists|e: int|
                0 <= e <= out.len() - at - mark.len() && #[trigger] signed_numeral(
                    out.skip(at + mark.len()).take(e),
                ) == Some(code)
        }),
    decreases out.len() - from,
{
    let mark = "__RRT_DONE_"@;
    let p = find_at(out, mark, from)->0;
    found_here(out, mark, from);
    let rest = out.skip(p + mark.len());
    if let Some(e) = find_at(rest, "__"@, 0) {
        found_here(rest, "__"@, 0);
        if signed_numeral(rest.take(e)) is None {
            completion_has_a_number(out, p + mark.len());
        }
    } else {
        completion_has_a_number(out, p + mark.len());
    }
}

/// A text stands where it was found.
proof fn found_here(s: Seq<char>, t: Seq<char>, from: int)
    requires
        0 <= from,
        find_at(s, t, from) is Some,
    ensures
        from <= find_at(s, t, from)->0,
        find_at(s, t, from)->0 + t.len() <= s.len(),
        s.subrange(find_at(s, t, from)->0, find_at(s, t, from)->0 + t.len()) == t,
    decreases s.len() + 1 - from,
{
    if s.subrange(from, from + t.len()) != t {
        found_here(s, t, from + 1);
    }
}

/// A session that has just been opened, or has just got a command, is running.
pub proof fn fresh_sessions_are_running(s: SessionsModel, id: Seq<char>)
    ensures
        poll_reply(s.opened(id).open, id) == dict(seq![("status"@, Model::Text("running"@))]),
        s.open.contains_key(id) ==> poll_reply(s.submitted(id).open, id) == dict(
            seq![("status"@, Model::Text("running"@))],
        ),
{
    reveal_strlit("__RRT_DONE_");
}

proof fn numbers_after(s: SessionsModel, steps: Seq<SessionStep>, first: u64, id: Seq<char>)
    requires
        s.next == after(first),
        s.open.contains_key(id),
        s.open[id].number == first,
        openings(steps) < u64::MAX,
    ensures
        s.run(steps).next == drawn(first, openings(steps) + 1),
        (s.run(steps).open.contains_key(id) && s.run(steps).open[id].number == first) == !ended(
            steps,
            id,
        ),
    decreases steps.len(),
{
    if steps.len() == 0 {
        reveal_with_fuel(drawn, 2);
    } else {
        let shorter = steps.drop_last();
        numbers_after(s, shorter, first, id);
        drawn_numbers_differ(first, 0, openings(shorter) + 1);
        assert(drawn(first, 0) == first);
        if ended(shorter, id) {
            let i = choose|i: int| 0 <= i < shorter.len() && ends(#[trigger] shorter[i], id);
            assert(steps[i] == shorter[i]);
        }
        let last = steps.len() - 1;
        assert(steps[last] == steps.last());
        if ended(steps, id) {
            let i = choose|i: int| 0 <= i < steps.len() && ends(#[trigger] steps[i], id);
            assert(i < last ==> shorter[i] == steps[i]);
        }
    }
}

/// What a shell prints reaches its own session for as long as that is open, and
/// no session that was opened later under the same name. This holds where fewer
/// than 2^64 - 1 sessions were opened since.
pub proof fn output_reaches_its_session(
    s: SessionsModel,
    id: Seq<char>,
    steps: Seq<SessionStep>,
    text: Seq<char>,
)
    requires
        openings(steps) < u64::MAX,
    ensures
        ({
            let now = s.opened(id).run(steps);
            let printed = now.printed(id, s.next, text);
            if ended(steps, id) {
                printed == now
            } else {
                &&& now.open.contains_key(id)
                &&& printed.open == now.open.insert(
                    id,
                    SessionModel { output: now.open[id].output + text, ..now.open[id] },
                )
            }
        }),
{
    numbers_after(s.opened(id), steps, s.next, id);
}

} // verus!
