//! Laws of shell sessions.
use super::fields::{fields1, fields2, fields4, says, size};
use super::texts::{finds_the_first, signed_numerals_read_back};
use crate::bash::{
    completion, error_reply, open_failure, poll_reply, session_of, submitted_line, OpenStep,
    SessionModel, SessionsModel,
};
use crate::text::{all_digits, find_at, is_digit, signed_decimal, signed_numeral};
use crate::value::Model;
use vstd::prelude::*;

verus! {

/// Whether the mark that ends a command begins at a place.
pub open spec fn mark_at(out: Seq<char>, p: int) -> bool {
    0 <= p && p + 11 <= out.len() && out.subrange(p, p + 11) == "__RRT_DONE_"@
}

/// Whether a mark at `p` tells an exit code: a numeral that two underscores at
/// `e` end.
pub open spec fn tells(out: Seq<char>, p: int, e: int, code: int) -> bool {
    mark_at(out, p) && p + 11 <= e && e + 2 <= out.len() && out[e] == '_' && out[e + 1] == '_'
        && signed_numeral(out.subrange(p + 11, e)) == Some(code)
}

proof fn marks_share_one_character(out: Seq<char>, p: int, q: int)
    requires
        mark_at(out, p),
        mark_at(out, q),
        p < q,
    ensures
        q == p + 10 || q >= p + 11,
{
    reveal_strlit("__RRT_DONE_");
    let mark = "__RRT_DONE_"@;
    let k = q - p;
    if k < 11 {
        assert forall|i: int| 0 <= i < 11 implies out[p + i] == mark[i] && out[q + i] == mark[i] by {
            assert(out.subrange(p, p + 11)[i] == out[p + i]);
            assert(out.subrange(q, q + 11)[i] == out[q + i]);
        }
        assert(out[p + k] == mark[0]);
        assert(k != 10 ==> out[p + k + 1] == mark[1]);
        assert(out[p + k] == mark[k]);
        assert(k != 10 ==> out[p + k + 1] == mark[k + 1]);
    }
}

proof fn numerals_have_no_underscore(s: Seq<char>, k: int)
    requires
        signed_numeral(s) is Some,
        0 <= k < s.len(),
    ensures
        s[k] != '_',
{
    if s[0] == '+' || s[0] == '-' {
        if k > 0 {
            assert(is_digit(s.drop_first()[k - 1]));
        }
    } else {
        assert(all_digits(s));
        assert(is_digit(s[k]));
    }
}

proof fn first_end(out: Seq<char>, p: int, e: int, code: int)
    requires
        tells(out, p, e, code),
    ensures
        find_at(out.skip(p + 11), "__"@, 0) == Some(e - p - 11),
        out.skip(p + 11).take(e - p - 11) == out.subrange(p + 11, e),
{
    reveal_strlit("__");
    let rest = out.skip(p + 11);
    let n = e - p - 11;
    let number = out.subrange(p + 11, e);
    assert(rest.take(n) =~= number);
    assert(rest.subrange(n, n + 2) =~= "__"@);
    finds_the_first(rest, "__"@, 0);
    let i = find_at(rest, "__"@, 0)->0;
    if i < n {
        assert(rest.subrange(i, i + 2)[0] == rest[i]);
        assert(number[i] == rest[i]);
        numerals_have_no_underscore(number, i);
    }
}

proof fn scan_finds(out: Seq<char>, from: int, p: int, e: int, code: int)
    requires
        0 <= from <= p,
        tells(out, p, e, code),
        !mark_at(out, p - 10),
        forall|q: int, f: int, c: int| 0 <= q < p ==> !#[trigger] tells(out, q, f, c),
    ensures
        completion(out, from) == Some((out.take(p), code)),
    decreases p - from,
{
    reveal_strlit("__RRT_DONE_");
    reveal_strlit("__");
    let mark = "__RRT_DONE_"@;
    finds_the_first(out, mark, from);
    assert(out.subrange(p, p + mark.len()) == mark);
    let q = find_at(out, mark, from)->0;
    assert(q <= p);
    assert(mark_at(out, q));
    first_end(out, p, e, code);
    if q < p {
        marks_share_one_character(out, q, p);
        let rest = out.skip(q + 11);
        finds_the_first(rest, "__"@, 0);
        if let Some(f) = find_at(rest, "__"@, 0) {
            if let Some(c) = signed_numeral(rest.take(f)) {
                assert(rest.subrange(f, f + 2)[0] == out[q + 11 + f]);
                assert(rest.subrange(f, f + 2)[1] == out[q + 11 + f + 1]);
                assert(rest.take(f) =~= out.subrange(q + 11, q + 11 + f));
                assert(tells(out, q, q + 11 + f, c));
            }
        }
        scan_finds(out, q + 11, p, e, code);
    }
}

/// A command is done at the first mark that tells an exit code: what stands
/// before that mark is its output, and the code is its exit code. A mark whose
/// first underscore ends another mark is not seen.
pub proof fn the_first_code_ends_a_command(out: Seq<char>, p: int, e: int, code: int)
    requires
        tells(out, p, e, code),
        !mark_at(out, p - 10),
        forall|q: int, f: int, c: int| 0 <= q < p ==> !#[trigger] tells(out, q, f, c),
    ensures
        completion(out, 0) == Some((out.take(p), code)),
{
    scan_finds(out, 0, p, e, code);
}

/// A command is not done while no mark tells an exit code.
pub proof fn commands_without_a_code_run(out: Seq<char>, from: int)
    requires
        0 <= from,
        forall|q: int, f: int, c: int| 0 <= q ==> !#[trigger] tells(out, q, f, c),
    ensures
        completion(out, from) is None,
    decreases out.len() + 1 - from,
{
    reveal_strlit("__RRT_DONE_");
    reveal_strlit("__");
    let mark = "__RRT_DONE_"@;
    finds_the_first(out, mark, from);
    if let Some(q) = find_at(out, mark, from) {
        assert(mark_at(out, q));
        let rest = out.skip(q + 11);
        finds_the_first(rest, "__"@, 0);
        if let Some(f) = find_at(rest, "__"@, 0) {
            if let Some(c) = signed_numeral(rest.take(f)) {
                assert(rest.subrange(f, f + 2)[0] == out[q + 11 + f]);
                assert(rest.subrange(f, f + 2)[1] == out[q + 11 + f + 1]);
                assert(rest.take(f) =~= out.subrange(q + 11, q + 11 + f));
                assert(tells(out, q, q + 11 + f, c));
            }
        }
        commands_without_a_code_run(out, q + 11);
    }
}

/// Output without a mark, the mark, any exit code, two underscores and anything
/// more is a command that is done, with that output and that code. The output
/// does not end in the mark but for its last character.
pub proof fn marked_output_is_done(text: Seq<char>, code: int, more: Seq<char>)
    requires
        i64::MIN <= code <= i64::MAX,
        forall|p: int| !#[trigger] mark_at(text, p),
        text.len() >= 10 ==> text.skip(text.len() - 10) != "__RRT_DONE"@,
    ensures
        completion(text + "__RRT_DONE_"@ + signed_decimal(code) + "__"@ + more, 0) == Some(
            (text, code),
        ),
{
    reveal_strlit("__RRT_DONE_");
    reveal_strlit("__RRT_DONE");
    reveal_strlit("__");
    let mark = "__RRT_DONE_"@;
    let number = signed_decimal(code);
    let out = text + mark + number + "__"@ + more;
    let p = text.len() as int;
    let e = p + 11 + number.len();
    signed_numerals_read_back(code);
    assert(out.subrange(p, p + 11) =~= mark);
    assert(out.subrange(p + 11, e) =~= number);
    assert(out[e] == "__"@[0]);
    assert(out[e + 1] == "__"@[1]);
    assert(tells(out, p, e, code));
    assert forall|q: int| 0 <= q < p implies !mark_at(out, q) by {
        if mark_at(out, q) {
            marks_share_one_character(out, q, p);
            if q + 11 <= p {
                assert(out.subrange(q, q + 11) =~= text.subrange(q, q + 11));
                assert(mark_at(text, q));
            } else {
                assert(q == p - 10);
                assert forall|i: int| 0 <= i < 10 implies text.skip(p - 10)[i] == "__RRT_DONE"@[i] by {
                    assert(out.subrange(q, q + 11)[i] == text[q + i]);
                }
                assert(text.skip(p - 10) =~= "__RRT_DONE"@);
            }
        }
    }
    the_first_code_ends_a_command(out, p, e, code);
    assert(out.take(p) =~= text);
}

/// The reply to a poll of a command that is done has its output, no error
/// output, and its exit code.
pub proof fn done_commands_are_replied(
    sessions: Map<Seq<char>, SessionModel>,
    id: Seq<char>,
    text: Seq<char>,
    code: int,
    more: Seq<char>,
)
    requires
        i64::MIN <= code <= i64::MAX,
        forall|p: int| !#[trigger] mark_at(text, p),
        text.len() >= 10 ==> text.skip(text.len() - 10) != "__RRT_DONE"@,
        sessions.contains_key(id),
        sessions[id].output == text + "__RRT_DONE_"@ + signed_decimal(code) + "__"@ + more,
    ensures
        size(poll_reply(sessions, id)) == 4,
        says(poll_reply(sessions, id), "status"@, Model::Text("done"@)),
        says(poll_reply(sessions, id), "stdout"@, Model::Text(text)),
        says(poll_reply(sessions, id), "stderr"@, Model::Text(Seq::empty())),
        says(poll_reply(sessions, id), "exit_code"@, Model::Integer(code)),
{
    marked_output_is_done(text, code, more);
    poll_fields(text, code);
    reveal_strlit("");
    assert(""@ =~= Seq::<char>::empty());
}

proof fn poll_fields(text: Seq<char>, code: int)
    ensures
        ({
            let reply = crate::codec::dict(
                seq![
                    ("status"@, Model::Text("done"@)),
                    ("stdout"@, Model::Text(text)),
                    ("stderr"@, Model::Text(""@)),
                    ("exit_code"@, Model::Integer(code)),
                ],
            );
            &&& size(reply) == 4
            &&& says(reply, "status"@, Model::Text("done"@))
            &&& says(reply, "stdout"@, Model::Text(text))
            &&& says(reply, "stderr"@, Model::Text(""@))
            &&& says(reply, "exit_code"@, Model::Integer(code))
        }),
{
    reveal_strlit("status");
    reveal_strlit("stdout");
    reveal_strlit("stderr");
    reveal_strlit("exit_code");
    assert("status"@[2] == 'a');
    assert("status"@.len() == 6);
    assert("stdout"@[2] == 'd');
    assert("stdout"@[3] == 'o');
    assert("stdout"@.len() == 6);
    assert("stderr"@[2] == 'd');
    assert("stderr"@[3] == 'e');
    assert("stderr"@.len() == 6);
    assert("exit_code"@.len() == 9);
    fields4(
        "status"@,
        Model::Text("done"@),
        "stdout"@,
        Model::Text(text),
        "stderr"@,
        Model::Text(""@),
        "exit_code"@,
        Model::Integer(code),
    );
}

/// The reply to a poll of a session that is not open names it; one whose output
/// tells no exit code still runs.
pub proof fn other_sessions_are_replied(sessions: Map<Seq<char>, SessionModel>, id: Seq<char>)
    ensures
        !sessions.contains_key(id) ==> {
            &&& says(poll_reply(sessions, id), "status"@, Model::Text("error"@))
            &&& says(
                poll_reply(sessions, id),
                "error"@,
                Model::Text("session "@ + id + " not found"@),
            )
        },
        sessions.contains_key(id) && (forall|q: int, f: int, c: int|
            0 <= q ==> !#[trigger] tells(sessions[id].output, q, f, c)) ==> {
            &&& size(poll_reply(sessions, id)) == 1
            &&& says(poll_reply(sessions, id), "status"@, Model::Text("running"@))
        },
{
    reveal_strlit("status");
    reveal_strlit("error");
    assert("status"@.len() == 6);
    assert("error"@.len() == 5);
    if !sessions.contains_key(id) {
        fields2(
            "status"@,
            Model::Text("error"@),
            "error"@,
            Model::Text("session "@ + id + " not found"@),
        );
    } else if forall|q: int, f: int, c: int|
        0 <= q ==> !#[trigger] tells(sessions[id].output, q, f, c) {
        commands_without_a_code_run(sessions[id].output, 0);
        fields1("status"@, Model::Text("running"@));
    }
}

/// A reply that only tells of an error has its text, or nothing where all went
/// well.
pub proof fn error_replies_tell(error: Option<Seq<char>>)
    ensures
        size(error_reply(error)) == 1,
        error is Some ==> says(error_reply(error), "error"@, Model::Text(error->0)),
        error is None ==> says(error_reply(error), "error"@, Model::Nil),
{
    fields1(
        "error"@,
        match error {
            Some(e) => Model::Text(e),
            None => Model::Nil,
        },
    );
}

/// The line that a session gets is the command, and a line that prints the
/// mark with the exit code. The echo of that line tells no exit code.
pub proof fn submitted_lines_print_the_mark(command: Seq<char>)
    ensures
        ({
            let line = submitted_line(command);
            let n = command.len() as int;
            &&& line.len() == n + 22
            &&& line.take(n) == command
            &&& line[n] == '\n' && line[n + 21] == '\n'
            &&& line.subrange(n + 1, n + 6) == "echo "@
            &&& mark_at(line, n + 6)
            &&& line[n + 17] == '$' && line[n + 18] == '?' && line[n + 19] == '_' && line[n + 20]
                == '_'
        }),
{
    reveal_strlit("\necho __RRT_DONE_$?__\n");
    reveal_strlit("__RRT_DONE_");
    reveal_strlit("echo ");
    let line = submitted_line(command);
    let n = command.len() as int;
    assert("\necho __RRT_DONE_$?__\n"@.len() == 22);
    assert(line.take(n) =~= command);
    assert(line.subrange(n + 1, n + 6) =~= "echo "@);
    assert(line.subrange(n + 6, n + 17) =~= "__RRT_DONE_"@);
}

/// The session of a call is its argument `session_id`, and the one without a
/// name where it has none.
pub proof fn sessions_are_arguments(kw: Map<Seq<char>, Model>, id: Seq<char>)
    ensures
        kw.contains_key("session_id"@) && kw["session_id"@] == Model::Text(id) ==> session_of(kw)
            == id,
        !kw.contains_key("session_id"@) ==> session_of(kw).len() == 0,
{
}

/// What happens to one session does not touch another.
pub proof fn sessions_are_apart(
    s: SessionsModel,
    id: Seq<char>,
    other: Seq<char>,
    number: u64,
    text: Seq<char>,
)
    requires
        other != id,
    ensures
        s.opened(id).open.contains_key(other) == s.open.contains_key(other),
        s.opened(id).open[other] == s.open[other],
        s.printed(id, number, text).open.contains_key(other) == s.open.contains_key(other),
        s.printed(id, number, text).open[other] == s.open[other],
        s.submitted(id).open.contains_key(other) == s.open.contains_key(other),
        s.submitted(id).open[other] == s.open[other],
        s.destroyed(id).open.contains_key(other) == s.open.contains_key(other),
        s.open.contains_key(other) ==> s.destroyed(id).open[other] == s.open[other],
{
}

/// A session is open from its opening to its closing, prints what its shell
/// prints, and starts anew with each command.
pub proof fn sessions_print(s: SessionsModel, id: Seq<char>, a: Seq<char>, b: Seq<char>)
    ensures
        ({
            let open = s.opened(id);
            let n = open.open[id].number;
            let once = open.printed(id, n, a);
            let twice = once.printed(id, n, b);
            &&& open.open.contains_key(id) && open.open[id].output.len() == 0
            &&& once.open[id].output == a
            &&& twice.open[id].output == a + b
            &&& twice.submitted(id).open.contains_key(id)
            &&& twice.submitted(id).open[id].output.len() == 0
            &&& twice.submitted(id).printed(id, n, b).open[id].output == b
            &&& !twice.destroyed(id).open.contains_key(id)
        }),
{
    let open = s.opened(id);
    let n = open.open[id].number;
    assert(Seq::<char>::empty() + a =~= a);
    assert(Seq::<char>::empty() + b =~= b);
}

/// What is told of a session that does not open ends in the error, and tells
/// which step failed.
pub proof fn failed_openings_are_told(step: OpenStep, e: Seq<char>)
    ensures
        ({
            let t = open_failure(step, e);
            &&& t.len() >= e.len()
            &&& t.skip(t.len() - e.len()) == e
            &&& step == OpenStep::OpenPty ==> t == "openpty failed: "@ + e
            &&& step == OpenStep::Spawn ==> t == "spawn failed: "@ + e
            &&& step == OpenStep::Reader ==> t == "reader failed: "@ + e
            &&& step == OpenStep::Writer ==> t == "writer failed: "@ + e
        }),
{
    let t = open_failure(step, e);
    assert(t.skip(t.len() - e.len()) =~= e);
}

} // verus!
