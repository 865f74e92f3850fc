//! Laws of settings, of the environment, and of reports of activity.
use super::texts::unsigned_numerals_are_digits;
use crate::activity::{transition, ActivityModel, ActivitySource};
use crate::args::{
    args_of, first_set, instance_of, last_index, port_of, rebind_allowed, reconnect_args,
    tunnel_ports, ArgsModel,
};
use crate::bytes::{byte_parts, first_byte};
use crate::child_env::inherited;
use crate::messages::BodyModel;
use crate::startup::{
    configured_or, entry_variable, entry_variables, file_entries, file_variables, outcome_of,
    unquoted, CheckpointOutcome,
};
use crate::text::{begins, decimal, decimal_reads_back, lower, trimmed, unsigned_numeral};
use vstd::prelude::*;
use vstd::utf8::{decode_utf8, encode_utf8, valid_utf8};

verus! {

// ───────────────────────── activity ─────────────────────────

/// A report tells the instance, with the signal 23, whether work is going on.
pub proof fn reports_tell_the_state(a: ActivityModel, instance: Seq<char>, state: Seq<char>)
    ensures
        a.reporter is None ==> a.report(state) is None,
        a.reporter == Some(instance) ==> a.report(state) is Some && (
        a.report(state)->0.body matches Some(BodyModel::KillReq(k)) && k.instance_id == instance
            && k.signal == 23 && k.payload == encode_utf8(state)),
        a.active > 0 ==> a.state() == "busy"@,
        a.active <= 0 ==> a.state() == "idle"@,
{
}

/// Work that begins is reported where none was going on, and work from outside
/// always.
pub proof fn beginnings_are_reported(a: ActivityModel)
    ensures
        a.active == 0 ==> a.announces(ActivitySource::Checkpoint) && a.announces(
            ActivitySource::RuntimeRpc,
        ),
        a.active != 0 ==> !a.announces(ActivitySource::Checkpoint) && !a.announces(
            ActivitySource::RuntimeRpc,
        ),
        a.announces(ActivitySource::DirectHttp),
        a.announces(ActivitySource::Tunnel),
{
}

/// Idleness is reported only after 800 milliseconds without work.
pub proof fn idleness_is_awaited(a: ActivityModel, now: u64, later: u64)
    requires
        a.active == 1,
        now <= later,
    ensures
        a.left(now).active == 0,
        a.left(now).idle_since == Some(now),
        a.left(now).settling(later) == (later - now < 800_000_000),
        a.left(now).epoch != a.epoch,
        a.left(now).reporter == a.reporter,
{
}

/// More work leaves the time of the last idleness alone, and the end of some of
/// it too.
pub proof fn work_in_between_changes_nothing(a: ActivityModel, now: u64)
    requires
        1 < a.active < i64::MAX,
    ensures
        a.entered().active == a.active + 1,
        a.entered().epoch == a.epoch,
        a.entered().idle_since == a.idle_since,
        a.left(now).active == a.active - 1,
        a.left(now).epoch == a.epoch,
        a.left(now).idle_since == a.idle_since,
        transition(a.active as i64, true) is None,
        transition(a.active as i64, false) is None,
{
}

/// The first work makes busy, and the end of the last makes idle.
pub proof fn the_first_and_the_last_count(a: ActivityModel)
    requires
        a.active == 0,
    ensures
        a.entered().active == 1,
        a.entered().idle_since is None,
        a.entered().epoch != a.epoch,
        transition(0, true) == Some("busy"@),
        transition(1, false) == Some("idle"@),
        transition(0, false) is None,
        transition(1, true) is None,
{
}

// ───────────────────────── settings ─────────────────────────

/// A setting has the value of the first of its variables that is not blank,
/// without white space around it.
pub proof fn the_first_variable_counts(
    env: Map<Seq<char>, Seq<char>>,
    keys: Seq<Seq<char>>,
    i: int,
)
    requires
        0 <= i < keys.len(),
        env.contains_key(keys[i]),
        trimmed(env[keys[i]]).len() > 0,
        forall|j: int|
            0 <= j < i ==> !env.contains_key(#[trigger] keys[j]) || trimmed(env[keys[j]]).len()
                == 0,
    ensures
        first_set(env, keys) == trimmed(env[keys[i]]),
    decreases keys.len(),
{
    if i > 0 {
        let rest = keys.drop_first();
        assert(rest[i - 1] == keys[i]);
        assert forall|j: int| 0 <= j < i - 1 implies !env.contains_key(#[trigger] rest[j])
            || trimmed(env[rest[j]]).len() == 0 by {
            assert(rest[j] == keys[j + 1]);
        }
        assert(!env.contains_key(keys[0]) || trimmed(env[keys[0]]).len() == 0);
        the_first_variable_counts(env, rest, i - 1);
    }
}

/// A setting without a variable is empty.
pub proof fn unset_settings_are_empty(env: Map<Seq<char>, Seq<char>>, keys: Seq<Seq<char>>)
    requires
        forall|j: int|
            0 <= j < keys.len() ==> !env.contains_key(#[trigger] keys[j]) || trimmed(
                env[keys[j]],
            ).len() == 0,
    ensures
        first_set(env, keys).len() == 0,
    decreases keys.len(),
{
    if keys.len() > 0 {
        let rest = keys.drop_first();
        assert forall|j: int| 0 <= j < rest.len() implies !env.contains_key(#[trigger] rest[j])
            || trimmed(env[rest[j]]).len() == 0 by {
            assert(rest[j] == keys[j + 1]);
        }
        assert(!env.contains_key(keys[0]) || trimmed(env[keys[0]]).len() == 0);
        unset_settings_are_empty(env, rest);
    }
}

/// A variable, or nothing where it is blank.
pub open spec fn set_to(env: Map<Seq<char>, Seq<char>>, key: Seq<char>) -> Seq<char> {
    if env.contains_key(key) {
        trimmed(env[key])
    } else {
        Seq::empty()
    }
}

proof fn one_variable(env: Map<Seq<char>, Seq<char>>, key: Seq<char>)
    ensures
        first_set(env, seq![key]) == set_to(env, key),
{
    let keys = seq![key];
    if set_to(env, key).len() > 0 {
        the_first_variable_counts(env, keys, 0);
    } else {
        unset_settings_are_empty(env, keys);
        assert(first_set(env, keys) =~= set_to(env, key));
    }
}

/// Each setting comes from its own variables. The address comes from
/// `POSIX_LISTEN_ADDR` or else `YR_SERVER_ADDRESS`; the instance from
/// `INSTANCE_ID`, or else from the runtime's identifier; the level is `INFO`
/// where none is set.
pub proof fn settings_come_from_their_variables(env: Map<Seq<char>, Seq<char>>)
    ensures
        ({
            let a = args_of(env);
            &&& a.runtime_id == set_to(env, "YR_RUNTIME_ID"@)
            &&& a.job_id == set_to(env, "YR_JOB_ID"@)
            &&& set_to(env, "POSIX_LISTEN_ADDR"@).len() > 0 ==> a.rt_server == set_to(
                env,
                "POSIX_LISTEN_ADDR"@,
            )
            &&& set_to(env, "POSIX_LISTEN_ADDR"@).len() == 0 ==> a.rt_server == set_to(
                env,
                "YR_SERVER_ADDRESS"@,
            )
            &&& set_to(env, "INSTANCE_ID"@).len() > 0 ==> a.instance_id == set_to(
                env,
                "INSTANCE_ID"@,
            )
            &&& set_to(env, "INSTANCE_ID"@).len() == 0 ==> a.instance_id == instance_of(
                set_to(env, "YR_RUNTIME_ID"@),
            )
            &&& set_to(env, "YR_LOG_LEVEL"@).len() > 0 ==> a.log_level == set_to(
                env,
                "YR_LOG_LEVEL"@,
            )
            &&& set_to(env, "YR_LOG_LEVEL"@).len() == 0 ==> a.log_level == "INFO"@
            &&& set_to(env, "YR_FUNCTION_LIB_PATH"@).len() > 0 ==> a.deploy_dir == set_to(
                env,
                "YR_FUNCTION_LIB_PATH"@,
            )
            &&& set_to(env, "YR_FUNCTION_LIB_PATH"@).len() == 0 && set_to(
                env,
                "FUNCTION_LIB_PATH"@,
            ).len() > 0 ==> a.deploy_dir == set_to(env, "FUNCTION_LIB_PATH"@)
            &&& set_to(env, "YR_FUNCTION_LIB_PATH"@).len() == 0 && set_to(
                env,
                "FUNCTION_LIB_PATH"@,
            ).len() == 0 ==> a.deploy_dir == set_to(env, "YR_RT_WORKING_DIR"@)
        }),
{
    one_variable(env, "YR_RUNTIME_ID"@);
    one_variable(env, "YR_JOB_ID"@);
    one_variable(env, "INSTANCE_ID"@);
    one_variable(env, "YR_LOG_LEVEL"@);
    one_variable(env, "YR_SERVER_ADDRESS"@);
    one_variable(env, "YR_RT_WORKING_DIR"@);
    let server = seq!["POSIX_LISTEN_ADDR"@, "YR_SERVER_ADDRESS"@];
    assert(server.drop_first() =~= seq!["YR_SERVER_ADDRESS"@]);
    let lib = seq!["YR_FUNCTION_LIB_PATH"@, "FUNCTION_LIB_PATH"@, "YR_RT_WORKING_DIR"@];
    assert(lib.drop_first() =~= seq!["FUNCTION_LIB_PATH"@, "YR_RT_WORKING_DIR"@]);
    assert(lib.drop_first().drop_first() =~= seq!["YR_RT_WORKING_DIR"@]);
    assert(first_set(env, server) == (if set_to(env, "POSIX_LISTEN_ADDR"@).len() > 0 {
        set_to(env, "POSIX_LISTEN_ADDR"@)
    } else {
        first_set(env, server.drop_first())
    }));
    assert(first_set(env, lib) == (if set_to(env, "YR_FUNCTION_LIB_PATH"@).len() > 0 {
        set_to(env, "YR_FUNCTION_LIB_PATH"@)
    } else {
        first_set(env, lib.drop_first())
    }));
    assert(first_set(env, lib.drop_first()) == (if set_to(env, "FUNCTION_LIB_PATH"@).len() > 0 {
        set_to(env, "FUNCTION_LIB_PATH"@)
    } else {
        first_set(env, lib.drop_first().drop_first())
    }));
}

/// The instance of a runtime is its identifier without `runtime-` in front and
/// without what follows the last hyphen.
pub proof fn instances_are_named_by_runtimes(instance: Seq<char>, suffix: Seq<char>)
    requires
        !suffix.contains('-'),
    ensures
        instance_of("runtime-"@ + instance.push('-') + suffix) == instance,
        !begins(instance.push('-') + suffix, "runtime-"@) ==> instance_of(
            instance.push('-') + suffix,
        ) == instance,
        !begins(suffix, "runtime-"@) ==> instance_of(suffix) == suffix,
{
    let s = instance.push('-') + suffix;
    let long = "runtime-"@ + instance.push('-') + suffix;
    assert(long =~= "runtime-"@ + s);
    assert(long.take("runtime-"@.len() as int) =~= "runtime-"@);
    assert(long.skip("runtime-"@.len() as int) =~= s);
    last_dash(s, instance.len() + 1, s.len(), suffix);
    assert(s.take(instance.len() as int) =~= instance);
    no_dash(suffix, suffix.len());
}

proof fn last_dash(s: Seq<char>, at: nat, n: nat, suffix: Seq<char>)
    requires
        1 <= at <= n <= s.len(),
        s[at - 1] == '-',
        !suffix.contains('-'),
        s.len() == at + suffix.len(),
        forall|i: int| at <= i < s.len() ==> s[i] == suffix[i - at],
    ensures
        last_index(s, '-', n) == at,
    decreases n,
{
    if n > at {
        assert(s[n - 1] == suffix[n - 1 - at]);
        assert(suffix.contains(suffix[n - 1 - at]));
        last_dash(s, at, (n - 1) as nat, suffix);
    }
}

proof fn no_dash(s: Seq<char>, n: nat)
    requires
        n <= s.len(),
        !s.contains('-'),
    ensures
        last_index(s, '-', n) == 0,
    decreases n,
{
    if n > 0 {
        assert(s.contains(s[n - 1]));
        no_dash(s, (n - 1) as nat);
    }
}

/// A port is a numeral from 1 to 65535, and nothing else is a port.
pub proof fn ports_are_numerals(name: Seq<char>, raw: Seq<char>, n: nat)
    ensures
        1 <= n <= 65535 ==> port_of(name, decimal(n)) == Ok::<u16, Seq<char>>(n as u16),
        n == 0 || 65535 < n ==> port_of(name, decimal(n)) is Err,
        unsigned_numeral(raw, 65535) is None ==> port_of(name, raw) is Err,
{
    decimal_reads_back(n);
    unsigned_numerals_are_digits(decimal(n), 65535);
}

/// The tunnel has the two ports that are set; without the second one it has the
/// next after the first, and without the first there is no tunnel.
pub proof fn tunnels_have_two_ports(ws: nat, http: nat, raw: Option<Seq<char>>)
    requires
        1 <= ws <= 65535,
        1 <= http <= 65535,
    ensures
        tunnel_ports(None, raw) == Ok::<Option<(u16, u16)>, Seq<char>>(None),
        tunnel_ports(Some(decimal(ws)), Some(decimal(http))) == Ok::<
            Option<(u16, u16)>,
            Seq<char>,
        >(Some((ws as u16, http as u16))),
        ws < 65535 ==> tunnel_ports(Some(decimal(ws)), None) == Ok::<
            Option<(u16, u16)>,
            Seq<char>,
        >(Some((ws as u16, (ws + 1) as u16))),
        ws == 65535 ==> tunnel_ports(Some(decimal(ws)), None) is Err,
{
    ports_are_numerals("RRT_TUNNEL_WS_PORT"@, Seq::empty(), ws);
    ports_are_numerals("RRT_TUNNEL_HTTP_PORT"@, Seq::empty(), http);
}

/// Another instance may be taken on where the variable says `true` or `1`, and
/// not where it says `false`, `0` or nothing; any other word is an error.
pub proof fn rebinding_is_asked_for(env: Map<Seq<char>, Seq<char>>)
    ensures
        ({
            let key = "YR_ALLOW_LOGICAL_INSTANCE_ID_REBIND"@;
            let word = lower(trimmed(env[key]));
            &&& !env.contains_key(key) ==> rebind_allowed(env) == Ok::<bool, Seq<char>>(false)
            &&& env.contains_key(key) && (word == "true"@ || word == "1"@) ==> rebind_allowed(env)
                == Ok::<bool, Seq<char>>(true)
            &&& env.contains_key(key) && (word == "false"@ || word == "0"@ || word.len() == 0)
                ==> rebind_allowed(env) == Ok::<bool, Seq<char>>(false)
            &&& env.contains_key(key) && word != "true"@ && word != "1"@ && word != "false"@
                && word != "0"@ && word.len() > 0 ==> rebind_allowed(env) is Err
        }),
{
    reveal_strlit("true");
    reveal_strlit("1");
    reveal_strlit("false");
    reveal_strlit("0");
    reveal_strlit("");
    assert("true"@.len() == 4);
    assert("1"@[0] == '1');
    assert("1"@.len() == 1);
    assert("false"@.len() == 5);
    assert("0"@[0] == '0');
    assert("0"@.len() == 1);
    assert(""@.len() == 0);
    let word = lower(trimmed(env["YR_ALLOW_LOGICAL_INSTANCE_ID_REBIND"@]));
    assert(word.len() == 0 ==> word =~= ""@);
}

/// A reconnect takes the address, the runtime and the instance from the new
/// environment, all of which have to be set, and the rest stays. Another
/// instance has to be allowed.
pub proof fn reconnects_take_the_environment(source: ArgsModel, env: Map<Seq<char>, Seq<char>>)
    ensures
        ({
            let r = reconnect_args(source, env);
            let server = first_set(env, seq!["POSIX_LISTEN_ADDR"@, "YR_SERVER_ADDRESS"@]);
            let runtime = set_to(env, "YR_RUNTIME_ID"@);
            let instance = set_to(env, "INSTANCE_ID"@);
            let complete = server.len() > 0 && runtime.len() > 0 && instance.len() > 0;
            let allowed = instance == source.instance_id || rebind_allowed(env) == Ok::<
                bool,
                Seq<char>,
            >(true);
            &&& (r is Ok) == (complete && allowed)
            &&& r is Ok ==> r->Ok_0.rt_server == server && r->Ok_0.runtime_id == runtime
                && r->Ok_0.instance_id == instance && r->Ok_0.job_id == source.job_id
                && r->Ok_0.deploy_dir == source.deploy_dir && r->Ok_0.log_level == source.log_level
        }),
{
}

// ───────────────────────── the environment ─────────────────────────

/// Variables whose names begin with `YR_` are not handed on, and all others are.
pub proof fn own_variables_are_kept_back(
    all: Seq<(Seq<u8>, Seq<u8>)>,
    name: Seq<u8>,
    value: Seq<u8>,
)
    requires
        all.contains((name, value)),
    ensures
        all.filter(inherited()).contains((name, value)) == !(name.len() >= 3 && name[0] == 89
            && name[1] == 82 && name[2] == 95),
        super::lists::some_of(all.filter(inherited()), all),
{
    super::lists::filtered_items(all, inherited());
}

/// Quotes around a value are taken off, where both ends have the same.
pub proof fn quotes_are_taken_off(s: Seq<char>)
    ensures
        unquoted(seq!['"'] + s + seq!['"']) == s,
        unquoted(seq!['\''] + s + seq!['\'']) == s,
        s.len() < 2 ==> unquoted(s) == s,
        s.len() > 0 && s[0] != '"' && s[0] != '\'' ==> unquoted(s) == s,
        s.len() > 0 && s[0] != s[s.len() - 1] ==> unquoted(s) == s,
{
    let a = seq!['"'] + s + seq!['"'];
    let b = seq!['\''] + s + seq!['\''];
    assert(a[0] == '"' && a.last() == '"');
    assert(b[0] == '\'' && b.last() == '\'');
    assert(a.subrange(1, a.len() - 1) =~= s);
    assert(b.subrange(1, b.len() - 1) =~= s);
}

/// An entry of an environment file sets a variable: what stands before its first
/// equals sign, to what stands after it. In a file of lines, white space and
/// quotes around the value are taken off. Comments and entries without a name
/// set nothing.
pub proof fn entries_set_variables(line: Seq<char>, k: int)
    requires
        trimmed(line) == line,
        line.len() > 0,
        line[0] != '#',
        0 <= k < line.len(),
        line[k] == '=',
        !line.take(k).contains('='),
    ensures
        trimmed(line.take(k)).len() > 0 ==> entry_variable(line, false) == Some(
            (trimmed(line.take(k)), line.skip(k + 1)),
        ),
        trimmed(line.take(k)).len() > 0 ==> entry_variable(line, true) == Some(
            (trimmed(line.take(k)), unquoted(trimmed(line.skip(k + 1)))),
        ),
        trimmed(line.take(k)).len() == 0 ==> entry_variable(line, true) is None && entry_variable(
            line,
            false,
        ) is None,
{
    reveal_strlit("#");
    assert(line.take(1)[0] == line[0]);
    assert("#"@[0] == '#');
    assert forall|j: int| 0 <= j < k implies line[j] != '=' by {
        assert(line.take(k)[j] == line[j]);
    }
    crate::text::lemma_first_index(line, '=', k);
}

/// A comment, an empty line, and a line without an equals sign set nothing.
pub proof fn comments_set_nothing(text: Seq<char>, lines: bool)
    ensures
        trimmed(text).len() == 0 ==> entry_variable(text, lines) is None,
        trimmed(text).len() > 0 && trimmed(text)[0] == '#' ==> entry_variable(text, lines) is None,
        !trimmed(text).contains('=') ==> entry_variable(text, lines) is None,
{
    reveal_strlit("#");
    let line = trimmed(text);
    if line.len() > 0 && line[0] == '#' {
        assert(line.take(1) =~= "#"@);
    }
    super::texts::split_pairs_join(line, '=');
    if !line.contains('=') && crate::text::split_pair(line, '=') is Some {
        let (a, b) = crate::text::split_pair(line, '=')->0;
        assert((a.push('=') + b)[a.len() as int] == '=');
        assert(line.contains(line[a.len() as int]));
    }
}

/// The entries of an environment file are set one after the other; an entry that
/// is no text stops that, and is told by its number.
pub proof fn files_set_variables(parts: Seq<Seq<u8>>, lines: bool, n: nat)
    requires
        n < parts.len(),
        entry_variables(parts, lines, n) is Ok,
    ensures
        ({
            let before = entry_variables(parts, lines, n)->Ok_0;
            let after = entry_variables(parts, lines, n + 1);
            let part = parts[n as int];
            &&& !valid_utf8(part) ==> after == Err::<Map<Seq<char>, Seq<char>>, nat>(n + 1)
            &&& valid_utf8(part) && entry_variable(decode_utf8(part), lines) is None ==> after
                == Ok::<Map<Seq<char>, Seq<char>>, nat>(before)
            &&& valid_utf8(part) && entry_variable(decode_utf8(part), lines) is Some ==> {
                let (key, value) = entry_variable(decode_utf8(part), lines)->0;
                after == Ok::<Map<Seq<char>, Seq<char>>, nat>(before.insert(key, value))
            }
        }),
{
}

/// A file with a zero byte has its entries between zero bytes; any other has
/// them on lines.
pub proof fn files_have_entries(content: Seq<u8>)
    ensures
        content.contains(0u8) ==> file_entries(content) == byte_parts(content, 0),
        !content.contains(0u8) ==> file_entries(content) == byte_parts(content, 10),
        content.contains(0u8) ==> file_variables(content) == entry_variables(
            byte_parts(content, 0),
            false,
            byte_parts(content, 0).len(),
        ),
        !content.contains(0u8) ==> file_variables(content) == entry_variables(
            byte_parts(content, 10),
            true,
            byte_parts(content, 10).len(),
        ),
{
}

/// The parts of bytes, with a byte between them.
pub open spec fn bytes_joined(parts: Seq<Seq<u8>>, c: u8) -> Seq<u8>
    decreases parts.len(),
{
    if parts.len() == 0 {
        Seq::empty()
    } else if parts.len() == 1 {
        parts[0]
    } else {
        parts[0].push(c) + bytes_joined(parts.drop_first(), c)
    }
}

/// The parts of bytes join to them, and no part has the byte between them.
pub proof fn byte_parts_join(s: Seq<u8>, c: u8)
    ensures
        byte_parts(s, c).len() > 0,
        bytes_joined(byte_parts(s, c), c) == s,
        forall|k: int| 0 <= k < byte_parts(s, c).len() ==> !(#[trigger] byte_parts(s, c)[k]).contains(c),
    decreases s.len(),
{
    first_byte_is(s, c);
    let i = first_byte(s, c) as int;
    let parts = byte_parts(s, c);
    if i < s.len() {
        let rest = byte_parts(s.skip(i + 1), c);
        byte_parts_join(s.skip(i + 1), c);
        assert(parts.drop_first() =~= rest);
        assert(parts[0] == s.take(i));
        assert(s =~= s.take(i).push(c) + s.skip(i + 1));
        assert forall|k: int| 0 <= k < parts.len() implies !(#[trigger] parts[k]).contains(c) by {
            if k > 0 {
                assert(parts[k] == rest[k - 1]);
            } else {
                assert forall|m: int| 0 <= m < i implies s.take(i)[m] != c by {
                    assert(s.take(i)[m] == s[m]);
                }
            }
        }
    }
}

proof fn first_byte_is(s: Seq<u8>, c: u8)
    ensures
        first_byte(s, c) <= s.len(),
        forall|j: int| 0 <= j < first_byte(s, c) ==> s[j] != c,
        first_byte(s, c) < s.len() ==> s[first_byte(s, c) as int] == c,
    decreases s.len(),
{
    if s.len() > 0 && s[0] != c {
        first_byte_is(s.drop_first(), c);
        assert forall|j: int| 0 <= j < first_byte(s, c) implies s[j] != c by {
            if j > 0 {
                assert(s.drop_first()[j - 1] == s[j]);
            }
        }
    }
}

// ───────────────────────── checkpoints ─────────────────────────

/// A handoff file tells by one word how a checkpoint went on.
pub proof fn outcomes_are_words(content: Seq<char>)
    ensures
        trimmed(content) == "resume"@ ==> outcome_of(content) == Some(CheckpointOutcome::Resume),
        trimmed(content) == "restore"@ ==> outcome_of(content) == Some(CheckpointOutcome::Restore),
        trimmed(content) == "error"@ ==> outcome_of(content) == Some(CheckpointOutcome::Error),
        trimmed(content) != "resume"@ && trimmed(content) != "restore"@ && trimmed(content)
            != "error"@ ==> outcome_of(content) is None,
{
    reveal_strlit("resume");
    reveal_strlit("restore");
    reveal_strlit("error");
    assert("resume"@.len() == 6);
    assert("restore"@.len() == 7);
    assert("error"@.len() == 5);
}

/// A path that is set goes before the usual one, which is taken only where it is
/// there.
pub proof fn set_paths_go_before(set: Seq<char>, usual: Seq<char>, there: bool)
    ensures
        set.len() > 0 ==> configured_or(Some(set), usual, there) == Some(set),
        set.len() == 0 && there ==> configured_or(Some(set), usual, there) == Some(usual),
        there ==> configured_or(None, usual, there) == Some(usual),
        !there ==> configured_or(None, usual, there) is None,
        set.len() == 0 && !there ==> configured_or(Some(set), usual, there) is None,
{
}

/// Work is told by where it comes from.
pub proof fn work_is_told_by_its_source()
    ensures
        ActivitySource::Checkpoint.name() == "checkpoint"@,
        ActivitySource::DirectHttp.name() == "direct-http"@,
        ActivitySource::RuntimeRpc.name() == "runtime-rpc"@,
        ActivitySource::Tunnel.name() == "tunnel"@,
{
}

/// A port that is none is told with the name of its setting and its text.
pub proof fn wrong_ports_are_told(name: Seq<char>, raw: Seq<char>)
    requires
        unsigned_numeral(raw, 65535) is None,
    ensures
        port_of(name, raw) == Err::<u16, Seq<char>>(
            "invalid "@ + name + " '"@ + raw + "': expected an integer between 1 and 65535"@,
        ),
{
}

} // verus!
