//! The process that an image starts with: its specification, its user, and
//! how its end is reported.
use crate::args::{quote, quoted};
use crate::codec::{dict, map_value, named_models};
use crate::json_text::{
    bool_text, field_models, json_bool, json_object, json_quote, json_string, write_object,
};
use crate::messages::ErrorCodes;
use crate::text::{
    chars_of, decimal, join, join3, opt_view, parse_unsigned, same, signed_decimal, split,
    split_all, split_once, split_pair, to_decimal, to_signed_decimal, unsigned_numeral, views,
};
use crate::value::{Datum, Model};
use vstd::prelude::*;

verus! {

/// The bytes of the error output that a report keeps.
pub const STDERR_TAIL_BYTES: usize = 65536;

/// The largest specification.
pub const MAX_CONFIG_BYTES: u64 = 1048576;

// ───────────────────────── specification ─────────────────────────

/// What an image starts with.
#[derive(Debug, PartialEq, Eq)]
pub struct ProcessSpec {
    pub version: u32,
    pub args: Vec<String>,
    pub cwd: String,
    pub user: String,
}

/// Whether some part of a path is `..`.
pub open spec fn has_parent(path: Seq<char>) -> bool {
    split_all(path, '/').contains(".."@)
}

/// Whether every part of a path is empty or a dot.
pub open spec fn names_nothing(path: Seq<char>) -> bool {
    forall|i: int|
        0 <= i < split_all(path, '/').len() ==> (#[trigger] split_all(path, '/')[i]).len() == 0
            || split_all(path, '/')[i] == "."@
}

/// Whether a path is absolute and does not go up. That of a specification may
/// not be the root.
pub open spec fn path_allowed(path: Seq<char>, label: Seq<char>) -> bool {
    &&& path.len() > 0 && path[0] == '/'
    &&& !(label == "image process config"@ && names_nothing(path))
    &&& !has_parent(path)
}

/// Refuses a path that is not absolute, or goes up.
pub fn validate_canonical_absolute_path(path: &str, label: &str) -> (r: Result<(), String>)
    ensures
        match r {
            Ok(()) => path_allowed(path@, label@),
            Err(e) => !path_allowed(path@, label@) && e@ == label@
                + " must be an absolute canonical path"@,
        },
{
    let chars = chars_of(path);
    let parts = split(path, '/');
    let ghost all = split_all(path@, '/');
    let mut up = false;
    let mut nothing = true;
    for i in 0..parts.len()
        invariant
            views(parts@) == all,
            up <==> exists|j: int| 0 <= j < i && all[j] == ".."@,
            nothing <==> forall|j: int|
                0 <= j < i ==> (#[trigger] all[j]).len() == 0 || all[j] == "."@,
    {
        assert(views(parts@)[i as int] == parts@[i as int]@);
        let part = parts[i].as_str();
        if same(part, "..") {
            up = true;
        }
        if !(part.is_empty() || same(part, ".")) {
            assert(!(all[i as int].len() == 0 || all[i as int] == "."@));
            nothing = false;
        }
    }
    assert(views(parts@).len() == parts@.len());
    let absolute = chars.len() > 0 && chars[0] == '/';
    if !absolute || (same(label, "image process config") && nothing) || up {
        return Err(join(label, " must be an absolute canonical path"));
    }
    Ok(())
}

/// Whether a text holds a NUL.
pub open spec fn has_nul(s: Seq<char>) -> bool {
    s.contains('\0')
}

fn contains_nul(s: &str) -> (r: bool)
    ensures
        r == has_nul(s@),
{
    let chars = chars_of(s);
    for i in 0..chars.len()
        invariant
            chars@ == s@,
            forall|j: int| 0 <= j < i ==> chars@[j] != '\0',
    {
        if chars[i] == '\0' {
            return true;
        }
    }
    false
}

/// Some argument holds a NUL.
pub open spec fn args_have_nul(args: Seq<Seq<char>>) -> bool {
    exists|i: int| 0 <= i < args.len() && has_nul(#[trigger] args[i])
}

/// What is wrong with a specification, if anything is.
pub open spec fn spec_error(spec: ProcessSpec) -> Option<Seq<char>> {
    let args = views(spec.args@);
    if spec.version != 1 {
        Some("unsupported image process config version "@ + decimal(spec.version as nat))
    } else if args.len() == 0 {
        Some("image has no startup command"@)
    } else if args[0].len() == 0 {
        Some("image process argv[0] is empty"@)
    } else if args_have_nul(args) {
        Some("image process argument contains NUL"@)
    } else if !path_allowed(spec.cwd@, "image working directory"@) {
        Some("image working directory must be an absolute canonical path"@)
    } else if has_nul(spec.user@) {
        Some("image user contains NUL"@)
    } else {
        None
    }
}

/// Checks a specification.
pub fn check_spec(spec: &ProcessSpec) -> (r: Result<(), String>)
    ensures
        match r {
            Ok(()) => spec_error(*spec) is None,
            Err(e) => spec_error(*spec) == Some(e@),
        },
{
    let ghost args = views(spec.args@);
    if spec.version != 1 {
        let n = to_decimal(spec.version as u64);
        return Err(join("unsupported image process config version ", n.as_str()));
    }
    if spec.args.len() == 0 {
        return Err("image has no startup command".to_owned());
    }
    if spec.args[0].as_str().is_empty() {
        return Err("image process argv[0] is empty".to_owned());
    }
    for i in 0..spec.args.len()
        invariant
            args == views(spec.args@),
            spec.version == 1,
            args.len() > 0,
            args[0].len() > 0,
            forall|j: int| 0 <= j < i ==> !has_nul(#[trigger] args[j]),
    {
        assert(args[i as int] == spec.args@[i as int]@);
        if contains_nul(spec.args[i].as_str()) {
            return Err("image process argument contains NUL".to_owned());
        }
    }
    if let Err(e) = validate_canonical_absolute_path(spec.cwd.as_str(), "image working directory") {
        proof {
            reveal_strlit("image working directory");
            reveal_strlit(" must be an absolute canonical path");
            reveal_strlit("image working directory must be an absolute canonical path");
            assert("image working directory"@ + " must be an absolute canonical path"@
                =~= "image working directory must be an absolute canonical path"@);
        }
        return Err(e);
    }
    if contains_nul(spec.user.as_str()) {
        return Err("image user contains NUL".to_owned());
    }
    Ok(())
}

/// Refuses a specification that is no regular file, or too large.
pub fn check_config_file(path: &str, regular: bool, size: u64) -> (r: Result<(), String>)
    ensures
        match r {
            Ok(()) => regular && size <= MAX_CONFIG_BYTES,
            Err(e) => (!regular || size > MAX_CONFIG_BYTES) && e@ == "image process config "@
                + path@ + " must be a regular file no larger than 1048576 bytes"@,
        },
{
    if !regular || size > MAX_CONFIG_BYTES {
        return Err(
            join3(
                "image process config ",
                path,
                " must be a regular file no larger than 1048576 bytes",
            ),
        );
    }
    Ok(())
}

// ───────────────────────── identity ─────────────────────────

/// Who a process runs as.
#[derive(Debug, PartialEq, Eq)]
pub struct Identity {
    pub uid: u32,
    pub gid: u32,
    /// The name, where the user was given by name.
    pub user_name: Option<String>,
}

/// The user and the group of `user` or `user:group`.
pub open spec fn user_parts(user: Seq<char>) -> (Seq<char>, Seq<char>) {
    match split_pair(user, ':') {
        Some((u, g)) => (u, g),
        None => (user, Seq::empty()),
    }
}

/// A number of 32 bits.
pub open spec fn numeric_id(s: Seq<char>) -> Option<u32> {
    match unsigned_numeral(s, u32::MAX as nat) {
        Some(n) => Some(n as u32),
        None => None,
    }
}

/// How a user is found.
#[derive(Debug, PartialEq, Eq)]
pub enum UserKey {
    Number(u32),
    Name(String),
}

/// What has to be looked up for `user` or `user:group`: the user by number or
/// by name, and the group.
pub fn lookups(user: &str) -> (r: (UserKey, String))
    ensures
        ({
            let (u, g) = user_parts(user@);
            &&& r.1@ == g
            &&& match numeric_id(u) {
                Some(n) => r.0 == UserKey::Number(n),
                None => r.0 matches UserKey::Name(name) && name@ == u,
            }
        }),
{
    let (name, group) = match split_once(user, ':') {
        Some(parts) => parts,
        None => {
            let none = String::new();
            assert(none@ =~= Seq::empty());
            (user.to_owned(), none)
        },
    };
    match parse_unsigned(name.as_str(), u32::MAX as u64) {
        Some(n) => (UserKey::Number(n as u32), group),
        None => (UserKey::Name(name), group),
    }
}

/// The model of an [`Identity`].
pub struct IdentityModel {
    pub uid: u32,
    pub gid: u32,
    pub user_name: Option<Seq<char>>,
}

impl View for Identity {
    type V = IdentityModel;

    open spec fn view(&self) -> IdentityModel {
        IdentityModel { uid: self.uid, gid: self.gid, user_name: opt_view(self.user_name) }
    }
}

/// The user, by number with its group where that is known, or by name.
/// `found` is what the user database says of it.
pub open spec fn user_of(user: Seq<char>, found: Option<(u32, u32)>) -> Result<
    (u32, u32, Option<Seq<char>>),
    Seq<char>,
> {
    match numeric_id(user) {
        Some(uid) => Ok(
            (
                uid,
                match found {
                    Some((_, gid)) => gid,
                    None => 0,
                },
                None,
            ),
        ),
        None => if has_nul(user) {
            Err("image user contains NUL"@)
        } else {
            match found {
                Some((uid, gid)) => Ok((uid, gid, Some(user))),
                None => Err("image user "@ + quoted(user) + " was not found"@),
            }
        },
    }
}

/// The group, by number or by name. `found` is what the group database says of
/// it.
pub open spec fn group_of(group: Seq<char>, found: Option<u32>) -> Result<u32, Seq<char>> {
    match numeric_id(group) {
        Some(gid) => Ok(gid),
        None => if has_nul(group) {
            Err("image group contains NUL"@)
        } else {
            match found {
                Some(gid) => Ok(gid),
                None => Err("image group "@ + quoted(group) + " was not found"@),
            }
        },
    }
}

/// Who a process runs as: nobody in particular, or a user with its own group
/// or a given one.
pub open spec fn identity_of(
    user: Seq<char>,
    found_user: Option<(u32, u32)>,
    found_group: Option<u32>,
) -> Result<Option<IdentityModel>, Seq<char>> {
    if user.len() == 0 {
        Ok(None)
    } else {
        let (u, g) = user_parts(user);
        if u.len() == 0 {
            Err("image user must not have an empty user component"@)
        } else {
            match user_of(u, found_user) {
                Err(e) => Err(e),
                Ok((uid, own_gid, user_name)) => if g.len() == 0 {
                    Ok(Some(IdentityModel { uid, gid: own_gid, user_name }))
                } else {
                    match group_of(g, found_group) {
                        Err(e) => Err(e),
                        Ok(gid) => Ok(Some(IdentityModel { uid, gid, user_name })),
                    }
                },
            }
        }
    }
}

/// Who a process runs as, given what the databases say of its user and group.
pub fn resolve_identity(
    user: &str,
    found_user: Option<(u32, u32)>,
    found_group: Option<u32>,
) -> (r: Result<Option<Identity>, String>)
    ensures
        match r {
            Ok(None) => identity_of(user@, found_user, found_group) == Ok::<
                Option<IdentityModel>,
                Seq<char>,
            >(None),
            Ok(Some(id)) => identity_of(user@, found_user, found_group) == Ok::<
                Option<IdentityModel>,
                Seq<char>,
            >(Some(id@)),
            Err(e) => identity_of(user@, found_user, found_group) == Err::<
                Option<IdentityModel>,
                Seq<char>,
            >(e@),
        },
{
    if user.is_empty() {
        return Ok(None);
    }
    let (u, g) = match split_once(user, ':') {
        Some((u, g)) => (u, g),
        None => {
            let none = String::new();
            assert(none@ =~= Seq::empty());
            (user.to_owned(), none)
        },
    };
    if u.as_str().is_empty() {
        return Err("image user must not have an empty user component".to_owned());
    }
    let (uid, own_gid, user_name) = match resolve_user(u.as_str(), found_user) {
        Ok(found) => found,
        Err(e) => {
            return Err(e);
        },
    };
    if g.as_str().is_empty() {
        return Ok(Some(Identity { uid, gid: own_gid, user_name }));
    }
    match resolve_group(g.as_str(), found_group) {
        Ok(gid) => Ok(Some(Identity { uid, gid, user_name })),
        Err(e) => Err(e),
    }
}

/// The user of a process.
pub fn resolve_user(user: &str, found: Option<(u32, u32)>) -> (r: Result<
    (u32, u32, Option<String>),
    String,
>)
    ensures
        match r {
            Ok((uid, gid, name)) => user_of(user@, found) == Ok::<
                (u32, u32, Option<Seq<char>>),
                Seq<char>,
            >((uid, gid, opt_view(name))),
            Err(e) => user_of(user@, found) == Err::<(u32, u32, Option<Seq<char>>), Seq<char>>(e@),
        },
{
    if let Some(uid) = parse_unsigned(user, u32::MAX as u64) {
        let gid: u32 = match found {
            Some((_, gid)) => gid,
            None => 0,
        };
        return Ok((uid as u32, gid, None));
    }
    if contains_nul(user) {
        return Err("image user contains NUL".to_owned());
    }
    match found {
        Some((uid, gid)) => Ok((uid, gid, Some(user.to_owned()))),
        None => {
            let shown = quote(user);
            Err(join3("image user ", shown.as_str(), " was not found"))
        },
    }
}

/// The group of a process.
pub fn resolve_group(group: &str, found: Option<u32>) -> (r: Result<u32, String>)
    ensures
        match r {
            Ok(gid) => group_of(group@, found) == Ok::<u32, Seq<char>>(gid),
            Err(e) => group_of(group@, found) == Err::<u32, Seq<char>>(e@),
        },
{
    if let Some(gid) = parse_unsigned(group, u32::MAX as u64) {
        return Ok(gid as u32);
    }
    if contains_nul(group) {
        return Err("image group contains NUL".to_owned());
    }
    match found {
        Some(gid) => Ok(gid),
        None => {
            let shown = quote(group);
            Err(join3("image group ", shown.as_str(), " was not found"))
        },
    }
}

// ───────────────────────── the end of the process ─────────────────────────

/// How the process ended.
#[derive(Debug, PartialEq, Eq)]
pub struct ExitInfo {
    pub kind: &'static str,
    pub pid: u32,
    pub status_kind: &'static str,
    pub exit_code: Option<i32>,
    pub signal: Option<i32>,
    pub signal_name: Option<&'static str>,
    pub shell_exit_code: i32,
    pub core_dumped: bool,
    pub started_at: u64,
    pub exited_at: u64,
    pub runtime_ms: u64,
    pub stderr_tail: String,
    pub message: String,
}

/// The model of an [`ExitInfo`].
#[verifier::ext_equal]
pub struct ExitModel {
    pub kind: Seq<char>,
    pub pid: u32,
    pub status_kind: Seq<char>,
    pub exit_code: Option<i32>,
    pub signal: Option<i32>,
    pub signal_name: Option<Seq<char>>,
    pub shell_exit_code: i32,
    pub core_dumped: bool,
    pub started_at: u64,
    pub exited_at: u64,
    pub runtime_ms: u64,
    pub stderr_tail: Seq<char>,
    pub message: Seq<char>,
}

impl View for ExitInfo {
    type V = ExitModel;

    open spec fn view(&self) -> ExitModel {
        ExitModel {
            kind: self.kind@,
            pid: self.pid,
            status_kind: self.status_kind@,
            exit_code: self.exit_code,
            signal: self.signal,
            signal_name: match self.signal_name {
                Some(s) => Some(s@),
                None => None,
            },
            shell_exit_code: self.shell_exit_code,
            core_dumped: self.core_dumped,
            started_at: self.started_at,
            exited_at: self.exited_at,
            runtime_ms: self.runtime_ms,
            stderr_tail: self.stderr_tail@,
            message: self.message@,
        }
    }
}

/// The names of the signals that commonly end a process.
pub open spec fn signal_text(signal: i32) -> Option<Seq<char>> {
    if signal == 1 {
        Some("SIGHUP"@)
    } else if signal == 2 {
        Some("SIGINT"@)
    } else if signal == 3 {
        Some("SIGQUIT"@)
    } else if signal == 4 {
        Some("SIGILL"@)
    } else if signal == 6 {
        Some("SIGABRT"@)
    } else if signal == 8 {
        Some("SIGFPE"@)
    } else if signal == 9 {
        Some("SIGKILL"@)
    } else if signal == 11 {
        Some("SIGSEGV"@)
    } else if signal == 13 {
        Some("SIGPIPE"@)
    } else if signal == 14 {
        Some("SIGALRM"@)
    } else if signal == 15 {
        Some("SIGTERM"@)
    } else {
        None
    }
}

/// The name of a signal.
pub fn signal_name(signal: i32) -> (r: Option<&'static str>)
    ensures
        crate::text::opt_str_view(r) == signal_text(signal),
{
    match signal {
        1 => Some("SIGHUP"),
        2 => Some("SIGINT"),
        3 => Some("SIGQUIT"),
        4 => Some("SIGILL"),
        6 => Some("SIGABRT"),
        8 => Some("SIGFPE"),
        9 => Some("SIGKILL"),
        11 => Some("SIGSEGV"),
        13 => Some("SIGPIPE"),
        14 => Some("SIGALRM"),
        15 => Some("SIGTERM"),
        _ => None,
    }
}

/// What is said of the end of the process.
pub open spec fn exit_message(code: Option<i32>, signal: Option<i32>) -> Seq<char> {
    match code {
        Some(c) => "entrypoint exited with code "@ + signed_decimal(c as int),
        None => match signal {
            Some(s) => match signal_text(s) {
                Some(name) => "entrypoint exited after signal "@ + name + " ("@ + signed_decimal(
                    s as int,
                ) + ")"@,
                None => "entrypoint exited after signal "@ + signed_decimal(s as int),
            },
            None => "entrypoint exited without a terminal status"@,
        },
    }
}

/// When and how a process ended.
#[derive(Debug, Clone, Copy, PartialEq, Eq)]
pub struct Ending {
    pub code: Option<i32>,
    pub signal: Option<i32>,
    pub core_dumped: bool,
    pub started_at: u64,
    pub exited_at: u64,
    pub runtime_ms: u64,
}

/// The report of an end. A shell would say 128 and the number of the signal.
pub open spec fn exit_report(pid: u32, end: Ending, stderr_tail: Seq<char>) -> ExitModel {
    ExitModel {
        kind: "entrypoint_exited"@,
        pid,
        status_kind: if end.code is Some {
            "exited"@
        } else {
            "signaled"@
        },
        exit_code: end.code,
        signal: end.signal,
        signal_name: match end.signal {
            Some(s) => signal_text(s),
            None => None,
        },
        shell_exit_code: match end.code {
            Some(c) => c,
            None => match end.signal {
                Some(s) => (128 + s) as i32,
                None => -1i32,
            },
        },
        core_dumped: end.core_dumped,
        started_at: end.started_at,
        exited_at: end.exited_at,
        runtime_ms: end.runtime_ms,
        stderr_tail,
        message: exit_message(end.code, end.signal),
    }
}

/// Makes the report of an end.
pub fn exit_info(pid: u32, end: Ending, stderr_tail: String) -> (r: ExitInfo)
    requires
        end.signal matches Some(s) ==> s <= i32::MAX - 128,
    ensures
        r@ == exit_report(pid, end, stderr_tail@),
{
    let name = match end.signal {
        Some(s) => signal_name(s),
        None => None,
    };
    let message = match end.code {
        Some(c) => {
            let n = to_signed_decimal(c as i64);
            join("entrypoint exited with code ", n.as_str())
        },
        None => match end.signal {
            Some(s) => {
                let n = to_signed_decimal(s as i64);
                match name {
                    Some(text) => {
                        let head = join3("entrypoint exited after signal ", text, " (");
                        join3(head.as_str(), n.as_str(), ")")
                    },
                    None => join("entrypoint exited after signal ", n.as_str()),
                }
            },
            None => "entrypoint exited without a terminal status".to_owned(),
        },
    };
    let shell_exit_code: i32 = match end.code {
        Some(c) => c,
        None => match end.signal {
            Some(s) => 128 + s,
            None => -1,
        },
    };
    let status_kind = if end.code.is_some() {
        "exited"
    } else {
        "signaled"
    };
    ExitInfo {
        kind: "entrypoint_exited",
        pid,
        status_kind,
        exit_code: end.code,
        signal: end.signal,
        signal_name: name,
        shell_exit_code,
        core_dumped: end.core_dumped,
        started_at: end.started_at,
        exited_at: end.exited_at,
        runtime_ms: end.runtime_ms,
        stderr_tail,
        message,
    }
}

/// The report where the end could not be found out.
pub fn wait_failed_info(
    pid: u32,
    started_at: u64,
    exited_at: u64,
    runtime_ms: u64,
    stderr_tail: String,
    error: &str,
) -> (r: ExitInfo)
    ensures
        r@ == (ExitModel {
            kind: "entrypoint_exited"@,
            pid,
            status_kind: "wait_failed"@,
            exit_code: None,
            signal: None,
            signal_name: None,
            shell_exit_code: -1i32,
            core_dumped: false,
            started_at,
            exited_at,
            runtime_ms,
            stderr_tail: stderr_tail@,
            message: "failed to wait for image entrypoint: "@ + error@,
        }),
{
    ExitInfo {
        kind: "entrypoint_exited",
        pid,
        status_kind: "wait_failed",
        exit_code: None,
        signal: None,
        signal_name: None,
        shell_exit_code: -1,
        core_dumped: false,
        started_at,
        exited_at,
        runtime_ms,
        stderr_tail,
        message: join("failed to wait for image entrypoint: ", error),
    }
}

/// The last `max` bytes.
pub open spec fn last_bytes(s: Seq<u8>, max: nat) -> Seq<u8> {
    if s.len() > max {
        s.skip(s.len() - max)
    } else {
        s
    }
}

/// Adds to the end of the error output, of which only the last part is kept.
pub fn push_tail(tail: &mut Vec<u8>, more: &[u8])
    ensures
        final(tail)@ == last_bytes(old(tail)@ + more@, STDERR_TAIL_BYTES as nat),
{
    let mut added = crate::bytes::copy_all(more);
    tail.append(&mut added);
    if tail.len() > STDERR_TAIL_BYTES {
        let drop_count: usize = tail.len() - STDERR_TAIL_BYTES;
        let ghost all = tail@;
        let kept = crate::bytes::copy_range(tail.as_slice(), drop_count, tail.len());
        assert(kept@ =~= all.skip(all.len() - STDERR_TAIL_BYTES));
        *tail = kept;
    }
}

// ───────────────────────── reports ─────────────────────────

/// An optional integer in a reply.
pub open spec fn opt_int_model(n: Option<i32>) -> Model {
    match n {
        Some(i) => Model::Integer(i as int),
        None => Model::Nil,
    }
}

fn opt_int_datum(n: Option<i32>) -> (r: Datum)
    ensures
        r@ == opt_int_model(n),
{
    match n {
        Some(i) => Datum::integer(i as i64),
        None => Datum::Nil,
    }
}

/// An optional text in a reply.
pub open spec fn opt_text_model(s: Option<Seq<char>>) -> Model {
    match s {
        Some(t) => Model::Text(t),
        None => Model::Nil,
    }
}

/// The fields of the report of an end.
pub open spec fn exit_fields(info: ExitModel) -> Seq<(Seq<char>, Model)> {
    seq![
        ("status"@, Model::Text("exited"@)),
        ("type"@, Model::Text(info.kind)),
        ("pid"@, Model::Integer(info.pid as int)),
        ("status_kind"@, Model::Text(info.status_kind)),
        ("exit_code"@, opt_int_model(info.exit_code)),
        ("signal"@, opt_int_model(info.signal)),
        ("signal_name"@, opt_text_model(info.signal_name)),
        ("shell_exit_code"@, Model::Integer(info.shell_exit_code as int)),
        ("core_dumped"@, Model::Boolean(info.core_dumped)),
        ("started_at"@, Model::Integer(info.started_at as i64 as int)),
        ("exited_at"@, Model::Integer(info.exited_at as i64 as int)),
        ("runtime_ms"@, Model::Integer(info.runtime_ms as i64 as int)),
        ("stderr_tail"@, Model::Text(info.stderr_tail)),
        ("message"@, Model::Text(info.message)),
    ]
}

fn exit_pairs(info: &ExitInfo) -> (r: Vec<(&'static str, Datum)>)
    ensures
        named_models(r@) == exit_fields(info@),
{
    let name = match info.signal_name {
        Some(s) => Datum::text(s),
        None => Datum::Nil,
    };
    let mut out: Vec<(&'static str, Datum)> = Vec::new();
    out.push(("status", Datum::text("exited")));
    out.push(("type", Datum::text(info.kind)));
    out.push(("pid", Datum::integer(info.pid as i64)));
    out.push(("status_kind", Datum::text(info.status_kind)));
    out.push(("exit_code", opt_int_datum(info.exit_code)));
    out.push(("signal", opt_int_datum(info.signal)));
    out.push(("signal_name", name));
    out.push(("shell_exit_code", Datum::integer(info.shell_exit_code as i64)));
    out.push(("core_dumped", Datum::Boolean(info.core_dumped)));
    out.push(("started_at", Datum::integer(info.started_at as i64)));
    out.push(("exited_at", Datum::integer(info.exited_at as i64)));
    out.push(("runtime_ms", Datum::integer(info.runtime_ms as i64)));
    out.push(("stderr_tail", Datum::text(info.stderr_tail.as_str())));
    out.push(("message", Datum::text(info.message.as_str())));
    assert(name@ == opt_text_model(info@.signal_name));
    assert(named_models(out@) =~= exit_fields(info@));
    out
}

/// Makes the report of an end as a value.
pub fn exit_value(info: &ExitInfo) -> (r: Datum)
    ensures
        r@ == dict(exit_fields(info@)),
{
    map_value(exit_pairs(info))
}

/// An optional integer in JSON.
pub open spec fn opt_int_text(n: Option<i32>) -> Seq<char> {
    match n {
        Some(i) => signed_decimal(i as int),
        None => "null"@,
    }
}

fn opt_int_string(n: Option<i32>) -> (r: String)
    ensures
        r@ == opt_int_text(n),
{
    match n {
        Some(i) => to_signed_decimal(i as i64),
        None => "null".to_owned(),
    }
}

/// An optional text in JSON.
pub open spec fn opt_json_string(s: Option<Seq<char>>) -> Seq<char> {
    match s {
        Some(t) => json_string(t),
        None => "null"@,
    }
}

/// The report of an end in JSON.
pub open spec fn exit_json_text(info: ExitModel) -> Seq<char> {
    json_object(
        seq![
            ("type"@, json_string(info.kind)),
            ("pid"@, decimal(info.pid as nat)),
            ("status_kind"@, json_string(info.status_kind)),
            ("exit_code"@, opt_int_text(info.exit_code)),
            ("signal"@, opt_int_text(info.signal)),
            ("signal_name"@, opt_json_string(info.signal_name)),
            ("shell_exit_code"@, signed_decimal(info.shell_exit_code as int)),
            ("core_dumped"@, bool_text(info.core_dumped)),
            ("started_at"@, decimal(info.started_at as nat)),
            ("exited_at"@, decimal(info.exited_at as nat)),
            ("runtime_ms"@, decimal(info.runtime_ms as nat)),
            ("stderr_tail"@, json_string(info.stderr_tail)),
            ("message"@, json_string(info.message)),
        ],
    )
}

/// Writes the report of an end in JSON.
pub fn exit_json(info: &ExitInfo) -> (r: String)
    ensures
        r@ == exit_json_text(info@),
{
    let name = match info.signal_name {
        Some(s) => json_quote(s),
        None => "null".to_owned(),
    };
    assert(name@ == opt_json_string(info@.signal_name));
    let mut out: Vec<(&str, String)> = Vec::new();
    out.push(("type", json_quote(info.kind)));
    out.push(("pid", to_decimal(info.pid as u64)));
    out.push(("status_kind", json_quote(info.status_kind)));
    out.push(("exit_code", opt_int_string(info.exit_code)));
    out.push(("signal", opt_int_string(info.signal)));
    out.push(("signal_name", name));
    out.push(("shell_exit_code", to_signed_decimal(info.shell_exit_code as i64)));
    out.push(("core_dumped", json_bool(info.core_dumped)));
    out.push(("started_at", to_decimal(info.started_at)));
    out.push(("exited_at", to_decimal(info.exited_at)));
    out.push(("runtime_ms", to_decimal(info.runtime_ms)));
    out.push(("stderr_tail", json_quote(info.stderr_tail.as_str())));
    out.push(("message", json_quote(info.message.as_str())));
    assert(field_models(out@) =~= seq![
        ("type"@, json_string(info@.kind)),
        ("pid"@, decimal(info@.pid as nat)),
        ("status_kind"@, json_string(info@.status_kind)),
        ("exit_code"@, opt_int_text(info@.exit_code)),
        ("signal"@, opt_int_text(info@.signal)),
        ("signal_name"@, opt_json_string(info@.signal_name)),
        ("shell_exit_code"@, signed_decimal(info@.shell_exit_code as int)),
        ("core_dumped"@, bool_text(info@.core_dumped)),
        ("started_at"@, decimal(info@.started_at as nat)),
        ("exited_at"@, decimal(info@.exited_at as nat)),
        ("runtime_ms"@, decimal(info@.runtime_ms as nat)),
        ("stderr_tail"@, json_string(info@.stderr_tail)),
        ("message"@, json_string(info@.message)),
    ]);
    write_object(&out)
}

// ───────────────────────── manager ─────────────────────────

/// Why a sandbox could not be created.
#[derive(Debug, PartialEq, Eq)]
pub struct Failure {
    pub code: i32,
    pub message: String,
}

/// How far the process of an image has come.
#[derive(Debug, PartialEq, Eq)]
pub enum EntrypointState {
    /// The sandbox does not start the process of its image.
    Disabled,
    Failed(Failure),
    Running { pid: u32, started_at: u64 },
    Exited(ExitInfo),
}

/// The process of an image, and whether the sandbox was created.
#[derive(Debug)]
pub struct Manager {
    pub state: EntrypointState,
    pub create_completed: bool,
}

/// What a look at the running process found.
#[derive(Debug, PartialEq, Eq)]
pub enum Probe {
    Running,
    Exited(ExitInfo),
    Failed(String),
}

/// The outcome of a creation: it succeeds once, and then for good; before, it
/// takes a process that runs, or none at all.
pub open spec fn create_failure(m: Manager, probe: Probe, codes: ErrorCodes) -> Option<
    (i32, Seq<char>),
> {
    if m.create_completed {
        None
    } else {
        match m.state {
            EntrypointState::Disabled => None,
            EntrypointState::Failed(f) => Some((f.code, f.message@)),
            EntrypointState::Exited(info) => Some(
                (codes.user_function_exception, exit_json_text(info@)),
            ),
            EntrypointState::Running { .. } => match probe {
                Probe::Running => None,
                Probe::Exited(info) => Some(
                    (codes.user_function_exception, exit_json_text(info@)),
                ),
                Probe::Failed(e) => Some(
                    (
                        codes.user_function_exception,
                        "failed to inspect image entrypoint: "@ + e@,
                    ),
                ),
            },
        }
    }
}

/// The reply to a poll of the process.
pub open spec fn poll_model(state: EntrypointState) -> Model {
    match state {
        EntrypointState::Running { pid, started_at } => dict(
            seq![
                ("status"@, Model::Text("running"@)),
                ("pid"@, Model::Integer(pid as int)),
                ("started_at"@, Model::Integer(started_at as i64 as int)),
            ],
        ),
        EntrypointState::Exited(info) => dict(exit_fields(info@)),
        EntrypointState::Failed(f) => dict(
            seq![
                ("status"@, Model::Text("error"@)),
                ("code"@, Model::Integer(f.code as int)),
                ("message"@, Model::Text(f.message@)),
            ],
        ),
        EntrypointState::Disabled => dict(
            seq![
                ("status"@, Model::Text("error"@)),
                ("message"@, Model::Text("inherit_entrypoint is not enabled for this sandbox"@)),
            ],
        ),
    }
}

/// What is told of the process.
pub open spec fn info_model(state: EntrypointState) -> Model {
    match state {
        EntrypointState::Disabled => dict(seq![("state"@, Model::Text("disabled"@))]),
        EntrypointState::Failed(f) => dict(
            seq![
                ("state"@, Model::Text("failed"@)),
                ("code"@, Model::Integer(f.code as int)),
                ("message"@, Model::Text(f.message@)),
            ],
        ),
        EntrypointState::Running { pid, .. } => dict(
            seq![("state"@, Model::Text("running"@)), ("pid"@, Model::Integer(pid as int))],
        ),
        EntrypointState::Exited(info) => dict(
            exit_fields(info@).push(("state"@, Model::Text("exited"@))),
        ),
    }
}

impl Manager {
    /// No process of the image.
    pub fn disabled() -> (r: Manager)
        ensures
            r.state is Disabled,
            !r.create_completed,
    {
        Manager { state: EntrypointState::Disabled, create_completed: false }
    }

    /// Notes that the process could not be started.
    pub fn fail(&mut self, code: i32, message: String)
        ensures
            final(self).state == EntrypointState::Failed(Failure { code, message }),
            final(self).create_completed == old(self).create_completed,
    {
        self.state = EntrypointState::Failed(Failure { code, message });
    }

    /// Notes that the process could not be started because of its
    /// specification or its user.
    pub fn fail_invalid(&mut self, message: String, codes: &ErrorCodes)
        ensures
            final(self).state == EntrypointState::Failed(
                Failure { code: codes.param_invalid, message },
            ),
            final(self).create_completed == old(self).create_completed,
    {
        self.fail(codes.param_invalid, message);
    }

    /// Follows an attempt to start the process.
    pub fn spawned(&mut self, outcome: Result<(u32, u64), String>, codes: &ErrorCodes)
        ensures
            match outcome {
                Ok((pid, started_at)) => final(self).state == (EntrypointState::Running {
                    pid,
                    started_at,
                }),
                Err(e) => final(self).state matches EntrypointState::Failed(f) && f.code
                    == codes.user_function_exception && f.message@
                    == "failed to spawn image entrypoint: "@ + e@,
            },
            final(self).create_completed == old(self).create_completed,
    {
        match outcome {
            Ok((pid, started_at)) => {
                self.state = EntrypointState::Running { pid, started_at };
            },
            Err(e) => {
                let message = join("failed to spawn image entrypoint: ", e.as_str());
                self.fail(codes.user_function_exception, message);
            },
        }
    }

    /// Notes that the process ended.
    pub fn exited(&mut self, info: ExitInfo)
        ensures
            final(self).state == EntrypointState::Exited(info),
            final(self).create_completed == old(self).create_completed,
    {
        self.state = EntrypointState::Exited(info);
    }

    /// Completes the creation of the sandbox, where its process runs or there
    /// is none. `probe` is what a look at a running process found.
    pub fn complete_create(&mut self, probe: &Probe, codes: &ErrorCodes) -> (r: Result<(), Failure>)
        ensures
            final(self).state == old(self).state,
            match r {
                Ok(()) => create_failure(*old(self), *probe, *codes) is None
                    && final(self).create_completed,
                Err(f) => create_failure(*old(self), *probe, *codes) == Some((f.code, f.message@))
                    && !final(self).create_completed,
            },
    {
        if self.create_completed {
            return Ok(());
        }
        let failure = match &self.state {
            EntrypointState::Disabled => None,
            EntrypointState::Failed(f) => Some(
                Failure { code: f.code, message: f.message.clone() },
            ),
            EntrypointState::Exited(info) => Some(
                Failure { code: codes.user_function_exception, message: exit_json(info) },
            ),
            EntrypointState::Running { pid: _, started_at: _ } => match probe {
                Probe::Running => None,
                Probe::Exited(info) => Some(
                    Failure { code: codes.user_function_exception, message: exit_json(info) },
                ),
                Probe::Failed(e) => Some(
                    Failure {
                        code: codes.user_function_exception,
                        message: join("failed to inspect image entrypoint: ", e.as_str()),
                    },
                ),
            },
        };
        match failure {
            Some(f) => Err(f),
            None => {
                self.create_completed = true;
                Ok(())
            },
        }
    }

    /// Replies to a poll of the process.
    pub fn poll(&self) -> (r: Datum)
        ensures
            r@ == poll_model(self.state),
    {
        let mut out: Vec<(&str, Datum)> = Vec::new();
        match &self.state {
            EntrypointState::Running { pid, started_at } => {
                out.push(("status", Datum::text("running")));
                out.push(("pid", Datum::integer(*pid as i64)));
                out.push(("started_at", Datum::integer(*started_at as i64)));
                assert(named_models(out@) =~= seq![
                    ("status"@, Model::Text("running"@)),
                    ("pid"@, Model::Integer(*pid as int)),
                    ("started_at"@, Model::Integer(*started_at as i64 as int)),
                ]);
            },
            EntrypointState::Exited(info) => {
                return exit_value(info);
            },
            EntrypointState::Failed(f) => {
                out.push(("status", Datum::text("error")));
                out.push(("code", Datum::integer(f.code as i64)));
                out.push(("message", Datum::text(f.message.as_str())));
                assert(named_models(out@) =~= seq![
                    ("status"@, Model::Text("error"@)),
                    ("code"@, Model::Integer(f.code as int)),
                    ("message"@, Model::Text(f.message@)),
                ]);
            },
            EntrypointState::Disabled => {
                out.push(("status", Datum::text("error")));
                out.push(
                    (
                        "message",
                        Datum::text("inherit_entrypoint is not enabled for this sandbox"),
                    ),
                );
                assert(named_models(out@) =~= seq![
                    ("status"@, Model::Text("error"@)),
                    (
                        "message"@,
                        Model::Text("inherit_entrypoint is not enabled for this sandbox"@),
                    ),
                ]);
            },
        }
        map_value(out)
    }

    /// Tells of the process.
    pub fn info_value(&self) -> (r: Datum)
        ensures
            r@ == info_model(self.state),
    {
        let mut out: Vec<(&str, Datum)> = Vec::new();
        match &self.state {
            EntrypointState::Disabled => {
                out.push(("state", Datum::text("disabled")));
                assert(named_models(out@) =~= seq![("state"@, Model::Text("disabled"@))]);
            },
            EntrypointState::Failed(f) => {
                out.push(("state", Datum::text("failed")));
                out.push(("code", Datum::integer(f.code as i64)));
                out.push(("message", Datum::text(f.message.as_str())));
                assert(named_models(out@) =~= seq![
                    ("state"@, Model::Text("failed"@)),
                    ("code"@, Model::Integer(f.code as int)),
                    ("message"@, Model::Text(f.message@)),
                ]);
            },
            EntrypointState::Running { pid, started_at: _ } => {
                out.push(("state", Datum::text("running")));
                out.push(("pid", Datum::integer(*pid as i64)));
                assert(named_models(out@) =~= seq![
                    ("state"@, Model::Text("running"@)),
                    ("pid"@, Model::Integer(*pid as int)),
                ]);
            },
            EntrypointState::Exited(info) => {
                let mut fields = exit_pairs(info);
                let ghost before = named_models(fields@);
                fields.push(("state", Datum::text("exited")));
                assert(named_models(fields@) =~= before.push(
                    ("state"@, Model::Text("exited"@)),
                ));
                return map_value(fields);
            },
        }
        map_value(out)
    }
}

/// A creation that succeeded stays so, also after the process ended.
pub proof fn completed_create_stays(m: Manager, later: Manager, probe: Probe, codes: ErrorCodes)
    requires
        m.create_completed,
        later.create_completed == m.create_completed,
    ensures
        create_failure(later, probe, codes) is None,
{
}

/// A sandbox whose process ended before it was created is not created.
pub proof fn exited_before_create_fails(m: Manager, probe: Probe, codes: ErrorCodes)
    requires
        !m.create_completed,
        m.state is Exited || m.state is Failed,
    ensures
        create_failure(m, probe, codes) is Some,
{
}

} // verus!
