//! The settings of a runtime, and which identity it may have after a restore.
use crate::startup::{trimmed_variable, variable, Environment};
use crate::text::{
    begins, chars_of, join, join4, lower, parse_unsigned, same, slice, to_lower, trim, trimmed,
    unsigned_numeral,
};
use vstd::prelude::*;

verus! {

/// The settings of a runtime.
#[derive(Debug, PartialEq, Eq)]
pub struct Args {
    pub rt_server: String,
    pub runtime_id: String,
    pub instance_id: String,
    pub job_id: String,
    pub deploy_dir: String,
    pub log_level: String,
}

/// The model of [`Args`].
#[verifier::ext_equal]
pub struct ArgsModel {
    pub rt_server: Seq<char>,
    pub runtime_id: Seq<char>,
    pub instance_id: Seq<char>,
    pub job_id: Seq<char>,
    pub deploy_dir: Seq<char>,
    pub log_level: Seq<char>,
}

impl View for Args {
    type V = ArgsModel;

    open spec fn view(&self) -> ArgsModel {
        ArgsModel {
            rt_server: self.rt_server@,
            runtime_id: self.runtime_id@,
            instance_id: self.instance_id@,
            job_id: self.job_id@,
            deploy_dir: self.deploy_dir@,
            log_level: self.log_level@,
        }
    }
}

impl Default for Args {
    fn default() -> (r: Args)
        ensures
            r@ == (ArgsModel {
                rt_server: Seq::empty(),
                runtime_id: Seq::empty(),
                instance_id: Seq::empty(),
                job_id: Seq::empty(),
                deploy_dir: Seq::empty(),
                log_level: Seq::empty(),
            }),
    {
        Args {
            rt_server: String::new(),
            runtime_id: String::new(),
            instance_id: String::new(),
            job_id: String::new(),
            deploy_dir: String::new(),
            log_level: String::new(),
        }
    }
}

impl Args {
    /// A copy of the settings.
    pub fn duplicate(&self) -> (r: Args)
        ensures
            r@ == self@,
    {
        Args {
            rt_server: self.rt_server.clone(),
            runtime_id: self.runtime_id.clone(),
            instance_id: self.instance_id.clone(),
            job_id: self.job_id.clone(),
            deploy_dir: self.deploy_dir.clone(),
            log_level: self.log_level.clone(),
        }
    }
}

// ───────────────────────── settings ─────────────────────────

/// The first of some variables that is set to more than white space, trimmed;
/// nothing where none is.
pub open spec fn first_set(env: Map<Seq<char>, Seq<char>>, keys: Seq<Seq<char>>) -> Seq<char>
    decreases keys.len(),
{
    if keys.len() == 0 {
        Seq::empty()
    } else {
        match trimmed_variable(env, keys[0]) {
            Some(v) => v,
            None => first_set(env, keys.drop_first()),
        }
    }
}

/// The views of a sequence of string slices.
pub open spec fn str_views(items: Seq<&str>) -> Seq<Seq<char>> {
    Seq::new(items.len(), |i: int| items[i]@)
}

/// Reads the first of some variables that is set to more than white space.
pub fn first_env(keys: &[&str], env: &Environment) -> (r: String)
    ensures
        r@ == first_set(env@, str_views(keys@)),
{
    let ghost all = str_views(keys@);
    assert(all.skip(0) =~= all);
    for i in 0..keys.len()
        invariant
            all == str_views(keys@),
            first_set(env@, all) == first_set(env@, all.skip(i as int)),
    {
        assert(all.skip(i as int).drop_first() =~= all.skip(i as int + 1));
        if let Some(v) = env.get_trimmed(keys[i]) {
            return v;
        }
    }
    assert(all.skip(all.len() as int).len() == 0);
    String::new()
}

/// `s` without `prefix` at its beginning.
pub open spec fn after_prefix(s: Seq<char>, prefix: Seq<char>) -> Seq<char> {
    if begins(s, prefix) {
        s.skip(prefix.len() as int)
    } else {
        s
    }
}

/// Where `c` last occurs in the first `n` characters of `s`, counted from one,
/// or zero.
pub open spec fn last_index(s: Seq<char>, c: char, n: nat) -> nat
    decreases n,
{
    if n == 0 || s[n - 1] == c {
        n
    } else {
        last_index(s, c, (n - 1) as nat)
    }
}

/// The part before the last dash, or everything where there is none.
pub open spec fn before_last_dash(s: Seq<char>) -> Seq<char> {
    let n = last_index(s, '-', s.len());
    if n == 0 {
        s
    } else {
        s.take(n - 1)
    }
}

/// The instance of a runtime `runtime-<instance>-<suffix>`.
pub open spec fn instance_of(runtime_id: Seq<char>) -> Seq<char> {
    before_last_dash(after_prefix(runtime_id, "runtime-"@))
}

/// Derives the instance from the name of a runtime.
pub fn instance_id_from_runtime(runtime_id: &str) -> (r: String)
    ensures
        r@ == instance_of(runtime_id@),
{
    let chars = chars_of(runtime_id);
    let prefix = chars_of("runtime-");
    let from: usize = if crate::text::starts_with(runtime_id, "runtime-") {
        prefix.len()
    } else {
        0
    };
    let ghost s = after_prefix(runtime_id@, "runtime-"@);
    assert(s =~= chars@.skip(from as int));
    let mut i: usize = chars.len();
    while i > from && chars[i - 1] != '-'
        invariant
            from <= i <= chars@.len(),
            s == chars@.skip(from as int),
            last_index(s, '-', s.len()) == last_index(s, '-', (i - from) as nat),
        decreases i,
    {
        assert(s[i - from - 1] == chars@[i - 1]);
        i = i - 1;
    }
    if i > from {
        assert(s[i - from - 1] == chars@[i - 1]);
        let r = slice(&chars, from, i - 1);
        assert(r@ =~= s.take(i - from - 1));
        r
    } else {
        let r = slice(&chars, from, chars.len());
        assert(r@ =~= s);
        r
    }
}

/// The settings that environment variables give.
pub open spec fn args_of(env: Map<Seq<char>, Seq<char>>) -> ArgsModel {
    let runtime_id = first_set(env, seq!["YR_RUNTIME_ID"@]);
    let instance_id = first_set(env, seq!["INSTANCE_ID"@]);
    let level = first_set(env, seq!["YR_LOG_LEVEL"@]);
    ArgsModel {
        rt_server: first_set(env, seq!["POSIX_LISTEN_ADDR"@, "YR_SERVER_ADDRESS"@]),
        runtime_id,
        instance_id: if instance_id.len() == 0 {
            instance_of(runtime_id)
        } else {
            instance_id
        },
        job_id: first_set(env, seq!["YR_JOB_ID"@]),
        deploy_dir: first_set(
            env,
            seq!["YR_FUNCTION_LIB_PATH"@, "FUNCTION_LIB_PATH"@, "YR_RT_WORKING_DIR"@],
        ),
        log_level: if level.len() == 0 {
            "INFO"@
        } else {
            level
        },
    }
}

/// Reads the settings from environment variables.
pub fn load_args_from(env: &Environment) -> (r: Args)
    ensures
        r@ == args_of(env@),
{
    let runtime_id = first_env(&["YR_RUNTIME_ID"], env);
    let instance_id = first_env(&["INSTANCE_ID"], env);
    let rt_server = first_env(&["POSIX_LISTEN_ADDR", "YR_SERVER_ADDRESS"], env);
    let job_id = first_env(&["YR_JOB_ID"], env);
    let deploy_dir = first_env(
        &["YR_FUNCTION_LIB_PATH", "FUNCTION_LIB_PATH", "YR_RT_WORKING_DIR"],
        env,
    );
    let level = first_env(&["YR_LOG_LEVEL"], env);
    proof {
        assert(str_views(["YR_RUNTIME_ID"]@) =~= seq!["YR_RUNTIME_ID"@]);
        assert(str_views(["INSTANCE_ID"]@) =~= seq!["INSTANCE_ID"@]);
        assert(str_views(["POSIX_LISTEN_ADDR", "YR_SERVER_ADDRESS"]@) =~= seq![
            "POSIX_LISTEN_ADDR"@,
            "YR_SERVER_ADDRESS"@,
        ]);
        assert(str_views(["YR_JOB_ID"]@) =~= seq!["YR_JOB_ID"@]);
        assert(str_views(
            ["YR_FUNCTION_LIB_PATH", "FUNCTION_LIB_PATH", "YR_RT_WORKING_DIR"]@,
        ) =~= seq!["YR_FUNCTION_LIB_PATH"@, "FUNCTION_LIB_PATH"@, "YR_RT_WORKING_DIR"@]);
        assert(str_views(["YR_LOG_LEVEL"]@) =~= seq!["YR_LOG_LEVEL"@]);
    }
    Args {
        rt_server,
        instance_id: if instance_id.as_str().is_empty() {
            instance_id_from_runtime(runtime_id.as_str())
        } else {
            instance_id
        },
        runtime_id,
        job_id,
        deploy_dir,
        log_level: if level.as_str().is_empty() {
            "INFO".to_owned()
        } else {
            level
        },
    }
}

// ───────────────────────── identity after a restore ─────────────────────────

/// A text as `std::fmt::Debug` shows it: in double quotes, with escapes.
pub uninterp spec fn quoted(s: Seq<char>) -> Seq<char>;

/// `std::fmt::Debug` for `str`.
#[verifier::external_body]
pub(crate) fn quote(s: &str) -> (r: String)
    ensures
        r@ == quoted(s@),
{
    format!("{s:?}")
}

/// Whether an environment allows another logical instance, or its setting
/// where that says neither.
pub open spec fn rebind_allowed(env: Map<Seq<char>, Seq<char>>) -> Result<bool, Seq<char>> {
    match variable(env, "YR_ALLOW_LOGICAL_INSTANCE_ID_REBIND"@) {
        None => Ok(false),
        Some(raw) => {
            let word = lower(trimmed(raw));
            if word == "true"@ || word == "1"@ {
                Ok(true)
            } else if word == "false"@ || word == "0"@ || word == ""@ {
                Ok(false)
            } else {
                Err(
                    "target logical instance ID rebind authorization has invalid value "@ + quoted(
                        word,
                    ),
                )
            }
        },
    }
}

/// Whether an environment allows another logical instance.
pub fn allows_logical_instance_id_rebind(env: &Environment) -> (r: Result<bool, String>)
    ensures
        match r {
            Ok(b) => rebind_allowed(env@) == Ok::<bool, Seq<char>>(b),
            Err(e) => rebind_allowed(env@) == Err::<bool, Seq<char>>(e@),
        },
{
    match env.get("YR_ALLOW_LOGICAL_INSTANCE_ID_REBIND") {
        None => Ok(false),
        Some(raw) => {
            let text = trim(raw.as_str());
            let word = to_lower(text.as_str());
            let w = word.as_str();
            proof {
                reveal_strlit("true");
                reveal_strlit("1");
                reveal_strlit("false");
                reveal_strlit("0");
                reveal_strlit("");
            }
            if same(w, "true") || same(w, "1") {
                Ok(true)
            } else if same(w, "false") || same(w, "0") || same(w, "") {
                assert("false"@.len() == 5 && "true"@.len() == 4);
                assert("0"@[0] == '0' && "1"@[0] == '1');
                Ok(false)
            } else {
                let shown = quote(w);
                Err(
                    join(
                        "target logical instance ID rebind authorization has invalid value ",
                        shown.as_str(),
                    ),
                )
            }
        },
    }
}

/// The settings of a reconnect: those of `source`, with the addresses and
/// names of the target environment. The logical instance stays the same,
/// unless the target environment allows another.
pub open spec fn reconnect_args(source: ArgsModel, env: Map<Seq<char>, Seq<char>>) -> Result<
    ArgsModel,
    Seq<char>,
> {
    let rt_server = first_set(env, seq!["POSIX_LISTEN_ADDR"@, "YR_SERVER_ADDRESS"@]);
    let runtime_id = trimmed_variable(env, "YR_RUNTIME_ID"@);
    let instance_id = trimmed_variable(env, "INSTANCE_ID"@);
    if rt_server.len() == 0 {
        Err("target RuntimeRPC address is missing"@)
    } else if runtime_id is None {
        Err("target runtime ID is missing"@)
    } else if instance_id is None {
        Err("target logical instance ID is missing"@)
    } else if instance_id->0 != source.instance_id && rebind_allowed(env) is Err {
        Err(rebind_allowed(env)->Err_0)
    } else if instance_id->0 != source.instance_id && rebind_allowed(env) == Ok::<bool, Seq<char>>(
        false,
    ) {
        Err(
            "target physical environment changed logical instance ID from "@ + quoted(
                source.instance_id,
            ) + " to "@ + quoted(instance_id->0),
        )
    } else {
        Ok(
            ArgsModel {
                rt_server,
                runtime_id: runtime_id->0,
                instance_id: instance_id->0,
                ..source
            },
        )
    }
}

/// Reads the settings of a reconnect from the target environment, where there
/// is one.
pub fn load_reconnect_control_args(source: &Args, environment: Option<&Environment>) -> (r: Result<
    Args,
    String,
>)
    ensures
        match environment {
            None => r matches Ok(args) && args@ == source@,
            Some(env) => match r {
                Ok(args) => reconnect_args(source@, env@) == Ok::<ArgsModel, Seq<char>>(args@),
                Err(e) => reconnect_args(source@, env@) == Err::<ArgsModel, Seq<char>>(e@),
            },
        },
{
    let env = match environment {
        None => {
            return Ok(source.duplicate());
        },
        Some(env) => env,
    };
    let rt_server = first_env(&["POSIX_LISTEN_ADDR", "YR_SERVER_ADDRESS"], env);
    assert(str_views(["POSIX_LISTEN_ADDR", "YR_SERVER_ADDRESS"]@) =~= seq![
        "POSIX_LISTEN_ADDR"@,
        "YR_SERVER_ADDRESS"@,
    ]);
    if rt_server.as_str().is_empty() {
        return Err("target RuntimeRPC address is missing".to_owned());
    }
    let runtime_id = match env.get_trimmed("YR_RUNTIME_ID") {
        None => {
            return Err("target runtime ID is missing".to_owned());
        },
        Some(v) => v,
    };
    let instance_id = match env.get_trimmed("INSTANCE_ID") {
        None => {
            return Err("target logical instance ID is missing".to_owned());
        },
        Some(v) => v,
    };
    if !same(instance_id.as_str(), source.instance_id.as_str()) {
        match allows_logical_instance_id_rebind(env) {
            Err(e) => {
                return Err(e);
            },
            Ok(true) => {},
            Ok(false) => {
                let a = quote(source.instance_id.as_str());
                let b = quote(instance_id.as_str());
                return Err(
                    join4(
                        "target physical environment changed logical instance ID from ",
                        a.as_str(),
                        " to ",
                        b.as_str(),
                    ),
                );
            },
        }
    }
    Ok(
        Args {
            rt_server,
            runtime_id,
            instance_id,
            job_id: source.job_id.clone(),
            deploy_dir: source.deploy_dir.clone(),
            log_level: source.log_level.clone(),
        },
    )
}

/// The settings that reconnects start from. Once another logical instance was
/// allowed, it is the one that later reconnects have to keep.
pub struct ReconnectControlState {
    pub baseline: Args,
}

impl ReconnectControlState {
    /// Starts from the arguments of the process.
    pub fn new(baseline: Args) -> (r: ReconnectControlState)
        ensures
            r.baseline@ == baseline@,
    {
        ReconnectControlState { baseline }
    }

    /// Reads the settings of the next reconnect.
    pub fn load(&mut self, environment: Option<&Environment>) -> (r: Result<Args, String>)
        ensures
            match environment {
                None => r matches Ok(args) && args@ == old(self).baseline@,
                Some(env) => match r {
                    Ok(args) => reconnect_args(old(self).baseline@, env@) == Ok::<
                        ArgsModel,
                        Seq<char>,
                    >(args@),
                    Err(e) => reconnect_args(old(self).baseline@, env@) == Err::<
                        ArgsModel,
                        Seq<char>,
                    >(e@),
                },
            },
            match r {
                Ok(args) => final(self).baseline@ == (ArgsModel {
                    instance_id: args@.instance_id,
                    ..old(self).baseline@
                }),
                Err(_) => final(self).baseline@ == old(self).baseline@,
            },
    {
        let target = load_reconnect_control_args(&self.baseline, environment);
        if let Ok(args) = &target {
            self.baseline.instance_id = args.instance_id.clone();
        }
        target
    }
}

/// A reconnect changes the logical instance only where its environment allows
/// that, and never what the runtime was started for.
pub proof fn identity_changes_only_when_allowed(
    source: ArgsModel,
    env: Map<Seq<char>, Seq<char>>,
)
    requires
        reconnect_args(source, env) is Ok,
    ensures
        reconnect_args(source, env)->Ok_0.instance_id != source.instance_id ==> rebind_allowed(env)
            == Ok::<bool, Seq<char>>(true),
        reconnect_args(source, env)->Ok_0.job_id == source.job_id,
        reconnect_args(source, env)->Ok_0.deploy_dir == source.deploy_dir,
        reconnect_args(source, env)->Ok_0.log_level == source.log_level,
{
}

/// An instance that was adopted is kept by an ordinary reconnect, and one that
/// names the instance before it is refused.
pub proof fn adopted_identity_is_kept(
    source: ArgsModel,
    adopt: Map<Seq<char>, Seq<char>>,
    resume: Map<Seq<char>, Seq<char>>,
)
    requires
        reconnect_args(source, adopt) is Ok,
        rebind_allowed(resume) == Ok::<bool, Seq<char>>(false),
    ensures
        ({
            let adopted = ArgsModel {
                instance_id: reconnect_args(source, adopt)->Ok_0.instance_id,
                ..source
            };
            reconnect_args(adopted, resume) is Ok ==> reconnect_args(adopted, resume)->Ok_0.instance_id
                == adopted.instance_id
        }),
{
}

// ───────────────────────── ports ─────────────────────────

/// A port number, or what is wrong with it.
pub open spec fn port_of(name: Seq<char>, raw: Seq<char>) -> Result<u16, Seq<char>> {
    match unsigned_numeral(raw, 65535) {
        Some(n) => if n > 0 {
            Ok(n as u16)
        } else {
            Err(bad_port(name, raw))
        },
        None => Err(bad_port(name, raw)),
    }
}

/// What is said of a port that is none.
pub open spec fn bad_port(name: Seq<char>, raw: Seq<char>) -> Seq<char> {
    "invalid "@ + name + " '"@ + raw + "': expected an integer between 1 and 65535"@
}

/// Reads a port number.
pub fn parse_runtime_port(name: &str, raw_port: &str) -> (r: Result<u16, String>)
    ensures
        match r {
            Ok(n) => port_of(name@, raw_port@) == Ok::<u16, Seq<char>>(n),
            Err(e) => port_of(name@, raw_port@) == Err::<u16, Seq<char>>(e@),
        },
{
    if let Some(n) = parse_unsigned(raw_port, 65535) {
        if n > 0 {
            return Ok(n as u16);
        }
    }
    let head = join4("invalid ", name, " '", raw_port);
    Err(join(head.as_str(), "': expected an integer between 1 and 65535"))
}

/// The ports of the tunnel: for its client, and for the sandbox. Without the
/// first there is no tunnel; without the second it is the next one.
pub open spec fn tunnel_ports(ws: Option<Seq<char>>, http: Option<Seq<char>>) -> Result<
    Option<(u16, u16)>,
    Seq<char>,
> {
    match ws {
        None => Ok(None),
        Some(raw) => match port_of("RRT_TUNNEL_WS_PORT"@, raw) {
            Err(e) => Err(e),
            Ok(w) => match http {
                Some(raw_http) => match port_of("RRT_TUNNEL_HTTP_PORT"@, raw_http) {
                    Err(e) => Err(e),
                    Ok(h) => Ok(Some((w, h))),
                },
                None => if w == 65535 {
                    Err("RRT_TUNNEL_HTTP_PORT is required when RRT_TUNNEL_WS_PORT is 65535"@)
                } else {
                    Ok(Some((w, (w + 1) as u16)))
                },
            },
        },
    }
}

/// Reads the ports of the tunnel.
pub fn configured_tunnel_ports(ws: Option<&str>, http: Option<&str>) -> (r: Result<
    Option<(u16, u16)>,
    String,
>)
    ensures
        ({
            let ports = tunnel_ports(crate::text::opt_str_view(ws), crate::text::opt_str_view(http));
            match r {
                Ok(p) => ports == Ok::<Option<(u16, u16)>, Seq<char>>(p),
                Err(e) => ports == Err::<Option<(u16, u16)>, Seq<char>>(e@),
            }
        }),
{
    let raw = match ws {
        None => {
            return Ok(None);
        },
        Some(raw) => raw,
    };
    let w: u16 = match parse_runtime_port("RRT_TUNNEL_WS_PORT", raw) {
        Ok(n) => n,
        Err(e) => {
            return Err(e);
        },
    };
    match http {
        Some(raw_http) => match parse_runtime_port("RRT_TUNNEL_HTTP_PORT", raw_http) {
            Ok(h) => Ok(Some((w, h))),
            Err(e) => Err(e),
        },
        None => {
            if w == 65535 {
                Err(
                    "RRT_TUNNEL_HTTP_PORT is required when RRT_TUNNEL_WS_PORT is 65535".to_owned(),
                )
            } else {
                Ok(Some((w, w + 1)))
            }
        },
    }
}

} // verus!
