//! The process service.
use crate::bytes::{lossy, lossy_string};
use crate::json_text::{field_models, json_object, json_quote, json_string, write_object};
use crate::text::{join, signed_decimal, to_signed_decimal};
use vstd::prelude::*;

verus! {

/// The process service.
#[derive(Debug, Clone, Copy, PartialEq, Eq)]
pub struct ProcessSvc;

impl Default for ProcessSvc {
    fn default() -> (r: ProcessSvc)
        ensures
            r == ProcessSvc,
    {
        ProcessSvc
    }
}

/// How a request of a service failed.
#[derive(Debug, PartialEq, Eq)]
pub enum Fault {
    InvalidArgument(String),
    NotFound(String),
    PermissionDenied(String),
    Internal(String),
}

/// The model of a [`Fault`].
pub enum FaultModel {
    InvalidArgument(Seq<char>),
    NotFound(Seq<char>),
    PermissionDenied(Seq<char>),
    Internal(Seq<char>),
}

impl View for Fault {
    type V = FaultModel;

    open spec fn view(&self) -> FaultModel {
        match self {
            Fault::InvalidArgument(m) => FaultModel::InvalidArgument(m@),
            Fault::NotFound(m) => FaultModel::NotFound(m@),
            Fault::PermissionDenied(m) => FaultModel::PermissionDenied(m@),
            Fault::Internal(m) => FaultModel::Internal(m@),
        }
    }
}

/// A command to run.
#[derive(Debug, PartialEq, Eq)]
pub struct ExecRequest {
    pub cmd: String,
    pub args: Vec<String>,
    pub cwd: String,
    pub env: Vec<(String, String)>,
}

/// A command that will be run.
#[derive(Debug, PartialEq, Eq)]
pub struct ExecPlan {
    pub cmd: String,
    pub args: Vec<String>,
    /// Where it runs, unless in the directory of the service.
    pub cwd: Option<String>,
    pub env: Vec<(String, String)>,
}

/// What a command left behind.
#[derive(Debug, PartialEq, Eq)]
pub struct ExecResponse {
    pub exit_code: i32,
    pub stdout: Vec<u8>,
    pub stderr: Vec<u8>,
}

/// What became of a command.
#[derive(Debug, PartialEq, Eq)]
pub enum ExecEnd {
    NotStarted(String),
    /// The command ended: with a code, unless a signal ended it.
    Ended { code: Option<i32>, stdout: Vec<u8>, stderr: Vec<u8> },
}

impl ProcessSvc {
    /// Plans a command, and refuses an empty one.
    pub fn plan_exec(&self, request: ExecRequest) -> (r: Result<ExecPlan, Fault>)
        ensures
            if request.cmd@.len() == 0 {
                r matches Err(e) && e@ == FaultModel::InvalidArgument("cmd is empty"@)
            } else {
                r matches Ok(p) && p.cmd == request.cmd && p.args == request.args && p.env
                    == request.env && p.cwd == (if request.cwd@.len() == 0 {
                    None
                } else {
                    Some(request.cwd)
                })
            },
    {
        if request.cmd.as_str().is_empty() {
            return Err(Fault::InvalidArgument("cmd is empty".to_owned()));
        }
        let cwd = if request.cwd.as_str().is_empty() {
            None
        } else {
            Some(request.cwd)
        };
        Ok(ExecPlan { cmd: request.cmd, args: request.args, cwd, env: request.env })
    }

    /// Answers a request once its command ended.
    pub fn exec(&self, end: ExecEnd) -> (r: Result<ExecResponse, Fault>)
        ensures
            match end {
                ExecEnd::NotStarted(e) => r matches Err(f) && f@ == FaultModel::Internal(
                    "spawn failed: "@ + e@,
                ),
                ExecEnd::Ended { code, stdout, stderr } => r matches Ok(a) && a.stdout == stdout
                    && a.stderr == stderr && a.exit_code == (match code {
                    Some(n) => n,
                    None => -1i32,
                }),
            },
    {
        match end {
            ExecEnd::NotStarted(e) => Err(Fault::Internal(join("spawn failed: ", e.as_str()))),
            ExecEnd::Ended { code, stdout, stderr } => {
                let exit_code: i32 = match code {
                    Some(n) => n,
                    None => -1,
                };
                Ok(ExecResponse { exit_code, stdout, stderr })
            },
        }
    }
}

/// A response as JSON text.
pub open spec fn exec_text(exit_code: i32, stdout: Seq<u8>, stderr: Seq<u8>) -> Seq<char> {
    json_object(
        seq![
            ("returncode"@, signed_decimal(exit_code as int)),
            ("stderr"@, json_string(lossy(stderr))),
            ("stdout"@, json_string(lossy(stdout))),
        ],
    )
}

/// Writes a response as JSON text.
pub fn exec_json(response: &ExecResponse) -> (r: String)
    ensures
        r@ == exec_text(response.exit_code, response.stdout@, response.stderr@),
{
    let stdout = lossy_string(response.stdout.as_slice());
    let stderr = lossy_string(response.stderr.as_slice());
    let mut out: Vec<(&str, String)> = Vec::new();
    out.push(("returncode", to_signed_decimal(response.exit_code as i64)));
    out.push(("stderr", json_quote(stderr.as_str())));
    out.push(("stdout", json_quote(stdout.as_str())));
    assert(field_models(out@) =~= seq![
        ("returncode"@, signed_decimal(response.exit_code as int)),
        ("stderr"@, json_string(lossy(response.stderr@))),
        ("stdout"@, json_string(lossy(response.stdout@))),
    ]);
    write_object(&out)
}

/// Reads the command line `exec <address> <command> [arguments...]`, whose
/// first word is the program: the address, and the command.
pub fn exec_arguments(words: &Vec<String>) -> (r: Option<(String, ExecRequest)>)
    ensures
        if words@.len() >= 4 && words@[1]@ == "exec"@ {
            r matches Some((address, request)) && address@ == words@[2]@ && request.cmd@
                == words@[3]@ && crate::text::views(request.args@) == crate::text::views(
                words@.skip(4),
            ) && request.cwd@.len() == 0 && request.env@.len() == 0
        } else {
            r is None
        },
{
    if words.len() < 4 || !crate::text::same(words[1].as_str(), "exec") {
        return None;
    }
    let ghost all = crate::text::views(words@.skip(4));
    let mut args: Vec<String> = Vec::new();
    let mut i: usize = 4;
    assert(crate::text::views(args@) =~= all.take(0));
    while i < words.len()
        invariant
            4 <= i <= words@.len(),
            all == crate::text::views(words@.skip(4)),
            crate::text::views(args@) == all.take(i - 4),
        decreases words@.len() - i,
    {
        let ghost before = args@;
        let word = words[i].as_str().to_owned();
        args.push(word);
        proof {
            crate::text::views_push(before, word);
            assert(all[i - 4] == words@[i as int]@);
            assert(crate::text::views(args@) =~= all.take(i - 4 + 1));
        }
        i = i + 1;
    }
    assert(crate::text::views(args@) =~= all);
    let request = ExecRequest {
        cmd: words[3].as_str().to_owned(),
        args,
        cwd: String::new(),
        env: Vec::new(),
    };
    Some((words[2].as_str().to_owned(), request))
}

} // verus!
