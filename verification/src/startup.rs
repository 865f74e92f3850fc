//! The environment that a runtime starts or restarts with.
use crate::bytes::{byte_parts, byte_views, contains_byte, copy_all, split_bytes, utf8_string};
use crate::text::{
    begins, chars_of, opt_view, same, slice, split_once, split_pair, starts_with, trim, trimmed,
};
use vstd::prelude::*;
use vstd::utf8::{decode_utf8, valid_utf8};

verus! {

// ───────────────────────── variables ─────────────────────────

/// Environment variables; a later one takes the place of an earlier one of the
/// same name.
#[derive(Debug)]
pub struct Environment {
    pub entries: Vec<(String, String)>,
}

/// What a list of named values maps each name to.
pub open spec fn variables(s: Seq<(String, String)>) -> Map<Seq<char>, Seq<char>>
    decreases s.len(),
{
    if s.len() == 0 {
        Map::empty()
    } else {
        variables(s.drop_last()).insert(s.last().0@, s.last().1@)
    }
}

impl View for Environment {
    type V = Map<Seq<char>, Seq<char>>;

    open spec fn view(&self) -> Map<Seq<char>, Seq<char>> {
        variables(self.entries@)
    }
}

proof fn variables_at(s: Seq<(String, String)>, i: int, key: Seq<char>)
    requires
        -1 <= i < s.len(),
        i >= 0 ==> s[i].0@ == key,
        forall|j: int| i < j < s.len() ==> s[j].0@ != key,
    ensures
        i >= 0 ==> variables(s).contains_key(key) && variables(s)[key] == s[i].1@,
        i < 0 ==> !variables(s).contains_key(key),
    decreases s.len(),
{
    if s.len() > 0 && i < s.len() - 1 {
        variables_at(s.drop_last(), i, key);
    }
}

/// The value of a variable.
pub open spec fn variable(env: Map<Seq<char>, Seq<char>>, key: Seq<char>) -> Option<Seq<char>> {
    if env.contains_key(key) {
        Some(env[key])
    } else {
        None
    }
}

impl Environment {
    /// No variables.
    pub fn new() -> (r: Environment)
        ensures
            r@ == Map::<Seq<char>, Seq<char>>::empty(),
    {
        Environment { entries: Vec::new() }
    }

    /// Sets a variable.
    pub fn insert(&mut self, key: String, value: String)
        ensures
            final(self)@ == old(self)@.insert(key@, value@),
    {
        let ghost before = self.entries@;
        self.entries.push((key, value));
        assert(self.entries@.drop_last() =~= before);
    }

    /// The value of a variable.
    pub fn get(&self, key: &str) -> (r: Option<&String>)
        ensures
            match r {
                Some(v) => variable(self@, key@) == Some(v@),
                None => variable(self@, key@) is None,
            },
    {
        let mut i: usize = self.entries.len();
        while i > 0
            invariant
                i <= self.entries@.len(),
                forall|j: int| i <= j < self.entries@.len() ==> self.entries@[j].0@ != key@,
            decreases i,
        {
            i = i - 1;
            if same(self.entries[i].0.as_str(), key) {
                proof {
                    variables_at(self.entries@, i as int, key@);
                }
                return Some(&self.entries[i].1);
            }
        }
        proof {
            variables_at(self.entries@, -1, key@);
        }
        None
    }

    /// The value of a variable without the white space around it, unless
    /// nothing is left then.
    pub fn get_trimmed(&self, key: &str) -> (r: Option<String>)
        ensures
            opt_view(r) == trimmed_variable(self@, key@),
    {
        match self.get(key) {
            Some(v) => {
                let t = trim(v.as_str());
                if t.as_str().is_empty() {
                    None
                } else {
                    Some(t)
                }
            },
            None => None,
        }
    }
}

/// The value of a variable without the white space around it, unless nothing
/// is left then.
pub open spec fn trimmed_variable(env: Map<Seq<char>, Seq<char>>, key: Seq<char>) -> Option<
    Seq<char>,
> {
    match variable(env, key) {
        Some(v) => if trimmed(v).len() > 0 {
            Some(trimmed(v))
        } else {
            None
        },
        None => None,
    }
}

// ───────────────────────── environment files ─────────────────────────

/// `s` without a pair of equal quotes around it.
pub open spec fn unquoted(s: Seq<char>) -> Seq<char> {
    if s.len() >= 2 && s[0] == s.last() && (s[0] == '"' || s[0] == '\'') {
        s.subrange(1, s.len() - 1)
    } else {
        s
    }
}

/// Removes a pair of equal quotes around a value.
pub fn strip_quotes(value: &str) -> (r: String)
    ensures
        r@ == unquoted(value@),
{
    let chars = chars_of(value);
    let n: usize = chars.len();
    if n >= 2 && chars[0] == chars[n - 1] && (chars[0] == '"' || chars[0] == '\'') {
        slice(&chars, 1, n - 1)
    } else {
        value.to_owned()
    }
}

/// The variable that one entry sets. Empty entries, comments, and entries
/// without a name set none. Quotes count only in entries that are lines.
pub open spec fn entry_variable(text: Seq<char>, lines: bool) -> Option<(Seq<char>, Seq<char>)> {
    let line = trimmed(text);
    if line.len() == 0 || begins(line, "#"@) {
        None
    } else {
        match split_pair(line, '=') {
            None => None,
            Some((key, value)) => if trimmed(key).len() == 0 {
                None
            } else {
                Some(
                    (
                        trimmed(key),
                        if lines {
                            unquoted(trimmed(value))
                        } else {
                            value
                        },
                    ),
                )
            },
        }
    }
}

/// The variables of the first `n` entries, or the number of the first entry,
/// counted from one, that is not UTF-8.
pub open spec fn entry_variables(parts: Seq<Seq<u8>>, lines: bool, n: nat) -> Result<
    Map<Seq<char>, Seq<char>>,
    nat,
>
    decreases n,
{
    if n == 0 {
        Ok(Map::empty())
    } else {
        match entry_variables(parts, lines, (n - 1) as nat) {
            Err(at) => Err(at),
            Ok(env) => if !valid_utf8(parts[n - 1]) {
                Err(n)
            } else {
                match entry_variable(decode_utf8(parts[n - 1]), lines) {
                    Some((key, value)) => Ok(env.insert(key, value)),
                    None => Ok(env),
                }
            },
        }
    }
}

/// The entries of an environment file: separated by NUL where there is one,
/// else by line ends.
pub open spec fn file_entries(content: Seq<u8>) -> Seq<Seq<u8>> {
    if content.contains(0) {
        byte_parts(content, 0)
    } else {
        byte_parts(content, 10)
    }
}

/// The variables of an environment file, or the number of the entry that is
/// not UTF-8.
pub open spec fn file_variables(content: Seq<u8>) -> Result<Map<Seq<char>, Seq<char>>, nat> {
    let parts = file_entries(content);
    entry_variables(parts, !content.contains(0), parts.len())
}

fn parse_entry(text: &str, lines: bool) -> (r: Option<(String, String)>)
    ensures
        match r {
            Some((k, v)) => entry_variable(text@, lines) == Some((k@, v@)),
            None => entry_variable(text@, lines) is None,
        },
{
    let line = trim(text);
    if line.as_str().is_empty() || starts_with(line.as_str(), "#") {
        return None;
    }
    match split_once(line.as_str(), '=') {
        None => None,
        Some((raw_key, raw_value)) => {
            let key = trim(raw_key.as_str());
            if key.as_str().is_empty() {
                return None;
            }
            if lines {
                let value = trim(raw_value.as_str());
                Some((key, strip_quotes(value.as_str())))
            } else {
                Some((key, raw_value))
            }
        },
    }
}

/// Reads an environment file. The error is the number, counted from one, of
/// the first entry that is not UTF-8.
pub fn read_environment_file(content: &[u8]) -> (r: Result<Environment, usize>)
    ensures
        match r {
            Ok(env) => file_variables(content@) == Ok::<Map<Seq<char>, Seq<char>>, nat>(env@),
            Err(n) => file_variables(content@) == Err::<Map<Seq<char>, Seq<char>>, nat>(n as nat),
        },
{
    let lines = !contains_byte(content, 0);
    let parts = if lines {
        split_bytes(content, 10)
    } else {
        split_bytes(content, 0)
    };
    let ghost all = file_entries(content@);
    let mut env = Environment::new();
    let count: usize = parts.len();
    for i in 0..count
        invariant
            count == parts@.len(),
            byte_views(parts@) == all,
            entry_variables(all, lines, i as nat) == Ok::<Map<Seq<char>, Seq<char>>, nat>(env@),
            entry_variables(all, lines, all.len()) == file_variables(content@),
    {
        assert(byte_views(parts@)[i as int] == parts@[i as int]@);
        match utf8_string(copy_all(parts[i].as_slice())) {
            None => {
                proof {
                    first_error(all, lines, i as nat + 1, all.len());
                }
                return Err(i + 1);
            },
            Some(text) => {
                if let Some((key, value)) = parse_entry(text.as_str(), lines) {
                    env.insert(key, value);
                }
            },
        }
    }
    Ok(env)
}

proof fn first_error(parts: Seq<Seq<u8>>, lines: bool, n: nat, m: nat)
    requires
        n <= m,
        entry_variables(parts, lines, n) is Err,
    ensures
        entry_variables(parts, lines, m) == entry_variables(parts, lines, n),
    decreases m,
{
    if n < m {
        first_error(parts, lines, n, (m - 1) as nat);
    }
}

// ───────────────────────── checkpoints ─────────────────────────

/// The file that a checkpoint is handed over through: the configured one, or
/// that of the runtime, where it exists.
pub fn select_checkpoint_handoff_path(
    configured: Option<&str>,
    runtime_fallback: &str,
    runtime_fallback_exists: bool,
) -> (r: Option<String>)
    ensures
        opt_view(r) == configured_or(
            match configured {
                Some(s) => Some(s@),
                None => None,
            },
            runtime_fallback@,
            runtime_fallback_exists,
        ),
{
    if let Some(path) = configured {
        if !path.is_empty() {
            return Some(path.to_owned());
        }
    }
    if runtime_fallback_exists {
        Some(runtime_fallback.to_owned())
    } else {
        None
    }
}

/// A configured path, even where it does not exist, or a fallback that does.
pub open spec fn configured_or(
    configured: Option<Seq<char>>,
    fallback: Seq<char>,
    fallback_exists: bool,
) -> Option<Seq<char>> {
    if configured is Some && configured->0.len() > 0 {
        configured
    } else if fallback_exists {
        Some(fallback)
    } else {
        None
    }
}

/// How a checkpoint ended for this process.
#[derive(Clone, Copy, Debug, PartialEq, Eq, Structural)]
pub enum CheckpointOutcome {
    Resume,
    Restore,
    Error,
}

/// The outcome that a handoff file says.
pub open spec fn outcome_of(content: Seq<char>) -> Option<CheckpointOutcome> {
    let word = trimmed(content);
    if word == "resume"@ {
        Some(CheckpointOutcome::Resume)
    } else if word == "restore"@ {
        Some(CheckpointOutcome::Restore)
    } else if word == "error"@ {
        Some(CheckpointOutcome::Error)
    } else {
        None
    }
}

/// Reads the outcome that a handoff file says.
pub fn read_checkpoint_outcome(content: &str) -> (r: Option<CheckpointOutcome>)
    ensures
        r == outcome_of(content@),
{
    let word = trim(content);
    proof {
        reveal_strlit("resume");
        reveal_strlit("restore");
        reveal_strlit("error");
    }
    if same(word.as_str(), "resume") {
        Some(CheckpointOutcome::Resume)
    } else if same(word.as_str(), "restore") {
        Some(CheckpointOutcome::Restore)
    } else if same(word.as_str(), "error") {
        Some(CheckpointOutcome::Error)
    } else {
        None
    }
}

} // verus!
