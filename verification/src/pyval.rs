//! Results of commands as Python values, in pickled form.
use crate::codec::{dict, map_value, named_models};
use crate::value::{content, to_rmpv, wire, Datum, Model};
use vstd::prelude::*;

verus! {

/// An error of the pickle writer.
#[verifier::external_type_specification]
#[verifier::external_body]
pub struct ExPickleError(serde_pickle::Error);

/// The bytes that `serde_pickle::to_vec` writes for a tree.
pub uninterp spec fn pickled(m: Model) -> Seq<u8>;

/// Whether a tree is a dictionary of texts and numbers.
pub open spec fn flat(m: Model) -> bool {
    m is Dict && forall|i: int|
        #![trigger m->Dict_0[i]]
        0 <= i < m->Dict_0.len() ==> m->Dict_0[i].0 is Text && (m->Dict_0[i].1 is Text
            || m->Dict_0[i].1 is Integer)
}

/// `serde_pickle::to_vec` with the default options, on a tree whose `Serialize`
/// hands on its nodes one for one. The bytes depend on the content of the tree
/// alone. Writing to a vector never fails, and nothing in a tree is refused.
#[verifier::external_body]
fn pickle_tree(tree: &rmpv::Value) -> (r: Result<Vec<u8>, serde_pickle::Error>)
    requires
        flat(content(*tree)),
    ensures
        r is Ok,
        r->Ok_0@ == pickled(content(*tree)),
{
    serde_pickle::to_vec(tree, serde_pickle::SerOptions::new())
}

/// What a command left behind.
#[derive(Debug, PartialEq, Eq)]
pub struct ExecResult {
    pub returncode: i32,
    pub stdout: String,
    pub stderr: String,
}

/// The dictionary that stands for a result.
pub open spec fn result_model(returncode: i32, stdout: Seq<char>, stderr: Seq<char>) -> Model {
    dict(
        seq![
            ("returncode"@, Model::Integer(returncode as int)),
            ("stdout"@, Model::Text(stdout)),
            ("stderr"@, Model::Text(stderr)),
        ],
    )
}

impl ExecResult {
    /// The dictionary that stands for a result.
    pub fn value(self) -> (r: Datum)
        ensures
            r@ == result_model(self.returncode, self.stdout@, self.stderr@),
    {
        let mut out: Vec<(&str, Datum)> = Vec::new();
        out.push(("returncode", Datum::integer(self.returncode as i64)));
        out.push(("stdout", Datum::Text(self.stdout)));
        out.push(("stderr", Datum::Text(self.stderr)));
        assert(named_models(out@) =~= seq![
            ("returncode"@, Model::Integer(self.returncode as int)),
            ("stdout"@, Model::Text(self.stdout@)),
            ("stderr"@, Model::Text(self.stderr@)),
        ]);
        map_value(out)
    }
}

/// Writes a result in pickled form.
pub fn encode_exec_result(returncode: i32, stdout: String, stderr: String) -> (r: Result<
    Vec<u8>,
    serde_pickle::Error,
>)
    ensures
        r matches Ok(b) && b@ == pickled(result_model(returncode, stdout@, stderr@)),
{
    let value = (ExecResult { returncode, stdout, stderr }).value();
    proof {
        let m = value@;
        let w = wire(m);
        assert(m->Dict_0.len() == 3);
        assert forall|i: int| 0 <= i < 3 implies w->Dict_0[i] == #[trigger] m->Dict_0[i] by {
            assert(wire(m->Dict_0[i].0) == m->Dict_0[i].0);
            assert(wire(m->Dict_0[i].1) == m->Dict_0[i].1);
        }
        assert(w->Dict_0 =~= m->Dict_0);
    }
    pickle_tree(&to_rmpv(&value))
}

} // verus!
