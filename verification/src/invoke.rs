//! From the observed outcome of one run of the selector tool to the caller's
//! result: the input block and arguments that are handed to the tool, and the
//! interpretation of what came back.

use crate::lines::join_candidates;
use crate::lines::line_block;
use crate::lines::parse_selections;
use crate::lines::selections_of;
use vstd::prelude::*;

verus! {

/// Why a selection attempt failed. A run on which the user selected nothing
/// is not a failure: it completes with an empty selection list.
#[derive(Clone, Copy, Debug, PartialEq, Eq, Structural)]
pub enum SelectError {
    /// The selector executable could not be located or spawned.
    ToolNotFound,
    /// Writing to or reading from the tool's channels failed.
    IoFailure,
    /// The tool's output bytes are not valid text.
    EncodingFailure,
}

/// What one run of the selector tool was observed to do, as the surrounding
/// process-handling code reports it back to the library.
#[derive(Debug)]
pub enum ToolRun {
    /// The executable was not resolvable, or spawning it failed.
    ToolMissing,
    /// Writing the input block or collecting the output failed.
    ChannelFailed,
    /// The collected output bytes were not valid text.
    OutputNotText,
    /// The tool exited normally; the argument is everything it wrote to its
    /// output channel, decoded as text.
    Completed(String),
}

impl SelectError {
    /// A human-readable description of the failure.
    pub fn message(&self) -> (r: String)
        ensures
            *self == SelectError::ToolNotFound ==> r@ == "fzf is not installed"@,
            *self == SelectError::IoFailure ==> r@ == "i/o failure while exchanging data with fzf"@,
            *self == SelectError::EncodingFailure ==> r@
                == "fzf produced output that is not valid text"@,
    {
        match self {
            SelectError::ToolNotFound => "fzf is not installed".to_owned(),
            SelectError::IoFailure => "i/o failure while exchanging data with fzf".to_owned(),
            SelectError::EncodingFailure => (
            "fzf produced output that is not valid text").to_owned(),
        }
    }
}

/// The two values a caller must hand to the selector tool: the input block
/// (the candidates joined one per line) and the command-line arguments,
/// forwarded unmodified. The arguments play no part in building the block.
pub fn plan_invocation(candidates: &Vec<String>, args: &Vec<String>) -> (r: (String, Vec<String>))
    ensures
        r.0@ == line_block(candidates.deep_view()),
        r.1.deep_view() == args.deep_view(),
{
    let block = join_candidates(candidates);
    let forwarded = clone_strings(args);
    (block, forwarded)
}

fn clone_strings(v: &Vec<String>) -> (r: Vec<String>)
    ensures
        r.deep_view() == v.deep_view(),
{
    let mut r: Vec<String> = Vec::new();
    let n: usize = v.len();
    for i in 0..n
        invariant
            n == v@.len(),
            r.deep_view() == v.deep_view().take(i as int),
    {
        proof {
            assert(v.deep_view().len() == n);
            assert(v.deep_view().take(i as int).len() == i);
            assert(r.deep_view().len() == r@.len());
            assert(r@.len() == i);
        }
        let c = v[i].clone();
        r.push(c);
        proof {
            assert(r@.len() == i + 1);
            assert(r.deep_view() =~~= v.deep_view().take(i + 1));
        }
    }
    proof {
        assert(v.deep_view().take(n as int) =~= v.deep_view());
    }
    r
}

/// Turns the observed outcome of one tool run into the caller's result:
/// each way the run can fail maps to its own error, and a completed run
/// yields exactly the selections its output encodes — an output with no
/// selections (the user cancelled) is a success with an empty list.
pub fn interpret_run(run: ToolRun) -> (r: Result<Vec<String>, SelectError>)
    ensures
        match run {
            ToolRun::ToolMissing => r == Err::<Vec<String>, SelectError>(
                SelectError::ToolNotFound,
            ),
            ToolRun::ChannelFailed => r == Err::<Vec<String>, SelectError>(SelectError::IoFailure),
            ToolRun::OutputNotText => r == Err::<Vec<String>, SelectError>(
                SelectError::EncodingFailure,
            ),
            ToolRun::Completed(out) => r is Ok && r->Ok_0.deep_view() == selections_of(out@),
        },
{
    match run {
        ToolRun::ToolMissing => Err(SelectError::ToolNotFound),
        ToolRun::ChannelFailed => Err(SelectError::IoFailure),
        ToolRun::OutputNotText => Err(SelectError::EncodingFailure),
        ToolRun::Completed(out) => Ok(parse_selections(out.as_str())),
    }
}

} // verus!
