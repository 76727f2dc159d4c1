//! Diagnostics, and the decisions of the timeout supervisor.

use vstd::prelude::*;
use crate::location::{Location, LocationView};

verus! {

/// The line that reports a skipped test: `{location}: SKIPPED`.
pub open spec fn skipped_line(loc: LocationView) -> Seq<char> {
    loc.text() + seq![':', ' ', 'S', 'K', 'I', 'P', 'P', 'E', 'D']
}

/// The line that reports a test that ran out of time:
/// `{location}: TIMEOUT`.
pub open spec fn timeout_line(loc: LocationView) -> Seq<char> {
    loc.text() + seq![':', ' ', 'T', 'I', 'M', 'E', 'O', 'U', 'T']
}

/// The diagnostic for a test that was skipped at `loc`.
pub fn skipped_text(loc: &Location) -> (line: String)
    ensures
        line@ == skipped_line(loc@),
{
    proof {
        reveal_strlit(": SKIPPED");
    }
    let mut line = loc.to_text();
    line.append(": SKIPPED");
    assert(line@ =~= skipped_line(loc@));
    line
}

/// The diagnostic for a test that ran out of time at `loc`.
pub fn timeout_text(loc: &Location) -> (line: String)
    ensures
        line@ == timeout_line(loc@),
{
    proof {
        reveal_strlit(": TIMEOUT");
    }
    let mut line = loc.to_text();
    line.append(": TIMEOUT");
    assert(line@ =~= timeout_line(loc@));
    line
}

/// How the supervisor's wait on the completion channel ended.
#[derive(Clone, Copy, Debug, PartialEq, Eq, Structural)]
pub enum Completion {
    /// The worker signalled in time.
    Signalled,
    /// The deadline passed without a signal.
    TimedOut,
    /// The worker went away without a signal.
    Disconnected,
}

/// What the supervisor does next.
pub enum Verdict {
    /// Join the worker, and hand on its value or its failure.
    Join,
    /// Drop the liveness token, print the diagnostic and fail with it;
    /// the worker is left to itself.
    Expired(String),
}

/// The worker's rule: it signals completion only while the supervisor
/// still holds the liveness token.
pub fn may_signal(strong_holders: usize) -> (r: bool)
    ensures
        r == (strong_holders > 0),
{
    strong_holders > 0
}

/// The supervisor's decision. Only an elapsed deadline is a timeout;
/// a signal, and a worker that went away, lead to the join, where the
/// worker's own outcome shows.
pub fn supervise(loc: &Location, outcome: Completion) -> (v: Verdict)
    ensures
        outcome == Completion::TimedOut ==> (v matches Verdict::Expired(line) && line@
            == timeout_line(loc@)),
        outcome != Completion::TimedOut ==> v is Join,
{
    match outcome {
        Completion::TimedOut => Verdict::Expired(timeout_text(loc)),
        Completion::Signalled => Verdict::Join,
        Completion::Disconnected => Verdict::Join,
    }
}

} // verus!
