//! The supervisory loop's decisions. Each iteration polls `/port_udp` once;
//! this module decides, from that poll's outcome alone, what the iteration
//! does before its fixed sleep: trigger a start, report the discovered port,
//! or kill and relaunch the supervised process. The surrounding loop only
//! carries the chosen step out.

use vstd::prelude::*;
use crate::text::lemma_port_of_body_in_range;
use crate::text::parse_port_body;
use crate::text::port_of_body;

verus! {

/// The outcome of one poll of `/port_udp`, as the loop sees it.
#[derive(Clone, Copy, Debug, PartialEq, Eq, Structural)]
pub enum PollOutcome {
    /// The endpoint answered; its body parsed (or was normalized) to this
    /// value. `0` is the sentinel for "not yet assigned".
    Port(i32),
    /// Transport-level failure: the endpoint could not be reached at all.
    Unreachable,
}

/// What one iteration does after its poll, before the fixed sleep.
#[derive(Clone, Copy, Debug, PartialEq, Eq, Structural)]
pub enum Step {
    /// Invoke the start trigger once; its own outcome is logged only and
    /// never changes the loop's course.
    SendStart,
    /// Terminate the live process handle once (best effort), then spawn
    /// exactly one replacement handle.
    Restart,
    /// Report this nonzero port and stop polling.
    Done(i32),
}

/// The loop's one transition rule: a reachable endpoint reporting the
/// sentinel `0` asks for a start trigger, a reachable endpoint reporting
/// anything else ends the search with that port, and an unreachable
/// endpoint asks for a restart.
pub open spec fn step_of(o: PollOutcome) -> Step {
    match o {
        PollOutcome::Port(p) => if p == 0 {
            Step::SendStart
        } else {
            Step::Done(p)
        },
        PollOutcome::Unreachable => Step::Restart,
    }
}

/// How many times a step invokes the start trigger.
pub open spec fn start_calls_of(s: Step) -> int {
    match s {
        Step::SendStart => 1,
        _ => 0,
    }
}

/// How many process handles a step terminates.
pub open spec fn kills_of(s: Step) -> int {
    match s {
        Step::Restart => 1,
        _ => 0,
    }
}

/// How many new process handles a step creates.
pub open spec fn spawns_of(s: Step) -> int {
    match s {
        Step::Restart => 1,
        _ => 0,
    }
}

/// The port a step reports, if it reports one.
pub open spec fn reported_port_of(s: Step) -> Option<int> {
    match s {
        Step::Done(p) => Some(p as int),
        _ => None,
    }
}

/// Chooses the step for a poll outcome.
pub fn next_step(o: &PollOutcome) -> (s: Step)
    ensures
        s == step_of(*o),
{
    match o {
        PollOutcome::Port(p) => if *p == 0 {
            Step::SendStart
        } else {
            Step::Done(*p)
        },
        PollOutcome::Unreachable => Step::Restart,
    }
}

/// The poll as handed in by the transport: `None` for a transport-level
/// failure, `Some` with the raw response body otherwise.
pub open spec fn poll_view(poll: Option<String>) -> Option<Seq<char>> {
    match poll {
        Some(body) => Some(body@),
        None => None,
    }
}

/// The outcome of a poll: a transport failure stays distinguishable, and a
/// response body is read as the port value, malformed bodies becoming the
/// sentinel `0`.
pub open spec fn outcome_of(poll: Option<Seq<char>>) -> PollOutcome {
    match poll {
        Some(body) => PollOutcome::Port(port_of_body(body) as i32),
        None => PollOutcome::Unreachable,
    }
}

/// Classifies one poll: transport failures stay distinguishable from any
/// parsed value, and a response body is normalized exactly as the poller
/// specifies.
pub fn interpret_poll(poll: &Option<String>) -> (o: PollOutcome)
    ensures
        o == outcome_of(poll_view(*poll)),
{
    match poll {
        Some(body) => {
            proof {
                lemma_port_of_body_in_range(body@);
            }
            PollOutcome::Port(parse_port_body(body.as_str()))
        },
        None => PollOutcome::Unreachable,
    }
}

/// Decides one whole iteration from the raw poll result: classify the poll,
/// then choose the step the loop must carry out before sleeping.
pub fn supervise_once(poll: &Option<String>) -> (s: Step)
    ensures
        s == step_of(outcome_of(poll_view(*poll))),
{
    let o = interpret_poll(poll);
    next_step(&o)
}

/// How many process handles are live after a step, given how many were
/// live before it: a restart first terminates the old handle and only then
/// creates the replacement.
pub open spec fn live_handles_after(live: int, s: Step) -> int {
    live - kills_of(s) + spawns_of(s)
}

/// Law: every iteration keeps exactly one process handle live, whatever
/// the poll outcome was.
pub proof fn lemma_one_live_handle(o: PollOutcome)
    ensures
        live_handles_after(1, step_of(o)) == 1,
{
}

/// Law: whenever the poll reports a transport-level failure, the iteration
/// terminates the current process handle exactly once and creates exactly
/// one new handle before the next poll, and neither triggers a start nor
/// reports a port.
pub proof fn lemma_restart_on_unreachable()
    ensures
        step_of(PollOutcome::Unreachable) == Step::Restart,
        kills_of(step_of(PollOutcome::Unreachable)) == 1,
        spawns_of(step_of(PollOutcome::Unreachable)) == 1,
        start_calls_of(step_of(PollOutcome::Unreachable)) == 0,
        reported_port_of(step_of(PollOutcome::Unreachable)) is None,
{
}

/// Law: whenever the poll returns the sentinel `0`, the iteration invokes
/// the start trigger exactly once before sleeping, and neither touches the
/// process handle nor reports a port.
pub proof fn lemma_start_on_zero()
    ensures
        step_of(PollOutcome::Port(0)) == Step::SendStart,
        start_calls_of(step_of(PollOutcome::Port(0))) == 1,
        kills_of(step_of(PollOutcome::Port(0))) == 0,
        spawns_of(step_of(PollOutcome::Port(0))) == 0,
        reported_port_of(step_of(PollOutcome::Port(0))) is None,
{
}

/// Law: whenever the poll returns a nonzero value, the start trigger is
/// never invoked in that iteration; the iteration reports exactly that
/// value and leaves the process handle alone.
pub proof fn lemma_no_start_on_nonzero(p: i32)
    requires
        p != 0,
    ensures
        step_of(PollOutcome::Port(p)) == Step::Done(p),
        start_calls_of(step_of(PollOutcome::Port(p))) == 0,
        kills_of(step_of(PollOutcome::Port(p))) == 0,
        spawns_of(step_of(PollOutcome::Port(p))) == 0,
        reported_port_of(step_of(PollOutcome::Port(p))) == Some(p as int),
{
}

} // verus!
