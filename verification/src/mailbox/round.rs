//! The order in which a connection to the mailbox server goes about its work.

use crate::protocol::payloads::Kick;
use vstd::prelude::*;

verus! {

/// What a connection is about to do. In the middle of a round, `stop` says whether it is the
/// connection's last.
#[derive(Debug, PartialEq, Eq)]
pub enum Phase {
    /// Wait for something to happen, and act on it.
    Listen,
    /// Send what has waited for the player.
    Flush { stop: bool },
    /// Make up for the time that the round has taken.
    Advance { stop: bool },
    /// Look after the player's lobby.
    Watch { stop: bool },
    /// Tell the client why they are let go.
    Farewell(Kick),
    /// Send what has waited for the player who is let go.
    LastFlush,
    /// Nothing more.
    End,
}

/// What came of a phase.
#[derive(Debug, PartialEq, Eq)]
pub enum Outcome {
    /// Nothing stands in the way of the next.
    Done,
    /// There is nothing to listen for any more.
    Stop,
    /// The client is to be let go.
    Kicked(Kick),
}

/// What a connection does next. A round is to listen, flush, advance and watch. A client who is
/// let go is told so at once, is sent what has waited for them, and that is the end.
pub open spec fn phase_after(phase: Phase, outcome: Outcome) -> Phase {
    match phase {
        Phase::Listen => match outcome {
            Outcome::Done => Phase::Flush { stop: false },
            Outcome::Stop => Phase::Flush { stop: true },
            Outcome::Kicked(reason) => Phase::Farewell(reason),
        },
        Phase::Flush { stop } => Phase::Advance { stop },
        Phase::Advance { stop } => Phase::Watch { stop },
        Phase::Watch { stop } => match outcome {
            Outcome::Kicked(reason) => Phase::Farewell(reason),
            _ => if stop {
                Phase::End
            } else {
                Phase::Listen
            },
        },
        Phase::Farewell(_) => Phase::LastFlush,
        Phase::LastFlush => Phase::End,
        Phase::End => Phase::End,
    }
}

/// What a connection does after a phase, given what came of it.
pub fn next_phase(phase: Phase, outcome: Outcome) -> (r: Phase)
    ensures
        r == phase_after(phase, outcome),
{
    match (phase, outcome) {
        (Phase::Listen, Outcome::Done) => Phase::Flush { stop: false },
        (Phase::Listen, Outcome::Stop) => Phase::Flush { stop: true },
        (Phase::Listen, Outcome::Kicked(reason)) => Phase::Farewell(reason),
        (Phase::Flush { stop }, _) => Phase::Advance { stop },
        (Phase::Advance { stop }, _) => Phase::Watch { stop },
        (Phase::Watch { .. }, Outcome::Kicked(reason)) => Phase::Farewell(reason),
        (Phase::Watch { stop: true }, _) => Phase::End,
        (Phase::Watch { stop: false }, _) => Phase::Listen,
        (Phase::Farewell(_), _) => Phase::LastFlush,
        (Phase::LastFlush, _) => Phase::End,
        (Phase::End, _) => Phase::End,
    }
}

/// What a connection is about to do once it has been through some phases, given what came of each.
pub open spec fn phase_after_all(phase: Phase, outcomes: Seq<Outcome>) -> Phase
    decreases outcomes.len(),
{
    if outcomes.len() == 0 {
        phase
    } else {
        phase_after(phase_after_all(phase, outcomes.drop_last()), outcomes.last())
    }
}

/// A round in which nobody is let go flushes, advances and watches, in this order, before the
/// connection listens again. It does listen again unless there is nothing to listen for any more.
pub proof fn law_round(heard: Outcome, flushed: Outcome, advanced: Outcome, watched: Outcome)
    requires
        heard !is Kicked,
        watched !is Kicked,
    ensures
        ({
            let stop = heard is Stop;
            let flush = phase_after(Phase::Listen, heard);
            let advance = phase_after(flush, flushed);
            let watch = phase_after(advance, advanced);
            &&& flush == (Phase::Flush { stop })
            &&& advance == (Phase::Advance { stop })
            &&& watch == (Phase::Watch { stop })
            &&& phase_after(watch, watched) == if stop {
                Phase::End
            } else {
                Phase::Listen
            }
        }),
{
}

/// A client is let go where they are heard or their lobby is watched, and nowhere else, and is told
/// the reason that was found there.
pub proof fn law_reason_is_told(phase: Phase, outcome: Outcome, reason: Kick)
    ensures
        phase_after(phase, outcome) == Phase::Farewell(reason) <==> (phase is Listen
            || phase is Watch) && outcome == Outcome::Kicked(reason),
{
}

/// Whatever comes of it, a client who has been told why they are let go is sent what has waited for
/// them, once, and that is the end.
pub proof fn law_farewell_is_the_end(reason: Kick, told: Outcome, outcomes: Seq<Outcome>)
    requires
        outcomes.len() > 0,
    ensures
        phase_after(Phase::Farewell(reason), told) == Phase::LastFlush,
        phase_after_all(Phase::LastFlush, outcomes) == Phase::End,
    decreases outcomes.len(),
{
    if outcomes.len() > 1 {
        law_farewell_is_the_end(reason, told, outcomes.drop_last());
    } else {
        assert(phase_after_all(Phase::LastFlush, outcomes.drop_last()) == Phase::LastFlush);
    }
}

/// A connection goes on for as long as there is something to listen for and its client is not let
/// go.
pub proof fn law_goes_on(outcomes: Seq<Outcome>)
    requires
        forall|i: int| 0 <= i < outcomes.len() ==> #[trigger] outcomes[i] is Done,
    ensures
        outcomes.len() % 4 == 0 ==> phase_after_all(Phase::Listen, outcomes) == Phase::Listen,
        outcomes.len() % 4 == 1 ==> phase_after_all(Phase::Listen, outcomes) == (Phase::Flush {
            stop: false,
        }),
        outcomes.len() % 4 == 2 ==> phase_after_all(Phase::Listen, outcomes) == (Phase::Advance {
            stop: false,
        }),
        outcomes.len() % 4 == 3 ==> phase_after_all(Phase::Listen, outcomes) == (Phase::Watch {
            stop: false,
        }),
    decreases outcomes.len(),
{
    if outcomes.len() > 0 {
        law_goes_on(outcomes.drop_last());
        assert(outcomes.last() == outcomes[outcomes.len() - 1]);
    }
}

} // verus!
