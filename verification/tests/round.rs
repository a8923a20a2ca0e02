use nutblaster::mailbox::round::{next_phase, Outcome, Phase};
use nutblaster::protocol::payloads::Kick;

fn idle() -> Kick {
    Kick::Natural { code: "idle".to_string(), msg: "Nobody came".to_string() }
}

fn flood() -> Kick {
    Kick::Violation { code: "rate_limited".to_string(), msg: "Too many payloads".to_string() }
}

/// The phases that a connection goes through after it has listened.
fn phases(outcomes: Vec<Outcome>) -> Vec<Phase> {
    let mut all = vec![Phase::Listen];
    let mut phase = Phase::Listen;
    for outcome in outcomes {
        phase = next_phase(phase, outcome);
        all.push(match &phase {
            Phase::Farewell(reason) => Phase::Farewell(reason.clone()),
            Phase::Listen => Phase::Listen,
            Phase::Flush { stop } => Phase::Flush { stop: *stop },
            Phase::Advance { stop } => Phase::Advance { stop: *stop },
            Phase::Watch { stop } => Phase::Watch { stop: *stop },
            Phase::LastFlush => Phase::LastFlush,
            Phase::End => Phase::End,
        });
    }
    all
}

#[test]
fn a_round_flushes_advances_and_watches() {
    let done = vec![Outcome::Done, Outcome::Done, Outcome::Done, Outcome::Done, Outcome::Done];
    assert_eq!(
        phases(done),
        vec![
            Phase::Listen,
            Phase::Flush { stop: false },
            Phase::Advance { stop: false },
            Phase::Watch { stop: false },
            Phase::Listen,
            Phase::Flush { stop: false },
        ]
    );
}

#[test]
fn the_last_round_is_a_whole_round() {
    let outcomes = vec![Outcome::Stop, Outcome::Done, Outcome::Done, Outcome::Done, Outcome::Done];
    assert_eq!(
        phases(outcomes),
        vec![
            Phase::Listen,
            Phase::Flush { stop: true },
            Phase::Advance { stop: true },
            Phase::Watch { stop: true },
            Phase::End,
            Phase::End,
        ]
    );
}

#[test]
fn a_client_who_floods_is_let_go_at_once() {
    let outcomes = vec![Outcome::Kicked(flood()), Outcome::Done, Outcome::Done, Outcome::Done];
    assert_eq!(
        phases(outcomes),
        vec![Phase::Listen, Phase::Farewell(flood()), Phase::LastFlush, Phase::End, Phase::End]
    );
}

#[test]
fn a_client_whose_lobby_is_idle_is_let_go_after_the_round() {
    for first in [Outcome::Done, Outcome::Stop] {
        let stop = first == Outcome::Stop;
        let outcomes = vec![
            first,
            Outcome::Done,
            Outcome::Done,
            Outcome::Kicked(idle()),
            Outcome::Done,
            Outcome::Done,
        ];
        assert_eq!(
            phases(outcomes),
            vec![
                Phase::Listen,
                Phase::Flush { stop },
                Phase::Advance { stop },
                Phase::Watch { stop },
                Phase::Farewell(idle()),
                Phase::LastFlush,
                Phase::End,
            ]
        );
    }
}
