use caststream::lifecycle::{
    transition, Effect, LifecycleState, Outcome, Role, TerminationTrigger,
};

const ROLES: [Role; 2] = [Role::Producer, Role::Receiver];

fn all_states() -> Vec<LifecycleState> {
    vec![
        LifecycleState::Idle,
        LifecycleState::Playing,
        LifecycleState::Draining,
        LifecycleState::Terminated(Outcome::Normal),
        LifecycleState::Terminated(Outcome::Error),
    ]
}

fn fatal(source: &str) -> TerminationTrigger {
    TerminationTrigger::FatalPipelineError {
        source: source.to_string(),
        message: "stage failed".to_string(),
    }
}

fn all_triggers() -> Vec<TerminationTrigger> {
    vec![
        TerminationTrigger::ExternalSignal,
        TerminationTrigger::ControlByteReceived,
        TerminationTrigger::UpstreamEndOfStream,
        fatal("enc0"),
    ]
}

fn run_machine(
    role: Role,
    start: LifecycleState,
    triggers: &[TerminationTrigger],
) -> (LifecycleState, Vec<Effect>) {
    let mut state = start;
    let mut effects = Vec::new();
    for trigger in triggers {
        let (next, asked) = transition(role, state, trigger);
        state = next;
        effects.extend(asked);
    }
    (state, effects)
}

fn times(effects: &[Effect], which: Effect) -> usize {
    effects.iter().filter(|e| **e == which).count()
}

#[test]
fn signal_drains_a_playing_producer() {
    assert_eq!(
        transition(Role::Producer, LifecycleState::Playing, &TerminationTrigger::ExternalSignal),
        (LifecycleState::Draining, vec![Effect::RequestEndOfStream])
    );
}

#[test]
fn control_byte_drains_a_playing_producer() {
    assert_eq!(
        transition(
            Role::Producer,
            LifecycleState::Playing,
            &TerminationTrigger::ControlByteReceived
        ),
        (LifecycleState::Draining, vec![Effect::RequestEndOfStream])
    );
}

#[test]
fn draining_receiver_tells_the_producer_first() {
    for trigger in [TerminationTrigger::ExternalSignal, TerminationTrigger::ControlByteReceived] {
        assert_eq!(
            transition(Role::Receiver, LifecycleState::Playing, &trigger),
            (
                LifecycleState::Draining,
                vec![Effect::SendControlByte, Effect::RequestEndOfStream]
            )
        );
    }
}

#[test]
fn end_of_stream_ends_a_live_graph_normally() {
    for role in ROLES {
        for state in [LifecycleState::Playing, LifecycleState::Draining] {
            assert_eq!(
                transition(role, state, &TerminationTrigger::UpstreamEndOfStream),
                (LifecycleState::Terminated(Outcome::Normal), vec![])
            );
        }
    }
}

#[test]
fn error_stops_a_live_graph_at_once() {
    for state in [LifecycleState::Playing, LifecycleState::Draining] {
        assert_eq!(
            transition(Role::Producer, state, &fatal("enc0")),
            (LifecycleState::Terminated(Outcome::Error), vec![Effect::StopGraph])
        );
        assert_eq!(
            transition(Role::Receiver, state, &fatal("rtmp2sink0")),
            (
                LifecycleState::Terminated(Outcome::Error),
                vec![Effect::SendControlByte, Effect::StopGraph]
            )
        );
    }
}

#[test]
fn later_triggers_do_not_disturb_a_drain() {
    for role in ROLES {
        for trigger in [TerminationTrigger::ExternalSignal, TerminationTrigger::ControlByteReceived]
        {
            assert_eq!(
                transition(role, LifecycleState::Draining, &trigger),
                (LifecycleState::Draining, vec![])
            );
        }
    }
}

#[test]
fn nothing_happens_before_the_start() {
    for role in ROLES {
        for trigger in all_triggers() {
            assert_eq!(
                transition(role, LifecycleState::Idle, &trigger),
                (LifecycleState::Idle, vec![])
            );
        }
    }
}

#[test]
fn terminated_is_absorbing() {
    for role in ROLES {
        for outcome in [Outcome::Normal, Outcome::Error] {
            let ended = LifecycleState::Terminated(outcome);
            for trigger in all_triggers() {
                assert_eq!(transition(role, ended, &trigger), (ended, vec![]));
            }
            let mut many = Vec::new();
            for _ in 0..25 {
                many.extend(all_triggers());
            }
            assert_eq!(run_machine(role, ended, &many), (ended, vec![]));
        }
    }
}

#[test]
fn end_of_stream_is_requested_at_most_once_in_any_run() {
    let triggers = all_triggers();
    let n = triggers.len();
    for role in ROLES {
        for start in all_states() {
            // every run of up to four triggers
            for len in 0..=4u32 {
                for code in 0..n.pow(len) {
                    let mut run = Vec::new();
                    let mut rest = code;
                    for _ in 0..len {
                        run.push(triggers[rest % n].clone());
                        rest /= n;
                    }
                    let (_, effects) = run_machine(role, start, &run);
                    let asked = times(&effects, Effect::RequestEndOfStream);
                    let expected = match (start, run.first()) {
                        (LifecycleState::Playing, Some(TerminationTrigger::ExternalSignal))
                        | (LifecycleState::Playing, Some(TerminationTrigger::ControlByteReceived)) => 1,
                        _ => 0,
                    };
                    assert_eq!(asked, expected, "{:?} from {:?}: {:?}", role, start, run);
                    assert!(times(&effects, Effect::StopGraph) <= 1);
                }
            }
        }
    }
}

#[test]
fn repeated_signals_request_end_of_stream_once() {
    let run = vec![TerminationTrigger::ExternalSignal; 50];
    let (state, effects) = run_machine(Role::Producer, LifecycleState::Playing, &run);
    assert_eq!(state, LifecycleState::Draining);
    assert_eq!(effects, vec![Effect::RequestEndOfStream]);
    let (state, effects) = run_machine(Role::Receiver, LifecycleState::Playing, &run);
    assert_eq!(state, LifecycleState::Draining);
    assert_eq!(effects, vec![Effect::SendControlByte, Effect::RequestEndOfStream]);
}

#[test]
fn a_run_never_goes_back() {
    fn rank(state: LifecycleState) -> u8 {
        match state {
            LifecycleState::Idle => 0,
            LifecycleState::Playing => 1,
            LifecycleState::Draining => 2,
            LifecycleState::Terminated(_) => 3,
        }
    }
    for role in ROLES {
        for start in all_states() {
            for first in all_triggers() {
                for second in all_triggers() {
                    let (middle, _) = transition(role, start, &first);
                    let (end, _) = transition(role, middle, &second);
                    assert!(rank(start) <= rank(middle) && rank(middle) <= rank(end));
                }
            }
        }
    }
}

#[test]
fn error_while_draining_ends_in_error_with_one_stop() {
    let run = vec![
        TerminationTrigger::ExternalSignal,
        fatal("mux0"),
        TerminationTrigger::UpstreamEndOfStream,
        fatal("mux0"),
    ];
    assert_eq!(
        run_machine(Role::Producer, LifecycleState::Playing, &run),
        (
            LifecycleState::Terminated(Outcome::Error),
            vec![Effect::RequestEndOfStream, Effect::StopGraph]
        )
    );
    assert_eq!(
        run_machine(Role::Receiver, LifecycleState::Playing, &run),
        (
            LifecycleState::Terminated(Outcome::Error),
            vec![
                Effect::SendControlByte,
                Effect::RequestEndOfStream,
                Effect::SendControlByte,
                Effect::StopGraph
            ]
        )
    );
}

#[test]
fn states_know_whether_they_are_terminal() {
    assert!(!LifecycleState::Idle.is_terminated());
    assert!(!LifecycleState::Playing.is_terminated());
    assert!(!LifecycleState::Draining.is_terminated());
    assert!(LifecycleState::Terminated(Outcome::Normal).is_terminated());
    assert!(LifecycleState::Terminated(Outcome::Error).is_terminated());
}
