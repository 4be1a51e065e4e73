//! The lifecycle of a running graph, as a state machine.
//!
//! A graph is started, plays until something asks it to stop, drains what it
//! still holds, and ends. What asks is a termination trigger: a signal from
//! outside, a control byte from the other process, the end of the stream, or
//! an error that a stage reports. The machine here decides, for a state and
//! a trigger, the next state and what has to be done to the graph. It does
//! none of that itself: it names the effects and leaves them to its caller.

use vstd::prelude::*;

verus! {

/// Which end of the pipe a process is.
#[derive(Clone, Copy, Debug, PartialEq, Eq, Structural)]
pub enum Role {
    /// Captures frames and writes them to the pipe.
    Producer,
    /// Reads frames from the pipe, encodes and publishes them.
    Receiver,
}

/// How a graph ended.
#[derive(Clone, Copy, Debug, PartialEq, Eq, Structural)]
pub enum Outcome {
    /// The end of the stream came through.
    Normal,
    /// A stage failed, or the graph never started.
    Error,
}

/// Where a graph is in its life.
#[derive(Clone, Copy, Debug, PartialEq, Eq, Structural)]
pub enum LifecycleState {
    /// Built, not yet started.
    Idle,
    /// Running.
    Playing,
    /// End of stream requested; waiting for it to come through.
    Draining,
    /// Over. Nothing leads out of this state.
    Terminated(Outcome),
}

/// What makes a graph stop.
#[derive(Clone, Debug, PartialEq, Eq)]
pub enum TerminationTrigger {
    /// The process was told to stop by a signal.
    ExternalSignal,
    /// The other process asked for a stop over the control channel.
    ControlByteReceived,
    /// The end of the stream reached the graph's sinks.
    UpstreamEndOfStream,
    /// A stage of the graph failed.
    FatalPipelineError { source: String, message: String },
}

/// What the caller has to do to the graph, or to the other process.
#[derive(Clone, Copy, Debug, PartialEq, Eq, Structural)]
pub enum Effect {
    /// Write the control byte to the other process, as well as that can be
    /// done: a failure to deliver it is not an error.
    SendControlByte,
    /// Send end-of-stream into the graph.
    RequestEndOfStream,
    /// Command the graph to its stopped state.
    StopGraph,
}

/// The state that follows `state` when `trigger` is observed.
///
/// A playing graph starts to drain on a signal or a control byte. End of
/// stream ends a playing or draining graph normally; an error ends it at
/// once, without draining. Before the start and after the end nothing
/// happens.
pub open spec fn next_state(state: LifecycleState, trigger: TerminationTrigger) -> LifecycleState {
    match state {
        LifecycleState::Playing | LifecycleState::Draining => match trigger {
            TerminationTrigger::ExternalSignal
            | TerminationTrigger::ControlByteReceived => LifecycleState::Draining,
            TerminationTrigger::UpstreamEndOfStream => LifecycleState::Terminated(Outcome::Normal),
            TerminationTrigger::FatalPipelineError { .. } => LifecycleState::Terminated(
                Outcome::Error,
            ),
        },
        LifecycleState::Idle | LifecycleState::Terminated(_) => state,
    }
}

/// What a role tells the other process when it stops: the receiver sends
/// the control byte upstream, the producer has nobody to tell.
pub open spec fn notice(role: Role) -> Seq<Effect> {
    match role {
        Role::Receiver => seq![Effect::SendControlByte],
        Role::Producer => Seq::empty(),
    }
}

/// The effects of observing `trigger` in `state`, in the order in which
/// they are to be carried out.
///
/// Leaving `Playing` for `Draining` requests end of stream, once. An error
/// stops the graph at once. Either is preceded by the role's notice to the
/// other process. Everything else has no effect.
pub open spec fn effects_of(role: Role, state: LifecycleState, trigger: TerminationTrigger) -> Seq<
    Effect,
> {
    match (state, trigger) {
        (LifecycleState::Playing, TerminationTrigger::ExternalSignal)
        | (LifecycleState::Playing, TerminationTrigger::ControlByteReceived) => notice(role).push(
            Effect::RequestEndOfStream,
        ),
        (LifecycleState::Playing, TerminationTrigger::FatalPipelineError { .. })
        | (LifecycleState::Draining, TerminationTrigger::FatalPipelineError { .. }) => notice(
            role,
        ).push(Effect::StopGraph),
        _ => Seq::empty(),
    }
}

impl LifecycleState {
    /// Whether the graph has ended.
    pub fn is_terminated(&self) -> (ended: bool)
        ensures
            ended == (*self is Terminated),
    {
        match self {
            LifecycleState::Terminated(_) => true,
            _ => false,
        }
    }
}

/// One step of the machine: the state after `trigger` and the effects that
/// the step asks for.
pub fn transition(role: Role, state: LifecycleState, trigger: &TerminationTrigger) -> (step: (
    LifecycleState,
    Vec<Effect>,
))
    ensures
        step.0 == next_state(state, *trigger),
        step.1@ == effects_of(role, state, *trigger),
{
    let mut effects: Vec<Effect> = Vec::new();
    let next = match state {
        LifecycleState::Idle => LifecycleState::Idle,
        LifecycleState::Terminated(outcome) => LifecycleState::Terminated(outcome),
        LifecycleState::Playing | LifecycleState::Draining => match trigger {
            TerminationTrigger::ExternalSignal | TerminationTrigger::ControlByteReceived => {
                if let LifecycleState::Playing = state {
                    if let Role::Receiver = role {
                        effects.push(Effect::SendControlByte);
                    }
                    effects.push(Effect::RequestEndOfStream);
                }
                LifecycleState::Draining
            },
            TerminationTrigger::UpstreamEndOfStream => LifecycleState::Terminated(Outcome::Normal),
            TerminationTrigger::FatalPipelineError { .. } => {
                if let Role::Receiver = role {
                    effects.push(Effect::SendControlByte);
                }
                effects.push(Effect::StopGraph);
                LifecycleState::Terminated(Outcome::Error)
            },
        },
    };
    (next, effects)
}

/// Where a run of the machine ends, and all that it asks for on the way:
/// the triggers are observed one after the other, starting in `state`.
pub open spec fn run(role: Role, state: LifecycleState, triggers: Seq<TerminationTrigger>) -> (
    LifecycleState,
    Seq<Effect>,
)
    decreases triggers.len(),
{
    if triggers.len() == 0 {
        (state, Seq::empty())
    } else {
        let rest = run(role, next_state(state, triggers.first()), triggers.drop_first());
        (rest.0, effects_of(role, state, triggers.first()) + rest.1)
    }
}

/// How often `which` occurs among `effects`.
pub open spec fn count(effects: Seq<Effect>, which: Effect) -> nat
    decreases effects.len(),
{
    if effects.len() == 0 {
        0
    } else {
        count(effects.drop_last(), which) + if effects.last() == which {
            1nat
        } else {
            0nat
        }
    }
}

/// How far a state is along the one way that a graph's life can go.
pub open spec fn rank(state: LifecycleState) -> nat {
    match state {
        LifecycleState::Idle => 0,
        LifecycleState::Playing => 1,
        LifecycleState::Draining => 2,
        LifecycleState::Terminated(_) => 3,
    }
}

/// Counting over two lists in a row is counting each and adding up.
pub proof fn lemma_count_concat(first: Seq<Effect>, second: Seq<Effect>, which: Effect)
    ensures
        count(first + second, which) == count(first, which) + count(second, which),
    decreases second.len(),
{
    if second.len() == 0 {
    } else {
        lemma_count_concat(first, second.drop_last(), which);
        assert((first + second).drop_last() =~= first + second.drop_last());
    }
}

/// How often each effect occurs in one step: a step out of `Playing` on a
/// signal or control byte requests end of stream once, a step on an error
/// out of a live state stops the graph once, and either carries one control
/// byte where the role is the receiver. No step asks for anything twice.
pub proof fn lemma_step_counts(role: Role, state: LifecycleState, trigger: TerminationTrigger)
    ensures
        count(effects_of(role, state, trigger), Effect::RequestEndOfStream) == if state is Playing
            && (trigger is ExternalSignal || trigger is ControlByteReceived) {
            1nat
        } else {
            0nat
        },
        count(effects_of(role, state, trigger), Effect::StopGraph) == if (state is Playing
            || state is Draining) && trigger is FatalPipelineError {
            1nat
        } else {
            0nat
        },
        count(effects_of(role, state, trigger), Effect::SendControlByte) == if role is Receiver
            && effects_of(role, state, trigger).len() > 0 {
            1nat
        } else {
            0nat
        },
{
    reveal_with_fuel(count, 3);
}

/// Absorbing terminal state: once a graph has ended, no trigger changes its
/// state or asks for anything, however many follow.
pub proof fn lemma_terminated_is_absorbing(
    role: Role,
    state: LifecycleState,
    triggers: Seq<TerminationTrigger>,
)
    requires
        state is Terminated,
    ensures
        run(role, state, triggers) == (state, Seq::<Effect>::empty()),
    decreases triggers.len(),
{
    if triggers.len() > 0 {
        lemma_terminated_is_absorbing(role, state, triggers.drop_first());
        assert(effects_of(role, state, triggers.first()) + Seq::<Effect>::empty()
            =~= Seq::<Effect>::empty());
    }
}

/// A graph's life goes one way: no trigger leads back to an earlier state.
pub proof fn lemma_run_never_goes_back(
    role: Role,
    state: LifecycleState,
    triggers: Seq<TerminationTrigger>,
)
    ensures
        rank(run(role, state, triggers).0) >= rank(state),
    decreases triggers.len(),
{
    if triggers.len() > 0 {
        lemma_run_never_goes_back(role, next_state(state, triggers.first()), triggers.drop_first());
    }
}

/// Idempotent drain request: over a whole run, end of stream is requested
/// at most once. It is requested exactly where the run starts in `Playing`
/// and its first trigger is a signal or a control byte; a run that starts
/// anywhere else never requests it, whatever is observed.
pub proof fn lemma_drain_requested_once(
    role: Role,
    state: LifecycleState,
    triggers: Seq<TerminationTrigger>,
)
    ensures
        count(run(role, state, triggers).1, Effect::RequestEndOfStream) == if state is Playing
            && triggers.len() > 0 && (triggers.first() is ExternalSignal
            || triggers.first() is ControlByteReceived) {
            1nat
        } else {
            0nat
        },
    decreases triggers.len(),
{
    if triggers.len() > 0 {
        let after = next_state(state, triggers.first());
        let rest = run(role, after, triggers.drop_first());
        lemma_drain_requested_once(role, after, triggers.drop_first());
        lemma_step_counts(role, state, triggers.first());
        lemma_count_concat(
            effects_of(role, state, triggers.first()),
            rest.1,
            Effect::RequestEndOfStream,
        );
    }
}

/// Over a whole run the machine stops the graph at most once, and only
/// where the run ends in an error.
pub proof fn lemma_stopped_at_most_once(
    role: Role,
    state: LifecycleState,
    triggers: Seq<TerminationTrigger>,
)
    ensures
        count(run(role, state, triggers).1, Effect::StopGraph) <= 1,
        count(run(role, state, triggers).1, Effect::StopGraph) == 1 ==> run(
            role,
            state,
            triggers,
        ).0 == LifecycleState::Terminated(Outcome::Error),
    decreases triggers.len(),
{
    if triggers.len() > 0 {
        let after = next_state(state, triggers.first());
        let rest = run(role, after, triggers.drop_first());
        lemma_stopped_at_most_once(role, after, triggers.drop_first());
        lemma_step_counts(role, state, triggers.first());
        lemma_count_concat(effects_of(role, state, triggers.first()), rest.1, Effect::StopGraph);
        if after is Terminated {
            lemma_terminated_is_absorbing(role, after, triggers.drop_first());
        }
    }
}

} // verus!
