//! The driver that takes one graph through its life.
//!
//! The driver owns the lifecycle state of a graph and is told what its
//! caller sees: whether the graph reached `Playing`, whether the shutdown
//! flag is up, whether the control channel has something to read, what came
//! off the event bus. It answers each with the effects that the caller has
//! to carry out on the graph. One turn of the caller's loop is:
//!
//! 1. read the shutdown flag and pass it to `on_shutdown_flag`;
//! 2. where `polls_control_channel` says so, poll the control channel
//!    without blocking and pass the answer to `on_control_channel`;
//! 3. wait on the event bus, no longer than `BUS_POLL_SECONDS`, and pass
//!    what came to `on_bus_message`;
//!
//! until `is_terminated`, and then `finish`. Effects are carried out as soon
//! as they are handed out, before the next wait.

use crate::lifecycle::{
    count, effects_of, lemma_step_counts, next_state, transition, Effect, LifecycleState, Outcome,
    Role, TerminationTrigger,
};
use vstd::prelude::*;
use vstd::string::*;

verus! {

/// The longest that one wait on the event bus may take, in seconds. The
/// shutdown flag is read once per turn, so this bounds how long a raised
/// flag goes unnoticed.
pub const BUS_POLL_SECONDS: u64 = 1;

/// A stage's failure, as it is reported to the user.
#[derive(Clone, Debug, PartialEq, Eq)]
pub struct PipelineFault {
    /// The stage that failed.
    pub source: String,
    /// What went wrong, for a human.
    pub message: String,
    /// Debugging detail, where the stage gave any.
    pub detail: Option<String>,
}

/// A fault as contracts see it.
pub struct FaultView {
    pub source: Seq<char>,
    pub message: Seq<char>,
    pub detail: Option<Seq<char>>,
}

impl View for PipelineFault {
    type V = FaultView;

    open spec fn view(&self) -> FaultView {
        FaultView {
            source: self.source@,
            message: self.message@,
            detail: match self.detail {
                Some(detail) => Some(detail@),
                None => None,
            },
        }
    }
}

impl FaultView {
    /// The line that reports the fault: the source, the message and, in
    /// brackets, the detail, which is empty where the stage gave none.
    pub open spec fn described(self) -> Seq<char> {
        "Got error from "@ + self.source + ": "@ + self.message + " ("@ + match self.detail {
            Some(detail) => detail,
            None => Seq::empty(),
        } + ")"@
    }
}

impl PipelineFault {
    /// The line that reports this fault to the user.
    pub fn describe(&self) -> (line: String)
        ensures
            line@ == self@.described(),
    {
        let mut line = String::from_str("Got error from ");
        line.append(self.source.as_str());
        line.append(": ");
        line.append(self.message.as_str());
        line.append(" (");
        match &self.detail {
            Some(detail) => line.append(detail.as_str()),
            None => {
            },
        }
        line.append(")");
        line
    }
}

/// What comes off a graph's event bus.
#[derive(Clone, Debug, PartialEq, Eq)]
pub enum BusMessage {
    /// The end of the stream reached the sinks.
    EndOfStream,
    /// A stage failed.
    Error { source: String, message: String, detail: Option<String> },
    /// Anything else; the driver has no use for it.
    Other,
}

/// Why a graph could not be started.
#[derive(Clone, Copy, Debug, PartialEq, Eq, Structural)]
pub enum SetupError {
    /// The graph refused to reach `Playing`.
    PlayingRefused,
    /// The driver was started before.
    AlreadyStarted,
}

/// The driver of one graph.
#[derive(Debug)]
pub struct LifecycleDriver {
    role: Role,
    state: LifecycleState,
    drain_requested: bool,
    finished: bool,
    fault: Option<PipelineFault>,
}

/// A driver as contracts see it.
pub struct DriverView {
    pub role: Role,
    pub state: LifecycleState,
    /// End of stream has been requested of the graph.
    pub drain_requested: bool,
    /// The final stop has been handed out.
    pub finished: bool,
    /// The failure that ended the graph, if one did.
    pub fault: Option<FaultView>,
}

impl DriverView {
    /// What holds of every driver, whatever it has been through.
    pub open spec fn consistent(self) -> bool {
        &&& self.state is Idle || self.state is Playing ==> !self.drain_requested
        &&& self.state is Draining ==> self.drain_requested
        &&& self.fault is Some ==> self.state == LifecycleState::Terminated(Outcome::Error)
        &&& self.finished ==> self.state is Terminated
    }

    /// A driver that has not started its graph yet.
    pub open spec fn idle(role: Role) -> DriverView {
        DriverView {
            role,
            state: LifecycleState::Idle,
            drain_requested: false,
            finished: false,
            fault: None,
        }
    }

    /// The driver after its graph was commanded to `Playing` and did, or did
    /// not, get there. A start counts only the first time.
    pub open spec fn started(self, reached_playing: bool) -> DriverView {
        if self.state is Idle {
            DriverView {
                state: if reached_playing {
                    LifecycleState::Playing
                } else {
                    LifecycleState::Terminated(Outcome::Error)
                },
                ..self
            }
        } else {
            self
        }
    }

    /// The driver after `trigger` was observed. `detail` is what an error
    /// came with beyond its source and message.
    pub open spec fn observed(
        self,
        trigger: TerminationTrigger,
        detail: Option<Seq<char>>,
    ) -> DriverView {
        DriverView {
            state: next_state(self.state, trigger),
            drain_requested: self.drain_requested || (self.state is Playing && (trigger
                is ExternalSignal || trigger is ControlByteReceived)),
            fault: match trigger {
                TerminationTrigger::FatalPipelineError { source, message } if self.state
                    is Playing || self.state is Draining => Some(
                    FaultView { source: source@, message: message@, detail },
                ),
                _ => self.fault,
            },
            ..self
        }
    }

    /// The effects that observing `trigger` asks for.
    pub open spec fn effects(self, trigger: TerminationTrigger) -> Seq<Effect> {
        effects_of(self.role, self.state, trigger)
    }

    /// Whether the final stop is still owed: the graph has ended and has
    /// not been stopped for good.
    pub open spec fn owes_final_stop(self) -> bool {
        self.state is Terminated && !self.finished
    }
}

impl View for LifecycleDriver {
    type V = DriverView;

    closed spec fn view(&self) -> DriverView {
        DriverView {
            role: self.role,
            state: self.state,
            drain_requested: self.drain_requested,
            finished: self.finished,
            fault: match self.fault {
                Some(fault) => Some(fault@),
                None => None,
            },
        }
    }
}

impl LifecycleDriver {
    #[verifier::type_invariant]
    spec fn well_formed(self) -> bool {
        self@.consistent()
    }

    /// A driver for a graph that is built and not yet started.
    pub fn new(role: Role) -> (driver: LifecycleDriver)
        ensures
            driver@ == DriverView::idle(role),
    {
        LifecycleDriver {
            role,
            state: LifecycleState::Idle,
            drain_requested: false,
            finished: false,
            fault: None,
        }
    }

    /// The end of the pipe that this driver serves.
    pub fn role(&self) -> (role: Role)
        ensures
            role == self@.role,
    {
        self.role
    }

    /// Where the graph is in its life.
    pub fn state(&self) -> (state: LifecycleState)
        ensures
            state == self@.state,
            self@.consistent(),
    {
        proof {
            use_type_invariant(self);
        }
        self.state
    }

    /// Whether the graph has ended, so that the caller's loop is over.
    pub fn is_terminated(&self) -> (ended: bool)
        ensures
            ended == (self@.state is Terminated),
    {
        self.state.is_terminated()
    }

    /// Whether end of stream has been requested of the graph.
    pub fn drain_requested(&self) -> (requested: bool)
        ensures
            requested == self@.drain_requested,
    {
        self.drain_requested
    }

    /// Whether the final stop has been handed out.
    pub fn is_finished(&self) -> (finished: bool)
        ensures
            finished == self@.finished,
    {
        self.finished
    }

    /// The failure that ended the graph, if one did.
    pub fn fault(&self) -> (fault: Option<&PipelineFault>)
        ensures
            match fault {
                Some(fault) => self@.fault == Some(fault@),
                None => self@.fault is None,
            },
    {
        self.fault.as_ref()
    }

    /// Takes the graph from `Idle` to `Playing`. The caller has commanded
    /// the graph to `Playing` and says whether it got there. Where it did
    /// not, the graph has ended in an error and the start is not tried
    /// again. A driver starts once: a later call changes nothing.
    pub fn start(&mut self, reached_playing: bool) -> (started: Result<(), SetupError>)
        ensures
            final(self)@ == old(self)@.started(reached_playing),
            final(self)@.consistent(),
            started == if !(old(self)@.state is Idle) {
                Err::<(), SetupError>(SetupError::AlreadyStarted)
            } else if reached_playing {
                Ok::<(), SetupError>(())
            } else {
                Err::<(), SetupError>(SetupError::PlayingRefused)
            },
    {
        proof {
            use_type_invariant(&*self);
        }
        match self.state {
            LifecycleState::Idle => {
                if reached_playing {
                    self.state = LifecycleState::Playing;
                    Ok(())
                } else {
                    self.state = LifecycleState::Terminated(Outcome::Error);
                    Err(SetupError::PlayingRefused)
                }
            },
            _ => Err(SetupError::AlreadyStarted),
        }
    }

    /// Whether this turn should look at the control channel: only the
    /// producer is ever asked to stop that way, and only while it plays.
    pub fn polls_control_channel(&self) -> (polls: bool)
        ensures
            polls == (self@.role is Producer && self@.state is Playing),
    {
        match (self.role, self.state) {
            (Role::Producer, LifecycleState::Playing) => true,
            _ => false,
        }
    }

    /// Observes `trigger`: moves to the state that follows and returns the
    /// effects to carry out, in order. An error is kept for the report.
    pub fn observe(&mut self, trigger: TerminationTrigger) -> (effects: Vec<Effect>)
        ensures
            effects@ == old(self)@.effects(trigger),
            final(self)@ == old(self)@.observed(trigger, None),
            final(self)@.consistent(),
    {
        self.step(trigger, None)
    }

    /// Takes what the shutdown flag showed. A raised flag is an external
    /// signal; a flag that is down changes nothing.
    pub fn on_shutdown_flag(&mut self, raised: bool) -> (effects: Vec<Effect>)
        ensures
            raised ==> effects@ == old(self)@.effects(TerminationTrigger::ExternalSignal)
                && final(self)@ == old(self)@.observed(TerminationTrigger::ExternalSignal, None),
            !raised ==> effects@.len() == 0 && final(self)@ == old(self)@,
            final(self)@.consistent(),
    {
        if raised {
            self.step(TerminationTrigger::ExternalSignal, None)
        } else {
            proof {
                use_type_invariant(&*self);
            }
            Vec::new()
        }
    }

    /// Takes what a poll of the control channel showed. Anything to read
    /// there asks the producer to stop, whatever the bytes are. The
    /// receiver's input is the stream itself, so for it this changes
    /// nothing.
    pub fn on_control_channel(&mut self, readable: bool) -> (effects: Vec<Effect>)
        ensures
            readable && old(self)@.role is Producer ==> effects@ == old(self)@.effects(
                TerminationTrigger::ControlByteReceived,
            ) && final(self)@ == old(self)@.observed(TerminationTrigger::ControlByteReceived, None),
            !(readable && old(self)@.role is Producer) ==> effects@.len() == 0 && final(self)@
                == old(self)@,
            final(self)@.consistent(),
    {
        let asked = match self.role {
            Role::Producer => readable,
            Role::Receiver => false,
        };
        if asked {
            self.step(TerminationTrigger::ControlByteReceived, None)
        } else {
            proof {
                use_type_invariant(&*self);
            }
            Vec::new()
        }
    }

    /// Takes what a wait on the event bus gave. End of stream ends the
    /// graph normally. An error ends it at once and is kept, with its
    /// detail, for the report. Another message, or none within the wait,
    /// changes nothing.
    pub fn on_bus_message(&mut self, message: Option<BusMessage>) -> (effects: Vec<Effect>)
        ensures
            triggered_by(message) matches Some((trigger, detail)) ==> effects@ == old(
                self,
            )@.effects(trigger) && final(self)@ == old(self)@.observed(trigger, detail),
            triggered_by(message) is None ==> effects@.len() == 0 && final(self)@ == old(self)@,
            final(self)@.consistent(),
    {
        match message {
            Some(BusMessage::EndOfStream) => self.step(
                TerminationTrigger::UpstreamEndOfStream,
                None,
            ),
            Some(BusMessage::Error { source, message, detail }) => self.step(
                TerminationTrigger::FatalPipelineError { source, message },
                detail,
            ),
            Some(BusMessage::Other) | None => {
                proof {
                    use_type_invariant(&*self);
                }
                Vec::new()
            },
        }
    }

    /// Ends the driver's work. Once the graph has ended, however it did,
    /// the first call hands out the final stop; every other call hands out
    /// nothing.
    pub fn finish(&mut self) -> (effects: Vec<Effect>)
        ensures
            old(self)@.owes_final_stop() ==> effects@ == seq![Effect::StopGraph] && final(self)@
                == (DriverView { finished: true, ..old(self)@ }),
            !old(self)@.owes_final_stop() ==> effects@.len() == 0 && final(self)@ == old(self)@,
            final(self)@.consistent(),
    {
        proof {
            use_type_invariant(&*self);
        }
        let mut effects: Vec<Effect> = Vec::new();
        if self.state.is_terminated() && !self.finished {
            self.finished = true;
            effects.push(Effect::StopGraph);
        }
        effects
    }

    fn step(&mut self, trigger: TerminationTrigger, detail: Option<String>) -> (effects: Vec<
        Effect,
    >)
        ensures
            effects@ == old(self)@.effects(trigger),
            final(self)@ == old(self)@.observed(
                trigger,
                match detail {
                    Some(detail) => Some(detail@),
                    None => None,
                },
            ),
            final(self)@.consistent(),
    {
        proof {
            use_type_invariant(&*self);
        }
        let (next, effects) = transition(self.role, self.state, &trigger);
        let requested = match (self.state, &trigger) {
            (LifecycleState::Playing, TerminationTrigger::ExternalSignal)
            | (LifecycleState::Playing, TerminationTrigger::ControlByteReceived) => true,
            _ => self.drain_requested,
        };
        let mut kept: Option<PipelineFault> = None;
        core::mem::swap(&mut self.fault, &mut kept);
        let fault = match (self.state, trigger) {
            (LifecycleState::Playing, TerminationTrigger::FatalPipelineError { source, message })
            | (
                LifecycleState::Draining,
                TerminationTrigger::FatalPipelineError { source, message },
            ) => Some(PipelineFault { source, message, detail }),
            _ => kept,
        };
        *self =
        LifecycleDriver {
            role: self.role,
            state: next,
            drain_requested: requested,
            finished: self.finished,
            fault,
        };
        effects
    }
}

/// The trigger that a bus message stands for, with the detail that an
/// error carries, or nothing where the message is of no concern.
pub open spec fn triggered_by(message: Option<BusMessage>) -> Option<
    (TerminationTrigger, Option<Seq<char>>),
> {
    match message {
        Some(BusMessage::EndOfStream) => Some((TerminationTrigger::UpstreamEndOfStream, None)),
        Some(BusMessage::Error { source, message, detail }) => Some(
            (
                TerminationTrigger::FatalPipelineError { source, message },
                match detail {
                    Some(detail) => Some(detail@),
                    None => None,
                },
            ),
        ),
        Some(BusMessage::Other) | None => None,
    }
}

/// Every step keeps a driver consistent, and a new driver is.
pub proof fn lemma_consistency_is_kept(
    driver: DriverView,
    trigger: TerminationTrigger,
    detail: Option<Seq<char>>,
    reached_playing: bool,
)
    requires
        driver.consistent(),
    ensures
        DriverView::idle(driver.role).consistent(),
        driver.started(reached_playing).consistent(),
        driver.observed(trigger, detail).consistent(),
        (DriverView { finished: driver.state is Terminated, ..driver }).consistent(),
{
}

/// Idempotent drain request: a driver that has requested end of stream, or
/// has left `Playing` in any other way, never requests it again, whatever
/// it observes, and what it has recorded of the request stays as it is.
pub proof fn lemma_drain_request_is_not_repeated(
    driver: DriverView,
    trigger: TerminationTrigger,
    detail: Option<Seq<char>>,
)
    requires
        driver.consistent(),
        driver.drain_requested || !(driver.state is Playing),
    ensures
        count(driver.effects(trigger), Effect::RequestEndOfStream) == 0,
        driver.observed(trigger, detail).drain_requested == driver.drain_requested,
        !(driver.observed(trigger, detail).state is Playing),
{
    lemma_step_counts(driver.role, driver.state, trigger);
}

/// Absorbing terminal state: a driver whose graph has ended is not changed
/// by anything that it observes afterwards, and asks for nothing.
pub proof fn lemma_ended_driver_stays(
    driver: DriverView,
    trigger: TerminationTrigger,
    detail: Option<Seq<char>>,
)
    requires
        driver.state is Terminated,
    ensures
        driver.observed(trigger, detail) == driver,
        driver.effects(trigger) == Seq::<Effect>::empty(),
{
}

/// A raised flag is acted on by the step that sees it: a playing driver
/// requests end of stream in that very step, before the next wait.
pub proof fn lemma_raised_flag_requests_drain(driver: DriverView)
    requires
        driver.state is Playing,
    ensures
        count(driver.effects(TerminationTrigger::ExternalSignal), Effect::RequestEndOfStream) == 1,
        driver.observed(TerminationTrigger::ExternalSignal, None).state is Draining,
        driver.observed(TerminationTrigger::ExternalSignal, None).drain_requested,
{
    lemma_step_counts(driver.role, driver.state, TerminationTrigger::ExternalSignal);
}

/// Signal-to-drain latency, counted in turns of the loop. Let the shutdown
/// flag be read at the instants `reads`, in ascending order and no two
/// successive reads further apart than `wait`, the longest that a turn
/// waits on the bus; and let the flag go up at `raised_at`, not before the
/// first read and not after the last. Then some read at or after
/// `raised_at` comes no later than `wait` after it: the answer is the index
/// of such a read. By `lemma_raised_flag_requests_drain` that read's step
/// requests end of stream where the driver still plays.
pub proof fn lemma_flag_is_read_within_one_wait(reads: Seq<int>, wait: int, raised_at: int) -> (at:
    int)
    requires
        0 <= wait,
        reads.len() > 0,
        forall|i: int|
            0 <= i < reads.len() - 1 ==> reads[i] <= #[trigger] reads[i + 1] <= reads[i] + wait,
        reads.first() <= raised_at <= reads.last(),
    ensures
        0 <= at < reads.len(),
        raised_at <= reads[at] <= raised_at + wait,
    decreases reads.len(),
{
    if reads.len() == 1 {
        0
    } else {
        let earlier = reads.drop_last();
        if raised_at <= earlier.last() {
            assert forall|i: int| 0 <= i < earlier.len() - 1 implies earlier[i]
                <= #[trigger] earlier[i + 1] <= earlier[i] + wait by {
                assert(reads[i + 1] == earlier[i + 1]);
            }
            lemma_flag_is_read_within_one_wait(earlier, wait, raised_at)
        } else {
            let last = reads.len() - 1;
            assert(reads[(last - 1) + 1] == reads[last]);
            last
        }
    }
}

} // verus!
