//! The pipelined operation: its ports, its timing parameters, and the
//! decisions of one iteration.

use vstd::prelude::*;

verus! {

/// What a token carries: nothing. Only its existence and the time at which it
/// becomes visible matter.
#[derive(Copy, Clone, Debug, Default, PartialEq, Eq, Structural)]
pub struct DoNotCare {}

/// The read end of a channel, named by the channel's position in the network.
#[derive(Copy, Clone, Debug, PartialEq, Eq, Structural)]
pub struct Receiver {
    pub channel: usize,
}

/// The write end of a channel, named by the channel's position in the network.
#[derive(Copy, Clone, Debug, PartialEq, Eq, Structural)]
pub struct Sender {
    pub channel: usize,
}

/// The mathematical content of an [`AbstractOperation`].
pub struct OperationView {
    pub inputs: Seq<Receiver>,
    pub outputs: Seq<Sender>,
    pub initiation_interval: u64,
    pub latency: u64,
}

/// A pipelined operation: an ordered list of input ports, an ordered list of
/// output ports, and the two timing parameters.
#[derive(Clone, Debug, PartialEq, Eq)]
pub struct AbstractOperation {
    inputs: Vec<Receiver>,
    outputs: Vec<Sender>,
    initiation_interval: u64,
    latency: u64,
}

impl View for AbstractOperation {
    type V = OperationView;

    closed spec fn view(&self) -> OperationView {
        OperationView {
            inputs: self.inputs@,
            outputs: self.outputs@,
            initiation_interval: self.initiation_interval,
            latency: self.latency,
        }
    }
}

impl AbstractOperation {
    /// An operation with the given timing parameters and no ports yet.
    pub fn new(initiation_interval: u64, latency: u64) -> (node: Self)
        ensures
            node@.inputs == Seq::<Receiver>::empty(),
            node@.outputs == Seq::<Sender>::empty(),
            node@.initiation_interval == initiation_interval,
            node@.latency == latency,
    {
        Self { inputs: Vec::new(), outputs: Vec::new(), initiation_interval, latency }
    }

    /// Appends `input` as the next input port.
    pub fn add_input(&mut self, input: Receiver)
        ensures
            final(self)@.inputs == old(self)@.inputs.push(input),
            final(self)@.outputs == old(self)@.outputs,
            final(self)@.initiation_interval == old(self)@.initiation_interval,
            final(self)@.latency == old(self)@.latency,
    {
        self.inputs.push(input);
    }

    /// Appends `output` as the next output port.
    pub fn add_output(&mut self, output: Sender)
        ensures
            final(self)@.inputs == old(self)@.inputs,
            final(self)@.outputs == old(self)@.outputs.push(output),
            final(self)@.initiation_interval == old(self)@.initiation_interval,
            final(self)@.latency == old(self)@.latency,
    {
        self.outputs.push(output);
    }

    /// The fewest cycles between the starts of two successive iterations.
    pub fn initiation_interval(&self) -> (cycles: u64)
        ensures
            cycles == self@.initiation_interval,
    {
        self.initiation_interval
    }

    /// The cycles from the start of an iteration to its results being visible.
    pub fn latency(&self) -> (cycles: u64)
        ensures
            cycles == self@.latency,
    {
        self.latency
    }

    /// The input ports, in port order.
    pub fn inputs(&self) -> (ports: &Vec<Receiver>)
        ensures
            ports@ == self@.inputs,
    {
        &self.inputs
    }

    /// The output ports, in port order.
    pub fn outputs(&self) -> (ports: &Vec<Sender>)
        ensures
            ports@ == self@.outputs,
    {
        &self.outputs
    }
}

/// What the runtime found at the head of one input port.
#[derive(Copy, Clone, Debug, PartialEq, Eq, Structural)]
pub enum PortStatus {
    /// A token is visible.
    Available,
    /// The producer has closed the channel and nothing is left in it.
    Closed,
}

/// What the heads of all input ports amount to.
#[derive(Copy, Clone, Debug, PartialEq, Eq, Structural)]
pub enum Readiness {
    /// Every port has a token.
    AllReady,
    /// Every port is closed. A node without input ports is in this case.
    AllClosed,
    /// Some ports are closed while others still have a token.
    Inconsistent,
}

/// Every port of `statuses` is closed.
pub open spec fn all_closed(statuses: Seq<PortStatus>) -> bool {
    forall|i: int| 0 <= i < statuses.len() ==> statuses[i] == PortStatus::Closed
}

/// Every port of `statuses` has a token.
pub open spec fn all_available(statuses: Seq<PortStatus>) -> bool {
    forall|i: int| 0 <= i < statuses.len() ==> statuses[i] == PortStatus::Available
}

/// The readiness that a list of port heads amounts to.
pub open spec fn readiness_of(statuses: Seq<PortStatus>) -> Readiness {
    if all_closed(statuses) {
        Readiness::AllClosed
    } else if all_available(statuses) {
        Readiness::AllReady
    } else {
        Readiness::Inconsistent
    }
}

/// Classifies the heads of the input ports, given in port order.
pub fn readiness(statuses: &Vec<PortStatus>) -> (outcome: Readiness)
    ensures
        outcome == readiness_of(statuses@),
{
    let mut any_available = false;
    let mut any_closed = false;
    let mut i: usize = 0;
    while i < statuses.len()
        invariant
            i <= statuses.len(),
            any_available <==> exists|j: int| 0 <= j < i && statuses@[j] == PortStatus::Available,
            any_closed <==> exists|j: int| 0 <= j < i && statuses@[j] == PortStatus::Closed,
        decreases statuses.len() - i,
    {
        match statuses[i] {
            PortStatus::Available => {
                any_available = true;
            },
            PortStatus::Closed => {
                any_closed = true;
            },
        }
        i += 1;
    }
    if !any_available {
        Readiness::AllClosed
    } else if !any_closed {
        Readiness::AllReady
    } else {
        Readiness::Inconsistent
    }
}

/// Why a node gave up. Every fault is fatal to the run.
#[derive(Copy, Clone, Debug, PartialEq, Eq, Structural)]
pub enum Fault {
    /// Some inputs were closed while others still held a token: the producers
    /// that feed this node did not finish in the same round.
    InconsistentInputs,
    /// The consumer behind output port `port` was gone when a token was
    /// written to it.
    BrokenPipe { port: usize },
    /// A time of this iteration does not fit the clock's 64 bits.
    ClockOverflow,
    /// The runtime reported something that does not answer the action it had
    /// been given.
    OutOfTurn,
}

/// Where a node stands in its cycle.
#[derive(Copy, Clone, Debug, PartialEq, Eq, Structural)]
pub enum Phase {
    /// Waiting for the heads of all inputs to be known.
    AwaitReady,
    /// Every input has a token; they are being removed.
    Consume,
    /// The inputs were removed; the results are being written.
    Produce,
    /// The results were written; the node holds back for its initiation interval.
    Throttle,
    /// Every input was closed and so are the outputs. Final.
    Drained,
    /// A fault was raised. Final.
    Failed,
}

/// The state of a node between two reports of the runtime.
#[derive(Copy, Clone, Debug, PartialEq, Eq, Structural)]
pub struct NodeState {
    pub phase: Phase,
    /// The node's own position in virtual time: the time at which the
    /// iteration under way began or, while waiting, the earliest time at
    /// which the next may begin.
    pub clock: u64,
}

/// What the runtime reports to a node.
#[derive(Copy, Clone, Debug, PartialEq, Eq, Structural)]
pub enum Event {
    /// Answers [`Action::CheckInputs`]: what the heads of the inputs amount
    /// to, and the virtual time `now` at which that was established.
    Inputs { readiness: Readiness, now: u64 },
    /// Answers [`Action::Consume`]: one token was removed from every input.
    Consumed,
    /// Answers [`Action::Produce`]: one token was written to every output.
    Produced,
    /// Answers [`Action::Produce`]: the consumer behind output port `port`
    /// had closed the channel.
    ReceiverGone { port: usize },
    /// Answers [`Action::Throttle`]: the time has passed.
    Throttled,
}

/// What a node asks of the runtime.
#[derive(Copy, Clone, Debug, PartialEq, Eq, Structural)]
pub enum Action {
    /// Look at the head of every input, in port order, waiting until each is
    /// known to hold a token or to be closed.
    CheckInputs,
    /// Remove the head token from every input, in port order.
    Consume,
    /// Append to every output one token that becomes visible at time `stamp`.
    Produce { stamp: u64 },
    /// Let `cycles` units of the node's time pass.
    Throttle { cycles: u64 },
    /// Close every output. The node has finished.
    CloseOutputs,
    /// Stop the whole run: `fault` cannot be recovered from.
    Abort { fault: Fault },
    /// Nothing: the node had finished or failed before.
    Halt,
}

/// The later of two times.
pub open spec fn later(a: u64, b: u64) -> u64 {
    if a >= b {
        a
    } else {
        b
    }
}

/// The state in which a node gives up.
pub open spec fn failed(state: NodeState) -> NodeState {
    NodeState { phase: Phase::Failed, clock: state.clock }
}

/// One transition of a node: the state after `event`, and the action that the
/// runtime has to perform next.
pub open spec fn step_spec(node: OperationView, state: NodeState, event: Event) -> (
    NodeState,
    Action,
) {
    match (state.phase, event) {
        (Phase::Drained, _) | (Phase::Failed, _) => (state, Action::Halt),
        (Phase::AwaitReady, Event::Inputs { readiness: Readiness::AllClosed, now }) => (
            NodeState { phase: Phase::Drained, clock: state.clock },
            Action::CloseOutputs,
        ),
        (Phase::AwaitReady, Event::Inputs { readiness: Readiness::Inconsistent, now }) => (
            failed(state),
            Action::Abort { fault: Fault::InconsistentInputs },
        ),
        (Phase::AwaitReady, Event::Inputs { readiness: Readiness::AllReady, now }) => (
            NodeState { phase: Phase::Consume, clock: later(state.clock, now) },
            Action::Consume,
        ),
        (Phase::Consume, Event::Consumed) => if state.clock + node.latency <= u64::MAX {
            (
                NodeState { phase: Phase::Produce, clock: state.clock },
                Action::Produce { stamp: (state.clock + node.latency) as u64 },
            )
        } else {
            (failed(state), Action::Abort { fault: Fault::ClockOverflow })
        },
        (Phase::Produce, Event::Produced) => (
            NodeState { phase: Phase::Throttle, clock: state.clock },
            Action::Throttle { cycles: node.initiation_interval },
        ),
        (Phase::Produce, Event::ReceiverGone { port }) => (
            failed(state),
            Action::Abort { fault: Fault::BrokenPipe { port } },
        ),
        (Phase::Throttle, Event::Throttled) => if state.clock + node.initiation_interval
            <= u64::MAX {
            (
                NodeState {
                    phase: Phase::AwaitReady,
                    clock: (state.clock + node.initiation_interval) as u64,
                },
                Action::CheckInputs,
            )
        } else {
            (failed(state), Action::Abort { fault: Fault::ClockOverflow })
        },
        _ => (failed(state), Action::Abort { fault: Fault::OutOfTurn }),
    }
}

impl NodeState {
    /// The state of a node that has not begun: it waits for its inputs at
    /// time zero. The first action to perform for it is
    /// [`Action::CheckInputs`].
    pub fn new() -> (state: Self)
        ensures
            state == (NodeState { phase: Phase::AwaitReady, clock: 0 }),
    {
        NodeState { phase: Phase::AwaitReady, clock: 0 }
    }
}

impl AbstractOperation {
    /// Takes the runtime's report `event`, moves `state` on, and returns what
    /// the runtime has to do next.
    pub fn step(&self, state: &mut NodeState, event: Event) -> (action: Action)
        ensures
            (*final(state), action) == step_spec(self@, *old(state), event),
    {
        match state.phase {
            Phase::Drained | Phase::Failed => Action::Halt,
            Phase::AwaitReady => match event {
                Event::Inputs { readiness, now } => match readiness {
                    Readiness::AllClosed => {
                        state.phase = Phase::Drained;
                        Action::CloseOutputs
                    },
                    Readiness::Inconsistent => {
                        state.phase = Phase::Failed;
                        Action::Abort { fault: Fault::InconsistentInputs }
                    },
                    Readiness::AllReady => {
                        if now > state.clock {
                            state.clock = now;
                        }
                        state.phase = Phase::Consume;
                        Action::Consume
                    },
                },
                _ => {
                    state.phase = Phase::Failed;
                    Action::Abort { fault: Fault::OutOfTurn }
                },
            },
            Phase::Consume => match event {
                Event::Consumed => match state.clock.checked_add(self.latency) {
                    Some(stamp) => {
                        state.phase = Phase::Produce;
                        Action::Produce { stamp }
                    },
                    None => {
                        state.phase = Phase::Failed;
                        Action::Abort { fault: Fault::ClockOverflow }
                    },
                },
                _ => {
                    state.phase = Phase::Failed;
                    Action::Abort { fault: Fault::OutOfTurn }
                },
            },
            Phase::Produce => match event {
                Event::Produced => {
                    state.phase = Phase::Throttle;
                    Action::Throttle { cycles: self.initiation_interval }
                },
                Event::ReceiverGone { port } => {
                    state.phase = Phase::Failed;
                    Action::Abort { fault: Fault::BrokenPipe { port } }
                },
                _ => {
                    state.phase = Phase::Failed;
                    Action::Abort { fault: Fault::OutOfTurn }
                },
            },
            Phase::Throttle => match event {
                Event::Throttled => match state.clock.checked_add(self.initiation_interval) {
                    Some(resume) => {
                        state.clock = resume;
                        state.phase = Phase::AwaitReady;
                        Action::CheckInputs
                    },
                    None => {
                        state.phase = Phase::Failed;
                        Action::Abort { fault: Fault::ClockOverflow }
                    },
                },
                _ => {
                    state.phase = Phase::Failed;
                    Action::Abort { fault: Fault::OutOfTurn }
                },
            },
        }
    }
}

} // verus!
