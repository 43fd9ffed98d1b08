//! Whole runs of one node: what it has asked of the runtime after a sequence
//! of reports, and what holds of every such run.

use crate::nodes::{
    later, step_spec, Action, Event, NodeState, OperationView, Phase, Readiness,
};
use vstd::prelude::*;

verus! {

/// The state of a node that started in `state` after the runtime has reported
/// `events`, one after the other.
pub open spec fn run_spec(node: OperationView, state: NodeState, events: Seq<Event>) -> NodeState
    decreases events.len(),
{
    if events.len() == 0 {
        state
    } else {
        step_spec(node, run_spec(node, state, events.drop_last()), events.last()).0
    }
}

/// The action with which the node answers the last of `events`.
pub open spec fn last_action(node: OperationView, state: NodeState, events: Seq<Event>) -> Action
    recommends
        events.len() > 0,
{
    step_spec(node, run_spec(node, state, events.drop_last()), events.last()).1
}

/// The visibility times of the tokens that the node has asked to be written
/// to each of its outputs during the run, in the order of asking.
pub open spec fn stamps(node: OperationView, state: NodeState, events: Seq<Event>) -> Seq<u64>
    decreases events.len(),
{
    if events.len() == 0 {
        Seq::empty()
    } else {
        let before = stamps(node, state, events.drop_last());
        match last_action(node, state, events) {
            Action::Produce { stamp } => before.push(stamp),
            _ => before,
        }
    }
}

/// How many tokens the node has asked to be removed from each of its inputs
/// during the run.
pub open spec fn consumed(node: OperationView, state: NodeState, events: Seq<Event>) -> nat
    decreases events.len(),
{
    if events.len() == 0 {
        0
    } else {
        let before = consumed(node, state, events.drop_last());
        if last_action(node, state, events) == Action::Consume {
            before + 1
        } else {
            before
        }
    }
}

/// How many tokens the node has asked to be written to each of its outputs
/// during the run.
pub open spec fn produced(node: OperationView, state: NodeState, events: Seq<Event>) -> nat {
    stamps(node, state, events).len()
}

/// How many times the node has asked for its outputs to be closed during the
/// run.
pub open spec fn closures(node: OperationView, state: NodeState, events: Seq<Event>) -> nat
    decreases events.len(),
{
    if events.len() == 0 {
        0
    } else {
        let before = closures(node, state, events.drop_last());
        if last_action(node, state, events) == Action::CloseOutputs {
            before + 1
        } else {
            before
        }
    }
}

/// The first report of `events` finds every input ready, at time `now`.
pub open spec fn begins_ready_at(events: Seq<Event>, now: u64) -> bool {
    events.len() > 0 && events[0] == (Event::Inputs { readiness: Readiness::AllReady, now })
}

/// What holds after every run that starts with the node waiting for its
/// inputs. The public laws below are read off this.
proof fn lemma_run_invariant(node: OperationView, state: NodeState, events: Seq<Event>)
    requires
        state.phase == Phase::AwaitReady,
    ensures
        ({
            let end = run_spec(node, state, events);
            let st = stamps(node, state, events);
            let eaten = consumed(node, state, events);
            let ii = node.initiation_interval;
            let lat = node.latency;
            &&& end.clock >= state.clock
            &&& match end.phase {
                Phase::Consume => eaten == st.len() + 1,
                Phase::Failed => st.len() <= eaten <= st.len() + 1,
                _ => eaten == st.len(),
            }
            &&& closures(node, state, events) == if end.phase == Phase::Drained {
                1nat
            } else {
                0nat
            }
            &&& forall|j: int| 0 < j < st.len() ==> #[trigger] st[j] >= st[j - 1] + ii
            &&& st.len() > 0 ==> match end.phase {
                Phase::Produce | Phase::Throttle => st.last() == end.clock + lat,
                Phase::AwaitReady => st.last() + ii == end.clock + lat,
                Phase::Consume => st.last() + ii <= end.clock + lat,
                _ => true,
            }
            &&& st.len() > 0 ==> exists|now: u64| #[trigger]
                begins_ready_at(events, now) && st[0] == later(state.clock, now) + lat
            &&& st.len() == 0 ==> match end.phase {
                Phase::AwaitReady => events.len() == 0,
                Phase::Consume => exists|now: u64| #[trigger]
                    begins_ready_at(events, now) && events.len() == 1 && end.clock == later(
                        state.clock,
                        now,
                    ),
                Phase::Produce | Phase::Throttle => false,
                _ => true,
            }
        }),
    decreases events.len(),
{
    if events.len() > 0 {
        let prefix = events.drop_last();
        lemma_run_invariant(node, state, prefix);
        let before = run_spec(node, state, prefix);
        let st_before = stamps(node, state, prefix);
        if st_before.len() > 0 {
            let now = choose|now: u64| #[trigger]
                begins_ready_at(prefix, now) && st_before[0] == later(state.clock, now)
                    + node.latency;
            assert(begins_ready_at(events, now));
        } else if before.phase == Phase::Consume {
            let now = choose|now: u64| #[trigger]
                begins_ready_at(prefix, now) && prefix.len() == 1 && before.clock == later(
                    state.clock,
                    now,
                );
            assert(begins_ready_at(events, now));
        } else if before.phase == Phase::AwaitReady {
            assert(events.len() == 1);
            match events[0] {
                Event::Inputs { readiness: Readiness::AllReady, now } => {
                    assert(begins_ready_at(events, now));
                },
                _ => {},
            }
        }
    }
}

/// Stamps that lie at least `ii` apart lie at least `i * ii` after the first.
proof fn lemma_spaced_from_first(st: Seq<u64>, ii: u64, i: int)
    requires
        0 <= i < st.len(),
        forall|j: int| 0 < j < st.len() ==> #[trigger] st[j] >= st[j - 1] + ii,
    ensures
        st[i] >= st[0] + i * ii,
    decreases i,
{
    if i > 0 {
        lemma_spaced_from_first(st, ii, i - 1);
        assert((i - 1) * ii + ii == i * ii) by (nonlinear_arith);
    } else {
        assert(i * ii == 0) by (nonlinear_arith)
            requires
                i == 0,
        ;
    }
}

/// Pass-through timing. A node waits for its inputs and first finds them
/// ready at time `now`. Then the token that it writes in its `i`-th iteration,
/// counted from zero, becomes visible no earlier than `now + i * I + L`, where
/// `I` is its initiation interval and `L` its latency.
pub proof fn lemma_pass_through_timing(
    node: OperationView,
    state: NodeState,
    events: Seq<Event>,
    now: u64,
    i: int,
)
    requires
        state.phase == Phase::AwaitReady,
        begins_ready_at(events, now),
        0 <= i < stamps(node, state, events).len(),
    ensures
        stamps(node, state, events)[i] >= now + i * node.initiation_interval + node.latency,
{
    lemma_run_invariant(node, state, events);
    lemma_spaced_from_first(stamps(node, state, events), node.initiation_interval, i);
}

/// After the first readiness check, the inputs were always there when the
/// node came back for them: the runtime never established readiness at a time
/// later than the node's own.
pub open spec fn inputs_never_late(
    node: OperationView,
    state: NodeState,
    events: Seq<Event>,
) -> bool {
    forall|k: int|
        0 < k < events.len() ==> match #[trigger] events[k] {
            Event::Inputs { readiness, now } => now <= run_spec(
                node,
                state,
                events.take(k),
            ).clock,
            _ => true,
        }
}

/// With inputs that are never late, successive stamps lie exactly one
/// initiation interval apart.
proof fn lemma_run_invariant_exact(node: OperationView, state: NodeState, events: Seq<Event>)
    requires
        state.phase == Phase::AwaitReady,
        inputs_never_late(node, state, events),
    ensures
        ({
            let end = run_spec(node, state, events);
            let st = stamps(node, state, events);
            let ii = node.initiation_interval;
            let lat = node.latency;
            &&& forall|j: int| 0 < j < st.len() ==> #[trigger] st[j] == st[j - 1] + ii
            &&& st.len() > 0 && end.phase == Phase::Consume ==> st.last() + ii == end.clock + lat
        }),
    decreases events.len(),
{
    lemma_run_invariant(node, state, events);
    if events.len() > 0 {
        let prefix = events.drop_last();
        assert forall|k: int| 0 < k < prefix.len() implies match #[trigger] prefix[k] {
            Event::Inputs { readiness, now } => now <= run_spec(
                node,
                state,
                prefix.take(k),
            ).clock,
            _ => true,
        } by {
            assert(prefix.take(k) == events.take(k));
        }
        lemma_run_invariant_exact(node, state, prefix);
        lemma_run_invariant(node, state, prefix);
    }
}

/// Stamps that lie exactly `ii` apart lie exactly `i * ii` after the first.
proof fn lemma_evenly_spaced_from_first(st: Seq<u64>, ii: u64, i: int)
    requires
        0 <= i < st.len(),
        forall|j: int| 0 < j < st.len() ==> #[trigger] st[j] == st[j - 1] + ii,
    ensures
        st[i] == st[0] + i * ii,
    decreases i,
{
    if i > 0 {
        lemma_evenly_spaced_from_first(st, ii, i - 1);
        assert((i - 1) * ii + ii == i * ii) by (nonlinear_arith);
    } else {
        assert(i * ii == 0) by (nonlinear_arith)
            requires
                i == 0,
        ;
    }
}

/// Pass-through timing with inputs that are always there. A node whose clock
/// is not ahead of `now` first finds its inputs ready at time `now`, and never
/// has to wait for them afterwards. Then the token that it writes in its
/// `i`-th iteration, counted from zero, becomes visible at `now + i * I + L`
/// exactly.
pub proof fn lemma_pass_through_timing_exact(
    node: OperationView,
    state: NodeState,
    events: Seq<Event>,
    now: u64,
    i: int,
)
    requires
        state.phase == Phase::AwaitReady,
        state.clock <= now,
        begins_ready_at(events, now),
        inputs_never_late(node, state, events),
        0 <= i < stamps(node, state, events).len(),
    ensures
        stamps(node, state, events)[i] == now + i * node.initiation_interval + node.latency,
{
    lemma_run_invariant(node, state, events);
    lemma_run_invariant_exact(node, state, events);
    lemma_evenly_spaced_from_first(stamps(node, state, events), node.initiation_interval, i);
}

/// Throughput. Two successive tokens that a node writes become visible at
/// least one initiation interval apart.
pub proof fn lemma_outputs_spaced(
    node: OperationView,
    state: NodeState,
    events: Seq<Event>,
    i: int,
)
    requires
        state.phase == Phase::AwaitReady,
        0 < i < stamps(node, state, events).len(),
    ensures
        stamps(node, state, events)[i] >= stamps(node, state, events)[i - 1]
            + node.initiation_interval,
{
    lemma_run_invariant(node, state, events);
}

/// Token conservation. In a run that starts with the node waiting for its
/// inputs, the node never has more tokens written to an output than it had
/// removed from an input, and never more than one fewer. Between two
/// iterations, and once it has drained, the two counts are equal.
pub proof fn lemma_token_conservation(node: OperationView, state: NodeState, events: Seq<Event>)
    requires
        state.phase == Phase::AwaitReady,
    ensures
        produced(node, state, events) <= consumed(node, state, events) <= produced(
            node,
            state,
            events,
        ) + 1,
        run_spec(node, state, events).phase == Phase::AwaitReady || run_spec(
            node,
            state,
            events,
        ).phase == Phase::Drained ==> consumed(node, state, events) == produced(
            node,
            state,
            events,
        ),
{
    lemma_run_invariant(node, state, events);
}

/// A node that has drained or failed stays as it is, whatever is reported to
/// it, and asks for nothing more.
pub proof fn lemma_final_phases_absorb(node: OperationView, state: NodeState, events: Seq<Event>)
    requires
        state.phase == Phase::Drained || state.phase == Phase::Failed,
    ensures
        run_spec(node, state, events) == state,
        stamps(node, state, events).len() == 0,
        consumed(node, state, events) == 0,
        closures(node, state, events) == 0,
    decreases events.len(),
{
    if events.len() > 0 {
        lemma_final_phases_absorb(node, state, events.drop_last());
    }
}

/// Graceful termination. A node that waits for its inputs and finds every one
/// of them closed asks for its outputs to be closed, at once. Over the whole
/// run, whatever is reported to it afterwards, it asks so exactly once, and it
/// stays drained.
pub proof fn lemma_graceful_termination(
    node: OperationView,
    state: NodeState,
    events: Seq<Event>,
    now: u64,
    more: Seq<Event>,
)
    requires
        state.phase == Phase::AwaitReady,
        run_spec(node, state, events).phase == Phase::AwaitReady,
    ensures
        ({
            let closing = events.push(Event::Inputs { readiness: Readiness::AllClosed, now });
            &&& last_action(node, state, closing) == Action::CloseOutputs
            &&& run_spec(node, state, closing + more).phase == Phase::Drained
            &&& closures(node, state, closing + more) == 1
        }),
    decreases more.len(),
{
    let closing = events.push(Event::Inputs { readiness: Readiness::AllClosed, now });
    assert(closing.drop_last() == events);
    if more.len() == 0 {
        lemma_run_invariant(node, state, closing);
    } else {
        lemma_graceful_termination(node, state, events, now, more.drop_last());
        assert((closing + more).drop_last() == closing + more.drop_last());
        lemma_run_invariant(node, state, closing + more);
    }
}

/// Outputs are closed at most once in any run that starts with the node
/// waiting for its inputs, and exactly once in those that end drained.
pub proof fn lemma_outputs_closed_once(node: OperationView, state: NodeState, events: Seq<Event>)
    requires
        state.phase == Phase::AwaitReady,
    ensures
        closures(node, state, events) <= 1,
        closures(node, state, events) == 1 <==> run_spec(node, state, events).phase
            == Phase::Drained,
{
    lemma_run_invariant(node, state, events);
}

} // verus!
