use dataflow_latency::network::{Endpoint, Link, Network, Operation};
use dataflow_latency::nodes::{
    readiness, AbstractOperation, Action, Event, NodeState, Phase, PortStatus,
};
use dataflow_latency::stimulus::Stimulus;
use std::collections::VecDeque;

/// A channel of the stand-in runtime: the visibility times of the tokens in
/// it, and whether its producer has closed it.
struct Wire {
    tokens: VecDeque<u64>,
    closed: bool,
}

/// What one node did in a run of the stand-in runtime.
struct Record {
    /// When each iteration began.
    started: Vec<u64>,
    /// The stamp of the token written in each iteration.
    stamps: Vec<u64>,
    /// How often the node asked for its outputs to be closed.
    closures: usize,
    end: NodeState,
}

/// Runs `node` to its end against `wires`. Every channel that the node reads
/// must have been closed by its producer before.
fn run_node(node: &AbstractOperation, wires: &mut Vec<Wire>) -> Record {
    let mut state = NodeState::new();
    let mut record =
        Record { started: Vec::new(), stamps: Vec::new(), closures: 0, end: state };
    let mut action = Action::CheckInputs;
    loop {
        let event = match action {
            Action::CheckInputs => {
                let mut heads = Vec::new();
                let mut now = state.clock;
                for port in node.inputs() {
                    let wire = &wires[port.channel];
                    assert!(wire.closed);
                    match wire.tokens.front() {
                        Some(visible) => {
                            heads.push(PortStatus::Available);
                            now = now.max(*visible);
                        }
                        None => heads.push(PortStatus::Closed),
                    }
                }
                Event::Inputs { readiness: readiness(&heads), now }
            }
            Action::Consume => {
                for port in node.inputs() {
                    wires[port.channel].tokens.pop_front().unwrap();
                }
                record.started.push(state.clock);
                Event::Consumed
            }
            Action::Produce { stamp } => {
                for port in node.outputs() {
                    wires[port.channel].tokens.push_back(stamp);
                }
                record.stamps.push(stamp);
                Event::Produced
            }
            Action::Throttle { cycles } => {
                assert_eq!(cycles, node.initiation_interval());
                Event::Throttled
            }
            Action::CloseOutputs => {
                for port in node.outputs() {
                    assert!(!wires[port.channel].closed);
                    wires[port.channel].closed = true;
                }
                record.closures += 1;
                break;
            }
            other => panic!("the node stopped with {:?}", other),
        };
        action = node.step(&mut state, event);
    }
    record.end = state;
    record
}

#[test]
fn two_stage_pipeline_with_three_tokens() {
    let operations = vec![
        Operation { id: 0, initiation_interval: 1, latency: 3 },
        Operation { id: 1, initiation_interval: 2, latency: 1 },
    ];
    let links = vec![Link { src: 0, dst: 1 }];
    let network = Network::build(&operations, &links, &vec![0], &vec![1], 3).unwrap();

    let mut wires: Vec<Wire> = network
        .channels()
        .iter()
        .map(|_| Wire { tokens: VecDeque::new(), closed: false })
        .collect();

    // Every stimulus gives its tokens, all visible from time zero, and closes.
    for (number, channel) in network.channels().iter().enumerate() {
        if channel.producer == Endpoint::Stimulus {
            let mut source = Stimulus::new(network.repeats());
            while source.emit().is_some() {
                wires[number].tokens.push_back(0);
            }
            wires[number].closed = true;
        }
    }
    assert_eq!(wires[1].tokens.len(), 3);

    let first = run_node(&network.nodes()[0], &mut wires);
    // One token a cycle, each out three cycles after it was taken.
    assert_eq!(first.started, vec![0, 1, 2]);
    assert_eq!(first.stamps, vec![3, 4, 5]);
    assert_eq!(first.closures, 1);
    assert_eq!(first.end.phase, Phase::Drained);
    assert!(wires[0].closed);
    assert!(wires[1].tokens.is_empty());

    let second = run_node(&network.nodes()[1], &mut wires);
    // It takes each token of the first node, never sooner than two cycles
    // after it began the iteration before.
    assert_eq!(second.started, vec![3, 5, 7]);
    assert_eq!(second.stamps, vec![4, 6, 8]);
    assert_eq!(second.closures, 1);
    assert_eq!(second.end.phase, Phase::Drained);
    for pair in second.stamps.windows(2) {
        assert!(pair[1] >= pair[0] + 2);
    }

    // The sink finds three tokens and then the closure; the last of them
    // becomes visible at the time the run is over.
    assert!(wires[0].tokens.is_empty());
    assert_eq!(wires[2].tokens, VecDeque::from(vec![4, 6, 8]));
    assert!(wires[2].closed);
    assert_eq!(wires[2].tokens.back(), Some(&8));
}

#[test]
fn pipeline_without_stimulus_tokens_only_closes() {
    let operations = vec![
        Operation { id: 0, initiation_interval: 1, latency: 3 },
        Operation { id: 1, initiation_interval: 2, latency: 1 },
    ];
    let links = vec![Link { src: 0, dst: 1 }];
    let network = Network::build(&operations, &links, &vec![0], &vec![1], 0).unwrap();
    let mut wires: Vec<Wire> = network
        .channels()
        .iter()
        .map(|_| Wire { tokens: VecDeque::new(), closed: false })
        .collect();
    let mut source = Stimulus::new(network.repeats());
    assert!(source.emit().is_none());
    wires[1].closed = true;

    let first = run_node(&network.nodes()[0], &mut wires);
    let second = run_node(&network.nodes()[1], &mut wires);
    assert!(first.stamps.is_empty());
    assert!(second.stamps.is_empty());
    assert_eq!(first.closures + second.closures, 2);
    assert!(wires.iter().all(|wire| wire.closed && wire.tokens.is_empty()));
}

#[test]
fn join_fires_when_both_branches_have_a_token() {
    // 0 feeds 1 and 2; both feed 3.
    let operations = vec![
        Operation { id: 0, initiation_interval: 1, latency: 1 },
        Operation { id: 1, initiation_interval: 1, latency: 10 },
        Operation { id: 2, initiation_interval: 4, latency: 2 },
        Operation { id: 3, initiation_interval: 1, latency: 1 },
    ];
    let links = vec![
        Link { src: 0, dst: 1 },
        Link { src: 0, dst: 2 },
        Link { src: 1, dst: 3 },
        Link { src: 2, dst: 3 },
    ];
    let network = Network::build(&operations, &links, &vec![0], &vec![3], 2).unwrap();
    let mut wires: Vec<Wire> = network
        .channels()
        .iter()
        .map(|_| Wire { tokens: VecDeque::new(), closed: false })
        .collect();
    let mut source = Stimulus::new(network.repeats());
    while source.emit().is_some() {
        wires[4].tokens.push_back(0);
    }
    wires[4].closed = true;

    let records: Vec<Record> =
        network.nodes().iter().map(|made| run_node(made, &mut wires)).collect();
    assert_eq!(records[0].stamps, vec![1, 2]);
    assert_eq!(records[1].stamps, vec![11, 12]);
    assert_eq!(records[2].stamps, vec![3, 7]);
    // The join waits for the slower branch each time.
    assert_eq!(records[3].started, vec![11, 12]);
    assert_eq!(records[3].stamps, vec![12, 13]);
    assert!(records.iter().all(|record| record.closures == 1));
    assert_eq!(wires[5].tokens, VecDeque::from(vec![12, 13]));
}
