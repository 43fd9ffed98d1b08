use dataflow_latency::network::{Channel, ConfigError, Endpoint, Link, Network, Operation};
use dataflow_latency::nodes::{Receiver, Sender};

fn op(id: usize, initiation_interval: u64, latency: u64) -> Operation {
    Operation { id, initiation_interval, latency }
}

fn node(index: usize) -> Endpoint {
    Endpoint::Node { index }
}

#[test]
fn pipeline_of_two_is_wired() {
    let operations = vec![op(0, 1, 3), op(1, 2, 1)];
    let links = vec![Link { src: 0, dst: 1 }];
    let network = Network::build(&operations, &links, &vec![0], &vec![1], 3).unwrap();

    assert_eq!(network.ids(), &vec![0, 1]);
    assert_eq!(network.repeats(), 3);
    assert_eq!(
        network.channels(),
        &vec![
            Channel { producer: node(0), consumer: node(1) },
            Channel { producer: Endpoint::Stimulus, consumer: node(0) },
            Channel { producer: node(1), consumer: Endpoint::Sink },
        ]
    );
    let nodes = network.nodes();
    assert_eq!(nodes.len(), 2);
    assert_eq!(nodes[0].initiation_interval(), 1);
    assert_eq!(nodes[0].latency(), 3);
    assert_eq!(nodes[0].inputs(), &vec![Receiver { channel: 1 }]);
    assert_eq!(nodes[0].outputs(), &vec![Sender { channel: 0 }]);
    assert_eq!(nodes[1].initiation_interval(), 2);
    assert_eq!(nodes[1].latency(), 1);
    assert_eq!(nodes[1].inputs(), &vec![Receiver { channel: 0 }]);
    assert_eq!(nodes[1].outputs(), &vec![Sender { channel: 2 }]);
}

#[test]
fn link_from_undeclared_operation_is_fatal() {
    let operations = vec![op(0, 1, 1), op(1, 1, 1), op(2, 1, 1)];
    let links = vec![Link { src: 5, dst: 2 }];
    assert_eq!(
        Network::build(&operations, &links, &vec![0], &vec![2], 1),
        Err(ConfigError::UnknownSource { link: 0, id: 5 })
    );
}

#[test]
fn link_to_undeclared_operation_is_fatal() {
    let operations = vec![op(0, 1, 1), op(1, 1, 1)];
    let links = vec![Link { src: 0, dst: 1 }, Link { src: 1, dst: 8 }];
    assert_eq!(
        Network::build(&operations, &links, &vec![], &vec![], 1),
        Err(ConfigError::UnknownDestination { link: 1, id: 8 })
    );
}

#[test]
fn destination_is_looked_up_before_source() {
    let operations = vec![op(0, 1, 1)];
    let links = vec![Link { src: 6, dst: 7 }];
    assert_eq!(
        Network::build(&operations, &links, &vec![], &vec![], 1),
        Err(ConfigError::UnknownDestination { link: 0, id: 7 })
    );
}

#[test]
fn first_bad_link_is_reported() {
    let operations = vec![op(0, 1, 1), op(1, 1, 1)];
    let links =
        vec![Link { src: 0, dst: 1 }, Link { src: 3, dst: 1 }, Link { src: 0, dst: 4 }];
    assert_eq!(
        Network::build(&operations, &links, &vec![9], &vec![9], 1),
        Err(ConfigError::UnknownSource { link: 1, id: 3 })
    );
}

#[test]
fn undeclared_entry_is_fatal() {
    let operations = vec![op(0, 1, 1), op(1, 1, 1)];
    let links = vec![Link { src: 0, dst: 1 }];
    assert_eq!(
        Network::build(&operations, &links, &vec![0, 4], &vec![7], 1),
        Err(ConfigError::UnknownEntry { position: 1, id: 4 })
    );
}

#[test]
fn undeclared_exit_is_fatal() {
    let operations = vec![op(0, 1, 1), op(1, 1, 1)];
    let links = vec![Link { src: 0, dst: 1 }];
    assert_eq!(
        Network::build(&operations, &links, &vec![0], &vec![1, 1, 2], 1),
        Err(ConfigError::UnknownExit { position: 2, id: 2 })
    );
}

#[test]
fn repeated_identifier_is_fatal() {
    let operations = vec![op(3, 1, 1), op(4, 1, 1), op(3, 2, 2), op(4, 5, 5)];
    assert_eq!(
        Network::build(&operations, &vec![], &vec![], &vec![], 1),
        Err(ConfigError::DuplicateOperation { row: 2, id: 3 })
    );
}

#[test]
fn repeated_identifier_comes_before_any_link() {
    let operations = vec![op(1, 1, 1), op(1, 1, 1)];
    let links = vec![Link { src: 8, dst: 9 }];
    assert_eq!(
        Network::build(&operations, &links, &vec![], &vec![], 1),
        Err(ConfigError::DuplicateOperation { row: 1, id: 1 })
    );
}

#[test]
fn empty_tables_give_an_empty_network() {
    let network = Network::build(&vec![], &vec![], &vec![], &vec![], 0).unwrap();
    assert!(network.ids().is_empty());
    assert!(network.nodes().is_empty());
    assert!(network.channels().is_empty());
    assert_eq!(network.repeats(), 0);
}

#[test]
fn entry_on_empty_table_is_fatal() {
    assert_eq!(
        Network::build(&vec![], &vec![], &vec![0], &vec![], 1),
        Err(ConfigError::UnknownEntry { position: 0, id: 0 })
    );
}

#[test]
fn identifiers_need_not_be_row_numbers() {
    let operations = vec![op(40, 1, 1), op(7, 2, 2), op(19, 3, 3)];
    let links = vec![Link { src: 19, dst: 7 }, Link { src: 40, dst: 19 }];
    let network = Network::build(&operations, &links, &vec![40], &vec![7], 2).unwrap();
    assert_eq!(network.ids(), &vec![40, 7, 19]);
    assert_eq!(
        network.channels(),
        &vec![
            Channel { producer: node(2), consumer: node(1) },
            Channel { producer: node(0), consumer: node(2) },
            Channel { producer: Endpoint::Stimulus, consumer: node(0) },
            Channel { producer: node(1), consumer: Endpoint::Sink },
        ]
    );
    let nodes = network.nodes();
    assert_eq!(nodes[0].inputs(), &vec![Receiver { channel: 2 }]);
    assert_eq!(nodes[0].outputs(), &vec![Sender { channel: 1 }]);
    assert_eq!(nodes[1].inputs(), &vec![Receiver { channel: 0 }]);
    assert_eq!(nodes[1].outputs(), &vec![Sender { channel: 3 }]);
    assert_eq!(nodes[2].inputs(), &vec![Receiver { channel: 1 }]);
    assert_eq!(nodes[2].outputs(), &vec![Sender { channel: 0 }]);
    assert_eq!(nodes[2].initiation_interval(), 3);
    assert_eq!(nodes[2].latency(), 3);
}

#[test]
fn ports_follow_link_order() {
    let operations = vec![op(0, 1, 1), op(1, 1, 1), op(2, 1, 1)];
    let links = vec![
        Link { src: 1, dst: 2 },
        Link { src: 0, dst: 2 },
        Link { src: 0, dst: 1 },
        Link { src: 0, dst: 2 },
    ];
    let network = Network::build(&operations, &links, &vec![0], &vec![2], 1).unwrap();
    let nodes = network.nodes();
    assert_eq!(
        nodes[2].inputs(),
        &vec![Receiver { channel: 0 }, Receiver { channel: 1 }, Receiver { channel: 3 }]
    );
    assert_eq!(nodes[2].outputs(), &vec![Sender { channel: 5 }]);
    assert_eq!(
        nodes[0].outputs(),
        &vec![Sender { channel: 1 }, Sender { channel: 2 }, Sender { channel: 3 }]
    );
    assert_eq!(nodes[0].inputs(), &vec![Receiver { channel: 4 }]);
    assert_eq!(nodes[1].inputs(), &vec![Receiver { channel: 2 }]);
    assert_eq!(nodes[1].outputs(), &vec![Sender { channel: 0 }]);
}

#[test]
fn port_counts_match_the_tables() {
    let operations = vec![op(10, 1, 1), op(11, 1, 1), op(12, 1, 1), op(13, 1, 1)];
    let links = vec![
        Link { src: 10, dst: 11 },
        Link { src: 10, dst: 12 },
        Link { src: 11, dst: 13 },
        Link { src: 12, dst: 13 },
        Link { src: 10, dst: 13 },
    ];
    let entries = vec![10, 11];
    let exits = vec![13];
    let network = Network::build(&operations, &links, &entries, &exits, 4).unwrap();
    for (row, made) in network.nodes().iter().enumerate() {
        let id = operations[row].id;
        let inbound = links.iter().filter(|link| link.dst == id).count();
        let outbound = links.iter().filter(|link| link.src == id).count();
        let entered = entries.iter().filter(|entry| **entry == id).count();
        let left = exits.iter().filter(|exit| **exit == id).count();
        assert_eq!(made.inputs().len(), inbound + entered);
        assert_eq!(made.outputs().len(), outbound + left);
    }
    assert_eq!(network.channels().len(), 8);
}

#[test]
fn every_channel_end_is_held_by_one_port() {
    let operations = vec![op(0, 1, 1), op(1, 1, 1), op(2, 1, 1)];
    let links = vec![Link { src: 0, dst: 1 }, Link { src: 0, dst: 2 }, Link { src: 1, dst: 2 }];
    let network = Network::build(&operations, &links, &vec![0], &vec![2], 1).unwrap();
    for (number, channel) in network.channels().iter().enumerate() {
        let readers: usize = network
            .nodes()
            .iter()
            .map(|made| made.inputs().iter().filter(|port| port.channel == number).count())
            .sum();
        let writers: usize = network
            .nodes()
            .iter()
            .map(|made| made.outputs().iter().filter(|port| port.channel == number).count())
            .sum();
        assert_eq!(readers, if channel.consumer == Endpoint::Sink { 0 } else { 1 });
        assert_eq!(writers, if channel.producer == Endpoint::Stimulus { 0 } else { 1 });
        if let Endpoint::Node { index } = channel.consumer {
            assert!(network.nodes()[index].inputs().contains(&Receiver { channel: number }));
        }
        if let Endpoint::Node { index } = channel.producer {
            assert!(network.nodes()[index].outputs().contains(&Sender { channel: number }));
        }
    }
}

#[test]
fn operation_listed_twice_gets_two_attachments() {
    let operations = vec![op(0, 1, 1)];
    let network = Network::build(&operations, &vec![], &vec![0, 0], &vec![0, 0, 0], 1).unwrap();
    assert_eq!(network.channels().len(), 5);
    assert_eq!(
        network.nodes()[0].inputs(),
        &vec![Receiver { channel: 0 }, Receiver { channel: 1 }]
    );
    assert_eq!(
        network.nodes()[0].outputs(),
        &vec![Sender { channel: 2 }, Sender { channel: 3 }, Sender { channel: 4 }]
    );
}

#[test]
fn self_link_gives_a_node_both_ends() {
    let operations = vec![op(5, 1, 1)];
    let links = vec![Link { src: 5, dst: 5 }];
    let network = Network::build(&operations, &links, &vec![], &vec![], 1).unwrap();
    assert_eq!(network.channels(), &vec![Channel { producer: node(0), consumer: node(0) }]);
    assert_eq!(network.nodes()[0].inputs(), &vec![Receiver { channel: 0 }]);
    assert_eq!(network.nodes()[0].outputs(), &vec![Sender { channel: 0 }]);
}
