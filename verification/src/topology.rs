//! What holds of every wired network: each channel joins what it should, and
//! each node has as many ports as the tables call for.

use crate::network::{
    all_known, distinct_ids, entry_channels, exit_channels, in_range, inputs_of, known,
    lemma_row_of_unique, link_channels, links_known, node_of, outputs_of, ports_follow_channels,
    row_of, valid_config, wired, wiring, Channel, Endpoint, Link, NetworkView, Operation,
};
use crate::nodes::{Receiver, Sender};
use vstd::prelude::*;

verus! {

/// How many of `links` lead into the operation `id`.
pub open spec fn inbound(links: Seq<Link>, id: usize) -> nat
    decreases links.len(),
{
    if links.len() == 0 {
        0
    } else {
        inbound(links.drop_last(), id) + if links.last().dst == id {
            1nat
        } else {
            0nat
        }
    }
}

/// How many of `links` lead out of the operation `id`.
pub open spec fn outbound(links: Seq<Link>, id: usize) -> nat
    decreases links.len(),
{
    if links.len() == 0 {
        0
    } else {
        outbound(links.drop_last(), id) + if links.last().src == id {
            1nat
        } else {
            0nat
        }
    }
}

/// How many times `id` is listed in `ids`.
pub open spec fn listings(ids: Seq<usize>, id: usize) -> nat
    decreases ids.len(),
{
    if ids.len() == 0 {
        0
    } else {
        listings(ids.drop_last(), id) + if ids.last() == id {
            1nat
        } else {
            0nat
        }
    }
}

/// How many of `channels` node `node` consumes from.
spec fn consumed_by(channels: Seq<Channel>, node: usize) -> nat
    decreases channels.len(),
{
    if channels.len() == 0 {
        0
    } else {
        consumed_by(channels.drop_last(), node) + if channels.last().consumer == (Endpoint::Node {
            index: node,
        }) {
            1nat
        } else {
            0nat
        }
    }
}

/// How many of `channels` node `node` produces into.
spec fn produced_by(channels: Seq<Channel>, node: usize) -> nat
    decreases channels.len(),
{
    if channels.len() == 0 {
        0
    } else {
        produced_by(channels.drop_last(), node) + if channels.last().producer == (Endpoint::Node {
            index: node,
        }) {
            1nat
        } else {
            0nat
        }
    }
}

proof fn lemma_ports_count_channels(channels: Seq<Channel>, node: usize)
    ensures
        inputs_of(channels, node).len() == consumed_by(channels, node),
        outputs_of(channels, node).len() == produced_by(channels, node),
    decreases channels.len(),
{
    if channels.len() > 0 {
        lemma_ports_count_channels(channels.drop_last(), node);
    }
}

proof fn lemma_counts_add(a: Seq<Channel>, b: Seq<Channel>, node: usize)
    ensures
        consumed_by(a + b, node) == consumed_by(a, node) + consumed_by(b, node),
        produced_by(a + b, node) == produced_by(a, node) + produced_by(b, node),
    decreases b.len(),
{
    if b.len() == 0 {
    } else {
        lemma_counts_add(a, b.drop_last(), node);
        assert((a + b).drop_last() == a + b.drop_last());
    }
}

/// In a table without repeated identifiers, a declared identifier belongs to
/// row `row` exactly if its node is the one built from that row.
proof fn lemma_node_of_row(operations: Seq<Operation>, id: usize, row: int)
    requires
        distinct_ids(operations),
        known(operations, id),
        0 <= row < operations.len(),
        operations.len() <= usize::MAX,
    ensures
        node_of(operations, id) == (Endpoint::Node { index: row as usize }) <==> id
            == operations[row].id,
        in_range(node_of(operations, id), operations.len()),
{
    let found = row_of(operations, id);
    lemma_row_of_unique(operations, found);
    lemma_row_of_unique(operations, row);
}

proof fn lemma_link_counts(operations: Seq<Operation>, links: Seq<Link>, row: int)
    requires
        distinct_ids(operations),
        links_known(operations, links),
        0 <= row < operations.len(),
        operations.len() <= usize::MAX,
    ensures
        consumed_by(link_channels(operations, links), row as usize) == inbound(
            links,
            operations[row].id,
        ),
        produced_by(link_channels(operations, links), row as usize) == outbound(
            links,
            operations[row].id,
        ),
    decreases links.len(),
{
    if links.len() > 0 {
        let rest = links.drop_last();
        lemma_link_counts(operations, rest, row);
        assert(link_channels(operations, links).drop_last() == link_channels(operations, rest));
        let last = links[links.len() - 1];
        lemma_node_of_row(operations, last.dst, row);
        lemma_node_of_row(operations, last.src, row);
    }
}

proof fn lemma_entry_counts(operations: Seq<Operation>, entries: Seq<usize>, row: int)
    requires
        distinct_ids(operations),
        all_known(operations, entries),
        0 <= row < operations.len(),
        operations.len() <= usize::MAX,
    ensures
        consumed_by(entry_channels(operations, entries), row as usize) == listings(
            entries,
            operations[row].id,
        ),
        produced_by(entry_channels(operations, entries), row as usize) == 0,
    decreases entries.len(),
{
    if entries.len() > 0 {
        let rest = entries.drop_last();
        lemma_entry_counts(operations, rest, row);
        assert(entry_channels(operations, entries).drop_last() == entry_channels(operations, rest));
        lemma_node_of_row(operations, entries[entries.len() - 1], row);
    }
}

proof fn lemma_exit_counts(operations: Seq<Operation>, exits: Seq<usize>, row: int)
    requires
        distinct_ids(operations),
        all_known(operations, exits),
        0 <= row < operations.len(),
        operations.len() <= usize::MAX,
    ensures
        consumed_by(exit_channels(operations, exits), row as usize) == 0,
        produced_by(exit_channels(operations, exits), row as usize) == listings(
            exits,
            operations[row].id,
        ),
    decreases exits.len(),
{
    if exits.len() > 0 {
        let rest = exits.drop_last();
        lemma_exit_counts(operations, rest, row);
        assert(exit_channels(operations, exits).drop_last() == exit_channels(operations, rest));
        lemma_node_of_row(operations, exits[exits.len() - 1], row);
    }
}

/// Port counts. In the network wired from a valid configuration, the node of
/// each row has one input port for each link that leads into its operation
/// and one for each time the operation is listed as an entry; it has one
/// output port for each link that leads out of it and one for each time it is
/// listed as an exit.
pub proof fn lemma_port_counts(
    operations: Seq<Operation>,
    links: Seq<Link>,
    entries: Seq<usize>,
    exits: Seq<usize>,
    repeats: usize,
    row: int,
)
    requires
        valid_config(operations, links, entries, exits),
        0 <= row < operations.len(),
        operations.len() <= usize::MAX,
    ensures
        wired(operations, links, entries, exits, repeats).nodes[row].inputs.len() == inbound(
            links,
            operations[row].id,
        ) + listings(entries, operations[row].id),
        wired(operations, links, entries, exits, repeats).nodes[row].outputs.len() == outbound(
            links,
            operations[row].id,
        ) + listings(exits, operations[row].id),
{
    let node = row as usize;
    let a = link_channels(operations, links);
    let b = entry_channels(operations, entries);
    let c = exit_channels(operations, exits);
    lemma_ports_count_channels(wiring(operations, links, entries, exits), node);
    lemma_counts_add(a + b, c, node);
    lemma_counts_add(a, b, node);
    lemma_link_counts(operations, links, row);
    lemma_entry_counts(operations, entries, row);
    lemma_exit_counts(operations, exits, row);
}

/// Ports and channels. The input ports of a node name, in rising order and
/// each once, exactly the channels that the node consumes from; its output
/// ports, exactly those that it produces into. So no two ports of the network
/// share an end of a channel, and port order is channel order.
pub proof fn lemma_ports_name_channels(channels: Seq<Channel>, node: usize)
    requires
        channels.len() <= usize::MAX,
    ensures
        forall|p: int|
            0 <= p < inputs_of(channels, node).len() ==> {
                let k = (#[trigger] inputs_of(channels, node)[p]).channel;
                k < channels.len() && channels[k as int].consumer == (Endpoint::Node {
                    index: node,
                })
            },
        forall|p: int, q: int|
            0 <= p < q < inputs_of(channels, node).len() ==> (#[trigger] inputs_of(
                channels,
                node,
            )[p]).channel < (#[trigger] inputs_of(channels, node)[q]).channel,
        forall|k: int|
            0 <= k < channels.len() && (#[trigger] channels[k]).consumer == (Endpoint::Node {
                index: node,
            }) ==> inputs_of(channels, node).contains(Receiver { channel: k as usize }),
        forall|p: int|
            0 <= p < outputs_of(channels, node).len() ==> {
                let k = (#[trigger] outputs_of(channels, node)[p]).channel;
                k < channels.len() && channels[k as int].producer == (Endpoint::Node {
                    index: node,
                })
            },
        forall|p: int, q: int|
            0 <= p < q < outputs_of(channels, node).len() ==> (#[trigger] outputs_of(
                channels,
                node,
            )[p]).channel < (#[trigger] outputs_of(channels, node)[q]).channel,
        forall|k: int|
            0 <= k < channels.len() && (#[trigger] channels[k]).producer == (Endpoint::Node {
                index: node,
            }) ==> outputs_of(channels, node).contains(Sender { channel: k as usize }),
    decreases channels.len(),
{
    if channels.len() > 0 {
        let rest = channels.drop_last();
        lemma_ports_name_channels(rest, node);
        let ins = inputs_of(channels, node);
        let outs = outputs_of(channels, node);
        let ins_rest = inputs_of(rest, node);
        let outs_rest = outputs_of(rest, node);
        assert forall|k: int|
            0 <= k < channels.len() && (#[trigger] channels[k]).consumer == (Endpoint::Node {
                index: node,
            }) implies ins.contains(Receiver { channel: k as usize }) by {
            if k < rest.len() {
                assert(rest[k] == channels[k]);
                let p = choose|p: int|
                    0 <= p < ins_rest.len() && ins_rest[p] == (Receiver { channel: k as usize });
                assert(ins[p] == ins_rest[p]);
            } else {
                assert(ins[ins.len() - 1] == (Receiver { channel: k as usize }));
            }
        }
        assert forall|k: int|
            0 <= k < channels.len() && (#[trigger] channels[k]).producer == (Endpoint::Node {
                index: node,
            }) implies outs.contains(Sender { channel: k as usize }) by {
            if k < rest.len() {
                assert(rest[k] == channels[k]);
                let p = choose|p: int|
                    0 <= p < outs_rest.len() && outs_rest[p] == (Sender { channel: k as usize });
                assert(outs[p] == outs_rest[p]);
            } else {
                assert(outs[outs.len() - 1] == (Sender { channel: k as usize }));
            }
        }
    }
}

/// What holds of a network however it was configured.
pub open spec fn well_formed(network: NetworkView) -> bool {
    &&& network.ids.len() == network.nodes.len()
    &&& forall|i: int, j: int|
        0 <= i < j < network.ids.len() ==> network.ids[i] != network.ids[j]
    &&& ports_follow_channels(network.nodes, network.channels)
    &&& forall|k: int|
        0 <= k < network.channels.len() ==> {
            let channel = #[trigger] network.channels[k];
            &&& in_range(channel.producer, network.nodes.len())
            &&& in_range(channel.consumer, network.nodes.len())
            &&& channel.producer != Endpoint::Sink
            &&& channel.consumer != Endpoint::Stimulus
        }
}

/// The network wired from a valid configuration is well formed: one node for
/// each identifier, every channel from a stimulus or a node to a node or a
/// sink, and every port on the channel that names it.
pub proof fn lemma_wired_is_well_formed(
    operations: Seq<Operation>,
    links: Seq<Link>,
    entries: Seq<usize>,
    exits: Seq<usize>,
    repeats: usize,
)
    requires
        valid_config(operations, links, entries, exits),
        operations.len() <= usize::MAX,
    ensures
        well_formed(wired(operations, links, entries, exits, repeats)),
{
    let network = wired(operations, links, entries, exits, repeats);
    assert forall|i: int, j: int| 0 <= i < j < network.ids.len() implies network.ids[i]
        != network.ids[j] by {
        if operations[i].id == operations[j].id {
            lemma_row_of_unique(operations, i);
            lemma_row_of_unique(operations, j);
        }
    }
    assert forall|k: int| 0 <= k < network.channels.len() implies {
        let channel = #[trigger] network.channels[k];
        &&& in_range(channel.producer, network.nodes.len())
        &&& in_range(channel.consumer, network.nodes.len())
        &&& channel.producer != Endpoint::Sink
        &&& channel.consumer != Endpoint::Stimulus
    } by {
        let l = links.len() as int;
        let e = entries.len() as int;
        if k < l {
            lemma_node_of_row(operations, links[k].dst, row_of(operations, links[k].dst));
            lemma_node_of_row(operations, links[k].src, row_of(operations, links[k].src));
        } else if k < l + e {
            lemma_node_of_row(operations, entries[k - l], row_of(operations, entries[k - l]));
        } else {
            lemma_node_of_row(
                operations,
                exits[k - l - e],
                row_of(operations, exits[k - l - e]),
            );
        }
    }
}

} // verus!
