//! The network builder: from a table of operations and a table of links to a
//! wired set of nodes, with a stimulus in front of every entry node and a sink
//! behind every exit node.

use crate::nodes::{AbstractOperation, OperationView, Receiver, Sender};
use std::collections::HashMap;
use vstd::prelude::*;

verus! {

broadcast use vstd::std_specs::hash::group_hash_axioms;

/// One row of the operation table.
#[derive(Copy, Clone, Debug, PartialEq, Eq, Structural)]
pub struct Operation {
    pub id: usize,
    pub initiation_interval: u64,
    pub latency: u64,
}

/// One row of the link table: tokens flow from operation `src` to operation
/// `dst`.
#[derive(Copy, Clone, Debug, PartialEq, Eq, Structural)]
pub struct Link {
    pub src: usize,
    pub dst: usize,
}

/// What stands at one end of a channel.
#[derive(Copy, Clone, Debug, PartialEq, Eq, Structural)]
pub enum Endpoint {
    /// The node built from row `index` of the operation table.
    Node { index: usize },
    /// A source of stimulus tokens.
    Stimulus,
    /// A sink that discards what it receives.
    Sink,
}

/// A channel of the network: one producer, one consumer.
#[derive(Copy, Clone, Debug, PartialEq, Eq, Structural)]
pub struct Channel {
    pub producer: Endpoint,
    pub consumer: Endpoint,
}

/// Why a configuration cannot be wired.
#[derive(Copy, Clone, Debug, PartialEq, Eq, Structural)]
pub enum ConfigError {
    /// Row `row` of the operation table repeats the `id` of an earlier row.
    DuplicateOperation { row: usize, id: usize },
    /// Row `link` of the link table names a `dst` that no operation has.
    UnknownDestination { link: usize, id: usize },
    /// Row `link` of the link table names a `src` that no operation has.
    UnknownSource { link: usize, id: usize },
    /// Place `position` of the entry list names an `id` that no operation has.
    UnknownEntry { position: usize, id: usize },
    /// Place `position` of the exit list names an `id` that no operation has.
    UnknownExit { position: usize, id: usize },
}

/// Some row of `operations` has the identifier `id`.
pub open spec fn known(operations: Seq<Operation>, id: usize) -> bool {
    exists|i: int| 0 <= i < operations.len() && #[trigger] operations[i].id == id
}

/// Row `row` repeats the identifier of an earlier row.
pub open spec fn repeats_earlier(operations: Seq<Operation>, row: int) -> bool {
    exists|i: int| 0 <= i < row && #[trigger] operations[i].id == operations[row].id
}

/// No two rows of `operations` share an identifier.
pub open spec fn distinct_ids(operations: Seq<Operation>) -> bool {
    forall|row: int| 0 <= row < operations.len() ==> !#[trigger] repeats_earlier(operations, row)
}

/// The row of `operations` that has the identifier `id`.
pub open spec fn row_of(operations: Seq<Operation>, id: usize) -> int
    recommends
        known(operations, id),
{
    choose|i: int| 0 <= i < operations.len() && #[trigger] operations[i].id == id
}

/// In a table without repeated identifiers, the row of an identifier is the
/// one row that has it.
pub proof fn lemma_row_of_unique(operations: Seq<Operation>, row: int)
    requires
        distinct_ids(operations),
        0 <= row < operations.len(),
    ensures
        known(operations, operations[row].id),
        row_of(operations, operations[row].id) == row,
{
    let id = operations[row].id;
    let found = row_of(operations, id);
    if found < row {
        assert(repeats_earlier(operations, row));
    } else if row < found {
        assert(repeats_earlier(operations, found));
    }
}

/// The lookup table from identifier to row, or the first row that repeats an
/// earlier identifier.
fn index_rows(operations: &Vec<Operation>) -> (outcome: Result<HashMap<usize, usize>, usize>)
    ensures
        match outcome {
            Ok(rows) => {
                &&& distinct_ids(operations@)
                &&& forall|id: usize| #[trigger] rows@.contains_key(id) <==> known(operations@, id)
                &&& forall|id: usize| #[trigger]
                    rows@.contains_key(id) ==> rows@[id] == row_of(operations@, id)
            },
            Err(row) => {
                &&& row < operations@.len()
                &&& repeats_earlier(operations@, row as int)
                &&& forall|earlier: int|
                    0 <= earlier < row ==> !#[trigger] repeats_earlier(operations@, earlier)
            },
        },
{
    let mut rows: HashMap<usize, usize> = HashMap::new();
    let mut i: usize = 0;
    while i < operations.len()
        invariant
            i <= operations@.len(),
            forall|row: int| 0 <= row < i ==> !#[trigger] repeats_earlier(operations@, row),
            forall|id: usize| #[trigger]
                rows@.contains_key(id) <==> exists|j: int|
                    0 <= j < i && #[trigger] operations@[j].id == id,
            forall|id: usize| #[trigger]
                rows@.contains_key(id) ==> 0 <= rows@[id] < i && operations@[rows@[id] as int].id
                    == id,
        decreases operations@.len() - i,
    {
        let id = operations[i].id;
        if rows.contains_key(&id) {
            return Err(i);
        }
        rows.insert(id, i);
        i += 1;
    }
    proof {
        assert forall|id: usize| #[trigger] rows@.contains_key(id) implies rows@[id] == row_of(
            operations@,
            id,
        ) by {
            lemma_row_of_unique(operations@, rows@[id] as int);
        }
    }
    Ok(rows)
}

/// The read ends that node `node` holds, in port order: one for each channel
/// of `channels` that the node consumes from, in channel order.
pub open spec fn inputs_of(channels: Seq<Channel>, node: usize) -> Seq<Receiver>
    decreases channels.len(),
{
    if channels.len() == 0 {
        Seq::empty()
    } else {
        let before = inputs_of(channels.drop_last(), node);
        if channels.last().consumer == (Endpoint::Node { index: node }) {
            before.push(Receiver { channel: (channels.len() - 1) as usize })
        } else {
            before
        }
    }
}

/// The write ends that node `node` holds, in port order: one for each channel
/// of `channels` that the node produces into, in channel order.
pub open spec fn outputs_of(channels: Seq<Channel>, node: usize) -> Seq<Sender>
    decreases channels.len(),
{
    if channels.len() == 0 {
        Seq::empty()
    } else {
        let before = outputs_of(channels.drop_last(), node);
        if channels.last().producer == (Endpoint::Node { index: node }) {
            before.push(Sender { channel: (channels.len() - 1) as usize })
        } else {
            before
        }
    }
}

/// The views of a list of nodes.
pub open spec fn views_of(nodes: Seq<AbstractOperation>) -> Seq<OperationView> {
    Seq::new(nodes.len(), |i: int| nodes[i]@)
}

/// Every node holds exactly the ends of the channels that name it, in channel
/// order.
pub open spec fn ports_follow_channels(nodes: Seq<OperationView>, channels: Seq<Channel>) -> bool {
    forall|i: int|
        0 <= i < nodes.len() ==> (#[trigger] nodes[i]).inputs == inputs_of(channels, i as usize)
            && nodes[i].outputs == outputs_of(channels, i as usize)
}

/// `end` is a boundary attachment or a node among the first `count`.
pub open spec fn in_range(end: Endpoint, count: nat) -> bool {
    match end {
        Endpoint::Node { index } => index < count,
        _ => true,
    }
}

/// The timing parameters of every node of `after` are those of `before`.
pub open spec fn same_timing(before: Seq<OperationView>, after: Seq<OperationView>) -> bool {
    &&& after.len() == before.len()
    &&& forall|i: int|
        0 <= i < before.len() ==> (#[trigger] after[i]).initiation_interval
            == before[i].initiation_interval && after[i].latency == before[i].latency
}

/// Appends `input` to the input ports of node `index`.
fn attach_input(nodes: &mut Vec<AbstractOperation>, index: usize, input: Receiver)
    requires
        index < old(nodes)@.len(),
    ensures
        final(nodes)@.len() == old(nodes)@.len(),
        forall|i: int|
            0 <= i < old(nodes)@.len() && i != index ==> #[trigger] final(nodes)@[i] == old(
                nodes,
            )@[i],
        final(nodes)@[index as int]@.inputs == old(nodes)@[index as int]@.inputs.push(input),
        final(nodes)@[index as int]@.outputs == old(nodes)@[index as int]@.outputs,
        final(nodes)@[index as int]@.initiation_interval == old(
            nodes,
        )@[index as int]@.initiation_interval,
        final(nodes)@[index as int]@.latency == old(nodes)@[index as int]@.latency,
{
    nodes[index].add_input(input);
}

/// Appends `output` to the output ports of node `index`.
fn attach_output(nodes: &mut Vec<AbstractOperation>, index: usize, output: Sender)
    requires
        index < old(nodes)@.len(),
    ensures
        final(nodes)@.len() == old(nodes)@.len(),
        forall|i: int|
            0 <= i < old(nodes)@.len() && i != index ==> #[trigger] final(nodes)@[i] == old(
                nodes,
            )@[i],
        final(nodes)@[index as int]@.inputs == old(nodes)@[index as int]@.inputs,
        final(nodes)@[index as int]@.outputs == old(nodes)@[index as int]@.outputs.push(output),
        final(nodes)@[index as int]@.initiation_interval == old(
            nodes,
        )@[index as int]@.initiation_interval,
        final(nodes)@[index as int]@.latency == old(nodes)@[index as int]@.latency,
{
    nodes[index].add_output(output);
}

/// Adds `channel` to the network and hands its ends to the nodes it names.
fn connect(nodes: &mut Vec<AbstractOperation>, channels: &mut Vec<Channel>, channel: Channel)
    requires
        ports_follow_channels(views_of(old(nodes)@), old(channels)@),
        in_range(channel.producer, old(nodes)@.len()),
        in_range(channel.consumer, old(nodes)@.len()),
    ensures
        final(channels)@ == old(channels)@.push(channel),
        same_timing(views_of(old(nodes)@), views_of(final(nodes)@)),
        ports_follow_channels(views_of(final(nodes)@), final(channels)@),
{
    let number = channels.len();
    let ghost before = nodes@;
    assert(before.len() <= usize::MAX) by {
        vstd::std_specs::vec::axiom_spec_len(nodes);
    }
    let ghost wires = channels@;
    channels.push(channel);
    assert(channels@.drop_last() == wires);
    if let Endpoint::Node { index } = channel.consumer {
        attach_input(nodes, index, Receiver { channel: number });
    }
    if let Endpoint::Node { index } = channel.producer {
        attach_output(nodes, index, Sender { channel: number });
    }
    assert forall|i: int| 0 <= i < before.len() implies (#[trigger] views_of(nodes@)[i]).inputs
        == inputs_of(channels@, i as usize) && views_of(nodes@)[i].outputs == outputs_of(
        channels@,
        i as usize,
    ) && views_of(nodes@)[i].initiation_interval == views_of(before)[i].initiation_interval
        && views_of(nodes@)[i].latency == views_of(before)[i].latency by {
        assert(views_of(before)[i] == before[i]@);
    }
}

/// Both ends of `link` name an operation.
pub open spec fn link_known(operations: Seq<Operation>, link: Link) -> bool {
    known(operations, link.dst) && known(operations, link.src)
}

/// Every link names operations at both ends.
pub open spec fn links_known(operations: Seq<Operation>, links: Seq<Link>) -> bool {
    forall|k: int| 0 <= k < links.len() ==> link_known(operations, #[trigger] links[k])
}

/// Every identifier of `ids` names an operation.
pub open spec fn all_known(operations: Seq<Operation>, ids: Seq<usize>) -> bool {
    forall|p: int| 0 <= p < ids.len() ==> known(operations, #[trigger] ids[p])
}

/// The configuration can be wired: no identifier is declared twice, and every
/// link, entry and exit names a declared operation.
pub open spec fn valid_config(
    operations: Seq<Operation>,
    links: Seq<Link>,
    entries: Seq<usize>,
    exits: Seq<usize>,
) -> bool {
    &&& distinct_ids(operations)
    &&& links_known(operations, links)
    &&& all_known(operations, entries)
    &&& all_known(operations, exits)
}

/// `error` is the first thing wrong with the configuration. The tables are
/// read in the order operations, links, entries, exits, each from its first
/// row on, and within a link the destination before the source.
pub open spec fn first_fault(
    operations: Seq<Operation>,
    links: Seq<Link>,
    entries: Seq<usize>,
    exits: Seq<usize>,
    error: ConfigError,
) -> bool {
    match error {
        ConfigError::DuplicateOperation { row, id } => {
            &&& row < operations.len()
            &&& operations[row as int].id == id
            &&& repeats_earlier(operations, row as int)
            &&& forall|earlier: int|
                0 <= earlier < row ==> !#[trigger] repeats_earlier(operations, earlier)
        },
        ConfigError::UnknownDestination { link, id } => {
            &&& distinct_ids(operations)
            &&& link < links.len()
            &&& links_known(operations, links.take(link as int))
            &&& links[link as int].dst == id
            &&& !known(operations, id)
        },
        ConfigError::UnknownSource { link, id } => {
            &&& distinct_ids(operations)
            &&& link < links.len()
            &&& links_known(operations, links.take(link as int))
            &&& known(operations, links[link as int].dst)
            &&& links[link as int].src == id
            &&& !known(operations, id)
        },
        ConfigError::UnknownEntry { position, id } => {
            &&& distinct_ids(operations)
            &&& links_known(operations, links)
            &&& position < entries.len()
            &&& all_known(operations, entries.take(position as int))
            &&& entries[position as int] == id
            &&& !known(operations, id)
        },
        ConfigError::UnknownExit { position, id } => {
            &&& distinct_ids(operations)
            &&& links_known(operations, links)
            &&& all_known(operations, entries)
            &&& position < exits.len()
            &&& all_known(operations, exits.take(position as int))
            &&& exits[position as int] == id
            &&& !known(operations, id)
        },
    }
}

/// The node built for the operation with identifier `id`.
pub open spec fn node_of(operations: Seq<Operation>, id: usize) -> Endpoint {
    Endpoint::Node { index: row_of(operations, id) as usize }
}

/// The channels made for the links, one for each row, in row order.
pub open spec fn link_channels(operations: Seq<Operation>, links: Seq<Link>) -> Seq<Channel> {
    Seq::new(
        links.len(),
        |k: int|
            Channel {
                producer: node_of(operations, links[k].src),
                consumer: node_of(operations, links[k].dst),
            },
    )
}

/// The channels made for the entry nodes: a stimulus feeds each.
pub open spec fn entry_channels(operations: Seq<Operation>, entries: Seq<usize>) -> Seq<Channel> {
    Seq::new(
        entries.len(),
        |p: int| Channel { producer: Endpoint::Stimulus, consumer: node_of(operations, entries[p]) },
    )
}

/// The channels made for the exit nodes: each feeds a sink.
pub open spec fn exit_channels(operations: Seq<Operation>, exits: Seq<usize>) -> Seq<Channel> {
    Seq::new(
        exits.len(),
        |p: int| Channel { producer: node_of(operations, exits[p]), consumer: Endpoint::Sink },
    )
}

/// All channels of the network: those of the links, then those of the
/// entries, then those of the exits.
pub open spec fn wiring(
    operations: Seq<Operation>,
    links: Seq<Link>,
    entries: Seq<usize>,
    exits: Seq<usize>,
) -> Seq<Channel> {
    link_channels(operations, links) + entry_channels(operations, entries) + exit_channels(
        operations,
        exits,
    )
}

/// The nodes of the network: one for each row of the operation table, in row
/// order, with the row's timing and the ends of the channels that name it.
pub open spec fn wired_nodes(operations: Seq<Operation>, channels: Seq<Channel>) -> Seq<
    OperationView,
> {
    Seq::new(
        operations.len(),
        |i: int|
            OperationView {
                inputs: inputs_of(channels, i as usize),
                outputs: outputs_of(channels, i as usize),
                initiation_interval: operations[i].initiation_interval,
                latency: operations[i].latency,
            },
    )
}

/// The mathematical content of a [`Network`].
pub struct NetworkView {
    /// The identifier of each node, as its row of the operation table gave it.
    pub ids: Seq<usize>,
    pub nodes: Seq<OperationView>,
    pub channels: Seq<Channel>,
    /// The number of tokens that each stimulus gives.
    pub repeats: usize,
}

/// A wired network: the nodes, in the order of the operation table, and the
/// channels between them and to the boundary. A channel is known by its
/// position in the list; the ports of the nodes name channels by it.
#[derive(Clone, Debug, PartialEq, Eq)]
pub struct Network {
    ids: Vec<usize>,
    nodes: Vec<AbstractOperation>,
    channels: Vec<Channel>,
    repeats: usize,
}

impl View for Network {
    type V = NetworkView;

    closed spec fn view(&self) -> NetworkView {
        NetworkView {
            ids: self.ids@,
            nodes: views_of(self.nodes@),
            channels: self.channels@,
            repeats: self.repeats,
        }
    }
}

/// The network that a valid configuration gives.
pub open spec fn wired(
    operations: Seq<Operation>,
    links: Seq<Link>,
    entries: Seq<usize>,
    exits: Seq<usize>,
    repeats: usize,
) -> NetworkView {
    let channels = wiring(operations, links, entries, exits);
    NetworkView {
        ids: Seq::new(operations.len(), |i: int| operations[i].id),
        nodes: wired_nodes(operations, channels),
        channels,
        repeats,
    }
}

/// One node without ports for each row of the operation table.
fn bare_nodes(operations: &Vec<Operation>) -> (made: (Vec<usize>, Vec<AbstractOperation>))
    ensures
        made.0@ == Seq::new(operations@.len(), |i: int| operations@[i].id),
        views_of(made.1@) == wired_nodes(operations@, Seq::empty()),
{
    let mut ids: Vec<usize> = Vec::new();
    let mut nodes: Vec<AbstractOperation> = Vec::new();
    let mut i: usize = 0;
    while i < operations.len()
        invariant
            i <= operations@.len(),
            ids@ == Seq::new(i as nat, |j: int| operations@[j].id),
            nodes@.len() == i,
            forall|j: int|
                0 <= j < i ==> (#[trigger] nodes@[j])@ == wired_nodes(
                    operations@,
                    Seq::empty(),
                )[j],
        decreases operations@.len() - i,
    {
        let row = operations[i];
        ids.push(row.id);
        nodes.push(AbstractOperation::new(row.initiation_interval, row.latency));
        i += 1;
    }
    (ids, nodes)
}

/// The row that `rows` holds for `id`, if any.
fn find_row(rows: &HashMap<usize, usize>, id: usize) -> (found: Option<usize>)
    ensures
        found == if rows@.contains_key(id) {
            Some(rows@[id])
        } else {
            None
        },
{
    match rows.get(&id) {
        Some(row) => Some(*row),
        None => None,
    }
}

impl Network {
    /// Wires the network that the tables describe. Each link becomes a
    /// channel from its source to its destination, each entry a channel from
    /// a stimulus to the entry node, each exit a channel from the exit node to
    /// a sink; an identifier listed twice among the entries or exits gets an
    /// attachment for each listing. The first thing wrong with the
    /// configuration is reported instead, and nothing is wired.
    pub fn build(
        operations: &Vec<Operation>,
        links: &Vec<Link>,
        entries: &Vec<usize>,
        exits: &Vec<usize>,
        repeats: usize,
    ) -> (outcome: Result<Network, ConfigError>)
        ensures
            outcome is Ok <==> valid_config(operations@, links@, entries@, exits@),
            match outcome {
                Ok(network) => network@ == wired(operations@, links@, entries@, exits@, repeats),
                Err(error) => first_fault(operations@, links@, entries@, exits@, error),
            },
    {
        let rows = match index_rows(operations) {
            Ok(rows) => rows,
            Err(row) => {
                return Err(ConfigError::DuplicateOperation { row, id: operations[row].id });
            },
        };
        let (ids, mut nodes) = bare_nodes(operations);
        let mut channels: Vec<Channel> = Vec::new();
        let ghost ops = operations@;
        let ghost bare = wired_nodes(ops, Seq::empty());
        let mut k: usize = 0;
        while k < links.len()
            invariant
                k <= links@.len(),
                ops == operations@,
                distinct_ids(ops),
                bare == wired_nodes(ops, Seq::empty()),
                forall|id: usize| #[trigger] rows@.contains_key(id) <==> known(ops, id),
                forall|id: usize| #[trigger]
                    rows@.contains_key(id) ==> rows@[id] == row_of(ops, id),
                links_known(ops, links@.take(k as int)),
                channels@ == link_channels(ops, links@).take(k as int),
                same_timing(bare, views_of(nodes@)),
                ports_follow_channels(views_of(nodes@), channels@),
            decreases links@.len() - k,
        {
            let link = links[k];
            let dst = match find_row(&rows, link.dst) {
                Some(row) => row,
                None => {
                    return Err(ConfigError::UnknownDestination { link: k, id: link.dst });
                },
            };
            let src = match find_row(&rows, link.src) {
                Some(row) => row,
                None => {
                    return Err(ConfigError::UnknownSource { link: k, id: link.src });
                },
            };
            connect(
                &mut nodes,
                &mut channels,
                Channel {
                    producer: Endpoint::Node { index: src },
                    consumer: Endpoint::Node { index: dst },
                },
            );
            proof {
                assert(link_channels(ops, links@).take(k + 1) == link_channels(ops, links@).take(
                    k as int,
                ).push(link_channels(ops, links@)[k as int]));
            }
            k += 1;
        }
        assert(links@.take(k as int) == links@);
        let mut p: usize = 0;
        while p < entries.len()
            invariant
                p <= entries@.len(),
                ops == operations@,
                distinct_ids(ops),
                bare == wired_nodes(ops, Seq::empty()),
                forall|id: usize| #[trigger] rows@.contains_key(id) <==> known(ops, id),
                forall|id: usize| #[trigger]
                    rows@.contains_key(id) ==> rows@[id] == row_of(ops, id),
                links_known(ops, links@),
                all_known(ops, entries@.take(p as int)),
                channels@ == link_channels(ops, links@) + entry_channels(ops, entries@).take(
                    p as int,
                ),
                same_timing(bare, views_of(nodes@)),
                ports_follow_channels(views_of(nodes@), channels@),
            decreases entries@.len() - p,
        {
            let id = entries[p];
            let row = match find_row(&rows, id) {
                Some(row) => row,
                None => {
                    return Err(ConfigError::UnknownEntry { position: p, id });
                },
            };
            connect(
                &mut nodes,
                &mut channels,
                Channel { producer: Endpoint::Stimulus, consumer: Endpoint::Node { index: row } },
            );
            proof {
                assert(entry_channels(ops, entries@).take(p + 1) == entry_channels(
                    ops,
                    entries@,
                ).take(p as int).push(entry_channels(ops, entries@)[p as int]));
            }
            p += 1;
        }
        assert(entries@.take(p as int) == entries@);
        let mut q: usize = 0;
        while q < exits.len()
            invariant
                q <= exits@.len(),
                ops == operations@,
                distinct_ids(ops),
                bare == wired_nodes(ops, Seq::empty()),
                forall|id: usize| #[trigger] rows@.contains_key(id) <==> known(ops, id),
                forall|id: usize| #[trigger]
                    rows@.contains_key(id) ==> rows@[id] == row_of(ops, id),
                links_known(ops, links@),
                all_known(ops, entries@),
                all_known(ops, exits@.take(q as int)),
                channels@ == link_channels(ops, links@) + entry_channels(ops, entries@)
                    + exit_channels(ops, exits@).take(q as int),
                same_timing(bare, views_of(nodes@)),
                ports_follow_channels(views_of(nodes@), channels@),
            decreases exits@.len() - q,
        {
            let id = exits[q];
            let row = match find_row(&rows, id) {
                Some(row) => row,
                None => {
                    return Err(ConfigError::UnknownExit { position: q, id });
                },
            };
            connect(
                &mut nodes,
                &mut channels,
                Channel { producer: Endpoint::Node { index: row }, consumer: Endpoint::Sink },
            );
            proof {
                assert(exit_channels(ops, exits@).take(q + 1) == exit_channels(ops, exits@).take(
                    q as int,
                ).push(exit_channels(ops, exits@)[q as int]));
            }
            q += 1;
        }
        assert(exits@.take(q as int) == exits@);
        assert(exit_channels(ops, exits@).take(q as int) == exit_channels(ops, exits@));
        assert(views_of(nodes@) =~= wired_nodes(ops, channels@));
        Ok(Network { ids, nodes, channels, repeats })
    }

    /// The identifier of each node, in the order of the nodes.
    pub fn ids(&self) -> (ids: &Vec<usize>)
        ensures
            ids@ == self@.ids,
    {
        &self.ids
    }

    /// The nodes, in the order of the operation table.
    pub fn nodes(&self) -> (nodes: &Vec<AbstractOperation>)
        ensures
            views_of(nodes@) == self@.nodes,
    {
        &self.nodes
    }

    /// The channels; the ports of the nodes name them by their position here.
    pub fn channels(&self) -> (channels: &Vec<Channel>)
        ensures
            channels@ == self@.channels,
    {
        &self.channels
    }

    /// The number of tokens that each stimulus gives.
    pub fn repeats(&self) -> (repeats: usize)
        ensures
            repeats == self@.repeats,
    {
        self.repeats
    }
}

} // verus!
