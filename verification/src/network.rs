//! How the network is set up.

use vstd::prelude::*;

verus! {

/// The file, in the directory of the server, in which known addresses are kept.
pub const KNOWN_ADDRESSES_FILE: &'static str = "known_addresses.bin";

/// How many known peers are kept.
pub const KNOWN_PEERS_CACHE_SIZE: u32 = 100;

/// The address of a node, with the identity of the node if the address ends in one.
pub struct NodeAddress {
    pub address: String,
    pub peer_id: Option<String>,
}

/// How to take part in the network.
pub struct NetworkArgs {
    pub listen_on: Vec<String>,
    pub bootstrap_nodes: Vec<NodeAddress>,
    pub allow_private_ips: bool,
    pub reserved_peers: Vec<String>,
    pub in_connections: u32,
    pub out_connections: u32,
    pub pending_in_connections: u32,
    pub pending_out_connections: u32,
    pub external_addresses: Vec<String>,
}

/// How a node takes part in the table of keys and peers.
#[derive(Clone, Copy, Debug, PartialEq, Eq, Structural)]
pub enum KademliaMode {
    /// As a client or a server, as it turns out.
    Dynamic,
}

/// What the network is set up with.
pub struct NetworkConfig {
    pub protocol_prefix: String,
    pub known_addresses_file: String,
    pub ignore_peer_list: Vec<String>,
    pub cache_size: u32,
    pub reserved_peers: Vec<String>,
    pub listen_on: Vec<String>,
    pub allow_non_global_addresses_in_dht: bool,
    pub max_established_outgoing_connections: u32,
    pub max_pending_outgoing_connections: u32,
    pub max_established_incoming_connections: u32,
    pub max_pending_incoming_connections: u32,
    pub bootstrap_addresses: Vec<NodeAddress>,
    pub kademlia_mode: KademliaMode,
    pub external_addresses: Vec<String>,
    /// Whether the bootstrap nodes are left alone at the start; not said where the network's own
    /// setting is kept.
    pub disable_bootstrap_on_start: Option<bool>,
}

/// Whether `id` identifies one of `nodes`.
pub open spec fn identifies(nodes: Seq<NodeAddress>, id: Seq<char>) -> bool {
    exists|k: int|
        0 <= k < nodes.len() && (#[trigger] nodes[k]).peer_id is Some && nodes[k].peer_id->0@ == id
}

/// Whether one of `ids` is `id`.
pub open spec fn named(ids: Seq<String>, id: Seq<char>) -> bool {
    exists|k: int| 0 <= k < ids.len() && (#[trigger] ids[k])@ == id
}

/// Whether no identity occurs twice among `ids`.
pub open spec fn each_once(ids: Seq<String>) -> bool {
    forall|k: int, l: int| 0 <= k < l < ids.len() ==> (#[trigger] ids[k])@ != (#[trigger] ids[l])@
}

/// Whether `id` is among `ids`.
fn is_named(ids: &Vec<String>, id: &String) -> (r: bool)
    ensures
        r == named(ids@, id@),
{
    let mut i: usize = 0;
    while i < ids.len()
        invariant
            i <= ids.len(),
            forall|k: int| 0 <= k < i ==> (#[trigger] ids@[k])@ != id@,
        decreases ids.len() - i,
    {
        if ids[i] == *id {
            assert(ids@[i as int]@ == id@);
            return true;
        }
        i += 1;
    }
    false
}

/// The identities of those nodes whose addresses end in one, each once.
pub fn peer_ids(nodes: &Vec<NodeAddress>) -> (r: Vec<String>)
    ensures
        forall|id: Seq<char>| #[trigger] named(r@, id) <==> identifies(nodes@, id),
        each_once(r@),
        forall|k: int|
            0 <= k < nodes@.len() && (#[trigger] nodes@[k]).peer_id is Some ==> exists|l: int|
                0 <= l < r@.len() && (#[trigger] r@[l])@ == nodes@[k].peer_id->0@,
        forall|l: int| 0 <= l < r@.len() ==> identifies(nodes@, (#[trigger] r@[l])@),
        forall|k: int, l: int|
            0 <= k < l < r@.len() ==> (#[trigger] r@[k])@ != (#[trigger] r@[l])@,
{
    let mut r: Vec<String> = Vec::new();
    let mut i: usize = 0;
    while i < nodes.len()
        invariant
            i <= nodes.len(),
            forall|id: Seq<char>| #[trigger] named(r@, id) <==> identifies(
                nodes@.take(i as int),
                id,
            ),
            each_once(r@),
        decreases nodes.len() - i,
    {
        let ghost before = r@;
        let ghost shorter = nodes@.take(i as int);
        let ghost longer = nodes@.take(i + 1);
        match &nodes[i].peer_id {
            Some(id) => {
                let new = !is_named(&r, id);
                if new {
                    r.push(id.clone());
                }
                proof {
                    assert forall|other: Seq<char>| #[trigger] named(r@, other) <==> identifies(
                        longer,
                        other,
                    ) by {
                        if named(r@, other) {
                            let k = choose|k: int|
                                0 <= k < r@.len() && (#[trigger] r@[k])@ == other;
                            if k < before.len() {
                                assert(before[k]@ == other);
                                assert(named(before, other));
                                let l = choose|l: int|
                                    0 <= l < shorter.len() && (
                                    #[trigger] shorter[l]).peer_id is Some
                                        && shorter[l].peer_id->0@ == other;
                                assert(longer[l] == shorter[l]);
                            } else {
                                assert(longer[i as int].peer_id->0@ == other);
                            }
                        }
                        if identifies(longer, other) {
                            let l = choose|l: int|
                                0 <= l < longer.len() && (#[trigger] longer[l]).peer_id is Some
                                    && longer[l].peer_id->0@ == other;
                            if l < shorter.len() {
                                assert(shorter[l] == longer[l]);
                                assert(named(before, other));
                                let k = choose|k: int|
                                    0 <= k < before.len() && (#[trigger] before[k])@ == other;
                                assert(r@[k]@ == other);
                            } else if new {
                                assert(r@[before.len() as int]@ == other);
                            }
                        }
                    }
                    if new {
                        assert forall|k: int, l: int| 0 <= k < l < r@.len() implies (
                        #[trigger] r@[k])@ != (#[trigger] r@[l])@ by {
                            assert(r@[k] == before[k]);
                            if l == before.len() {
                                assert(!named(before, id@));
                            } else {
                                assert(r@[l] == before[l]);
                            }
                        }
                    }
                }
            },
            None => {
                proof {
                    assert forall|other: Seq<char>|
                        identifies(longer, other) <==> #[trigger] identifies(shorter, other) by {
                        if identifies(longer, other) {
                            let l = choose|l: int|
                                0 <= l < longer.len() && (#[trigger] longer[l]).peer_id is Some
                                    && longer[l].peer_id->0@ == other;
                            assert(shorter[l] == longer[l]);
                        }
                        if identifies(shorter, other) {
                            let l = choose|l: int|
                                0 <= l < shorter.len() && (#[trigger] shorter[l]).peer_id is Some
                                    && shorter[l].peer_id->0@ == other;
                            assert(longer[l] == shorter[l]);
                        }
                    }
                }
            },
        }
        i += 1;
    }
    proof {
        assert(nodes@.take(nodes@.len() as int) =~= nodes@);
        assert forall|k: int|
            0 <= k < nodes@.len() && (#[trigger] nodes@[k]).peer_id is Some implies exists|l: int|
            0 <= l < r@.len() && (#[trigger] r@[l])@ == nodes@[k].peer_id->0@ by {
            assert(identifies(nodes@, nodes@[k].peer_id->0@));
            assert(named(r@, nodes@[k].peer_id->0@));
        }
        assert forall|l: int| 0 <= l < r@.len() implies identifies(
            nodes@,
            (#[trigger] r@[l])@,
        ) by {
            assert(named(r@, r@[l]@));
        }
    }
    r
}

/// Whether `r` is set up as `args` say, under `protocol_prefix`.
pub open spec fn configured(
    protocol_prefix: Seq<char>,
    args: NetworkArgs,
    disable_bootstrap_on_start: Option<bool>,
    r: NetworkConfig,
) -> bool {
    &&& r.protocol_prefix@ == protocol_prefix
    &&& r.known_addresses_file@ == "known_addresses.bin"@
    &&& forall|id: Seq<char>| #[trigger]
        named(r.ignore_peer_list@, id) <==> identifies(args.bootstrap_nodes@, id)
    &&& each_once(r.ignore_peer_list@)
    &&& r.cache_size == KNOWN_PEERS_CACHE_SIZE
    &&& r.reserved_peers == args.reserved_peers
    &&& r.listen_on == args.listen_on
    &&& r.allow_non_global_addresses_in_dht == args.allow_private_ips
    &&& r.max_established_outgoing_connections == args.out_connections
    &&& r.max_pending_outgoing_connections == args.pending_out_connections
    &&& r.max_established_incoming_connections == args.in_connections
    &&& r.max_pending_incoming_connections == args.pending_in_connections
    &&& r.bootstrap_addresses == args.bootstrap_nodes
    &&& r.kademlia_mode == KademliaMode::Dynamic
    &&& r.external_addresses == args.external_addresses
    &&& r.disable_bootstrap_on_start == disable_bootstrap_on_start
}

/// Sets up the network of a cache server. The bootstrap nodes are not kept among the known peers.
pub fn configure_network(protocol_prefix: String, args: NetworkArgs) -> (r: NetworkConfig)
    ensures
        configured(protocol_prefix@, args, None, r),
        r.protocol_prefix@ == protocol_prefix@,
        r.known_addresses_file@ == "known_addresses.bin"@,
        r.cache_size == 100,
        r.reserved_peers == args.reserved_peers,
        r.listen_on == args.listen_on,
        r.allow_non_global_addresses_in_dht == args.allow_private_ips,
        r.max_established_outgoing_connections == args.out_connections,
        r.max_pending_outgoing_connections == args.pending_out_connections,
        r.max_established_incoming_connections == args.in_connections,
        r.max_pending_incoming_connections == args.pending_in_connections,
        r.bootstrap_addresses == args.bootstrap_nodes,
        r.external_addresses == args.external_addresses,
        r.disable_bootstrap_on_start is None,
{
    configure(protocol_prefix, args, None)
}

/// Sets up the network of a farmer, like that of a cache server but for one more setting.
pub fn configure_dsn(
    protocol_prefix: String,
    args: NetworkArgs,
    disable_bootstrap_on_start: bool,
) -> (r: NetworkConfig)
    ensures
        configured(protocol_prefix@, args, Some(disable_bootstrap_on_start), r),
        r.protocol_prefix@ == protocol_prefix@,
        r.known_addresses_file@ == "known_addresses.bin"@,
        r.cache_size == 100,
        r.reserved_peers == args.reserved_peers,
        r.listen_on == args.listen_on,
        r.allow_non_global_addresses_in_dht == args.allow_private_ips,
        r.max_established_outgoing_connections == args.out_connections,
        r.max_pending_outgoing_connections == args.pending_out_connections,
        r.max_established_incoming_connections == args.in_connections,
        r.max_pending_incoming_connections == args.pending_in_connections,
        r.bootstrap_addresses == args.bootstrap_nodes,
        r.external_addresses == args.external_addresses,
        r.disable_bootstrap_on_start == Some(disable_bootstrap_on_start),
{
    configure(protocol_prefix, args, Some(disable_bootstrap_on_start))
}

fn configure(
    protocol_prefix: String,
    args: NetworkArgs,
    disable_bootstrap_on_start: Option<bool>,
) -> (r: NetworkConfig)
    ensures
        configured(protocol_prefix@, args, disable_bootstrap_on_start, r),
{
    let ignore_peer_list = peer_ids(&args.bootstrap_nodes);
    NetworkConfig {
        protocol_prefix,
        known_addresses_file: KNOWN_ADDRESSES_FILE.to_owned(),
        ignore_peer_list,
        cache_size: KNOWN_PEERS_CACHE_SIZE,
        reserved_peers: args.reserved_peers,
        listen_on: args.listen_on,
        allow_non_global_addresses_in_dht: args.allow_private_ips,
        max_established_outgoing_connections: args.out_connections,
        max_pending_outgoing_connections: args.pending_out_connections,
        max_established_incoming_connections: args.in_connections,
        max_pending_incoming_connections: args.pending_in_connections,
        bootstrap_addresses: args.bootstrap_nodes,
        kademlia_mode: KademliaMode::Dynamic,
        external_addresses: args.external_addresses,
        disable_bootstrap_on_start,
    }
}

/// The bootstrap nodes to use: those that were asked for, or, if none were, those that the node
/// names.
pub fn choose_bootstrap_nodes(
    asked_for: Vec<NodeAddress>,
    of_the_node: Vec<NodeAddress>,
) -> (r: Vec<NodeAddress>)
    ensures
        asked_for@.len() > 0 ==> r == asked_for,
        asked_for@.len() == 0 ==> r == of_the_node,
{
    if asked_for.is_empty() {
        of_the_node
    } else {
        asked_for
    }
}

/// The network is set up with just what was asked for, each setting where it belongs; of the
/// bootstrap nodes, and of no others, the identities are passed over among the known peers.
pub proof fn law_network_is_set_up_as_asked(
    protocol_prefix: Seq<char>,
    args: NetworkArgs,
    disable_bootstrap_on_start: Option<bool>,
    config: NetworkConfig,
    k: int,
    l: int,
)
    requires
        configured(protocol_prefix, args, disable_bootstrap_on_start, config),
    ensures
        config.protocol_prefix@ == protocol_prefix,
        config.known_addresses_file@ == "known_addresses.bin"@,
        config.cache_size == 100,
        config.reserved_peers == args.reserved_peers,
        config.listen_on == args.listen_on,
        config.allow_non_global_addresses_in_dht == args.allow_private_ips,
        config.max_established_outgoing_connections == args.out_connections,
        config.max_pending_outgoing_connections == args.pending_out_connections,
        config.max_established_incoming_connections == args.in_connections,
        config.max_pending_incoming_connections == args.pending_in_connections,
        config.bootstrap_addresses == args.bootstrap_nodes,
        config.external_addresses == args.external_addresses,
        config.disable_bootstrap_on_start == disable_bootstrap_on_start,
        0 <= k < args.bootstrap_nodes@.len() && args.bootstrap_nodes@[k].peer_id is Some
            ==> exists|j: int|
            0 <= j < config.ignore_peer_list@.len() && (#[trigger] config.ignore_peer_list@[j])@
                == args.bootstrap_nodes@[k].peer_id->0@,
        0 <= l < config.ignore_peer_list@.len() ==> exists|j: int|
            0 <= j < args.bootstrap_nodes@.len() && (
            #[trigger] args.bootstrap_nodes@[j]).peer_id is Some
                && args.bootstrap_nodes@[j].peer_id->0@ == config.ignore_peer_list@[l]@,
        0 <= k < l < config.ignore_peer_list@.len() ==> config.ignore_peer_list@[k]@
            != config.ignore_peer_list@[l]@,
{
    if 0 <= k < args.bootstrap_nodes@.len() && args.bootstrap_nodes@[k].peer_id is Some {
        let id = args.bootstrap_nodes@[k].peer_id->0@;
        assert(identifies(args.bootstrap_nodes@, id));
        assert(named(config.ignore_peer_list@, id));
    }
    if 0 <= l < config.ignore_peer_list@.len() {
        let id = config.ignore_peer_list@[l]@;
        assert(named(config.ignore_peer_list@, id));
        assert(identifies(args.bootstrap_nodes@, id));
    }
}

} // verus!
