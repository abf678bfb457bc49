//! Answers to other nodes, keys, settings and the start of the server.

use piece_cache::cache::MyPieceCache;
use piece_cache::commands::{
    create_domain_key, list_connected_peers, peers_endpoint, CacheServerArgs, CommandError,
    CreateDomainKeyOptions, DiskFarm, ListConnectPeersOptions,
};
use piece_cache::disk::{DiskAction, DiskReply};
use piece_cache::handlers::{
    answer_cached_piece_request, answer_from_farmer_cache, answer_from_plots, answer_headers,
    answer_piece_request, answer_with_closest_peers, cached_pieces, farmer_piece_start,
    query_farmer_headers, query_headers, refuses_requests, CachedPieceStep, FarmerPieceStart,
    FarmerPieceStep, HeaderQuery, PieceByIndexRequest, PieceResult, PlottedPiece,
    SegmentHeaderRequest,
};
use piece_cache::keys::{derive_libp2p_keypair, protocol_prefix};
use piece_cache::network::{
    choose_bootstrap_nodes, configure_dsn, configure_network, peer_ids, KademliaMode, NetworkArgs,
    NodeAddress, KNOWN_PEERS_CACHE_SIZE,
};
use piece_cache::primitives::{Piece, PieceIndex, SegmentIndex, PIECE_SIZE};
use piece_cache::read::ReadError;
use piece_cache::rpc::{
    announced, piece_of_bytes, read_piece_reply, CallParams, NodeCall, NodeSubscription,
    PieceReplyError,
};
use piece_cache::server::{
    network_setup, start_input, FarmerAppInfo, StartAction, StartEvent, StartInput, Startup,
};

fn piece() -> Piece {
    Piece::try_from(vec![3; PIECE_SIZE]).unwrap()
}

fn cache_of(indexes: &[u64]) -> MyPieceCache {
    let mut cache = MyPieceCache::new();
    for index in indexes {
        let mut save = cache.save_piece(PieceIndex::from(*index), piece());
        while let Some(action) = save.action() {
            let reply = match action {
                DiskAction::DirExists(_) | DiskAction::FileExists(_) => DiskReply::Answer(true),
                _ => DiskReply::Done,
            };
            save = save.advance(reply);
        }
        assert!(cache.finish_save(save));
    }
    cache
}

fn indexes(values: &[u64]) -> Vec<PieceIndex> {
    values.iter().map(|i| PieceIndex::from(*i)).collect()
}

fn piece_request(cached: &[u64]) -> PieceByIndexRequest {
    PieceByIndexRequest { piece_index: PieceIndex::from(1), cached_pieces: indexes(cached) }
}

fn node(address: &str, peer_id: Option<&str>) -> NodeAddress {
    NodeAddress { address: address.to_string(), peer_id: peer_id.map(str::to_string) }
}

fn network_args(bootstrap_nodes: Vec<NodeAddress>) -> NetworkArgs {
    NetworkArgs {
        listen_on: vec!["/ip4/0.0.0.0/tcp/30533".to_string()],
        bootstrap_nodes,
        allow_private_ips: true,
        reserved_peers: vec!["/ip4/10.0.0.1/tcp/1".to_string()],
        in_connections: 1,
        out_connections: 2,
        pending_in_connections: 3,
        pending_out_connections: 4,
        external_addresses: vec!["/ip4/1.2.3.4/tcp/30533".to_string()],
    }
}

#[test]
fn cached_pieces_are_looked_up_to_a_limit() {
    let all: Vec<u64> = (0..200).collect();
    let cache = cache_of(&all);
    let found = cached_pieces(&cache, indexes(&all));
    assert_eq!(found, indexes(&all[..128]));
    let mut asked = vec![1000; 128];
    asked.push(5);
    assert!(cached_pieces(&cache, indexes(&asked)).is_empty());
    assert_eq!(cached_pieces(&cache, indexes(&[5, 1000, 4])), indexes(&[5, 4]));
}

#[test]
fn a_cached_piece_is_handed_out() {
    let cache = cache_of(&[2]);
    match answer_cached_piece_request::<u8>(&cache, piece_request(&[2, 3]), Ok(Some(piece()))) {
        CachedPieceStep::Answer(answer) => {
            assert_eq!(answer.cached_pieces, indexes(&[2]));
            match answer.result {
                PieceResult::Piece(piece) => assert_eq!(piece.into_bytes(), vec![3; PIECE_SIZE]),
                PieceResult::ClosestPeers(_) => panic!("there is a piece"),
            }
        }
        CachedPieceStep::AskClosestPeers(_) => panic!("there is a piece"),
    }
}

#[test]
fn closest_peers_stand_in_for_a_piece() {
    let cache = cache_of(&[2]);
    match answer_cached_piece_request::<u8>(&cache, piece_request(&[2, 3]), Ok(None)) {
        CachedPieceStep::AskClosestPeers(cached) => {
            assert_eq!(cached, indexes(&[2]));
            let answer = answer_with_closest_peers(cached, Some(Ok(vec![7u8, 8])));
            assert_eq!(answer.cached_pieces, indexes(&[2]));
            assert!(matches!(answer.result, PieceResult::ClosestPeers(p) if p == vec![7, 8]));
        }
        CachedPieceStep::Answer(_) => panic!("there is no piece"),
    }
    let gone = answer_with_closest_peers::<u8>(Vec::new(), None);
    assert!(matches!(gone.result, PieceResult::ClosestPeers(p) if p.is_empty()));
    let failed = answer_with_closest_peers::<u8>(Vec::new(), Some(Err("timeout".to_string())));
    assert!(matches!(failed.result, PieceResult::ClosestPeers(p) if p.is_empty()));
}

#[test]
fn an_unreadable_piece_names_no_peers() {
    let cache = cache_of(&[2]);
    let request = piece_request(&[3, 2]);
    match answer_cached_piece_request::<u8>(&cache, request, Err(ReadError::NotAFile)) {
        CachedPieceStep::Answer(answer) => {
            assert_eq!(answer.cached_pieces, indexes(&[2]));
            assert!(matches!(answer.result, PieceResult::ClosestPeers(p) if p.is_empty()));
        }
        CachedPieceStep::AskClosestPeers(_) => panic!("nobody is asked"),
    }
}

#[test]
fn a_request_for_a_piece_is_answered_with_the_piece_only() {
    let cache = cache_of(&[2]);
    let answer = answer_piece_request(&cache, piece_request(&[2, 9]), Ok(Some(piece()))).unwrap();
    assert_eq!(answer.piece.unwrap().into_bytes(), vec![3; PIECE_SIZE]);
    assert_eq!(answer.cached_pieces, indexes(&[2]));
    assert!(answer_piece_request(&cache, piece_request(&[2]), Ok(None)).is_none());
    let error = Err(ReadError::NotAPiece);
    assert!(answer_piece_request(&cache, piece_request(&[2]), error).is_none());
}

#[test]
fn a_cache_server_limits_requests_for_headers() {
    let named = |n: u64| {
        SegmentHeaderRequest::SegmentIndexes((0..n).map(SegmentIndex::from).collect())
    };
    assert!(matches!(query_headers(named(1000)), Some(HeaderQuery::Of(i)) if i.len() == 1000));
    assert!(query_headers(named(1001)).is_none());
    let last = SegmentHeaderRequest::LastSegmentHeaders;
    assert!(matches!(query_headers(last(999)), Some(HeaderQuery::Last(999))));
    assert!(matches!(query_headers(last(1001)), Some(HeaderQuery::Last(1000))));
}

#[test]
fn a_farmer_limits_requests_for_headers() {
    let named = |n: u64| {
        SegmentHeaderRequest::SegmentIndexes((0..n).map(SegmentIndex::from).collect())
    };
    let last = SegmentHeaderRequest::LastSegmentHeaders;
    assert!(matches!(
        query_farmer_headers(false, named(1000)),
        Some(HeaderQuery::Of(i)) if i.len() == 1000 && i[999].value == 999
    ));
    assert!(query_farmer_headers(false, named(1001)).is_none());
    assert!(matches!(
        query_farmer_headers(false, last(u64::MAX)),
        Some(HeaderQuery::Last(1000))
    ));
    assert!(matches!(query_farmer_headers(false, last(3)), Some(HeaderQuery::Last(3))));
    assert!(query_farmer_headers(true, named(1)).is_none());
    assert!(query_farmer_headers(true, last(3)).is_none());
}

#[test]
fn headers_are_answered_in_full_or_not_at_all() {
    let all = vec![Some('a'), Some('b'), Some('c')];
    assert_eq!(answer_headers(Ok(all)), Some(vec!['a', 'b', 'c']));
    assert_eq!(answer_headers::<char>(Ok(Vec::new())), Some(Vec::new()));
    assert_eq!(answer_headers(Ok(vec![Some('a'), None, Some('c')])), None);
    assert_eq!(answer_headers(Ok(vec![None, Some('c')])), None);
    assert_eq!(answer_headers::<char>(Err("gone".to_string())), None);
}

#[test]
fn a_farmer_can_refuse_requests() {
    assert!(refuses_requests(Some("1".to_string())));
    assert!(!refuses_requests(Some("0".to_string())));
    assert!(!refuses_requests(Some("11".to_string())));
    assert!(!refuses_requests(Some(String::new())));
    assert!(!refuses_requests(None));
}

#[test]
fn a_farmer_answers_from_cache_and_plots() {
    assert_eq!(farmer_piece_start(true), FarmerPieceStart::Refuse);
    assert_eq!(farmer_piece_start(false), FarmerPieceStart::AskCache);
    assert!(matches!(answer_from_farmer_cache(None), FarmerPieceStep::ReadPlots));
    match answer_from_farmer_cache(Some(piece())) {
        FarmerPieceStep::Answer(piece) => assert_eq!(piece.into_bytes(), vec![3; PIECE_SIZE]),
        _ => panic!("there is a piece"),
    }
    assert!(answer_from_plots(PlottedPiece::Dropped).is_none());
    assert!(answer_from_plots(PlottedPiece::NotInitialized).is_none());
    assert!(answer_from_plots(PlottedPiece::NotPlotted).is_none());
    assert!(matches!(answer_from_plots(PlottedPiece::Read(None)), Some(None)));
    assert!(matches!(answer_from_plots(PlottedPiece::Read(Some(piece()))), Some(Some(_))));
}

#[test]
fn the_key_pair_follows_from_the_secret_key() {
    let mut secret = vec![0; 64];
    secret[0] = 0x21;
    secret[1] = 1;
    secret[40] = 9;
    let pair = derive_libp2p_keypair(&secret).unwrap();
    let mut expected = [0u8; 32];
    expected[0] = 8;
    expected[1] = 9;
    assert_eq!(&pair[..32], &expected);
    let key = libp2p_identity::ed25519::SecretKey::try_from_bytes(&mut expected[..]).unwrap();
    let public = libp2p_identity::ed25519::Keypair::from(key).public().to_bytes();
    assert_eq!(&pair[32..], &public);
}

#[test]
fn a_generated_secret_key_gives_a_key_pair() {
    let mini = schnorrkel::MiniSecretKey::from_bytes(&[7; 32]).unwrap();
    let secret = mini.expand(schnorrkel::ExpansionMode::Ed25519);
    let pair = derive_libp2p_keypair(&secret.to_bytes()).unwrap();
    assert_eq!(&pair[..32], &secret.to_ed25519_bytes()[..32]);
    assert_eq!(derive_libp2p_keypair(&secret.to_bytes()).unwrap(), pair);
}

#[test]
fn other_bytes_are_no_secret_key() {
    assert!(derive_libp2p_keypair(&[0; 63]).is_none());
    assert!(derive_libp2p_keypair(&[0; 65]).is_none());
    assert!(derive_libp2p_keypair(&[255; 64]).is_none());
    let order: [u8; 32] = [
        0xed, 0xd3, 0xf5, 0x5c, 0x1a, 0x63, 0x12, 0x58, 0xd6, 0x9c, 0xf7, 0xa2, 0xde, 0xf9, 0xde,
        0x14, 0, 0, 0, 0, 0, 0, 0, 0, 0, 0, 0, 0, 0, 0, 0, 0x10,
    ];
    let mut secret = [0; 64];
    secret[..32].copy_from_slice(&order);
    assert!(derive_libp2p_keypair(&secret).is_none());
    secret[0] -= 1;
    assert!(derive_libp2p_keypair(&secret).is_some());
}

#[test]
fn the_protocol_prefix_is_the_genesis_hash() {
    let mut hash = [0u8; 32];
    hash[0] = 0xab;
    hash[31] = 0x0f;
    assert_eq!(protocol_prefix(&hash), format!("ab{}0f", "00".repeat(30)));
    assert_ne!(protocol_prefix(&[0x1f; 32]), protocol_prefix(&[0xf1; 32]));
}

#[test]
fn the_network_is_set_up_as_asked() {
    let args = network_args(vec![
        node("/dns/a/tcp/1", Some("A")),
        node("/dns/b/tcp/1", None),
        node("/dns/c/tcp/1", Some("C")),
        node("/dns/d/tcp/1", Some("A")),
    ]);
    let config = configure_network("prefix".to_string(), args);
    assert_eq!(config.protocol_prefix, "prefix");
    assert_eq!(config.known_addresses_file, "known_addresses.bin");
    let mut ignored = config.ignore_peer_list.clone();
    ignored.sort();
    assert_eq!(ignored, vec!["A", "C"]);
    assert_eq!(config.cache_size, KNOWN_PEERS_CACHE_SIZE);
    assert_eq!(config.listen_on, vec!["/ip4/0.0.0.0/tcp/30533"]);
    assert_eq!(config.reserved_peers, vec!["/ip4/10.0.0.1/tcp/1"]);
    assert!(config.allow_non_global_addresses_in_dht);
    assert_eq!(config.max_established_incoming_connections, 1);
    assert_eq!(config.max_established_outgoing_connections, 2);
    assert_eq!(config.max_pending_incoming_connections, 3);
    assert_eq!(config.max_pending_outgoing_connections, 4);
    assert_eq!(config.bootstrap_addresses.len(), 4);
    assert_eq!(config.kademlia_mode, KademliaMode::Dynamic);
    assert_eq!(config.external_addresses, vec!["/ip4/1.2.3.4/tcp/30533"]);
    assert_eq!(config.disable_bootstrap_on_start, None);
    let config = configure_dsn("prefix".to_string(), network_args(Vec::new()), true);
    assert_eq!(config.disable_bootstrap_on_start, Some(true));
    assert!(config.ignore_peer_list.is_empty());
}

#[test]
fn bootstrap_nodes_come_from_the_node_if_none_are_named() {
    let chosen = choose_bootstrap_nodes(vec![node("x", None)], vec![node("y", None)]);
    assert_eq!(chosen[0].address, "x");
    let chosen = choose_bootstrap_nodes(Vec::new(), vec![node("y", None), node("z", None)]);
    assert_eq!(chosen.len(), 2);
    assert!(peer_ids(&chosen).is_empty());
}

#[test]
fn the_server_joins_the_network_as_the_node_says() {
    let info = FarmerAppInfo {
        genesis_hash: [0x11; 32],
        dsn_bootstrap_nodes: vec![node("/dns/n/tcp/1", Some("N"))],
        history_size: 1,
    };
    let mut secret = [0; 64];
    secret[0] = 1;
    let setup = network_setup(info, network_args(Vec::new()), &secret).unwrap();
    assert_eq!(setup.config.protocol_prefix, "11".repeat(32));
    assert_eq!(setup.config.bootstrap_addresses[0].address, "/dns/n/tcp/1");
    assert_eq!(setup.config.ignore_peer_list, vec!["N"]);
    assert_eq!(setup.keypair[0], 8);
    assert_eq!(setup.keypair.len(), 64);
    let info = FarmerAppInfo {
        genesis_hash: [0; 32],
        dsn_bootstrap_nodes: Vec::new(),
        history_size: 1,
    };
    assert!(network_setup(info, network_args(Vec::new()), &[0; 10]).is_none());
}

#[test]
fn the_node_is_called_by_name() {
    let calls = [
        (NodeCall::FarmerAppInfo, "subspace_getFarmerAppInfo"),
        (NodeCall::SubmitSolutionResponse, "subspace_submitSolutionResponse"),
        (NodeCall::SubmitRewardSignature, "subspace_submitRewardSignature"),
        (NodeCall::SegmentHeaders(Vec::new()), "subspace_segmentHeaders"),
        (NodeCall::Piece(PieceIndex::from(1)), "subspace_piece"),
        (
            NodeCall::AcknowledgeArchivedSegmentHeader(SegmentIndex::from(1)),
            "subspace_acknowledgeArchivedSegmentHeader",
        ),
        (NodeCall::LastSegmentHeaders(1), "subspace_lastSegmentHeaders"),
    ];
    for (call, name) in calls {
        assert_eq!(call.method(), name);
    }
    let subscriptions = [
        (NodeSubscription::SlotInfo, "SlotInfo"),
        (NodeSubscription::RewardSigning, "RewardSigning"),
        (NodeSubscription::ArchivedSegmentHeader, "ArchivedSegmentHeader"),
    ];
    for (subscription, name) in subscriptions {
        assert_eq!(subscription.subscribe_method(), format!("subspace_subscribe{name}"));
        assert_eq!(subscription.unsubscribe_method(), format!("subspace_unsubscribe{name}"));
    }
}

#[test]
fn calls_hand_on_what_they_are_made_of() {
    assert!(matches!(NodeCall::FarmerAppInfo.params(), CallParams::Nothing));
    assert!(matches!(NodeCall::SubmitSolutionResponse.params(), CallParams::Submission));
    assert!(matches!(NodeCall::SubmitRewardSignature.params(), CallParams::Submission));
    let segments = vec![SegmentIndex::from(9), SegmentIndex::from(2), SegmentIndex::from(9)];
    assert!(matches!(
        NodeCall::SegmentHeaders(segments).params(),
        CallParams::Numbers(n) if n == vec![9, 2, 9]
    ));
    assert!(matches!(
        NodeCall::Piece(PieceIndex::from(7)).params(),
        CallParams::Number(7)
    ));
    assert!(matches!(
        NodeCall::AcknowledgeArchivedSegmentHeader(SegmentIndex::from(8)).params(),
        CallParams::Number(8)
    ));
    assert!(matches!(
        NodeCall::LastSegmentHeaders(5000).params(),
        CallParams::Number(5000)
    ));
}

#[test]
fn unreadable_announcements_are_passed_over() {
    assert_eq!(announced::<u8, (), ()>(Ok(Ok(4))), Some(4));
    assert_eq!(announced::<u8, (), ()>(Ok(Err(()))), None);
    assert_eq!(announced::<u8, (), ()>(Err(())), None);
}

#[test]
fn a_piece_is_read_from_the_reply_of_the_node() {
    let index = PieceIndex::from(77);
    assert!(matches!(read_piece_reply(index, "null"), Ok(None)));
    let bytes: Vec<u8> = (0..PIECE_SIZE).map(|i| (i % 251) as u8).collect();
    let numbers: Vec<String> = bytes.iter().map(u8::to_string).collect();
    let reply = format!("[{}]", numbers.join(","));
    match read_piece_reply(index, &reply) {
        Ok(Some(piece)) => assert_eq!(piece.into_bytes(), bytes),
        _ => panic!("there is a piece"),
    }
}

#[test]
fn a_reply_that_is_no_piece_is_an_error() {
    let index = PieceIndex::from(77);
    match read_piece_reply(index, "[1,2,255]") {
        Err(error) => {
            let message = error.message();
            assert_eq!(message.as_deref(), Some("Cannot convert piece. PieceIndex=77"));
        }
        Ok(_) => panic!("three bytes are no piece"),
    }
    for reply in ["", "[256]", "[1,", "{}", "\"text\"", "nul"] {
        match read_piece_reply(index, reply) {
            Err(error) => {
                assert!(error.message().is_none());
                assert!(matches!(error, PieceReplyError::Json(_)));
            }
            Ok(_) => panic!("{reply} is no reply"),
        }
    }
    assert!(matches!(piece_of_bytes(index, None), Ok(None)));
    assert!(matches!(piece_of_bytes(index, Some(vec![0; PIECE_SIZE])), Ok(Some(_))));
    assert!(matches!(
        piece_of_bytes(index, Some(Vec::new())),
        Err(PieceReplyError::NotAPiece(i)) if i == index
    ));
}

fn server_args() -> CacheServerArgs {
    let farm = DiskFarm { directory: "/cache".to_string() };
    CacheServerArgs::new(farm, network_args(Vec::new()))
}

#[test]
fn the_server_has_defaults() {
    let args = server_args();
    assert_eq!(args.node_rpc_url, "ws://127.0.0.1:9944");
    assert_eq!(args.download_count, 10);
    assert!(args.http_server.is_none());
    assert!(!args.verify_piece);
    assert!(!args.disable_detect_future_piece);
}

#[test]
fn the_server_starts_step_by_step() {
    let steps = [
        (StartAction::FindDirectory, StartEvent::Missing),
        (StartAction::CreateDirectory, StartEvent::Done),
        (StartAction::FindPieceDirectory, StartEvent::Missing),
        (StartAction::CreatePieceDirectory, StartEvent::Done),
        (StartAction::LoadPieces, StartEvent::Done),
        (StartAction::Connect, StartEvent::Done),
        (StartAction::AskNode, StartEvent::Done),
        (StartAction::OpenIdentity, StartEvent::Done),
        (StartAction::JoinNetwork, StartEvent::Done),
        (StartAction::RunNetwork, StartEvent::Done),
    ];
    let mut startup = Startup::start(&server_args());
    for (action, event) in steps {
        assert_eq!(startup.action(), Some(action));
        startup = startup.advance(event);
    }
    assert_eq!(startup.action(), None);
    assert_eq!(startup.result(), Ok(()));
}

#[test]
fn the_start_is_made_with_what_was_asked_for() {
    let mut args = server_args();
    args.node_rpc_url = "ws://node:1".to_string();
    args.verify_piece = true;
    for action in [
        StartAction::FindDirectory,
        StartAction::CreateDirectory,
        StartAction::OpenIdentity,
        StartAction::JoinNetwork,
    ] {
        let input = start_input(&args, action);
        assert!(matches!(input, StartInput::Directory(d) if d == "/cache"));
    }
    for action in [StartAction::FindPieceDirectory, StartAction::CreatePieceDirectory] {
        let input = start_input(&args, action);
        assert!(matches!(input, StartInput::Below(d, n) if d == "/cache" && n == "piece"));
    }
    assert!(matches!(
        start_input(&args, StartAction::LoadPieces),
        StartInput::Pieces(d, n, true) if d == "/cache" && n == "piece"
    ));
    assert!(matches!(
        start_input(&args, StartAction::Connect),
        StartInput::Node(url) if url == "ws://node:1"
    ));
    assert!(matches!(start_input(&args, StartAction::AskNode), StartInput::Connection));
    assert!(matches!(
        start_input(&args, StartAction::RunNetwork),
        StartInput::Thread(name) if name == "farmer-networking"
    ));
    args.verify_piece = false;
    assert!(matches!(
        start_input(&args, StartAction::LoadPieces),
        StartInput::Pieces(_, _, false)
    ));
}

#[test]
fn directories_that_exist_are_not_created() {
    let startup = Startup::start(&server_args()).advance(StartEvent::Done);
    assert_eq!(startup.action(), Some(StartAction::FindPieceDirectory));
    let startup = startup.advance(StartEvent::Done);
    assert_eq!(startup.action(), Some(StartAction::LoadPieces));
}

#[test]
fn a_failed_start_says_why() {
    let cases = [
        (
            StartAction::CreateDirectory,
            "Directory /cache doesn't exist and can't be created: no",
        ),
        (
            StartAction::CreatePieceDirectory,
            "Piece Dir /cache doesn't exist and can't be created: no",
        ),
        (StartAction::LoadPieces, "no"),
        (StartAction::Connect, "no"),
        (StartAction::AskNode, "no"),
        (StartAction::OpenIdentity, "Failed to open or create identity: no"),
        (StartAction::JoinNetwork, "no"),
        (StartAction::RunNetwork, "no"),
    ];
    for (failing, text) in cases {
        let mut startup = Startup::start(&server_args());
        while let Some(action) = startup.action() {
            let event = match action {
                a if a == failing => StartEvent::Failed("no".to_string()),
                StartAction::FindDirectory | StartAction::FindPieceDirectory => StartEvent::Missing,
                _ => StartEvent::Done,
            };
            startup = startup.advance(event);
        }
        let startup = startup.advance(StartEvent::Done);
        assert_eq!(startup.result(), Err(text.to_string()));
    }
}

#[test]
fn commands_succeed_as_far_as_they_go() {
    let options = CreateDomainKeyOptions::default();
    assert_eq!(options.rpc_url, "http://127.0.0.1:9944");
    assert!(create_domain_key(options).is_ok());
    let options = ListConnectPeersOptions { rpc_url: "http://node".to_string() };
    assert_eq!(peers_endpoint(&options), "http://node");
    assert_eq!(ListConnectPeersOptions::default().rpc_url, "http://127.0.0.1:9944");
    assert!(list_connected_peers(Ok(())).is_ok());
    assert!(matches!(
        list_connected_peers(Err("refused".to_string())),
        Err(CommandError::Connection(e)) if e == "refused"
    ));
}
