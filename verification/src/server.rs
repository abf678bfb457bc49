//! Starting the server: what is done, in which order, and what a failure is answered.

use crate::commands::CacheServerArgs;
use crate::keys::{
    derive_libp2p_keypair, hex_text, is_keypair_of, is_secret_key, protocol_prefix,
};
use crate::network::{
    choose_bootstrap_nodes, configure_network, configured, NetworkArgs, NetworkConfig, NodeAddress,
};
use crate::primitives::little_endian_value;
use vstd::prelude::*;

verus! {

/// The directory, in that of the server, in which pieces are kept.
pub const PIECE_DIRECTORY: &'static str = "piece";

/// The thread that runs the network.
pub const NETWORKING_THREAD: &'static str = "farmer-networking";

/// What the node tells of itself and of the network.
pub struct FarmerAppInfo {
    /// The hash of the genesis block.
    pub genesis_hash: [u8; 32],
    /// Nodes through which to join the network.
    pub dsn_bootstrap_nodes: Vec<NodeAddress>,
    /// How many segments the history has.
    pub history_size: u64,
}

/// How to join the network: the settings, and the key pair by which the server is known.
pub struct NetworkSetup {
    pub config: NetworkConfig,
    pub keypair: Vec<u8>,
}

/// The settings with bootstrap nodes of the node in place of none.
pub open spec fn with_bootstrap_nodes(args: NetworkArgs, nodes: Vec<NodeAddress>) -> NetworkArgs {
    if args.bootstrap_nodes@.len() == 0 {
        NetworkArgs { bootstrap_nodes: nodes, ..args }
    } else {
        args
    }
}

/// Decides how to join the network, given what the node told and the farmer's secret key: under
/// the hash of the genesis block as prefix, through the bootstrap nodes that were asked for or else
/// those of the node, with a key pair derived from the secret key. There is no such setup for bytes
/// that are no secret key.
pub fn network_setup(info: FarmerAppInfo, dsn: NetworkArgs, secret_key: &[u8]) -> (r: Option<
    NetworkSetup,
>)
    ensures
        r is Some <==> is_secret_key(secret_key@),
        r is Some ==> configured(
            hex_text(info.genesis_hash@),
            with_bootstrap_nodes(dsn, info.dsn_bootstrap_nodes),
            None,
            r->0.config,
        ),
        r is Some ==> is_keypair_of(secret_key@, r->0.keypair@),
        r is Some && dsn.bootstrap_nodes@.len() > 0 ==> r->0.config.bootstrap_addresses
            == dsn.bootstrap_nodes,
        r is Some && dsn.bootstrap_nodes@.len() == 0 ==> r->0.config.bootstrap_addresses
            == info.dsn_bootstrap_nodes,
        r is Some ==> r->0.config.protocol_prefix@ == hex_text(info.genesis_hash@),
        r is Some ==> r->0.config.reserved_peers == dsn.reserved_peers,
        r is Some ==> r->0.config.listen_on == dsn.listen_on,
        r is Some ==> r->0.config.allow_non_global_addresses_in_dht == dsn.allow_private_ips,
        r is Some ==> r->0.config.max_established_outgoing_connections == dsn.out_connections,
        r is Some ==> r->0.config.max_pending_outgoing_connections == dsn.pending_out_connections,
        r is Some ==> r->0.config.max_established_incoming_connections == dsn.in_connections,
        r is Some ==> r->0.config.max_pending_incoming_connections == dsn.pending_in_connections,
        r is Some ==> r->0.config.external_addresses == dsn.external_addresses,
        r is Some ==> little_endian_value(r->0.keypair@.take(32)) == 8 * little_endian_value(
            secret_key@.take(32),
        ),
{
    let keypair = match derive_libp2p_keypair(secret_key) {
        Some(keypair) => keypair,
        None => return None,
    };
    let prefix = protocol_prefix(&info.genesis_hash);
    let mut dsn = dsn;
    dsn.bootstrap_nodes = choose_bootstrap_nodes(dsn.bootstrap_nodes, info.dsn_bootstrap_nodes);
    let config = configure_network(prefix, dsn);
    Some(NetworkSetup { config, keypair })
}

/// How far the start has got: what is to be done next, or how it ended.
enum StartStage {
    FindDirectory,
    CreateDirectory,
    FindPieceDirectory,
    CreatePieceDirectory,
    LoadPieces,
    Connect,
    AskNode,
    OpenIdentity,
    JoinNetwork,
    RunNetwork,
    Running,
    Failed(String),
}

/// A start of the server.
pub struct Startup {
    directory: String,
    stage: StartStage,
}

/// How far the start has got: what is to be done next, or how it ended.
pub enum StartStep {
    /// Ask whether the directory of the server exists.
    FindDirectory,
    /// Create the directory of the server.
    CreateDirectory,
    /// Ask whether the directory of the pieces exists.
    FindPieceDirectory,
    /// Create the directory of the pieces.
    CreatePieceDirectory,
    /// Look for pieces on disk.
    LoadPieces,
    /// Connect to the node.
    Connect,
    /// Ask the node about itself and the network.
    AskNode,
    /// Open the identity of the server, or create one.
    OpenIdentity,
    /// Join the network.
    JoinNetwork,
    /// Start the thread that runs the network.
    RunNetwork,
    /// The server runs.
    Running,
    /// The server does not start, for this reason.
    Failed(Seq<char>),
}

/// A start of the server: the server's directory, and how far the start has got.
pub struct Starting {
    pub directory: Seq<char>,
    pub step: StartStep,
}

impl View for Startup {
    type V = Starting;

    closed spec fn view(&self) -> Starting {
        Starting {
            directory: self.directory@,
            step: match self.stage {
                StartStage::FindDirectory => StartStep::FindDirectory,
                StartStage::CreateDirectory => StartStep::CreateDirectory,
                StartStage::FindPieceDirectory => StartStep::FindPieceDirectory,
                StartStage::CreatePieceDirectory => StartStep::CreatePieceDirectory,
                StartStage::LoadPieces => StartStep::LoadPieces,
                StartStage::Connect => StartStep::Connect,
                StartStage::AskNode => StartStep::AskNode,
                StartStage::OpenIdentity => StartStep::OpenIdentity,
                StartStage::JoinNetwork => StartStep::JoinNetwork,
                StartStage::RunNetwork => StartStep::RunNetwork,
                StartStage::Running => StartStep::Running,
                StartStage::Failed(reason) => StartStep::Failed(reason@),
            },
        }
    }
}

/// What to do next.
#[derive(Clone, Copy, Debug, PartialEq, Eq, Structural)]
pub enum StartAction {
    /// Ask whether the directory of the server exists.
    FindDirectory,
    /// Create the directory of the server.
    CreateDirectory,
    /// Ask whether the directory of the pieces exists.
    FindPieceDirectory,
    /// Create the directory of the pieces.
    CreatePieceDirectory,
    /// Look for pieces on disk.
    LoadPieces,
    /// Connect to the node.
    Connect,
    /// Ask the node about itself and the network.
    AskNode,
    /// Open the identity of the server, or create one.
    OpenIdentity,
    /// Join the network.
    JoinNetwork,
    /// Start the thread that runs the network.
    RunNetwork,
}

/// What a step of the start is done with.
pub enum StartInput {
    /// The directory of the server.
    Directory(String),
    /// The directory, below the first one, that has the second name.
    Below(String, String),
    /// The pieces in the directory, below the first one, that has the second name; whether they are
    /// compared with their checksums.
    Pieces(String, String, bool),
    /// The address of the node.
    Node(String),
    /// The thread of this name.
    Thread(String),
    /// The node that was connected to.
    Connection,
}

/// What a step of the start is done with, over the characters of its parts.
pub enum Input {
    Directory(Seq<char>),
    Below(Seq<char>, Seq<char>),
    Pieces(Seq<char>, Seq<char>, bool),
    Node(Seq<char>),
    Thread(Seq<char>),
    Connection,
}

impl View for StartInput {
    type V = Input;

    open spec fn view(&self) -> Input {
        match *self {
            StartInput::Directory(directory) => Input::Directory(directory@),
            StartInput::Below(directory, name) => Input::Below(directory@, name@),
            StartInput::Pieces(directory, name, verify) => Input::Pieces(
                directory@,
                name@,
                verify,
            ),
            StartInput::Node(url) => Input::Node(url@),
            StartInput::Thread(name) => Input::Thread(name@),
            StartInput::Connection => Input::Connection,
        }
    }
}

/// What `action` is done with: the directory that was asked for, the directory of the pieces below
/// it, with checksums compared as was asked for, the node at the address that was asked for. The
/// identity of the server and what is kept of the network are in the directory of the server.
pub open spec fn input_of(args: CacheServerArgs, action: StartAction) -> Input {
    let directory = args.cache_path.directory@;
    match action {
        StartAction::FindDirectory => Input::Directory(directory),
        StartAction::CreateDirectory => Input::Directory(directory),
        StartAction::FindPieceDirectory => Input::Below(directory, "piece"@),
        StartAction::CreatePieceDirectory => Input::Below(directory, "piece"@),
        StartAction::LoadPieces => Input::Pieces(directory, "piece"@, args.verify_piece),
        StartAction::Connect => Input::Node(args.node_rpc_url@),
        StartAction::AskNode => Input::Connection,
        StartAction::OpenIdentity => Input::Directory(directory),
        StartAction::JoinNetwork => Input::Directory(directory),
        StartAction::RunNetwork => Input::Thread("farmer-networking"@),
    }
}

/// Says what a step of the start is to be done with.
pub fn start_input(args: &CacheServerArgs, action: StartAction) -> (r: StartInput)
    ensures
        r@ == input_of(*args, action),
        action is LoadPieces ==> r is Pieces && r->Pieces_0@ == args.cache_path.directory@
            && r->Pieces_1@ == "piece"@ && r->Pieces_2 == args.verify_piece,
        action is Connect ==> r is Node && r->Node_0@ == args.node_rpc_url@,
        action is FindDirectory || action is CreateDirectory || action is OpenIdentity
            || action is JoinNetwork ==> r is Directory && r->Directory_0@
            == args.cache_path.directory@,
        action is FindPieceDirectory || action is CreatePieceDirectory ==> r is Below
            && r->Below_0@ == args.cache_path.directory@ && r->Below_1@ == "piece"@,
{
    let directory = args.cache_path.directory.clone();
    match action {
        StartAction::FindDirectory => StartInput::Directory(directory),
        StartAction::CreateDirectory => StartInput::Directory(directory),
        StartAction::FindPieceDirectory => StartInput::Below(
            directory,
            PIECE_DIRECTORY.to_owned(),
        ),
        StartAction::CreatePieceDirectory => StartInput::Below(
            directory,
            PIECE_DIRECTORY.to_owned(),
        ),
        StartAction::LoadPieces => StartInput::Pieces(
            directory,
            PIECE_DIRECTORY.to_owned(),
            args.verify_piece,
        ),
        StartAction::Connect => StartInput::Node(args.node_rpc_url.clone()),
        StartAction::AskNode => StartInput::Connection,
        StartAction::OpenIdentity => StartInput::Directory(directory),
        StartAction::JoinNetwork => StartInput::Directory(directory),
        StartAction::RunNetwork => StartInput::Thread(NETWORKING_THREAD.to_owned()),
    }
}

/// How what was to be done went.
pub enum StartEvent {
    /// It was done, or what was looked for exists.
    Done,
    /// What was looked for does not exist.
    Missing,
    /// It failed, for this reason.
    Failed(String),
}

/// How what was to be done went, over the characters of the reason.
pub enum Went {
    Done,
    Missing,
    Failed(Seq<char>),
}

impl View for StartEvent {
    type V = Went;

    open spec fn view(&self) -> Went {
        match *self {
            StartEvent::Done => Went::Done,
            StartEvent::Missing => Went::Missing,
            StartEvent::Failed(reason) => Went::Failed(reason@),
        }
    }
}

/// What is said of a directory that could not be created.
pub open spec fn creation_failure(
    what: Seq<char>,
    directory: Seq<char>,
    reason: Seq<char>,
) -> Seq<char> {
    what + directory + " doesn't exist and can't be created: "@ + reason
}

impl Starting {
    /// What is to be done next.
    pub open spec fn action(self) -> Option<StartAction> {
        match self.step {
            StartStep::FindDirectory => Some(StartAction::FindDirectory),
            StartStep::CreateDirectory => Some(StartAction::CreateDirectory),
            StartStep::FindPieceDirectory => Some(StartAction::FindPieceDirectory),
            StartStep::CreatePieceDirectory => Some(StartAction::CreatePieceDirectory),
            StartStep::LoadPieces => Some(StartAction::LoadPieces),
            StartStep::Connect => Some(StartAction::Connect),
            StartStep::AskNode => Some(StartAction::AskNode),
            StartStep::OpenIdentity => Some(StartAction::OpenIdentity),
            StartStep::JoinNetwork => Some(StartAction::JoinNetwork),
            StartStep::RunNetwork => Some(StartAction::RunNetwork),
            StartStep::Running => None,
            StartStep::Failed(_) => None,
        }
    }

    /// What is said if the next step fails for `reason`. Of the directory of the pieces, too, it is
    /// that of the server that is named.
    pub open spec fn failure(self, reason: Seq<char>) -> Seq<char> {
        match self.step {
            StartStep::CreateDirectory => creation_failure(
                "Directory "@,
                self.directory,
                reason,
            ),
            StartStep::CreatePieceDirectory => creation_failure(
                "Piece Dir "@,
                self.directory,
                reason,
            ),
            StartStep::OpenIdentity => "Failed to open or create identity: "@ + reason,
            _ => reason,
        }
    }

    /// The step that follows if this one succeeds.
    pub open spec fn following(self) -> StartStep {
        match self.step {
            StartStep::FindDirectory => StartStep::FindPieceDirectory,
            StartStep::CreateDirectory => StartStep::FindPieceDirectory,
            StartStep::FindPieceDirectory => StartStep::LoadPieces,
            StartStep::CreatePieceDirectory => StartStep::LoadPieces,
            StartStep::LoadPieces => StartStep::Connect,
            StartStep::Connect => StartStep::AskNode,
            StartStep::AskNode => StartStep::OpenIdentity,
            StartStep::OpenIdentity => StartStep::JoinNetwork,
            StartStep::JoinNetwork => StartStep::RunNetwork,
            StartStep::RunNetwork => StartStep::Running,
            StartStep::Running => self.step,
            StartStep::Failed(_) => self.step,
        }
    }

    /// How the start goes on after `event`: with the next step, or not at all after a failure. A
    /// directory that is not found, whatever the reason, is created.
    pub open spec fn next(self, event: Went) -> Starting {
        let step = match self.step {
            StartStep::Running => self.step,
            StartStep::Failed(_) => self.step,
            StartStep::FindDirectory => if event is Done {
                self.following()
            } else {
                StartStep::CreateDirectory
            },
            StartStep::FindPieceDirectory => if event is Done {
                self.following()
            } else {
                StartStep::CreatePieceDirectory
            },
            _ => match event {
                Went::Done => self.following(),
                Went::Missing => StartStep::Failed(self.failure(""@)),
                Went::Failed(reason) => StartStep::Failed(self.failure(reason)),
            },
        };
        Starting { step, ..self }
    }
}

/// A start before anything was done.
pub open spec fn start_of(directory: Seq<char>) -> Starting {
    Starting { directory, step: StartStep::FindDirectory }
}

/// A text of four parts.
fn join(a: &str, b: &str, c: &str, d: &str) -> (r: String)
    ensures
        r@ == a@ + b@ + c@ + d@,
{
    let mut r = a.to_owned();
    r.append(b);
    r.append(c);
    r.append(d);
    r
}

impl Startup {
    /// Starts the server.
    pub fn start(args: &CacheServerArgs) -> (r: Startup)
        ensures
            r@ == start_of(args.cache_path.directory@),
    {
        Startup {
            directory: args.cache_path.directory.clone(),
            stage: StartStage::FindDirectory,
        }
    }

    /// What to do next; nothing once the server runs or has failed to start.
    pub fn action(&self) -> (r: Option<StartAction>)
        ensures
            r == self@.action(),
    {
        match &self.stage {
            StartStage::FindDirectory => Some(StartAction::FindDirectory),
            StartStage::CreateDirectory => Some(StartAction::CreateDirectory),
            StartStage::FindPieceDirectory => Some(StartAction::FindPieceDirectory),
            StartStage::CreatePieceDirectory => Some(StartAction::CreatePieceDirectory),
            StartStage::LoadPieces => Some(StartAction::LoadPieces),
            StartStage::Connect => Some(StartAction::Connect),
            StartStage::AskNode => Some(StartAction::AskNode),
            StartStage::OpenIdentity => Some(StartAction::OpenIdentity),
            StartStage::JoinNetwork => Some(StartAction::JoinNetwork),
            StartStage::RunNetwork => Some(StartAction::RunNetwork),
            StartStage::Running => None,
            StartStage::Failed(_) => None,
        }
    }

    fn failure(&self, reason: &str) -> (r: String)
        ensures
            r@ == self@.failure(reason@),
    {
        let directory = self.directory.as_str();
        match &self.stage {
            StartStage::CreateDirectory => join(
                "Directory ",
                directory,
                " doesn't exist and can't be created: ",
                reason,
            ),
            StartStage::CreatePieceDirectory => join(
                "Piece Dir ",
                directory,
                " doesn't exist and can't be created: ",
                reason,
            ),
            StartStage::OpenIdentity => {
                let mut r = "Failed to open or create identity: ".to_owned();
                r.append(reason);
                r
            },
            _ => reason.to_owned(),
        }
    }

    /// Goes on after what was to be done.
    pub fn advance(self, event: StartEvent) -> (r: Startup)
        ensures
            r@ == self@.next(event@),
    {
        let reason = match &event {
            StartEvent::Failed(reason) => self.failure(reason.as_str()),
            _ => self.failure(""),
        };
        let done = match &event {
            StartEvent::Done => true,
            _ => false,
        };
        let stage = match self.stage {
            StartStage::FindDirectory => if done {
                StartStage::FindPieceDirectory
            } else {
                StartStage::CreateDirectory
            },
            StartStage::FindPieceDirectory => if done {
                StartStage::LoadPieces
            } else {
                StartStage::CreatePieceDirectory
            },
            StartStage::Running => StartStage::Running,
            StartStage::Failed(reason) => StartStage::Failed(reason),
            stage => if done {
                match stage {
                    StartStage::CreateDirectory => StartStage::FindPieceDirectory,
                    StartStage::CreatePieceDirectory => StartStage::LoadPieces,
                    StartStage::LoadPieces => StartStage::Connect,
                    StartStage::Connect => StartStage::AskNode,
                    StartStage::AskNode => StartStage::OpenIdentity,
                    StartStage::OpenIdentity => StartStage::JoinNetwork,
                    StartStage::JoinNetwork => StartStage::RunNetwork,
                    _ => StartStage::Running,
                }
            } else {
                StartStage::Failed(reason)
            },
        };
        Startup { directory: self.directory, stage }
    }

    /// How the start ended: the server runs, or why it does not.
    pub fn result(self) -> (r: Result<(), String>)
        requires
            self@.action() is None,
        ensures
            r is Ok <==> self@.step is Running,
            r is Err ==> self@.step == StartStep::Failed(r->Err_0@),
    {
        match self.stage {
            StartStage::Failed(reason) => Err(reason),
            _ => Ok(()),
        }
    }
}

/// How far a start has got after `events`.
pub open spec fn after_start(s: Starting, events: Seq<Went>) -> Starting
    decreases events.len(),
{
    if events.len() == 0 {
        s
    } else {
        after_start(s, events.drop_last()).next(events.last())
    }
}

/// How many steps a start has behind it at least.
pub open spec fn steps_behind(step: StartStep) -> int {
    match step {
        StartStep::FindDirectory => 0,
        StartStep::CreateDirectory => 1,
        StartStep::FindPieceDirectory => 2,
        StartStep::CreatePieceDirectory => 3,
        StartStep::LoadPieces => 4,
        StartStep::Connect => 5,
        StartStep::AskNode => 6,
        StartStep::OpenIdentity => 7,
        StartStep::JoinNetwork => 8,
        StartStep::RunNetwork => 9,
        StartStep::Running => 10,
        StartStep::Failed(_) => 10,
    }
}

/// However a start goes, the server runs or has failed to start after ten events at most.
pub proof fn law_start_ends(directory: Seq<char>, events: Seq<Went>)
    requires
        events.len() >= 10,
    ensures
        after_start(start_of(directory), events).action() is None,
{
    lemma_steps_behind(directory, events);
}

proof fn lemma_steps_behind(directory: Seq<char>, events: Seq<Went>)
    ensures
        steps_behind(after_start(start_of(directory), events).step) >= if events.len() < 10 {
            events.len() as int
        } else {
            10
        },
    decreases events.len(),
{
    if events.len() > 0 {
        lemma_steps_behind(directory, events.drop_last());
    }
}

/// Whether, in the course of `events`, `action` was to be done and was.
pub open spec fn was_done(s: Starting, events: Seq<Went>, action: StartAction) -> bool {
    exists|k: int|
        #![trigger events[k]]
        0 <= k < events.len() && events[k] is Done && after_start(s, events.take(k)).action()
            == Some(action)
}

/// The server runs only after everything that takes no detour was done: the pieces were loaded,
/// the node was reached and asked, the identity was opened, the network was joined and runs.
pub proof fn law_running_takes_every_step(directory: Seq<char>, events: Seq<Went>)
    requires
        after_start(start_of(directory), events).step is Running,
    ensures
        was_done(start_of(directory), events, StartAction::LoadPieces),
        was_done(start_of(directory), events, StartAction::Connect),
        was_done(start_of(directory), events, StartAction::AskNode),
        was_done(start_of(directory), events, StartAction::OpenIdentity),
        was_done(start_of(directory), events, StartAction::JoinNetwork),
        was_done(start_of(directory), events, StartAction::RunNetwork),
{
    lemma_steps_done(directory, events);
}

/// The directories are there before pieces are looked for: each was found or created.
pub proof fn law_directories_come_first(directory: Seq<char>, events: Seq<Went>)
    requires
        after_start(start_of(directory), events).step is LoadPieces,
    ensures
        was_done(start_of(directory), events, StartAction::FindDirectory) || was_done(
            start_of(directory),
            events,
            StartAction::CreateDirectory,
        ),
        was_done(start_of(directory), events, StartAction::FindPieceDirectory) || was_done(
            start_of(directory),
            events,
            StartAction::CreatePieceDirectory,
        ),
{
    lemma_steps_done(directory, events);
}

spec fn passed(s: Starting, events: Seq<Went>, n: int) -> bool {
    &&& n >= 2 ==> was_done(s, events, StartAction::FindDirectory) || was_done(
        s,
        events,
        StartAction::CreateDirectory,
    )
    &&& n >= 4 ==> was_done(s, events, StartAction::FindPieceDirectory) || was_done(
        s,
        events,
        StartAction::CreatePieceDirectory,
    )
    &&& n >= 5 ==> was_done(s, events, StartAction::LoadPieces)
    &&& n >= 6 ==> was_done(s, events, StartAction::Connect)
    &&& n >= 7 ==> was_done(s, events, StartAction::AskNode)
    &&& n >= 8 ==> was_done(s, events, StartAction::OpenIdentity)
    &&& n >= 9 ==> was_done(s, events, StartAction::JoinNetwork)
    &&& n >= 10 ==> was_done(s, events, StartAction::RunNetwork)
}

proof fn lemma_done_stays(s: Starting, events: Seq<Went>, action: StartAction)
    requires
        events.len() > 0,
        was_done(s, events.drop_last(), action),
    ensures
        was_done(s, events, action),
{
    let shorter = events.drop_last();
    let k = choose|k: int|
        #![trigger shorter[k]]
        0 <= k < shorter.len() && shorter[k] is Done && after_start(s, shorter.take(k)).action()
            == Some(action);
    assert(shorter.take(k) =~= events.take(k));
    assert(events[k] is Done);
}

proof fn lemma_steps_done(directory: Seq<char>, events: Seq<Went>)
    ensures
        !(after_start(start_of(directory), events).step is Failed) ==> passed(
            start_of(directory),
            events,
            steps_behind(after_start(start_of(directory), events).step),
        ),
    decreases events.len(),
{
    let s = start_of(directory);
    if events.len() > 0 {
        let shorter = events.drop_last();
        lemma_steps_done(directory, shorter);
        let before = after_start(s, shorter);
        assert forall|action: StartAction| was_done(s, shorter, action) implies #[trigger] was_done(
            s,
            events,
            action,
        ) by {
            lemma_done_stays(s, events, action);
        }
        if events.last() is Done && before.action() is Some {
            let last = events.len() - 1;
            assert(events.take(last) =~= shorter);
            assert(events[last] is Done);
            assert(was_done(s, events, before.action()->0));
        }
    }
}

/// A failure is final: whatever happens then, the reason stays.
pub proof fn law_failure_is_final(s: Starting, events: Seq<Went>)
    requires
        s.step is Failed,
    ensures
        after_start(s, events) == s,
    decreases events.len(),
{
    if events.len() > 0 {
        law_failure_is_final(s, events.drop_last());
    }
}

/// The bootstrap nodes that were asked for are used whenever there are any, and those of the node
/// only if there are none; every other setting stays as it was.
pub proof fn law_named_bootstrap_nodes_come_first(args: NetworkArgs, nodes: Vec<NodeAddress>)
    ensures
        args.bootstrap_nodes@.len() > 0 ==> with_bootstrap_nodes(args, nodes).bootstrap_nodes
            == args.bootstrap_nodes,
        args.bootstrap_nodes@.len() == 0 ==> with_bootstrap_nodes(args, nodes).bootstrap_nodes
            == nodes,
        with_bootstrap_nodes(args, nodes).listen_on == args.listen_on,
        with_bootstrap_nodes(args, nodes).allow_private_ips == args.allow_private_ips,
        with_bootstrap_nodes(args, nodes).reserved_peers == args.reserved_peers,
        with_bootstrap_nodes(args, nodes).in_connections == args.in_connections,
        with_bootstrap_nodes(args, nodes).out_connections == args.out_connections,
        with_bootstrap_nodes(args, nodes).pending_in_connections == args.pending_in_connections,
        with_bootstrap_nodes(args, nodes).pending_out_connections == args.pending_out_connections,
        with_bootstrap_nodes(args, nodes).external_addresses == args.external_addresses,
{
}

/// What the node names makes no difference to a server for which bootstrap nodes were named.
pub proof fn law_named_bootstrap_nodes_settle_it(
    args: NetworkArgs,
    nodes: Vec<NodeAddress>,
    others: Vec<NodeAddress>,
)
    requires
        args.bootstrap_nodes@.len() > 0,
    ensures
        with_bootstrap_nodes(args, nodes) == with_bootstrap_nodes(args, others),
        with_bootstrap_nodes(args, nodes) == args,
{
}

/// The server starts with what it was asked to: its own directory, the directory of the pieces
/// below it, checksums compared or not, the node at the address that was given.
pub proof fn law_start_uses_the_arguments(args: CacheServerArgs)
    ensures
        input_of(args, StartAction::FindDirectory) == Input::Directory(args.cache_path.directory@),
        input_of(args, StartAction::CreateDirectory) == Input::Directory(
            args.cache_path.directory@,
        ),
        input_of(args, StartAction::FindPieceDirectory) == Input::Below(
            args.cache_path.directory@,
            "piece"@,
        ),
        input_of(args, StartAction::CreatePieceDirectory) == Input::Below(
            args.cache_path.directory@,
            "piece"@,
        ),
        input_of(args, StartAction::LoadPieces) == Input::Pieces(
            args.cache_path.directory@,
            "piece"@,
            args.verify_piece,
        ),
        input_of(args, StartAction::Connect) == Input::Node(args.node_rpc_url@),
        input_of(args, StartAction::AskNode) is Connection,
        input_of(args, StartAction::OpenIdentity) == Input::Directory(args.cache_path.directory@),
        input_of(args, StartAction::JoinNetwork) == Input::Directory(args.cache_path.directory@),
        input_of(args, StartAction::RunNetwork) == Input::Thread("farmer-networking"@),
{
}

/// What a step is done with, and how it went, is seen for what it is.
pub proof fn law_inputs_and_events_are_seen_in_full(input: StartInput, event: StartEvent)
    ensures
        input matches StartInput::Directory(directory) ==> input@ == Input::Directory(directory@),
        input matches StartInput::Below(directory, name) ==> input@ == Input::Below(
            directory@,
            name@,
        ),
        input matches StartInput::Pieces(directory, name, verify) ==> input@ == Input::Pieces(
            directory@,
            name@,
            verify,
        ),
        input matches StartInput::Node(url) ==> input@ == Input::Node(url@),
        input matches StartInput::Thread(name) ==> input@ == Input::Thread(name@),
        input is Connection ==> input@ is Connection,
        event is Done ==> event@ is Done,
        event is Missing ==> event@ is Missing,
        event matches StartEvent::Failed(reason) ==> event@ == Went::Failed(reason@),
{
}

/// Each step that was done is followed by the next one, in the one order there is, and a directory
/// is created exactly if it was not found.
pub proof fn law_steps_follow_each_other(directory: Seq<char>, s: Starting, event: Went)
    ensures
        start_of(directory).directory == directory,
        start_of(directory).action() == Some(StartAction::FindDirectory),
        s.next(event).directory == s.directory,
        s.action() == Some(StartAction::FindDirectory) && event is Done ==> s.next(event).action()
            == Some(StartAction::FindPieceDirectory),
        s.action() == Some(StartAction::FindDirectory) && !(event is Done) ==> s.next(
            event,
        ).action() == Some(StartAction::CreateDirectory),
        s.action() == Some(StartAction::CreateDirectory) && event is Done ==> s.next(
            event,
        ).action() == Some(StartAction::FindPieceDirectory),
        s.action() == Some(StartAction::FindPieceDirectory) && event is Done ==> s.next(
            event,
        ).action() == Some(StartAction::LoadPieces),
        s.action() == Some(StartAction::FindPieceDirectory) && !(event is Done) ==> s.next(
            event,
        ).action() == Some(StartAction::CreatePieceDirectory),
        s.action() == Some(StartAction::CreatePieceDirectory) && event is Done ==> s.next(
            event,
        ).action() == Some(StartAction::LoadPieces),
        s.action() == Some(StartAction::LoadPieces) && event is Done ==> s.next(event).action()
            == Some(StartAction::Connect),
        s.action() == Some(StartAction::Connect) && event is Done ==> s.next(event).action()
            == Some(StartAction::AskNode),
        s.action() == Some(StartAction::AskNode) && event is Done ==> s.next(event).action()
            == Some(StartAction::OpenIdentity),
        s.action() == Some(StartAction::OpenIdentity) && event is Done ==> s.next(event).action()
            == Some(StartAction::JoinNetwork),
        s.action() == Some(StartAction::JoinNetwork) && event is Done ==> s.next(event).action()
            == Some(StartAction::RunNetwork),
        s.action() == Some(StartAction::RunNetwork) && event is Done ==> s.next(event).step
            is Running,
        s.action() is None <==> s.step is Running || s.step is Failed,
        s.action() is None ==> s.next(event) == s,
{
}

/// A step that failed ends the start with a reason that tells of it: the server's directory and why
/// it, or that of the pieces, could not be created, why there is no identity, or just the reason.
pub proof fn law_failures_tell_the_reason(s: Starting, reason: Seq<char>)
    ensures
        s.action() == Some(StartAction::CreateDirectory) ==> s.next(Went::Failed(reason)).step
            == StartStep::Failed(
            "Directory "@ + s.directory + " doesn't exist and can't be created: "@ + reason,
        ),
        s.action() == Some(StartAction::CreatePieceDirectory) ==> s.next(Went::Failed(reason)).step
            == StartStep::Failed(
            "Piece Dir "@ + s.directory + " doesn't exist and can't be created: "@ + reason,
        ),
        s.action() == Some(StartAction::OpenIdentity) ==> s.next(Went::Failed(reason)).step
            == StartStep::Failed("Failed to open or create identity: "@ + reason),
        s.action() == Some(StartAction::LoadPieces) || s.action() == Some(StartAction::Connect)
            || s.action() == Some(StartAction::AskNode) || s.action() == Some(
            StartAction::JoinNetwork,
        ) || s.action() == Some(StartAction::RunNetwork) ==> s.next(Went::Failed(reason)).step
            == StartStep::Failed(reason),
{
}

} // verus!
