//! The commands and what can be asked of them.

use crate::network::NetworkArgs;
use vstd::prelude::*;

verus! {

/// Where the node is asked unless said otherwise.
pub const DEFAULT_NODE_RPC_URL: &'static str = "ws://127.0.0.1:9944";

/// How many pieces are downloaded at a time unless said otherwise.
pub const DEFAULT_DOWNLOAD_COUNT: u32 = 10;

/// Where the node is asked about keys and peers unless said otherwise.
pub const DEFAULT_RPC_URL: &'static str = "http://127.0.0.1:9944";

/// A place on disk.
pub struct DiskFarm {
    pub directory: String,
}

/// What can be asked of the cache server.
pub struct CacheServerArgs {
    /// Where the cache is kept.
    pub cache_path: DiskFarm,
    /// Where the node is asked.
    pub node_rpc_url: String,
    /// How many pieces are downloaded at a time.
    pub download_count: u32,
    /// The server that is asked for pieces before the network is.
    pub http_server: Option<String>,
    /// Whether pieces are compared with their checksums at the start.
    pub verify_piece: bool,
    /// Whether pieces past those that are cached are left alone.
    pub disable_detect_future_piece: bool,
    /// How to take part in the network.
    pub dsn: NetworkArgs,
}

impl CacheServerArgs {
    /// What is asked of the server unless more is said than where to cache and how to take part in
    /// the network.
    pub fn new(cache_path: DiskFarm, dsn: NetworkArgs) -> (r: CacheServerArgs)
        ensures
            r.cache_path == cache_path,
            r.node_rpc_url@ == "ws://127.0.0.1:9944"@,
            r.download_count == 10,
            r.http_server is None,
            !r.verify_piece,
            !r.disable_detect_future_piece,
            r.dsn == dsn,
    {
        CacheServerArgs {
            cache_path,
            node_rpc_url: DEFAULT_NODE_RPC_URL.to_owned(),
            download_count: DEFAULT_DOWNLOAD_COUNT,
            http_server: None,
            verify_piece: false,
            disable_detect_future_piece: false,
            dsn,
        }
    }
}

/// Why a command failed.
#[derive(Debug)]
pub enum CommandError {
    /// The node could not be reached.
    Connection(String),
}

/// Options for creating a domain key.
#[derive(Debug)]
pub struct CreateDomainKeyOptions {
    /// Where the node is asked.
    pub rpc_url: String,
}

impl Default for CreateDomainKeyOptions {
    fn default() -> (r: CreateDomainKeyOptions)
        ensures
            r.rpc_url@ == "http://127.0.0.1:9944"@,
    {
        CreateDomainKeyOptions { rpc_url: DEFAULT_RPC_URL.to_owned() }
    }
}

/// Creates a domain key: there is nothing to be done for it yet, and so it succeeds whatever the
/// options are.
pub fn create_domain_key(options: CreateDomainKeyOptions) -> (r: Result<(), CommandError>)
    ensures
        r == Ok::<(), CommandError>(()),
{
    let CreateDomainKeyOptions { rpc_url: _ } = options;
    Ok(())
}

/// Options for listing the peers that the node is connected to.
#[derive(Debug)]
pub struct ListConnectPeersOptions {
    /// Where the node is asked.
    pub rpc_url: String,
}

impl Default for ListConnectPeersOptions {
    fn default() -> (r: ListConnectPeersOptions)
        ensures
            r.rpc_url@ == "http://127.0.0.1:9944"@,
    {
        ListConnectPeersOptions { rpc_url: DEFAULT_RPC_URL.to_owned() }
    }
}

/// Where to connect to list the peers.
pub fn peers_endpoint(options: &ListConnectPeersOptions) -> (r: String)
    ensures
        r@ == options.rpc_url@,
{
    options.rpc_url.clone()
}

/// Lists the peers that the node is connected to, given how connecting to the node went. So far
/// nothing follows the connection, so that the command succeeds exactly if connecting did.
pub fn list_connected_peers(connection: Result<(), String>) -> (r: Result<(), CommandError>)
    ensures
        connection is Ok ==> r == Ok::<(), CommandError>(()),
        connection is Err ==> r == Err::<(), CommandError>(
            CommandError::Connection(connection->Err_0),
        ),
{
    match connection {
        Ok(()) => Ok(()),
        Err(error) => Err(CommandError::Connection(error)),
    }
}

} // verus!
