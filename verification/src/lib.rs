//! The verified core of a piece cache server.

pub mod primitives;
pub mod text;
pub mod paths;
pub mod checksum;
pub mod disk;
pub mod save;
pub mod read;
pub mod load;
pub mod cache;
pub mod recovery;
pub mod durability;
pub mod download;
pub mod sync;
pub mod handlers;
pub mod keys;
pub mod network;
pub mod rpc;
pub mod server;
pub mod commands;
