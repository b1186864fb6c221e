//! The verified core of AKCloud, a self-hosted file sync and tagging
//! server: file classification and tags, content hashes, the graveyard of
//! replaced file versions, the peer registry, the node identity, the
//! configuration and the rules the HTTP API and the file index follow.

pub mod text;
pub mod paths;
pub mod digest;
pub mod tagger;
pub mod net;
pub mod ids;
pub mod config;
pub mod time;
pub mod graveyard;
pub mod reaping;
pub mod discovery;
pub mod identity;
pub mod db;
pub mod server;
pub mod cli;
pub mod sync;
