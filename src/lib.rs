//! A BitTorrent protocol engine: peer-wire message codec, handshake, tracker
//! framing, piece bookkeeping and the download decisions around them.

pub mod wire;
pub mod messages;
pub mod handshake;
pub mod ids;
pub mod peer;
pub mod tracker;
pub mod digest;
pub mod work;
pub mod torrent;
pub mod engine;
pub mod cli;
pub mod session;
