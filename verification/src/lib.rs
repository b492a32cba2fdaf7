//! Core of a BitTorrent tracker: connection tokens, the swarm registry with
//! peer sampling, scrape aggregation across shards, request routing and the
//! connection lifecycle, each with a machine-checked contract.

pub mod common;
pub mod peers;
pub mod swarm;
pub mod random;
pub mod sampler;
pub mod connection_tokens;
pub mod udp;
pub mod handlers;
pub mod router;
pub mod scrape;
pub mod ws;
pub mod ws_connection;
pub mod http;
pub mod http_connection;
pub mod bencode;
pub mod json;
pub mod text;
pub mod ws_codec;
pub mod config;
pub mod statistics;
pub mod http_codec;
pub mod http_request;
