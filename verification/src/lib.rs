//! Peer-to-peer file synchronisation: the decisions of the server and of the
//! desktop client, as functions on plain values.

pub mod auth;
pub mod bitfield;
pub mod cdc;
pub mod client;
pub mod config;
pub mod database;
pub mod files;
pub mod folders;
pub mod groups;
pub mod hashing;
pub mod ids;
pub mod labels;
pub mod quic;
pub mod schedule;
pub mod serve;
pub mod signaling;
pub mod sql;
pub mod status;
pub mod storage;
pub mod text;
pub mod tracker;
pub mod upload;
