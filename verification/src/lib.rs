//! Verified core of a concurrent IPv4 game-server scanner: address-space
//! sampling, the status-query wire protocol (varint framing, handshake
//! packets, response description extraction), the range-termination
//! heuristic, and the statistics aggregation pipeline.

pub mod config;
pub mod discord;
pub mod minecraft;
pub mod network;
pub mod scanner;
pub mod stats;
pub mod text;
pub mod varint;
