//! The recognized configuration options, as plain values.
//!
//! Loading and deserializing the configuration file happens outside the
//! library; these types carry the options the scanner's logic reads.

use vstd::prelude::*;

verus! {

#[derive(Debug, Clone)]
pub struct Config {
    pub scanning: ScanningConfig,
    pub timeouts: TimeoutsConfig,
    pub networking: NetworkingConfig,
    pub minecraft: MinecraftConfig,
    pub test_servers: TestServersConfig,
    pub stats: StatsConfig,
    pub discord: DiscordConfig,
}

#[derive(Debug, Clone, Copy)]
pub struct ScanningConfig {
    pub port: u16,
    pub num_tasks: usize,
    pub max_range_size: usize,
    pub consecutive_threshold: usize,
    pub chunk_size: usize,
}

#[derive(Debug, Clone, Copy)]
pub struct TimeoutsConfig {
    pub port_check_ms: u64,
    pub connection_ms: u64,
    pub protocol_response_ms: u64,
}

#[derive(Debug, Clone, Copy)]
pub struct NetworkingConfig {
    pub base_source_port: u16,
    pub port_range_per_task: u16,
}

#[derive(Debug, Clone, Copy)]
pub struct MinecraftConfig {
    pub protocol_version: i32,
}

#[derive(Debug, Clone)]
pub struct TestServersConfig {
    pub test_ips: Vec<String>,
}

#[derive(Debug, Clone, Copy)]
pub struct StatsConfig {
    pub stats_interval_seconds: u64,
}

/// The notification endpoints, one per version line and activity state.
#[derive(Debug, Clone)]
pub struct DiscordConfig {
    pub webhook_121_active: String,
    pub webhook_120_active: String,
    pub webhook_119_active: String,
    pub webhook_other_active: String,
    pub webhook_121_empty: String,
    pub webhook_120_empty: String,
    pub webhook_119_empty: String,
    pub webhook_other_empty: String,
}

} // verus!
