//! Server configuration. Loading it from `config.json` and `NOX_*`
//! environment variables is the caller's job; this module holds the values
//! and their defaults. `f32` settings are held as their IEEE-754 bit patterns.
use vstd::prelude::*;

use crate::constants::{
    DEFAULT_CONNECTION_TIMEOUT, DEFAULT_KEEP_ALIVE_INTERVAL, DEFAULT_MAX_INSTANCES, DEFAULT_NODE_ADDRESS,
    DEFAULT_NODE_GATEWAY, DEFAULT_PORT, DEFAULT_PROPERTY_RESEND_INTERVAL,
};

verus! {

/// Server configuration.
#[derive(Debug, Clone)]
pub struct Config {
    /// UDP/TCP listen port (QUIC binds here).
    pub port: u16,
    /// WebSocket URL of the Node server.
    pub node_gateway: String,
    /// Public Node server address advertised to clients.
    pub node_address: String,
    /// Public address of this relay advertised to clients (default `"0.0.0.0:{port}"`).
    pub use_address: Option<String>,
    /// Bearer token for MasterServer authentication.
    pub token: String,
    /// Maximum number of instances this relay will host.
    pub max_instances: u8,
    /// Seconds before an idle client is disconnected.
    pub connection_timeout: u16,
    /// Seconds between keep-alive pings.
    pub keep_alive_interval: u16,
    /// Seconds between forced re-sends of unchanged LocalEmit properties (0 = off).
    pub property_resend_interval: u8,
    /// Enable debug-level logging (and bots by default).
    pub debug: bool,
    /// Load balancing configuration.
    pub load_balancing: LoadBalancingConfig,
}

/// Configuration for adaptive load balancing.
#[derive(Debug, Clone)]
pub struct LoadBalancingConfig {
    /// Enable adaptive load balancing.
    pub enabled: bool,
    /// Update interval in seconds.
    pub update_interval: u16,
    /// Minimum TPS (never go below this).
    pub min_tps: u8,
    /// Weight of the player-count factor (bits of an `f32`).
    pub player_weight: u32,
    /// Weight of the performance factor (bits of an `f32`).
    pub perf_weight: u32,
    /// Tick time / budget ratio that triggers a reduction (bits of an `f32`).
    pub perf_threshold: u32,
    /// Player load tiers, by ascending `max_players`.
    pub tiers: Vec<LoadTier>,
}

/// One player-load tier.
#[derive(Debug, Clone, Copy)]
pub struct LoadTier {
    /// Maximum player count for this tier.
    pub max_players: usize,
    /// TPS multiplier (bits of an `f32`).
    pub tps_factor: u32,
}

pub fn default_port() -> (p: u16)
    ensures
        p == DEFAULT_PORT,
{
    DEFAULT_PORT
}

pub fn default_node_gateway() -> (s: String)
    ensures
        s@ == DEFAULT_NODE_GATEWAY@,
{
    String::from_str(DEFAULT_NODE_GATEWAY)
}

pub fn default_node_address() -> (s: String)
    ensures
        s@ == DEFAULT_NODE_ADDRESS@,
{
    String::from_str(DEFAULT_NODE_ADDRESS)
}

pub fn default_max_instances() -> (n: u8)
    ensures
        n == DEFAULT_MAX_INSTANCES,
{
    DEFAULT_MAX_INSTANCES
}

pub fn default_connection_timeout() -> (n: u16)
    ensures
        n == DEFAULT_CONNECTION_TIMEOUT,
{
    DEFAULT_CONNECTION_TIMEOUT
}

pub fn default_keep_alive_interval() -> (n: u16)
    ensures
        n == DEFAULT_KEEP_ALIVE_INTERVAL,
{
    DEFAULT_KEEP_ALIVE_INTERVAL
}

pub fn default_property_resend_interval() -> (n: u8)
    ensures
        n == DEFAULT_PROPERTY_RESEND_INTERVAL,
{
    DEFAULT_PROPERTY_RESEND_INTERVAL
}

pub fn default_lb_enabled() -> (b: bool)
    ensures
        b,
{
    true
}

/// Seconds between load-balancing passes.
pub fn default_lb_update_interval() -> (n: u16)
    ensures
        n == 3,
{
    3
}

pub fn default_lb_min_tps() -> (n: u8)
    ensures
        n == 5,
{
    5
}

/// `0.15f32`: player count only nudges the rate.
pub fn default_lb_player_weight() -> (w: u32)
    ensures
        w == 0x3E19_999A,
{
    0x3E19_999A
}

/// `0.85f32`: tick performance drives the rate.
pub fn default_lb_perf_weight() -> (w: u32)
    ensures
        w == 0x3F59_999A,
{
    0x3F59_999A
}

/// `0.80f32` of the tick budget.
pub fn default_lb_perf_threshold() -> (w: u32)
    ensures
        w == 0x3F4C_CCCD,
{
    0x3F4C_CCCD
}

/// The tier table the relay ships with, as `(max_players, tps_factor bits)`.
pub open spec fn default_tier_table() -> Seq<(usize, u32)> {
    seq![
        (10usize, 0x3F80_0000u32),
        (20usize, 0x3F73_3333u32),
        (35usize, 0x3F61_47AEu32),
        (50usize, 0x3F4C_CCCDu32),
        (70usize, 0x3F38_51ECu32),
        (usize::MAX, 0x3F26_6666u32),
    ]
}

/// Tiers: up to 10 players 1.00, 20 → 0.95, 35 → 0.88, 50 → 0.80,
/// 70 → 0.72, beyond → 0.65.
pub fn default_lb_tiers() -> (tiers: Vec<LoadTier>)
    ensures
        tiers@.len() == default_tier_table().len(),
        forall|i: int| 0 <= i < tiers@.len() ==> (#[trigger] tiers@[i]).max_players == default_tier_table()[i].0
            && tiers@[i].tps_factor == default_tier_table()[i].1,
{
    let mut t: Vec<LoadTier> = Vec::new();
    t.push(LoadTier { max_players: 10, tps_factor: 0x3F80_0000 });
    t.push(LoadTier { max_players: 20, tps_factor: 0x3F73_3333 });
    t.push(LoadTier { max_players: 35, tps_factor: 0x3F61_47AE });
    t.push(LoadTier { max_players: 50, tps_factor: 0x3F4C_CCCD });
    t.push(LoadTier { max_players: 70, tps_factor: 0x3F38_51EC });
    t.push(LoadTier { max_players: usize::MAX, tps_factor: 0x3F26_6666 });
    t
}

impl Default for LoadBalancingConfig {
    fn default() -> (c: Self)
        ensures
            c.enabled,
            c.update_interval == 3,
            c.min_tps == 5,
            c.player_weight == 0x3E19_999A,
            c.perf_weight == 0x3F59_999A,
            c.perf_threshold == 0x3F4C_CCCD,
            c.tiers@.len() == default_tier_table().len(),
            forall|i: int| 0 <= i < c.tiers@.len() ==> (#[trigger] c.tiers@[i]).max_players == default_tier_table()[i].0
                && c.tiers@[i].tps_factor == default_tier_table()[i].1,
    {
        LoadBalancingConfig {
            enabled: default_lb_enabled(),
            update_interval: default_lb_update_interval(),
            min_tps: default_lb_min_tps(),
            player_weight: default_lb_player_weight(),
            perf_weight: default_lb_perf_weight(),
            perf_threshold: default_lb_perf_threshold(),
            tiers: default_lb_tiers(),
        }
    }
}

/// Whether tier `i` is the first of `tiers` that admits `count` players.
pub open spec fn is_first_tier(tiers: Seq<LoadTier>, count: usize, i: int) -> bool {
    0 <= i < tiers.len() && count <= tiers[i].max_players
        && forall|j: int| 0 <= j < i ==> count > #[trigger] tiers[j].max_players
}

impl LoadBalancingConfig {
    /// The TPS factor (bits of an `f32`) of the first tier admitting `count`
    /// players; `None` when every tier is smaller.
    pub fn tier_factor(&self, count: usize) -> (f: Option<u32>)
        ensures
            match f {
                Some(x) => exists|i: int| is_first_tier(self.tiers@, count, i) && self.tiers@[i].tps_factor == x,
                None => forall|j: int| 0 <= j < self.tiers@.len() ==> count > #[trigger] self.tiers@[j].max_players,
            },
    {
        let mut i: usize = 0;
        while i < self.tiers.len()
            invariant
                i <= self.tiers@.len(),
                forall|j: int| 0 <= j < i ==> count > #[trigger] self.tiers@[j].max_players,
            decreases self.tiers@.len() - i,
        {
            if count <= self.tiers[i].max_players {
                assert(is_first_tier(self.tiers@, count, i as int));
                return Some(self.tiers[i].tps_factor);
            }
            i = i + 1;
        }
        None
    }
}

} // verus!

