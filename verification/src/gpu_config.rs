//! Settings of the GPU miner, as read from its TOML file, and their checks.

use crate::config::{check_payout_and_url, payout_and_url_error, ConfigError};
use crate::hexcode::text_bytes;
use vstd::prelude::*;

verus! {

/// The whole configuration of the GPU miner.
pub struct Config {
    pub rpc: RpcConfig,
    pub mining: MiningConfig,
    pub gpu: GpuConfig,
}

/// Where and how to reach the node's JSON-RPC interface.
pub struct RpcConfig {
    pub url: String,
    pub user: String,
    pub password: String,
}

/// Mining settings of the GPU miner.
pub struct MiningConfig {
    /// Hex-encoded scriptPubKey for the coinbase output (your payout).
    pub payout_script_hex: String,
    /// Seconds between template refreshes.
    pub refresh_seconds: u64,
    /// Tag bytes injected into the coinbase scriptSig after the BIP34 height and extranonce.
    pub coinbase_tag: String,
}

/// GPU dispatch tuning. The kernel is launched as a grid of
/// `blocks * threads_per_block` threads, each hashing `nonces_per_thread` nonces.
/// Total nonces per kernel launch = blocks * threads_per_block * nonces_per_thread.
pub struct GpuConfig {
    /// Which CUDA device to use (0 = first GPU).
    pub device_index: usize,
    /// CUDA threads per block.
    pub threads_per_block: u32,
    /// Number of CUDA blocks per launch ("intensity").
    pub blocks: u32,
    /// Nonces hashed per thread per launch.
    pub nonces_per_thread: u32,
}

/// The default seconds between template refreshes.
pub fn default_refresh() -> (r: u64)
    ensures
        r == 30,
{
    30
}

/// The default coinbase tag of the GPU miner.
pub fn default_tag() -> (tag: String)
    ensures
        tag@ == "/btc-lottery-miner-gpu/"@,
{
    "/btc-lottery-miner-gpu/".to_string()
}

/// The default CUDA threads per block.
pub fn default_tpb() -> (r: u32)
    ensures
        r == 256,
{
    256
}

/// The default CUDA blocks per launch.
pub fn default_blocks() -> (r: u32)
    ensures
        r == 4096,
{
    4096
}

/// The default nonces per thread per launch.
pub fn default_npt() -> (r: u32)
    ensures
        r == 64,
{
    64
}

impl Default for GpuConfig {
    /// Device 0 with the default grid.
    fn default() -> (c: GpuConfig)
        ensures
            c.device_index == 0,
            c.threads_per_block == 256,
            c.blocks == 4096,
            c.nonces_per_thread == 64,
    {
        GpuConfig {
            device_index: 0,
            threads_per_block: default_tpb(),
            blocks: default_blocks(),
            nonces_per_thread: default_npt(),
        }
    }
}

impl Config {
    /// Why the configuration is refused, if it is: the payout script and URL checks, then
    /// every GPU grid dimension must be positive.
    pub open spec fn error_spec(&self) -> Option<ConfigError> {
        let base = payout_and_url_error(text_bytes(self.mining.payout_script_hex@), text_bytes(self.rpc.url@));
        if base is Some {
            base
        } else if self.gpu.threads_per_block == 0 || self.gpu.blocks == 0 || self.gpu.nonces_per_thread == 0 {
            Some(ConfigError::ZeroGpuDimension)
        } else {
            None
        }
    }

    /// Checks the configuration: the payout script must be non-empty hex, the URL must begin
    /// with `http`, and the GPU grid dimensions must all be positive.
    pub fn validate(&self) -> (r: Result<(), ConfigError>)
        ensures
            r is Err <==> self.error_spec() is Some,
            r matches Err(e) ==> self.error_spec() == Some(e),
    {
        match check_payout_and_url(&self.mining.payout_script_hex, &self.rpc.url) {
            Ok(()) => {},
            Err(e) => return Err(e),
        }
        if self.gpu.threads_per_block == 0 || self.gpu.blocks == 0 || self.gpu.nonces_per_thread == 0 {
            return Err(ConfigError::ZeroGpuDimension);
        }
        Ok(())
    }
}

} // verus!
