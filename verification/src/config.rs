//! Settings of the CPU miner, as read from its TOML file, and their checks.

use crate::hexcode::{hex_decode, hex_decode_spec, is_hex, text_bytes};
use vstd::prelude::*;

verus! {

/// The whole configuration of the CPU miner.
pub struct Config {
    pub rpc: RpcConfig,
    pub mining: MiningConfig,
}

/// Where and how to reach the node's JSON-RPC interface.
pub struct RpcConfig {
    pub url: String,
    pub user: String,
    pub password: String,
}

/// Mining settings of the CPU miner.
pub struct MiningConfig {
    /// Hex-encoded scriptPubKey for the coinbase output (your payout).
    pub payout_script_hex: String,
    /// Number of mining threads. 0 = use all logical cores.
    pub threads: usize,
    /// Seconds between template refreshes.
    pub refresh_seconds: u64,
    /// Tag bytes injected into the coinbase scriptSig after the BIP34 height and extranonce.
    pub coinbase_tag: String,
}

/// Why a configuration was refused.
#[derive(Debug, Clone, Copy, PartialEq, Eq, Structural)]
pub enum ConfigError {
    /// `mining.payout_script_hex` is not valid hex.
    PayoutScriptNotHex,
    /// `mining.payout_script_hex` is empty.
    PayoutScriptEmpty,
    /// `rpc.url` does not start with `http`.
    UrlNotHttp,
    /// One of `gpu.threads_per_block`, `gpu.blocks`, `gpu.nonces_per_thread` is zero.
    ZeroGpuDimension,
}

/// The default seconds between template refreshes.
pub fn default_refresh() -> (r: u64)
    ensures
        r == 30,
{
    30
}

/// The default coinbase tag of the CPU miner.
pub fn default_tag() -> (tag: String)
    ensures
        tag@ == "/btc-lottery-miner/"@,
{
    "/btc-lottery-miner/".to_string()
}

/// The bytes `http`.
pub open spec fn http_prefix() -> Seq<u8> {
    seq![0x68u8, 0x74u8, 0x74u8, 0x70u8]
}

/// Text whose bytes begin with `http`.
pub open spec fn starts_with_http(text: Seq<u8>) -> bool {
    text.len() >= 4 && text.take(4) == http_prefix()
}

/// Whether a URL's bytes begin with `http`.
pub fn url_starts_with_http(url: &str) -> (r: bool)
    ensures
        r == starts_with_http(text_bytes(url@)),
{
    let b = url.as_bytes();
    let r = b.len() >= 4 && b[0] == 0x68 && b[1] == 0x74 && b[2] == 0x74 && b[3] == 0x70;
    proof {
        if b@.len() >= 4 {
            assert(r == (b@.take(4) =~= http_prefix()));
        }
    }
    r
}

/// Why the payout script and URL are refused, if they are: the payout script must be
/// non-empty hex, the URL must begin with `http`; checked in that order.
pub open spec fn payout_and_url_error(payout_hex: Seq<u8>, url: Seq<u8>) -> Option<ConfigError> {
    if !is_hex(payout_hex) {
        Some(ConfigError::PayoutScriptNotHex)
    } else if payout_hex.len() == 0 {
        Some(ConfigError::PayoutScriptEmpty)
    } else if !starts_with_http(url) {
        Some(ConfigError::UrlNotHttp)
    } else {
        None
    }
}

/// Checks the payout script and the URL.
pub fn check_payout_and_url(payout_script_hex: &String, url: &String) -> (r: Result<(), ConfigError>)
    ensures
        r is Err <==> payout_and_url_error(text_bytes(payout_script_hex@), text_bytes(url@)) is Some,
        r matches Err(e) ==> payout_and_url_error(text_bytes(payout_script_hex@), text_bytes(url@))
            == Some(e),
{
    let payout = payout_script_hex.as_str();
    if hex_decode(payout.as_bytes()).is_err() {
        return Err(ConfigError::PayoutScriptNotHex);
    }
    if payout.as_bytes().len() == 0 {
        return Err(ConfigError::PayoutScriptEmpty);
    }
    if !url_starts_with_http(url.as_str()) {
        return Err(ConfigError::UrlNotHttp);
    }
    Ok(())
}

/// `num_cpus::get`: the number of logical CPUs this process may use. Its documentation
/// promises at least one; the exact number depends on the machine and is not stated.
#[verifier::external_body]
fn available_cpus() -> (n: usize)
    ensures
        n >= 1,
{
    num_cpus::get()
}

/// The payout scriptPubKey bytes of a hex setting.
pub fn payout_script_bytes(payout_script_hex: &String) -> (r: Result<Vec<u8>, ConfigError>)
    ensures
        r is Ok <==> is_hex(text_bytes(payout_script_hex@)),
        r matches Ok(v) ==> v@ == hex_decode_spec(text_bytes(payout_script_hex@)),
        r matches Err(e) ==> e == ConfigError::PayoutScriptNotHex,
{
    match hex_decode(payout_script_hex.as_str().as_bytes()) {
        Ok(v) => Ok(v),
        Err(_) => Err(ConfigError::PayoutScriptNotHex),
    }
}

/// The bytes of a coinbase tag setting.
pub fn tag_bytes(coinbase_tag: &String) -> (tag: Vec<u8>)
    ensures
        tag@ == text_bytes(coinbase_tag@),
{
    let b = coinbase_tag.as_str().as_bytes();
    let mut v: Vec<u8> = Vec::new();
    crate::bytes::append_bytes(&mut v, b);
    v
}

/// Seconds between template refreshes, at least one.
pub fn refresh_period_secs(refresh_seconds: u64) -> (r: u64)
    ensures
        r == if refresh_seconds >= 1 { refresh_seconds } else { 1 },
{
    if refresh_seconds >= 1 {
        refresh_seconds
    } else {
        1
    }
}

/// Whether a new template is due: `refresh_seconds` (at least one) have passed since the
/// last request for one.
pub fn poll_due(elapsed_since_poll_secs: u64, refresh_seconds: u64) -> (due: bool)
    ensures
        due == (elapsed_since_poll_secs >= if refresh_seconds >= 1 { refresh_seconds } else { 1 }),
{
    elapsed_since_poll_secs >= refresh_period_secs(refresh_seconds)
}

impl Config {
    /// Checks the configuration: the payout script must be non-empty hex and the URL must
    /// begin with `http`.
    pub fn validate(&self) -> (r: Result<(), ConfigError>)
        ensures
            r is Err <==> payout_and_url_error(
                text_bytes(self.mining.payout_script_hex@),
                text_bytes(self.rpc.url@),
            ) is Some,
            r matches Err(e) ==> payout_and_url_error(
                text_bytes(self.mining.payout_script_hex@),
                text_bytes(self.rpc.url@),
            ) == Some(e),
    {
        check_payout_and_url(&self.mining.payout_script_hex, &self.rpc.url)
    }

    /// The number of mining threads, with `available` logical cores: `threads`, or all
    /// cores when `threads` is zero.
    pub fn resolve_threads(&self, available: usize) -> (n: usize)
        ensures
            n == if self.mining.threads == 0 { available } else { self.mining.threads },
    {
        if self.mining.threads == 0 {
            available
        } else {
            self.mining.threads
        }
    }

    /// The number of mining threads: `threads`, or all logical cores when it is zero.
    pub fn resolved_threads(&self) -> (n: usize)
        ensures
            self.mining.threads != 0 ==> n == self.mining.threads,
            n >= 1,
    {
        if self.mining.threads == 0 {
            let available = available_cpus();
            self.resolve_threads(available)
        } else {
            self.mining.threads
        }
    }
}

} // verus!
