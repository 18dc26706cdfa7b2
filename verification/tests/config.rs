use btc_lottery_miner::config::{
    self, check_payout_and_url, payout_script_bytes, poll_due, refresh_period_secs, tag_bytes, Config,
    ConfigError, MiningConfig, RpcConfig,
};
use btc_lottery_miner::gpu_config::{self, GpuConfig};

fn cpu_config(payout: &str, url: &str, threads: usize) -> Config {
    Config {
        rpc: RpcConfig { url: url.to_string(), user: "miner".to_string(), password: "pw".to_string() },
        mining: MiningConfig {
            payout_script_hex: payout.to_string(),
            threads,
            refresh_seconds: config::default_refresh(),
            coinbase_tag: config::default_tag(),
        },
    }
}

fn gpu_cfg(payout: &str, url: &str, gpu: GpuConfig) -> gpu_config::Config {
    gpu_config::Config {
        rpc: gpu_config::RpcConfig {
            url: url.to_string(),
            user: "miner".to_string(),
            password: "pw".to_string(),
        },
        mining: gpu_config::MiningConfig {
            payout_script_hex: payout.to_string(),
            refresh_seconds: gpu_config::default_refresh(),
            coinbase_tag: gpu_config::default_tag(),
        },
        gpu,
    }
}

#[test]
fn defaults() {
    assert_eq!(config::default_refresh(), 30);
    assert_eq!(config::default_tag(), "/btc-lottery-miner/");
    assert_eq!(gpu_config::default_refresh(), 30);
    assert_eq!(gpu_config::default_tag(), "/btc-lottery-miner-gpu/");
    assert_eq!(gpu_config::default_tpb(), 256);
    assert_eq!(gpu_config::default_blocks(), 4096);
    assert_eq!(gpu_config::default_npt(), 64);
    let g = GpuConfig::default();
    assert_eq!((g.device_index, g.threads_per_block, g.blocks, g.nonces_per_thread), (0, 256, 4096, 64));
}

#[test]
fn cpu_config_validation() {
    assert_eq!(cpu_config("0014ab", "http://127.0.0.1:18443", 0).validate(), Ok(()));
    assert_eq!(cpu_config("0014ab", "https://node", 0).validate(), Ok(()));
    assert_eq!(cpu_config("0014a", "http://x", 0).validate(), Err(ConfigError::PayoutScriptNotHex));
    assert_eq!(cpu_config("zz", "ftp://x", 0).validate(), Err(ConfigError::PayoutScriptNotHex));
    assert_eq!(cpu_config("", "http://x", 0).validate(), Err(ConfigError::PayoutScriptEmpty));
    assert_eq!(cpu_config("00", "127.0.0.1", 0).validate(), Err(ConfigError::UrlNotHttp));
    assert_eq!(cpu_config("00", "htt", 0).validate(), Err(ConfigError::UrlNotHttp));
}

#[test]
fn gpu_config_validation() {
    let ok = GpuConfig { device_index: 1, threads_per_block: 1, blocks: 1, nonces_per_thread: 1 };
    assert_eq!(gpu_cfg("51", "http://x", ok).validate(), Ok(()));
    let zero = GpuConfig { device_index: 0, threads_per_block: 256, blocks: 0, nonces_per_thread: 64 };
    assert_eq!(gpu_cfg("51", "http://x", zero).validate(), Err(ConfigError::ZeroGpuDimension));
    let zero = GpuConfig { device_index: 0, threads_per_block: 0, blocks: 1, nonces_per_thread: 1 };
    assert_eq!(gpu_cfg("", "http://x", zero).validate(), Err(ConfigError::PayoutScriptEmpty));
}

#[test]
fn thread_count_resolution() {
    assert_eq!(cpu_config("00", "http://x", 4).resolved_threads(), 4);
    assert!(cpu_config("00", "http://x", 0).resolved_threads() >= 1);
    assert_eq!(cpu_config("00", "http://x", 0).resolve_threads(12), 12);
    assert_eq!(cpu_config("00", "http://x", 3).resolve_threads(12), 3);
}

#[test]
fn setting_conversions() {
    assert_eq!(payout_script_bytes(&"0014AbCd".to_string()), Ok(vec![0x00, 0x14, 0xab, 0xcd]));
    assert_eq!(payout_script_bytes(&"0x14".to_string()), Err(ConfigError::PayoutScriptNotHex));
    assert_eq!(tag_bytes(&"/btc/".to_string()), b"/btc/".to_vec());
    assert_eq!(refresh_period_secs(0), 1);
    assert_eq!(refresh_period_secs(30), 30);
    assert_eq!(check_payout_and_url(&"51".to_string(), &"http".to_string()), Ok(()));
}

#[test]
fn template_poll_follows_refresh_seconds() {
    assert!(!poll_due(0, 30));
    assert!(!poll_due(29, 30));
    assert!(poll_due(30, 30));
    assert!(poll_due(31, 30));
    // A zero period counts as one second.
    assert!(!poll_due(0, 0));
    assert!(poll_due(1, 0));
}
