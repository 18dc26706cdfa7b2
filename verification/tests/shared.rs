use btc_lottery_miner::mining::MiningJob;
use btc_lottery_miner::shared::{ArcSwap, MiningState};
use btc_lottery_miner::template::BlockTemplate;
use std::sync::Arc;

fn job(height: u32) -> MiningJob {
    let tpl = BlockTemplate {
        version: 1,
        previous_blockhash: [0; 32],
        bits: [0; 4],
        curtime: 0,
        height,
        coinbase_value: 0,
        target: [0; 32],
        default_witness_commitment: None,
        transactions: vec![],
    };
    MiningJob::from_template(tpl, vec![], vec![])
}

#[test]
fn arc_swap_load_and_store() {
    let s = ArcSwap::new(Arc::new(5u32));
    assert_eq!(*s.load(), 5);
    s.store(Arc::new(6));
    assert_eq!(*s.load(), 6);
    assert_eq!(*s.load(), 6);
}

#[test]
fn mining_state_shares_job_stop_and_counter() {
    let state = Arc::new(MiningState::new(Arc::new(job(1))));
    assert_eq!(state.job().height, 1);
    assert!(!state.stop_requested());
    for _ in 0..400 {
        state.add_hashes(10);
    }
    state.replace_job(Arc::new(job(2)));
    assert_eq!(state.total_hashes(), 4000);
    assert_eq!(state.job().height, 2);
    state.request_stop();
    assert!(state.stop_requested());
}
