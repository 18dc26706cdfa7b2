use btc_lottery_miner::coinbase::write_varint;
use btc_lottery_miner::merkle::{merkle_root, reverse, sha256d};
use btc_lottery_miner::mining::{
    assemble_block, assemble_block_hex, header_hash, is_below_target, search_nonces, set_nonce,
    template_supersedes, MiningJob, WorkerExtranonce,
};
use btc_lottery_miner::template::{BlockTemplate, TemplateTx};

const GENESIS_HEADER: &str = "0100000000000000000000000000000000000000000000000000000000000000000000003ba3edfd7a7b12b27ac72c3e67768f617fc81bc3888a51323a9fb8aa4b1e5e4a29ab5f49ffff001d1dac2b7c";

fn genesis_header() -> [u8; 80] {
    let v = hex::decode(GENESIS_HEADER).unwrap();
    let mut h = [0u8; 80];
    h.copy_from_slice(&v);
    h
}

fn target_from_hex(s: &str) -> [u8; 32] {
    let v = hex::decode(s).unwrap();
    let mut t = [0u8; 32];
    t.copy_from_slice(&v);
    t
}

fn sample_template() -> BlockTemplate {
    BlockTemplate {
        version: 0x2000_0000,
        previous_blockhash: std::array::from_fn(|i| i as u8),
        bits: [0x20, 0x7f, 0xff, 0xff],
        curtime: 1_700_000_000,
        height: 1,
        coinbase_value: 5_000_000_000,
        target: target_from_hex("7fffff0000000000000000000000000000000000000000000000000000000000"),
        default_witness_commitment: None,
        transactions: vec![
            TemplateTx { data: vec![1, 2, 3], txid: [0xaa; 32], hash: [0xaa; 32], fee: 10, weight: 400 },
            TemplateTx { data: vec![4, 5], txid: [0xbb; 32], hash: [0xcc; 32], fee: 0, weight: 0 },
        ],
    }
}

#[test]
fn genesis_header_hash_and_target() {
    let h = genesis_header();
    let hash = header_hash(&h);
    assert_eq!(
        hex::encode(reverse(&hash)),
        "000000000019d6689c085ae165831e934ff763ae46a2a6c172b3f1b60a8ce26f"
    );
    // bits 1d00ffff
    let target = target_from_hex("00000000ffff0000000000000000000000000000000000000000000000000000");
    assert!(is_below_target(&hash, &target));
    let hard = target_from_hex("0000000000000000000000000000000000000000000000000000000000000001");
    assert!(!is_below_target(&hash, &hard));
}

#[test]
fn is_below_target_is_strict() {
    let target = target_from_hex("00000000ffff0000000000000000000000000000000000000000000000000000");
    let equal = reverse(&target);
    assert!(!is_below_target(&equal, &target));
    let mut smaller = equal;
    smaller[27] = 0xfe; // display byte 4 becomes 0xfe < 0xff
    assert!(is_below_target(&smaller, &target));
    let mut larger = equal;
    larger[0] = 1; // least significant byte grows
    assert!(!is_below_target(&larger, &target));
    assert!(!is_below_target(&[0u8; 32], &[0u8; 32]));
}

#[test]
fn search_finds_genesis_nonce() {
    let mut h = genesis_header();
    let nonce = 0x7c2bac1d;
    set_nonce(&mut h, 0);
    let target = target_from_hex("00000000ffff0000000000000000000000000000000000000000000000000000");
    assert_eq!(search_nonces(&h, &target, nonce - 3, 10), Some(nonce));
    assert_eq!(search_nonces(&h, &target, nonce + 1, 1000), None);
}

#[test]
fn search_with_easy_target_returns_first_nonce() {
    let h = genesis_header();
    let easy = [0xffu8; 32];
    assert_eq!(search_nonces(&h, &easy, 5, 3), Some(5));
    assert_eq!(search_nonces(&h, &[0u8; 32], 0, 100), None);
    assert_eq!(search_nonces(&h, &easy, 9, 0), None);
}

#[test]
fn set_nonce_writes_little_endian() {
    let mut h = [0u8; 80];
    set_nonce(&mut h, 0x1234_5678);
    assert_eq!(&h[76..80], &[0x78, 0x56, 0x34, 0x12]);
}

#[test]
fn job_from_template_reverses_hashes() {
    let tpl = sample_template();
    let job = MiningJob::from_template(tpl.clone(), vec![0x51], b"/tag/".to_vec());
    assert_eq!(job.prev_hash_internal, reverse(&tpl.previous_blockhash));
    assert_eq!(job.bits, [0xff, 0xff, 0x7f, 0x20]);
    assert_eq!(job.other_txids_internal, vec![[0xaa; 32], [0xbb; 32]]);
    assert_eq!(job.other_tx_bytes, vec![vec![1, 2, 3], vec![4, 5]]);
    assert_eq!(job.height, 1);
    assert_eq!(job.target, tpl.target);
    assert_eq!(job.payout_script, vec![0x51]);
    assert_eq!(job.coinbase_tag, b"/tag/".to_vec());
}

#[test]
fn work_header_layout() {
    let job = MiningJob::from_template(sample_template(), vec![0x51], b"/tag/".to_vec());
    let work = job.work_for(42);
    let h = work.header;
    assert_eq!(&h[0..4], &0x2000_0000i32.to_le_bytes());
    assert_eq!(&h[4..36], &job.prev_hash_internal);
    let root = merkle_root(&[work.coinbase.txid, [0xaa; 32], [0xbb; 32]]);
    assert_eq!(&h[36..68], &root);
    assert_eq!(&h[68..72], &1_700_000_000u32.to_le_bytes());
    assert_eq!(&h[72..76], &[0xff, 0xff, 0x7f, 0x20]);
    assert_eq!(&h[76..80], &[0, 0, 0, 0]);
    assert_eq!(work.coinbase.txid, sha256d(&work.coinbase.legacy_serialization));
    assert_ne!(job.work_for(43).header, h);
}

#[test]
fn negative_version_is_twos_complement() {
    let mut tpl = sample_template();
    tpl.version = -2;
    let job = MiningJob::from_template(tpl, vec![0x51], vec![]);
    assert_eq!(&job.work_for(0).header[0..4], &[0xfe, 0xff, 0xff, 0xff]);
}

#[test]
fn assembled_block_layout() {
    let job = MiningJob::from_template(sample_template(), vec![0x51], vec![]);
    let header = [7u8; 80];
    let block = assemble_block(&job, &header, &[9, 9]);
    let mut expected = header.to_vec();
    write_varint(&mut expected, 3);
    expected.extend_from_slice(&[9, 9, 1, 2, 3, 4, 5]);
    assert_eq!(block, expected);
    assert_eq!(assemble_block_hex(&job, &header, &[9, 9]), hex::encode(&expected));
}

#[test]
fn worker_extranonce_composition() {
    let mut w = WorkerExtranonce::new(3);
    w.local_extra = 7;
    assert_eq!(w.next(), 0x3_0000_0007);
    assert_eq!(w.local_extra, 8);
    w.local_extra = u32::MAX;
    assert_eq!(w.next(), 0x3_ffff_ffff);
    assert_eq!(w.local_extra, 0);
    w.local_extra = 5;
    w.restart();
    assert_eq!(w.next(), 0x3_0000_0000);
    assert_ne!(WorkerExtranonce::new(1).next(), WorkerExtranonce::new(2).next());
}

#[test]
fn template_refresh_rule() {
    let tpl = sample_template();
    assert!(!template_supersedes(&tpl, 1, 1_700_000_000));
    assert!(template_supersedes(&tpl, 2, 1_700_000_000));
    assert!(template_supersedes(&tpl, 1, 1_699_999_999));
    assert!(!template_supersedes(&tpl, 1, 1_700_000_001));
}
