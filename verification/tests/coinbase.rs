use btc_lottery_miner::coinbase::{
    build_coinbase, push_bip34_height, serialize_tx, write_varint, CoinbaseParams,
};
use btc_lottery_miner::merkle::sha256d;

fn varint(n: u64) -> Vec<u8> {
    let mut v = Vec::new();
    write_varint(&mut v, n);
    v
}

fn bip34(h: u32) -> Vec<u8> {
    let mut v = Vec::new();
    push_bip34_height(&mut v, h);
    v
}

fn script_sig_of(legacy: &[u8]) -> Vec<u8> {
    // version (4) + input count (1) + prev hash (32) + prev index (4), then the length byte
    let len = legacy[41] as usize;
    legacy[42..42 + len].to_vec()
}

#[test]
fn varint_encodings() {
    assert_eq!(varint(0), vec![0x00]);
    assert_eq!(varint(0xfc), vec![0xfc]);
    assert_eq!(varint(0xfd), vec![0xfd, 0xfd, 0x00]);
    assert_eq!(varint(0xffff), vec![0xfd, 0xff, 0xff]);
    assert_eq!(varint(0x1_0000), vec![0xfe, 0x00, 0x00, 0x01, 0x00]);
    assert_eq!(varint(0xffff_ffff), vec![0xfe, 0xff, 0xff, 0xff, 0xff]);
    assert_eq!(varint(0x1_0000_0000), vec![0xff, 0, 0, 0, 0, 1, 0, 0, 0]);
    assert_eq!(varint(u64::MAX), vec![0xff; 9]);
}

#[test]
fn write_varint_appends() {
    let mut v = vec![0xaa];
    write_varint(&mut v, 0x1234);
    assert_eq!(v, vec![0xaa, 0xfd, 0x34, 0x12]);
}

#[test]
fn bip34_small_heights_use_opcodes() {
    assert_eq!(bip34(0), vec![0x00]);
    assert_eq!(bip34(1), vec![0x51]);
    assert_eq!(bip34(2), vec![0x52]);
    assert_eq!(bip34(16), vec![0x60]);
}

#[test]
fn bip34_larger_heights_use_minimal_pushes() {
    assert_eq!(bip34(17), vec![0x01, 0x11]);
    assert_eq!(bip34(127), vec![0x01, 0x7f]);
    assert_eq!(bip34(128), vec![0x02, 0x80, 0x00]);
    assert_eq!(bip34(255), vec![0x02, 0xff, 0x00]);
    assert_eq!(bip34(256), vec![0x02, 0x00, 0x01]);
    assert_eq!(bip34(840_000), vec![0x03, 0x40, 0xd1, 0x0c]);
    assert_eq!(bip34(u32::MAX), vec![0x05, 0xff, 0xff, 0xff, 0xff, 0x00]);
}

#[test]
fn regtest_block_one_script_sig() {
    let payout = hex::decode("0014000102030405060708090a0b0c0d0e0f10111213").unwrap();
    let tx = build_coinbase(&CoinbaseParams {
        height: 1,
        coinbase_value: 5_000_000_000,
        payout_script: &payout,
        witness_commitment_script: None,
        extranonce: 0,
        tag: b"/btc-lottery-miner/",
    });
    assert_eq!(
        hex::encode(script_sig_of(&tx.legacy_serialization)),
        "510100132f6274632d6c6f74746572792d6d696e65722f"
    );
}

#[test]
fn coinbase_without_witness_layout() {
    let payout = vec![0x51];
    let tx = build_coinbase(&CoinbaseParams {
        height: 17,
        coinbase_value: 0x0102,
        payout_script: &payout,
        witness_commitment_script: None,
        extranonce: 0x0300000007,
        tag: b"",
    });
    let mut expected = Vec::new();
    expected.extend_from_slice(&[2, 0, 0, 0]);
    expected.push(1);
    expected.extend_from_slice(&[0u8; 32]);
    expected.extend_from_slice(&[0xff; 4]);
    let ss = vec![0x01, 0x11, 0x05, 0x07, 0x00, 0x00, 0x00, 0x03];
    expected.push(ss.len() as u8);
    expected.extend_from_slice(&ss);
    expected.extend_from_slice(&[0xff; 4]);
    expected.push(1);
    expected.extend_from_slice(&[0x02, 0x01, 0, 0, 0, 0, 0, 0]);
    expected.push(1);
    expected.push(0x51);
    expected.extend_from_slice(&[0, 0, 0, 0]);
    assert_eq!(tx.legacy_serialization, expected);
    assert_eq!(tx.full_serialization, expected);
    assert_eq!(tx.txid, sha256d(&expected));
}

#[test]
fn coinbase_with_witness_commitment() {
    let payout = vec![0x51];
    let commitment = hex::decode("6a24aa21a9ed").unwrap();
    let tx = build_coinbase(&CoinbaseParams {
        height: 100,
        coinbase_value: 1,
        payout_script: &payout,
        witness_commitment_script: Some(&commitment),
        extranonce: 1,
        tag: b"x",
    });
    assert_eq!(tx.txid, sha256d(&tx.legacy_serialization));
    let full = &tx.full_serialization;
    assert_eq!(&full[4..6], &[0x00, 0x01]);
    assert_eq!(full.len(), tx.legacy_serialization.len() + 2 + 1 + 1 + 32);
    // two outputs: payout, then the commitment with value zero
    let legacy = &tx.legacy_serialization;
    let ss_len = legacy[41] as usize;
    let outs = 42 + ss_len + 4;
    assert_eq!(legacy[outs], 2);
    let second = outs + 1 + 8 + 1 + payout.len();
    assert_eq!(&legacy[second..second + 8], &[0u8; 8]);
    assert_eq!(legacy[second + 8] as usize, commitment.len());
    // witness: one item of 32 zero bytes before the locktime
    assert_eq!(&full[full.len() - 4 - 32 - 2..full.len() - 4 - 32], &[0x01, 0x20]);
}

#[test]
fn coinbase_tag_is_clamped_to_consensus_limit() {
    let tag = vec![b'a'; 200];
    let tx = build_coinbase(&CoinbaseParams {
        height: 840_000,
        coinbase_value: 0,
        payout_script: &[0x51],
        witness_commitment_script: None,
        extranonce: u64::MAX,
        tag: &tag,
    });
    let ss = script_sig_of(&tx.legacy_serialization);
    assert_eq!(ss.len(), 100);
    // height push (4) + extranonce push (9) + tag length byte
    assert_eq!(ss[13] as usize, 100 - 14);
}

#[test]
fn distinct_extranonces_give_distinct_txids() {
    let make = |e: u64| {
        build_coinbase(&CoinbaseParams {
            height: 5,
            coinbase_value: 7,
            payout_script: &[0x51],
            witness_commitment_script: None,
            extranonce: e,
            tag: b"/t/",
        })
        .txid
    };
    assert_ne!(make(0), make(1));
    assert_ne!(make(0xff), make(0x100));
    assert_ne!(make(1 << 32), make(1));
}

#[test]
fn serialize_tx_counts_outputs() {
    let outputs = vec![(5u64, vec![0xaa, 0xbb]), (0u64, vec![])];
    let tx = serialize_tx(&[0x51], &outputs, false);
    let ss_end = 42 + 1 + 4;
    assert_eq!(tx[ss_end], 2);
    assert_eq!(&tx[ss_end + 1..ss_end + 9], &[5, 0, 0, 0, 0, 0, 0, 0]);
    assert_eq!(tx[ss_end + 9], 2);
    assert_eq!(tx.len(), 4 + 1 + 32 + 4 + 1 + 1 + 4 + 1 + (8 + 1 + 2) + (8 + 1) + 4);
}
