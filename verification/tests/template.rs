use btc_lottery_miner::template::{
    parse_hash32, parse_hex32, BlockTemplate, RawTemplate, RawTemplateTx, TemplateError,
    TemplateField,
};

const PREV: &str = "000000000019d6689c085ae165831e934ff763ae46a2a6c172b3f1b60a8ce26f";
const TARGET: &str = "7fffff0000000000000000000000000000000000000000000000000000000000";
const TXID: &str = "aa00000000000000000000000000000000000000000000000000000000000001";
const WTXID: &str = "bb00000000000000000000000000000000000000000000000000000000000002";

fn raw_tx() -> RawTemplateTx {
    RawTemplateTx {
        data: Some("0102".to_string()),
        txid: Some(TXID.to_string()),
        hash: None,
        fee: None,
        weight: Some(400),
    }
}

fn raw() -> RawTemplate {
    RawTemplate {
        version: Some(0x2000_0000),
        previousblockhash: Some(PREV.to_string()),
        curtime: Some(1_700_000_000),
        height: Some(1),
        coinbasevalue: Some(5_000_000_000),
        bits: Some("207fffff".to_string()),
        target: Some(TARGET.to_string()),
        default_witness_commitment: None,
        transactions: Some(vec![raw_tx()]),
    }
}

#[test]
fn parses_complete_template() {
    let t = BlockTemplate::from_json(&raw()).unwrap();
    assert_eq!(t.version, 0x2000_0000);
    assert_eq!(hex::encode(t.previous_blockhash), PREV);
    assert_eq!(t.bits, [0x20, 0x7f, 0xff, 0xff]);
    assert_eq!(t.curtime, 1_700_000_000);
    assert_eq!(t.height, 1);
    assert_eq!(t.coinbase_value, 5_000_000_000);
    assert_eq!(hex::encode(t.target), TARGET);
    assert!(t.default_witness_commitment.is_none());
    assert_eq!(t.transactions.len(), 1);
    let tx = &t.transactions[0];
    assert_eq!(tx.data, vec![1, 2]);
    assert_eq!(hex::encode(tx.txid), TXID);
    assert_eq!(tx.hash, tx.txid);
    assert_eq!(tx.fee, 0);
    assert_eq!(tx.weight, 400);
}

#[test]
fn parses_witness_commitment_and_tx_hash() {
    let mut r = raw();
    r.default_witness_commitment = Some("6a24aa21a9ed".to_string());
    let mut tx = raw_tx();
    tx.hash = Some(WTXID.to_string());
    tx.fee = Some(250);
    r.transactions = Some(vec![tx]);
    let t = BlockTemplate::from_json(&r).unwrap();
    assert_eq!(t.default_witness_commitment, Some(vec![0x6a, 0x24, 0xaa, 0x21, 0xa9, 0xed]));
    assert_eq!(hex::encode(t.transactions[0].hash), WTXID);
    assert_eq!(t.transactions[0].fee, 250);
}

#[test]
fn version_and_times_are_narrowed() {
    let mut r = raw();
    r.version = Some(-1);
    r.curtime = Some(0x1_0000_0005);
    r.height = Some(0x1_0000_0007);
    let t = BlockTemplate::from_json(&r).unwrap();
    assert_eq!(t.version, -1);
    assert_eq!(t.curtime, 5);
    assert_eq!(t.height, 7);
}

#[test]
fn missing_fields_are_reported_in_order() {
    let mut r = raw();
    r.version = None;
    r.height = None;
    assert_eq!(
        BlockTemplate::from_json(&r).unwrap_err(),
        TemplateError::Missing(TemplateField::Version)
    );
    let mut r = raw();
    r.height = None;
    r.transactions = None;
    assert_eq!(
        BlockTemplate::from_json(&r).unwrap_err(),
        TemplateError::Missing(TemplateField::Height)
    );
    let mut r = raw();
    r.transactions = None;
    assert_eq!(
        BlockTemplate::from_json(&r).unwrap_err(),
        TemplateError::Missing(TemplateField::Transactions)
    );
}

#[test]
fn bad_bits_are_refused() {
    let mut r = raw();
    r.bits = Some("207fffzz".to_string());
    assert_eq!(
        BlockTemplate::from_json(&r).unwrap_err(),
        TemplateError::InvalidHex(TemplateField::Bits)
    );
    r.bits = Some("207fff".to_string());
    assert_eq!(
        BlockTemplate::from_json(&r).unwrap_err(),
        TemplateError::WrongLength(TemplateField::Bits, 3)
    );
}

#[test]
fn bad_transactions_are_refused() {
    let mut r = raw();
    let mut tx = raw_tx();
    tx.txid = Some("aa".to_string());
    r.transactions = Some(vec![raw_tx(), tx]);
    assert_eq!(
        BlockTemplate::from_json(&r).unwrap_err(),
        TemplateError::WrongLength(TemplateField::TxId, 1)
    );
    let mut tx = raw_tx();
    tx.data = None;
    r.transactions = Some(vec![tx]);
    assert_eq!(
        BlockTemplate::from_json(&r).unwrap_err(),
        TemplateError::Missing(TemplateField::TxData)
    );
    let mut tx = raw_tx();
    tx.data = Some("abc".to_string());
    r.transactions = Some(vec![tx]);
    assert_eq!(
        BlockTemplate::from_json(&r).unwrap_err(),
        TemplateError::InvalidHex(TemplateField::TxData)
    );
    let mut tx = raw_tx();
    tx.hash = Some("xyz".to_string());
    r.transactions = Some(vec![tx]);
    assert_eq!(
        BlockTemplate::from_json(&r).unwrap_err(),
        TemplateError::InvalidHex(TemplateField::TxHash)
    );
}

#[test]
fn bad_commitment_is_refused() {
    let mut r = raw();
    r.default_witness_commitment = Some("6a2".to_string());
    assert_eq!(
        BlockTemplate::from_json(&r).unwrap_err(),
        TemplateError::InvalidHex(TemplateField::DefaultWitnessCommitment)
    );
}

#[test]
fn hex32_parsing() {
    assert_eq!(hex::encode(parse_hex32(PREV, TemplateField::Target).unwrap()), PREV);
    assert_eq!(
        parse_hex32(&PREV.to_uppercase(), TemplateField::Target).unwrap(),
        parse_hex32(PREV, TemplateField::Target).unwrap()
    );
    assert_eq!(
        parse_hex32("00ff", TemplateField::Target),
        Err(TemplateError::WrongLength(TemplateField::Target, 2))
    );
    assert_eq!(
        parse_hash32(&None, TemplateField::PreviousBlockHash),
        Err(TemplateError::Missing(TemplateField::PreviousBlockHash))
    );
    assert_eq!(
        parse_hash32(&Some("0g".to_string()), TemplateField::PreviousBlockHash),
        Err(TemplateError::InvalidHex(TemplateField::PreviousBlockHash))
    );
}
