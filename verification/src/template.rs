//! The `getblocktemplate` answer: the fields the miner reads, as plain values, and their
//! decoding into a block template.

use crate::hexcode::{hex_decode, hex_decode_spec, is_hex, text_bytes};
use vstd::prelude::*;

verus! {

/// One entry of the template's `transactions` array, each field as the JSON holds it
/// (`None` where the field is absent or not of the expected JSON type).
pub struct RawTemplateTx {
    pub data: Option<String>,
    pub txid: Option<String>,
    pub hash: Option<String>,
    pub fee: Option<u64>,
    pub weight: Option<u64>,
}

/// The fields of a `getblocktemplate` answer that the miner reads, each as the JSON holds
/// it (`None` where the field is absent or not of the expected JSON type).
pub struct RawTemplate {
    pub version: Option<i64>,
    pub previousblockhash: Option<String>,
    pub curtime: Option<u64>,
    pub height: Option<u64>,
    pub coinbasevalue: Option<u64>,
    pub bits: Option<String>,
    pub target: Option<String>,
    pub default_witness_commitment: Option<String>,
    pub transactions: Option<Vec<RawTemplateTx>>,
}

/// A field of the template answer.
#[derive(Debug, Clone, Copy, PartialEq, Eq, Structural)]
pub enum TemplateField {
    Version,
    PreviousBlockHash,
    CurTime,
    Height,
    CoinbaseValue,
    Bits,
    Target,
    DefaultWitnessCommitment,
    Transactions,
    TxData,
    TxId,
    TxHash,
}

/// Why a template answer was refused.
#[derive(Debug, Clone, Copy, PartialEq, Eq, Structural)]
pub enum TemplateError {
    /// The field is absent (or not of the expected JSON type).
    Missing(TemplateField),
    /// The field is not valid hex.
    InvalidHex(TemplateField),
    /// The field decodes to the given number of bytes, not the number it must have.
    WrongLength(TemplateField, usize),
}

/// One template transaction, decoded.
#[derive(Debug, Clone)]
pub struct TemplateTx {
    /// Full serialized tx (with witness if any).
    pub data: Vec<u8>,
    /// Big-endian as returned (reversed for merkle input).
    pub txid: [u8; 32],
    /// Big-endian; equals txid for non-witness, equals wtxid for witness txs.
    pub hash: [u8; 32],
    pub fee: u64,
    pub weight: u64,
}

/// Decoded `getblocktemplate` response — the fields we actually need.
#[derive(Debug, Clone)]
pub struct BlockTemplate {
    pub version: i32,
    /// Big-endian as returned by RPC (reversed before hashing).
    pub previous_blockhash: [u8; 32],
    /// Big-endian.
    pub bits: [u8; 4],
    pub curtime: u32,
    pub height: u32,
    pub coinbase_value: u64,
    /// Big-endian.
    pub target: [u8; 32],
    /// scriptPubKey for the witness commitment, if any segwit txs.
    pub default_witness_commitment: Option<Vec<u8>>,
    pub transactions: Vec<TemplateTx>,
}

/// The bytes of a text field.
pub open spec fn field_bytes(s: String) -> Seq<u8> {
    text_bytes(s@)
}

/// Decoding hex text that must stand for 32 bytes.
pub open spec fn hex32_result(text: Seq<u8>, field: TemplateField) -> Result<Seq<u8>, TemplateError> {
    if !is_hex(text) {
        Err(TemplateError::InvalidHex(field))
    } else if hex_decode_spec(text).len() != 32 {
        Err(TemplateError::WrongLength(field, hex_decode_spec(text).len() as usize))
    } else {
        Ok(hex_decode_spec(text))
    }
}

/// Decoding an optional hex field that must stand for 32 bytes.
pub open spec fn hash32_result(value: Option<String>, field: TemplateField) -> Result<Seq<u8>, TemplateError> {
    match value {
        None => Err(TemplateError::Missing(field)),
        Some(s) => hex32_result(field_bytes(s), field),
    }
}

/// An executable 32-byte result agrees with a spec result.
pub open spec fn same_result32(r: Result<[u8; 32], TemplateError>, s: Result<Seq<u8>, TemplateError>) -> bool {
    match (r, s) {
        (Ok(a), Ok(b)) => a@ == b,
        (Err(e1), Err(e2)) => e1 == e2,
        _ => false,
    }
}

/// Copies 32 decoded bytes into an array.
fn to_array32(bytes: &Vec<u8>) -> (out: [u8; 32])
    requires
        bytes@.len() == 32,
    ensures
        out@ == bytes@,
{
    let mut out = [0u8; 32];
    for i in 0..32
        invariant
            bytes@.len() == 32,
            out@.len() == 32,
            forall|j: int| 0 <= j < i ==> out@[j] == bytes@[j],
    {
        out[i] = bytes[i];
    }
    assert(out@ =~= bytes@);
    out
}

/// Decodes hex text standing for exactly 32 bytes.
pub fn parse_hex32(text: &str, field: TemplateField) -> (r: Result<[u8; 32], TemplateError>)
    ensures
        same_result32(r, hex32_result(text_bytes(text@), field)),
{
    match hex_decode(text.as_bytes()) {
        Ok(bytes) => {
            if bytes.len() != 32 {
                return Err(TemplateError::WrongLength(field, bytes.len()));
            }
            Ok(to_array32(&bytes))
        },
        Err(_) => Err(TemplateError::InvalidHex(field)),
    }
}

/// Decodes a hex field that must be present and stand for exactly 32 bytes.
pub fn parse_hash32(value: &Option<String>, field: TemplateField) -> (r: Result<[u8; 32], TemplateError>)
    ensures
        same_result32(r, hash32_result(*value, field)),
{
    match value {
        Some(s) => parse_hex32(s.as_str(), field),
        None => Err(TemplateError::Missing(field)),
    }
}

/// The error of a spec result, if any.
pub open spec fn err_of<T>(r: Result<T, TemplateError>) -> Option<TemplateError> {
    match r {
        Ok(_) => None,
        Err(e) => Some(e),
    }
}

/// Why a template transaction is refused, if it is: checked in the order data, txid, hash.
pub open spec fn tx_error(t: RawTemplateTx) -> Option<TemplateError> {
    match t.data {
        None => Some(TemplateError::Missing(TemplateField::TxData)),
        Some(d) => if !is_hex(field_bytes(d)) {
            Some(TemplateError::InvalidHex(TemplateField::TxData))
        } else if err_of(hash32_result(t.txid, TemplateField::TxId)) is Some {
            err_of(hash32_result(t.txid, TemplateField::TxId))
        } else {
            match t.hash {
                None => None,
                Some(h) => err_of(hex32_result(field_bytes(h), TemplateField::TxHash)),
            }
        },
    }
}

/// A decoded transaction holds what its raw entry says; an absent `hash` defaults to the
/// txid, absent `fee` and `weight` to zero.
pub open spec fn tx_matches(t: TemplateTx, r: RawTemplateTx) -> bool {
    &&& t.data@ == hex_decode_spec(field_bytes(r.data->0))
    &&& t.txid@ == hex_decode_spec(field_bytes(r.txid->0))
    &&& t.hash@ == match r.hash {
        Some(h) => hex_decode_spec(field_bytes(h)),
        None => t.txid@,
    }
    &&& t.fee == match r.fee {
        Some(f) => f,
        None => 0,
    }
    &&& t.weight == match r.weight {
        Some(w) => w,
        None => 0,
    }
}

/// Decodes one template transaction.
pub fn parse_tx(raw: &RawTemplateTx) -> (r: Result<TemplateTx, TemplateError>)
    ensures
        r is Err <==> tx_error(*raw) is Some,
        r matches Err(e) ==> tx_error(*raw) == Some(e),
        r matches Ok(t) ==> tx_matches(t, *raw),
{
    let data_hex = match &raw.data {
        Some(d) => d,
        None => return Err(TemplateError::Missing(TemplateField::TxData)),
    };
    let data = match hex_decode(data_hex.as_str().as_bytes()) {
        Ok(d) => d,
        Err(_) => return Err(TemplateError::InvalidHex(TemplateField::TxData)),
    };
    let txid = match parse_hash32(&raw.txid, TemplateField::TxId) {
        Ok(t) => t,
        Err(e) => return Err(e),
    };
    let hash = match &raw.hash {
        Some(h) => match parse_hex32(h.as_str(), TemplateField::TxHash) {
            Ok(v) => v,
            Err(e) => return Err(e),
        },
        None => txid,
    };
    let fee = match raw.fee {
        Some(f) => f,
        None => 0,
    };
    let weight = match raw.weight {
        Some(w) => w,
        None => 0,
    };
    Ok(TemplateTx { data, txid, hash, fee, weight })
}

/// The first refused transaction's error, if any.
pub open spec fn first_tx_error(txs: Seq<RawTemplateTx>) -> Option<TemplateError>
    decreases txs.len(),
{
    if txs.len() == 0 {
        None
    } else {
        match first_tx_error(txs.drop_last()) {
            Some(e) => Some(e),
            None => tx_error(txs.last()),
        }
    }
}

/// Once a prefix has a refused transaction, every longer prefix reports the same error.
proof fn lemma_first_tx_error_prefix(txs: Seq<RawTemplateTx>, i: int)
    requires
        0 <= i <= txs.len(),
        first_tx_error(txs.take(i)) is Some,
    ensures
        first_tx_error(txs) == first_tx_error(txs.take(i)),
    decreases txs.len() - i,
{
    if i < txs.len() {
        assert(txs.take(i + 1).drop_last() =~= txs.take(i));
        assert(first_tx_error(txs.take(i + 1)) == first_tx_error(txs.take(i)));
        lemma_first_tx_error_prefix(txs, i + 1);
    } else {
        assert(txs.take(i) =~= txs);
    }
}

/// Why a template answer is refused, if it is: fields are checked in the order version,
/// previousblockhash, curtime, height, coinbasevalue, bits, target,
/// default_witness_commitment, transactions, then each transaction in turn.
pub open spec fn template_error(raw: RawTemplate) -> Option<TemplateError> {
    if raw.version is None {
        Some(TemplateError::Missing(TemplateField::Version))
    } else if err_of(hash32_result(raw.previousblockhash, TemplateField::PreviousBlockHash)) is Some {
        err_of(hash32_result(raw.previousblockhash, TemplateField::PreviousBlockHash))
    } else if raw.curtime is None {
        Some(TemplateError::Missing(TemplateField::CurTime))
    } else if raw.height is None {
        Some(TemplateError::Missing(TemplateField::Height))
    } else if raw.coinbasevalue is None {
        Some(TemplateError::Missing(TemplateField::CoinbaseValue))
    } else if raw.bits is None {
        Some(TemplateError::Missing(TemplateField::Bits))
    } else if !is_hex(field_bytes(raw.bits->0)) {
        Some(TemplateError::InvalidHex(TemplateField::Bits))
    } else if hex_decode_spec(field_bytes(raw.bits->0)).len() != 4 {
        Some(
            TemplateError::WrongLength(
                TemplateField::Bits,
                hex_decode_spec(field_bytes(raw.bits->0)).len() as usize,
            ),
        )
    } else if err_of(hash32_result(raw.target, TemplateField::Target)) is Some {
        err_of(hash32_result(raw.target, TemplateField::Target))
    } else if raw.default_witness_commitment is Some && !is_hex(
        field_bytes(raw.default_witness_commitment->0),
    ) {
        Some(TemplateError::InvalidHex(TemplateField::DefaultWitnessCommitment))
    } else if raw.transactions is None {
        Some(TemplateError::Missing(TemplateField::Transactions))
    } else {
        first_tx_error(raw.transactions->0@)
    }
}

/// A decoded template holds what its raw answer says. `version`, `curtime` and `height`
/// are narrowed to 32 bits as `as` casts narrow them.
pub open spec fn template_matches(t: BlockTemplate, raw: RawTemplate) -> bool {
    &&& t.version == raw.version->0 as i32
    &&& t.previous_blockhash@ == hex_decode_spec(field_bytes(raw.previousblockhash->0))
    &&& t.curtime == raw.curtime->0 as u32
    &&& t.height == raw.height->0 as u32
    &&& t.coinbase_value == raw.coinbasevalue->0
    &&& t.bits@ == hex_decode_spec(field_bytes(raw.bits->0))
    &&& t.target@ == hex_decode_spec(field_bytes(raw.target->0))
    &&& match raw.default_witness_commitment {
        None => t.default_witness_commitment is None,
        Some(c) => t.default_witness_commitment matches Some(v) && v@ == hex_decode_spec(
            field_bytes(c),
        ),
    }
    &&& t.transactions@.len() == raw.transactions->0@.len()
    &&& forall|i: int|
        0 <= i < t.transactions@.len() ==> tx_matches(
            #[trigger] t.transactions@[i],
            raw.transactions->0@[i],
        )
}

impl BlockTemplate {
    /// Decodes the fields of a `getblocktemplate` answer.
    pub fn from_json(raw: &RawTemplate) -> (r: Result<BlockTemplate, TemplateError>)
        ensures
            r is Err <==> template_error(*raw) is Some,
            r matches Err(e) ==> template_error(*raw) == Some(e),
            r matches Ok(t) ==> template_matches(t, *raw),
    {
        let version = match raw.version {
            Some(v) => #[verifier::truncate] (v as i32),
            None => return Err(TemplateError::Missing(TemplateField::Version)),
        };
        let previous_blockhash = match parse_hash32(&raw.previousblockhash, TemplateField::PreviousBlockHash) {
            Ok(h) => h,
            Err(e) => return Err(e),
        };
        let curtime = match raw.curtime {
            Some(v) => #[verifier::truncate] (v as u32),
            None => return Err(TemplateError::Missing(TemplateField::CurTime)),
        };
        let height = match raw.height {
            Some(v) => #[verifier::truncate] (v as u32),
            None => return Err(TemplateError::Missing(TemplateField::Height)),
        };
        let coinbase_value = match raw.coinbasevalue {
            Some(v) => v,
            None => return Err(TemplateError::Missing(TemplateField::CoinbaseValue)),
        };

        let bits_str = match &raw.bits {
            Some(b) => b,
            None => return Err(TemplateError::Missing(TemplateField::Bits)),
        };
        let bits_vec = match hex_decode(bits_str.as_str().as_bytes()) {
            Ok(b) => b,
            Err(_) => return Err(TemplateError::InvalidHex(TemplateField::Bits)),
        };
        if bits_vec.len() != 4 {
            return Err(TemplateError::WrongLength(TemplateField::Bits, bits_vec.len()));
        }
        let bits: [u8; 4] = [bits_vec[0], bits_vec[1], bits_vec[2], bits_vec[3]];
        assert(bits@ =~= bits_vec@);

        let target = match parse_hash32(&raw.target, TemplateField::Target) {
            Ok(t) => t,
            Err(e) => return Err(e),
        };

        let default_witness_commitment = match &raw.default_witness_commitment {
            Some(c) => match hex_decode(c.as_str().as_bytes()) {
                Ok(v) => Some(v),
                Err(_) => return Err(TemplateError::InvalidHex(TemplateField::DefaultWitnessCommitment)),
            },
            None => None,
        };

        let txs = match &raw.transactions {
            Some(t) => t,
            None => return Err(TemplateError::Missing(TemplateField::Transactions)),
        };

        assert(template_error(*raw) == first_tx_error(txs@));
        let mut transactions: Vec<TemplateTx> = Vec::new();
        for i in 0..txs.len()
            invariant
                raw.transactions == Some(*txs),
                template_error(*raw) == first_tx_error(txs@),
                first_tx_error(txs@.take(i as int)) is None,
                transactions@.len() == i,
                forall|j: int| 0 <= j < i ==> tx_matches(#[trigger] transactions@[j], txs@[j]),
        {
            assert(txs@.take(i + 1).drop_last() =~= txs@.take(i as int));
            match parse_tx(&txs[i]) {
                Ok(t) => transactions.push(t),
                Err(e) => {
                    proof {
                        assert(txs@.take(i + 1).last() == txs@[i as int]);
                        assert(first_tx_error(txs@.take(i + 1)) == Some(e));
                        lemma_first_tx_error_prefix(txs@, i + 1);
                    }
                    return Err(e);
                },
            }
        }
        assert(txs@.take(txs.len() as int) =~= txs@);

        Ok(BlockTemplate {
            version,
            previous_blockhash,
            bits,
            curtime,
            height,
            coinbase_value,
            target,
            default_witness_commitment,
            transactions,
        })
    }
}

} // verus!
