use crate::bytes::{
    append_bytes, le_bytes, le_value, lemma_le_bytes_len, lemma_le_bytes_value, lemma_le_value_push_zero, lemma_minimal_le_last,
    lemma_minimal_le_value, minimal_le, push_le,
    pow256, push_zeros, zeros,
};
use crate::merkle::{sha256d, sha256d_spec};
use vstd::prelude::*;

verus! {

/// Bitcoin CompactSize encoding of `n`.
pub open spec fn varint_spec(n: u64) -> Seq<u8> {
    if n < 0xfd {
        seq![n as u8]
    } else if n <= 0xffff {
        seq![0xfdu8] + le_bytes(n as nat, 2)
    } else if n <= 0xffff_ffff {
        seq![0xfeu8] + le_bytes(n as nat, 4)
    } else {
        seq![0xffu8] + le_bytes(n as nat, 8)
    }
}

/// Bitcoin-style varint (CompactSize).
pub fn write_varint(buf: &mut Vec<u8>, n: u64)
    ensures
        final(buf)@ == old(buf)@ + varint_spec(n),
{
    if n < 0xfd {
        buf.push(n as u8);
    } else if n <= 0xffff {
        buf.push(0xfd);
        push_le(buf, n, 2);
    } else if n <= 0xffff_ffff {
        buf.push(0xfe);
        push_le(buf, n, 4);
    } else {
        buf.push(0xff);
        push_le(buf, n, 8);
    }
}

/// The minimal script-number bytes of a positive `n`: its shortest little-endian form,
/// followed by a zero byte when the top bit of the last byte is set (so it reads as positive).
pub open spec fn script_num_bytes(n: nat) -> Seq<u8> {
    let b = minimal_le(n);
    if b.len() > 0 && b.last() >= 0x80 {
        b.push(0u8)
    } else {
        b
    }
}

/// What `CScript() << height` holds: `OP_0` for zero, `OP_1`..`OP_16` for 1..16, and a
/// minimally encoded number push for larger heights.
pub open spec fn bip34_push_spec(height: u32) -> Seq<u8> {
    if height == 0 {
        seq![0x00u8]
    } else if height <= 16 {
        seq![(0x50 + height) as u8]
    } else {
        let b = script_num_bytes(height as nat);
        seq![b.len() as u8] + b
    }
}

/// BIP34: coinbase scriptSig must begin with the block height, pushed as Bitcoin Core's
/// `CScript() << height` pushes it.
pub fn push_bip34_height(buf: &mut Vec<u8>, height: u32)
    ensures
        final(buf)@ == old(buf)@ + bip34_push_spec(height),
{
    if height == 0 {
        buf.push(0x00);
    } else if height <= 16 {
        buf.push(0x50 + height as u8);
    } else {
        let mut n: u32 = height;
        let mut bytes: Vec<u8> = Vec::new();
        while n > 0
            invariant
                bytes@ + minimal_le(n as nat) =~= minimal_le(height as nat),
            decreases n,
        {
            assert(minimal_le(n as nat) =~= seq![(n % 256) as u8] + minimal_le((n / 256) as nat));
            bytes.push((n % 256) as u8);
            n = n / 256;
        }
        assert(minimal_le(0) =~= Seq::<u8>::empty());
        proof {
            lemma_minimal_le_len_u32(height as nat);
        }
        if bytes.len() > 0 && bytes[bytes.len() - 1] >= 0x80 {
            bytes.push(0x00);
        }
        buf.push(bytes.len() as u8);
        append_bytes(buf, bytes.as_slice());
    }
}

/// The shortest little-endian form of a 32-bit number has at most four bytes.
proof fn lemma_minimal_le_len_u32(n: nat)
    requires
        n < 0x1_0000_0000,
    ensures
        minimal_le(n).len() <= 4,
{
    reveal_with_fuel(minimal_le, 5);
}

/// The shortest little-endian form of a 64-bit number has at most eight bytes.
proof fn lemma_minimal_le_len_u64(n: nat)
    requires
        n < 0x1_0000_0000_0000_0000,
    ensures
        minimal_le(n).len() <= 8,
{
    reveal_with_fuel(minimal_le, 9);
}

/// The bytes of the extranonce push: the shortest little-endian form of `extranonce`,
/// a single zero byte for zero.
pub open spec fn extranonce_bytes(extranonce: u64) -> Seq<u8> {
    if extranonce == 0 {
        seq![0u8]
    } else {
        minimal_le(extranonce as nat)
    }
}

/// The extranonce push: a length byte, then the extranonce bytes.
pub open spec fn extranonce_push_spec(extranonce: u64) -> Seq<u8> {
    seq![extranonce_bytes(extranonce).len() as u8] + extranonce_bytes(extranonce)
}

/// How many tag bytes fit after a scriptSig prefix of `prefix_len` bytes so that the
/// whole scriptSig (tag length byte included) stays within 100 bytes.
pub open spec fn tag_room(prefix_len: nat) -> nat {
    if prefix_len + 1 <= 100 {
        (100 - (prefix_len + 1)) as nat
    } else {
        0
    }
}

/// The tag push after a prefix of `prefix_len` bytes: the tag clamped to the room left,
/// with its length byte; nothing when no tag byte is kept.
pub open spec fn tag_push_spec(prefix_len: nat, tag: Seq<u8>) -> Seq<u8> {
    let keep = if tag.len() <= tag_room(prefix_len) { tag.len() } else { tag_room(prefix_len) };
    if keep == 0 {
        Seq::empty()
    } else {
        seq![keep as u8] + tag.take(keep as int)
    }
}

/// The coinbase scriptSig: BIP34 height push, extranonce push, then the clamped tag push.
pub open spec fn script_sig_spec(height: u32, extranonce: u64, tag: Seq<u8>) -> Seq<u8> {
    let prefix = bip34_push_spec(height) + extranonce_push_spec(extranonce);
    prefix + tag_push_spec(prefix.len(), tag)
}

/// The serialization of one output: value, script length, script.
pub open spec fn output_bytes(out: (u64, Seq<u8>)) -> Seq<u8> {
    le_bytes(out.0 as nat, 8) + varint_spec(out.1.len() as u64) + out.1
}

/// The serializations of a list of outputs, one after the other.
pub open spec fn outputs_bytes(outputs: Seq<(u64, Seq<u8>)>) -> Seq<u8>
    decreases outputs.len(),
{
    if outputs.len() == 0 {
        Seq::empty()
    } else {
        outputs_bytes(outputs.drop_last()) + output_bytes(outputs.last())
    }
}

/// The outputs of a serialized coinbase, with their scripts as byte sequences.
pub open spec fn outputs_view(outputs: Seq<(u64, Vec<u8>)>) -> Seq<(u64, Seq<u8>)> {
    outputs.map_values(|o: (u64, Vec<u8>)| (o.0, o.1@))
}

/// A version-2 transaction with the coinbase input (null prevout, `script_sig`, final
/// sequence), the given outputs and locktime 0. With `with_witness`, the segwit marker and
/// flag follow the version and the input's witness is one 32-byte zero item.
pub open spec fn tx_spec(script_sig: Seq<u8>, outputs: Seq<(u64, Seq<u8>)>, with_witness: bool) -> Seq<u8> {
    le_bytes(2, 4)
        + (if with_witness { seq![0x00u8, 0x01u8] } else { Seq::empty() })
        + varint_spec(1)
        + zeros(32)
        + le_bytes(0xffff_ffff, 4)
        + varint_spec(script_sig.len() as u64)
        + script_sig
        + le_bytes(0xffff_ffff, 4)
        + varint_spec(outputs.len() as u64)
        + outputs_bytes(outputs)
        + (if with_witness { varint_spec(1) + varint_spec(32) + zeros(32) } else { Seq::empty() })
        + le_bytes(0, 4)
}

/// Serializes the coinbase transaction with the given scriptSig and outputs.
pub fn serialize_tx(script_sig: &[u8], outputs: &[(u64, Vec<u8>)], with_witness: bool) -> (buf: Vec<u8>)
    ensures
        buf@ == tx_spec(script_sig@, outputs_view(outputs@), with_witness),
{
    let mut buf: Vec<u8> = Vec::new();
    push_le(&mut buf, 2, 4);
    if with_witness {
        buf.push(0x00);
        buf.push(0x01);
    }
    write_varint(&mut buf, 1);
    push_zeros(&mut buf, 32);
    push_le(&mut buf, 0xffff_ffff, 4);
    write_varint(&mut buf, script_sig.len() as u64);
    append_bytes(&mut buf, script_sig);
    push_le(&mut buf, 0xffff_ffff, 4);
    write_varint(&mut buf, outputs.len() as u64);
    let ghost before_outputs = buf@;
    let ghost outs = outputs_view(outputs@);
    for i in 0..outputs.len()
        invariant
            outs == outputs_view(outputs@),
            buf@ == before_outputs + outputs_bytes(outs.take(i as int)),
    {
        let value = outputs[i].0;
        let script = &outputs[i].1;
        push_le(&mut buf, value, 8);
        write_varint(&mut buf, script.len() as u64);
        append_bytes(&mut buf, script.as_slice());
        assert(outs.take(i + 1).drop_last() =~= outs.take(i as int));
    }
    assert(outs.take(outputs.len() as int) =~= outs);
    if with_witness {
        write_varint(&mut buf, 1);
        write_varint(&mut buf, 32);
        push_zeros(&mut buf, 32);
    }
    push_le(&mut buf, 0, 4);
    assert(buf@ =~= tx_spec(script_sig@, outs, with_witness));
    buf
}

/// A serialized coinbase transaction in its two flavours, with its txid.
///
/// - `legacy_serialization`: NO witness data, used to compute the **txid** (which is what the
///   block merkle root hashes over).
/// - `full_serialization`: WITH witness marker/flag and witness stack when the block carries a
///   witness commitment, used as the actual tx bytes in the block.
pub struct CoinbaseTx {
    pub legacy_serialization: Vec<u8>,
    pub full_serialization: Vec<u8>,
    pub txid: [u8; 32],
}

/// What a coinbase transaction is built from.
///
/// `extranonce` is a per-thread varying value that changes the coinbase txid, which
/// changes the merkle root, which gives each thread its own ~2^32 nonce space.
///
/// `witness_commitment_script` is the `scriptPubKey` of a second output holding
/// `OP_RETURN 0x24 0xaa21a9ed <wtxid_merkle_root_hash>`, required by BIP141 when the block
/// contains any segwit tx; `None` for blocks with no witness txs.
pub struct CoinbaseParams<'a> {
    pub height: u32,
    pub coinbase_value: u64,
    pub payout_script: &'a [u8],
    pub witness_commitment_script: Option<&'a [u8]>,
    pub extranonce: u64,
    pub tag: &'a [u8],
}

/// The outputs of the coinbase: the payout, then the witness commitment when there is one.
pub open spec fn coinbase_outputs_spec(value: u64, payout: Seq<u8>, commitment: Option<Seq<u8>>) -> Seq<(u64, Seq<u8>)> {
    match commitment {
        Some(c) => seq![(value, payout), (0u64, c)],
        None => seq![(value, payout)],
    }
}

impl<'a> CoinbaseParams<'a> {
    /// The witness commitment script, as bytes.
    pub open spec fn commitment_view(&self) -> Option<Seq<u8>> {
        match self.witness_commitment_script {
            Some(c) => Some(c@),
            None => None,
        }
    }

    /// The scriptSig of the coinbase these parameters describe.
    pub open spec fn script_sig(&self) -> Seq<u8> {
        script_sig_spec(self.height, self.extranonce, self.tag@)
    }

    /// The outputs of the coinbase these parameters describe.
    pub open spec fn outputs(&self) -> Seq<(u64, Seq<u8>)> {
        coinbase_outputs_spec(self.coinbase_value, self.payout_script@, self.commitment_view())
    }

    /// The serialization without witness data.
    pub open spec fn legacy_spec(&self) -> Seq<u8> {
        tx_spec(self.script_sig(), self.outputs(), false)
    }

    /// The serialization that goes into the block.
    pub open spec fn full_spec(&self) -> Seq<u8> {
        if self.witness_commitment_script is Some {
            tx_spec(self.script_sig(), self.outputs(), true)
        } else {
            self.legacy_spec()
        }
    }
}

/// Copies a byte slice into a new vector.
fn bytes_to_vec(src: &[u8]) -> (v: Vec<u8>)
    ensures
        v@ == src@,
{
    let mut v: Vec<u8> = Vec::new();
    append_bytes(&mut v, src);
    v
}

/// Builds the coinbase scriptSig: BIP34 height, extranonce push, clamped tag push.
fn build_script_sig(height: u32, extranonce: u64, tag: &[u8]) -> (script_sig: Vec<u8>)
    ensures
        script_sig@ == script_sig_spec(height, extranonce, tag@),
{
    let mut script_sig: Vec<u8> = Vec::new();
    push_bip34_height(&mut script_sig, height);
    proof {
        lemma_bip34_push_len(height);
    }

    // extranonce: minimally-encoded u64 push
    let mut extra: Vec<u8> = Vec::new();
    let mut n: u64 = extranonce;
    while n != 0
        invariant
            extra@ + minimal_le(n as nat) =~= minimal_le(extranonce as nat),
        decreases n,
    {
        assert(minimal_le(n as nat) =~= seq![(n % 256) as u8] + minimal_le((n / 256) as nat));
        extra.push((n % 256) as u8);
        n = n / 256;
    }
    assert(minimal_le(0) =~= Seq::<u8>::empty());
    proof {
        lemma_minimal_le_len_u64(extranonce as nat);
        if extranonce != 0 {
            assert(minimal_le(extranonce as nat).len() > 0);
        }
    }
    if extra.len() == 0 {
        extra.push(0);
    }
    assert(extra@ =~= extranonce_bytes(extranonce));
    script_sig.push(extra.len() as u8);
    append_bytes(&mut script_sig, extra.as_slice());
    let ghost prefix = script_sig@;
    assert(prefix =~= bip34_push_spec(height) + extranonce_push_spec(extranonce));

    // Tag (free-form bytes — clamped so the whole scriptSig stays <= 100 bytes per consensus).
    let used = script_sig.len() + 1;
    let room: usize = if used <= 100 { 100 - used } else { 0 };
    let keep: usize = if tag.len() <= room { tag.len() } else { room };
    if keep > 0 {
        script_sig.push(keep as u8);
        let ghost before_tag = script_sig@;
        for i in 0..keep
            invariant
                keep <= tag@.len(),
                script_sig@ =~= before_tag + tag@.take(i as int),
        {
            script_sig.push(tag[i]);
            assert(tag@.take(i + 1) =~= tag@.take(i as int).push(tag@[i as int]));
        }
    }
    assert(script_sig@ =~= script_sig_spec(height, extranonce, tag@));
    script_sig
}

/// The BIP34 push takes at most six bytes.
proof fn lemma_bip34_push_len(height: u32)
    ensures
        1 <= bip34_push_spec(height).len() <= 6,
{
    if height > 16 {
        lemma_minimal_le_len_u32(height as nat);
    }
}

/// Builds the coinbase transaction for `p`: the legacy serialization, its double-SHA256
/// (the txid), and the serialization that goes into the block.
pub fn build_coinbase(p: &CoinbaseParams) -> (tx: CoinbaseTx)
    ensures
        tx.legacy_serialization@ == p.legacy_spec(),
        tx.txid@ == sha256d_spec(p.legacy_spec()),
        tx.full_serialization@ == p.full_spec(),
{
    let script_sig = build_script_sig(p.height, p.extranonce, p.tag);

    // out[0]: payout; out[1]: witness commitment (if any segwit tx present in the block)
    let mut outputs: Vec<(u64, Vec<u8>)> = Vec::new();
    outputs.push((p.coinbase_value, bytes_to_vec(p.payout_script)));
    let has_witness = match p.witness_commitment_script {
        Some(wc) => {
            outputs.push((0u64, bytes_to_vec(wc)));
            true
        },
        None => false,
    };
    assert(outputs_view(outputs@) =~= p.outputs());

    // Legacy (no-witness) serialization, for the txid.
    let legacy = serialize_tx(script_sig.as_slice(), outputs.as_slice(), false);
    let txid = sha256d(legacy.as_slice());

    // Full serialization (with witness marker/flag + coinbase witness).
    let full = if has_witness {
        serialize_tx(script_sig.as_slice(), outputs.as_slice(), true)
    } else {
        let copy = legacy.clone();
        assert(copy@ =~= legacy@);
        copy
    };

    CoinbaseTx { legacy_serialization: legacy, full_serialization: full, txid }
}

/// The extranonce bytes stand for the extranonce.
proof fn lemma_extranonce_bytes_value(extranonce: u64)
    ensures
        le_value(extranonce_bytes(extranonce)) == extranonce,
        1 <= extranonce_bytes(extranonce).len() <= 8,
{
    lemma_minimal_le_len_u64(extranonce as nat);
    if extranonce == 0 {
        assert(extranonce_bytes(0) =~= seq![0u8]);
        assert(seq![0u8].drop_first() =~= Seq::<u8>::empty());
        assert(le_value(Seq::<u8>::empty()) == 0);
    } else {
        lemma_minimal_le_value(extranonce as nat);
        assert(minimal_le(extranonce as nat).len() > 0);
    }
}

/// Every coinbase scriptSig built here is between 2 and 100 bytes long, the bounds
/// consensus puts on a coinbase scriptSig.
pub proof fn lemma_script_sig_len_within_consensus(height: u32, extranonce: u64, tag: Seq<u8>)
    ensures
        2 <= script_sig_spec(height, extranonce, tag).len() <= 100,
{
    lemma_bip34_push_len(height);
    lemma_extranonce_bytes_value(extranonce);
}

/// Two different extranonces give two different coinbase scriptSigs for the same
/// height and tag, so every extranonce opens a search space of its own.
pub proof fn lemma_extranonce_distinguishes_script_sig(height: u32, e1: u64, e2: u64, tag: Seq<u8>)
    requires
        e1 != e2,
    ensures
        script_sig_spec(height, e1, tag) != script_sig_spec(height, e2, tag),
{
    let s1 = script_sig_spec(height, e1, tag);
    let s2 = script_sig_spec(height, e2, tag);
    let b1 = extranonce_bytes(e1);
    let b2 = extranonce_bytes(e2);
    let head = bip34_push_spec(height);
    let n = head.len() as int;
    lemma_extranonce_bytes_value(e1);
    lemma_extranonce_bytes_value(e2);
    let p1 = head + extranonce_push_spec(e1);
    let p2 = head + extranonce_push_spec(e2);
    assert(s1 == p1 + tag_push_spec(p1.len(), tag));
    assert(s2 == p2 + tag_push_spec(p2.len(), tag));
    if b1.len() != b2.len() {
        assert(s1[n] == p1[n]);
        assert(s2[n] == p2[n]);
        assert(p1[n] == b1.len() as u8);
        assert(p2[n] == b2.len() as u8);
        assert(s1[n] != s2[n]);
    } else {
        assert(b1 != b2);
        assert(!(b1 =~= b2));
        let k = choose|k: int| 0 <= k < b1.len() && b1[k] != b2[k];
        assert(s1[n + 1 + k] == p1[n + 1 + k]);
        assert(s2[n + 1 + k] == p2[n + 1 + k]);
        assert(p1[n + 1 + k] == b1[k]);
        assert(p2[n + 1 + k] == b2[k]);
        assert(s1[n + 1 + k] != s2[n + 1 + k]);
    }
}

/// Coinbases that differ only in their extranonce serialize differently, with or
/// without witness data (so their txids differ unless double SHA-256 collides).
pub proof fn lemma_extranonce_distinguishes_coinbase(
    height: u32,
    e1: u64,
    e2: u64,
    tag: Seq<u8>,
    outputs: Seq<(u64, Seq<u8>)>,
    with_witness: bool,
)
    requires
        e1 != e2,
    ensures
        tx_spec(script_sig_spec(height, e1, tag), outputs, with_witness) != tx_spec(
            script_sig_spec(height, e2, tag),
            outputs,
            with_witness,
        ),
{
    let s1 = script_sig_spec(height, e1, tag);
    let s2 = script_sig_spec(height, e2, tag);
    lemma_extranonce_distinguishes_script_sig(height, e1, e2, tag);
    lemma_script_sig_len_within_consensus(height, e1, tag);
    lemma_script_sig_len_within_consensus(height, e2, tag);
    lemma_le_bytes_len(2, 4);
    lemma_le_bytes_len(0xffff_ffff, 4);
    let mark: Seq<u8> = if with_witness { seq![0x00u8, 0x01u8] } else { Seq::empty() };
    let a = le_bytes(2, 4) + mark + varint_spec(1) + zeros(32) + le_bytes(0xffff_ffff, 4);
    let n = a.len() as int;
    let tail = le_bytes(0xffff_ffff, 4) + varint_spec(outputs.len() as u64) + outputs_bytes(outputs)
        + (if with_witness { varint_spec(1) + varint_spec(32) + zeros(32) } else { Seq::empty() })
        + le_bytes(0, 4);
    let t1 = tx_spec(s1, outputs, with_witness);
    let t2 = tx_spec(s2, outputs, with_witness);
    assert(varint_spec(s1.len() as u64) == seq![s1.len() as u8]);
    assert(varint_spec(s2.len() as u64) == seq![s2.len() as u8]);
    assert(t1 =~= a + seq![s1.len() as u8] + s1 + tail);
    assert(t2 =~= a + seq![s2.len() as u8] + s2 + tail);
    if s1.len() != s2.len() {
        assert(t1[n] == s1.len() as u8);
        assert(t2[n] == s2.len() as u8);
        assert(t1[n] != t2[n]);
    } else {
        assert(!(s1 =~= s2));
        let k = choose|k: int| 0 <= k < s1.len() && s1[k] != s2[k];
        assert(t1[n + 1 + k] == s1[k]);
        assert(t2[n + 1 + k] == s2[k]);
        assert(t1[n + 1 + k] != t2[n + 1 + k]);
    }
}

/// Above 16, the BIP34 push is a length byte followed by one to five data bytes that
/// read, little-endian, as the height, with the sign bit of the last byte clear, and with no
/// byte to spare: the last data byte is zero only when the byte before it has its sign bit
/// set. This is the minimal script-number push that `CScript() << height` makes.
pub proof fn lemma_bip34_push_encodes_height(height: u32)
    requires
        height > 16,
    ensures
        bip34_push_spec(height)[0] as nat == bip34_push_spec(height).len() - 1,
        2 <= bip34_push_spec(height).len() <= 6,
        le_value(bip34_push_spec(height).drop_first()) == height,
        bip34_push_spec(height).last() < 0x80,
        ({
            let d = bip34_push_spec(height).drop_first();
            d.last() != 0 || d[d.len() - 2] >= 0x80
        }),
{
    let b = minimal_le(height as nat);
    let d = script_num_bytes(height as nat);
    lemma_minimal_le_len_u32(height as nat);
    lemma_minimal_le_value(height as nat);
    lemma_minimal_le_last(height as nat);
    if b.last() >= 0x80 {
        lemma_le_value_push_zero(b);
    }
    let p = bip34_push_spec(height);
    assert(p == seq![d.len() as u8] + d);
    assert(p.drop_first() =~= d);
    assert(p.last() == d.last());
}

/// A CompactSize carries its number. Below 0xfd it is the single byte `n`; otherwise a
/// marker byte (0xfd, 0xfe, 0xff) tells whether 2, 4 or 8 little-endian bytes follow, and
/// those bytes read as `n`.
pub proof fn lemma_varint_encodes(n: u64)
    ensures
        n < 0xfd ==> varint_spec(n) == seq![n as u8],
        n >= 0xfd ==> {
            let v = varint_spec(n);
            &&& v.len() == (if v[0] == 0xfd { 3int } else if v[0] == 0xfe { 5int } else { 9int })
            &&& 0xfd <= v[0]
            &&& le_value(v.drop_first()) == n
        },
{
    if n >= 0xfd {
        let v = varint_spec(n);
        assert(pow256(2) == 0x1_0000) by {
            reveal_with_fuel(pow256, 3);
        }
        assert(pow256(4) == 0x1_0000_0000) by {
            reveal_with_fuel(pow256, 5);
        }
        assert(pow256(8) == 0x1_0000_0000_0000_0000) by {
            reveal_with_fuel(pow256, 9);
        }
        if n <= 0xffff {
            lemma_le_bytes_len(n as nat, 2);
            lemma_le_bytes_value(n as nat, 2);
            assert(v.drop_first() =~= le_bytes(n as nat, 2));
        } else if n <= 0xffff_ffff {
            lemma_le_bytes_len(n as nat, 4);
            lemma_le_bytes_value(n as nat, 4);
            assert(v.drop_first() =~= le_bytes(n as nat, 4));
        } else {
            lemma_le_bytes_len(n as nat, 8);
            lemma_le_bytes_value(n as nat, 8);
            assert(v.drop_first() =~= le_bytes(n as nat, 8));
        }
    }
}

} // verus!
