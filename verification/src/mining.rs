//! What a miner computes for one template: the job snapshot, the header for an extranonce,
//! the proof-of-work test, the nonce search, and the block it submits.

use crate::bytes::{
    append_bytes, be_value, le_bytes, le_value, lemma_be_value_lex_lt, lemma_le_value_reverse,
    push_le,
};
use crate::coinbase::{
    build_coinbase, coinbase_outputs_spec, script_sig_spec, tx_spec, varint_spec, write_varint,
    CoinbaseParams, CoinbaseTx,
};
use crate::hexcode::{hex_encode, hex_encode_spec};
use crate::merkle::{
    hash_views, merkle_root, merkle_root_spec, reverse, sha256d, sha256d_spec,
};
use crate::template::BlockTemplate;
use vstd::prelude::*;

verus! {

/// Snapshot of mining inputs shared by all workers for the current template.
/// Rebuilt every refresh.
pub struct MiningJob {
    pub height: u32,
    pub version: i32,
    /// Already reversed for header use.
    pub prev_hash_internal: [u8; 32],
    /// Already reversed for header use.
    pub bits: [u8; 4],
    /// Big-endian (display); a hash is good when, read little-endian, it is below this.
    pub target: [u8; 32],
    pub curtime: u32,
    pub coinbase_value: u64,
    pub payout_script: Vec<u8>,
    pub witness_commitment_script: Option<Vec<u8>>,
    pub coinbase_tag: Vec<u8>,
    /// txids of NON-coinbase transactions, in internal byte order (for merkle).
    pub other_txids_internal: Vec<[u8; 32]>,
    /// Raw serialized tx bytes (with witness if any) for assembling the final block.
    pub other_tx_bytes: Vec<Vec<u8>>,
}

/// The byte sequences of a list of byte vectors.
pub open spec fn bytes_views(v: Seq<Vec<u8>>) -> Seq<Seq<u8>> {
    v.map_values(|b: Vec<u8>| b@)
}

impl MiningJob {
    /// Every non-coinbase transaction has both its txid and its bytes.
    pub open spec fn wf(&self) -> bool {
        self.other_txids_internal@.len() == self.other_tx_bytes@.len()
    }

    /// The witness commitment script, as bytes.
    pub open spec fn commitment_view(&self) -> Option<Seq<u8>> {
        match self.witness_commitment_script {
            Some(c) => Some(c@),
            None => None,
        }
    }

    /// The job holds the template's fields, hashes turned to internal byte order.
    pub open spec fn from_template_spec(&self, tpl: BlockTemplate, payout: Seq<u8>, tag: Seq<u8>) -> bool {
        &&& self.wf()
        &&& self.height == tpl.height
        &&& self.version == tpl.version
        &&& self.prev_hash_internal@ == tpl.previous_blockhash@.reverse()
        &&& self.bits@ == tpl.bits@.reverse()
        &&& self.target == tpl.target
        &&& self.curtime == tpl.curtime
        &&& self.coinbase_value == tpl.coinbase_value
        &&& self.payout_script@ == payout
        &&& self.witness_commitment_script == tpl.default_witness_commitment
        &&& self.coinbase_tag@ == tag
        &&& self.other_txids_internal@.len() == tpl.transactions@.len()
        &&& forall|i: int|
            0 <= i < tpl.transactions@.len() ==> #[trigger] self.other_txids_internal@[i]@
                == tpl.transactions@[i].txid@.reverse()
        &&& forall|i: int|
            0 <= i < tpl.transactions@.len() ==> #[trigger] self.other_tx_bytes@[i]@
                == tpl.transactions@[i].data@
    }

    /// Builds the job for a template.
    pub fn from_template(tpl: BlockTemplate, payout_script: Vec<u8>, coinbase_tag: Vec<u8>) -> (job: Self)
        ensures
            job.from_template_spec(tpl, payout_script@, coinbase_tag@),
    {
        let prev_hash_internal = reverse(&tpl.previous_blockhash);
        let bits: [u8; 4] = [tpl.bits[3], tpl.bits[2], tpl.bits[1], tpl.bits[0]];
        assert(bits@ =~= tpl.bits@.reverse());

        let mut other_txids_internal: Vec<[u8; 32]> = Vec::new();
        let mut other_tx_bytes: Vec<Vec<u8>> = Vec::new();
        for i in 0..tpl.transactions.len()
            invariant
                other_txids_internal@.len() == i,
                other_tx_bytes@.len() == i,
                forall|j: int|
                    0 <= j < i ==> #[trigger] other_txids_internal@[j]@
                        == tpl.transactions@[j].txid@.reverse(),
                forall|j: int| 0 <= j < i ==> #[trigger] other_tx_bytes@[j]@ == tpl.transactions@[j].data@,
        {
            other_txids_internal.push(reverse(&tpl.transactions[i].txid));
            let data = tpl.transactions[i].data.clone();
            assert(data@ =~= tpl.transactions@[i as int].data@);
            other_tx_bytes.push(data);
        }

        MiningJob {
            height: tpl.height,
            version: tpl.version,
            prev_hash_internal,
            bits,
            target: tpl.target,
            curtime: tpl.curtime,
            coinbase_value: tpl.coinbase_value,
            payout_script,
            witness_commitment_script: tpl.default_witness_commitment,
            coinbase_tag,
            other_txids_internal,
            other_tx_bytes,
        }
    }
}

/// The 80-byte block header: version, previous block hash, merkle root, time, bits and
/// nonce, integers little-endian.
pub open spec fn header_spec(
    version: i32,
    prev: Seq<u8>,
    mroot: Seq<u8>,
    curtime: u32,
    bits: Seq<u8>,
    nonce: u32,
) -> Seq<u8> {
    le_bytes(version as u32 as nat, 4) + prev + mroot + le_bytes(curtime as nat, 4) + bits
        + le_bytes(nonce as nat, 4)
}

/// A header with its last four bytes replaced by `nonce`, little-endian.
pub open spec fn with_nonce(header: Seq<u8>, nonce: u32) -> Seq<u8> {
    header.take(76) + le_bytes(nonce as nat, 4)
}

/// A hash meets the target when, read as a little-endian number, it is below the
/// big-endian target.
pub open spec fn meets_target(hash: Seq<u8>, target: Seq<u8>) -> bool {
    le_value(hash) < be_value(target)
}

/// The header with `nonce` hashes below the target.
pub open spec fn nonce_hits(header: Seq<u8>, target: Seq<u8>, nonce: u32) -> bool {
    meets_target(sha256d_spec(with_nonce(header, nonce)), target)
}

/// The 4-byte little-endian encoding of a 32-bit number, spelled out.
proof fn lemma_le_bytes4(n: u32)
    ensures
        le_bytes(n as nat, 4) =~= seq![
            (n % 256) as u8,
            ((n / 256) % 256) as u8,
            ((n / 65536) % 256) as u8,
            ((n / 16777216) % 256) as u8,
        ],
{
    reveal_with_fuel(le_bytes, 5);
    assert(n as nat / 256 / 256 == n as nat / 65536);
    assert(n as nat / 256 / 256 / 256 == n as nat / 16777216);
}

/// Writes `nonce`, little-endian, into the last four bytes of a header.
pub fn set_nonce(header: &mut [u8; 80], nonce: u32)
    ensures
        final(header)@ == with_nonce(old(header)@, nonce),
{
    proof {
        lemma_le_bytes4(nonce);
    }
    header[76] = (nonce % 256) as u8;
    header[77] = ((nonce / 256) % 256) as u8;
    header[78] = ((nonce / 65536) % 256) as u8;
    header[79] = ((nonce / 16777216) % 256) as u8;
    assert(header@ =~= with_nonce(old(header)@, nonce));
}

/// `hash` is little-endian internal sha256d output (32 bytes); `target` is the big-endian
/// display-order target from RPC. The block is valid when the hash, as a number, is below
/// the target: reverse(hash) < target lexicographically.
pub fn is_below_target(hash: &[u8; 32], target: &[u8; 32]) -> (r: bool)
    ensures
        r == meets_target(hash@, target@),
{
    let ghost rh = hash@.reverse();
    proof {
        lemma_le_value_reverse(hash@);
    }
    // reverse(hash) compared with target: hash bytes from index 31 down vs target 0..31.
    for i in 0..32
        invariant
            rh == hash@.reverse(),
            le_value(hash@) == be_value(rh),
            forall|j: int| 0 <= j < i ==> rh[j] == target@[j],
    {
        let h = hash[31 - i];
        let t = target[i];
        if h < t {
            proof {
                lemma_be_value_lex_lt(rh, target@, i as int);
            }
            return true;
        }
        if h > t {
            proof {
                lemma_be_value_lex_lt(target@, rh, i as int);
            }
            return false;
        }
    }
    assert(rh =~= target@);
    false
}

/// Searches nonces `first .. first + count` of `header` for one whose double-SHA256 header
/// hash meets the target, and returns the first such nonce.
pub fn search_nonces(header: &[u8; 80], target: &[u8; 32], first: u32, count: u32) -> (r: Option<u32>)
    requires
        first + count <= 0x1_0000_0000,
    ensures
        match r {
            Some(n) => {
                &&& first <= n < first + count
                &&& nonce_hits(header@, target@, n)
                &&& forall|m: u32| first <= m < n ==> !nonce_hits(header@, target@, m)
            },
            None => forall|m: u32| first <= m < first + count ==> !nonce_hits(header@, target@, m),
        },
{
    let mut h: [u8; 80] = *header;
    for k in 0..count
        invariant
            first + count <= 0x1_0000_0000,
            h@.take(76) == header@.take(76),
            forall|m: u32| first <= m < first + k ==> !nonce_hits(header@, target@, m),
    {
        let nonce = first + k;
        set_nonce(&mut h, nonce);
        assert(with_nonce(h@, nonce) =~= h@);
        assert(with_nonce(header@, nonce) =~= h@);
        let digest = sha256d(h.as_slice());
        if is_below_target(&digest, target) {
            return Some(nonce);
        }
        assert(h@.take(76) =~= header@.take(76));
    }
    None
}

/// Double SHA-256 of an 80-byte header.
pub fn header_hash(header: &[u8; 80]) -> (out: [u8; 32])
    ensures
        out@ == sha256d_spec(header@),
{
    sha256d(header.as_slice())
}

/// The header skeleton and coinbase for one (job, extranonce) pair.
pub struct Work {
    /// Header with a zero nonce.
    pub header: [u8; 80],
    pub coinbase: CoinbaseTx,
}

impl MiningJob {
    /// The coinbase scriptSig for `extranonce`.
    pub open spec fn script_sig_for(&self, extranonce: u64) -> Seq<u8> {
        script_sig_spec(self.height, extranonce, self.coinbase_tag@)
    }

    /// The coinbase outputs.
    pub open spec fn coinbase_outputs(&self) -> Seq<(u64, Seq<u8>)> {
        coinbase_outputs_spec(self.coinbase_value, self.payout_script@, self.commitment_view())
    }

    /// The coinbase serialized without witness data, for `extranonce`.
    pub open spec fn coinbase_legacy(&self, extranonce: u64) -> Seq<u8> {
        tx_spec(self.script_sig_for(extranonce), self.coinbase_outputs(), false)
    }

    /// The coinbase as it goes into the block, for `extranonce`.
    pub open spec fn coinbase_full(&self, extranonce: u64) -> Seq<u8> {
        if self.witness_commitment_script is Some {
            tx_spec(self.script_sig_for(extranonce), self.coinbase_outputs(), true)
        } else {
            self.coinbase_legacy(extranonce)
        }
    }

    /// Merkle leaves: the coinbase txid, then the other txids, all in internal order.
    pub open spec fn leaves_for(&self, extranonce: u64) -> Seq<Seq<u8>> {
        seq![sha256d_spec(self.coinbase_legacy(extranonce))] + hash_views(self.other_txids_internal@)
    }

    /// The header for `extranonce` and `nonce`.
    pub open spec fn header_for(&self, extranonce: u64, nonce: u32) -> Seq<u8> {
        header_spec(
            self.version,
            self.prev_hash_internal@,
            merkle_root_spec(self.leaves_for(extranonce)),
            self.curtime,
            self.bits@,
            nonce,
        )
    }

    /// Builds the coinbase for `extranonce`, the merkle root over it and the other
    /// transactions, and the 80-byte header skeleton (nonce zero).
    pub fn work_for(&self, extranonce: u64) -> (w: Work)
        ensures
            w.header@ == self.header_for(extranonce, 0),
            w.coinbase.legacy_serialization@ == self.coinbase_legacy(extranonce),
            w.coinbase.txid@ == sha256d_spec(self.coinbase_legacy(extranonce)),
            w.coinbase.full_serialization@ == self.coinbase_full(extranonce),
    {
        let witness: Option<&[u8]> = match &self.witness_commitment_script {
            Some(v) => Some(v.as_slice()),
            None => None,
        };
        let params = CoinbaseParams {
            height: self.height,
            coinbase_value: self.coinbase_value,
            payout_script: self.payout_script.as_slice(),
            witness_commitment_script: witness,
            extranonce,
            tag: self.coinbase_tag.as_slice(),
        };
        assert(params.commitment_view() == self.commitment_view());
        let coinbase = build_coinbase(&params);

        // Merkle leaves = [coinbase txid, then each other tx's txid], internal order.
        let mut leaves: Vec<[u8; 32]> = Vec::new();
        leaves.push(coinbase.txid);
        for i in 0..self.other_txids_internal.len()
            invariant
                leaves@.len() == i + 1,
                leaves@[0] == coinbase.txid,
                forall|j: int| 0 <= j < i ==> leaves@[j + 1] == self.other_txids_internal@[j],
        {
            leaves.push(self.other_txids_internal[i]);
        }
        assert(hash_views(leaves@) =~= self.leaves_for(extranonce));
        let mroot = merkle_root(leaves.as_slice());

        let mut bytes: Vec<u8> = Vec::new();
        push_le(&mut bytes, (#[verifier::truncate] (self.version as u32)) as u64, 4);
        append_bytes(&mut bytes, self.prev_hash_internal.as_slice());
        append_bytes(&mut bytes, mroot.as_slice());
        push_le(&mut bytes, self.curtime as u64, 4);
        append_bytes(&mut bytes, self.bits.as_slice());
        push_le(&mut bytes, 0, 4);
        proof {
            crate::bytes::lemma_le_bytes_len((self.version as u32) as nat, 4);
            crate::bytes::lemma_le_bytes_len(self.curtime as nat, 4);
            crate::bytes::lemma_le_bytes_len(0, 4);
        }
        assert(bytes@ =~= self.header_for(extranonce, 0));
        let mut header = [0u8; 80];
        for i in 0..80
            invariant
                bytes@.len() == 80,
                header@.len() == 80,
                forall|j: int| 0 <= j < i ==> header@[j] == bytes@[j],
        {
            header[i] = bytes[i];
        }
        assert(header@ =~= bytes@);
        Work { header, coinbase }
    }
}

/// The bytes of a list of transactions, one after the other.
pub open spec fn concat_bytes(txs: Seq<Seq<u8>>) -> Seq<u8>
    decreases txs.len(),
{
    if txs.len() == 0 {
        Seq::empty()
    } else {
        concat_bytes(txs.drop_last()) + txs.last()
    }
}

/// A serialized block: header, transaction count, the coinbase, then the other transactions.
pub open spec fn block_spec(header: Seq<u8>, coinbase: Seq<u8>, others: Seq<Seq<u8>>) -> Seq<u8> {
    header + varint_spec((others.len() + 1) as u64) + coinbase + concat_bytes(others)
}

/// The total number of bytes in a list of transactions.
pub open spec fn total_len(txs: Seq<Seq<u8>>) -> nat
    decreases txs.len(),
{
    if txs.len() == 0 {
        0
    } else {
        total_len(txs.drop_last()) + txs.last().len()
    }
}

/// The transactions laid end to end: as long as all of them together, with transaction `i`
/// starting right after the bytes of the ones before it.
proof fn lemma_concat_bytes_layout(txs: Seq<Seq<u8>>, i: int)
    requires
        0 <= i < txs.len(),
    ensures
        concat_bytes(txs).len() == total_len(txs),
        total_len(txs.take(i)) + txs[i].len() <= total_len(txs),
        concat_bytes(txs).subrange(
            total_len(txs.take(i)) as int,
            total_len(txs.take(i)) as int + txs[i].len(),
        ) == txs[i],
    decreases txs.len(),
{
    let n = txs.len() - 1;
    let init = txs.drop_last();
    lemma_concat_bytes_len(init);
    if i == n {
        assert(txs.take(i) =~= init);
        assert(concat_bytes(txs).subrange(total_len(init) as int, total_len(init) as int + txs[i].len())
            =~= txs[i]);
    } else {
        lemma_concat_bytes_layout(init, i);
        assert(init.take(i) =~= txs.take(i));
        assert(init[i] == txs[i]);
        let a = total_len(txs.take(i)) as int;
        assert(concat_bytes(txs).subrange(a, a + txs[i].len()) =~= concat_bytes(init).subrange(
            a,
            a + txs[i].len(),
        ));
    }
}

/// The bytes of a list of transactions number as many as all of them together.
proof fn lemma_concat_bytes_len(txs: Seq<Seq<u8>>)
    ensures
        concat_bytes(txs).len() == total_len(txs),
    decreases txs.len(),
{
    if txs.len() > 0 {
        lemma_concat_bytes_len(txs.drop_last());
    }
}

/// A serialized block carries everything it should, in order: the header, the transaction
/// count, the coinbase, then every other transaction whole, each right after the ones before
/// it, and nothing more.
pub proof fn lemma_block_carries_every_transaction(
    header: Seq<u8>,
    coinbase: Seq<u8>,
    others: Seq<Seq<u8>>,
)
    requires
        others.len() + 1 <= u64::MAX,
    ensures
        ({
            let b = block_spec(header, coinbase, others);
            let v = varint_spec((others.len() + 1) as u64);
            let start = (header.len() + v.len() + coinbase.len()) as int;
            &&& b.len() == start + total_len(others)
            &&& b.take(header.len() as int) == header
            &&& b.subrange(header.len() as int, header.len() as int + v.len()) == v
            &&& b.subrange((header.len() + v.len()) as int, start) == coinbase
            &&& forall|i: int|
                0 <= i < others.len() ==> #[trigger] b.subrange(
                    start + total_len(others.take(i)),
                    start + total_len(others.take(i)) + others[i].len(),
                ) == others[i]
        }),
{
    let b = block_spec(header, coinbase, others);
    let v = varint_spec((others.len() + 1) as u64);
    let start = (header.len() + v.len() + coinbase.len()) as int;
    let c = concat_bytes(others);
    lemma_concat_bytes_len(others);
    assert(b.take(header.len() as int) =~= header);
    assert(b.subrange(header.len() as int, header.len() as int + v.len()) =~= v);
    assert(b.subrange((header.len() + v.len()) as int, start) =~= coinbase);
    assert forall|i: int| 0 <= i < others.len() implies #[trigger] b.subrange(
        start + total_len(others.take(i)),
        start + total_len(others.take(i)) + others[i].len(),
    ) == others[i] by {
        lemma_concat_bytes_layout(others, i);
        let a = total_len(others.take(i)) as int;
        assert(b.subrange(start + a, start + a + others[i].len()) =~= c.subrange(a, a + others[i].len()));
    }
}

/// Serializes the block for a found header.
pub fn assemble_block(job: &MiningJob, header: &[u8; 80], coinbase_full: &[u8]) -> (block: Vec<u8>)
    requires
        job.other_tx_bytes@.len() < usize::MAX,
    ensures
        block@ == block_spec(header@, coinbase_full@, bytes_views(job.other_tx_bytes@)),
{
    let mut block: Vec<u8> = Vec::new();
    append_bytes(&mut block, header.as_slice());
    let tx_count = 1 + job.other_tx_bytes.len();
    write_varint(&mut block, tx_count as u64);
    append_bytes(&mut block, coinbase_full);
    let ghost before = block@;
    let ghost others = bytes_views(job.other_tx_bytes@);
    for i in 0..job.other_tx_bytes.len()
        invariant
            others == bytes_views(job.other_tx_bytes@),
            block@ == before + concat_bytes(others.take(i as int)),
    {
        append_bytes(&mut block, job.other_tx_bytes[i].as_slice());
        assert(others.take(i + 1).drop_last() =~= others.take(i as int));
    }
    assert(others.take(job.other_tx_bytes.len() as int) =~= others);
    block
}

/// Serializes the block for a found header, as lowercase hex for `submitblock`.
pub fn assemble_block_hex(job: &MiningJob, header: &[u8; 80], coinbase_full: &[u8]) -> (text: String)
    requires
        job.other_tx_bytes@.len() < usize::MAX,
    ensures
        text@ == hex_encode_spec(block_spec(header@, coinbase_full@, bytes_views(job.other_tx_bytes@))),
{
    let block = assemble_block(job, header, coinbase_full);
    hex_encode(block.as_slice())
}

/// A newly fetched template replaces the current job when it is for another height or
/// has a later `curtime`.
pub fn template_supersedes(tpl: &BlockTemplate, current_height: u32, current_curtime: u32) -> (r: bool)
    ensures
        r == (tpl.height != current_height || tpl.curtime > current_curtime),
{
    tpl.height != current_height || tpl.curtime > current_curtime
}

/// The extranonce of a CPU worker: thread id in the high 32 bits, the worker's local
/// counter in the low 32 bits.
pub open spec fn worker_extranonce_spec(thread_id: usize, local: u32) -> u64 {
    ((thread_id as u64) << 32u64) | (local as u64)
}

/// A CPU worker's extranonce counter: it partitions the search space so that threads
/// never collide.
pub struct WorkerExtranonce {
    pub thread_id: usize,
    pub local_extra: u32,
}

impl WorkerExtranonce {
    /// The counter of worker `thread_id`, starting at zero.
    pub fn new(thread_id: usize) -> (w: WorkerExtranonce)
        ensures
            w.thread_id == thread_id,
            w.local_extra == 0,
    {
        WorkerExtranonce { thread_id, local_extra: 0 }
    }

    /// Starts counting again from zero (a new job arrived).
    pub fn restart(&mut self)
        ensures
            final(self).thread_id == old(self).thread_id,
            final(self).local_extra == 0,
    {
        self.local_extra = 0;
    }

    /// The next extranonce: compose `(thread_id, local counter)`, then advance the counter
    /// (wrapping).
    pub fn next(&mut self) -> (e: u64)
        ensures
            e == worker_extranonce_spec(old(self).thread_id, old(self).local_extra),
            final(self).thread_id == old(self).thread_id,
            final(self).local_extra == old(self).local_extra.wrapping_add(1),
    {
        let e = ((self.thread_id as u64) << 32u64) | (self.local_extra as u64);
        self.local_extra = self.local_extra.wrapping_add(1);
        e
    }
}

/// Workers never collide. For thread ids below 2^32, two different
/// (thread id, local counter) pairs give two different extranonces.
pub proof fn lemma_worker_extranonces_distinct(t1: usize, l1: u32, t2: usize, l2: u32)
    requires
        t1 < 0x1_0000_0000,
        t2 < 0x1_0000_0000,
        t1 != t2 || l1 != l2,
    ensures
        worker_extranonce_spec(t1, l1) != worker_extranonce_spec(t2, l2),
{
    let a1 = t1 as u64;
    let a2 = t2 as u64;
    let b1 = l1 as u64;
    let b2 = l2 as u64;
    assert(a1 < 0x1_0000_0000 && b1 < 0x1_0000_0000 ==> ((a1 << 32u64) | b1) >> 32u64 == a1 && ((
    a1 << 32u64) | b1) & 0xffff_ffffu64 == b1) by (bit_vector);
    assert(a2 < 0x1_0000_0000 && b2 < 0x1_0000_0000 ==> ((a2 << 32u64) | b2) >> 32u64 == a2 && ((
    a2 << 32u64) | b2) & 0xffff_ffffu64 == b2) by (bit_vector);
}

/// No hash meets the all-zero target, so a search against it never reports a nonce
/// (what benchmark mode relies on).
pub proof fn lemma_zero_target_unreachable(hash: Seq<u8>)
    ensures
        !meets_target(hash, Seq::new(32, |i: int| 0u8)),
{
    lemma_be_value_zero(Seq::new(32, |i: int| 0u8));
}

/// A string of zero bytes stands for zero.
proof fn lemma_be_value_zero(s: Seq<u8>)
    requires
        forall|i: int| 0 <= i < s.len() ==> s[i] == 0,
    ensures
        be_value(s) == 0,
    decreases s.len(),
{
    if s.len() > 0 {
        lemma_be_value_zero(s.drop_last());
    }
}

} // verus!
