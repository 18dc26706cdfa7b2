//! What the host computes around a GPU nonce search: the work unit it uploads, the
//! re-check of a reported nonce, and where the search goes after each batch.

use crate::merkle::{sha256d, sha256d_spec};
use crate::mining::{is_below_target, nonce_hits, set_nonce, with_nonce, MiningJob};
use crate::sha256_host::{
    be_word, compress_spec, digest_bytes, digest_padding, header_tail_padding,
    lemma_digest_sha256_one_block, lemma_header_sha256_from_midstate, midstate, word_from_be, IV,
};
use vstd::prelude::*;

verus! {

/// Everything the GPU needs for one (job, extranonce) pair, plus the data to assemble the block.
pub struct Prep {
    /// Bytes 0..76 fixed; 76..80 (nonce) filled per hit.
    pub header: [u8; 80],
    /// SHA-256 state after header[0..64].
    pub midstate: [u32; 8],
    /// header[64..76] packed big-endian.
    pub tail: [u32; 3],
    /// Job target as 8 big-endian words (zeroed in benchmark mode).
    pub target_words: [u32; 8],
    /// Full coinbase serialization for block assembly.
    pub coinbase_full: Vec<u8>,
}

/// The target as 8 big-endian words, most significant first; all zero in benchmark mode,
/// an impossible target so that the kernel never reports a hit.
pub open spec fn target_words_spec(target: Seq<u8>, benchmark: bool) -> Seq<u32> {
    if benchmark {
        Seq::new(8, |k: int| 0u32)
    } else {
        Seq::new(8, |k: int| be_word(target, k))
    }
}

/// The four bytes of a big-endian word come back out of it, most significant first.
proof fn lemma_be_word_bytes(b0: u8, b1: u8, b2: u8, b3: u8)
    by (bit_vector)
    ensures
        ({
            let w = ((b0 as u32) << 24u32) | ((b1 as u32) << 16u32) | ((b2 as u32) << 8u32) | (b3 as u32);
            &&& (w >> 24u32) as u8 == b0
            &&& (w >> 16u32) as u8 == b1
            &&& (w >> 8u32) as u8 == b2
            &&& (w >> 0u32) as u8 == b3
        }),
{
}

/// Outside benchmark mode the target words spell the target: written out big-endian, one
/// after the other, the eight words are the 32 target bytes, in order.
pub proof fn lemma_target_words_spell_target(target: Seq<u8>)
    requires
        target.len() == 32,
    ensures
        digest_bytes(target_words_spec(target, false)) == target,
{
    let w = target_words_spec(target, false);
    assert forall|i: int| 0 <= i < 32 implies #[trigger] digest_bytes(w)[i] == target[i] by {
        let k = i / 4;
        let j = i % 4;
        assert(4 * k + j == i);
        lemma_be_word_bytes(target[4 * k], target[4 * k + 1], target[4 * k + 2], target[4 * k + 3]);
        assert(w[k] == be_word(target, k));
        if j == 0 {
            assert(digest_bytes(w)[i] == (w[k] >> 24u32) as u8);
        } else if j == 1 {
            assert(digest_bytes(w)[i] == (w[k] >> 16u32) as u8);
        } else if j == 2 {
            assert(digest_bytes(w)[i] == (w[k] >> 8u32) as u8);
        } else {
            assert(digest_bytes(w)[i] == (w[k] >> 0u32) as u8);
        }
    }
    assert(digest_bytes(w) =~= target);
}

/// Builds the work unit for `job` and `extranonce`: the header (nonce zero), the SHA-256
/// midstate of its first 64 bytes, its bytes 64..76 as three big-endian words, the target
/// words, and the coinbase that goes into the block.
pub fn prepare(job: &MiningJob, extranonce: u64, benchmark: bool) -> (p: Prep)
    ensures
        p.header@ == job.header_for(extranonce, 0),
        p.midstate@ == compress_spec(IV@, p.header@.take(64)),
        p.tail@ == seq![be_word(p.header@, 16), be_word(p.header@, 17), be_word(p.header@, 18)],
        p.target_words@ == target_words_spec(job.target@, benchmark),
        !benchmark ==> digest_bytes(p.target_words@) == job.target@,
        p.coinbase_full@ == job.coinbase_full(extranonce),
{
    let work = job.work_for(extranonce);
    let header = work.header;

    let mut first64 = [0u8; 64];
    for i in 0..64
        invariant
            first64@.len() == 64,
            forall|j: int| 0 <= j < i ==> first64@[j] == header@[j],
    {
        first64[i] = header[i];
    }
    assert(first64@ =~= header@.take(64));
    let midstate = midstate(&first64);

    let tail = [
        word_from_be(header[64], header[65], header[66], header[67]),
        word_from_be(header[68], header[69], header[70], header[71]),
        word_from_be(header[72], header[73], header[74], header[75]),
    ];
    assert(tail@ =~= seq![be_word(header@, 16), be_word(header@, 17), be_word(header@, 18)]);

    let mut target_words = [0u32; 8];
    if !benchmark {
        for k in 0..8
            invariant
                target_words@.len() == 8,
                forall|j: int| 0 <= j < k ==> target_words@[j] == be_word(job.target@, j),
        {
            target_words[k] = word_from_be(
                job.target[4 * k],
                job.target[4 * k + 1],
                job.target[4 * k + 2],
                job.target[4 * k + 3],
            );
        }
    }
    assert(target_words@ =~= target_words_spec(job.target@, benchmark));
    proof {
        lemma_target_words_spell_target(job.target@);
    }

    Prep { header, midstate, tail, target_words, coinbase_full: work.coinbase.full_serialization }
}

impl Prep {
    /// Re-checks a nonce the GPU reported: the header with that nonce, if its double-SHA256
    /// hash meets `target`, and `None` if it does not.
    pub fn verify_hit(&self, target: &[u8; 32], nonce: u32) -> (r: Option<[u8; 80]>)
        ensures
            r is Some <==> nonce_hits(self.header@, target@, nonce),
            r matches Some(h) ==> h@ == with_nonce(self.header@, nonce),
    {
        let mut header = self.header;
        set_nonce(&mut header, nonce);
        let digest = sha256d(header.as_slice());
        if is_below_target(&digest, target) {
            Some(header)
        } else {
            None
        }
    }
}

/// The GPU's shortcut is exact: for every nonce, the double SHA-256 of the header with that
/// nonce is two compressions away from the midstate of the header's first 64 bytes, which
/// the nonce does not touch. The first compresses the header's last 16 bytes with their
/// padding from the midstate; the second compresses that digest with its padding from the
/// initial hash value.
pub proof fn lemma_midstate_double_hash(header: Seq<u8>, mid: Seq<u32>, nonce: u32)
    requires
        header.len() == 80,
        mid == compress_spec(IV@, header.take(64)),
    ensures
        sha256d_spec(with_nonce(header, nonce)) == digest_bytes(
            compress_spec(
                IV@,
                digest_bytes(
                    compress_spec(mid, with_nonce(header, nonce).skip(64) + header_tail_padding()),
                ) + digest_padding(),
            ),
        ),
{
    let h = with_nonce(header, nonce);
    crate::bytes::lemma_le_bytes_len(nonce as nat, 4);
    assert(h.take(64) =~= header.take(64));
    lemma_header_sha256_from_midstate(h);
    lemma_digest_sha256_one_block(
        digest_bytes(compress_spec(mid, h.skip(64) + header_tail_padding())),
    );
}

/// Nonces covered by one kernel launch: blocks × threads per block × nonces per thread.
pub fn batch_span(blocks: u32, threads_per_block: u32, nonces_per_thread: u32) -> (span: u64)
    requires
        blocks * threads_per_block * nonces_per_thread <= u64::MAX,
    ensures
        span == blocks * threads_per_block * nonces_per_thread,
{
    let a = blocks as u64;
    let b = threads_per_block as u64;
    let c = nonces_per_thread as u64;
    assert(a * b <= u64::MAX) by (nonlinear_arith)
        requires
            a * b * c <= u64::MAX,
            a < 0x1_0000_0000,
            b < 0x1_0000_0000,
    ;
    a * b * c
}

/// Where the GPU search stands: the extranonce in use and the first nonce of the next batch.
pub struct SearchPos {
    pub extranonce: u64,
    pub base_nonce: u64,
}

impl SearchPos {
    /// The start of the search for a new job: extranonce zero, nonce zero.
    pub fn start() -> (p: SearchPos)
        ensures
            p.extranonce == 0,
            p.base_nonce == 0,
    {
        SearchPos { extranonce: 0, base_nonce: 0 }
    }

    /// The position after a batch of `span` nonces: the next batch of the same extranonce
    /// while the 2^32 nonce space lasts, else the next extranonce from nonce zero.
    pub fn after_batch(&self, span: u64) -> (next: SearchPos)
        requires
            self.base_nonce < 0x1_0000_0000,
            self.base_nonce + span >= 0x1_0000_0000 ==> self.extranonce < u64::MAX,
        ensures
            self.base_nonce + span < 0x1_0000_0000 ==> next.extranonce == self.extranonce
                && next.base_nonce == self.base_nonce + span,
            self.base_nonce + span >= 0x1_0000_0000 ==> next.extranonce == self.extranonce + 1
                && next.base_nonce == 0,
    {
        if span < 0x1_0000_0000 - self.base_nonce {
            SearchPos { extranonce: self.extranonce, base_nonce: self.base_nonce + span }
        } else {
            SearchPos { extranonce: self.extranonce + 1, base_nonce: 0 }
        }
    }
}

} // verus!
