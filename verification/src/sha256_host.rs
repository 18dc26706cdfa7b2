//! Host-side SHA-256 block compression, used to precompute the **midstate** of the first
//! 64 bytes of the 80-byte block header (which never change while the nonce varies).
//!
//! The GPU kernel resumes from this midstate and only processes the second header block plus
//! the second SHA-256, instead of redoing the whole 80-byte first hash for every nonce.
//!
//! `midstate` returns the 8 state words **after** compressing exactly one 64-byte block,
//! starting from the SHA-256 initial vector. These words are uploaded to the GPU as-is.

use vstd::prelude::*;

verus! {

/// The SHA-256 initial hash value (FIPS 180-4, 5.3.3).
pub const IV: [u32; 8] = [
    0x6a09_e667, 0xbb67_ae85, 0x3c6e_f372, 0xa54f_f53a,
    0x510e_527f, 0x9b05_688c, 0x1f83_d9ab, 0x5be0_cd19,
];

/// The SHA-256 round constants (FIPS 180-4, 4.2.2).
pub const K: [u32; 64] = [
    0x428a2f98, 0x71374491, 0xb5c0fbcf, 0xe9b5dba5, 0x3956c25b, 0x59f111f1, 0x923f82a4, 0xab1c5ed5,
    0xd807aa98, 0x12835b01, 0x243185be, 0x550c7dc3, 0x72be5d74, 0x80deb1fe, 0x9bdc06a7, 0xc19bf174,
    0xe49b69c1, 0xefbe4786, 0x0fc19dc6, 0x240ca1cc, 0x2de92c6f, 0x4a7484aa, 0x5cb0a9dc, 0x76f988da,
    0x983e5152, 0xa831c66d, 0xb00327c8, 0xbf597fc7, 0xc6e00bf3, 0xd5a79147, 0x06ca6351, 0x14292967,
    0x27b70a85, 0x2e1b2138, 0x4d2c6dfc, 0x53380d13, 0x650a7354, 0x766a0abb, 0x81c2c92e, 0x92722c85,
    0xa2bfe8a1, 0xa81a664b, 0xc24b8b70, 0xc76c51a3, 0xd192e819, 0xd6990624, 0xf40e3585, 0x106aa070,
    0x19a4c116, 0x1e376c08, 0x2748774c, 0x34b0bcb5, 0x391c0cb3, 0x4ed8aa4a, 0x5b9cca4f, 0x682e6ff3,
    0x748f82ee, 0x78a5636f, 0x84c87814, 0x8cc70208, 0x90befffa, 0xa4506ceb, 0xbef9a3f7, 0xc67178f2,
];

/// Addition modulo 2^32.
pub open spec fn add32(x: u32, y: u32) -> u32 {
    x.wrapping_add(y)
}

/// ROTR^n(x): rotate a word right by `n` bits (FIPS 180-4, 3.2).
pub open spec fn rotr_spec(x: u32, n: u32) -> u32 {
    (x >> n) | (x << ((32 - n) as u32))
}

/// Σ0 (FIPS 180-4, 4.1.2).
pub open spec fn big_sigma0(x: u32) -> u32 {
    rotr_spec(x, 2) ^ rotr_spec(x, 13) ^ rotr_spec(x, 22)
}

/// Σ1 (FIPS 180-4, 4.1.2).
pub open spec fn big_sigma1(x: u32) -> u32 {
    rotr_spec(x, 6) ^ rotr_spec(x, 11) ^ rotr_spec(x, 25)
}

/// σ0 (FIPS 180-4, 4.1.2).
pub open spec fn small_sigma0(x: u32) -> u32 {
    rotr_spec(x, 7) ^ rotr_spec(x, 18) ^ (x >> 3)
}

/// σ1 (FIPS 180-4, 4.1.2).
pub open spec fn small_sigma1(x: u32) -> u32 {
    rotr_spec(x, 17) ^ rotr_spec(x, 19) ^ (x >> 10)
}

/// Ch (FIPS 180-4, 4.1.2).
pub open spec fn ch(e: u32, f: u32, g: u32) -> u32 {
    (e & f) ^ ((!e) & g)
}

/// Maj (FIPS 180-4, 4.1.2).
pub open spec fn maj(a: u32, b: u32, c: u32) -> u32 {
    (a & b) ^ (a & c) ^ (b & c)
}

/// The `i`-th big-endian 32-bit word of `block`.
pub open spec fn be_word(block: Seq<u8>, i: int) -> u32 {
    ((block[4 * i] as u32) << 24u32) | ((block[4 * i + 1] as u32) << 16u32) | ((block[4 * i
        + 2] as u32) << 8u32) | (block[4 * i + 3] as u32)
}

/// The message schedule word W_t of a 64-byte block (FIPS 180-4, 6.2.2 step 1).
pub open spec fn schedule(block: Seq<u8>, t: nat) -> u32
    decreases t,
{
    if t < 16 {
        be_word(block, t as int)
    } else {
        add32(
            add32(
                add32(
                    small_sigma1(schedule(block, (t - 2) as nat)),
                    schedule(block, (t - 7) as nat),
                ),
                small_sigma0(schedule(block, (t - 15) as nat)),
            ),
            schedule(block, (t - 16) as nat),
        )
    }
}

/// One compression round on the working variables `(a, b, c, d, e, f, g, h)`
/// (FIPS 180-4, 6.2.2 step 3).
pub open spec fn round(v: Seq<u32>, k: u32, w: u32) -> Seq<u32> {
    let t1 = add32(
        add32(add32(add32(v[7], big_sigma1(v[4])), ch(v[4], v[5], v[6])), k),
        w,
    );
    let t2 = add32(big_sigma0(v[0]), maj(v[0], v[1], v[2]));
    seq![add32(t1, t2), v[0], v[1], v[2], add32(v[3], t1), v[4], v[5], v[6]]
}

/// The working variables after the first `n` rounds over `block`, starting from `state`.
pub open spec fn rounds(state: Seq<u32>, block: Seq<u8>, n: nat) -> Seq<u32>
    decreases n,
{
    if n == 0 {
        state
    } else {
        round(rounds(state, block, (n - 1) as nat), K@[n - 1], schedule(block, (n - 1) as nat))
    }
}

/// The SHA-256 compression function: the new hash state after processing one 64-byte
/// block from `state` (FIPS 180-4, 6.2.2 step 4).
pub open spec fn compress_spec(state: Seq<u32>, block: Seq<u8>) -> Seq<u32> {
    let v = rounds(state, block, 64);
    Seq::new(8, |i: int| add32(state[i], v[i]))
}

/// `n` zero bytes.
pub open spec fn zero_bytes(n: nat) -> Seq<u8> {
    Seq::new(n, |i: int| 0u8)
}

/// The 8-byte big-endian encoding of `n`, modulo 2^64.
pub open spec fn be64_spec(n: nat) -> Seq<u8> {
    seq![
        ((n / 0x100_0000_0000_0000) % 256) as u8,
        ((n / 0x1_0000_0000_0000) % 256) as u8,
        ((n / 0x100_0000_0000) % 256) as u8,
        ((n / 0x1_0000_0000) % 256) as u8,
        ((n / 0x100_0000) % 256) as u8,
        ((n / 0x1_0000) % 256) as u8,
        ((n / 0x100) % 256) as u8,
        (n % 256) as u8,
    ]
}

/// The number of zero bytes that pad a message of `len` bytes, after its `0x80` byte, up to
/// 8 bytes short of a multiple of 64 (FIPS 180-4, 5.1.1).
pub open spec fn pad_zero_count(len: nat) -> nat {
    ((119 - (len % 64)) % 64) as nat
}

/// The padded message: the message, a `0x80` byte, zero bytes, and the message length in
/// bits as a 64-bit big-endian number (FIPS 180-4, 5.1.1).
pub open spec fn sha256_padded(msg: Seq<u8>) -> Seq<u8> {
    msg + seq![0x80u8] + zero_bytes(pad_zero_count(msg.len())) + be64_spec(8 * msg.len())
}

/// The hash state after compressing the first `n` 64-byte blocks of `data` from `state`.
pub open spec fn compress_blocks(state: Seq<u32>, data: Seq<u8>, n: nat) -> Seq<u32>
    decreases n,
{
    if n == 0 {
        state
    } else {
        compress_spec(
            compress_blocks(state, data, (n - 1) as nat),
            data.subrange(64 * (n - 1), 64 * n as int),
        )
    }
}

/// The 32-byte digest of a final hash state: its eight words, big-endian.
pub open spec fn digest_bytes(s: Seq<u32>) -> Seq<u8> {
    Seq::new(32, |i: int| (s[i / 4] >> ((24 - 8 * (i % 4)) as u32)) as u8)
}

/// SHA-256 (FIPS 180-4): the padded message compressed block by block from the initial
/// hash value, the final state written out big-endian.
#[verifier::opaque]
pub open spec fn sha256_spec(msg: Seq<u8>) -> Seq<u8> {
    let p = sha256_padded(msg);
    digest_bytes(compress_blocks(IV@, p, p.len() / 64))
}

/// The padding that follows the last 16 bytes of an 80-byte header in its second block:
/// `0x80`, 39 zero bytes and the length, 640 bits.
pub open spec fn header_tail_padding() -> Seq<u8> {
    seq![0x80u8] + zero_bytes(39) + seq![0u8, 0u8, 0u8, 0u8, 0u8, 0u8, 0x02u8, 0x80u8]
}

/// The padding that follows a 32-byte digest in its one block: `0x80`, 23 zero bytes and
/// the length, 256 bits.
pub open spec fn digest_padding() -> Seq<u8> {
    seq![0x80u8] + zero_bytes(23) + seq![0u8, 0u8, 0u8, 0u8, 0u8, 0u8, 0x01u8, 0x00u8]
}

/// A message of at most 55 bytes pads to one block: its SHA-256 is that block compressed
/// once from the initial hash value.
pub proof fn lemma_sha256_one_block(msg: Seq<u8>)
    requires
        msg.len() <= 55,
    ensures
        sha256_padded(msg).len() == 64,
        sha256_spec(msg) == digest_bytes(compress_spec(IV@, sha256_padded(msg))),
{
    reveal(sha256_spec);
    let p = sha256_padded(msg);
    assert(pad_zero_count(msg.len()) == 55 - msg.len());
    assert(p.len() == 64);
    assert(p.subrange(0, 64) =~= p);
    reveal_with_fuel(compress_blocks, 2);
}

/// A message of 64 to 119 bytes pads to two blocks: its SHA-256 is the second padded block
/// compressed from the state after its first 64 bytes.
pub proof fn lemma_sha256_two_blocks(msg: Seq<u8>)
    requires
        64 <= msg.len() <= 119,
    ensures
        sha256_padded(msg).len() == 128,
        sha256_spec(msg) == digest_bytes(
            compress_spec(compress_spec(IV@, msg.take(64)), sha256_padded(msg).skip(64)),
        ),
{
    reveal(sha256_spec);
    let p = sha256_padded(msg);
    assert(pad_zero_count(msg.len()) == 119 - msg.len());
    assert(p.len() == 128);
    assert(p.subrange(0, 64) =~= msg.take(64));
    assert(p.subrange(64, 128) =~= p.skip(64));
    reveal_with_fuel(compress_blocks, 3);
}

/// The SHA-256 of an 80-byte header resumes from the midstate of its first 64 bytes: one
/// more compression, of its last 16 bytes followed by the fixed padding, gives the digest.
pub proof fn lemma_header_sha256_from_midstate(header: Seq<u8>)
    requires
        header.len() == 80,
    ensures
        sha256_spec(header) == digest_bytes(
            compress_spec(
                compress_spec(IV@, header.take(64)),
                header.skip(64) + header_tail_padding(),
            ),
        ),
{
    lemma_sha256_two_blocks(header);
    assert(be64_spec(640) =~= seq![0u8, 0u8, 0u8, 0u8, 0u8, 0u8, 0x02u8, 0x80u8]);
    assert(sha256_padded(header).skip(64) =~= header.skip(64) + header_tail_padding());
}

/// The SHA-256 of a 32-byte digest is one compression from the initial hash value of the
/// digest followed by the fixed padding.
pub proof fn lemma_digest_sha256_one_block(d: Seq<u8>)
    requires
        d.len() == 32,
    ensures
        sha256_spec(d) == digest_bytes(compress_spec(IV@, d + digest_padding())),
{
    lemma_sha256_one_block(d);
    assert(be64_spec(256) =~= seq![0u8, 0u8, 0u8, 0u8, 0u8, 0u8, 0x01u8, 0x00u8]);
    assert(sha256_padded(d) =~= d + digest_padding());
}

/// Rotates a word right by `n` bits.
fn rotr(x: u32, n: u32) -> (r: u32)
    requires
        0 < n < 32,
    ensures
        r == rotr_spec(x, n),
{
    (x >> n) | (x << (32 - n))
}

/// The big-endian word made of four bytes.
pub(crate) fn word_from_be(b0: u8, b1: u8, b2: u8, b3: u8) -> (r: u32)
    ensures
        r == ((b0 as u32) << 24u32) | ((b1 as u32) << 16u32) | ((b2 as u32) << 8u32) | (b3 as u32),
{
    ((b0 as u32) << 24u32) | ((b1 as u32) << 16u32) | ((b2 as u32) << 8u32) | (b3 as u32)
}

/// One message schedule step: W_t from W_{t-2}, W_{t-7}, W_{t-15}, W_{t-16}.
fn schedule_step(w2: u32, w7: u32, w15: u32, w16: u32) -> (r: u32)
    ensures
        r == add32(
            add32(add32(small_sigma1(w2), w7), small_sigma0(w15)),
            w16,
        ),
{
    let s0 = rotr(w15, 7) ^ rotr(w15, 18) ^ (w15 >> 3);
    let s1 = rotr(w2, 17) ^ rotr(w2, 19) ^ (w2 >> 10);
    s1.wrapping_add(w7).wrapping_add(s0).wrapping_add(w16)
}

/// One compression round on the working variables.
fn round_step(v: [u32; 8], k: u32, w: u32) -> (r: [u32; 8])
    ensures
        r@ == round(v@, k, w),
{
    let a = v[0];
    let b = v[1];
    let c = v[2];
    let d = v[3];
    let e = v[4];
    let f = v[5];
    let g = v[6];
    let h = v[7];
    let s1 = rotr(e, 6) ^ rotr(e, 11) ^ rotr(e, 25);
    let ch = (e & f) ^ ((!e) & g);
    let t1 = h.wrapping_add(s1).wrapping_add(ch).wrapping_add(k).wrapping_add(w);
    let s0 = rotr(a, 2) ^ rotr(a, 13) ^ rotr(a, 22);
    let maj = (a & b) ^ (a & c) ^ (b & c);
    let t2 = s0.wrapping_add(maj);
    let r = [t1.wrapping_add(t2), a, b, c, d.wrapping_add(t1), e, f, g];
    assert(r@ =~= round(v@, k, w));
    r
}

/// The message schedule of one 64-byte block.
fn message_schedule(block: &[u8; 64]) -> (w: [u32; 64])
    ensures
        forall|j: int| 0 <= j < 64 ==> w@[j] == schedule(block@, j as nat),
{
    let mut w = [0u32; 64];
    for i in 0..16
        invariant
            w@.len() == 64,
            forall|j: int| 0 <= j < i ==> w@[j] == schedule(block@, j as nat),
    {
        w[i] = word_from_be(block[4 * i], block[4 * i + 1], block[4 * i + 2], block[4 * i + 3]);
    }
    for i in 16..64
        invariant
            w@.len() == 64,
            forall|j: int| 0 <= j < i ==> w@[j] == schedule(block@, j as nat),
    {
        let x = schedule_step(w[i - 2], w[i - 7], w[i - 15], w[i - 16]);
        assert(x == schedule(block@, i as nat));
        w[i] = x;
    }
    w
}

/// Processes one 64-byte block into the SHA-256 `state`.
pub fn compress(state: &mut [u32; 8], block: &[u8; 64])
    ensures
        final(state)@ == compress_spec(old(state)@, block@),
{
    let w = message_schedule(block);
    let ghost start = state@;
    let mut v: [u32; 8] = *state;
    assert(v@ =~= rounds(start, block@, 0));
    for i in 0..64
        invariant
            state@ == start,
            forall|j: int| 0 <= j < 64 ==> w@[j] == schedule(block@, j as nat),
            v@ == rounds(start, block@, i as nat),
    {
        v = round_step(v, K[i], w[i]);
    }

    state[0] = state[0].wrapping_add(v[0]);
    state[1] = state[1].wrapping_add(v[1]);
    state[2] = state[2].wrapping_add(v[2]);
    state[3] = state[3].wrapping_add(v[3]);
    state[4] = state[4].wrapping_add(v[4]);
    state[5] = state[5].wrapping_add(v[5]);
    state[6] = state[6].wrapping_add(v[6]);
    state[7] = state[7].wrapping_add(v[7]);
    assert(state@ =~= compress_spec(start, block@));
}

/// SHA-256 state after compressing the first 64 bytes of the header, starting from the IV.
/// These 8 words are uploaded to the GPU; the kernel resumes from here.
pub fn midstate(first64: &[u8; 64]) -> (out: [u32; 8])
    ensures
        out@ == compress_spec(IV@, first64@),
{
    let mut state = IV;
    compress(&mut state, first64);
    state
}

} // verus!
