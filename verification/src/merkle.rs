use crate::sha256_host::sha256_spec;
use sha2::{Digest, Sha256};
use vstd::prelude::*;

verus! {

/// Double SHA-256, the hash Bitcoin uses for transaction ids, merkle nodes and headers.
pub open spec fn sha256d_spec(data: Seq<u8>) -> Seq<u8> {
    sha256_spec(sha256_spec(data))
}

/// `sha2::Sha256::digest`: the 32-byte SHA-256 digest of `data` (FIPS 180-4), as
/// `sha256_spec` writes it out. The crate forms the message length in bits as a `u64`
/// product; for messages of 2^61 bytes or more (no real address space holds one) that
/// product wraps in release builds, as the length field of `sha256_spec` does, and trips the
/// overflow check in debug builds.
#[verifier::external_body]
fn sha256_digest(data: &[u8]) -> (out: [u8; 32])
    ensures
        out@ == sha256_spec(data@),
{
    Sha256::digest(data).into()
}

/// SHA-256 applied twice.
pub fn sha256d(data: &[u8]) -> (out: [u8; 32])
    ensures
        out@ == sha256d_spec(data@),
{
    let first = sha256_digest(data);
    sha256_digest(first.as_slice())
}

/// The parent of two merkle nodes: the double SHA-256 of their concatenation.
pub open spec fn hash_pair_spec(a: Seq<u8>, b: Seq<u8>) -> Seq<u8> {
    sha256d_spec(a + b)
}

/// Double SHA-256 of the 64-byte concatenation `a ‖ b`.
pub fn sha256d_pair(a: &[u8; 32], b: &[u8; 32]) -> (out: [u8; 32])
    ensures
        out@ == hash_pair_spec(a@, b@),
{
    let mut buf = [0u8; 64];
    for i in 0..32
        invariant
            buf@.len() == 64,
            forall|j: int| 0 <= j < i ==> buf@[j] == a@[j],
    {
        buf[i] = a[i];
    }
    for i in 0..32
        invariant
            buf@.len() == 64,
            forall|j: int| 0 <= j < 32 ==> buf@[j] == a@[j],
            forall|j: int| 0 <= j < i ==> buf@[32 + j] == b@[j],
    {
        buf[32 + i] = b[i];
    }
    assert(buf@ =~= a@ + b@);
    sha256d(buf.as_slice())
}

/// Reverse byte order — converts display-order hashes (as RPC returns them)
/// to internal-order (as the protocol hashes them), and vice versa.
pub fn reverse(h: &[u8; 32]) -> (out: [u8; 32])
    ensures
        out@ == h@.reverse(),
{
    let mut out = [0u8; 32];
    for i in 0..32
        invariant
            out@.len() == 32,
            forall|j: int| 0 <= j < i ==> out@[j] == h@[31 - j],
    {
        out[i] = h[31 - i];
    }
    assert(out@ =~= h@.reverse());
    out
}

/// A level with an odd number of nodes gets its last node duplicated.
pub open spec fn pad_level(level: Seq<Seq<u8>>) -> Seq<Seq<u8>> {
    if level.len() % 2 == 1 {
        level.push(level.last())
    } else {
        level
    }
}

/// Hashes the nodes of an even-length level pairwise.
pub open spec fn pair_level(level: Seq<Seq<u8>>) -> Seq<Seq<u8>> {
    Seq::new(level.len() / 2, |i: int| hash_pair_spec(level[2 * i], level[2 * i + 1]))
}

/// The level above `level` in the merkle tree.
pub open spec fn next_level(level: Seq<Seq<u8>>) -> Seq<Seq<u8>> {
    pair_level(pad_level(level))
}

/// The merkle root of a non-empty list of nodes: hash levels pairwise, duplicating the
/// last node of every odd level, until one node is left.
pub open spec fn merkle_root_spec(level: Seq<Seq<u8>>) -> Seq<u8>
    decreases level.len(),
{
    if level.len() <= 1 {
        level[0]
    } else {
        merkle_root_spec(next_level(level))
    }
}

/// The byte sequences of a list of 32-byte hashes.
pub open spec fn hash_views(hashes: Seq<[u8; 32]>) -> Seq<Seq<u8>> {
    hashes.map_values(|h: [u8; 32]| h@)
}

/// Compute a Bitcoin merkle root from leaves already in **internal byte order**
/// (i.e. NOT reversed display order). Odd leaves at any level are duplicated.
pub fn merkle_root(leaves: &[[u8; 32]]) -> (root: [u8; 32])
    requires
        leaves@.len() >= 1,
    ensures
        root@ == merkle_root_spec(hash_views(leaves@)),
{
    let mut level: Vec<[u8; 32]> = Vec::new();
    for i in 0..leaves.len()
        invariant
            level@ =~= leaves@.take(i as int),
    {
        level.push(leaves[i]);
    }
    assert(level@ =~= leaves@);
    while level.len() > 1
        invariant
            level.len() >= 1,
            merkle_root_spec(hash_views(level@)) == merkle_root_spec(hash_views(leaves@)),
        decreases level.len(),
    {
        let ghost before = hash_views(level@);
        if level.len() % 2 == 1 {
            let last = level[level.len() - 1];
            level.push(last);
        }
        assert(hash_views(level@) =~= pad_level(before));
        let half = level.len() / 2;
        let mut next: Vec<[u8; 32]> = Vec::new();
        for i in 0..half
            invariant
                half == level.len() / 2,
                hash_views(level@) == pad_level(before),
                next.len() == i,
                forall|j: int| 0 <= j < i ==> #[trigger] next@[j]@ == hash_pair_spec(level@[2 * j]@, level@[2 * j + 1]@),
        {
            let h = sha256d_pair(&level[2 * i], &level[2 * i + 1]);
            next.push(h);
        }
        assert(hash_views(next@) =~= next_level(before));
        level = next;
    }
    level[0]
}

/// The merkle root of a single leaf is the leaf itself (a block holding only its
/// coinbase has the coinbase txid as merkle root).
pub proof fn lemma_merkle_root_single_leaf(leaf: [u8; 32])
    ensures
        merkle_root_spec(hash_views(seq![leaf])) == leaf@,
{
    assert(hash_views(seq![leaf])[0] == leaf@);
}

/// The merkle root of two leaves is the hash of their concatenation.
pub proof fn lemma_merkle_root_two_leaves(a: [u8; 32], b: [u8; 32])
    ensures
        merkle_root_spec(hash_views(seq![a, b])) == hash_pair_spec(a@, b@),
{
    let l = hash_views(seq![a, b]);
    let up = next_level(l);
    assert(pad_level(l) == l);
    assert(up.len() == 1);
    assert(up[0] == hash_pair_spec(a@, b@));
    assert(merkle_root_spec(up) == up[0]);
}

/// Odd leaves are duplicated, so appending a copy of the last leaf to an odd list of
/// at least three leaves leaves the merkle root unchanged.
pub proof fn lemma_merkle_root_odd_duplication(leaves: Seq<[u8; 32]>)
    requires
        leaves.len() >= 3,
        leaves.len() % 2 == 1,
    ensures
        merkle_root_spec(hash_views(leaves.push(leaves.last()))) == merkle_root_spec(hash_views(leaves)),
{
    let l = hash_views(leaves);
    let d = hash_views(leaves.push(leaves.last()));
    assert(d =~= l.push(l.last()));
    assert(pad_level(l) == d);
    assert(pad_level(d) == d);
    assert(next_level(l) == next_level(d));
}

/// Every level of the tree is built the same way, whatever its length: node `i` of the next
/// level is the double SHA-256 of the left child `2i` followed by the right child `2i + 1`,
/// the last node standing in as its own right partner on an odd level. So the root of a
/// level of two or more nodes is the root of that next level.
pub proof fn lemma_merkle_root_hashes_left_then_right(level: Seq<Seq<u8>>)
    requires
        level.len() >= 2,
    ensures
        merkle_root_spec(level) == merkle_root_spec(
            Seq::new(
                ((level.len() + 1) / 2) as nat,
                |i: int|
                    sha256d_spec(
                        level[2 * i] + (if 2 * i + 1 < level.len() {
                            level[2 * i + 1]
                        } else {
                            level[2 * i]
                        }),
                    ),
            ),
        ),
{
    let up = Seq::new(
        ((level.len() + 1) / 2) as nat,
        |i: int|
            sha256d_spec(
                level[2 * i] + (if 2 * i + 1 < level.len() {
                    level[2 * i + 1]
                } else {
                    level[2 * i]
                }),
            ),
    );
    let p = pad_level(level);
    assert(p.len() == 2 * ((level.len() + 1) / 2));
    assert forall|i: int| 0 <= i < up.len() implies #[trigger] next_level(level)[i] == up[i] by {
        assert(p[2 * i] == level[2 * i]);
        if 2 * i + 1 < level.len() {
            assert(p[2 * i + 1] == level[2 * i + 1]);
        } else {
            assert(p[2 * i + 1] == level[2 * i]);
        }
    }
    assert(next_level(level) =~= up);
}

/// Reversing byte order twice gives back the same hash, so `reverse` converts
/// display order to internal order and back.
pub proof fn lemma_reverse_involution(h: [u8; 32])
    ensures
        h@.reverse().reverse() == h@,
{
    assert(h@.reverse().reverse() =~= h@);
}

} // verus!
