use vstd::prelude::*;

verus! {

/// The `k`-byte little-endian encoding of `n` (higher bytes of `n` are dropped).
pub open spec fn le_bytes(n: nat, k: nat) -> Seq<u8>
    decreases k,
{
    if k == 0 {
        Seq::empty()
    } else {
        seq![(n % 256) as u8] + le_bytes(n / 256, (k - 1) as nat)
    }
}

/// The number a little-endian byte string stands for.
pub open spec fn le_value(s: Seq<u8>) -> nat
    decreases s.len(),
{
    if s.len() == 0 {
        0
    } else {
        s[0] as nat + 256 * le_value(s.drop_first())
    }
}

/// The number a big-endian byte string stands for.
pub open spec fn be_value(s: Seq<u8>) -> nat
    decreases s.len(),
{
    if s.len() == 0 {
        0
    } else {
        be_value(s.drop_last()) * 256 + s.last() as nat
    }
}

/// The shortest little-endian encoding of `n`: no trailing zero byte, empty for zero.
pub open spec fn minimal_le(n: nat) -> Seq<u8>
    decreases n,
{
    if n == 0 {
        Seq::empty()
    } else {
        seq![(n % 256) as u8] + minimal_le(n / 256)
    }
}

/// `n` zero bytes.
pub open spec fn zeros(n: nat) -> Seq<u8> {
    Seq::new(n, |i: int| 0u8)
}

/// Appends `src` to `buf`.
pub fn append_bytes(buf: &mut Vec<u8>, src: &[u8])
    ensures
        final(buf)@ == old(buf)@ + src@,
{
    let ghost start = buf@;
    for i in 0..src.len()
        invariant
            buf@ == start + src@.take(i as int),
    {
        buf.push(src[i]);
        assert(src@.take(i + 1) =~= src@.take(i as int).push(src[i as int]));
    }
    assert(src@.take(src@.len() as int) =~= src@);
}

/// Appends the `k`-byte little-endian encoding of `n` to `buf`.
pub fn push_le(buf: &mut Vec<u8>, n: u64, k: usize)
    ensures
        final(buf)@ == old(buf)@ + le_bytes(n as nat, k as nat),
{
    let ghost start = buf@;
    let mut v: u64 = n;
    let mut i: usize = 0;
    assert(buf@ + le_bytes(n as nat, k as nat) =~= start + le_bytes(n as nat, k as nat));
    while i < k
        invariant
            i <= k,
            buf@ + le_bytes(v as nat, (k - i) as nat) =~= start + le_bytes(n as nat, k as nat),
        decreases k - i,
    {
        let ghost rest = le_bytes(v as nat, (k - i) as nat);
        assert(rest =~= seq![(v % 256) as u8] + le_bytes((v / 256) as nat, (k - i - 1) as nat));
        buf.push((v % 256) as u8);
        v = v / 256;
        i = i + 1;
    }
    assert(le_bytes(v as nat, 0) =~= Seq::<u8>::empty());
}

/// Appends `n` zero bytes to `buf`.
pub fn push_zeros(buf: &mut Vec<u8>, n: usize)
    ensures
        final(buf)@ == old(buf)@ + zeros(n as nat),
{
    let ghost start = buf@;
    for i in 0..n
        invariant
            buf@ =~= start + zeros(i as nat),
    {
        buf.push(0);
        assert(zeros((i + 1) as nat) =~= zeros(i as nat).push(0u8));
    }
}

/// `le_bytes(n, k)` has `k` bytes.
pub proof fn lemma_le_bytes_len(n: nat, k: nat)
    ensures
        le_bytes(n, k).len() == k,
    decreases k,
{
    if k > 0 {
        lemma_le_bytes_len(n / 256, (k - 1) as nat);
    }
}

/// The shortest little-endian form of `n` stands for `n`.
pub proof fn lemma_minimal_le_value(n: nat)
    ensures
        le_value(minimal_le(n)) == n,
    decreases n,
{
    if n > 0 {
        lemma_minimal_le_value(n / 256);
        let s = minimal_le(n);
        assert(s.drop_first() =~= minimal_le(n / 256));
    }
}

/// The shortest little-endian form of a positive number does not end in a zero byte.
pub proof fn lemma_minimal_le_last(n: nat)
    requires
        n > 0,
    ensures
        minimal_le(n).len() > 0,
        minimal_le(n).last() != 0,
    decreases n,
{
    if n / 256 > 0 {
        lemma_minimal_le_last(n / 256);
        assert(minimal_le(n).last() == minimal_le(n / 256).last());
    } else {
        assert(minimal_le(n / 256) =~= Seq::<u8>::empty());
        assert(minimal_le(n) =~= seq![(n % 256) as u8]);
    }
}

/// A trailing zero byte does not change a little-endian value.
pub proof fn lemma_le_value_push_zero(s: Seq<u8>)
    ensures
        le_value(s.push(0u8)) == le_value(s),
    decreases s.len(),
{
    if s.len() == 0 {
        assert(s.push(0u8).drop_first() =~= Seq::<u8>::empty());
        assert(le_value(Seq::<u8>::empty()) == 0);
        assert(le_value(s) == 0);
    } else {
        lemma_le_value_push_zero(s.drop_first());
        assert(s.push(0u8).drop_first() =~= s.drop_first().push(0u8));
        assert(s.push(0u8)[0] == s[0]);
    }
}

/// 256 to the power `k`.
pub open spec fn pow256(k: nat) -> nat
    decreases k,
{
    if k == 0 {
        1
    } else {
        256 * pow256((k - 1) as nat)
    }
}

/// `le_bytes(n, k)` stands for `n` when `n` fits in `k` bytes.
pub proof fn lemma_le_bytes_value(n: nat, k: nat)
    requires
        n < pow256(k),
    ensures
        le_value(le_bytes(n, k)) == n,
    decreases k,
{
    if k == 0 {
        assert(le_value(le_bytes(n, k)) == 0);
    } else {
        lemma_le_bytes_value(n / 256, (k - 1) as nat);
        let s = le_bytes(n, k);
        assert(s.drop_first() =~= le_bytes(n / 256, (k - 1) as nat));
    }
}

/// A big-endian value is below 256 to the power of its length.
pub proof fn lemma_be_value_bound(s: Seq<u8>)
    ensures
        be_value(s) < pow256(s.len()),
    decreases s.len(),
{
    if s.len() > 0 {
        lemma_be_value_bound(s.drop_last());
        let p = pow256((s.len() - 1) as nat);
        let v = be_value(s.drop_last());
        assert(v * 256 + s.last() < p * 256) by (nonlinear_arith)
            requires
                v < p,
                s.last() < 256,
        ;
    }
}

/// Splitting a big-endian byte string after its first `k` bytes.
pub proof fn lemma_be_value_split(s: Seq<u8>, k: int)
    requires
        0 <= k <= s.len(),
    ensures
        be_value(s) == be_value(s.take(k)) * pow256((s.len() - k) as nat) + be_value(s.skip(k)),
    decreases s.len() - k,
{
    assert(be_value(Seq::<u8>::empty()) == 0);
    assert(pow256(0) == 1);
    if k == s.len() {
        assert(s.take(k) =~= s);
        assert(s.skip(k) =~= Seq::<u8>::empty());
        assert(pow256((s.len() - k) as nat) == 1);
        assert(be_value(s.take(k)) * pow256((s.len() - k) as nat) == be_value(s));
    } else {
        lemma_be_value_split(s, k + 1);
        let a = be_value(s.take(k));
        let p = pow256((s.len() - k - 1) as nat);
        assert(s.take(k + 1).drop_last() =~= s.take(k));
        assert(s.take(k + 1).last() == s[k]);
        assert(be_value(s.take(k + 1)) == a * 256 + s[k]);
        let r = be_value(s.skip(k + 1));
        lemma_be_value_first(s.skip(k));
        assert(s.skip(k).drop_first() =~= s.skip(k + 1));
        assert(s.skip(k)[0] == s[k]);
        assert(be_value(s.skip(k)) == s[k] * p + r);
        assert(pow256((s.len() - k) as nat) == 256 * p);
        assert(be_value(s) == (a * 256 + s[k]) * p + r);
        assert((a * 256 + s[k]) * p + r == a * (256 * p) + (s[k] * p + r)) by (nonlinear_arith);
        assert(be_value(s) == a * pow256((s.len() - k) as nat) + be_value(s.skip(k)));
    }
}

/// A big-endian value read from its first byte.
pub proof fn lemma_be_value_first(s: Seq<u8>)
    requires
        s.len() > 0,
    ensures
        be_value(s) == s[0] * pow256((s.len() - 1) as nat) + be_value(s.drop_first()),
    decreases s.len(),
{
    assert(be_value(Seq::<u8>::empty()) == 0);
    assert(pow256(0) == 1);
    if s.len() == 1 {
        assert(s.drop_last() =~= Seq::<u8>::empty());
        assert(s.drop_first() =~= Seq::<u8>::empty());
        assert(s.last() == s[0]);
        assert(be_value(s) == s[0]);
    } else {
        let dl = s.drop_last();
        let df = s.drop_first();
        lemma_be_value_first(dl);
        assert(dl[0] == s[0]);
        assert(dl.drop_first() =~= df.drop_last());
        assert(df.last() == s.last());
        let p = pow256((s.len() - 2) as nat);
        let m = be_value(df.drop_last());
        assert(be_value(dl) == s[0] * p + m);
        assert(be_value(df) == m * 256 + s.last());
        assert(be_value(s) == be_value(dl) * 256 + s.last());
        assert(pow256((s.len() - 1) as nat) == 256 * p);
        assert((s[0] * p + m) * 256 + s.last() == s[0] * (256 * p) + (m * 256 + s.last())) by (nonlinear_arith);
    }
}

/// Big-endian strings of the same length that agree before index `i` and have a smaller
/// byte at `i` stand for a smaller number.
pub proof fn lemma_be_value_lex_lt(a: Seq<u8>, b: Seq<u8>, i: int)
    requires
        a.len() == b.len(),
        0 <= i < a.len(),
        forall|j: int| 0 <= j < i ==> a[j] == b[j],
        a[i] < b[i],
    ensures
        be_value(a) < be_value(b),
{
    let n = a.len();
    lemma_be_value_split(a, i + 1);
    lemma_be_value_split(b, i + 1);
    assert(a.take(i) =~= b.take(i));
    assert(a.take(i + 1).drop_last() =~= a.take(i));
    assert(b.take(i + 1).drop_last() =~= b.take(i));
    let pa = be_value(a.take(i + 1));
    let pb = be_value(b.take(i + 1));
    assert(pa + 1 <= pb);
    let p = pow256((n - i - 1) as nat);
    let ra = be_value(a.skip(i + 1));
    let rb = be_value(b.skip(i + 1));
    lemma_be_value_bound(a.skip(i + 1));
    assert(pa * p + ra < pb * p + rb) by (nonlinear_arith)
        requires
            pa + 1 <= pb,
            ra < p,
            0 <= rb,
    ;
}

/// A little-endian value is the big-endian value of the reversed bytes.
pub proof fn lemma_le_value_reverse(s: Seq<u8>)
    ensures
        le_value(s) == be_value(s.reverse()),
    decreases s.len(),
{
    if s.len() > 0 {
        lemma_le_value_reverse(s.drop_first());
        let r = s.reverse();
        assert(r.drop_last() =~= s.drop_first().reverse());
        assert(r.last() == s[0]);
    } else {
        assert(s.reverse() =~= Seq::<u8>::empty());
    }
}

} // verus!
