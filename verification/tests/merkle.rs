use btc_lottery_miner::merkle::{merkle_root, reverse, sha256d, sha256d_pair};

fn h32(s: &str) -> [u8; 32] {
    let v = hex::decode(s).unwrap();
    let mut out = [0u8; 32];
    out.copy_from_slice(&v);
    out
}

#[test]
fn sha256d_known_values() {
    assert_eq!(
        hex::encode(sha256d(b"")),
        "5df6e0e2761359d30a8275058e299fcc0381534545f55cf43e41983f5d4c9456"
    );
    assert_eq!(
        hex::encode(sha256d(b"hello")),
        "9595c9df90075148eb06860365df33584b75bff782a510c6cd4883a419833d50"
    );
}

#[test]
fn sha256d_pair_hashes_concatenation() {
    let a = [0x11u8; 32];
    let b = [0x22u8; 32];
    let mut buf = [0u8; 64];
    buf[..32].copy_from_slice(&a);
    buf[32..].copy_from_slice(&b);
    assert_eq!(sha256d_pair(&a, &b), sha256d(&buf));
    assert_ne!(sha256d_pair(&a, &b), sha256d_pair(&b, &a));
}

#[test]
fn merkle_root_of_single_leaf_is_leaf() {
    let leaf = h32("3ba3edfd7a7b12b27ac72c3e67768f617fc81bc3888a51323a9fb8aa4b1e5e4a");
    assert_eq!(merkle_root(&[leaf]), leaf);
}

#[test]
fn merkle_root_of_two_leaves() {
    let a = [1u8; 32];
    let b = [2u8; 32];
    assert_eq!(merkle_root(&[a, b]), sha256d_pair(&a, &b));
}

#[test]
fn merkle_root_duplicates_odd_leaf() {
    let a = [1u8; 32];
    let b = [2u8; 32];
    let c = [3u8; 32];
    let expected = sha256d_pair(&sha256d_pair(&a, &b), &sha256d_pair(&c, &c));
    assert_eq!(merkle_root(&[a, b, c]), expected);
    assert_eq!(merkle_root(&[a, b, c]), merkle_root(&[a, b, c, c]));
}

#[test]
fn merkle_root_of_five_leaves() {
    let l: Vec<[u8; 32]> = (1u8..=5).map(|i| [i; 32]).collect();
    let n01 = sha256d_pair(&l[0], &l[1]);
    let n23 = sha256d_pair(&l[2], &l[3]);
    let n44 = sha256d_pair(&l[4], &l[4]);
    let m0 = sha256d_pair(&n01, &n23);
    let m1 = sha256d_pair(&n44, &n44);
    assert_eq!(merkle_root(&l), sha256d_pair(&m0, &m1));
}

#[test]
fn reverse_flips_byte_order_and_is_involutive() {
    let h: [u8; 32] = std::array::from_fn(|i| i as u8);
    let r = reverse(&h);
    assert_eq!(r[0], 31);
    assert_eq!(r[31], 0);
    assert_eq!(reverse(&r), h);
}
