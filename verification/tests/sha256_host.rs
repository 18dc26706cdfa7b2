use btc_lottery_miner::sha256_host::{compress, midstate, IV};
use sha2::{Digest, Sha256};

/// Full SHA-256 built from our block compression + padding, to validate `compress`
/// against the reference `sha2` implementation.
fn sha256_full(msg: &[u8]) -> [u8; 32] {
    let mut state = IV;
    let mut padded = msg.to_vec();
    padded.push(0x80);
    while padded.len() % 64 != 56 {
        padded.push(0);
    }
    let bits = (msg.len() as u64) * 8;
    padded.extend_from_slice(&bits.to_be_bytes());
    for chunk in padded.chunks_exact(64) {
        let mut block = [0u8; 64];
        block.copy_from_slice(chunk);
        compress(&mut state, &block);
    }
    let mut out = [0u8; 32];
    for (i, word) in state.iter().enumerate() {
        out[4 * i..4 * i + 4].copy_from_slice(&word.to_be_bytes());
    }
    out
}

#[test]
fn matches_reference_sha256() {
    for msg in [&b""[..], &b"abc"[..], &b"The quick brown fox jumps over the lazy dog"[..]] {
        let ours = sha256_full(msg);
        let theirs: [u8; 32] = Sha256::digest(msg).into();
        assert_eq!(ours, theirs, "mismatch for {:?}", msg);
    }
}

#[test]
fn midstate_is_first_block_state() {
    // A 64-byte block compressed via `midstate` must equal the state our full
    // implementation reaches after the same first block.
    let block: [u8; 64] = std::array::from_fn(|i| i as u8);
    let mut expected = IV;
    compress(&mut expected, &block);
    assert_eq!(midstate(&block), expected);
}

#[test]
fn sha256_of_abc_through_compress() {
    let ours = sha256_full(b"abc");
    assert_eq!(
        hex::encode(ours),
        "ba7816bf8f01cfea414140de5dae2223b00361a396177a9cb410ff61f20015ad"
    );
}

#[test]
fn midstate_of_long_message_block_matches_two_block_digest() {
    // The midstate of the first block, compressed again with the padded second block,
    // gives the digest of a 64-byte message.
    let block: [u8; 64] = [0x61; 64];
    let mut state = midstate(&block);
    let mut pad = [0u8; 64];
    pad[0] = 0x80;
    pad[62] = 0x02; // 512 bits, big-endian
    compress(&mut state, &pad);
    let mut out = [0u8; 32];
    for (i, word) in state.iter().enumerate() {
        out[4 * i..4 * i + 4].copy_from_slice(&word.to_be_bytes());
    }
    let theirs: [u8; 32] = Sha256::digest(block).into();
    assert_eq!(out, theirs);
}

fn state_bytes(state: &[u32; 8]) -> [u8; 32] {
    let mut out = [0u8; 32];
    for (i, word) in state.iter().enumerate() {
        out[4 * i..4 * i + 4].copy_from_slice(&word.to_be_bytes());
    }
    out
}

#[test]
fn header_double_hash_from_midstate() {
    // The midstate of the first 64 header bytes, one compression of the last 16 bytes with
    // their fixed padding, then one compression of that digest with its padding, give the
    // header's double SHA-256.
    let header: [u8; 80] = std::array::from_fn(|i| (i * 7 + 3) as u8);
    let first: [u8; 64] = std::array::from_fn(|i| header[i]);
    let mut state = midstate(&first);
    let mut second = [0u8; 64];
    second[..16].copy_from_slice(&header[64..80]);
    second[16] = 0x80;
    second[62] = 0x02;
    second[63] = 0x80;
    compress(&mut state, &second);
    let digest = state_bytes(&state);
    let mut block = [0u8; 64];
    block[..32].copy_from_slice(&digest);
    block[32] = 0x80;
    block[62] = 0x01;
    let mut state2 = IV;
    compress(&mut state2, &block);
    assert_eq!(digest, <[u8; 32]>::from(Sha256::digest(header)));
    assert_eq!(state_bytes(&state2), <[u8; 32]>::from(Sha256::digest(Sha256::digest(header))));
}
