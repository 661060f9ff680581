use tezedge_node::hash_encoding::{
    block_hash_from_b58, block_hash_from_bytes, block_hash_to_b58, HashDecodeError,
};

const GENESIS: &str = "BLockGenesisGenesisGenesisGenesisGenesisf79b5d1CoW2";

fn genesis_bytes() -> Vec<u8> {
    let hex = "8fcf233671b6a04fcf679d2a381c2544ea6c1ea29ba6157776ed8424c7ccd00b";
    (0..32).map(|i| u8::from_str_radix(&hex[2 * i..2 * i + 2], 16).unwrap()).collect()
}

#[test]
fn block_hash_of_zero_bytes() {
    assert_eq!(
        block_hash_to_b58(&[0u8; 32]),
        "BKiHLREqU3JkXfzEDYAkmmfX48gBDtYhMrpA98s7Aq4SzbUAB6M"
    );
}

#[test]
fn block_hash_of_counting_bytes() {
    let h: Vec<u8> = (0u8..32).collect();
    assert_eq!(block_hash_to_b58(&h), "BKiHSFY5yPf2ne3BSAWXhFKVfA7GUk484ACE9Rk2PNhS9BEYg2w");
}

#[test]
fn genesis_block_hash_decodes() {
    match block_hash_from_b58(GENESIS) {
        Ok(h) => assert_eq!(h, genesis_bytes()),
        Err(_) => panic!("genesis hash must decode"),
    }
}

#[test]
fn genesis_block_hash_encodes() {
    assert_eq!(block_hash_to_b58(&genesis_bytes()), GENESIS);
}

#[test]
fn block_hash_round_trip() {
    let h: Vec<u8> = (0u8..32).map(|b| b.wrapping_mul(37).wrapping_add(5)).collect();
    let text = block_hash_to_b58(&h);
    assert!(matches!(block_hash_from_b58(&text), Ok(ref back) if *back == h));
}

#[test]
fn block_hash_invalid_character() {
    assert!(matches!(
        block_hash_from_b58("BLock0GenesisGenesis"),
        Err(HashDecodeError::InvalidBase58Check)
    ));
}

#[test]
fn block_hash_bad_checksum() {
    assert!(matches!(
        block_hash_from_b58("BLockGenesisGenesisGenesisGenesisGenesisf79b5d1CoW3"),
        Err(HashDecodeError::InvalidBase58Check)
    ));
}

#[test]
fn block_hash_wrong_prefix() {
    // base58check of the bytes "hello"
    assert!(matches!(block_hash_from_b58("2L5B5yqsVG8Vt"), Err(HashDecodeError::NotABlockHash)));
}

#[test]
fn block_hash_wrong_length() {
    // block-hash prefix followed by 31 zero bytes
    assert!(matches!(
        block_hash_from_b58("3LeSuRybznP9W9qJwx6P9nTrQNDxLEVUitAKqWsmu56K8fV27P"),
        Err(HashDecodeError::NotABlockHash)
    ));
}

#[test]
fn block_hash_from_bytes_strips_prefix() {
    let mut d = vec![1u8, 52u8];
    d.extend(genesis_bytes());
    assert_eq!(block_hash_from_bytes(&d), Some(genesis_bytes()));
}

#[test]
fn block_hash_from_bytes_refuses_other_bytes() {
    let mut wrong_prefix = vec![1u8, 53u8];
    wrong_prefix.extend(genesis_bytes());
    assert_eq!(block_hash_from_bytes(&wrong_prefix), None);
    let mut short = vec![1u8, 52u8];
    short.extend(vec![0u8; 31]);
    assert_eq!(block_hash_from_bytes(&short), None);
    assert_eq!(block_hash_from_bytes(&[]), None);
}
