use pebble_chain::chain::{create_hash_chain, create_hash_chain_nopebble};
use pebble_chain::hashing::Sha256Digest;
use pebble_chain::powers::{create_powers, log_2, num_bits};
use sha2::{Digest, Sha256};

#[test]
fn test_chain_init() {
    let len = 128;
    let mut hasher = Sha256Digest::new();
    let pebbles = create_hash_chain(len, 0, &mut hasher).unwrap();
    println!("Here are the pebbles: {:?}", pebbles);
    assert_eq!(pebbles.len(), log_2(len as u64) as usize);
}

#[test]
fn test_create_powers_small() {
    let powers = create_powers(3);
    assert_eq!(powers, vec![2, 4, 8]);
}

#[test]
fn test_create_chain_small() {
    let len = 128;
    let mut hasher = Sha256Digest::new();
    let chain = create_hash_chain_nopebble(len, 0, &mut hasher);
    assert_eq!(len, chain.len());
}

#[test]
fn test_scenario_len_128_seed_0() {
    let mut hasher = Sha256Digest::new();
    let pebbles = create_hash_chain(128, 0, &mut hasher).unwrap();
    assert_eq!(pebbles.len(), 7);
    let expected_positions: Vec<u64> = vec![2, 4, 8, 16, 32, 64, 128];
    for (pebble, expected) in pebbles.iter().zip(expected_positions.iter()) {
        assert_eq!(pebble.position, *expected);
        assert_eq!(pebble.destination, *expected);
        assert_eq!(pebble.start_incr, 3 * *expected);
        assert_eq!(pebble.dest_incr, 2 * *expected);
        assert_eq!(pebble.value.len(), 32);
    }
    let chain = create_hash_chain_nopebble(128, 0, &mut hasher);
    assert_eq!(chain.len(), 128);
    assert_eq!(chain[127], pebbles[6].value);
}

#[test]
fn test_pebble_values_match_full_chain() {
    let mut hasher = Sha256Digest::new();
    let pebbles = create_hash_chain(64, 99, &mut hasher).unwrap();
    let chain = create_hash_chain_nopebble(64, 99, &mut hasher);
    assert_eq!(pebbles.len(), 6);
    for pebble in &pebbles {
        assert_eq!(pebble.value, chain[(pebble.position - 1) as usize]);
    }
}

#[test]
fn test_determinism() {
    let mut first = Sha256Digest::new();
    let mut second = Sha256Digest::new();
    let a = create_hash_chain(32, 1234, &mut first).unwrap();
    let b = create_hash_chain(32, 1234, &mut second).unwrap();
    assert_eq!(a.len(), b.len());
    for (x, y) in a.iter().zip(b.iter()) {
        assert_eq!(x.position, y.position);
        assert_eq!(x.destination, y.destination);
        assert_eq!(x.start_incr, y.start_incr);
        assert_eq!(x.dest_incr, y.dest_incr);
        assert_eq!(x.value, y.value);
    }
}

#[test]
fn test_seed_sensitivity() {
    let mut hasher = Sha256Digest::new();
    let a = create_hash_chain(16, 0, &mut hasher).unwrap();
    let b = create_hash_chain(16, 1, &mut hasher).unwrap();
    assert_eq!(a.len(), b.len());
    for (x, y) in a.iter().zip(b.iter()) {
        assert_ne!(x.value, y.value);
    }
}

#[test]
fn test_length_one_yields_no_pebbles() {
    let mut hasher = Sha256Digest::new();
    let pebbles = create_hash_chain(1, 42, &mut hasher).unwrap();
    assert_eq!(pebbles.len(), 0);
}

#[test]
fn test_invalid_lengths_rejected() {
    let mut hasher = Sha256Digest::new();
    for len in [0usize, 3, 5, 6, 7, 9, 100, 127, 129] {
        let err = create_hash_chain(len, 0, &mut hasher).unwrap_err();
        assert_eq!(err.message(), "length not a power of two");
    }
}

#[test]
fn test_chain_elements_recompute_with_sha2() {
    let mut hasher = Sha256Digest::new();
    let chain = create_hash_chain_nopebble(4, 0, &mut hasher);
    assert_eq!(chain.len(), 4);
    let first: Vec<u8> = Sha256::digest(0u64.to_le_bytes()).to_vec();
    assert_eq!(chain[0], first);
    let second: Vec<u8> = Sha256::digest(&first).to_vec();
    assert_eq!(chain[1], second);
    let third: Vec<u8> = Sha256::digest(&second).to_vec();
    assert_eq!(chain[2], third);
}

#[test]
fn test_nopebble_zero_length() {
    let mut hasher = Sha256Digest::new();
    let chain = create_hash_chain_nopebble(0, 5, &mut hasher);
    assert_eq!(chain.len(), 1);
    assert_eq!(chain[0], Sha256::digest(5u64.to_le_bytes()).to_vec());
}

#[test]
fn test_value_hex_rendering() {
    let mut hasher = Sha256Digest::new();
    let pebbles = create_hash_chain(2, 0, &mut hasher).unwrap();
    assert_eq!(pebbles.len(), 1);
    let rendered = pebbles[0].value_hex();
    let mut expected = String::new();
    for byte in &pebbles[0].value {
        expected.push_str(&format!("{:02x}", byte));
    }
    assert_eq!(rendered, expected);
    assert_eq!(rendered, hex::encode(&pebbles[0].value));
    assert_eq!(rendered.len(), 64);
}

#[test]
fn test_log_2_values() {
    assert_eq!(log_2(1), 0);
    assert_eq!(log_2(2), 1);
    assert_eq!(log_2(3), 1);
    assert_eq!(log_2(4), 2);
    assert_eq!(log_2(128), 7);
    assert_eq!(log_2(u64::MAX), 63);
    assert_eq!(num_bits(), 64);
}

#[test]
fn test_create_powers_empty_and_large() {
    assert_eq!(create_powers(0), Vec::<u64>::new());
    let powers = create_powers(10);
    assert_eq!(powers.len(), 10);
    for (index, power) in powers.iter().enumerate() {
        assert_eq!(*power, 1u64 << (index + 1));
    }
}
