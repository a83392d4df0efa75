use sha2::{Digest, Sha256};
use vanity_id::ident::{generate_key_data, hash_matches_prefix_optimized, hash_to_extension_id};
use vanity_id::search::try_generate_match_optimized;

#[test]
fn generate_is_deterministic() {
    for &i in &[0u64, 1, 2, 255, 256, 0xdead_beef, u64::MAX - 1, u64::MAX] {
        let a = generate_key_data(i);
        let b = generate_key_data(i);
        assert_eq!(a, b);
        assert_eq!(a.len(), 32);
    }
}

#[test]
fn generate_follows_reference_formula() {
    for &i in &[0u64, 1, 0x0123_4567_89ab_cdef, u64::MAX] {
        let a = generate_key_data(i);
        let mut expect = vec![0u8; 32];
        expect[..8].copy_from_slice(&i.to_le_bytes());
        for idx in 8..32 {
            expect[idx] = ((i >> (idx % 8)) ^ idx as u64) as u8;
        }
        assert_eq!(a, expect);
    }
}

#[test]
fn identifier_has_32_alphabet_chars() {
    for seed in 0u8..50 {
        let block: Vec<u8> = (0..32u8).map(|i| i ^ seed).collect();
        let digest: Vec<u8> = Sha256::digest(&block).to_vec();
        let id = hash_to_extension_id(&digest);
        assert_eq!(id.chars().count(), 32);
        assert!(id.chars().all(|c| ('a'..='p').contains(&c)));
    }
}

#[test]
fn identifier_of_known_digest() {
    // SHA-256 of the empty input, a published constant; its first 16
    // bytes rendered through the alphabet, hex digit value v -> 'a' + v.
    let digest: Vec<u8> = Sha256::digest([]).to_vec();
    assert_eq!(
        digest[..4],
        [0xe3, 0xb0, 0xc4, 0x42],
        "sanity check of the published constant"
    );
    let id = hash_to_extension_id(&digest);
    assert_eq!(id, "odlameecjipmbmbejkplpemijjgpljce");
}

#[test]
fn prefix_test_agrees_with_naive_definition() {
    let digest: Vec<u8> = Sha256::digest(b"sample").to_vec();
    let id = hash_to_extension_id(&digest);
    for len in 0..=32usize {
        let p: String = id.chars().take(len).collect();
        assert!(hash_matches_prefix_optimized(&digest, &p));
        assert_eq!(hash_matches_prefix_optimized(&digest, &p), id.starts_with(&p));
        if len > 0 {
            let mut q: Vec<char> = p.chars().collect();
            q[len - 1] = if q[len - 1] == 'a' { 'b' } else { 'a' };
            let q: String = q.into_iter().collect();
            assert_eq!(hash_matches_prefix_optimized(&digest, &q), id.starts_with(&q));
            assert!(!hash_matches_prefix_optimized(&digest, &q));
        }
    }
}

#[test]
fn empty_prefix_matches_every_digest() {
    for seed in 0u64..20 {
        let digest: Vec<u8> = Sha256::digest(generate_key_data(seed)).to_vec();
        assert!(hash_matches_prefix_optimized(&digest, ""));
    }
}

#[test]
fn prefix_longer_than_32_never_matches() {
    let digest: Vec<u8> = Sha256::digest(b"sample").to_vec();
    let id = hash_to_extension_id(&digest);
    // Even a prefix that extends the identifier itself cannot match.
    let long = format!("{}a", id);
    assert!(!hash_matches_prefix_optimized(&digest, &long));
    assert_eq!(hash_matches_prefix_optimized(&digest, &long), id.starts_with(&long));
    let long_plain = "a".repeat(33);
    assert!(!hash_matches_prefix_optimized(&digest, &long_plain));
}

#[test]
fn search_uses_real_sha256() {
    let key = generate_key_data(42);
    let digest: Vec<u8> = Sha256::digest(&key).to_vec();
    let id = hash_to_extension_id(&digest);
    let (found_id, found_key) =
        try_generate_match_optimized(&id, 42).expect("an index matches its own identifier");
    assert_eq!(found_id, id);
    assert_eq!(found_key, key);
    let mut other: Vec<char> = id.chars().collect();
    other[0] = if other[0] == 'a' { 'b' } else { 'a' };
    let other: String = other.into_iter().collect();
    assert!(try_generate_match_optimized(&other, 42).is_none());
}

#[test]
fn non_alphabet_prefix_never_matches() {
    let digest: Vec<u8> = Sha256::digest(b"whatever").to_vec();
    assert!(!hash_matches_prefix_optimized(&digest, "z"));
    assert!(!hash_matches_prefix_optimized(&digest, "A"));
    assert!(!hash_matches_prefix_optimized(&digest, "0"));
}
