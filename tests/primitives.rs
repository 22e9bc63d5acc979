use corgi_nft::{
    account_hash, bytes_equal, generate_rate_sausage, is_valid_account_id, random_num, random_seed_bytes,
    rarity_from_draws, Fruit, Rarity, TOTAL,
};

#[test]
fn account_hash_is_sha256() {
    let h = account_hash(&"robert.testnet".to_string());
    assert_eq!(
        h,
        vec![
            14, 6, 102, 54, 0, 84, 91, 168, 3, 49, 65, 79, 199, 153, 119, 128, 165, 45, 2, 120, 88, 98, 76, 182,
            103, 77, 119, 214, 72, 47, 50, 116
        ]
    );
    assert_ne!(h, account_hash(&"joe.testnet".to_string()));
    assert_eq!(account_hash(&String::new()).len(), 32);
}

#[test]
fn bytes_equal_compares_contents() {
    assert!(bytes_equal(&vec![1, 2, 3], &vec![1, 2, 3]));
    assert!(!bytes_equal(&vec![1, 2, 3], &vec![1, 2]));
    assert!(!bytes_equal(&vec![1, 2, 3], &vec![1, 2, 4]));
    assert!(bytes_equal(&vec![], &vec![]));
}

#[test]
fn account_id_rules() {
    for ok in ["aa", "a-a", "a-aa", "100", "0o", "com", "near", "bowen", "b-o_w_e-n", "b.owen", "bro.wen", "a.ha", "a.b-a.ra", "system", "over.9000", "google.com", "illia.cheapaccounts.near", "10-4.8-2"] {
        assert!(is_valid_account_id(&ok.to_string()), "{}", ok);
    }
    let long_ok = "a".repeat(64);
    assert!(is_valid_account_id(&long_ok));
    for bad in ["a", "A", "Abc", "-near", "near-", "-near-", "near.", ".near", "near@", "@near", "неар", "@@@@@", "0__0", "0_-_0", "0_-_0", "..", "a..near", "nEar", "_bowen", "hello world", "abcdefghijklmnopqrstuvwxyz.abcdefghijklmnopqrstuvwxyz.abcdefghijklmnopqrstuvwxyz", "01234567890123456789012345678901234567890123456789012345678901234567890123456789012345678901234567890123456789", "", "a,"] {
        assert!(!is_valid_account_id(&bad.to_string()), "{}", bad);
    }
}

#[test]
fn seed_layout() {
    let s = random_seed_bytes(&vec![0, 1, 2], 0x0102030405060708);
    let mut expected = vec![0u8; 32];
    expected[1] = 1;
    expected[2] = 2;
    expected[24..32].copy_from_slice(&[8, 7, 6, 5, 4, 3, 2, 1]);
    assert_eq!(s, expected);
    let long: Vec<u8> = (1..=30).collect();
    let s = random_seed_bytes(&long, 0);
    assert_eq!(&s[0..24], &long[0..24]);
    assert_eq!(&s[24..32], &[0u8; 8]);
}

#[test]
fn draws_match_chacha20_stream() {
    assert_eq!(random_num(&vec![0, 1, 2], 0), (97, 30));
    assert_eq!(random_num(&vec![0, 1, 2], 1), (31, 3));
    assert_eq!(random_num(&vec![7; 30], 5), (7, 16));
}

#[test]
fn tier_thresholds_and_bonus() {
    assert_eq!(rarity_from_draws(10, 49), (Rarity::Common, 10));
    assert_eq!(rarity_from_draws(10, 31), (Rarity::Common, 10));
    assert_eq!(rarity_from_draws(10, 30), (Rarity::Uncommon, 60));
    assert_eq!(rarity_from_draws(10, 14), (Rarity::Uncommon, 60));
    assert_eq!(rarity_from_draws(10, 13), (Rarity::Rare, 110));
    assert_eq!(rarity_from_draws(10, 4), (Rarity::Rare, 110));
    assert_eq!(rarity_from_draws(10, 3), (Rarity::VeryRare, 160));
    assert_eq!(rarity_from_draws(10, 1), (Rarity::VeryRare, 160));
    assert_eq!(rarity_from_draws(99, 0), (Rarity::UltraRare, 299));
    assert_eq!(Rarity::VeryRare.label(), "VERY RARE");
    assert_eq!(Rarity::UltraRare.label(), "ULTRA RARE");
    assert_eq!(Rarity::Common.bonus(), 0);
}

#[test]
fn generator_is_deterministic() {
    let e = vec![0, 1, 2];
    assert_eq!(generate_rate_sausage(&e, 0), generate_rate_sausage(&e, 0));
    assert_eq!(generate_rate_sausage(&e, 0), (Rarity::Uncommon, 147));
    assert_eq!(generate_rate_sausage(&e, 1), (Rarity::VeryRare, 181));
    let mut longer: Vec<u8> = vec![7; 24];
    longer.extend_from_slice(&[1, 2, 3]);
    assert_eq!(generate_rate_sausage(&longer, 5), generate_rate_sausage(&vec![7; 24], 5));
}

#[test]
fn fruit_counts() {
    let f = Fruit { count: [0; TOTAL] };
    assert_eq!(f.count.len(), 7);
}
