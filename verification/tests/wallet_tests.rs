use base58::FromBase58;
use hushpaperlib::params::{params, params_testnet};
use hushpaperlib::records::AddressKind;
use hushpaperlib::wallet::{generate_wallet, mix_entropy};

#[test]
fn hd_reuse_shares_seed_and_orders_paths() {
    let p = params();
    let recs = generate_wallet(false, 3, 0, &[0u8; 32], &p).unwrap();
    assert_eq!(recs.len(), 3);
    let s0 = recs[0].seed_info.as_ref().unwrap().hd_seed.clone();
    for (i, r) in recs.iter().enumerate() {
        assert_eq!(r.num as usize, i);
        assert!(matches!(r.kind, AddressKind::Zaddr));
        let info = r.seed_info.as_ref().unwrap();
        assert_eq!(info.hd_seed, s0);
        assert_eq!(info.path, format!("m/32'/133'/{}'", i));
    }
    assert_ne!(recs[0].address, recs[1].address);
    assert_ne!(recs[1].address, recs[2].address);
    assert_ne!(recs[0].address, recs[2].address);
    assert_ne!(recs[0].private_key, recs[1].private_key);
    assert_ne!(recs[1].private_key, recs[2].private_key);
}

#[test]
fn fresh_seeds_share_path_and_differ() {
    let p = params();
    let recs = generate_wallet(true, 3, 0, &[0u8; 32], &p).unwrap();
    assert_eq!(recs.len(), 3);
    let mut seeds = Vec::new();
    for r in recs.iter() {
        let info = r.seed_info.as_ref().unwrap();
        assert_eq!(info.path, "m/32'/133'/0'");
        seeds.push(info.hd_seed.clone());
    }
    assert_ne!(seeds[0], seeds[1]);
    assert_ne!(seeds[1], seeds[2]);
    assert_ne!(seeds[0], seeds[2]);
    assert_ne!(recs[0].address, recs[1].address);
    assert_ne!(recs[1].address, recs[2].address);
}

#[test]
fn two_runs_with_same_user_entropy_differ() {
    let p = params();
    let a = generate_wallet(false, 1, 0, &[0u8; 32], &p).unwrap();
    let b = generate_wallet(false, 1, 0, &[0u8; 32], &p).unwrap();
    assert_ne!(a[0].address, b[0].address);
    assert_ne!(a[0].private_key, b[0].private_key);
}

#[test]
fn testnet_records_carry_testnet_prefixes() {
    let p = params_testnet();
    let recs = generate_wallet(false, 1, 1, b"entropy", &p).unwrap();
    assert_eq!(recs.len(), 2);
    assert!(matches!(recs[0].kind, AddressKind::Zaddr));
    assert!(recs[0].address.starts_with("ztestsapling1"));
    assert!(recs[0].private_key.starts_with("secret-extended-key-test1"));
    assert!(matches!(recs[1].kind, AddressKind::Taddr));
    assert!(recs[1].address.starts_with("tm"));
    assert_eq!(recs[1].num, 0);
    assert!(recs[1].seed_info.is_none());
}

#[test]
fn mainnet_records_carry_mainnet_prefixes() {
    let p = params();
    let recs = generate_wallet(false, 1, 2, b"entropy", &p).unwrap();
    assert_eq!(recs.len(), 3);
    assert!(recs[0].address.starts_with("zs1"));
    assert!(recs[0].private_key.starts_with("secret-extended-key-main1"));
    assert!(recs[1].address.starts_with("t1"));
    assert!(recs[2].address.starts_with("t1"));
    assert_eq!(recs[1].num, 0);
    assert_eq!(recs[2].num, 1);
    assert_ne!(recs[1].address, recs[2].address);
}

#[test]
fn mix_entropy_is_deterministic_and_triple_hashes() {
    let sys = [5u8; 32];
    let user = b"user entropy";
    let a = mix_entropy(&sys, user);
    let b = mix_entropy(&sys, user);
    assert_eq!(a, b);

    let mut concat = sys.to_vec();
    concat.extend_from_slice(user);
    let h1 = <sha2::Sha256 as sha2::Digest>::digest(&concat);
    let h2 = <sha2::Sha256 as sha2::Digest>::digest(&h1);
    let h3 = <sha2::Sha256 as sha2::Digest>::digest(&h2);
    assert_eq!(a.to_vec(), h3.to_vec());
}

#[test]
fn base58check_roundtrip_on_engine_records() {
    let p = params();
    let recs = generate_wallet(false, 0, 2, b"x", &p).unwrap();
    for r in recs.iter() {
        for text in [&r.address, &r.private_key] {
            let raw = text.from_base58().unwrap();
            assert!(raw.len() > 4);
            let (body, checksum) = raw.split_at(raw.len() - 4);
            let h1 = <sha2::Sha256 as sha2::Digest>::digest(body);
            let h2 = <sha2::Sha256 as sha2::Digest>::digest(&h1);
            assert_eq!(&h2[..4], checksum);
        }
    }
}

#[test]
fn zero_counts_give_empty_record_set() {
    let p = params();
    let recs = generate_wallet(false, 0, 0, &[], &p).unwrap();
    assert_eq!(recs.len(), 0);
}
