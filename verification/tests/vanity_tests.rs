use bech32::FromBase32;
use bech32::ToBase32;
use hushpaperlib::params::params;
use hushpaperlib::records::AddressKind;
use hushpaperlib::vanity::{
    assemble_vanity, eta_seconds, get_bech32_for_prefix, increment, pretty_duration,
    VanityError, VanityOutcome, VanityWorker,
};
use sapling_crypto::zip32::ExtendedSpendingKey;
use zip32::DiversifierIndex;

#[test]
fn increment_steps_the_low_byte() {
    let mut s = [0u8; 32];
    assert!(increment(&mut s).is_ok());
    assert_eq!(s[0], 1);
    assert!(s[1..].iter().all(|b| *b == 0));
}

#[test]
fn increment_carries_through_max_bytes() {
    let mut s = [0u8; 32];
    s[0] = 255;
    s[1] = 255;
    s[2] = 7;
    assert!(increment(&mut s).is_ok());
    assert_eq!(s[0], 0);
    assert_eq!(s[1], 0);
    assert_eq!(s[2], 8);
}

#[test]
fn increment_reports_wraparound() {
    let mut s = [255u8; 32];
    assert!(increment(&mut s).is_err());
    assert!(s.iter().all(|b| *b == 0));
}

#[test]
fn prefix_values_match_the_bech32_alphabet() {
    let v = get_bech32_for_prefix("qpzry9x8gf2tvdw0s3jn54khce6mua7l").unwrap();
    let expect: Vec<u8> = (0..32).collect();
    assert_eq!(v, expect);
    let upper = get_bech32_for_prefix("QPZ").unwrap();
    assert_eq!(upper, vec![0, 1, 2]);
    let empty = get_bech32_for_prefix("").unwrap();
    assert!(empty.is_empty());
}

#[test]
fn prefix_rejects_forbidden_characters() {
    for bad in ['b', 'i', 'o', '1'] {
        let text = format!("aa{}", bad);
        let e = get_bech32_for_prefix(&text).unwrap_err();
        assert_eq!(e.bad_char, bad);
    }
    let e = get_bech32_for_prefix("zqé").unwrap_err();
    assert_eq!(e.bad_char, 'é');
}

#[test]
fn worker_rejects_invalid_prefix_before_any_search() {
    let r = VanityWorker::new(&[1u8; 32], "bio1", params());
    match r {
        Err(VanityError::Prefix(e)) => assert_eq!(e.bad_char, 'b'),
        _ => panic!("expected a prefix validation error"),
    }
}

#[test]
fn empty_prefix_matches_immediately() {
    let mut w = VanityWorker::new(&[2u8; 32], "", params()).unwrap();
    match w.run_batch(5000) {
        VanityOutcome::Found(rec) => {
            assert!(rec.address.starts_with("zs1"));
        },
        _ => panic!("empty prefix should match on the first candidate"),
    }
}

#[test]
#[allow(deprecated)]
fn vanity_address_carries_the_prefix() {
    let mut w = VanityWorker::new(&[11u8; 32], "q", params()).unwrap();
    let mut found = None;
    for _ in 0..200 {
        match w.run_batch(1000) {
            VanityOutcome::Found(rec) => {
                found = Some(rec);
                break;
            },
            VanityOutcome::Progress => {},
            _ => panic!("search failed unexpectedly"),
        }
    }
    let rec = found.expect("a one-character prefix should be found quickly");
    assert!(rec.address.starts_with("zs1q"));
    assert_eq!(rec.num, 0);
    assert!(matches!(rec.kind, AddressKind::Zaddr));
    assert!(rec.seed_info.is_none());
    assert!(rec.private_key.starts_with("secret-extended-key-main1"));

    // The published private key is a real spending key whose own default
    // address is the published address.
    let (hrp, data, _variant) = bech32::decode(&rec.private_key).unwrap();
    assert_eq!(hrp, "secret-extended-key-main");
    let key_bytes = Vec::<u8>::from_base32(&data).unwrap();
    let spk = ExtendedSpendingKey::from_bytes(&key_bytes).unwrap();
    let fvk = spk.to_extended_full_viewing_key();
    let (_j, a) = fvk.find_address(DiversifierIndex::new()).unwrap();
    let readdr = bech32::encode("zs", a.to_bytes().to_base32(), bech32::Variant::Bech32).unwrap();
    assert_eq!(rec.address, readdr);

    let wrapped = assemble_vanity(rec);
    assert_eq!(wrapped.len(), 1);
}

#[test]
fn eta_follows_the_integer_formula() {
    assert_eq!(eta_seconds(1, 0, 0), u64::MAX);
    assert_eq!(eta_seconds(1, 5000, 0), 0);
    assert_eq!(eta_seconds(4, 1000, 999), 1048576);
    assert_eq!(eta_seconds(40, 1, 0), u64::MAX);
}

#[test]
fn pretty_duration_scales_units() {
    let (v, u) = pretty_duration(45);
    assert_eq!((v.as_str(), u.as_str()), ("45", "sec"));
    let (v, u) = pretty_duration(61);
    assert_eq!((v.as_str(), u.as_str()), ("1", "min"));
    let (v, u) = pretty_duration(7200);
    assert_eq!((v.as_str(), u.as_str()), ("2", "hours"));
    let (v, u) = pretty_duration(3600 * 24 * 10);
    assert_eq!((v.as_str(), u.as_str()), ("10", "days"));
    let (v, u) = pretty_duration(3600 * 24 * 90);
    assert_eq!((v.as_str(), u.as_str()), ("3", "months"));
    let (v, u) = pretty_duration(3600 * 24 * 30 * 13);
    assert_eq!((v.as_str(), u.as_str()), ("1", "years"));
}
