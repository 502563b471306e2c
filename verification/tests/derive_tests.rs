use bech32::ToBase32;
use hushpaperlib::caps::SeedStream;
use hushpaperlib::derive::{get_taddress, get_zaddress, DeriveError};
use hushpaperlib::encoding::ToBase58Check;
use hushpaperlib::params::params;
use rand::RngCore;
use rand::SeedableRng;
use sapling_crypto::zip32::ExtendedSpendingKey;
use zip32::{ChildIndex, DiversifierIndex};

#[test]
#[allow(deprecated)]
fn zaddress_matches_direct_derivation() {
    let seed = [7u8; 32];
    let p = params();
    let (addr, pk, vk, info) = get_zaddress(&seed, 0, &p).unwrap();

    let master = ExtendedSpendingKey::master(&seed).unwrap();
    let path = [
        ChildIndex::hardened(32),
        ChildIndex::hardened(133),
        ChildIndex::hardened(0),
    ];
    let spk = ExtendedSpendingKey::from_path(&master, &path).unwrap();
    let fvk = spk.to_extended_full_viewing_key();
    let (_j, a) = fvk.find_address(DiversifierIndex::new()).unwrap();

    let expect_addr =
        bech32::encode("zs", a.to_bytes().to_base32(), bech32::Variant::Bech32).unwrap();
    assert_eq!(addr, expect_addr);

    let expect_pk = bech32::encode(
        "secret-extended-key-main",
        spk.to_bytes().to_base32(),
        bech32::Variant::Bech32,
    )
    .unwrap();
    assert_eq!(pk, expect_pk);

    let mut fvk_bytes = Vec::new();
    fvk.write(&mut fvk_bytes).unwrap();
    let expect_vk =
        bech32::encode("zviews", fvk_bytes.to_base32(), bech32::Variant::Bech32).unwrap();
    assert_eq!(vk, expect_vk);

    assert_eq!(info.path, "m/32'/133'/0'");
    assert_eq!(info.hd_seed, hex::encode(seed));
}

#[test]
fn zaddress_derivation_is_pure() {
    let seed = [42u8; 32];
    let p = params();
    let a = get_zaddress(&seed, 5, &p).unwrap();
    let b = get_zaddress(&seed, 5, &p).unwrap();
    assert_eq!(a.0, b.0);
    assert_eq!(a.1, b.1);
    assert_eq!(a.2, b.2);
    let c = get_zaddress(&seed, 6, &p).unwrap();
    assert_ne!(a.0, c.0);
}

#[test]
fn zaddress_rejects_unusable_prefix() {
    let seed = [1u8; 32];
    let mut p = params();
    p.zaddress_prefix = String::new();
    let r = get_zaddress(&seed, 0, &p);
    assert!(matches!(r, Err(DeriveError::Encoding)));
}

#[test]
#[allow(deprecated)]
fn taddress_matches_direct_derivation() {
    let stream_seed = [3u8; 32];
    let p = params();
    let mut stream = SeedStream::from_seed(&stream_seed);
    let (addr, wif) = get_taddress(&mut stream, &p).unwrap();

    let mut rng = rand::prng::ChaChaRng::from_seed(stream_seed);
    let sk_bytes = loop {
        let mut b = [0u8; 32];
        rng.fill_bytes(&mut b);
        if libsecp256k1::SecretKey::parse(&b).is_ok() {
            break b;
        }
    };
    let sk = libsecp256k1::SecretKey::parse(&sk_bytes).unwrap();
    let pubkey = libsecp256k1::PublicKey::from_secret_key(&sk);
    let sha = <sha2::Sha256 as sha2::Digest>::digest(&pubkey.serialize_compressed());
    let h160 = <ripemd160::Ripemd160 as ripemd160::Digest>::digest(&sha);
    let expect_addr = h160.as_slice().to_base58check(&[0x1C, 0xB8], &[]);
    assert_eq!(addr, expect_addr);
    let expect_wif = sk_bytes.as_slice().to_base58check(&[0xBC], &[0x01]);
    assert_eq!(wif, expect_wif);
}

#[test]
fn taddress_consumes_stream_in_order() {
    let p = params();
    let mut s1 = SeedStream::from_seed(&[9u8; 32]);
    let first = get_taddress(&mut s1, &p).unwrap();
    let second = get_taddress(&mut s1, &p).unwrap();
    assert_ne!(first.0, second.0);

    let mut s2 = SeedStream::from_seed(&[9u8; 32]);
    let first_again = get_taddress(&mut s2, &p).unwrap();
    assert_eq!(first.0, first_again.0);
    assert_eq!(first.1, first_again.1);
}
