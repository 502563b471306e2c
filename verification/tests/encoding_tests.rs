use bech32::ToBase32;
use hushpaperlib::encoding::{double_sha256, to_5bit, ToBase58Check};
use hushpaperlib::params::{params, params_testnet};

#[test]
fn five_bit_regrouping_matches_bech32() {
    let samples: Vec<Vec<u8>> = vec![
        vec![],
        vec![0],
        vec![255],
        vec![1, 2, 3, 4, 5],
        (0..=255).collect(),
        vec![0xAB; 43],
    ];
    for bytes in samples {
        let ours = to_5bit(&bytes);
        let theirs: Vec<u8> = bytes.to_base32().iter().map(|u| u.to_u8()).collect();
        assert_eq!(ours, theirs);
    }
}

#[test]
fn double_sha256_of_empty_input() {
    let d = double_sha256(&[]);
    assert_eq!(
        hex::encode(&d),
        "5df6e0e2761359d30a8275058e299fcc0381534545f55cf43e41983f5d4c9456"
    );
}

#[test]
fn base58check_of_all_zero_hash() {
    let payload = [0u8; 20];
    let addr = payload.as_slice().to_base58check(&[0x00], &[]);
    assert_eq!(addr, "1111111111111111111114oLvT2");
}

#[test]
fn network_parameters_hold_the_published_constants() {
    let m = params();
    assert_eq!(m.taddress_version, [0x1C, 0xB8]);
    assert_eq!(m.tsecret_prefix, [0xBC]);
    assert_eq!(m.zaddress_prefix, "zs");
    assert_eq!(m.zsecret_prefix, "secret-extended-key-main");
    assert_eq!(m.zviewkey_prefix, "zviews");
    assert_eq!(m.cointype, 133);

    let t = params_testnet();
    assert_eq!(t.taddress_version, [0x1D, 0x25]);
    assert_eq!(t.tsecret_prefix, [0xEF]);
    assert_eq!(t.zaddress_prefix, "ztestsapling");
    assert_eq!(t.zsecret_prefix, "secret-extended-key-test");
    assert_eq!(t.zviewkey_prefix, "zviewtestsapling");
    assert_eq!(t.cointype, 1);
}
