//! Network parameter sets: the version bytes and human-readable prefixes used
//! when encoding transparent and shielded addresses and keys.

use vstd::prelude::*;

verus! {

/// Parameters used to generate addresses and private keys for one network.
/// These differ between the main network and the test network.
pub struct CoinParams {
    pub taddress_version: [u8; 2],
    pub tsecret_prefix: [u8; 1],
    pub zaddress_prefix: String,
    pub zsecret_prefix: String,
    pub zviewkey_prefix: String,
    pub cointype: u32,
}

/// The parameter set of the main network.
pub fn params() -> (r: CoinParams)
    ensures
        r.taddress_version@ == seq![0x1Cu8, 0xB8u8],
        r.tsecret_prefix@ == seq![0xBCu8],
        r.zaddress_prefix@ == "zs"@,
        r.zsecret_prefix@ == "secret-extended-key-main"@,
        r.zviewkey_prefix@ == "zviews"@,
        r.cointype == 133,
{
    let r = CoinParams {
        taddress_version: [0x1C, 0xB8],
        tsecret_prefix: [0xBC],
        zaddress_prefix: "zs".to_owned(),
        zsecret_prefix: "secret-extended-key-main".to_owned(),
        zviewkey_prefix: "zviews".to_owned(),
        cointype: 133,
    };
    proof {
        assert(r.taddress_version@ =~= seq![0x1Cu8, 0xB8u8]);
        assert(r.tsecret_prefix@ =~= seq![0xBCu8]);
    }
    r
}

/// The parameter set of the test network.
pub fn params_testnet() -> (r: CoinParams)
    ensures
        r.taddress_version@ == seq![0x1Du8, 0x25u8],
        r.tsecret_prefix@ == seq![0xEFu8],
        r.zaddress_prefix@ == "ztestsapling"@,
        r.zsecret_prefix@ == "secret-extended-key-test"@,
        r.zviewkey_prefix@ == "zviewtestsapling"@,
        r.cointype == 1,
{
    let r = CoinParams {
        taddress_version: [0x1D, 0x25],
        tsecret_prefix: [0xEF],
        zaddress_prefix: "ztestsapling".to_owned(),
        zsecret_prefix: "secret-extended-key-test".to_owned(),
        zviewkey_prefix: "zviewtestsapling".to_owned(),
        cointype: 1,
    };
    proof {
        assert(r.taddress_version@ =~= seq![0x1Du8, 0x25u8]);
        assert(r.tsecret_prefix@ =~= seq![0xEFu8]);
    }
    r
}

} // verus!
