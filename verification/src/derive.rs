//! Hierarchical (shielded) and transparent key derivation: from a seed and an
//! index to encoded address, private-key and viewing-key texts, and from a
//! deterministic random stream to transparent key pairs.

use vstd::prelude::*;
use crate::caps;
use crate::caps::{
    addr_bytes_of, addr_search_ok, base58_of, chacha32_of, fvk_bytes_of, ripemd160_of,
    secp_pubkey_of, secp_sk_valid, sha256_of, spk_derive_ok, spk_of, spk_parse_ok,
};
use crate::encoding::{
    ascii_chars, b58check_bytes, bech32_chars, dec_bytes, hex_of, hrp_usable,
    lemma_dec_bytes_ascii, to5, to_5bit, ToBase58Check,
};
use crate::params::CoinParams;
use crate::records::SeedInfo;

verus! {

/// A failure inside derivation. Key and address failures come from the
/// derivation capability rejecting negligible-probability degenerate keys;
/// an encoding failure means a human-readable prefix in the parameters is
/// not usable for bech32.
#[derive(Clone, Copy, PartialEq, Eq, Structural, Debug)]
pub enum DeriveError {
    KeyDerivation,
    AddressSearch,
    Encoding,
}

/// The derivation path rendered for a hierarchical record:
/// `m/32'/<cointype>'/<index>'`.
pub open spec fn zaddr_path_bytes(coin: u32, index: u32) -> Seq<u8> {
    seq![109u8, 47u8, 51u8, 50u8, 39u8, 47u8] + dec_bytes(coin as nat) + seq![39u8, 47u8]
        + dec_bytes(index as nat) + seq![39u8]
}

/// The address text of the hierarchical record derived from `seed` at
/// `index`: the bech32 rendering of the default payment address bytes.
pub open spec fn zaddr_address_chars(hrp: Seq<char>, seed: Seq<u8>, coin: u32, index: u32) -> Seq<
    char,
> {
    bech32_chars(hrp, to5(addr_bytes_of(spk_of(seed, coin, index))))
}

/// The private-key text of the hierarchical record: the bech32 rendering of
/// the serialized extended spending key.
pub open spec fn zaddr_key_chars(hrp: Seq<char>, seed: Seq<u8>, coin: u32, index: u32) -> Seq<
    char,
> {
    bech32_chars(hrp, to5(spk_of(seed, coin, index)))
}

/// The viewing-key text of the hierarchical record: the bech32 rendering of
/// the serialized extended full viewing key.
pub open spec fn zaddr_viewkey_chars(hrp: Seq<char>, seed: Seq<u8>, coin: u32, index: u32) -> Seq<
    char,
> {
    bech32_chars(hrp, to5(fvk_bytes_of(spk_of(seed, coin, index))))
}

/// Every byte of the rendered derivation path is ASCII.
pub proof fn lemma_path_bytes_ascii(coin: u32, index: u32)
    ensures
        forall|i: int|
            0 <= i < zaddr_path_bytes(coin, index).len() ==> #[trigger] zaddr_path_bytes(
                coin,
                index,
            )[i] < 128,
{
    lemma_dec_bytes_ascii(coin as nat);
    lemma_dec_bytes_ascii(index as nat);
    assert forall|i: int| 0 <= i < zaddr_path_bytes(coin, index).len() implies #[trigger]
        zaddr_path_bytes(coin, index)[i] < 128 by {
        let p = zaddr_path_bytes(coin, index);
        let c = dec_bytes(coin as nat);
        let x = dec_bytes(index as nat);
        if i < 6 {
        } else if i < 6 + c.len() {
            assert(p[i] == c[i - 6]);
        } else if i < 8 + c.len() {
        } else if i < 8 + c.len() + x.len() {
            assert(p[i] == x[i - 8 - c.len()]);
        } else {
        }
    }
}

/// Renders `m/32'/<coin>'/<index>'` as ASCII bytes.
fn path_string(coin: u32, index: u32) -> (r: String)
    ensures
        r@ == ascii_chars(zaddr_path_bytes(coin, index)),
{
    let mut v: Vec<u8> = Vec::new();
    v.push(109);
    v.push(47);
    v.push(51);
    v.push(50);
    v.push(39);
    v.push(47);
    let coin_digits = crate::encoding::u64_decimal(coin as u64);
    crate::encoding::push_all(&mut v, coin_digits.as_slice());
    v.push(39);
    v.push(47);
    let index_digits = crate::encoding::u64_decimal(index as u64);
    crate::encoding::push_all(&mut v, index_digits.as_slice());
    v.push(39);
    proof {
        assert(v@ =~= zaddr_path_bytes(coin, index));
        lemma_path_bytes_ascii(coin, index);
    }
    let s = caps::ascii_string(v);
    proof {
        assert(s@ =~= ascii_chars(zaddr_path_bytes(coin, index)));
    }
    s
}

/// Checks that a human-readable prefix is usable for bech32 encoding:
/// nonempty, at most 83 characters, ASCII 33..=126, no uppercase letters.
pub fn check_hrp(s: &str) -> (r: bool)
    ensures
        r == hrp_usable(s@),
{
    let len = s.unicode_len();
    if len < 1 || len > 83 {
        return false;
    }
    let mut i: usize = 0;
    while i < len
        invariant
            0 <= i <= len,
            len == s@.len(),
            forall|j: int|
                0 <= j < i ==> (33 <= #[trigger] s@[j] as u32 <= 126 && !(65 <= s@[j] as u32
                    <= 90)),
        decreases len - i,
    {
        let c = s.get_char(i);
        let code = c as u32;
        if code < 33 || code > 126 || (65 <= code && code <= 90) {
            return false;
        }
        i = i + 1;
    }
    true
}

/// All three shielded human-readable prefixes of a parameter set are
/// usable for bech32 encoding.
pub open spec fn hrps_usable(p: CoinParams) -> bool {
    &&& hrp_usable(p.zaddress_prefix@)
    &&& hrp_usable(p.zsecret_prefix@)
    &&& hrp_usable(p.zviewkey_prefix@)
}

/// Every step of the derivation capability succeeds on this seed and path:
/// the spending key derives, its serialization parses back, and its default
/// address search finds a diversifier.
pub open spec fn zaddr_derivable(seed: Seq<u8>, coin: u32, index: u32) -> bool {
    &&& spk_derive_ok(seed, coin, index)
    &&& addr_search_ok(spk_of(seed, coin, index))
    &&& spk_parse_ok(spk_of(seed, coin, index))
}

/// Generate a standard hierarchical shielded address from the given seed at
/// path 32'/cointype'/index', with its private-key and viewing-key texts and
/// the seed information record.
pub fn get_zaddress(seed: &[u8; 32], index: u32, coinparams: &CoinParams) -> (r: Result<
    (String, String, String, SeedInfo),
    DeriveError,
>)
    requires
        coinparams.cointype < 0x8000_0000u32,
        index < 0x8000_0000u32,
    ensures
        r matches Ok(t) ==> {
            &&& t.0@ == zaddr_address_chars(
                coinparams.zaddress_prefix@,
                seed@,
                coinparams.cointype,
                index,
            )
            &&& t.1@ == zaddr_key_chars(
                coinparams.zsecret_prefix@,
                seed@,
                coinparams.cointype,
                index,
            )
            &&& t.2@ == zaddr_viewkey_chars(
                coinparams.zviewkey_prefix@,
                seed@,
                coinparams.cointype,
                index,
            )
            &&& t.3.hd_seed@ == hex_of(seed@)
            &&& t.3.path@ == ascii_chars(zaddr_path_bytes(coinparams.cointype, index))
        },
        r is Ok <==> hrps_usable(*coinparams) && zaddr_derivable(
            seed@,
            coinparams.cointype,
            index,
        ),
        r == Err::<(String, String, String, SeedInfo), DeriveError>(DeriveError::Encoding)
            <==> !hrps_usable(*coinparams),
        r == Err::<(String, String, String, SeedInfo), DeriveError>(DeriveError::AddressSearch)
            <==> hrps_usable(*coinparams) && spk_derive_ok(seed@, coinparams.cointype, index)
            && !addr_search_ok(spk_of(seed@, coinparams.cointype, index)),
        r == Err::<(String, String, String, SeedInfo), DeriveError>(DeriveError::KeyDerivation)
            <==> hrps_usable(*coinparams) && (!spk_derive_ok(seed@, coinparams.cointype, index)
            || (addr_search_ok(spk_of(seed@, coinparams.cointype, index)) && !spk_parse_ok(
            spk_of(seed@, coinparams.cointype, index),
        ))),
{
    if !(check_hrp(coinparams.zaddress_prefix.as_str()) && check_hrp(
        coinparams.zsecret_prefix.as_str(),
    ) && check_hrp(coinparams.zviewkey_prefix.as_str())) {
        return Err(DeriveError::Encoding);
    }
    let spkv = match caps::sapling_spk_derive(seed, coinparams.cointype, index) {
        Some(v) => v,
        None => {
            return Err(DeriveError::KeyDerivation);
        },
    };
    let addr_bytes = match caps::sapling_spk_address(&spkv) {
        Some(v) => v,
        None => {
            return Err(DeriveError::AddressSearch);
        },
    };
    let fvkv = match caps::sapling_spk_fvk(&spkv) {
        Some(v) => v,
        None => {
            return Err(DeriveError::KeyDerivation);
        },
    };

    let addr5 = to_5bit(addr_bytes.as_slice());
    let address = match caps::bech32_encode(coinparams.zaddress_prefix.as_str(), &addr5) {
        Some(s) => s,
        None => vstd::pervasive::unreached(),
    };
    let key5 = to_5bit(spkv.as_slice());
    let key_text = match caps::bech32_encode(coinparams.zsecret_prefix.as_str(), &key5) {
        Some(s) => s,
        None => vstd::pervasive::unreached(),
    };
    let view5 = to_5bit(fvkv.as_slice());
    let view_text = match caps::bech32_encode(coinparams.zviewkey_prefix.as_str(), &view5) {
        Some(s) => s,
        None => vstd::pervasive::unreached(),
    };

    let hd_seed = caps::hex_encode(seed.as_slice());
    let path = path_string(coinparams.cointype, index);
    Ok((address, key_text, view_text, SeedInfo { hd_seed, path }))
}

/// Hierarchical derivation is pure: two derivations from the same seed,
/// index and parameters yield identical address, private-key and viewing-key
/// texts.
pub proof fn lemma_derive_address_pure(
    a1: (Seq<char>, Seq<char>, Seq<char>),
    a2: (Seq<char>, Seq<char>, Seq<char>),
    hrps: (Seq<char>, Seq<char>, Seq<char>),
    seed: Seq<u8>,
    coin: u32,
    index: u32,
)
    requires
        a1.0 == zaddr_address_chars(hrps.0, seed, coin, index),
        a1.1 == zaddr_key_chars(hrps.1, seed, coin, index),
        a1.2 == zaddr_viewkey_chars(hrps.2, seed, coin, index),
        a2.0 == zaddr_address_chars(hrps.0, seed, coin, index),
        a2.1 == zaddr_key_chars(hrps.1, seed, coin, index),
        a2.2 == zaddr_viewkey_chars(hrps.2, seed, coin, index),
    ensures
        a1 == a2,
{
}

// ---------------------------------------------------------------------------
// Transparent keys
// ---------------------------------------------------------------------------

/// The Base58Check address text of a transparent key pair: the RIPEMD-160 of
/// the SHA-256 of the compressed public key, under the network's transparent
/// version bytes.
pub open spec fn taddr_address_chars(version: Seq<u8>, sk: Seq<u8>) -> Seq<char> {
    base58_of(b58check_bytes(version, ripemd160_of(sha256_of(secp_pubkey_of(sk))), Seq::empty()))
}

/// The Base58Check private-key text of a transparent key pair: the raw
/// scalar under the network's secret prefix, with the compression flag byte.
pub open spec fn taddr_key_chars(prefix: Seq<u8>, sk: Seq<u8>) -> Seq<char> {
    base58_of(b58check_bytes(prefix, sk, seq![1u8]))
}

/// Generate a transparent address and private key from the deterministic
/// stream. Draws 32-byte candidates in sequence, skipping any that are not a
/// valid secp256k1 scalar, and uses the first valid one; gives up only if
/// over four billion consecutive draws are invalid, an event of negligible
/// probability that the bounded loop makes explicit.
pub fn get_taddress(rng: &mut caps::SeedStream, coinparams: &CoinParams) -> (r: Result<
    (String, String),
    DeriveError,
>)
    ensures
        final(rng)@.seed == old(rng)@.seed,
        final(rng)@.draws > old(rng)@.draws,
        r matches Ok(t) ==> {
            &&& secp_sk_valid(chacha32_of(old(rng)@.seed, (final(rng)@.draws - 1) as nat))
            &&& forall|j: nat|
                old(rng)@.draws <= j < final(rng)@.draws - 1 ==> !secp_sk_valid(
                    #[trigger] chacha32_of(old(rng)@.seed, j),
                )
            &&& t.0@ == taddr_address_chars(
                coinparams.taddress_version@,
                chacha32_of(old(rng)@.seed, (final(rng)@.draws - 1) as nat),
            )
            &&& t.1@ == taddr_key_chars(
                coinparams.tsecret_prefix@,
                chacha32_of(old(rng)@.seed, (final(rng)@.draws - 1) as nat),
            )
        },
        r matches Err(e) ==> e == DeriveError::KeyDerivation,
        r is Err ==> forall|j: nat|
            old(rng)@.draws <= j < old(rng)@.draws + 0x1_0000_0000 ==> !secp_sk_valid(
                #[trigger] chacha32_of(old(rng)@.seed, j),
            ),
{
    let mut sk_bytes = rng.fill32();
    let mut valid = caps::secp_sk_check(&sk_bytes);
    let mut k: u64 = 0;
    while !valid && k < 0xFFFF_FFFFu64
        invariant
            rng@.seed == old(rng)@.seed,
            rng@.draws == old(rng)@.draws + k + 1,
            sk_bytes@ == chacha32_of(old(rng)@.seed, (rng@.draws - 1) as nat),
            valid == secp_sk_valid(sk_bytes@),
            forall|j: nat|
                old(rng)@.draws <= j < rng@.draws - 1 ==> !secp_sk_valid(
                    #[trigger] chacha32_of(old(rng)@.seed, j),
                ),
        decreases 0xFFFF_FFFFu64 - k,
    {
        sk_bytes = rng.fill32();
        valid = caps::secp_sk_check(&sk_bytes);
        k = k + 1;
    }
    if !valid {
        return Err(DeriveError::KeyDerivation);
    }

    let pubkey = caps::secp_pubkey(&sk_bytes);
    let sha = caps::sha256(pubkey.as_slice());
    let hash160 = caps::ripemd160(sha.as_slice());
    let empty_suffix: [u8; 0] = [];
    proof {
        assert(empty_suffix@ =~= Seq::<u8>::empty());
    }
    let addr = hash160.as_slice().to_base58check(
        coinparams.taddress_version.as_slice(),
        empty_suffix.as_slice(),
    );
    let compression_flag: [u8; 1] = [1u8];
    proof {
        assert(compression_flag@ =~= seq![1u8]);
    }
    let pk_wif = sk_bytes.as_slice().to_base58check(
        coinparams.tsecret_prefix.as_slice(),
        compression_flag.as_slice(),
    );
    Ok((addr, pk_wif))
}

} // verus!
