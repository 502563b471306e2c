//! Trusted boundary of the library: every call into an outside crate is made
//! here, behind a wrapper whose contract states what the call returns. Results
//! that are functions of the arguments alone but too long to state (hashes,
//! key derivation, checksums) are given uninterpreted names; all logic that
//! consumes them is verified against those names elsewhere in the crate.

use vstd::prelude::*;
use crate::encoding::{bech32_hrp_ok, charset_seq, hex_of};
use base58::ToBase58 as _;
use rand::RngCore as _;
use sapling_crypto::zip32::ExtendedSpendingKey;

verus! {

// ---------------------------------------------------------------------------
// Named results of outside computations (pure functions of their arguments).
// ---------------------------------------------------------------------------

/// The SHA-256 digest (32 bytes) of a byte sequence, as computed by
/// `sha2::Sha256::digest`.
pub uninterp spec fn sha256_of(b: Seq<u8>) -> Seq<u8>;

/// The RIPEMD-160 digest (20 bytes) of a byte sequence, as computed by
/// `ripemd160::Ripemd160::digest`.
pub uninterp spec fn ripemd160_of(b: Seq<u8>) -> Seq<u8>;

/// The Base58 rendering of a byte sequence, as computed by
/// `base58::ToBase58::to_base58`.
pub uninterp spec fn base58_of(b: Seq<u8>) -> Seq<char>;

/// The six 5-bit checksum groups that `bech32::encode` appends to the data
/// part when encoding `data` under the human-readable part `hrp`.
pub uninterp spec fn bech32_checksum_of(hrp: Seq<char>, data: Seq<u8>) -> Seq<u8>;

/// Whether 32 bytes are a valid secp256k1 secret scalar (nonzero and below
/// the group order), as decided by `libsecp256k1::SecretKey::parse`.
pub uninterp spec fn secp_sk_valid(b: Seq<u8>) -> bool;

/// The 33-byte compressed encoding of the secp256k1 public key of a valid
/// secret scalar, as computed by `libsecp256k1::PublicKey::from_secret_key`.
pub uninterp spec fn secp_pubkey_of(sk: Seq<u8>) -> Seq<u8>;

/// The 169-byte ZIP-32 serialization of the Sapling extended spending key
/// derived from `seed` along the hardened path 32' / coin_type' / index'.
pub uninterp spec fn spk_of(seed: Seq<u8>, coin_type: u32, index: u32) -> Seq<u8>;

/// Whether the ZIP-32 derivation along 32' / coin_type' / index' succeeds:
/// `ExtendedSpendingKey::master` and every `derive_child` step reject keys
/// with a zero spend authority or incoming viewing key, a deterministic
/// function of the seed and path with negligible failure probability.
pub uninterp spec fn spk_derive_ok(seed: Seq<u8>, coin_type: u32, index: u32) -> bool;

/// Whether a 169-byte extended spending key serialization parses back
/// (`ExtendedSpendingKey::from_bytes`), a function of the bytes alone.
pub uninterp spec fn spk_parse_ok(spk: Seq<u8>) -> bool;

/// Whether a serialized extended spending key parses and its default
/// address search (`find_address` from index zero) succeeds, a function of
/// the bytes alone.
pub uninterp spec fn addr_search_ok(spk: Seq<u8>) -> bool;

/// The 32-byte master diversifier key that ZIP-32 derives from a seed, as
/// computed by `sapling_crypto::zip32::DiversifierKey::master`.
pub uninterp spec fn sapling_dk_of(seed: Seq<u8>) -> Seq<u8>;

/// The first valid diversifier (11 bytes) that a diversifier key produces
/// when the diversifier index space is searched from zero; `None` if the
/// whole space holds no valid diversifier.
pub uninterp spec fn default_diversifier_of(dk: Seq<u8>) -> Option<Seq<u8>>;

/// The 43-byte raw default payment address (11 diversifier bytes followed by
/// the 32-byte transmission key) of a serialized extended spending key.
pub uninterp spec fn addr_bytes_of(spk: Seq<u8>) -> Seq<u8>;

/// The 169-byte serialization of the extended full viewing key that belongs
/// to a serialized extended spending key.
pub uninterp spec fn fvk_bytes_of(spk: Seq<u8>) -> Seq<u8>;

/// The `k`-th consecutive 32-byte block drawn from a ChaCha20 stream seeded
/// with `seed`; the stream is a pure, portable function of the seed.
pub uninterp spec fn chacha32_of(seed: Seq<u8>, k: nat) -> Seq<u8>;

// ---------------------------------------------------------------------------
// Hashes
// ---------------------------------------------------------------------------

/// Relies on `sha2::Sha256::digest`: the 32-byte SHA-256 digest, a function
/// of the input bytes alone.
#[verifier::external_body]
pub(crate) fn sha256(b: &[u8]) -> (r: Vec<u8>)
    ensures
        r@ == sha256_of(b@),
        r@.len() == 32,
{
    <sha2::Sha256 as sha2::Digest>::digest(b).to_vec()
}

/// Relies on `ripemd160::Ripemd160::digest`: the 20-byte RIPEMD-160 digest,
/// a function of the input bytes alone.
#[verifier::external_body]
pub(crate) fn ripemd160(b: &[u8]) -> (r: Vec<u8>)
    ensures
        r@ == ripemd160_of(b@),
        r@.len() == 20,
{
    <ripemd160::Ripemd160 as ripemd160::Digest>::digest(b).to_vec()
}

// ---------------------------------------------------------------------------
// Text encodings
// ---------------------------------------------------------------------------

/// Relies on `base58::ToBase58::to_base58`: the Base58 rendering of the
/// bytes, a function of the input alone.
#[verifier::external_body]
pub(crate) fn base58(b: &[u8]) -> (r: String)
    ensures
        r@ == base58_of(b@),
{
    b.to_base58()
}

/// Relies on `hex::encode`: two lowercase hexadecimal digits per input byte,
/// most significant nibble first.
#[verifier::external_body]
pub(crate) fn hex_encode(b: &[u8]) -> (r: String)
    ensures
        r@ == hex_of(b@),
{
    hex::encode(b)
}

/// Relies on `bech32::encode` with the `Bech32` checksum variant: on a valid
/// human-readable part it renders `hrp`, the separator `1`, the data groups
/// in the bech32 alphabet, and six checksum groups; it fails exactly when the
/// human-readable part is empty, longer than 83 bytes, or holds a character
/// outside the ASCII range 33..=126 (uppercase is excluded by `requires`, so
/// the case normalization in the crate never fires).
#[verifier::external_body]
pub(crate) fn bech32_encode(hrp: &str, data: &Vec<u8>) -> (r: Option<String>)
    requires
        forall|i: int| 0 <= i < data@.len() ==> data@[i] < 32,
        forall|i: int| 0 <= i < hrp@.len() ==> !(65 <= #[trigger] hrp@[i] as u32 <= 90),
    ensures
        r is Some <==> bech32_hrp_ok(hrp@),
        r matches Some(s) ==> s@ == hrp@ + seq!['1'] + charset_seq(data@) + charset_seq(
            bech32_checksum_of(hrp@, data@),
        ),
        r matches Some(s) ==> s@.len() == hrp@.len() + 1 + data@.len() + 6,
{
    let groups: Vec<bech32::u5> = data
        .iter()
        .map(|v| bech32::u5::try_from_u8(*v).expect("group out of range"))
        .collect();
    bech32::encode(hrp, groups, bech32::Variant::Bech32).ok()
}

/// Relies on `String::from_utf8`: ASCII bytes are valid UTF-8 and decode to
/// one identical character per byte.
#[verifier::external_body]
pub(crate) fn ascii_string(bytes: Vec<u8>) -> (r: String)
    requires
        forall|i: int| 0 <= i < bytes@.len() ==> bytes@[i] < 128,
    ensures
        r@.len() == bytes@.len(),
        forall|i: int| 0 <= i < bytes@.len() ==> r@[i] == bytes@[i] as char,
{
    String::from_utf8(bytes).expect("ASCII bytes are valid UTF-8")
}

// ---------------------------------------------------------------------------
// secp256k1 keys
// ---------------------------------------------------------------------------

/// Relies on `libsecp256k1::SecretKey::parse`: accepts exactly the 32-byte
/// scalars in the valid secret-key range, a function of the bytes alone.
#[verifier::external_body]
pub(crate) fn secp_sk_check(b: &[u8; 32]) -> (r: bool)
    ensures
        r == secp_sk_valid(b@),
{
    libsecp256k1::SecretKey::parse(b).is_ok()
}

/// Relies on `libsecp256k1::PublicKey::from_secret_key` and
/// `serialize_compressed`: the compressed public key of a valid scalar, a
/// function of the scalar alone.
#[verifier::external_body]
pub(crate) fn secp_pubkey(b: &[u8; 32]) -> (r: Vec<u8>)
    requires
        secp_sk_valid(b@),
    ensures
        r@ == secp_pubkey_of(b@),
        r@.len() == 33,
{
    let sk = libsecp256k1::SecretKey::parse(b).expect("checked by caller");
    libsecp256k1::PublicKey::from_secret_key(&sk).serialize_compressed().to_vec()
}

// ---------------------------------------------------------------------------
// Sapling ZIP-32 derivation
// ---------------------------------------------------------------------------

/// Relies on `sapling_crypto::zip32::ExtendedSpendingKey`: `master`,
/// `from_path` over the hardened path 32' / coin_type' / index', and
/// `to_bytes`. Returns `None` when a key along the path is invalid, which the
/// crate documents as negligibly probable.
#[verifier::external_body]
pub(crate) fn sapling_spk_derive(seed: &[u8; 32], coin_type: u32, index: u32) -> (r: Option<Vec<u8>>)
    requires
        coin_type < 0x8000_0000u32,
        index < 0x8000_0000u32,
    ensures
        r is Some <==> spk_derive_ok(seed@, coin_type, index),
        r matches Some(v) ==> v@ == spk_of(seed@, coin_type, index) && v@.len() == 169,
{
    let master = ExtendedSpendingKey::master(seed)?;
    let path = [
        zip32::ChildIndex::hardened(32),
        zip32::ChildIndex::hardened(coin_type),
        zip32::ChildIndex::hardened(index),
    ];
    let spk = ExtendedSpendingKey::from_path(&master, &path)?;
    Some(spk.to_bytes().to_vec())
}

/// Relies on `sapling_crypto::zip32::DiversifierKey::master`: the master
/// diversifier key bytes, a function of the seed alone.
#[verifier::external_body]
pub(crate) fn sapling_dk_master(seed: &[u8; 32]) -> (r: [u8; 32])
    ensures
        r@ == sapling_dk_of(seed@),
{
    *sapling_crypto::zip32::DiversifierKey::master(&seed[..]).as_bytes()
}

/// Relies on `sapling_crypto::zip32::DiversifierKey::find_diversifier`
/// starting from index zero: the first valid diversifier of the key, `None`
/// only if the whole index space is invalid.
#[verifier::external_body]
pub(crate) fn sapling_find_default_diversifier(dk: &[u8; 32]) -> (r: Option<[u8; 11]>)
    ensures
        r matches Some(d) ==> default_diversifier_of(dk@) == Some(d@),
        r is None ==> default_diversifier_of(dk@) is None,
{
    let key = sapling_crypto::zip32::DiversifierKey::from_bytes(*dk);
    let (_j, d) = key.find_diversifier(zip32::DiversifierIndex::new())?;
    Some(d.0)
}

/// Relies on `ExtendedSpendingKey::from_bytes` and
/// `ExtendedFullViewingKey::find_address` from index zero: the raw default
/// payment address of the key. Its first 11 bytes are the diversifier that
/// `find_diversifier` yields from index zero for the diversifier key stored
/// in bytes 137..169 of the serialization, since both run the same search.
#[verifier::external_body]
#[allow(deprecated)]
pub(crate) fn sapling_spk_address(spk: &Vec<u8>) -> (r: Option<Vec<u8>>)
    requires
        spk@.len() == 169,
    ensures
        r is Some <==> addr_search_ok(spk@),
        r matches Some(v) ==> v@ == addr_bytes_of(spk@) && v@.len() == 43,
        r matches Some(v) ==> default_diversifier_of(spk@.subrange(137, 169)) == Some(
            v@.subrange(0, 11),
        ),
{
    let key = ExtendedSpendingKey::from_bytes(&spk[..]).ok()?;
    let fvk = key.to_extended_full_viewing_key();
    let (_j, addr) = fvk.find_address(zip32::DiversifierIndex::new())?;
    Some(addr.to_bytes().to_vec())
}

/// Relies on `ExtendedSpendingKey::from_bytes`,
/// `to_extended_full_viewing_key` and `ExtendedFullViewingKey::write`: the
/// 169-byte serialization of the key's extended full viewing key.
#[verifier::external_body]
#[allow(deprecated)]
pub(crate) fn sapling_spk_fvk(spk: &Vec<u8>) -> (r: Option<Vec<u8>>)
    requires
        spk@.len() == 169,
    ensures
        r is Some <==> spk_parse_ok(spk@),
        r matches Some(v) ==> v@ == fvk_bytes_of(spk@) && v@.len() == 169,
{
    let key = ExtendedSpendingKey::from_bytes(&spk[..]).ok()?;
    let fvk = key.to_extended_full_viewing_key();
    let mut out: Vec<u8> = Vec::new();
    fvk.write(&mut out).ok()?;
    Some(out)
}

// ---------------------------------------------------------------------------
// Randomness
// ---------------------------------------------------------------------------

/// Relies on `rand::rngs::OsRng`: 32 bytes of operating-system randomness,
/// or `None` when the source is unavailable. Nothing can be promised of the
/// value itself.
#[verifier::external_body]
pub(crate) fn os_entropy32() -> (r: Option<[u8; 32]>)
{
    let mut rng = match rand::rngs::OsRng::new() {
        Ok(rng) => rng,
        Err(_) => return None,
    };
    let mut buf = [0u8; 32];
    match rng.try_fill_bytes(&mut buf) {
        Ok(()) => Some(buf),
        Err(_) => None,
    }
}

/// The mathematical state of a [`SeedStream`]: the seed it was started from
/// and how many 32-byte blocks have been drawn so far.
pub ghost struct StreamModel {
    pub seed: Seq<u8>,
    pub draws: nat,
}

/// A deterministic byte stream: a ChaCha20 generator together with the ghost
/// seed and the count of 32-byte blocks drawn so far, so that every draw can
/// be named in contracts.
pub struct SeedStream {
    rng: rand::prng::ChaChaRng,
    seed: Ghost<Seq<u8>>,
    draws: Ghost<nat>,
}

impl View for SeedStream {
    type V = StreamModel;

    closed spec fn view(&self) -> StreamModel {
        StreamModel { seed: self.seed@, draws: self.draws@ }
    }
}

/// Relies on `rand::prng::ChaChaRng::from_seed`: the generator's output
/// stream is a pure, portable function of the 32-byte seed.
#[verifier::external_body]
#[allow(deprecated)]
fn chacha_new(seed: &[u8; 32]) -> rand::prng::ChaChaRng {
    rand::SeedableRng::from_seed(*seed)
}

impl SeedStream {
    /// Starts the deterministic stream that `seed` determines.
    pub fn from_seed(seed: &[u8; 32]) -> (r: SeedStream)
        ensures
            r@.seed == seed@,
            r@.draws == 0,
    {
        SeedStream { rng: chacha_new(seed), seed: Ghost(seed@), draws: Ghost(0nat) }
    }

    /// Relies on `rand::RngCore::fill_bytes` for `ChaChaRng`: consecutive
    /// calls read consecutive blocks of the keystream determined by the seed.
    #[verifier::external_body]
    pub(crate) fn fill32(&mut self) -> (r: [u8; 32])
        ensures
            final(self)@.seed == old(self)@.seed,
            final(self)@.draws == old(self)@.draws + 1,
            r@ == chacha32_of(old(self)@.seed, old(self)@.draws),
    {
        let mut buf = [0u8; 32];
        self.rng.fill_bytes(&mut buf);
        buf
    }
}


// ---------------------------------------------------------------------------
// QR codes
// ---------------------------------------------------------------------------

/// The module matrix of the QR code that encodes a byte string (true for a
/// dark module), row by row: a pure function of the data. Its width is
/// pinned by the square length of the matrix.
pub uninterp spec fn qr_modules_of(data: Seq<u8>) -> Seq<bool>;

/// Whether the data fits some QR code version (`QrCode::new` succeeds), a
/// function of the data alone.
pub uninterp spec fn qr_fits(data: Seq<u8>) -> bool;

/// Relies on `qrcode::QrCode::new`, `width` and `to_colors`: the module
/// matrix and width of the smallest QR code holding the data, `None` when
/// the data is too long for any version; no version is wider than 177.
#[verifier::external_body]
pub(crate) fn qr_code_modules(data: &[u8]) -> (r: Option<(Vec<bool>, usize)>)
    ensures
        r is Some <==> qr_fits(data@),
        r matches Some(t) ==> t.0@ == qr_modules_of(data@) && t.0@.len() == t.1 * t.1 && t.1
            <= 177,
{
    let code = qrcode::QrCode::new(data).ok()?;
    let w = code.width();
    let colors = code.to_colors();
    let m = colors
        .iter()
        .map(|c| match c {
            qrcode::types::Color::Light => false,
            qrcode::types::Color::Dark => true,
        })
        .collect();
    Some((m, w))
}

// ---------------------------------------------------------------------------
// Outside types that cross the boundary
// ---------------------------------------------------------------------------

#[verifier::external_type_specification]
#[verifier::external_body]
#[allow(deprecated)]
pub struct ExChaChaRng(rand::prng::ChaChaRng);

} // verus!
