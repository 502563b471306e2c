//! Checksum text encodings: the Base58Check construction, the bech32 alphabet
//! and its inverse for user-supplied prefixes, the 8-bit to 5-bit regrouping
//! that bech32 data parts use, and small ASCII rendering helpers.

use vstd::prelude::*;
use crate::caps;
use crate::caps::{base58_of, sha256_of};

verus! {

// ---------------------------------------------------------------------------
// The bech32 alphabet
// ---------------------------------------------------------------------------

/// The character that renders a 5-bit group in the bech32 alphabet.
pub open spec fn charset_char(v: u8) -> char {
    if v == 0 { 'q' } else if v == 1 { 'p' } else if v == 2 { 'z' } else if v == 3 { 'r' }
    else if v == 4 { 'y' } else if v == 5 { '9' } else if v == 6 { 'x' } else if v == 7 { '8' }
    else if v == 8 { 'g' } else if v == 9 { 'f' } else if v == 10 { '2' } else if v == 11 { 't' }
    else if v == 12 { 'v' } else if v == 13 { 'd' } else if v == 14 { 'w' } else if v == 15 { '0' }
    else if v == 16 { 's' } else if v == 17 { '3' } else if v == 18 { 'j' } else if v == 19 { 'n' }
    else if v == 20 { '5' } else if v == 21 { '4' } else if v == 22 { 'k' } else if v == 23 { 'h' }
    else if v == 24 { 'c' } else if v == 25 { 'e' } else if v == 26 { '6' } else if v == 27 { 'm' }
    else if v == 28 { 'u' } else if v == 29 { 'a' } else if v == 30 { '7' } else { 'l' }
}

/// The rendering of a whole sequence of 5-bit groups.
pub open spec fn charset_seq(d: Seq<u8>) -> Seq<char> {
    Seq::new(d.len(), |i: int| charset_char(d[i]))
}

/// The lowercase form of an ASCII letter; other characters are unchanged.
pub open spec fn lower_char(c: char) -> char {
    if 65 <= c as u32 <= 90 {
        ((c as u32) + 32) as char
    } else {
        c
    }
}

/// The 5-bit value of a lowercase bech32 character; `None` for characters
/// outside the alphabet (`b`, `i`, `o`, `1` among them).
pub open spec fn bech32_lower_value(c: char) -> Option<u8> {
    if c == 'q' { Some(0u8) } else if c == 'p' { Some(1u8) } else if c == 'z' { Some(2u8) }
    else if c == 'r' { Some(3u8) } else if c == 'y' { Some(4u8) } else if c == '9' { Some(5u8) }
    else if c == 'x' { Some(6u8) } else if c == '8' { Some(7u8) } else if c == 'g' { Some(8u8) }
    else if c == 'f' { Some(9u8) } else if c == '2' { Some(10u8) } else if c == 't' { Some(11u8) }
    else if c == 'v' { Some(12u8) } else if c == 'd' { Some(13u8) } else if c == 'w' { Some(14u8) }
    else if c == '0' { Some(15u8) } else if c == 's' { Some(16u8) } else if c == '3' { Some(17u8) }
    else if c == 'j' { Some(18u8) } else if c == 'n' { Some(19u8) } else if c == '5' { Some(20u8) }
    else if c == '4' { Some(21u8) } else if c == 'k' { Some(22u8) } else if c == 'h' { Some(23u8) }
    else if c == 'c' { Some(24u8) } else if c == 'e' { Some(25u8) } else if c == '6' { Some(26u8) }
    else if c == 'm' { Some(27u8) } else if c == 'u' { Some(28u8) } else if c == 'a' { Some(29u8) }
    else if c == '7' { Some(30u8) } else if c == 'l' { Some(31u8) } else { None }
}

/// The 5-bit value of a bech32 character of either case.
pub open spec fn bech32_char_value(c: char) -> Option<u8> {
    bech32_lower_value(lower_char(c))
}

/// A valid human-readable part for `bech32::encode`: nonempty, at most 83
/// characters, all in the ASCII range 33..=126.
pub open spec fn bech32_hrp_ok(h: Seq<char>) -> bool {
    &&& 1 <= h.len() <= 83
    &&& forall|i: int| 0 <= i < h.len() ==> 33 <= #[trigger] h[i] as u32 <= 126
}

/// A prefix the library hands to `bech32::encode`: valid and free of
/// uppercase letters, so the encoder's case normalization never fires.
pub open spec fn hrp_usable(h: Seq<char>) -> bool {
    &&& bech32_hrp_ok(h)
    &&& forall|i: int| 0 <= i < h.len() ==> !(65 <= #[trigger] h[i] as u32 <= 90)
}

/// The full bech32 string for a human-readable part and a data part: the
/// prefix, the separator `1`, the rendered data groups, and the six rendered
/// checksum groups.
pub open spec fn bech32_chars(hrp: Seq<char>, data: Seq<u8>) -> Seq<char> {
    hrp + seq!['1'] + charset_seq(data) + charset_seq(crate::caps::bech32_checksum_of(hrp, data))
}

/// ASCII bytes read as characters, one per byte.
pub open spec fn ascii_chars(b: Seq<u8>) -> Seq<char> {
    Seq::new(b.len(), |i: int| b[i] as char)
}

/// Reading a lowercase bech32 character and rendering the value yields the
/// character again.
pub proof fn lemma_value_charset_roundtrip(c: char, v: u8)
    requires
        bech32_lower_value(c) == Some(v),
    ensures
        charset_char(v) == c,
        v < 32,
{
}

/// Exact executable form of [`bech32_char_value`].
pub fn bech32_char_value_exec(c: char) -> (r: Option<u8>)
    ensures
        r == bech32_char_value(c),
{
    match c {
        'q' | 'Q' => Some(0), 'p' | 'P' => Some(1), 'z' | 'Z' => Some(2), 'r' | 'R' => Some(3),
        'y' | 'Y' => Some(4), '9' => Some(5), 'x' | 'X' => Some(6), '8' => Some(7),
        'g' | 'G' => Some(8), 'f' | 'F' => Some(9), '2' => Some(10), 't' | 'T' => Some(11),
        'v' | 'V' => Some(12), 'd' | 'D' => Some(13), 'w' | 'W' => Some(14), '0' => Some(15),
        's' | 'S' => Some(16), '3' => Some(17), 'j' | 'J' => Some(18), 'n' | 'N' => Some(19),
        '5' => Some(20), '4' => Some(21), 'k' | 'K' => Some(22), 'h' | 'H' => Some(23),
        'c' | 'C' => Some(24), 'e' | 'E' => Some(25), '6' => Some(26), 'm' | 'M' => Some(27),
        'u' | 'U' => Some(28), 'a' | 'A' => Some(29), '7' => Some(30), 'l' | 'L' => Some(31),
        _ => None,
    }
}

// ---------------------------------------------------------------------------
// Hexadecimal rendering
// ---------------------------------------------------------------------------

/// The lowercase hexadecimal digit of a value below 16.
pub open spec fn hex_digit(v: u8) -> char {
    if v < 10 {
        (48 + v) as char
    } else {
        (87 + v) as char
    }
}

/// The lowercase hexadecimal rendering of a byte sequence: two digits per
/// byte, most significant nibble first.
pub open spec fn hex_of(b: Seq<u8>) -> Seq<char> {
    Seq::new(2 * b.len(), |i: int| if i % 2 == 0 {
        hex_digit(b[i / 2] >> 4u8)
    } else {
        hex_digit(b[i / 2] & 0x0fu8)
    })
}

// ---------------------------------------------------------------------------
// 8-bit bytes to 5-bit groups
// ---------------------------------------------------------------------------

/// Bit `k` of the big-endian bit stream of `b` (most significant bit of each
/// byte first); zero past the end of the stream.
pub open spec fn stream_bit(b: Seq<u8>, k: int) -> u8 {
    if 0 <= k < 8 * b.len() {
        (b[k / 8] >> ((7 - (k % 8)) as u8)) & 1
    } else {
        0
    }
}

/// The number of 5-bit groups that cover a stream of `len` bytes, the final
/// group zero-padded.
pub open spec fn n_groups(len: int) -> int {
    (8 * len + 4) / 5
}

/// The `j`-th 5-bit group of the bit stream of `b`.
pub open spec fn u5_group(b: Seq<u8>, j: int) -> u8 {
    (16 * stream_bit(b, 5 * j) + 8 * stream_bit(b, 5 * j + 1) + 4 * stream_bit(b, 5 * j + 2) + 2
        * stream_bit(b, 5 * j + 3) + stream_bit(b, 5 * j + 4)) as u8
}

/// The 5-bit regrouping of a byte sequence, as the bech32 data part uses it.
pub open spec fn to5(b: Seq<u8>) -> Seq<u8> {
    Seq::new(n_groups(b.len() as int) as nat, |j: int| u5_group(b, j))
}

/// Exact executable form of [`stream_bit`].
fn stream_bit_exec(b: &[u8], k: usize) -> (r: u8)
    requires
        8 * b@.len() <= usize::MAX,
    ensures
        r == stream_bit(b@, k as int),
        r <= 1,
{
    if k < 8 * b.len() {
        let byte = b[k / 8];
        let shift: u8 = (7 - (k % 8)) as u8;
        let r = (byte >> shift) & 1;
        assert((byte >> shift) & 1 <= 1) by (bit_vector);
        r
    } else {
        0
    }
}

/// Regroups bytes into 5-bit groups, most significant bit first, the final
/// group padded with zero bits.
pub fn to_5bit(b: &[u8]) -> (r: Vec<u8>)
    requires
        8 * b@.len() + 4 <= usize::MAX,
    ensures
        r@ == to5(b@),
        forall|j: int| 0 <= j < r@.len() ==> r@[j] < 32,
{
    let total: usize = (8 * b.len() + 4) / 5;
    let mut r: Vec<u8> = Vec::new();
    let mut j: usize = 0;
    while j < total
        invariant
            j <= total,
            total == n_groups(b@.len() as int),
            8 * b@.len() + 4 <= usize::MAX,
            r@ =~= to5(b@).take(j as int),
            forall|t: int| 0 <= t < r@.len() ==> r@[t] < 32,
        decreases total - j,
    {
        let b0 = stream_bit_exec(b, 5 * j);
        let b1 = stream_bit_exec(b, 5 * j + 1);
        let b2 = stream_bit_exec(b, 5 * j + 2);
        let b3 = stream_bit_exec(b, 5 * j + 3);
        let b4 = stream_bit_exec(b, 5 * j + 4);
        let g: u8 = 16 * b0 + 8 * b1 + 4 * b2 + 2 * b3 + b4;
        assert(g == u5_group(b@, j as int));
        r.push(g);
        proof {
            assert(r@ =~= to5(b@).take(j as int + 1));
        }
        j = j + 1;
    }
    proof {
        assert(r@ =~= to5(b@));
    }
    r
}

// ---------------------------------------------------------------------------
// Base58Check
// ---------------------------------------------------------------------------

/// The buffer that Base58Check encodes: version, payload and suffix, followed
/// by the first four bytes of the double SHA-256 of that concatenation.
pub open spec fn b58check_bytes(version: Seq<u8>, payload: Seq<u8>, suffix: Seq<u8>) -> Seq<u8> {
    let body = version + payload + suffix;
    body + sha256_of(sha256_of(body)).take(4)
}

/// Sha256(Sha256(value))
pub fn double_sha256(payload: &[u8]) -> (r: Vec<u8>)
    ensures
        r@ == sha256_of(sha256_of(payload@)),
        r@.len() == 32,
{
    let h1 = caps::sha256(payload);
    let h2 = caps::sha256(h1.as_slice());
    h2
}

/// Appends every byte of `src` to `dst`.
pub fn push_all(dst: &mut Vec<u8>, src: &[u8])
    ensures
        final(dst)@ == old(dst)@ + src@,
{
    let mut i: usize = 0;
    while i < src.len()
        invariant
            i <= src@.len(),
            dst@ =~= old(dst)@ + src@.take(i as int),
        decreases src@.len() - i,
    {
        dst.push(src[i]);
        proof {
            assert(dst@ =~= old(dst)@ + src@.take(i as int + 1));
        }
        i = i + 1;
    }
    proof {
        assert(dst@ =~= old(dst)@ + src@);
    }
}

/// A trait for converting a `[u8]` to a Base58Check encoded string.
pub trait ToBase58Check {
    /// Converts `self` to a Base58Check string. The version is a
    /// coin-specific prefix added before the payload; the suffix is appended
    /// after it (such as the compression flag of an encoded secret key).
    fn to_base58check(&self, version: &[u8], suffix: &[u8]) -> (r: String);
}

impl ToBase58Check for [u8] {
    fn to_base58check(&self, version: &[u8], suffix: &[u8]) -> (r: String)
        ensures
            r@ == base58_of(b58check_bytes(version@, self@, suffix@)),
    {
        let mut payload: Vec<u8> = Vec::new();
        push_all(&mut payload, version);
        push_all(&mut payload, self);
        push_all(&mut payload, suffix);

        let checksum = double_sha256(payload.as_slice());
        let ghost body = version@ + self@ + suffix@;
        proof {
            assert(payload@ =~= body);
        }
        payload.push(checksum[0]);
        payload.push(checksum[1]);
        payload.push(checksum[2]);
        payload.push(checksum[3]);
        proof {
            assert(payload@ =~= b58check_bytes(version@, self@, suffix@));
        }
        caps::base58(payload.as_slice())
    }
}

// ---------------------------------------------------------------------------
// ASCII rendering helpers
// ---------------------------------------------------------------------------

/// The decimal digits of `n` as ASCII bytes, most significant first.
pub open spec fn dec_bytes(n: nat) -> Seq<u8>
    decreases n,
{
    if n < 10 {
        seq![(48 + n) as u8]
    } else {
        dec_bytes(n / 10).push((48 + n % 10) as u8)
    }
}

/// Renders `n` in decimal as ASCII bytes.
pub fn u64_decimal(n: u64) -> (r: Vec<u8>)
    ensures
        r@ == dec_bytes(n as nat),
    decreases n,
{
    if n < 10 {
        let mut v: Vec<u8> = Vec::new();
        v.push(48 + n as u8);
        proof {
            assert(v@ =~= dec_bytes(n as nat));
        }
        v
    } else {
        let mut v = u64_decimal(n / 10);
        v.push(48 + (n % 10) as u8);
        proof {
            assert(v@ =~= dec_bytes(n as nat));
        }
        v
    }
}

/// Every decimal rendering is made of ASCII digits.
pub proof fn lemma_dec_bytes_ascii(n: nat)
    ensures
        forall|i: int| 0 <= i < dec_bytes(n).len() ==> 48 <= #[trigger] dec_bytes(n)[i] <= 57,
    decreases n,
{
    if n < 10 {
        assert(dec_bytes(n) == seq![(48 + n) as u8]);
        assert(dec_bytes(n)[0] == (48 + n) as u8);
    } else {
        lemma_dec_bytes_ascii(n / 10);
        assert(dec_bytes(n) == dec_bytes(n / 10).push((48 + n % 10) as u8));
        assert forall|i: int| 0 <= i < dec_bytes(n).len() implies 48 <= #[trigger] dec_bytes(
            n,
        )[i] <= 57 by {
            if i < dec_bytes(n / 10).len() {
                assert(dec_bytes(n)[i] == dec_bytes(n / 10)[i]);
            } else {
                assert(dec_bytes(n)[i] == (48 + n % 10) as u8);
            }
        }
    }
}

/// Base58Check round trip: the encoded buffer is the version, payload and
/// suffix followed by exactly the first four bytes of their double hash, so
/// decoding, stripping the last four bytes and re-hashing the rest
/// reproduces the stripped checksum. The digest argument carries the length
/// every caller knows from computing the hash.
pub proof fn lemma_b58check_roundtrip(
    version: Seq<u8>,
    payload: Seq<u8>,
    suffix: Seq<u8>,
    digest: Seq<u8>,
)
    requires
        digest == sha256_of(sha256_of(version + payload + suffix)),
        digest.len() == 32,
    ensures
        ({
            let body = version + payload + suffix;
            let all = b58check_bytes(version, payload, suffix);
            &&& all.len() == body.len() + 4
            &&& all.subrange(0, body.len() as int) == body
            &&& all.subrange(body.len() as int, all.len() as int) == digest.take(4)
        }),
{
    let body = version + payload + suffix;
    let all = b58check_bytes(version, payload, suffix);
    assert(all =~= body + digest.take(4));
    assert(all.subrange(0, body.len() as int) =~= body);
    assert(all.subrange(body.len() as int, all.len() as int) =~= digest.take(4));
}

/// A prefix of the byte sequence determines the early 5-bit groups: group
/// `i` only reads bits that fall inside the first `d.len()` bytes.
pub proof fn lemma_to5_prefix(a: Seq<u8>, d: Seq<u8>, i: int)
    requires
        d.len() <= a.len(),
        a.subrange(0, d.len() as int) == d,
        0 <= 5 * i + 4 < 8 * d.len(),
    ensures
        to5(a)[i] == to5(d)[i],
{
    assert forall|k: int| 5 * i <= k <= 5 * i + 4 implies stream_bit(a, k) == stream_bit(
        d,
        k,
    ) by {
        assert(0 <= k < 8 * d.len());
        assert(k / 8 < d.len());
        assert(a[k / 8] == a.subrange(0, d.len() as int)[k / 8]);
    }
    assert(u5_group(a, i) == u5_group(d, i));
    assert(i < n_groups(d.len() as int));
    assert(i < n_groups(a.len() as int));
}

/// A character with a lowercase bech32 value is not an uppercase letter, so
/// reading it of either case and rendering the value reproduces it.
pub proof fn lemma_lower_value_fixed(c: char)
    requires
        bech32_lower_value(c) is Some,
    ensures
        lower_char(c) == c,
        bech32_char_value(c) == bech32_lower_value(c),
        charset_char(bech32_lower_value(c).unwrap()) == c,
{
    assert(!(65 <= c as u32 <= 90));
    lemma_value_charset_roundtrip(c, bech32_lower_value(c).unwrap());
}

} // verus!
