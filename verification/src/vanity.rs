//! The vanity address search: validating the requested prefix against the
//! bech32 alphabet, grinding a worker's 32-byte seed counter through the
//! diversifier space, and describing exactly which seed produced a hit.

use vstd::prelude::*;
use crate::caps;
use crate::caps::{addr_bytes_of, addr_search_ok, default_diversifier_of, sapling_dk_of, spk_derive_ok, spk_of};
use crate::derive::DeriveError;
use crate::encoding::{
    bech32_char_value, bech32_chars, charset_seq, hrp_usable, push_all, to5, to_5bit,
};
use crate::params::CoinParams;
use crate::records::{AddressKind, WalletRecord};

verus! {

// ---------------------------------------------------------------------------
// The 32-byte little-endian counter
// ---------------------------------------------------------------------------

/// A 32-byte counter incremented by one as a little-endian integer, wrapping
/// to all zeroes after the all-255 value: byte `j` steps exactly when every
/// lower byte was 255.
pub open spec fn inc_wrap(s: Seq<u8>) -> Seq<u8> {
    Seq::new(
        s.len(),
        |j: int|
            if forall|m: int| 0 <= m < j ==> s[m] == 255 {
                if s[j] == 255 {
                    0u8
                } else {
                    (s[j] + 1) as u8
                }
            } else {
                s[j]
            },
    )
}

/// The counter value reached after `n` increments.
pub open spec fn inc_iter(s: Seq<u8>, n: nat) -> Seq<u8>
    decreases n,
{
    if n == 0 {
        s
    } else {
        inc_wrap(inc_iter(s, (n - 1) as nat))
    }
}

/// Whether every byte of the counter is 255, so the next increment wraps the
/// whole space.
pub open spec fn all_max(s: Seq<u8>) -> bool {
    forall|j: int| 0 <= j < s.len() ==> s[j] == 255
}

/// The counter after an increment that stops at byte `k`: the bytes below
/// wrapped to zero, byte `k` stepped, the rest unchanged.
proof fn lemma_inc_wrap_at(prev: Seq<u8>, next: Seq<u8>, k: int)
    requires
        prev.len() == next.len(),
        0 <= k < prev.len(),
        forall|m: int| 0 <= m < k ==> prev[m] == 255,
        forall|m: int| 0 <= m < k ==> next[m] == 0,
        prev[k] != 255,
        next[k] == prev[k] + 1,
        forall|m: int| k < m < prev.len() ==> next[m] == prev[m],
    ensures
        next =~= inc_wrap(prev),
{
    assert forall|j: int| 0 <= j < prev.len() implies next[j] == inc_wrap(prev)[j] by {
        if j < k {
            assert(forall|m: int| 0 <= m < j ==> prev[m] == 255);
            assert(prev[j] == 255);
        } else if j == k {
            assert(forall|m: int| 0 <= m < j ==> prev[m] == 255);
        } else {
            assert(!(forall|m: int| 0 <= m < j ==> prev[m] == 255)) by {
                assert(0 <= k < j && prev[k] != 255);
            }
        }
    }
}

/// The counter after the increment that wraps the whole space.
proof fn lemma_inc_wrap_all(prev: Seq<u8>, next: Seq<u8>)
    requires
        prev.len() == next.len(),
        forall|m: int| 0 <= m < prev.len() ==> prev[m] == 255,
        forall|m: int| 0 <= m < prev.len() ==> next[m] == 0,
    ensures
        next =~= inc_wrap(prev),
{
    assert forall|j: int| 0 <= j < prev.len() implies next[j] == inc_wrap(prev)[j] by {
        assert(forall|m: int| 0 <= m < j ==> prev[m] == 255);
        assert(prev[j] == 255);
    }
}

/// Adds one to the 32-byte little-endian counter. `Err` reports that the
/// whole space wrapped around (the counter was all 255 and is now all zero).
pub fn increment(s: &mut [u8; 32]) -> (r: Result<(), ()>)
    ensures
        final(s)@ == inc_wrap(old(s)@),
        r is Err <==> all_max(old(s)@),
{
    let mut k: usize = 0;
    while k < 32
        invariant
            k <= 32,
            forall|j: int| 0 <= j < k ==> old(s)@[j] == 255,
            forall|j: int| 0 <= j < k ==> s@[j] == 0,
            forall|j: int| k <= j < 32 ==> s@[j] == old(s)@[j],
        decreases 32 - k,
    {
        let v = s[k];
        if v == 255 {
            s[k] = 0;
        } else {
            s[k] = v + 1;
            proof {
                lemma_inc_wrap_at(old(s)@, s@, k as int);
                assert(!all_max(old(s)@)) by {
                    assert(old(s)@[k as int] != 255);
                }
            }
            return Ok(());
        }
        k = k + 1;
    }
    proof {
        lemma_inc_wrap_all(old(s)@, s@);
    }
    Err(())
}

// ---------------------------------------------------------------------------
// Prefix validation
// ---------------------------------------------------------------------------

/// A rejected vanity prefix, carrying the first character outside the bech32
/// alphabet (`b`, `i`, `o` and `1` are never in it).
#[derive(Clone, Copy, PartialEq, Eq, Structural, Debug)]
pub struct PrefixError {
    pub bad_char: char,
}

/// Every character of the prefix is in the bech32 alphabet (either case).
pub open spec fn prefix_ok(p: Seq<char>) -> bool {
    forall|i: int| 0 <= i < p.len() ==> bech32_char_value(#[trigger] p[i]) is Some
}

/// The 5-bit values of a valid prefix, one per character.
pub open spec fn prefix_values(p: Seq<char>) -> Seq<u8> {
    Seq::new(p.len(), |i: int| bech32_char_value(p[i]).unwrap())
}

/// Turn the prefix into its 5-bit group values, so addresses can be matched
/// directly without any encoding overhead. Rejects the first character that
/// is not in the bech32 alphabet.
pub fn get_bech32_for_prefix(prefix: &str) -> (r: Result<Vec<u8>, PrefixError>)
    ensures
        r is Ok <==> prefix_ok(prefix@),
        r matches Ok(v) ==> v@ == prefix_values(prefix@) && forall|i: int|
            0 <= i < v@.len() ==> v@[i] < 32,
        r matches Err(e) ==> bech32_char_value(e.bad_char) is None && exists|i: int|
            0 <= i < prefix@.len() && prefix@[i] == e.bad_char && (forall|j: int|
                0 <= j < i ==> bech32_char_value(#[trigger] prefix@[j]) is Some),
{
    let len = prefix.unicode_len();
    let mut ans: Vec<u8> = Vec::new();
    let mut i: usize = 0;
    while i < len
        invariant
            i <= len,
            len == prefix@.len(),
            ans@.len() == i as nat,
            forall|j: int| 0 <= j < i ==> bech32_char_value(#[trigger] prefix@[j]) is Some,
            forall|j: int|
                0 <= j < i ==> ans@[j] == bech32_char_value(#[trigger] prefix@[j]).unwrap()
                    && ans@[j] < 32,
        decreases len - i,
    {
        let c = prefix.get_char(i);
        match crate::encoding::bech32_char_value_exec(c) {
            Some(v) => {
                ans.push(v);
            },
            None => {
                return Err(PrefixError { bad_char: c });
            },
        }
        i = i + 1;
    }
    proof {
        assert(ans@ =~= prefix_values(prefix@));
    }
    Ok(ans)
}

// ---------------------------------------------------------------------------
// The hit predicate
// ---------------------------------------------------------------------------

/// A seed value hits the requested prefix: its diversifier key's first valid
/// diversifier, rendered as 5-bit groups, starts with the prefix's values.
pub open spec fn vanity_hit(seed: Seq<u8>, p5: Seq<u8>) -> bool {
    match default_diversifier_of(sapling_dk_of(seed)) {
        Some(d) => p5.len() <= to5(d).len() && (forall|i: int|
            0 <= i < p5.len() ==> #[trigger] to5(d)[i] == p5[i]),
        None => false,
    }
}

/// The serialized spending key with its diversifier key part (the final 32
/// bytes) replaced.
pub open spec fn spliced(spkv: Seq<u8>, dk: Seq<u8>) -> Seq<u8> {
    spkv.subrange(0, 137) + dk
}

// ---------------------------------------------------------------------------
// The worker
// ---------------------------------------------------------------------------

/// A reason the vanity search could not start or continue.
#[derive(Clone, Copy, PartialEq, Eq, Structural, Debug)]
pub enum VanityError {
    Prefix(PrefixError),
    Derive(DeriveError),
}

/// What one batch of grinding produced: the winning record, a progress mark
/// after the whole batch missed, exhaustion of the counter space, or a
/// derivation-invariant failure that aborts the worker loudly.
pub enum VanityOutcome {
    Found(WalletRecord),
    Progress,
    Exhausted,
    Failed(DeriveError),
}

/// One grinding worker: a private seed counter, the serialized master
/// spending key derived once from the starting seed, and the prefix to
/// match. The ghost fields record the starting seed and how many increments
/// have been applied, so every outcome names the exact counter value.
pub struct VanityWorker {
    pub seed: [u8; 32],
    pub spkv: Vec<u8>,
    pub prefix5: Vec<u8>,
    pub coinparams: CoinParams,
    pub base: Ghost<Seq<u8>>,
    pub steps: Ghost<nat>,
}

impl VanityWorker {
    /// The worker's invariant: the master key matches the starting seed, the
    /// current counter is the starting seed incremented `steps` times, the
    /// prefix values are 5-bit groups, and the network prefixes are usable.
    pub open spec fn wf(&self) -> bool {
        &&& self.spkv@ == spk_of(self.base@, self.coinparams.cointype, 0)
        &&& self.spkv@.len() == 169
        &&& self.seed@ == inc_iter(self.base@, self.steps@)
        &&& forall|i: int| 0 <= i < self.prefix5@.len() ==> self.prefix5@[i] < 32
        &&& hrp_usable(self.coinparams.zaddress_prefix@)
        &&& hrp_usable(self.coinparams.zsecret_prefix@)
        &&& self.coinparams.cointype < 0x8000_0000u32
    }

    /// Starts a worker: validates the prefix, checks the network prefixes,
    /// and derives the fixed master spending key at child index zero.
    pub fn new(entropy: &[u8; 32], prefix: &str, coinparams: CoinParams) -> (r: Result<
        VanityWorker,
        VanityError,
    >)
        requires
            coinparams.cointype < 0x8000_0000u32,
        ensures
            r matches Ok(w) ==> {
                &&& w.wf()
                &&& w.base@ == entropy@
                &&& w.steps@ == 0
                &&& w.prefix5@ == prefix_values(prefix@)
                &&& w.coinparams == coinparams
            },
            r is Ok <==> prefix_ok(prefix@) && hrp_usable(coinparams.zaddress_prefix@)
                && hrp_usable(coinparams.zsecret_prefix@) && spk_derive_ok(
                entropy@,
                coinparams.cointype,
                0,
            ),
            (r matches Err(e) && e is Prefix) <==> !prefix_ok(prefix@),
            r matches Err(e) ==> (e matches VanityError::Prefix(p) ==> bech32_char_value(
                p.bad_char,
            ) is None && (exists|i: int| 0 <= i < prefix@.len() && prefix@[i] == p.bad_char)),
            (r matches Err(e) && e == VanityError::Derive(DeriveError::Encoding)) <==> prefix_ok(
                prefix@,
            ) && !(hrp_usable(coinparams.zaddress_prefix@) && hrp_usable(
                coinparams.zsecret_prefix@,
            )),
            (r matches Err(e) && e == VanityError::Derive(DeriveError::KeyDerivation))
                <==> prefix_ok(prefix@) && hrp_usable(coinparams.zaddress_prefix@) && hrp_usable(
                coinparams.zsecret_prefix@,
            ) && !spk_derive_ok(entropy@, coinparams.cointype, 0),
    {
        let prefix5 = match get_bech32_for_prefix(prefix) {
            Ok(v) => v,
            Err(e) => {
                return Err(VanityError::Prefix(e));
            },
        };
        if !(crate::derive::check_hrp(coinparams.zaddress_prefix.as_str())
            && crate::derive::check_hrp(coinparams.zsecret_prefix.as_str())) {
            return Err(VanityError::Derive(DeriveError::Encoding));
        }
        let spkv = match caps::sapling_spk_derive(entropy, coinparams.cointype, 0) {
            Some(v) => v,
            None => {
                return Err(VanityError::Derive(DeriveError::KeyDerivation));
            },
        };
        Ok(
            VanityWorker {
                seed: *entropy,
                spkv,
                prefix5,
                coinparams,
                base: Ghost(entropy@),
                steps: Ghost(0nat),
            },
        )
    }

    /// Grinds up to `n` counter increments. Each step increments the seed,
    /// derives the diversifier key and its first valid diversifier, and
    /// compares the diversifier's 5-bit groups against the prefix. A hit
    /// splices the new diversifier key into the serialized master key and
    /// encodes the winning record; a full batch without a hit reports
    /// progress, so the caller can poll a stop flag at exactly this
    /// boundary.
    pub fn run_batch(&mut self, n: u32) -> (r: VanityOutcome)
        requires
            old(self).wf(),
        ensures
            final(self).wf(),
            final(self).base@ == old(self).base@,
            final(self).spkv@ == old(self).spkv@,
            final(self).prefix5@ == old(self).prefix5@,
            final(self).coinparams == old(self).coinparams,
            final(self).steps@ >= old(self).steps@,
            r is Progress ==> final(self).steps@ == old(self).steps@ + n && (forall|t: nat|
                old(self).steps@ < t <= final(self).steps@ ==> !vanity_hit(
                    #[trigger] inc_iter(old(self).base@, t),
                    old(self).prefix5@,
                )),
            r matches VanityOutcome::Found(rec) ==> {
                &&& old(self).steps@ < final(self).steps@ <= old(self).steps@ + n
                &&& vanity_hit(
                    inc_iter(old(self).base@, final(self).steps@),
                    old(self).prefix5@,
                )
                &&& forall|t: nat|
                    old(self).steps@ < t < final(self).steps@ ==> !vanity_hit(
                        #[trigger] inc_iter(old(self).base@, t),
                        old(self).prefix5@,
                    )
                &&& rec.num == 0
                &&& rec.kind == AddressKind::Zaddr
                &&& rec.seed_info is None
                &&& rec.address@ == bech32_chars(
                    old(self).coinparams.zaddress_prefix@,
                    to5(
                        addr_bytes_of(
                            spliced(
                                old(self).spkv@,
                                sapling_dk_of(inc_iter(old(self).base@, final(self).steps@)),
                            ),
                        ),
                    ),
                )
                &&& rec.private_key@ == bech32_chars(
                    old(self).coinparams.zsecret_prefix@,
                    to5(
                        spliced(
                            old(self).spkv@,
                            sapling_dk_of(inc_iter(old(self).base@, final(self).steps@)),
                        ),
                    ),
                )
                &&& sapling_dk_of(inc_iter(old(self).base@, final(self).steps@)).len() == 32
                &&& addr_bytes_of(
                    spliced(
                        old(self).spkv@,
                        sapling_dk_of(inc_iter(old(self).base@, final(self).steps@)),
                    ),
                ).len() == 43
                &&& default_diversifier_of(
                    spliced(
                        old(self).spkv@,
                        sapling_dk_of(inc_iter(old(self).base@, final(self).steps@)),
                    ).subrange(137, 169),
                ) == Some(
                    addr_bytes_of(
                        spliced(
                            old(self).spkv@,
                            sapling_dk_of(inc_iter(old(self).base@, final(self).steps@)),
                        ),
                    ).subrange(0, 11),
                )
            },
            r is Exhausted ==> {
                &&& old(self).steps@ < final(self).steps@ <= old(self).steps@ + n
                &&& all_max(inc_iter(old(self).base@, (final(self).steps@ - 1) as nat))
                &&& forall|t: nat|
                    old(self).steps@ < t < final(self).steps@ ==> !vanity_hit(
                        #[trigger] inc_iter(old(self).base@, t),
                        old(self).prefix5@,
                    )
            },
            r matches VanityOutcome::Failed(e) ==> {
                &&& old(self).steps@ < final(self).steps@ <= old(self).steps@ + n
                &&& forall|t: nat|
                    old(self).steps@ < t < final(self).steps@ ==> !vanity_hit(
                        #[trigger] inc_iter(old(self).base@, t),
                        old(self).prefix5@,
                    )
                &&& (e == DeriveError::AddressSearch ==> default_diversifier_of(
                    sapling_dk_of(inc_iter(old(self).base@, final(self).steps@)),
                ) is None)
                &&& (e == DeriveError::KeyDerivation ==> vanity_hit(
                    inc_iter(old(self).base@, final(self).steps@),
                    old(self).prefix5@,
                ) && !addr_search_ok(
                    spliced(
                        old(self).spkv@,
                        sapling_dk_of(inc_iter(old(self).base@, final(self).steps@)),
                    ),
                ))
            },
    {
        let ghost b = self.base@;
        let ghost p5 = self.prefix5@;
        let mut i: u32 = 0;
        while i < n
            invariant
                self.wf(),
                i <= n,
                self.base@ == old(self).base@,
                self.spkv@ == old(self).spkv@,
                self.prefix5@ == old(self).prefix5@,
                self.coinparams == old(self).coinparams,
                b == old(self).base@,
                p5 == old(self).prefix5@,
                self.steps@ == old(self).steps@ + i,
                forall|t: nat|
                    old(self).steps@ < t <= self.steps@ ==> !vanity_hit(
                        #[trigger] inc_iter(b, t),
                        p5,
                    ),
            decreases n - i,
        {
            let stepped = increment(&mut self.seed);
            proof {
                self.steps@ = self.steps@ + 1;
                assert(inc_iter(b, self.steps@) == inc_wrap(inc_iter(b, (self.steps@ - 1) as nat)));
            }
            if stepped.is_err() {
                return VanityOutcome::Exhausted;
            }

            let dk = caps::sapling_dk_master(&self.seed);
            let dopt = caps::sapling_find_default_diversifier(&dk);
            let d = match dopt {
                Some(d) => d,
                None => {
                    return VanityOutcome::Failed(DeriveError::AddressSearch);
                },
            };
            let d5 = to_5bit(d.as_slice());
            if seq_starts_with(&self.prefix5, &d5) {
                let mut sp: Vec<u8> = Vec::new();
                let mut idx: usize = 0;
                while idx < 137
                    invariant
                        idx <= 137,
                        self.spkv@.len() == 169,
                        sp@ =~= self.spkv@.subrange(0, idx as int),
                    decreases 137 - idx,
                {
                    sp.push(self.spkv[idx]);
                    idx = idx + 1;
                }
                push_all(&mut sp, dk.as_slice());
                proof {
                    assert(sp@ =~= spliced(self.spkv@, sapling_dk_of(self.seed@)));
                }
                let addr_bytes = match caps::sapling_spk_address(&sp) {
                    Some(v) => v,
                    None => {
                        return VanityOutcome::Failed(DeriveError::KeyDerivation);
                    },
                };
                let a5 = to_5bit(addr_bytes.as_slice());
                let address = match caps::bech32_encode(self.coinparams.zaddress_prefix.as_str(), &a5) {
                    Some(s) => s,
                    None => vstd::pervasive::unreached(),
                };
                let k5 = to_5bit(sp.as_slice());
                let private_key = match caps::bech32_encode(self.coinparams.zsecret_prefix.as_str(), &k5) {
                    Some(s) => s,
                    None => vstd::pervasive::unreached(),
                };
                return VanityOutcome::Found(
                    WalletRecord {
                        num: 0,
                        address,
                        private_key,
                        kind: AddressKind::Zaddr,
                        seed_info: None,
                    },
                );
            }
            i = i + 1;
        }
        VanityOutcome::Progress
    }
}

/// Whether the first sequence is a prefix of the second.
fn seq_starts_with(p: &Vec<u8>, d: &Vec<u8>) -> (r: bool)
    ensures
        r == (p@.len() <= d@.len() && (forall|i: int| 0 <= i < p@.len() ==> #[trigger] d@[i]
            == p@[i])),
{
    if p.len() > d.len() {
        return false;
    }
    let mut i: usize = 0;
    while i < p.len()
        invariant
            i <= p@.len() <= d@.len(),
            forall|j: int| 0 <= j < i ==> #[trigger] d@[j] == p@[j],
        decreases p@.len() - i,
    {
        if p[i] != d[i] {
            return false;
        }
        i = i + 1;
    }
    true
}

/// Wraps the single winning vanity record as the returned record set.
pub fn assemble_vanity(rec: WalletRecord) -> (r: Vec<WalletRecord>)
    ensures
        r@.len() == 1,
        r@[0] == rec,
{
    let mut v: Vec<WalletRecord> = Vec::new();
    v.push(rec);
    v
}

// ---------------------------------------------------------------------------
// Progress estimation
// ---------------------------------------------------------------------------

/// The number of prefix combinations of a given length: 32 to that power.
pub open spec fn pow32(e: nat) -> nat
    decreases e,
{
    if e == 0 {
        1
    } else {
        32 * pow32((e - 1) as nat)
    }
}

/// The combination count saturated to the widest machine integer.
pub open spec fn sat_pow32(e: nat) -> nat {
    if pow32(e) > u64::MAX {
        u64::MAX as nat
    } else {
        pow32(e)
    }
}

/// `32^e`, saturating at the largest representable value.
pub fn pow32_saturating(e: u64) -> (r: u64)
    ensures
        r as nat == sat_pow32(e as nat),
{
    let mut r: u64 = 1;
    let mut i: u64 = 0;
    while i < e
        invariant
            i <= e,
            r as nat == sat_pow32(i as nat),
            r >= 1,
        decreases e - i,
    {
        if r > u64::MAX / 32 {
            proof {
                assert(pow32((i + 1) as nat) == 32 * pow32(i as nat));
                assert(pow32(i as nat) >= r as nat);
                assert(32 * pow32(i as nat) > u64::MAX) by (nonlinear_arith)
                    requires
                        pow32(i as nat) >= r as nat,
                        r > u64::MAX / 32,
                        r >= 1,
                {
                }
                lemma_pow32_mono((i + 1) as nat, e as nat);
            }
            return u64::MAX;
        }
        proof {
            assert(pow32((i + 1) as nat) == 32 * pow32(i as nat));
            assert(32 * (r as nat) <= u64::MAX) by (nonlinear_arith)
                requires
                    r <= u64::MAX / 32,
                {
            }
        }
        r = r * 32;
        i = i + 1;
    }
    r
}

/// The combination count never shrinks as the exponent grows.
proof fn lemma_pow32_mono(a: nat, b: nat)
    requires
        a <= b,
    ensures
        pow32(a) <= pow32(b),
    decreases b,
{
    if a < b {
        lemma_pow32_mono(a, (b - 1) as nat);
        assert(pow32(b) == 32 * pow32((b - 1) as nat));
        assert(pow32((b - 1) as nat) <= 32 * pow32((b - 1) as nat)) by (nonlinear_arith)
            requires
                pow32((b - 1) as nat) >= 0,
            {
        }
    }
}

/// The informational completion estimate: combinations to search divided by
/// the observed rate, where the rate is the processed count over the elapsed
/// seconds with a one-second floor. Saturates instead of overflowing or
/// dividing by zero; it never affects correctness or termination.
pub open spec fn eta_spec(prefix_len: nat, processed: nat, elapsed_secs: nat) -> nat {
    let rate = processed / (elapsed_secs + 1);
    if rate == 0 {
        u64::MAX as nat
    } else {
        sat_pow32(prefix_len) / rate
    }
}

/// Estimated seconds until a vanity hit, from the accumulated progress.
pub fn eta_seconds(prefix_len: u64, processed: u64, elapsed_secs: u64) -> (r: u64)
    requires
        elapsed_secs < u64::MAX,
    ensures
        r as nat == eta_spec(prefix_len as nat, processed as nat, elapsed_secs as nat),
{
    let rate = processed / (elapsed_secs + 1);
    if rate == 0 {
        u64::MAX
    } else {
        let expected = pow32_saturating(prefix_len);
        expected / rate
    }
}

/// The scaled value and unit index of a duration: seconds, then minutes,
/// hours, days, months and years, stepping a unit whenever the value
/// exceeds that unit's span, with integer division.
pub open spec fn duration_scaled(secs: nat) -> (nat, int) {
    if secs <= 60 {
        (secs, 0)
    } else if secs / 60 <= 60 {
        (secs / 60, 1)
    } else if secs / 60 / 60 <= 24 {
        (secs / 60 / 60, 2)
    } else if secs / 60 / 60 / 24 <= 30 {
        (secs / 60 / 60 / 24, 3)
    } else if secs / 60 / 60 / 24 / 30 <= 12 {
        (secs / 60 / 60 / 24 / 30, 4)
    } else {
        (secs / 60 / 60 / 24 / 30 / 12, 5)
    }
}

/// The unit name of each unit index.
pub open spec fn duration_unit_chars(u: int) -> Seq<char> {
    if u == 0 {
        "sec"@
    } else if u == 1 {
        "min"@
    } else if u == 2 {
        "hours"@
    } else if u == 3 {
        "days"@
    } else if u == 4 {
        "months"@
    } else {
        "years"@
    }
}

/// Renders a duration as a value and a unit name, for progress display.
pub fn pretty_duration(secs: u64) -> (r: (String, String))
    ensures
        r.0@ == crate::encoding::ascii_chars(
            crate::encoding::dec_bytes(duration_scaled(secs as nat).0),
        ),
        r.1@ == duration_unit_chars(duration_scaled(secs as nat).1),
{
    let mut value: u64 = secs;
    let unit: &str;
    if value <= 60 {
        unit = "sec";
    } else {
        value = value / 60;
        if value <= 60 {
            unit = "min";
        } else {
            value = value / 60;
            if value <= 24 {
                unit = "hours";
            } else {
                value = value / 24;
                if value <= 30 {
                    unit = "days";
                } else {
                    value = value / 30;
                    if value <= 12 {
                        unit = "months";
                    } else {
                        value = value / 12;
                        unit = "years";
                    }
                }
            }
        }
    }
    let digits = crate::encoding::u64_decimal(value);
    proof {
        crate::encoding::lemma_dec_bytes_ascii(value as nat);
    }
    let number = caps::ascii_string(digits);
    proof {
        assert(number@ =~= crate::encoding::ascii_chars(
            crate::encoding::dec_bytes(duration_scaled(secs as nat).0),
        ));
    }
    (number, unit.to_owned())
}

// ---------------------------------------------------------------------------
// The vanity prefix law
// ---------------------------------------------------------------------------

/// Every address the vanity search returns begins with the network's
/// shielded prefix, the bech32 separator, and the lowercase rendering of the
/// requested prefix (its own characters, when it is already lowercase): the
/// matched diversifier fills the first eleven bytes of the raw address, and
/// those bytes alone determine the first seventeen 5-bit groups of its
/// rendering. Holds for valid prefixes of at most 17 characters (an 18th
/// group would also read bits of the transmission key); the hypotheses about
/// lengths and the diversifier are the facts the search hands to every
/// caller along with the record.
pub proof fn lemma_vanity_address_prefix(
    addr: Seq<char>,
    hrp: Seq<char>,
    prefix: Seq<char>,
    spkv: Seq<u8>,
    seed: Seq<u8>,
)
    requires
        spkv.len() == 169,
        prefix.len() <= 17,
        prefix_ok(prefix),
        vanity_hit(seed, prefix_values(prefix)),
        sapling_dk_of(seed).len() == 32,
        addr_bytes_of(spliced(spkv, sapling_dk_of(seed))).len() == 43,
        default_diversifier_of(spliced(spkv, sapling_dk_of(seed)).subrange(137, 169)) == Some(
            addr_bytes_of(spliced(spkv, sapling_dk_of(seed))).subrange(0, 11),
        ),
        addr == bech32_chars(hrp, to5(addr_bytes_of(spliced(spkv, sapling_dk_of(seed))))),
    ensures
        addr.subrange(0, hrp.len() + 1 + prefix.len() as int) == hrp + seq!['1'] + Seq::new(
            prefix.len(),
            |i: int| crate::encoding::lower_char(prefix[i]),
        ),
{
    let p5 = prefix_values(prefix);
    let dk = sapling_dk_of(seed);
    let a43 = addr_bytes_of(spliced(spkv, dk));
    assert(spliced(spkv, dk).subrange(137, 169) =~= dk);
    let d = a43.subrange(0, 11);
    assert(default_diversifier_of(dk) == Some(d));
    assert(p5.len() == prefix.len());
    assert(a43.subrange(0, d.len() as int) == d);
    assert forall|i: int| 0 <= i < p5.len() implies #[trigger] to5(a43)[i] == p5[i] by {
        assert(0 <= 5 * i + 4 < 88);
        crate::encoding::lemma_to5_prefix(a43, d, i);
        assert(to5(d)[i] == p5[i]);
    }
    assert forall|i: int| 0 <= i < prefix.len() implies charset_seq(to5(a43))[i]
        == crate::encoding::lower_char(prefix[i]) by {
        let lc = crate::encoding::lower_char(prefix[i]);
        assert(bech32_char_value(prefix[i]) == crate::encoding::bech32_lower_value(lc));
        crate::encoding::lemma_lower_value_fixed(lc);
        assert(p5[i] == bech32_char_value(prefix[i]).unwrap());
    }
    assert(to5(a43).len() == 69);
    assert(addr.subrange(0, hrp.len() + 1 + prefix.len() as int) =~= hrp + seq!['1'] + Seq::new(
        prefix.len(),
        |i: int| crate::encoding::lower_char(prefix[i]),
    ));
}

} // verus!
