//! The wallet assembler: mixes entropy into a seed, applies a seed-selection
//! policy, and builds the ordered record set of shielded and transparent
//! addresses that the generation entry point returns.

use vstd::prelude::*;
use crate::caps;
use crate::caps::{chacha32_of, secp_sk_valid, sha256_of};
use crate::derive::{
    get_taddress, get_zaddress, hrps_usable, taddr_address_chars, taddr_key_chars,
    zaddr_address_chars, zaddr_derivable, zaddr_key_chars, zaddr_path_bytes, DeriveError,
};
use crate::encoding::{ascii_chars, double_sha256, hex_of, hrp_usable, push_all};
use crate::params::CoinParams;
use crate::records::{AddressKind, SeedInfo, WalletRecord};

verus! {

// ---------------------------------------------------------------------------
// Seed mixing
// ---------------------------------------------------------------------------

/// The final 32-byte seed mixed from system and user entropy: one hash pass
/// over the concatenation, then a double hash of the digest.
pub open spec fn mixed_seed_of(sys: Seq<u8>, user: Seq<u8>) -> Seq<u8> {
    sha256_of(sha256_of(sha256_of(sys + user)))
}

/// Mixes the given system entropy with caller-supplied entropy into the
/// final seed. Deterministic given both inputs.
pub fn mix_entropy(system: &[u8; 32], user: &[u8]) -> (r: [u8; 32])
    ensures
        r@ == mixed_seed_of(system@, user@),
{
    let mut buf: Vec<u8> = Vec::new();
    push_all(&mut buf, system.as_slice());
    push_all(&mut buf, user);
    let h1 = caps::sha256(buf.as_slice());
    let h2 = double_sha256(h1.as_slice());
    let mut out: [u8; 32] = [0; 32];
    let mut i: usize = 0;
    while i < 32
        invariant
            i <= 32,
            h2@.len() == 32,
            h2@ == mixed_seed_of(system@, user@),
            forall|k: int| 0 <= k < i ==> out@[k] == h2@[k],
        decreases 32 - i,
    {
        out[i] = h2[i];
        i = i + 1;
    }
    proof {
        assert(out@ =~= mixed_seed_of(system@, user@));
    }
    out
}

/// Gathers 32 bytes of process-external randomness and mixes them with the
/// caller's entropy. If the randomness source is unavailable the system part
/// silently falls back to an all-zero seed: callers relying on security must
/// supply strong entropy of their own.
pub fn mix_seed(user_entropy: &[u8]) -> (r: [u8; 32])
    ensures
        exists|sys: Seq<u8>| sys.len() == 32 && r@ == mixed_seed_of(sys, user_entropy@),
{
    let system: [u8; 32] = match caps::os_entropy32() {
        Some(s) => s,
        None => [0; 32],
    };
    let r = mix_entropy(&system, user_entropy);
    proof {
        assert(system@.len() == 32 && r@ == mixed_seed_of(system@, user_entropy@));
    }
    r
}

// ---------------------------------------------------------------------------
// Seed-selection policy
// ---------------------------------------------------------------------------

/// How the assembler picks the seed for each hierarchical record: reuse one
/// seed with increasing child indices, or draw a fresh seed per record and
/// always derive child zero.
pub enum SeedPolicy {
    Reuse([u8; 32]),
    PerIndexFresh,
}

/// The seed and child index used for record `index` under the policy.
pub fn get_seed(policy: &SeedPolicy, rng: &mut caps::SeedStream, index: u32) -> (r: ([u8; 32], u32))
    ensures
        final(rng)@.seed == old(rng)@.seed,
        policy matches SeedPolicy::Reuse(s) ==> r.0@ == s@ && r.1 == index && final(rng)@.draws
            == old(rng)@.draws,
        policy is PerIndexFresh ==> r.0@ == chacha32_of(old(rng)@.seed, old(rng)@.draws) && r.1
            == 0 && final(rng)@.draws == old(rng)@.draws + 1,
{
    match policy {
        SeedPolicy::Reuse(s) => (*s, index),
        SeedPolicy::PerIndexFresh => (rng.fill32(), 0),
    }
}

// ---------------------------------------------------------------------------
// Record-set description
// ---------------------------------------------------------------------------

/// A hierarchical record derived from `seed` at child index `child`, holding
/// the seed information for auditability.
pub open spec fn z_record_matches(
    rec: WalletRecord,
    i: u32,
    seed: Seq<u8>,
    child: u32,
    p: CoinParams,
) -> bool {
    &&& rec.num == i
    &&& rec.kind == AddressKind::Zaddr
    &&& rec.address@ == zaddr_address_chars(p.zaddress_prefix@, seed, p.cointype, child)
    &&& rec.private_key@ == zaddr_key_chars(p.zsecret_prefix@, seed, p.cointype, child)
    &&& rec.seed_info matches Some(info) && info.hd_seed@ == hex_of(seed) && info.path@
        == ascii_chars(zaddr_path_bytes(p.cointype, child))
}

/// A transparent record encoded from the secret scalar `sk`.
pub open spec fn t_record_matches(
    rec: WalletRecord,
    j: u32,
    version: Seq<u8>,
    prefix: Seq<u8>,
    sk: Seq<u8>,
) -> bool {
    &&& rec.num == j
    &&& rec.kind == AddressKind::Taddr
    &&& rec.seed_info is None
    &&& secp_sk_valid(sk)
    &&& rec.address@ == taddr_address_chars(version, sk)
    &&& rec.private_key@ == taddr_key_chars(prefix, sk)
}

/// One step of the transparent key search over the deterministic stream:
/// the draws from `a` up to `b - 1` are invalid scalars and draw `b - 1` is
/// the valid one that the record uses.
pub open spec fn cuts_step_ok(seed: Seq<u8>, a: nat, b: nat) -> bool {
    &&& a < b
    &&& secp_sk_valid(chacha32_of(seed, (b - 1) as nat))
    &&& forall|k: nat| a <= k < b - 1 ==> !secp_sk_valid(#[trigger] chacha32_of(seed, k))
}

/// The transparent records of a record set, described by the cut points of
/// the deterministic stream: record `j` uses the first valid scalar drawn at
/// or after cut `j`, and the stream is consumed strictly in record order.
pub open spec fn t_records_cuts_ok(
    recs: Seq<WalletRecord>,
    zcount: int,
    tcount: int,
    tseed: Seq<u8>,
    p: CoinParams,
    cuts: Seq<nat>,
) -> bool {
    &&& cuts.len() == tcount + 1
    &&& cuts[0] == 0
    &&& forall|j: int| 0 <= j < tcount ==> cuts_step_ok(tseed, #[trigger] cuts[j], cuts[j + 1])
    &&& forall|j: int|
        0 <= j < tcount ==> t_record_matches(
            #[trigger] recs[zcount + j],
            j as u32,
            p.taddress_version@,
            p.tsecret_prefix@,
            chacha32_of(tseed, (cuts[j + 1] - 1) as nat),
        )
}

/// The transparent records come, in order, from the single deterministic
/// stream seeded with `tseed`.
pub open spec fn t_records_ok(
    recs: Seq<WalletRecord>,
    zcount: int,
    tcount: int,
    tseed: Seq<u8>,
    p: CoinParams,
) -> bool {
    exists|cuts: Seq<nat>| t_records_cuts_ok(recs, zcount, tcount, tseed, p, cuts)
}

/// The whole record set produced from the mixed seed `mix`: `zcount`
/// hierarchical records first, then `tcount` transparent records numbered
/// from zero again, all from the one stream that `mix` determines.
pub open spec fn wallet_matches(
    recs: Seq<WalletRecord>,
    nohd: bool,
    zcount: u32,
    tcount: u32,
    mix: Seq<u8>,
    p: CoinParams,
) -> bool {
    &&& recs.len() == zcount + tcount
    &&& forall|i: int|
        0 <= i < zcount ==> z_record_matches(
            #[trigger] recs[i],
            i as u32,
            if nohd {
                chacha32_of(mix, (i + 1) as nat)
            } else {
                chacha32_of(mix, 0)
            },
            if nohd {
                0u32
            } else {
                i as u32
            },
            p,
        )
    &&& t_records_ok(recs, zcount as int, tcount as int, chacha32_of(mix, 0), p)
}

/// The seed the policy yields for record `i`, over the stream's state
/// before the assembler ran.
pub open spec fn policy_seed(policy: SeedPolicy, rng0: crate::caps::StreamModel, i: int) -> Seq<
    u8,
> {
    match policy {
        SeedPolicy::Reuse(s) => s@,
        SeedPolicy::PerIndexFresh => chacha32_of(rng0.seed, (rng0.draws + i + 1) as nat),
    }
}

/// The child index the policy yields for record `i`.
pub open spec fn policy_child(policy: SeedPolicy, i: int) -> u32 {
    match policy {
        SeedPolicy::Reuse(_) => i as u32,
        SeedPolicy::PerIndexFresh => 0u32,
    }
}

/// The seed of the transparent stream under the policy: the policy's seed
/// for record zero.
pub open spec fn policy_t_seed(policy: SeedPolicy, rng0: crate::caps::StreamModel) -> Seq<u8> {
    match policy {
        SeedPolicy::Reuse(s) => s@,
        SeedPolicy::PerIndexFresh => chacha32_of(rng0.seed, rng0.draws),
    }
}

/// The transparent stream gives up: after a (possibly empty) chain of
/// successful searches covering fewer records than asked, the next search
/// meets only invalid scalars for its whole bounded range of draws.
pub open spec fn t_stream_gives_up(tseed: Seq<u8>, tcount: int) -> bool {
    exists|cuts: Seq<nat>|
        {
            &&& 1 <= #[trigger] cuts.len() <= tcount
            &&& cuts[0] == 0
            &&& forall|j: int|
                0 <= j < cuts.len() - 1 ==> cuts_step_ok(tseed, #[trigger] cuts[j], cuts[j + 1])
            &&& forall|k: nat|
                cuts.last() <= k < cuts.last() + 0x1_0000_0000 ==> !secp_sk_valid(
                    #[trigger] chacha32_of(tseed, k),
                )
        }
}

/// Whether the derivation capability fails on the seed and child index
/// that record `i` uses under the mixed seed `mix`.
pub open spec fn z_step_fails(nohd: bool, mix: Seq<u8>, p: CoinParams, i: int) -> bool {
    !zaddr_derivable(
        if nohd {
            chacha32_of(mix, (i + 1) as nat)
        } else {
            chacha32_of(mix, 0)
        },
        p.cointype,
        if nohd {
            0u32
        } else {
            i as u32
        },
    )
}

/// A named failure of the generation pipeline under the mixed seed `mix`:
/// some hierarchical record's derivation capability fails, or the
/// transparent stream gives up.
pub open spec fn wallet_failure(
    nohd: bool,
    zcount: u32,
    tcount: u32,
    mix: Seq<u8>,
    p: CoinParams,
) -> bool {
    ||| exists|i: int| 0 <= i < zcount && #[trigger] z_step_fails(nohd, mix, p, i)
    ||| t_stream_gives_up(chacha32_of(mix, 0), tcount as int)
}

// ---------------------------------------------------------------------------
// The assembler
// ---------------------------------------------------------------------------

/// Generate `zcount` hierarchical records, their seeds chosen by `policy`,
/// followed by `tcount` transparent records drawn from one deterministic
/// stream seeded with the policy's seed for record zero. Transparent record
/// numbering restarts at zero. No record, once appended, is ever changed.
pub fn gen_addresses_with_seed(
    zcount: u32,
    tcount: u32,
    policy: &SeedPolicy,
    rng: &mut caps::SeedStream,
    coinparams: &CoinParams,
) -> (r: Result<Vec<WalletRecord>, DeriveError>)
    requires
        coinparams.cointype < 0x8000_0000u32,
        zcount <= 0x8000_0000u32,
    ensures
        final(rng)@.seed == old(rng)@.seed,
        r matches Ok(recs) ==> {
            &&& recs@.len() == zcount + tcount
            &&& (policy matches SeedPolicy::Reuse(s) ==> (forall|i: int|
                0 <= i < zcount ==> z_record_matches(
                    #[trigger] recs@[i],
                    i as u32,
                    s@,
                    i as u32,
                    *coinparams,
                )) && t_records_ok(recs@, zcount as int, tcount as int, s@, *coinparams) && final(rng)@.draws == old(rng)@.draws)
            &&& (policy is PerIndexFresh ==> (forall|i: int|
                0 <= i < zcount ==> z_record_matches(
                    #[trigger] recs@[i],
                    i as u32,
                    chacha32_of(old(rng)@.seed, (old(rng)@.draws + i + 1) as nat),
                    0u32,
                    *coinparams,
                )) && t_records_ok(
                recs@,
                zcount as int,
                tcount as int,
                chacha32_of(old(rng)@.seed, old(rng)@.draws),
                *coinparams,
            ) && final(rng)@.draws == old(rng)@.draws + zcount + 1)
        },
        r == Err::<Vec<WalletRecord>, DeriveError>(DeriveError::Encoding) <==> zcount > 0
            && !hrps_usable(*coinparams),
        r is Err ==> {
            ||| zcount > 0 && !hrps_usable(*coinparams)
            ||| exists|i: int|
                0 <= i < zcount && !zaddr_derivable(
                    #[trigger] policy_seed(*policy, old(rng)@, i),
                    coinparams.cointype,
                    policy_child(*policy, i),
                )
            ||| t_stream_gives_up(policy_t_seed(*policy, old(rng)@), tcount as int)
        },
{
    let (rng_seed, _child0) = get_seed(policy, rng, 0);
    let ghost t_seed: Seq<u8> = rng_seed@;

    let mut ans: Vec<WalletRecord> = Vec::new();
    let mut i: u32 = 0;
    while i < zcount
        invariant
            i <= zcount,
            zcount <= 0x8000_0000u32,
            coinparams.cointype < 0x8000_0000u32,
            ans@.len() == i as nat,
            rng@.seed == old(rng)@.seed,
            policy matches SeedPolicy::Reuse(s) ==> t_seed == s@ && rng@.draws == old(rng)@.draws && (forall|k: int|
                0 <= k < i ==> z_record_matches(
                    #[trigger] ans@[k],
                    k as u32,
                    s@,
                    k as u32,
                    *coinparams,
                )),
            policy is PerIndexFresh ==> t_seed == chacha32_of(old(rng)@.seed, old(rng)@.draws)
                && rng@.draws == old(rng)@.draws + i + 1 && (forall|k: int|
                0 <= k < i ==> z_record_matches(
                    #[trigger] ans@[k],
                    k as u32,
                    chacha32_of(old(rng)@.seed, (old(rng)@.draws + k + 1) as nat),
                    0u32,
                    *coinparams,
                )),
            i > 0 ==> hrp_usable(coinparams.zaddress_prefix@) && hrp_usable(
                coinparams.zsecret_prefix@,
            ) && hrp_usable(coinparams.zviewkey_prefix@),
        decreases zcount - i,
    {
        let (seed_i, child) = get_seed(policy, rng, i);
        let derived = match get_zaddress(&seed_i, child, coinparams) {
            Ok(d) => d,
            Err(e) => {
                proof {
                    assert(seed_i@ == policy_seed(*policy, old(rng)@, i as int));
                    assert(child == policy_child(*policy, i as int));
                    if e != DeriveError::Encoding {
                        assert(hrps_usable(*coinparams));
                        assert(!zaddr_derivable(
                            policy_seed(*policy, old(rng)@, i as int),
                            coinparams.cointype,
                            policy_child(*policy, i as int),
                        ));
                    }
                }
                return Err(e);
            },
        };
        let (address, private_key, _view_key, info) = derived;
        ans.push(
            WalletRecord {
                num: i,
                address,
                private_key,
                kind: AddressKind::Zaddr,
                seed_info: Some(info),
            },
        );
        i = i + 1;
    }

    let mut trng = caps::SeedStream::from_seed(&rng_seed);
    let ghost mut cuts: Seq<nat> = seq![0nat];
    let mut j: u32 = 0;
    while j < tcount
        invariant
            j <= tcount,
            ans@.len() == zcount + j,
            rng@.seed == old(rng)@.seed,
            trng@.seed == t_seed,
            cuts.len() == j + 1,
            cuts[0] == 0,
            cuts.last() == trng@.draws,
            forall|k: int| 0 <= k < j ==> cuts_step_ok(t_seed, #[trigger] cuts[k], cuts[k + 1]),
            forall|k: int|
                0 <= k < j ==> t_record_matches(
                    #[trigger] ans@[zcount + k],
                    k as u32,
                    coinparams.taddress_version@,
                    coinparams.tsecret_prefix@,
                    chacha32_of(t_seed, (cuts[k + 1] - 1) as nat),
                ),
            policy matches SeedPolicy::Reuse(s) ==> t_seed == s@ && rng@.draws == old(rng)@.draws && (forall|k: int|
                0 <= k < zcount ==> z_record_matches(
                    #[trigger] ans@[k],
                    k as u32,
                    s@,
                    k as u32,
                    *coinparams,
                )),
            policy is PerIndexFresh ==> t_seed == chacha32_of(old(rng)@.seed, old(rng)@.draws)
                && rng@.draws == old(rng)@.draws + zcount + 1 && (forall|k: int|
                0 <= k < zcount ==> z_record_matches(
                    #[trigger] ans@[k],
                    k as u32,
                    chacha32_of(old(rng)@.seed, (old(rng)@.draws + k + 1) as nat),
                    0u32,
                    *coinparams,
                )),
            zcount > 0 ==> hrp_usable(coinparams.zaddress_prefix@) && hrp_usable(
                coinparams.zsecret_prefix@,
            ) && hrp_usable(coinparams.zviewkey_prefix@),
        decreases tcount - j,
    {
        let ghost pre_draws = trng@.draws;
        let drawn = match get_taddress(&mut trng, coinparams) {
            Ok(t) => t,
            Err(e) => {
                proof {
                    assert(cuts.last() == pre_draws);
                    assert(1 <= cuts.len() <= tcount);
                    assert(forall|k: nat|
                        cuts.last() <= k < cuts.last() + 0x1_0000_0000 ==> !secp_sk_valid(
                            #[trigger] chacha32_of(t_seed, k),
                        ));
                    assert(t_stream_gives_up(t_seed, tcount as int));
                    assert(t_seed == policy_t_seed(*policy, old(rng)@));
                }
                return Err(e);
            },
        };
        let (address, private_key) = drawn;
        ans.push(
            WalletRecord { num: j, address, private_key, kind: AddressKind::Taddr, seed_info: None },
        );
        proof {
            cuts = cuts.push(trng@.draws);
        }
        j = j + 1;
    }
    proof {
        assert(t_records_cuts_ok(
            ans@,
            zcount as int,
            tcount as int,
            t_seed,
            *coinparams,
            cuts,
        ));
    }
    Ok(ans)
}

/// Generate a series of addresses and private keys from mixed entropy: the
/// hierarchical records first (one reused seed unless `nohd` asks for a
/// fresh seed per record), then the transparent records, all reproducible
/// from the mixed seed.
pub fn generate_wallet(
    nohd: bool,
    zcount: u32,
    tcount: u32,
    user_entropy: &[u8],
    coinparams: &CoinParams,
) -> (r: Result<Vec<WalletRecord>, DeriveError>)
    requires
        coinparams.cointype < 0x8000_0000u32,
        zcount <= 0x8000_0000u32,
    ensures
        r matches Ok(recs) ==> exists|sys: Seq<u8>|
            sys.len() == 32 && wallet_matches(
                recs@,
                nohd,
                zcount,
                tcount,
                mixed_seed_of(sys, user_entropy@),
                *coinparams,
            ),
        r == Err::<Vec<WalletRecord>, DeriveError>(DeriveError::Encoding) <==> zcount > 0
            && !hrps_usable(*coinparams),
        r is Err ==> (zcount > 0 && !hrps_usable(*coinparams)) || exists|sys: Seq<u8>|
            sys.len() == 32 && wallet_failure(
                nohd,
                zcount,
                tcount,
                mixed_seed_of(sys, user_entropy@),
                *coinparams,
            ),
{
    let final_entropy = mix_seed(user_entropy);
    let ghost mix: Seq<u8> = final_entropy@;
    let mut rng = caps::SeedStream::from_seed(&final_entropy);
    if !nohd {
        let hd_seed = rng.fill32();
        let ghost pre = rng@;
        let r = gen_addresses_with_seed(
            zcount,
            tcount,
            &SeedPolicy::Reuse(hd_seed),
            &mut rng,
            coinparams,
        );
        proof {
            let sys = choose|sys: Seq<u8>|
                sys.len() == 32 && mix == mixed_seed_of(sys, user_entropy@);
            let m = mixed_seed_of(sys, user_entropy@);
            if r is Ok {
                let recs = r->Ok_0;
                assert(wallet_matches(recs@, nohd, zcount, tcount, m, *coinparams));
            } else if !(zcount > 0 && !hrps_usable(*coinparams)) {
                let pol = SeedPolicy::Reuse(hd_seed);
                assert(hd_seed@ == chacha32_of(m, 0));
                if exists|i: int|
                    0 <= i < zcount && !zaddr_derivable(
                        #[trigger] policy_seed(pol, pre, i),
                        coinparams.cointype,
                        policy_child(pol, i),
                    ) {
                    let i0 = choose|i: int|
                        0 <= i < zcount && !zaddr_derivable(
                            #[trigger] policy_seed(pol, pre, i),
                            coinparams.cointype,
                            policy_child(pol, i),
                        );
                    assert(policy_seed(pol, pre, i0) == hd_seed@);
                    assert(z_step_fails(nohd, m, *coinparams, i0));
                } else {
                    assert(t_stream_gives_up(policy_t_seed(pol, pre), tcount as int));
                    assert(policy_t_seed(pol, pre) == hd_seed@);
                }
                assert(wallet_failure(nohd, zcount, tcount, m, *coinparams));
            }
        }
        r
    } else {
        let ghost pre = rng@;
        let r = gen_addresses_with_seed(
            zcount,
            tcount,
            &SeedPolicy::PerIndexFresh,
            &mut rng,
            coinparams,
        );
        proof {
            let sys = choose|sys: Seq<u8>|
                sys.len() == 32 && mix == mixed_seed_of(sys, user_entropy@);
            let m = mixed_seed_of(sys, user_entropy@);
            if r is Ok {
                let recs = r->Ok_0;
                assert(wallet_matches(recs@, nohd, zcount, tcount, m, *coinparams));
            } else if !(zcount > 0 && !hrps_usable(*coinparams)) {
                let pol = SeedPolicy::PerIndexFresh;
                if exists|i: int|
                    0 <= i < zcount && !zaddr_derivable(
                        #[trigger] policy_seed(pol, pre, i),
                        coinparams.cointype,
                        policy_child(pol, i),
                    ) {
                    let i0 = choose|i: int|
                        0 <= i < zcount && !zaddr_derivable(
                            #[trigger] policy_seed(pol, pre, i),
                            coinparams.cointype,
                            policy_child(pol, i),
                        );
                    assert(policy_seed(pol, pre, i0) == chacha32_of(m, (i0 + 1) as nat));
                    assert(z_step_fails(nohd, m, *coinparams, i0));
                } else {
                    assert(t_stream_gives_up(policy_t_seed(pol, pre), tcount as int));
                    assert(policy_t_seed(pol, pre) == chacha32_of(m, 0));
                }
                assert(wallet_failure(nohd, zcount, tcount, m, *coinparams));
            }
        }
        r
    }
}

// ---------------------------------------------------------------------------
// Record-set laws
// ---------------------------------------------------------------------------

/// With the seed-reuse policy, every hierarchical record reports the same
/// seed, and the derivation paths walk the child indices in order: record
/// `i` reports the path for child `i`.
pub proof fn lemma_hd_reuse_records(
    recs: Seq<WalletRecord>,
    zcount: u32,
    tcount: u32,
    mix: Seq<u8>,
    p: CoinParams,
)
    requires
        wallet_matches(recs, false, zcount, tcount, mix, p),
    ensures
        forall|i: int, j: int|
            0 <= i < zcount && 0 <= j < zcount ==> #[trigger] recs[i].seed_info.unwrap().hd_seed@
                == #[trigger] recs[j].seed_info.unwrap().hd_seed@,
        forall|i: int|
            0 <= i < zcount ==> #[trigger] recs[i].seed_info.unwrap().path@ == ascii_chars(
                zaddr_path_bytes(p.cointype, i as u32),
            ),
{
    assert forall|i: int| 0 <= i < zcount implies #[trigger] recs[i].seed_info.unwrap().hd_seed@
        == hex_of(chacha32_of(mix, 0)) && recs[i].seed_info.unwrap().path@ == ascii_chars(
        zaddr_path_bytes(p.cointype, i as u32),
    ) by {
        assert(z_record_matches(recs[i], i as u32, chacha32_of(mix, 0), i as u32, p));
    }
}

/// With a fresh seed per record, every hierarchical record reports the
/// same, literal derivation path for child zero, and record `i` reports the
/// seed drawn at position `i + 1` of the stream.
pub proof fn lemma_fresh_seed_records(
    recs: Seq<WalletRecord>,
    zcount: u32,
    tcount: u32,
    mix: Seq<u8>,
    p: CoinParams,
)
    requires
        wallet_matches(recs, true, zcount, tcount, mix, p),
    ensures
        forall|i: int|
            0 <= i < zcount ==> #[trigger] recs[i].seed_info.unwrap().path@ == ascii_chars(
                zaddr_path_bytes(p.cointype, 0),
            ),
        forall|i: int|
            0 <= i < zcount ==> #[trigger] recs[i].seed_info.unwrap().hd_seed@ == hex_of(
                chacha32_of(mix, (i + 1) as nat),
            ),
{
    assert forall|i: int| 0 <= i < zcount implies #[trigger] recs[i].seed_info.unwrap().path@
        == ascii_chars(zaddr_path_bytes(p.cointype, 0)) && recs[i].seed_info.unwrap().hd_seed@
        == hex_of(chacha32_of(mix, (i + 1) as nat)) by {
        assert(z_record_matches(recs[i], i as u32, chacha32_of(mix, (i + 1) as nat), 0u32, p));
    }
}

/// Every hierarchical record's address text begins with the network's
/// shielded prefix and its private-key text with the shielded-secret
/// prefix.
pub proof fn lemma_record_prefixes(
    recs: Seq<WalletRecord>,
    nohd: bool,
    zcount: u32,
    tcount: u32,
    mix: Seq<u8>,
    p: CoinParams,
)
    requires
        wallet_matches(recs, nohd, zcount, tcount, mix, p),
    ensures
        forall|i: int|
            0 <= i < zcount ==> #[trigger] recs[i].address@.subrange(
                0,
                p.zaddress_prefix@.len() as int,
            ) == p.zaddress_prefix@,
        forall|i: int|
            0 <= i < zcount ==> #[trigger] recs[i].private_key@.subrange(
                0,
                p.zsecret_prefix@.len() as int,
            ) == p.zsecret_prefix@,
{
    assert forall|i: int| 0 <= i < zcount implies #[trigger] recs[i].address@.subrange(
        0,
        p.zaddress_prefix@.len() as int,
    ) == p.zaddress_prefix@ && #[trigger] recs[i].private_key@.subrange(
        0,
        p.zsecret_prefix@.len() as int,
    ) == p.zsecret_prefix@ by {
        let seed = if nohd {
            chacha32_of(mix, (i + 1) as nat)
        } else {
            chacha32_of(mix, 0)
        };
        let child = if nohd {
            0u32
        } else {
            i as u32
        };
        assert(z_record_matches(recs[i], i as u32, seed, child, p));
        assert(recs[i].address@.subrange(0, p.zaddress_prefix@.len() as int)
            =~= p.zaddress_prefix@);
        assert(recs[i].private_key@.subrange(0, p.zsecret_prefix@.len() as int)
            =~= p.zsecret_prefix@);
    }
}

} // verus!
