//! Hash rates, share rates and difficulty.

use crate::pow::{
    divide_word, half, inverse, le_value, lemma_inverse_antitone, max_target, target_difficulty,
    target_from_hash, Target, Work,
};
use vstd::prelude::*;

verus! {

/// A hash rate in hashes per second.
#[derive(Clone, Copy, Debug, PartialEq, Eq, PartialOrd, Ord, Hash, Structural)]
pub struct HashRate(pub u64);

impl HashRate {
    pub fn from_terahashes(th: u64) -> (r: HashRate)
        requires
            th <= 18_446_744,
        ensures
            r.0 == terahashes(th as nat),
    {
        HashRate(th * 1_000_000_000_000)
    }

    pub fn from_gigahashes(gh: u64) -> (r: HashRate)
        requires
            gh <= 18_446_744_073,
        ensures
            r.0 == gigahashes(gh as nat),
    {
        HashRate(gh * 1_000_000_000)
    }

    pub fn from_megahashes(mh: u64) -> (r: HashRate)
        requires
            mh <= 18_446_744_073_709,
        ensures
            r.0 == megahashes(mh as nat),
    {
        HashRate(mh * 1_000_000)
    }

    pub fn is_zero(&self) -> (r: bool)
        ensures
            r == (self.0 == 0),
    {
        self.0 == 0
    }
}

/// So many millions of hashes a second.
pub open spec fn megahashes(n: nat) -> nat {
    n * 1_000_000
}

/// So many billions of hashes a second.
pub open spec fn gigahashes(n: nat) -> nat {
    n * 1_000_000_000
}

/// So many trillions of hashes a second.
pub open spec fn terahashes(n: nat) -> nat {
    n * 1_000_000_000_000
}

/// Each unit is a thousand of the next smaller one, and the smallest a million
/// hashes.
pub proof fn law_rate_units(n: nat)
    ensures
        terahashes(n) == gigahashes(1000 * n),
        gigahashes(n) == megahashes(1000 * n),
        megahashes(n) == 1000 * (1000 * n),
{
}

/// A rate of shares, held as the interval between two of them.
#[derive(Clone, Copy, Debug, PartialEq, Eq, Structural)]
pub struct ShareRate {
    pub interval_ms: u32,
}

/// Mining difficulty, relative to the target of difficulty 1.
#[derive(Clone, Copy, Debug, PartialEq, Eq, PartialOrd, Ord, Hash, Structural)]
pub struct Difficulty(pub u64);

/// The difficulty of a target: how often it goes into the target of difficulty
/// 1, at most `u64::MAX`.
pub open spec fn difficulty_of(target: nat) -> u64 {
    if target == 0 || max_target() / target > u64::MAX {
        u64::MAX
    } else {
        (max_target() / target) as u64
    }
}

impl Difficulty {
    /// The difficulty of a target.
    pub fn from_target(target: Target) -> (r: Difficulty)
        ensures
            r.0 == difficulty_of(target@),
    {
        if target.hi == 0 && target.lo == 0 {
            return Difficulty(u64::MAX);
        }
        assert(target@ > 0) by {
            assert(target.hi as nat * half() >= target.hi) by (nonlinear_arith);
        }
        let d: u128 = target_difficulty(target);
        if d > u64::MAX as u128 {
            Difficulty(u64::MAX)
        } else {
            Difficulty(d as u64)
        }
    }

    /// The difficulty that a block hash, in internal byte order, reaches.
    pub fn from_hash(hash: &[u8; 32]) -> (r: Difficulty)
        ensures
            r.0 == difficulty_of(le_value(hash@)),
    {
        Difficulty::from_target(target_from_hash(hash))
    }

    /// The largest target of this difficulty; that of difficulty 1 for zero.
    pub fn to_target(&self) -> (r: Target)
        ensures
            r@ == target_of(*self),
    {
        let d: u64 = if self.0 == 0 { 1 } else { self.0 };
        let max: Target = Target::max();
        let q = divide_word(max.hi, max.lo, d);
        Target { hi: q.0, lo: q.1 }
    }
}

/// The largest target of a difficulty; that of difficulty 1 for zero.
pub open spec fn target_of(difficulty: Difficulty) -> nat {
    max_target() / (if difficulty.0 == 0 {
        1
    } else {
        difficulty.0 as nat
    })
}

/// A difficulty times its target comes up to the target of difficulty 1, and
/// neither could be one larger.
pub proof fn law_difficulty(target: nat, difficulty: Difficulty)
    ensures
        ({
            let d = difficulty_of(target);
            &&& target == 0 ==> d == u64::MAX
            &&& target > 0 && d < u64::MAX ==> d * target <= max_target() < (d + 1) * target
            &&& target > 0 && d == u64::MAX ==> d * target <= max_target()
        }),
        difficulty.0 > 0 ==> target_of(difficulty) * difficulty.0 <= max_target() < (target_of(
            difficulty,
        ) + 1) * difficulty.0,
        difficulty.0 == 0 ==> target_of(difficulty) == max_target(),
{
    let n = max_target() as int;
    if target > 0 {
        let d = target as int;
        let q = n / d;
        let shown = difficulty_of(target) as int;
        vstd::arithmetic::div_mod::lemma_fundamental_div_mod(n, d);
        vstd::arithmetic::div_mod::lemma_mod_bound(n, d);
        assert(d * q == q * d && (q + 1) * d == q * d + d) by (nonlinear_arith);
        assert(shown <= q ==> shown * d <= q * d) by (nonlinear_arith)
            requires
                d > 0,
        ;
    }
    if difficulty.0 > 0 {
        let d = difficulty.0 as int;
        let q = n / d;
        vstd::arithmetic::div_mod::lemma_fundamental_div_mod(n, d);
        vstd::arithmetic::div_mod::lemma_mod_bound(n, d);
        assert(d * q == q * d && (q + 1) * d == q * d + d) by (nonlinear_arith);
    }
}

/// The hashes that a thread of rate `hashes_per_sec` does between two shares
/// `interval_ms` apart.
pub open spec fn hashes_per_share(interval_ms: u32, hashes_per_sec: u64) -> nat {
    (hashes_per_sec as nat * interval_ms as nat) / 1000
}

/// The target at which a thread of the given hash rate finds shares at the
/// given rate.
pub fn target_for_share_rate(rate: ShareRate, hashrate: HashRate) -> (r: Target)
    ensures
        r@ == inverse(hashes_per_share(rate.interval_ms, hashrate.0)),
{
    assert(hashrate.0 as nat * rate.interval_ms as nat <= u64::MAX as nat * u32::MAX as nat)
        by (nonlinear_arith)
        requires
            hashrate.0 <= u64::MAX,
            rate.interval_ms <= u32::MAX,
    ;
    let hashes: u128 = (hashrate.0 as u128 * rate.interval_ms as u128) / 1000;
    Work { hi: 0, lo: hashes }.to_target()
}

/// The whole seconds expected before a hash meets the target, at most
/// `u64::MAX`.
pub open spec fn seconds_to_share(target: nat, hashes_per_sec: u64) -> nat {
    if inverse(target) / (hashes_per_sec as nat) > u64::MAX {
        u64::MAX as nat
    } else {
        inverse(target) / (hashes_per_sec as nat)
    }
}

/// What a thread does in the seconds expected before a share comes up to the
/// hashes that the share takes, and falls less than a second short of it.
pub proof fn law_seconds_to_share(target: nat, hashes_per_sec: u64)
    requires
        hashes_per_sec > 0,
    ensures
        ({
            let secs = seconds_to_share(target, hashes_per_sec);
            &&& secs <= u64::MAX
            &&& secs * hashes_per_sec <= inverse(target)
            &&& secs < u64::MAX ==> inverse(target) < (secs + 1) * hashes_per_sec
        }),
{
    let n = inverse(target) as int;
    let d = hashes_per_sec as int;
    let q = n / d;
    let secs = seconds_to_share(target, hashes_per_sec) as int;
    vstd::arithmetic::div_mod::lemma_fundamental_div_mod(n, d);
    vstd::arithmetic::div_mod::lemma_mod_bound(n, d);
    assert(d * q == q * d && (q + 1) * d == q * d + d) by (nonlinear_arith);
    assert(secs <= q ==> secs * d <= q * d) by (nonlinear_arith)
        requires
            d > 0,
    ;
}

/// The hashes between two shares are those of the interval, in whole hashes.
pub proof fn law_hashes_per_share(interval_ms: u32, hashes_per_sec: u64)
    ensures
        ({
            let hashes = hashes_per_share(interval_ms, hashes_per_sec);
            1000 * hashes <= hashes_per_sec * interval_ms < 1000 * (hashes + 1)
        }),
{
}

/// The whole seconds expected before a hash meets the target.
pub fn expected_time_to_share_from_target(target: Target, hashrate: HashRate) -> (secs: u64)
    requires
        hashrate.0 > 0,
    ensures
        secs == seconds_to_share(target@, hashrate.0),
{
    let work: Work = target.to_work();
    let (hi, lo) = divide_word(work.hi, work.lo, hashrate.0);
    if hi > 0 || lo > u64::MAX as u128 {
        proof {
            assert(hi as nat * half() >= hi) by (nonlinear_arith);
            if hi > 0 {
                assert(hi as nat * half() >= half()) by (nonlinear_arith)
                    requires
                        hi >= 1,
                ;
            }
        }
        u64::MAX
    } else {
        lo as u64
    }
}

/// A lower share rate asks for a harder target, whatever the hash rate.
pub proof fn law_slower_shares_are_harder(slow: ShareRate, fast: ShareRate, hashrate: HashRate)
    requires
        slow.interval_ms >= fast.interval_ms,
    ensures
        inverse(hashes_per_share(slow.interval_ms, hashrate.0)) <= inverse(
            hashes_per_share(fast.interval_ms, hashrate.0),
        ),
{
    let a = hashrate.0 as nat * fast.interval_ms as nat;
    let b = hashrate.0 as nat * slow.interval_ms as nat;
    assert(a <= b && b <= u64::MAX as nat * u32::MAX as nat) by (nonlinear_arith)
        requires
            a == hashrate.0 as nat * fast.interval_ms as nat,
            b == hashrate.0 as nat * slow.interval_ms as nat,
            slow.interval_ms >= fast.interval_ms,
            hashrate.0 <= u64::MAX,
            slow.interval_ms <= u32::MAX,
    ;
    lemma_inverse_antitone(a / 1000, b / 1000);
}

/// The sum of the numbers, at most `u64::MAX`.
pub open spec fn saturating_sum(xs: Seq<u64>) -> u64
    decreases xs.len(),
{
    if xs.len() == 0 {
        0
    } else {
        let sum = saturating_sum(xs.drop_last()) + xs.last();
        if sum > u64::MAX {
            u64::MAX
        } else {
            sum as u64
        }
    }
}

/// The sum of no numbers is zero, and each number more adds itself to it as far
/// as the largest number allows. So it is never less than any of them.
pub proof fn law_saturating_sum(xs: Seq<u64>, x: u64, i: int)
    ensures
        saturating_sum(Seq::<u64>::empty()) == 0,
        saturating_sum(xs) + x <= u64::MAX ==> saturating_sum(xs.push(x)) == saturating_sum(xs) + x,
        saturating_sum(xs) + x > u64::MAX ==> saturating_sum(xs.push(x)) == u64::MAX,
        0 <= i < xs.len() ==> xs[i] <= saturating_sum(xs),
    decreases xs.len(),
{
    assert(xs.push(x).drop_last() =~= xs);
    if xs.len() > 0 {
        law_saturating_sum(xs.drop_last(), x, i);
    }
}

/// Adds two numbers, saturating.
pub(crate) fn saturating_plus(a: u64, b: u64) -> (r: u64)
    ensures
        r == if a + b > u64::MAX {
            u64::MAX as int
        } else {
            a + b
        },
{
    if a > u64::MAX - b {
        u64::MAX
    } else {
        a + b
    }
}

/// One more element of a sequence, filtered.
pub(crate) proof fn lemma_filter_next<A>(all: Seq<A>, i: int, pred: spec_fn(A) -> bool)
    requires
        0 <= i < all.len(),
    ensures
        all.take(i + 1).filter(pred) == if pred(all[i]) {
            all.take(i).filter(pred).push(all[i])
        } else {
            all.take(i).filter(pred)
        },
{
    reveal(Seq::filter);
    assert(all.take(i + 1).drop_last() =~= all.take(i));
}

} // verus!
