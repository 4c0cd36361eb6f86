//! Proof-of-work arithmetic: 256-bit targets and work, block hashes.
//!
//! The arithmetic of consensus is the `bitcoin` crate's; the items at the top
//! of this module carry its values in and out.

use crate::job::{byte_span, law_le_bytes_read_back, le_bytes};
use vstd::prelude::*;

verus! {

/// `2^128`.
pub open spec fn half() -> nat {
    0x1_0000_0000_0000_0000_0000_0000_0000_0000nat
}

/// `2^256`.
pub open spec fn full() -> nat {
    0x1_0000_0000_0000_0000_0000_0000_0000_0000_0000_0000_0000_0000_0000_0000_0000_0000nat
}

/// The number that a byte string spells, least significant byte first.
pub open spec fn le_value(bytes: Seq<u8>) -> nat
    decreases bytes.len(),
{
    if bytes.len() == 0 {
        0
    } else {
        bytes[0] as nat + 256 * le_value(bytes.drop_first())
    }
}

/// A 256-bit proof-of-work target. A hash meets it when it is no larger.
#[derive(Clone, Copy, Debug, PartialEq, Eq, PartialOrd, Ord, Hash, Structural)]
pub struct Target {
    pub hi: u128,
    pub lo: u128,
}

impl View for Target {
    type V = nat;

    open spec fn view(&self) -> nat {
        self.hi as nat * half() + self.lo as nat
    }
}

/// A 256-bit amount of expected work, in hashes.
#[derive(Clone, Copy, Debug, PartialEq, Eq, PartialOrd, Ord, Hash, Structural)]
pub struct Work {
    pub hi: u128,
    pub lo: u128,
}

impl View for Work {
    type V = nat;

    open spec fn view(&self) -> nat {
        self.hi as nat * half() + self.lo as nat
    }
}

/// The six fields that a block hash commits to.
#[derive(Clone, Copy, Debug)]
pub struct BlockHeader {
    pub version: i32,
    pub prev_blockhash: [u8; 32],
    pub merkle_root: [u8; 32],
    pub time: u32,
    pub bits: u32,
    pub nonce: u32,
}

/// `2^256 / (x + 1)`, with the largest 256-bit number for `x` of zero and one.
pub open spec fn inverse(x: nat) -> nat {
    if x <= 1 {
        (full() - 1) as nat
    } else {
        full() / (x + 1)
    }
}

/// The target of difficulty 1.
pub open spec fn max_target() -> nat {
    0xFFFF_0000_0000_0000_0000_0000_0000_0000_0000_0000_0000_0000_0000_0000nat
}

/// The eighty bytes of a serialised header with these fields. Numbers are
/// written least significant byte first.
pub open spec fn header_bytes(
    version: i32,
    prev_blockhash: Seq<u8>,
    merkle_root: Seq<u8>,
    time: u32,
    bits: u32,
    nonce: u32,
) -> Seq<u8> {
    le_bytes((version as u32) as nat, 4) + prev_blockhash + merkle_root + le_bytes(time as nat, 4)
        + le_bytes(bits as nat, 4) + le_bytes(nonce as nat, 4)
}

/// The block hash of a header with these fields: the double SHA-256 of its
/// serialisation.
pub open spec fn header_hash(
    version: i32,
    prev_blockhash: Seq<u8>,
    merkle_root: Seq<u8>,
    time: u32,
    bits: u32,
    nonce: u32,
) -> Seq<u8> {
    double_sha256(header_bytes(version, prev_blockhash, merkle_root, time, bits, nonce))
}

/// What `bitcoin::hashes::sha256d::Hash::hash` returns: the bytes of the double
/// SHA-256 of a byte string.
pub uninterp spec fn double_sha256(bytes: Seq<u8>) -> Seq<u8>;

/// Calls `bitcoin::block::Header::block_hash`, which serialises the six fields in
/// order and hands the bytes to the same hash as `sha256d` does. What the digest
/// of given bytes is, is not stated.
#[verifier::external_body]
pub(crate) fn hash_header(header: &BlockHeader) -> (hash: [u8; 32])
    ensures
        hash@ == header_hash(
            header.version,
            header.prev_blockhash@,
            header.merkle_root@,
            header.time,
            header.bits,
            header.nonce,
        ),
{
    let header = bitcoin::block::Header {
        version: bitcoin::block::Version::from_consensus(header.version),
        prev_blockhash: bitcoin::hashes::Hash::from_byte_array(header.prev_blockhash),
        merkle_root: bitcoin::hashes::Hash::from_byte_array(header.merkle_root),
        time: header.time,
        bits: bitcoin::CompactTarget::from_consensus(header.bits),
        nonce: header.nonce,
    };
    bitcoin::hashes::Hash::to_byte_array(header.block_hash())
}

/// Calls `bitcoin::hashes::sha256d::Hash::hash`. The result is named by
/// `double_sha256`; what the digest of given bytes is, is not stated.
#[verifier::external_body]
pub(crate) fn sha256d(bytes: &[u8]) -> (digest: [u8; 32])
    ensures
        digest@ == double_sha256(bytes@),
{
    bitcoin::hashes::Hash::to_byte_array(
        <bitcoin::hashes::sha256d::Hash as bitcoin::hashes::Hash>::hash(bytes),
    )
}

/// Calls `bitcoin::pow::Target::is_met_by`: whether the hash, read as a
/// little-endian number, is at most the target.
#[verifier::external_body]
pub(crate) fn hash_meets_target(target: Target, hash: &[u8; 32]) -> (met: bool)
    ensures
        met == (le_value(hash@) <= target@),
{
    let mut bytes = [0u8; 32];
    bytes[..16].copy_from_slice(&target.hi.to_be_bytes());
    bytes[16..].copy_from_slice(&target.lo.to_be_bytes());
    bitcoin::Target::from_be_bytes(bytes).is_met_by(
        bitcoin::hashes::Hash::from_byte_array(*hash),
    )
}

/// Calls `bitcoin::pow::Target::to_work`: the inverse of the target, the number
/// of hashes expected before one meets it.
#[verifier::external_body]
pub(crate) fn target_to_work(target: Target) -> (work: Work)
    ensures
        work@ == inverse(target@),
{
    let mut bytes = [0u8; 32];
    bytes[..16].copy_from_slice(&target.hi.to_be_bytes());
    bytes[16..].copy_from_slice(&target.lo.to_be_bytes());
    let work = bitcoin::Target::from_be_bytes(bytes).to_work().to_be_bytes();
    let (hi, lo) = work.split_at(16);
    Work {
        hi: u128::from_be_bytes(hi.try_into().unwrap()),
        lo: u128::from_be_bytes(lo.try_into().unwrap()),
    }
}

/// Calls `bitcoin::pow::Work::to_target`: the inverse of the work, the target
/// that takes this many hashes on average.
#[verifier::external_body]
pub(crate) fn work_to_target(work: Work) -> (target: Target)
    ensures
        target@ == inverse(work@),
{
    let mut bytes = [0u8; 32];
    bytes[..16].copy_from_slice(&work.hi.to_be_bytes());
    bytes[16..].copy_from_slice(&work.lo.to_be_bytes());
    let target = bitcoin::Work::from_be_bytes(bytes).to_target().to_be_bytes();
    let (hi, lo) = target.split_at(16);
    Target {
        hi: u128::from_be_bytes(hi.try_into().unwrap()),
        lo: u128::from_be_bytes(lo.try_into().unwrap()),
    }
}

/// Calls `bitcoin::pow::Target::difficulty` with the main network's parameters:
/// how often the target goes into the target of difficulty 1, saturating at
/// `u128::MAX`. It panics on a target of zero.
#[verifier::external_body]
pub(crate) fn target_difficulty(target: Target) -> (difficulty: u128)
    requires
        target@ > 0,
    ensures
        difficulty == if max_target() / target@ > u128::MAX {
            u128::MAX as nat
        } else {
            max_target() / target@
        },
{
    let mut bytes = [0u8; 32];
    bytes[..16].copy_from_slice(&target.hi.to_be_bytes());
    bytes[16..].copy_from_slice(&target.lo.to_be_bytes());
    bitcoin::Target::from_be_bytes(bytes).difficulty(bitcoin::params::Params::MAINNET)
}

/// Calls `bitcoin::pow::Target::from_le_bytes`: the number that the bytes
/// spell, least significant byte first.
#[verifier::external_body]
pub(crate) fn target_from_hash(hash: &[u8; 32]) -> (target: Target)
    ensures
        target@ == le_value(hash@),
{
    let bytes = bitcoin::Target::from_le_bytes(*hash).to_be_bytes();
    let (hi, lo) = bytes.split_at(16);
    Target {
        hi: u128::from_be_bytes(hi.try_into().unwrap()),
        lo: u128::from_be_bytes(lo.try_into().unwrap()),
    }
}

impl Target {
    /// The target of difficulty 1, the easiest that the network attains.
    pub fn max() -> (r: Target)
        ensures
            r@ == max_target(),
    {
        Target { hi: 0xFFFF_0000_0000_0000_0000_0000u128, lo: 0 }
    }

    /// Whether a block hash, given in its internal byte order, meets the target.
    pub fn is_met_by(&self, hash: &[u8; 32]) -> (met: bool)
        ensures
            met == (le_value(hash@) <= self@),
    {
        hash_meets_target(*self, hash)
    }

    /// The number of hashes expected before one meets the target.
    pub fn to_work(&self) -> (work: Work)
        ensures
            work@ == inverse(self@),
    {
        target_to_work(*self)
    }

    /// Whether this target is at most as easy as `other`.
    pub fn at_most(&self, other: &Target) -> (r: bool)
        ensures
            r == (self@ <= other@),
    {
        proof {
            lemma_word_order(self.hi, self.lo, other.hi, other.lo);
        }
        self.hi < other.hi || (self.hi == other.hi && self.lo <= other.lo)
    }

    /// The target brought into the range from `low` to `high`.
    pub fn clamp(self, low: Target, high: Target) -> (r: Target)
        requires
            low@ <= high@,
        ensures
            r == clamped(self, low, high),
    {
        if !low.at_most(&self) {
            low
        } else if !self.at_most(&high) {
            high
        } else {
            self
        }
    }
}

/// The nearest target to `t` between `low` and `high`.
pub open spec fn clamped(t: Target, low: Target, high: Target) -> Target {
    if t@ < low@ {
        low
    } else if t@ > high@ {
        high
    } else {
        t
    }
}

impl Work {
    /// The target that takes this many hashes on average.
    pub fn to_target(&self) -> (target: Target)
        ensures
            target@ == inverse(self@),
    {
        work_to_target(*self)
    }
}

impl BlockHeader {
    /// The name of the header's hash.
    pub open spec fn hash(&self) -> Seq<u8> {
        header_hash(
            self.version,
            self.prev_blockhash@,
            self.merkle_root@,
            self.time,
            self.bits,
            self.nonce,
        )
    }

    /// The double SHA-256 of the serialised header, in internal byte order.
    pub fn block_hash(&self) -> (hash: [u8; 32])
        ensures
            hash@ == self.hash(),
    {
        hash_header(self)
    }
}

/// A serialised header has eighty bytes: the version, the previous block's hash,
/// the merkle root, the time, the bits and the nonce, each in its place. So
/// headers that differ in any field differ in their bytes.
pub proof fn law_header_bytes(header: BlockHeader)
    ensures
        ({
            let bytes = header_bytes(
                header.version,
                header.prev_blockhash@,
                header.merkle_root@,
                header.time,
                header.bits,
                header.nonce,
            );
            &&& bytes.len() == 80
            &&& le_value(bytes.subrange(0, 4)) == header.version as u32
            &&& bytes.subrange(4, 36) == header.prev_blockhash@
            &&& bytes.subrange(36, 68) == header.merkle_root@
            &&& le_value(bytes.subrange(68, 72)) == header.time
            &&& le_value(bytes.subrange(72, 76)) == header.bits
            &&& le_value(bytes.subrange(76, 80)) == header.nonce
        }),
{
    let version = (header.version as u32) as nat;
    reveal_with_fuel(byte_span, 5);
    law_le_bytes_read_back(version, 4);
    law_le_bytes_read_back(header.time as nat, 4);
    law_le_bytes_read_back(header.bits as nat, 4);
    law_le_bytes_read_back(header.nonce as nat, 4);
    let bytes = header_bytes(
        header.version,
        header.prev_blockhash@,
        header.merkle_root@,
        header.time,
        header.bits,
        header.nonce,
    );
    assert(header.prev_blockhash@.len() == 32 && header.merkle_root@.len() == 32);
    assert(bytes.subrange(0, 4) =~= le_bytes(version, 4));
    assert(bytes.subrange(4, 36) =~= header.prev_blockhash@);
    assert(bytes.subrange(36, 68) =~= header.merkle_root@);
    assert(bytes.subrange(68, 72) =~= le_bytes(header.time as nat, 4));
    assert(bytes.subrange(72, 76) =~= le_bytes(header.bits as nat, 4));
    assert(bytes.subrange(76, 80) =~= le_bytes(header.nonce as nat, 4));
}

/// The inverse of more than one is the largest number of times that it goes, one
/// larger, into `2^256`: a target that is met once in that many hashes.
pub proof fn law_inverse(x: nat)
    ensures
        x <= 1 ==> inverse(x) + 1 == full(),
        x > 1 ==> inverse(x) * (x + 1) <= full() < (inverse(x) + 1) * (x + 1),
{
    if x > 1 {
        let n = full() as int;
        let d = (x + 1) as int;
        let q = n / d;
        vstd::arithmetic::div_mod::lemma_fundamental_div_mod(n, d);
        vstd::arithmetic::div_mod::lemma_mod_bound(n, d);
        assert(d * q == q * d && (q + 1) * d == q * d + d) by (nonlinear_arith);
    }
}

/// A clamped target lies between the two ends. One that does so already is left
/// alone, and any other becomes the end that it is beyond.
pub proof fn law_clamped(t: Target, low: Target, high: Target)
    requires
        low@ <= high@,
    ensures
        low@ <= clamped(t, low, high)@ <= high@,
        low@ <= t@ <= high@ ==> clamped(t, low, high) == t,
        t@ < low@ ==> clamped(t, low, high) == low,
        t@ > high@ ==> clamped(t, low, high) == high,
{
}

/// Numeric order on 256-bit words is lexicographic order on their halves.
pub(crate) proof fn lemma_word_order(ahi: u128, alo: u128, bhi: u128, blo: u128)
    ensures
        (ahi as nat * half() + alo as nat <= bhi as nat * half() + blo as nat) <==> (ahi < bhi || (
        ahi == bhi && alo <= blo)),
{
    if ahi < bhi {
        assert((ahi + 1) * half() <= bhi * half()) by (nonlinear_arith)
            requires
                ahi + 1 <= bhi,
        ;
        assert((ahi + 1) * half() == ahi * half() + half()) by (nonlinear_arith);
    } else if ahi > bhi {
        assert((bhi + 1) * half() <= ahi * half()) by (nonlinear_arith)
            requires
                bhi + 1 <= ahi,
        ;
        assert((bhi + 1) * half() == bhi * half() + half()) by (nonlinear_arith);
    }
}

/// More work never makes an easier target: the inverse is antitone.
pub proof fn lemma_inverse_antitone(a: nat, b: nat)
    requires
        a <= b < full(),
    ensures
        inverse(b) <= inverse(a),
{
    if a <= 1 {
        if b > 1 {
            assert(full() / (b + 1) <= full() - 1) by (nonlinear_arith)
                requires
                    b > 1,
            ;
        }
    } else {
        assert(full() / (b + 1) <= full() / (a + 1)) by {
            vstd::arithmetic::div_mod::lemma_div_is_ordered_by_denominator(
                full() as int,
                a as int + 1,
                b as int + 1,
            );
        }
    }
}

/// Divides a 256-bit number, given in halves, by a 64-bit one.
pub(crate) fn divide_word(hi: u128, lo: u128, divisor: u64) -> (q: (u128, u128))
    requires
        divisor > 0,
    ensures
        q.0 as nat * half() + q.1 as nat == (hi as nat * half() + lo as nat) / (divisor as nat),
{
    let d: u128 = divisor as u128;
    let base: u128 = 0x1_0000_0000_0000_0000u128;
    let q3: u128 = hi / d;
    let r3: u128 = hi % d;
    let lo_hi: u128 = lo / base;
    let lo_lo: u128 = lo % base;
    assert(r3 * base + lo_hi < d * base && d * base <= u128::MAX) by (nonlinear_arith)
        requires
            r3 <= d - 1,
            lo_hi < base,
            d < base,
            base == 0x1_0000_0000_0000_0000u128,
    ;
    let t1: u128 = r3 * base + lo_hi;
    let q1: u128 = t1 / d;
    let r1: u128 = t1 % d;
    assert(r1 * base + lo_lo < d * base) by (nonlinear_arith)
        requires
            r1 <= d - 1,
            lo_lo < base,
    ;
    let t0: u128 = r1 * base + lo_lo;
    let q0: u128 = t0 / d;
    let r0: u128 = t0 % d;
    assert(q1 < base) by (nonlinear_arith)
        requires
            t1 < d * base,
            q1 == t1 / d,
            d > 0,
    ;
    assert(q0 < base) by (nonlinear_arith)
        requires
            t0 < d * base,
            q0 == t0 / d,
            d > 0,
    ;
    assert(q1 * base + q0 < base * base) by (nonlinear_arith)
        requires
            q1 <= base - 1,
            q0 < base,
    ;
    assert(base * base == half()) by (nonlinear_arith)
        requires
            base == 0x1_0000_0000_0000_0000u128,
    ;
    let q_lo: u128 = q1 * base + q0;
    proof {
        let n = hi as int * half() + lo as int;
        let q = q3 as int * half() + q_lo as int;
        assert(hi == q3 * d + r3) by (nonlinear_arith)
            requires
                q3 == hi / d,
                r3 == hi % d,
                d > 0,
        ;
        assert(t1 == q1 * d + r1) by (nonlinear_arith)
            requires
                q1 == t1 / d,
                r1 == t1 % d,
                d > 0,
        ;
        assert(t0 == q0 * d + r0) by (nonlinear_arith)
            requires
                q0 == t0 / d,
                r0 == t0 % d,
                d > 0,
        ;
        assert(lo == lo_hi * base + lo_lo);
        assert(n == q * d + r0) by (nonlinear_arith)
            requires
                n == hi as int * half() + lo as int,
                q == q3 as int * half() + q_lo as int,
                hi == q3 * d + r3,
                lo == lo_hi * base + lo_lo,
                t1 == r3 * base + lo_hi,
                t1 == q1 * d + r1,
                t0 == r1 * base + lo_lo,
                t0 == q0 * d + r0,
                q_lo == q1 * base + q0,
                base * base == half(),
        ;
        vstd::arithmetic::div_mod::lemma_fundamental_div_mod_converse(
            n,
            d as int,
            q,
            r0 as int,
        );
    }
    (q3, q_lo)
}

} // verus!
