//! Jobs as sources hand them out: header fields, merkle roots and the
//! extranonce2 space.

use crate::pow::{double_sha256, le_value, sha256d, Target};
use vstd::arithmetic::power::pow;
use vstd::prelude::*;

verus! {

/// The bits of a block version that a miner may roll, as one 16-bit number.
#[derive(Clone, Copy, Debug, PartialEq, Eq, Structural)]
pub struct GeneralPurposeBits(pub u16);

/// A block version with the rolled bits put at positions 13 to 28.
pub open spec fn rolled_version(base: u32, bits: u16) -> u32 {
    (base & 0xE000_1FFFu32) | ((bits as u32) << 13)
}

impl GeneralPurposeBits {
    /// Every rollable bit set.
    pub fn full() -> (r: GeneralPurposeBits)
        ensures
            r.0 == 0xFFFF,
    {
        GeneralPurposeBits(0xFFFF)
    }

    /// The version that results from rolling `base` to these bits.
    pub fn apply_to_version(&self, base: u32) -> (r: u32)
        ensures
            r == rolled_version(base, self.0),
    {
        (base & 0xE000_1FFFu32) | ((self.0 as u32) << 13)
    }
}

/// The rolled bits can be read back from the version, and the others are those
/// of the base.
pub proof fn law_rolled_version(base: u32, bits: u16)
    ensures
        (rolled_version(base, bits) >> 13) & 0xFFFF == bits,
        rolled_version(base, bits) & 0xE000_1FFF == base & 0xE000_1FFF,
{
    assert((((base & 0xE000_1FFFu32) | ((bits as u32) << 13)) >> 13) & 0xFFFF == bits
        && ((base & 0xE000_1FFFu32) | ((bits as u32) << 13)) & 0xE000_1FFF == base & 0xE000_1FFF)
        by (bit_vector);
}

/// An extranonce2 value of a fixed number of bytes.
#[derive(Clone, Copy, Debug, PartialEq, Eq, Structural)]
pub struct Extranonce2 {
    pub value: u64,
    pub size: u8,
}

/// `256^n`.
pub open spec fn byte_span(n: nat) -> nat
    decreases n,
{
    if n == 0 {
        1
    } else {
        256 * byte_span((n - 1) as nat)
    }
}

/// The low `size` bytes of `value`, least significant first.
pub open spec fn le_bytes(value: nat, size: nat) -> Seq<u8>
    decreases size,
{
    if size == 0 {
        Seq::<u8>::empty()
    } else {
        seq![(value % 256) as u8] + le_bytes(value / 256, (size - 1) as nat)
    }
}

impl Extranonce2 {
    pub open spec fn wf(&self) -> bool {
        &&& 1 <= self.size <= 8
        &&& (self.value as nat) < byte_span(self.size as nat)
    }

    /// A value that fits in `size` bytes, of which there are one to eight.
    pub fn new(value: u64, size: u8) -> (r: Option<Extranonce2>)
        ensures
            r == if 1 <= size <= 8 && (value as nat) < byte_span(size as nat) {
                Some(Extranonce2 { value, size })
            } else {
                None
            },
    {
        if size < 1 || size > 8 {
            return None;
        }
        let top: u64 = largest(size);
        if value <= top {
            Some(Extranonce2 { value, size })
        } else {
            None
        }
    }

    /// Appends the bytes that go into the coinbase.
    pub fn append_to(&self, out: &mut Vec<u8>)
        ensures
            final(out)@ == old(out)@ + le_bytes(self.value as nat, self.size as nat),
    {
        let ghost before = out@;
        let mut rest: u64 = self.value;
        let mut left: u8 = self.size;
        while left > 0
            invariant
                left <= self.size,
                out@ + le_bytes(rest as nat, left as nat) == before + le_bytes(
                    self.value as nat,
                    self.size as nat,
                ),
            decreases left,
        {
            let ghost prev = out@;
            let byte: u8 = (rest % 256) as u8;
            out.push(byte);
            assert(prev + le_bytes(rest as nat, left as nat) =~= prev.push(byte) + le_bytes(
                rest as nat / 256,
                (left - 1) as nat,
            ));
            rest = rest / 256;
            left = left - 1;
        }
        assert(out@ + le_bytes(rest as nat, 0) =~= out@);
    }
}

/// The largest number of `size` bytes.
pub(crate) fn largest(size: u8) -> (top: u64)
    requires
        1 <= size <= 8,
    ensures
        top == byte_span(size as nat) - 1,
{
    let mut top: u64 = 255;
    let mut n: u8 = 1;
    assert(byte_span(1) == 256) by {
        reveal_with_fuel(byte_span, 2);
    }
    while n < size
        invariant
            1 <= n <= size <= 8,
            top == byte_span(n as nat) - 1,
        decreases size - n,
    {
        proof {
            reveal_with_fuel(byte_span, 9);
            assert(byte_span((n + 1) as nat) == 256 * byte_span(n as nat));
            assert(byte_span(8) == 0x1_0000_0000_0000_0000nat);
            assert(n == 1 || n == 2 || n == 3 || n == 4 || n == 5 || n == 6 || n == 7);
        }
        top = top * 256 + 255;
        n = n + 1;
    }
    top
}

/// A contiguous range of extranonce2 values, both ends included.
#[derive(Clone, Copy, Debug, PartialEq, Eq, Structural)]
pub struct Extranonce2Range {
    pub min: u64,
    pub max: u64,
    pub size: u8,
}

/// The first value of slice `i` of `n` of a range.
pub open spec fn slice_start(range: Extranonce2Range, n: nat, i: nat) -> int {
    range.min + (i * range.count()) / (n as int)
}

impl Extranonce2Range {
    pub open spec fn wf(&self) -> bool {
        &&& self.min <= self.max
        &&& 1 <= self.size <= 8
        &&& (self.max as nat) < byte_span(self.size as nat)
    }

    /// How many values the range holds.
    pub open spec fn count(&self) -> int {
        self.max - self.min + 1
    }

    pub open spec fn contains(&self, value: int) -> bool {
        self.min <= value <= self.max
    }

    /// Every value of `size` bytes.
    pub fn new(size: u8) -> (r: Option<Extranonce2Range>)
        ensures
            whole_range(size, r),
    {
        if size < 1 || size > 8 {
            None
        } else {
            Some(Extranonce2Range { min: 0, max: largest(size), size })
        }
    }

    /// The first value of the range.
    pub fn first(&self) -> (r: Extranonce2)
        ensures
            r.value == self.min,
            r.size == self.size,
            self.wf() ==> r.wf(),
    {
        Extranonce2 { value: self.min, size: self.size }
    }

    /// The slices that `split` hands out.
    pub open spec fn slices(&self, n: nat) -> Seq<Extranonce2Range> {
        Seq::new(
            n,
            |i: int|
                Extranonce2Range {
                    min: slice_start(*self, n, i as nat) as u64,
                    max: (slice_start(*self, n, (i + 1) as nat) - 1) as u64,
                    size: self.size,
                },
        )
    }

    /// Splits the range into `n` contiguous slices, as even as they can be.
    /// There is no way to do so with no slice or with more slices than values.
    pub fn split(&self, n: usize) -> (r: Option<Vec<Extranonce2Range>>)
        requires
            self.wf(),
        ensures
            r is Some <==> 0 < n <= self.count(),
            r matches Some(slices) ==> slices@ == self.slices(n as nat),
    {
        let count: u128 = (self.max - self.min) as u128 + 1;
        if n == 0 || n as u128 > count {
            return None;
        }
        let mut slices: Vec<Extranonce2Range> = Vec::new();
        let mut i: usize = 0;
        while i < n
            invariant
                self.wf(),
                0 < n <= count,
                count == self.count(),
                i <= n,
                slices@ =~= self.slices(n as nat).take(i as int),
            decreases n - i,
        {
            proof {
                lemma_slice_starts(*self, n as nat, i as nat);
                assert((i as nat + 1) * self.count() <= 0x1_0000_0000_0000_0000nat
                    * 0x1_0000_0000_0000_0000nat - 1) by (nonlinear_arith)
                    requires
                        i + 1 <= usize::MAX,
                        0 <= self.count() <= 0x1_0000_0000_0000_0000nat,
                ;
                assert(0 <= i as nat * self.count() <= (i as nat + 1) * self.count())
                    by (nonlinear_arith)
                    requires
                        0 <= self.count(),
                ;
            }
            let start: u128 = self.min as u128 + (i as u128 * count) / n as u128;
            let end: u128 = self.min as u128 + ((i + 1) as u128 * count) / n as u128;
            slices.push(
                Extranonce2Range { min: start as u64, max: (end - 1) as u64, size: self.size },
            );
            i = i + 1;
        }
        assert(self.slices(n as nat).take(n as int) =~= self.slices(n as nat));
        Some(slices)
    }
}

/// Slice `i` is not empty and stays within the range.
pub(crate) proof fn lemma_slice_starts(range: Extranonce2Range, n: nat, i: nat)
    requires
        range.wf(),
        0 < n <= range.count(),
        i < n,
    ensures
        range.min <= slice_start(range, n, i) < slice_start(range, n, i + 1) <= range.max + 1,
        slice_start(range, n, 0) == range.min,
        slice_start(range, n, n) == range.max + 1,
{
    let c = range.count();
    assert((i + 1) * c == i * c + c) by (nonlinear_arith);
    assert((i * c) / (n as int) >= 0) by (nonlinear_arith)
        requires
            c >= 0,
            n > 0,
    ;
    assert((i * c + c) / (n as int) >= (i * c) / (n as int) + 1) by (nonlinear_arith)
        requires
            c >= n,
            n > 0,
    ;
    assert(((i + 1) * c) / (n as int) <= c) by (nonlinear_arith)
        requires
            i + 1 <= n,
            n > 0,
            c >= 0,
    ;
    assert((n * c) / (n as int) == c) by (nonlinear_arith)
        requires
            n > 0,
    ;
    assert((0 * c) / (n as int) == 0) by (nonlinear_arith)
        requires
            n > 0,
    ;
}

/// Slice starts never fall.
proof fn lemma_slice_starts_ordered(range: Extranonce2Range, n: nat, i: nat, j: nat)
    requires
        range.wf(),
        0 < n <= range.count(),
        i <= j <= n,
    ensures
        range.min <= slice_start(range, n, i) <= slice_start(range, n, j) <= range.max + 1,
    decreases j - i,
{
    if i < j {
        lemma_slice_starts_ordered(range, n, i + 1, j);
        lemma_slice_starts(range, n, i);
    } else if i < n {
        lemma_slice_starts(range, n, i);
    } else {
        lemma_slice_starts(range, n, 0);
    }
}

/// The slice of `range` in which `value` lies, searched from slice `i` on.
proof fn lemma_find_slice(range: Extranonce2Range, n: nat, value: int, i: nat) -> (k: nat)
    requires
        range.wf(),
        0 < n <= range.count(),
        range.contains(value),
        i < n,
        slice_start(range, n, i) <= value,
    ensures
        i <= k < n,
        slice_start(range, n, k) <= value < slice_start(range, n, k + 1),
    decreases n - i,
{
    lemma_slice_starts(range, n, i);
    if value < slice_start(range, n, i + 1) {
        i
    } else {
        assert(i + 1 < n);
        lemma_find_slice(range, n, value, i + 1)
    }
}

/// Splitting loses nothing and hands no value out twice: each value of the
/// range lies in exactly one slice, and each slice lies in the range.
pub proof fn law_split_partitions(range: Extranonce2Range, n: nat, value: int)
    requires
        range.wf(),
        0 < n <= range.count(),
    ensures
        range.slices(n).len() == n,
        range.contains(value) <==> exists|i: int|
            0 <= i < n && (#[trigger] range.slices(n)[i]).contains(value),
        forall|i: int, j: int|
            0 <= i < n && 0 <= j < n && (#[trigger] range.slices(n)[i]).contains(value) && (
            #[trigger] range.slices(n)[j]).contains(value) ==> i == j,
        forall|i: int| 0 <= i < n ==> (#[trigger] range.slices(n)[i]).wf(),
{
    let slices = range.slices(n);
    assert forall|i: int| 0 <= i < n implies (#[trigger] slices[i]).wf() && slices[i].min
        == slice_start(range, n, i as nat) && slices[i].max == slice_start(range, n, (i + 1) as nat)
        - 1 by {
        lemma_slice_starts(range, n, i as nat);
    }
    if range.contains(value) {
        lemma_slice_starts(range, n, 0);
        let k = lemma_find_slice(range, n, value, 0);
        assert(slices[k as int].contains(value));
    }
    assert forall|i: int| 0 <= i < n && (#[trigger] slices[i]).contains(value) implies range.contains(
        value,
    ) by {
        lemma_slice_starts(range, n, i as nat);
    }
    assert forall|i: int, j: int|
        0 <= i < n && 0 <= j < n && (#[trigger] slices[i]).contains(value) && (
        #[trigger] slices[j]).contains(value) implies i == j by {
        if i < j {
            lemma_slice_starts_ordered(range, n, (i + 1) as nat, j as nat);
        } else if j < i {
            lemma_slice_starts_ordered(range, n, (j + 1) as nat, i as nat);
        }
    }
}

/// What a coinbase is assembled from, around its extranonces.
#[derive(Clone, Debug)]
pub struct MerkleRootTemplate {
    pub coinbase1: Vec<u8>,
    pub extranonce1: Vec<u8>,
    pub extranonce2_range: Extranonce2Range,
    pub coinbase2: Vec<u8>,
    pub merkle_branches: Vec<[u8; 32]>,
}

/// The merkle root above `leaf` with these branches.
pub open spec fn fold_branches(leaf: Seq<u8>, branches: Seq<[u8; 32]>) -> Seq<u8>
    decreases branches.len(),
{
    if branches.len() == 0 {
        leaf
    } else {
        double_sha256(fold_branches(leaf, branches.drop_last()) + branches.last()@)
    }
}

impl MerkleRootTemplate {
    /// The serialised coinbase with the given extranonce2.
    pub open spec fn coinbase(&self, en2: Extranonce2) -> Seq<u8> {
        self.coinbase1@ + self.extranonce1@ + le_bytes(en2.value as nat, en2.size as nat)
            + self.coinbase2@
    }

    /// The merkle root with the given extranonce2.
    pub open spec fn root(&self, en2: Extranonce2) -> Seq<u8> {
        fold_branches(double_sha256(self.coinbase(en2)), self.merkle_branches@)
    }

    /// Assembles the coinbase for an extranonce2.
    pub fn assemble_coinbase(&self, en2: &Extranonce2) -> (r: Vec<u8>)
        ensures
            r@ == self.coinbase(*en2),
    {
        let mut coinbase: Vec<u8> = Vec::new();
        append_bytes(&mut coinbase, &self.coinbase1);
        append_bytes(&mut coinbase, &self.extranonce1);
        en2.append_to(&mut coinbase);
        append_bytes(&mut coinbase, &self.coinbase2);
        assert(coinbase@ =~= self.coinbase(*en2));
        coinbase
    }

    /// Assembles the coinbase for an extranonce2 and hashes up the branches.
    pub fn compute_merkle_root(&self, en2: &Extranonce2) -> (r: [u8; 32])
        ensures
            r@ == self.root(*en2),
    {
        let coinbase = self.assemble_coinbase(en2);
        let mut root: [u8; 32] = sha256d(coinbase.as_slice());
        let ghost leaf = root@;
        let mut i: usize = 0;
        while i < self.merkle_branches.len()
            invariant
                i <= self.merkle_branches.len(),
                root@ == fold_branches(leaf, self.merkle_branches@.take(i as int)),
            decreases self.merkle_branches.len() - i,
        {
            let mut pair: Vec<u8> = Vec::new();
            append_array(&mut pair, &root);
            append_array(&mut pair, &self.merkle_branches[i]);
            assert(pair@ =~= root@ + self.merkle_branches@[i as int]@);
            root = sha256d(pair.as_slice());
            assert(self.merkle_branches@.take(i + 1).drop_last() =~= self.merkle_branches@.take(
                i as int,
            ));
            i = i + 1;
        }
        assert(self.merkle_branches@.take(i as int) =~= self.merkle_branches@);
        root
    }
}

fn append_bytes(out: &mut Vec<u8>, bytes: &Vec<u8>)
    ensures
        final(out)@ == old(out)@ + bytes@,
{
    let ghost before = out@;
    let mut i: usize = 0;
    while i < bytes.len()
        invariant
            i <= bytes.len(),
            out@ == before + bytes@.take(i as int),
        decreases bytes.len() - i,
    {
        out.push(bytes[i]);
        assert(bytes@.take(i + 1) =~= bytes@.take(i as int).push(bytes@[i as int]));
        i = i + 1;
    }
    assert(bytes@.take(i as int) =~= bytes@);
}

fn append_array(out: &mut Vec<u8>, bytes: &[u8; 32])
    ensures
        final(out)@ == old(out)@ + bytes@,
{
    let ghost before = out@;
    let mut i: usize = 0;
    while i < 32
        invariant
            i <= 32,
            out@ == before + bytes@.take(i as int),
        decreases 32 - i,
    {
        out.push(bytes[i]);
        assert(bytes@.take(i + 1) =~= bytes@.take(i as int).push(bytes@[i as int]));
        i = i + 1;
    }
    assert(bytes@.take(i as int) =~= bytes@);
}

/// A number of `n` bytes is below the `n`-th power of 256.
pub proof fn law_byte_span(n: nat)
    ensures
        byte_span(n) == pow(256, n),
    decreases n,
{
    if n > 0 {
        law_byte_span((n - 1) as nat);
        assert(pow(256, n) == 256 * pow(256, (n - 1) as nat)) by {
            reveal(pow);
        }
    } else {
        reveal(pow);
    }
}

/// The bytes of a number spell it, least significant first.
pub proof fn law_le_bytes_read_back(value: nat, size: nat)
    ensures
        le_bytes(value, size).len() == size,
        value < byte_span(size) ==> le_value(le_bytes(value, size)) == value,
    decreases size,
{
    if size > 0 {
        law_le_bytes_read_back(value / 256, (size - 1) as nat);
        let bytes = le_bytes(value, size);
        assert(bytes.drop_first() =~= le_bytes(value / 256, (size - 1) as nat));
        assert(bytes[0] == value % 256);
        assert(value == 256 * (value / 256) + value % 256);
    }
}

/// A coinbase is its first part, the two extranonces and its second part, in
/// this order; the second extranonce is spelled least significant byte first, in
/// as many bytes as it has.
pub proof fn law_coinbase_parts(template: MerkleRootTemplate, en2: Extranonce2)
    requires
        en2.wf(),
    ensures
        ({
            let coinbase = template.coinbase(en2);
            let a = template.coinbase1@.len() as int;
            let b = a + template.extranonce1@.len();
            let c = b + en2.size;
            &&& coinbase.len() == c + template.coinbase2@.len()
            &&& coinbase.subrange(0, a) == template.coinbase1@
            &&& coinbase.subrange(a, b) == template.extranonce1@
            &&& le_value(coinbase.subrange(b, c)) == en2.value
            &&& coinbase.skip(c) == template.coinbase2@
        }),
{
    let coinbase = template.coinbase(en2);
    let a = template.coinbase1@.len() as int;
    let b = a + template.extranonce1@.len();
    let c = b + en2.size;
    law_le_bytes_read_back(en2.value as nat, en2.size as nat);
    assert(coinbase.subrange(0, a) =~= template.coinbase1@);
    assert(coinbase.subrange(a, b) =~= template.extranonce1@);
    assert(coinbase.subrange(b, c) =~= le_bytes(en2.value as nat, en2.size as nat));
    assert(coinbase.skip(c) =~= template.coinbase2@);
}

/// Two extranonce2 values of one size never give the same coinbase, so no two
/// threads on separate slices repeat each other's work.
pub proof fn law_coinbases_differ(template: MerkleRootTemplate, a: Extranonce2, b: Extranonce2)
    requires
        a.wf(),
        b.wf(),
        a.size == b.size,
        a.value != b.value,
    ensures
        template.coinbase(a) != template.coinbase(b),
{
    law_coinbase_parts(template, a);
    law_coinbase_parts(template, b);
}

/// Without branches the merkle root is the hash of the coinbase; with one branch
/// more it is the hash of the root so far and that branch.
pub proof fn law_merkle_root(
    template: MerkleRootTemplate,
    longer: MerkleRootTemplate,
    en2: Extranonce2,
    branch: [u8; 32],
)
    requires
        longer.coinbase1 == template.coinbase1,
        longer.extranonce1 == template.extranonce1,
        longer.coinbase2 == template.coinbase2,
        longer.merkle_branches@ == template.merkle_branches@.push(branch),
    ensures
        longer.root(en2) == double_sha256(template.root(en2) + branch@),
        template.merkle_branches@.len() == 0 ==> template.root(en2) == double_sha256(
            template.coinbase(en2),
        ),
{
    assert(longer.merkle_branches@.drop_last() =~= template.merkle_branches@);
    assert(longer.merkle_branches@.last() == branch);
}

/// The slices follow one another without a gap, from the first value of the
/// range to the last; each has the size of the range in bytes; and no two differ
/// by more than one value in length.
pub proof fn law_split_is_even(range: Extranonce2Range, n: nat, i: int, j: int)
    requires
        range.wf(),
        0 < n <= range.count(),
        0 <= i < n,
        0 <= j < n,
    ensures
        ({
            let slices = range.slices(n);
            &&& slices[0].min == range.min
            &&& slices[n - 1].max == range.max
            &&& i + 1 < n ==> slices[i].max + 1 == slices[i + 1].min
            &&& slices[i].size == range.size
            &&& slices[i].count() <= slices[j].count() + 1
        }),
{
    let c = range.count();
    let m = n as int;
    lemma_slice_starts(range, n, i as nat);
    lemma_slice_starts(range, n, j as nat);
    lemma_slice_starts(range, n, 0);
    lemma_slice_starts(range, n, (n - 1) as nat);
    if i + 1 < n {
        lemma_slice_starts(range, n, (i + 1) as nat);
    }
    let low = c / m;
    assert forall|k: int| 0 <= k < n implies low <= #[trigger] slice_start(range, n, (k + 1) as nat)
        - slice_start(range, n, k as nat) <= low + 1 by {
        let a = k * c;
        assert((k + 1) * c == a + c) by (nonlinear_arith)
            requires
                a == k * c,
        ;
        assert(low <= (a + c) / m - a / m <= low + 1) by (nonlinear_arith)
            requires
                m > 0,
                low == c / m,
        ;
    }
    assert(slice_start(range, n, (i + 1) as nat) - slice_start(range, n, i as nat) <= low + 1);
    assert(slice_start(range, n, (j + 1) as nat) - slice_start(range, n, j as nat) >= low);
}

/// Where a job's merkle root comes from.
#[derive(Clone, Debug)]
pub enum MerkleRootKind {
    /// Computed from a coinbase with a chosen extranonce2.
    Computed(MerkleRootTemplate),
    /// Given by the source (header-only mining).
    Fixed([u8; 32]),
}

/// A job as a source hands it out.
#[derive(Clone, Debug)]
pub struct JobTemplate {
    pub id: String,
    pub prev_blockhash: [u8; 32],
    /// Block version before any bit is rolled.
    pub version: u32,
    pub bits: u32,
    /// What a share must meet to be worth submitting to the source.
    pub share_target: Target,
    pub time: u32,
    pub merkle_root: MerkleRootKind,
}

impl JobTemplate {
    pub open spec fn wf(&self) -> bool {
        self.merkle_root matches MerkleRootKind::Computed(t) ==> t.extranonce2_range.wf()
    }
}

/// The range of all extranonce2 values of a size.
pub open spec fn whole_range(
    size: u8,
    r: Option<Extranonce2Range>,
) -> bool {
    &&& r matches Some(range) ==> range.wf() && range.size == size && range.min == 0
        && range.max == byte_span(size as nat) - 1
    &&& r is Some <==> 1 <= size <= 8
}

/// The whole range of a size holds every number of so many bytes, from zero on;
/// there are ranges of one to eight bytes.
pub proof fn law_whole_range(size: u8, r: Option<Extranonce2Range>, value: int)
    requires
        whole_range(size, r),
    ensures
        r is Some <==> 1 <= size <= 8,
        r matches Some(range) ==> {
            &&& range.size == size
            &&& range.wf()
            &&& range.count() == pow(256, size as nat)
            &&& range.contains(value) <==> 0 <= value < pow(256, size as nat)
        },
{
    law_byte_span(size as nat);
}

} // verus!
