//! Chip configuration for BM13xx ASIC chips.
//!
//! All models share the same fields; only the values differ. Use `bm1362()`,
//! `bm1366()` or `bm1370()` for defaults, then modify fields as needed.

use crate::asic::bm13xx::protocol::{pll_config, Frequency, IoDriverStrength, PllConfig};
use crate::job::le_bytes;
use vstd::prelude::*;

verus! {

/// PLL search-space constraints that differ between chip families.
#[derive(Clone, Copy, Debug, PartialEq, Eq, Structural)]
pub struct PllParams {
    /// Smallest feedback divider.
    pub fbdiv_min: u8,
    /// Largest feedback divider.
    pub fbdiv_max: u8,
    /// Whether the first post divider must exceed the second, rather than be
    /// at least as large.
    pub postdiv_strict: bool,
}

impl PllParams {
    /// Constraints of BM1362 and BM1370.
    pub fn bm1362_bm1370() -> (r: PllParams)
        ensures
            r == (PllParams { fbdiv_min: 0xA0, fbdiv_max: 0xEF, postdiv_strict: false }),
    {
        PllParams { fbdiv_min: 0xA0, fbdiv_max: 0xEF, postdiv_strict: false }
    }

    /// Constraints of BM1366 and BM1368.
    pub fn bm1366_bm1368() -> (r: PllParams)
        ensures
            r == (PllParams { fbdiv_min: 0x90, fbdiv_max: 0xEB, postdiv_strict: true }),
    {
        PllParams { fbdiv_min: 0x90, fbdiv_max: 0xEB, postdiv_strict: true }
    }
}

/// Relay settings for the chips at domain boundaries. The four bytes go out
/// lowest first; the second falls by a step per domain.
#[derive(Clone, Copy, Debug, PartialEq, Eq, Structural)]
pub struct UartRelayPerDomain {
    pub byte0: u8,
    /// Second byte for the domain closest to the host.
    pub byte1_base: u8,
    /// How much it falls per domain.
    pub byte1_step: u8,
    pub byte2: u8,
    pub byte3: u8,
}

impl UartRelayPerDomain {
    /// The second byte for a domain, modulo 256.
    pub open spec fn byte1(&self, domain_idx: int) -> int {
        (self.byte1_base - domain_idx * self.byte1_step) % 256
    }

    /// The value for a domain; the one closest to the host has index zero.
    pub open spec fn value(&self, domain_idx: int) -> int {
        self.byte0 + 0x100 * self.byte1(domain_idx) + 0x1_0000 * self.byte2 + 0x100_0000
            * self.byte3
    }

    /// The register value for a domain; the one closest to the host has index
    /// zero.
    pub fn value_for(&self, domain_idx: usize) -> (r: u32)
        ensures
            r == self.value(domain_idx as int),
    {
        let base: u32 = self.byte1_base as u32;
        assert((domain_idx % 256) * self.byte1_step <= 255 * 255) by (nonlinear_arith)
            requires
                domain_idx % 256 <= 255,
                self.byte1_step <= 255,
        ;
        let fall: u32 = ((domain_idx % 256) as u32 * self.byte1_step as u32) % 256;
        let byte1: u32 = (base + 256 - fall) % 256;
        proof {
            let d = domain_idx as int;
            let s = self.byte1_step as int;
            let b = base as int;
            let m = d % 256;
            let k = d / 256;
            assert(d * s == m * s + 256 * (k * s)) by (nonlinear_arith)
                requires
                    d == 256 * k + m,
            ;
            assert(m * s == 256 * ((m * s) / 256) + fall);
            let q = (m * s) / 256 + k * s;
            assert(b - d * s == b - fall - 256 * q);
            vstd::arithmetic::div_mod::lemma_mod_multiples_vanish(-q - 1, b + 256 - fall, 256);
        }
        self.byte0 as u32 + 0x100 * byte1 + 0x1_0000 * self.byte2 as u32 + 0x100_0000
            * self.byte3 as u32
    }
}

/// Init-register values of a chip family, each as the register's 32 bits. A
/// write that a family skips is `None`.
#[derive(Clone, Copy, Debug, PartialEq, Eq)]
pub struct ChainInitRegs {
    /// InitControl, broadcast before the chain is made inactive.
    pub init_control_broadcast: u32,
    /// MiscControl, broadcast before the chain is made inactive.
    pub misc_control_broadcast: u32,
    /// Core, broadcast to enable the hashing cores.
    pub core_broadcast: [u32; 2],
    /// AnalogMux, broadcast.
    pub analog_mux_broadcast: u32,
    /// IoDriverStrength, broadcast in place of the chip's default.
    pub io_driver_broadcast_raw: Option<u32>,
    /// UartRelay with one value for every chip.
    pub uart_relay_perchip: Option<u32>,
    /// UartRelay for the first and last chip of each domain.
    pub uart_relay_perdomain: Option<UartRelayPerDomain>,
    /// InitControl, per chip.
    pub init_control_perchip: u32,
    /// MiscControl, per chip.
    pub misc_control_perchip: u32,
    /// Core, per chip; the last write is followed by a delay.
    pub core_perchip: [u32; 3],
}

/// Configuration of a BM13xx chip.
#[derive(Clone, Copy, Debug, PartialEq, Eq)]
pub struct ChipConfig {
    /// Model identifier.
    pub chip_id: u16,
    pub min_freq: Frequency,
    pub max_freq: Frequency,
    pub io_driver: IoDriverStrength,
    /// How chips divide the nonce space.
    pub nonce_range: u32,
    pub pll_params: PllParams,
    pub init_regs: ChainInitRegs,
    /// Ticket mask broadcast at the end of the per-chip configuration.
    pub post_perchip_ticket_zero_bits: Option<u8>,
    /// Target operating frequency; the thread's default if there is none.
    pub target_frequency: Option<Frequency>,
}

/// The dividers of a PLL. The chip runs at the crystal's 25 MHz times the
/// feedback divider over the product of the others.
#[derive(Clone, Copy, Debug, PartialEq, Eq, Structural)]
pub struct Dividers {
    pub fb: u8,
    pub ref_div: u8,
    pub post1: u8,
    pub post2: u8,
}

impl Dividers {
    /// By how much the dividers slow the crystal down.
    pub open spec fn product(&self) -> int {
        self.ref_div * (self.post1 * self.post2)
    }

    /// Whether a chip of the family may run with these dividers.
    pub open spec fn allowed(&self, params: PllParams) -> bool {
        &&& params.fbdiv_min <= self.fb <= params.fbdiv_max
        &&& self.possible(params.postdiv_strict)
    }

    /// Whether the hardware has these dividers, whatever the feedback divider.
    pub open spec fn possible(&self, postdiv_strict: bool) -> bool {
        &&& 1 <= self.ref_div <= 2
        &&& 1 <= self.post2 <= self.post1 <= 7
        &&& postdiv_strict ==> self.post2 < self.post1
    }

    /// How far the frequency is off, in kilohertz times `product`.
    pub open spec fn offset(&self, khz: u32) -> int {
        let diff = khz * self.product() - 25_000 * self.fb;
        if diff < 0 {
            -diff
        } else {
            diff
        }
    }

    /// What `product` is multiplied by to give 352800, which every product of
    /// dividers divides.
    pub open spec fn scale(&self) -> int {
        (2int / self.ref_div as int) * ((420int / self.post1 as int) * (420int
            / self.post2 as int))
    }

    /// The frequency error in units of 1/352800 kHz.
    pub open spec fn error(&self, khz: u32) -> int {
        self.offset(khz) * self.scale()
    }

    /// The VCO frequency in units of 12.5 MHz.
    pub open spec fn vco(&self) -> int {
        self.fb * (2int / self.ref_div as int)
    }

    /// Where these dividers come in the order in which they are tried: the
    /// reference divider 2 before 1, then larger post dividers before smaller
    /// ones.
    pub open spec fn position(&self) -> int {
        (2 - self.ref_div) * 49 + (7 - self.post1) * 7 + (7 - self.post2)
    }

    /// The configuration with these dividers.
    pub open spec fn config(&self) -> PllConfig {
        pll_config(self.fb, self.ref_div, (16 * (self.post1 - 1) + (self.post2 - 1)) as u8)
    }
}

/// Whether `a` comes closer to the frequency than `b`, or as close with a lower
/// VCO frequency.
pub open spec fn beats(khz: u32, a: Dividers, b: Dividers) -> bool {
    a.error(khz) < b.error(khz) || (a.error(khz) == b.error(khz) && a.vco() < b.vco())
}

/// Whether `d` is the choice among the dividers at the first `n` positions: none
/// of those beats it, and it beats those that come earlier.
pub open spec fn chosen(params: PllParams, khz: u32, n: int, d: Dividers) -> bool {
    &&& d.allowed(params)
    &&& d.position() < n
    &&& forall|o: Dividers| #[trigger]
        o.allowed(params) && o.position() < n ==> !beats(khz, o, d) && (o.position()
            < d.position() ==> beats(khz, d, o))
}

/// What stands in where the range of feedback dividers is empty.
pub open spec fn fallback_pll(params: PllParams) -> PllConfig {
    pll_config(
        params.fbdiv_min,
        2,
        if params.postdiv_strict {
            0x65
        } else {
            0x55
        },
    )
}

/// Whether `config` is the PLL configuration for a frequency: that of the
/// choice among all dividers that the family allows.
pub open spec fn is_pll_for(params: PllParams, khz: u32, config: PllConfig) -> bool {
    ||| exists|d: Dividers| #[trigger] chosen(params, khz, 98, d) && config == d.config()
    ||| params.fbdiv_min > params.fbdiv_max && config == fallback_pll(params)
}

/// No dividers that the family allows come closer to the frequency than those
/// that are used, and none come as close with a lower VCO frequency.
pub proof fn law_pll_is_closest(params: PllParams, khz: u32, config: PllConfig, o: Dividers)
    requires
        is_pll_for(params, khz, config),
        o.allowed(params),
    ensures
        exists|d: Dividers| #[trigger]
            d.allowed(params) && config == d.config() && d.error(khz) <= o.error(khz) && (d.error(
                khz,
            ) == o.error(khz) ==> d.vco() <= o.vco()),
{
    let d = choose|d: Dividers| #[trigger] chosen(params, khz, 98, d) && config == d.config();
    assert(chosen(params, khz, 98, d));
    assert(!beats(khz, o, d));
    assert(d.allowed(params));
}

/// Every post divider divides 420.
proof fn lemma_divides(p: int)
    requires
        1 <= p <= 7,
    ensures
        (420int / p) * p == 420,
{
    let q = 420int / p;
    if p == 1 {
        assert(q == 420);
    } else if p == 2 {
        assert(q == 210);
    } else if p == 3 {
        assert(q == 140);
    } else if p == 4 {
        assert(q == 105);
    } else if p == 5 {
        assert(q == 84);
    } else if p == 6 {
        assert(q == 70);
    } else {
        assert(p == 7 && q == 60);
    }
    assert(q * p == 420) by (nonlinear_arith)
        requires
            (p == 1 && q == 420) || (p == 2 && q == 210) || (p == 3 && q == 140) || (p == 4 && q
                == 105) || (p == 5 && q == 84) || (p == 6 && q == 70) || (p == 7 && q == 60),
    ;
}

/// The scale and the product make up the common multiple.
proof fn lemma_scale_times_product(d: Dividers)
    requires
        d.possible(false),
    ensures
        d.scale() * d.product() == 352_800,
        (2int / d.ref_div as int) * d.ref_div == 2,
{
    let r = 2int / d.ref_div as int;
    let a = 420int / d.post1 as int;
    let b = 420int / d.post2 as int;
    let rd = d.ref_div as int;
    let p1 = d.post1 as int;
    let p2 = d.post2 as int;
    assert(r * rd == 2) by (nonlinear_arith)
        requires
            rd == 1 || rd == 2,
            r == 2int / rd,
    ;
    lemma_divides(p1);
    lemma_divides(p2);
    assert((r * (a * b)) * (rd * (p1 * p2)) == (r * rd) * ((a * p1) * (b * p2)))
        by (nonlinear_arith);
    assert((r * rd) * ((a * p1) * (b * p2)) == 2 * (420 * 420)) by (nonlinear_arith)
        requires
            r * rd == 2,
            a * p1 == 420,
            b * p2 == 420,
    ;
}

/// How far 25 MHz times `fb` over `product` is from a frequency, in kilohertz
/// times `product`.
pub open spec fn distance(khz: u32, fb: int, product: int) -> int {
    if khz * product >= 25_000 * fb {
        khz * product - 25_000 * fb
    } else {
        25_000 * fb - khz * product
    }
}

/// The frequency that a configuration gives is the closest that any dividers of
/// the family can give, as fractions compare; at the same distance its VCO is no
/// faster; and of dividers alike in both the first is taken, with the larger
/// reference divider, then the larger first and then the larger second post
/// divider.
pub proof fn law_pll_frequency_is_closest(
    params: PllParams,
    khz: u32,
    config: PllConfig,
    fb: u8,
    ref_div: u8,
    post1: u8,
    post2: u8,
)
    requires
        is_pll_for(params, khz, config),
        params.fbdiv_min <= fb <= params.fbdiv_max,
        1 <= ref_div <= 2,
        1 <= post2 <= post1 <= 7,
        params.postdiv_strict ==> post2 < post1,
    ensures
        ({
            let own_post1 = config.post_div / 16 + 1;
            let own_post2 = config.post_div % 16 + 1;
            let own = config.ref_div * (own_post1 * own_post2);
            let other = ref_div * (post1 * post2);
            let near = distance(khz, config.fb_div as int, own) * other;
            let far = distance(khz, fb as int, other) * own;
            &&& near <= far
            &&& near == far ==> config.fb_div * ref_div <= fb * config.ref_div
            &&& near == far && config.fb_div * ref_div == fb * config.ref_div ==> {
                ||| config.ref_div > ref_div
                ||| config.ref_div == ref_div && own_post1 > post1
                ||| config.ref_div == ref_div && own_post1 == post1 && own_post2 >= post2
            }
        }),
{
    let o = Dividers { fb, ref_div, post1, post2 };
    assert(o.allowed(params));
    let d = choose|d: Dividers| #[trigger] chosen(params, khz, 98, d) && config == d.config();
    assert(chosen(params, khz, 98, d));
    assert(d.allowed(params));
    assert(!beats(khz, o, d));
    assert(d.possible(false) && o.possible(false));
    assert(config.post_div / 16 + 1 == d.post1 && config.post_div % 16 + 1 == d.post2);
    lemma_scale_times_product(d);
    lemma_scale_times_product(o);
    lemma_scale(d);
    lemma_scale(o);
    let own = d.product();
    let other = o.product();
    let near = d.offset(khz);
    let far = o.offset(khz);
    lemma_fractions(near, d.scale(), own, far, o.scale(), other, 352_800);
    let a = 2int / d.ref_div as int;
    let b = 2int / o.ref_div as int;
    lemma_fractions(d.fb as int, a, d.ref_div as int, o.fb as int, b, o.ref_div as int, 2);
}

/// Scaling two numbers to one denominator compares them as fractions.
proof fn lemma_fractions(x: int, sx: int, px: int, y: int, sy: int, py: int, all: int)
    requires
        sx * px == all,
        sy * py == all,
        all > 0,
        px > 0,
        py > 0,
    ensures
        x * sx <= y * sy <==> x * py <= y * px,
        x * sx == y * sy <==> x * py == y * px,
{
    let m = px * py;
    assert((x * sx) * m == (x * py) * all) by (nonlinear_arith)
        requires
            sx * px == all,
            m == px * py,
    ;
    assert((y * sy) * m == (y * px) * all) by (nonlinear_arith)
        requires
            sy * py == all,
            m == px * py,
    ;
    assert(m > 0) by (nonlinear_arith)
        requires
            px > 0,
            py > 0,
            m == px * py,
    ;
    let l = x * sx;
    let r = y * sy;
    let l2 = x * py;
    let r2 = y * px;
    assert(l <= r <==> l2 <= r2) by (nonlinear_arith)
        requires
            l * m == l2 * all,
            r * m == r2 * all,
            m > 0,
            all > 0,
    ;
    assert(l >= r <==> l2 >= r2) by (nonlinear_arith)
        requires
            l * m == l2 * all,
            r * m == r2 * all,
            m > 0,
            all > 0,
    ;
}

/// The feedback and post dividers keep the family's constraints, whatever the
/// frequency.
pub proof fn law_pll_keeps_constraints(params: PllParams, khz: u32, config: PllConfig)
    requires
        is_pll_for(params, khz, config),
    ensures
        params.fbdiv_min <= params.fbdiv_max ==> params.fbdiv_min <= config.fb_div
            <= params.fbdiv_max,
        1 <= config.ref_div <= 2,
        config.post_div / 16 >= config.post_div % 16,
        params.postdiv_strict ==> config.post_div / 16 > config.post_div % 16,
        config.flag == if 25 * config.fb_div >= 2400 * config.ref_div {
            0x50u8
        } else {
            0x40u8
        },
{
    if exists|d: Dividers| #[trigger] chosen(params, khz, 98, d) && config == d.config() {
        let d = choose|d: Dividers| #[trigger] chosen(params, khz, 98, d) && config == d.config();
        assert(d.allowed(params));
    }
}

/// The configuration depends on the family's constraints and the frequency
/// alone, so families with the same constraints get the same one.
pub proof fn law_pll_is_unique(params: PllParams, khz: u32, a: PllConfig, b: PllConfig)
    requires
        is_pll_for(params, khz, a),
        is_pll_for(params, khz, b),
    ensures
        a == b,
{
    if exists|d: Dividers| #[trigger] chosen(params, khz, 98, d) && a == d.config() {
        let d = choose|d: Dividers| #[trigger] chosen(params, khz, 98, d) && a == d.config();
        assert(d.allowed(params));
        let e = choose|e: Dividers| #[trigger] chosen(params, khz, 98, e) && b == e.config();
        assert(e.allowed(params));
        assert(d.position() == e.position());
        assert(d.ref_div == e.ref_div && d.post1 == e.post1 && d.post2 == e.post2);
        assert(d.vco() == e.vco());
        assert(d.fb == e.fb) by (nonlinear_arith)
            requires
                1 <= d.ref_div <= 2,
                d.ref_div == e.ref_div,
                d.fb * (2int / d.ref_div as int) == e.fb * (2int / e.ref_div as int),
        ;
    }
}

/// The scale and the product of dividers are positive and bounded.
proof fn lemma_scale(d: Dividers)
    requires
        d.possible(false),
    ensures
        1 <= 2int / d.ref_div as int <= 2,
        1 <= d.scale() <= 352_800,
        1 <= d.product() <= 98,
{
    let r = 2int / d.ref_div as int;
    let a = 420int / d.post1 as int;
    let b = 420int / d.post2 as int;
    assert(1 <= r <= 2 && 60 <= a <= 420 && 60 <= b <= 420) by (nonlinear_arith)
        requires
            1 <= d.ref_div <= 2,
            1 <= d.post1 <= 7,
            1 <= d.post2 <= 7,
            r == 2int / d.ref_div as int,
            a == 420int / d.post1 as int,
            b == 420int / d.post2 as int,
    ;
    assert(1 <= a * b <= 176_400) by (nonlinear_arith)
        requires
            60 <= a <= 420,
            60 <= b <= 420,
    ;
    let ab = a * b;
    assert(1 <= r * ab <= 352_800) by (nonlinear_arith)
        requires
            1 <= r <= 2,
            1 <= ab <= 176_400,
    ;
    assert(1 <= d.post1 * d.post2 <= 49) by (nonlinear_arith)
        requires
            1 <= d.post1 <= 7,
            1 <= d.post2 <= 7,
    ;
    let posts = d.post1 * d.post2;
    assert(1 <= d.ref_div * posts <= 98) by (nonlinear_arith)
        requires
            1 <= d.ref_div <= 2,
            1 <= posts <= 49,
    ;
}

/// Of dividers that differ only in the feedback divider, the one with the
/// nearest is not beaten.
proof fn lemma_nearest_not_beaten(khz: u32, d: Dividers, o: Dividers)
    requires
        d.possible(false),
        (o.ref_div, o.post1, o.post2) == (d.ref_div, d.post1, d.post2),
        d.offset(khz) < o.offset(khz) || (d.offset(khz) == o.offset(khz) && d.fb <= o.fb),
    ensures
        !beats(khz, o, d),
{
    lemma_scale(d);
    let scale = d.scale();
    let near = d.offset(khz);
    let far = o.offset(khz);
    assert(near < far ==> near * scale < far * scale) by (nonlinear_arith)
        requires
            scale >= 1,
    ;
    let r = 2int / d.ref_div as int;
    assert(d.fb <= o.fb ==> d.fb * r <= o.fb * r) by (nonlinear_arith)
        requires
            r >= 1,
    ;
}

/// Dividers at the same position differ at most in the feedback divider.
proof fn lemma_same_position(d: Dividers, o: Dividers)
    requires
        1 <= d.ref_div <= 2,
        1 <= d.post1 <= 7,
        1 <= d.post2 <= 7,
        o.possible(false),
        d.position() == o.position(),
    ensures
        (o.ref_div, o.post1, o.post2) == (d.ref_div, d.post1, d.post2),
{
}

/// The choice among one position more: the dividers `d` at that position if
/// they beat the choice so far, and else the choice so far.
proof fn lemma_one_more(params: PllParams, khz: u32, best: Dividers, d: Dividers)
    requires
        d.allowed(params),
        chosen(params, khz, d.position(), best),
        forall|o: Dividers| #[trigger]
            o.allowed(params) && o.position() == d.position() ==> !beats(khz, o, d),
    ensures
        chosen(
            params,
            khz,
            d.position() + 1,
            if beats(khz, d, best) {
                d
            } else {
                best
            },
        ),
{
    let n = d.position();
    if beats(khz, d, best) {
        assert forall|o: Dividers| #[trigger] o.allowed(params) && o.position() < n
            + 1 implies !beats(khz, o, d) && (o.position() < n ==> beats(khz, d, o)) by {
            if o.position() < n {
                assert(!beats(khz, o, best));
            }
        }
    } else {
        assert forall|o: Dividers| #[trigger] o.allowed(params) && o.position() < n
            + 1 implies !beats(khz, o, best) && (o.position() < best.position() ==> beats(
            khz,
            best,
            o,
        )) by {
            if o.position() == n {
                assert(!beats(khz, o, d));
            }
        }
    }
}

/// The feedback divider in a range that comes closest to a frequency; of two
/// the lower.
fn nearest_fb(params: &PllParams, khz: u32, d: Dividers) -> (r: u8)
    requires
        params.fbdiv_min <= params.fbdiv_max,
        d.possible(false),
    ensures
        params.fbdiv_min <= r <= params.fbdiv_max,
        forall|o: Dividers|
            (o.ref_div, o.post1, o.post2) == (d.ref_div, d.post1, d.post2) && params.fbdiv_min
                <= o.fb <= params.fbdiv_max ==> {
                let c = Dividers { fb: r, ..d };
                c.offset(khz) < #[trigger] o.offset(khz) || (c.offset(khz) == o.offset(khz) && r
                    <= o.fb)
            },
{
    let exact: u64 = exact_of(khz, d);
    let nearest: u64 = (2 * exact + 24_999) / 50_000;
    let r: u8 = if nearest < params.fbdiv_min as u64 {
        params.fbdiv_min
    } else if nearest > params.fbdiv_max as u64 {
        params.fbdiv_max
    } else {
        nearest as u8
    };
    assert forall|o: Dividers|
        (o.ref_div, o.post1, o.post2) == (d.ref_div, d.post1, d.post2) && params.fbdiv_min <= o.fb
            <= params.fbdiv_max implies ({
        let c = Dividers { fb: r, ..d };
        c.offset(khz) < #[trigger] o.offset(khz) || (c.offset(khz) == o.offset(khz) && r <= o.fb)
    }) by {
        let c = Dividers { fb: r, ..d };
        assert(o.product() == d.product() && c.product() == d.product());
        assert(-24_999 <= 2 * exact - 50_000 * nearest <= 25_000);
    }
    r
}

/// The frequency times the dividers' product.
fn exact_of(khz: u32, d: Dividers) -> (r: u64)
    requires
        d.possible(false),
    ensures
        r == khz * d.product(),
        r <= 98 * u32::MAX,
{
    proof {
        lemma_scale(d);
    }
    assert(1 <= d.post1 * d.post2 <= 49) by (nonlinear_arith)
        requires
            1 <= d.post1 <= 7,
            1 <= d.post2 <= 7,
    ;
    let posts: u64 = d.post1 as u64 * d.post2 as u64;
    let product: u64 = if d.ref_div == 2 {
        2 * posts
    } else {
        posts
    };
    assert(product == d.product()) by (nonlinear_arith)
        requires
            1 <= d.ref_div <= 2,
            posts == d.post1 * d.post2,
            product == if d.ref_div == 2 {
                2 * posts
            } else {
                posts as int
            },
    ;
    assert(khz * product <= 98 * u32::MAX) by (nonlinear_arith)
        requires
            khz <= u32::MAX,
            product <= 98,
    ;
    khz as u64 * product
}

/// The dividers at a position, with no feedback divider yet.
fn dividers_at(i: u8) -> (r: Dividers)
    requires
        i < 98,
    ensures
        1 <= r.ref_div <= 2,
        1 <= r.post1 <= 7,
        1 <= r.post2 <= 7,
        r.position() == i,
{
    let ref_div: u8 = if i < 49 {
        2
    } else {
        1
    };
    Dividers { fb: 0, ref_div, post1: 7 - (i % 49) / 7, post2: 7 - i % 7 }
}

/// The dividers at a position that come closest to a frequency, if the family
/// allows any.
fn candidate_at(params: &PllParams, khz: u32, i: u8) -> (r: Option<Dividers>)
    requires
        params.fbdiv_min <= params.fbdiv_max,
        i < 98,
    ensures
        match r {
            Some(d) => {
                &&& d.allowed(*params)
                &&& d.position() == i
                &&& forall|o: Dividers| #[trigger]
                    o.allowed(*params) && o.position() == i ==> !beats(khz, o, d)
            },
            None => forall|o: Dividers| #[trigger] o.allowed(*params) ==> o.position() != i,
        },
{
    let blank: Dividers = dividers_at(i);
    if blank.post2 > blank.post1 || (params.postdiv_strict && blank.post2 == blank.post1) {
        assert forall|o: Dividers| #[trigger] o.allowed(*params) implies o.position() != i by {
            if o.position() == i {
                lemma_same_position(blank, o);
            }
        }
        return None;
    }
    let fb: u8 = nearest_fb(params, khz, blank);
    let d = Dividers { fb, ..blank };
    assert forall|o: Dividers| #[trigger] o.allowed(*params) && o.position() == i implies !beats(
        khz,
        o,
        d,
    ) by {
        lemma_same_position(blank, o);
        let near = d.offset(khz);
        let far = o.offset(khz);
        assert(near < far || (near == far && fb <= o.fb));
        lemma_nearest_not_beaten(khz, d, o);
    }
    Some(d)
}

/// The rank of dividers at a frequency: their error and VCO frequency.
fn rank(khz: u32, d: Dividers) -> (r: (u64, u32))
    requires
        d.possible(false),
    ensures
        r.0 == d.error(khz),
        r.1 == d.vco(),
{
    proof {
        lemma_scale(d);
    }
    let exact: u64 = exact_of(khz, d);
    let reached: u64 = 25_000 * d.fb as u64;
    let offset: u64 = if exact >= reached {
        exact - reached
    } else {
        reached - exact
    };
    let ref_scale: u64 = 2 / d.ref_div as u64;
    let scale1: u64 = 420 / d.post1 as u64;
    let scale2: u64 = 420 / d.post2 as u64;
    assert(scale1 <= 420 && scale2 <= 420) by (nonlinear_arith)
        requires
            1 <= d.post1 <= 7,
            1 <= d.post2 <= 7,
            scale1 == 420u64 / d.post1 as u64,
            scale2 == 420u64 / d.post2 as u64,
    ;
    assert(scale1 * scale2 <= 176_400) by (nonlinear_arith)
        requires
            scale1 <= 420,
            scale2 <= 420,
    ;
    let posts_scale: u64 = scale1 * scale2;
    assert(ref_scale * posts_scale <= 352_800) by (nonlinear_arith)
        requires
            ref_scale <= 2,
            posts_scale <= 176_400,
    ;
    let scale: u64 = ref_scale * posts_scale;
    assert(offset * scale <= 98 * u32::MAX * 352_800) by (nonlinear_arith)
        requires
            offset <= 98 * u32::MAX,
            scale <= 352_800,
    ;
    assert(d.fb * ref_scale <= 510) by (nonlinear_arith)
        requires
            d.fb <= 255,
            ref_scale <= 2,
    ;
    (offset * scale, (d.fb as u64 * ref_scale) as u32)
}

impl ChipConfig {
    /// Checks whether a chip ID matches this configuration.
    pub fn verify_chip_id(&self, id: u16) -> (r: bool)
        ensures
            r == (self.chip_id == id),
    {
        self.chip_id == id
    }

    /// The PLL configuration that comes closest to a frequency, with dividers
    /// that the family allows. Of several that come equally close the one with
    /// the lowest VCO frequency is taken, and of those the first that is tried.
    pub fn calculate_pll(&self, freq: Frequency) -> (r: PllConfig)
        ensures
            is_pll_for(self.pll_params, freq.0, r),
    {
        let params = self.pll_params;
        let khz: u32 = freq.0;
        if params.fbdiv_min > params.fbdiv_max {
            let post_div: u8 = if params.postdiv_strict {
                0x65
            } else {
                0x55
            };
            return PllConfig::new(params.fbdiv_min, 2, post_div);
        }
        let mut best = Dividers { fb: params.fbdiv_min, ref_div: 2, post1: 7, post2: 6 };
        let mut found: bool = false;
        let mut i: u8 = 0;
        while i < 98
            invariant
                i <= 98,
                params.fbdiv_min <= params.fbdiv_max,
                best.possible(params.postdiv_strict),
                found ==> chosen(params, khz, i as int, best),
                !found ==> forall|o: Dividers| #[trigger] o.allowed(params) ==> o.position() >= i,
            decreases 98 - i,
        {
            if let Some(d) = candidate_at(&params, khz, i) {
                let (error, vco) = rank(khz, d);
                let (best_error, best_vco) = rank(khz, best);
                proof {
                    if found {
                        lemma_one_more(params, khz, best, d);
                    }
                }
                if !found || error < best_error || (error == best_error && vco < best_vco) {
                    best = d;
                    found = true;
                }
            }
            i = i + 1;
        }
        proof {
            let first = Dividers { fb: params.fbdiv_min, ref_div: 2, post1: 7, post2: 6 };
            assert(first.allowed(params) && first.position() == 1);
        }
        assert(chosen(params, khz, 98, best));
        PllConfig::new(best.fb, best.ref_div, 16 * (best.post1 - 1) + (best.post2 - 1))
    }
}

/// BM1362 defaults (EmberOne, S19j Pro).
pub fn bm1362() -> (r: ChipConfig)
    ensures
        is_bm1362(r),
{
    ChipConfig {
        chip_id: 0x1362,
        min_freq: Frequency(50_000),
        max_freq: Frequency(525_000),
        io_driver: IoDriverStrength::Normal,
        nonce_range: 0x8118_0000,
        pll_params: PllParams::bm1362_bm1370(),
        init_regs: bm1362_init(),
        post_perchip_ticket_zero_bits: None,
        target_frequency: None,
    }
}

/// The defaults of BM1362.
pub open spec fn is_bm1362(r: ChipConfig) -> bool {
    &&& r.chip_id == 0x1362
    &&& r.min_freq == Frequency(50_000)
    &&& r.max_freq == Frequency(525_000)
    &&& r.io_driver == IoDriverStrength::Normal
    &&& r.nonce_range == 0x8118_0000
    &&& r.pll_params == (PllParams { fbdiv_min: 0xA0, fbdiv_max: 0xEF, postdiv_strict: false })
    &&& is_bm1362_init(r.init_regs)
    &&& r.post_perchip_ticket_zero_bits is None
    &&& r.target_frequency is None
}

/// The init registers of BM1362, which BM1370 shares.
pub open spec fn is_bm1362_init(r: ChainInitRegs) -> bool {
    &&& r.init_control_broadcast == 0
    &&& r.misc_control_broadcast == 0x00C1_00B0
    &&& r.core_broadcast@ == seq![0x8000_8540u32, 0x8000_8008]
    &&& r.analog_mux_broadcast == 0x0300_0000
    &&& r.io_driver_broadcast_raw is None
    &&& r.uart_relay_perchip is None
    &&& r.uart_relay_perdomain is None
    &&& r.init_control_perchip == 0x0200_0000
    &&& r.misc_control_perchip == 0x00C1_00B0
    &&& r.core_perchip@ == seq![0x8000_8540u32, 0x8000_8008, 0x8000_82AA]
}

fn bm1362_init() -> (r: ChainInitRegs)
    ensures
        is_bm1362_init(r),
{
    ChainInitRegs {
        init_control_broadcast: 0x0000_0000,
        // Wire bytes B0 00 C1 00.
        misc_control_broadcast: 0x00C1_00B0,
        // Wire bytes 40 85 00 80 and 08 80 00 80.
        core_broadcast: [0x8000_8540, 0x8000_8008],
        analog_mux_broadcast: 0x0300_0000,
        io_driver_broadcast_raw: None,
        uart_relay_perchip: None,
        uart_relay_perdomain: None,
        init_control_perchip: 0x0200_0000,
        misc_control_perchip: 0x00C1_00B0,
        core_perchip: [0x8000_8540, 0x8000_8008, 0x8000_82AA],
    }
}

/// BM1366 defaults (S19k Pro, Bitaxe Supra).
///
/// The relay settings, the ticket mask and the target frequency are those of
/// the 77-chip S19k Pro hashboard.
pub fn bm1366() -> (r: ChipConfig)
    ensures
        is_bm1366(r),
{
    ChipConfig {
        chip_id: 0x1366,
        min_freq: Frequency(50_000),
        max_freq: Frequency(660_000),
        io_driver: IoDriverStrength::Normal,
        nonce_range: 0x5A10_0000,
        pll_params: PllParams::bm1366_bm1368(),
        init_regs: ChainInitRegs {
            // Wire bytes 00 07 00 00.
            init_control_broadcast: 0x0000_0700,
            // Wire bytes FF 0F C1 00.
            misc_control_broadcast: 0x00C1_0FFF,
            // Wire bytes 80 00 85 40 and 80 00 80 20.
            core_broadcast: [0x4085_0080, 0x2080_0080],
            analog_mux_broadcast: 0x0300_0000,
            // Wire bytes 02 11 41 11.
            io_driver_broadcast_raw: Some(0x1141_1102),
            uart_relay_perchip: None,
            uart_relay_perdomain: Some(
                UartRelayPerDomain {
                    byte0: 0x00,
                    byte1_base: 0x5B,
                    byte1_step: 0x07,
                    byte2: 0x00,
                    byte3: 0x03,
                },
            ),
            // Wire bytes 00 07 01 F0.
            init_control_perchip: 0xF001_0700,
            // Wire bytes F0 00 C1 00.
            misc_control_perchip: 0x00C1_00F0,
            // Wire bytes 80 00 85 40, 80 00 80 20 and 80 00 82 AA.
            core_perchip: [0x4085_0080, 0x2080_0080, 0xAA82_0080],
        },
        post_perchip_ticket_zero_bits: Some(2),
        target_frequency: Some(Frequency(575_000)),
    }
}

/// BM1370 defaults (Bitaxe Gamma, S21 Pro).
pub fn bm1370() -> (r: ChipConfig)
    ensures
        is_bm1370(r),
{
    ChipConfig {
        chip_id: 0x1370,
        min_freq: Frequency(50_000),
        max_freq: Frequency(600_000),
        io_driver: IoDriverStrength::Normal,
        nonce_range: 0xB51E_0000,
        pll_params: PllParams::bm1362_bm1370(),
        init_regs: bm1362_init(),
        post_perchip_ticket_zero_bits: None,
        target_frequency: None,
    }
}

/// The defaults of BM1366.
pub open spec fn is_bm1366(
    r: ChipConfig,
) -> bool {
    &&& r.chip_id == 0x1366
    &&& r.min_freq == Frequency(50_000)
    &&& r.max_freq == Frequency(660_000)
    &&& r.io_driver == IoDriverStrength::Normal
    &&& r.nonce_range == 0x5A10_0000
    &&& r.pll_params == (PllParams { fbdiv_min: 0x90, fbdiv_max: 0xEB, postdiv_strict: true })
    &&& r.init_regs.init_control_broadcast == 0x0000_0700
    &&& r.init_regs.misc_control_broadcast == 0x00C1_0FFF
    &&& r.init_regs.core_broadcast@ == seq![0x4085_0080u32, 0x2080_0080]
    &&& r.init_regs.analog_mux_broadcast == 0x0300_0000
    &&& r.init_regs.io_driver_broadcast_raw == Some(0x1141_1102u32)
    &&& r.init_regs.uart_relay_perchip is None
    &&& r.init_regs.uart_relay_perdomain == Some(
        UartRelayPerDomain {
            byte0: 0x00,
            byte1_base: 0x5B,
            byte1_step: 0x07,
            byte2: 0x00,
            byte3: 0x03,
        },
    )
    &&& r.init_regs.init_control_perchip == 0xF001_0700
    &&& r.init_regs.misc_control_perchip == 0x00C1_00F0
    &&& r.init_regs.core_perchip@ == seq![0x4085_0080u32, 0x2080_0080, 0xAA82_0080]
    &&& r.post_perchip_ticket_zero_bits == Some(2u8)
    &&& r.target_frequency == Some(Frequency(575_000))
}

/// The defaults of BM1370.
pub open spec fn is_bm1370(
    r: ChipConfig,
) -> bool {
    &&& r.chip_id == 0x1370
    &&& r.min_freq == Frequency(50_000)
    &&& r.max_freq == Frequency(600_000)
    &&& r.io_driver == IoDriverStrength::Normal
    &&& r.nonce_range == 0xB51E_0000
    &&& r.pll_params == (PllParams { fbdiv_min: 0xA0, fbdiv_max: 0xEF, postdiv_strict: false })
    &&& is_bm1362_init(r.init_regs)
    &&& r.post_perchip_ticket_zero_bits is None
    &&& r.target_frequency is None
}

/// What the registers of a family look like on the wire, least significant byte
/// first. The first two values that start a chip's cores are those that were
/// broadcast, and the third is the chip's own.
pub proof fn law_wire_bytes(a: ChipConfig, b: ChipConfig, c: ChipConfig)
    requires
        is_bm1362(a),
        is_bm1366(b),
        is_bm1370(c),
    ensures
        le_bytes(a.init_regs.init_control_broadcast as nat, 4) == seq![0x00u8, 0x00, 0x00, 0x00],
        le_bytes(a.init_regs.misc_control_broadcast as nat, 4) == seq![0xB0u8, 0x00, 0xC1, 0x00],
        le_bytes(a.init_regs.init_control_perchip as nat, 4) == seq![0x00u8, 0x00, 0x00, 0x02],
        le_bytes(a.init_regs.core_broadcast@[0] as nat, 4) == seq![0x40u8, 0x85, 0x00, 0x80],
        le_bytes(a.init_regs.core_broadcast@[1] as nat, 4) == seq![0x08u8, 0x80, 0x00, 0x80],
        le_bytes(a.init_regs.core_perchip@[2] as nat, 4) == seq![0xAAu8, 0x82, 0x00, 0x80],
        le_bytes(a.init_regs.analog_mux_broadcast as nat, 4) == seq![0x00u8, 0x00, 0x00, 0x03],
        a.init_regs.misc_control_perchip == a.init_regs.misc_control_broadcast,
        le_bytes(b.init_regs.init_control_broadcast as nat, 4) == seq![0x00u8, 0x07, 0x00, 0x00],
        le_bytes(b.init_regs.misc_control_broadcast as nat, 4) == seq![0xFFu8, 0x0F, 0xC1, 0x00],
        le_bytes(b.init_regs.core_broadcast@[0] as nat, 4) == seq![0x80u8, 0x00, 0x85, 0x40],
        le_bytes(b.init_regs.core_broadcast@[1] as nat, 4) == seq![0x80u8, 0x00, 0x80, 0x20],
        le_bytes(b.init_regs.core_perchip@[2] as nat, 4) == seq![0x80u8, 0x00, 0x82, 0xAA],
        le_bytes(b.init_regs.init_control_perchip as nat, 4) == seq![0x00u8, 0x07, 0x01, 0xF0],
        le_bytes(b.init_regs.misc_control_perchip as nat, 4) == seq![0xF0u8, 0x00, 0xC1, 0x00],
        b.init_regs.io_driver_broadcast_raw matches Some(raw) && le_bytes(raw as nat, 4)
            == seq![0x02u8, 0x11, 0x41, 0x11],
        b.init_regs.analog_mux_broadcast == a.init_regs.analog_mux_broadcast,
        forall|i: int|
            0 <= i < 2 ==> #[trigger] a.init_regs.core_perchip@[i]
                == a.init_regs.core_broadcast@[i],
        forall|i: int|
            0 <= i < 2 ==> #[trigger] b.init_regs.core_perchip@[i]
                == b.init_regs.core_broadcast@[i],
        c.init_regs.core_perchip@ == a.init_regs.core_perchip@,
        c.init_regs.core_broadcast@ == a.init_regs.core_broadcast@,
        c.init_regs.misc_control_perchip == a.init_regs.misc_control_perchip,
        c.init_regs.init_control_perchip == a.init_regs.init_control_perchip,
        c.pll_params == a.pll_params,
{
    reveal_with_fuel(le_bytes, 5);
    let x = a.init_regs;
    let y = b.init_regs;
    assert(le_bytes(x.init_control_broadcast as nat, 4) =~= seq![0x00u8, 0x00, 0x00, 0x00]);
    assert(le_bytes(x.misc_control_broadcast as nat, 4) =~= seq![0xB0u8, 0x00, 0xC1, 0x00]);
    assert(le_bytes(x.init_control_perchip as nat, 4) =~= seq![0x00u8, 0x00, 0x00, 0x02]);
    assert(le_bytes(x.core_broadcast@[0] as nat, 4) =~= seq![0x40u8, 0x85, 0x00, 0x80]);
    assert(le_bytes(x.core_broadcast@[1] as nat, 4) =~= seq![0x08u8, 0x80, 0x00, 0x80]);
    assert(le_bytes(x.core_perchip@[2] as nat, 4) =~= seq![0xAAu8, 0x82, 0x00, 0x80]);
    assert(le_bytes(x.analog_mux_broadcast as nat, 4) =~= seq![0x00u8, 0x00, 0x00, 0x03]);
    assert(le_bytes(y.init_control_broadcast as nat, 4) =~= seq![0x00u8, 0x07, 0x00, 0x00]);
    assert(le_bytes(y.misc_control_broadcast as nat, 4) =~= seq![0xFFu8, 0x0F, 0xC1, 0x00]);
    assert(le_bytes(y.core_broadcast@[0] as nat, 4) =~= seq![0x80u8, 0x00, 0x85, 0x40]);
    assert(le_bytes(y.core_broadcast@[1] as nat, 4) =~= seq![0x80u8, 0x00, 0x80, 0x20]);
    assert(le_bytes(y.core_perchip@[2] as nat, 4) =~= seq![0x80u8, 0x00, 0x82, 0xAA]);
    assert(le_bytes(y.init_control_perchip as nat, 4) =~= seq![0x00u8, 0x07, 0x01, 0xF0]);
    assert(le_bytes(y.misc_control_perchip as nat, 4) =~= seq![0xF0u8, 0x00, 0xC1, 0x00]);
    let raw = y.io_driver_broadcast_raw->0;
    assert(le_bytes(raw as nat, 4) =~= seq![0x02u8, 0x11, 0x41, 0x11]);
    assert(c.init_regs.core_perchip@ =~= x.core_perchip@);
}

/// Each family has its own number, divides the nonce space in its own way, and
/// may run from 50 MHz on up to its own limit, within which lies the frequency
/// that it is run at.
pub proof fn law_family_limits(a: ChipConfig, b: ChipConfig, c: ChipConfig)
    requires
        is_bm1362(a),
        is_bm1366(b),
        is_bm1370(c),
    ensures
        a.chip_id == 0x1362 && b.chip_id == 0x1366 && c.chip_id == 0x1370,
        a.nonce_range != b.nonce_range && b.nonce_range != c.nonce_range && a.nonce_range
            != c.nonce_range,
        a.nonce_range % 0x1_0000 == 0 && b.nonce_range % 0x1_0000 == 0 && c.nonce_range % 0x1_0000
            == 0,
        a.min_freq.0 == 50_000 && b.min_freq.0 == 50_000 && c.min_freq.0 == 50_000,
        a.max_freq.0 == 525_000 && b.max_freq.0 == 660_000 && c.max_freq.0 == 600_000,
        a.target_frequency is None && c.target_frequency is None,
        b.target_frequency matches Some(target) && b.min_freq.0 <= target.0 <= b.max_freq.0,
        a.pll_params.fbdiv_min < a.pll_params.fbdiv_max,
        b.pll_params.fbdiv_min < b.pll_params.fbdiv_max,
        b.pll_params.postdiv_strict && !a.pll_params.postdiv_strict,
        a.post_perchip_ticket_zero_bits is None && c.post_perchip_ticket_zero_bits is None,
        b.post_perchip_ticket_zero_bits == Some(2u8),
{
}

} // verus!
