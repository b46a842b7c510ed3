//! Quantized arcs and the arc-resizing strategy.
//!
//! An arq is the ring sector an agent claims to store, held as a count
//! of chunks of `2^power` space quanta around a center.  The strategy
//! drives each agent's arq toward a target coverage window; ratios are
//! held in thousandths so that every derived quantity is exact integer
//! arithmetic.

use vstd::prelude::*;
use crate::spacetime::{spec_space_quantum, Topology, SPACE_QUANTA_COUNT, SPACE_QUANTUM};

verus! {

/// Instructions to clamp all arqs to a certain size, regardless of
/// network conditions.
#[derive(Clone, Copy, Debug, PartialEq, Eq, Structural)]
pub enum ArqClamping {
    /// Clamp all arqs to be empty, and never grow them.
    Empty,
    /// Clamp all arqs to be full, and never shrink them.
    Full,
}

/// Settings that override the global arc policy for this node.
#[derive(Clone, Copy, Debug, PartialEq, Eq, Structural)]
pub struct LocalStorageConfig {
    /// Clamp all arcs to a given size, if set.
    pub arc_clamping: Option<ArqClamping>,
}

impl Default for LocalStorageConfig {
    /// No clamping.
    fn default() -> (r: Self)
        ensures
            r.arc_clamping is None,
    {
        LocalStorageConfig { arc_clamping: Option::None }
    }
}

/// The arq resizing strategy.  Ratios are in thousandths: a `buffer_ppt`
/// of 143 stands for a buffer of 0.143.
#[derive(Clone, Copy, Debug, PartialEq, Eq, Structural)]
pub struct ArqStrat {
    /// The minimum overall coverage (redundancy factor) the DHT seeks
    /// to maintain.
    pub min_coverage: u32,
    /// Multiplicative headroom over the minimum coverage, in
    /// thousandths; coverage should stay between the minimum and the
    /// maximum it defines.
    pub buffer_ppt: u32,
    /// Largest tolerated difference between this arq's power and the
    /// median power of the peer view before requantization is refused.
    pub max_power_diff: u8,
    /// We are slacking when the number of visible peers falls below the
    /// extrapolated coverage scaled by this ratio (in thousandths).
    pub slacker_ratio_ppt: u32,
    /// Threshold on the standard deviation of peer powers, in
    /// thousandths.
    pub power_std_dev_threshold_ppt: u32,
    /// Local overrides of the arc policy.
    pub local_storage: LocalStorageConfig,
}

impl ArqStrat {
    /// A strategy is usable when its ratios are positive and its
    /// coverage target is modest enough for exact arithmetic.
    pub open spec fn wf(self) -> bool {
        &&& self.buffer_ppt >= 1
        &&& self.buffer_ppt <= 1000000
        &&& self.slacker_ratio_ppt <= 1000000
        &&& self.min_coverage >= 1
        &&& self.min_coverage <= 0x100000
    }

    /// The standard strategy: coverage target from the outside default
    /// peer minimum, a buffer of 0.143 (which puts the chunk window at
    /// 8 to 15), a power diff of 2 and a slacker ratio of 0.75.
    pub fn standard(local_storage: LocalStorageConfig) -> (r: Self)
        ensures
            r.min_coverage == 100,
            r.buffer_ppt == 143,
            r.max_power_diff == 2,
            r.slacker_ratio_ppt == 750,
            r.power_std_dev_threshold_ppt == 1000,
            r.local_storage == local_storage,
            r.wf(),
    {
        let min_peers = default_min_peers();
        ArqStrat {
            min_coverage: min_peers as u32,
            buffer_ppt: 143,
            power_std_dev_threshold_ppt: 1000,
            max_power_diff: 2,
            slacker_ratio_ppt: 750,
            local_storage,
        }
    }

    /// The maximum coverage: the minimum scaled up by the buffer,
    /// rounded up.
    pub open spec fn spec_max_coverage(self) -> int {
        (self.min_coverage * (1000 + self.buffer_ppt) + 999) / 1000
    }

    /// The max coverage as expressed by the min coverage and the buffer.
    pub fn max_coverage(&self) -> (r: u32)
        requires
            self.wf(),
        ensures
            r as int == self.spec_max_coverage(),
    {
        proof {
            assert(self.min_coverage * (1000 + self.buffer_ppt) <= 0x100000int * 1001000)
                by (nonlinear_arith)
                requires
                    self.min_coverage <= 0x100000,
                    self.buffer_ppt <= 1000000,
            ;
        }
        let wide: u64 = (self.min_coverage as u64) * (1000u64 + self.buffer_ppt as u64);
        proof {
            vstd::arithmetic::div_mod::lemma_div_is_ordered(
                wide as int + 999,
                0x100000int * 1001000 + 999,
                1000,
            );
        }
        ((wide + 999) / 1000) as u32
    }

    /// The midline between min and max coverage, in thousandths.
    pub fn midline_coverage(&self) -> (r: u64)
        requires
            self.wf(),
        ensures
            r as int == (self.min_coverage + self.spec_max_coverage()) * 500,
    {
        let max = self.max_coverage();
        ((self.min_coverage as u64) + (max as u64)) * 500
    }

    /// The width of the buffer range, in thousandths.
    pub fn buffer_width(&self) -> (r: u64)
        requires
            self.wf(),
        ensures
            r == self.min_coverage as u64 * self.buffer_ppt as u64,
    {
        proof {
            assert(self.min_coverage * self.buffer_ppt <= 0x100000int * 1000000)
                by (nonlinear_arith)
                requires
                    self.min_coverage <= 0x100000,
                    self.buffer_ppt <= 1000000,
            ;
        }
        (self.min_coverage as u64) * (self.buffer_ppt as u64)
    }

    /// The lower bound of chunks to keep in an arq: the quantization
    /// resolution that maintains the buffer when adding or removing
    /// single chunks, `⌈(buffer + 1) / buffer⌉`.
    pub open spec fn spec_min_chunks(self) -> int {
        ((1000 + self.buffer_ppt) + (self.buffer_ppt - 1)) / (self.buffer_ppt as int)
    }

    /// The lower bound of chunks to maintain in an arq.  When the count
    /// falls below this, halve the chunk size.
    pub fn min_chunks(&self) -> (r: u32)
        requires
            self.wf(),
        ensures
            r as int == self.spec_min_chunks(),
            r >= 1,
            r <= 2000999,
    {
        let num: u64 = 1000u64 + self.buffer_ppt as u64;
        let den: u64 = self.buffer_ppt as u64;
        proof {
            vstd::arithmetic::div_mod::lemma_div_is_ordered(
                num as int + (den as int - 1),
                2000999,
                den as int,
            );
            vstd::arithmetic::div_mod::lemma_div_is_ordered_by_denominator(2000999, 1, den as int);
            vstd::arithmetic::div_mod::lemma_div_is_ordered(
                den as int,
                num as int + (den as int - 1),
                den as int,
            );
            vstd::arithmetic::div_mod::lemma_div_by_self(den as int);
        }
        ((num + (den - 1)) / den) as u32
    }

    /// The upper bound of chunks to maintain in an arq.  Expressed in
    /// terms of `min_chunks` so that it is always odd: growth past the
    /// bound downshifts the power, which is lossless only for an even
    /// count, and the common overshoot is by exactly one.
    pub fn max_chunks(&self) -> (r: u32)
        requires
            self.wf(),
        ensures
            r as int == self.spec_min_chunks() * 2 - 1,
            r % 2 == 1,
            r >= 1,
    {
        let min = self.min_chunks();
        min * 2 - 1
    }

    /// The chunk bound fits well under `2^22`.
    proof fn lemma_min_chunks_bound(self)
        requires
            self.wf(),
        ensures
            1 <= self.spec_min_chunks() <= 2000999,
    {
        vstd::arithmetic::div_mod::lemma_div_is_ordered(
            1000 + self.buffer_ppt + (self.buffer_ppt - 1),
            2000999,
            self.buffer_ppt as int,
        );
        vstd::arithmetic::div_mod::lemma_div_is_ordered_by_denominator(
            2000999,
            1,
            self.buffer_ppt as int,
        );
        vstd::arithmetic::div_mod::lemma_div_is_ordered(
            self.buffer_ppt as int,
            1000 + self.buffer_ppt + (self.buffer_ppt - 1),
            self.buffer_ppt as int,
        );
        vstd::arithmetic::div_mod::lemma_div_by_self(self.buffer_ppt as int);
    }

    /// The floor of the base-2 logarithm of `max_chunks`.
    pub fn max_chunks_log2(&self) -> (r: u8)
        requires
            self.wf(),
        ensures
            r as int == spec_log2_floor(self.spec_min_chunks() * 2 - 1),
    {
        let max = self.max_chunks();
        proof {
            self.lemma_min_chunks_bound();
            reveal_with_fuel(spec_pow2, 23);
            assert(spec_pow2(22) == 4194304);
            lemma_log2_floor_lt(max as int, 22);
        }
        let mut v: u32 = max;
        let mut p: u8 = 0;
        while v >= 2
            invariant
                v >= 1,
                spec_log2_floor(max as int) == p + spec_log2_floor(v as int),
                spec_log2_floor(max as int) < 22,
                p <= 22,
            decreases v,
        {
            proof {
                assert(spec_log2_floor(v as int) == 1 + spec_log2_floor(v as int / 2));
                lemma_log2_floor_nonneg(v as int / 2);
            }
            v = v / 2;
            p = p + 1;
        }
        p
    }

    /// The text a summary report of this strategy renders to.
    pub open spec fn spec_summary(self) -> Seq<char> {
        "min coverage: "@ + spec_decimal(self.min_coverage as int) + "\nmax coverage: "@
            + spec_decimal(self.spec_max_coverage()) + "\nmin chunks: "@ + spec_decimal(
            self.spec_min_chunks(),
        ) + "\nmax chunks: "@ + spec_decimal(self.spec_min_chunks() * 2 - 1) + "\n"@
    }

    /// A summary report of this strategy: its coverage window and
    /// chunk bounds, one per line.
    pub fn summary(&self) -> (r: String)
        requires
            self.wf(),
        ensures
            r@ == self.spec_summary(),
    {
        let mut out = String::from_str("min coverage: ");
        push_decimal(&mut out, self.min_coverage as u64);
        out.append("\nmax coverage: ");
        push_decimal(&mut out, self.max_coverage() as u64);
        out.append("\nmin chunks: ");
        push_decimal(&mut out, self.min_chunks() as u64);
        out.append("\nmax chunks: ");
        push_decimal(&mut out, self.max_chunks() as u64);
        out.append("\n");
        proof {
            assert(out@ =~= self.spec_summary());
        }
        out
    }
}

/// The decimal digits of a non-negative integer, most significant
/// first.
pub open spec fn spec_decimal(n: int) -> Seq<char>
    recommends
        n >= 0,
    decreases (if n >= 0 {
        n
    } else {
        0
    }),
{
    if n < 10 {
        seq![spec_digit(n)]
    } else {
        spec_decimal(n / 10).push(spec_digit(n % 10))
    }
}

/// One decimal digit as a character.
pub open spec fn spec_digit(d: int) -> char {
    if d == 0 {
        '0'
    } else if d == 1 {
        '1'
    } else if d == 2 {
        '2'
    } else if d == 3 {
        '3'
    } else if d == 4 {
        '4'
    } else if d == 5 {
        '5'
    } else if d == 6 {
        '6'
    } else if d == 7 {
        '7'
    } else if d == 8 {
        '8'
    } else {
        '9'
    }
}

/// One decimal digit as text.
fn digit_str(d: u64) -> (r: &'static str)
    requires
        d < 10,
    ensures
        r@ == seq![spec_digit(d as int)],
{
    let r: &'static str = match d {
        0 => "0",
        1 => "1",
        2 => "2",
        3 => "3",
        4 => "4",
        5 => "5",
        6 => "6",
        7 => "7",
        8 => "8",
        _ => "9",
    };
    proof {
        reveal_strlit("0");
        reveal_strlit("1");
        reveal_strlit("2");
        reveal_strlit("3");
        reveal_strlit("4");
        reveal_strlit("5");
        reveal_strlit("6");
        reveal_strlit("7");
        reveal_strlit("8");
        reveal_strlit("9");
        assert(r@ =~= seq![spec_digit(d as int)]);
    }
    r
}

/// Append the decimal rendering of `n`.
fn push_decimal(out: &mut String, n: u64)
    ensures
        final(out)@ == old(out)@ + spec_decimal(n as int),
    decreases n,
{
    if n >= 10 {
        push_decimal(out, n / 10);
        out.append(digit_str(n % 10));
        proof {
            assert(out@ =~= old(out)@ + spec_decimal(n as int));
        }
    } else {
        out.append(digit_str(n));
        proof {
            assert(out@ =~= old(out)@ + spec_decimal(n as int));
        }
    }
}

/// The floor of the base-2 logarithm of a positive integer.
pub open spec fn spec_log2_floor(n: int) -> int
    recommends
        n >= 1,
    decreases n,
{
    if n < 2 {
        0
    } else {
        1 + spec_log2_floor(n / 2)
    }
}

/// The floor logarithm is never negative.
proof fn lemma_log2_floor_nonneg(n: int)
    ensures
        spec_log2_floor(n) >= 0,
    decreases (if n > 0 {
        n
    } else {
        0
    }),
{
    if n >= 2 {
        lemma_log2_floor_nonneg(n / 2);
    }
}

/// A number below `2^b` has a floor logarithm below `b`.
proof fn lemma_log2_floor_lt(n: int, b: int)
    requires
        1 <= n,
        1 <= b,
        n < spec_pow2(b),
    ensures
        spec_log2_floor(n) < b,
    decreases b,
{
    if n >= 2 {
        assert(spec_pow2(b) == 2 * spec_pow2(b - 1));
        if b == 1 {
            assert(n < 2);
        } else {
            lemma_log2_floor_lt(n / 2, b - 1);
        }
    }
}

/// Relies on `kitsune_p2p_dht_arc::DEFAULT_MIN_PEERS`: the default
/// redundancy target of 50 divided by the assumed uptime of one half,
/// yielding 100.
#[verifier::external_body]
fn default_min_peers() -> (r: usize)
    ensures
        r == 100,
{
    kitsune_p2p_dht_arc::DEFAULT_MIN_PEERS
}

/// A quantized arc: `count` chunks of `2^power` space quanta, starting
/// at a center location.
#[derive(Clone, Copy, Debug, PartialEq, Eq, Structural)]
pub struct Arq {
    /// The ring location at the arc's center.
    pub center: u32,
    /// Log2 of the chunk size, in space quanta.
    pub power: u8,
    /// Number of chunks covered.
    pub count: u32,
}

impl Arq {
    /// Powers of two up to the whole ring; the covered span never
    /// exceeds the ring.
    pub open spec fn wf(self) -> bool {
        &&& self.power <= 12
        &&& self.spec_length() <= SPACE_QUANTA_COUNT
    }

    /// The covered span in space quanta.
    pub open spec fn spec_length(self) -> int {
        self.count * spec_pow2(self.power as int)
    }

    /// The covered span in space quanta.
    pub fn length(&self) -> (r: u32)
        requires
            self.wf(),
        ensures
            r as int == self.spec_length(),
    {
        let p = pow2_u32(self.power);
        self.count * p
    }

    /// The covered span in space quanta, without the ring bound: used
    /// on candidate arqs before they are clamped.
    pub fn length_wide(&self) -> (r: u64)
        requires
            self.power <= 12,
        ensures
            r as int == self.spec_length(),
    {
        let p = pow2_u32(self.power);
        proof {
            assert(self.count * p <= 0xffffffffint * 4096) by (nonlinear_arith)
                requires
                    self.count <= 0xffffffffu32,
                    p <= 4096,
            ;
        }
        (self.count as u64) * (p as u64)
    }

    /// Whether the arc covers no quanta.
    pub open spec fn is_empty(self) -> bool {
        self.count == 0
    }

    /// Whether the arc covers the whole ring.
    pub open spec fn is_full(self) -> bool {
        self.spec_length() >= SPACE_QUANTA_COUNT
    }

    /// The first covered space quantum: the span is centered on the
    /// quantum containing `center`.
    pub open spec fn spec_start_quantum(self) -> int {
        let c = spec_space_quantum(self.center) as int;
        let half = self.spec_length() / 2;
        (c - half) % (SPACE_QUANTA_COUNT as int)
    }

    /// Whether the arc covers the space quantum of a ring location.
    pub open spec fn spec_contains(self, loc: u32) -> bool {
        let q = spec_space_quantum(loc) as int;
        let start = self.spec_start_quantum();
        ((q - start) % (SPACE_QUANTA_COUNT as int)) < self.spec_length()
    }

    /// The arc as a span of space quanta: its first quantum and its
    /// length.
    pub fn span(&self) -> (r: (u32, u32))
        requires
            self.wf(),
        ensures
            r.0 as int == self.spec_start_quantum(),
            r.1 as int == self.spec_length(),
            r.0 < SPACE_QUANTA_COUNT,
    {
        let len = self.length();
        let c: u32 = self.center / SPACE_QUANTUM;
        proof {
            let ctr = self.center;
            assert(ctr / 0x100000u32 < 4096) by (bit_vector);
        }
        let half: u32 = len / 2;
        let start: u32 = (c + SPACE_QUANTA_COUNT - half) % SPACE_QUANTA_COUNT;
        proof {
            lemma_mod_shift(spec_space_quantum(self.center) as int, self.spec_length() / 2, start as int);
            vstd::arithmetic::div_mod::lemma_mod_bound(
                spec_space_quantum(self.center) as int - self.spec_length() / 2,
                SPACE_QUANTA_COUNT as int,
            );
        }
        (start, len)
    }

    /// Whether the arc covers the space quantum of a ring location.
    pub fn contains(&self, loc: u32) -> (r: bool)
        requires
            self.wf(),
        ensures
            r == self.spec_contains(loc),
    {
        let len = self.length();
        let q: u32 = loc / SPACE_QUANTUM;
        let c: u32 = self.center / SPACE_QUANTUM;
        proof {
            let l = loc;
            let ctr = self.center;
            assert(l / 0x100000u32 < 4096) by (bit_vector);
            assert(ctr / 0x100000u32 < 4096) by (bit_vector);
        }
        let half: u32 = len / 2;
        let start: u32 = (c + SPACE_QUANTA_COUNT - half) % SPACE_QUANTA_COUNT;
        let offset: u32 = (q + SPACE_QUANTA_COUNT - start) % SPACE_QUANTA_COUNT;
        proof {
            let cc = spec_space_quantum(self.center) as int;
            let hh = self.spec_length() / 2;
            lemma_mod_shift(cc, hh, start as int);
            lemma_mod_shift(spec_space_quantum(loc) as int, self.spec_start_quantum(), offset as int);
        }
        offset < len
    }
}

/// Two ways of writing a shifted ring position agree: adding the ring
/// size before subtracting does not change the remainder.
proof fn lemma_mod_shift(a: int, b: int, r: int)
    requires
        0 <= a < SPACE_QUANTA_COUNT,
        0 <= b < SPACE_QUANTA_COUNT || (0 <= b && b % (SPACE_QUANTA_COUNT as int) == b % (
        SPACE_QUANTA_COUNT as int)),
        r == (a + SPACE_QUANTA_COUNT - (b % (SPACE_QUANTA_COUNT as int))) % (
        SPACE_QUANTA_COUNT as int) || r == (a + SPACE_QUANTA_COUNT - b) % (SPACE_QUANTA_COUNT as int),
    ensures
        r == (a - b) % (SPACE_QUANTA_COUNT as int),
{
    let m = SPACE_QUANTA_COUNT as int;
    if r == (a + m - (b % m)) % m {
        assert((a + m - (b % m)) % m == (a - (b % m)) % m) by {
            vstd::arithmetic::div_mod::lemma_mod_add_multiples_vanish(a - (b % m), m);
        }
        assert((a - (b % m)) % m == (a - b) % m) by {
            vstd::arithmetic::div_mod::lemma_sub_mod_noop(a, b, m);
            vstd::arithmetic::div_mod::lemma_mod_twice(a - b, m);
        }
    } else {
        assert((a + m - b) % m == (a - b) % m) by {
            vstd::arithmetic::div_mod::lemma_mod_add_multiples_vanish(a - b, m);
        }
    }
}

/// The shifted ring offset `(a + ring - b) mod ring` equals the
/// difference `(a - b) mod ring`.
pub proof fn lemma_space_offset(a: int, b: int, r: int)
    requires
        0 <= a < SPACE_QUANTA_COUNT,
        0 <= b < SPACE_QUANTA_COUNT,
        r == (a + SPACE_QUANTA_COUNT - b) % (SPACE_QUANTA_COUNT as int),
    ensures
        r == (a - b) % (SPACE_QUANTA_COUNT as int),
{
    let m = SPACE_QUANTA_COUNT as int;
    assert((a + m - b) % m == (a - b) % m) by {
        vstd::arithmetic::div_mod::lemma_mod_add_multiples_vanish(a - b, m);
    }
}

/// Two to the `p`.
pub open spec fn spec_pow2(p: int) -> int
    recommends
        0 <= p,
    decreases p,
{
    if p <= 0 {
        1
    } else {
        2 * spec_pow2(p - 1)
    }
}

/// Two to the `p`, for powers up to the ring size.
pub fn pow2_u32(p: u8) -> (r: u32)
    requires
        p <= 12,
    ensures
        r as int == spec_pow2(p as int),
        r >= 1,
        r <= 4096,
{
    let mut i: u8 = 0;
    let mut r: u32 = 1;
    while i < p
        invariant
            i <= p,
            p <= 12,
            r as int == spec_pow2(i as int),
            1 <= r <= 4096,
        decreases p - i,
    {
        proof {
            assert(spec_pow2(i as int + 1) == 2 * spec_pow2(i as int));
            lemma_pow2_bounds(i as int + 1);
        }
        r = r * 2;
        i = i + 1;
    }
    r
}

/// Powers of two up to the ring power stay within the ring size.
proof fn lemma_pow2_bounds(p: int)
    requires
        0 <= p <= 12,
    ensures
        spec_pow2(p) <= 4096,
{
    reveal_with_fuel(spec_pow2, 13);
    assert(spec_pow2(12) == 4096);
    lemma_pow2_mono(p, 12);
}

/// Powers of two are monotone.
proof fn lemma_pow2_mono(a: int, b: int)
    requires
        0 <= a <= b,
    ensures
        spec_pow2(a) <= spec_pow2(b),
    decreases b,
{
    if a < b {
        lemma_pow2_mono(a, b - 1);
        assert(spec_pow2(b) == 2 * spec_pow2(b - 1));
        assert(spec_pow2(b - 1) >= 1) by {
            lemma_pow2_pos(b - 1);
        }
    }
}

/// Powers of two are positive.
proof fn lemma_pow2_pos(p: int)
    ensures
        spec_pow2(p) >= 1,
    decreases (if p > 0 {
        p
    } else {
        0
    }),
{
    if p > 0 {
        lemma_pow2_pos(p - 1);
    }
}

/// A well-formed arq holds at most the whole ring's worth of chunks.
proof fn lemma_arq_count_bound(arq: Arq)
    requires
        arq.wf(),
    ensures
        arq.count <= 4096,
{
    lemma_pow2_pos(arq.power as int);
    assert(arq.count <= 4096) by (nonlinear_arith)
        requires
            arq.count * spec_pow2(arq.power as int) <= 4096,
            spec_pow2(arq.power as int) >= 1,
    ;
}

/// A view over the peers visible from an arc, produced by a strategy.
#[derive(Clone, Debug)]
pub struct PeerView {
    /// The fixed space-time parameters.
    pub topo: Topology,
    /// The strategy that produced this view.
    pub strat: ArqStrat,
    /// The visible peer arqs.
    pub peers: Vec<Arq>,
}

/// A strategy for generating peer views; the enum leaves room for more
/// strategies over time.
#[derive(Clone, Copy, Debug, PartialEq, Eq, Structural)]
pub enum PeerStrat {
    /// The quantized peer strategy.
    Quantized(ArqStrat),
}

impl PeerStrat {
    /// Generate a view of `peers` using this strategy.
    pub fn view(&self, topo: Topology, peers: &[Arq]) -> (r: PeerView)
        ensures
            r.topo == topo,
            *self == PeerStrat::Quantized(r.strat),
            r.peers@ == peers@,
    {
        match self {
            PeerStrat::Quantized(s) => {
                let mut copied: Vec<Arq> = Vec::new();
                copied.extend_from_slice(peers);
                proof {
                    assert(copied@ =~= peers@);
                }
                PeerView { topo, strat: *s, peers: copied }
            },
        }
    }
}

/// The observed statistics a resize step acts on: how many peers are
/// visible, the extrapolated coverage (in thousandths), and the median
/// power of the peer arqs.
#[derive(Clone, Copy, Debug, PartialEq, Eq, Structural)]
pub struct ViewStats {
    /// Number of visible peers.
    pub num_peers: u32,
    /// Extrapolated coverage, in thousandths.
    pub coverage_ppt: u64,
    /// Median power over the peer arqs.
    pub median_power: u8,
}

impl ViewStats {
    /// Statistics small enough for exact integer arithmetic.
    pub open spec fn wf(self) -> bool {
        self.coverage_ppt <= 0x100000000
    }
}

/// Whether the node is slacking: it sees fewer peers than the coverage
/// scaled by the slacker ratio says it should.
pub open spec fn spec_slacking(strat: ArqStrat, view: ViewStats) -> bool {
    (view.num_peers * 1000000) < view.coverage_ppt * strat.slacker_ratio_ppt
}

/// The grow step: add a chunk; past the chunk bound, requantize up if
/// the power stays within `max_power_diff` of the median, else keep
/// growing past the bound; clamp at the full ring.
pub open spec fn spec_grow(strat: ArqStrat, arq: Arq, view: ViewStats) -> Arq {
    if arq.is_full() {
        arq
    } else {
        let new_count = (arq.count + 1) as u32;
        let grown = if new_count as int <= strat.spec_min_chunks() * 2 - 1 {
            Arq { center: arq.center, power: arq.power, count: new_count }
        } else {
            if arq.power < 12 && power_diff_ok((arq.power + 1) as u8, view.median_power, strat.max_power_diff) {
                Arq { center: arq.center, power: (arq.power + 1) as u8, count: (new_count / 2) as u32 }
            } else {
                Arq { center: arq.center, power: arq.power, count: new_count }
            }
        };
        if grown.spec_length() > SPACE_QUANTA_COUNT {
            full_arq(arq.center, arq.power)
        } else {
            grown
        }
    }
}

/// The shrink step: drop a chunk; below the chunk bound, downshift the
/// power if safe, else shrink to the empty arc.
pub open spec fn spec_shrink(strat: ArqStrat, arq: Arq, view: ViewStats) -> Arq {
    if arq.is_empty() {
        arq
    } else {
        let new_count = (arq.count - 1) as u32;
        if new_count as int >= strat.spec_min_chunks() {
            Arq { center: arq.center, power: arq.power, count: new_count }
        } else {
            if arq.power > 0 && power_diff_ok((arq.power - 1) as u8, view.median_power, strat.max_power_diff) {
                Arq { center: arq.center, power: (arq.power - 1) as u8, count: (new_count * 2) as u32 }
            } else {
                Arq { center: arq.center, power: arq.power, count: new_count }
            }
        }
    }
}

/// Whether a power stays within the tolerated difference of the median.
pub open spec fn power_diff_ok(p: u8, median: u8, max_diff: u8) -> bool {
    if p >= median {
        p - median <= max_diff
    } else {
        median - p <= max_diff
    }
}

/// The full arc at a given center and power.
pub open spec fn full_arq(center: u32, power: u8) -> Arq {
    Arq { center, power, count: (SPACE_QUANTA_COUNT as int / spec_pow2(power as int)) as u32 }
}

/// One step of the resize loop on a peer-view update: clamped arcs are
/// left alone; grow when slacking or under the minimum coverage; shrink
/// when over the maximum; otherwise the arq is already in equilibrium
/// and is unchanged.
pub open spec fn spec_resize_step(strat: ArqStrat, arq: Arq, view: ViewStats) -> Arq {
    if strat.local_storage.arc_clamping is Some {
        arq
    } else if spec_slacking(strat, view) || (view.coverage_ppt as int) < strat.min_coverage * 1000 {
        spec_grow(strat, arq, view)
    } else if view.coverage_ppt as int > strat.spec_max_coverage() * 1000 {
        spec_shrink(strat, arq, view)
    } else {
        arq
    }
}

/// An arq in equilibrium is a fixed point of the resize step: under a
/// stable peer view whose coverage lies in `[min_coverage,
/// max_coverage]` and which shows no slack, resizing changes nothing.
pub proof fn lemma_resize_fixed_point(strat: ArqStrat, arq: Arq, view: ViewStats)
    requires
        strat.wf(),
        !spec_slacking(strat, view),
        strat.min_coverage * 1000 <= view.coverage_ppt as int,
        view.coverage_ppt as int <= strat.spec_max_coverage() * 1000,
    ensures
        spec_resize_step(strat, arq, view) == arq,
{
}

/// One resize step.
pub fn resize_step(strat: &ArqStrat, arq: Arq, view: &ViewStats) -> (r: Arq)
    requires
        strat.wf(),
        arq.wf(),
        view.wf(),
    ensures
        r == spec_resize_step(*strat, arq, *view),
        r.wf(),
        r.center == arq.center,
{
    if matches!(strat.local_storage.arc_clamping, Option::Some(_)) {
        return arq;
    }
    proof {
        assert(view.coverage_ppt * strat.slacker_ratio_ppt <= 0x100000000int * 1000000)
            by (nonlinear_arith)
            requires
                view.coverage_ppt <= 0x100000000u64,
                strat.slacker_ratio_ppt <= 1000000,
        ;
    }
    let slacking: bool = (view.num_peers as u64) * 1000000 < view.coverage_ppt
        * (strat.slacker_ratio_ppt as u64);
    let undercover: bool = view.coverage_ppt < (strat.min_coverage as u64) * 1000;
    let overcover: bool = view.coverage_ppt > (strat.max_coverage() as u64) * 1000;
    if slacking || undercover {
        grow(strat, arq, view)
    } else if overcover {
        shrink(strat, arq, view)
    } else {
        arq
    }
}

/// Grow the arq by a chunk, requantizing or clamping as the spec step
/// says.
fn grow(strat: &ArqStrat, arq: Arq, view: &ViewStats) -> (r: Arq)
    requires
        strat.wf(),
        arq.wf(),
    ensures
        r == spec_grow(*strat, arq, *view),
        r.wf(),
        r.center == arq.center,
{
    proof {
        lemma_arq_count_bound(arq);
    }
    let len = arq.length();
    if len >= SPACE_QUANTA_COUNT {
        return arq;
    }
    let new_count = arq.count + 1;
    let max_chunks = strat.max_chunks();
    let grown: Arq = if new_count <= max_chunks {
        Arq { center: arq.center, power: arq.power, count: new_count }
    } else {
        let up_ok: bool = arq.power < 12 && power_diff_ok_exec(arq.power + 1, view.median_power, strat.max_power_diff);
        if up_ok {
            Arq { center: arq.center, power: arq.power + 1, count: new_count / 2 }
        } else {
            Arq { center: arq.center, power: arq.power, count: new_count }
        }
    };
    let glen = grown.length_wide();
    if glen > SPACE_QUANTA_COUNT as u64 {
        let p = pow2_u32(arq.power);
        let full_count = SPACE_QUANTA_COUNT / p;
        let r = Arq { center: arq.center, power: arq.power, count: full_count };
        proof {
            lemma_pow2_pos(arq.power as int);
            vstd::arithmetic::div_mod::lemma_fundamental_div_mod(
                SPACE_QUANTA_COUNT as int,
                spec_pow2(arq.power as int),
            );
            vstd::arithmetic::div_mod::lemma_mod_bound(
                SPACE_QUANTA_COUNT as int,
                spec_pow2(arq.power as int),
            );
            assert(full_count * spec_pow2(arq.power as int) == spec_pow2(arq.power as int)
                * full_count) by (nonlinear_arith);
        }
        r
    } else {
        grown
    }
}

/// Shrink the arq by a chunk, downshifting or emptying as the spec step
/// says.
fn shrink(strat: &ArqStrat, arq: Arq, view: &ViewStats) -> (r: Arq)
    requires
        strat.wf(),
        arq.wf(),
    ensures
        r == spec_shrink(*strat, arq, *view),
        r.wf(),
        r.center == arq.center,
{
    proof {
        lemma_arq_count_bound(arq);
        lemma_pow2_pos(arq.power as int);
    }
    if arq.count == 0 {
        return arq;
    }
    let new_count = arq.count - 1;
    proof {
        assert((arq.count - 1) * spec_pow2(arq.power as int) <= arq.count * spec_pow2(
            arq.power as int,
        )) by (nonlinear_arith)
            requires
                arq.count >= 1,
                spec_pow2(arq.power as int) >= 1,
        ;
    }
    let min_chunks = strat.min_chunks();
    if new_count >= min_chunks {
        Arq { center: arq.center, power: arq.power, count: new_count }
    } else {
        let down_ok: bool = arq.power > 0 && power_diff_ok_exec(arq.power - 1, view.median_power, strat.max_power_diff);
        if down_ok {
            let r = Arq { center: arq.center, power: arq.power - 1, count: new_count * 2 };
            proof {
                assert(spec_pow2(arq.power as int) == 2 * spec_pow2(arq.power as int - 1));
                assert((new_count * 2) * spec_pow2(arq.power as int - 1) == new_count
                    * spec_pow2(arq.power as int)) by (nonlinear_arith)
                    requires
                        spec_pow2(arq.power as int) == 2 * spec_pow2(arq.power as int - 1),
                ;
                assert(new_count * spec_pow2(arq.power as int) <= arq.count * spec_pow2(
                    arq.power as int,
                )) by (nonlinear_arith)
                    requires
                        new_count <= arq.count,
                        spec_pow2(arq.power as int) >= 0,
                ;
            }
            r
        } else {
            Arq { center: arq.center, power: arq.power, count: new_count }
        }
    }
}

/// Whether a power stays within the tolerated difference of the median.
fn power_diff_ok_exec(p: u8, median: u8, max_diff: u8) -> (r: bool)
    ensures
        r == power_diff_ok(p, median, max_diff),
{
    if p >= median {
        p - median <= max_diff
    } else {
        median - p <= max_diff
    }
}

/// Run the resize step to a fixed point, up to a budget of iterations.
/// On a stable view the result either no longer changes (a fixed point
/// was reached) or the budget ran out.
pub fn resize_to_fixed_point(strat: &ArqStrat, arq: Arq, view: &ViewStats, budget: u32) -> (r: (
    Arq,
    bool,
))
    requires
        strat.wf(),
        arq.wf(),
        view.wf(),
    ensures
        r.0.wf(),
        // The result is a genuine iterate of the resize step.
        exists|n: nat| n <= budget && #[trigger] iterate_resize(*strat, arq, *view, n) == r.0,
        // The flag reports a fixed point truthfully.
        r.1 ==> spec_resize_step(*strat, r.0, *view) == r.0,
        // An exhausted budget returns the last iterate, not something
        // else, and means no earlier iterate was fixed.
        !r.1 ==> r.0 == iterate_resize(*strat, arq, *view, budget as nat),
        !r.1 ==> forall|m: nat|
            m < budget ==> #[trigger] iterate_resize(*strat, arq, *view, m) != iterate_resize(
                *strat,
                arq,
                *view,
                (m + 1) as nat,
            ),
        // A budget past the ring size always finds the fixed point.
        grow_inv(*strat, arq, *view) && budget > SPACE_QUANTA_COUNT + 1 ==> r.1,
{
    let mut current = arq;
    let mut i: u32 = 0;
    proof {
        assert(iterate_resize(*strat, arq, *view, 0) == arq);
    }
    while i < budget
        invariant
            strat.wf(),
            view.wf(),
            current.wf(),
            i <= budget,
            current == iterate_resize(*strat, arq, *view, i as nat),
            forall|m: nat|
                m < i ==> #[trigger] iterate_resize(*strat, arq, *view, m) != iterate_resize(
                    *strat,
                    arq,
                    *view,
                    (m + 1) as nat,
                ),
        decreases budget - i,
    {
        let next = resize_step(strat, current, view);
        proof {
            assert(iterate_resize(*strat, arq, *view, (i + 1) as nat) == spec_resize_step(
                *strat,
                iterate_resize(*strat, arq, *view, i as nat),
                *view,
            ));
        }
        if next == current {
            proof {
                assert(iterate_resize(*strat, arq, *view, i as nat) == current);
            }
            return (current, true);
        }
        current = next;
        i = i + 1;
    }
    proof {
        assert(iterate_resize(*strat, arq, *view, budget as nat) == current);
        if grow_inv(*strat, arq, *view) && budget > SPACE_QUANTA_COUNT + 1 {
            lemma_resize_converges(*strat, arq, *view);
            let n = choose|n: nat|
                n <= SPACE_QUANTA_COUNT + 1 && #[trigger] iterate_resize(*strat, arq, *view, n)
                    == iterate_resize(*strat, arq, *view, (n + 1) as nat);
            assert(iterate_resize(*strat, arq, *view, n) != iterate_resize(
                *strat,
                arq,
                *view,
                (n + 1) as nat,
            ));
            assert(false);
        }
    }
    (current, false)
}

/// The growth invariant the resize loop maintains: either the chunk
/// count is within the chunk bound, or requantization is blocked at
/// this power — and since the view is what blocks it, it then stays
/// blocked while the view is stable.
pub open spec fn grow_inv(strat: ArqStrat, arq: Arq, view: ViewStats) -> bool {
    ||| arq.count as int <= strat.spec_min_chunks() * 2 - 1
    ||| !(arq.power < 12 && power_diff_ok(
        (arq.power + 1) as u8,
        view.median_power,
        strat.max_power_diff,
    ))
}

/// A grow step makes strict progress: a full arc is a fixed point, and
/// any other arc strictly lengthens, staying well-formed and keeping
/// the growth invariant (or saturating).
pub proof fn lemma_grow_progress(strat: ArqStrat, arq: Arq, view: ViewStats)
    requires
        strat.wf(),
        arq.wf(),
        grow_inv(strat, arq, view),
    ensures
        spec_grow(strat, arq, view).wf(),
        spec_grow(strat, arq, view).center == arq.center,
        arq.is_full() ==> spec_grow(strat, arq, view) == arq,
        !arq.is_full() ==> spec_grow(strat, arq, view).spec_length() > arq.spec_length(),
        grow_inv(strat, spec_grow(strat, arq, view), view) || spec_grow(strat, arq, view).is_full(),
{
    strat.lemma_min_chunks_bound();
    lemma_arq_count_bound(arq);
    lemma_pow2_pos(arq.power as int);
    let max = strat.spec_min_chunks() * 2 - 1;
    let p2 = spec_pow2(arq.power as int);
    if arq.is_full() {
    } else {
        let new_count = (arq.count + 1) as u32;
        let grown = if new_count as int <= max {
            Arq { center: arq.center, power: arq.power, count: new_count }
        } else {
            if arq.power < 12 && power_diff_ok(
                (arq.power + 1) as u8,
                view.median_power,
                strat.max_power_diff,
            ) {
                Arq { center: arq.center, power: (arq.power + 1) as u8, count: (new_count / 2) as u32 }
            } else {
                Arq { center: arq.center, power: arq.power, count: new_count }
            }
        };
        // The candidate is strictly longer than the arc.
        if new_count as int <= max {
            assert(grown.spec_length() == new_count * p2);
            assert(new_count * p2 > arq.count * p2) by (nonlinear_arith)
                requires
                    new_count > arq.count,
                    p2 >= 1,
                    p2 == spec_pow2(arq.power as int),
                    new_count * p2 == new_count * spec_pow2(arq.power as int),
                    arq.count * p2 == arq.count * spec_pow2(arq.power as int),
            ;
        } else {
            if arq.power < 12 && power_diff_ok(
                (arq.power + 1) as u8,
                view.median_power,
                strat.max_power_diff,
            ) {
                // Requantization happens only with the count at the
                // bound, so the overflowed count is even and the
                // downshift is lossless.
                assert(arq.count as int <= max);
                assert(arq.count as int == max);
                assert(new_count as int == max + 1);
                assert((new_count / 2) as int == strat.spec_min_chunks());
                assert(spec_pow2(arq.power as int + 1) == 2 * p2);
                assert(grown.spec_length() == (new_count / 2) * spec_pow2(arq.power as int + 1));
                assert((strat.spec_min_chunks()) * (2 * p2) == (max + 1) * p2) by (nonlinear_arith)
                    requires
                        max == strat.spec_min_chunks() * 2 - 1,
                ;
                assert((max + 1) * p2 > max * p2) by (nonlinear_arith)
                    requires
                        p2 >= 1,
                ;
                assert(arq.spec_length() == max * p2);
            } else {
                assert(grown.spec_length() == new_count * p2);
                assert(new_count * p2 > arq.count * p2) by (nonlinear_arith)
                    requires
                        new_count > arq.count,
                        p2 >= 1,
                ;
            }
        }
        // Clamping saturates at exactly the full ring, which is longer
        // than any arc that is not yet full.
        if grown.spec_length() > SPACE_QUANTA_COUNT {
            let q = spec_pow2(arq.power as int);
            lemma_pow2_divides_ring(arq.power as int);
            vstd::arithmetic::div_mod::lemma_fundamental_div_mod(SPACE_QUANTA_COUNT as int, q);
            assert(full_arq(arq.center, arq.power).spec_length() == q * (
            SPACE_QUANTA_COUNT as int / q)) by (nonlinear_arith)
                requires
                    q >= 1,
                    full_arq(arq.center, arq.power).count as int == SPACE_QUANTA_COUNT as int / q,
                    full_arq(arq.center, arq.power).spec_length() == full_arq(
                        arq.center,
                        arq.power,
                    ).count * q,
            ;
        }
    }
}

/// Powers of two up to the ring power divide the ring size evenly.
proof fn lemma_pow2_divides_ring(p: int)
    requires
        0 <= p <= 12,
    ensures
        SPACE_QUANTA_COUNT as int % spec_pow2(p) == 0,
        SPACE_QUANTA_COUNT as int / spec_pow2(p) == spec_pow2(12 - p),
    decreases 12 - p,
{
    reveal_with_fuel(spec_pow2, 13);
    if p == 12 {
        assert(spec_pow2(12) == 4096);
        vstd::arithmetic::div_mod::lemma_fundamental_div_mod_converse(4096, 4096, 1, 0);
    } else {
        lemma_pow2_divides_ring(p + 1);
        let q = spec_pow2(p);
        let k = spec_pow2(12 - p);
        lemma_pow2_pos(p);
        lemma_pow2_pos(p + 1);
        lemma_pow2_pos(12 - p);
        vstd::arithmetic::div_mod::lemma_fundamental_div_mod(4096, spec_pow2(p + 1));
        assert(spec_pow2(p + 1) * spec_pow2(12 - p - 1) == 4096) by (nonlinear_arith)
            requires
                4096 == spec_pow2(p + 1) * (4096int / spec_pow2(p + 1)) + 4096int % spec_pow2(
                    p + 1,
                ),
                4096int % spec_pow2(p + 1) == 0,
                4096int / spec_pow2(p + 1) == spec_pow2(12 - p - 1),
        ;
        assert(q * k == 4096) by (nonlinear_arith)
            requires
                spec_pow2(p + 1) * spec_pow2(12 - p - 1) == 4096,
                q == spec_pow2(p),
                k == spec_pow2(12 - p),
                spec_pow2(p + 1) == 2 * q,
                k == 2 * spec_pow2(12 - p - 1),
        ;
        vstd::arithmetic::div_mod::lemma_fundamental_div_mod_converse(4096, q, k, 0);
    }
}

/// A shrink step makes strict progress: the empty arc is a fixed
/// point, and any other arc loses exactly one chunk's worth of quanta,
/// whether or not the power downshifts.
pub proof fn lemma_shrink_progress(strat: ArqStrat, arq: Arq, view: ViewStats)
    requires
        strat.wf(),
        arq.wf(),
    ensures
        spec_shrink(strat, arq, view).wf(),
        spec_shrink(strat, arq, view).center == arq.center,
        arq.is_empty() ==> spec_shrink(strat, arq, view) == arq,
        !arq.is_empty() ==> spec_shrink(strat, arq, view).spec_length() == arq.spec_length()
            - spec_pow2(arq.power as int),
{
    lemma_arq_count_bound(arq);
    lemma_pow2_pos(arq.power as int);
    let p2 = spec_pow2(arq.power as int);
    if !arq.is_empty() {
        let new_count = (arq.count - 1) as u32;
        assert((arq.count - 1) * p2 == arq.count * p2 - p2) by (nonlinear_arith);
        if !(new_count as int >= strat.spec_min_chunks()) && arq.power > 0 && power_diff_ok(
            (arq.power - 1) as u8,
            view.median_power,
            strat.max_power_diff,
        ) {
            assert(p2 == 2 * spec_pow2(arq.power as int - 1));
            assert((new_count * 2) * spec_pow2(arq.power as int - 1) == new_count * p2)
                by (nonlinear_arith)
                requires
                    p2 == 2 * spec_pow2(arq.power as int - 1),
            ;
        }
        assert(arq.count * p2 - p2 <= 4096 - p2);
        assert(spec_shrink(strat, arq, view).spec_length() <= SPACE_QUANTA_COUNT);
    }
}

/// The arq after `n` resize steps under one peer view.
pub open spec fn iterate_resize(strat: ArqStrat, arq: Arq, view: ViewStats, n: nat) -> Arq
    decreases n,
{
    if n == 0 {
        arq
    } else {
        spec_resize_step(strat, iterate_resize(strat, arq, view, (n - 1) as nat), view)
    }
}

/// Arq resizing reaches a fixed point: under a stable peer view, some
/// iterate within one ring's worth of steps no longer changes.  When
/// the view calls for growth the length strictly increases until the
/// arc saturates; when it calls for shrinking the length strictly
/// decreases until the arc empties; otherwise the arq is already a
/// fixed point.
pub proof fn lemma_resize_converges(strat: ArqStrat, arq: Arq, view: ViewStats)
    requires
        strat.wf(),
        arq.wf(),
        grow_inv(strat, arq, view),
    ensures
        exists|n: nat|
            n <= SPACE_QUANTA_COUNT + 1 && #[trigger] iterate_resize(strat, arq, view, n)
                == iterate_resize(strat, arq, view, (n + 1) as nat),
{
    let growing = spec_slacking(strat, view) || (view.coverage_ppt as int) < strat.min_coverage
        * 1000;
    let shrinking = !growing && view.coverage_ppt as int > strat.spec_max_coverage() * 1000;
    lemma_pow2_pos(arq.power as int);
    assert(arq.spec_length() >= 0) by (nonlinear_arith)
        requires
            arq.count >= 0,
            spec_pow2(arq.power as int) >= 1,
            arq.spec_length() == arq.count * spec_pow2(arq.power as int),
    ;
    if strat.local_storage.arc_clamping is Some || (!growing && !shrinking) {
        assert(iterate_resize(strat, arq, view, 0) == arq);
        assert(iterate_resize(strat, arq, view, 1) == spec_resize_step(strat, arq, view));
        assert(iterate_resize(strat, arq, view, 0) == iterate_resize(strat, arq, view, 1));
    } else if growing {
        lemma_resize_converges_grow(strat, arq, view, (SPACE_QUANTA_COUNT as int + 1
            - arq.spec_length()) as nat);
    } else {
        lemma_resize_converges_shrink(strat, arq, view, arq.spec_length() as nat);
    }
}

/// Convergence under a stable growing verdict, by descent on the
/// remaining room to the full ring.
proof fn lemma_resize_converges_grow(strat: ArqStrat, arq: Arq, view: ViewStats, fuel: nat)
    requires
        strat.wf(),
        arq.wf(),
        grow_inv(strat, arq, view),
        spec_slacking(strat, view) || (view.coverage_ppt as int) < strat.min_coverage * 1000,
        strat.local_storage.arc_clamping is None,
        SPACE_QUANTA_COUNT + 1 - arq.spec_length() <= fuel,
    ensures
        exists|n: nat|
            n <= fuel && #[trigger] iterate_resize(strat, arq, view, n) == iterate_resize(
                strat,
                arq,
                view,
                (n + 1) as nat,
            ),
    decreases fuel,
{
    lemma_grow_progress(strat, arq, view);
    let step = spec_resize_step(strat, arq, view);
    assert(step == spec_grow(strat, arq, view));
    if arq.is_full() {
        assert(iterate_resize(strat, arq, view, 0) == arq);
        assert(iterate_resize(strat, arq, view, 1) == step);
        assert(iterate_resize(strat, arq, view, 0) == iterate_resize(strat, arq, view, 1));
    } else {
        if step.is_full() {
            assert(spec_grow(strat, step, view) == step);
            assert(spec_resize_step(strat, step, view) == step);
            assert(iterate_resize(strat, arq, view, 0) == arq);
            assert(iterate_resize(strat, arq, view, 1) == step);
            assert(iterate_resize(strat, arq, view, 2) == spec_resize_step(
                strat,
                iterate_resize(strat, arq, view, 1),
                view,
            ));
            assert(iterate_resize(strat, arq, view, 1) == iterate_resize(strat, arq, view, 2));
            assert(1 <= fuel);
        } else {
            assert(grow_inv(strat, step, view));
            lemma_resize_converges_grow(strat, step, view, (fuel - 1) as nat);
            let n0 = choose|n: nat|
                n <= (fuel - 1) as nat && #[trigger] iterate_resize(strat, step, view, n)
                    == iterate_resize(strat, step, view, (n + 1) as nat);
            lemma_iterate_shift(strat, arq, view, n0);
            lemma_iterate_shift(strat, arq, view, (n0 + 1) as nat);
            assert(iterate_resize(strat, arq, view, (n0 + 1) as nat) == iterate_resize(
                strat,
                arq,
                view,
                ((n0 + 1) + 1) as nat,
            ));
        }
    }
}

/// Convergence under a stable shrinking verdict, by descent on the
/// covered length.
proof fn lemma_resize_converges_shrink(strat: ArqStrat, arq: Arq, view: ViewStats, fuel: nat)
    requires
        strat.wf(),
        arq.wf(),
        !(spec_slacking(strat, view) || (view.coverage_ppt as int) < strat.min_coverage * 1000),
        view.coverage_ppt as int > strat.spec_max_coverage() * 1000,
        strat.local_storage.arc_clamping is None,
        arq.spec_length() <= fuel,
    ensures
        exists|n: nat|
            n <= fuel && #[trigger] iterate_resize(strat, arq, view, n) == iterate_resize(
                strat,
                arq,
                view,
                (n + 1) as nat,
            ),
    decreases fuel,
{
    lemma_shrink_progress(strat, arq, view);
    lemma_pow2_pos(arq.power as int);
    let step = spec_resize_step(strat, arq, view);
    assert(step == spec_shrink(strat, arq, view));
    if arq.is_empty() {
        assert(iterate_resize(strat, arq, view, 0) == arq);
        assert(iterate_resize(strat, arq, view, 1) == step);
        assert(iterate_resize(strat, arq, view, 0) == iterate_resize(strat, arq, view, 1));
    } else {
        lemma_resize_converges_shrink(strat, step, view, (fuel - 1) as nat);
        let n0 = choose|n: nat|
            n <= (fuel - 1) as nat && #[trigger] iterate_resize(strat, step, view, n)
                == iterate_resize(strat, step, view, (n + 1) as nat);
        lemma_iterate_shift(strat, arq, view, n0);
        lemma_iterate_shift(strat, arq, view, (n0 + 1) as nat);
        assert(iterate_resize(strat, arq, view, (n0 + 1) as nat) == iterate_resize(
            strat,
            arq,
            view,
            ((n0 + 1) + 1) as nat,
        ));
    }
}

/// Iterating from the first step equals one more iterate from the
/// start.
proof fn lemma_iterate_shift(strat: ArqStrat, arq: Arq, view: ViewStats, n: nat)
    ensures
        iterate_resize(strat, spec_resize_step(strat, arq, view), view, n) == iterate_resize(
            strat,
            arq,
            view,
            (n + 1) as nat,
        ),
    decreases n,
{
    let step = spec_resize_step(strat, arq, view);
    if n == 0 {
        assert(iterate_resize(strat, step, view, 0) == step);
        assert(iterate_resize(strat, arq, view, 0) == arq);
        assert(iterate_resize(strat, arq, view, 1) == spec_resize_step(
            strat,
            iterate_resize(strat, arq, view, 0),
            view,
        ));
    } else {
        lemma_iterate_shift(strat, arq, view, (n - 1) as nat);
        assert(iterate_resize(strat, step, view, n) == spec_resize_step(
            strat,
            iterate_resize(strat, step, view, (n - 1) as nat),
            view,
        ));
        assert(iterate_resize(strat, arq, view, (n + 1) as nat) == spec_resize_step(
            strat,
            iterate_resize(strat, arq, view, n),
            view,
        ));
    }
}


} // verus!
