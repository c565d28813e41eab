//! Expansion of a declared parameter sweep into the ordered sequence of
//! concrete strategy descriptors: a pure, deterministic cartesian product of
//! five numeric ranges, in a fixed nested order (take-profit outermost, then
//! stop-loss, candle-repetition count, candle window size, and risk fraction
//! innermost).
//!
//! Fractional parameters (take-profit, stop-loss and risk multipliers) are
//! carried in hundredths, and money amounts in cents, so every value is a
//! plain integer.

use vstd::prelude::*;
use vstd::arithmetic::div_mod::{
    lemma_div_pos_is_pos, lemma_fundamental_div_mod, lemma_mod_division_less_than_divisor,
    lemma_multiply_divide_lt,
};
use vstd::arithmetic::mul::{lemma_mul_inequality, lemma_mul_is_commutative};

verus! {

/// Which market a strategy trades on.
#[derive(Clone, Copy, PartialEq, Eq, Structural, Debug)]
pub enum MarketType {
    Spot,
    Futures,
}

/// The chart-pattern family a strategy watches for.
#[derive(Clone, Copy, PartialEq, Eq, Structural, Debug)]
pub enum PatternFamily {
    W,
    M,
}

/// One inclusive numeric range `{min, max, step}` of a parameter sweep.
#[derive(Clone, Copy, PartialEq, Eq, Structural, Debug)]
pub struct ParamMultiplier {
    pub min: u32,
    pub max: u32,
    pub step: u32,
}

impl ParamMultiplier {
    /// A well-formed range steps forward and does not run backward; a
    /// degenerate range (`min == max`) is allowed and yields one value.
    pub open spec fn wf(self) -> bool {
        &&& self.step > 0
        &&& self.min <= self.max
    }

    /// How many values the range yields.
    pub open spec fn count(self) -> int {
        (self.max - self.min) / (self.step as int) + 1
    }

    /// The `i`-th value drawn from the range: `min`, `min + step`, ...
    pub open spec fn value_at(self, i: int) -> u32 {
        (self.min + i * self.step) as u32
    }

    /// A well-formed range yields at least one value, and each of its values
    /// lies between `min` and `max`.
    pub proof fn lemma_values_in_range(self, i: int)
        requires
            self.wf(),
            0 <= i < self.count(),
        ensures
            self.count() >= 1,
            self.min <= self.min + i * self.step <= self.max,
            self.value_at(i) == self.min + i * self.step,
    {
        let span = self.max - self.min;
        let st = self.step as int;
        lemma_div_pos_is_pos(span, st);
        assert(0 <= i * st) by {
            vstd::arithmetic::mul::lemma_mul_nonnegative(i, st);
        }
        assert(i * st <= span) by {
            lemma_mul_inequality(i, span / st, st);
            lemma_fundamental_div_mod(span, st);
            lemma_mul_is_commutative(span / st, st);
        }
    }

    /// Is the range well formed?  (The executable twin of `wf`.)
    pub fn is_well_formed(&self) -> (r: bool)
        ensures
            r == self.wf(),
    {
        self.step > 0 && self.min <= self.max
    }

    /// How many values the range yields.
    pub fn count_values(&self) -> (c: usize)
        requires
            self.wf(),
            self.count() <= usize::MAX,
        ensures
            c == self.count(),
    {
        (((self.max - self.min) / self.step) as usize) + 1
    }

    /// The `i`-th value drawn from the range.
    pub fn nth_value(&self, i: usize) -> (v: u32)
        requires
            self.wf(),
            i < self.count(),
        ensures
            v == self.value_at(i as int),
    {
        proof {
            self.lemma_values_in_range(i as int);
        }
        self.min + (i as u32) * self.step
    }
}

/// The declared sweep: five independent ranges, one per strategy parameter.
#[derive(Clone, Copy, PartialEq, Eq, Structural, Debug)]
pub struct StrategyParameterSweep {
    /// Take-profit multiplier, in hundredths.
    pub tp: ParamMultiplier,
    /// Stop-loss multiplier, in hundredths.
    pub sl: ParamMultiplier,
    /// Candle-repetition count.
    pub kline_repetition: ParamMultiplier,
    /// Candle window size.
    pub kline_range: ParamMultiplier,
    /// Risk per trade, in hundredths of the capital fraction.
    pub risk: ParamMultiplier,
}

impl StrategyParameterSweep {
    /// Every range of the sweep is well formed.
    pub open spec fn wf(self) -> bool {
        &&& self.tp.wf()
        &&& self.sl.wf()
        &&& self.kline_repetition.wf()
        &&& self.kline_range.wf()
        &&& self.risk.wf()
    }

    /// How many descriptors the sweep expands to: the product of the five
    /// range sizes.
    pub open spec fn total(self) -> int {
        self.tp.count() * self.sl.count() * self.kline_repetition.count() * self.kline_range.count()
            * self.risk.count()
    }

    /// Is the sweep well formed?  (The executable twin of `wf`.)
    pub fn is_well_formed(&self) -> (r: bool)
        ensures
            r == self.wf(),
    {
        self.tp.is_well_formed() && self.sl.is_well_formed()
            && self.kline_repetition.is_well_formed() && self.kline_range.is_well_formed()
            && self.risk.is_well_formed()
    }
}

/// The fixed fields every descriptor of one expansion shares.
#[derive(Clone, Copy, PartialEq, Eq, Structural, Debug)]
pub struct StrategyMetadata {
    /// Starting capital, in cents.
    pub start_money: i64,
    pub market_type: MarketType,
    pub pattern: PatternFamily,
}

/// One concrete, fully parameterized strategy variant drawn from a sweep.
#[derive(Clone, Copy, PartialEq, Eq, Structural, Debug)]
pub struct StrategyDescriptor {
    /// Take-profit multiplier, in hundredths.
    pub tp: u32,
    /// Stop-loss multiplier, in hundredths.
    pub sl: u32,
    /// Candle-repetition count.
    pub kline_repetition: u32,
    /// Candle window size.
    pub kline_range: u32,
    /// Risk per trade, in hundredths of the capital fraction.
    pub risk: u32,
    /// Starting capital, in cents.
    pub start_money: i64,
    pub market_type: MarketType,
    pub pattern: PatternFamily,
}

/// The descriptor at flat position `k` of the expansion, with take-profit the
/// outermost axis and risk the innermost: `k` is read as a mixed-radix number
/// whose digits index the five ranges.
pub open spec fn spec_descriptor_at(
    s: StrategyParameterSweep,
    meta: StrategyMetadata,
    k: int,
) -> StrategyDescriptor {
    let i5 = k % s.risk.count();
    let q4 = k / s.risk.count();
    let i4 = q4 % s.kline_range.count();
    let q3 = q4 / s.kline_range.count();
    let i3 = q3 % s.kline_repetition.count();
    let q2 = q3 / s.kline_repetition.count();
    let i2 = q2 % s.sl.count();
    let i1 = q2 / s.sl.count();
    StrategyDescriptor {
        tp: s.tp.value_at(i1),
        sl: s.sl.value_at(i2),
        kline_repetition: s.kline_repetition.value_at(i3),
        kline_range: s.kline_range.value_at(i4),
        risk: s.risk.value_at(i5),
        start_money: meta.start_money,
        market_type: meta.market_type,
        pattern: meta.pattern,
    }
}

/// `descs` is exactly the expansion of the sweep `s` with metadata `meta`.
pub open spec fn is_expansion(
    s: StrategyParameterSweep,
    meta: StrategyMetadata,
    descs: Seq<StrategyDescriptor>,
) -> bool {
    &&& descs.len() == s.total()
    &&& forall|k: int| 0 <= k < descs.len() ==> descs[k] == spec_descriptor_at(s, meta, k)
}

/// Expansion is deterministic: any two descriptor sequences expanded from the
/// same sweep and metadata are equal, element for element and in order.
pub proof fn lemma_expansion_deterministic(
    s: StrategyParameterSweep,
    meta: StrategyMetadata,
    d1: Seq<StrategyDescriptor>,
    d2: Seq<StrategyDescriptor>,
)
    requires
        is_expansion(s, meta, d1),
        is_expansion(s, meta, d2),
    ensures
        d1 == d2,
{
    assert(d1 =~= d2);
}

/// A well-formed range yields at least one value.
proof fn lemma_count_positive(r: ParamMultiplier)
    requires
        r.wf(),
    ensures
        r.count() >= 1,
{
    lemma_div_pos_is_pos(r.max - r.min, r.step as int);
}

/// Within one range, distinct indices yield distinct values.
proof fn lemma_value_injective(r: ParamMultiplier, i: int, j: int)
    requires
        r.wf(),
        0 <= i < r.count(),
        0 <= j < r.count(),
        r.value_at(i) == r.value_at(j),
    ensures
        i == j,
{
    r.lemma_values_in_range(i);
    r.lemma_values_in_range(j);
    if i < j {
        vstd::arithmetic::mul::lemma_mul_strict_inequality(i, j, r.step as int);
    }
    if j < i {
        vstd::arithmetic::mul::lemma_mul_strict_inequality(j, i, r.step as int);
    }
}

/// Distinct positions of one expansion carry distinct descriptors: the five
/// parameter values read back from a descriptor determine its mixed-radix
/// digits, and those determine the flat index.  Together with
/// `lemma_expansion_deterministic` this is what "exactly one result per
/// descriptor" rests on: the expansion never repeats a combination.
pub proof fn lemma_expansion_distinct(
    s: StrategyParameterSweep,
    meta: StrategyMetadata,
    k1: int,
    k2: int,
)
    requires
        s.wf(),
        0 <= k1 < s.total(),
        0 <= k2 < s.total(),
        k1 != k2,
    ensures
        spec_descriptor_at(s, meta, k1) != spec_descriptor_at(s, meta, k2),
{
    let n1 = s.tp.count();
    let n2 = s.sl.count();
    let n3 = s.kline_repetition.count();
    let n4 = s.kline_range.count();
    let n5 = s.risk.count();
    lemma_count_positive(s.tp);
    lemma_count_positive(s.sl);
    lemma_count_positive(s.kline_repetition);
    lemma_count_positive(s.kline_range);
    lemma_count_positive(s.risk);
    lemma_digit_bounds(n1, n2, n3, n4, n5, k1);
    lemma_digit_bounds(n1, n2, n3, n4, n5, k2);
    if spec_descriptor_at(s, meta, k1) == spec_descriptor_at(s, meta, k2) {
        let q4a = k1 / n5;
        let q4b = k2 / n5;
        let q3a = q4a / n4;
        let q3b = q4b / n4;
        let q2a = q3a / n3;
        let q2b = q3b / n3;
        lemma_value_injective(s.risk, k1 % n5, k2 % n5);
        lemma_value_injective(s.kline_range, q4a % n4, q4b % n4);
        lemma_value_injective(s.kline_repetition, q3a % n3, q3b % n3);
        lemma_value_injective(s.sl, q2a % n2, q2b % n2);
        lemma_value_injective(s.tp, q2a / n2, q2b / n2);
        // equal digits reconstruct equal indices, digit by digit
        lemma_fundamental_div_mod(q2a, n2);
        lemma_fundamental_div_mod(q2b, n2);
        assert(q2a == q2b);
        lemma_fundamental_div_mod(q3a, n3);
        lemma_fundamental_div_mod(q3b, n3);
        assert(q3a == q3b);
        lemma_fundamental_div_mod(q4a, n4);
        lemma_fundamental_div_mod(q4b, n4);
        assert(q4a == q4b);
        lemma_fundamental_div_mod(k1, n5);
        lemma_fundamental_div_mod(k2, n5);
        assert(k1 == k2);
    }
}

/// Decompose the flat index `k < n1*n2*n3*n4*n5` into its mixed-radix digits:
/// each quotient stays within its axis.
proof fn lemma_digit_bounds(n1: int, n2: int, n3: int, n4: int, n5: int, k: int)
    requires
        1 <= n1,
        1 <= n2,
        1 <= n3,
        1 <= n4,
        1 <= n5,
        0 <= k < n1 * n2 * n3 * n4 * n5,
    ensures
        0 <= k % n5 < n5,
        0 <= k / n5 < n1 * n2 * n3 * n4,
        0 <= (k / n5) % n4 < n4,
        0 <= (k / n5) / n4 < n1 * n2 * n3,
        0 <= ((k / n5) / n4) % n3 < n3,
        0 <= ((k / n5) / n4) / n3 < n1 * n2,
        0 <= (((k / n5) / n4) / n3) % n2 < n2,
        0 <= (((k / n5) / n4) / n3) / n2 < n1,
{
    lemma_mod_division_less_than_divisor(k, n5);
    lemma_div_pos_is_pos(k, n5);
    assert(k < n5 * (n1 * n2 * n3 * n4)) by (nonlinear_arith)
        requires
            k < n1 * n2 * n3 * n4 * n5,
            1 <= n1,
            1 <= n2,
            1 <= n3,
            1 <= n4,
            1 <= n5,
    ;
    lemma_multiply_divide_lt(k, n5, n1 * n2 * n3 * n4);
    let q4 = k / n5;
    lemma_mod_division_less_than_divisor(q4, n4);
    lemma_div_pos_is_pos(q4, n4);
    assert(q4 < n4 * (n1 * n2 * n3)) by (nonlinear_arith)
        requires
            q4 < n1 * n2 * n3 * n4,
            1 <= n1,
            1 <= n2,
            1 <= n3,
            1 <= n4,
    ;
    lemma_multiply_divide_lt(q4, n4, n1 * n2 * n3);
    let q3 = q4 / n4;
    lemma_mod_division_less_than_divisor(q3, n3);
    lemma_div_pos_is_pos(q3, n3);
    assert(q3 < n3 * (n1 * n2)) by (nonlinear_arith)
        requires
            q3 < n1 * n2 * n3,
            1 <= n1,
            1 <= n2,
            1 <= n3,
    ;
    lemma_multiply_divide_lt(q3, n3, n1 * n2);
    let q2 = q3 / n3;
    lemma_mod_division_less_than_divisor(q2, n2);
    lemma_div_pos_is_pos(q2, n2);
    assert(q2 < n2 * n1) by (nonlinear_arith)
        requires
            q2 < n1 * n2,
            1 <= n1,
            1 <= n2,
    ;
    lemma_multiply_divide_lt(q2, n2, n1);
}

/// Expand the sweep into its ordered descriptor sequence.
///
/// Pure and deterministic: the result has exactly `s.total()` descriptors,
/// and the one at position `k` is `spec_descriptor_at(s, meta, k)`, so the
/// nested order (take-profit, then stop-loss, repetition count, window size,
/// risk) is pinned down completely.
pub fn expand_sweep(s: &StrategyParameterSweep, meta: &StrategyMetadata) -> (descs: Vec<
    StrategyDescriptor,
>)
    requires
        s.wf(),
        s.total() <= usize::MAX,
    ensures
        is_expansion(*s, *meta, descs@),
{
    proof {
        s.tp.lemma_values_in_range(0);
        s.sl.lemma_values_in_range(0);
        s.kline_repetition.lemma_values_in_range(0);
        s.kline_range.lemma_values_in_range(0);
        s.risk.lemma_values_in_range(0);
        assert(s.tp.count() <= s.total() && s.sl.count() <= s.total() && s.kline_repetition.count()
            <= s.total() && s.kline_range.count() <= s.total() && s.risk.count() <= s.total())
            by (nonlinear_arith)
            requires
                1 <= s.tp.count(),
                1 <= s.sl.count(),
                1 <= s.kline_repetition.count(),
                1 <= s.kline_range.count(),
                1 <= s.risk.count(),
                s.total() == s.tp.count() * s.sl.count() * s.kline_repetition.count()
                    * s.kline_range.count() * s.risk.count(),
        ;
    }
    let n1: usize = s.tp.count_values();
    let n2: usize = s.sl.count_values();
    let n3: usize = s.kline_repetition.count_values();
    let n4: usize = s.kline_range.count_values();
    let n5: usize = s.risk.count_values();
    proof {
        assert(n1 * n2 <= s.total() && n1 * n2 * n3 <= s.total() && n1 * n2 * n3 * n4 <= s.total())
            by (nonlinear_arith)
            requires
                1 <= n1,
                1 <= n2,
                1 <= n3,
                1 <= n4,
                1 <= n5,
                s.total() == n1 * n2 * n3 * n4 * n5,
        ;
    }
    let total: usize = n1 * n2 * n3 * n4 * n5;
    let mut descs: Vec<StrategyDescriptor> = Vec::new();
    let mut k: usize = 0;
    while k < total
        invariant
            s.wf(),
            n1 == s.tp.count(),
            n2 == s.sl.count(),
            n3 == s.kline_repetition.count(),
            n4 == s.kline_range.count(),
            n5 == s.risk.count(),
            total == s.total(),
            k <= total,
            descs@.len() == k,
            forall|j: int| 0 <= j < k ==> descs@[j] == spec_descriptor_at(*s, *meta, j),
        decreases total - k,
    {
        proof {
            lemma_digit_bounds(n1 as int, n2 as int, n3 as int, n4 as int, n5 as int, k as int);
        }
        let i5: usize = k % n5;
        let q4: usize = k / n5;
        let i4: usize = q4 % n4;
        let q3: usize = q4 / n4;
        let i3: usize = q3 % n3;
        let q2: usize = q3 / n3;
        let i2: usize = q2 % n2;
        let i1: usize = q2 / n2;
        let d = StrategyDescriptor {
            tp: s.tp.nth_value(i1),
            sl: s.sl.nth_value(i2),
            kline_repetition: s.kline_repetition.nth_value(i3),
            kline_range: s.kline_range.nth_value(i4),
            risk: s.risk.nth_value(i5),
            start_money: meta.start_money,
            market_type: meta.market_type,
            pattern: meta.pattern,
        };
        descs.push(d);
        k = k + 1;
    }
    descs
}

} // verus!
