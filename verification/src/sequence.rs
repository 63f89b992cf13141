//! Low-discrepancy sample sequences.
//!
//! The sequences here are exact: a sample is a fraction of two integers. The
//! caller turns it into whatever number type it computes with.

use vstd::prelude::*;
use vstd::arithmetic::div_mod::{
    lemma_div_decreases, lemma_fundamental_div_mod, lemma_fundamental_div_mod_converse,
};

verus! {

/// A generator of samples.
pub trait Sequence<T> {
    /// Whether another sample can be drawn.
    open spec fn ready(&self) -> bool {
        true
    }

    /// Draws the next sample.
    fn next(&mut self) -> (sample: T)
        requires
            old(self).ready(),
    ;
}

/// A sample of the unit interval: `numerator / denominator`.
#[derive(Clone, Copy, Debug, PartialEq, Eq, Structural)]
pub struct Fraction {
    pub numerator: u64,
    pub denominator: u64,
}

/// The denominator of the radical inverse of `index` in `base`: the least
/// power of `base` above `index`.
pub open spec fn radical_denominator(base: nat, index: nat) -> nat
    decreases index,
    when base >= 2
    via radical_denominator_decreases
{
    if index == 0 {
        1
    } else {
        base * radical_denominator(base, index / base)
    }
}

#[via_fn]
proof fn radical_denominator_decreases(base: nat, index: nat) {
    if index != 0 {
        lemma_div_decreases(index as int, base as int);
    }
}

/// The numerator of the radical inverse of `index` in `base`: the digits of
/// `index` in reverse order, the lowest digit first.
pub open spec fn radical_numerator(base: nat, index: nat) -> nat
    decreases index,
    when base >= 2
    via radical_numerator_decreases
{
    if index == 0 {
        0
    } else {
        (index % base) * radical_denominator(base, index / base) + radical_numerator(
            base,
            index / base,
        )
    }
}

#[via_fn]
proof fn radical_numerator_decreases(base: nat, index: nat) {
    if index != 0 {
        lemma_div_decreases(index as int, base as int);
    }
}

/// The greatest of `unit`, `unit / base`, `unit / base / base`, ... that is
/// below `gap`.
pub open spec fn settle(base: nat, gap: nat, unit: nat) -> nat
    decreases unit,
    when base >= 2 && gap >= 1
    via settle_decreases
{
    if gap <= unit {
        settle(base, gap, unit / base)
    } else {
        unit
    }
}

#[via_fn]
proof fn settle_decreases(base: nat, gap: nat, unit: nat) {
    if gap <= unit {
        lemma_div_decreases(unit as int, base as int);
    }
}

/// A radical inverse lies in the unit interval, short of one.
pub proof fn lemma_radical_in_unit_interval(base: nat, index: nat)
    requires
        base >= 2,
    ensures
        radical_denominator(base, index) >= 1,
        radical_numerator(base, index) < radical_denominator(base, index),
        index >= 1 ==> radical_numerator(base, index) >= 1,
    decreases index,
{
    if index != 0 {
        let quotient = index / base;
        let digit = index % base;
        lemma_div_decreases(index as int, base as int);
        lemma_fundamental_div_mod(index as int, base as int);
        lemma_radical_in_unit_interval(base, quotient);
        let unit = radical_denominator(base, quotient);
        let rest = radical_numerator(base, quotient);
        assert(digit * unit + rest < base * unit) by (nonlinear_arith)
            requires
                digit < base,
                rest < unit,
        ;
        assert(base * unit >= 1) by (nonlinear_arith)
            requires
                base >= 2,
                unit >= 1,
        ;
        if digit == 0 {
            assert(quotient >= 1) by (nonlinear_arith)
                requires
                    index == base * quotient + digit,
                    digit == 0,
                    index >= 1,
                    base >= 2,
                    quotient >= 0,
            ;
            assert(digit * unit == 0) by (nonlinear_arith)
                requires
                    digit == 0,
            ;
        } else {
            assert(digit * unit >= 1) by (nonlinear_arith)
                requires
                    digit >= 1,
                    unit >= 1,
            ;
        }
    }
}

/// The denominator of a radical inverse is at most `base` times the index.
pub proof fn lemma_radical_denominator_bound(base: nat, index: nat)
    requires
        base >= 2,
        index >= 1,
    ensures
        radical_denominator(base, index) <= base * index,
    decreases index,
{
    let quotient = index / base;
    lemma_div_decreases(index as int, base as int);
    lemma_fundamental_div_mod(index as int, base as int);
    if quotient == 0 {
        assert(base * 1 <= base * index) by (nonlinear_arith)
            requires
                index >= 1,
        ;
    } else {
        lemma_radical_denominator_bound(base, quotient);
        let unit = radical_denominator(base, quotient);
        assert(base * unit <= base * index) by (nonlinear_arith)
            requires
                unit <= base * quotient,
                index == base * quotient + index % base,
                index % base >= 0,
        ;
    }
}

/// How the radical inverse of `index + 1` comes from that of `index`. With
/// `gap` the distance of the numerator from the denominator: where the gap
/// is one, the next inverse is one over the next power of the base; else the
/// denominator stays, and the numerator becomes `(base + 1) * unit - gap`
/// for the greatest `unit` below the gap among the denominator's quotients
/// by powers of the base.
pub proof fn lemma_radical_successor(base: nat, index: nat)
    requires
        base >= 2,
    ensures
        ({
            let numerator = radical_numerator(base, index);
            let denominator = radical_denominator(base, index);
            let gap = (denominator - numerator) as nat;
            if gap == 1 {
                &&& radical_numerator(base, index + 1) == 1
                &&& radical_denominator(base, index + 1) == denominator * base
            } else {
                &&& radical_denominator(base, index + 1) == denominator
                &&& radical_numerator(base, index + 1) + gap == (base + 1) * settle(
                    base,
                    gap,
                    denominator / base,
                )
            }
        }),
    decreases index,
{
    let numerator = radical_numerator(base, index);
    let denominator = radical_denominator(base, index);
    lemma_radical_in_unit_interval(base, index);
    let gap = (denominator - numerator) as nat;
    if index == 0 {
        lemma_fundamental_div_mod_converse(1, base as int, 0, 1);
        assert(radical_denominator(base, 0) == 1);
        assert(radical_numerator(base, 0) == 0);
        assert(radical_denominator(base, 1) == base * radical_denominator(base, 0));
        assert(radical_numerator(base, 1) == 1 * radical_denominator(base, 0)
            + radical_numerator(base, 0));
    } else {
        let quotient = index / base;
        let digit = index % base;
        lemma_div_decreases(index as int, base as int);
        lemma_fundamental_div_mod(index as int, base as int);
        lemma_radical_in_unit_interval(base, quotient);
        let unit = radical_denominator(base, quotient);
        let rest = radical_numerator(base, quotient);
        assert(denominator == base * unit);
        assert(numerator == digit * unit + rest);
        assert(denominator / base == unit) by {
            lemma_fundamental_div_mod_converse(
                denominator as int,
                base as int,
                unit as int,
                0,
            );
        }
        if digit + 1 < base {
            lemma_fundamental_div_mod_converse(
                (index + 1) as int,
                base as int,
                quotient as int,
                (digit + 1) as int,
            );
            assert(radical_denominator(base, index + 1) == base * unit);
            assert(radical_numerator(base, index + 1) == (digit + 1) * unit + rest);
            assert(gap > unit) by (nonlinear_arith)
                requires
                    gap == base * unit - (digit * unit + rest),
                    digit + 1 < base,
                    rest < unit,
            ;
            assert(settle(base, gap, unit) == unit);
            assert((digit + 1) * unit + rest + gap == (base + 1) * unit) by (nonlinear_arith)
                requires
                    gap == base * unit - (digit * unit + rest),
            ;
        } else {
            assert(index + 1 == (quotient + 1) * base + 0) by (nonlinear_arith)
                requires
                    index == base * quotient + digit,
                    digit + 1 == base,
            ;
            lemma_fundamental_div_mod_converse(
                (index + 1) as int,
                base as int,
                (quotient + 1) as int,
                0,
            );
            assert(radical_denominator(base, index + 1) == base * radical_denominator(
                base,
                quotient + 1,
            ));
            assert(radical_numerator(base, index + 1) == 0 * radical_denominator(
                base,
                quotient + 1,
            ) + radical_numerator(base, quotient + 1));
            assert(gap == unit - rest) by (nonlinear_arith)
                requires
                    gap == base * unit - (digit * unit + rest),
                    digit + 1 == base,
            ;
            lemma_radical_successor(base, quotient);
            if gap == 1 {
                assert(base * (unit * base) == (base * unit) * base) by (nonlinear_arith);
            } else {
                assert(gap <= unit);
                assert(settle(base, gap, unit) == settle(base, gap, unit / base));
            }
        }
    }
}

/// The Van der Corput sequence of a base: the radical inverses of 1, 2, 3,
/// ... in that base.
pub struct VanDerCorput {
    base: u64,
    n: u64,
    d: u64,
    drawn: Ghost<nat>,
}

impl VanDerCorput {
    /// The base of the sequence.
    pub closed spec fn base(&self) -> nat {
        self.base as nat
    }

    /// The number of samples drawn so far.
    pub closed spec fn drawn(&self) -> nat {
        self.drawn@
    }

    /// The state is that of the sequence after `drawn` samples.
    pub closed spec fn wf(&self) -> bool {
        &&& self.base >= 2
        &&& self.n == radical_numerator(self.base as nat, self.drawn@)
        &&& self.d == radical_denominator(self.base as nat, self.drawn@)
    }

    /// The sequence of a base of at least two, before its first sample.
    pub fn new(base: u64) -> (sequence: VanDerCorput)
        requires
            base >= 2,
        ensures
            sequence.wf(),
            sequence.base() == base,
            sequence.drawn() == 0,
    {
        VanDerCorput { base, n: 0, d: 1, drawn: Ghost(0) }
    }

    /// Tells whether the next sample fits the machine's integers.
    pub fn has_next(&self) -> (ready: bool)
        requires
            self.wf(),
        ensures
            ready == self.ready(),
    {
        proof {
            lemma_radical_in_unit_interval(self.base as nat, self.drawn@);
            lemma_radical_successor(self.base as nat, self.drawn@);
        }
        if self.d - self.n == 1 {
            let fits = self.d <= u64::MAX / self.base;
            proof {
                let d = self.d as int;
                let b = self.base as int;
                lemma_fundamental_div_mod(u64::MAX as int, b);
                if fits {
                    assert(d * b <= u64::MAX) by (nonlinear_arith)
                        requires
                            d <= u64::MAX as int / b,
                            u64::MAX as int == b * (u64::MAX as int / b) + u64::MAX as int % b,
                            u64::MAX as int % b >= 0,
                            b >= 2,
                    ;
                } else {
                    assert(d * b > u64::MAX) by (nonlinear_arith)
                        requires
                            d >= u64::MAX as int / b + 1,
                            u64::MAX as int == b * (u64::MAX as int / b) + u64::MAX as int % b,
                            u64::MAX as int % b < b,
                            b >= 2,
                    ;
                }
            }
            fits
        } else {
            true
        }
    }
}

impl Sequence<Fraction> for VanDerCorput {
    /// The state is well formed and the next denominator fits in 64 bits.
    open spec fn ready(&self) -> bool {
        self.wf() && radical_denominator(self.base(), self.drawn() + 1) <= u64::MAX
    }

    /// Draws the next radical inverse.
    fn next(&mut self) -> (sample: Fraction)
        ensures
            final(self).wf(),
            final(self).base() == old(self).base(),
            final(self).drawn() == old(self).drawn() + 1,
            sample.numerator == radical_numerator(old(self).base(), old(self).drawn() + 1),
            sample.denominator == radical_denominator(old(self).base(), old(self).drawn() + 1),
            sample.numerator < sample.denominator,
    {
        proof {
            lemma_radical_in_unit_interval(self.base as nat, self.drawn@);
            lemma_radical_in_unit_interval(self.base as nat, self.drawn@ + 1);
            lemma_radical_successor(self.base as nat, self.drawn@);
        }
        let x = self.d - self.n;
        if x == 1 {
            self.n = 1;
            self.d = self.d * self.base;
        } else {
            let mut y = self.d / self.base;
            while x <= y
                invariant
                    self.base >= 2,
                    x >= 1,
                    settle(self.base as nat, x as nat, y as nat) == settle(
                        self.base as nat,
                        x as nat,
                        (self.d / self.base) as nat,
                    ),
                decreases y,
            {
                proof {
                    lemma_div_decreases(y as int, self.base as int);
                }
                y = y / self.base;
            }
            let next = (self.base as u128 + 1) * (y as u128) - (x as u128);
            self.n = next as u64;
        }
        proof {
            self.drawn = Ghost(self.drawn@ + 1);
        }
        Fraction { numerator: self.n, denominator: self.d }
    }
}

/// A sample of the unit square.
#[derive(Clone, Copy, Debug, PartialEq, Eq, Structural)]
pub struct Sample2 {
    pub x: Fraction,
    pub y: Fraction,
}

/// The Halton sequence in two dimensions: one Van der Corput sequence to
/// each coordinate, in two different bases.
pub struct Halton2 {
    corput_1: VanDerCorput,
    corput_2: VanDerCorput,
}

impl Halton2 {
    /// The sequence of the first coordinate.
    pub closed spec fn first(&self) -> VanDerCorput {
        self.corput_1
    }

    /// The sequence of the second coordinate.
    pub closed spec fn second(&self) -> VanDerCorput {
        self.corput_2
    }

    /// The sequence of two different bases, before its first sample.
    pub fn new(base_1: u64, base_2: u64) -> (sequence: Halton2)
        requires
            base_1 >= 2,
            base_2 >= 2,
            base_1 != base_2,
        ensures
            sequence.first().wf(),
            sequence.second().wf(),
            sequence.first().base() == base_1,
            sequence.second().base() == base_2,
            sequence.first().drawn() == 0,
            sequence.second().drawn() == 0,
    {
        Halton2 { corput_1: VanDerCorput::new(base_1), corput_2: VanDerCorput::new(base_2) }
    }

    /// Tells whether the next sample fits the machine's integers.
    pub fn has_next(&self) -> (ready: bool)
        requires
            self.first().wf(),
            self.second().wf(),
        ensures
            ready == self.ready(),
    {
        self.corput_1.has_next() && self.corput_2.has_next()
    }
}

impl Sequence<Sample2> for Halton2 {
    /// Both coordinates are ready.
    open spec fn ready(&self) -> bool {
        self.first().ready() && self.second().ready()
    }

    /// Draws the next pair of radical inverses.
    fn next(&mut self) -> (sample: Sample2)
        ensures
            final(self).first().wf(),
            final(self).second().wf(),
            final(self).first().base() == old(self).first().base(),
            final(self).second().base() == old(self).second().base(),
            final(self).first().drawn() == old(self).first().drawn() + 1,
            final(self).second().drawn() == old(self).second().drawn() + 1,
            sample.x.numerator == radical_numerator(
                old(self).first().base(),
                old(self).first().drawn() + 1,
            ),
            sample.x.denominator == radical_denominator(
                old(self).first().base(),
                old(self).first().drawn() + 1,
            ),
            sample.y.numerator == radical_numerator(
                old(self).second().base(),
                old(self).second().drawn() + 1,
            ),
            sample.y.denominator == radical_denominator(
                old(self).second().base(),
                old(self).second().drawn() + 1,
            ),
    {
        let x = self.corput_1.next();
        let y = self.corput_2.next();
        Sample2 { x, y }
    }
}

} // verus!
