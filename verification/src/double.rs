//! Floating-point values as the engine carries them: a double by its bit pattern, together with
//! the two forms in which it is printed.
//!
//! The order of such values, their sign and their relation to integers are decided here, on the
//! bit pattern. Arithmetic on them is the host's: a program that needs it asks for it.

use vstd::arithmetic::power2::*;
use vstd::prelude::*;
use vstd::string::*;
use crate::text::{int_order, Order};

verus! {

/// A double in the IEEE 754 binary64 format.
#[derive(Debug)]
pub struct Double {
    /// The bit pattern: sign, exponent and fraction, from the highest bit down.
    pub bits: u64,
    /// The shortest decimal form, without a fraction where the value has none (`1` for one).
    pub plain: String,
    /// The form that always shows that the value is a floating-point number (`1.0` for one).
    pub marked: String,
}

/// What a `Double` holds.
#[verifier::ext_equal]
pub struct DoubleView {
    pub bits: u64,
    pub plain: Seq<char>,
    pub marked: Seq<char>,
}

impl View for Double {
    type V = DoubleView;

    open spec fn view(&self) -> DoubleView {
        DoubleView { bits: self.bits, plain: self.plain@, marked: self.marked@ }
    }
}

/// The weight of the sign bit.
pub const SIGN: u64 = 0x8000_0000_0000_0000;

/// The bit pattern of positive infinity; greater magnitudes are not numbers.
pub const INFINITY: u64 = 0x7ff0_0000_0000_0000;

/// The bit pattern of one.
pub const ONE: u64 = 0x3ff0_0000_0000_0000;

/// The weight of the lowest exponent bit: one more than the largest fraction.
pub const FRACTION: u64 = 0x10_0000_0000_0000;

/// Tells whether the sign bit is set.
pub open spec fn negative(bits: u64) -> bool {
    bits >= SIGN
}

/// The bit pattern without its sign.
pub open spec fn magnitude(bits: u64) -> int {
    if negative(bits) {
        bits - SIGN
    } else {
        bits as int
    }
}

/// Tells whether the bit pattern stands for no number.
pub open spec fn is_nan(bits: u64) -> bool {
    magnitude(bits) > INFINITY
}

/// The number that a magnitude stands for, as a multiple of the smallest positive double. For
/// infinity this is a number greater than that of every finite double.
pub open spec fn units(m: int) -> int {
    let exponent = m / (FRACTION as int);
    let fraction = m % (FRACTION as int);
    if exponent == 0 {
        fraction
    } else {
        (FRACTION + fraction) * pow2((exponent - 1) as nat)
    }
}

/// The number that a bit pattern stands for, as a multiple of the smallest positive double.
pub open spec fn numeric(bits: u64) -> int {
    if negative(bits) {
        -units(magnitude(bits))
    } else {
        units(magnitude(bits))
    }
}

/// The order of two doubles. What is not a number has no place in it.
pub open spec fn real_order(a: u64, b: u64) -> Option<Order> {
    if is_nan(a) || is_nan(b) {
        None
    } else {
        Some(int_order(numeric(a), numeric(b)))
    }
}

/// The distance between neighbouring doubles at the integer `n`, where it is at least one.
pub open spec fn spacing(n: nat) -> nat
    decreases n,
{
    if n < 2 * FRACTION {
        1
    } else {
        2 * spacing(n / 2)
    }
}

/// `n / q`, rounded to the nearest integer, to the even one of two that are equally near.
pub open spec fn nearest_even(n: nat, q: nat) -> nat {
    let down = n / q;
    let rest = n % q;
    if 2 * rest < q || (2 * rest == q && down % 2 == 0) {
        down
    } else {
        down + 1
    }
}

/// The integer that the double nearest to `n` stands for.
pub open spec fn rounded(n: nat) -> nat {
    nearest_even(n, spacing(n)) * spacing(n)
}

/// The number that `i` becomes as a double, as a multiple of the smallest positive double.
pub open spec fn integer_numeric(i: int) -> int {
    if i < 0 {
        -(rounded((-i) as nat) * pow2(1074))
    } else {
        rounded(i as nat) * pow2(1074) as int
    }
}

/// Tells whether a bit pattern is that of the double nearest to `i`. Zero has no sign.
pub open spec fn is_nearest(bits: u64, i: int) -> bool {
    !is_nan(bits) && bits != SIGN && numeric(bits) == integer_numeric(i)
}

/// The double nearest to `i`, as a bit pattern.
pub open spec fn nearest_bits(i: int) -> u64 {
    choose|bits: u64| is_nearest(bits, i)
}

/// A greater magnitude stands for a greater number.
pub proof fn law_units_increase(m: int, n: int)
    requires
        0 <= m < n < SIGN,
    ensures
        units(m) < units(n),
{
    let d = FRACTION as int;
    let (e, f) = (m / d, m % d);
    let (g, h) = (n / d, n % d);
    assert(m == e * d + f && n == g * d + h) by {
        vstd::arithmetic::div_mod::lemma_fundamental_div_mod(m, d);
        vstd::arithmetic::div_mod::lemma_fundamental_div_mod(n, d);
    }
    assert(e <= g);
    if e == g {
        if e > 0 {
            lemma_pow2_pos((e - 1) as nat);
            let p = pow2((e - 1) as nat) as int;
            assert((d + f) * p < (d + h) * p) by (nonlinear_arith)
                requires
                    f < h,
                    p > 0,
            ;
        }
    } else {
        // The largest number with exponent `e` is below the smallest one with a greater exponent.
        let q = pow2((g - 1) as nat) as int;
        lemma_pow2_pos((g - 1) as nat);
        assert(d * q <= units(n)) by (nonlinear_arith)
            requires
                units(n) == (d + h) * q,
                h >= 0,
                q > 0,
        ;
        if e == 0 {
            assert(d <= d * q) by (nonlinear_arith)
                requires
                    d > 0,
                    q >= 1,
            ;
        } else {
            let p = pow2((e - 1) as nat) as int;
            lemma_pow2_pos((e - 1) as nat);
            lemma_pow2_unfold(e as nat);
            if e < g - 1 {
                lemma_pow2_strictly_increases(e as nat, (g - 1) as nat);
            }
            assert(2 * p <= q);
            assert((d + f) * p < d * q) by (nonlinear_arith)
                requires
                    f < d,
                    0 < p,
                    2 * p <= q,
                    d > 0,
            ;
        }
    }
}

/// The signed magnitude of a bit pattern: it orders doubles as their numbers do.
fn signed_magnitude(bits: u64) -> (key: i64)
    ensures
        key == if negative(bits) {
            -magnitude(bits)
        } else {
            magnitude(bits)
        },
{
    if bits >= SIGN {
        -((bits - SIGN) as i64)
    } else {
        bits as i64
    }
}

/// The order of two doubles, by their bit patterns.
pub fn order_bits(a: u64, b: u64) -> (order: Option<Order>)
    ensures
        order == real_order(a, b),
{
    let x: i64 = signed_magnitude(a);
    let y: i64 = signed_magnitude(b);
    let limit: i64 = INFINITY as i64;
    if x > limit || x < -limit || y > limit || y < -limit {
        return None;
    }
    proof {
        let (m, n) = (magnitude(a), magnitude(b));
        if m < n {
            law_units_increase(m, n);
        } else if n < m {
            law_units_increase(n, m);
        }
        if m > 0 {
            law_units_increase(0, m);
        }
        if n > 0 {
            law_units_increase(0, n);
        }
    }
    if x < y {
        Some(Order::Less)
    } else if x == y {
        Some(Order::Equal)
    } else {
        Some(Order::Greater)
    }
}

/// The double nearest to `i`, as a bit pattern.
pub fn integer_bits(i: i64) -> (bits: u64)
    ensures
        !is_nan(bits),
        numeric(bits) == integer_numeric(i as int),
        bits == nearest_bits(i as int),
{
    let bits: u64 = if i < 0 {
        let n: u64 = (-(i + 1)) as u64 + 1;
        let bits: u64 = natural_bits(n);
        proof {
            lemma_rounded_positive(n as nat);
            lemma_units_of_rounded(bits as int, rounded(n as nat));
        }
        SIGN + bits
    } else {
        natural_bits(i as u64)
    };
    proof {
        law_nearest_is_one(bits, i as int);
    }
    bits
}

/// A magnitude that stands for a positive integer is not zero.
proof fn lemma_units_of_rounded(m: int, r: nat)
    requires
        r >= 1,
        units(m) == r * pow2(1074),
    ensures
        m != 0,
{
    lemma_pow2_pos(1074);
    assert(r * pow2(1074) >= 1) by (nonlinear_arith)
        requires
            r >= 1,
            pow2(1074) >= 1,
    ;
}

/// A positive integer becomes a positive double.
proof fn lemma_rounded_positive(n: nat)
    requires
        n >= 1,
    ensures
        rounded(n) >= 1,
{
    law_rounded_near(n);
    if n >= 2 * FRACTION {
        lemma_spacing_bound(n);
    }
}

/// Neighbouring doubles are not further apart than the number itself.
proof fn lemma_spacing_bound(n: nat)
    requires
        n >= 1,
    ensures
        spacing(n) <= n,
    decreases n,
{
    if n >= 2 * FRACTION {
        lemma_spacing_bound(n / 2);
    }
}

/// There is one double only that is the nearest to `i`.
pub proof fn law_nearest_is_one(bits: u64, i: int)
    requires
        is_nearest(bits, i),
    ensures
        bits == nearest_bits(i),
{
    let other = nearest_bits(i);
    assert(is_nearest(other, i));
    let (m, n) = (magnitude(bits), magnitude(other));
    assert(units(0) == 0);
    if m > 0 {
        law_units_increase(0, m);
    }
    if n > 0 {
        law_units_increase(0, n);
    }
    if m < n {
        law_units_increase(m, n);
    }
    if n < m {
        law_units_increase(n, m);
    }
}

/// The double nearest to an integer is less than one just where the integer is.
pub proof fn law_nearest_below_one(bits: u64, i: int)
    requires
        is_nearest(bits, i),
    ensures
        real_order(bits, ONE) == Some(Order::Less) <==> i < 1,
{
    lemma_pow2_adds(52, 1022);
    lemma2_to64_rest();
    let one = pow2(1074) as int;
    lemma_pow2_pos(1074);
    vstd::arithmetic::div_mod::lemma_fundamental_div_mod_converse(
        ONE as int,
        FRACTION as int,
        1023,
        0,
    );
    assert(numeric(ONE) == one);
    if i >= 1 {
        lemma_rounded_positive(i as nat);
        let r = rounded(i as nat) as int;
        assert(r * one >= one) by (nonlinear_arith)
            requires
                r >= 1,
                one >= 1,
        ;
    } else {
        let r = rounded((-i) as nat) as int;
        assert(r * one >= 0) by (nonlinear_arith)
            requires
                r >= 0,
                one >= 1,
        ;
        if i == 0 {
            law_rounded_near(0);
            assert(0 * one == 0);
        }
    }
}

/// The double nearest to `n`, as a bit pattern.
fn natural_bits(n: u64) -> (bits: u64)
    requires
        n <= SIGN,
    ensures
        bits < INFINITY,
        units(bits as int) == rounded(n as nat) * pow2(1074),
{
    if n == 0 {
        assert(rounded(0) == 0) by {
            assert(0nat / 1nat == 0);
        }
        assert(0 * pow2(1074) == 0);
        return 0;
    }
    // The spacing of doubles at `n`.
    let mut q: u64 = 1;
    let mut k: u64 = 0;
    proof {
        lemma2_to64();
        assert(n / 1 == n);
    }
    while n / q >= 2 * FRACTION
        invariant
            0 < n <= SIGN,
            1 <= q,
            k <= 11,
            q == pow2(k as nat),
            k == 0 ==> q == 1,
            k > 0 ==> n / q >= FRACTION,
            spacing(n as nat) == q * spacing((n / q) as nat),
        decreases n / q,
    {
        proof {
            lemma2_to64();
            assert(q * FRACTION <= SIGN / 2) by (nonlinear_arith)
                requires
                    n <= SIGN,
                    n / q >= 2 * FRACTION,
                    q >= 1,
                    SIGN == 0x8000_0000_0000_0000u64,
                    FRACTION == 0x10_0000_0000_0000u64,
            ;
            assert(q <= 1024);
            if k >= 11 {
                if k > 11 {
                    lemma_pow2_strictly_increases(11, k as nat);
                }
                assert(false);
            }
            lemma_pow2_unfold((k + 1) as nat);
            vstd::arithmetic::div_mod::lemma_div_denominator(n as int, q as int, 2);
            assert((n / q) / 2 == n as int / (q * 2));
            let rest = spacing(((n / q) / 2) as nat);
            assert(q * (2 * rest) == (q * 2) * rest) by (nonlinear_arith);
        }
        q = q * 2;
        k = k + 1;
    }
    assert(spacing(n as nat) == q) by {
        assert(q * 1 == q) by (nonlinear_arith);
    }
    let down: u64 = n / q;
    let rest: u64 = n % q;
    proof {
        assert(rest < q <= 2048) by {
            lemma2_to64();
            if k < 11 {
                lemma_pow2_strictly_increases(k as nat, 11);
            }
        }
    }
    let mut m: u64 = if 2 * rest < q || (2 * rest == q && down % 2 == 0) {
        down
    } else {
        down + 1
    };
    assert(m == nearest_even(n as nat, q as nat));
    let ghost value = rounded(n as nat);
    assert(value == m * q);
    if m == 2 * FRACTION {
        m = FRACTION;
        proof {
            lemma_pow2_unfold((k + 1) as nat);
            assert((2 * FRACTION) * q == FRACTION * (2 * q)) by (nonlinear_arith);
        }
        k = k + 1;
    }
    let mut exponent: u64 = 1075 + k;
    proof {
        lemma_pow2_adds(k as nat, 1074);
        assert(value * pow2(1074) == m * pow2((exponent - 1) as nat)) by {
            vstd::arithmetic::mul::lemma_mul_is_associative(
                m as int,
                pow2(k as nat) as int,
                pow2(1074) as int,
            );
        }
    }
    let ghost start = exponent;
    let ghost mut doubled: nat = 0;
    while m < FRACTION
        invariant
            1 <= m < 2 * FRACTION,
            1075 <= start <= 1087,
            exponent + doubled == start,
            doubled <= 53,
            pow2(doubled) <= m,
            value * pow2(1074) == m * pow2((exponent - 1) as nat),
        decreases 2 * FRACTION - m,
    {
        proof {
            lemma2_to64_rest();
            if doubled >= 52 {
                if doubled > 52 {
                    lemma_pow2_strictly_increases(52, doubled);
                }
                assert(false);
            }
            lemma_pow2_unfold(doubled + 1);
            doubled = doubled + 1;
            lemma_pow2_unfold((exponent - 1) as nat);
            let p = pow2((exponent - 2) as nat) as int;
            assert(m * (2 * p) == (2 * m) * p) by (nonlinear_arith);
        }
        m = m * 2;
        exponent = exponent - 1;
    }
    assert(exponent * FRACTION <= 1087 * FRACTION) by (nonlinear_arith)
        requires
            exponent <= 1087,
    ;
    let bits: u64 = exponent * FRACTION + (m - FRACTION);
    proof {
        vstd::arithmetic::div_mod::lemma_fundamental_div_mod_converse(
            bits as int,
            FRACTION as int,
            exponent as int,
            m - FRACTION,
        );
    }
    bits
}

/// A printed number without its minus sign.
pub open spec fn without_minus(text: Seq<char>) -> Seq<char> {
    if text.len() > 0 && text[0] == '-' {
        text.drop_first()
    } else {
        text
    }
}

/// A printed number without its minus sign.
fn drop_minus(text: &String) -> (rest: String)
    ensures
        rest@ == without_minus(text@),
{
    let len: usize = text.as_str().unicode_len();
    if len > 0 && text.as_str().get_char(0) == '-' {
        assert(text@.drop_first() =~= text@.subrange(1, len as int));
        text.as_str().substring_char(1, len).to_owned()
    } else {
        text.clone()
    }
}

impl DoubleView {
    /// Zero.
    pub open spec fn zero() -> DoubleView {
        DoubleView { bits: 0, plain: "0"@, marked: "0.0"@ }
    }

    /// Positive infinity.
    pub open spec fn infinity() -> DoubleView {
        DoubleView { bits: INFINITY, plain: "inf"@, marked: "inf"@ }
    }

    /// Negative infinity.
    pub open spec fn minus_infinity() -> DoubleView {
        DoubleView { bits: (SIGN + INFINITY) as u64, plain: "-inf"@, marked: "-inf"@ }
    }

    /// Tells whether this is a number below zero.
    pub open spec fn below_zero(self) -> bool {
        !is_nan(self.bits) && numeric(self.bits) < 0
    }

    /// Tells whether this is zero, of either sign.
    pub open spec fn is_zero(self) -> bool {
        magnitude(self.bits) == 0
    }

    /// This value with the opposite sign, where it is below zero; this value elsewhere.
    pub open spec fn abs(self) -> DoubleView {
        if self.below_zero() {
            DoubleView {
                bits: (self.bits - SIGN) as u64,
                plain: without_minus(self.plain),
                marked: without_minus(self.marked),
            }
        } else {
            self
        }
    }
}

impl Clone for Double {
    fn clone(&self) -> (copy: Self)
        ensures
            copy == *self,
    {
        Double { bits: self.bits, plain: self.plain.clone(), marked: self.marked.clone() }
    }
}

impl PartialEq for Double {
    fn eq(&self, other: &Self) -> (equal: bool) {
        match order_bits(self.bits, other.bits) {
            Some(Order::Equal) => true,
            _ => false,
        }
    }
}

impl vstd::std_specs::cmp::PartialEqSpecImpl for Double {
    open spec fn obeys_eq_spec() -> bool {
        true
    }

    open spec fn eq_spec(&self, other: &Self) -> bool {
        real_order(self.bits, other.bits) == Some(Order::Equal)
    }
}

impl Double {
    /// The double with the given bit pattern, printed in the two given forms.
    pub fn new(bits: u64, plain: String, marked: String) -> (d: Double)
        ensures
            d@ == (DoubleView { bits, plain: plain@, marked: marked@ }),
    {
        Double { bits, plain, marked }
    }

    /// Zero.
    pub fn zero() -> (d: Double)
        ensures
            d@ == DoubleView::zero(),
    {
        Double { bits: 0, plain: "0".to_owned(), marked: "0.0".to_owned() }
    }

    /// Positive infinity.
    pub fn infinity() -> (d: Double)
        ensures
            d@ == DoubleView::infinity(),
    {
        Double { bits: INFINITY, plain: "inf".to_owned(), marked: "inf".to_owned() }
    }

    /// Negative infinity.
    pub fn minus_infinity() -> (d: Double)
        ensures
            d@ == DoubleView::minus_infinity(),
    {
        Double { bits: SIGN + INFINITY, plain: "-inf".to_owned(), marked: "-inf".to_owned() }
    }

    /// Tells whether this is zero, of either sign.
    pub fn is_zero(&self) -> (b: bool)
        ensures
            b == self@.is_zero(),
    {
        self.bits == 0 || self.bits == SIGN
    }

    /// This value with the opposite sign, where it is below zero; this value elsewhere.
    pub fn abs(&self) -> (d: Double)
        ensures
            d@ == self@.abs(),
    {
        let below: bool = match order_bits(self.bits, 0) {
            Some(Order::Less) => true,
            _ => false,
        };
        assert(below == self@.below_zero());
        if below {
            proof {
                if !negative(self.bits) && self.bits > 0 {
                    law_units_increase(0, self.bits as int);
                }
            }
            Double {
                bits: self.bits - SIGN,
                plain: drop_minus(&self.plain),
                marked: drop_minus(&self.marked),
            }
        } else {
            self.clone()
        }
    }
}

/// The absolute value of a number is that number or its opposite, and is not below zero.
pub proof fn law_abs_not_below_zero(d: DoubleView)
    requires
        !is_nan(d.bits),
    ensures
        !d.abs().below_zero(),
        numeric(d.abs().bits) == if numeric(d.bits) < 0 {
            -numeric(d.bits)
        } else {
            numeric(d.bits)
        },
{
    if !negative(d.bits) && d.bits > 0 {
        law_units_increase(0, d.bits as int);
    }
    if negative(d.bits) && d.bits > SIGN {
        law_units_increase(0, d.bits - SIGN);
    }
}

/// The integer that stands for `n` among the doubles is no further from `n` than half the
/// distance between neighbouring doubles, and is `n` itself below two to the power of 53.
pub proof fn law_rounded_near(n: nat)
    ensures
        2 * (rounded(n) - n) <= spacing(n),
        2 * (n - rounded(n)) <= spacing(n),
        n < 2 * FRACTION ==> rounded(n) == n,
{
    lemma_spacing_positive(n);
    let q = spacing(n) as int;
    let (down, rest) = (n as int / q, n as int % q);
    vstd::arithmetic::div_mod::lemma_fundamental_div_mod(n as int, q);
    assert((down + 1) * q == down * q + q) by (nonlinear_arith);
    assert(down * q == q * down) by (nonlinear_arith);
}

/// Neighbouring doubles are at least one apart wherever `spacing` is asked for.
proof fn lemma_spacing_positive(n: nat)
    ensures
        spacing(n) >= 1,
    decreases n,
{
    if n >= 2 * FRACTION {
        lemma_spacing_positive(n / 2);
    }
}

/// Every double that is a number lies between the two infinities.
pub proof fn law_infinities(bits: u64)
    requires
        !is_nan(bits),
    ensures
        !is_nan(DoubleView::infinity().bits),
        !is_nan(DoubleView::minus_infinity().bits),
        numeric(DoubleView::minus_infinity().bits) <= numeric(bits) <= numeric(
            DoubleView::infinity().bits,
        ),
        DoubleView::infinity().bits == 0x7ff0_0000_0000_0000,
        DoubleView::minus_infinity().bits == 0xfff0_0000_0000_0000,
        DoubleView::zero().bits == 0,
{
    let m = magnitude(bits);
    let top = INFINITY as int;
    if m < top {
        law_units_increase(m, top);
    }
    if m > 0 {
        law_units_increase(0, m);
    }
    law_units_increase(0, top);
    assert(units(0) == 0);
}

/// Which bit patterns are not numbers, and which are zero: those behind the two infinities, and
/// those without any bit but the sign.
pub proof fn law_bit_patterns(d: DoubleView)
    ensures
        is_nan(d.bits) <==> (0x7ff0_0000_0000_0000 < d.bits < 0x8000_0000_0000_0000) || d.bits
            > 0xfff0_0000_0000_0000,
        d.is_zero() <==> d.bits == 0 || d.bits == 0x8000_0000_0000_0000,
{
}

/// The order of doubles that are numbers, by their bit patterns: those without a sign in the order
/// of the patterns, those with a sign in the opposite order, and these before those, but for the
/// two zeros, which are equal.
pub proof fn law_order_by_bits(a: u64, b: u64)
    requires
        !is_nan(a),
        !is_nan(b),
    ensures
        ({
            let sign = 0x8000_0000_0000_0000u64;
            let order = real_order(a, b);
            &&& a < sign && b < sign ==> order == Some(int_order(a as int, b as int))
            &&& a >= sign && b >= sign ==> order == Some(int_order(b as int, a as int))
            &&& a >= sign && b < sign && !(a == sign && b == 0) ==> order == Some(Order::Less)
            &&& a < sign && b >= sign && !(a == 0 && b == sign) ==> order == Some(Order::Greater)
            &&& a == sign && b == 0 ==> order == Some(Order::Equal)
            &&& a == 0 && b == sign ==> order == Some(Order::Equal)
        }),
{
    let (m, n) = (magnitude(a), magnitude(b));
    assert(units(0) == 0);
    if m < n {
        law_units_increase(m, n);
    } else if n < m {
        law_units_increase(n, m);
    }
    if m > 0 {
        law_units_increase(0, m);
    }
    if n > 0 {
        law_units_increase(0, n);
    }
}

/// What is not a number has no place in the order.
pub proof fn law_no_order(a: u64, b: u64)
    ensures
        real_order(a, b) is None <==> is_nan(a) || is_nan(b),
{
}

/// What magnitudes stand for: the small ones for as many units, and each one that is an exponent
/// further on for twice as much.
pub proof fn law_units(m: int)
    requires
        m >= 0,
    ensures
        m < 2 * 0x10_0000_0000_0000 ==> units(m) == m,
        m >= 0x10_0000_0000_0000 ==> units(m + 0x10_0000_0000_0000) == 2 * units(m),
{
    let d = FRACTION as int;
    lemma2_to64();
    vstd::arithmetic::div_mod::lemma_fundamental_div_mod(m, d);
    let (e, f) = (m / d, m % d);
    if m >= d {
        assert(e >= 1) by (nonlinear_arith)
            requires
                m == d * e + f,
                f < d,
                m >= d,
                d > 0,
        ;
        if m < 2 * d {
            vstd::arithmetic::div_mod::lemma_fundamental_div_mod_converse(m, d, 1, m - d);
            assert(pow2(0) == 1);
            assert(units(m) == (d + (m - d)) * 1);
        }
        assert(d * (e + 1) == d * e + d) by (nonlinear_arith);
        assert((e + 1) * d == d * (e + 1)) by (nonlinear_arith);
        vstd::arithmetic::div_mod::lemma_fundamental_div_mod_converse(m + d, d, e + 1, f);
        lemma_pow2_unfold(e as nat);
        let p = pow2((e - 1) as nat) as int;
        assert((d + f) * (2 * p) == 2 * ((d + f) * p)) by (nonlinear_arith);
    } else {
        vstd::arithmetic::div_mod::lemma_fundamental_div_mod_converse(m, d, 0, m);
    }
}

/// A pattern with the sign stands for the opposite of the one without it.
pub proof fn law_opposite(bits: u64)
    requires
        bits < 0x8000_0000_0000_0000,
    ensures
        numeric((bits + 0x8000_0000_0000_0000) as u64) == -numeric(bits),
        numeric(bits) == units(bits as int),
{
}

/// Neighbouring doubles at a large integer are a power of two apart, such that there are between
/// two to the power of 52 and twice as many of them below it; at an integer of up to 53 bits they
/// are taken to be one apart.
pub proof fn law_spacing(n: nat)
    ensures
        n < 0x20_0000_0000_0000 ==> spacing(n) == 1,
        n >= 0x20_0000_0000_0000 ==> {
            &&& 0x10_0000_0000_0000 * spacing(n) <= n < 0x20_0000_0000_0000 * spacing(n)
            &&& spacing(n) % 2 == 0
            &&& spacing(2 * n) == 2 * spacing(n)
        },
    decreases n,
{
    if n >= 0x20_0000_0000_0000 {
        law_spacing(n / 2);
        assert((2 * n) / 2 == n);
    }
}

/// The integer that stands for `n` among the doubles is one of them, and of two that are equally
/// near it is the one with an even number of steps below it. The negative of an integer stands for
/// the opposite.
pub proof fn law_rounded_to_even(n: nat, i: int)
    ensures
        rounded(n) % spacing(n) == 0,
        2 * (n % spacing(n)) == spacing(n) ==> (rounded(n) / spacing(n)) % 2 == 0,
        integer_numeric(-i) == -integer_numeric(i),
        integer_numeric(n as int) == rounded(n) * pow2(1074),
{
    lemma_spacing_positive(n);
    let q = spacing(n) as int;
    let k = nearest_even(n, spacing(n)) as int;
    vstd::arithmetic::div_mod::lemma_mod_multiples_basic(k, q);
    vstd::arithmetic::div_mod::lemma_div_multiples_vanish(k, q);
    assert(k * q == q * k) by (nonlinear_arith);
    if i == 0 {
        law_rounded_near(0);
        assert(0 * pow2(1074) == 0);
    }
}

/// The absolute value of a double below zero has its pattern without the sign, and its printed
/// forms without the minus that they begin with; any other double is its own, minus zero among them
/// and what is not a number.
pub proof fn law_abs_of_doubles(d: DoubleView)
    ensures
        0x8000_0000_0000_0000 < d.bits <= 0xfff0_0000_0000_0000 ==> {
            &&& d.abs().bits == d.bits - 0x8000_0000_0000_0000
            &&& d.plain.len() > 0 && d.plain[0] == '-' ==> seq!['-'] + d.abs().plain == d.plain
            &&& d.marked.len() > 0 && d.marked[0] == '-' ==> seq!['-'] + d.abs().marked == d.marked
            &&& d.plain.len() == 0 || d.plain[0] != '-' ==> d.abs().plain == d.plain
            &&& d.marked.len() == 0 || d.marked[0] != '-' ==> d.abs().marked == d.marked
        },
        !(0x8000_0000_0000_0000 < d.bits <= 0xfff0_0000_0000_0000) ==> d.abs() == d,
{
    let m = magnitude(d.bits);
    assert(units(0) == 0);
    if m > 0 {
        law_units_increase(0, m);
    }
    if d.plain.len() > 0 && d.plain[0] == '-' {
        assert(seq!['-'] + d.plain.drop_first() =~= d.plain);
    }
    if d.marked.len() > 0 && d.marked[0] == '-' {
        assert(seq!['-'] + d.marked.drop_first() =~= d.marked);
    }
}

/// How zero and the infinities are printed.
pub proof fn law_printed_constants()
    ensures
        DoubleView::zero().plain == seq!['0'],
        DoubleView::zero().marked == seq!['0', '.', '0'],
        DoubleView::infinity().plain == seq!['i', 'n', 'f'],
        DoubleView::infinity().marked == seq!['i', 'n', 'f'],
        DoubleView::minus_infinity().plain == seq!['-', 'i', 'n', 'f'],
        DoubleView::minus_infinity().marked == seq!['-', 'i', 'n', 'f'],
{
    reveal_strlit("0");
    reveal_strlit("0.0");
    reveal_strlit("inf");
    reveal_strlit("-inf");
    assert("0"@ =~= seq!['0']);
    assert("0.0"@ =~= seq!['0', '.', '0']);
    assert("inf"@ =~= seq!['i', 'n', 'f']);
    assert("-inf"@ =~= seq!['-', 'i', 'n', 'f']);
}

} // verus!
