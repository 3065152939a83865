use vstd::prelude::*;

verus! {

/// Number of atomics in one unit of a fixed-point decimal (18 fractional digits).
pub const DECIMAL_FRACTIONAL: u128 = 1_000_000_000_000_000_000u128;

/// `value * numerator / denominator`, rounded down, over mathematical integers.
pub open spec fn mul_div(value: int, numerator: int, denominator: int) -> int {
    value * numerator / denominator
}

/// Calls `cosmwasm_std::Uint128::multiply_ratio`, which computes
/// `value * numerator / denominator` rounded down with a 256-bit intermediate product.
/// It panics when the denominator is zero or the result does not fit in 128 bits;
/// the contract claims the exact floored quotient on all other inputs.
#[verifier::external_body]
fn std_multiply_ratio(value: u128, numerator: u128, denominator: u128) -> (r: u128)
    requires
        denominator != 0,
        mul_div(value as int, numerator as int, denominator as int) <= u128::MAX,
    ensures
        r == mul_div(value as int, numerator as int, denominator as int),
{
    cosmwasm_std::Uint128::new(value).multiply_ratio(numerator, denominator).u128()
}

/// `value * numerator / denominator`, rounded down (`Uint128::multiply_ratio`), which
/// panics on a zero denominator or a result above 128 bits.
pub fn multiply_ratio(value: u128, numerator: u128, denominator: u128) -> (r: u128)
    requires
        denominator != 0,
        mul_div(value as int, numerator as int, denominator as int) <= u128::MAX,
    ensures
        r == mul_div(value as int, numerator as int, denominator as int),
{
    std_multiply_ratio(value, numerator, denominator)
}

/// 2^128, the base of the two 128-bit words of a `U256`.
pub open spec fn word_base() -> int {
    u128::MAX as int + 1
}

/// 2^256, one above the largest 256-bit value.
pub open spec fn u256_bound() -> int {
    word_base() * word_base()
}

/// An unsigned 256-bit integer held as two 128-bit words: the number it stands for is
/// `hi * 2^128 + lo`.
#[derive(Debug, Clone, Copy, PartialEq, Eq, Structural)]
pub struct U256 {
    pub hi: u128,
    pub lo: u128,
}

impl U256 {
    /// The number the two words stand for.
    pub open spec fn value(self) -> int {
        self.hi * word_base() + self.lo
    }
}

/// Calls `cosmwasm_std::Uint256::multiply_ratio`: `value * numerator / denominator` rounded
/// down, with a 512-bit intermediate product. The operands are built from their two words
/// with `Uint256::from_be_bytes` and the quotient is split back into its words with
/// `Uint256::to_be_bytes`. It panics on a zero denominator and on a quotient of 2^256 or
/// more, which `requires` rules out; the contract claims the floored quotient.
#[verifier::external_body]
fn std_u256_multiply_ratio(value: U256, numerator: U256, denominator: U256) -> (r: U256)
    requires
        denominator.value() != 0,
        mul_div(value.value(), numerator.value(), denominator.value()) < u256_bound(),
    ensures
        r.value() == mul_div(value.value(), numerator.value(), denominator.value()),
{
    let v = cosmwasm_std::Uint256::from_be_bytes([value.hi.to_be_bytes(), value.lo.to_be_bytes()].concat().try_into().unwrap());
    let n = cosmwasm_std::Uint256::from_be_bytes([numerator.hi.to_be_bytes(), numerator.lo.to_be_bytes()].concat().try_into().unwrap());
    let d = cosmwasm_std::Uint256::from_be_bytes([denominator.hi.to_be_bytes(), denominator.lo.to_be_bytes()].concat().try_into().unwrap());
    let q = v.multiply_ratio(n, d).to_be_bytes();
    U256 { hi: u128::from_be_bytes(q[..16].try_into().unwrap()), lo: u128::from_be_bytes(q[16..].try_into().unwrap()) }
}

/// `value * numerator / denominator` rounded down, as a 256-bit number.
pub fn u256_mul_div(value: U256, numerator: U256, denominator: U256) -> (r: U256)
    requires
        denominator.value() != 0,
        mul_div(value.value(), numerator.value(), denominator.value()) < u256_bound(),
    ensures
        r.value() == mul_div(value.value(), numerator.value(), denominator.value()),
        r == u256_of(mul_div(value.value(), numerator.value(), denominator.value())),
{
    let r = std_u256_multiply_ratio(value, numerator, denominator);
    proof {
        lemma_u256_canonical(r);
    }
    r
}

/// Facts about the two-word value: it lies in `[0, 2^256)`, and it is below `2^128` exactly
/// when the high word is zero.
pub proof fn lemma_u256_value_range(a: U256)
    ensures
        0 <= a.value() < u256_bound(),
        a.hi == 0 <==> a.value() < word_base(),
        a.hi == 0 ==> a.value() == a.lo,
{
    let b = word_base();
    assert(0 <= a.value() < u256_bound()) by (nonlinear_arith)
        requires
            a.value() == a.hi * b + a.lo,
            0 <= a.hi < b,
            0 <= a.lo < b,
            u256_bound() == b * b,
    ;
    assert(a.hi > 0 ==> a.value() >= b) by (nonlinear_arith)
        requires
            a.value() == a.hi * b + a.lo,
            0 <= a.lo,
            b > 0,
    ;
}

/// `a * b / c` of two 128-bit operands and a positive divisor lies in `[0, 2^256)`.
pub proof fn lemma_mul_div_words(a: int, b: int, c: int)
    requires
        0 <= a <= u128::MAX,
        0 <= b <= u128::MAX,
        0 < c,
    ensures
        0 <= mul_div(a, b, c) < u256_bound(),
{
    let w = word_base();
    assert(0 <= a * b < w * w) by (nonlinear_arith)
        requires
            0 <= a < w,
            0 <= b < w,
    ;
    vstd::arithmetic::div_mod::lemma_div_is_ordered_by_denominator(a * b, 1, c);
    vstd::arithmetic::div_mod::lemma_div_pos_is_pos(a * b, c);
}

/// The two-word number whose value is `v` (for `0 <= v < 2^256`).
pub open spec fn u256_of(v: int) -> U256 {
    U256 { hi: (v / word_base()) as u128, lo: (v % word_base()) as u128 }
}

/// A two-word number is determined by its value: it is `u256_of` of it, and `u256_of(v)`
/// has value `v` on `[0, 2^256)`.
pub proof fn lemma_u256_canonical(a: U256)
    ensures
        a == u256_of(a.value()),
{
    let b = word_base();
    vstd::arithmetic::div_mod::lemma_fundamental_div_mod_converse(a.value(), b, a.hi as int, a.lo as int);
}

/// `u256_of(v)` has value `v` for every `v` in `[0, 2^256)`.
pub proof fn lemma_u256_of_value(v: int)
    requires
        0 <= v < u256_bound(),
    ensures
        u256_of(v).value() == v,
{
    let b = word_base();
    vstd::arithmetic::div_mod::lemma_fundamental_div_mod(v, b);
    vstd::arithmetic::div_mod::lemma_mod_bound(v, b);
    vstd::arithmetic::div_mod::lemma_div_pos_is_pos(v, b);
    assert(v / b < b) by (nonlinear_arith)
        requires
            v == b * (v / b) + v % b,
            0 <= v % b,
            v < b * b,
            b > 0,
    ;
    assert(b * (v / b) == (v / b) * b) by (nonlinear_arith);
}

/// `a - b` for `b` no larger than `a`.
pub fn u256_sub(a: U256, b: U256) -> (r: U256)
    requires
        b.value() <= a.value(),
    ensures
        r.value() == a.value() - b.value(),
        r == u256_of(a.value() - b.value()),
{
    let r = u256_sub_words(a, b);
    proof {
        lemma_u256_canonical(r);
    }
    r
}

fn u256_sub_words(a: U256, b: U256) -> (r: U256)
    requires
        b.value() <= a.value(),
    ensures
        r.value() == a.value() - b.value(),
{
    let ghost base = word_base();
    proof {
        assert(b.hi <= a.hi) by (nonlinear_arith)
            requires
                a.value() == a.hi * base + a.lo,
                b.value() == b.hi * base + b.lo,
                b.value() <= a.value(),
                0 <= a.lo < base,
                0 <= b.lo,
        ;
    }
    if a.lo >= b.lo {
        proof {
            assert((a.hi - b.hi) * base + (a.lo - b.lo) == a.value() - b.value()) by (nonlinear_arith)
                requires
                    a.value() == a.hi * base + a.lo,
                    b.value() == b.hi * base + b.lo,
            ;
        }
        U256 { hi: a.hi - b.hi, lo: a.lo - b.lo }
    } else {
        proof {
            assert(b.hi < a.hi) by (nonlinear_arith)
                requires
                    a.value() == a.hi * base + a.lo,
                    b.value() == b.hi * base + b.lo,
                    b.value() <= a.value(),
                    a.lo < b.lo,
                    b.hi <= a.hi,
            ;
        }
        let lo = a.lo + (u128::MAX - b.lo) + 1;
        proof {
            assert((a.hi - b.hi - 1) * base + lo == a.value() - b.value()) by (nonlinear_arith)
                requires
                    lo == a.lo + (u128::MAX - b.lo) + 1,
                    base == u128::MAX as int + 1,
                    a.value() == a.hi * base + a.lo,
                    b.value() == b.hi * base + b.lo,
            ;
        }
        U256 { hi: a.hi - b.hi - 1, lo }
    }
}

/// A 128-bit value as a 256-bit number.
pub fn u256_from(a: u128) -> (r: U256)
    ensures
        r.value() == a,
        r == u256_of(a as int),
{
    let r = U256 { hi: 0, lo: a };
    proof {
        lemma_u256_canonical(r);
    }
    r
}

/// Whether `a < b`.
pub fn u256_lt(a: U256, b: U256) -> (r: bool)
    ensures
        r == (a.value() < b.value()),
{
    let ghost base = word_base();
    proof {
        assert(a.hi < b.hi ==> a.value() < b.value()) by (nonlinear_arith)
            requires
                a.value() == a.hi * base + a.lo,
                b.value() == b.hi * base + b.lo,
                0 <= a.lo < base,
                0 <= b.lo,
        ;
        assert(a.hi > b.hi ==> a.value() > b.value()) by (nonlinear_arith)
            requires
                a.value() == a.hi * base + a.lo,
                b.value() == b.hi * base + b.lo,
                0 <= b.lo < base,
                0 <= a.lo,
        ;
    }
    a.hi < b.hi || (a.hi == b.hi && a.lo < b.lo)
}

/// The exact product of two 128-bit values, as a 256-bit number.
pub fn full_mul(a: u128, b: u128) -> (r: U256)
    ensures
        r.value() == a * b,
        r == u256_of(a * b),
{
    proof {
        lemma_mul_div_words(a as int, b as int, 1);
        assert(a * b * 1 == a * b);
        vstd::arithmetic::div_mod::lemma_div_by_multiple(a * b, 1);
    }
    u256_mul_div(u256_from(a), u256_from(b), u256_from(1))
}

/// The sum of two 256-bit numbers (which fails at 2^256).
pub fn u256_add(a: U256, b: U256) -> (r: U256)
    requires
        a.value() + b.value() < u256_bound(),
    ensures
        r.value() == a.value() + b.value(),
        r == u256_of(a.value() + b.value()),
{
    let ghost base = word_base();
    let r = if a.lo <= u128::MAX - b.lo {
        proof {
            assert(a.hi + b.hi < base) by (nonlinear_arith)
                requires
                    a.value() == a.hi * base + a.lo,
                    b.value() == b.hi * base + b.lo,
                    a.value() + b.value() < u256_bound(),
                    u256_bound() == base * base,
                    a.lo >= 0,
                    b.lo >= 0,
                    base > 0,
            ;
        }
        U256 { hi: a.hi + b.hi, lo: a.lo + b.lo }
    } else {
        proof {
            assert(a.hi + b.hi + 1 < base) by (nonlinear_arith)
                requires
                    a.value() == a.hi * base + a.lo,
                    b.value() == b.hi * base + b.lo,
                    a.value() + b.value() < u256_bound(),
                    u256_bound() == base * base,
                    a.lo + b.lo >= base,
                    base > 0,
            ;
        }
        U256 { hi: a.hi + b.hi + 1, lo: a.lo - (u128::MAX - b.lo) - 1 }
    };
    proof {
        assert(r.value() == a.value() + b.value()) by (nonlinear_arith)
            requires
                a.value() == a.hi * base + a.lo,
                b.value() == b.hi * base + b.lo,
                r.value() == r.hi * base + r.lo,
                base == u128::MAX as int + 1,
                (r.hi == a.hi + b.hi && r.lo == a.lo + b.lo) || (r.hi == a.hi + b.hi + 1 && r.lo
                    == a.lo - (u128::MAX - b.lo) - 1),
        ;
        lemma_u256_canonical(r);
    }
    r
}

/// `value * numerator / denominator` rounded down, for a quotient within 128 bits.
pub fn u256_multiply_ratio(value: U256, numerator: U256, denominator: U256) -> (r: u128)
    requires
        denominator.value() != 0,
        mul_div(value.value(), numerator.value(), denominator.value()) <= u128::MAX,
    ensures
        r == mul_div(value.value(), numerator.value(), denominator.value()),
{
    u256_low(u256_mul_div(value, numerator, denominator))
}

/// The low word of a 256-bit number below 2^128.
pub fn u256_low(a: U256) -> (r: u128)
    requires
        a.value() <= u128::MAX,
    ensures
        r == a.value(),
{
    proof {
        lemma_u256_value_range(a);
    }
    a.lo
}

/// Whether a 256-bit number is zero.
pub fn u256_is_zero(a: U256) -> (b: bool)
    ensures
        b == (a.value() == 0),
{
    assert(a.hi > 0 ==> a.hi * word_base() >= word_base()) by (nonlinear_arith)
        requires
            word_base() > 0,
    ;
    a.hi == 0 && a.lo == 0
}

/// `a * b / c` is monotonic in `a` for non-negative operands and a positive divisor.
pub proof fn lemma_mul_div_mono(a1: int, a2: int, b: int, c: int)
    requires
        0 <= a1 <= a2,
        0 <= b,
        0 < c,
    ensures
        mul_div(a1, b, c) <= mul_div(a2, b, c),
{
    assert(a1 * b <= a2 * b) by (nonlinear_arith)
        requires
            0 <= a1 <= a2,
            0 <= b,
    ;
    vstd::arithmetic::div_mod::lemma_div_is_ordered(a1 * b, a2 * b, c);
}

/// `a * b / c <= a` when `b <= c`.
pub proof fn lemma_mul_div_le_left(a: int, b: int, c: int)
    requires
        0 <= a,
        0 <= b <= c,
        0 < c,
    ensures
        0 <= mul_div(a, b, c) <= a,
{
    assert(a * b <= a * c) by (nonlinear_arith)
        requires
            0 <= a,
            0 <= b <= c,
    ;
    assert(0 <= a * b) by (nonlinear_arith)
        requires
            0 <= a,
            0 <= b,
    ;
    vstd::arithmetic::div_mod::lemma_div_is_ordered(a * b, a * c, c);
    vstd::arithmetic::div_mod::lemma_div_by_multiple(a, c);
    vstd::arithmetic::div_mod::lemma_div_pos_is_pos(a * b, c);
}

/// `a * b / c` is non-negative for non-negative operands.
pub proof fn lemma_mul_div_nonneg(a: int, b: int, c: int)
    requires
        0 <= a,
        0 <= b,
        0 < c,
    ensures
        0 <= mul_div(a, b, c),
{
    assert(0 <= a * b) by (nonlinear_arith)
        requires
            0 <= a,
            0 <= b,
    ;
    vstd::arithmetic::div_mod::lemma_div_pos_is_pos(a * b, c);
}

/// A fixed-point decimal with 18 fractional digits, as `cosmwasm_std::Decimal`:
/// the number it stands for is `atomics / 10^18`.
#[derive(Debug, Clone, Copy, PartialEq, Eq, Structural)]
pub struct Decimal {
    pub atomics: u128,
}

impl Decimal {
    pub fn zero() -> (d: Decimal)
        ensures
            d.atomics == 0,
    {
        Decimal { atomics: 0 }
    }

    pub fn one() -> (d: Decimal)
        ensures
            d.atomics == DECIMAL_FRACTIONAL,
    {
        Decimal { atomics: DECIMAL_FRACTIONAL }
    }

    pub fn is_zero(&self) -> (b: bool)
        ensures
            b == (self.atomics == 0),
    {
        self.atomics == 0
    }

    /// `numerator / denominator` as a decimal, rounded down to 18 digits.
    /// As in `cosmwasm_std`, a zero denominator or a quotient above the largest decimal
    /// panics there, so both are excluded here.
    pub fn from_ratio(numerator: u128, denominator: u128) -> (d: Decimal)
        requires
            denominator != 0,
            mul_div(numerator as int, DECIMAL_FRACTIONAL as int, denominator as int) <= u128::MAX,
        ensures
            d.atomics == mul_div(numerator as int, DECIMAL_FRACTIONAL as int, denominator as int),
    {
        Decimal { atomics: std_multiply_ratio(numerator, DECIMAL_FRACTIONAL, denominator) }
    }

    /// Sum of two decimals (`Decimal + Decimal`, which panics on overflow).
    pub fn add(self, other: Decimal) -> (d: Decimal)
        requires
            self.atomics + other.atomics <= u128::MAX,
        ensures
            d.atomics == self.atomics + other.atomics,
    {
        Decimal { atomics: self.atomics + other.atomics }
    }

    /// `amount * self`, rounded down (`Uint128 * Decimal`, which panics on overflow).
    pub fn mul_uint(self, amount: u128) -> (r: u128)
        requires
            mul_div(amount as int, self.atomics as int, DECIMAL_FRACTIONAL as int) <= u128::MAX,
        ensures
            r == mul_div(amount as int, self.atomics as int, DECIMAL_FRACTIONAL as int),
    {
        if amount == 0 || self.atomics == 0 {
            assert(amount * self.atomics == 0) by (nonlinear_arith)
                requires
                    amount == 0 || self.atomics == 0,
            ;
            0
        } else {
            std_multiply_ratio(amount, self.atomics, DECIMAL_FRACTIONAL)
        }
    }

    /// `amount * self`, rounded down, or `None` when the product does not fit in 128 bits.
    pub fn checked_mul_uint(self, amount: u128) -> (r: Option<u128>)
        ensures
            r == (if mul_div(amount as int, self.atomics as int, DECIMAL_FRACTIONAL as int)
                <= u128::MAX {
                Some(mul_div(amount as int, self.atomics as int, DECIMAL_FRACTIONAL as int) as u128)
            } else {
                None::<u128>
            }),
    {
        let f = DECIMAL_FRACTIONAL;
        let q = self.atomics / f;
        let rem = self.atomics % f;
        proof {
            lemma_mul_div_le_left(amount as int, rem as int, f as int);
            lemma_mul_div_split(amount as int, q as int, rem as int, f as int);
        }
        let low = if amount == 0 || rem == 0 {
            assert(amount * rem == 0) by (nonlinear_arith)
                requires
                    amount == 0 || rem == 0,
            ;
            0
        } else {
            std_multiply_ratio(amount, rem, f)
        };
        match amount.checked_mul(q) {
            None => {
                proof {
                    lemma_mul_div_nonneg(amount as int, rem as int, f as int);
                }
                None
            },
            Some(high) => match high.checked_add(low) {
                None => None,
                Some(total) => Some(total),
            },
        }
    }
}


/// A fixed-point decimal with 18 fractional digits, as `cosmwasm_bignumber::Decimal256`:
/// the number it stands for is `atomics / 10^18`, with 256-bit atomics.
#[derive(Debug, Clone, Copy, PartialEq, Eq, Structural)]
pub struct Decimal256 {
    pub atomics: U256,
}

/// The decimal whose atomics are `v`.
pub open spec fn decimal256_of(v: int) -> Decimal256 {
    Decimal256 { atomics: u256_of(v) }
}

impl Decimal256 {
    /// The number of atomics.
    pub open spec fn value(self) -> int {
        self.atomics.value()
    }

    pub fn zero() -> (d: Decimal256)
        ensures
            d.value() == 0,
            d == decimal256_of(0),
    {
        Decimal256 { atomics: u256_from(0) }
    }

    pub fn one() -> (d: Decimal256)
        ensures
            d.value() == DECIMAL_FRACTIONAL,
            d == decimal256_of(DECIMAL_FRACTIONAL as int),
    {
        Decimal256 { atomics: u256_from(DECIMAL_FRACTIONAL) }
    }

    pub fn is_zero(&self) -> (b: bool)
        ensures
            b == (self.value() == 0),
    {
        u256_is_zero(self.atomics)
    }

    /// `self * other`, rounded down (`Decimal256 * Decimal256`).
    pub fn mul(self, other: Decimal256) -> (d: Decimal256)
        requires
            mul_div(self.value(), other.value(), DECIMAL_FRACTIONAL as int) < u256_bound(),
        ensures
            d == decimal256_of(mul_div(self.value(), other.value(), DECIMAL_FRACTIONAL as int)),
            d.value() == mul_div(self.value(), other.value(), DECIMAL_FRACTIONAL as int),
    {
        Decimal256 {
            atomics: u256_mul_div(self.atomics, other.atomics, u256_from(DECIMAL_FRACTIONAL)),
        }
    }

    /// `amount / self`, rounded down (`Uint256 / Decimal256`, which asserts a non-zero
    /// divisor), for a quotient within 128 bits.
    pub fn div_uint256(self, amount: u128) -> (r: u128)
        requires
            self.value() != 0,
            mul_div(amount as int, DECIMAL_FRACTIONAL as int, self.value()) <= u128::MAX,
        ensures
            r == mul_div(amount as int, DECIMAL_FRACTIONAL as int, self.value()),
    {
        u256_multiply_ratio(u256_from(amount), u256_from(DECIMAL_FRACTIONAL), self.atomics)
    }
}

/// `a * (q * c + r) / c == a * q + a * r / c`.
pub proof fn lemma_mul_div_split(a: int, q: int, r: int, c: int)
    requires
        0 < c,
    ensures
        mul_div(a, q * c + r, c) == a * q + mul_div(a, r, c),
{
    let t = a * r;
    vstd::arithmetic::div_mod::lemma_fundamental_div_mod(t, c);
    vstd::arithmetic::div_mod::lemma_mod_bound(t, c);
    assert(a * (q * c + r) == (a * q + t / c) * c + t % c) by (nonlinear_arith)
        requires
            t == a * r,
            t == c * (t / c) + t % c,
    ;
    vstd::arithmetic::div_mod::lemma_fundamental_div_mod_converse(
        a * (q * c + r),
        c,
        a * q + t / c,
        t % c,
    );
}

} // verus!
