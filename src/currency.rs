//! Typed money: the `Base` and `Quote` currencies, dimensionless rates, and
//! the conversion of a quantity into its paired currency at a price.

use crate::futures_type::{futures_type_of, FuturesTypes};
use crate::decimal::{div_round_half_even, fits, round_half_even, MAX_MANTISSA, RATE_SCALE, SCALE};
use vstd::prelude::*;

verus! {

/// `10^n`.
pub open spec fn pow10(n: nat) -> int
    decreases n,
{
    if n == 0 {
        1
    } else {
        10 * pow10((n - 1) as nat)
    }
}

/// Computes `10^n` for the small exponents that scales use.
pub fn pow10_exec(n: u8) -> (r: i64)
    requires
        n <= 6,
    ensures
        r == pow10(n as nat),
        1 <= r <= 1_000_000,
{
    proof {
        reveal_with_fuel(pow10, 7);
    }
    match n {
        0 => 1,
        1 => 10,
        2 => 100,
        3 => 1000,
        4 => 10_000,
        5 => 100_000,
        _ => 1_000_000,
    }
}

/// The value, in the paired currency, of `qty` scaled units at scaled `price`:
/// `qty * price` when the quantity converts by multiplication (a `Base`
/// quantity priced in `Quote`), else `qty / price`; banker's rounding to the
/// money scale.
pub open spec fn convert_value(by_multiplication: bool, qty: int, price: int) -> int {
    if by_multiplication {
        round_half_even(qty * price, SCALE as int)
    } else {
        round_half_even(qty * SCALE, price)
    }
}

/// Conversion is odd in the quantity: a short is worth the negated long.
pub proof fn lemma_convert_value_neg(by_multiplication: bool, qty: int, price: int)
    requires
        price > 0,
    ensures
        convert_value(by_multiplication, -qty, price) == -convert_value(
            by_multiplication,
            qty,
            price,
        ),
{
    if by_multiplication {
        assert((-qty) * price == -(qty * price)) by (nonlinear_arith);
        crate::decimal::lemma_round_half_even_neg(qty * price, SCALE as int);
    } else {
        assert((-qty) * SCALE == -(qty * SCALE)) by (nonlinear_arith);
        crate::decimal::lemma_round_half_even_neg(qty * SCALE, price);
    }
}

/// A money amount of one currency kind, held as a mantissa scaled by `SCALE`.
/// Margin, fees and profit and loss are held in such an amount.
pub trait MarginCurrency: Sized + Copy {
    /// The scaled mantissa.
    spec fn value(self) -> int;

    /// The amount with the given scaled mantissa.
    fn from_mantissa(mantissa: i64) -> (r: Self)
        requires
            fits(mantissa as int),
        ensures
            r.value() == mantissa,
    ;

    /// The scaled mantissa.
    fn mantissa(&self) -> (r: i64)
        ensures
            r == self.value(),
            fits(r as int),
    ;
}

/// A currency that contract quantities are denominated in; it converts into
/// its paired currency, the margin currency of the market.
pub trait Currency: MarginCurrency {
    /// The other currency of the pair: `Base` for `Quote` and the reverse.
    type PairedCurrency: MarginCurrency;

    /// Whether a quantity in this currency becomes the paired currency by
    /// multiplication with a price (rather than division by it).
    spec fn converts_by_multiplication() -> bool;

    /// The futures type whose contracts are denominated in this currency.
    fn futures_type() -> (r: FuturesTypes)
        ensures
            r == futures_type_of(Self::converts_by_multiplication()),
    ;

    /// The value of this quantity, in the paired currency, at `price`.
    fn convert(self, price: QuoteCurrency) -> (r: Self::PairedCurrency)
        requires
            price.value() > 0,
            fits(convert_value(Self::converts_by_multiplication(), self.value(), price.value())),
        ensures
            r.value() == convert_value(
                Self::converts_by_multiplication(),
                self.value(),
                price.value(),
            ),
    ;
}

/// An amount in the base currency (e.g. BTC in BTCUSD).
#[derive(Debug, Clone, Copy, PartialEq, Eq, Structural)]
pub struct BaseCurrency {
    mantissa: i64,
}

/// An amount in the quote currency (e.g. USD in BTCUSD); every price is one.
#[derive(Debug, Clone, Copy, PartialEq, Eq, Structural)]
pub struct QuoteCurrency {
    mantissa: i64,
}

/// `integer * 10^-scale` as a mantissa at the money scale.
pub open spec fn scaled_mantissa(integer: int, scale: nat) -> int {
    integer * pow10((3 - scale) as nat)
}

/// Scales `integer * 10^-scale` to the money scale.
fn scale_money(integer: i64, scale: u8) -> (r: i64)
    requires
        scale <= 3,
        fits(scaled_mantissa(integer as int, scale as nat)),
    ensures
        r == scaled_mantissa(integer as int, scale as nat),
{
    let f = pow10_exec(3 - scale);
    integer * f
}

impl BaseCurrency {
    #[verifier::type_invariant]
    spec fn inv(self) -> bool {
        fits(self.mantissa as int)
    }

    /// The amount `integer * 10^-scale`.
    pub fn new(integer: i64, scale: u8) -> (r: Self)
        requires
            scale <= 3,
            fits(scaled_mantissa(integer as int, scale as nat)),
        ensures
            r.value() == scaled_mantissa(integer as int, scale as nat),
    {
        BaseCurrency { mantissa: scale_money(integer, scale) }
    }
}

impl QuoteCurrency {
    #[verifier::type_invariant]
    spec fn inv(self) -> bool {
        fits(self.mantissa as int)
    }

    /// The amount `integer * 10^-scale`.
    pub fn new(integer: i64, scale: u8) -> (r: Self)
        requires
            scale <= 3,
            fits(scaled_mantissa(integer as int, scale as nat)),
        ensures
            r.value() == scaled_mantissa(integer as int, scale as nat),
    {
        QuoteCurrency { mantissa: scale_money(integer, scale) }
    }
}

impl MarginCurrency for BaseCurrency {
    closed spec fn value(self) -> int {
        self.mantissa as int
    }

    fn from_mantissa(mantissa: i64) -> (r: Self) {
        BaseCurrency { mantissa }
    }

    fn mantissa(&self) -> (r: i64) {
        proof {
            use_type_invariant(self);
        }
        self.mantissa
    }

}

impl Currency for BaseCurrency {
    type PairedCurrency = QuoteCurrency;

    open spec fn converts_by_multiplication() -> bool {
        true
    }

    fn futures_type() -> (r: FuturesTypes) {
        FuturesTypes::Linear
    }

    fn convert(self, price: QuoteCurrency) -> (r: QuoteCurrency) {
        proof {
            use_type_invariant(self);
            use_type_invariant(price);
        }
        let n = (self.mantissa as i128) * (price.mantissa as i128);
        let v = div_round_half_even(n, SCALE as i128);
        QuoteCurrency { mantissa: v as i64 }
    }
}

impl MarginCurrency for QuoteCurrency {
    closed spec fn value(self) -> int {
        self.mantissa as int
    }

    fn from_mantissa(mantissa: i64) -> (r: Self) {
        QuoteCurrency { mantissa }
    }

    fn mantissa(&self) -> (r: i64) {
        proof {
            use_type_invariant(self);
        }
        self.mantissa
    }

}

impl Currency for QuoteCurrency {
    type PairedCurrency = BaseCurrency;

    open spec fn converts_by_multiplication() -> bool {
        false
    }

    fn futures_type() -> (r: FuturesTypes) {
        FuturesTypes::Inverse
    }

    fn convert(self, price: QuoteCurrency) -> (r: BaseCurrency) {
        proof {
            use_type_invariant(self);
            use_type_invariant(price);
        }
        let n = (self.mantissa as i128) * (SCALE as i128);
        let v = div_round_half_even(n, price.mantissa as i128);
        BaseCurrency { mantissa: v as i64 }
    }
}

} // verus!

verus! {

/// A dimensionless rate (a fee rate, a margin requirement), held as a
/// mantissa scaled by `RATE_SCALE`.
#[derive(Debug, Clone, Copy, PartialEq, Eq, Structural)]
pub struct Decimal {
    mantissa: i64,
}

impl Decimal {
    #[verifier::type_invariant]
    spec fn inv(self) -> bool {
        fits(self.mantissa as int)
    }

    /// The scaled mantissa.
    pub closed spec fn value(self) -> int {
        self.mantissa as int
    }

    /// The rate with the given scaled mantissa.
    pub fn from_mantissa(mantissa: i64) -> (r: Decimal)
        requires
            fits(mantissa as int),
        ensures
            r.value() == mantissa,
    {
        Decimal { mantissa }
    }

    /// The rate `integer * 10^-scale`, if the rate scale holds it.
    pub fn try_from_scaled(integer: i64, scale: u8) -> (r: Option<Decimal>)
        ensures
            r is Some <==> scale <= 6 && fits(integer * pow10((6 - scale) as nat)),
            r matches Some(d) ==> d.value() == integer * pow10((6 - scale) as nat),
    {
        if scale > 6 {
            return None;
        }
        let f = pow10_exec(6 - scale);
        assert((integer as int) * (f as int) < 0x7fff_ffff_ffff_ffff_ffff_ffff_ffff_ffff
            && (integer as int) * (f as int) > -0x7fff_ffff_ffff_ffff_ffff_ffff_ffff_ffff)
            by (nonlinear_arith)
            requires
                1 <= f <= 1_000_000,
                -0x8000_0000_0000_0000 <= integer <= 0x7fff_ffff_ffff_ffff,
        ;
        let m = (integer as i128) * (f as i128);
        if m < -(i64::MAX as i128) || m > i64::MAX as i128 {
            None
        } else {
            Some(Decimal { mantissa: m as i64 })
        }
    }

    /// The scaled mantissa.
    pub fn mantissa(&self) -> (r: i64)
        ensures
            r == self.value(),
            fits(r as int),
    {
        proof {
            use_type_invariant(self);
        }
        self.mantissa
    }
}

/// `amount * rate`, with banker's rounding to the money scale.
pub open spec fn scaled_by(amount: int, rate: int) -> int {
    round_half_even(amount * rate, RATE_SCALE as int)
}

/// Multiplies an amount by a rate.
pub fn mul_rate<M: MarginCurrency>(amount: M, rate: Decimal) -> (r: M)
    requires
        fits(scaled_by(amount.value(), rate.value())),
    ensures
        r.value() == scaled_by(amount.value(), rate.value()),
{
    let a = amount.mantissa();
    let b = rate.mantissa();
    let n = (a as i128) * (b as i128);
    let v = div_round_half_even(n, RATE_SCALE as i128);
    M::from_mantissa(v as i64)
}

} // verus!

verus! {

/// Whether a quantity of `Q` converts by multiplication.
pub fn converts_by_multiplication<Q: Currency>() -> (r: bool)
    ensures
        r == Q::converts_by_multiplication(),
{
    match Q::futures_type() {
        FuturesTypes::Linear => true,
        FuturesTypes::Inverse => false,
    }
}

/// Bound on the magnitude of a wide intermediate value: `2^126`.
pub const WIDE: i128 = 0x4000_0000_0000_0000_0000_0000_0000_0000;

/// Computes `convert_value` in a wide integer, for any mantissas.
pub fn convert_wide(by_multiplication: bool, qty: i64, price: i64) -> (r: i128)
    requires
        price > 0,
    ensures
        r == convert_value(by_multiplication, qty as int, price as int),
        -WIDE - 1 <= r <= WIDE + 1,
{
    let a = qty as i128;
    let b: i128 = if by_multiplication {
        price as i128
    } else {
        SCALE as i128
    };
    let d: i128 = if by_multiplication {
        SCALE as i128
    } else {
        price as i128
    };
    assert(-WIDE <= a * b <= WIDE) by (nonlinear_arith)
        requires
            -0x8000_0000_0000_0000 <= a < 0x8000_0000_0000_0000,
            0 < b < 0x8000_0000_0000_0000,
    ;
    let n = a * b;
    proof {
        let q = (n as int) / (d as int);
        let m = (n as int) % (d as int);
        crate::decimal::lemma_round_half_even_bounds(n as int, d as int);
        vstd::arithmetic::div_mod::lemma_fundamental_div_mod(n as int, d as int);
        vstd::arithmetic::div_mod::lemma_mod_bound(n as int, d as int);
        assert(-WIDE - 1 <= q <= WIDE) by (nonlinear_arith)
            requires
                n == d * q + m,
                0 <= m < d,
                d >= 1,
                -WIDE <= n <= WIDE,
        ;
    }
    div_round_half_even(n, d)
}

/// Computes `scaled_by` in a wide integer, for any mantissas.
pub fn scaled_wide(amount: i64, rate: i64) -> (r: i128)
    ensures
        r == scaled_by(amount as int, rate as int),
        -WIDE - 1 <= r <= WIDE + 1,
{
    let a = amount as i128;
    let b = rate as i128;
    assert(-WIDE <= a * b <= WIDE) by (nonlinear_arith)
        requires
            -0x8000_0000_0000_0000 <= a < 0x8000_0000_0000_0000,
            -0x8000_0000_0000_0000 <= b < 0x8000_0000_0000_0000,
    ;
    let n = a * b;
    let d = RATE_SCALE as i128;
    proof {
        let q = (n as int) / (d as int);
        let m = (n as int) % (d as int);
        crate::decimal::lemma_round_half_even_bounds(n as int, d as int);
        vstd::arithmetic::div_mod::lemma_fundamental_div_mod(n as int, d as int);
        vstd::arithmetic::div_mod::lemma_mod_bound(n as int, d as int);
        assert(-WIDE - 1 <= q <= WIDE) by (nonlinear_arith)
            requires
                n == d * q + m,
                0 <= m < d,
                d >= 1,
                -WIDE <= n <= WIDE,
        ;
    }
    div_round_half_even(n, d)
}

/// Computes `fits(v)`.
pub fn fits_wide(v: i128) -> (r: bool)
    ensures
        r == fits(v as int),
{
    -(MAX_MANTISSA as i128) <= v && v <= MAX_MANTISSA as i128
}

} // verus!
