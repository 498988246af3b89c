//! Token counts and percentages as text.
//!
//! The figures are computed as binary floating point with 53 bits of precision computes them: each
//! division and multiplication is rounded to the nearest number with 53 bits, halves to the even
//! one, and the last result is rounded to one decimal digit in the same way. Here this is done with
//! whole numbers.
use vstd::prelude::*;
use crate::text;
use crate::text::{cat2, decimal_text, wide_decimal_text};

verus! {

/// The whole number nearest to `a / b`; of two that are equally near, the even one.
pub open spec fn rounded(a: nat, b: nat) -> nat {
    let q = a / b;
    let r = a % b;
    if 2 * r < b || (2 * r == b && q % 2 == 0) {
        q
    } else {
        q + 1
    }
}

/// The first of `s`, `2 s`, `4 s` and so on that brings `a / b` to at least 52 bits.
pub open spec fn scale_up(a: nat, b: nat, s: nat) -> nat
    decreases 0x20_0000_0000_0000 * b - a * s,
{
    if a == 0 || s == 0 || a * s >= 0x10_0000_0000_0000 * b {
        s
    } else {
        proof {
            assert(a * (2 * s) == 2 * (a * s)) by (nonlinear_arith);
            assert(a * s > 0) by (nonlinear_arith)
                requires
                    a > 0,
                    s > 0,
            ;
        }
        scale_up(a, b, 2 * s)
    }
}

/// The first of `d`, `2 d`, `4 d` and so on that brings `a / b` below 54 bits.
pub open spec fn scale_down(a: nat, b: nat, d: nat) -> nat
    decreases a - b * d,
{
    if b == 0 || d == 0 || a < 0x20_0000_0000_0000 * (b * d) {
        d
    } else {
        proof {
            assert(b * (2 * d) == 2 * (b * d)) by (nonlinear_arith);
            assert(b * d > 0) by (nonlinear_arith)
                requires
                    b > 0,
                    d > 0,
            ;
        }
        scale_down(a, b, 2 * d)
    }
}

/// The number with 53 bits nearest to a whole number.
pub open spec fn nearest_double(v: nat) -> nat {
    let d = scale_down(v, 1, 1);
    rounded(v, d) * d
}

/// A number with 53 bits: `mantissa * down / up`.
pub struct Quotient {
    pub mantissa: nat,
    pub up: nat,
    pub down: nat,
}

/// The number with 53 bits nearest to `a / b`.
pub open spec fn quotient(a: nat, b: nat) -> Quotient {
    if a < 0x20_0000_0000_0000 * b {
        let up = scale_up(a, b, 1);
        Quotient { mantissa: rounded(a * up, b), up, down: 1 }
    } else {
        let down = scale_down(a, b, 1);
        Quotient { mantissa: rounded(a, b * down), up: 1, down }
    }
}

/// How many tenths a number has, rounded.
pub open spec fn tenths(q: Quotient) -> nat {
    rounded(10 * (q.mantissa * q.down), q.up)
}

/// A hundred times a number, with 53 bits.
pub open spec fn hundredfold(q: Quotient) -> Quotient {
    let m = 100 * q.mantissa;
    let unit = if m < 0x800_0000_0000_0000 {
        64nat
    } else {
        128nat
    };
    Quotient { mantissa: rounded(m, unit) * unit, up: q.up, down: q.down }
}

/// Tenths with a point before the last digit.
pub open spec fn tenths_text(n: nat) -> Seq<char> {
    text::decimal(n / 10) + "."@ + text::decimal(n % 10)
}

/// A count of tokens: exact below a thousand, then in thousands and in millions, with one decimal
/// digit below ten.
pub open spec fn token_text(v: nat) -> Seq<char> {
    if v < 1000 {
        text::decimal(v)
    } else if v < 10_000 {
        tenths_text(tenths(quotient(v, 1000))) + "k"@
    } else if v < 1_000_000 {
        text::decimal((v + 500) / 1000) + "k"@
    } else if v < 10_000_000 {
        tenths_text(tenths(quotient(v, 1_000_000))) + "M"@
    } else {
        text::decimal(nearest_whole(quotient(nearest_double(v), 1_000_000))) + "M"@
    }
}

/// The whole number nearest to a number, halves upwards.
pub open spec fn nearest_whole(q: Quotient) -> nat {
    (2 * (q.mantissa * q.down) + q.up) / (2 * q.up)
}

/// `part` as a percentage of `whole`.
pub open spec fn percentage(part: nat, whole: nat) -> Quotient {
    hundredfold(quotient(nearest_double(part), nearest_double(whole)))
}

/// Whether a number is at least `n`.
pub open spec fn at_least(q: Quotient, n: nat) -> bool {
    q.mantissa * q.down >= n * q.up
}

/// A percentage with one decimal digit.
pub open spec fn percent_text(q: Quotient) -> Seq<char> {
    tenths_text(tenths(q)) + "%"@
}

proof fn rounded_bounds(a: nat, b: nat, n: nat)
    requires
        b > 0,
        a < n * b,
    ensures
        rounded(a, b) <= n,
{
    assert(a / b < n) by (nonlinear_arith)
        requires
            b > 0,
            a < n * b,
    ;
}

fn round_half_even(a: u128, b: u128) -> (r: u128)
    requires
        0 < b <= 0x4000_0000_0000_0000_0000_0000_0000_0000,
        a <= 0x4000_0000_0000_0000_0000_0000_0000_0000,
    ensures
        r == rounded(a as nat, b as nat),
{
    let q = a / b;
    let r = a % b;
    assert(a / b <= a) by (nonlinear_arith)
        requires
            b > 0,
    ;
    if 2 * r < b || (2 * r == b && q % 2 == 0) {
        q
    } else {
        q + 1
    }
}

fn find_up(a: u128, b: u128) -> (r: u128)
    requires
        0 < a <= 0x1_0000_0000_0000_0000,
        0 < b <= 0x1_0000_0000_0000_0000,
        a < 0x20_0000_0000_0000 * b,
    ensures
        r == scale_up(a as nat, b as nat, 1),
        0 < r,
        a * r < 0x20_0000_0000_0000 * b,
        r < 0x20_0000_0000_0000 * b,
{
    let mut s: u128 = 1;
    while a * s < 0x10_0000_0000_0000 * b
        invariant
            0 < a <= 0x1_0000_0000_0000_0000,
            0 < b <= 0x1_0000_0000_0000_0000,
            0 < s,
            a * s < 0x20_0000_0000_0000 * b,
            a * s <= u128::MAX,
            scale_up(a as nat, b as nat, s as nat) == scale_up(a as nat, b as nat, 1),
        decreases 0x20_0000_0000_0000 * b - a * s,
    {
        assert(a * (2 * s) == 2 * (a * s)) by (nonlinear_arith);
        assert(a * s > 0) by (nonlinear_arith)
            requires
                a > 0,
                s > 0,
        ;
        assert(s <= a * s) by (nonlinear_arith)
            requires
                a > 0,
                s > 0,
        ;
        s = 2 * s;
    }
    assert(s <= a * s) by (nonlinear_arith)
        requires
            a > 0,
            s > 0,
    ;
    s
}

fn find_down(a: u128, b: u128) -> (r: u128)
    requires
        a <= 0x1_0000_0000_0000_0000,
        0 < b <= 0x1_0000_0000_0000_0000,
    ensures
        r == scale_down(a as nat, b as nat, 1),
        0 < r <= 0x1000,
        a < 0x20_0000_0000_0000 * (b * r),
        b * r <= 0x1_0000_0000_0000_0000,
{
    let mut d: u128 = 1;
    assert(b * 1 == b);
    while a >= 0x20_0000_0000_0000 * (b * d)
        invariant
            a <= 0x1_0000_0000_0000_0000,
            0 < b <= 0x1_0000_0000_0000_0000,
            0 < d <= 0x1000,
            b * d <= 0x1_0000_0000_0000_0000,
            scale_down(a as nat, b as nat, d as nat) == scale_down(a as nat, b as nat, 1),
        decreases 0x1000 - d,
    {
        assert(b * (2 * d) == 2 * (b * d)) by (nonlinear_arith);
        assert(d <= b * d) by (nonlinear_arith)
            requires
                b > 0,
                d > 0,
        ;
        assert(d <= 0x800);
        d = 2 * d;
    }
    d
}

/// A number with 53 bits, on executable values.
struct Fraction {
    mantissa: u128,
    up: u128,
    down: u128,
}

impl Fraction {
    spec fn value(self) -> Quotient {
        Quotient {
            mantissa: self.mantissa as nat,
            up: self.up as nat,
            down: self.down as nat,
        }
    }

    spec fn bounded(self) -> bool {
        &&& self.mantissa <= 0x1000_0000_0000_0000
        &&& 0 < self.up <= 0x20_0000_0000_0000_0000_0000_0000_0000
        &&& 0 < self.down <= 0x1000
    }

    fn units(&self) -> (r: u128)
        requires
            self.bounded(),
        ensures
            r == self.mantissa * self.down,
            r <= 0x1000_0000_0000_0000_000,
    {
        assert(self.mantissa * self.down <= 0x1000_0000_0000_0000 * 0x1000) by (nonlinear_arith)
            requires
                self.mantissa <= 0x1000_0000_0000_0000,
                self.down <= 0x1000,
        ;
        self.mantissa * self.down
    }
}

fn double_of(v: u64) -> (r: u128)
    ensures
        r == nearest_double(v as nat),
        r <= 0x1_0000_0000_0000_0000,
        v > 0 ==> r > 0,
{
    let d = find_down(v as u128, 1);
    assert(1 * d == d);
    let m = round_half_even(v as u128, d);
    proof {
        double_fits(v as nat, d as nat);
        if v > 0 {
            assert(m * d > 0) by (nonlinear_arith)
                requires
                    m > 0,
                    d > 0,
            ;
        }
    }
    m * d
}

proof fn double_fits(v: nat, d: nat)
    requires
        v < 0x1_0000_0000_0000_0000,
        0 < d <= 0x1000,
        d == scale_down(v, 1, 1),
    ensures
        rounded(v, d) * d <= 0x1_0000_0000_0000_0000,
        v > 0 ==> rounded(v, d) > 0,
{
    power_of_two(v, 1);
    divides(d, v);
}

/// The scales are powers of two up to 4096.
spec fn small_power(d: nat) -> bool {
    ||| d == 1
    ||| d == 2
    ||| d == 4
    ||| d == 8
    ||| d == 16
    ||| d == 32
    ||| d == 64
    ||| d == 128
    ||| d == 256
    ||| d == 512
    ||| d == 1024
    ||| d == 2048
    ||| d == 4096
}

proof fn power_of_two(v: nat, d: nat)
    requires
        v < 0x1_0000_0000_0000_0000,
        small_power(d),
        scale_down(v, 1, d) <= 0x1000,
    ensures
        small_power(scale_down(v, 1, d)),
        d > 1 && v >= 0x10_0000_0000_0000 * d ==> v >= 0x10_0000_0000_0000 * scale_down(v, 1, d),
        d == 1 && scale_down(v, 1, 1) > 1 ==> v >= 0x10_0000_0000_0000 * scale_down(v, 1, 1),
    decreases v - d,
{
    assert(1 * d == d);
    if v < 0x20_0000_0000_0000 * d {
    } else {
        assert(d <= 0x800);
        power_of_two(v, 2 * d);
    }
}

proof fn divides(d: nat, v: nat)
    requires
        v < 0x1_0000_0000_0000_0000,
        small_power(d),
        d > 1 ==> v >= 0x10_0000_0000_0000 * d,
    ensures
        rounded(v, d) * d <= 0x1_0000_0000_0000_0000,
        v > 0 ==> rounded(v, d) > 0,
{
    let q = v / d;
    let r = v % d;
    assert(v == q * d + r && r < d) by (nonlinear_arith)
        requires
            d > 0,
            q == v / d,
            r == v % d,
    ;
    assert((q + 1) * d == q * d + d) by (nonlinear_arith);
    // The bound is a multiple of `d`, and `q * d` is below it.
    let n: nat = 0x1_0000_0000_0000_0000nat / d;
    assert(n * d == 0x1_0000_0000_0000_0000);
    assert(q < n) by (nonlinear_arith)
        requires
            q * d <= v,
            v < n * d,
            d > 0,
    ;
    assert((q + 1) * d <= n * d) by (nonlinear_arith)
        requires
            q < n,
    ;
}

fn divide(a: u128, b: u128) -> (r: Fraction)
    requires
        0 < a <= 0x1_0000_0000_0000_0000,
        0 < b <= 0x1_0000_0000_0000_0000,
    ensures
        r.value() == quotient(a as nat, b as nat),
        r.mantissa <= 0x20_0000_0000_0000,
        r.bounded(),
{
    if a < 0x20_0000_0000_0000 * b {
        let up = find_up(a, b);
        assert(a * up <= 0x4000_0000_0000_0000_0000_0000_0000_0000);
        proof {
            rounded_bounds((a * up) as nat, b as nat, 0x20_0000_0000_0000);
        }
        let mantissa = round_half_even(a * up, b);
        Fraction { mantissa, up, down: 1 }
    } else {
        let down = find_down(a, b);
        assert(b * down > 0) by (nonlinear_arith)
            requires
                b > 0,
                down > 0,
        ;
        proof {
            rounded_bounds(a as nat, (b * down) as nat, 0x20_0000_0000_0000);
        }
        let mantissa = round_half_even(a, b * down);
        Fraction { mantissa, up: 1, down }
    }
}

fn count_tenths(q: &Fraction) -> (r: u128)
    requires
        q.bounded(),
    ensures
        r == tenths(q.value()),
{
    round_half_even(10 * q.units(), q.up)
}

fn write_tenths(n: u128) -> (r: String)
    ensures
        r@ == tenths_text(n as nat),
{
    text::cat3(wide_decimal_text(n / 10).as_str(), ".", wide_decimal_text(n % 10).as_str())
}

/// A count of tokens.
pub fn format_token_count(value: u64) -> (r: String)
    ensures
        r@ == token_text(value as nat),
{
    if value < 1000 {
        return decimal_text(value);
    }
    if value < 10_000 {
        let q = divide(value as u128, 1000);
        return cat2(write_tenths(count_tenths(&q)).as_str(), "k");
    }
    if value < 1_000_000 {
        return cat2(decimal_text((value + 500) / 1000).as_str(), "k");
    }
    if value < 10_000_000 {
        let q = divide(value as u128, 1_000_000);
        return cat2(write_tenths(count_tenths(&q)).as_str(), "M");
    }
    let q = divide(double_of(value), 1_000_000);
    let whole = (2 * q.units() + q.up) / (2 * q.up);
    cat2(wide_decimal_text(whole).as_str(), "M")
}

/// How a percentage is to be taken.
#[derive(Clone, Copy, Debug, PartialEq, Eq, Structural)]
pub enum Level {
    Low,
    High,
    Critical,
}

/// How a percentage is to be taken: critical from ninety on, high from seventy on.
pub open spec fn level_of(q: Quotient) -> Level {
    if at_least(q, 90) {
        Level::Critical
    } else if at_least(q, 70) {
        Level::High
    } else {
        Level::Low
    }
}

/// The percentage of nothing.
pub open spec fn zero() -> Quotient {
    Quotient { mantissa: 0, up: 1, down: 1 }
}

/// `part` as a percentage of `whole`, also where `part` is nothing.
pub open spec fn share(part: nat, whole: nat) -> Quotient {
    if part == 0 {
        zero()
    } else {
        percentage(part, whole)
    }
}

fn compute_share(part: u64, whole: u64) -> (r: Fraction)
    requires
        whole > 0,
    ensures
        r.value() == share(part as nat, whole as nat),
        r.bounded(),
{
    if part == 0 {
        return Fraction { mantissa: 0, up: 1, down: 1 };
    }
    let q = divide(double_of(part), double_of(whole));
    let m: u128 = 100 * q.mantissa;
    let unit: u128 = if m < 0x800_0000_0000_0000 {
        64
    } else {
        128
    };
    proof {
        rounded_bounds(m as nat, unit as nat, 0x20_0000_0000_0000);
    }
    let nearest: u128 = round_half_even(m, unit);
    let mantissa: u128 = if m < 0x800_0000_0000_0000 {
        nearest * 64
    } else {
        nearest * 128
    };
    Fraction { mantissa, up: q.up, down: q.down }
}

/// `part` as a percentage of `whole` with one decimal digit, and how it is to be taken.
pub fn format_percentage(part: u64, whole: u64) -> (r: (String, Level))
    requires
        whole > 0,
    ensures
        r.0@ == percent_text(share(part as nat, whole as nat)),
        r.1 == level_of(share(part as nat, whole as nat)),
{
    let q = compute_share(part, whole);
    let shown = cat2(write_tenths(count_tenths(&q)).as_str(), "%");
    let units = q.units();
    let level = if units >= 90 * q.up {
        Level::Critical
    } else if units >= 70 * q.up {
        Level::High
    } else {
        Level::Low
    };
    (shown, level)
}

proof fn rounding_is_near(a: nat, b: nat)
    requires
        b > 0,
    ensures
        -(b as int) <= 2 * (b * rounded(a, b) - a) <= b,
{
    let q = a / b;
    let r = a % b;
    assert(a == b * q + r && r < b) by (nonlinear_arith)
        requires
            b > 0,
            q == a / b,
            r == a % b,
    ;
    assert(b * (q + 1) == b * q + b) by (nonlinear_arith);
}

proof fn scaled_far_enough(a: nat, b: nat, s: nat)
    requires
        a > 0,
        s > 0,
    ensures
        a * scale_up(a, b, s) >= 0x10_0000_0000_0000 * b,
        scale_up(a, b, s) > 0,
    decreases 0x20_0000_0000_0000 * b - a * s,
{
    if a * s < 0x10_0000_0000_0000 * b {
        assert(a * (2 * s) == 2 * (a * s)) by (nonlinear_arith);
        assert(a * s > 0) by (nonlinear_arith)
            requires
                a > 0,
                s > 0,
        ;
        scaled_far_enough(a, b, 2 * s);
    }
}

proof fn scale_is_large(a: nat, b: nat, n: nat, least: nat)
    requires
        a > 0,
        a <= n * b,
        n * least <= 0x10_0000_0000_0000,
        n > 0,
        b > 0,
    ensures
        scale_up(a, b, 1) >= least,
{
    scaled_far_enough(a, b, 1);
    let up = scale_up(a, b, 1);
    if up < least {
        assert(a * up < a * least) by (nonlinear_arith)
            requires
                up < least,
                a > 0,
        ;
        assert(a * least <= (n * b) * least) by (nonlinear_arith)
            requires
                a <= n * b,
        ;
        assert((n * b) * least == (n * least) * b) by (nonlinear_arith);
        assert((n * least) * b <= 0x10_0000_0000_0000 * b) by (nonlinear_arith)
            requires
                n * least <= 0x10_0000_0000_0000,
        ;
    }
}

/// The tenths that a quotient is shown with are the nearest ones.
pub proof fn tenths_are_nearest(a: nat, b: nat)
    requires
        0 < b <= 1_000_000,
        0 < a < 10 * b,
    ensures
        -(b as int) <= 2 * (b * tenths(quotient(a, b)) - 10 * a) <= b,
{
    let up = scale_up(a, b, 1);
    assert(up >= 100_000_000) by {
        scale_is_large(a, b, 10, 100_000_000);
    }
    let m = rounded(a * up, b);
    let t = rounded(10 * (m * 1), up);
    assert(m * 1 == m);
    assert(quotient(a, b) == (Quotient { mantissa: m, up, down: 1 }));
    assert(tenths(quotient(a, b)) == t);
    rounding_is_near(a * up, b);
    rounding_is_near(10 * m, up);
    let e = b * m - a * up;
    let f = up * t - 10 * m;
    let g = b * t - 10 * a;
    assert(up * g == b * f + 10 * e) by (nonlinear_arith)
        requires
            e == b * m - a * up,
            f == up * t - 10 * m,
            g == b * t - 10 * a,
    ;
    near_enough(up, b, e, f, g, 10);
}

proof fn near_enough(up: nat, b: nat, e: int, f: int, g: int, n: nat)
    requires
        up * g == b * f + n * e,
        -(b as int) <= 2 * e <= b,
        -(up as int) <= 2 * f <= up,
        n * b < up,
    ensures
        -(b as int) <= 2 * g <= b,
{
    assert(2 * (up * g) == b * (2 * f) + n * (2 * e)) by (nonlinear_arith)
        requires
            up * g == b * f + n * e,
    ;
    assert(b * (2 * f) <= b * up && b * (2 * f) >= -(b * up)) by (nonlinear_arith)
        requires
            -(up as int) <= 2 * f <= up,
    ;
    assert(n * (2 * e) <= n * b && n * (2 * e) >= -(n * b)) by (nonlinear_arith)
        requires
            -(b as int) <= 2 * e <= b,
    ;
    assert(2 * (up * g) == up * (2 * g)) by (nonlinear_arith);
    if 2 * g > b {
        assert(up * (2 * g) >= up * (b + 1)) by (nonlinear_arith)
            requires
                2 * g >= b + 1,
        ;
        assert(up * (b + 1) == b * up + up) by (nonlinear_arith);
    }
    if 2 * g < -(b as int) {
        assert(up * (2 * g) <= up * (-(b as int) - 1)) by (nonlinear_arith)
            requires
                2 * g <= -(b as int) - 1,
        ;
        assert(up * (-(b as int) - 1) == -(b * up) - up) by (nonlinear_arith);
    }
}

/// A count below a thousand is written out; above, it is written in thousands or in millions, with
/// the nearest tenth below ten of them and the nearest whole number of thousands from ten on.
pub proof fn token_counts_are_near(v: nat)
    ensures
        v < 1000 ==> token_text(v) == text::decimal(v),
        1000 <= v < 10_000 ==> exists|t: nat|
            token_text(v) == #[trigger] tenths_text(t) + "k"@ && v - 50 <= 100 * t <= v + 50,
        10_000 <= v < 1_000_000 ==> exists|n: nat|
            token_text(v) == #[trigger] text::decimal(n) + "k"@ && v - 500 <= 1000 * n <= v + 500,
        1_000_000 <= v < 10_000_000 ==> exists|t: nat|
            token_text(v) == #[trigger] tenths_text(t) + "M"@ && v - 50_000 <= 100_000 * t <= v
                + 50_000,
{
    if 1000 <= v < 10_000 {
        tenths_are_nearest(v, 1000);
        let t = tenths(quotient(v, 1000));
        assert(token_text(v) == tenths_text(t) + "k"@);
    } else if 10_000 <= v < 1_000_000 {
        let n = (v + 500) / 1000;
        assert(token_text(v) == text::decimal(n) + "k"@);
    } else if 1_000_000 <= v < 10_000_000 {
        tenths_are_nearest(v, 1_000_000);
        let t = tenths(quotient(v, 1_000_000));
        assert(token_text(v) == tenths_text(t) + "M"@);
    }
}

proof fn small_numbers_are_exact(v: nat)
    requires
        v < 0x20_0000_0000_0000,
    ensures
        nearest_double(v) == v,
{
    assert(1 * 1 == 1) by (nonlinear_arith);
    assert(scale_down(v, 1, 1) == 1);
    assert(v / 1 == v && v % 1 == 0);
    assert(rounded(v, 1) == v);
    assert(v * 1 == v);
}

proof fn percentage_parts(part: nat, whole: nat) -> (r: (nat, nat, nat, int))
    requires
        0 < part <= whole <= 1_000_000_000_000,
    ensures
        share(part, whole) == (Quotient { mantissa: r.2, up: r.0, down: 1 }),
        r.0 >= 0x10_0000_0000_0000,
        -(whole as int) <= 2 * (whole * r.1 - part * r.0) <= whole,
        r.3 == r.2 - 100 * r.1,
        -64 <= r.3 <= 64,
{
    small_numbers_are_exact(part);
    small_numbers_are_exact(whole);
    let up = scale_up(part, whole, 1);
    scale_is_large(part, whole, 1, 0x10_0000_0000_0000);
    let m = rounded(part * up, whole);
    rounding_is_near(part * up, whole);
    assert(quotient(part, whole) == (Quotient { mantissa: m, up, down: 1 }));
    let unit = if 100 * m < 0x800_0000_0000_0000 {
        64nat
    } else {
        128nat
    };
    rounding_is_near(100 * m, unit);
    let h = rounded(100 * m, unit) * unit;
    assert(h == unit * rounded(100 * m, unit)) by (nonlinear_arith)
        requires
            h == rounded(100 * m, unit) * unit,
    ;
    (up, m, h, h - 100 * m)
}

/// The percentage that is shown is the nearest one with one digit behind the point.
pub proof fn percentages_are_near(part: nat, whole: nat)
    requires
        0 < part <= whole <= 1_000_000_000_000,
    ensures
        percent_text(share(part, whole)) == tenths_text(tenths(share(part, whole))) + "%"@,
        -(whole as int) <= 2 * (whole * tenths(share(part, whole)) - 1000 * part) <= whole,
        percent_text(share(0, whole)) == tenths_text(0) + "%"@,
{
    let (up, m, h, d) = percentage_parts(part, whole);
    assert(h * 1 == h);
    let t = rounded(10 * (h * 1), up);
    assert(tenths(share(part, whole)) == t);
    rounding_is_near(10 * h, up);
    let e = whole * m - part * up;
    let f = up * t - 10 * h;
    let g = whole * t - 1000 * part;
    assert(up * g == whole * f + (10 * (whole * d) + 1000 * e)) by (nonlinear_arith)
        requires
            d == h - 100 * m,
            e == whole * m - part * up,
            f == up * t - 10 * h,
            g == whole * t - 1000 * part,
    ;
    let rest = 10 * (whole * d) + 1000 * e;
    assert(-64 * whole <= whole * d <= 64 * whole) by (nonlinear_arith)
        requires
            -64 <= d <= 64,
    ;
    assert(-1140 * whole <= rest <= 1140 * whole);
    assert(whole * (2 * f) <= whole * up && whole * (2 * f) >= -(whole * up)) by (nonlinear_arith)
        requires
            -(up as int) <= 2 * f <= up,
    ;
    assert(2 * (up * g) == whole * (2 * f) + 2 * rest) by (nonlinear_arith)
        requires
            up * g == whole * f + rest,
    ;
    assert(2 * (up * g) == up * (2 * g)) by (nonlinear_arith);
    if 2 * g > whole {
        assert(up * (2 * g) >= up * (whole + 1)) by (nonlinear_arith)
            requires
                2 * g >= whole + 1,
        ;
        assert(up * (whole + 1) == whole * up + up) by (nonlinear_arith);
    }
    if 2 * g < -(whole as int) {
        assert(up * (2 * g) <= up * (-(whole as int) - 1)) by (nonlinear_arith)
            requires
                2 * g <= -(whole as int) - 1,
        ;
        assert(up * (-(whole as int) - 1) == -(whole * up) - up) by (nonlinear_arith);
    }
    assert(0nat / 1 == 0 && 0nat % 1 == 0);
    assert(rounded(0, 1) == 0);
    assert(tenths(share(0, whole)) == 0);
}

proof fn compared_with(part: nat, whole: nat, n: nat)
    requires
        0 < part <= whole <= 1_000_000_000_000,
    ensures
        100 * part > n * whole ==> at_least(share(part, whole), n),
        100 * part < n * whole ==> !at_least(share(part, whole), n),
{
    let (up, m, h, d) = percentage_parts(part, whole);
    assert(h * 1 == h);
    let e = whole * m - part * up;
    let over = 100 * part - n * whole;
    assert(whole * h - (n * up) * whole == up * over + (whole * d + 100 * e)) by (nonlinear_arith)
        requires
            d == h - 100 * m,
            e == whole * m - part * up,
            over == 100 * part - n * whole,
    ;
    assert(-64 * whole <= whole * d <= 64 * whole) by (nonlinear_arith)
        requires
            -64 <= d <= 64,
    ;
    let rest = whole * d + 100 * e;
    assert(-114 * whole <= rest <= 114 * whole);
    if over > 0 {
        assert(up * over >= up) by (nonlinear_arith)
            requires
                over >= 1,
        ;
        assert(whole * h >= (n * up) * whole);
        assert(h >= n * up) by (nonlinear_arith)
            requires
                whole * h >= (n * up) * whole,
                whole > 0,
        ;
    }
    if over < 0 {
        assert(up * over <= -(up as int)) by (nonlinear_arith)
            requires
                over <= -1,
        ;
        assert(whole * h < (n * up) * whole);
        assert(h < n * up) by (nonlinear_arith)
            requires
                whole * h < (n * up) * whole,
                whole > 0,
        ;
    }
}

/// More than nine tenths of the context are critical, more than seven are many, and fewer are few.
pub proof fn levels_follow_the_share(part: nat, whole: nat)
    requires
        0 < part <= whole <= 1_000_000_000_000,
    ensures
        100 * part > 90 * whole ==> level_of(share(part, whole)) is Critical,
        70 * whole < 100 * part < 90 * whole ==> level_of(share(part, whole)) is High,
        100 * part < 70 * whole ==> level_of(share(part, whole)) is Low,
        level_of(share(0, whole)) is Low,
{
    compared_with(part, whole, 90);
    compared_with(part, whole, 70);
}

} // verus!
