//! Numbers of the form data: what a JSON number or a numeric string stands for, written as a
//! finite decimal `mantissa × 10^exponent`, and the ways the builders print them (the
//! ten-decimal rounding of `fmtNumber`, and the plain shortest decimal of `String(n)`).

use vstd::prelude::*;
use crate::give::builder::digits_value;
use crate::text::{
    chars_of, decimal_digits, eq_ignore_ascii_case, eq_ignore_case, is_digit, padded, push_char, push_range, push_str,
    push_u64,
};

verus! {

/// A finite number `mantissa × 10^exponent`.
#[derive(Clone, Copy, Debug)]
pub struct Decimal {
    pub mantissa: i64,
    pub exponent: i16,
}

/// `10^n`.
pub open spec fn pow10(n: nat) -> nat
    decreases n,
{
    if n == 0 {
        1
    } else {
        10 * pow10((n - 1) as nat)
    }
}

/// `n` zero digits.
pub open spec fn zeros(n: nat) -> Seq<char> {
    Seq::new(n, |i: int| '0')
}

/// `s` without its trailing `0` characters.
pub open spec fn strip_zeros(s: Seq<char>) -> Seq<char>
    decreases s.len(),
{
    if s.len() > 0 && s.last() == '0' {
        strip_zeros(s.drop_last())
    } else {
        s
    }
}

/// The decimal fraction `.ddd` of `f / 10^w` without trailing zeros; empty when `f` is 0.
pub open spec fn fraction_text(f: nat, w: nat) -> Seq<char> {
    let t = strip_zeros(padded(f, w));
    if t.len() == 0 {
        seq![]
    } else {
        seq!['.'] + t
    }
}

/// `a × 10^e × 10^k` split as `q + r / den`: the quotient rounded down, the remainder and the
/// divisor (1 when the product is a whole number).
pub open spec fn shift(a: nat, e: int, k: int) -> (nat, nat, nat) {
    if e + k >= 0 {
        (a * pow10((e + k) as nat), 0nat, 1nat)
    } else {
        let den = pow10((-(e + k)) as nat);
        (a / den, a % den, den)
    }
}

/// `a × 10^e × 10^k` rounded to a whole number, ties to even.
pub open spec fn round_even(a: nat, e: int, k: int) -> nat {
    let t = shift(a, e, k);
    if 2 * t.1 > t.2 || (2 * t.1 == t.2 && t.0 % 2 == 1) {
        t.0 + 1
    } else {
        t.0
    }
}

/// `a × 10^e × 10^k` rounded to a whole number, ties away from zero.
pub open spec fn round_away(a: nat, e: int, k: int) -> nat {
    let t = shift(a, e, k);
    if 2 * t.1 >= t.2 {
        t.0 + 1
    } else {
        t.0
    }
}

/// `-` for a negative number.
pub open spec fn sign_text(neg: bool) -> Seq<char> {
    if neg {
        seq!['-']
    } else {
        seq![]
    }
}

/// `±a × 10^e` rounded to ten decimals (ties to even), then without trailing zeros or a
/// trailing point: the text of `fmtNumber` (`toFixed(10)` trimmed). The sign stays on a
/// negative number that rounds to zero (`-0`).
pub open spec fn fixed_raw(neg: bool, a: nat, e: int) -> Seq<char> {
    let r = round_even(a, e, 10);
    sign_text(neg) + decimal_digits(r / pow10(10)) + fraction_text(r % pow10(10), 10)
}

/// `±a × 10^e` written out in full in plain decimal notation, without trailing fractional zeros:
/// the text of `String(n)` for a number.
pub open spec fn plain_raw(neg: bool, a: nat, e: int) -> Seq<char> {
    sign_text(neg) + if e >= 0 {
        decimal_digits(a * pow10(e as nat))
    } else {
        let den = pow10((-e) as nat);
        decimal_digits(a / den) + fraction_text(a % den, (-e) as nat)
    }
}

impl Decimal {
    /// The number is below zero.
    pub open spec fn neg(self) -> bool {
        self.mantissa < 0
    }

    /// The magnitude of the mantissa.
    pub open spec fn mag(self) -> nat {
        if self.mantissa < 0 {
            (-self.mantissa) as nat
        } else {
            self.mantissa as nat
        }
    }

    /// The ten-decimal text (`fmtNumber`).
    pub open spec fn fixed(self) -> Seq<char> {
        fixed_raw(self.neg(), self.mag(), self.exponent as int)
    }

    /// The plain decimal text (`String(n)`).
    pub open spec fn plain(self) -> Seq<char> {
        plain_raw(self.neg(), self.mag(), self.exponent as int)
    }

    /// A whole number.
    pub fn whole(n: i64) -> (d: Decimal)
        ensures
            d.mantissa == n,
            d.exponent == 0,
    {
        Decimal { mantissa: n, exponent: 0 }
    }
}

proof fn lemma_pow10_pos(n: nat)
    ensures
        pow10(n) >= 1,
    decreases n,
{
    if n > 0 {
        lemma_pow10_pos((n - 1) as nat);
    }
}

proof fn lemma_pow10_mono(i: nat, j: nat)
    requires
        i <= j,
    ensures
        pow10(i) <= pow10(j),
    decreases j,
{
    if i < j {
        lemma_pow10_mono(i, (j - 1) as nat);
        lemma_pow10_pos((j - 1) as nat);
    }
}

proof fn lemma_pow10_add(i: nat, j: nat)
    ensures
        pow10(i + j) == pow10(i) * pow10(j),
    decreases j,
{
    if j > 0 {
        let k = (j - 1) as nat;
        lemma_pow10_add(i, k);
        let p = pow10(i);
        let q = pow10(k);
        assert(pow10(i + j) == 10 * pow10(i + k)) by {
            assert((i + j - 1) as nat == i + k);
        }
        assert(pow10(j) == 10 * q);
        assert(p * (10 * q) == 10 * (p * q)) by (nonlinear_arith);
    } else {
        assert(pow10(i) * 1 == pow10(i));
    }
}

proof fn lemma_pow10_values()
    ensures
        pow10(10) == 10000000000,
        pow10(16) == 10000000000000000,
        pow10(22) == 10000000000000000000000,
        pow10(19) == 10000000000000000000,
        pow10(20) == 100000000000000000000,
        pow10(38) == 100000000000000000000000000000000000000,
{
    reveal_with_fuel(pow10, 11);
    assert(pow10(10) == 10000000000);
    assert(pow10(6) == 1000000);
    lemma_pow10_add(10, 6);
    lemma_pow10_add(16, 6);
    lemma_pow10_add(10, 9);
    reveal_with_fuel(pow10, 10);
    assert(pow10(9) == 1000000000);
    assert(pow10(19) == 10000000000000000000);
    assert(pow10(20) == 100000000000000000000);
    lemma_pow10_add(19, 19);
}

/// The digits of `a × 10^e` are those of `a` followed by `e` zeros.
proof fn lemma_digits_shift(a: nat, e: nat)
    requires
        a > 0,
    ensures
        decimal_digits(a * pow10(e)) == decimal_digits(a) + zeros(e),
    decreases e,
{
    if e == 0 {
        assert(pow10(0) == 1);
        assert(a * 1 == a);
        assert(decimal_digits(a) + zeros(0) =~= decimal_digits(a));
    } else {
        lemma_digits_shift(a, (e - 1) as nat);
        let x = a * pow10((e - 1) as nat);
        lemma_pow10_pos((e - 1) as nat);
        assert(x >= 1) by (nonlinear_arith)
            requires
                a > 0,
                pow10((e - 1) as nat) >= 1,
                x == a * pow10((e - 1) as nat),
        ;
        assert(a * pow10(e) == x * 10) by (nonlinear_arith)
            requires
                x == a * pow10((e - 1) as nat),
                pow10(e) == 10 * pow10((e - 1) as nat),
        ;
        assert((x * 10) / 10 == x);
        assert((x * 10) % 10 == 0);
        assert(decimal_digits(x * 10) == decimal_digits(x).push('0'));
        assert(decimal_digits(a) + zeros(e) =~= (decimal_digits(a) + zeros((e - 1) as nat)).push('0'));
    }
}

/// `10^n` as a machine integer.
fn pow10_u128(n: u32) -> (r: u128)
    requires
        n <= 38,
    ensures
        r == pow10(n as nat),
{
    proof {
        lemma_pow10_values();
    }
    let mut r: u128 = 1;
    let mut i: u32 = 0;
    while i < n
        invariant
            i <= n <= 38,
            r == pow10(i as nat),
            pow10(38) == 100000000000000000000000000000000000000,
        decreases n - i,
    {
        proof {
            lemma_pow10_mono((i + 1) as nat, 38);
        }
        r = r * 10;
        i = i + 1;
    }
    r
}

/// How many characters of `v` stay once its trailing zeros are removed.
fn stripped_len(v: &Vec<char>) -> (n: usize)
    ensures
        n <= v@.len(),
        strip_zeros(v@) == v@.subrange(0, n as int),
{
    let mut n: usize = v.len();
    assert(v@.subrange(0, n as int) =~= v@);
    while n > 0 && v[n - 1] == '0'
        invariant
            n <= v@.len(),
            strip_zeros(v@) == strip_zeros(v@.subrange(0, n as int)),
        decreases n,
    {
        assert(v@.subrange(0, n as int).drop_last() =~= v@.subrange(0, n - 1));
        n = n - 1;
    }
    n
}

/// Appends the fraction text of `f / 10^w`.
fn push_fraction(s: &mut String, f: u64, w: usize)
    ensures
        final(s)@ == old(s)@ + fraction_text(f as nat, w as nat),
{
    let mut digits = String::new();
    push_u64(&mut digits, f);
    let dv = chars_of(digits.as_str());
    let mut v: Vec<char> = Vec::new();
    let mut k: usize = dv.len();
    while k < w
        invariant
            dv@ == decimal_digits(f as nat),
            dv@.len() <= k,
            k <= w || k == dv@.len(),
            v@ == zeros((k - dv@.len()) as nat),
        decreases w - k,
    {
        v.push('0');
        k = k + 1;
        assert(v@ =~= zeros((k - dv@.len()) as nat));
    }
    let mut j: usize = 0;
    let ghost pad = v@;
    while j < dv.len()
        invariant
            j <= dv@.len(),
            v@ == pad + dv@.subrange(0, j as int),
        decreases dv@.len() - j,
    {
        v.push(dv[j]);
        j = j + 1;
        assert(v@ =~= pad + dv@.subrange(0, j as int));
    }
    proof {
        assert(dv@.subrange(0, dv@.len() as int) =~= dv@);
        if dv@.len() >= w {
            assert(pad =~= Seq::<char>::empty());
            assert(v@ =~= padded(f as nat, w as nat));
        } else {
            assert(v@ =~= padded(f as nat, w as nat));
        }
    }
    let n = stripped_len(&v);
    if n > 0 {
        push_char(s, '.');
        push_range(s, &v, 0, n);
        assert(s@ =~= old(s)@ + fraction_text(f as nat, w as nat)) by {
            assert(old(s)@.push('.') + v@.subrange(0, n as int) =~= old(s)@ + (seq!['.'] + v@.subrange(0, n as int)));
        }
    } else {
        assert(old(s)@ + fraction_text(f as nat, w as nat) =~= old(s)@);
    }
}

proof fn lemma_small_divmod(x: nat, d: nat)
    requires
        x < d,
    ensures
        x / d == 0,
        x % d == x,
{
    vstd::arithmetic::div_mod::lemma_small_mod(x, d);
    vstd::arithmetic::div_mod::lemma_fundamental_div_mod(x as int, d as int);
    assert(x / d == 0) by (nonlinear_arith)
        requires
            x == d * (x / d) + x,
            d > 0,
    ;
}

proof fn lemma_mul_divmod(x: nat, p: nat)
    requires
        p > 0,
    ensures
        (x * p) / p == x,
        (x * p) % p == 0,
{
    vstd::arithmetic::div_mod::lemma_div_multiples_vanish(x as int, p as int);
    vstd::arithmetic::div_mod::lemma_mod_multiples_basic(x as int, p as int);
    assert(x * p == p * x) by (nonlinear_arith);
}

proof fn lemma_strip_all_zeros(n: nat)
    ensures
        strip_zeros(zeros(n)) == Seq::<char>::empty(),
    decreases n,
{
    if n > 0 {
        assert(zeros(n).drop_last() =~= zeros((n - 1) as nat));
        lemma_strip_all_zeros((n - 1) as nat);
    } else {
        assert(zeros(0) =~= Seq::<char>::empty());
    }
}

/// No fraction for a zero numerator.
proof fn lemma_fraction_zero(w: nat)
    ensures
        fraction_text(0, w) == Seq::<char>::empty(),
{
    assert(decimal_digits(0) =~= seq!['0']);
    if w >= 1 {
        assert(padded(0, w) =~= zeros(w));
        lemma_strip_all_zeros(w);
    } else {
        assert(padded(0, w) =~= seq!['0']);
        assert(seq!['0'].drop_last() =~= Seq::<char>::empty());
        assert(strip_zeros(Seq::<char>::empty()) =~= Seq::<char>::empty());
    }
}

/// Appends `n` zero digits.
fn push_zeros(s: &mut String, n: usize)
    ensures
        final(s)@ == old(s)@ + zeros(n as nat),
{
    let mut i: usize = 0;
    while i < n
        invariant
            i <= n,
            s@ == old(s)@ + zeros(i as nat),
        decreases n - i,
    {
        push_char(s, '0');
        i = i + 1;
        assert(s@ =~= old(s)@ + zeros(i as nat));
    }
}

/// Appends the digits of `a × 10^e` for a whole `e`.
fn push_shifted(s: &mut String, a: u64, e: usize)
    ensures
        final(s)@ == old(s)@ + decimal_digits(a as nat * pow10(e as nat)),
{
    push_u64(s, a);
    if a != 0 {
        push_zeros(s, e);
        proof {
            lemma_digits_shift(a as nat, e as nat);
            assert(s@ =~= old(s)@ + decimal_digits(a as nat * pow10(e as nat)));
        }
    } else {
        assert(a as nat * pow10(e as nat) == 0);
    }
}

/// The magnitude of a machine integer.
fn magnitude(m: i64) -> (a: u64)
    ensures
        a as int == if m < 0 { -m } else { m as int },
{
    if m < 0 {
        if m == i64::MIN {
            9223372036854775808u64
        } else {
            (-m) as u64
        }
    } else {
        m as u64
    }
}

/// The ten-decimal text of `±a × 10^e` (`fmtNumber` of a finite number).
pub fn fixed_text_of(neg: bool, a: u64, e: i32) -> (s: String)
    requires
        -40000 <= e <= 40000,
    ensures
        s@ == fixed_raw(neg, a as nat, e as int),
{
    proof {
        lemma_pow10_values();
    }
    let mut s = String::new();
    if neg {
        push_char(&mut s, '-');
    }
    let ghost head = s@;
    if e >= 0 {
        push_shifted(&mut s, a, e as usize);
        proof {
            let x = a as nat * pow10(e as nat);
            lemma_pow10_add(e as nat, 10);
            assert(a as nat * pow10((e + 10) as nat) == x * pow10(10)) by (nonlinear_arith)
                requires
                    x == a as nat * pow10(e as nat),
                    pow10((e + 10) as nat) == pow10(e as nat) * pow10(10),
            ;
            lemma_mul_divmod(x, pow10(10));
            lemma_fraction_zero(10);
            assert(s@ =~= fixed_raw(neg, a as nat, e as int));
        }
    } else {
        let r: u128 = if e >= -10 {
            let p = pow10_u128((e + 10) as u32);
            proof {
                lemma_pow10_mono((e + 10) as nat, 10);
                assert(a as nat * p <= 18446744073709551615 * 10000000000) by (nonlinear_arith)
                    requires
                        a <= 18446744073709551615u64,
                        p <= 10000000000,
                ;
            }
            (a as u128) * p
        } else {
            let k: i32 = -(e + 10);
            if k > 38 {
                proof {
                    lemma_pow10_mono(39, k as nat);
                    reveal_with_fuel(pow10, 2);
                    assert(pow10(39) == 10 * pow10(38));
                    lemma_small_divmod(a as nat, pow10(k as nat));
                }
                0
            } else {
                let den = pow10_u128(k as u32);
                proof {
                    lemma_pow10_pos(k as nat);
                    lemma_pow10_mono(k as nat, 38);
                }
                let q = a as u128 / den;
                let rem = a as u128 % den;
                assert(q <= a) by (nonlinear_arith)
                    requires
                        q == a as u128 / den,
                        den >= 1,
                ;
                if 2 * rem > den || (2 * rem == den && q % 2 == 1) {
                    q + 1
                } else {
                    q
                }
            }
        };
        assert(r == round_even(a as nat, e as int, 10));
        assert(r <= 18446744073709551616u128 * 10000000000u128);
        let ip = (r / 10000000000u128) as u64;
        let fp = (r % 10000000000u128) as u64;
        push_u64(&mut s, ip);
        push_fraction(&mut s, fp, 10);
        assert(s@ =~= fixed_raw(neg, a as nat, e as int));
    }
    s
}

/// The plain decimal text of `±a × 10^e` (`String(n)` of a finite number).
pub fn plain_text_of(neg: bool, a: u64, e: i32) -> (s: String)
    requires
        -40000 <= e <= 40000,
    ensures
        s@ == plain_raw(neg, a as nat, e as int),
{
    proof {
        lemma_pow10_values();
    }
    let mut s = String::new();
    if neg {
        push_char(&mut s, '-');
    }
    if e >= 0 {
        push_shifted(&mut s, a, e as usize);
        assert(s@ =~= plain_raw(neg, a as nat, e as int));
    } else {
        let w: usize = (-e) as usize;
        if w <= 19 {
            let den = pow10_u128(w as u32);
            proof {
                lemma_pow10_pos(w as nat);
                lemma_pow10_mono(w as nat, 19);
            }
            let ip = (a as u128 / den) as u64;
            let fp = (a as u128 % den) as u64;
            push_u64(&mut s, ip);
            push_fraction(&mut s, fp, w);
        } else {
            proof {
                lemma_pow10_mono(20, w as nat);
                lemma_small_divmod(a as nat, pow10(w as nat));
            }
            push_u64(&mut s, 0);
            push_fraction(&mut s, a, w);
        }
        assert(s@ =~= plain_raw(neg, a as nat, e as int));
    }
    s
}

impl Decimal {
    /// The ten-decimal text (`fmtNumber`).
    pub fn fixed_text(&self) -> (s: String)
        ensures
            s@ == self.fixed(),
    {
        fixed_text_of(self.mantissa < 0, magnitude(self.mantissa), self.exponent as i32)
    }

    /// The plain decimal text (`String(n)`).
    pub fn plain_text(&self) -> (s: String)
        ensures
            s@ == self.plain(),
    {
        plain_text_of(self.mantissa < 0, magnitude(self.mantissa), self.exponent as i32)
    }
}

/// `x` held to the `i64` range, as a float-to-integer `as` conversion does.
pub open spec fn saturate(x: int) -> int {
    if x > i64::MAX {
        i64::MAX as int
    } else if x < i64::MIN {
        i64::MIN as int
    } else {
        x
    }
}

/// The largest whole number not above `±a × 10^e`.
pub open spec fn floor_raw(neg: bool, a: nat, e: int) -> int {
    let t = shift(a, e, 0);
    if !neg {
        t.0 as int
    } else {
        -(t.0 + if t.1 > 0 { 1int } else { 0int })
    }
}

/// One colour channel byte of a fraction `x`: `round(x × 255) as i64 & 0xff` (ties away from
/// zero, saturating, then the low byte of the two's complement).
pub open spec fn channel_raw(neg: bool, a: nat, e: int) -> int {
    let v = round_away(a * 255, e, 0) as int;
    saturate(if neg { -v } else { v }) % 256
}

/// A percentage as a probability: `±a × 10^e` held to `0..=100`, divided by 100, in the
/// ten-decimal text.
pub open spec fn percent_raw(neg: bool, a: nat, e: int) -> Seq<char> {
    let t = shift(a, e, 0);
    if neg && a > 0 {
        seq!['0']
    } else if t.0 > 100 || (t.0 == 100 && t.1 > 0) {
        seq!['1']
    } else {
        fixed_raw(false, a, e - 2)
    }
}

impl Decimal {
    /// `floor(n) as i64`.
    pub open spec fn floor_int(self) -> int {
        saturate(floor_raw(self.neg(), self.mag(), self.exponent as int))
    }

    /// The colour channel byte of the number taken as a fraction of 255.
    pub open spec fn channel(self) -> int {
        channel_raw(self.neg(), self.mag(), self.exponent as int)
    }

    /// The percentage as probability text.
    pub open spec fn percent(self) -> Seq<char> {
        percent_raw(self.neg(), self.mag(), self.exponent as int)
    }

    /// `floor(n) as i64`.
    pub fn floor_i64(&self) -> (r: i64)
        ensures
            r == self.floor_int(),
    {
        proof {
            lemma_pow10_values();
        }
        let neg = self.mantissa < 0;
        let a = magnitude(self.mantissa) as u128;
        let e = self.exponent as i32;
        if e >= 0 {
            if a == 0 {
                assert(0 * pow10(e as nat) == 0);
                return 0;
            }
            if e > 19 {
                proof {
                    lemma_pow10_mono(20, e as nat);
                    assert(a * pow10(e as nat) >= pow10(20)) by (nonlinear_arith)
                        requires
                            a >= 1,
                            pow10(e as nat) >= pow10(20),
                    ;
                }
                return if neg { i64::MIN } else { i64::MAX };
            }
            let p = pow10_u128(e as u32);
            proof {
                lemma_pow10_mono(e as nat, 19);
                assert(a * p <= 18446744073709551616u128 * 10000000000000000000u128) by (nonlinear_arith)
                    requires
                        a <= 18446744073709551616u128,
                        p <= 10000000000000000000u128,
                ;
            }
            let v = a * p;
            if !neg {
                if v > 9223372036854775807u128 { i64::MAX } else { v as i64 }
            } else {
                if v >= 9223372036854775808u128 { i64::MIN } else { -(v as i64) }
            }
        } else {
            let w: i32 = -e;
            let (q, r): (u128, u128) = if w > 38 {
                proof {
                    lemma_pow10_mono(39, w as nat);
                    reveal_with_fuel(pow10, 2);
                    lemma_small_divmod(a as nat, pow10(w as nat));
                }
                (0, a)
            } else {
                let den = pow10_u128(w as u32);
                proof {
                    lemma_pow10_pos(w as nat);
                }
                assert(a / den <= a) by (nonlinear_arith)
                    requires
                        den >= 1,
                ;
                (a / den, a % den)
            };
            if !neg {
                if q > 9223372036854775807u128 { i64::MAX } else { q as i64 }
            } else {
                let c: u128 = if r > 0 { q + 1 } else { q };
                if c >= 9223372036854775808u128 { i64::MIN } else { -(c as i64) }
            }
        }
    }

    /// `round(n) as i64`: the nearest whole number, ties away from zero, held to the `i64`
    /// range.
    pub open spec fn round_int(self) -> int {
        let v = round_away(self.mag(), self.exponent as int, 0) as int;
        saturate(if self.neg() { -v } else { v })
    }

    /// `round(n) as i64` (see `round_int`).
    pub fn round_i64(&self) -> (r: i64)
        ensures
            r == self.round_int(),
    {
        proof {
            lemma_pow10_values();
        }
        let neg = self.mantissa < 0;
        let a = magnitude(self.mantissa) as u128;
        let e = self.exponent as i32;
        let v: u128 = if e >= 0 {
            if a == 0 {
                assert(0 * pow10(e as nat) == 0);
                0
            } else if e > 19 {
                proof {
                    lemma_pow10_mono(20, e as nat);
                    assert(a * pow10(e as nat) >= pow10(20)) by (nonlinear_arith)
                        requires
                            a >= 1,
                            pow10(e as nat) >= pow10(20),
                    ;
                }
                return if neg { i64::MIN } else { i64::MAX };
            } else {
                let p = pow10_u128(e as u32);
                proof {
                    lemma_pow10_mono(e as nat, 19);
                    assert(a * p <= 18446744073709551616u128 * 10000000000000000000u128) by (nonlinear_arith)
                        requires
                            a <= 18446744073709551616u128,
                            p <= 10000000000000000000u128,
                    ;
                }
                a * p
            }
        } else {
            let w: i32 = -e;
            if w > 38 {
                proof {
                    lemma_pow10_mono(39, w as nat);
                    reveal_with_fuel(pow10, 2);
                    lemma_small_divmod(a as nat, pow10(w as nat));
                    assert(2 * a < pow10(w as nat));
                }
                0
            } else {
                let den = pow10_u128(w as u32);
                proof {
                    lemma_pow10_pos(w as nat);
                    lemma_pow10_mono(w as nat, 38);
                }
                assert(a / den <= a) by (nonlinear_arith)
                    requires
                        den >= 1,
                ;
                assert(a % den < den) by (nonlinear_arith)
                    requires
                        den >= 1,
                ;
                let q = a / den;
                let r = a % den;
                if 2 * r >= den { q + 1 } else { q }
            }
        };
        assert(v == round_away(a as nat, e as int, 0));
        if !neg {
            if v > 9223372036854775807u128 { i64::MAX } else { v as i64 }
        } else {
            if v >= 9223372036854775808u128 { i64::MIN } else { -(v as i64) }
        }
    }

    /// The colour channel byte of the number taken as a fraction of 255.
    pub fn channel_byte(&self) -> (c: u8)
        ensures
            c as int == self.channel(),
    {
        proof {
            lemma_pow10_values();
        }
        let neg = self.mantissa < 0;
        let a = magnitude(self.mantissa) as u128 * 255;
        let e = self.exponent as i32;
        let v: u128 = if e >= 0 {
            if a == 0 {
                assert(0 * pow10(e as nat) == 0);
                0
            } else if e > 16 {
                proof {
                    lemma_pow10_mono(17, e as nat);
                    reveal_with_fuel(pow10, 3);
                    lemma_pow10_add(17, 2);
                    assert(a * pow10(e as nat) >= 255 * pow10(17)) by (nonlinear_arith)
                        requires
                            a >= 255,
                            pow10(e as nat) >= pow10(17),
                    ;
                }
                return if neg { 0 } else { 255 };
            } else {
                let p = pow10_u128(e as u32);
                proof {
                    lemma_pow10_mono(e as nat, 16);
                    assert(a * p <= 4703919738795935662080u128 * 10000000000000000u128) by (nonlinear_arith)
                        requires
                            a <= 4703919738795935662080u128,
                            p <= 10000000000000000u128,
                    ;
                }
                a * p
            }
        } else {
            let w: i32 = -e;
            if w > 22 {
                proof {
                    lemma_pow10_mono(23, w as nat);
                    lemma_pow10_add(20, 3);
                    reveal_with_fuel(pow10, 4);
                    lemma_small_divmod(a as nat, pow10(w as nat));
                }
                0
            } else {
                let den = pow10_u128(w as u32);
                proof {
                    lemma_pow10_pos(w as nat);
                    lemma_pow10_mono(w as nat, 22);
                }
                assert(a / den <= a) by (nonlinear_arith)
                    requires
                        den >= 1,
                ;
                let q = a / den;
                let r = a % den;
                if 2 * r >= den { q + 1 } else { q }
            }
        };
        assert(v == round_away(a as nat, e as int, 0));
        if !neg {
            let x: u128 = if v > 9223372036854775807u128 { 9223372036854775807u128 } else { v };
            (x % 256) as u8
        } else {
            if v >= 9223372036854775808u128 {
                0
            } else {
                let r = v % 256;
                assert((-(v as int)) % 256 == (256 - r) % 256);
                ((256 - r) % 256) as u8
            }
        }
    }

    /// The percentage as probability text: held to `0..=100`, divided by 100, ten decimals.
    pub fn percent_text(&self) -> (s: String)
        ensures
            s@ == self.percent(),
    {
        proof {
            lemma_pow10_values();
        }
        let neg = self.mantissa < 0;
        let a = magnitude(self.mantissa);
        let e = self.exponent as i32;
        if neg && a > 0 {
            let mut s = String::new();
            push_str(&mut s, "0");
            proof {
                reveal_strlit("0");
            }
            return s;
        }
        let above = exceeds_hundred(a, e);
        if above {
            let mut s = String::new();
            push_str(&mut s, "1");
            proof {
                reveal_strlit("1");
            }
            s
        } else {
            fixed_text_of(false, a, e - 2)
        }
    }
}

/// `±a × 10^e` is above 100 (`a × 10^e` compared exactly).
pub open spec fn above_hundred(a: nat, e: int) -> bool {
    let t = shift(a, e, 0);
    t.0 > 100 || (t.0 == 100 && t.1 > 0)
}

/// A percentage as an alpha byte: held to `0..=100`, scaled to `0..=255` and rounded, ties
/// away from zero.
pub open spec fn alpha_raw(neg: bool, a: nat, e: int) -> int {
    if neg && a > 0 {
        0
    } else if above_hundred(a, e) {
        255
    } else {
        round_away(a * 255, e - 2, 0) as int
    }
}

fn exceeds_hundred(a: u64, e: i32) -> (b: bool)
    requires
        i16::MIN <= e <= i16::MAX,
    ensures
        b == above_hundred(a as nat, e as int),
{
    proof {
        lemma_pow10_values();
    }
    if e >= 0 {
        if a == 0 {
            assert(0 * pow10(e as nat) == 0);
            false
        } else if e > 2 {
            proof {
                lemma_pow10_mono(3, e as nat);
                reveal_with_fuel(pow10, 4);
                assert(a as nat * pow10(e as nat) >= 1000) by (nonlinear_arith)
                    requires
                        a >= 1,
                        pow10(e as nat) >= 1000,
                ;
            }
            true
        } else {
            let p = pow10_u128(e as u32);
            proof {
                lemma_pow10_mono(e as nat, 2);
                reveal_with_fuel(pow10, 3);
                assert(a as u128 * p <= 18446744073709551616u128 * 100) by (nonlinear_arith)
                    requires
                        a <= 18446744073709551616u128,
                        p <= 100,
                ;
            }
            a as u128 * p > 100
        }
    } else {
        let w: i32 = -e;
        if w > 38 {
            proof {
                lemma_pow10_mono(39, w as nat);
                reveal_with_fuel(pow10, 2);
                lemma_small_divmod(a as nat, pow10(w as nat));
            }
            false
        } else {
            let den = pow10_u128(w as u32);
            proof {
                lemma_pow10_pos(w as nat);
            }
            let q = a as u128 / den;
            let r = a as u128 % den;
            q > 100 || (q == 100 && r > 0)
        }
    }
}

/// Below the clamp, a percentage `a × 10^e` scaled to 255 stays within a byte.
proof fn lemma_alpha_bound(a: nat, e: int)
    requires
        e < 2,
        !above_hundred(a, e),
    ensures
        round_away(a * 255, e - 2, 0) <= 255,
{
    let d = pow10((2 - e) as nat);
    lemma_pow10_pos((2 - e) as nat);
    if e >= 0 {
        lemma_pow10_add((2 - e) as nat, e as nat);
        reveal_with_fuel(pow10, 3);
        assert(pow10(2) == 100);
        lemma_pow10_pos(e as nat);
        let p = pow10(e as nat);
        assert(a * p <= 100);
        assert(d * p == 100);
        assert(a <= d) by (nonlinear_arith)
            requires
                a * p <= 100,
                d * p == 100,
                p >= 1,
        ;
    } else {
        let pp = pow10((-e) as nat);
        lemma_pow10_pos((-e) as nat);
        lemma_pow10_add(2, (-e) as nat);
        reveal_with_fuel(pow10, 3);
        assert(pow10(2) == 100);
        assert(d == 100 * pp);
        let q = a / pp;
        let r = a % pp;
        assert(a == pp * q + r && 0 <= r < pp) by (nonlinear_arith)
            requires
                pp >= 1,
                q == a / pp,
                r == a % pp,
        ;
        assert(q < 100 || (q == 100 && r == 0));
        assert(a <= d) by (nonlinear_arith)
            requires
                a == pp * q + r,
                0 <= r < pp,
                q < 100 || (q == 100 && r == 0),
                d == 100 * pp,
        ;
    }
    let x = a * 255;
    let q2 = x / d;
    let r2 = x % d;
    assert(x == d * q2 + r2 && 0 <= r2 < d) by (nonlinear_arith)
        requires
            d >= 1,
            q2 == x / d,
            r2 == x % d,
    ;
    assert(q2 <= 255 && (q2 == 255 ==> r2 == 0)) by (nonlinear_arith)
        requires
            x == d * q2 + r2,
            0 <= r2 < d,
            x == a * 255,
            a <= d,
    ;
}

impl Decimal {
    /// The number as a percentage taken to an alpha byte (see `alpha_raw`).
    pub open spec fn alpha(self) -> int {
        alpha_raw(self.neg(), self.mag(), self.exponent as int)
    }

    /// The number as a percentage taken to an alpha byte: `round(clamp(n, 0, 100) / 100 × 255)`.
    pub fn alpha_byte(&self) -> (c: u8)
        ensures
            c as int == self.alpha(),
    {
        proof {
            lemma_pow10_values();
        }
        let neg = self.mantissa < 0;
        let a = magnitude(self.mantissa);
        let e = self.exponent as i32;
        if neg && a > 0 {
            return 0;
        }
        if exceeds_hundred(a, e) {
            return 255;
        }
        if a == 0 {
            proof {
                let t = shift(0, e - 2, 0);
                if e - 2 >= 0 {
                    assert(0 * pow10((e - 2) as nat) == 0);
                } else {
                    lemma_pow10_pos((2 - e) as nat);
                    lemma_small_divmod(0, pow10((2 - e) as nat));
                }
            }
            return 0;
        }
        if e >= 2 {
            proof {
                if e > 2 {
                    lemma_pow10_mono(3, e as nat);
                    reveal_with_fuel(pow10, 4);
                    assert(a as nat * pow10(e as nat) >= 1000) by (nonlinear_arith)
                        requires
                            a >= 1,
                            pow10(e as nat) >= 1000,
                    ;
                }
                reveal_with_fuel(pow10, 3);
                assert(e == 2);
                assert(pow10(2) == 100);
                assert(a as nat * 100 <= 100);
                assert(a == 1);
                assert(pow10(0) == 1);
                assert(255nat * 1 == 255);
            }
            return 255;
        }
        let w: i32 = 2 - e;
        let a2: u128 = a as u128 * 255;
        proof {
            lemma_alpha_bound(a as nat, e as int);
        }
        if w > 22 {
            proof {
                lemma_pow10_mono(23, w as nat);
                lemma_pow10_add(20, 3);
                reveal_with_fuel(pow10, 4);
                lemma_small_divmod(a2 as nat, pow10(w as nat));
            }
            return 0;
        }
        let den = pow10_u128(w as u32);
        proof {
            lemma_pow10_pos(w as nat);
            lemma_pow10_mono(w as nat, 22);
        }
        assert(a2 / den <= a2) by (nonlinear_arith)
            requires
                den >= 1,
        ;
        assert(a2 % den < den) by (nonlinear_arith)
            requires
                den >= 1,
        ;
        let q = a2 / den;
        let r = a2 % den;
        let v = if 2 * r >= den { q + 1 } else { q };
        assert(v == round_away(a2 as nat, e as int - 2, 0));
        v as u8
    }
}

/// What a numeric string stands for (`str::parse::<f64>`): a finite number, an infinity, or
/// not-a-number.
#[derive(Clone, Copy, Debug)]
pub enum NumberText {
    Finite(Decimal),
    Infinite(bool),
    NotANumber,
}

/// The number of consecutive decimal digits of `s` from index `i`.
pub open spec fn digit_run(s: Seq<char>, i: int) -> nat
    decreases s.len() - i,
{
    if 0 <= i < s.len() && is_digit(s[i]) {
        1 + digit_run(s, i + 1)
    } else {
        0
    }
}

/// `s` without its leading `0` characters.
pub open spec fn strip_leading_zeros(s: Seq<char>) -> Seq<char>
    decreases s.len(),
{
    if s.len() > 0 && s[0] == '0' {
        strip_leading_zeros(s.drop_first())
    } else {
        s
    }
}

/// The first 18 characters of `s` (all of them when it is shorter).
pub open spec fn kept(s: Seq<char>) -> Seq<char> {
    s.subrange(0, if s.len() > 18 { 18 } else { s.len() as int })
}

/// The number `±0.digits × 10^(digits.len() + e)`, that is `±digits × 10^e`, kept to its first
/// 18 significant digits (the rest are dropped); past `10^309` it is an infinity, below
/// `10^-330` it is zero.
pub open spec fn decimal_of(neg: bool, digits: Seq<char>, e: int) -> NumberText {
    let sig = strip_leading_zeros(digits);
    if sig.len() == 0 {
        NumberText::Finite(Decimal { mantissa: 0, exponent: 0 })
    } else {
        let top = sig.len() + e;
        if top > 309 {
            NumberText::Infinite(neg)
        } else if top < -330 {
            NumberText::Finite(Decimal { mantissa: 0, exponent: 0 })
        } else {
            let m = digits_value(kept(sig));
            NumberText::Finite(
                Decimal {
                    mantissa: (if neg { -m } else { m }) as i64,
                    exponent: (e + sig.len() - kept(sig).len()) as i16,
                },
            )
        }
    }
}

/// The mantissa of a float literal: its digits (before and after an optional `.`, at least one
/// in all), how many of them follow the point, and where the mantissa ends.
pub open spec fn mantissa_part(body: Seq<char>) -> Option<(Seq<char>, int, int)> {
    let a: int = digit_run(body, 0) as int;
    let has_dot = a < body.len() && body[a] == '.';
    let fs: int = if has_dot { a + 1 } else { a };
    let b: int = if has_dot { digit_run(body, a + 1) as int } else { 0 };
    let m_end: int = fs + b;
    if a + b == 0 {
        None
    } else {
        Some((body.subrange(0, a) + body.subrange(fs, m_end), b, m_end))
    }
}

/// The exponent after the mantissa: 0 when the text ends there, else `e` or `E`, an optional
/// sign and digits up to the end.
pub open spec fn exponent_part(body: Seq<char>, m_end: int) -> Option<int> {
    if m_end == body.len() {
        Some(0)
    } else if body[m_end] == 'e' || body[m_end] == 'E' {
        let es = m_end + 1;
        let signed = es < body.len() && (body[es] == '-' || body[es] == '+');
        let ds = if signed { es + 1 } else { es };
        let c: int = digit_run(body, ds) as int;
        if c > 0 && ds + c == body.len() {
            let ev = digits_value(body.subrange(ds, body.len() as int));
            Some(if signed && body[es] == '-' { -ev } else { ev })
        } else {
            None
        }
    } else {
        None
    }
}

/// The unsigned part of a float literal: a mantissa and an optional exponent, nothing else.
pub open spec fn decimal_body(neg: bool, body: Seq<char>) -> Option<NumberText> {
    match mantissa_part(body) {
        None => None,
        Some(mp) => match exponent_part(body, mp.2) {
            None => None,
            Some(x) => Some(decimal_of(neg, mp.0, x - mp.1)),
        },
    }
}

/// `str::parse::<f64>`: an optional sign, then `inf`, `infinity` or `nan` in any case, or a
/// decimal literal; `None` when the text is none of these.
pub open spec fn parse_number_spec(t: Seq<char>) -> Option<NumberText> {
    let signed = t.len() > 0 && (t[0] == '-' || t[0] == '+');
    let neg = signed && t[0] == '-';
    let body = if signed { t.drop_first() } else { t };
    if eq_ignore_case(body, "inf"@) || eq_ignore_case(body, "infinity"@) {
        Some(NumberText::Infinite(neg))
    } else if eq_ignore_case(body, "nan"@) {
        Some(NumberText::NotANumber)
    } else {
        decimal_body(neg, body)
    }
}

proof fn lemma_strip_push(p: Seq<char>, c: char)
    ensures
        strip_leading_zeros(p.push(c)) == if strip_leading_zeros(p).len() == 0 && c == '0' {
            Seq::<char>::empty()
        } else {
            strip_leading_zeros(p).push(c)
        },
    decreases p.len(),
{
    if p.len() == 0 {
        assert(p.push(c) =~= seq![c]);
        assert(seq![c].drop_first() =~= Seq::<char>::empty());
        assert(strip_leading_zeros(p) == p);
        if c == '0' {
            assert(strip_leading_zeros(seq![c]) == strip_leading_zeros(Seq::<char>::empty()));
        } else {
            assert(strip_leading_zeros(seq![c]) == seq![c]);
        }
        assert(p.push(c) =~= strip_leading_zeros(p).push(c));
    } else if p[0] == '0' {
        assert(p.push(c)[0] == '0');
        assert(p.push(c).drop_first() =~= p.drop_first().push(c));
        lemma_strip_push(p.drop_first(), c);
        assert(strip_leading_zeros(p) == strip_leading_zeros(p.drop_first()));
        assert(strip_leading_zeros(p.push(c)) == strip_leading_zeros(p.push(c).drop_first()));
    } else {
        assert(p.push(c)[0] == p[0]);
        assert(strip_leading_zeros(p) == p);
        assert(strip_leading_zeros(p.push(c)) == p.push(c));
    }
}

proof fn lemma_digits_value_push(s: Seq<char>, c: char)
    ensures
        digits_value(s.push(c)) == digits_value(s) * 10 + (c as int - 48),
{
    assert(s.push(c).drop_last() =~= s);
}

proof fn lemma_digits_value_bound(s: Seq<char>)
    requires
        forall|i: int| 0 <= i < s.len() ==> is_digit(#[trigger] s[i]),
    ensures
        0 <= digits_value(s) < pow10(s.len()),
    decreases s.len(),
{
    if s.len() > 0 {
        let t = s.drop_last();
        assert forall|i: int| 0 <= i < t.len() implies is_digit(#[trigger] t[i]) by {
            assert(t[i] == s[i]);
        }
        lemma_digits_value_bound(t);
        assert(is_digit(s[s.len() - 1]));
        let d = digits_value(t);
        let p = pow10(t.len());
        assert(d * 10 + 9 < 10 * p) by (nonlinear_arith)
            requires
                d < p,
        ;
    }
}

/// The significant-digit state after the digits `p`: how many significant digits, and the
/// value of the first 18 of them.
pub open spec fn digit_state(p: Seq<char>) -> (nat, nat) {
    let sig = strip_leading_zeros(p);
    (sig.len(), digits_value(kept(sig)) as nat)
}

proof fn lemma_strip_digits(p: Seq<char>)
    requires
        forall|i: int| 0 <= i < p.len() ==> is_digit(#[trigger] p[i]),
    ensures
        forall|i: int| 0 <= i < strip_leading_zeros(p).len() ==> is_digit(#[trigger] strip_leading_zeros(p)[i]),
        strip_leading_zeros(p).len() <= p.len(),
    decreases p.len(),
{
    if p.len() > 0 && p[0] == '0' {
        let t = p.drop_first();
        assert forall|i: int| 0 <= i < t.len() implies is_digit(#[trigger] t[i]) by {
            assert(t[i] == p[i + 1]);
        }
        lemma_strip_digits(t);
    }
}

proof fn lemma_state_bound(p: Seq<char>)
    requires
        forall|i: int| 0 <= i < p.len() ==> is_digit(#[trigger] p[i]),
    ensures
        digit_state(p).1 < 1000000000000000000,
        digit_state(p).0 <= p.len(),
        0 <= digits_value(kept(strip_leading_zeros(p))),
{
    lemma_strip_digits(p);
    let sig = strip_leading_zeros(p);
    let k = kept(sig);
    assert forall|i: int| 0 <= i < k.len() implies is_digit(#[trigger] k[i]) by {
        assert(k[i] == sig[i]);
    }
    lemma_digits_value_bound(k);
    lemma_pow10_mono(k.len(), 18);
    reveal_with_fuel(pow10, 19);
}

/// One more digit into the significant-digit state.
fn take_digit(count: u128, value: u64, c: char, Ghost(p): Ghost<Seq<char>>) -> (r: (u128, u64))
    requires
        is_digit(c),
        forall|i: int| 0 <= i < p.len() ==> is_digit(#[trigger] p[i]),
        (count as nat, value as nat) == digit_state(p),
        p.len() < u128::MAX,
    ensures
        (r.0 as nat, r.1 as nat) == digit_state(p.push(c)),
{
    proof {
        lemma_strip_push(p, c);
        lemma_strip_digits(p);
    }
    let ghost sig = strip_leading_zeros(p);
    if count == 0 && c == '0' {
        return (0, 0);
    }
    proof {
        assert(strip_leading_zeros(p.push(c)) == sig.push(c));
    }
    if count < 18 {
        proof {
            assert(kept(sig) =~= sig);
            assert(kept(sig.push(c)) =~= sig.push(c));
            lemma_digits_value_push(sig, c);
            lemma_digits_value_bound(sig);
            lemma_pow10_mono(sig.len(), 17);
            reveal_with_fuel(pow10, 18);
        }
        let d = (c as u32 - 48) as u64;
        (count + 1, value * 10 + d)
    } else {
        assert(kept(sig.push(c)) =~= kept(sig));
        (count + 1, value)
    }
}

/// `str::parse::<f64>` of a (trimmed) text.
pub fn parse_number(t: &str) -> (r: Option<NumberText>)
    ensures
        r == parse_number_spec(t@),
{
    let v = chars_of(t);
    let n = v.len();
    let signed = n > 0 && (v[0] == '-' || v[0] == '+');
    let neg = signed && v[0] == '-';
    let start: usize = if signed { 1 } else { 0 };
    let mut body = String::new();
    push_range(&mut body, &v, start, n);
    let ghost bs = if signed { t@.drop_first() } else { t@ };
    assert(body@ =~= bs);
    if eq_ignore_ascii_case(body.as_str(), "inf") || eq_ignore_ascii_case(body.as_str(), "infinity") {
        return Some(NumberText::Infinite(neg));
    }
    if eq_ignore_ascii_case(body.as_str(), "nan") {
        return Some(NumberText::NotANumber);
    }
    let bv = chars_of(body.as_str());
    parse_decimal_body(neg, &bv)
}

fn is_digit_char(c: char) -> (b: bool)
    ensures
        b == is_digit(c),
{
    '0' <= c && c <= '9'
}

/// The index just past the run of digits of `v` that starts at `i`.
fn skip_digits(v: &Vec<char>, i: usize) -> (j: usize)
    requires
        i <= v@.len(),
    ensures
        i <= j <= v@.len(),
        j - i == digit_run(v@, i as int),
        forall|k: int| i <= k < j ==> is_digit(#[trigger] v@[k]),
{
    let mut j = i;
    while j < v.len() && is_digit_char(v[j])
        invariant
            i <= j <= v@.len(),
            digit_run(v@, i as int) == (j - i) + digit_run(v@, j as int),
            forall|k: int| i <= k < j ==> is_digit(#[trigger] v@[k]),
        decreases v@.len() - j,
    {
        j = j + 1;
    }
    j
}

/// The significant-digit state after the digits `v[from..to]`, continuing from that of `p`.
fn take_digits(v: &Vec<char>, from: usize, to: usize, state: (u128, u64), Ghost(p): Ghost<Seq<char>>) -> (r: (
    u128,
    u64,
))
    requires
        from <= to <= v@.len(),
        forall|k: int| from <= k < to ==> is_digit(#[trigger] v@[k]),
        forall|i: int| 0 <= i < p.len() ==> is_digit(#[trigger] p[i]),
        (state.0 as nat, state.1 as nat) == digit_state(p),
        p.len() <= usize::MAX,
    ensures
        (r.0 as nat, r.1 as nat) == digit_state(p + v@.subrange(from as int, to as int)),
{
    let mut st = state;
    let mut i = from;
    assert(p + v@.subrange(from as int, from as int) =~= p);
    while i < to
        invariant
            from <= i <= to <= v@.len(),
            forall|k: int| from <= k < to ==> is_digit(#[trigger] v@[k]),
            forall|k: int| 0 <= k < p.len() ==> is_digit(#[trigger] p[k]),
            (st.0 as nat, st.1 as nat) == digit_state(p + v@.subrange(from as int, i as int)),
            p.len() <= usize::MAX,
        decreases to - i,
    {
        let ghost q = p + v@.subrange(from as int, i as int);
        proof {
            assert forall|k: int| 0 <= k < q.len() implies is_digit(#[trigger] q[k]) by {
                if k < p.len() {
                    assert(q[k] == p[k]);
                } else {
                    assert(q[k] == v@[from + (k - p.len())]);
                }
            }
        }
        let r = take_digit(st.0, st.1, v[i], Ghost(q));
        st = r;
        proof {
            assert(q.push(v@[i as int]) =~= p + v@.subrange(from as int, i + 1));
        }
        i = i + 1;
    }
    st
}

/// The exponent bound past which every finite text is an infinity or zero.
pub open spec fn exp_cap() -> int {
    1000000000000000000000000000000
}

/// `y` is `x`, or past the cap on the same side when `x` is.
pub open spec fn capped(x: int, y: int) -> bool {
    &&& (-exp_cap() < x < exp_cap() ==> y == x)
    &&& (x >= exp_cap() ==> exp_cap() <= y < 11 * exp_cap())
    &&& (x <= -exp_cap() ==> -11 * exp_cap() < y <= -exp_cap())
}

/// The mantissa: its significant-digit state, the number of fraction digits and its end.
fn mantissa_scan(v: &Vec<char>) -> (r: Option<(u128, u64, usize, usize)>)
    ensures
        match mantissa_part(v@) {
            None => r is None,
            Some(mp) => r matches Some(q) && q.2 == mp.1 && q.3 == mp.2 && (q.0 as nat, q.1 as nat) == digit_state(
                mp.0,
            ) && q.0 <= v@.len() && q.3 <= v@.len() && q.1 < 1000000000000000000 && (forall|k: int|
                0 <= k < mp.0.len() ==> is_digit(#[trigger] mp.0[k])),
        },
{
    let n = v.len();
    let a = skip_digits(v, 0);
    let has_dot = a < n && v[a] == '.';
    let fs: usize = if has_dot { a + 1 } else { a };
    let m_end: usize = if has_dot { skip_digits(v, a + 1) } else { a };
    let b: usize = m_end - fs;
    if a == 0 && b == 0 {
        return None;
    }
    proof {
        assert(strip_leading_zeros(Seq::<char>::empty()) =~= Seq::<char>::empty());
        assert(kept(Seq::<char>::empty()) =~= Seq::<char>::empty());
    }
    let st0 = take_digits(v, 0, a, (0, 0), Ghost(Seq::<char>::empty()));
    proof {
        assert(Seq::<char>::empty() + v@.subrange(0, a as int) =~= v@.subrange(0, a as int));
    }
    let st = take_digits(v, fs, m_end, st0, Ghost(v@.subrange(0, a as int)));
    proof {
        let d = v@.subrange(0, a as int) + v@.subrange(fs as int, m_end as int);
        assert forall|k: int| 0 <= k < d.len() implies is_digit(#[trigger] d[k]) by {
            if k < a {
                assert(d[k] == v@[k]);
            } else {
                assert(d[k] == v@[fs + (k - a)]);
            }
        }
        lemma_state_bound(d);
    }
    Some((st.0, st.1, b, m_end))
}

/// The exponent, held past the cap.
fn exponent_scan(v: &Vec<char>, m_end: usize) -> (r: Option<i128>)
    requires
        m_end <= v@.len(),
    ensures
        match exponent_part(v@, m_end as int) {
            None => r is None,
            Some(x) => r matches Some(y) && capped(x, y as int),
        },
{
    let n = v.len();
    if m_end == n {
        return Some(0);
    }
    if v[m_end] != 'e' && v[m_end] != 'E' {
        return None;
    }
    let es = m_end + 1;
    let signed = es < n && (v[es] == '-' || v[es] == '+');
    let eneg = signed && v[es] == '-';
    let ds: usize = if signed { es + 1 } else { es };
    let de = skip_digits(v, ds);
    if de == ds || de != n {
        return None;
    }
    let mut ev: u128 = 0;
    let mut i = ds;
    assert(v@.subrange(ds as int, ds as int) =~= Seq::<char>::empty());
    while i < de
        invariant
            ds <= i <= de <= v@.len(),
            forall|k: int| ds <= k < de ==> is_digit(#[trigger] v@[k]),
            digits_value(v@.subrange(ds as int, i as int)) >= 0,
            digits_value(v@.subrange(ds as int, i as int)) < exp_cap() ==> ev == digits_value(
                v@.subrange(ds as int, i as int),
            ),
            digits_value(v@.subrange(ds as int, i as int)) >= exp_cap() ==> ev >= exp_cap(),
            ev < 10 * exp_cap() + 10,
        decreases de - i,
    {
        let c = v[i];
        proof {
            lemma_digits_value_push(v@.subrange(ds as int, i as int), c);
            assert(v@.subrange(ds as int, i as int).push(c) =~= v@.subrange(ds as int, i + 1));
            assert(is_digit(c));
        }
        if ev < 1000000000000000000000000000000u128 {
            ev = ev * 10 + (c as u32 - 48) as u128;
        }
        i = i + 1;
    }
    if eneg {
        Some(-(ev as i128))
    } else {
        Some(ev as i128)
    }
}

/// The number from its significant-digit state and exponent.
fn finish(neg: bool, count: u128, value: u64, e: i128, b: usize, Ghost(digits): Ghost<Seq<char>>, Ghost(x): Ghost<int>) -> (r:
    NumberText)
    requires
        (count as nat, value as nat) == digit_state(digits),
        forall|k: int| 0 <= k < digits.len() ==> is_digit(#[trigger] digits[k]),
        value < 1000000000000000000,
        count <= usize::MAX,
        capped(x, e as int),
    ensures
        r == decimal_of(neg, digits, x - b),
{
    let ghost sig = strip_leading_zeros(digits);
    proof {
        lemma_state_bound(digits);
    }
    if count == 0 {
        return NumberText::Finite(Decimal { mantissa: 0, exponent: 0 });
    }
    assert(b as int <= usize::MAX);
    let top: i128 = count as i128 + e - b as i128;
    proof {
        let exact = sig.len() + (x - b);
        if x >= exp_cap() {
            assert(exact > 309);
            assert(top > 309);
        } else if x <= -exp_cap() {
            assert(exact < -330);
            assert(top < -330);
        } else {
            assert(top == exact);
        }
    }
    if top > 309 {
        return NumberText::Infinite(neg);
    }
    if top < -330 {
        return NumberText::Finite(Decimal { mantissa: 0, exponent: 0 });
    }
    let kept_len: u128 = if count > 18 { 18 } else { count };
    let m: i64 = value as i64;
    let ex: i128 = e - b as i128 + (count - kept_len) as i128;
    assert(kept(sig).len() == kept_len);
    assert(e == x);
    assert(ex == x - b + sig.len() - kept(sig).len());
    assert(m == digits_value(kept(sig)));
    assert(-348 <= ex <= 309);
    let r = NumberText::Finite(Decimal { mantissa: if neg { -m } else { m }, exponent: ex as i16 });
    assert(sig.len() > 0);
    assert(r == decimal_of(neg, digits, x - b));
    r
}

/// The unsigned part of a float literal.
fn parse_decimal_body(neg: bool, v: &Vec<char>) -> (r: Option<NumberText>)
    ensures
        r == decimal_body(neg, v@),
{
    match mantissa_scan(v) {
        None => None,
        Some(q) => {
            let ghost mp = mantissa_part(v@).unwrap();
            match exponent_scan(v, q.3) {
                None => None,
                Some(e) => {
                    let ghost x = exponent_part(v@, q.3 as int).unwrap();
                    assert(v@.len() == v.len());
                    Some(finish(neg, q.0, q.1, e, q.2, Ghost(mp.0), Ghost(x)))
                },
            }
        },
    }
}

} // verus!
