//! Fixed-point decimal numbers.
//!
//! Coordinates travel on the wire as decimal strings.  This module renders
//! and parses them against a 64-bit fixed-point representation with nine
//! decimal places: a value `v` stands for the real number `v / 10^9`.

use vstd::prelude::*;

verus! {

/// The denominator of the fixed-point representation: `10^9`.
pub const SCALE: i64 = 1_000_000_000;

/// `10^n`.
pub open spec fn pow10(n: nat) -> int
    decreases n,
{
    if n == 0 {
        1
    } else {
        10 * pow10((n - 1) as nat)
    }
}

proof fn lemma_pow10_9()
    ensures
        pow10(9) == 1_000_000_000,
{
    reveal_with_fuel(pow10, 11);
}

proof fn lemma_pow10_20()
    ensures
        pow10(20) == 0x56bc75e2d63100000,
{
    reveal_with_fuel(pow10, 22);
}

proof fn lemma_pow10_le(m: nat, n: nat)
    requires
        m <= n,
    ensures
        pow10(m) <= pow10(n),
    decreases n,
{
    lemma_pow10_positive(m);
    if m < n {
        lemma_pow10_le(m, (n - 1) as nat);
    }
}

proof fn lemma_pow10_positive(n: nat)
    ensures
        pow10(n) >= 1,
    decreases n,
{
    if n > 0 {
        lemma_pow10_positive((n - 1) as nat);
    }
}

/// Whether `c` is a decimal digit.
pub open spec fn is_digit(c: char) -> bool {
    '0' <= c && c <= '9'
}

/// The numeric value of a digit character.
pub open spec fn digit_val(c: char) -> int {
    c as int - '0' as int
}

/// The digit character for `d`, which must be below ten.
pub open spec fn digit_char(d: int) -> char {
    if d == 0 {
        '0'
    } else if d == 1 {
        '1'
    } else if d == 2 {
        '2'
    } else if d == 3 {
        '3'
    } else if d == 4 {
        '4'
    } else if d == 5 {
        '5'
    } else if d == 6 {
        '6'
    } else if d == 7 {
        '7'
    } else if d == 8 {
        '8'
    } else {
        '9'
    }
}

/// Whether every character of `s` is a decimal digit.
pub open spec fn all_digits(s: Seq<char>) -> bool {
    forall|i: int| 0 <= i < s.len() ==> is_digit(#[trigger] s[i])
}

/// The value of a digit string, most significant digit first.
pub open spec fn digits_val(s: Seq<char>) -> int
    decreases s.len(),
{
    if s.len() == 0 {
        0
    } else {
        digits_val(s.drop_last()) * 10 + digit_val(s.last())
    }
}

/// The shortest decimal rendering of the nonnegative number `n`.
pub open spec fn dec_digits(n: nat) -> Seq<char>
    decreases n,
{
    if n < 10 {
        seq![digit_char(n as int)]
    } else {
        dec_digits(n / 10).push(digit_char((n % 10) as int))
    }
}

/// The length of the longest prefix of `s` made of decimal digits.
pub open spec fn span_digits(s: Seq<char>) -> int
    decreases s.len(),
{
    if s.len() == 0 || !is_digit(s[0]) {
        0
    } else {
        1 + span_digits(s.skip(1))
    }
}

proof fn lemma_span_digits(s: Seq<char>)
    ensures
        0 <= span_digits(s) <= s.len(),
        forall|i: int| 0 <= i < span_digits(s) ==> is_digit(#[trigger] s[i]),
        span_digits(s) < s.len() ==> !is_digit(s[span_digits(s)]),
    decreases s.len(),
{
    if s.len() > 0 && is_digit(s[0]) {
        lemma_span_digits(s.skip(1));
        assert forall|i: int| 0 <= i < span_digits(s) implies is_digit(#[trigger] s[i]) by {
            if i > 0 {
                assert(is_digit(s.skip(1)[i - 1]));
            }
        };
        if span_digits(s) < s.len() {
            assert(s[span_digits(s)] == s.skip(1)[span_digits(s.skip(1))]);
        }
    }
}

proof fn lemma_span_digits_exact(s: Seq<char>, k: int)
    requires
        0 <= k <= s.len(),
        forall|i: int| 0 <= i < k ==> is_digit(#[trigger] s[i]),
        k < s.len() ==> !is_digit(s[k]),
    ensures
        span_digits(s) == k,
    decreases s.len(),
{
    if k == 0 {
    } else {
        assert(is_digit(s[0]));
        assert forall|i: int| 0 <= i < k - 1 implies is_digit(#[trigger] s.skip(1)[i]) by {
            assert(s.skip(1)[i] == s[i + 1]);
        };
        if k - 1 < s.skip(1).len() {
            assert(s.skip(1)[k - 1] == s[k]);
        }
        lemma_span_digits_exact(s.skip(1), k - 1);
    }
}

proof fn lemma_span_digits_at_least(s: Seq<char>, k: int)
    requires
        0 <= k <= s.len(),
        forall|i: int| 0 <= i < k ==> is_digit(#[trigger] s[i]),
    ensures
        span_digits(s) >= k,
    decreases s.len(),
{
    lemma_span_digits(s);
    if k > 0 {
        assert(is_digit(s[0]));
        assert forall|i: int| 0 <= i < k - 1 implies is_digit(#[trigger] s.skip(1)[i]) by {
            assert(s.skip(1)[i] == s[i + 1]);
        };
        lemma_span_digits_at_least(s.skip(1), k - 1);
        assert(span_digits(s) == 1 + span_digits(s.skip(1)));
    }
}

proof fn lemma_digits_val_push(t: Seq<char>, c: char)
    ensures
        digits_val(t.push(c)) == digits_val(t) * 10 + digit_val(c),
{
    assert(t.push(c).drop_last() =~= t);
    assert(t.push(c).last() == c);
}

proof fn lemma_digits_val_bounds(s: Seq<char>)
    requires
        all_digits(s),
    ensures
        0 <= digits_val(s) < pow10(s.len()),
    decreases s.len(),
{
    if s.len() == 0 {
    } else {
        assert(all_digits(s.drop_last()));
        lemma_digits_val_bounds(s.drop_last());
        assert(is_digit(s.last()));
        assert(pow10(s.len()) == 10 * pow10((s.len() - 1) as nat));
    }
}

/// Combine a parsed sign, integer digits `ip`, fraction digits `fp` and a
/// decimal exponent `e` into a fixed-point value (units of `10^-9`,
/// truncated toward zero), if the digit count is tolerable and the value
/// fits.
pub open spec fn combine_parts(neg: bool, ip: Seq<char>, fp: Seq<char>, e: int) -> Option<i64> {
    if ip.len() + fp.len() > 30 {
        None
    } else {
        let m = digits_val(ip + fp);
        let shift = 9 + e - fp.len();
        let mag = if m == 0 {
            0
        } else if shift >= 0 {
            m * pow10(shift as nat)
        } else {
            m / pow10((-shift) as nat)
        };
        let v = if neg {
            -mag
        } else {
            mag
        };
        if -(i64::MAX as int) <= v <= i64::MAX as int {
            Some(v as i64)
        } else {
            None
        }
    }
}

/// Parse what follows the mantissa: either the end of the string, or an
/// exponent of one to three digits with an optional sign.
pub open spec fn parse_exponent(neg: bool, ip: Seq<char>, fp: Seq<char>, r: Seq<char>) -> Option<
    i64,
> {
    if r.len() == 0 {
        combine_parts(neg, ip, fp, 0)
    } else if r[0] == 'e' || r[0] == 'E' {
        let eneg = r.len() > 1 && r[1] == '-';
        let rd = if r.len() > 1 && (r[1] == '-' || r[1] == '+') {
            r.skip(2)
        } else {
            r.skip(1)
        };
        let d3 = span_digits(rd);
        if d3 < 1 || d3 > 3 || d3 < rd.len() {
            None
        } else {
            let e = digits_val(rd);
            combine_parts(neg, ip, fp, if eneg { -e } else { e })
        }
    } else {
        None
    }
}

/// Parse the mantissa of `r0`: integer digits, then optionally a point and
/// fraction digits.
pub open spec fn parse_mantissa(neg: bool, r0: Seq<char>) -> Option<i64> {
    let d1 = span_digits(r0);
    if d1 < 1 {
        None
    } else {
        let ip = r0.take(d1);
        let r1 = r0.skip(d1);
        if r1.len() > 0 && r1[0] == '.' {
            let d2 = span_digits(r1.skip(1));
            if d2 < 1 {
                None
            } else {
                parse_exponent(neg, ip, r1.skip(1).take(d2), r1.skip(1 + d2))
            }
        } else {
            parse_exponent(neg, ip, Seq::empty(), r1)
        }
    }
}

/// Parse a decimal number -- an optional minus sign, integer digits, an
/// optional fraction, an optional exponent -- into a fixed-point value in
/// units of `10^-9`, truncated toward zero.  `None` when the string is not of
/// that shape, when it carries more than thirty mantissa digits or more than
/// three exponent digits, or when the value does not fit.
pub open spec fn spec_parse_fixed(s: Seq<char>) -> Option<i64> {
    if s.len() > 0 && s[0] == '-' {
        parse_mantissa(true, s.skip(1))
    } else {
        parse_mantissa(false, s)
    }
}

proof fn lemma_digits_val_concat(a: Seq<char>, b: Seq<char>)
    ensures
        digits_val(a + b) == digits_val(a) * pow10(b.len()) + digits_val(b),
    decreases b.len(),
{
    if b.len() == 0 {
        assert(a + b =~= a);
    } else {
        assert(a + b =~= (a + b.drop_last()).push(b.last()));
        lemma_digits_val_push(a + b.drop_last(), b.last());
        lemma_digits_val_concat(a, b.drop_last());
        let k = (b.len() - 1) as nat;
        assert(pow10((k + 1) as nat) == 10 * pow10(k));
        assert((digits_val(a) * pow10(k) + digits_val(b.drop_last())) * 10 + digit_val(b.last())
            == digits_val(a) * (10 * pow10(k)) + (digits_val(b.drop_last()) * 10 + digit_val(
            b.last(),
        ))) by (nonlinear_arith);
        lemma_digits_val_push(b.drop_last(), b.last());
        assert(b.drop_last().push(b.last()) =~= b);
    }
}

proof fn lemma_parse_exponent_too_many(neg: bool, ip: Seq<char>, fp: Seq<char>, r: Seq<char>)
    requires
        ip.len() + fp.len() > 30,
    ensures
        parse_exponent(neg, ip, fp, r) == None::<i64>,
{
}

proof fn lemma_parse_mantissa_too_many(neg: bool, r0: Seq<char>)
    requires
        span_digits(r0) > 30,
    ensures
        parse_mantissa(neg, r0) == None::<i64>,
{
    let d1 = span_digits(r0);
    let ip = r0.take(d1);
    let r1 = r0.skip(d1);
    lemma_span_digits(r0);
    if r1.len() > 0 && r1[0] == '.' {
        let d2 = span_digits(r1.skip(1));
        if d2 >= 1 {
            lemma_span_digits(r1.skip(1));
            lemma_parse_exponent_too_many(neg, ip, r1.skip(1).take(d2), r1.skip(1 + d2));
        }
    } else {
        lemma_parse_exponent_too_many(neg, ip, Seq::empty(), r1);
    }
}

/// The digit value of `c`, or ten when `c` is not a digit.
fn char_digit(c: char) -> (d: u64)
    ensures
        is_digit(c) ==> d == digit_val(c),
        !is_digit(c) ==> d == 10,
{
    let u = c as u32;
    if 48 <= u && u <= 57 {
        (u - 48) as u64
    } else {
        10
    }
}

/// Whether the character of `s` at `i` is a decimal digit.
fn is_digit_at(s: &str, i: usize) -> (b: bool)
    requires
        i < s@.len(),
    ensures
        b == is_digit(s@[i as int]),
{
    char_digit(s.get_char(i)) < 10
}

proof fn lemma_pow10_31()
    ensures
        pow10(31) == 0x7e37be2022c0914b2680000000,
{
    reveal_with_fuel(pow10, 33);
}

proof fn lemma_pow10_38()
    ensures
        pow10(38) == 0x4b3b4ca85a86c47a098a224000000000,
{
    reveal_with_fuel(pow10, 40);
}

/// `10^k` as an unsigned 128-bit number.
fn pow10_u128(k: u64) -> (r: u128)
    requires
        k <= 38,
    ensures
        r as int == pow10(k as nat),
{
    proof {
        lemma_pow10_38();
    }
    let mut r: u128 = 1;
    let mut j: u64 = 0;
    while j < k
        invariant
            j <= k <= 38,
            r as int == pow10(j as nat),
            pow10(38) == 0x4b3b4ca85a86c47a098a224000000000,
        decreases k - j,
    {
        proof {
            assert(pow10((j + 1) as nat) == 10 * pow10(j as nat));
            lemma_pow10_le((j + 1) as nat, 38nat);
            lemma_pow10_positive(j as nat);
        }
        r = r * 10;
        j = j + 1;
    }
    r
}

/// Scan decimal digits of `s` from `start`, continuing a value `m0` of
/// `count0` digits already read, up to `cap` digits in all.  Hands back the
/// position after the digits, the accumulated value and the new digit count,
/// or `None` when the digits would exceed `cap`.
fn scan_digits(s: &str, start: usize, m0: u128, count0: u64, cap: u64) -> (res: Option<
    (usize, u128, u64),
>)
    requires
        start <= s@.len(),
        count0 <= cap,
        cap <= 30,
        (m0 as int) < pow10(count0 as nat),
    ensures
        match res {
            Some(t) => {
                &&& start <= t.0 <= s@.len()
                &&& t.0 - start == span_digits(s@.skip(start as int))
                &&& t.2 == count0 + t.0 - start
                &&& t.2 <= cap
                &&& all_digits(s@.subrange(start as int, t.0 as int))
                &&& t.1 as int == m0 * pow10((t.0 - start) as nat) + digits_val(
                    s@.subrange(start as int, t.0 as int),
                )
                &&& (t.1 as int) < pow10(t.2 as nat)
            },
            None => count0 + span_digits(s@.skip(start as int)) > cap,
        },
{
    let ghost sv = s@;
    let n = s.unicode_len();
    let mut i: usize = start;
    let mut m: u128 = m0;
    let mut count: u64 = count0;
    proof {
        lemma_pow10_31();
        assert(sv.subrange(start as int, start as int) =~= Seq::<char>::empty());
    }
    while i < n && is_digit_at(s, i)
        invariant
            s@ == sv,
            n == sv.len(),
            start <= i <= n,
            count == count0 + i - start,
            count0 <= count <= cap <= 30,
            forall|j: int| start <= j < i ==> is_digit(#[trigger] sv[j]),
            m as int == m0 * pow10((i - start) as nat) + digits_val(
                sv.subrange(start as int, i as int),
            ),
            (m as int) < pow10(count as nat),
            pow10(31) == 0x7e37be2022c0914b2680000000,
        decreases n - i,
    {
        let c = s.get_char(i);
        let d = char_digit(c);
        if count == cap {
            proof {
                let r = sv.skip(start as int);
                assert forall|j: int| 0 <= j < i - start + 1 implies is_digit(#[trigger] r[j]) by {
                    assert(r[j] == sv[start + j]);
                };
                lemma_span_digits_at_least(r, i - start + 1);
            }
            return None;
        }
        proof {
            lemma_pow10_le((count + 1) as nat, 31nat);
            assert(pow10((count + 1) as nat) == 10 * pow10(count as nat));
            let k = (i - start) as nat;
            assert(pow10((k + 1) as nat) == 10 * pow10(k));
            assert((m0 * pow10(k) + digits_val(sv.subrange(start as int, i as int))) * 10 + digit_val(
                sv[i as int],
            ) == m0 * pow10((k + 1) as nat) + (digits_val(sv.subrange(start as int, i as int)) * 10
                + digit_val(sv[i as int]))) by (nonlinear_arith)
                requires
                    pow10((k + 1) as nat) == 10 * pow10(k),
            ;
        }
        m = m * 10 + d as u128;
        count = count + 1;
        i = i + 1;
        proof {
            assert(sv.subrange(start as int, i as int) =~= sv.subrange(start as int, i - 1).push(
                sv[i - 1],
            ));
            lemma_digits_val_push(sv.subrange(start as int, i - 1), sv[i - 1]);
        }
    }
    proof {
        let r = sv.skip(start as int);
        assert forall|j: int| 0 <= j < i - start implies is_digit(#[trigger] r[j]) by {
            assert(r[j] == sv[start + j]);
        };
        if i - start < r.len() {
            assert(r[i - start] == sv[i as int]);
        }
        lemma_span_digits_exact(r, i - start);
        assert(all_digits(sv.subrange(start as int, i as int)));
    }
    Some((i, m, count))
}

/// Assemble the final fixed-point value from the scanned mantissa value
/// `m2`, the fraction length, and the exponent, exactly as
/// [`combine_parts`] does.
fn combine_exec(
    neg: bool,
    m2: u128,
    fp_count: u64,
    ev: u64,
    eneg: bool,
    Ghost(ip): Ghost<Seq<char>>,
    Ghost(fp): Ghost<Seq<char>>,
) -> (r: Option<i64>)
    requires
        1 <= ip.len(),
        ip.len() + fp.len() <= 30,
        fp.len() == fp_count,
        all_digits(ip),
        all_digits(fp),
        m2 as int == digits_val(ip + fp),
        ev <= 999,
    ensures
        r == combine_parts(
            neg,
            ip,
            fp,
            if eneg {
                -(ev as int)
            } else {
                ev as int
            },
        ),
{
    let ghost e = if eneg {
        -(ev as int)
    } else {
        ev as int
    };
    let ghost mv = digits_val(ip + fp);
    proof {
        lemma_digits_val_bounds(ip + fp);
        lemma_pow10_le((ip.len() + fp.len()) as nat, 31nat);
        lemma_pow10_31();
        assert(mv < pow10(31));
    }
    if m2 == 0 {
        return Some(0);
    }
    let shift: i64 = 9 + (if eneg {
        -(ev as i64)
    } else {
        ev as i64
    }) - (fp_count as i64);
    proof {
        assert(shift == 9 + e - fp.len());
    }
    if shift >= 0 {
        if shift > 38 {
            proof {
                lemma_pow10_le(39nat, shift as nat);
                lemma_pow10_positive(shift as nat);
                lemma_pow10_38();
                assert(pow10(39nat) == 10 * pow10(38nat));
                assert(mv * pow10(shift as nat) >= pow10(shift as nat)) by (nonlinear_arith)
                    requires
                        mv >= 1,
                        pow10(shift as nat) >= 1,
                ;
            }
            return None;
        }
        let p10 = pow10_u128(shift as u64);
        match m2.checked_mul(p10) {
            Some(p) => {
                if p > i64::MAX as u128 {
                    return None;
                }
                let v = p as i64;
                if neg {
                    Some(-v)
                } else {
                    Some(v)
                }
            },
            None => {
                proof {
                    assert(mv * pow10(shift as nat) > u128::MAX);
                }
                None
            },
        }
    } else {
        let k = (-shift) as u64;
        if k > 38 {
            proof {
                lemma_pow10_le(31nat, k as nat);
                lemma_pow10_positive(k as nat);
                assert(mv / pow10(k as nat) == 0) by {
                    vstd::arithmetic::div_mod::lemma_basic_div(mv, pow10(k as nat));
                };
            }
            return Some(0);
        }
        let p10 = pow10_u128(k);
        proof {
            lemma_pow10_positive(k as nat);
        }
        let q = m2 / p10;
        if q > i64::MAX as u128 {
            return None;
        }
        let v = q as i64;
        if neg {
            Some(-v)
        } else {
            Some(v)
        }
    }}

/// Scan an optional exponent part starting at `i2`: nothing at all, or
/// `e`/`E`, an optional sign, and one to three digits reaching the end of the
/// string.  Hands back the exponent magnitude and sign as
/// [`parse_exponent`] reads them, or `None` when that spec rejects the tail.
fn scan_exponent(s: &str, i2: usize) -> (r: Option<(u64, bool)>)
    requires
        i2 <= s@.len(),
    ensures
        match r {
            Some(t) => t.0 <= 999 && forall|neg: bool, ip: Seq<char>, fp: Seq<char>|
                #[trigger] parse_exponent(neg, ip, fp, s@.skip(i2 as int)) == combine_parts(
                    neg,
                    ip,
                    fp,
                    if t.1 {
                        -(t.0 as int)
                    } else {
                        t.0 as int
                    },
                ),
            None => forall|neg: bool, ip: Seq<char>, fp: Seq<char>|
                #[trigger] parse_exponent(neg, ip, fp, s@.skip(i2 as int)) == None::<i64>,
        },
{
    let ghost sv = s@;
    let ghost r2 = sv.skip(i2 as int);
    let n = s.unicode_len();
    let mut eneg = false;
    let mut i3 = i2;
    if i2 < n {
        let c = s.get_char(i2);
        if !(c == 'e' || c == 'E') {
            return None;
        }
        i3 = i2 + 1;
        if i3 < n {
            let c2ch = s.get_char(i3);
            if c2ch == '-' {
                eneg = true;
                i3 = i3 + 1;
            } else if c2ch == '+' {
                i3 = i3 + 1;
            }
        }
        let ghost e0 = i3 as int;
        let ghost rd = sv.skip(e0);
        proof {
            if r2.len() > 1 && (r2[1] == '-' || r2[1] == '+') {
                assert(rd =~= r2.skip(2));
            } else {
                assert(rd =~= r2.skip(1));
            }
            assert(eneg == (r2.len() > 1 && r2[1] == '-'));
        }
        let scan3 = scan_digits(s, i3, 0, 0, 3);
        let (ie, me, ce) = match scan3 {
            Some(t) => t,
            None => {
                proof {
                    lemma_span_digits(rd);
                }
                return None;
            },
        };
        if ce == 0 {
            return None;
        }
        if ie < n {
            proof {
                assert(span_digits(rd) < rd.len());
            }
            return None;
        }
        proof {
            assert(rd =~= sv.subrange(e0, ie as int));
            assert(digits_val(rd) == me);
            reveal_with_fuel(pow10, 5);
            assert(me < 1000);
        }
        Some((me as u64, eneg))
    } else {
        proof {
            assert(r2.len() == 0);
        }
        Some((0, false))
    }
}

/// Parse the decimal number `s` into a fixed-point value in units of
/// `10^-9`, truncated toward zero.  See [`spec_parse_fixed`] for the exact
/// grammar and range.
#[verifier::rlimit(100)]
#[verifier::spinoff_prover]
pub fn parse_fixed(s: &str) -> (r: Option<i64>)
    ensures
        r == spec_parse_fixed(s@),
{
    let ghost sv = s@;
    let n = s.unicode_len();
    let mut i: usize = 0;
    let mut neg = false;
    if n > 0 {
        if s.get_char(0) == '-' {
            neg = true;
            i = 1;
        }
    }
    let ghost i0 = i as int;
    let ghost r0 = sv.skip(i0);
    proof {
        if !(sv.len() > 0 && sv[0] == '-') {
            assert(sv.skip(0) =~= sv);
        }
        assert(spec_parse_fixed(sv) == parse_mantissa(neg, r0));
    }
    // Integer digits.
    let scan1 = scan_digits(s, i, 0, 0, 30);
    let (i1, m1, c1) = match scan1 {
        Some(t) => t,
        None => {
            proof {
                lemma_parse_mantissa_too_many(neg, r0);
            }
            return None;
        },
    };
    let ghost d1 = i1 - i0;
    if c1 == 0 {
        return None;
    }
    let ghost ip = r0.take(d1);
    let ghost r1 = r0.skip(d1);
    proof {
        assert(span_digits(r0) == d1);
        assert(ip =~= sv.subrange(i0, i1 as int));
        assert(r1 =~= sv.skip(i1 as int));
        assert(digits_val(ip) == m1);
    }
    // Fraction digits.
    let ghost mut fp = Seq::<char>::empty();
    let mut i2 = i1;
    let mut m2 = m1;
    let mut c2 = c1;
    let mut has_frac = false;
    if i1 < n && s.get_char(i1) == '.' {
        has_frac = true;
        let ghost rf = r1.skip(1);
        proof {
            assert(rf =~= sv.skip(i1 + 1));
        }
        let scan2 = scan_digits(s, i1 + 1, m1, c1, 30);
        match scan2 {
            Some(t) => {
                i2 = t.0;
                m2 = t.1;
                c2 = t.2;
            },
            None => {
                proof {
                    let d2 = span_digits(rf);
                    lemma_span_digits(rf);
                    assert(d2 >= 1);
                    assert(rf.skip(d2) =~= r1.skip(1 + d2));
                    assert(parse_mantissa(neg, r0) == parse_exponent(
                        neg,
                        ip,
                        rf.take(d2),
                        r1.skip(1 + d2),
                    ));
                    lemma_parse_exponent_too_many(neg, ip, rf.take(d2), r1.skip(1 + d2));
                }
                return None;
            },
        }
        if i2 == i1 + 1 {
            return None;
        }
        proof {
            let d2 = i2 - i1 - 1;
            assert(span_digits(rf) == d2);
            fp = rf.take(d2);
            assert(fp =~= sv.subrange(i1 + 1, i2 as int));
            lemma_digits_val_concat(ip, fp);
            assert(m2 == digits_val(ip + fp));
        }
    } else {
        proof {
            assert(ip + fp =~= ip);
            assert(m2 == digits_val(ip + fp));
        }
    }
    let fp_count = c2 - c1;
    let ghost r2 = sv.skip(i2 as int);
    proof {
        if has_frac {
            assert(r2 =~= r1.skip(1 + (i2 - i1 - 1)));
            assert(parse_mantissa(neg, r0) == parse_exponent(neg, ip, fp, r2));
        } else {
            assert(r2 =~= r1);
            assert(parse_mantissa(neg, r0) == parse_exponent(neg, ip, fp, r2));
        }
        assert(ip.len() + fp.len() == c2);
        assert(fp.len() == fp_count);
    }
    // Exponent.
    let scanned = scan_exponent(s, i2);
    match scanned {
        Some(t) => combine_exec(neg, m2, fp_count, t.0, t.1, Ghost(ip), Ghost(fp)),
        None => None,
    }
}

/// The number denoted by a string of at most twenty decimal digits, when it
/// fits in 64 bits.
pub open spec fn spec_parse_u64(s: Seq<char>) -> Option<u64> {
    if 1 <= s.len() <= 20 && all_digits(s) && digits_val(s) <= u64::MAX {
        Some(digits_val(s) as u64)
    } else {
        None
    }
}

/// Parse a nonnegative decimal integer, as [`spec_parse_u64`] defines it.
pub fn parse_u64(s: &str) -> (r: Option<u64>)
    ensures
        r == spec_parse_u64(s@),
{
    let ghost sv = s@;
    let n = s.unicode_len();
    let scan = scan_digits(s, 0, 0, 0, 20);
    let (end, m, count) = match scan {
        Some(t) => t,
        None => {
            proof {
                assert(sv.skip(0) =~= sv);
                lemma_span_digits(sv);
            }
            return None;
        },
    };
    proof {
        assert(sv.skip(0) =~= sv);
    }
    if count == 0 {
        proof {
            if sv.len() > 0 {
                assert(span_digits(sv) == 0);
                if is_digit(sv[0]) {
                    lemma_span_digits(sv.skip(1));
                    assert(span_digits(sv) >= 1);
                }
                assert(!all_digits(sv));
            }
        }
        return None;
    }
    if end < n {
        proof {
            lemma_span_digits(sv);
            assert(!is_digit(sv[end as int]));
        }
        return None;
    }
    proof {
        assert(sv.subrange(0, end as int) =~= sv);
        assert(m == digits_val(sv));
    }
    if m > u64::MAX as u128 {
        return None;
    }
    Some(m as u64)
}

/// Append one decimal digit to `out`.
fn push_digit(out: &mut String, d: u64)
    requires
        d < 10,
    ensures
        final(out)@ == old(out)@.push(digit_char(d as int)),
{
    proof {
        reveal_strlit("0");
        reveal_strlit("1");
        reveal_strlit("2");
        reveal_strlit("3");
        reveal_strlit("4");
        reveal_strlit("5");
        reveal_strlit("6");
        reveal_strlit("7");
        reveal_strlit("8");
        reveal_strlit("9");
    }
    if d == 0 {
        out.append("0");
    } else if d == 1 {
        out.append("1");
    } else if d == 2 {
        out.append("2");
    } else if d == 3 {
        out.append("3");
    } else if d == 4 {
        out.append("4");
    } else if d == 5 {
        out.append("5");
    } else if d == 6 {
        out.append("6");
    } else if d == 7 {
        out.append("7");
    } else if d == 8 {
        out.append("8");
    } else {
        out.append("9");
    }
    proof {
        assert(final(out)@ =~= old(out)@.push(digit_char(d as int)));
    }
}

/// Append the decimal rendering of `n` to `out`.
fn push_dec(out: &mut String, n: u64)
    ensures
        final(out)@ == old(out)@ + dec_digits(n as nat),
    decreases n,
{
    if n < 10 {
        push_digit(out, n);
        proof {
            assert(final(out)@ =~= old(out)@ + dec_digits(n as nat));
        }
    } else {
        push_dec(out, n / 10);
        push_digit(out, n % 10);
        proof {
            assert(final(out)@ =~= old(out)@ + dec_digits(n as nat));
        }
    }
}

/// Render the nonnegative number `n` in decimal.
pub fn format_u64(n: u64) -> (r: String)
    ensures
        r@ == dec_digits(n as nat),
{
    let mut out = String::new();
    push_dec(&mut out, n);
    proof {
        assert(out@ =~= dec_digits(n as nat));
    }
    out
}

/// The decimal rendering of the integer `v`: a minus sign when negative,
/// then the digits.
pub open spec fn spec_format_i64(v: int) -> Seq<char> {
    if v < 0 {
        seq!['-'] + dec_digits((-v) as nat)
    } else {
        dec_digits(v as nat)
    }
}

/// Render the integer `n` in decimal.
pub fn format_i64(n: i64) -> (r: String)
    ensures
        r@ == spec_format_i64(n as int),
{
    let mut out = String::new();
    if n < 0 {
        out.append("-");
        proof {
            reveal_strlit("-");
            assert(out@ =~= seq!['-']);
        }
        let mag = (-(n as i128)) as u64;
        push_dec(&mut out, mag);
        proof {
            assert(out@ =~= spec_format_i64(n as int));
        }
    } else {
        push_dec(&mut out, n as u64);
        proof {
            assert(out@ =~= spec_format_i64(n as int));
        }
    }
    out
}

/// Compare two strings character by character.
pub fn str_eq(a: &str, b: &str) -> (r: bool)
    ensures
        r == (a@ == b@),
{
    let ghost av = a@;
    let ghost bv = b@;
    let n = a.unicode_len();
    if n != b.unicode_len() {
        proof {
            assert(av.len() != bv.len());
        }
        return false;
    }
    let mut i: usize = 0;
    while i < n
        invariant
            a@ == av,
            b@ == bv,
            n == av.len() == bv.len(),
            0 <= i <= n,
            forall|j: int| 0 <= j < i ==> av[j] == bv[j],
        decreases n - i,
    {
        if a.get_char(i) != b.get_char(i) {
            return false;
        }
        i = i + 1;
    }
    proof {
        assert(av =~= bv);
    }
    true
}

/// `n` '0' characters.
pub open spec fn zeroes(n: nat) -> Seq<char> {
    Seq::new(n, |i: int| '0')
}

/// `s` padded with leading '0' characters to `k` characters.
pub open spec fn zero_pad(s: Seq<char>, k: nat) -> Seq<char> {
    if s.len() >= k {
        s
    } else {
        zeroes((k - s.len()) as nat) + s
    }
}

/// The fractional digits of `fr`, rendered over `k` places with trailing
/// zeroes removed.  `fr` counts units of `10^-k`.
pub open spec fn frac_digits(fr: nat, k: nat) -> Seq<char>
    decreases k,
{
    if k == 0 {
        Seq::empty()
    } else if fr % 10 == 0 {
        frac_digits(fr / 10, (k - 1) as nat)
    } else {
        zero_pad(dec_digits(fr), k)
    }
}

/// The decimal rendering of the fixed-point value `v` (in units of `10^-9`):
/// an optional minus sign, the integer part, and -- only when the fraction is
/// not zero -- a point and the fraction without trailing zeroes.
pub open spec fn spec_format_fixed(v: int) -> Seq<char> {
    let mag = if v < 0 { -v } else { v };
    let ip = (mag / (SCALE as int)) as nat;
    let fr = (mag % (SCALE as int)) as nat;
    let sign: Seq<char> = if v < 0 { seq!['-'] } else { Seq::empty() };
    let frac: Seq<char> = if fr == 0 { Seq::empty() } else { seq!['.'] + frac_digits(fr, 9) };
    sign + dec_digits(ip) + frac
}

proof fn lemma_dec_digits_len(n: nat)
    ensures
        dec_digits(n).len() == if n < 10 { 1nat } else { 1 + dec_digits(n / 10).len() },
{
}

proof fn lemma_dec_digits_len_bound(n: nat, m: nat)
    requires
        m >= 1,
        n < pow10(m),
    ensures
        dec_digits(n).len() <= m,
    decreases m,
{
    if n < 10 {
    } else {
        assert(n / 10 < pow10((m - 1) as nat)) by {
            assert(pow10(m) == 10 * pow10((m - 1) as nat));
        };
        assert(m >= 2) by {
            if m == 1 {
                assert(pow10(1nat) == 10);
            }
        };
        lemma_dec_digits_len_bound(n / 10, (m - 1) as nat);
    }
}

/// The number of characters in the decimal rendering of `n`.
fn count_digits(n: u64) -> (c: u64)
    ensures
        c == dec_digits(n as nat).len(),
        c >= 1,
{
    let mut c: u64 = 1;
    let mut m: u64 = n;
    proof {
        lemma_pow10_20();
    }
    while m >= 10
        invariant
            dec_digits(n as nat).len() == c - 1 + dec_digits(m as nat).len(),
            1 <= c <= 21,
            (m as int) < pow10((21 - c) as nat),
        decreases m,
    {
        proof {
            lemma_dec_digits_len(m as nat);
            assert(21 - c >= 2) by {
                if 21 - c <= 1 {
                    lemma_pow10_le((21 - c) as nat, 1nat);
                    reveal_with_fuel(pow10, 3);
                }
            };
            assert(pow10((21 - c) as nat) == 10 * pow10((21 - c - 1) as nat));
        }
        m = m / 10;
        c = c + 1;
    }
    proof {
        lemma_dec_digits_len(m as nat);
    }
    c
}

/// Render the fixed-point value `v` (in units of `10^-9`) in decimal.
pub fn format_fixed(v: i64) -> (r: String)
    requires
        v != i64::MIN,
    ensures
        r@ == spec_format_fixed(v as int),
{
    let neg = v < 0;
    let mag: u64 = if neg {
        (-v) as u64
    } else {
        v as u64
    };
    let ip: u64 = mag / 1_000_000_000;
    let fr: u64 = mag % 1_000_000_000;
    let mut out = String::new();
    if neg {
        out.append("-");
        proof {
            reveal_strlit("-");
            assert(out@ =~= seq!['-']);
        }
    }
    push_dec(&mut out, ip);
    let ghost head = out@;
    proof {
        let sign: Seq<char> = if v < 0 { seq!['-'] } else { Seq::empty() };
        assert(head =~= sign + dec_digits(ip as nat));
    }
    if fr > 0 {
        out.append(".");
        proof {
            reveal_strlit(".");
            assert(out@ =~= head + seq!['.'] + zeroes(0nat));
        }
        // Strip the trailing zeroes numerically before rendering.
        let mut f: u64 = fr;
        let mut k: u64 = 9;
        proof {
            lemma_pow10_9();
        }
        while f % 10 == 0
            invariant
                f > 0,
                1 <= k <= 9,
                f < pow10(k as nat),
                frac_digits(fr as nat, 9) == frac_digits(f as nat, k as nat),
            decreases f,
        {
            proof {
                assert(f >= 10) by {
                    assert(f % 10 == 0 && f > 0);
                };
                assert(pow10(k as nat) == 10 * pow10((k - 1) as nat));
                assert(k >= 2) by {
                    if k == 1 {
                        assert(pow10(1nat) == 10);
                    }
                };
            }
            f = f / 10;
            k = k - 1;
        }
        let dcount = count_digits(f);
        proof {
            lemma_dec_digits_len_bound(f as nat, k as nat);
        }
        let mut i: u64 = dcount;
        while i < k
            invariant
                dcount <= i <= k,
                k <= 9,
                out@ == head + seq!['.'] + zeroes((i - dcount) as nat),
            decreases k - i,
        {
            out.append("0");
            i = i + 1;
            proof {
                reveal_strlit("0");
                assert(out@ =~= head + seq!['.'] + zeroes((i - dcount) as nat));
            }
        }
        push_dec(&mut out, f);
        proof {
            assert(frac_digits(f as nat, k as nat) =~= zero_pad(dec_digits(f as nat), k as nat));
            assert(out@ =~= head + seq!['.'] + zero_pad(dec_digits(f as nat), k as nat));
            assert(out@ =~= spec_format_fixed(v as int));
        }
    } else {
        proof {
            assert(out@ =~= spec_format_fixed(v as int));
        }
    }
    out
}

proof fn lemma_pow10_10()
    ensures
        pow10(10) == 10_000_000_000,
{
    reveal_with_fuel(pow10, 12);
}

proof fn lemma_pow10_adds(a: nat, b: nat)
    ensures
        pow10(a) * pow10(b) == pow10((a + b) as nat),
    decreases a,
{
    if a == 0 {
    } else {
        lemma_pow10_adds((a - 1) as nat, b);
        assert(pow10(a) == 10 * pow10((a - 1) as nat));
        assert(pow10((a + b) as nat) == 10 * pow10((a - 1 + b) as nat));
        assert((10 * pow10((a - 1) as nat)) * pow10(b) == 10 * (pow10((a - 1) as nat) * pow10(b)))
            by (nonlinear_arith);
    }
}

proof fn lemma_digit_char_val(d: int)
    requires
        0 <= d < 10,
    ensures
        is_digit(digit_char(d)),
        digit_val(digit_char(d)) == d,
{
}

proof fn lemma_dec_digits_props(n: nat)
    ensures
        all_digits(dec_digits(n)),
        digits_val(dec_digits(n)) == n,
        dec_digits(n).len() >= 1,
    decreases n,
{
    if n < 10 {
        lemma_digit_char_val(n as int);
        let c = digit_char(n as int);
        let s1 = seq![c];
        assert(dec_digits(n) == s1);
        assert(s1.drop_last() =~= Seq::<char>::empty());
        assert(s1.last() == c);
        assert(digits_val(Seq::<char>::empty()) == 0);
        assert(digits_val(s1) == digits_val(s1.drop_last()) * 10 + digit_val(c));
        assert forall|i: int| 0 <= i < s1.len() implies is_digit(#[trigger] s1[i]) by {
            assert(s1[i] == c);
        };
    } else {
        lemma_dec_digits_props(n / 10);
        lemma_digit_char_val((n % 10) as int);
        lemma_digits_val_push(dec_digits(n / 10), digit_char((n % 10) as int));
        assert forall|i: int| 0 <= i < dec_digits(n).len() implies is_digit(
            #[trigger] dec_digits(n)[i],
        ) by {
            if i < dec_digits(n / 10).len() {
                assert(dec_digits(n)[i] == dec_digits(n / 10)[i]);
            }
        };
    }
}

proof fn lemma_zeroes_props(m: nat)
    ensures
        all_digits(zeroes(m)),
        digits_val(zeroes(m)) == 0,
    decreases m,
{
    lemma_digit_char_val(0);
    if m > 0 {
        lemma_zeroes_props((m - 1) as nat);
        assert(zeroes(m).drop_last() =~= zeroes((m - 1) as nat));
        assert(zeroes(m).last() == '0');
    }
}

proof fn lemma_frac_digits_props(fr: nat, k: nat)
    requires
        1 <= k,
        0 < fr < pow10(k),
    ensures
        all_digits(frac_digits(fr, k)),
        1 <= frac_digits(fr, k).len() <= k,
        digits_val(frac_digits(fr, k)) * pow10((k - frac_digits(fr, k).len()) as nat) == fr,
    decreases k,
{
    if fr % 10 == 0 {
        assert(fr >= 10);
        assert(k >= 2) by {
            if k == 1 {
                reveal_with_fuel(pow10, 3);
            }
        };
        assert(pow10(k) == 10 * pow10((k - 1) as nat));
        assert(fr / 10 < pow10((k - 1) as nat));
        assert(fr / 10 > 0);
        lemma_frac_digits_props(fr / 10, (k - 1) as nat);
        let fd = frac_digits(fr / 10, (k - 1) as nat);
        assert(frac_digits(fr, k) == fd);
        let e = (k - 1 - fd.len()) as nat;
        assert(pow10((k - fd.len()) as nat) == 10 * pow10(e));
        assert(digits_val(fd) * (10 * pow10(e)) == 10 * (digits_val(fd) * pow10(e)))
            by (nonlinear_arith);
        assert(10 * (fr / 10) == fr);
    } else {
        let dd = dec_digits(fr);
        lemma_dec_digits_props(fr);
        lemma_dec_digits_len_bound(fr, k);
        if dd.len() >= k {
            assert(frac_digits(fr, k) == dd);
            assert(pow10((k - dd.len()) as nat) == 1);
        } else {
            let zs = zeroes((k - dd.len()) as nat);
            lemma_zeroes_props((k - dd.len()) as nat);
            assert(frac_digits(fr, k) == zs + dd);
            lemma_digits_val_concat(zs, dd);
            assert(digits_val(zs + dd) == 0 * pow10(dd.len()) + fr);
            assert forall|i: int| 0 <= i < (zs + dd).len() implies is_digit(
                #[trigger] (zs + dd)[i],
            ) by {
                if i < zs.len() {
                    assert((zs + dd)[i] == zs[i]);
                } else {
                    assert((zs + dd)[i] == dd[i - zs.len()]);
                }
            };
            assert(pow10((k - (zs + dd).len()) as nat) == 1);
        }
    }
}

/// What a rendered value parses back to: for every representable
/// fixed-point value, parsing its decimal rendering gives the value back
/// exactly.
pub proof fn lemma_format_parse_round_trip(v: i64)
    requires
        v != i64::MIN,
    ensures
        spec_parse_fixed(spec_format_fixed(v as int)) == Some(v),
{
    lemma_pow10_9();
    lemma_pow10_10();
    let mag = if v < 0 { -(v as int) } else { v as int };
    let ip = (mag / 1_000_000_000) as nat;
    let fr = (mag % 1_000_000_000) as nat;
    vstd::arithmetic::div_mod::lemma_fundamental_div_mod(mag, 1_000_000_000);
    assert(mag == 1_000_000_000 * (ip as int) + fr);
    assert(0 <= fr < 1_000_000_000);
    vstd::arithmetic::div_mod::lemma_div_is_ordered(mag, i64::MAX as int, 1_000_000_000);
    assert(ip <= 9_223_372_036);
    let dd = dec_digits(ip);
    lemma_dec_digits_props(ip);
    lemma_dec_digits_len_bound(ip, 10);
    let dlen = dd.len() as int;
    let sign: Seq<char> = if v < 0 { seq!['-'] } else { Seq::empty() };
    let s = spec_format_fixed(v as int);
    if fr == 0 {
        assert(s =~= sign + dd);
        lemma_round_trip_mantissa(v, mag, ip, Seq::empty());
        assert(s =~= sign + (dd + Seq::<char>::empty()));
    } else {
        let ff = frac_digits(fr, 9);
        lemma_frac_digits_props(fr, 9);
        let tail = seq!['.'] + ff;
        lemma_round_trip_mantissa(v, mag, ip, tail);
        assert(s =~= sign + (dd + tail));
    }
}

/// The shared backbone of the round-trip argument: with `body` equal to the
/// rendered digits (integer part, then the point and fraction when the
/// fraction is not zero), the parser recovers `v`.
#[verifier::rlimit(100)]
#[verifier::spinoff_prover]
proof fn lemma_round_trip_mantissa(v: i64, mag: int, ip: nat, tail: Seq<char>)
    requires
        v != i64::MIN,
        mag == if v < 0 { -(v as int) } else { v as int },
        ip == (mag / 1_000_000_000) as nat,
        tail == if mag % 1_000_000_000 == 0 {
            Seq::<char>::empty()
        } else {
            seq!['.'] + frac_digits((mag % 1_000_000_000) as nat, 9)
        },
    ensures
        spec_parse_fixed(
            (if v < 0 { seq!['-'] } else { Seq::<char>::empty() }) + (dec_digits(ip) + tail),
        ) == Some(v),
{
    lemma_pow10_9();
    lemma_pow10_10();
    vstd::arithmetic::div_mod::lemma_fundamental_div_mod(mag, 1_000_000_000);
    vstd::arithmetic::div_mod::lemma_div_is_ordered(mag, i64::MAX as int, 1_000_000_000);
    let fr = (mag % 1_000_000_000) as nat;
    let dd = dec_digits(ip);
    lemma_dec_digits_props(ip);
    lemma_dec_digits_len_bound(ip, 10);
    let dlen = dd.len() as int;
    let body = dd + tail;
    let s = (if v < 0 { seq!['-'] } else { Seq::<char>::empty() }) + body;
    // The sign splits off.
    if v < 0 {
        assert(s[0] == '-');
        assert(s.skip(1) =~= body);
        assert(spec_parse_fixed(s) == parse_mantissa(true, body));
    } else {
        if s.len() > 0 {
            assert(s[0] == body[0]);
            if body[0] == '-' {
                if dlen > 0 {
                    assert(body[0] == dd[0]);
                    assert(is_digit(dd[0]));
                }
            }
        }
        assert(s =~= body);
        assert(spec_parse_fixed(s) == parse_mantissa(false, body));
    }
    let neg = v < 0;
    // The integer digits span exactly the rendered integer part.
    assert forall|i: int| 0 <= i < dlen implies is_digit(#[trigger] body[i]) by {
        assert(body[i] == dd[i]);
    };
    if dlen < body.len() {
        assert(body[dlen] == tail[0]);
        assert(tail[0] == '.');
        assert(!is_digit('.'));
    }
    lemma_span_digits_exact(body, dlen);
    assert(body.take(dlen) =~= dd);
    let r1 = body.skip(dlen);
    assert(r1 =~= tail);
    if fr == 0 {
        // No fraction, no exponent: the mantissa is the integer part alone.
        assert(r1.len() == 0);
        assert(parse_mantissa(neg, body) == parse_exponent(neg, dd, Seq::empty(), r1));
        assert(parse_exponent(neg, dd, Seq::empty(), r1) == combine_parts(
            neg,
            dd,
            Seq::empty(),
            0,
        ));
        assert(dd + Seq::<char>::empty() =~= dd);
        assert(digits_val(dd + Seq::<char>::empty()) == ip);
        let m = ip as int;
        if m == 0 {
            assert(mag == 0);
            assert(v == 0);
            assert(combine_parts(neg, dd, Seq::empty(), 0) == Some(0i64));
        } else {
            assert(m * pow10(9) == mag) by (nonlinear_arith)
                requires
                    m == ip,
                    pow10(9) == 1_000_000_000,
                    mag == 1_000_000_000 * (ip as int),
            ;
            if neg {
                assert(combine_parts(neg, dd, Seq::empty(), 0) == Some((-mag) as i64));
                assert((-mag) as i64 == v);
            } else {
                assert(combine_parts(neg, dd, Seq::empty(), 0) == Some(mag as i64));
            }
        }
    } else {
        let ff = frac_digits(fr, 9);
        lemma_frac_digits_props(fr, 9);
        let flen = ff.len() as int;
        assert forall|i: int| 0 <= i < flen implies is_digit(#[trigger] r1.skip(1)[i]) by {
            assert(r1.skip(1)[i] == tail[1 + i]);
            assert(tail[1 + i] == ff[i]);
        };
        assert(r1.skip(1).len() == flen);
        lemma_span_digits_exact(r1.skip(1), flen);
        assert(r1.len() > 0 && r1[0] == '.');
        assert(r1.skip(1).take(flen) =~= ff);
        let r2 = r1.skip(1 + flen);
        assert(r2.len() == 0);
        assert(parse_mantissa(neg, body) == parse_exponent(neg, dd, ff, r2));
        assert(parse_exponent(neg, dd, ff, r2) == combine_parts(neg, dd, ff, 0));
        assert(dd.len() + ff.len() <= 19);
        lemma_digits_val_concat(dd, ff);
        let dv = digits_val(ff);
        let m = digits_val(dd + ff);
        assert(m == ip * pow10(ff.len()) + dv);
        lemma_digits_val_bounds(ff);
        lemma_pow10_positive(ff.len());
        lemma_pow10_positive((9 - flen) as nat);
        assert(dv >= 1) by {
            if dv == 0 {
                assert(dv * pow10((9 - flen) as nat) == 0) by (nonlinear_arith)
                    requires
                        dv == 0,
                ;
            }
        };
        assert(m >= 1) by (nonlinear_arith)
            requires
                m == ip * pow10(ff.len()) + dv,
                ip >= 0,
                pow10(ff.len()) >= 1,
                dv >= 1,
        ;
        let shift = (9 - flen) as nat;
        lemma_pow10_adds(ff.len(), shift);
        assert(m * pow10(shift) == mag) by (nonlinear_arith)
            requires
                m == ip * pow10(ff.len() as nat) + dv,
                dv * pow10(shift) == fr,
                pow10(ff.len() as nat) * pow10(shift) == pow10(9),
                pow10(9) == 1_000_000_000,
                mag == 1_000_000_000 * (ip as int) + fr,
        ;
        assert(combine_parts(neg, dd, ff, 0) == Some(
            (if neg {
                -mag
            } else {
                mag
            }) as i64,
        ));
        if neg {
            assert((-mag) as i64 == v);
        }
    }
}


} // verus!
