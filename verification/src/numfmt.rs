//! Display formatting of the numeric chart fields.
//!
//! Prices are rendered with exactly two digits after the decimal point,
//! rounding half away from zero on the decimal text of the input. Volumes are
//! rendered as integers with a thousands separator every three digits; the
//! separator is a parameter, not a fixed locale.
//!
//! A price numeral may carry a decimal exponent (`1.5e-7`, `1e20`), as the
//! JSON renderings of extreme values do; its exact decimal value is
//! formatted. A volume or timestamp numeral must be a plain integer, since
//! the behaviour modeled reads those fields as 64-bit integers and treats
//! any float as a coercion failure.
//!
//! Policy for malformed numerals (documented, applied uniformly): a numeral
//! outside these grammars, a price with more than 16 integer digits, 17
//! fraction digits or 3 exponent digits, or a volume outside the signed
//! 64-bit range or longer than 19 digits, is a field-coercion failure;
//! callers substitute a placeholder for that element alone and keep the
//! rest of the request alive.

use vstd::prelude::*;
use crate::text::{
    is_digit_char, digit_char, digit_val, all_digits, dec_str, digits_to_nat, pow10, zero_pad,
    char_digit,
    nat_to_digits, pad_digits, chars_to_string, str_chars, vec_subrange,
    lemma_digits_to_nat_bound, lemma_digits_to_nat_push,
};

verus! {

/// The longest digit run `s` starts with, and what follows it.
pub open spec fn split_digits(s: Seq<char>) -> (Seq<char>, Seq<char>)
    decreases s.len(),
{
    if s.len() == 0 || !is_digit_char(s[0]) {
        (Seq::<char>::empty(), s)
    } else {
        let r = split_digits(s.drop_first());
        (seq![s[0]] + r.0, r.1)
    }
}

/// Reads an optionally negated decimal numeral: integer digits, then an
/// optional point followed by at least one fraction digit. Yields the sign,
/// the integer digits and the fraction digits.
pub open spec fn parse_decimal(s: Seq<char>) -> Option<(bool, Seq<char>, Seq<char>)> {
    let neg = s.len() > 0 && s[0] == '-';
    let body = if neg {
        s.drop_first()
    } else {
        s
    };
    let sp = split_digits(body);
    if sp.0.len() == 0 {
        None
    } else if sp.1.len() == 0 {
        Some((neg, sp.0, Seq::<char>::empty()))
    } else if sp.1[0] == '.' && sp.1.len() > 1 && all_digits(sp.1.drop_first()) {
        Some((neg, sp.0, sp.1.drop_first()))
    } else {
        None
    }
}

/// Reads a decimal exponent suffix covering all of `r`: `e` or `E`, an
/// optional sign, then at least one digit and nothing after. Yields whether
/// the exponent is negated and its digits.
pub open spec fn parse_exponent_suffix(r: Seq<char>) -> Option<(bool, Seq<char>)> {
    if r.len() >= 2 && (r[0] == 'e' || r[0] == 'E') {
        let t = r.drop_first();
        let eneg = t[0] == '-';
        let ebody = if t[0] == '-' || t[0] == '+' {
            t.drop_first()
        } else {
            t
        };
        let dsp = split_digits(ebody);
        if dsp.0.len() > 0 && dsp.1.len() == 0 {
            Some((eneg, dsp.0))
        } else {
            None
        }
    } else {
        None
    }
}

/// Reads an optionally negated decimal numeral with an optional fraction
/// and an optional decimal exponent, the JSON number grammar but for a
/// leading-zero check. Yields the sign, the integer digits, the fraction
/// digits, the exponent's sign and the exponent's digits.
pub open spec fn parse_number(s: Seq<char>) -> Option<(bool, Seq<char>, Seq<char>, bool, Seq<char>)> {
    let neg = s.len() > 0 && s[0] == '-';
    let body = if neg {
        s.drop_first()
    } else {
        s
    };
    let sp = split_digits(body);
    if sp.0.len() == 0 {
        None
    } else if sp.1.len() == 0 {
        Some((neg, sp.0, Seq::<char>::empty(), false, Seq::<char>::empty()))
    } else if sp.1[0] == '.' {
        let fsp = split_digits(sp.1.drop_first());
        if fsp.0.len() == 0 {
            None
        } else if fsp.1.len() == 0 {
            Some((neg, sp.0, fsp.0, false, Seq::<char>::empty()))
        } else {
            match parse_exponent_suffix(fsp.1) {
                Some(e) => Some((neg, sp.0, fsp.0, e.0, e.1)),
                None => None,
            }
        }
    } else {
        match parse_exponent_suffix(sp.1) {
            Some(e) => Some((neg, sp.0, Seq::<char>::empty(), e.0, e.1)),
            None => None,
        }
    }
}

/// A numeral this module formats as a price: integer digits capped at 16,
/// fraction digits at 17 and exponent digits at 3, so that the scaled value
/// fits machine arithmetic. The JSON renderings of 64-bit floats stay far
/// inside these caps.
pub open spec fn price_text_ok(s: Seq<char>) -> bool {
    match parse_number(s) {
        Some((neg, ip, fp, eneg, ed)) => ip.len() <= 16 && fp.len() <= 17 && ed.len() <= 3,
        None => false,
    }
}

/// The signed net power of ten that scales the bare mantissa digits: the
/// written exponent minus the number of fraction digits.
pub open spec fn net_exponent(fp: Seq<char>, eneg: bool, ed: Seq<char>) -> int {
    (if eneg {
        -(digits_to_nat(ed) as int)
    } else {
        digits_to_nat(ed) as int
    }) - fp.len()
}

/// The number of hundredths in `m * 10^ee`, rounded half away from zero
/// for a non-negative mantissa `m`: exact whenever `m * 10^ee` has at most
/// two places after the point, else `round(m / 10^-(ee+2))`.
pub open spec fn price_hundredths(m: nat, ee: int) -> nat {
    if ee >= -2 {
        m * pow10((ee + 2) as nat)
    } else {
        (2 * m + pow10((-(ee + 2)) as nat)) / (2 * pow10((-(ee + 2)) as nat))
    }
}

/// The two-decimal rendering of the magnitude `m * 10^ee` with sign `neg`.
pub open spec fn spec_price_chars(neg: bool, m: nat, ee: int) -> Seq<char> {
    let h = price_hundredths(m, ee);
    (if neg {
        seq!['-']
    } else {
        Seq::<char>::empty()
    }) + dec_str(h / 100) + seq!['.'] + zero_pad(dec_str(h % 100), 2)
}

/// What `format_price` yields on a numeral that `price_text_ok` admits.
pub open spec fn spec_price_of(s: Seq<char>) -> Seq<char> {
    match parse_number(s) {
        Some((neg, ip, fp, eneg, ed)) => spec_price_chars(
            neg,
            digits_to_nat(ip + fp),
            net_exponent(fp, eneg, ed),
        ),
        None => Seq::<char>::empty(),
    }
}

/// Digits with a separator inserted before every trailing group of three.
pub open spec fn grouped(s: Seq<char>, sep: char) -> Seq<char>
    decreases s.len(),
{
    if s.len() <= 3 {
        s
    } else {
        grouped(s.subrange(0, s.len() - 3), sep) + seq![sep] + s.subrange(
            s.len() - 3,
            s.len() as int,
        )
    }
}

/// A numeral this module formats as a volume: an integer in the signed
/// 64-bit range, at most 19 digits long.
pub open spec fn volume_text_ok(s: Seq<char>) -> bool {
    match parse_decimal(s) {
        Some((neg, ip, f)) => f.len() == 0 && ip.len() <= 19 && (if neg {
            digits_to_nat(ip) <= 9223372036854775808
        } else {
            digits_to_nat(ip) <= 9223372036854775807
        }),
        None => false,
    }
}

/// What `format_volume` yields on a numeral that `volume_text_ok` admits:
/// the grouped magnitude, negated unless it is zero.
pub open spec fn spec_volume_of(s: Seq<char>, sep: char) -> Seq<char> {
    match parse_decimal(s) {
        Some((neg, ip, f)) => {
            let n = digits_to_nat(ip);
            if neg && n > 0 {
                seq!['-'] + grouped(dec_str(n), sep)
            } else {
                grouped(dec_str(n), sep)
            }
        },
        None => Seq::<char>::empty(),
    }
}

/// Concrete powers of ten that the overflow arguments below lean on.
pub proof fn lemma_pow10_vals()
    ensures
        pow10(3) == 1000,
        pow10(5) == 100_000,
        pow10(17) == 100_000_000_000_000_000,
        pow10(33) == 1_000_000_000_000_000_000_000_000_000_000_000,
        pow10(34) == 10_000_000_000_000_000_000_000_000_000_000_000,
{
    reveal_with_fuel(pow10, 35);
}

/// Two more decimal places multiply the power by one hundred.
proof fn lemma_pow10_plus2(e: nat)
    ensures
        pow10(e + 2) == 100 * pow10(e),
{
    assert(pow10(e + 2) == 10 * pow10(e + 1));
    assert(pow10(e + 1) == 10 * pow10(e));
}

/// Scaling a positive number by a power of ten appends that many zeros to
/// its decimal rendering.
proof fn lemma_dec_str_shift(m: nat, e: nat)
    requires
        m >= 1,
    ensures
        dec_str(m * pow10(e)) == dec_str(m) + Seq::new(e, |i: int| '0'),
    decreases e,
{
    if e == 0 {
        assert(pow10(0) == 1);
        assert(m * pow10(0) == m) by (nonlinear_arith)
            requires
                pow10(0) == 1,
        ;
        assert(dec_str(m) + Seq::new(0, |i: int| '0') =~= dec_str(m));
    } else {
        lemma_dec_str_shift(m, (e - 1) as nat);
        let p = pow10((e - 1) as nat);
        let n = m * p;
        assert(p >= 1) by {
            lemma_pow10_mono(0, (e - 1) as nat);
        }
        assert(n >= 1) by (nonlinear_arith)
            requires
                m >= 1,
                p >= 1,
                n == m * p,
        ;
        assert(pow10(e) == 10 * p);
        assert(m * pow10(e) == n * 10) by (nonlinear_arith)
            requires
                pow10(e) == 10 * p,
                n == m * p,
        ;
        assert((n * 10) / 10 == n) by {
            vstd::arithmetic::div_mod::lemma_div_multiples_vanish(n as int, 10);
        }
        assert((n * 10) % 10 == 0) by {
            vstd::arithmetic::div_mod::lemma_mod_multiples_basic(n as int, 10);
        }
        assert(dec_str(n * 10) == dec_str(n) + seq![digit_char(0)]);
        assert(seq![digit_char(0)] =~= seq!['0']);
        assert(dec_str(m * pow10(e)) == dec_str(n) + seq!['0']);
        assert(dec_str(n) == dec_str(m) + Seq::new((e - 1) as nat, |i: int| '0'));
        assert(dec_str(m) + Seq::new((e - 1) as nat, |i: int| '0') + seq!['0'] =~= dec_str(m)
            + Seq::new(e, |i: int| '0'));
    }
}

/// `pow10` is monotonic.
pub proof fn lemma_pow10_mono(a: nat, b: nat)
    requires
        a <= b,
    ensures
        pow10(a) <= pow10(b),
    decreases b,
{
    if a < b {
        lemma_pow10_mono(a, (b - 1) as nat);
    }
}

/// A digit run of length `k` at the front of `s` is exactly what
/// `split_digits` splits off.
proof fn lemma_split_digits_at(s: Seq<char>, k: int)
    requires
        0 <= k <= s.len(),
        forall|i: int| 0 <= i < k ==> is_digit_char(s[i]),
        k == s.len() || !is_digit_char(s[k]),
    ensures
        split_digits(s).0 == s.subrange(0, k),
        split_digits(s).1 == s.subrange(k, s.len() as int),
    decreases k,
{
    if k == 0 {
        assert(split_digits(s).0 =~= s.subrange(0, 0));
        assert(split_digits(s).1 =~= s.subrange(0, s.len() as int));
    } else {
        let t = s.drop_first();
        lemma_split_digits_at(t, k - 1);
        assert(seq![s[0]] + t.subrange(0, k - 1) =~= s.subrange(0, k));
        assert(t.subrange(k - 1, t.len() as int) =~= s.subrange(k, s.len() as int));
    }
}

fn is_digit_x(c: char) -> (b: bool)
    ensures
        b == is_digit_char(c),
{
    match char_digit(c) {
        Some(_) => true,
        None => false,
    }
}

/// The length of the digit run `v` starts with at position `from`.
fn scan_digits(v: &Vec<char>, from: usize) -> (k: usize)
    requires
        from <= v@.len(),
    ensures
        from <= k <= v@.len(),
        forall|i: int| from <= i < k ==> is_digit_char(v@[i]),
        k == v@.len() || !is_digit_char(v@[k as int]),
{
    let mut k = from;
    while k < v.len()
        invariant
            from <= k <= v@.len(),
            forall|i: int| from <= i < k ==> is_digit_char(v@[i]),
        decreases v@.len() - k,
    {
        if !is_digit_x(v[k]) {
            return k;
        }
        k = k + 1;
    }
    k
}

/// The value of a run of digits, at most 33 of them.
#[verifier::loop_isolation(false)]
pub(crate) fn digits_value(d: &Vec<char>) -> (r: u128)
    requires
        all_digits(d@),
        d@.len() <= 33,
    ensures
        r as nat == digits_to_nat(d@),
{
    let mut acc: u128 = 0;
    let mut i: usize = 0;
    while i < d.len()
        invariant
            i <= d@.len(),
            acc as nat == digits_to_nat(d@.subrange(0, i as int)),
        decreases d@.len() - i,
    {
        proof {
            lemma_digits_to_nat_bound(d@.subrange(0, i as int));
            lemma_pow10_mono(i as nat, 32);
            lemma_pow10_vals();
            assert(pow10(32) <= pow10(33)) by {
                lemma_pow10_mono(32, 33);
            }
        }
        let dv = match char_digit(d[i]) {
            Some(x) => x,
            None => 0,
        };
        acc = acc * 10 + (dv as u128);
        proof {
            lemma_digits_to_nat_push(d@.subrange(0, i as int), d@[i as int]);
            assert(d@.subrange(0, i as int).push(d@[i as int]) =~= d@.subrange(0, i + 1 as int));
        }
        i = i + 1;
    }
    assert(d@.subrange(0, d@.len() as int) =~= d@);
    acc
}

/// Ten to the power `n`, executable.
#[verifier::loop_isolation(false)]
fn pow10_x(n: usize) -> (r: u128)
    requires
        n <= 34,
    ensures
        r as nat == pow10(n as nat),
{
    let mut r: u128 = 1;
    let mut i: usize = 0;
    while i < n
        invariant
            i <= n,
            r as nat == pow10(i as nat),
        decreases n - i,
    {
        proof {
            lemma_pow10_mono(i as nat, 33);
            lemma_pow10_mono(33, 34);
            lemma_pow10_vals();
        }
        r = r * 10;
        i = i + 1;
    }
    r
}

/// Appends all of `src` to `dst`.
fn append_chars(dst: &mut Vec<char>, src: &Vec<char>)
    ensures
        final(dst)@ == old(dst)@ + src@,
{
    let ghost pre: Seq<char> = dst@;
    let mut i: usize = 0;
    while i < src.len()
        invariant
            i <= src@.len(),
            dst@ =~= pre + src@.subrange(0, i as int),
        decreases src@.len() - i,
    {
        dst.push(src[i]);
        assert(dst@ =~= pre + src@.subrange(0, i + 1 as int));
        i = i + 1;
    }
    assert(dst@ =~= pre + src@);
}

/// Splits the characters of a numeral into sign, integer digits and fraction
/// digits, exactly as `parse_decimal` reads them.
pub(crate) fn parse_decimal_chars(cs: &Vec<char>) -> (r: Option<(bool, Vec<char>, Vec<char>)>)
    ensures
        match r {
            Some(p) => parse_decimal(cs@) == Some((p.0, p.1@, p.2@)) && all_digits(p.1@)
                && all_digits(p.2@),
            None => parse_decimal(cs@) is None,
        },
{
    let neg = cs.len() > 0 && cs[0] == '-';
    let start: usize = if neg {
        1
    } else {
        0
    };
    let body = vec_subrange(cs, start, cs.len());
    proof {
        if neg {
            assert(body@ =~= cs@.drop_first());
        } else {
            assert(body@ =~= cs@);
        }
    }
    let k = scan_digits(&body, 0);
    proof {
        lemma_split_digits_at(body@, k as int);
    }
    if k == 0 {
        return None;
    }
    let ip = vec_subrange(&body, 0, k);
    if k == body.len() {
        let f: Vec<char> = Vec::new();
        assert(f@ =~= Seq::<char>::empty());
        return Some((neg, ip, f));
    }
    if body[k] != '.' {
        return None;
    }
    if k + 1 == body.len() {
        assert(split_digits(body@).1.len() == 1);
        return None;
    }
    let e = scan_digits(&body, k + 1);
    if e < body.len() {
        proof {
            let rest = split_digits(body@).1;
            assert(rest[0] == '.');
            assert(rest.drop_first() =~= body@.subrange(k + 1, body@.len() as int));
            assert(!is_digit_char(rest.drop_first()[e - (k + 1)]));
        }
        return None;
    }
    let f = vec_subrange(&body, k + 1, body.len());
    proof {
        let rest = split_digits(body@).1;
        assert(rest.drop_first() =~= body@.subrange(k + 1, body@.len() as int));
        assert(all_digits(rest.drop_first()));
    }
    Some((neg, ip, f))
}

/// Reads an exponent suffix at position `pos` of `body`, exactly as
/// `parse_exponent_suffix` reads `body[pos..]`.
fn exponent_chars(body: &Vec<char>, pos: usize) -> (r: Option<(bool, Vec<char>)>)
    requires
        pos < body@.len(),
    ensures
        match r {
            Some(p) => parse_exponent_suffix(body@.subrange(pos as int, body@.len() as int))
                == Some((p.0, p.1@)) && all_digits(p.1@),
            None => parse_exponent_suffix(body@.subrange(pos as int, body@.len() as int))
                is None,
        },
{
    let ghost rest: Seq<char> = body@.subrange(pos as int, body@.len() as int);
    assert(pos < body.len());
    let c0 = body[pos];
    if c0 != 'e' && c0 != 'E' {
        return None;
    }
    if pos + 1 == body.len() {
        return None;
    }
    proof {
        assert(rest.drop_first() =~= body@.subrange(pos + 1, body@.len() as int));
    }
    let c1 = body[pos + 1];
    let eneg = c1 == '-';
    let dstart: usize = if c1 == '-' || c1 == '+' {
        pos + 2
    } else {
        pos + 1
    };
    let ghost ebody: Seq<char> = body@.subrange(dstart as int, body@.len() as int);
    proof {
        if c1 == '-' || c1 == '+' {
            assert(rest.drop_first().drop_first() =~= ebody);
        }
    }
    if dstart == body.len() {
        assert(ebody.len() == 0);
        return None;
    }
    let e2 = scan_digits(body, dstart);
    proof {
        assert forall|i: int| 0 <= i < e2 - dstart implies is_digit_char(#[trigger] ebody[i]) by {
            assert(ebody[i] == body@[dstart + i]);
        }
        if e2 < body@.len() {
            assert(!is_digit_char(ebody[e2 - dstart]));
        }
        lemma_split_digits_at(ebody, e2 - dstart);
    }
    if e2 == dstart {
        return None;
    }
    if e2 < body.len() {
        return None;
    }
    let ed = vec_subrange(body, dstart, body.len());
    proof {
        assert(ed@ =~= ebody.subrange(0, e2 - dstart));
        assert(ebody.subrange(e2 - dstart, ebody.len() as int).len() == 0);
    }
    Some((eneg, ed))
}

/// Splits the characters of a numeral into sign, integer digits, fraction
/// digits and exponent, exactly as `parse_number` reads them.
pub(crate) fn parse_number_chars(cs: &Vec<char>) -> (r: Option<(bool, Vec<char>, Vec<char>, bool, Vec<char>)>)
    ensures
        match r {
            Some(p) => parse_number(cs@) == Some((p.0, p.1@, p.2@, p.3, p.4@)) && all_digits(p.1@)
                && all_digits(p.2@) && all_digits(p.4@),
            None => parse_number(cs@) is None,
        },
{
    let neg = cs.len() > 0 && cs[0] == '-';
    let start: usize = if neg {
        1
    } else {
        0
    };
    let body = vec_subrange(cs, start, cs.len());
    proof {
        if neg {
            assert(body@ =~= cs@.drop_first());
        } else {
            assert(body@ =~= cs@);
        }
    }
    let k = scan_digits(&body, 0);
    proof {
        lemma_split_digits_at(body@, k as int);
    }
    if k == 0 {
        return None;
    }
    let ip = vec_subrange(&body, 0, k);
    if k == body.len() {
        let fp: Vec<char> = Vec::new();
        let ed: Vec<char> = Vec::new();
        assert(fp@ =~= Seq::<char>::empty());
        assert(ed@ =~= Seq::<char>::empty());
        return Some((neg, ip, fp, false, ed));
    }
    let ghost rest: Seq<char> = split_digits(body@).1;
    assert(rest == body@.subrange(k as int, body@.len() as int));
    assert(rest[0] == body@[k as int]);
    if body[k] == '.' {
        let ghost frest: Seq<char> = body@.subrange(k + 1, body@.len() as int);
        proof {
            assert(rest.drop_first() =~= frest);
        }
        if k + 1 == body.len() {
            assert(frest.len() == 0);
            return None;
        }
        let e = scan_digits(&body, k + 1);
        proof {
            assert forall|i: int| 0 <= i < e - (k + 1) implies is_digit_char(
                #[trigger] frest[i],
            ) by {
                assert(frest[i] == body@[k + 1 + i]);
            }
            if e < body@.len() {
                assert(!is_digit_char(frest[e - (k + 1)]));
            }
            lemma_split_digits_at(frest, e - (k + 1));
        }
        if e == k + 1 {
            return None;
        }
        let fp = vec_subrange(&body, k + 1, e);
        proof {
            assert(fp@ =~= frest.subrange(0, e - (k + 1)));
        }
        let ghost f2: Seq<char> = split_digits(frest).1;
        proof {
            assert(f2 =~= body@.subrange(e as int, body@.len() as int));
        }
        if e == body.len() {
            let ed: Vec<char> = Vec::new();
            assert(ed@ =~= Seq::<char>::empty());
            assert(f2.len() == 0);
            return Some((neg, ip, fp, false, ed));
        }
        match exponent_chars(&body, e) {
            Some(p) => {
                let (en, ed) = p;
                Some((neg, ip, fp, en, ed))
            },
            None => None,
        }
    } else {
        match exponent_chars(&body, k) {
            Some(p) => {
                let (en, ed) = p;
                let fp: Vec<char> = Vec::new();
                assert(fp@ =~= Seq::<char>::empty());
                Some((neg, ip, fp, en, ed))
            },
            None => None,
        }
    }
}

/// The exact number of hundredths `m * 10^e2` when it fits the machine.
fn exact_hundredths(m: u128, e2: usize) -> (h: u128)
    requires
        (m as nat) < pow10(33),
        e2 <= 5,
    ensures
        h as nat == (m as nat) * pow10(e2 as nat),
{
    let p = pow10_x(e2);
    proof {
        lemma_pow10_vals();
        lemma_pow10_mono(e2 as nat, 5);
        assert((m as nat) * (p as nat) <= (pow10(33) - 1) * pow10(5)) by (nonlinear_arith)
            requires
                (m as nat) < pow10(33),
                (p as nat) <= pow10(5),
        ;
    }
    m * p
}

/// The number of hundredths in `m / 10^g`, rounded half away from zero; a
/// magnitude below half a hundredth rounds to zero without any arithmetic.
fn rounded_hundredths(m: u128, g: usize) -> (h: u128)
    requires
        (m as nat) < pow10(33),
        1 <= g,
    ensures
        h as nat == (2 * (m as nat) + pow10(g as nat)) / (2 * pow10(g as nat)),
{
    if g <= 34 {
        let p = pow10_x(g);
        proof {
            lemma_pow10_vals();
            lemma_pow10_mono(g as nat, 34);
            assert(p >= 1) by {
                lemma_pow10_mono(0, g as nat);
            }
        }
        (2 * m + p) / (2 * p)
    } else {
        proof {
            lemma_pow10_vals();
            lemma_pow10_mono(34, g as nat);
            assert(pow10(g as nat) >= 1) by {
                lemma_pow10_mono(0, g as nat);
            }
            assert(2 * (m as nat) + pow10(g as nat) < 2 * pow10(g as nat));
            vstd::arithmetic::div_mod::lemma_basic_div(
                (2 * (m as nat) + pow10(g as nat)) as int,
                2 * pow10(g as nat) as int,
            );
        }
        0
    }
}

/// Renders a decimal numeral as a price with exactly two digits after the
/// point, rounding half away from zero; `None` exactly on numerals that
/// `price_text_ok` rejects.
#[verifier::rlimit(50)]
pub fn format_price(text: &str) -> (r: Option<String>)
    ensures
        match r {
            Some(s) => price_text_ok(text@) && s@ == spec_price_of(text@),
            None => !price_text_ok(text@),
        },
{
    let cs = str_chars(text);
    let parsed = match parse_number_chars(&cs) {
        Some(p) => p,
        None => {
            return None;
        },
    };
    let (neg, ip, fp, eneg, ed) = parsed;
    if ip.len() > 16 || fp.len() > 17 || ed.len() > 3 {
        return None;
    }
    let mut digs = vec_subrange(&ip, 0, ip.len());
    append_chars(&mut digs, &fp);
    assert(digs@ =~= ip@ + fp@);
    proof {
        lemma_digits_to_nat_bound(digs@);
        lemma_pow10_mono(digs@.len() as nat, 33);
        lemma_digits_to_nat_bound(ed@);
        lemma_pow10_mono(ed@.len() as nat, 3);
        lemma_pow10_vals();
    }
    let m = digits_value(&digs);
    let ev = digits_value(&ed);
    let ee: i64 = (if eneg {
        -(ev as i64)
    } else {
        ev as i64
    }) - (fp.len() as i64);
    let ghost gm: nat = digits_to_nat(ip@ + fp@);
    let ghost gee: int = net_exponent(fp@, eneg, ed@);
    assert(m as nat == gm);
    assert(ee as int == gee);
    let mut out: Vec<char> = Vec::new();
    if neg {
        out.push('-');
    }
    let ghost sign: Seq<char> = if neg {
        seq!['-']
    } else {
        Seq::<char>::empty()
    };
    assert(out@ =~= sign);
    if m >= 1 && ee >= 4 {
        // The value is an integer with `ee` trailing zeros; no division is
        // involved, the zeros are appended to the mantissa's digits.
        proof {
            lemma_pow10_plus2(gee as nat);
            assert((gee + 2) as nat == (gee as nat) + 2);
        }
        let ghost hp: nat = gm * pow10(gee as nat);
        proof {
            assert(gm * pow10((gee as nat) + 2) == 100 * hp) by (nonlinear_arith)
                requires
                    pow10((gee as nat) + 2) == 100 * pow10(gee as nat),
                    hp == gm * pow10(gee as nat),
            ;
            assert(price_hundredths(gm, gee) == 100 * hp);
            assert((100 * hp) / 100 == hp) by {
                vstd::arithmetic::div_mod::lemma_div_multiples_vanish(hp as int, 100);
            }
            assert((100 * hp) % 100 == 0) by {
                assert(100 * hp == hp * 100);
                vstd::arithmetic::div_mod::lemma_mod_multiples_basic(hp as int, 100);
            }
            lemma_dec_str_shift(gm, gee as nat);
        }
        let wd = nat_to_digits(m);
        append_chars(&mut out, &wd);
        let zc: usize = ee as usize;
        let ghost pre: Seq<char> = out@;
        let mut z: usize = 0;
        while z < zc
            invariant
                z <= zc,
                out@ =~= pre + Seq::new(z as nat, |i: int| '0'),
            decreases zc - z,
        {
            out.push('0');
            assert(out@ =~= pre + Seq::new((z + 1) as nat, |i: int| '0'));
            z = z + 1;
        }
        out.push('.');
        out.push('0');
        out.push('0');
        assert(dec_str(0) =~= seq!['0']);
        assert(zero_pad(dec_str(0), 2) =~= seq!['0', '0']);
        assert(out@ =~= spec_price_chars(neg, gm, gee));
        return Some(chars_to_string(&out));
    }
    let mut h: u128 = 0;
    if m == 0 {
        proof {
            assert(gm == 0);
            if gee >= -2 {
                assert(price_hundredths(gm, gee) == gm * pow10((gee + 2) as nat));
                assert(gm * pow10((gee + 2) as nat) == 0) by (nonlinear_arith)
                    requires
                        gm == 0,
                ;
            } else {
                let g = (-(gee + 2)) as nat;
                assert(pow10(g) >= 1) by {
                    lemma_pow10_mono(0, g);
                }
                assert(2 * gm + pow10(g) == pow10(g));
                vstd::arithmetic::div_mod::lemma_basic_div(
                    pow10(g) as int,
                    2 * pow10(g) as int,
                );
                assert(price_hundredths(gm, gee) == (2 * gm + pow10(g)) / (2 * pow10(g)));
            }
        }
        assert(h as nat == price_hundredths(gm, gee));
    } else if ee >= -2 {
        // Here `ee <= 3`, so the exact value in hundredths fits the machine.
        assert((m as nat) < pow10(33));
        h = exact_hundredths(m, (ee + 2) as usize);
        assert(((ee + 2) as usize) as nat == (gee + 2) as nat);
        assert(h as nat == price_hundredths(gm, gee));
    } else {
        let g64: i64 = -(ee + 2);
        assert((m as nat) < pow10(33));
        h = rounded_hundredths(m, g64 as usize);
        assert((g64 as usize) as nat == (-(gee + 2)) as nat);
        assert(h as nat == price_hundredths(gm, gee));
    }
    let wd = nat_to_digits(h / 100);
    append_chars(&mut out, &wd);
    out.push('.');
    let cd = pad_digits(h % 100, 2);
    append_chars(&mut out, &cd);
    assert(out@ =~= spec_price_chars(neg, gm, gee));
    Some(chars_to_string(&out))
}

/// Groups digits in threes from the right with `sep`.
fn group_digits(v: &Vec<char>, sep: char) -> (r: Vec<char>)
    ensures
        r@ == grouped(v@, sep),
    decreases v@.len(),
{
    if v.len() <= 3 {
        let r = vec_subrange(v, 0, v.len());
        assert(r@ =~= v@);
        r
    } else {
        let cut = v.len() - 3;
        let head = vec_subrange(v, 0, cut);
        let mut r = group_digits(&head, sep);
        r.push(sep);
        let tail = vec_subrange(v, cut, v.len());
        append_chars(&mut r, &tail);
        assert(r@ =~= grouped(v@, sep));
        r
    }
}

/// Renders an integer numeral with a thousands separator every three digits;
/// `None` exactly on numerals that `volume_text_ok` rejects.
pub fn format_volume(text: &str, sep: char) -> (r: Option<String>)
    ensures
        match r {
            Some(s) => volume_text_ok(text@) && s@ == spec_volume_of(text@, sep),
            None => !volume_text_ok(text@),
        },
{
    let cs = str_chars(text);
    let parsed = match parse_decimal_chars(&cs) {
        Some(p) => p,
        None => {
            return None;
        },
    };
    let (neg, ip, f) = parsed;
    if f.len() > 0 || ip.len() > 19 {
        return None;
    }
    proof {
        lemma_digits_to_nat_bound(ip@);
        lemma_pow10_mono(ip@.len() as nat, 33);
        lemma_pow10_vals();
    }
    let n = digits_value(&ip);
    if neg && n > 9223372036854775808 {
        return None;
    }
    if !neg && n > 9223372036854775807 {
        return None;
    }
    let mut out: Vec<char> = Vec::new();
    if neg && n > 0 {
        out.push('-');
    }
    let gd = group_digits(&nat_to_digits(n), sep);
    append_chars(&mut out, &gd);
    assert(out@ =~= spec_volume_of(cs@, sep));
    Some(chars_to_string(&out))
}

} // verus!
