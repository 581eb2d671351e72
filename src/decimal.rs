use vstd::prelude::*;

use crate::text::chars_of;

verus! {

/// An exact non-negative rational number `num / den`.
#[derive(Clone, Copy, Debug, PartialEq, Eq, Structural)]
pub struct Fraction {
    pub num: u64,
    pub den: u64,
}

impl Fraction {
    pub open spec fn wf(self) -> bool {
        self.den > 0
    }

    /// `self < other` as rational numbers.
    pub open spec fn below(self, other: Fraction) -> bool {
        (self.num as int) * (other.den as int) < (other.num as int) * (self.den as int)
    }

    /// The fraction 1, that is 100%.
    pub fn one() -> (r: Fraction)
        ensures
            r == (Fraction { num: 1, den: 1 }),
    {
        Fraction { num: 1, den: 1 }
    }

    pub fn is_below(&self, other: &Fraction) -> (r: bool)
        ensures
            r == self.below(*other),
    {
        let (x, y, z, w) = (self.num as u128, other.den as u128, other.num as u128, self.den as u128);
        assert(x * y <= u64::MAX * u64::MAX) by (nonlinear_arith)
            requires
                x <= u64::MAX,
                y <= u64::MAX,
        ;
        assert(z * w <= u64::MAX * u64::MAX) by (nonlinear_arith)
            requires
                z <= u64::MAX,
                w <= u64::MAX,
        ;
        let a = x * y;
        let b = z * w;
        a < b
    }
}

pub open spec fn pow10(k: nat) -> nat
    decreases k,
{
    if k == 0 {
        1
    } else {
        10 * pow10((k - 1) as nat)
    }
}

pub open spec fn is_digit(c: char) -> bool {
    '0' <= c && c <= '9'
}

pub open spec fn digit_value(c: char) -> nat {
    (c as u32 - '0' as u32) as nat
}

/// The state of reading a numeral from the left.
pub struct NumeralScan {
    /// The value of all digits before any exponent, the point ignored.
    pub mantissa: nat,
    /// How many of those digits stood after the point.
    pub frac_digits: nat,
    pub point: bool,
    /// A digit stood before any exponent.
    pub digit: bool,
    /// A character was read.
    pub started: bool,
    /// A leading `'-'` was read.
    pub negative: bool,
    /// An `'e'` or `'E'` opened the exponent.
    pub exp: bool,
    pub exp_signed: bool,
    pub exp_negative: bool,
    pub exp_digit: bool,
    /// The value of the exponent's digits.
    pub exp_value: nat,
    /// A `'%'` closed the numeral: what follows is ignored.
    pub ended: bool,
    /// A character that no numeral holds at that place was read.
    pub bad: bool,
}

/// Reads a numeral in the decimal form that `f32`'s `FromStr` takes: an optional sign,
/// digits with at most one `'.'`, and an optional exponent `e` or `E`, with an optional
/// sign, and digits. Where `percent` holds, the first `'%'` ends the numeral.
pub open spec fn scan_numeral(s: Seq<char>, percent: bool) -> NumeralScan
    decreases s.len(),
{
    if s.len() == 0 {
        NumeralScan {
            mantissa: 0,
            frac_digits: 0,
            point: false,
            digit: false,
            started: false,
            negative: false,
            exp: false,
            exp_signed: false,
            exp_negative: false,
            exp_digit: false,
            exp_value: 0,
            ended: false,
            bad: false,
        }
    } else {
        let st = scan_numeral(s.drop_last(), percent);
        let c = s.last();
        if st.bad || st.ended {
            st
        } else if is_digit(c) && !st.exp {
            NumeralScan {
                mantissa: st.mantissa * 10 + digit_value(c),
                frac_digits: if st.point { st.frac_digits + 1 } else { st.frac_digits },
                digit: true,
                started: true,
                ..st
            }
        } else if is_digit(c) {
            NumeralScan { exp_value: st.exp_value * 10 + digit_value(c), exp_digit: true, ..st }
        } else if c == '.' && !st.point && !st.exp {
            NumeralScan { point: true, started: true, ..st }
        } else if (c == '+' || c == '-') && !st.started {
            NumeralScan { negative: c == '-', started: true, ..st }
        } else if (c == '+' || c == '-') && st.exp && !st.exp_signed && !st.exp_digit {
            NumeralScan { exp_signed: true, exp_negative: c == '-', ..st }
        } else if (c == 'e' || c == 'E') && st.digit && !st.exp {
            NumeralScan { exp: true, ..st }
        } else if c == '%' && percent {
            NumeralScan { ended: true, ..st }
        } else {
            NumeralScan { bad: true, ..st }
        }
    }
}

/// A numeral that was read whole: it holds a digit, and an exponent has digits.
pub open spec fn numeral_ok(st: NumeralScan) -> bool {
    !st.bad && st.digit && (!st.exp || st.exp_digit)
}

/// The power of ten that scales the mantissa: the exponent, less the digits after the
/// point and `shift`.
pub open spec fn scale(st: NumeralScan, shift: int) -> int {
    (if st.exp_negative { -st.exp_value } else { st.exp_value as int }) - st.frac_digits - shift
}

/// The exact value of a numeral divided by `10^shift`, as `num / den` with `den` a power
/// of ten. `None` where the numeral is malformed, or its value is not one a `Fraction`
/// holds: negative, or with a numerator or denominator beyond `u64`, or read from an
/// exponent whose digits exceed `u64`. (`inf` and `NaN` are no numerals here.)
pub open spec fn numeral_value(st: NumeralScan, shift: int) -> Option<Fraction> {
    let z = scale(st, shift);
    let num: nat = if z >= 0 { st.mantissa * pow10(z as nat) } else { st.mantissa };
    let den: nat = if z >= 0 { 1 } else { pow10((-z) as nat) };
    if !numeral_ok(st) || st.exp_value > u64::MAX || (st.negative && st.mantissa > 0) {
        None
    } else if num <= u64::MAX && den <= u64::MAX {
        Some(Fraction { num: num as u64, den: den as u64 })
    } else {
        None
    }
}

/// The fraction that a coverage token stands for: `"-"` is 1, and a numeral before a
/// `'%'` is its value over 100, as far as a `Fraction` holds it.
pub open spec fn percentage_of(s: Seq<char>) -> Option<Fraction> {
    if s == seq!['-'] {
        Some(Fraction { num: 1, den: 1 })
    } else {
        numeral_value(scan_numeral(s, true), 2)
    }
}

/// The fraction that a numeral such as `"0.95"` stands for.
pub open spec fn fraction_of(s: Seq<char>) -> Option<Fraction> {
    numeral_value(scan_numeral(s, false), 0)
}

proof fn lemma_pow10_mono(a: nat, b: nat)
    requires
        a <= b,
    ensures
        1 <= pow10(a) <= pow10(b),
    decreases b,
{
    if b > 0 {
        if a < b {
            lemma_pow10_mono(a, (b - 1) as nat);
        } else {
            lemma_pow10_mono((b - 1) as nat, (b - 1) as nat);
        }
    }
}

fn pow10_u64(k: usize) -> (r: u64)
    requires
        k <= 19,
    ensures
        r == pow10(k as nat),
{
    proof {
        reveal_with_fuel(pow10, 19);
        assert(pow10(18) == 1000000000000000000nat);
    }
    let mut p: u64 = 1;
    let mut j: usize = 0;
    while j < k
        invariant
            j <= k <= 19,
            p == pow10(j as nat),
            pow10(18) == 1000000000000000000nat,
        decreases k - j,
    {
        proof {
            lemma_pow10_mono(j as nat, 18);
        }
        p = p * 10;
        j = j + 1;
    }
    p
}

struct Numeral {
    ok: bool,
    big: bool,
    mantissa: u64,
    frac_digits: usize,
    negative: bool,
    exp_negative: bool,
    exp_big: bool,
    exp_value: u64,
}

spec fn numeral_matches(n: Numeral, st: NumeralScan) -> bool {
    &&& n.ok == numeral_ok(st)
    &&& n.big ==> st.mantissa > u64::MAX
    &&& !n.big ==> n.mantissa == st.mantissa
    &&& n.frac_digits == st.frac_digits
    &&& n.negative == st.negative
    &&& n.exp_negative == st.exp_negative
    &&& n.exp_big ==> st.exp_value > u64::MAX
    &&& !n.exp_big ==> n.exp_value == st.exp_value
}

/// `d` appended to the digits `m`, or `None` where that leaves `u64`.
fn push_digit(m: u64, d: u64) -> (r: Option<u64>)
    requires
        d <= 9,
    ensures
        r matches Some(v) ==> v == m * 10 + d,
        r is None ==> m * 10 + d > u64::MAX,
{
    if m > (u64::MAX - d) / 10 {
        assert(m * 10 + d > u64::MAX) by (nonlinear_arith)
            requires
                m > (u64::MAX - d) / 10,
                d <= 9,
        ;
        None
    } else {
        assert(m * 10 + d <= u64::MAX) by (nonlinear_arith)
            requires
                m <= (u64::MAX - d) / 10,
                d <= 9,
        ;
        Some(m * 10 + d)
    }
}

fn read_numeral(s: &Vec<char>, percent: bool) -> (r: Numeral)
    ensures
        numeral_matches(r, scan_numeral(s@, percent)),
{
    let mut m: u64 = 0;
    let mut big = false;
    let mut k: usize = 0;
    let mut point = false;
    let mut digit = false;
    let mut started = false;
    let mut negative = false;
    let mut exp = false;
    let mut exp_signed = false;
    let mut exp_negative = false;
    let mut exp_digit = false;
    let mut x: u64 = 0;
    let mut exp_big = false;
    let mut ended = false;
    let mut bad = false;
    let mut i: usize = 0;
    while i < s.len()
        invariant
            i <= s.len(),
            k <= i,
            ({
                let st = scan_numeral(s@.take(i as int), percent);
                &&& st.frac_digits == k
                &&& st.point == point
                &&& st.digit == digit
                &&& st.started == started
                &&& st.negative == negative
                &&& st.exp == exp
                &&& st.exp_signed == exp_signed
                &&& st.exp_negative == exp_negative
                &&& st.exp_digit == exp_digit
                &&& st.ended == ended
                &&& st.bad == bad
                &&& big ==> st.mantissa > u64::MAX
                &&& !big ==> st.mantissa == m
                &&& exp_big ==> st.exp_value > u64::MAX
                &&& !exp_big ==> st.exp_value == x
            }),
        decreases s.len() - i,
    {
        let c = s[i];
        assert(s@.take(i + 1).drop_last() == s@.take(i as int));
        if bad || ended {
        } else if '0' <= c && c <= '9' && !exp {
            let d = (c as u32 - '0' as u32) as u64;
            if !big {
                match push_digit(m, d) {
                    Some(v) => m = v,
                    None => big = true,
                }
            }
            if point {
                k = k + 1;
            }
            digit = true;
            started = true;
        } else if '0' <= c && c <= '9' {
            let d = (c as u32 - '0' as u32) as u64;
            if !exp_big {
                match push_digit(x, d) {
                    Some(v) => x = v,
                    None => exp_big = true,
                }
            }
            exp_digit = true;
        } else if c == '.' && !point && !exp {
            point = true;
            started = true;
        } else if (c == '+' || c == '-') && !started {
            negative = c == '-';
            started = true;
        } else if (c == '+' || c == '-') && exp && !exp_signed && !exp_digit {
            exp_signed = true;
            exp_negative = c == '-';
        } else if (c == 'e' || c == 'E') && digit && !exp {
            exp = true;
        } else if c == '%' && percent {
            ended = true;
        } else {
            bad = true;
        }
        i = i + 1;
    }
    assert(s@.take(s.len() as int) == s@);
    Numeral {
        ok: !bad && digit && (!exp || exp_digit),
        big,
        mantissa: m,
        frac_digits: k,
        negative,
        exp_negative,
        exp_big,
        exp_value: x,
    }
}

proof fn lemma_pow10_limits()
    ensures
        pow10(19) <= u64::MAX,
        pow10(20) > u64::MAX,
{
    reveal_with_fuel(pow10, 21);
    assert(pow10(19) == 10000000000000000000nat);
    assert(pow10(20) == 100000000000000000000nat);
}

/// The value of a numeral that was read, divided by `10^shift`.
fn value_of(n: Numeral, shift: i128, Ghost(st): Ghost<NumeralScan>) -> (r: Option<Fraction>)
    requires
        numeral_matches(n, st),
        0 <= shift <= 2,
    ensures
        r == numeral_value(st, shift as int),
        r matches Some(f) ==> f.wf(),
{
    proof {
        lemma_pow10_limits();
    }
    if !n.ok || n.exp_big || n.big || (n.negative && n.mantissa > 0) {
        proof {
            let z = scale(st, shift as int);
            if n.big && z >= 0 {
                lemma_pow10_mono(0, z as nat);
                assert(st.mantissa * pow10(z as nat) >= st.mantissa) by (nonlinear_arith)
                    requires
                        pow10(z as nat) >= 1,
                ;
            }
        }
        return None;
    }
    let e: i128 = if n.exp_negative {
        -(n.exp_value as i128)
    } else {
        n.exp_value as i128
    };
    let z: i128 = e - n.frac_digits as i128 - shift;
    assert(z == scale(st, shift as int));
    if z >= 0 {
        if n.mantissa == 0 {
            assert(st.mantissa * pow10(z as nat) == 0) by (nonlinear_arith)
                requires
                    st.mantissa == 0,
            ;
            return Some(Fraction { num: 0, den: 1 });
        }
        if z > 19 {
            proof {
                lemma_pow10_mono(20, z as nat);
                assert(st.mantissa * pow10(z as nat) >= pow10(z as nat)) by (nonlinear_arith)
                    requires
                        st.mantissa >= 1,
                ;
            }
            return None;
        }
        let p = pow10_u64(z as usize);
        let (mm, pp) = (n.mantissa as u128, p as u128);
        assert(mm * pp <= u64::MAX * u64::MAX) by (nonlinear_arith)
            requires
                mm <= u64::MAX,
                pp <= u64::MAX,
        ;
        let wide = mm * pp;
        if wide > u64::MAX as u128 {
            None
        } else {
            Some(Fraction { num: wide as u64, den: 1 })
        }
    } else {
        if z < -19 {
            proof {
                lemma_pow10_mono(20, (-z) as nat);
            }
            return None;
        }
        let den = pow10_u64((-z) as usize);
        proof {
            lemma_pow10_mono(0, (-z) as nat);
        }
        Some(Fraction { num: n.mantissa, den })
    }
}

/// Reads a coverage token: `"-"`, or a numeral before a `'%'`.
pub fn parse_percentage(s: &Vec<char>) -> (r: Option<Fraction>)
    ensures
        r == percentage_of(s@),
        r matches Some(f) ==> f.wf(),
{
    if s.len() == 1 && s[0] == '-' {
        assert(s@ == seq!['-']);
        return Some(Fraction::one());
    }
    assert(s@ != seq!['-']);
    let n = read_numeral(s, true);
    value_of(n, 2, Ghost(scan_numeral(s@, true)))
}

/// Reads a coverage token of the report's summary such as `"96.67%"` or `"-"`.
pub fn coverage_pct_from_str(coverage_str: &str) -> (r: Option<Fraction>)
    ensures
        r == percentage_of(coverage_str@),
        r matches Some(f) ==> f.wf(),
{
    let cs = chars_of(coverage_str);
    parse_percentage(&cs)
}

/// Reads a numeral such as `"0.95"`, `"1"` or `"9.5e-1"`.
pub fn parse_fraction(s: &str) -> (r: Option<Fraction>)
    ensures
        r == fraction_of(s@),
        r matches Some(f) ==> f.wf(),
{
    let cs = chars_of(s);
    let n = read_numeral(&cs, false);
    value_of(n, 0, Ghost(scan_numeral(cs@, false)))
}

pub open spec fn all_digits(s: Seq<char>) -> bool {
    forall|k: int| 0 <= k < s.len() ==> is_digit(#[trigger] s[k])
}

/// The value of a run of decimal digits.
pub open spec fn digits_value(s: Seq<char>) -> nat
    decreases s.len(),
{
    if s.len() == 0 {
        0
    } else {
        digits_value(s.drop_last()) * 10 + digit_value(s.last())
    }
}

proof fn lemma_scan_digits(p: Seq<char>, b: Seq<char>, percent: bool)
    requires
        all_digits(b),
        !scan_numeral(p, percent).bad,
        !scan_numeral(p, percent).ended,
        !scan_numeral(p, percent).exp,
    ensures
        ({
            let st = scan_numeral(p, percent);
            let r = scan_numeral(p + b, percent);
            &&& r.mantissa == st.mantissa * pow10(b.len()) + digits_value(b)
            &&& r.frac_digits == if st.point { st.frac_digits + b.len() } else { st.frac_digits }
            &&& r.point == st.point
            &&& r.digit == (st.digit || b.len() > 0)
            &&& !r.ended
            &&& !r.bad
            &&& !r.exp
            &&& r.negative == st.negative
            &&& r.exp_value == st.exp_value
            &&& r.exp_negative == st.exp_negative
        }),
    decreases b.len(),
{
    if b.len() == 0 {
        assert(p + b =~= p);
        assert(pow10(0) == 1);
        assert(scan_numeral(p, percent).mantissa * 1 == scan_numeral(p, percent).mantissa);
    } else {
        let c = b.drop_last();
        assert(all_digits(c)) by {
            assert forall|k: int| 0 <= k < c.len() implies is_digit(#[trigger] c[k]) by {
                assert(c[k] == b[k]);
            }
        }
        lemma_scan_digits(p, c, percent);
        assert((p + b).drop_last() =~= p + c);
        assert(is_digit(b[b.len() - 1]));
        assert(b.last() == (p + b).last());
        let q = scan_numeral(p + c, percent);
        assert(!q.exp && !q.bad && !q.ended);
        let m = scan_numeral(p, percent).mantissa;
        let n = b.len();
        assert(pow10(n) == 10 * pow10((n - 1) as nat));
        assert((m * pow10((n - 1) as nat) + digits_value(c)) * 10 + digit_value(b.last()) == m * pow10(n)
            + (digits_value(c) * 10 + digit_value(b.last()))) by (nonlinear_arith)
            requires
                pow10(n) == 10 * pow10((n - 1) as nat),
        ;
    }
}

/// A coverage token of digits, a point, digits and `'%'` reads as its value over 100:
/// `a.b%` is `(a * 10^|b| + b) / 10^(|b| + 2)`, while its digits fit a `u64` and at most
/// 17 stand after the point; and `"-"` reads as exactly 1.
pub proof fn lemma_percentage_reads_hundredths(a: Seq<char>, b: Seq<char>)
    requires
        a.len() > 0,
        all_digits(a),
        all_digits(b),
        b.len() <= 17,
        digits_value(a) * pow10(b.len()) + digits_value(b) <= u64::MAX,
    ensures
        percentage_of(a + seq!['.'] + b + seq!['%']) == Some(
            Fraction {
                num: (digits_value(a) * pow10(b.len()) + digits_value(b)) as u64,
                den: pow10(b.len() + 2) as u64,
            },
        ),
        percentage_of(seq!['-']) == Some(Fraction { num: 1, den: 1 }),
{
    let e = Seq::<char>::empty();
    assert(e + a =~= a);
    lemma_scan_digits(e, a, true);
    let pa = a + seq!['.'];
    assert(pa.drop_last() =~= a);
    assert(scan_numeral(e, true).mantissa == 0);
    assert(pow10(0) == 1);
    let sa = scan_numeral(a, true);
    assert(sa.mantissa == digits_value(a) && !sa.point && sa.digit && !sa.bad && !sa.ended);
    assert(pa.last() == '.');
    let sp = scan_numeral(pa, true);
    assert(sp.mantissa == digits_value(a) && sp.point && sp.digit && !sp.bad && !sp.ended
        && sp.frac_digits == 0);
    lemma_scan_digits(pa, b, true);
    let t = pa + b + seq!['%'];
    assert(t.drop_last() =~= pa + b);
    let sb = scan_numeral(pa + b, true);
    assert(sb.mantissa == digits_value(a) * pow10(b.len()) + digits_value(b));
    assert(sb.frac_digits == b.len() && sb.digit && !sb.bad && !sb.ended);
    assert(t.last() == '%');
    let st = scan_numeral(t, true);
    assert(st.mantissa == sb.mantissa && st.frac_digits == b.len() && st.digit && !st.bad);
    assert(a + seq!['.'] + b + seq!['%'] =~= t);
    assert(t.len() >= 3);
    assert(t != seq!['-']) by {
        assert(seq!['-'].len() == 1);
    }
    lemma_pow10_mono(b.len() + 2, 19);
    reveal_with_fuel(pow10, 20);
    assert(pow10(19) == 10000000000000000000nat);
}

} // verus!
