//! Numbers: signed decimals with six places after the point, their
//! arithmetic, their canonical text, and the reading of that text.

use crate::error::LispError;
use crate::text::string_push;
use vstd::prelude::*;

verus! {

/// How many units make one: a number counts millionths.
pub const SCALE: i64 = 1_000_000;

/// A signed decimal number with six fractional digits, held as a count of
/// millionths. Its view is that count.
#[derive(Clone, Copy, Debug, PartialEq, Eq, Structural)]
pub struct Number {
    pub units: i64,
}

impl View for Number {
    type V = int;

    open spec fn view(&self) -> int {
        self.units as int
    }
}

/// The four arithmetic operators.
#[derive(Clone, Copy, Debug, PartialEq, Eq, Structural)]
pub enum ArithOp {
    Add,
    Sub,
    Mul,
    Div,
}

/// Whether a count of millionths can be held.
pub open spec fn fits(v: int) -> bool {
    i64::MIN <= v <= i64::MAX
}

/// `a / b` rounded towards zero, for a positive `b`.
pub open spec fn trunc_div(a: int, b: int) -> int
    recommends
        b > 0,
{
    if a >= 0 {
        a / b
    } else {
        -((-a) / b)
    }
}

/// What an operator gives on two counts of millionths when nothing limits
/// the result. Products and quotients are rounded towards zero.
pub open spec fn arith_exact(op: ArithOp, a: int, b: int) -> int {
    match op {
        ArithOp::Add => a + b,
        ArithOp::Sub => a - b,
        ArithOp::Mul => trunc_div(a * b, SCALE as int),
        ArithOp::Div => if b > 0 {
            trunc_div(a * SCALE, b)
        } else {
            trunc_div(-(a * SCALE), -b)
        },
    }
}

/// The result of an operator: `DivisionByZero` for a zero divisor,
/// `NumericOverflow` where the result cannot be held.
pub open spec fn arith(op: ArithOp, a: int, b: int) -> Result<int, LispError> {
    if op == ArithOp::Div && b == 0 {
        Err(LispError::DivisionByZero)
    } else if !fits(arith_exact(op, a, b)) {
        Err(LispError::NumericOverflow)
    } else {
        Ok(arith_exact(op, a, b))
    }
}

/// A result over numbers, seen as a result over counts.
pub open spec fn number_result(r: Result<Number, LispError>) -> Result<int, LispError> {
    match r {
        Ok(n) => Ok(n@),
        Err(e) => Err(e),
    }
}

/// An optional number, seen as an optional count.
pub open spec fn number_option(r: Option<Number>) -> Option<int> {
    match r {
        Some(n) => Some(n@),
        None => None,
    }
}

fn trunc_quot(a: i128, b: i128) -> (q: i128)
    requires
        b > 0,
        a > i128::MIN,
    ensures
        q == trunc_div(a as int, b as int),
        a >= 0 ==> 0 <= q <= a,
        a < 0 ==> a <= q <= 0,
{
    if a >= 0 {
        let q: i128 = a / b;
        assert(0 <= q <= a) by (nonlinear_arith)
            requires
                q == (a as int) / (b as int),
                a >= 0,
                b > 0,
        ;
        q
    } else {
        let m: i128 = -a;
        let q: i128 = m / b;
        assert(0 <= q <= m) by (nonlinear_arith)
            requires
                q == (m as int) / (b as int),
                m >= 0,
                b > 0,
        ;
        -q
    }
}

impl Number {
    /// The whole number `n`.
    pub fn from_int(n: i32) -> (r: Number)
        ensures
            r@ == n * SCALE,
    {
        Number { units: (n as i64) * SCALE }
    }

    /// Applies an operator to two numbers.
    pub fn apply(op: ArithOp, a: Number, b: Number) -> (r: Result<Number, LispError>)
        ensures
            number_result(r) == arith(op, a@, b@),
    {
        let x: i128 = a.units as i128;
        let y: i128 = b.units as i128;
        let exact: i128 = match op {
            ArithOp::Add => x + y,
            ArithOp::Sub => x - y,
            ArithOp::Mul => {
                assert(-0x4000_0000_0000_0000_0000_0000_0000_0000 <= x * y
                    <= 0x4000_0000_0000_0000_0000_0000_0000_0000) by (nonlinear_arith)
                    requires
                        -0x8000_0000_0000_0000 <= x <= 0x8000_0000_0000_0000,
                        -0x8000_0000_0000_0000 <= y <= 0x8000_0000_0000_0000,
                ;
                trunc_quot(x * y, SCALE as i128)
            },
            ArithOp::Div => {
                if y == 0 {
                    return Err(LispError::DivisionByZero);
                }
                let scaled: i128 = x * (SCALE as i128);
                if y > 0 {
                    trunc_quot(scaled, y)
                } else {
                    trunc_quot(-scaled, -y)
                }
            },
        };
        if exact < i64::MIN as i128 || exact > i64::MAX as i128 {
            Err(LispError::NumericOverflow)
        } else {
            Ok(Number { units: exact as i64 })
        }
    }
}

// ---------------------------------------------------------------------
// Decimal text
// ---------------------------------------------------------------------
/// The character of a decimal digit.
pub open spec fn digit_char(d: int) -> char
    recommends
        0 <= d < 10,
{
    ((('0' as u32) as int) + d) as char
}

/// Whether a character is a decimal digit.
pub open spec fn is_digit(c: char) -> bool {
    '0' <= c <= '9'
}

/// The value of a decimal digit.
pub open spec fn digit_value(c: char) -> int {
    (c as u32) as int - (('0' as u32) as int)
}

/// Whether every character is a decimal digit.
pub open spec fn all_digits(s: Seq<char>) -> bool {
    forall|i: int| 0 <= i < s.len() ==> is_digit(#[trigger] s[i])
}

/// The decimal digits of a natural number, without leading zeros.
pub open spec fn nat_text(n: nat) -> Seq<char>
    decreases n,
{
    if n < 10 {
        seq![digit_char(n as int)]
    } else {
        nat_text(n / 10).push(digit_char((n % 10) as int))
    }
}

/// The digits after the decimal point of `f / (10 * unit)`, without
/// trailing zeros; `unit` is the place value of the first digit.
pub open spec fn frac_text(f: nat, unit: nat) -> Seq<char>
    decreases unit,
{
    if f == 0 || unit == 0 {
        Seq::<char>::empty()
    } else {
        seq![digit_char((f / unit) as int)] + frac_text(f % unit, unit / 10)
    }
}

/// Whether `n` is a power of ten.
pub open spec fn is_pow10(n: nat) -> bool
    decreases n,
{
    n == 1 || (n >= 10 && n % 10 == 0 && is_pow10(n / 10))
}

/// The magnitude of a count.
pub open spec fn magnitude(v: int) -> nat {
    if v < 0 {
        (-v) as nat
    } else {
        v as nat
    }
}

/// The canonical text of a number: a minus sign if it is negative, the
/// whole part, and, unless the fraction is zero, a point and the fraction
/// without trailing zeros.
pub open spec fn number_text(v: int) -> Seq<char> {
    let m = magnitude(v);
    let sign = if v < 0 {
        seq!['-']
    } else {
        Seq::<char>::empty()
    };
    let whole = nat_text(m / (SCALE as nat));
    let f = m % (SCALE as nat);
    if f == 0 {
        sign + whole
    } else {
        sign + whole + seq!['.'] + frac_text(f, (SCALE / 10) as nat)
    }
}

/// The value of a string of digits.
pub open spec fn digits_value(s: Seq<char>) -> nat
    decreases s.len(),
{
    if s.len() == 0 {
        0
    } else {
        (digits_value(s.drop_last()) * 10 + digit_value(s.last())) as nat
    }
}

/// The value, in millionths, of the digits after a decimal point; `unit`
/// is the place value of the first digit, and digits beyond the sixth are
/// dropped.
pub open spec fn frac_value(s: Seq<char>, unit: nat) -> nat
    decreases s.len(),
{
    if s.len() == 0 || unit == 0 {
        0
    } else {
        (digit_value(s[0]) * unit + frac_value(s.drop_first(), unit / 10)) as nat
    }
}

/// The index of the first point in `s`, or its length if it has none.
pub open spec fn dot_index(s: Seq<char>) -> int
    decreases s.len(),
{
    if s.len() == 0 || s[0] == '.' {
        0
    } else {
        1 + dot_index(s.drop_first())
    }
}

/// Whether a word begins with a minus sign.
pub open spec fn is_negative(w: Seq<char>) -> bool {
    w.len() > 0 && w[0] == '-'
}

/// A word without its minus sign.
pub open spec fn unsigned_part(w: Seq<char>) -> Seq<char> {
    if is_negative(w) {
        w.drop_first()
    } else {
        w
    }
}

/// The characters of a word before its first point, the sign apart.
pub open spec fn whole_part(w: Seq<char>) -> Seq<char> {
    unsigned_part(w).take(dot_index(unsigned_part(w)))
}

/// Whether a word holds a point.
pub open spec fn has_point(w: Seq<char>) -> bool {
    dot_index(unsigned_part(w)) < unsigned_part(w).len()
}

/// The characters of a word after its first point.
pub open spec fn frac_part(w: Seq<char>) -> Seq<char> {
    if has_point(w) {
        unsigned_part(w).skip(dot_index(unsigned_part(w)) + 1)
    } else {
        Seq::<char>::empty()
    }
}

/// The number that a word denotes, if it looks like one: an optional minus
/// sign, one or more digits, and optionally a point followed by one or
/// more digits. A word whose value cannot be held denotes no number.
pub open spec fn number_value(w: Seq<char>) -> Option<int> {
    let whole = whole_part(w);
    let frac = frac_part(w);
    if whole.len() == 0 || !all_digits(whole) || (has_point(w) && (frac.len() == 0 || !all_digits(
        frac,
    ))) {
        None
    } else {
        let m = digits_value(whole) * (SCALE as nat) + frac_value(frac, (SCALE / 10) as nat);
        let v = if is_negative(w) {
            -(m as int)
        } else {
            m as int
        };
        if fits(v) {
            Some(v)
        } else {
            None
        }
    }
}

fn digit_of(d: u64) -> (c: char)
    requires
        d < 10,
    ensures
        c == digit_char(d as int),
        is_digit(c),
        digit_value(c) == d,
{
    let b: u8 = 48u8 + (d as u8);
    b as char
}

fn push_nat_text(out: &mut String, n: u64)
    ensures
        final(out)@ == old(out)@ + nat_text(n as nat),
    decreases n,
{
    if n >= 10 {
        push_nat_text(out, n / 10);
    }
    string_push(out, digit_of(n % 10));
}

fn push_frac_text(out: &mut String, f: u64, unit: u64)
    requires
        is_pow10(unit as nat),
        f < 10 * unit,
    ensures
        final(out)@ == old(out)@ + frac_text(f as nat, unit as nat),
{
    let mut rest: u64 = f;
    let mut place: u64 = unit;
    while rest != 0
        invariant
            rest == 0 || (is_pow10(place as nat) && rest < 10 * place),
            out@ + frac_text(rest as nat, place as nat) == old(out)@ + frac_text(
                f as nat,
                unit as nat,
            ),
        decreases place,
    {
        let d: u64 = rest / place;
        assert(d < 10) by (nonlinear_arith)
            requires
                d == rest / place,
                rest < 10 * place,
                place > 0,
        ;
        string_push(out, digit_of(d));
        let next: u64 = rest % place;
        rest = next;
        place = place / 10;
    }
}

impl Number {
    /// Appends the canonical text of the number to `out`.
    pub fn push_text(&self, out: &mut String)
        ensures
            final(out)@ == old(out)@ + number_text(self@),
    {
        let wide: i128 = self.units as i128;
        let m: u64 = if wide < 0 {
            (-wide) as u64
        } else {
            wide as u64
        };
        if self.units < 0 {
            string_push(out, '-');
        }
        push_nat_text(out, m / 1_000_000);
        let f: u64 = m % 1_000_000;
        if f != 0 {
            string_push(out, '.');
            proof {
                reveal_with_fuel(is_pow10, 7);
            }
            push_frac_text(out, f, 100_000);
        }
    }

    /// The canonical text of the number.
    pub fn to_text(&self) -> (r: String)
        ensures
            r@ == number_text(self@),
    {
        let mut out = String::new();
        self.push_text(&mut out);
        out
    }
}

// ---------------------------------------------------------------------
// Reading a number
// ---------------------------------------------------------------------
/// `dot_index` is the first position that holds a point.
pub proof fn lemma_dot_index(s: Seq<char>, k: int)
    requires
        0 <= k <= s.len(),
        forall|j: int| 0 <= j < k ==> s[j] != '.',
        k == s.len() || s[k] == '.',
    ensures
        dot_index(s) == k,
    decreases k,
{
    if k > 0 {
        let t = s.drop_first();
        lemma_dot_index(t, k - 1);
    }
}

/// `dot_index` is a position of the text, or its length.
pub proof fn lemma_dot_index_bounds(s: Seq<char>)
    ensures
        0 <= dot_index(s) <= s.len(),
    decreases s.len(),
{
    if s.len() > 0 && s[0] != '.' {
        lemma_dot_index_bounds(s.drop_first());
    }
}

/// Any whole part at or above this is too large for a number, whatever
/// the sign and the fraction.
const WHOLE_CAP: u64 = 9_223_372_036_855;

spec fn capped(v: nat) -> nat {
    if v >= WHOLE_CAP {
        WHOLE_CAP as nat
    } else {
        v
    }
}

impl Number {
    /// The number that a word denotes, if it looks like one.
    pub fn parse(w: &Vec<char>) -> (r: Option<Number>)
        ensures
            number_option(r) == number_value(w@),
    {
        let n: usize = w.len();
        let negative: bool = n > 0 && w[0] == '-';
        let start: usize = if negative {
            1
        } else {
            0
        };
        let ghost body = unsigned_part(w@);
        let mut dot: usize = start;
        while dot < n && w[dot] != '.'
            invariant
                n == w.len(),
                start <= dot <= n,
                forall|j: int| start <= j < dot ==> w@[j] != '.',
            decreases n - dot,
        {
            dot += 1;
        }
        proof {
            lemma_dot_index(body, dot - start);
        }
        let ghost whole = whole_part(w@);
        let ghost frac = frac_part(w@);
        if dot == start {
            return None;
        }
        let mut acc: u64 = 0;
        let mut i: usize = start;
        while i < dot
            invariant
                start <= i <= dot <= n,
                n == w.len(),
                all_digits(w@.subrange(start as int, i as int)),
                acc == capped(digits_value(w@.subrange(start as int, i as int))),
                whole == w@.subrange(start as int, dot as int),
                whole == whole_part(w@),
            decreases dot - i,
        {
            let c: char = w[i];
            if !(c >= '0' && c <= '9') {
                assert(whole[i - start] == c);
                return None;
            }
            let d: u64 = (c as u32 - '0' as u32) as u64;
            let ghost prefix = w@.subrange(start as int, i as int);
            let ghost longer = w@.subrange(start as int, i as int + 1);
            assert(longer.drop_last() =~= prefix);
            acc = acc * 10 + d;
            if acc > WHOLE_CAP {
                acc = WHOLE_CAP;
            }
            i += 1;
        }
        let has_frac: bool = dot < n;
        let mut fv: u64 = 0;
        if has_frac {
            if dot + 1 == n {
                return None;
            }
            let mut j: usize = dot + 1;
            let mut place: u64 = 100_000;
            assert(frac.skip(0) =~= frac);
            while j < n
                invariant
                    dot + 1 <= j <= n,
                    n == w.len(),
                    frac == w@.subrange(dot as int + 1, n as int),
                    frac == frac_part(w@),
                    has_point(w@),
                    whole.len() > 0,
                    whole == whole_part(w@),
                    forall|k: int| 0 <= k < j - dot - 1 ==> is_digit(#[trigger] frac[k]),
                    fv + 10 * place <= 1_000_000,
                    frac_value(frac, 100_000) == fv + frac_value(
                        frac.skip(j - dot - 1),
                        place as nat,
                    ),
                decreases n - j,
            {
                let c: char = w[j];
                if !(c >= '0' && c <= '9') {
                    return None;
                }
                let d: u64 = (c as u32 - '0' as u32) as u64;
                let ghost rest = frac.skip(j - dot - 1);
                assert(rest.drop_first() =~= frac.skip(j - dot));
                assert(d * place <= 9 * place) by (nonlinear_arith)
                    requires
                        d <= 9,
                        place >= 0,
                ;
                fv = fv + d * place;
                place = place / 10;
                j += 1;
            }
        }
        if acc >= WHOLE_CAP {
            assert(digits_value(whole) * 1_000_000 >= 9_223_372_036_855_000_000) by (
                nonlinear_arith)
                requires
                    digits_value(whole) >= 9_223_372_036_855,
            ;
            return None;
        }
        let m: i128 = (acc as i128) * 1_000_000 + (fv as i128);
        let v: i128 = if negative {
            -m
        } else {
            m
        };
        if v < i64::MIN as i128 || v > i64::MAX as i128 {
            None
        } else {
            Some(Number { units: v as i64 })
        }
    }
}

/// The digits of a natural number are digits, at least one, and read back
/// as that number.
pub proof fn lemma_nat_text(n: nat)
    ensures
        all_digits(nat_text(n)),
        nat_text(n).len() >= 1,
        digits_value(nat_text(n)) == n,
    decreases n,
{
    if n < 10 {
        let t = nat_text(n);
        assert(digits_value(t.drop_last()) == 0);
    } else {
        lemma_nat_text(n / 10);
        let t = nat_text(n);
        assert(t.drop_last() =~= nat_text(n / 10));
    }
}

/// The digits of a fraction are digits and read back as that fraction.
pub proof fn lemma_frac_text(f: nat, unit: nat)
    requires
        is_pow10(unit),
        f < 10 * unit,
    ensures
        all_digits(frac_text(f, unit)),
        frac_value(frac_text(f, unit), unit) == f,
        f > 0 ==> frac_text(f, unit).len() >= 1,
    decreases unit,
{
    if f != 0 {
        let t = frac_text(f, unit);
        let d = f / unit;
        let rest = frac_text(f % unit, unit / 10);
        assert(d < 10 && d * unit + f % unit == f) by (nonlinear_arith)
            requires
                d == f / unit,
                f < 10 * unit,
                unit > 0,
        ;
        assert(t.drop_first() =~= rest);
        if unit != 1 {
            lemma_frac_text(f % unit, unit / 10);
        }
    }
}

/// The canonical text of a number reads back as that number.
pub proof fn lemma_number_text_value(v: int)
    requires
        fits(v),
    ensures
        number_value(number_text(v)) == Some(v),
{
    let m = magnitude(v);
    let w = number_text(v);
    let whole = nat_text(m / (SCALE as nat));
    let f = m % (SCALE as nat);
    let frac = frac_text(f, (SCALE / 10) as nat);
    lemma_nat_text(m / (SCALE as nat));
    reveal_with_fuel(is_pow10, 7);
    lemma_frac_text(f, (SCALE / 10) as nat);
    let body = unsigned_part(w);
    if f == 0 {
        lemma_dot_index(body, whole.len() as int);
        assert(body.take(whole.len() as int) =~= whole);
        assert(m == (m / (SCALE as nat)) * (SCALE as nat)) by (nonlinear_arith)
            requires
                m % (SCALE as nat) == 0,
        ;
    } else {
        lemma_dot_index(body, whole.len() as int);
        assert(body.take(whole.len() as int) =~= whole);
        assert(body.skip(whole.len() as int + 1) =~= frac);
        assert(m == (m / (SCALE as nat)) * (SCALE as nat) + f) by (nonlinear_arith)
            requires
                f == m % (SCALE as nat),
        ;
    }
}

/// The canonical text of a number is not empty, begins with a minus sign
/// or a digit, and holds only digits, a minus sign and a point.
pub proof fn lemma_number_text_chars(v: int)
    ensures
        number_text(v).len() >= 1,
        forall|i: int|
            0 <= i < number_text(v).len() ==> {
                let c = #[trigger] number_text(v)[i];
                is_digit(c) || c == '-' || c == '.'
            },
        number_text(v)[0] == '-' || is_digit(number_text(v)[0]),
{
    let m = magnitude(v);
    let f = m % (SCALE as nat);
    lemma_nat_text(m / (SCALE as nat));
    reveal_with_fuel(is_pow10, 7);
    lemma_frac_text(f, (SCALE / 10) as nat);
}

} // verus!
