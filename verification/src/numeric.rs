//! Exact fixed-point numbers.
//!
//! Every numeric quantity of the design dialect (coordinates, widths,
//! clearances, diameters, rotations) is held as a signed count of
//! millionths of a design unit.  Decimal text is converted exactly; any
//! fractional digits beyond the sixth are dropped, and magnitudes above
//! [`MAX_ABS_MICROS`] are rejected so that later arithmetic stays inside
//! `i64`.

use vstd::prelude::*;

verus! {

/// Millionths per whole design unit.
pub const MICROS_PER_UNIT: i64 = 1_000_000;

/// Largest magnitude, in millionths, that a parsed number may have.
pub const MAX_ABS_MICROS: i64 = 1_000_000_000_000_000;

pub open spec fn is_digit(c: char) -> bool {
    '0' <= c && c <= '9'
}

pub open spec fn digit_val(c: char) -> int {
    c as int - '0' as int
}

pub open spec fn all_digits(s: Seq<char>) -> bool {
    forall|i: int| 0 <= i < s.len() ==> is_digit(#[trigger] s[i])
}

/// The value of a run of decimal digits, most significant first.
pub open spec fn digits_val(s: Seq<char>) -> int
    decreases s.len(),
{
    if s.len() == 0 {
        0
    } else {
        digits_val(s.subrange(0, s.len() - 1)) * 10 + digit_val(s[s.len() - 1])
    }
}

/// Length of the longest digit run at the front of `s`.
pub open spec fn digits_prefix_len(s: Seq<char>) -> int
    decreases s.len(),
{
    if s.len() > 0 && is_digit(s[0]) {
        1 + digits_prefix_len(s.subrange(1, s.len() as int))
    } else {
        0
    }
}

/// The unsigned body of a decimal literal: digits, optionally split by a
/// single dot, with at least one digit overall.
pub open spec fn dec_body_ok(b: Seq<char>) -> bool {
    let k = digits_prefix_len(b);
    if k == b.len() {
        k > 0
    } else {
        &&& b[k] == '.'
        &&& all_digits(b.subrange(k + 1, b.len() as int))
        &&& (k > 0 || b.len() > k + 1)
    }
}

/// The fractional digits of the body, empty when there is no dot.
pub open spec fn dec_frac_digits(b: Seq<char>) -> Seq<char> {
    let k = digits_prefix_len(b);
    if k == b.len() {
        Seq::empty()
    } else {
        b.subrange(k + 1, b.len() as int)
    }
}

/// The first six fractional digits, padded on the right with zeros.
pub open spec fn frac_micros(f: Seq<char>) -> int {
    let g = if f.len() >= 6 {
        f.subrange(0, 6)
    } else {
        f + Seq::new((6 - f.len()) as nat, |i: int| '0')
    };
    digits_val(g)
}

/// Strips an optional leading sign.
pub open spec fn dec_body(s: Seq<char>) -> Seq<char> {
    if s.len() > 0 && (s[0] == '+' || s[0] == '-') {
        s.subrange(1, s.len() as int)
    } else {
        s
    }
}

pub open spec fn dec_is_negative(s: Seq<char>) -> bool {
    s.len() > 0 && s[0] == '-'
}

/// Magnitude of the body in millionths.
pub open spec fn dec_magnitude_micros(b: Seq<char>) -> int {
    digits_val(b.subrange(0, digits_prefix_len(b))) * (MICROS_PER_UNIT as int) + frac_micros(
        dec_frac_digits(b),
    )
}

/// Whether `s` is decimal text this crate accepts: an optional sign, a
/// digit run with at most one dot, and a magnitude within bounds.
pub open spec fn is_decimal(s: Seq<char>) -> bool {
    &&& dec_body_ok(dec_body(s))
    &&& dec_magnitude_micros(dec_body(s)) <= MAX_ABS_MICROS as int
}

/// The exact value of accepted decimal text, in millionths, truncated
/// toward zero past the sixth fractional digit.
pub open spec fn dec_value_micros(s: Seq<char>) -> int {
    if dec_is_negative(s) {
        -dec_magnitude_micros(dec_body(s))
    } else {
        dec_magnitude_micros(dec_body(s))
    }
}

/// Whether `s` is a plain unsigned digit run whose value fits `usize`.
pub open spec fn is_usize_digits(s: Seq<char>) -> bool {
    &&& s.len() > 0
    &&& all_digits(s)
    &&& digits_val(s) <= usize::MAX as int
}

proof fn lemma_digits_val_nonneg(s: Seq<char>)
    requires
        all_digits(s),
    ensures
        digits_val(s) >= 0,
    decreases s.len(),
{
    if s.len() > 0 {
        let pre = s.subrange(0, s.len() - 1);
        assert(all_digits(pre));
        lemma_digits_val_nonneg(pre);
    }
}

proof fn lemma_digits_val_take_mono(s: Seq<char>, j: int)
    requires
        all_digits(s),
        0 <= j <= s.len(),
    ensures
        digits_val(s) >= digits_val(s.subrange(0, j)),
    decreases s.len() - j,
{
    if j < s.len() {
        let t = s.subrange(0, j + 1);
        assert(t.subrange(0, j) =~= s.subrange(0, j));
        assert(all_digits(t));
        lemma_digits_val_nonneg(s.subrange(0, j));
        assert(digits_val(t) == digits_val(s.subrange(0, j)) * 10 + digit_val(s[j]));
        lemma_digits_val_take_mono(s, j + 1);
    } else {
        assert(s.subrange(0, j) =~= s);
    }
}

/// What `digits_prefix_len` means, spelled out.
proof fn lemma_digits_prefix_len_props(s: Seq<char>)
    ensures
        0 <= digits_prefix_len(s) <= s.len(),
        all_digits(s.subrange(0, digits_prefix_len(s))),
        digits_prefix_len(s) < s.len() ==> !is_digit(s[digits_prefix_len(s)]),
    decreases s.len(),
{
    if s.len() > 0 && is_digit(s[0]) {
        let rest = s.subrange(1, s.len() as int);
        lemma_digits_prefix_len_props(rest);
        let k = digits_prefix_len(s);
        assert forall|i: int| 0 <= i < k implies is_digit(#[trigger] s.subrange(0, k)[i]) by {
            if i > 0 {
                assert(is_digit(rest.subrange(0, k - 1)[i - 1]));
            }
        }
        if k < s.len() {
            assert(s[k] == rest[k - 1]);
        }
    }
}

/// The numeric value of a digit character.
fn digit_value(c: char) -> (d: u32)
    requires
        is_digit(c),
    ensures
        d as int == digit_val(c),
        d <= 9,
{
    (c as u32) - ('0' as u32)
}

spec fn pow10(n: int) -> int
    decreases n,
{
    if n <= 0 {
        1
    } else {
        10 * pow10(n - 1)
    }
}

proof fn lemma_digits_val_lt_pow10(s: Seq<char>)
    requires
        all_digits(s),
    ensures
        0 <= digits_val(s) < pow10(s.len() as int),
    decreases s.len(),
{
    if s.len() > 0 {
        let pre = s.subrange(0, s.len() - 1);
        assert(all_digits(pre));
        lemma_digits_val_lt_pow10(pre);
    }
}

proof fn lemma_six_digits_lt_million(s: Seq<char>)
    requires
        all_digits(s),
        s.len() <= 6,
    ensures
        0 <= digits_val(s) <= 999_999,
{
    lemma_digits_val_lt_pow10(s);
    reveal_with_fuel(pow10, 8);
    assert(pow10(6) == 1_000_000);
    if s.len() < 6 {
        lemma_pow10_mono(s.len() as int, 6);
    }
}

proof fn lemma_pow10_mono(a: int, b: int)
    requires
        0 <= a <= b,
    ensures
        pow10(a) <= pow10(b),
    decreases b - a,
{
    if a < b {
        lemma_pow10_mono(a, b - 1);
        assert(pow10(b) == 10 * pow10(b - 1));
        lemma_pow10_pos(b - 1);
    }
}

proof fn lemma_pow10_pos(a: int)
    ensures
        pow10(a) >= 1,
    decreases (if a > 0 { a } else { 0 }),
{
    if a > 0 {
        lemma_pow10_pos(a - 1);
    }
}

/// Converts a run of decimal digits `s[from..to)` to its value, failing
/// once the value passes `cap`.
fn parse_digit_run(s: &str, from: usize, to: usize, cap: i64) -> (r: Option<i64>)
    requires
        from <= to <= s@.len(),
        all_digits(s@.subrange(from as int, to as int)),
        0 <= cap <= 1_000_000_000_000_000_000,
    ensures
        match r {
            Some(v) => v as int == digits_val(s@.subrange(from as int, to as int)) && 0 <= v <= cap,
            None => digits_val(s@.subrange(from as int, to as int)) > cap as int,
        },
{
    let ghost d = s@.subrange(from as int, to as int);
    let mut val: i64 = 0;
    let mut i: usize = from;
    while i < to
        invariant
            from <= i <= to <= s@.len(),
            all_digits(d),
            d == s@.subrange(from as int, to as int),
            0 <= val <= cap,
            0 <= cap <= 1_000_000_000_000_000_000,
            val as int == digits_val(d.subrange(0, i - from)),
        decreases to - i,
    {
        let c = s.get_char(i);
        assert(c == d[i - from]);
        assert(is_digit(c));
        let dv: i64 = digit_value(c) as i64;
        proof {
            lemma_digits_val_nonneg(d.subrange(0, i - from));
            assert(d.subrange(0, i + 1 - from).subrange(0, i - from) =~= d.subrange(
                0,
                i - from,
            ));
        }
        if val > 922_337_203_685_477_579 {
            proof {
                let t = d.subrange(0, i + 1 - from);
                assert(digits_val(t) == digits_val(d.subrange(0, i - from)) * 10 + digit_val(
                    d[i - from],
                ));
                lemma_digits_val_take_mono(d, i + 1 - from);
            }
            return None;
        }
        val = val * 10 + dv;
        if val > cap {
            proof {
                let t = d.subrange(0, i + 1 - from);
                assert(digits_val(t) == digits_val(d.subrange(0, i - from)) * 10 + digit_val(
                    d[i - from],
                ));
                lemma_digits_val_take_mono(d, i + 1 - from);
            }
            return None;
        }
        i = i + 1;
    }
    proof {
        assert(d.subrange(0, to - from) =~= d);
    }
    Some(val)
}

/// Decides whether `c` is a decimal digit.
fn digit_char(c: char) -> (r: bool)
    ensures
        r == is_digit(c),
{
    '0' <= c && c <= '9'
}

/// Scans the digit run starting at `from`, returning its end.
fn scan_digits(s: &str, from: usize, len: usize) -> (end: usize)
    requires
        from <= len == s@.len(),
    ensures
        from <= end <= len,
        all_digits(s@.subrange(from as int, end as int)),
        end - from == digits_prefix_len(s@.subrange(from as int, len as int)),
{
    let mut i: usize = from;
    while i < len && digit_char(s.get_char(i))
        invariant
            from <= i <= len == s@.len(),
            all_digits(s@.subrange(from as int, i as int)),
            digits_prefix_len(s@.subrange(from as int, len as int)) == (i - from)
                + digits_prefix_len(s@.subrange(i as int, len as int)),
        decreases len - i,
    {
        proof {
            let rest = s@.subrange(i as int, len as int);
            assert(rest[0] == s@[i as int]);
            assert(rest.subrange(1, rest.len() as int) =~= s@.subrange(i + 1, len as int));
            assert(s@.subrange(from as int, i + 1) =~= s@.subrange(from as int, i as int).push(
                s@[i as int],
            ));
        }
        i = i + 1;
    }
    proof {
        let rest = s@.subrange(i as int, len as int);
        if i < len {
            assert(rest[0] == s@[i as int]);
            assert(!is_digit(rest[0]));
        }
        assert(digits_prefix_len(rest) == 0);
    }
    i
}

/// Parses decimal text into millionths of a unit.
///
/// Returns `Ok` exactly on text accepted by [`is_decimal`], and then the
/// value equals [`dec_value_micros`] of the text.
pub fn parse_decimal(s: &str) -> (r: Result<i64, String>)
    ensures
        r is Ok <==> is_decimal(s@),
        r is Ok ==> r->Ok_0 as int == dec_value_micros(s@) && -MAX_ABS_MICROS <= r->Ok_0
            <= MAX_ABS_MICROS,
{
    let len = s.unicode_len();
    let mut pos: usize = 0;
    let mut negative = false;
    if len > 0 {
        let c0 = s.get_char(0);
        if c0 == '+' {
            pos = 1;
        } else if c0 == '-' {
            pos = 1;
            negative = true;
        }
    }
    let ghost body = dec_body(s@);
    proof {
        assert(body =~= s@.subrange(pos as int, len as int));
    }
    let int_end = scan_digits(s, pos, len);
    let ghost k = digits_prefix_len(body);
    proof {
        assert(body =~= s@.subrange(pos as int, len as int));
        assert(k == int_end - pos);
        assert(s@.subrange(pos as int, int_end as int) =~= body.subrange(0, k));
    }
    let mut frac_start: usize = int_end;
    let mut has_dot = false;
    if int_end < len {
        let c = s.get_char(int_end);
        if c != '.' {
            assert(body[k] != '.');
            return Err(String::from_str("invalid number"));
        }
        has_dot = true;
        frac_start = int_end + 1;
        let frac_end = scan_digits(s, frac_start, len);
        if frac_end < len {
            proof {
                let f = body.subrange(k + 1, body.len() as int);
                assert(f =~= s@.subrange(frac_start as int, len as int));
                lemma_digits_prefix_len_props(s@.subrange(frac_start as int, len as int));
                assert(!is_digit(f[frac_end - frac_start]));
            }
            return Err(String::from_str("invalid number"));
        }
        proof {
            assert(body.subrange(k + 1, body.len() as int) =~= s@.subrange(
                frac_start as int,
                len as int,
            ));
        }
    }
    if int_end == pos && (!has_dot || frac_start == len) {
        return Err(String::from_str("invalid number"));
    }
    proof {
        assert(dec_body_ok(body));
    }
    // Integer part, capped so that the scaled magnitude stays in range.
    let int_val = match parse_digit_run(s, pos, int_end, 1_000_000_000) {
        Some(v) => v,
        None => {
            proof {
                vstd::arithmetic::mul::lemma_mul_inequality(
                    1_000_000_001,
                    digits_val(body.subrange(0, k)),
                    MICROS_PER_UNIT as int,
                );
                lemma_digits_val_nonneg(dec_frac_digits(body));
                lemma_frac_micros_bounds(dec_frac_digits(body));
            }
            return Err(String::from_str("number out of range"));
        },
    };
    // First six fractional digits, padded with zeros.
    let mut frac_val: i64 = 0;
    if has_dot {
        frac_val = frac_from(s, frac_start, len);
    } else {
        proof {
            assert(dec_frac_digits(body) =~= Seq::<char>::empty());
            assert(frac_micros(Seq::<char>::empty()) == digits_val(
                Seq::new(6, |i: int| '0'),
            ));
            lemma_digits_val_zeros(Seq::new(6, |i: int| '0'));
        }
    }
    proof {
        assert(s@.subrange(pos as int, int_end as int) =~= body.subrange(0, k));
        if has_dot {
            assert(dec_frac_digits(body) =~= s@.subrange(frac_start as int, len as int));
        }
    }
    let magnitude = int_val * MICROS_PER_UNIT + frac_val;
    if magnitude > MAX_ABS_MICROS {
        return Err(String::from_str("number out of range"));
    }
    if negative {
        Ok(-magnitude)
    } else {
        Ok(magnitude)
    }
}

proof fn lemma_digits_val_zeros(s: Seq<char>)
    requires
        forall|i: int| 0 <= i < s.len() ==> #[trigger] s[i] == '0',
    ensures
        digits_val(s) == 0,
    decreases s.len(),
{
    if s.len() > 0 {
        let pre = s.subrange(0, s.len() - 1);
        lemma_digits_val_zeros(pre);
    }
}

proof fn lemma_frac_micros_bounds(f: Seq<char>)
    requires
        all_digits(f),
    ensures
        0 <= frac_micros(f) < MICROS_PER_UNIT as int,
{
    let g = if f.len() >= 6 {
        f.subrange(0, 6)
    } else {
        f + Seq::new((6 - f.len()) as nat, |i: int| '0')
    };
    assert(all_digits(g));
    assert(g.len() == 6);
    lemma_six_digits_lt_million(g);
}

/// Reads the first six fractional digits of `s[from..len)`, padding with
/// zeros on the right.
fn frac_from(s: &str, from: usize, len: usize) -> (v: i64)
    requires
        from <= len == s@.len(),
        all_digits(s@.subrange(from as int, len as int)),
    ensures
        v as int == frac_micros(s@.subrange(from as int, len as int)),
        0 <= v < MICROS_PER_UNIT,
{
    let ghost f = s@.subrange(from as int, len as int);
    let ghost g = if f.len() >= 6 {
        f.subrange(0, 6)
    } else {
        f + Seq::new((6 - f.len()) as nat, |i: int| '0')
    };
    proof {
        assert(all_digits(g));
        lemma_frac_micros_bounds(f);
    }
    let mut val: i64 = 0;
    let mut i: usize = 0;
    while i < 6
        invariant
            0 <= i <= 6,
            from <= len == s@.len(),
            f == s@.subrange(from as int, len as int),
            all_digits(f),
            g == (if f.len() >= 6 {
                f.subrange(0, 6)
            } else {
                f + Seq::new((6 - f.len()) as nat, |i: int| '0')
            }),
            all_digits(g),
            g.len() == 6,
            0 <= val <= 999_999,
            val as int == digits_val(g.subrange(0, i as int)),
        decreases 6 - i,
    {
        let c = if i < len - from {
            s.get_char(from + i)
        } else {
            '0'
        };
        proof {
            assert(g[i as int] == c);
            assert(g.subrange(0, i + 1).subrange(0, i as int) =~= g.subrange(0, i as int));
            assert(all_digits(g.subrange(0, i + 1)));
            lemma_six_digits_lt_million(g.subrange(0, i + 1));
        }
        let dv: i64 = digit_value(c) as i64;
        val = val * 10 + dv;
        i = i + 1;
    }
    proof {
        assert(g.subrange(0, 6) =~= g);
    }
    val
}

/// Parses an unsigned digit run into a `usize`.
///
/// Returns `Ok` exactly on non-empty all-digit text whose value fits.
pub fn parse_usize(s: &str) -> (r: Result<usize, String>)
    ensures
        r is Ok <==> is_usize_digits(s@),
        r is Ok ==> r->Ok_0 as int == digits_val(s@),
{
    let len = s.unicode_len();
    if len == 0 {
        return Err(String::from_str("expected digits"));
    }
    let end = scan_digits(s, 0, len);
    if end < len {
        proof {
            assert(s@.subrange(0, len as int) =~= s@);
            lemma_digits_prefix_len_props(s@);
            assert(!is_digit(s@[end as int]));
        }
        return Err(String::from_str("expected digits"));
    }
    proof {
        assert(s@.subrange(0, len as int) =~= s@);
    }
    let mut val: usize = 0;
    let mut i: usize = 0;
    while i < len
        invariant
            0 <= i <= len == s@.len(),
            all_digits(s@),
            val as int == digits_val(s@.subrange(0, i as int)),
            val <= usize::MAX,
        decreases len - i,
    {
        let c = s.get_char(i);
        assert(is_digit(s@[i as int]));
        let dv: usize = digit_value(c) as usize;
        proof {
            lemma_digits_val_nonneg(s@.subrange(0, i as int));
            assert(s@.subrange(0, i + 1).subrange(0, i as int) =~= s@.subrange(0, i as int));
        }
        if val > usize::MAX / 10 || (val == usize::MAX / 10 && dv > usize::MAX % 10) {
            proof {
                lemma_digits_val_take_mono(s@, i + 1);
            }
            return Err(String::from_str("number too large"));
        }
        val = val * 10 + dv;
        i = i + 1;
    }
    proof {
        assert(s@.subrange(0, len as int) =~= s@);
    }
    Ok(val)
}

/// Accepted decimal text always denotes a value within the range.
pub proof fn lemma_dec_value_bounded(s: Seq<char>)
    requires
        is_decimal(s),
    ensures
        -MAX_ABS_MICROS <= dec_value_micros(s) <= MAX_ABS_MICROS,
{
    let b = dec_body(s);
    let k = digits_prefix_len(b);
    lemma_digits_prefix_len_props(b);
    lemma_digits_val_nonneg(b.subrange(0, k));
    lemma_frac_micros_bounds(dec_frac_digits(b));
}

/// The character for one decimal digit value.
pub open spec fn digit_char_of(d: int) -> char {
    if d == 0 {
        '0'
    } else if d == 1 {
        '1'
    } else if d == 2 {
        '2'
    } else if d == 3 {
        '3'
    } else if d == 4 {
        '4'
    } else if d == 5 {
        '5'
    } else if d == 6 {
        '6'
    } else if d == 7 {
        '7'
    } else if d == 8 {
        '8'
    } else {
        '9'
    }
}

/// The decimal text of a non-negative number, no leading zeros.
pub open spec fn dec_digits(n: int) -> Seq<char>
    decreases (if n > 0 {
        n
    } else {
        0
    }),
{
    if n < 10 {
        seq![digit_char_of(n)]
    } else {
        dec_digits(n / 10) + seq![digit_char_of(n % 10)]
    }
}

/// One digit as text.
fn digit_str(d: usize) -> (r: &'static str)
    requires
        d < 10,
    ensures
        r@ == seq![digit_char_of(d as int)],
{
    if d == 0 {
        proof {
            reveal_strlit("0");
            assert("0"@ =~= seq![digit_char_of(0)]);
        }
        "0"
    } else if d == 1 {
        proof {
            reveal_strlit("1");
            assert("1"@ =~= seq![digit_char_of(1)]);
        }
        "1"
    } else if d == 2 {
        proof {
            reveal_strlit("2");
            assert("2"@ =~= seq![digit_char_of(2)]);
        }
        "2"
    } else if d == 3 {
        proof {
            reveal_strlit("3");
            assert("3"@ =~= seq![digit_char_of(3)]);
        }
        "3"
    } else if d == 4 {
        proof {
            reveal_strlit("4");
            assert("4"@ =~= seq![digit_char_of(4)]);
        }
        "4"
    } else if d == 5 {
        proof {
            reveal_strlit("5");
            assert("5"@ =~= seq![digit_char_of(5)]);
        }
        "5"
    } else if d == 6 {
        proof {
            reveal_strlit("6");
            assert("6"@ =~= seq![digit_char_of(6)]);
        }
        "6"
    } else if d == 7 {
        proof {
            reveal_strlit("7");
            assert("7"@ =~= seq![digit_char_of(7)]);
        }
        "7"
    } else if d == 8 {
        proof {
            reveal_strlit("8");
            assert("8"@ =~= seq![digit_char_of(8)]);
        }
        "8"
    } else {
        proof {
            reveal_strlit("9");
            assert("9"@ =~= seq![digit_char_of(9)]);
        }
        "9"
    }
}

/// The decimal text of `n`.
pub fn usize_to_string(n: usize) -> (r: String)
    ensures
        r@ == dec_digits(n as int),
    decreases n,
{
    if n < 10 {
        String::from_str(digit_str(n))
    } else {
        let mut s = usize_to_string(n / 10);
        s.append(digit_str(n % 10));
        s
    }
}

} // verus!
