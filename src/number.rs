//! Reading decimal numbers as exact fixed-point integers.
//!
//! A number `[+-]? digits? (. digits?)? ([eE] [+-]? digits)?`, with at least
//! one digit before the exponent, is read as its value times `10^places`, cut
//! toward zero. Nothing is rounded through a binary float.

use vstd::prelude::*;
use crate::text::chars_of;

verus! {

/// Largest magnitude a decoded number may have, in its fixed-point unit.
pub const LIMIT: i64 = 4611686018427387903;

/// Exponents larger in magnitude than this count as this. Only a number with
/// thousands of digits reads differently for it.
pub const EXP_CAP: i64 = 10000;

pub open spec fn is_digit(c: char) -> bool {
    '0' <= c && c <= '9'
}

pub open spec fn digit_value(c: char) -> int {
    (c as int) - ('0' as int)
}

/// Index of the first non-digit at or after `i`.
pub open spec fn digit_end(s: Seq<char>, i: int) -> int
    decreases s.len() - i,
{
    if 0 <= i < s.len() && is_digit(s[i]) {
        digit_end(s, i + 1)
    } else {
        i
    }
}

pub open spec fn digit_or_zero(d: Seq<char>, j: int) -> int {
    if 0 <= j < d.len() {
        digit_value(d[j])
    } else {
        0
    }
}

/// Value of the first `n` digits of `d`, reading zeros past its end.
pub open spec fn leading_value(d: Seq<char>, n: int) -> int
    decreases n,
{
    if n <= 0 {
        0
    } else {
        leading_value(d, n - 1) * 10 + digit_or_zero(d, n - 1)
    }
}

/// Value of the digits `d`, held at `EXP_CAP` once it passes it.
pub open spec fn capped_value(d: Seq<char>) -> int
    decreases d.len(),
{
    if d.len() == 0 {
        0
    } else {
        let v = capped_value(d.drop_last()) * 10 + digit_value(d.last());
        if v > EXP_CAP {
            EXP_CAP as int
        } else {
            v
        }
    }
}

pub open spec fn all_digits(d: Seq<char>) -> bool {
    forall|j: int| 0 <= j < d.len() ==> is_digit(#[trigger] d[j])
}

pub open spec fn sign_len(s: Seq<char>) -> int {
    if s.len() > 0 && (s[0] == '-' || s[0] == '+') {
        1
    } else {
        0
    }
}

pub open spec fn is_negative(s: Seq<char>) -> bool {
    s.len() > 0 && s[0] == '-'
}

pub open spec fn int_end(s: Seq<char>) -> int {
    digit_end(s, sign_len(s))
}

pub open spec fn has_fraction(s: Seq<char>) -> bool {
    int_end(s) < s.len() && s[int_end(s)] == '.'
}

pub open spec fn frac_end(s: Seq<char>) -> int {
    if has_fraction(s) {
        digit_end(s, int_end(s) + 1)
    } else {
        int_end(s)
    }
}

pub open spec fn has_exponent(s: Seq<char>) -> bool {
    frac_end(s) < s.len() && (s[frac_end(s)] == 'e' || s[frac_end(s)] == 'E')
}

pub open spec fn exp_sign_len(s: Seq<char>) -> int {
    if has_exponent(s) && frac_end(s) + 1 < s.len() && (s[frac_end(s) + 1] == '-' || s[frac_end(s)
        + 1] == '+') {
        1
    } else {
        0
    }
}

pub open spec fn exp_start(s: Seq<char>) -> int {
    frac_end(s) + 1 + exp_sign_len(s)
}

/// Digits before the exponent: those of the integer part and the fraction.
pub open spec fn mantissa_len(s: Seq<char>) -> int {
    (int_end(s) - sign_len(s)) + if has_fraction(s) {
        frac_end(s) - int_end(s) - 1
    } else {
        0
    }
}

pub open spec fn well_formed_decimal(s: Seq<char>) -> bool {
    &&& mantissa_len(s) > 0
    &&& if has_exponent(s) {
        &&& digit_end(s, exp_start(s)) == s.len()
        &&& s.len() > exp_start(s)
    } else {
        frac_end(s) == s.len()
    }
}

pub open spec fn exponent_value(s: Seq<char>) -> int {
    if has_exponent(s) {
        let v = capped_value(s.subrange(exp_start(s), s.len() as int));
        if exp_sign_len(s) == 1 && s[frac_end(s) + 1] == '-' {
            -v
        } else {
            v
        }
    } else {
        0
    }
}

/// All digits of the mantissa, integer part then fraction.
pub open spec fn mantissa_digits(s: Seq<char>) -> Seq<char> {
    s.subrange(sign_len(s), int_end(s)) + if has_fraction(s) {
        s.subrange(int_end(s) + 1, frac_end(s))
    } else {
        Seq::empty()
    }
}

/// `|value| * 10^places`, cut toward zero.
pub open spec fn scaled_magnitude(s: Seq<char>, places: int) -> int {
    leading_value(mantissa_digits(s), (int_end(s) - sign_len(s)) + exponent_value(s) + places)
}

/// The decimal number `s` times `10^places`, cut toward zero; `None` when `s` is
/// no number or the result is larger in magnitude than `LIMIT`.
pub open spec fn decimal_scaled(s: Seq<char>, places: int) -> Option<int> {
    if !well_formed_decimal(s) || scaled_magnitude(s, places) > LIMIT {
        None
    } else if is_negative(s) {
        Some(-scaled_magnitude(s, places))
    } else {
        Some(scaled_magnitude(s, places))
    }
}

pub open spec fn minus_len(s: Seq<char>) -> int {
    if s.len() > 0 && s[0] == '-' {
        1
    } else {
        0
    }
}

/// The integer written `-? digits` as the whole of `s`; `None` otherwise or when
/// larger in magnitude than `LIMIT`.
pub open spec fn integer_value(s: Seq<char>) -> Option<int> {
    let m = leading_value(s.subrange(minus_len(s), s.len() as int), s.len() - minus_len(s));
    if !(digit_end(s, minus_len(s)) > minus_len(s) && digit_end(s, minus_len(s)) == s.len()) || m
        > LIMIT {
        None
    } else if minus_len(s) == 1 {
        Some(-m)
    } else {
        Some(m)
    }
}

pub proof fn lemma_leading_value_nonneg(d: Seq<char>, n: int)
    requires
        all_digits(d),
    ensures
        leading_value(d, n) >= 0,
    decreases n,
{
    if n > 0 {
        lemma_leading_value_nonneg(d, n - 1);
    }
}

pub proof fn lemma_leading_value_grows(d: Seq<char>, j: int, n: int)
    requires
        all_digits(d),
        0 <= j <= n,
    ensures
        leading_value(d, j) <= leading_value(d, n),
    decreases n - j,
{
    if j < n {
        lemma_leading_value_grows(d, j, n - 1);
        lemma_leading_value_nonneg(d, n - 1);
    }
}

fn is_digit_char(c: char) -> (r: bool)
    ensures
        r == is_digit(c),
{
    '0' <= c && c <= '9'
}

fn scan_digits(s: &Vec<char>, i: usize) -> (j: usize)
    requires
        i <= s.len(),
    ensures
        j == digit_end(s@, i as int),
        i <= j <= s.len(),
        forall|k: int| i <= k < j ==> is_digit(#[trigger] s@[k]),
{
    let mut j = i;
    while j < s.len() && is_digit_char(s[j])
        invariant
            i <= j <= s.len(),
            digit_end(s@, j as int) == digit_end(s@, i as int),
            forall|k: int| i <= k < j ==> is_digit(#[trigger] s@[k]),
        decreases s.len() - j,
    {
        j = j + 1;
    }
    j
}

/// `leading_value(d, n)` when it is at most `limit`.
fn leading(d: &Vec<char>, n: i128, limit: u128) -> (r: Option<u128>)
    requires
        all_digits(d@),
        limit <= 30000000000000000000000000000000000000u128,
    ensures
        match r {
            Some(v) => v == leading_value(d@, n as int) && v <= limit,
            None => leading_value(d@, n as int) > limit,
        },
{
    let mut acc: u128 = 0;
    let mut j: i128 = 0;
    if n <= 0 {
        return Some(0);
    }
    while j < n
        invariant
            all_digits(d@),
            0 <= j <= n,
            acc == leading_value(d@, j as int),
            acc <= limit,
            limit <= 30000000000000000000000000000000000000u128,
        decreases n - j,
    {
        let dig: u128 = if j < d.len() as i128 {
            (d[j as usize] as u32 - '0' as u32) as u128
        } else {
            0
        };
        assert(dig == digit_or_zero(d@, j as int));
        if dig > limit || acc > (limit - dig) / 10 {
            proof {
                lemma_leading_value_grows(d@, j + 1, n as int);
                lemma_leading_value_nonneg(d@, j as int);
            }
            return None;
        }
        acc = acc * 10 + dig;
        j = j + 1;
    }
    Some(acc)
}

fn read_exponent(s: &Vec<char>, fe: usize) -> (r: Option<i128>)
    requires
        fe == frac_end(s@),
        0 <= int_end(s@) <= fe <= s.len(),
        has_exponent(s@),
    ensures
        r is Some <==> (digit_end(s@, exp_start(s@)) == s.len() && s.len() > exp_start(s@)),
        r is Some ==> r->0 == exponent_value(s@),
        r is Some ==> -10000 <= r->0 <= 10000,
{
    let len = s.len();
    let esign: usize = if fe + 1 < len && (s[fe + 1] == '-' || s[fe + 1] == '+') {
        1
    } else {
        0
    };
    let es = fe + 1 + esign;
    assert(es == exp_start(s@));
    let ee = scan_digits(s, es);
    if ee != len || len <= es {
        return None;
    }
    let mut v: i64 = 0;
    let mut k = es;
    while k < len
        invariant
            es <= k <= len,
            len == s.len(),
            ee == len,
            forall|q: int| es <= q < ee ==> is_digit(#[trigger] s@[q]),
            v == capped_value(s@.subrange(es as int, k as int)),
            0 <= v <= EXP_CAP,
        decreases len - k,
    {
        assert(s@.subrange(es as int, k + 1).drop_last() =~= s@.subrange(es as int, k as int));
        let w = v * 10 + (s[k] as u32 - '0' as u32) as i64;
        v = if w > EXP_CAP {
            EXP_CAP
        } else {
            w
        };
        k = k + 1;
    }
    if esign == 1 && s[fe + 1] == '-' {
        Some(-(v as i128))
    } else {
        Some(v as i128)
    }
}

fn copy_range(s: &Vec<char>, from: usize, to: usize) -> (r: Vec<char>)
    requires
        from <= to <= s.len(),
    ensures
        r@ == s@.subrange(from as int, to as int),
{
    let mut r: Vec<char> = Vec::new();
    let mut k = from;
    while k < to
        invariant
            from <= k <= to,
            to <= s.len(),
            r@ == s@.subrange(from as int, k as int),
        decreases to - k,
    {
        r.push(s[k]);
        k = k + 1;
    }
    r
}

/// The outcome of reading a decimal number.
pub enum Magnitude {
    /// The text is no decimal number.
    Malformed,
    /// The scaled magnitude is above the bound asked for.
    TooLarge { negative: bool },
    /// The scaled magnitude, cut toward zero, and the sign.
    Within { negative: bool, value: u128 },
}

/// Reads `s` as a decimal number, its magnitude times `10^places`, cut toward
/// zero, when that is at most `limit`.
#[verifier::rlimit(40)]
pub fn read_magnitude(s: &Vec<char>, places: u32, limit: u128) -> (r: Magnitude)
    requires
        places <= 18,
        limit <= 30000000000000000000000000000000000000u128,
    ensures
        r is Malformed <==> !well_formed_decimal(s@),
        r matches Magnitude::TooLarge { negative } ==> negative == is_negative(s@)
            && scaled_magnitude(s@, places as int) > limit,
        r matches Magnitude::Within { negative, value } ==> negative == is_negative(s@) && value
            == scaled_magnitude(s@, places as int) && value <= limit,
{
    let len = s.len();
    let sign: usize = if len > 0 && (s[0] == '-' || s[0] == '+') {
        1
    } else {
        0
    };
    assert(sign == sign_len(s@));
    let negative = len > 0 && s[0] == '-';
    let ie = scan_digits(s, sign);
    let frac = ie < len && s[ie] == '.';
    assert(frac == has_fraction(s@));
    let fe = if frac {
        scan_digits(s, ie + 1)
    } else {
        ie
    };
    assert(fe == frac_end(s@));
    if ie == sign && (!frac || fe == ie + 1) {
        return Magnitude::Malformed;
    }
    assert(mantissa_len(s@) > 0);
    let expo = fe < len && (s[fe] == 'e' || s[fe] == 'E');
    assert(expo == has_exponent(s@));
    let mut exp: i128 = 0;
    assert(ie <= len);
    if expo {
        match read_exponent(s, fe) {
            Some(e) => {
                exp = e;
            },
            None => {
                return Magnitude::Malformed;
            },
        }
    } else if fe != len {
        return Magnitude::Malformed;
    }
    assert(well_formed_decimal(s@));
    assert(exp == exponent_value(s@));
    let int_digits = copy_range(s, sign, ie);
    let digits = if frac {
        let mut d = int_digits;
        let mut tail = copy_range(s, ie + 1, fe);
        d.append(&mut tail);
        d
    } else {
        int_digits
    };
    assert(digits@ =~= mantissa_digits(s@));
    assert(all_digits(digits@));
    let n: i128 = (ie - sign) as i128 + exp + places as i128;
    match leading(&digits, n, limit) {
        Some(m) => Magnitude::Within { negative, value: m },
        None => Magnitude::TooLarge { negative },
    }
}

/// Reads `s` as a decimal number times `10^places`, cut toward zero.
pub fn parse_scaled(s: &Vec<char>, places: u32) -> (r: Option<i64>)
    requires
        places <= 18,
    ensures
        r is Some <==> decimal_scaled(s@, places as int) is Some,
        r matches Some(v) ==> decimal_scaled(s@, places as int) == Some(v as int),
        r matches Some(v) ==> -LIMIT <= v <= LIMIT,
{
    match read_magnitude(s, places, LIMIT as u128) {
        Magnitude::Within { negative, value } => {
            if negative {
                Some(-(value as i64))
            } else {
                Some(value as i64)
            }
        },
        _ => None,
    }
}

/// Reads `s` as an integer `-? digits`.
pub fn parse_integer(s: &Vec<char>) -> (r: Option<i64>)
    ensures
        r is Some <==> integer_value(s@) is Some,
        r matches Some(v) ==> integer_value(s@) == Some(v as int),
{
    let len = s.len();
    let sign: usize = if len > 0 && s[0] == '-' {
        1
    } else {
        0
    };
    let ie = scan_digits(s, sign);
    if ie == sign || ie != len {
        return None;
    }
    let digits = copy_range(s, sign, len);
    assert(all_digits(digits@));
    match leading(&digits, (len - sign) as i128, LIMIT as u128) {
        Some(m) => {
            if sign == 1 {
                Some(-(m as i64))
            } else {
                Some(m as i64)
            }
        },
        None => None,
    }
}

/// Upper case of the letters that spell the special values.
pub open spec fn upper_of(c: char) -> char {
    if c == 'i' {
        'I'
    } else if c == 'n' {
        'N'
    } else if c == 'f' {
        'F'
    } else if c == 't' {
        'T'
    } else if c == 'y' {
        'Y'
    } else if c == 'a' {
        'A'
    } else {
        c
    }
}

fn upper_char(c: char) -> (r: char)
    ensures
        r == upper_of(c),
{
    if c == 'i' {
        'I'
    } else if c == 'n' {
        'N'
    } else if c == 'f' {
        'F'
    } else if c == 't' {
        'T'
    } else if c == 'y' {
        'Y'
    } else if c == 'a' {
        'A'
    } else {
        c
    }
}

/// `s` spells the lowercase word `w`, in any case.
pub open spec fn word_in_any_case(s: Seq<char>, w: Seq<char>) -> bool {
    &&& s.len() == w.len()
    &&& forall|i: int| 0 <= i < s.len() ==> s[i] == w[i] || s[i] == upper_of(w[i])
}

/// The values besides decimal numbers that a float parser reads.
pub enum Special {
    Infinite { negative: bool },
    NotANumber,
}

/// `[+-]? (inf | infinity | nan)`, in any case.
pub open spec fn special_of(s: Seq<char>) -> Option<Special> {
    let body = s.subrange(sign_len(s), s.len() as int);
    if word_in_any_case(body, "inf"@) || word_in_any_case(body, "infinity"@) {
        Some(Special::Infinite { negative: is_negative(s) })
    } else if word_in_any_case(body, "nan"@) {
        Some(Special::NotANumber)
    } else {
        None
    }
}

fn spells(s: &Vec<char>, from: usize, w: &str) -> (r: bool)
    requires
        from <= s.len(),
    ensures
        r == word_in_any_case(s@.subrange(from as int, s.len() as int), w@),
{
    let wc = chars_of(w);
    if s.len() - from != wc.len() {
        return false;
    }
    let mut i: usize = 0;
    while i < wc.len()
        invariant
            wc@ == w@,
            from <= s.len(),
            s.len() - from == wc.len(),
            0 <= i <= wc.len(),
            forall|k: int| 0 <= k < i ==> s@[from + k] == wc@[k] || s@[from + k] == upper_of(wc@[k]),
        decreases wc.len() - i,
    {
        if s[from + i] != wc[i] && s[from + i] != upper_char(wc[i]) {
            return false;
        }
        i = i + 1;
    }
    true
}

/// Reads `s` as one of the special values.
pub fn read_special(s: &Vec<char>) -> (r: Option<Special>)
    ensures
        r == special_of(s@),
{
    let len = s.len();
    let sign: usize = if len > 0 && (s[0] == '-' || s[0] == '+') {
        1
    } else {
        0
    };
    let negative = len > 0 && s[0] == '-';
    if spells(s, sign, "inf") || spells(s, sign, "infinity") {
        Some(Special::Infinite { negative })
    } else if spells(s, sign, "nan") {
        Some(Special::NotANumber)
    } else {
        None
    }
}

} // verus!
