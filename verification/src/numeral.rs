//! Decimal numerals for fixed-point milli-unit values: formatting a value to
//! one decimal place for value labels, and parsing a decimal numeral (used
//! both for dataset values and for numeric category labels).

use vstd::prelude::*;
use vstd::string::*;
use crate::scale::VALUE_LIMIT;

verus! {

/// The decimal digit character for `d` in `0..=9`.
pub open spec fn digit_char(d: int) -> char {
    if d == 0 { '0' }
    else if d == 1 { '1' }
    else if d == 2 { '2' }
    else if d == 3 { '3' }
    else if d == 4 { '4' }
    else if d == 5 { '5' }
    else if d == 6 { '6' }
    else if d == 7 { '7' }
    else if d == 8 { '8' }
    else { '9' }
}

/// Whether `c` is a decimal digit.
pub open spec fn is_digit_char(c: char) -> bool {
    48 <= c as u32 <= 57
}

/// The numeric value of a digit character.
pub open spec fn digit_val(c: char) -> int {
    c as u32 - 48
}

/// The decimal digit sequence of a nonnegative integer, most significant
/// digit first.
pub open spec fn dec_digits(n: int) -> Seq<char>
    recommends
        n >= 0,
    decreases n,
{
    if n <= 9 {
        seq![digit_char(n)]
    } else {
        dec_digits(n / 10) + seq![digit_char(n % 10)]
    }
}

/// A milli-unit value rounded to tenths, ties away from zero.
pub open spec fn rounded_tenths(v: int) -> int {
    if v >= 0 {
        (v + 50) / 100
    } else {
        -((-v + 50) / 100)
    }
}

/// The one-decimal-place text of a milli-unit value, e.g. `80.0` or `-3.5`.
pub open spec fn tenths_text(v: int) -> Seq<char> {
    let t = rounded_tenths(v);
    if t < 0 {
        seq!['-'] + dec_digits(-t / 10) + seq!['.'] + seq![digit_char(-t % 10)]
    } else {
        dec_digits(t / 10) + seq!['.'] + seq![digit_char(t % 10)]
    }
}

/// One-character string for a decimal digit.
fn digit_str(d: u8) -> (s: &'static str)
    requires
        d < 10,
    ensures
        s@ == seq![digit_char(d as int)],
{
    if d == 0 { proof { reveal_strlit("0"); assert("0"@ =~= seq![digit_char(0)]); } "0" }
    else if d == 1 { proof { reveal_strlit("1"); assert("1"@ =~= seq![digit_char(1)]); } "1" }
    else if d == 2 { proof { reveal_strlit("2"); assert("2"@ =~= seq![digit_char(2)]); } "2" }
    else if d == 3 { proof { reveal_strlit("3"); assert("3"@ =~= seq![digit_char(3)]); } "3" }
    else if d == 4 { proof { reveal_strlit("4"); assert("4"@ =~= seq![digit_char(4)]); } "4" }
    else if d == 5 { proof { reveal_strlit("5"); assert("5"@ =~= seq![digit_char(5)]); } "5" }
    else if d == 6 { proof { reveal_strlit("6"); assert("6"@ =~= seq![digit_char(6)]); } "6" }
    else if d == 7 { proof { reveal_strlit("7"); assert("7"@ =~= seq![digit_char(7)]); } "7" }
    else if d == 8 { proof { reveal_strlit("8"); assert("8"@ =~= seq![digit_char(8)]); } "8" }
    else { proof { reveal_strlit("9"); assert("9"@ =~= seq![digit_char(9)]); } "9" }
}

/// The decimal text of a nonnegative integer.
pub fn dec_string(n: u64) -> (s: String)
    ensures
        s@ == dec_digits(n as int),
    decreases n,
{
    if n <= 9 {
        digit_str(n as u8).to_owned()
    } else {
        let mut s = dec_string(n / 10);
        s.append(digit_str((n % 10) as u8));
        s
    }
}

/// Formats a milli-unit value to one decimal place.
pub fn format_tenths(v: i64) -> (s: String)
    requires
        -VALUE_LIMIT <= v <= VALUE_LIMIT,
    ensures
        s@ == tenths_text(v as int),
{
    let m: u64 = if v < 0 { (-v) as u64 } else { v as u64 };
    let t: u64 = (m + 50) / 100;
    let mut s = if v < 0 && t > 0 {
        proof { reveal_strlit("-"); }
        "-".to_owned()
    } else {
        String::new()
    };
    s.append(dec_string(t / 10).as_str());
    proof { reveal_strlit("."); }
    s.append(".");
    s.append(digit_str((t % 10) as u8));
    proof {
        let ti = rounded_tenths(v as int);
        if v < 0 {
            assert(ti == -(t as int));
        } else {
            assert(ti == t as int);
        }
        assert(s@ =~= tenths_text(v as int));
    }
    s
}

/// Length of the longest digit-only prefix of `s`.
pub open spec fn digit_prefix_len(s: Seq<char>) -> int
    decreases s.len(),
{
    if s.len() == 0 || !is_digit_char(s[0]) {
        0
    } else {
        1 + digit_prefix_len(s.drop_first())
    }
}

/// Whether every character of `s` is a decimal digit.
pub open spec fn all_digit_chars(s: Seq<char>) -> bool {
    forall|i: int| 0 <= i < s.len() ==> is_digit_char(#[trigger] s[i])
}

/// The integer a digit sequence denotes, most significant digit first.
pub open spec fn digits_value(s: Seq<char>) -> int
    decreases s.len(),
{
    if s.len() == 0 {
        0
    } else {
        digits_value(s.drop_last()) * 10 + digit_val(s.last())
    }
}

/// Milli-units denoted by a fractional digit sequence: only the first three
/// fractional digits carry weight.
pub open spec fn frac_milli(f: Seq<char>) -> int {
    if f.len() >= 3 {
        digits_value(f.take(3))
    } else if f.len() == 2 {
        digits_value(f) * 10
    } else if f.len() == 1 {
        digits_value(f) * 100
    } else {
        0
    }
}

/// Milli-units denoted by an unsigned decimal numeral: digits, optionally
/// followed by a point and further digits, with at least one digit in all.
pub open spec fn magnitude_milli(s: Seq<char>) -> Option<int> {
    let k = digit_prefix_len(s);
    let rest = s.skip(k);
    if rest.len() == 0 {
        if k >= 1 {
            Some(digits_value(s.take(k)) * 1000)
        } else {
            None
        }
    } else if rest[0] == '.' && all_digit_chars(rest.drop_first()) && k + rest.len() - 1 >= 1 {
        Some(digits_value(s.take(k)) * 1000 + frac_milli(rest.drop_first()))
    } else {
        None
    }
}

/// Milli-units denoted by a decimal numeral with an optional leading sign.
pub open spec fn numeral_value(s: Seq<char>) -> Option<int> {
    if s.len() > 0 && (s[0] == '+' || s[0] == '-') {
        match magnitude_milli(s.drop_first()) {
            Some(m) => Some(if s[0] == '-' { -m } else { m }),
            None => None,
        }
    } else {
        magnitude_milli(s)
    }
}

/// The value of a numeral, provided it stays within `VALUE_LIMIT`.
pub open spec fn parsed_value(s: Seq<char>) -> Option<i64> {
    match numeral_value(s) {
        Some(v) => if -VALUE_LIMIT <= v <= VALUE_LIMIT {
            Some(v as i64)
        } else {
            None
        },
        None => None,
    }
}

/// Digit prefixes are characterized by their digits and their end.
proof fn lemma_digit_prefix_len(s: Seq<char>)
    ensures
        0 <= digit_prefix_len(s) <= s.len(),
        forall|i: int| 0 <= i < digit_prefix_len(s) ==> is_digit_char(#[trigger] s[i]),
        digit_prefix_len(s) < s.len() ==> !is_digit_char(s[digit_prefix_len(s)]),
    decreases s.len(),
{
    if s.len() == 0 || !is_digit_char(s[0]) {
    } else {
        lemma_digit_prefix_len(s.drop_first());
        assert forall|i: int| 0 <= i < digit_prefix_len(s) implies is_digit_char(
            #[trigger] s[i],
        ) by {
            if i > 0 {
                assert(s[i] == s.drop_first()[i - 1]);
            }
        }
    }
}

/// A digit sequence denotes a nonnegative integer.
proof fn lemma_digits_value_nonneg(s: Seq<char>)
    requires
        all_digit_chars(s),
    ensures
        digits_value(s) >= 0,
    decreases s.len(),
{
    if s.len() > 0 {
        assert(all_digit_chars(s.drop_last()));
        lemma_digits_value_nonneg(s.drop_last());
        assert(digit_val(s.last()) >= 0);
    }
}

/// Whether `c` is a decimal digit.
pub fn is_digit(c: char) -> (r: bool)
    ensures
        r == is_digit_char(c),
{
    let u = c as u32;
    48 <= u && u <= 57
}

/// Index of the first non-digit at or after `from`.
fn scan_digits(s: &str, from: usize, len: usize) -> (j: usize)
    requires
        from <= len,
        len == s@.len(),
    ensures
        from <= j <= len,
        j - from == digit_prefix_len(s@.skip(from as int)),
    decreases len - from,
{
    if from < len {
        let c = s.get_char(from);
        if is_digit(c) {
            let j = scan_digits(s, from + 1, len);
            proof {
                assert(s@.skip(from as int).drop_first() =~= s@.skip(from as int + 1));
            }
            j
        } else {
            from
        }
    } else {
        proof {
            assert(s@.skip(from as int).len() == 0);
        }
        from
    }
}

/// Whether every character in `[from, len)` is a digit.
fn all_digits_from(s: &str, from: usize, len: usize) -> (r: bool)
    requires
        from <= len,
        len == s@.len(),
    ensures
        r == all_digit_chars(s@.skip(from as int)),
    decreases len - from,
{
    if from < len {
        let c = s.get_char(from);
        let rest = all_digits_from(s, from + 1, len);
        let r = is_digit(c) && rest;
        proof {
            let t = s@.skip(from as int);
            assert(t.drop_first() =~= s@.skip(from as int + 1));
            if is_digit_char(c) && all_digit_chars(t.drop_first()) {
                assert forall|i: int| 0 <= i < t.len() implies is_digit_char(#[trigger] t[i]) by {
                    if i > 0 {
                        assert(t[i] == t.drop_first()[i - 1]);
                    }
                }
            }
            if all_digit_chars(t) {
                assert(is_digit_char(t[0]));
            }
        }
        r
    } else {
        proof {
            assert(s@.skip(from as int).len() == 0);
        }
        true
    }
}

/// Digit accumulators clamp here: any digit string worth more is certainly
/// out of range.
pub const DIGITS_CAP: u64 = 2_000_000;

/// Value of the digits in `[from, to)`, clamped to `DIGITS_CAP + 1`.
fn digits_val_clamped(s: &str, from: usize, to: usize) -> (v: u64)
    requires
        from <= to <= s@.len(),
        all_digit_chars(s@.subrange(from as int, to as int)),
    ensures
        digits_value(s@.subrange(from as int, to as int)) <= DIGITS_CAP ==> v == digits_value(
            s@.subrange(from as int, to as int),
        ),
        digits_value(s@.subrange(from as int, to as int)) > DIGITS_CAP ==> v == DIGITS_CAP + 1,
        v <= DIGITS_CAP + 1,
    decreases to,
{
    if to == from {
        proof {
            assert(s@.subrange(from as int, to as int).len() == 0);
        }
        0
    } else {
        proof {
            let t = s@.subrange(from as int, to as int);
            assert(t.drop_last() =~= s@.subrange(from as int, to as int - 1));
            assert(all_digit_chars(t.drop_last()));
            assert(is_digit_char(t.last()));
            lemma_digits_value_nonneg(t.drop_last());
        }
        let prev = digits_val_clamped(s, from, to - 1);
        let c = s.get_char(to - 1);
        let d: u64 = (c as u32 - 48) as u64;
        if prev > DIGITS_CAP {
            proof {
                let t = s@.subrange(from as int, to as int);
                assert(digits_value(t) == digits_value(t.drop_last()) * 10 + digit_val(t.last()));
                assert(digits_value(t.drop_last()) * 10 > DIGITS_CAP) by (nonlinear_arith)
                    requires digits_value(t.drop_last()) > DIGITS_CAP;
            }
            DIGITS_CAP + 1
        } else {
            let v = prev * 10 + d;
            if v > DIGITS_CAP {
                DIGITS_CAP + 1
            } else {
                v
            }
        }
    }
}

/// Parses a decimal numeral (optional sign, digits, optional point and
/// fractional digits) into milli-units.  Returns `None` for anything else,
/// and for values beyond `VALUE_LIMIT`.
#[verifier::rlimit(50)]
pub fn parse_fixed(s: &str) -> (r: Option<i64>)
    ensures
        r == parsed_value(s@),
{
    let len = s.unicode_len();
    let start: usize = if len > 0 {
        let c = s.get_char(0);
        if c == '+' || c == '-' {
            1
        } else {
            0
        }
    } else {
        0
    };
    let neg = start == 1 && s.get_char(0) == '-';
    let ghost body = s@.skip(start as int);
    proof {
        if start == 1 {
            assert(body =~= s@.drop_first());
        } else {
            assert(body =~= s@);
        }
    }
    let j = scan_digits(s, start, len);
    let ghost k = digit_prefix_len(body);
    proof {
        lemma_digit_prefix_len(body);
        assert(body.take(k) =~= s@.subrange(start as int, j as int));
        assert(all_digit_chars(s@.subrange(start as int, j as int)));
    }
    let iv = digits_val_clamped(s, start, j);
    let frac_valid: bool;
    let mut fv: u64 = 0;
    if j == len {
        frac_valid = j > start;
        proof {
            assert(body.skip(k).len() == 0);
        }
    } else if s.get_char(j) == '.' && (j > start || j + 1 < len) {
        frac_valid = all_digits_from(s, j + 1, len);
        proof {
            let rest = body.skip(k);
            assert(rest[0] == s@[j as int]);
            assert(rest.drop_first() =~= s@.skip(j as int + 1));
        }
        if frac_valid {
            let f3_end = if len - (j + 1) >= 3 {
                j + 4
            } else {
                len
            };
            proof {
                let frac = s@.skip(j as int + 1);
                assert(all_digit_chars(s@.subrange(j as int + 1, f3_end as int))) by {
                    assert forall|i: int| 0 <= i < f3_end - (j + 1) implies is_digit_char(
                        #[trigger] s@.subrange(j as int + 1, f3_end as int)[i],
                    ) by {
                        assert(s@.subrange(j as int + 1, f3_end as int)[i] == frac[i]);
                    }
                }
            }
            let f3 = digits_val_clamped(s, j + 1, f3_end);
            let flen = f3_end - (j + 1);
            proof {
                let frac = s@.skip(j as int + 1);
                let f3s = s@.subrange(j as int + 1, f3_end as int);
                lemma_digits_value_nonneg(f3s);
                if frac.len() >= 3 {
                    assert(f3s =~= frac.take(3));
                    assert(digits_value(f3s) <= 999) by {
                        lemma_digits_value_upper(f3s);
                    }
                } else {
                    assert(f3s =~= frac);
                    lemma_digits_value_upper(f3s);
                }
            }
            fv = if flen == 3 {
                f3
            } else if flen == 2 {
                f3 * 10
            } else if flen == 1 {
                f3 * 100
            } else {
                0
            };
        }
    } else {
        frac_valid = false;
        proof {
            let rest = body.skip(k);
            assert(rest[0] == s@[j as int]);
            if !(s@[j as int] == '.') {
                assert(magnitude_milli(body) is None);
            } else {
                assert(j == start && j + 1 == len);
                assert(rest.drop_first() =~= s@.skip(j as int + 1));
                assert(k + rest.len() - 1 == 0);
            }
        }
    }
    if !frac_valid {
        proof {
            assert(numeral_value(s@) is None);
        }
        return None;
    }
    if iv > DIGITS_CAP {
        proof {
            let intpart = s@.subrange(start as int, j as int);
            lemma_digits_value_nonneg(intpart);
            let m = magnitude_milli(body)->Some_0;
            assert(digits_value(intpart) * 1000 > VALUE_LIMIT) by (nonlinear_arith)
                requires digits_value(intpart) > DIGITS_CAP;
            if j < len {
                let frac = s@.skip(j as int + 1);
                lemma_frac_milli_nonneg(frac);
            }
        }
        return None;
    }
    let m: u64 = iv * 1000 + fv;
    proof {
        let intpart = s@.subrange(start as int, j as int);
        if j < len {
            let frac = s@.skip(j as int + 1);
            lemma_frac_milli_nonneg(frac);
            assert(fv == frac_milli(frac));
        }
        assert(magnitude_milli(body) == Some(m as int));
    }
    if m > VALUE_LIMIT as u64 {
        return None;
    }
    let v: i64 = if neg {
        -(m as i64)
    } else {
        m as i64
    };
    Some(v)
}

/// A digit sequence of length `n` denotes less than `10^n`; in particular at
/// most 999 for three digits.
proof fn lemma_digits_value_upper(s: Seq<char>)
    requires
        all_digit_chars(s),
        s.len() <= 3,
    ensures
        digits_value(s) <= if s.len() == 3 { 999int } else if s.len() == 2 { 99int } else if s.len()
            == 1 { 9int } else { 0int },
    decreases s.len(),
{
    if s.len() > 0 {
        assert(all_digit_chars(s.drop_last()));
        lemma_digits_value_upper(s.drop_last());
        assert(digit_val(s.last()) <= 9);
    }
}

/// The fractional part denotes a nonnegative number of milli-units, below
/// one thousand.
proof fn lemma_frac_milli_nonneg(f: Seq<char>)
    requires
        all_digit_chars(f),
    ensures
        0 <= frac_milli(f) <= 999,
{
    if f.len() >= 3 {
        assert(all_digit_chars(f.take(3))) by {
            assert(forall|i: int| 0 <= i < 3 ==> #[trigger] f.take(3)[i] == f[i]);
        }
        lemma_digits_value_nonneg(f.take(3));
        lemma_digits_value_upper(f.take(3));
    } else {
        lemma_digits_value_nonneg(f);
        lemma_digits_value_upper(f);
    }
}

} // verus!
