//! Small verified helpers: string comparison and best-effort numeric
//! coercion of attribute values.

use vstd::prelude::*;

verus! {

/// Compares two string slices character by character.
pub fn str_eq(a: &str, b: &str) -> (r: bool)
    ensures
        r == (a@ == b@),
{
    let a_len = a.unicode_len();
    let b_len = b.unicode_len();
    if a_len != b_len {
        return false;
    }
    let mut i: usize = 0;
    while i < a_len
        invariant
            i <= a_len,
            a_len == a@.len(),
            b_len == b@.len(),
            a_len == b_len,
            forall|j: int| 0 <= j < i ==> a@[j] == b@[j],
        decreases a_len - i,
    {
        if a.get_char(i) != b.get_char(i) {
            return false;
        }
        i += 1;
    }
    proof {
        assert(a@ =~= b@);
    }
    true
}

/// Whether `c` is a decimal digit.
pub open spec fn spec_is_digit(c: char) -> bool {
    '0' <= c && c <= '9'
}

/// The value of one decimal digit.
pub open spec fn spec_digit_val(c: char) -> int {
    c as int - '0' as int
}

/// Whether every character of `s` is a decimal digit.
pub open spec fn spec_all_digits(s: Seq<char>) -> bool {
    forall|i: int| 0 <= i < s.len() ==> spec_is_digit(s[i])
}

/// The value of a sequence of decimal digits, most significant first.
pub open spec fn spec_digits_val(s: Seq<char>) -> int
    decreases s.len(),
{
    if s.len() == 0 {
        0
    } else {
        spec_digits_val(s.drop_last()) * 10 + spec_digit_val(s.last())
    }
}

/// The digits of an unsigned decimal string: the string with one
/// leading `+`, if any, removed.
pub open spec fn spec_unsigned_body(s: Seq<char>) -> Seq<char> {
    if s.len() > 0 && s[0] == '+' {
        s.drop_first()
    } else {
        s
    }
}

/// The number an unsigned decimal string denotes: an optional leading
/// `+`, then one or more digits, whose value fits in 16 bits; anything
/// else denotes nothing.
pub open spec fn spec_parse_u16(s: Seq<char>) -> Option<u16> {
    let digits = spec_unsigned_body(s);
    if digits.len() > 0 && spec_all_digits(digits) && spec_digits_val(digits) <= 0xffff {
        Some(spec_digits_val(digits) as u16)
    } else {
        None
    }
}

proof fn lemma_digits_val_nonneg(s: Seq<char>)
    requires
        spec_all_digits(s),
    ensures
        spec_digits_val(s) >= 0,
    decreases s.len(),
{
    if s.len() > 0 {
        assert(spec_all_digits(s.drop_last()));
        lemma_digits_val_nonneg(s.drop_last());
    }
}

/// The value of a digit string never falls when more digits follow.
proof fn lemma_digits_val_prefix(s: Seq<char>, n: int)
    requires
        spec_all_digits(s),
        0 <= n <= s.len(),
    ensures
        spec_digits_val(s.take(n)) <= spec_digits_val(s),
    decreases s.len() - n,
{
    if n == s.len() {
        assert(s.take(n) =~= s);
    } else {
        assert(s.take(n + 1).drop_last() =~= s.take(n));
        assert(spec_all_digits(s.take(n)));
        lemma_digits_val_nonneg(s.take(n));
        lemma_digits_val_prefix(s, n + 1);
    }
}

/// Best-effort numeric coercion: the number `x` denotes as an unsigned
/// 16-bit decimal, or `None` when `x` does not denote one. A malformed
/// value is absent, never an error.
pub fn parse_option_str(x: String) -> (r: Option<u16>)
    ensures
        r == spec_parse_u16(x@),
{
    let s = x.as_str();
    let len = s.unicode_len();
    let start: usize = if len > 0 && s.get_char(0) == '+' {
        1
    } else {
        0
    };
    let ghost digits: Seq<char> = if start == 1 {
        s@.drop_first()
    } else {
        s@
    };
    proof {
        assert(digits =~= s@.skip(start as int));
    }
    if start == len {
        return None;
    }
    let mut j: usize = start;
    let mut val: u32 = 0;
    while j < len
        invariant
            start <= j <= len,
            len == s@.len(),
            digits == s@.skip(start as int),
            digits == spec_unsigned_body(x@),
            s@ == x@,
            spec_all_digits(s@.subrange(start as int, j as int)),
            val == spec_digits_val(s@.subrange(start as int, j as int)),
            val <= 0xffff,
        decreases len - j,
    {
        let c = s.get_char(j);
        if c < '0' || c > '9' {
            assert(!spec_is_digit(digits[j - start]));
            return None;
        }
        let d: u32 = c as u32 - 48;
        let next: u32 = val * 10 + d;
        proof {
            assert(s@.subrange(start as int, j + 1).drop_last() =~= s@.subrange(
                start as int,
                j as int,
            ));
            assert(s@.subrange(start as int, j + 1).last() == c);
        }
        if next > 0xffff {
            // Every extension of an over-large digit prefix stays over
            // large, so the whole string denotes nothing.
            proof {
                if spec_all_digits(digits) {
                    assert(digits.take(j + 1 - start) =~= s@.subrange(start as int, j + 1));
                    lemma_digits_val_prefix(digits, j + 1 - start);
                }
            }
            return None;
        }
        val = next;
        j += 1;
    }
    proof {
        assert(s@.subrange(start as int, len as int) =~= digits);
    }
    Some(val as u16)
}

/// Case-insensitive match of one character against a lower-case letter.
pub open spec fn spec_ci_eq_char(c: char, lower: char) -> bool {
    c == lower || c as int + 32 == lower as int
}

/// Case-insensitive match of a string against an all-lower-case one.
pub open spec fn spec_ci_eq(s: Seq<char>, t: Seq<char>) -> bool {
    s.len() == t.len() && forall|i: int| 0 <= i < s.len() ==> spec_ci_eq_char(s[i], t[i])
}

/// The string with one leading sign (`+` or `-`), if any, removed.
pub open spec fn spec_signed_body(s: Seq<char>) -> Seq<char> {
    if s.len() > 0 && (s[0] == '+' || s[0] == '-') {
        s.drop_first()
    } else {
        s
    }
}

/// Whether `c` introduces an exponent part.
pub open spec fn spec_is_e(c: char) -> bool {
    c == 'e' || c == 'E'
}

/// The non-finite float spellings: `inf`, `infinity` and `nan`, in any
/// case.
pub open spec fn spec_is_special(b: Seq<char>) -> bool {
    spec_ci_eq(b, "inf"@) || spec_ci_eq(b, "infinity"@) || spec_ci_eq(b, "nan"@)
}

/// A mantissa: one or more digits with at most one decimal point among
/// them (`25`, `6.022`, `5.`, `.5`; not `.` alone).
pub open spec fn spec_is_mantissa(m: Seq<char>) -> bool {
    (m.len() > 0 && spec_all_digits(m)) || (exists|k: int|
        0 <= k < m.len() && m[k] == '.' && spec_all_digits(m.take(k)) && spec_all_digits(
            m.skip(k + 1),
        ) && m.len() > 1)
}

/// An exponent part: `e` or `E`, an optional sign, then one or more
/// digits.
pub open spec fn spec_is_exp(e: Seq<char>) -> bool {
    e.len() > 0 && spec_is_e(e[0]) && {
        let d = spec_signed_body(e.drop_first());
        d.len() > 0 && spec_all_digits(d)
    }
}

/// A finite decimal float: a mantissa with an optional exponent part.
pub open spec fn spec_is_number(b: Seq<char>) -> bool {
    spec_is_mantissa(b) || (exists|j: int|
        0 <= j < b.len() && spec_is_mantissa(b.take(j)) && spec_is_exp(b.skip(j)))
}

/// Whether `s` is a well-formed float literal: an optional sign, then a
/// non-finite spelling or a finite decimal number.
pub open spec fn spec_is_float_literal(s: Seq<char>) -> bool {
    spec_is_special(spec_signed_body(s)) || spec_is_number(spec_signed_body(s))
}

/// Every character of a mantissa is a digit or the decimal point.
proof fn lemma_mantissa_chars(m: Seq<char>, i: int)
    requires
        spec_is_mantissa(m),
        0 <= i < m.len(),
    ensures
        spec_is_digit(m[i]) || m[i] == '.',
{
    if m.len() > 0 && spec_all_digits(m) {
    } else {
        let k = choose|k: int|
            0 <= k < m.len() && m[k] == '.' && spec_all_digits(m.take(k)) && spec_all_digits(
                m.skip(k + 1),
            ) && m.len() > 1;
        if i < k {
            assert(m.take(k)[i] == m[i]);
        } else if i > k {
            assert(m.skip(k + 1)[i - k - 1] == m[i]);
        }
    }
}

/// Case-insensitive comparison against an all-lower-case string.
fn str_ci_eq(s: &str, t: &str) -> (r: bool)
    ensures
        r == spec_ci_eq(s@, t@),
{
    let s_len = s.unicode_len();
    let t_len = t.unicode_len();
    if s_len != t_len {
        return false;
    }
    let mut i: usize = 0;
    while i < s_len
        invariant
            i <= s_len,
            s_len == s@.len(),
            t_len == t@.len(),
            s_len == t_len,
            forall|j: int| 0 <= j < i ==> spec_ci_eq_char(s@[j], t@[j]),
        decreases s_len - i,
    {
        let sc = s.get_char(i);
        let tc = t.get_char(i);
        if !(sc == tc || sc as u32 + 32 == tc as u32) {
            return false;
        }
        i += 1;
    }
    true
}

/// The position of the first `e` or `E`, if any.
fn find_exp_start(b: &str) -> (r: Option<usize>)
    ensures
        match r {
            Some(j) => j < b@.len() && spec_is_e(b@[j as int]) && forall|i: int|
                0 <= i < j ==> !spec_is_e(b@[i]),
            None => forall|i: int| 0 <= i < b@.len() ==> !spec_is_e(b@[i]),
        },
{
    let len = b.unicode_len();
    let mut j: usize = 0;
    while j < len
        invariant
            j <= len,
            len == b@.len(),
            forall|i: int| 0 <= i < j ==> !spec_is_e(b@[i]),
        decreases len - j,
    {
        let c = b.get_char(j);
        if c == 'e' || c == 'E' {
            return Some(j);
        }
        j += 1;
    }
    None
}

/// The first position at or after `start` that holds no digit, with all
/// digits before it, or `None` when digits run to the end.
fn first_non_digit(s: &str, start: usize) -> (r: Option<usize>)
    requires
        start <= s@.len(),
    ensures
        match r {
            Some(i) => start <= i < s@.len() && !spec_is_digit(s@[i as int]) && spec_all_digits(
                s@.subrange(start as int, i as int),
            ),
            None => spec_all_digits(s@.skip(start as int)),
        },
{
    let len = s.unicode_len();
    let mut j: usize = start;
    while j < len
        invariant
            start <= j <= len,
            len == s@.len(),
            spec_all_digits(s@.subrange(start as int, j as int)),
        decreases len - j,
    {
        let c = s.get_char(j);
        if c < '0' || c > '9' {
            return Some(j);
        }
        proof {
            assert(s@.subrange(start as int, j + 1).drop_last() =~= s@.subrange(
                start as int,
                j as int,
            ));
        }
        j += 1;
    }
    proof {
        assert(s@.skip(start as int) =~= s@.subrange(start as int, len as int));
    }
    None
}

/// Whether `m` is a mantissa, exactly as [`spec_is_mantissa`] says.
fn is_mantissa_str(m: &str) -> (r: bool)
    ensures
        r == spec_is_mantissa(m@),
{
    let len = m.unicode_len();
    if len == 0 {
        return false;
    }
    match first_non_digit(m, 0) {
        None => {
            proof {
                assert(m@.skip(0) =~= m@);
            }
            true
        },
        Some(i) => {
            let dot = m.get_char(i);
            proof {
                assert(m@.subrange(0, i as int) =~= m@.take(i as int));
            }
            if dot != '.' {
                // Neither all digits nor digits around a point: any
                // point would stand at this first non-digit position.
                proof {
                    if spec_is_mantissa(m@) {
                        let k = choose|k: int|
                            0 <= k < m@.len() && m@[k] == '.' && spec_all_digits(m@.take(k))
                                && spec_all_digits(m@.skip(k + 1)) && m@.len() > 1;
                        if k < i {
                            assert(m@.take(i as int)[k] == m@[k]);
                        } else if k > i {
                            assert(m@.take(k)[i as int] == m@[i as int]);
                        }
                        assert(false);
                    }
                }
                return false;
            }
            if len == 1 {
                // A lone point carries no digit.
                return false;
            }
            match first_non_digit(m, i + 1) {
                Some(j) => {
                    // A second non-digit: no single point position
                    // works.
                    proof {
                        assert(m@.subrange(i + 1, j as int) =~= m@.skip(i + 1).take(j - i - 1));
                        if spec_is_mantissa(m@) {
                            let k = choose|k: int|
                                0 <= k < m@.len() && m@[k] == '.' && spec_all_digits(m@.take(k))
                                    && spec_all_digits(m@.skip(k + 1)) && m@.len() > 1;
                            if k == i {
                                assert(m@.skip(i + 1)[j - i - 1] == m@[j as int]);
                            } else if k < i {
                                assert(m@.take(i as int)[k] == m@[k]);
                            } else {
                                assert(m@.take(k)[i as int] == m@[i as int]);
                            }
                            assert(false);
                        }
                    }
                    false
                },
                None => {
                    proof {
                        assert(m@[i as int] == '.' && spec_all_digits(m@.take(i as int))
                            && spec_all_digits(m@.skip(i + 1)) && m@.len() > 1);
                    }
                    true
                },
            }
        },
    }
}

/// Whether `e` is an exponent part, exactly as [`spec_is_exp`] says.
fn is_exp_str(e: &str) -> (r: bool)
    ensures
        r == spec_is_exp(e@),
{
    let len = e.unicode_len();
    if len == 0 {
        return false;
    }
    let c0 = e.get_char(0);
    if !(c0 == 'e' || c0 == 'E') {
        return false;
    }
    let start: usize = if len > 1 {
        let c1 = e.get_char(1);
        if c1 == '+' || c1 == '-' {
            2
        } else {
            1
        }
    } else {
        1
    };
    let ghost d: Seq<char> = spec_signed_body(e@.drop_first());
    proof {
        assert(d =~= e@.skip(start as int));
    }
    if start == len {
        return false;
    }
    match first_non_digit(e, start) {
        Some(j) => {
            proof {
                assert(d[j - start] == e@[j as int]);
            }
            false
        },
        None => true,
    }
}

/// Whether `b` is a finite decimal number, exactly as [`spec_is_number`]
/// says.
fn is_number_str(b: &str) -> (r: bool)
    ensures
        r == spec_is_number(b@),
{
    let len = b.unicode_len();
    match find_exp_start(b) {
        None => {
            let r = is_mantissa_str(b);
            proof {
                if !r && spec_is_number(b@) {
                    let j = choose|j: int|
                        0 <= j < b@.len() && spec_is_mantissa(b@.take(j)) && spec_is_exp(
                            b@.skip(j),
                        );
                    assert(b@.skip(j)[0] == b@[j]);
                    assert(false);
                }
            }
            r
        },
        Some(j) => {
            let m = b.substring_char(0, j);
            let e = b.substring_char(j, len);
            proof {
                assert(m@ =~= b@.take(j as int));
                assert(e@ =~= b@.skip(j as int));
            }
            let ok = is_mantissa_str(m) && is_exp_str(e);
            proof {
                if !ok && spec_is_number(b@) {
                    if spec_is_mantissa(b@) {
                        lemma_mantissa_chars(b@, j as int);
                        assert(false);
                    } else {
                        let j2 = choose|j2: int|
                            0 <= j2 < b@.len() && spec_is_mantissa(b@.take(j2)) && spec_is_exp(
                                b@.skip(j2),
                            );
                        if j2 < j {
                            assert(b@.skip(j2)[0] == b@[j2]);
                        } else if j2 > j {
                            lemma_mantissa_chars(b@.take(j2), j as int);
                            assert(b@.take(j2)[j as int] == b@[j as int]);
                        }
                        assert(false);
                    }
                }
            }
            ok
        },
    }
}

/// Whether `x` is a well-formed float literal: an optional sign, then
/// `inf`, `infinity` or `nan` in any case, or a decimal number such as
/// `127`, `6.022`, `-0.5` or `2e-3`. A value the source spells any other
/// way (`N/A`, an empty string) is not one.
pub fn is_float_literal(x: &str) -> (r: bool)
    ensures
        r == spec_is_float_literal(x@),
{
    let len = x.unicode_len();
    let start: usize = if len > 0 {
        let c = x.get_char(0);
        if c == '+' || c == '-' {
            1
        } else {
            0
        }
    } else {
        0
    };
    let b = x.substring_char(start, len);
    proof {
        assert(b@ =~= spec_signed_body(x@));
    }
    if str_ci_eq(b, "inf") || str_ci_eq(b, "infinity") || str_ci_eq(b, "nan") {
        return true;
    }
    is_number_str(b)
}


} // verus!
