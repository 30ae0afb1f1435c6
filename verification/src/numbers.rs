//! Decimal integer parsing and formatting, and acceptance of float tokens.
//!
//! Scalar values in OBJ and MTL text are kept as their source tokens; this
//! module decides which tokens are well-formed numbers, and gives unsigned
//! integer tokens their value.

use vstd::prelude::*;

verus! {

/// Whether `c` is an ASCII decimal digit.
pub open spec fn is_digit(c: char) -> bool {
    '0' <= c && c <= '9'
}

/// The value of the digit `c`.
pub open spec fn digit_val(c: char) -> int
    recommends
        is_digit(c),
{
    c as int - '0' as int
}

/// Whether every character of `s` is a decimal digit.
pub open spec fn all_digits(s: Seq<char>) -> bool {
    forall|i: int| 0 <= i < s.len() ==> is_digit(#[trigger] s[i])
}

/// The value of the digit string `s`, read in base ten.
pub open spec fn dec_val(s: Seq<char>) -> int
    recommends
        all_digits(s),
    decreases s.len(),
{
    if s.len() == 0 {
        0
    } else {
        dec_val(s.drop_last()) * 10 + digit_val(s.last())
    }
}

/// Whether `s` is an unsigned decimal integer token: an optional leading
/// `+`, then one or more digits.
pub open spec fn is_uint_token(s: Seq<char>) -> bool {
    if s.len() > 0 && s[0] == '+' {
        s.len() > 1 && all_digits(s.skip(1))
    } else {
        s.len() > 0 && all_digits(s)
    }
}

/// The digit part of an unsigned decimal integer token.
pub open spec fn uint_digits(s: Seq<char>) -> Seq<char> {
    if s.len() > 0 && s[0] == '+' {
        s.skip(1)
    } else {
        s
    }
}

/// A digit string's value never decreases when a digit is appended.
proof fn lemma_dec_val_push(s: Seq<char>, c: char)
    requires
        all_digits(s),
        is_digit(c),
    ensures
        dec_val(s.push(c)) == dec_val(s) * 10 + digit_val(c),
        dec_val(s.push(c)) >= dec_val(s),
{
    assert(s.push(c).drop_last() =~= s);
    assert(s.push(c).last() == c);
    assert(dec_val(s) >= 0) by {
        lemma_dec_val_nonnegative(s);
    }
}

/// A digit string's value is non-negative.
pub proof fn lemma_dec_val_nonnegative(s: Seq<char>)
    requires
        all_digits(s),
    ensures
        dec_val(s) >= 0,
    decreases s.len(),
{
    if s.len() > 0 {
        lemma_dec_val_nonnegative(s.drop_last());
    }
}

/// Whether `c` is a decimal digit.
pub fn digit(c: char) -> (r: bool)
    ensures
        r == is_digit(c),
{
    '0' <= c && c <= '9'
}

/// Reads the digits of `s` from position `from` to the end, accumulating
/// their base-ten value; `None` when a non-digit occurs or the value leaves
/// `u64`.
fn digits_val_u64(s: &str, from: usize, n: usize) -> (r: Option<u64>)
    requires
        n == s@.len(),
        from <= n,
    ensures
        r is Some ==> all_digits(s@.skip(from as int)) && r->0 == dec_val(s@.skip(from as int)),
        r is None ==> !(all_digits(s@.skip(from as int)) && dec_val(s@.skip(from as int))
            <= u64::MAX),
{
    let mut acc: u64 = 0;
    let mut i: usize = from;
    while i < n
        invariant
            from <= i <= n,
            n == s@.len(),
            all_digits(s@.subrange(from as int, i as int)),
            acc == dec_val(s@.subrange(from as int, i as int)),
        decreases n - i,
    {
        let c = s.get_char(i);
        if !digit(c) {
            proof {
                lemma_non_digit_suffix(s@, from as int, i as int);
            }
            return None;
        }
        let d: u64 = (c as u32 as u64) - ('0' as u32 as u64);
        proof {
            lemma_dec_val_nonnegative(s@.subrange(from as int, i as int));
        }
        if acc > (u64::MAX - d) / 10 {
            proof {
                lemma_overflow_suffix(s@, from as int, i as int, acc as int, d as int);
            }
            return None;
        }
        let ghost pre = s@.subrange(from as int, i as int);
        acc = acc * 10 + d;
        i = i + 1;
        proof {
            assert(s@.subrange(from as int, i as int) =~= pre.push(s@[i - 1]));
            lemma_dec_val_push(pre, s@[i - 1]);
        }
    }
    proof {
        assert(s@.subrange(from as int, n as int) =~= s@.skip(from as int));
    }
    Some(acc)
}

/// When a non-digit stands at position `i`, the suffix from `from` is not a
/// digit string.
proof fn lemma_non_digit_suffix(s: Seq<char>, from: int, i: int)
    requires
        0 <= from <= i < s.len(),
        !is_digit(s[i]),
    ensures
        !all_digits(s.skip(from)),
{
    assert(s.skip(from)[i - from] == s[i]);
}

/// When the value of the digits read so far already cannot be extended
/// within `u64`, the value of the whole suffix leaves `u64`.
proof fn lemma_overflow_suffix(s: Seq<char>, from: int, i: int, acc: int, d: int)
    requires
        0 <= from <= i < s.len(),
        all_digits(s.subrange(from, i)),
        is_digit(s[i]),
        d == digit_val(s[i]),
        acc == dec_val(s.subrange(from, i)),
        acc * 10 + d > u64::MAX,
    ensures
        all_digits(s.skip(from)) ==> dec_val(s.skip(from)) > u64::MAX,
{
    if all_digits(s.skip(from)) {
        assert(s.subrange(from, i + 1) =~= s.subrange(from, i).push(s[i]));
        lemma_dec_val_push(s.subrange(from, i), s[i]);
        lemma_dec_val_prefix_grows(s, from, i + 1);
    }
}

/// The value of a digit string is at least the value of any of its prefixes.
proof fn lemma_dec_val_prefix_grows(s: Seq<char>, from: int, k: int)
    requires
        0 <= from <= k <= s.len(),
        all_digits(s.skip(from)),
    ensures
        dec_val(s.skip(from)) >= dec_val(s.subrange(from, k)),
    decreases s.len() - k,
{
    if k == s.len() {
        assert(s.subrange(from, k) =~= s.skip(from));
    } else {
        assert(s.skip(from)[k - from] == s[k]);
        assert(s.subrange(from, k + 1) =~= s.subrange(from, k).push(s[k]));
        assert(forall|j: int| 0 <= j < s.subrange(from, k).len()
            ==> is_digit(#[trigger] s.subrange(from, k)[j]));
        lemma_dec_val_push(s.subrange(from, k), s[k]);
        lemma_dec_val_prefix_grows(s, from, k + 1);
    }
}

/// Reads an unsigned decimal integer token as a `u64`: an optional leading
/// `+`, then digits.  `None` when the token is malformed or its value leaves
/// `u64`.
pub fn parse_u64(s: &str) -> (r: Option<u64>)
    ensures
        r is Some <==> is_uint_token(s@) && dec_val(uint_digits(s@)) <= u64::MAX,
        r matches Some(v) ==> v == dec_val(uint_digits(s@)),
{
    let n = s.unicode_len();
    if n == 0 {
        return None;
    }
    let start: usize = if s.get_char(0) == '+' {
        1
    } else {
        0
    };
    if start >= n {
        return None;
    }
    proof {
        assert(s@.skip(start as int).len() > 0);
        if start == 0 {
            assert(uint_digits(s@) =~= s@.skip(0));
        } else {
            assert(uint_digits(s@) =~= s@.skip(1));
        }
    }
    digits_val_u64(s, start, n)
}

/// `s` without one leading `+` or `-` sign.
pub open spec fn strip_sign(s: Seq<char>) -> Seq<char> {
    if s.len() > 0 && (s[0] == '+' || s[0] == '-') {
        s.skip(1)
    } else {
        s
    }
}

/// Whether `c` is either of the two given characters.
pub open spec fn either(c: char, lo: char, up: char) -> bool {
    c == lo || c == up
}

/// The word `inf`, in any case.
pub open spec fn is_word_inf(b: Seq<char>) -> bool {
    b.len() == 3 && either(b[0], 'i', 'I') && either(b[1], 'n', 'N') && either(b[2], 'f', 'F')
}

/// The word `infinity`, in any case.
pub open spec fn is_word_infinity(b: Seq<char>) -> bool {
    b.len() == 8 && either(b[0], 'i', 'I') && either(b[1], 'n', 'N') && either(b[2], 'f', 'F')
        && either(b[3], 'i', 'I') && either(b[4], 'n', 'N') && either(b[5], 'i', 'I')
        && either(b[6], 't', 'T') && either(b[7], 'y', 'Y')
}

/// The word `nan`, in any case.
pub open spec fn is_word_nan(b: Seq<char>) -> bool {
    b.len() == 3 && either(b[0], 'n', 'N') && either(b[1], 'a', 'A') && either(b[2], 'n', 'N')
}

/// The first position at or after `i` that does not hold a digit.
pub open spec fn digits_end(s: Seq<char>, i: int) -> int
    decreases s.len() - i,
{
    if 0 <= i < s.len() && is_digit(s[i]) {
        digits_end(s, i + 1)
    } else {
        i
    }
}

/// Whether the characters of `b` from `i` on are an exponent part
/// (`e` or `E`, an optional sign, one or more digits), or nothing.
pub open spec fn is_exponent_or_end(b: Seq<char>, i: int) -> bool {
    if i == b.len() {
        true
    } else if 0 <= i < b.len() && either(b[i], 'e', 'E') {
        let j = if i + 1 < b.len() && (b[i + 1] == '+' || b[i + 1] == '-') {
            i + 2
        } else {
            i + 1
        };
        digits_end(b, j) == b.len() && b.len() > j
    } else {
        false
    }
}

/// Whether `b` is an unsigned decimal number: digits with an optional
/// fraction, or a fraction alone, then an optional exponent.
pub open spec fn is_unsigned_number(b: Seq<char>) -> bool {
    let d1 = digits_end(b, 0);
    let frac = d1 < b.len() && b[d1] == '.';
    let d2 = if frac {
        digits_end(b, d1 + 1)
    } else {
        d1
    };
    (d1 > 0 || (frac && d2 > d1 + 1)) && is_exponent_or_end(b, d2)
}

/// Whether `s` is a well-formed float token: an optional sign, then `inf`,
/// `infinity` or `nan` in any case, or a decimal number with optional
/// fraction and exponent.  This is the grammar that the standard library's
/// float parsing accepts.
pub open spec fn is_float_token(s: Seq<char>) -> bool {
    let b = strip_sign(s);
    is_word_inf(b) || is_word_infinity(b) || is_word_nan(b) || is_unsigned_number(b)
}

/// Whether every character of `s` from `from` to the end is a digit.
pub fn scan_all_digits(s: &str, from: usize, n: usize) -> (r: bool)
    requires
        n == s@.len(),
        from <= n,
    ensures
        r == all_digits(s@.skip(from as int)),
{
    let mut i: usize = from;
    while i < n
        invariant
            from <= i <= n,
            n == s@.len(),
            forall|m: int| from <= m < i ==> is_digit(#[trigger] s@[m]),
        decreases n - i,
    {
        if !digit(s.get_char(i)) {
            proof {
                assert(s@.skip(from as int)[i - from] == s@[i as int]);
            }
            return false;
        }
        i = i + 1;
    }
    proof {
        assert(forall|m: int| 0 <= m < s@.skip(from as int).len() ==> is_digit(
            #[trigger] s@.skip(from as int)[m],
        )) by {
            assert(forall|m: int| 0 <= m < s@.skip(from as int).len() ==> s@.skip(from as int)[m]
                == s@[#[trigger] (m + from)]);
        }
    }
    true
}

/// The first position at or after `from` in `s` that does not hold a digit.
fn scan_digits(s: &str, from: usize, n: usize) -> (r: usize)
    requires
        n == s@.len(),
        from <= n,
    ensures
        from <= r <= n,
        r == digits_end(s@, from as int),
{
    let mut i: usize = from;
    while i < n && digit(s.get_char(i))
        invariant
            from <= i <= n,
            n == s@.len(),
            digits_end(s@, from as int) == digits_end(s@, i as int),
        decreases n - i,
    {
        i = i + 1;
    }
    i
}

/// Whether the character at `i` is one of the two given characters; `false`
/// past the end.
fn char_at_is(s: &str, i: usize, n: usize, lo: char, up: char) -> (r: bool)
    requires
        n == s@.len(),
    ensures
        r == (i < n && either(s@[i as int], lo, up)),
{
    i < n && {
        let c = s.get_char(i);
        c == lo || c == up
    }
}

/// Whether `s` is a well-formed float token.
#[verifier::rlimit(60)]
pub fn is_float(s: &str) -> (r: bool)
    ensures
        r == is_float_token(s@),
{
    let n = s.unicode_len();
    let start: usize = if n > 0 && {
        let c = s.get_char(0);
        c == '+' || c == '-'
    } {
        1
    } else {
        0
    };
    let ghost b = strip_sign(s@);
    proof {
        assert(b =~= s@.skip(start as int));
        assert(forall|k: int| 0 <= k < b.len() ==> #[trigger] b[k] == s@[k + start]);
    }
    let m = n - start;
    // the three special words
    if m == 3 && char_at_is(s, start, n, 'i', 'I') && char_at_is(s, start + 1, n, 'n', 'N')
        && char_at_is(s, start + 2, n, 'f', 'F') {
        return true;
    }
    if m == 8 && char_at_is(s, start, n, 'i', 'I') && char_at_is(s, start + 1, n, 'n', 'N')
        && char_at_is(s, start + 2, n, 'f', 'F') && char_at_is(s, start + 3, n, 'i', 'I')
        && char_at_is(s, start + 4, n, 'n', 'N') && char_at_is(s, start + 5, n, 'i', 'I')
        && char_at_is(s, start + 6, n, 't', 'T') && char_at_is(s, start + 7, n, 'y', 'Y') {
        return true;
    }
    if m == 3 && char_at_is(s, start, n, 'n', 'N') && char_at_is(s, start + 1, n, 'a', 'A')
        && char_at_is(s, start + 2, n, 'n', 'N') {
        return true;
    }
    // a decimal number
    let d1 = scan_digits(s, start, n);
    proof {
        lemma_digits_end_skip(s@, start as int, start as int);
    }
    let frac = d1 < n && s.get_char(d1) == '.';
    let d2 = if frac {
        proof {
            lemma_digits_end_skip(s@, start as int, d1 as int + 1);
        }
        scan_digits(s, d1 + 1, n)
    } else {
        d1
    };
    if !(d1 > start || (frac && d2 > d1 + 1)) {
        return false;
    }
    // exponent or end
    if d2 == n {
        return true;
    }
    if !char_at_is(s, d2, n, 'e', 'E') {
        return false;
    }
    let j = if d2 + 1 < n && {
        let c = s.get_char(d2 + 1);
        c == '+' || c == '-'
    } {
        d2 + 2
    } else {
        d2 + 1
    };
    if j > n {
        return false;
    }
    proof {
        lemma_digits_end_skip(s@, start as int, j as int);
    }
    let e = scan_digits(s, j, n);
    e == n && n > j
}

/// `digits_end` on a suffix mirrors `digits_end` on the whole sequence.
proof fn lemma_digits_end_skip(s: Seq<char>, start: int, i: int)
    requires
        0 <= start <= i <= s.len(),
    ensures
        digits_end(s.skip(start), i - start) == digits_end(s, i) - start,
    decreases s.len() - i,
{
    if i < s.len() && is_digit(s[i]) {
        assert(s.skip(start)[i - start] == s[i]);
        lemma_digits_end_skip(s, start, i + 1);
    } else {
        if i < s.len() {
            assert(s.skip(start)[i - start] == s[i]);
        }
    }
}

/// The digit character for the value `d`.
pub open spec fn digit_char(d: int) -> char
    recommends
        0 <= d <= 9,
{
    if d == 0 {
        '0'
    } else if d == 1 {
        '1'
    } else if d == 2 {
        '2'
    } else if d == 3 {
        '3'
    } else if d == 4 {
        '4'
    } else if d == 5 {
        '5'
    } else if d == 6 {
        '6'
    } else if d == 7 {
        '7'
    } else if d == 8 {
        '8'
    } else {
        '9'
    }
}

/// The decimal digit string of the non-negative number `n`, without leading
/// zeros.
pub open spec fn dec_str(n: int) -> Seq<char>
    recommends
        n >= 0,
    decreases n,
{
    if n < 10 {
        seq![digit_char(n)]
    } else {
        dec_str(n / 10).push(digit_char(n % 10))
    }
}

/// The one-character string for the digit value `d`.
fn digit_string(d: usize) -> (r: String)
    requires
        d <= 9,
    ensures
        r@ =~= seq![digit_char(d as int)],
{
    proof {
        reveal_strlit("0");
        reveal_strlit("1");
        reveal_strlit("2");
        reveal_strlit("3");
        reveal_strlit("4");
        reveal_strlit("5");
        reveal_strlit("6");
        reveal_strlit("7");
        reveal_strlit("8");
        reveal_strlit("9");
    }
    match d {
        0 => String::from_str("0"),
        1 => String::from_str("1"),
        2 => String::from_str("2"),
        3 => String::from_str("3"),
        4 => String::from_str("4"),
        5 => String::from_str("5"),
        6 => String::from_str("6"),
        7 => String::from_str("7"),
        _ => {
            if d == 8 {
                String::from_str("8")
            } else {
                String::from_str("9")
            }
        },
    }
}

/// The decimal digit string of `v`.
pub fn usize_to_decimal(v: usize) -> (r: String)
    ensures
        r@ == dec_str(v as int),
    decreases v,
{
    if v < 10 {
        digit_string(v)
    } else {
        let mut head = usize_to_decimal(v / 10);
        let tail = digit_string(v % 10);
        head.append(tail.as_str());
        proof {
            assert(head@ =~= dec_str(v as int / 10).push(digit_char(v as int % 10)));
        }
        head
    }
}

/// Reads an unsigned decimal integer token as a `u32`.
pub fn parse_u32(s: &str) -> (r: Option<u32>)
    ensures
        r is Some <==> is_uint_token(s@) && dec_val(uint_digits(s@)) <= u32::MAX,
        r matches Some(v) ==> v == dec_val(uint_digits(s@)),
{
    match parse_u64(s) {
        Some(v) => {
            if v <= u32::MAX as u64 {
                Some(v as u32)
            } else {
                None
            }
        },
        None => None,
    }
}

} // verus!
