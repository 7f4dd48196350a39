//! Character-level utilities for the wire protocol: whitespace trimming,
//! string comparison, prefix stripping, and decimal integer / decimal
//! fraction grammars.
//!
//! Every device line is text; the parsers and encoders in this crate are
//! specified over `Seq<char>` views, and the executable helpers here carry
//! exact contracts against those specifications.

use vstd::prelude::*;
use vstd::string::StrSliceExecFns;
use vstd::string::StringExecFns;

verus! {

/// Whitespace as the protocol understands it (ASCII).
pub open spec fn is_space(c: char) -> bool {
    c == ' ' || c == '\t' || c == '\r' || c == '\n'
}

pub open spec fn is_digit(c: char) -> bool {
    '0' <= c && c <= '9'
}

/// Numeric value of a digit character.
pub open spec fn digit_val(c: char) -> int {
    c as int - '0' as int
}

pub open spec fn all_digits(s: Seq<char>) -> bool {
    forall|i: int| 0 <= i < s.len() ==> is_digit(#[trigger] s[i])
}

/// Value of a string of digits read as a base-10 number.
pub open spec fn dec_value(s: Seq<char>) -> int
    decreases s.len(),
{
    if s.len() == 0 {
        0
    } else {
        dec_value(s.subrange(0, s.len() - 1)) * 10 + digit_val(s[s.len() - 1])
    }
}

pub open spec fn trim_front_spec(s: Seq<char>) -> Seq<char>
    decreases s.len(),
{
    if s.len() > 0 && is_space(s[0]) {
        trim_front_spec(s.subrange(1, s.len() as int))
    } else {
        s
    }
}

pub open spec fn trim_back_spec(s: Seq<char>) -> Seq<char>
    decreases s.len(),
{
    if s.len() > 0 && is_space(s[s.len() - 1]) {
        trim_back_spec(s.subrange(0, s.len() - 1))
    } else {
        s
    }
}

/// The line with surrounding whitespace removed, as `str::trim` does for
/// the ASCII whitespace the device can produce.
pub open spec fn trim_spec(s: Seq<char>) -> Seq<char> {
    trim_back_spec(trim_front_spec(s))
}

/// Length of the longest digit prefix of `s`.
pub open spec fn digits_prefix_len(s: Seq<char>) -> int
    decreases s.len(),
{
    if s.len() == 0 || !is_digit(s[0]) {
        0
    } else {
        1 + digits_prefix_len(s.subrange(1, s.len() as int))
    }
}

/// `digits+` optionally followed by `.` and `digits+`.
pub open spec fn is_unsigned_decimal(s: Seq<char>) -> bool {
    let k = digits_prefix_len(s);
    k >= 1 && (k == s.len() || (s[k] == '.' && s.len() >= k + 2 && all_digits(
        s.subrange(k + 1, s.len() as int),
    )))
}

/// An optional leading `-` followed by an unsigned decimal: the shape in
/// which the device and the host write fractional numbers.
pub open spec fn is_decimal(s: Seq<char>) -> bool {
    if s.len() > 0 && s[0] == '-' {
        is_unsigned_decimal(s.subrange(1, s.len() as int))
    } else {
        is_unsigned_decimal(s)
    }
}

/// For a well-formed decimal: the denoted value is zero or negative.
/// A `-` sign makes the value non-positive whatever the magnitude; without
/// one the value is non-positive exactly when every digit is `0`.
pub open spec fn is_nonpositive_decimal(s: Seq<char>) -> bool {
    s.len() > 0 && (s[0] == '-' || forall|i: int|
        0 <= i < s.len() ==> (#[trigger] s[i]) == '0' || s[i] == '.')
}

/// An optional leading `-` followed by one or more digits.
pub open spec fn is_signed_int(s: Seq<char>) -> bool {
    if s.len() > 0 && s[0] == '-' {
        s.len() >= 2 && all_digits(s.subrange(1, s.len() as int))
    } else {
        s.len() >= 1 && all_digits(s)
    }
}

/// Value denoted by a well-formed signed integer string.
pub open spec fn signed_value(s: Seq<char>) -> int {
    if s.len() > 0 && s[0] == '-' {
        -dec_value(s.subrange(1, s.len() as int))
    } else {
        dec_value(s)
    }
}

pub proof fn lemma_dec_value_nonneg(s: Seq<char>)
    requires
        all_digits(s),
    ensures
        dec_value(s) >= 0,
    decreases s.len(),
{
    if s.len() > 0 {
        lemma_dec_value_nonneg(s.subrange(0, s.len() - 1));
    }
}

/// A digit prefix of a digit string never exceeds the whole string's value.
pub proof fn lemma_dec_value_prefix(s: Seq<char>, i: int)
    requires
        all_digits(s),
        0 <= i <= s.len(),
    ensures
        dec_value(s.subrange(0, i)) <= dec_value(s),
    decreases s.len() - i,
{
    if i < s.len() {
        let t = s.subrange(0, i + 1);
        assert(t.subrange(0, t.len() - 1) =~= s.subrange(0, i));
        lemma_dec_value_nonneg(s.subrange(0, i));
        lemma_dec_value_prefix(s, i + 1);
    } else {
        assert(s.subrange(0, i) =~= s);
    }
}

/// `digits_prefix_len` is the unique cut: everything before it is a digit
/// and the character at it, if any, is not.
pub proof fn lemma_digits_prefix_len_is(s: Seq<char>, i: int)
    requires
        0 <= i <= s.len(),
        all_digits(s.subrange(0, i)),
        i == s.len() || !is_digit(s[i]),
    ensures
        digits_prefix_len(s) == i,
    decreases s.len(),
{
    if i == 0 {
    } else {
        assert(is_digit(s[0])) by {
            assert(s.subrange(0, i)[0] == s[0]);
        }
        let t = s.subrange(1, s.len() as int);
        assert(t.subrange(0, i - 1) =~= s.subrange(0, i).subrange(1, i));
        assert(forall|k: int| 0 <= k < i - 1 ==> is_digit(#[trigger] t.subrange(0, i - 1)[k]));
        lemma_digits_prefix_len_is(t, i - 1);
    }
}

pub fn space(c: char) -> (r: bool)
    ensures
        r == is_space(c),
{
    c == ' ' || c == '\t' || c == '\r' || c == '\n'
}

pub fn digit(c: char) -> (r: bool)
    ensures
        r == is_digit(c),
{
    '0' <= c && c <= '9'
}

/// Character-wise string equality.
pub fn str_eq(a: &str, b: &str) -> (r: bool)
    ensures
        r == (a@ == b@),
{
    let na = a.unicode_len();
    let nb = b.unicode_len();
    if na != nb {
        return false;
    }
    let mut i: usize = 0;
    while i < na
        invariant
            0 <= i <= na,
            na == a@.len(),
            na == b@.len(),
            forall|k: int| 0 <= k < i ==> a@[k] == b@[k],
        decreases na - i,
    {
        if a.get_char(i) != b.get_char(i) {
            return false;
        }
        i += 1;
    }
    proof {
        assert(a@ =~= b@);
    }
    true
}

/// Removes `p` from the front of `s`; `None` when `s` does not start with it.
pub fn strip_prefix<'a>(s: &'a str, p: &str) -> (r: Option<&'a str>)
    ensures
        r is Some <==> (p@.len() <= s@.len() && s@.subrange(0, p@.len() as int) == p@),
        r is Some ==> r.unwrap()@ == s@.subrange(p@.len() as int, s@.len() as int),
{
    let ns = s.unicode_len();
    let np = p.unicode_len();
    if np > ns {
        proof {
            if p@.len() <= s@.len() && s@.subrange(0, p@.len() as int) == p@ {
                assert(false);
            }
        }
        return None;
    }
    let mut i: usize = 0;
    while i < np
        invariant
            0 <= i <= np,
            np == p@.len(),
            ns == s@.len(),
            np <= ns,
            forall|k: int| 0 <= k < i ==> s@[k] == p@[k],
        decreases np - i,
    {
        if s.get_char(i) != p.get_char(i) {
            proof {
                if s@.subrange(0, np as int) == p@ {
                    assert(s@.subrange(0, np as int)[i as int] == s@[i as int]);
                }
            }
            return None;
        }
        i += 1;
    }
    proof {
        assert(s@.subrange(0, np as int) =~= p@);
    }
    Some(s.substring_char(np, ns))
}

/// Surrounding ASCII whitespace removed.
pub fn trim<'a>(s: &'a str) -> (r: &'a str)
    ensures
        r@ == trim_spec(s@),
{
    let n = s.unicode_len();
    proof {
        assert(s@.subrange(0, n as int) =~= s@);
    }
    let mut i: usize = 0;
    while i < n && space(s.get_char(i))
        invariant
            0 <= i <= n,
            n == s@.len(),
            trim_front_spec(s@) == trim_front_spec(s@.subrange(i as int, n as int)),
        decreases n - i,
    {
        proof {
            let t = s@.subrange(i as int, n as int);
            assert(t.subrange(1, t.len() as int) =~= s@.subrange(i + 1, n as int));
        }
        i += 1;
    }
    proof {
        assert(trim_front_spec(s@) == s@.subrange(i as int, n as int));
    }
    let mut j: usize = n;
    while j > i && space(s.get_char(j - 1))
        invariant
            i <= j <= n,
            n == s@.len(),
            trim_front_spec(s@) == s@.subrange(i as int, n as int),
            trim_back_spec(s@.subrange(i as int, n as int)) == trim_back_spec(
                s@.subrange(i as int, j as int),
            ),
        decreases j - i,
    {
        proof {
            let t = s@.subrange(i as int, j as int);
            assert(t[t.len() - 1] == s@[j - 1]);
            assert(t.subrange(0, t.len() - 1) =~= s@.subrange(i as int, j - 1));
        }
        j -= 1;
    }
    proof {
        assert(trim_back_spec(s@.subrange(i as int, j as int)) == s@.subrange(
            i as int,
            j as int,
        ));
    }
    s.substring_char(i, j)
}

/// Parses a base-10 `u32`; fails on an empty string, a non-digit, or a
/// value over `u32::MAX`.
pub fn parse_u32(s: &str) -> (r: Option<u32>)
    ensures
        r is Some <==> (s@.len() > 0 && all_digits(s@) && dec_value(s@) <= u32::MAX),
        r is Some ==> r.unwrap() as int == dec_value(s@),
{
    let n = s.unicode_len();
    if n == 0 {
        return None;
    }
    let mut val: u32 = 0;
    let mut i: usize = 0;
    while i < n
        invariant
            0 <= i <= n,
            n == s@.len(),
            all_digits(s@.subrange(0, i as int)),
            val as int == dec_value(s@.subrange(0, i as int)),
        decreases n - i,
    {
        let c = s.get_char(i);
        if !digit(c) {
            return None;
        }
        let d: u32 = c as u32 - 48;
        let next: u64 = val as u64 * 10 + d as u64;
        proof {
            let t = s@.subrange(0, i + 1);
            assert(t.subrange(0, t.len() - 1) =~= s@.subrange(0, i as int));
            assert(dec_value(t) == next);
        }
        if next > u32::MAX as u64 {
            proof {
                if all_digits(s@) {
                    lemma_dec_value_prefix(s@, i + 1);
                }
            }
            return None;
        }
        val = next as u32;
        i += 1;
    }
    proof {
        assert(s@.subrange(0, n as int) =~= s@);
    }
    Some(val)
}

/// Parses a base-10 `u8`.
pub fn parse_u8(s: &str) -> (r: Option<u8>)
    ensures
        r is Some <==> (s@.len() > 0 && all_digits(s@) && dec_value(s@) <= u8::MAX),
        r is Some ==> r.unwrap() as int == dec_value(s@),
{
    match parse_u32(s) {
        Some(v) => if v <= u8::MAX as u32 {
            Some(v as u8)
        } else {
            proof {
                lemma_dec_value_nonneg(s@);
            }
            None
        },
        None => {
            proof {
                if s@.len() > 0 && all_digits(s@) && dec_value(s@) <= u8::MAX {
                    assert(dec_value(s@) <= u32::MAX);
                }
            }
            None
        },
    }
}

/// Parses a base-10 `i32` with an optional leading `-`.
pub fn parse_i32(s: &str) -> (r: Option<i32>)
    ensures
        r is Some <==> (is_signed_int(s@) && i32::MIN <= signed_value(s@) <= i32::MAX),
        r is Some ==> r.unwrap() as int == signed_value(s@),
{
    let n = s.unicode_len();
    if n > 0 && s.get_char(0) == '-' {
        let body = s.substring_char(1, n);
        proof {
            if all_digits(body@) {
                lemma_dec_value_nonneg(body@);
            }
        }
        match parse_u32(body) {
            Some(v) => if v <= i32::MAX as u32 {
                Some(-(v as i32))
            } else if v == i32::MAX as u32 + 1 {
                Some(i32::MIN)
            } else {
                None
            },
            None => {
                proof {
                    if is_signed_int(s@) && i32::MIN <= signed_value(s@) {
                        assert(dec_value(body@) <= u32::MAX);
                    }
                }
                None
            },
        }
    } else {
        match parse_u32(s) {
            Some(v) => if v <= i32::MAX as u32 {
                Some(v as i32)
            } else {
                proof {
                    lemma_dec_value_nonneg(s@);
                }
                None
            },
            None => {
                proof {
                    if is_signed_int(s@) && signed_value(s@) <= i32::MAX {
                        lemma_dec_value_nonneg(s@);
                    }
                }
                None
            },
        }
    }
}

/// Longest run of digits in `s` starting at `from`.
fn digits_run(s: &str, from: usize) -> (r: usize)
    requires
        from <= s@.len(),
    ensures
        from <= r <= s@.len(),
        r - from == digits_prefix_len(s@.subrange(from as int, s@.len() as int)),
{
    let n = s.unicode_len();
    let mut i: usize = from;
    while i < n && digit(s.get_char(i))
        invariant
            from <= i <= n,
            n == s@.len(),
            forall|k: int| from <= k < i ==> is_digit(#[trigger] s@[k]),
        decreases n - i,
    {
        i += 1;
    }
    proof {
        let t = s@.subrange(from as int, n as int);
        assert(forall|k: int| 0 <= k < i - from ==> is_digit(#[trigger] t.subrange(
            0,
            i - from,
        )[k]));
        lemma_digits_prefix_len_is(t, i - from);
    }
    i
}

/// Whether `s` is a well-formed decimal number.
pub fn decimal_str(s: &str) -> (r: bool)
    ensures
        r == is_decimal(s@),
{
    let n = s.unicode_len();
    let start: usize = if n > 0 && s.get_char(0) == '-' {
        1
    } else {
        0
    };
    let ghost body = if start == 1 {
        s@.subrange(1, n as int)
    } else {
        s@
    };
    proof {
        if start == 1 {
            assert(s@.subrange(1, n as int) =~= s@.subrange(start as int, n as int));
        } else {
            assert(s@ =~= s@.subrange(start as int, n as int));
        }
    }
    let i = digits_run(s, start);
    proof {
        assert(digits_prefix_len(body) == i - start);
    }
    if i == start {
        return false;
    }
    if i == n {
        return true;
    }
    if s.get_char(i) != '.' {
        proof {
            assert(body[(i - start) as int] == s@[i as int]);
        }
        return false;
    }
    proof {
        assert(body[(i - start) as int] == s@[i as int]);
    }
    let j = digits_run(s, i + 1);
    proof {
        let tail = s@.subrange(i + 1, n as int);
        assert(body.subrange(i - start + 1, body.len() as int) =~= tail);
        if j == n && j > i + 1 {
            assert(digits_prefix_len(tail) == tail.len());
            assert(forall|k: int| 0 <= k < tail.len() ==> is_digit(#[trigger] tail[k])) by {
                lemma_digits_prefix_full(tail);
            }
        } else {
            if all_digits(tail) {
                lemma_digits_prefix_len_is(tail, tail.len() as int);
            }
        }
    }
    j == n && j > i + 1
}

/// A digit prefix spanning the whole string means every character is a digit.
proof fn lemma_digits_prefix_full(s: Seq<char>)
    requires
        digits_prefix_len(s) == s.len(),
    ensures
        all_digits(s),
    decreases s.len(),
{
    if s.len() > 0 {
        let t = s.subrange(1, s.len() as int);
        lemma_digits_prefix_full(t);
        assert(forall|k: int| 1 <= k < s.len() ==> is_digit(#[trigger] s[k])) by {
            assert(forall|k: int| 0 <= k < t.len() ==> is_digit(#[trigger] t[k]));
            assert(forall|k: int| 1 <= k < s.len() ==> s[k] == t[k - 1]);
        }
    }
}

/// Whether a well-formed decimal denotes a value that is zero or negative.
pub fn nonpositive_decimal_str(s: &str) -> (r: bool)
    ensures
        r == is_nonpositive_decimal(s@),
{
    let n = s.unicode_len();
    if n == 0 {
        return false;
    }
    if s.get_char(0) == '-' {
        return true;
    }
    let mut i: usize = 0;
    while i < n
        invariant
            0 <= i <= n,
            n == s@.len(),
            n > 0,
            s@[0] != '-',
            forall|k: int| 0 <= k < i ==> (#[trigger] s@[k]) == '0' || s@[k] == '.',
        decreases n - i,
    {
        let c = s.get_char(i);
        if c != '0' && c != '.' {
            return false;
        }
        i += 1;
    }
    true
}

/// The decimal digit character for `d`.
pub open spec fn digit_char(d: int) -> char {
    if d == 0 {
        '0'
    } else if d == 1 {
        '1'
    } else if d == 2 {
        '2'
    } else if d == 3 {
        '3'
    } else if d == 4 {
        '4'
    } else if d == 5 {
        '5'
    } else if d == 6 {
        '6'
    } else if d == 7 {
        '7'
    } else if d == 8 {
        '8'
    } else {
        '9'
    }
}

/// Decimal rendering of a non-negative integer, most significant digit
/// first, no leading zeros.
pub open spec fn u32_text(n: int) -> Seq<char>
    decreases n,
{
    if n < 10 {
        seq![digit_char(n)]
    } else {
        u32_text(n / 10).push(digit_char(n % 10))
    }
}

/// Decimal rendering of a signed integer.
pub open spec fn i32_text(n: int) -> Seq<char> {
    if n < 0 {
        seq!['-'] + u32_text(-n)
    } else {
        u32_text(n)
    }
}

fn digit_str(d: u32) -> (r: &'static str)
    requires
        d < 10,
    ensures
        r@ == seq![digit_char(d as int)],
{
    proof {
        reveal_strlit("0");
        reveal_strlit("1");
        reveal_strlit("2");
        reveal_strlit("3");
        reveal_strlit("4");
        reveal_strlit("5");
        reveal_strlit("6");
        reveal_strlit("7");
        reveal_strlit("8");
        reveal_strlit("9");
    }
    let r: &'static str = if d == 0 {
        "0"
    } else if d == 1 {
        "1"
    } else if d == 2 {
        "2"
    } else if d == 3 {
        "3"
    } else if d == 4 {
        "4"
    } else if d == 5 {
        "5"
    } else if d == 6 {
        "6"
    } else if d == 7 {
        "7"
    } else if d == 8 {
        "8"
    } else {
        "9"
    };
    proof {
        assert(r@ =~= seq![digit_char(d as int)]);
    }
    r
}

/// Renders `n` in decimal.
pub fn u32_to_string(n: u32) -> (r: String)
    ensures
        r@ == u32_text(n as int),
    decreases n,
{
    if n < 10 {
        digit_str(n).to_owned()
    } else {
        let mut r = u32_to_string(n / 10);
        r.append(digit_str(n % 10));
        proof {
            assert(r@ =~= u32_text(n as int / 10).push(digit_char(n as int % 10)));
        }
        r
    }
}

/// Renders `n` in decimal with a `-` sign when negative.
pub fn i32_to_string(n: i32) -> (r: String)
    ensures
        r@ == i32_text(n as int),
{
    if n >= 0 {
        u32_to_string(n as u32)
    } else {
        let m: i64 = -(n as i64);
        let mut r = "-".to_owned();
        let digits = u32_to_string(m as u32);
        r.append(digits.as_str());
        proof {
            reveal_strlit("-");
            assert(r@ =~= seq!['-'] + u32_text(-(n as int)));
        }
        r
    }
}

/// Position of the first occurrence of `c` in `s`, or `-1`.
pub open spec fn find_char_spec(s: Seq<char>, c: char) -> int
    decreases s.len(),
{
    if s.len() == 0 {
        -1
    } else if s[0] == c {
        0
    } else {
        let r = find_char_spec(s.subrange(1, s.len() as int), c);
        if r < 0 {
            -1
        } else {
            1 + r
        }
    }
}

pub proof fn lemma_find_char_is(s: Seq<char>, c: char, i: int)
    requires
        0 <= i < s.len(),
        s[i] == c,
        forall|k: int| 0 <= k < i ==> (#[trigger] s[k]) != c,
    ensures
        find_char_spec(s, c) == i,
    decreases s.len(),
{
    if i > 0 {
        let t = s.subrange(1, s.len() as int);
        assert forall|k: int| 0 <= k < i - 1 implies (#[trigger] t[k]) != c by {
            assert(t[k] == s[k + 1]);
        }
        lemma_find_char_is(t, c, i - 1);
    }
}

pub proof fn lemma_find_char_none(s: Seq<char>, c: char)
    requires
        forall|k: int| 0 <= k < s.len() ==> (#[trigger] s[k]) != c,
    ensures
        find_char_spec(s, c) == -1,
    decreases s.len(),
{
    if s.len() > 0 {
        let t = s.subrange(1, s.len() as int);
        assert forall|k: int| 0 <= k < t.len() implies (#[trigger] t[k]) != c by {
            assert(t[k] == s[k + 1]);
        }
        lemma_find_char_none(t, c);
    }
}

/// First occurrence of `c` in `s`, if any.
pub fn find_char(s: &str, c: char) -> (r: Option<usize>)
    ensures
        r is Some ==> r.unwrap() == find_char_spec(s@, c) && 0 <= find_char_spec(s@, c)
            < s@.len(),
        r is None ==> find_char_spec(s@, c) == -1,
{
    let n = s.unicode_len();
    let mut i: usize = 0;
    while i < n
        invariant
            0 <= i <= n,
            n == s@.len(),
            forall|k: int| 0 <= k < i ==> (#[trigger] s@[k]) != c,
        decreases n - i,
    {
        if s.get_char(i) == c {
            proof {
                lemma_find_char_is(s@, c, i as int);
            }
            return Some(i);
        }
        i += 1;
    }
    proof {
        lemma_find_char_none(s@, c);
    }
    None
}

/// Trimming a string whose first and last characters are not whitespace
/// changes nothing.
pub proof fn lemma_trim_id(s: Seq<char>)
    requires
        s.len() > 0,
        !is_space(s[0]),
        !is_space(s[s.len() - 1]),
    ensures
        trim_spec(s) == s,
{
}

/// The digit prefix really is made of digits.
pub proof fn lemma_digits_prefix_props(s: Seq<char>)
    ensures
        0 <= digits_prefix_len(s) <= s.len(),
        all_digits(s.subrange(0, digits_prefix_len(s))),
    decreases s.len(),
{
    if s.len() > 0 && is_digit(s[0]) {
        let t = s.subrange(1, s.len() as int);
        lemma_digits_prefix_props(t);
        let k = digits_prefix_len(s);
        assert(t.subrange(0, k - 1) =~= s.subrange(0, k).subrange(1, k));
        assert forall|i: int| 0 <= i < k implies is_digit(#[trigger] s.subrange(0, k)[i]) by {
            if i > 0 {
                assert(s.subrange(0, k)[i] == t.subrange(0, k - 1)[i - 1]);
            }
        }
    }
}

/// Every character of a well-formed decimal is a digit, the sign, or the
/// point; in particular none is whitespace.
pub proof fn lemma_decimal_chars(s: Seq<char>)
    requires
        is_decimal(s),
    ensures
        forall|i: int| 0 <= i < s.len() ==> (#[trigger] s[i]) == '-' || s[i] == '.' || is_digit(
            s[i],
        ),
{
    let body = if s.len() > 0 && s[0] == '-' {
        s.subrange(1, s.len() as int)
    } else {
        s
    };
    let off: int = if s.len() > 0 && s[0] == '-' {
        1
    } else {
        0
    };
    lemma_digits_prefix_props(body);
    let k = digits_prefix_len(body);
    assert forall|i: int| 0 <= i < s.len() implies (#[trigger] s[i]) == '-' || s[i] == '.'
        || is_digit(s[i]) by {
        if i >= off {
            let j = i - off;
            assert(s[i] == body[j]);
            if j < k {
                assert(body.subrange(0, k)[j] == body[j]);
            } else if j == k {
            } else {
                assert(body.subrange(k + 1, body.len() as int)[j - k - 1] == body[j]);
            }
        }
    }
}

/// A well-formed decimal is non-empty and ends in a digit.
pub proof fn lemma_decimal_last_digit(s: Seq<char>)
    requires
        is_decimal(s),
    ensures
        s.len() > 0,
        is_digit(s[s.len() - 1]),
{
    let body = if s.len() > 0 && s[0] == '-' {
        s.subrange(1, s.len() as int)
    } else {
        s
    };
    lemma_digits_prefix_props(body);
    let k = digits_prefix_len(body);
    if k == body.len() {
        assert(body.subrange(0, k)[k - 1] == body[k - 1]);
    } else {
        let tail = body.subrange(k + 1, body.len() as int);
        assert(tail[tail.len() - 1] == body[body.len() - 1]);
    }
    if s.len() > 0 && s[0] == '-' {
        assert(body[body.len() - 1] == s[s.len() - 1]);
    }
}

/// The trimmed line starts with `key` (colon included).
pub open spec fn has_key(t: Seq<char>, key: Seq<char>) -> bool {
    key.len() <= t.len() && t.subrange(0, key.len() as int) == key
}

/// What follows the key, trimmed: the field value as text.
pub open spec fn key_value(t: Seq<char>, key: Seq<char>) -> Seq<char> {
    trim_spec(t.subrange(key.len() as int, t.len() as int))
}

/// Takes the trimmed value of `key` out of `t` when the line carries
/// that key.
pub fn key_value_of<'a>(t: &'a str, key: &str) -> (r: Option<&'a str>)
    ensures
        r is Some <==> has_key(t@, key@),
        r is Some ==> r.unwrap()@ == key_value(t@, key@),
{
    match strip_prefix(t, key) {
        Some(rest) => Some(trim(rest)),
        None => None,
    }
}

} // verus!
