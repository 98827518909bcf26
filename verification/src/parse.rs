//! Verified text machinery for the game's line protocol: tokenizing a line
//! on spaces, and reading and rendering decimal integers.

use crate::error::Error;
use vstd::prelude::*;
use vstd::string::StrSliceExecFns;
use vstd::string::StringExecFns;

verus! {

/// Collect the characters of a string slice into a vector.
pub fn chars_of(s: &str) -> (v: Vec<char>)
    ensures
        v@ == s@,
{
    let n = s.unicode_len();
    let mut v: Vec<char> = Vec::new();
    let mut i: usize = 0;
    while i < n
        invariant
            i <= n,
            n == s@.len(),
            v@ == s@.take(i as int),
        decreases n - i,
    {
        let c = s.get_char(i);
        v.push(c);
        proof {
            assert(s@.take(i + 1) =~= s@.take(i as int).push(s@[i as int]));
        }
        i = i + 1;
    }
    proof {
        assert(s@.take(n as int) =~= s@);
    }
    v
}

/// Whether a token reads exactly as a given string.
pub fn token_eq_str(t: &Vec<char>, s: &str) -> (b: bool)
    ensures
        b == (t@ == s@),
{
    let n = s.unicode_len();
    if t.len() != n {
        return false;
    }
    let mut i: usize = 0;
    while i < n
        invariant
            i <= n,
            n == s@.len(),
            n == t@.len(),
            forall|j: int| 0 <= j < i ==> t@[j] == s@[j],
        decreases n - i,
    {
        if t[i] != s.get_char(i) {
            return false;
        }
        i = i + 1;
    }
    proof {
        assert(t@ =~= s@);
    }
    true
}

/// The index of the first space in `s`, or `-1` if `s` has none.
pub open spec fn first_space(s: Seq<char>) -> int
    decreases s.len(),
{
    if s.len() == 0 {
        -1
    } else if s[0] == ' ' {
        0
    } else {
        let r = first_space(s.skip(1));
        if r < 0 {
            -1
        } else {
            r + 1
        }
    }
}

/// `first_space` finds a space if and only if one exists, and then the
/// leftmost one.
proof fn lemma_first_space_at(s: Seq<char>, j: int)
    requires
        0 <= j <= s.len(),
        forall|k: int| 0 <= k < j ==> s[k] != ' ',
        j < s.len() ==> s[j] == ' ',
    ensures
        j < s.len() ==> first_space(s) == j,
        j == s.len() ==> first_space(s) < 0,
    decreases s.len(),
{
    if s.len() == 0 {
    } else if s[0] == ' ' {
        assert(j == 0);
    } else {
        assert(forall|k: int| 0 <= k < s.len() - 1 ==> s.skip(1)[k] == s[k + 1]);
        lemma_first_space_at(s.skip(1), j - 1);
    }
}

/// A line split on single spaces: the maximal runs of characters between
/// spaces, in order.  Splitting never yields an empty sequence of tokens;
/// consecutive spaces yield empty tokens, as the protocol's own splitting
/// does.
pub open spec fn split_spaces_spec(s: Seq<char>) -> Seq<Seq<char>>
    decreases s.len(),
{
    let i = first_space(s);
    if 0 <= i < s.len() {
        seq![s.take(i)] + split_spaces_spec(s.skip(i + 1))
    } else {
        seq![s]
    }
}

/// The views of a sequence of owned tokens.
pub open spec fn token_views(toks: Seq<Vec<char>>) -> Seq<Seq<char>> {
    toks.map_values(|t: Vec<char>| t@)
}

/// Copy the characters of `v` between `a` (inclusive) and `b` (exclusive).
fn subvec(v: &Vec<char>, a: usize, b: usize) -> (r: Vec<char>)
    requires
        a <= b <= v@.len(),
    ensures
        r@ == v@.subrange(a as int, b as int),
{
    let mut r: Vec<char> = Vec::new();
    let mut i: usize = a;
    while i < b
        invariant
            a <= i <= b <= v@.len(),
            r@ == v@.subrange(a as int, i as int),
        decreases b - i,
    {
        r.push(v[i]);
        proof {
            assert(v@.subrange(a as int, i + 1) =~= v@.subrange(a as int, i as int).push(
                v@[i as int],
            ));
        }
        i = i + 1;
    }
    r
}

/// Split a line into its space-separated tokens.
pub fn split_spaces(v: &Vec<char>) -> (toks: Vec<Vec<char>>)
    ensures
        token_views(toks@) == split_spaces_spec(v@),
{
    let n: usize = v.len();
    let mut toks: Vec<Vec<char>> = Vec::new();
    let mut start: usize = 0;
    let mut done: bool = false;
    proof {
        assert(v@.skip(0) =~= v@);
        assert(token_views(toks@) + split_spaces_spec(v@) =~= split_spaces_spec(v@));
    }
    while !done
        invariant
            start <= n,
            n == v@.len(),
            !done ==> split_spaces_spec(v@) == token_views(toks@) + split_spaces_spec(
                v@.skip(start as int),
            ),
            done ==> token_views(toks@) == split_spaces_spec(v@),
        decreases n - start + (if done {
            0int
        } else {
            1int
        }),
    {
        let ghost rem = v@.skip(start as int);
        let ghost prev_toks = toks@;
        let mut j: usize = start;
        while j < n && v[j] != ' '
            invariant
                start <= j <= n,
                n == v@.len(),
                forall|k: int| start <= k < j ==> v@[k] != ' ',
            decreases n - j,
        {
            j = j + 1;
        }
        proof {
            assert(forall|k: int| 0 <= k < rem.len() ==> rem[k] == v@[start + k]);
            lemma_first_space_at(rem, j - start);
        }
        let tok = subvec(v, start, j);
        toks.push(tok);
        proof {
            assert(token_views(toks@) =~= token_views(prev_toks).push(v@.subrange(
                start as int,
                j as int,
            )));
        }
        if j == n {
            proof {
                assert(v@.subrange(start as int, j as int) =~= rem);
                assert(split_spaces_spec(rem) == seq![rem]);
                assert(token_views(prev_toks) + seq![rem] =~= token_views(prev_toks).push(rem));
            }
            done = true;
        } else {
            proof {
                assert(rem.take(j - start) =~= v@.subrange(start as int, j as int));
                assert(rem.skip(j - start + 1) =~= v@.skip(j + 1));
                assert(split_spaces_spec(rem) == seq![rem.take(j - start)] + split_spaces_spec(
                    v@.skip(j + 1),
                ));
                assert(token_views(prev_toks) + (seq![rem.take(j - start)] + split_spaces_spec(
                    v@.skip(j + 1),
                )) =~= token_views(prev_toks).push(v@.subrange(start as int, j as int))
                    + split_spaces_spec(v@.skip(j + 1)));
            }
            start = j + 1;
        }
    }
    toks
}

/// Whether `c` is a decimal digit.
pub open spec fn is_digit(c: char) -> bool {
    48 <= c as int <= 57
}

/// The value of a decimal digit.
pub open spec fn digit_val(c: char) -> int {
    c as int - 48
}

/// Whether every character of `s` is a decimal digit.
pub open spec fn all_digits(s: Seq<char>) -> bool {
    forall|k: int| 0 <= k < s.len() ==> is_digit(#[trigger] s[k])
}

/// The value of a string of decimal digits (0 for the empty string).
pub open spec fn digits_val(s: Seq<char>) -> int
    decreases s.len(),
{
    if s.len() == 0 {
        0
    } else {
        digits_val(s.take(s.len() - 1)) * 10 + digit_val(s[s.len() - 1])
    }
}

proof fn lemma_digits_val_nonneg(s: Seq<char>)
    requires
        all_digits(s),
    ensures
        digits_val(s) >= 0,
    decreases s.len(),
{
    if s.len() > 0 {
        let t = s.take(s.len() - 1);
        assert(forall|k: int| 0 <= k < t.len() ==> t[k] == s[k]);
        lemma_digits_val_nonneg(t);
    }
}

/// The value of a digit string never falls below the value of any prefix.
proof fn lemma_digits_val_prefix(s: Seq<char>, k: int)
    requires
        all_digits(s),
        0 <= k <= s.len(),
    ensures
        digits_val(s.take(k)) <= digits_val(s),
    decreases s.len(),
{
    if k == s.len() {
        assert(s.take(k) =~= s);
    } else {
        let t = s.take(s.len() - 1);
        assert(forall|j: int| 0 <= j < t.len() ==> t[j] == s[j]);
        lemma_digits_val_nonneg(t);
        assert(s.take(k) =~= t.take(k));
        lemma_digits_val_prefix(t, k);
    }
}

/// Whether a token has the shape of a decimal integer: an optional sign
/// (`-` only where `signed` allows it) followed by at least one digit.
pub open spec fn int_token_ok(s: Seq<char>, signed: bool) -> bool {
    if s.len() == 0 {
        false
    } else if s[0] == '+' || (signed && s[0] == '-') {
        s.len() > 1 && all_digits(s.skip(1))
    } else {
        all_digits(s)
    }
}

/// The integer a well-shaped token denotes.
pub open spec fn int_token_val(s: Seq<char>) -> int {
    if s.len() > 0 && s[0] == '-' {
        -digits_val(s.skip(1))
    } else if s.len() > 0 && s[0] == '+' {
        digits_val(s.skip(1))
    } else {
        digits_val(s)
    }
}

/// Whether a token reads as an `i32`.
pub open spec fn parse_i32_ok(s: Seq<char>) -> bool {
    int_token_ok(s, true) && i32::MIN <= int_token_val(s) <= i32::MAX
}

/// Whether a token reads as an `i64`.
pub open spec fn parse_i64_ok(s: Seq<char>) -> bool {
    int_token_ok(s, true) && i64::MIN <= int_token_val(s) <= i64::MAX
}

/// Whether a token reads as a `u8`.
pub open spec fn parse_u8_ok(s: Seq<char>) -> bool {
    int_token_ok(s, false) && int_token_val(s) <= u8::MAX
}

/// Read the digits of `v` from `start` on as a decimal number of at most
/// `limit`.
fn digits_to_u64(v: &Vec<char>, start: usize, limit: u64) -> (r: Result<u64, Error>)
    requires
        start <= v@.len(),
    ensures
        match r {
            Ok(x) => all_digits(v@.skip(start as int)) && x == digits_val(v@.skip(start as int))
                && x <= limit,
            Err(e) => e == Error::ParseInt && !(all_digits(v@.skip(start as int)) && digits_val(
                v@.skip(start as int),
            ) <= limit),
        },
{
    let ghost s = v@.skip(start as int);
    proof {
        assert(forall|k: int| 0 <= k < s.len() ==> s[k] == v@[start + k]);
    }
    let n: usize = v.len();
    let mut acc: u64 = 0;
    let mut i: usize = start;
    while i < n
        invariant
            start <= i <= n,
            n == v@.len(),
            s == v@.skip(start as int),
            forall|k: int| 0 <= k < s.len() ==> s[k] == v@[start + k],
            all_digits(s.take(i - start)),
            acc == digits_val(s.take(i - start)),
            acc <= limit,
        decreases n - i,
    {
        let ghost k = i - start;
        let c = v[i];
        if c < '0' || c > '9' {
            proof {
                assert(!is_digit(s[k]));
            }
            return Err(Error::ParseInt);
        }
        let d: u64 = (c as u32 - '0' as u32) as u64;
        proof {
            assert(s.take(k + 1) =~= s.take(k).push(s[k]));
            assert(s.take(k + 1).take(k) =~= s.take(k));
            vstd::arithmetic::div_mod::lemma_fundamental_div_mod(limit as int, 10);
        }
        if acc > limit / 10 || (acc == limit / 10 && d > limit % 10) {
            proof {
                assert(digits_val(s.take(k + 1)) == acc * 10 + d);
                assert(acc * 10 + d > limit);
                if all_digits(s) {
                    lemma_digits_val_prefix(s, k + 1);
                }
            }
            return Err(Error::ParseInt);
        }
        acc = acc * 10 + d;
        i = i + 1;
    }
    proof {
        assert(s.take(n - start) =~= s);
    }
    Ok(acc)
}

/// Read a token as an `i32`, as the diff protocol writes one: an optional
/// sign followed by decimal digits.
pub fn parse_i32(t: &Vec<char>) -> (r: Result<i32, Error>)
    ensures
        match r {
            Ok(x) => parse_i32_ok(t@) && x as int == int_token_val(t@),
            Err(e) => e == Error::ParseInt && !parse_i32_ok(t@),
        },
{
    let n = t.len();
    if n == 0 {
        return Err(Error::ParseInt);
    }
    let c0 = t[0];
    let neg = c0 == '-';
    let has_sign = neg || c0 == '+';
    if has_sign && n == 1 {
        return Err(Error::ParseInt);
    }
    let start: usize = if has_sign {
        1
    } else {
        0
    };
    let limit: u64 = if neg {
        2147483648
    } else {
        2147483647
    };
    proof {
        if !has_sign {
            assert(t@.skip(0) =~= t@);
        }
    }
    match digits_to_u64(t, start, limit) {
        Err(e) => Err(e),
        Ok(mag) => {
            if neg {
                Ok((-(mag as i64)) as i32)
            } else {
                Ok(mag as i32)
            }
        },
    }
}

/// Read a token as an `i64`, as the setup protocol writes one.
pub fn parse_i64(t: &Vec<char>) -> (r: Result<i64, Error>)
    ensures
        match r {
            Ok(x) => parse_i64_ok(t@) && x as int == int_token_val(t@),
            Err(e) => e == Error::ParseInt && !parse_i64_ok(t@),
        },
{
    let n = t.len();
    if n == 0 {
        return Err(Error::ParseInt);
    }
    let c0 = t[0];
    let neg = c0 == '-';
    let has_sign = neg || c0 == '+';
    if has_sign && n == 1 {
        return Err(Error::ParseInt);
    }
    let start: usize = if has_sign {
        1
    } else {
        0
    };
    let limit: u64 = if neg {
        9223372036854775808
    } else {
        9223372036854775807
    };
    proof {
        if !has_sign {
            assert(t@.skip(0) =~= t@);
        }
    }
    match digits_to_u64(t, start, limit) {
        Err(e) => Err(e),
        Ok(mag) => {
            if neg {
                Ok((-(mag as i128)) as i64)
            } else {
                Ok(mag as i64)
            }
        },
    }
}

/// Read a token as a `u8`, as an owner field of the diff protocol.
pub fn parse_u8(t: &Vec<char>) -> (r: Result<u8, Error>)
    ensures
        match r {
            Ok(x) => parse_u8_ok(t@) && x as int == int_token_val(t@),
            Err(e) => e == Error::ParseInt && !parse_u8_ok(t@),
        },
{
    let n = t.len();
    if n == 0 {
        return Err(Error::ParseInt);
    }
    let c0 = t[0];
    if c0 == '-' {
        proof {
            assert(!is_digit(t@[0]));
        }
        return Err(Error::ParseInt);
    }
    let has_sign = c0 == '+';
    if has_sign && n == 1 {
        return Err(Error::ParseInt);
    }
    let start: usize = if has_sign {
        1
    } else {
        0
    };
    proof {
        if !has_sign {
            assert(t@.skip(0) =~= t@);
        }
    }
    match digits_to_u64(t, start, 255) {
        Err(e) => Err(e),
        Ok(mag) => Ok(mag as u8),
    }
}


/// The digit character for value `d`.
pub open spec fn digit_char(d: int) -> char {
    if d == 0 {
        '0'
    } else if d == 1 {
        '1'
    } else if d == 2 {
        '2'
    } else if d == 3 {
        '3'
    } else if d == 4 {
        '4'
    } else if d == 5 {
        '5'
    } else if d == 6 {
        '6'
    } else if d == 7 {
        '7'
    } else if d == 8 {
        '8'
    } else {
        '9'
    }
}

/// The decimal digits of `n`, most significant first.
pub open spec fn dec_digits(n: nat) -> Seq<char>
    decreases n,
{
    if n < 10 {
        seq![digit_char(n as int)]
    } else {
        dec_digits(n / 10) + seq![digit_char((n % 10) as int)]
    }
}

/// The decimal rendering of `n`, with a leading minus sign when negative.
pub open spec fn dec_str(n: int) -> Seq<char> {
    if n < 0 {
        seq!['-'] + dec_digits((-n) as nat)
    } else {
        dec_digits(n as nat)
    }
}

fn digit_str(d: u32) -> (r: &'static str)
    requires
        d < 10,
    ensures
        r@ == seq![digit_char(d as int)],
{
    proof {
        reveal_strlit("0");
        reveal_strlit("1");
        reveal_strlit("2");
        reveal_strlit("3");
        reveal_strlit("4");
        reveal_strlit("5");
        reveal_strlit("6");
        reveal_strlit("7");
        reveal_strlit("8");
        reveal_strlit("9");
    }
    match d {
        0 => "0",
        1 => "1",
        2 => "2",
        3 => "3",
        4 => "4",
        5 => "5",
        6 => "6",
        7 => "7",
        8 => "8",
        _ => "9",
    }
}

fn push_dec_digits(s: &mut String, n: u32)
    ensures
        final(s)@ == old(s)@ + dec_digits(n as nat),
    decreases n,
{
    let ghost s0 = s@;
    if n >= 10 {
        push_dec_digits(s, n / 10);
        s.append(digit_str(n % 10));
        proof {
            assert(s@ =~= s0 + dec_digits(n as nat));
        }
    } else {
        s.append(digit_str(n));
    }
}

/// Append the decimal rendering of `n` to `s`.
pub fn push_dec_i32(s: &mut String, n: i32)
    ensures
        final(s)@ == old(s)@ + dec_str(n as int),
{
    let ghost s0 = s@;
    if n < 0 {
        proof {
            reveal_strlit("-");
        }
        s.append("-");
        let mag: u32 = (-(n as i64)) as u32;
        push_dec_digits(s, mag);
        proof {
            assert(s@ =~= s0 + dec_str(n as int));
        }
    } else {
        push_dec_digits(s, n as u32);
    }
}

/// Whether two string slices hold the same characters.
pub fn str_eq(a: &str, b: &str) -> (r: bool)
    ensures
        r == (a@ == b@),
{
    let n = a.unicode_len();
    if b.unicode_len() != n {
        return false;
    }
    let mut i: usize = 0;
    while i < n
        invariant
            i <= n,
            n == a@.len(),
            n == b@.len(),
            forall|j: int| 0 <= j < i ==> a@[j] == b@[j],
        decreases n - i,
    {
        if a.get_char(i) != b.get_char(i) {
            return false;
        }
        i = i + 1;
    }
    proof {
        assert(a@ =~= b@);
    }
    true
}

} // verus!
