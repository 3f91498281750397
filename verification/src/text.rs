//! Decimal rendering of integers and string-slice comparison, the two
//! text primitives the rest of the crate builds dates, labels and
//! prompts from.

use vstd::prelude::*;
use vstd::string::StringExecFns;
use vstd::string::StrSliceExecFns;

verus! {

/// The character for one decimal digit.
pub open spec fn digit_char(d: int) -> char {
    if d == 0 {
        '0'
    } else if d == 1 {
        '1'
    } else if d == 2 {
        '2'
    } else if d == 3 {
        '3'
    } else if d == 4 {
        '4'
    } else if d == 5 {
        '5'
    } else if d == 6 {
        '6'
    } else if d == 7 {
        '7'
    } else if d == 8 {
        '8'
    } else {
        '9'
    }
}

/// Decimal representation of `n`: most significant digit first, no
/// leading zeros (`0` is rendered as the single digit `0`).
pub open spec fn dec_digits(n: nat) -> Seq<char>
    decreases n,
{
    if n < 10 {
        seq![digit_char(n as int)]
    } else {
        dec_digits(n / 10).push(digit_char((n % 10) as int))
    }
}

fn digit_str(d: u64) -> (s: &'static str)
    requires
        d < 10,
    ensures
        s@ == seq![digit_char(d as int)],
{
    proof {
        reveal_strlit("0");
        reveal_strlit("1");
        reveal_strlit("2");
        reveal_strlit("3");
        reveal_strlit("4");
        reveal_strlit("5");
        reveal_strlit("6");
        reveal_strlit("7");
        reveal_strlit("8");
        reveal_strlit("9");
    }
    let s: &'static str = if d == 0 {
        "0"
    } else if d == 1 {
        "1"
    } else if d == 2 {
        "2"
    } else if d == 3 {
        "3"
    } else if d == 4 {
        "4"
    } else if d == 5 {
        "5"
    } else if d == 6 {
        "6"
    } else if d == 7 {
        "7"
    } else if d == 8 {
        "8"
    } else {
        "9"
    };
    proof {
        assert(s@ =~= seq![digit_char(d as int)]);
    }
    s
}

/// Renders `n` in decimal.
pub fn u64_to_string(n: u64) -> (s: String)
    ensures
        s@ == dec_digits(n as nat),
    decreases n,
{
    if n < 10 {
        digit_str(n).to_owned()
    } else {
        let mut s = u64_to_string(n / 10);
        s.append(digit_str(n % 10));
        proof {
            assert(s@ =~= dec_digits(n as nat));
        }
        s
    }
}

/// Relies on `str`'s `==` (`<str as PartialEq>::eq`): two string slices
/// are equal exactly when their character sequences are, since UTF-8
/// encoding is injective.
#[verifier::external_body]
pub(crate) fn str_eq(a: &str, b: &str) -> (r: bool)
    ensures
        r == (a@ == b@),
{
    a == b
}

/// The characters a grammar treats as blank.
pub open spec fn is_ws(c: char) -> bool {
    c == ' ' || c == '\t' || c == '\n' || c == '\r'
}

/// A decimal digit.
pub open spec fn is_digit(c: char) -> bool {
    48 <= c as int <= 57
}

/// The value of one decimal digit character.
pub open spec fn digit_val(c: char) -> nat {
    (c as int - 48) as nat
}

/// The first position at or after `i` holding a non-blank character,
/// or the end of the text.
pub open spec fn ws_end(s: Seq<char>, i: int) -> int
    decreases s.len() - i
        when 0 <= i <= s.len()
{
    if i < s.len() && is_ws(s[i]) {
        ws_end(s, i + 1)
    } else {
        i
    }
}

/// The first position at or after `i` holding a non-digit character,
/// or the end of the text.
pub open spec fn digits_end(s: Seq<char>, i: int) -> int
    decreases s.len() - i
        when 0 <= i <= s.len()
{
    if i < s.len() && is_digit(s[i]) {
        digits_end(s, i + 1)
    } else {
        i
    }
}

/// The value of the digit run `s[a..b]`, most significant digit first.
pub open spec fn digits_val(s: Seq<char>, a: int, b: int) -> nat
    decreases b - a
        when a <= b
{
    if a >= b {
        0
    } else {
        digits_val(s, a, b - 1) * 10 + digit_val(s[b - 1])
    }
}

/// Positions scanned over digits stay within the text.
pub proof fn lemma_digits_end_bounds(s: Seq<char>, i: int)
    requires
        0 <= i <= s.len(),
    ensures
        i <= digits_end(s, i) <= s.len(),
    decreases s.len() - i,
{
    if i < s.len() && is_digit(s[i]) {
        lemma_digits_end_bounds(s, i + 1);
    }
}

/// A digit run only grows in value as it extends to the right.
pub proof fn lemma_digits_val_mono(s: Seq<char>, a: int, k: int, b: int)
    requires
        a <= k <= b,
    ensures
        digits_val(s, a, b) >= digits_val(s, a, k),
    decreases b - k,
{
    if k < b {
        lemma_digits_val_mono(s, a, k, b - 1);
    }
}

/// Every position of a scanned digit run holds a digit.
pub proof fn lemma_digits_run(s: Seq<char>, i: int, m: int, j: int)
    requires
        0 <= i <= s.len(),
        digits_end(s, i) == j,
        i <= m < j,
    ensures
        is_digit(s[m]),
    decreases m - i,
{
    lemma_digits_end_bounds(s, i);
    if i < m {
        lemma_digits_run(s, i + 1, m, j);
    }
}

/// The decimal rendering of a number consists of digits, at least one,
/// and never starts with a zero unless it is the single digit zero.
pub proof fn lemma_dec_digits_shape(n: nat)
    ensures
        dec_digits(n).len() >= 1,
        forall|k: int| 0 <= k < dec_digits(n).len() ==> is_digit(#[trigger] dec_digits(n)[k]),
        dec_digits(n).len() > 1 ==> dec_digits(n)[0] != '0',
        n >= 1 ==> dec_digits(n)[0] != '0',
    decreases n,
{
    if n < 10 {
        assert(dec_digits(n)[0] == digit_char(n as int));
    } else {
        lemma_dec_digits_shape(n / 10);
        let prev = dec_digits(n / 10);
        let whole = dec_digits(n);
        assert(whole == prev.push(digit_char((n % 10) as int)));
        assert(whole[0] == prev[0]);
        assert forall|k: int| 0 <= k < whole.len() implies is_digit(#[trigger] whole[k]) by {
            if k < prev.len() {
                assert(whole[k] == prev[k]);
            } else {
                assert(whole[k] == digit_char((n % 10) as int));
            }
        }
    }
}

/// Reading back the decimal rendering of a number yields the number.
pub proof fn lemma_digits_val_of_dec(s: Seq<char>, a: int, b: int, n: nat)
    requires
        0 <= a <= b <= s.len(),
        s.subrange(a, b) == dec_digits(n),
    ensures
        digits_val(s, a, b) == n,
    decreases n,
{
    let region = s.subrange(a, b);
    lemma_dec_digits_shape(n);
    if n < 10 {
        assert(b - a == 1);
        assert(digits_val(s, a, b - 1) == 0);
        assert(s[b - 1] == region[0]);
        assert(digit_val(digit_char(n as int)) == n);
    } else {
        let prev = dec_digits(n / 10);
        assert(region == prev.push(digit_char((n % 10) as int)));
        assert(s.subrange(a, b - 1) =~= prev);
        lemma_digits_val_of_dec(s, a, b - 1, n / 10);
        assert(s[b - 1] == region[b - 1 - a]);
        assert(digit_val(digit_char((n % 10) as int)) == n % 10);
    }
}

/// Whether one character is blank.
pub fn is_ws_char(c: char) -> (r: bool)
    ensures
        r == is_ws(c),
{
    c == ' ' || c == '\t' || c == '\n' || c == '\r'
}

/// Whether one character is a decimal digit.
pub fn is_digit_char(c: char) -> (r: bool)
    ensures
        r == is_digit(c),
{
    let u = c as u32;
    48 <= u && u <= 57
}

/// Advances over blanks.
pub fn skip_ws(s: &str, i: usize, n: usize) -> (j: usize)
    requires
        n as nat == s@.len(),
        i <= n,
    ensures
        j as int == ws_end(s@, i as int),
        i <= j <= n,
{
    let mut j = i;
    while j < n && is_ws_char(s.get_char(j))
        invariant
            i <= j <= n,
            n as nat == s@.len(),
            ws_end(s@, i as int) == ws_end(s@, j as int),
        decreases n - j,
    {
        j = j + 1;
    }
    j
}

/// Advances over decimal digits.
pub fn scan_digits(s: &str, i: usize, n: usize) -> (j: usize)
    requires
        n as nat == s@.len(),
        i <= n,
    ensures
        j as int == digits_end(s@, i as int),
        i <= j <= n,
{
    let mut j = i;
    while j < n && is_digit_char(s.get_char(j))
        invariant
            i <= j <= n,
            n as nat == s@.len(),
            digits_end(s@, i as int) == digits_end(s@, j as int),
        decreases n - j,
    {
        j = j + 1;
    }
    j
}

/// The value of the digit run `s[a..b]`, or `None` where it exceeds an
/// unsigned 64-bit integer.
pub fn digits_to_u64(s: &str, a: usize, b: usize, n: usize) -> (r: Option<u64>)
    requires
        n as nat == s@.len(),
        a <= b <= n,
        forall|k: int| a <= k < b ==> is_digit(#[trigger] s@[k]),
    ensures
        r matches Some(v) ==> v as nat == digits_val(s@, a as int, b as int),
        (r is None) == (digits_val(s@, a as int, b as int) > u64::MAX),
{
    let mut acc: u64 = 0;
    let mut k = a;
    while k < b
        invariant
            a <= k <= b <= n,
            n as nat == s@.len(),
            forall|m: int| a <= m < b ==> is_digit(#[trigger] s@[m]),
            acc as nat == digits_val(s@, a as int, k as int),
        decreases b - k,
    {
        let c = s.get_char(k);
        let d = (c as u32 - 48) as u64;
        let stepped = match acc.checked_mul(10) {
            Some(m) => m.checked_add(d),
            None => None,
        };
        match stepped {
            Some(x) => {
                acc = x;
            },
            None => {
                proof {
                    assert(digits_val(s@, a as int, k as int + 1) > u64::MAX);
                    lemma_digits_val_mono(s@, a as int, k as int + 1, b as int);
                }
                return None;
            },
        }
        k = k + 1;
    }
    Some(acc)
}

} // verus!
