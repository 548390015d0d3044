//! Building strings from characters and rendering decimal numbers.

use vstd::prelude::*;

verus! {

/// Relies on `String`'s `FromIterator<char>` implementation: collecting an
/// iterator of characters yields a string of exactly those characters, in
/// order.
#[verifier::external_body]
pub fn chars_to_string(chars: &Vec<char>) -> (r: String)
    ensures
        r@ == chars@,
{
    chars.iter().collect()
}

/// Relies on `str::chars`: the iterator yields exactly the string's
/// characters, in order.
#[verifier::external_body]
pub fn str_to_chars(s: &str) -> (r: Vec<char>)
    ensures
        r@ == s@,
{
    s.chars().collect()
}

/// The character for one decimal digit; other values fall back to `'0'`.
pub open spec fn digit_char(d: int) -> char {
    if d == 1 {
        '1'
    } else if d == 2 {
        '2'
    } else if d == 3 {
        '3'
    } else if d == 4 {
        '4'
    } else if d == 5 {
        '5'
    } else if d == 6 {
        '6'
    } else if d == 7 {
        '7'
    } else if d == 8 {
        '8'
    } else if d == 9 {
        '9'
    } else {
        '0'
    }
}

/// The decimal digits of a nonnegative value, most significant first.
pub open spec fn dec_digits(n: int) -> Seq<char>
    decreases n,
{
    if n < 10 {
        seq![digit_char(n)]
    } else {
        dec_digits(n / 10).push(digit_char(n % 10))
    }
}

pub fn exec_digit_char(d: u64) -> (c: char)
    requires
        d < 10,
    ensures
        c == digit_char(d as int),
{
    match d {
        1 => '1',
        2 => '2',
        3 => '3',
        4 => '4',
        5 => '5',
        6 => '6',
        7 => '7',
        8 => '8',
        9 => '9',
        _ => '0',
    }
}

pub fn push_dec_digits(n: u64, out: &mut Vec<char>)
    ensures
        final(out)@ == old(out)@ + dec_digits(n as int),
    decreases n,
{
    if n < 10 {
        out.push(exec_digit_char(n));
    } else {
        push_dec_digits(n / 10, out);
        out.push(exec_digit_char(n % 10));
    }
}

/// The decimal text of a value, as characters.
pub fn dec_chars_of(n: u64) -> (r: Vec<char>)
    ensures
        r@ == dec_digits(n as int),
{
    let mut out: Vec<char> = Vec::new();
    push_dec_digits(n, &mut out);
    out
}

/// The decimal text of a value.
pub fn dec_string_of(n: u64) -> (r: String)
    ensures
        r@ == dec_digits(n as int),
{
    let chars = dec_chars_of(n);
    chars_to_string(&chars)
}

/// The string made of one range of the source characters.
pub fn string_of_range(src: &Vec<char>, a: usize, b: usize) -> (r: String)
    requires
        a <= b <= src.len(),
    ensures
        r@ == src@.subrange(a as int, b as int),
{
    let mut out: Vec<char> = Vec::new();
    proof {
        assert(src@.subrange(a as int, a as int) =~= out@);
    }
    let mut k: usize = a;
    while k < b
        invariant
            a <= k <= b <= src.len(),
            out@ == src@.subrange(a as int, k as int),
        decreases b - k,
    {
        out.push(src[k]);
        proof {
            assert(src@.subrange(a as int, k + 1) =~= src@.subrange(a as int, k as int).push(
                src@[k as int],
            ));
        }
        k = k + 1;
    }
    chars_to_string(&out)
}

/// The decimal text of a line number.
pub fn line_string_of(n: usize) -> (r: String)
    ensures
        r@ == dec_digits(n as int),
{
    dec_string_of(n as u64)
}

} // verus!
