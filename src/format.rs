//! Text helpers of the report: numbers with thousands separators, and
//! shortened lines.
use vstd::prelude::*;

use crate::text::{chars_of, string_of};

verus! {

/// The decimal digit character for `d` (below ten).
pub open spec fn digit(d: nat) -> char {
    if d == 0 {
        '0'
    } else if d == 1 {
        '1'
    } else if d == 2 {
        '2'
    } else if d == 3 {
        '3'
    } else if d == 4 {
        '4'
    } else if d == 5 {
        '5'
    } else if d == 6 {
        '6'
    } else if d == 7 {
        '7'
    } else if d == 8 {
        '8'
    } else {
        '9'
    }
}

/// The decimal digits of `n`, most significant first, without leading zeros.
pub open spec fn decimal(n: nat) -> Seq<char>
    decreases n,
{
    if n < 10 {
        seq![digit(n)]
    } else {
        decimal(n / 10).push(digit(n % 10))
    }
}

/// The decimal digits of `n` with a comma between each group of three,
/// counted from the right.
pub open spec fn grouped(n: nat) -> Seq<char>
    decreases n,
{
    if n < 1000 {
        decimal(n)
    } else {
        let k = n % 1000;
        grouped(n / 1000) + seq![',', digit(k / 100), digit(k / 10 % 10), digit(k % 10)]
    }
}

/// `s` where it has at most `max` characters; else its first `max`
/// characters followed by three dots.
pub open spec fn shortened(s: Seq<char>, max: nat) -> Seq<char> {
    if s.len() <= max {
        s
    } else {
        s.take(max as int) + seq!['.', '.', '.']
    }
}

fn digit_char(d: u64) -> (r: char)
    requires
        d < 10,
    ensures
        r == digit(d as nat),
{
    if d == 0 {
        '0'
    } else if d == 1 {
        '1'
    } else if d == 2 {
        '2'
    } else if d == 3 {
        '3'
    } else if d == 4 {
        '4'
    } else if d == 5 {
        '5'
    } else if d == 6 {
        '6'
    } else if d == 7 {
        '7'
    } else if d == 8 {
        '8'
    } else {
        '9'
    }
}

fn grouped_chars(n: u64) -> (r: Vec<char>)
    ensures
        r@ == grouped(n as nat),
    decreases n,
{
    let mut v: Vec<char> = Vec::new();
    if n < 10 {
        v.push(digit_char(n));
    } else if n < 100 {
        let t = n / 10;
        assert(t < 10) by (nonlinear_arith)
            requires
                t == n / 10,
                n < 100,
        ;
        v.push(digit_char(t));
        v.push(digit_char(n % 10));
        assert(decimal(t as nat) == seq![digit(t as nat)]);
    } else if n < 1000 {
        let t = n / 10;
        assert(10 <= t < 100) by (nonlinear_arith)
            requires
                t == n / 10,
                100 <= n < 1000,
        ;
        let h = t / 10;
        assert(h < 10) by (nonlinear_arith)
            requires
                h == t / 10,
                t < 100,
        ;
        v.push(digit_char(h));
        v.push(digit_char(t % 10));
        v.push(digit_char(n % 10));
        assert(decimal(h as nat) == seq![digit(h as nat)]);
        assert(decimal(t as nat) == seq![digit(h as nat), digit((t % 10) as nat)]);
    } else {
        v = grouped_chars(n / 1000);
        let k = n % 1000;
        v.push(',');
        v.push(digit_char(k / 100));
        v.push(digit_char(k / 10 % 10));
        v.push(digit_char(k % 10));
    }
    v
}

/// Writes `n` in decimal with a comma between each group of three digits
/// (`1234567` becomes `1,234,567`).
pub fn format_number(n: usize) -> (r: String)
    ensures
        r@ == grouped(n as nat),
{
    let v = grouped_chars(n as u64);
    string_of(&v)
}

/// Shortens `s` to its first `max` characters followed by three dots, where
/// it is longer than `max`.
pub fn truncate(s: &str, max: usize) -> (r: String)
    ensures
        r@ == shortened(s@, max as nat),
{
    let chars = chars_of(s);
    if chars.len() <= max {
        return s.to_owned();
    }
    let mut out: Vec<char> = Vec::new();
    let mut i: usize = 0;
    while i < max
        invariant
            i <= max < chars.len(),
            out@ == chars@.take(i as int),
        decreases max - i,
    {
        assert(chars@.take(i + 1) == chars@.take(i as int).push(chars@[i as int]));
        out.push(chars[i]);
        i = i + 1;
    }
    out.push('.');
    out.push('.');
    out.push('.');
    string_of(&out)
}

} // verus!
