//! Verified decimal rendering of unsigned numbers.
//!
//! The display layer shows counters, line numbers and dates as text; these
//! helpers build that text and are proved to produce exactly the decimal
//! digits of their argument.

use vstd::prelude::*;

verus! {

/// The character for one decimal digit value.
pub open spec fn digit_char(d: int) -> char {
    ((d + 48) as u8) as char
}

/// The decimal digit sequence of `n`, most significant digit first,
/// without leading zeros (a single `'0'` for zero).
pub open spec fn dec_seq(n: nat) -> Seq<char>
    decreases n,
{
    if n < 10 {
        seq![digit_char(n as int)]
    } else {
        dec_seq(n / 10).push(digit_char((n % 10) as int))
    }
}

/// The decimal digits of `n` padded with `'0'` on the left to at least
/// `width` characters.
pub open spec fn dec_seq_padded(n: nat, width: nat) -> Seq<char>
    decreases width,
{
    if dec_seq(n).len() >= width {
        dec_seq(n)
    } else {
        seq!['0'] + dec_seq_padded(n, (width - 1) as nat)
    }
}

/// One decimal digit as a string slice.
fn digit_str(d: u64) -> (r: &'static str)
    requires
        d < 10,
    ensures
        r@ =~= seq![digit_char(d as int)],
{
    proof {
        reveal_strlit("0");
        reveal_strlit("1");
        reveal_strlit("2");
        reveal_strlit("3");
        reveal_strlit("4");
        reveal_strlit("5");
        reveal_strlit("6");
        reveal_strlit("7");
        reveal_strlit("8");
        reveal_strlit("9");
    }
    match d {
        0 => "0",
        1 => "1",
        2 => "2",
        3 => "3",
        4 => "4",
        5 => "5",
        6 => "6",
        7 => "7",
        8 => "8",
        _ => "9",
    }
}

/// Renders `n` in decimal.
pub fn u64_to_string(n: u64) -> (s: String)
    ensures
        s@ == dec_seq(n as nat),
    decreases n,
{
    if n < 10 {
        String::from_str(digit_str(n))
    } else {
        let mut s = u64_to_string(n / 10);
        s.append(digit_str(n % 10));
        proof {
            assert(s@ =~= dec_seq((n / 10) as nat).push(digit_char((n % 10) as int)));
        }
        s
    }
}

/// Renders `n` in decimal, left-padded with zeros to at least `width`
/// characters.
pub fn u64_to_string_padded(n: u64, width: usize) -> (s: String)
    ensures
        s@ == dec_seq_padded(n as nat, width as nat),
    decreases width,
{
    let plain = u64_to_string(n);
    if plain.as_str().unicode_len() >= width {
        proof {
            assert(dec_seq(n as nat).len() >= width ==> dec_seq_padded(n as nat, width as nat)
                == dec_seq(n as nat));
        }
        plain
    } else {
        let mut s = String::from_str("0");
        let rest = u64_to_string_padded(n, width - 1);
        s.append(rest.as_str());
        proof {
            reveal_strlit("0");
            assert(s@ =~= seq!['0'] + dec_seq_padded(n as nat, (width - 1) as nat));
        }
        s
    }
}

} // verus!
