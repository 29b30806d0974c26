//! Verified parsing of counter-source text.
//!
//! The host reads kernel-exposed text files and the power-reporting tool's
//! output; these functions turn that text into numbers, reporting a typed
//! parse failure instead of guessing on malformed input.

use vstd::prelude::*;

use crate::errors::TopError;
use crate::filemanage::str_eq;
use crate::fileview::lines_of;
use crate::fileview::split_lines;
use crate::telemetry::CoreTicks;

verus! {

/// Whether a character is a decimal digit.
pub open spec fn is_digit(c: char) -> bool {
    '0' <= c && c <= '9'
}

/// A digit's value.
pub open spec fn digit_val(c: char) -> int {
    c as int - 48
}

/// Whether every character of `s` is a decimal digit.
pub open spec fn all_digits(s: Seq<char>) -> bool {
    forall|i: int| 0 <= i < s.len() ==> is_digit(s[i])
}

/// The number the digit string `s` denotes.
pub open spec fn num_val(s: Seq<char>) -> int
    decreases s.len(),
{
    if s.len() == 0 {
        0
    } else {
        num_val(s.drop_last()) * 10 + digit_val(s.last())
    }
}

/// A digit string's value is never negative.
pub proof fn lemma_num_val_nonneg(s: Seq<char>)
    requires
        all_digits(s),
    ensures
        num_val(s) >= 0,
    decreases s.len(),
{
    if s.len() > 0 {
        assert(all_digits(s.drop_last()));
        lemma_num_val_nonneg(s.drop_last());
    }
}

/// A digit string's value only grows as digits are appended.
pub proof fn lemma_num_val_prefix(s: Seq<char>, i: int, j: int)
    requires
        all_digits(s),
        0 <= i <= j <= s.len(),
    ensures
        num_val(s.subrange(0, i)) <= num_val(s.subrange(0, j)),
    decreases j - i,
{
    if i < j {
        lemma_num_val_prefix(s, i, j - 1);
        let p = s.subrange(0, j);
        assert(p.drop_last() =~= s.subrange(0, j - 1));
        assert(all_digits(p.drop_last()));
        lemma_num_val_nonneg(p.drop_last());
    }
}

/// Whether a character counts as blank space here.
pub open spec fn is_space(c: char) -> bool {
    c == ' ' || c == '\t' || c == '\n' || c == '\r'
}

/// Where the blank space starting at `i` ends.
pub open spec fn ws_end(s: Seq<char>, i: int) -> int
    decreases s.len() - i,
{
    if i < 0 || i >= s.len() || !is_space(s[i]) {
        i
    } else {
        ws_end(s, i + 1)
    }
}

/// Where the run of digits starting at `i` ends.
pub open spec fn digits_end(s: Seq<char>, i: int) -> int
    decreases s.len() - i,
{
    if i < 0 || i >= s.len() || !is_digit(s[i]) {
        i
    } else {
        digits_end(s, i + 1)
    }
}

/// The ends of runs stay inside the text.
pub proof fn lemma_run_ends(s: Seq<char>, i: int)
    requires
        0 <= i <= s.len(),
    ensures
        i <= ws_end(s, i) <= s.len(),
        i <= digits_end(s, i) <= s.len(),
    decreases s.len() - i,
{
    if i < s.len() {
        lemma_run_ends(s, i + 1);
    }
}

/// Everything in a digit run is a digit.
pub proof fn lemma_digits_run(s: Seq<char>, i: int)
    requires
        0 <= i <= s.len(),
    ensures
        forall|j: int| i <= j < digits_end(s, i) ==> is_digit(s[j]),
        digits_end(s, i) < s.len() ==> !is_digit(s[digits_end(s, i)]),
    decreases s.len() - i,
{
    if i < s.len() && is_digit(s[i]) {
        lemma_digits_run(s, i + 1);
    }
}

/// Steps past the blank space starting at `i`.
pub fn skip_ws(s: &str, i: usize) -> (r: usize)
    requires
        i <= s@.len(),
    ensures
        r == ws_end(s@, i as int),
        i <= r <= s@.len(),
{
    let n = s.unicode_len();
    let mut j: usize = i;
    while j < n
        invariant
            n == s@.len(),
            i <= j <= n,
            ws_end(s@, i as int) == ws_end(s@, j as int),
        decreases n - j,
    {
        let c = s.get_char(j);
        if !(c == ' ' || c == '\t' || c == '\n' || c == '\r') {
            return j;
        }
        j += 1;
    }
    j
}

/// Where the run of digits starting at `i` ends.
pub fn digits_run_end(s: &str, i: usize) -> (r: usize)
    requires
        i <= s@.len(),
    ensures
        r == digits_end(s@, i as int),
        i <= r <= s@.len(),
{
    let n = s.unicode_len();
    let mut j: usize = i;
    while j < n
        invariant
            n == s@.len(),
            i <= j <= n,
            digits_end(s@, i as int) == digits_end(s@, j as int),
        decreases n - j,
    {
        let c = s.get_char(j);
        if !('0' <= c && c <= '9') {
            return j;
        }
        j += 1;
    }
    j
}

/// Reads the run of digits starting at `i` as a number: its value and
/// where it ends. An empty run or a value beyond the machine range is a
/// parse failure.
pub fn read_u64(s: &str, i: usize) -> (r: Result<(u64, usize), TopError>)
    requires
        i <= s@.len(),
    ensures
        ({
            let e = digits_end(s@, i as int);
            let v = num_val(s@.subrange(i as int, e));
            &&& (r is Ok <==> e > i && v <= u64::MAX)
            &&& (r is Ok ==> r->Ok_0.0 == v && r->Ok_0.1 == e && i <= e <= s@.len())
            &&& (r is Err ==> r->Err_0 is ParseError)
        }),
{
    proof {
        lemma_run_ends(s@, i as int);
        lemma_digits_run(s@, i as int);
    }
    let e = digits_run_end(s, i);
    if e == i {
        return Err(TopError::ParseError);
    }
    let mut j: usize = i;
    let mut acc: u64 = 0;
    while j < e
        invariant
            i <= j <= e <= s@.len(),
            e == digits_end(s@, i as int),
            forall|k: int| i <= k < e ==> is_digit(s@[k]),
            acc == num_val(s@.subrange(i as int, j as int)),
        decreases e - j,
    {
        let c = s.get_char(j);
        let d = (c as u32 - 48) as u64;
        proof {
            assert(s@.subrange(i as int, j + 1 as int).drop_last() =~= s@.subrange(
                i as int,
                j as int,
            ));
        }
        let next = match acc.checked_mul(10) {
            Option::Some(m) => m.checked_add(d),
            Option::None => None,
        };
        match next {
            Option::Some(v) => {
                acc = v;
            },
            Option::None => {
                proof {
                    let upto = s@.subrange(i as int, j + 1 as int);
                    assert(num_val(upto) > u64::MAX);
                    let whole = s@.subrange(i as int, e as int);
                    assert(all_digits(whole));
                    lemma_num_val_prefix(whole, j + 1 - i, e - i);
                    assert(whole.subrange(0, j + 1 - i) =~= upto);
                    assert(whole.subrange(0, e - i) =~= whole);
                }
                return Err(TopError::ParseError);
            },
        }
        j += 1;
    }
    Ok((acc, e))
}

/// The index past the last non-blank character, scanning backward.
pub open spec fn end_non_ws(s: Seq<char>) -> int
    decreases s.len(),
{
    if s.len() == 0 {
        0
    } else if !is_space(s.last()) {
        s.len() as int
    } else {
        end_non_ws(s.drop_last())
    }
}

/// A text with its leading and trailing blank space removed.
pub open spec fn trim_of(s: Seq<char>) -> Seq<char> {
    let a = ws_end(s, 0);
    let b = end_non_ws(s);
    if a < b {
        s.subrange(a, b)
    } else {
        Seq::<char>::empty()
    }
}

/// A blank suffix starting past a non-blank character locates the end of
/// the non-blank text.
proof fn lemma_end_non_ws_at(s: Seq<char>, b: int)
    requires
        0 <= b <= s.len(),
        forall|j: int| b <= j < s.len() ==> is_space(s[j]),
        b == 0 || !is_space(s[b - 1]),
    ensures
        end_non_ws(s) == b,
    decreases s.len(),
{
    if s.len() > 0 && b < s.len() {
        assert(forall|j: int| b <= j < s.len() - 1 ==> s.drop_last()[j] == s[j]);
        lemma_end_non_ws_at(s.drop_last(), b);
    }
}

/// The index past the last non-blank character of a text.
fn non_ws_end(s: &str) -> (b: usize)
    ensures
        b == end_non_ws(s@),
        b <= s@.len(),
{
    let n = s.unicode_len();
    let mut b: usize = n;
    while b > 0
        invariant
            n == s@.len(),
            b <= n,
            forall|j: int| b <= j < n ==> is_space(s@[j]),
        decreases b,
    {
        let c = s.get_char(b - 1);
        if !(c == ' ' || c == '\t' || c == '\n' || c == '\r') {
            proof {
                lemma_end_non_ws_at(s@, b as int);
            }
            return b;
        }
        b -= 1;
    }
    proof {
        lemma_end_non_ws_at(s@, 0);
    }
    0
}

/// Removes leading and trailing blank space.
pub fn trim_str(s: &str) -> (r: String)
    ensures
        r@ == trim_of(s@),
{
    let a = skip_ws(s, 0);
    let b = non_ws_end(s);
    if a >= b {
        return String::new();
    }
    let piece = s.substring_char(a, b);
    piece.to_owned()
}

/// Parses a thermal-zone reading: the trimmed text must be all digits, a
/// temperature in millidegrees Celsius small enough for its type.
pub fn parse_temp_millic(text: &str) -> (r: Result<u32, TopError>)
    ensures
        ({
            let t = trim_of(text@);
            &&& (r is Ok <==> t.len() > 0 && all_digits(t) && num_val(t) <= u32::MAX)
            &&& (r is Ok ==> r->Ok_0 == num_val(t))
            &&& (r is Err ==> r->Err_0 is ParseError)
        }),
{
    let t = trim_str(text);
    let ts = t.as_str();
    let n = ts.unicode_len();
    proof {
        lemma_run_ends(ts@, 0);
        lemma_digits_run(ts@, 0);
    }
    match read_u64(ts, 0) {
        Err(e) => {
            proof {
                if trim_of(text@).len() > 0 && all_digits(trim_of(text@)) {
                    assert(digits_end(ts@, 0) == ts@.len()) by {
                        lemma_digits_end_all(ts@);
                    }
                    assert(ts@.subrange(0, ts@.len() as int) =~= ts@);
                }
            }
            Err(e)
        },
        Ok((v, e)) => {
            proof {
                assert(ts@.subrange(0, e as int) =~= ts@.subrange(0, digits_end(ts@, 0)));
            }
            if e < n {
                proof {
                    assert(!all_digits(ts@)) by {
                        lemma_digits_run(ts@, 0);
                    }
                }
                return Err(TopError::ParseError);
            }
            proof {
                assert(ts@.subrange(0, e as int) =~= ts@);
                assert(all_digits(ts@)) by {
                    lemma_digits_run(ts@, 0);
                }
            }
            if v > u32::MAX as u64 {
                return Err(TopError::ParseError);
            }
            Ok(v as u32)
        },
    }
}

/// A fully digit text's digit run covers all of it.
proof fn lemma_digits_end_all(s: Seq<char>)
    requires
        all_digits(s),
    ensures
        digits_end(s, 0) == s.len(),
{
    lemma_digits_run(s, 0);
    lemma_run_ends(s, 0);
    if digits_end(s, 0) < s.len() {
        assert(is_digit(s[digits_end(s, 0)]));
    }
}


/// Whether the pattern `p` occurs in `s` at position `k`.
pub open spec fn matches_at(s: Seq<char>, p: Seq<char>, k: int) -> bool {
    0 <= k && k + p.len() <= s.len() && s.subrange(k, k + p.len()) == p
}

/// The first position where `p` occurs in `s`, or -1 when it never does.
pub open spec fn find_sub(s: Seq<char>, p: Seq<char>) -> int
    decreases s.len(),
{
    if p.len() > s.len() {
        -1
    } else if s.subrange(0, p.len() as int) == p {
        0
    } else if s.len() == 0 {
        -1
    } else {
        let r = find_sub(s.drop_first(), p);
        if r < 0 {
            -1
        } else {
            r + 1
        }
    }
}

/// Occurrences shift by one when the first character is dropped.
proof fn lemma_matches_shift(s: Seq<char>, p: Seq<char>, k: int)
    requires
        s.len() > 0,
        k >= 0,
    ensures
        matches_at(s.drop_first(), p, k) <==> matches_at(s, p, k + 1),
{
    if 0 <= k && k + p.len() <= s.drop_first().len() {
        assert(s.drop_first().subrange(k, k + p.len()) =~= s.subrange(k + 1, k + 1 + p.len()));
    }
}

/// An occurrence with none before it is the first occurrence.
proof fn lemma_find_sub_at(s: Seq<char>, p: Seq<char>, k: int)
    requires
        matches_at(s, p, k),
        forall|j: int| 0 <= j < k ==> !matches_at(s, p, j),
    ensures
        find_sub(s, p) == k,
    decreases s.len(),
{
    if k == 0 {
        assert(s.subrange(0, p.len() as int) =~= p);
    } else {
        assert(!matches_at(s, p, 0));
        assert(s.subrange(0, p.len() as int) != p) by {
            if s.subrange(0, p.len() as int) == p {
                assert(matches_at(s, p, 0));
            }
        }
        assert(s.len() > 0);
        lemma_matches_shift(s, p, k - 1);
        assert forall|j: int| 0 <= j < k - 1 implies !matches_at(s.drop_first(), p, j) by {
            lemma_matches_shift(s, p, j);
        }
        lemma_find_sub_at(s.drop_first(), p, k - 1);
    }
}

/// Without an occurrence there is no first occurrence.
proof fn lemma_find_sub_none(s: Seq<char>, p: Seq<char>)
    requires
        forall|j: int| 0 <= j <= s.len() ==> !matches_at(s, p, j),
    ensures
        find_sub(s, p) < 0,
    decreases s.len(),
{
    if p.len() <= s.len() {
        assert(s.subrange(0, p.len() as int) != p) by {
            if s.subrange(0, p.len() as int) == p {
                assert(matches_at(s, p, 0));
            }
        }
        if s.len() > 0 {
            assert forall|j: int| 0 <= j <= s.drop_first().len() implies !matches_at(
                s.drop_first(),
                p,
                j,
            ) by {
                lemma_matches_shift(s, p, j);
            }
            lemma_find_sub_none(s.drop_first(), p);
        }
    }
}

/// Whether the pattern occurs at the given position.
fn match_at(s: &str, p: &str, k: usize) -> (r: bool)
    requires
        k + p@.len() <= s@.len(),
    ensures
        r == matches_at(s@, p@, k as int),
{
    let sn = s.unicode_len();
    let m = p.unicode_len();
    let mut j: usize = 0;
    while j < m
        invariant
            sn == s@.len(),
            m == p@.len(),
            k + m <= s@.len(),
            j <= m,
            forall|t: int| 0 <= t < j ==> s@[k + t] == p@[t],
        decreases m - j,
    {
        if s.get_char(k + j) != p.get_char(j) {
            proof {
                assert(s@.subrange(k as int, k + p@.len()) != p@) by {
                    assert(s@.subrange(k as int, k + p@.len())[j as int] == s@[k + j]);
                }
            }
            return false;
        }
        j += 1;
    }
    proof {
        assert(s@.subrange(k as int, k + p@.len()) =~= p@);
    }
    true
}

/// Finds the first occurrence of the pattern.
pub fn find_substr(s: &str, p: &str) -> (r: Option<usize>)
    ensures
        r is Some <==> find_sub(s@, p@) >= 0,
        r is Some ==> r->0 == find_sub(s@, p@),
{
    let n = s.unicode_len();
    let m = p.unicode_len();
    if m > n {
        proof {
            lemma_find_sub_none(s@, p@);
        }
        return None;
    }
    if m == 0 {
        proof {
            assert(s@.subrange(0, 0) =~= p@);
            assert(matches_at(s@, p@, 0));
            lemma_find_sub_at(s@, p@, 0);
        }
        return Some(0);
    }
    let mut k: usize = 0;
    while k <= n - m
        invariant
            n == s@.len(),
            m == p@.len(),
            0 < m <= n,
            k <= n - m + 1,
            forall|j: int| 0 <= j < k ==> !matches_at(s@, p@, j),
        decreases n - m + 1 - k,
    {
        if match_at(s, p, k) {
            proof {
                lemma_find_sub_at(s@, p@, k as int);
            }
            return Some(k);
        }
        k += 1;
    }
    proof {
        assert forall|j: int| 0 <= j <= s@.len() implies !matches_at(s@, p@, j) by {
            if j > n - m {
                assert(j + p@.len() > s@.len());
            }
        }
        lemma_find_sub_none(s@, p@);
    }
    None
}

/// The milliwatt contribution of a fraction's digits: the first three,
/// scaled as tenths, hundredths or thousandths of a watt.
pub open spec fn frac_milli(fd: Seq<char>) -> int {
    if fd.len() >= 3 {
        num_val(fd.take(3))
    } else if fd.len() == 2 {
        num_val(fd) * 10
    } else if fd.len() == 1 {
        num_val(fd) * 100
    } else {
        0
    }
}

/// What parsing a power report yields: after the first `energy-rate:` in
/// the text, past any blank space, a decimal watt value with an optional
/// fraction, converted to milliwatts. No such marker is a not-found
/// failure; a marker without a number, or a value beyond the machine
/// range, is a parse failure.
pub open spec fn power_parse_of(s: Seq<char>) -> Result<int, TopError> {
    let k = find_sub(s, "energy-rate:"@);
    if k < 0 {
        Err(TopError::NotFindError)
    } else {
        let a = ws_end(s, k + "energy-rate:"@.len());
        let b = digits_end(s, a);
        if b == a {
            Err(TopError::ParseError)
        } else {
            let ip = num_val(s.subrange(a, b));
            let fm = if b < s.len() && s[b] == '.' {
                frac_milli(s.subrange(b + 1, digits_end(s, b + 1)))
            } else {
                0
            };
            if ip * 1000 + fm > u64::MAX {
                Err(TopError::ParseError)
            } else {
                Ok(ip * 1000 + fm)
            }
        }
    }
}

/// The value of one digit character.
fn digit_value(c: char) -> (r: u64)
    requires
        is_digit(c),
    ensures
        r == digit_val(c),
        r <= 9,
{
    (c as u32 - 48) as u64
}

/// Parses the power-reporting tool's output into milliwatts.
pub fn parse_power_milliwatts(output: &str) -> (r: Result<u64, TopError>)
    ensures
        r is Ok <==> power_parse_of(output@) is Ok,
        r is Ok ==> r->Ok_0 == power_parse_of(output@)->Ok_0,
        r is Err ==> r->Err_0 == power_parse_of(output@)->Err_0,
{
    let n = output.unicode_len();
    let pat = "energy-rate:";
    let k = match find_substr(output, pat) {
        Option::None => {
            return Err(TopError::NotFindError);
        },
        Option::Some(k) => k,
    };
    let plen = pat.unicode_len();
    proof {
        assert(matches_at(output@, pat@, k as int)) by {
            lemma_find_sub_props(output@, pat@);
        }
    }
    let a = skip_ws(output, k + plen);
    proof {
        lemma_run_ends(output@, a as int);
        lemma_digits_run(output@, a as int);
    }
    let (ip, b) = match read_u64(output, a) {
        Err(e) => {
            proof {
                let sv = output@;
                let bb = digits_end(sv, a as int);
                if bb > a {
                    let whole = sv.subrange(a as int, bb);
                    lemma_num_val_nonneg(whole);
                    if bb < sv.len() && sv[bb] == '.' {
                        lemma_run_ends(sv, bb + 1);
                        lemma_digits_run(sv, bb + 1);
                        let fd = sv.subrange(bb + 1, digits_end(sv, bb + 1));
                        assert(all_digits(fd));
                        lemma_num_val_nonneg(fd);
                        if fd.len() >= 3 {
                            assert(all_digits(fd.take(3)));
                            lemma_num_val_nonneg(fd.take(3));
                        }
                        assert(frac_milli(fd) >= 0);
                    }
                }
            }
            return Err(TopError::ParseError);
        },
        Ok(x) => x,
    };
    let mut fm: u64 = 0;
    if b < n {
        if output.get_char(b) == '.' {
            let c = digits_run_end(output, b + 1);
            proof {
                lemma_digits_run(output@, b + 1 as int);
            }
            let ghost fd = output@.subrange(b + 1 as int, c as int);
            if c - (b + 1) >= 1 {
                let d1 = digit_value(output.get_char(b + 1));
                if c - (b + 1) == 1 {
                    fm = d1 * 100;
                    proof {
                        assert(fd =~= seq![output@[b + 1 as int]]);
                        assert(fd.drop_last() =~= Seq::<char>::empty());
                        assert(num_val(fd.drop_last()) == 0);
                        assert(fd.last() == output@[b + 1 as int]);
                        assert(num_val(fd) == digit_val(output@[b + 1 as int]));
                    }
                } else {
                    let d2 = digit_value(output.get_char(b + 2));
                    if c - (b + 1) == 2 {
                        fm = d1 * 100 + d2 * 10;
                        proof {
                            assert(fd =~= seq![
                                output@[b + 1 as int],
                                output@[b + 2 as int],
                            ]);
                            assert(fd.drop_last() =~= seq![output@[b + 1 as int]]);
                            assert(fd.drop_last().drop_last() =~= Seq::<char>::empty());
                            assert(num_val(fd.drop_last().drop_last()) == 0);
                            assert(num_val(fd.drop_last()) == digit_val(output@[b + 1 as int]));
                            assert(num_val(fd) == digit_val(output@[b + 1 as int]) * 10
                                + digit_val(output@[b + 2 as int]));
                        }
                    } else {
                        let d3 = digit_value(output.get_char(b + 3));
                        fm = d1 * 100 + d2 * 10 + d3;
                        proof {
                            let t3 = fd.take(3);
                            assert(t3 =~= seq![
                                output@[b + 1 as int],
                                output@[b + 2 as int],
                                output@[b + 3 as int],
                            ]);
                            assert(t3.drop_last() =~= seq![
                                output@[b + 1 as int],
                                output@[b + 2 as int],
                            ]);
                            assert(t3.drop_last().drop_last() =~= seq![output@[b + 1 as int]]);
                            assert(t3.drop_last().drop_last().drop_last() =~= Seq::<
                                char,
                            >::empty());
                            assert(num_val(t3.drop_last().drop_last().drop_last()) == 0);
                            assert(num_val(t3.drop_last().drop_last()) == digit_val(
                                output@[b + 1 as int],
                            ));
                            assert(num_val(t3.drop_last()) == digit_val(output@[b + 1 as int]) * 10
                                + digit_val(output@[b + 2 as int]));
                            assert(num_val(t3) == digit_val(output@[b + 1 as int]) * 100
                                + digit_val(output@[b + 2 as int]) * 10 + digit_val(
                                output@[b + 3 as int],
                            ));
                        }
                    }
                }
            }
        }
    }
    let milli = (ip as u128) * 1000 + (fm as u128);
    if milli > u64::MAX as u128 {
        return Err(TopError::ParseError);
    }
    Ok(milli as u64)
}

/// What `find_sub` finds is an occurrence.
proof fn lemma_find_sub_props(s: Seq<char>, p: Seq<char>)
    ensures
        find_sub(s, p) >= 0 ==> matches_at(s, p, find_sub(s, p)),
    decreases s.len(),
{
    if p.len() <= s.len() && s.subrange(0, p.len() as int) == p {
    } else if s.len() > 0 {
        lemma_find_sub_props(s.drop_first(), p);
        if find_sub(s, p) >= 0 {
            lemma_matches_shift(s, p, find_sub(s.drop_first(), p));
        }
    }
}

/// Where the leading label (a run of non-blank characters) ends.
pub open spec fn token_end(s: Seq<char>, i: int) -> int
    decreases s.len() - i,
{
    if i < 0 || i >= s.len() || is_space(s[i]) {
        i
    } else {
        token_end(s, i + 1)
    }
}

/// Where the counter field number `n` starts, counting fields separated by
/// blank space from position `pos` on.
pub open spec fn nth_field_start(s: Seq<char>, pos: int, n: nat) -> int
    decreases n,
{
    if n == 0 {
        ws_end(s, pos)
    } else {
        nth_field_start(s, digits_end(s, ws_end(s, pos)), (n - 1) as nat)
    }
}

/// Whether counter field number `n` is present and within machine range.
pub open spec fn nth_field_ok(s: Seq<char>, pos: int, n: nat) -> bool {
    let a = nth_field_start(s, pos, n);
    digits_end(s, a) > a && num_val(s.subrange(a, digits_end(s, a))) <= u64::MAX
}

/// The value of counter field number `n`.
pub open spec fn nth_field_val(s: Seq<char>, pos: int, n: nat) -> int {
    let a = nth_field_start(s, pos, n);
    num_val(s.subrange(a, digits_end(s, a)))
}

/// Skips the leading label of a counter line.
fn label_end(s: &str) -> (r: usize)
    ensures
        r == token_end(s@, 0),
        r <= s@.len(),
{
    let n = s.unicode_len();
    let mut j: usize = 0;
    while j < n
        invariant
            n == s@.len(),
            j <= n,
            token_end(s@, 0) == token_end(s@, j as int),
        decreases n - j,
    {
        let c = s.get_char(j);
        if c == ' ' || c == '\t' || c == '\n' || c == '\r' {
            return j;
        }
        j += 1;
    }
    j
}

/// Reads one blank-separated counter field from `pos` on.
fn read_field(s: &str, pos: usize) -> (r: Result<(u64, usize), TopError>)
    requires
        pos <= s@.len(),
    ensures
        ({
            let a = ws_end(s@, pos as int);
            let b = digits_end(s@, a);
            &&& (r is Ok <==> b > a && num_val(s@.subrange(a, b)) <= u64::MAX)
            &&& (r is Ok ==> r->Ok_0.0 == num_val(s@.subrange(a, b)) && r->Ok_0.1 == b && pos <= b
                <= s@.len())
            &&& (r is Err ==> r->Err_0 is ParseError)
        }),
{
    let a = skip_ws(s, pos);
    read_u64(s, a)
}

/// Parses one kernel counter line: after its leading label, the eight
/// per-state tick counters, separated by blank space. A missing field or
/// one beyond the machine range is a parse failure.
pub fn parse_core_ticks_line(line: &str) -> (r: Result<CoreTicks, TopError>)
    ensures
        ({
            let p0 = token_end(line@, 0);
            &&& (r is Ok <==> forall|n: nat| n < 8 ==> nth_field_ok(line@, p0, n))
            &&& (r is Ok ==> r->Ok_0.user == nth_field_val(line@, p0, 0) && r->Ok_0.nice
                == nth_field_val(line@, p0, 1) && r->Ok_0.system == nth_field_val(line@, p0, 2)
                && r->Ok_0.idle == nth_field_val(line@, p0, 3) && r->Ok_0.iowait == nth_field_val(
                line@,
                p0,
                4,
            ) && r->Ok_0.irq == nth_field_val(line@, p0, 5) && r->Ok_0.softirq == nth_field_val(
                line@,
                p0,
                6,
            ) && r->Ok_0.steal == nth_field_val(line@, p0, 7))
            &&& (r is Err ==> r->Err_0 is ParseError)
        }),
{
    let p0 = label_end(line);
    let ghost lv = line@;
    let ghost q0 = p0 as int;
    let mut vals: Vec<u64> = Vec::new();
    let mut pos: usize = p0;
    let mut t: usize = 0;
    while t < 8
        invariant
            lv == line@,
            q0 == token_end(lv, 0),
            t <= 8,
            vals@.len() == t,
            pos <= lv.len(),
            forall|m: nat|
                #[trigger] nth_field_start(lv, pos as int, m) == nth_field_start(
                    lv,
                    q0,
                    (t + m) as nat,
                ),
            forall|n: nat|
                n < t ==> nth_field_ok(lv, q0, n) && vals@[n as int] == nth_field_val(lv, q0, n),
        decreases 8 - t,
    {
        proof {
            assert(nth_field_start(lv, pos as int, 0) == ws_end(lv, pos as int));
        }
        match read_field(line, pos) {
            Err(_) => {
                proof {
                    assert(!nth_field_ok(lv, q0, t as nat));
                }
                return Err(TopError::ParseError);
            },
            Ok((v, np)) => {
                proof {
                    assert(nth_field_ok(lv, q0, t as nat));
                    assert(v == nth_field_val(lv, q0, t as nat));
                    assert(np == digits_end(lv, ws_end(lv, pos as int)));
                    assert forall|m: nat|
                        #[trigger] nth_field_start(lv, np as int, m) == nth_field_start(
                            lv,
                            q0,
                            (t + 1 + m) as nat,
                        ) by {
                        assert(nth_field_start(lv, pos as int, (m + 1) as nat) == nth_field_start(
                            lv,
                            digits_end(lv, ws_end(lv, pos as int)),
                            m,
                        ));
                        assert(nth_field_start(lv, pos as int, (m + 1) as nat) == nth_field_start(
                            lv,
                            q0,
                            (t + m + 1) as nat,
                        ));
                    }
                }
                vals.push(v);
                pos = np;
            },
        }
        t += 1;
    }
    Ok(
        CoreTicks {
            user: vals[0],
            nice: vals[1],
            system: vals[2],
            idle: vals[3],
            iowait: vals[4],
            irq: vals[5],
            softirq: vals[6],
            steal: vals[7],
        },
    )
}



/// Whether a counter line reports one core: its label is `cpu` followed by
/// the core's number.
pub open spec fn is_core_line(l: Seq<char>) -> bool {
    l.len() > 3 && l.subrange(0, 3) == "cpu"@ && is_digit(l[3])
}

/// Whether a counter line holds all eight fields, each within range.
pub open spec fn line_ticks_ok(l: Seq<char>) -> bool {
    forall|n: nat| n < 8 ==> nth_field_ok(l, token_end(l, 0), n)
}

/// The ticks a well-formed counter line reports.
pub open spec fn line_ticks(l: Seq<char>) -> CoreTicks {
    let p0 = token_end(l, 0);
    CoreTicks {
        user: nth_field_val(l, p0, 0) as u64,
        nice: nth_field_val(l, p0, 1) as u64,
        system: nth_field_val(l, p0, 2) as u64,
        idle: nth_field_val(l, p0, 3) as u64,
        iowait: nth_field_val(l, p0, 4) as u64,
        irq: nth_field_val(l, p0, 5) as u64,
        softirq: nth_field_val(l, p0, 6) as u64,
        steal: nth_field_val(l, p0, 7) as u64,
    }
}

/// The cores a counter text reports: one entry per well-formed core line,
/// in order; other lines, the all-cores summary line among them, are
/// passed over.
pub open spec fn parsed_cores(ls: Seq<Seq<char>>) -> Seq<CoreTicks>
    decreases ls.len(),
{
    if ls.len() == 0 {
        Seq::<CoreTicks>::empty()
    } else if is_core_line(ls.last()) && line_ticks_ok(ls.last()) {
        parsed_cores(ls.drop_last()).push(line_ticks(ls.last()))
    } else {
        parsed_cores(ls.drop_last())
    }
}

/// Whether this line reports one core.
fn core_line_check(line: &String) -> (r: bool)
    ensures
        r == is_core_line(line@),
{
    let ls = line.as_str();
    let n = ls.unicode_len();
    if n <= 3 {
        return false;
    }
    let head = ls.substring_char(0, 3);
    if !str_eq(head, "cpu") {
        proof {
            assert(line@.subrange(0, 3) != "cpu"@);
        }
        return false;
    }
    let c = ls.get_char(3);
    proof {
        assert(line@.subrange(0, 3) == "cpu"@);
    }
    '0' <= c && c <= '9'
}

/// Parses a whole counter text into the cores it reports, line by line,
/// skipping malformed lines; a text with no readable core at all yields
/// nothing.
pub fn parse_stat_content(text: &str) -> (r: Option<Vec<CoreTicks>>)
    ensures
        r is Some <==> parsed_cores(lines_of(text@)).len() > 0,
        r is Some ==> r->0@ == parsed_cores(lines_of(text@)),
{
    let lines = split_lines(text);
    let mut cores: Vec<CoreTicks> = Vec::new();
    let mut i: usize = 0;
    while i < lines.len()
        invariant
            i <= lines@.len(),
            crate::fileview::views_of(lines@) == lines_of(text@),
            cores@ == parsed_cores(lines_of(text@).subrange(0, i as int)),
        decreases lines@.len() - i,
    {
        let ghost pre = lines_of(text@).subrange(0, i + 1 as int);
        proof {
            assert(pre.drop_last() =~= lines_of(text@).subrange(0, i as int));
            assert(pre.last() == lines@[i as int]@);
        }
        if core_line_check(&lines[i]) {
            match parse_core_ticks_line(lines[i].as_str()) {
                Ok(t) => {
                    cores.push(t);
                },
                Err(_) => {},
            }
        }
        i += 1;
    }
    proof {
        assert(lines_of(text@).subrange(0, lines@.len() as int) =~= lines_of(text@));
    }
    if cores.len() == 0 {
        None
    } else {
        Some(cores)
    }
}

} // verus!
