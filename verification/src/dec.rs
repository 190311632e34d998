//! Decimal rendering and reading of the integers that appear in the
//! configuration record and in command reply messages.

use vstd::prelude::*;

verus! {

/// The character for one decimal digit value.
pub open spec fn dec_digit(d: nat) -> char
    recommends
        d < 10,
{
    if d == 0 {
        '0'
    } else if d == 1 {
        '1'
    } else if d == 2 {
        '2'
    } else if d == 3 {
        '3'
    } else if d == 4 {
        '4'
    } else if d == 5 {
        '5'
    } else if d == 6 {
        '6'
    } else if d == 7 {
        '7'
    } else if d == 8 {
        '8'
    } else {
        '9'
    }
}

/// The usual decimal form of `n`: most significant digit first, no sign,
/// no leading zero except for `n == 0` itself.
pub open spec fn dec_digits(n: nat) -> Seq<char>
    decreases n,
{
    if n < 10 {
        seq![dec_digit(n)]
    } else {
        dec_digits(n / 10).push(dec_digit(n % 10))
    }
}

pub open spec fn is_dec_digit(c: char) -> bool {
    c == '0' || c == '1' || c == '2' || c == '3' || c == '4' || c == '5' || c == '6' || c == '7'
        || c == '8' || c == '9'
}

/// The value of one decimal digit character.
pub open spec fn dec_val(c: char) -> nat
    recommends
        is_dec_digit(c),
{
    if c == '0' {
        0
    } else if c == '1' {
        1
    } else if c == '2' {
        2
    } else if c == '3' {
        3
    } else if c == '4' {
        4
    } else if c == '5' {
        5
    } else if c == '6' {
        6
    } else if c == '7' {
        7
    } else if c == '8' {
        8
    } else {
        9
    }
}

pub open spec fn all_dec_digits(s: Seq<char>) -> bool {
    forall|i: int| 0 <= i < s.len() ==> is_dec_digit(#[trigger] s[i])
}

/// The value of a digit string read most significant digit first.
pub open spec fn digits_val(s: Seq<char>) -> nat
    decreases s.len(),
{
    if s.len() == 0 {
        0
    } else {
        digits_val(s.drop_last()) * 10 + dec_val(s.last())
    }
}

/// How many decimal digit characters stand at the front of `s`.
pub open spec fn digit_run_len(s: Seq<char>) -> int
    decreases s.len(),
{
    if s.len() > 0 && is_dec_digit(s[0]) {
        1 + digit_run_len(s.drop_first())
    } else {
        0
    }
}

/// Reads an unsigned decimal number from the front of `s`: the longest
/// run of digit characters, which must be non-empty and must not exceed
/// `u64::MAX`. Returns the value and the unread remainder.
pub open spec fn parse_u64(s: Seq<char>) -> Option<(u64, Seq<char>)> {
    let k = digit_run_len(s);
    if k == 0 {
        None
    } else if digits_val(s.take(k)) > u64::MAX {
        None
    } else {
        Some(((digits_val(s.take(k)) as u64), s.skip(k)))
    }
}

pub proof fn lemma_dec_digits_wf(n: nat)
    ensures
        dec_digits(n).len() >= 1,
        all_dec_digits(dec_digits(n)),
    decreases n,
{
    if n >= 10 {
        lemma_dec_digits_wf(n / 10);
        assert forall|i: int| 0 <= i < dec_digits(n).len() implies is_dec_digit(
            #[trigger] dec_digits(n)[i],
        ) by {
            if i < dec_digits(n).len() - 1 {
                assert(dec_digits(n)[i] == dec_digits(n / 10)[i]);
            }
        }
    }
}

pub proof fn lemma_digits_val_of_dec_digits(n: nat)
    ensures
        digits_val(dec_digits(n)) == n,
    decreases n,
{
    if n < 10 {
        assert(dec_digits(n) == seq![dec_digit(n)]);
        assert(digits_val(seq![dec_digit(n)]) == digits_val(
            seq![dec_digit(n)].drop_last(),
        ) * 10 + dec_val(dec_digit(n)));
        assert(seq![dec_digit(n)].drop_last().len() == 0);
    } else {
        lemma_digits_val_of_dec_digits(n / 10);
        let whole = dec_digits(n / 10).push(dec_digit(n % 10));
        assert(whole.drop_last() =~= dec_digits(n / 10));
        assert(digits_val(whole) == (n / 10) * 10 + (n % 10));
    }
}

/// The digit run of a digit string followed by a non-digit (or nothing)
/// is exactly that digit string.
pub proof fn lemma_digit_run_of_digits(s: Seq<char>, rest: Seq<char>)
    requires
        all_dec_digits(s),
        rest.len() == 0 || !is_dec_digit(rest[0]),
    ensures
        digit_run_len(s + rest) == s.len(),
    decreases s.len(),
{
    if s.len() == 0 {
        assert(s + rest =~= rest);
    } else {
        assert((s + rest)[0] == s[0]);
        assert((s + rest).drop_first() =~= s.drop_first() + rest);
        assert(all_dec_digits(s.drop_first())) by {
            assert forall|i: int| 0 <= i < s.drop_first().len() implies is_dec_digit(
                #[trigger] s.drop_first()[i],
            ) by {
                assert(s.drop_first()[i] == s[i + 1]);
            }
        }
        lemma_digit_run_of_digits(s.drop_first(), rest);
    }
}

/// Reading back the decimal form of `n` yields `n` and leaves the
/// remainder untouched, whenever the remainder does not begin with a
/// digit that would blend into the number.
pub proof fn lemma_parse_u64_inverts(n: u64, rest: Seq<char>)
    requires
        rest.len() == 0 || !is_dec_digit(rest[0]),
    ensures
        parse_u64(dec_digits(n as nat) + rest) == Some((n, rest)),
{
    let s = dec_digits(n as nat);
    lemma_dec_digits_wf(n as nat);
    lemma_digit_run_of_digits(s, rest);
    let k = digit_run_len(s + rest);
    assert(k == s.len());
    assert((s + rest).take(k) =~= s);
    assert((s + rest).skip(k) =~= rest);
    lemma_digits_val_of_dec_digits(n as nat);
}

/// The value of a digit string only grows as the string grows.
pub proof fn lemma_digits_val_prefix_mono(s: Seq<char>, m: int)
    requires
        0 <= m <= s.len(),
    ensures
        digits_val(s.take(m)) <= digits_val(s),
    decreases s.len() - m,
{
    if m < s.len() {
        assert(s.drop_last().take(m) =~= s.take(m));
        lemma_digits_val_prefix_mono(s.drop_last(), m);
        assert(digits_val(s.drop_last()) * 10 >= digits_val(s.drop_last())) by (nonlinear_arith);
    } else {
        assert(s.take(m) =~= s);
    }
}

/// Reads an unsigned decimal number that must fit in `u32`.
pub open spec fn parse_u32(s: Seq<char>) -> Option<(u32, Seq<char>)> {
    match parse_u64(s) {
        Some((v, r)) => if v <= u32::MAX as u64 {
            Some(((v as u32), r))
        } else {
            None
        },
        None => None,
    }
}

pub proof fn lemma_parse_u32_inverts(n: u32, rest: Seq<char>)
    requires
        rest.len() == 0 || !is_dec_digit(rest[0]),
    ensures
        parse_u32(dec_digits(n as nat) + rest) == Some((n, rest)),
{
    lemma_parse_u64_inverts(n as u64, rest);
    assert(dec_digits((n as u64) as nat) =~= dec_digits(n as nat));
}

/// Reads an unsigned decimal number at position `i` of `v`, as
/// [`parse_u32`] describes on the remainder of `v` from `i`.
pub fn parse_u32_at(v: &Vec<char>, i: usize) -> (r: Option<(u32, usize)>)
    requires
        i <= v.len(),
    ensures
        match r {
            Some((x, j)) => {
                &&& i < j <= v.len()
                &&& parse_u32(v@.skip(i as int)) == Some((x, v@.skip(j as int)))
            },
            None => parse_u32(v@.skip(i as int)) is None,
        },
{
    match parse_u64_at(v, i) {
        Some((m, j)) => {
            if m <= u32::MAX as u64 {
                Some((m as u32, j))
            } else {
                None
            }
        },
        None => None,
    }
}

/// The decimal form of a signed number: a minus sign for negative
/// values, then the digits of the magnitude.
pub open spec fn dec_digits_i32(x: i32) -> Seq<char> {
    if x >= 0 {
        dec_digits(x as nat)
    } else {
        seq!['-'] + dec_digits((-(x as int)) as nat)
    }
}

/// Reads a signed decimal number from the front of `s`: an optional
/// minus sign, then a digit run, within the range of `i32` and without
/// the shape `-0`.
pub open spec fn parse_i32(s: Seq<char>) -> Option<(i32, Seq<char>)> {
    if s.len() > 0 && s[0] == '-' {
        match parse_u64(s.drop_first()) {
            Some((v, r)) => if 1 <= v <= 0x8000_0000u64 {
                Some((((-(v as int)) as i32), r))
            } else {
                None
            },
            None => None,
        }
    } else {
        match parse_u64(s) {
            Some((v, r)) => if v <= i32::MAX as u64 {
                Some(((v as i32), r))
            } else {
                None
            },
            None => None,
        }
    }
}

/// Reading back the decimal form of `x` yields `x`, whenever the
/// remainder does not begin with a digit.
pub proof fn lemma_parse_i32_inverts(x: i32, rest: Seq<char>)
    requires
        rest.len() == 0 || !is_dec_digit(rest[0]),
    ensures
        parse_i32(dec_digits_i32(x) + rest) == Some((x, rest)),
{
    if x >= 0 {
        let s = dec_digits(x as nat) + rest;
        lemma_dec_digits_wf(x as nat);
        assert(s[0] == dec_digits(x as nat)[0]);
        lemma_parse_u64_inverts(x as u64, rest);
        assert(dec_digits((x as u64) as nat) =~= dec_digits(x as nat));
    } else {
        let mag = -(x as int);
        let s = dec_digits_i32(x) + rest;
        assert(s[0] == '-');
        assert(s.drop_first() =~= dec_digits(mag as nat) + rest);
        lemma_parse_u64_inverts(mag as u64, rest);
        assert(dec_digits((mag as u64) as nat) =~= dec_digits(mag as nat));
        assert(1 <= mag as u64 <= 0x8000_0000u64);
        assert((-((mag as u64) as int)) as i32 == x);
    }
}

/// Appends the signed decimal form of `x` to `out`.
pub fn push_dec_i32(out: &mut Vec<char>, x: i32)
    ensures
        final(out)@ == old(out)@ + dec_digits_i32(x),
{
    if x >= 0 {
        push_dec_u64(out, x as u64);
        proof {
            assert(dec_digits((x as u64) as nat) =~= dec_digits_i32(x));
        }
    } else {
        out.push('-');
        let mag: u64 = (-(x as i64)) as u64;
        push_dec_u64(out, mag);
        proof {
            assert(mag as int == -(x as int));
            assert(old(out)@.push('-') + dec_digits(mag as nat) =~= old(out)@ + dec_digits_i32(
                x,
            ));
        }
    }
}

/// Reads a signed decimal number at position `i` of `v`, as
/// [`parse_i32`] describes on the remainder of `v` from `i`.
#[verifier::loop_isolation(false)]
pub fn parse_i32_at(v: &Vec<char>, i: usize) -> (r: Option<(i32, usize)>)
    requires
        i <= v.len(),
    ensures
        match r {
            Some((x, j)) => {
                &&& i < j <= v.len()
                &&& parse_i32(v@.skip(i as int)) == Some((x, v@.skip(j as int)))
            },
            None => parse_i32(v@.skip(i as int)) is None,
        },
{
    if i < v.len() && v[i] == '-' {
        proof {
            assert(v@.skip(i as int).drop_first() =~= v@.skip(i as int + 1));
        }
        match parse_u64_at(v, i + 1) {
            Some((m, j)) => {
                if 1 <= m && m <= 0x8000_0000u64 {
                    let x: i32 = (-(m as i64)) as i32;
                    proof {
                        assert(x as int == -(m as int));
                    }
                    Some((x, j))
                } else {
                    None
                }
            },
            None => None,
        }
    } else {
        match parse_u64_at(v, i) {
            Some((m, j)) => {
                if m <= i32::MAX as u64 {
                    Some((m as i32, j))
                } else {
                    None
                }
            },
            None => None,
        }
    }
}

/// Exec form of [`dec_digit`].
pub fn dec_digit_char(d: u64) -> (c: char)
    requires
        d < 10,
    ensures
        c == dec_digit(d as nat),
{
    if d == 0 {
        '0'
    } else if d == 1 {
        '1'
    } else if d == 2 {
        '2'
    } else if d == 3 {
        '3'
    } else if d == 4 {
        '4'
    } else if d == 5 {
        '5'
    } else if d == 6 {
        '6'
    } else if d == 7 {
        '7'
    } else if d == 8 {
        '8'
    } else {
        '9'
    }
}

/// Exec form of [`is_dec_digit`].
pub fn is_dec_digit_char(c: char) -> (r: bool)
    ensures
        r == is_dec_digit(c),
{
    c == '0' || c == '1' || c == '2' || c == '3' || c == '4' || c == '5' || c == '6' || c == '7'
        || c == '8' || c == '9'
}

/// Exec form of [`dec_val`].
pub fn dec_val_of(c: char) -> (d: u64)
    requires
        is_dec_digit(c),
    ensures
        d == dec_val(c),
        d < 10,
{
    if c == '0' {
        0
    } else if c == '1' {
        1
    } else if c == '2' {
        2
    } else if c == '3' {
        3
    } else if c == '4' {
        4
    } else if c == '5' {
        5
    } else if c == '6' {
        6
    } else if c == '7' {
        7
    } else if c == '8' {
        8
    } else {
        9
    }
}

/// Appends the decimal form of `n` to `out`.
pub fn push_dec_u64(out: &mut Vec<char>, n: u64)
    ensures
        final(out)@ == old(out)@ + dec_digits(n as nat),
{
    let mut rev: Vec<char> = Vec::new();
    let mut m: u64 = n;
    while m >= 10
        invariant
            dec_digits(n as nat) =~= dec_digits(m as nat) + rev@.reverse(),
        decreases m,
    {
        let d: u64 = m % 10;
        proof {
            let prev = rev@;
            assert((rev@.push(dec_digit(d as nat))).reverse() =~= seq![dec_digit(d as nat)]
                + prev.reverse());
            assert(dec_digits(m as nat) =~= dec_digits((m / 10) as nat).push(
                dec_digit((m % 10) as nat),
            ));
            assert(dec_digits((m / 10) as nat) + (seq![dec_digit(d as nat)] + prev.reverse())
                =~= (dec_digits((m / 10) as nat).push(dec_digit(d as nat))) + prev.reverse());
        }
        rev.push(dec_digit_char(d));
        m = m / 10;
    }
    proof {
        let prev = rev@;
        assert((rev@.push(dec_digit(m as nat))).reverse() =~= seq![dec_digit(m as nat)]
            + prev.reverse());
        assert(dec_digits(m as nat) =~= seq![dec_digit(m as nat)]);
        assert(seq![dec_digit(m as nat)] + prev.reverse() =~= dec_digits(m as nat)
            + prev.reverse());
    }
    rev.push(dec_digit_char(m));
    let ghost target = dec_digits(n as nat);
    proof {
        assert(rev@.reverse() =~= target);
        assert(rev@.len() == target.len());
    }
    let count: usize = rev.len();
    let mut j: usize = 0;
    while j < count
        invariant
            count == rev.len(),
            rev@.reverse() =~= target,
            j <= count,
            out@ =~= old(out)@ + target.take(j as int),
        decreases count - j,
    {
        proof {
            assert(rev@[count - 1 - j] == rev@.reverse()[j as int]);
            assert(target.take(j as int + 1) =~= target.take(j as int).push(target[j as int]));
        }
        let c = rev[count - 1 - j];
        out.push(c);
        j = j + 1;
    }
    proof {
        assert(target.take(count as int) =~= target);
    }
}

/// Reads an unsigned decimal number at position `i` of `v`, as
/// [`parse_u64`] describes on the remainder of `v` from `i`.
#[verifier::loop_isolation(false)]
pub fn parse_u64_at(v: &Vec<char>, i: usize) -> (r: Option<(u64, usize)>)
    requires
        i <= v.len(),
    ensures
        match r {
            Some((x, j)) => {
                &&& i < j <= v.len()
                &&& parse_u64(v@.skip(i as int)) == Some((x, v@.skip(j as int)))
            },
            None => parse_u64(v@.skip(i as int)) is None,
        },
{
    let ghost s = v@.skip(i as int);
    let mut j: usize = i;
    while j < v.len() && is_dec_digit_char(v[j])
        invariant
            i <= j <= v.len(),
            s =~= v@.skip(i as int),
            all_dec_digits(v@.subrange(i as int, j as int)),
        decreases v.len() - j,
    {
        proof {
            let pre = v@.subrange(i as int, j as int);
            assert(v@.subrange(i as int, j as int + 1) =~= pre.push(v@[j as int]));
            assert forall|t: int| 0 <= t < j + 1 - i implies is_dec_digit(
                #[trigger] v@.subrange(i as int, j as int + 1)[t],
            ) by {
                if t < j - i {
                    assert(v@.subrange(i as int, j as int + 1)[t] == pre[t]);
                }
            }
        }
        j = j + 1;
    }
    proof {
        let digits = v@.subrange(i as int, j as int);
        let rest = v@.skip(j as int);
        assert(s =~= digits + rest);
        assert(rest.len() == 0 || !is_dec_digit(rest[0]));
        lemma_digit_run_of_digits(digits, rest);
        assert(digit_run_len(s) == j - i);
        assert(s.take(j - i) =~= digits);
        assert(s.skip(j - i) =~= rest);
    }
    if j == i {
        return None;
    }
    let mut acc: u64 = 0;
    let mut t: usize = i;
    while t < j
        invariant
            i <= t <= j <= v.len(),
            all_dec_digits(v@.subrange(i as int, j as int)),
            acc == digits_val(v@.subrange(i as int, t as int)),
        decreases j - t,
    {
        proof {
            let pre = v@.subrange(i as int, t as int);
            let ext = v@.subrange(i as int, t as int + 1);
            assert(ext =~= pre.push(v@[t as int]));
            assert(ext.drop_last() =~= pre);
            assert(v@[t as int] == v@.subrange(i as int, j as int)[t - i]);
        }
        let d = dec_val_of(v[t]);
        let step = match acc.checked_mul(10) {
            Some(m) => m.checked_add(d),
            None => None,
        };
        match step {
            Some(next) => {
                acc = next;
                t = t + 1;
            },
            None => {
                proof {
                    let ext = v@.subrange(i as int, t as int + 1);
                    assert(digits_val(ext) == acc * 10 + dec_val(v@[t as int]));
                    assert(digits_val(ext) > u64::MAX);
                    let digits = v@.subrange(i as int, j as int);
                    assert(digits.take(t - i + 1) =~= ext);
                    lemma_digits_val_prefix_mono(digits, t - i + 1);
                    assert(digits_val(digits) > u64::MAX);
                }
                return None;
            },
        }
    }
    proof {
        assert(v@.subrange(i as int, t as int) =~= v@.subrange(i as int, j as int));
    }
    Some((acc, j))
}

} // verus!
