//! Escaping of window titles for the quoted strings of the configuration
//! file, and the reading back of such strings.

use vstd::prelude::*;

verus! {

/// The lower-case character for one hexadecimal digit value.
pub open spec fn hex_digit(d: nat) -> char
    recommends
        d < 16,
{
    if d == 0 {
        '0'
    } else if d == 1 {
        '1'
    } else if d == 2 {
        '2'
    } else if d == 3 {
        '3'
    } else if d == 4 {
        '4'
    } else if d == 5 {
        '5'
    } else if d == 6 {
        '6'
    } else if d == 7 {
        '7'
    } else if d == 8 {
        '8'
    } else if d == 9 {
        '9'
    } else if d == 10 {
        'a'
    } else if d == 11 {
        'b'
    } else if d == 12 {
        'c'
    } else if d == 13 {
        'd'
    } else if d == 14 {
        'e'
    } else {
        'f'
    }
}

pub open spec fn is_hex_digit(c: char) -> bool {
    c == '0' || c == '1' || c == '2' || c == '3' || c == '4' || c == '5' || c == '6' || c == '7'
        || c == '8' || c == '9' || c == 'a' || c == 'b' || c == 'c' || c == 'd' || c == 'e' || c
        == 'f'
}

/// The value of one lower-case hexadecimal digit character.
pub open spec fn hex_val(c: char) -> nat
    recommends
        is_hex_digit(c),
{
    if c == '0' {
        0
    } else if c == '1' {
        1
    } else if c == '2' {
        2
    } else if c == '3' {
        3
    } else if c == '4' {
        4
    } else if c == '5' {
        5
    } else if c == '6' {
        6
    } else if c == '7' {
        7
    } else if c == '8' {
        8
    } else if c == '9' {
        9
    } else if c == 'a' {
        10
    } else if c == 'b' {
        11
    } else if c == 'c' {
        12
    } else if c == 'd' {
        13
    } else if c == 'e' {
        14
    } else {
        15
    }
}

/// How one character appears inside a quoted string: quote, backslash
/// and the common control characters by a two-character escape, the
/// remaining control characters by a hexadecimal escape, everything else
/// as itself.
pub open spec fn esc_char(c: char) -> Seq<char> {
    if c == '"' {
        seq!['\\', '"']
    } else if c == '\\' {
        seq!['\\', '\\']
    } else if c == '\n' {
        seq!['\\', 'n']
    } else if c == '\r' {
        seq!['\\', 'r']
    } else if c == '\t' {
        seq!['\\', 't']
    } else if (c as u32) < 32 {
        seq![
            '\\',
            'u',
            '0',
            '0',
            hex_digit(((c as u32) / 16) as nat),
            hex_digit(((c as u32) % 16) as nat),
        ]
    } else {
        seq![c]
    }
}

/// A whole title escaped, character by character.
pub open spec fn esc_str(s: Seq<char>) -> Seq<char>
    decreases s.len(),
{
    if s.len() == 0 {
        Seq::empty()
    } else {
        esc_char(s[0]) + esc_str(s.drop_first())
    }
}

/// The quoted form of a title.
pub open spec fn quoted(s: Seq<char>) -> Seq<char> {
    seq!['"'] + esc_str(s) + seq!['"']
}

/// Reads the inside of a quoted string up to and including the closing
/// quote: escapes are decoded, a backslash before anything else, an
/// unfinished escape, or a missing closing quote fails. Returns the
/// decoded title and the unread remainder.
pub open spec fn parse_str_body(s: Seq<char>) -> Option<(Seq<char>, Seq<char>)>
    decreases s.len(),
{
    if s.len() == 0 {
        None
    } else if s[0] == '"' {
        Some((Seq::empty(), s.drop_first()))
    } else if s[0] == '\\' {
        if s.len() < 2 {
            None
        } else {
            let e = s[1];
            if e == '"' || e == '\\' || e == 'n' || e == 'r' || e == 't' {
                let d = if e == '"' {
                    '"'
                } else if e == '\\' {
                    '\\'
                } else if e == 'n' {
                    '\n'
                } else if e == 'r' {
                    '\r'
                } else {
                    '\t'
                };
                match parse_str_body(s.skip(2)) {
                    Some((t, r)) => Some((seq![d] + t, r)),
                    None => None,
                }
            } else if e == 'u' {
                if s.len() >= 6 && s[2] == '0' && s[3] == '0' && is_hex_digit(s[4])
                    && is_hex_digit(s[5]) {
                    let w = (16 * hex_val(s[4]) + hex_val(s[5])) as u32;
                    if w < 32 {
                        match parse_str_body(s.skip(6)) {
                            Some((t, r)) => Some((seq![(w as char)] + t, r)),
                            None => None,
                        }
                    } else {
                        None
                    }
                } else {
                    None
                }
            } else {
                None
            }
        }
    } else {
        match parse_str_body(s.drop_first()) {
            Some((t, r)) => Some((seq![s[0]] + t, r)),
            None => None,
        }
    }
}

/// Reads a quoted string from the front of `s`.
pub open spec fn parse_string(s: Seq<char>) -> Option<(Seq<char>, Seq<char>)> {
    if s.len() > 0 && s[0] == '"' {
        parse_str_body(s.drop_first())
    } else {
        None
    }
}

/// Reading a quoted string consumes at least the two quotes.
pub proof fn lemma_parse_body_shrinks(s: Seq<char>)
    ensures
        match parse_str_body(s) {
            Some((t, r)) => r.len() < s.len(),
            None => true,
        },
    decreases s.len(),
{
    if s.len() == 0 {
    } else if s[0] == '"' {
    } else if s[0] == '\\' {
        if s.len() >= 2 {
            lemma_parse_body_shrinks(s.skip(2));
            if s.len() >= 6 {
                lemma_parse_body_shrinks(s.skip(6));
            }
        }
    } else {
        lemma_parse_body_shrinks(s.drop_first());
    }
}

/// Reading a quoted string consumes at least its opening quote.
pub proof fn lemma_parse_string_shrinks(s: Seq<char>)
    ensures
        match parse_string(s) {
            Some((t, r)) => r.len() < s.len(),
            None => true,
        },
{
    if s.len() > 0 && s[0] == '"' {
        lemma_parse_body_shrinks(s.drop_first());
    }
}

/// Escaping distributes over extending a title by one character.
pub proof fn lemma_esc_str_push(s: Seq<char>, c: char)
    ensures
        esc_str(s.push(c)) == esc_str(s) + esc_char(c),
    decreases s.len(),
{
    if s.len() == 0 {
        assert(s.push(c)[0] == c);
        assert(s.push(c).drop_first() =~= Seq::<char>::empty());
        assert(esc_str(Seq::<char>::empty()) =~= Seq::<char>::empty());
        assert(esc_str(s.push(c)) =~= esc_char(c));
        assert(esc_str(s) + esc_char(c) =~= esc_char(c));
    } else {
        assert(s.push(c)[0] == s[0]);
        assert(s.push(c).drop_first() =~= s.drop_first().push(c));
        lemma_esc_str_push(s.drop_first(), c);
        assert(esc_str(s.push(c)) == esc_char(s[0]) + (esc_str(s.drop_first()) + esc_char(c)));
        assert(esc_char(s[0]) + (esc_str(s.drop_first()) + esc_char(c)) =~= (esc_char(s[0])
            + esc_str(s.drop_first())) + esc_char(c));
    }
}

/// Reading back the quoted form of any title yields that title and
/// leaves the remainder untouched.
pub proof fn lemma_parse_body_inverts(s: Seq<char>, rest: Seq<char>)
    ensures
        parse_str_body(esc_str(s) + seq!['"'] + rest) == Some((s, rest)),
    decreases s.len(),
{
    broadcast use vstd::utf8::char_u32_cast;

    if s.len() == 0 {
        let u = esc_str(s) + seq!['"'] + rest;
        assert(u =~= seq!['"'] + rest);
        assert(u[0] == '"');
        assert(u.drop_first() =~= rest);
    } else {
        let c = s[0];
        let tail = s.drop_first();
        lemma_parse_body_inverts(tail, rest);
        let inner = esc_str(tail) + seq!['"'] + rest;
        let u = esc_str(s) + seq!['"'] + rest;
        assert(esc_str(s) == esc_char(c) + esc_str(tail));
        assert(u =~= esc_char(c) + inner);
        if c == '"' || c == '\\' || c == '\n' || c == '\r' || c == '\t' {
            assert(u[0] == '\\');
            assert(u[1] == esc_char(c)[1]);
            assert(u.skip(2) =~= inner);
            assert(seq![c] + tail =~= s);
        } else if (c as u32) < 32 {
            let n = c as u32;
            assert(u[0] == '\\');
            assert(u[1] == 'u');
            assert(u[2] == '0');
            assert(u[3] == '0');
            assert(u[4] == hex_digit((n / 16) as nat));
            assert(u[5] == hex_digit((n % 16) as nat));
            assert(is_hex_digit(u[4]));
            assert(is_hex_digit(u[5]));
            assert(hex_val(u[4]) == (n / 16) as nat);
            assert(hex_val(u[5]) == (n % 16) as nat);
            let w = (16 * hex_val(u[4]) + hex_val(u[5])) as u32;
            assert(16 * ((n / 16) as nat) + ((n % 16) as nat) == n);
            assert(w == n);
            vstd::utf8::char_u32_cast(c, w);
            assert((w as char) == c);
            assert(u.skip(6) =~= inner);
            assert(seq![c] + tail =~= s);
        } else {
            assert(u[0] == c);
            assert(u.drop_first() =~= inner);
            assert(seq![c] + tail =~= s);
        }
    }
}

pub proof fn lemma_parse_string_inverts(s: Seq<char>, rest: Seq<char>)
    ensures
        parse_string(quoted(s) + rest) == Some((s, rest)),
{
    let u = quoted(s) + rest;
    assert(u[0] == '"');
    assert(u.drop_first() =~= esc_str(s) + seq!['"'] + rest);
    lemma_parse_body_inverts(s, rest);
}

/// Exec form of [`hex_digit`].
pub fn hex_digit_char(d: u32) -> (c: char)
    requires
        d < 16,
    ensures
        c == hex_digit(d as nat),
{
    if d == 0 {
        '0'
    } else if d == 1 {
        '1'
    } else if d == 2 {
        '2'
    } else if d == 3 {
        '3'
    } else if d == 4 {
        '4'
    } else if d == 5 {
        '5'
    } else if d == 6 {
        '6'
    } else if d == 7 {
        '7'
    } else if d == 8 {
        '8'
    } else if d == 9 {
        '9'
    } else if d == 10 {
        'a'
    } else if d == 11 {
        'b'
    } else if d == 12 {
        'c'
    } else if d == 13 {
        'd'
    } else if d == 14 {
        'e'
    } else {
        'f'
    }
}

/// Exec form of [`hex_val`].
pub fn hex_val_of(c: char) -> (d: u32)
    requires
        is_hex_digit(c),
    ensures
        d == hex_val(c),
        d < 16,
{
    if c == '0' {
        0
    } else if c == '1' {
        1
    } else if c == '2' {
        2
    } else if c == '3' {
        3
    } else if c == '4' {
        4
    } else if c == '5' {
        5
    } else if c == '6' {
        6
    } else if c == '7' {
        7
    } else if c == '8' {
        8
    } else if c == '9' {
        9
    } else if c == 'a' {
        10
    } else if c == 'b' {
        11
    } else if c == 'c' {
        12
    } else if c == 'd' {
        13
    } else if c == 'e' {
        14
    } else {
        15
    }
}

/// Exec form of [`is_hex_digit`].
pub fn is_hex_digit_char(c: char) -> (r: bool)
    ensures
        r == is_hex_digit(c),
{
    c == '0' || c == '1' || c == '2' || c == '3' || c == '4' || c == '5' || c == '6' || c == '7'
        || c == '8' || c == '9' || c == 'a' || c == 'b' || c == 'c' || c == 'd' || c == 'e' || c
        == 'f'
}

/// Appends the quoted form of `s` to `out`.
#[verifier::loop_isolation(false)]
pub fn push_quoted(out: &mut Vec<char>, s: &String)
    ensures
        final(out)@ == old(out)@ + quoted(s@),
{
    broadcast use vstd::utf8::char_is_scalar;

    out.push('"');
    let text = s.as_str();
    let len = text.unicode_len();
    let mut i: usize = 0;
    while i < len
        invariant
            i <= len,
            out@ =~= old(out)@ + seq!['"'] + esc_str(s@.take(i as int)),
        decreases len - i,
    {
        proof {
            assert(s@.take(i as int + 1) =~= s@.take(i as int).push(s@[i as int]));
            lemma_esc_str_push(s@.take(i as int), s@[i as int]);
        }
        let c = text.get_char(i);
        if c == '"' {
            out.push('\\');
            out.push('"');
        } else if c == '\\' {
            out.push('\\');
            out.push('\\');
        } else if c == '\n' {
            out.push('\\');
            out.push('n');
        } else if c == '\r' {
            out.push('\\');
            out.push('r');
        } else if c == '\t' {
            out.push('\\');
            out.push('t');
        } else {
            let n = c as u32;
            if n < 32 {
                out.push('\\');
                out.push('u');
                out.push('0');
                out.push('0');
                out.push(hex_digit_char(n / 16));
                out.push(hex_digit_char(n % 16));
            } else {
                out.push(c);
            }
        }
        proof {
            assert(out@ =~= old(out)@ + seq!['"'] + esc_str(s@.take(i as int + 1)));
        }
        i = i + 1;
    }
    proof {
        assert(s@.take(len as int) =~= s@);
    }
    out.push('"');
    proof {
        assert(out@ =~= old(out)@ + quoted(s@));
    }
}

/// Reads a quoted string at position `i` of `v`, as [`parse_string`]
/// describes on the remainder of `v` from `i`.
#[verifier::loop_isolation(false)]
pub fn parse_string_at(v: &Vec<char>, i: usize) -> (r: Option<(Vec<char>, usize)>)
    requires
        i <= v.len(),
    ensures
        match r {
            Some((s, j)) => {
                &&& i < j <= v.len()
                &&& parse_string(v@.skip(i as int)) == Some((s@, v@.skip(j as int)))
            },
            None => parse_string(v@.skip(i as int)) is None,
        },
{
    broadcast use vstd::utf8::char_u32_cast;

    if !(i < v.len() && v[i] == '"') {
        return None;
    }
    proof {
        assert(v@.skip(i as int).drop_first() =~= v@.skip(i as int + 1));
    }
    let mut acc: Vec<char> = Vec::new();
    let mut cur: usize = i + 1;
    loop
        invariant
            i + 1 <= cur <= v.len(),
            match parse_str_body(v@.skip(cur as int)) {
                Some((t, r)) => parse_str_body(v@.skip(i as int + 1)) == Some((acc@ + t, r)),
                None => parse_str_body(v@.skip(i as int + 1)) is None,
            },
        decreases v.len() - cur,
    {
        let ghost w = v@.skip(cur as int);
        if cur == v.len() {
            return None;
        }
        proof {
            assert(w[0] == v@[cur as int]);
            assert(w.drop_first() =~= v@.skip(cur as int + 1));
        }
        let c = v[cur];
        if c == '"' {
            proof {
                assert(parse_str_body(w) == Some((Seq::<char>::empty(), v@.skip(cur as int + 1))));
                assert(acc@ + Seq::<char>::empty() =~= acc@);
            }
            return Some((acc, cur + 1));
        } else if c == '\\' {
            if cur + 1 == v.len() {
                return None;
            }
            proof {
                assert(w[1] == v@[cur as int + 1]);
            }
            let e = v[cur + 1];
            if e == '"' || e == '\\' || e == 'n' || e == 'r' || e == 't' {
                let d = if e == '"' {
                    '"'
                } else if e == '\\' {
                    '\\'
                } else if e == 'n' {
                    '\n'
                } else if e == 'r' {
                    '\r'
                } else {
                    '\t'
                };
                proof {
                    assert(w.skip(2) =~= v@.skip(cur as int + 2));
                    assert(forall|t: Seq<char>| acc@ + (seq![d] + t) =~= (acc@ + seq![d]) + t);
                    assert(acc@.push(d) =~= acc@ + seq![d]);
                }
                acc.push(d);
                cur = cur + 2;
            } else if e == 'u' {
                if v.len() - cur < 6 {
                    return None;
                }
                proof {
                    assert(w[2] == v@[cur as int + 2]);
                    assert(w[3] == v@[cur as int + 3]);
                    assert(w[4] == v@[cur as int + 4]);
                    assert(w[5] == v@[cur as int + 5]);
                }
                if !(v[cur + 2] == '0' && v[cur + 3] == '0') {
                    return None;
                }
                let h1 = v[cur + 4];
                let h2 = v[cur + 5];
                if !(is_hex_digit_char(h1) && is_hex_digit_char(h2)) {
                    return None;
                }
                let n: u32 = 16 * hex_val_of(h1) + hex_val_of(h2);
                if n >= 32 {
                    return None;
                }
                let b: u8 = n as u8;
                let d: char = b as char;
                proof {
                    assert(b as u32 == n);
                    assert((b as char) as u32 == b as u32);
                    assert((n as char) as u32 == n as u32) by {
                        assert(n < 32);
                    }
                    assert(d == (n as char));
                    assert(w.skip(6) =~= v@.skip(cur as int + 6));
                    assert(forall|t: Seq<char>| acc@ + (seq![d] + t) =~= (acc@ + seq![d]) + t);
                    assert(acc@.push(d) =~= acc@ + seq![d]);
                }
                acc.push(d);
                cur = cur + 6;
            } else {
                return None;
            }
        } else {
            proof {
                assert(forall|t: Seq<char>| acc@ + (seq![c] + t) =~= (acc@ + seq![c]) + t);
                assert(acc@.push(c) =~= acc@ + seq![c]);
            }
            acc.push(c);
            cur = cur + 1;
        }
    }
}

} // verus!
