//! The on-disk form of the configuration record: one JSON object with a
//! fixed key order, written and read by this module alone. The reader
//! accepts exactly what the writer produces; anything else counts as
//! malformed and makes the loader fall back to the default record.

use vstd::prelude::*;

use crate::config::{ConfigView, PositionView, WindowConfig, WindowPosition};
use crate::dec::{
    dec_digits, dec_digits_i32, lemma_dec_digits_wf, lemma_parse_i32_inverts,
    lemma_parse_u32_inverts, lemma_parse_u64_inverts, parse_i32, parse_i32_at, parse_u32,
    parse_u32_at, parse_u64, parse_u64_at, push_dec_i32, push_dec_u64,
};
use crate::escape::{
    lemma_parse_string_inverts, lemma_parse_string_shrinks, parse_string, parse_string_at,
    push_quoted, quoted,
};
use crate::text::{
    append_str, chars_of_str, expect_at, lemma_strip_concat, starts_with, string_from_chars, strip,
};

verus! {

/// The text of one saved geometry object.
pub open spec fn ser_pos(p: PositionView) -> Seq<char> {
    "{\"x\":"@ + dec_digits_i32(p.x) + ",\"y\":"@ + dec_digits_i32(p.y) + ",\"width\":"@
        + dec_digits(p.width as nat) + ",\"height\":"@ + dec_digits(p.height as nat) + "}"@
}

/// The text of a geometry slot: the object, or `null` for an empty slot.
pub open spec fn ser_opt_pos(p: Option<PositionView>) -> Seq<char> {
    match p {
        Some(q) => ser_pos(q),
        None => "null"@,
    }
}

pub open spec fn ser_bool(b: bool) -> Seq<char> {
    if b {
        "true"@
    } else {
        "false"@
    }
}

/// The comma-separated quoted titles of the monitored list.
pub open spec fn ser_items(l: Seq<Seq<char>>) -> Seq<char>
    decreases l.len(),
{
    if l.len() == 0 {
        Seq::empty()
    } else if l.len() == 1 {
        quoted(l[0])
    } else {
        quoted(l[0]) + seq![','] + ser_items(l.drop_first())
    }
}

pub open spec fn ser_list(l: Seq<Seq<char>>) -> Seq<char> {
    seq!['['] + ser_items(l) + seq![']']
}

/// The whole record as text: one object, keys always in the same order.
pub open spec fn ser_config(c: ConfigView) -> Seq<char> {
    "{\"monitored_windows\":"@ + ser_list(c.monitored_windows) + ",\"auto_hide_delay\":"@
        + dec_digits(c.auto_hide_delay as nat) + ",\"main_window_position\":"@ + ser_opt_pos(
        c.main_window_position,
    ) + ",\"preference_window_position\":"@ + ser_opt_pos(c.preference_window_position)
        + ",\"dark_mode\":"@ + ser_bool(c.dark_mode) + "}"@
}

pub open spec fn parse_bool(s: Seq<char>) -> Option<(bool, Seq<char>)> {
    if starts_with(s, "true"@) {
        Some((true, s.skip("true"@.len() as int)))
    } else if starts_with(s, "false"@) {
        Some((false, s.skip("false"@.len() as int)))
    } else {
        None
    }
}

pub open spec fn parse_pos(s: Seq<char>) -> Option<(PositionView, Seq<char>)> {
    match strip(s, "{\"x\":"@) {
        Some(t1) => match parse_i32(t1) {
            Some((x, t2)) => match strip(t2, ",\"y\":"@) {
                Some(t3) => match parse_i32(t3) {
                    Some((y, t4)) => match strip(t4, ",\"width\":"@) {
                        Some(t5) => match parse_u32(t5) {
                            Some((w, t6)) => match strip(t6, ",\"height\":"@) {
                                Some(t7) => match parse_u32(t7) {
                                    Some((h, t8)) => match strip(t8, "}"@) {
                                        Some(t9) => Some(
                                            (PositionView { x, y, width: w, height: h }, t9),
                                        ),
                                        None => None,
                                    },
                                    None => None,
                                },
                                None => None,
                            },
                            None => None,
                        },
                        None => None,
                    },
                    None => None,
                },
                None => None,
            },
            None => None,
        },
        None => None,
    }
}

pub open spec fn parse_opt_pos(s: Seq<char>) -> Option<(Option<PositionView>, Seq<char>)> {
    if starts_with(s, "null"@) {
        Some((None, s.skip("null"@.len() as int)))
    } else {
        match parse_pos(s) {
            Some((p, r)) => Some((Some(p), r)),
            None => None,
        }
    }
}

/// Reads one or more quoted titles separated by commas, up to and
/// including the closing bracket.
pub open spec fn parse_items(s: Seq<char>) -> Option<(Seq<Seq<char>>, Seq<char>)>
    decreases s.len(),
{
    match parse_string(s) {
        Some((v, r)) => {
            if r.len() > 0 && r[0] == ',' {
                proof {
                    lemma_parse_string_shrinks(s);
                }
                match parse_items(r.drop_first()) {
                    Some((l, r2)) => Some((seq![v] + l, r2)),
                    None => None,
                }
            } else if r.len() > 0 && r[0] == ']' {
                Some((seq![v], r.drop_first()))
            } else {
                None
            }
        },
        None => None,
    }
}

pub open spec fn parse_list(s: Seq<char>) -> Option<(Seq<Seq<char>>, Seq<char>)> {
    if s.len() > 0 && s[0] == '[' {
        let t = s.drop_first();
        if t.len() > 0 && t[0] == ']' {
            Some((Seq::empty(), t.drop_first()))
        } else {
            parse_items(t)
        }
    } else {
        None
    }
}

/// Reads a whole record; the text must carry nothing after the closing
/// brace.
pub open spec fn parse_config(s: Seq<char>) -> Option<ConfigView> {
    match strip(s, "{\"monitored_windows\":"@) {
        Some(t1) => match parse_list(t1) {
            Some((mw, t2)) => match strip(t2, ",\"auto_hide_delay\":"@) {
                Some(t3) => match parse_u64(t3) {
                    Some((delay, t4)) => match strip(t4, ",\"main_window_position\":"@) {
                        Some(t5) => match parse_opt_pos(t5) {
                            Some((mp, t6)) => match strip(
                                t6,
                                ",\"preference_window_position\":"@,
                            ) {
                                Some(t7) => match parse_opt_pos(t7) {
                                    Some((pp, t8)) => match strip(t8, ",\"dark_mode\":"@) {
                                        Some(t9) => match parse_bool(t9) {
                                            Some((dk, t10)) => match strip(t10, "}"@) {
                                                Some(t11) => if t11.len() == 0 {
                                                    Some(
                                                        ConfigView {
                                                            monitored_windows: mw,
                                                            auto_hide_delay: delay,
                                                            main_window_position: mp,
                                                            preference_window_position: pp,
                                                            dark_mode: dk,
                                                        },
                                                    )
                                                } else {
                                                    None
                                                },
                                                None => None,
                                            },
                                            None => None,
                                        },
                                        None => None,
                                    },
                                    None => None,
                                },
                                None => None,
                            },
                            None => None,
                        },
                        None => None,
                    },
                    None => None,
                },
                None => None,
            },
            None => None,
        },
        None => None,
    }
}

pub proof fn lemma_parse_bool_inverts(b: bool, rest: Seq<char>)
    ensures
        parse_bool(ser_bool(b) + rest) == Some((b, rest)),
{
    reveal_strlit("true");
    reveal_strlit("false");
    let u = ser_bool(b) + rest;
    if b {
        assert(u.take("true"@.len() as int) =~= "true"@);
        assert(u.skip("true"@.len() as int) =~= rest);
    } else {
        assert(u[0] == 'f');
        assert(!starts_with(u, "true"@)) by {
            if starts_with(u, "true"@) {
                assert(u.take("true"@.len() as int)[0] == 't');
            }
        }
        assert(u.take("false"@.len() as int) =~= "false"@);
        assert(u.skip("false"@.len() as int) =~= rest);
    }
}

pub proof fn lemma_parse_pos_inverts(p: PositionView, rest: Seq<char>)
    ensures
        parse_pos(ser_pos(p) + rest) == Some((p, rest)),
{
    reveal_strlit("{\"x\":");
    reveal_strlit(",\"y\":");
    reveal_strlit(",\"width\":");
    reveal_strlit(",\"height\":");
    reveal_strlit("}");
    let a1 = "{\"x\":"@;
    let a2 = ",\"y\":"@;
    let a3 = ",\"width\":"@;
    let a4 = ",\"height\":"@;
    let rb = "}"@;
    let dx = dec_digits_i32(p.x);
    let dy = dec_digits_i32(p.y);
    let dw = dec_digits(p.width as nat);
    let dh = dec_digits(p.height as nat);
    let s = ser_pos(p) + rest;
    let x1 = dx + (a2 + (dy + (a3 + (dw + (a4 + (dh + (rb + rest)))))));
    assert(s =~= a1 + x1);
    lemma_strip_concat(a1, x1);
    let x2 = a2 + (dy + (a3 + (dw + (a4 + (dh + (rb + rest))))));
    assert(x2[0] == ',');
    lemma_parse_i32_inverts(p.x, x2);
    let x3 = dy + (a3 + (dw + (a4 + (dh + (rb + rest)))));
    lemma_strip_concat(a2, x3);
    assert(x2.skip(a2.len() as int) =~= x3);
    let x4 = a3 + (dw + (a4 + (dh + (rb + rest))));
    assert(x4[0] == ',');
    lemma_parse_i32_inverts(p.y, x4);
    let x5 = dw + (a4 + (dh + (rb + rest)));
    lemma_strip_concat(a3, x5);
    assert(x4.skip(a3.len() as int) =~= x5);
    let x6 = a4 + (dh + (rb + rest));
    assert(x6[0] == ',');
    lemma_parse_u32_inverts(p.width, x6);
    let x7 = dh + (rb + rest);
    lemma_strip_concat(a4, x7);
    assert(x6.skip(a4.len() as int) =~= x7);
    let x8 = rb + rest;
    assert(x8[0] == '}');
    lemma_parse_u32_inverts(p.height, x8);
    lemma_strip_concat(rb, rest);
}

pub proof fn lemma_parse_opt_pos_inverts(p: Option<PositionView>, rest: Seq<char>)
    ensures
        parse_opt_pos(ser_opt_pos(p) + rest) == Some((p, rest)),
{
    reveal_strlit("null");
    reveal_strlit("{\"x\":");
    let u = ser_opt_pos(p) + rest;
    match p {
        None => {
            assert(u.take("null"@.len() as int) =~= "null"@);
            assert(u.skip("null"@.len() as int) =~= rest);
        },
        Some(q) => {
            assert(u[0] == '{') by {
                let a1 = "{\"x\":"@;
                assert(ser_pos(q)[0] == a1[0]);
            }
            assert(!starts_with(u, "null"@)) by {
                if starts_with(u, "null"@) {
                    assert(u.take("null"@.len() as int)[0] == 'n');
                }
            }
            lemma_parse_pos_inverts(q, rest);
        },
    }
}

pub proof fn lemma_parse_items_inverts(l: Seq<Seq<char>>, rest: Seq<char>)
    requires
        l.len() >= 1,
    ensures
        parse_items(ser_items(l) + seq![']'] + rest) == Some((l, rest)),
    decreases l.len(),
{
    let u = ser_items(l) + seq![']'] + rest;
    if l.len() == 1 {
        let after = seq![']'] + rest;
        assert(u =~= quoted(l[0]) + after);
        lemma_parse_string_inverts(l[0], after);
        assert(after[0] == ']');
        assert(after.drop_first() =~= rest);
        assert(seq![l[0]] =~= l);
    } else {
        let tail = l.drop_first();
        let after = seq![','] + (ser_items(tail) + seq![']'] + rest);
        assert(u =~= quoted(l[0]) + after);
        lemma_parse_string_inverts(l[0], after);
        assert(after[0] == ',');
        assert(after.drop_first() =~= ser_items(tail) + seq![']'] + rest);
        lemma_parse_items_inverts(tail, rest);
        assert(seq![l[0]] + tail =~= l);
    }
}

pub proof fn lemma_parse_list_inverts(l: Seq<Seq<char>>, rest: Seq<char>)
    ensures
        parse_list(ser_list(l) + rest) == Some((l, rest)),
{
    let u = ser_list(l) + rest;
    assert(u[0] == '[');
    let t = u.drop_first();
    assert(t =~= ser_items(l) + seq![']'] + rest);
    if l.len() == 0 {
        assert(ser_items(l) =~= Seq::<char>::empty());
        assert(t =~= seq![']'] + rest);
        assert(t[0] == ']');
        assert(t.drop_first() =~= rest);
    } else {
        assert(ser_items(l)[0] == '"') by {
            if l.len() == 1 {
                assert(ser_items(l) == quoted(l[0]));
            }
            assert(quoted(l[0])[0] == '"');
        }
        assert(t[0] == '"');
        lemma_parse_items_inverts(l, rest);
    }
}

/// Reading back the written form of any record yields that record: the
/// configuration file round-trips exactly.
pub proof fn lemma_config_round_trip(c: ConfigView)
    ensures
        parse_config(ser_config(c)) == Some(c),
{
    reveal_strlit("{\"monitored_windows\":");
    reveal_strlit(",\"auto_hide_delay\":");
    reveal_strlit(",\"main_window_position\":");
    reveal_strlit(",\"preference_window_position\":");
    reveal_strlit(",\"dark_mode\":");
    reveal_strlit("}");
    let k1 = "{\"monitored_windows\":"@;
    let k2 = ",\"auto_hide_delay\":"@;
    let k3 = ",\"main_window_position\":"@;
    let k4 = ",\"preference_window_position\":"@;
    let k5 = ",\"dark_mode\":"@;
    let rb = "}"@;
    let lw = ser_list(c.monitored_windows);
    let dd = dec_digits(c.auto_hide_delay as nat);
    let mp = ser_opt_pos(c.main_window_position);
    let pp = ser_opt_pos(c.preference_window_position);
    let db = ser_bool(c.dark_mode);
    let s = ser_config(c);
    let x1 = lw + (k2 + (dd + (k3 + (mp + (k4 + (pp + (k5 + (db + rb))))))));
    assert(s =~= k1 + x1);
    lemma_strip_concat(k1, x1);
    let x2 = k2 + (dd + (k3 + (mp + (k4 + (pp + (k5 + (db + rb)))))));
    lemma_parse_list_inverts(c.monitored_windows, x2);
    let x3 = dd + (k3 + (mp + (k4 + (pp + (k5 + (db + rb))))));
    lemma_strip_concat(k2, x3);
    assert(x2.skip(k2.len() as int) =~= x3);
    let x4 = k3 + (mp + (k4 + (pp + (k5 + (db + rb)))));
    assert(x4[0] == ',');
    lemma_dec_digits_wf(c.auto_hide_delay as nat);
    lemma_parse_u64_inverts(c.auto_hide_delay, x4);
    assert(dec_digits((c.auto_hide_delay as u64) as nat) =~= dd);
    let x5 = mp + (k4 + (pp + (k5 + (db + rb))));
    lemma_strip_concat(k3, x5);
    assert(x4.skip(k3.len() as int) =~= x5);
    let x6 = k4 + (pp + (k5 + (db + rb)));
    lemma_parse_opt_pos_inverts(c.main_window_position, x6);
    let x7 = pp + (k5 + (db + rb));
    lemma_strip_concat(k4, x7);
    assert(x6.skip(k4.len() as int) =~= x7);
    let x8 = k5 + (db + rb);
    lemma_parse_opt_pos_inverts(c.preference_window_position, x8);
    let x9 = db + rb;
    lemma_strip_concat(k5, x9);
    assert(x8.skip(k5.len() as int) =~= x9);
    lemma_parse_bool_inverts(c.dark_mode, rb);
    lemma_strip_concat(rb, Seq::<char>::empty());
    assert(rb + Seq::<char>::empty() =~= rb);
}

/// Extending the monitored list extends its written form by one more
/// comma-separated quoted title.
pub proof fn lemma_ser_items_push(l: Seq<Seq<char>>, x: Seq<char>)
    requires
        l.len() >= 1,
    ensures
        ser_items(l.push(x)) == ser_items(l) + seq![','] + quoted(x),
    decreases l.len(),
{
    if l.len() == 1 {
        assert(l.push(x)[0] == l[0]);
        assert(l.push(x).drop_first() =~= seq![x]);
        assert(ser_items(seq![x]) == quoted(x));
        assert(quoted(l[0]) + seq![','] + quoted(x) =~= quoted(l[0]) + (seq![','] + ser_items(
            seq![x],
        )));
        assert(ser_items(l.push(x)) == quoted(l[0]) + seq![','] + ser_items(l.push(x).drop_first()))
            by {
            assert(l.push(x).len() > 1);
        }
    } else {
        assert(l.push(x)[0] == l[0]);
        assert(l.push(x).drop_first() =~= l.drop_first().push(x));
        lemma_ser_items_push(l.drop_first(), x);
        assert(ser_items(l.push(x)) == quoted(l[0]) + seq![','] + ser_items(
            l.drop_first().push(x),
        ));
        assert(quoted(l[0]) + seq![','] + (ser_items(l.drop_first()) + seq![','] + quoted(x))
            =~= (quoted(l[0]) + seq![','] + ser_items(l.drop_first())) + seq![','] + quoted(x));
    }
}

/// Appends the text of one geometry object to `out`.
fn push_pos(out: &mut Vec<char>, p: &WindowPosition)
    ensures
        final(out)@ == old(out)@ + ser_pos(p@),
{
    append_str(out, "{\"x\":");
    push_dec_i32(out, p.x);
    append_str(out, ",\"y\":");
    push_dec_i32(out, p.y);
    append_str(out, ",\"width\":");
    push_dec_u64(out, p.width as u64);
    append_str(out, ",\"height\":");
    push_dec_u64(out, p.height as u64);
    append_str(out, "}");
    proof {
        assert(dec_digits((p.width as u64) as nat) =~= dec_digits(p@.width as nat));
        assert(dec_digits((p.height as u64) as nat) =~= dec_digits(p@.height as nat));
        assert(final(out)@ =~= old(out)@ + ser_pos(p@));
    }
}

/// Appends the text of one geometry slot to `out`.
fn push_opt_pos(out: &mut Vec<char>, p: &Option<WindowPosition>)
    ensures
        final(out)@ == old(out)@ + ser_opt_pos(crate::config::opt_position_view(*p)),
{
    match p {
        Some(q) => push_pos(out, q),
        None => append_str(out, "null"),
    }
}

fn push_bool(out: &mut Vec<char>, b: bool)
    ensures
        final(out)@ == old(out)@ + ser_bool(b),
{
    if b {
        append_str(out, "true");
    } else {
        append_str(out, "false");
    }
}

/// Appends the bracketed monitored list to `out`.
#[verifier::loop_isolation(false)]
fn push_list(out: &mut Vec<char>, l: &Vec<String>)
    ensures
        final(out)@ == old(out)@ + ser_list(l.deep_view()),
{
    out.push('[');
    let mut i: usize = 0;
    while i < l.len()
        invariant
            i <= l.len(),
            out@ =~= old(out)@ + seq!['['] + ser_items(l.deep_view().take(i as int)),
        decreases l.len() - i,
    {
        proof {
            assert(l.deep_view()[i as int] == l@[i as int]@);
            assert(l.deep_view().take(i as int + 1) =~= l.deep_view().take(i as int).push(
                l@[i as int]@,
            ));
        }
        if i > 0 {
            out.push(',');
            proof {
                lemma_ser_items_push(l.deep_view().take(i as int), l@[i as int]@);
            }
        } else {
            proof {
                assert(ser_items(l.deep_view().take(0)) =~= Seq::<char>::empty());
                assert(ser_items(seq![l@[0int]@]) == quoted(l@[0int]@));
                assert(l.deep_view().take(1) =~= seq![l@[0int]@]);
            }
        }
        push_quoted(out, &l[i]);
        proof {
            assert(out@ =~= old(out)@ + seq!['['] + ser_items(l.deep_view().take(i as int + 1)));
        }
        i = i + 1;
    }
    proof {
        assert(l.deep_view().take(l.len() as int) =~= l.deep_view());
    }
    out.push(']');
    proof {
        assert(final(out)@ =~= old(out)@ + ser_list(l.deep_view()));
    }
}

/// The whole record as its file text.
pub fn config_to_json(c: &WindowConfig) -> (r: String)
    ensures
        r@ == ser_config(c@),
{
    let mut out: Vec<char> = Vec::new();
    append_str(&mut out, "{\"monitored_windows\":");
    push_list(&mut out, &c.monitored_windows);
    append_str(&mut out, ",\"auto_hide_delay\":");
    push_dec_u64(&mut out, c.auto_hide_delay);
    append_str(&mut out, ",\"main_window_position\":");
    push_opt_pos(&mut out, &c.main_window_position);
    append_str(&mut out, ",\"preference_window_position\":");
    push_opt_pos(&mut out, &c.preference_window_position);
    append_str(&mut out, ",\"dark_mode\":");
    push_bool(&mut out, c.dark_mode);
    append_str(&mut out, "}");
    proof {
        assert(dec_digits((c.auto_hide_delay as u64) as nat) =~= dec_digits(
            c@.auto_hide_delay as nat,
        ));
        assert(out@ =~= ser_config(c@));
    }
    string_from_chars(&out)
}

/// Reads `true` or `false` at position `i` of `v`.
fn parse_bool_at(v: &Vec<char>, i: usize) -> (r: Option<(bool, usize)>)
    requires
        i <= v.len(),
    ensures
        match r {
            Some((b, j)) => {
                &&& i <= j <= v.len()
                &&& parse_bool(v@.skip(i as int)) == Some((b, v@.skip(j as int)))
            },
            None => parse_bool(v@.skip(i as int)) is None,
        },
{
    match expect_at(v, i, "true") {
        Some(j) => {
            proof {
                assert(v@.skip(i as int).skip("true"@.len() as int) =~= v@.skip(j as int));
            }
            Some((true, j))
        },
        None => match expect_at(v, i, "false") {
            Some(j) => {
                proof {
                    assert(v@.skip(i as int).skip("false"@.len() as int) =~= v@.skip(j as int));
                }
                Some((false, j))
            },
            None => None,
        },
    }
}

/// Reads one geometry object at position `i` of `v`.
fn parse_pos_at(v: &Vec<char>, i: usize) -> (r: Option<(WindowPosition, usize)>)
    requires
        i <= v.len(),
    ensures
        match r {
            Some((p, j)) => {
                &&& i <= j <= v.len()
                &&& parse_pos(v@.skip(i as int)) == Some((p@, v@.skip(j as int)))
            },
            None => parse_pos(v@.skip(i as int)) is None,
        },
{
    let j1 = match expect_at(v, i, "{\"x\":") {
        Some(j) => j,
        None => {
            return None;
        },
    };
    proof {
        assert(v@.skip(i as int).skip("{\"x\":"@.len() as int) =~= v@.skip(j1 as int));
    }
    let (x, j2) = match parse_i32_at(v, j1) {
        Some(p) => p,
        None => {
            return None;
        },
    };
    let j3 = match expect_at(v, j2, ",\"y\":") {
        Some(j) => j,
        None => {
            return None;
        },
    };
    proof {
        assert(v@.skip(j2 as int).skip(",\"y\":"@.len() as int) =~= v@.skip(j3 as int));
    }
    let (y, j4) = match parse_i32_at(v, j3) {
        Some(p) => p,
        None => {
            return None;
        },
    };
    let j5 = match expect_at(v, j4, ",\"width\":") {
        Some(j) => j,
        None => {
            return None;
        },
    };
    proof {
        assert(v@.skip(j4 as int).skip(",\"width\":"@.len() as int) =~= v@.skip(j5 as int));
    }
    let (w, j6) = match parse_u32_at(v, j5) {
        Some(p) => p,
        None => {
            return None;
        },
    };
    let j7 = match expect_at(v, j6, ",\"height\":") {
        Some(j) => j,
        None => {
            return None;
        },
    };
    proof {
        assert(v@.skip(j6 as int).skip(",\"height\":"@.len() as int) =~= v@.skip(j7 as int));
    }
    let (h, j8) = match parse_u32_at(v, j7) {
        Some(p) => p,
        None => {
            return None;
        },
    };
    let j9 = match expect_at(v, j8, "}") {
        Some(j) => j,
        None => {
            return None;
        },
    };
    proof {
        assert(v@.skip(j8 as int).skip("}"@.len() as int) =~= v@.skip(j9 as int));
    }
    Some((WindowPosition { x, y, width: w, height: h }, j9))
}

/// Reads one geometry slot, `null` or an object, at position `i` of `v`.
fn parse_opt_pos_at(v: &Vec<char>, i: usize) -> (r: Option<(Option<WindowPosition>, usize)>)
    requires
        i <= v.len(),
    ensures
        match r {
            Some((p, j)) => {
                &&& i <= j <= v.len()
                &&& parse_opt_pos(v@.skip(i as int)) == Some(
                    (crate::config::opt_position_view(p), v@.skip(j as int)),
                )
            },
            None => parse_opt_pos(v@.skip(i as int)) is None,
        },
{
    match expect_at(v, i, "null") {
        Some(j) => {
            proof {
                assert(v@.skip(i as int).skip("null"@.len() as int) =~= v@.skip(j as int));
            }
            Some((None, j))
        },
        None => match parse_pos_at(v, i) {
            Some((p, j)) => Some((Some(p), j)),
            None => None,
        },
    }
}

/// Reads the comma-separated quoted titles with their closing bracket,
/// at position `i` of `v`.
#[verifier::loop_isolation(false)]
fn parse_items_at(v: &Vec<char>, i: usize) -> (r: Option<(Vec<String>, usize)>)
    requires
        i <= v.len(),
    ensures
        match r {
            Some((l, j)) => {
                &&& i <= j <= v.len()
                &&& parse_items(v@.skip(i as int)) == Some((l.deep_view(), v@.skip(j as int)))
            },
            None => parse_items(v@.skip(i as int)) is None,
        },
{
    let mut acc: Vec<String> = Vec::new();
    let mut cur: usize = i;
    loop
        invariant
            i <= cur <= v.len(),
            match parse_items(v@.skip(cur as int)) {
                Some((t, r)) => parse_items(v@.skip(i as int)) == Some((acc.deep_view() + t, r)),
                None => parse_items(v@.skip(i as int)) is None,
            },
        decreases v.len() - cur,
    {
        let ghost w = v@.skip(cur as int);
        let (sv, j2) = match parse_string_at(v, cur) {
            Some(p) => p,
            None => {
                return None;
            },
        };
        let ghost r = v@.skip(j2 as int);
        let title = string_from_chars(&sv);
        let ghost dv = acc.deep_view();
        if j2 < v.len() && v[j2] == ']' {
            proof {
                assert(r[0] == v@[j2 as int]);
                assert(r.drop_first() =~= v@.skip(j2 as int + 1));
                assert(parse_items(w) == Some((seq![sv@], r.drop_first())));
            }
            acc.push(title);
            proof {
                assert(acc.deep_view() =~= dv + seq![sv@]);
            }
            return Some((acc, j2 + 1));
        } else if j2 < v.len() && v[j2] == ',' {
            proof {
                assert(r[0] == v@[j2 as int]);
                assert(r.drop_first() =~= v@.skip(j2 as int + 1));
                assert(forall|t: Seq<Seq<char>>|
                    dv + (seq![sv@] + t) =~= (dv + seq![sv@]) + t);
            }
            acc.push(title);
            proof {
                assert(acc.deep_view() =~= dv + seq![sv@]);
            }
            cur = j2 + 1;
        } else {
            proof {
                assert(r.len() == 0 || (r[0] != ',' && r[0] != ']')) by {
                    if r.len() > 0 {
                        assert(r[0] == v@[j2 as int]);
                    }
                }
            }
            return None;
        }
    }
}

/// Reads the whole monitored list at position `i` of `v`.
fn parse_list_at(v: &Vec<char>, i: usize) -> (r: Option<(Vec<String>, usize)>)
    requires
        i <= v.len(),
    ensures
        match r {
            Some((l, j)) => {
                &&& i <= j <= v.len()
                &&& parse_list(v@.skip(i as int)) == Some((l.deep_view(), v@.skip(j as int)))
            },
            None => parse_list(v@.skip(i as int)) is None,
        },
{
    let ghost s = v@.skip(i as int);
    if !(i < v.len() && v[i] == '[') {
        return None;
    }
    proof {
        assert(s[0] == '[');
        assert(s.drop_first() =~= v@.skip(i as int + 1));
    }
    if i + 1 < v.len() && v[i + 1] == ']' {
        proof {
            assert(s.drop_first()[0] == v@[i as int + 1]);
            assert(s.drop_first().drop_first() =~= v@.skip(i as int + 2));
        }
        let l: Vec<String> = Vec::new();
        proof {
            assert(l.deep_view() =~= Seq::<Seq<char>>::empty());
        }
        return Some((l, i + 2));
    }
    proof {
        if s.drop_first().len() > 0 {
            assert(s.drop_first()[0] == v@[i as int + 1]);
        }
    }
    parse_items_at(v, i + 1)
}

/// Reads a whole record from `v`; fails unless the text is exactly one
/// record.
fn parse_config_chars(v: &Vec<char>) -> (r: Option<WindowConfig>)
    ensures
        match r {
            Some(c) => parse_config(v@) == Some(c@),
            None => parse_config(v@) is None,
        },
{
    proof {
        assert(v@.skip(0) =~= v@);
    }
    let j1 = match expect_at(v, 0, "{\"monitored_windows\":") {
        Some(j) => j,
        None => {
            return None;
        },
    };
    proof {
        assert(v@.skip(0).skip("{\"monitored_windows\":"@.len() as int) =~= v@.skip(j1 as int));
    }
    let (mw, j2) = match parse_list_at(v, j1) {
        Some(p) => p,
        None => {
            return None;
        },
    };
    let j3 = match expect_at(v, j2, ",\"auto_hide_delay\":") {
        Some(j) => j,
        None => {
            return None;
        },
    };
    proof {
        assert(v@.skip(j2 as int).skip(",\"auto_hide_delay\":"@.len() as int) =~= v@.skip(
            j3 as int,
        ));
    }
    let (delay, j4) = match parse_u64_at(v, j3) {
        Some(p) => p,
        None => {
            return None;
        },
    };
    let j5 = match expect_at(v, j4, ",\"main_window_position\":") {
        Some(j) => j,
        None => {
            return None;
        },
    };
    proof {
        assert(v@.skip(j4 as int).skip(",\"main_window_position\":"@.len() as int) =~= v@.skip(
            j5 as int,
        ));
    }
    let (mp, j6) = match parse_opt_pos_at(v, j5) {
        Some(p) => p,
        None => {
            return None;
        },
    };
    let j7 = match expect_at(v, j6, ",\"preference_window_position\":") {
        Some(j) => j,
        None => {
            return None;
        },
    };
    proof {
        assert(v@.skip(j6 as int).skip(",\"preference_window_position\":"@.len() as int)
            =~= v@.skip(j7 as int));
    }
    let (pp, j8) = match parse_opt_pos_at(v, j7) {
        Some(p) => p,
        None => {
            return None;
        },
    };
    let j9 = match expect_at(v, j8, ",\"dark_mode\":") {
        Some(j) => j,
        None => {
            return None;
        },
    };
    proof {
        assert(v@.skip(j8 as int).skip(",\"dark_mode\":"@.len() as int) =~= v@.skip(j9 as int));
    }
    let (dk, j10) = match parse_bool_at(v, j9) {
        Some(p) => p,
        None => {
            return None;
        },
    };
    let j11 = match expect_at(v, j10, "}") {
        Some(j) => j,
        None => {
            return None;
        },
    };
    proof {
        assert(v@.skip(j10 as int).skip("}"@.len() as int) =~= v@.skip(j11 as int));
    }
    if j11 != v.len() {
        proof {
            assert(v@.skip(j11 as int).len() > 0);
        }
        return None;
    }
    let c = WindowConfig {
        monitored_windows: mw,
        auto_hide_delay: delay,
        main_window_position: mp,
        preference_window_position: pp,
        dark_mode: dk,
    };
    proof {
        assert(v@.skip(j11 as int).len() == 0);
        assert(parse_config(v@) == Some(c@));
    }
    Some(c)
}

/// Reads a record from file text, as [`parse_config`] describes.
pub fn config_from_json(s: &str) -> (r: Option<WindowConfig>)
    ensures
        match r {
            Some(c) => parse_config(s@) == Some(c@),
            None => parse_config(s@) is None,
        },
{
    let v = chars_of_str(s);
    parse_config_chars(&v)
}

/// What loading yields from what the backing file held: the record the
/// text carries, or the default record when there was no file or its
/// text is not exactly one record.
pub fn load_config_from_content(content: Option<&str>) -> (c: WindowConfig)
    ensures
        match content {
            Some(s) => match parse_config(s@) {
                Some(cv) => c@ == cv,
                None => c@ == crate::config::default_config(),
            },
            None => c@ == crate::config::default_config(),
        },
{
    match content {
        Some(s) => match config_from_json(s) {
            Some(c) => c,
            None => WindowConfig::default(),
        },
        None => WindowConfig::default(),
    }
}

} // verus!
