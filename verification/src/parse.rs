//! The JSON parser: a spec-level grammar over character sequences, and an
//! executable recursive-descent parser proven to return exactly what the
//! grammar says.
//!
//! The grammar functions consume from the front of a sequence and hand back
//! the value together with the unconsumed remainder. Number literals are
//! lexed leniently: any run of number characters is taken as the lexeme, and
//! the schema layer above reads digits where a numeric field is expected.

use vstd::prelude::*;

use crate::json::Json;
use crate::json::JsonM;
use crate::json::jview;
use crate::json::jview_seq;
use crate::json::jview_members;

verus! {

pub open spec fn is_ws(c: char) -> bool {
    c == ' ' || c == '\n' || c == '\t' || c == '\r'
}

pub open spec fn skip_ws(s: Seq<char>) -> Seq<char>
    decreases s.len(),
{
    if s.len() > 0 && is_ws(s[0]) {
        skip_ws(s.skip(1))
    } else {
        s
    }
}

/// The value of a hexadecimal digit, either case; `-1` for any other
/// character.
pub open spec fn hex_val(c: char) -> int {
    let n = c as u32;
    if 0x30 <= n && n <= 0x39 {
        n - 0x30
    } else if 0x41 <= n && n <= 0x46 {
        n - 0x41 + 10
    } else if 0x61 <= n && n <= 0x66 {
        n - 0x61 + 10
    } else {
        -1
    }
}

/// The value of the four hexadecimal digits at `k`; `-1` if any is not a
/// digit. The caller checks that the range is in bounds.
pub open spec fn hex4(s: Seq<char>, k: int) -> int {
    if hex_val(s[k]) >= 0 && hex_val(s[k + 1]) >= 0 && hex_val(s[k + 2]) >= 0 && hex_val(s[k + 3]) >= 0 {
        hex_val(s[k]) * 0x1000 + hex_val(s[k + 1]) * 0x100 + hex_val(s[k + 2]) * 16 + hex_val(s[k + 3])
    } else {
        -1
    }
}

/// The plain character for a one-letter escape, if the letter is one of the
/// eight short escapes.
pub open spec fn unescape_short(c: char) -> Option<char> {
    if c == '"' {
        Some('"')
    } else if c == '\\' {
        Some('\\')
    } else if c == '/' {
        Some('/')
    } else if c == 'b' {
        Some('\u{8}')
    } else if c == 'f' {
        Some('\u{c}')
    } else if c == 'n' {
        Some('\n')
    } else if c == 'r' {
        Some('\r')
    } else if c == 't' {
        Some('\t')
    } else {
        None
    }
}

/// String content after the opening quote: characters up to the closing
/// quote, escapes decoded, surrogate escape pairs combined. Unescaped control
/// characters and lone surrogate escapes are refused.
pub open spec fn parse_str_body(s: Seq<char>) -> Option<(Seq<char>, Seq<char>)>
    decreases s.len(),
{
    if s.len() == 0 {
        None
    } else if s[0] == '"' {
        Some((Seq::empty(), s.skip(1)))
    } else if s[0] == '\\' {
        if s.len() < 2 {
            None
        } else if s[1] == 'u' {
            if s.len() < 6 {
                None
            } else {
                let h = hex4(s, 2);
                if h < 0 {
                    None
                } else if 0xD800 <= h && h < 0xDC00 {
                    if s.len() < 12 || s[6] != '\\' || s[7] != 'u' {
                        None
                    } else {
                        let l = hex4(s, 8);
                        if !(0xDC00 <= l && l < 0xE000) {
                            None
                        } else {
                            let c = 0x10000 + (h - 0xD800) * 0x400 + (l - 0xDC00);
                            match parse_str_body(s.skip(12)) {
                                Some((cs, r)) => Some((seq![(c as u32) as char] + cs, r)),
                                None => None,
                            }
                        }
                    }
                } else if 0xDC00 <= h && h < 0xE000 {
                    None
                } else {
                    match parse_str_body(s.skip(6)) {
                        Some((cs, r)) => Some((seq![(h as u32) as char] + cs, r)),
                        None => None,
                    }
                }
            }
        } else {
            match unescape_short(s[1]) {
                None => None,
                Some(c) => match parse_str_body(s.skip(2)) {
                    Some((cs, r)) => Some((seq![c] + cs, r)),
                    None => None,
                },
            }
        }
    } else if (s[0] as u32) < 0x20 {
        None
    } else {
        match parse_str_body(s.skip(1)) {
            Some((cs, r)) => Some((seq![s[0]] + cs, r)),
            None => None,
        }
    }
}

/// A character that may stand in a number literal.
pub open spec fn is_num_char(c: char) -> bool {
    let n = c as u32;
    (0x30 <= n && n <= 0x39) || c == '-' || c == '+' || c == '.' || c == 'e' || c == 'E'
}

/// A character that may start a number literal.
pub open spec fn is_num_start(c: char) -> bool {
    let n = c as u32;
    (0x30 <= n && n <= 0x39) || c == '-'
}

/// The length of the leading run of number characters.
pub open spec fn num_count(s: Seq<char>) -> nat
    decreases s.len(),
{
    if s.len() > 0 && is_num_char(s[0]) {
        1 + num_count(s.skip(1))
    } else {
        0
    }
}

/// A complete value, leading whitespace allowed. The length guards along the
/// way only serve the termination measure: each one compares a remainder
/// against the input it came from, and a remainder is never longer than its
/// input.
pub open spec fn parse_value(s: Seq<char>) -> Option<(JsonM, Seq<char>)>
    decreases s.len(), 0int,
{
    let t = skip_ws(s);
    if t.len() > s.len() {
        None
    } else if t.len() == 0 {
        None
    } else if t[0] == 'n' {
        if t.len() >= 4 && t[1] == 'u' && t[2] == 'l' && t[3] == 'l' {
            Some((JsonM::Null, t.skip(4)))
        } else {
            None
        }
    } else if t[0] == 't' {
        if t.len() >= 4 && t[1] == 'r' && t[2] == 'u' && t[3] == 'e' {
            Some((JsonM::Bool(true), t.skip(4)))
        } else {
            None
        }
    } else if t[0] == 'f' {
        if t.len() >= 5 && t[1] == 'a' && t[2] == 'l' && t[3] == 's' && t[4] == 'e' {
            Some((JsonM::Bool(false), t.skip(5)))
        } else {
            None
        }
    } else if t[0] == '"' {
        match parse_str_body(t.skip(1)) {
            Some((cs, r)) => Some((JsonM::Str(cs), r)),
            None => None,
        }
    } else if t[0] == '[' {
        match parse_items(t.skip(1)) {
            Some((vs, r)) => Some((JsonM::Arr(vs), r)),
            None => None,
        }
    } else if t[0] == '{' {
        match parse_members(t.skip(1)) {
            Some((ms, r)) => Some((JsonM::Obj(ms), r)),
            None => None,
        }
    } else if is_num_start(t[0]) {
        let n = num_count(t);
        if n > t.len() {
            None
        } else {
            Some((JsonM::Num(t.take(n as int)), t.skip(n as int)))
        }
    } else {
        None
    }
}

/// The items of an array, after the opening bracket, closing bracket
/// consumed.
pub open spec fn parse_items(s: Seq<char>) -> Option<(Seq<JsonM>, Seq<char>)>
    decreases s.len(), 2int,
{
    let t = skip_ws(s);
    if t.len() > s.len() {
        None
    } else if t.len() == 0 {
        None
    } else if t[0] == ']' {
        Some((Seq::empty(), t.skip(1)))
    } else {
        parse_items_more(s)
    }
}

/// One or more array items separated by commas, then the closing bracket.
pub open spec fn parse_items_more(s: Seq<char>) -> Option<(Seq<JsonM>, Seq<char>)>
    decreases s.len(), 1int,
{
    let t = skip_ws(s);
    if t.len() > s.len() {
        None
    } else {
        match parse_value(t) {
            None => None,
            Some((v, r1)) => if r1.len() > s.len() {
                None
            } else {
                let u = skip_ws(r1);
                if u.len() > r1.len() {
                    None
                } else if u.len() == 0 {
                    None
                } else if u[0] == ']' {
                    Some((seq![v], u.skip(1)))
                } else if u[0] == ',' {
                    match parse_items_more(u.skip(1)) {
                        Some((vs, r)) => Some((seq![v] + vs, r)),
                        None => None,
                    }
                } else {
                    None
                }
            },
        }
    }
}

/// The members of an object, after the opening brace, closing brace
/// consumed.
pub open spec fn parse_members(s: Seq<char>) -> Option<(Seq<(Seq<char>, JsonM)>, Seq<char>)>
    decreases s.len(), 2int,
{
    let t = skip_ws(s);
    if t.len() > s.len() {
        None
    } else if t.len() == 0 {
        None
    } else if t[0] == '}' {
        Some((Seq::empty(), t.skip(1)))
    } else {
        parse_members_more(s)
    }
}

/// One or more `"key": value` members separated by commas, then the closing
/// brace.
pub open spec fn parse_members_more(s: Seq<char>) -> Option<(Seq<(Seq<char>, JsonM)>, Seq<char>)>
    decreases s.len(), 1int,
{
    let t = skip_ws(s);
    if t.len() > s.len() {
        None
    } else if t.len() == 0 {
        None
    } else if t[0] != '"' {
        None
    } else {
        match parse_str_body(t.skip(1)) {
            None => None,
            Some((k, r1)) => if r1.len() > s.len() {
                None
            } else {
                let u = skip_ws(r1);
                if u.len() > r1.len() {
                    None
                } else if u.len() == 0 || u[0] != ':' {
                    None
                } else {
                    match parse_value(u.skip(1)) {
                        None => None,
                        Some((v, r2)) => if r2.len() > s.len() {
                            None
                        } else {
                            let u2 = skip_ws(r2);
                            if u2.len() > r2.len() {
                                None
                            } else if u2.len() == 0 {
                                None
                            } else if u2[0] == '}' {
                                Some((seq![(k, v)], u2.skip(1)))
                            } else if u2[0] == ',' {
                                match parse_members_more(u2.skip(1)) {
                                    Some((ms, r)) => Some((seq![(k, v)] + ms, r)),
                                    None => None,
                                }
                            } else {
                                None
                            }
                        },
                    }
                }
            },
        }
    }
}

/// A whole document: one value with nothing but whitespace around it.
pub open spec fn parse_document(s: Seq<char>) -> Option<JsonM> {
    match parse_value(s) {
        None => None,
        Some((j, rest)) => if skip_ws(rest).len() == 0 {
            Some(j)
        } else {
            None
        },
    }
}

// ------------------------------------------------------------------
// The executable parser. Each function mirrors its grammar function and
// returns exactly what the grammar says, with the remainder as an index.
// ------------------------------------------------------------------

fn skip_ws_x(s: &Vec<char>, i: usize) -> (j: usize)
    requires
        i <= s@.len(),
    ensures
        i <= j <= s@.len(),
        skip_ws(s@.skip(i as int)) == s@.skip(j as int),
{
    let n = s.len();
    let mut j: usize = i;
    while j < n && (s[j] == ' ' || s[j] == '\n' || s[j] == '\t' || s[j] == '\r')
        invariant
            i <= j <= n,
            n == s@.len(),
            skip_ws(s@.skip(i as int)) == skip_ws(s@.skip(j as int)),
        decreases n - j,
    {
        proof {
            assert(s@.skip(j as int)[0] == s@[j as int]);
            assert(s@.skip(j as int).skip(1) =~= s@.skip(j + 1));
        }
        j = j + 1;
    }
    proof {
        assert(skip_ws(s@.skip(j as int)) == s@.skip(j as int));
    }
    j
}

fn hex_val_x(c: char) -> (r: Option<u8>)
    ensures
        match r {
            Some(v) => v < 16 && hex_val(c) == v as int,
            None => hex_val(c) == -1,
        },
{
    let n = c as u32;
    if 0x30 <= n && n <= 0x39 {
        Some((n - 0x30) as u8)
    } else if 0x41 <= n && n <= 0x46 {
        Some((n - 0x41 + 10) as u8)
    } else if 0x61 <= n && n <= 0x66 {
        Some((n - 0x61 + 10) as u8)
    } else {
        None
    }
}

fn hex4_x(s: &Vec<char>, k: usize) -> (r: Option<u16>)
    requires
        k + 4 <= s@.len(),
    ensures
        match r {
            Some(v) => hex4(s@, k as int) == v as int,
            None => hex4(s@, k as int) < 0,
        },
{
    let n = s.len();
    let d0 = match hex_val_x(s[k]) {
        Some(v) => v,
        None => {
            return None;
        },
    };
    let d1 = match hex_val_x(s[k + 1]) {
        Some(v) => v,
        None => {
            return None;
        },
    };
    let d2 = match hex_val_x(s[k + 2]) {
        Some(v) => v,
        None => {
            return None;
        },
    };
    let d3 = match hex_val_x(s[k + 3]) {
        Some(v) => v,
        None => {
            return None;
        },
    };
    Some((d0 as u16) * 0x1000 + (d1 as u16) * 0x100 + (d2 as u16) * 16 + (d3 as u16))
}

fn unescape_short_x(c: char) -> (r: Option<char>)
    ensures
        r == unescape_short(c),
{
    if c == '"' {
        Some('"')
    } else if c == '\\' {
        Some('\\')
    } else if c == '/' {
        Some('/')
    } else if c == 'b' {
        Some('\u{8}')
    } else if c == 'f' {
        Some('\u{c}')
    } else if c == 'n' {
        Some('\n')
    } else if c == 'r' {
        Some('\r')
    } else if c == 't' {
        Some('\t')
    } else {
        None
    }
}

/// Relies on `char::from_u32`: `Some` exactly for values that are Unicode
/// scalar values, and the returned character has the given value.
#[verifier::external_body]
fn char_of_u32(x: u32) -> (r: Option<char>)
    ensures
        r is Some <==> (x < 0xD800 || (0xE000 <= x && x <= 0x10FFFF)),
        r matches Some(c) ==> c as u32 == x,
{
    char::from_u32(x)
}

#[verifier::rlimit(100)]
fn parse_str_body_x(s: &Vec<char>, i: usize) -> (r: Option<(Vec<char>, usize)>)
    requires
        i <= s@.len(),
    ensures
        match r {
            Some(p) => i <= p.1 <= s@.len() && parse_str_body(s@.skip(i as int)) == Some(
                (p.0@, s@.skip(p.1 as int)),
            ),
            None => parse_str_body(s@.skip(i as int)) is None,
        },
    decreases s@.len() - i,
{
    let ghost srem = s@.skip(i as int);
    let n = s.len();
    if i == n {
        return None;
    }
    let c = s[i];
    proof {
        assert(srem[0] == s@[i as int]);
        assert(srem.skip(1) =~= s@.skip(i + 1));
    }
    if c == '"' {
        let cs: Vec<char> = Vec::new();
        proof {
            assert(cs@ =~= Seq::<char>::empty());
        }
        return Some((cs, i + 1));
    }
    if c == '\\' {
        if n - i < 2 {
            return None;
        }
        let e = s[i + 1];
        proof {
            assert(srem[1] == s@[i + 1]);
        }
        if e == 'u' {
            if n - i < 6 {
                return None;
            }
            proof {
                assert(srem[2] == s@[i + 2]);
                assert(srem[3] == s@[i + 3]);
                assert(srem[4] == s@[i + 4]);
                assert(srem[5] == s@[i + 5]);
                assert(hex4(srem, 2) == hex4(s@, i + 2));
            }
            let h = match hex4_x(s, i + 2) {
                Some(v) => v,
                None => {
                    return None;
                },
            };
            if 0xD800 <= h && h < 0xDC00 {
                if n - i < 12 {
                    return None;
                }
                proof {
                    assert(srem[6] == s@[i + 6]);
                    assert(srem[7] == s@[i + 7]);
                }
                if !(s[i + 6] == '\\' && s[i + 7] == 'u') {
                    return None;
                }
                proof {
                    assert(srem[8] == s@[i + 8]);
                    assert(srem[9] == s@[i + 9]);
                    assert(srem[10] == s@[i + 10]);
                    assert(srem[11] == s@[i + 11]);
                    assert(hex4(srem, 8) == hex4(s@, i + 8));
                }
                let l = match hex4_x(s, i + 8) {
                    Some(v) => v,
                    None => {
                        return None;
                    },
                };
                if !(0xDC00 <= l && l < 0xE000) {
                    return None;
                }
                let code: u32 = 0x10000 + ((h as u32) - 0xD800) * 0x400 + ((l as u32) - 0xDC00);
                let ch = match char_of_u32(code) {
                    Some(ch) => ch,
                    None => {
                        proof {
                            assert(false);
                        }
                        return None;
                    },
                };
                proof {
                    vstd::utf8::char_u32_cast(ch, code);
                    assert(srem.skip(12) =~= s@.skip(i + 12));
                }
                match parse_str_body_x(s, i + 12) {
                    None => {
                        return None;
                    },
                    Some((mut cs, end)) => {
                        let ghost tail = cs@;
                        cs.insert(0, ch);
                        proof {
                            assert(cs@ =~= seq![ch] + tail);
                        }
                        return Some((cs, end));
                    },
                }
            } else if 0xDC00 <= h && h < 0xE000 {
                return None;
            } else {
                let ch = match char_of_u32(h as u32) {
                    Some(ch) => ch,
                    None => {
                        proof {
                            assert(false);
                        }
                        return None;
                    },
                };
                proof {
                    vstd::utf8::char_u32_cast(ch, h as u32);
                    assert(srem.skip(6) =~= s@.skip(i + 6));
                }
                match parse_str_body_x(s, i + 6) {
                    None => {
                        return None;
                    },
                    Some((mut cs, end)) => {
                        let ghost tail = cs@;
                        cs.insert(0, ch);
                        proof {
                            assert(cs@ =~= seq![ch] + tail);
                        }
                        return Some((cs, end));
                    },
                }
            }
        } else {
            let d = match unescape_short_x(e) {
                Some(d) => d,
                None => {
                    return None;
                },
            };
            proof {
                assert(srem.skip(2) =~= s@.skip(i + 2));
            }
            match parse_str_body_x(s, i + 2) {
                None => {
                    return None;
                },
                Some((mut cs, end)) => {
                    let ghost tail = cs@;
                    cs.insert(0, d);
                    proof {
                        assert(cs@ =~= seq![d] + tail);
                    }
                    return Some((cs, end));
                },
            }
        }
    }
    if (c as u32) < 0x20 {
        return None;
    }
    match parse_str_body_x(s, i + 1) {
        None => None,
        Some((mut cs, end)) => {
            let ghost tail = cs@;
            cs.insert(0, c);
            proof {
                assert(cs@ =~= seq![c] + tail);
            }
            Some((cs, end))
        },
    }
}

fn is_num_char_x(c: char) -> (r: bool)
    ensures
        r == is_num_char(c),
{
    let u = c as u32;
    (0x30 <= u && u <= 0x39) || c == '-' || c == '+' || c == '.' || c == 'e' || c == 'E'
}

fn num_scan_x(s: &Vec<char>, i: usize) -> (j: usize)
    requires
        i <= s@.len(),
    ensures
        i <= j <= s@.len(),
        num_count(s@.skip(i as int)) == j - i,
{
    let n = s.len();
    let mut j: usize = i;
    while j < n && is_num_char_x(s[j])
        invariant
            i <= j <= n,
            n == s@.len(),
            num_count(s@.skip(i as int)) == (j - i) + num_count(s@.skip(j as int)),
        decreases n - j,
    {
        proof {
            assert(s@.skip(j as int)[0] == s@[j as int]);
            assert(s@.skip(j as int).skip(1) =~= s@.skip(j + 1));
        }
        j = j + 1;
    }
    proof {
        assert(num_count(s@.skip(j as int)) == 0);
    }
    j
}

#[verifier::rlimit(100)]
pub fn parse_value_x(s: &Vec<char>, i: usize) -> (r: Option<(Json, usize)>)
    requires
        i <= s@.len(),
    ensures
        match r {
            Some(p) => i <= p.1 <= s@.len() && parse_value(s@.skip(i as int)) == Some(
                (jview(p.0), s@.skip(p.1 as int)),
            ),
            None => parse_value(s@.skip(i as int)) is None,
        },
    decreases s@.len() - i, 0int,
{
    let ghost srem = s@.skip(i as int);
    let t = skip_ws_x(s, i);
    let ghost trem = s@.skip(t as int);
    let n = s.len();
    if t == n {
        return None;
    }
    let c = s[t];
    proof {
        assert(trem[0] == s@[t as int]);
    }
    if c == 'n' {
        if n - t >= 4 && s[t + 1] == 'u' && s[t + 2] == 'l' && s[t + 3] == 'l' {
            proof {
                assert(trem[1] == s@[t + 1]);
                assert(trem[2] == s@[t + 2]);
                assert(trem[3] == s@[t + 3]);
                assert(trem.skip(4) =~= s@.skip(t + 4));
            }
            Some((Json::Null, t + 4))
        } else {
            proof {
                if trem.len() >= 4 {
                    assert(trem[1] == s@[t + 1]);
                    assert(trem[2] == s@[t + 2]);
                    assert(trem[3] == s@[t + 3]);
                }
            }
            None
        }
    } else if c == 't' {
        if n - t >= 4 && s[t + 1] == 'r' && s[t + 2] == 'u' && s[t + 3] == 'e' {
            proof {
                assert(trem[1] == s@[t + 1]);
                assert(trem[2] == s@[t + 2]);
                assert(trem[3] == s@[t + 3]);
                assert(trem.skip(4) =~= s@.skip(t + 4));
            }
            Some((Json::Bool(true), t + 4))
        } else {
            proof {
                if trem.len() >= 4 {
                    assert(trem[1] == s@[t + 1]);
                    assert(trem[2] == s@[t + 2]);
                    assert(trem[3] == s@[t + 3]);
                }
            }
            None
        }
    } else if c == 'f' {
        if n - t >= 5 && s[t + 1] == 'a' && s[t + 2] == 'l' && s[t + 3] == 's' && s[t + 4] == 'e' {
            proof {
                assert(trem[1] == s@[t + 1]);
                assert(trem[2] == s@[t + 2]);
                assert(trem[3] == s@[t + 3]);
                assert(trem[4] == s@[t + 4]);
                assert(trem.skip(5) =~= s@.skip(t + 5));
            }
            Some((Json::Bool(false), t + 5))
        } else {
            proof {
                if trem.len() >= 5 {
                    assert(trem[1] == s@[t + 1]);
                    assert(trem[2] == s@[t + 2]);
                    assert(trem[3] == s@[t + 3]);
                    assert(trem[4] == s@[t + 4]);
                }
            }
            None
        }
    } else if c == '"' {
        proof {
            assert(trem.skip(1) =~= s@.skip(t + 1));
        }
        match parse_str_body_x(s, t + 1) {
            None => None,
            Some((cs, end)) => {
                let text = crate::json::string_of(&cs);
                Some((Json::Str(text), end))
            },
        }
    } else if c == '[' {
        proof {
            assert(trem.skip(1) =~= s@.skip(t + 1));
        }
        match parse_items_x(s, t + 1) {
            None => None,
            Some((vs, end)) => Some((Json::Arr(vs), end)),
        }
    } else if c == '{' {
        proof {
            assert(trem.skip(1) =~= s@.skip(t + 1));
        }
        match parse_members_x(s, t + 1) {
            None => None,
            Some((ms, end)) => Some((Json::Obj(ms), end)),
        }
    } else {
        let u = c as u32;
        if (0x30 <= u && u <= 0x39) || c == '-' {
            let j = num_scan_x(s, t);
            let cnt = j - t;
            let mut lex: Vec<char> = Vec::new();
            let mut k: usize = t;
            while k < j
                invariant
                    t <= k <= j <= n,
                    n == s@.len(),
                    lex@ == s@.subrange(t as int, k as int),
                decreases j - k,
            {
                lex.push(s[k]);
                proof {
                    assert(s@.subrange(t as int, k + 1) =~= s@.subrange(t as int, k as int).push(
                        s@[k as int],
                    ));
                }
                k = k + 1;
            }
            proof {
                assert(trem.take(cnt as int) =~= s@.subrange(t as int, j as int));
                assert(trem.skip(cnt as int) =~= s@.skip(j as int));
            }
            let text = crate::json::string_of(&lex);
            Some((Json::Num(text), j))
        } else {
            None
        }
    }
}

fn parse_items_x(s: &Vec<char>, i: usize) -> (r: Option<(Vec<Json>, usize)>)
    requires
        i <= s@.len(),
    ensures
        match r {
            Some(p) => i <= p.1 <= s@.len() && parse_items(s@.skip(i as int)) == Some(
                (jview_seq(p.0@), s@.skip(p.1 as int)),
            ),
            None => parse_items(s@.skip(i as int)) is None,
        },
    decreases s@.len() - i, 2int,
{
    let t = skip_ws_x(s, i);
    let ghost trem = s@.skip(t as int);
    let n = s.len();
    if t == n {
        return None;
    }
    proof {
        assert(trem[0] == s@[t as int]);
    }
    if s[t] == ']' {
        let vs: Vec<Json> = Vec::new();
        proof {
            assert(jview_seq(vs@) =~= Seq::<JsonM>::empty());
            assert(trem.skip(1) =~= s@.skip(t + 1));
        }
        Some((vs, t + 1))
    } else {
        parse_items_more_x(s, i)
    }
}

fn parse_items_more_x(s: &Vec<char>, i: usize) -> (r: Option<(Vec<Json>, usize)>)
    requires
        i <= s@.len(),
    ensures
        match r {
            Some(p) => i <= p.1 <= s@.len() && parse_items_more(s@.skip(i as int)) == Some(
                (jview_seq(p.0@), s@.skip(p.1 as int)),
            ),
            None => parse_items_more(s@.skip(i as int)) is None,
        },
    decreases s@.len() - i, 1int,
{
    let t = skip_ws_x(s, i);
    match parse_value_x(s, t) {
        None => None,
        Some((v, r1)) => {
            let u = skip_ws_x(s, r1);
            let n = s.len();
            if u == n {
                return None;
            }
            proof {
                assert(s@.skip(u as int)[0] == s@[u as int]);
            }
            if s[u] == ']' {
                let mut vs: Vec<Json> = Vec::new();
                vs.push(v);
                proof {
                    assert(vs@ =~= seq![v]);
                    assert(vs@.skip(1) =~= Seq::<Json>::empty());
                    assert(jview_seq(Seq::<Json>::empty()) =~= Seq::<JsonM>::empty());
                    assert(jview_seq(vs@) == seq![jview(vs@[0])] + jview_seq(vs@.skip(1)));
                    assert(jview_seq(vs@) =~= seq![jview(v)]);
                    assert(s@.skip(u as int).skip(1) =~= s@.skip(u + 1));
                }
                Some((vs, u + 1))
            } else if s[u] == ',' {
                proof {
                    assert(s@.skip(u as int).skip(1) =~= s@.skip(u + 1));
                }
                match parse_items_more_x(s, u + 1) {
                    None => None,
                    Some((mut vs, end)) => {
                        let ghost tail = vs@;
                        vs.insert(0, v);
                        proof {
                            assert(vs@ =~= seq![v] + tail);
                            assert(vs@[0] == v);
                            assert(vs@.skip(1) =~= tail);
                            assert(jview_seq(vs@) == seq![jview(vs@[0])] + jview_seq(vs@.skip(1)));
                            assert(jview_seq(vs@) =~= seq![jview(v)] + jview_seq(tail));
                        }
                        Some((vs, end))
                    },
                }
            } else {
                None
            }
        },
    }
}

fn parse_members_x(s: &Vec<char>, i: usize) -> (r: Option<(Vec<(String, Json)>, usize)>)
    requires
        i <= s@.len(),
    ensures
        match r {
            Some(p) => i <= p.1 <= s@.len() && parse_members(s@.skip(i as int)) == Some(
                (jview_members(p.0@), s@.skip(p.1 as int)),
            ),
            None => parse_members(s@.skip(i as int)) is None,
        },
    decreases s@.len() - i, 2int,
{
    let t = skip_ws_x(s, i);
    let ghost trem = s@.skip(t as int);
    let n = s.len();
    if t == n {
        return None;
    }
    proof {
        assert(trem[0] == s@[t as int]);
    }
    if s[t] == '}' {
        let ms: Vec<(String, Json)> = Vec::new();
        proof {
            assert(jview_members(ms@) =~= Seq::<(Seq<char>, JsonM)>::empty());
            assert(trem.skip(1) =~= s@.skip(t + 1));
        }
        Some((ms, t + 1))
    } else {
        parse_members_more_x(s, i)
    }
}

#[verifier::rlimit(60)]
fn parse_members_more_x(s: &Vec<char>, i: usize) -> (r: Option<(Vec<(String, Json)>, usize)>)
    requires
        i <= s@.len(),
    ensures
        match r {
            Some(p) => i <= p.1 <= s@.len() && parse_members_more(s@.skip(i as int)) == Some(
                (jview_members(p.0@), s@.skip(p.1 as int)),
            ),
            None => parse_members_more(s@.skip(i as int)) is None,
        },
    decreases s@.len() - i, 1int,
{
    let t = skip_ws_x(s, i);
    let ghost trem = s@.skip(t as int);
    let n = s.len();
    if t == n {
        return None;
    }
    proof {
        assert(trem[0] == s@[t as int]);
    }
    if !(s[t] == '"') {
        return None;
    }
    proof {
        assert(trem.skip(1) =~= s@.skip(t + 1));
    }
    match parse_str_body_x(s, t + 1) {
        None => None,
        Some((kcs, r1)) => {
            let u = skip_ws_x(s, r1);
            if u == n {
                return None;
            }
            proof {
                assert(s@.skip(u as int)[0] == s@[u as int]);
            }
            if !(s[u] == ':') {
                return None;
            }
            proof {
                assert(s@.skip(u as int).skip(1) =~= s@.skip(u + 1));
            }
            match parse_value_x(s, u + 1) {
                None => None,
                Some((v, r2)) => {
                    let u2 = skip_ws_x(s, r2);
                    if u2 == n {
                        return None;
                    }
                    proof {
                        assert(s@.skip(u2 as int)[0] == s@[u2 as int]);
                    }
                    let key = crate::json::string_of(&kcs);
                    if s[u2] == '}' {
                        let ghost kv = (kcs@, jview(v));
                        let mut ms: Vec<(String, Json)> = Vec::new();
                        ms.push((key, v));
                        proof {
                            assert(ms@.len() == 1);
                            assert(ms@[0].0 == key);
                            assert(ms@[0].1 == v);
                            assert(ms@.skip(1) =~= Seq::<(String, Json)>::empty());
                            assert(jview_members(Seq::<(String, Json)>::empty())
                                =~= Seq::<(Seq<char>, JsonM)>::empty());
                            assert(jview_members(ms@) == seq![(ms@[0].0@, jview(ms@[0].1))]
                                + jview_members(ms@.skip(1)));
                            assert(jview_members(ms@) =~= seq![kv]);
                            assert(s@.skip(u2 as int).skip(1) =~= s@.skip(u2 + 1));
                        }
                        Some((ms, u2 + 1))
                    } else if s[u2] == ',' {
                        proof {
                            assert(s@.skip(u2 as int).skip(1) =~= s@.skip(u2 + 1));
                        }
                        match parse_members_more_x(s, u2 + 1) {
                            None => None,
                            Some((mut ms, end)) => {
                                let ghost kv = (kcs@, jview(v));
                                let ghost tail = ms@;
                                ms.insert(0, (key, v));
                                proof {
                                    assert(ms@.len() == tail.len() + 1);
                                    assert(ms@[0].0 == key);
                                    assert(ms@[0].1 == v);
                                    assert(ms@.skip(1) =~= tail);
                                    assert(jview_members(ms@) == seq![(ms@[0].0@, jview(ms@[0].1))]
                                        + jview_members(ms@.skip(1)));
                                    assert(jview_members(ms@) =~= seq![kv] + jview_members(tail));
                                }
                                Some((ms, end))
                            },
                        }
                    } else {
                        None
                    }
                },
            }
        },
    }
}

/// Parses a whole document from text.
pub fn parse_json(s: &str) -> (r: Option<Json>)
    ensures
        match r {
            Some(j) => parse_document(s@) == Some(j@),
            None => parse_document(s@) is None,
        },
{
    let v = crate::json::chars_of(s);
    proof {
        assert(v@.skip(0) =~= s@);
    }
    match parse_value_x(&v, 0) {
        None => None,
        Some((j, end)) => {
            let t = skip_ws_x(&v, end);
            if t == v.len() {
                Some(j)
            } else {
                None
            }
        },
    }
}

} // verus!
