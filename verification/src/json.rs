//! A small JSON document model with a verified serializer and parser.
//!
//! The platform's wire format is JSON text. This module gives the library its
//! own document tree, `Json`, together with an exact mathematical model
//! (`JsonM`), a serializer whose output is pinned by a spec-level rendering
//! function, and a recursive-descent parser pinned by a spec-level grammar.
//! The schema layers above translate between this tree and the typed request
//! and response values.

use vstd::prelude::*;
use vstd::std_specs::iter::IteratorSpec;

verus! {

/// A JSON value. Objects keep their members in document order; duplicate keys
/// are kept verbatim here and resolved by the schema layer above.
///
/// Number literals are carried as their raw lexeme: the schema layer reads the
/// few numeric fields it needs as unsigned integers and never produces numbers
/// of its own, so no numeric interpretation is baked into the tree.
pub enum Json {
    Null,
    Bool(bool),
    Num(String),
    Str(String),
    Arr(Vec<Json>),
    Obj(Vec<(String, Json)>),
}

/// The mathematical model of a JSON value: `Json` with every string replaced
/// by its character sequence.
pub enum JsonM {
    Null,
    Bool(bool),
    Num(Seq<char>),
    Str(Seq<char>),
    Arr(Seq<JsonM>),
    Obj(Seq<(Seq<char>, JsonM)>),
}

pub open spec fn jview_seq(vs: Seq<Json>) -> Seq<JsonM>
    decreases vs,
{
    if vs.len() == 0 {
        Seq::empty()
    } else {
        seq![jview(vs[0])] + jview_seq(vs.skip(1))
    }
}

pub open spec fn jview_members(ms: Seq<(String, Json)>) -> Seq<(Seq<char>, JsonM)>
    decreases ms,
{
    if ms.len() == 0 {
        Seq::empty()
    } else {
        seq![(ms[0].0@, jview(ms[0].1))] + jview_members(ms.skip(1))
    }
}

pub open spec fn jview(j: Json) -> JsonM
    decreases j,
{
    match j {
        Json::Null => JsonM::Null,
        Json::Bool(b) => JsonM::Bool(b),
        Json::Num(s) => JsonM::Num(s@),
        Json::Str(s) => JsonM::Str(s@),
        Json::Arr(vs) => JsonM::Arr(jview_seq(vs@)),
        Json::Obj(ms) => JsonM::Obj(jview_members(ms@)),
    }
}

impl View for Json {
    type V = JsonM;

    open spec fn view(&self) -> JsonM {
        jview(*self)
    }
}

pub broadcast proof fn lemma_jview_seq_len(vs: Seq<Json>)
    ensures
        #[trigger] jview_seq(vs).len() == vs.len(),
    decreases vs,
{
    if vs.len() > 0 {
        lemma_jview_seq_len(vs.skip(1));
    }
}

pub broadcast proof fn lemma_jview_seq_index(vs: Seq<Json>, i: int)
    requires
        0 <= i < vs.len(),
    ensures
        #[trigger] jview_seq(vs)[i] == jview(vs[i]),
    decreases vs,
{
    lemma_jview_seq_len(vs);
    if i > 0 {
        lemma_jview_seq_index(vs.skip(1), i - 1);
    }
}

pub broadcast proof fn lemma_jview_members_len(ms: Seq<(String, Json)>)
    ensures
        #[trigger] jview_members(ms).len() == ms.len(),
    decreases ms,
{
    if ms.len() > 0 {
        lemma_jview_members_len(ms.skip(1));
    }
}

pub broadcast proof fn lemma_jview_members_index(ms: Seq<(String, Json)>, i: int)
    requires
        0 <= i < ms.len(),
    ensures
        #[trigger] jview_members(ms)[i] == (ms[i].0@, jview(ms[i].1)),
    decreases ms,
{
    lemma_jview_members_len(ms);
    if i > 0 {
        lemma_jview_members_index(ms.skip(1), i - 1);
    }
}

/// Trees the serializer is accountable for reading back: everything the
/// schema layer emits. Raw number lexemes are left out — the response model
/// never produces one, and an arbitrary lexeme has no canonical text.
pub open spec fn wf_json(j: JsonM) -> bool
    decreases j,
{
    match j {
        JsonM::Null => true,
        JsonM::Bool(_) => true,
        JsonM::Num(_) => false,
        JsonM::Str(_) => true,
        JsonM::Arr(vs) => wf_json_seq(vs),
        JsonM::Obj(ms) => wf_json_members(ms),
    }
}

pub open spec fn wf_json_seq(vs: Seq<JsonM>) -> bool
    decreases vs,
{
    vs.len() == 0 || (wf_json(vs[0]) && wf_json_seq(vs.skip(1)))
}

pub open spec fn wf_json_members(ms: Seq<(Seq<char>, JsonM)>) -> bool
    decreases ms,
{
    ms.len() == 0 || (wf_json(ms[0].1) && wf_json_members(ms.skip(1)))
}

/// Whether a `null` stands anywhere in the tree. The response renderer never
/// emits one: absent fields are omitted, not written as `null`.
pub open spec fn has_null(j: JsonM) -> bool
    decreases j,
{
    match j {
        JsonM::Null => true,
        JsonM::Bool(_) => false,
        JsonM::Num(_) => false,
        JsonM::Str(_) => false,
        JsonM::Arr(vs) => seq_has_null(vs),
        JsonM::Obj(ms) => members_has_null(ms),
    }
}

pub open spec fn seq_has_null(vs: Seq<JsonM>) -> bool
    decreases vs,
{
    vs.len() > 0 && (has_null(vs[0]) || seq_has_null(vs.skip(1)))
}

pub open spec fn members_has_null(ms: Seq<(Seq<char>, JsonM)>) -> bool
    decreases ms,
{
    ms.len() > 0 && (has_null(ms[0].1) || members_has_null(ms.skip(1)))
}

pub proof fn lemma_jview_members_push(v: Seq<(String, Json)>, p: (String, Json))
    ensures
        jview_members(v.push(p)) == jview_members(v).push((p.0@, jview(p.1))),
    decreases v,
{
    if v.len() == 0 {
        assert(v.push(p)[0] == p);
        assert(v.push(p).skip(1) =~= Seq::<(String, Json)>::empty());
        assert(jview_members(Seq::<(String, Json)>::empty()) =~= Seq::<(Seq<char>, JsonM)>::empty());
        assert(jview_members(v.push(p)) =~= seq![(p.0@, jview(p.1))]);
        assert(jview_members(v) =~= Seq::<(Seq<char>, JsonM)>::empty());
        assert(jview_members(v).push((p.0@, jview(p.1))) =~= seq![(p.0@, jview(p.1))]);
    } else {
        lemma_jview_members_push(v.skip(1), p);
        assert(v.push(p)[0] == v[0]);
        assert(v.push(p).skip(1) =~= v.skip(1).push(p));
        assert(jview_members(v.push(p)) == seq![(v[0].0@, jview(v[0].1))] + jview_members(
            v.skip(1).push(p),
        ));
        assert(jview_members(v) == seq![(v[0].0@, jview(v[0].1))] + jview_members(v.skip(1)));
        assert(seq![(v[0].0@, jview(v[0].1))] + jview_members(v.skip(1)).push((p.0@, jview(p.1)))
            =~= (seq![(v[0].0@, jview(v[0].1))] + jview_members(v.skip(1))).push((p.0@, jview(p.1))));
    }
}

pub proof fn lemma_jview_seq_push(v: Seq<Json>, x: Json)
    ensures
        jview_seq(v.push(x)) == jview_seq(v).push(jview(x)),
    decreases v,
{
    if v.len() == 0 {
        assert(v.push(x)[0] == x);
        assert(v.push(x).skip(1) =~= Seq::<Json>::empty());
        assert(jview_seq(Seq::<Json>::empty()) =~= Seq::<JsonM>::empty());
        assert(jview_seq(v.push(x)) =~= seq![jview(x)]);
        assert(jview_seq(v) =~= Seq::<JsonM>::empty());
        assert(jview_seq(v).push(jview(x)) =~= seq![jview(x)]);
    } else {
        lemma_jview_seq_push(v.skip(1), x);
        assert(v.push(x)[0] == v[0]);
        assert(v.push(x).skip(1) =~= v.skip(1).push(x));
        assert(jview_seq(v.push(x)) == seq![jview(v[0])] + jview_seq(v.skip(1).push(x)));
        assert(jview_seq(v) == seq![jview(v[0])] + jview_seq(v.skip(1)));
        assert(seq![jview(v[0])] + jview_seq(v.skip(1)).push(jview(x)) =~= (seq![jview(v[0])]
            + jview_seq(v.skip(1))).push(jview(x)));
    }
}

// ------------------------------------------------------------------
// Rendering: the spec-level picture of the exact text the serializer emits.
// ------------------------------------------------------------------

/// The hexadecimal digit for a value below sixteen, in lower case.
pub open spec fn hex_char(n: int) -> char {
    if n == 0 { '0' }
    else if n == 1 { '1' }
    else if n == 2 { '2' }
    else if n == 3 { '3' }
    else if n == 4 { '4' }
    else if n == 5 { '5' }
    else if n == 6 { '6' }
    else if n == 7 { '7' }
    else if n == 8 { '8' }
    else if n == 9 { '9' }
    else if n == 10 { 'a' }
    else if n == 11 { 'b' }
    else if n == 12 { 'c' }
    else if n == 13 { 'd' }
    else if n == 14 { 'e' }
    else { 'f' }
}

/// How one character of string content is written: quotes and backslashes get
/// a two-character escape, control characters a `\u00XX` escape, and every
/// other character stands for itself.
pub open spec fn escape_char(c: char) -> Seq<char> {
    if c == '"' {
        seq!['\\', '"']
    } else if c == '\\' {
        seq!['\\', '\\']
    } else if (c as u32) < 0x20 {
        seq!['\\', 'u', '0', '0', hex_char(c as u32 as int / 16), hex_char(c as u32 as int % 16)]
    } else {
        seq![c]
    }
}

pub open spec fn ser_str_content(s: Seq<char>) -> Seq<char>
    decreases s.len(),
{
    if s.len() == 0 {
        Seq::empty()
    } else {
        escape_char(s[0]) + ser_str_content(s.skip(1))
    }
}

/// A string literal: quoted, escaped content.
pub open spec fn ser_string(s: Seq<char>) -> Seq<char> {
    seq!['"'] + ser_str_content(s) + seq!['"']
}

/// The exact text of a serialized value. No whitespace is ever emitted.
pub open spec fn ser_value(j: JsonM) -> Seq<char>
    decreases j,
{
    match j {
        JsonM::Null => seq!['n', 'u', 'l', 'l'],
        JsonM::Bool(b) => if b {
            seq!['t', 'r', 'u', 'e']
        } else {
            seq!['f', 'a', 'l', 's', 'e']
        },
        JsonM::Num(s) => s,
        JsonM::Str(s) => ser_string(s),
        JsonM::Arr(vs) => seq!['['] + ser_items(vs) + seq![']'],
        JsonM::Obj(ms) => seq!['{'] + ser_members(ms) + seq!['}'],
    }
}

pub open spec fn ser_items(vs: Seq<JsonM>) -> Seq<char>
    decreases vs,
{
    if vs.len() == 0 {
        Seq::empty()
    } else if vs.len() == 1 {
        ser_value(vs[0])
    } else {
        ser_value(vs[0]) + seq![','] + ser_items(vs.skip(1))
    }
}

pub open spec fn ser_members(ms: Seq<(Seq<char>, JsonM)>) -> Seq<char>
    decreases ms,
{
    if ms.len() == 0 {
        Seq::empty()
    } else if ms.len() == 1 {
        ser_string(ms[0].0) + seq![':'] + ser_value(ms[0].1)
    } else {
        ser_string(ms[0].0) + seq![':'] + ser_value(ms[0].1) + seq![','] + ser_members(ms.skip(1))
    }
}

// ------------------------------------------------------------------
// The executable serializer.
// ------------------------------------------------------------------

/// Emits the escape (or the character itself) for one character of string
/// content.
fn write_escaped(out: &mut Vec<char>, c: char)
    ensures
        final(out)@ == old(out)@ + escape_char(c),
{
    if c == '"' {
        out.push('\\');
        out.push('"');
    } else if c == '\\' {
        out.push('\\');
        out.push('\\');
    } else if (c as u32) < 0x20 {
        let n = c as u32;
        out.push('\\');
        out.push('u');
        out.push('0');
        out.push('0');
        out.push(hex_digit((n / 16) as u8));
        out.push(hex_digit((n % 16) as u8));
    } else {
        out.push(c);
    }
    assert(final(out)@ =~= old(out)@ + escape_char(c));
}

fn hex_digit(n: u8) -> (r: char)
    requires
        n < 16,
    ensures
        r == hex_char(n as int),
{
    if n == 0 { '0' }
    else if n == 1 { '1' }
    else if n == 2 { '2' }
    else if n == 3 { '3' }
    else if n == 4 { '4' }
    else if n == 5 { '5' }
    else if n == 6 { '6' }
    else if n == 7 { '7' }
    else if n == 8 { '8' }
    else if n == 9 { '9' }
    else if n == 10 { 'a' }
    else if n == 11 { 'b' }
    else if n == 12 { 'c' }
    else if n == 13 { 'd' }
    else if n == 14 { 'e' }
    else { 'f' }
}

/// Writes a quoted, escaped string literal.
fn write_string(out: &mut Vec<char>, s: &String)
    ensures
        final(out)@ == old(out)@ + ser_string(s@),
{
    let chars = chars_of(s.as_str());
    out.push('"');
    let n = chars.len();
    let mut i: usize = 0;
    while i < n
        invariant
            n == chars.len(),
            chars@ == s@,
            i <= n,
            out@ == old(out)@ + seq!['"'] + ser_str_content(s@.take(i as int)),
        decreases n - i,
    {
        let c = chars[i];
        write_escaped(out, c);
        proof {
            lemma_ser_str_content_snoc(s@, i as int);
        }
        i = i + 1;
    }
    out.push('"');
    proof {
        assert(s@.take(n as int) =~= s@);
        assert(final(out)@ =~= old(out)@ + ser_string(s@));
    }
}

proof fn lemma_ser_str_content_snoc(s: Seq<char>, i: int)
    requires
        0 <= i < s.len(),
    ensures
        ser_str_content(s.take(i + 1)) == ser_str_content(s.take(i)) + escape_char(s[i]),
    decreases i,
{
    if i == 0 {
        assert(s.take(1).skip(1) =~= Seq::<char>::empty());
        assert(s.take(1)[0] == s[0]);
        assert(ser_str_content(Seq::<char>::empty()) == Seq::<char>::empty());
        assert(ser_str_content(s.take(1)) == escape_char(s[0]) + ser_str_content(Seq::<char>::empty()));
        assert(escape_char(s[0]) + Seq::<char>::empty() =~= escape_char(s[0]));
        assert(ser_str_content(s.take(0)) =~= Seq::<char>::empty());
        assert(ser_str_content(s.take(0)) + escape_char(s[0]) =~= escape_char(s[0]));
    } else {
        lemma_ser_str_content_snoc(s.skip(1), i - 1);
        assert(s.take(i + 1).skip(1) =~= s.skip(1).take(i));
        assert(s.take(i).skip(1) =~= s.skip(1).take(i - 1));
        assert(s.take(i + 1)[0] == s[0]);
        assert(s.take(i)[0] == s[0]);
        assert(s.skip(1)[i - 1] == s[i]);
        assert(ser_str_content(s.take(i + 1)) == escape_char(s[0]) + ser_str_content(s.skip(1).take(i)));
        assert(ser_str_content(s.take(i)) == escape_char(s[0]) + ser_str_content(s.skip(1).take(i - 1)));
        assert(escape_char(s[0]) + (ser_str_content(s.skip(1).take(i - 1)) + escape_char(s[i]))
            =~= (escape_char(s[0]) + ser_str_content(s.skip(1).take(i - 1))) + escape_char(s[i]));
    }
}

/// Serializes a value, appending its exact rendering to `out`.
#[verifier::loop_isolation(false)]
#[verifier::rlimit(60)]
pub fn write_value(out: &mut Vec<char>, j: &Json)
    ensures
        final(out)@ == old(out)@ + ser_value(j@),
    decreases *j,
{
    match j {
        Json::Null => {
            out.push('n');
            out.push('u');
            out.push('l');
            out.push('l');
            assert(final(out)@ =~= old(out)@ + ser_value(j@));
        },
        Json::Bool(b) => {
            if *b {
                out.push('t');
                out.push('r');
                out.push('u');
                out.push('e');
            } else {
                out.push('f');
                out.push('a');
                out.push('l');
                out.push('s');
                out.push('e');
            }
            assert(final(out)@ =~= old(out)@ + ser_value(j@));
        },
        Json::Num(s) => {
            let chars = chars_of(s.as_str());
            let n = chars.len();
            let mut i: usize = 0;
            while i < n
                invariant
                    n == chars.len(),
                    chars@ == s@,
                    i <= n,
                    out@ == old(out)@ + s@.take(i as int),
                decreases n - i,
            {
                out.push(chars[i]);
                proof {
                    assert(s@.take(i + 1) =~= s@.take(i as int).push(s@[i as int]));
                }
                i = i + 1;
            }
            assert(s@.take(n as int) =~= s@);
            assert(final(out)@ =~= old(out)@ + ser_value(j@));
        },
        Json::Str(s) => {
            write_string(out, s);
        },
        Json::Arr(vs) => {
            out.push('[');
            let n = vs.len();
            let mut i: usize = 0;
            while i < n
                invariant
                    n == vs.len(),
                    i <= n,
                    out@ == old(out)@ + seq!['['] + ser_items_take(vs@, i as int),
                decreases n - i,
            {
                if i > 0 {
                    out.push(',');
                }
                proof {
                    assert(vs@ == j->Arr_0@);
                    assert(decreases_to!(*j => j->Arr_0));
                    assert(decreases_to!(j->Arr_0 => j->Arr_0@));
                    assert(decreases_to!(j->Arr_0@ => j->Arr_0@[i as int]));
                }
                write_value(out, &vs[i]);
                proof {
                    lemma_ser_items_take_snoc(vs@, i as int);
                    lemma_jview_seq_index(vs@, i as int);
                }
                i = i + 1;
            }
            out.push(']');
            proof {
                lemma_ser_items_take_all(vs@);
                assert(final(out)@ =~= old(out)@ + ser_value(j@));
            }
        },
        Json::Obj(ms) => {
            out.push('{');
            let n = ms.len();
            let mut i: usize = 0;
            while i < n
                invariant
                    n == ms.len(),
                    i <= n,
                    out@ == old(out)@ + seq!['{'] + ser_members_take(ms@, i as int),
                decreases n - i,
            {
                if i > 0 {
                    out.push(',');
                }
                write_string(out, &ms[i].0);
                out.push(':');
                proof {
                    assert(ms@ == j->Obj_0@);
                    assert(decreases_to!(*j => j->Obj_0));
                    assert(decreases_to!(j->Obj_0 => j->Obj_0@));
                    assert(decreases_to!(j->Obj_0@ => j->Obj_0@[i as int]));
                    assert(decreases_to!(j->Obj_0@[i as int] => j->Obj_0@[i as int].1));
                }
                write_value(out, &ms[i].1);
                proof {
                    lemma_ser_members_take_snoc(ms@, i as int);
                    lemma_jview_members_index(ms@, i as int);
                }
                i = i + 1;
            }
            out.push('}');
            proof {
                lemma_ser_members_take_all(ms@);
                assert(final(out)@ =~= old(out)@ + ser_value(j@));
            }
        },
    }
}

/// The rendering of the first `i` items of an array, commas included.
pub open spec fn ser_items_take(vs: Seq<Json>, i: int) -> Seq<char>
    decreases i,
{
    if i <= 0 {
        Seq::empty()
    } else if i == 1 {
        ser_value(jview(vs[0]))
    } else {
        ser_items_take(vs, i - 1) + seq![','] + ser_value(jview(vs[i - 1]))
    }
}

proof fn lemma_ser_items_take_snoc(vs: Seq<Json>, i: int)
    requires
        0 <= i < vs.len(),
    ensures
        i == 0 ==> ser_items_take(vs, i + 1) == ser_items_take(vs, i) + ser_value(jview(vs[i])),
        i > 0 ==> ser_items_take(vs, i + 1) == (ser_items_take(vs, i) + seq![',']) + ser_value(jview(vs[i])),
{
    if i == 0 {
        assert(ser_items_take(vs, 1) =~= Seq::<char>::empty() + ser_value(jview(vs[0])));
    } else {
        assert(ser_items_take(vs, i + 1) =~= (ser_items_take(vs, i) + seq![',']) + ser_value(jview(vs[i])));
    }
}

proof fn lemma_ser_items_take_all(vs: Seq<Json>)
    ensures
        ser_items_take(vs, vs.len() as int) == ser_items(jview_seq(vs)),
    decreases vs.len(),
{
    lemma_jview_seq_len(vs);
    if vs.len() == 0 {
        assert(ser_items_take(vs, 0) =~= ser_items(jview_seq(vs)));
    } else if vs.len() == 1 {
        lemma_jview_seq_index(vs, 0);
        assert(jview_seq(vs)[0] == jview(vs[0]));
        assert(ser_items(jview_seq(vs)) == ser_value(jview(vs[0])));
    } else {
        lemma_ser_items_front(vs, vs.len() as int);
        lemma_ser_items_take_all(vs.skip(1));
        lemma_jview_seq_index(vs, 0);
        assert(jview_seq(vs).skip(1) =~= jview_seq(vs.skip(1))) by {
            lemma_jview_seq_len(vs.skip(1));
            assert forall|k: int| 0 <= k < jview_seq(vs).skip(1).len() implies jview_seq(vs).skip(1)[k]
                == jview_seq(vs.skip(1))[k] by {
                lemma_jview_seq_index(vs, k + 1);
                lemma_jview_seq_index(vs.skip(1), k);
            }
        }
        assert(ser_items(jview_seq(vs)) == ser_value(jview(vs[0])) + seq![','] + ser_items(jview_seq(vs.skip(1))));
    }
}

/// Splitting the take-rendering at the front: the first item, a comma, then
/// the rest, mirroring the recursive rendering of the tail.
proof fn lemma_ser_items_front(vs: Seq<Json>, i: int)
    requires
        2 <= i <= vs.len(),
    ensures
        ser_items_take(vs, i) == ser_value(jview(vs[0])) + seq![','] + ser_items_take(vs.skip(1), i - 1),
    decreases i,
{
    if i == 2 {
        assert(vs.skip(1)[0] == vs[1]);
        assert(ser_items_take(vs.skip(1), 1) == ser_value(jview(vs[1])));
        assert(ser_items_take(vs, 1) == ser_value(jview(vs[0])));
        assert(ser_items_take(vs, 2) == ser_items_take(vs, 1) + seq![','] + ser_value(jview(vs[1])));
        assert(ser_items_take(vs, 2) =~= ser_value(jview(vs[0])) + seq![','] + ser_items_take(vs.skip(1), 1));
    } else {
        lemma_ser_items_front(vs, i - 1);
        assert(vs.skip(1)[i - 2] == vs[i - 1]);
        assert(ser_items_take(vs.skip(1), i - 1) == ser_items_take(vs.skip(1), i - 2) + seq![','] + ser_value(jview(vs[i - 1])));
        assert(ser_items_take(vs, i) =~= ser_value(jview(vs[0])) + seq![','] + ser_items_take(vs.skip(1), i - 1));
    }
}

/// The rendering of the first `i` members of an object, commas included.
pub open spec fn ser_members_take(ms: Seq<(String, Json)>, i: int) -> Seq<char>
    decreases i,
{
    if i <= 0 {
        Seq::empty()
    } else if i == 1 {
        ser_string(ms[0].0@) + seq![':'] + ser_value(jview(ms[0].1))
    } else {
        ser_members_take(ms, i - 1) + seq![','] + ser_string(ms[i - 1].0@) + seq![':'] + ser_value(jview(ms[i - 1].1))
    }
}

proof fn lemma_ser_members_take_snoc(ms: Seq<(String, Json)>, i: int)
    requires
        0 <= i < ms.len(),
    ensures
        i == 0 ==> ser_members_take(ms, i + 1) == ((ser_members_take(ms, i) + ser_string(ms[i].0@)) + seq![':'])
            + ser_value(jview(ms[i].1)),
        i > 0 ==> ser_members_take(ms, i + 1) == (((ser_members_take(ms, i) + seq![',']) + ser_string(ms[i].0@))
            + seq![':']) + ser_value(jview(ms[i].1)),
{
    if i == 0 {
        assert(ser_members_take(ms, 1) =~= ((Seq::<char>::empty() + ser_string(ms[0].0@)) + seq![':'])
            + ser_value(jview(ms[0].1)));
    } else {
        assert(ser_members_take(ms, i + 1) =~= (((ser_members_take(ms, i) + seq![',']) + ser_string(ms[i].0@))
            + seq![':']) + ser_value(jview(ms[i].1)));
    }
}

proof fn lemma_ser_members_take_all(ms: Seq<(String, Json)>)
    ensures
        ser_members_take(ms, ms.len() as int) == ser_members(jview_members(ms)),
    decreases ms.len(),
{
    lemma_jview_members_len(ms);
    if ms.len() == 0 {
        assert(ser_members_take(ms, 0) =~= ser_members(jview_members(ms)));
    } else if ms.len() == 1 {
        lemma_jview_members_index(ms, 0);
        assert(ser_members(jview_members(ms)) == ser_string(ms[0].0@) + seq![':'] + ser_value(jview(ms[0].1)));
    } else {
        lemma_ser_members_front(ms, ms.len() as int);
        lemma_ser_members_take_all(ms.skip(1));
        lemma_jview_members_index(ms, 0);
        assert(jview_members(ms).skip(1) =~= jview_members(ms.skip(1))) by {
            lemma_jview_members_len(ms.skip(1));
            assert forall|k: int| 0 <= k < jview_members(ms).skip(1).len() implies jview_members(ms).skip(1)[k]
                == jview_members(ms.skip(1))[k] by {
                lemma_jview_members_index(ms, k + 1);
                lemma_jview_members_index(ms.skip(1), k);
            }
        }
        assert(ser_members(jview_members(ms)) == ser_string(ms[0].0@) + seq![':'] + ser_value(jview(ms[0].1))
            + seq![','] + ser_members(jview_members(ms.skip(1))));
    }
}

proof fn lemma_ser_members_front(ms: Seq<(String, Json)>, i: int)
    requires
        2 <= i <= ms.len(),
    ensures
        ser_members_take(ms, i) == ser_string(ms[0].0@) + seq![':'] + ser_value(jview(ms[0].1)) + seq![',']
            + ser_members_take(ms.skip(1), i - 1),
    decreases i,
{
    if i == 2 {
        assert(ms.skip(1)[0] == ms[1]);
        assert(ser_members_take(ms.skip(1), 1) == ser_string(ms[1].0@) + seq![':'] + ser_value(jview(ms[1].1)));
        assert(ser_members_take(ms, 1) == ser_string(ms[0].0@) + seq![':'] + ser_value(jview(ms[0].1)));
        assert(ser_members_take(ms, 2) == ser_members_take(ms, 1) + seq![','] + ser_string(ms[1].0@) + seq![':']
            + ser_value(jview(ms[1].1)));
        assert(ser_members_take(ms, 2) =~= ser_string(ms[0].0@) + seq![':'] + ser_value(jview(ms[0].1)) + seq![',']
            + ser_members_take(ms.skip(1), 1));
    } else {
        lemma_ser_members_front(ms, i - 1);
        assert(ms.skip(1)[i - 2] == ms[i - 1]);
        assert(ser_members_take(ms, i) =~= ser_string(ms[0].0@) + seq![':'] + ser_value(jview(ms[0].1)) + seq![',']
            + ser_members_take(ms.skip(1), i - 1));
    }
}

// ------------------------------------------------------------------
// Character-level bridges between `String` text and `Vec<char>`.
// ------------------------------------------------------------------

/// The characters of a string slice, one by one.
pub fn chars_of(s: &str) -> (r: Vec<char>)
    ensures
        r@ == s@,
{
    let n = s.unicode_len();
    let mut out: Vec<char> = Vec::new();
    let mut i: usize = 0;
    while i < n
        invariant
            n == s@.len(),
            i <= n,
            out@ == s@.take(i as int),
        decreases n - i,
    {
        out.push(s.get_char(i));
        proof {
            assert(s@.take(i + 1) =~= s@.take(i as int).push(s@[i as int]));
        }
        i = i + 1;
    }
    proof {
        assert(s@.take(n as int) =~= s@);
    }
    out
}

/// Relies on `String::push`: appends the given character to the string.
#[verifier::external_body]
fn push_char(s: &mut String, c: char)
    ensures
        final(s)@ == old(s)@.push(c),
{
    s.push(c);
}

/// A `String` holding exactly the given characters.
pub fn string_of(v: &Vec<char>) -> (r: String)
    ensures
        r@ == v@,
{
    let mut s = String::new();
    let n = v.len();
    let mut i: usize = 0;
    while i < n
        invariant
            n == v.len(),
            i <= n,
            s@ == v@.take(i as int),
        decreases n - i,
    {
        push_char(&mut s, v[i]);
        proof {
            assert(v@.take(i + 1) =~= v@.take(i as int).push(v@[i as int]));
        }
        i = i + 1;
    }
    proof {
        assert(v@.take(n as int) =~= v@);
    }
    s
}

/// The serialized text of a value, as a string.
pub fn render_json(j: &Json) -> (r: String)
    ensures
        r@ == ser_value(j@),
{
    let mut out: Vec<char> = Vec::new();
    write_value(&mut out, j);
    string_of(&out)
}

/// Character-for-character string comparison.
pub fn str_eq(a: &str, b: &str) -> (r: bool)
    ensures
        r == (a@ == b@),
{
    let sa = String::from_str(a);
    let sb = String::from_str(b);
    sa == sb
}

// ------------------------------------------------------------------
// Reading schema fields out of a parsed object.
// ------------------------------------------------------------------

/// A structural deserialization failure: a required field is missing or a
/// field has the wrong shape. Surfaced to the caller, never recovered
/// internally.
#[derive(Debug, PartialEq, Eq, Structural, Clone, Copy)]
pub struct MalformedPayload;

/// The value under `key` among an object's members, first occurrence.
pub open spec fn jfield(ms: Seq<(Seq<char>, JsonM)>, key: Seq<char>) -> Option<JsonM> {
    crate::kvmap::kv_get(ms, key)
}

/// A required string field: present and a string, else the document is
/// malformed.
pub open spec fn req_str(ms: Seq<(Seq<char>, JsonM)>, key: Seq<char>) -> Option<Seq<char>> {
    match jfield(ms, key) {
        Some(JsonM::Str(s)) => Some(s),
        _ => None,
    }
}

/// An optional string field: absent or `null` reads as `None`; any other
/// non-string shape is malformed, so the outer `Option` is `None`.
pub open spec fn opt_str(ms: Seq<(Seq<char>, JsonM)>, key: Seq<char>) -> Option<Option<Seq<char>>> {
    match jfield(ms, key) {
        None => Some(None),
        Some(JsonM::Null) => Some(None),
        Some(JsonM::Str(s)) => Some(Some(s)),
        Some(_) => None,
    }
}

/// A required boolean field.
pub open spec fn req_bool(ms: Seq<(Seq<char>, JsonM)>, key: Seq<char>) -> Option<bool> {
    match jfield(ms, key) {
        Some(JsonM::Bool(b)) => Some(b),
        _ => None,
    }
}

pub open spec fn is_digit(c: char) -> bool {
    0x30 <= c as u32 <= 0x39
}

pub open spec fn all_digits(s: Seq<char>) -> bool {
    forall|i: int| 0 <= i < s.len() ==> is_digit(#[trigger] s[i])
}

/// The numeric value of a digit string, most significant digit first.
pub open spec fn digits_val(s: Seq<char>) -> int
    decreases s.len(),
{
    if s.len() == 0 {
        0
    } else {
        digits_val(s.take(s.len() - 1)) * 10 + (s[s.len() - 1] as u32 - 0x30)
    }
}

/// The value of a number lexeme read as an unsigned 64-bit integer: defined
/// exactly when the lexeme is plain digits and the value fits.
pub open spec fn dec_u64(s: Seq<char>) -> Option<int> {
    if s.len() > 0 && all_digits(s) && digits_val(s) <= u64::MAX {
        Some(digits_val(s))
    } else {
        None
    }
}

/// An optional unsigned-integer field: absent or `null` reads as `None`; a
/// digit lexeme that fits reads as its value; anything else is malformed.
pub open spec fn opt_u64(ms: Seq<(Seq<char>, JsonM)>, key: Seq<char>) -> Option<Option<int>> {
    match jfield(ms, key) {
        None => Some(None),
        Some(JsonM::Null) => Some(None),
        Some(JsonM::Num(s)) => match dec_u64(s) {
            Some(v) => Some(Some(v)),
            None => None,
        },
        Some(_) => None,
    }
}

/// Finds a member by key, first occurrence.
pub fn get_field<'a>(ms: &'a Vec<(String, Json)>, key: &str) -> (r: Option<&'a Json>)
    ensures
        match r {
            Some(v) => jfield(jview_members(ms@), key@) == Some(v@),
            None => jfield(jview_members(ms@), key@) is None,
        },
{
    let ghost mv = jview_members(ms@);
    let n = ms.len();
    let mut i: usize = 0;
    proof {
        lemma_jview_members_len(ms@);
        assert(mv.skip(0) =~= mv);
    }
    while i < n
        invariant
            i <= n,
            n == ms@.len(),
            mv == jview_members(ms@),
            mv.len() == n,
            crate::kvmap::kv_get(mv, key@) == crate::kvmap::kv_get(mv.skip(i as int), key@),
        decreases n - i,
    {
        proof {
            lemma_jview_members_index(ms@, i as int);
            assert(mv.skip(i as int)[0] == mv[i as int]);
            assert(mv.skip(i as int).skip(1) =~= mv.skip(i + 1));
        }
        if str_eq(ms[i].0.as_str(), key) {
            return Some(&ms[i].1);
        }
        i = i + 1;
    }
    proof {
        assert(mv.skip(n as int) =~= Seq::<(Seq<char>, JsonM)>::empty());
    }
    None
}

/// Reads a required string field.
pub fn read_req_str(ms: &Vec<(String, Json)>, key: &str) -> (r: Result<String, MalformedPayload>)
    ensures
        match r {
            Ok(s) => req_str(jview_members(ms@), key@) == Some(s@),
            Err(_) => req_str(jview_members(ms@), key@) is None,
        },
{
    match get_field(ms, key) {
        Some(Json::Str(s)) => Ok(s.clone()),
        _ => Err(MalformedPayload),
    }
}

/// Reads an optional string field.
pub fn read_opt_str(ms: &Vec<(String, Json)>, key: &str) -> (r: Result<
    Option<String>,
    MalformedPayload,
>)
    ensures
        match r {
            Ok(Some(s)) => opt_str(jview_members(ms@), key@) == Some(Some(s@)),
            Ok(None) => opt_str(jview_members(ms@), key@) == Some(None::<Seq<char>>),
            Err(_) => opt_str(jview_members(ms@), key@) is None,
        },
{
    match get_field(ms, key) {
        None => Ok(None),
        Some(Json::Null) => Ok(None),
        Some(Json::Str(s)) => Ok(Some(s.clone())),
        Some(_) => Err(MalformedPayload),
    }
}

/// Reads a required boolean field.
pub fn read_req_bool(ms: &Vec<(String, Json)>, key: &str) -> (r: Result<bool, MalformedPayload>)
    ensures
        match r {
            Ok(b) => req_bool(jview_members(ms@), key@) == Some(b),
            Err(_) => req_bool(jview_members(ms@), key@) is None,
        },
{
    match get_field(ms, key) {
        Some(Json::Bool(b)) => Ok(*b),
        _ => Err(MalformedPayload),
    }
}

proof fn lemma_digits_snoc(s: Seq<char>, i: int)
    requires
        0 <= i < s.len(),
    ensures
        digits_val(s.take(i + 1)) == digits_val(s.take(i)) * 10 + (s[i] as u32 - 0x30),
{
    assert(s.take(i + 1).take(i) =~= s.take(i));
    assert(s.take(i + 1)[i] == s[i]);
}

proof fn lemma_digits_nonneg(s: Seq<char>)
    requires
        all_digits(s),
    ensures
        digits_val(s) >= 0,
    decreases s.len(),
{
    if s.len() > 0 {
        assert(all_digits(s.take(s.len() - 1)));
        lemma_digits_nonneg(s.take(s.len() - 1));
        assert(is_digit(s[s.len() - 1]));
    }
}

proof fn lemma_digits_prefix_le(s: Seq<char>, i: int)
    requires
        all_digits(s),
        0 <= i <= s.len(),
    ensures
        digits_val(s.take(i)) <= digits_val(s),
    decreases s.len() - i,
{
    if i < s.len() {
        lemma_digits_prefix_le(s, i + 1);
        lemma_digits_snoc(s, i);
        assert(all_digits(s.take(i)));
        lemma_digits_nonneg(s.take(i));
        assert(is_digit(s[i]));
        assert(digits_val(s.take(i + 1)) >= digits_val(s.take(i)) * 10);
        assert(digits_val(s.take(i)) * 10 >= digits_val(s.take(i)));
    } else {
        assert(s.take(i) =~= s);
    }
}

/// Reads a digit string as an unsigned 64-bit integer.
pub fn parse_u64_digits(s: &str) -> (r: Option<u64>)
    ensures
        match r {
            Some(v) => dec_u64(s@) == Some(v as int),
            None => dec_u64(s@) is None,
        },
{
    let chars = chars_of(s);
    let n = chars.len();
    if n == 0 {
        return None;
    }
    let mut acc: u64 = 0;
    let mut i: usize = 0;
    while i < n
        invariant
            i <= n,
            n == chars@.len(),
            chars@ == s@,
            n > 0,
            all_digits(s@.take(i as int)),
            acc == digits_val(s@.take(i as int)),
        decreases n - i,
    {
        let c = chars[i];
        let u = c as u32;
        if !(0x30 <= u && u <= 0x39) {
            proof {
                assert(!is_digit(s@[i as int]));
                assert(!all_digits(s@));
            }
            return None;
        }
        let d = (u - 0x30) as u64;
        if acc > (u64::MAX - d) / 10 {
            proof {
                lemma_digits_snoc(s@, i as int);
                assert(acc * 10 + d > u64::MAX) by (nonlinear_arith)
                    requires
                        acc > (u64::MAX - d) / 10,
                        d <= 9,
                ;
                assert(all_digits(s@.take(i + 1)));
                if all_digits(s@) {
                    lemma_digits_prefix_le(s@, i + 1);
                    assert(digits_val(s@) > u64::MAX);
                }
            }
            return None;
        }
        proof {
            lemma_digits_snoc(s@, i as int);
            assert(acc * 10 + d <= u64::MAX) by (nonlinear_arith)
                requires
                    acc <= (u64::MAX - d) / 10,
                    d <= 9,
            ;
            assert(all_digits(s@.take(i + 1)));
        }
        acc = acc * 10 + d;
        i = i + 1;
    }
    proof {
        assert(s@.take(n as int) =~= s@);
    }
    Some(acc)
}

/// Reads an optional unsigned-integer field.
pub fn read_opt_u64(ms: &Vec<(String, Json)>, key: &str) -> (r: Result<
    Option<u64>,
    MalformedPayload,
>)
    ensures
        match r {
            Ok(Some(v)) => opt_u64(jview_members(ms@), key@) == Some(Some(v as int)),
            Ok(None) => opt_u64(jview_members(ms@), key@) == Some(None::<int>),
            Err(_) => opt_u64(jview_members(ms@), key@) is None,
        },
{
    match get_field(ms, key) {
        None => Ok(None),
        Some(Json::Null) => Ok(None),
        Some(Json::Num(s)) => match parse_u64_digits(s.as_str()) {
            Some(v) => Ok(Some(v)),
            None => Err(MalformedPayload),
        },
        Some(_) => Err(MalformedPayload),
    }
}

} // verus!
