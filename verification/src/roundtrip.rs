//! Serialization is lossless: parsing the rendered text of any well-formed
//! tree gives that tree back, with the remainder untouched. The response
//! renderer builds on this to round-trip every value it emits.

use vstd::prelude::*;

use crate::json::JsonM;
use crate::json::escape_char;
use crate::json::hex_char;
use crate::json::ser_items;
use crate::json::ser_members;
use crate::json::ser_str_content;
use crate::json::ser_string;
use crate::json::ser_value;
use crate::json::wf_json;
use crate::json::wf_json_members;
use crate::json::wf_json_seq;
use crate::parse::hex4;
use crate::parse::hex_val;
use crate::parse::is_ws;
use crate::parse::parse_document;
use crate::parse::parse_items;
use crate::parse::parse_items_more;
use crate::parse::parse_members;
use crate::parse::parse_members_more;
use crate::parse::parse_str_body;
use crate::parse::parse_value;
use crate::parse::skip_ws;
use crate::parse::unescape_short;

verus! {

/// A character that can open the rendering of a value.
pub open spec fn is_value_start(c: char) -> bool {
    c == 'n' || c == 't' || c == 'f' || c == '"' || c == '[' || c == '{'
}

proof fn lemma_ser_first(j: JsonM)
    requires
        wf_json(j),
    ensures
        ser_value(j).len() >= 1,
        is_value_start(ser_value(j)[0]),
{
    match j {
        JsonM::Null => {
            assert(ser_value(j)[0] == 'n');
        },
        JsonM::Bool(b) => {
            if b {
                assert(ser_value(j)[0] == 't');
            } else {
                assert(ser_value(j)[0] == 'f');
            }
        },
        JsonM::Num(_) => {
            assert(false);
        },
        JsonM::Str(s) => {
            assert(ser_value(j)[0] == '"');
        },
        JsonM::Arr(vs) => {
            assert(ser_value(j)[0] == '[');
        },
        JsonM::Obj(ms) => {
            assert(ser_value(j)[0] == '{');
        },
    }
}

proof fn lemma_hex_rt(n: int)
    requires
        0 <= n < 16,
    ensures
        hex_val(hex_char(n)) == n,
{
}

/// Escaped string content reads back exactly, whatever follows the closing
/// quote.
proof fn lemma_str_content_rt(cs: Seq<char>, rest: Seq<char>)
    ensures
        parse_str_body(ser_str_content(cs) + seq!['"'] + rest) == Some((cs, rest)),
    decreases cs.len(),
{
    let s = ser_str_content(cs) + seq!['"'] + rest;
    if cs.len() == 0 {
        assert(ser_str_content(cs) =~= Seq::<char>::empty());
        assert(s =~= seq!['"'] + rest);
        assert(s[0] == '"');
        assert(s.skip(1) =~= rest);
        assert(cs =~= Seq::<char>::empty());
    } else {
        let c = cs[0];
        let tail = ser_str_content(cs.skip(1)) + seq!['"'] + rest;
        lemma_str_content_rt(cs.skip(1), rest);
        assert(ser_str_content(cs) == escape_char(c) + ser_str_content(cs.skip(1)));
        assert(s =~= escape_char(c) + tail);
        if c == '"' {
            assert(escape_char(c) == seq!['\\', '"']);
            assert(s[0] == '\\');
            assert(s[1] == '"');
            assert(s.len() >= 3);
            assert(unescape_short(s[1]) == Some('"'));
            assert(s.skip(2) =~= tail);
            assert(parse_str_body(s) == Some((seq![c] + cs.skip(1), rest)));
            assert(seq![c] + cs.skip(1) =~= cs);
        } else if c == '\\' {
            assert(escape_char(c) == seq!['\\', '\\']);
            assert(s[0] == '\\');
            assert(s[1] == '\\');
            assert(s.len() >= 3);
            assert(unescape_short(s[1]) == Some('\\'));
            assert(s.skip(2) =~= tail);
            assert(parse_str_body(s) == Some((seq![c] + cs.skip(1), rest)));
            assert(seq![c] + cs.skip(1) =~= cs);
        } else if (c as u32) < 0x20 {
            let cv = c as u32 as int;
            let hi = cv / 16;
            let lo = cv % 16;
            assert(escape_char(c) == seq!['\\', 'u', '0', '0', hex_char(hi), hex_char(lo)]);
            assert(s[0] == '\\');
            assert(s[1] == 'u');
            assert(s.len() >= 7);
            assert(s[2] == '0');
            assert(s[3] == '0');
            assert(s[4] == hex_char(hi));
            assert(s[5] == hex_char(lo));
            lemma_hex_rt(hi);
            lemma_hex_rt(lo);
            assert(hex_val('0') == 0);
            let h = hex4(s, 2);
            assert(h == hi * 16 + lo);
            assert(h == cv);
            assert(0 <= h < 0x20);
            assert(s.skip(6) =~= tail);
            vstd::utf8::char_u32_cast(c, c as u32);
            assert(((h as u32) as char) == c);
            assert(parse_str_body(s) == Some((seq![c] + cs.skip(1), rest)));
            assert(seq![c] + cs.skip(1) =~= cs);
        } else {
            assert(escape_char(c) == seq![c]);
            assert(s =~= seq![c] + tail);
            assert(s[0] == c);
            assert(s.len() >= 1);
            assert(s.skip(1) =~= tail);
            assert(parse_str_body(s) == Some((seq![c] + cs.skip(1), rest)));
            assert(seq![c] + cs.skip(1) =~= cs);
        }
    }
}

/// A rendered value reads back exactly, whatever follows it.
pub proof fn lemma_parse_ser(j: JsonM, rest: Seq<char>)
    requires
        wf_json(j),
    ensures
        parse_value(ser_value(j) + rest) == Some((j, rest)),
    decreases j, 1int,
{
    let s = ser_value(j) + rest;
    lemma_ser_first(j);
    assert(s[0] == ser_value(j)[0]);
    assert(!is_ws(s[0]));
    assert(skip_ws(s) == s);
    match j {
        JsonM::Null => {
            assert(s[0] == 'n');
            assert(s[1] == 'u');
            assert(s[2] == 'l');
            assert(s[3] == 'l');
            assert(s.len() >= 4);
            assert(s.skip(4) =~= rest);
        },
        JsonM::Bool(b) => {
            if b {
                assert(s[0] == 't');
                assert(s[1] == 'r');
                assert(s[2] == 'u');
                assert(s[3] == 'e');
                assert(s.len() >= 4);
                assert(s.skip(4) =~= rest);
            } else {
                assert(s[0] == 'f');
                assert(s[1] == 'a');
                assert(s[2] == 'l');
                assert(s[3] == 's');
                assert(s[4] == 'e');
                assert(s.len() >= 5);
                assert(s.skip(5) =~= rest);
            }
        },
        JsonM::Num(_) => {
            assert(false);
        },
        JsonM::Str(cs) => {
            assert(s[0] == '"');
            assert(s.skip(1) =~= ser_str_content(cs) + seq!['"'] + rest);
            lemma_str_content_rt(cs, rest);
            assert(parse_str_body(s.skip(1)) == Some((cs, rest)));
        },
        JsonM::Arr(vs) => {
            lemma_parse_ser_arr(vs, rest);
        },
        JsonM::Obj(ms) => {
            lemma_parse_ser_obj(ms, rest);
        },
    }
}

#[verifier::rlimit(100)]
proof fn lemma_parse_ser_arr(vs: Seq<JsonM>, rest: Seq<char>)
    requires
        wf_json(JsonM::Arr(vs)),
    ensures
        parse_value(ser_value(JsonM::Arr(vs)) + rest) == Some((JsonM::Arr(vs), rest)),
    decreases vs, 3int,
{
    let j = JsonM::Arr(vs);
    assert(wf_json_seq(vs));
    let s = ser_value(j) + rest;
    lemma_ser_first(j);
    assert(s[0] == ser_value(j)[0]);
    assert(!is_ws(s[0]));
    assert(skip_ws(s) == s);
    assert(s[0] == '[');
    let s1 = s.skip(1);
    assert(s1 =~= ser_items(vs) + seq![']'] + rest);
    if vs.len() == 0 {
        assert(ser_items(vs) =~= Seq::<char>::empty());
        assert(s1 =~= seq![']'] + rest);
        assert(s1[0] == ']');
        assert(!is_ws(s1[0]));
        assert(skip_ws(s1) == s1);
        assert(s1.skip(1) =~= rest);
        assert(parse_items(s1) == Some((Seq::<JsonM>::empty(), rest)));
        assert(vs =~= Seq::<JsonM>::empty());
    } else {
        assert(wf_json(vs[0]));
        lemma_ser_first(vs[0]);
        assert(ser_items(vs)[0] == ser_value(vs[0])[0]);
        assert(s1[0] == ser_value(vs[0])[0]);
        assert(!is_ws(s1[0]));
        assert(skip_ws(s1) == s1);
        assert(s1[0] != ']');
        lemma_items_more_rt(vs, rest);
        assert(parse_items(s1) == Some((vs, rest)));
    }
}

#[verifier::rlimit(100)]
proof fn lemma_parse_ser_obj(ms: Seq<(Seq<char>, JsonM)>, rest: Seq<char>)
    requires
        wf_json(JsonM::Obj(ms)),
    ensures
        parse_value(ser_value(JsonM::Obj(ms)) + rest) == Some((JsonM::Obj(ms), rest)),
    decreases ms, 3int,
{
    let j = JsonM::Obj(ms);
    assert(wf_json_members(ms));
    let s = ser_value(j) + rest;
    lemma_ser_first(j);
    assert(s[0] == ser_value(j)[0]);
    assert(!is_ws(s[0]));
    assert(skip_ws(s) == s);
    assert(s[0] == '{');
    let s1 = s.skip(1);
    assert(s1 =~= ser_members(ms) + seq!['}'] + rest);
    if ms.len() == 0 {
        assert(ser_members(ms) =~= Seq::<char>::empty());
        assert(s1 =~= seq!['}'] + rest);
        assert(s1[0] == '}');
        assert(!is_ws(s1[0]));
        assert(skip_ws(s1) == s1);
        assert(s1.skip(1) =~= rest);
        assert(parse_members(s1) == Some((Seq::<(Seq<char>, JsonM)>::empty(), rest)));
        assert(ms =~= Seq::<(Seq<char>, JsonM)>::empty());
    } else {
        assert(ser_members(ms)[0] == ser_string(ms[0].0)[0]);
        assert(ser_string(ms[0].0)[0] == '"');
        assert(s1[0] == '"');
        assert(!is_ws(s1[0]));
        assert(skip_ws(s1) == s1);
        assert(s1[0] != '}');
        lemma_members_more_rt(ms, rest);
        assert(parse_members(s1) == Some((ms, rest)));
    }
}

#[verifier::rlimit(100)]
proof fn lemma_items_more_rt(vs: Seq<JsonM>, rest: Seq<char>)
    requires
        vs.len() >= 1,
        wf_json_seq(vs),
    ensures
        parse_items_more(ser_items(vs) + seq![']'] + rest) == Some((vs, rest)),
    decreases vs, 2int,
{
    let s = ser_items(vs) + seq![']'] + rest;
    assert(wf_json(vs[0]));
    lemma_ser_first(vs[0]);
    if vs.len() == 1 {
        assert(ser_items(vs) == ser_value(vs[0]));
        let rest1 = seq![']'] + rest;
        assert(s =~= ser_value(vs[0]) + rest1);
        assert(s[0] == ser_value(vs[0])[0]);
        assert(!is_ws(s[0]));
        assert(skip_ws(s) == s);
        lemma_parse_ser(vs[0], rest1);
        assert(parse_value(s) == Some((vs[0], rest1)));
        assert(rest1.len() <= s.len());
        assert(rest1[0] == ']');
        assert(!is_ws(rest1[0]));
        assert(skip_ws(rest1) == rest1);
        assert(rest1.skip(1) =~= rest);
        assert(parse_items_more(s) == Some((seq![vs[0]], rest)));
        assert(seq![vs[0]] =~= vs);
    } else {
        assert(ser_items(vs) == ser_value(vs[0]) + seq![','] + ser_items(vs.skip(1)));
        let rest1 = seq![','] + ser_items(vs.skip(1)) + seq![']'] + rest;
        assert(s =~= ser_value(vs[0]) + rest1);
        assert(s[0] == ser_value(vs[0])[0]);
        assert(!is_ws(s[0]));
        assert(skip_ws(s) == s);
        lemma_parse_ser(vs[0], rest1);
        assert(parse_value(s) == Some((vs[0], rest1)));
        assert(rest1.len() <= s.len());
        assert(rest1[0] == ',');
        assert(!is_ws(rest1[0]));
        assert(skip_ws(rest1) == rest1);
        assert(rest1[0] != ']');
        assert(rest1.skip(1) =~= ser_items(vs.skip(1)) + seq![']'] + rest);
        assert(vs.skip(1).len() >= 1);
        assert(wf_json_seq(vs.skip(1)));
        lemma_items_more_rt(vs.skip(1), rest);
        assert(parse_items_more(rest1.skip(1)) == Some((vs.skip(1), rest)));
        assert(parse_items_more(s) == Some((seq![vs[0]] + vs.skip(1), rest)));
        assert(seq![vs[0]] + vs.skip(1) =~= vs);
    }
}

proof fn lemma_members_more_rt(ms: Seq<(Seq<char>, JsonM)>, rest: Seq<char>)
    requires
        ms.len() >= 1,
        wf_json_members(ms),
    ensures
        parse_members_more(ser_members(ms) + seq!['}'] + rest) == Some((ms, rest)),
    decreases ms, 2int,
{
    if ms.len() == 1 {
        lemma_members_more_one(ms, rest);
    } else {
        lemma_members_more_many(ms, rest);
    }
}

proof fn lemma_members_more_one(ms: Seq<(Seq<char>, JsonM)>, rest: Seq<char>)
    requires
        ms.len() == 1,
        wf_json_members(ms),
    ensures
        parse_members_more(ser_members(ms) + seq!['}'] + rest) == Some((ms, rest)),
    decreases ms, 1int,
{
    let s = ser_members(ms) + seq!['}'] + rest;
    let k0 = ms[0].0;
    let v0 = ms[0].1;
    assert(wf_json(v0));
    lemma_ser_first(v0);
    assert(ser_members(ms) == ser_string(k0) + seq![':'] + ser_value(v0));
    let after_key = seq![':'] + ser_value(v0) + seq!['}'] + rest;
    assert(s =~= seq!['"'] + (ser_str_content(k0) + seq!['"'] + after_key));
    assert(s[0] == '"');
    assert(!is_ws(s[0]));
    assert(skip_ws(s) == s);
    assert(s.skip(1) =~= ser_str_content(k0) + seq!['"'] + after_key);
    lemma_str_content_rt(k0, after_key);
    assert(parse_str_body(s.skip(1)) == Some((k0, after_key)));
    assert(after_key.len() <= s.len());
    assert(after_key[0] == ':');
    assert(!is_ws(after_key[0]));
    assert(skip_ws(after_key) == after_key);
    let after_colon = ser_value(v0) + (seq!['}'] + rest);
    assert(after_key.skip(1) =~= after_colon);
    lemma_parse_ser(v0, seq!['}'] + rest);
    assert(parse_value(after_colon) == Some((v0, seq!['}'] + rest)));
    let rest2 = seq!['}'] + rest;
    assert(rest2.len() <= s.len());
    assert(rest2[0] == '}');
    assert(!is_ws(rest2[0]));
    assert(skip_ws(rest2) == rest2);
    assert(rest2.skip(1) =~= rest);
    assert(parse_members_more(s) == Some((seq![(k0, v0)], rest)));
    assert(seq![(k0, v0)] =~= ms);
}

proof fn lemma_members_more_many(ms: Seq<(Seq<char>, JsonM)>, rest: Seq<char>)
    requires
        ms.len() >= 2,
        wf_json_members(ms),
    ensures
        parse_members_more(ser_members(ms) + seq!['}'] + rest) == Some((ms, rest)),
    decreases ms, 1int,
{
    let s = ser_members(ms) + seq!['}'] + rest;
    let k0 = ms[0].0;
    let v0 = ms[0].1;
    assert(wf_json(v0));
    lemma_ser_first(v0);
    assert(ser_members(ms) == ser_string(k0) + seq![':'] + ser_value(v0) + seq![',']
        + ser_members(ms.skip(1)));
    let tail_text = ser_members(ms.skip(1)) + seq!['}'] + rest;
    let after_key = seq![':'] + ser_value(v0) + seq![','] + tail_text;
    assert(s =~= seq!['"'] + (ser_str_content(k0) + seq!['"'] + after_key));
    assert(s[0] == '"');
    assert(!is_ws(s[0]));
    assert(skip_ws(s) == s);
    assert(s.skip(1) =~= ser_str_content(k0) + seq!['"'] + after_key);
    lemma_str_content_rt(k0, after_key);
    assert(parse_str_body(s.skip(1)) == Some((k0, after_key)));
    assert(after_key.len() <= s.len());
    assert(after_key[0] == ':');
    assert(!is_ws(after_key[0]));
    assert(skip_ws(after_key) == after_key);
    let rest2 = seq![','] + tail_text;
    let after_colon = ser_value(v0) + rest2;
    assert(after_key.skip(1) =~= after_colon);
    lemma_parse_ser(v0, rest2);
    assert(parse_value(after_colon) == Some((v0, rest2)));
    assert(rest2.len() <= s.len());
    assert(rest2[0] == ',');
    assert(!is_ws(rest2[0]));
    assert(skip_ws(rest2) == rest2);
    assert(rest2[0] != '}');
    assert(rest2.skip(1) =~= tail_text);
    assert(ms.skip(1).len() >= 1);
    assert(wf_json_members(ms.skip(1)));
    lemma_members_more_rt(ms.skip(1), rest);
    assert(parse_members_more(rest2.skip(1)) == Some((ms.skip(1), rest)));
    assert(parse_members_more(s) == Some((seq![(k0, v0)] + ms.skip(1), rest)));
    assert(seq![(k0, v0)] + ms.skip(1) =~= ms);
}

/// A rendered value, taken as a whole document, parses back to itself.
pub proof fn lemma_document_rt(j: JsonM)
    requires
        wf_json(j),
    ensures
        parse_document(ser_value(j)) == Some(j),
{
    lemma_parse_ser(j, Seq::<char>::empty());
    assert(ser_value(j) + Seq::<char>::empty() =~= ser_value(j));
    assert(skip_ws(Seq::<char>::empty()).len() == 0);
}

} // verus!
