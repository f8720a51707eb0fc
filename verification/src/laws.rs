//! The response codec's laws: rendering is lossless, and absent optional
//! fields are absent from the rendered document — never written as `null`.

use vstd::prelude::*;

use crate::json::JsonM;
use crate::json::has_null;
use crate::json::jfield;
use crate::json::members_has_null;
use crate::json::opt_str;
use crate::json::req_bool;
use crate::json::req_str;
use crate::json::seq_has_null;
use crate::json::ser_value;
use crate::json::wf_json;
use crate::json::wf_json_members;
use crate::json::wf_json_seq;
use crate::kvmap::kv_distinct;
use crate::kvmap::kv_get;
use crate::kvmap::lemma_kv_get_concat;
use crate::kvmap::lemma_kv_put_missing;
use crate::request::str_map_of_members;
use crate::response::CardV;
use crate::response::ImageV;
use crate::response::ResBodyV;
use crate::response::RepromptV;
use crate::response::ResponseV;
use crate::response::SpeechV;
use crate::response::attrs_members;
use crate::response::attrs_segment;
use crate::response::body_to_json;
use crate::response::card_of_json;
use crate::response::card_to_json;
use crate::response::image_of_json;
use crate::response::image_to_json;
use crate::response::opt_member;
use crate::response::reprompt_of_json;
use crate::response::reprompt_to_json;
use crate::response::resbody_of_json;
use crate::response::resp_wf;
use crate::response::response_of_json;
use crate::response::response_to_json;
use crate::response::spec_parse_response;
use crate::response::speech_of_json;
use crate::response::speech_to_json;
use crate::response::strs_json;
use crate::response::strs_of_json;

verus! {

/// The wire keys of the response schema are pairwise distinct within each
/// object.
proof fn lemma_keys()
    ensures
        "type"@ != "text"@,
        "type"@ != "ssml"@,
        "type"@ != "playBehavior"@,
        "text"@ != "ssml"@,
        "text"@ != "playBehavior"@,
        "ssml"@ != "playBehavior"@,
        "smallImageUrl"@ != "largeImageUrl"@,
        "type"@ != "title"@,
        "type"@ != "content"@,
        "type"@ != "image"@,
        "type"@ != "permissions"@,
        "title"@ != "content"@,
        "title"@ != "text"@,
        "title"@ != "image"@,
        "title"@ != "permissions"@,
        "content"@ != "text"@,
        "content"@ != "image"@,
        "content"@ != "permissions"@,
        "text"@ != "image"@,
        "text"@ != "permissions"@,
        "image"@ != "permissions"@,
        "outputSpeech"@ != "card"@,
        "outputSpeech"@ != "reprompt"@,
        "outputSpeech"@ != "shouldEndSession"@,
        "card"@ != "reprompt"@,
        "card"@ != "shouldEndSession"@,
        "reprompt"@ != "shouldEndSession"@,
        "version"@ != "sessionAttributes"@,
        "version"@ != "response"@,
        "sessionAttributes"@ != "response"@,
{
    broadcast use vstd::string::group_string_axioms;

    reveal_strlit("type");
    reveal_strlit("text");
    reveal_strlit("ssml");
    reveal_strlit("playBehavior");
    reveal_strlit("smallImageUrl");
    reveal_strlit("largeImageUrl");
    reveal_strlit("title");
    reveal_strlit("content");
    reveal_strlit("image");
    reveal_strlit("permissions");
    reveal_strlit("outputSpeech");
    reveal_strlit("card");
    reveal_strlit("reprompt");
    reveal_strlit("shouldEndSession");
    reveal_strlit("version");
    reveal_strlit("sessionAttributes");
    reveal_strlit("response");
    assert("type"@[1] == 'y');
    assert("text"@[1] == 'e');
    assert("type"@[0] == 't');
    assert("text"@[0] == 't');
    assert("ssml"@[0] == 's');
    assert("card"@[0] == 'c');
    assert("smallImageUrl"@[0] == 's');
    assert("largeImageUrl"@[0] == 'l');
    assert("title"@[0] == 't');
    assert("image"@[0] == 'i');
    assert("type"@.len() == 4);
    assert("text"@.len() == 4);
    assert("ssml"@.len() == 4);
    assert("playBehavior"@.len() == 12);
    assert("smallImageUrl"@.len() == 13);
    assert("largeImageUrl"@.len() == 13);
    assert("title"@.len() == 5);
    assert("content"@.len() == 7);
    assert("image"@.len() == 5);
    assert("permissions"@.len() == 11);
    assert("outputSpeech"@.len() == 12);
    assert("card"@.len() == 4);
    assert("reprompt"@.len() == 8);
    assert("shouldEndSession"@.len() == 16);
    assert("version"@.len() == 7);
    assert("sessionAttributes"@.len() == 17);
    assert("response"@.len() == 8);
}

/// What a lookup finds in the segment an optional field contributes.
proof fn lemma_optseg_get(key: Seq<char>, o: Option<Seq<char>>, probe: Seq<char>)
    ensures
        kv_get(opt_member(key, o), probe) == (if probe == key {
            match o {
                Option::Some(s) => Option::Some(JsonM::Str(s)),
                Option::None => Option::None::<JsonM>,
            }
        } else {
            Option::None::<JsonM>
        }),
{
    assert(kv_get(Seq::<(Seq<char>, JsonM)>::empty(), probe) is None);
    match o {
        Option::Some(s) => {
            let m = opt_member(key, o);
            assert(m[0] == (key, JsonM::Str(s)));
            assert(m.skip(1) =~= Seq::<(Seq<char>, JsonM)>::empty());
            assert(kv_get(m, probe) == if m[0].0 == probe {
                Option::Some(m[0].1)
            } else {
                kv_get(m.skip(1), probe)
            });
        },
        Option::None => {
        },
    }
}

/// What a lookup finds in a one-member segment.
proof fn lemma_single_get(key: Seq<char>, v: JsonM, probe: Seq<char>)
    ensures
        kv_get(seq![(key, v)], probe) == (if probe == key {
            Option::Some(v)
        } else {
            Option::None::<JsonM>
        }),
{
    let m = seq![(key, v)];
    assert(kv_get(Seq::<(Seq<char>, JsonM)>::empty(), probe) is None);
    assert(m[0] == (key, v));
    assert(m.skip(1) =~= Seq::<(Seq<char>, JsonM)>::empty());
    assert(kv_get(m, probe) == if m[0].0 == probe {
        Option::Some(m[0].1)
    } else {
        kv_get(m.skip(1), probe)
    });
}

proof fn lemma_wf_members_concat(a: Seq<(Seq<char>, JsonM)>, b: Seq<(Seq<char>, JsonM)>)
    ensures
        wf_json_members(a + b) == (wf_json_members(a) && wf_json_members(b)),
    decreases a.len(),
{
    if a.len() == 0 {
        assert(a + b =~= b);
        assert(wf_json_members(a));
    } else {
        lemma_wf_members_concat(a.skip(1), b);
        assert((a + b)[0] == a[0]);
        assert((a + b).skip(1) =~= a.skip(1) + b);
        assert(wf_json_members(a + b) == (wf_json(a[0].1) && wf_json_members(a.skip(1) + b)));
        assert(wf_json_members(a) == (wf_json(a[0].1) && wf_json_members(a.skip(1))));
    }
}

proof fn lemma_nonull_members_concat(a: Seq<(Seq<char>, JsonM)>, b: Seq<(Seq<char>, JsonM)>)
    ensures
        members_has_null(a + b) == (members_has_null(a) || members_has_null(b)),
    decreases a.len(),
{
    if a.len() == 0 {
        assert(a + b =~= b);
        assert(!members_has_null(a));
    } else {
        lemma_nonull_members_concat(a.skip(1), b);
        assert((a + b)[0] == a[0]);
        assert((a + b).skip(1) =~= a.skip(1) + b);
        assert(members_has_null(a + b) == (has_null(a[0].1) || members_has_null(a.skip(1) + b)));
        assert(members_has_null(a) == (has_null(a[0].1) || members_has_null(a.skip(1))));
    }
}

/// An optional string field's segment is well formed and free of nulls.
proof fn lemma_optseg_good(key: Seq<char>, o: Option<Seq<char>>)
    ensures
        wf_json_members(opt_member(key, o)),
        !members_has_null(opt_member(key, o)),
{
    assert(wf_json_members(Seq::<(Seq<char>, JsonM)>::empty()));
    assert(!members_has_null(Seq::<(Seq<char>, JsonM)>::empty()));
    match o {
        Option::Some(s) => {
            let m = opt_member(key, o);
            assert(m[0] == (key, JsonM::Str(s)));
            assert(m.skip(1) =~= Seq::<(Seq<char>, JsonM)>::empty());
            assert(wf_json(JsonM::Str(s)));
            assert(!has_null(JsonM::Str(s)));
            assert(wf_json_members(m) == (wf_json(m[0].1) && wf_json_members(m.skip(1))));
            assert(members_has_null(m) == (has_null(m[0].1) || members_has_null(m.skip(1))));
        },
        Option::None => {
            assert(opt_member(key, o) =~= Seq::<(Seq<char>, JsonM)>::empty());
        },
    }
}

proof fn lemma_single_good(key: Seq<char>, v: JsonM)
    requires
        wf_json(v),
        !has_null(v),
    ensures
        wf_json_members(seq![(key, v)]),
        !members_has_null(seq![(key, v)]),
{
    let m = seq![(key, v)];
    assert(wf_json_members(Seq::<(Seq<char>, JsonM)>::empty()));
    assert(!members_has_null(Seq::<(Seq<char>, JsonM)>::empty()));
    assert(m[0] == (key, v));
    assert(m.skip(1) =~= Seq::<(Seq<char>, JsonM)>::empty());
    assert(wf_json_members(m) == (wf_json(m[0].1) && wf_json_members(m.skip(1))));
    assert(members_has_null(m) == (has_null(m[0].1) || members_has_null(m.skip(1))));
}

// ------------------------------------------------------------------
// Speech.
// ------------------------------------------------------------------

proof fn lemma_speech_good(s: SpeechV)
    ensures
        wf_json(speech_to_json(s)),
        !has_null(speech_to_json(s)),
{
    let t = seq![("type"@, JsonM::Str(s.speech_type))];
    let a = opt_member("text"@, s.text);
    let b = opt_member("ssml"@, s.ssml);
    let c = opt_member("playBehavior"@, s.play_behavior);
    lemma_single_good("type"@, JsonM::Str(s.speech_type));
    lemma_optseg_good("text"@, s.text);
    lemma_optseg_good("ssml"@, s.ssml);
    lemma_optseg_good("playBehavior"@, s.play_behavior);
    lemma_wf_members_concat(t, a);
    lemma_wf_members_concat(t + a, b);
    lemma_wf_members_concat(t + a + b, c);
    lemma_nonull_members_concat(t, a);
    lemma_nonull_members_concat(t + a, b);
    lemma_nonull_members_concat(t + a + b, c);
}

/// The omission law at the speech object: each optional field's member is
/// present exactly when the field is set, and each field reads back by key.
pub proof fn lemma_speech_fields(s: SpeechV)
    ensures
        speech_to_json(s) matches JsonM::Obj(ms) && kv_get(ms, "type"@) == Some(
            JsonM::Str(s.speech_type),
        ) && kv_get(ms, "text"@) == (match s.text {
            Option::Some(x) => Option::Some(JsonM::Str(x)),
            Option::None => Option::None::<JsonM>,
        }) && kv_get(ms, "ssml"@) == (match s.ssml {
            Option::Some(x) => Option::Some(JsonM::Str(x)),
            Option::None => Option::None::<JsonM>,
        }) && kv_get(ms, "playBehavior"@) == (match s.play_behavior {
            Option::Some(x) => Option::Some(JsonM::Str(x)),
            Option::None => Option::None::<JsonM>,
        }),
{
    lemma_keys();
    let t = seq![("type"@, JsonM::Str(s.speech_type))];
    let a = opt_member("text"@, s.text);
    let b = opt_member("ssml"@, s.ssml);
    let c = opt_member("playBehavior"@, s.play_behavior);
    assert forall|p: Seq<char>|
        p == "type"@ || p == "text"@ || p == "ssml"@ || p == "playBehavior"@ implies #[trigger]
    kv_get(t + a + b + c, p) == (if p == "type"@ {
        Option::Some(JsonM::Str(s.speech_type))
    } else if p == "text"@ {
        match s.text {
            Option::Some(x) => Option::Some(JsonM::Str(x)),
            Option::None => Option::None::<JsonM>,
        }
    } else if p == "ssml"@ {
        match s.ssml {
            Option::Some(x) => Option::Some(JsonM::Str(x)),
            Option::None => Option::None::<JsonM>,
        }
    } else {
        match s.play_behavior {
            Option::Some(x) => Option::Some(JsonM::Str(x)),
            Option::None => Option::None::<JsonM>,
        }
    }) by {
        lemma_kv_get_concat(t + a + b, c, p);
        lemma_kv_get_concat(t + a, b, p);
        lemma_kv_get_concat(t, a, p);
        lemma_single_get("type"@, JsonM::Str(s.speech_type), p);
        lemma_optseg_get("text"@, s.text, p);
        lemma_optseg_get("ssml"@, s.ssml, p);
        lemma_optseg_get("playBehavior"@, s.play_behavior, p);
    }
}

proof fn lemma_speech_rt(s: SpeechV)
    ensures
        speech_of_json(speech_to_json(s)) == Some(s),
{
    lemma_speech_fields(s);
}

// ------------------------------------------------------------------
// Image.
// ------------------------------------------------------------------

proof fn lemma_image_good(i: ImageV)
    ensures
        wf_json(image_to_json(i)),
        !has_null(image_to_json(i)),
{
    let a = opt_member("smallImageUrl"@, i.small_image_url);
    let b = opt_member("largeImageUrl"@, i.large_image_url);
    lemma_optseg_good("smallImageUrl"@, i.small_image_url);
    lemma_optseg_good("largeImageUrl"@, i.large_image_url);
    lemma_wf_members_concat(a, b);
    lemma_nonull_members_concat(a, b);
}

proof fn lemma_image_rt(i: ImageV)
    ensures
        image_of_json(image_to_json(i)) == Some(i),
{
    lemma_keys();
    let a = opt_member("smallImageUrl"@, i.small_image_url);
    let b = opt_member("largeImageUrl"@, i.large_image_url);
    assert forall|p: Seq<char>| p == "smallImageUrl"@ || p == "largeImageUrl"@ implies #[trigger]
    kv_get(a + b, p) == (if p == "smallImageUrl"@ {
        match i.small_image_url {
            Option::Some(x) => Option::Some(JsonM::Str(x)),
            Option::None => Option::None::<JsonM>,
        }
    } else {
        match i.large_image_url {
            Option::Some(x) => Option::Some(JsonM::Str(x)),
            Option::None => Option::None::<JsonM>,
        }
    }) by {
        lemma_kv_get_concat(a, b, p);
        lemma_optseg_get("smallImageUrl"@, i.small_image_url, p);
        lemma_optseg_get("largeImageUrl"@, i.large_image_url, p);
    }
}

// ------------------------------------------------------------------
// Card.
// ------------------------------------------------------------------

proof fn lemma_strs_good(ps: Seq<Seq<char>>)
    ensures
        wf_json_seq(strs_json(ps)),
        !seq_has_null(strs_json(ps)),
    decreases ps.len(),
{
    if ps.len() > 0 {
        assert(strs_json(ps)[0] == JsonM::Str(ps[0]));
        assert(strs_json(ps).skip(1) =~= strs_json(ps.skip(1)));
        lemma_strs_good(ps.skip(1));
        assert(wf_json(JsonM::Str(ps[0])));
        assert(!has_null(JsonM::Str(ps[0])));
        assert(wf_json_seq(strs_json(ps)) == (wf_json(strs_json(ps)[0]) && wf_json_seq(
            strs_json(ps).skip(1),
        )));
        assert(seq_has_null(strs_json(ps)) == (has_null(strs_json(ps)[0]) || seq_has_null(
            strs_json(ps).skip(1),
        )));
    } else {
        assert(strs_json(ps) =~= Seq::<JsonM>::empty());
        assert(wf_json_seq(Seq::<JsonM>::empty()));
        assert(!seq_has_null(Seq::<JsonM>::empty()));
    }
}

proof fn lemma_strs_refold(ps: Seq<Seq<char>>)
    ensures
        strs_of_json(strs_json(ps)) == Option::Some(ps),
    decreases ps.len(),
{
    if ps.len() == 0 {
        assert(strs_json(ps) =~= Seq::<JsonM>::empty());
        assert(ps =~= Seq::<Seq<char>>::empty());
    } else {
        assert(strs_json(ps)[0] == JsonM::Str(ps[0]));
        assert(strs_json(ps).skip(1) =~= strs_json(ps.skip(1)));
        lemma_strs_refold(ps.skip(1));
        assert(seq![ps[0]] + ps.skip(1) =~= ps);
    }
}

pub open spec fn image_segment(o: Option<ImageV>) -> Seq<(Seq<char>, JsonM)> {
    match o {
        Option::Some(i) => seq![("image"@, image_to_json(i))],
        Option::None => Seq::empty(),
    }
}

pub open spec fn perms_segment(o: Option<Seq<Seq<char>>>) -> Seq<(Seq<char>, JsonM)> {
    match o {
        Option::Some(ps) => seq![("permissions"@, JsonM::Arr(strs_json(ps)))],
        Option::None => Seq::empty(),
    }
}

proof fn lemma_card_good(c: CardV)
    ensures
        wf_json(card_to_json(c)),
        !has_null(card_to_json(c)),
{
    let t = seq![("type"@, JsonM::Str(c.card_type))];
    let a = opt_member("title"@, c.title);
    let b = opt_member("content"@, c.content);
    let d = opt_member("text"@, c.text);
    let e = image_segment(c.image);
    let f = perms_segment(c.permissions);
    lemma_single_good("type"@, JsonM::Str(c.card_type));
    lemma_optseg_good("title"@, c.title);
    lemma_optseg_good("content"@, c.content);
    lemma_optseg_good("text"@, c.text);
    match c.image {
        Option::Some(i) => {
            lemma_image_good(i);
            lemma_single_good("image"@, image_to_json(i));
        },
        Option::None => {
        },
    }
    match c.permissions {
        Option::Some(ps) => {
            lemma_strs_good(ps);
            lemma_single_good("permissions"@, JsonM::Arr(strs_json(ps)));
        },
        Option::None => {
        },
    }
    lemma_wf_members_concat(t, a);
    lemma_wf_members_concat(t + a, b);
    lemma_wf_members_concat(t + a + b, d);
    lemma_wf_members_concat(t + a + b + d, e);
    lemma_wf_members_concat(t + a + b + d + e, f);
    lemma_nonull_members_concat(t, a);
    lemma_nonull_members_concat(t + a, b);
    lemma_nonull_members_concat(t + a + b, d);
    lemma_nonull_members_concat(t + a + b + d, e);
    lemma_nonull_members_concat(t + a + b + d + e, f);
}

proof fn lemma_segment_get_image(o: Option<ImageV>, probe: Seq<char>)
    ensures
        kv_get(image_segment(o), probe) == (if probe == "image"@ {
            match o {
                Option::Some(i) => Option::Some(image_to_json(i)),
                Option::None => Option::None::<JsonM>,
            }
        } else {
            Option::None::<JsonM>
        }),
{
    match o {
        Option::Some(i) => {
            lemma_single_get("image"@, image_to_json(i), probe);
        },
        Option::None => {
        },
    }
}

proof fn lemma_segment_get_perms(o: Option<Seq<Seq<char>>>, probe: Seq<char>)
    ensures
        kv_get(perms_segment(o), probe) == (if probe == "permissions"@ {
            match o {
                Option::Some(ps) => Option::Some(JsonM::Arr(strs_json(ps))),
                Option::None => Option::None::<JsonM>,
            }
        } else {
            Option::None::<JsonM>
        }),
{
    match o {
        Option::Some(ps) => {
            lemma_single_get("permissions"@, JsonM::Arr(strs_json(ps)), probe);
        },
        Option::None => {
        },
    }
}

/// The omission law at the card object: each optional field's member is
/// present exactly when the field is set, and each field reads back by key.
#[verifier::rlimit(100)]
pub proof fn lemma_card_fields(c: CardV)
    ensures
        card_to_json(c) matches JsonM::Obj(ms) && kv_get(ms, "type"@) == Some(
            JsonM::Str(c.card_type),
        ) && kv_get(ms, "title"@) == (match c.title {
            Option::Some(x) => Option::Some(JsonM::Str(x)),
            Option::None => Option::None::<JsonM>,
        }) && kv_get(ms, "content"@) == (match c.content {
            Option::Some(x) => Option::Some(JsonM::Str(x)),
            Option::None => Option::None::<JsonM>,
        }) && kv_get(ms, "text"@) == (match c.text {
            Option::Some(x) => Option::Some(JsonM::Str(x)),
            Option::None => Option::None::<JsonM>,
        }) && kv_get(ms, "image"@) == (match c.image {
            Option::Some(i) => Option::Some(image_to_json(i)),
            Option::None => Option::None::<JsonM>,
        }) && kv_get(ms, "permissions"@) == (match c.permissions {
            Option::Some(ps) => Option::Some(JsonM::Arr(strs_json(ps))),
            Option::None => Option::None::<JsonM>,
        }),
{
    lemma_keys();
    let t = seq![("type"@, JsonM::Str(c.card_type))];
    let a = opt_member("title"@, c.title);
    let b = opt_member("content"@, c.content);
    let d = opt_member("text"@, c.text);
    let e = image_segment(c.image);
    let f = perms_segment(c.permissions);
    assert forall|p: Seq<char>|
        p == "type"@ || p == "title"@ || p == "content"@ || p == "text"@ || p == "image"@ || p
            == "permissions"@ implies #[trigger] kv_get(t + a + b + d + e + f, p) == (if p
        == "type"@ {
        Option::Some(JsonM::Str(c.card_type))
    } else if p == "title"@ {
        match c.title {
            Option::Some(x) => Option::Some(JsonM::Str(x)),
            Option::None => Option::None::<JsonM>,
        }
    } else if p == "content"@ {
        match c.content {
            Option::Some(x) => Option::Some(JsonM::Str(x)),
            Option::None => Option::None::<JsonM>,
        }
    } else if p == "text"@ {
        match c.text {
            Option::Some(x) => Option::Some(JsonM::Str(x)),
            Option::None => Option::None::<JsonM>,
        }
    } else if p == "image"@ {
        match c.image {
            Option::Some(i) => Option::Some(image_to_json(i)),
            Option::None => Option::None::<JsonM>,
        }
    } else {
        match c.permissions {
            Option::Some(ps) => Option::Some(JsonM::Arr(strs_json(ps))),
            Option::None => Option::None::<JsonM>,
        }
    }) by {
        lemma_kv_get_concat(t + a + b + d + e, f, p);
        lemma_kv_get_concat(t + a + b + d, e, p);
        lemma_kv_get_concat(t + a + b, d, p);
        lemma_kv_get_concat(t + a, b, p);
        lemma_kv_get_concat(t, a, p);
        lemma_single_get("type"@, JsonM::Str(c.card_type), p);
        lemma_optseg_get("title"@, c.title, p);
        lemma_optseg_get("content"@, c.content, p);
        lemma_optseg_get("text"@, c.text, p);
        lemma_segment_get_image(c.image, p);
        lemma_segment_get_perms(c.permissions, p);
    }
}

proof fn lemma_card_rt(c: CardV)
    ensures
        card_of_json(card_to_json(c)) == Some(c),
{
    lemma_card_fields(c);
    match c.image {
        Option::Some(i) => {
            lemma_image_rt(i);
            lemma_image_good(i);
        },
        Option::None => {
        },
    }
    match c.permissions {
        Option::Some(ps) => {
            lemma_strs_refold(ps);
        },
        Option::None => {
        },
    }
}

// ------------------------------------------------------------------
// Reprompt, body, response.
// ------------------------------------------------------------------

proof fn lemma_reprompt_good(p: RepromptV)
    ensures
        wf_json(reprompt_to_json(p)),
        !has_null(reprompt_to_json(p)),
{
    lemma_speech_good(p.output_speech);
    lemma_single_good("outputSpeech"@, speech_to_json(p.output_speech));
}

proof fn lemma_reprompt_rt(p: RepromptV)
    ensures
        reprompt_of_json(reprompt_to_json(p)) == Some(p),
{
    lemma_single_get("outputSpeech"@, speech_to_json(p.output_speech), "outputSpeech"@);
    lemma_speech_rt(p.output_speech);
}

pub open spec fn speech_segment(o: Option<SpeechV>) -> Seq<(Seq<char>, JsonM)> {
    match o {
        Option::Some(s) => seq![("outputSpeech"@, speech_to_json(s))],
        Option::None => Seq::empty(),
    }
}

pub open spec fn card_segment(o: Option<CardV>) -> Seq<(Seq<char>, JsonM)> {
    match o {
        Option::Some(c) => seq![("card"@, card_to_json(c))],
        Option::None => Seq::empty(),
    }
}

pub open spec fn reprompt_segment(o: Option<RepromptV>) -> Seq<(Seq<char>, JsonM)> {
    match o {
        Option::Some(p) => seq![("reprompt"@, reprompt_to_json(p))],
        Option::None => Seq::empty(),
    }
}

proof fn lemma_body_good(b: ResBodyV)
    ensures
        wf_json(body_to_json(b)),
        !has_null(body_to_json(b)),
{
    let s1 = speech_segment(b.output_speech);
    let s2 = card_segment(b.card);
    let s3 = reprompt_segment(b.reprompt);
    let s4 = seq![("shouldEndSession"@, JsonM::Bool(b.should_end_session))];
    match b.output_speech {
        Option::Some(s) => {
            lemma_speech_good(s);
            lemma_single_good("outputSpeech"@, speech_to_json(s));
        },
        Option::None => {
        },
    }
    match b.card {
        Option::Some(c) => {
            lemma_card_good(c);
            lemma_single_good("card"@, card_to_json(c));
        },
        Option::None => {
        },
    }
    match b.reprompt {
        Option::Some(p) => {
            lemma_reprompt_good(p);
            lemma_single_good("reprompt"@, reprompt_to_json(p));
        },
        Option::None => {
        },
    }
    lemma_single_good("shouldEndSession"@, JsonM::Bool(b.should_end_session));
    lemma_wf_members_concat(s1, s2);
    lemma_wf_members_concat(s1 + s2, s3);
    lemma_wf_members_concat(s1 + s2 + s3, s4);
    lemma_nonull_members_concat(s1, s2);
    lemma_nonull_members_concat(s1 + s2, s3);
    lemma_nonull_members_concat(s1 + s2 + s3, s4);
}

/// Each field of a rendered body reads back from the members by key; an
/// absent optional field is absent from the members.
#[verifier::rlimit(100)]
pub proof fn lemma_body_fields(b: ResBodyV)
    ensures
        body_to_json(b) matches JsonM::Obj(ms) && kv_get(ms, "outputSpeech"@) == (
        match b.output_speech {
            Option::Some(s) => Option::Some(speech_to_json(s)),
            Option::None => Option::None::<JsonM>,
        }) && kv_get(ms, "card"@) == (match b.card {
            Option::Some(c) => Option::Some(card_to_json(c)),
            Option::None => Option::None::<JsonM>,
        }) && kv_get(ms, "reprompt"@) == (match b.reprompt {
            Option::Some(p) => Option::Some(reprompt_to_json(p)),
            Option::None => Option::None::<JsonM>,
        }) && kv_get(ms, "shouldEndSession"@) == Some(JsonM::Bool(b.should_end_session)),
{
    lemma_keys();
    let s1 = speech_segment(b.output_speech);
    let s2 = card_segment(b.card);
    let s3 = reprompt_segment(b.reprompt);
    let s4 = seq![("shouldEndSession"@, JsonM::Bool(b.should_end_session))];
    assert forall|p: Seq<char>|
        p == "outputSpeech"@ || p == "card"@ || p == "reprompt"@ || p == "shouldEndSession"@
        implies #[trigger] kv_get(s1 + s2 + s3 + s4, p) == (if p == "outputSpeech"@ {
        match b.output_speech {
            Option::Some(s) => Option::Some(speech_to_json(s)),
            Option::None => Option::None::<JsonM>,
        }
    } else if p == "card"@ {
        match b.card {
            Option::Some(c) => Option::Some(card_to_json(c)),
            Option::None => Option::None::<JsonM>,
        }
    } else if p == "reprompt"@ {
        match b.reprompt {
            Option::Some(q) => Option::Some(reprompt_to_json(q)),
            Option::None => Option::None::<JsonM>,
        }
    } else {
        Option::Some(JsonM::Bool(b.should_end_session))
    }) by {
        lemma_kv_get_concat(s1 + s2 + s3, s4, p);
        lemma_kv_get_concat(s1 + s2, s3, p);
        lemma_kv_get_concat(s1, s2, p);
        match b.output_speech {
            Option::Some(s) => {
                lemma_single_get("outputSpeech"@, speech_to_json(s), p);
            },
            Option::None => {
            },
        }
        match b.card {
            Option::Some(c) => {
                lemma_single_get("card"@, card_to_json(c), p);
            },
            Option::None => {
            },
        }
        match b.reprompt {
            Option::Some(q) => {
                lemma_single_get("reprompt"@, reprompt_to_json(q), p);
            },
            Option::None => {
            },
        }
        lemma_single_get("shouldEndSession"@, JsonM::Bool(b.should_end_session), p);
    }
}

proof fn lemma_body_rt(b: ResBodyV)
    ensures
        resbody_of_json(body_to_json(b)) == Some(b),
{
    lemma_body_fields(b);
    match b.output_speech {
        Option::Some(s) => {
            lemma_speech_rt(s);
            lemma_speech_good(s);
        },
        Option::None => {
        },
    }
    match b.card {
        Option::Some(c) => {
            lemma_card_rt(c);
            lemma_card_good(c);
        },
        Option::None => {
        },
    }
    match b.reprompt {
        Option::Some(p) => {
            lemma_reprompt_rt(p);
            lemma_reprompt_good(p);
        },
        Option::None => {
        },
    }
}

proof fn lemma_attrs_good(m: Seq<(Seq<char>, Seq<char>)>)
    ensures
        wf_json_members(attrs_members(m)),
        !members_has_null(attrs_members(m)),
    decreases m.len(),
{
    if m.len() > 0 {
        assert(attrs_members(m)[0] == (m[0].0, JsonM::Str(m[0].1)));
        assert(attrs_members(m).skip(1) =~= attrs_members(m.skip(1)));
        lemma_attrs_good(m.skip(1));
        assert(wf_json(JsonM::Str(m[0].1)));
        assert(!has_null(JsonM::Str(m[0].1)));
        assert(wf_json_members(attrs_members(m)) == (wf_json(attrs_members(m)[0].1)
            && wf_json_members(attrs_members(m).skip(1))));
        assert(members_has_null(attrs_members(m)) == (has_null(attrs_members(m)[0].1)
            || members_has_null(attrs_members(m).skip(1))));
    } else {
        assert(attrs_members(m) =~= Seq::<(Seq<char>, JsonM)>::empty());
        assert(wf_json_members(Seq::<(Seq<char>, JsonM)>::empty()));
        assert(!members_has_null(Seq::<(Seq<char>, JsonM)>::empty()));
    }
}

/// Re-folding the rendered attribute members rebuilds exactly the original
/// entries, provided the keys are distinct.
proof fn lemma_attrs_refold(m: Seq<(Seq<char>, Seq<char>)>, acc: Seq<(Seq<char>, Seq<char>)>)
    requires
        kv_distinct(m),
        forall|i: int, j: int|
            0 <= i < acc.len() && 0 <= j < m.len() ==> (#[trigger] acc[i]).0 != (
            #[trigger] m[j]).0,
    ensures
        str_map_of_members(attrs_members(m), acc) == Option::Some(acc + m),
    decreases m.len(),
{
    if m.len() == 0 {
        assert(attrs_members(m) =~= Seq::<(Seq<char>, JsonM)>::empty());
        assert(acc + m =~= acc);
    } else {
        assert(attrs_members(m)[0] == (m[0].0, JsonM::Str(m[0].1)));
        assert(attrs_members(m).skip(1) =~= attrs_members(m.skip(1)));
        assert(forall|i: int| 0 <= i < acc.len() ==> (#[trigger] acc[i]).0 != m[0].0);
        lemma_kv_put_missing(acc, m[0].0, m[0].1);
        let acc2 = acc.push((m[0].0, m[0].1));
        assert(acc2 == acc.push(m[0]));
        assert(kv_distinct(m.skip(1))) by {
            assert(forall|i: int, j: int|
                0 <= i < j < m.skip(1).len() ==> m.skip(1)[i] == m[i + 1] && m.skip(1)[j] == m[j
                    + 1]);
        }
        assert(forall|i: int, j: int|
            0 <= i < acc2.len() && 0 <= j < m.skip(1).len() ==> (#[trigger] acc2[i]).0 != (
            #[trigger] m.skip(1)[j]).0) by {
            assert(forall|j: int| 0 <= j < m.skip(1).len() ==> #[trigger] m.skip(1)[j] == m[j + 1]);
        }
        lemma_attrs_refold(m.skip(1), acc2);
        assert(acc2 + m.skip(1) =~= acc + m);
    }
}

pub open spec fn body_segment(b: ResBodyV) -> Seq<(Seq<char>, JsonM)> {
    seq![("response"@, body_to_json(b))]
}

/// Each field of a rendered response reads back from the members by key;
/// the attribute bag's member is present exactly when the bag is present
/// and non-empty.
#[verifier::rlimit(100)]
pub proof fn lemma_response_fields(r: ResponseV)
    ensures
        response_to_json(r) matches JsonM::Obj(ms) && kv_get(ms, "version"@) == Some(
            JsonM::Str(r.version),
        ) && kv_get(ms, "sessionAttributes"@) == (match r.session_attributes {
            Option::Some(m) => if m.len() == 0 {
                Option::None::<JsonM>
            } else {
                Option::Some(JsonM::Obj(attrs_members(m)))
            },
            Option::None => Option::None::<JsonM>,
        }) && kv_get(ms, "response"@) == Some(body_to_json(r.body)),
{
    lemma_keys();
    let s1 = seq![("version"@, JsonM::Str(r.version))];
    let s2 = attrs_segment(r.session_attributes);
    let s3 = seq![("response"@, body_to_json(r.body))];
    assert forall|p: Seq<char>|
        p == "version"@ || p == "sessionAttributes"@ || p == "response"@ implies #[trigger] kv_get(
        s1 + s2 + s3,
        p,
    ) == (if p == "version"@ {
        Option::Some(JsonM::Str(r.version))
    } else if p == "sessionAttributes"@ {
        match r.session_attributes {
            Option::Some(m) => if m.len() == 0 {
                Option::None::<JsonM>
            } else {
                Option::Some(JsonM::Obj(attrs_members(m)))
            },
            Option::None => Option::None::<JsonM>,
        }
    } else {
        Option::Some(body_to_json(r.body))
    }) by {
        lemma_kv_get_concat(s1 + s2, s3, p);
        lemma_kv_get_concat(s1, s2, p);
        lemma_single_get("version"@, JsonM::Str(r.version), p);
        match r.session_attributes {
            Option::Some(m) => {
                if m.len() > 0 {
                    lemma_single_get("sessionAttributes"@, JsonM::Obj(attrs_members(m)), p);
                }
            },
            Option::None => {
            },
        }
        lemma_single_get("response"@, body_to_json(r.body), p);
    }
}

/// The omission law, whole-tree form: a rendered response is a well-formed
/// tree in which no `null` stands anywhere — absent optional fields
/// contribute no member at all (see the field lemmas for the key-by-key
/// statement).
pub proof fn lemma_response_good(r: ResponseV)
    ensures
        wf_json(response_to_json(r)),
        !has_null(response_to_json(r)),
{
    let s1 = seq![("version"@, JsonM::Str(r.version))];
    let s2 = attrs_segment(r.session_attributes);
    let s3 = seq![("response"@, body_to_json(r.body))];
    lemma_single_good("version"@, JsonM::Str(r.version));
    match r.session_attributes {
        Option::Some(m) => {
            lemma_attrs_good(m);
            if m.len() > 0 {
                lemma_single_good("sessionAttributes"@, JsonM::Obj(attrs_members(m)));
            }
        },
        Option::None => {
        },
    }
    lemma_body_good(r.body);
    lemma_single_good("response"@, body_to_json(r.body));
    lemma_wf_members_concat(s1, s2);
    lemma_wf_members_concat(s1 + s2, s3);
    lemma_nonull_members_concat(s1, s2);
    lemma_nonull_members_concat(s1 + s2, s3);
}

/// The round-trip law: rendering is lossless. For every well-formed
/// response value, reading the rendered tree back yields exactly that
/// value, and parsing the rendered text yields it too.
pub proof fn lemma_response_round_trip(r: ResponseV)
    requires
        resp_wf(r),
    ensures
        response_of_json(response_to_json(r)) == Some(r),
        spec_parse_response(ser_value(response_to_json(r))) == Some(r),
{
    lemma_response_fields(r);
    lemma_body_rt(r.body);
    match r.session_attributes {
        Option::Some(m) => {
            lemma_attrs_refold(m, Seq::empty());
            assert(Seq::<(Seq<char>, Seq<char>)>::empty() + m =~= m);
        },
        Option::None => {
        },
    }
    assert(response_of_json(response_to_json(r)) == Some(r));
    lemma_response_good(r);
    crate::roundtrip::lemma_document_rt(response_to_json(r));
}

} // verus!
