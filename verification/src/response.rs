//! The outbound side of the wire contract: the response schema model, the
//! fluent builder, and the rendering to JSON text.
//!
//! Tagged values are only ever made through their smart constructors, so a
//! speech or card can never carry fields that disagree with its tag. The
//! renderer omits every absent optional field — it never writes a `null` —
//! and what it writes parses back to the same logical value.

use vstd::prelude::*;

use crate::json::Json;
use crate::json::JsonM;
use crate::json::MalformedPayload;
use crate::json::get_field;
use crate::json::jfield;
use crate::json::jview_members;
use crate::json::jview_seq;
use crate::json::opt_str;
use crate::json::read_opt_str;
use crate::json::read_req_bool;
use crate::json::read_req_str;
use crate::json::req_bool;
use crate::json::req_str;
use crate::kvmap::KvMap;
use crate::kvmap::kv_distinct;
use crate::kvmap::kv_put;
use crate::request::str_map_of_members;
use crate::request::str_map_from_members;
use crate::request::view_opt_str;

verus! {

// ------------------------------------------------------------------
// The schema model. Fields stay private: the tagged constructors are the
// only way to build these values, which is what keeps tag and payload
// consistent by construction.
// ------------------------------------------------------------------

/// The top-level outbound payload.
#[derive(Debug, Clone)]
pub struct Response {
    version: String,
    session_attributes: Option<KvMap<String>>,
    body: ResBody,
}

/// The response payload, wire name `"response"`.
#[derive(Debug, Clone)]
pub struct ResBody {
    output_speech: Option<Speech>,
    card: Option<Card>,
    reprompt: Option<Reprompt>,
    should_end_session: bool,
}

/// Output speech, tagged `"PlainText"` or `"SSML"`; exactly one of the two
/// payload fields is set, matching the tag.
#[derive(Debug, Clone)]
pub struct Speech {
    speech_type: String,
    text: Option<String>,
    ssml: Option<String>,
    play_behavior: Option<String>,
}

/// Play behavior for output speech.
#[derive(Debug, PartialEq, Eq, Structural, Clone, Copy)]
pub enum PlayBehavior {
    Enqueue,
    ReplaceAll,
    ReplaceEnqueued,
}

/// The card kinds a response can carry.
#[derive(Debug, PartialEq, Eq, Structural, Clone, Copy)]
pub enum CardType {
    Simple,
    Standard,
    LinkAccount,
    AskForPermission,
}

/// A display card; which fields are set depends on the tag, enforced by the
/// four constructors.
#[derive(Debug, Clone)]
pub struct Card {
    card_type: String,
    title: Option<String>,
    content: Option<String>,
    text: Option<String>,
    image: Option<Image>,
    permissions: Option<Vec<String>>,
}

#[derive(Debug, Clone)]
pub struct Reprompt {
    output_speech: Speech,
}

#[derive(Debug, Clone)]
pub struct Image {
    small_image_url: Option<String>,
    large_image_url: Option<String>,
}

pub ghost struct ResponseV {
    pub version: Seq<char>,
    pub session_attributes: Option<Seq<(Seq<char>, Seq<char>)>>,
    pub body: ResBodyV,
}

pub ghost struct ResBodyV {
    pub output_speech: Option<SpeechV>,
    pub card: Option<CardV>,
    pub reprompt: Option<RepromptV>,
    pub should_end_session: bool,
}

pub ghost struct SpeechV {
    pub speech_type: Seq<char>,
    pub text: Option<Seq<char>>,
    pub ssml: Option<Seq<char>>,
    pub play_behavior: Option<Seq<char>>,
}

pub ghost struct CardV {
    pub card_type: Seq<char>,
    pub title: Option<Seq<char>>,
    pub content: Option<Seq<char>>,
    pub text: Option<Seq<char>>,
    pub image: Option<ImageV>,
    pub permissions: Option<Seq<Seq<char>>>,
}

pub ghost struct RepromptV {
    pub output_speech: SpeechV,
}

pub ghost struct ImageV {
    pub small_image_url: Option<Seq<char>>,
    pub large_image_url: Option<Seq<char>>,
}

impl View for Image {
    type V = ImageV;

    closed spec fn view(&self) -> ImageV {
        ImageV {
            small_image_url: view_opt_str(self.small_image_url),
            large_image_url: view_opt_str(self.large_image_url),
        }
    }
}

impl View for Speech {
    type V = SpeechV;

    closed spec fn view(&self) -> SpeechV {
        SpeechV {
            speech_type: self.speech_type@,
            text: view_opt_str(self.text),
            ssml: view_opt_str(self.ssml),
            play_behavior: view_opt_str(self.play_behavior),
        }
    }
}

impl View for Reprompt {
    type V = RepromptV;

    closed spec fn view(&self) -> RepromptV {
        RepromptV { output_speech: self.output_speech@ }
    }
}

impl View for Card {
    type V = CardV;

    closed spec fn view(&self) -> CardV {
        CardV {
            card_type: self.card_type@,
            title: view_opt_str(self.title),
            content: view_opt_str(self.content),
            text: view_opt_str(self.text),
            image: match self.image {
                Option::Some(i) => Option::Some(i@),
                Option::None => Option::None,
            },
            permissions: match self.permissions {
                Option::Some(ps) => Option::Some(ps@.map_values(|s: String| s@)),
                Option::None => Option::None,
            },
        }
    }
}

impl View for ResBody {
    type V = ResBodyV;

    closed spec fn view(&self) -> ResBodyV {
        ResBodyV {
            output_speech: match self.output_speech {
                Option::Some(s) => Option::Some(s@),
                Option::None => Option::None,
            },
            card: match self.card {
                Option::Some(c) => Option::Some(c@),
                Option::None => Option::None,
            },
            reprompt: match self.reprompt {
                Option::Some(r) => Option::Some(r@),
                Option::None => Option::None,
            },
            should_end_session: self.should_end_session,
        }
    }
}

impl View for Response {
    type V = ResponseV;

    closed spec fn view(&self) -> ResponseV {
        ResponseV {
            version: self.version@,
            session_attributes: match self.session_attributes {
                Option::Some(m) => Option::Some(m@),
                Option::None => Option::None,
            },
            body: self.body@,
        }
    }
}

// ------------------------------------------------------------------
// Spec-level pictures of what the constructors build.
// ------------------------------------------------------------------

pub open spec fn spec_plain_speech(text: Seq<char>) -> SpeechV {
    SpeechV {
        speech_type: "PlainText"@,
        text: Option::Some(text),
        ssml: Option::None,
        play_behavior: Option::None,
    }
}

pub open spec fn spec_ssml_speech(ssml: Seq<char>) -> SpeechV {
    SpeechV {
        speech_type: "SSML"@,
        text: Option::None,
        ssml: Option::Some(ssml),
        play_behavior: Option::None,
    }
}

pub open spec fn behavior_tag(b: PlayBehavior) -> Seq<char> {
    match b {
        PlayBehavior::Enqueue => "ENQUEUE"@,
        PlayBehavior::ReplaceAll => "REPLACE_ALL"@,
        PlayBehavior::ReplaceEnqueued => "REPLACE_ENQUEUED"@,
    }
}

pub open spec fn card_tag(t: CardType) -> Seq<char> {
    match t {
        CardType::Simple => "Simple"@,
        CardType::Standard => "Standard"@,
        CardType::LinkAccount => "LinkAccount"@,
        CardType::AskForPermission => "AskForPermissionsConsent"@,
    }
}

impl PlayBehavior {
    /// The wire tag of this play behavior.
    pub fn tag(&self) -> (r: &str)
        ensures
            r@ == behavior_tag(*self),
    {
        match *self {
            PlayBehavior::Enqueue => "ENQUEUE",
            PlayBehavior::ReplaceAll => "REPLACE_ALL",
            PlayBehavior::ReplaceEnqueued => "REPLACE_ENQUEUED",
        }
    }
}

impl CardType {
    /// The wire tag of this card kind.
    pub fn tag(&self) -> (r: &str)
        ensures
            r@ == card_tag(*self),
    {
        match *self {
            CardType::Simple => "Simple",
            CardType::Standard => "Standard",
            CardType::LinkAccount => "LinkAccount",
            CardType::AskForPermission => "AskForPermissionsConsent",
        }
    }
}

pub open spec fn spec_simple_card(title: Seq<char>, text: Seq<char>) -> CardV {
    CardV {
        card_type: "Simple"@,
        title: Option::Some(title),
        content: Option::Some(text),
        text: Option::None,
        image: Option::None,
        permissions: Option::None,
    }
}

pub open spec fn spec_standard_card(title: Seq<char>, text: Seq<char>, image: ImageV) -> CardV {
    CardV {
        card_type: "Standard"@,
        title: Option::Some(title),
        content: Option::None,
        text: Option::Some(text),
        image: Option::Some(image),
        permissions: Option::None,
    }
}

pub open spec fn spec_bare_response(should_end: bool) -> ResponseV {
    ResponseV {
        version: "1.0"@,
        session_attributes: Option::None,
        body: ResBodyV {
            output_speech: Option::None,
            card: Option::None,
            reprompt: Option::None,
            should_end_session: should_end,
        },
    }
}

/// The common-path response: session ended, a simple card from title and
/// text, and plain-text speech carrying the text.
pub open spec fn spec_simple_response(title: Seq<char>, text: Seq<char>) -> ResponseV {
    ResponseV {
        version: "1.0"@,
        session_attributes: Option::None,
        body: ResBodyV {
            output_speech: Option::Some(spec_plain_speech(text)),
            card: Option::Some(spec_simple_card(title, text)),
            reprompt: Option::None,
            should_end_session: true,
        },
    }
}

/// The attribute bag after an upsert, created on first use.
pub open spec fn spec_put_attribute(
    attrs: Option<Seq<(Seq<char>, Seq<char>)>>,
    key: Seq<char>,
    val: Seq<char>,
) -> Seq<(Seq<char>, Seq<char>)> {
    kv_put(
        match attrs {
            Option::Some(m) => m,
            Option::None => Seq::empty(),
        },
        key,
        val,
    )
}

/// What every value out of the builder satisfies: a present attribute bag is
/// non-empty and has distinct keys.
pub open spec fn resp_wf(r: ResponseV) -> bool {
    match r.session_attributes {
        Option::Some(m) => m.len() > 0 && kv_distinct(m),
        Option::None => true,
    }
}

// ------------------------------------------------------------------
// The builder.
// ------------------------------------------------------------------

impl Speech {
    /// Plain-text output speech: the tag and the populated field are set
    /// together, never independently.
    pub fn plain(s: &str) -> (r: Speech)
        ensures
            r@ == spec_plain_speech(s@),
    {
        Speech {
            speech_type: String::from_str("PlainText"),
            text: Some(String::from_str(s)),
            ssml: None,
            play_behavior: None,
        }
    }

    /// SSML output speech.
    pub fn ssml(s: &str) -> (r: Speech)
        ensures
            r@ == spec_ssml_speech(s@),
    {
        Speech {
            speech_type: String::from_str("SSML"),
            ssml: Some(String::from_str(s)),
            text: None,
            play_behavior: None,
        }
    }

    /// Sets the play behavior; every other field keeps its value.
    pub fn play_behavior(&mut self, behavior: PlayBehavior)
        ensures
            final(self)@ == (SpeechV {
                play_behavior: Option::Some(behavior_tag(behavior)),
                ..old(self)@
            }),
    {
        self.play_behavior = Some(String::from_str(behavior.tag()));
    }

    pub fn speech_type(&self) -> (r: &str)
        ensures
            r@ == self@.speech_type,
    {
        self.speech_type.as_str()
    }

    pub fn text(&self) -> (r: &Option<String>)
        ensures
            view_opt_str(*r) == self@.text,
    {
        &self.text
    }

    pub fn ssml_text(&self) -> (r: &Option<String>)
        ensures
            view_opt_str(*r) == self@.ssml,
    {
        &self.ssml
    }

    pub fn behavior(&self) -> (r: &Option<String>)
        ensures
            view_opt_str(*r) == self@.play_behavior,
    {
        &self.play_behavior
    }
}

impl Card {
    /// A simple card: title and content.
    pub fn simple(title: &str, text: &str) -> (r: Card)
        ensures
            r@ == spec_simple_card(title@, text@),
    {
        Card {
            card_type: String::from_str(CardType::Simple.tag()),
            title: Some(String::from_str(title)),
            content: Some(String::from_str(text)),
            text: None,
            image: None,
            permissions: None,
        }
    }

    /// A standard card: title, text and an image.
    pub fn standard(title: &str, text: &str, image: Image) -> (r: Card)
        ensures
            r@ == spec_standard_card(title@, text@, image@),
    {
        Card {
            card_type: String::from_str(CardType::Standard.tag()),
            title: Some(String::from_str(title)),
            content: None,
            text: Some(String::from_str(text)),
            image: Some(image),
            permissions: None,
        }
    }

    /// A link-account card: the tag alone, no fields.
    pub fn link_account() -> (r: Card)
        ensures
            r@ == (CardV {
                card_type: "LinkAccount"@,
                title: Option::None,
                content: Option::None,
                text: Option::None,
                image: Option::None,
                permissions: Option::None,
            }),
    {
        Card {
            card_type: String::from_str(CardType::LinkAccount.tag()),
            title: None,
            content: None,
            text: None,
            image: None,
            permissions: None,
        }
    }

    /// A permissions-consent card carrying the requested permissions.
    pub fn ask_for_permission(permissions: Vec<String>) -> (r: Card)
        ensures
            r@ == (CardV {
                card_type: "AskForPermissionsConsent"@,
                title: Option::None,
                content: Option::None,
                text: Option::None,
                image: Option::None,
                permissions: Option::Some(permissions@.map_values(|s: String| s@)),
            }),
    {
        Card {
            card_type: String::from_str(CardType::AskForPermission.tag()),
            title: None,
            content: None,
            text: None,
            image: None,
            permissions: Some(permissions),
        }
    }

    pub fn card_type(&self) -> (r: &str)
        ensures
            r@ == self@.card_type,
    {
        self.card_type.as_str()
    }

    pub fn title(&self) -> (r: &Option<String>)
        ensures
            view_opt_str(*r) == self@.title,
    {
        &self.title
    }

    pub fn content(&self) -> (r: &Option<String>)
        ensures
            view_opt_str(*r) == self@.content,
    {
        &self.content
    }

    pub fn text(&self) -> (r: &Option<String>)
        ensures
            view_opt_str(*r) == self@.text,
    {
        &self.text
    }

    pub fn image(&self) -> (r: &Option<Image>)
        ensures
            match r {
                Some(i) => self@.image == Option::Some(i@),
                None => self@.image is None,
            },
    {
        &self.image
    }

    pub fn permissions(&self) -> (r: &Option<Vec<String>>)
        ensures
            match r {
                Some(ps) => self@.permissions == Option::Some(ps@.map_values(|s: String| s@)),
                None => self@.permissions is None,
            },
    {
        &self.permissions
    }
}

impl Reprompt {
    pub fn output_speech(&self) -> (r: &Speech)
        ensures
            r@ == self@.output_speech,
    {
        &self.output_speech
    }
}

impl Image {
    /// An image with no URLs yet.
    pub fn new() -> (r: Image)
        ensures
            r@ == (ImageV { small_image_url: Option::None, large_image_url: Option::None }),
    {
        Image { small_image_url: None, large_image_url: None }
    }

    /// Sets the small-image URL.
    pub fn small_image_url(self, url: String) -> (r: Image)
        ensures
            r@ == (ImageV { small_image_url: Option::Some(url@), ..self@ }),
    {
        Image { small_image_url: Some(url), ..self }
    }

    /// Sets the large-image URL.
    pub fn large_image_url(self, url: String) -> (r: Image)
        ensures
            r@ == (ImageV { large_image_url: Option::Some(url@), ..self@ }),
    {
        Image { large_image_url: Some(url), ..self }
    }

    pub fn small_url(&self) -> (r: &Option<String>)
        ensures
            view_opt_str(*r) == self@.small_image_url,
    {
        &self.small_image_url
    }

    pub fn large_url(&self) -> (r: &Option<String>)
        ensures
            view_opt_str(*r) == self@.large_image_url,
    {
        &self.large_image_url
    }
}

impl Default for Image {
    /// Same value as [`Image::new`].
    fn default() -> (r: Image)
        ensures
            r@ == (ImageV { small_image_url: Option::None, large_image_url: Option::None }),
    {
        Image { small_image_url: None, large_image_url: None }
    }
}

impl Response {
    /// A response with only the required element set: everything optional is
    /// absent.
    pub fn new(should_end: bool) -> (r: Response)
        ensures
            r@ == spec_bare_response(should_end),
            resp_wf(r@),
    {
        Response {
            version: String::from_str("1.0"),
            session_attributes: None,
            body: ResBody {
                output_speech: None,
                card: None,
                reprompt: None,
                should_end_session: should_end,
            },
        }
    }

    /// A basic plain response with a simple card; same as [`Response::simple`].
    pub fn new_simple(title: &str, text: &str) -> (r: Response)
        ensures
            r@ == spec_simple_response(title@, text@),
            resp_wf(r@),
    {
        Response::simple(title, text)
    }

    /// The common-path constructor: ends the session, shows a simple card
    /// built from title and text, and speaks the text. Composed purely from
    /// the primitive operations.
    pub fn simple(title: &str, text: &str) -> (r: Response)
        ensures
            r@ == spec_simple_response(title@, text@),
            resp_wf(r@),
    {
        Response::new(true).card(Card::simple(title, text)).speech(Speech::plain(text))
    }

    /// An empty response ending the session: no speech, no card.
    pub fn end() -> (r: Response)
        ensures
            r@ == spec_bare_response(true),
            resp_wf(r@),
    {
        Response::new(true)
    }

    /// Sets or replaces the output speech; nothing else changes.
    pub fn speech(self, speech: Speech) -> (r: Response)
        ensures
            r@ == (ResponseV {
                body: ResBodyV { output_speech: Option::Some(speech@), ..self@.body },
                ..self@
            }),
            resp_wf(self@) ==> resp_wf(r@),
    {
        Response {
            body: ResBody { output_speech: Some(speech), ..self.body },
            ..self
        }
    }

    /// Sets or replaces the card; nothing else changes.
    pub fn card(self, card: Card) -> (r: Response)
        ensures
            r@ == (ResponseV {
                body: ResBodyV { card: Option::Some(card@), ..self@.body },
                ..self@
            }),
            resp_wf(self@) ==> resp_wf(r@),
    {
        Response {
            body: ResBody { card: Some(card), ..self.body },
            ..self
        }
    }

    /// Upserts a session attribute, creating the bag on first use; repeated
    /// calls with one key overwrite, they never accumulate duplicates. The
    /// attributes can be read back on the next request for basic state
    /// persistence.
    pub fn add_attribute(&mut self, key: &str, val: &str)
        ensures
            final(self)@ == (ResponseV {
                session_attributes: Option::Some(
                    spec_put_attribute(old(self)@.session_attributes, key@, val@),
                ),
                ..old(self)@
            }),
            resp_wf(old(self)@) ==> resp_wf(final(self)@),
    {
        let k = String::from_str(key);
        let v = String::from_str(val);
        let ghost oldattrs = self@.session_attributes;
        match &mut self.session_attributes {
            Some(m) => {
                m.insert(k, v);
            },
            opt => {
                let mut m: KvMap<String> = KvMap::new();
                m.insert(k, v);
                *opt = Some(m);
                proof {
                    assert(kv_put(Seq::<(Seq<char>, Seq<char>)>::empty(), key@, val@).len() == 1);
                }
            },
        }
        proof {
            let base = match oldattrs {
                Option::Some(m) => m,
                Option::None => Seq::<(Seq<char>, Seq<char>)>::empty(),
            };
            lemma_kv_put_nonempty(base, key@, val@);
            if resp_wf(old(self)@) {
                assert(kv_distinct(base));
                crate::kvmap::lemma_kv_put_distinct(base, key@, val@);
            }
        }
    }

    pub fn version(&self) -> (r: &str)
        ensures
            r@ == self@.version,
    {
        self.version.as_str()
    }

    pub fn session_attributes(&self) -> (r: &Option<KvMap<String>>)
        ensures
            match r {
                Some(m) => self@.session_attributes == Option::Some(m@),
                None => self@.session_attributes is None,
            },
    {
        &self.session_attributes
    }

    pub fn body(&self) -> (r: &ResBody)
        ensures
            r@ == self@.body,
    {
        &self.body
    }
}

impl ResBody {
    pub fn output_speech(&self) -> (r: &Option<Speech>)
        ensures
            match r {
                Some(s) => self@.output_speech == Option::Some(s@),
                None => self@.output_speech is None,
            },
    {
        &self.output_speech
    }

    pub fn card(&self) -> (r: &Option<Card>)
        ensures
            match r {
                Some(c) => self@.card == Option::Some(c@),
                None => self@.card is None,
            },
    {
        &self.card
    }

    pub fn reprompt(&self) -> (r: &Option<Reprompt>)
        ensures
            match r {
                Some(p) => self@.reprompt == Option::Some(p@),
                None => self@.reprompt is None,
            },
    {
        &self.reprompt
    }

    pub fn should_end_session(&self) -> (r: bool)
        ensures
            r == self@.should_end_session,
    {
        self.should_end_session
    }
}

/// An upsert never leaves the bag empty.
proof fn lemma_kv_put_nonempty(m: Seq<(Seq<char>, Seq<char>)>, key: Seq<char>, val: Seq<char>)
    ensures
        kv_put(m, key, val).len() > 0,
    decreases m.len(),
{
    if m.len() > 0 && m[0].0 != key {
        lemma_kv_put_nonempty(m.skip(1), key, val);
    }
}

// ------------------------------------------------------------------
// Rendering: the exact JSON tree a response serializes to. Optional fields
// contribute no member at all when absent — never a `null`.
// ------------------------------------------------------------------

/// The member an optional string field contributes: one entry when set,
/// nothing when absent.
pub open spec fn opt_member(key: Seq<char>, o: Option<Seq<char>>) -> Seq<(Seq<char>, JsonM)> {
    match o {
        Option::Some(s) => seq![(key, JsonM::Str(s))],
        Option::None => Seq::empty(),
    }
}

pub open spec fn speech_to_json(s: SpeechV) -> JsonM {
    JsonM::Obj(
        seq![("type"@, JsonM::Str(s.speech_type))] + opt_member("text"@, s.text) + opt_member(
            "ssml"@,
            s.ssml,
        ) + opt_member("playBehavior"@, s.play_behavior),
    )
}

pub open spec fn image_to_json(i: ImageV) -> JsonM {
    JsonM::Obj(
        opt_member("smallImageUrl"@, i.small_image_url) + opt_member(
            "largeImageUrl"@,
            i.large_image_url,
        ),
    )
}

pub open spec fn strs_json(ps: Seq<Seq<char>>) -> Seq<JsonM> {
    ps.map_values(|s: Seq<char>| JsonM::Str(s))
}

pub open spec fn card_to_json(c: CardV) -> JsonM {
    JsonM::Obj(
        seq![("type"@, JsonM::Str(c.card_type))] + opt_member("title"@, c.title) + opt_member(
            "content"@,
            c.content,
        ) + opt_member("text"@, c.text) + (match c.image {
            Option::Some(i) => seq![("image"@, image_to_json(i))],
            Option::None => Seq::empty(),
        }) + (match c.permissions {
            Option::Some(ps) => seq![("permissions"@, JsonM::Arr(strs_json(ps)))],
            Option::None => Seq::empty(),
        }),
    )
}

pub open spec fn reprompt_to_json(r: RepromptV) -> JsonM {
    JsonM::Obj(seq![("outputSpeech"@, speech_to_json(r.output_speech))])
}

pub open spec fn body_to_json(b: ResBodyV) -> JsonM {
    JsonM::Obj(
        (match b.output_speech {
            Option::Some(s) => seq![("outputSpeech"@, speech_to_json(s))],
            Option::None => Seq::empty(),
        }) + (match b.card {
            Option::Some(c) => seq![("card"@, card_to_json(c))],
            Option::None => Seq::empty(),
        }) + (match b.reprompt {
            Option::Some(p) => seq![("reprompt"@, reprompt_to_json(p))],
            Option::None => Seq::empty(),
        }) + seq![("shouldEndSession"@, JsonM::Bool(b.should_end_session))],
    )
}

pub open spec fn attrs_members(m: Seq<(Seq<char>, Seq<char>)>) -> Seq<(Seq<char>, JsonM)> {
    m.map_values(|p: (Seq<char>, Seq<char>)| (p.0, JsonM::Str(p.1)))
}

/// The attribute bag's member: omitted entirely when the bag is absent or
/// empty.
pub open spec fn attrs_segment(a: Option<Seq<(Seq<char>, Seq<char>)>>) -> Seq<(Seq<char>, JsonM)> {
    match a {
        Option::Some(m) => if m.len() == 0 {
            Seq::empty()
        } else {
            seq![("sessionAttributes"@, JsonM::Obj(attrs_members(m)))]
        },
        Option::None => Seq::empty(),
    }
}

pub open spec fn response_to_json(r: ResponseV) -> JsonM {
    JsonM::Obj(
        seq![("version"@, JsonM::Str(r.version))] + attrs_segment(r.session_attributes) + seq![
            ("response"@, body_to_json(r.body)),
        ],
    )
}

fn push_str_member(ms: &mut Vec<(String, Json)>, key: &str, s: &String)
    ensures
        jview_members(final(ms)@) == jview_members(old(ms)@).push((key@, JsonM::Str(s@))),
{
    let ghost before = ms@;
    let p = (String::from_str(key), Json::Str(s.clone()));
    ms.push(p);
    proof {
        crate::json::lemma_jview_members_push(before, (ms@[ms@.len() - 1]));
        assert(ms@[ms@.len() - 1].0@ == key@);
        assert(crate::json::jview(ms@[ms@.len() - 1].1) == JsonM::Str(s@));
    }
}

fn push_json_member(ms: &mut Vec<(String, Json)>, key: &str, j: Json)
    ensures
        jview_members(final(ms)@) == jview_members(old(ms)@).push((key@, j@)),
{
    let ghost before = ms@;
    let ghost jv = j@;
    ms.push((String::from_str(key), j));
    proof {
        crate::json::lemma_jview_members_push(before, (ms@[ms@.len() - 1]));
        assert(ms@[ms@.len() - 1].0@ == key@);
        assert(crate::json::jview(ms@[ms@.len() - 1].1) == jv);
    }
}

fn push_bool_member(ms: &mut Vec<(String, Json)>, key: &str, b: bool)
    ensures
        jview_members(final(ms)@) == jview_members(old(ms)@).push((key@, JsonM::Bool(b))),
{
    let ghost before = ms@;
    ms.push((String::from_str(key), Json::Bool(b)));
    proof {
        crate::json::lemma_jview_members_push(before, (ms@[ms@.len() - 1]));
    }
}

fn push_opt_member(ms: &mut Vec<(String, Json)>, key: &str, o: &Option<String>)
    ensures
        jview_members(final(ms)@) == jview_members(old(ms)@) + opt_member(key@, view_opt_str(*o)),
{
    match o {
        Some(s) => {
            push_str_member(ms, key, s);
            proof {
                assert(jview_members(ms@) =~= jview_members(old(ms)@) + opt_member(
                    key@,
                    view_opt_str(*o),
                ));
            }
        },
        None => {
            proof {
                assert(jview_members(ms@) + opt_member(key@, view_opt_str(*o)) =~= jview_members(
                    ms@,
                ));
            }
        },
    }
}

impl Image {
    fn to_json(&self) -> (r: Json)
        ensures
            r@ == image_to_json(self@),
    {
        let mut ms: Vec<(String, Json)> = Vec::new();
        proof {
            assert(jview_members(ms@) =~= Seq::<(Seq<char>, JsonM)>::empty());
        }
        push_opt_member(&mut ms, "smallImageUrl", &self.small_image_url);
        push_opt_member(&mut ms, "largeImageUrl", &self.large_image_url);
        proof {
            assert(jview_members(ms@) =~= opt_member("smallImageUrl"@, self@.small_image_url)
                + opt_member("largeImageUrl"@, self@.large_image_url));
        }
        Json::Obj(ms)
    }
}

impl Speech {
    fn to_json(&self) -> (r: Json)
        ensures
            r@ == speech_to_json(self@),
    {
        let mut ms: Vec<(String, Json)> = Vec::new();
        proof {
            assert(jview_members(ms@) =~= Seq::<(Seq<char>, JsonM)>::empty());
        }
        push_str_member(&mut ms, "type", &self.speech_type);
        proof {
            assert(jview_members(ms@) =~= seq![("type"@, JsonM::Str(self@.speech_type))]);
        }
        push_opt_member(&mut ms, "text", &self.text);
        push_opt_member(&mut ms, "ssml", &self.ssml);
        push_opt_member(&mut ms, "playBehavior", &self.play_behavior);
        proof {
            assert(jview_members(ms@) =~= seq![("type"@, JsonM::Str(self@.speech_type))]
                + opt_member("text"@, self@.text) + opt_member("ssml"@, self@.ssml) + opt_member(
                "playBehavior"@,
                self@.play_behavior,
            ));
        }
        Json::Obj(ms)
    }
}

impl Card {
    fn to_json(&self) -> (r: Json)
        ensures
            r@ == card_to_json(self@),
    {
        let mut ms: Vec<(String, Json)> = Vec::new();
        proof {
            assert(jview_members(ms@) =~= Seq::<(Seq<char>, JsonM)>::empty());
        }
        push_str_member(&mut ms, "type", &self.card_type);
        proof {
            assert(jview_members(ms@) =~= seq![("type"@, JsonM::Str(self@.card_type))]);
        }
        push_opt_member(&mut ms, "title", &self.title);
        push_opt_member(&mut ms, "content", &self.content);
        push_opt_member(&mut ms, "text", &self.text);
        let ghost upto_text = jview_members(ms@);
        match &self.image {
            Some(img) => {
                let ij = img.to_json();
                push_json_member(&mut ms, "image", ij);
                proof {
                    assert(jview_members(ms@) =~= upto_text + seq![
                        ("image"@, image_to_json(self@.image->0)),
                    ]);
                }
            },
            None => {
                proof {
                    assert(jview_members(ms@) =~= upto_text + Seq::<(Seq<char>, JsonM)>::empty());
                }
            },
        }
        let ghost upto_image = jview_members(ms@);
        match &self.permissions {
            Some(ps) => {
                let mut items: Vec<Json> = Vec::new();
                let n = ps.len();
                let mut i: usize = 0;
                proof {
                    assert(jview_seq(items@) =~= Seq::<JsonM>::empty());
                    assert(strs_json((self@.permissions->0).take(0)) =~= Seq::<JsonM>::empty());
                }
                while i < n
                    invariant
                        i <= n,
                        n == ps@.len(),
                        self@.permissions == Option::Some(ps@.map_values(|s: String| s@)),
                        jview_seq(items@) == strs_json(
                            ps@.map_values(|s: String| s@).take(i as int),
                        ),
                    decreases n - i,
                {
                    let ghost before = items@;
                    let ghost pv = ps@.map_values(|s: String| s@);
                    items.push(Json::Str(ps[i].clone()));
                    proof {
                        crate::json::lemma_jview_seq_push(before, items@[items@.len() - 1]);
                        assert(crate::json::jview(items@[items@.len() - 1]) == JsonM::Str(
                            pv[i as int],
                        ));
                        assert(strs_json(pv.take(i + 1)) =~= strs_json(pv.take(i as int)).push(
                            JsonM::Str(pv[i as int]),
                        ));
                    }
                    i = i + 1;
                }
                proof {
                    let pv = self@.permissions->0;
                    assert(pv.take(n as int) =~= pv);
                }
                push_json_member(&mut ms, "permissions", Json::Arr(items));
                proof {
                    assert(jview_members(ms@) =~= upto_image + seq![
                        ("permissions"@, JsonM::Arr(strs_json(self@.permissions->0))),
                    ]);
                }
            },
            None => {
                proof {
                    assert(jview_members(ms@) =~= upto_image + Seq::<(Seq<char>, JsonM)>::empty());
                }
            },
        }
        proof {
            assert(jview_members(ms@) =~= seq![("type"@, JsonM::Str(self@.card_type))] + opt_member(
                "title"@,
                self@.title,
            ) + opt_member("content"@, self@.content) + opt_member("text"@, self@.text) + (
            match self@.image {
                Option::Some(i) => seq![("image"@, image_to_json(i))],
                Option::None => Seq::empty(),
            }) + (match self@.permissions {
                Option::Some(ps) => seq![("permissions"@, JsonM::Arr(strs_json(ps)))],
                Option::None => Seq::empty(),
            }));
        }
        Json::Obj(ms)
    }
}

impl Reprompt {
    fn to_json(&self) -> (r: Json)
        ensures
            r@ == reprompt_to_json(self@),
    {
        let mut ms: Vec<(String, Json)> = Vec::new();
        proof {
            assert(jview_members(ms@) =~= Seq::<(Seq<char>, JsonM)>::empty());
        }
        let sj = self.output_speech.to_json();
        push_json_member(&mut ms, "outputSpeech", sj);
        proof {
            assert(jview_members(ms@) =~= seq![
                ("outputSpeech"@, speech_to_json(self@.output_speech)),
            ]);
        }
        Json::Obj(ms)
    }
}

impl ResBody {
    fn to_json(&self) -> (r: Json)
        ensures
            r@ == body_to_json(self@),
    {
        let mut ms: Vec<(String, Json)> = Vec::new();
        proof {
            assert(jview_members(ms@) =~= Seq::<(Seq<char>, JsonM)>::empty());
        }
        match &self.output_speech {
            Some(s) => {
                let sj = s.to_json();
                push_json_member(&mut ms, "outputSpeech", sj);
            },
            None => {},
        }
        let ghost seg1 = jview_members(ms@);
        match &self.card {
            Some(c) => {
                let cj = c.to_json();
                push_json_member(&mut ms, "card", cj);
            },
            None => {},
        }
        let ghost seg2 = jview_members(ms@);
        match &self.reprompt {
            Some(p) => {
                let pj = p.to_json();
                push_json_member(&mut ms, "reprompt", pj);
            },
            None => {},
        }
        push_bool_member(&mut ms, "shouldEndSession", self.should_end_session);
        proof {
            assert(jview_members(ms@) =~= (match self@.output_speech {
                Option::Some(s) => seq![("outputSpeech"@, speech_to_json(s))],
                Option::None => Seq::empty(),
            }) + (match self@.card {
                Option::Some(c) => seq![("card"@, card_to_json(c))],
                Option::None => Seq::empty(),
            }) + (match self@.reprompt {
                Option::Some(p) => seq![("reprompt"@, reprompt_to_json(p))],
                Option::None => Seq::empty(),
            }) + seq![("shouldEndSession"@, JsonM::Bool(self@.should_end_session))]);
        }
        Json::Obj(ms)
    }
}

impl Response {
    /// The JSON tree this response serializes to.
    pub fn to_json(&self) -> (r: Json)
        ensures
            r@ == response_to_json(self@),
    {
        let mut ms: Vec<(String, Json)> = Vec::new();
        proof {
            assert(jview_members(ms@) =~= Seq::<(Seq<char>, JsonM)>::empty());
        }
        push_str_member(&mut ms, "version", &self.version);
        match &self.session_attributes {
            Some(m) => {
                if !m.is_empty() {
                    let pairs = m.pairs();
                    let mut ams: Vec<(String, Json)> = Vec::new();
                    let n = pairs.len();
                    let mut i: usize = 0;
                    proof {
                        assert(jview_members(ams@) =~= Seq::<(Seq<char>, JsonM)>::empty());
                        assert(attrs_members((self@.session_attributes->0).take(0)) =~= Seq::<
                            (Seq<char>, JsonM),
                        >::empty());
                    }
                    while i < n
                        invariant
                            i <= n,
                            n == pairs@.len(),
                            self@.session_attributes matches Option::Some(mv) && mv.len() == n
                                && jview_members(ams@) == attrs_members(mv.take(i as int)),
                            pairs@.len() == n,
                            forall|k: int| 0 <= k < n ==> (#[trigger] pairs@[k]).0@ == (
                            self@.session_attributes->0)[k].0 && pairs@[k].1@ == (
                            self@.session_attributes->0)[k].1,
                        decreases n - i,
                    {
                        let ghost before = ams@;
                        let ghost mv = self@.session_attributes->0;
                        let key = pairs[i].0.clone();
                        let val = pairs[i].1.clone();
                        ams.push((key, Json::Str(val)));
                        proof {
                            crate::json::lemma_jview_members_push(before, ams@[ams@.len() - 1]);
                            assert(ams@[ams@.len() - 1].0@ == mv[i as int].0);
                            assert(crate::json::jview(ams@[ams@.len() - 1].1) == JsonM::Str(
                                mv[i as int].1,
                            ));
                            assert(attrs_members(mv.take(i + 1)) =~= attrs_members(
                                mv.take(i as int),
                            ).push((mv[i as int].0, JsonM::Str(mv[i as int].1))));
                        }
                        i = i + 1;
                    }
                    proof {
                        let mv = self@.session_attributes->0;
                        assert(mv.take(n as int) =~= mv);
                    }
                    push_json_member(&mut ms, "sessionAttributes", Json::Obj(ams));
                }
            },
            None => {},
        }
        proof {
            assert(jview_members(ms@) =~= seq![("version"@, JsonM::Str(self@.version))]
                + attrs_segment(self@.session_attributes));
        }
        let bj = self.body.to_json();
        push_json_member(&mut ms, "response", bj);
        proof {
            assert(jview_members(ms@) =~= seq![("version"@, JsonM::Str(self@.version))]
                + attrs_segment(self@.session_attributes) + seq![
                ("response"@, body_to_json(self@.body)),
            ]);
        }
        Json::Obj(ms)
    }

    /// The outbound boundary: the exact serialized text of this response.
    /// Every absent optional field is omitted from it, never written as a
    /// `null`.
    pub fn render(&self) -> (out: String)
        ensures
            out@ == crate::json::ser_value(response_to_json(self@)),
    {
        let j = self.to_json();
        crate::json::render_json(&j)
    }
}

// ------------------------------------------------------------------
// Reading a response back from JSON: the inverse direction, used to check
// round trips and to re-read what a handler produced.
// ------------------------------------------------------------------

pub open spec fn speech_of_json(j: JsonM) -> Option<SpeechV> {
    match j {
        JsonM::Obj(ms) => {
            let t = req_str(ms, "type"@);
            let text = opt_str(ms, "text"@);
            let ssml = opt_str(ms, "ssml"@);
            let pb = opt_str(ms, "playBehavior"@);
            match (t, text, ssml, pb) {
                (Option::Some(tv), Option::Some(te), Option::Some(ss), Option::Some(p)) => Option::Some(
                    SpeechV { speech_type: tv, text: te, ssml: ss, play_behavior: p },
                ),
                _ => Option::None,
            }
        },
        _ => Option::None,
    }
}

pub open spec fn image_of_json(j: JsonM) -> Option<ImageV> {
    match j {
        JsonM::Obj(ms) => {
            let small = opt_str(ms, "smallImageUrl"@);
            let large = opt_str(ms, "largeImageUrl"@);
            match (small, large) {
                (Option::Some(s), Option::Some(l)) => Option::Some(
                    ImageV { small_image_url: s, large_image_url: l },
                ),
                _ => Option::None,
            }
        },
        _ => Option::None,
    }
}

pub open spec fn strs_of_json(vs: Seq<JsonM>) -> Option<Seq<Seq<char>>>
    decreases vs.len(),
{
    if vs.len() == 0 {
        Option::Some(Seq::empty())
    } else {
        match vs[0] {
            JsonM::Str(s) => match strs_of_json(vs.skip(1)) {
                Option::Some(rest) => Option::Some(seq![s] + rest),
                Option::None => Option::None,
            },
            _ => Option::None,
        }
    }
}

pub open spec fn card_of_json(j: JsonM) -> Option<CardV> {
    match j {
        JsonM::Obj(ms) => {
            let t = req_str(ms, "type"@);
            let title = opt_str(ms, "title"@);
            let content = opt_str(ms, "content"@);
            let text = opt_str(ms, "text"@);
            let image = match jfield(ms, "image"@) {
                Option::None => Option::Some(Option::None),
                Option::Some(JsonM::Null) => Option::Some(Option::None),
                Option::Some(ij) => match image_of_json(ij) {
                    Option::Some(i) => Option::Some(Option::Some(i)),
                    Option::None => Option::None,
                },
            };
            let permissions = match jfield(ms, "permissions"@) {
                Option::None => Option::Some(Option::None),
                Option::Some(JsonM::Null) => Option::Some(Option::None),
                Option::Some(JsonM::Arr(vs)) => match strs_of_json(vs) {
                    Option::Some(ps) => Option::Some(Option::Some(ps)),
                    Option::None => Option::None,
                },
                Option::Some(_) => Option::None,
            };
            match (t, title, content, text, image, permissions) {
                (
                    Option::Some(tv),
                    Option::Some(ti),
                    Option::Some(co),
                    Option::Some(te),
                    Option::Some(im),
                    Option::Some(pe),
                ) => Option::Some(
                    CardV {
                        card_type: tv,
                        title: ti,
                        content: co,
                        text: te,
                        image: im,
                        permissions: pe,
                    },
                ),
                _ => Option::None,
            }
        },
        _ => Option::None,
    }
}

pub open spec fn reprompt_of_json(j: JsonM) -> Option<RepromptV> {
    match j {
        JsonM::Obj(ms) => match jfield(ms, "outputSpeech"@) {
            Option::Some(sj) => match speech_of_json(sj) {
                Option::Some(s) => Option::Some(RepromptV { output_speech: s }),
                Option::None => Option::None,
            },
            Option::None => Option::None,
        },
        _ => Option::None,
    }
}

pub open spec fn resbody_of_json(j: JsonM) -> Option<ResBodyV> {
    match j {
        JsonM::Obj(ms) => {
            let speech = match jfield(ms, "outputSpeech"@) {
                Option::None => Option::Some(Option::None),
                Option::Some(JsonM::Null) => Option::Some(Option::None),
                Option::Some(sj) => match speech_of_json(sj) {
                    Option::Some(s) => Option::Some(Option::Some(s)),
                    Option::None => Option::None,
                },
            };
            let card = match jfield(ms, "card"@) {
                Option::None => Option::Some(Option::None),
                Option::Some(JsonM::Null) => Option::Some(Option::None),
                Option::Some(cj) => match card_of_json(cj) {
                    Option::Some(c) => Option::Some(Option::Some(c)),
                    Option::None => Option::None,
                },
            };
            let reprompt = match jfield(ms, "reprompt"@) {
                Option::None => Option::Some(Option::None),
                Option::Some(JsonM::Null) => Option::Some(Option::None),
                Option::Some(pj) => match reprompt_of_json(pj) {
                    Option::Some(p) => Option::Some(Option::Some(p)),
                    Option::None => Option::None,
                },
            };
            let should_end = req_bool(ms, "shouldEndSession"@);
            match (speech, card, reprompt, should_end) {
                (Option::Some(s), Option::Some(c), Option::Some(p), Option::Some(e)) => Option::Some(
                    ResBodyV { output_speech: s, card: c, reprompt: p, should_end_session: e },
                ),
                _ => Option::None,
            }
        },
        _ => Option::None,
    }
}

pub open spec fn response_of_json(j: JsonM) -> Option<ResponseV> {
    match j {
        JsonM::Obj(ms) => {
            let version = req_str(ms, "version"@);
            let attrs = match jfield(ms, "sessionAttributes"@) {
                Option::None => Option::Some(Option::None),
                Option::Some(JsonM::Null) => Option::Some(Option::None),
                Option::Some(JsonM::Obj(ams)) => match str_map_of_members(ams, Seq::empty()) {
                    Option::Some(m) => Option::Some(Option::Some(m)),
                    Option::None => Option::None,
                },
                Option::Some(_) => Option::None,
            };
            let body = match jfield(ms, "response"@) {
                Option::Some(bj) => resbody_of_json(bj),
                Option::None => Option::None,
            };
            match (version, attrs, body) {
                (Option::Some(v), Option::Some(a), Option::Some(b)) => Option::Some(
                    ResponseV { version: v, session_attributes: a, body: b },
                ),
                _ => Option::None,
            }
        },
        _ => Option::None,
    }
}

/// The re-read boundary, spec side: text to response model.
pub open spec fn spec_parse_response(s: Seq<char>) -> Option<ResponseV> {
    match crate::parse::parse_document(s) {
        Option::Some(j) => response_of_json(j),
        Option::None => Option::None,
    }
}

fn speech_from_json(j: &Json) -> (r: Result<Speech, MalformedPayload>)
    ensures
        match r {
            Ok(s) => speech_of_json(j@) == Some(s@),
            Err(_) => speech_of_json(j@) is None,
        },
{
    match j {
        Json::Obj(ms) => {
            let speech_type = match read_req_str(ms, "type") {
                Ok(s) => s,
                Err(e) => {
                    return Err(e);
                },
            };
            let text = match read_opt_str(ms, "text") {
                Ok(t) => t,
                Err(e) => {
                    return Err(e);
                },
            };
            let ssml = match read_opt_str(ms, "ssml") {
                Ok(t) => t,
                Err(e) => {
                    return Err(e);
                },
            };
            let play_behavior = match read_opt_str(ms, "playBehavior") {
                Ok(t) => t,
                Err(e) => {
                    return Err(e);
                },
            };
            Ok(Speech { speech_type, text, ssml, play_behavior })
        },
        _ => Err(MalformedPayload),
    }
}

fn image_from_json(j: &Json) -> (r: Result<Image, MalformedPayload>)
    ensures
        match r {
            Ok(i) => image_of_json(j@) == Some(i@),
            Err(_) => image_of_json(j@) is None,
        },
{
    match j {
        Json::Obj(ms) => {
            let small_image_url = match read_opt_str(ms, "smallImageUrl") {
                Ok(t) => t,
                Err(e) => {
                    return Err(e);
                },
            };
            let large_image_url = match read_opt_str(ms, "largeImageUrl") {
                Ok(t) => t,
                Err(e) => {
                    return Err(e);
                },
            };
            Ok(Image { small_image_url, large_image_url })
        },
        _ => Err(MalformedPayload),
    }
}

/// Reads the items of a string array, from index `i` on.
fn strs_from_json(vs: &Vec<Json>, i: usize) -> (r: Result<Vec<String>, MalformedPayload>)
    requires
        i <= vs@.len(),
    ensures
        match r {
            Ok(out) => strs_of_json(jview_seq(vs@).skip(i as int)) == Some(
                out@.map_values(|s: String| s@),
            ),
            Err(_) => strs_of_json(jview_seq(vs@).skip(i as int)) is None,
        },
    decreases vs@.len() - i,
{
    let ghost jv = jview_seq(vs@);
    proof {
        crate::json::lemma_jview_seq_len(vs@);
    }
    if i == vs.len() {
        let out: Vec<String> = Vec::new();
        proof {
            assert(jv.skip(i as int) =~= Seq::<JsonM>::empty());
            assert(out@.map_values(|s: String| s@) =~= Seq::<Seq<char>>::empty());
        }
        return Ok(out);
    }
    proof {
        crate::json::lemma_jview_seq_index(vs@, i as int);
        assert(jv.skip(i as int)[0] == jv[i as int]);
        assert(jv.skip(i as int).skip(1) =~= jv.skip(i + 1));
    }
    match &vs[i] {
        Json::Str(s) => {
            let head = s.clone();
            let mut rest = match strs_from_json(vs, i + 1) {
                Ok(out) => out,
                Err(e) => {
                    return Err(e);
                },
            };
            let ghost tail = rest@;
            rest.insert(0, head);
            proof {
                assert(rest@ =~= seq![head] + tail);
                assert(rest@.map_values(|s: String| s@) =~= seq![head@] + tail.map_values(
                    |s: String| s@,
                ));
            }
            Ok(rest)
        },
        _ => Err(MalformedPayload),
    }
}

fn card_from_json(j: &Json) -> (r: Result<Card, MalformedPayload>)
    ensures
        match r {
            Ok(c) => card_of_json(j@) == Some(c@),
            Err(_) => card_of_json(j@) is None,
        },
{
    match j {
        Json::Obj(ms) => {
            let card_type = match read_req_str(ms, "type") {
                Ok(s) => s,
                Err(e) => {
                    return Err(e);
                },
            };
            let title = match read_opt_str(ms, "title") {
                Ok(t) => t,
                Err(e) => {
                    return Err(e);
                },
            };
            let content = match read_opt_str(ms, "content") {
                Ok(t) => t,
                Err(e) => {
                    return Err(e);
                },
            };
            let text = match read_opt_str(ms, "text") {
                Ok(t) => t,
                Err(e) => {
                    return Err(e);
                },
            };
            let image = match get_field(ms, "image") {
                None => None,
                Some(Json::Null) => None,
                Some(ij) => match image_from_json(ij) {
                    Ok(i) => Some(i),
                    Err(e) => {
                        return Err(e);
                    },
                },
            };
            let permissions = match get_field(ms, "permissions") {
                None => None,
                Some(Json::Null) => None,
                Some(pj) => match pj {
                    Json::Arr(vs) => {
                        proof {
                            assert(pj@ == JsonM::Arr(jview_seq(vs@)));
                            assert(jview_seq(vs@).skip(0) =~= jview_seq(vs@));
                        }
                        match strs_from_json(vs, 0) {
                            Ok(ps) => Some(ps),
                            Err(e) => {
                                return Err(e);
                            },
                        }
                    },
                    _ => {
                        return Err(MalformedPayload);
                    },
                },
            };
            Ok(Card { card_type, title, content, text, image, permissions })
        },
        _ => Err(MalformedPayload),
    }
}

fn reprompt_from_json(j: &Json) -> (r: Result<Reprompt, MalformedPayload>)
    ensures
        match r {
            Ok(p) => reprompt_of_json(j@) == Some(p@),
            Err(_) => reprompt_of_json(j@) is None,
        },
{
    match j {
        Json::Obj(ms) => match get_field(ms, "outputSpeech") {
            Some(sj) => match speech_from_json(sj) {
                Ok(s) => Ok(Reprompt { output_speech: s }),
                Err(e) => Err(e),
            },
            None => Err(MalformedPayload),
        },
        _ => Err(MalformedPayload),
    }
}

fn resbody_from_json(j: &Json) -> (r: Result<ResBody, MalformedPayload>)
    ensures
        match r {
            Ok(b) => resbody_of_json(j@) == Some(b@),
            Err(_) => resbody_of_json(j@) is None,
        },
{
    match j {
        Json::Obj(ms) => {
            let output_speech = match get_field(ms, "outputSpeech") {
                None => None,
                Some(Json::Null) => None,
                Some(sj) => match speech_from_json(sj) {
                    Ok(s) => Some(s),
                    Err(e) => {
                        return Err(e);
                    },
                },
            };
            let card = match get_field(ms, "card") {
                None => None,
                Some(Json::Null) => None,
                Some(cj) => match card_from_json(cj) {
                    Ok(c) => Some(c),
                    Err(e) => {
                        return Err(e);
                    },
                },
            };
            let reprompt = match get_field(ms, "reprompt") {
                None => None,
                Some(Json::Null) => None,
                Some(pj) => match reprompt_from_json(pj) {
                    Ok(p) => Some(p),
                    Err(e) => {
                        return Err(e);
                    },
                },
            };
            let should_end_session = match read_req_bool(ms, "shouldEndSession") {
                Ok(b) => b,
                Err(e) => {
                    return Err(e);
                },
            };
            Ok(ResBody { output_speech, card, reprompt, should_end_session })
        },
        _ => Err(MalformedPayload),
    }
}

/// Maps a whole parsed document to a response value.
pub fn response_from_json(j: &Json) -> (r: Result<Response, MalformedPayload>)
    ensures
        match r {
            Ok(resp) => response_of_json(j@) == Some(resp@),
            Err(_) => response_of_json(j@) is None,
        },
{
    match j {
        Json::Obj(ms) => {
            let version = match read_req_str(ms, "version") {
                Ok(s) => s,
                Err(e) => {
                    return Err(e);
                },
            };
            let session_attributes = match get_field(ms, "sessionAttributes") {
                None => None,
                Some(Json::Null) => None,
                Some(Json::Obj(ams)) => match str_map_from_members(ams) {
                    Ok(m) => Some(m),
                    Err(e) => {
                        return Err(e);
                    },
                },
                Some(_) => {
                    return Err(MalformedPayload);
                },
            };
            let body = match get_field(ms, "response") {
                Some(bj) => match resbody_from_json(bj) {
                    Ok(b) => b,
                    Err(e) => {
                        return Err(e);
                    },
                },
                None => {
                    return Err(MalformedPayload);
                },
            };
            Ok(Response { version, session_attributes, body })
        },
        _ => Err(MalformedPayload),
    }
}

/// Re-reads a rendered response document: a response value exactly when the
/// spec-level mapping is defined, else `MalformedPayload`.
pub fn parse_response(s: &str) -> (r: Result<Response, MalformedPayload>)
    ensures
        match r {
            Ok(resp) => spec_parse_response(s@) == Some(resp@),
            Err(_) => spec_parse_response(s@) is None,
        },
{
    match crate::parse::parse_json(s) {
        Some(j) => response_from_json(&j),
        None => Err(MalformedPayload),
    }
}

} // verus!
