//! The inbound side of the wire contract: the request schema model, its
//! mapping from parsed JSON documents, and the classification and lookup
//! helpers layered on top.
//!
//! Deserialization is defensive the way the platform demands: unrecognized
//! fields are ignored, absent optional fields read as `None`, and a missing
//! or ill-shaped required field fails the whole parse with
//! [`MalformedPayload`] — never a guessed value.

use vstd::prelude::*;

use crate::json::Json;
use crate::json::JsonM;
use crate::json::MalformedPayload;
use crate::json::get_field;
use crate::json::jfield;
use crate::json::jview_members;
use crate::json::jview_seq;
use crate::json::opt_str;
use crate::json::opt_u64;
use crate::json::read_opt_str;
use crate::json::read_opt_u64;
use crate::json::read_req_bool;
use crate::json::read_req_str;
use crate::json::req_bool;
use crate::json::req_str;
use crate::json::str_eq;
use crate::kvmap::KvMap;
use crate::kvmap::kv_get;
use crate::kvmap::kv_put;
use crate::parse::parse_document;

verus! {

// ------------------------------------------------------------------
// The schema model and its mathematical views.
// ------------------------------------------------------------------

/// The top-level inbound payload.
#[derive(Debug, Clone)]
pub struct Request {
    pub version: String,
    pub session: Option<Session>,
    pub body: ReqBody,
    pub context: Context,
}

#[derive(Debug, Clone)]
pub struct Session {
    pub new: bool,
    pub session_id: String,
    pub attributes: Option<KvMap<String>>,
    pub application: Application,
    pub user: User,
}

#[derive(Debug, Clone)]
pub struct Application {
    pub application_id: String,
}

#[derive(Debug, Clone)]
pub struct User {
    pub user_id: String,
    pub access_token: Option<String>,
}

#[derive(Debug, Clone)]
pub struct Device {
    pub device_id: String,
}

/// The inbound event, wire name `"request"`.
#[derive(Debug, Clone)]
pub struct ReqBody {
    pub reqtype: String,
    pub request_id: String,
    pub timestamp: String,
    pub locale: String,
    pub intent: Option<Intent>,
    pub reason: Option<String>,
    pub dialog_state: Option<String>,
}

#[derive(Debug, Clone)]
pub struct Context {
    pub system: System,
    pub audio_player: Option<AudioPlayer>,
}

#[derive(Debug, Clone)]
pub struct System {
    pub api_access_token: Option<String>,
    pub device: Option<Device>,
    pub application: Option<Application>,
}

#[derive(Debug, Clone)]
pub struct AudioPlayer {
    pub token: Option<String>,
    pub offset_in_milliseconds: Option<u64>,
    pub player_activity: Option<String>,
}

#[derive(Debug, Clone)]
pub struct Intent {
    pub name: String,
    pub confirmation_status: Option<String>,
    pub slots: Option<KvMap<Slot>>,
}

#[derive(Debug, Clone)]
pub struct Slot {
    pub name: String,
    pub value: String,
    pub confirmation_status: Option<String>,
    pub resolutions: Option<Resolution>,
}

#[derive(Debug, Clone)]
pub struct Resolution {
    pub resolutions_per_authority: Vec<ResolutionsPerAuthority>,
}

#[derive(Debug, Clone)]
pub struct ResolutionsPerAuthority {
    pub authority: String,
    pub status: Status,
    pub values: Vec<ValueWrapper>,
}

#[derive(Debug, Clone)]
pub struct Status {
    pub code: String,
}

#[derive(Debug, Clone)]
pub struct ValueWrapper {
    pub value: Value,
}

#[derive(Debug, Clone)]
pub struct Value {
    pub name: String,
    pub id: String,
}

pub ghost struct RequestV {
    pub version: Seq<char>,
    pub session: Option<SessionV>,
    pub body: ReqBodyV,
    pub context: ContextV,
}

pub ghost struct SessionV {
    pub new: bool,
    pub session_id: Seq<char>,
    pub attributes: Option<Seq<(Seq<char>, Seq<char>)>>,
    pub application: ApplicationV,
    pub user: UserV,
}

pub ghost struct ApplicationV {
    pub application_id: Seq<char>,
}

pub ghost struct UserV {
    pub user_id: Seq<char>,
    pub access_token: Option<Seq<char>>,
}

pub ghost struct DeviceV {
    pub device_id: Seq<char>,
}

pub ghost struct ReqBodyV {
    pub reqtype: Seq<char>,
    pub request_id: Seq<char>,
    pub timestamp: Seq<char>,
    pub locale: Seq<char>,
    pub intent: Option<IntentV>,
    pub reason: Option<Seq<char>>,
    pub dialog_state: Option<Seq<char>>,
}

pub ghost struct ContextV {
    pub system: SystemV,
    pub audio_player: Option<AudioPlayerV>,
}

pub ghost struct SystemV {
    pub api_access_token: Option<Seq<char>>,
    pub device: Option<DeviceV>,
    pub application: Option<ApplicationV>,
}

pub ghost struct AudioPlayerV {
    pub token: Option<Seq<char>>,
    pub offset_in_milliseconds: Option<u64>,
    pub player_activity: Option<Seq<char>>,
}

pub ghost struct IntentV {
    pub name: Seq<char>,
    pub confirmation_status: Option<Seq<char>>,
    pub slots: Option<Seq<(Seq<char>, SlotV)>>,
}

pub ghost struct SlotV {
    pub name: Seq<char>,
    pub value: Seq<char>,
    pub confirmation_status: Option<Seq<char>>,
    pub resolutions: Option<ResolutionV>,
}

pub ghost struct ResolutionV {
    pub resolutions_per_authority: Seq<ResolutionsPerAuthorityV>,
}

pub ghost struct ResolutionsPerAuthorityV {
    pub authority: Seq<char>,
    pub status: StatusV,
    pub values: Seq<ValueWrapperV>,
}

pub ghost struct StatusV {
    pub code: Seq<char>,
}

pub ghost struct ValueWrapperV {
    pub value: ValueV,
}

pub ghost struct ValueV {
    pub name: Seq<char>,
    pub id: Seq<char>,
}

pub open spec fn view_opt_str(o: Option<String>) -> Option<Seq<char>> {
    match o {
        Option::Some(s) => Option::Some(s@),
        Option::None => Option::None,
    }
}

impl View for Application {
    type V = ApplicationV;

    open spec fn view(&self) -> ApplicationV {
        ApplicationV { application_id: self.application_id@ }
    }
}

impl View for User {
    type V = UserV;

    open spec fn view(&self) -> UserV {
        UserV { user_id: self.user_id@, access_token: view_opt_str(self.access_token) }
    }
}

impl View for Device {
    type V = DeviceV;

    open spec fn view(&self) -> DeviceV {
        DeviceV { device_id: self.device_id@ }
    }
}

impl View for Status {
    type V = StatusV;

    open spec fn view(&self) -> StatusV {
        StatusV { code: self.code@ }
    }
}

impl View for Value {
    type V = ValueV;

    open spec fn view(&self) -> ValueV {
        ValueV { name: self.name@, id: self.id@ }
    }
}

impl View for ValueWrapper {
    type V = ValueWrapperV;

    open spec fn view(&self) -> ValueWrapperV {
        ValueWrapperV { value: self.value@ }
    }
}

impl View for ResolutionsPerAuthority {
    type V = ResolutionsPerAuthorityV;

    open spec fn view(&self) -> ResolutionsPerAuthorityV {
        ResolutionsPerAuthorityV {
            authority: self.authority@,
            status: self.status@,
            values: self.values@.map_values(|w: ValueWrapper| w@),
        }
    }
}

impl View for Resolution {
    type V = ResolutionV;

    open spec fn view(&self) -> ResolutionV {
        ResolutionV {
            resolutions_per_authority: self.resolutions_per_authority@.map_values(
                |a: ResolutionsPerAuthority| a@,
            ),
        }
    }
}

impl View for Slot {
    type V = SlotV;

    open spec fn view(&self) -> SlotV {
        SlotV {
            name: self.name@,
            value: self.value@,
            confirmation_status: view_opt_str(self.confirmation_status),
            resolutions: match self.resolutions {
                Option::Some(r) => Option::Some(r@),
                Option::None => Option::None,
            },
        }
    }
}

impl View for Intent {
    type V = IntentV;

    open spec fn view(&self) -> IntentV {
        IntentV {
            name: self.name@,
            confirmation_status: view_opt_str(self.confirmation_status),
            slots: match self.slots {
                Option::Some(m) => Option::Some(m@),
                Option::None => Option::None,
            },
        }
    }
}

impl View for AudioPlayer {
    type V = AudioPlayerV;

    open spec fn view(&self) -> AudioPlayerV {
        AudioPlayerV {
            token: view_opt_str(self.token),
            offset_in_milliseconds: self.offset_in_milliseconds,
            player_activity: view_opt_str(self.player_activity),
        }
    }
}

impl View for System {
    type V = SystemV;

    open spec fn view(&self) -> SystemV {
        SystemV {
            api_access_token: view_opt_str(self.api_access_token),
            device: match self.device {
                Option::Some(d) => Option::Some(d@),
                Option::None => Option::None,
            },
            application: match self.application {
                Option::Some(a) => Option::Some(a@),
                Option::None => Option::None,
            },
        }
    }
}

impl View for Context {
    type V = ContextV;

    open spec fn view(&self) -> ContextV {
        ContextV {
            system: self.system@,
            audio_player: match self.audio_player {
                Option::Some(a) => Option::Some(a@),
                Option::None => Option::None,
            },
        }
    }
}

impl View for Session {
    type V = SessionV;

    open spec fn view(&self) -> SessionV {
        SessionV {
            new: self.new,
            session_id: self.session_id@,
            attributes: match self.attributes {
                Option::Some(m) => Option::Some(m@),
                Option::None => Option::None,
            },
            application: self.application@,
            user: self.user@,
        }
    }
}

impl View for ReqBody {
    type V = ReqBodyV;

    open spec fn view(&self) -> ReqBodyV {
        ReqBodyV {
            reqtype: self.reqtype@,
            request_id: self.request_id@,
            timestamp: self.timestamp@,
            locale: self.locale@,
            intent: match self.intent {
                Option::Some(i) => Option::Some(i@),
                Option::None => Option::None,
            },
            reason: view_opt_str(self.reason),
            dialog_state: view_opt_str(self.dialog_state),
        }
    }
}

impl View for Request {
    type V = RequestV;

    open spec fn view(&self) -> RequestV {
        RequestV {
            version: self.version@,
            session: match self.session {
                Option::Some(s) => Option::Some(s@),
                Option::None => Option::None,
            },
            body: self.body@,
            context: self.context@,
        }
    }
}

// ------------------------------------------------------------------
// From parsed JSON to the model: the spec-level mapping.
// ------------------------------------------------------------------

pub open spec fn application_of_json(j: JsonM) -> Option<ApplicationV> {
    match j {
        JsonM::Obj(ms) => match req_str(ms, "applicationId"@) {
            Option::Some(s) => Option::Some(ApplicationV { application_id: s }),
            Option::None => Option::None,
        },
        _ => Option::None,
    }
}

pub open spec fn user_of_json(j: JsonM) -> Option<UserV> {
    match j {
        JsonM::Obj(ms) => match (req_str(ms, "userId"@), opt_str(ms, "accessToken"@)) {
            (Option::Some(u), Option::Some(t)) => Option::Some(
                UserV { user_id: u, access_token: t },
            ),
            _ => Option::None,
        },
        _ => Option::None,
    }
}

pub open spec fn device_of_json(j: JsonM) -> Option<DeviceV> {
    match j {
        JsonM::Obj(ms) => match req_str(ms, "deviceId"@) {
            Option::Some(d) => Option::Some(DeviceV { device_id: d }),
            Option::None => Option::None,
        },
        _ => Option::None,
    }
}

pub open spec fn status_of_json(j: JsonM) -> Option<StatusV> {
    match j {
        JsonM::Obj(ms) => match req_str(ms, "code"@) {
            Option::Some(c) => Option::Some(StatusV { code: c }),
            Option::None => Option::None,
        },
        _ => Option::None,
    }
}

pub open spec fn value_of_json(j: JsonM) -> Option<ValueV> {
    match j {
        JsonM::Obj(ms) => match (req_str(ms, "name"@), req_str(ms, "id"@)) {
            (Option::Some(n), Option::Some(i)) => Option::Some(ValueV { name: n, id: i }),
            _ => Option::None,
        },
        _ => Option::None,
    }
}

pub open spec fn value_wrapper_of_json(j: JsonM) -> Option<ValueWrapperV> {
    match j {
        JsonM::Obj(ms) => match jfield(ms, "value"@) {
            Option::Some(vj) => match value_of_json(vj) {
                Option::Some(v) => Option::Some(ValueWrapperV { value: v }),
                Option::None => Option::None,
            },
            Option::None => Option::None,
        },
        _ => Option::None,
    }
}

pub open spec fn value_wrappers_of_json(vs: Seq<JsonM>) -> Option<Seq<ValueWrapperV>>
    decreases vs.len(),
{
    if vs.len() == 0 {
        Option::Some(Seq::empty())
    } else {
        match value_wrapper_of_json(vs[0]) {
            Option::Some(w) => match value_wrappers_of_json(vs.skip(1)) {
                Option::Some(rest) => Option::Some(seq![w] + rest),
                Option::None => Option::None,
            },
            Option::None => Option::None,
        }
    }
}

pub open spec fn rpa_of_json(j: JsonM) -> Option<ResolutionsPerAuthorityV> {
    match j {
        JsonM::Obj(ms) => {
            let authority = req_str(ms, "authority"@);
            let status = match jfield(ms, "status"@) {
                Option::Some(sj) => status_of_json(sj),
                Option::None => Option::None,
            };
            let values = match jfield(ms, "values"@) {
                Option::Some(JsonM::Arr(vs)) => value_wrappers_of_json(vs),
                _ => Option::None,
            };
            match (authority, status, values) {
                (Option::Some(a), Option::Some(st), Option::Some(vv)) => Option::Some(
                    ResolutionsPerAuthorityV { authority: a, status: st, values: vv },
                ),
                _ => Option::None,
            }
        },
        _ => Option::None,
    }
}

pub open spec fn rpas_of_json(vs: Seq<JsonM>) -> Option<Seq<ResolutionsPerAuthorityV>>
    decreases vs.len(),
{
    if vs.len() == 0 {
        Option::Some(Seq::empty())
    } else {
        match rpa_of_json(vs[0]) {
            Option::Some(a) => match rpas_of_json(vs.skip(1)) {
                Option::Some(rest) => Option::Some(seq![a] + rest),
                Option::None => Option::None,
            },
            Option::None => Option::None,
        }
    }
}

pub open spec fn resolution_of_json(j: JsonM) -> Option<ResolutionV> {
    match j {
        JsonM::Obj(ms) => match jfield(ms, "resolutionsPerAuthority"@) {
            Option::Some(JsonM::Arr(vs)) => match rpas_of_json(vs) {
                Option::Some(aa) => Option::Some(ResolutionV { resolutions_per_authority: aa }),
                Option::None => Option::None,
            },
            _ => Option::None,
        },
        _ => Option::None,
    }
}

pub open spec fn slot_of_json(j: JsonM) -> Option<SlotV> {
    match j {
        JsonM::Obj(ms) => {
            let name = req_str(ms, "name"@);
            let value = req_str(ms, "value"@);
            let confirmation = opt_str(ms, "confirmationStatus"@);
            let resolutions = match jfield(ms, "resolutions"@) {
                Option::None => Option::Some(Option::None),
                Option::Some(JsonM::Null) => Option::Some(Option::None),
                Option::Some(rj) => match resolution_of_json(rj) {
                    Option::Some(r) => Option::Some(Option::Some(r)),
                    Option::None => Option::None,
                },
            };
            match (name, value, confirmation, resolutions) {
                (Option::Some(n), Option::Some(v), Option::Some(c), Option::Some(r)) => Option::Some(
                    SlotV { name: n, value: v, confirmation_status: c, resolutions: r },
                ),
                _ => Option::None,
            }
        },
        _ => Option::None,
    }
}

/// Folds an object's members into a name-to-slot map, later entries
/// overriding earlier ones.
pub open spec fn slot_map_of_members(
    ms: Seq<(Seq<char>, JsonM)>,
    acc: Seq<(Seq<char>, SlotV)>,
) -> Option<Seq<(Seq<char>, SlotV)>>
    decreases ms.len(),
{
    if ms.len() == 0 {
        Option::Some(acc)
    } else {
        match slot_of_json(ms[0].1) {
            Option::Some(sl) => slot_map_of_members(ms.skip(1), kv_put(acc, ms[0].0, sl)),
            Option::None => Option::None,
        }
    }
}

pub open spec fn intent_of_json(j: JsonM) -> Option<IntentV> {
    match j {
        JsonM::Obj(ms) => {
            let name = req_str(ms, "name"@);
            let confirmation = opt_str(ms, "confirmationStatus"@);
            let slots = match jfield(ms, "slots"@) {
                Option::None => Option::Some(Option::None),
                Option::Some(JsonM::Null) => Option::Some(Option::None),
                Option::Some(JsonM::Obj(sms)) => match slot_map_of_members(sms, Seq::empty()) {
                    Option::Some(m) => Option::Some(Option::Some(m)),
                    Option::None => Option::None,
                },
                Option::Some(_) => Option::None,
            };
            match (name, confirmation, slots) {
                (Option::Some(n), Option::Some(c), Option::Some(s)) => Option::Some(
                    IntentV { name: n, confirmation_status: c, slots: s },
                ),
                _ => Option::None,
            }
        },
        _ => Option::None,
    }
}

/// Folds an object's members into a string-to-string map, later entries
/// overriding earlier ones.
pub open spec fn str_map_of_members(
    ms: Seq<(Seq<char>, JsonM)>,
    acc: Seq<(Seq<char>, Seq<char>)>,
) -> Option<Seq<(Seq<char>, Seq<char>)>>
    decreases ms.len(),
{
    if ms.len() == 0 {
        Option::Some(acc)
    } else {
        match ms[0].1 {
            JsonM::Str(s) => str_map_of_members(ms.skip(1), kv_put(acc, ms[0].0, s)),
            _ => Option::None,
        }
    }
}

pub open spec fn session_of_json(j: JsonM) -> Option<SessionV> {
    match j {
        JsonM::Obj(ms) => {
            let new = req_bool(ms, "new"@);
            let session_id = req_str(ms, "sessionId"@);
            let attributes = match jfield(ms, "attributes"@) {
                Option::None => Option::Some(Option::None),
                Option::Some(JsonM::Null) => Option::Some(Option::None),
                Option::Some(JsonM::Obj(ams)) => match str_map_of_members(ams, Seq::empty()) {
                    Option::Some(m) => Option::Some(Option::Some(m)),
                    Option::None => Option::None,
                },
                Option::Some(_) => Option::None,
            };
            let application = match jfield(ms, "application"@) {
                Option::Some(aj) => application_of_json(aj),
                Option::None => Option::None,
            };
            let user = match jfield(ms, "user"@) {
                Option::Some(uj) => user_of_json(uj),
                Option::None => Option::None,
            };
            match (new, session_id, attributes, application, user) {
                (
                    Option::Some(n),
                    Option::Some(si),
                    Option::Some(at),
                    Option::Some(ap),
                    Option::Some(u),
                ) => Option::Some(
                    SessionV {
                        new: n,
                        session_id: si,
                        attributes: at,
                        application: ap,
                        user: u,
                    },
                ),
                _ => Option::None,
            }
        },
        _ => Option::None,
    }
}

pub open spec fn audio_player_of_json(j: JsonM) -> Option<AudioPlayerV> {
    match j {
        JsonM::Obj(ms) => {
            let token = opt_str(ms, "token"@);
            let offset = opt_u64(ms, "offsetInMilliseconds"@);
            let activity = opt_str(ms, "playerActivity"@);
            match (token, offset, activity) {
                (Option::Some(t), Option::Some(o), Option::Some(a)) => Option::Some(
                    AudioPlayerV {
                        token: t,
                        offset_in_milliseconds: match o {
                            Option::Some(v) => Option::Some(v as u64),
                            Option::None => Option::None,
                        },
                        player_activity: a,
                    },
                ),
                _ => Option::None,
            }
        },
        _ => Option::None,
    }
}

pub open spec fn system_of_json(j: JsonM) -> Option<SystemV> {
    match j {
        JsonM::Obj(ms) => {
            let token = opt_str(ms, "apiAccessToken"@);
            let device = match jfield(ms, "device"@) {
                Option::None => Option::Some(Option::None),
                Option::Some(JsonM::Null) => Option::Some(Option::None),
                Option::Some(dj) => match device_of_json(dj) {
                    Option::Some(d) => Option::Some(Option::Some(d)),
                    Option::None => Option::None,
                },
            };
            let application = match jfield(ms, "application"@) {
                Option::None => Option::Some(Option::None),
                Option::Some(JsonM::Null) => Option::Some(Option::None),
                Option::Some(aj) => match application_of_json(aj) {
                    Option::Some(a) => Option::Some(Option::Some(a)),
                    Option::None => Option::None,
                },
            };
            match (token, device, application) {
                (Option::Some(t), Option::Some(d), Option::Some(a)) => Option::Some(
                    SystemV { api_access_token: t, device: d, application: a },
                ),
                _ => Option::None,
            }
        },
        _ => Option::None,
    }
}

pub open spec fn context_of_json(j: JsonM) -> Option<ContextV> {
    match j {
        JsonM::Obj(ms) => {
            let system = match jfield(ms, "System"@) {
                Option::Some(sj) => system_of_json(sj),
                Option::None => Option::None,
            };
            let audio = match jfield(ms, "AudioPlayer"@) {
                Option::None => Option::Some(Option::None),
                Option::Some(JsonM::Null) => Option::Some(Option::None),
                Option::Some(aj) => match audio_player_of_json(aj) {
                    Option::Some(a) => Option::Some(Option::Some(a)),
                    Option::None => Option::None,
                },
            };
            match (system, audio) {
                (Option::Some(s), Option::Some(a)) => Option::Some(
                    ContextV { system: s, audio_player: a },
                ),
                _ => Option::None,
            }
        },
        _ => Option::None,
    }
}

pub open spec fn req_body_of_json(j: JsonM) -> Option<ReqBodyV> {
    match j {
        JsonM::Obj(ms) => {
            let reqtype = req_str(ms, "type"@);
            let request_id = req_str(ms, "requestId"@);
            let timestamp = req_str(ms, "timestamp"@);
            let locale = req_str(ms, "locale"@);
            let intent = match jfield(ms, "intent"@) {
                Option::None => Option::Some(Option::None),
                Option::Some(JsonM::Null) => Option::Some(Option::None),
                Option::Some(ij) => match intent_of_json(ij) {
                    Option::Some(i) => Option::Some(Option::Some(i)),
                    Option::None => Option::None,
                },
            };
            let reason = opt_str(ms, "reason"@);
            let dialog_state = opt_str(ms, "dialogState"@);
            match (reqtype, request_id, timestamp, locale, intent, reason, dialog_state) {
                (
                    Option::Some(t),
                    Option::Some(ri),
                    Option::Some(ts),
                    Option::Some(lc),
                    Option::Some(it),
                    Option::Some(re),
                    Option::Some(ds),
                ) => Option::Some(
                    ReqBodyV {
                        reqtype: t,
                        request_id: ri,
                        timestamp: ts,
                        locale: lc,
                        intent: it,
                        reason: re,
                        dialog_state: ds,
                    },
                ),
                _ => Option::None,
            }
        },
        _ => Option::None,
    }
}

pub open spec fn request_of_json(j: JsonM) -> Option<RequestV> {
    match j {
        JsonM::Obj(ms) => {
            let version = req_str(ms, "version"@);
            let session = match jfield(ms, "session"@) {
                Option::None => Option::Some(Option::None),
                Option::Some(JsonM::Null) => Option::Some(Option::None),
                Option::Some(sj) => match session_of_json(sj) {
                    Option::Some(s) => Option::Some(Option::Some(s)),
                    Option::None => Option::None,
                },
            };
            let body = match jfield(ms, "request"@) {
                Option::Some(bj) => req_body_of_json(bj),
                Option::None => Option::None,
            };
            let context = match jfield(ms, "context"@) {
                Option::Some(cj) => context_of_json(cj),
                Option::None => Option::None,
            };
            match (version, session, body, context) {
                (Option::Some(v), Option::Some(s), Option::Some(b), Option::Some(c)) => Option::Some(
                    RequestV { version: v, session: s, body: b, context: c },
                ),
                _ => Option::None,
            }
        },
        _ => Option::None,
    }
}

/// The whole inbound boundary, spec side: text to model.
pub open spec fn spec_parse_request(s: Seq<char>) -> Option<RequestV> {
    match parse_document(s) {
        Option::Some(j) => request_of_json(j),
        Option::None => Option::None,
    }
}

// ------------------------------------------------------------------
// From parsed JSON to the model: the executable mapping, each function
// returning exactly what its spec counterpart says.
// ------------------------------------------------------------------

fn application_from_json(j: &Json) -> (r: Result<Application, MalformedPayload>)
    ensures
        match r {
            Ok(a) => application_of_json(j@) == Some(a@),
            Err(_) => application_of_json(j@) is None,
        },
{
    match j {
        Json::Obj(ms) => {
            let application_id = match read_req_str(ms, "applicationId") {
                Ok(s) => s,
                Err(e) => {
                    return Err(e);
                },
            };
            Ok(Application { application_id })
        },
        _ => Err(MalformedPayload),
    }
}

fn user_from_json(j: &Json) -> (r: Result<User, MalformedPayload>)
    ensures
        match r {
            Ok(u) => user_of_json(j@) == Some(u@),
            Err(_) => user_of_json(j@) is None,
        },
{
    match j {
        Json::Obj(ms) => {
            let user_id = match read_req_str(ms, "userId") {
                Ok(s) => s,
                Err(e) => {
                    return Err(e);
                },
            };
            let access_token = match read_opt_str(ms, "accessToken") {
                Ok(t) => t,
                Err(e) => {
                    return Err(e);
                },
            };
            Ok(User { user_id, access_token })
        },
        _ => Err(MalformedPayload),
    }
}

fn device_from_json(j: &Json) -> (r: Result<Device, MalformedPayload>)
    ensures
        match r {
            Ok(d) => device_of_json(j@) == Some(d@),
            Err(_) => device_of_json(j@) is None,
        },
{
    match j {
        Json::Obj(ms) => {
            let device_id = match read_req_str(ms, "deviceId") {
                Ok(s) => s,
                Err(e) => {
                    return Err(e);
                },
            };
            Ok(Device { device_id })
        },
        _ => Err(MalformedPayload),
    }
}

fn status_from_json(j: &Json) -> (r: Result<Status, MalformedPayload>)
    ensures
        match r {
            Ok(s) => status_of_json(j@) == Some(s@),
            Err(_) => status_of_json(j@) is None,
        },
{
    match j {
        Json::Obj(ms) => {
            let code = match read_req_str(ms, "code") {
                Ok(s) => s,
                Err(e) => {
                    return Err(e);
                },
            };
            Ok(Status { code })
        },
        _ => Err(MalformedPayload),
    }
}

fn value_from_json(j: &Json) -> (r: Result<Value, MalformedPayload>)
    ensures
        match r {
            Ok(v) => value_of_json(j@) == Some(v@),
            Err(_) => value_of_json(j@) is None,
        },
{
    match j {
        Json::Obj(ms) => {
            let name = match read_req_str(ms, "name") {
                Ok(s) => s,
                Err(e) => {
                    return Err(e);
                },
            };
            let id = match read_req_str(ms, "id") {
                Ok(s) => s,
                Err(e) => {
                    return Err(e);
                },
            };
            Ok(Value { name, id })
        },
        _ => Err(MalformedPayload),
    }
}

fn value_wrapper_from_json(j: &Json) -> (r: Result<ValueWrapper, MalformedPayload>)
    ensures
        match r {
            Ok(w) => value_wrapper_of_json(j@) == Some(w@),
            Err(_) => value_wrapper_of_json(j@) is None,
        },
{
    match j {
        Json::Obj(ms) => match get_field(ms, "value") {
            Some(vj) => {
                let value = match value_from_json(vj) {
                    Ok(v) => v,
                    Err(e) => {
                        return Err(e);
                    },
                };
                Ok(ValueWrapper { value })
            },
            None => Err(MalformedPayload),
        },
        _ => Err(MalformedPayload),
    }
}

/// Maps the items of a `values` array, from index `i` on.
fn value_wrappers_from_json(vs: &Vec<Json>, i: usize) -> (r: Result<
    Vec<ValueWrapper>,
    MalformedPayload,
>)
    requires
        i <= vs@.len(),
    ensures
        match r {
            Ok(out) => value_wrappers_of_json(jview_seq(vs@).skip(i as int)) == Some(
                out@.map_values(|w: ValueWrapper| w@),
            ),
            Err(_) => value_wrappers_of_json(jview_seq(vs@).skip(i as int)) is None,
        },
    decreases vs@.len() - i,
{
    let ghost jv = jview_seq(vs@);
    proof {
        crate::json::lemma_jview_seq_len(vs@);
    }
    if i == vs.len() {
        let out: Vec<ValueWrapper> = Vec::new();
        proof {
            assert(jv.skip(i as int) =~= Seq::<JsonM>::empty());
            assert(out@.map_values(|w: ValueWrapper| w@) =~= Seq::<ValueWrapperV>::empty());
        }
        return Ok(out);
    }
    proof {
        crate::json::lemma_jview_seq_index(vs@, i as int);
        assert(jv.skip(i as int)[0] == jv[i as int]);
        assert(jv.skip(i as int).skip(1) =~= jv.skip(i + 1));
    }
    let head = match value_wrapper_from_json(&vs[i]) {
        Ok(w) => w,
        Err(e) => {
            return Err(e);
        },
    };
    let mut rest = match value_wrappers_from_json(vs, i + 1) {
        Ok(out) => out,
        Err(e) => {
            return Err(e);
        },
    };
    let ghost tail = rest@;
    rest.insert(0, head);
    proof {
        assert(rest@ =~= seq![head] + tail);
        assert(rest@.map_values(|w: ValueWrapper| w@) =~= seq![head@] + tail.map_values(
            |w: ValueWrapper| w@,
        ));
    }
    Ok(rest)
}

fn rpa_from_json(j: &Json) -> (r: Result<ResolutionsPerAuthority, MalformedPayload>)
    ensures
        match r {
            Ok(a) => rpa_of_json(j@) == Some(a@),
            Err(_) => rpa_of_json(j@) is None,
        },
{
    match j {
        Json::Obj(ms) => {
            let authority = match read_req_str(ms, "authority") {
                Ok(s) => s,
                Err(e) => {
                    return Err(e);
                },
            };
            let status = match get_field(ms, "status") {
                Some(sj) => match status_from_json(sj) {
                    Ok(s) => s,
                    Err(e) => {
                        proof {
                            let mv = jview_members(ms@);
                            assert(j@ == JsonM::Obj(mv));
                            assert(jfield(mv, "status"@) == Some(sj@));
                            assert(status_of_json(sj@) is None);
                            assert(rpa_of_json(j@) is None);
                        }
                        return Err(e);
                    },
                },
                None => {
                    return Err(MalformedPayload);
                },
            };
            let values = match get_field(ms, "values") {
                Some(Json::Arr(vs)) => match value_wrappers_from_json(vs, 0) {
                    Ok(out) => {
                        proof {
                            assert(jview_seq(vs@).skip(0) =~= jview_seq(vs@));
                        }
                        out
                    },
                    Err(e) => {
                        return Err(e);
                    },
                },
                _ => {
                    return Err(MalformedPayload);
                },
            };
            Ok(ResolutionsPerAuthority { authority, status, values })
        },
        _ => Err(MalformedPayload),
    }
}

/// Maps the items of a `resolutionsPerAuthority` array, from index `i` on.
fn rpas_from_json(vs: &Vec<Json>, i: usize) -> (r: Result<
    Vec<ResolutionsPerAuthority>,
    MalformedPayload,
>)
    requires
        i <= vs@.len(),
    ensures
        match r {
            Ok(out) => rpas_of_json(jview_seq(vs@).skip(i as int)) == Some(
                out@.map_values(|a: ResolutionsPerAuthority| a@),
            ),
            Err(_) => rpas_of_json(jview_seq(vs@).skip(i as int)) is None,
        },
    decreases vs@.len() - i,
{
    let ghost jv = jview_seq(vs@);
    proof {
        crate::json::lemma_jview_seq_len(vs@);
    }
    if i == vs.len() {
        let out: Vec<ResolutionsPerAuthority> = Vec::new();
        proof {
            assert(jv.skip(i as int) =~= Seq::<JsonM>::empty());
            assert(out@.map_values(|a: ResolutionsPerAuthority| a@) =~= Seq::<
                ResolutionsPerAuthorityV,
            >::empty());
        }
        return Ok(out);
    }
    proof {
        crate::json::lemma_jview_seq_index(vs@, i as int);
        assert(jv.skip(i as int)[0] == jv[i as int]);
        assert(jv.skip(i as int).skip(1) =~= jv.skip(i + 1));
    }
    let head = match rpa_from_json(&vs[i]) {
        Ok(a) => a,
        Err(e) => {
            return Err(e);
        },
    };
    let mut rest = match rpas_from_json(vs, i + 1) {
        Ok(out) => out,
        Err(e) => {
            return Err(e);
        },
    };
    let ghost tail = rest@;
    rest.insert(0, head);
    proof {
        assert(rest@ =~= seq![head] + tail);
        assert(rest@.map_values(|a: ResolutionsPerAuthority| a@) =~= seq![head@] + tail.map_values(
            |a: ResolutionsPerAuthority| a@,
        ));
    }
    Ok(rest)
}

fn resolution_from_json(j: &Json) -> (r: Result<Resolution, MalformedPayload>)
    ensures
        match r {
            Ok(res) => resolution_of_json(j@) == Some(res@),
            Err(_) => resolution_of_json(j@) is None,
        },
{
    match j {
        Json::Obj(ms) => match get_field(ms, "resolutionsPerAuthority") {
            Some(rj) => match rj {
                Json::Arr(vs) => {
                    proof {
                        assert(rj@ == JsonM::Arr(jview_seq(vs@)));
                        assert(jview_seq(vs@).skip(0) =~= jview_seq(vs@));
                    }
                    match rpas_from_json(vs, 0) {
                        Ok(out) => Ok(Resolution { resolutions_per_authority: out }),
                        Err(e) => Err(e),
                    }
                },
                _ => Err(MalformedPayload),
            },
            None => Err(MalformedPayload),
        },
        _ => Err(MalformedPayload),
    }
}

fn slot_from_json(j: &Json) -> (r: Result<Slot, MalformedPayload>)
    ensures
        match r {
            Ok(s) => slot_of_json(j@) == Some(s@),
            Err(_) => slot_of_json(j@) is None,
        },
{
    match j {
        Json::Obj(ms) => {
            let name = match read_req_str(ms, "name") {
                Ok(s) => s,
                Err(e) => {
                    return Err(e);
                },
            };
            let value = match read_req_str(ms, "value") {
                Ok(s) => s,
                Err(e) => {
                    return Err(e);
                },
            };
            let confirmation_status = match read_opt_str(ms, "confirmationStatus") {
                Ok(c) => c,
                Err(e) => {
                    return Err(e);
                },
            };
            let resolutions = match get_field(ms, "resolutions") {
                None => None,
                Some(Json::Null) => None,
                Some(rj) => match resolution_from_json(rj) {
                    Ok(res) => Some(res),
                    Err(e) => {
                        return Err(e);
                    },
                },
            };
            Ok(Slot { name, value, confirmation_status, resolutions })
        },
        _ => Err(MalformedPayload),
    }
}

/// Builds the name-to-slot map from an object's members, later entries
/// overriding earlier ones.
fn slot_map_from_members(ms: &Vec<(String, Json)>) -> (r: Result<KvMap<Slot>, MalformedPayload>)
    ensures
        match r {
            Ok(m) => slot_map_of_members(jview_members(ms@), Seq::empty()) == Some(m@),
            Err(_) => slot_map_of_members(jview_members(ms@), Seq::empty()) is None,
        },
{
    let ghost mv = jview_members(ms@);
    let mut out: KvMap<Slot> = KvMap::new();
    let n = ms.len();
    let mut i: usize = 0;
    proof {
        crate::json::lemma_jview_members_len(ms@);
        assert(mv.skip(0) =~= mv);
    }
    while i < n
        invariant
            i <= n,
            n == ms@.len(),
            mv == jview_members(ms@),
            mv.len() == n,
            slot_map_of_members(mv, Seq::empty()) == slot_map_of_members(
                mv.skip(i as int),
                out@,
            ),
        decreases n - i,
    {
        proof {
            crate::json::lemma_jview_members_index(ms@, i as int);
            assert(mv.skip(i as int)[0] == mv[i as int]);
            assert(mv.skip(i as int).skip(1) =~= mv.skip(i + 1));
        }
        let slot = match slot_from_json(&ms[i].1) {
            Ok(s) => s,
            Err(e) => {
                return Err(e);
            },
        };
        let key = ms[i].0.clone();
        out.insert(key, slot);
        i = i + 1;
    }
    proof {
        assert(mv.skip(n as int) =~= Seq::<(Seq<char>, JsonM)>::empty());
    }
    Ok(out)
}

fn intent_from_json(j: &Json) -> (r: Result<Intent, MalformedPayload>)
    ensures
        match r {
            Ok(it) => intent_of_json(j@) == Some(it@),
            Err(_) => intent_of_json(j@) is None,
        },
{
    match j {
        Json::Obj(ms) => {
            let name = match read_req_str(ms, "name") {
                Ok(s) => s,
                Err(e) => {
                    return Err(e);
                },
            };
            let confirmation_status = match read_opt_str(ms, "confirmationStatus") {
                Ok(c) => c,
                Err(e) => {
                    return Err(e);
                },
            };
            let slots = match get_field(ms, "slots") {
                None => None,
                Some(Json::Null) => None,
                Some(Json::Obj(sms)) => match slot_map_from_members(sms) {
                    Ok(m) => Some(m),
                    Err(e) => {
                        return Err(e);
                    },
                },
                Some(_) => {
                    return Err(MalformedPayload);
                },
            };
            Ok(Intent { name, confirmation_status, slots })
        },
        _ => Err(MalformedPayload),
    }
}

/// Builds the attribute bag from an object's members, later entries
/// overriding earlier ones.
pub(crate) fn str_map_from_members(ms: &Vec<(String, Json)>) -> (r: Result<
    KvMap<String>,
    MalformedPayload,
>)
    ensures
        match r {
            Ok(m) => str_map_of_members(jview_members(ms@), Seq::empty()) == Some(m@),
            Err(_) => str_map_of_members(jview_members(ms@), Seq::empty()) is None,
        },
{
    let ghost mv = jview_members(ms@);
    let mut out: KvMap<String> = KvMap::new();
    let n = ms.len();
    let mut i: usize = 0;
    proof {
        crate::json::lemma_jview_members_len(ms@);
        assert(mv.skip(0) =~= mv);
    }
    while i < n
        invariant
            i <= n,
            n == ms@.len(),
            mv == jview_members(ms@),
            mv.len() == n,
            str_map_of_members(mv, Seq::empty()) == str_map_of_members(mv.skip(i as int), out@),
        decreases n - i,
    {
        proof {
            crate::json::lemma_jview_members_index(ms@, i as int);
            assert(mv.skip(i as int)[0] == mv[i as int]);
            assert(mv.skip(i as int).skip(1) =~= mv.skip(i + 1));
        }
        match &ms[i].1 {
            Json::Str(s) => {
                let key = ms[i].0.clone();
                out.insert(key, s.clone());
            },
            _ => {
                return Err(MalformedPayload);
            },
        }
        i = i + 1;
    }
    proof {
        assert(mv.skip(n as int) =~= Seq::<(Seq<char>, JsonM)>::empty());
    }
    Ok(out)
}

fn session_from_json(j: &Json) -> (r: Result<Session, MalformedPayload>)
    ensures
        match r {
            Ok(s) => session_of_json(j@) == Some(s@),
            Err(_) => session_of_json(j@) is None,
        },
{
    match j {
        Json::Obj(ms) => {
            let new = match read_req_bool(ms, "new") {
                Ok(b) => b,
                Err(e) => {
                    return Err(e);
                },
            };
            let session_id = match read_req_str(ms, "sessionId") {
                Ok(s) => s,
                Err(e) => {
                    return Err(e);
                },
            };
            let attributes = match get_field(ms, "attributes") {
                None => None,
                Some(Json::Null) => None,
                Some(Json::Obj(ams)) => match str_map_from_members(ams) {
                    Ok(m) => Some(m),
                    Err(e) => {
                        return Err(e);
                    },
                },
                Some(_) => {
                    return Err(MalformedPayload);
                },
            };
            let application = match get_field(ms, "application") {
                Some(aj) => match application_from_json(aj) {
                    Ok(a) => a,
                    Err(e) => {
                        return Err(e);
                    },
                },
                None => {
                    return Err(MalformedPayload);
                },
            };
            let user = match get_field(ms, "user") {
                Some(uj) => match user_from_json(uj) {
                    Ok(u) => u,
                    Err(e) => {
                        return Err(e);
                    },
                },
                None => {
                    return Err(MalformedPayload);
                },
            };
            Ok(Session { new, session_id, attributes, application, user })
        },
        _ => Err(MalformedPayload),
    }
}

fn audio_player_from_json(j: &Json) -> (r: Result<AudioPlayer, MalformedPayload>)
    ensures
        match r {
            Ok(a) => audio_player_of_json(j@) == Some(a@),
            Err(_) => audio_player_of_json(j@) is None,
        },
{
    match j {
        Json::Obj(ms) => {
            let token = match read_opt_str(ms, "token") {
                Ok(t) => t,
                Err(e) => {
                    return Err(e);
                },
            };
            let offset_in_milliseconds = match read_opt_u64(ms, "offsetInMilliseconds") {
                Ok(o) => o,
                Err(e) => {
                    return Err(e);
                },
            };
            let player_activity = match read_opt_str(ms, "playerActivity") {
                Ok(p) => p,
                Err(e) => {
                    return Err(e);
                },
            };
            Ok(AudioPlayer { token, offset_in_milliseconds, player_activity })
        },
        _ => Err(MalformedPayload),
    }
}

fn system_from_json(j: &Json) -> (r: Result<System, MalformedPayload>)
    ensures
        match r {
            Ok(s) => system_of_json(j@) == Some(s@),
            Err(_) => system_of_json(j@) is None,
        },
{
    match j {
        Json::Obj(ms) => {
            let api_access_token = match read_opt_str(ms, "apiAccessToken") {
                Ok(t) => t,
                Err(e) => {
                    return Err(e);
                },
            };
            let device = match get_field(ms, "device") {
                None => None,
                Some(Json::Null) => None,
                Some(dj) => match device_from_json(dj) {
                    Ok(d) => Some(d),
                    Err(e) => {
                        return Err(e);
                    },
                },
            };
            let application = match get_field(ms, "application") {
                None => None,
                Some(Json::Null) => None,
                Some(aj) => match application_from_json(aj) {
                    Ok(a) => Some(a),
                    Err(e) => {
                        return Err(e);
                    },
                },
            };
            Ok(System { api_access_token, device, application })
        },
        _ => Err(MalformedPayload),
    }
}

fn context_from_json(j: &Json) -> (r: Result<Context, MalformedPayload>)
    ensures
        match r {
            Ok(c) => context_of_json(j@) == Some(c@),
            Err(_) => context_of_json(j@) is None,
        },
{
    match j {
        Json::Obj(ms) => {
            let system = match get_field(ms, "System") {
                Some(sj) => match system_from_json(sj) {
                    Ok(s) => s,
                    Err(e) => {
                        return Err(e);
                    },
                },
                None => {
                    return Err(MalformedPayload);
                },
            };
            let audio_player = match get_field(ms, "AudioPlayer") {
                None => None,
                Some(Json::Null) => None,
                Some(aj) => match audio_player_from_json(aj) {
                    Ok(a) => Some(a),
                    Err(e) => {
                        return Err(e);
                    },
                },
            };
            Ok(Context { system, audio_player })
        },
        _ => Err(MalformedPayload),
    }
}

fn req_body_from_json(j: &Json) -> (r: Result<ReqBody, MalformedPayload>)
    ensures
        match r {
            Ok(b) => req_body_of_json(j@) == Some(b@),
            Err(_) => req_body_of_json(j@) is None,
        },
{
    match j {
        Json::Obj(ms) => {
            let reqtype = match read_req_str(ms, "type") {
                Ok(s) => s,
                Err(e) => {
                    return Err(e);
                },
            };
            let request_id = match read_req_str(ms, "requestId") {
                Ok(s) => s,
                Err(e) => {
                    return Err(e);
                },
            };
            let timestamp = match read_req_str(ms, "timestamp") {
                Ok(s) => s,
                Err(e) => {
                    return Err(e);
                },
            };
            let locale = match read_req_str(ms, "locale") {
                Ok(s) => s,
                Err(e) => {
                    return Err(e);
                },
            };
            let intent = match get_field(ms, "intent") {
                None => None,
                Some(Json::Null) => None,
                Some(ij) => match intent_from_json(ij) {
                    Ok(it) => Some(it),
                    Err(e) => {
                        return Err(e);
                    },
                },
            };
            let reason = match read_opt_str(ms, "reason") {
                Ok(x) => x,
                Err(e) => {
                    return Err(e);
                },
            };
            let dialog_state = match read_opt_str(ms, "dialogState") {
                Ok(x) => x,
                Err(e) => {
                    return Err(e);
                },
            };
            Ok(ReqBody { reqtype, request_id, timestamp, locale, intent, reason, dialog_state })
        },
        _ => Err(MalformedPayload),
    }
}

/// Maps a whole parsed document to a request value.
pub fn request_from_json(j: &Json) -> (r: Result<Request, MalformedPayload>)
    ensures
        match r {
            Ok(req) => request_of_json(j@) == Some(req@),
            Err(_) => request_of_json(j@) is None,
        },
{
    match j {
        Json::Obj(ms) => {
            let version = match read_req_str(ms, "version") {
                Ok(s) => s,
                Err(e) => {
                    return Err(e);
                },
            };
            let session = match get_field(ms, "session") {
                None => None,
                Some(Json::Null) => None,
                Some(sj) => match session_from_json(sj) {
                    Ok(s) => Some(s),
                    Err(e) => {
                        return Err(e);
                    },
                },
            };
            let body = match get_field(ms, "request") {
                Some(bj) => match req_body_from_json(bj) {
                    Ok(b) => b,
                    Err(e) => {
                        return Err(e);
                    },
                },
                None => {
                    return Err(MalformedPayload);
                },
            };
            let context = match get_field(ms, "context") {
                Some(cj) => match context_from_json(cj) {
                    Ok(c) => c,
                    Err(e) => {
                        return Err(e);
                    },
                },
                None => {
                    return Err(MalformedPayload);
                },
            };
            Ok(Request { version, session, body, context })
        },
        _ => Err(MalformedPayload),
    }
}

/// The inbound boundary: a JSON document in, a request value or
/// `MalformedPayload` out — exactly when the spec-level mapping is defined.
pub fn parse_request(s: &str) -> (r: Result<Request, MalformedPayload>)
    ensures
        match r {
            Ok(req) => spec_parse_request(s@) == Some(req@),
            Err(_) => spec_parse_request(s@) is None,
        },
{
    match crate::parse::parse_json(s) {
        Some(j) => request_from_json(&j),
        None => Err(MalformedPayload),
    }
}

// ------------------------------------------------------------------
// Classifiers: total functions from raw strings to closed-ish
// enumerations, with an escape variant for anything unrecognized.
// ------------------------------------------------------------------

/// The recognized request types; anything else is carried verbatim in
/// `Other`.
#[derive(Debug, PartialEq)]
pub enum ReqType {
    LaunchRequest,
    IntentRequest,
    SessionEndedRequest,
    CanFulfillIntentRequest,
    Other(String),
}

pub ghost enum ReqTypeV {
    LaunchRequest,
    IntentRequest,
    SessionEndedRequest,
    CanFulfillIntentRequest,
    Other(Seq<char>),
}

impl View for ReqType {
    type V = ReqTypeV;

    open spec fn view(&self) -> ReqTypeV {
        match self {
            ReqType::LaunchRequest => ReqTypeV::LaunchRequest,
            ReqType::IntentRequest => ReqTypeV::IntentRequest,
            ReqType::SessionEndedRequest => ReqTypeV::SessionEndedRequest,
            ReqType::CanFulfillIntentRequest => ReqTypeV::CanFulfillIntentRequest,
            ReqType::Other(s) => ReqTypeV::Other(s@),
        }
    }
}

/// Total: every string maps to exactly one variant, unknown ones to `Other`
/// carrying the string itself. Injective on the recognized set by
/// construction — the four recognized tags are distinct variants.
pub open spec fn req_type_of(s: Seq<char>) -> ReqTypeV {
    if s == "LaunchRequest"@ {
        ReqTypeV::LaunchRequest
    } else if s == "IntentRequest"@ {
        ReqTypeV::IntentRequest
    } else if s == "SessionEndedRequest"@ {
        ReqTypeV::SessionEndedRequest
    } else if s == "CanFulfillIntentRequest"@ {
        ReqTypeV::CanFulfillIntentRequest
    } else {
        ReqTypeV::Other(s)
    }
}

impl ReqType {
    /// Classifies a raw request-type tag.
    pub fn from_tag(s: &str) -> (r: ReqType)
        ensures
            r@ == req_type_of(s@),
    {
        if str_eq(s, "LaunchRequest") {
            ReqType::LaunchRequest
        } else if str_eq(s, "IntentRequest") {
            ReqType::IntentRequest
        } else if str_eq(s, "SessionEndedRequest") {
            ReqType::SessionEndedRequest
        } else if str_eq(s, "CanFulfillIntentRequest") {
            ReqType::CanFulfillIntentRequest
        } else {
            ReqType::Other(String::from_str(s))
        }
    }
}

/// The built-in intents, recognized by exact, case-sensitive match on the
/// platform's reserved names; a custom intent name is carried verbatim in
/// `User`, and a request without an intent classifies as `None`.
#[derive(Debug, PartialEq)]
pub enum IntentType {
    NoIntent,
    Help,
    Cancel,
    Fallback,
    LoopOff,
    LoopOn,
    NavigateHome,
    Next,
    No,
    Pause,
    Previous,
    Repeat,
    Resume,
    Select,
    ShuffleOn,
    ShuffleOff,
    StartOver,
    Stop,
    Yes,
    User(String),
}

pub ghost enum IntentTypeV {
    NoIntent,
    Help,
    Cancel,
    Fallback,
    LoopOff,
    LoopOn,
    NavigateHome,
    Next,
    No,
    Pause,
    Previous,
    Repeat,
    Resume,
    Select,
    ShuffleOn,
    ShuffleOff,
    StartOver,
    Stop,
    Yes,
    User(Seq<char>),
}

impl View for IntentType {
    type V = IntentTypeV;

    open spec fn view(&self) -> IntentTypeV {
        match self {
            IntentType::NoIntent => IntentTypeV::NoIntent,
            IntentType::Help => IntentTypeV::Help,
            IntentType::Cancel => IntentTypeV::Cancel,
            IntentType::Fallback => IntentTypeV::Fallback,
            IntentType::LoopOff => IntentTypeV::LoopOff,
            IntentType::LoopOn => IntentTypeV::LoopOn,
            IntentType::NavigateHome => IntentTypeV::NavigateHome,
            IntentType::Next => IntentTypeV::Next,
            IntentType::No => IntentTypeV::No,
            IntentType::Pause => IntentTypeV::Pause,
            IntentType::Previous => IntentTypeV::Previous,
            IntentType::Repeat => IntentTypeV::Repeat,
            IntentType::Resume => IntentTypeV::Resume,
            IntentType::Select => IntentTypeV::Select,
            IntentType::ShuffleOn => IntentTypeV::ShuffleOn,
            IntentType::ShuffleOff => IntentTypeV::ShuffleOff,
            IntentType::StartOver => IntentTypeV::StartOver,
            IntentType::Stop => IntentTypeV::Stop,
            IntentType::Yes => IntentTypeV::Yes,
            IntentType::User(s) => IntentTypeV::User(s@),
        }
    }
}

/// Total over intent names: the fixed reserved table, else `User` with the
/// name verbatim.
pub open spec fn intent_type_of(name: Seq<char>) -> IntentTypeV {
    if name == "AMAZON.HelpIntent"@ {
        IntentTypeV::Help
    } else if name == "AMAZON.CancelIntent"@ {
        IntentTypeV::Cancel
    } else if name == "AMAZON.FallbackIntent"@ {
        IntentTypeV::Fallback
    } else if name == "AMAZON.LoopOffIntent"@ {
        IntentTypeV::LoopOff
    } else if name == "AMAZON.LoopOnIntent"@ {
        IntentTypeV::LoopOn
    } else if name == "AMAZON.NavigateHomeIntent"@ {
        IntentTypeV::NavigateHome
    } else if name == "AMAZON.NextIntent"@ {
        IntentTypeV::Next
    } else if name == "AMAZON.NoIntent"@ {
        IntentTypeV::No
    } else if name == "AMAZON.PauseIntent"@ {
        IntentTypeV::Pause
    } else if name == "AMAZON.PreviousIntent"@ {
        IntentTypeV::Previous
    } else if name == "AMAZON.RepeatIntent"@ {
        IntentTypeV::Repeat
    } else if name == "AMAZON.ResumeIntent"@ {
        IntentTypeV::Resume
    } else if name == "AMAZON.SelectIntent"@ {
        IntentTypeV::Select
    } else if name == "AMAZON.ShuffleOffIntent"@ {
        IntentTypeV::ShuffleOff
    } else if name == "AMAZON.ShuffleOnIntent"@ {
        IntentTypeV::ShuffleOn
    } else if name == "AMAZON.StartOverIntent"@ {
        IntentTypeV::StartOver
    } else if name == "AMAZON.StopIntent"@ {
        IntentTypeV::Stop
    } else if name == "AMAZON.YesIntent"@ {
        IntentTypeV::Yes
    } else {
        IntentTypeV::User(name)
    }
}

/// The intent classification of a request: `None` where the body carries no
/// intent, else the table lookup on the intent's name.
pub open spec fn intent_of_request(r: RequestV) -> IntentTypeV {
    match r.body.intent {
        Option::Some(i) => intent_type_of(i.name),
        Option::None => IntentTypeV::NoIntent,
    }
}

/// The platform's standard locales; unmatched tags map to `Unknown`.
#[derive(Debug, PartialEq, Eq, Structural, Clone, Copy)]
pub enum Locale {
    Italian,
    German,
    AustralianEnglish,
    CanadianEnglish,
    BritishEnglish,
    IndianEnglish,
    AmericanEnglish,
    Japanese,
    Unknown,
}

/// Total over locale tags: the fixed table, else `Unknown`.
pub open spec fn locale_of(s: Seq<char>) -> Locale {
    if s == "it-IT"@ {
        Locale::Italian
    } else if s == "de-DE"@ {
        Locale::German
    } else if s == "en-AU"@ {
        Locale::AustralianEnglish
    } else if s == "en-CA"@ {
        Locale::CanadianEnglish
    } else if s == "en-GB"@ {
        Locale::BritishEnglish
    } else if s == "en-IN"@ {
        Locale::IndianEnglish
    } else if s == "en-US"@ {
        Locale::AmericanEnglish
    } else if s == "ja-JP"@ {
        Locale::Japanese
    } else {
        Locale::Unknown
    }
}

/// True exactly for the English-language locales of the table.
pub open spec fn spec_is_english(l: Locale) -> bool {
    match l {
        Locale::AmericanEnglish => true,
        Locale::AustralianEnglish => true,
        Locale::CanadianEnglish => true,
        Locale::BritishEnglish => true,
        Locale::IndianEnglish => true,
        _ => false,
    }
}

impl Locale {
    /// Classifies a raw locale tag.
    pub fn from_tag(s: &str) -> (r: Locale)
        ensures
            r == locale_of(s@),
    {
        if str_eq(s, "it-IT") {
            Locale::Italian
        } else if str_eq(s, "de-DE") {
            Locale::German
        } else if str_eq(s, "en-AU") {
            Locale::AustralianEnglish
        } else if str_eq(s, "en-CA") {
            Locale::CanadianEnglish
        } else if str_eq(s, "en-GB") {
            Locale::BritishEnglish
        } else if str_eq(s, "en-IN") {
            Locale::IndianEnglish
        } else if str_eq(s, "en-US") {
            Locale::AmericanEnglish
        } else if str_eq(s, "ja-JP") {
            Locale::Japanese
        } else {
            Locale::Unknown
        }
    }

    /// True for all English-speaking locales, false for every other locale,
    /// `Unknown` included.
    pub fn is_english(&self) -> (r: bool)
        ensures
            r == spec_is_english(*self),
    {
        match *self {
            Locale::AmericanEnglish => true,
            Locale::AustralianEnglish => true,
            Locale::CanadianEnglish => true,
            Locale::BritishEnglish => true,
            Locale::IndianEnglish => true,
            _ => false,
        }
    }
}

// ------------------------------------------------------------------
// Accessors over the parsed request.
// ------------------------------------------------------------------

/// The value of the named slot, if the body carries an intent whose slot
/// map has that exact name. No case folding, no fuzzy match.
pub open spec fn spec_slot_value(r: RequestV, slot: Seq<char>) -> Option<Seq<char>> {
    match r.body.intent {
        Option::None => Option::None,
        Option::Some(i) => match i.slots {
            Option::None => Option::None,
            Option::Some(m) => match kv_get(m, slot) {
                Option::Some(sl) => Option::Some(sl.value),
                Option::None => Option::None,
            },
        },
    }
}

/// The session attribute under `key`, if a session and a bag are present.
pub open spec fn spec_attribute_value(r: RequestV, key: Seq<char>) -> Option<Seq<char>> {
    match r.session {
        Option::None => Option::None,
        Option::Some(s) => match s.attributes {
            Option::None => Option::None,
            Option::Some(m) => kv_get(m, key),
        },
    }
}

/// Whether the request opens a fresh conversational session: true only when
/// a session is present and marked new.
pub open spec fn spec_is_new(r: RequestV) -> bool {
    match r.session {
        Option::Some(s) => s.new,
        Option::None => false,
    }
}

impl Intent {
    /// The named slot of this intent, if present.
    pub fn get_slot<'a>(&'a self, name: &str) -> (r: Option<&'a Slot>)
        ensures
            match r {
                Some(sl) => self@.slots matches Option::Some(m) && kv_get(m, name@) == Some(sl@),
                None => match self@.slots {
                    Option::Some(m) => kv_get(m, name@) is None,
                    Option::None => true,
                },
            },
    {
        match &self.slots {
            Some(m) => m.get(name),
            None => None,
        }
    }
}

impl Request {
    /// Classifies the request's type tag.
    pub fn reqtype(&self) -> (r: ReqType)
        ensures
            r@ == req_type_of(self@.body.reqtype),
    {
        ReqType::from_tag(self.body.reqtype.as_str())
    }

    /// Classifies the request's locale tag.
    pub fn locale(&self) -> (r: Locale)
        ensures
            r == locale_of(self@.body.locale),
    {
        Locale::from_tag(self.body.locale.as_str())
    }

    /// Classifies the request's intent: `None` without an intent, a reserved
    /// built-in by exact name, else `User` with the name verbatim.
    pub fn intent(&self) -> (r: IntentType)
        ensures
            r@ == intent_of_request(self@),
    {
        match &self.body.intent {
            Some(i) => {
                let name = i.name.as_str();
                if str_eq(name, "AMAZON.HelpIntent") {
                    IntentType::Help
                } else if str_eq(name, "AMAZON.CancelIntent") {
                    IntentType::Cancel
                } else if str_eq(name, "AMAZON.FallbackIntent") {
                    IntentType::Fallback
                } else if str_eq(name, "AMAZON.LoopOffIntent") {
                    IntentType::LoopOff
                } else if str_eq(name, "AMAZON.LoopOnIntent") {
                    IntentType::LoopOn
                } else if str_eq(name, "AMAZON.NavigateHomeIntent") {
                    IntentType::NavigateHome
                } else if str_eq(name, "AMAZON.NextIntent") {
                    IntentType::Next
                } else if str_eq(name, "AMAZON.NoIntent") {
                    IntentType::No
                } else if str_eq(name, "AMAZON.PauseIntent") {
                    IntentType::Pause
                } else if str_eq(name, "AMAZON.PreviousIntent") {
                    IntentType::Previous
                } else if str_eq(name, "AMAZON.RepeatIntent") {
                    IntentType::Repeat
                } else if str_eq(name, "AMAZON.ResumeIntent") {
                    IntentType::Resume
                } else if str_eq(name, "AMAZON.SelectIntent") {
                    IntentType::Select
                } else if str_eq(name, "AMAZON.ShuffleOffIntent") {
                    IntentType::ShuffleOff
                } else if str_eq(name, "AMAZON.ShuffleOnIntent") {
                    IntentType::ShuffleOn
                } else if str_eq(name, "AMAZON.StartOverIntent") {
                    IntentType::StartOver
                } else if str_eq(name, "AMAZON.StopIntent") {
                    IntentType::Stop
                } else if str_eq(name, "AMAZON.YesIntent") {
                    IntentType::Yes
                } else {
                    IntentType::User(i.name.clone())
                }
            },
            None => IntentType::NoIntent,
        }
    }

    /// The string value of the named slot, if it exists.
    pub fn slot_value(&self, slot: &str) -> (r: Option<String>)
        ensures
            match r {
                Some(v) => spec_slot_value(self@, slot@) == Some(v@),
                None => spec_slot_value(self@, slot@) is None,
            },
    {
        match &self.body.intent {
            None => None,
            Some(i) => match i.get_slot(slot) {
                Some(sl) => Some(sl.value.clone()),
                None => None,
            },
        }
    }

    /// The session attribute stored under `key`, if it exists. Read-only:
    /// the request's attributes are never touched.
    pub fn attribute_value<'a>(&'a self, key: &str) -> (r: Option<&'a String>)
        ensures
            match r {
                Some(v) => spec_attribute_value(self@, key@) == Some(v@),
                None => spec_attribute_value(self@, key@) is None,
            },
    {
        match &self.session {
            None => None,
            Some(s) => match &s.attributes {
                None => None,
                Some(m) => m.get(key),
            },
        }
    }

    /// Whether this request opens a new session; an absent session reads as
    /// false, not as an error.
    pub fn is_new(&self) -> (r: bool)
        ensures
            r == spec_is_new(self@),
    {
        match &self.session {
            Some(s) => s.new,
            None => false,
        }
    }
}

} // verus!
