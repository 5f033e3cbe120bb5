//! The bridge as a server: what its endpoints reply, and how failures are told
//! to a client.
use vstd::prelude::*;

use crate::auth::AuthError;
use crate::config::{fits, integer_value, parse_usize, HostAddress};
use crate::headers::{field_of, fields_view, header, FieldView, HeaderField};
use crate::json::{pair, text_of, Json, JsonObject, JsonView};
use crate::metrics::{SnapshotView, StatusSnapshot};
use crate::protocol::{ProtocolError, ProtocolErrorView};
use crate::quota::{QuotaSnapshot, QuotaView};
use crate::status::{quota_document, quota_json, snapshot_document, snapshot_fits, snapshot_json};
use crate::stream::{nested, nested_field};
use crate::text::concat3;

verus! {

/// The version of the bridge.
pub const BRIDGE_VERSION: &'static str = "0.1.2";

/// The name under which the bridge makes itself known.
pub const SERVICE: &'static str = "codex-for-grok";

/// A reply: an HTTP status and a JSON body.
#[derive(Debug, PartialEq, Eq)]
pub struct Reply {
    pub status: u16,
    pub body: Json,
}

/// What a reply holds.
pub struct ReplyView {
    pub status: u16,
    pub body: JsonView,
}

impl View for Reply {
    type V = ReplyView;

    open spec fn view(&self) -> ReplyView {
        ReplyView { status: self.status, body: self.body@ }
    }
}

/// What an optional reply holds.
pub open spec fn optional_reply(reply: Option<Reply>) -> Option<ReplyView> {
    match reply {
        Some(reply) => Some(reply@),
        None => None,
    }
}

/// A document with one field.
pub open spec fn single(key: Seq<char>, value: JsonView) -> JsonView {
    JsonView::Object(Map::empty().insert(key, value))
}

/// The reply that reports an error.
pub open spec fn error_reply(status: u16, code: Seq<char>, message: Seq<char>) -> ReplyView {
    ReplyView {
        status,
        body: single(
            "error"@,
            pair("code"@, JsonView::Text(code), "message"@, JsonView::Text(message)),
        ),
    }
}

/// Makes the reply that reports an error.
pub fn error_response(status: u16, code: &str, message: &str) -> (reply: Reply)
    ensures
        reply@ == error_reply(status, code@, message@),
{
    let mut body = JsonObject::new();
    body.insert(
        "error",
        Json::pair("code", Json::string(code), "message", Json::string(message)),
    );
    Reply { status, body: Json::Object(body) }
}

/// The refusal of a peer that is not the machine itself.
pub open spec fn stranger_reply() -> ReplyView {
    error_reply(403, "loopback_only"@, "The Codex bridge only accepts loopback connections"@)
}

/// Refuses a peer that is not the machine itself.
pub fn loopback_only(peer: &HostAddress) -> (refusal: Option<Reply>)
    ensures
        optional_reply(refusal) == (if peer.loops_back() {
            None
        } else {
            Some(stranger_reply())
        }),
{
    if peer.is_loopback() {
        None
    } else {
        Some(
            error_response(
                403,
                "loopback_only",
                "The Codex bridge only accepts loopback connections",
            ),
        )
    }
}

/// The reply of the health endpoint.
pub open spec fn health_reply() -> ReplyView {
    ReplyView {
        status: 200,
        body: JsonView::Object(
            Map::empty().insert("ok"@, JsonView::Bool(true)).insert(
                "service"@,
                JsonView::Text(SERVICE@),
            ).insert("version"@, JsonView::Text("0.1.2"@)),
        ),
    }
}

/// What an endpoint replies: the peer has to be the machine itself.
pub open spec fn guarded(peer: HostAddress, reply: ReplyView) -> ReplyView {
    if peer.loops_back() {
        reply
    } else {
        stranger_reply()
    }
}

/// The health endpoint.
pub fn health(peer: &HostAddress) -> (reply: Reply)
    ensures
        reply@ == guarded(*peer, health_reply()),
{
    if let Some(refusal) = loopback_only(peer) {
        return refusal;
    }
    let mut body = JsonObject::new();
    body.insert("ok", Json::Bool(true));
    body.insert("service", Json::string(SERVICE));
    body.insert("version", Json::string(BRIDGE_VERSION));
    Reply { status: 200, body: Json::Object(body) }
}

/// The reply of the readiness endpoint.
pub open spec fn ready_reply(ready: bool) -> ReplyView {
    if ready {
        ReplyView {
            status: 200,
            body: pair("ok"@, JsonView::Bool(true), "auth"@, JsonView::Text("ready"@)),
        }
    } else {
        error_reply(503, "codex_auth_unavailable"@, "Codex authentication is not ready"@)
    }
}

/// The readiness endpoint: the reply, and whether the bridge is to be marked as
/// ready; `check` is what came of looking for a session.
pub fn ready(peer: &HostAddress, check: &Result<(), AuthError>) -> (r: (Reply, Option<bool>))
    ensures
        r.0@ == guarded(*peer, ready_reply(check is Ok)),
        r.1 == (if peer.loops_back() {
            Some(check is Ok)
        } else {
            None
        }),
{
    if let Some(refusal) = loopback_only(peer) {
        return (refusal, None);
    }
    if check.is_ok() {
        let body = Json::pair("ok", Json::Bool(true), "auth", Json::string("ready"));
        (Reply { status: 200, body }, Some(true))
    } else {
        (
            error_response(503, "codex_auth_unavailable", "Codex authentication is not ready"),
            Some(false),
        )
    }
}

/// The reply of the status endpoint.
pub open spec fn status_reply(snapshot: SnapshotView, quota: QuotaView) -> ReplyView {
    ReplyView {
        status: 200,
        body: JsonView::Object(
            Map::empty().insert("service"@, JsonView::Text(SERVICE@)).insert(
                "version"@,
                JsonView::Text("0.1.2"@),
            ).insert("bridge"@, snapshot_document(snapshot)).insert(
                "codex_subscription"@,
                quota_document(quota),
            ),
        ),
    }
}

/// The status endpoint.
pub fn status(peer: &HostAddress, snapshot: &StatusSnapshot, quota: &QuotaSnapshot) -> (reply:
    Reply)
    requires
        snapshot_fits(snapshot@),
    ensures
        reply@ == guarded(*peer, status_reply(snapshot@, quota@)),
{
    if let Some(refusal) = loopback_only(peer) {
        return refusal;
    }
    let mut body = JsonObject::new();
    body.insert("service", Json::string(SERVICE));
    body.insert("version", Json::string(BRIDGE_VERSION));
    body.insert("bridge", snapshot_json(snapshot));
    body.insert("codex_subscription", quota_json(quota));
    Reply { status: 200, body: Json::Object(body) }
}

/// A model in the list of models.
pub open spec fn model_document(id: Seq<char>) -> JsonView {
    pair("id"@, JsonView::Text(id), "object"@, JsonView::Text("model"@))
}

fn model_json(id: &str) -> (json: Json)
    ensures
        json@ == model_document(id@),
{
    Json::pair("id", Json::string(id), "object", Json::string("model"))
}

/// The list of models.
pub open spec fn models_document() -> JsonView {
    pair(
        "object"@,
        JsonView::Text("list"@),
        "data"@,
        JsonView::List(seq![model_document("gpt-5.6-sol"@), model_document("gpt-5.6-terra"@)]),
    )
}

/// The models endpoint.
pub fn models(peer: &HostAddress) -> (reply: Reply)
    ensures
        reply@ == guarded(*peer, ReplyView { status: 200, body: models_document() }),
{
    if let Some(refusal) = loopback_only(peer) {
        return refusal;
    }
    let mut data: Vec<Json> = Vec::new();
    data.push(model_json("gpt-5.6-sol"));
    data.push(model_json("gpt-5.6-terra"));
    assert(crate::json::list_view(data@) =~= seq![
        model_document("gpt-5.6-sol"@),
        model_document("gpt-5.6-terra"@),
    ]);
    let body = Json::pair("object", Json::string("list"), "data", Json::List(data));
    Reply { status: 200, body }
}

/// The refusal of a body that is too large.
pub open spec fn too_large_reply() -> ReplyView {
    error_reply(413, "request_too_large"@, "The request exceeds the bridge body limit"@)
}

/// What the length that a request announces is refused with.
pub open spec fn length_refusal(headers: Seq<FieldView>, limit: usize) -> Option<ReplyView> {
    match field_of(headers, "content-length"@) {
        None => None,
        Some(field) => match field.value {
            Some(text) => if !fits(text, usize::MAX as nat) {
                Some(
                    error_reply(400, "invalid_content_length"@, "Content-Length must be valid"@),
                )
            } else if integer_value(text)->Some_0 > limit {
                Some(too_large_reply())
            } else {
                None
            },
            None => Some(
                error_reply(400, "invalid_content_length"@, "Content-Length must be valid"@),
            ),
        },
    }
}

/// Checks the length that a request announces.
pub fn validate_content_length(headers: &Vec<HeaderField>, limit: usize) -> (refusal: Option<
    Reply,
>)
    ensures
        optional_reply(refusal) == length_refusal(fields_view(headers@), limit),
{
    let field = match header(headers, "content-length") {
        Some(field) => field,
        None => return None,
    };
    let parsed: Option<usize> = match &field.value {
        Some(text) => match parse_usize(text.as_str()) {
            Ok(length) => Some(length),
            Err(_) => None,
        },
        None => None,
    };
    match parsed {
        None => Some(
            error_response(400, "invalid_content_length", "Content-Length must be valid"),
        ),
        Some(length) => if length > limit {
            Some(
                error_response(413, "request_too_large", "The request exceeds the bridge body limit"),
            )
        } else {
            None
        },
    }
}

/// Why the upstream gave no response.
#[derive(Clone, Copy, Debug, PartialEq, Eq, Structural)]
pub enum UpstreamError {
    Auth,
    Status(u16),
    Timeout,
    Transport,
}

impl UpstreamError {
    /// Why a request could not be sent.
    pub fn of_send(timed_out: bool) -> (error: UpstreamError)
        ensures
            error == (if timed_out {
                UpstreamError::Timeout
            } else {
                UpstreamError::Transport
            }),
    {
        if timed_out {
            UpstreamError::Timeout
        } else {
            UpstreamError::Transport
        }
    }

    /// What the client is told.
    pub open spec fn reply(self) -> ReplyView {
        match self {
            UpstreamError::Auth => error_reply(
                502,
                "codex_auth_rejected"@,
                "Codex rejected the local session"@,
            ),
            UpstreamError::Status(status) => if status == 429 {
                error_reply(
                    429,
                    "codex_rate_limited"@,
                    "Codex subscription capacity is temporarily unavailable"@,
                )
            } else if 400 <= status < 500 {
                error_reply(
                    422,
                    "codex_request_rejected"@,
                    "Codex rejected the adapted request"@,
                )
            } else {
                error_reply(
                    502,
                    "codex_upstream_unavailable"@,
                    "Codex is temporarily unavailable"@,
                )
            },
            UpstreamError::Transport => error_reply(
                502,
                "codex_upstream_unavailable"@,
                "Codex is temporarily unavailable"@,
            ),
            UpstreamError::Timeout => error_reply(
                504,
                "codex_timeout"@,
                "Codex did not respond in time"@,
            ),
        }
    }

    /// What the client is told: the status, the code and the message.
    pub fn client_error(&self) -> (r: (u16, &'static str, &'static str))
        ensures
            error_reply(r.0, r.1@, r.2@) == self.reply(),
    {
        match *self {
            UpstreamError::Auth => (
                502,
                "codex_auth_rejected",
                "Codex rejected the local session",
            ),
            UpstreamError::Status(status) => if status == 429 {
                (
                    429,
                    "codex_rate_limited",
                    "Codex subscription capacity is temporarily unavailable",
                )
            } else if 400 <= status && status < 500 {
                (422, "codex_request_rejected", "Codex rejected the adapted request")
            } else {
                (502, "codex_upstream_unavailable", "Codex is temporarily unavailable")
            },
            UpstreamError::Transport => (
                502,
                "codex_upstream_unavailable",
                "Codex is temporarily unavailable",
            ),
            UpstreamError::Timeout => (504, "codex_timeout", "Codex did not respond in time"),
        }
    }
}

/// The text, or the default where there is none.
pub open spec fn text_or(text: Option<Seq<char>>, default: Seq<char>) -> Seq<char> {
    match text {
        Some(text) => text,
        None => default,
    }
}

/// The model of a request.
pub open spec fn model_of(request: JsonView) -> Seq<char> {
    text_or(request.text_field("model"@), "unknown"@)
}

/// The reasoning effort of a request.
pub open spec fn effort_of(request: JsonView) -> Seq<char> {
    text_or(text_of(nested_field(request, "reasoning"@, "effort"@)), "medium"@)
}

/// The model and the reasoning effort of a request.
pub fn request_metadata(request: &Json) -> (r: (String, String))
    ensures
        r.0@ == model_of(request@),
        r.1@ == effort_of(request@),
{
    let model: &str = match request.text_field("model") {
        Some(model) => model,
        None => "unknown",
    };
    let effort: &str = match nested(request, "reasoning", "effort") {
        Some(value) => match value.as_str() {
            Some(effort) => effort,
            None => "medium",
        },
        None => "medium",
    };
    (model.to_owned(), effort.to_owned())
}

/// What the client is told of a request that could not be adapted.
pub open spec fn protocol_message(error: ProtocolErrorView) -> Seq<char> {
    match error {
        ProtocolErrorView::UnsupportedField(field) => {
            "The local bridge does not support request field `"@ + field + "`"@
        },
        other => other.message(),
    }
}

/// What the client is told of a request that could not be adapted.
pub fn protocol_error_message(error: ProtocolError) -> (text: String)
    ensures
        text@ == protocol_message(error@),
{
    match error {
        ProtocolError::UnsupportedField(field) => concat3(
            "The local bridge does not support request field `",
            field.as_str(),
            "`",
        ),
        other => other.message(),
    }
}

} // verus!
