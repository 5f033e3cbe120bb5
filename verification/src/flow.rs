//! The way of a request for a response: from the client, by way of the adapter,
//! a free stream and a session, to the upstream.
use vstd::prelude::*;

use crate::auth::{form_view, session_result, AuthError, Session, SessionView};
use crate::codec::{json_of_bytes, parse_bytes};
use crate::config::HostAddress;
use crate::headers::{fields_view, FieldView, HeaderField};
use crate::json::{optional_view, Json, JsonView};
use crate::protocol::{adapt, adapt_request};
use crate::server::{effort_of, error_reply, error_response, length_refusal, loopback_only};
use crate::server::{model_of, protocol_error_message, protocol_message, request_metadata};
use crate::server::{stranger_reply, too_large_reply, validate_content_length};
use crate::server::{Reply, ReplyView, UpstreamError};
use crate::text::{is_prefix, optional_text, starts_with};

verus! {

/// A request that has been adapted.
#[derive(Debug, PartialEq, Eq)]
pub struct Call {
    pub adapted: Json,
    pub model: String,
    pub effort: String,
}

/// What an adapted request holds.
pub struct CallView {
    pub adapted: JsonView,
    pub model: Seq<char>,
    pub effort: Seq<char>,
}

impl View for Call {
    type V = CallView;

    open spec fn view(&self) -> CallView {
        CallView { adapted: self.adapted@, model: self.model@, effort: self.effort@ }
    }
}

/// The start of a response of the upstream.
#[derive(Debug, PartialEq, Eq)]
pub struct ResponseHead {
    pub status: u16,
    /// The type of the content; none, where it is not named or not readable.
    pub content_type: Option<String>,
}

/// What the start of a response holds.
pub struct HeadView {
    pub status: u16,
    pub content_type: Option<Seq<char>>,
}

impl View for ResponseHead {
    type V = HeadView;

    open spec fn view(&self) -> HeadView {
        HeadView { status: self.status, content_type: optional_text(self.content_type) }
    }
}

/// Where a request stands, and so what is to be done next.
#[derive(Debug, PartialEq, Eq)]
pub enum RequestFlow {
    /// Reply; the request does not count as one that has ended.
    Refused(Reply),
    /// Read the body, up to the limit.
    ReadBody,
    /// Reply; the request has failed, with what is known of it.
    Failed { model: String, effort: String, reply: Reply },
    /// Ask for a free stream.
    Acquire(Call),
    /// Get a session; from here on a stream is taken.
    Authenticate(Call),
    /// Send the request.
    Send { call: Call, session: Session, retried: bool },
    /// Refresh the session, the token of which was refused.
    Refresh { call: Call, failed_token: String },
    /// Pass the response on.
    Stream(Call),
}

/// What the place of a request holds.
pub enum FlowView {
    Refused(ReplyView),
    ReadBody,
    Failed { model: Seq<char>, effort: Seq<char>, reply: ReplyView },
    Acquire(CallView),
    Authenticate(CallView),
    Send { call: CallView, session: SessionView, retried: bool },
    Refresh { call: CallView, failed_token: Seq<char> },
    Stream(CallView),
}

impl View for RequestFlow {
    type V = FlowView;

    open spec fn view(&self) -> FlowView {
        match self {
            RequestFlow::Refused(reply) => FlowView::Refused(reply@),
            RequestFlow::ReadBody => FlowView::ReadBody,
            RequestFlow::Failed { model, effort, reply } => FlowView::Failed {
                model: model@,
                effort: effort@,
                reply: reply@,
            },
            RequestFlow::Acquire(call) => FlowView::Acquire(call@),
            RequestFlow::Authenticate(call) => FlowView::Authenticate(call@),
            RequestFlow::Send { call, session, retried } => FlowView::Send {
                call: call@,
                session: session@,
                retried: *retried,
            },
            RequestFlow::Refresh { call, failed_token } => FlowView::Refresh {
                call: call@,
                failed_token: failed_token@,
            },
            RequestFlow::Stream(call) => FlowView::Stream(call@),
        }
    }
}

/// A request that has failed before anything of it is known.
pub open spec fn failed_unread(reply: ReplyView) -> FlowView {
    FlowView::Failed { model: "unknown"@, effort: "unknown"@, reply }
}

/// A call that has failed.
pub open spec fn failed_call(call: CallView, reply: ReplyView) -> FlowView {
    FlowView::Failed { model: call.model, effort: call.effort, reply }
}

/// How a request is received: from the machine itself, and not too long.
pub open spec fn received(peer: HostAddress, headers: Seq<FieldView>, limit: usize) -> FlowView {
    if !peer.loops_back() {
        FlowView::Refused(stranger_reply())
    } else {
        match length_refusal(headers, limit) {
            Some(reply) => FlowView::Refused(reply),
            None => FlowView::ReadBody,
        }
    }
}

/// What becomes of a request whose body has been read as JSON.
pub open spec fn adapted_call(request: JsonView) -> FlowView {
    match adapt(request) {
        Err(error) => FlowView::Failed {
            model: "unknown"@,
            effort: "medium"@,
            reply: error_reply(422, "unsupported_request"@, protocol_message(error)),
        },
        Ok(adapted) => FlowView::Acquire(
            CallView { adapted, model: model_of(adapted), effort: effort_of(adapted) },
        ),
    }
}

/// What becomes of a request once its body has been read; none stands for a
/// body that is over the limit or could not be read.
pub open spec fn after_body(body: Option<Seq<u8>>) -> FlowView {
    match body {
        None => failed_unread(too_large_reply()),
        Some(bytes) => after_json(json_of_bytes(bytes)),
    }
}

/// What becomes of a request once its body has been parsed; none stands for a
/// body that is not JSON.
pub open spec fn after_json(request: Option<JsonView>) -> FlowView {
    match request {
        None => failed_unread(
            error_reply(400, "invalid_json"@, "The request body must be valid JSON"@),
        ),
        Some(request) => adapted_call(request),
    }
}

/// What becomes of a call once a stream was asked for.
pub open spec fn after_permit(call: CallView, granted: bool) -> FlowView {
    if granted {
        FlowView::Authenticate(call)
    } else {
        failed_call(
            call,
            error_reply(429, "bridge_busy"@, "The local Codex bridge is at its stream limit"@),
        )
    }
}

/// What becomes of a call once a session was asked for.
pub open spec fn after_session(call: CallView, session: Result<SessionView, AuthError>) -> FlowView {
    match session {
        Ok(session) => FlowView::Send { call, session, retried: false },
        Err(_) => failed_call(
            call,
            error_reply(
                503,
                "codex_auth_unavailable"@,
                "Codex authentication is unavailable; run `codex login`"@,
            ),
        ),
    }
}

/// Whether the content of a response can be an event stream: it says so, or it
/// does not say what it is.
pub open spec fn may_be_stream(content_type: Option<Seq<char>>) -> bool {
    match content_type {
        Some(text) => text.len() == 0 || is_prefix("text/event-stream"@, text),
        None => true,
    }
}

/// What becomes of a call once the upstream has answered. A session that was
/// refused is refreshed once.
pub open spec fn after_response(
    call: CallView,
    session: SessionView,
    retried: bool,
    response: Result<HeadView, UpstreamError>,
) -> FlowView {
    match response {
        Err(error) => failed_call(call, error.reply()),
        Ok(head) => if head.status == 401 && !retried {
            FlowView::Refresh { call, failed_token: session.access_token }
        } else if !(200 <= head.status < 300) {
            failed_call(call, UpstreamError::Status(head.status).reply())
        } else if !may_be_stream(head.content_type) {
            failed_call(
                call,
                error_reply(
                    502,
                    "invalid_upstream_stream"@,
                    "Codex returned an unexpected response format"@,
                ),
            )
        } else {
            FlowView::Stream(call)
        },
    }
}

/// What becomes of a call once its session has been refreshed.
pub open spec fn after_refresh(call: CallView, session: Result<SessionView, AuthError>) -> FlowView {
    match session {
        Ok(session) => FlowView::Send { call, session, retried: true },
        Err(_) => failed_call(call, UpstreamError::Auth.reply()),
    }
}

fn fail_unread(reply: Reply) -> (flow: RequestFlow)
    ensures
        flow@ == failed_unread(reply@),
{
    RequestFlow::Failed { model: "unknown".to_owned(), effort: "unknown".to_owned(), reply }
}

fn fail_call(call: Call, reply: Reply) -> (flow: RequestFlow)
    ensures
        flow@ == failed_call(call@, reply@),
{
    RequestFlow::Failed { model: call.model, effort: call.effort, reply }
}

fn fail_upstream(call: Call, error: UpstreamError) -> (flow: RequestFlow)
    ensures
        flow@ == failed_call(call@, error.reply()),
{
    let (status, code, message) = error.client_error();
    fail_call(call, error_response(status, code, message))
}

/// What an optional byte string holds.
pub open spec fn optional_slice(bytes: Option<&[u8]>) -> Option<Seq<u8>> {
    match bytes {
        Some(bytes) => Some(bytes@),
        None => None,
    }
}

/// What the start of a response, or the error in its place, holds.
pub open spec fn response_result(r: Result<ResponseHead, UpstreamError>) -> Result<
    HeadView,
    UpstreamError,
> {
    match r {
        Ok(head) => Ok(head@),
        Err(error) => Err(error),
    }
}

impl RequestFlow {
    /// Receives a request.
    pub fn receive(peer: &HostAddress, headers: &Vec<HeaderField>, limit: usize) -> (flow:
        RequestFlow)
        ensures
            flow@ == received(*peer, fields_view(headers@), limit),
    {
        if let Some(reply) = loopback_only(peer) {
            return RequestFlow::Refused(reply);
        }
        match validate_content_length(headers, limit) {
            Some(reply) => RequestFlow::Refused(reply),
            None => RequestFlow::ReadBody,
        }
    }

    /// Takes in the body; none stands for a body that is over the limit or could
    /// not be read.
    pub fn with_body(self, body: Option<&[u8]>) -> (flow: RequestFlow)
        ensures
            flow@ == (match self@ {
                FlowView::ReadBody => after_body(optional_slice(body)),
                other => other,
            }),
    {
        match self {
            RequestFlow::ReadBody => match body {
                None => fail_unread(
                    error_response(
                        413,
                        "request_too_large",
                        "The request exceeds the bridge body limit",
                    ),
                ),
                Some(bytes) => RequestFlow::ReadBody.with_json(parse_bytes(bytes)),
            },
            other => other,
        }
    }

    /// Takes in the body as JSON; none stands for a body that is not JSON.
    pub fn with_json(self, request: Option<Json>) -> (flow: RequestFlow)
        ensures
            flow@ == (match self@ {
                FlowView::ReadBody => after_json(optional_view(request)),
                other => other,
            }),
    {
        match self {
            RequestFlow::ReadBody => {},
            other => return other,
        }
        let request = match request {
            None => return fail_unread(
                error_response(400, "invalid_json", "The request body must be valid JSON"),
            ),
            Some(request) => request,
        };
        match adapt_request(request) {
            Err(error) => {
                let message = protocol_error_message(error);
                RequestFlow::Failed {
                    model: "unknown".to_owned(),
                    effort: "medium".to_owned(),
                    reply: error_response(422, "unsupported_request", message.as_str()),
                }
            },
            Ok(adapted) => {
                let (model, effort) = request_metadata(&adapted);
                RequestFlow::Acquire(Call { adapted, model, effort })
            },
        }
    }

    /// Takes in whether there is a free stream.
    pub fn with_permit(self, granted: bool) -> (flow: RequestFlow)
        ensures
            flow@ == (match self@ {
                FlowView::Acquire(call) => after_permit(call, granted),
                other => other,
            }),
    {
        match self {
            RequestFlow::Acquire(call) => if granted {
                RequestFlow::Authenticate(call)
            } else {
                fail_call(
                    call,
                    error_response(
                        429,
                        "bridge_busy",
                        "The local Codex bridge is at its stream limit",
                    ),
                )
            },
            other => other,
        }
    }

    /// Takes in the session.
    pub fn with_session(self, session: Result<Session, AuthError>) -> (flow: RequestFlow)
        ensures
            flow@ == (match self@ {
                FlowView::Authenticate(call) => after_session(call, session_result(session)),
                other => other,
            }),
    {
        match self {
            RequestFlow::Authenticate(call) => match session {
                Ok(session) => RequestFlow::Send { call, session, retried: false },
                Err(_) => fail_call(
                    call,
                    error_response(
                        503,
                        "codex_auth_unavailable",
                        "Codex authentication is unavailable; run `codex login`",
                    ),
                ),
            },
            other => other,
        }
    }

    /// Takes in the start of the response.
    pub fn with_response(self, response: Result<ResponseHead, UpstreamError>) -> (flow: RequestFlow)
        ensures
            flow@ == (match self@ {
                FlowView::Send { call, session, retried } => after_response(
                    call,
                    session,
                    retried,
                    response_result(response),
                ),
                other => other,
            }),
    {
        match self {
            RequestFlow::Send { call, session, retried } => {
                let head = match response {
                    Ok(head) => head,
                    Err(error) => return fail_upstream(call, error),
                };
                if head.status == 401 && !retried {
                    return RequestFlow::Refresh { call, failed_token: session.access_token };
                }
                if !(200 <= head.status && head.status < 300) {
                    return fail_upstream(call, UpstreamError::Status(head.status));
                }
                let streams = match &head.content_type {
                    Some(text) => text.as_str().unicode_len() == 0 || starts_with(
                        text.as_str(),
                        "text/event-stream",
                    ),
                    None => true,
                };
                if streams {
                    RequestFlow::Stream(call)
                } else {
                    fail_call(
                        call,
                        error_response(
                            502,
                            "invalid_upstream_stream",
                            "Codex returned an unexpected response format",
                        ),
                    )
                }
            },
            other => other,
        }
    }

    /// Takes in the session that a refresh gave.
    pub fn with_refresh(self, session: Result<Session, AuthError>) -> (flow: RequestFlow)
        ensures
            flow@ == (match self@ {
                FlowView::Refresh { call, failed_token: _ } => after_refresh(
                    call,
                    session_result(session),
                ),
                other => other,
            }),
    {
        match self {
            RequestFlow::Refresh { call, failed_token: _ } => match session {
                Ok(session) => RequestFlow::Send { call, session, retried: true },
                Err(_) => fail_upstream(call, UpstreamError::Auth),
            },
            other => other,
        }
    }
}

/// The headers of a request to the upstream, besides the token.
pub fn upstream_headers(session: &Session) -> (fields: Vec<(String, String)>)
    ensures
        form_view(fields@) == seq![
            ("chatgpt-account-id"@, session@.account_id),
            ("openai-beta"@, "responses=experimental"@),
            ("originator"@, "grok-codex-bridge"@),
            ("accept"@, "text/event-stream"@),
        ],
{
    let mut fields: Vec<(String, String)> = Vec::new();
    fields.push(("chatgpt-account-id".to_owned(), session.account_id.clone()));
    fields.push(("openai-beta".to_owned(), "responses=experimental".to_owned()));
    fields.push(("originator".to_owned(), "grok-codex-bridge".to_owned()));
    fields.push(("accept".to_owned(), "text/event-stream".to_owned()));
    assert(form_view(fields@) =~= seq![
        ("chatgpt-account-id"@, session@.account_id),
        ("openai-beta"@, "responses=experimental"@),
        ("originator"@, "grok-codex-bridge"@),
        ("accept"@, "text/event-stream"@),
    ]);
    fields
}

/// The headers of a response to the client.
pub fn response_headers(request_id: &str) -> (fields: Vec<(String, String)>)
    ensures
        form_view(fields@) == seq![
            ("content-type"@, "text/event-stream; charset=utf-8"@),
            ("cache-control"@, "no-cache, no-transform"@),
            ("x-accel-buffering"@, "no"@),
            ("x-request-id"@, request_id@),
        ],
{
    let mut fields: Vec<(String, String)> = Vec::new();
    fields.push(("content-type".to_owned(), "text/event-stream; charset=utf-8".to_owned()));
    fields.push(("cache-control".to_owned(), "no-cache, no-transform".to_owned()));
    fields.push(("x-accel-buffering".to_owned(), "no".to_owned()));
    fields.push(("x-request-id".to_owned(), request_id.to_owned()));
    assert(form_view(fields@) =~= seq![
        ("content-type"@, "text/event-stream; charset=utf-8"@),
        ("cache-control"@, "no-cache, no-transform"@),
        ("x-accel-buffering"@, "no"@),
        ("x-request-id"@, request_id@),
    ]);
    fields
}

/// A peer that is not the machine itself is refused, whatever it sends.
pub proof fn lemma_strangers_are_refused(
    peer: HostAddress,
    headers: Seq<FieldView>,
    limit: usize,
)
    requires
        !peer.loops_back(),
    ensures
        received(peer, headers, limit) == FlowView::Refused(stranger_reply()),
{
}

/// What is sent to the upstream is an adapted request: no body becomes a call
/// but by the adapter.
pub proof fn lemma_calls_are_adapted(request: Option<JsonView>)
    ensures
        match after_json(request) {
            FlowView::Acquire(call) => request matches Some(json) && adapt(json) == Ok::<
                JsonView,
                crate::protocol::ProtocolErrorView,
            >(call.adapted),
            FlowView::Failed { model: _, effort: _, reply } => reply.status == 400 || reply.status
                == 422,
            _ => false,
        },
{
}

/// A refused session is refreshed once at most: whatever the upstream answers to
/// the second attempt, the call is passed on or has failed.
pub proof fn lemma_one_refresh_at_most(
    call: CallView,
    refreshed: Result<SessionView, AuthError>,
    response: Result<HeadView, UpstreamError>,
)
    ensures
        match after_refresh(call, refreshed) {
            FlowView::Send { call: again, session, retried } => again == call && match after_response(
                again,
                session,
                retried,
                response,
            ) {
                FlowView::Stream(streamed) => streamed == call,
                FlowView::Failed { model, effort, reply: _ } => model == call.model && effort
                    == call.effort,
                _ => false,
            },
            FlowView::Failed { model, effort, reply: _ } => refreshed is Err && model == call.model
                && effort == call.effort,
            _ => false,
        },
{
}

/// A response is passed on only where the upstream reports success and the
/// content may be an event stream.
pub proof fn lemma_only_streams_are_passed_on(
    call: CallView,
    session: SessionView,
    retried: bool,
    response: Result<HeadView, UpstreamError>,
)
    ensures
        after_response(call, session, retried, response) is Stream <==> (response matches Ok(head)
            && 200 <= head.status && head.status < 300 && may_be_stream(head.content_type)),
{
}

} // verus!
