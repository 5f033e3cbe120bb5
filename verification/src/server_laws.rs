//! What the bridge replies, and how a request goes through it: laws on replies and on
//! the steps of a request.
use vstd::prelude::*;

use crate::auth::{AuthError, SessionView};
use crate::codec::json_of_bytes;
use crate::config::{integer_value, HostAddress};
use crate::flow::{after_body, after_json, after_permit, after_refresh, after_response};
use crate::flow::{after_session, received, CallView, FlowView, HeadView};
use crate::headers::{field_of, FieldView};
use crate::json::{lookup, JsonView};
use crate::protocol::{adapt, ProtocolErrorView};
use crate::report_laws::lemma_the_first_header_counts;
use crate::server::{effort_of, error_reply, guarded, health_reply, length_refusal, model_of};
use crate::server::{models_document, protocol_message, ready_reply, ReplyView};
use crate::server::UpstreamError;
use crate::text::is_prefix;

verus! {

/// The words of the replies differ from each other.
proof fn lemma_words_of_replies()
    ensures
        "id"@.len() == 2,
        "ok"@.len() == 2,
        "auth"@.len() == 4,
        "code"@.len() == 4,
        "data"@.len() == 4,
        "error"@.len() == 5,
        "object"@.len() == 6,
        "message"@.len() == 7,
        "service"@.len() == 7,
        "version"@.len() == 7,
        "id"@ != "ok"@,
        "auth"@ != "code"@,
        "auth"@ != "data"@,
        "code"@ != "data"@,
        "message"@ != "service"@,
        "message"@ != "version"@,
        "service"@ != "version"@,
{
    reveal_strlit("id");
    reveal_strlit("ok");
    reveal_strlit("auth");
    reveal_strlit("code");
    reveal_strlit("data");
    reveal_strlit("error");
    reveal_strlit("object");
    reveal_strlit("message");
    reveal_strlit("service");
    reveal_strlit("version");
    assert("id"@.len() == 2);
    assert("ok"@.len() == 2);
    assert("auth"@.len() == 4);
    assert("code"@.len() == 4);
    assert("data"@.len() == 4);
    assert("error"@.len() == 5);
    assert("object"@.len() == 6);
    assert("message"@.len() == 7);
    assert("service"@.len() == 7);
    assert("version"@.len() == 7);
    assert("id"@[0] == 'i' && "ok"@[0] == 'o');
    assert("auth"@[0] == 'a' && "code"@[0] == 'c');
    assert("auth"@[0] == 'a' && "data"@[0] == 'd');
    assert("code"@[0] == 'c' && "data"@[0] == 'd');
    assert("message"@[0] == 'm' && "service"@[0] == 's');
    assert("message"@[0] == 'm' && "version"@[0] == 'v');
    assert("service"@[0] == 's' && "version"@[0] == 'v');
}

/// Whether an object has exactly two fields, and these.
pub open spec fn holds_two(
    json: JsonView,
    first: Seq<char>,
    one: JsonView,
    second: Seq<char>,
    other: JsonView,
) -> bool {
    json matches JsonView::Object(fields) && {
        &&& lookup(fields, first) == Some(one)
        &&& lookup(fields, second) == Some(other)
        &&& forall|key: Seq<char>|
            key != first && key != second ==> #[trigger] lookup(fields, key) is None
    }
}

/// Whether a reply has a status and tells of an error, by a code and a message and
/// nothing else.
pub open spec fn tells(
    reply: ReplyView,
    status: u16,
    code: Seq<char>,
    message: Seq<char>,
) -> bool {
    reply.status == status && (reply.body matches JsonView::Object(fields) && {
        &&& forall|key: Seq<char>| key != "error"@ ==> #[trigger] lookup(fields, key) is None
        &&& lookup(fields, "error"@) matches Some(error) && holds_two(
            error,
            "code"@,
            JsonView::Text(code),
            "message"@,
            JsonView::Text(message),
        )
    })
}

/// An error is told under `error`, by its code and its message.
pub proof fn lemma_how_an_error_is_told(status: u16, code: Seq<char>, message: Seq<char>)
    ensures
        tells(error_reply(status, code, message), status, code, message),
{
    lemma_words_of_replies();
}

/// Only the machine itself is answered: an address of version four that begins with one
/// hundred and twenty-seven, or the loopback address of version six.
pub proof fn lemma_who_is_answered(peer: HostAddress, reply: ReplyView)
    ensures
        peer.loops_back() ==> guarded(peer, reply) == reply,
        !peer.loops_back() ==> tells(
            guarded(peer, reply),
            403,
            "loopback_only"@,
            "The Codex bridge only accepts loopback connections"@,
        ),
        peer matches HostAddress::V4 { octets } ==> (peer.loops_back() <==> octets[0] == 127),
        peer matches HostAddress::V6 { segments } ==> (peer.loops_back() <==> (segments[7] == 1
            && forall|i: int| 0 <= i < 7 ==> #[trigger] segments[i] == 0)),
{
    lemma_words_of_replies();
    if let HostAddress::V6 { segments } = peer {
        if peer.loops_back() {
            assert forall|i: int| 0 <= i < 7 implies #[trigger] segments[i] == 0 by {
                assert(segments@[i] == 0);
            }
            assert(segments@[7] == 1);
        } else if segments[7] == 1 && forall|i: int| 0 <= i < 7 ==> #[trigger] segments[i] == 0 {
            assert(segments@ =~= seq![0u16, 0u16, 0u16, 0u16, 0u16, 0u16, 0u16, 1u16]);
        }
    }
}

/// What the bridge says of its health: that all is well, its name and its version.
pub proof fn lemma_what_health_says()
    ensures
        health_reply().status == 200,
        health_reply().body matches JsonView::Object(fields) && {
            &&& lookup(fields, "ok"@) == Some(JsonView::Bool(true))
            &&& lookup(fields, "service"@) == Some(JsonView::Text("codex-for-grok"@))
            &&& lookup(fields, "version"@) == Some(JsonView::Text("0.1.2"@))
            &&& forall|key: Seq<char>|
                key != "ok"@ && key != "service"@ && key != "version"@ ==> #[trigger] lookup(
                    fields,
                    key,
                ) is None
        },
{
    lemma_words_of_replies();
}

/// What the bridge says of its session: that it is ready, or that it is not.
pub proof fn lemma_what_readiness_says(ready: bool)
    ensures
        ready ==> ready_reply(ready).status == 200 && holds_two(
            ready_reply(ready).body,
            "ok"@,
            JsonView::Bool(true),
            "auth"@,
            JsonView::Text("ready"@),
        ),
        !ready ==> tells(
            ready_reply(ready),
            503,
            "codex_auth_unavailable"@,
            "Codex authentication is not ready"@,
        ),
{
    lemma_words_of_replies();
}

/// The bridge offers the two models, the first one first.
pub proof fn lemma_which_models_are_offered()
    ensures
        models_document() matches JsonView::Object(fields) && {
            &&& lookup(fields, "object"@) == Some(JsonView::Text("list"@))
            &&& forall|key: Seq<char>|
                key != "object"@ && key != "data"@ ==> #[trigger] lookup(fields, key) is None
            &&& lookup(fields, "data"@) matches Some(JsonView::List(models)) && {
                &&& models.len() == 2
                &&& holds_two(
                    models[0],
                    "id"@,
                    JsonView::Text("gpt-5.6-sol"@),
                    "object"@,
                    JsonView::Text("model"@),
                )
                &&& holds_two(
                    models[1],
                    "id"@,
                    JsonView::Text("gpt-5.6-terra"@),
                    "object"@,
                    JsonView::Text("model"@),
                )
            }
        },
{
    lemma_words_of_replies();
}

/// A request is turned away by its length if it states one that is no number or is over
/// the limit; without a stated length it is not.
pub proof fn lemma_which_lengths_are_refused(headers: Seq<FieldView>, limit: usize)
    ensures
        (forall|i: int| 0 <= i < headers.len() ==> (#[trigger] headers[i]).name != "content-length"@)
            ==> length_refusal(headers, limit) is None,
        forall|at: int|
            0 <= at < headers.len() && (#[trigger] headers[at]).name == "content-length"@ && (forall|
                i: int,
            |
                0 <= i < at ==> (#[trigger] headers[i]).name != "content-length"@) ==> {
                let refusal = length_refusal(headers, limit);
                match headers[at].value {
                    Some(text) => match integer_value(text) {
                        Some(length) => if length > usize::MAX {
                            refusal matches Some(reply) && tells(
                                reply,
                                400,
                                "invalid_content_length"@,
                                "Content-Length must be valid"@,
                            )
                        } else if length > limit {
                            refusal matches Some(reply) && tells(
                                reply,
                                413,
                                "request_too_large"@,
                                "The request exceeds the bridge body limit"@,
                            )
                        } else {
                            refusal is None
                        },
                        None => refusal matches Some(reply) && tells(
                            reply,
                            400,
                            "invalid_content_length"@,
                            "Content-Length must be valid"@,
                        ),
                    },
                    None => refusal matches Some(reply) && tells(
                        reply,
                        400,
                        "invalid_content_length"@,
                        "Content-Length must be valid"@,
                    ),
                }
            },
{
    lemma_words_of_replies();
    lemma_the_first_header_counts(headers, "content-length"@);
    assert forall|at: int|
        0 <= at < headers.len() && (#[trigger] headers[at]).name == "content-length"@ && (forall|
            i: int,
        |
            0 <= i < at ==> (#[trigger] headers[i]).name != "content-length"@) implies field_of(
        headers,
        "content-length"@,
    ) == Some(headers[at]) by {
        let field = field_of(headers, "content-length"@)->Some_0;
        let first = choose|first: int|
            0 <= first < headers.len() && #[trigger] headers[first] == field && field.name
                == "content-length"@ && forall|i: int|
                0 <= i < first ==> (#[trigger] headers[i]).name != "content-length"@;
        assert(first == at) by {
            if first < at {
                assert(headers[first].name == "content-length"@);
            } else if at < first {
                assert(headers[at].name == "content-length"@);
            }
        }
    }
}

/// What the client is told of a failure of Codex: a limit as a limit, another refusal as
/// a refusal of the request, a late answer as late, a refused session as such, and all
/// else as Codex not being there.
pub proof fn lemma_what_is_told_of_codex(status: u16)
    ensures
        tells(
            UpstreamError::Auth.reply(),
            502,
            "codex_auth_rejected"@,
            "Codex rejected the local session"@,
        ),
        tells(
            UpstreamError::Timeout.reply(),
            504,
            "codex_timeout"@,
            "Codex did not respond in time"@,
        ),
        tells(
            UpstreamError::Transport.reply(),
            502,
            "codex_upstream_unavailable"@,
            "Codex is temporarily unavailable"@,
        ),
        status == 429 ==> tells(
            UpstreamError::Status(status).reply(),
            429,
            "codex_rate_limited"@,
            "Codex subscription capacity is temporarily unavailable"@,
        ),
        400 <= status < 500 && status != 429 ==> tells(
            UpstreamError::Status(status).reply(),
            422,
            "codex_request_rejected"@,
            "Codex rejected the adapted request"@,
        ),
        !(400 <= status < 500) ==> tells(
            UpstreamError::Status(status).reply(),
            502,
            "codex_upstream_unavailable"@,
            "Codex is temporarily unavailable"@,
        ),
{
    lemma_words_of_replies();
}

/// What a request is reported under: its model and the effort of its reasoning, where
/// they are texts.
pub proof fn lemma_what_a_request_is_reported_under(request: JsonView)
    ensures
        match request {
            JsonView::Object(fields) => {
                &&& match lookup(fields, "model"@) {
                    Some(JsonView::Text(model)) => model_of(request) == model,
                    _ => model_of(request) == "unknown"@,
                }
                &&& match lookup(fields, "reasoning"@) {
                    Some(JsonView::Object(reasoning)) => match lookup(reasoning, "effort"@) {
                        Some(JsonView::Text(effort)) => effort_of(request) == effort,
                        _ => effort_of(request) == "medium"@,
                    },
                    _ => effort_of(request) == "medium"@,
                }
            },
            _ => model_of(request) == "unknown"@ && effort_of(request) == "medium"@,
        },
{
}

/// What is said of a request that is refused.
pub proof fn lemma_what_is_said_of_a_refusal(name: Seq<char>)
    ensures
        protocol_message(ProtocolErrorView::RootMustBeObject)
            == "request body must be a JSON object"@,
        protocol_message(ProtocolErrorView::MissingModel)
            == "request must include a non-empty model"@,
        protocol_message(ProtocolErrorView::UnsupportedModel(name)) == "unsupported model: "@ + name
            + "; only gpt-5.6-sol and gpt-5.6-terra are supported"@,
        protocol_message(ProtocolErrorView::InvalidInput)
            == "request input must be a string or an array"@,
        protocol_message(ProtocolErrorView::InvalidInstructions)
            == "request instructions must be a string"@,
        protocol_message(ProtocolErrorView::UnsupportedField(name))
            == "The local bridge does not support request field `"@ + name + "`"@,
        ProtocolErrorView::UnsupportedField(name).message() == "unsupported request field: "@
            + name,
{
}

/// What is said of a session that cannot be had.
pub proof fn lemma_what_is_said_of_a_session(error: AuthError)
    ensures
        error.text() == (match error {
            AuthError::Missing => "Codex auth is unavailable; run `codex login`"@,
            AuthError::InsecurePermissions => {
                "Codex auth file permissions must be owner-only (0600)"@
            },
            AuthError::Invalid => "Codex auth file is invalid"@,
            AuthError::Refresh => "Codex session refresh failed"@,
            AuthError::Write => "Codex auth file could not be updated securely"@,
        }),
{
}

/// Whether a flow has failed, under what it is reported, and with which error.
pub open spec fn fails(
    flow: FlowView,
    model: Seq<char>,
    effort: Seq<char>,
    status: u16,
    code: Seq<char>,
    message: Seq<char>,
) -> bool {
    flow matches FlowView::Failed { model: reported, effort: tried, reply } && reported == model
        && tried == effort && tells(reply, status, code, message)
}

/// A request is read if it comes from the machine itself and its length is not refused.
/// What is refused here is not counted.
pub proof fn lemma_which_requests_are_read(
    peer: HostAddress,
    headers: Seq<FieldView>,
    limit: usize,
)
    ensures
        received(peer, headers, limit) == FlowView::ReadBody <==> peer.loops_back()
            && length_refusal(headers, limit) is None,
        !peer.loops_back() ==> (received(peer, headers, limit) matches FlowView::Refused(reply)
            && tells(
            reply,
            403,
            "loopback_only"@,
            "The Codex bridge only accepts loopback connections"@,
        )),
        peer.loops_back() ==> (length_refusal(headers, limit) matches Some(reply) ==> received(
            peer,
            headers,
            limit,
        ) == FlowView::Refused(reply)),
{
    lemma_words_of_replies();
}

/// What comes of a body: one that is too large or is no JSON fails unread, one that
/// cannot be adapted fails with the reason, and the rest goes on as it was adapted.
pub proof fn lemma_what_comes_of_a_body(bytes: Seq<u8>)
    ensures
        fails(
            after_body(None),
            "unknown"@,
            "unknown"@,
            413,
            "request_too_large"@,
            "The request exceeds the bridge body limit"@,
        ),
        json_of_bytes(bytes) is None ==> fails(
            after_body(Some(bytes)),
            "unknown"@,
            "unknown"@,
            400,
            "invalid_json"@,
            "The request body must be valid JSON"@,
        ),
        json_of_bytes(bytes) matches Some(request) ==> match adapt(request) {
            Err(error) => fails(
                after_body(Some(bytes)),
                "unknown"@,
                "medium"@,
                422,
                "unsupported_request"@,
                protocol_message(error),
            ),
            Ok(adapted) => after_body(Some(bytes)) matches FlowView::Acquire(call) && {
                &&& call.adapted == adapted
                &&& call.model == model_of(adapted)
                &&& call.effort == effort_of(adapted)
            },
        },
{
    lemma_words_of_replies();
}

/// A body that was read elsewhere goes the same way.
pub proof fn lemma_bodies_and_documents_agree(bytes: Seq<u8>)
    ensures
        after_body(Some(bytes)) == after_json(json_of_bytes(bytes)),
{
}

/// A call goes on if a stream is free for it.
pub proof fn lemma_a_stream_is_needed(call: CallView)
    ensures
        after_permit(call, true) == FlowView::Authenticate(call),
        fails(
            after_permit(call, false),
            call.model,
            call.effort,
            429,
            "bridge_busy"@,
            "The local Codex bridge is at its stream limit"@,
        ),
{
    lemma_words_of_replies();
}

/// A call is sent for the first time with a session, and fails without one.
pub proof fn lemma_a_session_is_needed(call: CallView, session: SessionView, error: AuthError)
    ensures
        after_session(call, Ok(session)) == (FlowView::Send { call, session, retried: false }),
        fails(
            after_session(call, Err(error)),
            call.model,
            call.effort,
            503,
            "codex_auth_unavailable"@,
            "Codex authentication is unavailable; run `codex login`"@,
        ),
{
    lemma_words_of_replies();
}

/// What comes of an answer. A session that is not accepted is refreshed the first time;
/// any other answer that is no success fails; a success has to be a stream of events, as
/// far as it says what it is.
pub proof fn lemma_what_comes_of_an_answer(
    call: CallView,
    session: SessionView,
    retried: bool,
    head: HeadView,
    error: UpstreamError,
)
    ensures
        ({
            let next = after_response(call, session, retried, Ok(head));
            let success = 200 <= head.status <= 299;
            let streams = match head.content_type {
                Some(said) => said == Seq::<char>::empty() || is_prefix("text/event-stream"@, said),
                None => true,
            };
            &&& head.status == 401 && !retried ==> next == (FlowView::Refresh {
                call,
                failed_token: session.access_token,
            })
            &&& !success && (head.status != 401 || retried) ==> next == (FlowView::Failed {
                model: call.model,
                effort: call.effort,
                reply: UpstreamError::Status(head.status).reply(),
            })
            &&& success && streams ==> next == FlowView::Stream(call)
            &&& success && !streams ==> fails(
                next,
                call.model,
                call.effort,
                502,
                "invalid_upstream_stream"@,
                "Codex returned an unexpected response format"@,
            )
        }),
        after_response(call, session, retried, Err(error)) == (FlowView::Failed {
            model: call.model,
            effort: call.effort,
            reply: error.reply(),
        }),
{
    lemma_words_of_replies();
    if let Some(said) = head.content_type {
        if said.len() == 0 {
            assert(said =~= Seq::<char>::empty());
        }
    }
}

/// A call is sent again with the refreshed session, marked as sent again; without one it
/// fails as a refused session does.
pub proof fn lemma_what_comes_of_a_refresh(
    call: CallView,
    session: SessionView,
    error: AuthError,
)
    ensures
        after_refresh(call, Ok(session)) == (FlowView::Send { call, session, retried: true }),
        fails(
            after_refresh(call, Err(error)),
            call.model,
            call.effort,
            502,
            "codex_auth_rejected"@,
            "Codex rejected the local session"@,
        ),
{
    lemma_words_of_replies();
}

} // verus!
