//! What is counted and reported: laws on the status document, on the counters, and
//! on the conversation with the app server.
use vstd::prelude::*;

use crate::codec::{bytes_of_json, json_of_text};
use crate::headers::{field_of, field_text, FieldView};
use crate::json::{lookup, JsonView};
use crate::metrics::{counted, limits_of, plus, with_stream, with_usage, without_stream, wrapped};
use crate::metrics::{BridgeUsageSnapshot, RateLimitObservation, RequestCounters};
use crate::metrics::{RequestObservation, StatusSnapshot, UsageObservation};
use crate::quota::{action_on, delay_after, end_code, id_after, limit_place, message_line};
use crate::quota::{opening, ready_with, request_message, stale_after, ActionView, LimitView};
use crate::quota::{QuotaError, QuotaSnapshot, QuotaView, RateLimit, RateLimitWindow};
use crate::quota::{ServerEvent, SessionEnd};
use crate::server::{health_reply, status_reply};
use crate::status::{counters_document, limit_document, limits_document, quota_document};
use crate::status::{request_document, snapshot_document, total_usage_document, usage_document};
use crate::status::window_document;
use crate::stream::ObservedUsage;

verus! {

/// The words of a report differ from each other.
proof fn lemma_report_words()
    ensures
        "ok"@.len() == 2,
        "note"@.len() == 4,
        "error"@.len() == 5,
        "model"@.len() == 5,
        "stale"@.len() == 5,
        "state"@.len() == 5,
        "total"@.len() == 5,
        "bridge"@.len() == 6,
        "effort"@.len() == 6,
        "failed"@.len() == 6,
        "latest"@.len() == 6,
        "source"@.len() == 6,
        "status"@.len() == 6,
        "limitId"@.len() == 7,
        "outcome"@.len() == 7,
        "primary"@.len() == 7,
        "service"@.len() == 7,
        "version"@.len() == 7,
        "planType"@.len() == 8,
        "requests"@.len() == 8,
        "resetsAt"@.len() == 8,
        "limitName"@.len() == 9,
        "secondary"@.len() == 9,
        "succeeded"@.len() == 9,
        "rate_limit"@.len() == 10,
        "request_id"@.len() == 10,
        "duration_ms"@.len() == 11,
        "rate_limits"@.len() == 11,
        "usedPercent"@.len() == 11,
        "input_tokens"@.len() == 12,
        "tokens_reset"@.len() == 12,
        "total_tokens"@.len() == 12,
        "output_tokens"@.len() == 13,
        "active_streams"@.len() == 14,
        "auth_refreshes"@.len() == 14,
        "latest_request"@.len() == 14,
        "requests_reset"@.len() == 14,
        "tokens_remaining"@.len() == 16,
        "cancelled_streams"@.len() == 17,
        "truncated_streams"@.len() == 17,
        "codex_subscription"@.len() == 18,
        "requests_remaining"@.len() == 18,
        "windowDurationMins"@.len() == 18,
        "fetched_at_unix_secs"@.len() == 20,
        "rateLimitReachedType"@.len() == 20,
        "bridge_observed_usage"@.len() == 21,
        "observed_at_unix_secs"@.len() == 21,
        "time_to_first_event_ms"@.len() == 22,
        "error"@ != "model"@,
        "error"@ != "stale"@,
        "error"@ != "state"@,
        "error"@ != "total"@,
        "model"@ != "stale"@,
        "model"@ != "state"@,
        "model"@ != "total"@,
        "stale"@ != "state"@,
        "stale"@ != "total"@,
        "state"@ != "total"@,
        "bridge"@ != "effort"@,
        "bridge"@ != "failed"@,
        "bridge"@ != "latest"@,
        "bridge"@ != "source"@,
        "bridge"@ != "status"@,
        "effort"@ != "failed"@,
        "effort"@ != "latest"@,
        "effort"@ != "source"@,
        "effort"@ != "status"@,
        "failed"@ != "latest"@,
        "failed"@ != "source"@,
        "failed"@ != "status"@,
        "latest"@ != "source"@,
        "latest"@ != "status"@,
        "source"@ != "status"@,
        "limitId"@ != "outcome"@,
        "limitId"@ != "primary"@,
        "limitId"@ != "service"@,
        "limitId"@ != "version"@,
        "outcome"@ != "primary"@,
        "outcome"@ != "service"@,
        "outcome"@ != "version"@,
        "primary"@ != "service"@,
        "primary"@ != "version"@,
        "service"@ != "version"@,
        "planType"@ != "requests"@,
        "planType"@ != "resetsAt"@,
        "requests"@ != "resetsAt"@,
        "limitName"@ != "secondary"@,
        "limitName"@ != "succeeded"@,
        "secondary"@ != "succeeded"@,
        "rate_limit"@ != "request_id"@,
        "duration_ms"@ != "rate_limits"@,
        "duration_ms"@ != "usedPercent"@,
        "rate_limits"@ != "usedPercent"@,
        "input_tokens"@ != "tokens_reset"@,
        "input_tokens"@ != "total_tokens"@,
        "tokens_reset"@ != "total_tokens"@,
        "active_streams"@ != "auth_refreshes"@,
        "active_streams"@ != "latest_request"@,
        "active_streams"@ != "requests_reset"@,
        "auth_refreshes"@ != "latest_request"@,
        "auth_refreshes"@ != "requests_reset"@,
        "latest_request"@ != "requests_reset"@,
        "cancelled_streams"@ != "truncated_streams"@,
        "codex_subscription"@ != "requests_remaining"@,
        "codex_subscription"@ != "windowDurationMins"@,
        "requests_remaining"@ != "windowDurationMins"@,
        "fetched_at_unix_secs"@ != "rateLimitReachedType"@,
        "bridge_observed_usage"@ != "observed_at_unix_secs"@,
{
    reveal_strlit("ok");
    reveal_strlit("note");
    reveal_strlit("error");
    reveal_strlit("model");
    reveal_strlit("stale");
    reveal_strlit("state");
    reveal_strlit("total");
    reveal_strlit("bridge");
    reveal_strlit("effort");
    reveal_strlit("failed");
    reveal_strlit("latest");
    reveal_strlit("source");
    reveal_strlit("status");
    reveal_strlit("limitId");
    reveal_strlit("outcome");
    reveal_strlit("primary");
    reveal_strlit("service");
    reveal_strlit("version");
    reveal_strlit("planType");
    reveal_strlit("requests");
    reveal_strlit("resetsAt");
    reveal_strlit("limitName");
    reveal_strlit("secondary");
    reveal_strlit("succeeded");
    reveal_strlit("rate_limit");
    reveal_strlit("request_id");
    reveal_strlit("duration_ms");
    reveal_strlit("rate_limits");
    reveal_strlit("usedPercent");
    reveal_strlit("input_tokens");
    reveal_strlit("tokens_reset");
    reveal_strlit("total_tokens");
    reveal_strlit("output_tokens");
    reveal_strlit("active_streams");
    reveal_strlit("auth_refreshes");
    reveal_strlit("latest_request");
    reveal_strlit("requests_reset");
    reveal_strlit("tokens_remaining");
    reveal_strlit("cancelled_streams");
    reveal_strlit("truncated_streams");
    reveal_strlit("codex_subscription");
    reveal_strlit("requests_remaining");
    reveal_strlit("windowDurationMins");
    reveal_strlit("fetched_at_unix_secs");
    reveal_strlit("rateLimitReachedType");
    reveal_strlit("bridge_observed_usage");
    reveal_strlit("observed_at_unix_secs");
    reveal_strlit("time_to_first_event_ms");
    assert("ok"@.len() == 2);
    assert("note"@.len() == 4);
    assert("error"@.len() == 5);
    assert("model"@.len() == 5);
    assert("stale"@.len() == 5);
    assert("state"@.len() == 5);
    assert("total"@.len() == 5);
    assert("bridge"@.len() == 6);
    assert("effort"@.len() == 6);
    assert("failed"@.len() == 6);
    assert("latest"@.len() == 6);
    assert("source"@.len() == 6);
    assert("status"@.len() == 6);
    assert("limitId"@.len() == 7);
    assert("outcome"@.len() == 7);
    assert("primary"@.len() == 7);
    assert("service"@.len() == 7);
    assert("version"@.len() == 7);
    assert("planType"@.len() == 8);
    assert("requests"@.len() == 8);
    assert("resetsAt"@.len() == 8);
    assert("limitName"@.len() == 9);
    assert("secondary"@.len() == 9);
    assert("succeeded"@.len() == 9);
    assert("rate_limit"@.len() == 10);
    assert("request_id"@.len() == 10);
    assert("duration_ms"@.len() == 11);
    assert("rate_limits"@.len() == 11);
    assert("usedPercent"@.len() == 11);
    assert("input_tokens"@.len() == 12);
    assert("tokens_reset"@.len() == 12);
    assert("total_tokens"@.len() == 12);
    assert("output_tokens"@.len() == 13);
    assert("active_streams"@.len() == 14);
    assert("auth_refreshes"@.len() == 14);
    assert("latest_request"@.len() == 14);
    assert("requests_reset"@.len() == 14);
    assert("tokens_remaining"@.len() == 16);
    assert("cancelled_streams"@.len() == 17);
    assert("truncated_streams"@.len() == 17);
    assert("codex_subscription"@.len() == 18);
    assert("requests_remaining"@.len() == 18);
    assert("windowDurationMins"@.len() == 18);
    assert("fetched_at_unix_secs"@.len() == 20);
    assert("rateLimitReachedType"@.len() == 20);
    assert("bridge_observed_usage"@.len() == 21);
    assert("observed_at_unix_secs"@.len() == 21);
    assert("time_to_first_event_ms"@.len() == 22);
    assert("error"@[0] == 'e' && "model"@[0] == 'm');
    assert("error"@[0] == 'e' && "stale"@[0] == 's');
    assert("error"@[0] == 'e' && "state"@[0] == 's');
    assert("error"@[0] == 'e' && "total"@[0] == 't');
    assert("model"@[0] == 'm' && "stale"@[0] == 's');
    assert("model"@[0] == 'm' && "state"@[0] == 's');
    assert("model"@[0] == 'm' && "total"@[0] == 't');
    assert("stale"@[3] == 'l' && "state"@[3] == 't');
    assert("stale"@[0] == 's' && "total"@[0] == 't');
    assert("state"@[0] == 's' && "total"@[0] == 't');
    assert("bridge"@[0] == 'b' && "effort"@[0] == 'e');
    assert("bridge"@[0] == 'b' && "failed"@[0] == 'f');
    assert("bridge"@[0] == 'b' && "latest"@[0] == 'l');
    assert("bridge"@[0] == 'b' && "source"@[0] == 's');
    assert("bridge"@[0] == 'b' && "status"@[0] == 's');
    assert("effort"@[0] == 'e' && "failed"@[0] == 'f');
    assert("effort"@[0] == 'e' && "latest"@[0] == 'l');
    assert("effort"@[0] == 'e' && "source"@[0] == 's');
    assert("effort"@[0] == 'e' && "status"@[0] == 's');
    assert("failed"@[0] == 'f' && "latest"@[0] == 'l');
    assert("failed"@[0] == 'f' && "source"@[0] == 's');
    assert("failed"@[0] == 'f' && "status"@[0] == 's');
    assert("latest"@[0] == 'l' && "source"@[0] == 's');
    assert("latest"@[0] == 'l' && "status"@[0] == 's');
    assert("source"@[1] == 'o' && "status"@[1] == 't');
    assert("limitId"@[0] == 'l' && "outcome"@[0] == 'o');
    assert("limitId"@[0] == 'l' && "primary"@[0] == 'p');
    assert("limitId"@[0] == 'l' && "service"@[0] == 's');
    assert("limitId"@[0] == 'l' && "version"@[0] == 'v');
    assert("outcome"@[0] == 'o' && "primary"@[0] == 'p');
    assert("outcome"@[0] == 'o' && "service"@[0] == 's');
    assert("outcome"@[0] == 'o' && "version"@[0] == 'v');
    assert("primary"@[0] == 'p' && "service"@[0] == 's');
    assert("primary"@[0] == 'p' && "version"@[0] == 'v');
    assert("service"@[0] == 's' && "version"@[0] == 'v');
    assert("planType"@[0] == 'p' && "requests"@[0] == 'r');
    assert("planType"@[0] == 'p' && "resetsAt"@[0] == 'r');
    assert("requests"@[2] == 'q' && "resetsAt"@[2] == 's');
    assert("limitName"@[0] == 'l' && "secondary"@[0] == 's');
    assert("limitName"@[0] == 'l' && "succeeded"@[0] == 's');
    assert("secondary"@[1] == 'e' && "succeeded"@[1] == 'u');
    assert("rate_limit"@[1] == 'a' && "request_id"@[1] == 'e');
    assert("duration_ms"@[0] == 'd' && "rate_limits"@[0] == 'r');
    assert("duration_ms"@[0] == 'd' && "usedPercent"@[0] == 'u');
    assert("rate_limits"@[0] == 'r' && "usedPercent"@[0] == 'u');
    assert("input_tokens"@[0] == 'i' && "tokens_reset"@[0] == 't');
    assert("input_tokens"@[0] == 'i' && "total_tokens"@[0] == 't');
    assert("tokens_reset"@[2] == 'k' && "total_tokens"@[2] == 't');
    assert("active_streams"@[1] == 'c' && "auth_refreshes"@[1] == 'u');
    assert("active_streams"@[0] == 'a' && "latest_request"@[0] == 'l');
    assert("active_streams"@[0] == 'a' && "requests_reset"@[0] == 'r');
    assert("auth_refreshes"@[0] == 'a' && "latest_request"@[0] == 'l');
    assert("auth_refreshes"@[0] == 'a' && "requests_reset"@[0] == 'r');
    assert("latest_request"@[0] == 'l' && "requests_reset"@[0] == 'r');
    assert("cancelled_streams"@[0] == 'c' && "truncated_streams"@[0] == 't');
    assert("codex_subscription"@[0] == 'c' && "requests_remaining"@[0] == 'r');
    assert("codex_subscription"@[0] == 'c' && "windowDurationMins"@[0] == 'w');
    assert("requests_remaining"@[0] == 'r' && "windowDurationMins"@[0] == 'w');
    assert("fetched_at_unix_secs"@[0] == 'f' && "rateLimitReachedType"@[0] == 'r');
    assert("bridge_observed_usage"@[0] == 'b' && "observed_at_unix_secs"@[0] == 'o');
}

/// The words of a message differ from each other.
proof fn lemma_message_words()
    ensures
        "id"@.len() == 2,
        "name"@.len() == 4,
        "title"@.len() == 5,
        "method"@.len() == 6,
        "params"@.len() == 6,
        "result"@.len() == 6,
        "version"@.len() == 7,
        "clientInfo"@.len() == 10,
        "rateLimits"@.len() == 10,
        "method"@ != "params"@,
        "method"@ != "result"@,
        "params"@ != "result"@,
        "clientInfo"@ != "rateLimits"@,
{
    reveal_strlit("id");
    reveal_strlit("name");
    reveal_strlit("title");
    reveal_strlit("method");
    reveal_strlit("params");
    reveal_strlit("result");
    reveal_strlit("version");
    reveal_strlit("clientInfo");
    reveal_strlit("rateLimits");
    assert("id"@.len() == 2);
    assert("name"@.len() == 4);
    assert("title"@.len() == 5);
    assert("method"@.len() == 6);
    assert("params"@.len() == 6);
    assert("result"@.len() == 6);
    assert("version"@.len() == 7);
    assert("clientInfo"@.len() == 10);
    assert("rateLimits"@.len() == 10);
    assert("method"@[0] == 'm' && "params"@[0] == 'p');
    assert("method"@[0] == 'm' && "result"@[0] == 'r');
    assert("params"@[0] == 'p' && "result"@[0] == 'r');
    assert("clientInfo"@[0] == 'c' && "rateLimits"@[0] == 'r');
}

/// The words for an outcome differ from each other.
proof fn lemma_outcome_words()
    ensures
        "failed"@.len() == 6,
        "cancelled"@.len() == 9,
        "completed"@.len() == 9,
        "truncated"@.len() == 9,
        "cancelled"@ != "completed"@,
        "cancelled"@ != "truncated"@,
        "completed"@ != "truncated"@,
{
    reveal_strlit("failed");
    reveal_strlit("cancelled");
    reveal_strlit("completed");
    reveal_strlit("truncated");
    assert("failed"@.len() == 6);
    assert("cancelled"@.len() == 9);
    assert("completed"@.len() == 9);
    assert("truncated"@.len() == 9);
    assert("cancelled"@[1] == 'a' && "completed"@[1] == 'o');
    assert("cancelled"@[0] == 'c' && "truncated"@[0] == 't');
    assert("completed"@[0] == 'c' && "truncated"@[0] == 't');
}

/// What is reported of the tokens of one response: each number that is known, and
/// when it was seen.
pub proof fn lemma_reported_usage(usage: UsageObservation)
    ensures
        usage_document(usage) matches JsonView::Object(said) && {
            &&& lookup(said, "input_tokens"@) == Some((match usage.input_tokens {
            Some(number) => JsonView::Unsigned(number as u64),
            None => JsonView::Null,
        }))
            &&& lookup(said, "output_tokens"@) == Some((match usage.output_tokens {
            Some(number) => JsonView::Unsigned(number as u64),
            None => JsonView::Null,
        }))
            &&& lookup(said, "total_tokens"@) == Some((match usage.total_tokens {
            Some(number) => JsonView::Unsigned(number as u64),
            None => JsonView::Null,
        }))
            &&& lookup(said, "observed_at_unix_secs"@) == Some(JsonView::Unsigned(usage.observed_at_unix_secs as u64))
            &&& forall|key: Seq<char>| #[trigger]
                said.dom().contains(key) ==> key == "input_tokens"@ || key == "output_tokens"@ || key == "total_tokens"@ || key == "observed_at_unix_secs"@
        },
{
    lemma_report_words();
}

/// What is reported of all tokens: the sums, and the last response.
pub proof fn lemma_reported_totals(usage: BridgeUsageSnapshot)
    ensures
        total_usage_document(usage) matches JsonView::Object(said) && {
            &&& lookup(said, "input_tokens"@) == Some(JsonView::Unsigned(usage.input_tokens as u64))
            &&& lookup(said, "output_tokens"@) == Some(JsonView::Unsigned(usage.output_tokens as u64))
            &&& lookup(said, "total_tokens"@) == Some(JsonView::Unsigned(usage.total_tokens as u64))
            &&& lookup(said, "latest"@) == Some((match usage.latest {
            Some(latest) => usage_document(latest),
            None => JsonView::Null,
        }))
            &&& forall|key: Seq<char>| #[trigger]
                said.dom().contains(key) ==> key == "input_tokens"@ || key == "output_tokens"@ || key == "total_tokens"@ || key == "latest"@
        },
{
    lemma_report_words();
}

/// What is reported of the limits that the upstream names in its headers.
pub proof fn lemma_reported_limits(limits: RateLimitObservation)
    ensures
        limits_document(limits@) matches JsonView::Object(said) && {
            &&& lookup(said, "requests_remaining"@) == Some((match limits.requests_remaining {
            Some(text) => JsonView::Text(text@),
            None => JsonView::Null,
        }))
            &&& lookup(said, "tokens_remaining"@) == Some((match limits.tokens_remaining {
            Some(text) => JsonView::Text(text@),
            None => JsonView::Null,
        }))
            &&& lookup(said, "requests_reset"@) == Some((match limits.requests_reset {
            Some(text) => JsonView::Text(text@),
            None => JsonView::Null,
        }))
            &&& lookup(said, "tokens_reset"@) == Some((match limits.tokens_reset {
            Some(text) => JsonView::Text(text@),
            None => JsonView::Null,
        }))
            &&& forall|key: Seq<char>| #[trigger]
                said.dom().contains(key) ==> key == "requests_remaining"@ || key == "tokens_remaining"@ || key == "requests_reset"@ || key == "tokens_reset"@
        },
{
    lemma_report_words();
}

/// What is reported of the requests: each counter under its name.
pub proof fn lemma_reported_counters(requests: RequestCounters)
    ensures
        counters_document(requests) matches JsonView::Object(said) && {
            &&& lookup(said, "total"@) == Some(JsonView::Unsigned(requests.total as u64))
            &&& lookup(said, "succeeded"@) == Some(JsonView::Unsigned(requests.succeeded as u64))
            &&& lookup(said, "failed"@) == Some(JsonView::Unsigned(requests.failed as u64))
            &&& lookup(said, "active_streams"@) == Some(JsonView::Unsigned(requests.active_streams as u64))
            &&& lookup(said, "cancelled_streams"@) == Some(JsonView::Unsigned(requests.cancelled_streams as u64))
            &&& lookup(said, "truncated_streams"@) == Some(JsonView::Unsigned(requests.truncated_streams as u64))
            &&& lookup(said, "auth_refreshes"@) == Some(JsonView::Unsigned(requests.auth_refreshes as u64))
            &&& forall|key: Seq<char>| #[trigger]
                said.dom().contains(key) ==> key == "total"@ || key == "succeeded"@ || key == "failed"@ || key == "active_streams"@ || key == "cancelled_streams"@ || key == "truncated_streams"@ || key == "auth_refreshes"@
        },
{
    lemma_report_words();
}

/// What is reported of the last request.
pub proof fn lemma_reported_request(request: RequestObservation)
    requires
        request.duration_ms <= u64::MAX,
        request.time_to_first_event_ms matches Some(time) ==> time <= u64::MAX,
    ensures
        request_document(request@) matches JsonView::Object(said) && {
            &&& lookup(said, "request_id"@) == Some(JsonView::Text(request.request_id@))
            &&& lookup(said, "model"@) == Some(JsonView::Text(request.model@))
            &&& lookup(said, "effort"@) == Some(JsonView::Text(request.effort@))
            &&& lookup(said, "outcome"@) == Some(JsonView::Text(request.outcome@))
            &&& lookup(said, "duration_ms"@) == Some(JsonView::Unsigned(request.duration_ms as u64))
            &&& lookup(said, "time_to_first_event_ms"@) == Some((match request.time_to_first_event_ms {
            Some(number) => JsonView::Unsigned(number as u64),
            None => JsonView::Null,
        }))
            &&& lookup(said, "observed_at_unix_secs"@) == Some(JsonView::Unsigned(request.observed_at_unix_secs as u64))
            &&& forall|key: Seq<char>| #[trigger]
                said.dom().contains(key) ==> key == "request_id"@ || key == "model"@ || key == "effort"@ || key == "outcome"@ || key == "duration_ms"@ || key == "time_to_first_event_ms"@ || key == "observed_at_unix_secs"@
        },
{
    lemma_report_words();
}

/// What is reported of the bridge as a whole.
pub proof fn lemma_reported_snapshot(snapshot: StatusSnapshot)
    ensures
        snapshot_document(snapshot@) matches JsonView::Object(said) && {
            &&& lookup(said, "status"@) == Some(JsonView::Text(snapshot.status@))
            &&& lookup(said, "bridge_observed_usage"@) == Some(total_usage_document(snapshot.bridge_observed_usage))
            &&& lookup(said, "rate_limits"@) == Some(limits_document(snapshot.rate_limits@))
            &&& lookup(said, "requests"@) == Some(counters_document(snapshot.requests))
            &&& lookup(said, "latest_request"@) == Some((match snapshot.latest_request {
            Some(request) => request_document(request@),
            None => JsonView::Null,
        }))
            &&& lookup(said, "note"@) == Some(JsonView::Text(snapshot.note@))
            &&& forall|key: Seq<char>| #[trigger]
                said.dom().contains(key) ==> key == "status"@ || key == "bridge_observed_usage"@ || key == "rate_limits"@ || key == "requests"@ || key == "latest_request"@ || key == "note"@
        },
{
    lemma_report_words();
}

/// What is reported of a window of the subscription: how much of it is used, how
/// long it is, and when it starts anew.
pub proof fn lemma_reported_window(window: RateLimitWindow)
    ensures
        window_document(Some(window)) matches JsonView::Object(said) && {
            &&& lookup(said, "usedPercent"@) == Some(JsonView::Unsigned(window.used_percent as u64))
            &&& lookup(said, "windowDurationMins"@) == Some(JsonView::Unsigned(window.window_duration_mins as u64))
            &&& lookup(said, "resetsAt"@) == Some(JsonView::Unsigned(window.resets_at as u64))
            &&& forall|key: Seq<char>| #[trigger]
                said.dom().contains(key) ==> key == "usedPercent"@ || key == "windowDurationMins"@ || key == "resetsAt"@
        },
{
    lemma_report_words();
}

/// What is reported of a limit of the subscription: both of its windows, each as it
/// is or as missing, and all that is known of it.
pub proof fn lemma_reported_limit(limit: RateLimit)
    ensures
        limit_document(limit@) matches JsonView::Object(said) && {
            &&& lookup(said, "limitId"@) == Some(JsonView::Text(limit.limit_id@))
            &&& lookup(said, "limitName"@) == Some((match limit.limit_name {
            Some(text) => JsonView::Text(text@),
            None => JsonView::Null,
        }))
            &&& lookup(said, "primary"@) == Some((match limit.primary {
            Some(window) => window_document(Some(window)),
            None => JsonView::Null,
        }))
            &&& lookup(said, "secondary"@) == Some((match limit.secondary {
            Some(window) => window_document(Some(window)),
            None => JsonView::Null,
        }))
            &&& lookup(said, "planType"@) == Some((match limit.plan_type {
            Some(text) => JsonView::Text(text@),
            None => JsonView::Null,
        }))
            &&& lookup(said, "rateLimitReachedType"@) == Some((match limit.rate_limit_reached_type {
            Some(text) => JsonView::Text(text@),
            None => JsonView::Null,
        }))
            &&& forall|key: Seq<char>| #[trigger]
                said.dom().contains(key) ==> key == "limitId"@ || key == "limitName"@ || key == "primary"@ || key == "secondary"@ || key == "planType"@ || key == "rateLimitReachedType"@
        },
{
    lemma_report_words();
}

/// What is reported of the subscription as a whole.
pub proof fn lemma_reported_quota(quota: QuotaSnapshot)
    ensures
        quota_document(quota@) matches JsonView::Object(said) && {
            &&& lookup(said, "source"@) == Some(JsonView::Text(quota.source@))
            &&& lookup(said, "state"@) == Some(JsonView::Text(quota.state@))
            &&& lookup(said, "stale"@) == Some(JsonView::Bool(quota.stale))
            &&& lookup(said, "fetched_at_unix_secs"@) == Some((match quota.fetched_at_unix_secs {
            Some(number) => JsonView::Unsigned(number as u64),
            None => JsonView::Null,
        }))
            &&& lookup(said, "rate_limit"@) == Some((match quota.rate_limit {
            Some(limit) => limit_document(limit@),
            None => JsonView::Null,
        }))
            &&& lookup(said, "error"@) == Some((match quota.error {
            Some(text) => JsonView::Text(text@),
            None => JsonView::Null,
        }))
            &&& forall|key: Seq<char>| #[trigger]
                said.dom().contains(key) ==> key == "source"@ || key == "state"@ || key == "stale"@ || key == "fetched_at_unix_secs"@ || key == "rate_limit"@ || key == "error"@
        },
{
    lemma_report_words();
}

/// A missing window is reported as missing, and only that is.
pub proof fn lemma_missing_window(window: Option<RateLimitWindow>)
    ensures
        window_document(window) == JsonView::Null <==> window is None,
{
}

/// The report of a limit tells it: two limits with the same report are the same.
pub proof fn lemma_the_report_tells_the_limit(one: RateLimit, other: RateLimit)
    requires
        limit_document(one@) == limit_document(other@),
    ensures
        one.limit_id@ == other.limit_id@,
        one.primary == other.primary,
        one.secondary == other.secondary,
        one@ == other@,
{
    lemma_report_words();
    lemma_reported_limit(one);
    lemma_reported_limit(other);
    if let Some(window) = one.primary {
        lemma_reported_window(window);
    }
    if let Some(window) = one.secondary {
        lemma_reported_window(window);
    }
    if let Some(window) = other.primary {
        lemma_reported_window(window);
    }
    if let Some(window) = other.secondary {
        lemma_reported_window(window);
    }
    let said = limit_document(one@)->Object_0;
    assert(said == limit_document(other@)->Object_0);
}

/// What the status endpoint replies: the name and the version of the bridge, what it
/// has seen, and what is known of the subscription, each under its own key.
pub proof fn lemma_status_reply(
    snapshot: crate::metrics::SnapshotView,
    quota: QuotaView,
)
    ensures
        status_reply(snapshot, quota).status == 200,
        status_reply(snapshot, quota).body matches JsonView::Object(said) && {
            &&& lookup(said, "service"@) == Some(JsonView::Text("codex-for-grok"@))
            &&& lookup(said, "version"@) == Some(JsonView::Text("0.1.2"@))
            &&& lookup(said, "bridge"@) == Some(snapshot_document(snapshot))
            &&& lookup(said, "codex_subscription"@) == Some(quota_document(quota))
            &&& forall|key: Seq<char>| #[trigger]
                said.dom().contains(key) ==> key == "service"@ || key == "version"@ || key
                    == "bridge"@ || key == "codex_subscription"@
        },
        health_reply().status == 200,
        health_reply().body matches JsonView::Object(said) && {
            &&& lookup(said, "ok"@) == Some(JsonView::Bool(true))
            &&& lookup(said, "service"@) == Some(JsonView::Text("codex-for-grok"@))
            &&& lookup(said, "version"@) == Some(JsonView::Text("0.1.2"@))
        },
{
    lemma_report_words();
}

/// A limit that was read is reported as ready and fresh, with the time it was read.
pub proof fn lemma_a_limit_that_was_read(limit: LimitView, now: u64)
    ensures
        ready_with(limit, now).rate_limit == Some(limit),
        ready_with(limit, now).fetched_at_unix_secs == Some(now),
        ready_with(limit, now).state == "ready"@,
        ready_with(limit, now).source == "codex-app-server"@,
        !ready_with(limit, now).stale,
        ready_with(limit, now).error is None,
{
}

/// Losing the app server keeps what was read and says that it is stale; where
/// nothing was read, the subscription is unavailable.
pub proof fn lemma_losing_the_app_server(snapshot: QuotaView, error: Seq<char>)
    ensures
        ({
            let after = stale_after(snapshot, error);
            &&& after.rate_limit == snapshot.rate_limit
            &&& after.fetched_at_unix_secs == snapshot.fetched_at_unix_secs
            &&& after.source == snapshot.source
            &&& after.error == Some(error)
            &&& after.stale <==> snapshot.rate_limit is Some
            &&& snapshot.rate_limit is Some ==> after.state == "stale"@
            &&& snapshot.rate_limit is None ==> after.state == "unavailable"@
        }),
        end_code(SessionEnd::Stop) is None,
        end_code(SessionEnd::Unavailable) == Some("codex_app_server_unavailable"@),
        end_code(SessionEnd::ProtocolError) == Some("codex_app_server_protocol_error"@),
{
}

/// Where a message holds a limit: in its result, else in its parameters, else its
/// parameters are the limit.
pub proof fn lemma_where_a_limit_stands(message: Map<Seq<char>, JsonView>)
    ensures
        ({
            let place = limit_place(JsonView::Object(message));
            let answered = match lookup(message, "result"@) {
                Some(JsonView::Object(result)) => lookup(result, "rateLimits"@),
                _ => None,
            };
            let announced = match lookup(message, "params"@) {
                Some(JsonView::Object(params)) => lookup(params, "rateLimits"@),
                _ => None,
            };
            &&& answered is Some ==> place == answered
            &&& answered is None && announced is Some ==> place == announced
            &&& answered is None && announced is None ==> place == lookup(message, "params"@)
        }),
{
}

/// Whether a message is a request of this id and method.
pub open spec fn requests(message: JsonView, id: u64, method: Seq<char>) -> bool {
    message matches JsonView::Object(said) && {
        &&& lookup(said, "id"@) == Some(JsonView::Unsigned(id))
        &&& lookup(said, "method"@) == Some(JsonView::Text(method))
        &&& lookup(said, "params"@) matches Some(JsonView::Object(_))
    }
}

/// How a conversation with the app server starts: the bridge asks to be let in and
/// says who it is, says that it is ready, and asks for the limits.
pub proof fn lemma_how_a_conversation_starts(version: Seq<char>)
    ensures
        ({
            let messages = opening(version);
            &&& messages.len() == 3
            &&& requests(messages[0], 1, "initialize"@)
            &&& messages[0] matches JsonView::Object(said)
            &&& lookup(said, "params"@) matches Some(JsonView::Object(params))
            &&& lookup(params, "clientInfo"@) matches Some(JsonView::Object(info))
            &&& lookup(info, "name"@) == Some(JsonView::Text("grok-codex-bridge"@))
            &&& lookup(info, "title"@) == Some(JsonView::Text("Grok Codex Bridge"@))
            &&& lookup(info, "version"@) == Some(JsonView::Text(version))
            &&& messages[1] matches JsonView::Object(ready)
            &&& lookup(ready, "method"@) == Some(JsonView::Text("initialized"@))
            &&& !ready.dom().contains("id"@)
            &&& requests(messages[2], 2, "account/rateLimits/read"@)
        }),
{
    lemma_message_words();
}

/// How the bridge goes on with the app server: it asks for the limits again at each
/// tick, with a new id, it reads each line, it stops when it is told to, and it
/// fails when the app server is gone.
pub proof fn lemma_how_a_conversation_goes_on(event: ServerEvent, id: u64)
    ensures
        event == ServerEvent::Shutdown ==> action_on(event, id) == ActionView::Stop,
        event == ServerEvent::Closed ==> action_on(event, id) == ActionView::Fail(
            QuotaError::Unavailable,
        ),
        event matches ServerEvent::Line(text) ==> action_on(event, id) == ActionView::Read(
            json_of_text(text@),
        ),
        event == ServerEvent::Tick ==> ({
            let message = request_message(
                id,
                "account/rateLimits/read"@,
                JsonView::Object(Map::empty()),
            );
            &&& requests(message, id, "account/rateLimits/read"@)
            &&& match bytes_of_json(message) {
                Some(bytes) => action_on(event, id) == ActionView::Send(bytes.push(0x0a)),
                None => action_on(event, id) == ActionView::Fail(QuotaError::Protocol),
            }
        }),
        id < u64::MAX ==> id_after(id) == id + 1,
        id == u64::MAX ==> id_after(id) == id,
{
    lemma_message_words();
    assert(crate::sse::LINE_FEED == 0x0a);
}

/// A message is sent as its JSON and a line break.
pub proof fn lemma_a_message_is_a_line(message: JsonView)
    ensures
        match bytes_of_json(message) {
            Some(bytes) => message_line(message) == Ok::<Seq<u8>, QuotaError>(bytes.push(0x0a)),
            None => message_line(message) == Err::<Seq<u8>, QuotaError>(QuotaError::Protocol),
        },
{
    assert(crate::sse::LINE_FEED == 0x0a);
}

/// The delay before the app server is started again doubles from one second, up to
/// half a minute.
pub proof fn lemma_the_delay_doubles(failures: nat)
    ensures
        delay_after(0) == 1,
        delay_after(failures) < 15 ==> delay_after(failures + 1) == 2 * delay_after(failures),
        delay_after(failures) >= 15 ==> delay_after(failures + 1) == 30,
{
}

/// An outcome is counted under its own name, and under no other; anything that is
/// none of the three others has failed.
pub proof fn lemma_outcomes_are_counted(before: RequestCounters, outcome: Seq<char>)
    ensures
        ({
            let after = counted(before, outcome);
            let other = outcome != "completed"@ && outcome != "cancelled"@ && outcome
                != "truncated"@;
            &&& after.succeeded == (if outcome == "completed"@ {
                wrapped(before.succeeded + 1)
            } else {
                before.succeeded
            })
            &&& after.cancelled_streams == (if outcome == "cancelled"@ {
                wrapped(before.cancelled_streams + 1)
            } else {
                before.cancelled_streams
            })
            &&& after.truncated_streams == (if outcome == "truncated"@ {
                wrapped(before.truncated_streams + 1)
            } else {
                before.truncated_streams
            })
            &&& after.failed == (if other {
                wrapped(before.failed + 1)
            } else {
                before.failed
            })
            &&& after.total == before.total
            &&& after.active_streams == before.active_streams
            &&& after.auth_refreshes == before.auth_refreshes
        }),
{
    lemma_outcome_words();
}

/// A counter goes on from zero once it is full.
pub proof fn lemma_counters_wrap(n: int)
    requires
        -1 <= n < 0x2_0000_0000_0000_0000,
    ensures
        0 <= n <= u64::MAX ==> wrapped(n) == n,
        n > u64::MAX ==> wrapped(n) == n - 0x1_0000_0000_0000_0000,
        n == -1 ==> wrapped(n) == u64::MAX,
{
}

/// A stream is counted while it runs; one that ends early counts as cancelled.
pub proof fn lemma_streams_are_counted(before: RequestCounters, finished: bool)
    ensures
        with_stream(before).active_streams == wrapped(before.active_streams + 1),
        with_stream(before).cancelled_streams == before.cancelled_streams,
        with_stream(before).total == before.total,
        with_stream(before).succeeded == before.succeeded,
        with_stream(before).failed == before.failed,
        with_stream(before).truncated_streams == before.truncated_streams,
        with_stream(before).auth_refreshes == before.auth_refreshes,
        without_stream(before, finished).active_streams == wrapped(before.active_streams - 1),
        without_stream(before, finished).cancelled_streams == (if finished {
            before.cancelled_streams
        } else {
            wrapped(before.cancelled_streams + 1)
        }),
        without_stream(before, finished).total == before.total,
        without_stream(before, finished).succeeded == before.succeeded,
        without_stream(before, finished).failed == before.failed,
        without_stream(before, finished).truncated_streams == before.truncated_streams,
        without_stream(before, finished).auth_refreshes == before.auth_refreshes,
{
}

/// The tokens of a response are added to the sums, each to its own, as far as they
/// are known; the last response is remembered as it was seen.
pub proof fn lemma_tokens_are_added(
    before: BridgeUsageSnapshot,
    seen: ObservedUsage,
    now: u64,
    tokens: u64,
    counter: u64,
)
    ensures
        ({
            let after = with_usage(before, seen, now);
            &&& after.input_tokens == (match seen.input_tokens {
                Some(tokens) => wrapped(before.input_tokens + tokens),
                None => before.input_tokens,
            })
            &&& after.output_tokens == (match seen.output_tokens {
                Some(tokens) => wrapped(before.output_tokens + tokens),
                None => before.output_tokens,
            })
            &&& after.total_tokens == (match seen.total_tokens {
                Some(tokens) => wrapped(before.total_tokens + tokens),
                None => before.total_tokens,
            })
            &&& after.latest matches Some(latest)
            &&& latest.input_tokens == seen.input_tokens
            &&& latest.output_tokens == seen.output_tokens
            &&& latest.total_tokens == seen.total_tokens
            &&& latest.observed_at_unix_secs == now
        }),
        plus(counter, None) == counter,
        plus(counter, Some(tokens)) == wrapped(counter + tokens),
{
}

/// The limits that the upstream names: each from its own header.
pub proof fn lemma_limits_in_headers(headers: Seq<FieldView>)
    ensures
        limits_of(headers).requests_remaining == field_text(
            headers,
            "x-ratelimit-remaining-requests"@,
        ),
        limits_of(headers).tokens_remaining == field_text(
            headers,
            "x-ratelimit-remaining-tokens"@,
        ),
        limits_of(headers).requests_reset == field_text(headers, "x-ratelimit-reset-requests"@),
        limits_of(headers).tokens_reset == field_text(headers, "x-ratelimit-reset-tokens"@),
{
}

/// Of several headers with the same name the first one counts.
pub proof fn lemma_the_first_header_counts(headers: Seq<FieldView>, name: Seq<char>)
    ensures
        field_of(headers, name) is None <==> forall|i: int|
            0 <= i < headers.len() ==> (#[trigger] headers[i]).name != name,
        field_of(headers, name) matches Some(field) ==> exists|at: int|
            0 <= at < headers.len() && #[trigger] headers[at] == field && field.name == name
                && forall|i: int| 0 <= i < at ==> (#[trigger] headers[i]).name != name,
        field_text(headers, name) == (match field_of(headers, name) {
            Some(field) => field.value,
            None => None,
        }),
    decreases headers.len(),
{
    if headers.len() > 0 {
        let rest = headers.skip(1);
        assert forall|i: int| 0 <= i < rest.len() implies #[trigger] rest[i] == headers[i + 1] by {}
        lemma_the_first_header_counts(rest, name);
        if headers[0].name == name {
            assert(headers[0] == headers[0]);
        } else {
            if field_of(rest, name) is None {
                assert forall|i: int| 0 <= i < headers.len() implies (
                #[trigger] headers[i]).name != name by {
                    if i > 0 {
                        assert(rest[i - 1].name != name);
                    }
                }
            } else {
                let field = field_of(rest, name)->Some_0;
                let at = choose|at: int|
                    0 <= at < rest.len() && #[trigger] rest[at] == field && field.name == name
                        && forall|i: int| 0 <= i < at ==> (#[trigger] rest[i]).name != name;
                assert(headers[at + 1] == field);
                assert forall|i: int| 0 <= i < at + 1 implies (#[trigger] headers[i]).name
                    != name by {
                    if i > 0 {
                        assert(rest[i - 1].name != name);
                    }
                }
            }
        }
    }
}

} // verus!
