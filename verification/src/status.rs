//! The status of the bridge as a JSON document.
use vstd::prelude::*;

use crate::json::{Json, JsonObject, JsonView};
use crate::metrics::{BridgeUsageSnapshot, LimitsView, RateLimitObservation, RequestCounters};
use crate::metrics::{RequestObservation, RequestView, SnapshotView, StatusSnapshot};
use crate::metrics::UsageObservation;
use crate::quota::{LimitView, QuotaSnapshot, QuotaView, RateLimit, RateLimitWindow};
use crate::text::optional_text;

verus! {

/// An optional text: the text, or null.
pub open spec fn text_or_null(text: Option<Seq<char>>) -> JsonView {
    match text {
        Some(text) => JsonView::Text(text),
        None => JsonView::Null,
    }
}

/// An optional number: the number, or null.
pub open spec fn number_or_null(number: Option<u64>) -> JsonView {
    match number {
        Some(number) => JsonView::Unsigned(number),
        None => JsonView::Null,
    }
}

fn text_json(text: &Option<String>) -> (json: Json)
    ensures
        json@ == text_or_null(optional_text(*text)),
{
    match text {
        Some(text) => Json::string(text.as_str()),
        None => Json::Null,
    }
}

fn number_json(number: Option<u64>) -> (json: Json)
    ensures
        json@ == number_or_null(number),
{
    match number {
        Some(number) => Json::unsigned(number),
        None => Json::Null,
    }
}

/// The tokens of one response.
pub open spec fn usage_document(usage: UsageObservation) -> JsonView {
    JsonView::Object(
        Map::empty().insert("input_tokens"@, number_or_null(usage.input_tokens)).insert(
            "output_tokens"@,
            number_or_null(usage.output_tokens),
        ).insert("total_tokens"@, number_or_null(usage.total_tokens)).insert(
            "observed_at_unix_secs"@,
            JsonView::Unsigned(usage.observed_at_unix_secs),
        ),
    )
}

fn usage_json(usage: &UsageObservation) -> (json: Json)
    ensures
        json@ == usage_document(*usage),
{
    let mut object = JsonObject::new();
    object.insert("input_tokens", number_json(usage.input_tokens));
    object.insert("output_tokens", number_json(usage.output_tokens));
    object.insert("total_tokens", number_json(usage.total_tokens));
    object.insert("observed_at_unix_secs", Json::unsigned(usage.observed_at_unix_secs));
    Json::Object(object)
}

/// The tokens of all responses.
pub open spec fn total_usage_document(usage: BridgeUsageSnapshot) -> JsonView {
    JsonView::Object(
        Map::empty().insert("input_tokens"@, JsonView::Unsigned(usage.input_tokens)).insert(
            "output_tokens"@,
            JsonView::Unsigned(usage.output_tokens),
        ).insert("total_tokens"@, JsonView::Unsigned(usage.total_tokens)).insert(
            "latest"@,
            match usage.latest {
                Some(latest) => usage_document(latest),
                None => JsonView::Null,
            },
        ),
    )
}

fn total_usage_json(usage: &BridgeUsageSnapshot) -> (json: Json)
    ensures
        json@ == total_usage_document(*usage),
{
    let latest = match &usage.latest {
        Some(latest) => usage_json(latest),
        None => Json::Null,
    };
    let mut object = JsonObject::new();
    object.insert("input_tokens", Json::unsigned(usage.input_tokens));
    object.insert("output_tokens", Json::unsigned(usage.output_tokens));
    object.insert("total_tokens", Json::unsigned(usage.total_tokens));
    object.insert("latest", latest);
    Json::Object(object)
}

/// The rate limits of the last response.
pub open spec fn limits_document(limits: LimitsView) -> JsonView {
    JsonView::Object(
        Map::empty().insert("requests_remaining"@, text_or_null(limits.requests_remaining)).insert(
            "tokens_remaining"@,
            text_or_null(limits.tokens_remaining),
        ).insert("requests_reset"@, text_or_null(limits.requests_reset)).insert(
            "tokens_reset"@,
            text_or_null(limits.tokens_reset),
        ),
    )
}

fn limits_json(limits: &RateLimitObservation) -> (json: Json)
    ensures
        json@ == limits_document(limits@),
{
    let mut object = JsonObject::new();
    object.insert("requests_remaining", text_json(&limits.requests_remaining));
    object.insert("tokens_remaining", text_json(&limits.tokens_remaining));
    object.insert("requests_reset", text_json(&limits.requests_reset));
    object.insert("tokens_reset", text_json(&limits.tokens_reset));
    Json::Object(object)
}

/// The counts of requests and streams.
pub open spec fn counters_document(requests: RequestCounters) -> JsonView {
    JsonView::Object(
        Map::empty().insert("total"@, JsonView::Unsigned(requests.total)).insert(
            "succeeded"@,
            JsonView::Unsigned(requests.succeeded),
        ).insert("failed"@, JsonView::Unsigned(requests.failed)).insert(
            "active_streams"@,
            JsonView::Unsigned(requests.active_streams),
        ).insert("cancelled_streams"@, JsonView::Unsigned(requests.cancelled_streams)).insert(
            "truncated_streams"@,
            JsonView::Unsigned(requests.truncated_streams),
        ).insert("auth_refreshes"@, JsonView::Unsigned(requests.auth_refreshes)),
    )
}

fn counters_json(requests: &RequestCounters) -> (json: Json)
    ensures
        json@ == counters_document(*requests),
{
    let mut object = JsonObject::new();
    object.insert("total", Json::unsigned(requests.total));
    object.insert("succeeded", Json::unsigned(requests.succeeded));
    object.insert("failed", Json::unsigned(requests.failed));
    object.insert("active_streams", Json::unsigned(requests.active_streams));
    object.insert("cancelled_streams", Json::unsigned(requests.cancelled_streams));
    object.insert("truncated_streams", Json::unsigned(requests.truncated_streams));
    object.insert("auth_refreshes", Json::unsigned(requests.auth_refreshes));
    Json::Object(object)
}

/// Whether the times of a request fit into the numbers of a document.
pub open spec fn times_fit(request: RequestView) -> bool {
    request.duration_ms <= u64::MAX && (request.time_to_first_event_ms matches Some(time) ==> time
        <= u64::MAX)
}

/// A request that has ended.
pub open spec fn request_document(request: RequestView) -> JsonView {
    JsonView::Object(
        Map::empty().insert("request_id"@, JsonView::Text(request.request_id)).insert(
            "model"@,
            JsonView::Text(request.model),
        ).insert("effort"@, JsonView::Text(request.effort)).insert(
            "outcome"@,
            JsonView::Text(request.outcome),
        ).insert("duration_ms"@, JsonView::Unsigned(request.duration_ms as u64)).insert(
            "time_to_first_event_ms"@,
            match request.time_to_first_event_ms {
                Some(time) => JsonView::Unsigned(time as u64),
                None => JsonView::Null,
            },
        ).insert("observed_at_unix_secs"@, JsonView::Unsigned(request.observed_at_unix_secs)),
    )
}

fn request_json(request: &RequestObservation) -> (json: Json)
    requires
        times_fit(request@),
    ensures
        json@ == request_document(request@),
{
    let first: Json = match request.time_to_first_event_ms {
        Some(time) => Json::unsigned(time as u64),
        None => Json::Null,
    };
    let mut object = JsonObject::new();
    object.insert("request_id", Json::string(request.request_id.as_str()));
    object.insert("model", Json::string(request.model.as_str()));
    object.insert("effort", Json::string(request.effort.as_str()));
    object.insert("outcome", Json::string(request.outcome.as_str()));
    object.insert("duration_ms", Json::unsigned(request.duration_ms as u64));
    object.insert("time_to_first_event_ms", first);
    object.insert("observed_at_unix_secs", Json::unsigned(request.observed_at_unix_secs));
    Json::Object(object)
}

/// What the bridge says of itself.
pub open spec fn snapshot_document(snapshot: SnapshotView) -> JsonView {
    JsonView::Object(
        Map::empty().insert("status"@, JsonView::Text(snapshot.status)).insert(
            "bridge_observed_usage"@,
            total_usage_document(snapshot.bridge_observed_usage),
        ).insert("rate_limits"@, limits_document(snapshot.rate_limits)).insert(
            "requests"@,
            counters_document(snapshot.requests),
        ).insert(
            "latest_request"@,
            match snapshot.latest_request {
                Some(request) => request_document(request),
                None => JsonView::Null,
            },
        ).insert("note"@, JsonView::Text(snapshot.note)),
    )
}

/// Whether the times of the last request fit into the numbers of a document.
pub open spec fn snapshot_fits(snapshot: SnapshotView) -> bool {
    snapshot.latest_request matches Some(request) ==> times_fit(request)
}

/// Writes what the bridge says of itself.
pub fn snapshot_json(snapshot: &StatusSnapshot) -> (json: Json)
    requires
        snapshot_fits(snapshot@),
    ensures
        json@ == snapshot_document(snapshot@),
{
    let latest = match &snapshot.latest_request {
        Some(request) => request_json(request),
        None => Json::Null,
    };
    let mut object = JsonObject::new();
    object.insert("status", Json::string(snapshot.status));
    object.insert("bridge_observed_usage", total_usage_json(&snapshot.bridge_observed_usage));
    object.insert("rate_limits", limits_json(&snapshot.rate_limits));
    object.insert("requests", counters_json(&snapshot.requests));
    object.insert("latest_request", latest);
    object.insert("note", Json::string(snapshot.note));
    Json::Object(object)
}

/// A window of time, or null.
pub open spec fn window_document(window: Option<RateLimitWindow>) -> JsonView {
    match window {
        Some(window) => JsonView::Object(
            Map::empty().insert(
                "usedPercent"@,
                JsonView::Unsigned(window.used_percent as u64),
            ).insert(
                "windowDurationMins"@,
                JsonView::Unsigned(window.window_duration_mins as u64),
            ).insert("resetsAt"@, JsonView::Unsigned(window.resets_at)),
        ),
        None => JsonView::Null,
    }
}

fn window_json(window: &Option<RateLimitWindow>) -> (json: Json)
    ensures
        json@ == window_document(*window),
{
    match window {
        Some(window) => {
            let mut object = JsonObject::new();
            object.insert("usedPercent", Json::unsigned(window.used_percent as u64));
            object.insert("windowDurationMins", Json::unsigned(window.window_duration_mins as u64));
            object.insert("resetsAt", Json::unsigned(window.resets_at));
            Json::Object(object)
        },
        None => Json::Null,
    }
}

/// A rate limit of the subscription.
pub open spec fn limit_document(limit: LimitView) -> JsonView {
    JsonView::Object(
        Map::empty().insert("limitId"@, JsonView::Text(limit.limit_id)).insert(
            "limitName"@,
            text_or_null(limit.limit_name),
        ).insert("primary"@, window_document(limit.primary)).insert(
            "secondary"@,
            window_document(limit.secondary),
        ).insert("planType"@, text_or_null(limit.plan_type)).insert(
            "rateLimitReachedType"@,
            text_or_null(limit.rate_limit_reached_type),
        ),
    )
}

fn limit_json(limit: &RateLimit) -> (json: Json)
    ensures
        json@ == limit_document(limit@),
{
    let mut object = JsonObject::new();
    object.insert("limitId", Json::string(limit.limit_id.as_str()));
    object.insert("limitName", text_json(&limit.limit_name));
    object.insert("primary", window_json(&limit.primary));
    object.insert("secondary", window_json(&limit.secondary));
    object.insert("planType", text_json(&limit.plan_type));
    object.insert("rateLimitReachedType", text_json(&limit.rate_limit_reached_type));
    Json::Object(object)
}

/// What is known of the quota.
pub open spec fn quota_document(quota: QuotaView) -> JsonView {
    JsonView::Object(
        Map::empty().insert("source"@, JsonView::Text(quota.source)).insert(
            "state"@,
            JsonView::Text(quota.state),
        ).insert("stale"@, JsonView::Bool(quota.stale)).insert(
            "fetched_at_unix_secs"@,
            number_or_null(quota.fetched_at_unix_secs),
        ).insert(
            "rate_limit"@,
            match quota.rate_limit {
                Some(limit) => limit_document(limit),
                None => JsonView::Null,
            },
        ).insert("error"@, text_or_null(quota.error)),
    )
}

/// Writes what is known of the quota.
pub fn quota_json(quota: &QuotaSnapshot) -> (json: Json)
    ensures
        json@ == quota_document(quota@),
{
    let limit = match &quota.rate_limit {
        Some(limit) => limit_json(limit),
        None => Json::Null,
    };
    let error = match quota.error {
        Some(error) => Json::string(error),
        None => Json::Null,
    };
    let mut object = JsonObject::new();
    object.insert("source", Json::string(quota.source));
    object.insert("state", Json::string(quota.state));
    object.insert("stale", Json::Bool(quota.stale));
    object.insert("fetched_at_unix_secs", number_json(quota.fetched_at_unix_secs));
    object.insert("rate_limit", limit);
    object.insert("error", error);
    Json::Object(object)
}

} // verus!
