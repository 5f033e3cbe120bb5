//! What the bridge counts and observes of the requests that it serves.
use vstd::prelude::*;

use crate::headers::{field_text, fields_view, header_text, FieldView, HeaderField};
use crate::stream::ObservedUsage;
use crate::text::{copy_text, optional_text, owned, same_text};

verus! {

/// A request that has ended.
#[derive(Debug)]
pub struct RequestObservation {
    pub request_id: String,
    pub model: String,
    pub effort: String,
    pub outcome: String,
    pub duration_ms: u128,
    pub time_to_first_event_ms: Option<u128>,
    pub observed_at_unix_secs: u64,
}

/// What the observation of a request holds.
pub struct RequestView {
    pub request_id: Seq<char>,
    pub model: Seq<char>,
    pub effort: Seq<char>,
    pub outcome: Seq<char>,
    pub duration_ms: u128,
    pub time_to_first_event_ms: Option<u128>,
    pub observed_at_unix_secs: u64,
}

impl View for RequestObservation {
    type V = RequestView;

    open spec fn view(&self) -> RequestView {
        RequestView {
            request_id: self.request_id@,
            model: self.model@,
            effort: self.effort@,
            outcome: self.outcome@,
            duration_ms: self.duration_ms,
            time_to_first_event_ms: self.time_to_first_event_ms,
            observed_at_unix_secs: self.observed_at_unix_secs,
        }
    }
}

impl Clone for RequestObservation {
    fn clone(&self) -> (copy: RequestObservation)
        ensures
            copy@ == self@,
    {
        RequestObservation {
            request_id: self.request_id.clone(),
            model: self.model.clone(),
            effort: self.effort.clone(),
            outcome: self.outcome.clone(),
            duration_ms: self.duration_ms,
            time_to_first_event_ms: self.time_to_first_event_ms,
            observed_at_unix_secs: self.observed_at_unix_secs,
        }
    }
}

/// The tokens that a response used, and when that was seen.
#[derive(Clone, Copy, Debug, PartialEq, Eq)]
pub struct UsageObservation {
    pub input_tokens: Option<u64>,
    pub output_tokens: Option<u64>,
    pub total_tokens: Option<u64>,
    pub observed_at_unix_secs: u64,
}

impl Default for UsageObservation {
    fn default() -> (usage: UsageObservation)
        ensures
            usage == (UsageObservation {
                input_tokens: None,
                output_tokens: None,
                total_tokens: None,
                observed_at_unix_secs: 0,
            }),
    {
        UsageObservation {
            input_tokens: None,
            output_tokens: None,
            total_tokens: None,
            observed_at_unix_secs: 0,
        }
    }
}

/// The rate limits that the last response named in its headers.
#[derive(Debug)]
pub struct RateLimitObservation {
    pub requests_remaining: Option<String>,
    pub tokens_remaining: Option<String>,
    pub requests_reset: Option<String>,
    pub tokens_reset: Option<String>,
}

/// What the observation of rate limits holds.
pub struct LimitsView {
    pub requests_remaining: Option<Seq<char>>,
    pub tokens_remaining: Option<Seq<char>>,
    pub requests_reset: Option<Seq<char>>,
    pub tokens_reset: Option<Seq<char>>,
}

impl View for RateLimitObservation {
    type V = LimitsView;

    open spec fn view(&self) -> LimitsView {
        LimitsView {
            requests_remaining: optional_text(self.requests_remaining),
            tokens_remaining: optional_text(self.tokens_remaining),
            requests_reset: optional_text(self.requests_reset),
            tokens_reset: optional_text(self.tokens_reset),
        }
    }
}

/// The rate limits that headers name.
pub open spec fn limits_of(headers: Seq<FieldView>) -> LimitsView {
    LimitsView {
        requests_remaining: field_text(headers, "x-ratelimit-remaining-requests"@),
        tokens_remaining: field_text(headers, "x-ratelimit-remaining-tokens"@),
        requests_reset: field_text(headers, "x-ratelimit-reset-requests"@),
        tokens_reset: field_text(headers, "x-ratelimit-reset-tokens"@),
    }
}

impl Clone for RateLimitObservation {
    fn clone(&self) -> (copy: RateLimitObservation)
        ensures
            copy@ == self@,
    {
        RateLimitObservation {
            requests_remaining: copy_text(&self.requests_remaining),
            tokens_remaining: copy_text(&self.tokens_remaining),
            requests_reset: copy_text(&self.requests_reset),
            tokens_reset: copy_text(&self.tokens_reset),
        }
    }
}

impl Default for RateLimitObservation {
    fn default() -> (limits: RateLimitObservation)
        ensures
            limits@ == (LimitsView {
                requests_remaining: None,
                tokens_remaining: None,
                requests_reset: None,
                tokens_reset: None,
            }),
    {
        RateLimitObservation {
            requests_remaining: None,
            tokens_remaining: None,
            requests_reset: None,
            tokens_reset: None,
        }
    }
}

/// The counts of requests and streams.
#[derive(Clone, Copy, Debug, PartialEq, Eq)]
pub struct RequestCounters {
    pub total: u64,
    pub succeeded: u64,
    pub failed: u64,
    pub active_streams: u64,
    pub cancelled_streams: u64,
    pub truncated_streams: u64,
    pub auth_refreshes: u64,
}

/// The tokens that were used in all.
#[derive(Clone, Copy, Debug, PartialEq, Eq)]
pub struct BridgeUsageSnapshot {
    pub input_tokens: u64,
    pub output_tokens: u64,
    pub total_tokens: u64,
    pub latest: Option<UsageObservation>,
}

/// What the bridge says of itself.
#[derive(Debug)]
pub struct StatusSnapshot {
    pub status: &'static str,
    pub bridge_observed_usage: BridgeUsageSnapshot,
    pub rate_limits: RateLimitObservation,
    pub requests: RequestCounters,
    pub latest_request: Option<RequestObservation>,
    pub note: &'static str,
}

/// What a snapshot holds.
pub struct SnapshotView {
    pub status: Seq<char>,
    pub bridge_observed_usage: BridgeUsageSnapshot,
    pub rate_limits: LimitsView,
    pub requests: RequestCounters,
    pub latest_request: Option<RequestView>,
    pub note: Seq<char>,
}

/// What an optional observation of a request holds.
pub open spec fn optional_request(request: Option<RequestObservation>) -> Option<RequestView> {
    match request {
        Some(request) => Some(request@),
        None => None,
    }
}

impl View for StatusSnapshot {
    type V = SnapshotView;

    open spec fn view(&self) -> SnapshotView {
        SnapshotView {
            status: self.status@,
            bridge_observed_usage: self.bridge_observed_usage,
            rate_limits: self.rate_limits@,
            requests: self.requests,
            latest_request: optional_request(self.latest_request),
            note: self.note@,
        }
    }
}

/// The counters and the last observations.
#[derive(Debug)]
pub struct Metrics {
    requests: RequestCounters,
    usage: BridgeUsageSnapshot,
    ready: bool,
    latest: Option<RequestObservation>,
    rate_limits: RateLimitObservation,
}

/// What the metrics hold.
pub struct MetricsView {
    pub requests: RequestCounters,
    pub usage: BridgeUsageSnapshot,
    pub ready: bool,
    pub latest: Option<RequestView>,
    pub rate_limits: LimitsView,
}

impl View for Metrics {
    type V = MetricsView;

    closed spec fn view(&self) -> MetricsView {
        MetricsView {
            requests: self.requests,
            usage: self.usage,
            ready: self.ready,
            latest: optional_request(self.latest),
            rate_limits: self.rate_limits@,
        }
    }
}

/// A stream that is being served.
#[derive(Debug, PartialEq, Eq)]
pub struct ActiveStream {
    pub finished: bool,
}

impl ActiveStream {
    /// Marks the stream as served to its end.
    pub fn finish(&mut self)
        ensures
            final(self).finished,
    {
        self.finished = true;
    }
}

/// A counter holds 64 bits.
pub open spec fn wrapped(n: int) -> u64 {
    (n % 0x1_0000_0000_0000_0000) as u64
}

/// A counter with an optional number added.
pub open spec fn plus(counter: u64, tokens: Option<u64>) -> u64 {
    match tokens {
        Some(tokens) => wrapped(counter + tokens),
        None => counter,
    }
}

fn add_tokens(counter: u64, tokens: Option<u64>) -> (sum: u64)
    ensures
        sum == plus(counter, tokens),
{
    match tokens {
        Some(tokens) => counter.wrapping_add(tokens),
        None => counter,
    }
}

/// The counters once a request has ended with an outcome.
pub open spec fn counted(requests: RequestCounters, outcome: Seq<char>) -> RequestCounters {
    if outcome == "completed"@ {
        RequestCounters { succeeded: wrapped(requests.succeeded + 1), ..requests }
    } else if outcome == "cancelled"@ {
        RequestCounters { cancelled_streams: wrapped(requests.cancelled_streams + 1), ..requests }
    } else if outcome == "truncated"@ {
        RequestCounters { truncated_streams: wrapped(requests.truncated_streams + 1), ..requests }
    } else {
        RequestCounters { failed: wrapped(requests.failed + 1), ..requests }
    }
}

/// The counters once a stream has been started.
pub open spec fn with_stream(requests: RequestCounters) -> RequestCounters {
    RequestCounters { active_streams: wrapped(requests.active_streams + 1), ..requests }
}

/// The counters once a stream is gone. One that was not served to its end was
/// cancelled.
pub open spec fn without_stream(requests: RequestCounters, finished: bool) -> RequestCounters {
    RequestCounters {
        active_streams: wrapped(requests.active_streams - 1),
        cancelled_streams: if finished {
            requests.cancelled_streams
        } else {
            wrapped(requests.cancelled_streams + 1)
        },
        ..requests
    }
}

/// The usage once a response has reported its own.
pub open spec fn with_usage(
    usage: BridgeUsageSnapshot,
    seen: ObservedUsage,
    now: u64,
) -> BridgeUsageSnapshot {
    BridgeUsageSnapshot {
        input_tokens: plus(usage.input_tokens, seen.input_tokens),
        output_tokens: plus(usage.output_tokens, seen.output_tokens),
        total_tokens: plus(usage.total_tokens, seen.total_tokens),
        latest: Some(
            UsageObservation {
                input_tokens: seen.input_tokens,
                output_tokens: seen.output_tokens,
                total_tokens: seen.total_tokens,
                observed_at_unix_secs: now,
            },
        ),
    }
}

impl Default for Metrics {
    /// Metrics of a bridge that is ready and has served nothing yet.
    fn default() -> (metrics: Metrics)
        ensures
            metrics@ == (MetricsView {
                requests: RequestCounters {
                    total: 0,
                    succeeded: 0,
                    failed: 0,
                    active_streams: 0,
                    cancelled_streams: 0,
                    truncated_streams: 0,
                    auth_refreshes: 0,
                },
                usage: BridgeUsageSnapshot {
                    input_tokens: 0,
                    output_tokens: 0,
                    total_tokens: 0,
                    latest: None,
                },
                ready: true,
                latest: None,
                rate_limits: LimitsView {
                    requests_remaining: None,
                    tokens_remaining: None,
                    requests_reset: None,
                    tokens_reset: None,
                },
            }),
    {
        Metrics {
            requests: RequestCounters {
                total: 0,
                succeeded: 0,
                failed: 0,
                active_streams: 0,
                cancelled_streams: 0,
                truncated_streams: 0,
                auth_refreshes: 0,
            },
            usage: BridgeUsageSnapshot {
                input_tokens: 0,
                output_tokens: 0,
                total_tokens: 0,
                latest: None,
            },
            ready: true,
            latest: None,
            rate_limits: RateLimitObservation::default(),
        }
    }
}

impl Metrics {
    /// Counts a request that has come in.
    pub fn record_request_start(&mut self)
        ensures
            final(self)@ == (MetricsView {
                requests: RequestCounters {
                    total: wrapped(old(self)@.requests.total + 1),
                    ..old(self)@.requests
                },
                ..old(self)@
            }),
    {
        self.requests.total = self.requests.total.wrapping_add(1);
    }

    /// Counts a stream that has been started.
    pub fn record_stream_start(&mut self) -> (stream: ActiveStream)
        ensures
            !stream.finished,
            final(self)@ == (MetricsView { requests: with_stream(old(self)@.requests), ..old(self)@ }),
    {
        self.requests.active_streams = self.requests.active_streams.wrapping_add(1);
        ActiveStream { finished: false }
    }

    /// Counts a stream that is gone.
    pub fn release_stream(&mut self, stream: ActiveStream)
        ensures
            final(self)@ == (MetricsView {
                requests: without_stream(old(self)@.requests, stream.finished),
                ..old(self)@
            }),
    {
        self.requests.active_streams = self.requests.active_streams.wrapping_sub(1);
        if !stream.finished {
            self.requests.cancelled_streams = self.requests.cancelled_streams.wrapping_add(1);
        }
    }

    /// Notes how often the session has been refreshed.
    pub fn record_auth_refreshes(&mut self, count: u64)
        ensures
            final(self)@ == (MetricsView {
                requests: RequestCounters { auth_refreshes: count, ..old(self)@.requests },
                ..old(self)@
            }),
    {
        self.requests.auth_refreshes = count;
    }

    /// Counts a request that has ended, and keeps what was observed of it.
    pub fn record_outcome(
        &mut self,
        request_id: String,
        model: String,
        effort: String,
        outcome: &str,
        duration_ms: u128,
        time_to_first_event_ms: Option<u128>,
        now: u64,
    )
        ensures
            final(self)@ == (MetricsView {
                requests: counted(old(self)@.requests, outcome@),
                latest: Some(
                    RequestView {
                        request_id: request_id@,
                        model: model@,
                        effort: effort@,
                        outcome: outcome@,
                        duration_ms,
                        time_to_first_event_ms,
                        observed_at_unix_secs: now,
                    },
                ),
                ..old(self)@
            }),
    {
        if same_text(outcome, "completed") {
            self.requests.succeeded = self.requests.succeeded.wrapping_add(1);
        } else if same_text(outcome, "cancelled") {
            self.requests.cancelled_streams = self.requests.cancelled_streams.wrapping_add(1);
        } else if same_text(outcome, "truncated") {
            self.requests.truncated_streams = self.requests.truncated_streams.wrapping_add(1);
        } else {
            self.requests.failed = self.requests.failed.wrapping_add(1);
        }
        self.latest = Some(
            RequestObservation {
                request_id,
                model,
                effort,
                outcome: outcome.to_owned(),
                duration_ms,
                time_to_first_event_ms,
                observed_at_unix_secs: now,
            },
        );
    }

    /// Adds the tokens that a response used.
    pub fn record_usage(&mut self, usage: ObservedUsage, now: u64)
        ensures
            final(self)@ == (MetricsView {
                usage: with_usage(old(self)@.usage, usage, now),
                ..old(self)@
            }),
    {
        self.usage = BridgeUsageSnapshot {
            input_tokens: add_tokens(self.usage.input_tokens, usage.input_tokens),
            output_tokens: add_tokens(self.usage.output_tokens, usage.output_tokens),
            total_tokens: add_tokens(self.usage.total_tokens, usage.total_tokens),
            latest: Some(
                UsageObservation {
                    input_tokens: usage.input_tokens,
                    output_tokens: usage.output_tokens,
                    total_tokens: usage.total_tokens,
                    observed_at_unix_secs: now,
                },
            ),
        };
    }

    /// Keeps the rate limits that a response names in its headers.
    pub fn record_rate_limits(&mut self, headers: &Vec<HeaderField>)
        ensures
            final(self)@ == (MetricsView {
                rate_limits: limits_of(fields_view(headers@)),
                ..old(self)@
            }),
    {
        self.rate_limits = RateLimitObservation {
            requests_remaining: owned(header_text(headers, "x-ratelimit-remaining-requests")),
            tokens_remaining: owned(header_text(headers, "x-ratelimit-remaining-tokens")),
            requests_reset: owned(header_text(headers, "x-ratelimit-reset-requests")),
            tokens_reset: owned(header_text(headers, "x-ratelimit-reset-tokens")),
        };
    }

    /// Notes whether the bridge is ready.
    pub fn set_ready(&mut self, ready: bool)
        ensures
            final(self)@ == (MetricsView { ready, ..old(self)@ }),
    {
        self.ready = ready;
    }

    /// What the bridge says of itself.
    pub fn snapshot(&self) -> (snapshot: StatusSnapshot)
        ensures
            snapshot@ == (SnapshotView {
                status: if self@.ready {
                    "ready"@
                } else {
                    "draining"@
                },
                bridge_observed_usage: self@.usage,
                rate_limits: self@.rate_limits,
                requests: self@.requests,
                latest_request: self@.latest,
                note: "Usage is observed from Codex Responses events and headers; it is not a subscription-quota API."@,
            }),
    {
        let latest_request = match &self.latest {
            Some(request) => Some(request.clone()),
            None => None,
        };
        StatusSnapshot {
            status: if self.ready {
                "ready"
            } else {
                "draining"
            },
            bridge_observed_usage: self.usage,
            rate_limits: self.rate_limits.clone(),
            requests: self.requests,
            latest_request,
            note: "Usage is observed from Codex Responses events and headers; it is not a subscription-quota API.",
        }
    }
}

/// A stream that is started and then gone leaves the count of active streams as
/// it was, and no other counter but that of cancelled streams changes.
pub proof fn lemma_streams_balance(requests: RequestCounters, finished: bool)
    ensures
        without_stream(with_stream(requests), finished) == (RequestCounters {
            cancelled_streams: if finished {
                requests.cancelled_streams
            } else {
                wrapped(requests.cancelled_streams + 1)
            },
            ..requests
        }),
{
}

proof fn lemma_counting_wraps(counter: u64, others: int)
    requires
        others >= 0,
    ensures
        wrapped(wrapped(counter + 1) + others) == wrapped(counter + others + 1),
{
    if counter == u64::MAX {
        vstd::arithmetic::div_mod::lemma_mod_add_multiples_vanish(
            others,
            0x1_0000_0000_0000_0000,
        );
    }
}

/// Every outcome is counted exactly once.
pub proof fn lemma_every_outcome_counts_once(requests: RequestCounters, outcome: Seq<char>)
    ensures
        ({
            let after = counted(requests, outcome);
            wrapped(
                after.succeeded + after.failed + after.cancelled_streams + after.truncated_streams,
            ) == wrapped(
                requests.succeeded + requests.failed + requests.cancelled_streams
                    + requests.truncated_streams + 1,
            )
        }),
        counted(requests, outcome).total == requests.total,
        counted(requests, outcome).active_streams == requests.active_streams,
        counted(requests, outcome).auth_refreshes == requests.auth_refreshes,
{
    let RequestCounters { succeeded, failed, cancelled_streams, truncated_streams, .. } = requests;
    lemma_counting_wraps(succeeded, failed + cancelled_streams + truncated_streams);
    lemma_counting_wraps(cancelled_streams, succeeded + failed + truncated_streams);
    lemma_counting_wraps(truncated_streams, succeeded + failed + cancelled_streams);
    lemma_counting_wraps(failed, succeeded + cancelled_streams + truncated_streams);
}

} // verus!
