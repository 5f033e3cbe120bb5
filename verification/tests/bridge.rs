use codex_for_grok::auth::{
    apply_refresh, auth_file_bytes, check_auth_permissions, find_second_part, load_auth,
    merge_refresh, refresh_form, refresh_if_unchanged, session, session_from_auth,
    temporary_name, token_expires_soon, AuthError, RefreshReply, RefreshResponse, RefreshStep,
    Session, SessionStep, WriteStep, OWNER_MODE,
};
use codex_for_grok::clock::{monotonic_nanos, unix_seconds};
use codex_for_grok::cli::{
    asks_manager, doctor, fetch_identity, identity_url, out, status as status_command, Action,
    AuthProbe, Cli, Findings, IdentityReply,
};
use codex_for_grok::codec::{parse_text, render_text};
use codex_for_grok::config::{host_text, Config, Environment, HostAddress};
use codex_for_grok::flow::{
    response_headers, upstream_headers, RequestFlow, ResponseHead,
};
use codex_for_grok::headers::HeaderField;
use codex_for_grok::json::Json;
use codex_for_grok::metrics::{
    Metrics, RateLimitObservation, RequestCounters, UsageObservation,
};
use codex_for_grok::ownership::{owned_block, Manifest, OwnedFile, SOL};
use codex_for_grok::quota::{
    after_session, announces_update, next_delay, opening_lines, rate_limit_source, stale_code,
    QuotaError, QuotaSnapshot, RateLimit, RateLimitWindow, ServerAction, ServerEvent,
    ServerSession, SessionEnd,
};
use codex_for_grok::server::{
    health, loopback_only, models, ready, request_metadata, status, validate_content_length,
    UpstreamError,
};
use codex_for_grok::stream::ObservedUsage;

fn json(text: &str) -> Json {
    parse_text(text).expect("test JSON is valid")
}

const HOME: HostAddress = HostAddress::V4 { octets: [127, 0, 0, 1] };
const STRANGER: HostAddress = HostAddress::V4 { octets: [10, 0, 0, 1] };

#[test]
fn refresh_preserves_unrelated_auth_fields() {
    let auth = json(
        r#"{
            "auth_mode": "chatgpt",
            "tokens": {"access_token": "old", "refresh_token": "keep", "account_id": "account"}
        }"#,
    );
    let refreshed = RefreshResponse {
        access_token: "new".to_owned(),
        refresh_token: None,
        id_token: Some("id".to_owned()),
    };
    let updated = merge_refresh(auth, &refreshed).expect("merge succeeds");
    assert_eq!(updated.text_field("auth_mode"), Some("chatgpt"));
    let tokens = updated.get("tokens").expect("tokens are there");
    assert_eq!(tokens.text_field("access_token"), Some("new"));
    assert_eq!(tokens.text_field("refresh_token"), Some("keep"));
    assert_eq!(tokens.text_field("id_token"), Some("id"));
}

fn logged_in() -> &'static str {
    r#"{"tokens": {"access_token": "a.b.c", "refresh_token": "r", "account_id": "acc"}}"#
}

#[test]
fn the_authentication_file_is_read_with_care() {
    let cases = [
        (None, Some(logged_in()), AuthError::Missing),
        (Some(0o100644), Some(logged_in()), AuthError::InsecurePermissions),
        (Some(0o100600), None, AuthError::Missing),
        (Some(0o100600), Some("{"), AuthError::Invalid),
        (Some(0o100600), Some("{}"), AuthError::Invalid),
        (Some(0o100600), Some(r#"{"tokens": {"access_token": ""}}"#), AuthError::Missing),
        (Some(0o100600), Some(r#"{"tokens": {"access_token": "a"}}"#), AuthError::Missing),
    ];
    for (mode, content, error) in cases {
        assert_eq!(load_auth(mode, content), Err(error));
    }
    let (_, session) = load_auth(Some(0o100600), Some(logged_in())).expect("file is valid");
    assert_eq!(session.access_token, "a.b.c");
    assert_eq!(session.account_id, "acc");
    assert_eq!(check_auth_permissions(Some(0o100700)), Ok(()));
    assert_eq!(check_auth_permissions(Some(0o100601)), Err(AuthError::InsecurePermissions));
}

#[test]
fn errors_of_authentication_have_their_texts() {
    assert_eq!(AuthError::Missing.message(), "Codex auth is unavailable; run `codex login`");
    assert_eq!(
        AuthError::InsecurePermissions.message(),
        "Codex auth file permissions must be owner-only (0600)"
    );
    assert_eq!(AuthError::Invalid.message(), "Codex auth file is invalid");
    assert_eq!(AuthError::Refresh.message(), "Codex session refresh failed");
    assert_eq!(AuthError::Write.message(), "Codex auth file could not be updated securely");
}

/// The token's middle part holds `{"exp":1000}`.
const TOKEN: &str = "head.eyJleHAiOjEwMDB9.tail";

#[test]
fn tokens_say_when_they_expire() {
    assert!(token_expires_soon(TOKEN, 880));
    assert!(!token_expires_soon(TOKEN, 879));
    assert!(token_expires_soon(TOKEN, u64::MAX));
    for token in ["", "a", "a.", "a.!!!.c", "a.e30.c", "a.bm9wZQ.c"] {
        assert!(!token_expires_soon(token, u64::MAX), "{token}");
    }
    assert_eq!(find_second_part("a.b.c"), Some("b"));
    assert_eq!(find_second_part("a."), Some(""));
    assert_eq!(find_second_part("é.ü"), Some("ü"));
    assert_eq!(find_second_part("abc"), None);
}

#[test]
fn a_session_is_refreshed_before_it_expires() {
    let text = format!(r#"{{"tokens": {{"access_token": "{TOKEN}", "account_id": "acc"}}}}"#);
    let load = || load_auth(Some(0o600), Some(&text));
    assert_eq!(
        session(load(), 900),
        SessionStep::Refresh { failed_token: TOKEN.to_owned() }
    );
    assert!(matches!(session(load(), 10), SessionStep::Finished(Ok(_))));
    assert_eq!(
        session(Err(AuthError::Invalid), 10),
        SessionStep::Finished(Err(AuthError::Invalid))
    );
    assert_eq!(
        refresh_if_unchanged(load(), Some(TOKEN)),
        RefreshStep::Finished(Err(AuthError::Missing))
    );
}

#[test]
fn a_session_that_was_changed_meanwhile_is_used() {
    let load = || load_auth(Some(0o600), Some(logged_in()));
    assert!(matches!(
        refresh_if_unchanged(load(), Some("another")),
        RefreshStep::Finished(Ok(session)) if session.access_token == "a.b.c"
    ));
    for failed in [None, Some("a.b.c")] {
        assert!(matches!(
            refresh_if_unchanged(load(), failed),
            RefreshStep::Post { refresh_token, .. } if refresh_token == "r"
        ));
    }
    assert_eq!(
        refresh_form("r"),
        vec![
            ("grant_type".to_owned(), "refresh_token".to_owned()),
            ("refresh_token".to_owned(), "r".to_owned()),
            ("client_id".to_owned(), "app_EMoamEEZ73f0CkXaXp7hrann".to_owned()),
        ]
    );
}

#[test]
fn the_reply_to_a_refresh_is_checked() {
    let tokens = |access: &str| RefreshReply::Tokens(RefreshResponse {
        access_token: access.to_owned(),
        refresh_token: Some("r2".to_owned()),
        id_token: None,
    });
    for reply in [
        RefreshReply::Unreachable,
        RefreshReply::Refused,
        RefreshReply::Malformed,
        tokens(""),
    ] {
        assert_eq!(apply_refresh(json(logged_in()), reply), Err(AuthError::Refresh));
    }
    assert_eq!(apply_refresh(json("[]"), tokens("new")), Err(AuthError::Invalid));
    let (updated, session) =
        apply_refresh(json(logged_in()), tokens("new")).expect("refresh succeeds");
    assert_eq!(session.access_token, "new");
    assert_eq!(session_from_auth(&updated), Ok(session));
    assert_eq!(
        auth_file_bytes(&json(r#"{"a":[1]}"#)),
        Ok(b"{\n  \"a\": [\n    1\n  ]\n}\n".to_vec())
    );
    assert_eq!(temporary_name(7, 1234), ".auth.json.bridge-7.1234");
}

#[test]
fn a_refreshed_session_is_loaded_from_what_was_written() {
    let reply = RefreshReply::Tokens(RefreshResponse {
        access_token: "line\nbreak \"quote\" \u{e9}".to_owned(),
        refresh_token: Some("next".to_owned()),
        id_token: None,
    });
    let (updated, session) =
        apply_refresh(json(logged_in()), reply).expect("refresh succeeds");
    let bytes = auth_file_bytes(&updated).expect("document can be written");
    let content = String::from_utf8(bytes).expect("file is a text");
    assert_eq!(load_auth(Some(0o100600), Some(&content)), Ok((updated, session)));
}

#[test]
fn files_of_their_owner_pass_the_check() {
    assert_eq!(check_auth_permissions(Some(OWNER_MODE)), Ok(()));
    assert_eq!(check_auth_permissions(Some(0o100000 + OWNER_MODE)), Ok(()));
    assert_eq!(
        check_auth_permissions(Some(OWNER_MODE + 0o040)),
        Err(AuthError::InsecurePermissions)
    );
}

#[test]
fn nesting_is_read_back_to_its_limit() {
    let nested = format!("{}7{}", "[".repeat(127), "]".repeat(127));
    let document = json(&nested);
    let bytes = auth_file_bytes(&document).expect("document can be written");
    let content = String::from_utf8(bytes).expect("file is a text");
    assert_eq!(parse_text(&content), Some(document));
    assert_eq!(parse_text(&format!("[{nested}]")), None);
}

#[test]
fn the_authentication_file_is_written_step_by_step() {
    let mut step = WriteStep::CheckFile.with_mode(Some(0o600));
    let mut count = 0;
    while step != WriteStep::CheckResult {
        step = step.advance(true);
        count += 1;
    }
    assert_eq!(count, 9);
    assert_eq!(step.with_mode(Some(0o600)), WriteStep::Unlock(Ok(())));
    assert_eq!(WriteStep::Unlock(Ok(())).advance(false), WriteStep::Finished(Ok(())));
    let undone = step.with_mode(Some(0o640));
    assert_eq!(undone, WriteStep::RemoveTemporary(AuthError::InsecurePermissions));
    assert_eq!(
        undone.advance(false).advance(true),
        WriteStep::Finished(Err(AuthError::InsecurePermissions))
    );
    assert_eq!(
        WriteStep::Rename.advance(false),
        WriteStep::RemoveTemporary(AuthError::Write)
    );
    assert_eq!(WriteStep::Lock.advance(false), WriteStep::Finished(Err(AuthError::Write)));
    assert_eq!(
        WriteStep::CheckFile.with_mode(None),
        WriteStep::Finished(Err(AuthError::Missing))
    );
}

#[test]
fn clocks_before_the_epoch_read_zero() {
    assert_eq!(unix_seconds(None), 0);
    assert_eq!(unix_seconds(Some(5)), 5);
    assert_eq!(monotonic_nanos(None), 0);
    assert_eq!(monotonic_nanos(Some(1 << 70)), 1 << 70);
}

fn empty_environment() -> Environment {
    Environment {
        host: None,
        port: None,
        max_body_bytes: None,
        max_streams: None,
        upstream_idle_timeout: None,
        drain_timeout: None,
        upstream_url: None,
        auth_path: None,
        home: Some(b"/home/u".to_vec()),
    }
}

#[test]
fn the_defaults_are_a_configuration() {
    assert_eq!(host_text(&empty_environment()), "127.0.0.1");
    let config = Config::from_env(empty_environment(), Ok(HOME)).expect("defaults are valid");
    let expected = Config { auth_path: b"/home/u/.codex/auth.json".to_vec(), ..Config::for_test() };
    assert_eq!(config, expected);
    assert_eq!(config.port, 18_474);
    assert_eq!(config.max_body_bytes, 4 * 1024 * 1024);
    assert_eq!(config.max_streams, 16);
    assert_eq!(config.upstream_idle_timeout, 180);
    assert_eq!(config.drain_timeout, 30);
}

#[test]
fn a_wrong_environment_is_refused() {
    let some = |text: &str| Some(text.to_owned());
    let cases = [
        (Environment { port: some("65536"), ..empty_environment() },
         "CODEX_FOR_GROK_PORT must be a valid value: number too large to fit in target type"),
        (Environment { port: some(""), ..empty_environment() },
         "CODEX_FOR_GROK_PORT must be a valid value: cannot parse integer from empty string"),
        (Environment { max_body_bytes: some("-1"), ..empty_environment() },
         "CODEX_FOR_GROK_MAX_BODY_BYTES must be a valid value: invalid digit found in string"),
        (Environment { max_streams: some("0"), ..empty_environment() },
         "bridge request and stream limits must be greater than zero"),
        (Environment { upstream_idle_timeout: some("x"), ..empty_environment() },
         "CODEX_FOR_GROK_UPSTREAM_IDLE_TIMEOUT_SECS must be a valid value: invalid digit found in string"),
        (Environment { drain_timeout: some(" 1"), ..empty_environment() },
         "CODEX_FOR_GROK_DRAIN_TIMEOUT_SECS must be a valid value: invalid digit found in string"),
        (Environment { upstream_url: some("http://example.com"), ..empty_environment() },
         "CODEX_FOR_GROK_UPSTREAM_URL must use HTTPS"),
        (Environment { upstream_url: some("nonsense"), ..empty_environment() },
         "invalid CODEX_FOR_GROK_UPSTREAM_URL: relative URL without a base"),
        (Environment { home: None, ..empty_environment() },
         "could not determine the Codex auth path"),
    ];
    for (environment, message) in cases {
        assert_eq!(Config::from_env(environment, Ok(HOME)), Err(message.to_owned()));
    }
    assert_eq!(
        Config::from_env(empty_environment(), Ok(STRANGER)),
        Err("CODEX_FOR_GROK_HOST must be a loopback address".to_owned())
    );
    assert_eq!(
        Config::from_env(empty_environment(), Err("invalid IP address syntax".to_owned())),
        Err("CODEX_FOR_GROK_HOST must be an IP address: invalid IP address syntax".to_owned())
    );
    let environment = Environment {
        port: some("+80"),
        max_streams: some("007"),
        auth_path: Some(b"/a".to_vec()),
        home: None,
        ..empty_environment()
    };
    let config = Config::from_env(environment, Ok(HOME)).expect("values are valid");
    assert_eq!((config.port, config.max_streams, config.auth_path), (80, 7, b"/a".to_vec()));
}

#[test]
fn only_the_machine_itself_is_served() {
    let v6 = |segments| HostAddress::V6 { segments };
    assert!(HOME.is_loopback());
    assert!(HostAddress::V4 { octets: [127, 9, 8, 7] }.is_loopback());
    assert!(!STRANGER.is_loopback());
    assert!(v6([0, 0, 0, 0, 0, 0, 0, 1]).is_loopback());
    assert!(!v6([0, 0, 0, 0, 0, 0xffff, 0x7f00, 1]).is_loopback());
    assert_eq!(loopback_only(&HOME), None);
    let refusal = loopback_only(&STRANGER).expect("strangers are refused");
    assert_eq!(refusal.status, 403);
    assert_eq!(
        render_text(&refusal.body),
        r#"{"error":{"code":"loopback_only","message":"The Codex bridge only accepts loopback connections"}}"#
    );
    assert_eq!(health(&STRANGER), refusal);
    assert_eq!(models(&STRANGER), refusal);
    assert_eq!(ready(&STRANGER, &Ok(())), (refusal, None));
}

#[test]
fn endpoints_reply() {
    let reply = health(&HOME);
    assert_eq!(reply.status, 200);
    assert_eq!(
        render_text(&reply.body),
        r#"{"ok":true,"service":"codex-for-grok","version":"0.1.2"}"#
    );
    assert_eq!(
        render_text(&models(&HOME).body),
        r#"{"data":[{"id":"gpt-5.6-sol","object":"model"},{"id":"gpt-5.6-terra","object":"model"}],"object":"list"}"#
    );
    let (reply, mark) = ready(&HOME, &Ok(()));
    assert_eq!((reply.status, mark), (200, Some(true)));
    assert_eq!(render_text(&reply.body), r#"{"auth":"ready","ok":true}"#);
    let (reply, mark) = ready(&HOME, &Err(AuthError::Missing));
    assert_eq!((reply.status, mark), (503, Some(false)));
}

#[test]
fn the_status_is_a_document() {
    let mut metrics = Metrics::default();
    metrics.record_request_start();
    metrics.record_usage(
        ObservedUsage { input_tokens: Some(1), output_tokens: None, total_tokens: Some(3) },
        50,
    );
    metrics.record_outcome(
        "id".to_owned(),
        "m".to_owned(),
        "low".to_owned(),
        "completed",
        12,
        Some(3),
        51,
    );
    metrics.record_rate_limits(&vec![
        HeaderField { name: "x-ratelimit-remaining-tokens".into(), value: Some("9".into()) },
        HeaderField { name: "x-ratelimit-remaining-tokens".into(), value: Some("8".into()) },
        HeaderField { name: "x-ratelimit-reset-tokens".into(), value: None },
    ]);
    let mut quota = QuotaSnapshot::default();
    quota.mark_ready(rate_limit(), 60);
    let body = status(&HOME, &metrics.snapshot(), &quota).body;
    assert_eq!(
        body,
        json(
            r#"{
                "service": "codex-for-grok",
                "version": "0.1.2",
                "bridge": {
                    "status": "ready",
                    "bridge_observed_usage": {
                        "input_tokens": 1, "output_tokens": 0, "total_tokens": 3,
                        "latest": {"input_tokens": 1, "output_tokens": null, "total_tokens": 3,
                                   "observed_at_unix_secs": 50}
                    },
                    "rate_limits": {"requests_remaining": null, "tokens_remaining": "9",
                                    "requests_reset": null, "tokens_reset": null},
                    "requests": {"total": 1, "succeeded": 1, "failed": 0, "active_streams": 0,
                                 "cancelled_streams": 0, "truncated_streams": 0, "auth_refreshes": 0},
                    "latest_request": {"request_id": "id", "model": "m", "effort": "low",
                                       "outcome": "completed", "duration_ms": 12,
                                       "time_to_first_event_ms": 3, "observed_at_unix_secs": 51},
                    "note": "Usage is observed from Codex Responses events and headers; it is not a subscription-quota API."
                },
                "codex_subscription": {
                    "source": "codex-app-server", "state": "ready", "stale": false,
                    "fetched_at_unix_secs": 60, "error": null,
                    "rate_limit": {
                        "limitId": "codex", "limitName": null, "planType": "pro",
                        "rateLimitReachedType": null, "secondary": null,
                        "primary": {"usedPercent": 32, "windowDurationMins": 300, "resetsAt": 1}
                    }
                }
            }"#
        )
    );
}

#[test]
fn announced_lengths_are_checked() {
    let headers = |value: Option<&str>| {
        vec![HeaderField { name: "content-length".into(), value: value.map(str::to_owned) }]
    };
    assert_eq!(validate_content_length(&vec![], 10), None);
    assert_eq!(validate_content_length(&headers(Some("10")), 10), None);
    let status_of = |value| validate_content_length(&headers(value), 10).map(|reply| reply.status);
    assert_eq!(status_of(Some("11")), Some(413));
    assert_eq!(status_of(Some("-1")), Some(400));
    assert_eq!(status_of(Some("ten")), Some(400));
    assert_eq!(status_of(None), Some(400));
}

#[test]
fn upstream_errors_are_told_to_the_client() {
    let cases = [
        (UpstreamError::Auth, 502, "codex_auth_rejected"),
        (UpstreamError::Status(429), 429, "codex_rate_limited"),
        (UpstreamError::Status(404), 422, "codex_request_rejected"),
        (UpstreamError::Status(401), 422, "codex_request_rejected"),
        (UpstreamError::Status(500), 502, "codex_upstream_unavailable"),
        (UpstreamError::Status(302), 502, "codex_upstream_unavailable"),
        (UpstreamError::Transport, 502, "codex_upstream_unavailable"),
        (UpstreamError::Timeout, 504, "codex_timeout"),
    ];
    for (error, status, code) in cases {
        let told = error.client_error();
        assert_eq!((told.0, told.1), (status, code));
    }
    assert_eq!(UpstreamError::of_send(true), UpstreamError::Timeout);
    assert_eq!(UpstreamError::of_send(false), UpstreamError::Transport);
}

#[test]
fn requests_are_described() {
    let request = json(r#"{"model": "m", "reasoning": {"effort": "high"}}"#);
    assert_eq!(request_metadata(&request), ("m".to_owned(), "high".to_owned()));
    assert_eq!(request_metadata(&Json::Null), ("unknown".to_owned(), "medium".to_owned()));
}

fn sent() -> RequestFlow {
    RequestFlow::receive(&HOME, &vec![], 100)
        .with_body(Some(br#"{"model": "gpt-5.6-sol", "input": "Hi"}"#))
        .with_permit(true)
        .with_session(Ok(a_session("t")))
}

fn a_session(token: &str) -> Session {
    Session { access_token: token.to_owned(), account_id: "acc".to_owned() }
}

fn head(status: u16, content_type: Option<&str>) -> Result<ResponseHead, UpstreamError> {
    Ok(ResponseHead { status, content_type: content_type.map(str::to_owned) })
}

fn failure(flow: RequestFlow) -> (u16, String) {
    match flow {
        RequestFlow::Failed { reply, .. } => {
            let code = reply.body.get("error").and_then(|error| error.text_field("code"));
            (reply.status, code.expect("code is there").to_owned())
        }
        other => panic!("{other:?}"),
    }
}

#[test]
fn a_request_makes_its_way_to_the_upstream() {
    let flow = sent();
    assert!(matches!(&flow, RequestFlow::Send { retried: false, .. }));
    assert!(matches!(
        flow.with_response(head(200, Some("text/event-stream; charset=utf-8"))),
        RequestFlow::Stream(call) if call.model == "gpt-5.6-sol" && call.effort == "medium"
    ));
    assert!(matches!(sent().with_response(head(204, None)), RequestFlow::Stream(_)));
    assert!(matches!(sent().with_response(head(200, Some(""))), RequestFlow::Stream(_)));
}

#[test]
fn a_refused_session_is_refreshed_once() {
    let flow = sent().with_response(head(401, None));
    assert!(matches!(&flow, RequestFlow::Refresh { failed_token, .. } if failed_token == "t"));
    let again = flow.with_refresh(Ok(a_session("t2")));
    assert!(matches!(
        &again,
        RequestFlow::Send { session, retried: true, .. } if session.access_token == "t2"
    ));
    assert_eq!(
        failure(again.with_response(head(401, None))),
        (422, "codex_request_rejected".to_owned())
    );
    let flow = sent().with_response(head(401, None));
    assert_eq!(
        failure(flow.with_refresh(Err(AuthError::Refresh))),
        (502, "codex_auth_rejected".to_owned())
    );
}

#[test]
fn every_failure_has_its_reply() {
    let reading = || RequestFlow::receive(&HOME, &vec![], 100);
    assert_eq!(failure(reading().with_body(None)), (413, "request_too_large".to_owned()));
    assert_eq!(failure(reading().with_body(Some(b"{"))), (400, "invalid_json".to_owned()));
    assert_eq!(
        failure(reading().with_body(Some(b"[]"))),
        (422, "unsupported_request".to_owned())
    );
    let acquiring =
        || reading().with_body(Some(br#"{"model": "gpt-5.6-terra", "input": []}"#));
    assert_eq!(failure(acquiring().with_permit(false)), (429, "bridge_busy".to_owned()));
    assert_eq!(
        failure(acquiring().with_permit(true).with_session(Err(AuthError::Missing))),
        (503, "codex_auth_unavailable".to_owned())
    );
    assert_eq!(
        failure(sent().with_response(Err(UpstreamError::Timeout))),
        (504, "codex_timeout".to_owned())
    );
    assert_eq!(
        failure(sent().with_response(head(500, None))),
        (502, "codex_upstream_unavailable".to_owned())
    );
    assert_eq!(
        failure(sent().with_response(head(200, Some("application/json")))),
        (502, "invalid_upstream_stream".to_owned())
    );
    assert!(matches!(
        RequestFlow::receive(&STRANGER, &vec![], 100),
        RequestFlow::Refused(reply) if reply.status == 403
    ));
    let long = vec![HeaderField { name: "content-length".into(), value: Some("101".into()) }];
    assert!(matches!(
        RequestFlow::receive(&HOME, &long, 100),
        RequestFlow::Refused(reply) if reply.status == 413
    ));
}

#[test]
fn headers_are_fixed() {
    let fields = upstream_headers(&a_session("t"));
    assert_eq!(fields[0], ("chatgpt-account-id".to_owned(), "acc".to_owned()));
    assert_eq!(fields.len(), 4);
    let fields = response_headers("r-1");
    assert_eq!(
        fields[0],
        ("content-type".to_owned(), "text/event-stream; charset=utf-8".to_owned())
    );
    assert_eq!(fields[3], ("x-request-id".to_owned(), "r-1".to_owned()));
}

#[test]
fn metrics_count() {
    let mut metrics = Metrics::default();
    let mut first = metrics.record_stream_start();
    let second = metrics.record_stream_start();
    assert_eq!(metrics.snapshot().requests.active_streams, 2);
    first.finish();
    metrics.release_stream(first);
    metrics.release_stream(second);
    metrics.record_auth_refreshes(4);
    for outcome in ["completed", "cancelled", "truncated", "failed", "odd"] {
        metrics.record_outcome(
            "i".to_owned(),
            "m".to_owned(),
            "e".to_owned(),
            outcome,
            1,
            None,
            2,
        );
    }
    let snapshot = metrics.snapshot();
    assert_eq!(
        snapshot.requests,
        RequestCounters {
            total: 0,
            succeeded: 1,
            failed: 2,
            active_streams: 0,
            cancelled_streams: 2,
            truncated_streams: 1,
            auth_refreshes: 4,
        }
    );
    assert_eq!(snapshot.latest_request.map(|request| request.outcome), Some("odd".to_owned()));
    metrics.set_ready(false);
    assert_eq!(metrics.snapshot().status, "draining");
}

#[test]
fn usage_adds_up() {
    let mut metrics = Metrics::default();
    let usage = |input, output| ObservedUsage {
        input_tokens: input,
        output_tokens: output,
        total_tokens: None,
    };
    metrics.record_usage(usage(Some(u64::MAX), Some(1)), 1);
    metrics.record_usage(usage(Some(2), None), 2);
    let seen = metrics.snapshot().bridge_observed_usage;
    assert_eq!((seen.input_tokens, seen.output_tokens, seen.total_tokens), (1, 1, 0));
    assert_eq!(
        seen.latest,
        Some(UsageObservation {
            input_tokens: Some(2),
            observed_at_unix_secs: 2,
            ..UsageObservation::default()
        })
    );
    assert_eq!(RateLimitObservation::default().tokens_reset, None);
}

fn rate_limit() -> RateLimit {
    RateLimit {
        limit_id: "codex".to_owned(),
        limit_name: None,
        primary: Some(RateLimitWindow {
            used_percent: 32,
            window_duration_mins: 300,
            resets_at: 1,
        }),
        secondary: None,
        plan_type: Some("pro".to_owned()),
        rate_limit_reached_type: None,
    }
}

#[test]
fn a_quota_outlives_the_app_server() {
    let mut quota = QuotaSnapshot::default();
    assert_eq!((quota.state, quota.stale), ("initializing", false));
    quota.mark_stale("codex_app_server_unavailable");
    assert_eq!((quota.state, quota.stale), ("unavailable", false));
    quota.handle_message(None, 1);
    assert_eq!(quota.state, "unavailable");
    quota.handle_message(Some(rate_limit()), 7);
    assert_eq!((quota.state, quota.error), ("ready", None));
    quota.mark_stale("codex_app_server_protocol_error");
    assert_eq!((quota.state, quota.stale), ("stale", true));
    assert_eq!(quota.fetched_at_unix_secs, Some(7));
    assert_eq!(quota.rate_limit, Some(rate_limit()));
    assert_eq!(quota.clone(), quota);
}

#[test]
fn rate_limits_are_looked_for_in_three_places() {
    let found = |text: &str| rate_limit_source(&json(text)).map(render_text);
    assert_eq!(
        found(r#"{"result": {"rateLimits": 1}, "params": {"rateLimits": 2}}"#),
        Some("1".to_owned())
    );
    assert_eq!(
        found(r#"{"result": {}, "params": {"rateLimits": 2}}"#),
        Some("2".to_owned())
    );
    assert_eq!(found(r#"{"params": {"x": 3}}"#), Some(r#"{"x":3}"#.to_owned()));
    assert_eq!(found(r#"{"id": 1}"#), None);
    assert!(announces_update(&json(r#"{"method": "account/rateLimits/updated"}"#)));
    assert!(!announces_update(&json(r#"{"method": "other"}"#)));
}

#[test]
fn the_app_server_is_spoken_to_in_lines() {
    let lines: Vec<String> = opening_lines("0.1.2")
        .into_iter()
        .map(|line| String::from_utf8(line.expect("line is written")).expect("line is a text"))
        .collect();
    assert_eq!(
        lines,
        vec![
            "{\"id\":1,\"method\":\"initialize\",\"params\":{\"clientInfo\":{\"name\":\"grok-codex-bridge\",\"title\":\"Grok Codex Bridge\",\"version\":\"0.1.2\"}}}\n".to_owned(),
            "{\"method\":\"initialized\",\"params\":{}}\n".to_owned(),
            "{\"id\":2,\"method\":\"account/rateLimits/read\",\"params\":{}}\n".to_owned(),
        ]
    );
    let mut session = ServerSession::open();
    assert_eq!(
        session.handle(ServerEvent::Tick),
        ServerAction::Send(
            b"{\"id\":3,\"method\":\"account/rateLimits/read\",\"params\":{}}\n".to_vec()
        )
    );
    assert_eq!(session.next_request_id, 4);
    assert_eq!(session.handle(ServerEvent::Line("nonsense".to_owned())), ServerAction::Read(None));
    assert_eq!(
        session.handle(ServerEvent::Line("[]".to_owned())),
        ServerAction::Read(Some(json("[]")))
    );
    assert_eq!(session.handle(ServerEvent::Shutdown), ServerAction::Stop);
    assert_eq!(
        session.handle(ServerEvent::Closed),
        ServerAction::Fail(QuotaError::Unavailable)
    );
}

#[test]
fn a_lost_app_server_is_tried_again_and_again() {
    let mut delays = vec![1];
    for _ in 0..6 {
        delays.push(next_delay(delays[delays.len() - 1]));
    }
    assert_eq!(delays, vec![1, 2, 4, 8, 16, 30, 30]);
    assert_eq!(after_session(Ok(()), true), SessionEnd::Stop);
    assert_eq!(after_session(Ok(()), false), SessionEnd::Unavailable);
    assert_eq!(
        stale_code(after_session(Err(QuotaError::Unavailable), true)),
        Some("codex_app_server_unavailable")
    );
    assert_eq!(
        stale_code(after_session(Err(QuotaError::Protocol), false)),
        Some("codex_app_server_protocol_error")
    );
    assert_eq!(stale_code(SessionEnd::Stop), None);
}

#[test]
fn commands_default_to_running() {
    assert_eq!(Cli { command: None }.action(), Action::Run);
    assert_eq!(Cli { command: Some(Action::Doctor) }.action(), Action::Doctor);
    let printed = out(Err("no".to_owned()));
    assert_eq!((printed.line.as_str(), printed.success), ("error: no", false));
    let printed = out(Ok("yes".to_owned()));
    assert_eq!((printed.line.as_str(), printed.success), ("yes", true));
    assert_eq!(identity_url("/status"), "http://127.0.0.1:18474/status");
}

#[test]
fn the_running_bridge_is_identified() {
    let body = r#"{"service":"codex-for-grok","version":"0.1.2"}"#;
    assert_eq!(status_command(IdentityReply::Body(json(body))), Ok(body.to_owned()));
    let cases = [
        (IdentityReply::Unreachable("x".to_owned()), "bridge unavailable: x"),
        (IdentityReply::Refused("503 Service Unavailable".to_owned()),
         "bridge returned HTTP 503 Service Unavailable"),
        (IdentityReply::Malformed("y".to_owned()), "invalid bridge JSON: y"),
        (IdentityReply::Body(json(r#"{"service":"other"}"#)), "listener is not codex-for-grok"),
    ];
    for (reply, message) in cases {
        assert_eq!(fetch_identity(reply), Err(message.to_owned()));
    }
}

fn healthy() -> Findings {
    let block = owned_block(SOL, "gpt-5.6-sol");
    let content = block.bytes.clone().into_bytes();
    Findings {
        grok_found: true,
        codex_found: true,
        config: Ok(b"/c".to_vec()),
        manifest: Ok(Some(Manifest {
            version: 1,
            config: b"/c".to_vec(),
            blocks: vec![block],
            service: None,
        })),
        content: Ok(content),
        service: None,
        active: Ok(true),
        auth: AuthProbe::Present,
        identity: Ok(()),
    }
}

#[test]
fn the_bridge_identifies_itself() {
    let mut metrics = Metrics::default();
    metrics.set_ready(true);
    let replies = [health(&HOME), status(&HOME, &metrics.snapshot(), &QuotaSnapshot::default())];
    for reply in replies {
        let sent = render_text(&reply.body);
        let identity = fetch_identity(IdentityReply::Body(json(&sent)));
        assert_eq!(identity, Ok(reply.body));
        assert_eq!(status_command(IdentityReply::Body(json(&sent))), Ok(sent));
    }
    let refusal = fetch_identity(IdentityReply::Body(health(&STRANGER).body));
    assert_eq!(refusal, Err("listener is not codex-for-grok".to_owned()));
}

#[test]
fn doctor_asks_the_manager_about_an_unchanged_service_alone() {
    let config = Ok(b"/c".to_vec());
    let mut manifest = healthy().manifest.unwrap().unwrap();
    let content = healthy().content;
    assert!(!asks_manager(&config, &Ok(Some(manifest.clone())), &content, &None));
    manifest.service = Some(OwnedFile {
        path: b"/s".to_vec(),
        digest: "2cf24dba5fb0a30e26e83b2ac5b9e29e1b161e5c1fa7425e73043362938b9824".to_owned(),
    });
    let manifest = Ok(Some(manifest));
    let service = Some(b"hello".to_vec());
    assert!(asks_manager(&config, &manifest, &content, &service));
    assert!(!asks_manager(&config, &manifest, &content, &Some(b"edited".to_vec())));
    assert!(!asks_manager(&config, &manifest, &content, &None));
    assert!(!asks_manager(&config, &manifest, &Err("gone".to_owned()), &service));
    assert!(!asks_manager(&config, &Ok(None), &content, &service));
    assert!(!asks_manager(&Err("no home".to_owned()), &manifest, &content, &service));
}

#[test]
fn doctor_reports_all_that_is_wrong() {
    assert_eq!(doctor(healthy()), Ok("doctor: all checks passed".to_owned()));
    let findings = Findings {
        grok_found: false,
        codex_found: false,
        manifest: Ok(None),
        auth: AuthProbe::Missing,
        identity: Err("bridge unavailable: x".to_owned()),
        ..healthy()
    };
    assert_eq!(
        doctor(findings),
        Err("Grok Build executable `grok` is not available on PATH; Codex CLI executable `codex` is not available on PATH; ownership manifest missing; run setup; Codex auth missing; run `codex login`; bridge unavailable: x".to_owned())
    );
    let findings = Findings {
        content: Ok(b"changed".to_vec()),
        auth: AuthProbe::InvalidEnvironment,
        ..healthy()
    };
    assert_eq!(
        doctor(findings),
        Err("owned codex-sol block changed, missing, or duplicated; invalid bridge environment".to_owned())
    );
    let findings = Findings { content: Err("denied".to_owned()), ..healthy() };
    assert_eq!(doctor(findings), Err("config unreadable: denied".to_owned()));
}
