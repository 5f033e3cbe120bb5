//! The subscription quota: what the app server is asked, what is taken from its
//! messages, and what is known when it is away.
use vstd::prelude::*;

use crate::codec::{bytes_of_json, json_of_text, parse_text, render_bytes};
use crate::json::{optional_ref, optional_view, pair, Json, JsonObject, JsonView};
use crate::sse::LINE_FEED;
use crate::stream::{nested, nested_field};
use crate::text::{copy_text, is_text, optional_str, optional_text};

verus! {

/// The method that reads the rate limits.
pub const QUOTA_READ_METHOD: &'static str = "account/rateLimits/read";

/// The method of a message that the rate limits have changed.
pub const QUOTA_UPDATED_METHOD: &'static str = "account/rateLimits/updated";

/// How much of a window of time has been used.
#[derive(Clone, Copy, Debug, PartialEq, Eq)]
pub struct RateLimitWindow {
    pub used_percent: u8,
    pub window_duration_mins: u32,
    pub resets_at: u64,
}

/// A rate limit, as the app server reports it.
#[derive(Debug, PartialEq, Eq)]
pub struct RateLimit {
    pub limit_id: String,
    pub limit_name: Option<String>,
    pub primary: Option<RateLimitWindow>,
    pub secondary: Option<RateLimitWindow>,
    pub plan_type: Option<String>,
    pub rate_limit_reached_type: Option<String>,
}

/// What a rate limit holds.
pub struct LimitView {
    pub limit_id: Seq<char>,
    pub limit_name: Option<Seq<char>>,
    pub primary: Option<RateLimitWindow>,
    pub secondary: Option<RateLimitWindow>,
    pub plan_type: Option<Seq<char>>,
    pub rate_limit_reached_type: Option<Seq<char>>,
}

impl View for RateLimit {
    type V = LimitView;

    open spec fn view(&self) -> LimitView {
        LimitView {
            limit_id: self.limit_id@,
            limit_name: optional_text(self.limit_name),
            primary: self.primary,
            secondary: self.secondary,
            plan_type: optional_text(self.plan_type),
            rate_limit_reached_type: optional_text(self.rate_limit_reached_type),
        }
    }
}

impl Clone for RateLimit {
    fn clone(&self) -> (copy: RateLimit)
        ensures
            copy@ == self@,
    {
        RateLimit {
            limit_id: self.limit_id.clone(),
            limit_name: copy_text(&self.limit_name),
            primary: self.primary,
            secondary: self.secondary,
            plan_type: copy_text(&self.plan_type),
            rate_limit_reached_type: copy_text(&self.rate_limit_reached_type),
        }
    }
}

/// What is known of the quota.
#[derive(Debug, PartialEq, Eq)]
pub struct QuotaSnapshot {
    pub source: &'static str,
    pub state: &'static str,
    pub stale: bool,
    pub fetched_at_unix_secs: Option<u64>,
    pub rate_limit: Option<RateLimit>,
    pub error: Option<&'static str>,
}

/// What a snapshot of the quota holds.
pub struct QuotaView {
    pub source: Seq<char>,
    pub state: Seq<char>,
    pub stale: bool,
    pub fetched_at_unix_secs: Option<u64>,
    pub rate_limit: Option<LimitView>,
    pub error: Option<Seq<char>>,
}

/// What an optional rate limit holds.
pub open spec fn optional_limit(limit: Option<RateLimit>) -> Option<LimitView> {
    match limit {
        Some(limit) => Some(limit@),
        None => None,
    }
}

impl View for QuotaSnapshot {
    type V = QuotaView;

    open spec fn view(&self) -> QuotaView {
        QuotaView {
            source: self.source@,
            state: self.state@,
            stale: self.stale,
            fetched_at_unix_secs: self.fetched_at_unix_secs,
            rate_limit: optional_limit(self.rate_limit),
            error: optional_str(self.error),
        }
    }
}

impl Clone for QuotaSnapshot {
    fn clone(&self) -> (copy: QuotaSnapshot)
        ensures
            copy@ == self@,
    {
        let rate_limit = match &self.rate_limit {
            Some(limit) => Some(limit.clone()),
            None => None,
        };
        QuotaSnapshot {
            source: self.source,
            state: self.state,
            stale: self.stale,
            fetched_at_unix_secs: self.fetched_at_unix_secs,
            rate_limit,
            error: self.error,
        }
    }
}

impl Default for QuotaSnapshot {
    /// Nothing is known of the quota yet.
    fn default() -> (snapshot: QuotaSnapshot)
        ensures
            snapshot@ == (QuotaView {
                source: "codex-app-server"@,
                state: "initializing"@,
                stale: false,
                fetched_at_unix_secs: None,
                rate_limit: None,
                error: None,
            }),
    {
        QuotaSnapshot {
            source: "codex-app-server",
            state: "initializing",
            stale: false,
            fetched_at_unix_secs: None,
            rate_limit: None,
            error: None,
        }
    }
}

/// What is known once a rate limit has come in.
pub open spec fn ready_with(limit: LimitView, now: u64) -> QuotaView {
    QuotaView {
        source: "codex-app-server"@,
        state: "ready"@,
        stale: false,
        fetched_at_unix_secs: Some(now),
        rate_limit: Some(limit),
        error: None,
    }
}

/// What is known once the app server is away.
pub open spec fn stale_after(snapshot: QuotaView, error: Seq<char>) -> QuotaView {
    QuotaView {
        state: if snapshot.rate_limit is Some {
            "stale"@
        } else {
            "unavailable"@
        },
        stale: snapshot.rate_limit is Some,
        error: Some(error),
        ..snapshot
    }
}

impl QuotaSnapshot {
    /// Takes in a rate limit.
    pub fn mark_ready(&mut self, rate_limit: RateLimit, now: u64)
        ensures
            final(self)@ == ready_with(rate_limit@, now),
    {
        self.source = "codex-app-server";
        self.state = "ready";
        self.stale = false;
        self.fetched_at_unix_secs = Some(now);
        self.rate_limit = Some(rate_limit);
        self.error = None;
    }

    /// Notes that the app server is away. What was known stays.
    pub fn mark_stale(&mut self, error: &'static str)
        ensures
            final(self)@ == stale_after(old(self)@, error@),
    {
        let known = self.rate_limit.is_some();
        self.state = if known {
            "stale"
        } else {
            "unavailable"
        };
        self.stale = known;
        self.error = Some(error);
    }

    /// Takes in what a message of the app server was read as.
    pub fn handle_message(&mut self, rate_limit: Option<RateLimit>, now: u64)
        ensures
            final(self)@ == (match rate_limit {
                Some(limit) => ready_with(limit@, now),
                None => old(self)@,
            }),
    {
        if let Some(rate_limit) = rate_limit {
            self.mark_ready(rate_limit, now);
        }
    }
}

/// The last rate limit outlives the app server: it is kept, with the time at
/// which it was fetched, and marked as stale.
pub proof fn lemma_stale_keeps_the_limit(limit: LimitView, now: u64, error: Seq<char>)
    ensures
        stale_after(ready_with(limit, now), error).rate_limit == Some(limit),
        stale_after(ready_with(limit, now), error).fetched_at_unix_secs == Some(now),
        stale_after(ready_with(limit, now), error).stale,
{
}

/// The part of a message that a rate limit is read from: the first of the three
/// places that is there.
pub open spec fn limit_place(message: JsonView) -> Option<JsonView> {
    match nested_field(message, "result"@, "rateLimits"@) {
        Some(value) => Some(value),
        None => match nested_field(message, "params"@, "rateLimits"@) {
            Some(value) => Some(value),
            None => message.field("params"@),
        },
    }
}

/// Finds the part of a message that a rate limit is read from.
pub fn rate_limit_source(message: &Json) -> (value: Option<&Json>)
    ensures
        optional_ref(value) == limit_place(message@),
{
    if let Some(value) = nested(message, "result", "rateLimits") {
        return Some(value);
    }
    if let Some(value) = nested(message, "params", "rateLimits") {
        return Some(value);
    }
    message.get("params")
}

/// Whether a message announces that the rate limits have changed.
pub fn announces_update(message: &Json) -> (r: bool)
    ensures
        r == (message@.text_field("method"@) == Some("account/rateLimits/updated"@)),
{
    is_text(message.text_field("method"), QUOTA_UPDATED_METHOD)
}

/// Why a session with the app server has ended.
#[derive(Clone, Copy, Debug, PartialEq, Eq, Structural)]
pub enum QuotaError {
    Unavailable,
    Protocol,
}

/// A request to the app server.
pub open spec fn request_message(id: u64, method: Seq<char>, params: JsonView) -> JsonView {
    JsonView::Object(
        Map::empty().insert("id"@, JsonView::Unsigned(id)).insert(
            "method"@,
            JsonView::Text(method),
        ).insert("params"@, params),
    )
}

/// A message to the app server that is not answered.
pub open spec fn notification(method: Seq<char>, params: JsonView) -> JsonView {
    pair("method"@, JsonView::Text(method), "params"@, params)
}

/// What a line, or the error in its place, holds.
pub open spec fn line_result(r: Result<Vec<u8>, QuotaError>) -> Result<Seq<u8>, QuotaError> {
    match r {
        Ok(bytes) => Ok(bytes@),
        Err(error) => Err(error),
    }
}

/// A message on a line of its own.
pub open spec fn message_line(message: JsonView) -> Result<Seq<u8>, QuotaError> {
    match bytes_of_json(message) {
        Some(bytes) => Ok(bytes.push(LINE_FEED)),
        None => Err(QuotaError::Protocol),
    }
}

fn json_line(message: &Json) -> (r: Result<Vec<u8>, QuotaError>)
    ensures
        line_result(r) == message_line(message@),
{
    match render_bytes(message) {
        Some(bytes) => {
            let mut bytes = bytes;
            bytes.push(LINE_FEED);
            Ok(bytes)
        },
        None => Err(QuotaError::Protocol),
    }
}

/// Writes the line of a request.
pub fn rpc_line(id: u64, method: &str, params: Json) -> (r: Result<Vec<u8>, QuotaError>)
    ensures
        line_result(r) == message_line(request_message(id, method@, params@)),
{
    let mut message = JsonObject::new();
    message.insert("id", Json::unsigned(id));
    message.insert("method", Json::string(method));
    message.insert("params", params);
    json_line(&Json::Object(message))
}

/// Writes the line of a message that is not answered.
pub fn notification_line(method: &str, params: Json) -> (r: Result<Vec<u8>, QuotaError>)
    ensures
        line_result(r) == message_line(notification(method@, params@)),
{
    json_line(&Json::pair("method", Json::string(method), "params", params))
}

/// What the bridge says of itself when it calls on the app server.
pub open spec fn client_info(version: Seq<char>) -> JsonView {
    JsonView::Object(
        Map::empty().insert(
            "clientInfo"@,
            JsonView::Object(
                Map::empty().insert("name"@, JsonView::Text("grok-codex-bridge"@)).insert(
                    "title"@,
                    JsonView::Text("Grok Codex Bridge"@),
                ).insert("version"@, JsonView::Text(version)),
            ),
        ),
    )
}

/// The lines that open a session with the app server.
pub open spec fn opening(version: Seq<char>) -> Seq<JsonView> {
    seq![
        request_message(1, "initialize"@, client_info(version)),
        notification("initialized"@, JsonView::Object(Map::empty())),
        request_message(2, "account/rateLimits/read"@, JsonView::Object(Map::empty())),
    ]
}

/// Writes the lines that open a session with the app server.
pub fn opening_lines(version: &str) -> (lines: Vec<Result<Vec<u8>, QuotaError>>)
    ensures
        lines@.map_values(|line: Result<Vec<u8>, QuotaError>| line_result(line)) == opening(
            version@,
        ).map_values(|message: JsonView| message_line(message)),
{
    let mut info = JsonObject::new();
    info.insert("name", Json::string("grok-codex-bridge"));
    info.insert("title", Json::string("Grok Codex Bridge"));
    info.insert("version", Json::string(version));
    let mut params = JsonObject::new();
    params.insert("clientInfo", Json::Object(info));
    let mut lines: Vec<Result<Vec<u8>, QuotaError>> = Vec::new();
    lines.push(rpc_line(1, "initialize", Json::Object(params)));
    lines.push(notification_line("initialized", Json::Object(JsonObject::new())));
    lines.push(rpc_line(2, QUOTA_READ_METHOD, Json::Object(JsonObject::new())));
    assert(lines@.map_values(|line: Result<Vec<u8>, QuotaError>| line_result(line)) =~= opening(
        version@,
    ).map_values(|message: JsonView| message_line(message)));
    lines
}

/// What happens in a session with the app server.
#[derive(Debug, PartialEq, Eq)]
pub enum ServerEvent {
    /// The bridge is shutting down.
    Shutdown,
    /// It is time to read the rate limits again.
    Tick,
    /// The app server has sent a line.
    Line(String),
    /// The app server sends no more lines.
    Closed,
}

/// What is done about an event.
#[derive(Debug, PartialEq, Eq)]
pub enum ServerAction {
    /// End the app server, and the session with success.
    Stop,
    /// Send a line.
    Send(Vec<u8>),
    /// Look for a rate limit in a message; none stands for a line that is no
    /// message.
    Read(Option<Json>),
    /// End the session with an error.
    Fail(QuotaError),
}

/// What an action holds.
pub enum ActionView {
    Stop,
    Send(Seq<u8>),
    Read(Option<JsonView>),
    Fail(QuotaError),
}

impl View for ServerAction {
    type V = ActionView;

    open spec fn view(&self) -> ActionView {
        match self {
            ServerAction::Stop => ActionView::Stop,
            ServerAction::Send(line) => ActionView::Send(line@),
            ServerAction::Read(message) => ActionView::Read(optional_view(*message)),
            ServerAction::Fail(error) => ActionView::Fail(*error),
        }
    }
}

/// The id of the request after one.
pub open spec fn id_after(id: u64) -> u64 {
    if id < u64::MAX {
        (id + 1) as u64
    } else {
        u64::MAX
    }
}

/// What is done about an event; `id` is that of the next request.
pub open spec fn action_on(event: ServerEvent, id: u64) -> ActionView {
    match event {
        ServerEvent::Shutdown => ActionView::Stop,
        ServerEvent::Tick => match message_line(
            request_message(id, "account/rateLimits/read"@, JsonView::Object(Map::empty())),
        ) {
            Ok(line) => ActionView::Send(line),
            Err(error) => ActionView::Fail(error),
        },
        ServerEvent::Line(text) => ActionView::Read(json_of_text(text@)),
        ServerEvent::Closed => ActionView::Fail(QuotaError::Unavailable),
    }
}

/// A session with the app server, once it is open.
#[derive(Debug, PartialEq, Eq)]
pub struct ServerSession {
    pub next_request_id: u64,
}

impl ServerSession {
    /// A session whose opening lines have been sent.
    pub fn open() -> (session: ServerSession)
        ensures
            session.next_request_id == 3,
    {
        ServerSession { next_request_id: 3 }
    }

    /// Decides what is done about an event. Each request has an id of its own,
    /// as long as there are ids.
    pub fn handle(&mut self, event: ServerEvent) -> (action: ServerAction)
        ensures
            action@ == action_on(event, old(self).next_request_id),
            final(self).next_request_id == (if action@ is Send {
                id_after(old(self).next_request_id)
            } else {
                old(self).next_request_id
            }),
    {
        match event {
            ServerEvent::Shutdown => ServerAction::Stop,
            ServerEvent::Tick => {
                let line = rpc_line(
                    self.next_request_id,
                    QUOTA_READ_METHOD,
                    Json::Object(JsonObject::new()),
                );
                match line {
                    Ok(line) => {
                        self.next_request_id = self.next_request_id.saturating_add(1);
                        ServerAction::Send(line)
                    },
                    Err(error) => ServerAction::Fail(error),
                }
            },
            ServerEvent::Line(text) => ServerAction::Read(parse_text(text.as_str())),
            ServerEvent::Closed => ServerAction::Fail(QuotaError::Unavailable),
        }
    }
}

/// The seconds to wait before the first new attempt.
pub const FIRST_DELAY_SECS: u64 = 1;

/// The seconds to wait before the next attempt: twice as long, up to half a
/// minute.
pub fn next_delay(seconds: u64) -> (next: u64)
    requires
        seconds <= u64::MAX / 2,
    ensures
        next == (if seconds * 2 < 30 {
            seconds * 2
        } else {
            30
        }),
{
    if seconds * 2 < 30 {
        seconds * 2
    } else {
        30
    }
}

/// The seconds to wait before the attempt behind `failures` failed ones.
pub open spec fn delay_after(failures: nat) -> int
    decreases failures,
{
    if failures == 0 {
        FIRST_DELAY_SECS as int
    } else {
        let twice = delay_after((failures - 1) as nat) * 2;
        if twice < 30 {
            twice
        } else {
            30
        }
    }
}

/// The wait grows with each failure and never exceeds half a minute, so that it
/// can always be doubled.
pub proof fn lemma_delay_is_bounded(failures: nat)
    ensures
        1 <= delay_after(failures) <= 30,
        delay_after(failures) <= delay_after(failures + 1),
    decreases failures,
{
    if failures > 0 {
        lemma_delay_is_bounded((failures - 1) as nat);
    }
}

/// What is done when a session with the app server has ended.
#[derive(Clone, Copy, Debug, PartialEq, Eq, Structural)]
pub enum SessionEnd {
    /// Nothing more: the bridge is shutting down.
    Stop,
    /// Note that the app server is away, wait, and try again.
    Unavailable,
    /// The same, for an app server that could not be spoken to.
    ProtocolError,
}

/// What is done when a session with the app server has ended.
pub fn after_session(result: Result<(), QuotaError>, shutting_down: bool) -> (end: SessionEnd)
    ensures
        end == (match result {
            Ok(_) => if shutting_down {
                SessionEnd::Stop
            } else {
                SessionEnd::Unavailable
            },
            Err(QuotaError::Unavailable) => SessionEnd::Unavailable,
            Err(QuotaError::Protocol) => SessionEnd::ProtocolError,
        }),
{
    match result {
        Ok(_) => if shutting_down {
            SessionEnd::Stop
        } else {
            SessionEnd::Unavailable
        },
        Err(QuotaError::Unavailable) => SessionEnd::Unavailable,
        Err(QuotaError::Protocol) => SessionEnd::ProtocolError,
    }
}

/// The error that a snapshot shows for the end of a session.
pub open spec fn end_code(end: SessionEnd) -> Option<Seq<char>> {
    match end {
        SessionEnd::Stop => None,
        SessionEnd::Unavailable => Some("codex_app_server_unavailable"@),
        SessionEnd::ProtocolError => Some("codex_app_server_protocol_error"@),
    }
}

/// The error that a snapshot shows for the end of a session.
pub fn stale_code(end: SessionEnd) -> (code: Option<&'static str>)
    ensures
        optional_str(code) == end_code(end),
{
    match end {
        SessionEnd::Stop => None,
        SessionEnd::Unavailable => Some("codex_app_server_unavailable"),
        SessionEnd::ProtocolError => Some("codex_app_server_protocol_error"),
    }
}

} // verus!
