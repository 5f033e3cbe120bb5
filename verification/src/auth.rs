//! The session: what the authentication file says, when it is refreshed, and how
//! the file is written back.
use base64::engine::general_purpose::URL_SAFE_NO_PAD;
use base64::Engine;
use vstd::prelude::*;
use vstd::utf8::{decode_utf8, encode_utf8, encode_utf8_valid_utf8, is_ascii_chars_encode_utf8};
use vstd::utf8::{valid_utf8, valid_utf8_concat};

use crate::codec::{json_of_bytes, json_of_text, optional_bytes, parse_bytes, parse_text};
use crate::codec::{plain, pretty_bytes_of_json, render_pretty, NESTING};
use crate::json::{lookup, optional_view, text_of, Json, JsonView};
use crate::sse::LINE_FEED;
use crate::stream::{nested, nested_field};
use crate::text::{concat3, decimal, decimal_text, find_char, optional_str, optional_text};
use crate::text::same_text;

verus! {

/// Where a session is refreshed.
pub const TOKEN_URL: &'static str = "https://auth.openai.com/oauth/token";

/// The name under which a session is refreshed.
pub const CLIENT_ID: &'static str = "app_EMoamEEZ73f0CkXaXp7hrann";

/// How many seconds before it expires a token counts as expired.
pub const REFRESH_SKEW_SECS: u64 = 120;

/// The mode of the files that are written: their owner reads and writes them,
/// and nobody else does.
pub const OWNER_MODE: u32 = 0o600;

/// What a request to the upstream is authenticated with.
#[derive(Debug, PartialEq, Eq)]
pub struct Session {
    pub access_token: String,
    pub account_id: String,
}

/// What a session holds.
pub struct SessionView {
    pub access_token: Seq<char>,
    pub account_id: Seq<char>,
}

impl View for Session {
    type V = SessionView;

    open spec fn view(&self) -> SessionView {
        SessionView { access_token: self.access_token@, account_id: self.account_id@ }
    }
}

impl Clone for Session {
    fn clone(&self) -> (copy: Session)
        ensures
            copy@ == self@,
    {
        Session { access_token: self.access_token.clone(), account_id: self.account_id.clone() }
    }
}

/// Why there is no session.
#[derive(Clone, Copy, Debug, PartialEq, Eq, Structural)]
pub enum AuthError {
    Missing,
    InsecurePermissions,
    Invalid,
    Refresh,
    Write,
}

impl AuthError {
    /// What the user is told.
    pub open spec fn text(self) -> Seq<char> {
        match self {
            AuthError::Missing => "Codex auth is unavailable; run `codex login`"@,
            AuthError::InsecurePermissions => {
                "Codex auth file permissions must be owner-only (0600)"@
            },
            AuthError::Invalid => "Codex auth file is invalid"@,
            AuthError::Refresh => "Codex session refresh failed"@,
            AuthError::Write => "Codex auth file could not be updated securely"@,
        }
    }

    /// What the user is told.
    pub fn message(&self) -> (text: String)
        ensures
            text@ == self.text(),
    {
        let text: &str = match self {
            AuthError::Missing => "Codex auth is unavailable; run `codex login`",
            AuthError::InsecurePermissions => {
                "Codex auth file permissions must be owner-only (0600)"
            },
            AuthError::Invalid => "Codex auth file is invalid",
            AuthError::Refresh => "Codex session refresh failed",
            AuthError::Write => "Codex auth file could not be updated securely",
        };
        text.to_owned()
    }
}

/// The tokens that a refresh returns.
#[derive(Debug, PartialEq, Eq)]
pub struct RefreshResponse {
    pub access_token: String,
    pub refresh_token: Option<String>,
    pub id_token: Option<String>,
}

/// What the tokens of a refresh hold.
pub struct RefreshView {
    pub access_token: Seq<char>,
    pub refresh_token: Option<Seq<char>>,
    pub id_token: Option<Seq<char>>,
}

impl View for RefreshResponse {
    type V = RefreshView;

    open spec fn view(&self) -> RefreshView {
        RefreshView {
            access_token: self.access_token@,
            refresh_token: optional_text(self.refresh_token),
            id_token: optional_text(self.id_token),
        }
    }
}

/// What a session, or the error in its place, holds.
pub open spec fn session_result(r: Result<Session, AuthError>) -> Result<SessionView, AuthError> {
    match r {
        Ok(session) => Ok(session@),
        Err(error) => Err(error),
    }
}

/// A text that has to be there and not be empty.
pub open spec fn filled_text(fields: Map<Seq<char>, JsonView>, key: Seq<char>) -> Result<
    Seq<char>,
    AuthError,
> {
    match text_of(lookup(fields, key)) {
        Some(text) => if text.len() > 0 {
            Ok(text)
        } else {
            Err(AuthError::Missing)
        },
        None => Err(AuthError::Missing),
    }
}

/// The session that an authentication document holds.
pub open spec fn session_of(auth: JsonView) -> Result<SessionView, AuthError> {
    match auth.field("tokens"@) {
        Some(JsonView::Object(tokens)) => match filled_text(tokens, "access_token"@) {
            Err(error) => Err(error),
            Ok(access_token) => match filled_text(tokens, "account_id"@) {
                Err(error) => Err(error),
                Ok(account_id) => Ok(SessionView { access_token, account_id }),
            },
        },
        _ => Err(AuthError::Invalid),
    }
}

fn take_filled(text: Option<&str>) -> (r: Option<String>)
    ensures
        optional_text(r) == (match optional_str(text) {
            Some(text) => if text.len() > 0 {
                Some(text)
            } else {
                None
            },
            None => None,
        }),
{
    match text {
        Some(text) => if text.unicode_len() > 0 {
            Some(text.to_owned())
        } else {
            None
        },
        None => None,
    }
}

/// Reads the session from an authentication document.
pub fn session_from_auth(auth: &Json) -> (r: Result<Session, AuthError>)
    ensures
        session_result(r) == session_of(auth@),
{
    let tokens = match auth.get("tokens") {
        Some(Json::Object(tokens)) => tokens,
        _ => return Err(AuthError::Invalid),
    };
    let access_token = match take_filled(tokens.text_field("access_token")) {
        Some(text) => text,
        None => return Err(AuthError::Missing),
    };
    let account_id = match take_filled(tokens.text_field("account_id")) {
        Some(text) => text,
        None => return Err(AuthError::Missing),
    };
    Ok(Session { access_token, account_id })
}

/// A field set to a text, where there is one.
pub open spec fn with_text(
    fields: Map<Seq<char>, JsonView>,
    key: Seq<char>,
    text: Option<Seq<char>>,
) -> Map<Seq<char>, JsonView> {
    match text {
        Some(text) => fields.insert(key, JsonView::Text(text)),
        None => fields,
    }
}

/// The tokens with those of a refresh in place.
pub open spec fn refreshed_tokens(tokens: Map<Seq<char>, JsonView>, refreshed: RefreshView) -> Map<
    Seq<char>,
    JsonView,
> {
    with_text(
        with_text(
            with_text(tokens, "access_token"@, Some(refreshed.access_token)),
            "refresh_token"@,
            refreshed.refresh_token,
        ),
        "id_token"@,
        refreshed.id_token,
    )
}

/// An authentication document with the tokens of a refresh in place.
pub open spec fn refreshed_document(auth: JsonView, refreshed: RefreshView) -> Result<
    JsonView,
    AuthError,
> {
    match auth {
        JsonView::Object(fields) => match lookup(fields, "tokens"@) {
            Some(JsonView::Object(tokens)) => Ok(
                JsonView::Object(
                    fields.insert(
                        "tokens"@,
                        JsonView::Object(refreshed_tokens(tokens, refreshed)),
                    ),
                ),
            ),
            _ => Err(AuthError::Invalid),
        },
        _ => Err(AuthError::Invalid),
    }
}

/// What a document, or the error in its place, holds.
pub open spec fn document_result(r: Result<Json, AuthError>) -> Result<JsonView, AuthError> {
    match r {
        Ok(json) => Ok(json@),
        Err(error) => Err(error),
    }
}

/// Puts the tokens of a refresh into an authentication document.
pub fn merge_refresh(auth: Json, refreshed: &RefreshResponse) -> (r: Result<Json, AuthError>)
    ensures
        document_result(r) == refreshed_document(auth@, refreshed@),
{
    let mut fields = match auth {
        Json::Object(fields) => fields,
        _ => return Err(AuthError::Invalid),
    };
    let mut tokens = match fields.get("tokens") {
        Some(Json::Object(tokens)) => tokens.clone(),
        _ => return Err(AuthError::Invalid),
    };
    tokens.insert("access_token", Json::string(refreshed.access_token.as_str()));
    if let Some(refresh_token) = &refreshed.refresh_token {
        tokens.insert("refresh_token", Json::string(refresh_token.as_str()));
    }
    if let Some(id_token) = &refreshed.id_token {
        tokens.insert("id_token", Json::string(id_token.as_str()));
    }
    fields.insert("tokens", Json::Object(tokens));
    Ok(Json::Object(fields))
}

/// A refresh touches the three tokens alone: every other field of the document,
/// and every other field among its tokens, stays as it is, and so does a token
/// that the refresh does not return.
pub proof fn lemma_refresh_keeps_the_rest(
    fields: Map<Seq<char>, JsonView>,
    tokens: Map<Seq<char>, JsonView>,
    refreshed: RefreshView,
    key: Seq<char>,
)
    requires
        lookup(fields, "tokens"@) == Some(JsonView::Object(tokens)),
    ensures
        refreshed_document(JsonView::Object(fields), refreshed) matches Ok(JsonView::Object(after))
            && {
            &&& key != "tokens"@ ==> lookup(after, key) == lookup(fields, key)
            &&& lookup(after, "tokens"@) matches Some(JsonView::Object(kept))
            &&& key != "access_token"@ && key != "refresh_token"@ && key != "id_token"@ ==> lookup(
                kept,
                key,
            ) == lookup(tokens, key)
            &&& text_of(lookup(kept, "access_token"@)) == Some(refreshed.access_token)
            &&& refreshed.refresh_token is None ==> lookup(kept, "refresh_token"@) == lookup(
                tokens,
                "refresh_token"@,
            )
        },
{
    reveal_strlit("access_token");
    reveal_strlit("refresh_token");
    reveal_strlit("id_token");
    assert("access_token"@.len() == 12);
    assert("refresh_token"@.len() == 13);
    assert("id_token"@.len() == 8);
}

/// Whether a file mode lets nobody but the owner in.
pub open spec fn owner_only(mode: u32) -> bool {
    mode % 64 == 0
}

/// What a file mode is refused with; `mode` is none where there is no file.
pub open spec fn permission_problem(mode: Option<u32>) -> Option<AuthError> {
    match mode {
        None => Some(AuthError::Missing),
        Some(mode) => if owner_only(mode) {
            None
        } else {
            Some(AuthError::InsecurePermissions)
        },
    }
}

/// A file with the permissions that are set for it passes the check of its mode,
/// whatever kind of file it is.
pub proof fn lemma_owner_mode_is_accepted(mode: u32)
    ensures
        permission_problem(Some(OWNER_MODE)) is None,
        mode % 0o1000 == OWNER_MODE ==> permission_problem(Some(mode)) is None,
{
}

/// The error of a check that has no other result.
pub open spec fn auth_problem(r: Result<(), AuthError>) -> Option<AuthError> {
    match r {
        Ok(_) => None,
        Err(error) => Some(error),
    }
}

/// Checks that nobody but the owner can read or write the authentication file.
pub fn check_auth_permissions(mode: Option<u32>) -> (r: Result<(), AuthError>)
    ensures
        auth_problem(r) == permission_problem(mode),
{
    match mode {
        None => Err(AuthError::Missing),
        Some(mode) => {
            assert(mode & 0o077 == mode % 64) by (bit_vector);
            if mode & 0o077 != 0 {
                Err(AuthError::InsecurePermissions)
            } else {
                Ok(())
            }
        },
    }
}

/// What a document and its session, or the error in their place, hold.
pub open spec fn loaded_result(r: Result<(Json, Session), AuthError>) -> Result<
    (JsonView, SessionView),
    AuthError,
> {
    match r {
        Ok((json, session)) => Ok((json@, session@)),
        Err(error) => Err(error),
    }
}

/// The session of a document that was read, if it is one.
pub open spec fn loaded_document(document: Option<JsonView>) -> Result<
    (JsonView, SessionView),
    AuthError,
> {
    match document {
        None => Err(AuthError::Invalid),
        Some(auth) => match session_of(auth) {
            Ok(session) => Ok((auth, session)),
            Err(error) => Err(error),
        },
    }
}

/// What the authentication file gives, by its mode and its text.
pub open spec fn loaded(mode: Option<u32>, content: Option<Seq<char>>) -> Result<
    (JsonView, SessionView),
    AuthError,
> {
    match permission_problem(mode) {
        Some(error) => Err(error),
        None => match content {
            None => Err(AuthError::Missing),
            Some(text) => loaded_document(json_of_text(text)),
        },
    }
}

/// Reads the session of a document that was read, if it is one.
pub fn load_document(document: Option<Json>) -> (r: Result<(Json, Session), AuthError>)
    ensures
        loaded_result(r) == loaded_document(optional_view(document)),
{
    match document {
        None => Err(AuthError::Invalid),
        Some(auth) => match session_from_auth(&auth) {
            Ok(session) => Ok((auth, session)),
            Err(error) => Err(error),
        },
    }
}

/// Reads the authentication file; `mode` and `content` are none where it cannot
/// be read.
pub fn load_auth(mode: Option<u32>, content: Option<&str>) -> (r: Result<
    (Json, Session),
    AuthError,
>)
    ensures
        loaded_result(r) == loaded(mode, optional_str(content)),
{
    check_auth_permissions(mode)?;
    match content {
        None => Err(AuthError::Missing),
        Some(text) => load_document(parse_text(text)),
    }
}

/// The bytes that `URL_SAFE_NO_PAD` decodes from a text, where it can.
pub uninterp spec fn base64_bytes(text: Seq<char>) -> Option<Seq<u8>>;

/// `base64`'s `URL_SAFE_NO_PAD.decode`: the bytes that the text encodes, where it
/// is URL-safe Base64 without padding.
#[verifier::external_body]
fn decode_base64(text: &str) -> (bytes: Option<Vec<u8>>)
    ensures
        optional_bytes(bytes) == base64_bytes(text@),
{
    URL_SAFE_NO_PAD.decode(text).ok()
}

/// What stands before the first full stop of a text, or all of it where there is
/// none.
pub open spec fn before_stop(text: Seq<char>) -> Seq<char>
    decreases text.len(),
{
    if text.len() == 0 || text[0] == '.' {
        Seq::empty()
    } else {
        seq![text[0]] + before_stop(text.skip(1))
    }
}

/// What stands between the first full stop of a text and the next one, or the
/// end.
pub open spec fn second_part(text: Seq<char>) -> Option<Seq<char>> {
    if text.contains('.') {
        Some(before_stop(text.skip(before_stop(text).len() as int + 1)))
    } else {
        None
    }
}

/// What stands before the first full stop.
pub proof fn lemma_before_stop(text: Seq<char>, at: int)
    requires
        0 <= at <= text.len(),
        forall|i: int| 0 <= i < at ==> text[i] != '.',
        at < text.len() ==> text[at] == '.',
    ensures
        before_stop(text) == text.take(at),
    decreases text.len(),
{
    if at > 0 {
        lemma_before_stop(text.skip(1), at - 1);
        assert(seq![text[0]] + text.skip(1).take(at - 1) =~= text.take(at));
    } else {
        assert(text.take(0) =~= Seq::empty());
    }
}

/// Finds what stands between the first full stop of a text and the next one.
pub fn find_second_part(text: &str) -> (part: Option<&str>)
    ensures
        optional_str(part) == second_part(text@),
{
    let at: usize = match find_char(text, '.') {
        Some(at) => at,
        None => return None,
    };
    let length = text.unicode_len();
    assert(text@.contains(text@[at as int]));
    let rest = text.substring_char(at + 1, length);
    proof {
        lemma_before_stop(text@, at as int);
        assert(rest@ =~= text@.skip(at + 1));
    }
    match find_char(rest, '.') {
        Some(end) => {
            proof {
                lemma_before_stop(rest@, end as int);
                assert(rest@.subrange(0, end as int) =~= rest@.take(end as int));
            }
            Some(rest.substring_char(0, end))
        },
        None => {
            proof {
                assert forall|i: int| 0 <= i < rest@.len() implies rest@[i] != '.' by {
                    assert(rest@.contains(rest@[i]));
                }
                lemma_before_stop(rest@, rest@.len() as int);
                assert(rest@.take(rest@.len() as int) =~= rest@);
            }
            Some(rest)
        },
    }
}

/// Whether claims say that a token expires within the skew; claims without an
/// expiry do not.
pub open spec fn claims_expire(claims: JsonView, now: u64) -> bool {
    match claims.unsigned_field("exp"@) {
        Some(expiry) => expiry <= now + REFRESH_SKEW_SECS,
        None => false,
    }
}

/// Whether claims say that a token expires within the skew.
pub fn claims_expire_soon(claims: &Json, now: u64) -> (r: bool)
    ensures
        r == claims_expire(claims@, now),
{
    match claims.unsigned_field("exp") {
        Some(expiry) => expiry <= now.saturating_add(REFRESH_SKEW_SECS),
        None => false,
    }
}

/// Whether a token says that it expires within the skew. A token that cannot be
/// read counts as one that does not.
pub open spec fn expires_soon(token: Seq<char>, now: u64) -> bool {
    match second_part(token) {
        None => false,
        Some(payload) => match base64_bytes(payload) {
            None => false,
            Some(bytes) => match json_of_bytes(bytes) {
                None => false,
                Some(claims) => claims_expire(claims, now),
            },
        },
    }
}

/// Whether a token says that it expires within the skew.
pub fn token_expires_soon(token: &str, now: u64) -> (r: bool)
    ensures
        r == expires_soon(token@, now),
{
    let payload = match find_second_part(token) {
        Some(payload) => payload,
        None => return false,
    };
    let bytes = match decode_base64(payload) {
        Some(bytes) => bytes,
        None => return false,
    };
    match parse_bytes(bytes.as_slice()) {
        Some(claims) => claims_expire_soon(&claims, now),
        None => false,
    }
}

/// What is done to get a session.
#[derive(Debug, PartialEq, Eq)]
pub enum SessionStep {
    /// The session, or why there is none.
    Finished(Result<Session, AuthError>),
    /// Refresh the session, if the file still holds this token.
    Refresh { failed_token: String },
}

/// What a session step holds.
pub enum SessionStepView {
    Finished(Result<SessionView, AuthError>),
    Refresh { failed_token: Seq<char> },
}

impl View for SessionStep {
    type V = SessionStepView;

    open spec fn view(&self) -> SessionStepView {
        match self {
            SessionStep::Finished(r) => SessionStepView::Finished(session_result(*r)),
            SessionStep::Refresh { failed_token } => SessionStepView::Refresh {
                failed_token: failed_token@,
            },
        }
    }
}

/// Decides whether the session of the file is used or refreshed first.
pub fn session(loaded: Result<(Json, Session), AuthError>, now: u64) -> (step: SessionStep)
    ensures
        step@ == (match loaded_result(loaded) {
            Err(error) => SessionStepView::Finished(Err(error)),
            Ok((_, session)) => if expires_soon(session.access_token, now) {
                SessionStepView::Refresh { failed_token: session.access_token }
            } else {
                SessionStepView::Finished(Ok(session))
            },
        }),
{
    let session = match loaded {
        Ok((_, session)) => session,
        Err(error) => return SessionStep::Finished(Err(error)),
    };
    if token_expires_soon(session.access_token.as_str(), now) {
        SessionStep::Refresh { failed_token: session.access_token }
    } else {
        SessionStep::Finished(Ok(session))
    }
}

/// What is done to refresh a session.
#[derive(Debug, PartialEq, Eq)]
pub enum RefreshStep {
    /// The session, or why there is none.
    Finished(Result<Session, AuthError>),
    /// Send the refresh token; the reply goes into the document.
    Post { auth: Json, refresh_token: String },
}

/// What a refresh step holds.
pub enum RefreshStepView {
    Finished(Result<SessionView, AuthError>),
    Post { auth: JsonView, refresh_token: Seq<char> },
}

impl View for RefreshStep {
    type V = RefreshStepView;

    open spec fn view(&self) -> RefreshStepView {
        match self {
            RefreshStep::Finished(r) => RefreshStepView::Finished(session_result(*r)),
            RefreshStep::Post { auth, refresh_token } => RefreshStepView::Post {
                auth: auth@,
                refresh_token: refresh_token@,
            },
        }
    }
}

/// The refresh token of a document, where there is one and it is not empty.
pub open spec fn refresh_token_of(auth: JsonView) -> Option<Seq<char>> {
    match text_of(nested_field(auth, "tokens"@, "refresh_token"@)) {
        Some(text) => if text.len() > 0 {
            Some(text)
        } else {
            None
        },
        None => None,
    }
}

/// How a session is refreshed: not at all, where the file holds another token
/// than the one that failed.
pub open spec fn refresh_step(
    loaded: Result<(JsonView, SessionView), AuthError>,
    failed_token: Option<Seq<char>>,
) -> RefreshStepView {
    match loaded {
        Err(error) => RefreshStepView::Finished(Err(error)),
        Ok((auth, session)) => if failed_token is Some && failed_token != Some(
            session.access_token,
        ) {
            RefreshStepView::Finished(Ok(session))
        } else {
            match refresh_token_of(auth) {
                Some(refresh_token) => RefreshStepView::Post { auth, refresh_token },
                None => RefreshStepView::Finished(Err(AuthError::Missing)),
            }
        },
    }
}

/// Decides how a session is refreshed, by what the file holds now.
pub fn refresh_if_unchanged(
    loaded: Result<(Json, Session), AuthError>,
    failed_token: Option<&str>,
) -> (step: RefreshStep)
    ensures
        step@ == refresh_step(loaded_result(loaded), optional_str(failed_token)),
{
    let (auth, session) = match loaded {
        Ok(loaded) => loaded,
        Err(error) => return RefreshStep::Finished(Err(error)),
    };
    if let Some(token) = failed_token {
        if !same_text(token, session.access_token.as_str()) {
            return RefreshStep::Finished(Ok(session));
        }
    }
    let found = match nested(&auth, "tokens", "refresh_token") {
        Some(value) => take_filled(value.as_str()),
        None => None,
    };
    match found {
        Some(refresh_token) => RefreshStep::Post { auth, refresh_token },
        None => RefreshStep::Finished(Err(AuthError::Missing)),
    }
}

/// The fields of a form.
pub open spec fn form_view(fields: Seq<(String, String)>) -> Seq<(Seq<char>, Seq<char>)> {
    fields.map_values(|field: (String, String)| (field.0@, field.1@))
}

/// Writes the form that asks for a refresh.
pub fn refresh_form(refresh_token: &str) -> (fields: Vec<(String, String)>)
    ensures
        form_view(fields@) == seq![
            ("grant_type"@, "refresh_token"@),
            ("refresh_token"@, refresh_token@),
            ("client_id"@, "app_EMoamEEZ73f0CkXaXp7hrann"@),
        ],
{
    let mut fields: Vec<(String, String)> = Vec::new();
    fields.push(("grant_type".to_owned(), "refresh_token".to_owned()));
    fields.push(("refresh_token".to_owned(), refresh_token.to_owned()));
    fields.push(("client_id".to_owned(), CLIENT_ID.to_owned()));
    assert(form_view(fields@) =~= seq![
        ("grant_type"@, "refresh_token"@),
        ("refresh_token"@, refresh_token@),
        ("client_id"@, "app_EMoamEEZ73f0CkXaXp7hrann"@),
    ]);
    fields
}

/// What came of asking for a refresh.
#[derive(Debug, PartialEq, Eq)]
pub enum RefreshReply {
    /// There was no reply.
    Unreachable,
    /// The reply was not a success.
    Refused,
    /// The reply held no tokens.
    Malformed,
    Tokens(RefreshResponse),
}

/// The document and the session after a refresh.
pub open spec fn refreshed(auth: JsonView, reply: RefreshReply) -> Result<
    (JsonView, SessionView),
    AuthError,
> {
    match reply {
        RefreshReply::Tokens(tokens) => if tokens.access_token@.len() == 0 {
            Err(AuthError::Refresh)
        } else {
            match refreshed_document(auth, tokens@) {
                Err(error) => Err(error),
                Ok(updated) => match session_of(updated) {
                    Err(error) => Err(error),
                    Ok(session) => Ok((updated, session)),
                },
            }
        },
        _ => Err(AuthError::Refresh),
    }
}

/// Puts the reply to a refresh into the document and reads the new session from
/// it.
pub fn apply_refresh(auth: Json, reply: RefreshReply) -> (r: Result<(Json, Session), AuthError>)
    ensures
        loaded_result(r) == refreshed(auth@, reply),
{
    let tokens = match reply {
        RefreshReply::Tokens(tokens) => tokens,
        _ => return Err(AuthError::Refresh),
    };
    if tokens.access_token.as_str().unicode_len() == 0 {
        return Err(AuthError::Refresh);
    }
    let updated = match merge_refresh(auth, &tokens) {
        Ok(updated) => updated,
        Err(error) => return Err(error),
    };
    match session_from_auth(&updated) {
        Ok(session) => Ok((updated, session)),
        Err(error) => Err(error),
    }
}

/// A refresh that succeeds gives a session with the new token, for the account
/// that the document names.
pub proof fn lemma_refresh_gives_the_new_token(auth: JsonView, reply: RefreshReply)
    ensures
        refreshed(auth, reply) matches Ok((updated, session)) ==> {
            &&& reply matches RefreshReply::Tokens(tokens)
            &&& session.access_token == tokens.access_token@
            &&& session_of(updated) == Ok::<SessionView, AuthError>(session)
            &&& nested_field(auth, "tokens"@, "account_id"@) == Some(
                JsonView::Text(session.account_id),
            )
        },
{
    reveal_strlit("access_token");
    reveal_strlit("refresh_token");
    reveal_strlit("id_token");
    reveal_strlit("account_id");
    assert("access_token"@.len() == 12);
    assert("refresh_token"@.len() == 13);
    assert("id_token"@.len() == 8);
    assert("account_id"@.len() == 10);
}

/// What the bytes of a file, or the error in their place, hold.
pub open spec fn bytes_result(r: Result<Vec<u8>, AuthError>) -> Result<Seq<u8>, AuthError> {
    match r {
        Ok(bytes) => Ok(bytes@),
        Err(error) => Err(error),
    }
}

/// Writes the bytes of the authentication file: the document, indented, and a
/// line break. A plain document is read back from them.
pub fn auth_file_bytes(auth: &Json) -> (r: Result<Vec<u8>, AuthError>)
    ensures
        bytes_result(r) == (match pretty_bytes_of_json(auth@) {
            Some(bytes) => Ok(bytes.push(LINE_FEED)),
            None => Err(AuthError::Write),
        }),
        plain(auth@, NESTING as nat) ==> {
            &&& r matches Ok(bytes)
            &&& valid_utf8(bytes@)
            &&& json_of_text(decode_utf8(bytes@)) == Some(auth@)
        },
{
    match render_pretty(auth) {
        Some(bytes) => {
            let ghost document = bytes@;
            let mut bytes = bytes;
            bytes.push(LINE_FEED);
            proof {
                if valid_utf8(document) {
                    encode_utf8_valid_utf8(seq!['\n']);
                    is_ascii_chars_encode_utf8(seq!['\n']);
                    assert(encode_utf8(seq!['\n']) =~= seq![LINE_FEED]);
                    valid_utf8_concat(document, seq![LINE_FEED]);
                    assert(bytes@ =~= document + seq![LINE_FEED]);
                }
            }
            Ok(bytes)
        },
        None => Err(AuthError::Write),
    }
}

/// A session that was refreshed is the one that is loaded next: the file whose
/// text reads as the refreshed document, and which is its owner's alone, gives
/// that document and that session.
pub proof fn lemma_refreshed_session_is_loaded(
    auth: JsonView,
    reply: RefreshReply,
    mode: u32,
    content: Seq<char>,
)
    requires
        permission_problem(Some(mode)) is None,
        refreshed(auth, reply) matches Ok((updated, _)) && json_of_text(content) == Some(updated),
    ensures
        loaded(Some(mode), Some(content)) == refreshed(auth, reply),
{
}

/// The name of the file that the authentication file is first written to.
pub fn temporary_name(process: u32, nanos: u128) -> (name: String)
    ensures
        name@ == ".auth.json.bridge-"@ + decimal(process as nat) + "."@ + decimal(nanos as nat),
{
    let mut name = concat3(".auth.json.bridge-", decimal_text(process as u128).as_str(), ".");
    name.append(decimal_text(nanos).as_str());
    name
}

/// The step that comes next in writing the authentication file.
#[derive(Clone, Copy, Debug, PartialEq, Eq)]
pub enum WriteStep {
    /// Look up the mode of the file.
    CheckFile,
    /// Open the lock file.
    OpenLock,
    /// Take the lock.
    Lock,
    /// Make the bytes of the file.
    Serialize,
    /// Create the temporary file, for the owner alone.
    CreateTemporary,
    /// Write the bytes to the temporary file.
    WriteTemporary,
    /// Flush the temporary file.
    SyncTemporary,
    /// Rename the temporary file to the file.
    Rename,
    /// Set the mode of the file.
    SetMode,
    /// Flush the directory.
    SyncDirectory,
    /// Look up the mode of the file again.
    CheckResult,
    /// Remove the temporary file.
    RemoveTemporary(AuthError),
    /// Let the lock go.
    Unlock(Result<(), AuthError>),
    /// Nothing is left to do.
    Finished(Result<(), AuthError>),
}

/// What follows a step that has succeeded or failed.
pub open spec fn write_after(step: WriteStep, success: bool) -> WriteStep {
    match step {
        WriteStep::OpenLock => if success {
            WriteStep::Lock
        } else {
            WriteStep::Finished(Err(AuthError::Write))
        },
        WriteStep::Lock => if success {
            WriteStep::Serialize
        } else {
            WriteStep::Finished(Err(AuthError::Write))
        },
        WriteStep::Serialize => if success {
            WriteStep::CreateTemporary
        } else {
            WriteStep::Finished(Err(AuthError::Write))
        },
        WriteStep::CreateTemporary => if success {
            WriteStep::WriteTemporary
        } else {
            WriteStep::RemoveTemporary(AuthError::Write)
        },
        WriteStep::WriteTemporary => if success {
            WriteStep::SyncTemporary
        } else {
            WriteStep::RemoveTemporary(AuthError::Write)
        },
        WriteStep::SyncTemporary => if success {
            WriteStep::Rename
        } else {
            WriteStep::RemoveTemporary(AuthError::Write)
        },
        WriteStep::Rename => if success {
            WriteStep::SetMode
        } else {
            WriteStep::RemoveTemporary(AuthError::Write)
        },
        WriteStep::SetMode => if success {
            WriteStep::SyncDirectory
        } else {
            WriteStep::RemoveTemporary(AuthError::Write)
        },
        WriteStep::SyncDirectory => if success {
            WriteStep::CheckResult
        } else {
            WriteStep::RemoveTemporary(AuthError::Write)
        },
        WriteStep::RemoveTemporary(error) => WriteStep::Unlock(Err(error)),
        WriteStep::Unlock(r) => WriteStep::Finished(r),
        _ => step,
    }
}

/// What follows a look at the mode of the file.
pub open spec fn write_with_mode(step: WriteStep, mode: Option<u32>) -> WriteStep {
    match step {
        WriteStep::CheckFile => match permission_problem(mode) {
            None => WriteStep::OpenLock,
            Some(error) => WriteStep::Finished(Err(error)),
        },
        WriteStep::CheckResult => match permission_problem(mode) {
            None => WriteStep::Unlock(Ok(())),
            Some(error) => WriteStep::RemoveTemporary(error),
        },
        _ => step,
    }
}

fn go_on(success: bool, next: WriteStep, otherwise: WriteStep) -> (step: WriteStep)
    ensures
        step == (if success {
            next
        } else {
            otherwise
        }),
{
    if success {
        next
    } else {
        otherwise
    }
}

impl WriteStep {
    /// What follows a step that has succeeded or failed.
    pub fn advance(self, success: bool) -> (next: WriteStep)
        ensures
            next == write_after(self, success),
    {
        let broken_off = WriteStep::Finished(Err(AuthError::Write));
        let undone = WriteStep::RemoveTemporary(AuthError::Write);
        match self {
            WriteStep::OpenLock => go_on(success, WriteStep::Lock, broken_off),
            WriteStep::Lock => go_on(success, WriteStep::Serialize, broken_off),
            WriteStep::Serialize => go_on(success, WriteStep::CreateTemporary, broken_off),
            WriteStep::CreateTemporary => go_on(success, WriteStep::WriteTemporary, undone),
            WriteStep::WriteTemporary => go_on(success, WriteStep::SyncTemporary, undone),
            WriteStep::SyncTemporary => go_on(success, WriteStep::Rename, undone),
            WriteStep::Rename => go_on(success, WriteStep::SetMode, undone),
            WriteStep::SetMode => go_on(success, WriteStep::SyncDirectory, undone),
            WriteStep::SyncDirectory => go_on(success, WriteStep::CheckResult, undone),
            WriteStep::RemoveTemporary(error) => WriteStep::Unlock(Err(error)),
            WriteStep::Unlock(r) => WriteStep::Finished(r),
            other => other,
        }
    }

    /// What follows a look at the mode of the file.
    pub fn with_mode(self, mode: Option<u32>) -> (next: WriteStep)
        ensures
            next == write_with_mode(self, mode),
    {
        match self {
            WriteStep::CheckFile => match check_auth_permissions(mode) {
                Ok(_) => WriteStep::OpenLock,
                Err(error) => WriteStep::Finished(Err(error)),
            },
            WriteStep::CheckResult => match check_auth_permissions(mode) {
                Ok(_) => WriteStep::Unlock(Ok(())),
                Err(error) => WriteStep::RemoveTemporary(error),
            },
            other => other,
        }
    }
}

/// Whether a step stands behind the renaming of the temporary file.
pub open spec fn is_renamed(step: WriteStep) -> bool {
    step == WriteStep::SetMode || step == WriteStep::SyncDirectory || step == WriteStep::CheckResult
        || step == WriteStep::Unlock(Ok(())) || step == WriteStep::Finished(Ok(()))
}

/// A write is reported as a success only behind the renaming and a last look at
/// the mode that found the file closed to others.
pub proof fn lemma_success_means_renamed_and_closed(
    step: WriteStep,
    success: bool,
    mode: Option<u32>,
)
    ensures
        is_renamed(write_after(step, success)) ==> is_renamed(step) || (step == WriteStep::Rename
            && success),
        is_renamed(write_with_mode(step, mode)) ==> is_renamed(step),
        write_with_mode(step, mode) == WriteStep::Unlock(Ok(())) && step != WriteStep::Unlock(
            Ok(()),
        ) ==> (mode matches Some(mode) && owner_only(mode)),
        write_after(step, success) == WriteStep::Unlock(Ok(())) ==> step == WriteStep::Unlock(
            Ok(()),
        ),
        write_after(step, success) == WriteStep::Finished(Ok(())) ==> step == WriteStep::Unlock(
            Ok(()),
        ) || step == WriteStep::Finished(Ok(())),
{
}

/// Whether the temporary file may be there when a step fails.
pub open spec fn may_leave_temporary(step: WriteStep) -> bool {
    step == WriteStep::CreateTemporary || step == WriteStep::WriteTemporary || step
        == WriteStep::SyncTemporary || step == WriteStep::Rename || step == WriteStep::SetMode
        || step == WriteStep::SyncDirectory
}

/// Whatever fails once the temporary file may be there is followed by its
/// removal, then by letting the lock go, and then by the report of the failure.
pub proof fn lemma_failures_clean_up(
    step: WriteStep,
    mode: Option<u32>,
    error: AuthError,
    removed: bool,
    unlocked: bool,
)
    ensures
        may_leave_temporary(step) ==> write_after(step, false) == WriteStep::RemoveTemporary(
            AuthError::Write,
        ),
        step == WriteStep::CheckResult && permission_problem(mode) is Some ==> write_with_mode(
            step,
            mode,
        ) == WriteStep::RemoveTemporary(permission_problem(mode)->Some_0),
        write_after(WriteStep::RemoveTemporary(error), removed) == WriteStep::Unlock(Err(error)),
        write_after(WriteStep::Unlock(Err(error)), unlocked) == WriteStep::Finished(Err(error)),
{
}

} // verus!
