//! What a session is, and what refreshing it means: laws on the authentication
//! file, on its tokens, and on how it is written.
use vstd::prelude::*;

use crate::auth::{base64_bytes, before_stop, claims_expire, expires_soon, loaded};
use crate::auth::{permission_problem, refresh_step, refreshed, refreshed_document, second_part};
use crate::auth::{session_of, write_after, write_with_mode, AuthError, RefreshReply};
use crate::auth::{RefreshStepView, RefreshView, SessionView, WriteStep};
use crate::codec::{json_of_bytes, json_of_text};
use crate::json::{lookup, JsonView};

verus! {

/// The words of an authentication file differ from each other.
proof fn lemma_token_words()
    ensures
        "tokens"@.len() == 6,
        "id_token"@.len() == 8,
        "account_id"@.len() == 10,
        "access_token"@.len() == 12,
        "refresh_token"@.len() == 13,
{
    reveal_strlit("tokens");
    reveal_strlit("id_token");
    reveal_strlit("account_id");
    reveal_strlit("access_token");
    reveal_strlit("refresh_token");
    assert("tokens"@.len() == 6);
    assert("id_token"@.len() == 8);
    assert("account_id"@.len() == 10);
    assert("access_token"@.len() == 12);
    assert("refresh_token"@.len() == 13);
}

/// Whether a field is a text that is not empty.
pub open spec fn holds_text(
    fields: Map<Seq<char>, JsonView>,
    key: Seq<char>,
    text: Seq<char>,
) -> bool {
    lookup(fields, key) == Some(JsonView::Text(text)) && text.len() > 0
}

/// Which documents hold a session, and which one: the tokens have to be an object
/// with an access token and an account, and the session is made of those two.
pub proof fn lemma_documents_with_a_session(auth: JsonView)
    ensures
        session_of(auth) == Err::<SessionView, AuthError>(AuthError::Invalid) <==> !(
        auth matches JsonView::Object(fields) && (lookup(fields, "tokens"@) matches Some(
            JsonView::Object(_),
        ))),
        auth matches JsonView::Object(fields) && (lookup(fields, "tokens"@) matches Some(
            JsonView::Object(tokens),
        ) && {
            &&& (exists|token: Seq<char>, account: Seq<char>| #[trigger]
                holds_text(tokens, "access_token"@, token) && #[trigger] holds_text(
                    tokens,
                    "account_id"@,
                    account,
                )) ==> session_of(auth) is Ok
            &&& session_of(auth) matches Ok(session) ==> holds_text(
                tokens,
                "access_token"@,
                session.access_token,
            ) && holds_text(tokens, "account_id"@, session.account_id)
            &&& session_of(auth) is Err ==> session_of(auth)->Err_0 == AuthError::Missing
        }) || session_of(auth) == Err::<SessionView, AuthError>(AuthError::Invalid),
{
    lemma_token_words();
}

/// What a refresh leaves in the tokens: the access token that it gave, the refresh
/// token and the id token that it gave, each as it was where it gave none, and all
/// else as it was. Nothing outside the tokens changes.
pub proof fn lemma_what_a_refresh_stores(
    fields: Map<Seq<char>, JsonView>,
    tokens: Map<Seq<char>, JsonView>,
    given: RefreshView,
    key: Seq<char>,
)
    requires
        lookup(fields, "tokens"@) == Some(JsonView::Object(tokens)),
    ensures
        refreshed_document(JsonView::Object(fields), given) matches Ok(JsonView::Object(after)) && {
            &&& key != "tokens"@ ==> lookup(after, key) == lookup(fields, key)
            &&& lookup(after, "tokens"@) matches Some(JsonView::Object(stored))
            &&& lookup(stored, "access_token"@) == Some(JsonView::Text(given.access_token))
            &&& lookup(stored, "refresh_token"@) == (match given.refresh_token {
                Some(token) => Some(JsonView::Text(token)),
                None => lookup(tokens, "refresh_token"@),
            })
            &&& lookup(stored, "id_token"@) == (match given.id_token {
                Some(token) => Some(JsonView::Text(token)),
                None => lookup(tokens, "id_token"@),
            })
            &&& key != "access_token"@ && key != "refresh_token"@ && key != "id_token"@ ==> lookup(
                stored,
                key,
            ) == lookup(tokens, key)
        },
{
    lemma_token_words();
}

/// A document without tokens cannot be refreshed.
pub proof fn lemma_nothing_to_refresh(auth: JsonView, given: RefreshView)
    ensures
        refreshed_document(auth, given) is Err <==> !(auth matches JsonView::Object(fields) && (
        lookup(fields, "tokens"@) matches Some(JsonView::Object(_)))),
        refreshed_document(auth, given) is Err ==> refreshed_document(auth, given)->Err_0
            == AuthError::Invalid,
{
}

/// A refresh succeeds if and only if the reply holds an access token and the
/// document, with the tokens of the reply in it, holds a session; then that
/// document and that session are the result. Without an access token the refresh
/// has failed.
pub proof fn lemma_when_a_refresh_succeeds(auth: JsonView, reply: RefreshReply)
    ensures
        !(reply matches RefreshReply::Tokens(given) && given.access_token@.len() > 0) ==> refreshed(
            auth,
            reply,
        ) == Err::<(JsonView, SessionView), AuthError>(AuthError::Refresh),
        reply matches RefreshReply::Tokens(given) ==> given.access_token@.len() > 0 ==> match
        refreshed_document(auth, given@) {
            Ok(stored) => match session_of(stored) {
                Ok(session) => refreshed(auth, reply) == Ok::<(JsonView, SessionView), AuthError>(
                    (stored, session),
                ),
                Err(error) => refreshed(auth, reply) == Err::<(JsonView, SessionView), AuthError>(
                    error,
                ),
            },
            Err(error) => refreshed(auth, reply) == Err::<(JsonView, SessionView), AuthError>(
                error,
            ),
        },
        reply matches RefreshReply::Tokens(given) ==> given@.refresh_token == (match
        given.refresh_token {
            Some(token) => Some(token@),
            None => None,
        }) && given@.id_token == (match given.id_token {
            Some(token) => Some(token@),
            None => None,
        }) && given@.access_token == given.access_token@,
{
}

/// A file is refused if and only if anybody but its owner has a permission on it,
/// or if it is not there.
pub proof fn lemma_which_modes_are_accepted(mode: u32)
    ensures
        permission_problem(Some(mode)) is None <==> mode & 0o077 == 0,
        permission_problem(Some(mode)) matches Some(error) ==> error
            == AuthError::InsecurePermissions,
        permission_problem(None) == Some(AuthError::Missing),
{
    assert(mode & 0o077 == mode % 64) by (bit_vector);
}

/// How the file is loaded: its mode is judged first, then it has to be readable,
/// then it has to be JSON, and then it has to hold a session.
pub proof fn lemma_how_the_file_is_loaded(mode: Option<u32>, content: Option<Seq<char>>)
    ensures
        permission_problem(mode) matches Some(error) ==> loaded(mode, content) == Err::<
            (JsonView, SessionView),
            AuthError,
        >(error),
        permission_problem(mode) is None && content is None ==> loaded(mode, content) == Err::<
            (JsonView, SessionView),
            AuthError,
        >(AuthError::Missing),
        permission_problem(mode) is None && (content matches Some(text) && json_of_text(text) is None)
            ==> loaded(mode, content) == Err::<(JsonView, SessionView), AuthError>(
            AuthError::Invalid,
        ),
        permission_problem(mode) is None ==> (content matches Some(text) ==> (json_of_text(
            text,
        ) matches Some(auth) ==> match session_of(auth) {
            Ok(session) => loaded(mode, content) == Ok::<(JsonView, SessionView), AuthError>(
                (auth, session),
            ),
            Err(error) => loaded(mode, content) == Err::<(JsonView, SessionView), AuthError>(
                error,
            ),
        })),
{
}

/// The second part of a token is what stands between its first full stop and its
/// second, or its end.
pub proof fn lemma_the_second_part(head: Seq<char>, part: Seq<char>, tail: Seq<char>)
    requires
        !head.contains('.'),
        !part.contains('.'),
    ensures
        second_part(head) is None,
        second_part(head + seq!['.'] + part) == Some(part),
        second_part(head + seq!['.'] + part + seq!['.'] + tail) == Some(part),
{
    let short = head + seq!['.'] + part;
    let long = head + seq!['.'] + part + seq!['.'] + tail;
    assert(short[head.len() as int] == '.');
    assert(long[head.len() as int] == '.');
    assert forall|i: int| 0 <= i < head.len() implies short[i] != '.' && long[i] != '.' by {
        assert(head.contains(head[i]));
    }
    crate::auth::lemma_before_stop(short, head.len() as int);
    crate::auth::lemma_before_stop(long, head.len() as int);
    assert(before_stop(short).len() == head.len());
    assert(before_stop(long).len() == head.len());
    assert(short.skip(head.len() as int + 1) =~= part);
    let rest = part + seq!['.'] + tail;
    assert(long.skip(head.len() as int + 1) =~= rest);
    assert forall|i: int| 0 <= i < part.len() implies part[i] != '.' && rest[i] != '.' by {
        assert(part.contains(part[i]));
    }
    crate::auth::lemma_before_stop(part, part.len() as int);
    crate::auth::lemma_before_stop(rest, part.len() as int);
    assert(part.take(part.len() as int) =~= part);
    assert(rest.take(part.len() as int) =~= part);
}

/// A token counts as expired two minutes before it expires, and from then on. One
/// that does not say when it expires does not count as expired.
pub proof fn lemma_when_a_token_expires(
    claims: Map<Seq<char>, JsonView>,
    expiry: u64,
    now: u64,
    token: Seq<char>,
)
    ensures
        lookup(claims, "exp"@) == Some(JsonView::Unsigned(expiry)) ==> (claims_expire(
            JsonView::Object(claims),
            now,
        ) <==> expiry <= now + 120),
        !(lookup(claims, "exp"@) matches Some(JsonView::Unsigned(_))) ==> !claims_expire(
            JsonView::Object(claims),
            now,
        ),
        expires_soon(token, now) ==> {
            &&& second_part(token) matches Some(payload)
            &&& base64_bytes(payload) matches Some(bytes)
            &&& json_of_bytes(bytes) matches Some(JsonView::Object(said))
            &&& lookup(said, "exp"@) matches Some(JsonView::Unsigned(expiry))
            &&& expiry <= now + 120
        },
        second_part(token) matches Some(payload) ==> (base64_bytes(payload) matches Some(bytes)
            ==> (json_of_bytes(bytes) matches Some(said) ==> expires_soon(token, now)
            == claims_expire(said, now))),
{
}

/// When a refresh is asked for: where the token that has failed is still the one in
/// the file, or none has failed, and the file holds a refresh token; then with that
/// refresh token and for that document. Where the file holds another access token
/// by now, its session is the result.
pub proof fn lemma_when_a_refresh_is_asked_for(
    auth: JsonView,
    session: SessionView,
    failed: Option<Seq<char>>,
    error: AuthError,
)
    ensures
        refresh_step(Err(error), failed) == RefreshStepView::Finished(Err(error)),
        ({
            let step = refresh_step(Ok((auth, session)), failed);
            if failed matches Some(token) && token != session.access_token {
                step == RefreshStepView::Finished(Ok(session))
            } else {
                match auth {
                    JsonView::Object(fields) => match lookup(fields, "tokens"@) {
                        Some(JsonView::Object(tokens)) => match lookup(tokens, "refresh_token"@) {
                            Some(JsonView::Text(token)) => step == (if token.len() > 0 {
                                RefreshStepView::Post { auth, refresh_token: token }
                            } else {
                                RefreshStepView::Finished(Err(AuthError::Missing))
                            }),
                            _ => step == RefreshStepView::Finished(Err(AuthError::Missing)),
                        },
                        _ => step == RefreshStepView::Finished(Err(AuthError::Missing)),
                    },
                    _ => step == RefreshStepView::Finished(Err(AuthError::Missing)),
                }
            }
        }),
{
}

/// How the file is written: it is checked, locked, made, written next to its place,
/// synchronised, moved to its place, given its mode, synchronised with its directory
/// and checked again. What fails before a temporary file was made ends the writing.
pub proof fn lemma_the_order_of_writing(mode: Option<u32>)
    ensures
        permission_problem(mode) is None ==> write_with_mode(WriteStep::CheckFile, mode)
            == WriteStep::OpenLock,
        permission_problem(mode) matches Some(error) ==> write_with_mode(WriteStep::CheckFile, mode)
            == WriteStep::Finished(Err(error)),
        write_after(WriteStep::OpenLock, true) == WriteStep::Lock,
        write_after(WriteStep::Lock, true) == WriteStep::Serialize,
        write_after(WriteStep::Serialize, true) == WriteStep::CreateTemporary,
        write_after(WriteStep::CreateTemporary, true) == WriteStep::WriteTemporary,
        write_after(WriteStep::WriteTemporary, true) == WriteStep::SyncTemporary,
        write_after(WriteStep::SyncTemporary, true) == WriteStep::Rename,
        write_after(WriteStep::Rename, true) == WriteStep::SetMode,
        write_after(WriteStep::SetMode, true) == WriteStep::SyncDirectory,
        write_after(WriteStep::SyncDirectory, true) == WriteStep::CheckResult,
        permission_problem(mode) is None ==> write_with_mode(WriteStep::CheckResult, mode)
            == WriteStep::Unlock(Ok(())),
        permission_problem(mode) matches Some(error) ==> write_with_mode(
            WriteStep::CheckResult,
            mode,
        ) == WriteStep::RemoveTemporary(error),
        forall|step: WriteStep|
            step == WriteStep::OpenLock || step == WriteStep::Lock || step == WriteStep::Serialize
                ==> #[trigger] write_after(step, false) == WriteStep::Finished(
                Err(AuthError::Write),
            ),
        forall|r: Result<(), AuthError>, unlocked: bool| #[trigger]
            write_after(WriteStep::Unlock(r), unlocked) == WriteStep::Finished(r),
        forall|error: AuthError, removed: bool| #[trigger]
            write_after(WriteStep::RemoveTemporary(error), removed) == WriteStep::Unlock(
                Err(error),
            ),
        forall|step: WriteStep|
            step == WriteStep::CreateTemporary || step == WriteStep::WriteTemporary || step
                == WriteStep::SyncTemporary || step == WriteStep::Rename || step
                == WriteStep::SetMode || step == WriteStep::SyncDirectory ==> #[trigger] write_after(
                step,
                false,
            ) == WriteStep::RemoveTemporary(AuthError::Write),
{
}

} // verus!
