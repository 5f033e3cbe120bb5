//! What the values of the library hold: laws that tie each view to the fields of the
//! value itself, and each error to the failure that it stands for.
use vstd::prelude::*;
use vstd::utf8::{decode_utf8, valid_utf8};

use crate::auth::{auth_problem, bytes_result, document_result, form_view, loaded_result};
use crate::auth::{session_result, AuthError, RefreshResponse, RefreshStep, RefreshStepView};
use crate::auth::{Session, SessionStep, SessionStepView};
use crate::codec::optional_bytes;
use crate::config::{config_result, host_result, Config, HostAddress};
use crate::flow::{optional_slice, response_result, Call, FlowView, RequestFlow, ResponseHead};
use crate::headers::{fields_view, optional_field, HeaderField};
use crate::install::{InstallTask, InstallView};
use crate::json::{list_view, lookup, optional_ref, optional_view, pair, text_of, with_default};
use crate::json::{Json, JsonView};
use crate::manager::{answer_result, command_outcome, plan_view, report_result, uid_result};
use crate::manager::{CommandLine, Exit, ManagerState, Plan, PlanView, Report};
use crate::ownership::{blocks_view, optional_file, problem_of, Manifest, OwnedBlock, OwnedFile};
use crate::path::byte_strings;
use crate::protocol::{adapted_view, ProtocolError, ProtocolErrorView};
use crate::quota::{line_result, ActionView, QuotaError, ServerAction};
use crate::relay::{outputs_view, Output, OutputView};
use crate::server::{optional_reply, Reply, UpstreamError};
use crate::service::definition_result;
use crate::settings::settings_view;
use crate::setup::{manifest_result, optional_path, outcome_view, path_result, FileRead};
use crate::setup::{FileReadView, SetupTask, SetupView};
use crate::sse::{frames_view, FrameView, SseFrame};
use crate::stream::{nested_field, ObservedUsage};
use crate::text::{lossy_text, optional_str, optional_text, text_result, texts, utf8_lossy};
use crate::uninstall::{optional_backup, state_result, Removal, ServiceBackup, Transaction};
use crate::uninstall::{UninstallTask, UninstallView};

verus! {

/// A check has a problem if and only if it failed, and it is the error of the failure.
pub proof fn lemma_problems_are_failures(
    check: Result<(), String>,
    auth: Result<(), AuthError>,
)
    ensures
        problem_of(check) is None <==> check is Ok,
        check matches Err(error) ==> problem_of(check) == Some(error@),
        auth_problem(auth) is None <==> auth is Ok,
        auth matches Err(error) ==> auth_problem(auth) == Some(error),
        outcome_view(check) is Ok <==> check is Ok,
        check matches Err(error) ==> outcome_view(check) == Err::<(), Seq<char>>(error@),
{
}

/// An optional value is there if and only if its view is, and then holds the same.
pub proof fn lemma_optional_values(
    text: Option<String>,
    borrowed: Option<&str>,
    bytes: Option<Vec<u8>>,
    slice: Option<&[u8]>,
    json: Option<Json>,
    lent: Option<&Json>,
    field: Option<&HeaderField>,
    reply: Option<Reply>,
    file: Option<OwnedFile>,
    backup: Option<ServiceBackup>,
)
    ensures
        optional_text(text) is Some <==> text is Some,
        text matches Some(value) ==> optional_text(text) == Some(value@),
        optional_str(borrowed) is Some <==> borrowed is Some,
        borrowed matches Some(value) ==> optional_str(borrowed) == Some(value@),
        optional_bytes(bytes) is Some <==> bytes is Some,
        bytes matches Some(value) ==> optional_bytes(bytes) == Some(value@),
        optional_path(bytes) == optional_bytes(bytes),
        optional_slice(slice) is Some <==> slice is Some,
        slice matches Some(value) ==> optional_slice(slice) == Some(value@),
        optional_view(json) is Some <==> json is Some,
        json matches Some(value) ==> optional_view(json) == Some(value@),
        optional_ref(lent) is Some <==> lent is Some,
        lent matches Some(value) ==> optional_ref(lent) == Some(value@),
        optional_field(field) is Some <==> field is Some,
        field matches Some(value) ==> optional_field(field) == Some(value@),
        optional_reply(reply) is Some <==> reply is Some,
        reply matches Some(value) ==> optional_reply(reply) == Some(value@),
        optional_file(file) is Some <==> file is Some,
        file matches Some(value) ==> optional_file(file) == Some(value@),
        optional_backup(backup) is Some <==> backup is Some,
        backup matches Some(value) ==> optional_backup(backup) == Some(value@),
{
}

/// A list holds what its items hold, one by one.
pub proof fn lemma_lists(
    strings: Seq<String>,
    pairs: Seq<(String, String)>,
    fields: Seq<HeaderField>,
    blocks: Seq<OwnedBlock>,
    paths: Seq<Vec<u8>>,
    outputs: Seq<Output>,
    frames: Seq<SseFrame>,
    items: Seq<Json>,
    i: int,
)
    ensures
        texts(strings).len() == strings.len(),
        0 <= i < strings.len() ==> texts(strings)[i] == strings[i]@,
        form_view(pairs).len() == pairs.len(),
        0 <= i < pairs.len() ==> form_view(pairs)[i] == (pairs[i].0@, pairs[i].1@),
        fields_view(fields).len() == fields.len(),
        0 <= i < fields.len() ==> fields_view(fields)[i] == fields[i]@,
        blocks_view(blocks).len() == blocks.len(),
        0 <= i < blocks.len() ==> blocks_view(blocks)[i] == blocks[i]@,
        byte_strings(paths).len() == paths.len(),
        0 <= i < paths.len() ==> byte_strings(paths)[i] == paths[i]@,
        outputs_view(outputs).len() == outputs.len(),
        0 <= i < outputs.len() ==> outputs_view(outputs)[i] == outputs[i]@,
        frames_view(frames).len() == frames.len(),
        0 <= i < frames.len() ==> frames_view(frames)[i] == frames[i]@,
        list_view(items).len() == items.len(),
        0 <= i < items.len() ==> list_view(items)[i] == items[i]@,
{
}

/// A result of the session's file holds what it was made of.
pub proof fn lemma_results_of_the_session(
    session: Session,
    json: Json,
    bytes: Vec<u8>,
    error: AuthError,
)
    ensures
        session_result(Ok(session)) == Ok::<_, AuthError>(session@),
        session_result(Err(error)) == Err::<crate::auth::SessionView, AuthError>(error),
        document_result(Ok(json)) == Ok::<_, AuthError>(json@),
        document_result(Err(error)) == Err::<JsonView, AuthError>(error),
        loaded_result(Ok((json, session))) == Ok::<_, AuthError>((json@, session@)),
        loaded_result(Err(error)) == Err::<(JsonView, crate::auth::SessionView), AuthError>(error),
        bytes_result(Ok(bytes)) == Ok::<_, AuthError>(bytes@),
        bytes_result(Err(error)) == Err::<Seq<u8>, AuthError>(error),
        session@.access_token == session.access_token@,
        session@.account_id == session.account_id@,
{
}

/// The tokens of a refresh, and the steps to a session, hold their fields.
pub proof fn lemma_steps_to_a_session(
    reply: RefreshResponse,
    r: Result<Session, AuthError>,
    token: String,
    auth: Json,
)
    ensures
        reply@.access_token == reply.access_token@,
        reply@.refresh_token == optional_text(reply.refresh_token),
        reply@.id_token == optional_text(reply.id_token),
        (SessionStep::Finished(r))@ == SessionStepView::Finished(session_result(r)),
        (SessionStep::Refresh { failed_token: token })@ == (SessionStepView::Refresh {
            failed_token: token@,
        }),
        (RefreshStep::Finished(r))@ == RefreshStepView::Finished(session_result(r)),
        (RefreshStep::Post { auth, refresh_token: token })@ == (RefreshStepView::Post {
            auth: auth@,
            refresh_token: token@,
        }),
{
}

/// A result of a text, of a path, of a document, of a manifest or of a definition holds
/// what it was made of, and an error its text.
pub proof fn lemma_results_with_a_message(
    text: String,
    path: Vec<u8>,
    body: Vec<u8>,
    json: Json,
    manifest: Manifest,
    config: Config,
    host: HostAddress,
    error: String,
)
    ensures
        text_result(Ok(text)) == Ok::<_, Seq<char>>(text@),
        text_result(Err(error)) == Err::<Seq<char>, _>(error@),
        path_result(Ok(path)) == Ok::<_, Seq<char>>(path@),
        path_result(Err(error)) == Err::<Seq<u8>, _>(error@),
        settings_view(Ok(json)) == Ok::<_, Seq<char>>(json@),
        settings_view(Err(error)) == Err::<JsonView, _>(error@),
        manifest_result(Ok(Some(manifest))) == Ok::<_, Seq<char>>(Some(manifest@)),
        manifest_result(Ok(None)) == Ok::<Option<crate::ownership::ManifestView>, Seq<char>>(None),
        manifest_result(Err(error)) == Err::<Option<crate::ownership::ManifestView>, _>(error@),
        definition_result(Ok((path, body))) == Ok::<_, Seq<char>>((path@, body@)),
        definition_result(Err(error)) == Err::<(Seq<u8>, Seq<u8>), _>(error@),
        config_result(Ok(config)) == Ok::<_, Seq<char>>(config@),
        config_result(Err(error)) == Err::<crate::config::ConfigView, _>(error@),
        host_result(Ok(host)) == Ok::<_, Seq<char>>(host),
        host_result(Err(error)) == Err::<HostAddress, _>(error@),
{
}

/// A configuration holds its settings.
pub proof fn lemma_settings(config: Config)
    ensures
        config@.host == config.host,
        config@.port == config.port,
        config@.auth_path == config.auth_path@,
        config@.upstream_url == config.upstream_url@,
        config@.max_body_bytes == config.max_body_bytes,
        config@.max_streams == config.max_streams,
        config@.upstream_idle_timeout == config.upstream_idle_timeout,
        config@.drain_timeout == config.drain_timeout,
{
}

/// What an adapted request, or the refusal in its place, holds.
pub proof fn lemma_adapted_results(json: Json, error: ProtocolError, name: String)
    ensures
        adapted_view(Ok(json)) == Ok::<_, ProtocolErrorView>(json@),
        adapted_view(Err(error)) == Err::<JsonView, _>(error@),
        ProtocolError::RootMustBeObject@ == ProtocolErrorView::RootMustBeObject,
        ProtocolError::MissingModel@ == ProtocolErrorView::MissingModel,
        ProtocolError::InvalidInput@ == ProtocolErrorView::InvalidInput,
        ProtocolError::InvalidInstructions@ == ProtocolErrorView::InvalidInstructions,
        ProtocolError::UnsupportedModel(name)@ == ProtocolErrorView::UnsupportedModel(name@),
        ProtocolError::UnsupportedField(name)@ == ProtocolErrorView::UnsupportedField(name@),
{
}

/// What a request, a reply and the start of a response hold.
pub proof fn lemma_requests_and_replies(
    call: Call,
    reply: Reply,
    head: ResponseHead,
    field: HeaderField,
    error: UpstreamError,
)
    ensures
        call@.adapted == call.adapted@,
        call@.model == call.model@,
        call@.effort == call.effort@,
        reply@.status == reply.status,
        reply@.body == reply.body@,
        head@.status == head.status,
        head@.content_type == optional_text(head.content_type),
        field@.name == field.name@,
        field@.value == optional_text(field.value),
        response_result(Ok(head)) == Ok::<_, UpstreamError>(head@),
        response_result(Err(error)) == Err::<crate::flow::HeadView, UpstreamError>(error),
{
}

/// Where a request stands, and with what.
pub proof fn lemma_where_a_request_stands(
    call: Call,
    reply: Reply,
    session: Session,
    retried: bool,
    model: String,
    effort: String,
    token: String,
)
    ensures
        (RequestFlow::Refused(reply))@ == FlowView::Refused(reply@),
        RequestFlow::ReadBody@ == FlowView::ReadBody,
        (RequestFlow::Failed { model, effort, reply })@ == (FlowView::Failed {
            model: model@,
            effort: effort@,
            reply: reply@,
        }),
        (RequestFlow::Acquire(call))@ == FlowView::Acquire(call@),
        (RequestFlow::Authenticate(call))@ == FlowView::Authenticate(call@),
        (RequestFlow::Send { call, session, retried })@ == (FlowView::Send {
            call: call@,
            session: session@,
            retried,
        }),
        (RequestFlow::Refresh { call, failed_token: token })@ == (FlowView::Refresh {
            call: call@,
            failed_token: token@,
        }),
        (RequestFlow::Stream(call))@ == FlowView::Stream(call@),
{
}

/// What frames and the outputs of a relay hold.
pub proof fn lemma_frames_and_outputs(bytes: Vec<u8>, text: String, usage: ObservedUsage)
    ensures
        (SseFrame::Comment(bytes))@ == FrameView::Comment(bytes@),
        (SseFrame::Data(text))@ == FrameView::Data(text@),
        SseFrame::Done@ == FrameView::Done,
        (Output::Send(bytes))@ == OutputView::Send(bytes@),
        (Output::Usage(usage))@ == OutputView::Usage(usage),
{
}

/// What is owned, and what a manifest holds.
pub proof fn lemma_what_is_owned(block: OwnedBlock, file: OwnedFile, manifest: Manifest)
    ensures
        block@.name == block.name@,
        block@.bytes == block.bytes@,
        block@.digest == block.digest@,
        file@.path == file.path@,
        file@.digest == file.digest@,
        manifest@.version == manifest.version,
        manifest@.config == manifest.config@,
        manifest@.blocks == blocks_view(manifest.blocks@),
        manifest@.service == optional_file(manifest.service),
{
}

/// What the steps of a setup hold.
pub proof fn lemma_steps_of_a_setup(
    path: Vec<u8>,
    old: Vec<u8>,
    next: Vec<u8>,
    manifest: Manifest,
    text: String,
    r: Result<String, String>,
)
    ensures
        (FileRead::Content(old))@ == FileReadView::Content(old@),
        FileRead::Missing@ == FileReadView::Missing,
        (FileRead::Failed(text))@ == FileReadView::Failed(text@),
        (SetupTask::Finished(r))@ == SetupView::Finished(text_result(r)),
        (SetupTask::Reconcile { manifest, message: text })@ == (SetupView::Reconcile {
            manifest: manifest@,
            message: text@,
        }),
        (SetupTask::WriteConfig { path, old, next, manifest })@ == (SetupView::WriteConfig {
            path: path@,
            old: old@,
            next: next@,
            manifest: manifest@,
        }),
        (SetupTask::WriteManifest { path, old, manifest })@ == (SetupView::WriteManifest {
            path: path@,
            old: old@,
            manifest: manifest@,
        }),
        (SetupTask::RestoreConfig { path, old, error: text })@ == (SetupView::RestoreConfig {
            path: path@,
            old: old@,
            error: text@,
        }),
{
}

/// What the steps of an install hold.
pub proof fn lemma_steps_of_an_install(
    path: Vec<u8>,
    body: Vec<u8>,
    manifest: Manifest,
    error: String,
    r: Result<String, String>,
)
    ensures
        (InstallTask::Finished(r))@ == InstallView::Finished(text_result(r)),
        (InstallTask::WriteService { path, body, manifest })@ == (InstallView::WriteService {
            path: path@,
            body: body@,
            manifest: manifest@,
        }),
        (InstallTask::WriteManifest { path, manifest })@ == (InstallView::WriteManifest {
            path: path@,
            manifest: manifest@,
        }),
        (InstallTask::RemoveService { path, error })@ == (InstallView::RemoveService {
            path: path@,
            error: error@,
        }),
        (InstallTask::Start { path })@ == (InstallView::Start { path: path@ }),
{
}

/// What an uninstall works with.
pub proof fn lemma_what_an_uninstall_works_with(
    removal: Removal,
    backup: ServiceBackup,
    job: Transaction,
    state: ManagerState,
    error: String,
)
    ensures
        removal@.path == removal.path@,
        removal@.old == removal.old@,
        removal@.manifest == removal.manifest@,
        backup@.path == backup.path@,
        backup@.bytes == backup.bytes@,
        backup@.state == backup.state,
        job@.path == job.path@,
        job@.old == job.old@,
        job@.next == job.next@,
        job@.service == optional_backup(job.service),
        state_result(Ok(state)) == Ok::<_, Seq<char>>(state),
        state_result(Err(error)) == Err::<ManagerState, _>(error@),
{
}

/// What the steps of an uninstall hold.
pub proof fn lemma_steps_of_an_uninstall(
    removal: Removal,
    job: Transaction,
    state: ManagerState,
    path: Vec<u8>,
    old: Vec<u8>,
    next: Vec<u8>,
    file: Vec<u8>,
    error: String,
    failures: Vec<String>,
    r: Result<String, String>,
)
    ensures
        (UninstallTask::Finished(r))@ == UninstallView::Finished(text_result(r)),
        (UninstallTask::QueryManager(removal))@ == UninstallView::QueryManager(removal@),
        (UninstallTask::StopService(removal, state))@ == UninstallView::StopService(
            removal@,
            state,
        ),
        (UninstallTask::ReadService { path, old, next, file, state })@ == (
        UninstallView::ReadService {
            path: path@,
            old: old@,
            next: next@,
            file: file@,
            state,
        }),
        (UninstallTask::WriteConfig(job))@ == UninstallView::WriteConfig(job@),
        (UninstallTask::RemoveService(job))@ == UninstallView::RemoveService(job@),
        (UninstallTask::ReloadManager(job))@ == UninstallView::ReloadManager(job@),
        (UninstallTask::RemoveManifest(job))@ == UninstallView::RemoveManifest(job@),
        (UninstallTask::RestoreConfig(job, error))@ == UninstallView::RestoreConfig(job@, error@),
        (UninstallTask::RestoreService(job, error, failures))@ == UninstallView::RestoreService(
            job@,
            error@,
            texts(failures@),
        ),
        (UninstallTask::RestoreManager(job, error, failures))@ == UninstallView::RestoreManager(
            job@,
            error@,
            texts(failures@),
        ),
{
}

/// What commands, their ends and plans hold.
pub proof fn lemma_commands_and_plans(
    command: CommandLine,
    exit: Exit,
    report: Result<Report, String>,
    rest: Plan,
    other: Plan,
    question: crate::manager::Question,
    uid: u32,
    answer: bool,
    done: Report,
    error: String,
)
    ensures
        command@.program == command.program@,
        command@.args == texts(command.args@),
        command_outcome(Ok(exit)) matches Ok(ended) && ended.success == exit.success && ended.code
            == exit.code && ended.shown == exit.shown@,
        command_outcome(Err(error)) == Err::<crate::manager::ExitView, _>(error@),
        plan_view(Plan::Done(report)) == PlanView::Done(report_result(report)),
        plan_view(Plan::Run { command, rest: Box::new(rest) }) == (PlanView::Run {
            command: command@,
            rest: Box::new(rest@),
        }),
        plan_view(
            Plan::Ask { question, command, yes: Box::new(rest), no: Box::new(other) },
        ) == (PlanView::Ask {
            question,
            command: command@,
            yes: Box::new(rest@),
            no: Box::new(other@),
        }),
        report_result(Ok(done)) == Ok::<_, Seq<char>>(done),
        report_result(Err(error)) == Err::<Report, _>(error@),
        uid_result(Ok(uid)) == Ok::<_, Seq<char>>(uid),
        uid_result(Err(error)) == Err::<u32, _>(error@),
        answer_result(Ok(answer)) == Ok::<_, Seq<char>>(answer),
        answer_result(Err(error)) == Err::<bool, _>(error@),
{
    reveal_with_fuel(plan_view, 2);
}

/// What a JSON value holds.
pub proof fn lemma_json_values(text: String, value: bool, items: Vec<Json>)
    ensures
        Json::Null@ == JsonView::Null,
        (Json::Bool(value))@ == JsonView::Bool(value),
        (Json::Text(text))@ == JsonView::Text(text@),
        (Json::List(items))@ == JsonView::List(list_view(items@)),
{
}

/// What is done with the app server holds its message, and a line its bytes.
pub proof fn lemma_actions(
    line: Vec<u8>,
    message: Option<Json>,
    error: QuotaError,
)
    ensures
        ServerAction::Stop@ == ActionView::Stop,
        (ServerAction::Send(line))@ == ActionView::Send(line@),
        (ServerAction::Read(message))@ == ActionView::Read(optional_view(message)),
        (ServerAction::Fail(error))@ == ActionView::Fail(error),
        line_result(Ok(line)) == Ok::<_, QuotaError>(line@),
        line_result(Err(error)) == Err::<Seq<u8>, QuotaError>(error),
{
}

/// A field of an object is found if and only if the object has it, and nothing is found in
/// what is no object. What is found is a text, a number, a list or an object only if it is
/// that.
pub proof fn lemma_what_is_found(
    fields: Map<Seq<char>, JsonView>,
    key: Seq<char>,
    other: Seq<char>,
    json: JsonView,
)
    ensures
        lookup(fields, key) is Some <==> fields.dom().contains(key),
        fields.dom().contains(key) ==> lookup(fields, key) == Some(fields[key]),
        JsonView::Object(fields).field(key) == lookup(fields, key),
        !(json is Object) ==> json.field(key) is None,
        json.text() is Some <==> json is Text,
        json matches JsonView::Text(text) ==> json.text() == Some(text),
        json.unsigned() is Some <==> json is Unsigned,
        json matches JsonView::Unsigned(number) ==> json.unsigned() == Some(number),
        json.list() is Some <==> json is List,
        json matches JsonView::List(items) ==> json.list() == Some(items),
        json.object() is Some <==> json is Object,
        json matches JsonView::Object(inner) ==> json.object() == Some(inner),
        text_of(None) is None,
        text_of(Some(json)) == json.text(),
        json.text_field(key) == text_of(json.field(key)),
        json.unsigned_field(key) is Some <==> (json.field(key) matches Some(value)
            && value is Unsigned),
        json.field(key) matches Some(value) ==> json.unsigned_field(key) == value.unsigned(),
        nested_field(json, key, other) is Some <==> (json.field(key) matches Some(inner)
            && inner.field(other) is Some),
        json.field(key) matches Some(inner) ==> nested_field(json, key, other) == inner.field(
            other,
        ),
{
}

/// A default is taken only where nothing is there; an insertion is found again, and
/// changes nothing else.
pub proof fn lemma_what_is_put(
    fields: Map<Seq<char>, JsonView>,
    key: Seq<char>,
    value: JsonView,
    other: Seq<char>,
)
    ensures
        lookup(with_default(fields, key, value), key) == (match lookup(fields, key) {
            Some(found) => Some(found),
            None => Some(value),
        }),
        other != key ==> lookup(with_default(fields, key, value), other) == lookup(fields, other),
        lookup(fields.insert(key, value), key) == Some(value),
        other != key ==> lookup(fields.insert(key, value), other) == lookup(fields, other),
        key != other ==> (pair(key, value, other, JsonView::Null) matches JsonView::Object(both)
            && lookup(both, key) == Some(value) && lookup(both, other) == Some(JsonView::Null)
            && both.dom() == set![key, other]),
{
    assert(set![key, other] =~= Set::empty().insert(key).insert(other));
}

/// Bytes that are text are shown as that text.
pub proof fn lemma_how_bytes_are_shown(bytes: Seq<u8>)
    ensures
        valid_utf8(bytes) ==> lossy_text(bytes) == decode_utf8(bytes),
        !valid_utf8(bytes) ==> lossy_text(bytes) == utf8_lossy(bytes),
{
}

} // verus!
