//! The command line: its commands, what they print, and the checks of `doctor`.
use vstd::prelude::*;

use crate::codec::{optional_bytes, render_text, text_of_json};
use crate::config::DEFAULT_PORT;
use crate::json::{Json, JsonView};
use crate::manager::answer_result;
use crate::metrics::SnapshotView;
use crate::ownership::{file_problem, manifest_problem, problem_of, verify_manifest};
use crate::ownership::{verify_owned_file, Manifest, ManifestView};
use crate::quota::QuotaView;
use crate::server::{health_reply, status_reply, SERVICE};
use crate::setup::{manifest_result, path_result};
use crate::text::{concat, concat3, decimal, decimal_text, is_text, join, joined, text_result};
use crate::text::texts;

verus! {

/// A command of the bridge.
#[derive(Debug, PartialEq, Eq)]
pub enum Action {
    Run,
    Start,
    Stop,
    Restart,
    Status,
    Doctor,
    Setup { dry_run: bool, config: Option<Vec<u8>> },
    Uninstall { dry_run: bool, config: Option<Vec<u8>> },
}

/// What the user has typed.
#[derive(Debug, PartialEq, Eq)]
pub struct Cli {
    pub command: Option<Action>,
}

impl Cli {
    /// The command to carry out: without one, the bridge is run.
    pub fn action(self) -> (action: Action)
        ensures
            action == (match self.command {
                Some(action) => action,
                None => Action::Run,
            }),
    {
        match self.command {
            Some(action) => action,
            None => Action::Run,
        }
    }
}

/// A line that is printed, and whether it reports success. Failures are printed
/// as errors.
#[derive(Debug, PartialEq, Eq)]
pub struct Printed {
    pub line: String,
    pub success: bool,
}

/// What is printed of the result of a command.
pub fn out(r: Result<String, String>) -> (printed: Printed)
    ensures
        printed.success == r is Ok,
        printed.line@ == (match text_result(r) {
            Ok(text) => text,
            Err(error) => "error: "@ + error,
        }),
{
    match r {
        Ok(text) => Printed { line: text, success: true },
        Err(error) => Printed { line: concat("error: ", error.as_str()), success: false },
    }
}

/// Where the running bridge is asked for itself.
pub fn identity_url(path: &str) -> (url: String)
    ensures
        url@ == "http://127.0.0.1:"@ + decimal(DEFAULT_PORT as nat) + path@,
{
    concat3("http://127.0.0.1:", decimal_text(DEFAULT_PORT as u128).as_str(), path)
}

/// What came of asking the running bridge for itself.
#[derive(Debug, PartialEq, Eq)]
pub enum IdentityReply {
    /// There was no reply.
    Unreachable(String),
    /// The reply was not a success; this is how its status is shown.
    Refused(String),
    /// The reply was not JSON.
    Malformed(String),
    Body(Json),
}

/// The document of the bridge, if it is one.
pub open spec fn identity_of(reply: IdentityReply) -> Result<JsonView, Seq<char>> {
    match reply {
        IdentityReply::Unreachable(error) => Err("bridge unavailable: "@ + error@),
        IdentityReply::Refused(status) => Err("bridge returned HTTP "@ + status@),
        IdentityReply::Malformed(error) => Err("invalid bridge JSON: "@ + error@),
        IdentityReply::Body(body) => if body@.text_field("service"@) == Some(SERVICE@) {
            Ok(body@)
        } else {
            Err("listener is not codex-for-grok"@)
        },
    }
}

/// Reads the document of the bridge, if it is one.
pub fn fetch_identity(reply: IdentityReply) -> (r: Result<Json, String>)
    ensures
        crate::settings::settings_view(r) == identity_of(reply),
{
    match reply {
        IdentityReply::Unreachable(error) => Err(concat("bridge unavailable: ", error.as_str())),
        IdentityReply::Refused(status) => Err(concat("bridge returned HTTP ", status.as_str())),
        IdentityReply::Malformed(error) => Err(concat("invalid bridge JSON: ", error.as_str())),
        IdentityReply::Body(body) => if is_text(body.text_field("service"), SERVICE) {
            Ok(body)
        } else {
            Err("listener is not codex-for-grok".to_owned())
        },
    }
}

/// The bridge identifies itself: what its health and status endpoints reply to
/// the machine itself is accepted as the document of the bridge.
pub proof fn lemma_bridge_identifies_itself(body: Json, snapshot: SnapshotView, quota: QuotaView)
    requires
        body@ == health_reply().body || body@ == status_reply(snapshot, quota).body,
    ensures
        identity_of(IdentityReply::Body(body)) == Ok::<JsonView, Seq<char>>(body@),
{
    reveal_strlit("ok");
    reveal_strlit("service");
    reveal_strlit("version");
    reveal_strlit("bridge");
    reveal_strlit("codex_subscription");
    assert("ok"@.len() == 2);
    assert("service"@.len() == 7 && "service"@[0] == 's');
    assert("version"@.len() == 7 && "version"@[0] == 'v');
    assert("bridge"@.len() == 6);
    assert("codex_subscription"@.len() == 18);
}

/// What the status command reports.
pub fn status(reply: IdentityReply) -> (r: Result<String, String>)
    ensures
        text_result(r) == (match identity_of(reply) {
            Ok(body) => Ok(text_of_json(body)),
            Err(error) => Err(error),
        }),
{
    match fetch_identity(reply) {
        Ok(body) => Ok(render_text(&body)),
        Err(error) => Err(error),
    }
}

/// What is known of the authentication file.
#[derive(Clone, Copy, Debug, PartialEq, Eq, Structural)]
pub enum AuthProbe {
    /// The environment of the bridge is not valid.
    InvalidEnvironment,
    /// The file is not there.
    Missing,
    Present,
}

/// What `doctor` has found out.
#[derive(Debug, PartialEq, Eq)]
pub struct Findings {
    pub grok_found: bool,
    pub codex_found: bool,
    /// Where the configuration is.
    pub config: Result<Vec<u8>, String>,
    pub manifest: Result<Option<Manifest>, String>,
    /// What the configuration holds.
    pub content: Result<Vec<u8>, String>,
    /// What the recorded service definition holds; none, where it could not be
    /// read.
    pub service: Option<Vec<u8>>,
    /// Whether the service is active.
    pub active: Result<bool, String>,
    pub auth: AuthProbe,
    pub identity: Result<(), String>,
}

/// A failure, where there is one.
pub open spec fn one(problem: Option<Seq<char>>) -> Seq<Seq<char>> {
    match problem {
        Some(problem) => seq![problem],
        None => Seq::empty(),
    }
}

/// What is wrong with an executable.
pub open spec fn executable_failures(found: bool, failure: Seq<char>) -> Seq<Seq<char>> {
    if found {
        Seq::empty()
    } else {
        seq![failure]
    }
}

/// What is wrong with the recorded service.
pub open spec fn service_failures(
    manifest: ManifestView,
    service: Option<Seq<u8>>,
    active: Result<bool, Seq<char>>,
) -> Seq<Seq<char>> {
    match manifest.service {
        None => Seq::empty(),
        Some(file) => match file_problem(file, service) {
            Some(problem) => seq![problem],
            None => match active {
                Ok(true) => Seq::empty(),
                Ok(false) => seq!["owned service is not loaded/active"@],
                Err(error) => seq!["service manager check failed: "@ + error],
            },
        },
    }
}

/// What is wrong with what the bridge owns.
pub open spec fn ownership_failures(
    config: Result<Seq<u8>, Seq<char>>,
    manifest: Result<Option<ManifestView>, Seq<char>>,
    content: Result<Seq<u8>, Seq<char>>,
    service: Option<Seq<u8>>,
    active: Result<bool, Seq<char>>,
) -> Seq<Seq<char>> {
    match config {
        Err(error) => seq![error],
        Ok(path) => match manifest {
            Err(error) => seq![error],
            Ok(None) => seq!["ownership manifest missing; run setup"@],
            Ok(Some(manifest)) => match content {
                Err(error) => seq!["config unreadable: "@ + error],
                Ok(bytes) => one(manifest_problem(manifest, path, bytes)) + service_failures(
                    manifest,
                    service,
                    active,
                ),
            },
        },
    }
}

/// Whether `doctor` has to know if the service is active: everything that it owns
/// could be read, and the recorded definition is unchanged.
pub open spec fn activity_counts(
    config: Result<Seq<u8>, Seq<char>>,
    manifest: Result<Option<ManifestView>, Seq<char>>,
    content: Result<Seq<u8>, Seq<char>>,
    service: Option<Seq<u8>>,
) -> bool {
    &&& config is Ok
    &&& content is Ok
    &&& manifest matches Ok(Some(manifest))
    &&& manifest.service matches Some(file)
    &&& file_problem(file, service) is None
}

/// Where `doctor` does not have to know if the service is active, it makes no
/// difference.
pub proof fn lemma_activity_counts(
    config: Result<Seq<u8>, Seq<char>>,
    manifest: Result<Option<ManifestView>, Seq<char>>,
    content: Result<Seq<u8>, Seq<char>>,
    service: Option<Seq<u8>>,
    one: Result<bool, Seq<char>>,
    other: Result<bool, Seq<char>>,
)
    requires
        !activity_counts(config, manifest, content, service),
    ensures
        ownership_failures(config, manifest, content, service, one) == ownership_failures(
            config,
            manifest,
            content,
            service,
            other,
        ),
{
}

/// Decides whether the service manager is asked if the service is active.
pub fn asks_manager(
    config: &Result<Vec<u8>, String>,
    manifest: &Result<Option<Manifest>, String>,
    content: &Result<Vec<u8>, String>,
    service: &Option<Vec<u8>>,
) -> (r: bool)
    ensures
        r == activity_counts(
            path_result(*config),
            manifest_result(*manifest),
            path_result(*content),
            optional_bytes(*service),
        ),
{
    if config.is_err() || content.is_err() {
        return false;
    }
    match manifest {
        Ok(Some(manifest)) => match &manifest.service {
            Some(file) => verify_owned_file(file, service).is_ok(),
            None => false,
        },
        _ => false,
    }
}

/// What is wrong with the authentication file.
pub open spec fn auth_failures(auth: AuthProbe) -> Seq<Seq<char>> {
    match auth {
        AuthProbe::InvalidEnvironment => seq!["invalid bridge environment"@],
        AuthProbe::Missing => seq!["Codex auth missing; run `codex login`"@],
        AuthProbe::Present => Seq::empty(),
    }
}

/// All that is wrong, in order.
pub open spec fn failures_of(findings: Findings) -> Seq<Seq<char>> {
    executable_failures(
        findings.grok_found,
        "Grok Build executable `grok` is not available on PATH"@,
    ) + executable_failures(
        findings.codex_found,
        "Codex CLI executable `codex` is not available on PATH"@,
    ) + ownership_failures(
        path_result(findings.config),
        manifest_result(findings.manifest),
        path_result(findings.content),
        optional_bytes(findings.service),
        answer_result(findings.active),
    ) + auth_failures(findings.auth) + one(problem_of(findings.identity))
}

fn push_text(failures: &mut Vec<String>, failure: String)
    ensures
        texts(final(failures)@) == texts(old(failures)@) + seq![failure@],
{
    let ghost before = texts(failures@);
    failures.push(failure);
    assert(texts(failures@) =~= before + seq![failure@]);
}

fn push_problem(failures: &mut Vec<String>, r: Result<(), String>)
    ensures
        texts(final(failures)@) == texts(old(failures)@) + one(problem_of(r)),
{
    match r {
        Ok(_) => {
            assert(texts(failures@) + Seq::<Seq<char>>::empty() =~= texts(failures@));
        },
        Err(error) => push_text(failures, error),
    }
}

fn push_service(
    failures: &mut Vec<String>,
    manifest: &Manifest,
    service: &Option<Vec<u8>>,
    active: Result<bool, String>,
)
    ensures
        texts(final(failures)@) == texts(old(failures)@) + service_failures(
            manifest@,
            optional_bytes(*service),
            answer_result(active),
        ),
{
    let ghost before = texts(failures@);
    let file = match &manifest.service {
        Some(file) => file,
        None => {
            assert(texts(failures@) + Seq::<Seq<char>>::empty() =~= texts(failures@));
            return;
        },
    };
    match verify_owned_file(file, service) {
        Err(error) => push_text(failures, error),
        Ok(_) => match active {
            Ok(active) => if active {
                assert(texts(failures@) + Seq::<Seq<char>>::empty() =~= texts(failures@));
            } else {
                push_text(failures, "owned service is not loaded/active".to_owned());
            },
            Err(error) => push_text(
                failures,
                concat("service manager check failed: ", error.as_str()),
            ),
        },
    }
}

fn push_ownership(
    failures: &mut Vec<String>,
    config: Result<Vec<u8>, String>,
    manifest: Result<Option<Manifest>, String>,
    content: Result<Vec<u8>, String>,
    service: &Option<Vec<u8>>,
    active: Result<bool, String>,
)
    ensures
        texts(final(failures)@) == texts(old(failures)@) + ownership_failures(
            path_result(config),
            manifest_result(manifest),
            path_result(content),
            optional_bytes(*service),
            answer_result(active),
        ),
{
    let ghost before = texts(failures@);
    let path = match config {
        Ok(path) => path,
        Err(error) => {
            push_text(failures, error);
            return;
        },
    };
    let manifest = match manifest {
        Ok(Some(manifest)) => manifest,
        Ok(None) => {
            push_text(failures, "ownership manifest missing; run setup".to_owned());
            return;
        },
        Err(error) => {
            push_text(failures, error);
            return;
        },
    };
    let bytes = match content {
        Ok(bytes) => bytes,
        Err(error) => {
            push_text(failures, concat("config unreadable: ", error.as_str()));
            return;
        },
    };
    let ghost problem = one(manifest_problem(manifest@, path@, bytes@));
    push_problem(failures, verify_manifest(&manifest, path.as_slice(), bytes.as_slice()));
    push_service(failures, &manifest, service, active);
    assert(texts(failures@) =~= before + (problem + service_failures(
        manifest@,
        optional_bytes(*service),
        answer_result(active),
    )));
}

/// Reports all that `doctor` has found wrong, or that nothing is.
pub fn doctor(findings: Findings) -> (r: Result<String, String>)
    ensures
        text_result(r) == (if failures_of(findings).len() == 0 {
            Ok("doctor: all checks passed"@)
        } else {
            Err(joined(failures_of(findings), "; "@))
        }),
{
    let mut failures: Vec<String> = Vec::new();
    if !findings.grok_found {
        push_text(
            &mut failures,
            "Grok Build executable `grok` is not available on PATH".to_owned(),
        );
    }
    let ghost first = executable_failures(
        findings.grok_found,
        "Grok Build executable `grok` is not available on PATH"@,
    );
    assert(texts(failures@) =~= first);
    if !findings.codex_found {
        push_text(
            &mut failures,
            "Codex CLI executable `codex` is not available on PATH".to_owned(),
        );
    }
    let ghost second = executable_failures(
        findings.codex_found,
        "Codex CLI executable `codex` is not available on PATH"@,
    );
    assert(texts(failures@) =~= first + second);
    let ghost third = ownership_failures(
        path_result(findings.config),
        manifest_result(findings.manifest),
        path_result(findings.content),
        optional_bytes(findings.service),
        answer_result(findings.active),
    );
    let Findings { config, manifest, content, service, active, auth, identity, .. } = findings;
    push_ownership(&mut failures, config, manifest, content, &service, active);
    assert(texts(failures@) =~= first + second + third);
    match auth {
        AuthProbe::InvalidEnvironment => push_text(
            &mut failures,
            "invalid bridge environment".to_owned(),
        ),
        AuthProbe::Missing => push_text(
            &mut failures,
            "Codex auth missing; run `codex login`".to_owned(),
        ),
        AuthProbe::Present => {},
    }
    assert(texts(failures@) =~= first + second + third + auth_failures(auth));
    push_problem(&mut failures, identity);
    assert(texts(failures@).len() == failures@.len());
    if failures.len() == 0 {
        Ok("doctor: all checks passed".to_owned())
    } else {
        Err(join(&failures, "; "))
    }
}

/// `doctor` passes if and only if each of its checks does.
pub proof fn lemma_doctor_passes(findings: Findings)
    ensures
        failures_of(findings).len() == 0 <==> {
            &&& findings.grok_found
            &&& findings.codex_found
            &&& findings.auth == AuthProbe::Present
            &&& findings.identity is Ok
            &&& findings.config matches Ok(path)
            &&& findings.manifest matches Ok(Some(manifest))
            &&& findings.content matches Ok(bytes)
            &&& manifest_problem(manifest@, path@, bytes@) is None
            &&& manifest@.service matches Some(file) ==> file_problem(
                file,
                optional_bytes(findings.service),
            ) is None && findings.active matches Ok(true)
        },
{
}

} // verus!
