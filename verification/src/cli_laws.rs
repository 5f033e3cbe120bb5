//! What the command line tells: laws on the identity of the bridge and on what the
//! doctor finds.
use vstd::prelude::*;

use crate::cli::{auth_failures, failures_of, identity_of, AuthProbe, Findings, IdentityReply};
use crate::json::{lookup, Json, JsonView};
use crate::ownership::{file_problem, manifest_problem};

verus! {

/// A reply is the bridge's if and only if it is a document that names the service; what
/// is not says why.
pub proof fn lemma_who_is_the_bridge(body: Json, text: String)
    ensures
        identity_of(IdentityReply::Body(body)) == (if body@ matches JsonView::Object(fields)
            && lookup(fields, "service"@) == Some(JsonView::Text("codex-for-grok"@)) {
            Ok::<JsonView, Seq<char>>(body@)
        } else {
            Err("listener is not codex-for-grok"@)
        }),
        identity_of(IdentityReply::Unreachable(text)) == Err::<JsonView, Seq<char>>(
            "bridge unavailable: "@ + text@,
        ),
        identity_of(IdentityReply::Refused(text)) == Err::<JsonView, Seq<char>>(
            "bridge returned HTTP "@ + text@,
        ),
        identity_of(IdentityReply::Malformed(text)) == Err::<JsonView, Seq<char>>(
            "invalid bridge JSON: "@ + text@,
        ),
{
}

/// Each program that is missing adds one finding, Grok's before all others and Codex's
/// next.
pub proof fn lemma_missing_programs(findings: Findings)
    ensures
        failures_of(Findings { grok_found: false, ..findings }) == seq![
            "Grok Build executable `grok` is not available on PATH"@,
        ] + failures_of(Findings { grok_found: true, ..findings }),
        failures_of(Findings { grok_found: true, codex_found: false, ..findings }) == seq![
            "Codex CLI executable `codex` is not available on PATH"@,
        ] + failures_of(Findings { grok_found: true, codex_found: true, ..findings }),
{
    let none = Seq::<Seq<char>>::empty();
    let own = crate::cli::ownership_failures(
        crate::setup::path_result(findings.config),
        crate::setup::manifest_result(findings.manifest),
        crate::setup::path_result(findings.content),
        crate::codec::optional_bytes(findings.service),
        crate::manager::answer_result(findings.active),
    );
    let auth = auth_failures(findings.auth);
    let last = crate::cli::one(crate::ownership::problem_of(findings.identity));
    let codex = crate::cli::executable_failures(
        findings.codex_found,
        "Codex CLI executable `codex` is not available on PATH"@,
    );
    let grok = seq!["Grok Build executable `grok` is not available on PATH"@];
    assert(grok + codex + own + auth + last =~= grok + (none + codex + own + auth + last));
    let absent = seq!["Codex CLI executable `codex` is not available on PATH"@];
    assert(none + absent + own + auth + last =~= absent + (none + none + own + auth + last));
}

/// A bridge that does not identify itself adds one finding behind all others, and a
/// session that is not there adds one before that.
pub proof fn lemma_last_findings(findings: Findings, error: String)
    ensures
        failures_of(Findings { identity: Err(error), ..findings }) == failures_of(
            Findings { identity: Ok(()), ..findings },
        ).push(error@),
        failures_of(Findings { auth: AuthProbe::Missing, identity: Ok(()), ..findings })
            == failures_of(
            Findings { auth: AuthProbe::Present, identity: Ok(()), ..findings },
        ).push("Codex auth missing; run `codex login`"@),
        failures_of(Findings { auth: AuthProbe::InvalidEnvironment, identity: Ok(()), ..findings })
            == failures_of(
            Findings { auth: AuthProbe::Present, identity: Ok(()), ..findings },
        ).push("invalid bridge environment"@),
{
    let before = crate::cli::executable_failures(
        findings.grok_found,
        "Grok Build executable `grok` is not available on PATH"@,
    ) + crate::cli::executable_failures(
        findings.codex_found,
        "Codex CLI executable `codex` is not available on PATH"@,
    ) + crate::cli::ownership_failures(
        crate::setup::path_result(findings.config),
        crate::setup::manifest_result(findings.manifest),
        crate::setup::path_result(findings.content),
        crate::codec::optional_bytes(findings.service),
        crate::manager::answer_result(findings.active),
    );
    let none = Seq::<Seq<char>>::empty();
    let auth = auth_failures(findings.auth);
    assert(before + auth + seq![error@] =~= (before + auth + none).push(error@));
    let absent = "Codex auth missing; run `codex login`"@;
    let invalid = "invalid bridge environment"@;
    assert(before + seq![absent] + none =~= (before + none + none).push(absent));
    assert(before + seq![invalid] + none =~= (before + none + none).push(invalid));
}

/// What is found of the configuration and the service, where all else is well: the first
/// thing that cannot be read; else a block that was changed, and a service that is not the
/// bridge's own or, being its own, is not active.
pub proof fn lemma_what_is_found_of_the_configuration(findings: Findings)
    requires
        findings.grok_found,
        findings.codex_found,
        findings.auth == AuthProbe::Present,
        findings.identity is Ok,
    ensures
        match (findings.config, findings.manifest, findings.content) {
            (Err(error), _, _) => failures_of(findings) == seq![error@],
            (Ok(_), Err(error), _) => failures_of(findings) == seq![error@],
            (Ok(_), Ok(None), _) => failures_of(findings) == seq![
                "ownership manifest missing; run setup"@,
            ],
            (Ok(_), Ok(Some(_)), Err(error)) => failures_of(findings) == seq![
                "config unreadable: "@ + error@,
            ],
            (Ok(path), Ok(Some(manifest)), Ok(bytes)) => {
                let changed: Seq<Seq<char>> = match manifest_problem(manifest@, path@, bytes@) {
                    Some(problem) => seq![problem],
                    None => Seq::empty(),
                };
                match manifest.service {
                    None => failures_of(findings) == changed,
                    Some(file) => {
                        let content = match findings.service {
                            Some(bytes) => Some(bytes@),
                            None => None,
                        };
                        match (file_problem(file@, content), findings.active) {
                            (Some(problem), _) => failures_of(findings) == changed.push(problem),
                            (None, Ok(true)) => failures_of(findings) == changed,
                            (None, Ok(false)) => failures_of(findings) == changed.push(
                                "owned service is not loaded/active"@,
                            ),
                            (None, Err(error)) => failures_of(findings) == changed.push(
                                "service manager check failed: "@ + error@,
                            ),
                        }
                    },
                }
            },
        },
{
}

} // verus!
