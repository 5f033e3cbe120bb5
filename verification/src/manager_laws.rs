//! What the commands for a service manager come to: laws on plans, told by what they
//! do to a service that obeys them.
use vstd::prelude::*;
use vstd::utf8::{decode_utf8, valid_utf8};

use crate::manager::{active_plan, answer, command_problem, installed_problem, plan_after};
use crate::manager::{reload_plan, report_message, restart_plan, restore_plan, start_plan};
use crate::manager::{state_plan, stop_disable_plan, stop_plan, CommandView, ExitView};
use crate::manager::{ManagerState, Platform, PlanView, Question, Report};
use crate::ownership::{file_problem, ManifestView};
use crate::text::decimal;

verus! {

/// The words of the commands differ from each other.
proof fn lemma_words_of_managers()
    ensures
        "-k"@.len() == 2,
        "stop"@.len() == 4,
        "--now"@.len() == 5,
        "print"@.len() == 5,
        "start"@.len() == 5,
        "--user"@.len() == 6,
        "enable"@.len() == 6,
        "--quiet"@.len() == 7,
        "bootout"@.len() == 7,
        "disable"@.len() == 7,
        "restart"@.len() == 7,
        "bootstrap"@.len() == 9,
        "is-active"@.len() == 9,
        "kickstart"@.len() == 9,
        "launchctl"@.len() == 9,
        "systemctl"@.len() == 9,
        "is-enabled"@.len() == 10,
        "daemon-reload"@.len() == 13,
        "codex-for-grok.service"@.len() == 22,
        "--now"@ != "print"@,
        "--now"@ != "start"@,
        "print"@ != "start"@,
        "--user"@ != "enable"@,
        "--quiet"@ != "bootout"@,
        "--quiet"@ != "disable"@,
        "--quiet"@ != "restart"@,
        "bootout"@ != "disable"@,
        "bootout"@ != "restart"@,
        "disable"@ != "restart"@,
        "bootstrap"@ != "is-active"@,
        "bootstrap"@ != "kickstart"@,
        "bootstrap"@ != "launchctl"@,
        "bootstrap"@ != "systemctl"@,
        "is-active"@ != "kickstart"@,
        "is-active"@ != "launchctl"@,
        "is-active"@ != "systemctl"@,
        "kickstart"@ != "launchctl"@,
        "kickstart"@ != "systemctl"@,
        "launchctl"@ != "systemctl"@,
{
    reveal_strlit("-k");
    reveal_strlit("stop");
    reveal_strlit("--now");
    reveal_strlit("print");
    reveal_strlit("start");
    reveal_strlit("--user");
    reveal_strlit("enable");
    reveal_strlit("--quiet");
    reveal_strlit("bootout");
    reveal_strlit("disable");
    reveal_strlit("restart");
    reveal_strlit("bootstrap");
    reveal_strlit("is-active");
    reveal_strlit("kickstart");
    reveal_strlit("launchctl");
    reveal_strlit("systemctl");
    reveal_strlit("is-enabled");
    reveal_strlit("daemon-reload");
    reveal_strlit("codex-for-grok.service");
    assert("-k"@.len() == 2);
    assert("stop"@.len() == 4);
    assert("--now"@.len() == 5);
    assert("print"@.len() == 5);
    assert("start"@.len() == 5);
    assert("--user"@.len() == 6);
    assert("enable"@.len() == 6);
    assert("--quiet"@.len() == 7);
    assert("bootout"@.len() == 7);
    assert("disable"@.len() == 7);
    assert("restart"@.len() == 7);
    assert("bootstrap"@.len() == 9);
    assert("is-active"@.len() == 9);
    assert("kickstart"@.len() == 9);
    assert("launchctl"@.len() == 9);
    assert("systemctl"@.len() == 9);
    assert("is-enabled"@.len() == 10);
    assert("daemon-reload"@.len() == 13);
    assert("codex-for-grok.service"@.len() == 22);
    assert("--now"@[0] == '-' && "print"@[0] == 'p');
    assert("--now"@[0] == '-' && "start"@[0] == 's');
    assert("print"@[0] == 'p' && "start"@[0] == 's');
    assert("--user"@[0] == '-' && "enable"@[0] == 'e');
    assert("--quiet"@[0] == '-' && "bootout"@[0] == 'b');
    assert("--quiet"@[0] == '-' && "disable"@[0] == 'd');
    assert("--quiet"@[0] == '-' && "restart"@[0] == 'r');
    assert("bootout"@[0] == 'b' && "disable"@[0] == 'd');
    assert("bootout"@[0] == 'b' && "restart"@[0] == 'r');
    assert("disable"@[0] == 'd' && "restart"@[0] == 'r');
    assert("bootstrap"@[0] == 'b' && "is-active"@[0] == 'i');
    assert("bootstrap"@[0] == 'b' && "kickstart"@[0] == 'k');
    assert("bootstrap"@[0] == 'b' && "launchctl"@[0] == 'l');
    assert("bootstrap"@[0] == 'b' && "systemctl"@[0] == 's');
    assert("is-active"@[0] == 'i' && "kickstart"@[0] == 'k');
    assert("is-active"@[0] == 'i' && "launchctl"@[0] == 'l');
    assert("is-active"@[0] == 'i' && "systemctl"@[0] == 's');
    assert("kickstart"@[0] == 'k' && "launchctl"@[0] == 'l');
    assert("kickstart"@[0] == 'k' && "systemctl"@[0] == 's');
    assert("launchctl"@[0] == 'l' && "systemctl"@[0] == 's');
}

/// A service under its manager.
pub struct Service {
    /// The user under whom launchd runs it.
    pub uid: u32,
    /// Where its definition is.
    pub place: Seq<char>,
    pub active: bool,
    pub enabled: bool,
    /// Whether the manager has read its definition again.
    pub reread: bool,
    /// How often it was restarted.
    pub restarts: nat,
}

/// Whether a list of arguments is made of these two.
pub open spec fn are_two(args: Seq<Seq<char>>, first: Seq<char>, second: Seq<char>) -> bool {
    args.len() == 2 && args[0] == first && args[1] == second
}

/// Whether a list of arguments is made of these three.
pub open spec fn are_three(
    args: Seq<Seq<char>>,
    first: Seq<char>,
    second: Seq<char>,
    third: Seq<char>,
) -> bool {
    args.len() == 3 && args[0] == first && args[1] == second && args[2] == third
}

/// Whether a list of arguments is made of these four.
pub open spec fn are_four(
    args: Seq<Seq<char>>,
    first: Seq<char>,
    second: Seq<char>,
    third: Seq<char>,
    fourth: Seq<char>,
) -> bool {
    args.len() == 4 && args[0] == first && args[1] == second && args[2] == third && args[3]
        == fourth
}

/// What systemd makes of a command for the unit; none where the command is unknown, or
/// not due because the service is that way already.
pub open spec fn under_systemd(args: Seq<Seq<char>>, service: Service) -> Option<Service> {
    let user = "--user"@;
    let unit = "codex-for-grok.service"@;
    if are_two(args, user, "daemon-reload"@) {
        Some(Service { reread: true, ..service })
    } else if are_three(args, user, "start"@, unit) && !service.active {
        Some(Service { active: true, ..service })
    } else if are_three(args, user, "stop"@, unit) && service.active {
        Some(Service { active: false, ..service })
    } else if are_three(args, user, "restart"@, unit) {
        Some(Service { active: true, restarts: service.restarts + 1, ..service })
    } else if are_three(args, user, "enable"@, unit) {
        Some(Service { enabled: true, ..service })
    } else if are_three(args, user, "disable"@, unit) && service.enabled {
        Some(Service { enabled: false, ..service })
    } else if are_four(args, user, "enable"@, "--now"@, unit) {
        Some(Service { active: true, enabled: true, ..service })
    } else {
        None
    }
}

/// The domain of a user under launchd.
pub open spec fn domain_of(uid: u32) -> Seq<char> {
    "gui/"@ + decimal(uid as nat)
}

/// The name of the service under launchd.
pub open spec fn name_of(uid: u32) -> Seq<char> {
    "gui/"@ + decimal(uid as nat) + "/"@ + "com.joaquincampo.codex-for-grok"@
}

/// What launchd makes of a command for the service; none where the command is unknown,
/// or not due because the service is that way already.
pub open spec fn under_launchd(args: Seq<Seq<char>>, service: Service) -> Option<Service> {
    if are_three(args, "bootstrap"@, domain_of(service.uid), service.place) && !service.active {
        Some(Service { active: true, ..service })
    } else if are_two(args, "bootout"@, name_of(service.uid)) && service.active {
        Some(Service { active: false, ..service })
    } else if are_three(args, "kickstart"@, "-k"@, name_of(service.uid)) {
        Some(Service { active: true, restarts: service.restarts + 1, ..service })
    } else {
        None
    }
}

/// What a command makes of a service.
pub open spec fn effect(command: CommandView, service: Service) -> Option<Service> {
    if command.program == "systemctl"@ {
        under_systemd(command.args, service)
    } else if command.program == "launchctl"@ {
        under_launchd(command.args, service)
    } else {
        None
    }
}

/// What a manager answers; none where the command does not ask the question.
pub open spec fn truth(question: Question, command: CommandView, service: Service) -> Option<
    bool,
> {
    let unit = "codex-for-grok.service"@;
    let args = command.args;
    match question {
        Question::Loaded => if command.program == "launchctl"@ && are_two(
            args,
            "print"@,
            name_of(service.uid),
        ) {
            Some(service.active)
        } else {
            None
        },
        Question::Active => if command.program == "systemctl"@ && are_four(
            args,
            "--user"@,
            "is-active"@,
            "--quiet"@,
            unit,
        ) {
            Some(service.active)
        } else {
            None
        },
        Question::Enabled => if command.program == "systemctl"@ && are_four(
            args,
            "--user"@,
            "is-enabled"@,
            "--quiet"@,
            unit,
        ) {
            Some(service.enabled)
        } else {
            None
        },
    }
}

/// What a plan comes to where every command is obeyed: its report and the service as it
/// is left; none where a command is unknown or not due.
pub open spec fn carried_out(plan: PlanView, service: Service) -> Option<
    (Result<Report, Seq<char>>, Service),
>
    decreases plan,
{
    match plan {
        PlanView::Done(r) => Some((r, service)),
        PlanView::Run { command, rest } => match effect(command, service) {
            Some(next) => carried_out(*rest, next),
            None => None,
        },
        PlanView::Ask { question, command, yes, no } => match truth(question, command, service) {
            Some(true) => carried_out(*yes, service),
            Some(false) => carried_out(*no, service),
            None => None,
        },
    }
}

/// What a plan comes to, written as one value.
pub open spec fn comes_to(report: Report, service: Service) -> Option<
    (Result<Report, Seq<char>>, Service),
> {
    Some((Ok(report), service))
}

/// Starting makes the service active whether or not it was. Under systemd the
/// definition is read again and the service is enabled too; under launchd it is loaded
/// from its definition, whose place has to be text, unless it is loaded.
pub proof fn lemma_starting(platform: Platform, path: Seq<u8>, service: Service)
    requires
        valid_utf8(path) ==> service.place == decode_utf8(path),
    ensures
        platform != Platform::MacOs ==> forall|uid: Result<u32, Seq<char>>|
            carried_out(#[trigger] start_plan(platform, uid, path), service) == comes_to(
                Report::Nothing,
                Service { active: true, enabled: true, reread: true, ..service },
            ),
        platform == Platform::MacOs ==> carried_out(
            start_plan(platform, Ok(service.uid), path),
            service,
        ) == (if service.active || valid_utf8(path) {
            comes_to(Report::Nothing, Service { active: true, ..service })
        } else {
            Some((Err("non-UTF-8 service path"@), service))
        }),
{
    reveal_with_fuel(carried_out, 4);
    lemma_words_of_managers();
    assert(Service { active: true, ..service } == service || !service.active);
}

/// Restarting restarts the service once and leaves it active.
pub proof fn lemma_restarting(platform: Platform, report: Report, service: Service)
    ensures
        platform != Platform::MacOs ==> forall|uid: Result<u32, Seq<char>>|
            carried_out(#[trigger] restart_plan(platform, uid, report), service) == comes_to(
                report,
                Service { active: true, restarts: service.restarts + 1, ..service },
            ),
        platform == Platform::MacOs ==> carried_out(
            restart_plan(platform, Ok(service.uid), report),
            service,
        ) == comes_to(
            report,
            Service { active: true, restarts: service.restarts + 1, ..service },
        ),
{
    reveal_with_fuel(carried_out, 4);
    lemma_words_of_managers();
}

/// Stopping leaves the service inactive, whether or not it was active, and then goes on
/// with the rest of the plan.
pub proof fn lemma_stopping(platform: Platform, rest: PlanView, service: Service)
    ensures
        platform != Platform::MacOs ==> forall|uid: Result<u32, Seq<char>>|
            carried_out(#[trigger] stop_plan(platform, uid, rest), service) == carried_out(
                rest,
                Service { active: false, ..service },
            ),
        platform == Platform::MacOs ==> carried_out(
            stop_plan(platform, Ok(service.uid), rest),
            service,
        ) == carried_out(rest, Service { active: false, ..service }),
{
    reveal_with_fuel(carried_out, 3);
    lemma_words_of_managers();
    assert(Service { active: false, ..service } == service || service.active);
}

/// Asking tells how the service is and leaves it so. Only systemd tells whether it is
/// enabled, and no other system can be asked.
pub proof fn lemma_asking(service: Service)
    ensures
        carried_out(active_plan(Platform::MacOs, Ok(service.uid)), service) == comes_to(
            Report::Active(service.active),
            service,
        ),
        carried_out(state_plan(Platform::MacOs, Ok(service.uid)), service) == comes_to(
            Report::State(ManagerState { active: service.active, enabled: false }),
            service,
        ),
        forall|uid: Result<u32, Seq<char>>|
            {
                &&& carried_out(#[trigger] active_plan(Platform::Linux, uid), service) == comes_to(
                    Report::Active(service.active),
                    service,
                )
                &&& active_plan(Platform::Other, uid) == PlanView::Done(
                    Err("services supported only on macOS and Linux"@),
                )
            },
        forall|uid: Result<u32, Seq<char>>|
            {
                &&& carried_out(#[trigger] state_plan(Platform::Linux, uid), service) == comes_to(
                    Report::State(
                        ManagerState { active: service.active, enabled: service.enabled },
                    ),
                    service,
                )
                &&& state_plan(Platform::Other, uid) == PlanView::Done(
                    Err("services supported only on macOS and Linux"@),
                )
            },
{
    reveal_with_fuel(carried_out, 4);
    lemma_words_of_managers();
}

/// Where launchd runs the service, a user that is not known ends a plan before any
/// command.
pub proof fn lemma_without_a_user(
    error: Seq<char>,
    path: Seq<u8>,
    report: Report,
    rest: PlanView,
    state: ManagerState,
)
    ensures
        ({
            let none = Err::<u32, Seq<char>>(error);
            let ended = PlanView::Done(Err(error));
            &&& start_plan(Platform::MacOs, none, path) == ended
            &&& restart_plan(Platform::MacOs, none, report) == ended
            &&& stop_plan(Platform::MacOs, none, rest) == ended
            &&& active_plan(Platform::MacOs, none) == ended
            &&& state_plan(Platform::MacOs, none) == ended
            &&& stop_disable_plan(Platform::MacOs, none, true) == ended
            &&& state.active ==> restore_plan(Platform::MacOs, none, state, path) == ended
        }),
{
}

/// Reading the definition again is for systemd alone.
pub proof fn lemma_reloading(platform: Platform, rest: PlanView, service: Service)
    ensures
        carried_out(reload_plan(platform, rest), service) == carried_out(
            rest,
            Service { reread: service.reread || platform == Platform::Linux, ..service },
        ),
{
    reveal_with_fuel(carried_out, 2);
    lemma_words_of_managers();
    assert(Service { reread: service.reread, ..service } == service);
}

/// Before a service is taken away it is stopped and, but for launchd, disabled; where
/// none is installed nothing is done.
pub proof fn lemma_stopping_for_good(platform: Platform, installed: bool, service: Service)
    ensures
        carried_out(stop_disable_plan(platform, Ok(service.uid), installed), service) == comes_to(
            Report::Nothing,
            if installed {
                Service {
                    active: false,
                    enabled: service.enabled && platform == Platform::MacOs,
                    ..service
                }
            } else {
                service
            },
        ),
{
    reveal_with_fuel(carried_out, 4);
    lemma_words_of_managers();
    lemma_stopping(platform, PlanView::Done(Ok(Report::Nothing)), service);
    lemma_stopping(platform, crate::manager::disable_plan(), service);
}

/// Restoring undoes stopping for good: a service that is stopped and disabled gets back
/// the state that it had when it was asked for.
pub proof fn lemma_restoring(
    platform: Platform,
    path: Seq<u8>,
    state: ManagerState,
    service: Service,
)
    requires
        valid_utf8(path),
        service.place == decode_utf8(path),
        !service.active,
    ensures
        platform == Platform::MacOs ==> carried_out(
            restore_plan(platform, Ok(service.uid), state, path),
            service,
        ) == comes_to(Report::Nothing, Service { active: state.active, ..service }),
        platform != Platform::MacOs ==> forall|uid: Result<u32, Seq<char>>|
            carried_out(#[trigger] restore_plan(platform, uid, state, path), service) == comes_to(
                Report::Nothing,
                Service {
                    active: state.active,
                    enabled: service.enabled || state.enabled,
                    reread: service.reread || platform == Platform::Linux,
                    ..service
                },
            ),
{
    reveal_with_fuel(carried_out, 5);
    lemma_words_of_managers();
    lemma_starting(platform, path, service);
    assert(Service { active: false, ..service } == service);
}

/// What is asked, stopped for good and then restored is again as it was asked.
pub proof fn lemma_stopping_can_be_undone(path: Seq<u8>, service: Service)
    requires
        valid_utf8(path),
        service.place == decode_utf8(path),
    ensures
        ({
            let uid = Ok::<u32, Seq<char>>(service.uid);
            carried_out(state_plan(Platform::Linux, uid), service) matches Some(
                (Ok(Report::State(state)), _),
            ) && (carried_out(stop_disable_plan(Platform::Linux, uid, true), service) matches Some(
                (Ok(Report::Nothing), stopped),
            ) && (carried_out(
                restore_plan(Platform::Linux, uid, state, path),
                stopped,
            ) matches Some((Ok(Report::Nothing), restored)) && {
                &&& !stopped.active && !stopped.enabled
                &&& restored.active == service.active
                &&& restored.enabled == service.enabled
                &&& restored.reread
                &&& restored.restarts == service.restarts
            }))
        }),
{
    lemma_asking(service);
    lemma_stopping_for_good(Platform::Linux, true, service);
    let state = ManagerState { active: service.active, enabled: service.enabled };
    let stopped = Service { active: false, enabled: false, ..service };
    lemma_restoring(Platform::Linux, path, state, stopped);
    let uid = Ok::<u32, Seq<char>>(service.uid);
    assert(carried_out(state_plan(Platform::Linux, uid), service) == comes_to(
        Report::State(state),
        service,
    ));
    assert(carried_out(restore_plan(Platform::Linux, uid, state, path), stopped) == comes_to(
        Report::Nothing,
        Service { active: state.active, enabled: state.enabled, reread: true, ..stopped },
    ));
}

/// A service counts as installed if there is a manifest, it records a service, and the
/// definition is the bridge's own; each of these has its own message.
pub proof fn lemma_what_counts_as_installed(
    manifest: Result<Option<ManifestView>, Seq<char>>,
    content: Option<Seq<u8>>,
    no_manifest: Seq<char>,
    no_service: Seq<char>,
)
    ensures
        installed_problem(manifest, content, no_manifest, no_service) is None <==> (manifest matches Ok(
            Some(found),
        ) && (found.service matches Some(file) && file_problem(file, content) is None)),
        manifest matches Err(error) ==> installed_problem(manifest, content, no_manifest, no_service)
            == Some(error),
        manifest matches Ok(None) ==> installed_problem(manifest, content, no_manifest, no_service)
            == Some(no_manifest),
        manifest matches Ok(Some(found)) ==> found.service is None ==> installed_problem(
            manifest,
            content,
            no_manifest,
            no_service,
        ) == Some(no_service),
        manifest matches Ok(Some(found)) ==> (found.service matches Some(file) ==> installed_problem(
            manifest,
            content,
            no_manifest,
            no_service,
        ) == file_problem(file, content)),
{
}

/// A command has failed unless it ran and succeeded.
pub proof fn lemma_which_commands_fail(
    program: Seq<char>,
    outcome: Result<ExitView, Seq<char>>,
)
    ensures
        command_problem(program, outcome) is None <==> (outcome matches Ok(exit) && exit.success),
        outcome matches Ok(exit) ==> !exit.success ==> command_problem(program, outcome) == Some(
            program + " exited with "@ + exit.shown,
        ),
        outcome matches Err(error) ==> command_problem(program, outcome) == Some(
            "could not run "@ + program + ": "@ + error,
        ),
{
}

/// What an exit answers: success is yes; of the others, any is no to whether launchd has
/// loaded the service, three and four are no to whether it is active, one is no to
/// whether it is enabled, and the rest is no answer.
pub proof fn lemma_what_an_exit_answers(question: Question, program: Seq<char>, exit: ExitView)
    ensures
        ({
            let outcome = Ok::<ExitView, Seq<char>>(exit);
            let said = answer(question, program, outcome);
            &&& exit.success ==> said == Ok::<bool, Seq<char>>(true)
            &&& !exit.success && question == Question::Loaded ==> said == Ok::<bool, Seq<char>>(
                false,
            )
            &&& !exit.success && question == Question::Active ==> said == if exit.code == Some(3i32)
                || exit.code == Some(4i32) {
                Ok::<bool, Seq<char>>(false)
            } else {
                Err("systemctl query exited with "@ + exit.shown)
            }
            &&& !exit.success && question == Question::Enabled ==> said == if exit.code == Some(
                1i32,
            ) {
                Ok::<bool, Seq<char>>(false)
            } else {
                Err("systemctl query exited with "@ + exit.shown)
            }
        }),
        forall|error: Seq<char>|
            #[trigger] answer(question, program, Err::<ExitView, Seq<char>>(error)) == Err::<
                bool,
                Seq<char>,
            >("could not run "@ + program + ": "@ + error),
{
}

/// How a plan goes on: with the rest after a command that succeeded, by the answer after
/// a question, and not at all after a failure.
pub proof fn lemma_how_a_plan_goes_on(
    command: CommandView,
    question: Question,
    rest: PlanView,
    other: PlanView,
    outcome: Result<ExitView, Seq<char>>,
)
    ensures
        ({
            let next = plan_after(PlanView::Run { command, rest: Box::new(rest) }, outcome);
            match command_problem(command.program, outcome) {
                None => next == rest,
                Some(problem) => next == PlanView::Done(Err(problem)),
            }
        }),
        ({
            let asking = PlanView::Ask {
                question,
                command,
                yes: Box::new(rest),
                no: Box::new(other),
            };
            match answer(question, command.program, outcome) {
                Ok(yes) => plan_after(asking, outcome) == if yes {
                    rest
                } else {
                    other
                },
                Err(error) => plan_after(asking, outcome) == PlanView::Done(Err(error)),
            }
        }),
        rest is Done ==> plan_after(rest, outcome) == rest,
{
}

/// What a finished plan tells.
pub proof fn lemma_what_a_finished_plan_tells(report: Report)
    ensures
        report == Report::Restarted ==> report_message(report) == "installed service restarted"@,
        report == Report::Stopped ==> report_message(report) == "installed service stopped"@,
        report != Report::Restarted && report != Report::Stopped ==> report_message(report)
            == ""@,
{
}

} // verus!
