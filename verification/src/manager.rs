//! The service manager: which commands are run to start, stop and query the
//! service, and what their outcomes mean.
use vstd::prelude::*;
use vstd::utf8::{decode_utf8, valid_utf8};

use crate::codec::optional_bytes;
use crate::ownership::{file_problem, verify_owned_file, Manifest, ManifestView};
use crate::service::LABEL;
use crate::setup::manifest_result;
use crate::text::{concat, concat3, decimal, decimal_text, texts, utf8_text};

verus! {

/// The system that the bridge runs on.
#[derive(Clone, Copy, Debug, PartialEq, Eq, Structural)]
pub enum Platform {
    MacOs,
    Linux,
    Other,
}

/// A command to run.
#[derive(Debug, PartialEq, Eq)]
pub struct CommandLine {
    pub program: String,
    pub args: Vec<String>,
}

/// What a command holds.
#[verifier::ext_equal]
pub struct CommandView {
    pub program: Seq<char>,
    pub args: Seq<Seq<char>>,
}

impl View for CommandLine {
    type V = CommandView;

    open spec fn view(&self) -> CommandView {
        CommandView { program: self.program@, args: texts(self.args@) }
    }
}

/// How a command that ran has ended.
#[derive(Debug, PartialEq, Eq)]
pub struct Exit {
    pub success: bool,
    pub code: Option<i32>,
    /// How the ending is shown to the user.
    pub shown: String,
}

/// What the service manager says of the service.
#[derive(Clone, Copy, Debug, PartialEq, Eq, Structural)]
pub struct ManagerState {
    pub active: bool,
    pub enabled: bool,
}

/// What is asked of the service manager.
#[derive(Clone, Copy, Debug, PartialEq, Eq, Structural)]
pub enum Question {
    /// Whether launchd has loaded the service.
    Loaded,
    /// Whether the service is active under systemd.
    Active,
    /// Whether the service is enabled under systemd.
    Enabled,
}

/// What a plan that has succeeded reports.
#[derive(Clone, Copy, Debug, PartialEq, Eq, Structural)]
pub enum Report {
    Nothing,
    Active(bool),
    State(ManagerState),
    Restarted,
    Stopped,
}

/// What is left to do with the service manager.
#[derive(Debug, PartialEq, Eq)]
pub enum Plan {
    /// Nothing is left to do.
    Done(Result<Report, String>),
    /// Run a command; go on if it succeeds.
    Run { command: CommandLine, rest: Box<Plan> },
    /// Run a command that answers a question; go on by the answer.
    Ask { question: Question, command: CommandLine, yes: Box<Plan>, no: Box<Plan> },
}

/// What a plan holds.
pub enum PlanView {
    Done(Result<Report, Seq<char>>),
    Run { command: CommandView, rest: Box<PlanView> },
    Ask { question: Question, command: CommandView, yes: Box<PlanView>, no: Box<PlanView> },
}

/// What a report, or the error in its place, holds.
pub open spec fn report_result(r: Result<Report, String>) -> Result<Report, Seq<char>> {
    match r {
        Ok(report) => Ok(report),
        Err(error) => Err(error@),
    }
}

/// What a plan holds.
pub open spec fn plan_view(plan: Plan) -> PlanView
    decreases plan,
{
    match plan {
        Plan::Done(r) => PlanView::Done(report_result(r)),
        Plan::Run { command, rest } => PlanView::Run {
            command: command@,
            rest: Box::new(plan_view(*rest)),
        },
        Plan::Ask { question, command, yes, no } => PlanView::Ask {
            question,
            command: command@,
            yes: Box::new(plan_view(*yes)),
            no: Box::new(plan_view(*no)),
        },
    }
}

impl View for Plan {
    type V = PlanView;

    open spec fn view(&self) -> PlanView {
        plan_view(*self)
    }
}

/// A plan that is over, with success.
pub open spec fn done(report: Report) -> PlanView {
    PlanView::Done(Ok(report))
}

/// A plan that is over, with an error.
pub open spec fn failed(error: Seq<char>) -> PlanView {
    PlanView::Done(Err(error))
}

/// A plan that runs one command first.
pub open spec fn run(command: CommandView, rest: PlanView) -> PlanView {
    PlanView::Run { command, rest: Box::new(rest) }
}

/// A plan that asks a question first.
pub open spec fn ask(
    question: Question,
    command: CommandView,
    yes: PlanView,
    no: PlanView,
) -> PlanView {
    PlanView::Ask { question, command, yes: Box::new(yes), no: Box::new(no) }
}

fn make_run(command: CommandLine, rest: Plan) -> (plan: Plan)
    ensures
        plan@ == run(command@, rest@),
{
    Plan::Run { command, rest: Box::new(rest) }
}

fn make_ask(question: Question, command: CommandLine, yes: Plan, no: Plan) -> (plan: Plan)
    ensures
        plan@ == ask(question, command@, yes@, no@),
{
    Plan::Ask { question, command, yes: Box::new(yes), no: Box::new(no) }
}

/// A systemd command on the user's service manager.
pub open spec fn systemctl(args: Seq<Seq<char>>) -> CommandView {
    CommandView { program: "systemctl"@, args: seq!["--user"@] + args }
}

/// A launchd command.
pub open spec fn launchctl(args: Seq<Seq<char>>) -> CommandView {
    CommandView { program: "launchctl"@, args }
}

/// The name of the unit.
pub open spec fn unit_name() -> Seq<char> {
    "codex-for-grok.service"@
}

/// The launchd domain of a user.
pub open spec fn domain(uid: u32) -> Seq<char> {
    "gui/"@ + decimal(uid as nat)
}

/// The launchd name of a user's service.
pub open spec fn target(uid: u32) -> Seq<char> {
    domain(uid) + "/"@ + "com.joaquincampo.codex-for-grok"@
}

fn make_systemctl(verb: &str) -> (command: CommandLine)
    ensures
        command@ == systemctl(seq![verb@]),
{
    let mut args: Vec<String> = Vec::new();
    args.push("--user".to_owned());
    args.push(verb.to_owned());
    assert(texts(args@) =~= seq!["--user"@] + seq![verb@]);
    CommandLine { program: "systemctl".to_owned(), args }
}

fn make_unit_command(verb: &str) -> (command: CommandLine)
    ensures
        command@ == systemctl(seq![verb@, unit_name()]),
{
    let mut command = make_systemctl(verb);
    let ghost before = texts(command.args@);
    command.args.push("codex-for-grok.service".to_owned());
    assert(texts(command.args@) =~= before.push(unit_name()));
    assert(texts(command.args@) =~= seq!["--user"@] + seq![verb@, unit_name()]);
    command
}

fn make_unit_option(verb: &str, option: &str) -> (command: CommandLine)
    ensures
        command@ == systemctl(seq![verb@, option@, unit_name()]),
{
    let mut command = make_systemctl(verb);
    let ghost before = texts(command.args@);
    command.args.push(option.to_owned());
    command.args.push("codex-for-grok.service".to_owned());
    assert(texts(command.args@) =~= before.push(option@).push(unit_name()));
    assert(texts(command.args@) =~= seq!["--user"@] + seq![verb@, option@, unit_name()]);
    command
}

fn make_domain(uid: u32) -> (text: String)
    ensures
        text@ == domain(uid),
{
    concat("gui/", decimal_text(uid as u128).as_str())
}

fn make_target(uid: u32) -> (text: String)
    ensures
        text@ == target(uid),
{
    concat3(make_domain(uid).as_str(), "/", LABEL)
}

fn make_launchctl(verb: &str, argument: String) -> (command: CommandLine)
    ensures
        command@ == launchctl(seq![verb@, argument@]),
{
    let mut args: Vec<String> = Vec::new();
    args.push(verb.to_owned());
    args.push(argument);
    assert(texts(args@) =~= seq![verb@, argument@]);
    CommandLine { program: "launchctl".to_owned(), args }
}

fn make_launchctl_pair(verb: &str, first: String, second: String) -> (command: CommandLine)
    ensures
        command@ == launchctl(seq![verb@, first@, second@]),
{
    let mut command = make_launchctl(verb, first);
    let ghost before = texts(command.args@);
    command.args.push(second);
    assert(texts(command.args@) =~= before.push(second@));
    assert(texts(command.args@) =~= seq![verb@, first@, second@]);
    command
}

/// What a user id, or the error in its place, holds.
pub open spec fn uid_result(uid: Result<u32, String>) -> Result<u32, Seq<char>> {
    match uid {
        Ok(uid) => Ok(uid),
        Err(error) => Err(error@),
    }
}

/// The question whether launchd has loaded the service.
pub open spec fn ask_loaded(uid: u32, yes: PlanView, no: PlanView) -> PlanView {
    ask(Question::Loaded, launchctl(seq!["print"@, target(uid)]), yes, no)
}

/// The question whether the service is active under systemd.
pub open spec fn ask_active(yes: PlanView, no: PlanView) -> PlanView {
    ask(
        Question::Active,
        systemctl(seq!["is-active"@, "--quiet"@, unit_name()]),
        yes,
        no,
    )
}

/// The question whether the service is enabled under systemd.
pub open spec fn ask_enabled(yes: PlanView, no: PlanView) -> PlanView {
    ask(
        Question::Enabled,
        systemctl(seq!["is-enabled"@, "--quiet"@, unit_name()]),
        yes,
        no,
    )
}

/// How the service is started.
pub open spec fn start_plan(
    platform: Platform,
    uid: Result<u32, Seq<char>>,
    path: Seq<u8>,
) -> PlanView {
    if platform == Platform::MacOs {
        match uid {
            Err(error) => failed(error),
            Ok(uid) => ask_loaded(
                uid,
                done(Report::Nothing),
                if valid_utf8(path) {
                    run(
                        launchctl(seq!["bootstrap"@, domain(uid), decode_utf8(path)]),
                        done(Report::Nothing),
                    )
                } else {
                    failed("non-UTF-8 service path"@)
                },
            ),
        }
    } else {
        run(
            systemctl(seq!["daemon-reload"@]),
            run(systemctl(seq!["enable"@, "--now"@, unit_name()]), done(Report::Nothing)),
        )
    }
}

/// Plans how the service is started; `path` is where its definition stands.
pub fn start_manager(platform: Platform, uid: &Result<u32, String>, path: &[u8]) -> (plan: Plan)
    ensures
        plan@ == start_plan(platform, uid_result(*uid), path@),
{
    if platform == Platform::MacOs {
        let uid: u32 = match uid {
            Ok(uid) => *uid,
            Err(error) => return Plan::Done(Err(error.clone())),
        };
        let no = match utf8_text(path) {
            Some(text) => make_run(
                make_launchctl_pair("bootstrap", make_domain(uid), text.to_owned()),
                Plan::Done(Ok(Report::Nothing)),
            ),
            None => Plan::Done(Err("non-UTF-8 service path".to_owned())),
        };
        make_ask(
            Question::Loaded,
            make_launchctl("print", make_target(uid)),
            Plan::Done(Ok(Report::Nothing)),
            no,
        )
    } else {
        make_run(
            make_systemctl("daemon-reload"),
            make_run(make_unit_option("enable", "--now"), Plan::Done(Ok(Report::Nothing))),
        )
    }
}

/// How the service is restarted.
pub open spec fn restart_plan(
    platform: Platform,
    uid: Result<u32, Seq<char>>,
    report: Report,
) -> PlanView {
    if platform == Platform::MacOs {
        match uid {
            Err(error) => failed(error),
            Ok(uid) => run(launchctl(seq!["kickstart"@, "-k"@, target(uid)]), done(report)),
        }
    } else {
        run(systemctl(seq!["restart"@, unit_name()]), done(report))
    }
}

/// Plans how the service is restarted.
pub fn manager_restart(platform: Platform, uid: &Result<u32, String>, report: Report) -> (plan:
    Plan)
    ensures
        plan@ == restart_plan(platform, uid_result(*uid), report),
{
    if platform == Platform::MacOs {
        match uid {
            Err(error) => Plan::Done(Err(error.clone())),
            Ok(uid) => make_run(
                make_launchctl_pair("kickstart", "-k".to_owned(), make_target(*uid)),
                Plan::Done(Ok(report)),
            ),
        }
    } else {
        make_run(make_unit_command("restart"), Plan::Done(Ok(report)))
    }
}

/// How the service is stopped, and what is done after that. A service that does
/// not run is left alone.
pub open spec fn stop_plan(
    platform: Platform,
    uid: Result<u32, Seq<char>>,
    rest: PlanView,
) -> PlanView {
    if platform == Platform::MacOs {
        match uid {
            Err(error) => failed(error),
            Ok(uid) => ask_loaded(
                uid,
                run(launchctl(seq!["bootout"@, target(uid)]), rest),
                rest,
            ),
        }
    } else {
        ask_active(run(systemctl(seq!["stop"@, unit_name()]), rest), rest)
    }
}

/// Plans how the service is stopped.
pub fn manager_stop(platform: Platform, uid: &Result<u32, String>, report: Report) -> (plan: Plan)
    ensures
        plan@ == stop_plan(platform, uid_result(*uid), done(report)),
{
    if platform == Platform::MacOs {
        match uid {
            Err(error) => Plan::Done(Err(error.clone())),
            Ok(uid) => make_ask(
                Question::Loaded,
                make_launchctl("print", make_target(*uid)),
                make_run(make_launchctl("bootout", make_target(*uid)), Plan::Done(Ok(report))),
                Plan::Done(Ok(report)),
            ),
        }
    } else {
        make_ask(
            Question::Active,
            make_unit_option("is-active", "--quiet"),
            make_run(make_unit_command("stop"), Plan::Done(Ok(report))),
            Plan::Done(Ok(report)),
        )
    }
}

/// How the service is found to be active or not.
pub open spec fn active_plan(platform: Platform, uid: Result<u32, Seq<char>>) -> PlanView {
    match platform {
        Platform::MacOs => match uid {
            Err(error) => failed(error),
            Ok(uid) => ask_loaded(uid, done(Report::Active(true)), done(Report::Active(false))),
        },
        Platform::Linux => ask_active(done(Report::Active(true)), done(Report::Active(false))),
        Platform::Other => failed("services supported only on macOS and Linux"@),
    }
}

/// Plans how the service is found to be active or not.
pub fn manager_is_active(platform: Platform, uid: &Result<u32, String>) -> (plan: Plan)
    ensures
        plan@ == active_plan(platform, uid_result(*uid)),
{
    match platform {
        Platform::MacOs => match uid {
            Err(error) => Plan::Done(Err(error.clone())),
            Ok(uid) => make_ask(
                Question::Loaded,
                make_launchctl("print", make_target(*uid)),
                Plan::Done(Ok(Report::Active(true))),
                Plan::Done(Ok(Report::Active(false))),
            ),
        },
        Platform::Linux => make_ask(
            Question::Active,
            make_unit_option("is-active", "--quiet"),
            Plan::Done(Ok(Report::Active(true))),
            Plan::Done(Ok(Report::Active(false))),
        ),
        Platform::Other => Plan::Done(
            Err("services supported only on macOS and Linux".to_owned()),
        ),
    }
}

/// The report of a state.
pub open spec fn state_report(active: bool, enabled: bool) -> PlanView {
    done(Report::State(ManagerState { active, enabled }))
}

/// How the state of the service is found.
pub open spec fn state_plan(platform: Platform, uid: Result<u32, Seq<char>>) -> PlanView {
    match platform {
        Platform::MacOs => match uid {
            Err(error) => failed(error),
            Ok(uid) => ask_loaded(uid, state_report(true, false), state_report(false, false)),
        },
        Platform::Linux => ask_active(
            ask_enabled(state_report(true, true), state_report(true, false)),
            ask_enabled(state_report(false, true), state_report(false, false)),
        ),
        Platform::Other => failed("services supported only on macOS and Linux"@),
    }
}

fn make_state(active: bool, enabled: bool) -> (plan: Plan)
    ensures
        plan@ == state_report(active, enabled),
{
    Plan::Done(Ok(Report::State(ManagerState { active, enabled })))
}

fn make_enabled_question(active: bool) -> (plan: Plan)
    ensures
        plan@ == ask_enabled(state_report(active, true), state_report(active, false)),
{
    make_ask(
        Question::Enabled,
        make_unit_option("is-enabled", "--quiet"),
        make_state(active, true),
        make_state(active, false),
    )
}

/// Plans how the state of the service is found.
pub fn manager_state(platform: Platform, uid: &Result<u32, String>) -> (plan: Plan)
    ensures
        plan@ == state_plan(platform, uid_result(*uid)),
{
    match platform {
        Platform::MacOs => match uid {
            Err(error) => Plan::Done(Err(error.clone())),
            Ok(uid) => make_ask(
                Question::Loaded,
                make_launchctl("print", make_target(*uid)),
                make_state(true, false),
                make_state(false, false),
            ),
        },
        Platform::Linux => make_ask(
            Question::Active,
            make_unit_option("is-active", "--quiet"),
            make_enabled_question(true),
            make_enabled_question(false),
        ),
        Platform::Other => Plan::Done(
            Err("services supported only on macOS and Linux".to_owned()),
        ),
    }
}

/// How the service manager is told of a changed definition, and what is done
/// after that.
pub open spec fn reload_plan(platform: Platform, rest: PlanView) -> PlanView {
    if platform == Platform::Linux {
        run(systemctl(seq!["daemon-reload"@]), rest)
    } else {
        rest
    }
}

fn reload_before(platform: Platform, rest: Plan) -> (plan: Plan)
    ensures
        plan@ == reload_plan(platform, rest@),
{
    if platform == Platform::Linux {
        make_run(make_systemctl("daemon-reload"), rest)
    } else {
        rest
    }
}

/// Plans how the service manager is told of a changed definition.
pub fn reload_service_manager(platform: Platform) -> (plan: Plan)
    ensures
        plan@ == reload_plan(platform, done(Report::Nothing)),
{
    reload_before(platform, Plan::Done(Ok(Report::Nothing)))
}

/// How a service that was active is started again under systemd.
pub open spec fn resume_plan(state: ManagerState) -> PlanView {
    if state.active {
        run(systemctl(seq!["start"@, unit_name()]), done(Report::Nothing))
    } else {
        done(Report::Nothing)
    }
}

/// How the service manager is brought back to a state.
pub open spec fn restore_plan(
    platform: Platform,
    uid: Result<u32, Seq<char>>,
    state: ManagerState,
    path: Seq<u8>,
) -> PlanView {
    if platform == Platform::MacOs {
        if state.active {
            start_plan(platform, uid, path)
        } else {
            done(Report::Nothing)
        }
    } else {
        reload_plan(
            platform,
            if state.enabled {
                run(systemctl(seq!["enable"@, unit_name()]), resume_plan(state))
            } else {
                resume_plan(state)
            },
        )
    }
}

/// Plans how the service manager is brought back to a state.
pub fn restore_manager_state(
    platform: Platform,
    uid: &Result<u32, String>,
    state: ManagerState,
    path: &[u8],
) -> (plan: Plan)
    ensures
        plan@ == restore_plan(platform, uid_result(*uid), state, path@),
{
    if platform == Platform::MacOs {
        if state.active {
            start_manager(platform, uid, path)
        } else {
            Plan::Done(Ok(Report::Nothing))
        }
    } else {
        let mut plan = Plan::Done(Ok(Report::Nothing));
        if state.active {
            plan = make_run(make_unit_command("start"), plan);
        }
        if state.enabled {
            plan = make_run(make_unit_command("enable"), plan);
        }
        reload_before(platform, plan)
    }
}

/// How a service that is enabled is disabled under systemd.
pub open spec fn disable_plan() -> PlanView {
    ask_enabled(
        run(systemctl(seq!["disable"@, unit_name()]), done(Report::Nothing)),
        done(Report::Nothing),
    )
}

fn make_disable() -> (plan: Plan)
    ensures
        plan@ == disable_plan(),
{
    make_ask(
        Question::Enabled,
        make_unit_option("is-enabled", "--quiet"),
        make_run(make_unit_command("disable"), Plan::Done(Ok(Report::Nothing))),
        Plan::Done(Ok(Report::Nothing)),
    )
}

/// How the service is stopped and disabled, where it is installed.
pub open spec fn stop_disable_plan(
    platform: Platform,
    uid: Result<u32, Seq<char>>,
    installed: bool,
) -> PlanView {
    if !installed {
        done(Report::Nothing)
    } else if platform == Platform::MacOs {
        stop_plan(platform, uid, done(Report::Nothing))
    } else {
        stop_plan(platform, uid, disable_plan())
    }
}

/// Plans how the service is stopped and disabled, where the manifest says that
/// it is installed.
pub fn stop_disable_if_installed(
    platform: Platform,
    uid: &Result<u32, String>,
    manifest: &Manifest,
) -> (plan: Plan)
    ensures
        plan@ == stop_disable_plan(platform, uid_result(*uid), manifest@.service is Some),
{
    if manifest.service.is_none() {
        return Plan::Done(Ok(Report::Nothing));
    }
    if platform == Platform::MacOs {
        manager_stop(platform, uid, Report::Nothing)
    } else {
        make_ask(
            Question::Active,
            make_unit_option("is-active", "--quiet"),
            make_run(make_unit_command("stop"), make_disable()),
            make_disable(),
        )
    }
}

/// Why the installed service cannot be acted on: there is no manifest, no
/// service in it, or its definition has changed.
pub open spec fn installed_problem(
    manifest: Result<Option<ManifestView>, Seq<char>>,
    content: Option<Seq<u8>>,
    no_manifest: Seq<char>,
    no_service: Seq<char>,
) -> Option<Seq<char>> {
    match manifest {
        Err(error) => Some(error),
        Ok(None) => Some(no_manifest),
        Ok(Some(manifest)) => match manifest.service {
            None => Some(no_service),
            Some(file) => file_problem(file, content),
        },
    }
}

fn check_installed(
    manifest: &Result<Option<Manifest>, String>,
    content: &Option<Vec<u8>>,
    no_manifest: &str,
    no_service: &str,
) -> (r: Result<(), String>)
    ensures
        crate::ownership::problem_of(r) == installed_problem(
            manifest_result(*manifest),
            optional_bytes(*content),
            no_manifest@,
            no_service@,
        ),
{
    match manifest {
        Err(error) => Err(error.clone()),
        Ok(None) => Err(no_manifest.to_owned()),
        Ok(Some(manifest)) => match &manifest.service {
            None => Err(no_service.to_owned()),
            Some(file) => verify_owned_file(file, content),
        },
    }
}

/// Plans the restart of the installed service; `content` is what its definition
/// holds now.
pub fn restart_service(
    platform: Platform,
    uid: &Result<u32, String>,
    manifest: &Result<Option<Manifest>, String>,
    content: &Option<Vec<u8>>,
) -> (plan: Plan)
    ensures
        plan@ == (match installed_problem(
            manifest_result(*manifest),
            optional_bytes(*content),
            "service is not installed; run setup and start"@,
            "service is not installed; run start"@,
        ) {
            Some(problem) => failed(problem),
            None => restart_plan(platform, uid_result(*uid), Report::Restarted),
        }),
{
    match check_installed(
        manifest,
        content,
        "service is not installed; run setup and start",
        "service is not installed; run start",
    ) {
        Err(error) => Plan::Done(Err(error)),
        Ok(_) => manager_restart(platform, uid, Report::Restarted),
    }
}

/// Plans the stop of the installed service; `content` is what its definition
/// holds now.
pub fn stop_service(
    platform: Platform,
    uid: &Result<u32, String>,
    manifest: &Result<Option<Manifest>, String>,
    content: &Option<Vec<u8>>,
) -> (plan: Plan)
    ensures
        plan@ == (match installed_problem(
            manifest_result(*manifest),
            optional_bytes(*content),
            "service is not installed"@,
            "service is not installed"@,
        ) {
            Some(problem) => failed(problem),
            None => stop_plan(platform, uid_result(*uid), done(Report::Stopped)),
        }),
{
    match check_installed(
        manifest,
        content,
        "service is not installed",
        "service is not installed",
    ) {
        Err(error) => Plan::Done(Err(error)),
        Ok(_) => manager_stop(platform, uid, Report::Stopped),
    }
}

/// What the user is told of a report.
pub open spec fn report_message(report: Report) -> Seq<char> {
    match report {
        Report::Restarted => "installed service restarted"@,
        Report::Stopped => "installed service stopped"@,
        _ => ""@,
    }
}

/// What the user is told of a report.
pub fn report_text(report: Report) -> (text: &'static str)
    ensures
        text@ == report_message(report),
{
    match report {
        Report::Restarted => "installed service restarted",
        Report::Stopped => "installed service stopped",
        _ => "",
    }
}

/// What an ending, or the error of a command that did not run, holds.
pub struct ExitView {
    pub success: bool,
    pub code: Option<i32>,
    pub shown: Seq<char>,
}

/// What came of a command: how it ended, or why it could not be run.
pub open spec fn command_outcome(r: Result<Exit, String>) -> Result<ExitView, Seq<char>> {
    match r {
        Ok(exit) => Ok(ExitView { success: exit.success, code: exit.code, shown: exit.shown@ }),
        Err(error) => Err(error@),
    }
}

/// What a command that did not succeed is reported with.
pub open spec fn command_problem(program: Seq<char>, outcome: Result<ExitView, Seq<char>>) -> Option<
    Seq<char>,
> {
    match outcome {
        Err(error) => Some("could not run "@ + program + ": "@ + error),
        Ok(exit) => if exit.success {
            None
        } else {
            Some(program + " exited with "@ + exit.shown)
        },
    }
}

/// The exit codes by which a question is answered with no. launchd answers with
/// any.
pub open spec fn means_no(question: Question, code: Option<i32>) -> bool {
    match question {
        Question::Loaded => true,
        Question::Active => code == Some(3i32) || code == Some(4i32),
        Question::Enabled => code == Some(1i32),
    }
}

/// The answer to a question.
pub open spec fn answer(
    question: Question,
    program: Seq<char>,
    outcome: Result<ExitView, Seq<char>>,
) -> Result<bool, Seq<char>> {
    match outcome {
        Err(error) => Err("could not run "@ + program + ": "@ + error),
        Ok(exit) => if exit.success {
            Ok(true)
        } else if means_no(question, exit.code) {
            Ok(false)
        } else {
            Err("systemctl query exited with "@ + exit.shown)
        },
    }
}

/// Reads the outcome of a command that has to succeed.
pub fn check_command(program: &str, outcome: Result<Exit, String>) -> (r: Result<(), String>)
    ensures
        crate::ownership::problem_of(r) == command_problem(program@, command_outcome(outcome)),
{
    match outcome {
        Err(error) => {
            let mut message = concat3("could not run ", program, ": ");
            message.append(error.as_str());
            Err(message)
        },
        Ok(exit) => if exit.success {
            Ok(())
        } else {
            Err(concat3(program, " exited with ", exit.shown.as_str()))
        },
    }
}

/// What an answer holds.
pub open spec fn answer_result(r: Result<bool, String>) -> Result<bool, Seq<char>> {
    match r {
        Ok(answer) => Ok(answer),
        Err(error) => Err(error@),
    }
}

/// Reads the outcome of a command that answers a question.
pub fn read_answer(question: Question, program: &str, outcome: Result<Exit, String>) -> (r: Result<
    bool,
    String,
>)
    ensures
        answer_result(r) == answer(question, program@, command_outcome(outcome)),
{
    match outcome {
        Err(error) => {
            let mut message = concat3("could not run ", program, ": ");
            message.append(error.as_str());
            Err(message)
        },
        Ok(exit) => {
            let no = match question {
                Question::Loaded => true,
                Question::Active => match exit.code {
                    Some(code) => code == 3 || code == 4,
                    None => false,
                },
                Question::Enabled => match exit.code {
                    Some(code) => code == 1,
                    None => false,
                },
            };
            if exit.success {
                Ok(true)
            } else if no {
                Ok(false)
            } else {
                Err(concat("systemctl query exited with ", exit.shown.as_str()))
            }
        },
    }
}

/// What is left of a plan, given what came of the command that it runs next.
pub open spec fn plan_after(plan: PlanView, outcome: Result<ExitView, Seq<char>>) -> PlanView {
    match plan {
        PlanView::Done(_) => plan,
        PlanView::Run { command, rest } => match command_problem(command.program, outcome) {
            None => *rest,
            Some(problem) => failed(problem),
        },
        PlanView::Ask { question, command, yes, no } => match answer(
            question,
            command.program,
            outcome,
        ) {
            Ok(true) => *yes,
            Ok(false) => *no,
            Err(error) => failed(error),
        },
    }
}

impl Plan {
    /// What is left of a plan, given what came of the command that it runs
    /// next.
    pub fn advance(self, outcome: Result<Exit, String>) -> (next: Plan)
        ensures
            next@ == plan_after(self@, command_outcome(outcome)),
    {
        match self {
            Plan::Done(r) => Plan::Done(r),
            Plan::Run { command, rest } => match check_command(command.program.as_str(), outcome) {
                Ok(_) => *rest,
                Err(error) => Plan::Done(Err(error)),
            },
            Plan::Ask { question, command, yes, no } => match read_answer(
                question,
                command.program.as_str(),
                outcome,
            ) {
                Ok(answer) => if answer {
                    *yes
                } else {
                    *no
                },
                Err(error) => Plan::Done(Err(error)),
            },
        }
    }
}

/// A command that could not be run is an error: it is never taken for the
/// answer that the service is not there.
pub proof fn lemma_failing_to_ask_is_an_error(
    question: Question,
    program: Seq<char>,
    error: Seq<char>,
)
    ensures
        answer(question, program, Err::<ExitView, Seq<char>>(error)) is Err,
{
}

/// The number of commands that a plan runs at most.
pub open spec fn longest(plan: PlanView) -> nat
    decreases plan,
{
    match plan {
        PlanView::Done(_) => 0,
        PlanView::Run { command: _, rest } => 1 + longest(*rest),
        PlanView::Ask { question: _, command: _, yes, no } => if longest(*yes) > longest(*no) {
            1 + longest(*yes)
        } else {
            1 + longest(*no)
        },
    }
}

/// A plan comes to its end: with each command that is run, fewer are left,
/// whatever came of it.
pub proof fn lemma_plans_end(plan: PlanView, outcome: Result<ExitView, Seq<char>>)
    ensures
        plan is Done || longest(plan_after(plan, outcome)) < longest(plan),
{
}

/// Stopping a service that does not run, and stopping it again, runs no command
/// but the question.
pub proof fn lemma_stopping_what_is_stopped(
    platform: Platform,
    uid: u32,
    report: Report,
    exit: ExitView,
)
    requires
        !exit.success,
        means_no(
            if platform == Platform::MacOs {
                Question::Loaded
            } else {
                Question::Active
            },
            exit.code,
        ),
    ensures
        plan_after(stop_plan(platform, Ok(uid), done(report)), Ok(exit)) == done(report),
{
}

} // verus!
