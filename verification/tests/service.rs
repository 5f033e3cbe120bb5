use codex_for_grok::manager::{
    check_command, manager_is_active, manager_restart, manager_state, manager_stop, read_answer,
    reload_service_manager, report_text, restart_service, restore_manager_state, start_manager,
    stop_disable_if_installed, stop_service, CommandLine, Exit, ManagerState, Plan, Platform,
    Question, Report,
};
use codex_for_grok::ownership::{Manifest, OwnedFile};
use codex_for_grok::service::{
    service_definition_for, systemd_exec_arg, xml_string, LABEL, OWNER,
};

#[test]
fn generates_owned_service_definitions_for_macos_and_linux() {
    let d = b"/tmp/home";
    let exe = b"/opt/grok bridge/bin";
    let (plist_path, plist) = service_definition_for("macos", d, exe).unwrap();
    assert!(plist_path.ends_with(format!("Library/LaunchAgents/{LABEL}.plist").as_bytes()));
    assert!(String::from_utf8(plist).unwrap().contains(OWNER));
    let (unit_path, unit) = service_definition_for("linux", d, exe).unwrap();
    assert!(unit_path.ends_with(b".config/systemd/user/codex-for-grok.service"));
    let unit = String::from_utf8(unit).unwrap();
    assert!(unit.contains(OWNER));
    assert!(unit.contains("ExecStart=\"/opt/grok bridge/bin\" run"));
}

#[test]
fn service_arguments_are_escaped_for_each_manager() {
    let d = b"/tmp/home";
    let exe = b"/opt/a b/quo\"te\\100%";
    let (_, unit) = service_definition_for("linux", d, exe).unwrap();
    let unit = String::from_utf8(unit).unwrap();
    assert!(unit.contains("ExecStart=\"/opt/a b/quo\\\"te\\\\100%%\" run"));
    let xml_exe = b"/opt/a&b/<tool>\"";
    let (_, plist) = service_definition_for("macos", d, xml_exe).unwrap();
    let plist = String::from_utf8(plist).unwrap();
    assert!(plist.contains("/opt/a&amp;b/&lt;tool&gt;&quot;"));
}

#[test]
fn service_definition_refuses_non_utf8_paths() {
    let d = b"/tmp/home";
    let exe = b"/tmp/invalid-\xff";
    assert!(service_definition_for("linux", d, exe).is_err());
    assert!(service_definition_for("macos", d, exe).is_err());
}

#[test]
fn a_unit_has_its_exact_text() {
    let (path, unit) = service_definition_for("linux", b"/home/u", b"/bin/x").unwrap();
    assert_eq!(path, b"/home/u/.config/systemd/user/codex-for-grok.service");
    assert_eq!(
        String::from_utf8(unit).unwrap(),
        "# owner: JoaquinCampo/codex-for-grok\n[Unit]\nDescription=Codex for Grok\n[Service]\nExecStart=\"/bin/x\" run\nRestart=on-failure\n[Install]\nWantedBy=default.target\n"
    );
    let (path, plist) = service_definition_for("macos", b"/Users/u", b"/bin/x").unwrap();
    assert_eq!(path, b"/Users/u/Library/LaunchAgents/com.joaquincampo.codex-for-grok.plist");
    assert_eq!(
        String::from_utf8(plist).unwrap(),
        "<?xml version=\"1.0\" encoding=\"UTF-8\"?>\n<!-- owner: JoaquinCampo/codex-for-grok -->\n<!DOCTYPE plist PUBLIC \"-//Apple//DTD PLIST 1.0//EN\" \"http://www.apple.com/DTDs/PropertyList-1.0.dtd\">\n<plist version=\"1.0\"><dict><key>Label</key><string>com.joaquincampo.codex-for-grok</string><key>ProgramArguments</key><array><string>/bin/x</string><string>run</string></array><key>RunAtLoad</key><true/><key>KeepAlive</key><true/></dict></plist>\n"
    );
    assert_eq!(
        service_definition_for("windows", b"/", b"/x"),
        Err("services supported only on macOS and Linux".to_owned())
    );
    assert_eq!(xml_string(b"it's"), Ok("it&apos;s".to_owned()));
    assert_eq!(systemd_exec_arg(b"%n"), Ok("\"%%n\"".to_owned()));
}

fn ran(success: bool, code: i32) -> Result<Exit, String> {
    Ok(Exit { success, code: Some(code), shown: format!("exit status: {code}") })
}

#[test]
fn command_execution_errors_are_not_reported_as_inactive() {
    let outcome = || Err("No such file or directory (os error 2)".to_owned());
    for question in [Question::Loaded, Question::Active, Question::Enabled] {
        let error = read_answer(question, "/definitely/missing/grok-bridge-command", outcome())
            .unwrap_err();
        assert!(error.contains("could not run"));
    }
}

#[test]
fn outcomes_of_commands_are_read() {
    assert_eq!(check_command("systemctl", ran(true, 0)), Ok(()));
    assert_eq!(
        check_command("systemctl", ran(false, 5)),
        Err("systemctl exited with exit status: 5".to_owned())
    );
    assert_eq!(
        check_command("launchctl", Err("gone".to_owned())),
        Err("could not run launchctl: gone".to_owned())
    );
    assert_eq!(read_answer(Question::Active, "systemctl", ran(true, 0)), Ok(true));
    assert_eq!(read_answer(Question::Active, "systemctl", ran(false, 3)), Ok(false));
    assert_eq!(read_answer(Question::Active, "systemctl", ran(false, 4)), Ok(false));
    assert_eq!(
        read_answer(Question::Active, "systemctl", ran(false, 1)),
        Err("systemctl query exited with exit status: 1".to_owned())
    );
    assert_eq!(read_answer(Question::Enabled, "systemctl", ran(false, 1)), Ok(false));
    assert_eq!(
        read_answer(Question::Enabled, "systemctl", ran(false, 3)),
        Err("systemctl query exited with exit status: 3".to_owned())
    );
    assert_eq!(read_answer(Question::Loaded, "launchctl", ran(false, 113)), Ok(false));
}

/// Runs a plan against a script of outcomes; the commands that it ran come out
/// as lines.
fn play(plan: Plan, outcomes: Vec<Result<Exit, String>>) -> (Vec<String>, Result<Report, String>) {
    let line = |command: &CommandLine| format!("{} {}", command.program, command.args.join(" "));
    let mut plan = plan;
    let mut lines = Vec::new();
    let mut outcomes = outcomes.into_iter();
    loop {
        match &plan {
            Plan::Done(_) => break,
            Plan::Run { command, .. } | Plan::Ask { command, .. } => lines.push(line(command)),
        }
        plan = plan.advance(outcomes.next().expect("an outcome for each command"));
    }
    match plan {
        Plan::Done(result) => (lines, result),
        _ => unreachable!(),
    }
}

#[test]
fn systemd_commands_are_run_in_order() {
    let uid = Ok(501);
    let yes = || ran(true, 0);
    let linux = Platform::Linux;
    assert_eq!(
        play(start_manager(linux, &uid, b"/s"), vec![yes(), yes()]),
        (
            vec![
                "systemctl --user daemon-reload".to_owned(),
                "systemctl --user enable --now codex-for-grok.service".to_owned(),
            ],
            Ok(Report::Nothing)
        )
    );
    assert_eq!(
        play(manager_stop(linux, &uid, Report::Nothing), vec![yes(), yes()]).0,
        vec![
            "systemctl --user is-active --quiet codex-for-grok.service".to_owned(),
            "systemctl --user stop codex-for-grok.service".to_owned(),
        ]
    );
    assert_eq!(
        play(manager_stop(linux, &uid, Report::Nothing), vec![ran(false, 3)]),
        (
            vec!["systemctl --user is-active --quiet codex-for-grok.service".to_owned()],
            Ok(Report::Nothing)
        )
    );
    assert_eq!(
        play(manager_state(linux, &uid), vec![yes(), ran(false, 1)]),
        (
            vec![
                "systemctl --user is-active --quiet codex-for-grok.service".to_owned(),
                "systemctl --user is-enabled --quiet codex-for-grok.service".to_owned(),
            ],
            Ok(Report::State(ManagerState { active: true, enabled: false }))
        )
    );
    let state = ManagerState { active: true, enabled: true };
    assert_eq!(
        play(restore_manager_state(linux, &uid, state, b"/s"), vec![yes(), yes(), yes()]).0,
        vec![
            "systemctl --user daemon-reload".to_owned(),
            "systemctl --user enable codex-for-grok.service".to_owned(),
            "systemctl --user start codex-for-grok.service".to_owned(),
        ]
    );
    assert_eq!(
        play(start_manager(linux, &uid, b"/s"), vec![ran(false, 1)]).1,
        Err("systemctl exited with exit status: 1".to_owned())
    );
    assert_eq!(play(reload_service_manager(linux), vec![yes()]).0.len(), 1);
    assert_eq!(
        play(manager_is_active(linux, &uid), vec![ran(false, 4)]).1,
        Ok(Report::Active(false))
    );
}

#[test]
fn launchd_commands_are_run_in_order() {
    let uid = Ok(501);
    let yes = || ran(true, 0);
    let mac = Platform::MacOs;
    let print = "launchctl print gui/501/com.joaquincampo.codex-for-grok".to_owned();
    assert_eq!(
        play(start_manager(mac, &uid, b"/s"), vec![yes()]),
        (vec![print.clone()], Ok(Report::Nothing))
    );
    assert_eq!(
        play(start_manager(mac, &uid, b"/s"), vec![ran(false, 113), yes()]).0,
        vec![print.clone(), "launchctl bootstrap gui/501 /s".to_owned()]
    );
    assert_eq!(
        play(start_manager(mac, &uid, b"\xff"), vec![ran(false, 113)]).1,
        Err("non-UTF-8 service path".to_owned())
    );
    assert_eq!(
        play(manager_restart(mac, &uid, Report::Restarted), vec![yes()]),
        (
            vec!["launchctl kickstart -k gui/501/com.joaquincampo.codex-for-grok".to_owned()],
            Ok(Report::Restarted)
        )
    );
    assert_eq!(
        play(manager_stop(mac, &uid, Report::Stopped), vec![yes(), yes()]).0,
        vec![print, "launchctl bootout gui/501/com.joaquincampo.codex-for-grok".to_owned()]
    );
    assert_eq!(
        play(manager_state(mac, &uid), vec![yes()]).1,
        Ok(Report::State(ManagerState { active: true, enabled: false }))
    );
    let idle = ManagerState { active: false, enabled: false };
    assert_eq!(
        play(restore_manager_state(mac, &uid, idle, b"/s"), vec![]),
        (vec![], Ok(Report::Nothing))
    );
    assert_eq!(play(reload_service_manager(mac), vec![]), (vec![], Ok(Report::Nothing)));
    let unknown = Err("cannot determine user UID: gone".to_owned());
    assert_eq!(
        play(manager_is_active(mac, &unknown), vec![]).1,
        Err("cannot determine user UID: gone".to_owned())
    );
}

#[test]
fn other_systems_have_no_services() {
    let uid = Ok(0);
    let error = Err("services supported only on macOS and Linux".to_owned());
    assert_eq!(play(manager_is_active(Platform::Other, &uid), vec![]).1, error);
    assert_eq!(play(manager_state(Platform::Other, &uid), vec![]).1, error);
}

fn recorded() -> Manifest {
    Manifest {
        version: 1,
        config: b"/c".to_vec(),
        blocks: vec![],
        service: Some(OwnedFile {
            path: b"/s".to_vec(),
            digest: "ba7816bf8f01cfea414140de5dae2223b00361a396177a9cb410ff61f20015ad".to_owned(),
        }),
    }
}

#[test]
fn an_installed_service_is_stopped_and_restarted() {
    let uid = Ok(1);
    let content = Some(b"abc".to_vec());
    let found = Ok(Some(recorded()));
    let yes = || ran(true, 0);
    let (lines, result) =
        play(restart_service(Platform::Linux, &uid, &found, &content), vec![yes()]);
    assert_eq!(lines, vec!["systemctl --user restart codex-for-grok.service".to_owned()]);
    assert_eq!(result.map(report_text), Ok("installed service restarted"));
    let (_, result) =
        play(stop_service(Platform::Linux, &uid, &found, &content), vec![yes(), yes()]);
    assert_eq!(result.map(report_text), Ok("installed service stopped"));
    let missing = Ok(None);
    assert_eq!(
        restart_service(Platform::Linux, &uid, &missing, &content),
        Plan::Done(Err("service is not installed; run setup and start".to_owned()))
    );
    let bare = Ok(Some(Manifest { service: None, ..recorded() }));
    assert_eq!(
        restart_service(Platform::Linux, &uid, &bare, &content),
        Plan::Done(Err("service is not installed; run start".to_owned()))
    );
    assert_eq!(
        stop_service(Platform::Linux, &uid, &bare, &content),
        Plan::Done(Err("service is not installed".to_owned()))
    );
    assert_eq!(
        stop_service(Platform::Linux, &uid, &found, &None),
        Plan::Done(Err("owned service definition missing: /s".to_owned()))
    );
}

#[test]
fn a_service_is_stopped_and_disabled_where_it_is_installed() {
    let uid = Ok(1);
    let bare = Manifest { service: None, ..recorded() };
    assert_eq!(
        stop_disable_if_installed(Platform::Linux, &uid, &bare),
        Plan::Done(Ok(Report::Nothing))
    );
    let yes = || ran(true, 0);
    assert_eq!(
        play(
            stop_disable_if_installed(Platform::Linux, &uid, &recorded()),
            vec![ran(false, 3), yes(), yes()]
        )
        .0,
        vec![
            "systemctl --user is-active --quiet codex-for-grok.service".to_owned(),
            "systemctl --user is-enabled --quiet codex-for-grok.service".to_owned(),
            "systemctl --user disable codex-for-grok.service".to_owned(),
        ]
    );
    assert_eq!(
        play(
            stop_disable_if_installed(Platform::MacOs, &uid, &recorded()),
            vec![ran(false, 1)]
        )
        .1,
        Ok(Report::Nothing)
    );
}
