use codex_for_grok::bytes::{count_occurrences, cut, find_bytes};
use codex_for_grok::install::{commit_service_file, install_and_start, InstallTask};
use codex_for_grok::manager::ManagerState;
use codex_for_grok::ownership::{
    block, expected, owned_block, remove_blocks, validate_model, verify_manifest,
    verify_owned_file, Manifest, OwnedBlock, OwnedFile, SOL, TERRA,
};
use codex_for_grok::path::{join_path, paths_match};
use codex_for_grok::settings::parse_settings;
use codex_for_grok::setup::{
    backup_extension, config_path, load_manifest, manifest_path, require_prerequisite, setup,
    setup_at, state_dir, temporary_extension, FileRead, ManifestRead, SetupTask,
};
use codex_for_grok::uninstall::{uninstall, UninstallTask};

fn manifest_for(path: &[u8], blocks: Vec<OwnedBlock>) -> Manifest {
    Manifest { version: 1, config: path.to_vec(), blocks, service: None }
}

struct Disk {
    config: Option<Vec<u8>>,
    manifest: Option<Manifest>,
    manifest_writable: bool,
    config_writes: usize,
}

impl Disk {
    fn new(config: Option<&[u8]>) -> Disk {
        Disk {
            config: config.map(<[u8]>::to_vec),
            manifest: None,
            manifest_writable: true,
            config_writes: 0,
        }
    }

    fn setup(&mut self, path: &[u8], dry: bool) -> Result<String, String> {
        let read = match &self.config {
            Some(bytes) => FileRead::Content(bytes.clone()),
            None => FileRead::Missing,
        };
        let mut task = setup_at(path.to_vec(), read, Ok(self.manifest.clone()), dry);
        loop {
            let outcome = match &task {
                SetupTask::Finished(_) => break,
                SetupTask::Reconcile { manifest, .. }
                | SetupTask::WriteManifest { manifest, .. } => self.write_manifest(manifest),
                SetupTask::WriteConfig { next, .. } => self.write_config(next),
                SetupTask::RestoreConfig { old, .. } => self.write_config(old),
            };
            task = task.advance(outcome);
        }
        match task {
            SetupTask::Finished(result) => result,
            _ => unreachable!(),
        }
    }

    fn write_config(&mut self, bytes: &[u8]) -> Result<(), String> {
        self.config_writes += 1;
        self.config = Some(bytes.to_vec());
        Ok(())
    }

    fn write_manifest(&mut self, manifest: &Manifest) -> Result<(), String> {
        if self.manifest_writable {
            self.manifest = Some(manifest.clone());
            Ok(())
        } else {
            Err("Not a directory".to_owned())
        }
    }
}

#[test]
fn setup_twice_preserves_config_and_dry_run_is_invariant() {
    let path = b"/home/config.toml";
    let old = b"# custom\r\n[models.custom]\r\nmodel = \"mine\"\r\n";
    let mut disk = Disk::new(Some(old));
    disk.setup(path, true).unwrap();
    assert_eq!(disk.config.as_deref(), Some(&old[..]));
    assert!(disk.manifest.is_none());
    disk.setup(path, false).unwrap();
    let once = disk.config.clone().unwrap();
    assert!(once.starts_with(old));
    let manifest_once = disk.manifest.clone();
    assert_eq!(disk.setup(path, false).unwrap(), "already configured; ownership verified");
    assert_eq!(disk.config.as_ref(), Some(&once));
    assert_eq!(disk.manifest, manifest_once);
    assert_eq!(disk.config_writes, 1);
}

#[test]
fn setup_reconciles_semantically_intact_blocks_after_markers_are_stripped() {
    let path = b"/home/config.toml";
    let mut disk = Disk::new(None);
    disk.setup(path, false).unwrap();
    let mut manifest = disk.manifest.clone().unwrap();
    manifest.service = Some(OwnedFile { path: b"/home/service".to_vec(), digest: "preserved".into() });
    disk.manifest = Some(manifest);
    let plain = b"[models.codex-sol]\nname = \"codex-sol\"\nmodel = \"gpt-5.6-sol\"\nbase_url = \"http://127.0.0.1:18474/v1\"\napi_key = \"local\"\n\n[models.codex-terra]\nname = \"codex-terra\"\nmodel = \"gpt-5.6-terra\"\nbase_url = \"http://127.0.0.1:18474/v1\"\napi_key = \"local\"\n";
    disk.config = Some(plain.to_vec());

    let dry = disk.setup(path, true).unwrap();
    assert!(dry.contains("relinquish ownership of 2"));
    assert_eq!(disk.manifest.as_ref().unwrap().blocks.len(), 2);

    let result = disk.setup(path, false).unwrap();
    assert!(result.contains("preserved 2 model block(s) as user-owned"));
    assert_eq!(disk.config.as_deref(), Some(&plain[..]));
    let reconciled = disk.manifest.unwrap();
    assert!(reconciled.blocks.is_empty());
    assert_eq!(reconciled.service.unwrap().digest, "preserved");
}

#[test]
fn setup_conflict_does_not_mutate_either_file() {
    let old =
        b"[models.codex-sol]\nname='codex-sol'\nmodel='wrong'\nbase_url='x'\napi_key='local'\n";
    let mut disk = Disk::new(Some(old));
    assert_eq!(
        disk.setup(b"/home/config.toml", false),
        Err("conflicting [models.codex-sol]: expected model = \"gpt-5.6-sol\"".to_owned())
    );
    assert_eq!(disk.config.as_deref(), Some(&old[..]));
    assert!(disk.manifest.is_none());
}

#[test]
fn setup_rolls_back_config_when_manifest_cannot_be_written() {
    let old = b"# untouched\n";
    let mut disk = Disk::new(Some(old));
    disk.manifest_writable = false;
    assert_eq!(
        disk.setup(b"/home/config.toml", false),
        Err("manifest write failed; configuration was rolled back: Not a directory".to_owned())
    );
    assert_eq!(disk.config.as_deref(), Some(&old[..]));
    assert_eq!(disk.config_writes, 2);
}

#[test]
fn setup_reports_what_it_cannot_undo() {
    let task = SetupTask::RestoreConfig {
        path: b"c".to_vec(),
        old: Vec::new(),
        error: "full".to_owned(),
    };
    assert_eq!(
        task.advance(Err("gone".to_owned())),
        SetupTask::Finished(Err(
            "manifest write failed (full); config rollback also failed (gone)".to_owned()
        ))
    );
}

#[test]
fn setup_appends_what_is_missing() {
    let mut disk = Disk::new(Some(b"a = 1"));
    assert_eq!(disk.setup(b"/c.toml", false), Ok("configured /c.toml".to_owned()));
    let mut expected = b"a = 1\n\n".to_vec();
    expected.extend_from_slice(block(SOL, "gpt-5.6-sol").as_bytes());
    expected.push(b'\n');
    expected.extend_from_slice(block(TERRA, "gpt-5.6-terra").as_bytes());
    expected.push(b'\n');
    assert_eq!(disk.config, Some(expected));
    assert_eq!(
        disk.manifest,
        Some(manifest_for(
            b"/c.toml",
            vec![owned_block(SOL, "gpt-5.6-sol"), owned_block(TERRA, "gpt-5.6-terra")]
        ))
    );
}

#[test]
fn a_reconciled_configuration_stays_as_it_is() {
    let path = b"/c.toml";
    let mut disk = Disk::new(None);
    disk.setup(path, false).unwrap();
    let marked = String::from_utf8(disk.config.clone().unwrap()).unwrap();
    let lines: Vec<&str> = marked.lines().filter(|line| !line.starts_with('#')).collect();
    disk.config = Some(lines.join("\n").into_bytes());
    disk.setup(path, false).unwrap();
    let (config, manifest) = (disk.config.clone(), disk.manifest.clone());
    for dry in [true, false] {
        assert_eq!(disk.setup(path, dry).unwrap(), "already configured; ownership verified");
        assert_eq!((&disk.config, &disk.manifest), (&config, &manifest));
    }
}

#[test]
fn uninstalling_undoes_setting_up() {
    for old in ["", "a = 1", "a = 1\n", "# é\r\n[x]\r\n"] {
        let mut disk = Disk::new(Some(old.as_bytes()));
        disk.setup(b"/c.toml", false).unwrap();
        let config = disk.config.unwrap();
        let manifest = disk.manifest.unwrap();
        assert_eq!(verify_manifest(&manifest, b"/c.toml", &config), Ok(()));
        let rest = remove_blocks(&manifest, &config).unwrap();
        assert!(rest.starts_with(old.as_bytes()));
        assert!(rest[old.len()..].iter().all(|byte| *byte == b'\n'));
    }
}

#[test]
fn setup_refuses_what_it_does_not_understand() {
    let cases: [(&[u8], &str); 4] = [
        (b"\xff", "config is not UTF-8; refusing to modify"),
        (b"[models.codex-luna]\n", "Luna is explicitly unsupported"),
        (b"[models]\ncodex-luna = 5\n", "Luna is explicitly unsupported"),
        (b"models = [\n", "invalid TOML: "),
    ];
    for (old, message) in cases {
        let mut disk = Disk::new(Some(old));
        let error = disk.setup(b"/c.toml", false).unwrap_err();
        assert!(error.starts_with(message), "{error}");
        assert_eq!(disk.config.as_deref(), Some(old));
    }
    assert_eq!(
        setup_at(b"/c".to_vec(), FileRead::Failed("denied".to_owned()), Ok(None), false),
        SetupTask::Finished(Err("denied".to_owned()))
    );
    assert_eq!(
        setup_at(b"/c".to_vec(), FileRead::Missing, Err("bad manifest".to_owned()), false),
        SetupTask::Finished(Err("bad manifest".to_owned()))
    );
}

#[test]
fn setup_holds_the_manifest_against_the_configuration() {
    let sol = owned_block(SOL, "gpt-5.6-sol");
    let mut forged = owned_block(SOL, "gpt-5.6-sol");
    forged.digest = "0".repeat(64);
    let cases = [
        (manifest_for(b"/other.toml", vec![]), "ownership manifest version/config mismatch"),
        (
            Manifest { version: 2, ..manifest_for(b"/c.toml", vec![]) },
            "ownership manifest version/config mismatch",
        ),
        (manifest_for(b"/c.toml", vec![forged]), "ownership manifest block digest mismatch"),
        (
            manifest_for(b"/c.toml", vec![sol]),
            "owned codex-sol block changed, missing, or duplicated",
        ),
    ];
    for (manifest, message) in cases {
        let mut disk = Disk::new(Some(b"# nothing\n"));
        disk.manifest = Some(manifest);
        assert_eq!(disk.setup(b"/c.toml", false), Err(message.to_owned()));
        assert_eq!(disk.config_writes, 0);
    }
}

#[test]
fn setup_needs_its_executables() {
    let run = |grok, codex, path| {
        setup(grok, codex, path, FileRead::Missing, Ok(None), true)
    };
    assert_eq!(
        run(false, true, Ok(b"/c".to_vec())),
        SetupTask::Finished(Err(
            "required `grok` executable not found on PATH; install Grok Build from the official xAI distribution".to_owned()
        ))
    );
    assert_eq!(
        run(true, false, Ok(b"/c".to_vec())),
        SetupTask::Finished(Err(
            "required `codex` executable not found on PATH; install the Codex CLI and run `codex login`".to_owned()
        ))
    );
    assert_eq!(
        run(true, true, Err("HOME is not set".to_owned())),
        SetupTask::Finished(Err("HOME is not set".to_owned()))
    );
    assert_eq!(
        run(true, true, Ok(b"/c".to_vec())),
        SetupTask::Finished(Ok(
            "dry-run: would append 2 model block(s) and relinquish ownership of 0 existing block(s)".to_owned()
        ))
    );
    assert_eq!(require_prerequisite(true, "x", "y"), Ok(()));
}

#[test]
fn semantic_conflicts_check_every_field() {
    let bad = parse_settings("name='codex-sol'\nmodel='gpt-5.6-sol'\nbase_url='http://127.0.0.1:18474/v1'\napi_key='wrong'").unwrap();
    assert!(validate_model(SOL, &bad).unwrap_err().contains("api_key"));
    let good = parse_settings("name='codex-terra'\nmodel='gpt-5.6-terra'\nbase_url='http://127.0.0.1:18474/v1'\napi_key='local'\nmore=1").unwrap();
    assert_eq!(validate_model(TERRA, &good), Ok(()));
    assert_eq!(
        validate_model("a\"b", &good),
        Err("conflicting [models.a\"b]: expected name = \"a\\\"b\"".to_owned())
    );
    assert_eq!(expected(SOL), ("gpt-5.6-sol", "http://127.0.0.1:18474/v1".to_owned()));
}

#[test]
fn manifest_rejects_changed_or_missing_blocks() {
    let b = block(SOL, "gpt-5.6-sol");
    let m = manifest_for(b"x", vec![owned_block(SOL, "gpt-5.6-sol")]);
    assert_eq!(m.blocks[0].bytes, b);
    assert!(verify_manifest(&m, b"x", b"other").is_err());
    assert!(verify_manifest(&m, b"x", b.as_bytes()).is_ok());
    assert!(verify_manifest(&m, b"./x", b.as_bytes()).is_err());
    assert!(verify_manifest(&m, b"y", b.as_bytes()).is_err());
    let twice = format!("{b}{b}");
    assert_eq!(
        verify_manifest(&m, b"x", twice.as_bytes()),
        Err("owned codex-sol block changed, missing, or duplicated".to_owned())
    );
}

#[test]
fn a_block_has_its_exact_text() {
    assert_eq!(
        block(SOL, "gpt-5.6-sol"),
        "# BEGIN codex-for-grok owned model: codex-sol\n[models.codex-sol]\nname = \"codex-sol\"\nmodel = \"gpt-5.6-sol\"\nbase_url = \"http://127.0.0.1:18474/v1\"\napi_key = \"local\"\n# END codex-for-grok owned model: codex-sol\n"
    );
}

#[test]
fn uninstall_algorithm_preserves_unrelated_bytes() {
    let owned = block(TERRA, "gpt-5.6-terra");
    let mut all = b"before\r\n".to_vec();
    all.extend_from_slice(owned.as_bytes());
    all.extend_from_slice(b"after\n");
    let at = find_bytes(&all, owned.as_bytes()).unwrap();
    let all = cut(&all, at, owned.len());
    assert_eq!(all, b"before\r\nafter\n");
}

#[test]
fn bytes_are_found_and_counted() {
    assert_eq!(count_occurrences(b"aaaa", b"aa"), 3);
    assert_eq!(count_occurrences(b"abc", b"abcd"), 0);
    assert_eq!(count_occurrences(b"abc", b"c"), 1);
    assert_eq!(find_bytes(b"xaba", b"a"), Some(1));
    assert_eq!(find_bytes(b"xyz", b"a"), None);
    assert_eq!(find_bytes(b"", b"a"), None);
}

#[test]
fn an_owned_file_is_held_to_its_digest() {
    let file = OwnedFile {
        path: b"/s".to_vec(),
        digest: "ba7816bf8f01cfea414140de5dae2223b00361a396177a9cb410ff61f20015ad".to_owned(),
    };
    assert_eq!(verify_owned_file(&file, &Some(b"abc".to_vec())), Ok(()));
    assert_eq!(
        verify_owned_file(&file, &Some(b"abd".to_vec())),
        Err("service definition conflict: /s is not unchanged bridge-owned content".to_owned())
    );
    assert_eq!(
        verify_owned_file(&file, &None),
        Err("owned service definition missing: /s".to_owned())
    );
}

#[test]
fn paths_are_compared_by_their_names() {
    assert!(paths_match(b"/a//b/", b"/a/./b"));
    assert!(paths_match(b"", b""));
    assert!(paths_match(b"/.", b"/"));
    assert!(!paths_match(b"/a", b"a"));
    assert!(!paths_match(b"./a", b"a"));
    assert!(!paths_match(b"a/../b", b"b"));
    assert_eq!(join_path(b"/home/u", "x/y"), b"/home/u/x/y");
    assert_eq!(join_path(b"/", "x"), b"/x");
    assert_eq!(join_path(b"", "x"), b"x");
}

#[test]
fn the_places_of_files_depend_on_the_home_directory() {
    let home = Some(b"/home/u".to_vec());
    assert_eq!(state_dir(&home), Ok(b"/home/u/.grok/codex-for-grok".to_vec()));
    assert_eq!(
        manifest_path(&home),
        Ok(b"/home/u/.grok/codex-for-grok/ownership.json".to_vec())
    );
    assert_eq!(config_path(None, None, &home), Ok(b"/home/u/.grok/config.toml".to_vec()));
    assert_eq!(config_path(None, Some(b"/e".to_vec()), &home), Ok(b"/e".to_vec()));
    assert_eq!(
        config_path(Some(b"/g".to_vec()), Some(b"/e".to_vec()), &home),
        Ok(b"/g".to_vec())
    );
    assert_eq!(
        config_path(Some(b"/g".to_vec()), None, &None),
        Err("HOME is not set".to_owned())
    );
    assert_eq!(manifest_path(&None), Err("HOME is not set".to_owned()));
    assert_eq!(backup_extension(12), "backup-12");
    assert_eq!(temporary_extension(3, 450), "tmp-3-450");
}

#[test]
fn a_manifest_is_there_missing_or_broken() {
    let manifest = manifest_for(b"x", vec![]);
    assert_eq!(load_manifest(ManifestRead::Found(manifest.clone())), Ok(Some(manifest)));
    assert_eq!(load_manifest(ManifestRead::Missing), Ok(None));
    assert_eq!(
        load_manifest(ManifestRead::Malformed("eof".to_owned())),
        Err("invalid ownership manifest: eof".to_owned())
    );
    assert_eq!(
        load_manifest(ManifestRead::Failed("denied".to_owned())),
        Err("denied".to_owned())
    );
}

#[test]
fn service_transaction_rolls_back_on_manifest_failure() {
    let manifest = manifest_for(b"/config.toml", vec![]);
    let task =
        commit_service_file(b"/service.unit".to_vec(), b"owned".to_vec(), manifest.clone());
    assert!(matches!(&task, InstallTask::WriteService { body, .. } if body == b"owned"));
    let task = task.advance(Ok(()));
    assert!(
        matches!(&task, InstallTask::WriteManifest { manifest, .. } if manifest.service.is_some())
    );
    let task = task.advance(Err("blocked".to_owned()));
    assert_eq!(
        task,
        InstallTask::RemoveService { path: b"/service.unit".to_vec(), error: "blocked".to_owned() }
    );
    assert_eq!(
        task.advance(Ok(())),
        InstallTask::Finished(Err(
            "manifest write failed; service file was rolled back: blocked".to_owned()
        ))
    );
    assert!(manifest.service.is_none());
}

#[test]
fn the_service_is_installed_once() {
    let definition = || Ok((b"/s.unit".to_vec(), b"body".to_vec()));
    assert_eq!(
        install_and_start(Ok(None), definition(), &None, false),
        InstallTask::Finished(Err("run setup before start".to_owned()))
    );
    let manifest = manifest_for(b"/c", vec![]);
    assert_eq!(
        install_and_start(Ok(Some(manifest.clone())), definition(), &None, true),
        InstallTask::Finished(Err(
            "service definition already exists and is not owned: /s.unit".to_owned()
        ))
    );
    let task = install_and_start(Ok(Some(manifest)), definition(), &None, false);
    let task = task.advance(Ok(()));
    let recorded = match &task {
        InstallTask::WriteManifest { manifest, .. } => manifest.clone(),
        _ => unreachable!(),
    };
    let task = task.advance(Ok(()));
    assert_eq!(task, InstallTask::Start { path: b"/s.unit".to_vec() });
    assert_eq!(
        task.advance(Ok(())),
        InstallTask::Finished(Ok("service installed and started".to_owned()))
    );
    assert_eq!(
        install_and_start(
            Ok(Some(recorded.clone())),
            definition(),
            &Some(b"body".to_vec()),
            true
        ),
        InstallTask::Start { path: b"/s.unit".to_vec() }
    );
    assert_eq!(
        install_and_start(
            Ok(Some(recorded)),
            Ok((b"/s.unit".to_vec(), b"other".to_vec())),
            &Some(b"body".to_vec()),
            true
        ),
        InstallTask::Finished(Err(
            "installed service belongs to another binary; uninstall it first".to_owned()
        ))
    );
}

fn installed() -> (Manifest, Vec<u8>) {
    let mut manifest = manifest_for(b"/c.toml", vec![owned_block(SOL, "gpt-5.6-sol")]);
    manifest.service = Some(OwnedFile {
        path: b"/s.unit".to_vec(),
        digest: "ba7816bf8f01cfea414140de5dae2223b00361a396177a9cb410ff61f20015ad".to_owned(),
    });
    let config = format!("top\n{}end\n", block(SOL, "gpt-5.6-sol")).into_bytes();
    (manifest, config)
}

fn begin_uninstall(dry: bool) -> UninstallTask {
    let (manifest, config) = installed();
    uninstall(
        Ok(Some(manifest)),
        Ok(b"/c.toml".to_vec()),
        Ok(config),
        &Some(b"abc".to_vec()),
        dry,
    )
}

fn begin_removal() -> UninstallTask {
    let state = ManagerState { active: true, enabled: true };
    begin_uninstall(false).with_state(Ok(state)).advance(Ok(())).with_content(Ok(b"abc".to_vec()))
}

#[test]
fn uninstalling_goes_step_by_step() {
    assert_eq!(
        begin_uninstall(true),
        UninstallTask::Finished(Ok(
            "dry-run: ownership verified; would stop service and remove owned artifacts".to_owned()
        ))
    );
    let task = begin_uninstall(false);
    assert!(matches!(task, UninstallTask::QueryManager(_)));
    let state = ManagerState { active: true, enabled: false };
    let task = task.with_state(Ok(state));
    assert!(matches!(task, UninstallTask::StopService(_, _)));
    let task = task.advance(Ok(()));
    assert!(matches!(
        &task,
        UninstallTask::ReadService { next, file, .. }
            if next == b"top\nend\n" && file == b"/s.unit"
    ));
    let task = task.with_content(Ok(b"abc".to_vec()));
    assert!(matches!(&task, UninstallTask::WriteConfig(job) if job.next == b"top\nend\n"));
    let task = task.advance(Ok(()));
    assert!(matches!(task, UninstallTask::RemoveService(_)));
    let task = task.advance(Ok(()));
    assert!(matches!(task, UninstallTask::ReloadManager(_)));
    let task = task.advance(Ok(()));
    assert!(matches!(task, UninstallTask::RemoveManifest(_)));
    assert_eq!(
        task.advance(Ok(())),
        UninstallTask::Finished(Ok(
            "uninstalled unchanged bridge-owned configuration and service".to_owned()
        ))
    );
}

#[test]
fn a_failed_uninstall_is_rolled_back() {
    let task = begin_removal().advance(Ok(())).advance(Err("busy".to_owned()));
    assert!(matches!(&task, UninstallTask::RestoreConfig(_, error) if error == "busy"));
    let task = task.advance(Ok(()));
    assert!(matches!(
        &task,
        UninstallTask::RestoreService(job, _, _)
            if job.service.as_ref().map(|backup| backup.bytes.clone()) == Some(b"abc".to_vec())
    ));
    let task = task.advance(Ok(()));
    assert!(matches!(&task, UninstallTask::RestoreManager(_, _, _)));
    assert_eq!(
        task.advance(Ok(())),
        UninstallTask::Finished(Err(
            "uninstall failed and artifacts were restored; retry is safe: busy".to_owned()
        ))
    );
}

#[test]
fn a_failed_rollback_is_reported() {
    let task = begin_removal().advance(Err("full".to_owned()));
    let task = task.advance(Err("a".to_owned()));
    let task = task.advance(Ok(()));
    assert_eq!(
        task.advance(Err("b".to_owned())),
        UninstallTask::Finished(Err(
            "uninstall failed (full); rollback incomplete: config: a, manager state: b".to_owned()
        ))
    );
    let task = begin_removal().advance(Err("full".to_owned())).advance(Ok(()));
    assert_eq!(
        task.advance(Err("c".to_owned())),
        UninstallTask::Finished(Err(
            "uninstall failed (full); rollback incomplete: service: c".to_owned()
        ))
    );
}

#[test]
fn uninstalling_refuses_what_has_changed() {
    let refuse = |manifest, path, config, content: Option<Vec<u8>>| {
        match uninstall(manifest, path, config, &content, false) {
            UninstallTask::Finished(Err(error)) => error,
            other => panic!("{other:?}"),
        }
    };
    let (manifest, config) = installed();
    let path = || Ok(b"/c.toml".to_vec());
    assert_eq!(
        refuse(Ok(None), path(), Ok(vec![]), None),
        "no ownership manifest; refusing uninstall"
    );
    assert_eq!(
        refuse(Ok(Some(manifest.clone())), Err("HOME is not set".to_owned()), Ok(vec![]), None),
        "HOME is not set"
    );
    assert_eq!(
        refuse(Ok(Some(manifest.clone())), path(), Err("denied".to_owned()), None),
        "denied"
    );
    assert_eq!(
        refuse(Ok(Some(manifest.clone())), path(), Ok(b"edited".to_vec()), None),
        "owned codex-sol block changed, missing, or duplicated"
    );
    assert_eq!(
        refuse(Ok(Some(manifest)), path(), Ok(config), Some(b"edited".to_vec())),
        "service definition conflict: /s.unit is not unchanged bridge-owned content"
    );
}

#[test]
fn uninstalling_without_a_service_leaves_the_manager_alone() {
    let (mut manifest, config) = installed();
    manifest.service = None;
    let task = uninstall(Ok(Some(manifest)), Ok(b"/c.toml".to_vec()), Ok(config), &None, false);
    assert!(matches!(&task, UninstallTask::WriteConfig(job) if job.service.is_none()));
    let task = task.advance(Ok(()));
    assert!(matches!(task, UninstallTask::RemoveManifest(_)));
    assert_eq!(
        task.advance(Err("busy".to_owned())).advance(Ok(())),
        UninstallTask::Finished(Err(
            "uninstall failed and artifacts were restored; retry is safe: busy".to_owned()
        ))
    );
}

#[test]
fn overlapping_blocks_disappear() {
    let blocks = vec![
        OwnedBlock { name: "a".into(), bytes: "xy".into(), digest: String::new() },
        OwnedBlock { name: "b".into(), bytes: "yz".into(), digest: String::new() },
    ];
    assert_eq!(remove_blocks(&manifest_for(b"c", blocks), b"xyz"), None);
}
