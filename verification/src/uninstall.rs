//! Removing what the bridge owns: its model blocks, its service definition and
//! its manifest, with a rollback where a step fails.
use vstd::prelude::*;
use vstd::utf8::encode_utf8;

use crate::bytes::{cut_out, first_position, lemma_first_position, lemma_single_occurrence};
use crate::bytes::{occurrences, stands_at, stands_in};
use crate::codec::optional_bytes;
use crate::manager::ManagerState;
use crate::ownership::{file_problem, manifest_problem, remove_blocks, verify_manifest};
use crate::ownership::{verify_owned_file, without_blocks, BlockView, Manifest, ManifestView};
use crate::setup::{manifest_result, outcome_view, path_result};
use crate::text::{concat, concat3, join, joined, text_result, texts};

verus! {

/// What is to be removed.
#[derive(Debug, PartialEq, Eq)]
pub struct Removal {
    /// Where the configuration is.
    pub path: Vec<u8>,
    /// What the configuration holds.
    pub old: Vec<u8>,
    pub manifest: Manifest,
}

/// What a removal holds.
pub struct RemovalView {
    pub path: Seq<u8>,
    pub old: Seq<u8>,
    pub manifest: ManifestView,
}

impl View for Removal {
    type V = RemovalView;

    open spec fn view(&self) -> RemovalView {
        RemovalView { path: self.path@, old: self.old@, manifest: self.manifest@ }
    }
}

/// The service that is removed, as it was before.
#[derive(Debug, PartialEq, Eq)]
pub struct ServiceBackup {
    pub path: Vec<u8>,
    pub bytes: Vec<u8>,
    pub state: ManagerState,
}

/// What a backup holds.
pub struct BackupView {
    pub path: Seq<u8>,
    pub bytes: Seq<u8>,
    pub state: ManagerState,
}

impl View for ServiceBackup {
    type V = BackupView;

    open spec fn view(&self) -> BackupView {
        BackupView { path: self.path@, bytes: self.bytes@, state: self.state }
    }
}

/// The removal of the files, with all that a rollback needs.
#[derive(Debug, PartialEq, Eq)]
pub struct Transaction {
    pub path: Vec<u8>,
    pub old: Vec<u8>,
    pub next: Vec<u8>,
    pub service: Option<ServiceBackup>,
}

/// What a transaction holds.
pub struct TransactionView {
    pub path: Seq<u8>,
    pub old: Seq<u8>,
    pub next: Seq<u8>,
    pub service: Option<BackupView>,
}

/// What an optional backup holds.
pub open spec fn optional_backup(backup: Option<ServiceBackup>) -> Option<BackupView> {
    match backup {
        Some(backup) => Some(backup@),
        None => None,
    }
}

impl View for Transaction {
    type V = TransactionView;

    open spec fn view(&self) -> TransactionView {
        TransactionView {
            path: self.path@,
            old: self.old@,
            next: self.next@,
            service: optional_backup(self.service),
        }
    }
}

/// What is to be done next in uninstalling. Each task but the last ends with one
/// step; what follows it depends on what came of the step.
#[derive(Debug, PartialEq, Eq)]
pub enum UninstallTask {
    /// Nothing is left to do.
    Finished(Result<String, String>),
    /// Find the state of the service manager.
    QueryManager(Removal),
    /// Stop and disable the service.
    StopService(Removal, ManagerState),
    /// Read the service definition.
    ReadService { path: Vec<u8>, old: Vec<u8>, next: Vec<u8>, file: Vec<u8>, state: ManagerState },
    /// Keep a copy of the old configuration and write the new one.
    WriteConfig(Transaction),
    /// Remove the service definition.
    RemoveService(Transaction),
    /// Tell the service manager that the definition is gone.
    ReloadManager(Transaction),
    /// Remove the manifest.
    RemoveManifest(Transaction),
    /// Put the old configuration back.
    RestoreConfig(Transaction, String),
    /// Put the service definition back.
    RestoreService(Transaction, String, Vec<String>),
    /// Bring the service manager back to its state.
    RestoreManager(Transaction, String, Vec<String>),
}

/// What an uninstall task holds.
pub enum UninstallView {
    Finished(Result<Seq<char>, Seq<char>>),
    QueryManager(RemovalView),
    StopService(RemovalView, ManagerState),
    ReadService { path: Seq<u8>, old: Seq<u8>, next: Seq<u8>, file: Seq<u8>, state: ManagerState },
    WriteConfig(TransactionView),
    RemoveService(TransactionView),
    ReloadManager(TransactionView),
    RemoveManifest(TransactionView),
    RestoreConfig(TransactionView, Seq<char>),
    RestoreService(TransactionView, Seq<char>, Seq<Seq<char>>),
    RestoreManager(TransactionView, Seq<char>, Seq<Seq<char>>),
}

impl View for UninstallTask {
    type V = UninstallView;

    open spec fn view(&self) -> UninstallView {
        match self {
            UninstallTask::Finished(r) => UninstallView::Finished(text_result(*r)),
            UninstallTask::QueryManager(removal) => UninstallView::QueryManager(removal@),
            UninstallTask::StopService(removal, state) => UninstallView::StopService(
                removal@,
                *state,
            ),
            UninstallTask::ReadService { path, old, next, file, state } => {
                UninstallView::ReadService {
                    path: path@,
                    old: old@,
                    next: next@,
                    file: file@,
                    state: *state,
                }
            },
            UninstallTask::WriteConfig(job) => UninstallView::WriteConfig(job@),
            UninstallTask::RemoveService(job) => UninstallView::RemoveService(job@),
            UninstallTask::ReloadManager(job) => UninstallView::ReloadManager(job@),
            UninstallTask::RemoveManifest(job) => UninstallView::RemoveManifest(job@),
            UninstallTask::RestoreConfig(job, error) => UninstallView::RestoreConfig(job@, error@),
            UninstallTask::RestoreService(job, error, failures) => UninstallView::RestoreService(
                job@,
                error@,
                texts(failures@),
            ),
            UninstallTask::RestoreManager(job, error, failures) => UninstallView::RestoreManager(
                job@,
                error@,
                texts(failures@),
            ),
        }
    }
}

/// A refusal.
pub open spec fn refused(error: Seq<char>) -> UninstallView {
    UninstallView::Finished(Err(error))
}

/// What comes once the service has been stopped: the owned blocks are cut out of
/// the configuration.
pub open spec fn plan_removal(removal: RemovalView, state: Option<ManagerState>) -> UninstallView {
    match without_blocks(removal.manifest.blocks, removal.old) {
        None => refused("owned block disappeared"@),
        Some(next) => match (removal.manifest.service, state) {
            (Some(file), Some(state)) => UninstallView::ReadService {
                path: removal.path,
                old: removal.old,
                next,
                file: file.path,
                state,
            },
            _ => UninstallView::WriteConfig(
                TransactionView { path: removal.path, old: removal.old, next, service: None },
            ),
        },
    }
}

/// What uninstalling does, given what was read: it is refused where anything
/// that is owned has changed.
pub open spec fn plan_uninstall(
    manifest: Result<Option<ManifestView>, Seq<char>>,
    place: Result<Seq<u8>, Seq<char>>,
    config: Result<Seq<u8>, Seq<char>>,
    content: Option<Seq<u8>>,
    dry: bool,
) -> UninstallView {
    match manifest {
        Err(error) => refused(error),
        Ok(None) => refused("no ownership manifest; refusing uninstall"@),
        Ok(Some(manifest)) => match place {
            Err(error) => refused(error),
            Ok(path) => match config {
                Err(error) => refused(error),
                Ok(old) => match manifest_problem(manifest, path, old) {
                    Some(problem) => refused(problem),
                    None => match service_problem(manifest, content) {
                        Some(problem) => refused(problem),
                        None => {
                            let removal = RemovalView { path, old, manifest };
                            if dry {
                                UninstallView::Finished(
                                    Ok(
                                        "dry-run: ownership verified; would stop service and remove owned artifacts"@,
                                    ),
                                )
                            } else if manifest.service is Some {
                                UninstallView::QueryManager(removal)
                            } else {
                                plan_removal(removal, None)
                            }
                        },
                    },
                },
            },
        },
    }
}

/// What the recorded service definition is refused with.
pub open spec fn service_problem(manifest: ManifestView, content: Option<Seq<u8>>) -> Option<
    Seq<char>,
> {
    match manifest.service {
        Some(file) => file_problem(file, content),
        None => None,
    }
}

fn cut_blocks(removal: Removal, state: Option<ManagerState>) -> (task: UninstallTask)
    ensures
        task@ == plan_removal(removal@, state),
{
    let next = match remove_blocks(&removal.manifest, removal.old.as_slice()) {
        Some(next) => next,
        None => return UninstallTask::Finished(Err("owned block disappeared".to_owned())),
    };
    let Removal { path, old, manifest } = removal;
    match (manifest.service, state) {
        (Some(file), Some(state)) => UninstallTask::ReadService {
            path,
            old,
            next,
            file: file.path,
            state,
        },
        _ => UninstallTask::WriteConfig(Transaction { path, old, next, service: None }),
    }
}

/// Decides what uninstalling does. `config` is what was read at `path`, and
/// `content` is what the recorded service definition holds now.
pub fn uninstall(
    manifest: Result<Option<Manifest>, String>,
    path: Result<Vec<u8>, String>,
    config: Result<Vec<u8>, String>,
    content: &Option<Vec<u8>>,
    dry: bool,
) -> (task: UninstallTask)
    ensures
        task@ == plan_uninstall(
            manifest_result(manifest),
            path_result(path),
            path_result(config),
            optional_bytes(*content),
            dry,
        ),
{
    let manifest = match manifest {
        Err(error) => return UninstallTask::Finished(Err(error)),
        Ok(None) => return UninstallTask::Finished(
            Err("no ownership manifest; refusing uninstall".to_owned()),
        ),
        Ok(Some(manifest)) => manifest,
    };
    let path = match path {
        Err(error) => return UninstallTask::Finished(Err(error)),
        Ok(path) => path,
    };
    let old = match config {
        Err(error) => return UninstallTask::Finished(Err(error)),
        Ok(old) => old,
    };
    if let Err(error) = verify_manifest(&manifest, path.as_slice(), old.as_slice()) {
        return UninstallTask::Finished(Err(error));
    }
    if let Some(file) = &manifest.service {
        if let Err(error) = verify_owned_file(file, content) {
            return UninstallTask::Finished(Err(error));
        }
    }
    if dry {
        return UninstallTask::Finished(
            Ok(
                "dry-run: ownership verified; would stop service and remove owned artifacts".to_owned(),
            ),
        );
    }
    let installed = manifest.service.is_some();
    let removal = Removal { path, old, manifest };
    if installed {
        UninstallTask::QueryManager(removal)
    } else {
        cut_blocks(removal, None)
    }
}

/// What is reported of an uninstall that failed, and of what could not be
/// restored.
pub open spec fn conclusion(error: Seq<char>, failures: Seq<Seq<char>>) -> UninstallView {
    if failures.len() == 0 {
        refused("uninstall failed and artifacts were restored; retry is safe: "@ + error)
    } else {
        refused(
            "uninstall failed ("@ + error + "); rollback incomplete: "@ + joined(failures, ", "@),
        )
    }
}

fn conclude(error: String, failures: Vec<String>) -> (task: UninstallTask)
    ensures
        task@ == conclusion(error@, texts(failures@)),
{
    if failures.len() == 0 {
        UninstallTask::Finished(
            Err(
                concat(
                    "uninstall failed and artifacts were restored; retry is safe: ",
                    error.as_str(),
                ),
            ),
        )
    } else {
        let mut message = concat3("uninstall failed (", error.as_str(), "); rollback incomplete: ");
        message.append(join(&failures, ", ").as_str());
        UninstallTask::Finished(Err(message))
    }
}

/// What comes after the attempt to put the configuration back.
pub open spec fn after_config(
    job: TransactionView,
    error: Seq<char>,
    failures: Seq<Seq<char>>,
) -> UninstallView {
    match job.service {
        Some(_) => UninstallView::RestoreService(job, error, failures),
        None => conclusion(error, failures),
    }
}

/// What follows a task, given what came of its step.
pub open spec fn uninstall_after(task: UninstallView, outcome: Result<(), Seq<char>>) -> UninstallView {
    match task {
        UninstallView::StopService(removal, state) => match outcome {
            Ok(_) => plan_removal(removal, Some(state)),
            Err(error) => refused(error),
        },
        UninstallView::WriteConfig(job) => match outcome {
            Ok(_) => match job.service {
                Some(_) => UninstallView::RemoveService(job),
                None => UninstallView::RemoveManifest(job),
            },
            Err(error) => UninstallView::RestoreConfig(job, error),
        },
        UninstallView::RemoveService(job) => match outcome {
            Ok(_) => UninstallView::ReloadManager(job),
            Err(error) => UninstallView::RestoreConfig(job, error),
        },
        UninstallView::ReloadManager(job) => match outcome {
            Ok(_) => UninstallView::RemoveManifest(job),
            Err(error) => UninstallView::RestoreConfig(job, error),
        },
        UninstallView::RemoveManifest(job) => match outcome {
            Ok(_) => UninstallView::Finished(
                Ok("uninstalled unchanged bridge-owned configuration and service"@),
            ),
            Err(error) => UninstallView::RestoreConfig(job, error),
        },
        UninstallView::RestoreConfig(job, error) => match outcome {
            Ok(_) => after_config(job, error, Seq::empty()),
            Err(failure) => after_config(job, error, seq!["config: "@ + failure]),
        },
        UninstallView::RestoreService(job, error, failures) => match outcome {
            Ok(_) => UninstallView::RestoreManager(job, error, failures),
            Err(failure) => conclusion(error, failures.push("service: "@ + failure)),
        },
        UninstallView::RestoreManager(_, error, failures) => match outcome {
            Ok(_) => conclusion(error, failures),
            Err(failure) => conclusion(error, failures.push("manager state: "@ + failure)),
        },
        _ => task,
    }
}

fn go_on_from_config(job: Transaction, error: String, failures: Vec<String>) -> (task:
    UninstallTask)
    ensures
        task@ == after_config(job@, error@, texts(failures@)),
{
    if job.service.is_some() {
        UninstallTask::RestoreService(job, error, failures)
    } else {
        conclude(error, failures)
    }
}

/// The failures with one more.
fn with_failure(failures: Vec<String>, place: &str, failure: String) -> (r: Vec<String>)
    ensures
        texts(r@) == texts(failures@).push(place@ + failure@),
{
    let mut r = failures;
    r.push(concat(place, failure.as_str()));
    assert(texts(r@) =~= texts(failures@).push(place@ + failure@));
    r
}

/// What a state of the service manager, or the error in its place, holds.
pub open spec fn state_result(r: Result<ManagerState, String>) -> Result<ManagerState, Seq<char>> {
    match r {
        Ok(state) => Ok(state),
        Err(error) => Err(error@),
    }
}

/// What follows the question for the state of the service manager.
pub open spec fn uninstall_with_state(
    task: UninstallView,
    state: Result<ManagerState, Seq<char>>,
) -> UninstallView {
    match task {
        UninstallView::QueryManager(removal) => match state {
            Ok(state) => UninstallView::StopService(removal, state),
            Err(error) => refused(error),
        },
        _ => task,
    }
}

/// What follows the reading of the service definition.
pub open spec fn uninstall_with_content(
    task: UninstallView,
    content: Result<Seq<u8>, Seq<char>>,
) -> UninstallView {
    match task {
        UninstallView::ReadService { path, old, next, file, state } => match content {
            Ok(bytes) => UninstallView::WriteConfig(
                TransactionView {
                    path,
                    old,
                    next,
                    service: Some(BackupView { path: file, bytes, state }),
                },
            ),
            Err(error) => refused(error),
        },
        _ => task,
    }
}

impl UninstallTask {
    /// What follows a task, given what came of its step. A task that waits for
    /// something else stays.
    pub fn advance(self, outcome: Result<(), String>) -> (next: UninstallTask)
        ensures
            next@ == uninstall_after(self@, outcome_view(outcome)),
    {
        match self {
            UninstallTask::StopService(removal, state) => match outcome {
                Ok(_) => cut_blocks(removal, Some(state)),
                Err(error) => UninstallTask::Finished(Err(error)),
            },
            UninstallTask::WriteConfig(job) => match outcome {
                Ok(_) => if job.service.is_some() {
                    UninstallTask::RemoveService(job)
                } else {
                    UninstallTask::RemoveManifest(job)
                },
                Err(error) => UninstallTask::RestoreConfig(job, error),
            },
            UninstallTask::RemoveService(job) => match outcome {
                Ok(_) => UninstallTask::ReloadManager(job),
                Err(error) => UninstallTask::RestoreConfig(job, error),
            },
            UninstallTask::ReloadManager(job) => match outcome {
                Ok(_) => UninstallTask::RemoveManifest(job),
                Err(error) => UninstallTask::RestoreConfig(job, error),
            },
            UninstallTask::RemoveManifest(job) => match outcome {
                Ok(_) => UninstallTask::Finished(
                    Ok("uninstalled unchanged bridge-owned configuration and service".to_owned()),
                ),
                Err(error) => UninstallTask::RestoreConfig(job, error),
            },
            UninstallTask::RestoreConfig(job, error) => {
                let failures: Vec<String> = Vec::new();
                assert(texts(failures@) =~= Seq::empty());
                match outcome {
                    Ok(_) => go_on_from_config(job, error, failures),
                    Err(failure) => {
                        let failures = with_failure(failures, "config: ", failure);
                        assert(texts(failures@) =~= seq!["config: "@ + failure@]);
                        go_on_from_config(job, error, failures)
                    },
                }
            },
            UninstallTask::RestoreService(job, error, failures) => match outcome {
                Ok(_) => UninstallTask::RestoreManager(job, error, failures),
                Err(failure) => conclude(error, with_failure(failures, "service: ", failure)),
            },
            UninstallTask::RestoreManager(_, error, failures) => match outcome {
                Ok(_) => conclude(error, failures),
                Err(failure) => conclude(error, with_failure(failures, "manager state: ", failure)),
            },
            other => other,
        }
    }

    /// What follows the question for the state of the service manager.
    pub fn with_state(self, state: Result<ManagerState, String>) -> (next: UninstallTask)
        ensures
            next@ == uninstall_with_state(self@, state_result(state)),
    {
        match self {
            UninstallTask::QueryManager(removal) => match state {
                Ok(state) => UninstallTask::StopService(removal, state),
                Err(error) => UninstallTask::Finished(Err(error)),
            },
            other => other,
        }
    }

    /// What follows the reading of the service definition.
    pub fn with_content(self, content: Result<Vec<u8>, String>) -> (next: UninstallTask)
        ensures
            next@ == uninstall_with_content(self@, path_result(content)),
    {
        match self {
            UninstallTask::ReadService { path, old, next, file, state } => match content {
                Ok(bytes) => UninstallTask::WriteConfig(
                    Transaction {
                        path,
                        old,
                        next,
                        service: Some(ServiceBackup { path: file, bytes, state }),
                    },
                ),
                Err(error) => UninstallTask::Finished(Err(error)),
            },
            other => other,
        }
    }
}

/// A dry run changes nothing, whatever was read.
pub proof fn lemma_dry_run_changes_nothing(
    manifest: Result<Option<ManifestView>, Seq<char>>,
    place: Result<Seq<u8>, Seq<char>>,
    config: Result<Seq<u8>, Seq<char>>,
    content: Option<Seq<u8>>,
)
    ensures
        plan_uninstall(manifest, place, config, content, true) is Finished,
{
}

/// Uninstalling is refused where anything that is owned has been changed.
pub proof fn lemma_changed_artifacts_are_refused(
    manifest: ManifestView,
    path: Seq<u8>,
    old: Seq<u8>,
    content: Option<Seq<u8>>,
    dry: bool,
)
    requires
        manifest_problem(manifest, path, old) is Some || service_problem(manifest, content) is Some,
    ensures
        plan_uninstall(Ok(Some(manifest)), Ok(path), Ok(old), content, dry) matches UninstallView::Finished(
            r,
        ) && r is Err,
{
}

/// What the three artifacts are while uninstalling.
#[verifier::ext_equal]
pub struct Artifacts {
    pub config: Seq<u8>,
    pub service: Option<Seq<u8>>,
    pub has_manifest: bool,
}

/// What the artifacts are after the step of a task. A step that fails changes
/// nothing.
pub open spec fn artifacts_after(
    artifacts: Artifacts,
    task: UninstallView,
    outcome: Result<(), Seq<char>>,
) -> Artifacts {
    if outcome is Err {
        artifacts
    } else {
        match task {
            UninstallView::WriteConfig(job) => Artifacts { config: job.next, ..artifacts },
            UninstallView::RemoveService(_) => Artifacts { service: None, ..artifacts },
            UninstallView::RemoveManifest(_) => Artifacts { has_manifest: false, ..artifacts },
            UninstallView::RestoreConfig(job, _) => Artifacts { config: job.old, ..artifacts },
            UninstallView::RestoreService(job, _, _) => match job.service {
                Some(backup) => Artifacts { service: Some(backup.bytes), ..artifacts },
                None => artifacts,
            },
            _ => artifacts,
        }
    }
}

/// The artifacts before a transaction.
pub open spec fn artifacts_before(job: TransactionView) -> Artifacts {
    Artifacts {
        config: job.old,
        service: match job.service {
            Some(backup) => Some(backup.bytes),
            None => None,
        },
        has_manifest: true,
    }
}

/// Whether the artifacts are as they are when a task comes up.
pub open spec fn fits(task: UninstallView, artifacts: Artifacts) -> bool {
    match task {
        UninstallView::StopService(removal, _) => artifacts.config == removal.old
            && artifacts.has_manifest && (removal.manifest.service is None
            ==> artifacts.service is None),
        UninstallView::WriteConfig(job) => artifacts == artifacts_before(job),
        UninstallView::RemoveService(job) => artifacts == (Artifacts {
            config: job.next,
            ..artifacts_before(job)
        }),
        UninstallView::ReloadManager(job) => artifacts == (Artifacts {
            config: job.next,
            service: None,
            has_manifest: true,
        }),
        UninstallView::RemoveManifest(job) => artifacts == (Artifacts {
            config: job.next,
            service: None,
            has_manifest: true,
        }),
        UninstallView::RestoreConfig(job, _) => artifacts.has_manifest && (job.service is None
            ==> artifacts.service is None),
        UninstallView::RestoreService(job, _, failures) => artifacts.has_manifest
            && job.service is Some && (failures.len() == 0 ==> artifacts.config == job.old),
        UninstallView::RestoreManager(job, _, failures) => artifacts.has_manifest
            && job.service is Some && (failures.len() == 0 ==> artifacts == artifacts_before(job)),
        _ => true,
    }
}

/// The configuration, the service definition and the manifest go together. A
/// transaction whose artifacts fit goes on with artifacts that fit. Where it
/// succeeds, all three are removed. Where it fails and every step of the
/// rollback succeeds, all three are as they were.
pub proof fn lemma_uninstall_is_a_transaction(
    task: UninstallView,
    artifacts: Artifacts,
    outcome: Result<(), Seq<char>>,
)
    requires
        fits(task, artifacts),
    ensures
        fits(uninstall_after(task, outcome), artifacts_after(artifacts, task, outcome)),
        task matches UninstallView::RemoveManifest(job) ==> outcome is Ok ==> {
            &&& uninstall_after(task, outcome) matches UninstallView::Finished(Ok(_))
            &&& artifacts_after(artifacts, task, outcome) == (Artifacts {
                config: job.next,
                service: None,
                has_manifest: false,
            })
        },
        task matches UninstallView::RestoreConfig(job, _) ==> job.service is None ==> outcome is Ok
            ==> artifacts_after(artifacts, task, outcome) == artifacts_before(job),
        task matches UninstallView::RestoreManager(job, _, failures) ==> failures.len() == 0
            ==> artifacts_after(artifacts, task, outcome) == artifacts_before(job),
{
    let after = artifacts_after(artifacts, task, outcome);
    match uninstall_after(task, outcome) {
        UninstallView::WriteConfig(job) => {
            assert(after =~= artifacts_before(job));
        },
        UninstallView::RemoveService(job) => {
            assert(after =~= (Artifacts { config: job.next, ..artifacts_before(job) }));
        },
        UninstallView::RemoveManifest(job) => {
            assert(after =~= (Artifacts { config: job.next, service: None, has_manifest: true }));
        },
        UninstallView::ReloadManager(job) => {
            assert(after =~= (Artifacts { config: job.next, service: None, has_manifest: true }));
        },
        UninstallView::RestoreManager(job, _, failures) => {
            assert(failures.len() == 0 ==> after =~= artifacts_before(job));
        },
        _ => {},
    }
}

/// The one success of an uninstall is the removal of the manifest, which comes
/// last.
pub proof fn lemma_success_comes_last(task: UninstallView, outcome: Result<(), Seq<char>>)
    requires
        !(task is Finished),
        uninstall_after(task, outcome) matches UninstallView::Finished(Ok(_)),
    ensures
        task is RemoveManifest,
        outcome is Ok,
{
}

/// Cutting out a block that stands in the configuration once leaves what was
/// before it and what was behind it.
pub proof fn lemma_cutting_keeps_the_rest(before: Seq<u8>, block: BlockView, behind: Seq<u8>)
    requires
        occurrences(before + encode_utf8(block.bytes) + behind, encode_utf8(block.bytes)) == 1,
    ensures
        without_blocks(seq![block], before + encode_utf8(block.bytes) + behind) == Some(
            before + behind,
        ),
{
    let pattern = encode_utf8(block.bytes);
    let bytes = before + pattern + behind;
    lemma_cut_once(before, pattern, behind);
    reveal_with_fuel(without_blocks, 2);
    assert(seq![block].skip(1) =~= Seq::empty());
    assert(seq![block][0] == block);
}

/// A pattern that stands in the bytes once is cut out where it stands.
pub proof fn lemma_cut_once(before: Seq<u8>, pattern: Seq<u8>, behind: Seq<u8>)
    requires
        occurrences(before + pattern + behind, pattern) == 1,
    ensures
        stands_in(before + pattern + behind, pattern),
        cut_out(
            before + pattern + behind,
            first_position(before + pattern + behind, pattern),
            pattern.len() as int,
        ) == before + behind,
{
    let bytes = before + pattern + behind;
    let at = before.len() as int;
    assert(bytes.subrange(at, at + pattern.len()) =~= pattern);
    assert(stands_at(bytes, pattern, at));
    assert forall|i: int| 0 <= i < at implies !stands_at(bytes, pattern, i) by {
        if stands_at(bytes, pattern, i) {
            lemma_single_occurrence(bytes, pattern, at, i);
        }
    }
    lemma_first_position(bytes, pattern, at);
    assert(cut_out(bytes, at, pattern.len() as int) =~= before + behind);
}

} // verus!
