//! Installing and starting the user service.
use vstd::prelude::*;

use crate::bytes::copied;
use crate::codec::optional_bytes;
use crate::ownership::{digest, file_problem, sha256_hex, verify_owned_file};
use crate::ownership::{FileView, Manifest, ManifestView, OwnedFile};
use crate::path::{paths_match, same_path};
use crate::service::definition_result;
use crate::setup::{manifest_result, outcome_view};
use crate::text::{concat, concat3, lossy_text, same_text, text_of_bytes, text_result};

verus! {

/// What is to be done next in installing the service. Each task but the last
/// ends with one step; `advance` says what follows it.
#[derive(Debug, PartialEq, Eq)]
pub enum InstallTask {
    /// Nothing is left to do.
    Finished(Result<String, String>),
    /// Write the service definition.
    WriteService { path: Vec<u8>, body: Vec<u8>, manifest: Manifest },
    /// Write the manifest that records the definition.
    WriteManifest { path: Vec<u8>, manifest: Manifest },
    /// Remove the service definition again.
    RemoveService { path: Vec<u8>, error: String },
    /// Start the service by its definition.
    Start { path: Vec<u8> },
}

/// What an install task holds.
pub enum InstallView {
    Finished(Result<Seq<char>, Seq<char>>),
    WriteService { path: Seq<u8>, body: Seq<u8>, manifest: ManifestView },
    WriteManifest { path: Seq<u8>, manifest: ManifestView },
    RemoveService { path: Seq<u8>, error: Seq<char> },
    Start { path: Seq<u8> },
}

impl View for InstallTask {
    type V = InstallView;

    open spec fn view(&self) -> InstallView {
        match self {
            InstallTask::Finished(r) => InstallView::Finished(text_result(*r)),
            InstallTask::WriteService { path, body, manifest } => InstallView::WriteService {
                path: path@,
                body: body@,
                manifest: manifest@,
            },
            InstallTask::WriteManifest { path, manifest } => InstallView::WriteManifest {
                path: path@,
                manifest: manifest@,
            },
            InstallTask::RemoveService { path, error } => InstallView::RemoveService {
                path: path@,
                error: error@,
            },
            InstallTask::Start { path } => InstallView::Start { path: path@ },
        }
    }
}

/// A refusal.
pub open spec fn refused(error: Seq<char>) -> InstallView {
    InstallView::Finished(Err(error))
}

/// The writing of a definition, with the manifest that will record it.
pub open spec fn service_commit(path: Seq<u8>, body: Seq<u8>, manifest: ManifestView) -> InstallView {
    InstallView::WriteService {
        path,
        body,
        manifest: ManifestView {
            service: Some(FileView { path, digest: sha256_hex(body) }),
            ..manifest
        },
    }
}

/// Whether a recorded file is the definition that would be written now.
pub open spec fn is_definition(file: FileView, path: Seq<u8>, body: Seq<u8>) -> bool {
    same_path(file.path, path) && file.digest == sha256_hex(body)
}

/// How the service is installed: by its recorded definition, if that is unchanged
/// and the one that would be written now; else by a new one, if there is no
/// file in its place.
pub open spec fn plan_install(
    manifest: Result<Option<ManifestView>, Seq<char>>,
    definition: Result<(Seq<u8>, Seq<u8>), Seq<char>>,
    content: Option<Seq<u8>>,
    occupied: bool,
) -> InstallView {
    match manifest {
        Err(error) => refused(error),
        Ok(None) => refused("run setup before start"@),
        Ok(Some(manifest)) => match definition {
            Err(error) => refused(error),
            Ok((path, body)) => match manifest.service {
                Some(file) => match file_problem(file, content) {
                    Some(problem) => refused(problem),
                    None => if is_definition(file, path, body) {
                        InstallView::Start { path }
                    } else {
                        refused(
                            "installed service belongs to another binary; uninstall it first"@,
                        )
                    },
                },
                None => if occupied {
                    refused(
                        "service definition already exists and is not owned: "@ + lossy_text(path),
                    )
                } else {
                    service_commit(path, body, manifest)
                },
            },
        },
    }
}

/// Begins the transaction that writes a service definition and records it.
pub fn commit_service_file(path: Vec<u8>, body: Vec<u8>, manifest: Manifest) -> (task: InstallTask)
    ensures
        task@ == service_commit(path@, body@, manifest@),
{
    let record = OwnedFile { path: copied(path.as_slice()), digest: digest(body.as_slice()) };
    let mut manifest = manifest;
    manifest.service = Some(record);
    InstallTask::WriteService { path, body, manifest }
}

/// Decides how the service is installed and started. `content` is what the
/// recorded definition holds now, and `occupied` says whether there is a file
/// where the definition would be written.
pub fn install_and_start(
    manifest: Result<Option<Manifest>, String>,
    definition: Result<(Vec<u8>, Vec<u8>), String>,
    content: &Option<Vec<u8>>,
    occupied: bool,
) -> (task: InstallTask)
    ensures
        task@ == plan_install(
            manifest_result(manifest),
            definition_result(definition),
            optional_bytes(*content),
            occupied,
        ),
{
    let manifest = match manifest {
        Err(error) => return InstallTask::Finished(Err(error)),
        Ok(None) => return InstallTask::Finished(Err("run setup before start".to_owned())),
        Ok(Some(manifest)) => manifest,
    };
    let (path, body) = match definition {
        Err(error) => return InstallTask::Finished(Err(error)),
        Ok(definition) => definition,
    };
    match &manifest.service {
        Some(file) => {
            if let Err(error) = verify_owned_file(file, content) {
                return InstallTask::Finished(Err(error));
            }
            if !paths_match(file.path.as_slice(), path.as_slice()) || !same_text(
                file.digest.as_str(),
                digest(body.as_slice()).as_str(),
            ) {
                return InstallTask::Finished(
                    Err(
                        "installed service belongs to another binary; uninstall it first".to_owned(),
                    ),
                );
            }
            return InstallTask::Start { path };
        },
        None => {},
    }
    if occupied {
        let shown = text_of_bytes(path.as_slice());
        return InstallTask::Finished(
            Err(concat("service definition already exists and is not owned: ", shown.as_str())),
        );
    }
    commit_service_file(path, body, manifest)
}

/// What follows a task, given what came of its step.
pub open spec fn install_after(task: InstallView, outcome: Result<(), Seq<char>>) -> InstallView {
    match task {
        InstallView::Finished(_) => task,
        InstallView::WriteService { path, body: _, manifest } => match outcome {
            Ok(_) => InstallView::WriteManifest { path, manifest },
            Err(error) => refused(error),
        },
        InstallView::WriteManifest { path, manifest: _ } => match outcome {
            Ok(_) => InstallView::Start { path },
            Err(error) => InstallView::RemoveService { path, error },
        },
        InstallView::RemoveService { path: _, error } => match outcome {
            Ok(_) => refused("manifest write failed; service file was rolled back: "@ + error),
            Err(rollback) => refused(
                "manifest write failed ("@ + error + "); service rollback failed ("@ + rollback
                    + ")"@,
            ),
        },
        InstallView::Start { path: _ } => match outcome {
            Ok(_) => InstallView::Finished(Ok("service installed and started"@)),
            Err(error) => refused(error),
        },
    }
}

impl InstallTask {
    /// What follows a task, given what came of its step.
    pub fn advance(self, outcome: Result<(), String>) -> (next: InstallTask)
        ensures
            next@ == install_after(self@, outcome_view(outcome)),
    {
        match self {
            InstallTask::Finished(r) => InstallTask::Finished(r),
            InstallTask::WriteService { path, body: _, manifest } => match outcome {
                Ok(_) => InstallTask::WriteManifest { path, manifest },
                Err(error) => InstallTask::Finished(Err(error)),
            },
            InstallTask::WriteManifest { path, manifest: _ } => match outcome {
                Ok(_) => InstallTask::Start { path },
                Err(error) => InstallTask::RemoveService { path, error },
            },
            InstallTask::RemoveService { path: _, error } => match outcome {
                Ok(_) => InstallTask::Finished(
                    Err(
                        concat(
                            "manifest write failed; service file was rolled back: ",
                            error.as_str(),
                        ),
                    ),
                ),
                Err(rollback) => {
                    let mut message = concat3(
                        "manifest write failed (",
                        error.as_str(),
                        "); service rollback failed (",
                    );
                    message.append(rollback.as_str());
                    message.append(")");
                    InstallTask::Finished(Err(message))
                },
            },
            InstallTask::Start { path: _ } => match outcome {
                Ok(_) => InstallTask::Finished(Ok("service installed and started".to_owned())),
                Err(error) => InstallTask::Finished(Err(error)),
            },
        }
    }
}

/// A file that the bridge does not own is never overwritten.
pub proof fn lemma_foreign_files_stay(
    manifest: ManifestView,
    definition: (Seq<u8>, Seq<u8>),
    content: Option<Seq<u8>>,
)
    requires
        manifest.service is None,
    ensures
        plan_install(Ok(Some(manifest)), Ok(definition), content, true) matches InstallView::Finished(
            r,
        ) && r is Err,
{
}

/// Nothing is written for a service that is already recorded: it is started as
/// it is, or refused.
pub proof fn lemma_recorded_service_is_not_rewritten(
    manifest: ManifestView,
    definition: Result<(Seq<u8>, Seq<u8>), Seq<char>>,
    content: Option<Seq<u8>>,
    occupied: bool,
)
    requires
        manifest.service is Some,
    ensures
        match plan_install(Ok(Some(manifest)), definition, content, occupied) {
            InstallView::Start { path } => {
                &&& definition matches Ok((place, body))
                &&& place == path
                &&& is_definition(manifest.service->Some_0, path, body)
                &&& content matches Some(bytes)
                &&& sha256_hex(bytes) == manifest.service->Some_0.digest
            },
            InstallView::Finished(r) => r is Err,
            _ => false,
        },
{
}

/// What the definition and the manifest are while installing.
pub struct InstallFiles {
    pub service: Option<Seq<u8>>,
    pub manifest: ManifestView,
}

/// What the files hold after the step of a task. A step that fails changes
/// nothing.
pub open spec fn files_after(
    files: InstallFiles,
    task: InstallView,
    outcome: Result<(), Seq<char>>,
) -> InstallFiles {
    if outcome is Err {
        files
    } else {
        match task {
            InstallView::WriteService { path: _, body, manifest: _ } => InstallFiles {
                service: Some(body),
                ..files
            },
            InstallView::WriteManifest { path: _, manifest } => InstallFiles { manifest, ..files },
            InstallView::RemoveService { path: _, error: _ } => InstallFiles {
                service: None,
                ..files
            },
            _ => files,
        }
    }
}

/// Installing is a transaction: after its writes, either the definition is in
/// place and recorded, and the service is started next, or installing has
/// failed, with both files as they were. The one exception is a rollback that
/// fails itself.
pub proof fn lemma_install_is_a_transaction(
    path: Seq<u8>,
    body: Seq<u8>,
    manifest: ManifestView,
    first: Result<(), Seq<char>>,
    second: Result<(), Seq<char>>,
    third: Result<(), Seq<char>>,
)
    requires
        !(first is Ok && second is Err && third is Err),
    ensures
        ({
            let files = InstallFiles { service: None, manifest };
            let task = service_commit(path, body, manifest);
            let task2 = install_after(task, first);
            let task3 = install_after(task2, second);
            let files3 = files_after(files_after(files, task, first), task2, second);
            match task3 {
                InstallView::Start { path: started } => started == path && files3.service == Some(
                    body,
                ) && files3.manifest.service == Some(
                    FileView { path, digest: sha256_hex(body) },
                ),
                _ => install_after(task3, third) matches InstallView::Finished(r) && r is Err
                    && files_after(files3, task3, third) == files,
            }
        }),
{
}

} // verus!
