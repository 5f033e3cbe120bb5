//! Setting the bridge up: what is added to a configuration, what is recorded,
//! and what happens when a write fails half-way.
use vstd::prelude::*;
use vstd::utf8::{decode_utf8, encode_utf8, valid_utf8};

use crate::bytes::{copied, count_occurrences, occurrences};
use crate::json::{Json, JsonObject, JsonView};
use crate::ownership::{block_record, blocks_view, check_config, check_digest, digest_holds};
use crate::ownership::{manifest_problem, model_problem, owned_block, problem_of, speaks_of};
use crate::ownership::{validate_model, verify_manifest, LUNA, SOL, TERRA};
use crate::ownership::{BlockView, Manifest, ManifestView, OwnedBlock};
use crate::path::join_path;
use crate::path::under;
use crate::settings::{parse_settings, settings_of_text};
use crate::sse::LINE_FEED;
use crate::stream::{nested, nested_field};
use crate::text::{concat, concat3, decimal, decimal_text, lossy_text, text_of_bytes};
use crate::text::text_result;
use crate::text::utf8_text;

verus! {

/// What came of reading a file.
#[derive(Debug, PartialEq, Eq)]
pub enum FileRead {
    Content(Vec<u8>),
    Missing,
    Failed(String),
}

/// What a read holds.
pub enum FileReadView {
    Content(Seq<u8>),
    Missing,
    Failed(Seq<char>),
}

impl View for FileRead {
    type V = FileReadView;

    open spec fn view(&self) -> FileReadView {
        match self {
            FileRead::Content(bytes) => FileReadView::Content(bytes@),
            FileRead::Missing => FileReadView::Missing,
            FileRead::Failed(error) => FileReadView::Failed(error@),
        }
    }
}

/// What came of reading the ownership manifest.
#[derive(Debug, PartialEq, Eq)]
pub enum ManifestRead {
    Found(Manifest),
    Malformed(String),
    Missing,
    Failed(String),
}

/// What an optional manifest holds, or why it could not be had.
pub open spec fn manifest_result(r: Result<Option<Manifest>, String>) -> Result<
    Option<ManifestView>,
    Seq<char>,
> {
    match r {
        Ok(Some(manifest)) => Ok(Some(manifest@)),
        Ok(None) => Ok(None),
        Err(error) => Err(error@),
    }
}

/// The manifest that a read gives: none where there is no file.
pub open spec fn manifest_of_read(read: ManifestRead) -> Result<Option<ManifestView>, Seq<char>> {
    match read {
        ManifestRead::Found(manifest) => Ok(Some(manifest@)),
        ManifestRead::Malformed(error) => Err("invalid ownership manifest: "@ + error@),
        ManifestRead::Missing => Ok(None),
        ManifestRead::Failed(error) => Err(error@),
    }
}

/// The manifest that a read gives: none where there is no file.
pub fn load_manifest(read: ManifestRead) -> (r: Result<Option<Manifest>, String>)
    ensures
        manifest_result(r) == manifest_of_read(read),
{
    match read {
        ManifestRead::Found(manifest) => Ok(Some(manifest)),
        ManifestRead::Malformed(error) => Err(
            concat("invalid ownership manifest: ", error.as_str()),
        ),
        ManifestRead::Missing => Ok(None),
        ManifestRead::Failed(error) => Err(error),
    }
}

/// What a result with a path holds.
pub open spec fn path_result(r: Result<Vec<u8>, String>) -> Result<Seq<u8>, Seq<char>> {
    match r {
        Ok(path) => Ok(path@),
        Err(error) => Err(error@),
    }
}

/// What an optional path holds.
pub open spec fn optional_path(path: Option<Vec<u8>>) -> Option<Seq<u8>> {
    match path {
        Some(path) => Some(path@),
        None => None,
    }
}

/// The path under the home directory; `home` is none where it is not known.
pub open spec fn under_home(home: Option<Seq<u8>>, relative: Seq<char>) -> Result<
    Seq<u8>,
    Seq<char>,
> {
    match home {
        Some(home) => Ok(under(home, encode_utf8(relative))),
        None => Err("HOME is not set"@),
    }
}

fn path_under_home(home: &Option<Vec<u8>>, relative: &str) -> (r: Result<Vec<u8>, String>)
    ensures
        path_result(r) == under_home(optional_path(*home), relative@),
{
    match home {
        Some(home) => Ok(join_path(home.as_slice(), relative)),
        None => Err("HOME is not set".to_owned()),
    }
}

/// The directory that the bridge keeps its state in.
pub fn state_dir(home: &Option<Vec<u8>>) -> (r: Result<Vec<u8>, String>)
    ensures
        path_result(r) == under_home(optional_path(*home), ".grok/codex-for-grok"@),
{
    path_under_home(home, ".grok/codex-for-grok")
}

/// Where the ownership manifest is kept.
pub open spec fn manifest_place(home: Option<Seq<u8>>) -> Result<Seq<u8>, Seq<char>> {
    match under_home(home, ".grok/codex-for-grok"@) {
        Ok(directory) => Ok(under(directory, encode_utf8("ownership.json"@))),
        Err(error) => Err(error),
    }
}

/// Where the ownership manifest is kept.
pub fn manifest_path(home: &Option<Vec<u8>>) -> (r: Result<Vec<u8>, String>)
    ensures
        path_result(r) == manifest_place(optional_path(*home)),
{
    match state_dir(home) {
        Ok(directory) => Ok(join_path(directory.as_slice(), "ownership.json")),
        Err(error) => Err(error),
    }
}

/// Where the configuration is: where the user says, else where the environment
/// says, else in its usual place. The home directory has to be known in any
/// case.
pub open spec fn config_place(
    given: Option<Seq<u8>>,
    environment: Option<Seq<u8>>,
    home: Option<Seq<u8>>,
) -> Result<Seq<u8>, Seq<char>> {
    match under_home(home, ".grok/config.toml"@) {
        Err(error) => Err(error),
        Ok(usual) => Ok(
            match given {
                Some(path) => path,
                None => match environment {
                    Some(path) => path,
                    None => usual,
                },
            },
        ),
    }
}

/// Where the configuration is.
pub fn config_path(
    given: Option<Vec<u8>>,
    environment: Option<Vec<u8>>,
    home: &Option<Vec<u8>>,
) -> (r: Result<Vec<u8>, String>)
    ensures
        path_result(r) == config_place(
            optional_path(given),
            optional_path(environment),
            optional_path(*home),
        ),
{
    let usual = path_under_home(home, ".grok/config.toml")?;
    match given {
        Some(path) => Ok(path),
        None => match environment {
            Some(path) => Ok(path),
            None => Ok(usual),
        },
    }
}

/// What is said where a required executable is not there.
pub open spec fn prerequisite_problem(found: bool, name: Seq<char>, guidance: Seq<char>) -> Option<
    Seq<char>,
> {
    if found {
        None
    } else {
        Some("required `"@ + name + "` executable not found on PATH; "@ + guidance)
    }
}

/// Asks for an executable; `found` says whether it is there.
pub fn require_prerequisite(found: bool, name: &str, guidance: &str) -> (r: Result<(), String>)
    ensures
        problem_of(r) == prerequisite_problem(found, name@, guidance@),
{
    if found {
        Ok(())
    } else {
        let mut message = concat3("required `", name, "` executable not found on PATH; ");
        message.append(guidance);
        Err(message)
    }
}

/// The extension of the copy that is kept of a configuration.
pub fn backup_extension(nanos: u128) -> (extension: String)
    ensures
        extension@ == "backup-"@ + decimal(nanos as nat),
{
    concat("backup-", decimal_text(nanos).as_str())
}

/// The extension of the file that is written before it takes the place of
/// another.
pub fn temporary_extension(process: u32, nanos: u128) -> (extension: String)
    ensures
        extension@ == "tmp-"@ + decimal(process as nat) + "-"@ + decimal(nanos as nat),
{
    let mut extension = concat3("tmp-", decimal_text(process as u128).as_str(), "-");
    extension.append(decimal_text(nanos).as_str());
    extension
}

/// What is to be done next in setting the bridge up. Each task but the last
/// ends with one write; `advance` says what follows it.
#[derive(Debug, PartialEq, Eq)]
pub enum SetupTask {
    /// Nothing is left to do.
    Finished(Result<String, String>),
    /// Write the manifest, then report the message.
    Reconcile { manifest: Manifest, message: String },
    /// Keep a copy of the old configuration and write the new one.
    WriteConfig { path: Vec<u8>, old: Vec<u8>, next: Vec<u8>, manifest: Manifest },
    /// Write the manifest, the new configuration being in place.
    WriteManifest { path: Vec<u8>, old: Vec<u8>, manifest: Manifest },
    /// Put the old configuration back.
    RestoreConfig { path: Vec<u8>, old: Vec<u8>, error: String },
}

/// What a setup task holds.
pub enum SetupView {
    Finished(Result<Seq<char>, Seq<char>>),
    Reconcile { manifest: ManifestView, message: Seq<char> },
    WriteConfig { path: Seq<u8>, old: Seq<u8>, next: Seq<u8>, manifest: ManifestView },
    WriteManifest { path: Seq<u8>, old: Seq<u8>, manifest: ManifestView },
    RestoreConfig { path: Seq<u8>, old: Seq<u8>, error: Seq<char> },
}

impl View for SetupTask {
    type V = SetupView;

    open spec fn view(&self) -> SetupView {
        match self {
            SetupTask::Finished(r) => SetupView::Finished(text_result(*r)),
            SetupTask::Reconcile { manifest, message } => SetupView::Reconcile {
                manifest: manifest@,
                message: message@,
            },
            SetupTask::WriteConfig { path, old, next, manifest } => SetupView::WriteConfig {
                path: path@,
                old: old@,
                next: next@,
                manifest: manifest@,
            },
            SetupTask::WriteManifest { path, old, manifest } => SetupView::WriteManifest {
                path: path@,
                old: old@,
                manifest: manifest@,
            },
            SetupTask::RestoreConfig { path, old, error } => SetupView::RestoreConfig {
                path: path@,
                old: old@,
                error: error@,
            },
        }
    }
}

/// A refusal.
pub open spec fn refused(error: Seq<char>) -> SetupView {
    SetupView::Finished(Err(error))
}

/// What a configuration says: the tables and texts of its document.
pub open spec fn document_of(old: Seq<u8>) -> Result<JsonView, Seq<char>> {
    if !valid_utf8(old) {
        Err("config is not UTF-8; refusing to modify"@)
    } else if old.len() == 0 {
        Ok(JsonView::Object(Map::empty()))
    } else {
        match settings_of_text(decode_utf8(old)) {
            Ok(document) => Ok(document),
            Err(error) => Err("invalid TOML: "@ + error),
        }
    }
}

/// The entry of a model in a document.
pub open spec fn model_entry(document: JsonView, name: Seq<char>) -> Option<JsonView> {
    nested_field(document, "models"@, name)
}

/// Whether a block is given up: its bytes are gone from the configuration, but
/// an entry is there that says the same.
pub open spec fn given_up(block: BlockView, old: Seq<u8>, document: JsonView) -> bool {
    occurrences(old, encode_utf8(block.bytes)) == 0 && match model_entry(document, block.name) {
        Some(entry) => model_problem(block.name, entry) is None,
        None => false,
    }
}

/// The blocks that are not given up.
pub open spec fn retained(blocks: Seq<BlockView>, old: Seq<u8>, document: JsonView) -> Seq<
    BlockView,
>
    decreases blocks.len(),
{
    if blocks.len() == 0 {
        Seq::empty()
    } else {
        let front = retained(blocks.drop_last(), old, document);
        if given_up(blocks.last(), old, document) {
            front
        } else {
            front.push(blocks.last())
        }
    }
}

/// The manifest of a configuration that has none yet.
pub open spec fn fresh_manifest(path: Seq<u8>) -> ManifestView {
    ManifestView { version: 1, config: path, blocks: Seq::empty(), service: None }
}

/// Whether every block records the digest of its bytes.
pub open spec fn digests_hold(blocks: Seq<BlockView>) -> bool {
    forall|i: int| 0 <= i < blocks.len() ==> digest_holds(#[trigger] blocks[i])
}

/// What the entry of an alias is refused with.
pub open spec fn alias_problem(document: JsonView, name: Seq<char>) -> Option<Seq<char>> {
    match model_entry(document, name) {
        Some(entry) => model_problem(name, entry),
        None => None,
    }
}

/// The block of an alias that has no entry yet.
pub open spec fn missing_block(document: JsonView, name: Seq<char>, model: Seq<char>) -> Seq<
    BlockView,
> {
    match model_entry(document, name) {
        Some(_) => Seq::empty(),
        None => seq![block_record(name, model)],
    }
}

/// The blocks that a document lacks, or what one of its entries is refused
/// with.
pub open spec fn missing_blocks(document: JsonView) -> Result<Seq<BlockView>, Seq<char>> {
    match alias_problem(document, "codex-sol"@) {
        Some(problem) => Err(problem),
        None => match alias_problem(document, "codex-terra"@) {
            Some(problem) => Err(problem),
            None => Ok(
                missing_block(document, "codex-sol"@, "gpt-5.6-sol"@) + missing_block(
                    document,
                    "codex-terra"@,
                    "gpt-5.6-terra"@,
                ),
            ),
        },
    }
}

/// The line breaks that part the old configuration from what is appended.
pub open spec fn separator(old: Seq<u8>) -> Seq<u8> {
    if old.len() == 0 {
        Seq::empty()
    } else if old.last() != LINE_FEED {
        seq![LINE_FEED, LINE_FEED]
    } else {
        seq![LINE_FEED]
    }
}

/// The bytes of blocks, each with a line break behind it.
pub open spec fn blocks_bytes(blocks: Seq<BlockView>) -> Seq<u8>
    decreases blocks.len(),
{
    if blocks.len() == 0 {
        Seq::empty()
    } else {
        (blocks_bytes(blocks.drop_last()) + encode_utf8(blocks.last().bytes)).push(LINE_FEED)
    }
}

/// A configuration with blocks appended.
pub open spec fn with_blocks(old: Seq<u8>, blocks: Seq<BlockView>) -> Seq<u8> {
    old + separator(old) + blocks_bytes(blocks)
}

/// What is done about the blocks that a configuration lacks.
pub open spec fn plan_additions(
    path: Seq<u8>,
    old: Seq<u8>,
    kept: ManifestView,
    relinquished: nat,
    missing: Seq<BlockView>,
    dry: bool,
) -> SetupView {
    if missing.len() == 0 {
        if relinquished == 0 {
            SetupView::Finished(Ok("already configured; ownership verified"@))
        } else if dry {
            SetupView::Finished(
                Ok(
                    "dry-run: would preserve and relinquish ownership of "@ + decimal(relinquished)
                        + " semantically intact model block(s)"@,
                ),
            )
        } else {
            SetupView::Reconcile {
                manifest: kept,
                message: "configuration reconciled; preserved "@ + decimal(relinquished)
                    + " model block(s) as user-owned"@,
            }
        }
    } else if dry {
        SetupView::Finished(
            Ok(
                "dry-run: would append "@ + decimal(missing.len())
                    + " model block(s) and relinquish ownership of "@ + decimal(relinquished)
                    + " existing block(s)"@,
            ),
        )
    } else {
        SetupView::WriteConfig {
            path,
            old,
            next: with_blocks(old, missing),
            manifest: ManifestView { blocks: kept.blocks + missing, ..kept },
        }
    }
}

/// What is done to a configuration whose document has been read.
pub open spec fn plan_with(
    path: Seq<u8>,
    old: Seq<u8>,
    document: JsonView,
    manifest: ManifestView,
    dry: bool,
) -> SetupView {
    if !speaks_of(manifest, path) {
        refused("ownership manifest version/config mismatch"@)
    } else if !digests_hold(manifest.blocks) {
        refused("ownership manifest block digest mismatch"@)
    } else {
        let kept = ManifestView {
            blocks: retained(manifest.blocks, old, document),
            ..manifest
        };
        match manifest_problem(kept, path, old) {
            Some(problem) => refused(problem),
            None => match missing_blocks(document) {
                Err(problem) => refused(problem),
                Ok(missing) => plan_additions(
                    path,
                    old,
                    kept,
                    (manifest.blocks.len() - kept.blocks.len()) as nat,
                    missing,
                    dry,
                ),
            },
        }
    }
}

/// What is done to a configuration with this content.
pub open spec fn plan_on(
    path: Seq<u8>,
    old: Seq<u8>,
    manifest: Result<Option<ManifestView>, Seq<char>>,
    dry: bool,
) -> SetupView {
    match document_of(old) {
        Err(error) => refused(error),
        Ok(document) => if model_entry(document, "codex-luna"@) is Some {
            refused("Luna is explicitly unsupported"@)
        } else {
            match manifest {
                Err(error) => refused(error),
                Ok(Some(found)) => plan_with(path, old, document, found, dry),
                Ok(None) => plan_with(path, old, document, fresh_manifest(path), dry),
            }
        },
    }
}

/// What is done to a configuration, as it was read.
pub open spec fn plan_setup(
    path: Seq<u8>,
    config: FileReadView,
    manifest: Result<Option<ManifestView>, Seq<char>>,
    dry: bool,
) -> SetupView {
    match config {
        FileReadView::Content(old) => plan_on(path, old, manifest, dry),
        FileReadView::Missing => plan_on(path, Seq::empty(), manifest, dry),
        FileReadView::Failed(error) => refused(error),
    }
}

fn read_document(old: &[u8]) -> (r: Result<Json, String>)
    ensures
        crate::settings::settings_view(r) == document_of(old@),
{
    let text = match utf8_text(old) {
        Some(text) => text,
        None => return Err("config is not UTF-8; refusing to modify".to_owned()),
    };
    if old.len() == 0 {
        return Ok(Json::Object(JsonObject::new()));
    }
    match parse_settings(text) {
        Ok(document) => Ok(document),
        Err(error) => Err(concat("invalid TOML: ", error.as_str())),
    }
}

fn check_digests(blocks: &Vec<OwnedBlock>) -> (r: bool)
    ensures
        r == digests_hold(blocks_view(blocks@)),
{
    let mut i: usize = 0;
    while i < blocks.len()
        invariant
            i <= blocks@.len(),
            forall|j: int| 0 <= j < i ==> digest_holds(#[trigger] blocks_view(blocks@)[j]),
        decreases blocks@.len() - i,
    {
        if !check_digest(&blocks[i]) {
            assert(!digest_holds(blocks_view(blocks@)[i as int]));
            return false;
        }
        i = i + 1;
    }
    true
}

fn is_given_up(block: &OwnedBlock, old: &[u8], document: &Json) -> (r: bool)
    ensures
        r == given_up(block@, old@, document@),
{
    if count_occurrences(old, block.bytes.as_str().as_bytes()) != 0 {
        return false;
    }
    match nested(document, "models", block.name.as_str()) {
        Some(entry) => validate_model(block.name.as_str(), entry).is_ok(),
        None => false,
    }
}

fn retain_blocks(blocks: Vec<OwnedBlock>, old: &[u8], document: &Json) -> (kept: Vec<OwnedBlock>)
    ensures
        blocks_view(kept@) == retained(blocks_view(blocks@), old@, document@),
        kept@.len() <= blocks@.len(),
{
    let ghost whole = blocks_view(blocks@);
    let mut kept: Vec<OwnedBlock> = Vec::new();
    assert(blocks_view(kept@) =~= retained(whole.take(0), old@, document@));
    for owned in it: blocks
        invariant
            it.seq() == blocks@,
            whole == blocks_view(blocks@),
            kept@.len() <= it.index(),
            blocks_view(kept@) == retained(whole.take(it.index() as int), old@, document@),
    {
        let ghost i = it.index() as int;
        proof {
            assert(whole.take(i + 1).drop_last() =~= whole.take(i));
            assert(whole.take(i + 1).last() == owned@);
        }
        if !is_given_up(&owned, old, document) {
            let ghost before = blocks_view(kept@);
            kept.push(owned);
            assert(blocks_view(kept@) =~= before.push(owned@));
        }
    }
    assert(whole.take(whole.len() as int) =~= whole);
    kept
}

fn check_alias(document: &Json, name: &str) -> (r: Result<(), String>)
    ensures
        problem_of(r) == alias_problem(document@, name@),
{
    match nested(document, "models", name) {
        Some(entry) => validate_model(name, entry),
        None => Ok(()),
    }
}

fn push_missing(document: &Json, name: &str, model: &str, missing: &mut Vec<OwnedBlock>)
    ensures
        blocks_view(final(missing)@) == blocks_view(old(missing)@) + missing_block(
            document@,
            name@,
            model@,
        ),
{
    let ghost before = blocks_view(missing@);
    if nested(document, "models", name).is_none() {
        let block = owned_block(name, model);
        missing.push(block);
    }
    assert(blocks_view(missing@) =~= before + missing_block(document@, name@, model@));
}

/// The blocks that a document lacks, or what one of its entries is refused with.
fn find_missing(document: &Json) -> (r: Result<Vec<OwnedBlock>, String>)
    ensures
        match (r, missing_blocks(document@)) {
            (Ok(blocks), Ok(missing)) => blocks_view(blocks@) == missing,
            (Err(error), Err(problem)) => error@ == problem,
            _ => false,
        },
{
    check_alias(document, SOL)?;
    check_alias(document, TERRA)?;
    let mut missing: Vec<OwnedBlock> = Vec::new();
    push_missing(document, SOL, "gpt-5.6-sol", &mut missing);
    push_missing(document, TERRA, "gpt-5.6-terra", &mut missing);
    assert(blocks_view(missing@) =~= missing_blocks(document@)->Ok_0);
    Ok(missing)
}

fn append_blocks(old: &[u8], missing: &Vec<OwnedBlock>) -> (next: Vec<u8>)
    ensures
        next@ == with_blocks(old@, blocks_view(missing@)),
{
    let mut next = copied(old);
    if next.len() > 0 && next[next.len() - 1] != LINE_FEED {
        next.push(LINE_FEED);
    }
    if next.len() > 0 {
        next.push(LINE_FEED);
    }
    let ghost blocks = blocks_view(missing@);
    let ghost start = next@;
    assert(start =~= old@ + separator(old@));
    let mut i: usize = 0;
    assert(next@ =~= start + blocks_bytes(blocks.take(0)));
    while i < missing.len()
        invariant
            i <= missing@.len(),
            blocks == blocks_view(missing@),
            next@ == start + blocks_bytes(blocks.take(i as int)),
        decreases missing@.len() - i,
    {
        proof {
            assert(blocks.take(i + 1).drop_last() =~= blocks.take(i as int));
            assert(blocks.take(i + 1).last() == missing@[i as int]@);
        }
        next.extend_from_slice(missing[i].bytes.as_str().as_bytes());
        next.push(LINE_FEED);
        assert(next@ =~= start + blocks_bytes(blocks.take(i + 1)));
        i = i + 1;
    }
    assert(blocks.take(blocks.len() as int) =~= blocks);
    next
}

/// Decides what setting up does to a configuration, given what was read of it
/// and of the manifest.
pub fn setup_at(
    path: Vec<u8>,
    config: FileRead,
    manifest: Result<Option<Manifest>, String>,
    dry: bool,
) -> (task: SetupTask)
    ensures
        task@ == plan_setup(path@, config@, manifest_result(manifest), dry),
{
    let old: Vec<u8> = match config {
        FileRead::Content(bytes) => bytes,
        FileRead::Missing => Vec::new(),
        FileRead::Failed(error) => return SetupTask::Finished(Err(error)),
    };
    assert(config@ is Missing ==> old@ =~= Seq::empty());
    let document = match read_document(old.as_slice()) {
        Ok(document) => document,
        Err(error) => return SetupTask::Finished(Err(error)),
    };
    if nested(&document, "models", LUNA).is_some() {
        return SetupTask::Finished(Err("Luna is explicitly unsupported".to_owned()));
    }
    let manifest = match manifest {
        Err(error) => return SetupTask::Finished(Err(error)),
        Ok(Some(found)) => found,
        Ok(None) => {
            let fresh = Manifest {
                version: 1,
                config: copied(path.as_slice()),
                blocks: Vec::new(),
                service: None,
            };
            assert(fresh@ =~= fresh_manifest(path@));
            fresh
        },
    };
    plan(path, old, &document, manifest, dry)
}

fn plan(path: Vec<u8>, old: Vec<u8>, document: &Json, manifest: Manifest, dry: bool) -> (task:
    SetupTask)
    ensures
        task@ == plan_with(path@, old@, document@, manifest@, dry),
{
    if !check_config(&manifest, path.as_slice()) {
        return SetupTask::Finished(Err("ownership manifest version/config mismatch".to_owned()));
    }
    if !check_digests(&manifest.blocks) {
        return SetupTask::Finished(Err("ownership manifest block digest mismatch".to_owned()));
    }
    let Manifest { version, config, blocks, service } = manifest;
    let count = blocks.len();
    let blocks = retain_blocks(blocks, old.as_slice(), document);
    let relinquished = (count - blocks.len()) as u128;
    let kept = Manifest { version, config, blocks, service };
    if let Err(error) = verify_manifest(&kept, path.as_slice(), old.as_slice()) {
        return SetupTask::Finished(Err(error));
    }
    let missing = match find_missing(document) {
        Ok(missing) => missing,
        Err(error) => return SetupTask::Finished(Err(error)),
    };
    let number = decimal_text(relinquished);
    if missing.len() == 0 {
        if relinquished == 0 {
            return SetupTask::Finished(Ok("already configured; ownership verified".to_owned()));
        }
        if dry {
            return SetupTask::Finished(
                Ok(
                    concat3(
                        "dry-run: would preserve and relinquish ownership of ",
                        number.as_str(),
                        " semantically intact model block(s)",
                    ),
                ),
            );
        }
        let message = concat3(
            "configuration reconciled; preserved ",
            number.as_str(),
            " model block(s) as user-owned",
        );
        return SetupTask::Reconcile { manifest: kept, message };
    }
    if dry {
        let mut message = concat3(
            "dry-run: would append ",
            decimal_text(missing.len() as u128).as_str(),
            " model block(s) and relinquish ownership of ",
        );
        message.append(number.as_str());
        message.append(" existing block(s)");
        return SetupTask::Finished(Ok(message));
    }
    let next = append_blocks(old.as_slice(), &missing);
    let mut manifest = kept;
    let ghost before = manifest@;
    let ghost added = blocks_view(missing@);
    let mut missing = missing;
    manifest.blocks.append(&mut missing);
    assert(manifest@ =~= (ManifestView { blocks: before.blocks + added, ..before }));
    SetupTask::WriteConfig { path, old, next, manifest }
}

/// What a bare outcome holds.
pub open spec fn outcome_view(r: Result<(), String>) -> Result<(), Seq<char>> {
    match r {
        Ok(_) => Ok(()),
        Err(error) => Err(error@),
    }
}

/// What follows a task, given what came of its write.
pub open spec fn setup_after(task: SetupView, outcome: Result<(), Seq<char>>) -> SetupView {
    match task {
        SetupView::Finished(_) => task,
        SetupView::Reconcile { manifest: _, message } => match outcome {
            Ok(_) => SetupView::Finished(Ok(message)),
            Err(error) => refused(error),
        },
        SetupView::WriteConfig { path, old, next: _, manifest } => match outcome {
            Ok(_) => SetupView::WriteManifest { path, old, manifest },
            Err(error) => refused(error),
        },
        SetupView::WriteManifest { path, old, manifest: _ } => match outcome {
            Ok(_) => SetupView::Finished(Ok("configured "@ + lossy_text(path))),
            Err(error) => SetupView::RestoreConfig { path, old, error },
        },
        SetupView::RestoreConfig { path: _, old: _, error } => match outcome {
            Ok(_) => refused("manifest write failed; configuration was rolled back: "@ + error),
            Err(rollback) => refused(
                "manifest write failed ("@ + error + "); config rollback also failed ("@ + rollback
                    + ")"@,
            ),
        },
    }
}

impl SetupTask {
    /// What follows a task, given what came of its write.
    pub fn advance(self, outcome: Result<(), String>) -> (next: SetupTask)
        ensures
            next@ == setup_after(self@, outcome_view(outcome)),
    {
        match self {
            SetupTask::Finished(r) => SetupTask::Finished(r),
            SetupTask::Reconcile { manifest: _, message } => match outcome {
                Ok(_) => SetupTask::Finished(Ok(message)),
                Err(error) => SetupTask::Finished(Err(error)),
            },
            SetupTask::WriteConfig { path, old, next: _, manifest } => match outcome {
                Ok(_) => SetupTask::WriteManifest { path, old, manifest },
                Err(error) => SetupTask::Finished(Err(error)),
            },
            SetupTask::WriteManifest { path, old, manifest: _ } => match outcome {
                Ok(_) => {
                    let shown = text_of_bytes(path.as_slice());
                    SetupTask::Finished(Ok(concat("configured ", shown.as_str())))
                },
                Err(error) => SetupTask::RestoreConfig { path, old, error },
            },
            SetupTask::RestoreConfig { path: _, old: _, error } => match outcome {
                Ok(_) => SetupTask::Finished(
                    Err(
                        concat(
                            "manifest write failed; configuration was rolled back: ",
                            error.as_str(),
                        ),
                    ),
                ),
                Err(rollback) => {
                    let mut message = concat3(
                        "manifest write failed (",
                        error.as_str(),
                        "); config rollback also failed (",
                    );
                    message.append(rollback.as_str());
                    message.append(")");
                    SetupTask::Finished(Err(message))
                },
            },
        }
    }
}

/// What setting up does, with the executables that it needs looked for first.
pub open spec fn plan_command(
    grok_found: bool,
    codex_found: bool,
    place: Result<Seq<u8>, Seq<char>>,
    config: FileReadView,
    manifest: Result<Option<ManifestView>, Seq<char>>,
    dry: bool,
) -> SetupView {
    match prerequisite_problem(
        grok_found,
        "grok"@,
        "install Grok Build from the official xAI distribution"@,
    ) {
        Some(problem) => refused(problem),
        None => match prerequisite_problem(
            codex_found,
            "codex"@,
            "install the Codex CLI and run `codex login`"@,
        ) {
            Some(problem) => refused(problem),
            None => match place {
                Err(error) => refused(error),
                Ok(path) => plan_setup(path, config, manifest, dry),
            },
        },
    }
}

/// Decides what the setup command does. `config` and `manifest` are what was
/// read where `config_path` and `manifest_path` say.
pub fn setup(
    grok_found: bool,
    codex_found: bool,
    path: Result<Vec<u8>, String>,
    config: FileRead,
    manifest: Result<Option<Manifest>, String>,
    dry: bool,
) -> (task: SetupTask)
    ensures
        task@ == plan_command(
            grok_found,
            codex_found,
            path_result(path),
            config@,
            manifest_result(manifest),
            dry,
        ),
{
    if let Err(error) = require_prerequisite(
        grok_found,
        "grok",
        "install Grok Build from the official xAI distribution",
    ) {
        return SetupTask::Finished(Err(error));
    }
    if let Err(error) = require_prerequisite(
        codex_found,
        "codex",
        "install the Codex CLI and run `codex login`",
    ) {
        return SetupTask::Finished(Err(error));
    }
    match path {
        Err(error) => SetupTask::Finished(Err(error)),
        Ok(path) => setup_at(path, config, manifest, dry),
    }
}

/// The bytes of a configuration, as it was read; a file that is not there
/// counts as empty.
pub open spec fn content_of(config: FileReadView) -> Seq<u8> {
    match config {
        FileReadView::Content(old) => old,
        _ => Seq::empty(),
    }
}

/// A dry run writes nothing, whatever was read.
pub proof fn lemma_dry_run_writes_nothing(
    path: Seq<u8>,
    config: FileReadView,
    manifest: Result<Option<ManifestView>, Seq<char>>,
)
    ensures
        plan_setup(path, config, manifest, true) is Finished,
{
}

/// Setting up is additive: a new configuration starts with the old one, byte for
/// byte, and what is kept for a rollback is the old one.
pub proof fn lemma_setup_is_additive(
    path: Seq<u8>,
    config: FileReadView,
    manifest: Result<Option<ManifestView>, Seq<char>>,
    dry: bool,
)
    ensures
        plan_setup(path, config, manifest, dry) matches SetupView::WriteConfig {
            path: written,
            old,
            next,
            manifest: _,
        } ==> written == path && old == content_of(config) && crate::text::is_prefix(old, next),
{
    if let SetupView::WriteConfig { path: _, old, next, manifest: _ } = plan_setup(
        path,
        config,
        manifest,
        dry,
    ) {
        assert(next.subrange(0, old.len() as int) =~= old);
    }
}

/// Setting up appends the blocks of the two supported models and of no other,
/// each if and only if the configuration has no entry for its alias.
pub proof fn lemma_setup_appends_what_is_missing(
    path: Seq<u8>,
    config: FileReadView,
    manifest: Result<Option<ManifestView>, Seq<char>>,
    dry: bool,
)
    ensures
        plan_setup(path, config, manifest, dry) matches SetupView::WriteConfig {
            path: _,
            old,
            next,
            manifest: _,
        } ==> exists|document: JsonView, missing: Seq<BlockView>|
            {
                &&& document_of(old) == Ok::<JsonView, Seq<char>>(document)
                &&& next == #[trigger] with_blocks(old, missing)
                &&& missing == #[trigger] missing_block(document, "codex-sol"@, "gpt-5.6-sol"@)
                    + missing_block(document, "codex-terra"@, "gpt-5.6-terra"@)
                &&& missing.len() > 0
            },
{
    if let SetupView::WriteConfig { path: _, old, next, manifest: _ } = plan_setup(
        path,
        config,
        manifest,
        dry,
    ) {
        let document = document_of(old)->Ok_0;
        let missing = missing_blocks(document)->Ok_0;
        assert(next == with_blocks(old, missing));
        assert(missing == missing_block(document, "codex-sol"@, "gpt-5.6-sol"@) + missing_block(
            document,
            "codex-terra"@,
            "gpt-5.6-terra"@,
        ));
    }
}

/// An entry under one of the aliases that does not say what the bridge would
/// have written is never overwritten: setting up is refused.
pub proof fn lemma_conflicts_are_refused(
    path: Seq<u8>,
    config: FileReadView,
    manifest: Result<Option<ManifestView>, Seq<char>>,
    dry: bool,
    document: JsonView,
    alias: Seq<char>,
    entry: JsonView,
)
    requires
        document_of(content_of(config)) == Ok::<JsonView, Seq<char>>(document),
        alias == "codex-sol"@ || alias == "codex-terra"@,
        model_entry(document, alias) == Some(entry),
        model_problem(alias, entry) is Some,
    ensures
        plan_setup(path, config, manifest, dry) matches SetupView::Finished(r) && r is Err,
{
}

/// A configuration with an entry for the model that is not supported is
/// refused.
pub proof fn lemma_luna_is_refused(
    path: Seq<u8>,
    config: FileReadView,
    manifest: Result<Option<ManifestView>, Seq<char>>,
    dry: bool,
    document: JsonView,
)
    requires
        !(config is Failed),
        document_of(content_of(config)) == Ok::<JsonView, Seq<char>>(document),
        model_entry(document, "codex-luna"@) is Some,
    ensures
        plan_setup(path, config, manifest, dry) == refused("Luna is explicitly unsupported"@),
{
}

/// Setting up again changes nothing: where both entries are there as the bridge
/// would have written them and every owned block stands in the configuration
/// exactly once, nothing is written.
pub proof fn lemma_configured_stays_as_it_is(
    path: Seq<u8>,
    old: Seq<u8>,
    document: JsonView,
    manifest: ManifestView,
    dry: bool,
)
    requires
        document_of(old) == Ok::<JsonView, Seq<char>>(document),
        model_entry(document, "codex-luna"@) is None,
        model_entry(document, "codex-sol"@) is Some,
        model_entry(document, "codex-terra"@) is Some,
        alias_problem(document, "codex-sol"@) is None,
        alias_problem(document, "codex-terra"@) is None,
        manifest_problem(manifest, path, old) is None,
    ensures
        plan_setup(path, FileReadView::Content(old), Ok(Some(manifest)), dry)
            == SetupView::Finished(Ok("already configured; ownership verified"@)),
{
    lemma_verified_blocks_stay(manifest.blocks, old, document);
}

/// Setting up again changes nothing once a configuration was reconciled: with the
/// manifest that was written then, nothing is written.
pub proof fn lemma_reconciled_stays_as_it_is(
    path: Seq<u8>,
    config: FileReadView,
    found: Result<Option<ManifestView>, Seq<char>>,
    manifest: ManifestView,
    message: Seq<char>,
    dry: bool,
)
    requires
        plan_setup(path, config, found, false) == (SetupView::Reconcile { manifest, message }),
    ensures
        plan_setup(path, config, Ok(Some(manifest)), dry) == SetupView::Finished(
            Ok("already configured; ownership verified"@),
        ),
{
    let old = content_of(config);
    lemma_verified_blocks_stay(manifest.blocks, old, document_of(old)->Ok_0);
}

proof fn lemma_verified_blocks_stay(blocks: Seq<BlockView>, old: Seq<u8>, document: JsonView)
    requires
        crate::ownership::blocks_problem(blocks, old) is None,
    ensures
        retained(blocks, old, document) == blocks,
        digests_hold(blocks),
    decreases blocks.len(),
{
    if blocks.len() > 0 {
        lemma_verified_blocks_stay(blocks.drop_last(), old, document);
        assert(blocks =~= blocks.drop_last().push(blocks.last()));
        assert forall|i: int| 0 <= i < blocks.len() implies digest_holds(#[trigger] blocks[i]) by {
            if i < blocks.len() - 1 {
                assert(digest_holds(blocks.drop_last()[i]));
            }
        }
    }
}

/// A manifest that setting up writes speaks of the same configuration and the
/// same service as the one that was read.
pub proof fn lemma_setup_keeps_the_service(
    path: Seq<u8>,
    config: FileReadView,
    manifest: ManifestView,
    dry: bool,
)
    ensures
        match plan_setup(path, config, Ok(Some(manifest)), dry) {
            SetupView::WriteConfig { path: _, old: _, next: _, manifest: written } => {
                written.service == manifest.service && written.config == manifest.config
                    && written.version == 1
            },
            SetupView::Reconcile { manifest: written, message: _ } => {
                written.service == manifest.service && written.config == manifest.config
                    && written.version == 1
            },
            _ => true,
        },
{
}

/// What the two files hold while setting up.
pub struct SetupFiles {
    pub config: Seq<u8>,
    pub manifest: Option<ManifestView>,
}

/// What the files hold after the write of a task. A write that fails changes
/// nothing.
pub open spec fn files_after(
    files: SetupFiles,
    task: SetupView,
    outcome: Result<(), Seq<char>>,
) -> SetupFiles {
    if outcome is Err {
        files
    } else {
        match task {
            SetupView::Finished(_) => files,
            SetupView::Reconcile { manifest, message: _ } => SetupFiles {
                manifest: Some(manifest),
                ..files
            },
            SetupView::WriteConfig { path: _, old: _, next, manifest: _ } => SetupFiles {
                config: next,
                ..files
            },
            SetupView::WriteManifest { path: _, old: _, manifest } => SetupFiles {
                manifest: Some(manifest),
                ..files
            },
            SetupView::RestoreConfig { path: _, old, error: _ } => SetupFiles {
                config: old,
                ..files
            },
        }
    }
}

/// Setting up is a transaction: after its three writes at most, it has either
/// succeeded, with the new configuration and the new manifest in place, or
/// failed, with both files as they were. The one exception is a rollback that
/// fails itself.
pub proof fn lemma_setup_is_a_transaction(
    files: SetupFiles,
    path: Seq<u8>,
    next: Seq<u8>,
    manifest: ManifestView,
    first: Result<(), Seq<char>>,
    second: Result<(), Seq<char>>,
    third: Result<(), Seq<char>>,
)
    requires
        !(first is Ok && second is Err && third is Err),
    ensures
        ({
            let task = SetupView::WriteConfig { path, old: files.config, next, manifest };
            let task2 = setup_after(task, first);
            let task3 = setup_after(task2, second);
            let last = setup_after(task3, third);
            let end = files_after(
                files_after(files_after(files, task, first), task2, second),
                task3,
                third,
            );
            match last {
                SetupView::Finished(Ok(_)) => first is Ok && second is Ok && end == (SetupFiles {
                    config: next,
                    manifest: Some(manifest),
                }),
                SetupView::Finished(Err(_)) => end == files,
                _ => false,
            }
        }),
{
}

} // verus!
