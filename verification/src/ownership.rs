//! Ownership: the model blocks that the bridge adds to a configuration, and the
//! manifest that records which artifacts are its own.
use sha2::{Digest, Sha256};
use vstd::prelude::*;
use vstd::utf8::encode_utf8;

use crate::bytes::{copied, count_occurrences, cut, cut_out, find_bytes, occurrences};
use crate::bytes::{first_position, lemma_first_position, stands_in};
use crate::codec::optional_bytes;
use crate::config::DEFAULT_PORT;
use crate::json::{Json, JsonView};
use crate::path::{paths_match, same_path};
use crate::text::{concat3, debug_text, decimal, decimal_text, is_text, quoted, same_text};
use crate::text::{lossy_text, text_of_bytes};

verus! {

/// The alias of the first model.
pub const SOL: &'static str = "codex-sol";

/// The alias of the second model.
pub const TERRA: &'static str = "codex-terra";

/// The alias of a model that is not supported.
pub const LUNA: &'static str = "codex-luna";

/// The start of the line that opens an owned block.
pub const BEGIN: &'static str = "# BEGIN codex-for-grok owned model: ";

/// The start of the line that closes an owned block.
pub const END: &'static str = "# END codex-for-grok owned model: ";

/// The hexadecimal SHA-256 digest of bytes.
pub uninterp spec fn sha256_hex(bytes: Seq<u8>) -> Seq<char>;

/// `sha2::Sha256::digest`, in lower-case hexadecimal.
#[verifier::external_body]
pub(crate) fn digest(bytes: &[u8]) -> (hex: String)
    ensures
        hex@ == sha256_hex(bytes@),
{
    format!("{:x}", Sha256::digest(bytes))
}

/// A model block that the bridge has added to a configuration.
#[derive(Debug, PartialEq, Eq)]
pub struct OwnedBlock {
    pub name: String,
    pub bytes: String,
    pub digest: String,
}

/// What a model block holds.
pub struct BlockView {
    pub name: Seq<char>,
    pub bytes: Seq<char>,
    pub digest: Seq<char>,
}

impl View for OwnedBlock {
    type V = BlockView;

    open spec fn view(&self) -> BlockView {
        BlockView { name: self.name@, bytes: self.bytes@, digest: self.digest@ }
    }
}

/// A file that the bridge has written.
#[derive(Debug, PartialEq, Eq)]
pub struct OwnedFile {
    pub path: Vec<u8>,
    pub digest: String,
}

/// What the record of a file holds.
pub struct FileView {
    pub path: Seq<u8>,
    pub digest: Seq<char>,
}

impl View for OwnedFile {
    type V = FileView;

    open spec fn view(&self) -> FileView {
        FileView { path: self.path@, digest: self.digest@ }
    }
}

/// The record of what the bridge has written.
#[derive(Debug, PartialEq, Eq)]
pub struct Manifest {
    pub version: u8,
    pub config: Vec<u8>,
    pub blocks: Vec<OwnedBlock>,
    pub service: Option<OwnedFile>,
}

/// What a manifest holds.
#[verifier::ext_equal]
pub struct ManifestView {
    pub version: u8,
    pub config: Seq<u8>,
    pub blocks: Seq<BlockView>,
    pub service: Option<FileView>,
}

/// What a sequence of blocks holds.
pub open spec fn blocks_view(blocks: Seq<OwnedBlock>) -> Seq<BlockView> {
    blocks.map_values(|block: OwnedBlock| block@)
}

/// What the record of an optional file holds.
pub open spec fn optional_file(file: Option<OwnedFile>) -> Option<FileView> {
    match file {
        Some(file) => Some(file@),
        None => None,
    }
}

impl View for Manifest {
    type V = ManifestView;

    open spec fn view(&self) -> ManifestView {
        ManifestView {
            version: self.version,
            config: self.config@,
            blocks: blocks_view(self.blocks@),
            service: optional_file(self.service),
        }
    }
}

impl Clone for OwnedFile {
    fn clone(&self) -> (copy: OwnedFile)
        ensures
            copy@ == self@,
    {
        OwnedFile { path: copied(self.path.as_slice()), digest: self.digest.clone() }
    }
}

impl Clone for OwnedBlock {
    fn clone(&self) -> (copy: OwnedBlock)
        ensures
            copy@ == self@,
    {
        OwnedBlock {
            name: self.name.clone(),
            bytes: self.bytes.clone(),
            digest: self.digest.clone(),
        }
    }
}

impl Clone for Manifest {
    fn clone(&self) -> (copy: Manifest)
        ensures
            copy@ == self@,
    {
        let mut blocks: Vec<OwnedBlock> = Vec::new();
        let mut i: usize = 0;
        while i < self.blocks.len()
            invariant
                i <= self.blocks@.len(),
                blocks@.len() == i,
                forall|j: int| 0 <= j < i ==> (#[trigger] blocks@[j])@ == self.blocks@[j]@,
            decreases self.blocks@.len() - i,
        {
            blocks.push(self.blocks[i].clone());
            i = i + 1;
        }
        assert(blocks_view(blocks@) =~= blocks_view(self.blocks@));
        let service = match &self.service {
            Some(file) => Some(file.clone()),
            None => None,
        };
        Manifest { version: self.version, config: copied(self.config.as_slice()), blocks, service }
    }
}

/// The model that an alias stands for.
pub open spec fn model_of(name: Seq<char>) -> Seq<char> {
    if name == "codex-sol"@ {
        "gpt-5.6-sol"@
    } else {
        "gpt-5.6-terra"@
    }
}

/// The address that the models are served under.
pub open spec fn bridge_url() -> Seq<char> {
    "http://127.0.0.1:"@ + decimal(DEFAULT_PORT as nat) + "/v1"@
}

/// The model and the address that belong to an alias.
pub fn expected(name: &str) -> (r: (&'static str, String))
    ensures
        r.0@ == model_of(name@),
        r.1@ == bridge_url(),
{
    let model: &'static str = if same_text(name, SOL) {
        "gpt-5.6-sol"
    } else {
        "gpt-5.6-terra"
    };
    let port = decimal_text(DEFAULT_PORT as u128);
    (model, concat3("http://127.0.0.1:", port.as_str(), "/v1"))
}

/// The text of the block that describes a model to the client.
pub open spec fn block_text(name: Seq<char>, model: Seq<char>) -> Seq<char> {
    "# BEGIN codex-for-grok owned model: "@ + name + "\n[models."@ + name + "]\nname = \""@ + name
        + "\"\nmodel = \""@ + model + "\"\nbase_url = \""@ + bridge_url()
        + "\"\napi_key = \"local\"\n"@ + "# END codex-for-grok owned model: "@ + name + "\n"@
}

/// Writes the block that describes a model to the client.
pub fn block(name: &str, model: &str) -> (text: String)
    ensures
        text@ == block_text(name@, model@),
{
    let (_, url) = expected(name);
    let mut out = BEGIN.to_owned();
    out.append(name);
    out.append("\n[models.");
    out.append(name);
    out.append("]\nname = \"");
    out.append(name);
    out.append("\"\nmodel = \"");
    out.append(model);
    out.append("\"\nbase_url = \"");
    out.append(url.as_str());
    out.append("\"\napi_key = \"local\"\n");
    out.append(END);
    out.append(name);
    out.append("\n");
    out
}

/// The block of a model, as the manifest records it.
pub open spec fn block_record(name: Seq<char>, model: Seq<char>) -> BlockView {
    let text = block_text(name, model);
    BlockView { name, bytes: text, digest: sha256_hex(encode_utf8(text)) }
}

/// Writes the block of a model, as the manifest records it.
pub fn owned_block(name: &str, model: &str) -> (r: OwnedBlock)
    ensures
        r@ == block_record(name@, model@),
{
    let bytes = block(name, model);
    let digest = digest(bytes.as_str().as_bytes());
    OwnedBlock { name: name.to_owned(), bytes, digest }
}

/// What a model entry that has some field wrong is refused with.
pub open spec fn conflict(name: Seq<char>, field: Seq<char>, want: Seq<char>) -> Seq<char> {
    "conflicting [models."@ + name + "]: expected "@ + field + " = "@ + debug_text(want)
}

/// What a model entry is refused with: the first of its fields that is not as
/// the bridge would have written it.
pub open spec fn model_problem(name: Seq<char>, entry: JsonView) -> Option<Seq<char>> {
    if entry.text_field("name"@) != Some(name) {
        Some(conflict(name, "name"@, name))
    } else if entry.text_field("model"@) != Some(model_of(name)) {
        Some(conflict(name, "model"@, model_of(name)))
    } else if entry.text_field("base_url"@) != Some(bridge_url()) {
        Some(conflict(name, "base_url"@, bridge_url()))
    } else if entry.text_field("api_key"@) != Some("local"@) {
        Some(conflict(name, "api_key"@, "local"@))
    } else {
        None
    }
}

/// The error of a check that has no other result.
pub open spec fn problem_of(r: Result<(), String>) -> Option<Seq<char>> {
    match r {
        Ok(_) => None,
        Err(error) => Some(error@),
    }
}

fn check_field(name: &str, entry: &Json, field: &str, want: &str) -> (r: Result<(), String>)
    ensures
        problem_of(r) == (if entry@.text_field(field@) == Some(want@) {
            None
        } else {
            Some(conflict(name@, field@, want@))
        }),
{
    if is_text(entry.text_field(field), want) {
        return Ok(());
    }
    let mut message = concat3("conflicting [models.", name, "]: expected ");
    message.append(field);
    message.append(" = ");
    message.append(quoted(want).as_str());
    Err(message)
}

/// Checks that a model entry is as the bridge would have written it.
pub fn validate_model(name: &str, entry: &Json) -> (r: Result<(), String>)
    ensures
        problem_of(r) == model_problem(name@, entry@),
{
    let (model, url) = expected(name);
    check_field(name, entry, "name", name)?;
    check_field(name, entry, "model", model)?;
    check_field(name, entry, "base_url", url.as_str())?;
    check_field(name, entry, "api_key", "local")
}

/// Whether the digest that a block records is the digest of its bytes.
pub open spec fn digest_holds(block: BlockView) -> bool {
    sha256_hex(encode_utf8(block.bytes)) == block.digest
}

/// What is wrong with the first of the blocks that is not in the configuration
/// exactly once, or whose digest is wrong.
pub open spec fn blocks_problem(blocks: Seq<BlockView>, bytes: Seq<u8>) -> Option<Seq<char>>
    decreases blocks.len(),
{
    if blocks.len() == 0 {
        None
    } else {
        match blocks_problem(blocks.drop_last(), bytes) {
            Some(problem) => Some(problem),
            None => if !digest_holds(blocks.last()) {
                Some("ownership manifest block digest mismatch"@)
            } else if occurrences(bytes, encode_utf8(blocks.last().bytes)) != 1 {
                Some("owned "@ + blocks.last().name + " block changed, missing, or duplicated"@)
            } else {
                None
            },
        }
    }
}

/// Whether a manifest speaks of a configuration.
pub open spec fn speaks_of(manifest: ManifestView, path: Seq<u8>) -> bool {
    manifest.version == 1 && same_path(manifest.config, path)
}

/// What is wrong with a manifest, held against the configuration at `path`.
pub open spec fn manifest_problem(manifest: ManifestView, path: Seq<u8>, bytes: Seq<u8>) -> Option<
    Seq<char>,
> {
    if !speaks_of(manifest, path) {
        Some("ownership manifest version/config mismatch"@)
    } else {
        blocks_problem(manifest.blocks, bytes)
    }
}

/// Whether the digest that a block records is the digest of its bytes.
pub fn check_digest(block: &OwnedBlock) -> (r: bool)
    ensures
        r == digest_holds(block@),
{
    same_text(digest(block.bytes.as_str().as_bytes()).as_str(), block.digest.as_str())
}

/// Whether a manifest speaks of a configuration.
pub fn check_config(manifest: &Manifest, path: &[u8]) -> (r: bool)
    ensures
        r == speaks_of(manifest@, path@),
{
    manifest.version == 1 && paths_match(manifest.config.as_slice(), path)
}

/// Checks a manifest against the configuration at `path`: every owned block is
/// there exactly once, unchanged.
pub fn verify_manifest(manifest: &Manifest, path: &[u8], bytes: &[u8]) -> (r: Result<(), String>)
    ensures
        problem_of(r) == manifest_problem(manifest@, path@, bytes@),
{
    if !check_config(manifest, path) {
        return Err("ownership manifest version/config mismatch".to_owned());
    }
    let ghost blocks = manifest@.blocks;
    let mut i: usize = 0;
    assert(blocks.take(0) =~= Seq::empty());
    while i < manifest.blocks.len()
        invariant
            i <= manifest.blocks@.len(),
            blocks == blocks_view(manifest.blocks@),
            blocks_problem(blocks.take(i as int), bytes@) is None,
            speaks_of(manifest@, path@),
        decreases manifest.blocks@.len() - i,
    {
        let owned = &manifest.blocks[i];
        proof {
            assert(blocks.take(i + 1).drop_last() =~= blocks.take(i as int));
            assert(blocks.take(i + 1).last() == owned@);
        }
        if !check_digest(owned) {
            proof {
                lemma_first_problem(blocks, bytes@, i as int);
            }
            return Err("ownership manifest block digest mismatch".to_owned());
        }
        if count_occurrences(bytes, owned.bytes.as_str().as_bytes()) != 1 {
            proof {
                lemma_first_problem(blocks, bytes@, i as int);
            }
            return Err(
                concat3("owned ", owned.name.as_str(), " block changed, missing, or duplicated"),
            );
        }
        i = i + 1;
    }
    assert(blocks.take(blocks.len() as int) =~= blocks);
    Ok(())
}

proof fn lemma_first_problem(blocks: Seq<BlockView>, bytes: Seq<u8>, at: int)
    requires
        0 <= at < blocks.len(),
        blocks_problem(blocks.take(at + 1), bytes) is Some,
    ensures
        blocks_problem(blocks, bytes) == blocks_problem(blocks.take(at + 1), bytes),
    decreases blocks.len(),
{
    if at + 1 < blocks.len() {
        assert(blocks.drop_last().take(at + 1) =~= blocks.take(at + 1));
        lemma_first_problem(blocks.drop_last(), bytes, at);
    } else {
        assert(blocks.take(at + 1) =~= blocks);
    }
}

/// What the content of an owned file is refused with; `content` is none where
/// the file could not be read.
pub open spec fn file_problem(file: FileView, content: Option<Seq<u8>>) -> Option<Seq<char>> {
    match content {
        None => Some("owned service definition missing: "@ + lossy_text(file.path)),
        Some(bytes) => if sha256_hex(bytes) != file.digest {
            Some(
                "service definition conflict: "@ + lossy_text(file.path)
                    + " is not unchanged bridge-owned content"@,
            )
        } else {
            None
        },
    }
}

/// Checks that an owned file is unchanged.
pub fn verify_owned_file(file: &OwnedFile, content: &Option<Vec<u8>>) -> (r: Result<(), String>)
    ensures
        problem_of(r) == file_problem(file@, optional_bytes(*content)),
{
    let shown = text_of_bytes(file.path.as_slice());
    match content {
        None => Err(crate::text::concat("owned service definition missing: ", shown.as_str())),
        Some(bytes) => if !same_text(digest(bytes.as_slice()).as_str(), file.digest.as_str()) {
            Err(
                concat3(
                    "service definition conflict: ",
                    shown.as_str(),
                    " is not unchanged bridge-owned content",
                ),
            )
        } else {
            Ok(())
        },
    }
}

/// The configuration without the owned blocks, each cut out where it stands
/// first; none, where one of them is not there.
pub open spec fn without_blocks(blocks: Seq<BlockView>, bytes: Seq<u8>) -> Option<Seq<u8>>
    decreases blocks.len(),
{
    if blocks.len() == 0 {
        Some(bytes)
    } else {
        let pattern = encode_utf8(blocks[0].bytes);
        if stands_in(bytes, pattern) {
            without_blocks(
                blocks.skip(1),
                cut_out(bytes, first_position(bytes, pattern), pattern.len() as int),
            )
        } else {
            None
        }
    }
}

/// Cuts the owned blocks out of a configuration.
pub fn remove_blocks(manifest: &Manifest, bytes: &[u8]) -> (rest: Option<Vec<u8>>)
    ensures
        optional_bytes(rest) == without_blocks(manifest@.blocks, bytes@),
{
    let ghost blocks = manifest@.blocks;
    let mut rest = copied(bytes);
    let mut i: usize = 0;
    assert(blocks.skip(0) =~= blocks);
    while i < manifest.blocks.len()
        invariant
            i <= manifest.blocks@.len(),
            blocks == blocks_view(manifest.blocks@),
            without_blocks(blocks, bytes@) == without_blocks(blocks.skip(i as int), rest@),
        decreases manifest.blocks@.len() - i,
    {
        let pattern = manifest.blocks[i].bytes.as_str().as_bytes();
        assert(blocks.skip(i as int)[0] == manifest.blocks@[i as int]@);
        assert(blocks.skip(i as int).skip(1) =~= blocks.skip(i + 1));
        let at: usize = match find_bytes(rest.as_slice(), pattern) {
            Some(at) => at,
            None => return None,
        };
        proof {
            lemma_first_position(rest@, pattern@, at as int);
        }
        rest = cut(rest.as_slice(), at, pattern.len());
        i = i + 1;
    }
    Some(rest)
}

} // verus!
