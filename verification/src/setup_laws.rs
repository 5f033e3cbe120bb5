//! What setup does to a configuration: laws on what it accepts, on what it writes
//! and on what it tells.
use vstd::prelude::*;
use vstd::utf8::{decode_utf8, encode_utf8, valid_utf8};

use crate::bytes::{lemma_counted_where_it_stands, occurrences, stands_in};
use crate::json::{lookup, JsonView};
use crate::ownership::{block_record, block_text, blocks_problem, bridge_url, model_problem};
use crate::ownership::{sha256_hex, BlockView, Manifest, ManifestView};
use crate::path::{same_path, under};
use crate::settings::settings_of_text;
use crate::setup::{blocks_bytes, config_place, digests_hold, given_up, manifest_of_read};
use crate::setup::{manifest_place, plan_command, plan_setup, retained, setup_after, under_home};
use crate::setup::{FileReadView, ManifestRead, SetupView};
use crate::text::{decimal, lossy_text};

verus! {

/// What a document says of a model under `models`.
pub open spec fn entry_of(document: JsonView, name: Seq<char>) -> Option<JsonView> {
    match document {
        JsonView::Object(fields) => match lookup(fields, "models"@) {
            Some(JsonView::Object(models)) => lookup(models, name),
            _ => None,
        },
        _ => None,
    }
}

/// The model behind an alias.
pub open spec fn model_behind(alias: Seq<char>) -> Seq<char> {
    if alias == "codex-sol"@ {
        "gpt-5.6-sol"@
    } else {
        "gpt-5.6-terra"@
    }
}

/// Whether an entry sends an alias to its model over the bridge.
pub open spec fn serves(entry: JsonView, alias: Seq<char>) -> bool {
    entry matches JsonView::Object(fields) && {
        &&& lookup(fields, "name"@) == Some(JsonView::Text(alias))
        &&& lookup(fields, "model"@) == Some(JsonView::Text(model_behind(alias)))
        &&& lookup(fields, "base_url"@) == Some(JsonView::Text("http://127.0.0.1:18474/v1"@))
        &&& lookup(fields, "api_key"@) == Some(JsonView::Text("local"@))
    }
}

/// Whether a document leaves an alias free or sends it to its model.
pub open spec fn agrees(document: JsonView, alias: Seq<char>) -> bool {
    match entry_of(document, alias) {
        Some(entry) => serves(entry, alias),
        None => true,
    }
}

/// Whether the bytes of a configuration say what a document says. No bytes say
/// nothing.
pub open spec fn reads_as(bytes: Seq<u8>, document: JsonView) -> bool {
    valid_utf8(bytes) && if bytes.len() == 0 {
        document == JsonView::Object(Map::empty())
    } else {
        settings_of_text(decode_utf8(bytes)) == Ok::<JsonView, Seq<char>>(document)
    }
}

/// Whether a configuration was read as some bytes. One that is missing has none.
pub open spec fn was_read(config: FileReadView, bytes: Seq<u8>) -> bool {
    config == FileReadView::Content(bytes) || (config == FileReadView::Missing && bytes.len() == 0)
}

/// Whether an owned block is recorded as it was written, and either stands in the
/// configuration once, or was taken out of it with the alias still served.
pub open spec fn block_in_order(block: BlockView, bytes: Seq<u8>, document: JsonView) -> bool {
    &&& sha256_hex(encode_utf8(block.bytes)) == block.digest
    &&& occurrences(bytes, encode_utf8(block.bytes)) == 1 || {
        &&& occurrences(bytes, encode_utf8(block.bytes)) == 0
        &&& entry_of(document, block.name) matches Some(entry) && serves(entry, block.name)
    }
}

/// Whether a manifest speaks of this configuration, with all its blocks in order.
pub open spec fn in_order(
    manifest: ManifestView,
    path: Seq<u8>,
    bytes: Seq<u8>,
    document: JsonView,
) -> bool {
    &&& manifest.version == 1
    &&& same_path(manifest.config, path)
    &&& forall|i: int|
        0 <= i < manifest.blocks.len() ==> block_in_order(
            #[trigger] manifest.blocks[i],
            bytes,
            document,
        )
}

/// The blocks of a manifest; none where there is no manifest.
pub open spec fn owned(manifest: Option<ManifestView>) -> Seq<BlockView> {
    match manifest {
        Some(manifest) => manifest.blocks,
        None => Seq::empty(),
    }
}

/// Whether setup has nothing against a configuration and its manifest.
pub open spec fn acceptable(
    path: Seq<u8>,
    bytes: Seq<u8>,
    document: JsonView,
    manifest: Option<ManifestView>,
) -> bool {
    &&& entry_of(document, "codex-luna"@) is None
    &&& agrees(document, "codex-sol"@)
    &&& agrees(document, "codex-terra"@)
    &&& match manifest {
        Some(manifest) => in_order(manifest, path, bytes, document),
        None => true,
    }
}

/// The blocks that still stand in a configuration.
pub open spec fn standing(blocks: Seq<BlockView>, bytes: Seq<u8>) -> Seq<BlockView> {
    blocks.filter(|block: BlockView| stands_in(bytes, encode_utf8(block.bytes)))
}

/// The lines that give an alias to the bridge.
pub open spec fn lines_of(alias: Seq<char>) -> Seq<char> {
    "# BEGIN codex-for-grok owned model: "@ + alias + "\n[models."@ + alias + "]\nname = \""@
        + alias + "\"\nmodel = \""@ + model_behind(alias)
        + "\"\nbase_url = \"http://127.0.0.1:18474/v1\"\napi_key = \"local\"\n"@
        + "# END codex-for-grok owned model: "@ + alias + "\n"@
}

/// What a manifest records of the lines of an alias.
pub open spec fn record_of(alias: Seq<char>) -> BlockView {
    BlockView {
        name: alias,
        bytes: lines_of(alias),
        digest: sha256_hex(encode_utf8(lines_of(alias))),
    }
}

/// The records of those of the two aliases that a document leaves free.
pub open spec fn records_to_add(document: JsonView) -> Seq<BlockView> {
    let sol = entry_of(document, "codex-sol"@) is None;
    let terra = entry_of(document, "codex-terra"@) is None;
    if sol && terra {
        seq![record_of("codex-sol"@), record_of("codex-terra"@)]
    } else if sol {
        seq![record_of("codex-sol"@)]
    } else if terra {
        seq![record_of("codex-terra"@)]
    } else {
        Seq::empty()
    }
}

/// The lines of an alias and an empty line, where a document leaves the alias free.
pub open spec fn lines_to_add(document: JsonView, alias: Seq<char>) -> Seq<u8> {
    if entry_of(document, alias) is None {
        encode_utf8(lines_of(alias)).push(0x0a)
    } else {
        Seq::empty()
    }
}

/// The port of the bridge in digits.
proof fn lemma_port_text()
    ensures
        decimal(18474) == "18474"@,
{
    reveal_strlit("18474");
    reveal_with_fuel(decimal, 6);
    assert(decimal(1) == seq!['1']);
    assert(decimal(18) =~= seq!['1', '8']);
    assert(decimal(184) =~= seq!['1', '8', '4']);
    assert(decimal(1847) =~= seq!['1', '8', '4', '7']);
    assert(decimal(18474) =~= "18474"@);
}

/// Where the bridge is found.
pub proof fn lemma_the_address_of_the_bridge()
    ensures
        bridge_url() == "http://127.0.0.1:18474/v1"@,
{
    lemma_port_text();
    reveal_strlit("18474");
    reveal_strlit("http://127.0.0.1:");
    reveal_strlit("/v1");
    reveal_strlit("http://127.0.0.1:18474/v1");
    assert(bridge_url() =~= "http://127.0.0.1:18474/v1"@);
}

/// An entry is accepted if and only if it sends the alias to its model over the
/// bridge: under its name, with its model, at the bridge's address, with the key that
/// the bridge takes.
pub proof fn lemma_which_entries_are_accepted(alias: Seq<char>, entry: JsonView)
    ensures
        model_problem(alias, entry) is None <==> serves(entry, alias),
{
    lemma_the_address_of_the_bridge();
}

/// An entry that is refused is refused for the first of its four fields that is
/// wrong, and the refusal names what was expected.
pub proof fn lemma_what_a_refused_entry_is_told(
    alias: Seq<char>,
    fields: Map<Seq<char>, JsonView>,
)
    ensures
        ({
            let told = model_problem(alias, JsonView::Object(fields));
            let begin = "conflicting [models."@ + alias + "]: expected "@;
            let url = "http://127.0.0.1:18474/v1"@;
            let named = lookup(fields, "name"@) == Some(JsonView::Text(alias));
            let modelled = lookup(fields, "model"@) == Some(JsonView::Text(model_behind(alias)));
            let placed = lookup(fields, "base_url"@) == Some(JsonView::Text(url));
            let keyed = lookup(fields, "api_key"@) == Some(JsonView::Text("local"@));
            &&& !named ==> told == Some(
                begin + "name"@ + " = "@ + crate::text::debug_text(alias),
            )
            &&& named && !modelled ==> told == Some(
                begin + "model"@ + " = "@ + crate::text::debug_text(model_behind(alias)),
            )
            &&& named && modelled && !placed ==> told == Some(
                begin + "base_url"@ + " = "@ + crate::text::debug_text(url),
            )
            &&& named && modelled && placed && !keyed ==> told == Some(
                begin + "api_key"@ + " = "@ + crate::text::debug_text("local"@),
            )
        }),
{
    lemma_the_address_of_the_bridge();
}

/// The lines that are written for an alias are the ones that it is accepted with.
pub proof fn lemma_the_lines_of_an_alias(alias: Seq<char>)
    ensures
        block_text(alias, model_behind(alias)) == lines_of(alias),
        block_record(alias, model_behind(alias)) == record_of(alias),
{
    lemma_the_address_of_the_bridge();
    reveal_strlit("http://127.0.0.1:18474/v1");
    reveal_strlit("\"\nbase_url = \"");
    reveal_strlit("\"\napi_key = \"local\"\n");
    reveal_strlit("\"\nbase_url = \"http://127.0.0.1:18474/v1\"\napi_key = \"local\"\n");
    let split = "\"\nbase_url = \""@ + bridge_url() + "\"\napi_key = \"local\"\n"@;
    let whole = "\"\nbase_url = \"http://127.0.0.1:18474/v1\"\napi_key = \"local\"\n"@;
    assert(split =~= whole);
    let front = "# BEGIN codex-for-grok owned model: "@ + alias + "\n[models."@ + alias
        + "]\nname = \""@ + alias + "\"\nmodel = \""@ + model_behind(alias);
    assert(front + "\"\nbase_url = \""@ + bridge_url() + "\"\napi_key = \"local\"\n"@ =~= front
        + split);
}

/// Owned blocks that stand in the configuration once are in order; the others are
/// given up where they are in order at all.
proof fn lemma_blocks_in_order(blocks: Seq<BlockView>, bytes: Seq<u8>, document: JsonView)
    ensures
        digests_hold(blocks) && blocks_problem(retained(blocks, bytes, document), bytes) is None
            <==> forall|i: int|
            0 <= i < blocks.len() ==> block_in_order(#[trigger] blocks[i], bytes, document),
        (forall|i: int|
            0 <= i < blocks.len() ==> block_in_order(#[trigger] blocks[i], bytes, document))
            ==> retained(blocks, bytes, document) == standing(blocks, bytes),
    decreases blocks.len(),
{
    reveal(Seq::filter);
    let kept = retained(blocks, bytes, document);
    if blocks.len() > 0 {
        let front = blocks.drop_last();
        let last = blocks.last();
        lemma_blocks_in_order(front, bytes, document);
        lemma_counted_where_it_stands(bytes, encode_utf8(last.bytes));
        if entry_of(document, last.name) is Some {
            lemma_which_entries_are_accepted(last.name, entry_of(document, last.name).unwrap());
        }
        assert(given_up(last, bytes, document) <==> (occurrences(bytes, encode_utf8(last.bytes)) == 0
            && (entry_of(document, last.name) matches Some(entry) && serves(entry, last.name))));
        if !given_up(last, bytes, document) {
            assert(kept.drop_last() =~= retained(front, bytes, document));
            assert(kept.last() == last);
        }
        if digests_hold(blocks) {
            assert forall|i: int| 0 <= i < front.len() implies crate::ownership::digest_holds(
                #[trigger] front[i],
            ) by {
                assert(front[i] == blocks[i]);
            }
            assert(digests_hold(front));
            assert(crate::ownership::digest_holds(blocks[blocks.len() - 1]));
        }
        if forall|i: int|
            0 <= i < blocks.len() ==> block_in_order(#[trigger] blocks[i], bytes, document) {
            assert forall|i: int| 0 <= i < front.len() implies block_in_order(
                #[trigger] front[i],
                bytes,
                document,
            ) by {
                assert(front[i] == blocks[i]);
            }
            assert(block_in_order(blocks[blocks.len() - 1], bytes, document));
            assert forall|i: int| 0 <= i < blocks.len() implies crate::ownership::digest_holds(
                #[trigger] blocks[i],
            ) by {
                assert(block_in_order(blocks[i], bytes, document));
            }
        }
        if digests_hold(blocks) && blocks_problem(kept, bytes) is None {
            assert forall|i: int| 0 <= i < blocks.len() implies block_in_order(
                #[trigger] blocks[i],
                bytes,
                document,
            ) by {
                if i < front.len() {
                    assert(front[i] == blocks[i]);
                }
            }
        }
    }
}

/// Setup refuses a configuration that it can read if and only if something stands
/// against it: an entry for Luna, an alias that goes elsewhere, or a manifest that
/// cannot be read or is not in order.
pub proof fn lemma_what_setup_accepts(
    path: Seq<u8>,
    config: FileReadView,
    bytes: Seq<u8>,
    document: JsonView,
    manifest: Result<Option<ManifestView>, Seq<char>>,
    dry: bool,
)
    requires
        was_read(config, bytes),
        reads_as(bytes, document),
    ensures
        (plan_setup(path, config, manifest, dry) matches SetupView::Finished(r) && r is Err)
            <==> !(manifest matches Ok(manifest) && acceptable(path, bytes, document, manifest)),
{
    lemma_how_setup_goes_on(path, config, bytes, document, manifest, dry);
}

/// Both halves of the law: what is refused, and what comes of the rest.
proof fn lemma_how_setup_goes_on(
    path: Seq<u8>,
    config: FileReadView,
    bytes: Seq<u8>,
    document: JsonView,
    manifest: Result<Option<ManifestView>, Seq<char>>,
    dry: bool,
)
    requires
        was_read(config, bytes),
        reads_as(bytes, document),
    ensures
        match manifest {
            Ok(found) => if acceptable(path, bytes, document, found) {
                plan_setup(path, config, manifest, dry) == crate::setup::plan_additions(
                    path,
                    bytes,
                    match found {
                        Some(found) => ManifestView {
                            blocks: standing(found.blocks, bytes),
                            ..found
                        },
                        None => crate::setup::fresh_manifest(path),
                    },
                    (owned(found).len() - standing(owned(found), bytes).len()) as nat,
                    records_to_add(document),
                    dry,
                )
            } else {
                plan_setup(path, config, manifest, dry) matches SetupView::Finished(r) && r is Err
            },
            Err(_) => plan_setup(path, config, manifest, dry) matches SetupView::Finished(r)
                && r is Err,
        },
{
    reveal(Seq::filter);
    if config == FileReadView::Missing {
        assert(bytes =~= Seq::empty());
    }
    lemma_the_lines_of_an_alias("codex-sol"@);
    lemma_the_lines_of_an_alias("codex-terra"@);
    reveal_strlit("codex-sol");
    reveal_strlit("codex-terra");
    assert("codex-sol"@.len() != "codex-terra"@.len());
    if entry_of(document, "codex-sol"@) is Some {
        lemma_which_entries_are_accepted(
            "codex-sol"@,
            entry_of(document, "codex-sol"@).unwrap(),
        );
    }
    if entry_of(document, "codex-terra"@) is Some {
        lemma_which_entries_are_accepted(
            "codex-terra"@,
            entry_of(document, "codex-terra"@).unwrap(),
        );
    }
    assert(crate::setup::missing_block(document, "codex-sol"@, "gpt-5.6-sol"@)
        + crate::setup::missing_block(document, "codex-terra"@, "gpt-5.6-terra"@)
        =~= records_to_add(document));
    if let Ok(found) = manifest {
        lemma_blocks_in_order(owned(found), bytes, document);
    }
}

/// Setup leaves no alias free: where a configuration is acceptable and one of the two
/// aliases has no entry, a run that is not dry writes. What it writes begins with the
/// configuration as it was, goes on after an empty line, and adds the lines of exactly
/// the aliases that were free; the manifest then records these besides the blocks that
/// still stand.
pub proof fn lemma_free_aliases_are_written(
    path: Seq<u8>,
    config: FileReadView,
    bytes: Seq<u8>,
    document: JsonView,
    manifest: Option<ManifestView>,
)
    requires
        was_read(config, bytes),
        reads_as(bytes, document),
        acceptable(path, bytes, document, manifest),
        entry_of(document, "codex-sol"@) is None || entry_of(document, "codex-terra"@) is None,
    ensures
        plan_setup(path, config, Ok(manifest), false) matches SetupView::WriteConfig {
            path: written,
            old,
            next,
            manifest: recorded,
        } && {
            let gap = if bytes.len() == 0 {
                Seq::<u8>::empty()
            } else if bytes.last() == 0x0a {
                seq![0x0au8]
            } else {
                seq![0x0au8, 0x0au8]
            };
            &&& written == path
            &&& old == bytes
            &&& next == bytes + gap + lines_to_add(document, "codex-sol"@) + lines_to_add(
                document,
                "codex-terra"@,
            )
            &&& recorded.version == 1
            &&& recorded.config == (match manifest {
                Some(manifest) => manifest.config,
                None => path,
            })
            &&& recorded.service == (match manifest {
                Some(manifest) => manifest.service,
                None => None,
            })
            &&& recorded.blocks == standing(owned(manifest), bytes) + records_to_add(document)
        },
{
    reveal(Seq::filter);
    lemma_how_setup_goes_on(path, config, bytes, document, Ok(manifest), false);
    reveal_strlit("codex-sol");
    reveal_strlit("codex-terra");
    let records = records_to_add(document);
    let sol = lines_to_add(document, "codex-sol"@);
    let terra = lines_to_add(document, "codex-terra"@);
    reveal_with_fuel(blocks_bytes, 3);
    if records.len() == 2 {
        assert(records.drop_last() =~= seq![record_of("codex-sol"@)]);
        assert(records.drop_last().drop_last() =~= Seq::empty());
        assert(blocks_bytes(records.drop_last()) =~= sol);
    } else {
        assert(records.drop_last() =~= Seq::empty());
    }
    assert(blocks_bytes(records) =~= sol + terra);
    let gap = crate::setup::separator(bytes);
    assert(bytes + gap + blocks_bytes(records) =~= bytes + gap + sol + terra);
}

/// Nothing is written into a configuration that has both aliases. Where all the owned
/// blocks stand, setup says that all is well; where some were taken out with the
/// alias still served, it gives those up and keeps the manifest for the rest.
pub proof fn lemma_nothing_is_written_twice(
    path: Seq<u8>,
    config: FileReadView,
    bytes: Seq<u8>,
    document: JsonView,
    manifest: Option<ManifestView>,
)
    requires
        was_read(config, bytes),
        reads_as(bytes, document),
        acceptable(path, bytes, document, manifest),
        entry_of(document, "codex-sol"@) is Some,
        entry_of(document, "codex-terra"@) is Some,
    ensures
        ({
            let kept = standing(owned(manifest), bytes);
            let gone = owned(manifest).len() - kept.len();
            let result = plan_setup(path, config, Ok(manifest), false);
            &&& gone >= 0
            &&& gone == 0 ==> result == SetupView::Finished(
                Ok("already configured; ownership verified"@),
            )
            &&& gone > 0 ==> (manifest matches Some(found) && result == (SetupView::Reconcile {
                manifest: ManifestView {
                    version: found.version,
                    config: found.config,
                    blocks: kept,
                    service: found.service,
                },
                message: "configuration reconciled; preserved "@ + decimal(gone as nat)
                    + " model block(s) as user-owned"@,
            }))
        }),
{
    reveal(Seq::filter);
    lemma_standing_is_shorter(owned(manifest), bytes);
    lemma_how_setup_goes_on(path, config, bytes, document, Ok(manifest), false);
}

/// What still stands is no more than what was there.
proof fn lemma_standing_is_shorter(blocks: Seq<BlockView>, bytes: Seq<u8>)
    ensures
        standing(blocks, bytes).len() <= blocks.len(),
    decreases blocks.len(),
{
    reveal(Seq::filter);
    if blocks.len() > 0 {
        lemma_standing_is_shorter(blocks.drop_last(), bytes);
    }
}

/// Setup says that all is well only of a configuration that it accepts, in which both
/// aliases have an entry and every owned block stands.
pub proof fn lemma_when_all_is_well(
    path: Seq<u8>,
    config: FileReadView,
    bytes: Seq<u8>,
    document: JsonView,
    manifest: Result<Option<ManifestView>, Seq<char>>,
    dry: bool,
)
    requires
        was_read(config, bytes),
        reads_as(bytes, document),
        plan_setup(path, config, manifest, dry) == SetupView::Finished(
            Ok("already configured; ownership verified"@),
        ),
    ensures
        manifest matches Ok(found) && {
            &&& acceptable(path, bytes, document, found)
            &&& entry_of(document, "codex-sol"@) is Some
            &&& entry_of(document, "codex-terra"@) is Some
            &&& standing(owned(found), bytes).len() == owned(found).len()
        },
{
    lemma_how_setup_goes_on(path, config, bytes, document, manifest, dry);
    let found = manifest->Ok_0;
    lemma_standing_is_shorter(owned(found), bytes);
    reveal_strlit("already configured; ownership verified");
    reveal_strlit("dry-run: would preserve and relinquish ownership of ");
    reveal_strlit("dry-run: would append ");
    assert("already configured; ownership verified"@[0] == 'a');
    let gone = (owned(found).len() - standing(owned(found), bytes).len()) as nat;
    let first = "dry-run: would preserve and relinquish ownership of "@ + decimal(gone)
        + " semantically intact model block(s)"@;
    let second = "dry-run: would append "@ + decimal(records_to_add(document).len())
        + " model block(s) and relinquish ownership of "@ + decimal(gone) + " existing block(s)"@;
    assert(first[0] == 'd');
    assert(second[0] == 'd');
}

/// A dry run tells how many blocks the run would add and how many it would give up,
/// and says that all is well exactly where the run itself would.
pub proof fn lemma_what_a_dry_run_tells(
    path: Seq<u8>,
    config: FileReadView,
    bytes: Seq<u8>,
    document: JsonView,
    manifest: Option<ManifestView>,
)
    requires
        was_read(config, bytes),
        reads_as(bytes, document),
        acceptable(path, bytes, document, manifest),
    ensures
        ({
            let sol: nat = if entry_of(document, "codex-sol"@) is None {
                1
            } else {
                0
            };
            let terra: nat = if entry_of(document, "codex-terra"@) is None {
                1
            } else {
                0
            };
            let gone = owned(manifest).len() - standing(owned(manifest), bytes).len();
            plan_setup(path, config, Ok(manifest), true) == SetupView::Finished(
                Ok(
                    if sol + terra > 0 {
                        "dry-run: would append "@ + decimal(sol + terra)
                            + " model block(s) and relinquish ownership of "@ + decimal(gone as nat)
                            + " existing block(s)"@
                    } else if gone > 0 {
                        "dry-run: would preserve and relinquish ownership of "@ + decimal(
                            gone as nat,
                        ) + " semantically intact model block(s)"@
                    } else {
                        "already configured; ownership verified"@
                    },
                ),
            )
        }),
{
    lemma_how_setup_goes_on(path, config, bytes, document, Ok(manifest), true);
    lemma_standing_is_shorter(owned(manifest), bytes);
}

/// What a refused setup is told. A configuration that cannot be read, is no text or
/// is no TOML comes first, then Luna, then the manifest.
pub proof fn lemma_what_a_refused_setup_is_told(
    path: Seq<u8>,
    config: FileReadView,
    manifest: Result<Option<ManifestView>, Seq<char>>,
    dry: bool,
)
    ensures
        config matches FileReadView::Failed(error) ==> plan_setup(path, config, manifest, dry)
            == SetupView::Finished(Err(error)),
        config matches FileReadView::Content(bytes) ==> {
            let result = plan_setup(path, config, manifest, dry);
            &&& !valid_utf8(bytes) ==> result == SetupView::Finished(
                Err("config is not UTF-8; refusing to modify"@),
            )
            &&& valid_utf8(bytes) && bytes.len() > 0 ==> {
                match settings_of_text(decode_utf8(bytes)) {
                    Err(error) => result == SetupView::Finished(Err("invalid TOML: "@ + error)),
                    Ok(document) => {
                        &&& entry_of(document, "codex-luna"@) is Some ==> result
                            == SetupView::Finished(Err("Luna is explicitly unsupported"@))
                        &&& entry_of(document, "codex-luna"@) is None ==> {
                            &&& manifest matches Err(error) ==> result == SetupView::Finished(
                                Err(error),
                            )
                            &&& manifest matches Ok(Some(found)) ==> !(found.version == 1
                                && same_path(found.config, path)) ==> result
                                == SetupView::Finished(
                                Err("ownership manifest version/config mismatch"@),
                            )
                        }
                    },
                }
            }
        },
{
}

/// A manifest with a block that is not recorded as it was written is refused, before
/// anything is said of the blocks themselves.
pub proof fn lemma_a_forged_block_is_refused(
    path: Seq<u8>,
    bytes: Seq<u8>,
    document: JsonView,
    manifest: ManifestView,
    dry: bool,
    at: int,
)
    requires
        reads_as(bytes, document),
        entry_of(document, "codex-luna"@) is None,
        manifest.version == 1,
        same_path(manifest.config, path),
        0 <= at < manifest.blocks.len(),
        sha256_hex(encode_utf8(manifest.blocks[at].bytes)) != manifest.blocks[at].digest,
    ensures
        plan_setup(path, FileReadView::Content(bytes), Ok(Some(manifest)), dry)
            == SetupView::Finished(Err("ownership manifest block digest mismatch"@)),
{
    assert(!crate::ownership::digest_holds(manifest.blocks[at]));
}

/// The steps of a setup. A write that fails ends it; a manifest that cannot be written
/// has the configuration put back first.
pub proof fn lemma_the_steps_of_a_setup(
    path: Seq<u8>,
    old: Seq<u8>,
    next: Seq<u8>,
    manifest: ManifestView,
    message: Seq<char>,
    error: Seq<char>,
    other: Seq<char>,
)
    ensures
        ({
            let task = SetupView::WriteConfig { path, old, next, manifest };
            let second = SetupView::WriteManifest { path, old, manifest };
            let third = SetupView::RestoreConfig { path, old, error };
            let alone = SetupView::Reconcile { manifest, message };
            let told = SetupView::Finished(Ok(message));
            &&& setup_after(task, Ok(())) == second
            &&& setup_after(task, Err(error)) == SetupView::Finished(Err(error))
            &&& setup_after(second, Ok(())) == SetupView::Finished(
                Ok("configured "@ + lossy_text(path)),
            )
            &&& setup_after(second, Err(error)) == third
            &&& setup_after(third, Ok(())) == SetupView::Finished(
                Err("manifest write failed; configuration was rolled back: "@ + error),
            )
            &&& setup_after(third, Err(other)) == SetupView::Finished(
                Err(
                    "manifest write failed ("@ + error + "); config rollback also failed ("@ + other
                        + ")"@,
                ),
            )
            &&& setup_after(alone, Ok(())) == told
            &&& setup_after(alone, Err(error)) == SetupView::Finished(Err(error))
            &&& setup_after(told, Ok(())) == told
            &&& setup_after(told, Err(error)) == told
        }),
{
}

/// The command asks for Grok first, then for Codex, then for a place; only with all
/// three it looks at the configuration.
pub proof fn lemma_what_setup_asks_for(
    grok: bool,
    codex: bool,
    place: Result<Seq<u8>, Seq<char>>,
    config: FileReadView,
    manifest: Result<Option<ManifestView>, Seq<char>>,
    dry: bool,
)
    ensures
        ({
            let result = plan_command(grok, codex, place, config, manifest, dry);
            &&& !grok ==> result == SetupView::Finished(
                Err(
                    "required `"@ + "grok"@ + "` executable not found on PATH; "@
                        + "install Grok Build from the official xAI distribution"@,
                ),
            )
            &&& grok && !codex ==> result == SetupView::Finished(
                Err(
                    "required `"@ + "codex"@ + "` executable not found on PATH; "@
                        + "install the Codex CLI and run `codex login`"@,
                ),
            )
            &&& grok && codex ==> match place {
                Err(error) => result == SetupView::Finished(Err(error)),
                Ok(path) => result == plan_setup(path, config, manifest, dry),
            }
        }),
{
}

/// Where the files are: the state of the bridge and its manifest below the home
/// directory, the configuration where it was asked for, else where the environment
/// says, else below the home directory. Without a home directory there is no place.
pub proof fn lemma_where_the_files_are(
    home: Option<Seq<u8>>,
    given: Option<Seq<u8>>,
    environment: Option<Seq<u8>>,
)
    ensures
        home is None ==> {
            &&& under_home(home, ".grok/codex-for-grok"@) == Err::<Seq<u8>, Seq<char>>(
                "HOME is not set"@,
            )
            &&& manifest_place(home) == Err::<Seq<u8>, Seq<char>>("HOME is not set"@)
            &&& config_place(given, environment, home) == Err::<Seq<u8>, Seq<char>>(
                "HOME is not set"@,
            )
        },
        home matches Some(directory) ==> {
            let state = under(directory, encode_utf8(".grok/codex-for-grok"@));
            &&& under_home(home, ".grok/codex-for-grok"@) == Ok::<Seq<u8>, Seq<char>>(state)
            &&& manifest_place(home) == Ok::<Seq<u8>, Seq<char>>(
                under(state, encode_utf8("ownership.json"@)),
            )
            &&& config_place(given, environment, home) == Ok::<Seq<u8>, Seq<char>>(
                match (given, environment) {
                    (Some(path), _) => path,
                    (None, Some(path)) => path,
                    (None, None) => under(directory, encode_utf8(".grok/config.toml"@)),
                },
            )
        },
{
}

/// What a manifest on disk says: one that is missing is none at all, one that cannot
/// be understood or read is an error.
pub proof fn lemma_how_a_manifest_is_read(manifest: Manifest, error: String)
    ensures
        manifest_of_read(ManifestRead::Found(manifest)) == Ok::<Option<ManifestView>, Seq<char>>(
            Some(manifest@),
        ),
        manifest_of_read(ManifestRead::Missing) == Ok::<Option<ManifestView>, Seq<char>>(None),
        manifest_of_read(ManifestRead::Malformed(error)) == Err::<Option<ManifestView>, Seq<char>>(
            "invalid ownership manifest: "@ + error@,
        ),
        manifest_of_read(ManifestRead::Failed(error)) == Err::<Option<ManifestView>, Seq<char>>(
            error@,
        ),
{
}

/// An alias that goes elsewhere is refused with what is wrong with its entry, the
/// first alias before the second, once nothing else stands against the configuration.
pub proof fn lemma_what_a_conflict_is_told(
    path: Seq<u8>,
    config: FileReadView,
    bytes: Seq<u8>,
    document: JsonView,
    manifest: Option<ManifestView>,
    dry: bool,
)
    requires
        was_read(config, bytes),
        reads_as(bytes, document),
        entry_of(document, "codex-luna"@) is None,
        manifest matches Some(found) ==> in_order(found, path, bytes, document),
    ensures
        ({
            let result = plan_setup(path, config, Ok(manifest), dry);
            let sol = agrees(document, "codex-sol"@);
            let terra = agrees(document, "codex-terra"@);
            &&& !sol ==> result == SetupView::Finished(
                Err(model_problem("codex-sol"@, entry_of(document, "codex-sol"@).unwrap()).unwrap()),
            )
            &&& sol && !terra ==> result == SetupView::Finished(
                Err(
                    model_problem(
                        "codex-terra"@,
                        entry_of(document, "codex-terra"@).unwrap(),
                    ).unwrap(),
                ),
            )
        }),
{
    if config == FileReadView::Missing {
        assert(bytes =~= Seq::empty());
    }
    lemma_blocks_in_order(owned(manifest), bytes, document);
    if entry_of(document, "codex-sol"@) is Some {
        lemma_which_entries_are_accepted(
            "codex-sol"@,
            entry_of(document, "codex-sol"@).unwrap(),
        );
    }
    if entry_of(document, "codex-terra"@) is Some {
        lemma_which_entries_are_accepted(
            "codex-terra"@,
            entry_of(document, "codex-terra"@).unwrap(),
        );
    }
}

/// The first block that is out of order is the one that is told of.
proof fn lemma_first_block_out_of_order(
    blocks: Seq<BlockView>,
    bytes: Seq<u8>,
    document: JsonView,
    at: int,
)
    requires
        digests_hold(blocks),
        0 <= at < blocks.len(),
        forall|i: int| 0 <= i < at ==> block_in_order(#[trigger] blocks[i], bytes, document),
        !block_in_order(blocks[at], bytes, document),
    ensures
        blocks_problem(retained(blocks, bytes, document), bytes) == Some(
            "owned "@ + blocks[at].name + " block changed, missing, or duplicated"@,
        ),
    decreases blocks.len(),
{
    let front = blocks.drop_last();
    let last = blocks.last();
    let kept = retained(blocks, bytes, document);
    assert forall|i: int| 0 <= i < front.len() implies crate::ownership::digest_holds(
        #[trigger] front[i],
    ) by {
        assert(front[i] == blocks[i]);
    }
    assert(crate::ownership::digest_holds(blocks[blocks.len() - 1]));
    if entry_of(document, last.name) is Some {
        lemma_which_entries_are_accepted(last.name, entry_of(document, last.name).unwrap());
    }
    if !given_up(last, bytes, document) {
        assert(kept.drop_last() =~= retained(front, bytes, document));
        assert(kept.last() == last);
    }
    if at == blocks.len() - 1 {
        assert forall|i: int| 0 <= i < front.len() implies block_in_order(
            #[trigger] front[i],
            bytes,
            document,
        ) by {
            assert(front[i] == blocks[i]);
        }
        lemma_blocks_in_order(front, bytes, document);
    } else {
        assert forall|i: int| 0 <= i < at implies block_in_order(
            #[trigger] front[i],
            bytes,
            document,
        ) by {
            assert(front[i] == blocks[i]);
        }
        assert(front[at] == blocks[at]);
        lemma_first_block_out_of_order(front, bytes, document, at);
    }
}

/// A manifest with a block out of order is refused with the name of the first such
/// block.
pub proof fn lemma_a_changed_block_is_named(
    path: Seq<u8>,
    bytes: Seq<u8>,
    document: JsonView,
    manifest: ManifestView,
    dry: bool,
    at: int,
)
    requires
        reads_as(bytes, document),
        entry_of(document, "codex-luna"@) is None,
        manifest.version == 1,
        same_path(manifest.config, path),
        forall|i: int|
            0 <= i < manifest.blocks.len() ==> sha256_hex(
                encode_utf8((#[trigger] manifest.blocks[i]).bytes),
            ) == manifest.blocks[i].digest,
        0 <= at < manifest.blocks.len(),
        forall|i: int|
            0 <= i < at ==> block_in_order(#[trigger] manifest.blocks[i], bytes, document),
        !block_in_order(manifest.blocks[at], bytes, document),
    ensures
        plan_setup(path, FileReadView::Content(bytes), Ok(Some(manifest)), dry)
            == SetupView::Finished(
            Err("owned "@ + manifest.blocks[at].name + " block changed, missing, or duplicated"@),
        ),
{
    lemma_first_block_out_of_order(manifest.blocks, bytes, document, at);
}

} // verus!
