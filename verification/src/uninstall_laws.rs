//! What uninstalling takes away, and what it refuses to touch: laws on ownership and
//! on the steps of an uninstall.
use vstd::prelude::*;
use vstd::utf8::encode_utf8;

use crate::bytes::{first_position, occurrences, stands_at};
use crate::bytes::{stands_in, stands_first_at};
use crate::manager::ManagerState;
use crate::ownership::{blocks_problem, file_problem, manifest_problem, sha256_hex};
use crate::ownership::{without_blocks, BlockView, FileView, ManifestView};
use crate::path::same_path;
use crate::text::{joined, lossy_text};
use crate::uninstall::{plan_uninstall, uninstall_after, uninstall_with_content};
use crate::uninstall::{uninstall_with_state, BackupView, RemovalView, TransactionView};
use crate::uninstall::UninstallView;

verus! {

/// Whether an owned block is recorded as it was written and stands in a configuration
/// once.
pub open spec fn is_intact(block: BlockView, bytes: Seq<u8>) -> bool {
    sha256_hex(encode_utf8(block.bytes)) == block.digest && occurrences(
        bytes,
        encode_utf8(block.bytes),
    ) == 1
}

/// Whether a manifest speaks of a configuration in which all its blocks are intact.
pub open spec fn all_intact(manifest: ManifestView, path: Seq<u8>, bytes: Seq<u8>) -> bool {
    &&& manifest.version == 1
    &&& same_path(manifest.config, path)
    &&& forall|i: int| 0 <= i < manifest.blocks.len() ==> is_intact(#[trigger] manifest.blocks[i], bytes)
}

/// Blocks have a problem unless all are intact, and it is that of the first that is
/// not.
proof fn lemma_blocks_intact(blocks: Seq<BlockView>, bytes: Seq<u8>)
    ensures
        blocks_problem(blocks, bytes) is None <==> forall|i: int|
            0 <= i < blocks.len() ==> is_intact(#[trigger] blocks[i], bytes),
    decreases blocks.len(),
{
    if blocks.len() > 0 {
        let front = blocks.drop_last();
        lemma_blocks_intact(front, bytes);
        assert(forall|i: int| 0 <= i < front.len() ==> #[trigger] front[i] == blocks[i]);
        if blocks_problem(blocks, bytes) is None {
            assert forall|i: int| 0 <= i < blocks.len() implies is_intact(
                #[trigger] blocks[i],
                bytes,
            ) by {
                if i < front.len() {
                    assert(front[i] == blocks[i]);
                }
            }
        } else if forall|i: int| 0 <= i < blocks.len() ==> is_intact(#[trigger] blocks[i], bytes) {
            assert forall|i: int| 0 <= i < front.len() implies is_intact(
                #[trigger] front[i],
                bytes,
            ) by {
                assert(front[i] == blocks[i]);
            }
            assert(is_intact(blocks[blocks.len() - 1], bytes));
        }
    }
}

/// A manifest is verified if and only if it has version one, speaks of this
/// configuration, and all its blocks are intact in it.
pub proof fn lemma_which_manifests_are_verified(
    manifest: ManifestView,
    path: Seq<u8>,
    bytes: Seq<u8>,
)
    ensures
        manifest_problem(manifest, path, bytes) is None <==> all_intact(manifest, path, bytes),
        !(manifest.version == 1 && same_path(manifest.config, path)) ==> manifest_problem(
            manifest,
            path,
            bytes,
        ) == Some("ownership manifest version/config mismatch"@),
{
    lemma_blocks_intact(manifest.blocks, bytes);
}

/// What a manifest that is not verified is told: the problem of the first block that
/// is not intact, where a wrong record comes before a change in the configuration.
pub proof fn lemma_what_a_changed_block_is_told(
    manifest: ManifestView,
    path: Seq<u8>,
    bytes: Seq<u8>,
    at: int,
)
    requires
        manifest.version == 1,
        same_path(manifest.config, path),
        0 <= at < manifest.blocks.len(),
        forall|i: int| 0 <= i < at ==> is_intact(#[trigger] manifest.blocks[i], bytes),
        !is_intact(manifest.blocks[at], bytes),
    ensures
        manifest_problem(manifest, path, bytes) == Some(
            if sha256_hex(encode_utf8(manifest.blocks[at].bytes)) != manifest.blocks[at].digest {
                "ownership manifest block digest mismatch"@
            } else {
                "owned "@ + manifest.blocks[at].name + " block changed, missing, or duplicated"@
            },
        ),
{
    lemma_first_changed_block(manifest.blocks, bytes, at);
}

/// The first block that is not intact decides.
proof fn lemma_first_changed_block(blocks: Seq<BlockView>, bytes: Seq<u8>, at: int)
    requires
        0 <= at < blocks.len(),
        forall|i: int| 0 <= i < at ==> is_intact(#[trigger] blocks[i], bytes),
        !is_intact(blocks[at], bytes),
    ensures
        blocks_problem(blocks, bytes) == Some(
            if sha256_hex(encode_utf8(blocks[at].bytes)) != blocks[at].digest {
                "ownership manifest block digest mismatch"@
            } else {
                "owned "@ + blocks[at].name + " block changed, missing, or duplicated"@
            },
        ),
    decreases blocks.len(),
{
    let front = blocks.drop_last();
    assert forall|i: int| 0 <= i < at implies is_intact(#[trigger] front[i], bytes) by {
        assert(front[i] == blocks[i]);
    }
    if at == blocks.len() - 1 {
        lemma_blocks_intact(front, bytes);
    } else {
        assert(front[at] == blocks[at]);
        lemma_first_changed_block(front, bytes, at);
    }
}

/// A service definition is the bridge's own if and only if it is there and has the
/// digest that was recorded.
pub proof fn lemma_which_definitions_are_owned(file: FileView, content: Option<Seq<u8>>)
    ensures
        file_problem(file, content) is None <==> (content matches Some(bytes) && sha256_hex(bytes)
            == file.digest),
        content is None ==> file_problem(file, content) == Some(
            "owned service definition missing: "@ + lossy_text(file.path),
        ),
        content matches Some(bytes) ==> sha256_hex(bytes) != file.digest ==> file_problem(
            file,
            content,
        ) == Some(
            "service definition conflict: "@ + lossy_text(file.path)
                + " is not unchanged bridge-owned content"@,
        ),
{
}

/// Blocks are taken out one after the other.
pub proof fn lemma_blocks_go_one_by_one(
    first: Seq<BlockView>,
    second: Seq<BlockView>,
    bytes: Seq<u8>,
)
    ensures
        without_blocks(first + second, bytes) == (match without_blocks(first, bytes) {
            Some(rest) => without_blocks(second, rest),
            None => None,
        }),
    decreases first.len(),
{
    if first.len() == 0 {
        assert(first + second =~= second);
    } else {
        let pattern = encode_utf8(first[0].bytes);
        assert((first + second).skip(1) =~= first.skip(1) + second);
        assert((first + second)[0] == first[0]);
        if stands_in(bytes, pattern) {
            lemma_blocks_go_one_by_one(
                first.skip(1),
                second,
                crate::bytes::cut_out(
                    bytes,
                    first_position(bytes, pattern),
                    pattern.len() as int,
                ),
            );
        }
    }
}

/// A block is taken out where it stands first, with what is before it and behind it
/// left as it is; nothing is taken out where it does not stand.
pub proof fn lemma_what_is_taken_out(block: BlockView, bytes: Seq<u8>, at: int)
    ensures
        without_blocks(Seq::empty(), bytes) == Some(bytes),
        (forall|i: int| !#[trigger] stands_at(bytes, encode_utf8(block.bytes), i)) ==> without_blocks(
            seq![block],
            bytes,
        ) is None,
        stands_first_at(bytes, encode_utf8(block.bytes), at) ==> without_blocks(seq![block], bytes)
            == Some(
            bytes.take(at) + bytes.skip(at + encode_utf8(block.bytes).len()),
        ),
{
    reveal_with_fuel(without_blocks, 2);
    let pattern = encode_utf8(block.bytes);
    assert(seq![block].skip(1) =~= Seq::empty());
    if stands_first_at(bytes, pattern, at) {
        assert(stands_at(bytes, pattern, at));
        crate::bytes::lemma_first_position(bytes, pattern, at);
        assert(crate::bytes::cut_out(bytes, at, pattern.len() as int) =~= bytes.take(at)
            + bytes.skip(at + pattern.len()));
    }
}

/// What uninstalling asks for, and in which order: a manifest, a place, a
/// configuration, blocks that are intact in it, and a service definition that is the
/// bridge's own.
pub proof fn lemma_what_uninstalling_asks_for(
    manifest: Result<Option<ManifestView>, Seq<char>>,
    place: Result<Seq<u8>, Seq<char>>,
    config: Result<Seq<u8>, Seq<char>>,
    content: Option<Seq<u8>>,
    dry: bool,
)
    ensures
        ({
            let result = plan_uninstall(manifest, place, config, content, dry);
            match (manifest, place, config) {
                (Err(error), _, _) => result == UninstallView::Finished(Err(error)),
                (Ok(None), _, _) => result == UninstallView::Finished(
                    Err("no ownership manifest; refusing uninstall"@),
                ),
                (Ok(Some(_)), Err(error), _) => result == UninstallView::Finished(Err(error)),
                (Ok(Some(_)), Ok(_), Err(error)) => result == UninstallView::Finished(Err(error)),
                (Ok(Some(found)), Ok(path), Ok(bytes)) => {
                    let changed = manifest_problem(found, path, bytes);
                    &&& !all_intact(found, path, bytes) ==> changed is Some && result
                        == UninstallView::Finished(Err(changed.unwrap()))
                    &&& all_intact(found, path, bytes) ==> {
                        found.service matches Some(file) ==> {
                            let foreign = file_problem(file, content);
                            !(content matches Some(body) && sha256_hex(body) == file.digest) ==> {
                                &&& foreign is Some
                                &&& result == UninstallView::Finished(Err(foreign.unwrap()))
                            }
                        }
                    }
                },
            }
        }),
{
    match (manifest, place, config) {
        (Ok(Some(found)), Ok(path), Ok(bytes)) => {
            lemma_which_manifests_are_verified(found, path, bytes);
        },
        _ => {},
    }
}

/// What uninstalling does with what it owns: a dry run only says so; with a service,
/// the manager is asked first; without one, the blocks are taken out at once.
pub proof fn lemma_how_uninstalling_starts(
    manifest: ManifestView,
    path: Seq<u8>,
    bytes: Seq<u8>,
    content: Option<Seq<u8>>,
    dry: bool,
)
    requires
        all_intact(manifest, path, bytes),
        manifest.service matches Some(file) ==> (content matches Some(body) && sha256_hex(body)
            == file.digest),
    ensures
        ({
            let result = plan_uninstall(Ok(Some(manifest)), Ok(path), Ok(bytes), content, dry);
            &&& dry ==> result == UninstallView::Finished(
                Ok("dry-run: ownership verified; would stop service and remove owned artifacts"@),
            )
            &&& !dry && manifest.service is Some ==> result == UninstallView::QueryManager(
                RemovalView { path, old: bytes, manifest },
            )
            &&& !dry && manifest.service is None ==> match without_blocks(manifest.blocks, bytes) {
                Some(next) => result == UninstallView::WriteConfig(
                    TransactionView { path, old: bytes, next, service: None },
                ),
                None => result == UninstallView::Finished(Err("owned block disappeared"@)),
            }
        }),
{
    lemma_which_manifests_are_verified(manifest, path, bytes);
}

/// With a service, uninstalling asks the manager, stops the service, takes the blocks
/// out, and reads the definition so that it can be put back.
pub proof fn lemma_how_a_service_is_taken_away(
    removal: RemovalView,
    file: FileView,
    state: ManagerState,
    next: Seq<u8>,
    body: Seq<u8>,
    error: Seq<char>,
)
    requires
        removal.manifest.service == Some(file),
        without_blocks(removal.manifest.blocks, removal.old) == Some(next),
    ensures
        ({
            let asked = UninstallView::QueryManager(removal);
            let stopping = UninstallView::StopService(removal, state);
            let reading = UninstallView::ReadService {
                path: removal.path,
                old: removal.old,
                next,
                file: file.path,
                state,
            };
            let failed = UninstallView::Finished(Err(error));
            &&& uninstall_with_state(asked, Ok(state)) == stopping
            &&& uninstall_with_state(asked, Err(error)) == failed
            &&& uninstall_after(stopping, Ok(())) == reading
            &&& uninstall_after(stopping, Err(error)) == failed
            &&& uninstall_with_content(reading, Ok(body)) == UninstallView::WriteConfig(
                TransactionView {
                    path: removal.path,
                    old: removal.old,
                    next,
                    service: Some(BackupView { path: file.path, bytes: body, state }),
                },
            )
            &&& uninstall_with_content(reading, Err(error)) == failed
        }),
{
}

/// The steps that change something. Each that fails has everything put back; the last
/// that succeeds ends the uninstall.
pub proof fn lemma_the_steps_of_an_uninstall(job: TransactionView, error: Seq<char>)
    ensures
        ({
            let back = UninstallView::RestoreConfig(job, error);
            let writing = UninstallView::WriteConfig(job);
            let service = UninstallView::RemoveService(job);
            let manager = UninstallView::ReloadManager(job);
            let manifest = UninstallView::RemoveManifest(job);
            &&& job.service is Some ==> uninstall_after(writing, Ok(())) == service
            &&& job.service is None ==> uninstall_after(writing, Ok(())) == manifest
            &&& uninstall_after(service, Ok(())) == manager
            &&& uninstall_after(manager, Ok(())) == manifest
            &&& uninstall_after(manifest, Ok(())) == UninstallView::Finished(
                Ok("uninstalled unchanged bridge-owned configuration and service"@),
            )
            &&& uninstall_after(writing, Err(error)) == back
            &&& uninstall_after(service, Err(error)) == back
            &&& uninstall_after(manager, Err(error)) == back
            &&& uninstall_after(manifest, Err(error)) == back
        }),
{
}

/// What an uninstall that was undone tells: the error that undid it, and which of the
/// configuration, the service and the manager's state could not be put back.
pub proof fn lemma_what_an_undone_uninstall_tells(
    job: TransactionView,
    error: Seq<char>,
    first: Result<(), Seq<char>>,
    second: Result<(), Seq<char>>,
    third: Result<(), Seq<char>>,
)
    ensures
        ({
            let begin = UninstallView::RestoreConfig(job, error);
            let step = uninstall_after(begin, first);
            let config: Seq<Seq<char>> = match first {
                Ok(_) => Seq::empty(),
                Err(failure) => seq!["config: "@ + failure],
            };
            &&& job.service is None ==> step == UninstallView::Finished(
                Err(undone(error, config)),
            )
            &&& job.service is Some ==> {
                &&& step == UninstallView::RestoreService(job, error, config)
                &&& match second {
                    Err(failure) => uninstall_after(step, second) == UninstallView::Finished(
                        Err(undone(error, config + seq!["service: "@ + failure])),
                    ),
                    Ok(_) => {
                        let last = uninstall_after(step, second);
                        let manager: Seq<Seq<char>> = match third {
                            Ok(_) => Seq::empty(),
                            Err(failure) => seq!["manager state: "@ + failure],
                        };
                        &&& last == UninstallView::RestoreManager(job, error, config)
                        &&& uninstall_after(last, third) == UninstallView::Finished(
                            Err(undone(error, config + manager)),
                        )
                    },
                }
            }
        }),
{
    let config: Seq<Seq<char>> = match first {
        Ok(_) => Seq::empty(),
        Err(failure) => seq!["config: "@ + failure],
    };
    assert(config + Seq::<Seq<char>>::empty() =~= config);
    if let Err(failure) = second {
        assert(config + seq!["service: "@ + failure] =~= config.push("service: "@ + failure));
    }
    if let Err(failure) = third {
        assert(config + seq!["manager state: "@ + failure] =~= config.push(
            "manager state: "@ + failure,
        ));
    }
}

/// What is told of an uninstall that was undone.
pub open spec fn undone(error: Seq<char>, failures: Seq<Seq<char>>) -> Seq<char> {
    if failures == Seq::<Seq<char>>::empty() {
        "uninstall failed and artifacts were restored; retry is safe: "@ + error
    } else {
        "uninstall failed ("@ + error + "); rollback incomplete: "@ + joined(failures, ", "@)
    }
}

/// A step that is not waited for changes nothing.
pub proof fn lemma_a_finished_uninstall_stays(
    r: Result<Seq<char>, Seq<char>>,
    outcome: Result<(), Seq<char>>,
)
    ensures
        uninstall_after(UninstallView::Finished(r), outcome) == UninstallView::Finished(r),
{
}

} // verus!
