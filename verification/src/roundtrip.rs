//! What setting up has written: it passes its own check, setting up again leaves
//! it as it is, and uninstalling undoes it.
use vstd::prelude::*;
use vstd::utf8::{encode_utf8, is_ascii_chars, is_ascii_chars_encode_utf8};

use crate::bytes::{cut_out, lemma_counted_where_it_stands, lemma_first_position};
use crate::bytes::{lemma_only_occurrence, lemma_single_occurrence};
use crate::bytes::{occurrences, stands_at, stands_first_at};
use crate::json::JsonView;
use crate::ownership::{block_record, block_text, blocks_problem, bridge_url, manifest_problem};
use crate::ownership::{without_blocks, BlockView, ManifestView};
use crate::setup::{alias_problem, blocks_bytes, content_of, document_of};
use crate::setup::{lemma_configured_stays_as_it_is, missing_blocks, model_entry};
use crate::setup::{plan_setup, separator, FileReadView, SetupView};
use crate::sse::LINE_FEED;
use crate::text::decimal;
use crate::uninstall::{lemma_cut_once, plan_uninstall, uninstall_after, TransactionView};
use crate::uninstall::UninstallView;

verus! {

/// Whether a text is ASCII without a number sign.
spec fn unmarked(text: Seq<char>) -> bool {
    forall|i: int| 0 <= i < text.len() ==> '\0' <= #[trigger] text[i] <= '\u{7f}' && text[i] != '#'
}

/// Whether bytes look like a block: they start with the opening mark, hold it
/// nowhere else, and end with one line break.
spec fn block_shaped(bytes: Seq<u8>) -> bool {
    &&& bytes.len() > 3
    &&& bytes[0] == 0x23
    &&& bytes[2] == 0x42
    &&& forall|k: int|
        1 <= k < bytes.len() && #[trigger] bytes[k] == 0x23 ==> k + 2 < bytes.len() && bytes[k + 2]
            != 0x42
    &&& bytes[bytes.len() - 2] != LINE_FEED
}

proof fn lemma_unmarked_literals()
    ensures
        unmarked("codex-sol"@),
        unmarked("codex-terra"@),
        unmarked("gpt-5.6-sol"@),
        unmarked("gpt-5.6-terra"@),
        unmarked("\n[models."@),
        unmarked("]\nname = \""@),
        unmarked("\"\nmodel = \""@),
        unmarked("\"\nbase_url = \""@),
        unmarked("http://127.0.0.1:"@),
        unmarked("/v1"@),
        unmarked("\"\napi_key = \"local\"\n"@),
        unmarked("\n"@),
{
    reveal_strlit("codex-sol");
    assert("codex-sol"@ =~= seq!['c', 'o', 'd', 'e', 'x', '-', 's', 'o', 'l']);
    reveal_strlit("codex-terra");
    assert("codex-terra"@ =~= seq!['c', 'o', 'd', 'e', 'x', '-', 't', 'e', 'r', 'r', 'a']);
    reveal_strlit("gpt-5.6-sol");
    assert("gpt-5.6-sol"@ =~= seq!['g', 'p', 't', '-', '5', '.', '6', '-', 's', 'o', 'l']);
    reveal_strlit("gpt-5.6-terra");
    assert("gpt-5.6-terra"@ =~= seq!['g', 'p', 't', '-', '5', '.', '6', '-', 't', 'e', 'r', 'r', 'a']);
    reveal_strlit("\n[models.");
    assert("\n[models."@ =~= seq!['\n', '[', 'm', 'o', 'd', 'e', 'l', 's', '.']);
    reveal_strlit("]\nname = \"");
    assert("]\nname = \""@ =~= seq![']', '\n', 'n', 'a', 'm', 'e', ' ', '=', ' ', '"']);
    reveal_strlit("\"\nmodel = \"");
    assert("\"\nmodel = \""@ =~= seq!['"', '\n', 'm', 'o', 'd', 'e', 'l', ' ', '=', ' ', '"']);
    reveal_strlit("\"\nbase_url = \"");
    assert("\"\nbase_url = \""@ =~= seq!['"', '\n', 'b', 'a', 's', 'e', '_', 'u', 'r', 'l', ' ', '=', ' ', '"']);
    reveal_strlit("http://127.0.0.1:");
    assert("http://127.0.0.1:"@ =~= seq!['h', 't', 't', 'p', ':', '/', '/', '1', '2', '7', '.', '0', '.', '0', '.', '1', ':']);
    reveal_strlit("/v1");
    assert("/v1"@ =~= seq!['/', 'v', '1']);
    reveal_strlit("\"\napi_key = \"local\"\n");
    assert("\"\napi_key = \"local\"\n"@ =~= seq!['"', '\n', 'a', 'p', 'i', '_', 'k', 'e', 'y', ' ', '=', ' ', '"', 'l', 'o', 'c', 'a', 'l', '"', '\n']);
    reveal_strlit("\n");
    assert("\n"@ =~= seq!['\n']);
}

proof fn lemma_marks()
    ensures
        "# BEGIN codex-for-grok owned model: "@.len() > 3,
        "# BEGIN codex-for-grok owned model: "@[0] == '#',
        "# BEGIN codex-for-grok owned model: "@[2] == 'B',
        unmarked("# BEGIN codex-for-grok owned model: "@.skip(1)),
        "# END codex-for-grok owned model: "@.len() > 3,
        "# END codex-for-grok owned model: "@[0] == '#',
        "# END codex-for-grok owned model: "@[2] == 'E',
        unmarked("# END codex-for-grok owned model: "@.skip(1)),
{
    reveal_strlit("# BEGIN codex-for-grok owned model: ");
    assert("# BEGIN codex-for-grok owned model: "@ =~= seq!['#', ' ', 'B', 'E', 'G', 'I', 'N', ' ', 'c', 'o', 'd', 'e', 'x', '-', 'f', 'o', 'r', '-', 'g', 'r', 'o', 'k', ' ', 'o', 'w', 'n', 'e', 'd', ' ', 'm', 'o', 'd', 'e', 'l', ':', ' ']);
    assert("# BEGIN codex-for-grok owned model: "@.skip(1) =~= seq![' ', 'B', 'E', 'G', 'I', 'N', ' ', 'c', 'o', 'd', 'e', 'x', '-', 'f', 'o', 'r', '-', 'g', 'r', 'o', 'k', ' ', 'o', 'w', 'n', 'e', 'd', ' ', 'm', 'o', 'd', 'e', 'l', ':', ' ']);
    reveal_strlit("# END codex-for-grok owned model: ");
    assert("# END codex-for-grok owned model: "@ =~= seq!['#', ' ', 'E', 'N', 'D', ' ', 'c', 'o', 'd', 'e', 'x', '-', 'f', 'o', 'r', '-', 'g', 'r', 'o', 'k', ' ', 'o', 'w', 'n', 'e', 'd', ' ', 'm', 'o', 'd', 'e', 'l', ':', ' ']);
    assert("# END codex-for-grok owned model: "@.skip(1) =~= seq![' ', 'E', 'N', 'D', ' ', 'c', 'o', 'd', 'e', 'x', '-', 'f', 'o', 'r', '-', 'g', 'r', 'o', 'k', ' ', 'o', 'w', 'n', 'e', 'd', ' ', 'm', 'o', 'd', 'e', 'l', ':', ' ']);
}

proof fn lemma_unmarked_sum(left: Seq<char>, right: Seq<char>)
    requires
        unmarked(left),
        unmarked(right),
    ensures
        unmarked(left + right),
{
}

proof fn lemma_unmarked_decimal(n: nat)
    ensures
        unmarked(decimal(n)),
    decreases n,
{
    if n >= 10 {
        lemma_unmarked_decimal(n / 10);
    }
}

/// The part of a block between its two marks.
spec fn block_middle(name: Seq<char>, model: Seq<char>) -> Seq<char> {
    name + "\n[models."@ + name + "]\nname = \""@ + name + "\"\nmodel = \""@ + model
        + "\"\nbase_url = \""@ + bridge_url() + "\"\napi_key = \"local\"\n"@
}

proof fn lemma_block_middle(name: Seq<char>, model: Seq<char>)
    requires
        unmarked(name),
        unmarked(model),
    ensures
        unmarked(block_middle(name, model)),
{
    lemma_unmarked_literals();
    lemma_unmarked_decimal(crate::config::DEFAULT_PORT as nat);
    let port = decimal(crate::config::DEFAULT_PORT as nat);
    lemma_unmarked_sum("http://127.0.0.1:"@, port);
    lemma_unmarked_sum("http://127.0.0.1:"@ + port, "/v1"@);
    let a = name + "\n[models."@;
    lemma_unmarked_sum(name, "\n[models."@);
    let b = a + name;
    lemma_unmarked_sum(a, name);
    let c = b + "]\nname = \""@;
    lemma_unmarked_sum(b, "]\nname = \""@);
    let d = c + name;
    lemma_unmarked_sum(c, name);
    let e = d + "\"\nmodel = \""@;
    lemma_unmarked_sum(d, "\"\nmodel = \""@);
    let f = e + model;
    lemma_unmarked_sum(e, model);
    let g = f + "\"\nbase_url = \""@;
    lemma_unmarked_sum(f, "\"\nbase_url = \""@);
    let h = g + bridge_url();
    lemma_unmarked_sum(g, bridge_url());
    lemma_unmarked_sum(h, "\"\napi_key = \"local\"\n"@);
}

proof fn lemma_block_shape(name: Seq<char>, model: Seq<char>)
    requires
        unmarked(name),
        unmarked(model),
        name.len() > 0,
        name.last() != '\n',
    ensures
        block_shaped(encode_utf8(block_text(name, model))),
        is_ascii_chars(block_text(name, model)),
{
    lemma_marks();
    lemma_unmarked_literals();
    lemma_block_middle(name, model);
    let begin = "# BEGIN codex-for-grok owned model: "@;
    let end = "# END codex-for-grok owned model: "@;
    let middle = block_middle(name, model);
    reveal_strlit("\n");
    let close = name + "\n"@;
    lemma_unmarked_sum(name, "\n"@);
    let text = block_text(name, model);
    assert(text =~= begin + middle + end + close);
    assert forall|i: int| 0 <= i < text.len() implies '\0' <= #[trigger] text[i] <= '\u{7f}' && (text[i]
        == '#' ==> i == 0 || i == begin.len() + middle.len()) by {
        let second = begin.len() as int + middle.len();
        if i < begin.len() {
            if i > 0 {
                assert(begin[i] == begin.skip(1)[i - 1]);
            }
        } else if i < second {
            assert(text[i] == middle[i - begin.len()]);
        } else if i < second + end.len() {
            if i > second {
                assert(end[i - second] == end.skip(1)[i - second - 1]);
            }
        } else {
            assert(text[i] == close[i - second - end.len()]);
        }
    }
    assert(is_ascii_chars(text));
    is_ascii_chars_encode_utf8(text);
    let bytes = encode_utf8(text);
    let second = begin.len() as int + middle.len();
    assert(text[0] == begin[0] && text[2] == begin[2]);
    assert(text[second + 2] == end[2]);
    assert(text[text.len() - 2] == name.last());
    assert forall|k: int| 1 <= k < bytes.len() && #[trigger] bytes[k] == 0x23 implies k + 2
        < bytes.len() && bytes[k + 2] != 0x42 by {
        assert(text[k] == '#');
        assert(k == second);
        assert(bytes[k + 2] == text[k + 2] as u8);
    }
}

/// Two occurrences of a block do not overlap.
proof fn lemma_blocks_do_not_overlap(bytes: Seq<u8>, block: Seq<u8>, first: int, second: int)
    requires
        block_shaped(block),
        stands_at(bytes, block, first),
        stands_at(bytes, block, second),
        first < second,
    ensures
        first + block.len() <= second,
{
    if second < first + block.len() {
        let k = second - first;
        let here = bytes.subrange(first, first + block.len());
        let there = bytes.subrange(second, second + block.len());
        assert(here[k] == bytes[second] && there[0] == bytes[second]);
        assert(block[k] == 0x23);
        assert(here[k + 2] == bytes[second + 2] && there[2] == bytes[second + 2]);
    }
}

/// Once the first of two blocks is gone, the second one stands first where it
/// was written.
proof fn lemma_second_block_stands_first(base: Seq<u8>, first: Seq<u8>, second: Seq<u8>)
    requires
        block_shaped(second),
        base.len() > 0 ==> base.last() == LINE_FEED,
        occurrences(
            base + first + seq![LINE_FEED] + second + seq![LINE_FEED],
            second,
        ) == 1,
    ensures
        stands_first_at(
            base + seq![LINE_FEED] + second + seq![LINE_FEED],
            second,
            base.len() as int + 1,
        ),
{
    let feed = seq![LINE_FEED];
    let whole = base + first + feed + second + feed;
    let left = base + feed + second + feed;
    let at = base.len() as int + 1;
    assert(left.subrange(at, at + second.len()) =~= second);
    let there = base.len() as int + first.len() + 1;
    assert(whole.subrange(there, there + second.len()) =~= second);
    assert(stands_at(whole, second, there));
    assert forall|p: int| 0 <= p < at implies !stands_at(left, second, p) by {
        if stands_at(left, second, p) {
            lemma_blocks_do_not_overlap(left, second, p, at);
            if p + second.len() <= base.len() {
                assert(whole.subrange(p, p + second.len()) =~= left.subrange(
                    p,
                    p + second.len(),
                ));
                assert(stands_at(whole, second, p));
                lemma_single_occurrence(whole, second, p, there);
            } else {
                let here = left.subrange(p, p + second.len());
                assert(here[second.len() - 2] == base.last());
            }
        }
    }
}

proof fn lemma_second_block_comes_out(base: Seq<u8>, second: BlockView)
    requires
        stands_first_at(
            base + seq![LINE_FEED] + encode_utf8(second.bytes) + seq![LINE_FEED],
            encode_utf8(second.bytes),
            base.len() as int + 1,
        ),
    ensures
        without_blocks(
            seq![second],
            base + seq![LINE_FEED] + encode_utf8(second.bytes) + seq![LINE_FEED],
        ) == Some(base + seq![LINE_FEED, LINE_FEED]),
{
    let t = encode_utf8(second.bytes);
    let left = base + seq![LINE_FEED] + t + seq![LINE_FEED];
    let at = base.len() as int + 1;
    lemma_first_position(left, t, at);
    assert(stands_at(left, t, at));
    assert(cut_out(left, at, t.len() as int) =~= base + seq![LINE_FEED, LINE_FEED]);
    assert(seq![second][0] == second);
    assert(seq![second].skip(1) =~= Seq::empty());
    reveal_with_fuel(without_blocks, 2);
}

proof fn lemma_two_blocks(base: Seq<u8>, first: BlockView, second: BlockView)
    ensures
        base + blocks_bytes(seq![first, second]) == base + encode_utf8(first.bytes)
            + seq![LINE_FEED] + encode_utf8(second.bytes) + seq![LINE_FEED],
{
    reveal_with_fuel(blocks_bytes, 3);
    assert(seq![first, second].drop_last() =~= seq![first]);
    assert(seq![first].drop_last() =~= Seq::empty());
    assert(base + blocks_bytes(seq![first, second]) =~= base + encode_utf8(first.bytes)
        + seq![LINE_FEED] + encode_utf8(second.bytes) + seq![LINE_FEED]);
}

/// A block that stands in the configuration once is the first to come out.
proof fn lemma_first_block_comes_out(blocks: Seq<BlockView>, before: Seq<u8>, behind: Seq<u8>)
    requires
        blocks.len() > 0,
        occurrences(
            before + encode_utf8(blocks[0].bytes) + behind,
            encode_utf8(blocks[0].bytes),
        ) == 1,
    ensures
        without_blocks(blocks, before + encode_utf8(blocks[0].bytes) + behind) == without_blocks(
            blocks.skip(1),
            before + behind,
        ),
{
    lemma_cut_once(before, encode_utf8(blocks[0].bytes), behind);
}

proof fn lemma_regrouped(a: Seq<u8>, b: Seq<u8>, c: Seq<u8>, d: Seq<u8>, e: Seq<u8>)
    ensures
        a + b + c + d + e == a + b + (c + d + e),
        a + (c + d + e) == a + c + d + e,
{
    assert(a + b + c + d + e =~= a + b + (c + d + e));
    assert(a + (c + d + e) =~= a + c + d + e);
}

/// The two blocks that setting up has added come out again.
proof fn lemma_two_blocks_come_out(base: Seq<u8>, first: BlockView, second: BlockView)
    requires
        block_shaped(encode_utf8(second.bytes)),
        base.len() > 0 ==> base.last() == LINE_FEED,
        occurrences(base + blocks_bytes(seq![first, second]), encode_utf8(first.bytes)) == 1,
        occurrences(base + blocks_bytes(seq![first, second]), encode_utf8(second.bytes)) == 1,
    ensures
        without_blocks(seq![first, second], base + blocks_bytes(seq![first, second])) == Some(
            base + seq![LINE_FEED, LINE_FEED],
        ),
{
    let s = encode_utf8(first.bytes);
    let t = encode_utf8(second.bytes);
    let feed = seq![LINE_FEED];
    let blocks = seq![first, second];
    lemma_two_blocks(base, first, second);
    lemma_regrouped(base, s, feed, t, feed);
    assert(blocks[0] == first);
    lemma_first_block_comes_out(blocks, base, feed + t + feed);
    assert(blocks.skip(1) =~= seq![second]);
    lemma_second_block_stands_first(base, s, t);
    lemma_second_block_comes_out(base, second);
}

proof fn lemma_one_block_comes_out(base: Seq<u8>, block: BlockView)
    requires
        occurrences(base + blocks_bytes(seq![block]), encode_utf8(block.bytes)) == 1,
    ensures
        without_blocks(seq![block], base + blocks_bytes(seq![block])) == Some(
            base + seq![LINE_FEED],
        ),
{
    let pattern = encode_utf8(block.bytes);
    reveal_with_fuel(blocks_bytes, 2);
    assert(seq![block].drop_last() =~= Seq::empty());
    assert(base + blocks_bytes(seq![block]) =~= base + pattern + seq![LINE_FEED]);
    crate::uninstall::lemma_cutting_keeps_the_rest(base, block, seq![LINE_FEED]);
}

/// The byte of a block by which the two models can be told apart: a letter in
/// the name on its first line.
spec fn telling_byte() -> int {
    "# BEGIN codex-for-grok owned model: "@.len() as int + 6
}

/// The blocks of the two models are blocks, and they differ.
proof fn lemma_both_shapes()
    ensures
        ({
            let sol = encode_utf8(block_text("codex-sol"@, "gpt-5.6-sol"@));
            let terra = encode_utf8(block_text("codex-terra"@, "gpt-5.6-terra"@));
            &&& block_shaped(sol)
            &&& block_shaped(terra)
            &&& told_apart(sol, terra)
            &&& told_apart(terra, sol)
        }),
{
    lemma_unmarked_literals();
    reveal_strlit("codex-sol");
    reveal_strlit("codex-terra");
    lemma_block_shape("codex-sol"@, "gpt-5.6-sol"@);
    lemma_block_shape("codex-terra"@, "gpt-5.6-terra"@);
    let sol = block_text("codex-sol"@, "gpt-5.6-sol"@);
    let terra = block_text("codex-terra"@, "gpt-5.6-terra"@);
    is_ascii_chars_encode_utf8(sol);
    is_ascii_chars_encode_utf8(terra);
    assert(sol[telling_byte()] == "codex-sol"@[6]);
    assert(terra[telling_byte()] == "codex-terra"@[6]);
    assert(sol[telling_byte()] as u8 == 0x73);
    assert(terra[telling_byte()] as u8 == 0x74);
}

/// Whether two blocks differ in the byte that tells the models apart.
spec fn told_apart(one: Seq<u8>, other: Seq<u8>) -> bool {
    &&& telling_byte() < one.len()
    &&& telling_byte() < other.len()
    &&& one[telling_byte()] != other[telling_byte()]
}

/// A block that stands in bytes to which a block was appended stands in the
/// bytes before it, or where the appended block begins.
proof fn lemma_where_a_block_stands(base: Seq<u8>, added: Seq<u8>, block: Seq<u8>, at: int)
    requires
        block_shaped(added),
        block_shaped(block),
        stands_at(base + added + seq![LINE_FEED], block, at),
    ensures
        stands_at(base, block, at) || at == base.len(),
        told_apart(added, block) ==> stands_at(base, block, at),
{
    let bytes = base + added + seq![LINE_FEED];
    let here = bytes.subrange(at, at + block.len());
    let n = base.len() as int;
    assert(bytes[n] == added[0] && bytes[n + 2] == added[2]);
    assert(here[0] == bytes[at] && here[2] == bytes[at + 2]);
    if at + block.len() <= n {
        assert(base.subrange(at, at + block.len()) =~= here);
    } else if at < n {
        let k = n - at;
        assert(block[k] == here[k]);
        assert(block[k + 2] == here[k + 2]);
    } else if at > n {
        let k = at - n;
        assert(k < added.len() ==> bytes[at] == added[k]);
        assert(k + 2 < added.len() ==> bytes[at + 2] == added[k + 2]);
    } else if told_apart(added, block) {
        let k = telling_byte();
        reveal_strlit("# BEGIN codex-for-grok owned model: ");
        assert(here[k] == bytes[n + k]);
        assert(bytes[n + k] == added[k]);
    }
}

/// A block that is appended to bytes without it stands there once.
proof fn lemma_one_block_stands_once(base: Seq<u8>, block: Seq<u8>)
    requires
        block_shaped(block),
        occurrences(base, block) == 0,
    ensures
        occurrences(base + block + seq![LINE_FEED], block) == 1,
{
    let bytes = base + block + seq![LINE_FEED];
    lemma_counted_where_it_stands(base, block);
    assert(bytes.subrange(base.len() as int, base.len() as int + block.len()) =~= block);
    assert forall|other: int| #[trigger] stands_at(bytes, block, other) implies other
        == base.len() by {
        lemma_where_a_block_stands(base, block, block, other);
    }
    lemma_only_occurrence(bytes, block, base.len() as int);
}

/// Two blocks that are appended to bytes without them stand there once each.
proof fn lemma_two_blocks_stand_once(base: Seq<u8>, first: Seq<u8>, second: Seq<u8>)
    requires
        block_shaped(first),
        block_shaped(second),
        told_apart(first, second),
        told_apart(second, first),
        occurrences(base, first) == 0,
        occurrences(base, second) == 0,
    ensures
        ({
            let bytes = base + first + seq![LINE_FEED] + second + seq![LINE_FEED];
            occurrences(bytes, first) == 1 && occurrences(bytes, second) == 1
        }),
{
    let front = base + first + seq![LINE_FEED];
    let bytes = front + second + seq![LINE_FEED];
    let at = base.len() as int;
    lemma_counted_where_it_stands(base, first);
    lemma_counted_where_it_stands(base, second);
    assert(bytes.subrange(at, at + first.len()) =~= first);
    assert forall|other: int| #[trigger] stands_at(bytes, first, other) implies other == at by {
        lemma_where_a_block_stands(front, second, first, other);
        lemma_where_a_block_stands(base, first, first, other);
    }
    lemma_only_occurrence(bytes, first, at);
    lemma_counted_where_it_stands(front, second);
    assert forall|other: int| !#[trigger] stands_at(front, second, other) by {
        if stands_at(front, second, other) {
            lemma_where_a_block_stands(base, first, second, other);
        }
    }
    lemma_one_block_stands_once(front, second);
}

/// Whether a block does not stand in a configuration. Where the configuration
/// does not end in a line break, it must not stand there with one behind it
/// either.
pub open spec fn free_of(old: Seq<u8>, block: Seq<u8>) -> bool {
    &&& occurrences(old, block) == 0
    &&& old.len() > 0 && old.last() != LINE_FEED ==> occurrences(old.push(LINE_FEED), block) == 0
}

/// A block that does not stand in a configuration does not stand in it with the
/// line breaks that part it from what is appended.
proof fn lemma_separator_makes_no_block(old: Seq<u8>, block: Seq<u8>)
    requires
        block_shaped(block),
        free_of(old, block),
    ensures
        occurrences(old + separator(old), block) == 0,
{
    let base = old + separator(old);
    lemma_counted_where_it_stands(old, block);
    lemma_counted_where_it_stands(old.push(LINE_FEED), block);
    lemma_counted_where_it_stands(base, block);
    assert forall|at: int| !#[trigger] stands_at(base, block, at) by {
        if stands_at(base, block, at) {
            let here = base.subrange(at, at + block.len());
            let end = at + block.len();
            assert(here[block.len() - 2] == base[end - 2]);
            if end <= old.len() {
                assert(old.subrange(at, end) =~= here);
                assert(stands_at(old, block, at));
            } else if end == old.len() + 1 && old.last() != LINE_FEED {
                assert(old.push(LINE_FEED).subrange(at, end) =~= here);
                assert(stands_at(old.push(LINE_FEED), block, at));
            }
        }
    }
}

/// What setting up writes passes the check that setting up and uninstalling
/// make: where a configuration without a manifest is set up, and does not hold
/// the appended blocks already, every block that the manifest records stands in
/// the new configuration exactly once.
pub proof fn lemma_setup_passes_its_check(
    path: Seq<u8>,
    config: FileReadView,
    next: Seq<u8>,
    manifest: ManifestView,
)
    requires
        plan_setup(path, config, Ok(None), false) == (SetupView::WriteConfig {
            path,
            old: content_of(config),
            next,
            manifest,
        }),
        forall|i: int|
            0 <= i < manifest.blocks.len() ==> free_of(
                content_of(config),
                encode_utf8((#[trigger] manifest.blocks[i]).bytes),
            ),
    ensures
        manifest_problem(manifest, path, next) is None,
{
    let old = content_of(config);
    let base = old + separator(old);
    let blocks = manifest.blocks;
    let sol = block_record("codex-sol"@, "gpt-5.6-sol"@);
    let terra = block_record("codex-terra"@, "gpt-5.6-terra"@);
    lemma_what_setup_writes(path, config, next, manifest);
    lemma_both_shapes();
    reveal_with_fuel(blocks_problem, 3);
    if blocks.len() == 2 {
        assert(blocks =~= seq![sol, terra]);
        assert(blocks.drop_last() =~= seq![sol]);
        assert(blocks[0] == sol && blocks[1] == terra);
        lemma_separator_makes_no_block(old, encode_utf8(sol.bytes));
        lemma_separator_makes_no_block(old, encode_utf8(terra.bytes));
        lemma_two_blocks(base, sol, terra);
        lemma_two_blocks_stand_once(base, encode_utf8(sol.bytes), encode_utf8(terra.bytes));
    } else {
        let block = blocks[0];
        assert(blocks =~= seq![block]);
        reveal_with_fuel(blocks_bytes, 2);
        assert(blocks.drop_last() =~= Seq::empty());
        assert(base + blocks_bytes(blocks) =~= base + encode_utf8(block.bytes) + seq![LINE_FEED]);
        lemma_separator_makes_no_block(old, encode_utf8(block.bytes));
        lemma_one_block_stands_once(base, encode_utf8(block.bytes));
    }
}

/// Setting up twice is the same as setting up once: where a configuration
/// without a manifest is set up, and did not hold the appended blocks already,
/// setting up the result writes nothing. The result has to read as a document in
/// which both models are described as the bridge describes them.
pub proof fn lemma_setup_twice(
    path: Seq<u8>,
    config: FileReadView,
    next: Seq<u8>,
    manifest: ManifestView,
    document: JsonView,
    dry: bool,
)
    requires
        plan_setup(path, config, Ok(None), false) == (SetupView::WriteConfig {
            path,
            old: content_of(config),
            next,
            manifest,
        }),
        forall|i: int|
            0 <= i < manifest.blocks.len() ==> free_of(
                content_of(config),
                encode_utf8((#[trigger] manifest.blocks[i]).bytes),
            ),
        document_of(next) == Ok::<JsonView, Seq<char>>(document),
        model_entry(document, "codex-luna"@) is None,
        model_entry(document, "codex-sol"@) is Some,
        model_entry(document, "codex-terra"@) is Some,
        alias_problem(document, "codex-sol"@) is None,
        alias_problem(document, "codex-terra"@) is None,
    ensures
        plan_setup(path, FileReadView::Content(next), Ok(Some(manifest)), dry)
            == SetupView::Finished(Ok("already configured; ownership verified"@)),
{
    lemma_setup_passes_its_check(path, config, next, manifest);
    lemma_configured_stays_as_it_is(path, next, document, manifest, dry);
}

/// The old configuration, with nothing but line breaks behind it.
spec fn with_breaks(old: Seq<u8>, count: nat) -> Seq<u8> {
    old + separator(old) + Seq::new(count, |i: int| LINE_FEED)
}

/// Uninstalling undoes setting up. Where a configuration without a manifest is
/// set up, and did not hold the appended blocks already, uninstalling is not
/// refused: it writes the old configuration, byte for byte, with nothing but line
/// breaks behind it, then removes the manifest, and succeeds.
pub proof fn lemma_uninstall_undoes_setup(
    path: Seq<u8>,
    config: FileReadView,
    next: Seq<u8>,
    manifest: ManifestView,
    content: Option<Seq<u8>>,
)
    requires
        plan_setup(path, config, Ok(None), false) == (SetupView::WriteConfig {
            path,
            old: content_of(config),
            next,
            manifest,
        }),
        forall|i: int|
            0 <= i < manifest.blocks.len() ==> free_of(
                content_of(config),
                encode_utf8((#[trigger] manifest.blocks[i]).bytes),
            ),
    ensures
        ({
            let old = content_of(config);
            let task = plan_uninstall(Ok(Some(manifest)), Ok(path), Ok(next), content, false);
            &&& task matches UninstallView::WriteConfig(job)
            &&& job.path == path && job.old == next && job.service is None
            &&& job.next.len() >= old.len() && job.next.take(old.len() as int) == old
            &&& forall|i: int| old.len() <= i < job.next.len() ==> job.next[i] == LINE_FEED
            &&& uninstall_after(task, Ok(())) == UninstallView::RemoveManifest(job)
            &&& uninstall_after(UninstallView::RemoveManifest(job), Ok(()))
                == UninstallView::Finished(
                Ok("uninstalled unchanged bridge-owned configuration and service"@),
            )
        }),
{
    let old = content_of(config);
    let left = with_breaks(old, manifest.blocks.len());
    lemma_setup_passes_its_check(path, config, next, manifest);
    lemma_blocks_come_out(path, config, next, manifest);
    lemma_with_breaks(old, manifest.blocks.len());
    lemma_unserviced_removal(path, next, manifest, left, content);
}

proof fn lemma_with_breaks(old: Seq<u8>, count: nat)
    ensures
        with_breaks(old, count).len() >= old.len(),
        with_breaks(old, count).take(old.len() as int) == old,
        forall|i: int|
            old.len() <= i < with_breaks(old, count).len() ==> with_breaks(old, count)[i]
                == LINE_FEED,
{
    assert(with_breaks(old, count).take(old.len() as int) =~= old);
}

/// How uninstalling goes where no service is recorded.
proof fn lemma_unserviced_removal(
    path: Seq<u8>,
    next: Seq<u8>,
    manifest: ManifestView,
    left: Seq<u8>,
    content: Option<Seq<u8>>,
)
    requires
        manifest.service is None,
        manifest_problem(manifest, path, next) is None,
        without_blocks(manifest.blocks, next) == Some(left),
    ensures
        plan_uninstall(Ok(Some(manifest)), Ok(path), Ok(next), content, false)
            == UninstallView::WriteConfig(
            TransactionView { path, old: next, next: left, service: None },
        ),
{
}

/// The blocks that setting up has added come out of what it has written.
proof fn lemma_blocks_come_out(
    path: Seq<u8>,
    config: FileReadView,
    next: Seq<u8>,
    manifest: ManifestView,
)
    requires
        plan_setup(path, config, Ok(None), false) == (SetupView::WriteConfig {
            path,
            old: content_of(config),
            next,
            manifest,
        }),
        manifest_problem(manifest, path, next) is None,
    ensures
        manifest.service is None,
        without_blocks(manifest.blocks, next) == Some(
            with_breaks(content_of(config), manifest.blocks.len()),
        ),
{
    let old = content_of(config);
    let document = document_of(old)->Ok_0;
    let missing = missing_blocks(document)->Ok_0;
    lemma_what_setup_writes(path, config, next, manifest);
    lemma_both_shapes();
    lemma_missing_come_out(old + separator(old), document, missing);
}

proof fn lemma_what_setup_writes(
    path: Seq<u8>,
    config: FileReadView,
    next: Seq<u8>,
    manifest: ManifestView,
)
    requires
        plan_setup(path, config, Ok(None), false) == (SetupView::WriteConfig {
            path,
            old: content_of(config),
            next,
            manifest,
        }),
    ensures
        missing_blocks(document_of(content_of(config))->Ok_0) == Ok::<Seq<BlockView>, Seq<char>>(
            manifest.blocks,
        ),
        next == content_of(config) + separator(content_of(config)) + blocks_bytes(manifest.blocks),
        manifest.blocks.len() > 0,
        manifest.service is None,
{
    let old = content_of(config);
    let missing = missing_blocks(document_of(old)->Ok_0)->Ok_0;
    assert(Seq::<BlockView>::empty() + missing =~= missing);
}

proof fn lemma_missing_come_out(base: Seq<u8>, document: JsonView, missing: Seq<BlockView>)
    requires
        missing_blocks(document) == Ok::<Seq<BlockView>, Seq<char>>(missing),
        missing.len() > 0,
        base.len() > 0 ==> base.last() == LINE_FEED,
        block_shaped(encode_utf8(block_text("codex-terra"@, "gpt-5.6-terra"@))),
        blocks_problem(missing, base + blocks_bytes(missing)) is None,
    ensures
        without_blocks(missing, base + blocks_bytes(missing)) == Some(
            base + Seq::new(missing.len(), |i: int| LINE_FEED),
        ),
{
    let sol = block_record("codex-sol"@, "gpt-5.6-sol"@);
    let terra = block_record("codex-terra"@, "gpt-5.6-terra"@);
    reveal_with_fuel(blocks_problem, 3);
    if missing.len() == 2 {
        assert(missing =~= seq![sol, terra]);
        assert(missing.drop_last() =~= seq![sol]);
        lemma_two_blocks_come_out(base, sol, terra);
        assert(Seq::new(missing.len(), |i: int| LINE_FEED) =~= seq![LINE_FEED, LINE_FEED]);
    } else {
        assert(missing =~= seq![missing[0]]);
        lemma_one_block_comes_out(base, missing[0]);
        assert(Seq::new(missing.len(), |i: int| LINE_FEED) =~= seq![LINE_FEED]);
    }
}

} // verus!
