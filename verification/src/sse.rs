//! Server-sent events: the decoder that cuts a byte stream into frames.
use vstd::prelude::*;
use vstd::slice::slice_subrange;
use vstd::utf8::{encode_utf8, encode_utf8_decode_utf8, encode_utf8_valid_utf8};
use vstd::utf8::{is_ascii_chars, is_ascii_chars_encode_utf8};

use crate::bytes::copied;
use crate::codec::one_line;
use crate::text::{is_prefix, join, joined, lemma_ascii_byte_is_a_character, lemma_encoded_sum};
use crate::text::{lossy_text, same_text, text_of_bytes, texts};

verus! {

/// The byte of a line feed.
pub const LINE_FEED: u8 = 0x0a;

/// The byte of a carriage return.
pub const CARRIAGE_RETURN: u8 = 0x0d;

/// The byte of a blank.
pub const BLANK: u8 = 0x20;

/// The byte of a colon.
pub const COLON: u8 = 0x3a;

/// One frame of the stream.
#[derive(Debug, PartialEq, Eq)]
pub enum SseFrame {
    /// A comment line, with the two line breaks that end it.
    Comment(Vec<u8>),
    /// The data lines of an event, joined by line breaks.
    Data(String),
    /// The marker at the end of the stream.
    Done,
}

/// What a frame holds.
pub enum FrameView {
    Comment(Seq<u8>),
    Data(Seq<char>),
    Done,
}

impl View for SseFrame {
    type V = FrameView;

    open spec fn view(&self) -> FrameView {
        match self {
            SseFrame::Comment(bytes) => FrameView::Comment(bytes@),
            SseFrame::Data(text) => FrameView::Data(text@),
            SseFrame::Done => FrameView::Done,
        }
    }
}

/// What a sequence of frames holds.
pub open spec fn frames_view(frames: Seq<SseFrame>) -> Seq<FrameView> {
    frames.map_values(|frame: SseFrame| frame@)
}

/// What the decoder holds between two chunks.
#[verifier::ext_equal]
pub struct DecoderView {
    /// The bytes of a line that is not complete yet.
    pub buffer: Seq<u8>,
    /// The data lines of an event that is not complete yet.
    pub lines: Seq<Seq<char>>,
}

/// Cuts a byte stream into frames, however it is split into chunks.
#[derive(Debug)]
pub struct SseDecoder {
    buffer: Vec<u8>,
    data_lines: Vec<String>,
}

impl View for SseDecoder {
    type V = DecoderView;

    closed spec fn view(&self) -> DecoderView {
        DecoderView { buffer: self.buffer@, lines: texts(self.data_lines@) }
    }
}

/// The number of bytes before the first line break, or of all bytes where
/// there is none.
pub open spec fn line_length(bytes: Seq<u8>) -> nat
    decreases bytes.len(),
{
    if bytes.len() == 0 || bytes[0] == LINE_FEED {
        0
    } else {
        1 + line_length(bytes.skip(1))
    }
}

/// A line without the carriage return at its end.
pub open spec fn trimmed(line: Seq<u8>) -> Seq<u8> {
    if line.len() > 0 && line.last() == CARRIAGE_RETURN {
        line.drop_last()
    } else {
        line
    }
}

/// The mark at the start of a data line, `data:`.
pub open spec fn data_mark() -> Seq<u8> {
    seq![0x64u8, 0x61u8, 0x74u8, 0x61u8, COLON]
}

/// What a data line carries: all behind the mark and one blank.
pub open spec fn data_of(line: Seq<u8>) -> Seq<u8> {
    let data = line.skip(5);
    if data.len() > 0 && data[0] == BLANK {
        data.skip(1)
    } else {
        data
    }
}

/// The frame that ends an event with these data lines; none, where there are
/// no data lines.
pub open spec fn event_frames(lines: Seq<Seq<char>>) -> Seq<FrameView> {
    if lines.len() == 0 {
        Seq::empty()
    } else if joined(lines, "\n"@) == "[DONE]"@ {
        seq![FrameView::Done]
    } else {
        seq![FrameView::Data(joined(lines, "\n"@))]
    }
}

/// The data lines once one more line has come in.
pub open spec fn lines_after(lines: Seq<Seq<char>>, line: Seq<u8>) -> Seq<Seq<char>> {
    if line.len() == 0 {
        Seq::empty()
    } else if is_prefix(data_mark(), line) {
        lines.push(lossy_text(data_of(line)))
    } else {
        lines
    }
}

/// The frames that a line completes.
pub open spec fn frames_of(lines: Seq<Seq<char>>, line: Seq<u8>) -> Seq<FrameView> {
    if line.len() == 0 {
        event_frames(lines)
    } else if line[0] == COLON && lines.len() == 0 {
        seq![FrameView::Comment(line + seq![LINE_FEED, LINE_FEED])]
    } else {
        Seq::empty()
    }
}

/// What is left in the decoder once every complete line of its buffer has been
/// read.
pub open spec fn settled(state: DecoderView) -> DecoderView
    decreases state.buffer.len(),
{
    let length = line_length(state.buffer) as int;
    if length >= state.buffer.len() {
        state
    } else {
        settled(
            DecoderView {
                buffer: state.buffer.skip(length + 1),
                lines: lines_after(state.lines, trimmed(state.buffer.take(length))),
            },
        )
    }
}

/// The frames that the complete lines of the buffer give.
pub open spec fn decoded(state: DecoderView) -> Seq<FrameView>
    decreases state.buffer.len(),
{
    let length = line_length(state.buffer) as int;
    if length >= state.buffer.len() {
        Seq::empty()
    } else {
        let line = trimmed(state.buffer.take(length));
        frames_of(state.lines, line) + decoded(
            DecoderView {
                buffer: state.buffer.skip(length + 1),
                lines: lines_after(state.lines, line),
            },
        )
    }
}

/// The decoder with a chunk behind its buffer.
pub open spec fn fed(state: DecoderView, chunk: Seq<u8>) -> DecoderView {
    DecoderView { buffer: state.buffer + chunk, ..state }
}

/// A decoder that has read nothing yet.
pub open spec fn fresh() -> DecoderView {
    DecoderView { buffer: Seq::empty(), lines: Seq::empty() }
}

/// The bytes of an event with one line of data.
pub open spec fn event_bytes(text: Seq<char>) -> Seq<u8> {
    encode_utf8("data: "@ + text + "\n\n"@)
}

proof fn lemma_event_bytes(text: Seq<char>)
    ensures
        event_bytes(text) == data_mark().push(BLANK) + encode_utf8(text) + seq![
            LINE_FEED,
            LINE_FEED,
        ],
{
    reveal_strlit("data: ");
    reveal_strlit("\n\n");
    lemma_encoded_sum("data: "@ + text, "\n\n"@);
    lemma_encoded_sum("data: "@, text);
    assert(is_ascii_chars("data: "@));
    assert(is_ascii_chars("\n\n"@));
    is_ascii_chars_encode_utf8("data: "@);
    is_ascii_chars_encode_utf8("\n\n"@);
    assert("data: "@ =~= seq!['d', 'a', 't', 'a', ':', ' ']);
    assert("\n\n"@ =~= seq!['\n', '\n']);
    assert(encode_utf8("data: "@) =~= data_mark().push(BLANK));
    assert(encode_utf8("\n\n"@) =~= seq![LINE_FEED, LINE_FEED]);
}

proof fn lemma_encoded_line(text: Seq<char>)
    requires
        one_line(text),
    ensures
        forall|i: int|
            0 <= i < encode_utf8(text).len() ==> #[trigger] encode_utf8(text)[i] != LINE_FEED
                && encode_utf8(text)[i] != CARRIAGE_RETURN,
{
    assert forall|i: int| 0 <= i < encode_utf8(text).len() implies #[trigger] encode_utf8(text)[i]
        != LINE_FEED && encode_utf8(text)[i] != CARRIAGE_RETURN by {
        if encode_utf8(text)[i] < 0x80 {
            lemma_ascii_byte_is_a_character(text, i);
        }
    }
}

/// An event with one line of data is read back: a decoder that has read nothing
/// yet gives one frame with the same text, and holds nothing afterwards. The text
/// is not the marker at the end of the stream.
pub proof fn lemma_event_is_read_back(text: Seq<char>)
    requires
        one_line(text),
        text != "[DONE]"@,
    ensures
        decoded(fed(fresh(), event_bytes(text))) == seq![FrameView::Data(text)],
        settled(fed(fresh(), event_bytes(text))) == fresh(),
{
    let data = encode_utf8(text);
    let line = data_mark().push(BLANK) + data;
    let bytes = line + seq![LINE_FEED, LINE_FEED];
    lemma_event_bytes(text);
    lemma_encoded_line(text);
    let first = fed(fresh(), event_bytes(text));
    assert(first.buffer =~= bytes);
    lemma_line_length(bytes, line.len() as int);
    assert(bytes.take(line.len() as int) =~= line);
    assert(trimmed(line) == line);
    assert(line.subrange(0, 5) =~= data_mark());
    assert(line.skip(5).skip(1) =~= data);
    assert(data_of(line) == data);
    encode_utf8_valid_utf8(text);
    encode_utf8_decode_utf8(text);
    assert(lines_after(Seq::empty(), line) =~= seq![text]);
    assert(frames_of(Seq::empty(), line) =~= Seq::<FrameView>::empty());
    let second = DecoderView {
        buffer: bytes.skip(line.len() as int + 1),
        lines: lines_after(Seq::empty(), line),
    };
    assert(second.buffer =~= seq![LINE_FEED]);
    lemma_line_length(second.buffer, 0);
    assert(second.buffer.take(0) =~= Seq::<u8>::empty());
    let third = DecoderView { buffer: second.buffer.skip(1), lines: Seq::empty() };
    assert(third =~= fresh());
    lemma_line_length(third.buffer, 0);
    assert(joined(seq![text], "\n"@) == text);
    assert(decoded(third) =~= Seq::<FrameView>::empty());
    assert(decoded(second) =~= seq![FrameView::Data(text)]);
    assert(decoded(first) =~= seq![FrameView::Data(text)]);
    assert(settled(third) == third);
    assert(settled(second) == settled(third));
    assert(settled(first) == settled(second));
}

/// A line is as long as there are bytes before its line break.
pub proof fn lemma_line_length(bytes: Seq<u8>, length: int)
    requires
        0 <= length <= bytes.len(),
        forall|i: int| 0 <= i < length ==> bytes[i] != LINE_FEED,
        length < bytes.len() ==> bytes[length] == LINE_FEED,
    ensures
        line_length(bytes) == length,
    decreases bytes.len(),
{
    if bytes.len() > 0 && length > 0 {
        assert(bytes[0] != LINE_FEED);
        assert forall|i: int| 0 <= i < length - 1 implies bytes.skip(1)[i] != LINE_FEED by {
            assert(bytes[i + 1] != LINE_FEED);
        }
        lemma_line_length(bytes.skip(1), length - 1);
    }
}

proof fn lemma_line_length_of_more(bytes: Seq<u8>, more: Seq<u8>)
    requires
        line_length(bytes) < bytes.len(),
    ensures
        line_length(bytes + more) == line_length(bytes),
    decreases bytes.len(),
{
    if bytes.len() > 0 && bytes[0] != LINE_FEED {
        lemma_line_length_of_more(bytes.skip(1), more);
        assert((bytes + more).skip(1) =~= bytes.skip(1) + more);
    }
}

/// How the stream is cut into chunks does not matter: to feed two chunks one
/// after the other gives the frames, and leaves the decoder in the state, that
/// feeding both at once does.
pub proof fn lemma_chunks_do_not_matter(state: DecoderView, first: Seq<u8>, second: Seq<u8>)
    ensures
        settled(fed(settled(fed(state, first)), second)) == settled(fed(state, first + second)),
        decoded(fed(state, first)) + decoded(fed(settled(fed(state, first)), second)) == decoded(
            fed(state, first + second),
        ),
{
    assert(fed(fed(state, first), second) =~= fed(state, first + second));
    lemma_more_after_settling(fed(state, first), second);
}

proof fn lemma_more_after_settling(state: DecoderView, more: Seq<u8>)
    ensures
        settled(fed(settled(state), more)) == settled(fed(state, more)),
        decoded(state) + decoded(fed(settled(state), more)) == decoded(fed(state, more)),
    decreases state.buffer.len(),
{
    let length = line_length(state.buffer) as int;
    if length >= state.buffer.len() {
        assert(decoded(state) + decoded(fed(state, more)) =~= decoded(fed(state, more)));
    } else {
        let line = trimmed(state.buffer.take(length));
        let rest = DecoderView {
            buffer: state.buffer.skip(length + 1),
            lines: lines_after(state.lines, line),
        };
        lemma_line_length_of_more(state.buffer, more);
        let whole = state.buffer + more;
        assert(whole.take(length) =~= state.buffer.take(length));
        assert(whole.skip(length + 1) =~= state.buffer.skip(length + 1) + more);
        lemma_more_after_settling(rest, more);
        assert(frames_of(state.lines, line) + decoded(rest) + decoded(fed(settled(rest), more))
            =~= frames_of(state.lines, line) + (decoded(rest) + decoded(
            fed(settled(rest), more),
        )));
    }
}

/// Between two chunks the decoder never holds a complete line.
pub proof fn lemma_settled_holds_no_line(state: DecoderView)
    ensures
        !settled(state).buffer.contains(LINE_FEED),
    decreases state.buffer.len(),
{
    let length = line_length(state.buffer) as int;
    if length >= state.buffer.len() {
        lemma_no_line_break(state.buffer);
    } else {
        lemma_settled_holds_no_line(
            DecoderView {
                buffer: state.buffer.skip(length + 1),
                lines: lines_after(state.lines, trimmed(state.buffer.take(length))),
            },
        );
    }
}

proof fn lemma_no_line_break(bytes: Seq<u8>)
    requires
        line_length(bytes) >= bytes.len(),
    ensures
        !bytes.contains(LINE_FEED),
    decreases bytes.len(),
{
    if bytes.len() > 0 {
        lemma_no_line_break(bytes.skip(1));
        assert forall|i: int| 0 <= i < bytes.len() implies bytes[i] != LINE_FEED by {
            if i > 0 {
                assert(bytes.skip(1)[i - 1] == bytes[i]);
                assert(bytes.skip(1).contains(bytes[i]));
            }
        }
    }
}

impl Default for SseDecoder {
    /// A decoder that has read nothing yet.
    fn default() -> (decoder: SseDecoder)
        ensures
            decoder@ == fresh(),
    {
        let data_lines: Vec<String> = Vec::new();
        assert(texts(data_lines@) =~= Seq::empty());
        SseDecoder { buffer: Vec::new(), data_lines }
    }
}

fn starts_with_data_mark(line: &[u8]) -> (r: bool)
    ensures
        r == is_prefix(data_mark(), line@),
{
    let found = line.len() >= 5 && line[0] == 0x64 && line[1] == 0x61 && line[2] == 0x74 && line[3]
        == 0x61 && line[4] == COLON;
    proof {
        if found {
            assert(line@.subrange(0, 5) =~= data_mark());
        } else if line@.len() >= 5 {
            let start = line@.subrange(0, 5);
            assert(start[0] == line@[0] && start[1] == line@[1] && start[2] == line@[2] && start[3]
                == line@[3] && start[4] == line@[4]);
        }
    }
    found
}

impl SseDecoder {
    /// Ends the event that is being read: its data lines become one frame.
    pub fn flush(&mut self, frames: &mut Vec<SseFrame>)
        ensures
            final(self)@ == (DecoderView { lines: Seq::empty(), ..old(self)@ }),
            frames_view(final(frames)@) == frames_view(old(frames)@) + event_frames(
                old(self)@.lines,
            ),
    {
        if self.data_lines.len() == 0 {
            assert(self@.lines =~= Seq::empty());
            assert(frames_view(frames@) + event_frames(self@.lines) =~= frames_view(frames@));
            return;
        }
        let ghost before = frames@;
        let data = join(&self.data_lines, "\n");
        self.data_lines = Vec::new();
        assert(texts(self.data_lines@) =~= Seq::empty());
        if same_text(data.as_str(), "[DONE]") {
            frames.push(SseFrame::Done);
        } else {
            frames.push(SseFrame::Data(data));
        }
        assert(frames_view(frames@) =~= frames_view(before) + seq![frames@.last()@]);
    }

    fn read_line(&mut self, line: &[u8], frames: &mut Vec<SseFrame>)
        ensures
            final(self)@ == (DecoderView { lines: lines_after(old(self)@.lines, line@), ..old(self)@ }),
            frames_view(final(frames)@) == frames_view(old(frames)@) + frames_of(
                old(self)@.lines,
                line@,
            ),
    {
        let ghost before = frames@;
        if line.len() == 0 {
            self.flush(frames);
        } else if starts_with_data_mark(line) {
            let behind = slice_subrange(line, 5, line.len());
            assert(behind@ =~= line@.skip(5));
            assert(line@[0] == line@.subrange(0, 5)[0]);
            let data = if behind.len() > 0 && behind[0] == BLANK {
                slice_subrange(behind, 1, behind.len())
            } else {
                behind
            };
            assert(data@ =~= data_of(line@));
            self.data_lines.push(text_of_bytes(data));
            assert(texts(self.data_lines@) =~= lines_after(old(self)@.lines, line@));
            assert(frames_view(frames@) =~= frames_view(before) + frames_of(
                old(self)@.lines,
                line@,
            ));
        } else if line[0] == COLON && self.data_lines.len() == 0 {
            let mut comment = copied(line);
            comment.push(LINE_FEED);
            comment.push(LINE_FEED);
            assert(comment@ =~= line@ + seq![LINE_FEED, LINE_FEED]);
            frames.push(SseFrame::Comment(comment));
            assert(frames_view(frames@) =~= frames_view(before) + seq![frames@.last()@]);
        } else {
            assert(frames_view(frames@) =~= frames_view(before) + frames_of(
                old(self)@.lines,
                line@,
            ));
        }
    }

    /// Reads a chunk; the frames that it completes come out, in order.
    pub fn push(&mut self, chunk: &[u8]) -> (frames: Vec<SseFrame>)
        ensures
            final(self)@ == settled(fed(old(self)@, chunk@)),
            frames_view(frames@) == decoded(fed(old(self)@, chunk@)),
    {
        let mut bytes: Vec<u8> = Vec::new();
        std::mem::swap(&mut bytes, &mut self.buffer);
        bytes.extend_from_slice(chunk);
        let ghost whole = fed(old(self)@, chunk@);
        assert(bytes@ =~= whole.buffer);
        let mut frames: Vec<SseFrame> = Vec::new();
        let mut start: usize = 0;
        let mut at: usize = 0;
        proof {
            assert(bytes@.skip(0) =~= bytes@);
            assert(frames_view(frames@) =~= Seq::empty());
            assert(frames_view(frames@) + decoded(whole) =~= decoded(whole));
        }
        while at < bytes.len()
            invariant
                start <= at <= bytes@.len(),
                forall|i: int| start <= i < at ==> bytes@[i] != LINE_FEED,
                settled(whole) == settled(
                    DecoderView { buffer: bytes@.skip(start as int), lines: self@.lines },
                ),
                decoded(whole) == frames_view(frames@) + decoded(
                    DecoderView { buffer: bytes@.skip(start as int), lines: self@.lines },
                ),
            decreases bytes@.len() - at,
        {
            if bytes[at] == LINE_FEED {
                let ghost held = DecoderView {
                    buffer: bytes@.skip(start as int),
                    lines: self@.lines,
                };
                let ghost length = at - start;
                proof {
                    lemma_line_length(held.buffer, length);
                    assert(held.buffer.take(length) =~= bytes@.subrange(start as int, at as int));
                    assert(held.buffer.skip(length + 1) =~= bytes@.skip(at + 1));
                }
                let end: usize = if at > start && bytes[at - 1] == CARRIAGE_RETURN {
                    at - 1
                } else {
                    at
                };
                let line = slice_subrange(bytes.as_slice(), start, end);
                assert(line@ =~= trimmed(held.buffer.take(length)));
                let ghost before = frames_view(frames@);
                self.read_line(line, &mut frames);
                assert(before + (frames_of(held.lines, line@) + decoded(
                    DecoderView { buffer: bytes@.skip(at + 1), lines: self@.lines },
                )) =~= frames_view(frames@) + decoded(
                    DecoderView { buffer: bytes@.skip(at + 1), lines: self@.lines },
                ));
                start = at + 1;
            }
            at = at + 1;
        }
        proof {
            lemma_line_length(bytes@.skip(start as int), bytes@.len() - start);
        }
        let rest = slice_subrange(bytes.as_slice(), start, bytes.len());
        self.buffer = copied(rest);
        assert(self.buffer@ =~= bytes@.skip(start as int));
        assert(frames_view(frames@) + Seq::<FrameView>::empty() =~= frames_view(frames@));
        frames
    }
}

} // verus!
