//! What passing a stream on means: laws on the lines of the upstream's stream, on
//! its events, and on how it ends.
use vstd::prelude::*;
use vstd::utf8::encode_utf8;

use crate::codec::{json_of_text, text_of_json};
use crate::json::{lookup, JsonView};
use crate::relay::{end_outcome, end_outputs, outputs_of_event, outputs_of_frame};
use crate::relay::{outputs_of_chunk, outputs_of_frames, relay_after_chunk, relay_after_event};
use crate::relay::{relay_after_frame, relay_after_frames, Outcome, OutputView, RelayView, StreamEnd};
use crate::sse::{decoded, fed, lemma_line_length, settled, DecoderView, FrameView};
use crate::stream::{failure_event, forwarded, next_state, reported_usage, sse_bytes};
use crate::text::{joined, lossy_text};

verus! {

/// Whether bytes hold no line break.
pub open spec fn is_unbroken(bytes: Seq<u8>) -> bool {
    forall|i: int| 0 <= i < bytes.len() ==> bytes[i] != 0x0a
}

/// A piece of a line is kept until the line is complete.
pub proof fn lemma_a_piece_of_a_line(state: DecoderView, chunk: Seq<u8>)
    requires
        is_unbroken(state.buffer + chunk),
    ensures
        decoded(fed(state, chunk)) == Seq::<FrameView>::empty(),
        settled(fed(state, chunk)).buffer == state.buffer + chunk,
        settled(fed(state, chunk)).lines == state.lines,
{
    lemma_line_length(state.buffer + chunk, (state.buffer + chunk).len() as int);
}

/// What the end of a line does, by what the line holds; a carriage return at its
/// end does not count. An empty line ends an event: its data lines are one frame,
/// or the end of the stream. A data line is added to the event, without its mark
/// and one blank behind it. A comment that stands outside an event is a frame of
/// its own. Any other line is passed over.
pub proof fn lemma_the_end_of_a_line(state: DecoderView, chunk: Seq<u8>, line: Seq<u8>)
    requires
        is_unbroken(line),
        line.len() == 0 || line.last() != 0x0d,
        state.buffer + chunk == line.push(0x0a) || state.buffer + chunk == line.push(0x0d).push(
            0x0a,
        ),
    ensures
        ({
            let frames = decoded(fed(state, chunk));
            let after = settled(fed(state, chunk));
            let is_data = line.len() >= 5 && line[0] == 0x64 && line[1] == 0x61 && line[2] == 0x74
                && line[3] == 0x61 && line[4] == 0x3a;
            let data = if line.len() >= 6 && line[5] == 0x20 {
                line.skip(6)
            } else {
                line.skip(5)
            };
            &&& after.buffer == Seq::<u8>::empty()
            &&& line.len() == 0 ==> {
                &&& after.lines == Seq::<Seq<char>>::empty()
                &&& state.lines.len() == 0 ==> frames == Seq::<FrameView>::empty()
                &&& state.lines.len() > 0 && joined(state.lines, "\n"@) == "[DONE]"@ ==> frames
                    == seq![FrameView::Done]
                &&& state.lines.len() > 0 && joined(state.lines, "\n"@) != "[DONE]"@ ==> frames
                    == seq![FrameView::Data(joined(state.lines, "\n"@))]
            }
            &&& is_data ==> frames == Seq::<FrameView>::empty() && after.lines == state.lines.push(
                lossy_text(data),
            )
            &&& line.len() > 0 && line[0] == 0x3a && state.lines.len() == 0 ==> after.lines
                == state.lines && frames == seq![
                FrameView::Comment(line + seq![0x0au8, 0x0au8]),
            ]
            &&& line.len() > 0 && !is_data && !(line[0] == 0x3a && state.lines.len() == 0)
                ==> after.lines == state.lines && frames == Seq::<FrameView>::empty()
        }),
{
    let whole = state.buffer + chunk;
    let length = whole.len() - 1;
    let first = fed(state, chunk);
    assert(first.buffer == whole);
    assert forall|i: int| 0 <= i < length implies whole[i] != 0x0a by {
        if i < line.len() {
            assert(whole[i] == line[i]);
        }
    }
    lemma_line_length(whole, length);
    let taken = whole.take(length);
    assert(taken =~= line || taken =~= line.push(0x0d));
    assert(taken == line.push(0x0d) ==> taken.drop_last() =~= line);
    let read = crate::sse::trimmed(taken);
    assert(read == line);
    if line.len() >= 5 {
        let start = line.subrange(0, 5);
        let mark = crate::sse::data_mark();
        assert(start[0] == line[0] && start[1] == line[1] && start[2] == line[2] && start[3]
            == line[3] && start[4] == line[4]);
        if line[0] == 0x64 && line[1] == 0x61 && line[2] == 0x74 && line[3] == 0x61 && line[4]
            == 0x3a {
            assert(start =~= mark);
            if line.len() >= 6 {
                assert(line.skip(5)[0] == line[5]);
                assert(line.skip(5).skip(1) =~= line.skip(6));
            }
        }
    }
    let rest = DecoderView {
        buffer: whole.skip(length + 1),
        lines: crate::sse::lines_after(state.lines, line),
    };
    assert(rest.buffer =~= Seq::empty());
    lemma_line_length(rest.buffer, 0);
    assert(decoded(rest) =~= Seq::empty());
    assert(settled(rest) == rest);
    assert(settled(first) == rest);
    assert(decoded(first) =~= crate::sse::frames_of(state.lines, line));
}

/// Whether an event tells that the response is made by another model.
pub open spec fn tells_of_another_model(event: JsonView, model: Seq<char>) -> bool {
    event matches JsonView::Object(fields) && {
        &&& lookup(fields, "type"@) == Some(JsonView::Text("response.created"@))
        &&& lookup(fields, "response"@) matches Some(JsonView::Object(response))
        &&& lookup(response, "model"@) matches Some(JsonView::Text(named))
        &&& named != model
    }
}

/// What an event of the upstream does. One that is no JSON, and one that tells of
/// another model, ends the stream, and the client is told why. Any other changes
/// nothing but what the stream has shown.
pub proof fn lemma_events_that_end_the_stream(relay: RelayView, event: Option<JsonView>)
    ensures
        ({
            let after = relay_after_event(relay, event);
            let sent = outputs_of_event(relay, event);
            &&& after.model == relay.model && after.decoder == relay.decoder
            &&& match event {
                None => {
                    &&& after.outcome == Some(Outcome::Failed)
                    &&& sent == seq![
                        OutputView::Send(
                            sse_bytes(
                                failure_event(
                                    "malformed_upstream_event"@,
                                    "Codex sent an invalid stream event"@,
                                ),
                            ),
                        ),
                    ]
                },
                Some(event) => if tells_of_another_model(event, relay.model) {
                    &&& after.outcome == Some(Outcome::Failed)
                    &&& sent == seq![
                        OutputView::Send(
                            sse_bytes(
                                failure_event(
                                    "upstream_model_mismatch"@,
                                    "Codex selected a model different from the requested model"@,
                                ),
                            ),
                        ),
                    ]
                } else {
                    &&& after.outcome == relay.outcome
                    &&& after.transformer == next_state(relay.transformer, event)
                },
            }
        }),
{
}

/// An event goes to the client as one line of data and an empty line.
pub proof fn lemma_how_an_event_is_sent(event: JsonView)
    ensures
        sse_bytes(event) == encode_utf8("data: "@ + text_of_json(event) + "\n\n"@),
{
}

/// What the client gets of an event that does not end the stream: the event as it
/// is rewritten, or nothing. The tokens of a response are reported once, with its
/// last event, and that event is remembered.
pub proof fn lemma_what_the_client_gets(relay: RelayView, event: JsonView)
    requires
        !tells_of_another_model(event, relay.model),
    ensures
        ({
            let after = relay_after_event(relay, Some(event));
            let outputs = outputs_of_event(relay, Some(event));
            match forwarded(relay.transformer, event) {
                None => outputs == Seq::<OutputView>::empty() && after.saw_completed
                    == relay.saw_completed,
                Some(sent) => {
                    let last = sent matches JsonView::Object(fields) && lookup(fields, "type"@)
                        == Some(JsonView::Text("response.completed"@));
                    &&& after.saw_completed == (relay.saw_completed || last)
                    &&& outputs == (if last && reported_usage(sent) is Some {
                        seq![
                            OutputView::Usage(reported_usage(sent)->Some_0),
                            OutputView::Send(sse_bytes(sent)),
                        ]
                    } else {
                        seq![OutputView::Send(sse_bytes(sent))]
                    })
                },
            }
        }),
{
    if let Some(sent) = forwarded(relay.transformer, event) {
        if let Some(usage) = reported_usage(sent) {
            assert(seq![OutputView::Usage(usage)] + seq![OutputView::Send(sse_bytes(sent))] =~= seq![
                OutputView::Usage(usage),
                OutputView::Send(sse_bytes(sent)),
            ]);
        }
    }
}

/// What a frame does: a comment and the end of the stream go to the client as they
/// are and change nothing, and data is an event.
pub proof fn lemma_what_a_frame_does(relay: RelayView, frame: FrameView)
    ensures
        match frame {
            FrameView::Comment(bytes) => relay_after_frame(relay, frame) == relay
                && outputs_of_frame(relay, frame) == seq![OutputView::Send(bytes)],
            FrameView::Done => relay_after_frame(relay, frame) == relay && outputs_of_frame(
                relay,
                frame,
            ) == seq![OutputView::Send(encode_utf8("data: [DONE]\n\n"@))],
            FrameView::Data(text) => relay_after_frame(relay, frame) == relay_after_event(
                relay,
                json_of_text(text),
            ) && outputs_of_frame(relay, frame) == outputs_of_event(relay, json_of_text(text)),
        },
{
}

/// Frames are read one by one, in order, until the stream has ended.
pub proof fn lemma_frames_go_one_by_one(
    relay: RelayView,
    frame: FrameView,
    frames: Seq<FrameView>,
)
    ensures
        relay_after_frames(relay, Seq::empty()) == relay,
        outputs_of_frames(relay, Seq::empty()) == Seq::<OutputView>::empty(),
        relay.outcome is Some ==> relay_after_frames(relay, frames) == relay && outputs_of_frames(
            relay,
            frames,
        ) == Seq::<OutputView>::empty(),
        relay.outcome is None ==> relay_after_frames(relay, seq![frame] + frames)
            == relay_after_frames(relay_after_frame(relay, frame), frames),
        relay.outcome is None ==> outputs_of_frames(relay, seq![frame] + frames)
            == outputs_of_frame(relay, frame) + outputs_of_frames(
            relay_after_frame(relay, frame),
            frames,
        ),
{
    assert((seq![frame] + frames).skip(1) =~= frames);
    assert((seq![frame] + frames)[0] == frame);
}

/// A chunk gives what the frames in it give, and nothing once the stream has ended.
pub proof fn lemma_what_a_chunk_does(relay: RelayView, chunk: Seq<u8>)
    ensures
        relay.outcome is Some ==> relay_after_chunk(relay, chunk) == relay && outputs_of_chunk(
            relay,
            chunk,
        ) == Seq::<OutputView>::empty(),
        relay.outcome is None ==> ({
            let frames = decoded(fed(relay.decoder, chunk));
            let held = RelayView { decoder: settled(fed(relay.decoder, chunk)), ..relay };
            &&& outputs_of_chunk(relay, chunk) == outputs_of_frames(held, frames)
            &&& relay_after_chunk(relay, chunk) == relay_after_frames(held, frames)
        }),
{
}

/// How a stream ends: with success if it was closed after the last event of the
/// response, and then silently; else the client is told what has gone wrong.
pub proof fn lemma_how_a_stream_ends(saw_completed: bool, end: StreamEnd)
    ensures
        end_outcome(saw_completed, end) == Outcome::Completed <==> end == StreamEnd::Closed
            && saw_completed,
        end_outcome(saw_completed, end) == Outcome::Truncated <==> end == StreamEnd::Closed
            && !saw_completed,
        end == StreamEnd::Closed && saw_completed ==> end_outputs(saw_completed, end)
            == Seq::<OutputView>::empty(),
        end == StreamEnd::Closed && !saw_completed ==> end_outputs(saw_completed, end) == seq![
            OutputView::Send(
                sse_bytes(
                    failure_event(
                        "upstream_stream_truncated"@,
                        "Codex ended the stream before completing the response"@,
                    ),
                ),
            ),
        ],
        end == StreamEnd::Broken ==> end_outputs(saw_completed, end) == seq![
            OutputView::Send(
                sse_bytes(
                    failure_event(
                        "upstream_stream_error"@,
                        "Codex closed the stream unexpectedly"@,
                    ),
                ),
            ),
        ],
        end == StreamEnd::Idle ==> end_outputs(saw_completed, end) == seq![
            OutputView::Send(
                sse_bytes(
                    failure_event(
                        "upstream_stream_idle_timeout"@,
                        "Codex did not send a stream event before the idle timeout"@,
                    ),
                ),
            ),
        ],
        Outcome::Completed.word() == "completed"@,
        Outcome::Truncated.word() == "truncated"@,
        Outcome::Failed.word() == "failed"@,
{
}

} // verus!
