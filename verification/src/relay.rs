//! Passing a response on: the chunks of the upstream in, the bytes for the
//! client out, until the stream has ended one way or another.
use vstd::prelude::*;
use vstd::utf8::encode_utf8;

use crate::codec::{json_of_text, parse_text};
use crate::json::{optional_view, text_of, Json, JsonView};
use crate::sse::{decoded, fed, frames_view, settled, DecoderView, FrameView, SseDecoder, SseFrame};
use crate::stream::{failed_event, failure_event, forwarded, nested, nested_field, next_state};
use crate::stream::{reported_usage, sse_bytes, sse_data, usage_from_completed, ObservedUsage};
use crate::stream::{StreamTransformer, StreamView};
use crate::text::{is_text, same_text};

verus! {

/// How a stream has ended.
#[derive(Clone, Copy, Debug, PartialEq, Eq, Structural)]
pub enum Outcome {
    Completed,
    Truncated,
    Failed,
}

impl Outcome {
    /// The word for the outcome.
    pub open spec fn word(self) -> Seq<char> {
        match self {
            Outcome::Completed => "completed"@,
            Outcome::Truncated => "truncated"@,
            Outcome::Failed => "failed"@,
        }
    }

    /// The word for the outcome.
    pub fn text(&self) -> (text: &'static str)
        ensures
            text@ == self.word(),
    {
        match self {
            Outcome::Completed => "completed",
            Outcome::Truncated => "truncated",
            Outcome::Failed => "failed",
        }
    }
}

/// What comes of passing a stream on.
#[derive(Debug, PartialEq, Eq)]
pub enum Output {
    /// Bytes for the client.
    Send(Vec<u8>),
    /// The tokens that the response used.
    Usage(ObservedUsage),
}

/// What an output holds.
pub enum OutputView {
    Send(Seq<u8>),
    Usage(ObservedUsage),
}

impl View for Output {
    type V = OutputView;

    open spec fn view(&self) -> OutputView {
        match self {
            Output::Send(bytes) => OutputView::Send(bytes@),
            Output::Usage(usage) => OutputView::Usage(*usage),
        }
    }
}

/// What a sequence of outputs holds.
pub open spec fn outputs_view(outputs: Seq<Output>) -> Seq<OutputView> {
    outputs.map_values(|output: Output| output@)
}

/// What is known of a stream that is being passed on.
pub struct RelayView {
    pub model: Seq<char>,
    pub decoder: DecoderView,
    pub transformer: StreamView,
    pub saw_completed: bool,
    /// How the stream has ended; none, while it goes on.
    pub outcome: Option<Outcome>,
}

/// A stream that is being passed on.
pub struct Relay {
    model: String,
    decoder: SseDecoder,
    transformer: StreamTransformer,
    saw_completed: bool,
    outcome: Option<Outcome>,
}

impl View for Relay {
    type V = RelayView;

    closed spec fn view(&self) -> RelayView {
        RelayView {
            model: self.model@,
            decoder: self.decoder@,
            transformer: self.transformer@,
            saw_completed: self.saw_completed,
            outcome: self.outcome,
        }
    }
}

/// The event that tells the client of a failure.
pub open spec fn failure_output(code: Seq<char>, message: Seq<char>) -> Seq<OutputView> {
    seq![OutputView::Send(sse_bytes(failure_event(code, message)))]
}

/// Whether an event says that another model was chosen than the one that was
/// asked for.
pub open spec fn names_other_model(model: Seq<char>, payload: JsonView) -> bool {
    payload.text_field("type"@) == Some("response.created"@) && match text_of(
        nested_field(payload, "response"@, "model"@),
    ) {
        Some(named) => named != model,
        None => false,
    }
}

/// Whether an event completes the response.
pub open spec fn completes(payload: JsonView) -> bool {
    payload.text_field("type"@) == Some("response.completed"@)
}

/// What is known once an event has been read; none stands for an event that is
/// not JSON.
pub open spec fn relay_after_event(relay: RelayView, payload: Option<JsonView>) -> RelayView {
    match payload {
        None => RelayView { outcome: Some(Outcome::Failed), ..relay },
        Some(payload) => if names_other_model(relay.model, payload) {
            RelayView { outcome: Some(Outcome::Failed), ..relay }
        } else {
            RelayView {
                transformer: next_state(relay.transformer, payload),
                saw_completed: relay.saw_completed || match forwarded(relay.transformer, payload) {
                    Some(event) => completes(event),
                    None => false,
                },
                ..relay
            }
        },
    }
}

/// What comes of an event that is forwarded.
pub open spec fn event_outputs(event: JsonView) -> Seq<OutputView> {
    let sent = seq![OutputView::Send(sse_bytes(event))];
    match reported_usage(event) {
        Some(usage) => if completes(event) {
            seq![OutputView::Usage(usage)] + sent
        } else {
            sent
        },
        None => sent,
    }
}

/// What comes of an event.
pub open spec fn outputs_of_event(relay: RelayView, payload: Option<JsonView>) -> Seq<OutputView> {
    match payload {
        None => failure_output(
            "malformed_upstream_event"@,
            "Codex sent an invalid stream event"@,
        ),
        Some(payload) => if names_other_model(relay.model, payload) {
            failure_output(
                "upstream_model_mismatch"@,
                "Codex selected a model different from the requested model"@,
            )
        } else {
            match forwarded(relay.transformer, payload) {
                Some(event) => event_outputs(event),
                None => Seq::empty(),
            }
        },
    }
}

/// What is known once a frame has been read.
pub open spec fn relay_after_frame(relay: RelayView, frame: FrameView) -> RelayView {
    match frame {
        FrameView::Data(text) => relay_after_event(relay, json_of_text(text)),
        _ => relay,
    }
}

/// What comes of a frame.
pub open spec fn outputs_of_frame(relay: RelayView, frame: FrameView) -> Seq<OutputView> {
    match frame {
        FrameView::Comment(bytes) => seq![OutputView::Send(bytes)],
        FrameView::Done => seq![OutputView::Send(encode_utf8("data: [DONE]\n\n"@))],
        FrameView::Data(text) => outputs_of_event(relay, json_of_text(text)),
    }
}

/// What is known once frames have been read. A failure ends the reading.
pub open spec fn relay_after_frames(relay: RelayView, frames: Seq<FrameView>) -> RelayView
    decreases frames.len(),
{
    if frames.len() == 0 || relay.outcome is Some {
        relay
    } else {
        relay_after_frames(relay_after_frame(relay, frames[0]), frames.skip(1))
    }
}

/// What comes of frames, in order. A failure ends the reading.
pub open spec fn outputs_of_frames(relay: RelayView, frames: Seq<FrameView>) -> Seq<OutputView>
    decreases frames.len(),
{
    if frames.len() == 0 || relay.outcome is Some {
        Seq::empty()
    } else {
        outputs_of_frame(relay, frames[0]) + outputs_of_frames(
            relay_after_frame(relay, frames[0]),
            frames.skip(1),
        )
    }
}

/// The relay with a chunk behind the bytes that it holds.
pub open spec fn relay_fed(relay: RelayView, chunk: Seq<u8>) -> RelayView {
    RelayView { decoder: settled(fed(relay.decoder, chunk)), ..relay }
}

/// What is known once a chunk has been read.
pub open spec fn relay_after_chunk(relay: RelayView, chunk: Seq<u8>) -> RelayView {
    if relay.outcome is Some {
        relay
    } else {
        relay_after_frames(relay_fed(relay, chunk), decoded(fed(relay.decoder, chunk)))
    }
}

/// What comes of a chunk.
pub open spec fn outputs_of_chunk(relay: RelayView, chunk: Seq<u8>) -> Seq<OutputView> {
    if relay.outcome is Some {
        Seq::empty()
    } else {
        outputs_of_frames(relay_fed(relay, chunk), decoded(fed(relay.decoder, chunk)))
    }
}

/// What the upstream does when it sends no more chunks.
#[derive(Clone, Copy, Debug, PartialEq, Eq, Structural)]
pub enum StreamEnd {
    /// It has closed the stream.
    Closed,
    /// The stream broke.
    Broken,
    /// Nothing came before the idle timeout.
    Idle,
}

/// How a stream ends.
pub open spec fn end_outcome(saw_completed: bool, end: StreamEnd) -> Outcome {
    match end {
        StreamEnd::Closed => if saw_completed {
            Outcome::Completed
        } else {
            Outcome::Truncated
        },
        _ => Outcome::Failed,
    }
}

/// What the client is told at the end of a stream.
pub open spec fn end_outputs(saw_completed: bool, end: StreamEnd) -> Seq<OutputView> {
    match end {
        StreamEnd::Closed => if saw_completed {
            Seq::empty()
        } else {
            failure_output(
                "upstream_stream_truncated"@,
                "Codex ended the stream before completing the response"@,
            )
        },
        StreamEnd::Broken => failure_output(
            "upstream_stream_error"@,
            "Codex closed the stream unexpectedly"@,
        ),
        StreamEnd::Idle => failure_output(
            "upstream_stream_idle_timeout"@,
            "Codex did not send a stream event before the idle timeout"@,
        ),
    }
}

fn push_failure(outputs: &mut Vec<Output>, code: &str, message: &str)
    ensures
        outputs_view(final(outputs)@) == outputs_view(old(outputs)@) + failure_output(
            code@,
            message@,
        ),
{
    let ghost before = outputs_view(outputs@);
    outputs.push(Output::Send(sse_data(&failed_event(code, message))));
    assert(outputs_view(outputs@) =~= before + failure_output(code@, message@));
}

fn push_event(outputs: &mut Vec<Output>, event: &Json) -> (completed: bool)
    ensures
        outputs_view(final(outputs)@) == outputs_view(old(outputs)@) + event_outputs(event@),
        completed == completes(event@),
{
    let ghost before = outputs_view(outputs@);
    let completed = is_text(event.text_field("type"), "response.completed");
    if completed {
        if let Some(usage) = usage_from_completed(event) {
            outputs.push(Output::Usage(usage));
        }
    }
    outputs.push(Output::Send(sse_data(event)));
    assert(outputs_view(outputs@) =~= before + event_outputs(event@));
    completed
}

impl Relay {
    /// A stream that answers a request for a model.
    pub fn new(model: String) -> (relay: Relay)
        ensures
            relay@ == (RelayView {
                model: model@,
                decoder: DecoderView { buffer: Seq::empty(), lines: Seq::empty() },
                transformer: StreamView {
                    items: Seq::empty(),
                    indices: Map::empty(),
                    calls: Map::empty(),
                },
                saw_completed: false,
                outcome: None,
            }),
    {
        Relay {
            model,
            decoder: SseDecoder::default(),
            transformer: StreamTransformer::default(),
            saw_completed: false,
            outcome: None,
        }
    }

    /// How the stream has ended; none, while it goes on.
    pub fn outcome(&self) -> (outcome: Option<Outcome>)
        ensures
            outcome == self@.outcome,
    {
        self.outcome
    }

    /// Reads an event; none stands for an event that is not JSON.
    pub fn read_event(&mut self, payload: Option<Json>, outputs: &mut Vec<Output>)
        ensures
            final(self)@ == relay_after_event(old(self)@, optional_view(payload)),
            outputs_view(final(outputs)@) == outputs_view(old(outputs)@) + outputs_of_event(
                old(self)@,
                optional_view(payload),
            ),
    {
        let payload = match payload {
            Some(payload) => payload,
            None => {
                push_failure(
                    outputs,
                    "malformed_upstream_event",
                    "Codex sent an invalid stream event",
                );
                self.outcome = Some(Outcome::Failed);
                return;
            },
        };
        if is_text(payload.text_field("type"), "response.created") {
            let named: Option<&str> = match nested(&payload, "response", "model") {
                Some(value) => value.as_str(),
                None => None,
            };
            if let Some(named) = named {
                if !same_text(named, self.model.as_str()) {
                    push_failure(
                        outputs,
                        "upstream_model_mismatch",
                        "Codex selected a model different from the requested model",
                    );
                    self.outcome = Some(Outcome::Failed);
                    return;
                }
            }
        }
        match self.transformer.transform(payload) {
            Some(event) => {
                if push_event(outputs, &event) {
                    self.saw_completed = true;
                }
            },
            None => {
                assert(outputs_view(outputs@) + Seq::<OutputView>::empty() =~= outputs_view(
                    outputs@,
                ));
            },
        }
    }

    fn read_frame(&mut self, frame: SseFrame, outputs: &mut Vec<Output>)
        ensures
            final(self)@ == relay_after_frame(old(self)@, frame@),
            outputs_view(final(outputs)@) == outputs_view(old(outputs)@) + outputs_of_frame(
                old(self)@,
                frame@,
            ),
    {
        let ghost before = outputs_view(outputs@);
        match frame {
            SseFrame::Comment(bytes) => {
                outputs.push(Output::Send(bytes));
                assert(outputs_view(outputs@) =~= before + seq![OutputView::Send(bytes@)]);
            },
            SseFrame::Done => {
                let bytes = "data: [DONE]\n\n".as_bytes_vec();
                outputs.push(Output::Send(bytes));
                assert(outputs_view(outputs@) =~= before + seq![OutputView::Send(bytes@)]);
            },
            SseFrame::Data(text) => {
                self.read_event(parse_text(text.as_str()), outputs);
            },
        }
    }

    /// Reads a chunk: what comes of it, in order, and whether it held a frame.
    pub fn read_chunk(&mut self, chunk: &[u8]) -> (r: (Vec<Output>, bool))
        ensures
            final(self)@ == relay_after_chunk(old(self)@, chunk@),
            outputs_view(r.0@) == outputs_of_chunk(old(self)@, chunk@),
            r.1 == (old(self)@.outcome is None && decoded(fed(old(self)@.decoder, chunk@)).len()
                > 0),
    {
        let mut outputs: Vec<Output> = Vec::new();
        assert(outputs_view(outputs@) =~= Seq::empty());
        if self.outcome.is_some() {
            return (outputs, false);
        }
        let frames = self.decoder.push(chunk);
        let held = frames.len() > 0;
        let ghost start = self@;
        let ghost all = frames_view(frames@);
        proof {
            assert(start == relay_fed(old(self)@, chunk@));
            assert(all.skip(0) =~= all);
            assert(outputs_view(outputs@) + outputs_of_frames(start, all) =~= outputs_of_frames(
                start,
                all,
            ));
        }
        let ghost mut read: int = 0;
        for frame in it: frames
            invariant
                it.seq() == frames@,
                all == frames_view(frames@),
                0 <= read <= it.index(),
                self@.outcome is None ==> read == it.index(),
                relay_after_frames(start, all) == relay_after_frames(self@, all.skip(read)),
                outputs_of_frames(start, all) == outputs_view(outputs@) + outputs_of_frames(
                    self@,
                    all.skip(read),
                ),
        {
            if self.outcome.is_none() {
                let ghost before = self@;
                let ghost said = outputs_view(outputs@);
                proof {
                    assert(all.skip(read)[0] == frame@);
                    assert(all.skip(read).skip(1) =~= all.skip(read + 1));
                }
                self.read_frame(frame, &mut outputs);
                proof {
                    read = read + 1;
                    assert(said + (outputs_of_frame(before, frame@) + outputs_of_frames(
                        self@,
                        all.skip(read),
                    )) =~= outputs_view(outputs@) + outputs_of_frames(self@, all.skip(read)));
                }
            }
        }
        proof {
            assert(outputs_view(outputs@) + Seq::<OutputView>::empty() =~= outputs_view(outputs@));
        }
        (outputs, held)
    }

    /// Ends the stream.
    pub fn finish(&mut self, end: StreamEnd) -> (outputs: Vec<Output>)
        ensures
            old(self)@.outcome is Some ==> final(self)@ == old(self)@ && outputs@.len() == 0,
            old(self)@.outcome is None ==> final(self)@ == (RelayView {
                outcome: Some(end_outcome(old(self)@.saw_completed, end)),
                ..old(self)@
            }) && outputs_view(outputs@) == end_outputs(old(self)@.saw_completed, end),
    {
        let mut outputs: Vec<Output> = Vec::new();
        assert(outputs_view(outputs@) =~= Seq::empty());
        if self.outcome.is_some() {
            return outputs;
        }
        match end {
            StreamEnd::Closed => if self.saw_completed {
                self.outcome = Some(Outcome::Completed);
            } else {
                push_failure(
                    &mut outputs,
                    "upstream_stream_truncated",
                    "Codex ended the stream before completing the response",
                );
                self.outcome = Some(Outcome::Truncated);
            },
            StreamEnd::Broken => {
                push_failure(
                    &mut outputs,
                    "upstream_stream_error",
                    "Codex closed the stream unexpectedly",
                );
                self.outcome = Some(Outcome::Failed);
            },
            StreamEnd::Idle => {
                push_failure(
                    &mut outputs,
                    "upstream_stream_idle_timeout",
                    "Codex did not send a stream event before the idle timeout",
                );
                self.outcome = Some(Outcome::Failed);
            },
        }
        assert(Seq::<OutputView>::empty() + outputs_view(outputs@) =~= outputs_view(outputs@));
        outputs
    }
}

/// A stream that fails tells the client so, with one last event, and says
/// nothing else with it.
pub proof fn lemma_failures_are_told(relay: RelayView, payload: Option<JsonView>, end: StreamEnd)
    requires
        relay.outcome is None,
    ensures
        relay_after_event(relay, payload).outcome is Some ==> exists|code: Seq<char>, message: Seq<char>|
            outputs_of_event(relay, payload) == #[trigger] failure_output(code, message),
        end_outcome(relay.saw_completed, end) != Outcome::Completed ==> exists|code: Seq<char>, message: Seq<char>|
            end_outputs(relay.saw_completed, end) == #[trigger] failure_output(code, message),
{
    assert(relay_after_event(relay, payload).outcome is Some ==> outputs_of_event(
        relay,
        payload,
    ).len() == 1);
    assert(end_outcome(relay.saw_completed, end) != Outcome::Completed ==> end_outputs(
        relay.saw_completed,
        end,
    ).len() == 1);
}

/// A stream counts as completed only if a completed response was passed on and
/// the upstream then closed the stream.
pub proof fn lemma_completion_is_seen(saw_completed: bool, end: StreamEnd)
    ensures
        end_outcome(saw_completed, end) == Outcome::Completed <==> saw_completed && end
            == StreamEnd::Closed,
        end_outputs(saw_completed, end).len() == 0 <==> saw_completed && end == StreamEnd::Closed,
{
}

proof fn lemma_decoder_does_not_matter(relay: RelayView, decoder: DecoderView, frames: Seq<FrameView>)
    ensures
        relay_after_frames(RelayView { decoder, ..relay }, frames) == (RelayView {
            decoder,
            ..relay_after_frames(relay, frames)
        }),
        outputs_of_frames(RelayView { decoder, ..relay }, frames) == outputs_of_frames(
            relay,
            frames,
        ),
    decreases frames.len(),
{
    if frames.len() > 0 && relay.outcome is None {
        lemma_decoder_does_not_matter(
            relay_after_frame(relay, frames[0]),
            decoder,
            frames.skip(1),
        );
    }
}

proof fn lemma_frames_in_two_parts(relay: RelayView, first: Seq<FrameView>, second: Seq<FrameView>)
    ensures
        relay_after_frames(relay, first + second) == relay_after_frames(
            relay_after_frames(relay, first),
            second,
        ),
        outputs_of_frames(relay, first + second) == outputs_of_frames(relay, first)
            + outputs_of_frames(relay_after_frames(relay, first), second),
    decreases first.len(),
{
    let whole = first + second;
    if relay.outcome is Some {
        assert(outputs_of_frames(relay, whole) =~= outputs_of_frames(relay, first)
            + outputs_of_frames(relay, second));
    } else if first.len() == 0 {
        assert(whole =~= second);
        assert(outputs_of_frames(relay, second) =~= outputs_of_frames(relay, first)
            + outputs_of_frames(relay, second));
    } else {
        let next = relay_after_frame(relay, first[0]);
        assert(whole[0] == first[0]);
        assert(whole.skip(1) =~= first.skip(1) + second);
        lemma_frames_in_two_parts(next, first.skip(1), second);
        assert(outputs_of_frame(relay, first[0]) + (outputs_of_frames(next, first.skip(1))
            + outputs_of_frames(relay_after_frames(next, first.skip(1)), second)) =~= (
        outputs_of_frame(relay, first[0]) + outputs_of_frames(next, first.skip(1)))
            + outputs_of_frames(relay_after_frames(next, first.skip(1)), second));
    }
}

/// How the upstream cuts its stream into chunks does not matter to the client:
/// two chunks one after the other give the outputs that both at once do, and the
/// stream ends, or goes on, in the same way.
pub proof fn lemma_chunks_do_not_matter(relay: RelayView, first: Seq<u8>, second: Seq<u8>)
    requires
        relay.outcome is None,
    ensures
        outputs_of_chunk(relay, first) + outputs_of_chunk(relay_after_chunk(relay, first), second)
            == outputs_of_chunk(relay, first + second),
        relay_after_chunk(relay_after_chunk(relay, first), second).outcome == relay_after_chunk(
            relay,
            first + second,
        ).outcome,
        relay_after_chunk(relay, first).outcome is None ==> relay_after_chunk(
            relay_after_chunk(relay, first),
            second,
        ) == relay_after_chunk(relay, first + second),
{
    let d0 = relay.decoder;
    let d1 = settled(fed(d0, first));
    let d2 = settled(fed(d0, first + second));
    let f1 = decoded(fed(d0, first));
    let f2 = decoded(fed(d1, second));
    crate::sse::lemma_chunks_do_not_matter(d0, first, second);
    let start = RelayView { decoder: d1, ..relay };
    let middle = relay_after_frames(start, f1);
    lemma_decoder_stays(start, f1);
    lemma_frames_in_two_parts(start, f1, f2);
    lemma_decoder_does_not_matter(start, d2, f1 + f2);
    lemma_decoder_does_not_matter(middle, d2, f2);
    assert(RelayView { decoder: d2, ..start } == RelayView { decoder: d2, ..relay });
    if middle.outcome is Some {
        assert(outputs_of_frames(middle, f2) =~= Seq::empty());
    }
}

proof fn lemma_decoder_stays(relay: RelayView, frames: Seq<FrameView>)
    ensures
        relay_after_frames(relay, frames).decoder == relay.decoder,
    decreases frames.len(),
{
    if frames.len() > 0 && relay.outcome is None {
        lemma_decoder_stays(relay_after_frame(relay, frames[0]), frames.skip(1));
    }
}

} // verus!
