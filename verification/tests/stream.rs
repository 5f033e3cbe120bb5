use codex_for_grok::codec::{parse_text, render_text};
use codex_for_grok::json::Json;
use codex_for_grok::relay::{Outcome, Output, Relay, StreamEnd};
use codex_for_grok::sse::{SseDecoder, SseFrame};
use codex_for_grok::stream::{
    failed_event, sse_data, usage_from_completed, ObservedUsage, StreamTransformer,
};

fn json(text: &str) -> Json {
    parse_text(text).expect("test JSON is valid")
}

fn at<'a>(value: &'a Json, path: &[&str]) -> &'a Json {
    let mut value = value;
    for key in path {
        value = value.get(key).expect("key is there");
    }
    value
}

#[test]
fn drops_stream_events_unknown_to_grok() {
    let mut transformer = StreamTransformer::default();
    for event_type in ["keepalive", "response.metadata"] {
        assert!(
            transformer.transform(json(&format!(r#"{{"type": "{event_type}"}}"#))).is_none(),
            "{event_type} should not be forwarded"
        );
    }
}

#[test]
fn patches_completed_output_from_streamed_items() {
    let mut transformer = StreamTransformer::default();
    transformer.transform(json(
        r#"{
            "type": "response.output_item.done",
            "output_index": 0,
            "item": {"type": "message", "id": "msg_1", "role": "assistant", "content": []}
        }"#,
    ));
    let completed = transformer
        .transform(json(r#"{"type": "response.completed", "response": {"output": []}}"#))
        .expect("completion is preserved");
    assert_eq!(at(&completed, &["response", "output"]).as_list().map(Vec::len), Some(1));
}

#[test]
fn enriches_function_deltas_for_the_tui() {
    let mut transformer = StreamTransformer::default();
    transformer.transform(json(
        r#"{
            "type": "response.output_item.added",
            "output_index": 2,
            "item": {"type": "function_call", "id": "fc_1", "call_id": "call_1", "name": "ctx_tree"}
        }"#,
    ));
    let delta = transformer
        .transform(json(
            r#"{"type": "response.function_call_arguments.delta", "item_id": "fc_1", "delta": "{}"}"#,
        ))
        .expect("delta is preserved");
    assert_eq!(delta.unsigned_field("output_index"), Some(2));
    assert_eq!(delta.text_field("call_id"), Some("call_1"));
    assert_eq!(delta.text_field("name"), Some("ctx_tree"));
}

#[test]
fn output_items_come_in_the_order_of_their_indices() {
    let mut transformer = StreamTransformer::default();
    for (index, id) in [(5, "e"), (1, "a"), (3, "c"), (1, "a2")] {
        transformer.transform(json(&format!(
            r#"{{"type": "response.output_item.done", "output_index": {index}, "item": {{"id": "{id}"}}}}"#
        )));
    }
    transformer.transform(json(
        r#"{"type": "response.output_item.added", "output_index": 3, "item": {"id": "late"}}"#,
    ));
    let completed = transformer
        .transform(json(r#"{"type": "response.completed", "response": {}}"#))
        .expect("completion is preserved");
    assert_eq!(
        render_text(at(&completed, &["response", "output"])),
        r#"[{"id":"a2"},{"id":"c"},{"id":"e"}]"#
    );
}

#[test]
fn function_calls_are_given_what_they_lack() {
    let mut transformer = StreamTransformer::default();
    let added = transformer
        .transform(json(
            r#"{"type": "response.output_item.added", "item": {"type": "function_call", "id": "x"}}"#,
        ))
        .expect("item is forwarded");
    assert_eq!(
        render_text(at(&added, &["item"])),
        r#"{"arguments":"","id":"x","status":"in_progress","type":"function_call"}"#
    );
    let done = transformer
        .transform(json(
            r#"{"type": "response.output_item.done", "item": {"type": "function_call", "id": "x"}}"#,
        ))
        .expect("item is forwarded");
    assert_eq!(
        render_text(at(&done, &["item"])),
        r#"{"arguments":"","id":"x","status":"completed","type":"function_call"}"#
    );
}

#[test]
fn reasoning_items_keep_their_summaries_alone() {
    let mut transformer = StreamTransformer::default();
    let done = transformer
        .transform(json(
            r#"{"type": "response.output_item.done", "output_index": 4, "item": {
                "type": "reasoning", "id": "rs_1", "content": ["hidden"],
                "summary": ["one", {"text": "two"}, {"type": "summary_text"}, {"type": "odd"}, 3]
            }}"#,
        ))
        .expect("item is forwarded");
    assert_eq!(
        render_text(at(&done, &["item"])),
        concat_lines(&[
            r#"{"content":[],"id":"rs_1","summary":[{"text":"one","type":"summary_text"},"#,
            r#"{"text":"two","type":"summary_text"},{"text":"","type":"summary_text"}],"type":"reasoning"}"#,
        ])
    );
    let delta = transformer
        .transform(json(r#"{"type": "response.reasoning_summary_text.delta", "item_id": "rs_1"}"#))
        .expect("summary is forwarded");
    assert_eq!(delta.unsigned_field("output_index"), Some(4));
}

fn concat_lines(parts: &[&str]) -> String {
    parts.concat()
}

#[test]
fn completed_reasoning_output_is_rewritten() {
    let mut transformer = StreamTransformer::default();
    let completed = transformer
        .transform(json(
            r#"{"type": "response.completed", "response": {"output": [
                {"type": "reasoning", "summary": ["s"]}, {"type": "message", "id": "m"}
            ]}}"#,
        ))
        .expect("completion is preserved");
    assert_eq!(
        render_text(at(&completed, &["response", "output"])),
        concat_lines(&[
            r#"[{"content":[],"summary":[{"text":"s","type":"summary_text"}],"type":"reasoning"},"#,
            r#"{"id":"m","type":"message"}]"#,
        ])
    );
}

#[test]
fn events_without_a_type_are_dropped_and_others_pass() {
    let mut transformer = StreamTransformer::default();
    assert_eq!(transformer.transform(json(r#"{"delta": "x"}"#)), None);
    assert_eq!(transformer.transform(json("[1]")), None);
    let event = r#"{"delta":"x","type":"response.output_text.delta"}"#;
    let passed = transformer.transform(json(event)).expect("event is forwarded");
    assert_eq!(render_text(&passed), event);
}

#[test]
fn usage_is_read_from_the_last_event() {
    let event = json(
        r#"{"response": {"usage": {"input_tokens": 3, "output_tokens": 4}}}"#,
    );
    assert_eq!(
        usage_from_completed(&event),
        Some(ObservedUsage {
            input_tokens: Some(3),
            output_tokens: Some(4),
            total_tokens: Some(7),
        })
    );
    let event = json(r#"{"response": {"usage": {"total_tokens": 9, "input_tokens": -1}}}"#);
    assert_eq!(
        usage_from_completed(&event),
        Some(ObservedUsage { input_tokens: None, output_tokens: None, total_tokens: Some(9) })
    );
    assert_eq!(usage_from_completed(&json(r#"{"response": {}}"#)), None);
    assert_eq!(
        ObservedUsage::default(),
        ObservedUsage { input_tokens: None, output_tokens: None, total_tokens: None }
    );
}

#[test]
fn an_event_is_one_line_of_data() {
    let event = json(r#"{"type":"delta","delta":"one\ntwo\r\nthree"}"#);
    let bytes = sse_data(&event);
    assert_eq!(bytes.iter().filter(|byte| **byte == b'\n').count(), 2);
    assert!(bytes.ends_with(b"\n\n"));
    let frames = SseDecoder::default().push(&bytes);
    match frames.as_slice() {
        [SseFrame::Data(data)] => assert_eq!(parse_text(data), Some(event)),
        _ => panic!("one frame of data was expected"),
    }
}

#[test]
fn every_value_is_one_frame_of_data() {
    let mut decoder = SseDecoder::default();
    for text in [r#"["DONE"]"#, "[]", "null", r#""[DONE]""#, r#"{"a":"\u00e9"}"#, "-1.5"] {
        let value = json(text);
        let shown = render_text(&value);
        assert_eq!(decoder.push(&sse_data(&value)), vec![SseFrame::Data(shown)]);
    }
    assert_eq!(decoder.push(b": still here\n"), vec![SseFrame::Comment(b": still here\n\n".to_vec())]);
}

#[test]
fn the_last_item_done_or_the_first_one_added_stays() {
    let mut transformer = StreamTransformer::default();
    for (kind, index, id) in [
        ("added", 2, "a"),
        ("added", 2, "b"),
        ("added", 0, "c"),
        ("done", 0, "d"),
        ("added", 0, "e"),
        ("done", 0, "f"),
        ("done", 1, "g"),
    ] {
        let event = format!(
            r#"{{"type":"response.output_item.{kind}","output_index":{index},"item":{{"id":"{id}"}}}}"#
        );
        assert_eq!(transformer.transform(json(&event)), Some(json(&event)));
    }
    for response in [r#"{}"#, r#"{"output":[]}"#, r#"{"output":"none"}"#] {
        let event = format!(r#"{{"type":"response.completed","response":{response}}}"#);
        let completed = transformer.transform(json(&event)).expect("completion is preserved");
        assert_eq!(
            render_text(at(&completed, &["response", "output"])),
            r#"[{"id":"f"},{"id":"g"},{"id":"a"}]"#
        );
    }
    let event = json(r#"{"type":"response.completed","response":{"output":[{"id":"own"}]}}"#);
    let completed = transformer.transform(event);
    assert_eq!(
        completed,
        Some(json(r#"{"type":"response.completed","response":{"output":[{"id":"own"}]}}"#))
    );
}

#[test]
fn failures_are_events_of_their_own() {
    let event = failed_event("some_code", "Some message");
    assert_eq!(
        String::from_utf8(sse_data(&event)).expect("event is a text"),
        concat_lines(&[
            r#"data: {"response":{"error":{"code":"some_code","message":"Some message"},"#,
            r#""status":"failed"},"type":"response.failed"}"#,
            "\n\n",
        ])
    );
}

#[test]
fn decoder_handles_fragmented_crlf_sse() {
    let mut decoder = SseDecoder::default();
    assert!(decoder.push(b"data: {\"type\":\"response.").is_empty());
    let frames = decoder.push(b"completed\"}\r\n\r\n");
    assert!(
        matches!(frames.as_slice(), [SseFrame::Data(value)] if value.contains("response.completed"))
    );
}

#[test]
fn decoder_forwards_done() {
    let mut decoder = SseDecoder::default();
    let frames = decoder.push(b"data: [DONE]\n\n");
    assert!(matches!(frames.as_slice(), [SseFrame::Done]));
}

#[test]
fn decoder_joins_data_lines_and_passes_comments() {
    let mut decoder = SseDecoder::default();
    let frames = decoder.push(b": ping\nevent: x\ndata:one\ndata:  two\n: inside\n\n\ndata: last");
    assert_eq!(
        frames,
        vec![
            SseFrame::Comment(b": ping\n\n".to_vec()),
            SseFrame::Data("one\n two".to_owned()),
        ]
    );
    assert_eq!(decoder.push(b"\n\n"), vec![SseFrame::Data("last".to_owned())]);
}

#[test]
fn decoder_replaces_what_is_not_utf8() {
    let mut decoder = SseDecoder::default();
    let frames = decoder.push(b"data: a\xffb\n\n");
    assert_eq!(frames, vec![SseFrame::Data("a\u{fffd}b".to_owned())]);
}

#[test]
fn decoder_does_not_mind_how_the_stream_is_cut() {
    let stream = ": c\r\ndata: {\"a\":1}\r\ndata: é\r\n\r\n\ndata: [DONE]\n\n".as_bytes();
    let mut whole = SseDecoder::default();
    let expected = whole.push(stream);
    assert_eq!(expected.len(), 3);
    for cut in 0..=stream.len() {
        let mut decoder = SseDecoder::default();
        let mut frames = decoder.push(&stream[..cut]);
        frames.extend(decoder.push(&stream[cut..]));
        assert_eq!(frames, expected);
    }
}

#[test]
fn flushing_ends_the_event() {
    let mut decoder = SseDecoder::default();
    assert!(decoder.push(b"data: half\n").is_empty());
    let mut frames = vec![SseFrame::Done];
    decoder.flush(&mut frames);
    decoder.flush(&mut frames);
    assert_eq!(frames, vec![SseFrame::Done, SseFrame::Data("half".to_owned())]);
}

fn sent(outputs: &[Output]) -> String {
    let mut text = String::new();
    for output in outputs {
        if let Output::Send(bytes) = output {
            text.push_str(std::str::from_utf8(bytes).expect("output is a text"));
        }
    }
    text
}

#[test]
fn a_response_is_passed_on_to_its_end() {
    let mut relay = Relay::new("gpt-5.6-sol".to_owned());
    let (outputs, held) = relay.read_chunk(
        b"data: {\"type\":\"response.created\",\"response\":{\"model\":\"gpt-5.6-sol\"}}\n\n",
    );
    assert!(held);
    assert_eq!(
        sent(&outputs),
        "data: {\"response\":{\"model\":\"gpt-5.6-sol\"},\"type\":\"response.created\"}\n\n"
    );
    let (outputs, _) = relay.read_chunk(
        concat_lines(&[
            "data: {\"type\":\"response.completed\",\"response\":{\"output\":[1],",
            "\"usage\":{\"input_tokens\":1,\"output_tokens\":2}}}\n\ndata: [DONE]\n\n",
        ])
        .as_bytes(),
    );
    assert_eq!(
        outputs[0],
        Output::Usage(ObservedUsage {
            input_tokens: Some(1),
            output_tokens: Some(2),
            total_tokens: Some(3),
        })
    );
    assert!(sent(&outputs).ends_with("data: [DONE]\n\n"));
    assert_eq!(relay.outcome(), None);
    assert!(relay.finish(StreamEnd::Closed).is_empty());
    assert_eq!(relay.outcome(), Some(Outcome::Completed));
    assert_eq!(Outcome::Completed.text(), "completed");
}

#[test]
fn a_chunk_without_a_frame_is_silent() {
    let mut relay = Relay::new("gpt-5.6-sol".to_owned());
    let (outputs, held) = relay.read_chunk(b"data: {\"type\":");
    assert!(outputs.is_empty());
    assert!(!held);
}

#[test]
fn another_model_ends_the_stream() {
    let mut relay = Relay::new("gpt-5.6-sol".to_owned());
    let (outputs, _) = relay.read_chunk(
        concat_lines(&[
            "data: {\"type\":\"response.created\",\"response\":{\"model\":\"gpt-5.6-terra\"}}\n\n",
            "data: {\"type\":\"response.in_progress\"}\n\n",
        ])
        .as_bytes(),
    );
    assert_eq!(outputs.len(), 1);
    assert!(sent(&outputs).contains("upstream_model_mismatch"));
    assert_eq!(relay.outcome(), Some(Outcome::Failed));
    let (outputs, held) = relay.read_chunk(b"data: [DONE]\n\n");
    assert!(outputs.is_empty() && !held);
    assert!(relay.finish(StreamEnd::Closed).is_empty());
    assert_eq!(relay.outcome(), Some(Outcome::Failed));
    assert_eq!(Outcome::Failed.text(), "failed");
}

#[test]
fn a_malformed_event_ends_the_stream() {
    let mut relay = Relay::new("gpt-5.6-sol".to_owned());
    let (outputs, _) = relay.read_chunk(b": hello\ndata: {broken\n\n");
    assert_eq!(outputs.len(), 2);
    assert!(sent(&outputs).starts_with(": hello\n\n"));
    assert!(sent(&outputs).contains("malformed_upstream_event"));
    assert_eq!(relay.outcome(), Some(Outcome::Failed));
}

#[test]
fn every_early_end_is_told() {
    let cases = [
        (StreamEnd::Closed, "upstream_stream_truncated", Outcome::Truncated),
        (StreamEnd::Broken, "upstream_stream_error", Outcome::Failed),
        (StreamEnd::Idle, "upstream_stream_idle_timeout", Outcome::Failed),
    ];
    for (end, code, outcome) in cases {
        let mut relay = Relay::new("gpt-5.6-sol".to_owned());
        let outputs = relay.finish(end);
        assert!(sent(&outputs).contains(code));
        assert_eq!(relay.outcome(), Some(outcome));
    }
    assert_eq!(Outcome::Truncated.text(), "truncated");
}

#[test]
fn the_client_does_not_mind_how_the_upstream_cuts_its_stream() {
    let stream = concat_lines(&[
        "data: {\"type\":\"response.output_item.done\",\"output_index\":0,\"item\":{\"id\":\"é\"}}\n\n",
        "data: {\"type\":\"keepalive\"}\n\n",
        "data: {\"type\":\"response.completed\",\"response\":{}}\n\n",
    ]);
    let stream = stream.as_bytes();
    let mut whole = Relay::new("m".to_owned());
    let (expected, _) = whole.read_chunk(stream);
    for cut in 0..=stream.len() {
        let mut relay = Relay::new("m".to_owned());
        let (mut outputs, _) = relay.read_chunk(&stream[..cut]);
        outputs.extend(relay.read_chunk(&stream[cut..]).0);
        assert_eq!(outputs, expected);
    }
}
