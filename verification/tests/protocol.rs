use codex_for_grok::codec::{parse_text, render_text};
use codex_for_grok::json::Json;
use codex_for_grok::protocol::{adapt_request, map_effort, ProtocolError};
use codex_for_grok::server::protocol_error_message;

fn json(text: &str) -> Json {
    parse_text(text).expect("test JSON is valid")
}

fn at<'a>(value: &'a Json, path: &[&str]) -> &'a Json {
    let mut value = value;
    for key in path {
        value = match value {
            Json::List(items) => &items[key.parse::<usize>().expect("list index")],
            other => other.get(key).expect("key is there"),
        };
    }
    value
}

fn text<'a>(value: &'a Json, path: &[&str]) -> &'a str {
    at(value, path).as_str().expect("value is a text")
}

#[test]
fn adapts_messages_without_forcing_parallel_tools() {
    let request = json(
        r#"{
            "model": "gpt-5.6-sol",
            "stream_tool_calls": true,
            "input": [
                {"role": "system", "content": "Be precise."},
                {"role": "user", "content": "Hello"}
            ],
            "reasoning": {"effort": "ultra"}
        }"#,
    );
    let adapted = adapt_request(request).expect("valid request");
    assert_eq!(text(&adapted, &["instructions"]), "Be precise.");
    assert_eq!(text(&adapted, &["input", "0", "content", "0", "type"]), "input_text");
    assert_eq!(text(&adapted, &["reasoning", "effort"]), "xhigh");
    assert!(adapted.get("stream_tool_calls").is_none());
    assert!(adapted.get("parallel_tool_calls").is_none());
}

#[test]
fn replays_reasoning_history_with_intact_ciphertext() {
    let adapted = adapt_request(json(
        r#"{
            "model": "gpt-5.6-sol",
            "input": [{
                "type": "reasoning",
                "id": "rs_0c5a6f856fc95898016a523ceadba481",
                "encrypted_content": "opaque-session-ciphertext",
                "summary": [{"type": "summary_text", "text": "Visible summary"}]
            }]
        }"#,
    ))
    .expect("request is valid");

    assert_eq!(text(&adapted, &["input", "0", "encrypted_content"]), "opaque-session-ciphertext");
    assert_eq!(text(&adapted, &["input", "0", "summary", "0", "text"]), "Visible summary");
}

#[test]
fn drops_unreplayable_reasoning_from_history() {
    let adapted = adapt_request(json(
        r#"{
            "model": "gpt-5.6-sol",
            "input": [
                {
                    "type": "reasoning",
                    "id": "rs_3ee41ff4-f7fb-90ce-9631-f1ea72bdcad7",
                    "encrypted_content": "ciphertext-under-a-fabricated-id",
                    "summary": []
                },
                {
                    "type": "reasoning",
                    "id": "rs_0abe3732d6801efe016a522c6df35481",
                    "summary": []
                },
                {"role": "user", "content": "Hello"}
            ]
        }"#,
    ))
    .expect("request is valid");

    let input = at(&adapted, &["input"]).as_list().expect("input is an array");
    assert_eq!(input.len(), 1);
    assert_eq!(text(&input[0], &["role"]), "user");
}

#[test]
fn rejects_luna_and_unknown_models() {
    for model in ["gpt-5.6-luna", "gpt-5.6-unknown", "codex-sol"] {
        assert_eq!(
            adapt_request(json(&format!(r#"{{"model": "{model}", "input": []}}"#))),
            Err(ProtocolError::UnsupportedModel(model.to_owned()))
        );
    }
}

#[test]
fn drops_grok_sampling_fields_rejected_by_codex() {
    let adapted = adapt_request(json(
        r#"{
            "model": "gpt-5.6-terra",
            "input": [],
            "temperature": 0.2,
            "max_output_tokens": 4096
        }"#,
    ))
    .expect("Grok compaction request should adapt");

    assert_eq!(adapted.get("temperature"), None);
    assert_eq!(adapted.get("max_output_tokens"), None);
}

#[test]
fn rejects_unknown_request_fields() {
    let error =
        adapt_request(json(r#"{"model": "gpt-5.6-sol", "input": [], "secret_field": true}"#))
            .expect_err("unknown field is blocked");
    assert_eq!(error, ProtocolError::UnsupportedField("secret_field".to_owned()));
}

#[test]
fn the_first_unknown_field_is_named() {
    let request = r#"{"zeta": 1, "model": "gpt-5.6-sol", "alpha": 2, "user": "dropped"}"#;
    assert_eq!(
        adapt_request(json(request)),
        Err(ProtocolError::UnsupportedField("alpha".to_owned()))
    );
}

#[test]
fn a_whole_request_is_rewritten() {
    let adapted = adapt_request(json(
        r#"{
            "model": "gpt-5.6-terra",
            "stream": false,
            "store": true,
            "parallel_tool_calls": false,
            "instructions": "First.",
            "metadata": {"dropped": true},
            "input": [
                {"role": "developer", "content": [{"text": "Second."}, "Third.", 7]},
                {"role": "assistant", "content": ["said", {"type": "text", "text": "done"}]},
                {"type": "function_call", "call_id": "call_9", "name": "ls"},
                {"type": "function_call_output", "call_id": "call_9"},
                "bare"
            ],
            "include": ["other"]
        }"#,
    ))
    .expect("request is valid");
    let expected = json(
        r#"{
            "model": "gpt-5.6-terra",
            "stream": true,
            "store": false,
            "parallel_tool_calls": false,
            "instructions": "First.\n\nSecond.\nThird.",
            "input": [
                {"role": "assistant", "content": [
                    {"type": "output_text", "text": "said"},
                    {"type": "output_text", "text": "done"}
                ]},
                {"type": "function_call", "call_id": "call_9", "name": "ls",
                 "id": "fc_call_9", "status": "completed", "arguments": ""},
                {"type": "function_call_output", "call_id": "call_9", "output": ""},
                "bare"
            ],
            "reasoning": {"effort": "medium", "summary": "concise"},
            "include": ["other", "reasoning.encrypted_content"]
        }"#,
    );
    assert_eq!(adapted, expected);
}

#[test]
fn a_text_input_is_one_message() {
    let adapted = adapt_request(json(r#"{"model": "gpt-5.6-sol", "input": "Hello"}"#))
        .expect("request is valid");
    assert_eq!(
        render_text(at(&adapted, &["input"])),
        r#"[{"content":[{"text":"Hello","type":"input_text"}],"role":"user"}]"#
    );
    assert_eq!(text(&adapted, &["instructions"]), "You are a helpful coding assistant.");
}

#[test]
fn encrypted_content_is_asked_for_once() {
    let adapted = adapt_request(json(
        r#"{"model": "gpt-5.6-sol", "include": ["reasoning.encrypted_content"]}"#,
    ))
    .expect("request is valid");
    assert_eq!(render_text(at(&adapted, &["include"])), r#"["reasoning.encrypted_content"]"#);
}

#[test]
fn every_refusal_has_its_request() {
    let cases = [
        (r#"[]"#, ProtocolError::RootMustBeObject, "request body must be a JSON object"),
        (r#"{}"#, ProtocolError::MissingModel, "request must include a non-empty model"),
        (r#"{"model": ""}"#, ProtocolError::MissingModel, "request must include a non-empty model"),
        (
            r#"{"model": "gpt-5.6-sol", "input": 7}"#,
            ProtocolError::InvalidInput,
            "request input must be a string or an array",
        ),
        (
            r#"{"model": "gpt-5.6-sol", "instructions": 7}"#,
            ProtocolError::InvalidInstructions,
            "request instructions must be a string",
        ),
        (
            r#"{"model": "other"}"#,
            ProtocolError::UnsupportedModel("other".to_owned()),
            "unsupported model: other; only gpt-5.6-sol and gpt-5.6-terra are supported",
        ),
        (
            r#"{"model": "gpt-5.6-sol", "odd": 1}"#,
            ProtocolError::UnsupportedField("odd".to_owned()),
            "unsupported request field: odd",
        ),
    ];
    for (request, error, message) in cases {
        assert_eq!(error.message(), message);
        assert_eq!(adapt_request(json(request)), Err(error));
    }
    assert_eq!(
        protocol_error_message(ProtocolError::UnsupportedField("odd".to_owned())),
        "The local bridge does not support request field `odd`"
    );
    assert_eq!(
        protocol_error_message(ProtocolError::MissingModel),
        "request must include a non-empty model"
    );
}

#[test]
fn efforts_are_read_without_regard_to_case() {
    let cases = [
        ("OFF", "none"),
        ("Light", "low"),
        ("minimal", "low"),
        ("MED", "medium"),
        ("High", "high"),
        ("Extra-High", "xhigh"),
        ("XHIGH", "xhigh"),
        ("Maximum", "max"),
        ("unheard of", "medium"),
    ];
    for (word, level) in cases {
        assert_eq!(map_effort(word), level, "{word}");
    }
}
