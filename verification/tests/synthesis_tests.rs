use agentkit::json::{parse_json, Json};
use agentkit::proxy::merge::merge_anthropic_events;
use agentkit::proxy::sse::SseEvent;
use agentkit::proxy::synthesis::{
    build_content_block_delta_event, build_content_block_start_event, build_content_block_stop_event,
    build_message_delta_event, build_message_start_event, build_message_stop_event,
    build_thinking_block_delta_event, build_thinking_block_start_event, synthesize_anthropic_chunks,
    synthesize_chunks, AnthropicContentBlock, AnthropicMessage, AnthropicUsage, SynthEvent,
};

fn j(text: &str) -> Json {
    parse_json(text).expect("test JSON")
}

fn s(v: &Json, path: &[&str]) -> String {
    let mut cur = v;
    for k in path {
        cur = cur.get(k).expect("member");
    }
    cur.as_str().expect("string").to_string()
}

fn n(v: &Json, path: &[&str]) -> u64 {
    let mut cur = v;
    for k in path {
        cur = cur.get(k).expect("member");
    }
    cur.as_u64().expect("number")
}

fn well_formed(chunks: &[SynthEvent]) -> bool {
    chunks.iter().all(|c| matches!(c, SynthEvent::Data { .. } | SynthEvent::Done))
}

fn event_names(chunks: &[SynthEvent]) -> Vec<String> {
    chunks
        .iter()
        .map(|c| match c {
            SynthEvent::Data { event: Some(e), .. } => e.clone(),
            SynthEvent::Data { event: None, .. } => String::new(),
            SynthEvent::Done => "[DONE]".to_string(),
        })
        .collect()
}

fn message(content: Vec<AnthropicContentBlock>, stop: Option<&str>, input: u64, output: u64) -> AnthropicMessage {
    AnthropicMessage {
        id: "msg-123".to_string(),
        message_type: "message".to_string(),
        role: "assistant".to_string(),
        content,
        model: "test-model".to_string(),
        stop_reason: stop.map(|x| x.to_string()),
        stop_sequence: None,
        usage: AnthropicUsage { input_tokens: input, output_tokens: output },
    }
}

#[test]
fn test_synthesize_chunks_tool_calls() {
    let tool_calls = j(r#"[{"id":"call-123","type":"function","index":0,"function":{"name":"test_func","arguments":"{\"arg\":\"value\"}"}}]"#);
    let chunks = synthesize_chunks(
        "test-id".to_string(),
        "test-model".to_string(),
        1234567890,
        None,
        Some(tool_calls),
        None,
        None,
        "tool_calls".to_string(),
        None,
        None,
    );
    assert_eq!(chunks.len(), 4);
    assert!(well_formed(&chunks));
}

#[test]
fn test_synthesize_chunks_text_content() {
    let chunks = synthesize_chunks(
        "test-id".to_string(),
        "test-model".to_string(),
        1234567890,
        Some("Hello world".to_string()),
        None,
        None,
        None,
        "stop".to_string(),
        None,
        None,
    );
    assert_eq!(chunks.len(), 4);
    assert!(well_formed(&chunks));
}

#[test]
fn test_synthesize_chunks_reasoning_fields() {
    let chunks = synthesize_chunks(
        "test-id".to_string(),
        "test-model".to_string(),
        1234567890,
        Some("Answer".to_string()),
        None,
        Some("Thinking steps".to_string()),
        Some("state_blob".to_string()),
        "stop".to_string(),
        None,
        None,
    );
    assert_eq!(chunks.len(), 6);
    assert!(well_formed(&chunks));
}

#[test]
fn test_synthesize_chunks_usage_and_timings() {
    let usage = j(r#"{"prompt_tokens":10,"completion_tokens":20,"total_tokens":30}"#);
    let timings = j(r#"{"prompt_n":10,"prompt_ms":5.0,"prompt_per_token_ms":0.5,"prompt_per_second":2000.0,"predicted_n":20,"predicted_ms":10.0,"predicted_per_token_ms":0.5,"predicted_per_second":2000.0,"cache_n":0}"#);
    let chunks = synthesize_chunks(
        "test-id".to_string(),
        "test-model".to_string(),
        1234567890,
        Some("Test".to_string()),
        None,
        None,
        None,
        "stop".to_string(),
        Some(usage),
        Some(timings),
    );
    assert!(chunks.len() >= 3);
    assert!(well_formed(&chunks));
    match &chunks[chunks.len() - 2] {
        SynthEvent::Data { data, .. } => {
            assert_eq!(n(data, &["usage", "total_tokens"]), 30);
            assert_eq!(n(data, &["timings", "cache_n"]), 0);
            let fr = data.get("choices").unwrap().as_array().unwrap()[0].get("finish_reason").unwrap();
            assert_eq!(fr.as_str().unwrap(), "stop");
        }
        SynthEvent::Done => panic!("final data chunk expected"),
    }
}

#[test]
fn test_synthesize_chunks_ends_with_done() {
    let chunks = synthesize_chunks(
        "test-id".to_string(),
        "test-model".to_string(),
        1234567890,
        Some("Test".to_string()),
        None,
        None,
        None,
        "stop".to_string(),
        None,
        None,
    );
    assert!(chunks.last().is_some());
    assert!(matches!(chunks.last().unwrap(), SynthEvent::Done));
}

#[test]
fn synthesized_content_is_split_into_chunks() {
    let text = "a".repeat(120);
    let chunks = synthesize_chunks(
        "id".to_string(),
        "m".to_string(),
        1,
        Some(text.clone()),
        None,
        None,
        None,
        "stop".to_string(),
        None,
        None,
    );
    // role, three content pieces of at most 50 characters, final, [DONE]
    assert_eq!(chunks.len(), 6);
    let mut joined = String::new();
    for c in &chunks[1..4] {
        if let SynthEvent::Data { data, .. } = c {
            let delta = data.get("choices").unwrap().as_array().unwrap()[0].get("delta").unwrap();
            joined.push_str(delta.get("content").unwrap().as_str().unwrap());
        }
    }
    assert_eq!(joined, text);
}

#[test]
fn test_build_message_start_event() {
    let msg = message(vec![], None, 10, 20);
    let event = build_message_start_event(&msg);
    assert_eq!(s(&event, &["type"]), "message_start");
    assert_eq!(s(&event, &["message", "id"]), "msg-123");
    assert_eq!(s(&event, &["message", "role"]), "assistant");
    assert_eq!(s(&event, &["message", "model"]), "test-model");
    assert_eq!(n(&event, &["message", "usage", "input_tokens"]), 10);
    assert_eq!(n(&event, &["message", "usage", "output_tokens"]), 0);
}

#[test]
fn test_build_content_block_start_event() {
    let event = build_content_block_start_event(0, "text");
    assert_eq!(s(&event, &["type"]), "content_block_start");
    assert_eq!(n(&event, &["index"]), 0);
    assert_eq!(s(&event, &["content_block", "type"]), "text");
    assert_eq!(s(&event, &["content_block", "text"]), "");
}

#[test]
fn test_build_thinking_block_start_event() {
    let event = build_thinking_block_start_event(0, Some("sig-abc"));
    assert_eq!(s(&event, &["type"]), "content_block_start");
    assert_eq!(n(&event, &["index"]), 0);
    assert_eq!(s(&event, &["content_block", "type"]), "thinking");
    assert_eq!(s(&event, &["content_block", "thinking"]), "");
    assert_eq!(s(&event, &["content_block", "signature"]), "sig-abc");
}

#[test]
fn test_build_content_block_delta_event() {
    let event = build_content_block_delta_event(0, "text_delta", "Hello");
    assert_eq!(s(&event, &["type"]), "content_block_delta");
    assert_eq!(n(&event, &["index"]), 0);
    assert_eq!(s(&event, &["delta", "type"]), "text_delta");
    assert_eq!(s(&event, &["delta", "text"]), "Hello");
}

#[test]
fn test_build_thinking_block_delta_event() {
    let event = build_thinking_block_delta_event(0, "Thinking...");
    assert_eq!(s(&event, &["type"]), "content_block_delta");
    assert_eq!(n(&event, &["index"]), 0);
    assert_eq!(s(&event, &["delta", "type"]), "thinking_delta");
    assert_eq!(s(&event, &["delta", "thinking"]), "Thinking...");
}

#[test]
fn test_build_content_block_stop_event() {
    let event = build_content_block_stop_event(0);
    assert_eq!(s(&event, &["type"]), "content_block_stop");
    assert_eq!(n(&event, &["index"]), 0);
}

#[test]
fn test_build_message_delta_event() {
    let msg = message(vec![], Some("end_turn"), 10, 20);
    let event = build_message_delta_event(&msg);
    assert_eq!(s(&event, &["type"]), "message_delta");
    assert_eq!(s(&event, &["delta", "stop_reason"]), "end_turn");
    assert_eq!(n(&event, &["usage", "output_tokens"]), 20);
}

#[test]
fn test_build_message_stop_event() {
    let event = build_message_stop_event();
    assert_eq!(s(&event, &["type"]), "message_stop");
}

#[test]
fn test_synthesize_anthropic_chunks_text_block() {
    let msg = message(vec![AnthropicContentBlock::Text { text: "Hi".to_string() }], Some("end_turn"), 5, 2);
    let chunks = synthesize_anthropic_chunks(msg);
    assert_eq!(chunks.len(), 6);
    assert!(well_formed(&chunks));
}

#[test]
fn test_synthesize_anthropic_chunks_thinking_block() {
    let msg = message(
        vec![AnthropicContentBlock::Thinking {
            thinking: "Let me think...".to_string(),
            signature: Some("sig-xyz".to_string()),
        }],
        Some("end_turn"),
        5,
        3,
    );
    let chunks = synthesize_anthropic_chunks(msg);
    assert_eq!(chunks.len(), 6);
    assert!(well_formed(&chunks));
}

#[test]
fn test_synthesize_anthropic_chunks_multiple_blocks() {
    let msg = message(
        vec![
            AnthropicContentBlock::Thinking { thinking: "Thinking".to_string(), signature: None },
            AnthropicContentBlock::Text { text: "Answer".to_string() },
        ],
        Some("end_turn"),
        5,
        10,
    );
    let chunks = synthesize_anthropic_chunks(msg);
    assert_eq!(chunks.len(), 9);
    assert!(well_formed(&chunks));
}

#[test]
fn test_synthesize_anthropic_chunks_empty_content() {
    let msg = message(vec![], Some("end_turn"), 5, 0);
    let chunks = synthesize_anthropic_chunks(msg);
    assert_eq!(chunks.len(), 3);
    assert!(well_formed(&chunks));
}

#[test]
fn test_anthropic_event_sequence_order() {
    let mut msg = message(vec![AnthropicContentBlock::Text { text: "Hi".to_string() }], Some("end_turn"), 1, 1);
    msg.id = "msg-order-test".to_string();
    msg.model = "test".to_string();
    let chunks = synthesize_anthropic_chunks(msg);
    assert!(chunks.len() >= 6);
    assert!(well_formed(&chunks));
    assert_eq!(
        event_names(&chunks),
        vec![
            "message_start",
            "content_block_start",
            "content_block_delta",
            "content_block_stop",
            "message_delta",
            "message_stop"
        ]
    );
}

#[test]
fn anthropic_tool_use_block_streams_its_input() {
    let msg = message(
        vec![AnthropicContentBlock::ToolUse {
            id: "tu_1".to_string(),
            name: "lookup".to_string(),
            input: j(r#"{"q":"x"}"#),
        }],
        Some("tool_use"),
        3,
        4,
    );
    let chunks = synthesize_anthropic_chunks(msg);
    assert_eq!(chunks.len(), 6);
    match &chunks[1] {
        SynthEvent::Data { data, .. } => {
            assert_eq!(s(data, &["content_block", "type"]), "tool_use");
            assert_eq!(s(data, &["content_block", "name"]), "lookup");
        }
        SynthEvent::Done => panic!("data expected"),
    }
    match &chunks[2] {
        SynthEvent::Data { data, .. } => {
            assert_eq!(s(data, &["delta", "type"]), "input_json_delta");
            assert_eq!(s(data, &["delta", "partial_json"]), r#"{"q":"x"}"#);
        }
        SynthEvent::Done => panic!("data expected"),
    }
}

#[test]
fn synthesized_anthropic_stream_merges_back() {
    let long = "word ".repeat(30);
    let msg = message(
        vec![
            AnthropicContentBlock::Thinking { thinking: "mull it over".to_string(), signature: Some("sig".to_string()) },
            AnthropicContentBlock::Text { text: "Hello there".to_string() },
            AnthropicContentBlock::Text { text: long.clone() },
        ],
        Some("end_turn"),
        12,
        34,
    );
    let events: Vec<SseEvent> = synthesize_anthropic_chunks(msg)
        .into_iter()
        .filter_map(|e| match e {
            SynthEvent::Data { event, data } => Some(SseEvent { event_type: event, data }),
            SynthEvent::Done => None,
        })
        .collect();
    let merged = merge_anthropic_events(events);
    assert_eq!(s(&merged, &["id"]), "msg-123");
    assert_eq!(s(&merged, &["model"]), "test-model");
    assert_eq!(s(&merged, &["stop_reason"]), "end_turn");
    assert_eq!(n(&merged, &["usage", "input_tokens"]), 12);
    assert_eq!(n(&merged, &["usage", "output_tokens"]), 34);
    let content = merged.get("content").unwrap().as_array().unwrap();
    assert_eq!(content.len(), 3);
    assert_eq!(content[0].get("thinking").unwrap().as_str().unwrap(), "mull it over");
    assert_eq!(content[0].get("signature").unwrap().as_str().unwrap(), "sig");
    assert_eq!(content[1].get("text").unwrap().as_str().unwrap(), "Hello there");
    assert_eq!(content[2].get("text").unwrap().as_str().unwrap(), long);
}

#[test]
fn anthropic_stream_length_counts_block_events() {
    let long = "word ".repeat(30);
    let msg = message(
        vec![
            AnthropicContentBlock::Text { text: "Hi".to_string() },
            AnthropicContentBlock::ToolUse { id: "t1".to_string(), name: "f".to_string(), input: j("{\"a\":1}") },
            AnthropicContentBlock::ToolResult { tool_use_id: "t1".to_string(), content: j("[1,2]") },
            AnthropicContentBlock::ToolResult { tool_use_id: "t1".to_string(), content: j("\"ok\"") },
            AnthropicContentBlock::Text { text: long.clone() },
        ],
        Some("end_turn"),
        1,
        1,
    );
    let pieces = agentkit::text::chunk_text(&long, 50).len();
    assert_eq!(pieces, 3);
    let chunks = synthesize_anthropic_chunks(msg);
    // Three message events, 3 for "Hi", 3 for the tool call, none for the array result,
    // 3 for the string result, and 2 around the long text's pieces.
    assert_eq!(chunks.len(), 3 + 3 + 3 + 0 + 3 + 2 + pieces);
    let names = event_names(&chunks);
    assert_eq!(names[0], "message_start");
    assert_eq!(names[names.len() - 2], "message_delta");
    assert_eq!(names[names.len() - 1], "message_stop");
}
