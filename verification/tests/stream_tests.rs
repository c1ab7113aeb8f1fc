use agentkit::json::{json_text, parse_json, Json};
use agentkit::proxy::merge::{
    merge_anthropic_events, merge_chunk, merge_chunk_ok_exec, parse_accumulated_sse,
    parse_accumulated_sse_checked,
};
use agentkit::proxy::sse::{detect_format, lines_of, parse_sse_events, split_newlines, StreamFormat};
use agentkit::proxy::stream::{
    keeps_stream_header, render_events, render_pieces, scan_stream_chunk, watch_step, OutPiece, WatchAction,
    WatchEvent,
    ABSOLUTE_TIMEOUT_SECS, ACTIVITY_TIMEOUT_SECS,
};

fn j(text: &str) -> Json {
    parse_json(text).expect("test JSON")
}

fn text_of(v: &Json) -> String {
    json_text(v).expect("serializable")
}

#[test]
fn test_merge_chunk_preserves_model() {
    let chunk1 = j(r#"{"model": "qwen3", "choices": []}"#);
    let chunk2 = j(r#"{"choices": [{"delta": {"content": "hi"}}]}"#);
    let merged = merge_chunk(None, chunk1);
    let merged = merge_chunk(Some(merged), chunk2);
    assert_eq!(merged.get("model").unwrap().as_str().unwrap(), "qwen3");
}

#[test]
fn test_merge_chunk_preserves_timings() {
    let chunk1 = j(r#"{"model": "qwen3", "choices": []}"#);
    let chunk2 = j(r#"{"usage": {"prompt_tokens": 10}, "timings": {"prompt_ms": 50.5}}"#);
    let merged = merge_chunk(None, chunk1);
    let merged = merge_chunk(Some(merged), chunk2);
    assert!(merged.get("timings").is_some());
    let v: serde_json::Value = serde_json::from_str(&text_of(&merged)).unwrap();
    assert_eq!(v["timings"]["prompt_ms"].as_f64().unwrap(), 50.5);
}

#[test]
fn test_parse_accumulated_sse_complete() {
    let sse = "data: {\"model\":\"qwen3\",\"choices\":[]}\n\
               data: {\"usage\":{\"prompt_tokens\":10,\"completion_tokens\":5}}\n\
               data: [DONE]\n";
    let result = parse_accumulated_sse(sse).unwrap();
    assert_eq!(result.get("model").unwrap().as_str().unwrap(), "qwen3");
    assert_eq!(result.get("usage").unwrap().get("prompt_tokens").unwrap().as_u64().unwrap(), 10);
}

#[test]
fn test_merge_chunk_accumulates_content() {
    let chunk1 = j(r#"{"model": "test-model", "choices": [{"index": 0, "delta": {"content": "Hello"}, "message": {"content": "Hello"}}]}"#);
    let chunk2 = j(r#"{"choices": [{"index": 0, "delta": {"content": " World"}}]}"#);
    let merged = merge_chunk(None, chunk1);
    let merged = merge_chunk(Some(merged), chunk2);
    let choices = merged.get("choices").unwrap().as_array().unwrap();
    assert_eq!(choices[0].get("message").unwrap().get("content").unwrap().as_str().unwrap(), "Hello World");
}

#[test]
fn merge_chunk_merges_tool_call_arguments_and_finish() {
    let acc = j(r#"{"choices": [{"message": {"tool_calls": [{"index": 0, "function": {"name": "f", "arguments": "{\"a\":"}}]}}]}"#);
    let chunk = j(r#"{"choices": [{"delta": {"tool_calls": [{"index": 0, "function": {"arguments": "1}"}}, {"index": 2, "function": {"arguments": "x"}}]}, "finish_reason": "tool_calls"}]}"#);
    assert!(merge_chunk_ok_exec(&Some(acc.deep_clone()), &chunk));
    let merged = merge_chunk(Some(acc), chunk);
    let v: serde_json::Value = serde_json::from_str(&text_of(&merged)).unwrap();
    let calls = v["choices"][0]["message"]["tool_calls"].as_array().unwrap();
    assert_eq!(calls.len(), 3);
    assert_eq!(calls[0]["function"]["arguments"], "{\"a\":1}");
    assert!(calls[1].is_null());
    assert_eq!(calls[2]["index"], 2);
    assert_eq!(v["choices"][0]["finish_reason"], "tool_calls");
}

#[test]
fn merge_chunk_refused_when_message_is_not_an_object() {
    let acc = j(r#"{"choices": [{"message": 5}]}"#);
    let chunk = j(r#"{"choices": [{"delta": {"content": "x"}}]}"#);
    assert!(!merge_chunk_ok_exec(&Some(acc), &chunk));
    let acc = j(r#"[1, 2]"#);
    let chunk = j(r#"{"usage": {"total_tokens": 1}}"#);
    assert!(!merge_chunk_ok_exec(&Some(acc), &chunk));
    assert!(merge_chunk_ok_exec(&None, &j("[1]")));
}

#[test]
fn test_detect_format_anthropic() {
    let sse = "event: message_start\ndata: {\"type\":\"message_start\",\"message\":{\"model\":\"opus\"}}\n";
    assert_eq!(detect_format(sse), StreamFormat::Anthropic);
    let sse2 = "data: {\"type\":\"content_block_delta\",\"index\":0}\n";
    assert_eq!(detect_format(sse2), StreamFormat::Anthropic);
}

#[test]
fn test_detect_format_openai() {
    let sse = "data: {\"model\":\"gpt-4\",\"choices\":[]}\n";
    assert_eq!(detect_format(sse), StreamFormat::OpenAI);
}

#[test]
fn detect_format_unknown_and_skips_unparsable_lines() {
    assert_eq!(detect_format("data: not json\n: comment\n"), StreamFormat::Unknown);
    assert_eq!(detect_format(""), StreamFormat::Unknown);
    assert_eq!(detect_format("data: {bad\ndata: {\"choices\":1}\n"), StreamFormat::OpenAI);
}

#[test]
fn test_parse_anthropic_sse() {
    let sse = "event: message_start\ndata: {\"type\":\"message_start\",\"message\":{\"id\":\"msg_1\",\"type\":\"message\",\"role\":\"assistant\",\"content\":[],\"model\":\"opus-3\",\"stop_reason\":null,\"usage\":{\"input_tokens\":10,\"output_tokens\":0}}}\nevent: content_block_start\ndata: {\"type\":\"content_block_start\",\"index\":0,\"content_block\":{\"type\":\"text\",\"text\":\"\"}}\nevent: content_block_delta\ndata: {\"type\":\"content_block_delta\",\"index\":0,\"delta\":{\"type\":\"text_delta\",\"text\":\"Hello\"}}\nevent: content_block_delta\ndata: {\"type\":\"content_block_delta\",\"index\":0,\"delta\":{\"type\":\"text_delta\",\"text\":\" world\"}}\nevent: content_block_stop\ndata: {\"type\":\"content_block_stop\",\"index\":0}\nevent: message_delta\ndata: {\"type\":\"message_delta\",\"delta\":{\"stop_reason\":\"end_turn\"},\"usage\":{\"output_tokens\":5}}\nevent: message_stop\ndata: {\"type\":\"message_stop\"}\n";
    let result = parse_accumulated_sse(sse).unwrap();
    assert_eq!(result.get("model").unwrap().as_str().unwrap(), "opus-3");
    assert_eq!(result.get("stop_reason").unwrap().as_str().unwrap(), "end_turn");
    let usage = result.get("usage").unwrap();
    assert_eq!(usage.get("input_tokens").unwrap().as_u64().unwrap(), 10);
    assert_eq!(usage.get("output_tokens").unwrap().as_u64().unwrap(), 5);
    let content = result.get("content").unwrap().as_array().unwrap();
    assert_eq!(content.len(), 1);
    assert_eq!(content[0].get("text").unwrap().as_str().unwrap(), "Hello world");
}

#[test]
fn test_merge_anthropic_with_thinking() {
    let sse = "event: message_start\ndata: {\"type\":\"message_start\",\"message\":{\"id\":\"msg_1\",\"type\":\"message\",\"role\":\"assistant\",\"content\":[],\"model\":\"opus-3\",\"usage\":{\"input_tokens\":100,\"output_tokens\":0}}}\nevent: content_block_start\ndata: {\"type\":\"content_block_start\",\"index\":0,\"content_block\":{\"type\":\"thinking\",\"thinking\":\"\"}}\nevent: content_block_delta\ndata: {\"type\":\"content_block_delta\",\"index\":0,\"delta\":{\"type\":\"thinking_delta\",\"thinking\":\"Let me think\"}}\nevent: content_block_start\ndata: {\"type\":\"content_block_start\",\"index\":1,\"content_block\":{\"type\":\"text\",\"text\":\"\"}}\nevent: content_block_delta\ndata: {\"type\":\"content_block_delta\",\"index\":1,\"delta\":{\"type\":\"text_delta\",\"text\":\"Answer\"}}\nevent: message_delta\ndata: {\"type\":\"message_delta\",\"delta\":{\"stop_reason\":\"end_turn\"},\"usage\":{\"output_tokens\":50}}\n";
    let result = parse_accumulated_sse(sse).unwrap();
    assert_eq!(result.get("model").unwrap().as_str().unwrap(), "opus-3");
    let usage = result.get("usage").unwrap();
    assert_eq!(usage.get("input_tokens").unwrap().as_u64().unwrap(), 100);
    assert_eq!(usage.get("output_tokens").unwrap().as_u64().unwrap(), 50);
    let content = result.get("content").unwrap().as_array().unwrap();
    assert_eq!(content.len(), 2);
    assert_eq!(content[0].get("thinking").unwrap().as_str().unwrap(), "Let me think");
    assert_eq!(content[1].get("text").unwrap().as_str().unwrap(), "Answer");
}

#[test]
fn anthropic_delta_without_block_start_creates_typed_block() {
    let sse = "data: {\"type\":\"content_block_delta\",\"index\":1,\"delta\":{\"type\":\"input_json_delta\",\"partial_json\":\"{\\\"q\\\":\"}}\ndata: {\"type\":\"content_block_delta\",\"index\":1,\"delta\":{\"type\":\"input_json_delta\",\"partial_json\":\"1}\"}}\n";
    let result = parse_accumulated_sse(sse).unwrap();
    let v: serde_json::Value = serde_json::from_str(&text_of(&result)).unwrap();
    assert!(v["content"][0].is_null());
    assert_eq!(v["content"][1]["type"], "tool_use");
    assert_eq!(v["content"][1]["input"], "{\"q\":1}");
}

#[test]
fn anthropic_merge_refused_for_bad_message() {
    let sse = "event: message_start\ndata: {\"message\": \"oops\"}\n";
    assert!(parse_accumulated_sse_checked(sse).is_none());
    let ok = "event: message_start\ndata: {\"message\": null}\n";
    let merged = parse_accumulated_sse_checked(ok).unwrap().unwrap();
    assert_eq!(text_of(&merged), "{\"content\":[]}");
}

#[test]
fn unknown_format_gives_nothing() {
    assert!(parse_accumulated_sse("hello\n").is_none());
    assert!(parse_accumulated_sse_checked("hello\n").unwrap().is_none());
}

#[test]
fn merge_anthropic_events_starts_from_empty_content() {
    let events = parse_sse_events("data: {\"type\":\"ping\"}\n");
    let merged = merge_anthropic_events(events);
    assert_eq!(text_of(&merged), "{\"content\":[]}");
}

#[test]
fn sse_events_carry_the_last_event_type() {
    let events = parse_sse_events("event: a\ndata: {\"x\":1}\ndata: [DONE]\ndata: nope\ndata: {\"y\":2}\nevent: b\n");
    assert_eq!(events.len(), 2);
    assert_eq!(events[0].event_type.as_deref(), Some("a"));
    assert_eq!(events[1].event_type.as_deref(), Some("a"));
}

#[test]
fn lines_and_newline_pieces() {
    assert_eq!(lines_of("a\r\nb\n\nc"), vec!["a", "b", "", "c"]);
    assert_eq!(lines_of("a\n"), vec!["a"]);
    assert_eq!(split_newlines("a\n\nb\n"), vec!["a", "", "b", ""]);
    assert_eq!(split_newlines(""), vec![""]);
}

#[test]
fn stream_chunk_scan_rewrites_and_keeps() {
    let chunk = "event: message_start\ndata: {\"b\": 1, \"a\": 2}\n\ndata: [DONE]\nid: 7";
    let scan = scan_stream_chunk(chunk, true);
    assert!(scan.completed);
    assert_eq!(scan.kept.len(), 1);
    assert_eq!(scan.kept[0].event_type.as_deref(), Some("message_start"));
    let mut out = String::new();
    for p in &scan.pieces {
        match p {
            OutPiece::Text(t) => out.push_str(t),
            OutPiece::Data(j) => {
                out.push_str("data: ");
                out.push_str(&text_of(j));
            }
        }
    }
    assert_eq!(out, "event: message_start\ndata: {\"a\":2,\"b\":1}\n\ndata: [DONE]\nid: 7");
}

#[test]
fn stream_chunk_scan_without_stats_keeps_nothing() {
    let scan = scan_stream_chunk("event: message_stop\ndata: {\"type\":\"message_stop\"}\n", false);
    assert!(!scan.completed);
    assert!(scan.kept.is_empty());
    let scan = scan_stream_chunk("event: message_stop\ndata: {\"type\":\"message_stop\"}\n", true);
    assert!(scan.completed);
    let scan = scan_stream_chunk("data: not json", true);
    assert!(!scan.completed);
    assert!(matches!(&scan.pieces[0], OutPiece::Text(t) if t == "data: not json"));
}

#[test]
fn streaming_drops_content_length_only() {
    assert!(!keeps_stream_header("content-length"));
    assert!(keeps_stream_header("content-type"));
}

#[test]
fn stream_watcher_decisions() {
    assert_eq!(watch_step(WatchEvent::Activity), WatchAction::KeepWaiting);
    assert_eq!(watch_step(WatchEvent::Completed), WatchAction::TakeStats { completed: true });
    assert_eq!(watch_step(WatchEvent::InactivityTimeout), WatchAction::TakeStats { completed: false });
    assert_eq!(watch_step(WatchEvent::AbsoluteTimeout), WatchAction::TakeStats { completed: false });
    assert_eq!(watch_step(WatchEvent::CompletionDropped), WatchAction::TakeStats { completed: false });
    assert_eq!((ACTIVITY_TIMEOUT_SECS, ABSOLUTE_TIMEOUT_SECS), (90, 600));
}

#[test]
fn json_member_writes_and_reads() {
    let mut v = j(r#"{"a":1,"b":2}"#);
    v.set("a", Json::string("x"));
    v.set("a", Json::string("y"));
    v.set("c", Json::uint(3));
    assert_eq!(v.get("a").unwrap().as_str(), Some("y"));
    assert_eq!(v.get("b").unwrap().as_u64(), Some(2));
    assert_eq!(v.get("c").unwrap().as_u64(), Some(3));
    assert_eq!(text_of(&v), r#"{"a":"y","b":2,"c":3}"#);
    let mut n = Json::Null;
    n.set("k", Json::Bool(true));
    assert_eq!(n.get("k").unwrap().as_bool(), Some(true));
}

#[test]
fn rendered_chunk_and_accumulation_keep_the_event_stream() {
    let chunk = "event: message_stop\ndata: {\"type\":\"message_stop\"}\n";
    let scan = scan_stream_chunk(chunk, true);
    assert_eq!(render_pieces(&scan.pieces), "event: message_stop\ndata: {\"type\":\"message_stop\"}\n");
    assert_eq!(render_events(&scan.kept), "event: message_stop\ndata: {\"type\":\"message_stop\"}\n");
    let plain = scan_stream_chunk("data: {\"a\": 1}\n\ndata: [DONE]\n", true);
    assert_eq!(render_pieces(&plain.pieces), "data: {\"a\":1}\n\ndata: [DONE]\n");
    assert_eq!(render_events(&plain.kept), "data: {\"a\":1}\n");
    assert_eq!(render_pieces(&Vec::new()), "");
}
