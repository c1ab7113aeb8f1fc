use std::io::Write;

use agentkit::json::{parse_json, Json};
use agentkit::proxy::context::{
    endpoint_path, endpoint_url, max_model_len_from_models, n_ctx_from_props, BackendType,
    ContextCache,
};
use agentkit::proxy::handler::{
    backend_request_json, backend_url, bearer, client_wants_streaming, decompress_body,
    forwards_passthrough_header, forwards_request_header, is_anthropic_path, is_event_stream,
    is_json_response, json_preview, plan_complete_response, StreamSynthesis, is_passthrough_route, keeps_response_header, ProxyHandler, ProxyState,
};
use agentkit::proxy::metrics::{ContextInfo, ResponseSummary};
use agentkit::proxy::request_log::{
    extract_first_user_message, extract_message_content, format_request_log,
};

fn j(text: &str) -> Json {
    parse_json(text).expect("test JSON")
}

#[test]
fn test_format_request_log_basic() {
    let req = j(r#"{"model":"qwen3","messages":[{"role":"user","content":"Hello"}],"stream":true}"#);
    let log = format_request_log(&req);
    assert!(log.contains("model=qwen3"));
    assert!(log.contains("msgs=1"));
    assert!(log.contains("stream"));
    assert!(log.contains("\"Hello\""));
}

#[test]
fn test_format_request_log_with_tools() {
    let req = j(r#"{"model":"qwen3","messages":[{"role":"user","content":"Test"}],"stream":false,
        "tools":[{"type":"function","function":{"name":"get_weather"}},{"type":"function","function":{"name":"read_file"}}]}"#);
    let log = format_request_log(&req);
    assert!(log.contains("tools=2"));
    assert!(!log.contains("stream"));
}

#[test]
fn request_log_exact_line() {
    let req = j(r#"{"messages":[{"role":"user","content":"a\n b"}],"stream":true,"tools":[1]}"#);
    assert_eq!(format_request_log(&req), "\u{2192} model=unknown msgs=1 stream tools=1 \"a b\"");
    assert_eq!(format_request_log(&j("{}")), "\u{2192} model=unknown msgs=0");
}

#[test]
fn test_extract_first_user_message() {
    let req = j(r#"{"model":"test","messages":[{"role":"system","content":"You are helpful"},
        {"role":"user","content":"Hello"},{"role":"assistant","content":"Hi"}]}"#);
    assert_eq!(extract_first_user_message(&req), Some("Hello".to_string()));
    assert_eq!(extract_first_user_message(&j(r#"{"messages":[]}"#)), None);
}

#[test]
fn test_extract_message_content_array() {
    let msg = j(r#"{"role":"user","content":[{"type":"text","text":"Part 1"},{"type":"text","text":"Part 2"}]}"#);
    assert_eq!(extract_message_content(&msg), Some("Part 1 Part 2".to_string()));
    assert_eq!(extract_message_content(&j(r#"{"content":[{"type":"image"}]}"#)), None);
}

#[test]
fn test_request_metrics_from_response_basic() {
    let response = j(r#"{"model":"test-model","choices":[{"finish_reason":"stop","message":{"content":"Hello world"}}]}"#);
    let request = j(r#"{"messages":[{"role":"user","content":"Hi"}]}"#);
    let m = ResponseSummary::from_response(&response, &request, false);
    assert_eq!(m.model, "test-model");
    assert_eq!(m.finish_reason, "stop");
    assert_eq!(m.output_len, 11);
    assert!(!m.streaming);
}

#[test]
fn test_request_metrics_from_response_with_usage() {
    let response = j(r#"{"model":"test-model","usage":{"prompt_tokens":100,"completion_tokens":50,"total_tokens":150},"choices":[{"finish_reason":"stop"}]}"#);
    let m = ResponseSummary::from_response(&response, &j("{}"), true);
    assert_eq!(m.prompt_tokens, 100);
    assert_eq!(m.completion_tokens, 50);
    assert_eq!(m.total_tokens, 150);
    assert!(m.streaming);
}

#[test]
fn test_request_metrics_from_response_with_timings() {
    let response = j(r#"{"model":"test-model","timings":{"prompt_ms":50.5,"predicted_ms":100.25,"prompt_per_second":198.0,"predicted_per_second":99.75,"cache_n":10},"choices":[{"finish_reason":"stop"}]}"#);
    let m = ResponseSummary::from_response(&response, &j("{}"), false);
    assert!(m.has_timings);
    assert_eq!(m.context_used, Some(10));
}

#[test]
fn test_request_metrics_from_response_with_messages() {
    let response = j(r#"{"model":"test-model","choices":[{"finish_reason":"stop"}]}"#);
    let request = j(r#"{"messages":[{"role":"system","content":"You are helpful"},{"role":"user","content":"Hello there"}]}"#);
    let m = ResponseSummary::from_response(&response, &request, false);
    assert_eq!(m.input_messages, 2);
    assert_eq!(m.input_len, 26);
}

#[test]
fn test_request_metrics_from_response_multimodal_content() {
    let response = j(r#"{"model":"test-model","choices":[{"finish_reason":"stop"}]}"#);
    let request = j(r#"{"messages":[{"role":"user","content":[{"type":"text","text":"What's in this image?"},{"type":"image_url","image_url":{"url":"http://example.com/image.png"}}]}]}"#);
    let m = ResponseSummary::from_response(&response, &request, false);
    assert_eq!(m.input_messages, 1);
    assert_eq!(m.input_len, 21);
}

#[test]
fn test_request_metrics_from_response_no_choices() {
    let m = ResponseSummary::from_response(&j(r#"{"model":"test-model"}"#), &j("{}"), false);
    assert_eq!(m.finish_reason, "unknown");
    assert_eq!(m.output_len, 0);
}

#[test]
fn test_extended_usage_extraction() {
    let response = j(r#"{"choices":[{"message":{"role":"assistant","content":"test"},"finish_reason":"stop"}],
        "usage":{"prompt_tokens":100,"completion_tokens":50,"total_tokens":150,
        "completion_tokens_details":{"reasoning_tokens":20,"accepted_prediction_tokens":5}}}"#);
    let m = ResponseSummary::from_response(&response, &j(r#"{"messages":[]}"#), false);
    assert_eq!(m.reasoning_tokens, Some(20));
    assert_eq!(m.accepted_prediction_tokens, Some(5));
    assert_eq!(m.rejected_prediction_tokens, None);
}

#[test]
fn anthropic_usage_is_counted() {
    let response = j(r#"{"model":"m","stop_reason":"end_turn","content":[{"type":"text","text":"abc"}],"usage":{"input_tokens":7,"output_tokens":3}}"#);
    let m = ResponseSummary::from_response(&response, &j("{}"), false);
    assert_eq!((m.prompt_tokens, m.completion_tokens, m.total_tokens), (7, 3, 10));
}

#[test]
fn test_context_info_from_slots_response() {
    let response = j(r#"[{"id":0,"n_ctx":4096,"n_tokens":100,"is_processing":true},{"id":1,"n_ctx":4096,"n_tokens":50,"is_processing":false}]"#);
    let info = ContextInfo::from_slots_response(&response);
    assert!(info.is_some());
    let info = info.unwrap();
    assert_eq!(info.total_context, 8192);
    assert_eq!(info.used_context, 150);
    assert_eq!(info.slots.len(), 2);
    assert_eq!(info.slots[0].slot_id, 0);
    assert!(info.slots[0].is_processing);
    assert!(!info.slots[1].is_processing);
}

#[test]
fn test_context_info_from_slots_response_empty() {
    let info = ContextInfo::from_slots_response(&j("[]"));
    assert!(info.is_some());
    let info = info.unwrap();
    assert_eq!(info.total_context, 0);
    assert_eq!(info.used_context, 0);
    assert!(info.slots.is_empty());
}

#[test]
fn test_context_info_from_slots_response_not_array() {
    assert!(ContextInfo::from_slots_response(&j(r#"{"not":"array"}"#)).is_none());
}

#[test]
fn test_context_info_from_slots_response_partial_data() {
    let info = ContextInfo::from_slots_response(&j(r#"[{"id":0},{"n_ctx":2048,"n_tokens":25}]"#)).unwrap();
    assert_eq!(info.slots.len(), 2);
    assert_eq!(info.slots[0].n_ctx, 0);
    assert_eq!(info.slots[1].slot_id, 0);
}

#[test]
fn routes_and_headers() {
    assert!(is_passthrough_route("GET", "/v1/models"));
    assert!(!is_passthrough_route("POST", "/v1/models"));
    assert!(!is_passthrough_route("GET", "/v1/chat/completions"));
    assert!(is_anthropic_path("/v1/messages"));
    assert!(!is_anthropic_path("/v1/chat/completions"));
    assert_eq!(backend_url("http://h:8080", "/v1/x", Some("a=1")), "http://h:8080/v1/x?a=1");
    assert_eq!(backend_url("http://h", "/p", None), "http://h/p");
    assert!(!forwards_request_header("authorization"));
    assert!(forwards_request_header("accept"));
    assert!(forwards_passthrough_header("content-length"));
    assert!(!keeps_response_header("content-type", true));
    assert!(keeps_response_header("content-type", false));
    assert!(!keeps_response_header("transfer-encoding", false));
    assert_eq!(bearer("k"), "Bearer k");
    assert!(is_event_stream(Some("text/event-stream; charset=utf-8")));
    assert!(!is_event_stream(None));
    assert!(is_json_response(Some("Application/JSON")));
    assert!(!is_json_response(None));
    assert!(ProxyHandler::is_json_content_type("application/json; charset=utf-8"));
}

#[test]
fn backend_request_forces_non_streaming_and_model() {
    let req = j(r#"{"model":"a","stream":true,"messages":[]}"#);
    assert!(client_wants_streaming(&Some(req.deep_clone())));
    let out = backend_request_json(req, Some("b"));
    assert_eq!(out.get("stream").unwrap().as_bool(), Some(false));
    assert_eq!(out.get("model").unwrap().as_str(), Some("b"));
    assert!(!client_wants_streaming(&Some(out)));
    assert!(!client_wants_streaming(&None));
}

#[test]
fn handler_keeps_its_state() {
    let h = ProxyHandler::new(ProxyState {
        base_url: "http://b".to_string(),
        api_key: None,
        model_override: Some("m".to_string()),
        stats_enabled: true,
        hide_requests: false,
        log_augmented_request_text: false,
    });
    assert_eq!(h.state.base_url, "http://b");
    assert_eq!(h.state.model_override.as_deref(), Some("m"));
}

#[test]
fn decompress_each_encoding() {
    let plain = b"hello hello hello".to_vec();
    let mut gz = flate2::write::GzEncoder::new(Vec::new(), flate2::Compression::default());
    gz.write_all(&plain).unwrap();
    let gz = gz.finish().unwrap();
    assert_eq!(decompress_body(&gz, Some("GZIP")).unwrap(), plain);

    let mut df = flate2::write::DeflateEncoder::new(Vec::new(), flate2::Compression::default());
    df.write_all(&plain).unwrap();
    let df = df.finish().unwrap();
    assert_eq!(decompress_body(&df, Some("deflate")).unwrap(), plain);

    let mut br = Vec::new();
    {
        let mut w = brotli::CompressorWriter::new(&mut br, 4096, 5, 22);
        w.write_all(&plain).unwrap();
    }
    assert_eq!(decompress_body(&br, Some("br")).unwrap(), plain);

    let zs = zstd::encode_all(&plain[..], 0).unwrap();
    assert_eq!(decompress_body(&zs, Some("zstd")).unwrap(), plain);

    assert_eq!(decompress_body(&plain, None).unwrap(), plain);
    assert_eq!(decompress_body(&plain, Some("identity")).unwrap(), plain);
    let err = decompress_body(b"not gzip", Some("gzip")).unwrap_err();
    assert!(err.starts_with("gzip decompression failed: "));
}

#[test]
fn context_endpoints_and_cache() {
    assert_eq!(endpoint_path("/api/props", Some("/api")), "/props");
    assert_eq!(endpoint_path("/props", Some("/api")), "/props");
    assert_eq!(endpoint_url("http://h", "/props", None), "http://h/props");
    assert_eq!(n_ctx_from_props(&j(r#"{"default_generation_settings":{"n_ctx":8192}}"#)), Some(8192));
    assert_eq!(n_ctx_from_props(&j("{}")), None);
    assert_eq!(max_model_len_from_models(&j(r#"{"data":[{"max_model_len":32768}]}"#)), Some(32768));
    assert_eq!(max_model_len_from_models(&j(r#"{"data":[]}"#)), None);

    let mut cache = ContextCache::new();
    assert_eq!(cache.lookup("http://a"), None);
    cache.insert("http://a", 4096, BackendType::LlamaCpp);
    cache.insert("http://b", 100, BackendType::Vllm);
    cache.insert("http://a", 8192, BackendType::LlamaCpp);
    assert_eq!(cache.lookup("http://a"), Some(8192));
    assert_eq!(cache.lookup("http://b"), Some(100));
}

#[test]
fn preview_hides_nested_values() {
    let v = j(r#"{"a":1,"b":{"x":2},"c":[1,2],"d":"t"}"#);
    assert_eq!(json_preview(&v), "{\n  \"a\": 1,\n  \"b\": \"[object]\",\n  \"c\": \"[object]\",\n  \"d\": \"t\"\n}");
    assert_eq!(json_preview(&j("[1,2]")), "[\n  1,\n  2\n]");
}

#[test]
fn complete_response_plans() {
    let body = br#"{"model":"m","choices":[]}"#.to_vec();
    let mut gz = flate2::write::GzEncoder::new(Vec::new(), flate2::Compression::default());
    gz.write_all(&body).unwrap();
    let gz = gz.finish().unwrap();
    let p = plan_complete_response(&gz, Some("gzip"), Some("application/json"), true, true, true, true).unwrap();
    assert_eq!(p.body, body);
    assert_eq!(p.json.as_ref().unwrap().get("model").unwrap().as_str(), Some("m"));
    assert!(p.collect_stats);
    assert_eq!(p.synthesis, StreamSynthesis::Anthropic);

    let p = plan_complete_response(&body, None, Some("application/json"), true, false, false, true).unwrap();
    assert!(!p.collect_stats);
    assert_eq!(p.synthesis, StreamSynthesis::OpenAI);

    let p = plan_complete_response(&body, None, Some("text/plain"), true, false, true, true).unwrap();
    assert!(p.json.is_none());
    assert!(!p.collect_stats);
    assert_eq!(p.synthesis, StreamSynthesis::NoSynthesis);

    let p = plan_complete_response(b"not json", None, None, true, false, true, true).unwrap();
    assert!(p.json.is_none());

    let p = plan_complete_response(b"{oops", None, Some("application/json"), true, false, true, true).unwrap();
    assert!(p.json.is_none());
    assert_eq!(p.synthesis, StreamSynthesis::NoSynthesis);

    let e = plan_complete_response(b"xx", Some("gzip"), Some("application/json"), false, false, true, true).unwrap_err();
    assert!(e.starts_with("Failed to decompress response: gzip decompression failed: "));
}
