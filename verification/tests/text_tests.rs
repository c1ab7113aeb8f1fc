use agentkit::proxy::handler::ProxyHandler;
use agentkit::text::{chunk_text, normalize_whitespace, truncate, truncate_message};

#[test]
fn test_is_json_content_type() {
    assert!(ProxyHandler::is_json_content_type("application/json"));
    assert!(ProxyHandler::is_json_content_type("application/json; charset=utf-8"));
    assert!(ProxyHandler::is_json_content_type("APPLICATION/JSON"));

    assert!(ProxyHandler::is_json_content_type("application/vnd.api+json"));
    assert!(ProxyHandler::is_json_content_type("application/vnd.github.v3+json"));
    assert!(ProxyHandler::is_json_content_type("application/vnd.custom+json; charset=utf-8"));

    assert!(!ProxyHandler::is_json_content_type("text/html"));
    assert!(!ProxyHandler::is_json_content_type("text/plain"));
    assert!(!ProxyHandler::is_json_content_type("text/javascript"));
    assert!(!ProxyHandler::is_json_content_type("application/javascript"));
    assert!(!ProxyHandler::is_json_content_type("image/png"));
    assert!(!ProxyHandler::is_json_content_type("image/jpeg"));
    assert!(!ProxyHandler::is_json_content_type("text/css"));
    assert!(!ProxyHandler::is_json_content_type("application/octet-stream"));
}

#[test]
fn test_chunk_text_short() {
    let text = "Hello world";
    let chunks = chunk_text(text, 50);
    assert_eq!(chunks.len(), 1);
    assert_eq!(chunks[0], "Hello world");
}

#[test]
fn test_chunk_text_long() {
    let text = "a".repeat(150);
    let chunks = chunk_text(&text, 50);
    assert!(chunks.len() >= 3);
    let reconstructed: String = chunks.concat();
    assert_eq!(reconstructed, text);
}

#[test]
fn test_chunk_text_splits_on_whitespace() {
    let text = "Hello world this is a test of text chunking functionality";
    let chunks = chunk_text(text, 20);
    for chunk in &chunks {
        if chunk.len() > 1 {
            assert!(chunk.ends_with(' ') || chunk == chunks.last().unwrap());
        }
    }
}

#[test]
fn test_chunk_text_empty() {
    let chunks = chunk_text("", 50);
    assert_eq!(chunks.len(), 1);
    assert_eq!(chunks[0], "");
}

#[test]
fn test_chunk_text_exact_size() {
    let text = "a".repeat(50);
    let chunks = chunk_text(&text, 50);
    assert_eq!(chunks.len(), 1);
    assert_eq!(chunks[0].len(), 50);
}

#[test]
fn chunk_text_pieces_end_after_whitespace_and_fit() {
    let text = "alpha beta gamma delta epsilon zeta";
    let chunks = chunk_text(text, 12);
    assert_eq!(chunks, vec!["alpha beta ", "gamma delta ", "epsilon zeta"]);
    assert_eq!(chunks.concat(), text);
    assert!(chunks.iter().all(|c| c.len() <= 12));
}

#[test]
fn chunk_text_without_whitespace_cuts_at_the_limit() {
    let chunks = chunk_text("abcdefghij", 4);
    assert_eq!(chunks, vec!["abcd", "efgh", "ij"]);
}

#[test]
fn test_truncate_short() {
    let result = truncate("hello", 10);
    assert_eq!(result, "hello");
}

#[test]
fn test_truncate_exact() {
    let result = truncate("hello", 5);
    assert_eq!(result, "hello");
}

#[test]
fn test_truncate_long() {
    let result = truncate("hello world this is long", 10);
    assert_eq!(result, "hello w...");
    assert_eq!(result.len(), 10);
}

#[test]
fn test_truncate_very_short() {
    let result = truncate("hi", 2);
    assert_eq!(result, "hi");
}

#[test]
fn test_truncate_empty() {
    let result = truncate("", 10);
    assert_eq!(result, "");
}

#[test]
fn test_normalize_whitespace() {
    assert_eq!(normalize_whitespace("hello\nworld"), "hello world");
    assert_eq!(normalize_whitespace("hello\t\tworld"), "hello world");
    assert_eq!(normalize_whitespace("hello\r\nworld"), "hello world");
    assert_eq!(normalize_whitespace("hello   world"), "hello world");
}

#[test]
fn normalize_whitespace_trims_the_ends() {
    assert_eq!(normalize_whitespace("  a \n b  "), "a b");
    assert_eq!(normalize_whitespace(""), "");
}

#[test]
fn test_truncate_message_short() {
    let msg = "This is a short message";
    assert_eq!(truncate_message(msg), msg);
}

#[test]
fn test_truncate_message_exactly_100() {
    let msg = "x".repeat(100);
    assert_eq!(truncate_message(&msg).len(), 100);
}

#[test]
fn test_truncate_message_long() {
    let msg = "x".repeat(300);
    let truncated = truncate_message(&msg);
    assert!(truncated.starts_with(&"x".repeat(25)));
    assert!(truncated.contains(" ... "));
    assert!(truncated.ends_with(&"x".repeat(75)));
}

#[test]
fn test_truncate_real_world() {
    let msg = "Can you help me write a Rust function that parses JSON and handles errors gracefully? I need it to work with large files and be memory efficient. The function should also validate the structure of the JSON before processing it further.";
    let truncated = truncate_message(msg);
    assert_eq!(truncated.len(), 105);
    assert!(truncated.contains(" ... "));
}

#[test]
fn chunk_text_counts_characters() {
    assert_eq!(chunk_text("éa", 2), vec!["éa"]);
    let chunks = chunk_text("ééé ééé", 4);
    assert_eq!(chunks, vec!["ééé ", "ééé"]);
    assert_eq!(chunk_text("", 0), vec![""]);
}

#[test]
fn truncate_message_counts_characters() {
    let msg = format!("{}aa{}a", "é".repeat(12), "é".repeat(37));
    assert_eq!(msg.len(), 101);
    assert_eq!(truncate_message(&msg), msg);
    let long = format!("{}{}", "é".repeat(60), "ü".repeat(60));
    let t = truncate_message(&long);
    assert_eq!(t.chars().count(), 105);
    assert_eq!(t, format!("{} ... {}", "é".repeat(25), format!("{}{}", "é".repeat(15), "ü".repeat(60))));
}
