use agentkit::json::{parse_json, Json};
use agentkit::wiki::chunking::{chunk_article, chunk_by_size, split_by_sections, try_chunk_article};
use agentkit::wiki::clean::{clean_markup, markup_patterns_compile, try_clean_markup};
use agentkit::wiki::dump::{parse_events, DumpParser, FeedOutcome, XmlEvent};
use agentkit::wiki::errors::WikiParseError;
use agentkit::wiki::model::{Article, Timestamp};
use agentkit::wiki::server::WikiServer;
use agentkit::wiki::service::{
    failure_response, handle_request, read_response, search_response, ReadHit, SearchHit,
    ServiceAction, ServiceFailure,
};

fn ts() -> Timestamp {
    Timestamp { secs: 1_700_000_000, nanos: 0 }
}

fn article(id: &str, title: &str, text: &str) -> Article {
    Article::new(id.to_string(), title.to_string(), text.to_string(), 0, ts())
}

fn start(name: &str) -> XmlEvent {
    XmlEvent::Start { name: name.to_string(), attrs: vec![] }
}

fn end(name: &str) -> XmlEvent {
    XmlEvent::End { name: name.to_string() }
}

fn text(t: &str) -> XmlEvent {
    XmlEvent::Text { raw: Some(t.to_string()) }
}

fn page(title: &str, ns: &str, body: &str) -> Vec<XmlEvent> {
    vec![
        start("page"),
        start("title"),
        text(title),
        end("title"),
        start("ns"),
        text(ns),
        end("ns"),
        start("revision"),
        start("timestamp"),
        text("2024-01-15T10:30:00Z"),
        end("timestamp"),
        start("text"),
        text(body),
        end("text"),
        end("revision"),
        end("page"),
    ]
}

#[test]
fn test_clean_internal_links() {
    assert_eq!(clean_markup("[[Test_Article]]"), "Test_Article");
    assert_eq!(clean_markup("[[Test_Article|Test Article]]"), "Test Article");
}

#[test]
fn test_clean_external_links() {
    assert_eq!(clean_markup("[https://example.com Example]"), "Example");
}

#[test]
fn test_clean_bold_italic() {
    assert_eq!(clean_markup("'''bold text'''"), "bold text");
    assert_eq!(clean_markup("''italic text''"), "italic text");
}

#[test]
fn test_clean_files_categories() {
    assert_eq!(clean_markup("[[File:example.jpg|thumbnail]]"), "");
    assert_eq!(clean_markup("[[Category:Test]]"), "");
}

#[test]
fn test_clean_templates() {
    assert_eq!(clean_markup("{{Template|param=value}}"), "");
}

#[test]
fn test_clean_headings() {
    assert_eq!(clean_markup("== Section ==\n\nContent"), "Section\n\nContent");
}

#[test]
fn test_complex_cleanup() {
    let input = r#"
== Introduction ==
This is a '''bold''' and ''italic'' text with [[Internal_Link]] and [[External_Link|display text]].
[[File:example.jpg|thumb|Example]] and [[Category:Examples]].
Visit [https://example.com our website] for more.
{{Note|This is a template}}
"#;
    let output = clean_markup(input);
    assert!(output.contains("Introduction"));
    assert!(output.contains("bold"));
    assert!(output.contains("italic"));
    assert!(output.contains("display"));
    assert!(!output.contains("File:"));
    assert!(!output.contains("Category:"));
    assert!(!output.contains("{{"));
    assert!(!output.contains("[["));
}

#[test]
fn markup_patterns_all_compile() {
    assert!(markup_patterns_compile());
    assert_eq!(try_clean_markup("a  <br/> b"), Some("a b".to_string()));
    assert_eq!(try_clean_markup("x\n\n\n\ny"), Some("x\n\ny".to_string()));
}

#[test]
fn test_article_creation() {
    let a = article("1", "Test_Article", "Test content");
    assert_eq!(a.id, "1");
    assert_eq!(a.title, "Test_Article");
    assert!(!a.is_redirect());
    assert_eq!(a.get_text(), "Test content");
}

#[test]
fn test_chunk_article() {
    let a = article("test-1", "Test_Article", "Intro\n\n== Section 1 ==\nContent 1\n\n== Section 2 ==\nContent 2");
    // The default configuration: at most 1000 bytes, 10% (100 bytes) of overlap.
    let chunks = chunk_article(&a, 1000, 100);
    assert!(!chunks.is_empty());
    assert_eq!(chunks[0].article_id, a.id);
    assert_eq!(chunks.len(), 1);
    assert_eq!(chunks[0].id, "test-1-chunk-0");
}

#[test]
fn sections_split_at_headings() {
    let secs = split_by_sections("Intro\n\n== Section 1 ==\nContent 1\n\n== Section 2 ==\nContent 2");
    assert_eq!(secs.len(), 3);
    assert_eq!(secs[0].heading, None);
    // The heading is the text before the first `=` after the first one: empty for `== x ==`.
    assert_eq!(secs[1].heading.as_deref(), Some(""));
    assert_eq!(secs[1].content, "Content 1\n\n");
    assert_eq!(secs[2].heading.as_deref(), Some(""));
    assert!(secs[2].content.contains("Content 2"));
}

#[test]
fn small_sections_pack_and_large_ones_split() {
    let a = article("a", "A", "== One ==\naaaa\n== Two ==\nbbbb");
    assert_eq!(chunk_article(&a, 12, 2).len(), 1);
    let chunks = chunk_article(&a, 8, 2);
    assert_eq!(chunks.len(), 2);
    assert_eq!(chunks[0].text, "\naaaa\n");
    assert_eq!(chunks[1].text, "\nbbbb");
    for (k, c) in chunks.iter().enumerate() {
        assert_eq!(c.chunk_index, k);
        assert_eq!(c.id, format!("a-chunk-{}", k));
    }
}

#[test]
fn windows_overlap_by_the_given_bytes() {
    let chunks = chunk_by_size("abcdefghij", "T", "t", 4, 1);
    let texts: Vec<&str> = chunks.iter().map(|c| c.text.as_str()).collect();
    assert_eq!(texts, vec!["abcd", "defg", "ghij"]);
    assert_eq!(chunks[2].chunk_index, 2);
}

#[test]
fn checked_chunking_matches_and_refuses() {
    let a = article("a", "A", "== One ==\naaaa\n== Two ==\nbbbb");
    let checked = try_chunk_article(&a, 8, 2).expect("sections always pack");
    let plain = chunk_article(&a, 8, 2);
    assert_eq!(checked.len(), plain.len());
    assert_eq!(checked[1].text, plain[1].text);
    // With sections, the size fallback is never reached, so any overlap will do.
    assert!(try_chunk_article(&a, 8, 20).is_some());
    let b = article("b", "B", "abcdefghij");
    let windows = try_chunk_article(&b, 4, 1).expect("ASCII text cuts anywhere");
    let texts: Vec<&str> = windows.iter().map(|c| c.text.as_str()).collect();
    assert_eq!(texts, vec!["abcd", "defg", "ghij"]);
    // No progress is possible when the overlap is not below the window size.
    assert!(try_chunk_article(&b, 4, 4).is_none());
    // A window edge at byte 1 falls inside the two-byte `é`.
    let c = article("c", "C", "ééé");
    assert!(try_chunk_article(&c, 1, 0).is_none());
    assert_eq!(try_chunk_article(&c, 2, 0).expect("edges between characters").len(), 3);
}

#[test]
fn namespaces_read_as_signed_decimals() {
    let cases = [
        ("+4", 4),
        ("-12", -12),
        ("-2147483648", i32::MIN),
        ("2147483647", i32::MAX),
        ("2147483648", 0),
        (" 3", 0),
        ("1a", 0),
        ("-", 0),
    ];
    for (ns, want) in cases {
        let mut events = vec![start("mediawiki")];
        events.extend(page("P", ns, "body"));
        events.push(end("mediawiki"));
        let arts = parse_events(events, ts()).expect("parses");
        assert_eq!(arts.len(), 1);
        assert_eq!(arts[0].namespace, want, "namespace text {:?}", ns);
    }
}

#[test]
fn dump_events_give_articles() {
    let mut events = vec![start("mediawiki")];
    events.extend(page("Test_Article", "0", "Some &amp; text"));
    events.extend(page("Empty page", "0", ""));
    events.extend(page("Talk:X", "1", "talk"));
    events.push(end("mediawiki"));
    let arts = parse_events(events, ts()).expect("parses");
    assert_eq!(arts.len(), 2);
    assert_eq!(arts[0].id, "page-Test_Article");
    assert_eq!(arts[0].text, "Some & text");
    assert_eq!(arts[0].namespace, 0);
    assert_eq!(arts[0].timestamp.secs, 1_705_314_600);
    assert_eq!(arts[1].title, "Talk:X");
    assert_eq!(arts[1].namespace, 1);
}

#[test]
fn unterminated_page_is_an_xml_error() {
    let events = vec![start("page"), start("title"), text("T"), end("title")];
    match parse_events(events, ts()) {
        Err(WikiParseError::XmlError(m)) => assert_eq!(m, "Unexpected EOF"),
        other => panic!("unexpected {:?}", other),
    }
}

#[test]
fn reader_error_stops_the_parser() {
    let mut p = DumpParser::new();
    assert!(matches!(p.feed(start("page"), ts()), FeedOutcome::Continue));
    match p.feed(XmlEvent::Error { message: "bad".to_string() }, ts()) {
        FeedOutcome::Failed(WikiParseError::XmlError(m)) => assert_eq!(m, "bad"),
        other => panic!("unexpected {:?}", other),
    }
    assert!(matches!(p.feed(XmlEvent::Eof, ts()), FeedOutcome::Stopped));
}

#[test]
fn server_search_and_read() {
    let mut s = WikiServer::new();
    s.add_articles(vec![
        article("1", "Rust_Language", "Rust is a systems language."),
        article("2", "Python", "A scripting language."),
        article("3", "Go", "Nothing here."),
    ]);
    let hits = s.wiki_search("LANGUAGE", 10);
    assert_eq!(hits.len(), 2);
    assert_eq!(hits[0].article_id, "1");
    assert_eq!(hits[0].id, "1-chunk-0");
    assert_eq!(hits[0].token_count, 500);
    assert_eq!(hits[1].article_title, "Python");
    assert_eq!(s.wiki_search("language", 1).len(), 1);
    assert_eq!(s.wiki_semantic_search("go", 5).len(), 1);
    assert_eq!(s.wiki_read("Rust Language").unwrap().id, "1");
    assert!(s.wiki_read("Java").is_none());
    assert!(s.wiki_related("Python", 3).is_empty());
}

fn result_text(r: &Json) -> String {
    r.get("content").unwrap().as_array().unwrap()[0].get("text").unwrap().as_str().unwrap().to_string()
}

#[test]
fn service_routes_requests() {
    let id = Some(Json::uint(1));
    match handle_request(id, "initialize", None) {
        ServiceAction::Respond(r) => {
            let res = r.result.unwrap();
            assert_eq!(res.get("protocolVersion").unwrap().as_str().unwrap(), "2024-11-05");
            assert!(r.error.is_none());
        }
        _ => panic!("respond expected"),
    }
    match handle_request(None, "tools/list", None) {
        ServiceAction::Respond(r) => {
            assert_eq!(r.result.unwrap().get("tools").unwrap().as_array().unwrap().len(), 2);
        }
        _ => panic!("respond expected"),
    }
    match handle_request(None, "nope", None) {
        ServiceAction::Respond(r) => {
            let e = r.error.unwrap();
            assert_eq!(e.get("code").unwrap().as_i64().unwrap(), -32601);
            assert_eq!(e.get("message").unwrap().as_str().unwrap(), "Method not found: nope");
        }
        _ => panic!("respond expected"),
    }
    let params = parse_json(r#"{"name":"wiki_search","arguments":{"query":"rust","limit":3}}"#).unwrap();
    match handle_request(None, "tools/call", Some(params)) {
        ServiceAction::Search { query, limit, .. } => {
            assert_eq!(query, "rust");
            assert_eq!(limit, 3);
        }
        _ => panic!("search expected"),
    }
    let params = parse_json(r#"{"name":"wiki_read","arguments":{"title":"Rust"}}"#).unwrap();
    assert!(matches!(handle_request(None, "tools/call", Some(params)), ServiceAction::Read { .. }));
    let params = parse_json(r#"{"name":"wiki_search","arguments":{"query":""}}"#).unwrap();
    match handle_request(None, "tools/call", Some(params)) {
        ServiceAction::Respond(r) => {
            let res = r.result.unwrap();
            let doc = parse_json(&result_text(&res)).unwrap();
            assert_eq!(doc.get("error").unwrap().as_str().unwrap(), "Query cannot be empty");
        }
        _ => panic!("respond expected"),
    }
    match handle_request(None, "tools/call", None) {
        ServiceAction::Respond(r) => {
            assert_eq!(r.error.unwrap().get("code").unwrap().as_i64().unwrap(), -32602);
        }
        _ => panic!("respond expected"),
    }
}

#[test]
fn service_responses() {
    let hits = vec![SearchHit {
        title: Some("Rust".to_string()),
        text: Some("body".to_string()),
        section: None,
        score: parse_json("0.5").unwrap(),
    }];
    let r = search_response(Some(Json::uint(7)), "rust", &hits);
    let doc = parse_json(&result_text(&r.result.unwrap())).unwrap();
    assert_eq!(doc.get("count").unwrap().as_u64().unwrap(), 1);
    assert_eq!(doc.get("query").unwrap().as_str().unwrap(), "rust");
    let first = &doc.get("results").unwrap().as_array().unwrap()[0];
    assert_eq!(first.get("title").unwrap().as_str().unwrap(), "Rust");
    assert!(first.get("section").unwrap().is_null());

    let r = read_response(None, "Missing", &None);
    let doc = parse_json(&result_text(&r.result.unwrap())).unwrap();
    assert_eq!(doc.get("found").unwrap().as_bool().unwrap(), false);
    assert_eq!(doc.get("title").unwrap().as_str().unwrap(), "Missing");
    let r = read_response(None, "x", &Some(ReadHit { title: Some("T".to_string()), text: Some("c".to_string()) }));
    let doc = parse_json(&result_text(&r.result.unwrap())).unwrap();
    assert_eq!(doc.get("content").unwrap().as_str().unwrap(), "c");

    let r = failure_response(None, ServiceFailure::VectorStore, "down");
    let e = r.error.unwrap();
    assert_eq!(e.get("code").unwrap().as_i64().unwrap(), -32000);
    assert_eq!(e.get("message").unwrap().as_str().unwrap(), "Vector store error: down");
}

#[test]
fn default_server_is_empty() {
    let s = WikiServer::default();
    assert!(s.articles.is_empty());
    assert!(s.wiki_search("x", 5).is_empty());
}

#[test]
fn namespace_numbers_are_read_strictly() {
    let mut events = Vec::new();
    events.extend(page("A", "-1", "t"));
    events.extend(page("B", "+2", "t"));
    events.extend(page("C", " 3", "t"));
    events.extend(page("D", "99999999999", "t"));
    events.extend(page("E", "-", "t"));
    let arts = parse_events(events, ts()).expect("parses");
    let ns: Vec<i32> = arts.iter().map(|a| a.namespace).collect();
    assert_eq!(ns, vec![-1, 2, 0, 0, 0]);
}

#[test]
fn self_closing_redirect_is_read() {
    let events = vec![
        start("page"),
        start("title"),
        text("Old name"),
        end("title"),
        XmlEvent::Empty { name: "redirect".to_string(), attrs: vec![("title".to_string(), "New name".to_string())] },
        start("text"),
        end("text"),
        end("page"),
    ];
    let arts = parse_events(events, ts()).expect("parses");
    assert_eq!(arts.len(), 1);
    assert_eq!(arts[0].redirects_to.as_deref(), Some("New name"));
    assert!(arts[0].is_redirect());
    assert_eq!(arts[0].id, "page-Old_name");
    assert_eq!(arts[0].text, "");
}
