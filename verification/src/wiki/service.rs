//! The wiki tool server's protocol: which requests are answered at once, which need a
//! search of the vector store, and the responses built from what the store returns.
use vstd::prelude::*;
use vstd::string::*;
use crate::json::{
    Json, JsonV, JsonNumberV, int_view, jget, ji64, jstr, json_text, object2, object3, object4,
    spec_json_text,
};
use crate::proxy::request_log::concat2;
use crate::proxy::synthesis::{opt_str_v, str_v, uint_v};
use crate::text::{chars_of, str_eq, string_of_range};

verus! {

/// A response of the tool server.
#[derive(Debug)]
pub struct McpResponse {
    pub id: Option<Json>,
    pub result: Option<Json>,
    pub error: Option<Json>,
}

/// What the server must do for a request.
#[derive(Debug)]
pub enum ServiceAction {
    /// Answer at once.
    Respond(McpResponse),
    /// Embed the query and search the store, then answer with `search_response`.
    Search { id: Option<Json>, query: String, limit: usize },
    /// Look the title up in the store, then answer with `read_response`.
    Read { id: Option<Json>, title: String },
}

pub open spec fn oj(o: Option<Json>) -> Option<JsonV> {
    match o {
        Some(j) => Some(j@),
        None => None,
    }
}

pub enum ResponseV {
    Respond(Option<JsonV>, Option<JsonV>, Option<JsonV>),
    Search(Option<JsonV>, Seq<char>, usize),
    Read(Option<JsonV>, Seq<char>),
}

impl View for ServiceAction {
    type V = ResponseV;

    open spec fn view(&self) -> ResponseV {
        match self {
            ServiceAction::Respond(r) => ResponseV::Respond(oj(r.id), oj(r.result), oj(r.error)),
            ServiceAction::Search { id, query, limit } => ResponseV::Search(oj(*id), query@, *limit),
            ServiceAction::Read { id, title } => ResponseV::Read(oj(*id), title@),
        }
    }
}

/// An error object: `{"code": .., "message": ..}`.
pub open spec fn error_v(code: i64, message: Seq<char>) -> JsonV {
    JsonV::Object(seq![("code"@, int_view(code)), ("message"@, str_v(message))])
}

/// A tool result carrying one text item.
pub open spec fn text_content_v(text: Seq<char>) -> JsonV {
    JsonV::Object(seq![("content"@, JsonV::Array(seq![JsonV::Object(seq![("text"@, str_v(text)), ("type"@, str_v("text"@))])]))])
}

/// The JSON text of a document, as the server writes it into a tool result.
pub open spec fn doc_text(j: JsonV) -> Seq<char> {
    match spec_json_text(j) {
        Some(t) => t,
        None => seq![],
    }
}

/// A tool result whose text is the JSON of `{"error": message}`.
pub open spec fn tool_error_v(message: Seq<char>) -> JsonV {
    text_content_v(doc_text(JsonV::Object(seq![("error"@, str_v(message))])))
}

pub open spec fn initialize_result_v() -> JsonV {
    JsonV::Object(seq![
        ("capabilities"@, JsonV::Object(seq![("tools"@, JsonV::Object(seq![]))])),
        ("protocolVersion"@, str_v("2024-11-05"@)),
        ("serverInfo"@, JsonV::Object(seq![("name"@, str_v("wikipedia-mcp"@)), ("version"@, str_v("0.1.0"@))])),
    ])
}

pub open spec fn string_schema_v() -> JsonV {
    JsonV::Object(seq![("type"@, str_v("string"@))])
}

pub open spec fn tools_list_v() -> JsonV {
    JsonV::Object(seq![("tools"@, JsonV::Array(seq![
        JsonV::Object(seq![
            ("description"@, str_v("Search Wikipedia articles by keyword or semantic similarity"@)),
            ("inputSchema"@, JsonV::Object(seq![
                ("properties"@, JsonV::Object(seq![("limit"@, JsonV::Object(seq![("type"@, str_v("integer"@))])), ("query"@, string_schema_v())])),
                ("required"@, JsonV::Array(seq![str_v("query"@)])),
                ("type"@, str_v("object"@)),
            ])),
            ("name"@, str_v("wiki_search"@)),
        ]),
        JsonV::Object(seq![
            ("description"@, str_v("Read a full Wikipedia article by title"@)),
            ("inputSchema"@, JsonV::Object(seq![
                ("properties"@, JsonV::Object(seq![("title"@, string_schema_v())])),
                ("required"@, JsonV::Array(seq![str_v("title"@)])),
                ("type"@, str_v("object"@)),
            ])),
            ("name"@, str_v("wiki_read"@)),
        ]),
    ]))])
}

/// The text member `key` of an optional object (empty when absent or not text).
pub open spec fn text_arg(j: JsonV, key: Seq<char>) -> Seq<char> {
    match jget(j, key) {
        Some(v) => match jstr(v) {
            Some(s) => s,
            None => seq![],
        },
        None => seq![],
    }
}

/// What a `tools/call` request asks for.
pub open spec fn spec_tool_call(id: Option<JsonV>, params: Option<JsonV>) -> ResponseV {
    match params {
        None => ResponseV::Respond(id, None, Some(error_v(-32602i64, "Missing parameters"@))),
        Some(p) => {
            let name = text_arg(p, "name"@);
            let args = jget(p, "arguments"@);
            if name == "wiki_search"@ {
                match args {
                    None => ResponseV::Respond(id, None, Some(error_v(-32602i64, "Missing arguments"@))),
                    Some(a) => {
                        let query = text_arg(a, "query"@);
                        let limit: i64 = match jget(a, "limit"@) {
                            Some(l) => match ji64(l) {
                                Some(n) => n,
                                None => 10i64,
                            },
                            None => 10i64,
                        };
                        if query.len() == 0 {
                            ResponseV::Respond(id, Some(tool_error_v("Query cannot be empty"@)), None)
                        } else {
                            ResponseV::Search(id, query, limit as usize)
                        }
                    },
                }
            } else if name == "wiki_read"@ {
                match args {
                    None => ResponseV::Respond(id, None, Some(error_v(-32602i64, "Missing arguments"@))),
                    Some(a) => {
                        let title = text_arg(a, "title"@);
                        if title.len() == 0 {
                            ResponseV::Respond(id, Some(tool_error_v("Title cannot be empty"@)), None)
                        } else {
                            ResponseV::Read(id, title)
                        }
                    },
                }
            } else {
                ResponseV::Respond(id, None, Some(error_v(-32602i64, "Unknown tool: "@ + name)))
            }
        },
    }
}

/// What a request asks for: `initialize` and `tools/list` are answered at once,
/// `tools/call` names a tool, any other method is not found.
pub open spec fn spec_handle_request(id: Option<JsonV>, method: Seq<char>, params: Option<JsonV>) -> ResponseV {
    if method == "initialize"@ {
        ResponseV::Respond(id, Some(initialize_result_v()), None)
    } else if method == "tools/list"@ {
        ResponseV::Respond(id, Some(tools_list_v()), None)
    } else if method == "tools/call"@ {
        spec_tool_call(id, params)
    } else {
        ResponseV::Respond(id, None, Some(error_v(-32601i64, "Method not found: "@ + method)))
    }
}

fn error_json(code: i64, message: String) -> (r: Json)
    ensures
        r@ == error_v(code, message@),
{
    object2("code", Json::signed(code), "message", Json::Str(message))
}

fn text_content(text: String) -> (r: Json)
    ensures
        r@ == text_content_v(text@),
{
    let item = object2("text", Json::Str(text), "type", Json::string("text"));
    let mut items: Vec<Json> = Vec::new();
    items.push(item);
    proof {
        Json::lemma_items_view(items@);
        assert(Json::items_view(items@) =~= seq![items@[0]@]);
    }
    let mut e: Vec<(String, Json)> = Vec::new();
    e.push((String::from_str("content"), Json::Array(items)));
    proof {
        Json::lemma_entries_view(e@);
        assert(Json::entries_view(e@) =~= seq![("content"@, e@[0].1@)]);
    }
    Json::object_of(e)
}

/// The JSON text of a document (empty should writing it fail).
fn doc_text_exec(j: &Json) -> (r: String)
    ensures
        r@ == doc_text(j@),
{
    proof {
        reveal_strlit("");
    }
    match json_text(j) {
        Some(t) => t,
        None => String::new(),
    }
}

fn tool_error(message: &str) -> (r: Json)
    ensures
        r@ == tool_error_v(message@),
{
    let mut e: Vec<(String, Json)> = Vec::new();
    e.push((String::from_str("error"), Json::string(message)));
    proof {
        Json::lemma_entries_view(e@);
        assert(Json::entries_view(e@) =~= seq![("error"@, str_v(message@))]);
    }
    let doc = Json::object_of(e);
    text_content(doc_text_exec(&doc))
}

fn text_arg_exec(j: &Json, key: &str) -> (r: String)
    ensures
        r@ == text_arg(j@, key@),
{
    proof {
        reveal_strlit("");
    }
    match j.get(key) {
        Some(v) => match v.as_str() {
            Some(s) => String::from_str(s),
            None => String::new(),
        },
        None => String::new(),
    }
}

fn respond(id: Option<Json>, result: Option<Json>, error: Option<Json>) -> (r: ServiceAction)
    ensures
        r@ == ResponseV::Respond(oj(id), oj(result), oj(error)),
{
    ServiceAction::Respond(McpResponse { id, result, error })
}

fn single_member(key: &str, v: Json) -> (r: Json)
    ensures
        r@ == JsonV::Object(seq![(key@, v@)]),
{
    let mut e: Vec<(String, Json)> = Vec::new();
    e.push((String::from_str(key), v));
    proof {
        Json::lemma_entries_view(e@);
        assert(Json::entries_view(e@) =~= seq![(key@, e@[0].1@)]);
    }
    Json::object_of(e)
}

fn single_item(v: Json) -> (r: Json)
    ensures
        r@ == JsonV::Array(seq![v@]),
{
    let mut items: Vec<Json> = Vec::new();
    items.push(v);
    proof {
        Json::lemma_items_view(items@);
        assert(Json::items_view(items@) =~= seq![items@[0]@]);
    }
    Json::Array(items)
}

fn pair_items(a: Json, b: Json) -> (r: Json)
    ensures
        r@ == JsonV::Array(seq![a@, b@]),
{
    let ghost (x, y) = (a@, b@);
    let mut items: Vec<Json> = Vec::new();
    items.push(a);
    items.push(b);
    proof {
        Json::lemma_items_view(items@);
        assert(Json::items_view(items@) =~= seq![x, y]);
    }
    Json::Array(items)
}

fn initialize_result() -> (r: Json)
    ensures
        r@ == initialize_result_v(),
{
    object3(
        "capabilities",
        single_member("tools", Json::empty_object()),
        "protocolVersion",
        Json::string("2024-11-05"),
        "serverInfo",
        object2("name", Json::string("wikipedia-mcp"), "version", Json::string("0.1.0")),
    )
}

fn tools_list() -> (r: Json)
    ensures
        r@ == tools_list_v(),
{
    let search = object3(
        "description",
        Json::string("Search Wikipedia articles by keyword or semantic similarity"),
        "inputSchema",
        object3(
            "properties",
            object2("limit", single_member("type", Json::string("integer")), "query", single_member("type", Json::string("string"))),
            "required",
            single_item(Json::string("query")),
            "type",
            Json::string("object"),
        ),
        "name",
        Json::string("wiki_search"),
    );
    let read = object3(
        "description",
        Json::string("Read a full Wikipedia article by title"),
        "inputSchema",
        object3(
            "properties",
            single_member("title", single_member("type", Json::string("string"))),
            "required",
            single_item(Json::string("title")),
            "type",
            Json::string("object"),
        ),
        "name",
        Json::string("wiki_read"),
    );
    single_member("tools", pair_items(search, read))
}

/// What a `tools/call` request asks for.
pub fn handle_tool_call(id: Option<Json>, params: Option<Json>) -> (r: ServiceAction)
    ensures
        r@ == spec_tool_call(oj(id), oj(params)),
{
    match params {
        None => respond(id, None, Some(error_json(-32602, String::from_str("Missing parameters")))),
        Some(p) => {
            let name = text_arg_exec(&p, "name");
            let n = name.as_str();
            if str_eq(n, "wiki_search") {
                match p.get("arguments") {
                    None => respond(id, None, Some(error_json(-32602, String::from_str("Missing arguments")))),
                    Some(a) => {
                        let query = text_arg_exec(a, "query");
                        let limit: i64 = match a.get("limit") {
                            Some(l) => match l.as_i64() {
                                Some(x) => x,
                                None => 10,
                            },
                            None => 10,
                        };
                        if query.as_str().is_empty() {
                            respond(id, Some(tool_error("Query cannot be empty")), None)
                        } else {
                            ServiceAction::Search { id, query, limit: limit as usize }
                        }
                    },
                }
            } else if str_eq(n, "wiki_read") {
                match p.get("arguments") {
                    None => respond(id, None, Some(error_json(-32602, String::from_str("Missing arguments")))),
                    Some(a) => {
                        let title = text_arg_exec(a, "title");
                        if title.as_str().is_empty() {
                            respond(id, Some(tool_error("Title cannot be empty")), None)
                        } else {
                            ServiceAction::Read { id, title }
                        }
                    },
                }
            } else {
                respond(id, None, Some(error_json(-32602, concat2("Unknown tool: ", n))))
            }
        },
    }
}

/// What a request asks for.
pub fn handle_request(id: Option<Json>, method: &str, params: Option<Json>) -> (r: ServiceAction)
    ensures
        r@ == spec_handle_request(oj(id), method@, oj(params)),
{
    if str_eq(method, "initialize") {
        respond(id, Some(initialize_result()), None)
    } else if str_eq(method, "tools/list") {
        respond(id, Some(tools_list()), None)
    } else if str_eq(method, "tools/call") {
        handle_tool_call(id, params)
    } else {
        respond(id, None, Some(error_json(-32601, concat2("Method not found: ", method))))
    }
}

} // verus!

verus! {

/// One search hit as the store returns it: payload fields and the score (as a JSON number).
#[derive(Debug)]
pub struct SearchHit {
    pub title: Option<String>,
    pub text: Option<String>,
    pub section: Option<String>,
    pub score: Json,
}

pub open spec fn os(o: Option<String>) -> Option<Seq<char>> {
    match o {
        Some(s) => Some(s@),
        None => None,
    }
}

pub open spec fn or_default(o: Option<Seq<char>>, d: Seq<char>) -> Seq<char> {
    match o {
        Some(s) => s,
        None => d,
    }
}

/// The first 200 characters of a text.
pub open spec fn first_200(s: Seq<char>) -> Seq<char> {
    if s.len() <= 200 {
        s
    } else {
        s.take(200)
    }
}

/// A hit as the search result lists it: score, section, the first 200 characters of the
/// text, and the title (`Unknown` when missing).
pub open spec fn hit_v(h: SearchHit) -> JsonV {
    JsonV::Object(seq![
        ("score"@, h.score@),
        ("section"@, opt_str_v(os(h.section))),
        ("text"@, str_v(first_200(or_default(os(h.text), seq![])))),
        ("title"@, str_v(or_default(os(h.title), "Unknown"@))),
    ])
}

/// The answer to a search: the JSON text of `{count, query, results}`.
pub open spec fn spec_search_result(query: Seq<char>, hits: Seq<SearchHit>) -> JsonV {
    text_content_v(doc_text(JsonV::Object(seq![
        ("count"@, uint_v(hits.len() as int)),
        ("query"@, str_v(query)),
        ("results"@, JsonV::Array(hits.map_values(|h: SearchHit| hit_v(h)))),
    ])))
}

fn opt_text(o: &Option<String>) -> (r: Json)
    ensures
        r@ == opt_str_v(os(*o)),
{
    match o {
        Some(s) => Json::string(s.as_str()),
        None => Json::Null,
    }
}

fn first_200_exec(s: &str) -> (r: String)
    ensures
        r@ == first_200(s@),
{
    let cs = chars_of(s);
    let end = if cs.len() <= 200 { cs.len() } else { 200 };
    let r = string_of_range(&cs, 0, end);
    proof {
        if cs.len() <= 200 {
            assert(cs@.subrange(0, end as int) =~= cs@);
        } else {
            assert(cs@.subrange(0, end as int) =~= cs@.take(200));
        }
    }
    r
}

fn hit_json(h: &SearchHit) -> (r: Json)
    ensures
        r@ == hit_v(*h),
{
    proof {
        reveal_strlit("");
        assert(""@ =~= Seq::<char>::empty());
    }
    let text = match &h.text {
        Some(t) => first_200_exec(t.as_str()),
        None => first_200_exec(""),
    };
    let title = match &h.title {
        Some(t) => String::from_str(t.as_str()),
        None => String::from_str("Unknown"),
    };
    object4(
        "score",
        h.score.deep_clone(),
        "section",
        opt_text(&h.section),
        "text",
        Json::Str(text),
        "title",
        Json::Str(title),
    )
}

/// The response to a search with its hits.
pub fn search_response(id: Option<Json>, query: &str, hits: &Vec<SearchHit>) -> (r: McpResponse)
    ensures
        oj(r.id) == oj(id),
        oj(r.result) == Some(spec_search_result(query@, hits@)),
        r.error is None,
{
    let mut items: Vec<Json> = Vec::new();
    let mut i: usize = 0;
    while i < hits.len()
        invariant
            i <= hits.len(),
            items.len() == i,
            forall|k: int| 0 <= k < i ==> (#[trigger] items@[k])@ == hit_v(hits@[k]),
        decreases hits.len() - i,
    {
        items.push(hit_json(&hits[i]));
        i = i + 1;
    }
    proof {
        Json::lemma_items_view(items@);
        assert(Json::items_view(items@) =~= hits@.map_values(|h: SearchHit| hit_v(h)));
    }
    let doc = object3(
        "count",
        Json::uint(hits.len() as u64),
        "query",
        Json::string(query),
        "results",
        Json::Array(items),
    );
    McpResponse { id, result: Some(text_content(doc_text_exec(&doc))), error: None }
}

/// The store's answer to a title lookup: the payload of the first hit, if any.
#[derive(Debug)]
pub struct ReadHit {
    pub title: Option<String>,
    pub text: Option<String>,
}

/// The answer to a read: the article's title and text (`found`), or the asked title with
/// no content.
pub open spec fn spec_read_result(title: Seq<char>, hit: Option<ReadHit>) -> JsonV {
    match hit {
        Some(h) => text_content_v(doc_text(JsonV::Object(seq![
            ("content"@, str_v(or_default(os(h.text), seq![]))),
            ("found"@, JsonV::Bool(true)),
            ("title"@, str_v(or_default(os(h.title), seq![]))),
        ]))),
        None => text_content_v(doc_text(JsonV::Object(seq![
            ("content"@, str_v(seq![])),
            ("found"@, JsonV::Bool(false)),
            ("title"@, str_v(title)),
        ]))),
    }
}

/// The response to a read with the store's first hit.
pub fn read_response(id: Option<Json>, title: &str, hit: &Option<ReadHit>) -> (r: McpResponse)
    ensures
        oj(r.id) == oj(id),
        oj(r.result) == Some(spec_read_result(title@, *hit)),
        r.error is None,
{
    proof {
        reveal_strlit("");
        assert(""@ =~= Seq::<char>::empty());
    }
    let doc = match hit {
        Some(h) => {
            let content = match &h.text {
                Some(t) => Json::string(t.as_str()),
                None => Json::string(""),
            };
            let t = match &h.title {
                Some(t) => Json::string(t.as_str()),
                None => Json::string(""),
            };
            object3("content", content, "found", Json::Bool(true), "title", t)
        },
        None => object3("content", Json::string(""), "found", Json::Bool(false), "title", Json::string(title)),
    };
    McpResponse { id, result: Some(text_content(doc_text_exec(&doc))), error: None }
}

/// Which step of a tool call failed.
#[derive(Debug, Clone, Copy, PartialEq, Eq, Structural)]
pub enum ServiceFailure {
    Embedding,
    VectorStore,
    Search,
}

pub open spec fn failure_prefix(f: ServiceFailure) -> Seq<char> {
    match f {
        ServiceFailure::Embedding => "Embedding error: "@,
        ServiceFailure::VectorStore => "Vector store error: "@,
        ServiceFailure::Search => "Search error: "@,
    }
}

/// The response when embedding the query, reaching the store or searching it failed.
pub fn failure_response(id: Option<Json>, failure: ServiceFailure, message: &str) -> (r: McpResponse)
    ensures
        oj(r.id) == oj(id),
        r.result is None,
        oj(r.error) == Some(error_v(-32000i64, failure_prefix(failure) + message@)),
{
    let prefix = match failure {
        ServiceFailure::Embedding => "Embedding error: ",
        ServiceFailure::VectorStore => "Vector store error: ",
        ServiceFailure::Search => "Search error: ",
    };
    McpResponse { id, result: None, error: Some(error_json(-32000, concat2(prefix, message))) }
}

} // verus!
