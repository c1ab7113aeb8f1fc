//! The proxy's request and response decisions: which routes pass straight through, where a
//! request goes, which headers travel, how the request body is rewritten, and how a
//! compressed response body is decoded.
use vstd::prelude::*;
use vstd::string::*;
use crate::json::{
    Json, JsonV, jget, jset, json_pretty_text, obool, parse_json_bytes, settable, spec_json_pretty_text,
    spec_parse_json_bytes,
};
use crate::proxy::request_log::concat2;
use crate::text::{
    after_prefix, ascii_lower, is_json_content_type, lowered_is_json, seq_contains, spec_to_lowercase,
    str_contains, str_eq, strip_prefix, to_lowercase,
};

verus! {

/// What the proxy needs to know about its backend and its statistics.
#[derive(Debug)]
pub struct ProxyState {
    /// Base URL of the backend, without a trailing path.
    pub base_url: String,
    /// Key sent as a bearer token, when configured.
    pub api_key: Option<String>,
    /// Model name that replaces the client's, when configured.
    pub model_override: Option<String>,
    pub stats_enabled: bool,
    pub hide_requests: bool,
    pub log_augmented_request_text: bool,
}

/// The request handler.
#[derive(Debug)]
pub struct ProxyHandler {
    pub state: ProxyState,
}

impl ProxyHandler {
    pub fn new(state: ProxyState) -> (r: Self)
        ensures
            r.state == state,
    {
        ProxyHandler { state }
    }

    /// Whether a Content-Type names JSON: `application/json`, or a vendor type
    /// `application/vnd.*` with `+json`, in any letter case.
    pub fn is_json_content_type(content_type: &str) -> (r: bool)
        ensures
            r == lowered_is_json(spec_to_lowercase(content_type@)),
            vstd::utf8::is_ascii_chars(content_type@) ==> r == lowered_is_json(
                content_type@.map_values(|c: char| ascii_lower(c)),
            ),
    {
        is_json_content_type(content_type)
    }
}

/// The monitoring endpoints forwarded without fixes or statistics.
pub open spec fn spec_passthrough_route(method: Seq<char>, path: Seq<char>) -> bool {
    method == "GET"@ && (path == "/props"@ || path == "/slots"@ || path == "/health"@ || path
        == "/v1/health"@ || path == "/v1/models"@ || path == "/metrics"@)
}

pub fn is_passthrough_route(method: &str, path: &str) -> (r: bool)
    ensures
        r == spec_passthrough_route(method@, path@),
{
    str_eq(method, "GET") && (str_eq(path, "/props") || str_eq(path, "/slots") || str_eq(
        path,
        "/health",
    ) || str_eq(path, "/v1/health") || str_eq(path, "/v1/models") || str_eq(path, "/metrics"))
}

/// Whether a request path is for the Anthropic messages API.
pub fn is_anthropic_path(path: &str) -> (r: bool)
    ensures
        r == (after_prefix(path@, "/v1/messages"@) is Some),
{
    strip_prefix(path, "/v1/messages").is_some()
}

/// The backend URL for a request: base, path, and the query string as it came.
pub fn backend_url(base: &str, path: &str, query: Option<&str>) -> (r: String)
    ensures
        r@ == base@ + path@ + match query {
            Some(q) => "?"@ + q@,
            None => seq![],
        },
{
    let a = concat2(base, path);
    match query {
        Some(q) => {
            let b = concat2(a.as_str(), "?");
            let r = concat2(b.as_str(), q);
            assert(r@ =~= base@ + path@ + ("?"@ + q@));
            r
        },
        None => {
            assert(a@ =~= base@ + path@ + Seq::<char>::empty());
            a
        },
    }
}

/// Request headers copied to the backend: all but `host`, `content-length` and
/// `authorization`, which are set anew.
pub fn forwards_request_header(name: &str) -> (r: bool)
    ensures
        r == !(name@ == "host"@ || name@ == "content-length"@ || name@ == "authorization"@),
{
    !(str_eq(name, "host") || str_eq(name, "content-length") || str_eq(name, "authorization"))
}

/// Request headers copied on a pass-through route: all but `host` and `authorization`.
pub fn forwards_passthrough_header(name: &str) -> (r: bool)
    ensures
        r == !(name@ == "host"@ || name@ == "authorization"@),
{
    !(str_eq(name, "host") || str_eq(name, "authorization"))
}

/// Response headers passed back to the client: never `content-length` or
/// `transfer-encoding`; not `content-type` either when the proxy sends JSON it set itself.
pub fn keeps_response_header(name: &str, json_body: bool) -> (r: bool)
    ensures
        r == !(name@ == "content-length"@ || name@ == "transfer-encoding"@ || (json_body && name@
            == "content-type"@)),
{
    !(str_eq(name, "content-length") || str_eq(name, "transfer-encoding") || (json_body && str_eq(
        name,
        "content-type",
    )))
}

/// The `Authorization` value for a configured key.
pub fn bearer(api_key: &str) -> (r: String)
    ensures
        r@ == "Bearer "@ + api_key@,
{
    concat2("Bearer ", api_key)
}

pub open spec fn spec_wants_streaming(request: Option<JsonV>) -> bool {
    match request {
        Some(j) => obool(jget(j, "stream"@)) == Some(true),
        None => false,
    }
}

/// Whether the client asked for a streamed answer (`"stream": true`).
pub fn client_wants_streaming(request: &Option<Json>) -> (r: bool)
    ensures
        r == spec_wants_streaming(match request {
            Some(j) => Some(j@),
            None => None,
        }),
{
    match request {
        Some(j) => match j.get("stream") {
            Some(s) => match s.as_bool() {
                Some(b) => b,
                None => false,
            },
            None => false,
        },
        None => false,
    }
}

pub open spec fn spec_backend_request(request: JsonV, model: Option<Seq<char>>) -> JsonV {
    let a = jset(request, "stream"@, JsonV::Bool(false));
    match model {
        Some(m) => jset(a, "model"@, JsonV::Str(m)),
        None => a,
    }
}

/// The body sent to the backend: always `"stream": false` (a streamed answer is rebuilt
/// from the complete one), and the configured model in place of the client's.
pub fn backend_request_json(request: Json, model: Option<&str>) -> (r: Json)
    requires
        settable(request@),
    ensures
        r@ == spec_backend_request(
            request@,
            match model {
                Some(m) => Some(m@),
                None => None,
            },
        ),
{
    let mut j = request;
    j.set("stream", Json::Bool(false));
    match model {
        Some(m) => j.set("model", Json::string(m)),
        None => {},
    }
    j
}

/// Whether a response Content-Type announces an event stream.
pub fn is_event_stream(content_type: Option<&str>) -> (r: bool)
    ensures
        r == match content_type {
            Some(c) => seq_contains(c@, "text/event-stream"@),
            None => false,
        },
{
    match content_type {
        Some(c) => str_contains(c, "text/event-stream"),
        None => false,
    }
}

/// Whether a non-streamed response is read as JSON; a missing Content-Type counts as
/// `unknown`.
pub fn is_json_response(content_type: Option<&str>) -> (r: bool)
    ensures
        r == lowered_is_json(spec_to_lowercase(match content_type {
            Some(c) => c@,
            None => "unknown"@,
        })),
{
    match content_type {
        Some(c) => is_json_content_type(c),
        None => is_json_content_type("unknown"),
    }
}

} // verus!

verus! {

/// The bytes `flate2::read::GzDecoder` reads out of a gzip stream, or the message of the
/// error it stops with.
pub uninterp spec fn spec_gzip_decode(body: Seq<u8>) -> Result<Seq<u8>, Seq<char>>;

/// The bytes `flate2::read::DeflateDecoder` reads out of a raw deflate stream, or the
/// message of the error it stops with.
pub uninterp spec fn spec_deflate_decode(body: Seq<u8>) -> Result<Seq<u8>, Seq<char>>;

/// The bytes `brotli::BrotliDecompress` writes for a brotli stream, or the message of the
/// error it stops with.
pub uninterp spec fn spec_brotli_decode(body: Seq<u8>) -> Result<Seq<u8>, Seq<char>>;

/// The bytes `zstd::decode_all` gives for a zstd stream, or the message of its error.
pub uninterp spec fn spec_zstd_decode(body: Seq<u8>) -> Result<Seq<u8>, Seq<char>>;

pub open spec fn bytes_result_view(r: Result<Vec<u8>, String>) -> Result<Seq<u8>, Seq<char>> {
    match r {
        Ok(v) => Ok(v@),
        Err(e) => Err(e@),
    }
}

/// Reads a gzip stream to its end with `flate2::read::GzDecoder`; an error gives its
/// message. The contract claims only that the outcome is a function of the input bytes.
#[verifier::external_body]
fn gzip_decode(body: &[u8]) -> (r: Result<Vec<u8>, String>)
    ensures
        bytes_result_view(r) == spec_gzip_decode(body@),
{
    let mut out = Vec::new();
    match std::io::Read::read_to_end(&mut flate2::read::GzDecoder::new(body), &mut out) {
        Ok(_) => Ok(out),
        Err(e) => Err(e.to_string()),
    }
}

/// Reads a raw deflate stream to its end with `flate2::read::DeflateDecoder`; an error
/// gives its message. The contract claims only that the outcome is a function of the bytes.
#[verifier::external_body]
fn deflate_decode(body: &[u8]) -> (r: Result<Vec<u8>, String>)
    ensures
        bytes_result_view(r) == spec_deflate_decode(body@),
{
    let mut out = Vec::new();
    match std::io::Read::read_to_end(&mut flate2::read::DeflateDecoder::new(body), &mut out) {
        Ok(_) => Ok(out),
        Err(e) => Err(e.to_string()),
    }
}

/// Decodes a brotli stream with `brotli::BrotliDecompress`; an error gives its message.
/// The contract claims only that the outcome is a function of the input bytes.
#[verifier::external_body]
fn brotli_decode(body: &[u8]) -> (r: Result<Vec<u8>, String>)
    ensures
        bytes_result_view(r) == spec_brotli_decode(body@),
{
    let mut out = Vec::new();
    match brotli::BrotliDecompress(&mut std::io::Cursor::new(body), &mut out) {
        Ok(()) => Ok(out),
        Err(e) => Err(e.to_string()),
    }
}

/// Decodes a zstd stream with `zstd::decode_all`; an error gives its message. The
/// contract claims only that the outcome is a function of the input bytes.
#[verifier::external_body]
fn zstd_decode(body: &[u8]) -> (r: Result<Vec<u8>, String>)
    ensures
        bytes_result_view(r) == spec_zstd_decode(body@),
{
    match zstd::decode_all(body) {
        Ok(v) => Ok(v),
        Err(e) => Err(e.to_string()),
    }
}

/// A decoder's outcome with its failure message prefixed.
pub open spec fn prefixed(r: Result<Seq<u8>, Seq<char>>, prefix: Seq<char>) -> Result<
    Seq<u8>,
    Seq<char>,
> {
    match r {
        Ok(b) => Ok(b),
        Err(m) => Err(prefix + m),
    }
}

/// The body after decoding it by an already lowercased Content-Encoding: `gzip`, `deflate`,
/// `br` and `zstd` are decoded; any other leaves the body as it is.
pub open spec fn decompress_lowered(body: Seq<u8>, l: Seq<char>) -> Result<Seq<u8>, Seq<char>> {
    if l == "gzip"@ {
        prefixed(spec_gzip_decode(body), "gzip decompression failed: "@)
    } else if l == "deflate"@ {
        prefixed(spec_deflate_decode(body), "deflate decompression failed: "@)
    } else if l == "br"@ {
        prefixed(spec_brotli_decode(body), "brotli decompression failed: "@)
    } else if l == "zstd"@ {
        prefixed(spec_zstd_decode(body), "zstd decompression failed: "@)
    } else {
        Ok(body)
    }
}

/// The body after undoing its Content-Encoding: `gzip`, `deflate`, `br` and `zstd` (in any
/// letter case) are decoded; no encoding, or any other one, leaves the body as it is.
pub open spec fn spec_decompress(body: Seq<u8>, encoding: Option<Seq<char>>) -> Result<
    Seq<u8>,
    Seq<char>,
> {
    match encoding {
        None => Ok(body),
        Some(e) => decompress_lowered(body, spec_to_lowercase(e)),
    }
}

fn prefix_error(r: Result<Vec<u8>, String>, prefix: &str) -> (out: Result<Vec<u8>, String>)
    ensures
        bytes_result_view(out) == prefixed(bytes_result_view(r), prefix@),
{
    match r {
        Ok(v) => Ok(v),
        Err(e) => Err(concat2(prefix, e.as_str())),
    }
}

fn copy_bytes(b: &[u8]) -> (r: Vec<u8>)
    ensures
        r@ == b@,
{
    let mut v: Vec<u8> = Vec::new();
    let mut i: usize = 0;
    while i < b.len()
        invariant
            i <= b.len(),
            v@ == b@.subrange(0, i as int),
        decreases b.len() - i,
    {
        v.push(b[i]);
        i = i + 1;
        assert(v@ =~= b@.subrange(0, i as int));
    }
    assert(v@ =~= b@);
    v
}

/// Decodes a response body according to its Content-Encoding.
pub fn decompress_body(body: &[u8], content_encoding: Option<&str>) -> (r: Result<Vec<u8>, String>)
    ensures
        bytes_result_view(r) == spec_decompress(
            body@,
            match content_encoding {
                Some(e) => Some(e@),
                None => None,
            },
        ),
        match content_encoding {
            Some(e) => vstd::utf8::is_ascii_chars(e@) ==> bytes_result_view(r) == decompress_lowered(
                body@,
                e@.map_values(|c: char| ascii_lower(c)),
            ),
            None => true,
        },
{
    match content_encoding {
        None => Ok(copy_bytes(body)),
        Some(enc) => {
            let l = to_lowercase(enc);
            let ls = l.as_str();
            if str_eq(ls, "gzip") {
                prefix_error(gzip_decode(body), "gzip decompression failed: ")
            } else if str_eq(ls, "deflate") {
                prefix_error(deflate_decode(body), "deflate decompression failed: ")
            } else if str_eq(ls, "br") {
                prefix_error(brotli_decode(body), "brotli decompression failed: ")
            } else if str_eq(ls, "zstd") {
                prefix_error(zstd_decode(body), "zstd decompression failed: ")
            } else {
                Ok(copy_bytes(body))
            }
        },
    }
}

} // verus!

verus! {

/// A member's value in a preview: nested objects and arrays shown as `"[object]"`.
pub open spec fn preview_member(v: JsonV) -> JsonV {
    if v is Object || v is Array {
        JsonV::Str("[object]"@)
    } else {
        v
    }
}

/// The preview of a document: an object keeps its scalar members and shows nested ones as
/// `"[object]"`; anything else is shown whole.
pub open spec fn preview_v(j: JsonV) -> JsonV {
    match j {
        JsonV::Object(e) => JsonV::Object(
            e.map_values(|m: (Seq<char>, JsonV)| (m.0, preview_member(m.1))),
        ),
        _ => j,
    }
}

/// A short, indented view of a document for the log: `preview_v` written with
/// `serde_json::to_string_pretty`, or `[failed to serialize]`.
pub fn json_preview(value: &Json) -> (r: String)
    ensures
        r@ == match spec_json_pretty_text(preview_v(value@)) {
            Some(t) => t,
            None => "[failed to serialize]"@,
        },
{
    let preview = match value {
        Json::Object(entries) => {
            let mut out: Vec<(String, Json)> = Vec::new();
            let mut i: usize = 0;
            proof {
                Json::lemma_entries_view(entries@);
            }
            while i < entries.len()
                invariant
                    i <= entries.len(),
                    out.len() == i,
                    Json::entries_view(entries@).len() == entries.len(),
                    forall|k: int| 0 <= k < entries.len() ==> #[trigger] Json::entries_view(entries@)[k] == (entries@[k].0@, entries@[k].1@),
                    forall|k: int| 0 <= k < i ==> (#[trigger] out@[k]).0@ == entries@[k].0@ && out@[k].1@ == preview_member(entries@[k].1@),
                decreases entries.len() - i,
            {
                let v = &entries[i].1;
                let shown = match v {
                    Json::Object(_) => Json::string("[object]"),
                    Json::Array(_) => Json::string("[object]"),
                    _ => v.deep_clone(),
                };
                out.push((entries[i].0.clone(), shown));
                i = i + 1;
            }
            proof {
                Json::lemma_entries_view(out@);
                assert(Json::entries_view(out@) =~= Json::entries_view(entries@).map_values(
                    |m: (Seq<char>, JsonV)| (m.0, preview_member(m.1)),
                ));
            }
            Json::Object(out)
        },
        _ => value.deep_clone(),
    };
    match json_pretty_text(&preview) {
        Some(t) => t,
        None => String::from_str("[failed to serialize]"),
    }
}

} // verus!

verus! {

/// How a client that asked for a stream is answered from a complete response.
#[derive(Debug, Clone, Copy, PartialEq, Eq, Structural)]
pub enum StreamSynthesis {
    /// The response goes back as it came.
    NoSynthesis,
    /// An OpenAI event stream is built from the response.
    OpenAI,
    /// An Anthropic event stream is built from the response.
    Anthropic,
}

/// What the proxy does with a complete (non-streamed) backend response.
#[derive(Debug)]
pub struct ResponsePlan {
    /// The body with its Content-Encoding undone.
    pub body: Vec<u8>,
    /// The body as a document, when the Content-Type says JSON and the body reads as JSON.
    pub json: Option<Json>,
    /// Whether request statistics are collected for this response.
    pub collect_stats: bool,
    /// How the answer is sent.
    pub synthesis: StreamSynthesis,
}

/// The decisions for a complete backend response: the body is decoded (a decoding failure
/// answers `Failed to decompress response: ...`), read as JSON only when the Content-Type
/// is JSON, statistics are collected when enabled, a request document exists and the body
/// is JSON, and a stream is synthesized in the client's API format when the client asked
/// for one and the body is JSON.
pub fn plan_complete_response(
    body: &[u8],
    content_encoding: Option<&str>,
    content_type: Option<&str>,
    client_wants_streaming: bool,
    is_anthropic_api: bool,
    stats_enabled: bool,
    has_request_json: bool,
) -> (r: Result<ResponsePlan, String>)
    ensures
        match spec_decompress(
            body@,
            match content_encoding {
                Some(e) => Some(e@),
                None => None,
            },
        ) {
            Err(m) => r matches Err(e) && e@ == "Failed to decompress response: "@ + m,
            Ok(bytes) => r matches Ok(p) && {
                let json_ct = lowered_is_json(spec_to_lowercase(match content_type {
                    Some(c) => c@,
                    None => "unknown"@,
                }));
                let doc = if json_ct {
                    spec_parse_json_bytes(bytes)
                } else {
                    None
                };
                &&& p.body@ == bytes
                &&& match p.json {
                    Some(j) => doc == Some(j@),
                    None => doc is None,
                }
                &&& p.collect_stats == (stats_enabled && has_request_json && doc is Some)
                &&& p.synthesis == if client_wants_streaming && doc is Some {
                    if is_anthropic_api {
                        StreamSynthesis::Anthropic
                    } else {
                        StreamSynthesis::OpenAI
                    }
                } else {
                    StreamSynthesis::NoSynthesis
                }
            },
        },
{
    let bytes = match decompress_body(body, content_encoding) {
        Ok(b) => b,
        Err(e) => {
            return Err(concat2("Failed to decompress response: ", e.as_str()));
        },
    };
    let json = if is_json_response(content_type) {
        parse_json_bytes(bytes.as_slice())
    } else {
        None
    };
    let parsed = json.is_some();
    let synthesis = if client_wants_streaming && parsed {
        if is_anthropic_api {
            StreamSynthesis::Anthropic
        } else {
            StreamSynthesis::OpenAI
        }
    } else {
        StreamSynthesis::NoSynthesis
    };
    Ok(ResponsePlan { body: bytes, json, collect_stats: stats_enabled && has_request_json && parsed, synthesis })
}

} // verus!
