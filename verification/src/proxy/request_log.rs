//! One-line summaries of incoming chat requests.
use vstd::prelude::*;
use vstd::string::*;
use crate::json::{Json, JsonV, jget, ostr, oarr, obool};
use crate::text::{
    collapse_ws, decimal, u64_to_decimal, join_strings, join_with, normalize_whitespace,
    spec_truncate_message, str_eq, truncate_message, views,
};

verus! {

/// Texts of the `{"type": "text", "text": ...}` parts of a content array, in order.
pub open spec fn text_parts(parts: Seq<JsonV>) -> Seq<Seq<char>>
    decreases parts.len(),
{
    if parts.len() == 0 {
        seq![]
    } else {
        let prev = text_parts(parts.drop_last());
        let p = parts.last();
        if ostr(jget(p, "type"@)) == Some("text"@) && ostr(jget(p, "text"@)) is Some {
            prev.push(ostr(jget(p, "text"@)).unwrap())
        } else {
            prev
        }
    }
}

/// The text content of a chat message: a string content as is, the text parts of a
/// multimodal array joined by spaces (when there are any), nothing otherwise.
pub open spec fn spec_message_content(msg: JsonV) -> Option<Seq<char>> {
    match jget(msg, "content"@) {
        Some(JsonV::Str(s)) => Some(s),
        Some(JsonV::Array(parts)) => if text_parts(parts).len() > 0 {
            Some(join_with(text_parts(parts), " "@))
        } else {
            None
        },
        _ => None,
    }
}

/// Text content of a message (handles string or array content).
pub fn extract_message_content(msg: &Json) -> (r: Option<String>)
    ensures
        match r {
            Some(s) => spec_message_content(msg@) == Some(s@),
            None => spec_message_content(msg@) is None,
        },
{
    let content = match msg.get("content") {
        Some(c) => c,
        None => return None,
    };
    if let Some(text) = content.as_str() {
        return Some(String::from_str(text));
    }
    if let Some(parts) = content.as_array() {
        proof {
            Json::lemma_items_view(parts@);
        }
        let ghost pv = Json::items_view(parts@);
        let mut texts: Vec<String> = Vec::new();
        let mut i: usize = 0;
        while i < parts.len()
            invariant
                i <= parts.len(),
                pv == Json::items_view(parts@),
                pv.len() == parts.len(),
                forall|j: int| 0 <= j < parts.len() ==> #[trigger] pv[j] == parts@[j]@,
                views(texts@) == text_parts(pv.take(i as int)),
            decreases parts.len() - i,
        {
            let part = &parts[i];
            proof {
                assert(pv.take(i + 1).drop_last() =~= pv.take(i as int));
                assert(pv.take(i + 1).last() == part@);
            }
            let is_text = match part.get("type") {
                Some(t) => match t.as_str() {
                    Some(ts) => str_eq(ts, "text"),
                    None => false,
                },
                None => false,
            };
            if is_text {
                if let Some(tx) = part.get("text") {
                    if let Some(text) = tx.as_str() {
                        texts.push(String::from_str(text));
                        proof {
                            assert(views(texts@) =~= text_parts(pv.take(i as int)).push(text@));
                        }
                    }
                }
            }
            i = i + 1;
        }
        proof {
            assert(pv.take(parts.len() as int) =~= pv);
            assert(jget(msg@, "content"@) == Some(JsonV::Array(pv)));
        }
        if texts.len() > 0 {
            return Some(join_strings(&texts, " "));
        }
    }
    None
}

/// The role of a message, or the empty text when it has none.
pub open spec fn role_of(m: JsonV) -> Seq<char> {
    match ostr(jget(m, "role"@)) {
        Some(r) => r,
        None => ""@,
    }
}

/// Index of the first message at or after `i` whose role is `user`.
pub open spec fn first_user_index(msgs: Seq<JsonV>, i: int) -> Option<int>
    decreases msgs.len() - i,
{
    if i < 0 || i >= msgs.len() {
        None
    } else if role_of(msgs[i]) == "user"@ {
        Some(i)
    } else {
        first_user_index(msgs, i + 1)
    }
}

/// The whitespace-normalized content of the first user message.
pub open spec fn first_user_content(req: JsonV) -> Option<Seq<char>> {
    match oarr(jget(req, "messages"@)) {
        None => None,
        Some(msgs) => match first_user_index(msgs, 0) {
            None => None,
            Some(i) => match spec_message_content(msgs[i]) {
                None => None,
                Some(c) => Some(collapse_ws(c)),
            },
        },
    }
}

/// The first user message, normalized and shortened for the log.
pub open spec fn spec_first_user_message(req: JsonV) -> Option<Seq<char>> {
    match first_user_content(req) {
        Some(c) => Some(spec_truncate_message(c)),
        None => None,
    }
}

/// The normalized text of the first user message (before shortening).
pub fn first_user_message_text(request: &Json) -> (r: Option<String>)
    ensures
        match r {
            Some(s) => first_user_content(request@) == Some(s@),
            None => first_user_content(request@) is None,
        },
{
    let ms = match request.get("messages") {
        Some(m) => m,
        None => return None,
    };
    let messages = match ms.as_array() {
        Some(a) => a,
        None => return None,
    };
    proof {
        Json::lemma_items_view(messages@);
    }
    let ghost mv = Json::items_view(messages@);
    let mut i: usize = 0;
    while i < messages.len()
        invariant
            i <= messages.len(),
            mv == Json::items_view(messages@),
            mv.len() == messages.len(),
            forall|j: int| 0 <= j < messages.len() ==> #[trigger] mv[j] == messages@[j]@,
            oarr(jget(request@, "messages"@)) == Some(mv),
            first_user_index(mv, 0) == first_user_index(mv, i as int),
        decreases messages.len() - i,
    {
        let msg = &messages[i];
        let is_user = match msg.get("role") {
            Some(r) => match r.as_str() {
                Some(rs) => str_eq(rs, "user"),
                None => false,
            },
            None => false,
        };
        proof {
            if ostr(jget(msg@, "role"@)) is None {
                assert(role_of(msg@) == ""@);
                assert(""@.len() == 0) by {
                    reveal_strlit("");
                }
                assert("user"@.len() == 4) by {
                    reveal_strlit("user");
                }
            }
        }
        if is_user {
            return match extract_message_content(msg) {
                Some(content) => Some(normalize_whitespace(content.as_str())),
                None => None,
            };
        }
        i = i + 1;
    }
    None
}

/// The first user message with whitespace collapsed and long text shortened.
pub fn extract_first_user_message(request: &Json) -> (r: Option<String>)
    ensures
        match r {
            Some(s) => spec_first_user_message(request@) == Some(s@),
            None => spec_first_user_message(request@) is None,
        },
{
    match first_user_message_text(request) {
        Some(t) => Some(truncate_message(t.as_str())),
        None => None,
    }
}

/// The parts of a request log line.
pub open spec fn log_parts(req: JsonV) -> Seq<Seq<char>> {
    let model = match ostr(jget(req, "model"@)) {
        Some(m) => m,
        None => "unknown"@,
    };
    let msg_count: nat = match oarr(jget(req, "messages"@)) {
        Some(a) => a.len(),
        None => 0,
    };
    let streaming = match obool(jget(req, "stream"@)) {
        Some(b) => b,
        None => false,
    };
    let base = seq!["model="@ + model, "msgs="@ + decimal(msg_count)];
    let with_stream = if streaming {
        base.push("stream"@)
    } else {
        base
    };
    let with_tools = match oarr(jget(req, "tools"@)) {
        Some(t) => if t.len() > 0 {
            with_stream.push("tools="@ + decimal(t.len()))
        } else {
            with_stream
        },
        None => with_stream,
    };
    match spec_first_user_message(req) {
        Some(m) => with_tools.push("\""@ + m + "\""@),
        None => with_tools,
    }
}

/// The request log line: an arrow, then the parts separated by spaces.
pub open spec fn spec_request_log(req: JsonV) -> Seq<char> {
    "\u{2192} "@ + join_with(log_parts(req), " "@)
}

/// Concatenation of two texts.
pub fn concat2(a: &str, b: &str) -> (r: String)
    ensures
        r@ == a@ + b@,
{
    let mut r = String::from_str(a);
    r.append(b);
    r
}

/// Number of items of an optional array member.
fn member_array_len(j: &Json, key: &str) -> (r: Option<usize>)
    ensures
        match r {
            Some(n) => oarr(jget(j@, key@)) is Some && n == oarr(jget(j@, key@)).unwrap().len(),
            None => oarr(jget(j@, key@)) is None,
        },
{
    match j.get(key) {
        Some(m) => match m.as_array() {
            Some(a) => {
                proof {
                    Json::lemma_items_view(a@);
                }
                Some(a.len())
            },
            None => None,
        },
        None => None,
    }
}

/// Compact one-line summary of a chat request: model, message count, streaming,
/// tool count and the (shortened) first user message.
pub fn format_request_log(request: &Json) -> (r: String)
    ensures
        r@ == spec_request_log(request@),
{
    let model = match request.get("model") {
        Some(m) => match m.as_str() {
            Some(s) => String::from_str(s),
            None => String::from_str("unknown"),
        },
        None => String::from_str("unknown"),
    };
    let msg_count: usize = match member_array_len(request, "messages") {
        Some(n) => n,
        None => 0,
    };
    let streaming = match request.get("stream") {
        Some(b) => match b.as_bool() {
            Some(x) => x,
            None => false,
        },
        None => false,
    };
    let mut parts: Vec<String> = Vec::new();
    parts.push(concat2("model=", model.as_str()));
    parts.push(concat2("msgs=", u64_to_decimal(msg_count as u64).as_str()));
    if streaming {
        parts.push(String::from_str("stream"));
    }
    match member_array_len(request, "tools") {
        Some(n) => {
            if n > 0 {
                parts.push(concat2("tools=", u64_to_decimal(n as u64).as_str()));
            }
        },
        None => {},
    }
    match extract_first_user_message(request) {
        Some(m) => {
            let q = concat2("\"", m.as_str());
            parts.push(concat2(q.as_str(), "\""));
        },
        None => {},
    }
    proof {
        assert(views(parts@) =~= log_parts(request@));
    }
    let body = join_strings(&parts, " ");
    concat2("\u{2192} ", body.as_str())
}

} // verus!
