//! Rebuilding a streamed answer from a complete one: the sequence of server-sent events a
//! streaming client receives when the backend answered in one piece.
use vstd::prelude::*;
use vstd::string::*;
use crate::json::{Json, JsonV, JsonNumberV, int_view, json_text, object2, object3, object4, spec_json_text};
use crate::text::{chunk_text, spec_chunk_text, views};

verus! {

/// Characters of text per synthesized delta.
pub const DEFAULT_CHUNK_SIZE: usize = 50;

/// Milliseconds between synthesized events.
pub const DEFAULT_CHUNK_DELAY_MS: u64 = 50;

/// One synthesized event: JSON data (with an event name for Anthropic streams), or the
/// OpenAI terminator `[DONE]`.
#[derive(Debug)]
pub enum SynthEvent {
    Data { event: Option<String>, data: Json },
    Done,
}

pub enum SynthEventV {
    Data(Option<Seq<char>>, JsonV),
    Done,
}

impl View for SynthEvent {
    type V = SynthEventV;

    open spec fn view(&self) -> SynthEventV {
        match self {
            SynthEvent::Data { event, data } => SynthEventV::Data(
                match event {
                    Some(e) => Some(e@),
                    None => None,
                },
                data@,
            ),
            SynthEvent::Done => SynthEventV::Done,
        }
    }
}

pub open spec fn synth_views(v: Seq<SynthEvent>) -> Seq<SynthEventV> {
    v.map_values(|e: SynthEvent| e@)
}

pub open spec fn str_v(s: Seq<char>) -> JsonV {
    JsonV::Str(s)
}

pub open spec fn uint_v(u: int) -> JsonV {
    JsonV::Number(JsonNumberV::PosInt(u as u64))
}

pub open spec fn opt_str_v(o: Option<Seq<char>>) -> JsonV {
    match o {
        Some(s) => JsonV::Str(s),
        None => JsonV::Null,
    }
}

/// An OpenAI `chat.completion.chunk` with one choice carrying `delta`.
pub open spec fn openai_frame(
    id: Seq<char>,
    model: Seq<char>,
    created: i64,
    delta: JsonV,
    finish: JsonV,
) -> Seq<(Seq<char>, JsonV)> {
    seq![
        ("choices"@, JsonV::Array(seq![JsonV::Object(seq![("delta"@, delta), ("finish_reason"@, finish), ("index"@, uint_v(0))])])),
        ("created"@, int_view(created)),
        ("id"@, str_v(id)),
        ("model"@, str_v(model)),
        ("object"@, str_v("chat.completion.chunk"@)),
    ]
}

pub open spec fn data_ev(j: JsonV) -> SynthEventV {
    SynthEventV::Data(None, j)
}

/// A chunk event with one choice carrying `delta`.
pub open spec fn frame_ev(id: Seq<char>, model: Seq<char>, created: i64, delta: JsonV, finish: JsonV) -> SynthEventV {
    data_ev(JsonV::Object(openai_frame(id, model, created, delta, finish)))
}

/// A chunk event carrying one piece of content.
pub open spec fn content_ev(id: Seq<char>, model: Seq<char>, created: i64, p: Seq<char>) -> SynthEventV {
    frame_ev(id, model, created, JsonV::Object(seq![("content"@, str_v(p))]), JsonV::Null)
}

/// The complete answer the OpenAI synthesis works from.
#[derive(Debug)]
pub struct ChatMessage {
    pub content: Option<String>,
    /// The tool calls, as the JSON array sent to clients.
    pub tool_calls: Option<Json>,
    pub reasoning_text: Option<String>,
    pub reasoning_opaque: Option<String>,
}

#[derive(Debug)]
pub struct ChatChoice {
    pub message: Option<ChatMessage>,
    pub finish_reason: Option<String>,
}

#[derive(Debug)]
pub struct ChatCompletionResponse {
    pub id: String,
    pub model: String,
    pub created: i64,
    pub choices: Vec<ChatChoice>,
    /// Token usage, as JSON.
    pub usage: Option<Json>,
    /// Backend timings, as JSON.
    pub timings: Option<Json>,
}

pub open spec fn opt_s(o: Option<String>) -> Option<Seq<char>> {
    match o {
        Some(s) => Some(s@),
        None => None,
    }
}

pub open spec fn opt_j(o: Option<Json>) -> Option<JsonV> {
    match o {
        Some(j) => Some(j@),
        None => None,
    }
}

/// The events of a synthesized OpenAI stream: the role, the tool calls as one chunk, the
/// reasoning text, the opaque reasoning state, the content in pieces, a final chunk with
/// the finish reason (and timings and usage when known), then `[DONE]`.
pub open spec fn spec_synthesize_chunks(
    id: Seq<char>,
    model: Seq<char>,
    created: i64,
    content: Option<Seq<char>>,
    tool_calls: Option<JsonV>,
    reasoning_text: Option<Seq<char>>,
    reasoning_opaque: Option<Seq<char>>,
    finish_reason: Seq<char>,
    usage: Option<JsonV>,
    timings: Option<JsonV>,
) -> Seq<SynthEventV> {
    seq![frame_ev(id, model, created, JsonV::Object(seq![("role"@, str_v("assistant"@))]), JsonV::Null)]
        + match tool_calls {
            Some(t) => seq![frame_ev(id, model, created, JsonV::Object(seq![("tool_calls"@, t)]), JsonV::Null)],
            None => seq![],
        } + match reasoning_text {
            Some(r) => seq![frame_ev(id, model, created, JsonV::Object(seq![("reasoning_text"@, str_v(r))]), JsonV::Null)],
            None => seq![],
        } + match reasoning_opaque {
            Some(o) => seq![frame_ev(id, model, created, JsonV::Object(seq![("reasoning_opaque"@, str_v(o))]), JsonV::Null)],
            None => seq![],
        } + match content {
            Some(c) => spec_chunk_text(c, DEFAULT_CHUNK_SIZE as nat)->0.map_values(
                |p: Seq<char>| content_ev(id, model, created, p),
            ),
            None => seq![],
        } + seq![
            data_ev(JsonV::Object(openai_frame(id, model, created, JsonV::Object(seq![]), str_v(finish_reason))
                + match timings {
                    Some(t) => seq![("timings"@, t)],
                    None => seq![],
                } + match usage {
                    Some(u) => seq![("usage"@, u)],
                    None => seq![],
                })),
            SynthEventV::Done,
        ]
}

/// The chunk frame with one choice carrying `delta`.
fn frame_entries(id: &str, model: &str, created: i64, delta: Json, finish: Json) -> (r: Vec<
    (String, Json),
>)
    ensures
        Json::entries_view(r@) == openai_frame(id@, model@, created, delta@, finish@),
{
    let mut choice: Vec<(String, Json)> = Vec::new();
    choice.push((String::from_str("delta"), delta));
    choice.push((String::from_str("finish_reason"), finish));
    choice.push((String::from_str("index"), Json::uint(0)));
    proof {
        Json::lemma_entries_view(choice@);
    }
    let mut choices: Vec<Json> = Vec::new();
    choices.push(Json::Object(choice));
    proof {
        Json::lemma_items_view(choices@);
    }
    let mut r: Vec<(String, Json)> = Vec::new();
    r.push((String::from_str("choices"), Json::Array(choices)));
    r.push((String::from_str("created"), Json::signed(created)));
    r.push((String::from_str("id"), Json::string(id)));
    r.push((String::from_str("model"), Json::string(model)));
    r.push((String::from_str("object"), Json::string("chat.completion.chunk")));
    proof {
        Json::lemma_entries_view(r@);
        assert(Json::entries_view(choice@) =~= seq![
            ("delta"@, r@[0].1@->Array_0[0]->Object_0[0].1),
            ("finish_reason"@, r@[0].1@->Array_0[0]->Object_0[1].1),
            ("index"@, uint_v(0)),
        ]);
        assert(Json::entries_view(r@) =~= openai_frame(id@, model@, created, delta@, finish@));
    }
    r
}

/// A one-member object.
fn single(key: &str, v: Json) -> (r: Json)
    ensures
        r@ == JsonV::Object(seq![(key@, v@)]),
{
    let mut e: Vec<(String, Json)> = Vec::new();
    e.push((String::from_str(key), v));
    proof {
        Json::lemma_entries_view(e@);
        assert(Json::entries_view(e@) =~= seq![(key@, e@[0].1@)]);
    }
    Json::Object(e)
}

fn data_event(j: Json) -> (r: SynthEvent)
    ensures
        r@ == data_ev(j@),
{
    SynthEvent::Data { event: None, data: j }
}

/// Builds the events of a synthesized OpenAI stream.
pub fn synthesize_chunks(
    id: String,
    model: String,
    created: i64,
    content: Option<String>,
    tool_calls: Option<Json>,
    reasoning_text: Option<String>,
    reasoning_opaque: Option<String>,
    finish_reason: String,
    usage: Option<Json>,
    timings: Option<Json>,
) -> (r: Vec<SynthEvent>)
    ensures
        synth_views(r@) == spec_synthesize_chunks(
            id@,
            model@,
            created,
            opt_s(content),
            opt_j(tool_calls),
            opt_s(reasoning_text),
            opt_s(reasoning_opaque),
            finish_reason@,
            opt_j(usage),
            opt_j(timings),
        ),
{
    let ghost total = spec_synthesize_chunks(
        id@,
        model@,
        created,
        opt_s(content),
        opt_j(tool_calls),
        opt_s(reasoning_text),
        opt_s(reasoning_opaque),
        finish_reason@,
        opt_j(usage),
        opt_j(timings),
    );
    let ids = id.as_str();
    let ms = model.as_str();
    let mut out: Vec<SynthEvent> = Vec::new();
    out.push(data_event(Json::object_of(frame_entries(ids, ms, created, single("role", Json::string("assistant")), Json::Null))));
    let ghost part0: Seq<SynthEventV> = seq![frame_ev(id@, model@, created, JsonV::Object(seq![("role"@, str_v("assistant"@))]), JsonV::Null)];
    assert(synth_views(out@) =~= part0);
    let ghost tv = opt_j(tool_calls);
    match tool_calls {
        Some(t) => out.push(data_event(Json::object_of(frame_entries(ids, ms, created, single("tool_calls", t), Json::Null)))),
        None => {},
    }
    let ghost part1: Seq<SynthEventV> = part0 + match tv {
        Some(t) => seq![frame_ev(id@, model@, created, JsonV::Object(seq![("tool_calls"@, t)]), JsonV::Null)],
        None => seq![],
    };
    assert(synth_views(out@) =~= part1);
    match &reasoning_text {
        Some(r) => out.push(data_event(Json::object_of(frame_entries(ids, ms, created, single("reasoning_text", Json::string(r.as_str())), Json::Null)))),
        None => {},
    }
    let ghost part2: Seq<SynthEventV> = part1 + match opt_s(reasoning_text) {
        Some(r) => seq![frame_ev(id@, model@, created, JsonV::Object(seq![("reasoning_text"@, str_v(r))]), JsonV::Null)],
        None => seq![],
    };
    assert(synth_views(out@) =~= part2);
    match &reasoning_opaque {
        Some(o) => out.push(data_event(Json::object_of(frame_entries(ids, ms, created, single("reasoning_opaque", Json::string(o.as_str())), Json::Null)))),
        None => {},
    }
    let ghost part3: Seq<SynthEventV> = part2 + match opt_s(reasoning_opaque) {
        Some(o) => seq![frame_ev(id@, model@, created, JsonV::Object(seq![("reasoning_opaque"@, str_v(o))]), JsonV::Null)],
        None => seq![],
    };
    assert(synth_views(out@) =~= part3);
    let ghost before_content = synth_views(out@);
    match &content {
        Some(c) => {
            let pieces = chunk_text(c.as_str(), DEFAULT_CHUNK_SIZE);
            let ghost ps = views(pieces@);
            let mut i: usize = 0;
            while i < pieces.len()
                invariant
                    i <= pieces.len(),
                    ps == views(pieces@),
                    ps.len() == pieces.len(),
                    ids@ == id@,
                    ms@ == model@,
                    synth_views(out@) == before_content + ps.take(i as int).map_values(
                        |p: Seq<char>| content_ev(id@, model@, created, p),
                    ),
                decreases pieces.len() - i,
            {
                let e = data_event(Json::object_of(frame_entries(ids, ms, created, single("content", Json::string(pieces[i].as_str())), Json::Null)));
                let ghost old_out = out@;
                let ghost ev = e@;
                out.push(e);
                proof {
                    assert(synth_views(out@) =~= synth_views(old_out).push(ev));
                    assert(ps[i as int] == pieces@[i as int]@);
                    assert(ev == content_ev(id@, model@, created, ps[i as int]));
                    assert(ps.take(i + 1).map_values(|p: Seq<char>| content_ev(id@, model@, created, p))
                        =~= ps.take(i as int).map_values(|p: Seq<char>| content_ev(id@, model@, created, p)).push(
                        content_ev(id@, model@, created, ps[i as int]),
                    ));
                    assert(synth_views(out@) =~= before_content + ps.take(i + 1).map_values(
                        |p: Seq<char>| content_ev(id@, model@, created, p),
                    ));
                }
                i = i + 1;
            }
            proof {
                assert(ps.take(i as int) =~= ps);
            }
        },
        None => {},
    }
    let ghost part4: Seq<SynthEventV> = part3 + match opt_s(content) {
        Some(c) => spec_chunk_text(c, DEFAULT_CHUNK_SIZE as nat)->0.map_values(
            |p: Seq<char>| content_ev(id@, model@, created, p),
        ),
        None => seq![],
    };
    assert(synth_views(out@) =~= part4);
    let ghost fr = finish_reason@;
    let mut fin = frame_entries(ids, ms, created, Json::empty_object(), Json::Str(finish_reason));
    let ghost fin_init = fin@;
    let ghost fin0 = Json::entries_view(fin@);
    proof {
        Json::lemma_entries_view(fin_init);
    }
    match timings {
        Some(t) => fin.push((String::from_str("timings"), t)),
        None => {},
    }
    let ghost fin1 = Json::entries_view(fin@);
    match usage {
        Some(u) => fin.push((String::from_str("usage"), u)),
        None => {},
    }
    proof {
        Json::lemma_entries_view(fin@);
        assert(fin0 =~= openai_frame(id@, model@, created, JsonV::Object(seq![]), str_v(finish_reason@)));
    }
    let ghost last = data_ev(JsonV::Object(openai_frame(id@, model@, created, JsonV::Object(seq![]), str_v(fr))
        + match opt_j(timings) {
            Some(t) => seq![("timings"@, t)],
            None => seq![],
        } + match opt_j(usage) {
            Some(u) => seq![("usage"@, u)],
            None => seq![],
        }));
    let fin_ev = data_event(Json::object_of(fin));
    proof {
        assert(Json::entries_view(fin@) =~= openai_frame(id@, model@, created, JsonV::Object(seq![]), str_v(fr))
            + match opt_j(timings) {
                Some(t) => seq![("timings"@, t)],
                None => seq![],
            } + match opt_j(usage) {
                Some(u) => seq![("usage"@, u)],
                None => seq![],
            });
        assert(fin_ev@ == last);
    }
    out.push(fin_ev);
    out.push(SynthEvent::Done);
    proof {
        assert(synth_views(out@) =~= part4 + seq![last, SynthEventV::Done]);
        assert(total =~= part4 + seq![last, SynthEventV::Done]);
    }
    out
}

/// The events of a synthesized stream for a complete answer, or why there are none.
pub fn synthesize_streaming_response(response: ChatCompletionResponse) -> (r: Result<Vec<SynthEvent>, String>)
    ensures
        response.choices.len() == 0 ==> (r matches Err(e) && e@ == "Response has no choices"@),
        response.choices.len() > 0 && response.choices@[0].message is None ==> (r matches Err(e)
            && e@ == "Choice has no message"@),
        response.choices.len() > 0 && response.choices@[0].message is Some ==> (r matches Ok(v)
            && synth_views(v@) == spec_synthesize_chunks(
            response.id@,
            response.model@,
            response.created,
            opt_s(response.choices@[0].message->0.content),
            opt_j(response.choices@[0].message->0.tool_calls),
            opt_s(response.choices@[0].message->0.reasoning_text),
            opt_s(response.choices@[0].message->0.reasoning_opaque),
            match response.choices@[0].finish_reason {
                Some(f) => f@,
                None => "stop"@,
            },
            opt_j(response.usage),
            opt_j(response.timings),
        )),
{
    let ChatCompletionResponse { id, model, created, choices, usage, timings } = response;
    let mut choices = choices;
    if choices.len() == 0 {
        return Err(String::from_str("Response has no choices"));
    }
    let first = choices.remove(0);
    let ChatChoice { message, finish_reason } = first;
    match message {
        None => Err(String::from_str("Choice has no message")),
        Some(m) => {
            let ChatMessage { content, tool_calls, reasoning_text, reasoning_opaque } = m;
            let finish = match finish_reason {
                Some(f) => f,
                None => String::from_str("stop"),
            };
            Ok(synthesize_chunks(id, model, created, content, tool_calls, reasoning_text, reasoning_opaque, finish, usage, timings))
        },
    }
}

} // verus!

verus! {

/// A content block of a complete Anthropic message.
#[derive(Debug)]
pub enum AnthropicContentBlock {
    Text { text: String },
    Thinking { thinking: String, signature: Option<String> },
    ToolUse { id: String, name: String, input: Json },
    ToolResult { tool_use_id: String, content: Json },
}

pub enum BlockV {
    Text(Seq<char>),
    Thinking(Seq<char>, Option<Seq<char>>),
    ToolUse(Seq<char>, Seq<char>, JsonV),
    ToolResult(Seq<char>, JsonV),
}

impl View for AnthropicContentBlock {
    type V = BlockV;

    open spec fn view(&self) -> BlockV {
        match self {
            AnthropicContentBlock::Text { text } => BlockV::Text(text@),
            AnthropicContentBlock::Thinking { thinking, signature } => BlockV::Thinking(
                thinking@,
                opt_s(*signature),
            ),
            AnthropicContentBlock::ToolUse { id, name, input } => BlockV::ToolUse(id@, name@, input@),
            AnthropicContentBlock::ToolResult { tool_use_id, content } => BlockV::ToolResult(
                tool_use_id@,
                content@,
            ),
        }
    }
}

#[derive(Debug)]
pub struct AnthropicUsage {
    pub input_tokens: u64,
    pub output_tokens: u64,
}

/// A complete Anthropic message.
#[derive(Debug)]
pub struct AnthropicMessage {
    pub id: String,
    /// The object type (`message`).
    pub message_type: String,
    pub role: String,
    pub model: String,
    pub content: Vec<AnthropicContentBlock>,
    pub stop_reason: Option<String>,
    pub stop_sequence: Option<String>,
    pub usage: AnthropicUsage,
}

pub open spec fn block_views(v: Seq<AnthropicContentBlock>) -> Seq<BlockV> {
    v.map_values(|b: AnthropicContentBlock| b@)
}

pub open spec fn named_ev(name: Seq<char>, j: JsonV) -> SynthEventV {
    SynthEventV::Data(Some(name), j)
}

pub open spec fn message_start_v(id: Seq<char>, role: Seq<char>, model: Seq<char>, input_tokens: u64) -> JsonV {
    JsonV::Object(seq![
        ("message"@, JsonV::Object(seq![
            ("content"@, JsonV::Array(seq![])),
            ("id"@, str_v(id)),
            ("model"@, str_v(model)),
            ("role"@, str_v(role)),
            ("stop_reason"@, JsonV::Null),
            ("stop_sequence"@, JsonV::Null),
            ("type"@, str_v("message"@)),
            ("usage"@, JsonV::Object(seq![("input_tokens"@, uint_v(input_tokens as int)), ("output_tokens"@, uint_v(0))])),
        ])),
        ("type"@, str_v("message_start"@)),
    ])
}

pub open spec fn block_start_v(index: int, block_type: Seq<char>) -> JsonV {
    JsonV::Object(seq![
        ("content_block"@, JsonV::Object(seq![("text"@, str_v(seq![])), ("type"@, str_v(block_type))])),
        ("index"@, uint_v(index)),
        ("type"@, str_v("content_block_start"@)),
    ])
}

pub open spec fn thinking_start_v(index: int, signature: Option<Seq<char>>) -> JsonV {
    JsonV::Object(seq![
        ("content_block"@, JsonV::Object(match signature {
            Some(s) => seq![("signature"@, str_v(s))],
            None => seq![],
        } + seq![("thinking"@, str_v(seq![])), ("type"@, str_v("thinking"@))])),
        ("index"@, uint_v(index)),
        ("type"@, str_v("content_block_start"@)),
    ])
}

pub open spec fn text_delta_v(index: int, delta_type: Seq<char>, text: Seq<char>) -> JsonV {
    JsonV::Object(seq![
        ("delta"@, JsonV::Object(seq![("text"@, str_v(text)), ("type"@, str_v(delta_type))])),
        ("index"@, uint_v(index)),
        ("type"@, str_v("content_block_delta"@)),
    ])
}

pub open spec fn thinking_delta_v(index: int, thinking: Seq<char>) -> JsonV {
    JsonV::Object(seq![
        ("delta"@, JsonV::Object(seq![("thinking"@, str_v(thinking)), ("type"@, str_v("thinking_delta"@))])),
        ("index"@, uint_v(index)),
        ("type"@, str_v("content_block_delta"@)),
    ])
}

pub open spec fn block_stop_v(index: int) -> JsonV {
    JsonV::Object(seq![("index"@, uint_v(index)), ("type"@, str_v("content_block_stop"@))])
}

pub open spec fn message_delta_v(
    stop_reason: Option<Seq<char>>,
    stop_sequence: Option<Seq<char>>,
    output_tokens: u64,
) -> JsonV {
    JsonV::Object(seq![
        ("delta"@, JsonV::Object(seq![("stop_reason"@, opt_str_v(stop_reason)), ("stop_sequence"@, opt_str_v(stop_sequence))])),
        ("type"@, str_v("message_delta"@)),
        ("usage"@, JsonV::Object(seq![("output_tokens"@, uint_v(output_tokens as int))])),
    ])
}

pub open spec fn message_stop_v() -> JsonV {
    JsonV::Object(seq![("type"@, str_v("message_stop"@))])
}

pub open spec fn tool_start_v(index: int, id: Seq<char>, name: Seq<char>) -> JsonV {
    JsonV::Object(seq![
        ("content_block"@, JsonV::Object(seq![
            ("id"@, str_v(id)),
            ("input"@, JsonV::Object(seq![])),
            ("name"@, str_v(name)),
            ("type"@, str_v("tool_use"@)),
        ])),
        ("index"@, uint_v(index)),
        ("type"@, str_v("content_block_start"@)),
    ])
}

pub open spec fn tool_delta_v(index: int, partial_json: Seq<char>) -> JsonV {
    JsonV::Object(seq![
        ("delta"@, JsonV::Object(seq![("partial_json"@, str_v(partial_json)), ("type"@, str_v("input_json_delta"@))])),
        ("index"@, uint_v(index)),
        ("type"@, str_v("content_block_delta"@)),
    ])
}

/// The JSON text of a tool's input (`{}` should writing it fail).
pub open spec fn input_text(input: JsonV) -> Seq<char> {
    match spec_json_text(input) {
        Some(t) => t,
        None => "{}"@,
    }
}

pub open spec fn text_piece_ev(index: int, p: Seq<char>) -> SynthEventV {
    named_ev("content_block_delta"@, text_delta_v(index, "text_delta"@, p))
}

pub open spec fn thinking_piece_ev(index: int, p: Seq<char>) -> SynthEventV {
    named_ev("content_block_delta"@, thinking_delta_v(index, p))
}

pub open spec fn text_block_events(index: int, t: Seq<char>) -> Seq<SynthEventV> {
    seq![named_ev("content_block_start"@, block_start_v(index, "text"@))]
        + spec_chunk_text(t, DEFAULT_CHUNK_SIZE as nat)->0.map_values(|p: Seq<char>| text_piece_ev(index, p))
        + seq![named_ev("content_block_stop"@, block_stop_v(index))]
}

/// The events of one content block: start, deltas (text and thinking in pieces, a tool's
/// input whole), stop. A tool result counts as text when its content is a string, and
/// gives no events otherwise.
pub open spec fn block_events(index: int, b: BlockV) -> Seq<SynthEventV> {
    match b {
        BlockV::Text(t) => text_block_events(index, t),
        BlockV::Thinking(t, sig) => seq![named_ev("content_block_start"@, thinking_start_v(index, sig))]
            + spec_chunk_text(t, DEFAULT_CHUNK_SIZE as nat)->0.map_values(|p: Seq<char>| thinking_piece_ev(index, p))
            + seq![named_ev("content_block_stop"@, block_stop_v(index))],
        BlockV::ToolUse(id, name, input) => seq![
            named_ev("content_block_start"@, tool_start_v(index, id, name)),
            named_ev("content_block_delta"@, tool_delta_v(index, input_text(input))),
            named_ev("content_block_stop"@, block_stop_v(index)),
        ],
        BlockV::ToolResult(_, content) => match content {
            JsonV::Str(t) => text_block_events(index, t),
            _ => seq![],
        },
    }
}

/// The events of the blocks from `i` on.
pub open spec fn blocks_events(bs: Seq<BlockV>, i: int) -> Seq<SynthEventV>
    decreases bs.len() - i,
{
    if i < 0 || i >= bs.len() {
        seq![]
    } else {
        block_events(i, bs[i]) + blocks_events(bs, i + 1)
    }
}

/// The events of a synthesized Anthropic stream: `message_start`, each block's events in
/// order, `message_delta` with the stop reason and output tokens, `message_stop`.
pub open spec fn spec_synthesize_anthropic(
    id: Seq<char>,
    role: Seq<char>,
    model: Seq<char>,
    blocks: Seq<BlockV>,
    stop_reason: Option<Seq<char>>,
    stop_sequence: Option<Seq<char>>,
    input_tokens: u64,
    output_tokens: u64,
) -> Seq<SynthEventV> {
    seq![named_ev("message_start"@, message_start_v(id, role, model, input_tokens))] + blocks_events(blocks, 0)
        + seq![
            named_ev("message_delta"@, message_delta_v(stop_reason, stop_sequence, output_tokens)),
            named_ev("message_stop"@, message_stop_v()),
        ]
}

} // verus!

verus! {

fn opt_string_json(o: &Option<String>) -> (r: Json)
    ensures
        r@ == opt_str_v(opt_s(*o)),
{
    match o {
        Some(s) => Json::string(s.as_str()),
        None => Json::Null,
    }
}

fn index_json(index: usize) -> (r: Json)
    ensures
        r@ == uint_v(index as int),
{
    Json::uint(index as u64)
}

/// The `message_start` event.
pub fn build_message_start_event(msg: &AnthropicMessage) -> (r: Json)
    ensures
        r@ == message_start_v(msg.id@, msg.role@, msg.model@, msg.usage.input_tokens),
{
    let usage = object2("input_tokens", Json::uint(msg.usage.input_tokens), "output_tokens", Json::uint(0));
    let ghost u = usage@;
    let mut e: Vec<(String, Json)> = Vec::new();
    e.push((String::from_str("content"), Json::empty_array()));
    e.push((String::from_str("id"), Json::string(msg.id.as_str())));
    e.push((String::from_str("model"), Json::string(msg.model.as_str())));
    e.push((String::from_str("role"), Json::string(msg.role.as_str())));
    e.push((String::from_str("stop_reason"), Json::Null));
    e.push((String::from_str("stop_sequence"), Json::Null));
    e.push((String::from_str("type"), Json::string("message")));
    e.push((String::from_str("usage"), usage));
    proof {
        Json::lemma_entries_view(e@);
        assert(Json::entries_view(e@) =~= message_start_v(msg.id@, msg.role@, msg.model@, msg.usage.input_tokens)->Object_0[0].1->Object_0);
    }
    object2("message", Json::object_of(e), "type", Json::string("message_start"))
}

/// The `content_block_start` event of a text block.
pub fn build_content_block_start_event(index: usize, block_type: &str) -> (r: Json)
    ensures
        r@ == block_start_v(index as int, block_type@),
{
    proof {
        reveal_strlit("");
        assert(""@ =~= Seq::<char>::empty());
    }
    let block = object2("text", Json::string(""), "type", Json::string(block_type));
    object3("content_block", block, "index", index_json(index), "type", Json::string("content_block_start"))
}

/// The `content_block_start` event of a thinking block.
pub fn build_thinking_block_start_event(index: usize, signature: Option<&str>) -> (r: Json)
    ensures
        r@ == thinking_start_v(
            index as int,
            match signature {
                Some(s) => Some(s@),
                None => None,
            },
        ),
{
    proof {
        reveal_strlit("");
        assert(""@ =~= Seq::<char>::empty());
    }
    let ghost sigv = match signature {
        Some(s) => Some(s@),
        None => None,
    };
    let block = match signature {
        Some(sig) => {
            let b = object3("signature", Json::string(sig), "thinking", Json::string(""), "type", Json::string("thinking"));
            proof {
                assert(seq![("signature"@, str_v(sig@))] + seq![("thinking"@, str_v(seq![])), ("type"@, str_v("thinking"@))]
                    =~= seq![("signature"@, str_v(sig@)), ("thinking"@, str_v(seq![])), ("type"@, str_v("thinking"@))]);
            }
            b
        },
        None => {
            let b = object2("thinking", Json::string(""), "type", Json::string("thinking"));
            proof {
                assert(Seq::<(Seq<char>, JsonV)>::empty() + seq![("thinking"@, str_v(seq![])), ("type"@, str_v("thinking"@))]
                    =~= seq![("thinking"@, str_v(seq![])), ("type"@, str_v("thinking"@))]);
            }
            b
        },
    };
    assert(block@ == JsonV::Object(match sigv {
        Some(s) => seq![("signature"@, str_v(s))],
        None => seq![],
    } + seq![("thinking"@, str_v(seq![])), ("type"@, str_v("thinking"@))]));
    let ghost bv = block@;
    let r = object3("content_block", block, "index", index_json(index), "type", Json::string("content_block_start"));
    assert(r@ == JsonV::Object(seq![("content_block"@, bv), ("index"@, uint_v(index as int)), ("type"@, str_v("content_block_start"@))]));
    assert(thinking_start_v(index as int, sigv)->Object_0 =~= seq![("content_block"@, bv), ("index"@, uint_v(index as int)), ("type"@, str_v("content_block_start"@))]);
    assert(thinking_start_v(index as int, sigv) =~~= JsonV::Object(seq![("content_block"@, bv), ("index"@, uint_v(index as int)), ("type"@, str_v("content_block_start"@))]));
    r
}

/// The `content_block_delta` event carrying text.
pub fn build_content_block_delta_event(index: usize, delta_type: &str, text: &str) -> (r: Json)
    ensures
        r@ == text_delta_v(index as int, delta_type@, text@),
{
    let delta = object2("text", Json::string(text), "type", Json::string(delta_type));
    object3("delta", delta, "index", index_json(index), "type", Json::string("content_block_delta"))
}

/// The `content_block_delta` event carrying thinking.
pub fn build_thinking_block_delta_event(index: usize, thinking: &str) -> (r: Json)
    ensures
        r@ == thinking_delta_v(index as int, thinking@),
{
    let delta = object2("thinking", Json::string(thinking), "type", Json::string("thinking_delta"));
    object3("delta", delta, "index", index_json(index), "type", Json::string("content_block_delta"))
}

/// The `content_block_stop` event.
pub fn build_content_block_stop_event(index: usize) -> (r: Json)
    ensures
        r@ == block_stop_v(index as int),
{
    object2("index", index_json(index), "type", Json::string("content_block_stop"))
}

/// The `message_delta` event with the stop reason and the output token count.
pub fn build_message_delta_event(msg: &AnthropicMessage) -> (r: Json)
    ensures
        r@ == message_delta_v(opt_s(msg.stop_reason), opt_s(msg.stop_sequence), msg.usage.output_tokens),
{
    let delta = object2(
        "stop_reason",
        opt_string_json(&msg.stop_reason),
        "stop_sequence",
        opt_string_json(&msg.stop_sequence),
    );
    let usage = {
        let mut e: Vec<(String, Json)> = Vec::new();
        e.push((String::from_str("output_tokens"), Json::uint(msg.usage.output_tokens)));
        proof {
            Json::lemma_entries_view(e@);
            assert(Json::entries_view(e@) =~= seq![("output_tokens"@, uint_v(msg.usage.output_tokens as int))]);
        }
        Json::object_of(e)
    };
    object3("delta", delta, "type", Json::string("message_delta"), "usage", usage)
}

/// The `message_stop` event.
pub fn build_message_stop_event() -> (r: Json)
    ensures
        r@ == message_stop_v(),
{
    let mut e: Vec<(String, Json)> = Vec::new();
    e.push((String::from_str("type"), Json::string("message_stop")));
    proof {
        Json::lemma_entries_view(e@);
        assert(Json::entries_view(e@) =~= seq![("type"@, str_v("message_stop"@))]);
    }
    Json::object_of(e)
}

/// The `content_block_start` event of a tool call.
pub fn build_tool_use_block_start_event(index: usize, id: &str, name: &str) -> (r: Json)
    ensures
        r@ == tool_start_v(index as int, id@, name@),
{
    let block = object4(
        "id",
        Json::string(id),
        "input",
        Json::empty_object(),
        "name",
        Json::string(name),
        "type",
        Json::string("tool_use"),
    );
    object3("content_block", block, "index", index_json(index), "type", Json::string("content_block_start"))
}

/// The `content_block_delta` event carrying a tool's input as JSON text.
pub fn build_tool_use_block_delta_event(index: usize, partial_json: &str) -> (r: Json)
    ensures
        r@ == tool_delta_v(index as int, partial_json@),
{
    let delta = object2("partial_json", Json::string(partial_json), "type", Json::string("input_json_delta"));
    object3("delta", delta, "index", index_json(index), "type", Json::string("content_block_delta"))
}

} // verus!

verus! {

fn named_event(name: &str, j: Json) -> (r: SynthEvent)
    ensures
        r@ == named_ev(name@, j@),
{
    SynthEvent::Data { event: Some(String::from_str(name)), data: j }
}

fn push_event(out: &mut Vec<SynthEvent>, e: SynthEvent)
    ensures
        synth_views(final(out)@) == synth_views(old(out)@).push(e@),
{
    let ghost ev = e@;
    out.push(e);
    assert(synth_views(out@) =~= synth_views(old(out)@).push(ev));
}

/// Appends the events of a text block.
fn push_text_block(out: &mut Vec<SynthEvent>, index: usize, t: &str)
    ensures
        synth_views(final(out)@) == synth_views(old(out)@) + text_block_events(index as int, t@),
{
    push_event(out, named_event("content_block_start", build_content_block_start_event(index, "text")));
    let ghost start = synth_views(out@);
    let pieces = chunk_text(t, DEFAULT_CHUNK_SIZE);
    let ghost ps = views(pieces@);
    let mut i: usize = 0;
    while i < pieces.len()
        invariant
            i <= pieces.len(),
            ps == views(pieces@),
            ps.len() == pieces.len(),
            synth_views(out@) == start + ps.take(i as int).map_values(|p: Seq<char>| text_piece_ev(index as int, p)),
        decreases pieces.len() - i,
    {
        push_event(out, named_event("content_block_delta", build_content_block_delta_event(index, "text_delta", pieces[i].as_str())));
        proof {
            assert(ps[i as int] == pieces@[i as int]@);
            assert(ps.take(i + 1).map_values(|p: Seq<char>| text_piece_ev(index as int, p))
                =~= ps.take(i as int).map_values(|p: Seq<char>| text_piece_ev(index as int, p)).push(
                text_piece_ev(index as int, ps[i as int]),
            ));
        }
        i = i + 1;
    }
    proof {
        assert(ps.take(i as int) =~= ps);
    }
    push_event(out, named_event("content_block_stop", build_content_block_stop_event(index)));
    proof {
        assert(synth_views(out@) =~= synth_views(old(out)@) + text_block_events(index as int, t@));
    }
}

/// Appends the events of a thinking block.
fn push_thinking_block(out: &mut Vec<SynthEvent>, index: usize, t: &str, signature: &Option<String>)
    ensures
        synth_views(final(out)@) == synth_views(old(out)@) + block_events(
            index as int,
            BlockV::Thinking(t@, opt_s(*signature)),
        ),
{
    let sig: Option<&str> = match signature {
        Some(s) => Some(s.as_str()),
        None => None,
    };
    push_event(out, named_event("content_block_start", build_thinking_block_start_event(index, sig)));
    let ghost start = synth_views(out@);
    let pieces = chunk_text(t, DEFAULT_CHUNK_SIZE);
    let ghost ps = views(pieces@);
    let mut i: usize = 0;
    while i < pieces.len()
        invariant
            i <= pieces.len(),
            ps == views(pieces@),
            ps.len() == pieces.len(),
            synth_views(out@) == start + ps.take(i as int).map_values(|p: Seq<char>| thinking_piece_ev(index as int, p)),
        decreases pieces.len() - i,
    {
        push_event(out, named_event("content_block_delta", build_thinking_block_delta_event(index, pieces[i].as_str())));
        proof {
            assert(ps[i as int] == pieces@[i as int]@);
            assert(ps.take(i + 1).map_values(|p: Seq<char>| thinking_piece_ev(index as int, p))
                =~= ps.take(i as int).map_values(|p: Seq<char>| thinking_piece_ev(index as int, p)).push(
                thinking_piece_ev(index as int, ps[i as int]),
            ));
        }
        i = i + 1;
    }
    proof {
        assert(ps.take(i as int) =~= ps);
    }
    push_event(out, named_event("content_block_stop", build_content_block_stop_event(index)));
    proof {
        assert(synth_views(out@) =~= synth_views(old(out)@) + block_events(
            index as int,
            BlockV::Thinking(t@, opt_s(*signature)),
        ));
    }
}

/// Appends the events of one content block.
fn push_block(out: &mut Vec<SynthEvent>, index: usize, b: &AnthropicContentBlock)
    ensures
        synth_views(final(out)@) == synth_views(old(out)@) + block_events(index as int, b@),
{
    match b {
        AnthropicContentBlock::Text { text } => push_text_block(out, index, text.as_str()),
        AnthropicContentBlock::Thinking { thinking, signature } => push_thinking_block(
            out,
            index,
            thinking.as_str(),
            signature,
        ),
        AnthropicContentBlock::ToolUse { id, name, input } => {
            let ghost o0 = synth_views(out@);
            push_event(out, named_event("content_block_start", build_tool_use_block_start_event(index, id.as_str(), name.as_str())));
            let text = match json_text(input) {
                Some(t) => t,
                None => String::from_str("{}"),
            };
            assert(text@ == input_text(input@));
            push_event(out, named_event("content_block_delta", build_tool_use_block_delta_event(index, text.as_str())));
            push_event(out, named_event("content_block_stop", build_content_block_stop_event(index)));
            assert(synth_views(out@) =~= o0 + block_events(index as int, b@));
        },
        AnthropicContentBlock::ToolResult { tool_use_id: _, content } => match content.as_str() {
            Some(t) => push_text_block(out, index, t),
            None => {
                assert(synth_views(out@) =~= synth_views(out@) + Seq::<SynthEventV>::empty());
            },
        },
    }
}

/// Builds the events of a synthesized Anthropic stream.
pub fn synthesize_anthropic_chunks(msg: AnthropicMessage) -> (r: Vec<SynthEvent>)
    ensures
        synth_views(r@) == spec_synthesize_anthropic(
            msg.id@,
            msg.role@,
            msg.model@,
            block_views(msg.content@),
            opt_s(msg.stop_reason),
            opt_s(msg.stop_sequence),
            msg.usage.input_tokens,
            msg.usage.output_tokens,
        ),
{
    let ghost bs = block_views(msg.content@);
    let mut out: Vec<SynthEvent> = Vec::new();
    push_event(&mut out, named_event("message_start", build_message_start_event(&msg)));
    let ghost head = synth_views(out@);
    let mut i: usize = 0;
    proof {
        assert(head + blocks_events(bs, 0) =~= head + blocks_events(bs, 0));
    }
    while i < msg.content.len()
        invariant
            i <= msg.content.len(),
            bs == block_views(msg.content@),
            bs.len() == msg.content.len(),
            synth_views(out@) + blocks_events(bs, i as int) =~= head + blocks_events(bs, 0),
        decreases msg.content.len() - i,
    {
        assert(bs[i as int] == msg.content@[i as int]@);
        let ghost before = synth_views(out@);
        push_block(&mut out, i, &msg.content[i]);
        proof {
            assert(blocks_events(bs, i as int) == block_events(i as int, bs[i as int]) + blocks_events(bs, i + 1));
            assert(synth_views(out@) + blocks_events(bs, i + 1) =~= before + blocks_events(bs, i as int));
        }
        i = i + 1;
    }
    proof {
        assert(blocks_events(bs, i as int) =~= Seq::<SynthEventV>::empty());
    }
    push_event(&mut out, named_event("message_delta", build_message_delta_event(&msg)));
    push_event(&mut out, named_event("message_stop", build_message_stop_event()));
    proof {
        assert(synth_views(out@) =~= spec_synthesize_anthropic(
            msg.id@,
            msg.role@,
            msg.model@,
            bs,
            opt_s(msg.stop_reason),
            opt_s(msg.stop_sequence),
            msg.usage.input_tokens,
            msg.usage.output_tokens,
        ));
    }
    out
}

} // verus!

verus! {

/// The content text an OpenAI stream event delivers: `choices[0].delta.content`, or
/// nothing.
pub open spec fn delta_content(e: SynthEventV) -> Seq<char> {
    match e {
        SynthEventV::Data(_, j) => match crate::json::oarr(crate::json::jget(j, "choices"@)) {
            Some(cs) => if cs.len() > 0 {
                match crate::json::ostr(crate::json::oget(crate::json::jget(cs[0], "delta"@), "content"@)) {
                    Some(t) => t,
                    None => seq![],
                }
            } else {
                seq![]
            },
            None => seq![],
        },
        SynthEventV::Done => seq![],
    }
}

proof fn lemma_frame_content(id: Seq<char>, model: Seq<char>, created: i64, delta: JsonV, finish: JsonV, extra: Seq<(Seq<char>, JsonV)>)
    ensures
        delta_content(data_ev(JsonV::Object(openai_frame(id, model, created, delta, finish) + extra)))
            == match crate::json::ostr(crate::json::jget(delta, "content"@)) {
            Some(t) => t,
            None => seq![],
        },
{
    let e = openai_frame(id, model, created, delta, finish) + extra;
    assert(e[0] == openai_frame(id, model, created, delta, finish)[0]);
    assert(crate::json::obj_find(e, "choices"@, 0) == Some(0int));
    let choice = openai_frame(id, model, created, delta, finish)[0].1->Array_0[0];
    assert(crate::json::obj_find(choice->Object_0, "delta"@, 0) == Some(0int));
}

proof fn lemma_no_content_frame(id: Seq<char>, model: Seq<char>, created: i64, key: Seq<char>, v: JsonV)
    requires
        key != "content"@,
    ensures
        delta_content(frame_ev(id, model, created, JsonV::Object(seq![(key, v)]), JsonV::Null)).len() == 0,
{
    let d = JsonV::Object(seq![(key, v)]);
    let none: Seq<(Seq<char>, JsonV)> = seq![];
    assert(openai_frame(id, model, created, d, JsonV::Null) + none =~= openai_frame(id, model, created, d, JsonV::Null));
    lemma_frame_content(id, model, created, d, JsonV::Null, none);
    assert(crate::json::obj_find(seq![(key, v)], "content"@, 1) is None);
}

proof fn lemma_flatten_empties(s: Seq<Seq<char>>)
    requires
        forall|k: int| 0 <= k < s.len() ==> (#[trigger] s[k]).len() == 0,
    ensures
        s.flatten() == Seq::<char>::empty(),
    decreases s.len(),
{
    if s.len() > 0 {
        lemma_flatten_empties(s.drop_first());
        assert(s.first() =~= Seq::<char>::empty());
        assert(s.flatten() =~= Seq::<char>::empty());
    }
}

/// The content pieces of a synthesized OpenAI stream, read in order, give back the whole
/// content: no other event of the stream carries content.
pub proof fn law_synthesized_content_reassembles(
    id: Seq<char>,
    model: Seq<char>,
    created: i64,
    content: Seq<char>,
    tool_calls: Option<JsonV>,
    reasoning_text: Option<Seq<char>>,
    reasoning_opaque: Option<Seq<char>>,
    finish_reason: Seq<char>,
    usage: Option<JsonV>,
    timings: Option<JsonV>,
)
    ensures
        spec_synthesize_chunks(
            id,
            model,
            created,
            Some(content),
            tool_calls,
            reasoning_text,
            reasoning_opaque,
            finish_reason,
            usage,
            timings,
        ).map_values(|e: SynthEventV| delta_content(e)).flatten() == content,
{
    reveal_strlit("content");
    reveal_strlit("role");
    reveal_strlit("tool_calls");
    reveal_strlit("reasoning_text");
    reveal_strlit("reasoning_opaque");
    assert("content"@.len() == 7);
    assert("role"@.len() == 4);
    assert("tool_calls"@.len() == 10);
    assert("reasoning_text"@.len() == 14);
    assert("reasoning_opaque"@.len() == 16);
    let f = |e: SynthEventV| delta_content(e);
    let pieces = spec_chunk_text(content, DEFAULT_CHUNK_SIZE as nat)->0;
    let none: Seq<(Seq<char>, JsonV)> = seq![];
    let h1: Seq<SynthEventV> = seq![frame_ev(id, model, created, JsonV::Object(seq![("role"@, str_v("assistant"@))]), JsonV::Null)];
    let h2: Seq<SynthEventV> = match tool_calls {
        Some(t) => seq![frame_ev(id, model, created, JsonV::Object(seq![("tool_calls"@, t)]), JsonV::Null)],
        None => seq![],
    };
    let h3: Seq<SynthEventV> = match reasoning_text {
        Some(r) => seq![frame_ev(id, model, created, JsonV::Object(seq![("reasoning_text"@, str_v(r))]), JsonV::Null)],
        None => seq![],
    };
    let h4: Seq<SynthEventV> = match reasoning_opaque {
        Some(o) => seq![frame_ev(id, model, created, JsonV::Object(seq![("reasoning_opaque"@, str_v(o))]), JsonV::Null)],
        None => seq![],
    };
    let head = h1 + h2 + h3 + h4;
    let mid = pieces.map_values(|p: Seq<char>| content_ev(id, model, created, p));
    let tm: Seq<(Seq<char>, JsonV)> = match timings {
        Some(t) => seq![("timings"@, t)],
        None => seq![],
    };
    let us: Seq<(Seq<char>, JsonV)> = match usage {
        Some(u) => seq![("usage"@, u)],
        None => seq![],
    };
    let last = openai_frame(id, model, created, JsonV::Object(seq![]), str_v(finish_reason));
    assert(last + tm + us =~= last + (tm + us));
    let tail: Seq<SynthEventV> = seq![data_ev(JsonV::Object(last + (tm + us))), SynthEventV::Done];
    let all = spec_synthesize_chunks(
        id,
        model,
        created,
        Some(content),
        tool_calls,
        reasoning_text,
        reasoning_opaque,
        finish_reason,
        usage,
        timings,
    );
    assert(all =~= head + mid + tail);
    lemma_no_content_frame(id, model, created, "role"@, str_v("assistant"@));
    match tool_calls {
        Some(t) => lemma_no_content_frame(id, model, created, "tool_calls"@, t),
        None => {},
    }
    match reasoning_text {
        Some(r) => lemma_no_content_frame(id, model, created, "reasoning_text"@, str_v(r)),
        None => {},
    }
    match reasoning_opaque {
        Some(o) => lemma_no_content_frame(id, model, created, "reasoning_opaque"@, str_v(o)),
        None => {},
    }
    assert forall|k: int| 0 <= k < head.len() implies (#[trigger] head.map_values(f)[k]).len() == 0 by {
        if k < h1.len() {
            assert(head[k] == h1[k]);
        } else if k < h1.len() + h2.len() {
            assert(head[k] == h2[k - h1.len()]);
        } else if k < h1.len() + h2.len() + h3.len() {
            assert(head[k] == h3[k - h1.len() - h2.len()]);
        } else {
            assert(head[k] == h4[k - h1.len() - h2.len() - h3.len()]);
        }
    }
    assert forall|k: int| 0 <= k < mid.len() implies #[trigger] mid.map_values(f)[k] == pieces[k] by {
        let d = JsonV::Object(seq![("content"@, str_v(pieces[k]))]);
        assert(openai_frame(id, model, created, d, JsonV::Null) + none =~= openai_frame(id, model, created, d, JsonV::Null));
        lemma_frame_content(id, model, created, d, JsonV::Null, none);
        assert(crate::json::obj_find(seq![("content"@, str_v(pieces[k]))], "content"@, 0) == Some(0int));
    }
    assert(mid.map_values(f) =~= pieces);
    lemma_frame_content(id, model, created, JsonV::Object(seq![]), str_v(finish_reason), tm + us);
    assert forall|k: int| 0 <= k < tail.len() implies (#[trigger] tail.map_values(f)[k]).len() == 0 by {}
    assert(all.map_values(f) =~= head.map_values(f) + mid.map_values(f) + tail.map_values(f));
    vstd::seq_lib::lemma_flatten_concat(head.map_values(f), mid.map_values(f));
    vstd::seq_lib::lemma_flatten_concat(head.map_values(f) + mid.map_values(f), tail.map_values(f));
    lemma_flatten_empties(head.map_values(f));
    lemma_flatten_empties(tail.map_values(f));
    crate::text::law_chunk_text_reassembles(content, DEFAULT_CHUNK_SIZE as nat);
}

} // verus!

verus! {

/// The number of pieces `chunk_text` cuts a text into at the synthesis chunk size.
pub open spec fn piece_count(t: Seq<char>) -> int {
    spec_chunk_text(t, DEFAULT_CHUNK_SIZE as nat)->0.len() as int
}

/// How many events a block gives: start and stop around one delta per piece for text and
/// thinking, three for a tool call, a tool result as text when its content is a string
/// and nothing otherwise.
pub open spec fn block_event_count(b: BlockV) -> int {
    match b {
        BlockV::Text(t) => 2 + piece_count(t),
        BlockV::Thinking(t, _) => 2 + piece_count(t),
        BlockV::ToolUse(_, _, _) => 3,
        BlockV::ToolResult(_, content) => match content {
            JsonV::Str(t) => 2 + piece_count(t),
            _ => 0,
        },
    }
}

/// The events the blocks from `i` on give, summed.
pub open spec fn blocks_event_count(bs: Seq<BlockV>, i: int) -> int
    decreases bs.len() - i,
{
    if i < 0 || i >= bs.len() {
        0
    } else {
        block_event_count(bs[i]) + blocks_event_count(bs, i + 1)
    }
}

proof fn lemma_blocks_events_len(bs: Seq<BlockV>, i: int)
    requires
        0 <= i,
    ensures
        blocks_events(bs, i).len() == blocks_event_count(bs, i),
    decreases bs.len() - i,
{
    if i < bs.len() {
        lemma_blocks_events_len(bs, i + 1);
        assert(block_events(i, bs[i]).len() == block_event_count(bs[i]));
    }
}

/// A synthesized Anthropic stream has three events besides those of its blocks: it opens
/// with `message_start` and closes with `message_delta` then `message_stop`, and each
/// block gives `block_event_count` events.
pub proof fn law_anthropic_stream_length(
    id: Seq<char>,
    role: Seq<char>,
    model: Seq<char>,
    blocks: Seq<BlockV>,
    stop_reason: Option<Seq<char>>,
    stop_sequence: Option<Seq<char>>,
    input_tokens: u64,
    output_tokens: u64,
)
    ensures
        ({
            let evs = spec_synthesize_anthropic(
                id,
                role,
                model,
                blocks,
                stop_reason,
                stop_sequence,
                input_tokens,
                output_tokens,
            );
            &&& evs.len() == 3 + blocks_event_count(blocks, 0)
            &&& evs[0] == named_ev("message_start"@, message_start_v(id, role, model, input_tokens))
            &&& evs[evs.len() - 2] == named_ev(
                "message_delta"@,
                message_delta_v(stop_reason, stop_sequence, output_tokens),
            )
            &&& evs[evs.len() - 1] == named_ev("message_stop"@, message_stop_v())
        }),
{
    lemma_blocks_events_len(blocks, 0);
}

} // verus!

verus! {

/// The member `key` of `choices[0].delta` of an OpenAI stream event, if it has one.
pub open spec fn delta_member(e: SynthEventV, key: Seq<char>) -> Option<JsonV> {
    match e {
        SynthEventV::Data(_, j) => match crate::json::oarr(crate::json::jget(j, "choices"@)) {
            Some(cs) => if cs.len() > 0 {
                crate::json::oget(crate::json::jget(cs[0], "delta"@), key)
            } else {
                None
            },
            None => None,
        },
        SynthEventV::Done => None,
    }
}

proof fn lemma_frame_delta_member(id: Seq<char>, model: Seq<char>, created: i64, key: Seq<char>, v: JsonV)
    ensures
        delta_member(frame_ev(id, model, created, JsonV::Object(seq![(key, v)]), JsonV::Null), key) == Some(v),
{
    let e = openai_frame(id, model, created, JsonV::Object(seq![(key, v)]), JsonV::Null);
    assert(crate::json::obj_find(e, "choices"@, 0) == Some(0int));
    let choice = e[0].1->Array_0[0];
    assert(crate::json::obj_find(choice->Object_0, "delta"@, 0) == Some(0int));
    assert(crate::json::obj_find(seq![(key, v)], key, 0) == Some(0int));
}

/// What a client reads back from the `choices[0].delta` of a synthesized OpenAI stream:
/// the stream opens with the `assistant` role, carries the response's tool calls, reasoning
/// text and opaque reasoning state each in some chunk, and ends with `[DONE]`.
pub proof fn law_synthesized_stream_carries_the_message(
    id: Seq<char>,
    model: Seq<char>,
    created: i64,
    content: Option<Seq<char>>,
    tool_calls: Option<JsonV>,
    reasoning_text: Option<Seq<char>>,
    reasoning_opaque: Option<Seq<char>>,
    finish_reason: Seq<char>,
    usage: Option<JsonV>,
    timings: Option<JsonV>,
)
    ensures
        ({
            let evs = spec_synthesize_chunks(
                id,
                model,
                created,
                content,
                tool_calls,
                reasoning_text,
                reasoning_opaque,
                finish_reason,
                usage,
                timings,
            );
            &&& evs.len() >= 3
            &&& delta_member(evs[0], "role"@) == Some(JsonV::Str("assistant"@))
            &&& evs[evs.len() - 1] == SynthEventV::Done
            &&& (tool_calls matches Some(t) ==> exists|k: int|
                0 <= k < evs.len() && delta_member(#[trigger] evs[k], "tool_calls"@) == Some(t))
            &&& (reasoning_text matches Some(r) ==> exists|k: int|
                0 <= k < evs.len() && delta_member(#[trigger] evs[k], "reasoning_text"@) == Some(JsonV::Str(r)))
            &&& (reasoning_opaque matches Some(o) ==> exists|k: int|
                0 <= k < evs.len() && delta_member(#[trigger] evs[k], "reasoning_opaque"@) == Some(JsonV::Str(o)))
        }),
{
    let evs = spec_synthesize_chunks(
        id,
        model,
        created,
        content,
        tool_calls,
        reasoning_text,
        reasoning_opaque,
        finish_reason,
        usage,
        timings,
    );
    let h1 = seq![frame_ev(id, model, created, JsonV::Object(seq![("role"@, str_v("assistant"@))]), JsonV::Null)];
    let h2: Seq<SynthEventV> = match tool_calls {
        Some(t) => seq![frame_ev(id, model, created, JsonV::Object(seq![("tool_calls"@, t)]), JsonV::Null)],
        None => seq![],
    };
    let h3: Seq<SynthEventV> = match reasoning_text {
        Some(r) => seq![frame_ev(id, model, created, JsonV::Object(seq![("reasoning_text"@, str_v(r))]), JsonV::Null)],
        None => seq![],
    };
    let h4: Seq<SynthEventV> = match reasoning_opaque {
        Some(o) => seq![frame_ev(id, model, created, JsonV::Object(seq![("reasoning_opaque"@, str_v(o))]), JsonV::Null)],
        None => seq![],
    };
    lemma_frame_delta_member(id, model, created, "role"@, str_v("assistant"@));
    assert(evs[0] == h1[0]);
    match tool_calls {
        Some(t) => {
            lemma_frame_delta_member(id, model, created, "tool_calls"@, t);
            assert(evs[h1.len() as int] == h2[0]);
        },
        None => {},
    }
    match reasoning_text {
        Some(r) => {
            lemma_frame_delta_member(id, model, created, "reasoning_text"@, str_v(r));
            assert(evs[(h1.len() + h2.len()) as int] == h3[0]);
        },
        None => {},
    }
    match reasoning_opaque {
        Some(o) => {
            lemma_frame_delta_member(id, model, created, "reasoning_opaque"@, str_v(o));
            assert(evs[(h1.len() + h2.len() + h3.len()) as int] == h4[0]);
        },
        None => {},
    }
}

} // verus!
