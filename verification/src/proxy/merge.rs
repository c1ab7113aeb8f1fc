//! Merging the events of a stream into the single response the stream stands for.
use vstd::prelude::*;
use vstd::string::*;
use crate::json::{
    Json, JsonV, jarr, jget, jset, oarr, oget, ostr, ou64, settable, lemma_jset_jset,
    lemma_jget_jset_other, law_jget_after_jset,
};
use crate::proxy::request_log::concat2;
use crate::proxy::sse::{
    SseEvent, StreamFormat, detect_format, event_views, events_from, format_from, parse_sse_events,
    spec_lines,
};
use crate::text::str_eq;

verus! {

/// The type of an Anthropic event: its `event:` line, else its data's `type` member.
pub open spec fn anth_event_type(ev: (Option<Seq<char>>, JsonV)) -> Seq<char> {
    match ev.0 {
        Some(t) => t,
        None => match ostr(jget(ev.1, "type"@)) {
            Some(t) => t,
            None => seq![],
        },
    }
}

/// The content-block index an event names (0 when it names none).
pub open spec fn block_index(d: JsonV) -> int {
    match ou64(jget(d, "index"@)) {
        Some(u) => u as int,
        None => 0,
    }
}

/// A sequence grown with nulls until position `idx` exists.
pub open spec fn pad_nulls(c: Seq<JsonV>, idx: int) -> Seq<JsonV> {
    if c.len() <= idx {
        c + Seq::new((idx + 1 - c.len()) as nat, |k: int| JsonV::Null)
    } else {
        c
    }
}

/// The block type a delta starts when its block does not exist yet.
pub open spec fn delta_block_type(delta: JsonV) -> Seq<char> {
    let t = match ostr(jget(delta, "type"@)) {
        Some(t) => t,
        None => "text_delta"@,
    };
    if t == "thinking_delta"@ {
        "thinking"@
    } else if t == "input_json_delta"@ {
        "tool_use"@
    } else {
        "text"@
    }
}

/// Appends text to a string member, or sets the member when it is not a string.
pub open spec fn append_member(obj: JsonV, key: Seq<char>, piece: Seq<char>) -> JsonV {
    match ostr(jget(obj, key)) {
        Some(e) => jset(obj, key, JsonV::Str(e + piece)),
        None => jset(obj, key, JsonV::Str(piece)),
    }
}

/// A content block after one delta: `text`, `thinking` and `partial_json` (into `input`)
/// are appended; a block that is not an object is left alone.
pub open spec fn apply_block_delta(block: JsonV, delta: JsonV) -> JsonV {
    if block is Object {
        let b1 = match ostr(jget(delta, "text"@)) {
            Some(t) => append_member(block, "text"@, t),
            None => block,
        };
        let b2 = match ostr(jget(delta, "thinking"@)) {
            Some(t) => append_member(b1, "thinking"@, t),
            None => b1,
        };
        match ostr(jget(delta, "partial_json"@)) {
            Some(t) => append_member(b2, "input"@, t),
            None => b2,
        }
    } else {
        block
    }
}

/// The message after one Anthropic event.
pub open spec fn anth_step(m: JsonV, ev: (Option<Seq<char>>, JsonV)) -> JsonV {
    let t = anth_event_type(ev);
    let d = ev.1;
    if t == "message_start"@ {
        match jget(d, "message"@) {
            Some(msg) => if jget(msg, "content"@) is None {
                jset(msg, "content"@, JsonV::Array(seq![]))
            } else {
                msg
            },
            None => m,
        }
    } else if t == "content_block_start"@ {
        match (jget(d, "content_block"@), oarr(jget(m, "content"@))) {
            (Some(block), Some(c)) => jset(
                m,
                "content"@,
                JsonV::Array(pad_nulls(c, block_index(d)).update(block_index(d), block)),
            ),
            _ => m,
        }
    } else if t == "content_block_delta"@ {
        match (jget(d, "delta"@), oarr(jget(m, "content"@))) {
            (Some(delta), Some(c)) => {
                let i = block_index(d);
                let p = pad_nulls(c, i);
                let b0 = if p[i] is Null {
                    JsonV::Object(seq![("type"@, JsonV::Str(delta_block_type(delta)))])
                } else {
                    p[i]
                };
                jset(m, "content"@, JsonV::Array(p.update(i, apply_block_delta(b0, delta))))
            },
            _ => m,
        }
    } else if t == "message_delta"@ {
        let m1 = match ostr(oget(jget(d, "delta"@), "stop_reason"@)) {
            Some(s) => jset(m, "stop_reason"@, JsonV::Str(s)),
            None => m,
        };
        match jget(d, "usage"@) {
            Some(u) => match jget(m1, "usage"@) {
                Some(mu) => if mu is Object && jget(u, "output_tokens"@) is Some {
                    jset(m1, "usage"@, jset(mu, "output_tokens"@, jget(u, "output_tokens"@)->0))
                } else {
                    m1
                },
                None => jset(m1, "usage"@, u),
            },
            None => m1,
        }
    } else {
        m
    }
}

/// The message after the events from `i` on.
pub open spec fn anth_fold(m: JsonV, evs: Seq<(Option<Seq<char>>, JsonV)>, i: int) -> JsonV
    decreases evs.len() - i,
{
    if i < 0 || i >= evs.len() {
        m
    } else {
        anth_fold(anth_step(m, evs[i]), evs, i + 1)
    }
}

/// The message a merge starts from: `{"content": []}`.
pub open spec fn anth_initial() -> JsonV {
    JsonV::Object(seq![("content"@, JsonV::Array(seq![]))])
}

/// The merged message of a whole stream.
pub open spec fn spec_merge_anthropic(evs: Seq<(Option<Seq<char>>, JsonV)>) -> JsonV {
    anth_fold(anth_initial(), evs, 0)
}

/// An event the merge can take: a `message_start` message without `content` is an object
/// or null (anything else cannot be given a `content` member), and a block event's index
/// leaves room to grow the content list (a machine limit).
pub open spec fn anth_event_ok(ev: (Option<Seq<char>>, JsonV)) -> bool {
    let t = anth_event_type(ev);
    &&& (t == "message_start"@ && jget(ev.1, "message"@) is Some) ==> settable(
        jget(ev.1, "message"@)->0,
    )
    &&& (t == "content_block_start"@ || t == "content_block_delta"@) ==> block_index(ev.1)
        < usize::MAX
}

pub open spec fn anth_events_ok(evs: Seq<(Option<Seq<char>>, JsonV)>) -> bool {
    forall|i: int| 0 <= i < evs.len() ==> #[trigger] anth_event_ok(evs[i])
}

} // verus!

verus! {

/// Grows `v` with nulls until position `idx` exists.
fn pad_with_nulls(v: &mut Vec<Json>, idx: usize)
    requires
        idx < usize::MAX,
    ensures
        Json::items_view(final(v)@) == pad_nulls(Json::items_view(old(v)@), idx as int),
        idx < final(v).len(),
{
    let ghost old_len = v.len();
    proof {
        Json::lemma_items_view(v@);
    }
    let ghost old_items = Json::items_view(v@);
    while v.len() <= idx
        invariant
            idx < usize::MAX,
            old_len <= v.len() <= (if old_len <= idx { idx + 1 } else { old_len as int }),
            old_items.len() == old_len,
            forall|j: int| 0 <= j < old_len ==> #[trigger] v@[j]@ == old_items[j],
            forall|j: int| old_len <= j < v.len() ==> #[trigger] v@[j]@ == JsonV::Null,
        decreases idx + 1 - v.len(),
    {
        v.push(Json::Null);
    }
    proof {
        Json::lemma_items_view(v@);
        assert(Json::items_view(v@) =~= pad_nulls(old_items, idx as int));
    }
}

/// Appends `piece` to the string member `key` of an object, or sets it.
fn append_member_exec(obj: &mut Json, key: &str, piece: &str)
    requires
        settable(old(obj)@),
    ensures
        final(obj)@ == append_member(old(obj)@, key@, piece@),
        final(obj)@ is Object,
{
    let existing: Option<String> = match obj.get(key) {
        Some(x) => match x.as_str() {
            Some(s) => Some(String::from_str(s)),
            None => None,
        },
        None => None,
    };
    match existing {
        Some(e) => obj.set(key, Json::Str(concat2(e.as_str(), piece))),
        None => obj.set(key, Json::string(piece)),
    }
}

/// Applies one content delta to a block.
fn apply_block_delta_exec(block: Json, delta: &Json) -> (r: Json)
    ensures
        r@ == apply_block_delta(block@, delta@),
{
    if !block.is_object() {
        return block;
    }
    let mut b = block;
    match delta.get("text") {
        Some(x) => match x.as_str() {
            Some(t) => append_member_exec(&mut b, "text", t),
            None => {},
        },
        None => {},
    }
    match delta.get("thinking") {
        Some(x) => match x.as_str() {
            Some(t) => append_member_exec(&mut b, "thinking", t),
            None => {},
        },
        None => {},
    }
    match delta.get("partial_json") {
        Some(x) => match x.as_str() {
            Some(t) => append_member_exec(&mut b, "input", t),
            None => {},
        },
        None => {},
    }
    b
}

fn block_index_of(d: &Json) -> (r: u64)
    ensures
        r == block_index(d@),
{
    match d.get("index") {
        Some(x) => match x.as_u64() {
            Some(u) => u,
            None => 0,
        },
        None => 0,
    }
}

/// The event's type as the merge reads it.
fn event_type_of(ev: &SseEvent) -> (r: &str)
    ensures
        r@ == anth_event_type(ev@),
{
    proof {
        reveal_strlit("");
    }
    match &ev.event_type {
        Some(s) => s.as_str(),
        None => match ev.data.get("type") {
            Some(x) => match x.as_str() {
                Some(s) => s,
                None => "",
            },
            None => "",
        },
    }
}

/// Whether the object's `content` member is an array.
fn has_content_array(m: &Json) -> (r: bool)
    ensures
        r == (oarr(jget(m@, "content"@)) is Some),
{
    match m.get("content") {
        Some(c) => c.as_array().is_some(),
        None => false,
    }
}

} // verus!

verus! {

/// Replaces the array member `content` of an object by `items`.
fn put_content(m: &mut Json, items: Vec<Json>)
    requires
        old(m)@ is Object,
    ensures
        final(m)@ == jset(old(m)@, "content"@, JsonV::Array(Json::items_view(items@))),
        final(m)@ is Object,
{
    m.set("content", Json::Array(items));
}

/// Takes the `content` array out of an object whose `content` member is an array.
fn take_content(m: &mut Json) -> (r: Vec<Json>)
    requires
        old(m)@ is Object,
        oarr(jget(old(m)@, "content"@)) is Some,
    ensures
        Json::items_view(r@) == oarr(jget(old(m)@, "content"@))->0,
        final(m)@ == jset(old(m)@, "content"@, JsonV::Null),
        final(m)@ is Object,
{
    match m.take_member("content") {
        Some(Json::Array(v)) => v,
        _ => Vec::new(),
    }
}

/// One step of the Anthropic merge.
fn anthropic_step(m: &mut Json, ev: &SseEvent)
    requires
        old(m)@ is Object,
        anth_event_ok(ev@),
    ensures
        final(m)@ == anth_step(old(m)@, ev@),
        final(m)@ is Object,
{
    let t = event_type_of(ev);
    let ghost m0 = m@;
    if str_eq(t, "message_start") {
        match ev.data.get("message") {
            Some(msg) => {
                let mut nm = msg.deep_clone();
                if nm.get("content").is_none() {
                    nm.set("content", Json::empty_array());
                }
                *m = nm;
            },
            None => {},
        }
    } else if str_eq(t, "content_block_start") {
        match ev.data.get("content_block") {
            Some(block) => {
                if has_content_array(m) {
                    let idx = block_index_of(&ev.data) as usize;
                    let mut v = take_content(m);
                    pad_with_nulls(&mut v, idx);
                    let ghost padded = v@;
                    v.set(idx, block.deep_clone());
                    proof {
                        Json::lemma_items_view(padded);
                        Json::lemma_items_view(v@);
                        assert(Json::items_view(v@) =~= Json::items_view(padded).update(
                            idx as int,
                            block@,
                        ));
                        lemma_jset_jset(m0, "content"@, JsonV::Null, JsonV::Array(Json::items_view(v@)));
                    }
                    put_content(m, v);
                }
            },
            None => {},
        }
    } else if str_eq(t, "content_block_delta") {
        match ev.data.get("delta") {
            Some(delta) => {
                if has_content_array(m) {
                    let idx = block_index_of(&ev.data) as usize;
                    let mut v = take_content(m);
                    pad_with_nulls(&mut v, idx);
                    let ghost padded = v@;
                    proof {
                        Json::lemma_items_view(padded);
                    }
                    let cur = v[idx].deep_clone();
                    let b0 = if cur.is_null() {
                        let tname: &str = match delta.get("type") {
                            Some(x) => match x.as_str() {
                                Some(s) => s,
                                None => "text_delta",
                            },
                            None => "text_delta",
                        };
                        let bt = if str_eq(tname, "thinking_delta") {
                            "thinking"
                        } else if str_eq(tname, "input_json_delta") {
                            "tool_use"
                        } else {
                            "text"
                        };
                        let mut o = Json::empty_object();
                        o.set("type", Json::string(bt));
                        proof {
                            assert(o@ == JsonV::Object(seq![("type"@, JsonV::Str(delta_block_type(delta@)))]));
                        }
                        o
                    } else {
                        cur
                    };
                    let nb = apply_block_delta_exec(b0, delta);
                    v.set(idx, nb);
                    proof {
                        Json::lemma_items_view(v@);
                        assert(Json::items_view(v@) =~= Json::items_view(padded).update(
                            idx as int,
                            nb@,
                        ));
                        lemma_jset_jset(m0, "content"@, JsonV::Null, JsonV::Array(Json::items_view(v@)));
                    }
                    put_content(m, v);
                }
            },
            None => {},
        }
    } else if str_eq(t, "message_delta") {
        let stop: Option<String> = match ev.data.get("delta") {
            Some(dl) => match dl.get("stop_reason") {
                Some(x) => match x.as_str() {
                    Some(s) => Some(String::from_str(s)),
                    None => None,
                },
                None => None,
            },
            None => None,
        };
        match stop {
            Some(s) => m.set("stop_reason", Json::Str(s)),
            None => {},
        }
        let ghost m1 = m@;
        match ev.data.get("usage") {
            Some(u) => {
                let present = m.get("usage").is_some();
                if present {
                    let mergeable = match m.get("usage") {
                        Some(mu) => mu.is_object() && u.get("output_tokens").is_some(),
                        None => false,
                    };
                    if mergeable {
                        match u.get("output_tokens") {
                            Some(ot) => {
                                match m.take_member("usage") {
                                    Some(mut mu) => {
                                        let ghost mu0 = mu@;
                                        mu.set("output_tokens", ot.deep_clone());
                                        proof {
                                            lemma_jset_jset(m1, "usage"@, JsonV::Null, mu@);
                                        }
                                        m.set("usage", mu);
                                    },
                                    None => {},
                                }
                            },
                            None => {},
                        }
                    }
                } else {
                    m.set("usage", u.deep_clone());
                }
            },
            None => {},
        }
    }
}

/// Merges the events of an Anthropic stream into the final message: `message_start` gives
/// the message, block starts and deltas build `content`, `message_delta` brings the stop
/// reason and the output token count.
pub fn merge_anthropic_events(events: Vec<SseEvent>) -> (r: Json)
    requires
        anth_events_ok(event_views(events@)),
    ensures
        r@ == spec_merge_anthropic(event_views(events@)),
{
    let ghost evs = event_views(events@);
    let mut message = Json::empty_object();
    message.set("content", Json::empty_array());
    proof {
        assert(message@ == anth_initial());
    }
    let mut i: usize = 0;
    while i < events.len()
        invariant
            evs == event_views(events@),
            evs.len() == events.len(),
            anth_events_ok(evs),
            i <= events.len(),
            message@ is Object,
            anth_fold(message@, evs, i as int) == spec_merge_anthropic(evs),
        decreases events.len() - i,
    {
        assert(evs[i as int] == events@[i as int]@);
        assert(anth_event_ok(evs[i as int]));
        anthropic_step(&mut message, &events[i]);
        i = i + 1;
    }
    message
}

} // verus!

verus! {

/// One tool-call delta merged into the accumulated tool calls: a call with an integer
/// `index` fills an empty slot (growing the list with nulls as needed) or has its
/// `function.arguments` text appended to the slot's.
pub open spec fn merge_tool_call(atc: Seq<JsonV>, nc: JsonV) -> Seq<JsonV> {
    match ou64(jget(nc, "index"@)) {
        None => atc,
        Some(u) => {
            let k = u as int;
            let p = pad_nulls(atc, k);
            if p[k] is Null {
                p.update(k, nc)
            } else {
                let af = jget(p[k], "function"@);
                let nf = jget(nc, "function"@);
                if af is Some && nf is Some && ostr(jget(af->0, "arguments"@)) is Some && ostr(
                    jget(nf->0, "arguments"@),
                ) is Some {
                    p.update(
                        k,
                        jset(
                            p[k],
                            "function"@,
                            jset(
                                af->0,
                                "arguments"@,
                                JsonV::Str(
                                    ostr(jget(af->0, "arguments"@))->0 + ostr(
                                        jget(nf->0, "arguments"@),
                                    )->0,
                                ),
                            ),
                        ),
                    )
                } else {
                    p
                }
            }
        },
    }
}

/// The tool-call deltas from `j` on merged in order.
pub open spec fn merge_tool_calls(atc: Seq<JsonV>, ncs: Seq<JsonV>, j: int) -> Seq<JsonV>
    decreases ncs.len() - j,
{
    if j < 0 || j >= ncs.len() {
        atc
    } else {
        merge_tool_calls(merge_tool_call(atc, ncs[j]), ncs, j + 1)
    }
}

/// A message after a `tool_calls` delta: a null `tool_calls` member is replaced by the
/// delta; an array one merges an array delta call by call.
pub open spec fn merge_message_tool_calls(msg: JsonV, tc: JsonV) -> JsonV {
    match jget(msg, "tool_calls"@) {
        Some(atc) => if atc is Null {
            jset(msg, "tool_calls"@, tc)
        } else {
            match (atc, tc) {
                (JsonV::Array(a), JsonV::Array(n)) => jset(
                    msg,
                    "tool_calls"@,
                    JsonV::Array(merge_tool_calls(a, n, 0)),
                ),
                _ => msg,
            }
        },
        None => msg,
    }
}

/// The accumulated message of a choice after one delta: `content` and `reasoning_text`
/// are appended, `reasoning_opaque` replaced, tool calls merged.
pub open spec fn merge_delta_into_message(msg: JsonV, delta: JsonV) -> JsonV {
    let m1 = match ostr(jget(delta, "content"@)) {
        Some(c) => append_member(msg, "content"@, c),
        None => msg,
    };
    let m2 = match ostr(jget(delta, "reasoning_text"@)) {
        Some(c) => append_member(m1, "reasoning_text"@, c),
        None => m1,
    };
    let m3 = match jget(delta, "reasoning_opaque"@) {
        Some(o) => jset(m2, "reasoning_opaque"@, o),
        None => m2,
    };
    match jget(delta, "tool_calls"@) {
        Some(tc) => merge_message_tool_calls(m3, tc),
        None => m3,
    }
}

/// An accumulated choice after the chunk's choice at the same position; a non-null
/// `finish_reason` replaces the accumulated one.
pub open spec fn merge_choice(ac: JsonV, ch: JsonV) -> JsonV {
    let ac1 = match (jget(ch, "delta"@), jget(ac, "message"@)) {
        (Some(delta), Some(msg)) => jset(ac, "message"@, merge_delta_into_message(msg, delta)),
        _ => ac,
    };
    match jget(ch, "finish_reason"@) {
        Some(f) => if f is Null {
            ac1
        } else {
            jset(ac1, "finish_reason"@, f)
        },
        None => ac1,
    }
}

/// The accumulated choices after a chunk's choices: each accumulated choice that has a
/// counterpart at its position is merged with it; chunk choices beyond are dropped.
pub open spec fn merge_choices(ac: Seq<JsonV>, cc: Seq<JsonV>) -> Seq<JsonV> {
    Seq::new(ac.len(), |k: int| if k < cc.len() { merge_choice(ac[k], cc[k]) } else { ac[k] })
}

/// An accumulated OpenAI response after one more chunk: choices merged, `usage` and
/// `timings` replaced when the chunk has them, `model` replaced when the chunk's is not null.
pub open spec fn merge_openai(acc: JsonV, chunk: JsonV) -> JsonV {
    let a1 = match (oarr(jget(acc, "choices"@)), oarr(jget(chunk, "choices"@))) {
        (Some(ac), Some(cc)) => jset(acc, "choices"@, JsonV::Array(merge_choices(ac, cc))),
        _ => acc,
    };
    let a2 = match jget(chunk, "usage"@) {
        Some(u) => jset(a1, "usage"@, u),
        None => a1,
    };
    let a3 = match jget(chunk, "model"@) {
        Some(m) => if m is Null {
            a2
        } else {
            jset(a2, "model"@, m)
        },
        None => a2,
    };
    match jget(chunk, "timings"@) {
        Some(t) => jset(a3, "timings"@, t),
        None => a3,
    }
}

/// `merge_chunk`: the first chunk is taken as it is.
pub open spec fn spec_merge_chunk(acc: Option<JsonV>, chunk: JsonV) -> JsonV {
    match acc {
        None => chunk,
        Some(a) => merge_openai(a, chunk),
    }
}

/// Tool-call indexes leave room to grow the accumulated list (a machine limit).
pub open spec fn calls_fit(ncs: Seq<JsonV>) -> bool {
    forall|j: int|
        0 <= j < ncs.len() && #[trigger] ou64(jget(ncs[j], "index"@)) is Some ==> ou64(
            jget(ncs[j], "index"@),
        )->0 < usize::MAX
}

/// A chunk choice can be merged into an accumulated one: members are only ever written
/// into a message that is an object or null, and a `finish_reason` only into a choice that
/// is an object or null (anything else cannot take members).
pub open spec fn choice_ok(ac: JsonV, ch: JsonV) -> bool {
    let delta = jget(ch, "delta"@);
    let msg = jget(ac, "message"@);
    &&& (delta is Some && msg is Some && (ostr(jget(delta->0, "content"@)) is Some || ostr(
        jget(delta->0, "reasoning_text"@),
    ) is Some || jget(delta->0, "reasoning_opaque"@) is Some)) ==> settable(msg->0)
    &&& (delta is Some && msg is Some && oarr(jget(delta->0, "tool_calls"@)) is Some && oarr(
        jget(msg->0, "tool_calls"@),
    ) is Some) ==> calls_fit(oarr(jget(delta->0, "tool_calls"@))->0)
    &&& (jget(ch, "finish_reason"@) is Some && !(jget(ch, "finish_reason"@)->0 is Null))
        ==> settable(ac)
}

/// A chunk can be merged into the accumulated response.
pub open spec fn merge_chunk_ok(acc: Option<JsonV>, chunk: JsonV) -> bool {
    match acc {
        None => true,
        Some(a) => {
            &&& (oarr(jget(a, "choices"@)) is Some && oarr(jget(chunk, "choices"@)) is Some)
                ==> forall|k: int|
                0 <= k < oarr(jget(a, "choices"@))->0.len() && k < oarr(
                    jget(chunk, "choices"@),
                )->0.len() ==> #[trigger] choice_ok(
                    oarr(jget(a, "choices"@))->0[k],
                    oarr(jget(chunk, "choices"@))->0[k],
                )
            &&& (jget(chunk, "usage"@) is Some || (jget(chunk, "model"@) is Some && !(jget(
                chunk,
                "model"@,
            )->0 is Null)) || jget(chunk, "timings"@) is Some) ==> settable(a)
        },
    }
}

} // verus!

verus! {

/// The text of member `key` of member `outer` (`v[outer][key].as_str()`).
fn nested_str(v: &Json, outer: &str, key: &str) -> (r: Option<String>)
    ensures
        match r {
            Some(s) => jget(v@, outer@) is Some && ostr(jget(jget(v@, outer@)->0, key@)) == Some(
                s@,
            ),
            None => jget(v@, outer@) is None || ostr(jget(jget(v@, outer@)->0, key@)) is None,
        },
{
    match v.get(outer) {
        Some(o) => match o.get(key) {
            Some(x) => match x.as_str() {
                Some(s) => Some(String::from_str(s)),
                None => None,
            },
            None => None,
        },
        None => None,
    }
}

/// Merges one tool-call delta into the accumulated tool calls.
fn merge_tool_call_exec(a: &mut Vec<Json>, nc: &Json)
    requires
        ou64(jget(nc@, "index"@)) is Some ==> ou64(jget(nc@, "index"@))->0 < usize::MAX,
    ensures
        Json::items_view(final(a)@) == merge_tool_call(Json::items_view(old(a)@), nc@),
{
    let idx_opt = match nc.get("index") {
        Some(x) => x.as_u64(),
        None => None,
    };
    match idx_opt {
        None => {},
        Some(u) => {
            let idx = u as usize;
            pad_with_nulls(a, idx);
            let ghost padded = a@;
            proof {
                Json::lemma_items_view(padded);
            }
            if a[idx].is_null() {
                a.set(idx, nc.deep_clone());
                proof {
                    Json::lemma_items_view(a@);
                    assert(Json::items_view(a@) =~= Json::items_view(padded).update(
                        idx as int,
                        nc@,
                    ));
                }
            } else {
                let aa = nested_str(&a[idx], "function", "arguments");
                let na = nested_str(nc, "function", "arguments");
                match (aa, na) {
                    (Some(aa), Some(na)) => {
                        let mut cur = a[idx].deep_clone();
                        let ghost cur0 = cur@;
                        let mut af = match cur.take_member("function") {
                            Some(f) => f,
                            None => Json::Null,
                        };
                        let ghost af0 = af@;
                        af.set("arguments", Json::Str(concat2(aa.as_str(), na.as_str())));
                        proof {
                            lemma_jset_jset(cur0, "function"@, JsonV::Null, af@);
                        }
                        cur.set("function", af);
                        a.set(idx, cur);
                        proof {
                            Json::lemma_items_view(a@);
                            assert(Json::items_view(a@) =~= Json::items_view(padded).update(
                                idx as int,
                                a@[idx as int]@,
                            ));
                        }
                    },
                    _ => {},
                }
            }
        },
    }
}

/// Merges a `tool_calls` delta into an accumulated message.
fn merge_message_tool_calls_exec(msg: &mut Json, tc: &Json)
    requires
        jarr(tc@) is Some && oarr(jget(old(msg)@, "tool_calls"@)) is Some ==> calls_fit(
            jarr(tc@)->0,
        ),
    ensures
        final(msg)@ == merge_message_tool_calls(old(msg)@, tc@),
        old(msg)@ is Object ==> final(msg)@ is Object,
        !(old(msg)@ is Object) ==> final(msg)@ == old(msg)@,
{
    let (present, null_now, arr_now) = match msg.get("tool_calls") {
        Some(x) => (true, x.is_null(), x.as_array().is_some()),
        None => (false, false, false),
    };
    if !present {
        return;
    }
    let ghost m0 = msg@;
    if null_now {
        msg.set("tool_calls", tc.deep_clone());
        return;
    }
    match tc {
        Json::Array(ncs) => {
            if arr_now {
                let mut a: Vec<Json> = match msg.take_member("tool_calls") {
                    Some(Json::Array(v)) => v,
                    _ => Vec::new(),
                };
                proof {
                    Json::lemma_items_view(ncs@);
                }
                let ghost a0 = Json::items_view(a@);
                let ghost n = Json::items_view(ncs@);
                let mut j: usize = 0;
                while j < ncs.len()
                    invariant
                        j <= ncs.len(),
                        n == Json::items_view(ncs@),
                        n.len() == ncs.len(),
                        forall|x: int| 0 <= x < ncs.len() ==> #[trigger] n[x] == ncs@[x]@,
                        calls_fit(n),
                        merge_tool_calls(Json::items_view(a@), n, j as int) == merge_tool_calls(
                            a0,
                            n,
                            0,
                        ),
                    decreases ncs.len() - j,
                {
                    assert(ou64(jget(n[j as int], "index"@)) is Some ==> ou64(
                        jget(n[j as int], "index"@),
                    )->0 < usize::MAX);
                    merge_tool_call_exec(&mut a, &ncs[j]);
                    j = j + 1;
                }
                proof {
                    lemma_jset_jset(m0, "tool_calls"@, JsonV::Null, JsonV::Array(Json::items_view(a@)));
                }
                msg.set("tool_calls", Json::Array(a));
            }
        },
        _ => {},
    }
}

/// Merges one choice delta into the accumulated message.
fn merge_delta_into_message_exec(msg: &mut Json, delta: &Json)
    requires
        (ostr(jget(delta@, "content"@)) is Some || ostr(jget(delta@, "reasoning_text"@)) is Some
            || jget(delta@, "reasoning_opaque"@) is Some) ==> settable(old(msg)@),
        oarr(jget(delta@, "tool_calls"@)) is Some && oarr(jget(old(msg)@, "tool_calls"@)) is Some
            ==> calls_fit(oarr(jget(delta@, "tool_calls"@))->0),
    ensures
        final(msg)@ == merge_delta_into_message(old(msg)@, delta@),
{
    let ghost m0 = msg@;
    match delta.get("content") {
        Some(x) => match x.as_str() {
            Some(c) => append_member_exec(msg, "content", c),
            None => {},
        },
        None => {},
    }
    match delta.get("reasoning_text") {
        Some(x) => match x.as_str() {
            Some(c) => append_member_exec(msg, "reasoning_text", c),
            None => {},
        },
        None => {},
    }
    match delta.get("reasoning_opaque") {
        Some(o) => msg.set("reasoning_opaque", o.deep_clone()),
        None => {},
    }
    let ghost m3 = msg@;
    proof {
        reveal_strlit("tool_calls");
        reveal_strlit("content");
        reveal_strlit("reasoning_text");
        reveal_strlit("reasoning_opaque");
        assert("content"@[0] != "tool_calls"@[0]);
        assert("reasoning_text"@[0] != "tool_calls"@[0]);
        assert("reasoning_opaque"@[0] != "tool_calls"@[0]);
        if m3 != m0 {
            let m1 = match ostr(jget(delta@, "content"@)) {
                Some(c) => append_member(m0, "content"@, c),
                None => m0,
            };
            let m2 = match ostr(jget(delta@, "reasoning_text"@)) {
                Some(c) => append_member(m1, "reasoning_text"@, c),
                None => m1,
            };
            match ostr(jget(delta@, "content"@)) {
                Some(c) => {
                    match ostr(jget(m0, "content"@)) {
                        Some(e) => lemma_jget_jset_other(m0, "content"@, JsonV::Str(e + c), "tool_calls"@),
                        None => lemma_jget_jset_other(m0, "content"@, JsonV::Str(c), "tool_calls"@),
                    }
                },
                None => {},
            }
            match ostr(jget(delta@, "reasoning_text"@)) {
                Some(c) => {
                    match ostr(jget(m1, "reasoning_text"@)) {
                        Some(e) => lemma_jget_jset_other(m1, "reasoning_text"@, JsonV::Str(e + c), "tool_calls"@),
                        None => lemma_jget_jset_other(m1, "reasoning_text"@, JsonV::Str(c), "tool_calls"@),
                    }
                },
                None => {},
            }
            match jget(delta@, "reasoning_opaque"@) {
                Some(o) => lemma_jget_jset_other(m2, "reasoning_opaque"@, o, "tool_calls"@),
                None => {},
            }
        }
        assert(jget(m3, "tool_calls"@) == jget(m0, "tool_calls"@));
    }
    match delta.get("tool_calls") {
        Some(tc) => merge_message_tool_calls_exec(msg, tc),
        None => {},
    }
}

/// Merges a chunk's choice into the accumulated choice at its position.
fn merge_choice_exec(ac: Json, ch: &Json) -> (r: Json)
    requires
        choice_ok(ac@, ch@),
    ensures
        r@ == merge_choice(ac@, ch@),
{
    let mut ac = ac;
    let ghost ac0 = ac@;
    match ch.get("delta") {
        Some(delta) => {
            if ac.get("message").is_some() {
                let mut msg = match ac.take_member("message") {
                    Some(m) => m,
                    None => Json::Null,
                };
                merge_delta_into_message_exec(&mut msg, delta);
                proof {
                    lemma_jset_jset(ac0, "message"@, JsonV::Null, msg@);
                }
                ac.set("message", msg);
            }
        },
        None => {},
    }
    match ch.get("finish_reason") {
        Some(f) => {
            if !f.is_null() {
                ac.set("finish_reason", f.deep_clone());
            }
        },
        None => {},
    }
    ac
}

} // verus!

verus! {

pub open spec fn opt_json_view(o: Option<Json>) -> Option<JsonV> {
    match o {
        Some(j) => Some(j@),
        None => None,
    }
}

/// The array member `key` of `v`, if it is one.
fn array_member<'a>(v: &'a Json, key: &str) -> (r: Option<&'a Vec<Json>>)
    ensures
        match r {
            Some(a) => oarr(jget(v@, key@)) == Some(Json::items_view(a@)),
            None => oarr(jget(v@, key@)) is None,
        },
{
    match v.get(key) {
        Some(x) => x.as_array(),
        None => None,
    }
}

/// Merges a streaming chunk into the accumulated OpenAI response.
pub fn merge_chunk(acc: Option<Json>, chunk: Json) -> (r: Json)
    requires
        merge_chunk_ok(opt_json_view(acc), chunk@),
    ensures
        r@ == spec_merge_chunk(opt_json_view(acc), chunk@),
{
    match acc {
        None => chunk,
        Some(a) => {
            let mut a = a;
            let ghost a0 = a@;
            let both = array_member(&a, "choices").is_some() && array_member(&chunk, "choices").is_some();
            if both {
                match array_member(&chunk, "choices") {
                    Some(cc) => {
                        let mut ac: Vec<Json> = match a.take_member("choices") {
                            Some(Json::Array(v)) => v,
                            _ => Vec::new(),
                        };
                        let ghost orig = Json::items_view(ac@);
                        let ghost ccv = Json::items_view(cc@);
                        proof {
                            Json::lemma_items_view(ac@);
                            Json::lemma_items_view(cc@);
                        }
                        let mut i: usize = 0;
                        while i < ac.len() && i < cc.len()
                            invariant
                                orig.len() == ac.len(),
                                ccv.len() == cc.len(),
                                forall|x: int| 0 <= x < cc.len() ==> #[trigger] ccv[x] == cc@[x]@,
                                ccv == oarr(jget(chunk@, "choices"@))->0,
                                orig == oarr(jget(a0, "choices"@))->0,
                                merge_chunk_ok(Some(a0), chunk@),
                                oarr(jget(a0, "choices"@)) is Some,
                                oarr(jget(chunk@, "choices"@)) is Some,
                                i <= ac.len(),
                                forall|x: int|
                                    0 <= x < ac.len() ==> #[trigger] ac@[x]@ == (if x < i && x
                                        < ccv.len() {
                                        merge_choice(orig[x], ccv[x])
                                    } else {
                                        orig[x]
                                    }),
                            decreases ac.len() - i,
                        {
                            assert(choice_ok(orig[i as int], ccv[i as int]));
                            let cur = ac[i].deep_clone();
                            let nw = merge_choice_exec(cur, &cc[i]);
                            ac.set(i, nw);
                            i = i + 1;
                        }
                        proof {
                            Json::lemma_items_view(ac@);
                            assert(Json::items_view(ac@) =~= merge_choices(orig, ccv));
                            lemma_jset_jset(a0, "choices"@, JsonV::Null, JsonV::Array(merge_choices(orig, ccv)));
                        }
                        a.set("choices", Json::Array(ac));
                    },
                    None => {},
                }
            }
            match chunk.get("usage") {
                Some(u) => a.set("usage", u.deep_clone()),
                None => {},
            }
            match chunk.get("model") {
                Some(m) => {
                    if !m.is_null() {
                        a.set("model", m.deep_clone());
                    }
                },
                None => {},
            }
            match chunk.get("timings") {
                Some(t) => a.set("timings", t.deep_clone()),
                None => {},
            }
            a
        },
    }
}

} // verus!

verus! {

fn str_member_present(v: &Json, key: &str) -> (r: bool)
    ensures
        r == (ostr(jget(v@, key@)) is Some),
{
    match v.get(key) {
        Some(x) => x.as_str().is_some(),
        None => false,
    }
}

fn calls_fit_exec(ncs: &Vec<Json>) -> (r: bool)
    ensures
        r == calls_fit(Json::items_view(ncs@)),
{
    proof {
        Json::lemma_items_view(ncs@);
    }
    let ghost n = Json::items_view(ncs@);
    let mut j: usize = 0;
    while j < ncs.len()
        invariant
            j <= ncs.len(),
            n == Json::items_view(ncs@),
            n.len() == ncs.len(),
            forall|x: int| 0 <= x < ncs.len() ==> #[trigger] n[x] == ncs@[x]@,
            forall|x: int|
                0 <= x < j && #[trigger] ou64(jget(n[x], "index"@)) is Some ==> ou64(
                    jget(n[x], "index"@),
                )->0 < usize::MAX,
        decreases ncs.len() - j,
    {
        let idx = match ncs[j].get("index") {
            Some(x) => x.as_u64(),
            None => None,
        };
        match idx {
            Some(u) => {
                if u as u128 >= usize::MAX as u128 {
                    assert(!calls_fit(n) || !(ou64(jget(n[j as int], "index"@)) is Some));
                    return false;
                }
            },
            None => {},
        }
        j = j + 1;
    }
    true
}

/// Whether a chunk choice can be merged into an accumulated one.
fn choice_ok_exec(ac: &Json, ch: &Json) -> (r: bool)
    ensures
        r == choice_ok(ac@, ch@),
{
    let c1 = match (ch.get("delta"), ac.get("message")) {
        (Some(d), Some(m)) => {
            let writes = str_member_present(d, "content") || str_member_present(d, "reasoning_text")
                || d.get("reasoning_opaque").is_some();
            !writes || m.is_settable()
        },
        _ => true,
    };
    let c2 = match (ch.get("delta"), ac.get("message")) {
        (Some(d), Some(m)) => match (array_member(d, "tool_calls"), array_member(m, "tool_calls")) {
            (Some(ncs), Some(_)) => calls_fit_exec(ncs),
            _ => true,
        },
        _ => true,
    };
    let c3 = match ch.get("finish_reason") {
        Some(f) => f.is_null() || ac.is_settable(),
        None => true,
    };
    c1 && c2 && c3
}

/// Whether each chunk choice can be merged into the accumulated choice at its position.
fn choices_ok_exec(av: &Vec<Json>, cv: &Vec<Json>) -> (r: bool)
    ensures
        r == (forall|k: int|
            0 <= k < av.len() && k < cv.len() ==> #[trigger] choice_ok(
                Json::items_view(av@)[k],
                Json::items_view(cv@)[k],
            )),
{
    proof {
        Json::lemma_items_view(av@);
        Json::lemma_items_view(cv@);
    }
    let ghost x = Json::items_view(av@);
    let ghost y = Json::items_view(cv@);
    let mut k: usize = 0;
    let mut ok = true;
    while k < av.len() && k < cv.len()
        invariant
            x == Json::items_view(av@),
            y == Json::items_view(cv@),
            x.len() == av.len(),
            y.len() == cv.len(),
            forall|i: int| 0 <= i < av.len() ==> #[trigger] x[i] == av@[i]@,
            forall|i: int| 0 <= i < cv.len() ==> #[trigger] y[i] == cv@[i]@,
            k <= av.len(),
            ok == (forall|i: int|
                0 <= i < k && i < x.len() && i < y.len() ==> #[trigger] choice_ok(
                    x[i],
                    y[i],
                )),
        decreases av.len() - k,
    {
        let c = choice_ok_exec(&av[k], &cv[k]);
        let ghost old_ok = ok;
        ok = ok && c;
        proof {
            assert(c == choice_ok(x[k as int], y[k as int]));
            assert(ok == (forall|i: int|
                0 <= i < k + 1 && i < x.len() && i < y.len() ==> #[trigger] choice_ok(
                    x[i],
                    y[i],
                ))) by {
                if ok {
                    assert forall|i: int|
                        0 <= i < k + 1 && i < x.len() && i < y.len() implies #[trigger] choice_ok(
                        x[i],
                        y[i],
                    ) by {
                        if i < k {
                            assert(old_ok);
                        }
                    }
                } else if !old_ok {
                    let w = choose|i: int|
                        0 <= i < k && i < x.len() && i < y.len() && !#[trigger] choice_ok(x[i], y[i]);
                    assert(!choice_ok(x[w], y[w]));
                }
            }
        }
        k = k + 1;
    }
    assert(ok == (forall|i: int|
        0 <= i < x.len() && i < y.len() ==> #[trigger] choice_ok(x[i], y[i]))) by {
        if !ok {
            let w = choose|i: int|
                0 <= i < k && i < x.len() && i < y.len() && !#[trigger] choice_ok(x[i], y[i]);
            assert(!choice_ok(x[w], y[w]));
        }
    }
    ok
}

/// Whether a chunk can be merged into the accumulated response.
pub fn merge_chunk_ok_exec(acc: &Option<Json>, chunk: &Json) -> (r: bool)
    ensures
        r == merge_chunk_ok(opt_json_view(*acc), chunk@),
{
    match acc {
        None => true,
        Some(a) => {
            let c1 = match (array_member(a, "choices"), array_member(chunk, "choices")) {
                (Some(av), Some(cv)) => {
                    let r = choices_ok_exec(av, cv);
                    proof {
                        let x = oarr(jget(a@, "choices"@))->0;
                        let y = oarr(jget(chunk@, "choices"@))->0;
                        assert(x == Json::items_view(av@));
                        assert(y == Json::items_view(cv@));
                        Json::lemma_items_view(av@);
                        Json::lemma_items_view(cv@);
                        assert(r == (forall|k: int|
                            0 <= k < x.len() && k < y.len() ==> #[trigger] choice_ok(x[k], y[k])));
                    }
                    r
                },
                _ => true,
            };
            let model_write = match chunk.get("model") {
                Some(m) => !m.is_null(),
                None => false,
            };
            let writes = chunk.get("usage").is_some() || model_write || chunk.get("timings").is_some();
            c1 && (!writes || a.is_settable())
        },
    }
}

/// The merged OpenAI response after the events from `i` on.
pub open spec fn openai_fold(
    acc: Option<JsonV>,
    evs: Seq<(Option<Seq<char>>, JsonV)>,
    i: int,
) -> Option<JsonV>
    decreases evs.len() - i,
{
    if i < 0 || i >= evs.len() {
        acc
    } else {
        openai_fold(Some(spec_merge_chunk(acc, evs[i].1)), evs, i + 1)
    }
}

/// Whether every chunk from `i` on can be merged in turn.
pub open spec fn openai_ok(acc: Option<JsonV>, evs: Seq<(Option<Seq<char>>, JsonV)>, i: int) -> bool
    decreases evs.len() - i,
{
    if i < 0 || i >= evs.len() {
        true
    } else {
        merge_chunk_ok(acc, evs[i].1) && openai_ok(Some(spec_merge_chunk(acc, evs[i].1)), evs, i + 1)
    }
}

/// Merges the chunks of an OpenAI stream in order; `None` when some chunk cannot be merged.
pub fn merge_openai_events(events: &Vec<SseEvent>) -> (r: Option<Option<Json>>)
    ensures
        r is Some == openai_ok(None, event_views(events@), 0),
        r matches Some(x) ==> opt_json_view(x) == openai_fold(None, event_views(events@), 0),
{
    let ghost evs = event_views(events@);
    let mut combined: Option<Json> = None;
    let mut i: usize = 0;
    while i < events.len()
        invariant
            evs == event_views(events@),
            evs.len() == events.len(),
            i <= events.len(),
            openai_ok(None, evs, 0) == openai_ok(opt_json_view(combined), evs, i as int),
            openai_fold(None, evs, 0) == openai_fold(opt_json_view(combined), evs, i as int),
        decreases events.len() - i,
    {
        assert(evs[i as int] == events@[i as int]@);
        if !merge_chunk_ok_exec(&combined, &events[i].data) {
            return None;
        }
        let next = merge_chunk(combined, events[i].data.deep_clone());
        combined = Some(next);
        i = i + 1;
    }
    Some(combined)
}

} // verus!

verus! {

/// Whether an event can be merged into an Anthropic message.
fn anth_event_ok_exec(ev: &SseEvent) -> (r: bool)
    ensures
        r == anth_event_ok(ev@),
{
    let t = event_type_of(ev);
    let c1 = if str_eq(t, "message_start") {
        match ev.data.get("message") {
            Some(m) => m.is_settable(),
            None => true,
        }
    } else {
        true
    };
    let c2 = if str_eq(t, "content_block_start") || str_eq(t, "content_block_delta") {
        (block_index_of(&ev.data) as u128) < (usize::MAX as u128)
    } else {
        true
    };
    c1 && c2
}

/// Whether every event can be merged into an Anthropic message.
pub fn anth_events_ok_exec(events: &Vec<SseEvent>) -> (r: bool)
    ensures
        r == anth_events_ok(event_views(events@)),
{
    let ghost evs = event_views(events@);
    let mut i: usize = 0;
    while i < events.len()
        invariant
            evs == event_views(events@),
            evs.len() == events.len(),
            i <= events.len(),
            forall|k: int| 0 <= k < i ==> #[trigger] anth_event_ok(evs[k]),
        decreases events.len() - i,
    {
        assert(evs[i as int] == events@[i as int]@);
        if !anth_event_ok_exec(&events[i]) {
            return false;
        }
        i = i + 1;
    }
    true
}

/// The response a whole accumulated stream stands for: the merged Anthropic message, the
/// merged OpenAI response (none for a stream without events), or nothing when the format is
/// not recognized.
pub open spec fn spec_parse_accumulated_sse(data: Seq<char>) -> Option<JsonV> {
    let ls = spec_lines(data);
    let evs = events_from(ls, 0, None);
    match format_from(ls, 0) {
        StreamFormat::Anthropic => Some(spec_merge_anthropic(evs)),
        StreamFormat::OpenAI => openai_fold(None, evs, 0),
        StreamFormat::Unknown => None,
    }
}

/// Whether the events of an accumulated stream can all be merged.
pub open spec fn sse_mergeable(data: Seq<char>) -> bool {
    let ls = spec_lines(data);
    let evs = events_from(ls, 0, None);
    match format_from(ls, 0) {
        StreamFormat::Anthropic => anth_events_ok(evs),
        StreamFormat::OpenAI => openai_ok(None, evs, 0),
        StreamFormat::Unknown => true,
    }
}

/// Rebuilds the final response from the accumulated event-stream text.
pub fn parse_accumulated_sse(data: &str) -> (r: Option<Json>)
    requires
        sse_mergeable(data@),
    ensures
        opt_json_view(r) == spec_parse_accumulated_sse(data@),
{
    let format = detect_format(data);
    let events = parse_sse_events(data);
    match format {
        StreamFormat::Anthropic => Some(merge_anthropic_events(events)),
        StreamFormat::OpenAI => match merge_openai_events(&events) {
            Some(combined) => combined,
            None => None,
        },
        StreamFormat::Unknown => None,
    }
}

/// `parse_accumulated_sse` for any text: `None` when some event cannot be merged (a
/// member would have to be set on something that is neither an object nor null),
/// otherwise what `parse_accumulated_sse` gives.
pub fn parse_accumulated_sse_checked(data: &str) -> (r: Option<Option<Json>>)
    ensures
        r is Some == sse_mergeable(data@),
        r matches Some(x) ==> opt_json_view(x) == spec_parse_accumulated_sse(data@),
{
    let format = detect_format(data);
    let events = parse_sse_events(data);
    let ok = match format {
        StreamFormat::Anthropic => anth_events_ok_exec(&events),
        StreamFormat::OpenAI => merge_openai_events(&events).is_some(),
        StreamFormat::Unknown => true,
    };
    if ok {
        Some(parse_accumulated_sse(data))
    } else {
        None
    }
}

} // verus!

verus! {

/// Merging a chunk into an accumulated response keeps the accumulated `model`, `usage` and
/// `timings` when the chunk does not carry that member (a null `model` counts as not
/// carried).
pub proof fn law_merge_keeps_members_the_chunk_lacks(acc: JsonV, chunk: JsonV, key: Seq<char>)
    requires
        key == "model"@ || key == "usage"@ || key == "timings"@,
        jget(chunk, key) is None || (key == "model"@ && jget(chunk, key) == Some(JsonV::Null)),
    ensures
        jget(spec_merge_chunk(Some(acc), chunk), key) == jget(acc, key),
{
    reveal_strlit("model");
    reveal_strlit("usage");
    reveal_strlit("timings");
    reveal_strlit("choices");
    assert("choices"@.len() == 7 && "choices"@[0] == 'c');
    assert("model"@.len() == 5 && "model"@[0] == 'm');
    assert("usage"@.len() == 5 && "usage"@[0] == 'u');
    assert("timings"@.len() == 7 && "timings"@[0] == 't');
    assert(key.len() > 0 && (key[0] == 'm' || key[0] == 'u' || key[0] == 't'));
    let a1 = match (oarr(jget(acc, "choices"@)), oarr(jget(chunk, "choices"@))) {
        (Some(ac), Some(cc)) => jset(acc, "choices"@, JsonV::Array(merge_choices(ac, cc))),
        _ => acc,
    };
    assert(key != "choices"@);
    if oarr(jget(acc, "choices"@)) is Some && oarr(jget(chunk, "choices"@)) is Some {
        lemma_jget_jset_other(acc, "choices"@, JsonV::Array(merge_choices(oarr(jget(acc, "choices"@))->0, oarr(jget(chunk, "choices"@))->0)), key);
    }
    assert(jget(a1, key) == jget(acc, key));
    let a2 = match jget(chunk, "usage"@) {
        Some(u) => jset(a1, "usage"@, u),
        None => a1,
    };
    if jget(chunk, "usage"@) is Some {
        assert(key != "usage"@);
        lemma_jget_jset_other(a1, "usage"@, jget(chunk, "usage"@)->0, key);
    }
    let a3 = match jget(chunk, "model"@) {
        Some(m) => if m is Null {
            a2
        } else {
            jset(a2, "model"@, m)
        },
        None => a2,
    };
    if jget(chunk, "model"@) is Some && !(jget(chunk, "model"@)->0 is Null) {
        assert(key != "model"@);
        lemma_jget_jset_other(a2, "model"@, jget(chunk, "model"@)->0, key);
    }
    if jget(chunk, "timings"@) is Some {
        assert(key != "timings"@);
        lemma_jget_jset_other(a3, "timings"@, jget(chunk, "timings"@)->0, key);
    }
}

} // verus!

verus! {

/// A delta's `content` or `reasoning_text` is appended to the text the accumulated
/// message already holds under that key: the merged message holds `e + c`.
pub proof fn law_delta_text_is_appended(msg: JsonV, delta: JsonV, key: Seq<char>, e: Seq<char>, c: Seq<char>)
    requires
        key == "content"@ || key == "reasoning_text"@,
        msg is Object,
        jget(msg, key) == Some(JsonV::Str(e)),
        jget(delta, key) == Some(JsonV::Str(c)),
    ensures
        jget(merge_delta_into_message(msg, delta), key) == Some(JsonV::Str(e + c)),
{
    reveal_strlit("tool_calls");
    reveal_strlit("content");
    reveal_strlit("reasoning_text");
    reveal_strlit("reasoning_opaque");
    assert("content"@[0] != "tool_calls"@[0]);
    assert("reasoning_text"@[0] != "tool_calls"@[0]);
    assert("content"@[0] != "reasoning_text"@[0]);
    assert("content"@[0] != "reasoning_opaque"@[0]);
    assert("reasoning_text"@.len() != "reasoning_opaque"@.len());
    assert("content"@ != "tool_calls"@);
    assert("reasoning_text"@ != "tool_calls"@);
    assert("content"@ != "reasoning_text"@);
    assert("content"@ != "reasoning_opaque"@);
    assert("reasoning_text"@ != "reasoning_opaque"@);
    let m1 = match ostr(jget(delta, "content"@)) {
        Some(x) => append_member(msg, "content"@, x),
        None => msg,
    };
    if key == "content"@ {
        law_jget_after_jset(msg, "content"@, JsonV::Str(e + c));
        assert(jget(m1, key) == Some(JsonV::Str(e + c)));
    } else {
        match ostr(jget(delta, "content"@)) {
            Some(x) => match ostr(jget(msg, "content"@)) {
                Some(y) => lemma_jget_jset_other(msg, "content"@, JsonV::Str(y + x), key),
                None => lemma_jget_jset_other(msg, "content"@, JsonV::Str(x), key),
            },
            None => {},
        }
        assert(jget(m1, key) == Some(JsonV::Str(e)));
    }
    assert(m1 is Object);
    let m2 = match ostr(jget(delta, "reasoning_text"@)) {
        Some(x) => append_member(m1, "reasoning_text"@, x),
        None => m1,
    };
    if key == "reasoning_text"@ {
        law_jget_after_jset(m1, "reasoning_text"@, JsonV::Str(e + c));
    } else {
        match ostr(jget(delta, "reasoning_text"@)) {
            Some(x) => match ostr(jget(m1, "reasoning_text"@)) {
                Some(y) => lemma_jget_jset_other(m1, "reasoning_text"@, JsonV::Str(y + x), key),
                None => lemma_jget_jset_other(m1, "reasoning_text"@, JsonV::Str(x), key),
            },
            None => {},
        }
    }
    assert(jget(m2, key) == Some(JsonV::Str(e + c)));
    let m3 = match jget(delta, "reasoning_opaque"@) {
        Some(o) => jset(m2, "reasoning_opaque"@, o),
        None => m2,
    };
    match jget(delta, "reasoning_opaque"@) {
        Some(o) => lemma_jget_jset_other(m2, "reasoning_opaque"@, o, key),
        None => {},
    }
    assert(jget(m3, key) == Some(JsonV::Str(e + c)));
    match jget(delta, "tool_calls"@) {
        Some(tc) => match jget(m3, "tool_calls"@) {
            Some(atc) => if atc is Null {
                lemma_jget_jset_other(m3, "tool_calls"@, tc, key);
            } else {
                match (atc, tc) {
                    (JsonV::Array(a), JsonV::Array(n)) => lemma_jget_jset_other(
                        m3,
                        "tool_calls"@,
                        JsonV::Array(merge_tool_calls(a, n, 0)),
                        key,
                    ),
                    _ => {},
                }
            },
            None => {},
        },
        None => {},
    }
}

} // verus!
