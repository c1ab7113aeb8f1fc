//! Counts read from backend responses: token usage, finish reason, sizes, slot contexts.
use vstd::prelude::*;
use vstd::string::*;
use crate::json::{Json, JsonV, jget, ostr, oarr, ou64, obool, oget};
use crate::text::{blen, byte_len};

verus! {

/// Per-slot metrics from the `/slots` endpoint.
#[derive(Debug, Clone, Copy, PartialEq, Eq, Structural)]
pub struct SlotMetrics {
    pub slot_id: u32,
    pub n_tokens: u64,
    pub n_ctx: u64,
    pub is_processing: bool,
}

/// Context information summed over the slots.
#[derive(Debug)]
pub struct ContextInfo {
    pub total_context: u64,
    pub used_context: u64,
    pub slots: Vec<SlotMetrics>,
}

/// A number member, or 0.
pub open spec fn u64_or_zero(j: JsonV, key: Seq<char>) -> u64 {
    match ou64(jget(j, key)) {
        Some(u) => u,
        None => 0,
    }
}

/// The metrics of one slot object (missing or mistyped fields read as 0 / false;
/// the id is truncated to 32 bits).
pub open spec fn slot_of(j: JsonV) -> SlotMetrics {
    SlotMetrics {
        slot_id: u64_or_zero(j, "id"@) as u32,
        n_tokens: u64_or_zero(j, "n_tokens"@),
        n_ctx: u64_or_zero(j, "n_ctx"@),
        is_processing: match obool(jget(j, "is_processing"@)) {
            Some(b) => b,
            None => false,
        },
    }
}

/// Sum of a number member over a list of objects.
pub open spec fn sum_member(items: Seq<JsonV>, key: Seq<char>) -> int
    decreases items.len(),
{
    if items.len() == 0 {
        0
    } else {
        sum_member(items.drop_last(), key) + u64_or_zero(items.last(), key) as int
    }
}

/// Whether the context sums of a `/slots` answer fit in 64 bits (the totals are `u64`).
pub open spec fn slot_sums_fit(response: JsonV) -> bool {
    match response {
        JsonV::Array(slots) => sum_member(slots, "n_ctx"@) <= u64::MAX && sum_member(
            slots,
            "n_tokens"@,
        ) <= u64::MAX,
        _ => true,
    }
}

proof fn lemma_sum_member_mono(items: Seq<JsonV>, key: Seq<char>, i: int)
    requires
        0 <= i <= items.len(),
    ensures
        sum_member(items.take(i), key) <= sum_member(items, key),
    decreases items.len() - i,
{
    if i < items.len() {
        lemma_sum_member_mono(items, key, i + 1);
        assert(items.take(i + 1).drop_last() =~= items.take(i));
    } else {
        assert(items.take(i) =~= items);
    }
}

impl ContextInfo {
    /// Parse a `/slots` response: one entry per slot, totals summed over the slots.
    /// `None` when the response is not an array.
    pub fn from_slots_response(response: &Json) -> (r: Option<ContextInfo>)
        requires
            slot_sums_fit(response@),
        ensures
            match response@ {
                JsonV::Array(slots) => r is Some && r.unwrap().total_context == sum_member(
                    slots,
                    "n_ctx"@,
                ) && r.unwrap().used_context == sum_member(slots, "n_tokens"@)
                    && r.unwrap().slots@.len() == slots.len() && forall|i: int|
                    0 <= i < slots.len() ==> #[trigger] r.unwrap().slots@[i] == slot_of(slots[i]),
                _ => r is None,
            },
    {
        let slots = match response.as_array() {
            Some(a) => a,
            None => return None,
        };
        proof {
            Json::lemma_items_view(slots@);
        }
        let ghost sv = Json::items_view(slots@);
        let mut total: u64 = 0;
        let mut used: u64 = 0;
        let mut out: Vec<SlotMetrics> = Vec::new();
        let mut i: usize = 0;
        while i < slots.len()
            invariant
                i <= slots.len(),
                sv == Json::items_view(slots@),
                sv.len() == slots.len(),
                response@ == JsonV::Array(sv),
                forall|j: int| 0 <= j < slots.len() ==> #[trigger] sv[j] == slots@[j]@,
                slot_sums_fit(response@),
                total == sum_member(sv.take(i as int), "n_ctx"@),
                used == sum_member(sv.take(i as int), "n_tokens"@),
                out@.len() == i,
                forall|j: int| 0 <= j < i ==> #[trigger] out@[j] == slot_of(sv[j]),
            decreases slots.len() - i,
        {
            let slot = &slots[i];
            let id: u64 = match slot.get("id") {
                Some(x) => match x.as_u64() {
                    Some(u) => u,
                    None => 0,
                },
                None => 0,
            };
            let n_ctx: u64 = match slot.get("n_ctx") {
                Some(x) => match x.as_u64() {
                    Some(u) => u,
                    None => 0,
                },
                None => 0,
            };
            let n_tokens: u64 = match slot.get("n_tokens") {
                Some(x) => match x.as_u64() {
                    Some(u) => u,
                    None => 0,
                },
                None => 0,
            };
            let is_processing = match slot.get("is_processing") {
                Some(x) => match x.as_bool() {
                    Some(b) => b,
                    None => false,
                },
                None => false,
            };
            proof {
                assert(sv.take(i + 1).drop_last() =~= sv.take(i as int));
                lemma_sum_member_mono(sv, "n_ctx"@, i + 1);
                lemma_sum_member_mono(sv, "n_tokens"@, i + 1);
            }
            total = total + n_ctx;
            used = used + n_tokens;
            out.push(SlotMetrics { slot_id: id as u32, n_tokens, n_ctx, is_processing });
            i = i + 1;
        }
        proof {
            assert(sv.take(slots.len() as int) =~= sv);
        }
        Some(ContextInfo { total_context: total, used_context: used, slots: out })
    }
}

} // verus!

verus! {

/// The counts and labels of one request/response cycle that need no clock and no
/// floating point: model, token usage, finish reason, sizes.
#[derive(Debug)]
pub struct ResponseSummary {
    pub model: String,
    pub prompt_tokens: u64,
    pub completion_tokens: u64,
    pub total_tokens: u64,
    pub reasoning_tokens: Option<u64>,
    pub accepted_prediction_tokens: Option<u64>,
    pub rejected_prediction_tokens: Option<u64>,
    /// The response carries llama.cpp `timings`.
    pub has_timings: bool,
    /// `timings.cache_n`, the context tokens in use.
    pub context_used: Option<u64>,
    pub finish_reason: String,
    pub output_len: usize,
    pub input_messages: usize,
    pub input_len: usize,
    pub streaming: bool,
}

/// Token counts `(prompt, completion, total)` from an OpenAI (`prompt_tokens`) or
/// Anthropic (`input_tokens`) usage object.
pub open spec fn spec_tokens(resp: JsonV) -> (int, int, int) {
    match jget(resp, "usage"@) {
        None => (0, 0, 0),
        Some(u) => match ou64(jget(u, "prompt_tokens"@)) {
            Some(p) => {
                let c = u64_or_zero(u, "completion_tokens"@);
                let t = match ou64(jget(u, "total_tokens"@)) {
                    Some(t) => t as int,
                    None => p + c,
                };
                (p as int, c as int, t)
            },
            None => match ou64(jget(u, "input_tokens"@)) {
                Some(i) => {
                    let c = u64_or_zero(u, "output_tokens"@);
                    (i as int, c as int, i + c)
                },
                None => (0, 0, 0),
            },
        },
    }
}

/// A member of `usage.completion_tokens_details`.
pub open spec fn usage_detail(resp: JsonV, key: Seq<char>) -> Option<u64> {
    ou64(oget(oget(jget(resp, "usage"@), "completion_tokens_details"@), key))
}

/// Sum of the byte lengths of the string `text` members of a list.
pub open spec fn sum_text_len(items: Seq<JsonV>) -> int
    decreases items.len(),
{
    if items.len() == 0 {
        0
    } else {
        sum_text_len(items.drop_last()) + match ostr(jget(items.last(), "text"@)) {
            Some(s) => blen(s) as int,
            None => 0,
        }
    }
}

/// The finish reason and output size: from the first OpenAI choice, else from an
/// Anthropic `stop_reason` and its content blocks.
pub open spec fn spec_finish(resp: JsonV) -> (Seq<char>, int) {
    match oarr(jget(resp, "choices"@)) {
        Some(choices) => if choices.len() > 0 {
            let first = choices[0];
            let finish = match ostr(jget(first, "finish_reason"@)) {
                Some(f) => f,
                None => "unknown"@,
            };
            let out = match ostr(oget(jget(first, "message"@), "content"@)) {
                Some(c) => blen(c) as int,
                None => 0,
            };
            (finish, out)
        } else {
            ("unknown"@, 0)
        },
        None => match ostr(jget(resp, "stop_reason"@)) {
            Some(sr) => (
                sr,
                match oarr(jget(resp, "content"@)) {
                    Some(items) => sum_text_len(items),
                    None => 0,
                },
            ),
            None => ("unknown"@, 0),
        },
    }
}

/// Size of one message's content: a string's bytes, or the bytes of the text parts.
pub open spec fn content_len(m: JsonV) -> int {
    match jget(m, "content"@) {
        Some(JsonV::Str(s)) => blen(s) as int,
        Some(JsonV::Array(parts)) => sum_text_len(parts),
        _ => 0,
    }
}

/// Sum of the content sizes of a list of messages.
pub open spec fn sum_content_len(ms: Seq<JsonV>) -> int
    decreases ms.len(),
{
    if ms.len() == 0 {
        0
    } else {
        sum_content_len(ms.drop_last()) + content_len(ms.last())
    }
}

/// Message count and total content size of a request.
pub open spec fn spec_input(req: JsonV) -> (int, int) {
    match oarr(jget(req, "messages"@)) {
        Some(ms) => (ms.len() as int, sum_content_len(ms)),
        None => (0, 0),
    }
}

/// Whether the sums fit the machine integers they are kept in.
pub open spec fn summary_fits(resp: JsonV, req: JsonV) -> bool {
    &&& spec_tokens(resp).2 <= u64::MAX
    &&& spec_finish(resp).1 <= usize::MAX
    &&& spec_input(req).1 <= usize::MAX
}

proof fn lemma_sum_text_len_mono(items: Seq<JsonV>, i: int)
    requires
        0 <= i <= items.len(),
    ensures
        0 <= sum_text_len(items.take(i)) <= sum_text_len(items),
    decreases items.len() - i,
{
    if i < items.len() {
        lemma_sum_text_len_mono(items, i + 1);
        assert(items.take(i + 1).drop_last() =~= items.take(i));
    } else {
        assert(items.take(i) =~= items);
    }
    lemma_sum_text_len_nonneg(items.take(i));
}

proof fn lemma_sum_text_len_nonneg(items: Seq<JsonV>)
    ensures
        sum_text_len(items) >= 0,
    decreases items.len(),
{
    if items.len() > 0 {
        lemma_sum_text_len_nonneg(items.drop_last());
    }
}

proof fn lemma_content_len_nonneg(m: JsonV)
    ensures
        content_len(m) >= 0,
{
    match jget(m, "content"@) {
        Some(JsonV::Array(parts)) => lemma_sum_text_len_nonneg(parts),
        _ => {},
    }
}

proof fn lemma_sum_content_len_nonneg(ms: Seq<JsonV>)
    ensures
        sum_content_len(ms) >= 0,
    decreases ms.len(),
{
    if ms.len() > 0 {
        lemma_sum_content_len_nonneg(ms.drop_last());
        lemma_content_len_nonneg(ms.last());
    }
}

proof fn lemma_sum_content_len_mono(ms: Seq<JsonV>, i: int)
    requires
        0 <= i <= ms.len(),
    ensures
        0 <= sum_content_len(ms.take(i)) <= sum_content_len(ms),
    decreases ms.len() - i,
{
    if i < ms.len() {
        lemma_sum_content_len_mono(ms, i + 1);
        assert(ms.take(i + 1).drop_last() =~= ms.take(i));
        lemma_content_len_nonneg(ms[i]);
    } else {
        assert(ms.take(i) =~= ms);
    }
    lemma_sum_content_len_nonneg(ms.take(i));
}

/// Sum of the byte lengths of the `text` members of a list of JSON values.
fn text_len_sum(items: &Vec<Json>) -> (r: usize)
    requires
        sum_text_len(Json::items_view(items@)) <= usize::MAX,
    ensures
        r == sum_text_len(Json::items_view(items@)),
{
    proof {
        Json::lemma_items_view(items@);
    }
    let ghost iv = Json::items_view(items@);
    let mut total: usize = 0;
    let mut i: usize = 0;
    while i < items.len()
        invariant
            i <= items.len(),
            iv == Json::items_view(items@),
            iv.len() == items.len(),
            forall|j: int| 0 <= j < items.len() ==> #[trigger] iv[j] == items@[j]@,
            sum_text_len(iv) <= usize::MAX,
            total == sum_text_len(iv.take(i as int)),
        decreases items.len() - i,
    {
        proof {
            assert(iv.take(i + 1).drop_last() =~= iv.take(i as int));
            lemma_sum_text_len_mono(iv, i + 1);
        }
        let add: usize = match items[i].get("text") {
            Some(t) => match t.as_str() {
                Some(s) => byte_len(s),
                None => 0,
            },
            None => 0,
        };
        total = total + add;
        i = i + 1;
    }
    proof {
        assert(iv.take(items.len() as int) =~= iv);
    }
    total
}

fn u64_member_or_zero(j: &Json, key: &str) -> (r: u64)
    ensures
        r == u64_or_zero(j@, key@),
{
    match j.get(key) {
        Some(x) => match x.as_u64() {
            Some(u) => u,
            None => 0,
        },
        None => 0,
    }
}

fn u64_member(j: &Json, key: &str) -> (r: Option<u64>)
    ensures
        r == ou64(jget(j@, key@)),
{
    match j.get(key) {
        Some(x) => x.as_u64(),
        None => None,
    }
}

impl ResponseSummary {
    /// Read the counts of a complete (or merged streaming) response and its request.
    pub fn from_response(response: &Json, request: &Json, streaming: bool) -> (r: ResponseSummary)
        requires
            summary_fits(response@, request@),
        ensures
            r.model@ == (match ostr(jget(response@, "model"@)) {
                Some(m) => m,
                None => "unknown"@,
            }),
            r.prompt_tokens as int == spec_tokens(response@).0,
            r.completion_tokens as int == spec_tokens(response@).1,
            r.total_tokens as int == spec_tokens(response@).2,
            r.reasoning_tokens == usage_detail(response@, "reasoning_tokens"@),
            r.accepted_prediction_tokens == usage_detail(response@, "accepted_prediction_tokens"@),
            r.rejected_prediction_tokens == usage_detail(response@, "rejected_prediction_tokens"@),
            r.has_timings == jget(response@, "timings"@) is Some,
            r.context_used == ou64(oget(jget(response@, "timings"@), "cache_n"@)),
            r.finish_reason@ == spec_finish(response@).0,
            r.output_len as int == spec_finish(response@).1,
            r.input_messages as int == spec_input(request@).0,
            r.input_len as int == spec_input(request@).1,
            r.streaming == streaming,
    {
        let model = match response.get("model") {
            Some(m) => match m.as_str() {
                Some(s) => String::from_str(s),
                None => String::from_str("unknown"),
            },
            None => String::from_str("unknown"),
        };
        let mut prompt: u64 = 0;
        let mut completion: u64 = 0;
        let mut total: u64 = 0;
        let mut reasoning: Option<u64> = None;
        let mut accepted: Option<u64> = None;
        let mut rejected: Option<u64> = None;
        match response.get("usage") {
            Some(usage) => {
                match u64_member(usage, "prompt_tokens") {
                    Some(p) => {
                        prompt = p;
                        completion = u64_member_or_zero(usage, "completion_tokens");
                        total = match u64_member(usage, "total_tokens") {
                            Some(t) => t,
                            None => p + completion,
                        };
                    },
                    None => match u64_member(usage, "input_tokens") {
                        Some(i) => {
                            prompt = i;
                            completion = u64_member_or_zero(usage, "output_tokens");
                            total = i + completion;
                        },
                        None => {},
                    },
                }
                match usage.get("completion_tokens_details") {
                    Some(details) => {
                        reasoning = u64_member(details, "reasoning_tokens");
                        accepted = u64_member(details, "accepted_prediction_tokens");
                        rejected = u64_member(details, "rejected_prediction_tokens");
                    },
                    None => {},
                }
            },
            None => {},
        }
        let (has_timings, context_used) = match response.get("timings") {
            Some(t) => (true, u64_member(t, "cache_n")),
            None => (false, None),
        };
        let mut finish = String::from_str("unknown");
        let mut output_len: usize = 0;
        match response.get("choices") {
            Some(c) => match c.as_array() {
                Some(choices) => {
                    proof {
                        Json::lemma_items_view(choices@);
                    }
                    if choices.len() > 0 {
                        let first = &choices[0];
                        match first.get("finish_reason") {
                            Some(f) => match f.as_str() {
                                Some(fs) => {
                                    finish = String::from_str(fs);
                                },
                                None => {},
                            },
                            None => {},
                        }
                        match first.get("message") {
                            Some(m) => match m.get("content") {
                                Some(ct) => match ct.as_str() {
                                    Some(cs) => {
                                        output_len = byte_len(cs);
                                    },
                                    None => {},
                                },
                                None => {},
                            },
                            None => {},
                        }
                    }
                },
                None => {
                    Self::anthropic_finish(response, &mut finish, &mut output_len);
                },
            },
            None => {
                Self::anthropic_finish(response, &mut finish, &mut output_len);
            },
        }
        let (input_messages, input_len) = Self::input_counts(request);
        ResponseSummary {
            model,
            prompt_tokens: prompt,
            completion_tokens: completion,
            total_tokens: total,
            reasoning_tokens: reasoning,
            accepted_prediction_tokens: accepted,
            rejected_prediction_tokens: rejected,
            has_timings,
            context_used,
            finish_reason: finish,
            output_len,
            input_messages,
            input_len,
            streaming,
        }
    }

    fn anthropic_finish(response: &Json, finish: &mut String, output_len: &mut usize)
        requires
            oarr(jget(response@, "choices"@)) is None,
            spec_finish(response@).1 <= usize::MAX,
            old(finish)@ == "unknown"@,
            *old(output_len) == 0,
        ensures
            final(finish)@ == spec_finish(response@).0,
            *final(output_len) as int == spec_finish(response@).1,
    {
        match response.get("stop_reason") {
            Some(s) => match s.as_str() {
                Some(sr) => {
                    *finish = String::from_str(sr);
                    match response.get("content") {
                        Some(c) => match c.as_array() {
                            Some(items) => {
                                *output_len = text_len_sum(items);
                            },
                            None => {},
                        },
                        None => {},
                    }
                },
                None => {},
            },
            None => {},
        }
    }

    fn input_counts(request: &Json) -> (r: (usize, usize))
        requires
            spec_input(request@).1 <= usize::MAX,
        ensures
            r.0 as int == spec_input(request@).0,
            r.1 as int == spec_input(request@).1,
    {
        let ms = match request.get("messages") {
            Some(m) => match m.as_array() {
                Some(a) => a,
                None => return (0, 0),
            },
            None => return (0, 0),
        };
        proof {
            Json::lemma_items_view(ms@);
        }
        let ghost mv = Json::items_view(ms@);
        let mut total: usize = 0;
        let mut i: usize = 0;
        while i < ms.len()
            invariant
                i <= ms.len(),
                mv == Json::items_view(ms@),
                mv.len() == ms.len(),
                forall|j: int| 0 <= j < ms.len() ==> #[trigger] mv[j] == ms@[j]@,
                sum_content_len(mv) <= usize::MAX,
                total == sum_content_len(mv.take(i as int)),
            decreases ms.len() - i,
        {
            proof {
                assert(mv.take(i + 1).drop_last() =~= mv.take(i as int));
                lemma_sum_content_len_mono(mv, i + 1);
                lemma_sum_content_len_mono(mv, i as int);
                lemma_content_len_nonneg(mv[i as int]);
            }
            let add: usize = match ms[i].get("content") {
                Some(c) => {
                    if let Some(s) = c.as_str() {
                        byte_len(s)
                    } else if let Some(parts) = c.as_array() {
                        proof {
                            lemma_sum_text_len_nonneg(Json::items_view(parts@));
                        }
                        text_len_sum(parts)
                    } else {
                        0
                    }
                },
                None => 0,
            };
            total = total + add;
            i = i + 1;
        }
        proof {
            assert(mv.take(ms.len() as int) =~= mv);
        }
        (ms.len(), total)
    }
}

} // verus!

verus! {

/// Without a `choices` array (the Anthropic format), a summary reports the response's
/// string `stop_reason` as its finish reason.
pub proof fn law_stop_reason_is_the_finish_reason(resp: JsonV, stop_reason: Seq<char>)
    requires
        !(jget(resp, "choices"@) is Some && jget(resp, "choices"@)->0 is Array),
        jget(resp, "stop_reason"@) == Some(JsonV::Str(stop_reason)),
    ensures
        spec_finish(resp).0 == stop_reason,
{
}

/// With a non-empty `choices` array (the OpenAI format), a summary reports the first
/// choice's string `finish_reason`.
pub proof fn law_first_choice_gives_the_finish_reason(resp: JsonV, choices: Seq<JsonV>, finish: Seq<char>)
    requires
        jget(resp, "choices"@) == Some(JsonV::Array(choices)),
        choices.len() > 0,
        jget(choices[0], "finish_reason"@) == Some(JsonV::Str(finish)),
    ensures
        spec_finish(resp).0 == finish,
{
}

/// Where the field that applies is missing or not a string, the finish reason is
/// `"unknown"`.
pub proof fn law_missing_finish_reason_is_unknown(resp: JsonV)
    requires
        match jget(resp, "choices"@) {
            Some(JsonV::Array(cs)) => cs.len() == 0 || !(jget(cs[0], "finish_reason"@) is Some
                && jget(cs[0], "finish_reason"@)->0 is Str),
            _ => !(jget(resp, "stop_reason"@) is Some && jget(resp, "stop_reason"@)->0 is Str),
        },
    ensures
        spec_finish(resp).0 == "unknown"@,
{
}

} // verus!
