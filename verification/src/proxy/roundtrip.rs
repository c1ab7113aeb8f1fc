//! A synthesized Anthropic stream merged back into one message gives back the message's
//! text: what `synthesize_anthropic_chunks` takes apart, `merge_anthropic_events` puts
//! together again.
use vstd::prelude::*;
use vstd::string::*;
use crate::json::{JsonV, jget, jset, obj_find, oarr, ostr, ou64};
use crate::proxy::merge::{anth_event_type, anth_fold, anth_initial, anth_step, block_index, pad_nulls};
use crate::proxy::merge::spec_merge_anthropic;
use crate::proxy::synthesis::{
    SynthEventV, BlockV, block_start_v, block_stop_v, message_delta_v, message_start_v, message_stop_v,
    named_ev, opt_str_v, spec_synthesize_anthropic, str_v, text_delta_v, text_piece_ev, thinking_delta_v,
    thinking_piece_ev, thinking_start_v, uint_v,
};

verus! {

/// An event of a synthesized stream as the merge reads it: its event name and its data.
pub open spec fn ev_pair(e: SynthEventV) -> (Option<Seq<char>>, JsonV) {
    match e {
        SynthEventV::Data(n, j) => (n, j),
        SynthEventV::Done => (None, JsonV::Null),
    }
}

pub open spec fn pairs(s: Seq<SynthEventV>) -> Seq<(Option<Seq<char>>, JsonV)> {
    s.map_values(|e: SynthEventV| ev_pair(e))
}

/// A merged text block.
pub open spec fn text_block_v(t: Seq<char>) -> JsonV {
    JsonV::Object(seq![("text"@, str_v(t)), ("type"@, str_v("text"@))])
}

/// The merged message while the blocks come in.
pub open spec fn msg_v(
    id: Seq<char>,
    role: Seq<char>,
    model: Seq<char>,
    input_tokens: u64,
    output_tokens: u64,
    stop: JsonV,
    c: Seq<JsonV>,
) -> JsonV {
    JsonV::Object(seq![
        ("content"@, JsonV::Array(c)),
        ("id"@, str_v(id)),
        ("model"@, str_v(model)),
        ("role"@, str_v(role)),
        ("stop_reason"@, stop),
        ("stop_sequence"@, JsonV::Null),
        ("type"@, str_v("message"@)),
        ("usage"@, JsonV::Object(seq![("input_tokens"@, uint_v(input_tokens as int)), ("output_tokens"@, uint_v(output_tokens as int))])),
    ])
}

proof fn lemma_fold_split(m: JsonV, a: Seq<(Option<Seq<char>>, JsonV)>, b: Seq<(Option<Seq<char>>, JsonV)>, i: int)
    requires
        0 <= i <= a.len(),
    ensures
        anth_fold(m, a + b, i) == anth_fold(anth_fold(m, a, i), b, 0),
    decreases a.len() - i,
{
    if i < a.len() {
        assert((a + b)[i] == a[i]);
        lemma_fold_split(anth_step(m, a[i]), a, b, i + 1);
    } else {
        lemma_fold_shift(m, a, b, i);
    }
}

proof fn lemma_fold_shift(m: JsonV, a: Seq<(Option<Seq<char>>, JsonV)>, b: Seq<(Option<Seq<char>>, JsonV)>, k: int)
    requires
        a.len() <= k <= a.len() + b.len(),
    ensures
        anth_fold(m, a + b, k) == anth_fold(m, b, k - a.len()),
    decreases a.len() + b.len() - k,
{
    if k < a.len() + b.len() {
        assert((a + b)[k] == b[k - a.len()]);
        lemma_fold_shift(anth_step(m, b[k - a.len()]), a, b, k + 1);
    }
}

proof fn lemma_fold_one(m: JsonV, e: (Option<Seq<char>>, JsonV))
    ensures
        anth_fold(m, seq![e], 0) == anth_step(m, e),
{
    assert(anth_fold(anth_step(m, e), seq![e], 1) == anth_step(m, e));
}

proof fn lemma_start(id: Seq<char>, role: Seq<char>, model: Seq<char>, input_tokens: u64)
    ensures
        anth_step(anth_initial(), (Some("message_start"@), message_start_v(id, role, model, input_tokens)))
            == msg_v(id, role, model, input_tokens, 0, JsonV::Null, seq![]),
{
    let d = message_start_v(id, role, model, input_tokens);
    assert(obj_find(d->Object_0, "message"@, 0) == Some(0int));
    let msg = d->Object_0[0].1;
    assert(obj_find(msg->Object_0, "content"@, 0) == Some(0int));
    assert(msg =~= msg_v(id, role, model, input_tokens, 0, JsonV::Null, seq![]));
}

proof fn lemma_event_names()
    ensures
        "content_block_start"@ != "message_start"@,
        "content_block_delta"@ != "message_start"@,
        "content_block_delta"@ != "content_block_start"@,
        "content_block_stop"@ != "message_start"@,
        "content_block_stop"@ != "content_block_start"@,
        "content_block_stop"@ != "content_block_delta"@,
        "content_block_stop"@ != "message_delta"@,
        "message_delta"@ != "message_start"@,
        "message_delta"@ != "content_block_start"@,
        "message_delta"@ != "content_block_delta"@,
        "message_stop"@ != "message_start"@,
        "message_stop"@ != "content_block_start"@,
        "message_stop"@ != "content_block_delta"@,
        "message_stop"@ != "message_delta"@,
{
    reveal_strlit("content_block_start");
    reveal_strlit("content_block_delta");
    reveal_strlit("content_block_stop");
    reveal_strlit("message_start");
    reveal_strlit("message_delta");
    reveal_strlit("message_stop");
    assert("content_block_start"@.len() == 19);
    assert("content_block_delta"@.len() == 19);
    assert("content_block_stop"@.len() == 18);
    assert("message_start"@.len() == 13);
    assert("message_delta"@.len() == 13);
    assert("message_stop"@.len() == 12);
    assert("content_block_start"@[14] != "content_block_delta"@[14]);
    assert("message_start"@[8] != "message_delta"@[8]);
}

proof fn lemma_member_names()
    ensures
        "content_block"@ != "index"@,
        "text"@ != "thinking"@,
        "type"@ != "thinking"@,
        "text"@ != "partial_json"@,
        "type"@ != "partial_json"@,
        "text"@ != "type"@,
{
    reveal_strlit("content_block");
    reveal_strlit("index");
    reveal_strlit("text");
    reveal_strlit("thinking");
    reveal_strlit("type");
    reveal_strlit("partial_json");
    assert("content_block"@.len() == 13);
    assert("index"@.len() == 5);
    assert("thinking"@.len() == 8);
    assert("partial_json"@.len() == 12);
    assert("text"@.len() == 4);
    assert("type"@.len() == 4);
    assert("text"@[1] != "type"@[1]);
}

/// A block's start adds it, empty, after the blocks before it.
proof fn lemma_text_start(
    id: Seq<char>,
    role: Seq<char>,
    model: Seq<char>,
    input_tokens: u64,
    output_tokens: u64,
    stop: JsonV,
    c: Seq<JsonV>,
)
    requires
        c.len() < 0x1_0000_0000_0000_0000,
    ensures
        anth_step(
            msg_v(id, role, model, input_tokens, output_tokens, stop, c),
            (Some("content_block_start"@), block_start_v(c.len() as int, "text"@)),
        ) == msg_v(id, role, model, input_tokens, output_tokens, stop, c.push(text_block_v(seq![]))),
{
    lemma_event_names();
    lemma_member_names();
    let m = msg_v(id, role, model, input_tokens, output_tokens, stop, c);
    let d = block_start_v(c.len() as int, "text"@);
    assert(obj_find(d->Object_0, "content_block"@, 0) == Some(0int));
    assert(obj_find(d->Object_0, "index"@, 1) == Some(1int));
    assert(block_index(d) == c.len());
    assert(obj_find(m->Object_0, "content"@, 0) == Some(0int));
    assert(pad_nulls(c, c.len() as int).update(c.len() as int, text_block_v(seq![])) =~= c.push(text_block_v(seq![])));
    assert(anth_step(m, (Some("content_block_start"@), d))->Object_0 =~= msg_v(
        id,
        role,
        model,
        input_tokens,
        output_tokens,
        stop,
        c.push(text_block_v(seq![])),
    )->Object_0);
}

/// A text delta appends its piece to the last block.
proof fn lemma_text_delta(
    id: Seq<char>,
    role: Seq<char>,
    model: Seq<char>,
    input_tokens: u64,
    output_tokens: u64,
    stop: JsonV,
    c: Seq<JsonV>,
    acc: Seq<char>,
    piece: Seq<char>,
)
    requires
        c.len() < 0x1_0000_0000_0000_0000,
    ensures
        anth_step(
            msg_v(id, role, model, input_tokens, output_tokens, stop, c.push(text_block_v(acc))),
            (Some("content_block_delta"@), text_delta_v(c.len() as int, "text_delta"@, piece)),
        ) == msg_v(id, role, model, input_tokens, output_tokens, stop, c.push(text_block_v(acc + piece))),
{
    lemma_event_names();
    lemma_member_names();
    reveal_strlit("delta");
    reveal_strlit("index");
    assert("delta"@[0] != "index"@[0]);
    let c1 = c.push(text_block_v(acc));
    let m = msg_v(id, role, model, input_tokens, output_tokens, stop, c1);
    let d = text_delta_v(c.len() as int, "text_delta"@, piece);
    let delta = d->Object_0[0].1;
    assert(obj_find(d->Object_0, "delta"@, 0) == Some(0int));
    assert(obj_find(d->Object_0, "index"@, 1) == Some(1int));
    assert(block_index(d) == c.len());
    assert(obj_find(m->Object_0, "content"@, 0) == Some(0int));
    assert(pad_nulls(c1, c.len() as int) == c1);
    let b = text_block_v(acc);
    assert(obj_find(delta->Object_0, "text"@, 0) == Some(0int));
    assert(obj_find(b->Object_0, "text"@, 0) == Some(0int));
    assert(obj_find(delta->Object_0, "thinking"@, 2) is None);
    assert(obj_find(delta->Object_0, "thinking"@, 1) is None);
    assert(obj_find(delta->Object_0, "thinking"@, 0) is None);
    assert(obj_find(delta->Object_0, "partial_json"@, 2) is None);
    assert(obj_find(delta->Object_0, "partial_json"@, 1) is None);
    assert(obj_find(delta->Object_0, "partial_json"@, 0) is None);
    let b1 = jset(b, "text"@, JsonV::Str(acc + piece));
    assert(b1->Object_0 =~= text_block_v(acc + piece)->Object_0);
    assert(b1 == text_block_v(acc + piece));
    assert(obj_find(b1->Object_0, "text"@, 0) == Some(0int));
    assert(jget(delta, "thinking"@) is None);
    assert(jget(delta, "partial_json"@) is None);
    assert(crate::proxy::merge::append_member(b, "text"@, piece) == b1);
    assert(crate::proxy::merge::apply_block_delta(b, delta) == text_block_v(acc + piece));
    assert(c1[c.len() as int] == b);
    assert(anth_event_type((Some("content_block_delta"@), d)) == "content_block_delta"@);
    assert(c1.update(c.len() as int, text_block_v(acc + piece)) =~= c.push(text_block_v(acc + piece)));
    assert(anth_step(m, (Some("content_block_delta"@), d))->Object_0 =~= msg_v(
        id,
        role,
        model,
        input_tokens,
        output_tokens,
        stop,
        c.push(text_block_v(acc + piece)),
    )->Object_0);
}

/// The text pieces of a block, folded in order, append their concatenation to its text.
proof fn lemma_text_pieces(
    id: Seq<char>,
    role: Seq<char>,
    model: Seq<char>,
    input_tokens: u64,
    output_tokens: u64,
    stop: JsonV,
    c: Seq<JsonV>,
    acc: Seq<char>,
    ps: Seq<Seq<char>>,
    k: int,
)
    requires
        c.len() < 0x1_0000_0000_0000_0000,
        0 <= k <= ps.len(),
    ensures
        anth_fold(
            msg_v(id, role, model, input_tokens, output_tokens, stop, c.push(text_block_v(acc))),
            pairs(ps.map_values(|p: Seq<char>| text_piece_ev(c.len() as int, p))),
            k,
        ) == msg_v(id, role, model, input_tokens, output_tokens, stop, c.push(text_block_v(acc + ps.skip(k).flatten()))),
    decreases ps.len() - k,
{
    let q = pairs(ps.map_values(|p: Seq<char>| text_piece_ev(c.len() as int, p)));
    if k < ps.len() {
        assert(q[k] == (Some("content_block_delta"@), text_delta_v(c.len() as int, "text_delta"@, ps[k])));
        lemma_text_delta(id, role, model, input_tokens, output_tokens, stop, c, acc, ps[k]);
        lemma_text_pieces(id, role, model, input_tokens, output_tokens, stop, c, acc + ps[k], ps, k + 1);
        assert(ps.skip(k).drop_first() =~= ps.skip(k + 1));
        assert(ps.skip(k).first() == ps[k]);
        assert(acc + ps[k] + ps.skip(k + 1).flatten() =~= acc + ps.skip(k).flatten());
    } else {
        assert(ps.skip(k) =~= Seq::<Seq<char>>::empty());
        assert(acc + ps.skip(k).flatten() =~= acc);
    }
}

/// A block's stop leaves the message as it is.
proof fn lemma_block_stop(m: JsonV, index: int)
    ensures
        anth_step(m, (Some("content_block_stop"@), block_stop_v(index))) == m,
{
    lemma_event_names();
}

/// The events of a text block add the block, with its whole text, after the blocks before
/// it.
proof fn lemma_text_block(
    id: Seq<char>,
    role: Seq<char>,
    model: Seq<char>,
    input_tokens: u64,
    output_tokens: u64,
    stop: JsonV,
    c: Seq<JsonV>,
    t: Seq<char>,
)
    requires
        c.len() < 0x1_0000_0000_0000_0000,
    ensures
        anth_fold(
            msg_v(id, role, model, input_tokens, output_tokens, stop, c),
            pairs(crate::proxy::synthesis::text_block_events(c.len() as int, t)),
            0,
        ) == msg_v(id, role, model, input_tokens, output_tokens, stop, c.push(text_block_v(t))),
{
    let i = c.len() as int;
    let ps = crate::text::spec_chunk_text(t, crate::proxy::synthesis::DEFAULT_CHUNK_SIZE as nat)->0;
    let e1: Seq<SynthEventV> = seq![named_ev("content_block_start"@, block_start_v(i, "text"@))];
    let e2 = ps.map_values(|p: Seq<char>| text_piece_ev(i, p));
    let e3: Seq<SynthEventV> = seq![named_ev("content_block_stop"@, block_stop_v(i))];
    assert(crate::proxy::synthesis::text_block_events(i, t) == e1 + e2 + e3);
    assert(pairs(e1 + e2 + e3) =~= pairs(e1) + pairs(e2) + pairs(e3));
    assert(pairs(e1) =~= seq![(Some("content_block_start"@), block_start_v(i, "text"@))]);
    assert(pairs(e3) =~= seq![(Some("content_block_stop"@), block_stop_v(i))]);
    let m0 = msg_v(id, role, model, input_tokens, output_tokens, stop, c);
    let m1 = msg_v(id, role, model, input_tokens, output_tokens, stop, c.push(text_block_v(seq![])));
    let m2 = msg_v(id, role, model, input_tokens, output_tokens, stop, c.push(text_block_v(t)));
    lemma_fold_split(m0, pairs(e1) + pairs(e2), pairs(e3), 0);
    lemma_fold_split(m0, pairs(e1), pairs(e2), 0);
    lemma_fold_one(m0, (Some("content_block_start"@), block_start_v(i, "text"@)));
    lemma_text_start(id, role, model, input_tokens, output_tokens, stop, c);
    lemma_text_pieces(id, role, model, input_tokens, output_tokens, stop, c, seq![], ps, 0);
    crate::text::law_chunk_text_reassembles(t, crate::proxy::synthesis::DEFAULT_CHUNK_SIZE as nat);
    assert(ps.skip(0) =~= ps);
    assert(Seq::<char>::empty() + ps.flatten() =~= t);
    lemma_fold_one(m2, (Some("content_block_stop"@), block_stop_v(i)));
    lemma_block_stop(m2, i);
}

/// A merged thinking block.
pub open spec fn thinking_block_v(t: Seq<char>, signature: Option<Seq<char>>) -> JsonV {
    JsonV::Object(match signature {
        Some(s) => seq![("signature"@, str_v(s))],
        None => seq![],
    } + seq![("thinking"@, str_v(t)), ("type"@, str_v("thinking"@))])
}

proof fn lemma_thinking_members()
    ensures
        "signature"@ != "thinking"@,
        "text"@ != "thinking"@,
        "text"@ != "type"@,
        "partial_json"@ != "thinking"@,
        "partial_json"@ != "type"@,
{
    lemma_member_names();
    reveal_strlit("signature");
    reveal_strlit("thinking");
    reveal_strlit("partial_json");
    assert("signature"@.len() == 9);
    assert("thinking"@.len() == 8);
    assert("partial_json"@.len() == 12);
}

/// The position of `thinking` in a merged thinking block.
pub open spec fn thinking_pos(signature: Option<Seq<char>>) -> int {
    if signature is Some {
        1
    } else {
        0
    }
}

proof fn lemma_thinking_find(t: Seq<char>, signature: Option<Seq<char>>)
    ensures
        obj_find(thinking_block_v(t, signature)->Object_0, "thinking"@, 0) == Some(thinking_pos(signature)),
{
    lemma_thinking_members();
    let e = thinking_block_v(t, signature)->Object_0;
    if signature is Some {
        assert(e[0].0 == "signature"@);
        assert(e[1].0 == "thinking"@);
        assert(obj_find(e, "thinking"@, 1) == Some(1int));
    } else {
        assert(e[0].0 == "thinking"@);
    }
}

proof fn lemma_thinking_start(
    id: Seq<char>,
    role: Seq<char>,
    model: Seq<char>,
    input_tokens: u64,
    output_tokens: u64,
    stop: JsonV,
    c: Seq<JsonV>,
    signature: Option<Seq<char>>,
)
    requires
        c.len() < 0x1_0000_0000_0000_0000,
    ensures
        anth_step(
            msg_v(id, role, model, input_tokens, output_tokens, stop, c),
            (Some("content_block_start"@), thinking_start_v(c.len() as int, signature)),
        ) == msg_v(id, role, model, input_tokens, output_tokens, stop, c.push(thinking_block_v(seq![], signature))),
{
    lemma_event_names();
    lemma_member_names();
    let m = msg_v(id, role, model, input_tokens, output_tokens, stop, c);
    let d = thinking_start_v(c.len() as int, signature);
    assert(obj_find(d->Object_0, "content_block"@, 0) == Some(0int));
    assert(d->Object_0[0].1 == thinking_block_v(seq![], signature));
    assert(obj_find(d->Object_0, "index"@, 1) == Some(1int));
    assert(block_index(d) == c.len());
    assert(obj_find(m->Object_0, "content"@, 0) == Some(0int));
    assert(pad_nulls(c, c.len() as int).update(c.len() as int, thinking_block_v(seq![], signature))
        =~= c.push(thinking_block_v(seq![], signature)));
    assert(anth_step(m, (Some("content_block_start"@), d))->Object_0 =~= msg_v(
        id,
        role,
        model,
        input_tokens,
        output_tokens,
        stop,
        c.push(thinking_block_v(seq![], signature)),
    )->Object_0);
}

proof fn lemma_thinking_delta(
    id: Seq<char>,
    role: Seq<char>,
    model: Seq<char>,
    input_tokens: u64,
    output_tokens: u64,
    stop: JsonV,
    c: Seq<JsonV>,
    signature: Option<Seq<char>>,
    acc: Seq<char>,
    piece: Seq<char>,
)
    requires
        c.len() < 0x1_0000_0000_0000_0000,
    ensures
        anth_step(
            msg_v(id, role, model, input_tokens, output_tokens, stop, c.push(thinking_block_v(acc, signature))),
            (Some("content_block_delta"@), thinking_delta_v(c.len() as int, piece)),
        ) == msg_v(id, role, model, input_tokens, output_tokens, stop, c.push(thinking_block_v(acc + piece, signature))),
{
    lemma_event_names();
    lemma_member_names();
    lemma_thinking_members();
    reveal_strlit("delta");
    reveal_strlit("index");
    assert("delta"@[0] != "index"@[0]);
    let c1 = c.push(thinking_block_v(acc, signature));
    let m = msg_v(id, role, model, input_tokens, output_tokens, stop, c1);
    let d = thinking_delta_v(c.len() as int, piece);
    let delta = d->Object_0[0].1;
    assert(obj_find(d->Object_0, "delta"@, 0) == Some(0int));
    assert(obj_find(d->Object_0, "index"@, 1) == Some(1int));
    assert(block_index(d) == c.len());
    assert(obj_find(m->Object_0, "content"@, 0) == Some(0int));
    assert(pad_nulls(c1, c.len() as int) == c1);
    let b = thinking_block_v(acc, signature);
    assert(obj_find(delta->Object_0, "text"@, 2) is None);
    assert(obj_find(delta->Object_0, "text"@, 1) is None);
    assert(obj_find(delta->Object_0, "text"@, 0) is None);
    assert(obj_find(delta->Object_0, "thinking"@, 0) == Some(0int));
    assert(obj_find(delta->Object_0, "partial_json"@, 2) is None);
    assert(obj_find(delta->Object_0, "partial_json"@, 1) is None);
    assert(obj_find(delta->Object_0, "partial_json"@, 0) is None);
    lemma_thinking_find(acc, signature);
    let b1 = jset(b, "thinking"@, JsonV::Str(acc + piece));
    assert(b1->Object_0 =~= thinking_block_v(acc + piece, signature)->Object_0);
    assert(b1 == thinking_block_v(acc + piece, signature));
    assert(crate::proxy::merge::append_member(b, "thinking"@, piece) == b1);
    assert(crate::proxy::merge::apply_block_delta(b, delta) == thinking_block_v(acc + piece, signature));
    assert(c1[c.len() as int] == b);
    assert(c1.update(c.len() as int, thinking_block_v(acc + piece, signature)) =~= c.push(
        thinking_block_v(acc + piece, signature),
    ));
    assert(anth_step(m, (Some("content_block_delta"@), d))->Object_0 =~= msg_v(
        id,
        role,
        model,
        input_tokens,
        output_tokens,
        stop,
        c.push(thinking_block_v(acc + piece, signature)),
    )->Object_0);
}

proof fn lemma_thinking_pieces(
    id: Seq<char>,
    role: Seq<char>,
    model: Seq<char>,
    input_tokens: u64,
    output_tokens: u64,
    stop: JsonV,
    c: Seq<JsonV>,
    signature: Option<Seq<char>>,
    acc: Seq<char>,
    ps: Seq<Seq<char>>,
    k: int,
)
    requires
        c.len() < 0x1_0000_0000_0000_0000,
        0 <= k <= ps.len(),
    ensures
        anth_fold(
            msg_v(id, role, model, input_tokens, output_tokens, stop, c.push(thinking_block_v(acc, signature))),
            pairs(ps.map_values(|p: Seq<char>| thinking_piece_ev(c.len() as int, p))),
            k,
        ) == msg_v(
            id,
            role,
            model,
            input_tokens,
            output_tokens,
            stop,
            c.push(thinking_block_v(acc + ps.skip(k).flatten(), signature)),
        ),
    decreases ps.len() - k,
{
    let q = pairs(ps.map_values(|p: Seq<char>| thinking_piece_ev(c.len() as int, p)));
    if k < ps.len() {
        assert(q[k] == (Some("content_block_delta"@), thinking_delta_v(c.len() as int, ps[k])));
        lemma_thinking_delta(id, role, model, input_tokens, output_tokens, stop, c, signature, acc, ps[k]);
        lemma_thinking_pieces(id, role, model, input_tokens, output_tokens, stop, c, signature, acc + ps[k], ps, k + 1);
        assert(ps.skip(k).drop_first() =~= ps.skip(k + 1));
        assert(ps.skip(k).first() == ps[k]);
        assert(acc + ps[k] + ps.skip(k + 1).flatten() =~= acc + ps.skip(k).flatten());
    } else {
        assert(ps.skip(k) =~= Seq::<Seq<char>>::empty());
        assert(acc + ps.skip(k).flatten() =~= acc);
    }
}

proof fn lemma_thinking_block(
    id: Seq<char>,
    role: Seq<char>,
    model: Seq<char>,
    input_tokens: u64,
    output_tokens: u64,
    stop: JsonV,
    c: Seq<JsonV>,
    t: Seq<char>,
    signature: Option<Seq<char>>,
)
    requires
        c.len() < 0x1_0000_0000_0000_0000,
    ensures
        anth_fold(
            msg_v(id, role, model, input_tokens, output_tokens, stop, c),
            pairs(crate::proxy::synthesis::block_events(c.len() as int, BlockV::Thinking(t, signature))),
            0,
        ) == msg_v(id, role, model, input_tokens, output_tokens, stop, c.push(thinking_block_v(t, signature))),
{
    let i = c.len() as int;
    let ps = crate::text::spec_chunk_text(t, crate::proxy::synthesis::DEFAULT_CHUNK_SIZE as nat)->0;
    let e1: Seq<SynthEventV> = seq![named_ev("content_block_start"@, thinking_start_v(i, signature))];
    let e2 = ps.map_values(|p: Seq<char>| thinking_piece_ev(i, p));
    let e3: Seq<SynthEventV> = seq![named_ev("content_block_stop"@, block_stop_v(i))];
    assert(crate::proxy::synthesis::block_events(i, BlockV::Thinking(t, signature)) == e1 + e2 + e3);
    assert(pairs(e1 + e2 + e3) =~= pairs(e1) + pairs(e2) + pairs(e3));
    assert(pairs(e1) =~= seq![(Some("content_block_start"@), thinking_start_v(i, signature))]);
    assert(pairs(e3) =~= seq![(Some("content_block_stop"@), block_stop_v(i))]);
    let m0 = msg_v(id, role, model, input_tokens, output_tokens, stop, c);
    let m2 = msg_v(id, role, model, input_tokens, output_tokens, stop, c.push(thinking_block_v(t, signature)));
    lemma_fold_split(m0, pairs(e1) + pairs(e2), pairs(e3), 0);
    lemma_fold_split(m0, pairs(e1), pairs(e2), 0);
    lemma_fold_one(m0, (Some("content_block_start"@), thinking_start_v(i, signature)));
    lemma_thinking_start(id, role, model, input_tokens, output_tokens, stop, c, signature);
    lemma_thinking_pieces(id, role, model, input_tokens, output_tokens, stop, c, signature, seq![], ps, 0);
    crate::text::law_chunk_text_reassembles(t, crate::proxy::synthesis::DEFAULT_CHUNK_SIZE as nat);
    assert(ps.skip(0) =~= ps);
    assert(Seq::<char>::empty() + ps.flatten() =~= t);
    lemma_fold_one(m2, (Some("content_block_stop"@), block_stop_v(i)));
    lemma_block_stop(m2, i);
}

/// The merged form of each block (text and thinking blocks; other kinds do not occur
/// where it is used).
pub open spec fn merged_blocks(bs: Seq<BlockV>) -> Seq<JsonV> {
    bs.map_values(|b: BlockV| match b {
        BlockV::Text(t) => text_block_v(t),
        BlockV::Thinking(t, signature) => thinking_block_v(t, signature),
        _ => JsonV::Null,
    })
}

/// A block that a stream carries in pieces: text or thinking.
pub open spec fn piecewise_block(b: BlockV) -> bool {
    b is Text || b is Thinking
}

/// Every block is a text or thinking block.
pub open spec fn all_piecewise_blocks(bs: Seq<BlockV>) -> bool {
    forall|k: int| 0 <= k < bs.len() ==> piecewise_block(#[trigger] bs[k])
}

proof fn lemma_blocks(
    id: Seq<char>,
    role: Seq<char>,
    model: Seq<char>,
    input_tokens: u64,
    output_tokens: u64,
    stop: JsonV,
    bs: Seq<BlockV>,
    k: int,
)
    requires
        all_piecewise_blocks(bs),
        bs.len() < 0x1_0000_0000_0000_0000,
        0 <= k <= bs.len(),
    ensures
        anth_fold(
            msg_v(id, role, model, input_tokens, output_tokens, stop, merged_blocks(bs).take(k)),
            pairs(crate::proxy::synthesis::blocks_events(bs, k)),
            0,
        ) == msg_v(id, role, model, input_tokens, output_tokens, stop, merged_blocks(bs)),
    decreases bs.len() - k,
{
    let mb = merged_blocks(bs);
    if k < bs.len() {
        let a = crate::proxy::synthesis::block_events(k, bs[k]);
        let b = crate::proxy::synthesis::blocks_events(bs, k + 1);
        assert(crate::proxy::synthesis::blocks_events(bs, k) == a + b);
        assert(pairs(a + b) =~= pairs(a) + pairs(b));
        let c = mb.take(k);
        lemma_fold_split(msg_v(id, role, model, input_tokens, output_tokens, stop, c), pairs(a), pairs(b), 0);
        assert(piecewise_block(bs[k]));
        match bs[k] {
            BlockV::Text(t) => {
                assert(a == crate::proxy::synthesis::text_block_events(k, t));
                lemma_text_block(id, role, model, input_tokens, output_tokens, stop, c, t);
            },
            BlockV::Thinking(t, signature) => {
                lemma_thinking_block(id, role, model, input_tokens, output_tokens, stop, c, t, signature);
            },
            _ => {},
        }
        assert(c.push(mb[k]) =~= mb.take(k + 1));
        lemma_blocks(id, role, model, input_tokens, output_tokens, stop, bs, k + 1);
    } else {
        assert(mb.take(k) =~= mb);
        assert(pairs(crate::proxy::synthesis::blocks_events(bs, k)) =~= Seq::<(Option<Seq<char>>, JsonV)>::empty());
    }
}

proof fn lemma_message_members()
    ensures
        "stop_reason"@ != "content"@,
        "stop_reason"@ != "id"@,
        "stop_reason"@ != "model"@,
        "stop_reason"@ != "role"@,
        "usage"@ != "delta"@,
        "usage"@ != "type"@,
        "usage"@ != "content"@,
        "usage"@ != "id"@,
        "usage"@ != "model"@,
        "usage"@ != "role"@,
        "usage"@ != "stop_reason"@,
        "usage"@ != "stop_sequence"@,
        "output_tokens"@ != "input_tokens"@,
{
    reveal_strlit("stop_reason");
    reveal_strlit("stop_sequence");
    reveal_strlit("content");
    reveal_strlit("id");
    reveal_strlit("model");
    reveal_strlit("role");
    reveal_strlit("usage");
    reveal_strlit("delta");
    reveal_strlit("type");
    reveal_strlit("output_tokens");
    reveal_strlit("input_tokens");
    assert("stop_reason"@.len() == 11);
    assert("stop_sequence"@.len() == 13);
    assert("content"@.len() == 7);
    assert("id"@.len() == 2);
    assert("model"@.len() == 5 && "model"@[0] == 'm');
    assert("role"@.len() == 4);
    assert("usage"@.len() == 5 && "usage"@[0] == 'u');
    assert("delta"@.len() == 5 && "delta"@[0] == 'd');
    assert("type"@.len() == 4);
    assert("output_tokens"@.len() == 13);
    assert("input_tokens"@.len() == 12);
}

/// The closing `message_delta` sets the stop reason (when there is one) and the output
/// token count.
proof fn lemma_message_delta(
    id: Seq<char>,
    role: Seq<char>,
    model: Seq<char>,
    input_tokens: u64,
    output_tokens: u64,
    c: Seq<JsonV>,
    stop_reason: Option<Seq<char>>,
    stop_sequence: Option<Seq<char>>,
)
    ensures
        anth_step(
            msg_v(id, role, model, input_tokens, 0, JsonV::Null, c),
            (Some("message_delta"@), message_delta_v(stop_reason, stop_sequence, output_tokens)),
        ) == msg_v(id, role, model, input_tokens, output_tokens, opt_str_v(stop_reason), c),
{
    lemma_event_names();
    lemma_message_members();
    let m = msg_v(id, role, model, input_tokens, 0, JsonV::Null, c);
    let d = message_delta_v(stop_reason, stop_sequence, output_tokens);
    let delta = d->Object_0[0].1;
    assert(obj_find(d->Object_0, "delta"@, 0) == Some(0int));
    assert(obj_find(delta->Object_0, "stop_reason"@, 0) == Some(0int));
    assert(obj_find(d->Object_0, "usage"@, 2) == Some(2int));
    assert(obj_find(d->Object_0, "usage"@, 1) == Some(2int));
    assert(obj_find(d->Object_0, "usage"@, 0) == Some(2int));
    let m1 = match stop_reason {
        Some(s) => jset(m, "stop_reason"@, JsonV::Str(s)),
        None => m,
    };
    let e = m->Object_0;
    assert(obj_find(e, "stop_reason"@, 4) == Some(4int));
    assert(obj_find(e, "stop_reason"@, 3) == Some(4int));
    assert(obj_find(e, "stop_reason"@, 2) == Some(4int));
    assert(obj_find(e, "stop_reason"@, 1) == Some(4int));
    assert(obj_find(e, "stop_reason"@, 0) == Some(4int));
    assert(m1 == msg_v(id, role, model, input_tokens, 0, opt_str_v(stop_reason), c)) by {
        match stop_reason {
            Some(s) => {
                assert(m1->Object_0 =~= msg_v(id, role, model, input_tokens, 0, opt_str_v(stop_reason), c)->Object_0);
            },
            None => {},
        }
    }
    let e1 = m1->Object_0;
    assert(obj_find(e1, "usage"@, 7) == Some(7int));
    assert(obj_find(e1, "usage"@, 6) == Some(7int));
    assert(obj_find(e1, "usage"@, 5) == Some(7int));
    assert(obj_find(e1, "usage"@, 4) == Some(7int));
    assert(obj_find(e1, "usage"@, 3) == Some(7int));
    assert(obj_find(e1, "usage"@, 2) == Some(7int));
    assert(obj_find(e1, "usage"@, 1) == Some(7int));
    assert(obj_find(e1, "usage"@, 0) == Some(7int));
    let mu = e1[7].1;
    let u = d->Object_0[2].1;
    assert(obj_find(u->Object_0, "output_tokens"@, 0) == Some(0int));
    assert(obj_find(mu->Object_0, "output_tokens"@, 1) == Some(1int));
    assert(obj_find(mu->Object_0, "output_tokens"@, 0) == Some(1int));
    let mu2 = jset(mu, "output_tokens"@, uint_v(output_tokens as int));
    assert(mu2->Object_0 =~= seq![("input_tokens"@, uint_v(input_tokens as int)), ("output_tokens"@, uint_v(output_tokens as int))]);
    let r = jset(m1, "usage"@, mu2);
    assert(r->Object_0 =~= msg_v(id, role, model, input_tokens, output_tokens, opt_str_v(stop_reason), c)->Object_0);
}

/// A synthesized Anthropic stream of text and thinking blocks, merged back, gives the
/// message it was made from: its id, model and role, each block's whole text (and a
/// thinking block's signature) in order, the stop reason and both token counts (the stop
/// sequence is not carried back).
pub proof fn law_anthropic_stream_merges_back(
    id: Seq<char>,
    role: Seq<char>,
    model: Seq<char>,
    blocks: Seq<BlockV>,
    stop_reason: Option<Seq<char>>,
    stop_sequence: Option<Seq<char>>,
    input_tokens: u64,
    output_tokens: u64,
)
    requires
        all_piecewise_blocks(blocks),
        blocks.len() < 0x1_0000_0000_0000_0000,
    ensures
        spec_merge_anthropic(
            pairs(
                spec_synthesize_anthropic(
                    id,
                    role,
                    model,
                    blocks,
                    stop_reason,
                    stop_sequence,
                    input_tokens,
                    output_tokens,
                ),
            ),
        ) == msg_v(id, role, model, input_tokens, output_tokens, opt_str_v(stop_reason), merged_blocks(blocks)),
{
    lemma_event_names();
    let e1: Seq<SynthEventV> = seq![named_ev("message_start"@, message_start_v(id, role, model, input_tokens))];
    let e2 = crate::proxy::synthesis::blocks_events(blocks, 0);
    let e3: Seq<SynthEventV> = seq![
        named_ev("message_delta"@, message_delta_v(stop_reason, stop_sequence, output_tokens)),
        named_ev("message_stop"@, message_stop_v()),
    ];
    assert(spec_synthesize_anthropic(id, role, model, blocks, stop_reason, stop_sequence, input_tokens, output_tokens)
        == e1 + e2 + e3);
    assert(pairs(e1 + e2 + e3) =~= pairs(e1) + pairs(e2) + pairs(e3));
    let p1 = (Some("message_start"@), message_start_v(id, role, model, input_tokens));
    let p2 = (Some("message_delta"@), message_delta_v(stop_reason, stop_sequence, output_tokens));
    let p3 = (Some("message_stop"@), message_stop_v());
    assert(pairs(e1) =~= seq![p1]);
    assert(pairs(e3) =~= seq![p2, p3]);
    let m1 = msg_v(id, role, model, input_tokens, 0, JsonV::Null, seq![]);
    let m2 = msg_v(id, role, model, input_tokens, 0, JsonV::Null, merged_blocks(blocks));
    let m3 = msg_v(id, role, model, input_tokens, output_tokens, opt_str_v(stop_reason), merged_blocks(blocks));
    lemma_fold_split(anth_initial(), pairs(e1) + pairs(e2), pairs(e3), 0);
    lemma_fold_split(anth_initial(), pairs(e1), pairs(e2), 0);
    lemma_fold_one(anth_initial(), p1);
    lemma_start(id, role, model, input_tokens);
    assert(merged_blocks(blocks).take(0) =~= Seq::<JsonV>::empty());
    lemma_blocks(id, role, model, input_tokens, 0, JsonV::Null, blocks, 0);
    lemma_message_delta(id, role, model, input_tokens, output_tokens, merged_blocks(blocks), stop_reason, stop_sequence);
    assert(anth_step(m3, p3) == m3);
    assert(anth_fold(m2, seq![p2, p3], 0) == anth_fold(anth_step(m2, p2), seq![p2, p3], 1));
    assert(anth_fold(m3, seq![p2, p3], 1) == anth_fold(anth_step(m3, p3), seq![p2, p3], 2));
}

} // verus!
