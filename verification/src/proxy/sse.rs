//! Server-sent-event streams: splitting into lines, recognizing the API format, and
//! merging the events of a stream back into one complete response.
use vstd::prelude::*;
use vstd::string::*;
use crate::json::{Json, JsonV, jget, ostr, parse_json, spec_parse_json};
use crate::text::{after_prefix, chars_of, str_eq, string_of_range, strip_prefix};

verus! {

/// Position of the first newline at or after `i`.
pub open spec fn first_nl(s: Seq<char>, i: int) -> Option<int>
    decreases s.len() - i,
{
    if i < 0 || i >= s.len() {
        None
    } else if s[i] == '\n' {
        Some(i)
    } else {
        first_nl(s, i + 1)
    }
}

/// A line that ended with a newline loses a trailing carriage return.
pub open spec fn strip_cr(l: Seq<char>) -> Seq<char> {
    if l.len() > 0 && l.last() == '\r' {
        l.drop_last()
    } else {
        l
    }
}

/// `str::lines`: split at `\n` (dropping a `\r` just before it); a final line ending is
/// optional, so no empty line follows a trailing newline.
pub open spec fn spec_lines(s: Seq<char>) -> Seq<Seq<char>>
    decreases s.len(),
{
    if s.len() == 0 {
        seq![]
    } else {
        match first_nl(s, 0) {
            None => seq![s],
            Some(k) => if 0 <= k < s.len() {
                seq![strip_cr(s.subrange(0, k))] + spec_lines(s.subrange(k + 1, s.len() as int))
            } else {
                seq![]
            },
        }
    }
}

proof fn lemma_first_nl_sub(s: Seq<char>, start: int, i: int)
    requires
        0 <= start <= i <= s.len(),
        forall|j: int| start <= j < i ==> s[j] != '\n',
    ensures
        first_nl(s.subrange(start, s.len() as int), i - start) == match first_nl(s, i) {
            Some(k) => Some(k - start),
            None => None,
        },
        first_nl(s.subrange(start, s.len() as int), 0) == first_nl(
            s.subrange(start, s.len() as int),
            i - start,
        ),
    decreases s.len() - i,
{
    let t = s.subrange(start, s.len() as int);
    if i < s.len() && s[i] != '\n' {
        lemma_first_nl_sub(s, start, i + 1);
    }
    lemma_first_nl_skip(t, 0, i - start);
}

proof fn lemma_first_nl_skip(t: Seq<char>, a: int, b: int)
    requires
        0 <= a <= b <= t.len(),
        forall|j: int| a <= j < b ==> t[j] != '\n',
    ensures
        first_nl(t, a) == first_nl(t, b),
    decreases b - a,
{
    if a < b {
        lemma_first_nl_skip(t, a + 1, b);
    }
}

/// The lines of a text, as `str::lines` yields them.
pub fn lines_of(s: &str) -> (r: Vec<String>)
    ensures
        r@.len() == spec_lines(s@).len(),
        forall|i: int| 0 <= i < r@.len() ==> #[trigger] r@[i]@ == spec_lines(s@)[i],
{
    let cs = chars_of(s);
    let mut out: Vec<String> = Vec::new();
    let ghost mut done: Seq<Seq<char>> = seq![];
    let mut start: usize = 0;
    let mut i: usize = 0;
    proof {
        assert(cs@.subrange(0, cs.len() as int) =~= cs@);
        assert(done + spec_lines(cs@) =~= spec_lines(cs@));
    }
    while i < cs.len()
        invariant
            cs@ == s@,
            start <= i <= cs.len(),
            forall|j: int| start <= j < i ==> cs@[j] != '\n',
            out@.len() == done.len(),
            forall|k: int| 0 <= k < done.len() ==> #[trigger] out@[k]@ == done[k],
            spec_lines(s@) == done + spec_lines(cs@.subrange(start as int, cs.len() as int)),
        decreases cs.len() - i,
    {
        if cs[i] == '\n' {
            let mut end = i;
            if end > start && cs[end - 1] == '\r' {
                end = end - 1;
            }
            let line = string_of_range(&cs, start, end);
            proof {
                let t = cs@.subrange(start as int, cs.len() as int);
                lemma_first_nl_sub(cs@, start as int, i as int);
                assert(first_nl(cs@, i as int) == Some(i as int));
                assert(first_nl(t, 0) == Some(i - start));
                assert(t.subrange(0, i - start) =~= cs@.subrange(start as int, i as int));
                assert(t.subrange(i - start + 1, t.len() as int) =~= cs@.subrange(
                    i + 1,
                    cs.len() as int,
                ));
                assert(strip_cr(cs@.subrange(start as int, i as int)) =~= cs@.subrange(
                    start as int,
                    end as int,
                ));
                done = done.push(line@);
            }
            out.push(line);
            proof {
                assert(spec_lines(s@) =~= done + spec_lines(
                    cs@.subrange(i + 1, cs.len() as int),
                ));
            }
            start = i + 1;
        }
        i = i + 1;
    }
    if start < cs.len() {
        let line = string_of_range(&cs, start, cs.len());
        proof {
            let t = cs@.subrange(start as int, cs.len() as int);
            lemma_first_nl_sub(cs@, start as int, cs.len() as int);
            assert(first_nl(t, 0) is None);
            done = done.push(line@);
        }
        out.push(line);
    } else {
        proof {
            assert(cs@.subrange(start as int, cs.len() as int).len() == 0);
            assert(done + Seq::<Seq<char>>::empty() =~= done);
        }
    }
    out
}

} // verus!

verus! {

/// The API a stream of server-sent events comes from.
#[derive(Clone, Copy, Debug, PartialEq, Eq, Structural)]
pub enum StreamFormat {
    OpenAI,
    Anthropic,
    Unknown,
}

/// The format shown by the lines from `i` on: the first `event:` line naming
/// `message_start` or `content_block_delta`, or the first JSON `data:` line with a root
/// `type` member, marks Anthropic; the first JSON `data:` line with `choices` marks OpenAI.
pub open spec fn format_from(lines: Seq<Seq<char>>, i: int) -> StreamFormat
    decreases lines.len() - i,
{
    if i < 0 || i >= lines.len() {
        StreamFormat::Unknown
    } else {
        let l = lines[i];
        let ev = after_prefix(l, "event: "@);
        let da = after_prefix(l, "data: "@);
        let parsed = match da {
            Some(d) => spec_parse_json(d),
            None => None,
        };
        if ev is Some && (ev->0 == "message_start"@ || ev->0 == "content_block_delta"@) {
            StreamFormat::Anthropic
        } else if parsed is Some && jget(parsed->0, "type"@) is Some {
            StreamFormat::Anthropic
        } else if parsed is Some && jget(parsed->0, "choices"@) is Some {
            StreamFormat::OpenAI
        } else {
            format_from(lines, i + 1)
        }
    }
}

/// Recognizes the API format of accumulated event-stream text.
pub fn detect_format(data: &str) -> (r: StreamFormat)
    ensures
        r == format_from(spec_lines(data@), 0),
{
    let lines = lines_of(data);
    let ghost ls = spec_lines(data@);
    let mut i: usize = 0;
    while i < lines.len()
        invariant
            lines@.len() == ls.len(),
            forall|k: int| 0 <= k < ls.len() ==> #[trigger] lines@[k]@ == ls[k],
            i <= lines.len(),
            ls == spec_lines(data@),
            format_from(ls, 0) == format_from(ls, i as int),
        decreases lines.len() - i,
    {
        let line = lines[i].as_str();
        assert(line@ == ls[i as int]);
        match strip_prefix(line, "event: ") {
            Some(t) => {
                if str_eq(t.as_str(), "message_start") || str_eq(t.as_str(), "content_block_delta") {
                    return StreamFormat::Anthropic;
                }
            },
            None => {},
        }
        match strip_prefix(line, "data: ") {
            Some(d) => match parse_json(d.as_str()) {
                Some(j) => {
                    if j.get("type").is_some() {
                        return StreamFormat::Anthropic;
                    }
                    if j.get("choices").is_some() {
                        return StreamFormat::OpenAI;
                    }
                },
                None => {},
            },
            None => {},
        }
        i = i + 1;
    }
    StreamFormat::Unknown
}

/// One event of a stream: the type named by the last `event:` line before it, and its data.
#[derive(Debug)]
pub struct SseEvent {
    pub event_type: Option<String>,
    pub data: Json,
}

pub open spec fn opt_view(o: Option<String>) -> Option<Seq<char>> {
    match o {
        Some(s) => Some(s@),
        None => None,
    }
}

impl View for SseEvent {
    type V = (Option<Seq<char>>, JsonV);

    open spec fn view(&self) -> (Option<Seq<char>>, JsonV) {
        (opt_view(self.event_type), self.data@)
    }
}

pub open spec fn event_views(evs: Seq<SseEvent>) -> Seq<(Option<Seq<char>>, JsonV)> {
    evs.map_values(|e: SseEvent| e@)
}

/// The events of the lines from `i` on, `cur` being the type set by the last `event:` line:
/// every `data:` line whose payload is JSON (and not `[DONE]`) is an event; `event:` lines
/// set the type for all later events.
pub open spec fn events_from(lines: Seq<Seq<char>>, i: int, cur: Option<Seq<char>>) -> Seq<
    (Option<Seq<char>>, JsonV),
>
    decreases lines.len() - i,
{
    if i < 0 || i >= lines.len() {
        seq![]
    } else {
        let l = lines[i];
        match after_prefix(l, "event: "@) {
            Some(t) => events_from(lines, i + 1, Some(t)),
            None => match after_prefix(l, "data: "@) {
                Some(d) => if d == "[DONE]"@ {
                    events_from(lines, i + 1, cur)
                } else {
                    match spec_parse_json(d) {
                        Some(j) => seq![(cur, j)] + events_from(lines, i + 1, cur),
                        None => events_from(lines, i + 1, cur),
                    }
                },
                None => events_from(lines, i + 1, cur),
            },
        }
    }
}

fn copy_opt(o: &Option<String>) -> (r: Option<String>)
    ensures
        opt_view(r) == opt_view(*o),
{
    match o {
        Some(s) => Some(s.clone()),
        None => None,
    }
}

/// Splits accumulated event-stream text into its events.
pub fn parse_sse_events(data: &str) -> (r: Vec<SseEvent>)
    ensures
        event_views(r@) == events_from(spec_lines(data@), 0, None),
{
    let lines = lines_of(data);
    let ghost ls = spec_lines(data@);
    let mut events: Vec<SseEvent> = Vec::new();
    let mut current: Option<String> = None;
    let mut i: usize = 0;
    proof {
        assert(event_views(events@) + events_from(ls, 0, None) =~= events_from(ls, 0, None));
    }
    while i < lines.len()
        invariant
            lines@.len() == ls.len(),
            forall|k: int| 0 <= k < ls.len() ==> #[trigger] lines@[k]@ == ls[k],
            i <= lines.len(),
            ls == spec_lines(data@),
            event_views(events@) + events_from(ls, i as int, opt_view(current)) == events_from(
                ls,
                0,
                None,
            ),
        decreases lines.len() - i,
    {
        let line = lines[i].as_str();
        assert(line@ == ls[i as int]);
        let ghost before = events@;
        match strip_prefix(line, "event: ") {
            Some(t) => {
                current = Some(t);
            },
            None => match strip_prefix(line, "data: ") {
                Some(d) => {
                    if !str_eq(d.as_str(), "[DONE]") {
                        match parse_json(d.as_str()) {
                            Some(j) => {
                                let ev = SseEvent { event_type: copy_opt(&current), data: j };
                                events.push(ev);
                                proof {
                                    assert(event_views(events@) =~= event_views(before).push(
                                        events@.last()@,
                                    ));
                                }
                            },
                            None => {},
                        }
                    }
                },
                None => {},
            },
        }
        proof {
            assert(event_views(events@) + events_from(ls, i + 1, opt_view(current))
                =~= events_from(ls, 0, None));
        }
        i = i + 1;
    }
    proof {
        assert(event_views(events@) =~= event_views(events@) + events_from(ls, i as int, opt_view(current)));
    }
    events
}

} // verus!

verus! {

/// `str::split('\n')`: the pieces between newlines, empty ones included.
pub open spec fn split_nl(s: Seq<char>) -> Seq<Seq<char>>
    decreases s.len(),
{
    match first_nl(s, 0) {
        Some(k) => if 0 <= k < s.len() {
            seq![s.subrange(0, k)] + split_nl(s.subrange(k + 1, s.len() as int))
        } else {
            seq![s]
        },
        None => seq![s],
    }
}

/// The pieces of a text between newlines.
pub fn split_newlines(s: &str) -> (r: Vec<String>)
    ensures
        r@.len() == split_nl(s@).len(),
        forall|i: int| 0 <= i < r@.len() ==> #[trigger] r@[i]@ == split_nl(s@)[i],
{
    let cs = chars_of(s);
    let mut out: Vec<String> = Vec::new();
    let ghost mut done: Seq<Seq<char>> = seq![];
    let mut start: usize = 0;
    let mut i: usize = 0;
    proof {
        assert(cs@.subrange(0, cs.len() as int) =~= cs@);
        assert(done + split_nl(cs@) =~= split_nl(cs@));
    }
    while i < cs.len()
        invariant
            cs@ == s@,
            start <= i <= cs.len(),
            forall|j: int| start <= j < i ==> cs@[j] != '\n',
            out@.len() == done.len(),
            forall|k: int| 0 <= k < done.len() ==> #[trigger] out@[k]@ == done[k],
            split_nl(s@) == done + split_nl(cs@.subrange(start as int, cs.len() as int)),
        decreases cs.len() - i,
    {
        if cs[i] == '\n' {
            let piece = string_of_range(&cs, start, i);
            proof {
                let t = cs@.subrange(start as int, cs.len() as int);
                lemma_first_nl_sub(cs@, start as int, i as int);
                assert(first_nl(cs@, i as int) == Some(i as int));
                assert(first_nl(t, 0) == Some(i - start));
                assert(t.subrange(0, i - start) =~= cs@.subrange(start as int, i as int));
                assert(t.subrange(i - start + 1, t.len() as int) =~= cs@.subrange(
                    i + 1,
                    cs.len() as int,
                ));
                done = done.push(piece@);
            }
            out.push(piece);
            proof {
                assert(split_nl(s@) =~= done + split_nl(cs@.subrange(i + 1, cs.len() as int)));
            }
            start = i + 1;
        }
        i = i + 1;
    }
    let last = string_of_range(&cs, start, cs.len());
    proof {
        let t = cs@.subrange(start as int, cs.len() as int);
        lemma_first_nl_sub(cs@, start as int, cs.len() as int);
        assert(first_nl(t, 0) is None);
        done = done.push(last@);
    }
    out.push(last);
    out
}

} // verus!
