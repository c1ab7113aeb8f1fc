//! What the proxy does with each chunk of a streamed response: which lines pass through,
//! which JSON payloads are re-emitted, what is kept for the statistics, and when the
//! stream has said it is complete.
use vstd::prelude::*;
use vstd::string::*;
use crate::json::{Json, JsonV, json_text, parse_json, spec_json_text, spec_parse_json};
use crate::proxy::request_log::concat2;
use crate::proxy::sse::{SseEvent, event_views, opt_view, split_newlines, split_nl};
use crate::text::{after_prefix, str_eq, strip_prefix};

verus! {

/// A piece of the text sent on to the client: literal text, or a `data: ` line carrying a
/// JSON payload that the sender writes out.
#[derive(Debug)]
pub enum OutPiece {
    Text(String),
    Data(Json),
}

pub enum OutPieceV {
    Text(Seq<char>),
    Data(JsonV),
}

impl View for OutPiece {
    type V = OutPieceV;

    open spec fn view(&self) -> OutPieceV {
        match self {
            OutPiece::Text(s) => OutPieceV::Text(s@),
            OutPiece::Data(j) => OutPieceV::Data(j@),
        }
    }
}

pub open spec fn piece_views(p: Seq<OutPiece>) -> Seq<OutPieceV> {
    p.map_values(|x: OutPiece| x@)
}

/// What one chunk gives: the pieces to send, the events kept for the statistics, and
/// whether the stream signalled its end.
#[derive(Debug)]
pub struct ChunkScan {
    pub pieces: Vec<OutPiece>,
    pub kept: Vec<SseEvent>,
    pub completed: bool,
}

/// The scan of the lines from `i` on, `cur` being the type named by the last `event:` line
/// not yet used by a data line: `event:` lines and other lines pass through; `data: [DONE]`
/// passes through and marks the end; a JSON data line is re-emitted (and kept for the
/// statistics, with its type) and clears the type; a data line that is not JSON passes
/// through and clears the type. A data line after an `event: message_stop` line marks the
/// end too. Ends are only marked, and events only kept, when statistics are on. Lines are
/// separated by a newline, the last one is not followed by one.
pub open spec fn scan_from(lines: Seq<Seq<char>>, i: int, cur: Option<Seq<char>>, stats: bool) -> (
    Seq<OutPieceV>,
    Seq<(Option<Seq<char>>, JsonV)>,
    bool,
)
    decreases lines.len() - i,
{
    if i < 0 || i >= lines.len() {
        (seq![], seq![], false)
    } else {
        let l = lines[i];
        let sep: Seq<OutPieceV> = if i < lines.len() - 1 {
            seq![OutPieceV::Text("\n"@)]
        } else {
            seq![]
        };
        match after_prefix(l, "event: "@) {
            Some(t) => {
                let r = scan_from(lines, i + 1, Some(t), stats);
                (seq![OutPieceV::Text(l)] + sep + r.0, r.1, r.2)
            },
            None => match after_prefix(l, "data: "@) {
                Some(d) => {
                    let stop = stats && cur == Some("message_stop"@);
                    if d == "[DONE]"@ {
                        let r = scan_from(lines, i + 1, cur, stats);
                        (seq![OutPieceV::Text(l)] + sep + r.0, r.1, stats || r.2)
                    } else {
                        match spec_parse_json(d) {
                            Some(j) => {
                                let r = scan_from(lines, i + 1, None, stats);
                                let kept = if stats {
                                    seq![(cur, j)]
                                } else {
                                    seq![]
                                };
                                (seq![OutPieceV::Data(j)] + sep + r.0, kept + r.1, stop || r.2)
                            },
                            None => {
                                let r = scan_from(lines, i + 1, None, stats);
                                (seq![OutPieceV::Text(l)] + sep + r.0, r.1, stop || r.2)
                            },
                        }
                    }
                },
                None => {
                    let r = scan_from(lines, i + 1, cur, stats);
                    (seq![OutPieceV::Text(l)] + sep + r.0, r.1, r.2)
                },
            },
        }
    }
}

fn copy_type(o: &Option<String>) -> (r: Option<String>)
    ensures
        opt_view(r) == opt_view(*o),
{
    match o {
        Some(s) => Some(s.clone()),
        None => None,
    }
}

/// Scans one chunk of a streamed response.
pub fn scan_stream_chunk(chunk: &str, stats_enabled: bool) -> (r: ChunkScan)
    ensures
        (piece_views(r.pieces@), event_views(r.kept@), r.completed) == scan_from(
            split_nl(chunk@),
            0,
            None,
            stats_enabled,
        ),
{
    let lines = split_newlines(chunk);
    let ghost ls = split_nl(chunk@);
    let ghost total = scan_from(ls, 0, None, stats_enabled);
    let mut pieces: Vec<OutPiece> = Vec::new();
    let mut kept: Vec<SseEvent> = Vec::new();
    let mut completed = false;
    let mut current: Option<String> = None;
    let mut i: usize = 0;
    proof {
        reveal_strlit("\n");
        assert(piece_views(pieces@) + scan_from(ls, 0, None, stats_enabled).0 =~= total.0);
        assert(event_views(kept@) + scan_from(ls, 0, None, stats_enabled).1 =~= total.1);
    }
    while i < lines.len()
        invariant
            lines@.len() == ls.len(),
            forall|k: int| 0 <= k < ls.len() ==> #[trigger] lines@[k]@ == ls[k],
            i <= lines.len(),
            ls == split_nl(chunk@),
            total == scan_from(ls, 0, None, stats_enabled),
            piece_views(pieces@) + scan_from(ls, i as int, opt_view(current), stats_enabled).0
                == total.0,
            event_views(kept@) + scan_from(ls, i as int, opt_view(current), stats_enabled).1
                == total.1,
            (completed || scan_from(ls, i as int, opt_view(current), stats_enabled).2)
                == total.2,
        decreases lines.len() - i,
    {
        let line = lines[i].as_str();
        assert(line@ == ls[i as int]);
        let ghost p0 = pieces@;
        let ghost k0 = kept@;
        let ghost c0 = opt_view(current);
        let ghost r = scan_from(ls, i + 1, opt_view(current), stats_enabled);
        match strip_prefix(line, "event: ") {
            Some(t) => {
                pieces.push(OutPiece::Text(String::from_str(line)));
                current = Some(t);
            },
            None => match strip_prefix(line, "data: ") {
                Some(d) => {
                    let stop = match &current {
                        Some(c) => stats_enabled && str_eq(c.as_str(), "message_stop"),
                        None => false,
                    };
                    proof {
                        reveal_strlit("message_stop");
                    }
                    if str_eq(d.as_str(), "[DONE]") {
                        if stats_enabled {
                            completed = true;
                        }
                        pieces.push(OutPiece::Text(String::from_str(line)));
                    } else {
                        match parse_json(d.as_str()) {
                            Some(j) => {
                                if stats_enabled {
                                    kept.push(SseEvent { event_type: copy_type(&current), data: j.deep_clone() });
                                }
                                pieces.push(OutPiece::Data(j));
                            },
                            None => {
                                pieces.push(OutPiece::Text(String::from_str(line)));
                            },
                        }
                        if stop {
                            completed = true;
                        }
                        current = None;
                    }
                },
                None => {
                    pieces.push(OutPiece::Text(String::from_str(line)));
                },
            },
        }
        if i + 1 < lines.len() {
            pieces.push(OutPiece::Text(String::from_str("\n")));
        }
        proof {
            assert(piece_views(pieces@) + scan_from(ls, i + 1, opt_view(current), stats_enabled).0
                =~= total.0);
            assert(event_views(kept@) + scan_from(ls, i + 1, opt_view(current), stats_enabled).1
                =~= total.1);
        }
        i = i + 1;
    }
    proof {
        assert(piece_views(pieces@) =~= total.0);
        assert(event_views(kept@) =~= total.1);
    }
    ChunkScan { pieces, kept, completed }
}

/// Response headers passed on to a streaming client: all but `content-length`.
pub fn keeps_stream_header(name: &str) -> (r: bool)
    ensures
        r == (name@ != "content-length"@),
{
    !str_eq(name, "content-length")
}

} // verus!

verus! {

/// Seconds without a chunk after which statistics are taken from what arrived.
pub const ACTIVITY_TIMEOUT_SECS: u64 = 90;

/// Seconds after which statistics are taken in any case.
pub const ABSOLUTE_TIMEOUT_SECS: u64 = 600;

/// What the statistics watcher of a stream hears.
#[derive(Debug, Clone, Copy, PartialEq, Eq, Structural)]
pub enum WatchEvent {
    /// The stream announced its end (`message_stop` or `[DONE]`).
    Completed,
    /// The end signal can no longer come (its sender is gone).
    CompletionDropped,
    /// A chunk went out.
    Activity,
    /// No chunk for `ACTIVITY_TIMEOUT_SECS`.
    InactivityTimeout,
    /// `ABSOLUTE_TIMEOUT_SECS` have passed since the stream began.
    AbsoluteTimeout,
}

/// What the watcher does next.
#[derive(Debug, Clone, Copy, PartialEq, Eq, Structural)]
pub enum WatchAction {
    /// Wait for the next event, with the inactivity clock restarted.
    KeepWaiting,
    /// Stop waiting and take the statistics; `completed` when the stream ended normally.
    TakeStats { completed: bool },
}

/// The watcher's decision on one event: activity keeps it waiting; the end of the stream,
/// a lost end signal or either timeout stops it, and only the end signal counts as a
/// normal completion.
pub fn watch_step(ev: WatchEvent) -> (r: WatchAction)
    ensures
        r == match ev {
            WatchEvent::Activity => WatchAction::KeepWaiting,
            WatchEvent::Completed => WatchAction::TakeStats { completed: true },
            _ => WatchAction::TakeStats { completed: false },
        },
{
    match ev {
        WatchEvent::Activity => WatchAction::KeepWaiting,
        WatchEvent::Completed => WatchAction::TakeStats { completed: true },
        WatchEvent::CompletionDropped => WatchAction::TakeStats { completed: false },
        WatchEvent::InactivityTimeout => WatchAction::TakeStats { completed: false },
        WatchEvent::AbsoluteTimeout => WatchAction::TakeStats { completed: false },
    }
}

} // verus!

verus! {

/// The JSON text of a document, or nothing where it cannot be written.
pub open spec fn json_text_or_empty(j: JsonV) -> Seq<char> {
    match spec_json_text(j) {
        Some(t) => t,
        None => seq![],
    }
}

/// The text sent for the pieces of a chunk: text pieces as they are, a re-emitted payload
/// as `data: ` and its JSON text.
pub open spec fn render_pieces_v(ps: Seq<OutPieceV>) -> Seq<char>
    decreases ps.len(),
{
    if ps.len() == 0 {
        seq![]
    } else {
        render_pieces_v(ps.drop_last()) + match ps.last() {
            OutPieceV::Text(t) => t,
            OutPieceV::Data(j) => "data: "@ + json_text_or_empty(j),
        }
    }
}

/// The event-stream text of kept events, as accumulated for the statistics: per event an
/// `event: ` line where it has a type, then a `data: ` line with its JSON text.
pub open spec fn render_events_v(evs: Seq<(Option<Seq<char>>, JsonV)>) -> Seq<char>
    decreases evs.len(),
{
    if evs.len() == 0 {
        seq![]
    } else {
        let e = evs.last();
        render_events_v(evs.drop_last()) + match e.0 {
            Some(t) => "event: "@ + t + "\n"@,
            None => seq![],
        } + "data: "@ + json_text_or_empty(e.1) + "\n"@
    }
}

fn json_text_or_empty_exec(j: &Json) -> (r: String)
    ensures
        r@ == json_text_or_empty(j@),
{
    match json_text(j) {
        Some(t) => t,
        None => String::new(),
    }
}

/// The text to send for the pieces of a chunk.
pub fn render_pieces(ps: &Vec<OutPiece>) -> (r: String)
    ensures
        r@ == render_pieces_v(piece_views(ps@)),
{
    let ghost pv = piece_views(ps@);
    let mut out = String::new();
    let mut i: usize = 0;
    while i < ps.len()
        invariant
            i <= ps.len(),
            pv == piece_views(ps@),
            out@ == render_pieces_v(pv.take(i as int)),
        decreases ps.len() - i,
    {
        proof {
            assert(pv.take(i + 1).drop_last() =~= pv.take(i as int));
            assert(pv.take(i + 1).last() == ps@[i as int]@);
        }
        match &ps[i] {
            OutPiece::Text(t) => {
                out = concat2(out.as_str(), t.as_str());
            },
            OutPiece::Data(j) => {
                let a = concat2(out.as_str(), "data: ");
                let t = json_text_or_empty_exec(j);
                out = concat2(a.as_str(), t.as_str());
            },
        }
        i = i + 1;
    }
    assert(pv.take(ps.len() as int) =~= pv);
    out
}

/// The event-stream text of the kept events, to accumulate for the statistics.
pub fn render_events(evs: &Vec<SseEvent>) -> (r: String)
    ensures
        r@ == render_events_v(event_views(evs@)),
{
    let ghost ev = event_views(evs@);
    let mut out = String::new();
    let mut i: usize = 0;
    while i < evs.len()
        invariant
            i <= evs.len(),
            ev == event_views(evs@),
            out@ == render_events_v(ev.take(i as int)),
        decreases evs.len() - i,
    {
        proof {
            assert(ev.take(i + 1).drop_last() =~= ev.take(i as int));
            assert(ev.take(i + 1).last() == evs@[i as int]@);
        }
        let e = &evs[i];
        match &e.event_type {
            Some(t) => {
                let a = concat2(out.as_str(), "event: ");
                let b = concat2(a.as_str(), t.as_str());
                out = concat2(b.as_str(), "\n");
            },
            None => {},
        }
        let a = concat2(out.as_str(), "data: ");
        let t = json_text_or_empty_exec(&e.data);
        let b = concat2(a.as_str(), t.as_str());
        out = concat2(b.as_str(), "\n");
        i = i + 1;
    }
    assert(ev.take(evs.len() as int) =~= ev);
    out
}

} // verus!
