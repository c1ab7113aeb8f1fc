//! Reading articles out of a wiki XML dump: a state machine fed with the dump's XML
//! events, one page at a time.
use vstd::prelude::*;
use vstd::string::*;
use crate::proxy::request_log::concat2;
use crate::text::{chars_of, str_eq};
use crate::wiki::errors::WikiParseError;
use crate::wiki::model::{Article, Timestamp};

verus! {

/// The text `quick_xml::escape::unescape` gives for raw XML text, or nothing when it
/// finds a bad escape.
pub uninterp spec fn spec_xml_unescape(raw: Seq<char>) -> Option<Seq<char>>;

/// Whether every character is an ASCII decimal digit.
pub open spec fn all_digits(d: Seq<char>) -> bool {
    forall|i: int| 0 <= i < d.len() ==> '0' <= #[trigger] d[i] <= '9'
}

/// The value of a sequence of decimal digits.
pub open spec fn digits_value(d: Seq<char>) -> int
    decreases d.len(),
{
    if d.len() == 0 {
        0
    } else {
        digits_value(d.drop_last()) * 10 + (d.last() as int - '0' as int)
    }
}

/// The number `str::parse::<i32>` reads, as its documentation describes the accepted text:
/// an optional `+` or `-` followed by one or more decimal digits (no whitespace), whose
/// value fits in an `i32`; anything else is refused.
pub open spec fn spec_parse_i32(s: Seq<char>) -> Option<i32> {
    let neg = s.len() > 0 && s[0] == '-';
    let d = if s.len() > 0 && (s[0] == '-' || s[0] == '+') {
        s.drop_first()
    } else {
        s
    };
    let v = if neg {
        -digits_value(d)
    } else {
        digits_value(d)
    };
    if d.len() == 0 || !all_digits(d) || v < i32::MIN || v > i32::MAX {
        None
    } else {
        Some(v as i32)
    }
}

/// The instant `chrono::DateTime::parse_from_rfc3339` reads from a text (taken to UTC), or
/// nothing when it refuses it.
pub uninterp spec fn spec_parse_rfc3339(s: Seq<char>) -> Option<Timestamp>;

/// Resolves the XML escapes of a raw text with `quick_xml::escape::unescape`. The
/// contract claims only that the outcome is a function of the text.
#[verifier::external_body]
fn xml_unescape(raw: &str) -> (r: Option<String>)
    ensures
        match r {
            Some(s) => spec_xml_unescape(raw@) == Some(s@),
            None => spec_xml_unescape(raw@) is None,
        },
{
    quick_xml::escape::unescape(raw).ok().map(|c| c.into_owned())
}

/// The value of the digits, or `cap` when it would exceed it.
pub open spec fn capped(v: int, cap: int) -> int {
    if v < cap {
        v
    } else {
        cap
    }
}

/// Reads a decimal `i32` as `str::parse::<i32>` does: an optional sign, then one or more
/// decimal digits whose value fits.
fn parse_i32(s: &str) -> (r: Option<i32>)
    ensures
        r == spec_parse_i32(s@),
{
    let cs = chars_of(s);
    let n = cs.len();
    let neg = n > 0 && cs[0] == '-';
    let start: usize = if n > 0 && (cs[0] == '-' || cs[0] == '+') {
        1
    } else {
        0
    };
    let ghost d = if s@.len() > 0 && (s@[0] == '-' || s@[0] == '+') {
        s@.drop_first()
    } else {
        s@
    };
    assert(d =~= cs@.skip(start as int));
    if start == n {
        return None;
    }
    let cap: i64 = 2147483649;
    let mut acc: i64 = 0;
    let mut k: usize = start;
    while k < n
        invariant
            cs@ == s@,
            n == cs.len(),
            start <= k <= n,
            d == cs@.skip(start as int),
            d == (if s@.len() > 0 && (s@[0] == '-' || s@[0] == '+') {
                s@.drop_first()
            } else {
                s@
            }),
            cap == 2147483649,
            all_digits(d.take(k - start)),
            acc == capped(digits_value(d.take(k - start)), cap as int),
            0 <= acc <= cap,
        decreases n - k,
    {
        let c = cs[k];
        if c < '0' || c > '9' {
            assert(d[k - start] == c);
            assert(!all_digits(d));
            return None;
        }
        let digit = (c as u32 - '0' as u32) as i64;
        let ghost prev = d.take(k - start);
        let ghost next = d.take(k + 1 - start);
        assert(next.drop_last() =~= prev);
        assert(next.last() == c);
        assert(digits_value(next) == digits_value(prev) * 10 + digit);
        assert(digits_value(prev) >= 0) by {
            lemma_digits_value_nonneg(prev);
        }
        acc = if acc * 10 + digit < cap {
            acc * 10 + digit
        } else {
            cap
        };
        assert(all_digits(next)) by {
            assert forall|i: int| 0 <= i < next.len() implies '0' <= #[trigger] next[i] <= '9' by {
                if i < prev.len() {
                    assert(next[i] == prev[i]);
                }
            }
        }
        k = k + 1;
    }
    assert(d.take(n - start) =~= d);
    let value: i64 = if neg {
        -acc
    } else {
        acc
    };
    if value < -2147483648 || value > 2147483647 {
        None
    } else {
        Some(value as i32)
    }
}

/// The value of decimal digits is never negative.
proof fn lemma_digits_value_nonneg(d: Seq<char>)
    requires
        all_digits(d),
    ensures
        digits_value(d) >= 0,
    decreases d.len(),
{
    if d.len() > 0 {
        assert(all_digits(d.drop_last())) by {
            assert forall|i: int| 0 <= i < d.drop_last().len() implies '0' <= #[trigger] d.drop_last()[i] <= '9' by {
                assert(d.drop_last()[i] == d[i]);
            }
        }
        lemma_digits_value_nonneg(d.drop_last());
        assert('0' <= d[d.len() - 1]);
    }
}

/// Reads an RFC 3339 date and time with `chrono::DateTime::parse_from_rfc3339` and takes
/// it to UTC seconds and nanoseconds. The contract claims only that the outcome is a
/// function of the text.
#[verifier::external_body]
fn parse_rfc3339(s: &str) -> (r: Option<Timestamp>)
    ensures
        r == spec_parse_rfc3339(s@),
{
    chrono::DateTime::parse_from_rfc3339(s).ok().map(
        |dt| Timestamp { secs: dt.timestamp(), nanos: dt.timestamp_subsec_nanos() },
    )
}

/// An XML event of the dump, as the reader reports it.
#[derive(Debug)]
pub enum XmlEvent {
    /// An opening tag, with its attributes (values as read, not unescaped).
    Start { name: String, attrs: Vec<(String, String)> },
    End { name: String },
    /// Text content, raw; `None` when its bytes are not UTF-8.
    Text { raw: Option<String> },
    Eof,
    /// A reader error, by its message.
    Error { message: String },
    /// A self-closing element such as `<redirect title="..."/>`, with its attributes.
    Empty { name: String, attrs: Vec<(String, String)> },
    /// Any other event (comments, declarations, ...).
    Other,
}

/// The field whose text the next event carries.
#[derive(Debug, Clone, Copy, PartialEq, Eq, Structural)]
pub enum Expect {
    Nothing,
    Title,
    Namespace,
    Text,
    Timestamp,
}

/// What has been read of the current page.
#[derive(Debug)]
pub struct PageState {
    pub title: Option<String>,
    pub text: Option<String>,
    pub namespace: i32,
    pub timestamp: Option<Timestamp>,
    pub redirects_to: Option<String>,
    pub expect: Expect,
}

/// Where the reader is in the dump.
#[derive(Debug)]
pub enum DumpState {
    /// Between pages.
    Outside,
    InPage(PageState),
    /// The dump ended (every page read).
    Finished,
    /// Reading stopped on an error.
    Failed,
}

/// What one event did.
#[derive(Debug)]
pub enum FeedOutcome {
    /// Read on.
    Continue,
    /// The dump ended; the articles are complete.
    Finished,
    Failed(WikiParseError),
    /// The reader had already stopped; the event was not read.
    Stopped,
}

/// A dump reader: its state and the articles read so far.
#[derive(Debug)]
pub struct DumpParser {
    pub state: DumpState,
    pub articles: Vec<Article>,
}

/// The text of a text event, unescaped (empty when it cannot be).
pub open spec fn text_value(raw: Option<Seq<char>>) -> Seq<char> {
    match raw {
        Some(r) => match spec_xml_unescape(r) {
            Some(t) => t,
            None => seq![],
        },
        None => seq![],
    }
}

/// `s` with every space replaced by `_`.
pub open spec fn spaces_to_underscores(s: Seq<char>) -> Seq<char> {
    s.map_values(|c: char| if c == ' ' { '_' } else { c })
}

/// The id of a page's article: `page-` and the title with spaces as underscores.
pub open spec fn page_id(title: Seq<char>) -> Seq<char> {
    "page-"@ + spaces_to_underscores(title)
}

/// The last `title` attribute of a `redirect` tag.
pub open spec fn redirect_title(attrs: Seq<(Seq<char>, Seq<char>)>, prev: Option<Seq<char>>) -> Option<Seq<char>>
    decreases attrs.len(),
{
    if attrs.len() == 0 {
        prev
    } else {
        let last = attrs.last();
        if last.0 == "title"@ {
            Some(last.1)
        } else {
            redirect_title(attrs.drop_last(), prev)
        }
    }
}

fn spaces_to_underscores_exec(s: &str) -> (r: String)
    ensures
        r@ == spaces_to_underscores(s@),
{
    let cs = chars_of(s);
    let mut r = String::new();
    let mut i: usize = 0;
    while i < cs.len()
        invariant
            cs@ == s@,
            i <= cs.len(),
            r@ == spaces_to_underscores(cs@.take(i as int)),
        decreases cs.len() - i,
    {
        let c = cs[i];
        r.push(if c == ' ' { '_' } else { c });
        assert(cs@.take(i + 1) =~= cs@.take(i as int).push(c));
        assert(spaces_to_underscores(cs@.take(i + 1)) =~= spaces_to_underscores(cs@.take(i as int)).push(if c == ' ' { '_' } else { c }));
        i = i + 1;
    }
    assert(cs@.take(i as int) =~= cs@);
    r
}

fn text_value_exec(raw: &Option<String>) -> (r: String)
    ensures
        r@ == text_value(match raw {
            Some(s) => Some(s@),
            None => None,
        }),
{
    match raw {
        Some(s) => match xml_unescape(s.as_str()) {
            Some(t) => t,
            None => String::new(),
        },
        None => String::new(),
    }
}

fn redirect_title_exec(attrs: &Vec<(String, String)>, prev: Option<String>) -> (r: Option<String>)
    ensures
        match r {
            Some(s) => redirect_title(attrs@.map_values(|a: (String, String)| (a.0@, a.1@)), match prev { Some(p) => Some(p@), None => None }) == Some(s@),
            None => redirect_title(attrs@.map_values(|a: (String, String)| (a.0@, a.1@)), match prev { Some(p) => Some(p@), None => None }) is None,
        },
{
    let ghost av = attrs@.map_values(|a: (String, String)| (a.0@, a.1@));
    let ghost pv = match prev { Some(ref p) => Some(p@), None => None };
    let mut found: Option<String> = prev;
    let mut i: usize = 0;
    while i < attrs.len()
        invariant
            i <= attrs.len(),
            av == attrs@.map_values(|a: (String, String)| (a.0@, a.1@)),
            match found {
                Some(s) => redirect_title(av.take(i as int), pv) == Some(s@),
                None => redirect_title(av.take(i as int), pv) is None,
            },
        decreases attrs.len() - i,
    {
        proof {
            assert(av.take(i + 1).drop_last() =~= av.take(i as int));
            assert(av.take(i + 1).last() == av[i as int]);
        }
        if str_eq(attrs[i].0.as_str(), "title") {
            found = Some(attrs[i].1.clone());
        }
        i = i + 1;
    }
    assert(av.take(i as int) =~= av);
    found
}

} // verus!

verus! {

/// The value of an article.
pub struct ArticleV {
    pub id: Seq<char>,
    pub title: Seq<char>,
    pub text: Seq<char>,
    pub cleaned_text: Option<Seq<char>>,
    pub namespace: i32,
    pub redirects_to: Option<Seq<char>>,
    pub timestamp: Timestamp,
    pub created_at: Option<Timestamp>,
}

pub open spec fn sv(o: Option<String>) -> Option<Seq<char>> {
    match o {
        Some(s) => Some(s@),
        None => None,
    }
}

impl View for Article {
    type V = ArticleV;

    open spec fn view(&self) -> ArticleV {
        ArticleV {
            id: self.id@,
            title: self.title@,
            text: self.text@,
            cleaned_text: sv(self.cleaned_text),
            namespace: self.namespace,
            redirects_to: sv(self.redirects_to),
            timestamp: self.timestamp,
            created_at: self.created_at,
        }
    }
}

/// The value of a page being read.
pub struct PageV {
    pub title: Option<Seq<char>>,
    pub text: Option<Seq<char>>,
    pub namespace: i32,
    pub timestamp: Option<Timestamp>,
    pub redirects_to: Option<Seq<char>>,
    pub expect: Expect,
}

impl View for PageState {
    type V = PageV;

    open spec fn view(&self) -> PageV {
        PageV {
            title: sv(self.title),
            text: sv(self.text),
            namespace: self.namespace,
            timestamp: self.timestamp,
            redirects_to: sv(self.redirects_to),
            expect: self.expect,
        }
    }
}

pub enum StateV {
    Outside,
    InPage(PageV),
    Finished,
    Failed,
}

impl View for DumpState {
    type V = StateV;

    open spec fn view(&self) -> StateV {
        match self {
            DumpState::Outside => StateV::Outside,
            DumpState::InPage(p) => StateV::InPage(p@),
            DumpState::Finished => StateV::Finished,
            DumpState::Failed => StateV::Failed,
        }
    }
}

pub enum EventV {
    Start(Seq<char>, Seq<(Seq<char>, Seq<char>)>),
    End(Seq<char>),
    Text(Option<Seq<char>>),
    Eof,
    Error(Seq<char>),
    Empty(Seq<char>, Seq<(Seq<char>, Seq<char>)>),
    Other,
}

impl View for XmlEvent {
    type V = EventV;

    open spec fn view(&self) -> EventV {
        match self {
            XmlEvent::Start { name, attrs } => EventV::Start(
                name@,
                attrs@.map_values(|a: (String, String)| (a.0@, a.1@)),
            ),
            XmlEvent::End { name } => EventV::End(name@),
            XmlEvent::Text { raw } => EventV::Text(sv(*raw)),
            XmlEvent::Eof => EventV::Eof,
            XmlEvent::Error { message } => EventV::Error(message@),
            XmlEvent::Empty { name, attrs } => EventV::Empty(
                name@,
                attrs@.map_values(|a: (String, String)| (a.0@, a.1@)),
            ),
            XmlEvent::Other => EventV::Other,
        }
    }
}

/// What one event did: read on, the dump ended, reading failed (with the error's
/// message), or the reader had already stopped.
pub enum OutcomeV {
    Continue,
    Finished,
    Failed(Seq<char>),
    Stopped,
}

/// The message of an XML error.
pub open spec fn xml_error_message(m: Seq<char>) -> Seq<char> {
    "XML parsing error: "@ + m
}

pub open spec fn empty_page() -> PageV {
    PageV { title: None, text: None, namespace: 0, timestamp: None, redirects_to: None, expect: Expect::Nothing }
}

pub open spec fn with_expect(p: PageV, e: Expect) -> PageV {
    PageV { title: p.title, text: p.text, namespace: p.namespace, timestamp: p.timestamp, redirects_to: p.redirects_to, expect: e }
}

/// A page after the text event its expected field was waiting for: the title and the text
/// are taken as they are, the namespace read as a number (0 when it is not one), the
/// timestamp read as RFC 3339 (the current time when it is not).
pub open spec fn fill_page(p: PageV, raw: Option<Seq<char>>, now: Timestamp) -> PageV {
    let t = text_value(raw);
    let q = with_expect(p, Expect::Nothing);
    match p.expect {
        Expect::Title => PageV { title: Some(t), ..q },
        Expect::Namespace => PageV {
            namespace: match spec_parse_i32(t) {
                Some(n) => n,
                None => 0,
            },
            ..q
        },
        Expect::Text => PageV { text: Some(t), ..q },
        Expect::Timestamp => PageV {
            timestamp: Some(match spec_parse_rfc3339(t) {
                Some(x) => x,
                None => now,
            }),
            ..q
        },
        Expect::Nothing => q,
    }
}

/// The article a finished page gives: one with a title, and with text or a redirect.
pub open spec fn finish_page(p: PageV, now: Timestamp) -> Option<ArticleV> {
    match p.title {
        None => None,
        Some(t) => {
            let text = match p.text {
                Some(x) => x,
                None => seq![],
            };
            if text.len() > 0 || p.redirects_to is Some {
                Some(ArticleV {
                    id: page_id(t),
                    title: t,
                    text: text,
                    cleaned_text: None,
                    namespace: p.namespace,
                    redirects_to: p.redirects_to,
                    timestamp: match p.timestamp {
                        Some(x) => x,
                        None => now,
                    },
                    created_at: None,
                })
            } else {
                None
            }
        },
    }
}

/// One event of the dump: outside pages, a `page` tag opens one and the end of the dump
/// finishes; inside a page, a field tag makes the next event that field's text, a
/// `redirect` tag, opening or self-closing, gives the redirect target (its last `title`
/// attribute), the closing `page` tag yields the article,
/// and the end of the dump or a reader error fails the reading.
pub open spec fn dump_step(st: StateV, ev: EventV, now: Timestamp) -> (StateV, Option<ArticleV>, OutcomeV) {
    match st {
        StateV::Outside => match ev {
            EventV::Start(name, _) => if name == "page"@ {
                (StateV::InPage(empty_page()), None, OutcomeV::Continue)
            } else {
                (StateV::Outside, None, OutcomeV::Continue)
            },
            EventV::Eof => (StateV::Finished, None, OutcomeV::Finished),
            EventV::Error(m) => (StateV::Failed, None, OutcomeV::Failed(xml_error_message(m))),
            _ => (StateV::Outside, None, OutcomeV::Continue),
        },
        StateV::InPage(p) => if p.expect != Expect::Nothing {
            match ev {
                EventV::Text(raw) => (StateV::InPage(fill_page(p, raw, now)), None, OutcomeV::Continue),
                _ => (StateV::InPage(with_expect(p, Expect::Nothing)), None, OutcomeV::Continue),
            }
        } else {
            match ev {
                EventV::Start(name, attrs) => if name == "title"@ {
                    (StateV::InPage(with_expect(p, Expect::Title)), None, OutcomeV::Continue)
                } else if name == "ns"@ {
                    (StateV::InPage(with_expect(p, Expect::Namespace)), None, OutcomeV::Continue)
                } else if name == "text"@ {
                    (StateV::InPage(with_expect(p, Expect::Text)), None, OutcomeV::Continue)
                } else if name == "timestamp"@ {
                    (StateV::InPage(with_expect(p, Expect::Timestamp)), None, OutcomeV::Continue)
                } else if name == "redirect"@ {
                    (
                        StateV::InPage(PageV { redirects_to: redirect_title(attrs, p.redirects_to), ..p }),
                        None,
                        OutcomeV::Continue,
                    )
                } else {
                    (StateV::InPage(p), None, OutcomeV::Continue)
                },
                EventV::End(name) => if name == "page"@ {
                    (StateV::Outside, finish_page(p, now), OutcomeV::Continue)
                } else {
                    (StateV::InPage(p), None, OutcomeV::Continue)
                },
                EventV::Empty(name, attrs) => if name == "redirect"@ {
                    (
                        StateV::InPage(PageV { redirects_to: redirect_title(attrs, p.redirects_to), ..p }),
                        None,
                        OutcomeV::Continue,
                    )
                } else {
                    (StateV::InPage(p), None, OutcomeV::Continue)
                },
                EventV::Eof => (StateV::Failed, None, OutcomeV::Failed(xml_error_message("Unexpected EOF"@))),
                EventV::Error(m) => (StateV::Failed, None, OutcomeV::Failed(xml_error_message(m))),
                _ => (StateV::InPage(p), None, OutcomeV::Continue),
            }
        },
        StateV::Finished => (StateV::Finished, None, OutcomeV::Stopped),
        StateV::Failed => (StateV::Failed, None, OutcomeV::Stopped),
    }
}

} // verus!

verus! {

impl View for FeedOutcome {
    type V = OutcomeV;

    open spec fn view(&self) -> OutcomeV {
        match self {
            FeedOutcome::Continue => OutcomeV::Continue,
            FeedOutcome::Finished => OutcomeV::Finished,
            FeedOutcome::Failed(e) => OutcomeV::Failed(e.message()),
            FeedOutcome::Stopped => OutcomeV::Stopped,
        }
    }
}

pub open spec fn article_views(v: Seq<Article>) -> Seq<ArticleV> {
    v.map_values(|a: Article| a@)
}

/// The article of a finished page.
fn finish_page_exec(p: PageState, now: Timestamp) -> (r: Option<Article>)
    ensures
        match r {
            Some(a) => finish_page(p@, now) == Some(a@),
            None => finish_page(p@, now) is None,
        },
{
    let PageState { title, text, namespace, timestamp, redirects_to, expect: _ } = p;
    match title {
        None => None,
        Some(t) => {
            let txt = match text {
                Some(x) => x,
                None => String::new(),
            };
            let nonempty = !txt.as_str().is_empty();
            if nonempty || redirects_to.is_some() {
                let id = concat2("page-", spaces_to_underscores_exec(t.as_str()).as_str());
                let ts = match timestamp {
                    Some(x) => x,
                    None => now,
                };
                let mut a = Article::new(id, t, txt, namespace, ts);
                a.redirects_to = redirects_to;
                Some(a)
            } else {
                None
            }
        },
    }
}

/// A page after its expected field's text event.
fn fill_page_exec(p: PageState, raw: &Option<String>, now: Timestamp) -> (r: PageState)
    ensures
        r@ == fill_page(p@, sv(*raw), now),
{
    let t = text_value_exec(raw);
    let mut q = p;
    let e = q.expect;
    q.expect = Expect::Nothing;
    match e {
        Expect::Title => {
            q.title = Some(t);
        },
        Expect::Namespace => {
            q.namespace = match parse_i32(t.as_str()) {
                Some(n) => n,
                None => 0,
            };
        },
        Expect::Text => {
            q.text = Some(t);
        },
        Expect::Timestamp => {
            q.timestamp = Some(match parse_rfc3339(t.as_str()) {
                Some(x) => x,
                None => now,
            });
        },
        Expect::Nothing => {},
    }
    q
}

impl DumpParser {
    /// A reader at the start of a dump.
    pub fn new() -> (r: Self)
        ensures
            r.state@ == StateV::Outside,
            r.articles@.len() == 0,
    {
        DumpParser { state: DumpState::Outside, articles: Vec::new() }
    }

    /// Takes the next XML event of the dump; `now` stands for the current time where a
    /// page gives none.
    pub fn feed(&mut self, ev: XmlEvent, now: Timestamp) -> (r: FeedOutcome)
        ensures
            final(self).state@ == dump_step(old(self).state@, ev@, now).0,
            article_views(final(self).articles@) == article_views(old(self).articles@) + match dump_step(
                old(self).state@,
                ev@,
                now,
            ).1 {
                Some(a) => seq![a],
                None => seq![],
            },
            r@ == dump_step(old(self).state@, ev@, now).2,
            r matches FeedOutcome::Failed(e) ==> e is XmlError,
    {
        let ghost step = dump_step(self.state@, ev@, now);
        let ghost arts0 = article_views(self.articles@);
        let mut st = DumpState::Failed;
        std::mem::swap(&mut st, &mut self.state);
        match st {
            DumpState::Outside => match ev {
                XmlEvent::Start { name, attrs: _ } => {
                    if str_eq(name.as_str(), "page") {
                        self.state = DumpState::InPage(PageState {
                            title: None,
                            text: None,
                            namespace: 0,
                            timestamp: None,
                            redirects_to: None,
                            expect: Expect::Nothing,
                        });
                    } else {
                        self.state = DumpState::Outside;
                    }
                    proof {
                        assert(article_views(self.articles@) =~= arts0 + Seq::<ArticleV>::empty());
                    }
                    FeedOutcome::Continue
                },
                XmlEvent::Eof => {
                    self.state = DumpState::Finished;
                    proof {
                        assert(article_views(self.articles@) =~= arts0 + Seq::<ArticleV>::empty());
                    }
                    FeedOutcome::Finished
                },
                XmlEvent::Error { message } => {
                    self.state = DumpState::Failed;
                    proof {
                        assert(article_views(self.articles@) =~= arts0 + Seq::<ArticleV>::empty());
                    }
                    FeedOutcome::Failed(WikiParseError::XmlError(message))
                },
                _ => {
                    self.state = DumpState::Outside;
                    proof {
                        assert(article_views(self.articles@) =~= arts0 + Seq::<ArticleV>::empty());
                    }
                    FeedOutcome::Continue
                },
            },
            DumpState::InPage(p) => {
                proof {
                    assert(article_views(self.articles@) =~= arts0 + Seq::<ArticleV>::empty());
                }
                if p.expect != Expect::Nothing {
                    match ev {
                        XmlEvent::Text { raw } => {
                            self.state = DumpState::InPage(fill_page_exec(p, &raw, now));
                        },
                        _ => {
                            let mut q = p;
                            q.expect = Expect::Nothing;
                            self.state = DumpState::InPage(q);
                        },
                    }
                    FeedOutcome::Continue
                } else {
                    match ev {
                        XmlEvent::Start { name, attrs } => {
                            let mut q = p;
                            let n = name.as_str();
                            if str_eq(n, "title") {
                                q.expect = Expect::Title;
                            } else if str_eq(n, "ns") {
                                q.expect = Expect::Namespace;
                            } else if str_eq(n, "text") {
                                q.expect = Expect::Text;
                            } else if str_eq(n, "timestamp") {
                                q.expect = Expect::Timestamp;
                            } else if str_eq(n, "redirect") {
                                let prev = q.redirects_to;
                                q.redirects_to = redirect_title_exec(&attrs, prev);
                            }
                            self.state = DumpState::InPage(q);
                            FeedOutcome::Continue
                        },
                        XmlEvent::End { name } => {
                            if str_eq(name.as_str(), "page") {
                                let a = finish_page_exec(p, now);
                                self.state = DumpState::Outside;
                                match a {
                                    Some(a) => {
                                        let ghost av = a@;
                                        self.articles.push(a);
                                        proof {
                                            assert(article_views(self.articles@) =~= arts0 + seq![av]);
                                        }
                                    },
                                    None => {},
                                }
                            } else {
                                self.state = DumpState::InPage(p);
                            }
                            FeedOutcome::Continue
                        },
                        XmlEvent::Empty { name, attrs } => {
                            let mut q = p;
                            if str_eq(name.as_str(), "redirect") {
                                let prev = q.redirects_to;
                                q.redirects_to = redirect_title_exec(&attrs, prev);
                            }
                            self.state = DumpState::InPage(q);
                            FeedOutcome::Continue
                        },
                        XmlEvent::Eof => {
                            self.state = DumpState::Failed;
                            FeedOutcome::Failed(WikiParseError::XmlError(String::from_str("Unexpected EOF")))
                        },
                        XmlEvent::Error { message } => {
                            self.state = DumpState::Failed;
                            FeedOutcome::Failed(WikiParseError::XmlError(message))
                        },
                        _ => {
                            self.state = DumpState::InPage(p);
                            FeedOutcome::Continue
                        },
                    }
                }
            },
            DumpState::Finished => {
                self.state = DumpState::Finished;
                proof {
                    assert(article_views(self.articles@) =~= arts0 + Seq::<ArticleV>::empty());
                }
                FeedOutcome::Stopped
            },
            DumpState::Failed => {
                self.state = DumpState::Failed;
                proof {
                    assert(article_views(self.articles@) =~= arts0 + Seq::<ArticleV>::empty());
                }
                FeedOutcome::Stopped
            },
        }
    }
}

} // verus!

verus! {

/// The articles of a dump read from event `i` on, or the message of the error that stops
/// the reading.
pub open spec fn dump_run(st: StateV, arts: Seq<ArticleV>, evs: Seq<EventV>, i: int, now: Timestamp) -> Result<
    Seq<ArticleV>,
    Seq<char>,
>
    decreases evs.len() - i,
{
    if i < 0 || i >= evs.len() {
        Ok(arts)
    } else {
        let (st2, a, out) = dump_step(st, evs[i], now);
        let arts2 = match a {
            Some(x) => arts.push(x),
            None => arts,
        };
        match out {
            OutcomeV::Finished => Ok(arts2),
            OutcomeV::Failed(m) => Err(m),
            OutcomeV::Stopped => Ok(arts2),
            OutcomeV::Continue => dump_run(st2, arts2, evs, i + 1, now),
        }
    }
}

/// What reading a whole dump gives: its events, then the end of the dump as often as the
/// reader asks for it.
pub open spec fn spec_parse_events(evs: Seq<EventV>, now: Timestamp) -> Result<Seq<ArticleV>, Seq<char>> {
    dump_run(StateV::Outside, seq![], evs + seq![EventV::Eof, EventV::Eof], 0, now)
}

pub open spec fn xml_event_views(s: Seq<XmlEvent>) -> Seq<EventV> {
    s.map_values(|e: XmlEvent| e@)
}

pub open spec fn result_views(r: Result<Vec<Article>, WikiParseError>) -> Result<Seq<ArticleV>, Seq<char>> {
    match r {
        Ok(v) => Ok(article_views(v@)),
        Err(e) => Err(e.message()),
    }
}

/// Reads the articles of a dump from its XML events (`parse_all`); the end of the dump is
/// assumed after the last event.
pub fn parse_events(events: Vec<XmlEvent>, now: Timestamp) -> (r: Result<Vec<Article>, WikiParseError>)
    ensures
        result_views(r) == spec_parse_events(xml_event_views(events@), now),
        r matches Err(e) ==> e is XmlError,
{
    let ghost evs = xml_event_views(events@) + seq![EventV::Eof, EventV::Eof];
    let ghost target = spec_parse_events(xml_event_views(events@), now);
    let mut parser = DumpParser::new();
    let mut queue = events;
    queue.push(XmlEvent::Eof);
    queue.push(XmlEvent::Eof);
    assert(xml_event_views(queue@) =~= evs);
    let mut i: usize = 0;
    let n = queue.len();
    let ghost total = dump_run(StateV::Outside, seq![], evs, 0, now);
    assert(article_views(parser.articles@) =~= Seq::<ArticleV>::empty());
    while i < n
        invariant
            n == evs.len(),
            i <= n,
            queue.len() == n - i,
            forall|k: int| 0 <= k < queue.len() ==> (#[trigger] queue@[k])@ == evs[i + k],
            total == dump_run(StateV::Outside, seq![], evs, 0, now),
            total == target,
            target == spec_parse_events(xml_event_views(events@), now),
            dump_run(parser.state@, article_views(parser.articles@), evs, i as int, now) == total,
        decreases n - i,
    {
        assert(queue@[0]@ == evs[i as int]);
        let ev = queue.remove(0);
        assert(ev@ == evs[i as int]);
        let ghost st0 = parser.state@;
        let ghost arts0 = article_views(parser.articles@);
        let out = parser.feed(ev, now);
        proof {
            let (st2, a, o) = dump_step(st0, evs[i as int], now);
            let arts2 = match a {
                Some(x) => arts0.push(x),
                None => arts0,
            };
            assert(arts2 =~= article_views(parser.articles@));
            assert(total == match o {
                OutcomeV::Finished => Ok(arts2),
                OutcomeV::Failed(m) => Err(m),
                OutcomeV::Stopped => Ok(arts2),
                OutcomeV::Continue => dump_run(st2, arts2, evs, i + 1, now),
            });
        }
        match out {
            FeedOutcome::Continue => {},
            FeedOutcome::Finished => {
                return Ok(parser.articles);
            },
            FeedOutcome::Failed(e) => {
                return Err(e);
            },
            FeedOutcome::Stopped => {
                return Ok(parser.articles);
            },
        }
        i = i + 1;
    }
    Ok(parser.articles)
}

} // verus!

verus! {

/// An article as the dump reader yields it: its id is `page-` and its title with spaces as
/// underscores, it has not been cleaned, and it has text or is a redirect.
pub open spec fn read_article_ok(a: ArticleV) -> bool {
    &&& a.id == page_id(a.title)
    &&& a.cleaned_text is None
    &&& a.created_at is None
    &&& (a.text.len() > 0 || a.redirects_to is Some)
}

proof fn lemma_dump_run_ok(st: StateV, arts: Seq<ArticleV>, evs: Seq<EventV>, i: int, now: Timestamp)
    requires
        forall|k: int| 0 <= k < arts.len() ==> read_article_ok(#[trigger] arts[k]),
    ensures
        dump_run(st, arts, evs, i, now) matches Ok(r) ==> forall|k: int|
            0 <= k < r.len() ==> read_article_ok(#[trigger] r[k]),
    decreases evs.len() - i,
{
    if 0 <= i < evs.len() {
        let (st2, a, out) = dump_step(st, evs[i], now);
        let arts2 = match a {
            Some(x) => arts.push(x),
            None => arts,
        };
        assert forall|k: int| 0 <= k < arts2.len() implies read_article_ok(#[trigger] arts2[k]) by {
            if k < arts.len() {
                assert(arts2[k] == arts[k]);
            }
        }
        if out is Continue {
            lemma_dump_run_ok(st2, arts2, evs, i + 1, now);
        }
    }
}

/// Every article read from a dump has the id made from its title and carries text or a
/// redirect target: pages with neither are skipped.
pub proof fn law_read_articles_are_complete(evs: Seq<EventV>, now: Timestamp)
    ensures
        spec_parse_events(evs, now) matches Ok(arts) ==> forall|k: int|
            0 <= k < arts.len() ==> read_article_ok(#[trigger] arts[k]),
{
    lemma_dump_run_ok(StateV::Outside, seq![], evs + seq![EventV::Eof, EventV::Eof], 0, now);
}

/// A reader that has finished or failed stays so: it reads no further event and yields no
/// article.
pub proof fn law_stopped_reader_stays(ev: EventV, now: Timestamp)
    ensures
        dump_step(StateV::Finished, ev, now) == (StateV::Finished, None::<ArticleV>, OutcomeV::Stopped),
        dump_step(StateV::Failed, ev, now) == (StateV::Failed, None::<ArticleV>, OutcomeV::Stopped),
{
}

} // verus!
