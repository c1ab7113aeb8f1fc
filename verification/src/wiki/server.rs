//! The in-memory article store behind the wiki tools: keyword search and reading by title.
use vstd::prelude::*;
use vstd::string::*;
use crate::proxy::request_log::concat2;
use crate::text::{
    blen, chars_of, seq_contains, spec_to_lowercase, str_contains, str_eq, string_of_range,
    to_lowercase,
};
use crate::wiki::dump::{ArticleV, article_views};
use crate::wiki::model::{Article, Chunk};

verus! {

/// The text an article is searched and read by: the cleaned text, else the raw one.
pub open spec fn article_text(a: ArticleV) -> Seq<char> {
    match a.cleaned_text {
        Some(c) => c,
        None => a.text,
    }
}

/// Whether an article matches a (lowercased) query: its title or its text contains it,
/// ignoring case.
pub open spec fn article_matches(a: ArticleV, q: Seq<char>) -> bool {
    seq_contains(spec_to_lowercase(a.title), q) || seq_contains(spec_to_lowercase(article_text(a)), q)
}

/// The matching articles among those from `i` on, in store order.
pub open spec fn matching_from(arts: Seq<ArticleV>, q: Seq<char>, i: int) -> Seq<ArticleV>
    decreases arts.len() - i,
{
    if i < 0 || i >= arts.len() {
        seq![]
    } else if article_matches(arts[i], q) {
        seq![arts[i]] + matching_from(arts, q, i + 1)
    } else {
        matching_from(arts, q, i + 1)
    }
}

/// The hits of a search: the first `limit` matching articles.
pub open spec fn search_hits(arts: Seq<ArticleV>, query: Seq<char>, limit: int) -> Seq<ArticleV> {
    let m = matching_from(arts, spec_to_lowercase(query), 0);
    if m.len() <= limit {
        m
    } else {
        m.take(limit)
    }
}

/// The chunk a hit is returned as: the first 500 characters of the article's text.
pub open spec fn hit_chunk(c: Chunk, a: ArticleV) -> bool {
    let text = if article_text(a).len() <= 500 {
        article_text(a)
    } else {
        article_text(a).take(500)
    };
    &&& c.id@ == a.id + "-chunk-0"@
    &&& c.article_id@ == a.id
    &&& c.article_title@ == a.title
    &&& c.chunk_index == 0
    &&& c.section_path is None
    &&& c.text@ == text
    &&& c.token_count == 500
    &&& c.offset is None
    &&& c.length == blen(text)
}

/// Whether an article is the one asked for by title: the same title, or the same once its
/// underscores are spaces.
pub open spec fn title_matches(a: ArticleV, title: Seq<char>) -> bool {
    a.title == title || a.title.map_values(|c: char| if c == '_' { ' ' } else { c }) == title
}

/// The first article from `i` on asked for by `title`.
pub open spec fn find_title(arts: Seq<ArticleV>, title: Seq<char>, i: int) -> Option<int>
    decreases arts.len() - i,
{
    if i < 0 || i >= arts.len() {
        None
    } else if title_matches(arts[i], title) {
        Some(i)
    } else {
        find_title(arts, title, i + 1)
    }
}

/// The article store of the wiki tools.
#[derive(Debug)]
pub struct WikiServer {
    pub articles: Vec<Article>,
}

fn copy_opt_string(o: &Option<String>) -> (r: Option<String>)
    ensures
        crate::wiki::dump::sv(r) == crate::wiki::dump::sv(*o),
{
    match o {
        Some(s) => Some(s.clone()),
        None => None,
    }
}

/// A copy of an article.
pub fn clone_article(a: &Article) -> (r: Article)
    ensures
        r@ == a@,
{
    Article {
        id: a.id.clone(),
        title: a.title.clone(),
        text: a.text.clone(),
        cleaned_text: copy_opt_string(&a.cleaned_text),
        namespace: a.namespace,
        redirects_to: copy_opt_string(&a.redirects_to),
        timestamp: a.timestamp,
        created_at: a.created_at,
    }
}

fn underscores_to_spaces(s: &str) -> (r: String)
    ensures
        r@ == s@.map_values(|c: char| if c == '_' { ' ' } else { c }),
{
    let cs = chars_of(s);
    let mut r = String::new();
    let mut i: usize = 0;
    while i < cs.len()
        invariant
            cs@ == s@,
            i <= cs.len(),
            r@ == cs@.take(i as int).map_values(|c: char| if c == '_' { ' ' } else { c }),
        decreases cs.len() - i,
    {
        let c = cs[i];
        r.push(if c == '_' { ' ' } else { c });
        assert(cs@.take(i + 1) =~= cs@.take(i as int).push(c));
        assert(cs@.take(i + 1).map_values(|c: char| if c == '_' { ' ' } else { c }) =~= cs@.take(
            i as int,
        ).map_values(|c: char| if c == '_' { ' ' } else { c }).push(if c == '_' { ' ' } else { c }));
        i = i + 1;
    }
    assert(cs@.take(i as int) =~= cs@);
    r
}

impl Default for WikiServer {
    fn default() -> (r: Self)
        ensures
            r.articles@.len() == 0,
    {
        WikiServer::new()
    }
}

impl WikiServer {
    pub fn new() -> (r: Self)
        ensures
            r.articles@.len() == 0,
    {
        WikiServer { articles: Vec::new() }
    }

    /// Adds articles to the store, after those already there.
    pub fn add_articles(&mut self, articles: Vec<Article>)
        ensures
            article_views(final(self).articles@) == article_views(old(self).articles@) + article_views(articles@),
    {
        let mut more = articles;
        let ghost added = article_views(more@);
        let ghost before = article_views(self.articles@);
        self.articles.append(&mut more);
        assert(article_views(self.articles@) =~= before + added);
    }

    /// Keyword search: up to `limit` articles whose title or text contains the query,
    /// ignoring case, each as its first 500 characters.
    pub fn wiki_search(&self, query: &str, limit: usize) -> (r: Vec<Chunk>)
        ensures
            r.len() == search_hits(article_views(self.articles@), query@, limit as int).len(),
            forall|k: int|
                0 <= k < r.len() ==> hit_chunk(
                    #[trigger] r@[k],
                    search_hits(article_views(self.articles@), query@, limit as int)[k],
                ),
    {
        let q = to_lowercase(query);
        let ghost arts = article_views(self.articles@);
        let ghost all = matching_from(arts, q@, 0);
        let mut out: Vec<Chunk> = Vec::new();
        let ghost mut found: Seq<ArticleV> = seq![];
        let mut i: usize = 0;
        while i < self.articles.len() && out.len() < limit
            invariant
                arts == article_views(self.articles@),
                arts.len() == self.articles.len(),
                q@ == spec_to_lowercase(query@),
                all == matching_from(arts, q@, 0),
                i <= self.articles.len(),
                found + matching_from(arts, q@, i as int) == all,
                out.len() == found.len(),
                out.len() <= limit,
                forall|k: int| 0 <= k < out.len() ==> hit_chunk(#[trigger] out@[k], found[k]),
            decreases self.articles.len() - i,
        {
            let a = &self.articles[i];
            assert(arts[i as int] == a@);
            let text = a.get_text();
            let t_low = to_lowercase(a.title.as_str());
            let x_low = to_lowercase(text);
            if str_contains(t_low.as_str(), q.as_str()) || str_contains(x_low.as_str(), q.as_str()) {
                let cs = chars_of(text);
                let end = if cs.len() <= 500 { cs.len() } else { 500 };
                let piece = string_of_range(&cs, 0, end);
                proof {
                    if cs.len() <= 500 {
                        assert(cs@.subrange(0, end as int) =~= cs@);
                    } else {
                        assert(cs@.subrange(0, end as int) =~= cs@.take(500));
                    }
                }
                let c = Chunk::new(
                    concat2(a.id.as_str(), "-chunk-0"),
                    a.id.clone(),
                    a.title.clone(),
                    0,
                    piece,
                    500,
                );
                proof {
                    found = found.push(a@);
                    assert(found + matching_from(arts, q@, i + 1) =~= all);
                }
                out.push(c);
            }
            i = i + 1;
        }
        proof {
            if out.len() < limit {
                assert(matching_from(arts, q@, i as int) =~= Seq::<ArticleV>::empty());
                assert(found =~= all);
            } else {
                assert(all.take(limit as int) =~= found);
            }
        }
        out
    }

    /// Semantic search falls back to keyword search here.
    pub fn wiki_semantic_search(&self, query: &str, limit: usize) -> (r: Vec<Chunk>)
        ensures
            r.len() == search_hits(article_views(self.articles@), query@, limit as int).len(),
            forall|k: int|
                0 <= k < r.len() ==> hit_chunk(
                    #[trigger] r@[k],
                    search_hits(article_views(self.articles@), query@, limit as int)[k],
                ),
    {
        self.wiki_search(query, limit)
    }

    /// The first article with the given title (underscores in stored titles read as spaces).
    pub fn wiki_read(&self, title: &str) -> (r: Option<Article>)
        ensures
            match find_title(article_views(self.articles@), title@, 0) {
                Some(k) => r matches Some(a) && a@ == article_views(self.articles@)[k],
                None => r is None,
            },
    {
        let ghost arts = article_views(self.articles@);
        let mut i: usize = 0;
        while i < self.articles.len()
            invariant
                arts == article_views(self.articles@),
                arts.len() == self.articles.len(),
                i <= self.articles.len(),
                find_title(arts, title@, 0) == find_title(arts, title@, i as int),
            decreases self.articles.len() - i,
        {
            let a = &self.articles[i];
            assert(arts[i as int] == a@);
            let spaced = underscores_to_spaces(a.title.as_str());
            if str_eq(a.title.as_str(), title) || str_eq(spaced.as_str(), title) {
                return Some(clone_article(a));
            }
            i = i + 1;
        }
        None
    }

    /// Related articles: none are known.
    pub fn wiki_related(&self, title: &str, limit: usize) -> (r: Vec<String>)
        ensures
            r.len() == 0,
    {
        Vec::new()
    }
}

} // verus!

verus! {

proof fn lemma_matching_from(arts: Seq<ArticleV>, q: Seq<char>, i: int)
    ensures
        forall|k: int|
            0 <= k < matching_from(arts, q, i).len() ==> article_matches(
                #[trigger] matching_from(arts, q, i)[k],
                q,
            ) && arts.contains(matching_from(arts, q, i)[k]),
    decreases arts.len() - i,
{
    if 0 <= i < arts.len() {
        lemma_matching_from(arts, q, i + 1);
        let rest = matching_from(arts, q, i + 1);
        let m = matching_from(arts, q, i);
        if article_matches(arts[i], q) {
            assert(m == seq![arts[i]] + rest);
            assert forall|k: int| 0 <= k < m.len() implies article_matches(#[trigger] m[k], q) && arts.contains(m[k]) by {
                if k == 0 {
                    assert(m[0] == arts[i]);
                } else {
                    assert(m[k] == rest[k - 1]);
                }
            }
        }
    }
}

proof fn lemma_matching_len(arts: Seq<ArticleV>, q: Seq<char>, i: int)
    requires
        0 <= i <= arts.len(),
    ensures
        matching_from(arts, q, i).len() <= arts.len() - i,
    decreases arts.len() - i,
{
    if i < arts.len() {
        lemma_matching_len(arts, q, i + 1);
    }
}

/// A keyword search returns at most `limit` hits, each one a stored article whose title or
/// text contains the query, ignoring case.
pub proof fn law_search_hits_match(arts: Seq<ArticleV>, query: Seq<char>, limit: int)
    requires
        0 <= limit,
    ensures
        search_hits(arts, query, limit).len() <= limit,
        search_hits(arts, query, limit).len() <= arts.len(),
        forall|k: int|
            0 <= k < search_hits(arts, query, limit).len() ==> (seq_contains(
                spec_to_lowercase((#[trigger] search_hits(arts, query, limit)[k]).title),
                spec_to_lowercase(query),
            ) || seq_contains(
                spec_to_lowercase(article_text(search_hits(arts, query, limit)[k])),
                spec_to_lowercase(query),
            )) && arts.contains(search_hits(arts, query, limit)[k]),
{
    let q = spec_to_lowercase(query);
    lemma_matching_from(arts, q, 0);
    lemma_matching_len(arts, q, 0);
    let m = matching_from(arts, q, 0);
    let h = search_hits(arts, query, limit);
    if m.len() > limit {
        assert forall|k: int| 0 <= k < h.len() implies article_matches(#[trigger] h[k], q) && arts.contains(h[k]) by {
            assert(h[k] == m[k]);
        }
    }
}

proof fn lemma_find_title(arts: Seq<ArticleV>, title: Seq<char>, i: int)
    requires
        0 <= i,
    ensures
        match find_title(arts, title, i) {
            Some(k) => i <= k < arts.len() && title_matches(arts[k], title) && forall|j: int|
                i <= j < k ==> !title_matches(#[trigger] arts[j], title),
            None => forall|j: int| i <= j < arts.len() ==> !title_matches(#[trigger] arts[j], title),
        },
    decreases arts.len() - i,
{
    if i < arts.len() && !title_matches(arts[i], title) {
        lemma_find_title(arts, title, i + 1);
    }
}

/// Reading by title gives the first stored article whose title is the one asked for
/// (directly, or once its underscores are spaces), and nothing when no stored title is.
pub proof fn law_read_finds_first_matching_title(arts: Seq<ArticleV>, title: Seq<char>)
    ensures
        match find_title(arts, title, 0) {
            Some(k) => 0 <= k < arts.len() && title_matches(arts[k], title) && forall|j: int|
                0 <= j < k ==> !title_matches(#[trigger] arts[j], title),
            None => forall|j: int| 0 <= j < arts.len() ==> !title_matches(#[trigger] arts[j], title),
        },
{
    lemma_find_title(arts, title, 0);
}

} // verus!

verus! {

proof fn lemma_matching_contains(arts: Seq<ArticleV>, q: Seq<char>, i: int, j: int)
    requires
        0 <= i <= j < arts.len(),
        article_matches(arts[j], q),
    ensures
        matching_from(arts, q, i).contains(arts[j]),
    decreases j - i,
{
    let m = matching_from(arts, q, i);
    if i == j {
        assert(m[0] == arts[j]);
    } else {
        lemma_matching_contains(arts, q, i + 1, j);
        let rest = matching_from(arts, q, i + 1);
        let k = choose|k: int| 0 <= k < rest.len() && rest[k] == arts[j];
        if article_matches(arts[i], q) {
            assert(m[k + 1] == rest[k]);
        } else {
            assert(m[k] == rest[k]);
        }
    }
}

/// A search misses no article while it has room: when fewer than `limit` hits come back,
/// every stored article whose title or text, lowercased, contains the lowercased query is
/// among them.
pub proof fn law_search_finds_every_match(arts: Seq<ArticleV>, query: Seq<char>, limit: int, i: int)
    requires
        0 <= i < arts.len(),
        seq_contains(spec_to_lowercase(arts[i].title), spec_to_lowercase(query)) || seq_contains(
            spec_to_lowercase(article_text(arts[i])),
            spec_to_lowercase(query),
        ),
        search_hits(arts, query, limit).len() < limit,
    ensures
        search_hits(arts, query, limit).contains(arts[i]),
{
    let q = spec_to_lowercase(query);
    lemma_matching_contains(arts, q, 0, i);
}

} // verus!
