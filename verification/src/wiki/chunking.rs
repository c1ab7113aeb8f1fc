//! Splitting articles into chunks: by section where the text has headings, by size
//! otherwise.
use vstd::prelude::*;
use vstd::string::*;
use crate::proxy::request_log::concat2;
use crate::text::{
    blen, byte_slice, char_at_byte, chars_of, decimal, find_char_at_byte, lemma_blen_take_le, lemma_blen_take_strict,
    lemma_byte_slice_chars, lemma_char_at_byte, string_of_range, u64_to_decimal,
};
use crate::wiki::model::{Article, Chunk};

verus! {

/// Whether byte offset `p` of the text falls between two characters.
pub open spec fn cut_ok(cs: Seq<char>, p: int) -> bool {
    char_at_byte(cs, 0, p) is Some
}

/// The character position of a byte offset that falls between characters.
fn char_index_of_byte(cs: &Vec<char>, p: usize) -> (k: usize)
    requires
        cut_ok(cs@, p as int),
        blen(cs@) <= usize::MAX,
    ensures
        k <= cs.len(),
        blen(cs@.take(k as int)) == p,
{
    proof {
        assert(cs@.take(0) =~= Seq::<char>::empty());
        lemma_char_at_byte(cs@, 0, p as int);
    }
    match find_char_at_byte(cs, 0, 0, p) {
        Some((k, _)) => k,
        None => 0,
    }
}

/// The text of bytes `lo..hi`, both falling between characters.
fn byte_range(cs: &Vec<char>, lo: usize, hi: usize) -> (r: String)
    requires
        lo <= hi,
        cut_ok(cs@, lo as int),
        cut_ok(cs@, hi as int),
        blen(cs@) <= usize::MAX,
    ensures
        r@ == byte_slice(cs@, lo as int, hi as int),
{
    let k1 = char_index_of_byte(cs, lo);
    let k2 = char_index_of_byte(cs, hi);
    proof {
        if k2 < k1 {
            lemma_blen_take_strict(cs@, k2 as int, k1 as int);
        }
        lemma_byte_slice_chars(cs@, k1 as int, k2 as int);
    }
    string_of_range(cs, k1, k2)
}

} // verus!

verus! {

/// The byte spans `chunk_by_size` cuts from offset `o` of a text of `len` bytes: windows of
/// `max` bytes, each starting `max - overlap` bytes after the previous one, the last ending
/// at the end of the text.
pub open spec fn size_spans(len: int, max: int, overlap: int, o: int) -> Seq<(int, int)>
    decreases len - o,
{
    if o >= len || max <= overlap || overlap < 0 {
        seq![]
    } else {
        let e = if o + max < len { o + max } else { len };
        seq![(o, e)] + if e >= len {
            seq![]
        } else {
            size_spans(len, max, overlap, o + max - overlap)
        }
    }
}

/// The id of chunk `k` of an article.
pub open spec fn chunk_id(article_id: Seq<char>, k: int) -> Seq<char> {
    article_id + "-chunk-"@ + decimal(k as nat)
}

/// A chunk as `chunk_by_size` and `chunk_article` make them: no section path, no offset, a
/// token count equal to the byte length.
pub open spec fn plain_chunk(c: Chunk, article_id: Seq<char>, title: Seq<char>, k: int, text: Seq<char>) -> bool {
    &&& c.id@ == chunk_id(article_id, k)
    &&& c.article_id@ == article_id
    &&& c.article_title@ == title
    &&& c.chunk_index == k
    &&& c.section_path is None
    &&& c.text@ == text
    &&& c.token_count == blen(text)
    &&& c.offset is None
    &&& c.length == blen(text)
}

/// Every cut of `chunk_by_size` falls between characters.
pub open spec fn size_cuts_ok(cs: Seq<char>, max: int, overlap: int) -> bool {
    let sp = size_spans(blen(cs) as int, max, overlap, 0);
    forall|k: int| 0 <= k < sp.len() ==> cut_ok(cs, #[trigger] sp[k].0) && cut_ok(cs, sp[k].1)
}

proof fn lemma_size_spans(len: int, max: int, overlap: int, o: int)
    requires
        0 <= o,
        0 <= overlap < max,
    ensures
        forall|k: int|
            0 <= k < size_spans(len, max, overlap, o).len() ==> o <= (#[trigger] size_spans(len, max, overlap, o)[k]).0
                <= size_spans(len, max, overlap, o)[k].1 <= len && size_spans(len, max, overlap, o)[k].1
                - size_spans(len, max, overlap, o)[k].0 <= max,
    decreases len - o,
{
    if o < len {
        let e = if o + max < len { o + max } else { len };
        let sp = size_spans(len, max, overlap, o);
        if e < len {
            let rest = size_spans(len, max, overlap, o + max - overlap);
            lemma_size_spans(len, max, overlap, o + max - overlap);
            assert(sp == seq![(o, e)] + rest);
            assert forall|k: int| 0 <= k < sp.len() implies o <= (#[trigger] sp[k]).0 <= sp[k].1 <= len
                && sp[k].1 - sp[k].0 <= max by {
                if k > 0 {
                    assert(sp[k] == rest[k - 1]);
                }
            }
        } else {
            assert(sp =~= seq![(o, e)]);
        }
    }
}

proof fn lemma_size_spans_cover(len: int, max: int, overlap: int, o: int)
    requires
        0 <= o < len,
        0 <= overlap < max,
    ensures
        size_spans(len, max, overlap, o).len() > 0,
        size_spans(len, max, overlap, o)[0].0 == o,
        size_spans(len, max, overlap, o).last().1 == len,
        forall|k: int|
            0 <= k < size_spans(len, max, overlap, o).len() - 1 ==> #[trigger] size_spans(len, max, overlap, o)[k].1
                == size_spans(len, max, overlap, o)[k].0 + max,
        forall|k: int|
            0 < k < size_spans(len, max, overlap, o).len() ==> #[trigger] size_spans(len, max, overlap, o)[k].0
                == size_spans(len, max, overlap, o)[k - 1].1 - overlap,
    decreases len - o,
{
    let e = if o + max < len { o + max } else { len };
    let sp = size_spans(len, max, overlap, o);
    if e >= len {
        assert(sp =~= seq![(o, e)]);
    } else {
        let o2 = o + max - overlap;
        let rest = size_spans(len, max, overlap, o2);
        lemma_size_spans_cover(len, max, overlap, o2);
        assert(sp == seq![(o, e)] + rest);
        assert(sp.last() == rest.last());
        assert forall|k: int| 0 <= k < sp.len() - 1 implies #[trigger] sp[k].1 == sp[k].0 + max by {
            if k > 0 {
                assert(sp[k] == rest[k - 1]);
            }
        }
        assert forall|k: int| 0 < k < sp.len() implies #[trigger] sp[k].0 == sp[k - 1].1 - overlap by {
            assert(sp[k] == rest[k - 1]);
            if k > 1 {
                assert(sp[k - 1] == rest[k - 2]);
            }
        }
    }
}

/// The windows `chunk_by_size` cuts cover the whole text in order: the first starts at the
/// beginning, the last ends at the end, every window but the last is `max` bytes long,
/// and each next window starts `overlap` bytes before the previous one ends.
pub proof fn law_size_windows_cover_text(len: int, max: int, overlap: int)
    requires
        0 < len,
        0 <= overlap < max,
    ensures
        size_spans(len, max, overlap, 0).len() > 0,
        size_spans(len, max, overlap, 0)[0].0 == 0,
        size_spans(len, max, overlap, 0).last().1 == len,
        forall|k: int|
            0 <= k < size_spans(len, max, overlap, 0).len() - 1 ==> #[trigger] size_spans(len, max, overlap, 0)[k].1
                == size_spans(len, max, overlap, 0)[k].0 + max,
        forall|k: int|
            0 < k < size_spans(len, max, overlap, 0).len() ==> #[trigger] size_spans(len, max, overlap, 0)[k].0
                == size_spans(len, max, overlap, 0)[k - 1].1 - overlap,
        forall|k: int|
            0 <= k < size_spans(len, max, overlap, 0).len() ==> 0 <= (#[trigger] size_spans(len, max, overlap, 0)[k]).0
                <= size_spans(len, max, overlap, 0)[k].1 <= len,
{
    lemma_size_spans_cover(len, max, overlap, 0);
    lemma_size_spans(len, max, overlap, 0);
}

/// The chunk `k` with the given text.
fn make_chunk(article_id: &str, title: &str, k: usize, text: String) -> (c: Chunk)
    ensures
        plain_chunk(c, article_id@, title@, k as int, text@),
{
    let n = u64_to_decimal(k as u64);
    let a = concat2(article_id, "-chunk-");
    let id = concat2(a.as_str(), n.as_str());
    let len = crate::text::byte_len(text.as_str());
    Chunk::new(id, String::from_str(article_id), String::from_str(title), k, text, len)
}

/// Cuts a text into overlapping windows of `max_size` bytes; `overlap` bytes of each window
/// are repeated at the start of the next.
pub fn chunk_by_size(text: &str, title: &str, article_id: &str, max_size: usize, overlap: usize) -> (r: Vec<Chunk>)
    requires
        overlap < max_size,
        size_cuts_ok(text@, max_size as int, overlap as int),
    ensures
        r.len() == size_spans(blen(text@) as int, max_size as int, overlap as int, 0).len(),
        forall|k: int|
            0 <= k < r.len() ==> plain_chunk(
                #[trigger] r@[k],
                article_id@,
                title@,
                k,
                byte_slice(
                    text@,
                    size_spans(blen(text@) as int, max_size as int, overlap as int, 0)[k].0,
                    size_spans(blen(text@) as int, max_size as int, overlap as int, 0)[k].1,
                ),
            ),
{
    let cs = chars_of(text);
    let len = crate::text::byte_len(text);
    let ghost sp = size_spans(len as int, max_size as int, overlap as int, 0);
    proof {
        lemma_size_spans(len as int, max_size as int, overlap as int, 0);
    }
    let mut chunks: Vec<Chunk> = Vec::new();
    let mut index: usize = 0;
    let mut offset: usize = 0;
    while offset < len
        invariant
            cs@ == text@,
            len == blen(text@),
            overlap < max_size,
            sp == size_spans(len as int, max_size as int, overlap as int, 0),
            size_cuts_ok(text@, max_size as int, overlap as int),
            forall|k: int| 0 <= k < sp.len() ==> 0 <= (#[trigger] sp[k]).0 <= sp[k].1 <= len,
            chunks.len() == index,
            index <= offset <= len,
            index <= sp.len(),
            offset < len ==> sp.len() > index,
            sp.skip(index as int) == size_spans(len as int, max_size as int, overlap as int, offset as int),
            forall|k: int|
                0 <= k < index ==> plain_chunk(#[trigger] chunks@[k], article_id@, title@, k, byte_slice(text@, sp[k].0, sp[k].1)),
        decreases len - offset,
    {
        let end = if max_size < len - offset { offset + max_size } else { len };
        proof {
            assert(sp.skip(index as int)[0] == sp[index as int]);
            assert(sp[index as int] == (offset as int, end as int));
            assert(cut_ok(text@, sp[index as int].0) && cut_ok(text@, sp[index as int].1));
        }
        let piece = byte_range(&cs, offset, end);
        let c = make_chunk(article_id, title, index, piece);
        chunks.push(c);
        let ghost old_offset = offset;
        offset = if end >= len {
            end
        } else {
            offset + max_size - overlap
        };
        proof {
            assert(sp.skip(index + 1) =~= sp.skip(index as int).drop_first());
            if end < len {
                assert(size_spans(len as int, max_size as int, overlap as int, old_offset as int).drop_first()
                    =~= size_spans(len as int, max_size as int, overlap as int, offset as int));
            } else {
                assert(size_spans(len as int, max_size as int, overlap as int, old_offset as int).drop_first()
                    =~= Seq::<(int, int)>::empty());
            }
        }
        index = index + 1;
    }
    proof {
        assert(sp.skip(index as int).len() == 0);
    }
    chunks
}

} // verus!

verus! {

/// The heading pattern: a line of two to six `=` around a title.
pub open spec fn heading_pattern() -> Seq<char> {
    r"(?m)^={2,6}\s*(.+?)\s*={2,6}\s*\n"@
}

/// First position at or after `i` holding `c`.
pub open spec fn index_of(s: Seq<char>, c: char, i: int) -> Option<int>
    decreases s.len() - i,
{
    if i < 0 || i >= s.len() {
        None
    } else if s[i] == c {
        Some(i)
    } else {
        index_of(s, c, i + 1)
    }
}

/// The second piece of `s` split at `=` (empty when there is none).
pub open spec fn second_eq_piece(s: Seq<char>) -> Seq<char> {
    match index_of(s, '=', 0) {
        None => seq![],
        Some(i) => match index_of(s, '=', i + 1) {
            None => s.subrange(i + 1, s.len() as int),
            Some(j) => s.subrange(i + 1, j),
        },
    }
}

/// The sections of a text: for each heading match, the trimmed second `=`-piece of the
/// heading line, and the text up to the next heading (or the end); preceded by the text
/// before the first heading, when that is not blank.
pub open spec fn spec_sections(cs: Seq<char>) -> Seq<(Option<Seq<char>>, Seq<char>)> {
    let p = heading_pattern();
    let ms = crate::wiki::clean::spec_regex_find_iter(p, cs);
    let secs = Seq::new(
        ms.len(),
        |k: int|
            (
                Some(crate::text::spec_trim(second_eq_piece(byte_slice(cs, ms[k].0, ms[k].1)))),
                byte_slice(
                    cs,
                    ms[k].1,
                    match crate::wiki::clean::spec_regex_find_at(p, cs, ms[k].1) {
                        Some(m) => m.0,
                        None => blen(cs) as int,
                    },
                ),
            ),
    );
    match crate::wiki::clean::spec_regex_find_at(p, cs, 0) {
        Some(m) => {
            let intro = byte_slice(cs, 0, m.0);
            if crate::text::spec_trim(intro).len() > 0 {
                seq![(None, intro)] + secs
            } else {
                secs
            }
        },
        None => secs,
    }
}

fn index_of_exec(cs: &Vec<char>, c: char, i: usize) -> (r: Option<usize>)
    requires
        i <= cs.len(),
    ensures
        match r {
            Some(k) => index_of(cs@, c, i as int) == Some(k as int) && k < cs.len(),
            None => index_of(cs@, c, i as int) is None,
        },
{
    let mut k = i;
    while k < cs.len()
        invariant
            i <= k <= cs.len(),
            index_of(cs@, c, i as int) == index_of(cs@, c, k as int),
        decreases cs.len() - k,
    {
        if cs[k] == c {
            return Some(k);
        }
        k = k + 1;
    }
    None
}

/// The second `=`-piece of a heading line.
fn second_eq_piece_exec(s: &str) -> (r: String)
    ensures
        r@ == second_eq_piece(s@),
{
    let cs = chars_of(s);
    match index_of_exec(&cs, '=', 0) {
        None => String::new(),
        Some(i) => match index_of_exec(&cs, '=', i + 1) {
            None => string_of_range(&cs, i + 1, cs.len()),
            Some(j) => {
                proof {
                    lemma_index_of(cs@, '=', i + 1);
                }
                string_of_range(&cs, i + 1, j)
            },
        },
    }
}

proof fn lemma_index_of(s: Seq<char>, c: char, i: int)
    requires
        index_of(s, c, i) is Some,
    ensures
        i <= index_of(s, c, i)->0 < s.len(),
    decreases s.len() - i,
{
    if i >= 0 && i < s.len() && s[i] != c {
        lemma_index_of(s, c, i + 1);
    }
}

/// A byte offset at the very start or end of a text falls between characters.
proof fn lemma_cut_ends(cs: Seq<char>)
    ensures
        cut_ok(cs, 0),
        cut_ok(cs, blen(cs) as int),
{
    assert(cs.take(0) =~= Seq::<char>::empty());
    lemma_char_at_byte_end(cs, 0);
}

proof fn lemma_char_at_byte_end(cs: Seq<char>, i: int)
    requires
        0 <= i <= cs.len(),
    ensures
        char_at_byte(cs, i, blen(cs) as int) is Some,
    decreases cs.len() - i,
{
    if i == cs.len() {
        assert(cs.take(i) =~= cs);
    } else {
        if blen(cs.take(i)) == blen(cs) {
        } else {
            lemma_blen_take_le(cs, i);
            lemma_char_at_byte_end(cs, i + 1);
        }
    }
}

/// One section of a text: heading and content.
#[derive(Debug)]
pub struct Section {
    pub heading: Option<String>,
    pub content: String,
}

pub open spec fn section_views(v: Seq<Section>) -> Seq<(Option<Seq<char>>, Seq<char>)> {
    v.map_values(|s: Section| (match s.heading {
        Some(h) => Some(h@),
        None => None,
    }, s.content@))
}

/// Splits a text at its headings.
pub fn split_by_sections(text: &str) -> (r: Vec<Section>)
    requires
        crate::wiki::clean::spec_regex_compiles(heading_pattern()),
    ensures
        section_views(r@) == spec_sections(text@),
{
    let p = r"(?m)^={2,6}\s*(.+?)\s*={2,6}\s*\n";
    let cs = chars_of(text);
    let len = crate::text::byte_len(text);
    proof {
        lemma_cut_ends(text@);
    }
    let ms = crate::wiki::clean::regex_find_iter(p, text);
    let ghost msv = crate::wiki::clean::spans_view(ms@);
    let mut secs: Vec<Section> = Vec::new();
    let mut k: usize = 0;
    while k < ms.len()
        invariant
            cs@ == text@,
            len == blen(text@),
            cut_ok(text@, 0),
            cut_ok(text@, len as int),
            crate::wiki::clean::spec_regex_compiles(heading_pattern()),
            p@ == heading_pattern(),
            msv == crate::wiki::clean::spans_view(ms@),
            msv == crate::wiki::clean::spec_regex_find_iter(heading_pattern(), text@),
            forall|i: int| 0 <= i < ms@.len() ==> #[trigger] crate::wiki::clean::match_span_ok(text@, msv[i]),
            k <= ms.len(),
            secs.len() == k,
            forall|i: int| 0 <= i < k ==> #[trigger] section_views(secs@)[i] == (
                Some(crate::text::spec_trim(second_eq_piece(byte_slice(text@, msv[i].0, msv[i].1)))),
                byte_slice(
                    text@,
                    msv[i].1,
                    match crate::wiki::clean::spec_regex_find_at(heading_pattern(), text@, msv[i].1) {
                        Some(m) => m.0,
                        None => blen(text@) as int,
                    },
                ),
            ),
        decreases ms.len() - k,
    {
        let (s, e) = ms[k];
        assert(crate::wiki::clean::match_span_ok(text@, msv[k as int]));
        let line = byte_range(&cs, s, e);
        let piece = second_eq_piece_exec(line.as_str());
        let heading = crate::text::trim(piece.as_str());
        let next = crate::wiki::clean::regex_find_at(p, text, e);
        let stop = match next {
            Some((ns, _)) => ns,
            None => len,
        };
        let content = byte_range(&cs, e, stop);
        let ghost old_secs = secs@;
        secs.push(Section { heading: Some(heading), content });
        proof {
            assert(section_views(secs@) =~= section_views(old_secs).push(section_views(secs@)[k as int]));
        }
        k = k + 1;
    }
    let ghost body = section_views(secs@);
    proof {
        assert(body =~= Seq::new(
            msv.len(),
            |i: int|
                (
                    Some(crate::text::spec_trim(second_eq_piece(byte_slice(text@, msv[i].0, msv[i].1)))),
                    byte_slice(
                        text@,
                        msv[i].1,
                        match crate::wiki::clean::spec_regex_find_at(heading_pattern(), text@, msv[i].1) {
                            Some(m) => m.0,
                            None => blen(text@) as int,
                        },
                    ),
                ),
        ));
    }
    match crate::wiki::clean::regex_find_at(p, text, 0) {
        Some((fs, _)) => {
            let intro = byte_range(&cs, 0, fs);
            if !crate::text::is_blank(intro.as_str()) {
                secs.insert(0, Section { heading: None, content: intro });
                proof {
                    assert(section_views(secs@) =~= seq![(None, byte_slice(text@, 0, fs as int))] + body);
                }
            }
        },
        None => {},
    }
    secs
}

} // verus!

verus! {

/// The text a section contributes: its heading on a line of its own, then its content.
pub open spec fn section_text(sec: (Option<Seq<char>>, Seq<char>)) -> Seq<char> {
    match sec.0 {
        Some(h) => h + "\n"@ + sec.1,
        None => sec.1,
    }
}

/// Packs the sections from `i` on into chunk texts: sections are joined with a blank line
/// while the chunk stays within `max` bytes; a section that would overflow a non-empty chunk
/// starts the next one. `done` are the chunks closed so far, `cur` the one being filled.
pub open spec fn pack_sections(
    secs: Seq<(Option<Seq<char>>, Seq<char>)>,
    max: int,
    i: int,
    done: Seq<Seq<char>>,
    cur: Seq<char>,
) -> Seq<Seq<char>>
    decreases secs.len() - i,
{
    if i < 0 || i >= secs.len() {
        if cur.len() > 0 {
            done.push(cur)
        } else {
            done
        }
    } else {
        let st = section_text(secs[i]);
        if blen(cur) + blen(st) > max && cur.len() > 0 {
            pack_sections(secs, max, i + 1, done.push(cur), st)
        } else {
            pack_sections(secs, max, i + 1, done, if cur.len() > 0 { cur + "\n\n"@ + st } else { cur + st })
        }
    }
}

/// What `chunk_article` needs: the heading pattern compiles and, for a text without
/// sections, the size fallback can advance and cuts between characters.
pub open spec fn chunk_article_ok(cs: Seq<char>, max: int, overlap: int) -> bool {
    &&& crate::wiki::clean::spec_regex_compiles(heading_pattern())
    &&& spec_sections(cs).len() == 0 ==> (overlap < max && size_cuts_ok(cs, max, overlap))
}

/// The chunk texts of an article: packed sections, or size windows when there are none.
pub open spec fn spec_chunk_texts(cs: Seq<char>, max: int, overlap: int) -> Seq<Seq<char>> {
    let secs = spec_sections(cs);
    if secs.len() == 0 {
        let sp = size_spans(blen(cs) as int, max, overlap, 0);
        Seq::new(sp.len(), |k: int| byte_slice(cs, sp[k].0, sp[k].1))
    } else {
        pack_sections(secs, max, 0, seq![], seq![])
    }
}

/// The text of a section.
fn section_text_exec(sec: &Section) -> (r: String)
    ensures
        r@ == section_text((
            match sec.heading {
                Some(h) => Some(h@),
                None => None,
            },
            sec.content@,
        )),
{
    match &sec.heading {
        Some(h) => {
            let a = concat2(h.as_str(), "\n");
            concat2(a.as_str(), sec.content.as_str())
        },
        None => String::from_str(sec.content.as_str()),
    }
}

/// Splits an article into chunks: sections packed up to `max_size` bytes, or windows of
/// `max_size` bytes overlapping by `overlap` bytes when the text has no headings.
pub fn chunk_article(article: &Article, max_size: usize, overlap: usize) -> (r: Vec<Chunk>)
    requires
        chunk_article_ok(
            match article.cleaned_text {
                Some(c) => c@,
                None => article.text@,
            },
            max_size as int,
            overlap as int,
        ),
    ensures
        r.len() == spec_chunk_texts(
            match article.cleaned_text {
                Some(c) => c@,
                None => article.text@,
            },
            max_size as int,
            overlap as int,
        ).len(),
        forall|k: int|
            0 <= k < r.len() ==> plain_chunk(
                #[trigger] r@[k],
                article.id@,
                article.title@,
                k,
                spec_chunk_texts(
                    match article.cleaned_text {
                        Some(c) => c@,
                        None => article.text@,
                    },
                    max_size as int,
                    overlap as int,
                )[k],
            ),
{
    let text = article.get_text();
    let sections = split_by_sections(text);
    if sections.len() == 0 {
        let r = chunk_by_size(text, article.title.as_str(), article.id.as_str(), max_size, overlap);
        return r;
    }
    let ghost secs = section_views(sections@);
    let ghost total = pack_sections(secs, max_size as int, 0, seq![], seq![]);
    let mut chunks: Vec<Chunk> = Vec::new();
    let ghost mut done: Seq<Seq<char>> = seq![];
    let mut current = String::new();
    let mut i: usize = 0;
    while i < sections.len()
        invariant
            secs == section_views(sections@),
            secs.len() == sections.len(),
            i <= sections.len(),
            total == pack_sections(secs, max_size as int, 0, seq![], seq![]),
            pack_sections(secs, max_size as int, i as int, done, current@) == total,
            chunks.len() == done.len(),
            forall|k: int|
                0 <= k < done.len() ==> plain_chunk(#[trigger] chunks@[k], article.id@, article.title@, k, done[k]),
        decreases sections.len() - i,
    {
        let st = section_text_exec(&sections[i]);
        proof {
            assert(secs[i as int] == (
                match sections@[i as int].heading {
                    Some(h) => Some(h@),
                    None => None,
                },
                sections@[i as int].content@,
            ));
        }
        let cur_len = crate::text::byte_len(current.as_str());
        let st_len = crate::text::byte_len(st.as_str());
        let overflow = cur_len > max_size || st_len > max_size - cur_len;
        let cur_empty = current.as_str().is_empty();
        proof {
            assert(cur_empty == (current@.len() == 0));
        }
        if overflow && !cur_empty {
            let index = chunks.len();
            let closing = current;
            proof {
                done = done.push(closing@);
            }
            chunks.push(make_chunk(article.id.as_str(), article.title.as_str(), index, closing));
            current = st;
        } else {
            if !cur_empty {
                let a = concat2(current.as_str(), "\n\n");
                current = concat2(a.as_str(), st.as_str());
            } else {
                current = concat2(current.as_str(), st.as_str());
            }
        }
        i = i + 1;
    }
    if !current.as_str().is_empty() {
        let index = chunks.len();
        proof {
            done = done.push(current@);
        }
        chunks.push(make_chunk(article.id.as_str(), article.title.as_str(), index, current));
    }
    chunks
}

} // verus!

verus! {

/// Whether byte offset `p` falls between two characters.
fn is_cut(cs: &Vec<char>, p: usize) -> (b: bool)
    requires
        blen(cs@) <= usize::MAX,
    ensures
        b == cut_ok(cs@, p as int),
{
    proof {
        assert(cs@.take(0) =~= Seq::<char>::empty());
    }
    match find_char_at_byte(cs, 0, 0, p) {
        Some(_) => true,
        None => false,
    }
}

/// Whether every window edge of `chunk_by_size` falls between characters.
fn size_cuts_hold(cs: &Vec<char>, len: usize, max_size: usize, overlap: usize) -> (b: bool)
    requires
        overlap < max_size,
        len == blen(cs@),
    ensures
        b == size_cuts_ok(cs@, max_size as int, overlap as int),
{
    let ghost sp = size_spans(len as int, max_size as int, overlap as int, 0);
    let mut index: usize = 0;
    let mut offset: usize = 0;
    while offset < len
        invariant
            len == blen(cs@),
            overlap < max_size,
            sp == size_spans(len as int, max_size as int, overlap as int, 0),
            index <= offset <= len,
            index <= sp.len(),
            offset < len ==> sp.len() > index,
            sp.skip(index as int) == size_spans(len as int, max_size as int, overlap as int, offset as int),
            forall|k: int| 0 <= k < index ==> cut_ok(cs@, #[trigger] sp[k].0) && cut_ok(cs@, sp[k].1),
        decreases len - offset,
    {
        let end = if max_size < len - offset { offset + max_size } else { len };
        proof {
            assert(sp.skip(index as int)[0] == sp[index as int]);
            assert(sp[index as int] == (offset as int, end as int));
        }
        let start_ok = is_cut(cs, offset);
        let end_ok = is_cut(cs, end);
        if !start_ok || !end_ok {
            proof {
                assert(!size_cuts_ok(cs@, max_size as int, overlap as int)) by {
                    if size_cuts_ok(cs@, max_size as int, overlap as int) {
                        let sp2 = size_spans(blen(cs@) as int, max_size as int, overlap as int, 0);
                        assert(sp2 == sp);
                        assert(cut_ok(cs@, sp2[index as int].0) && cut_ok(cs@, sp2[index as int].1));
                    }
                }
            }
            return false;
        }
        proof {
            assert forall|k: int| 0 <= k < index + 1 implies cut_ok(cs@, #[trigger] sp[k].0) && cut_ok(cs@, sp[k].1) by {
                if k < index {
                    assert(cut_ok(cs@, sp[k].0));
                }
            }
        }
        let ghost old_offset = offset;
        offset = if end >= len {
            end
        } else {
            offset + max_size - overlap
        };
        proof {
            assert(sp.skip(index + 1) =~= sp.skip(index as int).drop_first());
            if end < len {
                assert(size_spans(len as int, max_size as int, overlap as int, old_offset as int).drop_first()
                    =~= size_spans(len as int, max_size as int, overlap as int, offset as int));
            } else {
                assert(size_spans(len as int, max_size as int, overlap as int, old_offset as int).drop_first()
                    =~= Seq::<(int, int)>::empty());
            }
        }
        index = index + 1;
    }
    proof {
        assert(sp.skip(index as int).len() == 0);
        let sp2 = size_spans(blen(cs@) as int, max_size as int, overlap as int, 0);
        assert(sp2 == sp);
        assert forall|k: int| 0 <= k < sp2.len() implies cut_ok(cs@, #[trigger] sp2[k].0) && cut_ok(cs@, sp2[k].1) by {
            assert(cut_ok(cs@, sp[k].0));
        }
        assert(size_cuts_ok(cs@, max_size as int, overlap as int));
    }
    true
}

/// Splits an article as `chunk_article` does wherever that is possible, and `None` where it
/// is not: the heading pattern does not compile, or the text has no headings and its size
/// windows cannot be cut (an overlap not below `max_size`, or a window edge inside a
/// character).
pub fn try_chunk_article(article: &Article, max_size: usize, overlap: usize) -> (r: Option<Vec<Chunk>>)
    ensures
        r is Some <==> chunk_article_ok(
            match article.cleaned_text {
                Some(c) => c@,
                None => article.text@,
            },
            max_size as int,
            overlap as int,
        ),
        r matches Some(v) ==> v.len() == spec_chunk_texts(
            match article.cleaned_text {
                Some(c) => c@,
                None => article.text@,
            },
            max_size as int,
            overlap as int,
        ).len(),
        r matches Some(v) ==> forall|k: int|
            0 <= k < v.len() ==> plain_chunk(
                #[trigger] v@[k],
                article.id@,
                article.title@,
                k,
                spec_chunk_texts(
                    match article.cleaned_text {
                        Some(c) => c@,
                        None => article.text@,
                    },
                    max_size as int,
                    overlap as int,
                )[k],
            ),
{
    let p = r"(?m)^={2,6}\s*(.+?)\s*={2,6}\s*\n";
    if !crate::wiki::clean::regex_compiles(p) {
        return None;
    }
    let text = article.get_text();
    let sections = split_by_sections(text);
    assert(section_views(sections@).len() == sections.len());
    if sections.len() == 0 {
        if overlap >= max_size {
            return None;
        }
        let cs = chars_of(text);
        let len = crate::text::byte_len(text);
        if !size_cuts_hold(&cs, len, max_size, overlap) {
            return None;
        }
    }
    Some(chunk_article(article, max_size, overlap))
}

} // verus!
