//! Character-level text utilities shared by the proxy logs, the SSE synthesis and the wiki cleaner.
use vstd::prelude::*;
use vstd::string::*;
use vstd::utf8::*;

verus! {

broadcast use {vstd::string::group_string_axioms, vstd::utf8::encode_utf8_decode_utf8};

pub assume_specification[ String::push ](s: &mut String, ch: char)
    ensures
        final(s)@ == old(s)@.push(ch),
;

/// The characters of `s`, in order.
pub fn chars_of(s: &str) -> (v: Vec<char>)
    ensures
        v@ == s@,
{
    let mut v: Vec<char> = Vec::new();
    for c in it: s.chars()
        invariant
            v@ == it.seq().take(it.index() as int),
            it.seq() == s@,
    {
        v.push(c);
    }
    v
}

} // verus!

verus! {

/// Unicode `White_Space`: the characters `char::is_whitespace` accepts.
pub open spec fn is_ws(c: char) -> bool {
    let u = c as u32;
    ||| 0x9 <= u <= 0xD
    ||| u == 0x20
    ||| u == 0x85
    ||| u == 0xA0
    ||| u == 0x1680
    ||| 0x2000 <= u <= 0x200A
    ||| u == 0x2028
    ||| u == 0x2029
    ||| u == 0x202F
    ||| u == 0x205F
    ||| u == 0x3000
}

/// Whether `c` is Unicode whitespace.
pub fn is_whitespace(c: char) -> (b: bool)
    ensures
        b == is_ws(c),
{
    let u = c as u32;
    (0x9 <= u && u <= 0xD) || u == 0x20 || u == 0x85 || u == 0xA0 || u == 0x1680 || (0x2000 <= u
        && u <= 0x200A) || u == 0x2028 || u == 0x2029 || u == 0x202F || u == 0x205F || u == 0x3000
}

/// The text with every run of whitespace collapsed to one space and no whitespace at either end.
pub open spec fn collapse_ws(s: Seq<char>) -> Seq<char>
    decreases s.len(),
{
    if s.len() == 0 {
        seq![]
    } else {
        let prev = collapse_ws(s.drop_last());
        let c = s.last();
        if is_ws(c) {
            prev
        } else if s.len() >= 2 && is_ws(s[s.len() - 2]) && prev.len() > 0 {
            prev.push(' ').push(c)
        } else {
            prev.push(c)
        }
    }
}

/// Newlines and tabs become spaces, runs of whitespace become one space, ends are trimmed.
pub fn normalize_whitespace(s: &str) -> (r: String)
    ensures
        r@ == collapse_ws(s@),
{
    let cs = chars_of(s);
    let mut r = String::new();
    let mut i: usize = 0;
    while i < cs.len()
        invariant
            0 <= i <= cs.len(),
            cs@ == s@,
            r@ == collapse_ws(cs@.take(i as int)),
        decreases cs.len() - i,
    {
        let c = cs[i];
        assert(cs@.take(i + 1).drop_last() =~= cs@.take(i as int));
        if is_whitespace(c) {
        } else if i >= 1 && is_whitespace(cs[i - 1]) && !r.as_str().is_empty() {
            r.push(' ');
            r.push(c);
        } else {
            r.push(c);
        }
        i = i + 1;
    }
    assert(cs@.take(cs.len() as int) =~= cs@);
    r
}

} // verus!

verus! {

/// Index of the first non-whitespace character at or after `i` (or the length).
pub open spec fn first_non_ws(s: Seq<char>, i: int) -> int
    decreases s.len() - i,
{
    if i < 0 || i >= s.len() {
        s.len() as int
    } else if !is_ws(s[i]) {
        i
    } else {
        first_non_ws(s, i + 1)
    }
}

/// One past the last non-whitespace character before `j` (or 0).
pub open spec fn non_ws_end(s: Seq<char>, j: int) -> int
    decreases j,
{
    if j <= 0 || j > s.len() {
        0
    } else if !is_ws(s[j - 1]) {
        j
    } else {
        non_ws_end(s, j - 1)
    }
}

/// `s` without leading and trailing Unicode whitespace.
pub open spec fn spec_trim(s: Seq<char>) -> Seq<char> {
    let a = first_non_ws(s, 0);
    let b = non_ws_end(s, s.len() as int);
    if a < b {
        s.subrange(a, b)
    } else {
        seq![]
    }
}

proof fn lemma_first_non_ws(s: Seq<char>, i: int)
    requires
        0 <= i <= s.len(),
    ensures
        i <= first_non_ws(s, i) <= s.len(),
        first_non_ws(s, i) < s.len() ==> !is_ws(s[first_non_ws(s, i)]),
    decreases s.len() - i,
{
    if i < s.len() && is_ws(s[i]) {
        lemma_first_non_ws(s, i + 1);
    }
}

proof fn lemma_non_ws_end(s: Seq<char>, j: int)
    requires
        0 <= j <= s.len(),
    ensures
        0 <= non_ws_end(s, j) <= j,
        non_ws_end(s, j) > 0 ==> !is_ws(s[non_ws_end(s, j) - 1]),
    decreases j,
{
    if j > 0 && is_ws(s[j - 1]) {
        lemma_non_ws_end(s, j - 1);
    }
}

/// A trimmed text neither begins nor ends with whitespace.
pub proof fn law_trimmed_has_no_outer_whitespace(s: Seq<char>)
    ensures
        spec_trim(s).len() > 0 ==> !is_ws(spec_trim(s)[0]) && !is_ws(spec_trim(s).last()),
{
    lemma_first_non_ws(s, 0);
    lemma_non_ws_end(s, s.len() as int);
}

/// The characters `cs[lo..hi]` as a string.
pub fn string_of_range(cs: &Vec<char>, lo: usize, hi: usize) -> (r: String)
    requires
        lo <= hi <= cs.len(),
    ensures
        r@ == cs@.subrange(lo as int, hi as int),
{
    let mut r = String::new();
    let mut i = lo;
    while i < hi
        invariant
            lo <= i <= hi <= cs.len(),
            r@ == cs@.subrange(lo as int, i as int),
        decreases hi - i,
    {
        r.push(cs[i]);
        assert(cs@.subrange(lo as int, i + 1) =~= cs@.subrange(lo as int, i as int).push(cs@[i as int]));
        i = i + 1;
    }
    r
}

/// `s` without leading and trailing Unicode whitespace (as `str::trim`).
pub fn trim(s: &str) -> (r: String)
    ensures
        r@ == spec_trim(s@),
{
    let cs = chars_of(s);
    let mut a: usize = 0;
    while a < cs.len() && is_whitespace(cs[a])
        invariant
            a <= cs.len(),
            cs@ == s@,
            first_non_ws(s@, 0) == first_non_ws(s@, a as int),
        decreases cs.len() - a,
    {
        a = a + 1;
    }
    let mut b: usize = cs.len();
    while b > 0 && is_whitespace(cs[b - 1])
        invariant
            b <= cs.len(),
            cs@ == s@,
            non_ws_end(s@, s@.len() as int) == non_ws_end(s@, b as int),
        decreases b,
    {
        b = b - 1;
    }
    if a < b {
        string_of_range(&cs, a, b)
    } else {
        String::new()
    }
}

/// Whether the trimmed text is empty (the whole text is whitespace).
pub fn is_blank(s: &str) -> (b: bool)
    ensures
        b == (spec_trim(s@).len() == 0),
{
    let t = trim(s);
    t.as_str().is_empty()
}

} // verus!

verus! {


/// Byte length of the UTF-8 encoding of `cs`.
pub open spec fn blen(cs: Seq<char>) -> nat {
    encode_utf8(cs).len()
}

/// Encoding distributes over concatenation.
pub proof fn lemma_encode_concat(a: Seq<char>, b: Seq<char>)
    ensures
        encode_utf8(a + b) == encode_utf8(a) + encode_utf8(b),
    decreases a.len(),
{
    if a.len() == 0 {
        assert(a + b =~= b);
        assert(encode_utf8(a) + encode_utf8(b) =~= encode_utf8(b));
    } else {
        lemma_encode_concat(a.drop_first(), b);
        assert((a + b).drop_first() =~= a.drop_first() + b);
        assert((a + b)[0] == a[0]);
        assert(encode_utf8(a + b) =~= encode_scalar(a[0] as u32) + (encode_utf8(a.drop_first())
            + encode_utf8(b)));
    }
}

/// Byte length of a prefix grows by the width of the next character.
pub proof fn lemma_blen_take_step(cs: Seq<char>, k: int)
    requires
        0 <= k < cs.len(),
    ensures
        blen(cs.take(k + 1)) == blen(cs.take(k)) + encode_scalar(cs[k] as u32).len(),
{
    let a = cs.take(k);
    let b = seq![cs[k]];
    assert(cs.take(k + 1) =~= a + b);
    lemma_encode_concat(a, b);
    assert(b.drop_first() =~= Seq::<char>::empty());
    reveal_with_fuel(encode_utf8, 2);
    assert(encode_utf8(b) =~= encode_scalar(cs[k] as u32));
}

/// Number of bytes `c` takes in UTF-8 (`char::len_utf8`).
pub fn utf8_width(c: char) -> (w: usize)
    ensures
        w == encode_scalar(c as u32).len(),
        1 <= w <= 4,
{
    proof {
        vstd::utf8::char_is_scalar(c);
    }
    let u = c as u32;
    if u <= 0x7F {
        1
    } else if u <= 0x7FF {
        2
    } else if u <= 0xFFFF {
        3
    } else {
        4
    }
}

/// Length of `s` in bytes (`str::len`).
pub fn byte_len(s: &str) -> (n: usize)
    ensures
        n == blen(s@),
{
    s.as_bytes().len()
}

/// Characters decoded from a byte range of `s`'s UTF-8 encoding.
pub open spec fn byte_slice(s: Seq<char>, lo: int, hi: int) -> Seq<char> {
    decode_utf8(encode_utf8(s).subrange(lo, hi))
}

/// First `max_len - 3` bytes followed by "..." when longer than `max_len` bytes.
pub open spec fn spec_truncate(s: Seq<char>, max_len: nat) -> Seq<char> {
    if blen(s) <= max_len {
        s
    } else {
        byte_slice(s, 0, if max_len >= 3 { max_len - 3 } else { 0 }) + "..."@
    }
}

/// Truncate a string to `max_len` bytes, marking the cut with "...".
pub fn truncate(s: &str, max_len: usize) -> (r: String)
    requires
        blen(s@) > max_len ==> is_char_boundary(
            s.spec_bytes(),
            if max_len >= 3 { max_len - 3 } else { 0 },
        ),
    ensures
        r@ == spec_truncate(s@, max_len as nat),
{
    if byte_len(s) <= max_len {
        String::from_str(s)
    } else {
        let k: usize = if max_len >= 3 { max_len - 3 } else { 0 };
        let (p, _rest) = s.split_at(k);
        proof {
            assert(p@ == decode_utf8(encode_utf8(p@)));
            assert(encode_utf8(p@) == encode_utf8(s@).subrange(0, k as int));
        }
        let mut r = String::from_str(p);
        r.append("...");
        r
    }
}

/// A long message keeps its first 25 and last 75 characters around " ... ".
pub open spec fn spec_truncate_message(s: Seq<char>) -> Seq<char> {
    if s.len() <= 100 {
        s
    } else {
        s.take(25) + " ... "@ + s.skip(s.len() - 75)
    }
}

/// Messages of at most 100 characters are kept whole; longer ones become their first 25
/// characters, " ... " and their last 75 characters.
pub fn truncate_message(s: &str) -> (r: String)
    ensures
        r@ == spec_truncate_message(s@),
{
    let cs = chars_of(s);
    let n = cs.len();
    if n <= 100 {
        return String::from_str(s);
    }
    let prefix = string_of_range(&cs, 0, 25);
    let suffix = string_of_range(&cs, n - 75, n);
    let mut r = prefix;
    r.append(" ... ");
    r.append(suffix.as_str());
    assert(cs@.subrange(0, 25) =~= s@.take(25));
    assert(cs@.subrange(n - 75, n as int) =~= s@.skip(n - 75));
    r
}

/// A shortened message is exactly 105 characters long (its first 25 characters, ` ... `
/// and its last 75 characters); a message of at most 100 characters is kept as it is.
pub proof fn law_truncate_message_length(s: Seq<char>)
    ensures
        spec_truncate_message(s).len() == if s.len() <= 100 {
            s.len() as int
        } else {
            105
        },
{
    if s.len() > 100 {
        reveal_strlit(" ... ");
        assert(" ... "@.len() == 5);
    }
}

} // verus!

verus! {

/// A prefix never encodes to more bytes than the whole.
pub proof fn lemma_blen_take_le(cs: Seq<char>, k: int)
    requires
        0 <= k <= cs.len(),
    ensures
        blen(cs.take(k)) <= blen(cs),
{
    assert(cs =~= cs.take(k) + cs.skip(k));
    lemma_encode_concat(cs.take(k), cs.skip(k));
}

/// The char index `k >= i` whose UTF-8 prefix is exactly `p` bytes long, if `p` falls between
/// characters.
pub open spec fn char_at_byte(cs: Seq<char>, i: int, p: int) -> Option<int>
    decreases cs.len() - i,
{
    if i < 0 || i > cs.len() {
        None
    } else if blen(cs.take(i)) == p {
        Some(i)
    } else if blen(cs.take(i)) > p || i == cs.len() {
        None
    } else {
        char_at_byte(cs, i + 1, p)
    }
}

/// Index of the last whitespace character in `cs[lo..hi]`.
pub open spec fn last_ws_in(cs: Seq<char>, lo: int, hi: int) -> Option<int>
    decreases hi - lo,
{
    if hi <= lo {
        None
    } else if is_ws(cs[hi - 1]) {
        Some(hi - 1)
    } else {
        last_ws_in(cs, lo, hi - 1)
    }
}

/// Char index where the piece starting at char `s` ends: the end of the text when it is
/// within `max` characters, else just after the last whitespace among the next `max`
/// characters, or after all `max` of them when they hold none.
pub open spec fn piece_end(cs: Seq<char>, s: int, max: nat) -> int {
    if s + max >= cs.len() {
        cs.len() as int
    } else {
        match last_ws_in(cs, s, s + max) {
            None => s + max,
            Some(w) => w + 1,
        }
    }
}

/// The pieces that `cs[s..]` is cut into.
pub open spec fn pieces_from(cs: Seq<char>, s: int, max: nat) -> Seq<Seq<char>>
    decreases cs.len() - s,
{
    if s < 0 || s >= cs.len() || max == 0 {
        seq![]
    } else {
        let c = piece_end(cs, s, max);
        if c <= s || c > cs.len() {
            seq![]
        } else {
            seq![cs.subrange(s, c)] + pieces_from(cs, c, max)
        }
    }
}

/// What `chunk_text` returns: the whole text when it has at most `max` characters, else the
/// pieces. `None` where `max` is 0 and the text is not empty (no progress is possible).
pub open spec fn spec_chunk_text(cs: Seq<char>, max: nat) -> Option<Seq<Seq<char>>> {
    if cs.len() <= max {
        Some(seq![cs])
    } else if max == 0 {
        None
    } else {
        Some(pieces_from(cs, 0, max))
    }
}

/// The views of a vector of strings.
pub open spec fn views(v: Seq<String>) -> Seq<Seq<char>> {
    v.map_values(|x: String| x@)
}

/// Exec search for `char_at_byte(cs, s, target)` starting from a known prefix length.
pub fn find_char_at_byte(cs: &Vec<char>, s: usize, sb: usize, target: usize) -> (res: Option<
    (usize, usize),
>)
    requires
        s <= cs.len(),
        sb == blen(cs@.take(s as int)),
        blen(cs@) <= usize::MAX,
    ensures
        match res {
            Some((k, kb)) => char_at_byte(cs@, s as int, target as int) == Some(k as int) && kb
                == target && s <= k <= cs.len(),
            None => char_at_byte(cs@, s as int, target as int) is None,
        },
{
    let mut k = s;
    let mut kb = sb;
    while k < cs.len() && kb < target
        invariant
            s <= k <= cs.len(),
            kb == blen(cs@.take(k as int)),
            blen(cs@) <= usize::MAX,
            char_at_byte(cs@, s as int, target as int) == char_at_byte(
                cs@,
                k as int,
                target as int,
            ),
        decreases cs.len() - k,
    {
        proof {
            lemma_blen_take_step(cs@, k as int);
            lemma_blen_take_le(cs@, k + 1);
        }
        kb = kb + utf8_width(cs[k]);
        k = k + 1;
    }
    if kb == target {
        Some((k, kb))
    } else {
        None
    }
}

/// Split text into pieces of at most `max_size` characters, preferring to cut just after
/// whitespace. Text that fits is returned whole (even when empty).
pub fn chunk_text(text: &str, max_size: usize) -> (r: Vec<String>)
    requires
        text@.len() <= max_size || max_size > 0,
    ensures
        spec_chunk_text(text@, max_size as nat) == Some(views(r@)),
{
    let cs = chars_of(text);
    let n = cs.len();
    if n <= max_size {
        let mut v = Vec::new();
        v.push(String::from_str(text));
        assert(views(v@) =~= seq![text@]);
        return v;
    }
    let ghost max = max_size as nat;
    let mut out: Vec<String> = Vec::new();
    let mut s: usize = 0;
    proof {
        assert(views(out@) + pieces_from(cs@, 0, max) =~= pieces_from(cs@, 0, max));
    }
    while s < n
        invariant
            cs@ == text@,
            n == cs.len(),
            s <= n,
            max_size > 0,
            n > max_size,
            max == max_size as nat,
            views(out@) + pieces_from(cs@, s as int, max) == pieces_from(cs@, 0, max),
        decreases n - s,
    {
        let cut: usize;
        if max_size >= n - s {
            cut = n;
        } else {
            let e = s + max_size;
            let mut j = e;
            while j > s && !is_whitespace(cs[j - 1])
                invariant
                    s <= j <= e <= n,
                    n == cs.len(),
                    last_ws_in(cs@, s as int, e as int) == last_ws_in(cs@, s as int, j as int),
                decreases j,
            {
                j = j - 1;
            }
            if j > s {
                cut = j;
            } else {
                cut = e;
            }
        }
        assert(piece_end(cs@, s as int, max) == cut as int);
        let piece = string_of_range(&cs, s, cut);
        let ghost old_views = views(out@);
        out.push(piece);
        proof {
            let sub = cs@.subrange(s as int, cut as int);
            assert(pieces_from(cs@, s as int, max) == seq![sub] + pieces_from(cs@, cut as int, max));
            assert(views(out@) =~= old_views.push(sub));
            assert(views(out@) + pieces_from(cs@, cut as int, max) =~= old_views + pieces_from(cs@, s as int, max));
        }
        s = cut;
    }
    proof {
        assert(views(out@) + pieces_from(cs@, s as int, max) =~= views(out@));
    }
    out
}

} // verus!

verus! {

pub proof fn lemma_char_at_byte(cs: Seq<char>, i: int, p: int)
    requires
        char_at_byte(cs, i, p) is Some,
    ensures
        i <= char_at_byte(cs, i, p).unwrap() <= cs.len(),
        blen(cs.take(char_at_byte(cs, i, p).unwrap())) == p,
    decreases cs.len() - i,
{
    if i < 0 || i > cs.len() {
    } else if blen(cs.take(i)) == p {
    } else if blen(cs.take(i)) > p || i == cs.len() {
    } else {
        lemma_char_at_byte(cs, i + 1, p);
    }
}

proof fn lemma_last_ws_in(cs: Seq<char>, lo: int, hi: int)
    requires
        last_ws_in(cs, lo, hi) is Some,
    ensures
        lo <= last_ws_in(cs, lo, hi).unwrap() < hi,
        is_ws(cs[last_ws_in(cs, lo, hi).unwrap()]),
    decreases hi - lo,
{
    if hi <= lo {
    } else if is_ws(cs[hi - 1]) {
    } else {
        lemma_last_ws_in(cs, lo, hi - 1);
    }
}

proof fn lemma_piece_end(cs: Seq<char>, s: int, max: nat)
    requires
        0 <= s < cs.len(),
        max > 0,
    ensures
        s < piece_end(cs, s, max) <= cs.len(),
        piece_end(cs, s, max) - s <= max,
{
    if s + max < cs.len() {
        match last_ws_in(cs, s, s + max) {
            None => {},
            Some(w) => {
                lemma_last_ws_in(cs, s, s + max);
            },
        }
    }
}

proof fn lemma_pieces_from(cs: Seq<char>, s: int, max: nat)
    requires
        0 <= s <= cs.len(),
        max > 0,
    ensures
        pieces_from(cs, s, max).flatten() == cs.subrange(s, cs.len() as int),
        forall|i: int|
            0 <= i < pieces_from(cs, s, max).len() ==> #[trigger] pieces_from(cs, s, max)[i].len() > 0
                && pieces_from(cs, s, max)[i].len() <= max,
    decreases cs.len() - s,
{
    if s >= cs.len() {
        assert(cs.subrange(s, cs.len() as int) =~= Seq::<char>::empty());
    } else {
        lemma_piece_end(cs, s, max);
        let c = piece_end(cs, s, max);
        let rest = pieces_from(cs, c, max);
        let ps = pieces_from(cs, s, max);
        lemma_pieces_from(cs, c, max);
        assert(ps == seq![cs.subrange(s, c)] + rest);
        assert(ps.drop_first() =~= rest);
        assert(ps.first() == cs.subrange(s, c));
        assert(cs.subrange(s, cs.len() as int) =~= cs.subrange(s, c) + cs.subrange(c, cs.len() as int));
        assert forall|i: int| 0 <= i < ps.len() implies #[trigger] ps[i].len() > 0 && ps[i].len() <= max by {
            if i > 0 {
                assert(ps[i] == rest[i - 1]);
            }
        }
    }
}

proof fn lemma_last_ws_none(cs: Seq<char>, lo: int, hi: int)
    requires
        last_ws_in(cs, lo, hi) is None,
    ensures
        forall|j: int| lo <= j < hi ==> !is_ws(#[trigger] cs[j]),
    decreases hi - lo,
{
    if hi > lo {
        lemma_last_ws_none(cs, lo, hi - 1);
    }
}

/// A piece that ends just after a whitespace character, or that holds none at all.
pub open spec fn cut_at_whitespace(p: Seq<char>) -> bool {
    (p.len() > 0 && is_ws(p.last())) || forall|j: int| 0 <= j < p.len() ==> !is_ws(#[trigger] p[j])
}

proof fn lemma_pieces_cut_at_whitespace(cs: Seq<char>, s: int, max: nat)
    requires
        0 <= s <= cs.len(),
        max > 0,
    ensures
        forall|i: int|
            0 <= i < pieces_from(cs, s, max).len() - 1 ==> cut_at_whitespace(
                #[trigger] pieces_from(cs, s, max)[i],
            ),
    decreases cs.len() - s,
{
    if s < cs.len() {
        lemma_piece_end(cs, s, max);
        let c = piece_end(cs, s, max);
        let rest = pieces_from(cs, c, max);
        let ps = pieces_from(cs, s, max);
        lemma_pieces_cut_at_whitespace(cs, c, max);
        assert(ps == seq![cs.subrange(s, c)] + rest);
        if ps.len() > 1 && s + max < cs.len() {
            let e = s + max;
            let p0 = cs.subrange(s, c);
            match last_ws_in(cs, s, e) {
                None => {
                    assert(c == e);
                    lemma_last_ws_none(cs, s, e);
                    assert forall|j: int| 0 <= j < p0.len() implies !is_ws(#[trigger] p0[j]) by {
                        assert(p0[j] == cs[s + j]);
                    }
                },
                Some(w) => {
                    assert(c == w + 1);
                    lemma_last_ws_in(cs, s, e);
                    assert(p0.last() == cs[w]);
                },
            }
            assert(ps[0] == p0);
            assert(cut_at_whitespace(ps[0]));
        }
        if ps.len() > 1 && s + max >= cs.len() {
            assert(c == cs.len());
            assert(rest.len() == 0);
        }
        assert forall|i: int| 0 <= i < ps.len() - 1 implies cut_at_whitespace(#[trigger] ps[i]) by {
            if i > 0 {
                assert(ps[i] == rest[i - 1]);
            }
        }
    }
}

/// When a text is cut into pieces, every piece but the last ends just after a whitespace
/// character, unless no whitespace was within reach, in which case the piece holds none:
/// words are split only where they are longer than a piece.
pub proof fn law_chunk_text_cuts_after_whitespace(cs: Seq<char>, max: nat)
    requires
        spec_chunk_text(cs, max) is Some,
    ensures
        forall|i: int|
            0 <= i < spec_chunk_text(cs, max).unwrap().len() - 1 ==> cut_at_whitespace(
                #[trigger] spec_chunk_text(cs, max).unwrap()[i],
            ),
{
    if cs.len() > max {
        lemma_pieces_cut_at_whitespace(cs, 0, max);
    }
}

/// Joining the pieces `chunk_text` produces gives back the whole text, and when the text
/// does not fit in one piece every piece is non-empty and at most `max` characters long.
pub proof fn law_chunk_text_reassembles(cs: Seq<char>, max: nat)
    requires
        spec_chunk_text(cs, max) is Some,
    ensures
        spec_chunk_text(cs, max).unwrap().flatten() == cs,
        cs.len() > max ==> forall|i: int|
            0 <= i < spec_chunk_text(cs, max).unwrap().len() ==> #[trigger] spec_chunk_text(
                cs,
                max,
            ).unwrap()[i].len() > 0 && spec_chunk_text(cs, max).unwrap()[i].len() <= max,
{
    if cs.len() <= max {
        let ps = seq![cs];
        ps.lemma_flatten_one_element();
    } else {
        lemma_pieces_from(cs, 0, max);
        assert(cs.subrange(0, cs.len() as int) =~= cs);
    }
}

} // verus!

verus! {

/// Whether `needle` occurs in `hay` as a contiguous run.
pub open spec fn seq_contains(hay: Seq<char>, needle: Seq<char>) -> bool {
    exists|i: int|
        0 <= i && i + needle.len() <= hay.len() && #[trigger] hay.subrange(i, i + needle.len())
            == needle
}

fn matches_at(h: &Vec<char>, n: &Vec<char>, i: usize) -> (b: bool)
    requires
        i + n.len() <= h.len(),
    ensures
        b == (h@.subrange(i as int, i + n.len()) == n@),
{
    let mut k: usize = 0;
    while k < n.len()
        invariant
            i + n.len() <= h.len(),
            k <= n.len(),
            forall|j: int| 0 <= j < k ==> h@[i + j] == n@[j],
        decreases n.len() - k,
    {
        if h[i + k] != n[k] {
            assert(h@.subrange(i as int, i + n.len())[k as int] != n@[k as int]);
            return false;
        }
        k = k + 1;
    }
    assert(h@.subrange(i as int, i + n.len()) =~= n@);
    true
}

/// Substring search (`str::contains` with a string pattern).
pub fn str_contains(hay: &str, needle: &str) -> (b: bool)
    ensures
        b == seq_contains(hay@, needle@),
{
    let h = chars_of(hay);
    let n = chars_of(needle);
    if n.len() > h.len() {
        return false;
    }
    if n.len() == 0 {
        assert(hay@.subrange(0int, 0int + needle@.len()) =~= needle@);
        return true;
    }
    let last = h.len() - n.len();
    let mut i: usize = 0;
    while i <= last
        invariant
            h@ == hay@,
            n@ == needle@,
            n.len() <= h.len(),
            last == h.len() - n.len(),
            n.len() >= 1,
            i <= last + 1,
            forall|j: int| 0 <= j < i ==> #[trigger] h@.subrange(j, j + n@.len()) != n@,
        decreases last + 1 - i,
    {
        if matches_at(&h, &n, i) {
            return true;
        }
        i = i + 1;
    }
    assert forall|k: int| 0 <= k && k + needle@.len() <= hay@.len() implies #[trigger] hay@.subrange(k, k + needle@.len()) != needle@ by {
        assert(h@.subrange(k, k + n@.len()) != n@);
    }
    false
}

/// Unicode lowercase mapping of a text, as `str::to_lowercase` computes it.
pub uninterp spec fn spec_to_lowercase(s: Seq<char>) -> Seq<char>;

/// ASCII letter lowercasing of one character.
pub open spec fn ascii_lower(c: char) -> char {
    if 'A' <= c <= 'Z' {
        ((c as u32) + 32) as char
    } else {
        c
    }
}

/// `str::to_lowercase`: the Unicode lowercase of `s`. On ASCII text it lowercases exactly
/// the letters A-Z and keeps every other character.
#[verifier::external_body]
pub(crate) fn to_lowercase(s: &str) -> (r: String)
    ensures
        r@ == spec_to_lowercase(s@),
        is_ascii_chars(s@) ==> r@ == s@.map_values(|c: char| ascii_lower(c)),
{
    s.to_lowercase()
}

/// Whether an already lowercased content type names JSON: `application/json`,
/// or a vendor type `application/vnd.*` with a `+json` suffix.
pub open spec fn lowered_is_json(l: Seq<char>) -> bool {
    seq_contains(l, "application/json"@) || (seq_contains(l, "application/vnd."@) && seq_contains(
        l,
        "+json"@,
    ))
}

/// The JSON test on a content type that has already been lowercased.
pub fn lowered_content_type_is_json(lowered: &str) -> (b: bool)
    ensures
        b == lowered_is_json(lowered@),
{
    str_contains(lowered, "application/json") || (str_contains(lowered, "application/vnd.")
        && str_contains(lowered, "+json"))
}

/// Whether a Content-Type header value indicates a JSON body (case-insensitive).
pub fn is_json_content_type(content_type: &str) -> (b: bool)
    ensures
        b == lowered_is_json(spec_to_lowercase(content_type@)),
        is_ascii_chars(content_type@) ==> b == lowered_is_json(
            content_type@.map_values(|c: char| ascii_lower(c)),
        ),
{
    let lowered = to_lowercase(content_type);
    lowered_content_type_is_json(lowered.as_str())
}

} // verus!

verus! {

/// The character of a decimal digit.
pub open spec fn digit_char(d: nat) -> char {
    if d == 0 { '0' } else if d == 1 { '1' } else if d == 2 { '2' } else if d == 3 { '3' }
    else if d == 4 { '4' } else if d == 5 { '5' } else if d == 6 { '6' } else if d == 7 { '7' }
    else if d == 8 { '8' } else { '9' }
}

/// Decimal digits of `n` (no sign, no leading zeros; "0" for zero).
pub open spec fn decimal(n: nat) -> Seq<char>
    decreases n,
{
    if n < 10 {
        seq![digit_char(n)]
    } else {
        decimal(n / 10).push(digit_char(n % 10))
    }
}

fn digit(d: u64) -> (c: char)
    requires
        d < 10,
    ensures
        c == digit_char(d as nat),
{
    if d == 0 { '0' } else if d == 1 { '1' } else if d == 2 { '2' } else if d == 3 { '3' }
    else if d == 4 { '4' } else if d == 5 { '5' } else if d == 6 { '6' } else if d == 7 { '7' }
    else if d == 8 { '8' } else { '9' }
}

/// The decimal text of an unsigned integer (`u64::to_string`).
pub fn u64_to_decimal(n: u64) -> (r: String)
    ensures
        r@ == decimal(n as nat),
    decreases n,
{
    let c = digit(n % 10);
    if n < 10 {
        let mut r = String::new();
        r.push(c);
        r
    } else {
        let mut r = u64_to_decimal(n / 10);
        r.push(c);
        r
    }
}

/// Join texts with a separator (`[String]::join`).
pub open spec fn join_with(parts: Seq<Seq<char>>, sep: Seq<char>) -> Seq<char>
    decreases parts.len(),
{
    if parts.len() == 0 {
        seq![]
    } else if parts.len() == 1 {
        parts[0]
    } else {
        join_with(parts.drop_last(), sep) + sep + parts.last()
    }
}

/// Join strings with a separator.
pub fn join_strings(parts: &Vec<String>, sep: &str) -> (r: String)
    ensures
        r@ == join_with(views(parts@), sep@),
{
    let mut r = String::new();
    let mut i: usize = 0;
    while i < parts.len()
        invariant
            i <= parts.len(),
            r@ == join_with(views(parts@).take(i as int), sep@),
        decreases parts.len() - i,
    {
        proof {
            assert(views(parts@).take(i + 1).drop_last() =~= views(parts@).take(i as int));
        }
        if i > 0 {
            r.append(sep);
        }
        r.append(parts[i].as_str());
        proof {
            if i == 0 {
                assert(r@ =~= views(parts@).take(1)[0]);
            }
        }
        i = i + 1;
    }
    proof {
        assert(views(parts@).take(parts.len() as int) =~= views(parts@));
    }
    r
}

} // verus!

verus! {

/// Text equality (`str == str`).
pub fn str_eq(a: &str, b: &str) -> (r: bool)
    ensures
        r == (a@ == b@),
{
    let x = chars_of(a);
    let y = chars_of(b);
    if x.len() != y.len() {
        return false;
    }
    let mut i: usize = 0;
    while i < x.len()
        invariant
            x@ == a@,
            y@ == b@,
            x.len() == y.len(),
            i <= x.len(),
            forall|j: int| 0 <= j < i ==> x@[j] == y@[j],
        decreases x.len() - i,
    {
        if x[i] != y[i] {
            return false;
        }
        i = i + 1;
    }
    assert(x@ =~= y@);
    true
}

} // verus!

verus! {

/// What follows prefix `p` in `s` (`str::strip_prefix`).
pub open spec fn after_prefix(s: Seq<char>, p: Seq<char>) -> Option<Seq<char>> {
    if p.len() <= s.len() && s.subrange(0, p.len() as int) == p {
        Some(s.subrange(p.len() as int, s.len() as int))
    } else {
        None
    }
}

/// `str::strip_prefix`.
pub fn strip_prefix(s: &str, p: &str) -> (r: Option<String>)
    ensures
        match r {
            Some(t) => after_prefix(s@, p@) == Some(t@),
            None => after_prefix(s@, p@) is None,
        },
{
    let cs = chars_of(s);
    let ps = chars_of(p);
    if ps.len() > cs.len() {
        return None;
    }
    let mut i: usize = 0;
    while i < ps.len()
        invariant
            cs@ == s@,
            ps@ == p@,
            ps.len() <= cs.len(),
            i <= ps.len(),
            forall|j: int| 0 <= j < i ==> cs@[j] == ps@[j],
        decreases ps.len() - i,
    {
        if cs[i] != ps[i] {
            assert(cs@.subrange(0, ps.len() as int)[i as int] != ps@[i as int]);
            return None;
        }
        i = i + 1;
    }
    assert(cs@.subrange(0, ps.len() as int) =~= ps@);
    Some(string_of_range(&cs, ps.len(), cs.len()))
}

} // verus!

verus! {

/// A longer prefix takes more bytes.
pub proof fn lemma_blen_take_strict(cs: Seq<char>, a: int, b: int)
    requires
        0 <= a < b <= cs.len(),
    ensures
        blen(cs.take(a)) < blen(cs.take(b)),
{
    lemma_blen_take_le(cs.take(b), a + 1);
    assert(cs.take(b).take(a + 1) =~= cs.take(a + 1));
    lemma_blen_take_step(cs, a);
    vstd::utf8::char_is_scalar(cs[a]);
}

/// Bytes between two character positions decode to the characters between them.
pub proof fn lemma_byte_slice_chars(cs: Seq<char>, k1: int, k2: int)
    requires
        0 <= k1 <= k2 <= cs.len(),
    ensures
        byte_slice(cs, blen(cs.take(k1)) as int, blen(cs.take(k2)) as int) == cs.subrange(k1, k2),
{
    let a = cs.take(k1);
    let m = cs.subrange(k1, k2);
    let b = cs.skip(k2);
    assert(cs =~= a + m + b);
    lemma_encode_concat(a + m, b);
    lemma_encode_concat(a, m);
    assert(cs.take(k2) =~= a + m);
    assert(encode_utf8(cs).subrange(blen(a) as int, blen(a + m) as int) =~= encode_utf8(m));
}

} // verus!
