//! Removing MediaWiki markup from article text.
use vstd::prelude::*;
use vstd::string::*;
use crate::text::{spec_trim, trim};

verus! {

/// Whether `regex::Regex::new` accepts a pattern.
pub uninterp spec fn spec_regex_compiles(pattern: Seq<char>) -> bool;

/// The text `regex::Regex::replace_all` gives for a pattern, a haystack and a replacement
/// (with `$n` group references).
pub uninterp spec fn spec_regex_replace_all(pattern: Seq<char>, text: Seq<char>, rep: Seq<char>) -> Seq<char>;

/// Whether `regex::Regex::new` accepts `pattern`. The contract claims only that the answer
/// is a function of the pattern.
#[verifier::external_body]
pub(crate) fn regex_compiles(pattern: &str) -> (r: bool)
    ensures
        r == spec_regex_compiles(pattern@),
{
    regex::Regex::new(pattern).is_ok()
}

/// Compiles `pattern` with `regex::Regex::new` and applies `Regex::replace_all` to `text`
/// with `rep`. The contract claims only that the result is a function of the three texts.
#[verifier::external_body]
fn regex_replace_all(pattern: &str, text: &str, rep: &str) -> (r: String)
    requires
        spec_regex_compiles(pattern@),
    ensures
        r@ == spec_regex_replace_all(pattern@, text@, rep@),
{
    match regex::Regex::new(pattern) {
        Ok(re) => re.replace_all(text, rep).into_owned(),
        Err(_) => String::new(),
    }
}

/// The markup rules in the order they apply: pattern and replacement.
pub open spec fn markup_rules() -> Seq<(Seq<char>, Seq<char>)> {
    seq![
        (r"\[\[File:[^\]]+\]\]"@, ""@),
        (r"\[\[Category:[^\]]+\]\]"@, ""@),
        (r"\{\{[^}]+\}\}"@, ""@),
        (r"<\s*(ref|gallery|table|tr|td|th|div|span|p|br|hr|ul|ol|li|b|i|u|s|sup|sub|code|pre|blockquote|img|a|abbr|acronym|cite|dfn|em|kbd|samp|var|strong|small|center|big|font|strike|tt|hr)[^>]*/?\s*>|<\s*(ref|br|hr|img|input|meta|link|base)[^>]*\/?\s*>"@, ""@),
        (r"\[\[([^\|]+)\|([^\]]+)\]\]"@, "$2"@),
        (r"\[\[([^\]]+)\]\]"@, "$1"@),
        (r"\[(https?://[^\s\]]+)\s+([^\]]+)\]"@, "$2"@),
        (r"'''(.+?)'''"@, "$1"@),
        (r"''(.+?)''"@, "$1"@),
        (r"(?m)^={1,6}\s*(.+?)\s*={1,6}$"@, "\n$1\n"@),
        (r"\n{3,}"@, "\n\n"@),
        (r" +"@, " "@),
    ]
}

/// The text after the rules from `i` on.
pub open spec fn apply_rules(text: Seq<char>, rules: Seq<(Seq<char>, Seq<char>)>, i: int) -> Seq<char>
    decreases rules.len() - i,
{
    if i < 0 || i >= rules.len() {
        text
    } else {
        apply_rules(spec_regex_replace_all(rules[i].0, text, rules[i].1), rules, i + 1)
    }
}

/// Whether every markup pattern compiles.
pub open spec fn markup_rules_compile() -> bool {
    forall|i: int| 0 <= i < markup_rules().len() ==> #[trigger] spec_regex_compiles(markup_rules()[i].0)
}

/// Clean text: the markup rules applied in order (files, categories, templates and HTML
/// tags removed; links, bold, italics and headings reduced to their text; runs of three or
/// more newlines and of spaces collapsed), then trimmed.
pub open spec fn spec_clean_markup(text: Seq<char>) -> Seq<char> {
    spec_trim(apply_rules(text, markup_rules(), 0))
}

/// The markup rules, pattern and replacement (the same as `markup_rules`).
fn markup_rule_list() -> (r: Vec<(&'static str, &'static str)>)
    ensures
        r@.len() == markup_rules().len(),
        forall|i: int| 0 <= i < r@.len() ==> (#[trigger] r@[i]).0@ == markup_rules()[i].0 && r@[i].1@ == markup_rules()[i].1,
{
    let mut v: Vec<(&'static str, &'static str)> = Vec::new();
    v.push((r"\[\[File:[^\]]+\]\]", ""));
    v.push((r"\[\[Category:[^\]]+\]\]", ""));
    v.push((r"\{\{[^}]+\}\}", ""));
    v.push((r"<\s*(ref|gallery|table|tr|td|th|div|span|p|br|hr|ul|ol|li|b|i|u|s|sup|sub|code|pre|blockquote|img|a|abbr|acronym|cite|dfn|em|kbd|samp|var|strong|small|center|big|font|strike|tt|hr)[^>]*/?\s*>|<\s*(ref|br|hr|img|input|meta|link|base)[^>]*\/?\s*>", ""));
    v.push((r"\[\[([^\|]+)\|([^\]]+)\]\]", "$2"));
    v.push((r"\[\[([^\]]+)\]\]", "$1"));
    v.push((r"\[(https?://[^\s\]]+)\s+([^\]]+)\]", "$2"));
    v.push((r"'''(.+?)'''", "$1"));
    v.push((r"''(.+?)''", "$1"));
    v.push((r"(?m)^={1,6}\s*(.+?)\s*={1,6}$", "\n$1\n"));
    v.push((r"\n{3,}", "\n\n"));
    v.push((r" +", " "));
    v
}

/// Removes MediaWiki markup from article text.
pub fn clean_markup(text: &str) -> (r: String)
    requires
        markup_rules_compile(),
    ensures
        r@ == spec_clean_markup(text@),
{
    let rules = markup_rule_list();
    let mut result = String::from_str(text);
    let mut i: usize = 0;
    while i < rules.len()
        invariant
            i <= rules.len(),
            rules@.len() == markup_rules().len(),
            forall|k: int| 0 <= k < rules@.len() ==> (#[trigger] rules@[k]).0@ == markup_rules()[k].0 && rules@[k].1@ == markup_rules()[k].1,
            markup_rules_compile(),
            apply_rules(result@, markup_rules(), i as int) == apply_rules(text@, markup_rules(), 0),
        decreases rules.len() - i,
    {
        let (p, rep) = rules[i];
        assert(spec_regex_compiles(markup_rules()[i as int].0));
        result = regex_replace_all(p, result.as_str(), rep);
        i = i + 1;
    }
    trim(result.as_str())
}

/// Whether the markup patterns all compile.
pub fn markup_patterns_compile() -> (r: bool)
    ensures
        r == markup_rules_compile(),
{
    let rules = markup_rule_list();
    let mut i: usize = 0;
    while i < rules.len()
        invariant
            i <= rules.len(),
            rules@.len() == markup_rules().len(),
            forall|k: int| 0 <= k < rules@.len() ==> (#[trigger] rules@[k]).0@ == markup_rules()[k].0 && rules@[k].1@ == markup_rules()[k].1,
            forall|k: int| 0 <= k < i ==> #[trigger] spec_regex_compiles(markup_rules()[k].0),
        decreases rules.len() - i,
    {
        if !regex_compiles(rules[i].0) {
            return false;
        }
        i = i + 1;
    }
    true
}

/// `clean_markup` where its patterns compile; `None` otherwise.
pub fn try_clean_markup(text: &str) -> (r: Option<String>)
    ensures
        r is Some == markup_rules_compile(),
        r matches Some(s) ==> s@ == spec_clean_markup(text@),
{
    if markup_patterns_compile() {
        Some(clean_markup(text))
    } else {
        None
    }
}

} // verus!

verus! {

/// The byte spans of the successive non-overlapping matches `regex::Regex::find_iter`
/// yields for a pattern in a text.
pub uninterp spec fn spec_regex_find_iter(pattern: Seq<char>, text: Seq<char>) -> Seq<(int, int)>;

/// The byte span `regex::Regex::find_at` gives: the first match found searching from a byte
/// offset.
pub uninterp spec fn spec_regex_find_at(pattern: Seq<char>, text: Seq<char>, start: int) -> Option<(int, int)>;

/// A match span as regex reports it: within the text, and (as the regex documentation
/// guarantees for `&str` haystacks) starting and ending between characters.
pub open spec fn match_span_ok(text: Seq<char>, m: (int, int)) -> bool {
    &&& 0 <= m.0 <= m.1 <= crate::text::blen(text)
    &&& crate::text::char_at_byte(text, 0, m.0) is Some
    &&& crate::text::char_at_byte(text, 0, m.1) is Some
}

pub open spec fn spans_view(v: Seq<(usize, usize)>) -> Seq<(int, int)> {
    v.map_values(|m: (usize, usize)| (m.0 as int, m.1 as int))
}

/// The spans of `regex::Regex::find_iter` over `text` (the pattern compiled with
/// `Regex::new`). The contract claims that the spans are a function of the two texts and
/// that each lies within the text on character boundaries, as regex documents.
#[verifier::external_body]
pub(crate) fn regex_find_iter(pattern: &str, text: &str) -> (r: Vec<(usize, usize)>)
    requires
        spec_regex_compiles(pattern@),
    ensures
        spans_view(r@) == spec_regex_find_iter(pattern@, text@),
        forall|k: int| 0 <= k < r@.len() ==> #[trigger] match_span_ok(text@, spans_view(r@)[k]),
{
    match regex::Regex::new(pattern) {
        Ok(re) => re.find_iter(text).map(|m| (m.start(), m.end())).collect(),
        Err(_) => Vec::new(),
    }
}

/// The span of `regex::Regex::find_at(text, start)` (the pattern compiled with
/// `Regex::new`); `start` may be at most the text's byte length, where `find_at` would
/// otherwise panic. The contract claims that the span is a function of the inputs, begins
/// at or after `start`, and lies within the text on character boundaries, as regex
/// documents.
#[verifier::external_body]
pub(crate) fn regex_find_at(pattern: &str, text: &str, start: usize) -> (r: Option<(usize, usize)>)
    requires
        spec_regex_compiles(pattern@),
        start <= crate::text::blen(text@),
    ensures
        match r {
            Some(m) => spec_regex_find_at(pattern@, text@, start as int) == Some((m.0 as int, m.1 as int))
                && start <= m.0 && match_span_ok(text@, (m.0 as int, m.1 as int)),
            None => spec_regex_find_at(pattern@, text@, start as int) is None,
        },
{
    match regex::Regex::new(pattern) {
        Ok(re) => re.find_at(text, start).map(|m| (m.start(), m.end())),
        Err(_) => None,
    }
}

} // verus!

verus! {

/// Cleaned text never begins or ends with whitespace.
pub proof fn law_clean_markup_is_trimmed(text: Seq<char>)
    ensures
        spec_clean_markup(text).len() > 0 ==> !crate::text::is_ws(spec_clean_markup(text)[0])
            && !crate::text::is_ws(spec_clean_markup(text).last()),
{
    crate::text::law_trimmed_has_no_outer_whitespace(apply_rules(text, markup_rules(), 0));
}

} // verus!

verus! {

/// The HTML elements whose tags the cleaner strips.
pub open spec fn html_elements_removed() -> Seq<Seq<char>> {
    seq!["ref"@, "gallery"@, "table"@, "tr"@, "td"@, "th"@, "div"@, "span"@, "p"@, "br"@, "hr"@, "ul"@, "ol"@, "li"@, "b"@, "i"@, "u"@, "s"@, "sup"@, "sub"@, "code"@, "pre"@, "blockquote"@, "img"@, "a"@, "abbr"@, "acronym"@, "cite"@, "dfn"@, "em"@, "kbd"@, "samp"@, "var"@, "strong"@, "small"@, "center"@, "big"@, "font"@, "strike"@, "tt"@]
}

/// Whether a pattern names `n` as one alternative of a group: `n` stands between `(` or `|`
/// and `|` or `)`.
pub open spec fn names_element(p: Seq<char>, n: Seq<char>) -> bool {
    exists|i: int|
        0 < i && i + n.len() < p.len() && #[trigger] p.subrange(i, i + n.len()) == n && (p[i - 1] == '('
            || p[i - 1] == '|') && (p[i + n.len()] == '|' || p[i + n.len()] == ')')
}

proof fn lemma_names_at(p: Seq<char>, n: Seq<char>, i: int)
    requires
        0 < i,
        i + n.len() < p.len(),
        p.subrange(i, i + n.len()) =~= n,
        p[i - 1] == '(' || p[i - 1] == '|',
        p[i + n.len()] == '|' || p[i + n.len()] == ')',
    ensures
        names_element(p, n),
{
    assert(p.subrange(i, i + n.len()) == n);
}

/// HTML tags are stripped before links, emphasis and headings are reduced: the fourth
/// rule replaces what it matches with nothing, and its pattern is an opening `<`, optional
/// whitespace and a group naming every element of `html_elements_removed`.
pub proof fn law_html_tags_are_stripped()
    ensures
        markup_rules()[3].1 == ""@,
        markup_rules()[3].0.take(5) == r"<\s*("@,
        forall|k: int|
            0 <= k < html_elements_removed().len() ==> names_element(
                markup_rules()[3].0,
                #[trigger] html_elements_removed()[k],
            ),
{
    let p = markup_rules()[3].0;
    reveal_strlit(r"<\s*(ref|gallery|table|tr|td|th|div|span|p|br|hr|ul|ol|li|b|i|u|s|sup|sub|code|pre|blockquote|img|a|abbr|acronym|cite|dfn|em|kbd|samp|var|strong|small|center|big|font|strike|tt|hr)[^>]*/?\s*>|<\s*(ref|br|hr|img|input|meta|link|base)[^>]*\/?\s*>");
    reveal_strlit(r"<\s*(");
    reveal_strlit("");
    assert(p.take(5) =~= r"<\s*("@);
    let els = html_elements_removed();
    assert(names_element(p, els[0])) by {
        reveal_strlit("ref");
        assert(els[0] == "ref"@);
        lemma_names_at(p, els[0], 5);
    }
    assert(names_element(p, els[1])) by {
        reveal_strlit("gallery");
        assert(els[1] == "gallery"@);
        lemma_names_at(p, els[1], 9);
    }
    assert(names_element(p, els[2])) by {
        reveal_strlit("table");
        assert(els[2] == "table"@);
        lemma_names_at(p, els[2], 17);
    }
    assert(names_element(p, els[3])) by {
        reveal_strlit("tr");
        assert(els[3] == "tr"@);
        lemma_names_at(p, els[3], 23);
    }
    assert(names_element(p, els[4])) by {
        reveal_strlit("td");
        assert(els[4] == "td"@);
        lemma_names_at(p, els[4], 26);
    }
    assert(names_element(p, els[5])) by {
        reveal_strlit("th");
        assert(els[5] == "th"@);
        lemma_names_at(p, els[5], 29);
    }
    assert(names_element(p, els[6])) by {
        reveal_strlit("div");
        assert(els[6] == "div"@);
        lemma_names_at(p, els[6], 32);
    }
    assert(names_element(p, els[7])) by {
        reveal_strlit("span");
        assert(els[7] == "span"@);
        lemma_names_at(p, els[7], 36);
    }
    assert(names_element(p, els[8])) by {
        reveal_strlit("p");
        assert(els[8] == "p"@);
        lemma_names_at(p, els[8], 41);
    }
    assert(names_element(p, els[9])) by {
        reveal_strlit("br");
        assert(els[9] == "br"@);
        lemma_names_at(p, els[9], 43);
    }
    assert(names_element(p, els[10])) by {
        reveal_strlit("hr");
        assert(els[10] == "hr"@);
        lemma_names_at(p, els[10], 46);
    }
    assert(names_element(p, els[11])) by {
        reveal_strlit("ul");
        assert(els[11] == "ul"@);
        lemma_names_at(p, els[11], 49);
    }
    assert(names_element(p, els[12])) by {
        reveal_strlit("ol");
        assert(els[12] == "ol"@);
        lemma_names_at(p, els[12], 52);
    }
    assert(names_element(p, els[13])) by {
        reveal_strlit("li");
        assert(els[13] == "li"@);
        lemma_names_at(p, els[13], 55);
    }
    assert(names_element(p, els[14])) by {
        reveal_strlit("b");
        assert(els[14] == "b"@);
        lemma_names_at(p, els[14], 58);
    }
    assert(names_element(p, els[15])) by {
        reveal_strlit("i");
        assert(els[15] == "i"@);
        lemma_names_at(p, els[15], 60);
    }
    assert(names_element(p, els[16])) by {
        reveal_strlit("u");
        assert(els[16] == "u"@);
        lemma_names_at(p, els[16], 62);
    }
    assert(names_element(p, els[17])) by {
        reveal_strlit("s");
        assert(els[17] == "s"@);
        lemma_names_at(p, els[17], 64);
    }
    assert(names_element(p, els[18])) by {
        reveal_strlit("sup");
        assert(els[18] == "sup"@);
        lemma_names_at(p, els[18], 66);
    }
    assert(names_element(p, els[19])) by {
        reveal_strlit("sub");
        assert(els[19] == "sub"@);
        lemma_names_at(p, els[19], 70);
    }
    assert(names_element(p, els[20])) by {
        reveal_strlit("code");
        assert(els[20] == "code"@);
        lemma_names_at(p, els[20], 74);
    }
    assert(names_element(p, els[21])) by {
        reveal_strlit("pre");
        assert(els[21] == "pre"@);
        lemma_names_at(p, els[21], 79);
    }
    assert(names_element(p, els[22])) by {
        reveal_strlit("blockquote");
        assert(els[22] == "blockquote"@);
        lemma_names_at(p, els[22], 83);
    }
    assert(names_element(p, els[23])) by {
        reveal_strlit("img");
        assert(els[23] == "img"@);
        lemma_names_at(p, els[23], 94);
    }
    assert(names_element(p, els[24])) by {
        reveal_strlit("a");
        assert(els[24] == "a"@);
        lemma_names_at(p, els[24], 98);
    }
    assert(names_element(p, els[25])) by {
        reveal_strlit("abbr");
        assert(els[25] == "abbr"@);
        lemma_names_at(p, els[25], 100);
    }
    assert(names_element(p, els[26])) by {
        reveal_strlit("acronym");
        assert(els[26] == "acronym"@);
        lemma_names_at(p, els[26], 105);
    }
    assert(names_element(p, els[27])) by {
        reveal_strlit("cite");
        assert(els[27] == "cite"@);
        lemma_names_at(p, els[27], 113);
    }
    assert(names_element(p, els[28])) by {
        reveal_strlit("dfn");
        assert(els[28] == "dfn"@);
        lemma_names_at(p, els[28], 118);
    }
    assert(names_element(p, els[29])) by {
        reveal_strlit("em");
        assert(els[29] == "em"@);
        lemma_names_at(p, els[29], 122);
    }
    assert(names_element(p, els[30])) by {
        reveal_strlit("kbd");
        assert(els[30] == "kbd"@);
        lemma_names_at(p, els[30], 125);
    }
    assert(names_element(p, els[31])) by {
        reveal_strlit("samp");
        assert(els[31] == "samp"@);
        lemma_names_at(p, els[31], 129);
    }
    assert(names_element(p, els[32])) by {
        reveal_strlit("var");
        assert(els[32] == "var"@);
        lemma_names_at(p, els[32], 134);
    }
    assert(names_element(p, els[33])) by {
        reveal_strlit("strong");
        assert(els[33] == "strong"@);
        lemma_names_at(p, els[33], 138);
    }
    assert(names_element(p, els[34])) by {
        reveal_strlit("small");
        assert(els[34] == "small"@);
        lemma_names_at(p, els[34], 145);
    }
    assert(names_element(p, els[35])) by {
        reveal_strlit("center");
        assert(els[35] == "center"@);
        lemma_names_at(p, els[35], 151);
    }
    assert(names_element(p, els[36])) by {
        reveal_strlit("big");
        assert(els[36] == "big"@);
        lemma_names_at(p, els[36], 158);
    }
    assert(names_element(p, els[37])) by {
        reveal_strlit("font");
        assert(els[37] == "font"@);
        lemma_names_at(p, els[37], 162);
    }
    assert(names_element(p, els[38])) by {
        reveal_strlit("strike");
        assert(els[38] == "strike"@);
        lemma_names_at(p, els[38], 167);
    }
    assert(names_element(p, els[39])) by {
        reveal_strlit("tt");
        assert(els[39] == "tt"@);
        lemma_names_at(p, els[39], 174);
    }
}

} // verus!
