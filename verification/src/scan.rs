//! Scanners for the two places where a page names its stylesheets: `<link>`
//! tags in markup and `@import` rules in style text.
//!
//! The scanners are tolerant by design: they look for keywords without
//! building a document tree, and whatever they cannot read they pass over.

use crate::text::{
    chars_of, copy_range, find, find_char, first_match, is_space, is_whitespace,
    lemma_first_match_bounds, lemma_skip_spaces_bounds, lower, matches_at, occurs_at, skip_spaces,
    skip_whitespace, string_of, to_lower, trim_end, trim_end_at,
};
use vstd::prelude::*;

verus! {

/// A single or double quote.
pub open spec fn is_quote(c: char) -> bool {
    c == '"' || c == '\''
}

/// A character that ends an attribute value written without quotes.
pub open spec fn ends_bare(c: char) -> bool {
    is_space(c) || c == '>' || c == '/'
}

/// The text between the quote at `open` and the next quote of the same kind,
/// if there is one.
pub open spec fn quoted_value(s: Seq<char>, open: int) -> Option<Seq<char>> {
    match first_match(s, seq![s[open]], open + 1) {
        Some(close) => Some(s.subrange(open + 1, close)),
        None => None,
    }
}

/// Position of the first character at or after `from` that ends a bare value,
/// or the length of `s` if there is none.
pub open spec fn bare_end(s: Seq<char>, from: int) -> int
    decreases s.len() - from,
{
    if from < 0 || from >= s.len() {
        s.len() as int
    } else if ends_bare(s[from]) {
        from
    } else {
        bare_end(s, from + 1)
    }
}

/// The value of the attribute `name` in the tag text `tag`.
///
/// The attribute is looked for by its name followed by `=`, without regard to
/// the case of the tag's letters. A value that opens with a quote runs to the
/// matching quote and is absent if the quote is never closed; any other value
/// runs to the first white space, `>` or `/`, or to the end of the tag.
pub open spec fn attr_value(tag: Seq<char>, name: Seq<char>) -> Option<Seq<char>> {
    match first_match(lower(tag), name + seq!['='], 0) {
        None => None,
        Some(at) => {
            let start = at + name.len() + 1;
            if start < tag.len() && is_quote(tag[start]) {
                quoted_value(tag, start)
            } else {
                Some(tag.subrange(start, bare_end(tag, start)))
            }
        },
    }
}

/// The address inside `url(` ... `)`, read from position `from`, which is
/// just behind the opening bracket.
///
/// Leading white space is passed over. A quoted address runs to the matching
/// quote; an unquoted one runs to the closing bracket, with trailing white
/// space removed. Without the closing quote or bracket there is no address.
pub open spec fn url_value(s: Seq<char>, from: int) -> Option<Seq<char>> {
    let start = skip_spaces(s, from);
    if start < s.len() && is_quote(s[start]) {
        quoted_value(s, start)
    } else {
        match first_match(s, seq![')'], start) {
            Some(close) => Some(s.subrange(start, trim_end(s, start, close))),
            None => None,
        }
    }
}

/// The keyword that opens an import rule.
pub open spec fn import_keyword() -> Seq<char> {
    seq!['@', 'i', 'm', 'p', 'o', 'r', 't']
}

/// The opening of the functional notation of an address.
pub open spec fn url_opening() -> Seq<char> {
    seq!['u', 'r', 'l', '(']
}

/// The opening of a link tag.
pub open spec fn link_opening() -> Seq<char> {
    seq!['<', 'l', 'i', 'n', 'k']
}

/// The relation that marks a link as a stylesheet.
pub open spec fn stylesheet_word() -> Seq<char> {
    seq!['s', 't', 'y', 'l', 'e', 's', 'h', 'e', 'e', 't']
}

/// The attribute that carries a link's address.
pub open spec fn href_name() -> Seq<char> {
    seq!['h', 'r', 'e', 'f']
}

/// The address that an import rule names, where `after` is the position just
/// behind its keyword: `url(...)` in either form, or a quoted string.
pub open spec fn import_target(css: Seq<char>, after: int) -> Option<Seq<char>> {
    let a = skip_spaces(css, after);
    if matches_at(css, url_opening(), a) {
        url_value(css, a + 4)
    } else if a < css.len() && is_quote(css[a]) {
        quoted_value(css, a)
    } else {
        None
    }
}

/// The addresses named by the import rules of `css` that begin at or after
/// `pos`, in the order of the rules.
///
/// The keyword is matched without regard to case. After a rule the scan
/// resumes one character behind the first character that follows the keyword
/// and its white space.
pub open spec fn import_hrefs(css: Seq<char>, pos: int) -> Seq<Seq<char>>
    decreases css.len() - pos + 1,
{
    match first_match(lower(css), import_keyword(), pos) {
        None => Seq::empty(),
        Some(at) => {
            let after = at + 7;
            let next = skip_spaces(css, after) + 1;
            proof {
                lemma_first_match_bounds(lower(css), import_keyword(), pos);
                assert(lower(css).len() == css.len());
                lemma_skip_spaces_bounds(css, after);
                assert(next > pos);
            }
            match import_target(css, after) {
                Some(h) => seq![h] + import_hrefs(css, next),
                None => import_hrefs(css, next),
            }
        },
    }
}

/// The address of the link tag `tag`, if the tag speaks of a stylesheet and
/// has an `href` attribute.
pub open spec fn stylesheet_href(tag: Seq<char>) -> Option<Seq<char>> {
    if first_match(lower(tag), stylesheet_word(), 0) is Some {
        attr_value(tag, href_name())
    } else {
        None
    }
}

/// The addresses of the stylesheet links of `html` whose tag begins at or
/// after `pos`, in document order.
///
/// A tag runs from `<link` to the next `>`; a tag that is never closed ends
/// the scan.
pub open spec fn link_hrefs(html: Seq<char>, pos: int) -> Seq<Seq<char>>
    decreases html.len() - pos,
{
    match first_match(lower(html), link_opening(), pos) {
        None => Seq::empty(),
        Some(start) => match first_match(lower(html), seq!['>'], start) {
            None => Seq::empty(),
            Some(gt) => {
                proof {
                    lemma_first_match_bounds(lower(html), link_opening(), pos);
                    lemma_first_match_bounds(lower(html), seq!['>'], start);
                }
                match stylesheet_href(html.subrange(start, gt + 1)) {
                    Some(h) => seq![h] + link_hrefs(html, gt + 1),
                    None => link_hrefs(html, gt + 1),
                }
            },
        },
    }
}

/// The texts of a sequence of strings.
pub open spec fn texts(v: Seq<String>) -> Seq<Seq<char>> {
    Seq::new(v.len(), |i: int| v[i]@)
}

/// The text of an optional string.
pub open spec fn opt_text(o: Option<String>) -> Option<Seq<char>> {
    match o {
        Some(s) => Some(s@),
        None => None,
    }
}

/// The contents of an optional character vector.
pub open spec fn opt_chars(o: Option<Vec<char>>) -> Option<Seq<char>> {
    match o {
        Some(v) => Some(v@),
        None => None,
    }
}

fn is_quote_char(c: char) -> (r: bool)
    ensures
        r == is_quote(c),
{
    c == '"' || c == '\''
}

fn read_quoted(s: &Vec<char>, open: usize) -> (r: Option<Vec<char>>)
    requires
        open < s.len(),
    ensures
        opt_chars(r) == quoted_value(s@, open as int),
{
    match find_char(s, s[open], open + 1) {
        Some(close) => Some(copy_range(s, open + 1, close)),
        None => None,
    }
}

fn find_bare_end(s: &Vec<char>, from: usize) -> (r: usize)
    requires
        from <= s.len(),
    ensures
        r == bare_end(s@, from as int),
        from <= r <= s.len(),
{
    let mut i: usize = from;
    while i < s.len() && !(is_whitespace(s[i]) || s[i] == '>' || s[i] == '/')
        invariant
            from <= i <= s.len(),
            bare_end(s@, from as int) == bare_end(s@, i as int),
        decreases s.len() - i,
    {
        i += 1;
    }
    i
}

/// Reads the value of the attribute `name` from the characters of a tag.
pub fn attr_value_of(tag: &Vec<char>, name: &Vec<char>) -> (r: Option<Vec<char>>)
    ensures
        opt_chars(r) == attr_value(tag@, name@),
{
    let folded = to_lower(tag);
    let mut needle: Vec<char> = Vec::new();
    let mut k: usize = 0;
    while k < name.len()
        invariant
            k <= name.len(),
            needle@ == name@.take(k as int),
        decreases name.len() - k,
    {
        needle.push(name[k]);
        k += 1;
    }
    needle.push('=');
    assert(needle@ =~= name@ + seq!['=']);
    match find(&folded, &needle, 0) {
        None => None,
        Some(at) => {
            let start: usize = at + needle.len();
            if start < tag.len() && is_quote_char(tag[start]) {
                read_quoted(tag, start)
            } else {
                let end = find_bare_end(tag, start);
                Some(copy_range(tag, start, end))
            }
        },
    }
}

/// Pulls the value of a named attribute out of the text of a single tag.
pub fn extract_attr(tag: &str, name: &str) -> (r: Option<String>)
    ensures
        opt_text(r) == attr_value(tag@, name@),
{
    let t = chars_of(tag);
    let n = chars_of(name);
    match attr_value_of(&t, &n) {
        Some(v) => Some(string_of(&v)),
        None => None,
    }
}

/// Reads the address inside `url(` ... `)` from position `from` of `s`.
pub fn url_value_of(s: &Vec<char>, from: usize) -> (r: Option<Vec<char>>)
    ensures
        opt_chars(r) == url_value(s@, from as int),
{
    let start = skip_whitespace(s, from);
    if start < s.len() && is_quote_char(s[start]) {
        read_quoted(s, start)
    } else {
        if start > s.len() {
            return None;
        }
        match find_char(s, ')', start) {
            Some(close) => {
                let end = trim_end_at(s, start, close);
                Some(copy_range(s, start, end))
            },
            None => None,
        }
    }
}

/// Extracts the address from the text that follows `url(`.
pub fn extract_url_value(s: &str) -> (r: Option<String>)
    ensures
        opt_text(r) == url_value(s@, 0),
{
    let v = chars_of(s);
    match url_value_of(&v, 0) {
        Some(a) => Some(string_of(&a)),
        None => None,
    }
}

fn import_target_of(css: &Vec<char>, after: usize, a: usize) -> (r: Option<Vec<char>>)
    requires
        after <= css.len(),
        a == skip_spaces(css@, after as int),
        a <= css.len(),
    ensures
        opt_chars(r) == import_target(css@, after as int),
{
    let opening: Vec<char> = vec!['u', 'r', 'l', '('];
    assert(opening@ =~= url_opening());
    if occurs_at(css, &opening, a) {
        url_value_of(css, a + 4)
    } else if a < css.len() && is_quote_char(css[a]) {
        read_quoted(css, a)
    } else {
        None
    }
}

/// Scans style text for import rules and returns the addresses they name, in
/// order, exactly as written.
pub fn css_import_hrefs(css: &str) -> (r: Vec<String>)
    ensures
        texts(r@) == import_hrefs(css@, 0),
{
    let text = chars_of(css);
    let folded = to_lower(&text);
    let keyword: Vec<char> = vec!['@', 'i', 'm', 'p', 'o', 'r', 't'];
    assert(keyword@ =~= import_keyword());
    let mut out: Vec<String> = Vec::new();
    let mut pos: usize = 0;
    assert(texts(out@) =~= Seq::<Seq<char>>::empty());
    loop
        invariant
            text@ == css@,
            folded@ == lower(text@),
            keyword@ == import_keyword(),
            pos <= text.len(),
            import_hrefs(css@, 0) == texts(out@) + import_hrefs(css@, pos as int),
        decreases text.len() - pos,
    {
        match find(&folded, &keyword, pos) {
            None => {
                assert(texts(out@) + Seq::<Seq<char>>::empty() =~= texts(out@));
                return out;
            },
            Some(at) => {
                let after: usize = at + 7;
                let a = skip_whitespace(&text, after);
                let ghost before = texts(out@);
                match import_target_of(&text, after, a) {
                    Some(h) => {
                        let s = string_of(&h);
                        out.push(s);
                        assert(texts(out@) =~= before + seq![h@]);
                        assert(before + (seq![h@] + import_hrefs(css@, a + 1)) =~= (before + seq![
                            h@,
                        ]) + import_hrefs(css@, a + 1));
                    },
                    None => {},
                }
                if a >= text.len() {
                    assert(import_hrefs(css@, a + 1) =~= Seq::<Seq<char>>::empty());
                    assert(texts(out@) + Seq::<Seq<char>>::empty() =~= texts(out@));
                    return out;
                }
                pos = a + 1;
            },
        }
    }
}

fn stylesheet_href_of(tag: &Vec<char>) -> (r: Option<Vec<char>>)
    ensures
        opt_chars(r) == stylesheet_href(tag@),
{
    let folded = to_lower(tag);
    let word: Vec<char> = vec!['s', 't', 'y', 'l', 'e', 's', 'h', 'e', 'e', 't'];
    assert(word@ =~= stylesheet_word());
    match find(&folded, &word, 0) {
        None => None,
        Some(_) => {
            let name: Vec<char> = vec!['h', 'r', 'e', 'f'];
            assert(name@ =~= href_name());
            attr_value_of(tag, &name)
        },
    }
}

/// Scans markup for stylesheet links and returns their addresses, in document
/// order, exactly as written.
pub fn stylesheet_hrefs(html: &str) -> (r: Vec<String>)
    ensures
        texts(r@) == link_hrefs(html@, 0),
{
    let text = chars_of(html);
    let folded = to_lower(&text);
    let opening: Vec<char> = vec!['<', 'l', 'i', 'n', 'k'];
    assert(opening@ =~= link_opening());
    let mut out: Vec<String> = Vec::new();
    let mut pos: usize = 0;
    assert(texts(out@) =~= Seq::<Seq<char>>::empty());
    loop
        invariant
            text@ == html@,
            folded@ == lower(text@),
            opening@ == link_opening(),
            pos <= text.len(),
            link_hrefs(html@, 0) == texts(out@) + link_hrefs(html@, pos as int),
        decreases text.len() - pos,
    {
        let start = match find(&folded, &opening, pos) {
            None => {
                assert(texts(out@) + Seq::<Seq<char>>::empty() =~= texts(out@));
                return out;
            },
            Some(start) => start,
        };
        let gt = match find_char(&folded, '>', start) {
            None => {
                assert(texts(out@) + Seq::<Seq<char>>::empty() =~= texts(out@));
                return out;
            },
            Some(gt) => gt,
        };
        let tag = copy_range(&text, start, gt + 1);
        let ghost before = texts(out@);
        match stylesheet_href_of(&tag) {
            Some(h) => {
                let s = string_of(&h);
                out.push(s);
                assert(texts(out@) =~= before + seq![h@]);
                assert(before + (seq![h@] + link_hrefs(html@, gt + 1)) =~= (before + seq![h@])
                    + link_hrefs(html@, gt + 1));
            },
            None => {},
        }
        pos = gt + 1;
    }
}

} // verus!
