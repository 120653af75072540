//! Addresses: parsing, resolution of relative references, and the
//! comparisons the scheduler needs.
//!
//! Parsing and joining are the work of the `url` crate. The library keeps the
//! outcome as plain text components, so that everything decided about an
//! address is decided in verified code.

use crate::text::{chars_of, occurs_at};
use vstd::prelude::*;

verus! {

/// The components of a parsed address, as mathematical text.
pub struct UrlParts {
    pub href: Seq<char>,
    pub scheme: Seq<char>,
    pub host: Option<Seq<char>>,
    pub port: Option<u16>,
    pub path: Seq<char>,
    pub query: Option<Seq<char>>,
    pub fragment: Option<Seq<char>>,
}

/// A parsed, absolute address.
///
/// `href` is the normalised text of the whole address; the other fields are
/// its components as the parser reports them. `port` is absent where the
/// address names none or names the default of its scheme.
#[derive(Debug)]
pub struct PageUrl {
    pub href: String,
    pub scheme: String,
    pub host: Option<String>,
    pub port: Option<u16>,
    pub path: String,
    pub query: Option<String>,
    pub fragment: Option<String>,
}

/// Why an address could not be parsed or resolved.
#[derive(Debug)]
pub struct UrlError {
    /// The parser's description of the fault.
    pub message: String,
}

/// The text of an optional string.
pub open spec fn text_of(o: Option<String>) -> Option<Seq<char>> {
    match o {
        Some(s) => Some(s@),
        None => None,
    }
}

impl View for PageUrl {
    type V = UrlParts;

    open spec fn view(&self) -> UrlParts {
        UrlParts {
            href: self.href@,
            scheme: self.scheme@,
            host: text_of(self.host),
            port: self.port,
            path: self.path@,
            query: text_of(self.query),
            fragment: text_of(self.fragment),
        }
    }
}

/// The outcome of parsing or resolving, as mathematical values: the
/// components on success, the parser's description on failure.
pub open spec fn outcome(r: Result<PageUrl, UrlError>) -> Result<UrlParts, Seq<char>> {
    match r {
        Ok(u) => Ok(u@),
        Err(e) => Err(e.message@),
    }
}

/// What the `url` crate makes of `input` when it is parsed as an absolute
/// address.
pub uninterp spec fn parsed(input: Seq<char>) -> Result<UrlParts, Seq<char>>;

/// What the `url` crate makes of `reference` when `base` is parsed as an
/// absolute address and `reference` is then resolved against it.
pub uninterp spec fn joined(base: Seq<char>, reference: Seq<char>) -> Result<UrlParts, Seq<char>>;

/// `url::Url::parse`. The result is a function of the input alone: the
/// parsed address converted component by component, or the parser's error
/// in words.
#[verifier::external_body]
fn parse_url(input: &str) -> (r: Result<PageUrl, UrlError>)
    ensures
        outcome(r) == parsed(input@),
{
    match url::Url::parse(input) {
        Ok(u) => Ok(PageUrl {
            href: u.as_str().to_string(), scheme: u.scheme().to_string(),
            host: u.host_str().map(str::to_string), port: u.port(),
            path: u.path().to_string(), query: u.query().map(str::to_string),
            fragment: u.fragment().map(str::to_string),
        }),
        Err(e) => Err(UrlError { message: e.to_string() }),
    }
}

/// `url::Url::join`, on a base given as text. The base is first parsed with
/// `url::Url::parse`; a base that does not parse gives the error of that
/// parse, whatever the reference. The result is a function of the two texts
/// alone.
#[verifier::external_body]
fn join_url(base: &str, reference: &str) -> (r: Result<PageUrl, UrlError>)
    ensures
        outcome(r) == joined(base@, reference@),
        parsed(base@) is Err ==> outcome(r) == parsed(base@),
{
    let b = match url::Url::parse(base) {
        Ok(b) => b,
        Err(e) => return Err(UrlError { message: e.to_string() }),
    };
    match b.join(reference) {
        Ok(u) => Ok(PageUrl {
            href: u.as_str().to_string(), scheme: u.scheme().to_string(),
            host: u.host_str().map(str::to_string), port: u.port(),
            path: u.path().to_string(), query: u.query().map(str::to_string),
            fragment: u.fragment().map(str::to_string),
        }),
        Err(e) => Err(UrlError { message: e.to_string() }),
    }
}

/// The address a reference stands for, found in up to three attempts: the
/// reference taken as an absolute address; else the reference resolved
/// against `base`, unless `base` is empty; else the reference resolved
/// against `page`. The error of the last attempt is the error of the whole.
pub open spec fn resolved(src: Seq<char>, base: Seq<char>, page: Seq<char>) -> Result<
    UrlParts,
    Seq<char>,
> {
    if parsed(src) is Ok {
        parsed(src)
    } else if base.len() > 0 && joined(base, src) is Ok {
        joined(base, src)
    } else {
        joined(page, src)
    }
}

/// The scheme is `http` or `https`.
pub open spec fn is_web(u: UrlParts) -> bool {
    u.scheme == seq!['h', 't', 't', 'p'] || u.scheme == seq!['h', 't', 't', 'p', 's']
}

/// Two addresses name the same page: they agree in scheme, host, port, path
/// and query. The fragment plays no part.
pub open spec fn same_page(a: UrlParts, b: UrlParts) -> bool {
    a.scheme == b.scheme && a.host == b.host && a.port == b.port && a.path == b.path && a.query
        == b.query
}

/// Whether two addresses name the same page does not depend on the order in
/// which they are given, and every address names the same page as itself.
pub proof fn lemma_same_page_is_symmetric(a: UrlParts, b: UrlParts)
    ensures
        same_page(a, b) == same_page(b, a),
        same_page(a, a),
{
}

/// Parses `input` as an absolute address.
pub fn parse(input: &str) -> (r: Result<PageUrl, UrlError>)
    ensures
        outcome(r) == parsed(input@),
{
    parse_url(input)
}

/// Resolves `reference` against the address written in `base`. Against a
/// base that is no address nothing resolves: the answer is the fault of the
/// base.
pub fn join(base: &str, reference: &str) -> (r: Result<PageUrl, UrlError>)
    ensures
        outcome(r) == joined(base@, reference@),
        parsed(base@) is Err ==> outcome(r) == parsed(base@),
{
    join_url(base, reference)
}

/// Resolves the address of a resource in three attempts: as an absolute
/// address, against `baseurl` (say, the stylesheet that names it), and
/// against `page_url`. Where the source is no address, there is no base and
/// the page's address is none either, the fault reported is that of the
/// page's address.
pub fn resolve_url(src: &str, baseurl: &str, page_url: &str) -> (r: Result<PageUrl, UrlError>)
    ensures
        outcome(r) == resolved(src@, baseurl@, page_url@),
        parsed(src@) is Err && baseurl@.len() == 0 && parsed(page_url@) is Err ==> outcome(r)
            == parsed(page_url@),
{
    match parse_url(src) {
        Ok(u) => Ok(u),
        Err(_) => {
            if !baseurl.is_empty() {
                match join_url(baseurl, src) {
                    Ok(u) => {
                        return Ok(u);
                    },
                    Err(_) => {},
                }
            }
            join_url(page_url, src)
        },
    }
}

fn same_text(a: &String, b: &String) -> (r: bool)
    ensures
        r == (a@ == b@),
{
    *a == *b
}

fn same_optional_text(a: &Option<String>, b: &Option<String>) -> (r: bool)
    ensures
        r == (text_of(*a) == text_of(*b)),
{
    match (a, b) {
        (Some(x), Some(y)) => same_text(x, y),
        (None, None) => true,
        _ => false,
    }
}

fn same_port(a: Option<u16>, b: Option<u16>) -> (r: bool)
    ensures
        r == (a == b),
{
    match (a, b) {
        (Some(x), Some(y)) => x == y,
        (None, None) => true,
        _ => false,
    }
}

fn text_equals(s: &String, word: &Vec<char>) -> (r: bool)
    ensures
        r == (s@ == word@),
{
    let c = chars_of(s.as_str());
    if c.len() != word.len() {
        return false;
    }
    let r = occurs_at(&c, word, 0);
    assert(c@.subrange(0, c@.len() as int) =~= c@);
    r
}

/// Checks whether two addresses refer to the same page (ignoring fragment).
pub fn is_same_page(a: &PageUrl, b: &PageUrl) -> (r: bool)
    ensures
        r == same_page(a@, b@),
{
    same_text(&a.scheme, &b.scheme) && same_optional_text(&a.host, &b.host) && same_port(
        a.port,
        b.port,
    ) && same_text(&a.path, &b.path) && same_optional_text(&a.query, &b.query)
}

/// Checks whether an address can be fetched over the network by this
/// library: only `http` and `https` can.
pub fn is_web_url(u: &PageUrl) -> (r: bool)
    ensures
        r == is_web(u@),
{
    let http: Vec<char> = vec!['h', 't', 't', 'p'];
    let https: Vec<char> = vec!['h', 't', 't', 'p', 's'];
    assert(http@ =~= seq!['h', 't', 't', 'p']);
    assert(https@ =~= seq!['h', 't', 't', 'p', 's']);
    text_equals(&u.scheme, &http) || text_equals(&u.scheme, &https)
}

fn copy_optional(o: &Option<String>) -> (r: Option<String>)
    ensures
        text_of(r) == text_of(*o),
{
    match o {
        Some(s) => Some(s.clone()),
        None => None,
    }
}

impl PageUrl {
    /// A copy with the same components.
    pub fn duplicate(&self) -> (r: PageUrl)
        ensures
            r@ == self@,
    {
        PageUrl {
            href: self.href.clone(),
            scheme: self.scheme.clone(),
            host: copy_optional(&self.host),
            port: self.port,
            path: self.path.clone(),
            query: copy_optional(&self.query),
            fragment: copy_optional(&self.fragment),
        }
    }
}

} // verus!
