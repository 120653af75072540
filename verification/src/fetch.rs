//! The executable page fetch.
//!
//! `PageFetch` is driven by whoever owns the network connection: it is
//! started with an address, answers with a request, and from then on takes
//! what the transport reports and answers with the next request until the
//! page is complete or has failed. Every step is the step of the machine
//! defined in `fetch_model`.

use crate::cache::StylesheetCache;
use crate::fetch_model::{
    advance, begin, capped, jobs, joinable, lemma_step_preserves_wf, out_of_turn, passes_over,
    skip, step, take_page, take_style, wf, Event, FetchModel, Job, Phase, Step,
};
use crate::escape::{error_document, failure_document};
use crate::limits::{
    accepted, admit_body, admit_head, description, limit_of, FetchError, Failure, Resource,
    MAX_IMPORT_DEPTH, MAX_STYLESHEETS,
};
use crate::scan::{css_import_hrefs, import_hrefs, link_hrefs, stylesheet_hrefs, texts};
use crate::text::decode_lossy;
use crate::weburl::{join, parse, PageUrl, UrlParts};
use vstd::prelude::*;

verus! {

/// What the transport reports to a fetch.
#[derive(Debug)]
pub enum FetchEvent {
    /// A response arrived, announcing this length if any.
    Head(Option<u64>),
    /// The body arrived.
    Body(Vec<u8>),
    /// The transfer failed, for this reason.
    Failed(String),
}

/// What a fetch asks of the transport next.
#[derive(Debug)]
pub enum FetchStep {
    /// Request this address and report the response.
    Get(String),
    /// Read the body of the response just reported.
    ReadBody,
    /// Nothing: the page is complete.
    Finished,
    /// Nothing: the fetch failed.
    Failed(FetchError),
}

impl View for FetchEvent {
    type V = Event;

    open spec fn view(&self) -> Event {
        match self {
            FetchEvent::Head(announced) => Event::Head(*announced),
            FetchEvent::Body(bytes) => Event::Body(bytes@),
            FetchEvent::Failed(cause) => Event::Failed(cause@),
        }
    }
}

impl View for FetchStep {
    type V = Step;

    open spec fn view(&self) -> Step {
        match self {
            FetchStep::Get(address) => Step::Get(address@),
            FetchStep::ReadBody => Step::ReadBody,
            FetchStep::Finished => Step::Finished,
            FetchStep::Failed(error) => Step::Failed(error@),
        }
    }
}

/// A page as retrieved: its text, unmodified, and the stylesheets it names.
pub struct Page {
    pub html: String,
    pub styles: StylesheetCache,
}

/// The components of a sequence of addresses.
pub open spec fn parts(v: Seq<PageUrl>) -> Seq<UrlParts> {
    Seq::new(v.len(), |i: int| v[i]@)
}

/// Resolves each reference against `base` and keeps those that resolve.
pub fn resolve_all(hrefs: &Vec<String>, base: &str) -> (r: Vec<PageUrl>)
    ensures
        parts(r@) == joinable(texts(hrefs@), base@),
{
    let mut out: Vec<PageUrl> = Vec::new();
    let mut i: usize = 0;
    assert(texts(hrefs@).take(0) =~= Seq::<Seq<char>>::empty());
    assert(parts(out@) =~= Seq::<UrlParts>::empty());
    while i < hrefs.len()
        invariant
            i <= hrefs.len(),
            parts(out@) == joinable(texts(hrefs@).take(i as int), base@),
        decreases hrefs.len() - i,
    {
        let ghost before = parts(out@);
        assert(texts(hrefs@).take(i + 1).drop_last() =~= texts(hrefs@).take(i as int));
        assert(texts(hrefs@).take(i + 1).last() == hrefs@[i as int]@);
        match join(base, hrefs[i].as_str()) {
            Ok(u) => {
                out.push(u);
                assert(parts(out@) =~= before.push(u@));
            },
            Err(_) => {},
        }
        i += 1;
    }
    assert(texts(hrefs@).take(i as int) =~= texts(hrefs@));
    out
}

/// Scans style text for import rules and returns the addresses they name,
/// resolved against the stylesheet's own address.
pub fn extract_css_imports(css: &str, base: &PageUrl) -> (r: Vec<PageUrl>)
    ensures
        parts(r@) == joinable(import_hrefs(css@, 0), base.href@),
{
    let hrefs = css_import_hrefs(css);
    resolve_all(&hrefs, base.href.as_str())
}

/// Scans markup for stylesheet links and returns their addresses, resolved
/// against the page's address.
pub fn extract_stylesheet_links(html: &str, base: &PageUrl) -> (r: Vec<PageUrl>)
    ensures
        parts(r@) == joinable(link_hrefs(html@, 0), base.href@),
{
    let hrefs = stylesheet_hrefs(html);
    resolve_all(&hrefs, base.href.as_str())
}

/// Drops every link behind the first `MAX_STYLESHEETS`.
pub fn cap_links(links: Vec<PageUrl>) -> (r: Vec<PageUrl>)
    ensures
        parts(r@) == capped(parts(links@)),
{
    let ghost all = parts(links@);
    let mut links = links;
    if links.len() > MAX_STYLESHEETS {
        links.truncate(MAX_STYLESHEETS);
        assert(parts(links@) =~= capped(all));
    }
    links
}

/// Judges a fetched image by the length its response announced and by the
/// bytes that arrived, and hands the bytes on if both are within the limit.
/// The announcement is judged first.
pub fn admit_image(announced: Option<u64>, body: Vec<u8>) -> (r: Result<Vec<u8>, FetchError>)
    ensures
        r is Ok <==> accepted(Resource::Image, announced, body@.len()),
        r matches Ok(bytes) ==> bytes@ == body@,
        r matches Err(e) ==> e@ == (Failure::TooLarge {
            what: Resource::Image,
            size: if crate::limits::announced_too_large(announced, limit_of(Resource::Image)) {
                announced->0
            } else {
                body@.len() as u64
            },
            limit: limit_of(Resource::Image),
        }),
{
    match admit_head(Resource::Image, announced) {
        Err(e) => Err(e),
        Ok(()) => match admit_body(Resource::Image, body.len()) {
            Err(e) => Err(e),
            Ok(()) => Ok(body),
        },
    }
}

/// What is loaded into a view when the fetch of its page has ended: the
/// page and its stylesheets, or the failure document for the address and
/// the cause, without stylesheets. A view is never left without a document.
pub fn document_for(url: &str, result: Result<Page, FetchError>) -> (doc: (
    String,
    Option<StylesheetCache>,
))
    ensures
        match result {
            Ok(page) => doc.0@ == page.html@ && doc.1 is Some && doc.1->0@ == page.styles@,
            Err(error) => doc.0@ == failure_document(url@, description(error@)) && doc.1 is None,
        },
{
    match result {
        Ok(page) => (page.html, Some(page.styles)),
        Err(error) => {
            let cause = error.message();
            (error_document(url, cause.as_str()), None)
        },
    }
}

struct ImportJob {
    url: PageUrl,
    depth: usize,
}

struct Machine {
    phase: Phase,
    address: String,
    base: String,
    html: String,
    links: Vec<PageUrl>,
    next_link: usize,
    imports: Vec<ImportJob>,
    current: Option<ImportJob>,
    styles: StylesheetCache,
}

spec fn job_of(j: ImportJob) -> Job {
    Job { url: j.url@, depth: j.depth as nat }
}

spec fn jobs_of(v: Seq<ImportJob>) -> Seq<Job> {
    Seq::new(v.len(), |i: int| job_of(v[i]))
}

spec fn current_of(c: Option<ImportJob>) -> Option<Job> {
    match c {
        Some(j) => Some(job_of(j)),
        None => None,
    }
}

impl Machine {
    spec fn model(&self) -> FetchModel {
        FetchModel {
            phase: self.phase,
            address: self.address@,
            base: self.base@,
            html: self.html@,
            links: parts(self.links@),
            next_link: self.next_link as nat,
            imports: jobs_of(self.imports@),
            current: current_of(self.current),
            styles: self.styles@,
        }
    }
}

fn unexpected() -> (e: FetchError)
    ensures
        e@ == out_of_turn(),
{
    FetchError::Network(String::from_str("unexpected event"))
}

fn choose_next(initial: Machine) -> (r: (Machine, FetchStep))
    requires
        initial.next_link <= initial.links.len(),
    ensures
        (r.0.model(), r.1@) == advance(initial.model()),
{
    let mut m = initial;
    loop
        invariant
            m.next_link <= m.links.len(),
            advance(m.model()) == advance(initial.model()),
        decreases m.imports.len() + (m.links.len() - m.next_link),
    {
        let ghost before = m.model();
        if m.imports.len() > 0 {
            let job = m.imports.pop().unwrap();
            assert(jobs_of(m.imports@) =~= before.imports.drop_last());
            assert(job_of(job) == before.imports.last());
            let full = m.styles.len() >= MAX_STYLESHEETS;
            if full || m.styles.contains(job.url.href.as_str()) || job.depth > MAX_IMPORT_DEPTH {
                assert(passes_over(before, job_of(job)));
                continue ;
            }
            assert(!passes_over(before, job_of(job)));
            let target = job.url.href.clone();
            m.current = Some(job);
            m.phase = Phase::StyleHead;
            return (m, FetchStep::Get(target));
        } else if m.next_link < m.links.len() {
            let url = m.links[m.next_link].duplicate();
            let ghost link = Job { url: url@, depth: 0 };
            assert(link.url == before.links[before.next_link as int]);
            m.next_link = m.next_link + 1;
            let full = m.styles.len() >= MAX_STYLESHEETS;
            if full || m.styles.contains(url.href.as_str()) {
                assert(passes_over(before, link));
                continue ;
            }
            assert(!passes_over(before, link));
            let target = url.href.clone();
            m.current = Some(ImportJob { url, depth: 0 });
            m.phase = Phase::StyleHead;
            return (m, FetchStep::Get(target));
        } else {
            m.phase = Phase::Finished;
            m.current = None;
            return (m, FetchStep::Finished);
        }
    }
}

fn give_up(m: Machine) -> (r: (Machine, FetchStep))
    requires
        m.next_link <= m.links.len(),
    ensures
        (r.0.model(), r.1@) == skip(m.model()),
{
    let mut m = m;
    m.current = None;
    choose_next(m)
}

fn failed(m: Machine, error: FetchError) -> (r: (Machine, FetchStep))
    ensures
        (r.0.model(), r.1@) == crate::fetch_model::fail(m.model(), error@),
{
    let mut m = m;
    m.phase = Phase::Failed;
    m.current = None;
    (m, FetchStep::Failed(error))
}

fn load_page(m: Machine, body: Vec<u8>) -> (r: (Machine, FetchStep))
    ensures
        (r.0.model(), r.1@) == take_page(m.model(), body@),
{
    let mut m = m;
    let html = decode_lossy(body.as_slice());
    let hrefs = stylesheet_hrefs(html.as_str());
    let links = cap_links(resolve_all(&hrefs, m.base.as_str()));
    m.html = html;
    m.links = links;
    m.next_link = 0;
    choose_next(m)
}

fn load_style(m: Machine, job: ImportJob, body: Vec<u8>) -> (r: (Machine, FetchStep))
    requires
        m.next_link <= m.links.len(),
        job.depth <= MAX_IMPORT_DEPTH,
        !m.styles@.dom().contains(job.url.href@),
    ensures
        (r.0.model(), r.1@) == take_style(m.model(), job_of(job), body@),
{
    let ghost before = m.model();
    let mut m = m;
    let css = decode_lossy(body.as_slice());
    let hrefs = css_import_hrefs(css.as_str());
    let mut found = resolve_all(&hrefs, job.url.href.as_str());
    let ghost all = parts(found@);
    let depth: usize = job.depth + 1;
    let total: usize = found.len();
    assert(jobs(all.reverse(), depth as nat).take(0) =~= Seq::<Job>::empty());
    assert(before.imports + Seq::<Job>::empty() =~= before.imports);
    while found.len() > 0
        invariant
            found.len() <= total,
            total == all.len(),
            parts(found@) == all.take(found.len() as int),
            jobs_of(m.imports@) == before.imports + jobs(all.reverse(), depth as nat).take(
                total - found.len(),
            ),
            m.phase == before.phase,
            m.address@ == before.address,
            m.base@ == before.base,
            m.html@ == before.html,
            parts(m.links@) == before.links,
            m.next_link == before.next_link,
            m.next_link <= m.links.len(),
            m.styles@ == before.styles,
        decreases found.len(),
    {
        let ghost waiting = jobs_of(m.imports@);
        let ghost k = total - found.len();
        let ghost remaining = parts(found@);
        let url = found.pop().unwrap();
        assert(url@ == all[total - 1 - k]) by {
            assert(remaining[total - 1 - k] == all.take((total - k) as int)[total - 1 - k]);
        }
        assert(parts(found@) =~= all.take(found.len() as int));
        m.imports.push(ImportJob { url, depth });
        assert(jobs_of(m.imports@) =~= waiting.push(Job { url: url@, depth: depth as nat }));
        assert(jobs(all.reverse(), depth as nat).take(k + 1) =~= jobs(
            all.reverse(),
            depth as nat,
        ).take(k).push(Job { url: url@, depth: depth as nat }));
        assert(before.imports + jobs(all.reverse(), depth as nat).take(k + 1) =~= (before.imports
            + jobs(all.reverse(), depth as nat).take(k)).push(
            Job { url: url@, depth: depth as nat },
        ));
    }
    assert(jobs(all.reverse(), depth as nat).take(total as int) =~= jobs(
        all.reverse(),
        depth as nat,
    ));
    m.styles.insert(job.url.href, css);
    m.current = None;
    choose_next(m)
}

fn run(m: Machine, event: FetchEvent) -> (r: (Machine, FetchStep))
    requires
        wf(m.model()),
    ensures
        (r.0.model(), r.1@) == step(m.model(), event@),
{
    match m.phase {
        Phase::PageHead => match event {
            FetchEvent::Head(announced) => match admit_head(Resource::Page, announced) {
                Err(error) => failed(m, error),
                Ok(()) => {
                    let mut m = m;
                    m.phase = Phase::PageBody;
                    (m, FetchStep::ReadBody)
                },
            },
            FetchEvent::Failed(cause) => failed(m, FetchError::Network(cause)),
            FetchEvent::Body(_) => failed(m, unexpected()),
        },
        Phase::PageBody => match event {
            FetchEvent::Body(body) => match admit_body(Resource::Page, body.len()) {
                Err(error) => failed(m, error),
                Ok(()) => load_page(m, body),
            },
            FetchEvent::Failed(cause) => failed(m, FetchError::Network(cause)),
            FetchEvent::Head(_) => failed(m, unexpected()),
        },
        Phase::StyleHead => match event {
            FetchEvent::Head(announced) => match admit_head(Resource::Stylesheet, announced) {
                Err(_) => give_up(m),
                Ok(()) => {
                    let mut m = m;
                    m.phase = Phase::StyleBody;
                    (m, FetchStep::ReadBody)
                },
            },
            FetchEvent::Failed(_) => give_up(m),
            FetchEvent::Body(_) => failed(m, unexpected()),
        },
        Phase::StyleBody => match event {
            FetchEvent::Body(body) => {
                let Machine {
                    phase,
                    address,
                    base,
                    html,
                    links,
                    next_link,
                    imports,
                    current,
                    styles,
                } = m;
                let rest = Machine {
                    phase,
                    address,
                    base,
                    html,
                    links,
                    next_link,
                    imports,
                    current: None,
                    styles,
                };
                match current {
                    Some(job) => match admit_body(Resource::Stylesheet, body.len()) {
                        Err(_) => choose_next(rest),
                        Ok(()) => load_style(rest, job, body),
                    },
                    None => choose_next(rest),
                }
            },
            FetchEvent::Failed(_) => give_up(m),
            FetchEvent::Head(_) => failed(m, unexpected()),
        },
        Phase::Finished => (m, FetchStep::Finished),
        Phase::Failed => (m, FetchStep::Failed(unexpected())),
    }
}

/// The retrieval of one page and its stylesheets, step by step.
pub struct PageFetch {
    machine: Machine,
}

impl View for PageFetch {
    type V = FetchModel;

    closed spec fn view(&self) -> FetchModel {
        self.machine.model()
    }
}

impl PageFetch {
    #[verifier::type_invariant]
    spec fn reachable(self) -> bool {
        wf(self.machine.model())
    }

    fn blank(phase: Phase, address: String) -> (m: Machine)
        ensures
            m.model() == (FetchModel {
                phase,
                address: address@,
                base: Seq::empty(),
                html: Seq::empty(),
                links: Seq::empty(),
                next_link: 0,
                imports: Seq::empty(),
                current: None,
                styles: Map::empty(),
            }),
    {
        let m = Machine {
            phase,
            address,
            base: String::new(),
            html: String::new(),
            links: Vec::new(),
            next_link: 0,
            imports: Vec::new(),
            current: None,
            styles: StylesheetCache::new(),
        };
        assert(parts(m.links@) =~= Seq::<UrlParts>::empty());
        assert(jobs_of(m.imports@) =~= Seq::<Job>::empty());
        m
    }

    /// Starts the fetch of the page at `address`. The address is parsed
    /// first: a malformed one fails the fetch at once, a well-formed one is
    /// requested as given.
    pub fn start(address: String) -> (r: (PageFetch, FetchStep))
        ensures
            (r.0@, r.1@) == begin(address@),
            wf(r.0@),
    {
        match parse(address.as_str()) {
            Ok(url) => {
                let target = address.clone();
                let mut machine = PageFetch::blank(Phase::PageHead, address);
                machine.base = url.href;
                (PageFetch { machine }, FetchStep::Get(target))
            },
            Err(error) => {
                let machine = PageFetch::blank(Phase::Failed, address);
                (PageFetch { machine }, FetchStep::Failed(FetchError::MalformedUrl(error.message)))
            },
        }
    }

    /// Takes what the transport reported and answers with what to ask of it
    /// next. The fetch moves exactly as `step` of the model says, from a
    /// well-formed state to a well-formed state; what holds of every such
    /// move is proved there.
    pub fn step(&mut self, event: FetchEvent) -> (r: FetchStep)
        ensures
            (final(self)@, r@) == step(old(self)@, event@),
            wf(old(self)@),
            wf(final(self)@),
    {
        proof {
            use_type_invariant(&*self);
            lemma_step_preserves_wf(self@, event@);
        }
        let mut taken = PageFetch { machine: PageFetch::blank(Phase::Failed, String::new()) };
        core::mem::swap(self, &mut taken);
        let (machine, next) = run(taken.machine, event);
        *self = PageFetch { machine };
        next
    }

    /// Where the fetch stands.
    pub fn phase(&self) -> (p: Phase)
        ensures
            p == self@.phase,
            wf(self@),
    {
        proof {
            use_type_invariant(self);
        }
        self.machine.phase
    }

    /// The number of stylesheets retrieved so far. It never exceeds
    /// `MAX_STYLESHEETS`.
    pub fn stylesheet_count(&self) -> (n: usize)
        ensures
            n == self@.styles.dom().len(),
            n <= MAX_STYLESHEETS,
            wf(self@),
    {
        proof {
            use_type_invariant(self);
        }
        self.machine.styles.len()
    }

    /// Hands over the page once the fetch is complete: its text as it
    /// arrived and the stylesheets retrieved for it. There is no page while
    /// the fetch is under way or after it has failed.
    pub fn into_page(self) -> (page: Option<Page>)
        ensures
            page is Some <==> self@.phase == Phase::Finished,
            page matches Some(p) ==> p.html@ == self@.html && p.styles@ == self@.styles
                && p.styles@.dom().len() <= MAX_STYLESHEETS,
            wf(self@),
    {
        proof {
            use_type_invariant(&self);
        }
        match self.machine.phase {
            Phase::Finished => Some(Page { html: self.machine.html, styles: self.machine.styles }),
            _ => None,
        }
    }
}

} // verus!
