//! The page fetch as a state machine over mathematical values.
//!
//! A fetch retrieves one page and, bounded in number and depth, the
//! stylesheets it names. The machine never touches the network: every step
//! takes what the transport reported and answers with what to ask of it next.
//! This file defines the machine and proves what holds of every run; the
//! executable machine of `fetch` follows it step for step.

use crate::limits::{
    announced_too_large, Failure, Resource, MAX_CSS_SIZE, MAX_IMPORT_DEPTH, MAX_PAGE_SIZE,
    MAX_STYLESHEETS,
};
use crate::scan::{import_hrefs, link_hrefs};
use crate::text::lossy_text;
use crate::weburl::{joined, parsed, UrlParts};
use vstd::prelude::*;

verus! {

/// A stylesheet waiting to be fetched, with the depth of the import chain
/// that led to it. Stylesheets linked from the page have depth zero.
pub struct Job {
    pub url: UrlParts,
    pub depth: nat,
}

/// Where a fetch stands.
#[derive(Clone, Copy, Debug, PartialEq, Eq, Structural)]
pub enum Phase {
    /// The page was requested; its response has not arrived.
    PageHead,
    /// The page's response was admitted; its body is being read.
    PageBody,
    /// A stylesheet was requested; its response has not arrived.
    StyleHead,
    /// A stylesheet's response was admitted; its body is being read.
    StyleBody,
    /// The page and its stylesheets are complete.
    Finished,
    /// The fetch failed.
    Failed,
}

/// The state of a fetch.
pub struct FetchModel {
    pub phase: Phase,
    /// The page's address as it was given.
    pub address: Seq<char>,
    /// The page's address as parsed and normalised: the base of its links.
    pub base: Seq<char>,
    /// The page's text, once its body has arrived.
    pub html: Seq<char>,
    /// The stylesheets linked from the page that will be followed.
    pub links: Seq<UrlParts>,
    /// How many of `links` have been taken up.
    pub next_link: nat,
    /// Imports waiting to be followed; the last one is followed first.
    pub imports: Seq<Job>,
    /// The stylesheet in transfer.
    pub current: Option<Job>,
    /// The stylesheets retrieved so far, by address.
    pub styles: Map<Seq<char>, Seq<char>>,
}

/// What the transport reports.
pub enum Event {
    /// A response arrived, announcing this length if any.
    Head(Option<u64>),
    /// The body arrived.
    Body(Seq<u8>),
    /// The transfer failed, for this reason.
    Failed(Seq<char>),
}

/// What the machine asks for next.
pub enum Step {
    /// Request this address and report the response.
    Get(Seq<char>),
    /// Read the body of the response just reported.
    ReadBody,
    /// Nothing: the page is complete.
    Finished,
    /// Nothing: the fetch failed.
    Failed(Failure),
}

/// The failure reported for an event that cannot follow the last request.
pub open spec fn out_of_turn() -> Failure {
    Failure::Network("unexpected event"@)
}

/// The references among `hrefs` that resolve against `base`, resolved, in
/// order. A reference that does not resolve is left out.
pub open spec fn joinable(hrefs: Seq<Seq<char>>, base: Seq<char>) -> Seq<UrlParts>
    decreases hrefs.len(),
{
    if hrefs.len() == 0 {
        Seq::empty()
    } else {
        let rest = joinable(hrefs.drop_last(), base);
        match joined(base, hrefs.last()) {
            Ok(u) => rest.push(u),
            Err(_) => rest,
        }
    }
}

/// The first `MAX_STYLESHEETS` of a page's links; the rest are dropped.
pub open spec fn capped(links: Seq<UrlParts>) -> Seq<UrlParts> {
    if links.len() > MAX_STYLESHEETS {
        links.take(MAX_STYLESHEETS as int)
    } else {
        links
    }
}

/// Jobs for the given addresses, all at one depth.
pub open spec fn jobs(urls: Seq<UrlParts>, depth: nat) -> Seq<Job> {
    Seq::new(urls.len(), |i: int| Job { url: urls[i], depth })
}

/// The number of links not yet taken up.
pub open spec fn links_left(m: FetchModel) -> nat {
    if m.next_link <= m.links.len() {
        (m.links.len() - m.next_link) as nat
    } else {
        0
    }
}

/// The fetch fails for the given reason.
pub open spec fn fail(m: FetchModel, reason: Failure) -> (FetchModel, Step) {
    (FetchModel { phase: Phase::Failed, current: None, ..m }, Step::Failed(reason))
}

/// The start of a fetch: the address is parsed, and if it is well formed the
/// page is requested under the address as given.
pub open spec fn begin(address: Seq<char>) -> (FetchModel, Step) {
    let fresh = FetchModel {
        phase: Phase::PageHead,
        address,
        base: Seq::empty(),
        html: Seq::empty(),
        links: Seq::empty(),
        next_link: 0,
        imports: Seq::empty(),
        current: None,
        styles: Map::empty(),
    };
    match parsed(address) {
        Ok(u) => (FetchModel { base: u.href, ..fresh }, Step::Get(address)),
        Err(cause) => fail(fresh, Failure::MalformedUrl(cause)),
    }
}

/// A stylesheet is passed over when the cache is full, when its address is
/// cached already, or when its import chain is too long. The cache is full
/// when it holds `MAX_STYLESHEETS` stylesheets, wherever they came from.
pub open spec fn passes_over(m: FetchModel, job: Job) -> bool {
    m.styles.dom().len() >= MAX_STYLESHEETS || m.styles.dom().contains(job.url.href) || job.depth
        > MAX_IMPORT_DEPTH
}

/// Chooses the next stylesheet to request. Waiting imports come first, the
/// most recent first; then the page's remaining links in order. Whatever is
/// to be passed over, import or link, is passed over. When nothing is left
/// the fetch is complete.
pub open spec fn advance(m: FetchModel) -> (FetchModel, Step)
    decreases m.imports.len() + links_left(m),
{
    if m.imports.len() > 0 {
        let job = m.imports.last();
        let rest = FetchModel { imports: m.imports.drop_last(), ..m };
        if passes_over(m, job) {
            advance(rest)
        } else {
            (
                FetchModel { phase: Phase::StyleHead, current: Some(job), ..rest },
                Step::Get(job.url.href),
            )
        }
    } else if m.next_link < m.links.len() {
        let job = Job { url: m.links[m.next_link as int], depth: 0 };
        let rest = FetchModel { next_link: m.next_link + 1, ..m };
        if passes_over(m, job) {
            advance(rest)
        } else {
            (
                FetchModel { phase: Phase::StyleHead, current: Some(job), ..rest },
                Step::Get(job.url.href),
            )
        }
    } else {
        (FetchModel { phase: Phase::Finished, current: None, ..m }, Step::Finished)
    }
}

/// The stylesheet in transfer is given up; the next one is chosen.
pub open spec fn skip(m: FetchModel) -> (FetchModel, Step) {
    advance(FetchModel { current: None, ..m })
}

/// The page's body is taken in: its text is kept as it is, its stylesheet
/// links are resolved against the page's address and capped, and the first
/// stylesheet is chosen.
pub open spec fn take_page(m: FetchModel, body: Seq<u8>) -> (FetchModel, Step) {
    let html = lossy_text(body);
    advance(
        FetchModel {
            html,
            links: capped(joinable(link_hrefs(html, 0), m.base)),
            next_link: 0,
            ..m
        },
    )
}

/// A stylesheet's body is taken in: its text is cached under its address,
/// its imports are resolved against that address and put before everything
/// that is waiting, in their order, and the next stylesheet is chosen.
pub open spec fn take_style(m: FetchModel, job: Job, body: Seq<u8>) -> (FetchModel, Step) {
    let css = lossy_text(body);
    let found = joinable(import_hrefs(css, 0), job.url.href);
    advance(
        FetchModel {
            current: None,
            styles: m.styles.insert(job.url.href, css),
            imports: m.imports + jobs(found.reverse(), job.depth + 1),
            ..m
        },
    )
}

/// One step of the fetch.
///
/// A page that announces or delivers more than `MAX_PAGE_SIZE` bytes, or
/// whose transfer fails, fails the fetch. A stylesheet that announces or
/// delivers more than `MAX_CSS_SIZE` bytes, or whose transfer fails, is
/// given up and the fetch goes on. An event that cannot follow the last
/// request fails the fetch.
pub open spec fn step(m: FetchModel, e: Event) -> (FetchModel, Step) {
    match m.phase {
        Phase::PageHead => match e {
            Event::Head(announced) => if announced_too_large(announced, MAX_PAGE_SIZE) {
                fail(
                    m,
                    Failure::TooLarge {
                        what: Resource::Page,
                        size: announced->0,
                        limit: MAX_PAGE_SIZE,
                    },
                )
            } else {
                (FetchModel { phase: Phase::PageBody, ..m }, Step::ReadBody)
            },
            Event::Failed(cause) => fail(m, Failure::Network(cause)),
            Event::Body(_) => fail(m, out_of_turn()),
        },
        Phase::PageBody => match e {
            Event::Body(body) => if body.len() > MAX_PAGE_SIZE {
                fail(
                    m,
                    Failure::TooLarge {
                        what: Resource::Page,
                        size: body.len() as u64,
                        limit: MAX_PAGE_SIZE,
                    },
                )
            } else {
                take_page(m, body)
            },
            Event::Failed(cause) => fail(m, Failure::Network(cause)),
            Event::Head(_) => fail(m, out_of_turn()),
        },
        Phase::StyleHead => match e {
            Event::Head(announced) => if announced_too_large(announced, MAX_CSS_SIZE) {
                skip(m)
            } else {
                (FetchModel { phase: Phase::StyleBody, ..m }, Step::ReadBody)
            },
            Event::Failed(_) => skip(m),
            Event::Body(_) => fail(m, out_of_turn()),
        },
        Phase::StyleBody => match e {
            Event::Body(body) => match m.current {
                Some(job) => if body.len() > MAX_CSS_SIZE {
                    skip(m)
                } else {
                    take_style(m, job, body)
                },
                None => skip(m),
            },
            Event::Failed(_) => skip(m),
            Event::Head(_) => fail(m, out_of_turn()),
        },
        Phase::Finished => (m, Step::Finished),
        Phase::Failed => (m, Step::Failed(out_of_turn())),
    }
}

/// The fetch is still under way.
pub open spec fn active(m: FetchModel) -> bool {
    m.phase != Phase::Finished && m.phase != Phase::Failed
}

/// What holds of every state a fetch can reach.
pub open spec fn wf(m: FetchModel) -> bool {
    &&& m.styles.dom().finite()
    &&& m.next_link <= m.links.len() <= MAX_STYLESHEETS
    &&& m.styles.dom().len() <= MAX_STYLESHEETS
    &&& forall|i: int|
        0 <= i < m.imports.len() ==> 1 <= (#[trigger] m.imports[i]).depth <= MAX_IMPORT_DEPTH + 1
    &&& (m.current matches Some(job) ==> job.depth <= MAX_IMPORT_DEPTH && !m.styles.dom().contains(
        job.url.href,
    ) && m.styles.dom().len() < MAX_STYLESHEETS)
    &&& (m.current is Some <==> m.phase == Phase::StyleHead || m.phase == Phase::StyleBody)
    &&& (m.phase == Phase::PageHead || m.phase == Phase::PageBody ==> m.next_link == 0
        && m.links.len() == 0)
}

/// The number of jobs of the given depth.
pub open spec fn at_depth(jobs: Seq<Job>, depth: nat) -> nat
    decreases jobs.len(),
{
    if jobs.len() == 0 {
        0
    } else {
        at_depth(jobs.drop_last(), depth) + if jobs.last().depth == depth {
            1nat
        } else {
            0nat
        }
    }
}

/// The number of stylesheets of the given depth that are waiting or in
/// transfer.
pub open spec fn pending(m: FetchModel, depth: nat) -> nat {
    at_depth(m.imports, depth) + (if m.current is Some && m.current->0.depth == depth {
        1nat
    } else {
        0nat
    }) + (if depth == 0 {
        links_left(m)
    } else {
        0nat
    })
}

/// How far a phase is from the end of its transfer.
pub open spec fn phase_rank(p: Phase) -> nat {
    match p {
        Phase::PageHead => 1,
        Phase::StyleHead => 1,
        _ => 0,
    }
}

/// Whether the page itself is still to come.
pub open spec fn page_rank(p: Phase) -> nat {
    match p {
        Phase::PageHead => 1,
        Phase::PageBody => 1,
        _ => 0,
    }
}

/// `a` comes before `b` in the order by which a fetch makes progress: first
/// by whether the page is still to come, then by the number of pending
/// stylesheets of depth 0, 1, 2, 3 and 4 in turn, and last by the phase
/// within a transfer. The order is well founded: nothing descends in it
/// forever.
pub open spec fn precedes(a: FetchModel, b: FetchModel) -> bool {
    let x = seq![
        page_rank(a.phase),
        pending(a, 0),
        pending(a, 1),
        pending(a, 2),
        pending(a, 3),
        pending(a, 4),
        phase_rank(a.phase),
    ];
    let y = seq![
        page_rank(b.phase),
        pending(b, 0),
        pending(b, 1),
        pending(b, 2),
        pending(b, 3),
        pending(b, 4),
        phase_rank(b.phase),
    ];
    exists|k: int|
        0 <= k < 7 && #[trigger] x[k] < y[k] && forall|j: int| 0 <= j < k ==> x[j] == y[j]
}

/// The cap keeps the first links and never more than `MAX_STYLESHEETS`.
pub proof fn lemma_capped(links: Seq<UrlParts>)
    ensures
        capped(links).len() == if links.len() > MAX_STYLESHEETS {
            MAX_STYLESHEETS as nat
        } else {
            links.len()
        },
        forall|i: int| 0 <= i < capped(links).len() ==> capped(links)[i] == links[i],
{
}

proof fn lemma_at_depth_push(jobs: Seq<Job>, job: Job, depth: nat)
    ensures
        at_depth(jobs.push(job), depth) == at_depth(jobs, depth) + if job.depth == depth {
            1nat
        } else {
            0nat
        },
{
    assert(jobs.push(job).drop_last() =~= jobs);
}

proof fn lemma_at_depth_concat(a: Seq<Job>, b: Seq<Job>, depth: nat)
    ensures
        at_depth(a + b, depth) == at_depth(a, depth) + at_depth(b, depth),
    decreases b.len(),
{
    if b.len() == 0 {
        assert(a + b =~= a);
    } else {
        assert((a + b).drop_last() =~= a + b.drop_last());
        lemma_at_depth_concat(a, b.drop_last(), depth);
    }
}

proof fn lemma_at_depth_uniform(urls: Seq<UrlParts>, of: nat, depth: nat)
    ensures
        at_depth(jobs(urls, of), depth) == if of == depth {
            urls.len()
        } else {
            0
        },
    decreases urls.len(),
{
    if urls.len() > 0 {
        assert(jobs(urls, of).drop_last() =~= jobs(urls.drop_last(), of));
        lemma_at_depth_uniform(urls.drop_last(), of, depth);
    }
}

/// Choosing the next stylesheet keeps a well-formed state well formed, puts
/// no pending stylesheet in place of one that was not pending, and ends in a
/// request or in completion.
pub proof fn lemma_advance(m: FetchModel)
    requires
        wf(FetchModel { phase: Phase::Finished, ..m }),
        m.current is None,
    ensures
        wf(advance(m).0),
        forall|d: nat| pending(advance(m).0, d) <= pending(m, d),
        advance(m).0.phase == Phase::StyleHead || advance(m).0.phase == Phase::Finished,
        advance(m).0.phase == Phase::StyleHead <==> advance(m).1 is Get,
        advance(m).0.phase == Phase::Finished <==> advance(m).1 is Finished,
        advance(m).1 matches Step::Get(target) ==> advance(m).0.current is Some && target
            == advance(m).0.current->0.url.href,
        advance(m).0.styles == m.styles,
        advance(m).0.html == m.html,
        advance(m).0.links == m.links,
        advance(m).0.address == m.address,
        advance(m).0.base == m.base,
    decreases m.imports.len() + links_left(m),
{
    if m.imports.len() > 0 {
        let job = m.imports.last();
        let rest = FetchModel { imports: m.imports.drop_last(), ..m };
        assert(m.imports =~= rest.imports.push(job));
        assert forall|d: nat| pending(rest, d) + (if job.depth == d {
            1nat
        } else {
            0nat
        }) == pending(m, d) by {
            lemma_at_depth_push(rest.imports, job, d);
        }
        if passes_over(m, job) {
            assert forall|i: int| 0 <= i < rest.imports.len() implies 1 <= (
            #[trigger] rest.imports[i]).depth <= MAX_IMPORT_DEPTH + 1 by {
                assert(rest.imports[i] == m.imports[i]);
            }
            lemma_advance(rest);
            assert forall|d: nat| pending(advance(m).0, d) <= pending(m, d) by {
                assert(pending(advance(rest).0, d) <= pending(rest, d));
                lemma_at_depth_push(rest.imports, job, d);
            }
        } else {
            let next = FetchModel { phase: Phase::StyleHead, current: Some(job), ..rest };
            assert(job == m.imports[m.imports.len() - 1]);
            assert forall|i: int| 0 <= i < next.imports.len() implies 1 <= (
            #[trigger] next.imports[i]).depth <= MAX_IMPORT_DEPTH + 1 by {
                assert(next.imports[i] == m.imports[i]);
            }
            assert forall|d: nat| pending(next, d) <= pending(m, d) by {
                lemma_at_depth_push(rest.imports, job, d);
            }
        }
    } else if m.next_link < m.links.len() {
        let job = Job { url: m.links[m.next_link as int], depth: 0 };
        let rest = FetchModel { next_link: m.next_link + 1, ..m };
        assert(m.imports =~= Seq::<Job>::empty());
        if passes_over(m, job) {
            lemma_advance(rest);
            assert forall|d: nat| pending(advance(m).0, d) <= pending(m, d) by {
                assert(pending(advance(rest).0, d) <= pending(rest, d));
            }
        } else {
            let next = FetchModel { phase: Phase::StyleHead, current: Some(job), ..rest };
            assert forall|d: nat| pending(next, d) <= pending(m, d) by {}
        }
    } else {
        let done = FetchModel { phase: Phase::Finished, current: None, ..m };
        assert forall|d: nat| pending(done, d) <= pending(m, d) by {}
    }
}

/// Every step keeps a well-formed state well formed.
pub proof fn lemma_step_preserves_wf(m: FetchModel, e: Event)
    requires
        wf(m),
    ensures
        wf(step(m, e).0),
{
    lemma_step(m, e);
}

/// A fetch cannot go on forever: every step from a state under way either
/// ends the fetch or leads to a state that comes strictly before in a
/// well-founded order. This holds whatever the stylesheets import, so an
/// import cycle ends like any other chain.
pub proof fn lemma_step_makes_progress(m: FetchModel, e: Event)
    requires
        wf(m),
        active(m),
    ensures
        !active(step(m, e).0) || precedes(step(m, e).0, m),
{
    lemma_step(m, e);
}

/// A stylesheet is requested only if its address is not cached yet, its
/// import chain is no longer than `MAX_IMPORT_DEPTH` and the cache has room
/// for it; the request goes to the stylesheet's resolved address.
pub proof fn lemma_request_is_new_and_shallow(m: FetchModel, e: Event)
    requires
        wf(m),
        m.phase != Phase::PageHead,
    ensures
        step(m, e).1 matches Step::Get(target) ==> {
            &&& step(m, e).0.current matches Some(job)
            &&& job.url.href == target
            &&& job.depth <= MAX_IMPORT_DEPTH
            &&& !step(m, e).0.styles.dom().contains(target)
            &&& step(m, e).0.styles.dom().len() < MAX_STYLESHEETS
        },
{
    lemma_step(m, e);
}

/// The cache never holds more than `MAX_STYLESHEETS` stylesheets, links and
/// imports counted together, and no more than `MAX_STYLESHEETS` of the
/// page's links are followed.
pub proof fn lemma_cache_is_bounded(m: FetchModel)
    requires
        wf(m),
    ensures
        m.styles.dom().len() <= MAX_STYLESHEETS,
        m.links.len() <= MAX_STYLESHEETS,
{
}

/// The start of a fetch is well formed.
pub proof fn lemma_begin_is_wf(address: Seq<char>)
    ensures
        wf(begin(address).0),
{
}

/// While the cache holds `MAX_STYLESHEETS` stylesheets nothing more is
/// requested: whatever is waiting is passed over and the fetch ends.
pub proof fn lemma_full_cache_ends_the_fetch(m: FetchModel)
    requires
        m.styles.dom().len() >= MAX_STYLESHEETS,
    ensures
        advance(m).1 is Finished,
        advance(m).0.styles == m.styles,
    decreases m.imports.len() + links_left(m),
{
    if m.imports.len() > 0 {
        lemma_full_cache_ends_the_fetch(FetchModel { imports: m.imports.drop_last(), ..m });
    } else if m.next_link < m.links.len() {
        lemma_full_cache_ends_the_fetch(FetchModel { next_link: m.next_link + 1, ..m });
    }
}

/// A page of more bytes than `MAX_PAGE_SIZE` fails the fetch as too large,
/// whatever its response announced: at the response if the announcement
/// gives it away, and when the body has arrived otherwise. No oversize page
/// is ever taken in.
pub proof fn lemma_oversize_page_fails(m: FetchModel, announced: Option<u64>, body: Seq<u8>)
    requires
        m.phase == Phase::PageHead,
        body.len() > MAX_PAGE_SIZE,
        body.len() <= u64::MAX,
    ensures
        ({
            let (waiting, first) = step(m, Event::Head(announced));
            let (ended, second) = step(waiting, Event::Body(body));
            &&& announced == Some(body.len() as u64) ==> first is Failed && first->Failed_0
                is TooLarge
            &&& first is Failed ==> first->Failed_0 is TooLarge && waiting.phase == Phase::Failed
            &&& !(first is Failed) ==> first is ReadBody && second is Failed && second->Failed_0
                == (Failure::TooLarge {
                what: Resource::Page,
                size: body.len() as u64,
                limit: MAX_PAGE_SIZE,
            }) && ended.phase == Phase::Failed
        }),
{
}

/// The page's text is set once, by the page's body, and is never altered
/// afterwards.
pub proof fn lemma_page_text_is_kept(m: FetchModel, e: Event)
    requires
        wf(m),
    ensures
        m.phase != Phase::PageBody ==> step(m, e).0.html == m.html,
        m.phase == Phase::PageBody && e is Body && e->Body_0.len() <= MAX_PAGE_SIZE ==> step(
            m,
            e,
        ).0.html == lossy_text(e->Body_0),
{
    lemma_step(m, e);
}

proof fn lemma_skip(m: FetchModel)
    requires
        wf(m),
        m.current is Some,
    ensures
        wf(skip(m).0),
        precedes(skip(m).0, m) || !active(skip(m).0),
        skip(m).0.html == m.html,
        skip(m).1 matches Step::Get(target) ==> skip(m).0.current is Some && target == skip(
            m,
        ).0.current->0.url.href,
{
    let job = m.current->0;
    let bare = FetchModel { current: None, ..m };
    lemma_advance(bare);
    let after = skip(m).0;
    if active(after) {
        let d = job.depth;
        assert(pending(bare, d) + 1 == pending(m, d));
        assert forall|j: nat| j != d implies pending(bare, j) == pending(m, j) by {}
        lemma_precedes_by_depth(after, m, d);
    }
}

proof fn lemma_precedes_by_depth(a: FetchModel, b: FetchModel, d: nat)
    requires
        page_rank(a.phase) == 0,
        page_rank(b.phase) == 0,
        d <= 4,
        pending(a, d) < pending(b, d),
        forall|j: nat| j < d ==> pending(a, j) <= pending(b, j),
    ensures
        precedes(a, b),
{
    let x = seq![
        page_rank(a.phase),
        pending(a, 0),
        pending(a, 1),
        pending(a, 2),
        pending(a, 3),
        pending(a, 4),
        phase_rank(a.phase),
    ];
    let y = seq![
        page_rank(b.phase),
        pending(b, 0),
        pending(b, 1),
        pending(b, 2),
        pending(b, 3),
        pending(b, 4),
        phase_rank(b.phase),
    ];
    assert(pending(a, 0) <= pending(b, 0) || d == 0);
    assert(pending(a, 1) <= pending(b, 1) || d <= 1);
    assert(pending(a, 2) <= pending(b, 2) || d <= 2);
    assert(pending(a, 3) <= pending(b, 3) || d <= 3);
    if x[1] < y[1] {
        assert(x[1] < y[1] && forall|j: int| 0 <= j < 1 ==> x[j] == y[j]);
    } else if x[2] < y[2] {
        assert(x[2] < y[2] && forall|j: int| 0 <= j < 2 ==> x[j] == y[j]);
    } else if x[3] < y[3] {
        assert(x[3] < y[3] && forall|j: int| 0 <= j < 3 ==> x[j] == y[j]);
    } else if x[4] < y[4] {
        assert(x[4] < y[4] && forall|j: int| 0 <= j < 4 ==> x[j] == y[j]);
    } else {
        assert(x[5] < y[5] && forall|j: int| 0 <= j < 5 ==> x[j] == y[j]);
    }
}

proof fn lemma_precedes_by_page(a: FetchModel, b: FetchModel)
    requires
        page_rank(a.phase) < page_rank(b.phase),
    ensures
        precedes(a, b),
{
    let x = seq![
        page_rank(a.phase),
        pending(a, 0),
        pending(a, 1),
        pending(a, 2),
        pending(a, 3),
        pending(a, 4),
        phase_rank(a.phase),
    ];
    let y = seq![
        page_rank(b.phase),
        pending(b, 0),
        pending(b, 1),
        pending(b, 2),
        pending(b, 3),
        pending(b, 4),
        phase_rank(b.phase),
    ];
    assert(x[0] < y[0] && forall|j: int| 0 <= j < 0 ==> x[j] == y[j]);
}

proof fn lemma_precedes_by_phase(a: FetchModel, b: FetchModel)
    requires
        page_rank(a.phase) == page_rank(b.phase),
        forall|j: nat| j <= 4 ==> pending(a, j) == pending(b, j),
        phase_rank(a.phase) < phase_rank(b.phase),
    ensures
        precedes(a, b),
{
    let x = seq![
        page_rank(a.phase),
        pending(a, 0),
        pending(a, 1),
        pending(a, 2),
        pending(a, 3),
        pending(a, 4),
        phase_rank(a.phase),
    ];
    let y = seq![
        page_rank(b.phase),
        pending(b, 0),
        pending(b, 1),
        pending(b, 2),
        pending(b, 3),
        pending(b, 4),
        phase_rank(b.phase),
    ];
    assert(pending(a, 0) == pending(b, 0));
    assert(pending(a, 1) == pending(b, 1));
    assert(pending(a, 2) == pending(b, 2));
    assert(pending(a, 3) == pending(b, 3));
    assert(pending(a, 4) == pending(b, 4));
    assert(x[6] < y[6] && forall|j: int| 0 <= j < 6 ==> x[j] == y[j]);
}

proof fn lemma_take_style(m: FetchModel, job: Job, body: Seq<u8>)
    requires
        wf(m),
        m.current == Some(job),
    ensures
        wf(take_style(m, job, body).0),
        precedes(take_style(m, job, body).0, m) || !active(take_style(m, job, body).0),
        take_style(m, job, body).0.html == m.html,
        take_style(m, job, body).1 matches Step::Get(target) ==> take_style(
            m,
            job,
            body,
        ).0.current is Some && target == take_style(m, job, body).0.current->0.url.href,
{
    let css = lossy_text(body);
    let found = joinable(import_hrefs(css, 0), job.url.href);
    let added = jobs(found.reverse(), job.depth + 1);
    let grown = FetchModel {
        current: None,
        styles: m.styles.insert(job.url.href, css),
        imports: m.imports + added,
        ..m
    };
    assert(grown.styles.dom() =~= m.styles.dom().insert(job.url.href));
    assert forall|i: int| 0 <= i < grown.imports.len() implies 1 <= (
    #[trigger] grown.imports[i]).depth <= MAX_IMPORT_DEPTH + 1 by {
        if i < m.imports.len() {
            assert(grown.imports[i] == m.imports[i]);
        } else {
            assert(grown.imports[i] == added[i - m.imports.len()]);
        }
    }
    lemma_advance(grown);
    let after = take_style(m, job, body).0;
    if active(after) {
        let d = job.depth;
        assert forall|j: nat| j <= d implies pending(grown, j) + (if j == d {
            1nat
        } else {
            0nat
        }) == pending(m, j) by {
            lemma_at_depth_concat(m.imports, added, j);
            lemma_at_depth_uniform(found.reverse(), job.depth + 1, j);
        }
        lemma_precedes_by_depth(after, m, d);
    }
}

proof fn lemma_take_page(m: FetchModel, body: Seq<u8>)
    requires
        wf(m),
        m.phase == Phase::PageBody,
    ensures
        wf(take_page(m, body).0),
        precedes(take_page(m, body).0, m),
        take_page(m, body).0.html == lossy_text(body),
        take_page(m, body).1 matches Step::Get(target) ==> take_page(m, body).0.current is Some
            && target == take_page(m, body).0.current->0.url.href,
{
    let html = lossy_text(body);
    let loaded = FetchModel {
        html,
        links: capped(joinable(link_hrefs(html, 0), m.base)),
        next_link: 0,
        ..m
    };
    lemma_advance(loaded);
    lemma_precedes_by_page(take_page(m, body).0, m);
}

proof fn lemma_step(m: FetchModel, e: Event)
    requires
        wf(m),
    ensures
        wf(step(m, e).0),
        active(m) ==> !active(step(m, e).0) || precedes(step(m, e).0, m),
        m.phase != Phase::PageBody ==> step(m, e).0.html == m.html,
        m.phase == Phase::PageBody && e is Body && e->Body_0.len() <= MAX_PAGE_SIZE ==> step(
            m,
            e,
        ).0.html == lossy_text(e->Body_0),
        m.phase != Phase::PageHead ==> (step(m, e).1 matches Step::Get(target) ==> {
            &&& step(m, e).0.current matches Some(job)
            &&& job.url.href == target
            &&& job.depth <= MAX_IMPORT_DEPTH
            &&& !step(m, e).0.styles.dom().contains(target)
            &&& step(m, e).0.styles.dom().len() < MAX_STYLESHEETS
        }),
{
    match m.phase {
        Phase::PageHead => {
            match e {
                Event::Head(announced) => {
                    if !announced_too_large(announced, MAX_PAGE_SIZE) {
                        let next = FetchModel { phase: Phase::PageBody, ..m };
                        lemma_precedes_by_phase(next, m);
                    }
                },
                _ => {},
            }
        },
        Phase::PageBody => {
            match e {
                Event::Body(body) => {
                    if body.len() <= MAX_PAGE_SIZE {
                        lemma_take_page(m, body);
                    }
                },
                _ => {},
            }
        },
        Phase::StyleHead => {
            match e {
                Event::Head(announced) => {
                    if announced_too_large(announced, MAX_CSS_SIZE) {
                        lemma_skip(m);
                    } else {
                        let next = FetchModel { phase: Phase::StyleBody, ..m };
                        lemma_precedes_by_phase(next, m);
                    }
                },
                Event::Failed(_) => {
                    lemma_skip(m);
                },
                _ => {},
            }
        },
        Phase::StyleBody => {
            match e {
                Event::Body(body) => {
                    let job = m.current->0;
                    if body.len() > MAX_CSS_SIZE {
                        lemma_skip(m);
                    } else {
                        lemma_take_style(m, job, body);
                    }
                },
                Event::Failed(_) => {
                    lemma_skip(m);
                },
                _ => {},
            }
        },
        _ => {},
    }
}

} // verus!
