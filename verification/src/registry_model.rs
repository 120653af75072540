//! The view registry as mathematical values.
//!
//! The registry is the one place that knows which views exist and where each
//! of them stands. Every operation is defined here as a function from the
//! registry before to the registry after and the answer given; the executable
//! registry of `registry` follows these definitions.

use crate::page::{shown_address, PageType, ViewId, ViewSize};
use crate::view_model::{
    completed, delivers, drawn, flush_ready, loaded, made, navigated, needs_fetch, opened,
    readdressed, retitled, spawned, ticked, touched, ViewModel, ViewState,
};
use crate::weburl::{is_web, parsed, resolved, same_page, UrlParts};
use vstd::prelude::*;

verus! {

/// The state of the registry.
pub struct RegistryModel {
    /// The open views, in the order of their creation.
    pub views: Seq<ViewModel>,
    /// The size views are laid out for.
    pub size: ViewSize,
    /// The position of the view that is addressed when none is named.
    pub current: Option<nat>,
    /// Whether the backend fetches pages by itself.
    pub native_fetch: bool,
}

/// Why the registry could not do what was asked.
#[derive(Clone, Copy, Debug, PartialEq, Eq, Structural)]
pub enum RegistryError {
    /// No open view has the given identifier or position.
    NotFound,
    /// A view with the given identifier is open already.
    Duplicate,
}

/// The position of the first view at or after `from` with the identifier
/// `id`.
pub open spec fn index_from(views: Seq<ViewModel>, id: ViewId, from: int) -> Option<int>
    decreases views.len() - from,
{
    if from < 0 || from >= views.len() {
        None
    } else if views[from].id == id {
        Some(from)
    } else {
        index_from(views, id, from + 1)
    }
}

/// The position of the view with the identifier `id`.
pub open spec fn index_of(views: Seq<ViewModel>, id: ViewId) -> Option<int> {
    index_from(views, id, 0)
}

/// No two views have the same identifier.
pub open spec fn distinct(views: Seq<ViewModel>) -> bool {
    forall|i: int, j: int|
        0 <= i < views.len() && 0 <= j < views.len() && i != j ==> views[i].id != views[j].id
}

/// The registry is well formed.
pub open spec fn wf(m: RegistryModel) -> bool {
    distinct(m.views)
}

/// The views with one function applied to each.
pub open spec fn each(views: Seq<ViewModel>, f: spec_fn(ViewModel) -> ViewModel) -> Seq<
    ViewModel,
> {
    Seq::new(views.len(), |i: int| f(views[i]))
}

/// The identifiers of the views that satisfy `pick`, in order.
pub open spec fn ids_where(views: Seq<ViewModel>, pick: spec_fn(ViewModel) -> bool) -> Seq<
    ViewId,
>
    decreases views.len(),
{
    if views.len() == 0 {
        Seq::empty()
    } else if pick(views.last()) {
        ids_where(views.drop_last(), pick).push(views.last().id)
    } else {
        ids_where(views.drop_last(), pick)
    }
}

/// A registry with no views.
pub open spec fn empty(native_fetch: bool) -> RegistryModel {
    RegistryModel {
        views: Seq::empty(),
        size: ViewSize { width: 1920, height: 1080 },
        current: None,
        native_fetch,
    }
}

/// The registry with the view at `i` replaced.
pub open spec fn with_view(m: RegistryModel, i: int, v: ViewModel) -> RegistryModel {
    RegistryModel { views: m.views.update(i, v), ..m }
}

/// The identifier of the view at position `index`.
pub open spec fn id_at(m: RegistryModel, index: nat) -> Result<ViewId, RegistryError> {
    if index < m.views.len() {
        Ok(m.views[index as int].id)
    } else {
        Err(RegistryError::NotFound)
    }
}

/// The identifier of the current view.
pub open spec fn current_id(m: RegistryModel) -> Result<ViewId, RegistryError> {
    match m.current {
        Some(index) => id_at(m, index),
        None => Err(RegistryError::NotFound),
    }
}

/// A view is made without content.
pub open spec fn open(m: RegistryModel, id: ViewId) -> (RegistryModel, Result<(), RegistryError>) {
    if index_of(m.views, id) is Some {
        (m, Err(RegistryError::Duplicate))
    } else {
        (RegistryModel { views: m.views.push(made(id)), ..m }, Ok(()))
    }
}

/// A view is made and asked to show content. The answer tells whether its
/// page is to be fetched.
pub open spec fn create(m: RegistryModel, id: ViewId, content: PageType) -> (
    RegistryModel,
    Result<bool, RegistryError>,
) {
    if index_of(m.views, id) is Some {
        (m, Err(RegistryError::Duplicate))
    } else {
        (
            RegistryModel { views: m.views.push(opened(id, content, m.native_fetch)), ..m },
            Ok(needs_fetch(content, m.native_fetch)),
        )
    }
}

/// The view at a position is closed. The views behind it move up; the
/// current position stays where it is.
pub open spec fn close_at(m: RegistryModel, index: nat) -> (
    RegistryModel,
    Result<ViewId, RegistryError>,
) {
    if index < m.views.len() {
        (
            RegistryModel { views: m.views.remove(index as int), ..m },
            Ok(m.views[index as int].id),
        )
    } else {
        (m, Err(RegistryError::NotFound))
    }
}

/// The view with an identifier is closed.
pub open spec fn close(m: RegistryModel, id: ViewId) -> (
    RegistryModel,
    Result<ViewId, RegistryError>,
) {
    match index_of(m.views, id) {
        Some(i) => close_at(m, i as nat),
        None => (m, Err(RegistryError::NotFound)),
    }
}

/// The current view is closed.
pub open spec fn close_current(m: RegistryModel) -> (
    RegistryModel,
    Result<ViewId, RegistryError>,
) {
    match m.current {
        Some(index) => close_at(m, index),
        None => (m, Err(RegistryError::NotFound)),
    }
}

/// The view at a position becomes the current one and is to be drawn anew.
pub open spec fn select(m: RegistryModel, index: nat) -> (
    RegistryModel,
    Result<ViewId, RegistryError>,
) {
    if index < m.views.len() {
        (
            RegistryModel {
                current: Some(index),
                views: m.views.update(index as int, touched(m.views[index as int])),
                ..m
            },
            Ok(m.views[index as int].id),
        )
    } else {
        (m, Err(RegistryError::NotFound))
    }
}

/// One function is applied to the view with an identifier, if it is open.
pub open spec fn change(m: RegistryModel, id: ViewId, f: spec_fn(ViewModel) -> ViewModel)
    -> RegistryModel {
    match index_of(m.views, id) {
        Some(i) => with_view(m, i, f(m.views[i])),
        None => m,
    }
}

/// The view with an identifier, if it is open.
pub open spec fn lookup(m: RegistryModel, id: ViewId) -> Option<ViewModel> {
    match index_of(m.views, id) {
        Some(i) => Some(m.views[i]),
        None => None,
    }
}

/// A view goes to another page. The answer is the view's new epoch.
pub open spec fn navigate(m: RegistryModel, id: ViewId, url: Seq<char>) -> (
    RegistryModel,
    Result<u64, RegistryError>,
) {
    match lookup(m, id) {
        Some(v) => (
            change(m, id, |v: ViewModel| navigated(v, url, m.native_fetch)),
            Ok(navigated(v, url, m.native_fetch).epoch),
        ),
        None => (m, Err(RegistryError::NotFound)),
    }
}

/// The page fetched for a view, or the failure document, is loaded into it.
/// The answer tells whether the view is open; for a closed view nothing
/// changes.
pub open spec fn page_loaded(m: RegistryModel, id: ViewId) -> (RegistryModel, bool) {
    (change(m, id, |v: ViewModel| loaded(v)), lookup(m, id) is Some)
}

/// Something changed in what a view shows. The answer tells whether the
/// view is open.
pub open spec fn touch(m: RegistryModel, id: ViewId) -> (RegistryModel, bool) {
    (change(m, id, |v: ViewModel| touched(v)), lookup(m, id) is Some)
}

/// One view is drawn if it is stale. The answer tells whether it was.
pub open spec fn render(m: RegistryModel, id: ViewId) -> (
    RegistryModel,
    Result<bool, RegistryError>,
) {
    match lookup(m, id) {
        Some(v) => (change(m, id, |v: ViewModel| drawn(v)), Ok(v.state == ViewState::Stale)),
        None => (m, Err(RegistryError::NotFound)),
    }
}

/// The backend reports the address of a view's page. The answer tells
/// whether it differs from the one on record, which it then replaces.
pub open spec fn observe_url(m: RegistryModel, id: ViewId, url: Seq<char>) -> (
    RegistryModel,
    Result<bool, RegistryError>,
) {
    match lookup(m, id) {
        Some(v) => if v.url == url {
            (m, Ok(false))
        } else {
            (change(m, id, |v: ViewModel| readdressed(v, url)), Ok(true))
        },
        None => (m, Err(RegistryError::NotFound)),
    }
}

/// The backend reports the title of a view's page. The answer tells whether
/// it differs from the one on record, which it then replaces.
pub open spec fn observe_title(m: RegistryModel, id: ViewId, title: Seq<char>) -> (
    RegistryModel,
    Result<bool, RegistryError>,
) {
    match lookup(m, id) {
        Some(v) => if v.title == title {
            (m, Ok(false))
        } else {
            (change(m, id, |v: ViewModel| retitled(v, title)), Ok(true))
        },
        None => (m, Err(RegistryError::NotFound)),
    }
}

/// The size changes. A size equal to the present one changes nothing; any
/// other makes every drawn view stale.
pub open spec fn resize(m: RegistryModel, size: ViewSize) -> (RegistryModel, bool) {
    if size == m.size {
        (m, false)
    } else {
        (RegistryModel { size, views: each(m.views, |v: ViewModel| touched(v)), ..m }, true)
    }
}

/// Every stale view is drawn. The answer names the views drawn, in order.
pub open spec fn sweep(m: RegistryModel) -> (RegistryModel, Seq<ViewId>) {
    (
        RegistryModel { views: each(m.views, |v: ViewModel| drawn(v)), ..m },
        ids_where(m.views, |v: ViewModel| v.state == ViewState::Stale),
    )
}

/// Every owed flush whose burst has ended is carried out. The answer names
/// the views flushed, in order.
pub open spec fn flush(m: RegistryModel) -> (RegistryModel, Seq<ViewId>) {
    (
        RegistryModel { views: each(m.views, |v: ViewModel| ticked(v)), ..m },
        ids_where(m.views, |v: ViewModel| flush_ready(v)),
    )
}

/// An image that a view still needs.
pub struct ImageRef {
    pub view: ViewId,
    /// The source exactly as the document gives it.
    pub src: Seq<char>,
    /// The address the source is relative to, or empty.
    pub base_url: Seq<char>,
    /// Whether the image can change the flow of the document.
    pub affects_layout: bool,
}

/// An image fetch to be started.
pub struct Request {
    pub view: ViewId,
    /// The resolved address to fetch.
    pub url: Seq<char>,
    /// The source exactly as the document gives it.
    pub src: Seq<char>,
    pub affects_layout: bool,
    /// The view's epoch at the time the fetch is started.
    pub epoch: u64,
}

/// The address an image is fetched from, if it is fetched at all: the
/// source resolved in three attempts, the last against the view's page, and
/// only if the result is an `http` or `https` address.
pub open spec fn image_target(v: ViewModel, r: ImageRef) -> Option<UrlParts> {
    match resolved(r.src, r.base_url, shown_address(v.url)) {
        Ok(u) => if is_web(u) {
            Some(u)
        } else {
            None
        },
        Err(_) => None,
    }
}

/// One image is taken up: if its view is open, its address resolves to a
/// web address and the view's counter has room, a fetch is started under
/// the view's present epoch.
pub open spec fn plan_one(m: RegistryModel, r: ImageRef) -> (RegistryModel, Option<Request>) {
    match lookup(m, r.view) {
        Some(v) => match image_target(v, r) {
            Some(u) => if v.inflight < usize::MAX {
                (
                    change(m, r.view, |v: ViewModel| spawned(v)),
                    Some(
                        Request {
                            view: r.view,
                            url: u.href,
                            src: r.src,
                            affects_layout: r.affects_layout,
                            epoch: v.epoch,
                        },
                    ),
                )
            } else {
                (m, None)
            },
            None => (m, None),
        },
        None => (m, None),
    }
}

/// The images are taken up one after the other.
pub open spec fn plan(m: RegistryModel, refs: Seq<ImageRef>) -> (RegistryModel, Seq<Request>)
    decreases refs.len(),
{
    if refs.len() == 0 {
        (m, Seq::empty())
    } else {
        let (before, requests) = plan(m, refs.drop_last());
        let (now, request) = plan_one(before, refs.last());
        match request {
            Some(q) => (now, requests.push(q)),
            None => (now, requests),
        }
    }
}

/// An image fetch completed. The answer tells whether its result is handed
/// on to the view. A result for a view that is closed changes nothing and
/// is not handed on.
pub open spec fn complete(m: RegistryModel, id: ViewId, tag: u64, arrived: bool) -> (
    RegistryModel,
    bool,
) {
    match lookup(m, id) {
        Some(v) => (
            change(m, id, |v: ViewModel| completed(v, tag, arrived)),
            delivers(v, tag, arrived),
        ),
        None => (m, false),
    }
}

/// What a click on an anchor leads to.
pub enum AnchorChoice {
    /// Nothing.
    Ignore,
    /// A scroll to the named fragment of the page on show.
    Scroll(Seq<char>),
    /// A navigation to another page.
    Navigate(UrlParts),
}

/// What a click on an anchor leads to, given the anchor's resolved target
/// and the parsed address of the page on show. Only `http` and `https`
/// targets count. A target on the page on show scrolls to its fragment, if
/// it has one; any other target is navigated to.
pub open spec fn anchor_choice(
    target: Result<UrlParts, Seq<char>>,
    current: Result<UrlParts, Seq<char>>,
) -> AnchorChoice {
    match target {
        Ok(t) => if !is_web(t) {
            AnchorChoice::Ignore
        } else if current is Ok && same_page(t, current->Ok_0) {
            match t.fragment {
                Some(f) => AnchorChoice::Scroll(f),
                None => AnchorChoice::Ignore,
            }
        } else {
            AnchorChoice::Navigate(t)
        },
        Err(_) => AnchorChoice::Ignore,
    }
}

/// What a click on the anchor `href` leads to in a view showing `url`.
pub open spec fn anchor_of(url: Seq<char>, href: Seq<char>) -> AnchorChoice {
    anchor_choice(
        resolved(href, Seq::empty(), shown_address(url)),
        parsed(shown_address(url)),
    )
}

/// An anchor was clicked in a view. A click that leads to another page
/// navigates the view there; any other click leaves the registry as it is.
pub open spec fn click(m: RegistryModel, id: ViewId, href: Seq<char>) -> (
    RegistryModel,
    Result<AnchorChoice, RegistryError>,
) {
    match lookup(m, id) {
        Some(v) => match anchor_of(v.url, href) {
            AnchorChoice::Navigate(t) => (navigate(m, id, t.href).0, Ok(AnchorChoice::Navigate(t))),
            other => (m, Ok(other)),
        },
        None => (m, Err(RegistryError::NotFound)),
    }
}

proof fn lemma_index_from(views: Seq<ViewModel>, id: ViewId, from: int)
    requires
        0 <= from,
    ensures
        match index_from(views, id, from) {
            Some(i) => from <= i < views.len() && views[i].id == id && forall|j: int|
                from <= j < i ==> views[j].id != id,
            None => forall|j: int| from <= j < views.len() ==> views[j].id != id,
        },
    decreases views.len() - from,
{
    if from < views.len() && views[from].id != id {
        lemma_index_from(views, id, from + 1);
    }
}

/// The position found for an identifier holds a view with that identifier;
/// where none is found, no view has it.
pub proof fn lemma_index_of(views: Seq<ViewModel>, id: ViewId)
    ensures
        match index_of(views, id) {
            Some(i) => 0 <= i < views.len() && views[i].id == id && forall|j: int|
                0 <= j < i ==> views[j].id != id,
            None => forall|j: int| 0 <= j < views.len() ==> views[j].id != id,
        },
{
    lemma_index_from(views, id, 0);
}

/// Closing is final: once a view is closed nothing finds it, a completed
/// image fetch for it changes nothing and is not handed on, and a
/// navigation of it is refused.
pub proof fn lemma_closed_is_terminal(m: RegistryModel, id: ViewId, tag: u64, arrived: bool)
    requires
        wf(m),
        close(m, id).1 is Ok,
    ensures
        wf(close(m, id).0),
        lookup(close(m, id).0, id) is None,
        complete(close(m, id).0, id, tag, arrived) == (close(m, id).0, false),
        forall|url: Seq<char>| #[trigger]
            navigate(close(m, id).0, id, url).1 == Err::<u64, RegistryError>(
                RegistryError::NotFound,
            ),
{
    lemma_index_of(m.views, id);
    let i = index_of(m.views, id)->0;
    let after = close(m, id).0;
    assert forall|j: int| 0 <= j < after.views.len() implies after.views[j].id != id by {
        if j < i {
            assert(after.views[j] == m.views[j]);
        } else {
            assert(after.views[j] == m.views[j + 1]);
        }
    }
    lemma_index_of(after.views, id);
    assert(distinct(after.views)) by {
        assert forall|a: int, b: int|
            0 <= a < after.views.len() && 0 <= b < after.views.len() && a != b implies after.views[a].id
            != after.views[b].id by {
            let x = if a < i {
                a
            } else {
                a + 1
            };
            let y = if b < i {
                b
            } else {
                b + 1
            };
            assert(after.views[a] == m.views[x]);
            assert(after.views[b] == m.views[y]);
        }
    }
}

/// A resize to the size already in force changes nothing at all.
pub proof fn lemma_same_size_is_no_op(m: RegistryModel)
    ensures
        resize(m, m.size) == (m, false),
{
}

/// A navigation bumps the epoch of the view it names and of no other, which
/// disowns what is in flight for that view; the count of what is in flight
/// stays.
pub proof fn lemma_navigation_bumps_one_epoch(m: RegistryModel, id: ViewId, url: Seq<char>)
    requires
        wf(m),
        lookup(m, id) is Some,
    ensures
        ({
            let i = index_of(m.views, id)->0;
            let after = navigate(m, id, url).0;
            &&& after.views.len() == m.views.len()
            &&& after.views[i].epoch != m.views[i].epoch
            &&& after.views[i].inflight == m.views[i].inflight
            &&& navigate(m, id, url).1 == Ok::<u64, RegistryError>(after.views[i].epoch)
            &&& forall|j: int| 0 <= j < m.views.len() && j != i ==> after.views[j] == m.views[j]
        }),
{
    lemma_index_of(m.views, id);
}

/// A click on an anchor that leads to a scroll or to nothing leaves every
/// epoch as it is; only a navigation moves one. A target on the page on
/// show never leads to a navigation.
pub proof fn lemma_same_page_anchor_never_navigates(
    target: Result<UrlParts, Seq<char>>,
    current: Result<UrlParts, Seq<char>>,
)
    ensures
        target is Ok && current is Ok && same_page(target->Ok_0, current->Ok_0) ==> !(
        anchor_choice(target, current) is Navigate),
        target is Ok && is_web(target->Ok_0) && current is Ok && !same_page(
            target->Ok_0,
            current->Ok_0,
        ) ==> anchor_choice(target, current) == AnchorChoice::Navigate(target->Ok_0),
        target is Ok && is_web(target->Ok_0) && current is Ok && same_page(
            target->Ok_0,
            current->Ok_0,
        ) && target->Ok_0.fragment is Some ==> anchor_choice(target, current)
            == AnchorChoice::Scroll(target->Ok_0.fragment->0),
{
}

/// Planning gives every request the epoch its view has at that time, and
/// raises that view's counter by one for each request.
pub proof fn lemma_plan_one_tags_with_present_epoch(m: RegistryModel, r: ImageRef)
    requires
        wf(m),
    ensures
        wf(plan_one(m, r).0),
        plan_one(m, r).1 matches Some(q) ==> {
            &&& lookup(m, r.view) matches Some(v)
            &&& q.epoch == v.epoch
            &&& q.src == r.src
            &&& q.view == r.view
            &&& lookup(plan_one(m, r).0, r.view) == Some(spawned(v))
        },
        plan_one(m, r).1 is None ==> plan_one(m, r).0 == m,
{
    lemma_index_of(m.views, r.view);
    if plan_one(m, r).1 is Some {
        let i = index_of(m.views, r.view)->0;
        let after = plan_one(m, r).0;
        lemma_change_keeps_ids(m, r.view, |v: ViewModel| spawned(v));
        lemma_index_of(after.views, r.view);
    }
}

/// Changing one view by a function that keeps its identifier keeps the
/// registry well formed and every view where it was.
pub proof fn lemma_change_keeps_ids(
    m: RegistryModel,
    id: ViewId,
    f: spec_fn(ViewModel) -> ViewModel,
)
    requires
        wf(m),
        forall|v: ViewModel| (#[trigger] f(v)).id == v.id,
    ensures
        wf(change(m, id, f)),
        change(m, id, f).views.len() == m.views.len(),
        forall|j: int|
            0 <= j < m.views.len() ==> (#[trigger] change(m, id, f).views[j]).id == m.views[j].id,
        forall|other: ViewId| index_of(change(m, id, f).views, other) == index_of(m.views, other),
{
    lemma_index_of(m.views, id);
    let after = change(m, id, f);
    assert forall|j: int| 0 <= j < m.views.len() implies (#[trigger] after.views[j]).id
        == m.views[j].id by {
        if index_of(m.views, id) == Some(j) {
            assert(after.views[j] == f(m.views[j]));
        }
    }
    assert forall|other: ViewId| index_of(after.views, other) == index_of(m.views, other) by {
        lemma_index_of(m.views, other);
        lemma_index_of(after.views, other);
        match (index_of(m.views, other), index_of(after.views, other)) {
            (Some(a), Some(b)) => {
                assert(after.views[a].id == m.views[a].id);
                assert(after.views[b].id == m.views[b].id);
            },
            (Some(a), None) => {
                assert(after.views[a].id == m.views[a].id);
            },
            (None, Some(b)) => {
                assert(after.views[b].id == m.views[b].id);
            },
            (None, None) => {},
        }
    }
}

/// Creating a view keeps the registry well formed.
pub proof fn lemma_create_keeps_wf(m: RegistryModel, id: ViewId, content: PageType)
    requires
        wf(m),
    ensures
        wf(create(m, id, content).0),
{
    lemma_index_of(m.views, id);
}

/// Making a view without content keeps the registry well formed.
pub proof fn lemma_open_keeps_wf(m: RegistryModel, id: ViewId)
    requires
        wf(m),
    ensures
        wf(open(m, id).0),
{
    lemma_index_of(m.views, id);
}

/// Closing a view keeps the registry well formed.
pub proof fn lemma_close_at_keeps_wf(m: RegistryModel, index: nat)
    requires
        wf(m),
    ensures
        wf(close_at(m, index).0),
{
    if index < m.views.len() {
        let after = close_at(m, index).0;
        assert forall|a: int, b: int|
            0 <= a < after.views.len() && 0 <= b < after.views.len() && a != b implies after.views[a].id
            != after.views[b].id by {
            let x = if a < index {
                a
            } else {
                a + 1
            };
            let y = if b < index {
                b
            } else {
                b + 1
            };
            assert(after.views[a] == m.views[x]);
            assert(after.views[b] == m.views[y]);
        }
    }
}

/// Selecting a view keeps the registry well formed.
pub proof fn lemma_select_keeps_wf(m: RegistryModel, index: nat)
    requires
        wf(m),
    ensures
        wf(select(m, index).0),
{
    if index < m.views.len() {
        let after = select(m, index).0;
        assert forall|a: int, b: int|
            0 <= a < after.views.len() && 0 <= b < after.views.len() && a != b implies after.views[a].id
            != after.views[b].id by {
            assert(after.views[a].id == m.views[a].id);
            assert(after.views[b].id == m.views[b].id);
        }
    }
}

/// Applying to every view a function that keeps identifiers keeps the
/// registry well formed.
pub proof fn lemma_each_keeps_wf(m: RegistryModel, f: spec_fn(ViewModel) -> ViewModel)
    requires
        wf(m),
        forall|v: ViewModel| (#[trigger] f(v)).id == v.id,
    ensures
        wf(RegistryModel { views: each(m.views, f), ..m }),
{
    let after = each(m.views, f);
    assert forall|a: int, b: int|
        0 <= a < after.len() && 0 <= b < after.len() && a != b implies after[a].id
        != after[b].id by {
        assert(after[a] == f(m.views[a]));
        assert(after[b] == f(m.views[b]));
    }
}

/// Planning image fetches keeps the registry well formed.
pub proof fn lemma_plan_keeps_wf(m: RegistryModel, refs: Seq<ImageRef>)
    requires
        wf(m),
    ensures
        wf(plan(m, refs).0),
    decreases refs.len(),
{
    if refs.len() > 0 {
        lemma_plan_keeps_wf(m, refs.drop_last());
        lemma_plan_one_tags_with_present_epoch(plan(m, refs.drop_last()).0, refs.last());
    }
}

/// A click keeps the registry well formed.
pub proof fn lemma_click_keeps_wf(m: RegistryModel, id: ViewId, href: Seq<char>)
    requires
        wf(m),
    ensures
        wf(click(m, id, href).0),
{
    match lookup(m, id) {
        Some(v) => match anchor_of(v.url, href) {
            AnchorChoice::Navigate(t) => {
                lemma_change_keeps_ids(
                    m,
                    id,
                    |v: ViewModel| navigated(v, t.href, m.native_fetch),
                );
            },
            _ => {},
        },
        None => {},
    }
}

} // verus!
