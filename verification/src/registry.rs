//! The executable view registry and render scheduler.
//!
//! The registry owns the state of every open view. The host reports what
//! happened (a view was made, an address was entered, an image arrived, a
//! tick passed) and the registry answers with what to do about it. It never
//! draws and never fetches: it decides. Each operation is the operation of
//! the same name in `registry_model`.
//!
//! An identifier that names no open view is an ordinary answer, never a
//! fault: operations that need the view return `RegistryError::NotFound`,
//! and results that arrive for a closed view are dropped.

use crate::page::{display_url, PageType, ViewId, ViewSize};
use crate::registry_model::{
    anchor_choice, change, click, close, close_at, close_current, complete, create,
    current_id, each, empty, flush, id_at, ids_where, index_from, index_of,
    lemma_change_keeps_ids, lemma_click_keeps_wf, lemma_close_at_keeps_wf,
    lemma_create_keeps_wf, lemma_each_keeps_wf, lemma_open_keeps_wf, lemma_plan_keeps_wf,
    lemma_select_keeps_wf, lookup, navigate, observe_title, observe_url, open, page_loaded, plan,
    plan_one, render, resize, select, sweep, touch, wf, AnchorChoice, ImageRef, RegistryError,
    RegistryModel, Request,
};
use crate::view_model::{
    completed, drawn, flush_ready, loaded, navigated, readdressed, retitled, ticked, touched, ViewModel, ViewState,
};
use crate::weburl::{is_same_page, is_web_url, outcome, parse, resolve_url, PageUrl};
use vstd::prelude::*;

verus! {

/// What the registry holds about one open view.
pub struct ViewRecord {
    id: ViewId,
    url: String,
    title: String,
    epoch: u64,
    inflight: usize,
    state: ViewState,
    flush_due: bool,
}

impl View for ViewRecord {
    type V = ViewModel;

    closed spec fn view(&self) -> ViewModel {
        ViewModel {
            id: self.id,
            url: self.url@,
            title: self.title@,
            epoch: self.epoch,
            inflight: self.inflight as nat,
            state: self.state,
            flush_due: self.flush_due,
        }
    }
}

impl ViewRecord {
    /// The view's identifier.
    pub fn id(&self) -> (r: ViewId)
        ensures
            r == self@.id,
    {
        self.id
    }

    /// The address on record for the page on show; empty while there is none.
    pub fn url(&self) -> (r: &String)
        ensures
            r@ == self@.url,
    {
        &self.url
    }

    /// The title on record.
    pub fn title(&self) -> (r: &String)
        ensures
            r@ == self@.title,
    {
        &self.title
    }

    /// The view's navigation epoch.
    pub fn epoch(&self) -> (r: u64)
        ensures
            r == self@.epoch,
    {
        self.epoch
    }

    /// The number of image fetches in flight for the view.
    pub fn inflight(&self) -> (r: usize)
        ensures
            r == self@.inflight,
    {
        self.inflight
    }

    /// Where the view stands.
    pub fn state(&self) -> (r: ViewState)
        ensures
            r == self@.state,
    {
        self.state
    }

    /// Whether a flush is owed to the view.
    pub fn flush_due(&self) -> (r: bool)
        ensures
            r == self@.flush_due,
    {
        self.flush_due
    }

    fn restated(&self, inflight: usize, state: ViewState, flush_due: bool) -> (r: ViewRecord)
        ensures
            r@ == (ViewModel { inflight: inflight as nat, state, flush_due, ..self@ }),
    {
        ViewRecord {
            id: self.id,
            url: self.url.clone(),
            title: self.title.clone(),
            epoch: self.epoch,
            inflight,
            state,
            flush_due,
        }
    }

    fn touched(&self) -> (r: ViewRecord)
        ensures
            r@ == touched(self@),
    {
        let state = match self.state {
            ViewState::Rendered => ViewState::Stale,
            other => other,
        };
        self.restated(self.inflight, state, self.flush_due)
    }

    fn drawn(&self) -> (r: ViewRecord)
        ensures
            r@ == drawn(self@),
    {
        let state = match self.state {
            ViewState::Stale => ViewState::Rendered,
            other => other,
        };
        self.restated(self.inflight, state, self.flush_due)
    }

    fn ticked(&self) -> (r: ViewRecord)
        ensures
            r@ == ticked(self@),
    {
        if self.flush_due && self.inflight == 0 {
            self.restated(self.inflight, self.state, false)
        } else {
            self.restated(self.inflight, self.state, self.flush_due)
        }
    }

    fn completed(&self, tag: u64, arrived: bool) -> (r: ViewRecord)
        ensures
            r@ == completed(self@, tag, arrived),
    {
        let inflight: usize = if self.inflight > 0 {
            self.inflight - 1
        } else {
            0
        };
        let flush_due = self.flush_due || self.inflight == 1;
        let counted = self.restated(inflight, self.state, flush_due);
        if tag == self.epoch && arrived {
            counted.touched()
        } else {
            counted
        }
    }

    fn navigated(&self, url: &str, native_fetch: bool) -> (r: ViewRecord)
        ensures
            r@ == navigated(self@, url@, native_fetch),
    {
        ViewRecord {
            id: self.id,
            url: String::from_str(url),
            title: self.title.clone(),
            epoch: if self.epoch == u64::MAX {
                0
            } else {
                self.epoch + 1
            },
            inflight: self.inflight,
            state: if native_fetch {
                ViewState::Stale
            } else {
                ViewState::ContentPending
            },
            flush_due: self.flush_due,
        }
    }
}

/// An image that a view still needs, as the layout stage reports it.
pub struct PendingImageRef {
    pub view: ViewId,
    /// The source exactly as the document gives it.
    pub src: String,
    /// The address the source is relative to, or empty.
    pub base_url: String,
    /// Whether the image can change the flow of the document. An image that
    /// cannot needs a redraw only, no new layout.
    pub affects_layout: bool,
}

/// An image fetch to be started.
pub struct ImageRequest {
    pub view: ViewId,
    /// The resolved address to fetch.
    pub url: String,
    /// The source exactly as the document gives it; the image is handed to
    /// the layout stage under this key.
    pub src: String,
    pub affects_layout: bool,
    /// The view's epoch at the time the fetch is started. The result is
    /// handed on only if the view still has this epoch when it arrives.
    pub epoch: u64,
}

impl View for PendingImageRef {
    type V = ImageRef;

    open spec fn view(&self) -> ImageRef {
        ImageRef {
            view: self.view,
            src: self.src@,
            base_url: self.base_url@,
            affects_layout: self.affects_layout,
        }
    }
}

impl View for ImageRequest {
    type V = Request;

    open spec fn view(&self) -> Request {
        Request {
            view: self.view,
            url: self.url@,
            src: self.src@,
            affects_layout: self.affects_layout,
            epoch: self.epoch,
        }
    }
}

/// What a click on an anchor led to.
pub enum AnchorOutcome {
    /// Nothing: the anchor could not be resolved, is no web address, or
    /// names the page on show without a fragment.
    Ignored,
    /// The view is to scroll to this fragment of the page on show. Nothing
    /// is fetched.
    Scroll(String),
    /// The view was navigated to this address, which gave it this epoch.
    Navigate { url: PageUrl, epoch: u64 },
}

impl View for AnchorOutcome {
    type V = AnchorChoice;

    open spec fn view(&self) -> AnchorChoice {
        match self {
            AnchorOutcome::Ignored => AnchorChoice::Ignore,
            AnchorOutcome::Scroll(fragment) => AnchorChoice::Scroll(fragment@),
            AnchorOutcome::Navigate { url, epoch } => AnchorChoice::Navigate(url@),
        }
    }
}

/// What becomes of the result of an image fetch.
pub enum ImageDelivery {
    /// The result is dropped: the fetch failed, or the view has moved on or
    /// was closed since the fetch was started.
    Discarded,
    /// The bytes are handed to the layout stage under the key `src`, the
    /// source exactly as the document gives it. `needs_layout` tells
    /// whether the layout must be made anew or a redraw is enough.
    Staged { src: String, bytes: Vec<u8>, needs_layout: bool },
}

/// The mathematical views of the requests.
pub open spec fn requests_of(v: Seq<ImageRequest>) -> Seq<Request> {
    Seq::new(v.len(), |i: int| v[i]@)
}

/// The mathematical views of the image references.
pub open spec fn refs_of(v: Seq<PendingImageRef>) -> Seq<ImageRef> {
    Seq::new(v.len(), |i: int| v[i]@)
}

/// Decides what a click on an anchor leads to, given the anchor's resolved
/// target and the parsed address of the page on show.
pub fn decide_anchor(target: Result<PageUrl, crate::weburl::UrlError>, current: Result<
    PageUrl,
    crate::weburl::UrlError,
>) -> (r: AnchorOutcome)
    ensures
        r@ == anchor_choice(outcome(target), outcome(current)),
        r matches AnchorOutcome::Navigate { url, epoch } ==> epoch == 0,
{
    match target {
        Ok(t) => {
            if !is_web_url(&t) {
                return AnchorOutcome::Ignored;
            }
            let same = match &current {
                Ok(c) => is_same_page(&t, c),
                Err(_) => false,
            };
            if same {
                match t.fragment {
                    Some(f) => AnchorOutcome::Scroll(f),
                    None => AnchorOutcome::Ignored,
                }
            } else {
                AnchorOutcome::Navigate { url: t, epoch: 0 }
            }
        },
        Err(_) => AnchorOutcome::Ignored,
    }
}

struct Parts {
    records: Vec<ViewRecord>,
    size: ViewSize,
    current: Option<usize>,
    native_fetch: bool,
}

spec fn models(records: Seq<ViewRecord>) -> Seq<ViewModel> {
    Seq::new(records.len(), |i: int| records[i]@)
}

spec fn position(current: Option<usize>) -> Option<nat> {
    match current {
        Some(c) => Some(c as nat),
        None => None,
    }
}

impl Parts {
    spec fn model(&self) -> RegistryModel {
        RegistryModel {
            views: models(self.records@),
            size: self.size,
            current: position(self.current),
            native_fetch: self.native_fetch,
        }
    }

    fn find(&self, id: ViewId) -> (r: Option<usize>)
        ensures
            match r {
                Some(i) => i < self.records.len() && index_of(self.model().views, id) == Some(
                    i as int,
                ),
                None => index_of(self.model().views, id) is None,
            },
    {
        let mut i: usize = 0;
        while i < self.records.len()
            invariant
                i <= self.records.len(),
                index_of(models(self.records@), id) == index_from(
                    models(self.records@),
                    id,
                    i as int,
                ),
            decreases self.records.len() - i,
        {
            if self.records[i].id == id {
                return Some(i);
            }
            i += 1;
        }
        None
    }

    fn put(&mut self, i: usize, record: ViewRecord)
        requires
            i < old(self).records.len(),
        ensures
            final(self).model() == (RegistryModel {
                views: old(self).model().views.update(i as int, record@),
                ..old(self).model()
            }),
    {
        self.records.set(i, record);
        assert(models(self.records@) =~= models(old(self).records@).update(i as int, record@));
    }

    fn id_at(&self, index: u32) -> (r: Result<ViewId, RegistryError>)
        ensures
            r == id_at(self.model(), index as nat),
    {
        let i = index as usize;
        if i < self.records.len() {
            Ok(self.records[i].id)
        } else {
            Err(RegistryError::NotFound)
        }
    }

    fn open(&mut self, id: ViewId) -> (r: Result<(), RegistryError>)
        ensures
            (final(self).model(), r) == open(old(self).model(), id),
    {
        if self.find(id).is_some() {
            return Err(RegistryError::Duplicate);
        }
        let record = ViewRecord {
            id,
            url: String::new(),
            title: String::new(),
            epoch: 0,
            inflight: 0,
            state: ViewState::Created,
            flush_due: false,
        };
        self.records.push(record);
        assert(models(self.records@) =~= models(old(self).records@).push(record@));
        Ok(())
    }

    fn create(&mut self, id: ViewId, content: &PageType) -> (r: Result<bool, RegistryError>)
        ensures
            (final(self).model(), r) == create(old(self).model(), id, *content),
    {
        if self.find(id).is_some() {
            return Err(RegistryError::Duplicate);
        }
        let (url, fetch) = match content {
            PageType::Url(u) => (u.clone(), !self.native_fetch),
            PageType::Html(_) => (String::new(), false),
        };
        let record = ViewRecord {
            id,
            url,
            title: String::new(),
            epoch: 0,
            inflight: 0,
            state: if fetch {
                ViewState::ContentPending
            } else {
                ViewState::Stale
            },
            flush_due: false,
        };
        self.records.push(record);
        assert(models(self.records@) =~= models(old(self).records@).push(record@));
        Ok(fetch)
    }

    fn close_at(&mut self, i: usize) -> (r: Result<ViewId, RegistryError>)
        ensures
            (final(self).model(), r) == close_at(old(self).model(), i as nat),
    {
        if i < self.records.len() {
            let gone = self.records.remove(i);
            assert(models(self.records@) =~= models(old(self).records@).remove(i as int));
            Ok(gone.id)
        } else {
            Err(RegistryError::NotFound)
        }
    }

    fn select(&mut self, i: usize) -> (r: Result<ViewId, RegistryError>)
        ensures
            (final(self).model(), r) == select(old(self).model(), i as nat),
    {
        if i < self.records.len() {
            let id = self.records[i].id;
            let record = self.records[i].touched();
            self.put(i, record);
            self.current = Some(i);
            Ok(id)
        } else {
            Err(RegistryError::NotFound)
        }
    }

    fn navigate(&mut self, id: ViewId, url: &str) -> (r: Result<u64, RegistryError>)
        ensures
            (final(self).model(), r) == navigate(old(self).model(), id, url@),
    {
        match self.find(id) {
            Some(i) => {
                let record = self.records[i].navigated(url, self.native_fetch);
                let epoch = record.epoch;
                self.put(i, record);
                Ok(epoch)
            },
            None => Err(RegistryError::NotFound),
        }
    }

    fn page_loaded(&mut self, id: ViewId) -> (r: bool)
        ensures
            (final(self).model(), r) == page_loaded(old(self).model(), id),
    {
        match self.find(id) {
            Some(i) => {
                let record = self.records[i].restated(
                    self.records[i].inflight,
                    ViewState::Stale,
                    self.records[i].flush_due,
                );
                self.put(i, record);
                true
            },
            None => false,
        }
    }

    fn touch(&mut self, id: ViewId) -> (r: bool)
        ensures
            (final(self).model(), r) == touch(old(self).model(), id),
    {
        match self.find(id) {
            Some(i) => {
                let record = self.records[i].touched();
                self.put(i, record);
                true
            },
            None => false,
        }
    }

    fn render(&mut self, id: ViewId) -> (r: Result<bool, RegistryError>)
        ensures
            (final(self).model(), r) == render(old(self).model(), id),
    {
        match self.find(id) {
            Some(i) => {
                let was_stale = match self.records[i].state {
                    ViewState::Stale => true,
                    _ => false,
                };
                let record = self.records[i].drawn();
                self.put(i, record);
                Ok(was_stale)
            },
            None => Err(RegistryError::NotFound),
        }
    }

    fn observe_url(&mut self, id: ViewId, url: &str) -> (r: Result<bool, RegistryError>)
        ensures
            (final(self).model(), r) == observe_url(old(self).model(), id, url@),
    {
        match self.find(id) {
            Some(i) => {
                let reported = String::from_str(url);
                if self.records[i].url == reported {
                    return Ok(false);
                }
                let record = ViewRecord {
                    id: self.records[i].id,
                    url: reported,
                    title: self.records[i].title.clone(),
                    epoch: self.records[i].epoch,
                    inflight: self.records[i].inflight,
                    state: self.records[i].state,
                    flush_due: self.records[i].flush_due,
                };
                self.put(i, record);
                Ok(true)
            },
            None => Err(RegistryError::NotFound),
        }
    }

    fn observe_title(&mut self, id: ViewId, title: &str) -> (r: Result<bool, RegistryError>)
        ensures
            (final(self).model(), r) == observe_title(old(self).model(), id, title@),
    {
        match self.find(id) {
            Some(i) => {
                let reported = String::from_str(title);
                if self.records[i].title == reported {
                    return Ok(false);
                }
                let record = ViewRecord {
                    id: self.records[i].id,
                    url: self.records[i].url.clone(),
                    title: reported,
                    epoch: self.records[i].epoch,
                    inflight: self.records[i].inflight,
                    state: self.records[i].state,
                    flush_due: self.records[i].flush_due,
                };
                self.put(i, record);
                Ok(true)
            },
            None => Err(RegistryError::NotFound),
        }
    }

    fn resize(&mut self, size: ViewSize) -> (r: bool)
        ensures
            (final(self).model(), r) == resize(old(self).model(), size),
    {
        if size.width == self.size.width && size.height == self.size.height {
            return false;
        }
        self.size = size;
        let mut i: usize = 0;
        while i < self.records.len()
            invariant
                i <= self.records.len(),
                self.records.len() == old(self).records.len(),
                self.size == size,
                self.current == old(self).current,
                self.native_fetch == old(self).native_fetch,
                forall|j: int|
                    0 <= j < i ==> (#[trigger] self.records@[j])@ == touched(
                        old(self).records@[j]@,
                    ),
                forall|j: int|
                    i <= j < self.records.len() ==> (#[trigger] self.records@[j])@ == old(
                        self,
                    ).records@[j]@,
            decreases self.records.len() - i,
        {
            let record = self.records[i].touched();
            self.records.set(i, record);
            i += 1;
        }
        assert(models(self.records@) =~= each(
            models(old(self).records@),
            |v: ViewModel| touched(v),
        ));
        true
    }

    fn sweep(&mut self) -> (r: Vec<ViewId>)
        ensures
            (final(self).model(), r@) == sweep(old(self).model()),
    {
        let mut out: Vec<ViewId> = Vec::new();
        let ghost before = models(self.records@);
        let ghost pick = |v: ViewModel| v.state == ViewState::Stale;
        let mut i: usize = 0;
        assert(before.take(0) =~= Seq::<ViewModel>::empty());
        while i < self.records.len()
            invariant
                i <= self.records.len(),
                self.records.len() == old(self).records.len(),
                before == models(old(self).records@),
                pick == (|v: ViewModel| v.state == ViewState::Stale),
                self.size == old(self).size,
                self.current == old(self).current,
                self.native_fetch == old(self).native_fetch,
                out@ == ids_where(before.take(i as int), pick),
                forall|j: int| 0 <= j < i ==> (#[trigger] self.records@[j])@ == drawn(before[j]),
                forall|j: int|
                    i <= j < self.records.len() ==> (#[trigger] self.records@[j])@ == before[j],
            decreases self.records.len() - i,
        {
            assert(before.take(i + 1).drop_last() =~= before.take(i as int));
            assert(before.take(i + 1).last() == before[i as int]);
            match self.records[i].state {
                ViewState::Stale => {
                    out.push(self.records[i].id);
                },
                _ => {},
            }
            let record = self.records[i].drawn();
            self.records.set(i, record);
            i += 1;
        }
        assert(before.take(i as int) =~= before);
        assert(models(self.records@) =~= each(before, |v: ViewModel| drawn(v)));
        out
    }

    fn flush(&mut self) -> (r: Vec<ViewId>)
        ensures
            (final(self).model(), r@) == flush(old(self).model()),
    {
        let mut out: Vec<ViewId> = Vec::new();
        let ghost before = models(self.records@);
        let ghost pick = |v: ViewModel| flush_ready(v);
        let mut i: usize = 0;
        assert(before.take(0) =~= Seq::<ViewModel>::empty());
        while i < self.records.len()
            invariant
                i <= self.records.len(),
                self.records.len() == old(self).records.len(),
                before == models(old(self).records@),
                pick == (|v: ViewModel| flush_ready(v)),
                self.size == old(self).size,
                self.current == old(self).current,
                self.native_fetch == old(self).native_fetch,
                out@ == ids_where(before.take(i as int), pick),
                forall|j: int| 0 <= j < i ==> (#[trigger] self.records@[j])@ == ticked(before[j]),
                forall|j: int|
                    i <= j < self.records.len() ==> (#[trigger] self.records@[j])@ == before[j],
            decreases self.records.len() - i,
        {
            assert(before.take(i + 1).drop_last() =~= before.take(i as int));
            assert(before.take(i + 1).last() == before[i as int]);
            if self.records[i].flush_due && self.records[i].inflight == 0 {
                out.push(self.records[i].id);
            }
            let record = self.records[i].ticked();
            self.records.set(i, record);
            i += 1;
        }
        assert(before.take(i as int) =~= before);
        assert(models(self.records@) =~= each(before, |v: ViewModel| ticked(v)));
        out
    }

    fn plan_one(&mut self, r: &PendingImageRef) -> (q: Option<ImageRequest>)
        ensures
            final(self).model() == plan_one(old(self).model(), r@).0,
            match q {
                Some(request) => plan_one(old(self).model(), r@).1 == Some(request@),
                None => plan_one(old(self).model(), r@).1 is None,
            },
    {
        let i = match self.find(r.view) {
            Some(i) => i,
            None => {
                return None;
            },
        };
        let page = display_url(self.records[i].url.as_str());
        let target = match resolve_url(r.src.as_str(), r.base_url.as_str(), page.as_str()) {
            Ok(u) => u,
            Err(_) => {
                return None;
            },
        };
        if !is_web_url(&target) {
            return None;
        }
        if self.records[i].inflight == usize::MAX {
            return None;
        }
        let epoch = self.records[i].epoch;
        let record = self.records[i].restated(
            self.records[i].inflight + 1,
            self.records[i].state,
            self.records[i].flush_due,
        );
        self.put(i, record);
        Some(
            ImageRequest {
                view: r.view,
                url: target.href,
                src: r.src.clone(),
                affects_layout: r.affects_layout,
                epoch,
            },
        )
    }

    fn plan(&mut self, refs: &Vec<PendingImageRef>) -> (out: Vec<ImageRequest>)
        ensures
            (final(self).model(), requests_of(out@)) == plan(old(self).model(), refs_of(refs@)),
    {
        let mut out: Vec<ImageRequest> = Vec::new();
        let mut i: usize = 0;
        assert(refs_of(refs@).take(0) =~= Seq::<ImageRef>::empty());
        assert(requests_of(out@) =~= Seq::<Request>::empty());
        while i < refs.len()
            invariant
                i <= refs.len(),
                (self.model(), requests_of(out@)) == plan(
                    old(self).model(),
                    refs_of(refs@).take(i as int),
                ),
            decreases refs.len() - i,
        {
            let ghost so_far = requests_of(out@);
            assert(refs_of(refs@).take(i + 1).drop_last() =~= refs_of(refs@).take(i as int));
            assert(refs_of(refs@).take(i + 1).last() == refs@[i as int]@);
            match self.plan_one(&refs[i]) {
                Some(request) => {
                    out.push(request);
                    assert(requests_of(out@) =~= so_far.push(request@));
                },
                None => {},
            }
            i += 1;
        }
        assert(refs_of(refs@).take(i as int) =~= refs_of(refs@));
        out
    }

    fn complete(&mut self, id: ViewId, tag: u64, arrived: bool) -> (r: bool)
        ensures
            (final(self).model(), r) == complete(old(self).model(), id, tag, arrived),
    {
        match self.find(id) {
            Some(i) => {
                let delivered = tag == self.records[i].epoch && arrived;
                let record = self.records[i].completed(tag, arrived);
                self.put(i, record);
                delivered
            },
            None => false,
        }
    }

    fn click(&mut self, id: ViewId, href: &str) -> (r: Result<AnchorOutcome, RegistryError>)
        ensures
            final(self).model() == click(old(self).model(), id, href@).0,
            match r {
                Ok(o) => click(old(self).model(), id, href@).1 == Ok::<
                    AnchorChoice,
                    RegistryError,
                >(o@),
                Err(e) => click(old(self).model(), id, href@).1 == Err::<
                    AnchorChoice,
                    RegistryError,
                >(e),
            },
            r matches Ok(AnchorOutcome::Navigate { url, epoch }) ==> navigate(
                old(self).model(),
                id,
                url@.href,
            ).1 == Ok::<u64, RegistryError>(epoch),
    {
        let i = match self.find(id) {
            Some(i) => i,
            None => {
                return Err(RegistryError::NotFound);
            },
        };
        let page = display_url(self.records[i].url.as_str());
        let target = resolve_url(href, "", page.as_str());
        let current = parse(page.as_str());
        proof {
            reveal_strlit("");
            assert(""@ =~= Seq::<char>::empty());
        }
        match decide_anchor(target, current) {
            AnchorOutcome::Navigate { url, epoch: _ } => {
                match self.navigate(id, url.href.as_str()) {
                    Ok(epoch) => Ok(AnchorOutcome::Navigate { url, epoch }),
                    Err(e) => Err(e),
                }
            },
            other => Ok(other),
        }
    }
}

/// The view registry.
pub struct Registry {
    parts: Parts,
}

impl View for Registry {
    type V = RegistryModel;

    closed spec fn view(&self) -> RegistryModel {
        self.parts.model()
    }
}

impl Registry {
    #[verifier::type_invariant]
    spec fn well_formed(self) -> bool {
        wf(self.parts.model())
    }

    /// A registry without views, for a backend that does or does not fetch
    /// pages by itself.
    pub fn new(native_fetch: bool) -> (r: Registry)
        ensures
            r@ == empty(native_fetch),
            wf(r@),
    {
        let parts = Parts {
            records: Vec::new(),
            size: ViewSize::initial(),
            current: None,
            native_fetch,
        };
        assert(models(parts.records@) =~= Seq::<ViewModel>::empty());
        Registry { parts }
    }

    fn take(&mut self) -> (parts: Parts)
        ensures
            parts.model() == old(self)@,
            wf(parts.model()),
    {
        proof {
            use_type_invariant(&*self);
        }
        let mut taken = Registry::new(true);
        core::mem::swap(self, &mut taken);
        taken.parts
    }

    /// The number of open views.
    pub fn len(&self) -> (n: usize)
        ensures
            n == self@.views.len(),
            wf(self@),
    {
        proof {
            use_type_invariant(self);
        }
        self.parts.records.len()
    }

    /// The size views are laid out for.
    pub fn size(&self) -> (s: ViewSize)
        ensures
            s == self@.size,
            wf(self@),
    {
        proof {
            use_type_invariant(self);
        }
        self.parts.size
    }

    /// Whether pages are fetched by this library on the backend's behalf.
    pub fn fetches_pages(&self) -> (r: bool)
        ensures
            r == !self@.native_fetch,
            wf(self@),
    {
        proof {
            use_type_invariant(self);
        }
        !self.parts.native_fetch
    }

    /// Whether a view with this identifier is open.
    pub fn has_view(&self, id: ViewId) -> (r: bool)
        ensures
            r == lookup(self@, id) is Some,
            wf(self@),
    {
        proof {
            use_type_invariant(self);
        }
        self.parts.find(id).is_some()
    }

    /// The record of the view with this identifier, if it is open.
    pub fn view_record(&self, id: ViewId) -> (r: Option<&ViewRecord>)
        ensures
            match r {
                Some(record) => lookup(self@, id) == Some(record@),
                None => lookup(self@, id) is None,
            },
            wf(self@),
    {
        proof {
            use_type_invariant(self);
        }
        match self.parts.find(id) {
            Some(i) => Some(&self.parts.records[i]),
            None => None,
        }
    }

    /// The identifiers of the open views, in the order of their creation.
    pub fn view_ids(&self) -> (r: Vec<ViewId>)
        ensures
            r@.len() == self@.views.len(),
            forall|i: int| 0 <= i < r@.len() ==> r@[i] == self@.views[i].id,
            wf(self@),
    {
        proof {
            use_type_invariant(self);
        }
        let mut out: Vec<ViewId> = Vec::new();
        let mut i: usize = 0;
        while i < self.parts.records.len()
            invariant
                i <= self.parts.records.len(),
                out@.len() == i,
                forall|j: int| 0 <= j < i ==> out@[j] == models(self.parts.records@)[j].id,
            decreases self.parts.records.len() - i,
        {
            out.push(self.parts.records[i].id);
            i += 1;
        }
        out
    }

    /// The identifier of the view at a position.
    pub fn index_as_view_id(&self, index: u32) -> (r: Result<ViewId, RegistryError>)
        ensures
            r == id_at(self@, index as nat),
            wf(self@),
    {
        proof {
            use_type_invariant(self);
        }
        self.parts.id_at(index)
    }

    /// The identifier of the current view.
    pub fn get_current_view_id(&self) -> (r: Result<ViewId, RegistryError>)
        ensures
            r == current_id(self@),
            wf(self@),
    {
        proof {
            use_type_invariant(self);
        }
        match self.parts.current {
            Some(i) => {
                if i < self.parts.records.len() {
                    Ok(self.parts.records[i].id)
                } else {
                    Err(RegistryError::NotFound)
                }
            },
            None => Err(RegistryError::NotFound),
        }
    }

    /// Registers a view that the backend made under the identifier `id`
    /// without content. An identifier that is in use is refused.
    pub fn open_view(&mut self, id: ViewId) -> (r: Result<(), RegistryError>)
        ensures
            (final(self)@, r) == open(old(self)@, id),
            wf(final(self)@),
    {
        let mut parts = self.take();
        proof {
            lemma_open_keeps_wf(parts.model(), id);
        }
        let r = parts.open(id);
        *self = Registry { parts };
        r
    }

    /// Registers a view that the backend made under the identifier `id`
    /// and asked to show `content`. The answer tells whether the view's page is to be fetched by this
    /// library: it is when the content is an address and the backend cannot
    /// fetch. An identifier that is in use is refused.
    pub fn create_view(&mut self, id: ViewId, content: &PageType) -> (r: Result<
        bool,
        RegistryError,
    >)
        ensures
            (final(self)@, r) == create(old(self)@, id, *content),
            wf(final(self)@),
    {
        let mut parts = self.take();
        proof {
            lemma_create_keeps_wf(parts.model(), id, *content);
        }
        let r = parts.create(id, content);
        *self = Registry { parts };
        r
    }

    /// Closes the view with the identifier `id`.
    pub fn close_view(&mut self, id: ViewId) -> (r: Result<ViewId, RegistryError>)
        ensures
            (final(self)@, r) == close(old(self)@, id),
            wf(final(self)@),
    {
        let mut parts = self.take();
        let r = match parts.find(id) {
            Some(i) => {
                proof {
                    lemma_close_at_keeps_wf(parts.model(), i as nat);
                }
                parts.close_at(i)
            },
            None => Err(RegistryError::NotFound),
        };
        *self = Registry { parts };
        r
    }

    /// Closes the view at a position.
    pub fn close_index(&mut self, index: u32) -> (r: Result<ViewId, RegistryError>)
        ensures
            (final(self)@, r) == close_at(old(self)@, index as nat),
            wf(final(self)@),
    {
        let mut parts = self.take();
        proof {
            lemma_close_at_keeps_wf(parts.model(), index as nat);
        }
        let r = parts.close_at(index as usize);
        *self = Registry { parts };
        r
    }

    /// Closes the current view.
    pub fn close_current(&mut self) -> (r: Result<ViewId, RegistryError>)
        ensures
            (final(self)@, r) == close_current(old(self)@),
            wf(final(self)@),
    {
        let mut parts = self.take();
        let r = match parts.current {
            Some(i) => {
                proof {
                    lemma_close_at_keeps_wf(parts.model(), i as nat);
                }
                parts.close_at(i)
            },
            None => Err(RegistryError::NotFound),
        };
        *self = Registry { parts };
        r
    }

    /// Makes the view at a position the current one.
    pub fn change_view(&mut self, index: u32) -> (r: Result<ViewId, RegistryError>)
        ensures
            (final(self)@, r) == select(old(self)@, index as nat),
            wf(final(self)@),
    {
        let mut parts = self.take();
        proof {
            lemma_select_keeps_wf(parts.model(), index as nat);
        }
        let r = parts.select(index as usize);
        *self = Registry { parts };
        r
    }

    /// Sends a view to another page. Whatever image fetch is in flight for
    /// the view is disowned by the new epoch; it is still counted when it
    /// completes. The answer is the view's new epoch.
    pub fn navigate(&mut self, id: ViewId, url: &str) -> (r: Result<u64, RegistryError>)
        ensures
            (final(self)@, r) == navigate(old(self)@, id, url@),
            wf(final(self)@),
    {
        let mut parts = self.take();
        proof {
            lemma_change_keeps_ids(
                parts.model(),
                id,
                |v: ViewModel| navigated(v, url@, parts.model().native_fetch),
            );
        }
        let r = parts.navigate(id, url);
        *self = Registry { parts };
        r
    }

    /// Records that the page fetched for a view, or the failure document,
    /// was loaded into it. The answer tells whether the view is open; the
    /// result of a fetch for a closed view is to be dropped.
    pub fn page_loaded(&mut self, id: ViewId) -> (r: bool)
        ensures
            (final(self)@, r) == page_loaded(old(self)@, id),
            wf(final(self)@),
    {
        let mut parts = self.take();
        proof {
            lemma_change_keeps_ids(parts.model(), id, |v: ViewModel| loaded(v));
        }
        let r = parts.page_loaded(id);
        *self = Registry { parts };
        r
    }

    /// Records that something changed in what a view shows: a scroll, an
    /// update of the document, input.
    pub fn touch(&mut self, id: ViewId) -> (r: bool)
        ensures
            (final(self)@, r) == touch(old(self)@, id),
            wf(final(self)@),
    {
        let mut parts = self.take();
        proof {
            lemma_change_keeps_ids(parts.model(), id, |v: ViewModel| touched(v));
        }
        let r = parts.touch(id);
        *self = Registry { parts };
        r
    }

    /// Asks for one view to be drawn. The answer tells whether there is
    /// anything to draw: there is if the view is stale.
    pub fn render(&mut self, id: ViewId) -> (r: Result<bool, RegistryError>)
        ensures
            (final(self)@, r) == render(old(self)@, id),
            wf(final(self)@),
    {
        let mut parts = self.take();
        proof {
            lemma_change_keeps_ids(parts.model(), id, |v: ViewModel| drawn(v));
        }
        let r = parts.render(id);
        *self = Registry { parts };
        r
    }

    /// Takes note of the address the backend reports for a view. The answer
    /// tells whether the address changed.
    pub fn observe_url(&mut self, id: ViewId, url: &str) -> (r: Result<bool, RegistryError>)
        ensures
            (final(self)@, r) == observe_url(old(self)@, id, url@),
            wf(final(self)@),
    {
        let mut parts = self.take();
        proof {
            lemma_change_keeps_ids(parts.model(), id, |v: ViewModel| readdressed(v, url@));
        }
        let r = parts.observe_url(id, url);
        *self = Registry { parts };
        r
    }

    /// Takes note of the title the backend reports for a view. The answer
    /// tells whether the title changed.
    pub fn observe_title(&mut self, id: ViewId, title: &str) -> (r: Result<bool, RegistryError>)
        ensures
            (final(self)@, r) == observe_title(old(self)@, id, title@),
            wf(final(self)@),
    {
        let mut parts = self.take();
        proof {
            lemma_change_keeps_ids(parts.model(), id, |v: ViewModel| retitled(v, title@));
        }
        let r = parts.observe_title(id, title);
        *self = Registry { parts };
        r
    }

    /// Takes note of the size the host reports. A report of the size already
    /// in force changes nothing and answers `false`.
    pub fn resize(&mut self, size: ViewSize) -> (r: bool)
        ensures
            (final(self)@, r) == resize(old(self)@, size),
            wf(final(self)@),
    {
        let mut parts = self.take();
        proof {
            lemma_each_keeps_wf(parts.model(), |v: ViewModel| touched(v));
        }
        let r = parts.resize(size);
        *self = Registry { parts };
        r
    }

    /// Names every stale view, in order, and counts them as drawn.
    pub fn sweep(&mut self) -> (r: Vec<ViewId>)
        ensures
            (final(self)@, r@) == sweep(old(self)@),
            wf(final(self)@),
    {
        let mut parts = self.take();
        proof {
            lemma_each_keeps_wf(parts.model(), |v: ViewModel| drawn(v));
        }
        let r = parts.sweep();
        *self = Registry { parts };
        r
    }

    /// Names every view whose burst of image fetches has ended and is still
    /// to be flushed, in order, and counts them as flushed.
    pub fn flush(&mut self) -> (r: Vec<ViewId>)
        ensures
            (final(self)@, r@) == flush(old(self)@),
            wf(final(self)@),
    {
        let mut parts = self.take();
        proof {
            lemma_each_keeps_wf(parts.model(), |v: ViewModel| ticked(v));
        }
        let r = parts.flush();
        *self = Registry { parts };
        r
    }

    /// Takes up the images that the layout stage found missing and answers
    /// with the fetches to start. An image is fetched if its view is open
    /// and its source resolves to an `http` or `https` address; every other
    /// image is passed over in silence. Each fetch is counted and tagged
    /// with its view's present epoch.
    pub fn plan_images(&mut self, refs: &Vec<PendingImageRef>) -> (out: Vec<ImageRequest>)
        ensures
            (final(self)@, requests_of(out@)) == plan(old(self)@, refs_of(refs@)),
            wf(final(self)@),
    {
        let mut parts = self.take();
        proof {
            lemma_plan_keeps_wf(parts.model(), refs_of(refs@));
        }
        let out = parts.plan(refs);
        *self = Registry { parts };
        out
    }

    /// Takes note that an image fetch completed. `tag` is the epoch the
    /// fetch was started in; `arrived` tells whether it brought bytes. The
    /// answer tells whether the bytes are to be handed to the view.
    pub fn image_completed(&mut self, id: ViewId, tag: u64, arrived: bool) -> (r: bool)
        ensures
            (final(self)@, r) == complete(old(self)@, id, tag, arrived),
            wf(final(self)@),
    {
        let mut parts = self.take();
        proof {
            lemma_change_keeps_ids(parts.model(), id, |v: ViewModel| completed(v, tag, arrived));
        }
        let r = parts.complete(id, tag, arrived);
        *self = Registry { parts };
        r
    }

    /// Takes in the result of an image fetch: counts the completion and
    /// decides whether the bytes are handed on. `src` and `affects_layout`
    /// are those of the request, `tag` is the epoch the request carried.
    /// Bytes are handed on under the request's own key, and ask for a new
    /// layout exactly if the image affects it.
    pub fn deliver_image(
        &mut self,
        id: ViewId,
        src: String,
        result: Result<Vec<u8>, String>,
        affects_layout: bool,
        tag: u64,
    ) -> (r: ImageDelivery)
        ensures
            final(self)@ == complete(old(self)@, id, tag, result is Ok).0,
            match r {
                ImageDelivery::Staged { src: key, bytes, needs_layout } => complete(
                    old(self)@,
                    id,
                    tag,
                    result is Ok,
                ).1 && result is Ok && key@ == src@ && bytes@ == result->Ok_0@ && needs_layout
                    == affects_layout,
                ImageDelivery::Discarded => !complete(old(self)@, id, tag, result is Ok).1,
            },
            wf(final(self)@),
    {
        match result {
            Ok(bytes) => {
                if self.image_completed(id, tag, true) {
                    ImageDelivery::Staged { src, bytes, needs_layout: affects_layout }
                } else {
                    ImageDelivery::Discarded
                }
            },
            Err(_) => {
                self.image_completed(id, tag, false);
                ImageDelivery::Discarded
            },
        }
    }

    /// Takes note of a click on the anchor `href` in a view and decides what
    /// it leads to. A target on the page on show leads to a scroll and
    /// leaves the registry as it is; a target elsewhere navigates the view.
    pub fn anchor_clicked(&mut self, id: ViewId, href: &str) -> (r: Result<
        AnchorOutcome,
        RegistryError,
    >)
        ensures
            final(self)@ == click(old(self)@, id, href@).0,
            match r {
                Ok(o) => click(old(self)@, id, href@).1 == Ok::<AnchorChoice, RegistryError>(o@),
                Err(e) => click(old(self)@, id, href@).1 == Err::<AnchorChoice, RegistryError>(e),
            },
            r matches Ok(AnchorOutcome::Navigate { url, epoch }) ==> navigate(
                old(self)@,
                id,
                url@.href,
            ).1 == Ok::<u64, RegistryError>(epoch),
            wf(final(self)@),
    {
        let mut parts = self.take();
        proof {
            lemma_click_keeps_wf(parts.model(), id, href@);
        }
        let r = parts.click(id, href);
        *self = Registry { parts };
        r
    }
}

} // verus!
