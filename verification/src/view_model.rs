//! The life of one view as mathematical values, and what holds of it.
//!
//! A view carries a navigation epoch and a counter of image fetches in
//! flight. The epoch separates the results that belong to the page on show
//! from those of pages left behind; the counter gathers a burst of image
//! results into one flush. This file defines how both move and proves the
//! two guarantees built on them.

use crate::page::{PageType, ViewId};
use vstd::prelude::*;

verus! {

/// Where a view stands between creation and presentation. A closed view has
/// no state: it is gone from the registry.
#[derive(Clone, Copy, Debug, PartialEq, Eq, Structural)]
pub enum ViewState {
    /// Made, with no content asked for yet.
    Created,
    /// Waiting for a page that is being fetched on its behalf.
    ContentPending,
    /// Changed since it was last drawn.
    Stale,
    /// Drawn and unchanged since.
    Rendered,
}

/// The state of one view.
pub struct ViewModel {
    pub id: ViewId,
    /// The address of the page on show; empty while there is none.
    pub url: Seq<char>,
    pub title: Seq<char>,
    /// Counts the navigations of this view.
    pub epoch: u64,
    /// Image fetches started and not yet completed.
    pub inflight: nat,
    pub state: ViewState,
    /// A burst of image fetches has ended and its flush is still owed.
    pub flush_due: bool,
}

/// What can happen to a view while image fetches are in flight for it.
pub enum Happening {
    /// The host's periodic tick.
    Tick,
    /// An image fetch completed. `tag` is the epoch the fetch was started
    /// in; `arrived` tells whether it brought bytes.
    Completion { tag: u64, arrived: bool },
    /// The view went to another page.
    Navigation { url: Seq<char>, native_fetch: bool },
}

/// The content calls for a fetch by this library: it is an address and the
/// backend cannot fetch by itself.
pub open spec fn needs_fetch(content: PageType, native_fetch: bool) -> bool {
    content is Url && !native_fetch
}

/// The state a view enters when content is asked of it.
pub open spec fn loading_state(fetch: bool) -> ViewState {
    if fetch {
        ViewState::ContentPending
    } else {
        ViewState::Stale
    }
}

/// A view as it is right after it was made, with no content asked of it.
pub open spec fn made(id: ViewId) -> ViewModel {
    ViewModel {
        id,
        url: Seq::empty(),
        title: Seq::empty(),
        epoch: 0,
        inflight: 0,
        state: ViewState::Created,
        flush_due: false,
    }
}

/// A view after content was asked of it for the first time: it waits for
/// its page if the page is to be fetched on its behalf, and is ready to be
/// drawn otherwise.
pub open spec fn asked(v: ViewModel, content: PageType, native_fetch: bool) -> ViewModel {
    ViewModel {
        url: match content {
            PageType::Url(u) => u@,
            PageType::Html(_) => Seq::empty(),
        },
        state: loading_state(needs_fetch(content, native_fetch)),
        ..v
    }
}

/// A view as it is right after its creation with the given content.
pub open spec fn opened(id: ViewId, content: PageType, native_fetch: bool) -> ViewModel {
    asked(made(id), content, native_fetch)
}

/// The epoch that follows `e`. Epochs count up and start over after the
/// greatest value.
pub open spec fn next_epoch(e: u64) -> u64 {
    if e == u64::MAX {
        0
    } else {
        (e + 1) as u64
    }
}

/// A view after a navigation to another page: the epoch moves on, which
/// disowns every image fetch still in flight. The counter stays as it is,
/// for the disowned fetches still complete and are still counted; so does a
/// flush that is owed.
pub open spec fn navigated(v: ViewModel, url: Seq<char>, native_fetch: bool) -> ViewModel {
    ViewModel { url, epoch: next_epoch(v.epoch), state: loading_state(!native_fetch), ..v }
}

/// A view after some change to what it shows: a drawn view is stale again.
pub open spec fn touched(v: ViewModel) -> ViewModel {
    ViewModel {
        state: if v.state == ViewState::Rendered {
            ViewState::Stale
        } else {
            v.state
        },
        ..v
    }
}

/// A view after its fetched page, or the failure document, was loaded.
pub open spec fn loaded(v: ViewModel) -> ViewModel {
    ViewModel { state: ViewState::Stale, ..v }
}

/// A view whose backend reports another address for the page on show.
pub open spec fn readdressed(v: ViewModel, url: Seq<char>) -> ViewModel {
    ViewModel { url, ..v }
}

/// A view whose backend reports another title.
pub open spec fn retitled(v: ViewModel, title: Seq<char>) -> ViewModel {
    ViewModel { title, ..v }
}

/// A view after it was drawn, if it was stale.
pub open spec fn drawn(v: ViewModel) -> ViewModel {
    ViewModel {
        state: if v.state == ViewState::Stale {
            ViewState::Rendered
        } else {
            v.state
        },
        ..v
    }
}

/// A view after one more image fetch was started for it.
pub open spec fn spawned(v: ViewModel) -> ViewModel {
    ViewModel { inflight: v.inflight + 1, ..v }
}

/// The result of an image fetch is handed on exactly if it carries the
/// view's present epoch and brought bytes.
pub open spec fn delivers(v: ViewModel, tag: u64, arrived: bool) -> bool {
    tag == v.epoch && arrived
}

/// The completion brings the counter from one to zero: a burst has ended.
pub open spec fn ends_burst(v: ViewModel) -> bool {
    v.inflight == 1
}

/// A view after an image fetch completed. The counter goes down whatever the
/// result and whatever its epoch; a flush falls due when the counter reaches
/// zero; a delivered image makes a drawn view stale.
pub open spec fn completed(v: ViewModel, tag: u64, arrived: bool) -> ViewModel {
    let counted = ViewModel {
        inflight: if v.inflight > 0 {
            (v.inflight - 1) as nat
        } else {
            0
        },
        flush_due: v.flush_due || ends_burst(v),
        ..v
    };
    if delivers(v, tag, arrived) {
        touched(counted)
    } else {
        counted
    }
}

/// A flush is carried out at a tick when one is owed and no image fetch is
/// in flight.
pub open spec fn flush_ready(v: ViewModel) -> bool {
    v.flush_due && v.inflight == 0
}

/// A view after a tick: an owed flush is carried out once and is owed no
/// longer.
pub open spec fn ticked(v: ViewModel) -> ViewModel {
    if flush_ready(v) {
        ViewModel { flush_due: false, ..v }
    } else {
        v
    }
}

/// A view after one happening, with the number of flushes carried out.
pub open spec fn after(v: ViewModel, h: Happening) -> (ViewModel, nat) {
    match h {
        Happening::Tick => (
            ticked(v),
            if flush_ready(v) {
                1nat
            } else {
                0nat
            },
        ),
        Happening::Completion { tag, arrived } => (completed(v, tag, arrived), 0nat),
        Happening::Navigation { url, native_fetch } => (navigated(v, url, native_fetch), 0nat),
    }
}

/// No navigation is among the happenings.
pub open spec fn steady(hs: Seq<Happening>) -> bool {
    forall|i: int| 0 <= i < hs.len() ==> !(#[trigger] hs[i] is Navigation)
}

/// A view after a sequence of happenings, with the number of flushes
/// carried out along the way.
pub open spec fn after_all(v: ViewModel, hs: Seq<Happening>) -> (ViewModel, nat)
    decreases hs.len(),
{
    if hs.len() == 0 {
        (v, 0nat)
    } else {
        let (first, flushed) = after(v, hs[0]);
        let (last, more) = after_all(first, hs.drop_first());
        (last, flushed + more)
    }
}

/// The number of completions among the happenings.
pub open spec fn completions(hs: Seq<Happening>) -> nat
    decreases hs.len(),
{
    if hs.len() == 0 {
        0
    } else {
        completions(hs.drop_first()) + if hs[0] is Completion {
            1nat
        } else {
            0nat
        }
    }
}

proof fn lemma_completions_push(hs: Seq<Happening>, h: Happening)
    ensures
        completions(hs.push(h)) == completions(hs) + if h is Completion {
            1nat
        } else {
            0nat
        },
    decreases hs.len(),
{
    if hs.len() == 0 {
        assert(hs.push(h).drop_first() =~= Seq::<Happening>::empty());
        assert(completions(Seq::<Happening>::empty()) == 0);
        assert(hs.push(h)[0] == h);
    } else {
        assert(hs.push(h).drop_first() =~= hs.drop_first().push(h));
        assert(hs.push(h)[0] == hs[0]);
        lemma_completions_push(hs.drop_first(), h);
    }
}

proof fn lemma_last_completion_counts(hs: Seq<Happening>)
    requires
        hs.len() > 0,
        hs.last() is Completion,
    ensures
        completions(hs) > 0,
{
    assert(hs.drop_last().push(hs.last()) =~= hs);
    lemma_completions_push(hs.drop_last(), hs.last());
}

proof fn lemma_after_all_push(v: ViewModel, hs: Seq<Happening>, h: Happening)
    ensures
        after_all(v, hs.push(h)).0 == after(after_all(v, hs).0, h).0,
        after_all(v, hs.push(h)).1 == after_all(v, hs).1 + after(after_all(v, hs).0, h).1,
    decreases hs.len(),
{
    if hs.len() == 0 {
        assert(hs.push(h).drop_first() =~= Seq::<Happening>::empty());
        assert(hs.push(h)[0] == h);
        let w = after(v, h).0;
        assert(after_all(w, Seq::<Happening>::empty()) == (w, 0nat));
    } else {
        assert(hs.push(h).drop_first() =~= hs.drop_first().push(h));
        assert(hs.push(h)[0] == hs[0]);
        lemma_after_all_push(after(v, hs[0]).0, hs.drop_first(), h);
    }
}

proof fn lemma_burst(v: ViewModel, hs: Seq<Happening>)
    requires
        v.inflight == completions(hs),
    ensures
        after_all(v, hs).0.inflight == 0,
        after_all(v, hs).1 + (if after_all(v, hs).0.flush_due {
            1nat
        } else {
            0nat
        }) == if v.flush_due || completions(hs) > 0 {
            1nat
        } else {
            0nat
        },
        completions(hs) > 0 && hs.last() is Completion ==> after_all(v, hs).1 == 0,
    decreases hs.len(),
{
    if hs.len() > 0 {
        let first = after(v, hs[0]).0;
        let rest = hs.drop_first();
        lemma_burst(first, rest);
        if rest.len() > 0 {
            assert(rest.last() == hs.last());
            if hs.last() is Completion {
                lemma_last_completion_counts(rest);
            }
        } else {
            assert(after_all(first, rest) == (first, 0nat));
        }
    }
}

/// However many image fetches are in flight for a view, and in whatever
/// order and with whatever outcome they complete, they are flushed exactly
/// once, and not before the last of them has completed.
///
/// The happenings are any interleaving of ticks and navigations with
/// exactly as many completions as there are fetches in flight. No flush is
/// carried out up to and including the last completion; the first tick
/// after it carries out the one flush. A navigation in between changes
/// nothing of this: the results it disowns still end the burst, so the
/// images of the new page that arrive with them are flushed.
pub proof fn lemma_one_flush_per_burst(v: ViewModel, hs: Seq<Happening>)
    requires
        v.inflight == completions(hs),
        v.inflight > 0,
        !v.flush_due,
        hs.last() is Completion,
    ensures
        after_all(v, hs).1 == 0,
        after_all(v, hs.push(Happening::Tick)).1 == 1,
        after_all(v, hs.push(Happening::Tick).push(Happening::Tick)).1 == 1,
        after_all(v, hs).0.inflight == 0,
{
    lemma_burst(v, hs);
    lemma_after_all_push(v, hs, Happening::Tick);
    lemma_after_all_push(v, hs.push(Happening::Tick), Happening::Tick);
}

/// Completions and ticks leave the epoch alone.
pub proof fn lemma_epoch_moves_only_by_navigation(v: ViewModel, hs: Seq<Happening>)
    requires
        steady(hs),
    ensures
        after_all(v, hs).0.epoch == v.epoch,
        after_all(v, hs).0.id == v.id,
    decreases hs.len(),
{
    if hs.len() > 0 {
        assert(!(hs[0] is Navigation));
        assert forall|i: int| 0 <= i < hs.drop_first().len() implies !(
        #[trigger] hs.drop_first()[i] is Navigation) by {
            assert(hs.drop_first()[i] == hs[i + 1]);
        }
        lemma_epoch_moves_only_by_navigation(after(v, hs[0]).0, hs.drop_first());
    }
}

/// A navigation leaves the counter of fetches in flight and an owed flush
/// as they are.
pub proof fn lemma_navigation_keeps_the_count(v: ViewModel, url: Seq<char>, native_fetch: bool)
    ensures
        navigated(v, url, native_fetch).inflight == v.inflight,
        navigated(v, url, native_fetch).flush_due == v.flush_due,
        navigated(v, url, native_fetch).id == v.id,
{
}

/// A navigation moves the epoch to a value it did not have; short of the
/// greatest value, the epoch increases by one.
pub proof fn lemma_navigation_changes_epoch(v: ViewModel, url: Seq<char>, native_fetch: bool)
    ensures
        navigated(v, url, native_fetch).epoch != v.epoch,
        v.epoch < u64::MAX ==> navigated(v, url, native_fetch).epoch == v.epoch + 1,
{
}

/// After two navigations in a row, a result tagged with the epoch of the
/// first is never delivered, whatever completed in between and whatever
/// completed before it arrives, as long as the view is not navigated
/// again.
pub proof fn lemma_stale_result_is_discarded(
    v: ViewModel,
    first_url: Seq<char>,
    second_url: Seq<char>,
    native_fetch: bool,
    between: Seq<Happening>,
    before_arrival: Seq<Happening>,
    arrived: bool,
)
    requires
        steady(between),
        steady(before_arrival),
    ensures
        ({
            let first = navigated(v, first_url, native_fetch);
            let second = navigated(after_all(first, between).0, second_url, native_fetch);
            let at_arrival = after_all(second, before_arrival).0;
            !delivers(at_arrival, first.epoch, arrived)
        }),
{
    let first = navigated(v, first_url, native_fetch);
    lemma_epoch_moves_only_by_navigation(first, between);
    let second = navigated(after_all(first, between).0, second_url, native_fetch);
    lemma_epoch_moves_only_by_navigation(second, before_arrival);
}

/// A result tagged with any epoch but the present one is never delivered,
/// and still counts towards the end of the burst.
pub proof fn lemma_discarded_result_still_counts(v: ViewModel, tag: u64, arrived: bool)
    requires
        tag != v.epoch,
        v.inflight > 0,
    ensures
        !delivers(v, tag, arrived),
        completed(v, tag, arrived).inflight == v.inflight - 1,
        completed(v, tag, arrived).state == v.state,
{
}

} // verus!
