//! What the reader shows of its work, and how it splits it.
use super::storing::in_order;
use crate::feed::{Feed, FeedId};
use crate::io::{
    after_listing, after_subscribing, chunk_size, chunkify_for_threads, chunks_for_cpus, chunks_of,
    chunks_view, error_steps, finish_steps, first_failure, gather, gathered_outcomes, io_loop,
    refresh_feeds, steps_view, successes, threads_for, Action, AfterSubscribing, Gathered,
    Refreshing, Step, StepView, Work,
};
use crate::modes::Mode;
use crate::text::decimal_view;
use vstd::prelude::*;

verus! {

/// Whether a step shows this text.
pub open spec fn flashes<E>(step: Step<E>, text: Seq<char>) -> bool {
    step matches Step::SetFlash(s) && s@ == text
}

/// Whether a step shows this text, and the time that the work took behind it.
pub open spec fn flashes_with_elapsed<E>(step: Step<E>, text: Seq<char>) -> bool {
    step matches Step::SetFlashWithElapsed(s) && s@ == text
}

/// Whether two steps announce work.
pub open spec fn announce<E>(steps: Seq<Step<E>>, text: Seq<char>) -> bool {
    steps.len() == 2 && flashes(steps[0], text) && steps[1] is ForceRedraw
}

proof fn lemma_step<E>(steps: Seq<Step<E>>, i: int)
    requires
        0 <= i < steps.len(),
    ensures
        steps_view(steps)[i] == steps[i]@,
        steps_view(steps).len() == steps.len(),
{
}

/// Work is announced, and then it is the work that was asked for: one feed is refreshed, or all
/// that were named, or the address is subscribed to; clearing the flash is done at once.
pub proof fn law_work_is_what_was_asked_for<E>(event: Action, r: (Vec<Step<E>>, Work))
    requires
        call_ensures(io_loop::<E>, (event,), r),
    ensures
        event matches Action::RefreshFeed(id) ==> announce(r.0@, "Refreshing feed..."@) && (r.1
            matches Work::Refresh(w) && w.feed_ids@ == seq![id] && !w.all),
        event matches Action::RefreshFeeds(ids) ==> announce(r.0@, "Refreshing all feeds..."@) && (
        r.1 matches Work::Refresh(w) && w.feed_ids == ids && w.all),
        event matches Action::SubscribeToFeed(url) ==> announce(r.0@, "Subscribing to feed..."@)
            && (r.1 matches Work::Subscribe(u) && u@ == url@),
        event is ClearFlash ==> r.0.len() == 1 && r.0[0] is ClearFlash && r.1 is Nothing,
{
    let v = steps_view(r.0@);
    assert(v.len() == r.0.len());
    lemma_step(r.0@, 0);
    if !(event is ClearFlash) {
        lemma_step(r.0@, 1);
    }
}

/// Whether the places are those of the errors, all of them, in order.
pub open spec fn are_the_errors<E>(places: Seq<int>, outcomes: Seq<Result<(), E>>) -> bool {
    &&& in_order(places)
    &&& forall|k: int|
        0 <= k < places.len() ==> 0 <= #[trigger] places[k] < outcomes.len() && outcomes[places[k]]
            is Err
    &&& forall|i: int|
        0 <= i < outcomes.len() && #[trigger] outcomes[i] is Err ==> places.contains(i)
}

proof fn lemma_places_of_errors<E>(outcomes: Seq<Result<(), E>>) -> (places: Seq<int>)
    ensures
        are_the_errors(places, outcomes),
        error_steps(outcomes).len() == places.len(),
        successes(outcomes) == outcomes.len() - places.len(),
        forall|k: int|
            0 <= k < places.len() ==> error_steps(outcomes)[k] == StepView::<E>::PushErrorFlash(
                outcomes[#[trigger] places[k]]->Err_0,
            ),
    decreases outcomes.len(),
{
    if outcomes.len() == 0 {
        Seq::empty()
    } else {
        let shorter = outcomes.drop_last();
        let n = shorter.len() as int;
        let before = lemma_places_of_errors(shorter);
        match outcomes.last() {
            Ok(_) => {
                assert forall|i: int|
                    0 <= i < outcomes.len() && #[trigger] outcomes[i] is Err implies before.contains(
                i) by {
                    assert(shorter[i] is Err);
                }
                assert forall|k: int| 0 <= k < before.len() implies 0 <= #[trigger] before[k]
                    < outcomes.len() && outcomes[before[k]] is Err by {
                    assert(shorter[before[k]] is Err);
                }
                before
            },
            Err(_) => {
                let places = before.push(n);
                assert forall|i: int|
                    0 <= i < outcomes.len() && #[trigger] outcomes[i] is Err implies places.contains(
                i) by {
                    if i < n {
                        assert(shorter[i] is Err);
                        let k = choose|k: int| 0 <= k < before.len() && before[k] == i;
                        assert(places[k] == i);
                    } else {
                        assert(places[before.len() as int] == i);
                    }
                }
                assert forall|k: int| 0 <= k < places.len() implies 0 <= #[trigger] places[k]
                    < outcomes.len() && outcomes[places[k]] is Err by {
                    if k < before.len() {
                        assert(places[k] == before[k]);
                        assert(shorter[before[k]] is Err);
                    }
                }
                assert forall|k: int| 0 <= k < places.len() implies error_steps(outcomes)[k]
                    == StepView::<E>::PushErrorFlash(outcomes[#[trigger] places[k]]->Err_0) by {
                    if k < before.len() {
                        assert(places[k] == before[k]);
                    }
                }
                places
            },
        }
    }
}

/// Whether the steps show the errors at these places, and nothing before them.
pub open spec fn show_errors<E>(
    steps: Seq<Step<E>>,
    places: Seq<int>,
    outcomes: Seq<Result<(), E>>,
) -> bool {
    &&& steps.len() >= places.len()
    &&& forall|k: int|
        0 <= k < places.len() ==> steps[k] == Step::<E>::PushErrorFlash(
            outcomes[#[trigger] places[k]]->Err_0,
        )
}

/// Whether the last steps, from a place on, show what was refreshed.
pub open spec fn show_refreshed<E>(steps: Seq<Step<E>>, from: int, text: Seq<char>) -> bool {
    &&& steps.len() == from + 4
    &&& steps[from] is UpdateCurrentFeedAndEntries
    &&& flashes_with_elapsed(steps[from + 1], text)
    &&& steps[from + 2] is ForceRedraw
    &&& steps[from + 3] is ClearFlashLater
}

/// Once feeds were refreshed every error is shown, in order. Where all outcomes are there, what was
/// refreshed is shown then: how many of all, each outcome that is no error counting as one, or that
/// it was the one feed. Where something stopped outcomes from coming in, nothing else is shown, and
/// that is the error of the work.
pub proof fn law_every_error_is_shown<E>(
    work: Refreshing,
    gathered: Gathered<E>,
    r: (Vec<Step<E>>, Result<(), E>),
)
    requires
        call_ensures(Refreshing::finish::<E>, (work, gathered), r),
    ensures
        exists|places: Seq<int>| #[trigger]
            are_the_errors(places, gathered.outcomes@) && show_errors(
                r.0@,
                places,
                gathered.outcomes@,
            ) && match gathered.failure {
                Some(e) => r.0.len() == places.len() && r.1 == Err::<(), E>(e),
                None => r.1 is Ok && show_refreshed(
                    r.0@,
                    places.len() as int,
                    if work.all {
                        "Refreshed "@ + decimal_view(
                            (gathered.outcomes.len() - places.len()) as nat,
                        ) + "/"@ + decimal_view(work.feed_ids.len() as nat) + " feeds in "@
                    } else {
                        "Refreshed feed in "@
                    },
                ),
            },
{
    let outcomes = gathered.outcomes@;
    let places = lemma_places_of_errors(outcomes);
    let errors = error_steps(outcomes);
    let want = finish_steps(work.all, work.feed_ids.len() as nat, outcomes, gathered.failure);
    assert(steps_view(r.0@) == want);
    assert(steps_view(r.0@).len() == r.0.len());
    assert forall|k: int| 0 <= k < places.len() implies r.0@[k] == Step::<E>::PushErrorFlash(
        outcomes[#[trigger] places[k]]->Err_0,
    ) by {
        lemma_step(r.0@, k);
        assert(want[k] == errors[k]);
    }
    assert(show_errors(r.0@, places, outcomes));
    let n = places.len() as int;
    match gathered.failure {
        Some(_) => {},
        None => {
            assert(want.len() == n + 4);
            lemma_step(r.0@, n);
            lemma_step(r.0@, n + 1);
            lemma_step(r.0@, n + 2);
            lemma_step(r.0@, n + 3);
        },
    }
}

/// Whether outcomes are those of the first `k` chunks, one behind the other.
pub open spec fn are_outcomes_of<E>(
    outcomes: Seq<Result<(), E>>,
    chunks: Seq<Result<Vec<Result<(), E>>, E>>,
    k: int,
) -> bool {
    outcomes == Seq::new(k as nat, |i: int| chunks[i]->Ok_0@).flatten()
}

proof fn lemma_gather<E>(chunks: Seq<Result<Vec<Result<(), E>>, E>>) -> (k: int)
    ensures
        0 <= k <= chunks.len(),
        forall|i: int| 0 <= i < k ==> (#[trigger] chunks[i]) is Ok,
        are_outcomes_of(gathered_outcomes(chunks), chunks, k),
        k == chunks.len() ==> first_failure(chunks) is None,
        k < chunks.len() ==> chunks[k] is Err && first_failure(chunks) == Some(chunks[k]->Err_0),
    decreases chunks.len(),
{
    reveal_with_fuel(Seq::flatten, 2);
    if chunks.len() == 0 {
        let parts = Seq::new(0nat, |i: int| chunks[i]->Ok_0@);
        assert(gathered_outcomes(chunks) =~= parts.flatten());
        0
    } else {
        match chunks[0] {
            Err(_) => {
                let parts = Seq::new(0nat, |i: int| chunks[i]->Ok_0@);
                assert(gathered_outcomes(chunks) =~= parts.flatten());
                0
            },
            Ok(first) => {
                let rest = chunks.skip(1);
                let k = lemma_gather(rest);
                let parts = Seq::new((k + 1) as nat, |i: int| chunks[i]->Ok_0@);
                let later = Seq::new(k as nat, |i: int| rest[i]->Ok_0@);
                assert(parts.drop_first() =~= later);
                assert(parts.first() == first@);
                assert(parts.flatten() == first@ + later.flatten());
                assert forall|i: int| 0 <= i < k + 1 implies (#[trigger] chunks[i]) is Ok by {
                    if i > 0 {
                        assert(rest[i - 1] is Ok);
                    }
                }
                k + 1
            },
        }
    }
}

/// All outcomes are gathered, of one chunk behind the other, up to the first chunk that failed as a
/// whole, and what that failed of.
pub proof fn law_outcomes_are_gathered<E>(
    chunks: Vec<Result<Vec<Result<(), E>>, E>>,
    r: Gathered<E>,
)
    requires
        call_ensures(gather::<E>, (chunks,), r),
    ensures
        exists|k: int|
            0 <= k <= chunks.len() && (forall|i: int|
                0 <= i < k ==> (#[trigger] chunks@[i]) is Ok) && #[trigger] are_outcomes_of(
                r.outcomes@,
                chunks@,
                k,
            ) && if k < chunks.len() {
                chunks@[k] is Err && r.failure == Some(chunks@[k]->Err_0)
            } else {
                r.failure is None
            },
{
    let k = lemma_gather(chunks@);
    assert(are_outcomes_of(r.outcomes@, chunks@, k));
}

/// A subscription that failed shows its error, and nothing else; after one that succeeded the feeds
/// are listed. Once they are, the text is emptied, the feeds are shown and selected, and the
/// reader goes back to normal mode; feeds that cannot be listed are an error to show.
pub proof fn law_a_subscription_is_shown<E>(
    outcome: Result<FeedId, E>,
    next: AfterSubscribing<E>,
    feeds: Result<Vec<Feed>, E>,
    steps: Vec<Step<E>>,
)
    requires
        call_ensures(after_subscribing::<E>, (outcome,), next),
        call_ensures(after_listing::<E>, (feeds,), steps),
    ensures
        outcome is Ok ==> next is ListFeeds,
        outcome matches Err(e) ==> next matches AfterSubscribing::Done(s) && s.len() == 1 && s[0]
            == Step::<E>::PushErrorFlash(e),
        feeds matches Err(e) ==> steps.len() == 1 && steps[0] == Step::<E>::PushErrorFlash(e),
        feeds matches Ok(listed) ==> {
            &&& steps.len() == 8
            &&& steps[0] is ResetFeedSubscriptionInput
            &&& steps[1] matches Step::SetFeeds(f) && f@ == listed@
            &&& steps[2] is SelectFeeds
            &&& steps[3] is UpdateCurrentFeedAndEntries
            &&& flashes_with_elapsed(steps[4], "Subscribed in "@)
            &&& steps[5] == Step::<E>::SetMode(Mode::Normal)
            &&& steps[6] is ForceRedraw
            &&& steps[7] is ClearFlashLater
        },
{
    if outcome is Err {
        let s = next->Done_0;
        assert(steps_view(s@).len() == s.len());
        lemma_step(s@, 0);
    }
    assert(steps_view(steps@).len() == steps.len());
    assert forall|i: int| 0 <= i < steps.len() implies steps_view(steps@)[i] == (
    #[trigger] steps[i])@ by {
        lemma_step(steps@, i);
    }
    if feeds is Ok {
        assert(steps.len() == 8);
        assert(steps_view(steps@)[0] == steps[0]@);
        assert(steps_view(steps@)[1] == steps[1]@);
        assert(steps_view(steps@)[2] == steps[2]@);
        assert(steps_view(steps@)[3] == steps[3]@);
        assert(steps_view(steps@)[4] == steps[4]@);
        assert(steps_view(steps@)[5] == steps[5]@);
        assert(steps_view(steps@)[6] == steps[6]@);
        assert(steps_view(steps@)[7] == steps[7]@);
    } else {
        assert(steps_view(steps@)[0] == steps[0]@);
    }
}

/// Whether a chunk holds the items from one multiple of a size to the next, as far as there are
/// any.
pub open spec fn is_chunk<T>(chunk: Seq<T>, items: Seq<T>, size: int, i: int) -> bool {
    0 <= i * size < items.len() && chunk == items.subrange(
        i * size,
        if i * size + size < items.len() {
            i * size + size
        } else {
            items.len() as int
        },
    )
}

/// Whether chunks are the items, all of them, split at every multiple of a size.
pub open spec fn are_chunks_of<T>(chunks: Seq<&[T]>, items: Seq<T>, size: int) -> bool {
    &&& chunks.len() * size >= items.len()
    &&& forall|i: int|
        0 <= i < chunks.len() ==> is_chunk((#[trigger] chunks[i])@, items, size, i)
}

proof fn lemma_chunk_at<T>(items: Seq<T>, size: nat, i: int)
    requires
        size > 0,
        0 <= i < chunks_of(items, size).len(),
    ensures
        is_chunk(chunks_of(items, size)[i], items, size as int, i),
    decreases items.len(),
{
    let all = chunks_of(items, size);
    let whole = size as int;
    if i == 0 {
        assert(0 * whole == 0) by (nonlinear_arith);
        if items.len() <= size {
            assert(all[0] =~= items.subrange(0, items.len() as int));
        } else {
            assert(all[0] =~= items.subrange(0, whole));
        }
    } else {
        let rest = items.skip(whole);
        assert(i * whole == (i - 1) * whole + whole) by (nonlinear_arith);
        lemma_chunk_at(rest, size, i - 1);
        assert(all[i] == chunks_of(rest, size)[i - 1]);
        assert(all[i] =~= items.subrange(
            i * whole,
            if i * whole + whole < items.len() {
                i * whole + whole
            } else {
                items.len() as int
            },
        ));
    }
}

proof fn lemma_chunks_cover<T>(items: Seq<T>, size: nat)
    requires
        size > 0,
    ensures
        chunks_of(items, size).len() * size >= items.len(),
    decreases items.len(),
{
    let n = chunks_of(items, size).len();
    if items.len() > size {
        let rest = items.skip(size as int);
        lemma_chunks_cover(rest, size);
        assert(n == chunks_of(rest, size).len() + 1);
        assert(n * size == chunks_of(rest, size).len() * size + size) by (nonlinear_arith)
            requires
                n == chunks_of(rest, size).len() + 1,
        ;
    } else if items.len() > 0 {
        assert(n == 1);
        assert(n * size == size) by (nonlinear_arith)
            requires
                n == 1,
        ;
    } else {
        assert(n * size >= 0) by (nonlinear_arith);
    }
}

proof fn lemma_are_chunks<T>(chunks: Seq<&[T]>, items: Seq<T>, size: nat)
    requires
        size > 0,
        chunks_view(chunks) == chunks_of(items, size),
    ensures
        are_chunks_of(chunks, items, size as int),
{
    lemma_chunks_cover(items, size);
    assert(chunks_view(chunks).len() == chunks.len());
    let whole = size as int;
    assert(chunks.len() * whole >= items.len());
    assert forall|i: int| 0 <= i < chunks.len() implies is_chunk(
        (#[trigger] chunks[i])@,
        items,
        whole,
        i,
    ) by {
        lemma_chunk_at(items, size, i);
        assert(chunks_view(chunks)[i] == chunks[i]@);
    }
}

/// The share of each of so many threads, rounded down, but at least one item.
pub open spec fn share(len: int, threads: int) -> int {
    if len / threads >= 1 {
        len / threads
    } else {
        1
    }
}

proof fn lemma_share(len: nat, threads: nat)
    requires
        threads > 0,
    ensures
        chunk_size(len, threads) == share(len as int, threads as int),
        chunk_size(len, threads) > 0,
{
    assert(len / threads >= 0) by (nonlinear_arith)
        requires
            threads > 0,
    ;
}

/// Items are split into chunks, each the share of a thread and the last one what is left; every
/// item is in the chunk of its place.
pub proof fn law_items_are_split_into_shares<T>(items: &[T], threads: usize, r: Vec<&[T]>)
    requires
        threads > 0,
        call_ensures(chunkify_for_threads::<T>, (items, threads), r),
    ensures
        are_chunks_of(r@, items@, share(items@.len() as int, threads as int)),
{
    lemma_share(items@.len(), threads as nat);
    lemma_are_chunks(r@, items@, chunk_size(items@.len(), threads as nat));
}

/// Feeds are split into shares for two threads on each processor.
pub proof fn law_feeds_are_split_for_two_threads_each(
    feed_ids: &[FeedId],
    cpus: usize,
    r: Vec<&[FeedId]>,
)
    requires
        cpus > 0,
        call_ensures(chunks_for_cpus, (feed_ids, cpus), r),
    ensures
        2 * cpus <= usize::MAX ==> are_chunks_of(
            r@,
            feed_ids@,
            share(feed_ids@.len() as int, 2 * cpus),
        ),
        2 * cpus > usize::MAX ==> are_chunks_of(
            r@,
            feed_ids@,
            share(feed_ids@.len() as int, usize::MAX as int),
        ),
{
    let threads = threads_for(cpus as nat);
    lemma_share(feed_ids@.len(), threads);
    lemma_are_chunks(r@, feed_ids@, chunk_size(feed_ids@.len(), threads));
}

/// However many processors there are, every feed is refreshed, in the chunk of its place, and
/// feeds are split into equal shares.
pub proof fn law_all_feeds_are_refreshed(feed_ids: &[FeedId], r: Vec<&[FeedId]>)
    requires
        call_ensures(refresh_feeds, (feed_ids,), r),
    ensures
        exists|threads: int|
            2 <= threads <= usize::MAX && #[trigger] are_chunks_of(
                r@,
                feed_ids@,
                share(feed_ids@.len() as int, threads),
            ),
{
    let cpus = choose|cpus: nat|
        cpus > 0 && chunks_view(r@) == chunks_of(
            feed_ids@,
            chunk_size(feed_ids@.len(), #[trigger] threads_for(cpus)),
        );
    let threads = threads_for(cpus);
    lemma_share(feed_ids@.len(), threads);
    lemma_are_chunks(r@, feed_ids@, chunk_size(feed_ids@.len(), threads));
    assert(are_chunks_of(r@, feed_ids@, share(feed_ids@.len() as int, threads as int)));
}

} // verus!
