//! Work for the network and the database: refreshing feeds, and subscribing to one.
//!
//! Work goes step by step. `io_loop` says which steps come first, and what is to be done then;
//! whoever does it hands back what came of it, and is told the steps that follow. A step that
//! fails ends the work, with its error.
use crate::feed::{Feed, FeedId};
use crate::modes::Mode;
use crate::text::{decimal, decimal_view};
use vstd::prelude::*;
use vstd::slice::slice_subrange;

verus! {

/// Work to be done.
#[derive(Debug)]
pub enum Action {
    RefreshFeed(FeedId),
    RefreshFeeds(Vec<FeedId>),
    SubscribeToFeed(String),
    ClearFlash,
}

/// A step that shows how work is going, or what came of it.
#[derive(Debug)]
pub enum Step<E> {
    SetFlash(String),
    /// Set the flash to this text, with the time since the work began behind it.
    SetFlashWithElapsed(String),
    ClearFlash,
    /// Clear the flash after the time for which it is shown.
    ClearFlashLater,
    PushErrorFlash(E),
    ForceRedraw,
    UpdateCurrentFeedAndEntries,
    ResetFeedSubscriptionInput,
    SetFeeds(Vec<Feed>),
    SelectFeeds,
    SetMode(Mode),
}

/// What a step holds.
pub enum StepView<E> {
    SetFlash(Seq<char>),
    SetFlashWithElapsed(Seq<char>),
    ClearFlash,
    ClearFlashLater,
    PushErrorFlash(E),
    ForceRedraw,
    UpdateCurrentFeedAndEntries,
    ResetFeedSubscriptionInput,
    SetFeeds(Seq<Feed>),
    SelectFeeds,
    SetMode(Mode),
}

impl<E> View for Step<E> {
    type V = StepView<E>;

    open spec fn view(&self) -> StepView<E> {
        match self {
            Step::SetFlash(s) => StepView::SetFlash(s@),
            Step::SetFlashWithElapsed(s) => StepView::SetFlashWithElapsed(s@),
            Step::ClearFlash => StepView::ClearFlash,
            Step::ClearFlashLater => StepView::ClearFlashLater,
            Step::PushErrorFlash(e) => StepView::PushErrorFlash(*e),
            Step::ForceRedraw => StepView::ForceRedraw,
            Step::UpdateCurrentFeedAndEntries => StepView::UpdateCurrentFeedAndEntries,
            Step::ResetFeedSubscriptionInput => StepView::ResetFeedSubscriptionInput,
            Step::SetFeeds(feeds) => StepView::SetFeeds(feeds@),
            Step::SelectFeeds => StepView::SelectFeeds,
            Step::SetMode(mode) => StepView::SetMode(*mode),
        }
    }
}

/// What a list of steps holds.
pub open spec fn steps_view<E>(steps: Seq<Step<E>>) -> Seq<StepView<E>> {
    steps.map_values(|s: Step<E>| s@)
}

/// Feeds that are being refreshed.
#[derive(Debug)]
pub struct Refreshing {
    pub feed_ids: Vec<FeedId>,
    /// Whether all feeds were asked for, rather than one.
    pub all: bool,
}

/// What is to be done after the first steps of some work.
#[derive(Debug)]
pub enum Work {
    /// Feeds are to be refreshed; the outcomes are for `Refreshing::finish`.
    Refresh(Refreshing),
    /// The feed at this address is to be subscribed to; the outcome is for
    /// `after_subscribing`.
    Subscribe(String),
    /// Nothing.
    Nothing,
}

/// The steps that some work starts with.
pub open spec fn first_steps<E>(event: Action) -> Seq<StepView<E>> {
    match event {
        Action::RefreshFeed(_) => seq![
            StepView::SetFlash("Refreshing feed..."@),
            StepView::ForceRedraw,
        ],
        Action::RefreshFeeds(_) => seq![
            StepView::SetFlash("Refreshing all feeds..."@),
            StepView::ForceRedraw,
        ],
        Action::SubscribeToFeed(_) => seq![
            StepView::SetFlash("Subscribing to feed..."@),
            StepView::ForceRedraw,
        ],
        Action::ClearFlash => seq![StepView::ClearFlash],
    }
}

fn announce<E>(flash: &str) -> (steps: Vec<Step<E>>)
    ensures
        steps_view(steps@) == seq![StepView::<E>::SetFlash(flash@), StepView::ForceRedraw],
{
    let mut steps: Vec<Step<E>> = Vec::new();
    steps.push(Step::SetFlash(flash.to_owned()));
    steps.push(Step::ForceRedraw);
    proof {
        assert(steps_view(steps@) =~= seq![StepView::SetFlash(flash@), StepView::ForceRedraw]);
    }
    steps
}

/// Begins some work.
pub fn io_loop<E>(event: Action) -> (r: (Vec<Step<E>>, Work))
    ensures
        steps_view(r.0@) == first_steps::<E>(event),
        match event {
            Action::RefreshFeed(feed_id) => r.1 matches Work::Refresh(work) && work.feed_ids@
                == seq![feed_id] && !work.all,
            Action::RefreshFeeds(feed_ids) => r.1 == Work::Refresh(
                Refreshing { feed_ids, all: true },
            ),
            Action::SubscribeToFeed(url) => r.1 == Work::Subscribe(url),
            Action::ClearFlash => r.1 == Work::Nothing,
        },
{
    match event {
        Action::RefreshFeed(feed_id) => {
            let mut feed_ids: Vec<FeedId> = Vec::new();
            feed_ids.push(feed_id);
            proof {
                assert(feed_ids@ =~= seq![feed_id]);
            }
            (announce("Refreshing feed..."), Work::Refresh(Refreshing { feed_ids, all: false }))
        },
        Action::RefreshFeeds(feed_ids) => (
            announce("Refreshing all feeds..."),
            Work::Refresh(Refreshing { feed_ids, all: true }),
        ),
        Action::SubscribeToFeed(url) => (announce("Subscribing to feed..."), Work::Subscribe(url)),
        Action::ClearFlash => {
            let mut steps: Vec<Step<E>> = Vec::new();
            steps.push(Step::ClearFlash);
            proof {
                assert(steps_view(steps@) =~= seq![StepView::ClearFlash]);
            }
            (steps, Work::Nothing)
        },
    }
}

/// The outcomes of refreshing feeds.
#[derive(Debug)]
pub struct Gathered<E> {
    /// One for each feed, in order, as far as they came in.
    pub outcomes: Vec<Result<(), E>>,
    /// What stopped others from coming in.
    pub failure: Option<E>,
}

/// The outcomes in the chunks before the first that failed as a whole.
pub open spec fn gathered_outcomes<E>(
    chunks: Seq<Result<Vec<Result<(), E>>, E>>,
) -> Seq<Result<(), E>>
    decreases chunks.len(),
{
    if chunks.len() == 0 {
        Seq::empty()
    } else {
        match chunks[0] {
            Ok(outcomes) => outcomes@ + gathered_outcomes(chunks.skip(1)),
            Err(_) => Seq::empty(),
        }
    }
}

/// What the first chunk that failed as a whole failed of.
pub open spec fn first_failure<E>(chunks: Seq<Result<Vec<Result<(), E>>, E>>) -> Option<E>
    decreases chunks.len(),
{
    if chunks.len() == 0 {
        None
    } else {
        match chunks[0] {
            Ok(_) => first_failure(chunks.skip(1)),
            Err(e) => Some(e),
        }
    }
}

/// Gathers the outcomes of chunks that were refreshed each on its own, in the order of the
/// chunks, up to the first that failed as a whole.
pub fn gather<E>(chunks: Vec<Result<Vec<Result<(), E>>, E>>) -> (r: Gathered<E>)
    ensures
        r.outcomes@ == gathered_outcomes(chunks@),
        r.failure == first_failure(chunks@),
{
    let ghost all = chunks@;
    let mut outcomes: Vec<Result<(), E>> = Vec::new();
    proof {
        assert(all.skip(0) =~= all);
    }
    for chunk in it: chunks
        invariant
            it.seq() == all,
            gathered_outcomes(all) == outcomes@ + gathered_outcomes(all.skip(it.index() as int)),
            first_failure(all) == first_failure(all.skip(it.index() as int)),
    {
        let ghost rest = all.skip(it.index() as int);
        proof {
            assert(rest[0] == chunk);
            assert(rest.skip(1) =~= all.skip(it.index() + 1));
        }
        match chunk {
            Ok(mut more) => {
                let ghost before = outcomes@;
                let ghost added = more@;
                outcomes.append(&mut more);
                proof {
                    assert(outcomes@ =~= before + added);
                    assert(gathered_outcomes(all) =~= outcomes@ + gathered_outcomes(rest.skip(1)));
                }
            },
            Err(e) => {
                proof {
                    assert(gathered_outcomes(all) =~= outcomes@);
                }
                return Gathered { outcomes, failure: Some(e) };
            },
        }
    }
    proof {
        assert(gathered_outcomes(all) =~= outcomes@);
    }
    Gathered { outcomes, failure: None }
}

/// One step for each feed that could not be refreshed: its error is shown.
pub open spec fn error_steps<E>(outcomes: Seq<Result<(), E>>) -> Seq<StepView<E>>
    decreases outcomes.len(),
{
    if outcomes.len() == 0 {
        Seq::empty()
    } else {
        match outcomes.last() {
            Ok(_) => error_steps(outcomes.drop_last()),
            Err(e) => error_steps(outcomes.drop_last()).push(StepView::PushErrorFlash(e)),
        }
    }
}

/// How many feeds were refreshed.
pub open spec fn successes<E>(outcomes: Seq<Result<(), E>>) -> nat
    decreases outcomes.len(),
{
    if outcomes.len() == 0 {
        0
    } else {
        successes(outcomes.drop_last()) + match outcomes.last() {
            Ok(_) => 1nat,
            Err(_) => 0nat,
        }
    }
}

/// What is said of feeds once they were refreshed, up to the time it took.
pub open spec fn refreshed_text(all: bool, refreshed: nat, asked: nat) -> Seq<char> {
    if all {
        "Refreshed "@ + decimal_view(refreshed) + "/"@ + decimal_view(asked) + " feeds in "@
    } else {
        "Refreshed feed in "@
    }
}

/// The steps that show feeds once they were refreshed.
pub open spec fn refreshed_steps<E>(text: Seq<char>) -> Seq<StepView<E>> {
    seq![
        StepView::UpdateCurrentFeedAndEntries,
        StepView::SetFlashWithElapsed(text),
        StepView::ForceRedraw,
        StepView::ClearFlashLater,
    ]
}

/// The steps after feeds were refreshed: the errors come first, and where outcomes are missing,
/// nothing comes behind them.
pub open spec fn finish_steps<E>(
    all: bool,
    asked: nat,
    outcomes: Seq<Result<(), E>>,
    failure: Option<E>,
) -> Seq<StepView<E>> {
    error_steps(outcomes) + match failure {
        Some(_) => Seq::empty(),
        None => refreshed_steps(refreshed_text(all, successes(outcomes), asked)),
    }
}

fn push_refreshed<E>(steps: &mut Vec<Step<E>>, text: String)
    ensures
        steps_view(final(steps)@) == steps_view(old(steps)@) + refreshed_steps::<E>(text@),
{
    steps.push(Step::UpdateCurrentFeedAndEntries);
    steps.push(Step::SetFlashWithElapsed(text));
    steps.push(Step::ForceRedraw);
    steps.push(Step::ClearFlashLater);
    proof {
        assert(steps_view(steps@) =~= steps_view(old(steps)@) + refreshed_steps::<E>(text@));
    }
}

impl Refreshing {
    /// Takes the outcomes, and gives the steps that follow. Where outcomes are missing, the work
    /// ends behind these steps with what stopped them.
    pub fn finish<E>(self, gathered: Gathered<E>) -> (r: (Vec<Step<E>>, Result<(), E>))
        ensures
            steps_view(r.0@) == finish_steps(
                self.all,
                self.feed_ids.len() as nat,
                gathered.outcomes@,
                gathered.failure,
            ),
            match gathered.failure {
                Some(e) => r.1 == Err::<(), E>(e),
                None => r.1 is Ok,
            },
    {
        let mut steps: Vec<Step<E>> = Vec::new();
        let mut refreshed: usize = 0;
        let ghost all_outcomes = gathered.outcomes@;
        proof {
            assert(all_outcomes.len() == gathered.outcomes.len());
            assert(steps_view(steps@) =~= error_steps(all_outcomes.take(0)));
        }
        for outcome in it: gathered.outcomes
            invariant
                it.seq() == all_outcomes,
                all_outcomes.len() <= usize::MAX,
                refreshed <= it.index(),
                refreshed == successes(all_outcomes.take(it.index() as int)),
                steps_view(steps@) == error_steps(all_outcomes.take(it.index() as int)),
        {
            proof {
                let here = all_outcomes.take(it.index() + 1);
                assert(here.drop_last() =~= all_outcomes.take(it.index() as int));
                assert(here.last() == outcome);
            }
            match outcome {
                Ok(_) => {
                    refreshed = refreshed + 1;
                },
                Err(e) => {
                    let ghost before = steps@;
                    steps.push(Step::PushErrorFlash(e));
                    proof {
                        assert(steps_view(steps@) =~= steps_view(before).push(
                            StepView::PushErrorFlash(e),
                        ));
                    }
                },
            }
        }
        proof {
            assert(all_outcomes.take(all_outcomes.len() as int) =~= all_outcomes);
        }
        match gathered.failure {
            Some(e) => {
                proof {
                    assert(steps_view(steps@) =~= finish_steps(
                        self.all,
                        self.feed_ids.len() as nat,
                        all_outcomes,
                        Some(e),
                    ));
                }
                (steps, Err(e))
            },
            None => {
                let text = if self.all {
                    let mut text = "Refreshed ".to_owned();
                    text.append(decimal(refreshed as u64).as_str());
                    text.append("/");
                    text.append(decimal(self.feed_ids.len() as u64).as_str());
                    text.append(" feeds in ");
                    text
                } else {
                    "Refreshed feed in ".to_owned()
                };
                push_refreshed(&mut steps, text);
                (steps, Ok(()))
            },
        }
    }
}

/// What is to be done after a subscription.
#[derive(Debug)]
pub enum AfterSubscribing<E> {
    /// All feeds are to be found out; the outcome is for `after_listing`.
    ListFeeds,
    /// These are the last steps.
    Done(Vec<Step<E>>),
}

/// Takes the outcome of a subscription: an error is shown, and ends the work.
pub fn after_subscribing<E>(outcome: Result<FeedId, E>) -> (r: AfterSubscribing<E>)
    ensures
        match outcome {
            Ok(_) => r is ListFeeds,
            Err(e) => r matches AfterSubscribing::Done(steps) && steps_view(steps@) == seq![
                StepView::PushErrorFlash(e),
            ],
        },
{
    match outcome {
        Ok(_) => AfterSubscribing::ListFeeds,
        Err(e) => AfterSubscribing::Done(show_error(e)),
    }
}

fn show_error<E>(e: E) -> (steps: Vec<Step<E>>)
    ensures
        steps_view(steps@) == seq![StepView::PushErrorFlash(e)],
{
    let mut steps: Vec<Step<E>> = Vec::new();
    steps.push(Step::PushErrorFlash(e));
    proof {
        assert(steps_view(steps@) =~= seq![StepView::PushErrorFlash(e)]);
    }
    steps
}

/// The steps that show the feeds after a subscription: the text is emptied, the feeds are
/// selected, and the reader goes back to normal mode.
pub open spec fn subscribed_steps<E>(feeds: Seq<Feed>) -> Seq<StepView<E>> {
    seq![
        StepView::ResetFeedSubscriptionInput,
        StepView::SetFeeds(feeds),
        StepView::SelectFeeds,
        StepView::UpdateCurrentFeedAndEntries,
        StepView::SetFlashWithElapsed("Subscribed in "@),
        StepView::SetMode(Mode::Normal),
        StepView::ForceRedraw,
        StepView::ClearFlashLater,
    ]
}

/// Takes the feeds after a subscription, and gives the last steps.
pub fn after_listing<E>(feeds: Result<Vec<Feed>, E>) -> (steps: Vec<Step<E>>)
    ensures
        match feeds {
            Ok(feeds) => steps_view(steps@) == subscribed_steps::<E>(feeds@),
            Err(e) => steps_view(steps@) == seq![StepView::PushErrorFlash(e)],
        },
{
    match feeds {
        Err(e) => show_error(e),
        Ok(feeds) => {
            let ghost listed = feeds@;
            let mut steps: Vec<Step<E>> = Vec::new();
            steps.push(Step::ResetFeedSubscriptionInput);
            steps.push(Step::SetFeeds(feeds));
            steps.push(Step::SelectFeeds);
            steps.push(Step::UpdateCurrentFeedAndEntries);
            steps.push(Step::SetFlashWithElapsed("Subscribed in ".to_owned()));
            steps.push(Step::SetMode(Mode::Normal));
            steps.push(Step::ForceRedraw);
            steps.push(Step::ClearFlashLater);
            proof {
                assert(steps_view(steps@) =~= subscribed_steps::<E>(listed));
            }
            steps
        },
    }
}

/// The size of the chunks that `len` items are split into for so many threads: each thread gets
/// its share, rounded down, but at least one item.
pub open spec fn chunk_size(len: nat, threads: nat) -> nat {
    if len / threads == 0 {
        1
    } else {
        len / threads
    }
}

/// Items in chunks of `size`, in order; the last chunk may be smaller.
pub open spec fn chunks_of<T>(items: Seq<T>, size: nat) -> Seq<Seq<T>>
    decreases items.len(),
{
    if size == 0 || items.len() == 0 {
        Seq::empty()
    } else if items.len() <= size {
        seq![items]
    } else {
        seq![items.take(size as int)] + chunks_of(items.skip(size as int), size)
    }
}

/// What a list of chunks holds.
pub open spec fn chunks_view<T>(chunks: Seq<&[T]>) -> Seq<Seq<T>> {
    chunks.map_values(|c: &[T]| c@)
}

/// Splits items into chunks, with the idea being that each chunk will be run on its own thread.
pub fn chunkify_for_threads<T>(items: &[T], minimum_number_of_threads: usize) -> (r: Vec<&[T]>)
    requires
        minimum_number_of_threads > 0,
    ensures
        chunks_view(r@) == chunks_of(
            items@,
            chunk_size(items.len() as nat, minimum_number_of_threads as nat),
        ),
{
    let share: usize = items.len() / minimum_number_of_threads;
    // due to floor division, a share can be 0, so ensure it is at least 1
    let size: usize = if share == 0 {
        1
    } else {
        share
    };
    let mut chunks: Vec<&[T]> = Vec::new();
    let mut start: usize = 0;
    let ghost want = chunks_of(items@, size as nat);
    proof {
        assert(items@.skip(0) =~= items@);
        assert(chunks_view(chunks@) =~= Seq::empty());
        assert(want =~= chunks_view(chunks@) + chunks_of(items@.skip(0), size as nat));
    }
    while start < items.len()
        invariant
            size > 0,
            start <= items.len(),
            want == chunks_view(chunks@) + chunks_of(items@.skip(start as int), size as nat),
        decreases items.len() - start,
    {
        let end: usize = if items.len() - start <= size {
            items.len()
        } else {
            start + size
        };
        let chunk = slice_subrange(items, start, end);
        let ghost before = chunks@;
        let ghost rest = items@.skip(start as int);
        chunks.push(chunk);
        proof {
            assert(chunks_view(chunks@) =~= chunks_view(before).push(chunk@));
            assert(items@.skip(end as int) =~= rest.skip(end - start));
            if rest.len() <= size {
                assert(chunk@ =~= rest);
                assert(rest.skip(end - start) =~= Seq::empty());
            } else {
                assert(chunk@ =~= rest.take(size as int));
            }
            assert(want =~= chunks_view(chunks@) + chunks_of(
                items@.skip(end as int),
                size as nat,
            ));
        }
        start = end;
    }
    proof {
        assert(chunks_view(chunks@) =~= want);
    }
    chunks
}

/// The number of processors. Trusted: `num_cpus::get` gives at least one. How many there are is
/// up to the machine.
#[verifier::external_body]
fn cpus() -> (n: usize)
    ensures
        n >= 1,
{
    num_cpus::get()
}

/// How many threads feeds are refreshed on at least, on so many processors: two for each.
pub open spec fn threads_for(cpus: nat) -> nat {
    if 2 * cpus > usize::MAX {
        usize::MAX as nat
    } else {
        2 * cpus
    }
}

/// Splits feeds into the chunks that are refreshed each on its own, on so many processors.
pub fn chunks_for_cpus(feed_ids: &[FeedId], cpus: usize) -> (r: Vec<&[FeedId]>)
    requires
        cpus > 0,
    ensures
        chunks_view(r@) == chunks_of(
            feed_ids@,
            chunk_size(feed_ids.len() as nat, threads_for(cpus as nat)),
        ),
{
    let threads: usize = if cpus > usize::MAX / 2 {
        usize::MAX
    } else {
        cpus * 2
    };
    chunkify_for_threads(feed_ids, threads)
}

/// Splits feeds into the chunks that are refreshed each on its own, based on the number of
/// processors there are. What came of the chunks is for `gather`.
pub fn refresh_feeds(feed_ids: &[FeedId]) -> (r: Vec<&[FeedId]>)
    ensures
        exists|cpus: nat|
            cpus > 0 && chunks_view(r@) == chunks_of(
                feed_ids@,
                chunk_size(feed_ids.len() as nat, #[trigger] threads_for(cpus)),
            ),
{
    let n = cpus();
    let r = chunks_for_cpus(feed_ids, n);
    proof {
        assert(threads_for(n as nat) > 0);
    }
    r
}

/// Every item is in one chunk, and they keep their order: the chunks, one behind the other, are
/// the items.
pub proof fn law_chunks_hold_every_item<T>(items: Seq<T>, size: nat)
    requires
        size > 0,
    ensures
        chunks_of(items, size).flatten() == items,
    decreases items.len(),
{
    let chunks = chunks_of(items, size);
    reveal_with_fuel(Seq::flatten, 2);
    if items.len() == 0 {
    } else if items.len() <= size {
        assert(chunks.drop_first() =~= Seq::empty());
        assert(chunks.flatten() =~= items);
    } else {
        law_chunks_hold_every_item(items.skip(size as int), size);
        assert(chunks.drop_first() =~= chunks_of(items.skip(size as int), size));
        assert(chunks.flatten() =~= items.take(size as int) + items.skip(size as int));
        assert(chunks.flatten() =~= items);
    }
}

/// No chunk is empty, all but the last are of the same size, and the last is not larger.
pub proof fn law_chunks_have_one_size<T>(items: Seq<T>, size: nat, i: int)
    requires
        0 <= i < chunks_of(items, size).len(),
    ensures
        0 < chunks_of(items, size)[i].len() <= size,
        i < chunks_of(items, size).len() - 1 ==> chunks_of(items, size)[i].len() == size,
    decreases items.len(),
{
    if items.len() > size && i > 0 {
        law_chunks_have_one_size(items.skip(size as int), size, i - 1);
    }
}

proof fn lemma_chunk_count<T>(items: Seq<T>, size: nat)
    requires
        size > 0,
    ensures
        chunks_of(items, size).len() * size >= items.len(),
    decreases items.len(),
{
    let n = chunks_of(items, size).len();
    if items.len() > size {
        let rest = items.skip(size as int);
        lemma_chunk_count(rest, size);
        assert(n == chunks_of(rest, size).len() + 1);
        assert(n * size == chunks_of(rest, size).len() * size + size) by (nonlinear_arith)
            requires
                n == chunks_of(rest, size).len() + 1,
        ;
    } else if items.len() > 0 {
        assert(n == 1);
    }
}

/// There is work for the minimum number of threads: as many chunks, at least, as threads, or as
/// items where there are fewer of those.
pub proof fn law_every_thread_has_work<T>(items: Seq<T>, threads: nat)
    requires
        threads > 0,
    ensures
        chunks_of(items, chunk_size(items.len(), threads)).len() >= if items.len() < threads {
            items.len()
        } else {
            threads
        },
{
    let len = items.len();
    let size = chunk_size(len, threads);
    lemma_chunk_count(items, size);
    let n = chunks_of(items, size).len();
    if len < threads {
        assert(len / threads == 0) by (nonlinear_arith)
            requires
                0 <= len < threads,
        ;
        assert(n * size == n);
    } else {
        assert(len / threads >= 1) by (nonlinear_arith)
            requires
                len >= threads,
                threads > 0,
        ;
        assert(n >= threads) by (nonlinear_arith)
            requires
                n * size >= len,
                size == len / threads,
                size >= 1,
                threads > 0,
                n >= 0,
        ;
    }
}

/// Refreshing in chunks is refreshing one by one: where each chunk comes back with one outcome
/// for each of its items, there is one outcome for each item, and the outcome of an item stands
/// where the item does.
pub proof fn law_chunks_are_gathered_in_order<T, E>(
    items: Seq<T>,
    size: nat,
    chunks: Seq<Result<Vec<Result<(), E>>, E>>,
    i: int,
    j: int,
)
    requires
        size > 0,
        chunks.len() == chunks_of(items, size).len(),
        forall|k: int|
            0 <= k < chunks.len() ==> ((#[trigger] chunks[k]) matches Ok(outcomes)
                && outcomes@.len() == chunks_of(items, size)[k].len()),
    ensures
        gathered_outcomes(chunks).len() == items.len(),
        first_failure(chunks) is None,
        0 <= i < chunks.len() && 0 <= j < chunks_of(items, size)[i].len() ==> {
            &&& 0 <= i * size + j < items.len()
            &&& chunks_of(items, size)[i][j] == items[i * size + j]
            &&& gathered_outcomes(chunks)[i * size + j] == chunks[i]->Ok_0@[j]
        },
    decreases items.len(),
{
    reveal_with_fuel(gathered_outcomes, 2);
    reveal_with_fuel(first_failure, 2);
    if items.len() > 0 {
        assert(chunks[0] is Ok);
        assert(0 * size == 0) by (nonlinear_arith);
        if items.len() <= size {
            assert(chunks.skip(1) =~= Seq::empty());
            assert(gathered_outcomes(chunks) =~= chunks[0]->Ok_0@);
        } else {
            let rest = items.skip(size as int);
            let later = chunks.skip(1);
            assert forall|k: int| 0 <= k < later.len() implies ((#[trigger] later[k]) matches Ok(
                outcomes,
            ) && outcomes@.len() == chunks_of(rest, size)[k].len()) by {
                assert(later[k] == chunks[k + 1]);
                assert(chunks_of(items, size)[k + 1] == chunks_of(rest, size)[k]);
            }
            law_chunks_are_gathered_in_order(rest, size, later, i - 1, j);
            assert(chunks_of(items, size)[0] == items.take(size as int));
            if 0 < i < chunks.len() {
                assert(i * size == (i - 1) * size + size) by (nonlinear_arith);
                assert(later[i - 1] == chunks[i]);
                assert(chunks_of(items, size)[i] == chunks_of(rest, size)[i - 1]);
            }
        }
    }
}

/// Every outcome is accounted for: it is counted as a success, or its error is shown.
pub proof fn law_every_outcome_is_accounted_for<E>(outcomes: Seq<Result<(), E>>)
    ensures
        successes(outcomes) + error_steps(outcomes).len() == outcomes.len(),
    decreases outcomes.len(),
{
    if outcomes.len() > 0 {
        law_every_outcome_is_accounted_for(outcomes.drop_last());
    }
}

} // verus!
