//! Refreshing a feed, and subscribing to one.
//!
//! Both go step by step, as fetching does: a step says what to ask for, and is given what came
//! of it. What they store is a list of operations, for one transaction.
use crate::feed::{
    entries_view, FeedAndEntriesView, FeedId, FeedResponse, IncomingEntry, IncomingEntryView,
};
use crate::fetch::{feed_request, fetch_feed, AwaitingResponse, FetchError, HttpRequest};
use crate::modes::ReadMode;
use crate::queries::{
    get_entries_links, get_feed_latest_etag, get_feed_url, opt_text_from_row, opt_texts_from_rows,
    query_by_id, row_fits, text_from_row, RowError, AND_ANY, NEWEST_FIRST, SELECT_ENTRIES_LINKS,
    SELECT_ETAG, SELECT_FEED_URL,
};
use crate::sql::{
    add_entries_operations, add_entries_to_feed, add_entry_statement, create_feed,
    create_feed_statement, etag_operation, operations_view, owner_param, refreshed_at_operations,
    update_feed_etag, update_feed_refreshed_at, Cell, Column, Operation, OperationView, Owner,
    Query,
};
use crate::text::{decimal, decimal_view, opt_view, signed_decimal_view};
use crate::transaction::{Failure, Part};
use vstd::hash_set::StringHashSet;
use vstd::prelude::*;

verus! {

/// The links that are there.
pub open spec fn known_links(links: Seq<Option<Seq<char>>>) -> Set<Seq<char>> {
    Set::new(|link: Seq<char>| links.contains(Some(link)))
}

/// Whether an entry is new: it has a link, and that link is not known. The link is what tells
/// entries apart.
pub open spec fn is_new(entry: IncomingEntryView, known: Set<Seq<char>>) -> bool {
    match entry.link {
        Some(link) => !known.contains(link),
        None => false,
    }
}

/// The links of entries.
pub open spec fn links_of(entries: Seq<IncomingEntryView>) -> Seq<Option<Seq<char>>> {
    entries.map_values(|e: IncomingEntryView| e.link)
}

/// The entries that are new, in order. Of entries that have one link, the first is taken.
pub open spec fn new_entries(entries: Seq<IncomingEntryView>, known: Set<Seq<char>>) -> Seq<
    IncomingEntryView,
>
    decreases entries.len(),
{
    if entries.len() == 0 {
        Seq::empty()
    } else {
        let earlier = new_entries(entries.drop_last(), known);
        let last = entries.last();
        if is_new(last, known) && !links_of(earlier).contains(last.link) {
            earlier.push(last)
        } else {
            earlier
        }
    }
}

/// What a list of optional texts holds.
pub open spec fn opt_views(texts: Seq<Option<String>>) -> Seq<Option<Seq<char>>> {
    texts.map_values(|t: Option<String>| opt_view(t))
}

proof fn lemma_known_links_push(links: Seq<Option<Seq<char>>>, link: Option<Seq<char>>)
    ensures
        known_links(links.push(link)) == match link {
            Some(l) => known_links(links).insert(l),
            None => known_links(links),
        },
{
    let more = links.push(link);
    assert forall|l: Seq<char>| more.contains(Some(l)) == (links.contains(Some(l)) || link == Some(
        l,
    )) by {
        if links.contains(Some(l)) {
            let i = choose|i: int| 0 <= i < links.len() && links[i] == Some(l);
            assert(more[i] == Some(l));
        }
        if link == Some(l) {
            assert(more[links.len() as int] == Some(l));
        }
        if more.contains(Some(l)) {
            let i = choose|i: int| 0 <= i < more.len() && more[i] == Some(l);
            if i < links.len() {
                assert(links[i] == Some(l));
            }
        }
    }
    match link {
        Some(l) => assert(known_links(more) =~= known_links(links).insert(l)),
        None => assert(known_links(more) =~= known_links(links)),
    }
}

fn collect_links(links: &Vec<Option<String>>) -> (known: StringHashSet)
    ensures
        known@ == known_links(opt_views(links@)),
{
    let mut known = StringHashSet::new();
    proof {
        assert(known@ =~= known_links(opt_views(links@.take(0))));
    }
    for i in 0..links.len()
        invariant
            known@ == known_links(opt_views(links@.take(i as int))),
    {
        proof {
            lemma_known_links_push(opt_views(links@.take(i as int)), opt_view(links[i as int]));
            assert(opt_views(links@.take(i + 1)) =~= opt_views(links@.take(i as int)).push(
                opt_view(links[i as int]),
            ));
        }
        if let Some(link) = &links[i] {
            known.insert(link.clone());
        }
    }
    proof {
        assert(links@.take(links.len() as int) =~= links@);
    }
    known
}

/// Picks the entries of a remote feed that are not stored yet, given the links of those that
/// are. Of entries that have one link, the first is picked.
pub fn pick_new_entries(remote: &Vec<IncomingEntry>, local_links: &Vec<Option<String>>) -> (r: Vec<
    IncomingEntry,
>)
    ensures
        entries_view(r@) == new_entries(
            entries_view(remote@),
            known_links(opt_views(local_links@)),
        ),
{
    let mut known = collect_links(local_links);
    let ghost stored = known@;
    let ghost all = entries_view(remote@);
    let mut r: Vec<IncomingEntry> = Vec::new();
    proof {
        assert(entries_view(r@) =~= new_entries(all.take(0), stored));
        assert(known@ =~= stored.union(known_links(links_of(entries_view(r@)))));
    }
    for i in 0..remote.len()
        invariant
            all == entries_view(remote@),
            entries_view(r@) == new_entries(all.take(i as int), stored),
            known@ == stored.union(known_links(links_of(entries_view(r@)))),
    {
        let entry = &remote[i];
        let ghost before = entries_view(r@);
        proof {
            assert(all.take(i + 1).drop_last() =~= all.take(i as int));
            assert(all.take(i + 1).last() == entry@);
        }
        if let Some(link) = &entry.link {
            if !known.contains(link.as_str()) {
                proof {
                    assert(!known_links(links_of(before)).contains(link@));
                    lemma_known_links_push(links_of(before), entry@.link);
                }
                r.push(entry.clone());
                known.insert(link.clone());
                proof {
                    assert(entries_view(r@) =~= before.push(entry@));
                    assert(links_of(before.push(entry@)) =~= links_of(before).push(entry@.link));
                    assert(known@ =~= stored.union(known_links(links_of(entries_view(r@)))));
                }
            } else {
                proof {
                    assert(stored.contains(link@) || known_links(links_of(before)).contains(link@));
                }
            }
        }
    }
    proof {
        assert(all.take(remote.len() as int) =~= all);
    }
    r
}

/// The steps that store what a refresh brought: the new entries, the time of the refresh and
/// the entity tag.
pub open spec fn refresh_operations(
    feed_id: FeedId,
    entries: Seq<IncomingEntryView>,
    etag: Option<Seq<char>>,
) -> Seq<OperationView> {
    add_entries_operations(Owner::Stored(feed_id), entries) + refreshed_at_operations(feed_id)
        + seq![etag_operation(feed_id, etag)]
}

/// The step of a refresh that an error came from.
#[derive(Debug)]
pub enum RefreshContext {
    /// Finding out the address of the feed.
    FeedUrl(FeedId),
    /// Finding out the entity tag of the feed.
    LatestEtag(FeedId),
    /// Fetching the feed from its address.
    Fetching(String),
}

/// What a step of a refresh is called in a message.
pub open spec fn context_message(context: RefreshContext) -> Seq<char> {
    match context {
        RefreshContext::FeedUrl(id) => "Unable to get url for feed id "@ + signed_decimal_view(
            id.0 as int,
        ) + " from the database"@,
        RefreshContext::LatestEtag(id) => "Unable to get latest_etag for feed_id "@
            + signed_decimal_view(id.0 as int) + " from the database"@,
        RefreshContext::Fetching(url) => "Failed to fetch feed "@ + url@,
    }
}

impl RefreshContext {
    /// The text that tells the user which step failed.
    pub fn message(&self) -> (s: String)
        ensures
            s@ == context_message(*self),
    {
        match self {
            RefreshContext::FeedUrl(id) => {
                let mut s = "Unable to get url for feed id ".to_owned();
                s.append(id.to_string().as_str());
                s.append(" from the database");
                s
            },
            RefreshContext::LatestEtag(id) => {
                let mut s = "Unable to get latest_etag for feed_id ".to_owned();
                s.append(id.to_string().as_str());
                s.append(" from the database");
                s
            },
            RefreshContext::Fetching(url) => {
                let mut s = "Failed to fetch feed ".to_owned();
                s.append(url.as_str());
                s
            },
        }
    }
}

/// What went wrong in a refresh.
#[derive(Debug)]
pub enum RefreshCause<E> {
    /// The database failed.
    Database(E),
    /// The database answered something else than it was asked.
    Row(RowError),
    /// The feed could not be fetched.
    Fetch(FetchError<E>),
}

/// Why a feed could not be refreshed.
#[derive(Debug)]
pub struct RefreshError<E> {
    pub context: Option<RefreshContext>,
    pub cause: RefreshCause<E>,
}

/// A refresh that asked for the address of the feed.
#[derive(Debug)]
pub struct AwaitingUrl {
    pub feed_id: FeedId,
}

/// A refresh that asked for the entity tag of the feed.
#[derive(Debug)]
pub struct AwaitingEtag {
    pub feed_id: FeedId,
    pub url: String,
}

/// A refresh that asked for the feed.
#[derive(Debug)]
pub struct AwaitingFeed {
    pub feed_id: FeedId,
    pub url: String,
}

/// A refresh that asked for the links of the entries that are stored.
#[derive(Debug)]
pub struct AwaitingLinks {
    pub feed_id: FeedId,
    pub entries: Vec<IncomingEntry>,
    pub etag: Option<String>,
}

/// What the answer to a fetch calls for.
#[derive(Debug)]
pub enum AfterFetch {
    /// The links of the entries that are stored are to be found out.
    Compare(AwaitingLinks, Query),
    /// These operations are to be done in a transaction, and the refresh is over.
    Store(Vec<Operation>),
}

/// Whether a refresh ended with a failure of the database.
pub open spec fn database_failure<T, E>(
    r: Result<T, RefreshError<E>>,
    context: Option<RefreshContext>,
    error: E,
) -> bool {
    r == Err::<T, RefreshError<E>>(RefreshError { context, cause: RefreshCause::Database(error) })
}

/// Whether a refresh ended because a row was not what was asked for.
pub open spec fn row_failure<T, E>(
    r: Result<T, RefreshError<E>>,
    context: Option<RefreshContext>,
) -> bool {
    r == Err::<T, RefreshError<E>>(
        RefreshError { context, cause: RefreshCause::Row(RowError::Shape) },
    )
}

/// Refreshes a feed: fetches it, and stores the entries that are new. The link is what tells
/// entries apart. First comes the question for the address of the feed.
pub fn refresh_feed(feed_id: FeedId) -> (r: (AwaitingUrl, Query))
    ensures
        r.0.feed_id == feed_id,
        r.1@ == query_by_id(SELECT_FEED_URL@, feed_id.0, seq![Column::Text]),
{
    (AwaitingUrl { feed_id }, get_feed_url(feed_id))
}

impl AwaitingUrl {
    /// Takes the row with the address of the feed, and asks for its entity tag.
    pub fn url<E>(self, row: Result<Vec<Cell>, E>) -> (r: Result<
        (AwaitingEtag, Query),
        RefreshError<E>,
    >)
        ensures
            match row {
                Err(e) => database_failure(r, Some(RefreshContext::FeedUrl(self.feed_id)), e),
                Ok(cells) => if row_fits(cells@, seq![Column::Text]) {
                    r matches Ok((next, query)) && next.feed_id == self.feed_id
                        && cells[0] == Cell::Text(Some(next.url)) && query@ == query_by_id(
                        SELECT_ETAG@,
                        self.feed_id.0,
                        seq![Column::OptionalText],
                    )
                } else {
                    row_failure(r, Some(RefreshContext::FeedUrl(self.feed_id)))
                },
            },
    {
        let context = Some(RefreshContext::FeedUrl(self.feed_id));
        match row {
            Err(e) => Err(RefreshError { context, cause: RefreshCause::Database(e) }),
            Ok(cells) => match text_from_row(&cells) {
                Ok(url) => {
                    proof {
                        assert(cells@[0] == Cell::Text(Some(url)));
                    }
                    Ok(
                        (
                            AwaitingEtag { feed_id: self.feed_id, url },
                            get_feed_latest_etag(self.feed_id),
                        ),
                    )
                },
                Err(e) => Err(RefreshError { context, cause: RefreshCause::Row(e) }),
            },
        }
    }
}

impl AwaitingEtag {
    /// Takes the row with the entity tag of the feed, and asks for the feed.
    pub fn etag<E>(self, row: Result<Vec<Cell>, E>) -> (r: Result<
        (AwaitingFeed, AwaitingResponse, HttpRequest),
        RefreshError<E>,
    >)
        ensures
            match row {
                Err(e) => database_failure(r, Some(RefreshContext::LatestEtag(self.feed_id)), e),
                Ok(cells) => if row_fits(cells@, seq![Column::OptionalText]) {
                    r matches Ok((next, fetch, request)) && next.feed_id == self.feed_id
                        && next.url == self.url && fetch.url@ == self.url@ && request@
                        == feed_request(self.url@, opt_view(cells[0]->Text_0))
                } else {
                    row_failure(r, Some(RefreshContext::LatestEtag(self.feed_id)))
                },
            },
    {
        let context = Some(RefreshContext::LatestEtag(self.feed_id));
        match row {
            Err(e) => Err(RefreshError { context, cause: RefreshCause::Database(e) }),
            Ok(cells) => match opt_text_from_row(&cells) {
                Ok(etag) => {
                    proof {
                        assert(cells@[0] == Cell::Text(etag));
                    }
                    let (fetch, request) = fetch_feed(self.url.as_str(), etag);
                    Ok((AwaitingFeed { feed_id: self.feed_id, url: self.url }, fetch, request))
                },
                Err(e) => Err(RefreshError { context, cause: RefreshCause::Row(e) }),
            },
        }
    }
}

impl AwaitingFeed {
    /// Takes the answer to the fetch. Where nothing changed, only the time of the refresh is
    /// stored; where a feed came, its entries are to be compared with all those that are
    /// stored.
    pub fn feed<E>(self, response: Result<FeedResponse, FetchError<E>>) -> (r: Result<
        AfterFetch,
        RefreshError<E>,
    >)
        ensures
            match response {
                Err(e) => r == Err::<AfterFetch, RefreshError<E>>(
                    RefreshError {
                        context: Some(RefreshContext::Fetching(self.url)),
                        cause: RefreshCause::Fetch(e),
                    },
                ),
                Ok(FeedResponse::CacheHit) => r matches Ok(AfterFetch::Store(operations))
                    && operations_view(operations@) == refreshed_at_operations(self.feed_id),
                Ok(FeedResponse::CacheMiss(f)) => r matches Ok(AfterFetch::Compare(next, query))
                    && next.feed_id == self.feed_id && next.entries == f.entries && next.etag
                    == f.feed.latest_etag && query@ == query_by_id(
                    SELECT_ENTRIES_LINKS@ + AND_ANY@ + NEWEST_FIRST@,
                    self.feed_id.0,
                    seq![Column::OptionalText],
                ),
            },
    {
        match response {
            Err(e) => Err(
                RefreshError {
                    context: Some(RefreshContext::Fetching(self.url)),
                    cause: RefreshCause::Fetch(e),
                },
            ),
            Ok(FeedResponse::CacheHit) => Ok(
                AfterFetch::Store(update_feed_refreshed_at(self.feed_id)),
            ),
            Ok(FeedResponse::CacheMiss(f)) => Ok(
                AfterFetch::Compare(
                    AwaitingLinks {
                        feed_id: self.feed_id,
                        entries: f.entries,
                        etag: f.feed.latest_etag,
                    },
                    get_entries_links(&ReadMode::All, self.feed_id),
                ),
            ),
        }
    }
}

/// Whether each row holds one text or NULL.
pub open spec fn rows_hold_links(rows: Seq<Vec<Cell>>) -> bool {
    forall|i: int|
        0 <= i < rows.len() ==> row_fits((#[trigger] rows[i])@, seq![Column::OptionalText])
}

/// The links in rows that each hold one text or NULL.
pub open spec fn links_in_rows(rows: Seq<Vec<Cell>>) -> Seq<Option<Seq<char>>> {
    rows.map_values(|row: Vec<Cell>| opt_view(row[0]->Text_0))
}

impl AwaitingLinks {
    /// Takes the rows with the links of the entries that are stored, and gives the operations
    /// that store what is new, to be done in one transaction.
    pub fn links<E>(self, rows: Result<Vec<Vec<Cell>>, E>) -> (r: Result<
        Vec<Operation>,
        RefreshError<E>,
    >)
        ensures
            match rows {
                Err(e) => database_failure(r, None, e),
                Ok(rows) => if rows_hold_links(rows@) {
                    r matches Ok(operations) && operations_view(operations@) == refresh_operations(
                        self.feed_id,
                        new_entries(entries_view(self.entries@), known_links(links_in_rows(rows@))),
                        opt_view(self.etag),
                    )
                } else {
                    row_failure(r, None)
                },
            },
    {
        match rows {
            Err(e) => Err(RefreshError { context: None, cause: RefreshCause::Database(e) }),
            Ok(rows) => match opt_texts_from_rows(&rows) {
                Err(e) => {
                    proof {
                        let i = choose|i: int|
                            0 <= i < rows.len() && !row_fits(
                                (#[trigger] rows[i])@,
                                seq![Column::OptionalText],
                            );
                        assert(!row_fits(rows@[i]@, seq![Column::OptionalText]));
                    }
                    Err(RefreshError { context: None, cause: RefreshCause::Row(e) })
                },
                Ok(links) => {
                    proof {
                        assert forall|i: int| 0 <= i < rows.len() implies row_fits(
                            (#[trigger] rows@[i])@,
                            seq![Column::OptionalText],
                        ) && opt_views(links@)[i] == links_in_rows(rows@)[i] by {
                            assert(rows[i]@ =~= seq![Cell::Text(links[i])]);
                            assert(rows[i]@[0] == Cell::Text(links[i]));
                        }
                        assert(opt_views(links@) =~= links_in_rows(rows@));
                    }
                    let entries = pick_new_entries(&self.entries, &links);
                    let mut operations = add_entries_to_feed(
                        Owner::Stored(self.feed_id),
                        entries.as_slice(),
                    );
                    let ghost added = operations@;
                    let mut refreshed = update_feed_refreshed_at(self.feed_id);
                    let ghost stamped = refreshed@;
                    operations.append(&mut refreshed);
                    operations.push(update_feed_etag(self.feed_id, self.etag));
                    proof {
                        assert(operations_view(operations@) =~= operations_view(added)
                            + operations_view(stamped) + seq![
                            etag_operation(self.feed_id, opt_view(self.etag)),
                        ]);
                    }
                    Ok(operations)
                },
            },
        }
    }
}

/// The steps that store a feed that came in for the first time: the feed, and then its entries.
pub open spec fn subscribe_operations(f: FeedAndEntriesView) -> Seq<OperationView> {
    seq![OperationView::Insert(create_feed_statement(f.feed))] + add_entries_operations(
        Owner::JustCreated,
        f.entries,
    )
}

/// The step of a subscription that an error came from.
#[derive(Debug)]
pub enum SubscribeContext {
    /// Storing the feed that was fetched from this address.
    Creating(Option<String>),
    /// Storing so many entries of the feed that was fetched from this address.
    Inserting(usize, Option<String>),
}

/// What a step of a subscription is called in a message, where the address of the feed is shown
/// as `address`.
pub open spec fn subscribe_message(context: SubscribeContext, address: Seq<char>) -> Seq<char> {
    match context {
        SubscribeContext::Creating(_) => "creating feed "@ + address + " failed"@,
        SubscribeContext::Inserting(n, _) => "inserting "@ + decimal_view(n as nat)
            + " entries for feed "@ + address + " failed"@,
    }
}

impl SubscribeContext {
    /// The text that tells the user which step failed; `address` is how it shows the address of
    /// the feed.
    pub fn message(&self, address: &str) -> (s: String)
        ensures
            s@ == subscribe_message(*self, address@),
    {
        match self {
            SubscribeContext::Creating(_) => {
                let mut s = "creating feed ".to_owned();
                s.append(address);
                s.append(" failed");
                s
            },
            SubscribeContext::Inserting(n, _) => {
                let mut s = "inserting ".to_owned();
                s.append(decimal(*n as u64).as_str());
                s.append(" entries for feed ");
                s.append(address);
                s.append(" failed");
                s
            },
        }
    }
}

/// What went wrong in a subscription.
#[derive(Debug)]
pub enum SubscribeCause<E> {
    /// The database failed.
    Database(E),
    /// The feed could not be fetched.
    Fetch(FetchError<E>),
    /// The remote host said that nothing changed, though it was not told what there was.
    UnexpectedCacheHit,
    /// The database stored the feed, and did not tell its identifier.
    NoIdentifier,
}

/// Why a feed could not be subscribed to.
#[derive(Debug)]
pub struct SubscribeError<E> {
    pub context: Option<SubscribeContext>,
    pub cause: SubscribeCause<E>,
}

/// What the user is told of a cache hit that nothing called for.
pub const UNEXPECTED_CACHE_HIT: &'static str = "Did not expect feed to be cached in this instance as we did not pass an etag";

/// A subscription that asked for the feed.
#[derive(Debug)]
pub struct Subscribing;

/// A subscription that is storing the feed.
#[derive(Debug)]
pub struct StoringFeed {
    pub feed_link: Option<String>,
    /// How many entries the feed has.
    pub entries: usize,
}

/// Subscribes to the feed at `url`: fetches it, without an entity tag, and stores it with its
/// entries.
pub fn subscribe_to_feed(url: &str) -> (r: (Subscribing, AwaitingResponse, HttpRequest))
    ensures
        r.1.url@ == url@,
        r.2@ == feed_request(url@, None),
{
    let (fetch, request) = fetch_feed(url, None);
    (Subscribing, fetch, request)
}

impl Subscribing {
    /// Takes the answer to the fetch, and gives the operations that store the feed and its
    /// entries, to be done in one transaction.
    pub fn feed<E>(self, response: Result<FeedResponse, FetchError<E>>) -> (r: Result<
        (StoringFeed, Vec<Operation>),
        SubscribeError<E>,
    >)
        ensures
            match response {
                Err(e) => r == Err::<(StoringFeed, Vec<Operation>), SubscribeError<E>>(
                    SubscribeError { context: None, cause: SubscribeCause::Fetch(e) },
                ),
                Ok(FeedResponse::CacheHit) => r == Err::<
                    (StoringFeed, Vec<Operation>),
                    SubscribeError<E>,
                >(SubscribeError { context: None, cause: SubscribeCause::UnexpectedCacheHit }),
                Ok(FeedResponse::CacheMiss(f)) => r matches Ok((next, operations))
                    && next.feed_link == f.feed.feed_link && next.entries == f.entries.len()
                    && operations_view(operations@) == subscribe_operations(f@),
            },
    {
        match response {
            Err(e) => Err(SubscribeError { context: None, cause: SubscribeCause::Fetch(e) }),
            Ok(FeedResponse::CacheHit) => Err(
                SubscribeError { context: None, cause: SubscribeCause::UnexpectedCacheHit },
            ),
            Ok(FeedResponse::CacheMiss(f)) => {
                let mut operations: Vec<Operation> = Vec::new();
                operations.push(Operation::Insert(create_feed(&f.feed)));
                let mut added = add_entries_to_feed(Owner::JustCreated, f.entries.as_slice());
                let ghost more = added@;
                operations.append(&mut added);
                proof {
                    assert(operations_view(operations@) =~= seq![
                        OperationView::Insert(create_feed_statement(f.feed@)),
                    ] + operations_view(more));
                }
                let entries = f.entries.len();
                Ok((StoringFeed { feed_link: f.feed.feed_link, entries }, operations))
            },
        }
    }
}

impl StoringFeed {
    /// Takes what the transaction came to, and gives the identifier of the feed.
    pub fn stored<E>(self, outcome: Result<Option<i64>, Failure<E>>) -> (r: Result<
        FeedId,
        SubscribeError<E>,
    >)
        ensures
            match outcome {
                Ok(Some(id)) => r == Ok::<FeedId, SubscribeError<E>>(FeedId(id)),
                Ok(None) => r == Err::<FeedId, SubscribeError<E>>(
                    SubscribeError { context: None, cause: SubscribeCause::NoIdentifier },
                ),
                Err(failure) => r == Err::<FeedId, SubscribeError<E>>(
                    SubscribeError {
                        context: match failure.part {
                            Part::Operation(i) => Some(
                                if i == 0 {
                                    SubscribeContext::Creating(self.feed_link)
                                } else {
                                    SubscribeContext::Inserting(self.entries, self.feed_link)
                                },
                            ),
                            _ => None,
                        },
                        cause: SubscribeCause::Database(failure.error),
                    },
                ),
            },
    {
        match outcome {
            Ok(Some(id)) => Ok(FeedId(id)),
            Ok(None) => Err(SubscribeError { context: None, cause: SubscribeCause::NoIdentifier }),
            Err(failure) => {
                let context = match failure.part {
                    Part::Operation(i) => if i == 0 {
                        Some(SubscribeContext::Creating(self.feed_link))
                    } else {
                        Some(SubscribeContext::Inserting(self.entries, self.feed_link))
                    },
                    _ => None,
                };
                Err(SubscribeError { context, cause: SubscribeCause::Database(failure.error) })
            },
        }
    }
}

/// What a refresh stores is what was new, and only that: a link is among those of the new
/// entries exactly where it came in and is not known.
pub proof fn law_new_entries_have_unknown_links(
    entries: Seq<IncomingEntryView>,
    known: Set<Seq<char>>,
    link: Seq<char>,
)
    ensures
        links_of(new_entries(entries, known)).contains(Some(link)) <==> links_of(entries).contains(
            Some(link),
        ) && !known.contains(link),
    decreases entries.len(),
{
    if entries.len() > 0 {
        let shorter = entries.drop_last();
        let last = entries.last();
        let earlier = new_entries(shorter, known);
        law_new_entries_have_unknown_links(shorter, known, link);
        assert(links_of(entries) =~= links_of(shorter).push(last.link));
        lemma_contains_push(links_of(shorter), last.link, Some(link));
        assert(links_of(earlier.push(last)) =~= links_of(earlier).push(last.link));
        lemma_contains_push(links_of(earlier), last.link, Some(link));
    }
}

proof fn lemma_contains_push<A>(s: Seq<A>, last: A, a: A)
    ensures
        s.push(last).contains(a) <==> s.contains(a) || a == last,
{
    if s.contains(a) {
        let i = choose|i: int| 0 <= i < s.len() && s[i] == a;
        assert(s.push(last)[i] == a);
    }
    if a == last {
        assert(s.push(last)[s.len() as int] == a);
    }
    if s.push(last).contains(a) && a != last {
        let i = choose|i: int| 0 <= i < s.push(last).len() && s.push(last)[i] == a;
        assert(s[i] == a);
    }
}

/// The link tells entries apart: no two of the new entries have one link.
pub proof fn law_new_entries_have_different_links(
    entries: Seq<IncomingEntryView>,
    known: Set<Seq<char>>,
)
    ensures
        links_of(new_entries(entries, known)).no_duplicates(),
    decreases entries.len(),
{
    if entries.len() > 0 {
        let last = entries.last();
        let earlier = new_entries(entries.drop_last(), known);
        law_new_entries_have_different_links(entries.drop_last(), known);
        assert(links_of(earlier.push(last)) =~= links_of(earlier).push(last.link));
    }
}

/// Of entries that have one link, the first is taken: a new entry before which none has its link
/// is among the new entries.
pub proof fn law_first_entry_of_a_link_is_taken(
    entries: Seq<IncomingEntryView>,
    known: Set<Seq<char>>,
    i: int,
)
    requires
        0 <= i < entries.len(),
        is_new(entries[i], known),
        forall|j: int| 0 <= j < i ==> (#[trigger] entries[j]).link != entries[i].link,
    ensures
        new_entries(entries, known).contains(entries[i]),
    decreases entries.len(),
{
    let shorter = entries.drop_last();
    let last = entries.last();
    let earlier = new_entries(shorter, known);
    if i < shorter.len() {
        law_first_entry_of_a_link_is_taken(shorter, known, i);
    } else {
        let link = entries[i].link->0;
        law_new_entries_have_unknown_links(shorter, known, link);
        if links_of(shorter).contains(Some(link)) {
            let j = choose|j: int|
                0 <= j < links_of(shorter).len() && links_of(shorter)[j] == Some(link);
            assert(entries[j].link == Some(link));
        }
    }
    lemma_contains_push(earlier, last, entries[i]);
}

/// Nothing is made up: each of the new entries came in, and is new.
pub proof fn law_new_entries_came_in(
    entries: Seq<IncomingEntryView>,
    known: Set<Seq<char>>,
    entry: IncomingEntryView,
)
    requires
        new_entries(entries, known).contains(entry),
    ensures
        entries.contains(entry),
        is_new(entry, known),
    decreases entries.len(),
{
    if entries.len() > 0 {
        let shorter = entries.drop_last();
        let last = entries.last();
        let earlier = new_entries(shorter, known);
        assert(entries =~= shorter.push(last));
        lemma_contains_push(shorter, last, entry);
        lemma_contains_push(earlier, last, entry);
        if earlier.contains(entry) {
            law_new_entries_came_in(shorter, known, entry);
        }
    }
}

/// The new entries keep their order: those of a feed are those of its first part, and then
/// those of the rest, for which the links taken from the first part are known.
pub proof fn law_new_entries_keep_their_order(
    first: Seq<IncomingEntryView>,
    rest: Seq<IncomingEntryView>,
    known: Set<Seq<char>>,
)
    ensures
        new_entries(first + rest, known) == new_entries(first, known) + new_entries(
            rest,
            known.union(known_links(links_of(new_entries(first, known)))),
        ),
    decreases rest.len(),
{
    let taken = new_entries(first, known);
    let after = known.union(known_links(links_of(taken)));
    if rest.len() == 0 {
        assert(first + rest =~= first);
        assert(taken + new_entries(rest, after) =~= taken);
    } else {
        let shorter = rest.drop_last();
        let last = rest.last();
        let later = new_entries(shorter, after);
        law_new_entries_keep_their_order(first, shorter, known);
        assert((first + rest).drop_last() =~= first + shorter);
        assert(links_of(taken + later) =~= links_of(taken) + links_of(later));
        lemma_contains_concat(links_of(taken), links_of(later), last.link);
        assert((taken + later).push(last) =~= taken + later.push(last));
    }
}

proof fn lemma_contains_concat<A>(s: Seq<A>, t: Seq<A>, a: A)
    ensures
        (s + t).contains(a) <==> s.contains(a) || t.contains(a),
{
    if s.contains(a) {
        let i = choose|i: int| 0 <= i < s.len() && s[i] == a;
        assert((s + t)[i] == a);
    }
    if t.contains(a) {
        let i = choose|i: int| 0 <= i < t.len() && t[i] == a;
        assert((s + t)[s.len() + i] == a);
    }
    if (s + t).contains(a) {
        let i = choose|i: int| 0 <= i < (s + t).len() && (s + t)[i] == a;
        if i < s.len() {
            assert(s[i] == a);
        } else {
            assert(t[i - s.len()] == a);
        }
    }
}

/// A refresh adds no entries if there are none that are new: where each entry has no link, or
/// one that is known, the time and the entity tag are all that is stored.
pub proof fn law_refresh_without_news_adds_nothing(
    feed_id: FeedId,
    entries: Seq<IncomingEntryView>,
    known: Set<Seq<char>>,
    etag: Option<Seq<char>>,
)
    requires
        forall|i: int| 0 <= i < entries.len() ==> !is_new(#[trigger] entries[i], known),
    ensures
        new_entries(entries, known) == Seq::<IncomingEntryView>::empty(),
        refresh_operations(feed_id, new_entries(entries, known), etag) == refreshed_at_operations(
            feed_id,
        ) + seq![etag_operation(feed_id, etag)],
{
    let new = new_entries(entries, known);
    if new.len() > 0 {
        let entry = new[0];
        law_new_entries_came_in(entries, known, entry);
        let i = choose|i: int| 0 <= i < entries.len() && entries[i] == entry;
        assert(!is_new(entries[i], known));
    }
    assert(new =~= Seq::empty());
    assert(refresh_operations(feed_id, new, etag) =~= refreshed_at_operations(feed_id) + seq![
        etag_operation(feed_id, etag),
    ]);
}

/// Refreshing again from the same feed adds nothing: once the links of the new entries are
/// known too, no entry is new.
pub proof fn law_refreshing_twice_adds_nothing(
    entries: Seq<IncomingEntryView>,
    stored: Seq<Option<Seq<char>>>,
)
    ensures
        new_entries(
            entries,
            known_links(stored + links_of(new_entries(entries, known_links(stored)))),
        ) == Seq::<IncomingEntryView>::empty(),
{
    let new = new_entries(entries, known_links(stored));
    let after = stored + links_of(new);
    assert forall|i: int| 0 <= i < entries.len() implies !is_new(
        #[trigger] entries[i],
        known_links(after),
    ) by {
        let entry = entries[i];
        if let Some(link) = entry.link {
            if stored.contains(Some(link)) {
                let j = choose|j: int| 0 <= j < stored.len() && stored[j] == Some(link);
                assert(after[j] == Some(link));
            } else {
                assert(links_of(entries)[i] == Some(link));
                law_new_entries_have_unknown_links(entries, known_links(stored), link);
                let j = choose|j: int|
                    0 <= j < links_of(new).len() && links_of(new)[j] == Some(link);
                assert(after[stored.len() + j] == Some(link));
            }
        }
    }
    law_refresh_without_news_adds_nothing(FeedId(0), entries, known_links(after), None);
}

/// No entry that is stored is stored again: each of the new entries has a link that none of the
/// stored ones has.
pub proof fn law_stored_entries_are_not_stored_again(
    entries: Seq<IncomingEntryView>,
    stored: Seq<Option<Seq<char>>>,
    i: int,
)
    requires
        0 <= i < new_entries(entries, known_links(stored)).len(),
    ensures
        new_entries(entries, known_links(stored))[i].link is Some,
        !stored.contains(new_entries(entries, known_links(stored))[i].link),
{
    let new = new_entries(entries, known_links(stored));
    assert(new.contains(new[i]));
    law_new_entries_came_in(entries, known_links(stored), new[i]);
}

/// Whether no two entries have one link; any number of them may have none.
pub open spec fn links_differ(links: Seq<Option<Seq<char>>>) -> bool {
    forall|i: int, j: int|
        0 <= i < j < links.len() && (#[trigger] links[i]) is Some ==> links[i] != (
        #[trigger] links[j])
}

/// Refreshing keeps links different: where no two stored entries have one link, none have once
/// the new entries are stored too.
pub proof fn law_refreshing_keeps_links_different(
    entries: Seq<IncomingEntryView>,
    stored: Seq<Option<Seq<char>>>,
)
    requires
        links_differ(stored),
    ensures
        links_differ(stored + links_of(new_entries(entries, known_links(stored)))),
{
    let new = new_entries(entries, known_links(stored));
    let after = stored + links_of(new);
    law_new_entries_have_different_links(entries, known_links(stored));
    assert forall|i: int, j: int|
        0 <= i < j < after.len() && (#[trigger] after[i]) is Some implies after[i] != (
    #[trigger] after[j]) by {
        if j < stored.len() {
            assert(stored[i] != stored[j]);
        } else {
            law_stored_entries_are_not_stored_again(entries, stored, j - stored.len());
            assert(after[j] == new[j - stored.len()].link);
            if i < stored.len() {
                assert(stored.contains(after[i]));
            } else {
                assert(after[i] == links_of(new)[i - stored.len()]);
                assert(after[j] == links_of(new)[j - stored.len()]);
            }
        }
    }
}

/// Subscribing stores every entry, whatever its link is: one statement each, after the one that
/// stores the feed.
pub proof fn law_subscribing_stores_every_entry(f: FeedAndEntriesView, i: int)
    requires
        0 <= i < f.entries.len(),
    ensures
        subscribe_operations(f).len() == f.entries.len() + 2,
        subscribe_operations(f)[0] == OperationView::Insert(create_feed_statement(f.feed)),
        subscribe_operations(f)[i + 2] == OperationView::Execute(
            add_entry_statement(owner_param(Owner::JustCreated), f.entries[i]),
        ),
{
}

} // verus!
