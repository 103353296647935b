//! What is stored, and what is removed.
use super::{holds, records_etag, records_refresh, runs_on, same_opt, stores_entry, stores_feed};
use crate::feed::{
    entries_view, EntryMetadata, FeedAndEntries, FeedId, FeedResponse, IncomingEntry,
    IncomingEntryView, IncomingFeed,
};
use crate::fetch::{AwaitingResponse, FetchError, HttpRequest};
use crate::queries::{row_fits, RowError};
use crate::refresh::{
    is_new, known_links, links_in_rows, links_of, new_entries, pick_new_entries, refresh_feed,
    rows_hold_links, subscribe_to_feed, AfterFetch, AwaitingEtag, AwaitingFeed, AwaitingLinks,
    AwaitingUrl, RefreshCause, RefreshContext, RefreshError, StoringFeed, SubscribeCause,
    SubscribeContext, SubscribeError, Subscribing,
};
use crate::schema::{initialize_db, migrate, migrations};
use crate::sql::{
    add_entries_operations, add_entries_to_feed, add_entry_statement, create_feed,
    create_feed_statement, delete_feed, delete_feed_operations, etag_operation, operations_view,
    owner_param, refreshed_at_operations, update_feed_etag, update_feed_refreshed_at, Cell, Column,
    Operation, OperationView, Owner, Param, Query, Statement,
};
use crate::text::{opt_view, signed_decimal_view};
use crate::time::Timestamp;
use crate::transaction::{Failure, Part};
use vstd::prelude::*;

verus! {

proof fn lemma_operation(operations: Seq<Operation>, i: int)
    requires
        0 <= i < operations.len(),
    ensures
        operations_view(operations)[i] == operations[i]@,
        operations_view(operations).len() == operations.len(),
{
}

proof fn lemma_params(s: Statement)
    ensures
        s@.params.len() == s.params.len(),
        forall|i: int| 0 <= i < s.params.len() ==> s@.params[i] == (#[trigger] s.params[i])@,
{
}

proof fn lemma_entry_statement(operation: Operation, owner: Owner, entry: IncomingEntry)
    requires
        operation@ == OperationView::Execute(add_entry_statement(owner_param(owner), entry@)),
    ensures
        stores_entry(operation, owner, entry),
{
    let s = operation->Execute_0;
    let want = add_entry_statement(owner_param(owner), entry@);
    lemma_params(s);
    assert(s@ == want);
    assert(s.params.len() == 8);
    assert forall|i: int| 0 <= i < 8 implies (#[trigger] s.params[i])@ == want.params[i] by {}
    assert(s.params[0]@ == want.params[0]);
    assert(s.params[1]@ == want.params[1]);
    assert(s.params[2]@ == want.params[2]);
    assert(s.params[3]@ == want.params[3]);
    assert(s.params[4]@ == want.params[4]);
    assert(s.params[5]@ == want.params[5]);
    assert(s.params[6]@ == want.params[6]);
    assert(s.params[7]@ == want.params[7]);
}

proof fn lemma_refresh_operations(first: Operation, second: Operation, feed_id: FeedId)
    requires
        first@ == refreshed_at_operations(feed_id)[0],
        second@ == refreshed_at_operations(feed_id)[1],
    ensures
        records_refresh(first, second, feed_id),
{
    let s = second->Execute_0;
    lemma_params(s);
    assert(s.params.len() == 2);
    assert(s.params[0]@ == s@.params[0]);
    assert(s.params[1]@ == s@.params[1]);
}

proof fn lemma_etag_operation(operation: Operation, feed_id: FeedId, etag: Option<String>)
    requires
        operation@ == etag_operation(feed_id, opt_view(etag)),
    ensures
        records_etag(operation, feed_id, etag),
{
    let s = operation->Execute_0;
    lemma_params(s);
    assert(s.params.len() == 2);
    assert(s.params[0]@ == s@.params[0]);
    assert(s.params[1]@ == s@.params[1]);
}

/// Storing a feed stores its title, its link, its address and the name of its kind, each in its
/// column, and NULL for what is missing.
pub proof fn law_a_feed_is_stored_whole(feed: IncomingFeed, s: Statement)
    requires
        call_ensures(create_feed, (&feed,), s),
    ensures
        stores_feed(s, feed),
{
    lemma_params(s);
    let want = create_feed_statement(feed@);
    assert(s@ == want);
    assert(s.params.len() == 4);
    assert(s.params[0]@ == want.params[0]);
    assert(s.params[1]@ == want.params[1]);
    assert(s.params[2]@ == want.params[2]);
    assert(s.params[3]@ == want.params[3]);
}

/// Storing entries stores each of them, whole, in order, for the feed that owns them, with one
/// reading of the clock for all; without entries nothing is done.
pub proof fn law_entries_are_stored_whole(
    owner: Owner,
    entries: &[IncomingEntry],
    r: Vec<Operation>,
    i: int,
)
    requires
        call_ensures(add_entries_to_feed, (owner, entries), r),
    ensures
        entries@.len() == 0 ==> r.len() == 0,
        entries@.len() > 0 ==> r.len() == entries@.len() + 1 && r[0] is ReadClock,
        0 <= i < entries@.len() ==> stores_entry(r[i + 1], owner, entries@[i]),
{
    let want = add_entries_operations(owner, entries_view(entries@));
    assert(operations_view(r@) == want);
    assert(r.len() == want.len());
    if entries@.len() > 0 {
        lemma_operation(r@, 0);
    }
    if 0 <= i < entries@.len() {
        lemma_operation(r@, i + 1);
        assert(r[i + 1]@ == want[i + 1]);
        lemma_entry_statement(r[i + 1], owner, entries@[i]);
    }
}

/// Recording a refresh reads the clock, and stores its reading for that feed.
pub proof fn law_a_refresh_is_recorded(feed_id: FeedId, r: Vec<Operation>)
    requires
        call_ensures(update_feed_refreshed_at, (feed_id,), r),
    ensures
        r.len() == 2,
        records_refresh(r[0], r[1], feed_id),
{
    assert(operations_view(r@).len() == 2);
    lemma_operation(r@, 0);
    lemma_operation(r@, 1);
    lemma_refresh_operations(r[0], r[1], feed_id);
}

/// Recording an entity tag stores that tag for that feed, and NULL where there is none.
pub proof fn law_an_etag_is_recorded(feed_id: FeedId, etag: Option<String>, r: Operation)
    requires
        call_ensures(update_feed_etag, (feed_id, etag), r),
    ensures
        records_etag(r, feed_id, etag),
{
    lemma_etag_operation(r, feed_id, etag);
}

/// Removing a feed removes the feed and its entries, both by its identifier.
pub proof fn law_a_feed_is_removed_with_its_entries(feed_id: FeedId, r: Vec<Operation>)
    requires
        call_ensures(delete_feed, (feed_id,), r),
    ensures
        r.len() == 2,
        runs_on(r[0], "DELETE FROM feeds WHERE id = ?1"@, feed_id.0),
        runs_on(r[1], "DELETE FROM entries WHERE feed_id = ?1"@, feed_id.0),
{
    let v = operations_view(r@);
    assert(v == delete_feed_operations(feed_id));
    assert(v.len() == 2);
    lemma_operation(r@, 0);
    lemma_operation(r@, 1);
    let s = r[0]->Execute_0;
    let t = r[1]->Execute_0;
    lemma_params(s);
    lemma_params(t);
    assert(s.params.len() == 1 && t.params.len() == 1);
    assert(s.params[0]@ == s@.params[0]);
    assert(t.params[0]@ == t@.params[0]);
}

/// Whether a statement marks an entry as read at an instant.
pub open spec fn sets_read(s: Statement, id: i64, now: Timestamp) -> bool {
    s.sql@ == "UPDATE entries SET read_at = ?2 WHERE id = ?1"@ && s.params.len() == 2 && s.params[0]
        == Param::Integer(id) && s.params[1] == Param::Time(now)
}

/// Whether a statement marks an entry as unread.
pub open spec fn sets_unread(s: Statement, id: i64) -> bool {
    s.sql@ == "UPDATE entries SET read_at = NULL WHERE id = ?1"@ && s.params.len() == 1
        && s.params[0] == Param::Integer(id)
}

/// An entry is marked as read now, or as unread, under its own identifier; toggling does the one
/// exactly where it is unread, and the other where it is read.
pub proof fn law_an_entry_is_marked(
    entry: EntryMetadata,
    now: Timestamp,
    toggled: Statement,
    read: Statement,
    unread: Statement,
)
    requires
        call_ensures(EntryMetadata::toggle_read, (&entry, now), toggled),
        call_ensures(EntryMetadata::mark_as_read, (&entry, now), read),
        call_ensures(EntryMetadata::mark_as_unread, (&entry,), unread),
    ensures
        sets_read(read, entry.id.0, now),
        sets_unread(unread, entry.id.0),
        entry.read_at is None ==> sets_read(toggled, entry.id.0, now),
        entry.read_at is Some ==> sets_unread(toggled, entry.id.0),
{
    lemma_params(read);
    lemma_params(unread);
    lemma_params(toggled);
    assert(read.params.len() == 2 && unread.params.len() == 1);
    assert(read.params[0]@ == read@.params[0]);
    assert(read.params[1]@ == read@.params[1]);
    assert(unread.params[0]@ == unread@.params[0]);
    assert(toggled.params.len() >= 1);
    assert(toggled.params[0]@ == toggled@.params[0]);
    if entry.read_at is None {
        assert(toggled.params[1]@ == toggled@.params[1]);
    }
}

/// Whether an entry has the link `link`.
pub open spec fn has_link(entry: IncomingEntry, link: Seq<char>) -> bool {
    holds(entry.link, link)
}

/// Whether the entry at a place is the first with its link, and no row of links holds that link.
pub open spec fn is_news(
    entries: Seq<IncomingEntry>,
    links: Seq<Option<String>>,
    i: int,
) -> bool {
    entries[i].link matches Some(link) && {
        &&& forall|k: int| 0 <= k < links.len() ==> !holds(#[trigger] links[k], link@)
        &&& forall|j: int| 0 <= j < i ==> !has_link(#[trigger] entries[j], link@)
    }
}

/// Whether places are listed in order.
pub open spec fn in_order(places: Seq<int>) -> bool {
    forall|a: int, b: int| 0 <= a < b < places.len() ==> #[trigger] places[a] < #[trigger] places[b]
}

/// Whether the places are those of the news, all of them, in order.
pub open spec fn are_the_news(
    places: Seq<int>,
    entries: Seq<IncomingEntry>,
    links: Seq<Option<String>>,
) -> bool {
    &&& in_order(places)
    &&& forall|k: int|
        0 <= k < places.len() ==> 0 <= #[trigger] places[k] < entries.len() && is_news(
            entries,
            links,
            places[k],
        )
    &&& forall|i: int|
        0 <= i < entries.len() && #[trigger] is_news(entries, links, i) ==> places.contains(i)
}

/// Whether links are known: those that `known` has.
spec fn knows(known: Set<Seq<char>>, links: Seq<Option<String>>) -> bool {
    forall|l: Seq<char>|
        known.contains(l) <==> exists|k: int|
            0 <= k < links.len() && holds(#[trigger] links[k], l)
}

proof fn lemma_places_of_news(
    entries: Seq<IncomingEntry>,
    links: Seq<Option<String>>,
    known: Set<Seq<char>>,
) -> (places: Seq<int>)
    requires
        knows(known, links),
    ensures
        are_the_news(places, entries, links),
        new_entries(entries_view(entries), known).len() == places.len(),
        forall|k: int|
            0 <= k < places.len() ==> new_entries(entries_view(entries), known)[k]
                == entries[#[trigger] places[k]]@,
    decreases entries.len(),
{
    if entries.len() == 0 {
        assert(entries_view(entries) =~= Seq::empty());
        Seq::empty()
    } else {
        let shorter = entries.drop_last();
        let n = shorter.len() as int;
        let last = entries.last();
        let before = lemma_places_of_news(shorter, links, known);
        let earlier = new_entries(entries_view(shorter), known);
        assert(entries_view(entries).drop_last() =~= entries_view(shorter));
        assert(entries_view(entries).last() == last@);
        assert forall|i: int| 0 <= i < n implies is_news(entries, links, i) == is_news(
            shorter,
            links,
            i,
        ) by {
            assert(entries[i] == shorter[i]);
            assert forall|j: int| 0 <= j < i implies entries[j] == shorter[j] by {}
            if is_news(shorter, links, i) {
                let link = entries[i].link->0;
                assert forall|j: int| 0 <= j < i implies !has_link(#[trigger] entries[j], link@) by {
                    assert(!has_link(shorter[j], link@));
                }
            }
            if is_news(entries, links, i) {
                let link = entries[i].link->0;
                assert forall|j: int| 0 <= j < i implies !has_link(#[trigger] shorter[j], link@) by {
                    assert(!has_link(entries[j], link@));
                }
            }
        }
        if last.link is Some {
            let l = last.link->0@;
            assert(last@.link == Some(l));
            crate::refresh::law_new_entries_have_unknown_links(entries_view(shorter), known, l);
            assert(known.contains(l) <==> exists|k: int|
                0 <= k < links.len() && holds(#[trigger] links[k], l));
            if links_of(entries_view(shorter)).contains(Some(l)) {
                let j = choose|j: int|
                    0 <= j < n && links_of(entries_view(shorter))[j] == Some(l);
                assert(has_link(entries[j], l));
                assert(!is_news(entries, links, n));
            } else {
                assert forall|j: int| 0 <= j < n implies !has_link(#[trigger] entries[j], l) by {
                    if has_link(entries[j], l) {
                        assert(links_of(entries_view(shorter))[j] == Some(l));
                    }
                }
            }
        }
        if is_new(last@, known) && !links_of(earlier).contains(last@.link) {
            assert(is_news(entries, links, n));
            let places = before.push(n);
            assert forall|i: int|
                0 <= i < entries.len() && #[trigger] is_news(entries, links, i) implies places.contains(
            i) by {
                if i < n {
                    assert(is_news(shorter, links, i));
                    let k = choose|k: int| 0 <= k < before.len() && before[k] == i;
                    assert(places[k] == i);
                } else {
                    assert(places[before.len() as int] == i);
                }
            }
            assert forall|k: int| 0 <= k < places.len() implies 0 <= #[trigger] places[k]
                < entries.len() && is_news(entries, links, places[k]) by {
                if k < before.len() {
                    assert(places[k] == before[k]);
                    assert(is_news(shorter, links, before[k]));
                }
            }
            assert forall|k: int| 0 <= k < places.len() implies new_entries(
                entries_view(entries),
                known,
            )[k] == entries[#[trigger] places[k]]@ by {
                if k < before.len() {
                    assert(places[k] == before[k]);
                    assert(earlier[k] == shorter[before[k]]@);
                }
            }
            places
        } else {
            assert(!is_news(entries, links, n));
            assert forall|i: int|
                0 <= i < entries.len() && #[trigger] is_news(entries, links, i) implies before.contains(
            i) by {
                assert(is_news(shorter, links, i));
            }
            assert forall|k: int| 0 <= k < before.len() implies 0 <= #[trigger] before[k]
                < entries.len() && is_news(entries, links, before[k]) by {
                assert(is_news(shorter, links, before[k]));
            }
            assert forall|k: int| 0 <= k < before.len() implies new_entries(
                entries_view(entries),
                known,
            )[k] == entries[#[trigger] before[k]]@ by {
                assert(earlier[k] == shorter[before[k]]@);
            }
            before
        }
    }
}

proof fn lemma_known(links: Seq<Option<String>>, views: Seq<Option<Seq<char>>>)
    requires
        views.len() == links.len(),
        forall|k: int| 0 <= k < links.len() ==> #[trigger] views[k] == opt_view(links[k]),
    ensures
        knows(known_links(views), links),
{
    let known = known_links(views);
    assert forall|l: Seq<char>|
        known.contains(l) <==> exists|k: int| 0 <= k < links.len() && holds(#[trigger] links[k], l) by {
        if known.contains(l) {
            let k = choose|k: int| 0 <= k < views.len() && views[k] == Some(l);
            assert(holds(links[k], l));
        }
        if exists|k: int| 0 <= k < links.len() && holds(#[trigger] links[k], l) {
            let k = choose|k: int| 0 <= k < links.len() && holds(#[trigger] links[k], l);
            assert(views[k] == Some(l));
        }
    }
}

/// Whether two incoming entries say the same.
pub open spec fn same_entry(a: IncomingEntry, b: IncomingEntry) -> bool {
    &&& same_opt(a.title, b.title)
    &&& same_opt(a.author, b.author)
    &&& a.pub_date == b.pub_date
    &&& same_opt(a.description, b.description)
    &&& same_opt(a.content, b.content)
    &&& same_opt(a.link, b.link)
}

/// Picking takes the news, all of them, in order, as they came: the entries that have a link
/// which is not known and which no entry before them has.
pub proof fn law_the_news_are_picked(
    remote: Vec<IncomingEntry>,
    links: Vec<Option<String>>,
    r: Vec<IncomingEntry>,
)
    requires
        call_ensures(pick_new_entries, (&remote, &links), r),
    ensures
        exists|places: Seq<int>| #[trigger]
            are_the_news(places, remote@, links@) && r.len() == places.len() && forall|k: int|
                0 <= k < places.len() ==> same_entry(r[k], remote[#[trigger] places[k]]),
{
    let views = crate::refresh::opt_views(links@);
    lemma_known(links@, views);
    let places = lemma_places_of_news(remote@, links@, known_links(views));
    let new = new_entries(entries_view(remote@), known_links(views));
    assert(entries_view(r@) == new);
    assert(r.len() == new.len());
    assert forall|k: int| 0 <= k < places.len() implies same_entry(
        r[k],
        remote[#[trigger] places[k]],
    ) by {
        assert(entries_view(r@)[k] == r[k]@);
        assert(new[k] == remote[places[k]]@);
    }
}

/// Whether the operations store the entries at these places, and then the time and the entity tag
/// of the refresh, and nothing else.
pub open spec fn store_the_news(
    operations: Seq<Operation>,
    places: Seq<int>,
    feed_id: FeedId,
    entries: Seq<IncomingEntry>,
    etag: Option<String>,
) -> bool {
    let n: int = if places.len() == 0 {
        0
    } else {
        places.len() as int + 1
    };
    &&& operations.len() == n + 3
    &&& places.len() > 0 ==> operations[0] is ReadClock
    &&& forall|k: int|
        0 <= k < places.len() ==> stores_entry(
            operations[k + 1],
            Owner::Stored(feed_id),
            entries[#[trigger] places[k]],
        )
    &&& records_refresh(operations[n], operations[n + 1], feed_id)
    &&& records_etag(operations[n + 2], feed_id, etag)
}

proof fn lemma_entry_statement_by_view(
    operation: Operation,
    owner: Owner,
    view: IncomingEntryView,
    entry: IncomingEntry,
)
    requires
        view == entry@,
        operation@ == OperationView::Execute(add_entry_statement(owner_param(owner), view)),
    ensures
        stores_entry(operation, owner, entry),
{
    lemma_entry_statement(operation, owner, entry);
}

/// A refresh stores the news, all of them: each entry that has a link which no stored entry has,
/// and which no entry before it has, whole and in order; and then the time of the refresh and the
/// entity tag. It stores nothing else.
pub proof fn law_a_refresh_stores_all_the_news<E>(
    step: AwaitingLinks,
    rows: Vec<Vec<Cell>>,
    links: Seq<Option<String>>,
    r: Result<Vec<Operation>, RefreshError<E>>,
)
    requires
        call_ensures(AwaitingLinks::links::<E>, (step, Ok(rows)), r),
        rows.len() == links.len(),
        forall|k: int| 0 <= k < rows.len() ==> (#[trigger] rows[k])@ == seq![Cell::Text(links[k])],
    ensures
        r is Ok,
        exists|places: Seq<int>| #[trigger]
            are_the_news(places, step.entries@, links) && store_the_news(
                r->Ok_0@,
                places,
                step.feed_id,
                step.entries@,
                step.etag,
            ),
{
    let views = links_in_rows(rows@);
    assert forall|k: int| 0 <= k < rows.len() implies row_fits(
        (#[trigger] rows@[k])@,
        seq![Column::OptionalText],
    ) && views[k] == opt_view(links[k]) by {
        assert(rows[k]@ == seq![Cell::Text(links[k])]);
        assert(rows[k]@[0] == Cell::Text(links[k]));
    }
    assert(rows_hold_links(rows@));
    lemma_known(links, views);
    let places = lemma_places_of_news(step.entries@, links, known_links(views));
    let new = new_entries(entries_view(step.entries@), known_links(views));
    let owner = Owner::Stored(step.feed_id);
    let added = add_entries_operations(owner, new);
    let stamped = refreshed_at_operations(step.feed_id);
    let operations = r->Ok_0@;
    let want = added + stamped + seq![etag_operation(step.feed_id, opt_view(step.etag))];
    assert(operations_view(operations) == want);
    let n = added.len() as int;
    assert(operations_view(operations).len() == operations.len());
    assert(stamped.len() == 2);
    assert(want.len() == n + 3);
    assert(operations.len() == n + 3);
    assert(want[n] == stamped[0]);
    assert(want[n + 1] == stamped[1]);
    lemma_operation(operations, n);
    lemma_operation(operations, n + 1);
    lemma_operation(operations, n + 2);
    lemma_refresh_operations(operations[n], operations[n + 1], step.feed_id);
    lemma_etag_operation(operations[n + 2], step.feed_id, step.etag);
    if places.len() > 0 {
        lemma_operation(operations, 0);
    }
    assert forall|k: int| 0 <= k < places.len() implies stores_entry(
        operations[k + 1],
        owner,
        step.entries@[#[trigger] places[k]],
    ) by {
        lemma_operation(operations, k + 1);
        assert(want[k + 1] == added[k + 1]);
        assert(new[k] == step.entries@[places[k]]@);
        lemma_entry_statement_by_view(
            operations[k + 1],
            owner,
            new[k],
            step.entries@[places[k]],
        );
    }
    assert(store_the_news(operations, places, step.feed_id, step.entries@, step.etag));
}

/// A refresh fails of the database where the links cannot be found out, and of a row that is not
/// one text or NULL.
pub proof fn law_a_refresh_fails_of_its_links<E>(
    step: AwaitingLinks,
    rows: Result<Vec<Vec<Cell>>, E>,
    r: Result<Vec<Operation>, RefreshError<E>>,
)
    requires
        call_ensures(AwaitingLinks::links::<E>, (step, rows), r),
    ensures
        rows matches Err(e) ==> r matches Err(f) && f.context is None && f.cause
            == RefreshCause::Database(e),
        rows matches Ok(v) ==> ((exists|k: int|
            0 <= k < v.len() && ((#[trigger] v[k]).len() != 1 || !(v[k][0] is Text))) ==> (r
            matches Err(f) && f.context is None && f.cause == RefreshCause::<E>::Row(
            RowError::Shape,
        ))),
{
    if let Ok(v) = rows {
        if exists|k: int| 0 <= k < v.len() && ((#[trigger] v[k]).len() != 1 || !(v[k][0] is Text)) {
            let k = choose|k: int|
                0 <= k < v.len() && ((#[trigger] v[k]).len() != 1 || !(v[k][0] is Text));
            if rows_hold_links(v@) {
                assert(row_fits(v@[k]@, seq![Column::OptionalText]));
                assert(crate::queries::cell_fits(v@[k]@[0], seq![Column::OptionalText][0]));
            }
        }
    }
}

/// Whether a query asks this text for one identifier.
pub open spec fn asks_for(query: Query, sql: Seq<char>, id: i64) -> bool {
    query.statement.sql@ == sql && query.statement.params.len() == 1 && query.statement.params[0]
        == Param::Integer(id)
}

proof fn lemma_asks(query: Query, sql: Seq<char>, id: i64, columns: Seq<Column>)
    requires
        query@ == crate::queries::query_by_id(sql, id, columns),
    ensures
        asks_for(query, sql, id),
        query.columns@ == columns,
{
    lemma_params(query.statement);
    assert(query.statement.params.len() == 1);
    assert(query.statement.params[0]@ == query.statement@.params[0]);
}

/// A refresh first asks for the address of that feed.
pub proof fn law_a_refresh_asks_for_the_address(feed_id: FeedId, r: (AwaitingUrl, Query))
    requires
        call_ensures(refresh_feed, (feed_id,), r),
    ensures
        r.0.feed_id == feed_id,
        asks_for(r.1, "SELECT feed_link FROM feeds WHERE id=?1"@, feed_id.0),
        r.1.columns@ == seq![Column::Text],
{
    lemma_asks(
        r.1,
        "SELECT feed_link FROM feeds WHERE id=?1"@,
        feed_id.0,
        seq![Column::Text],
    );
}

/// A refresh keeps the address that the database gave, and asks for the entity tag of that feed; a
/// row that holds no text ends it.
pub proof fn law_a_refresh_asks_for_the_etag<E>(
    step: AwaitingUrl,
    row: Result<Vec<Cell>, E>,
    r: Result<(AwaitingEtag, Query), RefreshError<E>>,
)
    requires
        call_ensures(AwaitingUrl::url::<E>, (step, row), r),
    ensures
        row matches Err(e) ==> r matches Err(f) && f.context == Some(
            RefreshContext::FeedUrl(step.feed_id),
        ) && f.cause == RefreshCause::Database(e),
        row matches Ok(cells) ==> if cells.len() == 1 && cells[0] is Text && cells[0]->Text_0
            is Some {
            r matches Ok((next, query)) && next.feed_id == step.feed_id && next.url@
                == cells[0]->Text_0->0@ && asks_for(
                query,
                "SELECT latest_etag FROM feeds WHERE id=?1"@,
                step.feed_id.0,
            ) && query.columns@ == seq![Column::OptionalText]
        } else {
            r matches Err(f) && f.context == Some(RefreshContext::FeedUrl(step.feed_id)) && f.cause
                == RefreshCause::<E>::Row(RowError::Shape)
        },
{
    if let Ok(cells) = row {
        if row_fits(cells@, seq![Column::Text]) {
            assert(crate::queries::cell_fits(cells@[0], seq![Column::Text][0]));
            lemma_asks(
                r->Ok_0.1,
                "SELECT latest_etag FROM feeds WHERE id=?1"@,
                step.feed_id.0,
                seq![Column::OptionalText],
            );
        }
    }
}

/// Whether a request asks for this address, and tells the entity tag if there is one.
pub open spec fn requests(
    request: HttpRequest,
    url: Seq<char>,
    etag: Option<String>,
) -> bool {
    &&& request.url@ == url
    &&& match etag {
        Some(tag) => request.headers.len() == 1 && request.headers[0].0@ == "If-None-Match"@
            && request.headers[0].1@ == tag@,
        None => request.headers.len() == 0,
    }
}

proof fn lemma_requests(request: HttpRequest, url: Seq<char>, etag: Option<String>)
    requires
        request@ == crate::fetch::feed_request(url, opt_view(etag)),
    ensures
        requests(request, url, etag),
{
    let v = request@.headers;
    assert(v.len() == request.headers.len());
    if etag is Some {
        assert(v.len() == 1);
        assert(v[0] == (request.headers[0].0@, request.headers[0].1@));
    }
}

/// A refresh asks the address that it was given, and tells the entity tag that the database gave;
/// a row that holds neither a text nor NULL ends it.
pub proof fn law_a_refresh_asks_for_the_feed<E>(
    step: AwaitingEtag,
    row: Result<Vec<Cell>, E>,
    r: Result<(AwaitingFeed, AwaitingResponse, HttpRequest), RefreshError<E>>,
)
    requires
        call_ensures(AwaitingEtag::etag::<E>, (step, row), r),
    ensures
        row matches Err(e) ==> r matches Err(f) && f.context == Some(
            RefreshContext::LatestEtag(step.feed_id),
        ) && f.cause == RefreshCause::Database(e),
        row matches Ok(cells) ==> if cells.len() == 1 && cells[0] is Text {
            r matches Ok((next, fetch, request)) && next.feed_id == step.feed_id && next.url@
                == step.url@ && fetch.url@ == step.url@ && requests(
                request,
                step.url@,
                cells[0]->Text_0,
            )
        } else {
            r matches Err(f) && f.context == Some(RefreshContext::LatestEtag(step.feed_id))
                && f.cause == RefreshCause::<E>::Row(RowError::Shape)
        },
{
    if let Ok(cells) = row {
        if row_fits(cells@, seq![Column::OptionalText]) {
            assert(crate::queries::cell_fits(cells@[0], seq![Column::OptionalText][0]));
            lemma_requests(r->Ok_0.2, step.url@, cells[0]->Text_0);
        }
    }
}

/// Where nothing changed, a refresh records that it took place, and nothing else; where a feed
/// came, all its entries and its entity tag are kept, and the links of all stored entries of the
/// feed, read or not, are asked for.
pub proof fn law_a_refresh_goes_on_with_what_came<E>(
    step: AwaitingFeed,
    response: Result<FeedResponse, FetchError<E>>,
    r: Result<AfterFetch, RefreshError<E>>,
)
    requires
        call_ensures(AwaitingFeed::feed::<E>, (step, response), r),
    ensures
        response matches Err(e) ==> r matches Err(f) && (f.context matches Some(
            RefreshContext::Fetching(url),
        ) && url@ == step.url@) && f.cause == RefreshCause::Fetch(e),
        response matches Ok(FeedResponse::CacheHit) ==> r matches Ok(AfterFetch::Store(ops))
            && ops.len() == 2 && records_refresh(ops[0], ops[1], step.feed_id),
        response matches Ok(FeedResponse::CacheMiss(f)) ==> r matches Ok(
            AfterFetch::Compare(next, query),
        ) && next.feed_id == step.feed_id && next.entries == f.entries && same_opt(
            next.etag,
            f.feed.latest_etag,
        ) && asks_for(
            query,
            "SELECT link FROM entries WHERE feed_id=?1"@ + "\n"@
                + "\nORDER BY pub_date DESC, inserted_at DESC"@,
            step.feed_id.0,
        ) && query.columns@ == seq![Column::OptionalText],
{
    match response {
        Ok(FeedResponse::CacheHit) => {
            let ops = r->Ok_0->Store_0;
            assert(operations_view(ops@).len() == 2);
            lemma_operation(ops@, 0);
            lemma_operation(ops@, 1);
            lemma_refresh_operations(ops[0], ops[1], step.feed_id);
        },
        Ok(FeedResponse::CacheMiss(_)) => {
            lemma_asks(
                r->Ok_0->Compare_1,
                "SELECT link FROM entries WHERE feed_id=?1"@ + "\n"@
                    + "\nORDER BY pub_date DESC, inserted_at DESC"@,
                step.feed_id.0,
                seq![Column::OptionalText],
            );
        },
        Err(_) => {},
    }
}

/// A subscription asks the address that the user gave, and tells no entity tag.
pub proof fn law_a_subscription_asks_for_the_feed(
    url: &str,
    r: (Subscribing, AwaitingResponse, HttpRequest),
)
    requires
        call_ensures(subscribe_to_feed, (url,), r),
    ensures
        r.1.url@ == url@,
        requests(r.2, url@, None),
{
    lemma_requests(r.2, url@, None);
}

/// A subscription stores the feed, whole, and then every entry that came with it, whole and in
/// order, whatever its link, all with one reading of the clock; and nothing else.
pub proof fn law_a_subscription_stores_all_that_came<E>(
    step: Subscribing,
    f: FeedAndEntries,
    r: Result<(StoringFeed, Vec<Operation>), SubscribeError<E>>,
    i: int,
)
    requires
        call_ensures(Subscribing::feed::<E>, (step, Ok(FeedResponse::CacheMiss(f))), r),
    ensures
        r matches Ok((next, ops)) && {
            &&& same_opt(next.feed_link, f.feed.feed_link)
            &&& next.entries == f.entries.len()
            &&& ops.len() == if f.entries.len() == 0 {
                1
            } else {
                f.entries.len() + 2
            }
            &&& ops[0] matches Operation::Insert(s) && stores_feed(s, f.feed)
            &&& f.entries.len() > 0 ==> ops[1] is ReadClock
            &&& 0 <= i < f.entries.len() ==> stores_entry(
                ops[i + 2],
                Owner::JustCreated,
                f.entries[i],
            )
        },
{
    let ops = r->Ok_0.1;
    let want = crate::refresh::subscribe_operations(f@);
    assert(operations_view(ops@) == want);
    assert(ops.len() == want.len());
    lemma_operation(ops@, 0);
    assert(ops[0]@ == want[0]);
    let s = ops[0]->Insert_0;
    lemma_params(s);
    let stored = create_feed_statement(f.feed@);
    assert(s@ == stored);
    assert(s.params.len() == 4);
    assert(s.params[0]@ == stored.params[0]);
    assert(s.params[1]@ == stored.params[1]);
    assert(s.params[2]@ == stored.params[2]);
    assert(s.params[3]@ == stored.params[3]);
    if f.entries.len() > 0 {
        lemma_operation(ops@, 1);
        assert(ops[1]@ == want[1]);
    }
    if 0 <= i < f.entries.len() {
        lemma_operation(ops@, i + 2);
        assert(ops[i + 2]@ == want[i + 2]);
        assert(f@.entries[i] == f.entries[i]@);
        lemma_entry_statement_by_view(
            ops[i + 2],
            Owner::JustCreated,
            f@.entries[i],
            f.entries[i],
        );
    }
}

/// A subscription fails of the fetch, and of a cache hit, which nothing called for.
pub proof fn law_a_subscription_needs_a_feed<E>(
    step: Subscribing,
    response: Result<FeedResponse, FetchError<E>>,
    r: Result<(StoringFeed, Vec<Operation>), SubscribeError<E>>,
)
    requires
        call_ensures(Subscribing::feed::<E>, (step, response), r),
    ensures
        response matches Err(e) ==> r matches Err(f) && f.context is None && f.cause
            == SubscribeCause::Fetch(e),
        response matches Ok(FeedResponse::CacheHit) ==> r matches Err(f) && f.context is None
            && f.cause is UnexpectedCacheHit,
{
}

/// A cache hit that nothing called for is told in these words.
pub proof fn law_an_unexpected_cache_hit_is_told()
    ensures
        crate::refresh::UNEXPECTED_CACHE_HIT@
            == "Did not expect feed to be cached in this instance as we did not pass an etag"@,
{
}

/// A subscription gives the identifier that the database gave the feed; where storing failed, it
/// tells whether that was in storing the feed, its entries, or neither.
pub proof fn law_a_subscription_gives_the_identifier<E>(
    step: StoringFeed,
    outcome: Result<Option<i64>, Failure<E>>,
    r: Result<FeedId, SubscribeError<E>>,
)
    requires
        call_ensures(StoringFeed::stored::<E>, (step, outcome), r),
    ensures
        outcome matches Ok(Some(id)) ==> r == Ok::<FeedId, SubscribeError<E>>(FeedId(id)),
        outcome matches Ok(None) ==> r matches Err(f) && f.context is None && f.cause
            is NoIdentifier,
        outcome matches Err(failure) ==> r matches Err(f) && f.cause == SubscribeCause::Database(
            failure.error,
        ) && match failure.part {
            Part::Operation(i) => if i == 0 {
                f.context == Some(SubscribeContext::Creating(step.feed_link))
            } else {
                f.context == Some(SubscribeContext::Inserting(step.entries, step.feed_link))
            },
            _ => f.context is None,
        },
{
}

/// A failed step of a refresh is told by its own words, with the feed or the address it is about.
pub proof fn law_a_failed_refresh_is_told(context: RefreshContext, s: String)
    requires
        call_ensures(RefreshContext::message, (&context,), s),
    ensures
        context matches RefreshContext::FeedUrl(id) ==> s@ == "Unable to get url for feed id "@
            + signed_decimal_view(id.0 as int) + " from the database"@,
        context matches RefreshContext::LatestEtag(id) ==> s@
            == "Unable to get latest_etag for feed_id "@ + signed_decimal_view(id.0 as int)
            + " from the database"@,
        context matches RefreshContext::Fetching(url) ==> s@ == "Failed to fetch feed "@ + url@,
{
}

/// A failed step of a subscription is told by its own words, with the address of the feed and the
/// number of entries.
pub proof fn law_a_failed_subscription_is_told(context: SubscribeContext, address: &str, s: String)
    requires
        call_ensures(SubscribeContext::message, (&context, address), s),
    ensures
        context is Creating ==> s@ == "creating feed "@ + address@ + " failed"@,
        context matches SubscribeContext::Inserting(n, _) ==> s@ == "inserting "@
            + signed_decimal_view(n as int) + " entries for feed "@ + address@ + " failed"@,
{
}

/// Whether an operation runs a statement without parameters.
pub open spec fn runs(operation: Operation, sql: Seq<char>) -> bool {
    operation matches Operation::Execute(s) && s.sql@ == sql && s.params.len() == 0
}

proof fn lemma_runs(operation: Operation, sql: Seq<char>)
    requires
        operation@ == crate::schema::plain(sql),
    ensures
        runs(operation, sql),
{
    lemma_params(operation->Execute_0);
}

/// Migrating takes a schema through the versions that it has not had, and no others: the tables
/// and their index come first, then the column for entity tags, then the index that lets no two
/// feeds have one address. Each version is set before its changes are made.
pub proof fn law_migrating_makes_what_is_missing(version: u64, r: Vec<Operation>)
    requires
        call_ensures(migrate, (version,), r),
    ensures
        r.len() == if version == 0 {
            8
        } else if version == 1 {
            4
        } else if version == 2 {
            2
        } else {
            0int
        },
        version == 0 ==> {
            &&& r[0] == Operation::SetSchemaVersion(1)
            &&& runs(r[1], "CREATE TABLE IF NOT EXISTS feeds (
        id INTEGER PRIMARY KEY AUTOINCREMENT,
        title TEXT,
        feed_link TEXT,
        link TEXT,
        feed_kind TEXT,
        refreshed_at TIMESTAMP,
        inserted_at TIMESTAMP DEFAULT CURRENT_TIMESTAMP,
        updated_at TIMESTAMP DEFAULT CURRENT_TIMESTAMP
        )"@)
            &&& runs(r[2], "CREATE TABLE IF NOT EXISTS entries (
        id INTEGER PRIMARY KEY AUTOINCREMENT,
        feed_id INTEGER,
        title TEXT,
        author TEXT,
        pub_date TIMESTAMP,
        description TEXT,
        content TEXT,
        link TEXT,
        read_at TIMESTAMP,
        inserted_at TIMESTAMP DEFAULT CURRENT_TIMESTAMP,
        updated_at TIMESTAMP DEFAULT CURRENT_TIMESTAMP
        )"@)
            &&& runs(r[3], "CREATE INDEX IF NOT EXISTS entries_feed_id_and_pub_date_and_inserted_at_index
        ON entries (feed_id, pub_date, inserted_at)"@)
        },
        version <= 1 ==> {
            &&& r[r.len() - 4] == Operation::SetSchemaVersion(2)
            &&& runs(r[r.len() - 3], "ALTER TABLE feeds ADD COLUMN latest_etag TEXT"@)
        },
        version <= 2 ==> {
            &&& r[r.len() - 2] == Operation::SetSchemaVersion(3)
            &&& runs(
                r[r.len() - 1],
                "CREATE UNIQUE INDEX IF NOT EXISTS feeds_feed_link ON feeds (feed_link)"@,
            )
        },
{
    let want = migrations(version);
    assert(operations_view(r@) == want);
    assert(r.len() == want.len());
    assert forall|i: int| 0 <= i < r.len() implies (#[trigger] r[i])@ == want[i] by {
        lemma_operation(r@, i);
    }
    let n = r.len() as int;
    if version == 0 {
        assert(r[0]@ == want[0]);
        lemma_runs(r[1], crate::schema::CREATE_FEEDS@);
        lemma_runs(r[2], crate::schema::CREATE_ENTRIES@);
        lemma_runs(r[3], crate::schema::CREATE_ENTRIES_INDEX@);
    }
    if version <= 1 {
        assert(r[n - 4]@ == want[n - 4]);
        lemma_runs(r[n - 3], crate::schema::ADD_LATEST_ETAG@);
    }
    if version <= 2 {
        assert(r[n - 2]@ == want[n - 2]);
        lemma_runs(r[n - 1], crate::schema::CREATE_FEED_LINK_INDEX@);
    }
}

/// Making a database ready is one migration.
pub proof fn law_a_database_is_made_ready_by_migrating(r: Vec<Operation>)
    requires
        call_ensures(initialize_db, (), r),
    ensures
        r.len() == 1,
        r[0] is Migrate,
{
    assert(operations_view(r@).len() == 1);
    lemma_operation(r@, 0);
}

} // verus!
