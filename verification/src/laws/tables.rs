//! What the work on the database comes to in its tables.
//!
//! A table is modelled as a map from identifiers to rows. `does` says what the text of a statement
//! means for the tables; the laws say what is in the tables once operations were run. That SQLite
//! takes a text to mean this is up to SQLite.
use super::storing::{
    are_the_news, law_a_feed_is_removed_with_its_entries, law_a_refresh_stores_all_the_news,
    law_a_subscription_stores_all_that_came, law_an_entry_is_marked, store_the_news,
};
use super::stores_entry;
use crate::feed::{
    EntryMetadata, FeedAndEntries, FeedId, FeedKind, FeedResponse, IncomingEntry, IncomingFeed,
};
use crate::refresh::{AwaitingLinks, RefreshError, StoringFeed, SubscribeError, Subscribing};
use crate::sql::{delete_feed, Cell, Operation, Owner, Param, Statement};
use crate::time::Timestamp;
use vstd::prelude::*;

verus! {

/// A value in a table.
pub enum Value {
    Null,
    Integer(i64),
    Text(Seq<char>),
    Time(Timestamp),
}

/// A row of the table of feeds.
#[verifier::ext_equal]
pub struct FeedRow {
    pub title: Value,
    pub link: Value,
    pub feed_link: Value,
    pub feed_kind: Value,
    pub refreshed_at: Value,
    pub latest_etag: Value,
}

/// A row of the table of entries.
#[verifier::ext_equal]
pub struct EntryRow {
    pub feed_id: Value,
    pub title: Value,
    pub author: Value,
    pub pub_date: Value,
    pub description: Value,
    pub content: Value,
    pub link: Value,
    pub read_at: Value,
    pub updated_at: Value,
}

/// The tables, by identifier.
#[verifier::ext_equal]
pub struct Tables {
    pub feeds: Map<i64, FeedRow>,
    pub entries: Map<i64, EntryRow>,
}

/// The value that is bound, given the reading of the clock and the new identifier.
pub open spec fn value_of(param: Param, clock: Timestamp, new_id: i64) -> Value {
    match param {
        Param::Null => Value::Null,
        Param::Integer(i) => Value::Integer(i),
        Param::Text(s) => Value::Text(s@),
        Param::Time(t) => Value::Time(t),
        Param::Clock => Value::Time(clock),
        Param::NewId => Value::Integer(new_id),
    }
}

/// A text, or NULL.
pub open spec fn text_value(text: Option<String>) -> Value {
    match text {
        Some(t) => Value::Text(t@),
        None => Value::Null,
    }
}

/// An instant, or NULL.
pub open spec fn time_value(time: Option<Timestamp>) -> Value {
    match time {
        Some(t) => Value::Time(t),
        None => Value::Null,
    }
}

/// The row that an entry becomes.
pub open spec fn row_of(entry: IncomingEntry, feed_id: i64, clock: Timestamp) -> EntryRow {
    EntryRow {
        feed_id: Value::Integer(feed_id),
        title: text_value(entry.title),
        author: text_value(entry.author),
        pub_date: time_value(entry.pub_date),
        description: text_value(entry.description),
        content: text_value(entry.content),
        link: text_value(entry.link),
        read_at: Value::Null,
        updated_at: Value::Time(clock),
    }
}

/// The row that a feed becomes.
pub open spec fn feed_row_of(feed: IncomingFeed) -> FeedRow {
    FeedRow {
        title: text_value(feed.title),
        link: text_value(feed.link),
        feed_link: text_value(feed.feed_link),
        feed_kind: Value::Text(
            match feed.feed_kind {
                FeedKind::Atom => "Atom"@,
                FeedKind::Rss => "RSS"@,
            },
        ),
        refreshed_at: Value::Null,
        latest_etag: Value::Null,
    }
}

/// Whether one table came from another by a row under an identifier that was free.
pub open spec fn gains_row(
    before: Map<i64, EntryRow>,
    after: Map<i64, EntryRow>,
    row: EntryRow,
    id: i64,
) -> bool {
    !before.contains_key(id) && after == before.insert(id, row)
}

/// Whether a table has the same identifiers as another, and the same rows but for one.
pub open spec fn same_but<R>(before: Map<i64, R>, after: Map<i64, R>, id: i64) -> bool {
    &&& forall|k: i64| #[trigger] after.contains_key(k) <==> before.contains_key(k)
    &&& forall|k: i64| #[trigger] before.contains_key(k) && k != id ==> after[k] == before[k]
}

/// What the text of a statement means for the tables.
pub open spec fn does(
    s: Statement,
    clock: Timestamp,
    new_id: i64,
    before: Tables,
    after: Tables,
) -> bool {
    let value = |i: int| value_of(s.params[i], clock, new_id);
    &&& s.sql@ == "DELETE FROM feeds WHERE id = ?1"@ ==> {
        &&& after.entries == before.entries
        &&& forall|k: i64| #[trigger]
            after.feeds.contains_key(k) <==> before.feeds.contains_key(k) && value(0)
                != Value::Integer(k)
        &&& forall|k: i64| #[trigger] after.feeds.contains_key(k) ==> after.feeds[k]
            == before.feeds[k]
    }
    &&& s.sql@ == "DELETE FROM entries WHERE feed_id = ?1"@ ==> {
        &&& after.feeds == before.feeds
        &&& forall|k: i64| #[trigger]
            after.entries.contains_key(k) <==> before.entries.contains_key(k)
                && before.entries[k].feed_id != value(0)
        &&& forall|k: i64| #[trigger] after.entries.contains_key(k) ==> after.entries[k]
            == before.entries[k]
    }
    &&& s.sql@ == "UPDATE entries SET read_at = ?2 WHERE id = ?1"@ ==> {
        &&& after.feeds == before.feeds
        &&& value(0) matches Value::Integer(id) ==> {
            &&& same_but(before.entries, after.entries, id)
            &&& before.entries.contains_key(id) ==> after.entries[id] == (EntryRow {
                read_at: value(1),
                ..before.entries[id]
            })
        }
    }
    &&& s.sql@ == "UPDATE entries SET read_at = NULL WHERE id = ?1"@ ==> {
        &&& after.feeds == before.feeds
        &&& value(0) matches Value::Integer(id) ==> {
            &&& same_but(before.entries, after.entries, id)
            &&& before.entries.contains_key(id) ==> after.entries[id] == (EntryRow {
                read_at: Value::Null,
                ..before.entries[id]
            })
        }
    }
    &&& s.sql@ == "UPDATE feeds SET refreshed_at = ?2 WHERE id = ?1"@ ==> {
        &&& after.entries == before.entries
        &&& value(0) matches Value::Integer(id) ==> {
            &&& same_but(before.feeds, after.feeds, id)
            &&& before.feeds.contains_key(id) ==> after.feeds[id] == (FeedRow {
                refreshed_at: value(1),
                ..before.feeds[id]
            })
        }
    }
    &&& s.sql@ == "UPDATE feeds SET latest_etag = ?2 WHERE id = ?1"@ ==> {
        &&& after.entries == before.entries
        &&& value(0) matches Value::Integer(id) ==> {
            &&& same_but(before.feeds, after.feeds, id)
            &&& before.feeds.contains_key(id) ==> after.feeds[id] == (FeedRow {
                latest_etag: value(1),
                ..before.feeds[id]
            })
        }
    }
    &&& s.sql@
        == "INSERT INTO entries (feed_id, title, author, pub_date, description, content, link, updated_at) VALUES (?, ?, ?, ?, ?, ?, ?, ?)"@
        ==> {
        &&& after.feeds == before.feeds
        &&& exists|id: i64| #[trigger]
            gains_row(
                before.entries,
                after.entries,
                EntryRow {
                    feed_id: value(0),
                    title: value(1),
                    author: value(2),
                    pub_date: value(3),
                    description: value(4),
                    content: value(5),
                    link: value(6),
                    read_at: Value::Null,
                    updated_at: value(7),
                },
                id,
            )
    }
    &&& s.sql@ == "INSERT INTO feeds (title, link, feed_link, feed_kind)
        VALUES (?1, ?2, ?3, ?4)
        RETURNING id"@ ==> {
        &&& after.entries == before.entries
        &&& !before.feeds.contains_key(new_id)
        &&& after.feeds == before.feeds.insert(
            new_id,
            FeedRow {
                title: value(0),
                link: value(1),
                feed_link: value(2),
                feed_kind: value(3),
                refreshed_at: Value::Null,
                latest_etag: Value::Null,
            },
        )
    }
}

/// Whether an operation took the tables from one state to another.
pub open spec fn ran(
    operation: Operation,
    clock: Timestamp,
    new_id: i64,
    before: Tables,
    after: Tables,
) -> bool {
    match operation {
        Operation::ReadClock => after == before,
        Operation::Execute(s) => does(s, clock, new_id, before, after),
        Operation::Insert(s) => does(s, clock, new_id, before, after),
        _ => true,
    }
}

/// Whether operations were run, one behind the other: `states` are the tables before each and
/// after the last, and `clocks` are the last readings of the clock at each.
pub open spec fn all_ran(
    operations: Seq<Operation>,
    clocks: Seq<Timestamp>,
    new_id: i64,
    states: Seq<Tables>,
) -> bool {
    &&& states.len() == operations.len() + 1
    &&& clocks.len() == operations.len()
    &&& forall|i: int|
        0 <= i < operations.len() ==> ran(
            #[trigger] operations[i],
            clocks[i],
            new_id,
            states[i],
            states[i + 1],
        )
}

/// Once a feed was removed it is gone, and so is every entry of it; every other feed and every
/// entry of another feed is still there, as it was.
pub proof fn law_removing_a_feed_leaves_the_others(
    feed_id: FeedId,
    r: Vec<Operation>,
    clocks: Seq<Timestamp>,
    new_id: i64,
    states: Seq<Tables>,
    k: i64,
)
    requires
        call_ensures(delete_feed, (feed_id,), r),
        all_ran(r@, clocks, new_id, states),
    ensures
        states.last().feeds.contains_key(k) <==> states[0].feeds.contains_key(k) && k != feed_id.0,
        states.last().feeds.contains_key(k) ==> states.last().feeds[k] == states[0].feeds[k],
        states.last().entries.contains_key(k) <==> states[0].entries.contains_key(k)
            && states[0].entries[k].feed_id != Value::Integer(feed_id.0),
        states.last().entries.contains_key(k) ==> states.last().entries[k] == states[0].entries[k],
{
    law_a_feed_is_removed_with_its_entries(feed_id, r);
    assert(ran(r@[0], clocks[0], new_id, states[0], states[1]));
    assert(ran(r@[1], clocks[1], new_id, states[1], states[2]));
    let s = r[0]->Execute_0;
    let t = r[1]->Execute_0;
    assert(value_of(s.params[0], clocks[0], new_id) == Value::Integer(feed_id.0));
    assert(value_of(t.params[0], clocks[1], new_id) == Value::Integer(feed_id.0));
    assert(states.last() == states[2]);
    assert(states[1].feeds.contains_key(k) <==> states[0].feeds.contains_key(k) && k != feed_id.0);
}

/// Toggling an entry that the table has as it was read changes whether it is read, to what it was
/// not, and nothing else in the tables.
pub proof fn law_toggling_changes_one_entry(
    entry: EntryMetadata,
    now: Timestamp,
    toggled: Statement,
    read: Statement,
    unread: Statement,
    before: Tables,
    after: Tables,
)
    requires
        call_ensures(EntryMetadata::toggle_read, (&entry, now), toggled),
        call_ensures(EntryMetadata::mark_as_read, (&entry, now), read),
        call_ensures(EntryMetadata::mark_as_unread, (&entry,), unread),
        does(toggled, now, 0, before, after),
        before.entries.contains_key(entry.id.0),
    ensures
        after.feeds == before.feeds,
        same_but(before.entries, after.entries, entry.id.0),
        after.entries[entry.id.0] == (EntryRow {
            read_at: if entry.read_at is None {
                Value::Time(now)
            } else {
                Value::Null
            },
            ..before.entries[entry.id.0]
        }),
{
    law_an_entry_is_marked(entry, now, toggled, read, unread);
    assert(value_of(toggled.params[0], now, 0) == Value::Integer(entry.id.0));
    if entry.read_at is None {
        assert(value_of(toggled.params[1], now, 0) == Value::Time(now));
    }
}

/// Whether a table has these rows more than another, under identifiers that were free, and is
/// otherwise the same.
pub open spec fn gains_rows(
    before: Map<i64, EntryRow>,
    after: Map<i64, EntryRow>,
    ids: Seq<i64>,
    rows: Seq<EntryRow>,
) -> bool {
    &&& ids.len() == rows.len()
    &&& ids.no_duplicates()
    &&& forall|k: int|
        0 <= k < ids.len() ==> !before.contains_key(#[trigger] ids[k]) && after.contains_key(ids[k])
            && after[ids[k]] == rows[k]
    &&& forall|id: i64| #[trigger] before.contains_key(id) ==> after.contains_key(id) && after[id]
        == before[id]
    &&& forall|id: i64| #[trigger]
        after.contains_key(id) ==> before.contains_key(id) || ids.contains(id)
}

/// Whether the tables have one entry more, and are otherwise the same.
pub open spec fn gains_one(before: Tables, after: Tables, row: EntryRow) -> bool {
    &&& after.feeds == before.feeds
    &&& exists|id: i64| #[trigger] gains_row(before.entries, after.entries, row, id)
}

proof fn lemma_rows_are_gained(states: Seq<Tables>, rows: Seq<EntryRow>) -> (ids: Seq<i64>)
    requires
        states.len() == rows.len() + 1,
        forall|k: int|
            0 <= k < rows.len() ==> gains_one(states[k], states[k + 1], #[trigger] rows[k]),
    ensures
        gains_rows(states[0].entries, states.last().entries, ids, rows),
        states.last().feeds == states[0].feeds,
    decreases rows.len(),
{
    if rows.len() == 0 {
        Seq::empty()
    } else {
        let n = rows.len() - 1;
        let earlier = states.drop_last();
        let fewer = rows.drop_last();
        assert forall|k: int| 0 <= k < fewer.len() implies gains_one(
            earlier[k],
            earlier[k + 1],
            #[trigger] fewer[k],
        ) by {
            assert(gains_one(states[k], states[k + 1], rows[k]));
        }
        let before = lemma_rows_are_gained(earlier, fewer);
        assert(gains_one(states[n], states[n + 1], rows[n]));
        let id = choose|id: i64| #[trigger]
            gains_row(states[n].entries, states[n + 1].entries, rows[n], id);
        let ids = before.push(id);
        let start = states[0].entries;
        let middle = states[n].entries;
        let end = states.last().entries;
        assert(end == middle.insert(id, rows[n]));
        assert forall|a: int, b: int|
            0 <= a < ids.len() && 0 <= b < ids.len() && a != b implies ids[a] != ids[b] by {
            if a < before.len() {
                assert(middle.contains_key(before[a]));
            }
            if b < before.len() {
                assert(middle.contains_key(before[b]));
            }
        }
        assert forall|k: int| 0 <= k < ids.len() implies !start.contains_key(#[trigger] ids[k])
            && end.contains_key(ids[k]) && end[ids[k]] == rows[k] by {
            if k < before.len() {
                assert(ids[k] == before[k]);
                assert(middle.contains_key(before[k]));
                assert(middle[before[k]] == fewer[k]);
            } else if start.contains_key(id) {
                assert(middle.contains_key(id));
            }
        }
        assert forall|i: i64| #[trigger] end.contains_key(i) implies start.contains_key(i)
            || ids.contains(i) by {
            if i == id {
                assert(ids[n as int] == id);
            } else {
                assert(middle.contains_key(i));
                if before.contains(i) {
                    let k = choose|k: int| 0 <= k < before.len() && before[k] == i;
                    assert(ids[k] == i);
                }
            }
        }
        ids
    }
}

proof fn lemma_entry_is_gained(
    operation: Operation,
    owner: Owner,
    entry: IncomingEntry,
    feed_id: i64,
    clock: Timestamp,
    new_id: i64,
    before: Tables,
    after: Tables,
)
    requires
        stores_entry(operation, owner, entry),
        ran(operation, clock, new_id, before, after),
        feed_id == match owner {
            Owner::Stored(id) => id.0,
            Owner::JustCreated => new_id,
        },
    ensures
        gains_one(before, after, row_of(entry, feed_id, clock)),
{
    let s = operation->Execute_0;
    let row = EntryRow {
        feed_id: value_of(s.params[0], clock, new_id),
        title: value_of(s.params[1], clock, new_id),
        author: value_of(s.params[2], clock, new_id),
        pub_date: value_of(s.params[3], clock, new_id),
        description: value_of(s.params[4], clock, new_id),
        content: value_of(s.params[5], clock, new_id),
        link: value_of(s.params[6], clock, new_id),
        read_at: Value::Null,
        updated_at: value_of(s.params[7], clock, new_id),
    };
    assert(row == row_of(entry, feed_id, clock));
    assert(exists|id: i64| #[trigger] gains_row(before.entries, after.entries, row, id));
}

/// The rows that entries at some places become.
pub open spec fn rows_of(
    entries: Seq<IncomingEntry>,
    places: Seq<int>,
    feed_id: i64,
    clocks: Seq<Timestamp>,
) -> Seq<EntryRow> {
    Seq::new(places.len(), |k: int| row_of(entries[places[k]], feed_id, clocks[k + 1]))
}

/// Once a feed was refreshed the table of entries has a row more for each of the news, with all
/// that the entry holds, for that feed, and unread; every other entry is as it was. The feed has
/// the time of the refresh and the entity tag that came, and is otherwise as it was; so is every
/// other feed.
pub proof fn law_a_refresh_adds_the_news<E>(
    step: AwaitingLinks,
    rows: Vec<Vec<Cell>>,
    links: Seq<Option<String>>,
    r: Result<Vec<Operation>, RefreshError<E>>,
    clocks: Seq<Timestamp>,
    new_id: i64,
    states: Seq<Tables>,
)
    requires
        call_ensures(AwaitingLinks::links::<E>, (step, Ok(rows)), r),
        rows.len() == links.len(),
        forall|k: int| 0 <= k < rows.len() ==> (#[trigger] rows[k])@ == seq![Cell::Text(links[k])],
        r matches Ok(operations) && all_ran(operations@, clocks, new_id, states),
    ensures
        exists|places: Seq<int>, ids: Seq<i64>| #[trigger]
            are_the_news(places, step.entries@, links) && #[trigger] gains_rows(
                states[0].entries,
                states.last().entries,
                ids,
                rows_of(step.entries@, places, step.feed_id.0, clocks),
            ),
        same_but(states[0].feeds, states.last().feeds, step.feed_id.0),
        states[0].feeds.contains_key(step.feed_id.0) ==> exists|at: Timestamp|
            states.last().feeds[step.feed_id.0] == (FeedRow {
                refreshed_at: #[trigger] time_value(Some(at)),
                latest_etag: text_value(step.etag),
                ..states[0].feeds[step.feed_id.0]
            }),
{
    law_a_refresh_stores_all_the_news(step, rows, links, r);
    let ops = r->Ok_0@;
    let id = step.feed_id.0;
    let places = choose|places: Seq<int>| #[trigger]
        are_the_news(places, step.entries@, links) && store_the_news(
            ops,
            places,
            step.feed_id,
            step.entries@,
            step.etag,
        );
    let news = rows_of(step.entries@, places, id, clocks);
    let n: int = if places.len() == 0 {
        0
    } else {
        places.len() as int + 1
    };
    let first: int = if places.len() == 0 {
        0
    } else {
        1
    };
    let part = states.subrange(first, n + 1);
    if places.len() > 0 {
        assert(ran(ops[0], clocks[0], new_id, states[0], states[1]));
    }
    assert(part.len() == news.len() + 1);
    assert forall|k: int| 0 <= k < news.len() implies gains_one(
        part[k],
        part[k + 1],
        #[trigger] news[k],
    ) by {
        assert(ran(ops[k + 1], clocks[k + 1], new_id, states[k + 1], states[k + 2]));
        let entry = step.entries@[places[k]];
        assert(stores_entry(ops[k + 1], Owner::Stored(step.feed_id), entry));
        lemma_entry_is_gained(
            ops[k + 1],
            Owner::Stored(step.feed_id),
            entry,
            id,
            clocks[k + 1],
            new_id,
            states[k + 1],
            states[k + 2],
        );
        assert(news[k] == row_of(entry, id, clocks[k + 1]));
    }
    let ids = lemma_rows_are_gained(part, news);
    assert(part[0] == states[first] && states[first] == states[0]);
    assert(part.last() == states[n]);
    assert(ran(ops[n], clocks[n], new_id, states[n], states[n + 1]));
    assert(ran(ops[n + 1], clocks[n + 1], new_id, states[n + 1], states[n + 2]));
    assert(ran(ops[n + 2], clocks[n + 2], new_id, states[n + 2], states[n + 3]));
    let stamp = ops[n + 1]->Execute_0;
    let tag = ops[n + 2]->Execute_0;
    assert(value_of(stamp.params[0], clocks[n + 1], new_id) == Value::Integer(id));
    assert(value_of(stamp.params[1], clocks[n + 1], new_id) == Value::Time(clocks[n + 1]));
    assert(value_of(tag.params[0], clocks[n + 2], new_id) == Value::Integer(id));
    assert(value_of(tag.params[1], clocks[n + 2], new_id) == text_value(step.etag));
    assert(states.last() == states[n + 3]);
    let start = states[0].feeds;
    let middle = states[n + 2].feeds;
    let end = states.last().feeds;
    assert(same_but(start, middle, id));
    assert(same_but(middle, end, id));
    assert forall|k: i64| #[trigger] end.contains_key(k) <==> start.contains_key(k) by {
        assert(middle.contains_key(k) <==> start.contains_key(k));
    }
    assert forall|k: i64| #[trigger] start.contains_key(k) && k != id implies end[k] == start[k] by {
        assert(middle.contains_key(k));
    }
    if start.contains_key(id) {
        assert(middle.contains_key(id));
        assert(end[id] == (FeedRow {
            refreshed_at: time_value(Some(clocks[n + 1])),
            latest_etag: text_value(step.etag),
            ..start[id]
        }));
    }
    assert(gains_rows(states[0].entries, states.last().entries, ids, news));
}

/// The rows that all entries become.
pub open spec fn all_rows_of(
    entries: Seq<IncomingEntry>,
    feed_id: i64,
    clocks: Seq<Timestamp>,
) -> Seq<EntryRow> {
    Seq::new(entries.len(), |k: int| row_of(entries[k], feed_id, clocks[k + 2]))
}

/// Once a feed was subscribed to, the table of feeds has its row more, with all that the feed
/// holds, under the identifier that the database gave it, and the table of entries has a row more
/// for each entry that came, with all that the entry holds, for that feed, and unread. Every other
/// feed and every other entry is as it was.
pub proof fn law_a_subscription_adds_all_that_came<E>(
    step: Subscribing,
    f: FeedAndEntries,
    r: Result<(StoringFeed, Vec<Operation>), SubscribeError<E>>,
    clocks: Seq<Timestamp>,
    new_id: i64,
    states: Seq<Tables>,
)
    requires
        call_ensures(Subscribing::feed::<E>, (step, Ok(FeedResponse::CacheMiss(f))), r),
        r matches Ok((_, operations)) && all_ran(operations@, clocks, new_id, states),
    ensures
        !states[0].feeds.contains_key(new_id),
        states.last().feeds == states[0].feeds.insert(new_id, feed_row_of(f.feed)),
        exists|ids: Seq<i64>| #[trigger]
            gains_rows(
                states[0].entries,
                states.last().entries,
                ids,
                all_rows_of(f.entries@, new_id, clocks),
            ),
{
    law_a_subscription_stores_all_that_came(step, f, r, 0);
    let ops = r->Ok_0.1@;
    let m = f.entries.len() as int;
    assert(ran(ops[0], clocks[0], new_id, states[0], states[1]));
    let s = ops[0]->Insert_0;
    assert(FeedRow {
        title: value_of(s.params[0], clocks[0], new_id),
        link: value_of(s.params[1], clocks[0], new_id),
        feed_link: value_of(s.params[2], clocks[0], new_id),
        feed_kind: value_of(s.params[3], clocks[0], new_id),
        refreshed_at: Value::Null,
        latest_etag: Value::Null,
    } == feed_row_of(f.feed));
    let rows = all_rows_of(f.entries@, new_id, clocks);
    let first: int = if m == 0 {
        1
    } else {
        2
    };
    if m > 0 {
        assert(ran(ops[1], clocks[1], new_id, states[1], states[2]));
    }
    let part = states.subrange(first, states.len() as int);
    assert(part.len() == rows.len() + 1);
    assert forall|k: int| 0 <= k < rows.len() implies gains_one(
        part[k],
        part[k + 1],
        #[trigger] rows[k],
    ) by {
        law_a_subscription_stores_all_that_came(step, f, r, k);
        assert(ran(ops[k + 2], clocks[k + 2], new_id, states[k + 2], states[k + 3]));
        lemma_entry_is_gained(
            ops[k + 2],
            Owner::JustCreated,
            f.entries[k],
            new_id,
            clocks[k + 2],
            new_id,
            states[k + 2],
            states[k + 3],
        );
        assert(rows[k] == row_of(f.entries[k], new_id, clocks[k + 2]));
    }
    let ids = lemma_rows_are_gained(part, rows);
    assert(part[0] == states[first]);
    assert(part.last() == states.last());
    assert(gains_rows(states[0].entries, states.last().entries, ids, rows));
}

} // verus!
