//! What the lists of feeds and entries hold, and in what order.
//!
//! A table is modelled as the set of its rows. The functions named `answers_..` say what the text
//! of a query asks of a table, and the laws say what the reader makes of rows that answer it. That
//! SQLite gives such rows is up to SQLite.
use crate::feed::{EntryId, EntryMetadata, Feed, FeedId, IncomingEntryView};
use crate::modes::ReadMode;
use crate::queries::{
    entry_meta_columns, feed_columns, holds_feed, law_a_row_holds_one_entry,
    law_a_row_holds_one_feed, query_all, query_by_id, read_at_predicate, row_fits,
    row_is_entry_meta, row_is_feed, rows_are_entries_metas, rows_are_feed_ids, rows_are_feeds,
    AND_ANY, AND_READ, AND_UNREAD, NEWEST_FIRST, SELECT_ENTRIES_LINKS, SELECT_ENTRIES_METAS,
    SELECT_ENTRY_META, SELECT_FEED, SELECT_FEEDS, SELECT_FEED_IDS,
};
use crate::refresh::{
    known_links, law_new_entries_have_unknown_links, links_in_rows, links_of, new_entries,
    rows_hold_links,
};
use crate::sql::{Cell, Column, ParamView, QueryView};
use crate::text::ascii_lower_text;
use crate::time::Timestamp;
use vstd::prelude::*;
use vstd::seq_lib::group_to_multiset_ensures;

verus! {

/// Whether an instant is not later than another.
pub open spec fn time_at_most(a: Timestamp, b: Timestamp) -> bool {
    a.secs < b.secs || a.secs == b.secs && a.nanos <= b.nanos
}

/// Whether an instant, if there is one, is not later than another. No instant comes below every
/// instant.
pub open spec fn opt_time_at_most(a: Option<Timestamp>, b: Option<Timestamp>) -> bool {
    match (a, b) {
        (None, _) => true,
        (Some(_), None) => false,
        (Some(a), Some(b)) => time_at_most(a, b),
    }
}

/// Whether an entry may stand before another where the newest come first: by the date of
/// publication, and by the time of insertion where those are the same.
pub open spec fn not_older(a: EntryMetadata, b: EntryMetadata) -> bool {
    &&& opt_time_at_most(b.pub_date, a.pub_date)
    &&& a.pub_date == b.pub_date ==> time_at_most(b.inserted_at, a.inserted_at)
}

/// Whether a text comes before another, or is the same: by their first characters that differ, or
/// by length.
pub open spec fn text_at_most(a: Seq<char>, b: Seq<char>) -> bool
    decreases a.len(),
{
    a.len() == 0 || b.len() > 0 && (a[0] < b[0] || a[0] == b[0] && text_at_most(
        a.skip(1),
        b.skip(1),
    ))
}

/// Whether a feed may stand before another where they are ordered by title: without regard to the
/// case of ASCII letters, and those without a title first.
pub open spec fn title_at_most(a: Feed, b: Feed) -> bool {
    match (a.title, b.title) {
        (None, _) => true,
        (Some(_), None) => false,
        (Some(s), Some(t)) => text_at_most(ascii_lower_text(s@), ascii_lower_text(t@)),
    }
}

/// Whether no two feeds of a table have one identifier.
pub open spec fn feed_ids_differ(table: Set<Feed>) -> bool {
    forall|a: Feed, b: Feed|
        #[trigger] table.contains(a) && #[trigger] table.contains(b) && a.id == b.id ==> a == b
}

/// Whether no two entries of a table have one identifier.
pub open spec fn entry_ids_differ(table: Set<EntryMetadata>) -> bool {
    forall|a: EntryMetadata, b: EntryMetadata|
        #[trigger] table.contains(a) && #[trigger] table.contains(b) && a.id == b.id ==> a == b
}

/// Whether a read mode shows an entry.
pub open spec fn shows(read_mode: ReadMode, entry: EntryMetadata) -> bool {
    match read_mode {
        ReadMode::ShowUnread => entry.read_at is None,
        ReadMode::ShowRead => entry.read_at is Some,
        ReadMode::All => true,
    }
}

/// Whether a list holds each entry of a feed that a read mode shows once, and no other, the newest
/// first.
pub open spec fn is_entry_list(
    table: Set<EntryMetadata>,
    read_mode: ReadMode,
    feed_id: FeedId,
    list: Seq<EntryMetadata>,
) -> bool {
    &&& list.no_duplicates()
    &&& forall|e: EntryMetadata| #[trigger]
        list.contains(e) <==> table.contains(e) && e.feed_id == feed_id && shows(read_mode, e)
    &&& forall|i: int, j: int|
        0 <= i < j < list.len() ==> not_older(#[trigger] list[i], #[trigger] list[j])
}

/// Whether a list holds each feed once, ordered by title.
pub open spec fn is_feed_list(table: Set<Feed>, list: Seq<Feed>) -> bool {
    &&& list.no_duplicates()
    &&& forall|f: Feed| #[trigger] list.contains(f) <==> table.contains(f)
    &&& forall|i: int, j: int|
        0 <= i < j < list.len() ==> title_at_most(#[trigger] list[i], #[trigger] list[j])
}

/// What the text of a condition asks of an entry.
pub open spec fn condition_holds(condition: Seq<char>, entry: EntryMetadata) -> bool {
    ||| condition == AND_UNREAD@ && entry.read_at is None
    ||| condition == AND_READ@ && entry.read_at is Some
    ||| condition == AND_ANY@
}

/// What the text of a query for entries asks: each entry of a feed for which a condition holds,
/// once, the newest first. SQLite compares instants as the text that they are stored as, which for
/// years of four digits is their order in time.
pub open spec fn selects_entries(
    table: Set<EntryMetadata>,
    condition: Seq<char>,
    feed_id: FeedId,
    list: Seq<EntryMetadata>,
) -> bool {
    &&& list.no_duplicates()
    &&& forall|e: EntryMetadata| #[trigger]
        list.contains(e) <==> table.contains(e) && e.feed_id == feed_id && condition_holds(
            condition,
            e,
        )
    &&& forall|i: int, j: int|
        0 <= i < j < list.len() ==> not_older(#[trigger] list[i], #[trigger] list[j])
}

/// Whether rows answer a query for the metadata of the entries of a feed.
pub open spec fn answers_entries_metas(
    table: Set<EntryMetadata>,
    query: QueryView,
    rows: Seq<Vec<Cell>>,
) -> bool {
    exists|condition: Seq<char>, feed_id: FeedId, list: Seq<EntryMetadata>|
        query == query_by_id(
            SELECT_ENTRIES_METAS@ + condition + NEWEST_FIRST@,
            feed_id.0,
            entry_meta_columns(),
        ) && #[trigger] selects_entries(table, condition, feed_id, list) && rows_are_entries_metas(
            rows,
            list,
        )
}

/// Whether rows hold the links of entries, one each.
pub open spec fn rows_are_links(rows: Seq<Vec<Cell>>, list: Seq<EntryMetadata>) -> bool {
    &&& rows.len() == list.len()
    &&& forall|i: int|
        0 <= i < rows.len() ==> (#[trigger] rows[i])@ =~= seq![Cell::Text(list[i].link)]
}

/// Whether rows answer a query for the links of the entries of a feed.
pub open spec fn answers_entries_links(
    table: Set<EntryMetadata>,
    query: QueryView,
    rows: Seq<Vec<Cell>>,
) -> bool {
    exists|condition: Seq<char>, feed_id: FeedId, list: Seq<EntryMetadata>|
        query == query_by_id(
            SELECT_ENTRIES_LINKS@ + condition + NEWEST_FIRST@,
            feed_id.0,
            seq![Column::OptionalText],
        ) && #[trigger] selects_entries(table, condition, feed_id, list) && rows_are_links(
            rows,
            list,
        )
}

/// Whether a row answers a query for the metadata of an entry. Where no entry has the identifier
/// that is asked for, no row does.
pub open spec fn answers_entry_meta(
    table: Set<EntryMetadata>,
    query: QueryView,
    row: Seq<Cell>,
) -> bool {
    exists|e: EntryMetadata| #[trigger]
        table.contains(e) && query == query_by_id(SELECT_ENTRY_META@, e.id.0, entry_meta_columns())
            && row_is_entry_meta(row, e)
}

/// Whether rows answer a query for all feeds.
pub open spec fn answers_feeds(table: Set<Feed>, query: QueryView, rows: Seq<Vec<Cell>>) -> bool {
    &&& query == query_all(SELECT_FEEDS@, feed_columns())
    &&& exists|list: Seq<Feed>| #[trigger]
        is_feed_list(table, list) && rows_are_feeds(rows, list)
}

/// The identifiers of feeds.
pub open spec fn ids_of(feeds: Seq<Feed>) -> Seq<FeedId> {
    feeds.map_values(|f: Feed| f.id)
}

/// Whether rows answer a query for the identifiers of all feeds.
pub open spec fn answers_feed_ids(
    table: Set<Feed>,
    query: QueryView,
    rows: Seq<Vec<Cell>>,
) -> bool {
    &&& query == query_all(SELECT_FEED_IDS@, seq![Column::Integer])
    &&& exists|list: Seq<Feed>| #[trigger]
        is_feed_list(table, list) && rows_are_feed_ids(rows, ids_of(list))
}

/// Whether a row answers a query for a feed. Where no feed has the identifier that is asked for,
/// no row does.
pub open spec fn answers_feed(table: Set<Feed>, query: QueryView, row: Seq<Cell>) -> bool {
    exists|f: Feed| #[trigger]
        table.contains(f) && query == query_by_id(SELECT_FEED@, f.id.0, feed_columns())
            && row_is_feed(row, f)
}

proof fn lemma_conditions_differ()
    ensures
        AND_UNREAD@ != AND_READ@,
        AND_UNREAD@ != AND_ANY@,
        AND_READ@ != AND_ANY@,
{
    reveal_strlit("\nAND read_at IS NULL");
    reveal_strlit("\nAND read_at IS NOT NULL");
    reveal_strlit("\n");
    assert(AND_UNREAD@.len() == 20);
    assert(AND_READ@.len() == 24);
    assert(AND_ANY@.len() == 1);
}

/// The condition of a read mode asks for the entries that the mode shows.
pub proof fn law_conditions_pick_what_is_shown(read_mode: ReadMode, entry: EntryMetadata)
    ensures
        condition_holds(read_at_predicate(read_mode), entry) <==> shows(read_mode, entry),
{
    lemma_conditions_differ();
}

proof fn lemma_middle(before: Seq<char>, a: Seq<char>, b: Seq<char>, after: Seq<char>)
    requires
        before + a + after == before + b + after,
    ensures
        a == b,
{
    let whole = before + a + after;
    let end = whole.len() - after.len();
    assert(a =~= whole.subrange(before.len() as int, end));
    assert(b =~= whole.subrange(before.len() as int, end));
}

proof fn lemma_query_says_which(
    select: Seq<char>,
    a: Seq<char>,
    id_a: i64,
    b: Seq<char>,
    id_b: i64,
    columns: Seq<Column>,
)
    requires
        query_by_id(select + a + NEWEST_FIRST@, id_a, columns) == query_by_id(
            select + b + NEWEST_FIRST@,
            id_b,
            columns,
        ),
    ensures
        a == b,
        id_a == id_b,
{
    let q = query_by_id(select + a + NEWEST_FIRST@, id_a, columns);
    assert(q.statement.params[0] == ParamView::Integer(id_a));
    assert(q.statement.params[0] == ParamView::Integer(id_b));
    lemma_middle(select, a, b, NEWEST_FIRST@);
}

proof fn lemma_selected_is_list(
    table: Set<EntryMetadata>,
    read_mode: ReadMode,
    feed_id: FeedId,
    list: Seq<EntryMetadata>,
)
    requires
        selects_entries(table, read_at_predicate(read_mode), feed_id, list),
    ensures
        is_entry_list(table, read_mode, feed_id, list),
{
    assert forall|e: EntryMetadata| #[trigger] list.contains(e) <==> table.contains(e) && e.feed_id
        == feed_id && shows(read_mode, e) by {
        law_conditions_pick_what_is_shown(read_mode, e);
    }
}

/// What is read of the entries of a feed is each entry that the read mode shows, once, and no
/// other, the newest first; and rows that answer the query can be read.
pub proof fn law_entries_are_listed(
    table: Set<EntryMetadata>,
    read_mode: ReadMode,
    feed_id: FeedId,
    rows: Seq<Vec<Cell>>,
)
    requires
        answers_entries_metas(
            table,
            query_by_id(
                SELECT_ENTRIES_METAS@ + read_at_predicate(read_mode) + NEWEST_FIRST@,
                feed_id.0,
                entry_meta_columns(),
            ),
            rows,
        ),
    ensures
        forall|i: int|
            0 <= i < rows.len() ==> row_fits((#[trigger] rows[i])@, entry_meta_columns()),
        forall|read: Seq<EntryMetadata>| #[trigger]
            rows_are_entries_metas(rows, read) ==> is_entry_list(table, read_mode, feed_id, read),
{
    let predicate = read_at_predicate(read_mode);
    let query = query_by_id(
        SELECT_ENTRIES_METAS@ + predicate + NEWEST_FIRST@,
        feed_id.0,
        entry_meta_columns(),
    );
    let (condition, id, list) = choose|condition: Seq<char>, id: FeedId, list: Seq<EntryMetadata>|
        query == query_by_id(
            SELECT_ENTRIES_METAS@ + condition + NEWEST_FIRST@,
            id.0,
            entry_meta_columns(),
        ) && #[trigger] selects_entries(table, condition, id, list) && rows_are_entries_metas(
            rows,
            list,
        );
    lemma_query_says_which(
        SELECT_ENTRIES_METAS@,
        predicate,
        feed_id.0,
        condition,
        id.0,
        entry_meta_columns(),
    );
    lemma_selected_is_list(table, read_mode, feed_id, list);
    assert forall|i: int| 0 <= i < rows.len() implies row_fits(
        (#[trigger] rows[i])@,
        entry_meta_columns(),
    ) by {
        assert(row_is_entry_meta(rows[i]@, list[i]));
    }
    assert forall|read: Seq<EntryMetadata>| #[trigger]
        rows_are_entries_metas(rows, read) implies is_entry_list(
        table,
        read_mode,
        feed_id,
        read,
    ) by {
        assert forall|i: int| 0 <= i < rows.len() implies read[i] == list[i] by {
            assert(row_is_entry_meta(rows[i]@, list[i]));
            assert(row_is_entry_meta(rows[i]@, read[i]));
            law_a_row_holds_one_entry(rows[i]@, read[i], list[i]);
        }
        assert(read =~= list);
    }
}

proof fn lemma_same_elements<A>(a: Seq<A>, b: Seq<A>)
    requires
        a.no_duplicates(),
        b.no_duplicates(),
        forall|x: A| a.contains(x) <==> b.contains(x),
    ensures
        a.to_multiset() == b.to_multiset(),
{
    broadcast use group_to_multiset_ensures;

    a.lemma_multiset_has_no_duplicates();
    b.lemma_multiset_has_no_duplicates();
    assert forall|x: A| a.to_multiset().count(x) == b.to_multiset().count(x) by {
        assert(a.contains(x) <==> b.contains(x));
        assert(a.contains(x) <==> a.to_multiset().count(x) > 0);
        assert(b.contains(x) <==> b.to_multiset().count(x) > 0);
        if a.contains(x) {
            assert(a.to_multiset().contains(x));
            assert(b.to_multiset().contains(x));
        }
    }
    assert(a.to_multiset() =~= b.to_multiset());
}

/// The unread entries and the read ones, taken together, are all entries of the feed, in another
/// order.
pub proof fn law_unread_and_read_make_all(
    table: Set<EntryMetadata>,
    feed_id: FeedId,
    unread: Seq<EntryMetadata>,
    read: Seq<EntryMetadata>,
    all: Seq<EntryMetadata>,
)
    requires
        is_entry_list(table, ReadMode::ShowUnread, feed_id, unread),
        is_entry_list(table, ReadMode::ShowRead, feed_id, read),
        is_entry_list(table, ReadMode::All, feed_id, all),
    ensures
        (unread + read).to_multiset() == all.to_multiset(),
{
    let both = unread + read;
    assert forall|i: int, j: int|
        0 <= i < both.len() && 0 <= j < both.len() && i != j implies both[i] != both[j] by {
        if i < unread.len() {
            assert(unread.contains(both[i]));
        } else {
            assert(read.contains(both[i]));
            assert(both[i] == read[i - unread.len()]);
        }
        if j < unread.len() {
            assert(unread.contains(both[j]));
        } else {
            assert(read.contains(both[j]));
            assert(both[j] == read[j - unread.len()]);
        }
    }
    assert forall|e: EntryMetadata| both.contains(e) <==> all.contains(e) by {
        assert(all.contains(e) <==> unread.contains(e) || read.contains(e));
        if unread.contains(e) {
            let i = choose|i: int| 0 <= i < unread.len() && unread[i] == e;
            assert(both[i] == e);
        }
        if read.contains(e) {
            let i = choose|i: int| 0 <= i < read.len() && read[i] == e;
            assert(both[unread.len() + i] == e);
        }
        if both.contains(e) {
            let i = choose|i: int| 0 <= i < both.len() && both[i] == e;
            if i < unread.len() {
                assert(unread[i] == e);
            } else {
                assert(read[i - unread.len()] == e);
            }
        }
    }
    lemma_same_elements(both, all);
}

/// Marking an entry as read takes it off the unread entries of its feed, and nothing else: where
/// the table has the entry as read, and is otherwise the same, one unread entry less is listed.
pub proof fn law_an_entry_that_was_read_is_unread_no_more(
    table: Set<EntryMetadata>,
    entry: EntryMetadata,
    now: Timestamp,
    before: Seq<EntryMetadata>,
    after: Seq<EntryMetadata>,
)
    requires
        table.contains(entry),
        entry.read_at is None,
        is_entry_list(table, ReadMode::ShowUnread, entry.feed_id, before),
        is_entry_list(
            table.remove(entry).insert(EntryMetadata { read_at: Some(now), ..entry }),
            ReadMode::ShowUnread,
            entry.feed_id,
            after,
        ),
    ensures
        after.len() == before.len() - 1,
        forall|e: EntryMetadata| #[trigger]
            after.contains(e) <==> before.contains(e) && e != entry,
{
    broadcast use group_to_multiset_ensures;

    let with = after.push(entry);
    assert(before.contains(entry));
    assert forall|e: EntryMetadata| with.contains(e) <==> before.contains(e) by {
        assert(after.contains(e) <==> before.contains(e) && e != entry);
        if after.contains(e) {
            let i = choose|i: int| 0 <= i < after.len() && after[i] == e;
            assert(with[i] == e);
        }
        assert(with[after.len() as int] == entry);
    }
    assert forall|i: int, j: int|
        0 <= i < with.len() && 0 <= j < with.len() && i != j implies with[i] != with[j] by {
        if i < after.len() {
            assert(after.contains(after[i]));
        }
        if j < after.len() {
            assert(after.contains(after[j]));
        }
    }
    lemma_same_elements(with, before);
    assert(with.len() == with.to_multiset().len());
    assert(before.len() == before.to_multiset().len());
}

/// Entries without a date of publication come last.
pub proof fn law_entries_without_a_date_come_last(
    table: Set<EntryMetadata>,
    read_mode: ReadMode,
    feed_id: FeedId,
    list: Seq<EntryMetadata>,
    i: int,
    j: int,
)
    requires
        is_entry_list(table, read_mode, feed_id, list),
        0 <= i < j < list.len(),
        list[i].pub_date is None,
    ensures
        list[j].pub_date is None,
{
    assert(not_older(list[i], list[j]));
}

/// An entry that a list shows reads the same when it is asked for alone, and an identifier that no
/// entry has is not answered.
pub proof fn law_an_entry_reads_as_in_the_list(
    table: Set<EntryMetadata>,
    read_mode: ReadMode,
    feed_id: FeedId,
    list: Seq<EntryMetadata>,
    id: EntryId,
    row: Seq<Cell>,
)
    requires
        entry_ids_differ(table),
        is_entry_list(table, read_mode, feed_id, list),
        answers_entry_meta(
            table,
            query_by_id(SELECT_ENTRY_META@, id.0, entry_meta_columns()),
            row,
        ),
    ensures
        row_fits(row, entry_meta_columns()),
        exists|e: EntryMetadata| #[trigger] table.contains(e) && e.id == id,
        forall|alone: EntryMetadata, listed: EntryMetadata|
            #[trigger] row_is_entry_meta(row, alone) && #[trigger] list.contains(listed)
                && listed.id == id ==> alone == listed,
{
    let query = query_by_id(SELECT_ENTRY_META@, id.0, entry_meta_columns());
    let e = choose|e: EntryMetadata| #[trigger]
        table.contains(e) && query == query_by_id(SELECT_ENTRY_META@, e.id.0, entry_meta_columns())
            && row_is_entry_meta(row, e);
    assert(query.statement.params[0] == ParamView::Integer(id.0));
    assert(query.statement.params[0] == ParamView::Integer(e.id.0));
    assert forall|alone: EntryMetadata, listed: EntryMetadata|
        #[trigger] row_is_entry_meta(row, alone) && #[trigger] list.contains(listed) && listed.id
            == id implies alone == listed by {
        law_a_row_holds_one_entry(row, alone, e);
        assert(table.contains(listed));
    }
}

/// What is read of all feeds is each feed, once, ordered by title; and rows that answer the query
/// can be read.
pub proof fn law_feeds_are_listed(table: Set<Feed>, rows: Seq<Vec<Cell>>)
    requires
        answers_feeds(table, query_all(SELECT_FEEDS@, feed_columns()), rows),
    ensures
        forall|i: int| 0 <= i < rows.len() ==> holds_feed((#[trigger] rows[i])@),
        forall|read: Seq<Feed>| #[trigger]
            rows_are_feeds(rows, read) ==> is_feed_list(table, read),
{
    let list = choose|list: Seq<Feed>| #[trigger]
        is_feed_list(table, list) && rows_are_feeds(rows, list);
    assert forall|i: int| 0 <= i < rows.len() implies holds_feed((#[trigger] rows[i])@) by {
        assert(row_is_feed(rows[i]@, list[i]));
    }
    assert forall|read: Seq<Feed>| #[trigger] rows_are_feeds(rows, read) implies is_feed_list(
        table,
        read,
    ) by {
        assert forall|i: int| 0 <= i < rows.len() implies read[i] == list[i] by {
            assert(row_is_feed(rows[i]@, list[i]));
            assert(row_is_feed(rows[i]@, read[i]));
            law_a_row_holds_one_feed(rows[i]@, read[i], list[i]);
        }
        assert(read =~= list);
    }
}

proof fn lemma_ids_of_list(table: Set<Feed>, list: Seq<Feed>)
    requires
        feed_ids_differ(table),
        is_feed_list(table, list),
    ensures
        ids_of(list).no_duplicates(),
        forall|f: Feed| #[trigger] table.contains(f) ==> ids_of(list).contains(f.id),
{
    let ids = ids_of(list);
    assert forall|i: int, j: int| 0 <= i < ids.len() && 0 <= j < ids.len() && i != j implies ids[i]
        != ids[j] by {
        assert(list.contains(list[i]) && list.contains(list[j]));
        assert(table.contains(list[i]) && table.contains(list[j]));
        assert(list[i] != list[j]);
    }
    assert forall|f: Feed| #[trigger] table.contains(f) implies ids.contains(f.id) by {
        assert(list.contains(f));
        let i = choose|i: int| 0 <= i < list.len() && list[i] == f;
        assert(ids[i] == f.id);
    }
}

/// The identifiers that are read are those of the feeds that are listed, in an order of the same
/// sort: of two feeds, the one whose identifier comes first may stand first by title.
pub proof fn law_feed_ids_are_listed(table: Set<Feed>, feeds: Seq<Feed>, rows: Seq<Vec<Cell>>)
    requires
        feed_ids_differ(table),
        is_feed_list(table, feeds),
        answers_feed_ids(table, query_all(SELECT_FEED_IDS@, seq![Column::Integer]), rows),
    ensures
        forall|i: int|
            0 <= i < rows.len() ==> row_fits((#[trigger] rows[i])@, seq![Column::Integer]),
        forall|ids: Seq<FeedId>| #[trigger]
            rows_are_feed_ids(rows, ids) ==> ids.to_multiset() == ids_of(feeds).to_multiset(),
        forall|ids: Seq<FeedId>, i: int, j: int, a: Feed, b: Feed|
            #![trigger
                rows_are_feed_ids(rows, ids),
                ids[i],
                ids[j],
                table.contains(a),
                table.contains(b)
            ]
            rows_are_feed_ids(rows, ids) && 0 <= i < j < ids.len() && table.contains(a)
                && table.contains(b) && a.id == ids[i] && b.id == ids[j] ==> title_at_most(a, b),
{
    let list = choose|list: Seq<Feed>| #[trigger]
        is_feed_list(table, list) && rows_are_feed_ids(rows, ids_of(list));
    lemma_ids_of_list(table, list);
    lemma_ids_of_list(table, feeds);
    assert forall|i: int| 0 <= i < rows.len() implies row_fits(
        (#[trigger] rows[i])@,
        seq![Column::Integer],
    ) by {
        assert(rows[i]@ =~= seq![Cell::Integer(ids_of(list)[i].0)]);
    }
    assert forall|ids: Seq<FeedId>| #[trigger] rows_are_feed_ids(rows, ids) implies ids == ids_of(
        list,
    ) by {
        assert forall|i: int| 0 <= i < rows.len() implies ids[i] == ids_of(list)[i] by {
            assert(rows[i]@[0] == Cell::Integer(ids[i].0));
            assert(rows[i]@ =~= seq![Cell::Integer(ids_of(list)[i].0)]);
            assert(rows[i]@[0] == Cell::Integer(ids_of(list)[i].0));
        }
        assert(ids =~= ids_of(list));
    }
    assert forall|id: FeedId| ids_of(list).contains(id) <==> ids_of(feeds).contains(id) by {
        if ids_of(list).contains(id) {
            let i = choose|i: int| 0 <= i < ids_of(list).len() && ids_of(list)[i] == id;
            assert(list.contains(list[i]));
            assert(table.contains(list[i]));
        }
        if ids_of(feeds).contains(id) {
            let i = choose|i: int| 0 <= i < ids_of(feeds).len() && ids_of(feeds)[i] == id;
            assert(feeds.contains(feeds[i]));
            assert(table.contains(feeds[i]));
        }
    }
    lemma_same_elements(ids_of(list), ids_of(feeds));
    assert forall|ids: Seq<FeedId>, i: int, j: int, a: Feed, b: Feed|
        #![trigger
            rows_are_feed_ids(rows, ids),
            ids[i],
            ids[j],
            table.contains(a),
            table.contains(b)
        ]
        rows_are_feed_ids(rows, ids) && 0 <= i < j < ids.len() && table.contains(a)
            && table.contains(b) && a.id == ids[i] && b.id == ids[j] implies title_at_most(a, b) by {
        assert(list.contains(list[i]) && list.contains(list[j]));
        assert(table.contains(list[i]) && table.contains(list[j]));
        assert(a == list[i] && b == list[j]);
    }
}

/// A feed that is listed reads the same when it is asked for alone, and an identifier that no feed
/// has is not answered.
pub proof fn law_a_feed_reads_as_in_the_list(
    table: Set<Feed>,
    list: Seq<Feed>,
    id: FeedId,
    row: Seq<Cell>,
)
    requires
        feed_ids_differ(table),
        is_feed_list(table, list),
        answers_feed(table, query_by_id(SELECT_FEED@, id.0, feed_columns()), row),
    ensures
        holds_feed(row),
        exists|f: Feed| #[trigger] table.contains(f) && f.id == id,
        forall|alone: Feed, listed: Feed|
            #[trigger] row_is_feed(row, alone) && #[trigger] list.contains(listed) && listed.id
                == id ==> alone == listed,
{
    let query = query_by_id(SELECT_FEED@, id.0, feed_columns());
    let f = choose|f: Feed| #[trigger]
        table.contains(f) && query == query_by_id(SELECT_FEED@, f.id.0, feed_columns())
            && row_is_feed(row, f);
    assert(query.statement.params[0] == ParamView::Integer(id.0));
    assert(query.statement.params[0] == ParamView::Integer(f.id.0));
    assert forall|alone: Feed, listed: Feed|
        #[trigger] row_is_feed(row, alone) && #[trigger] list.contains(listed) && listed.id
            == id implies alone == listed by {
        law_a_row_holds_one_feed(row, alone, f);
        assert(table.contains(listed));
    }
}

/// The links that are read are those of the entries that the read mode shows, each in its place;
/// and rows that answer the query can be read.
pub proof fn law_links_are_listed(
    table: Set<EntryMetadata>,
    read_mode: ReadMode,
    feed_id: FeedId,
    rows: Seq<Vec<Cell>>,
)
    requires
        answers_entries_links(
            table,
            query_by_id(
                SELECT_ENTRIES_LINKS@ + read_at_predicate(read_mode) + NEWEST_FIRST@,
                feed_id.0,
                seq![Column::OptionalText],
            ),
            rows,
        ),
    ensures
        rows_hold_links(rows),
        exists|list: Seq<EntryMetadata>| #[trigger]
            is_entry_list(table, read_mode, feed_id, list) && rows_are_links(rows, list),
{
    let columns = seq![Column::OptionalText];
    let predicate = read_at_predicate(read_mode);
    let query = query_by_id(SELECT_ENTRIES_LINKS@ + predicate + NEWEST_FIRST@, feed_id.0, columns);
    let (condition, id, list) = choose|condition: Seq<char>, id: FeedId, list: Seq<EntryMetadata>|
        query == query_by_id(SELECT_ENTRIES_LINKS@ + condition + NEWEST_FIRST@, id.0, columns)
            && #[trigger] selects_entries(table, condition, id, list) && rows_are_links(rows, list);
    lemma_query_says_which(
        SELECT_ENTRIES_LINKS@,
        predicate,
        feed_id.0,
        condition,
        id.0,
        columns,
    );
    lemma_selected_is_list(table, read_mode, feed_id, list);
    assert forall|i: int| 0 <= i < rows.len() implies row_fits((#[trigger] rows[i])@, columns) by {
        assert(rows[i]@ =~= seq![Cell::Text(list[i].link)]);
    }
}

/// Whether an entry of a feed is stored under a link.
pub open spec fn is_stored(table: Set<EntryMetadata>, feed_id: FeedId, link: Seq<char>) -> bool {
    exists|e: EntryMetadata| #[trigger]
        table.contains(e) && e.feed_id == feed_id && (e.link matches Some(l) && l@ == link)
}

/// A refresh compares with all entries of the feed, read and unread: it stores a link exactly
/// where the link came in and no entry of the feed is stored under it.
pub proof fn law_a_refresh_stores_what_is_not_stored(
    table: Set<EntryMetadata>,
    feed_id: FeedId,
    rows: Seq<Vec<Cell>>,
    entries: Seq<IncomingEntryView>,
    link: Seq<char>,
)
    requires
        answers_entries_links(
            table,
            query_by_id(
                SELECT_ENTRIES_LINKS@ + AND_ANY@ + NEWEST_FIRST@,
                feed_id.0,
                seq![Column::OptionalText],
            ),
            rows,
        ),
    ensures
        rows_hold_links(rows),
        links_of(new_entries(entries, known_links(links_in_rows(rows)))).contains(Some(link))
            <==> links_of(entries).contains(Some(link)) && !is_stored(table, feed_id, link),
{
    law_links_are_listed(table, ReadMode::All, feed_id, rows);
    let list = choose|list: Seq<EntryMetadata>| #[trigger]
        is_entry_list(table, ReadMode::All, feed_id, list) && rows_are_links(rows, list);
    assert forall|i: int| 0 <= i < rows.len() implies (#[trigger] rows[i])@[0] == Cell::Text(
        list[i].link,
    ) by {
        assert(rows[i]@ =~= seq![Cell::Text(list[i].link)]);
    }
    let links = links_in_rows(rows);
    if is_stored(table, feed_id, link) {
        let e = choose|e: EntryMetadata| #[trigger]
            table.contains(e) && e.feed_id == feed_id && (e.link matches Some(l) && l@ == link);
        assert(list.contains(e));
        let i = choose|i: int| 0 <= i < list.len() && list[i] == e;
        assert(rows[i]@[0] == Cell::Text(list[i].link));
        assert(links[i] == Some(link));
    }
    if links.contains(Some(link)) {
        let i = choose|i: int| 0 <= i < links.len() && links[i] == Some(link);
        assert(rows[i]@[0] == Cell::Text(list[i].link));
        assert(list.contains(list[i]));
        assert(table.contains(list[i]));
    }
    law_new_entries_have_unknown_links(entries, known_links(links), link);
}

} // verus!
