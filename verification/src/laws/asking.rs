//! What is asked of the database, and what is read from its rows.
use super::same_opt;
use super::storing::asks_for;
use crate::feed::{EntryContent, EntryId, EntryMetadata, Feed, FeedId, FeedKind};
use crate::modes::ReadMode;
use crate::queries::{
    cell_fits, entries_metas_from_rows, entry_meta_columns, feed_columns, feed_ids_from_rows,
    feeds_from_rows, get_entries_links, get_entries_metas, get_entry_content, get_entry_meta,
    get_feed, get_feed_ids, get_feed_latest_etag, get_feed_url, get_feeds, has_shape,
    opt_text_from_row, opt_texts_from_rows, query_by_id, reads_as_feed, row_fits, row_is_entry_meta,
    row_is_feed, text_from_row, RowError,
};
use crate::sql::{Cell, Column, Query};
use vstd::prelude::*;

verus! {

proof fn lemma_asks(query: Query, sql: Seq<char>, id: i64, columns: Seq<Column>)
    requires
        query@ == query_by_id(sql, id, columns),
    ensures
        asks_for(query, sql, id),
        query.columns@ == columns,
{
    assert(query@.statement.params.len() == query.statement.params.len());
    assert(query.statement.params[0]@ == query@.statement.params[0]);
}

/// Whether a query asks this text, for nothing in particular.
pub open spec fn asks(query: Query, sql: Seq<char>) -> bool {
    query.statement.sql@ == sql && query.statement.params.len() == 0
}

/// Whether these are the columns of a feed: its identifier, its title, its address, its link, its
/// kind, three times and its entity tag. The kind and the last two times are always there.
pub open spec fn are_feed_columns(c: Seq<Column>) -> bool {
    &&& c.len() == 9
    &&& c[0] is Integer
    &&& c[1] is OptionalText
    &&& c[2] is OptionalText
    &&& c[3] is OptionalText
    &&& c[4] is Text
    &&& c[5] is OptionalTime
    &&& c[6] is Time
    &&& c[7] is Time
    &&& c[8] is OptionalText
}

/// Whether these are the columns of the metadata of an entry: two identifiers, its title, its
/// author, a date, its link and three times. The last two times are always there.
pub open spec fn are_entry_columns(c: Seq<Column>) -> bool {
    &&& c.len() == 9
    &&& c[0] is Integer
    &&& c[1] is Integer
    &&& c[2] is OptionalText
    &&& c[3] is OptionalText
    &&& c[4] is OptionalTime
    &&& c[5] is OptionalText
    &&& c[6] is OptionalTime
    &&& c[7] is Time
    &&& c[8] is Time
}

/// One feed is asked for by its identifier, with all its columns; so are its address and its
/// entity tag.
pub proof fn law_a_feed_is_asked_for_by_its_identifier(
    id: FeedId,
    feed: Query,
    url: Query,
    etag: Query,
)
    requires
        call_ensures(get_feed, (id,), feed),
        call_ensures(get_feed_url, (id,), url),
        call_ensures(get_feed_latest_etag, (id,), etag),
    ensures
        asks_for(
            feed,
            "SELECT id, title, feed_link, link, feed_kind, refreshed_at, inserted_at, updated_at, latest_etag FROM feeds WHERE id=?1"@,
            id.0,
        ),
        are_feed_columns(feed.columns@),
        asks_for(url, "SELECT feed_link FROM feeds WHERE id=?1"@, id.0),
        url.columns@ == seq![Column::Text],
        asks_for(etag, "SELECT latest_etag FROM feeds WHERE id=?1"@, id.0),
        etag.columns@ == seq![Column::OptionalText],
{
    lemma_asks(feed, crate::queries::SELECT_FEED@, id.0, feed_columns());
    lemma_asks(url, crate::queries::SELECT_FEED_URL@, id.0, seq![Column::Text]);
    lemma_asks(etag, crate::queries::SELECT_ETAG@, id.0, seq![Column::OptionalText]);
}

/// All feeds are asked for, and their identifiers, in one order: by title, without regard to case.
pub proof fn law_all_feeds_are_asked_for(feeds: Query, ids: Query)
    requires
        call_ensures(get_feeds, (), feeds),
        call_ensures(get_feed_ids, (), ids),
    ensures
        asks(
            feeds,
            "SELECT 
          id, 
          title, 
          feed_link, 
          link, 
          feed_kind, 
          refreshed_at, 
          inserted_at, 
          updated_at,
          latest_etag
        FROM feeds ORDER BY lower(title) ASC"@,
        ),
        are_feed_columns(feeds.columns@),
        asks(ids, "SELECT id FROM feeds ORDER BY lower(title) ASC"@),
        ids.columns@ == seq![Column::Integer],
{
    assert(feeds@.statement.params.len() == feeds.statement.params.len());
    assert(ids@.statement.params.len() == ids.statement.params.len());
}

/// One entry is asked for by its identifier, its metadata and its content apart.
pub proof fn law_an_entry_is_asked_for_by_its_identifier(
    id: EntryId,
    meta: Query,
    content: Query,
)
    requires
        call_ensures(get_entry_meta, (id,), meta),
        call_ensures(get_entry_content, (id,), content),
    ensures
        asks_for(
            meta,
            "SELECT 
          id, 
          feed_id, 
          title, 
          author, 
          pub_date, 
          link, 
          read_at, 
          inserted_at, 
          updated_at 
        FROM entries WHERE id=?1"@,
            id.0,
        ),
        are_entry_columns(meta.columns@),
        asks_for(content, "SELECT content, description FROM entries WHERE id=?1"@, id.0),
        content.columns@ == seq![Column::OptionalText, Column::OptionalText],
{
    lemma_asks(meta, crate::queries::SELECT_ENTRY_META@, id.0, entry_meta_columns());
    lemma_asks(
        content,
        crate::queries::SELECT_ENTRY_CONTENT@,
        id.0,
        seq![Column::OptionalText, Column::OptionalText],
    );
}

/// The condition by which a read mode picks entries.
pub open spec fn condition_of(read_mode: ReadMode) -> Seq<char> {
    match read_mode {
        ReadMode::ShowUnread => "\nAND read_at IS NULL"@,
        ReadMode::ShowRead => "\nAND read_at IS NOT NULL"@,
        ReadMode::All => "\n"@,
    }
}

/// The entries of a feed are asked for by its identifier and by the condition of the read mode, the
/// newest first; and so are their links.
pub proof fn law_entries_are_asked_for_by_read_mode(
    read_mode: ReadMode,
    id: FeedId,
    metas: Query,
    links: Query,
)
    requires
        call_ensures(get_entries_metas, (&read_mode, id), metas),
        call_ensures(get_entries_links, (&read_mode, id), links),
    ensures
        asks_for(
            metas,
            "SELECT 
        id, 
        feed_id, 
        title, 
        author, 
        pub_date, 
        link, 
        read_at, 
        inserted_at, 
        updated_at 
        FROM entries 
        WHERE feed_id=?1"@ + condition_of(read_mode)
                + "\nORDER BY pub_date DESC, inserted_at DESC"@,
            id.0,
        ),
        are_entry_columns(metas.columns@),
        asks_for(
            links,
            "SELECT link FROM entries WHERE feed_id=?1"@ + condition_of(read_mode)
                + "\nORDER BY pub_date DESC, inserted_at DESC"@,
            id.0,
        ),
        links.columns@ == seq![Column::OptionalText],
{
    let condition = crate::queries::read_at_predicate(read_mode);
    let order = crate::queries::NEWEST_FIRST@;
    lemma_asks(
        metas,
        crate::queries::SELECT_ENTRIES_METAS@ + condition + order,
        id.0,
        entry_meta_columns(),
    );
    lemma_asks(
        links,
        crate::queries::SELECT_ENTRIES_LINKS@ + condition + order,
        id.0,
        seq![Column::OptionalText],
    );
}

/// Whether a cell is what a column gives: of the same sort, and there where it has to be.
pub open spec fn is_of(cell: Cell, column: Column) -> bool {
    match column {
        Column::Integer => cell is Integer,
        Column::Text => cell is Text && cell->Text_0 is Some,
        Column::OptionalText => cell is Text,
        Column::Time => cell is Time && cell->Time_0 is Some,
        Column::OptionalTime => cell is Time,
    }
}

/// A row has the shape of a list of columns exactly where it has as many cells, each of the sort of
/// its column.
pub proof fn law_rows_have_shapes(row: Vec<Cell>, columns: Vec<Column>, r: bool)
    requires
        call_ensures(has_shape, (&row, &columns), r),
    ensures
        r <==> row.len() == columns.len() && forall|i: int|
            0 <= i < row.len() ==> is_of(#[trigger] row[i], columns[i]),
{
    if r {
        assert forall|i: int| 0 <= i < row.len() implies is_of(#[trigger] row[i], columns[i]) by {
            assert(cell_fits(row@[i], columns@[i]));
        }
    }
    if row.len() == columns.len() && forall|i: int|
        0 <= i < row.len() ==> is_of(#[trigger] row[i], columns[i]) {
        assert forall|i: int| 0 <= i < row@.len() implies cell_fits(
            #[trigger] row@[i],
            columns@[i],
        ) by {
            assert(is_of(row[i], columns[i]));
        }
    }
}

/// Whether a row has the cells of a feed, whatever its kind is called.
pub open spec fn is_feed_row(row: Seq<Cell>) -> bool {
    &&& row.len() == 9
    &&& row[0] is Integer
    &&& row[1] is Text
    &&& row[2] is Text
    &&& row[3] is Text
    &&& row[4] is Text && row[4]->Text_0 is Some
    &&& row[5] is Time
    &&& row[6] is Time && row[6]->Time_0 is Some
    &&& row[7] is Time && row[7]->Time_0 is Some
    &&& row[8] is Text
}

/// The name of a kind in a row of a feed.
pub open spec fn kind_in(row: Seq<Cell>) -> Seq<char> {
    row[4]->Text_0->0@
}

/// Whether a feed is what a row says, column by column.
pub open spec fn is_feed_of(feed: Feed, row: Seq<Cell>) -> bool {
    &&& row[0] == Cell::Integer(feed.id.0)
    &&& same_opt(row[1]->Text_0, feed.title)
    &&& same_opt(row[2]->Text_0, feed.feed_link)
    &&& same_opt(row[3]->Text_0, feed.link)
    &&& kind_in(row) == match feed.feed_kind {
        FeedKind::Atom => "Atom"@,
        FeedKind::Rss => "RSS"@,
    }
    &&& row[5] == Cell::Time(feed.refreshed_at)
    &&& row[6] == Cell::Time(Some(feed.inserted_at))
    &&& row[7] == Cell::Time(Some(feed.updated_at))
    &&& same_opt(row[8]->Text_0, feed.latest_etag)
}

/// What came of reading a row as a feed: the feed that it says; an error where it is no such row;
/// and an error that tells the name where that names no kind.
pub open spec fn reads_feed(row: Seq<Cell>, r: Result<Feed, RowError>) -> bool {
    if !is_feed_row(row) {
        r matches Err(e) && e is Shape
    } else if kind_in(row) == "Atom"@ || kind_in(row) == "RSS"@ {
        r matches Ok(feed) && is_feed_of(feed, row)
    } else {
        r matches Err(RowError::Kind(e)) && e.text@ == kind_in(row)
    }
}

proof fn lemma_feed_row(row: Seq<Cell>)
    ensures
        row_fits(row, feed_columns()) <==> is_feed_row(row),
{
    let c = feed_columns();
    if row_fits(row, c) {
        assert(cell_fits(row[0], c[0]));
        assert(cell_fits(row[1], c[1]));
        assert(cell_fits(row[2], c[2]));
        assert(cell_fits(row[3], c[3]));
        assert(cell_fits(row[4], c[4]));
        assert(cell_fits(row[5], c[5]));
        assert(cell_fits(row[6], c[6]));
        assert(cell_fits(row[7], c[7]));
        assert(cell_fits(row[8], c[8]));
    }
}

proof fn lemma_reads_feed(row: Seq<Cell>, r: Result<Feed, RowError>)
    requires
        reads_as_feed(row, r),
    ensures
        reads_feed(row, r),
{
    lemma_feed_row(row);
    reveal_strlit("Atom");
    reveal_strlit("RSS");
    assert("Atom"@.len() != "RSS"@.len());
}

/// A feed is read from a row column by column.
pub proof fn law_a_feed_is_read_from_its_row(row: Vec<Cell>, r: Result<Feed, RowError>)
    requires
        call_ensures(Feed::from_row, (&row,), r),
    ensures
        reads_feed(row@, r),
{
    lemma_reads_feed(row@, r);
}

/// Whether a row has the cells of the metadata of an entry.
pub open spec fn is_entry_row(row: Seq<Cell>) -> bool {
    &&& row.len() == 9
    &&& row[0] is Integer
    &&& row[1] is Integer
    &&& row[2] is Text
    &&& row[3] is Text
    &&& row[4] is Time
    &&& row[5] is Text
    &&& row[6] is Time
    &&& row[7] is Time && row[7]->Time_0 is Some
    &&& row[8] is Time && row[8]->Time_0 is Some
}

/// Whether metadata is what a row says, column by column.
pub open spec fn is_entry_of(entry: EntryMetadata, row: Seq<Cell>) -> bool {
    &&& row[0] == Cell::Integer(entry.id.0)
    &&& row[1] == Cell::Integer(entry.feed_id.0)
    &&& same_opt(row[2]->Text_0, entry.title)
    &&& same_opt(row[3]->Text_0, entry.author)
    &&& row[4] == Cell::Time(entry.pub_date)
    &&& same_opt(row[5]->Text_0, entry.link)
    &&& row[6] == Cell::Time(entry.read_at)
    &&& row[7] == Cell::Time(Some(entry.inserted_at))
    &&& row[8] == Cell::Time(Some(entry.updated_at))
}

proof fn lemma_entry_row(row: Seq<Cell>)
    ensures
        row_fits(row, entry_meta_columns()) <==> is_entry_row(row),
{
    let c = entry_meta_columns();
    if row_fits(row, c) {
        assert(cell_fits(row[0], c[0]));
        assert(cell_fits(row[1], c[1]));
        assert(cell_fits(row[2], c[2]));
        assert(cell_fits(row[3], c[3]));
        assert(cell_fits(row[4], c[4]));
        assert(cell_fits(row[5], c[5]));
        assert(cell_fits(row[6], c[6]));
        assert(cell_fits(row[7], c[7]));
        assert(cell_fits(row[8], c[8]));
    }
}

/// The metadata of an entry is read from a row column by column.
pub proof fn law_an_entry_is_read_from_its_row(row: Vec<Cell>, r: Result<EntryMetadata, RowError>)
    requires
        call_ensures(EntryMetadata::from_row, (&row,), r),
    ensures
        is_entry_row(row@) ==> (r matches Ok(entry) && is_entry_of(entry, row@)),
        !is_entry_row(row@) ==> (r matches Err(e) && e is Shape),
{
    lemma_entry_row(row@);
}

/// Whether a row is one text.
pub open spec fn is_text_row(row: Seq<Cell>) -> bool {
    row.len() == 1 && row[0] is Text && row[0]->Text_0 is Some
}

/// Whether a row is one text or NULL.
pub open spec fn is_opt_text_row(row: Seq<Cell>) -> bool {
    row.len() == 1 && row[0] is Text
}

proof fn lemma_text_rows(row: Seq<Cell>)
    ensures
        row_fits(row, seq![Column::Text]) <==> is_text_row(row),
        row_fits(row, seq![Column::OptionalText]) <==> is_opt_text_row(row),
        row_fits(row, seq![Column::Integer]) <==> row.len() == 1 && row[0] is Integer,
        row_fits(row, seq![Column::OptionalText, Column::OptionalText]) <==> row.len() == 2
            && row[0] is Text && row[1] is Text,
{
    if row_fits(row, seq![Column::Text]) {
        assert(cell_fits(row[0], seq![Column::Text][0]));
    }
    if row_fits(row, seq![Column::OptionalText]) {
        assert(cell_fits(row[0], seq![Column::OptionalText][0]));
    }
    if row_fits(row, seq![Column::Integer]) {
        assert(cell_fits(row[0], seq![Column::Integer][0]));
    }
    let two = seq![Column::OptionalText, Column::OptionalText];
    if row_fits(row, two) {
        assert(cell_fits(row[0], two[0]));
        assert(cell_fits(row[1], two[1]));
    }
}

/// The content of an entry is the first of two texts, and its description is the second.
pub proof fn law_content_is_read_from_its_row(row: Vec<Cell>, r: Result<EntryContent, RowError>)
    requires
        call_ensures(EntryContent::from_row, (&row,), r),
    ensures
        row.len() == 2 && row[0] is Text && row[1] is Text ==> (r matches Ok(c) && same_opt(
            row[0]->Text_0,
            c.content,
        ) && same_opt(row[1]->Text_0, c.description)),
        !(row.len() == 2 && row[0] is Text && row[1] is Text) ==> (r matches Err(e) && e is Shape),
{
    lemma_text_rows(row@);
    if let Ok(c) = r {
        assert(row@ =~= seq![Cell::Text(c.content), Cell::Text(c.description)]);
        assert(row@[0] == Cell::Text(c.content));
        assert(row@[1] == Cell::Text(c.description));
    }
}

/// One text, and one text or NULL, are read from their rows.
pub proof fn law_texts_are_read_from_their_rows(
    row: Vec<Cell>,
    a: Result<String, RowError>,
    b: Result<Option<String>, RowError>,
)
    requires
        call_ensures(text_from_row, (&row,), a),
        call_ensures(opt_text_from_row, (&row,), b),
    ensures
        is_text_row(row@) ==> (a matches Ok(text) && text@ == row[0]->Text_0->0@),
        !is_text_row(row@) ==> (a matches Err(e) && e is Shape),
        is_opt_text_row(row@) ==> (b matches Ok(text) && same_opt(row[0]->Text_0, text)),
        !is_opt_text_row(row@) ==> (b matches Err(e) && e is Shape),
{
    lemma_text_rows(row@);
    if let Ok(text) = a {
        assert(row@ =~= seq![Cell::Text(Some(text))]);
        assert(row@[0] == Cell::Text(Some(text)));
    }
    if let Ok(text) = b {
        assert(row@ =~= seq![Cell::Text(text)]);
        assert(row@[0] == Cell::Text(text));
    }
}

/// Feeds are read from all rows, each from its own; the first row that holds none is told.
pub proof fn law_feeds_are_read_from_all_rows(rows: Vec<Vec<Cell>>, r: Result<Vec<Feed>, RowError>)
    requires
        call_ensures(feeds_from_rows, (&rows,), r),
    ensures
        match r {
            Ok(feeds) => feeds.len() == rows.len() && forall|i: int|
                0 <= i < rows.len() ==> is_feed_row((#[trigger] rows[i])@) && is_feed_of(
                    feeds[i],
                    rows[i]@,
                ),
            Err(e) => exists|i: int|
                0 <= i < rows.len() && reads_feed((#[trigger] rows[i])@, Err(e)) && forall|j: int|
                    0 <= j < i ==> is_feed_row((#[trigger] rows[j])@) && (kind_in(rows[j]@)
                        == "Atom"@ || kind_in(rows[j]@) == "RSS"@),
        },
{
    match r {
        Ok(feeds) => {
            assert forall|i: int| 0 <= i < rows.len() implies is_feed_row((#[trigger] rows[i])@)
                && is_feed_of(feeds[i], rows[i]@) by {
                assert(row_is_feed(rows@[i]@, feeds@[i]));
                lemma_feed_row(rows[i]@);
            }
        },
        Err(e) => {
            let i = choose|i: int|
                0 <= i < rows.len() && reads_as_feed(#[trigger] rows[i]@, Err(e)) && forall|j: int|
                    0 <= j < i ==> crate::queries::holds_feed(#[trigger] rows[j]@);
            lemma_reads_feed(rows[i]@, Err(e));
            assert forall|j: int| 0 <= j < i implies is_feed_row((#[trigger] rows[j])@) && (kind_in(
                rows[j]@,
            ) == "Atom"@ || kind_in(rows[j]@) == "RSS"@) by {
                assert(crate::queries::holds_feed(rows[j]@));
                lemma_feed_row(rows[j]@);
            }
        },
    }
}

/// Identifiers are read from all rows, each from its own; a row that holds none is an error, and
/// there is no other.
pub proof fn law_identifiers_are_read_from_all_rows(
    rows: Vec<Vec<Cell>>,
    r: Result<Vec<FeedId>, RowError>,
)
    requires
        call_ensures(feed_ids_from_rows, (&rows,), r),
    ensures
        match r {
            Ok(ids) => ids.len() == rows.len() && forall|i: int|
                0 <= i < rows.len() ==> (#[trigger] rows[i]).len() == 1 && rows[i][0]
                    == Cell::Integer(ids[i].0),
            Err(e) => e is Shape && exists|i: int|
                0 <= i < rows.len() && !((#[trigger] rows[i]).len() == 1 && rows[i][0] is Integer),
        },
{
    match r {
        Ok(ids) => {
            assert forall|i: int| 0 <= i < rows.len() implies (#[trigger] rows[i]).len() == 1
                && rows[i][0] == Cell::Integer(ids[i].0) by {
                assert(rows@[i]@ =~= seq![Cell::Integer(ids@[i].0)]);
                assert(rows@[i]@[0] == Cell::Integer(ids@[i].0));
            }
        },
        Err(_) => {
            let i = choose|i: int|
                0 <= i < rows.len() && !row_fits((#[trigger] rows[i])@, seq![Column::Integer]);
            lemma_text_rows(rows[i]@);
            assert(!(rows[i].len() == 1 && rows[i][0] is Integer));
        },
    }
}

/// The metadata of entries is read from all rows, each from its own; a row that holds none is an
/// error, and there is no other.
pub proof fn law_entries_are_read_from_all_rows(
    rows: Vec<Vec<Cell>>,
    r: Result<Vec<EntryMetadata>, RowError>,
)
    requires
        call_ensures(entries_metas_from_rows, (&rows,), r),
    ensures
        match r {
            Ok(entries) => entries.len() == rows.len() && forall|i: int|
                0 <= i < rows.len() ==> is_entry_row((#[trigger] rows[i])@) && is_entry_of(
                    entries[i],
                    rows[i]@,
                ),
            Err(e) => e is Shape && exists|i: int|
                0 <= i < rows.len() && !is_entry_row((#[trigger] rows[i])@),
        },
{
    match r {
        Ok(entries) => {
            assert forall|i: int| 0 <= i < rows.len() implies is_entry_row((#[trigger] rows[i])@)
                && is_entry_of(entries[i], rows[i]@) by {
                assert(row_is_entry_meta(rows@[i]@, entries@[i]));
                lemma_entry_row(rows[i]@);
            }
        },
        Err(_) => {
            let i = choose|i: int|
                0 <= i < rows.len() && !row_fits((#[trigger] rows[i])@, entry_meta_columns());
            lemma_entry_row(rows[i]@);
            assert(!is_entry_row(rows[i]@));
        },
    }
}

/// Links are read from all rows, each from its own; a row that holds neither a text nor NULL is an
/// error, and there is no other.
pub proof fn law_links_are_read_from_all_rows(
    rows: Vec<Vec<Cell>>,
    r: Result<Vec<Option<String>>, RowError>,
)
    requires
        call_ensures(opt_texts_from_rows, (&rows,), r),
    ensures
        match r {
            Ok(texts) => texts.len() == rows.len() && forall|i: int|
                0 <= i < rows.len() ==> is_opt_text_row((#[trigger] rows[i])@) && same_opt(
                    rows[i][0]->Text_0,
                    texts[i],
                ),
            Err(e) => e is Shape && exists|i: int|
                0 <= i < rows.len() && !is_opt_text_row((#[trigger] rows[i])@),
        },
{
    match r {
        Ok(texts) => {
            assert forall|i: int| 0 <= i < rows.len() implies is_opt_text_row((#[trigger] rows[i])@)
                && same_opt(rows[i][0]->Text_0, texts[i]) by {
                assert(rows[i]@ =~= seq![Cell::Text(texts[i])]);
                assert(rows[i]@[0] == Cell::Text(texts[i]));
            }
        },
        Err(_) => {
            let i = choose|i: int|
                0 <= i < rows.len() && !row_fits((#[trigger] rows[i])@, seq![Column::OptionalText]);
            lemma_text_rows(rows[i]@);
            assert(!is_opt_text_row(rows[i]@));
        },
    }
}

} // verus!
