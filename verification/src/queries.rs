//! The questions that the reader asks of its database, and how the rows that answer them
//! become feeds and entries.
use crate::feed::{
    feed_kind_named, EntryContent, EntryId, EntryMetadata, Feed, FeedId, FeedKind, FeedKindError,
};
use crate::modes::ReadMode;
use crate::sql::{
    statement1, Cell, Column, Param, ParamView, Query, QueryView, Statement, StatementView,
};
use crate::text::copy_opt;
use crate::time::Timestamp;
use vstd::prelude::*;

verus! {

pub const SELECT_FEED: &'static str = "SELECT id, title, feed_link, link, feed_kind, refreshed_at, inserted_at, updated_at, latest_etag FROM feeds WHERE id=?1";

pub const SELECT_FEEDS: &'static str = "SELECT 
          id, 
          title, 
          feed_link, 
          link, 
          feed_kind, 
          refreshed_at, 
          inserted_at, 
          updated_at,
          latest_etag
        FROM feeds ORDER BY lower(title) ASC";

pub const SELECT_FEED_IDS: &'static str = "SELECT id FROM feeds ORDER BY lower(title) ASC";

pub const SELECT_FEED_URL: &'static str = "SELECT feed_link FROM feeds WHERE id=?1";

pub const SELECT_ETAG: &'static str = "SELECT latest_etag FROM feeds WHERE id=?1";

pub const SELECT_ENTRY_META: &'static str = "SELECT 
          id, 
          feed_id, 
          title, 
          author, 
          pub_date, 
          link, 
          read_at, 
          inserted_at, 
          updated_at 
        FROM entries WHERE id=?1";

pub const SELECT_ENTRY_CONTENT: &'static str = "SELECT content, description FROM entries WHERE id=?1";

pub const SELECT_ENTRIES_METAS: &'static str = "SELECT 
        id, 
        feed_id, 
        title, 
        author, 
        pub_date, 
        link, 
        read_at, 
        inserted_at, 
        updated_at 
        FROM entries 
        WHERE feed_id=?1";

pub const SELECT_ENTRIES_LINKS: &'static str = "SELECT link FROM entries WHERE feed_id=?1";

pub const AND_UNREAD: &'static str = "\nAND read_at IS NULL";

pub const AND_READ: &'static str = "\nAND read_at IS NOT NULL";

pub const AND_ANY: &'static str = "\n";

/// Feeds give publication dates in odd formats, so the time of insertion comes second, as it
/// is a stable order at least.
pub const NEWEST_FIRST: &'static str = "\nORDER BY pub_date DESC, inserted_at DESC";

/// The condition that picks the entries of a read mode.
pub open spec fn read_at_predicate(read_mode: ReadMode) -> Seq<char> {
    match read_mode {
        ReadMode::ShowUnread => AND_UNREAD@,
        ReadMode::ShowRead => AND_READ@,
        ReadMode::All => AND_ANY@,
    }
}

/// The columns of a feed.
pub open spec fn feed_columns() -> Seq<Column> {
    seq![
        Column::Integer,
        Column::OptionalText,
        Column::OptionalText,
        Column::OptionalText,
        Column::Text,
        Column::OptionalTime,
        Column::Time,
        Column::Time,
        Column::OptionalText,
    ]
}

/// The columns of the metadata of an entry.
pub open spec fn entry_meta_columns() -> Seq<Column> {
    seq![
        Column::Integer,
        Column::Integer,
        Column::OptionalText,
        Column::OptionalText,
        Column::OptionalTime,
        Column::OptionalText,
        Column::OptionalTime,
        Column::Time,
        Column::Time,
    ]
}

/// A query for what one identifier names.
pub open spec fn query_by_id(sql: Seq<char>, id: i64, columns: Seq<Column>) -> QueryView {
    QueryView {
        statement: StatementView { sql, params: seq![ParamView::Integer(id)] },
        columns,
    }
}

/// A query without parameters.
pub open spec fn query_all(sql: Seq<char>, columns: Seq<Column>) -> QueryView {
    QueryView { statement: StatementView { sql, params: Seq::empty() }, columns }
}

fn feed_column_list() -> (v: Vec<Column>)
    ensures
        v@ == feed_columns(),
{
    let v = vec![
        Column::Integer,
        Column::OptionalText,
        Column::OptionalText,
        Column::OptionalText,
        Column::Text,
        Column::OptionalTime,
        Column::Time,
        Column::Time,
        Column::OptionalText,
    ];
    proof {
        assert(v@ =~= feed_columns());
    }
    v
}

fn entry_meta_column_list() -> (v: Vec<Column>)
    ensures
        v@ == entry_meta_columns(),
{
    let v = vec![
        Column::Integer,
        Column::Integer,
        Column::OptionalText,
        Column::OptionalText,
        Column::OptionalTime,
        Column::OptionalText,
        Column::OptionalTime,
        Column::Time,
        Column::Time,
    ];
    proof {
        assert(v@ =~= entry_meta_columns());
    }
    v
}

fn by_id(sql: &str, id: i64, columns: Vec<Column>) -> (q: Query)
    ensures
        q@ == query_by_id(sql@, id, columns@),
{
    Query { statement: statement1(sql, Param::Integer(id)), columns }
}

fn all(sql: &str, columns: Vec<Column>) -> (q: Query)
    ensures
        q@ == query_all(sql@, columns@),
{
    let params: Vec<Param> = Vec::new();
    let q = Query { statement: Statement { sql: sql.to_owned(), params }, columns };
    proof {
        assert(q@.statement.params =~= Seq::<ParamView>::empty());
    }
    q
}

fn one_column(column: Column) -> (v: Vec<Column>)
    ensures
        v@ == seq![column],
{
    let v = vec![column];
    proof {
        assert(v@ =~= seq![column]);
    }
    v
}

/// Asks for a feed. The answer is one row, for `Feed::from_row`.
pub fn get_feed(feed_id: FeedId) -> (q: Query)
    ensures
        q@ == query_by_id(SELECT_FEED@, feed_id.0, feed_columns()),
{
    by_id(SELECT_FEED, feed_id.0, feed_column_list())
}

/// Asks for all feeds, ordered by title without regard to case. The answer is for
/// `feeds_from_rows`.
pub fn get_feeds() -> (q: Query)
    ensures
        q@ == query_all(SELECT_FEEDS@, feed_columns()),
{
    all(SELECT_FEEDS, feed_column_list())
}

/// Asks for the identifiers of all feeds, in the order of `get_feeds`. The answer is for
/// `feed_ids_from_rows`.
pub fn get_feed_ids() -> (q: Query)
    ensures
        q@ == query_all(SELECT_FEED_IDS@, seq![Column::Integer]),
{
    all(SELECT_FEED_IDS, one_column(Column::Integer))
}

/// Asks for the address of a feed. The answer is one row, for `text_from_row`.
pub fn get_feed_url(feed_id: FeedId) -> (q: Query)
    ensures
        q@ == query_by_id(SELECT_FEED_URL@, feed_id.0, seq![Column::Text]),
{
    by_id(SELECT_FEED_URL, feed_id.0, one_column(Column::Text))
}

/// Asks for the entity tag that a feed was last served under. The answer is one row, for
/// `opt_text_from_row`.
pub fn get_feed_latest_etag(feed_id: FeedId) -> (q: Query)
    ensures
        q@ == query_by_id(SELECT_ETAG@, feed_id.0, seq![Column::OptionalText]),
{
    by_id(SELECT_ETAG, feed_id.0, one_column(Column::OptionalText))
}

/// Asks for the metadata of an entry. The answer is one row, for `EntryMetadata::from_row`.
pub fn get_entry_meta(entry_id: EntryId) -> (q: Query)
    ensures
        q@ == query_by_id(SELECT_ENTRY_META@, entry_id.0, entry_meta_columns()),
{
    by_id(SELECT_ENTRY_META, entry_id.0, entry_meta_column_list())
}

/// Asks for the content of an entry. The answer is one row, for `EntryContent::from_row`.
pub fn get_entry_content(entry_id: EntryId) -> (q: Query)
    ensures
        q@ == query_by_id(
            SELECT_ENTRY_CONTENT@,
            entry_id.0,
            seq![Column::OptionalText, Column::OptionalText],
        ),
{
    let mut columns = one_column(Column::OptionalText);
    columns.push(Column::OptionalText);
    proof {
        assert(columns@ =~= seq![Column::OptionalText, Column::OptionalText]);
    }
    by_id(SELECT_ENTRY_CONTENT, entry_id.0, columns)
}

fn entries_sql(select: &str, read_mode: &ReadMode) -> (sql: String)
    ensures
        sql@ == select@ + read_at_predicate(*read_mode) + NEWEST_FIRST@,
{
    let predicate = match read_mode {
        ReadMode::ShowUnread => AND_UNREAD,
        ReadMode::ShowRead => AND_READ,
        ReadMode::All => AND_ANY,
    };
    let mut sql = select.to_owned();
    sql.append(predicate);
    sql.append(NEWEST_FIRST);
    sql
}

/// Asks for the metadata of the entries of a feed that a read mode shows, the newest first.
/// The answer is for `entries_metas_from_rows`.
pub fn get_entries_metas(read_mode: &ReadMode, feed_id: FeedId) -> (q: Query)
    ensures
        q@ == query_by_id(
            SELECT_ENTRIES_METAS@ + read_at_predicate(*read_mode) + NEWEST_FIRST@,
            feed_id.0,
            entry_meta_columns(),
        ),
{
    let sql = entries_sql(SELECT_ENTRIES_METAS, read_mode);
    by_id(sql.as_str(), feed_id.0, entry_meta_column_list())
}

/// Asks for the links of the entries of a feed that a read mode shows, in the order of
/// `get_entries_metas`. The answer is for `opt_texts_from_rows`.
pub fn get_entries_links(read_mode: &ReadMode, feed_id: FeedId) -> (q: Query)
    ensures
        q@ == query_by_id(
            SELECT_ENTRIES_LINKS@ + read_at_predicate(*read_mode) + NEWEST_FIRST@,
            feed_id.0,
            seq![Column::OptionalText],
        ),
{
    let sql = entries_sql(SELECT_ENTRIES_LINKS, read_mode);
    by_id(sql.as_str(), feed_id.0, one_column(Column::OptionalText))
}

/// A row that is not what was asked for.
#[derive(Clone, Debug)]
pub enum RowError {
    /// The number of the cells, or the sort of one of them, is not that of the columns.
    Shape,
    /// The row names no kind of feed.
    Kind(FeedKindError),
}

/// Whether a cell can have come from a column.
pub open spec fn cell_fits(cell: Cell, column: Column) -> bool {
    match column {
        Column::Integer => cell is Integer,
        Column::Text => cell matches Cell::Text(t) && t is Some,
        Column::OptionalText => cell is Text,
        Column::Time => cell matches Cell::Time(t) && t is Some,
        Column::OptionalTime => cell is Time,
    }
}

/// Whether a row can have come from a list of columns.
pub open spec fn row_fits(row: Seq<Cell>, columns: Seq<Column>) -> bool {
    &&& row.len() == columns.len()
    &&& forall|i: int| 0 <= i < row.len() ==> cell_fits(#[trigger] row[i], columns[i])
}

/// Whether a row of `feed_columns` holds a feed.
pub open spec fn row_is_feed(row: Seq<Cell>, feed: Feed) -> bool {
    &&& row_fits(row, feed_columns())
    &&& row[0] == Cell::Integer(feed.id.0)
    &&& row[1] == Cell::Text(feed.title)
    &&& row[2] == Cell::Text(feed.feed_link)
    &&& row[3] == Cell::Text(feed.link)
    &&& row_kind(row) == Some(feed.feed_kind)
    &&& row[5] == Cell::Time(feed.refreshed_at)
    &&& row[6] == Cell::Time(Some(feed.inserted_at))
    &&& row[7] == Cell::Time(Some(feed.updated_at))
    &&& row[8] == Cell::Text(feed.latest_etag)
}

/// The text for the kind of feed in a row of `feed_columns`.
pub open spec fn row_kind_text(row: Seq<Cell>) -> Seq<char> {
    row[4]->Text_0->0@
}

/// The kind of feed that a row of `feed_columns` names.
pub open spec fn row_kind(row: Seq<Cell>) -> Option<FeedKind> {
    feed_kind_named(row_kind_text(row))
}

/// Whether a row can be read as a feed.
pub open spec fn holds_feed(row: Seq<Cell>) -> bool {
    row_fits(row, feed_columns()) && row_kind(row) is Some
}

/// What reading a row of `feed_columns` gives.
pub open spec fn reads_as_feed(row: Seq<Cell>, r: Result<Feed, RowError>) -> bool {
    match r {
        Ok(feed) => row_is_feed(row, feed),
        Err(RowError::Shape) => !row_fits(row, feed_columns()),
        Err(RowError::Kind(e)) => row_fits(row, feed_columns()) && row_kind(row) is None
            && e.text@ == row_kind_text(row),
    }
}

/// Whether a row of `entry_meta_columns` holds the metadata of an entry.
pub open spec fn row_is_entry_meta(row: Seq<Cell>, entry: EntryMetadata) -> bool {
    &&& row_fits(row, entry_meta_columns())
    &&& row[0] == Cell::Integer(entry.id.0)
    &&& row[1] == Cell::Integer(entry.feed_id.0)
    &&& row[2] == Cell::Text(entry.title)
    &&& row[3] == Cell::Text(entry.author)
    &&& row[4] == Cell::Time(entry.pub_date)
    &&& row[5] == Cell::Text(entry.link)
    &&& row[6] == Cell::Time(entry.read_at)
    &&& row[7] == Cell::Time(Some(entry.inserted_at))
    &&& row[8] == Cell::Time(Some(entry.updated_at))
}

/// What reading a row of `entry_meta_columns` gives.
pub open spec fn reads_as_entry_meta(row: Seq<Cell>, r: Result<EntryMetadata, RowError>) -> bool {
    match r {
        Ok(entry) => row_is_entry_meta(row, entry),
        Err(e) => e is Shape && !row_fits(row, entry_meta_columns()),
    }
}

fn fits(cell: &Cell, column: Column) -> (r: bool)
    ensures
        r == cell_fits(*cell, column),
{
    match column {
        Column::Integer => match cell {
            Cell::Integer(_) => true,
            _ => false,
        },
        Column::Text => match cell {
            Cell::Text(Some(_)) => true,
            _ => false,
        },
        Column::OptionalText => match cell {
            Cell::Text(_) => true,
            _ => false,
        },
        Column::Time => match cell {
            Cell::Time(Some(_)) => true,
            _ => false,
        },
        Column::OptionalTime => match cell {
            Cell::Time(_) => true,
            _ => false,
        },
    }
}

/// Whether a row can have come from a list of columns.
pub fn has_shape(row: &Vec<Cell>, columns: &Vec<Column>) -> (r: bool)
    ensures
        r == row_fits(row@, columns@),
{
    if row.len() != columns.len() {
        return false;
    }
    for i in 0..row.len()
        invariant
            row.len() == columns.len(),
            forall|j: int| 0 <= j < i ==> cell_fits(#[trigger] row[j], columns[j]),
    {
        if !fits(&row[i], columns[i]) {
            return false;
        }
    }
    true
}

fn integer(cell: &Cell) -> (r: i64)
    requires
        cell is Integer,
    ensures
        *cell == Cell::Integer(r),
{
    match cell {
        Cell::Integer(i) => *i,
        _ => 0,
    }
}

fn opt_text(cell: &Cell) -> (r: Option<String>)
    requires
        cell is Text,
    ensures
        *cell == Cell::Text(r),
{
    match cell {
        Cell::Text(t) => copy_opt(t),
        _ => None,
    }
}

fn opt_time(cell: &Cell) -> (r: Option<Timestamp>)
    requires
        cell is Time,
    ensures
        *cell == Cell::Time(r),
{
    match cell {
        Cell::Time(t) => *t,
        _ => None,
    }
}

fn time(cell: &Cell) -> (r: Timestamp)
    requires
        cell_fits(*cell, Column::Time),
    ensures
        *cell == Cell::Time(Some(r)),
{
    match cell {
        Cell::Time(Some(t)) => *t,
        _ => Timestamp { secs: 0, nanos: 0 },
    }
}

impl Feed {
    /// Reads a feed from a row of `get_feed` or `get_feeds`.
    pub fn from_row(row: &Vec<Cell>) -> (r: Result<Feed, RowError>)
        ensures
            reads_as_feed(row@, r),
    {
        if !has_shape(row, &feed_column_list()) {
            return Err(RowError::Shape);
        }
        assert forall|i: int| 0 <= i < 9 implies cell_fits(
            #[trigger] row[i],
            feed_columns()[i],
        ) by {}
        assert(cell_fits(row[4], Column::Text));
        let feed_kind = match &row[4] {
            Cell::Text(Some(text)) => match FeedKind::from_str(text.as_str()) {
                Ok(kind) => kind,
                Err(e) => return Err(RowError::Kind(e)),
            },
            _ => return Err(RowError::Shape),
        };
        Ok(
            Feed {
                id: FeedId(integer(&row[0])),
                title: opt_text(&row[1]),
                feed_link: opt_text(&row[2]),
                link: opt_text(&row[3]),
                feed_kind,
                refreshed_at: opt_time(&row[5]),
                inserted_at: time(&row[6]),
                updated_at: time(&row[7]),
                latest_etag: opt_text(&row[8]),
            },
        )
    }
}

impl EntryMetadata {
    /// Reads the metadata of an entry from a row of `get_entry_meta` or `get_entries_metas`.
    pub fn from_row(row: &Vec<Cell>) -> (r: Result<EntryMetadata, RowError>)
        ensures
            reads_as_entry_meta(row@, r),
    {
        if !has_shape(row, &entry_meta_column_list()) {
            return Err(RowError::Shape);
        }
        assert forall|i: int| 0 <= i < 9 implies cell_fits(
            #[trigger] row[i],
            entry_meta_columns()[i],
        ) by {}
        Ok(
            EntryMetadata {
                id: EntryId(integer(&row[0])),
                feed_id: FeedId(integer(&row[1])),
                title: opt_text(&row[2]),
                author: opt_text(&row[3]),
                pub_date: opt_time(&row[4]),
                link: opt_text(&row[5]),
                read_at: opt_time(&row[6]),
                inserted_at: time(&row[7]),
                updated_at: time(&row[8]),
            },
        )
    }
}

impl EntryContent {
    /// Reads the content of an entry from a row of `get_entry_content`.
    pub fn from_row(row: &Vec<Cell>) -> (r: Result<EntryContent, RowError>)
        ensures
            match r {
                Ok(c) => row@ =~= seq![Cell::Text(c.content), Cell::Text(c.description)],
                Err(e) => e is Shape && !row_fits(
                    row@,
                    seq![Column::OptionalText, Column::OptionalText],
                ),
            },
    {
        let mut columns = one_column(Column::OptionalText);
        columns.push(Column::OptionalText);
        proof {
            assert(columns@ =~= seq![Column::OptionalText, Column::OptionalText]);
        }
        if !has_shape(row, &columns) {
            return Err(RowError::Shape);
        }
        assert(cell_fits(row[0], columns[0]) && cell_fits(row[1], columns[1]));
        Ok(EntryContent { content: opt_text(&row[0]), description: opt_text(&row[1]) })
    }
}

/// A row holds one feed: however often it is read, alone or among others, the same comes of it.
pub proof fn law_a_row_holds_one_feed(row: Seq<Cell>, a: Feed, b: Feed)
    requires
        row_is_feed(row, a),
        row_is_feed(row, b),
    ensures
        a == b,
{
}

/// A row holds the metadata of one entry: however often it is read, alone or among others, the
/// same comes of it.
pub proof fn law_a_row_holds_one_entry(row: Seq<Cell>, a: EntryMetadata, b: EntryMetadata)
    requires
        row_is_entry_meta(row, a),
        row_is_entry_meta(row, b),
    ensures
        a == b,
{
}

/// Reads a row that holds one text.
pub fn text_from_row(row: &Vec<Cell>) -> (r: Result<String, RowError>)
    ensures
        match r {
            Ok(text) => row@ =~= seq![Cell::Text(Some(text))],
            Err(e) => e is Shape && !row_fits(row@, seq![Column::Text]),
        },
{
    if !has_shape(row, &one_column(Column::Text)) {
        return Err(RowError::Shape);
    }
    assert(cell_fits(row[0], Column::Text));
    match &row[0] {
        Cell::Text(Some(text)) => Ok(text.clone()),
        _ => Err(RowError::Shape),
    }
}

/// Reads a row that holds one text or NULL.
pub fn opt_text_from_row(row: &Vec<Cell>) -> (r: Result<Option<String>, RowError>)
    ensures
        match r {
            Ok(text) => row@ =~= seq![Cell::Text(text)],
            Err(e) => e is Shape && !row_fits(row@, seq![Column::OptionalText]),
        },
{
    if !has_shape(row, &one_column(Column::OptionalText)) {
        return Err(RowError::Shape);
    }
    assert(cell_fits(row[0], Column::OptionalText));
    Ok(opt_text(&row[0]))
}

/// Whether rows hold feeds, one each.
pub open spec fn rows_are_feeds(rows: Seq<Vec<Cell>>, feeds: Seq<Feed>) -> bool {
    &&& feeds.len() == rows.len()
    &&& forall|i: int| 0 <= i < rows.len() ==> row_is_feed((#[trigger] rows[i])@, feeds[i])
}

/// Whether rows hold identifiers of feeds, one each.
pub open spec fn rows_are_feed_ids(rows: Seq<Vec<Cell>>, ids: Seq<FeedId>) -> bool {
    &&& ids.len() == rows.len()
    &&& forall|i: int|
        0 <= i < rows.len() ==> (#[trigger] rows[i])@ =~= seq![Cell::Integer(ids[i].0)]
}

/// Whether rows hold the metadata of entries, one each.
pub open spec fn rows_are_entries_metas(
    rows: Seq<Vec<Cell>>,
    entries: Seq<EntryMetadata>,
) -> bool {
    &&& entries.len() == rows.len()
    &&& forall|i: int|
        0 <= i < rows.len() ==> row_is_entry_meta((#[trigger] rows[i])@, entries[i])
}

/// Reads the rows of `get_feeds`, up to the first that holds no feed.
pub fn feeds_from_rows(rows: &Vec<Vec<Cell>>) -> (r: Result<Vec<Feed>, RowError>)
    ensures
        match r {
            Ok(feeds) => rows_are_feeds(rows@, feeds@),
            Err(e) => exists|i: int|
                0 <= i < rows.len() && reads_as_feed(#[trigger] rows[i]@, Err(e)) && forall|j: int|
                    0 <= j < i ==> holds_feed(#[trigger] rows[j]@),
        },
{
    let mut feeds: Vec<Feed> = Vec::new();
    for i in 0..rows.len()
        invariant
            feeds.len() == i,
            forall|j: int| 0 <= j < i ==> row_is_feed(#[trigger] rows[j]@, feeds[j]),
    {
        match Feed::from_row(&rows[i]) {
            Ok(feed) => feeds.push(feed),
            Err(e) => return Err(e),
        }
    }
    Ok(feeds)
}

/// Reads the rows of `get_feed_ids`.
pub fn feed_ids_from_rows(rows: &Vec<Vec<Cell>>) -> (r: Result<Vec<FeedId>, RowError>)
    ensures
        match r {
            Ok(ids) => rows_are_feed_ids(rows@, ids@),
            Err(e) => e is Shape && exists|i: int|
                0 <= i < rows.len() && !row_fits((#[trigger] rows[i])@, seq![Column::Integer]),
        },
{
    let mut ids: Vec<FeedId> = Vec::new();
    for i in 0..rows.len()
        invariant
            ids.len() == i,
            forall|j: int|
                0 <= j < i ==> (#[trigger] rows[j])@ =~= seq![Cell::Integer(ids[j].0)],
    {
        if !has_shape(&rows[i], &one_column(Column::Integer)) {
            return Err(RowError::Shape);
        }
        assert(cell_fits(rows[i as int][0], Column::Integer));
        ids.push(FeedId(integer(&rows[i][0])));
    }
    Ok(ids)
}

/// Reads the rows of `get_entries_metas`.
pub fn entries_metas_from_rows(rows: &Vec<Vec<Cell>>) -> (r: Result<Vec<EntryMetadata>, RowError>)
    ensures
        match r {
            Ok(entries) => rows_are_entries_metas(rows@, entries@),
            Err(e) => e is Shape && exists|i: int|
                0 <= i < rows.len() && !row_fits((#[trigger] rows[i])@, entry_meta_columns()),
        },
{
    let mut entries: Vec<EntryMetadata> = Vec::new();
    for i in 0..rows.len()
        invariant
            entries.len() == i,
            forall|j: int| 0 <= j < i ==> row_is_entry_meta(#[trigger] rows[j]@, entries[j]),
    {
        match EntryMetadata::from_row(&rows[i]) {
            Ok(entry) => entries.push(entry),
            Err(e) => return Err(e),
        }
    }
    Ok(entries)
}

/// Reads the rows of `get_entries_links`.
pub fn opt_texts_from_rows(rows: &Vec<Vec<Cell>>) -> (r: Result<Vec<Option<String>>, RowError>)
    ensures
        match r {
            Ok(texts) => texts.len() == rows.len() && forall|i: int|
                0 <= i < rows.len() ==> (#[trigger] rows[i])@ =~= seq![Cell::Text(texts[i])],
            Err(e) => e is Shape && exists|i: int|
                0 <= i < rows.len() && !row_fits((#[trigger] rows[i])@, seq![Column::OptionalText]),
        },
{
    let mut texts: Vec<Option<String>> = Vec::new();
    for i in 0..rows.len()
        invariant
            texts.len() == i,
            forall|j: int| 0 <= j < i ==> (#[trigger] rows[j])@ =~= seq![Cell::Text(texts[j])],
    {
        match opt_text_from_row(&rows[i]) {
            Ok(text) => texts.push(text),
            Err(e) => return Err(e),
        }
    }
    Ok(texts)
}

} // verus!
