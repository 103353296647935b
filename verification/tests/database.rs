//! The reader against a real database, with the network's answers given as documents.
use rusqlite::types::Value;
use russ::feed::{
    EntryContent, EntryId, EntryMetadata, Feed, FeedId, FeedKind, FeedResponse, IncomingEntry,
};
use russ::fetch::{fetch_feed, AfterResponse, AwaitingResponse, FetchError, Header, ResponseHead};
use russ::modes::ReadMode;
use russ::queries::{
    entries_metas_from_rows, feed_ids_from_rows, feeds_from_rows, get_entries_links,
    get_entries_metas, get_entry_content, get_entry_meta, get_feed, get_feed_ids,
    get_feed_latest_etag, get_feed_url, get_feeds, opt_text_from_row, opt_texts_from_rows,
    text_from_row, RowError,
};
use russ::refresh::{
    refresh_feed, subscribe_to_feed, AfterFetch, SubscribeCause, SubscribeContext, SubscribeError,
};
use russ::schema::initialize_db;
use russ::sql::{
    add_entries_to_feed, delete_feed, Cell, Column, Operation, Owner, Param, Query, Statement,
};
use russ::time::Timestamp;
use russ::transaction::{in_transaction, Failure, Part, Progress, Reply, Request};

const ZCT: &str = "https://zeroclarkthirty.com/feed";

fn to_time(t: Timestamp) -> chrono::DateTime<chrono::Utc> {
    chrono::DateTime::from_timestamp(t.secs, t.nanos).unwrap()
}

fn from_time(t: chrono::DateTime<chrono::Utc>) -> Timestamp {
    Timestamp { secs: t.timestamp(), nanos: t.timestamp_subsec_nanos() }
}

fn now() -> Timestamp {
    from_time(chrono::Utc::now())
}

fn bind(params: &[Param]) -> Vec<Value> {
    params
        .iter()
        .map(|p| match p {
            Param::Null => Value::Null,
            Param::Integer(i) => Value::Integer(*i),
            Param::Text(s) => Value::Text(s.clone()),
            Param::Time(t) => {
                Value::Text(to_time(*t).format("%F %T%.f%:z").to_string())
            }
            Param::Clock | Param::NewId => panic!("unresolved parameter"),
        })
        .collect()
}

fn execute(conn: &rusqlite::Connection, s: &Statement) -> rusqlite::Result<()> {
    conn.execute(&s.sql, rusqlite::params_from_iter(bind(&s.params)))?;
    Ok(())
}

fn read_row(row: &rusqlite::Row, columns: &[Column]) -> rusqlite::Result<Vec<Cell>> {
    columns
        .iter()
        .enumerate()
        .map(|(i, column)| {
            Ok(match column {
                Column::Integer => Cell::Integer(row.get(i)?),
                Column::Text => Cell::Text(Some(row.get(i)?)),
                Column::OptionalText => Cell::Text(row.get(i)?),
                Column::Time => Cell::Time(Some(from_time(row.get(i)?))),
                Column::OptionalTime => {
                    let t: Option<chrono::DateTime<chrono::Utc>> = row.get(i)?;
                    Cell::Time(t.map(from_time))
                }
            })
        })
        .collect()
}

fn rows(conn: &rusqlite::Connection, q: &Query) -> rusqlite::Result<Vec<Vec<Cell>>> {
    let mut statement = conn.prepare(&q.statement.sql)?;
    let found = statement.query_map(
        rusqlite::params_from_iter(bind(&q.statement.params)),
        |row| read_row(row, &q.columns),
    )?;
    found.collect()
}

fn one_row(conn: &rusqlite::Connection, q: &Query) -> rusqlite::Result<Vec<Cell>> {
    conn.query_row(
        &q.statement.sql,
        rusqlite::params_from_iter(bind(&q.statement.params)),
        |row| read_row(row, &q.columns),
    )
}

fn reply_to(conn: &rusqlite::Connection, request: Request) -> Reply<rusqlite::Error> {
    let done = match request {
        Request::Begin => conn.execute_batch("BEGIN"),
        Request::Commit => conn.execute_batch("COMMIT"),
        Request::Rollback => conn.execute_batch("ROLLBACK"),
        Request::ReadClock => return Reply::Time(now()),
        Request::Execute(s) => execute(conn, &s),
        Request::Insert(s) => {
            let id = conn.query_row(
                &s.sql,
                rusqlite::params_from_iter(bind(&s.params)),
                |row| row.get(0),
            );
            return match id {
                Ok(id) => Reply::Id(id),
                Err(e) => Reply::Failed(e),
            };
        }
        Request::SetSchemaVersion(v) => conn.pragma_update(None, "user_version", v as i64),
        Request::ReadSchemaVersion => {
            let version: rusqlite::Result<i64> =
                conn.pragma_query_value(None, "user_version", |row| row.get(0));
            return match version {
                Ok(v) => Reply::Version(v as u64),
                Err(e) => Reply::Failed(e),
            };
        }
    };
    match done {
        Ok(()) => Reply::Done,
        Err(e) => Reply::Failed(e),
    }
}

fn transact(
    conn: &rusqlite::Connection,
    operations: Vec<Operation>,
) -> Result<Option<i64>, Failure<rusqlite::Error>> {
    let (mut transaction, mut request) = in_transaction(operations);
    loop {
        match transaction.resume(reply_to(conn, request)) {
            Progress::Continue(t, r) => {
                transaction = t;
                request = r;
            }
            Progress::Finished(outcome) => return outcome,
        }
    }
}

fn plain(sql: &str) -> Operation {
    Operation::Execute(Statement { sql: sql.to_string(), params: Vec::new() })
}

fn database() -> rusqlite::Connection {
    let conn = rusqlite::Connection::open_in_memory().unwrap();
    assert!(transact(&conn, initialize_db()).is_ok());
    conn
}

fn count(conn: &rusqlite::Connection, sql: &str) -> i64 {
    conn.query_row(sql, [], |row| row.get(0)).unwrap()
}

/// An RSS document with the entries whose numbers lie in `numbers`.
fn document(numbers: std::ops::Range<usize>) -> String {
    let items: String = numbers
        .map(|n| {
            format!(
                "<item><title>Entry {n}</title><link>https://zeroclarkthirty.com/{n}</link></item>"
            )
        })
        .collect();
    format!(
        "<rss version=\"2.0\"><channel><title>zct</title><link>https://zeroclarkthirty.com</link>\
         <description>d</description>{items}</channel></rss>"
    )
}

fn served(
    fetch: AwaitingResponse,
    body: &str,
) -> Result<FeedResponse, FetchError<rusqlite::Error>> {
    let head = ResponseHead {
        status: 200,
        headers: vec![Header { name: "ETag".to_string(), value: b"\"v1\"".to_vec() }],
    };
    match fetch.response(Ok(head))? {
        AfterResponse::ReadBody(next) => next.body(Ok(body.to_string())),
        AfterResponse::Done(response) => Ok(response),
    }
}

fn subscribe(
    conn: &rusqlite::Connection,
    url: &str,
    body: &str,
) -> Result<FeedId, SubscribeError<rusqlite::Error>> {
    let (subscribing, fetch, _) = subscribe_to_feed(url);
    let (storing, operations) = subscribing.feed(served(fetch, body))?;
    storing.stored(transact(conn, operations))
}

fn refresh(conn: &rusqlite::Connection, feed_id: FeedId, body: &str) {
    let (step, query) = refresh_feed(feed_id);
    let (step, query) = step.url(one_row(conn, &query)).unwrap();
    let (step, fetch, _) = step.etag(one_row(conn, &query)).unwrap();
    let operations = match step.feed(served(fetch, body)).unwrap() {
        AfterFetch::Compare(step, query) => step.links(rows(conn, &query)).unwrap(),
        AfterFetch::Store(operations) => operations,
    };
    transact(conn, operations).unwrap();
}

fn metas(conn: &rusqlite::Connection, mode: ReadMode, feed_id: FeedId) -> Vec<EntryMetadata> {
    entries_metas_from_rows(&rows(conn, &get_entries_metas(&mode, feed_id)).unwrap()).unwrap()
}

#[test]
fn it_fetches() {
    let (fetch, _) = fetch_feed(ZCT, None);
    let feed_and_entries = served(fetch, &document(0..60)).unwrap();
    if let FeedResponse::CacheMiss(feed_and_entries) = feed_and_entries {
        assert!(!feed_and_entries.entries.is_empty())
    } else {
        panic!("somehow got a cached response when passing no etag")
    }
}

#[test]
fn it_subscribes_to_a_feed() {
    let conn = database();
    subscribe(&conn, ZCT, &document(0..60)).unwrap();
    let count: i64 = conn
        .query_row("SELECT COUNT(*) FROM entries", [], |row| row.get(0))
        .unwrap();

    assert!(count > 50)
}

#[test]
fn refresh_feed_does_not_add_any_items_if_there_are_no_new_items() {
    let conn = database();
    subscribe(&conn, ZCT, &document(0..60)).unwrap();
    let feed_id = 1.into();
    let old_entries = metas(&conn, ReadMode::ShowUnread, feed_id);
    refresh(&conn, feed_id, &document(0..60));
    let row = one_row(&conn, &get_entry_meta(1.into())).unwrap();
    let e = EntryMetadata::from_row(&row).unwrap();
    execute(&conn, &e.mark_as_read(now())).unwrap();
    let new_entries = metas(&conn, ReadMode::ShowUnread, feed_id);

    assert_eq!(new_entries.len(), old_entries.len() - 1);
}

#[test]
fn works_transactionally() {
    let conn = rusqlite::Connection::open_in_memory().unwrap();

    conn.execute("CREATE TABLE foo (t)", []).unwrap();

    let count: i64 = conn
        .query_row("select count(*) from foo", [], |row| row.get(0))
        .unwrap();

    // should be nothing in the table
    assert_eq!(count, 0);

    // insert one row to prove it works
    let _ = transact(
        &conn,
        vec![plain(r#"INSERT INTO foo (t) values ("some initial string")"#)],
    );

    let count: i64 = conn
        .query_row("select count(*) from foo", [], |row| row.get(0))
        .unwrap();

    // we inserted one row, there should be one
    assert_eq!(count, 1);

    // do 2 inserts in the same way as before, but error in the middle of the inserts.
    // this should rollback
    let tr = transact(
        &conn,
        vec![
            plain(r#"INSERT INTO foo (t) values ("some string")"#),
            plain("this is not valid sql, it should error and rollback"),
            plain(r#"INSERT INTO foo (t) values ("some other string")"#),
        ],
    );

    // it should be an error
    let e = tr.unwrap_err();
    assert!(e.error.to_string().contains("syntax error"));
    assert_eq!(e.part, Part::Operation(1));

    let count: i64 = conn
        .query_row("select count(*) from foo", [], |row| row.get(0))
        .unwrap();

    // assert that no further entries have been inserted
    assert_eq!(count, 1);
}

#[test]
fn a_refresh_adds_what_is_new_and_records_the_etag() {
    let conn = database();
    let feed_id = subscribe(&conn, ZCT, &document(0..3)).unwrap();
    assert_eq!(feed_id, FeedId(1));
    let etag = one_row(&conn, &get_feed_latest_etag(feed_id)).unwrap();
    assert_eq!(opt_text_from_row(&etag).unwrap(), None);

    refresh(&conn, feed_id, &document(1..6));
    assert_eq!(count(&conn, "SELECT COUNT(*) FROM entries"), 6);
    let etag = one_row(&conn, &get_feed_latest_etag(feed_id)).unwrap();
    assert_eq!(opt_text_from_row(&etag).unwrap(), Some("\"v1\"".to_string()));

    refresh(&conn, feed_id, &document(1..6));
    assert_eq!(count(&conn, "SELECT COUNT(*) FROM entries"), 6);
}

#[test]
fn a_refresh_stores_one_entry_for_each_link() {
    let conn = database();
    let feed_id = subscribe(&conn, ZCT, &document(0..1)).unwrap();
    let item = |title: &str| {
        format!("<item><title>{title}</title><link>http://x/1</link></item></channel>")
    };
    let twice = document(0..1)
        .replace("</channel>", &item("first"))
        .replace("</channel>", &item("second"));
    refresh(&conn, feed_id, &twice);
    assert_eq!(count(&conn, "SELECT COUNT(*) FROM entries"), 2);
    assert_eq!(
        count(&conn, "SELECT COUNT(*) FROM entries WHERE link = 'http://x/1' AND title = 'first'"),
        1
    );
    refresh(&conn, feed_id, &twice);
    assert_eq!(count(&conn, "SELECT COUNT(*) FROM entries"), 2);
}

#[test]
fn a_subscription_stores_repeated_links() {
    let conn = database();
    let item = "<item><link>http://x/1</link></item></channel>";
    let twice = document(0..0).replace("</channel>", item).replace("</channel>", item);
    subscribe(&conn, ZCT, &twice).unwrap();
    assert_eq!(count(&conn, "SELECT COUNT(*) FROM entries WHERE link = 'http://x/1'"), 2);
}

#[test]
fn one_entry_reads_the_same_alone_and_among_others() {
    let conn = database();
    let feed_id = subscribe(&conn, ZCT, &document(0..3)).unwrap();
    for meta in metas(&conn, ReadMode::All, feed_id) {
        let row = one_row(&conn, &get_entry_meta(meta.id)).unwrap();
        let alone = EntryMetadata::from_row(&row).unwrap();
        assert_eq!(format!("{alone:?}"), format!("{meta:?}"));
    }
    let row = one_row(&conn, &get_feed(feed_id)).unwrap();
    let alone = Feed::from_row(&row).unwrap();
    let feeds = feeds_from_rows(&rows(&conn, &get_feeds()).unwrap()).unwrap();
    assert_eq!(format!("{:?}", vec![alone]), format!("{feeds:?}"));
    assert!(one_row(&conn, &get_entry_meta(EntryId(9))).is_err());
}

#[test]
fn entries_are_listed_newest_first() {
    let conn = database();
    let insert = |id: i64, feed: i64, pub_date: &str, inserted_at: &str, read_at: &str| {
        let sql = format!(
            "INSERT INTO entries (id, feed_id, link, pub_date, inserted_at, read_at) \
             VALUES ({id}, {feed}, 'l{id}', {pub_date}, {inserted_at}, {read_at})"
        );
        conn.execute(&sql, []).unwrap();
    };
    let (old, new) = ("'2006-01-02 00:00:00+00:00'", "'2007-01-02 00:00:00+00:00'");
    insert(1, 1, old, "'2020-01-01 00:00:00'", "NULL");
    insert(2, 1, "NULL", "'2021-01-01 00:00:00'", "NULL");
    insert(3, 1, new, "'2020-01-01 00:00:00'", new);
    insert(4, 1, old, "'2020-01-01 00:00:01'", new);
    insert(5, 2, new, "'2020-01-01 00:00:00'", "NULL");
    insert(6, 1, "NULL", "'2021-01-01 00:00:01'", new);
    let listed = |mode: ReadMode| -> Vec<i64> {
        metas(&conn, mode, FeedId(1)).iter().map(|e| e.id.0).collect()
    };
    assert_eq!(listed(ReadMode::All), [3, 4, 1, 6, 2]);
    assert_eq!(listed(ReadMode::ShowUnread), [1, 2]);
    assert_eq!(listed(ReadMode::ShowRead), [3, 4, 6]);
    let links = |mode: ReadMode| -> String {
        let found = rows(&conn, &get_entries_links(&mode, FeedId(1))).unwrap();
        opt_texts_from_rows(&found).unwrap().into_iter().flatten().collect()
    };
    assert_eq!(links(ReadMode::All), "l3l4l1l6l2");
    assert_eq!(links(ReadMode::ShowUnread), "l1l2");
    assert_eq!(links(ReadMode::ShowRead), "l3l4l6");
}

#[test]
fn feeds_are_listed_by_title_without_regard_to_case() {
    let conn = database();
    for title in ["'b'", "'A'", "'\u{c4}'", "NULL", "'B1'", "'a1'", "'_'"] {
        let sql = format!("INSERT INTO feeds (title, feed_kind) VALUES ({title}, 'RSS')");
        conn.execute(&sql, []).unwrap();
    }
    let feeds = feeds_from_rows(&rows(&conn, &get_feeds()).unwrap()).unwrap();
    let titles: Vec<Option<&str>> = feeds.iter().map(|f| f.title.as_deref()).collect();
    assert_eq!(
        titles,
        [None, Some("_"), Some("A"), Some("a1"), Some("b"), Some("B1"), Some("\u{c4}")]
    );
    let ids = feed_ids_from_rows(&rows(&conn, &get_feed_ids()).unwrap()).unwrap();
    assert_eq!(ids, feeds.iter().map(|f| f.id).collect::<Vec<_>>());
    for feed in &feeds {
        let alone = Feed::from_row(&one_row(&conn, &get_feed(feed.id)).unwrap()).unwrap();
        assert_eq!(format!("{alone:?}"), format!("{feed:?}"));
    }
    assert!(one_row(&conn, &get_feed(FeedId(99))).is_err());
}

#[test]
fn a_refresh_does_not_store_again_what_was_read() {
    let conn = database();
    let feed_id = subscribe(&conn, ZCT, &document(0..3)).unwrap();
    let entry = metas(&conn, ReadMode::All, feed_id).remove(0);
    execute(&conn, &entry.mark_as_read(now())).unwrap();
    refresh(&conn, feed_id, &document(0..4));
    assert_eq!(count(&conn, "SELECT COUNT(*) FROM entries"), 4);
    assert_eq!(metas(&conn, ReadMode::ShowUnread, feed_id).len(), 3);
}

#[test]
fn a_refresh_sends_the_etag_and_takes_a_cache_hit() {
    let conn = database();
    let feed_id = subscribe(&conn, ZCT, &document(0..3)).unwrap();
    refresh(&conn, feed_id, &document(0..3));
    conn.execute("UPDATE feeds SET refreshed_at = NULL", []).unwrap();

    let (step, query) = refresh_feed(feed_id);
    let (step, query) = step.url(one_row(&conn, &query)).unwrap();
    let (step, fetch, request) = step.etag(one_row(&conn, &query)).unwrap();
    assert_eq!(request.url, ZCT);
    assert_eq!(
        request.headers,
        vec![("If-None-Match".to_string(), "\"v1\"".to_string())]
    );
    let head: Result<ResponseHead, rusqlite::Error> =
        Ok(ResponseHead { status: 304, headers: Vec::new() });
    let response = match fetch.response(head).unwrap() {
        AfterResponse::Done(response) => response,
        AfterResponse::ReadBody(_) => panic!("there is no body to read"),
    };
    match step.feed::<rusqlite::Error>(Ok(response)).unwrap() {
        AfterFetch::Store(operations) => transact(&conn, operations).unwrap(),
        AfterFetch::Compare(..) => panic!("there is nothing to compare"),
    };
    assert_eq!(count(&conn, "SELECT COUNT(*) FROM feeds WHERE refreshed_at IS NOT NULL"), 1);
    assert_eq!(count(&conn, "SELECT COUNT(*) FROM entries"), 3);
}

#[test]
fn what_is_stored_reads_back() {
    let conn = database();
    let feed_id = subscribe(&conn, ZCT, &document(0..2)).unwrap();

    let feed = Feed::from_row(&one_row(&conn, &get_feed(feed_id)).unwrap()).unwrap();
    assert_eq!(feed.id, feed_id);
    assert_eq!(feed.title, Some("zct".to_string()));
    assert_eq!(feed.feed_link, Some(ZCT.to_string()));
    assert_eq!(feed.link, Some("https://zeroclarkthirty.com".to_string()));
    assert_eq!(feed.feed_kind, FeedKind::Rss);
    assert_eq!(feed.refreshed_at, None);
    assert_eq!(feed.latest_etag, None);

    let url = text_from_row(&one_row(&conn, &get_feed_url(feed_id)).unwrap()).unwrap();
    assert_eq!(url, ZCT);
    let feeds = feeds_from_rows(&rows(&conn, &get_feeds()).unwrap()).unwrap();
    assert_eq!(feeds.len(), 1);
    let ids = feed_ids_from_rows(&rows(&conn, &get_feed_ids()).unwrap()).unwrap();
    assert_eq!(ids, vec![feed_id]);

    let row = one_row(&conn, &get_entry_meta(EntryId(2))).unwrap();
    let entry = EntryMetadata::from_row(&row).unwrap();
    assert_eq!(entry.id, EntryId(2));
    assert_eq!(entry.feed_id, feed_id);
    assert_eq!(entry.title, Some("Entry 1".to_string()));
    assert_eq!(entry.author, None);
    assert_eq!(entry.link, Some("https://zeroclarkthirty.com/1".to_string()));
    assert_eq!(entry.read_at, None);
}

#[test]
fn an_entry_is_stored_whole() {
    let conn = database();
    let at = Timestamp { secs: 1_136_239_445, nanos: 0 };
    let entry = IncomingEntry {
        title: Some("t".to_string()),
        author: Some("a".to_string()),
        pub_date: Some(at),
        description: Some("d".to_string()),
        content: Some("c".to_string()),
        link: None,
    };
    transact(&conn, add_entries_to_feed(Owner::Stored(FeedId(9)), &[entry])).unwrap();
    let row = one_row(&conn, &get_entry_meta(EntryId(1))).unwrap();
    let meta = EntryMetadata::from_row(&row).unwrap();
    assert_eq!(meta.feed_id, FeedId(9));
    assert_eq!(meta.author, Some("a".to_string()));
    assert_eq!(meta.pub_date, Some(at));
    assert_eq!(meta.link, None);
    let row = one_row(&conn, &get_entry_content(EntryId(1))).unwrap();
    let content = EntryContent::from_row(&row).unwrap();
    assert_eq!(content.content, Some("c".to_string()));
    assert_eq!(content.description, Some("d".to_string()));
    let links = rows(&conn, &get_entries_links(&ReadMode::All, FeedId(9))).unwrap();
    assert_eq!(opt_texts_from_rows(&links).unwrap(), vec![None]);
}

#[test]
fn storing_no_entries_is_nothing_to_do() {
    assert!(add_entries_to_feed(Owner::Stored(FeedId(1)), &[]).is_empty());
}

#[test]
fn toggling_moves_an_entry_between_the_read_modes() {
    let conn = database();
    let feed_id = subscribe(&conn, ZCT, &document(0..2)).unwrap();
    let lens = |conn: &rusqlite::Connection| {
        [ReadMode::ShowUnread, ReadMode::ShowRead, ReadMode::All]
            .map(|mode| metas(conn, mode, feed_id).len())
    };
    assert_eq!(lens(&conn), [2, 0, 2]);
    for expected in [[1, 1, 2], [2, 0, 2]] {
        let row = one_row(&conn, &get_entry_meta(EntryId(1))).unwrap();
        let entry = EntryMetadata::from_row(&row).unwrap();
        execute(&conn, &entry.toggle_read(now())).unwrap();
        assert_eq!(lens(&conn), expected);
    }
}

#[test]
fn deleting_a_feed_deletes_its_entries_and_no_others() {
    let conn = database();
    let first = subscribe(&conn, ZCT, &document(0..2)).unwrap();
    subscribe(&conn, "https://example.com/feed", &document(0..3)).unwrap();
    transact(&conn, delete_feed(first)).unwrap();
    assert_eq!(count(&conn, "SELECT COUNT(*) FROM feeds"), 1);
    assert_eq!(count(&conn, "SELECT COUNT(*) FROM entries"), 3);
    assert_eq!(count(&conn, "SELECT COUNT(*) FROM entries WHERE feed_id = 1"), 0);
}

#[test]
fn subscribing_twice_fails_and_stores_nothing() {
    let conn = database();
    subscribe(&conn, ZCT, &document(0..2)).unwrap();
    let e = subscribe(&conn, ZCT, &document(2..9)).unwrap_err();
    assert!(matches!(e.cause, SubscribeCause::Database(_)));
    match e.context {
        Some(context @ SubscribeContext::Creating(_)) => {
            assert_eq!(context.message("Some(\"x\")"), "creating feed Some(\"x\") failed");
        }
        _ => panic!("the feed could be created"),
    }
    assert_eq!(count(&conn, "SELECT COUNT(*) FROM entries"), 2);
}

#[test]
fn failing_to_insert_entries_undoes_the_feed() {
    let conn = database();
    conn.execute_batch("DROP TABLE entries").unwrap();
    let e = subscribe(&conn, ZCT, &document(0..2)).unwrap_err();
    match e.context {
        Some(context @ SubscribeContext::Inserting(2, _)) => {
            assert_eq!(
                context.message("Some(\"x\")"),
                "inserting 2 entries for feed Some(\"x\") failed"
            );
        }
        _ => panic!("the entries could be inserted"),
    }
    assert_eq!(count(&conn, "SELECT COUNT(*) FROM feeds"), 0);
}

#[test]
fn an_old_schema_is_brought_up_to_date() {
    let conn = database();
    let version = "PRAGMA user_version";
    assert_eq!(count(&conn, version), 3);
    transact(&conn, initialize_db()).unwrap();
    assert_eq!(count(&conn, version), 3);

    let conn = rusqlite::Connection::open_in_memory().unwrap();
    conn.execute_batch("CREATE TABLE feeds (id INTEGER, feed_link TEXT); PRAGMA user_version = 1")
        .unwrap();
    transact(&conn, initialize_db()).unwrap();
    assert_eq!(count(&conn, version), 3);
    assert_eq!(count(&conn, "SELECT COUNT(latest_etag) FROM feeds"), 0);
    assert_eq!(
        count(&conn, "SELECT COUNT(*) FROM sqlite_master WHERE name = 'feeds_feed_link'"),
        1
    );
}

#[test]
fn a_failing_migration_is_undone() {
    let conn = rusqlite::Connection::open_in_memory().unwrap();
    conn.execute_batch("PRAGMA user_version = 1").unwrap();
    assert!(transact(&conn, initialize_db()).is_err());
    assert_eq!(count(&conn, "PRAGMA user_version"), 1);
}

#[test]
fn a_row_that_names_no_kind_is_refused() {
    let conn = database();
    subscribe(&conn, ZCT, &document(0..1)).unwrap();
    conn.execute("UPDATE feeds SET feed_kind = 'rss'", []).unwrap();
    let row = one_row(&conn, &get_feed(FeedId(1))).unwrap();
    match Feed::from_row(&row) {
        Err(RowError::Kind(e)) => assert_eq!(e.message(), "rss is not a valid FeedKind"),
        _ => panic!("the kind was read"),
    }
    assert!(matches!(feeds_from_rows(&vec![row]), Err(RowError::Kind(_))));
}

#[test]
fn a_row_of_another_shape_is_refused() {
    assert!(matches!(text_from_row(&vec![]), Err(RowError::Shape)));
    assert!(matches!(text_from_row(&vec![Cell::Text(None)]), Err(RowError::Shape)));
    assert!(matches!(opt_text_from_row(&vec![Cell::Integer(1)]), Err(RowError::Shape)));
    assert!(matches!(
        feed_ids_from_rows(&vec![vec![Cell::Integer(1)], vec![Cell::Text(None)]]),
        Err(RowError::Shape)
    ));
    assert!(matches!(EntryMetadata::from_row(&vec![]), Err(RowError::Shape)));
}
