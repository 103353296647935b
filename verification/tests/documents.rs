//! Reading documents, and fetching them.
use russ::feed::{
    EntryId, FeedAndEntries, FeedId, FeedKind, FeedResponse, IncomingEntry, IncomingFeed,
};
use russ::fetch::{
    fetch_feed, find_etag, header_text, AfterResponse, AwaitingBody, FetchError, Header,
    ResponseHead,
};
use russ::parse::{parse_datetime, AtomEntry, AtomFeed, FeedParseError, RssChannel, RssItem};
use russ::text::{decimal, same_text, signed_decimal, to_ascii_lower};
use russ::time::Timestamp;

const ATOM: &str = "<feed xmlns=\"http://www.w3.org/2005/Atom\"><title>T &amp;amp; T</title>\
    <id>urn:x</id><updated>2006-01-02T15:04:05Z</updated>\
    <link href=\"https://a.example/1\"/><link href=\"https://a.example/2\"/>\
    <entry><title>Tom &amp;amp; Jerry</title><id>urn:y</id>\
    <updated>2006-01-02T15:04:05Z</updated><published>2006-01-02T15:04:05.5-07:00</published>\
    <author><name>A &amp;lt;a&amp;gt;</name></author><author><name>B</name></author>\
    <link href=\"https://a.example/e?x=1&amp;amp;y\"/><link href=\"https://a.example/f\"/>\
    <summary>ignored</summary><content>x &amp;quot;y&amp;quot;</content></entry>\
    <entry><title>bare</title><id>urn:z</id><updated>2006-01-02T15:04:05Z</updated></entry>\
    </feed>";

const RSS: &str = "<rss version=\"2.0\" xmlns:content=\"http://purl.org/rss/1.0/modules/content/\">\
    <channel><title>R</title><link>https://r.example</link><description>d</description>\
    <item><title>One &amp;amp; two</title><link>https://r.example/1</link>\
    <author>me &amp;amp; you</author><pubDate>Mon, 02 Jan 2006 15:04:05 -0700</pubDate>\
    <description>&amp;lt;p&amp;gt;</description>\
    <content:encoded>c &amp;amp; d</content:encoded></item>\
    <item><description>bare</description><pubDate>never</pubDate></item></channel></rss>";

fn text(s: &str) -> Option<String> {
    Some(s.to_string())
}

#[test]
fn an_atom_document_becomes_a_feed() {
    let f = FeedAndEntries::from_str(ATOM).unwrap();
    assert_eq!(f.feed.title, text("T &amp; T"));
    assert_eq!(f.feed.feed_link, None);
    assert_eq!(f.feed.link, text("https://a.example/1"));
    assert_eq!(f.feed.feed_kind, FeedKind::Atom);
    assert_eq!(f.feed.latest_etag, None);
    assert_eq!(f.entries.len(), 2);
    let e = &f.entries[0];
    assert_eq!(e.title, text("Tom & Jerry"));
    assert_eq!(e.author, text("A <a>"));
    assert_eq!(e.pub_date, Some(Timestamp { secs: 1_136_239_445, nanos: 500_000_000 }));
    assert_eq!(e.description, None);
    assert_eq!(e.content, text("x \"y\""));
    assert_eq!(e.link, text("https://a.example/e?x=1&amp;y"));
    let e = &f.entries[1];
    assert_eq!(e.title, text("bare"));
    assert_eq!((&e.author, &e.content, &e.link), (&None, &None, &None));
    assert_eq!(e.pub_date, None);
}

#[test]
fn an_rss_document_becomes_a_feed() {
    let f = FeedAndEntries::from_str(RSS).unwrap();
    assert_eq!(f.feed.title, text("R"));
    assert_eq!(f.feed.feed_link, None);
    assert_eq!(f.feed.link, text("https://r.example"));
    assert_eq!(f.feed.feed_kind, FeedKind::Rss);
    assert_eq!(f.entries.len(), 2);
    let e = &f.entries[0];
    assert_eq!(e.title, text("One & two"));
    assert_eq!(e.author, text("me & you"));
    assert_eq!(e.pub_date, Some(Timestamp { secs: 1_136_239_445, nanos: 0 }));
    assert_eq!(e.description, text("<p>"));
    assert_eq!(e.content, text("c & d"));
    assert_eq!(e.link, text("https://r.example/1"));
    let e = &f.entries[1];
    assert_eq!(e.title, None);
    assert_eq!(e.pub_date, None);
    assert_eq!(e.description, text("bare"));
}

#[test]
fn a_document_that_is_no_feed_is_refused() {
    let e = FeedAndEntries::from_str("<html></html>").unwrap_err();
    assert!(!e.message.is_empty());
    assert!(FeedAndEntries::from_str("").is_err());
}

#[test]
fn only_the_first_author_and_link_count() {
    let entry = AtomEntry {
        title: "t".to_string(),
        authors: vec!["a".to_string(), "b".to_string()],
        published: None,
        content: Some(None),
        links: vec!["1".to_string(), "2".to_string()],
    };
    let chosen = entry.choose_parts();
    assert_eq!(chosen.author, text("a"));
    assert_eq!(chosen.link, text("1"));
    assert_eq!(chosen.content, None);
    let feed = AtomFeed { title: "f".to_string(), links: vec![], entries: vec![entry] };
    let f = FeedAndEntries::from_atom(&feed);
    assert_eq!(f.feed.link, None);
    assert_eq!(f.entries[0].title, text("t"));
}

#[test]
fn entities_are_decoded_but_not_in_links() {
    let item = RssItem {
        title: text("a &gt; b"),
        author: None,
        pub_date: None,
        description: text("&#65;"),
        content: text("&unknown;"),
        link: text("x&amp;y"),
    };
    let parts = item.choose_parts(Some(Timestamp { secs: 1, nanos: 2 }));
    assert_eq!(parts.title, text("a &gt; b"));
    assert_eq!(parts.pub_date, Some(Timestamp { secs: 1, nanos: 2 }));
    let decoded = parts.decode();
    assert_eq!(decoded.title, text("a > b"));
    assert_eq!(decoded.description, text("A"));
    assert_eq!(decoded.content, text("&unknown;"));
    assert_eq!(decoded.link, text("x&amp;y"));
    assert_eq!(IncomingEntry::from(&item).title, text("a > b"));
    let channel =
        RssChannel { title: "&amp;".to_string(), link: "l".to_string(), items: vec![item] };
    let f = FeedAndEntries::from_rss(&channel);
    assert_eq!(f.feed.title, text("&amp;"));
    assert_eq!(f.entries.len(), 1);
}

#[test]
fn dates_are_read_in_many_formats() {
    let noon = Some(Timestamp { secs: 1_136_203_200, nanos: 0 });
    assert_eq!(parse_datetime("2006-01-02T12:00:00Z"), noon);
    assert_eq!(parse_datetime("Mon, 02 Jan 2006 13:00:00 +0100"), noon);
    assert_eq!(parse_datetime("no date"), None);
}

#[test]
fn kinds_have_one_name_each() {
    for kind in [FeedKind::Atom, FeedKind::Rss] {
        assert_eq!(FeedKind::from_str(&kind.to_string()).unwrap(), kind);
    }
    assert_eq!(FeedKind::Rss.to_string(), "RSS");
    for wrong in ["atom", "Rss", "RSS ", ""] {
        let e = FeedKind::from_str(wrong).unwrap_err();
        assert_eq!(e.message(), format!("{wrong} is not a valid FeedKind"));
    }
}

#[test]
fn identifiers_are_written_in_decimal() {
    assert_eq!(FeedId::from(42).to_string(), "42");
    assert_eq!(EntryId::from(-7).to_string(), "-7");
    assert_eq!(EntryId::from(i64::MIN).to_string(), i64::MIN.to_string());
    assert_eq!(signed_decimal(0), "0");
    assert_eq!(signed_decimal(i64::MAX), i64::MAX.to_string());
    assert_eq!(decimal(u64::MAX), u64::MAX.to_string());
}

#[test]
fn letters_are_made_small() {
    assert_eq!(to_ascii_lower("ETag-\u{c4}Z@["), "etag-\u{c4}z@[");
    assert!(same_text("a", "a"));
    assert!(!same_text("a", "ab"));
}

fn header(name: &str, value: &[u8]) -> Header {
    Header { name: name.to_string(), value: value.to_vec() }
}

#[test]
fn the_first_etag_decides() {
    let headers = vec![header("a", b"1"), header("ETAG", b"2"), header("etag", b"3")];
    assert_eq!(find_etag(&headers), text("2"));
    let headers = vec![header("etag", b"\xff"), header("etag", b"3")];
    assert_eq!(find_etag(&headers), None);
    assert_eq!(find_etag(&vec![header("tag", b"1")]), None);
}

#[test]
fn a_header_is_text_where_all_of_it_is_visible() {
    assert_eq!(header_text(b"a\t ~"), text("a\t ~"));
    assert_eq!(header_text(b""), text(""));
    assert_eq!(header_text(b"a\x7f"), None);
    assert_eq!(header_text(b"a\n"), None);
    assert_eq!(header_text(b"\x80"), None);
}

#[test]
fn a_request_tells_the_etag_it_knows() {
    let (_, request) = fetch_feed("https://x.example", text("\"t\""));
    assert_eq!(request.url, "https://x.example");
    assert_eq!(request.headers, vec![("If-None-Match".to_string(), "\"t\"".to_string())]);
    let (_, request) = fetch_feed("https://x.example", None);
    assert!(request.headers.is_empty());
}

fn respond(status: u16) -> Result<AfterResponse, FetchError<&'static str>> {
    let (fetch, _) = fetch_feed("u", None);
    fetch.response(Ok(ResponseHead { status, headers: vec![header("etag", b"e")] }))
}

#[test]
fn a_fetched_feed_has_its_address_and_etag() {
    let awaiting = match respond(200) {
        Ok(AfterResponse::ReadBody(awaiting)) => awaiting,
        _ => panic!("there is a body to read"),
    };
    match awaiting.body::<&str>(Ok(RSS.to_string())) {
        Ok(FeedResponse::CacheMiss(f)) => {
            assert_eq!(f.feed.feed_link, text("u"));
            assert_eq!(f.feed.latest_etag, text("e"));
            assert_eq!(f.feed.title, text("R"));
            assert_eq!(f.entries.len(), 2);
        }
        _ => panic!("a feed came"),
    }
}

#[test]
fn a_fetch_fails_in_three_ways() {
    assert!(matches!(respond(404), Err(FetchError::UnexpectedStatus(404))));
    assert!(matches!(respond(304), Ok(AfterResponse::Done(FeedResponse::CacheHit))));
    let (fetch, _) = fetch_feed("u", None);
    assert!(matches!(fetch.response(Err("down")), Err(FetchError::Transport("down"))));
    let awaiting = |etag| AwaitingBody { url: "u".to_string(), etag };
    assert!(matches!(awaiting(None).body(Err("cut")), Err(FetchError::Transport("cut"))));
    assert!(matches!(
        awaiting(None).body::<&str>(Ok("no feed".to_string())),
        Err(FetchError::NotAFeed(_))
    ));
    let e = FeedParseError { message: "m".to_string() };
    match awaiting(None).reading::<&str>(Err(e)) {
        Err(FetchError::NotAFeed(e)) => assert_eq!(e.message, "m"),
        _ => panic!("there is no feed"),
    }
    let feed = IncomingFeed {
        title: None,
        feed_link: text("old"),
        link: None,
        feed_kind: FeedKind::Atom,
        latest_etag: text("old"),
    };
    match awaiting(None).reading::<&str>(Ok(FeedAndEntries { feed, entries: vec![] })) {
        Ok(FeedResponse::CacheMiss(f)) => {
            assert_eq!(f.feed.feed_link, text("u"));
            assert_eq!(f.feed.latest_etag, None);
        }
        _ => panic!("a feed came"),
    }
}
