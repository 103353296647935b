//! What documents, responses and texts come to.
use super::storing::requests;
use super::{holds, same_opt};
use crate::feed::{
    EntryId, FeedAndEntries, FeedAndEntriesView, FeedId, FeedKind, FeedKindError, FeedResponse,
    IncomingEntry,
};
use crate::fetch::{
    etag_in, fetch_feed, find_etag, header_text, header_text_view, headers_view, is_visible,
    AfterResponse, AwaitingBody, AwaitingResponse, FetchError, Header, HttpRequest, ResponseHead,
};
use crate::parse::{
    atom_feed_in, date_in, entry_from_atom, entry_from_rss, feed_in, html_decoded, parse_datetime,
    parsed_view, rss_channel_in, texts_view, AtomEntry, AtomEntryView, AtomFeed, FeedParseError,
    RssChannel, RssItem, RssItemView,
};
use crate::text::{
    ascii_lower_text, copy_opt, decimal, decimal_view, opt_view, same_text, signed_decimal,
    signed_decimal_view, to_ascii_lower,
};
use crate::time::Timestamp;
use vstd::prelude::*;

verus! {

/// The number that decimal digits stand for.
pub open spec fn number(digits: Seq<char>) -> int
    decreases digits.len(),
{
    if digits.len() == 0 {
        0
    } else {
        10 * number(digits.drop_last()) + (digits.last() as int - '0' as int)
    }
}

/// Whether a text is a number as it is written: digits, at least one, and no zero before others.
pub open spec fn is_written(digits: Seq<char>) -> bool {
    &&& digits.len() > 0
    &&& forall|i: int| 0 <= i < digits.len() ==> '0' <= #[trigger] digits[i] <= '9'
    &&& digits.len() > 1 ==> digits[0] != '0'
}

proof fn lemma_decimal(n: nat)
    ensures
        is_written(decimal_view(n)),
        number(decimal_view(n)) == n,
        n > 0 ==> decimal_view(n)[0] != '0',
    decreases n,
{
    reveal_with_fuel(number, 2);
    let s = decimal_view(n);
    if n < 10 {
        assert(s.drop_last() =~= Seq::empty());
    } else {
        lemma_decimal(n / 10);
        let shorter = decimal_view(n / 10);
        assert(s.drop_last() =~= shorter);
        assert(s[0] == shorter[0]);
        assert forall|i: int| 0 <= i < s.len() implies '0' <= #[trigger] s[i] <= '9' by {
            if i < shorter.len() {
                assert('0' <= shorter[i] <= '9');
            }
        }
    }
}

/// A number is written in decimal digits that stand for it, without needless zeros.
pub proof fn law_numbers_are_written_in_decimal(n: u64, r: String)
    requires
        call_ensures(decimal, (n,), r),
    ensures
        is_written(r@),
        number(r@) == n,
{
    lemma_decimal(n as nat);
}

/// An integer is written with a minus sign exactly where it is negative, before the digits of its
/// size.
pub proof fn law_integers_are_written_with_their_sign(i: int)
    ensures
        i >= 0 ==> is_written(signed_decimal_view(i)) && number(signed_decimal_view(i)) == i,
        i < 0 ==> signed_decimal_view(i).len() > 1 && signed_decimal_view(i)[0] == '-'
            && is_written(signed_decimal_view(i).skip(1)) && number(signed_decimal_view(i).skip(1))
            == -i,
{
    if i >= 0 {
        lemma_decimal(i as nat);
    } else {
        lemma_decimal((-i) as nat);
        assert(signed_decimal_view(i).skip(1) =~= decimal_view((-i) as nat));
    }
}

/// Identifiers are written as the integers that they are.
pub proof fn law_identifiers_are_written_as_integers(
    i: i64,
    s: String,
    entry_id: EntryId,
    entry: String,
    feed_id: FeedId,
    feed: String,
)
    requires
        call_ensures(signed_decimal, (i,), s),
        call_ensures(EntryId::to_string, (&entry_id,), entry),
        call_ensures(FeedId::to_string, (&feed_id,), feed),
    ensures
        s@ == signed_decimal_view(i as int),
        entry@ == signed_decimal_view(entry_id.0 as int),
        feed@ == signed_decimal_view(feed_id.0 as int),
{
}

/// An identifier made from an integer is that integer.
pub proof fn law_identifiers_are_integers(i: i64, entry_id: EntryId, feed_id: FeedId)
    requires
        call_ensures(<EntryId as From<i64>>::from, (i,), entry_id),
        call_ensures(<FeedId as From<i64>>::from, (i,), feed_id),
    ensures
        entry_id.0 == i,
        feed_id.0 == i,
{
}

/// Making letters small leaves every character in its place, and changes the capital ASCII letters
/// alone.
pub proof fn law_only_capitals_are_made_small(s: &str, r: String, i: int)
    requires
        call_ensures(to_ascii_lower, (s,), r),
    ensures
        r@.len() == s@.len(),
        0 <= i < s@.len() && 'A' <= s@[i] <= 'Z' ==> r@[i] as int == s@[i] as int + 32,
        0 <= i < s@.len() && !('A' <= s@[i] <= 'Z') ==> r@[i] == s@[i],
{
    assert(r@ == ascii_lower_text(s@));
}

/// Texts are the same where their characters are, and a copy is the same text.
pub proof fn law_texts_are_their_characters(
    a: &str,
    b: &str,
    same: bool,
    o: Option<String>,
    copy: Option<String>,
)
    requires
        call_ensures(same_text, (a, b), same),
        call_ensures(copy_opt, (&o,), copy),
    ensures
        same <==> a@ == b@,
        same_opt(o, copy),
{
}

/// The kinds of feed are named `Atom` and `RSS`, and nothing else names them; what is no name is
/// told.
pub proof fn law_kinds_are_named(
    kind: FeedKind,
    name: String,
    s: &str,
    r: Result<FeedKind, FeedKindError>,
    e: FeedKindError,
    told: String,
)
    requires
        call_ensures(FeedKind::to_string, (&kind,), name),
        call_ensures(FeedKind::from_str, (s,), r),
        call_ensures(FeedKindError::message, (&e,), told),
    ensures
        kind is Atom <==> name@ == "Atom"@,
        kind is Rss <==> name@ == "RSS"@,
        s@ == "Atom"@ <==> (r matches Ok(k) && k is Atom),
        s@ == "RSS"@ <==> (r matches Ok(k) && k is Rss),
        r matches Err(f) ==> f.text@ == s@,
        told@ == e.text@ + " is not a valid FeedKind"@,
{
    reveal_strlit("Atom");
    reveal_strlit("RSS");
    assert("Atom"@.len() != "RSS"@.len());
}

/// Whether a text came from another by decoding its HTML entities.
pub open spec fn decoded_from(r: Option<String>, text: Option<String>) -> bool {
    match text {
        Some(t) => holds(r, html_decoded(t@)),
        None => r is None,
    }
}

/// Each text of an entry is decoded by itself, whatever the others are: the title, the author, the
/// description and the content. The link and the date stay as they are.
pub proof fn law_each_text_is_decoded(entry: IncomingEntry, r: IncomingEntry)
    requires
        call_ensures(IncomingEntry::decode, (&entry,), r),
    ensures
        decoded_from(r.title, entry.title),
        decoded_from(r.author, entry.author),
        decoded_from(r.description, entry.description),
        decoded_from(r.content, entry.content),
        same_opt(r.link, entry.link),
        r.pub_date == entry.pub_date,
{
}

/// Whether a text, if there is one, holds no ampersand.
pub open spec fn has_no_entities(text: Option<String>) -> bool {
    text matches Some(t) ==> !t@.contains('&')
}

/// An entry whose texts hold no ampersand is left as it is.
pub proof fn law_plain_text_is_left_alone(entry: IncomingEntry, r: IncomingEntry)
    requires
        call_ensures(IncomingEntry::decode, (&entry,), r),
        has_no_entities(entry.title),
        has_no_entities(entry.author),
        has_no_entities(entry.description),
        has_no_entities(entry.content),
    ensures
        same_opt(r.title, entry.title),
        same_opt(r.author, entry.author),
        same_opt(r.description, entry.description),
        same_opt(r.content, entry.content),
        same_opt(r.link, entry.link),
        r.pub_date == entry.pub_date,
{
    assert(entry@.is_plain());
    assert(r@ == entry@);
    assert(r@.title == entry@.title);
    assert(r@.author == entry@.author);
    assert(r@.description == entry@.description);
    assert(r@.content == entry@.content);
    assert(r@.link == entry@.link);
    assert(r@.pub_date == entry@.pub_date);
}

/// Whether a text is the first of a list, and missing where the list is empty.
pub open spec fn is_first(r: Option<String>, texts: Seq<String>) -> bool {
    if texts.len() > 0 {
        holds(r, texts[0]@)
    } else {
        r is None
    }
}

/// The parts of an entry are taken from a document as they stand there: of an Atom entry the
/// title, the first author, the date, the value of the content and the first link; of an RSS item
/// all that it has.
pub proof fn law_parts_are_taken_as_they_stand(
    entry: AtomEntry,
    a: IncomingEntry,
    item: RssItem,
    date: Option<Timestamp>,
    b: IncomingEntry,
)
    requires
        call_ensures(AtomEntry::choose_parts, (&entry,), a),
        call_ensures(RssItem::choose_parts, (&item, date), b),
    ensures
        holds(a.title, entry.title@),
        is_first(a.author, entry.authors@),
        a.pub_date == entry.published,
        a.description is None,
        match entry.content {
            Some(value) => same_opt(a.content, value),
            None => a.content is None,
        },
        is_first(a.link, entry.links@),
        same_opt(b.title, item.title),
        same_opt(b.author, item.author),
        b.pub_date == date,
        same_opt(b.description, item.description),
        same_opt(b.content, item.content),
        same_opt(b.link, item.link),
{
    assert(texts_view(entry.authors@).len() == entry.authors.len());
    assert(texts_view(entry.links@).len() == entry.links.len());
    if entry.authors.len() > 0 {
        assert(texts_view(entry.authors@)[0] == entry.authors[0]@);
    }
    if entry.links.len() > 0 {
        assert(texts_view(entry.links@)[0] == entry.links[0]@);
    }
}

/// Whether a text holds what an optional text decodes to.
pub open spec fn decodes_to(r: Option<String>, text: Option<Seq<char>>) -> bool {
    match text {
        Some(t) => holds(r, html_decoded(t)),
        None => r is None,
    }
}

/// Whether a text holds an optional text.
pub open spec fn holds_opt(r: Option<String>, text: Option<Seq<char>>) -> bool {
    match text {
        Some(t) => holds(r, t),
        None => r is None,
    }
}

/// Whether an entry is what an Atom entry becomes.
pub open spec fn is_from_atom(r: IncomingEntry, entry: AtomEntryView) -> bool {
    &&& holds(r.title, html_decoded(entry.title))
    &&& if entry.authors.len() > 0 {
        holds(r.author, html_decoded(entry.authors[0]))
    } else {
        r.author is None
    }
    &&& r.pub_date == entry.published
    &&& r.description is None
    &&& match entry.content {
        Some(value) => decodes_to(r.content, value),
        None => r.content is None,
    }
    &&& if entry.links.len() > 0 {
        holds(r.link, entry.links[0])
    } else {
        r.link is None
    }
}

/// Whether an entry is what an RSS item becomes.
pub open spec fn is_from_rss(r: IncomingEntry, item: RssItemView) -> bool {
    &&& decodes_to(r.title, item.title)
    &&& decodes_to(r.author, item.author)
    &&& r.pub_date == match item.pub_date {
        Some(text) => date_in(text),
        None => None,
    }
    &&& decodes_to(r.description, item.description)
    &&& decodes_to(r.content, item.content)
    &&& holds_opt(r.link, item.link)
}

proof fn lemma_from_atom(r: IncomingEntry, entry: AtomEntryView)
    requires
        r@ == entry_from_atom(entry),
    ensures
        is_from_atom(r, entry),
{
}

proof fn lemma_from_rss(r: IncomingEntry, item: RssItemView)
    requires
        r@ == entry_from_rss(item),
    ensures
        is_from_rss(r, item),
{
}

/// An entry that comes from a document has its texts decoded, each by itself, its date as it was
/// read, and its link as it stands in the document.
pub proof fn law_entries_come_from_documents(
    entry: AtomEntry,
    a: IncomingEntry,
    item: RssItem,
    b: IncomingEntry,
)
    requires
        call_ensures(<IncomingEntry as From<&AtomEntry>>::from, (&entry,), a),
        call_ensures(<IncomingEntry as From<&RssItem>>::from, (&item,), b),
    ensures
        holds(a.title, html_decoded(entry.title@)),
        entry.authors.len() > 0 ==> holds(a.author, html_decoded(entry.authors[0]@)),
        entry.authors.len() == 0 ==> a.author is None,
        a.pub_date == entry.published,
        a.description is None,
        entry.content matches Some(value) ==> decoded_from(a.content, value),
        entry.content is None ==> a.content is None,
        is_first(a.link, entry.links@),
        decoded_from(b.title, item.title),
        decoded_from(b.author, item.author),
        b.pub_date == match item.pub_date {
            Some(text) => date_in(text@),
            None => None,
        },
        decoded_from(b.description, item.description),
        decoded_from(b.content, item.content),
        same_opt(b.link, item.link),
{
    lemma_from_atom(a, entry@);
    lemma_from_rss(b, item@);
    if entry.authors.len() > 0 {
        assert(texts_view(entry.authors@)[0] == entry.authors[0]@);
    }
    if entry.links.len() > 0 {
        assert(texts_view(entry.links@)[0] == entry.links[0]@);
    }
    assert(texts_view(entry.authors@).len() == entry.authors.len());
    assert(texts_view(entry.links@).len() == entry.links.len());
}

/// A feed that comes from a document has the title and the link that stand there, and one entry for
/// each that the document has, in the same place.
pub proof fn law_feeds_come_from_documents(
    atom: AtomFeed,
    a: FeedAndEntries,
    rss: RssChannel,
    b: FeedAndEntries,
    i: int,
)
    requires
        call_ensures(FeedAndEntries::from_atom, (&atom,), a),
        call_ensures(FeedAndEntries::from_rss, (&rss,), b),
    ensures
        holds(a.feed.title, atom.title@),
        a.feed.feed_link is None,
        is_first(a.feed.link, atom.links@),
        a.feed.feed_kind is Atom,
        a.feed.latest_etag is None,
        a.entries.len() == atom.entries.len(),
        0 <= i < atom.entries.len() ==> is_from_atom(a.entries[i], atom.entries[i]@),
        holds(b.feed.title, rss.title@),
        b.feed.feed_link is None,
        holds(b.feed.link, rss.link@),
        b.feed.feed_kind is Rss,
        b.feed.latest_etag is None,
        b.entries.len() == rss.items.len(),
        0 <= i < rss.items.len() ==> is_from_rss(b.entries[i], rss.items[i]@),
{
    assert(a@.entries.len() == a.entries.len() && b@.entries.len() == b.entries.len());
    assert(atom@.entries.len() == atom.entries.len() && rss@.items.len() == rss.items.len());
    assert(texts_view(atom.links@).len() == atom.links.len());
    if atom.links.len() > 0 {
        assert(texts_view(atom.links@)[0] == atom.links[0]@);
    }
    assert(a@.feed == a.feed@ && b@.feed == b.feed@);
    if 0 <= i < atom.entries.len() {
        assert(a@.entries[i] == a.entries[i]@);
        assert(atom@.entries[i] == atom.entries[i]@);
        lemma_from_atom(a.entries[i], atom.entries[i]@);
    }
    if 0 <= i < rss.items.len() {
        assert(b@.entries[i] == b.entries[i]@);
        assert(rss@.items[i] == rss.items[i]@);
        lemma_from_rss(b.entries[i], rss.items[i]@);
    }
}

/// What an Atom entry holds is all of it, and so it is with an RSS item.
pub proof fn law_nothing_in_a_document_is_overlooked(entry: AtomEntry, item: RssItem, i: int)
    ensures
        entry@.title == entry.title@,
        entry@.authors.len() == entry.authors.len(),
        0 <= i < entry.authors.len() ==> entry@.authors[i] == entry.authors[i]@,
        entry@.published == entry.published,
        entry.content matches Some(value) ==> (entry@.content matches Some(v) && holds_opt(
            value,
            v,
        )),
        entry.content is None ==> entry@.content is None,
        entry@.links.len() == entry.links.len(),
        0 <= i < entry.links.len() ==> entry@.links[i] == entry.links[i]@,
        holds_opt(item.title, item@.title),
        holds_opt(item.author, item@.author),
        holds_opt(item.pub_date, item@.pub_date),
        holds_opt(item.description, item@.description),
        holds_opt(item.content, item@.content),
        holds_opt(item.link, item@.link),
{
}

/// Reading a document gives the Atom feed that is in it; where there is none, the RSS channel that
/// is in it; and where there is neither, the error of RSS. All that is in the feed comes in.
pub proof fn law_documents_are_read(s: &str, r: Result<FeedAndEntries, FeedParseError>, i: int)
    requires
        call_ensures(FeedAndEntries::from_str, (s,), r),
    ensures
        atom_feed_in(s@) matches Some(atom) ==> r matches Ok(f) && {
            &&& holds(f.feed.title, atom.title)
            &&& f.feed.feed_link is None
            &&& if atom.links.len() > 0 {
                holds(f.feed.link, atom.links[0])
            } else {
                f.feed.link is None
            }
            &&& f.feed.feed_kind is Atom
            &&& f.feed.latest_etag is None
            &&& f.entries.len() == atom.entries.len()
            &&& 0 <= i < atom.entries.len() ==> is_from_atom(f.entries[i], atom.entries[i])
        },
        atom_feed_in(s@) is None ==> match rss_channel_in(s@) {
            Ok(rss) => r matches Ok(f) && {
                &&& holds(f.feed.title, rss.title)
                &&& f.feed.feed_link is None
                &&& holds(f.feed.link, rss.link)
                &&& f.feed.feed_kind is Rss
                &&& f.feed.latest_etag is None
                &&& f.entries.len() == rss.items.len()
                &&& 0 <= i < rss.items.len() ==> is_from_rss(f.entries[i], rss.items[i])
            },
            Err(message) => r matches Err(e) && e.message@ == message,
        },
{
    assert(parsed_view(r) == feed_in(s@));
    if let Ok(f) = r {
        assert(f@.entries.len() == f.entries.len());
        assert(f@.feed == f.feed@);
        if 0 <= i < f.entries.len() {
            assert(f@.entries[i] == f.entries[i]@);
            match atom_feed_in(s@) {
                Some(atom) => {
                    lemma_from_atom(f.entries[i], atom.entries[i]);
                },
                None => {
                    lemma_from_rss(f.entries[i], rss_channel_in(s@)->Ok_0.items[i]);
                },
            }
        }
    }
}

/// A date is what the text gives.
pub proof fn law_dates_are_read(s: &str, r: Option<Timestamp>)
    requires
        call_ensures(parse_datetime, (s,), r),
    ensures
        r == date_in(s@),
{
}

/// A request for a feed asks its address, and tells the entity tag if there is one, and nothing
/// else.
pub proof fn law_a_feed_is_asked_for(
    url: &str,
    etag: Option<String>,
    r: (AwaitingResponse, HttpRequest),
)
    requires
        call_ensures(fetch_feed, (url, etag), r),
    ensures
        r.0.url@ == url@,
        requests(r.1, url@, etag),
{
    let v = r.1@.headers;
    assert(v.len() == r.1.headers.len());
    if etag is Some {
        assert(v[0] == (r.1.headers[0].0@, r.1.headers[0].1@));
    }
}

/// Whether every byte is a printable ASCII character, a space or a tab.
pub open spec fn is_printable(value: Seq<u8>) -> bool {
    forall|i: int| 0 <= i < value.len() ==> (32 <= #[trigger] value[i] <= 126 || value[i] == 9)
}

/// Whether a header says this text.
pub open spec fn says(r: Option<String>, value: Seq<u8>) -> bool {
    if is_printable(value) {
        r matches Some(text) && text@.len() == value.len() && forall|i: int|
            0 <= i < value.len() ==> (#[trigger] text@[i]) as int == value[i]
    } else {
        r is None
    }
}

proof fn lemma_says(r: Option<String>, value: Seq<u8>)
    requires
        opt_view(r) == header_text_view(value),
    ensures
        says(r, value),
{
    if is_printable(value) {
        assert forall|i: int| 0 <= i < value.len() implies is_visible(#[trigger] value[i]) by {}
    } else {
        let i = choose|i: int|
            0 <= i < value.len() && !(32 <= #[trigger] value[i] <= 126 || value[i] == 9);
        assert(!is_visible(value[i]));
    }
}

/// A header is text exactly where all its bytes are printable, and then it is those bytes.
pub proof fn law_a_header_is_its_bytes(value: &[u8], r: Option<String>)
    requires
        call_ensures(header_text, (value,), r),
    ensures
        says(r, value@),
{
    lemma_says(r, value@);
}

/// Whether a name is `etag`, in whatever case.
pub open spec fn is_etag(name: Seq<char>) -> bool {
    &&& name.len() == 4
    &&& name[0] == 'e' || name[0] == 'E'
    &&& name[1] == 't' || name[1] == 'T'
    &&& name[2] == 'a' || name[2] == 'A'
    &&& name[3] == 'g' || name[3] == 'G'
}

proof fn lemma_is_etag(name: Seq<char>)
    ensures
        is_etag(name) <==> ascii_lower_text(name) == "etag"@,
{
    reveal_strlit("etag");
    let lower = ascii_lower_text(name);
    assert(lower.len() == name.len());
    if is_etag(name) {
        assert(lower =~= "etag"@);
    }
    if lower == "etag"@ {
        assert(lower[0] == 'e' && lower[1] == 't' && lower[2] == 'a' && lower[3] == 'g');
        assert(lower[0] == crate::text::ascii_lower(name[0]));
        assert(lower[1] == crate::text::ascii_lower(name[1]));
        assert(lower[2] == crate::text::ascii_lower(name[2]));
        assert(lower[3] == crate::text::ascii_lower(name[3]));
    }
}

/// Whether a text is the entity tag among headers: what the first header of that name says, and
/// nothing where no header has that name.
pub open spec fn is_etag_of(r: Option<String>, headers: Seq<Header>) -> bool {
    &&& (forall|k: int| 0 <= k < headers.len() ==> !is_etag((#[trigger] headers[k]).name@)) ==> r
        is None
    &&& forall|k: int|
        0 <= k < headers.len() && is_etag((#[trigger] headers[k]).name@) && (forall|j: int|
            0 <= j < k ==> !is_etag((#[trigger] headers[j]).name@)) ==> says(r, headers[k].value@)
}

proof fn lemma_etag_from(headers: Seq<Header>, from: int)
    requires
        0 <= from <= headers.len(),
    ensures
        (forall|k: int| from <= k < headers.len() ==> !is_etag((#[trigger] headers[k]).name@))
            ==> etag_in(headers_view(headers).skip(from)) is None,
        forall|k: int|
            from <= k < headers.len() && is_etag((#[trigger] headers[k]).name@) && (forall|j: int|
                from <= j < k ==> !is_etag((#[trigger] headers[j]).name@)) ==> etag_in(
                headers_view(headers).skip(from),
            ) == header_text_view(headers[k].value@),
    decreases headers.len() - from,
{
    let all = headers_view(headers);
    if from < headers.len() {
        lemma_etag_from(headers, from + 1);
        assert(all.skip(from)[0] == headers[from]@);
        assert(all.skip(from).skip(1) =~= all.skip(from + 1));
        lemma_is_etag(headers[from].name@);
        assert forall|k: int|
            from <= k < headers.len() && is_etag((#[trigger] headers[k]).name@) && (forall|j: int|
                from <= j < k ==> !is_etag((#[trigger] headers[j]).name@)) implies etag_in(
            all.skip(from),
        ) == header_text_view(headers[k].value@) by {
            if k > from {
                assert(!is_etag(headers[from].name@));
            }
        }
    }
}

proof fn lemma_etag(r: Option<String>, headers: Seq<Header>)
    requires
        opt_view(r) == etag_in(headers_view(headers)),
    ensures
        is_etag_of(r, headers),
{
    lemma_etag_from(headers, 0);
    assert(headers_view(headers).skip(0) =~= headers_view(headers));
    assert forall|k: int|
        0 <= k < headers.len() && is_etag((#[trigger] headers[k]).name@) && (forall|j: int|
            0 <= j < k ==> !is_etag((#[trigger] headers[j]).name@)) implies says(
        r,
        headers[k].value@,
    ) by {
        lemma_says(r, headers[k].value@);
    }
}

/// The entity tag is what the first header of that name says, in whatever case the name is.
pub proof fn law_the_etag_is_found(headers: Vec<Header>, r: Option<String>)
    requires
        call_ensures(find_etag, (&headers,), r),
    ensures
        is_etag_of(r, headers@),
{
    lemma_etag(r, headers@);
}

/// A response of status 200 brings a document, which is read next, with the address that was asked
/// and the entity tag of the response; one of status 304 says that nothing changed; any other is
/// an error, and so is none.
pub proof fn law_a_response_is_understood<E>(
    step: AwaitingResponse,
    head: Result<ResponseHead, E>,
    r: Result<AfterResponse, FetchError<E>>,
)
    requires
        call_ensures(AwaitingResponse::response::<E>, (step, head), r),
    ensures
        head matches Err(e) ==> r == Err::<AfterResponse, FetchError<E>>(FetchError::Transport(e)),
        head matches Ok(h) ==> if h.status == 200 {
            r matches Ok(AfterResponse::ReadBody(next)) && next.url@ == step.url@ && is_etag_of(
                next.etag,
                h.headers@,
            )
        } else if h.status == 304 {
            r matches Ok(AfterResponse::Done(answer)) && answer is CacheHit
        } else {
            r == Err::<AfterResponse, FetchError<E>>(FetchError::UnexpectedStatus(h.status))
        },
{
    if let Ok(h) = head {
        if h.status == 200 {
            lemma_etag(r->Ok_0->ReadBody_0.etag, h.headers@);
        }
    }
}

/// A feed that was fetched is the feed that the document was read as, with nothing changed but its
/// address, which is the one that was asked, and its entity tag, which is the one of the response.
pub proof fn law_a_fetched_feed_is_the_one_read<E>(
    step: AwaitingBody,
    reading: Result<FeedAndEntries, FeedParseError>,
    r: Result<FeedResponse, FetchError<E>>,
    i: int,
)
    requires
        call_ensures(AwaitingBody::reading::<E>, (step, reading), r),
    ensures
        reading matches Err(e) ==> r matches Err(FetchError::NotAFeed(f)) && f.message@
            == e.message@,
        reading matches Ok(f) ==> r matches Ok(FeedResponse::CacheMiss(g)) && {
            &&& same_opt(g.feed.title, f.feed.title)
            &&& holds(g.feed.feed_link, step.url@)
            &&& same_opt(g.feed.link, f.feed.link)
            &&& g.feed.feed_kind == f.feed.feed_kind
            &&& same_opt(g.feed.latest_etag, step.etag)
            &&& g.entries.len() == f.entries.len()
            &&& 0 <= i < f.entries.len() ==> super::storing::same_entry(g.entries[i], f.entries[i])
        },
{
    match reading {
        Ok(f) => {
            let g = r->Ok_0->CacheMiss_0;
            let want = f@.with_latest_etag(opt_view(step.etag)).with_feed_link(step.url@);
            assert(g@ == want);
            assert(g@.feed == g.feed@ && f@.feed == f.feed@);
            assert(g.feed@ == want.feed);
            assert(g@.entries == f@.entries);
            assert(g@.entries.len() == g.entries.len() && f@.entries.len() == f.entries.len());
            if 0 <= i < f.entries.len() {
                assert(g@.entries[i] == g.entries[i]@);
                assert(f@.entries[i] == f.entries[i]@);
            }
        },
        Err(_) => {},
    }
}

/// Recording the address of a feed changes its address alone, and recording its entity tag changes
/// its entity tag alone; the later of two records counts.
pub proof fn law_records_change_one_thing(
    f: FeedAndEntriesView,
    url: Seq<char>,
    etag: Option<Seq<char>>,
)
    ensures
        f.with_feed_link(url).entries == f.entries,
        f.with_feed_link(url).feed.title == f.feed.title,
        f.with_feed_link(url).feed.feed_link == Some(url),
        f.with_feed_link(url).feed.link == f.feed.link,
        f.with_feed_link(url).feed.feed_kind == f.feed.feed_kind,
        f.with_feed_link(url).feed.latest_etag == f.feed.latest_etag,
        f.with_latest_etag(etag).entries == f.entries,
        f.with_latest_etag(etag).feed.title == f.feed.title,
        f.with_latest_etag(etag).feed.feed_link == f.feed.feed_link,
        f.with_latest_etag(etag).feed.link == f.feed.link,
        f.with_latest_etag(etag).feed.feed_kind == f.feed.feed_kind,
        f.with_latest_etag(etag).feed.latest_etag == etag,
{
}

/// A copy of an entry says the same.
pub proof fn law_a_copy_says_the_same(entry: IncomingEntry, r: IncomingEntry)
    requires
        call_ensures(<IncomingEntry as Clone>::clone, (&entry,), r),
    ensures
        super::storing::same_entry(r, entry),
{
}

/// A body that came is read as a document: what the fetch comes to is the feed that is in it, with
/// the address that was asked and the entity tag of the response; a body that did not come, or
/// that is no feed, is an error.
pub proof fn law_a_body_is_read<E>(
    step: AwaitingBody,
    body: Result<String, E>,
    r: Result<FeedResponse, FetchError<E>>,
    i: int,
)
    requires
        call_ensures(AwaitingBody::body::<E>, (step, body), r),
    ensures
        body matches Err(e) ==> r == Err::<FeedResponse, FetchError<E>>(FetchError::Transport(e)),
        body matches Ok(text) ==> match atom_feed_in(text@) {
            Some(atom) => r matches Ok(FeedResponse::CacheMiss(f)) && {
                &&& holds(f.feed.title, atom.title)
                &&& holds(f.feed.feed_link, step.url@)
                &&& same_opt(f.feed.latest_etag, step.etag)
                &&& f.feed.feed_kind is Atom
                &&& f.entries.len() == atom.entries.len()
                &&& 0 <= i < atom.entries.len() ==> is_from_atom(f.entries[i], atom.entries[i])
            },
            None => match rss_channel_in(text@) {
                Ok(rss) => r matches Ok(FeedResponse::CacheMiss(f)) && {
                    &&& holds(f.feed.title, rss.title)
                    &&& holds(f.feed.link, rss.link)
                    &&& holds(f.feed.feed_link, step.url@)
                    &&& same_opt(f.feed.latest_etag, step.etag)
                    &&& f.feed.feed_kind is Rss
                    &&& f.entries.len() == rss.items.len()
                    &&& 0 <= i < rss.items.len() ==> is_from_rss(f.entries[i], rss.items[i])
                },
                Err(message) => r matches Err(FetchError::NotAFeed(e)) && e.message@ == message,
            },
        },
{
    if let Ok(text) = body {
        if let Ok(FeedResponse::CacheMiss(f)) = r {
            let read = feed_in(text@)->Ok_0;
            let want = read.with_latest_etag(opt_view(step.etag)).with_feed_link(step.url@);
            assert(f@ == want);
            assert(f@.feed == f.feed@);
            assert(f@.entries == read.entries);
            assert(f@.entries.len() == f.entries.len());
            if 0 <= i < f.entries.len() {
                assert(f@.entries[i] == f.entries[i]@);
                match atom_feed_in(text@) {
                    Some(atom) => {
                        lemma_from_atom(f.entries[i], atom.entries[i]);
                    },
                    None => {
                        lemma_from_rss(f.entries[i], rss_channel_in(text@)->Ok_0.items[i]);
                    },
                }
            }
        }
    }
}

} // verus!
