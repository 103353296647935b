//! Reading Atom and RSS documents.
//!
//! The documents themselves are read by `atom_syndication` and `rss`; which of their parts
//! make up a feed and its entries is decided here.
use crate::feed::{
    FeedAndEntries, FeedAndEntriesView, FeedKind, IncomingEntry, IncomingEntryView,
    IncomingFeed, IncomingFeedView,
};
use crate::text::{copy_opt, opt_view};
use crate::time::Timestamp;
use std::str::FromStr;
use vstd::prelude::*;
use vstd::std_specs::convert::FromSpecImpl;

verus! {

/// The parts of an Atom entry that the reader looks at.
#[derive(Debug)]
pub struct AtomEntry {
    pub title: String,
    /// The names of the authors, in document order.
    pub authors: Vec<String>,
    pub published: Option<Timestamp>,
    /// The value of the content element, where there is such an element and where it has one.
    pub content: Option<Option<String>>,
    /// The targets of the links, in document order.
    pub links: Vec<String>,
}

/// The parts of an Atom feed that the reader looks at.
#[derive(Debug)]
pub struct AtomFeed {
    pub title: String,
    /// The targets of the links, in document order.
    pub links: Vec<String>,
    pub entries: Vec<AtomEntry>,
}

/// The parts of an RSS item that the reader looks at.
#[derive(Debug)]
pub struct RssItem {
    pub title: Option<String>,
    pub author: Option<String>,
    pub pub_date: Option<String>,
    pub description: Option<String>,
    pub content: Option<String>,
    pub link: Option<String>,
}

/// The parts of an RSS channel that the reader looks at.
#[derive(Debug)]
pub struct RssChannel {
    pub title: String,
    pub link: String,
    pub items: Vec<RssItem>,
}

/// What an Atom entry holds.
#[verifier::ext_equal]
pub struct AtomEntryView {
    pub title: Seq<char>,
    pub authors: Seq<Seq<char>>,
    pub published: Option<Timestamp>,
    pub content: Option<Option<Seq<char>>>,
    pub links: Seq<Seq<char>>,
}

/// What an Atom feed holds.
#[verifier::ext_equal]
pub struct AtomFeedView {
    pub title: Seq<char>,
    pub links: Seq<Seq<char>>,
    pub entries: Seq<AtomEntryView>,
}

/// What an RSS item holds.
#[verifier::ext_equal]
pub struct RssItemView {
    pub title: Option<Seq<char>>,
    pub author: Option<Seq<char>>,
    pub pub_date: Option<Seq<char>>,
    pub description: Option<Seq<char>>,
    pub content: Option<Seq<char>>,
    pub link: Option<Seq<char>>,
}

/// What an RSS channel holds.
#[verifier::ext_equal]
pub struct RssChannelView {
    pub title: Seq<char>,
    pub link: Seq<char>,
    pub items: Seq<RssItemView>,
}

/// What a list of texts holds.
pub open spec fn texts_view(texts: Seq<String>) -> Seq<Seq<char>> {
    texts.map_values(|s: String| s@)
}

impl View for AtomEntry {
    type V = AtomEntryView;

    open spec fn view(&self) -> AtomEntryView {
        AtomEntryView {
            title: self.title@,
            authors: texts_view(self.authors@),
            published: self.published,
            content: match self.content {
                Some(value) => Some(opt_view(value)),
                None => None,
            },
            links: texts_view(self.links@),
        }
    }
}

impl View for AtomFeed {
    type V = AtomFeedView;

    open spec fn view(&self) -> AtomFeedView {
        AtomFeedView {
            title: self.title@,
            links: texts_view(self.links@),
            entries: self.entries@.map_values(|e: AtomEntry| e@),
        }
    }
}

impl View for RssItem {
    type V = RssItemView;

    open spec fn view(&self) -> RssItemView {
        RssItemView {
            title: opt_view(self.title),
            author: opt_view(self.author),
            pub_date: opt_view(self.pub_date),
            description: opt_view(self.description),
            content: opt_view(self.content),
            link: opt_view(self.link),
        }
    }
}

impl View for RssChannel {
    type V = RssChannelView;

    open spec fn view(&self) -> RssChannelView {
        RssChannelView {
            title: self.title@,
            link: self.link@,
            items: self.items@.map_values(|i: RssItem| i@),
        }
    }
}

/// The Atom feed that a document holds, as `atom_syndication` reads it; `None` where it
/// refuses the document.
pub uninterp spec fn atom_feed_in(document: Seq<char>) -> Option<AtomFeedView>;

/// The RSS channel that a document holds, as `rss` reads it; where it refuses the document,
/// the text of its error.
pub uninterp spec fn rss_channel_in(document: Seq<char>) -> Result<RssChannelView, Seq<char>>;

/// A text with its HTML entities decoded by `html_escape`.
pub uninterp spec fn html_decoded(text: Seq<char>) -> Seq<char>;

/// The instant that a text gives, as `diligent_date_parser` reads it.
pub uninterp spec fn date_in(text: Seq<char>) -> Option<Timestamp>;

/// Reads an Atom document. Trusted: the result of `atom_syndication::Feed::from_str`, reduced
/// to the parts that `AtomFeed` has, depends on the document alone. An instant is taken
/// without the offset it was written in. Elements of foreign namespaces are read recursively,
/// so a document that nests them deeper than the stack allows cannot be read.
#[verifier::external_body]
fn read_atom(document: &str) -> (r: Option<AtomFeed>)
    ensures
        match r {
            Some(feed) => atom_feed_in(document@) == Some(feed@),
            None => atom_feed_in(document@) is None,
        },
{
    let hrefs = |links: &[atom_syndication::Link]| links.iter().map(|l| l.href.clone()).collect();
    atom_syndication::Feed::from_str(document).ok().map(|feed| AtomFeed {
        links: hrefs(&feed.links),
        title: feed.title.value,
        entries: feed.entries.into_iter().map(|e| AtomEntry {
            links: hrefs(&e.links),
            title: e.title.value,
            authors: e.authors.into_iter().map(|a| a.name).collect(),
            published: e.published.map(|d| Timestamp {
                secs: d.timestamp(),
                nanos: d.timestamp_subsec_nanos(),
            }),
            content: e.content.map(|c| c.value),
        }).collect(),
    })
}

/// Reads an RSS document. Trusted: the result of `rss::Channel::from_str`, reduced to the parts
/// that `RssChannel` has, depends on the document alone, and so does the text of the error
/// where there is one. Elements of foreign namespaces are read recursively, so a document that
/// nests them deeper than the stack allows cannot be read.
#[verifier::external_body]
fn read_rss(document: &str) -> (r: Result<RssChannel, String>)
    ensures
        match r {
            Ok(channel) => rss_channel_in(document@) == Ok::<RssChannelView, Seq<char>>(channel@),
            Err(message) => rss_channel_in(document@) == Err::<RssChannelView, Seq<char>>(message@),
        },
{
    rss::Channel::from_str(document).map_err(|e| e.to_string()).map(|channel| RssChannel {
        title: channel.title,
        link: channel.link,
        items: channel.items.into_iter().map(|i| RssItem {
            title: i.title,
            author: i.author,
            pub_date: i.pub_date,
            description: i.description,
            content: i.content,
            link: i.link,
        }).collect(),
    })
}

/// Decodes HTML entities. Trusted: what `html_escape::decode_html_entities_to_string` appends
/// depends on the text alone, and a text without an ampersand is left as it is.
#[verifier::external_body]
fn decode_html(text: &str) -> (r: String)
    ensures
        r@ == html_decoded(text@),
        !text@.contains('&') ==> r@ == text@,
{
    let mut decoded = String::new();
    html_escape::decode_html_entities_to_string(text, &mut decoded);
    decoded
}

/// Reads a date in one of many formats. Trusted: the result of
/// `diligent_date_parser::parse_date`, taken as an instant, depends on the text alone.
#[verifier::external_body]
fn read_date(text: &str) -> (r: Option<Timestamp>)
    ensures
        r == date_in(text@),
{
    diligent_date_parser::parse_date(text)
        .map(|d| Timestamp { secs: d.timestamp(), nanos: d.timestamp_subsec_nanos() })
}

/// The instant that a text gives, in Universal Time.
pub fn parse_datetime(s: &str) -> (r: Option<Timestamp>)
    ensures
        r == date_in(s@),
{
    read_date(s)
}

/// The first of a list of texts.
pub open spec fn first_text(texts: Seq<Seq<char>>) -> Option<Seq<char>> {
    if texts.len() > 0 {
        Some(texts[0])
    } else {
        None
    }
}

/// An optional text with its HTML entities decoded.
pub open spec fn opt_decoded(text: Option<Seq<char>>) -> Option<Seq<char>> {
    match text {
        Some(t) => Some(html_decoded(t)),
        None => None,
    }
}

/// An optional date read from an optional text.
pub open spec fn opt_date(text: Option<Seq<char>>) -> Option<Timestamp> {
    match text {
        Some(t) => date_in(t),
        None => None,
    }
}

/// The parts of an Atom entry that make up an entry, before decoding: its title, its first
/// author, the date of its publication, the value of its content and its first link. An Atom
/// entry has no description.
pub open spec fn chosen_from_atom(entry: AtomEntryView) -> IncomingEntryView {
    IncomingEntryView {
        title: Some(entry.title),
        author: first_text(entry.authors),
        pub_date: entry.published,
        description: None,
        content: match entry.content {
            Some(value) => value,
            None => None,
        },
        link: first_text(entry.links),
    }
}

/// The parts of an RSS item that make up an entry, before decoding, given the date that its
/// publication date was read as.
pub open spec fn chosen_from_rss(
    item: RssItemView,
    pub_date: Option<Timestamp>,
) -> IncomingEntryView {
    IncomingEntryView {
        title: item.title,
        author: item.author,
        pub_date,
        description: item.description,
        content: item.content,
        link: item.link,
    }
}

impl IncomingEntryView {
    /// The entry with the HTML entities of its texts decoded. Its link is no HTML.
    pub open spec fn decoded(self) -> IncomingEntryView {
        IncomingEntryView {
            title: opt_decoded(self.title),
            author: opt_decoded(self.author),
            pub_date: self.pub_date,
            description: opt_decoded(self.description),
            content: opt_decoded(self.content),
            link: self.link,
        }
    }

    /// Whether none of the texts that are decoded holds an ampersand, so that there is nothing
    /// to decode.
    pub open spec fn is_plain(self) -> bool {
        &&& is_plain_text(self.title)
        &&& is_plain_text(self.author)
        &&& is_plain_text(self.description)
        &&& is_plain_text(self.content)
    }
}

/// Whether a text, if there is one, holds no ampersand.
pub open spec fn is_plain_text(text: Option<Seq<char>>) -> bool {
    text matches Some(t) ==> !t.contains('&')
}

/// The entry that an Atom entry becomes.
pub open spec fn entry_from_atom(entry: AtomEntryView) -> IncomingEntryView {
    chosen_from_atom(entry).decoded()
}

/// The entry that an RSS item becomes.
pub open spec fn entry_from_rss(item: RssItemView) -> IncomingEntryView {
    chosen_from_rss(item, opt_date(item.pub_date)).decoded()
}

fn first_copy(texts: &Vec<String>) -> (r: Option<String>)
    ensures
        opt_view(r) == first_text(texts_view(texts@)),
{
    if texts.len() > 0 {
        Some(texts[0].clone())
    } else {
        None
    }
}

fn decode_opt(text: &Option<String>) -> (r: Option<String>)
    ensures
        opt_view(r) == opt_decoded(opt_view(*text)),
        is_plain_text(opt_view(*text)) ==> opt_view(r) == opt_view(*text),
{
    match text {
        Some(t) => Some(decode_html(t.as_str())),
        None => None,
    }
}

impl AtomEntry {
    /// The parts that make up an entry, as they stand in the document.
    pub fn choose_parts(&self) -> (r: IncomingEntry)
        ensures
            r@ == chosen_from_atom(self@),
    {
        IncomingEntry {
            title: Some(self.title.clone()),
            author: first_copy(&self.authors),
            pub_date: self.published,
            description: None,
            content: match &self.content {
                Some(value) => copy_opt(value),
                None => None,
            },
            link: first_copy(&self.links),
        }
    }
}

impl RssItem {
    /// The parts that make up an entry, as they stand in the document, with `pub_date` for
    /// the date of publication.
    pub fn choose_parts(&self, pub_date: Option<Timestamp>) -> (r: IncomingEntry)
        ensures
            r@ == chosen_from_rss(self@, pub_date),
    {
        IncomingEntry {
            title: copy_opt(&self.title),
            author: copy_opt(&self.author),
            pub_date,
            description: copy_opt(&self.description),
            content: copy_opt(&self.content),
            link: copy_opt(&self.link),
        }
    }
}

impl IncomingEntry {
    /// Decodes the HTML entities of the title, the author, the description and the content.
    pub fn decode(&self) -> (r: IncomingEntry)
        ensures
            r@ == self@.decoded(),
            self@.is_plain() ==> r@ == self@,
    {
        IncomingEntry {
            title: decode_opt(&self.title),
            author: decode_opt(&self.author),
            pub_date: self.pub_date,
            description: decode_opt(&self.description),
            content: decode_opt(&self.content),
            link: copy_opt(&self.link),
        }
    }
}

impl From<&AtomEntry> for IncomingEntry {
    fn from(entry: &AtomEntry) -> (r: IncomingEntry)
        ensures
            r@ == entry_from_atom(entry@),
            chosen_from_atom(entry@).is_plain() ==> r@ == chosen_from_atom(entry@),
    {
        entry.choose_parts().decode()
    }
}

/// What `from` gives is stated over what an entry holds, by its own contract.
impl FromSpecImpl<&AtomEntry> for IncomingEntry {
    open spec fn obeys_from_spec() -> bool {
        false
    }

    open spec fn from_spec(entry: &AtomEntry) -> IncomingEntry {
        arbitrary()
    }
}

impl From<&RssItem> for IncomingEntry {
    fn from(item: &RssItem) -> (r: IncomingEntry)
        ensures
            r@ == entry_from_rss(item@),
            chosen_from_rss(item@, None).is_plain() ==> r@ == chosen_from_rss(
                item@,
                opt_date(item@.pub_date),
            ),
    {
        let pub_date = match &item.pub_date {
            Some(text) => parse_datetime(text.as_str()),
            None => None,
        };
        item.choose_parts(pub_date).decode()
    }
}

/// What `from` gives is stated over what an entry holds, by its own contract.
impl FromSpecImpl<&RssItem> for IncomingEntry {
    open spec fn obeys_from_spec() -> bool {
        false
    }

    open spec fn from_spec(item: &RssItem) -> IncomingEntry {
        arbitrary()
    }
}

/// A document that is neither Atom nor RSS.
#[derive(Clone, Debug)]
pub struct FeedParseError {
    /// What was wrong with the document as RSS.
    pub message: String,
}

/// The feed that an Atom document makes: its title, its first link, and each of its entries
/// in document order.
pub open spec fn feed_from_atom(feed: AtomFeedView) -> FeedAndEntriesView {
    FeedAndEntriesView {
        feed: IncomingFeedView {
            title: Some(feed.title),
            feed_link: None,
            link: first_text(feed.links),
            feed_kind: FeedKind::Atom,
            latest_etag: None,
        },
        entries: feed.entries.map_values(|e: AtomEntryView| entry_from_atom(e)),
    }
}

/// The feed that an RSS document makes: its title, its link, and each of its items in document
/// order.
pub open spec fn feed_from_rss(channel: RssChannelView) -> FeedAndEntriesView {
    FeedAndEntriesView {
        feed: IncomingFeedView {
            title: Some(channel.title),
            feed_link: None,
            link: Some(channel.link),
            feed_kind: FeedKind::Rss,
            latest_etag: None,
        },
        entries: channel.items.map_values(|i: RssItemView| entry_from_rss(i)),
    }
}

/// The feed in a document, given what reading it as Atom and as RSS gave: Atom goes first,
/// and the error of a document that is neither is the one of RSS.
pub open spec fn feed_from_readings(
    atom: Option<AtomFeedView>,
    rss: Result<RssChannelView, Seq<char>>,
) -> Result<FeedAndEntriesView, Seq<char>> {
    match atom {
        Some(feed) => Ok(feed_from_atom(feed)),
        None => match rss {
            Ok(channel) => Ok(feed_from_rss(channel)),
            Err(message) => Err(message),
        },
    }
}

/// The feed in a document.
pub open spec fn feed_in(document: Seq<char>) -> Result<FeedAndEntriesView, Seq<char>> {
    feed_from_readings(atom_feed_in(document), rss_channel_in(document))
}

/// What the reading of a document came to.
pub open spec fn parsed_view(r: Result<FeedAndEntries, FeedParseError>) -> Result<
    FeedAndEntriesView,
    Seq<char>,
> {
    match r {
        Ok(feed) => Ok(feed@),
        Err(e) => Err(e.message@),
    }
}

impl FeedAndEntries {
    /// The feed that an Atom document makes.
    pub fn from_atom(document: &AtomFeed) -> (r: FeedAndEntries)
        ensures
            r@ == feed_from_atom(document@),
            forall|i: int|
                0 <= i < document.entries.len() && chosen_from_atom(
                    (#[trigger] document.entries[i])@,
                ).is_plain() ==> r.entries[i]@ == chosen_from_atom(document.entries[i]@),
    {
        let feed = IncomingFeed {
            title: Some(document.title.clone()),
            feed_link: None,
            link: first_copy(&document.links),
            feed_kind: FeedKind::Atom,
            latest_etag: None,
        };
        let mut entries: Vec<IncomingEntry> = Vec::new();
        for i in 0..document.entries.len()
            invariant
                entries.len() == i,
                forall|j: int|
                    0 <= j < i ==> (#[trigger] entries[j])@ == entry_from_atom(
                        document.entries[j]@,
                    ),
                forall|j: int|
                    0 <= j < i && chosen_from_atom((#[trigger] document.entries[j])@).is_plain()
                        ==> entries[j]@ == chosen_from_atom(document.entries[j]@),
        {
            entries.push(IncomingEntry::from(&document.entries[i]));
        }
        let r = FeedAndEntries { feed, entries };
        proof {
            assert(r@.entries =~= feed_from_atom(document@).entries);
        }
        r
    }

    /// The feed that an RSS document makes.
    pub fn from_rss(document: &RssChannel) -> (r: FeedAndEntries)
        ensures
            r@ == feed_from_rss(document@),
            forall|i: int|
                0 <= i < document.items.len() && chosen_from_rss(
                    (#[trigger] document.items[i])@,
                    None,
                ).is_plain() ==> r.entries[i]@ == chosen_from_rss(
                    document.items[i]@,
                    opt_date(document.items[i]@.pub_date),
                ),
    {
        let feed = IncomingFeed {
            title: Some(document.title.clone()),
            feed_link: None,
            link: Some(document.link.clone()),
            feed_kind: FeedKind::Rss,
            latest_etag: None,
        };
        let mut entries: Vec<IncomingEntry> = Vec::new();
        for i in 0..document.items.len()
            invariant
                entries.len() == i,
                forall|j: int|
                    0 <= j < i ==> (#[trigger] entries[j])@ == entry_from_rss(document.items[j]@),
                forall|j: int|
                    0 <= j < i && chosen_from_rss((#[trigger] document.items[j])@, None).is_plain()
                        ==> entries[j]@ == chosen_from_rss(
                        document.items[j]@,
                        opt_date(document.items[j]@.pub_date),
                    ),
        {
            entries.push(IncomingEntry::from(&document.items[i]));
        }
        let r = FeedAndEntries { feed, entries };
        proof {
            assert(r@.entries =~= feed_from_rss(document@).entries);
        }
        r
    }

    /// Reads a document as Atom, and where it is no Atom, as RSS.
    pub fn from_str(s: &str) -> (r: Result<FeedAndEntries, FeedParseError>)
        ensures
            parsed_view(r) == feed_in(s@),
    {
        match read_atom(s) {
            Some(feed) => Ok(FeedAndEntries::from_atom(&feed)),
            None => match read_rss(s) {
                Ok(channel) => Ok(FeedAndEntries::from_rss(&channel)),
                Err(message) => Err(FeedParseError { message }),
            },
        }
    }
}

/// Every entry of an Atom document becomes one entry, in the same place, and so does every
/// item of an RSS document; nothing is dropped and nothing is added.
pub proof fn law_every_entry_comes_in(atom: AtomFeedView, rss: RssChannelView, i: int)
    ensures
        feed_from_atom(atom).entries.len() == atom.entries.len(),
        feed_from_rss(rss).entries.len() == rss.items.len(),
        0 <= i < atom.entries.len() ==> feed_from_atom(atom).entries[i] == entry_from_atom(
            atom.entries[i],
        ),
        0 <= i < rss.items.len() ==> feed_from_rss(rss).entries[i] == entry_from_rss(rss.items[i]),
{
}

/// Atom goes first: a document that reads as Atom is an Atom feed, whatever it reads as in RSS;
/// and a document is refused exactly where it reads as neither.
pub proof fn law_atom_goes_first(document: Seq<char>)
    ensures
        feed_in(document) matches Ok(feed) ==> (feed.feed.feed_kind == FeedKind::Atom
            <==> atom_feed_in(document) is Some),
        feed_in(document) is Err <==> atom_feed_in(document) is None && rss_channel_in(
            document,
        ) is Err,
{
}

/// A feed that was just read has no address and no entity tag of its own: those are known
/// only to whoever fetched it.
pub proof fn law_read_feed_has_no_address(document: Seq<char>)
    ensures
        feed_in(document) matches Ok(feed) ==> feed.feed.feed_link is None
            && feed.feed.latest_etag is None,
{
}

} // verus!
