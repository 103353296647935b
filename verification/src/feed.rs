//! Feeds and their entries: what is read from a database, and what comes in from the network.
use crate::text::{copy_opt, opt_view, same_text, signed_decimal, signed_decimal_view};
use crate::time::Timestamp;
use vstd::prelude::*;
use vstd::std_specs::convert::FromSpecImpl;

verus! {

/// Identifies an entry in the database.
#[derive(Clone, Copy, Debug, PartialEq, Eq, Structural)]
pub struct EntryId(pub i64);

/// Identifies a feed in the database.
#[derive(Clone, Copy, Debug, PartialEq, Eq, Structural)]
pub struct FeedId(pub i64);

impl From<i64> for EntryId {
    fn from(value: i64) -> (id: EntryId) {
        EntryId(value)
    }
}

impl FromSpecImpl<i64> for EntryId {
    open spec fn obeys_from_spec() -> bool {
        true
    }

    open spec fn from_spec(value: i64) -> EntryId {
        EntryId(value)
    }
}

impl From<i64> for FeedId {
    fn from(value: i64) -> (id: FeedId) {
        FeedId(value)
    }
}

impl FromSpecImpl<i64> for FeedId {
    open spec fn obeys_from_spec() -> bool {
        true
    }

    open spec fn from_spec(value: i64) -> FeedId {
        FeedId(value)
    }
}

impl EntryId {
    /// The identifier in decimal.
    pub fn to_string(&self) -> (s: String)
        ensures
            s@ == signed_decimal_view(self.0 as int),
    {
        signed_decimal(self.0)
    }
}

impl FeedId {
    /// The identifier in decimal.
    pub fn to_string(&self) -> (s: String)
        ensures
            s@ == signed_decimal_view(self.0 as int),
    {
        signed_decimal(self.0)
    }
}

/// The two formats in which a feed can come.
#[derive(Clone, Copy, Debug, PartialEq, Eq, Structural)]
pub enum FeedKind {
    Atom,
    Rss,
}

/// A text that names no kind of feed.
#[derive(Clone, Debug)]
pub struct FeedKindError {
    pub text: String,
}

impl FeedKindError {
    /// The text of the error.
    pub fn message(&self) -> (s: String)
        ensures
            s@ == self.text@ + " is not a valid FeedKind"@,
    {
        let mut s = self.text.clone();
        s.append(" is not a valid FeedKind");
        s
    }
}

/// The name under which the database stores a kind of feed.
pub open spec fn feed_kind_name(kind: FeedKind) -> Seq<char> {
    match kind {
        FeedKind::Atom => "Atom"@,
        FeedKind::Rss => "RSS"@,
    }
}

/// The kind of feed that a text names, if it names one.
pub open spec fn feed_kind_named(text: Seq<char>) -> Option<FeedKind> {
    if text == "Atom"@ {
        Some(FeedKind::Atom)
    } else if text == "RSS"@ {
        Some(FeedKind::Rss)
    } else {
        None
    }
}

impl FeedKind {
    /// The name of this kind, as the database stores it.
    pub fn to_string(&self) -> (s: String)
        ensures
            s@ == feed_kind_name(*self),
    {
        match self {
            FeedKind::Atom => "Atom".to_owned(),
            FeedKind::Rss => "RSS".to_owned(),
        }
    }

    /// The kind that `s` names. Fails on any other text, which the error holds.
    pub fn from_str(s: &str) -> (r: Result<FeedKind, FeedKindError>)
        ensures
            match r {
                Ok(kind) => feed_kind_named(s@) == Some(kind),
                Err(e) => feed_kind_named(s@) is None && e.text@ == s@,
            },
    {
        if same_text(s, "Atom") {
            Ok(FeedKind::Atom)
        } else if same_text(s, "RSS") {
            Ok(FeedKind::Rss)
        } else {
            Err(FeedKindError { text: s.to_owned() })
        }
    }
}

/// Reading back the name of a kind gives that kind.
pub proof fn law_feed_kind_reads_back(kind: FeedKind)
    ensures
        feed_kind_named(feed_kind_name(kind)) == Some(kind),
{
    reveal_strlit("Atom");
    reveal_strlit("RSS");
    assert("Atom"@.len() != "RSS"@.len());
}

/// A text that names a kind is the name of that kind, letter for letter.
pub proof fn law_feed_kind_has_one_name(text: Seq<char>)
    ensures
        feed_kind_named(text) matches Some(kind) ==> text == feed_kind_name(kind),
{
}

/// Feed metadata. Entries are stored separately. The `id` of this type is the `feed_id` of
/// `EntryMetadata`.
#[derive(Clone, Debug)]
pub struct Feed {
    pub id: FeedId,
    pub title: Option<String>,
    pub feed_link: Option<String>,
    pub link: Option<String>,
    pub feed_kind: FeedKind,
    pub refreshed_at: Option<Timestamp>,
    pub inserted_at: Timestamp,
    pub updated_at: Timestamp,
    pub latest_etag: Option<String>,
}

/// Metadata for an entry.
///
/// Metadata of many entries can be held at once; the content of an entry is loaded only when
/// that entry is displayed.
#[derive(Clone, Debug)]
pub struct EntryMetadata {
    pub id: EntryId,
    pub feed_id: FeedId,
    pub title: Option<String>,
    pub author: Option<String>,
    pub pub_date: Option<Timestamp>,
    pub link: Option<String>,
    pub read_at: Option<Timestamp>,
    pub inserted_at: Timestamp,
    pub updated_at: Timestamp,
}

/// What an entry says.
#[derive(Clone, Debug)]
pub struct EntryContent {
    pub content: Option<String>,
    pub description: Option<String>,
}

/// A feed that came in, not stored yet.
#[derive(Debug)]
pub struct IncomingFeed {
    pub title: Option<String>,
    pub feed_link: Option<String>,
    pub link: Option<String>,
    pub feed_kind: FeedKind,
    pub latest_etag: Option<String>,
}

/// What an incoming feed holds.
#[verifier::ext_equal]
pub struct IncomingFeedView {
    pub title: Option<Seq<char>>,
    pub feed_link: Option<Seq<char>>,
    pub link: Option<Seq<char>>,
    pub feed_kind: FeedKind,
    pub latest_etag: Option<Seq<char>>,
}

impl View for IncomingFeed {
    type V = IncomingFeedView;

    open spec fn view(&self) -> IncomingFeedView {
        IncomingFeedView {
            title: opt_view(self.title),
            feed_link: opt_view(self.feed_link),
            link: opt_view(self.link),
            feed_kind: self.feed_kind,
            latest_etag: opt_view(self.latest_etag),
        }
    }
}

/// An entry that came in, not stored yet.
#[derive(Debug)]
pub struct IncomingEntry {
    pub title: Option<String>,
    pub author: Option<String>,
    pub pub_date: Option<Timestamp>,
    pub description: Option<String>,
    pub content: Option<String>,
    pub link: Option<String>,
}

/// What an incoming entry holds.
#[verifier::ext_equal]
pub struct IncomingEntryView {
    pub title: Option<Seq<char>>,
    pub author: Option<Seq<char>>,
    pub pub_date: Option<Timestamp>,
    pub description: Option<Seq<char>>,
    pub content: Option<Seq<char>>,
    pub link: Option<Seq<char>>,
}

impl View for IncomingEntry {
    type V = IncomingEntryView;

    open spec fn view(&self) -> IncomingEntryView {
        IncomingEntryView {
            title: opt_view(self.title),
            author: opt_view(self.author),
            pub_date: self.pub_date,
            description: opt_view(self.description),
            content: opt_view(self.content),
            link: opt_view(self.link),
        }
    }
}

impl Clone for IncomingEntry {
    fn clone(&self) -> (r: IncomingEntry)
        ensures
            r == *self,
    {
        IncomingEntry {
            title: copy_opt(&self.title),
            author: copy_opt(&self.author),
            pub_date: self.pub_date,
            description: copy_opt(&self.description),
            content: copy_opt(&self.content),
            link: copy_opt(&self.link),
        }
    }
}

/// What a list of incoming entries holds.
pub open spec fn entries_view(entries: Seq<IncomingEntry>) -> Seq<IncomingEntryView> {
    entries.map_values(|e: IncomingEntry| e@)
}

/// A feed that came in, with its entries.
#[derive(Debug)]
pub struct FeedAndEntries {
    pub feed: IncomingFeed,
    pub entries: Vec<IncomingEntry>,
}

/// What an incoming feed and its entries hold.
#[verifier::ext_equal]
pub struct FeedAndEntriesView {
    pub feed: IncomingFeedView,
    pub entries: Seq<IncomingEntryView>,
}

impl View for FeedAndEntries {
    type V = FeedAndEntriesView;

    open spec fn view(&self) -> FeedAndEntriesView {
        FeedAndEntriesView { feed: self.feed@, entries: entries_view(self.entries@) }
    }
}

impl FeedAndEntriesView {
    /// The same feed, fetched from `url`.
    pub open spec fn with_feed_link(self, url: Seq<char>) -> FeedAndEntriesView {
        FeedAndEntriesView {
            feed: IncomingFeedView { feed_link: Some(url), ..self.feed },
            ..self
        }
    }

    /// The same feed, served under `etag`.
    pub open spec fn with_latest_etag(self, etag: Option<Seq<char>>) -> FeedAndEntriesView {
        FeedAndEntriesView { feed: IncomingFeedView { latest_etag: etag, ..self.feed }, ..self }
    }
}

impl FeedAndEntries {
    /// Records where the feed was fetched from.
    pub fn set_feed_link(&mut self, url: &str)
        ensures
            final(self)@ == old(self)@.with_feed_link(url@),
    {
        self.feed.feed_link = Some(url.to_owned());
    }

    /// Records the entity tag that the feed was served under.
    pub fn set_latest_etag(&mut self, etag: Option<String>)
        ensures
            final(self)@ == old(self)@.with_latest_etag(opt_view(etag)),
    {
        self.feed.latest_etag = etag;
    }
}

/// What a remote host answered to a request for a feed.
#[derive(Debug)]
pub enum FeedResponse {
    /// The remote host returned a feed. The data may not actually be new, as hosts seem to
    /// change entity tags for all kinds of reasons.
    CacheMiss(FeedAndEntries),
    /// The remote host indicated a cache hit, and did not return any new data.
    CacheHit,
}

/// What an answer holds.
pub enum FeedResponseView {
    CacheMiss(FeedAndEntriesView),
    CacheHit,
}

impl View for FeedResponse {
    type V = FeedResponseView;

    open spec fn view(&self) -> FeedResponseView {
        match self {
            FeedResponse::CacheMiss(f) => FeedResponseView::CacheMiss(f@),
            FeedResponse::CacheHit => FeedResponseView::CacheHit,
        }
    }
}

} // verus!
