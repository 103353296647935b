//! Fetching a feed: the request, and what its answer means.
//!
//! Nothing here talks to the network. Each step says what to do next, and is given what came
//! of it: `fetch_feed` makes the request, `AwaitingResponse` is given the response without its
//! body, and `AwaitingBody` is given the body.
use crate::feed::{FeedAndEntries, FeedAndEntriesView, FeedResponse, FeedResponseView};
use crate::parse::{feed_in, parsed_view, FeedParseError};
use crate::text::{ascii_lower_text, opt_view, same_text, to_ascii_lower};
use vstd::prelude::*;

verus! {

/// A request by GET.
#[derive(Debug)]
pub struct HttpRequest {
    pub url: String,
    /// The names and values of the headers.
    pub headers: Vec<(String, String)>,
}

/// What a request holds.
#[verifier::ext_equal]
pub struct HttpRequestView {
    pub url: Seq<char>,
    pub headers: Seq<(Seq<char>, Seq<char>)>,
}

impl View for HttpRequest {
    type V = HttpRequestView;

    open spec fn view(&self) -> HttpRequestView {
        HttpRequestView {
            url: self.url@,
            headers: self.headers@.map_values(|h: (String, String)| (h.0@, h.1@)),
        }
    }
}

/// A header of a response.
#[derive(Debug)]
pub struct Header {
    pub name: String,
    pub value: Vec<u8>,
}

/// What a header holds.
#[verifier::ext_equal]
pub struct HeaderView {
    pub name: Seq<char>,
    pub value: Seq<u8>,
}

impl View for Header {
    type V = HeaderView;

    open spec fn view(&self) -> HeaderView {
        HeaderView { name: self.name@, value: self.value@ }
    }
}

/// A response without its body.
#[derive(Debug)]
pub struct ResponseHead {
    pub status: u16,
    pub headers: Vec<Header>,
}

/// The status of a response that brings a document.
pub const OK: u16 = 200;

/// The status of a response that says that the document has not changed.
pub const NOT_MODIFIED: u16 = 304;

/// What the headers of a response hold.
pub open spec fn headers_view(headers: Seq<Header>) -> Seq<HeaderView> {
    headers.map_values(|h: Header| h@)
}

/// The request for a feed: where an entity tag is known, the remote host is told, so that it
/// need not send again what it sent before.
pub open spec fn feed_request(url: Seq<char>, etag: Option<Seq<char>>) -> HttpRequestView {
    HttpRequestView {
        url,
        headers: match etag {
            Some(tag) => seq![("If-None-Match"@, tag)],
            None => Seq::empty(),
        },
    }
}

/// Whether a byte of a header is visible: a printable ASCII character, a space or a tab.
pub open spec fn is_visible(b: u8) -> bool {
    32 <= b < 127 || b == 9
}

/// The value of a header as text, if all of it is visible.
pub open spec fn header_text_view(value: Seq<u8>) -> Option<Seq<char>> {
    if forall|i: int| 0 <= i < value.len() ==> is_visible(#[trigger] value[i]) {
        Some(value.map_values(|b: u8| b as char))
    } else {
        None
    }
}

/// The entity tag in the headers of a response: the text of the first header named `ETag`, in
/// whatever case, if that header is text.
pub open spec fn etag_in(headers: Seq<HeaderView>) -> Option<Seq<char>>
    decreases headers.len(),
{
    if headers.len() == 0 {
        None
    } else if ascii_lower_text(headers[0].name) == "etag"@ {
        header_text_view(headers[0].value)
    } else {
        etag_in(headers.skip(1))
    }
}

/// The value of a header as text, if all of it is visible.
pub fn header_text(value: &[u8]) -> (r: Option<String>)
    ensures
        opt_view(r) == header_text_view(value@),
{
    let mut text = String::new();
    for i in 0..value.len()
        invariant
            forall|j: int| 0 <= j < i ==> is_visible(#[trigger] value[j]),
            text@ =~= value@.take(i as int).map_values(|b: u8| b as char),
    {
        let b: u8 = value[i];
        if !(32 <= b && b < 127 || b == 9) {
            assert(!is_visible(value[i as int]));
            return None;
        }
        text.push(b as char);
    }
    proof {
        assert(value@.take(value.len() as int) =~= value@);
    }
    Some(text)
}

/// The entity tag in the headers of a response.
pub fn find_etag(headers: &Vec<Header>) -> (r: Option<String>)
    ensures
        opt_view(r) == etag_in(headers_view(headers@)),
{
    let ghost all = headers_view(headers@);
    proof {
        assert(all.skip(0) =~= all);
    }
    for i in 0..headers.len()
        invariant
            all == headers_view(headers@),
            etag_in(all) == etag_in(all.skip(i as int)),
    {
        proof {
            assert(all.skip(i as int)[0] == headers[i as int]@);
            assert(all.skip(i as int).skip(1) =~= all.skip(i + 1));
        }
        if same_text(to_ascii_lower(headers[i].name.as_str()).as_str(), "etag") {
            return header_text(headers[i].value.as_slice());
        }
    }
    None
}

/// Why a feed could not be fetched.
#[derive(Debug)]
pub enum FetchError<E> {
    /// There was no response, or its body could not be read.
    Transport(E),
    /// The response had a status other than those that the reader knows.
    UnexpectedStatus(u16),
    /// The response brought a document that is no feed.
    NotAFeed(FeedParseError),
}

/// What an error holds.
pub enum FetchErrorView<E> {
    Transport(E),
    UnexpectedStatus(u16),
    NotAFeed(Seq<char>),
}

impl<E> View for FetchError<E> {
    type V = FetchErrorView<E>;

    open spec fn view(&self) -> FetchErrorView<E> {
        match self {
            FetchError::Transport(e) => FetchErrorView::Transport(*e),
            FetchError::UnexpectedStatus(s) => FetchErrorView::UnexpectedStatus(*s),
            FetchError::NotAFeed(e) => FetchErrorView::NotAFeed(e.message@),
        }
    }
}

/// A fetch whose request was made.
#[derive(Debug)]
pub struct AwaitingResponse {
    pub url: String,
}

/// A fetch whose response brings a document.
#[derive(Debug)]
pub struct AwaitingBody {
    pub url: String,
    pub etag: Option<String>,
}

/// What the response to a fetch calls for.
#[derive(Debug)]
pub enum AfterResponse {
    /// Its body is to be read.
    ReadBody(AwaitingBody),
    /// The fetch is over.
    Done(FeedResponse),
}

/// What the end of a fetch holds.
pub open spec fn fetched_view<E>(r: Result<FeedResponse, FetchError<E>>) -> Result<
    FeedResponseView,
    FetchErrorView<E>,
> {
    match r {
        Ok(response) => Ok(response@),
        Err(e) => Err(e@),
    }
}

/// What a fetch from `url` comes to, when the document that came under `etag` was read as
/// `reading`: the feed with its address and its entity tag.
pub open spec fn fetched<E>(
    url: Seq<char>,
    etag: Option<Seq<char>>,
    reading: Result<FeedAndEntriesView, Seq<char>>,
) -> Result<FeedResponseView, FetchErrorView<E>> {
    match reading {
        Ok(feed) => Ok(
            FeedResponseView::CacheMiss(feed.with_latest_etag(etag).with_feed_link(url)),
        ),
        Err(message) => Err(FetchErrorView::NotAFeed(message)),
    }
}

/// The request for the feed at `url`, last served under `current_etag`.
pub fn fetch_feed(url: &str, current_etag: Option<String>) -> (r: (AwaitingResponse, HttpRequest))
    ensures
        r.0.url@ == url@,
        r.1@ == feed_request(url@, opt_view(current_etag)),
{
    let mut headers: Vec<(String, String)> = Vec::new();
    let ghost tag = opt_view(current_etag);
    if let Some(etag) = current_etag {
        headers.push(("If-None-Match".to_owned(), etag));
    }
    let request = HttpRequest { url: url.to_owned(), headers };
    proof {
        assert(request@.headers =~= feed_request(url@, tag).headers);
    }
    (AwaitingResponse { url: url.to_owned() }, request)
}

impl AwaitingResponse {
    /// Takes the response without its body. A document is to be read; where there is none
    /// because nothing changed, the fetch is over.
    pub fn response<E>(self, head: Result<ResponseHead, E>) -> (r: Result<
        AfterResponse,
        FetchError<E>,
    >)
        ensures
            match head {
                Err(e) => r == Err::<AfterResponse, FetchError<E>>(FetchError::Transport(e)),
                Ok(h) => if h.status == OK {
                    r matches Ok(AfterResponse::ReadBody(next)) && next.url@ == self.url@
                        && opt_view(next.etag) == etag_in(headers_view(h.headers@))
                } else if h.status == NOT_MODIFIED {
                    r == Ok::<AfterResponse, FetchError<E>>(
                        AfterResponse::Done(FeedResponse::CacheHit),
                    )
                } else {
                    r == Err::<AfterResponse, FetchError<E>>(
                        FetchError::UnexpectedStatus(h.status),
                    )
                },
            },
    {
        match head {
            Err(e) => Err(FetchError::Transport(e)),
            Ok(h) => if h.status == OK {
                Ok(
                    AfterResponse::ReadBody(
                        AwaitingBody { url: self.url, etag: find_etag(&h.headers) },
                    ),
                )
            } else if h.status == NOT_MODIFIED {
                Ok(AfterResponse::Done(FeedResponse::CacheHit))
            } else {
                Err(FetchError::UnexpectedStatus(h.status))
            },
        }
    }
}

impl AwaitingBody {
    /// Takes the body, and reads it as a feed.
    pub fn body<E>(self, body: Result<String, E>) -> (r: Result<FeedResponse, FetchError<E>>)
        ensures
            match body {
                Err(e) => r == Err::<FeedResponse, FetchError<E>>(FetchError::Transport(e)),
                Ok(text) => fetched_view(r) == fetched::<E>(
                    self.url@,
                    opt_view(self.etag),
                    feed_in(text@),
                ),
            },
    {
        match body {
            Err(e) => Err(FetchError::Transport(e)),
            Ok(text) => self.reading(FeedAndEntries::from_str(text.as_str())),
        }
    }

    /// Takes what the body was read as.
    pub fn reading<E>(self, reading: Result<FeedAndEntries, FeedParseError>) -> (r: Result<
        FeedResponse,
        FetchError<E>,
    >)
        ensures
            fetched_view(r) == fetched::<E>(self.url@, opt_view(self.etag), parsed_view(reading)),
    {
        match reading {
            Ok(mut feed_and_entries) => {
                feed_and_entries.set_latest_etag(self.etag);
                feed_and_entries.set_feed_link(self.url.as_str());
                Ok(FeedResponse::CacheMiss(feed_and_entries))
            },
            Err(e) => Err(FetchError::NotAFeed(e)),
        }
    }
}

/// The first header of that name decides, even where it is no text: headers before it that
/// have other names, and all headers after it, make no difference.
pub proof fn law_first_etag_decides(
    before: Seq<HeaderView>,
    header: HeaderView,
    after: Seq<HeaderView>,
)
    requires
        forall|i: int|
            0 <= i < before.len() ==> ascii_lower_text((#[trigger] before[i]).name) != "etag"@,
        ascii_lower_text(header.name) == "etag"@,
    ensures
        etag_in(before + seq![header] + after) == header_text_view(header.value),
    decreases before.len(),
{
    let all = before + seq![header] + after;
    if before.len() == 0 {
        assert(all[0] == header);
    } else {
        assert(all[0] == before[0]);
        assert(all.skip(1) =~= before.skip(1) + seq![header] + after);
        law_first_etag_decides(before.skip(1), header, after);
    }
}

/// A feed that was fetched keeps what the document says: its title, its link, its kind and its
/// entries are those of the document.
pub proof fn law_fetching_adds_only_address_and_etag<E>(
    url: Seq<char>,
    etag: Option<Seq<char>>,
    feed: FeedAndEntriesView,
)
    ensures
        fetched::<E>(url, etag, Ok(feed)) matches Ok(FeedResponseView::CacheMiss(f)) && f.entries
            == feed.entries && f.feed.title == feed.feed.title && f.feed.link == feed.feed.link
            && f.feed.feed_kind == feed.feed.feed_kind && f.feed.feed_link == Some(url)
            && f.feed.latest_etag == etag,
{
}

} // verus!
