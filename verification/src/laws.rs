//! What the functions of this library promise to whoever calls them.
//!
//! Each law takes the arguments of a call and what came of it, and says what the one has to do
//! with the other, in terms of the values themselves.
use crate::feed::{FeedId, IncomingEntry, IncomingFeed};
use crate::sql::{Operation, Owner, Param, Statement};
use crate::time::Timestamp;
use vstd::prelude::*;

pub mod asking;
pub mod documents;
pub mod keys;
pub mod storing;
pub mod tables;
pub mod turns;
pub mod working;

verus! {

/// Whether two optional texts are the same: both are missing, or both hold the same characters.
pub open spec fn same_opt(a: Option<String>, b: Option<String>) -> bool {
    match (a, b) {
        (Some(s), Some(t)) => s@ == t@,
        (None, None) => true,
        _ => false,
    }
}

/// Whether an optional text holds these characters.
pub open spec fn holds(a: Option<String>, text: Seq<char>) -> bool {
    a matches Some(s) && s@ == text
}

/// Whether a text is bound, or NULL where there is none.
pub open spec fn binds_text(param: Param, text: Option<String>) -> bool {
    match text {
        Some(t) => param matches Param::Text(s) && s@ == t@,
        None => param is Null,
    }
}

/// Whether an instant is bound, or NULL where there is none.
pub open spec fn binds_time(param: Param, time: Option<Timestamp>) -> bool {
    match time {
        Some(t) => param == Param::Time(t),
        None => param is Null,
    }
}

/// Whether an operation runs this text of SQL with one identifier.
pub open spec fn runs_on(operation: Operation, sql: Seq<char>, id: i64) -> bool {
    operation matches Operation::Execute(s) && s.sql@ == sql && s.params.len() == 1 && s.params[0]
        == Param::Integer(id)
}

/// Whether a statement stores a feed: its title, its link, its address and the name of its kind.
pub open spec fn stores_feed(s: Statement, feed: IncomingFeed) -> bool {
    &&& s.sql@ == "INSERT INTO feeds (title, link, feed_link, feed_kind)
        VALUES (?1, ?2, ?3, ?4)
        RETURNING id"@
    &&& s.params.len() == 4
    &&& binds_text(s.params[0], feed.title)
    &&& binds_text(s.params[1], feed.link)
    &&& binds_text(s.params[2], feed.feed_link)
    &&& s.params[3] matches Param::Text(kind) && kind@ == match feed.feed_kind {
        crate::feed::FeedKind::Atom => "Atom"@,
        crate::feed::FeedKind::Rss => "RSS"@,
    }
}

/// Whether an operation stores an entry: all that it holds, for the feed that owns it, and the
/// reading of the clock.
pub open spec fn stores_entry(operation: Operation, owner: Owner, entry: IncomingEntry) -> bool {
    operation matches Operation::Execute(s) && {
        &&& s.sql@
            == "INSERT INTO entries (feed_id, title, author, pub_date, description, content, link, updated_at) VALUES (?, ?, ?, ?, ?, ?, ?, ?)"@
        &&& s.params.len() == 8
        &&& match owner {
            Owner::Stored(id) => s.params[0] == Param::Integer(id.0),
            Owner::JustCreated => s.params[0] is NewId,
        }
        &&& binds_text(s.params[1], entry.title)
        &&& binds_text(s.params[2], entry.author)
        &&& binds_time(s.params[3], entry.pub_date)
        &&& binds_text(s.params[4], entry.description)
        &&& binds_text(s.params[5], entry.content)
        &&& binds_text(s.params[6], entry.link)
        &&& s.params[7] is Clock
    }
}

/// Whether two operations record that a feed was refreshed: the clock is read, and its reading is
/// stored for that feed.
pub open spec fn records_refresh(first: Operation, second: Operation, feed_id: FeedId) -> bool {
    &&& first is ReadClock
    &&& second matches Operation::Execute(s) && s.sql@
        == "UPDATE feeds SET refreshed_at = ?2 WHERE id = ?1"@ && s.params.len() == 2 && s.params[0]
        == Param::Integer(feed_id.0) && s.params[1] is Clock
}

/// Whether an operation records the entity tag of a feed.
pub open spec fn records_etag(
    operation: Operation,
    feed_id: FeedId,
    etag: Option<String>,
) -> bool {
    operation matches Operation::Execute(s) && s.sql@
        == "UPDATE feeds SET latest_etag = ?2 WHERE id = ?1"@ && s.params.len() == 2 && s.params[0]
        == Param::Integer(feed_id.0) && binds_text(s.params[1], etag)
}

} // verus!
