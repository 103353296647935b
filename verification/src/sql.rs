//! What the reader asks of its database: statements with their parameters, and the rows that
//! come back.
//!
//! Nothing here runs a statement. A statement and its parameters are plain data, and so is a
//! row; whoever holds the connection carries the one to the database and the other back.
use crate::feed::{
    entries_view, feed_kind_name, EntryId, EntryMetadata, FeedId, IncomingEntry, IncomingEntryView,
    IncomingFeed, IncomingFeedView,
};
use crate::text::opt_view;
use crate::time::Timestamp;
use vstd::prelude::*;

verus! {

/// A value bound to a statement.
#[derive(Debug)]
pub enum Param {
    Null,
    Integer(i64),
    Text(String),
    Time(Timestamp),
    /// The last reading of the clock.
    Clock,
    /// The identifier of the row that was last inserted.
    NewId,
}

/// What a bound value holds.
pub enum ParamView {
    Null,
    Integer(i64),
    Text(Seq<char>),
    Time(Timestamp),
    Clock,
    NewId,
}

impl View for Param {
    type V = ParamView;

    open spec fn view(&self) -> ParamView {
        match self {
            Param::Null => ParamView::Null,
            Param::Integer(i) => ParamView::Integer(*i),
            Param::Text(s) => ParamView::Text(s@),
            Param::Time(t) => ParamView::Time(*t),
            Param::Clock => ParamView::Clock,
            Param::NewId => ParamView::NewId,
        }
    }
}

/// A statement of SQL with the values for its placeholders, in order.
#[derive(Debug)]
pub struct Statement {
    pub sql: String,
    pub params: Vec<Param>,
}

/// What a statement holds.
#[verifier::ext_equal]
pub struct StatementView {
    pub sql: Seq<char>,
    pub params: Seq<ParamView>,
}

/// What a list of bound values holds.
pub open spec fn params_view(params: Seq<Param>) -> Seq<ParamView> {
    params.map_values(|p: Param| p@)
}

impl View for Statement {
    type V = StatementView;

    open spec fn view(&self) -> StatementView {
        StatementView { sql: self.sql@, params: params_view(self.params@) }
    }
}

/// How a column of a result is read.
#[derive(Clone, Copy, Debug, PartialEq, Eq, Structural)]
pub enum Column {
    Integer,
    Text,
    OptionalText,
    Time,
    OptionalTime,
}

/// A value read from a column.
#[derive(Debug)]
pub enum Cell {
    Integer(i64),
    Text(Option<String>),
    Time(Option<Timestamp>),
}

/// A statement that gives rows, and how their columns are read.
#[derive(Debug)]
pub struct Query {
    pub statement: Statement,
    pub columns: Vec<Column>,
}

/// What a query holds.
#[verifier::ext_equal]
pub struct QueryView {
    pub statement: StatementView,
    pub columns: Seq<Column>,
}

impl View for Query {
    type V = QueryView;

    open spec fn view(&self) -> QueryView {
        QueryView { statement: self.statement@, columns: self.columns@ }
    }
}

/// A step of work on the database.
#[derive(Debug)]
pub enum Operation {
    /// Read the clock, for `Param::Clock` from here on.
    ReadClock,
    /// Run a statement that gives no rows.
    Execute(Statement),
    /// Run a statement that gives the identifier of the row it inserts, for `Param::NewId`
    /// from here on.
    Insert(Statement),
    /// Set the version of the schema.
    SetSchemaVersion(u64),
    /// Bring the schema up to date.
    Migrate,
}

/// What a step of work holds.
pub enum OperationView {
    ReadClock,
    Execute(StatementView),
    Insert(StatementView),
    SetSchemaVersion(u64),
    Migrate,
}

impl View for Operation {
    type V = OperationView;

    open spec fn view(&self) -> OperationView {
        match self {
            Operation::ReadClock => OperationView::ReadClock,
            Operation::Execute(s) => OperationView::Execute(s@),
            Operation::Insert(s) => OperationView::Insert(s@),
            Operation::SetSchemaVersion(v) => OperationView::SetSchemaVersion(*v),
            Operation::Migrate => OperationView::Migrate,
        }
    }
}

/// What a list of steps holds.
pub open spec fn operations_view(operations: Seq<Operation>) -> Seq<OperationView> {
    operations.map_values(|o: Operation| o@)
}

/// The value bound for an optional text: the text, or NULL where there is none.
pub open spec fn opt_text_param(text: Option<Seq<char>>) -> ParamView {
    match text {
        Some(t) => ParamView::Text(t),
        None => ParamView::Null,
    }
}

/// The value bound for an optional instant: the instant, or NULL where there is none.
pub open spec fn opt_time_param(time: Option<Timestamp>) -> ParamView {
    match time {
        Some(t) => ParamView::Time(t),
        None => ParamView::Null,
    }
}

fn bind_opt_text(text: &Option<String>) -> (p: Param)
    ensures
        p@ == opt_text_param(opt_view(*text)),
{
    match text {
        Some(t) => Param::Text(t.clone()),
        None => Param::Null,
    }
}

fn bind_opt_time(time: Option<Timestamp>) -> (p: Param)
    ensures
        p@ == opt_time_param(time),
{
    match time {
        Some(t) => Param::Time(t),
        None => Param::Null,
    }
}

pub const CREATE_FEED: &'static str = "INSERT INTO feeds (title, link, feed_link, feed_kind)
        VALUES (?1, ?2, ?3, ?4)
        RETURNING id";

pub const ADD_ENTRY: &'static str = "INSERT INTO entries (feed_id, title, author, pub_date, description, content, link, updated_at) VALUES (?, ?, ?, ?, ?, ?, ?, ?)";

pub const UPDATE_REFRESHED_AT: &'static str = "UPDATE feeds SET refreshed_at = ?2 WHERE id = ?1";

pub const UPDATE_ETAG: &'static str = "UPDATE feeds SET latest_etag = ?2 WHERE id = ?1";

pub const DELETE_FEED: &'static str = "DELETE FROM feeds WHERE id = ?1";

pub const DELETE_ENTRIES: &'static str = "DELETE FROM entries WHERE feed_id = ?1";

pub const MARK_AS_READ: &'static str = "UPDATE entries SET read_at = ?2 WHERE id = ?1";

pub const MARK_AS_UNREAD: &'static str = "UPDATE entries SET read_at = NULL WHERE id = ?1";

/// The statement that stores a feed.
pub open spec fn create_feed_statement(feed: IncomingFeedView) -> StatementView {
    StatementView {
        sql: CREATE_FEED@,
        params: seq![
            opt_text_param(feed.title),
            opt_text_param(feed.link),
            opt_text_param(feed.feed_link),
            ParamView::Text(feed_kind_name(feed.feed_kind)),
        ],
    }
}

/// The statement that stores an entry of the feed that `feed` stands for.
pub open spec fn add_entry_statement(feed: ParamView, entry: IncomingEntryView) -> StatementView {
    StatementView {
        sql: ADD_ENTRY@,
        params: seq![
            feed,
            opt_text_param(entry.title),
            opt_text_param(entry.author),
            opt_time_param(entry.pub_date),
            opt_text_param(entry.description),
            opt_text_param(entry.content),
            opt_text_param(entry.link),
            ParamView::Clock,
        ],
    }
}

/// The feed that entries are stored for.
#[derive(Clone, Copy, Debug, PartialEq, Eq, Structural)]
pub enum Owner {
    /// A feed that the database has.
    Stored(FeedId),
    /// The feed that the same transaction stores before them.
    JustCreated,
}

/// The value bound for the owner of an entry.
pub open spec fn owner_param(owner: Owner) -> ParamView {
    match owner {
        Owner::Stored(id) => ParamView::Integer(id.0),
        Owner::JustCreated => ParamView::NewId,
    }
}

/// The steps that store entries: the clock is read once, for all of them, and they are stored
/// in order; without entries there is nothing to do.
pub open spec fn add_entries_operations(owner: Owner, entries: Seq<IncomingEntryView>) -> Seq<
    OperationView,
> {
    if entries.len() == 0 {
        Seq::empty()
    } else {
        seq![OperationView::ReadClock] + entries.map_values(
            |e: IncomingEntryView|
                OperationView::Execute(add_entry_statement(owner_param(owner), e)),
        )
    }
}

/// The steps that record when a feed was refreshed.
pub open spec fn refreshed_at_operations(feed_id: FeedId) -> Seq<OperationView> {
    seq![
        OperationView::ReadClock,
        OperationView::Execute(
            StatementView {
                sql: UPDATE_REFRESHED_AT@,
                params: seq![ParamView::Integer(feed_id.0), ParamView::Clock],
            },
        ),
    ]
}

/// The step that records the entity tag of a feed.
pub open spec fn etag_operation(feed_id: FeedId, etag: Option<Seq<char>>) -> OperationView {
    OperationView::Execute(
        StatementView {
            sql: UPDATE_ETAG@,
            params: seq![ParamView::Integer(feed_id.0), opt_text_param(etag)],
        },
    )
}

/// The steps that remove a feed: first the feed, then its entries.
pub open spec fn delete_feed_operations(feed_id: FeedId) -> Seq<OperationView> {
    seq![
        OperationView::Execute(
            StatementView { sql: DELETE_FEED@, params: seq![ParamView::Integer(feed_id.0)] },
        ),
        OperationView::Execute(
            StatementView { sql: DELETE_ENTRIES@, params: seq![ParamView::Integer(feed_id.0)] },
        ),
    ]
}

pub(crate) fn statement1(sql: &str, a: Param) -> (s: Statement)
    ensures
        s@ == (StatementView { sql: sql@, params: seq![a@] }),
{
    let mut params: Vec<Param> = Vec::new();
    params.push(a);
    let s = Statement { sql: sql.to_owned(), params };
    proof {
        assert(s@.params =~= seq![a@]);
    }
    s
}

fn statement2(sql: &str, a: Param, b: Param) -> (s: Statement)
    ensures
        s@ == (StatementView { sql: sql@, params: seq![a@, b@] }),
{
    let mut params: Vec<Param> = Vec::new();
    params.push(a);
    params.push(b);
    let s = Statement { sql: sql.to_owned(), params };
    proof {
        assert(s@.params =~= seq![a@, b@]);
    }
    s
}

/// The statement that stores a feed, and gives its identifier.
pub fn create_feed(feed: &IncomingFeed) -> (s: Statement)
    ensures
        s@ == create_feed_statement(feed@),
{
    let mut params: Vec<Param> = Vec::new();
    params.push(bind_opt_text(&feed.title));
    params.push(bind_opt_text(&feed.link));
    params.push(bind_opt_text(&feed.feed_link));
    params.push(Param::Text(feed.feed_kind.to_string()));
    let s = Statement { sql: CREATE_FEED.to_owned(), params };
    proof {
        assert(s@.params =~= create_feed_statement(feed@).params);
    }
    s
}

fn add_entry(owner: Owner, entry: &IncomingEntry) -> (s: Statement)
    ensures
        s@ == add_entry_statement(owner_param(owner), entry@),
{
    let mut params: Vec<Param> = Vec::new();
    params.push(
        match owner {
            Owner::Stored(id) => Param::Integer(id.0),
            Owner::JustCreated => Param::NewId,
        },
    );
    params.push(bind_opt_text(&entry.title));
    params.push(bind_opt_text(&entry.author));
    params.push(bind_opt_time(entry.pub_date));
    params.push(bind_opt_text(&entry.description));
    params.push(bind_opt_text(&entry.content));
    params.push(bind_opt_text(&entry.link));
    params.push(Param::Clock);
    let s = Statement { sql: ADD_ENTRY.to_owned(), params };
    proof {
        assert(s@.params =~= add_entry_statement(owner_param(owner), entry@).params);
    }
    s
}

/// The steps that store the entries of a feed.
pub fn add_entries_to_feed(owner: Owner, entries: &[IncomingEntry]) -> (r: Vec<Operation>)
    ensures
        operations_view(r@) == add_entries_operations(owner, entries_view(entries@)),
{
    let mut r: Vec<Operation> = Vec::new();
    if entries.len() > 0 {
        r.push(Operation::ReadClock);
        for i in 0..entries.len()
            invariant
                r.len() == i + 1,
                r[0] == Operation::ReadClock,
                forall|j: int|
                    0 <= j < i ==> (#[trigger] r[j + 1])@ == OperationView::Execute(
                        add_entry_statement(owner_param(owner), entries[j]@),
                    ),
        {
            r.push(Operation::Execute(add_entry(owner, &entries[i])));
        }
    }
    proof {
        let want = add_entries_operations(owner, entries_view(entries@));
        assert forall|k: int| 0 <= k < want.len() implies operations_view(r@)[k] == want[k] by {
            if k > 0 {
                assert(r[k - 1 + 1]@ == want[k]);
            }
        }
        assert(operations_view(r@) =~= want);
    }
    r
}

/// The steps that record that a feed was refreshed now.
pub fn update_feed_refreshed_at(feed_id: FeedId) -> (r: Vec<Operation>)
    ensures
        operations_view(r@) == refreshed_at_operations(feed_id),
{
    let mut r: Vec<Operation> = Vec::new();
    r.push(Operation::ReadClock);
    r.push(
        Operation::Execute(
            statement2(UPDATE_REFRESHED_AT, Param::Integer(feed_id.0), Param::Clock),
        ),
    );
    proof {
        assert(operations_view(r@) =~= refreshed_at_operations(feed_id));
    }
    r
}

/// The step that records the entity tag that a feed was last served under.
pub fn update_feed_etag(feed_id: FeedId, latest_etag: Option<String>) -> (r: Operation)
    ensures
        r@ == etag_operation(feed_id, opt_view(latest_etag)),
{
    Operation::Execute(
        statement2(UPDATE_ETAG, Param::Integer(feed_id.0), bind_opt_text(&latest_etag)),
    )
}

/// The steps that remove a feed and its entries.
pub fn delete_feed(feed_id: FeedId) -> (r: Vec<Operation>)
    ensures
        operations_view(r@) == delete_feed_operations(feed_id),
{
    let mut r: Vec<Operation> = Vec::new();
    r.push(Operation::Execute(statement1(DELETE_FEED, Param::Integer(feed_id.0))));
    r.push(Operation::Execute(statement1(DELETE_ENTRIES, Param::Integer(feed_id.0))));
    proof {
        assert(operations_view(r@) =~= delete_feed_operations(feed_id));
    }
    r
}

/// The statement that marks an entry as read at an instant.
pub open spec fn mark_as_read_statement(id: EntryId, now: Timestamp) -> StatementView {
    StatementView {
        sql: MARK_AS_READ@,
        params: seq![ParamView::Integer(id.0), ParamView::Time(now)],
    }
}

/// The statement that marks an entry as unread.
pub open spec fn mark_as_unread_statement(id: EntryId) -> StatementView {
    StatementView { sql: MARK_AS_UNREAD@, params: seq![ParamView::Integer(id.0)] }
}

/// The statement that marks a read entry as unread, and an unread one as read at an instant.
pub open spec fn toggle_read_statement(entry: EntryMetadata, now: Timestamp) -> StatementView {
    if entry.read_at is None {
        mark_as_read_statement(entry.id, now)
    } else {
        mark_as_unread_statement(entry.id)
    }
}

/// Whether a statement marks an entry as read, at whatever instant.
pub open spec fn marks_as_read(statement: StatementView, id: EntryId) -> bool {
    exists|now: Timestamp| statement == #[trigger] mark_as_read_statement(id, now)
}

/// Whether a statement marks an entry as unread.
pub open spec fn marks_as_unread(statement: StatementView, id: EntryId) -> bool {
    statement == mark_as_unread_statement(id)
}

impl EntryMetadata {
    /// The statement that marks a read entry as unread, and an unread one as read at `now`.
    pub fn toggle_read(&self, now: Timestamp) -> (s: Statement)
        ensures
            s@ == toggle_read_statement(*self, now),
    {
        if self.read_at.is_none() {
            self.mark_as_read(now)
        } else {
            self.mark_as_unread()
        }
    }

    /// The statement that marks this entry as read at `now`.
    pub fn mark_as_read(&self, now: Timestamp) -> (s: Statement)
        ensures
            s@ == mark_as_read_statement(self.id, now),
    {
        statement2(MARK_AS_READ, Param::Integer(self.id.0), Param::Time(now))
    }

    /// The statement that marks this entry as unread.
    pub fn mark_as_unread(&self) -> (s: Statement)
        ensures
            s@ == mark_as_unread_statement(self.id),
    {
        statement1(MARK_AS_UNREAD, Param::Integer(self.id.0))
    }
}

/// Toggling changes the read status of an entry, and of that entry alone: one that is unread is
/// marked as read, one that is read as unread, and no statement does both.
pub proof fn law_toggling_changes_the_status(entry: EntryMetadata, now: Timestamp, id: EntryId)
    ensures
        marks_as_read(toggle_read_statement(entry, now), id) <==> id == entry.id
            && entry.read_at is None,
        marks_as_unread(toggle_read_statement(entry, now), id) <==> id == entry.id
            && entry.read_at is Some,
{
    let s = toggle_read_statement(entry, now);
    if entry.read_at is None {
        assert(s.params[0] == ParamView::Integer(entry.id.0));
        assert(s.params.len() == 2);
        assert(mark_as_unread_statement(id).params.len() == 1);
        if id == entry.id {
            assert(s == mark_as_read_statement(id, now));
        }
    } else {
        assert(s.params.len() == 1);
        assert(s.params[0] == ParamView::Integer(entry.id.0));
    }
    assert forall|at: Timestamp| s == #[trigger] mark_as_read_statement(id, at) implies id
        == entry.id && entry.read_at is None by {
        assert(mark_as_read_statement(id, at).params.len() == 2);
        assert(mark_as_read_statement(id, at).params[0] == ParamView::Integer(id.0));
    }
    if s == mark_as_unread_statement(id) {
        assert(mark_as_unread_statement(id).params[0] == ParamView::Integer(id.0));
    }
}

/// Toggling twice restores the read status: where an entry was toggled and reads back as the
/// statement marked it, its status is the other one, and toggling it again marks it as it was
/// before.
pub proof fn law_toggling_twice_restores_the_status(
    before: EntryMetadata,
    first: Timestamp,
    after: EntryMetadata,
    second: Timestamp,
)
    requires
        after.id == before.id,
        marks_as_read(toggle_read_statement(before, first), before.id) ==> after.read_at is Some,
        marks_as_unread(toggle_read_statement(before, first), before.id) ==> after.read_at is None,
    ensures
        after.read_at is Some != before.read_at is Some,
        before.read_at is Some ==> marks_as_read(
            toggle_read_statement(after, second),
            before.id,
        ),
        before.read_at is None ==> marks_as_unread(
            toggle_read_statement(after, second),
            before.id,
        ),
{
    law_toggling_changes_the_status(before, first, before.id);
    law_toggling_changes_the_status(after, second, before.id);
}

} // verus!
