//! The schema of the database, and how it came to be.
use crate::sql::{
    operations_view, Operation, OperationView, Param, ParamView, Statement, StatementView,
};
use vstd::prelude::*;

verus! {

pub const CREATE_FEEDS: &'static str = "CREATE TABLE IF NOT EXISTS feeds (
        id INTEGER PRIMARY KEY AUTOINCREMENT,
        title TEXT,
        feed_link TEXT,
        link TEXT,
        feed_kind TEXT,
        refreshed_at TIMESTAMP,
        inserted_at TIMESTAMP DEFAULT CURRENT_TIMESTAMP,
        updated_at TIMESTAMP DEFAULT CURRENT_TIMESTAMP
        )";

pub const CREATE_ENTRIES: &'static str = "CREATE TABLE IF NOT EXISTS entries (
        id INTEGER PRIMARY KEY AUTOINCREMENT,
        feed_id INTEGER,
        title TEXT,
        author TEXT,
        pub_date TIMESTAMP,
        description TEXT,
        content TEXT,
        link TEXT,
        read_at TIMESTAMP,
        inserted_at TIMESTAMP DEFAULT CURRENT_TIMESTAMP,
        updated_at TIMESTAMP DEFAULT CURRENT_TIMESTAMP
        )";

pub const CREATE_ENTRIES_INDEX: &'static str = "CREATE INDEX IF NOT EXISTS entries_feed_id_and_pub_date_and_inserted_at_index
        ON entries (feed_id, pub_date, inserted_at)";

pub const ADD_LATEST_ETAG: &'static str = "ALTER TABLE feeds ADD COLUMN latest_etag TEXT";

pub const CREATE_FEED_LINK_INDEX: &'static str = "CREATE UNIQUE INDEX IF NOT EXISTS feeds_feed_link ON feeds (feed_link)";

/// The version of the schema that this library works on.
pub const CURRENT_VERSION: u64 = 3;

/// The step that runs a statement without parameters.
pub open spec fn plain(sql: Seq<char>) -> OperationView {
    OperationView::Execute(StatementView { sql, params: Seq::<ParamView>::empty() })
}

/// The steps from an empty database to the first version: the two tables, and the index that
/// lists the entries of a feed.
pub open spec fn to_version_1() -> Seq<OperationView> {
    seq![
        OperationView::SetSchemaVersion(1),
        plain(CREATE_FEEDS@),
        plain(CREATE_ENTRIES@),
        plain(CREATE_ENTRIES_INDEX@),
    ]
}

/// The steps to the second version, which keeps entity tags.
pub open spec fn to_version_2() -> Seq<OperationView> {
    seq![OperationView::SetSchemaVersion(2), plain(ADD_LATEST_ETAG@)]
}

/// The steps to the third version, in which no two feeds have one address.
pub open spec fn to_version_3() -> Seq<OperationView> {
    seq![OperationView::SetSchemaVersion(3), plain(CREATE_FEED_LINK_INDEX@)]
}

/// The steps that bring a schema of version `version` up to date.
pub open spec fn migrations(version: u64) -> Seq<OperationView> {
    let first = if version == 0 {
        to_version_1()
    } else {
        Seq::empty()
    };
    let second = if version <= 1 {
        to_version_2()
    } else {
        Seq::empty()
    };
    let third = if version <= 2 {
        to_version_3()
    } else {
        Seq::empty()
    };
    first + second + third
}

fn run(sql: &str) -> (o: Operation)
    ensures
        o@ == plain(sql@),
{
    let params: Vec<Param> = Vec::new();
    let s = Statement { sql: sql.to_owned(), params };
    proof {
        assert(s@.params =~= Seq::<ParamView>::empty());
    }
    Operation::Execute(s)
}

/// The steps that bring a schema of version `schema_version` up to date.
pub fn migrate(schema_version: u64) -> (r: Vec<Operation>)
    ensures
        operations_view(r@) == migrations(schema_version),
{
    let mut r: Vec<Operation> = Vec::new();
    if schema_version == 0 {
        r.push(Operation::SetSchemaVersion(1));
        r.push(run(CREATE_FEEDS));
        r.push(run(CREATE_ENTRIES));
        r.push(run(CREATE_ENTRIES_INDEX));
    }
    if schema_version <= 1 {
        r.push(Operation::SetSchemaVersion(2));
        r.push(run(ADD_LATEST_ETAG));
    }
    if schema_version <= 2 {
        r.push(Operation::SetSchemaVersion(CURRENT_VERSION));
        r.push(run(CREATE_FEED_LINK_INDEX));
    }
    proof {
        assert(operations_view(r@) =~= migrations(schema_version));
    }
    r
}

/// The work that makes a database ready for use: in one transaction, whatever its schema lacks
/// is added.
pub fn initialize_db() -> (r: Vec<Operation>)
    ensures
        operations_view(r@) == seq![OperationView::Migrate],
{
    let mut r: Vec<Operation> = Vec::new();
    r.push(Operation::Migrate);
    proof {
        assert(operations_view(r@) =~= seq![OperationView::Migrate]);
    }
    r
}

/// The version that a schema has after some steps, if it had `version` before.
pub open spec fn version_after(steps: Seq<OperationView>, version: u64) -> u64
    decreases steps.len(),
{
    if steps.len() == 0 {
        version
    } else {
        match steps.last() {
            OperationView::SetSchemaVersion(v) => v,
            _ => version_after(steps.drop_last(), version),
        }
    }
}

/// A schema that is up to date is left alone.
pub proof fn law_current_schema_is_left_alone(version: u64)
    requires
        version >= CURRENT_VERSION,
    ensures
        migrations(version) == Seq::<OperationView>::empty(),
{
    assert(migrations(version) =~= Seq::<OperationView>::empty());
}

/// The steps from one version to the next.
pub open spec fn to_next_version(version: u64) -> Seq<OperationView> {
    if version == 0 {
        to_version_1()
    } else if version == 1 {
        to_version_2()
    } else {
        to_version_3()
    }
}

/// The versions follow one another: bringing a schema up to date is taking it to the next
/// version, and then bringing that up to date.
pub proof fn law_versions_follow_one_another(version: u64)
    requires
        version < CURRENT_VERSION,
    ensures
        migrations(version) == to_next_version(version) + migrations((version + 1) as u64),
        version_after(to_next_version(version), version) == version + 1,
{
    reveal_with_fuel(version_after, 5);
    assert(migrations(version) =~= to_next_version(version) + migrations((version + 1) as u64));
}

/// A schema is up to date once its migrations have run, and making the database ready again
/// changes nothing. A version is never set back.
pub proof fn law_migrating_twice_changes_nothing(version: u64)
    ensures
        version_after(migrations(version), version) == if version <= CURRENT_VERSION {
            CURRENT_VERSION
        } else {
            version
        },
        migrations(version_after(migrations(version), version)) == Seq::<OperationView>::empty(),
{
    reveal_with_fuel(version_after, 3);
    let steps = migrations(version);
    if version <= 2 {
        assert(steps.last() == to_version_3()[1]);
        assert(steps.drop_last().last() == to_version_3()[0]);
    } else {
        law_current_schema_is_left_alone(version);
    }
    law_current_schema_is_left_alone(version_after(steps, version));
}

} // verus!
