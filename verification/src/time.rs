//! Instants, as the database and the feeds know them, and lengths of time.
use vstd::prelude::*;

verus! {

/// An instant: whole seconds since the Unix epoch, and nanoseconds on top of them.
#[derive(Clone, Copy, Debug, PartialEq, Eq, Structural)]
pub struct Timestamp {
    pub secs: i64,
    pub nanos: u32,
}

/// A length of time.
#[derive(Clone, Copy, Debug, PartialEq, Eq, Structural)]
pub struct Seconds(pub u64);

} // verus!
