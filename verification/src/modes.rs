//! The modes that the reader can be in.
use crate::feed::EntryMetadata;
use vstd::prelude::*;

verus! {

/// What key presses are taken for.
#[derive(Clone, Copy, Debug, PartialEq, Eq, Structural)]
pub enum Mode {
    /// Commands.
    Normal,
    /// Text: the address of a feed to subscribe to.
    Editing,
}

/// Which entries are shown.
#[derive(Clone, Copy, Debug, PartialEq, Eq, Structural)]
pub enum ReadMode {
    ShowUnread,
    ShowRead,
    All,
}

/// What is selected.
#[derive(Clone, Debug)]
pub enum Selected {
    Feeds,
    Entries,
    Entry(EntryMetadata),
    Nothing,
}

} // verus!
