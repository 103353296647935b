//! The verified core of a feed reader.
pub mod actions;
pub mod feed;
pub mod fetch;
pub mod io;
pub mod laws;
pub mod listing;
pub mod modes;
pub mod options;
pub mod parse;
pub mod queries;
pub mod refresh;
pub mod schema;
pub mod sql;
pub mod text;
pub mod time;
pub mod transaction;
