//! The AniNZB indexer: its fixed API behaviour, how it turns a search into
//! API queries, and how it reads and merges the API's answers.

pub mod config;
pub mod merge;
pub mod query;
pub mod request;
pub mod results;
pub mod time;
