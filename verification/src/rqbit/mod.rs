//! The RQBit download client: the rules by which it reads its configuration,
//! names torrents, maps their state and decides what to ask RQBit for.

pub mod add;
pub mod config;
pub mod control;
pub mod hash;
pub mod seeding;
pub mod torrent;
pub mod version;
