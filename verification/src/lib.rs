//! Verified core of the Scryer RQBit download client, the AniNZB indexer and
//! the plugin development kit's download-client bridge.

pub mod aninzb;
pub mod pdk;
pub mod plugin;
pub mod rqbit;
pub mod text;
