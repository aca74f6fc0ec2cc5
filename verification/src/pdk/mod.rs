//! The plugin development kit: the bridge that serves the download-client
//! command protocol from a plugin's legacy JSON functions, and the guest side
//! of Scryer's host calls.

pub mod bridge;
pub mod host;
