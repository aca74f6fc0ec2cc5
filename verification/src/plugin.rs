//! Values of the plugin protocol that the verified logic produces.

use vstd::prelude::*;
use crate::text::{chars_of, trim, trim_bounds, string_from_range};

verus! {

/// How a caller should treat a failed plugin operation.
#[derive(Debug, Clone, Copy, PartialEq, Eq, Structural)]
pub enum PluginErrorCode {
    Permanent,
    Temporary,
    Unsupported,
}

/// A failure that a plugin reports to Scryer.
#[derive(Debug, Clone)]
pub struct PluginError {
    pub code: PluginErrorCode,
    pub public_message: String,
    pub debug_message: Option<String>,
    pub retry_after_seconds: Option<u64>,
}

/// The view of a `PluginError`: its code and its messages as character sequences.
pub struct PluginErrorView {
    pub code: PluginErrorCode,
    pub public_message: Seq<char>,
    pub debug_message: Option<Seq<char>>,
    pub retry_after_seconds: Option<u64>,
}

/// The characters of an optional string.
pub open spec fn opt_chars(o: Option<String>) -> Option<Seq<char>> {
    match o {
        Some(s) => Some(s@),
        None => None,
    }
}

impl View for PluginError {
    type V = PluginErrorView;

    open spec fn view(&self) -> PluginErrorView {
        PluginErrorView {
            code: self.code,
            public_message: self.public_message@,
            debug_message: opt_chars(self.debug_message),
            retry_after_seconds: self.retry_after_seconds,
        }
    }
}

/// A plugin error with `code` and `public_message`, and nothing more (the
/// `plugin_error` helper of the RQBit client).
pub fn plugin_error(code: PluginErrorCode, public_message: String) -> (e: PluginError)
    ensures
        e.code == code,
        e.public_message@ == public_message@,
        e.debug_message is None,
        e.retry_after_seconds is None,
{
    PluginError { code, public_message, debug_message: None, retry_after_seconds: None }
}

/// A configuration value as the client reads it: trimmed, and absent when blank.
pub open spec fn config_text(raw: Option<Seq<char>>) -> Option<Seq<char>> {
    match raw {
        Some(v) => if trim(v).len() > 0 {
            Some(trim(v))
        } else {
            None
        },
        None => None,
    }
}

/// Reads a raw configuration value: trimmed, and `None` when blank.
pub fn config_value(raw: Option<String>) -> (v: Option<String>)
    ensures
        opt_chars(v) == config_text(opt_chars(raw)),
{
    match raw {
        Some(s) => {
            let cs = chars_of(s.as_str());
            let (i, j) = trim_bounds(&cs);
            if i < j {
                Some(string_from_range(&cs, i, j))
            } else {
                None
            }
        },
        None => None,
    }
}

} // verus!
