//! Control actions, connection checks and status reports.

use vstd::prelude::*;
use crate::plugin::{PluginError, PluginErrorCode, plugin_error};
use crate::rqbit::config::{RqbitConfig, names_localhost, is_localhost_url};
use crate::rqbit::hash::{normalized_hash, normalize_hash, normalize_hash_idempotent};
use crate::rqbit::version::{version_less, version_lt};
use crate::text::push_all;

verus! {

/// An action Scryer asks a download client to take.
#[derive(Debug, Clone, Copy, PartialEq, Eq, Structural)]
pub enum DownloadControlAction {
    Pause,
    Resume,
    Remove,
    ForceStart,
}

/// What a control request comes to: the RQBit API path to post to, or the
/// error Scryer is told of.
pub open spec fn control_outcome(
    client_item_id: Seq<char>,
    action: DownloadControlAction,
    remove_data: bool,
) -> Result<Seq<char>, (PluginErrorCode, Seq<char>)> {
    let hash = normalized_hash(client_item_id);
    if hash.len() == 0 {
        Err((PluginErrorCode::Permanent, "client_item_id is required"@))
    } else {
        match action {
            DownloadControlAction::Remove => Ok(
                "/torrents/"@ + hash + "/"@ + if remove_data {
                    "delete"@
                } else {
                    "forget"@
                },
            ),
            _ => Err(
                (
                    PluginErrorCode::Unsupported,
                    "RQBit does not support this control action through Scryer's client"@,
                ),
            ),
        }
    }
}

/// Plans a control request: removing posts to `forget` (or `delete`, with
/// the data) for the normalized hash; other actions are unsupported.
pub fn plan_download_control(
    client_item_id: &str,
    action: DownloadControlAction,
    remove_data: bool,
) -> (r: Result<String, PluginError>)
    ensures
        match control_outcome(client_item_id@, action, remove_data) {
            Ok(path) => r matches Ok(p) && p@ == path,
            Err((code, msg)) => r matches Err(e) && e.code == code && e.public_message@ == msg
                && e.debug_message is None && e.retry_after_seconds is None,
        },
{
    let hash = normalize_hash(client_item_id);
    if hash.as_str().unicode_len() == 0 {
        return Err(plugin_error(PluginErrorCode::Permanent, String::from_str("client_item_id is required")));
    }
    match action {
        DownloadControlAction::Remove => {
            let mut path = String::from_str("/torrents/");
            push_all(&mut path, hash.as_str());
            push_all(&mut path, "/");
            if remove_data {
                push_all(&mut path, "delete");
            } else {
                push_all(&mut path, "forget");
            }
            Ok(path)
        },
        _ => Err(
            plugin_error(
                PluginErrorCode::Unsupported,
                String::from_str("RQBit does not support this control action through Scryer's client"),
            ),
        ),
    }
}

/// Law: only removal is ever sent to RQBit.
pub proof fn only_removal_reaches_rqbit(id: Seq<char>, action: DownloadControlAction, remove_data: bool)
    ensures
        control_outcome(id, action, remove_data) is Ok ==> action == DownloadControlAction::Remove,
{
}

/// Law: a download listed under the id made from an info hash is removed
/// through that same hash's path, whenever the hash holds a hex digit.
pub proof fn listed_ids_address_their_torrent(info_hash: Seq<char>, remove_data: bool)
    requires
        normalized_hash(info_hash).len() > 0,
    ensures
        control_outcome(normalized_hash(info_hash), DownloadControlAction::Remove, remove_data)
            == Ok::<Seq<char>, (PluginErrorCode, Seq<char>)>(
            "/torrents/"@ + normalized_hash(info_hash) + "/"@ + if remove_data {
                "delete"@
            } else {
                "forget"@
            },
        ),
{
    normalize_hash_idempotent(info_hash);
}

/// The version of RQBit below which the client refuses to work.
pub open spec fn minimum_version() -> Seq<char> {
    "8.0.0"@
}

/// What a connection test reports for the RQBit version `version`: the
/// version itself, or an error when it is older than 8.0.0.
pub fn connection_test_outcome(version: String) -> (r: Result<String, PluginError>)
    ensures
        version_less(version@, minimum_version()) ==> (r matches Err(e) && e.code
            == PluginErrorCode::Permanent && e.public_message@ == "RQBit "@ + version@
            + " is older than Scryer's required 8.0.0"@ && e.debug_message is None),
        !version_less(version@, minimum_version()) ==> (r matches Ok(v) && v@ == version@),
{
    if version_lt(version.as_str(), "8.0.0") {
        let mut m = String::from_str("RQBit ");
        push_all(&mut m, version.as_str());
        push_all(&mut m, " is older than Scryer's required 8.0.0");
        return Err(plugin_error(PluginErrorCode::Permanent, m));
    }
    Ok(version)
}

/// The status RQBit reports through the plugin.
#[derive(Debug)]
pub struct ClientStatus {
    pub version: Option<String>,
    pub is_localhost: Option<bool>,
    pub removes_completed_downloads: Option<bool>,
    pub sorting_mode: Option<String>,
}

/// The status of the configured RQBit instance that reports `version`.
pub fn client_status(config: &RqbitConfig, version: String) -> (s: ClientStatus)
    ensures
        s.version == Some(version),
        s.is_localhost == Some(names_localhost(config.base_url@)),
        s.removes_completed_downloads == Some(false),
        s.sorting_mode matches Some(m) && m@ == "rqbit-rest"@,
{
    ClientStatus {
        version: Some(version),
        is_localhost: Some(is_localhost_url(config.base_url.as_str())),
        removes_completed_downloads: Some(false),
        sorting_mode: Some(String::from_str("rqbit-rest")),
    }
}

} // verus!
