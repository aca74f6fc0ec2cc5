//! Torrents as RQBit lists them, and what Scryer is told about them.

use vstd::prelude::*;
use crate::plugin::opt_chars;
use crate::rqbit::hash::{normalized_hash, normalize_hash};
use crate::text::{
    chars_of, trim, trim_bounds, trim_end_char, trim_start_char, trim_end_char_index,
    trim_start_char_index, string_from_range, after_last, after_last_start, has_char, has_char_in,
    chars_eq, chars_eq_str, lower_seq, lower_chars, string_from_chars, push_all, push_range,
    int_decimal, i64_to_string,
};

verus! {

/// The per-torrent statistics that RQBit reports, without its live transfer speed.
#[derive(Debug)]
pub struct TorrentStats {
    /// The state name, lowercase for named states (see `deserialize_state`).
    pub state: String,
    pub error: Option<String>,
    pub progress_bytes: i64,
    pub uploaded_bytes: i64,
    pub total_bytes: i64,
    pub finished: bool,
    pub finished_at_seconds: Option<i64>,
}

/// One torrent of RQBit's torrent list.
#[derive(Debug)]
pub struct TorrentWithStats {
    pub id: i64,
    pub info_hash: String,
    pub name: String,
    pub output_folder: String,
    pub stats: TorrentStats,
}

/// Where a torrent's content lies: the output folder (without trailing
/// slashes) joined to the name (without leading slashes), unless the name is
/// empty or is already the folder's last component.
pub open spec fn output_path_of(output_folder: Seq<char>, name: Seq<char>) -> Seq<char> {
    let folder = trim_end_char(output_folder, '/');
    let n = trim_start_char(name, '/');
    if n.len() == 0 {
        folder
    } else if after_last(folder, '/') == n {
        folder
    } else if folder.len() == 0 {
        n
    } else {
        folder + "/"@ + n
    }
}

impl TorrentWithStats {
    /// The path of this torrent's content.
    pub fn output_path(&self) -> (path: String)
        ensures
            path@ == output_path_of(self.output_folder@, self.name@),
    {
        let fc = chars_of(self.output_folder.as_str());
        let fend = trim_end_char_index(&fc, fc.len(), '/');
        let nc = chars_of(self.name.as_str());
        let nstart = trim_start_char_index(&nc, 0, '/');
        proof {
            assert(fc@.subrange(0, fc@.len() as int) =~= fc@);
            assert(nc@.subrange(0, nc@.len() as int) =~= nc@);
        }
        if nstart == nc.len() {
            return string_from_range(&fc, 0, fend);
        }
        let seg = after_last_start(&fc, fend, '/');
        let seg_chars = chars_of(string_from_range(&fc, seg, fend).as_str());
        let name_chars = chars_of(string_from_range(&nc, nstart, nc.len()).as_str());
        if chars_eq(&seg_chars, &name_chars) {
            return string_from_range(&fc, 0, fend);
        }
        if fend == 0 {
            return string_from_range(&nc, nstart, nc.len());
        }
        let mut path = string_from_range(&fc, 0, fend);
        push_all(&mut path, "/");
        push_range(&mut path, &nc, nstart, nc.len());
        path
    }
}

/// A torrent is shown when its path is not blank and does not start with a dot.
pub open spec fn visible_path(path: Seq<char>) -> bool {
    trim(path).len() > 0 && !(path.len() > 0 && path[0] == '.')
}

/// Whether a torrent is shown to Scryer at all.
pub fn is_visible_torrent(torrent: &TorrentWithStats) -> (r: bool)
    ensures
        r == visible_path(output_path_of(torrent.output_folder@, torrent.name@)),
{
    let path = chars_of(torrent.output_path().as_str());
    let (i, j) = trim_bounds(&path);
    i < j && !(path.len() > 0 && path[0] == '.')
}

/// The state of a download as Scryer sees it.
#[derive(Debug, Clone, Copy, PartialEq, Eq, Structural)]
pub enum DownloadItemState {
    Downloading,
    Paused,
    Completed,
    Failed,
}

/// A finished torrent is completed; otherwise `live`, `initializing`, `0` and
/// `1` are downloading, `error` and `3` failed, and anything else paused.
pub open spec fn state_of(finished: bool, state: Seq<char>) -> DownloadItemState {
    if finished {
        DownloadItemState::Completed
    } else if state == "live"@ || state == "initializing"@ || state == "0"@ || state == "1"@ {
        DownloadItemState::Downloading
    } else if state == "error"@ || state == "3"@ {
        DownloadItemState::Failed
    } else {
        DownloadItemState::Paused
    }
}

/// The download state of a torrent.
pub fn map_state(stats: &TorrentStats) -> (s: DownloadItemState)
    ensures
        s == state_of(stats.finished, stats.state@),
{
    if stats.finished {
        return DownloadItemState::Completed;
    }
    let st = chars_of(stats.state.as_str());
    if chars_eq_str(&st, "live") || chars_eq_str(&st, "initializing") || chars_eq_str(&st, "0")
        || chars_eq_str(&st, "1") {
        DownloadItemState::Downloading
    } else if chars_eq_str(&st, "error") || chars_eq_str(&st, "3") {
        DownloadItemState::Failed
    } else {
        DownloadItemState::Paused
    }
}

/// Law: a finished torrent is reported completed, whatever its state name;
/// an unfinished one is downloading while live or initializing (by name or
/// by the legacy numbers 0 and 1), failed on an error (by name or 3), and
/// paused otherwise.
pub proof fn finished_torrents_are_completed(state: Seq<char>)
    ensures
        state_of(true, state) == DownloadItemState::Completed,
        (state == "live"@ || state == "initializing"@ || state == "0"@ || state == "1"@) ==> state_of(
            false,
            state,
        ) == DownloadItemState::Downloading,
        (state == "error"@ || state == "3"@) ==> state_of(false, state) == DownloadItemState::Failed,
        !(state == "live"@ || state == "initializing"@ || state == "0"@ || state == "1"@ || state
            == "error"@ || state == "3"@) ==> state_of(false, state) == DownloadItemState::Paused,
{
    reveal_strlit("live");
    reveal_strlit("initializing");
    reveal_strlit("0");
    reveal_strlit("1");
    reveal_strlit("error");
    reveal_strlit("3");
    assert("3"@ != "0"@ && "3"@ != "1"@ && "3"@ != "live"@ && "3"@ != "initializing"@) by {
        reveal_strlit("live");
        reveal_strlit("initializing");
        reveal_strlit("0");
        reveal_strlit("1");
        reveal_strlit("3");
        assert("3"@[0] != "0"@[0] && "3"@[0] != "1"@[0]);
        assert("3"@.len() == 1 && "live"@.len() == 4 && "initializing"@.len() == 12);
    }
    assert("error"@ != "live"@ && "error"@ != "initializing"@ && "error"@ != "0"@ && "error"@ != "1"@) by {
        reveal_strlit("live");
        reveal_strlit("initializing");
        reveal_strlit("0");
        reveal_strlit("1");
        reveal_strlit("error");
        assert("error"@.len() == 5);
        assert("live"@.len() == 4);
        assert("initializing"@.len() == 12);
        assert("0"@.len() == 1);
        assert("1"@.len() == 1);
    }
}

/// The `state` value of RQBit's JSON as the client reads it.
#[derive(Debug)]
pub enum RawTorrentState {
    /// `null`.
    Null,
    /// A string (RQBit 9 and later).
    Text(String),
    /// A number that fits in an `i64` (older RQBit versions).
    Integer(i64),
    /// Any other number, with its JSON text.
    OtherNumber(String),
    /// A value of another JSON type, with its JSON text.
    Unexpected(String),
}

/// The state name of a raw state: empty for `null`, a string lowercased, the
/// legacy numbers 0 to 3 by name and other numbers by their digits.
pub open spec fn state_name(raw: RawTorrentState) -> Result<Seq<char>, Seq<char>> {
    match raw {
        RawTorrentState::Null => Ok(Seq::empty()),
        RawTorrentState::Text(s) => Ok(lower_seq(s@)),
        RawTorrentState::Integer(n) => Ok(
            if n == 0 {
                "initializing"@
            } else if n == 1 {
                "live"@
            } else if n == 2 {
                "paused"@
            } else if n == 3 {
                "error"@
            } else {
                int_decimal(n as int)
            },
        ),
        RawTorrentState::OtherNumber(t) => Ok(t@),
        RawTorrentState::Unexpected(t) => Err("unexpected rqbit torrent state "@ + t@),
    }
}

/// Reads a torrent's `state` value.
pub fn deserialize_state(raw: RawTorrentState) -> (r: Result<String, String>)
    ensures
        match state_name(raw) {
            Ok(s) => r matches Ok(v) && v@ == s,
            Err(m) => r matches Err(v) && v@ == m,
        },
{
    match raw {
        RawTorrentState::Null => Ok(String::new()),
        RawTorrentState::Text(s) => {
            let l = lower_chars(&chars_of(s.as_str()));
            Ok(string_from_chars(l.as_slice()))
        },
        RawTorrentState::Integer(n) => {
            if n == 0 {
                Ok(String::from_str("initializing"))
            } else if n == 1 {
                Ok(String::from_str("live"))
            } else if n == 2 {
                Ok(String::from_str("paused"))
            } else if n == 3 {
                Ok(String::from_str("error"))
            } else {
                Ok(i64_to_string(n))
            }
        },
        RawTorrentState::OtherNumber(t) => Ok(t),
        RawTorrentState::Unexpected(t) => {
            let mut m = String::from_str("unexpected rqbit torrent state ");
            push_all(&mut m, t.as_str());
            Err(m)
        },
    }
}

/// A path looks like a file when its last component (after trailing slashes
/// are dropped) holds a dot.
pub open spec fn looks_like_file(path: Seq<char>) -> bool {
    has_char(after_last(trim_end_char(path, '/'), '/'), '.')
}

/// Whether `path` names a file rather than a directory, by its extension.
pub fn path_looks_like_file(path: &str) -> (r: bool)
    ensures
        r == looks_like_file(path@),
{
    let pc = chars_of(path);
    let end = trim_end_char_index(&pc, pc.len(), '/');
    let start = after_last_start(&pc, end, '/');
    proof {
        assert(pc@.subrange(0, pc@.len() as int) =~= pc@);
    }
    has_char_in(&pc, start, end, '.')
}

/// A copy of an optional string.
pub fn clone_opt_string(o: &Option<String>) -> (r: Option<String>)
    ensures
        r == *o,
{
    match o {
        Some(s) => Some(s.clone()),
        None => None,
    }
}

/// The torrent part of a queue item.
#[derive(Debug)]
pub struct TorrentItem {
    pub info_hash_v1: Option<String>,
    pub client_native_id: Option<String>,
    pub content_paths: Vec<String>,
    pub uploaded_bytes: Option<i64>,
    pub downloaded_bytes: Option<i64>,
    pub download_rate_bytes_per_second: Option<i64>,
    pub raw_status: Option<String>,
    pub status_reason: Option<String>,
}

/// One entry of the download queue as Scryer receives it (the seed ratio,
/// which is a float, is added by the caller).
#[derive(Debug)]
pub struct DownloadItem {
    pub client_item_id: String,
    pub info_hash: Option<String>,
    pub title: String,
    pub state: DownloadItemState,
    pub message: Option<String>,
    pub remote_output_path: Option<String>,
    pub torrent: TorrentItem,
    pub total_size_bytes: Option<i64>,
    pub remaining_size_bytes: Option<i64>,
    pub eta_seconds: Option<i64>,
    pub progress_percent: Option<u8>,
    pub can_move_files: Option<bool>,
    pub can_remove: Option<bool>,
    pub removed: Option<bool>,
    pub raw_state: Option<String>,
}

/// The bytes still to download: never negative.
pub open spec fn remaining_bytes(total: i64, progress: i64) -> int {
    if total - progress > 0 {
        total - progress
    } else {
        0
    }
}

/// The progress in percent that Scryer is shown: none for a torrent without a
/// positive size, else the rounded percentage clamped to `0..=100`.
pub open spec fn progress_percent_of(total_bytes: i64, rounded_percent: i64) -> Option<u8> {
    if total_bytes <= 0 {
        None
    } else if rounded_percent < 0 {
        Some(0u8)
    } else if rounded_percent > 100 {
        Some(100u8)
    } else {
        Some(rounded_percent as u8)
    }
}

/// Law: a progress percentage is given exactly for torrents of positive size,
/// and it never exceeds 100.
pub proof fn progress_percent_in_range(total_bytes: i64, rounded_percent: i64)
    ensures
        progress_percent_of(total_bytes, rounded_percent) is None <==> total_bytes <= 0,
        progress_percent_of(total_bytes, rounded_percent) matches Some(p) ==> p <= 100,
{
}

/// The item Scryer is shown for `torrent`, given three values that the caller
/// derives from floating-point data and from the plugin's state: the download
/// rate in bytes per second, `100 * progress_bytes / total_bytes` rounded to
/// the nearest integer (read only for a torrent of positive size), and
/// whether the torrent's seeding goals are met. Only a finished torrent whose
/// goals are met may be removed.
pub fn torrent_to_item(
    torrent: TorrentWithStats,
    down_rate: i64,
    rounded_percent: i64,
    seed_goals_met: bool,
) -> (item: DownloadItem)
    requires
        i64::MIN <= torrent.stats.total_bytes - torrent.stats.progress_bytes <= i64::MAX,
    ensures
        item.client_item_id@ == normalized_hash(torrent.info_hash@),
        opt_chars(item.info_hash) == Some(normalized_hash(torrent.info_hash@)),
        item.title@ == torrent.name@,
        item.state == state_of(torrent.stats.finished, torrent.stats.state@),
        item.message == torrent.stats.error,
        opt_chars(item.remote_output_path) == Some(output_path_of(torrent.output_folder@, torrent.name@)),
        opt_chars(item.torrent.info_hash_v1) == Some(normalized_hash(torrent.info_hash@)),
        opt_chars(item.torrent.client_native_id) == Some(int_decimal(torrent.id as int)),
        item.torrent.content_paths@.len() == 1,
        item.torrent.content_paths@[0]@ == output_path_of(torrent.output_folder@, torrent.name@),
        item.torrent.uploaded_bytes == Some(torrent.stats.uploaded_bytes),
        item.torrent.downloaded_bytes == Some(torrent.stats.progress_bytes),
        item.torrent.download_rate_bytes_per_second == Some(down_rate),
        opt_chars(item.torrent.raw_status) == Some(torrent.stats.state@),
        item.torrent.status_reason == torrent.stats.error,
        item.total_size_bytes == Some(torrent.stats.total_bytes),
        item.remaining_size_bytes == Some(
            remaining_bytes(torrent.stats.total_bytes, torrent.stats.progress_bytes) as i64,
        ),
        item.eta_seconds == (if down_rate > 0 {
            Some((remaining_bytes(torrent.stats.total_bytes, torrent.stats.progress_bytes) / (down_rate as int)) as i64)
        } else {
            None
        }),
        item.progress_percent == progress_percent_of(torrent.stats.total_bytes, rounded_percent),
        item.can_move_files == Some(torrent.stats.finished && seed_goals_met),
        item.can_remove == Some(torrent.stats.finished && seed_goals_met),
        !torrent.stats.finished ==> item.can_remove == Some(false),
        item.removed == Some(false),
        opt_chars(item.raw_state) == Some(torrent.stats.state@),
{
    let hash = normalize_hash(torrent.info_hash.as_str());
    let diff = torrent.stats.total_bytes - torrent.stats.progress_bytes;
    let remaining: i64 = if diff > 0 {
        diff
    } else {
        0
    };
    let state = map_state(&torrent.stats);
    let path = torrent.output_path();
    let eta: Option<i64> = if down_rate > 0 {
        Some(remaining / down_rate)
    } else {
        None
    };
    let progress_percent: Option<u8> = if torrent.stats.total_bytes <= 0 {
        None
    } else if rounded_percent < 0 {
        Some(0u8)
    } else if rounded_percent > 100 {
        Some(100u8)
    } else {
        Some(rounded_percent as u8)
    };
    let can_remove = torrent.stats.finished && seed_goals_met;
    let mut content_paths: Vec<String> = Vec::new();
    content_paths.push(path.clone());
    let TorrentWithStats { id, info_hash: _, name, output_folder: _, stats } = torrent;
    let TorrentStats { state: raw_state, error, progress_bytes, uploaded_bytes, total_bytes, .. } =
        stats;
    DownloadItem {
        client_item_id: hash.clone(),
        info_hash: Some(hash.clone()),
        title: name,
        state,
        message: clone_opt_string(&error),
        remote_output_path: Some(path),
        torrent: TorrentItem {
            info_hash_v1: Some(hash),
            client_native_id: Some(i64_to_string(id)),
            content_paths,
            uploaded_bytes: Some(uploaded_bytes),
            downloaded_bytes: Some(progress_bytes),
            download_rate_bytes_per_second: Some(down_rate),
            raw_status: Some(raw_state.clone()),
            status_reason: error,
        },
        total_size_bytes: Some(total_bytes),
        remaining_size_bytes: Some(remaining),
        eta_seconds: eta,
        progress_percent,
        can_move_files: Some(can_remove),
        can_remove: Some(can_remove),
        removed: Some(false),
        raw_state: Some(raw_state),
    }
}

/// What a completed download's output is.
#[derive(Debug, Clone, Copy, PartialEq, Eq, Structural)]
pub enum DownloadOutputKind {
    File,
    Directory,
}

/// A finished download as Scryer imports it.
#[derive(Debug)]
pub struct CompletedDownload {
    pub client_item_id: String,
    pub info_hash: Option<String>,
    pub name: String,
    pub dest_dir: String,
    pub output_kind: Option<DownloadOutputKind>,
    pub content_paths: Vec<String>,
    pub size_bytes: Option<i64>,
}

/// Whether `c` is what Scryer is told of the finished torrent `t`.
pub open spec fn describes_completed(c: CompletedDownload, t: TorrentWithStats) -> bool {
    let path = output_path_of(t.output_folder@, t.name@);
    &&& c.client_item_id@ == normalized_hash(t.info_hash@)
    &&& opt_chars(c.info_hash) == Some(normalized_hash(t.info_hash@))
    &&& c.name@ == t.name@
    &&& c.dest_dir@ == path
    &&& c.output_kind == Some(
        if looks_like_file(path) {
            DownloadOutputKind::File
        } else {
            DownloadOutputKind::Directory
        },
    )
    &&& c.content_paths@.len() == 1
    &&& c.content_paths@[0]@ == path
    &&& c.size_bytes == Some(t.stats.total_bytes)
}

/// The completed download that `torrent` stands for.
pub fn torrent_to_completed(torrent: &TorrentWithStats) -> (c: CompletedDownload)
    ensures
        describes_completed(c, *torrent),
{
    let hash = normalize_hash(torrent.info_hash.as_str());
    let path = torrent.output_path();
    let kind = if path_looks_like_file(path.as_str()) {
        DownloadOutputKind::File
    } else {
        DownloadOutputKind::Directory
    };
    let mut content_paths: Vec<String> = Vec::new();
    content_paths.push(path.clone());
    CompletedDownload {
        client_item_id: hash.clone(),
        info_hash: Some(hash),
        name: torrent.name.clone(),
        dest_dir: path,
        output_kind: Some(kind),
        content_paths,
        size_bytes: Some(torrent.stats.total_bytes),
    }
}

/// Whether a torrent belongs to the completed list: shown and finished.
pub open spec fn listed_completed(t: TorrentWithStats) -> bool {
    visible_path(output_path_of(t.output_folder@, t.name@)) && t.stats.finished
}

/// The torrents of `s` that belong to the completed list, in order.
pub open spec fn completed_torrents(s: Seq<TorrentWithStats>) -> Seq<TorrentWithStats>
    decreases s.len(),
{
    if s.len() == 0 {
        Seq::empty()
    } else if listed_completed(s.last()) {
        completed_torrents(s.drop_last()).push(s.last())
    } else {
        completed_torrents(s.drop_last())
    }
}

/// The completed downloads among `torrents`, in order.
pub fn completed_downloads(torrents: &Vec<TorrentWithStats>) -> (out: Vec<CompletedDownload>)
    ensures
        out@.len() == completed_torrents(torrents@).len(),
        forall|k: int|
            0 <= k < out@.len() ==> describes_completed(#[trigger] out@[k], completed_torrents(torrents@)[k]),
{
    let mut out: Vec<CompletedDownload> = Vec::new();
    let mut i: usize = 0;
    while i < torrents.len()
        invariant
            i <= torrents@.len(),
            out@.len() == completed_torrents(torrents@.subrange(0, i as int)).len(),
            forall|k: int|
                0 <= k < out@.len() ==> describes_completed(
                    #[trigger] out@[k],
                    completed_torrents(torrents@.subrange(0, i as int))[k],
                ),
        decreases torrents@.len() - i,
    {
        let t = &torrents[i];
        proof {
            assert(torrents@.subrange(0, i + 1).drop_last() =~= torrents@.subrange(0, i as int));
        }
        if is_visible_torrent(t) && t.stats.finished {
            let c = torrent_to_completed(t);
            let ghost before = out@;
            out.push(c);
            proof {
                let sel = completed_torrents(torrents@.subrange(0, i as int));
                assert forall|k: int| 0 <= k < out@.len() implies describes_completed(
                    #[trigger] out@[k],
                    sel.push(*t)[k],
                ) by {
                    if k < before.len() {
                        assert(out@[k] == before[k]);
                    }
                }
            }
        }
        i = i + 1;
    }
    proof {
        assert(torrents@.subrange(0, torrents@.len() as int) =~= torrents@);
    }
    out
}

} // verus!
