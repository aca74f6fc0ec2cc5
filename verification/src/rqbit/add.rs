//! Adding a torrent: what is sent to RQBit and which info hash is kept.

use vstd::prelude::*;
use base64::Engine;
use vstd::utf8::encode_utf8;
use crate::plugin::{opt_chars, PluginError, PluginErrorCode, plugin_error};
use crate::rqbit::hash::{normalized_hash, normalize_hash};
use crate::rqbit::torrent::clone_opt_string;
use crate::text::{push_all, u64_to_string, decimal};

verus! {

/// What kind of input a download source is.
#[derive(Debug, Clone, Copy, PartialEq, Eq, Structural)]
pub enum DownloadInputKind {
    MagnetUri,
    TorrentUrl,
    TorrentFile,
    TorrentBytes,
    Nzb,
    NzbUrl,
}

/// Where the content of a new download comes from.
#[derive(Debug)]
pub struct DownloadSource {
    pub kind: DownloadInputKind,
    pub magnet_uri: Option<String>,
    pub torrent_url: Option<String>,
    pub download_url: Option<String>,
    pub torrent_bytes_base64: Option<String>,
}

/// The parts of an add request that decide what is sent to RQBit and which
/// hash the new download is known by.
#[derive(Debug)]
pub struct AddRequest {
    pub source: DownloadSource,
    pub info_hash_v1: Option<String>,
    pub info_hash_hint: Option<String>,
}

/// The first present of two optional values.
pub open spec fn or_else<T>(a: Option<T>, b: Option<T>) -> Option<T> {
    match a {
        Some(v) => Some(v),
        None => b,
    }
}

/// The URL that RQBit is given: for a magnet the magnet URI, else the download
/// URL; for a torrent the torrent URL, else the download URL, else the magnet
/// URI; nothing for Usenet sources.
pub open spec fn source_url_of(s: DownloadSource) -> Option<Seq<char>> {
    match s.kind {
        DownloadInputKind::MagnetUri => or_else(opt_chars(s.magnet_uri), opt_chars(s.download_url)),
        DownloadInputKind::TorrentUrl | DownloadInputKind::TorrentFile
        | DownloadInputKind::TorrentBytes => or_else(
            or_else(opt_chars(s.torrent_url), opt_chars(s.download_url)),
            opt_chars(s.magnet_uri),
        ),
        DownloadInputKind::Nzb | DownloadInputKind::NzbUrl => None,
    }
}

/// The URL of a request's source that RQBit is asked to fetch.
pub fn source_url(request: &AddRequest) -> (url: Option<String>)
    ensures
        opt_chars(url) == source_url_of(request.source),
{
    let s = &request.source;
    match s.kind {
        DownloadInputKind::MagnetUri => {
            if s.magnet_uri.is_some() {
                clone_opt_string(&s.magnet_uri)
            } else {
                clone_opt_string(&s.download_url)
            }
        },
        DownloadInputKind::TorrentUrl | DownloadInputKind::TorrentFile
        | DownloadInputKind::TorrentBytes => {
            if s.torrent_url.is_some() {
                clone_opt_string(&s.torrent_url)
            } else if s.download_url.is_some() {
                clone_opt_string(&s.download_url)
            } else {
                clone_opt_string(&s.magnet_uri)
            }
        },
        DownloadInputKind::Nzb | DownloadInputKind::NzbUrl => None,
    }
}

/// Why standard base64 text could not be decoded (`base64::DecodeError`).
#[derive(Debug, Clone, Copy, PartialEq, Eq, Structural)]
pub enum Base64DecodeError {
    InvalidByte(usize, u8),
    InvalidLength(usize),
    InvalidLastSymbol(usize, u8),
    InvalidPadding,
}

/// What standard base64 decoding (with padding) makes of `input`.
pub uninterp spec fn base64_standard_decoding(input: Seq<char>) -> Result<Seq<u8>, Base64DecodeError>;

/// `base64::engine::general_purpose::STANDARD.decode`: the bytes that the
/// standard-alphabet, padded base64 text `input` encodes, or why it is not
/// such text. The result is named, not described.
#[verifier::external_body]
fn decode_standard_base64(input: &str) -> (r: Result<Vec<u8>, Base64DecodeError>)
    ensures
        match base64_standard_decoding(input@) {
            Ok(bytes) => r matches Ok(v) && v@ == bytes,
            Err(e) => r == Err::<Vec<u8>, Base64DecodeError>(e),
        },
{
    match base64::engine::general_purpose::STANDARD.decode(input) {
        Ok(v) => Ok(v),
        Err(base64::DecodeError::InvalidByte(i, b)) => Err(Base64DecodeError::InvalidByte(i, b)),
        Err(base64::DecodeError::InvalidLength(n)) => Err(Base64DecodeError::InvalidLength(n)),
        Err(base64::DecodeError::InvalidLastSymbol(i, b)) => Err(Base64DecodeError::InvalidLastSymbol(i, b)),
        Err(base64::DecodeError::InvalidPadding) => Err(Base64DecodeError::InvalidPadding),
    }
}

/// The text that `base64::DecodeError` displays.
pub open spec fn base64_error_text(e: Base64DecodeError) -> Seq<char> {
    match e {
        Base64DecodeError::InvalidByte(i, b) => "Invalid symbol "@ + decimal(b as nat) + ", offset "@
            + decimal(i as nat) + "."@,
        Base64DecodeError::InvalidLength(n) => "Invalid input length: "@ + decimal(n as nat),
        Base64DecodeError::InvalidLastSymbol(i, b) => "Invalid last symbol "@ + decimal(b as nat)
            + ", offset "@ + decimal(i as nat) + "."@,
        Base64DecodeError::InvalidPadding => "Invalid padding"@,
    }
}

/// Why nothing can be sent to RQBit for an add request.
#[derive(Debug, Clone, Copy, PartialEq, Eq, Structural)]
pub enum AddBodyError {
    /// The inline torrent is no valid base64.
    InvalidTorrentBytes(Base64DecodeError),
    /// The request names no source that RQBit can fetch.
    MissingSource,
}

impl AddBodyError {
    /// The message of this failure: the invalid-base64 one is an operation
    /// failure, the missing-source one is what Scryer is told.
    pub fn message(&self) -> (m: String)
        ensures
            m@ == add_body_error_text(*self),
    {
        match self {
            AddBodyError::InvalidTorrentBytes(e) => {
                let mut m = String::from_str("invalid torrent_bytes_base64: ");
                match e {
                    Base64DecodeError::InvalidByte(i, b) => {
                        push_all(&mut m, "Invalid symbol ");
                        push_all(&mut m, u64_to_string(*b as u64).as_str());
                        push_all(&mut m, ", offset ");
                        push_all(&mut m, u64_to_string(*i as u64).as_str());
                        push_all(&mut m, ".");
                    },
                    Base64DecodeError::InvalidLength(n) => {
                        push_all(&mut m, "Invalid input length: ");
                        push_all(&mut m, u64_to_string(*n as u64).as_str());
                    },
                    Base64DecodeError::InvalidLastSymbol(i, b) => {
                        push_all(&mut m, "Invalid last symbol ");
                        push_all(&mut m, u64_to_string(*b as u64).as_str());
                        push_all(&mut m, ", offset ");
                        push_all(&mut m, u64_to_string(*i as u64).as_str());
                        push_all(&mut m, ".");
                    },
                    Base64DecodeError::InvalidPadding => {
                        push_all(&mut m, "Invalid padding");
                    },
                }
                m
            },
            AddBodyError::MissingSource => String::from_str("download source is missing"),
        }
    }

    /// The error Scryer is told of when the source is missing.
    pub fn missing_source_error() -> (e: PluginError)
        ensures
            e.code == PluginErrorCode::Permanent,
            e.public_message@ == "download source is missing"@,
            e.debug_message is None,
            e.retry_after_seconds is None,
    {
        plugin_error(PluginErrorCode::Permanent, String::from_str("download source is missing"))
    }
}

/// The message of a failed add.
pub open spec fn add_body_error_text(e: AddBodyError) -> Seq<char> {
    match e {
        AddBodyError::InvalidTorrentBytes(d) => "invalid torrent_bytes_base64: "@ + base64_error_text(d),
        AddBodyError::MissingSource => "download source is missing"@,
    }
}

/// What is posted to RQBit: the decoded inline torrent when there is one,
/// else the UTF-8 bytes of the source URL.
pub open spec fn add_body_of(s: DownloadSource) -> Result<Seq<u8>, AddBodyError> {
    match opt_chars(s.torrent_bytes_base64) {
        Some(text) => match base64_standard_decoding(text) {
            Ok(bytes) => Ok(bytes),
            Err(e) => Err(AddBodyError::InvalidTorrentBytes(e)),
        },
        None => match source_url_of(s) {
            Some(url) => Ok(encode_utf8(url)),
            None => Err(AddBodyError::MissingSource),
        },
    }
}

/// The body of the request that adds the torrent of `request` to RQBit.
pub fn add_request_body(request: &AddRequest) -> (r: Result<Vec<u8>, AddBodyError>)
    ensures
        match add_body_of(request.source) {
            Ok(bytes) => r matches Ok(v) && v@ == bytes,
            Err(e) => r == Err::<Vec<u8>, AddBodyError>(e),
        },
{
    match &request.source.torrent_bytes_base64 {
        Some(text) => match decode_standard_base64(text.as_str()) {
            Ok(v) => Ok(v),
            Err(e) => Err(AddBodyError::InvalidTorrentBytes(e)),
        },
        None => match source_url(request) {
            Some(url) => Ok(vstd::slice::slice_to_vec(url.as_str().as_bytes())),
            None => Err(AddBodyError::MissingSource),
        },
    }
}

/// The hash a new download is known by: the one RQBit returns when it is not
/// empty after normalisation, else the request's v1 hash, else its hint,
/// each normalized.
pub open spec fn chosen_info_hash(
    returned: Option<Seq<char>>,
    v1: Option<Seq<char>>,
    hint: Option<Seq<char>>,
) -> Option<Seq<char>> {
    let from_client = match returned {
        Some(h) => if normalized_hash(h).len() > 0 {
            Some(normalized_hash(h))
        } else {
            None
        },
        None => None,
    };
    match from_client {
        Some(h) => Some(h),
        None => match v1 {
            Some(h) => Some(normalized_hash(h)),
            None => match hint {
                Some(h) => Some(normalized_hash(h)),
                None => None,
            },
        },
    }
}

/// Chooses the info hash of an added download from RQBit's answer and the request.
pub fn choose_info_hash(
    returned: Option<String>,
    v1: &Option<String>,
    hint: &Option<String>,
) -> (h: Option<String>)
    ensures
        opt_chars(h) == chosen_info_hash(opt_chars(returned), opt_chars(*v1), opt_chars(*hint)),
{
    if let Some(r) = returned {
        let n = normalize_hash(r.as_str());
        if n.as_str().unicode_len() > 0 {
            return Some(n);
        }
    }
    match v1 {
        Some(h) => Some(normalize_hash(h.as_str())),
        None => match hint {
            Some(h) => Some(normalize_hash(h.as_str())),
            None => None,
        },
    }
}

/// The error reported when no info hash can be had for an added download.
pub open spec fn missing_hash_text() -> Seq<char> {
    "RQBit did not return an info hash"@
}

/// The message of the failure when no info hash can be had.
pub fn missing_hash_message() -> (m: String)
    ensures
        m@ == missing_hash_text(),
{
    String::from_str("RQBit did not return an info hash")
}

/// Law: an add request whose inline torrent decodes is sent as those bytes,
/// whatever URLs it names.
pub proof fn inline_torrent_takes_precedence(s: DownloadSource)
    requires
        s.torrent_bytes_base64 is Some,
        base64_standard_decoding(s.torrent_bytes_base64->0@) is Ok,
    ensures
        add_body_of(s) == Ok::<Seq<u8>, AddBodyError>(
            base64_standard_decoding(s.torrent_bytes_base64->0@)->Ok_0,
        ),
{
}

/// Law: the hash RQBit returns wins when it holds a hex digit; otherwise the
/// request's v1 hash, else its hint, is used.
pub proof fn the_client_hash_wins(
    returned: Option<Seq<char>>,
    v1: Option<Seq<char>>,
    hint: Option<Seq<char>>,
)
    ensures
        returned is Some && normalized_hash(returned->0).len() > 0 ==> chosen_info_hash(returned, v1, hint)
            == Some(normalized_hash(returned->0)),
        !(returned is Some && normalized_hash(returned->0).len() > 0) && v1 is Some ==> chosen_info_hash(
            returned,
            v1,
            hint,
        ) == Some(normalized_hash(v1->0)),
        !(returned is Some && normalized_hash(returned->0).len() > 0) && v1 is None ==> chosen_info_hash(
            returned,
            v1,
            hint,
        ) == match hint {
            Some(h) => Some(normalized_hash(h)),
            None => None,
        },
{
}

/// Law: a chosen hash is always in normal form.
pub proof fn chosen_hash_is_normalized(
    returned: Option<Seq<char>>,
    v1: Option<Seq<char>>,
    hint: Option<Seq<char>>,
)
    ensures
        chosen_info_hash(returned, v1, hint) matches Some(h) ==> normalized_hash(h) == h,
{
    crate::rqbit::hash::normalize_hash_idempotent_all();
}

/// Law: what RQBit is asked to fetch. A magnet names its magnet URI, else its
/// download URL; a torrent (by URL, file or bytes) names its torrent URL,
/// else its download URL, else its magnet URI; a Usenet source names nothing.
/// Without an inline torrent, the body is the UTF-8 of that URL, and a source
/// that names none is missing.
pub proof fn sources_name_what_rqbit_fetches(s: DownloadSource)
    ensures
        s.kind == DownloadInputKind::MagnetUri && s.magnet_uri is Some ==> source_url_of(s) == Some(
            s.magnet_uri->0@,
        ),
        s.kind == DownloadInputKind::MagnetUri && s.magnet_uri is None ==> source_url_of(s) == opt_chars(
            s.download_url,
        ),
        (s.kind == DownloadInputKind::TorrentUrl || s.kind == DownloadInputKind::TorrentFile || s.kind
            == DownloadInputKind::TorrentBytes) ==> {
            &&& s.torrent_url is Some ==> source_url_of(s) == Some(s.torrent_url->0@)
            &&& s.torrent_url is None && s.download_url is Some ==> source_url_of(s) == Some(
                s.download_url->0@,
            )
            &&& s.torrent_url is None && s.download_url is None ==> source_url_of(s) == opt_chars(
                s.magnet_uri,
            )
        },
        (s.kind == DownloadInputKind::Nzb || s.kind == DownloadInputKind::NzbUrl) ==> source_url_of(s)
            is None,
        s.torrent_bytes_base64 is None && source_url_of(s) is Some ==> add_body_of(s) == Ok::<
            Seq<u8>,
            AddBodyError,
        >(encode_utf8(source_url_of(s)->0)),
        s.torrent_bytes_base64 is None && source_url_of(s) is None ==> add_body_of(s) == Err::<
            Seq<u8>,
            AddBodyError,
        >(AddBodyError::MissingSource),
{
}

} // verus!
