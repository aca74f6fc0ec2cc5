//! Search results: how an API item becomes one, and how the answers of
//! several queries are merged.

use vstd::prelude::*;
use crate::aninzb::config::{api_host, result_limit, result_limit_of};
use crate::aninzb::time::{format_unix_timestamp, timestamp_text};
use crate::plugin::opt_chars;
use crate::text::{
    chars_of, trim, trim_bounds, lower_seq, lower_chars, string_from_chars, eq_ignore_case,
    eq_ignore_ascii_case, chars_eq_str, decimal, u64_to_string, push_all, int_decimal,
    i64_to_string, chars_eq,
};

verus! {

#[verifier::external_type_specification]
#[verifier::external_body]
pub struct ExJsonNumber(serde_json::Number);

/// A value of a result's provider metadata.
#[derive(Debug)]
pub enum ExtraValue {
    Text(String),
    Integer(i64),
    Unsigned(u64),
    /// A JSON number carried through as the API gave it.
    Number(serde_json::Number),
    TextList(Vec<String>),
}

/// The values of a provider metadata entry.
pub enum ExtraValueView {
    Text(Seq<char>),
    Integer(i64),
    Unsigned(u64),
    Number(serde_json::Number),
    TextList(Seq<Seq<char>>),
}

/// The characters of a list of strings.
pub open spec fn strings_view(v: Seq<String>) -> Seq<Seq<char>> {
    v.map_values(|s: String| s@)
}

impl View for ExtraValue {
    type V = ExtraValueView;

    open spec fn view(&self) -> ExtraValueView {
        match self {
            ExtraValue::Text(s) => ExtraValueView::Text(s@),
            ExtraValue::Integer(v) => ExtraValueView::Integer(*v),
            ExtraValue::Unsigned(v) => ExtraValueView::Unsigned(*v),
            ExtraValue::Number(n) => ExtraValueView::Number(*n),
            ExtraValue::TextList(l) => ExtraValueView::TextList(strings_view(l@)),
        }
    }
}

/// Where a release can be had from.
#[derive(Debug, Clone, Copy, PartialEq, Eq, Structural)]
pub enum IndexerSourceKind {
    Usenet,
    Torrent,
}

/// The protocol a release is fetched over.
#[derive(Debug, Clone, Copy, PartialEq, Eq, Structural)]
pub enum IndexerProtocol {
    Usenet,
    Torrent,
}

/// One release found by a search.
#[derive(Debug)]
pub struct SearchResult {
    pub title: String,
    pub link: Option<String>,
    pub download_url: Option<String>,
    pub size_bytes: Option<i64>,
    pub published_at: Option<String>,
    pub provider_extra: Vec<(String, ExtraValue)>,
    pub guid: Option<String>,
    pub source_kind: Option<IndexerSourceKind>,
    pub protocol: Option<IndexerProtocol>,
    pub external_ids: Vec<(String, String)>,
    pub categories: Vec<String>,
    pub provider_categories: Vec<String>,
}

impl SearchResult {
    /// A result titled `title` with nothing else set.
    pub fn new(title: String) -> (r: SearchResult)
        ensures
            r.title == title,
            r.link is None,
            r.download_url is None,
            r.size_bytes is None,
            r.published_at is None,
            r.provider_extra@.len() == 0,
            r.guid is None,
            r.source_kind is None,
            r.protocol is None,
            r.external_ids@.len() == 0,
            r.categories@.len() == 0,
            r.provider_categories@.len() == 0,
    {
        SearchResult {
            title,
            link: None,
            download_url: None,
            size_bytes: None,
            published_at: None,
            provider_extra: Vec::new(),
            guid: None,
            source_kind: None,
            protocol: None,
            external_ids: Vec::new(),
            categories: Vec::new(),
            provider_categories: Vec::new(),
        }
    }
}

/// One item of an AniNZB API answer.
#[derive(Debug)]
pub struct AniNzbApiItem {
    pub source: Option<String>,
    pub id: Option<u64>,
    pub filename: Option<String>,
    pub anidb: Option<u64>,
    pub series_name: Option<Vec<String>>,
    /// The episode number as the JSON number the API gave.
    pub episode: Option<serde_json::Number>,
    pub season: Option<i64>,
    pub tvdb: Option<String>,
    pub size: Option<i64>,
    pub group: Option<String>,
    pub date: Option<i64>,
    pub nzb: Option<String>,
    pub poster: Option<String>,
    pub subtitles: Option<Vec<String>>,
    pub screenshots: Option<Vec<String>>,
    pub thumbnails: Option<Vec<String>>,
}

impl AniNzbApiItem {
    /// An item with every field absent.
    pub fn new() -> (i: AniNzbApiItem)
        ensures
            i.source is None && i.id is None && i.filename is None && i.anidb is None
                && i.series_name is None && i.episode is None && i.season is None
                && i.tvdb is None && i.size is None && i.group is None && i.date is None
                && i.nzb is None && i.poster is None && i.subtitles is None
                && i.screenshots is None && i.thumbnails is None,
    {
        AniNzbApiItem {
            source: None,
            id: None,
            filename: None,
            anidb: None,
            series_name: None,
            episode: None,
            season: None,
            tvdb: None,
            size: None,
            group: None,
            date: None,
            nzb: None,
            poster: None,
            subtitles: None,
            screenshots: None,
            thumbnails: None,
        }
    }
}

/// The characters of an optional string slice.
pub open spec fn opt_str(o: Option<&str>) -> Option<Seq<char>> {
    match o {
        Some(s) => Some(s@),
        None => None,
    }
}

/// A text field's trimmed value, when it is not blank.
pub open spec fn required_text_of(value: Option<Seq<char>>) -> Option<Seq<char>> {
    match value {
        Some(v) => if trim(v).len() > 0 {
            Some(trim(v))
        } else {
            None
        },
        None => None,
    }
}

/// The trimmed value of an optional text field, when it is not blank.
pub fn required_text(value: Option<&str>) -> (r: Option<&str>)
    ensures
        match r {
            Some(t) => required_text_of(opt_str(value)) == Some(t@),
            None => required_text_of(opt_str(value)) is None,
        },
{
    match value {
        Some(v) => {
            let cs = chars_of(v);
            let (i, j) = trim_bounds(&cs);
            if i < j {
                Some(v.substring_char(i, j))
            } else {
                None
            }
        },
        None => None,
    }
}

/// The parts of a parsed URL that the download-URL check reads.
#[derive(Debug)]
pub struct UrlParts {
    pub scheme: String,
    pub host: Option<String>,
    /// The explicit port, or the scheme's default port.
    pub port: Option<u16>,
    pub username: String,
    pub password: Option<String>,
    /// The URL's serialization.
    pub serialization: String,
}

/// The parts of a parsed URL as values.
pub struct UrlPartsView {
    pub scheme: Seq<char>,
    pub host: Option<Seq<char>>,
    pub port: Option<u16>,
    pub username: Seq<char>,
    pub password: Option<Seq<char>>,
    pub serialization: Seq<char>,
}

impl View for UrlParts {
    type V = UrlPartsView;

    open spec fn view(&self) -> UrlPartsView {
        UrlPartsView {
            scheme: self.scheme@,
            host: opt_chars(self.host),
            port: self.port,
            username: self.username@,
            password: opt_chars(self.password),
            serialization: self.serialization@,
        }
    }
}

/// What `url::Url::parse` makes of `input`: the URL's parts, or nothing when
/// it is no absolute URL.
pub uninterp spec fn parsed_url(input: Seq<char>) -> Option<UrlPartsView>;

/// `url::Url::parse(input)`, read through `scheme`, `host_str`,
/// `port_or_known_default`, `username`, `password` and its serialization.
/// The result is named, not described.
#[verifier::external_body]
fn parse_url(input: &str) -> (r: Option<UrlParts>)
    ensures
        match parsed_url(input@) {
            Some(p) => r matches Some(u) && u@ == p,
            None => r is None,
        },
{
    match url::Url::parse(input) {
        Ok(url) => Some(UrlParts {
            scheme: url.scheme().to_string(),
            host: url.host_str().map(|h| h.to_string()),
            port: url.port_or_known_default(),
            username: url.username().to_string(),
            password: url.password().map(|p| p.to_string()),
            serialization: url.to_string(),
        }),
        Err(_) => None,
    }
}

/// Whether a parsed URL is a plain HTTPS URL of the AniNZB API host on port
/// 443, without credentials.
pub open spec fn is_api_download(p: UrlPartsView) -> bool {
    &&& p.scheme == "https"@
    &&& p.host matches Some(h) && eq_ignore_case(h, api_host())
    &&& p.port == Some(443u16)
    &&& p.username.len() == 0
    &&& p.password is None
}

/// The download URL of an item: its `nzb` text, when it parses as an HTTPS
/// URL of the API host, serialized.
pub open spec fn api_download_url_of(value: Option<Seq<char>>) -> Option<Seq<char>> {
    match required_text_of(value) {
        Some(t) => match parsed_url(t) {
            Some(p) => if is_api_download(p) {
                Some(p.serialization)
            } else {
                None
            },
            None => None,
        },
        None => None,
    }
}

/// The download URL of an item's `nzb` field, accepted only on the API host.
pub fn api_download_url(value: Option<&str>) -> (r: Option<String>)
    ensures
        opt_chars(r) == api_download_url_of(opt_str(value)),
{
    let text = match required_text(value) {
        Some(t) => t,
        None => return None,
    };
    let parts = match parse_url(text) {
        Some(p) => p,
        None => return None,
    };
    let host_ok = match &parts.host {
        Some(h) => eq_ignore_ascii_case(&chars_of(h.as_str()), &chars_of("api.aninzb.moe")),
        None => false,
    };
    if chars_eq_str(&chars_of(parts.scheme.as_str()), "https") && host_ok && parts.port == Some(443u16)
        && parts.username.as_str().unicode_len() == 0 && parts.password.is_none() {
        Some(parts.serialization)
    } else {
        None
    }
}

/// The source name of an item: its trimmed source, or `unknown`, lowercased.
pub open spec fn item_source(item: AniNzbApiItem) -> Seq<char> {
    lower_seq(
        match required_text_of(opt_chars(item.source)) {
            Some(s) => s,
            None => "unknown"@,
        },
    )
}

/// A metadata entry for an optional text, when it is not blank.
pub open spec fn text_entry(key: Seq<char>, value: Option<String>) -> Seq<(Seq<char>, ExtraValueView)> {
    match required_text_of(opt_chars(value)) {
        Some(t) => seq![(key, ExtraValueView::Text(t))],
        None => Seq::empty(),
    }
}

/// A metadata entry for an optional list of texts, when it is not empty.
pub open spec fn list_entry(key: Seq<char>, value: Option<Vec<String>>) -> Seq<(Seq<char>, ExtraValueView)> {
    match value {
        Some(l) => if l@.len() > 0 {
            seq![(key, ExtraValueView::TextList(strings_view(l@)))]
        } else {
            Seq::empty()
        },
        None => Seq::empty(),
    }
}

/// The provider metadata of an item, in order: its source, its API id, its
/// series names, group, season, episode, poster, subtitles, screenshots and
/// thumbnails, as far as they are given.
pub open spec fn item_extras(item: AniNzbApiItem) -> Seq<(Seq<char>, ExtraValueView)> {
    let id = match item.id {
        Some(id) => seq![("api_item_id"@, ExtraValueView::Unsigned(id))],
        None => Seq::empty(),
    };
    let season = match item.season {
        Some(v) => seq![("season"@, ExtraValueView::Integer(v))],
        None => Seq::empty(),
    };
    let episode = match item.episode {
        Some(n) => seq![("episode"@, ExtraValueView::Number(n))],
        None => Seq::empty(),
    };
    seq![("source"@, ExtraValueView::Text(item_source(item)))] + id + list_entry(
        "series_names"@,
        item.series_name,
    ) + text_entry("group"@, item.group) + season + episode + text_entry("poster"@, item.poster)
        + list_entry("subtitles"@, item.subtitles) + list_entry("screenshots"@, item.screenshots)
        + list_entry("thumbnails"@, item.thumbnails)
}

/// The external ids of an item: its AniDB id in decimal and its TVDB id when not blank.
pub open spec fn item_external_ids(item: AniNzbApiItem) -> Seq<(Seq<char>, Seq<char>)> {
    let anidb = match item.anidb {
        Some(a) => seq![("anidb_id"@, decimal(a as nat))],
        None => Seq::empty(),
    };
    let tvdb = match required_text_of(opt_chars(item.tvdb)) {
        Some(t) => seq![("tvdb_id"@, t)],
        None => Seq::empty(),
    };
    anidb + tvdb
}

/// The stable identity of an item's result: `aninzb:{source}:{id}`, or the
/// download URL in place of a missing id.
pub open spec fn item_guid(item: AniNzbApiItem, url: Seq<char>) -> Seq<char> {
    let tail = match item.id {
        Some(id) => decimal(id as nat),
        None => url,
    };
    "aninzb:"@ + item_source(item) + ":"@ + tail
}

/// The metadata entries of a result as values.
pub open spec fn extras_view(v: Seq<(String, ExtraValue)>) -> Seq<(Seq<char>, ExtraValueView)> {
    v.map_values(|e: (String, ExtraValue)| (e.0@, e.1@))
}

/// The id entries of a result as values.
pub open spec fn ids_view(v: Seq<(String, String)>) -> Seq<(Seq<char>, Seq<char>)> {
    v.map_values(|e: (String, String)| (e.0@, e.1@))
}

/// An item yields a result when it has a non-blank filename and an accepted download URL.
pub open spec fn item_is_usable(item: AniNzbApiItem) -> bool {
    required_text_of(opt_chars(item.filename)) is Some && api_download_url_of(opt_chars(item.nzb)) is Some
}

/// Whether `res` is the result that the usable item `item` yields.
pub open spec fn describes_item(res: SearchResult, item: AniNzbApiItem) -> bool {
    let title = required_text_of(opt_chars(item.filename))->0;
    let url = api_download_url_of(opt_chars(item.nzb))->0;
    &&& res.title@ == title
    &&& opt_chars(res.link) == Some(url)
    &&& opt_chars(res.download_url) == Some(url)
    &&& res.size_bytes == item.size
    &&& opt_chars(res.published_at) == match item.date {
        Some(d) => Some(timestamp_text(d as int)),
        None => None,
    }
    &&& extras_view(res.provider_extra@) == item_extras(item)
    &&& opt_chars(res.guid) == Some(item_guid(item, url))
    &&& res.source_kind == Some(IndexerSourceKind::Usenet)
    &&& res.protocol == Some(IndexerProtocol::Usenet)
    &&& ids_view(res.external_ids@) == item_external_ids(item)
    &&& strings_view(res.categories@) == seq!["5070"@]
    &&& strings_view(res.provider_categories@) == seq!["TV/Anime"@]
}

fn push_extra(extra: &mut Vec<(String, ExtraValue)>, key: &str, value: ExtraValue)
    ensures
        extras_view(final(extra)@) == extras_view(old(extra)@).push((key@, value@)),
{
    let ghost before = extra@;
    let ghost v = value@;
    extra.push((String::from_str(key), value));
    proof {
        assert(extras_view(extra@) =~= extras_view(before).push((key@, v)));
    }
}

fn push_text_entry(extra: &mut Vec<(String, ExtraValue)>, key: &str, value: Option<String>)
    ensures
        extras_view(final(extra)@) == extras_view(old(extra)@) + text_entry(key@, value),
{
    let ghost before = extra@;
    let t = match &value {
        Some(v) => required_text(Some(v.as_str())),
        None => None,
    };
    match t {
        Some(t) => {
            push_extra(extra, key, ExtraValue::Text(String::from_str(t)));
        },
        None => {
            proof {
                assert(extras_view(extra@) =~= extras_view(before) + Seq::<(Seq<char>, ExtraValueView)>::empty());
            }
        },
    }
}

fn push_list_entry(extra: &mut Vec<(String, ExtraValue)>, key: &str, value: Option<Vec<String>>)
    ensures
        extras_view(final(extra)@) == extras_view(old(extra)@) + list_entry(key@, value),
{
    let ghost before = extra@;
    match value {
        Some(l) => {
            if l.len() > 0 {
                let ghost lv = strings_view(l@);
                push_extra(extra, key, ExtraValue::TextList(l));
            } else {
                proof {
                    assert(extras_view(extra@) =~= extras_view(before) + Seq::<(Seq<char>, ExtraValueView)>::empty());
                }
            }
        },
        None => {
            proof {
                assert(extras_view(extra@) =~= extras_view(before) + Seq::<(Seq<char>, ExtraValueView)>::empty());
            }
        },
    }
}

/// The search result of one API item, or `None` when it lacks a filename or
/// an accepted download URL.
pub fn api_item_to_search_result(item: AniNzbApiItem) -> (r: Option<SearchResult>)
    ensures
        r is Some <==> item_is_usable(item),
        r matches Some(res) ==> describes_item(res, item),
{
    let ghost it = item;
    let title = match &item.filename {
        Some(f) => match required_text(Some(f.as_str())) {
            Some(t) => String::from_str(t),
            None => return None,
        },
        None => return None,
    };
    let download_url = match &item.nzb {
        Some(n) => match api_download_url(Some(n.as_str())) {
            Some(u) => u,
            None => return None,
        },
        None => return None,
    };
    let raw_source = match &item.source {
        Some(s) => match required_text(Some(s.as_str())) {
            Some(t) => chars_of(t),
            None => chars_of("unknown"),
        },
        None => chars_of("unknown"),
    };
    let source = string_from_chars(lower_chars(&raw_source).as_slice());
    let AniNzbApiItem {
        source: _,
        id,
        filename: _,
        anidb,
        series_name,
        episode,
        season,
        tvdb,
        size,
        group,
        date,
        nzb: _,
        poster,
        subtitles,
        screenshots,
        thumbnails,
    } = item;
    let mut external_ids: Vec<(String, String)> = Vec::new();
    let ghost mut ids_expect: Seq<(Seq<char>, Seq<char>)> = Seq::empty();
    proof {
        assert(ids_view(external_ids@) =~= ids_expect);
    }
    match anidb {
        Some(a) => {
            let ghost before = external_ids@;
            let v = u64_to_string(a);
            external_ids.push((String::from_str("anidb_id"), v));
            proof {
                ids_expect = ids_expect.push(("anidb_id"@, decimal(a as nat)));
                assert(ids_view(external_ids@) =~= ids_view(before).push(("anidb_id"@, decimal(a as nat))));
            }
        },
        None => {},
    }
    let tv = match &tvdb {
        Some(t) => required_text(Some(t.as_str())),
        None => None,
    };
    match tv {
        Some(t) => {
            let ghost before = external_ids@;
            external_ids.push((String::from_str("tvdb_id"), String::from_str(t)));
            proof {
                ids_expect = ids_expect.push(("tvdb_id"@, t@));
                assert(ids_view(external_ids@) =~= ids_view(before).push(("tvdb_id"@, t@)));
            }
        },
        None => {},
    }
    proof {
        assert(ids_expect =~= item_external_ids(it));
    }
    let mut extra: Vec<(String, ExtraValue)> = Vec::new();
    push_extra(&mut extra, "source", ExtraValue::Text(source.clone()));
    let ghost e1 = extras_view(extra@);
    match id {
        Some(v) => {
            push_extra(&mut extra, "api_item_id", ExtraValue::Unsigned(v));
        },
        None => {},
    }
    let ghost e2 = extras_view(extra@);
    push_list_entry(&mut extra, "series_names", series_name);
    push_text_entry(&mut extra, "group", group);
    let ghost e3 = extras_view(extra@);
    match season {
        Some(v) => {
            push_extra(&mut extra, "season", ExtraValue::Integer(v));
        },
        None => {},
    }
    let ghost e4 = extras_view(extra@);
    match episode {
        Some(n) => {
            push_extra(&mut extra, "episode", ExtraValue::Number(n));
        },
        None => {},
    }
    let ghost e5 = extras_view(extra@);
    push_text_entry(&mut extra, "poster", poster);
    push_list_entry(&mut extra, "subtitles", subtitles);
    push_list_entry(&mut extra, "screenshots", screenshots);
    push_list_entry(&mut extra, "thumbnails", thumbnails);
    proof {
        let src = item_source(it);
        assert(source@ == src);
        assert(e1 =~= seq![("source"@, ExtraValueView::Text(src))]);
        if it.id is Some {
            assert(e2 =~= e1 + seq![("api_item_id"@, ExtraValueView::Unsigned(it.id->0))]);
        } else {
            assert(e2 =~= e1 + Seq::<(Seq<char>, ExtraValueView)>::empty());
        }
        if it.season is Some {
            assert(e4 =~= e3 + seq![("season"@, ExtraValueView::Integer(it.season->0))]);
        } else {
            assert(e4 =~= e3 + Seq::<(Seq<char>, ExtraValueView)>::empty());
        }
        if it.episode is Some {
            assert(e5 =~= e4 + seq![("episode"@, ExtraValueView::Number(it.episode->0))]);
        } else {
            assert(e5 =~= e4 + Seq::<(Seq<char>, ExtraValueView)>::empty());
        }
        assert(extras_view(extra@) =~= item_extras(it));
    }
    let mut guid = String::from_str("aninzb:");
    push_all(&mut guid, source.as_str());
    push_all(&mut guid, ":");
    match id {
        Some(v) => push_all(&mut guid, u64_to_string(v).as_str()),
        None => push_all(&mut guid, download_url.as_str()),
    }
    let published_at = match date {
        Some(d) => Some(format_unix_timestamp(d)),
        None => None,
    };
    let mut categories: Vec<String> = Vec::new();
    categories.push(String::from_str("5070"));
    let mut provider_categories: Vec<String> = Vec::new();
    provider_categories.push(String::from_str("TV/Anime"));
    proof {
        assert(strings_view(categories@) =~= seq!["5070"@]);
        assert(strings_view(provider_categories@) =~= seq!["TV/Anime"@]);
    }
    Some(
        SearchResult {
            title,
            link: Some(download_url.clone()),
            download_url: Some(download_url),
            size_bytes: size,
            published_at,
            provider_extra: extra,
            guid: Some(guid),
            source_kind: Some(IndexerSourceKind::Usenet),
            protocol: Some(IndexerProtocol::Usenet),
            external_ids,
            categories,
            provider_categories,
        },
    )
}

/// Law: a result is only ever offered for a download on the AniNZB API host.
pub proof fn results_download_from_the_api_host(value: Option<Seq<char>>)
    ensures
        api_download_url_of(value) matches Some(u) ==> exists|t: Seq<char>|
            #![trigger parsed_url(t)]
            parsed_url(t) matches Some(p) && is_api_download(p) && p.serialization == u,
{
    if let Some(u) = api_download_url_of(value) {
        let t = required_text_of(value)->0;
        assert(parsed_url(t) matches Some(p) && is_api_download(p) && p.serialization == u);
    }
}

/// Law: the result of a usable item is titled by its trimmed filename, has
/// its size and a publication time exactly when the item has a date, is a
/// Usenet release, and carries the item's AniDB id in decimal and its trimmed
/// TVDB id whenever the item gives them, and no other external id.
pub proof fn results_keep_the_item_facts(res: SearchResult, item: AniNzbApiItem)
    requires
        item_is_usable(item),
        describes_item(res, item),
    ensures
        item.filename is Some && res.title@ == trim(item.filename->0@),
        res.size_bytes == item.size,
        res.published_at is Some <==> item.date is Some,
        res.source_kind == Some(IndexerSourceKind::Usenet),
        item.anidb is Some ==> ids_view(res.external_ids@).contains(
            ("anidb_id"@, decimal(item.anidb->0 as nat)),
        ),
        item.tvdb is Some && trim(item.tvdb->0@).len() > 0 ==> ids_view(res.external_ids@).contains(
            ("tvdb_id"@, trim(item.tvdb->0@)),
        ),
        forall|k: int|
            0 <= k < res.external_ids@.len() ==> (#[trigger] res.external_ids@[k]).0@ == "anidb_id"@
                || res.external_ids@[k].0@ == "tvdb_id"@,
{
    let ids = ids_view(res.external_ids@);
    let anidb: Seq<(Seq<char>, Seq<char>)> = match item.anidb {
        Some(a) => seq![("anidb_id"@, decimal(a as nat))],
        None => Seq::empty(),
    };
    let tvdb: Seq<(Seq<char>, Seq<char>)> = match required_text_of(opt_chars(item.tvdb)) {
        Some(t) => seq![("tvdb_id"@, t)],
        None => Seq::empty(),
    };
    assert(ids == anidb + tvdb);
    if let Some(a) = item.anidb {
        assert(ids[0] == ("anidb_id"@, decimal(a as nat)));
    }
    if let Some(t) = item.tvdb {
        if trim(t@).len() > 0 {
            assert(ids[anidb.len() as int] == ("tvdb_id"@, trim(t@)));
        }
    }
    assert forall|k: int| 0 <= k < res.external_ids@.len() implies (#[trigger] res.external_ids@[k]).0@
        == "anidb_id"@ || res.external_ids@[k].0@ == "tvdb_id"@ by {
        assert(ids[k] == (res.external_ids@[k].0@, res.external_ids@[k].1@));
        if k < anidb.len() {
            assert(ids[k] == anidb[k]);
        } else {
            assert(ids[k] == tvdb[k - anidb.len()]);
        }
    }
}

} // verus!
