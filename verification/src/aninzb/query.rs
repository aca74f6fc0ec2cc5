//! How a search becomes one or more AniNZB API queries and their URLs.

use vstd::prelude::*;
use crate::aninzb::config::{AniNzbConfig, api_base_url};
use crate::aninzb::request::{
    SearchRequest, request_id_of, search_name_of, is_anime_shaped, request_id, search_name,
    request_is_anime_shaped,
};
use crate::plugin::opt_chars;
use crate::rqbit::torrent::clone_opt_string;
use crate::text::{chars_eq, chars_of, decimal, zero_pad, u64_padded, u64_to_string, push_chars, push_all};

verus! {

/// One query of the AniNZB API.
#[derive(Debug)]
pub struct AniNzbApiQuery {
    pub anidb_id: Option<String>,
    pub tvdb_id: Option<String>,
    pub name: Option<String>,
    pub season: Option<u32>,
    pub episode: Option<u32>,
    pub filename: Option<String>,
    pub largest_first: bool,
}

/// A query as values.
pub struct QueryView {
    pub anidb_id: Option<Seq<char>>,
    pub tvdb_id: Option<Seq<char>>,
    pub name: Option<Seq<char>>,
    pub season: Option<u32>,
    pub episode: Option<u32>,
    pub filename: Option<Seq<char>>,
    pub largest_first: bool,
}

impl View for AniNzbApiQuery {
    type V = QueryView;

    open spec fn view(&self) -> QueryView {
        QueryView {
            anidb_id: opt_chars(self.anidb_id),
            tvdb_id: opt_chars(self.tvdb_id),
            name: opt_chars(self.name),
            season: self.season,
            episode: self.episode,
            filename: opt_chars(self.filename),
            largest_first: self.largest_first,
        }
    }
}

/// The query with nothing set.
pub open spec fn empty_query() -> QueryView {
    QueryView {
        anidb_id: None,
        tvdb_id: None,
        name: None,
        season: None,
        episode: None,
        filename: None,
        largest_first: false,
    }
}

impl AniNzbApiQuery {
    /// The query with nothing set (the newest releases).
    pub fn new() -> (q: AniNzbApiQuery)
        ensures
            q@ == empty_query(),
    {
        AniNzbApiQuery {
            anidb_id: None,
            tvdb_id: None,
            name: None,
            season: None,
            episode: None,
            filename: None,
            largest_first: false,
        }
    }
}

/// The first present of two optional numbers.
pub open spec fn first_of(a: Option<u32>, b: Option<u32>) -> Option<u32> {
    match a {
        Some(v) => Some(v),
        None => b,
    }
}

/// The queries a search is answered from.
///
/// A season pack search (a season and no episode) asks largest-first for the
/// `Sxx` filename token with the title (else the AniDB id, else the TVDB id),
/// then by AniDB id, then by TVDB id with the season, and by title with the
/// season when nothing but the first was asked. An episode search asks by
/// AniDB id (with the absolute episode first for anime) and by TVDB id with
/// season and episode, else by title. A plain search asks each id both
/// largest-first and newest-first, else the title. With nothing to ask, the
/// newest releases are asked for.
pub open spec fn planned_queries(r: SearchRequest) -> Seq<QueryView> {
    let anidb = request_id_of(r, "anidb_id"@);
    let tvdb = request_id_of(r, "tvdb_id"@);
    let name = search_name_of(r);
    let searches = if r.season is Some && r.episode is None && r.absolute_episode is None {
        let season = r.season->0;
        let pack = QueryView {
            filename: Some("S"@ + zero_pad(decimal(season as nat), 2)),
            largest_first: true,
            name: name,
            anidb_id: if name is None {
                anidb
            } else {
                None
            },
            tvdb_id: if name is None && anidb is None {
                tvdb
            } else {
                None
            },
            ..empty_query()
        };
        let s1 = seq![pack];
        let s2 = if anidb is Some {
            s1.push(QueryView { anidb_id: anidb, ..empty_query() })
        } else {
            s1
        };
        let s3 = if tvdb is Some {
            s2.push(QueryView { tvdb_id: tvdb, season: Some(season), ..empty_query() })
        } else {
            s2
        };
        if s3.len() == 1 && name is Some {
            s3.push(QueryView { name: name, season: Some(season), ..empty_query() })
        } else {
            s3
        }
    } else if r.episode is Some || r.absolute_episode is Some {
        let s1 = if anidb is Some {
            seq![
                QueryView {
                    anidb_id: anidb,
                    episode: if is_anime_shaped(r) {
                        first_of(r.absolute_episode, r.episode)
                    } else {
                        first_of(r.episode, r.absolute_episode)
                    },
                    ..empty_query()
                },
            ]
        } else {
            Seq::empty()
        };
        let s2 = if tvdb is Some && r.episode is Some {
            s1.push(QueryView { tvdb_id: tvdb, season: r.season, episode: r.episode, ..empty_query() })
        } else {
            s1
        };
        if s2.len() == 0 && name is Some {
            s2.push(
                QueryView {
                    name: name,
                    season: r.season,
                    episode: first_of(r.absolute_episode, r.episode),
                    ..empty_query()
                },
            )
        } else {
            s2
        }
    } else {
        let s1 = if anidb is Some {
            seq![
                QueryView { anidb_id: anidb, largest_first: true, ..empty_query() },
                QueryView { anidb_id: anidb, ..empty_query() },
            ]
        } else {
            Seq::empty()
        };
        let s2 = if tvdb is Some {
            s1 + seq![
                QueryView { tvdb_id: tvdb, largest_first: true, ..empty_query() },
                QueryView { tvdb_id: tvdb, ..empty_query() },
            ]
        } else {
            s1
        };
        if s2.len() == 0 && name is Some {
            seq![QueryView { name: name, ..empty_query() }]
        } else {
            s2
        }
    };
    if searches.len() == 0 {
        seq![empty_query()]
    } else {
        searches
    }
}

/// Whether `v` holds the queries `spec`, in order.
pub open spec fn holds_queries(v: Seq<AniNzbApiQuery>, spec: Seq<QueryView>) -> bool {
    v.len() == spec.len() && forall|k: int| 0 <= k < v.len() ==> (#[trigger] v[k])@ == spec[k]
}

fn copy_u32(o: Option<u32>) -> (r: Option<u32>)
    ensures
        r == o,
{
    o
}

/// The queries that answer `request`.
pub fn plan_api_queries(request: &SearchRequest) -> (qs: Vec<AniNzbApiQuery>)
    ensures
        holds_queries(qs@, planned_queries(*request)),
{
    let anidb = request_id(request, "anidb_id");
    let tvdb = request_id(request, "tvdb_id");
    let name = search_name(request);
    let mut searches: Vec<AniNzbApiQuery> = Vec::new();
    let ghost mut spec_list: Seq<QueryView> = Seq::empty();
    if request.season.is_some() && request.episode.is_none() && request.absolute_episode.is_none() {
        let season = match request.season {
            Some(s) => s,
            None => 0,
        };
        let mut filename = String::from_str("S");
        push_chars(&mut filename, &u64_padded(season as u64, 2));
        let mut pack = AniNzbApiQuery::new();
        pack.filename = Some(filename);
        pack.largest_first = true;
        if name.is_some() {
            pack.name = clone_opt_string(&name);
        } else if anidb.is_some() {
            pack.anidb_id = clone_opt_string(&anidb);
        } else if tvdb.is_some() {
            pack.tvdb_id = clone_opt_string(&tvdb);
        }
        searches.push(pack);
        if anidb.is_some() {
            let mut q = AniNzbApiQuery::new();
            q.anidb_id = clone_opt_string(&anidb);
            searches.push(q);
        }
        if tvdb.is_some() {
            let mut q = AniNzbApiQuery::new();
            q.tvdb_id = clone_opt_string(&tvdb);
            q.season = Some(season);
            searches.push(q);
        }
        if searches.len() == 1 && name.is_some() {
            let mut q = AniNzbApiQuery::new();
            q.name = clone_opt_string(&name);
            q.season = Some(season);
            searches.push(q);
        }
    } else if request.episode.is_some() || request.absolute_episode.is_some() {
        let is_anime = request_is_anime_shaped(request);
        if anidb.is_some() {
            let mut q = AniNzbApiQuery::new();
            q.anidb_id = clone_opt_string(&anidb);
            q.episode = if is_anime {
                if request.absolute_episode.is_some() {
                    copy_u32(request.absolute_episode)
                } else {
                    copy_u32(request.episode)
                }
            } else if request.episode.is_some() {
                copy_u32(request.episode)
            } else {
                copy_u32(request.absolute_episode)
            };
            searches.push(q);
        }
        if tvdb.is_some() && request.episode.is_some() {
            let mut q = AniNzbApiQuery::new();
            q.tvdb_id = clone_opt_string(&tvdb);
            q.season = copy_u32(request.season);
            q.episode = copy_u32(request.episode);
            searches.push(q);
        }
        if searches.len() == 0 && name.is_some() {
            let mut q = AniNzbApiQuery::new();
            q.name = clone_opt_string(&name);
            q.season = copy_u32(request.season);
            q.episode = if request.absolute_episode.is_some() {
                copy_u32(request.absolute_episode)
            } else {
                copy_u32(request.episode)
            };
            searches.push(q);
        }
    } else {
        if anidb.is_some() {
            let mut q1 = AniNzbApiQuery::new();
            q1.anidb_id = clone_opt_string(&anidb);
            q1.largest_first = true;
            searches.push(q1);
            let mut q2 = AniNzbApiQuery::new();
            q2.anidb_id = clone_opt_string(&anidb);
            searches.push(q2);
        }
        if tvdb.is_some() {
            let mut q1 = AniNzbApiQuery::new();
            q1.tvdb_id = clone_opt_string(&tvdb);
            q1.largest_first = true;
            searches.push(q1);
            let mut q2 = AniNzbApiQuery::new();
            q2.tvdb_id = clone_opt_string(&tvdb);
            searches.push(q2);
        }
        if searches.len() == 0 && name.is_some() {
            let mut q = AniNzbApiQuery::new();
            q.name = clone_opt_string(&name);
            searches.push(q);
        }
    }
    if searches.len() == 0 {
        searches.push(AniNzbApiQuery::new());
    }
    proof {
        let p = planned_queries(*request);
        assert(searches@.len() == p.len());
        assert forall|k: int| 0 <= k < searches@.len() implies (#[trigger] searches@[k])@ == p[k] by {
        }
    }
    searches
}

/// The characters of a pair of strings.
pub open spec fn pair_chars(p: (String, String)) -> (Seq<char>, Seq<char>) {
    (p.0@, p.1@)
}

/// The characters of a list of string pairs.
pub open spec fn pairs_chars(v: Seq<(String, String)>) -> Seq<(Seq<char>, Seq<char>)> {
    v.map_values(|p: (String, String)| pair_chars(p))
}

/// The characters of a result of strings.
pub open spec fn result_chars(r: Result<String, String>) -> Result<Seq<char>, Seq<char>> {
    match r {
        Ok(s) => Ok(s@),
        Err(e) => Err(e@),
    }
}

/// The query string parameters of a query, in order: `source=release` when
/// nothing is asked for, then `anidb`, `tvdb`, `name`, `season`, `episode`
/// and `filename` as far as they are set, and `sort=size&order=desc` for a
/// largest-first query.
pub open spec fn query_pairs(q: QueryView) -> Seq<(Seq<char>, Seq<char>)> {
    let source = if q.anidb_id is None && q.tvdb_id is None && q.name is None && q.season is None
        && q.episode is None && q.filename is None {
        seq![("source"@, "release"@)]
    } else {
        Seq::empty()
    };
    let anidb = match q.anidb_id {
        Some(v) => seq![("anidb"@, v)],
        None => Seq::empty(),
    };
    let tvdb = match q.tvdb_id {
        Some(v) => seq![("tvdb"@, v)],
        None => Seq::empty(),
    };
    let name = match q.name {
        Some(v) => seq![("name"@, v)],
        None => Seq::empty(),
    };
    let season = match q.season {
        Some(v) => seq![("season"@, decimal(v as nat))],
        None => Seq::empty(),
    };
    let episode = match q.episode {
        Some(v) => seq![("episode"@, decimal(v as nat))],
        None => Seq::empty(),
    };
    let filename = match q.filename {
        Some(v) => seq![("filename"@, v)],
        None => Seq::empty(),
    };
    let sort = if q.largest_first {
        seq![("sort"@, "size"@), ("order"@, "desc"@)]
    } else {
        Seq::empty()
    };
    source + anidb + tvdb + name + season + episode + filename + sort
}

fn push_pair(pairs: &mut Vec<(String, String)>, key: &str, value: String)
    ensures
        pairs_chars(final(pairs)@) == pairs_chars(old(pairs)@).push((key@, value@)),
{
    let ghost before = pairs@;
    pairs.push((String::from_str(key), value));
    proof {
        assert(pairs_chars(pairs@) =~= pairs_chars(before).push((key@, value@)));
    }
}

/// The query string parameters of `q`.
pub fn api_query_pairs(q: &AniNzbApiQuery) -> (pairs: Vec<(String, String)>)
    ensures
        pairs_chars(pairs@) == query_pairs(q@),
{
    let mut pairs: Vec<(String, String)> = Vec::new();
    let ghost mut expect: Seq<(Seq<char>, Seq<char>)> = Seq::empty();
    proof {
        assert(pairs_chars(pairs@) =~= expect);
    }
    if q.anidb_id.is_none() && q.tvdb_id.is_none() && q.name.is_none() && q.season.is_none()
        && q.episode.is_none() && q.filename.is_none() {
        push_pair(&mut pairs, "source", String::from_str("release"));
        proof {
            expect = expect.push(("source"@, "release"@));
        }
    }
    match &q.anidb_id {
        Some(v) => {
            push_pair(&mut pairs, "anidb", v.clone());
            proof {
                expect = expect.push(("anidb"@, v@));
            }
        },
        None => {},
    }
    match &q.tvdb_id {
        Some(v) => {
            push_pair(&mut pairs, "tvdb", v.clone());
            proof {
                expect = expect.push(("tvdb"@, v@));
            }
        },
        None => {},
    }
    match &q.name {
        Some(v) => {
            push_pair(&mut pairs, "name", v.clone());
            proof {
                expect = expect.push(("name"@, v@));
            }
        },
        None => {},
    }
    match q.season {
        Some(v) => {
            push_pair(&mut pairs, "season", u64_to_string(v as u64));
            proof {
                expect = expect.push(("season"@, decimal(v as nat)));
            }
        },
        None => {},
    }
    match q.episode {
        Some(v) => {
            push_pair(&mut pairs, "episode", u64_to_string(v as u64));
            proof {
                expect = expect.push(("episode"@, decimal(v as nat)));
            }
        },
        None => {},
    }
    match &q.filename {
        Some(v) => {
            push_pair(&mut pairs, "filename", v.clone());
            proof {
                expect = expect.push(("filename"@, v@));
            }
        },
        None => {},
    }
    if q.largest_first {
        push_pair(&mut pairs, "sort", String::from_str("size"));
        push_pair(&mut pairs, "order", String::from_str("desc"));
        proof {
            expect = expect.push(("sort"@, "size"@)).push(("order"@, "desc"@));
        }
    }
    proof {
        assert(expect =~= query_pairs(q@));
    }
    pairs
}

/// The URL that `url::Url` makes of `base` with the query parameters `pairs`
/// appended (form-urlencoded), or the text of its parse error.
pub uninterp spec fn url_with_query_pairs(
    base: Seq<char>,
    pairs: Seq<(Seq<char>, Seq<char>)>,
) -> Result<Seq<char>, Seq<char>>;

/// `url::Url::parse_with_params(base, pairs)`, serialized: the URL `base`
/// with `pairs` appended to its query, or the text of the parse error. The
/// result is named, not described.
#[verifier::external_body]
fn url_with_params(base: &str, pairs: &Vec<(String, String)>) -> (r: Result<String, String>)
    ensures
        result_chars(r) == url_with_query_pairs(base@, pairs_chars(pairs@)),
{
    match url::Url::parse_with_params(base, pairs.iter()) {
        Ok(url) => Ok(url.to_string()),
        Err(error) => Err(error.to_string()),
    }
}

/// The URL of one query, or why it cannot be built.
pub open spec fn query_url(q: QueryView) -> Result<Seq<char>, Seq<char>> {
    match url_with_query_pairs(api_base_url(), query_pairs(q)) {
        Ok(u) => Ok(u),
        Err(e) => Err("invalid fixed AniNZB API URL: "@ + e),
    }
}

/// The API URL of `search`: the API root with the query's parameters.
pub fn build_api_search_url(config: &AniNzbConfig, search: &AniNzbApiQuery) -> (r: Result<String, String>)
    ensures
        result_chars(r) == query_url(search@),
{
    let pairs = api_query_pairs(search);
    match url_with_params(config.api_base_url().as_str(), &pairs) {
        Ok(u) => Ok(u),
        Err(e) => {
            let mut m = String::from_str("invalid fixed AniNZB API URL: ");
            push_all(&mut m, e.as_str());
            Err(m)
        },
    }
}

/// The URLs of the queries, each once, in the order first asked; or the
/// failure of the first query whose URL cannot be built.
pub open spec fn distinct_urls(qs: Seq<QueryView>) -> Result<Seq<Seq<char>>, Seq<char>>
    decreases qs.len(),
{
    if qs.len() == 0 {
        Ok(Seq::empty())
    } else {
        match distinct_urls(qs.drop_last()) {
            Err(e) => Err(e),
            Ok(urls) => match query_url(qs.last()) {
                Err(e) => Err(e),
                Ok(u) => Ok(
                    if urls.contains(u) {
                        urls
                    } else {
                        urls.push(u)
                    },
                ),
            },
        }
    }
}

/// The API URLs that answer `request`.
pub open spec fn search_urls_of(r: SearchRequest) -> Result<Seq<Seq<char>>, Seq<char>> {
    distinct_urls(planned_queries(r))
}

/// The characters of a list of strings.
pub open spec fn strings_chars(v: Seq<String>) -> Seq<Seq<char>> {
    v.map_values(|s: String| s@)
}

fn contains_string(list: &Vec<String>, s: &String) -> (b: bool)
    ensures
        b == strings_chars(list@).contains(s@),
{
    let sc = chars_of(s.as_str());
    let mut i: usize = 0;
    while i < list.len()
        invariant
            i <= list@.len(),
            sc@ == s@,
            forall|k: int| 0 <= k < i ==> list@[k]@ != s@,
        decreases list@.len() - i,
    {
        if chars_eq(&chars_of(list[i].as_str()), &sc) {
            proof {
                assert(strings_chars(list@)[i as int] == s@);
            }
            return true;
        }
        i = i + 1;
    }
    proof {
        if strings_chars(list@).contains(s@) {
            let k = choose|k: int| 0 <= k < strings_chars(list@).len() && strings_chars(list@)[k] == s@;
            assert(list@[k]@ == s@);
        }
    }
    false
}

/// The API URLs to fetch for `request`, each once.
pub fn build_api_search_urls(config: &AniNzbConfig, request: &SearchRequest) -> (r: Result<Vec<String>, String>)
    ensures
        match search_urls_of(*request) {
            Ok(urls) => r matches Ok(v) && strings_chars(v@) == urls,
            Err(e) => r matches Err(m) && m@ == e,
        },
{
    let searches = plan_api_queries(request);
    let ghost qs = planned_queries(*request);
    let mut urls: Vec<String> = Vec::new();
    let mut i: usize = 0;
    proof {
        assert(qs.subrange(0, 0) =~= Seq::<QueryView>::empty());
        assert(strings_chars(urls@) =~= Seq::<Seq<char>>::empty());
    }
    while i < searches.len()
        invariant
            qs == planned_queries(*request),
            holds_queries(searches@, qs),
            i <= searches@.len(),
            distinct_urls(qs.subrange(0, i as int)) == Ok::<Seq<Seq<char>>, Seq<char>>(strings_chars(urls@)),
        decreases searches@.len() - i,
    {
        proof {
            assert(qs.subrange(0, i + 1).drop_last() =~= qs.subrange(0, i as int));
            assert(qs.subrange(0, i + 1).last() == searches@[i as int]@);
        }
        match build_api_search_url(config, &searches[i]) {
            Ok(u) => {
                if !contains_string(&urls, &u) {
                    let ghost before = urls@;
                    urls.push(u);
                    proof {
                        assert(strings_chars(urls@) =~= strings_chars(before).push(u@));
                    }
                }
            },
            Err(e) => {
                proof {
                    lemma_urls_stay_failed(qs, (i + 1) as int);
                }
                return Err(e);
            },
        }
        i = i + 1;
    }
    proof {
        assert(qs.subrange(0, qs.len() as int) =~= qs);
    }
    Ok(urls)
}

proof fn lemma_urls_stay_failed(qs: Seq<QueryView>, n: int)
    requires
        0 <= n <= qs.len(),
        distinct_urls(qs.subrange(0, n)) is Err,
    ensures
        distinct_urls(qs) == distinct_urls(qs.subrange(0, n)),
    decreases qs.len() - n,
{
    if n < qs.len() {
        assert(qs.subrange(0, n + 1).drop_last() =~= qs.subrange(0, n));
        lemma_urls_stay_failed(qs, n + 1);
    } else {
        assert(qs.subrange(0, n) =~= qs);
    }
}

/// Law: the URLs fetched for a search are pairwise different.
pub proof fn search_urls_are_distinct(qs: Seq<QueryView>)
    ensures
        distinct_urls(qs) matches Ok(urls) ==> forall|a: int, b: int|
            0 <= a < b < urls.len() ==> urls[a] != urls[b],
    decreases qs.len(),
{
    if qs.len() > 0 {
        search_urls_are_distinct(qs.drop_last());
        if let Ok(urls) = distinct_urls(qs.drop_last()) {
            if let Ok(u) = query_url(qs.last()) {
                if !urls.contains(u) {
                    let n = urls.push(u);
                    assert forall|a: int, b: int| 0 <= a < b < n.len() implies n[a] != n[b] by {
                        if b == urls.len() {
                            assert(n[a] == urls[a]);
                        }
                    }
                }
            }
        }
    }
}

/// Law: every search asks at least one query.
pub proof fn every_search_asks_something(r: SearchRequest)
    ensures
        planned_queries(r).len() >= 1,
{
}

/// Law: a search asks by every id it names. A season pack search asks
/// largest-first for the `Sxx` filename token, by AniDB id without a season,
/// and by TVDB id with the season; an episode search asks by AniDB id for the
/// episode and by TVDB id for the season and episode; a plain search asks by
/// each id both largest-first and newest-first.
pub proof fn searches_ask_by_every_id(r: SearchRequest)
    ensures
        ({
            let qs = planned_queries(r);
            let anidb = request_id_of(r, "anidb_id"@);
            let tvdb = request_id_of(r, "tvdb_id"@);
            &&& r.season is Some && r.episode is None && r.absolute_episode is None ==> {
                &&& qs[0].filename == Some("S"@ + zero_pad(decimal(r.season->0 as nat), 2))
                &&& qs[0].largest_first
                &&& anidb is Some ==> qs.contains(QueryView { anidb_id: anidb, ..empty_query() })
                &&& tvdb is Some ==> qs.contains(
                    QueryView { tvdb_id: tvdb, season: r.season, ..empty_query() },
                )
            }
            &&& !(r.season is Some && r.episode is None && r.absolute_episode is None) && (r.episode
                is Some || r.absolute_episode is Some) ==> {
                &&& anidb is Some ==> qs.contains(
                    QueryView {
                        anidb_id: anidb,
                        episode: if is_anime_shaped(r) {
                            first_of(r.absolute_episode, r.episode)
                        } else {
                            first_of(r.episode, r.absolute_episode)
                        },
                        ..empty_query()
                    },
                )
                &&& tvdb is Some && r.episode is Some ==> qs.contains(
                    QueryView { tvdb_id: tvdb, season: r.season, episode: r.episode, ..empty_query() },
                )
            }
            &&& r.season is None && r.episode is None && r.absolute_episode is None ==> {
                &&& anidb is Some ==> qs.contains(
                    QueryView { anidb_id: anidb, largest_first: true, ..empty_query() },
                ) && qs.contains(QueryView { anidb_id: anidb, ..empty_query() })
                &&& tvdb is Some ==> qs.contains(
                    QueryView { tvdb_id: tvdb, largest_first: true, ..empty_query() },
                ) && qs.contains(QueryView { tvdb_id: tvdb, ..empty_query() })
            }
        }),
{
    let qs = planned_queries(r);
    let anidb = request_id_of(r, "anidb_id"@);
    let tvdb = request_id_of(r, "tvdb_id"@);
    if r.season is Some && r.episode is None && r.absolute_episode is None {
        if anidb is Some {
            assert(qs[1] == QueryView { anidb_id: anidb, ..empty_query() });
        }
        if tvdb is Some {
            let k: int = if anidb is Some { 2 } else { 1 };
            assert(qs[k] == QueryView { tvdb_id: tvdb, season: r.season, ..empty_query() });
        }
    } else if r.episode is Some || r.absolute_episode is Some {
        if anidb is Some {
            assert(qs[0].anidb_id == anidb);
        }
        if tvdb is Some && r.episode is Some {
            let k: int = if anidb is Some { 1 } else { 0 };
            assert(qs[k] == QueryView { tvdb_id: tvdb, season: r.season, episode: r.episode, ..empty_query() });
        }
    } else {
        if anidb is Some {
            assert(qs[0] == QueryView { anidb_id: anidb, largest_first: true, ..empty_query() });
            assert(qs[1] == QueryView { anidb_id: anidb, ..empty_query() });
        }
        if tvdb is Some {
            let k: int = if anidb is Some { 2 } else { 0 };
            assert(qs[k] == QueryView { tvdb_id: tvdb, largest_first: true, ..empty_query() });
            assert(qs[k + 1] == QueryView { tvdb_id: tvdb, ..empty_query() });
        }
    }
}

} // verus!
