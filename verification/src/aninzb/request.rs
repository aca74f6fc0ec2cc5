//! Search requests as the indexer reads them: their shape, their ids and the
//! title they search for.

use vstd::prelude::*;
use vstd::utf8::encode_utf8;
use crate::plugin::opt_chars;
use crate::text::{
    chars_of, trim, trim_bounds, string_from_range, string_from_chars, eq_ignore_case,
    eq_ignore_ascii_case, eq_ignore_case_at, trim_end, push_chars, push_all, u64_padded, zero_pad,
    decimal,
};

verus! {

/// What a search is for.
#[derive(Debug, Clone, Copy, PartialEq, Eq, Structural)]
pub enum SearchSubjectKind {
    Movie,
    AnimeEpisode,
    /// Any other subject.
    Other,
}

/// The context Scryer gives a search.
#[derive(Debug, Clone, Copy)]
pub struct SearchContext {
    pub subject_kind: SearchSubjectKind,
}

/// Another name of the searched title.
#[derive(Debug)]
pub struct TaggedAlias {
    pub name: String,
}

/// A search that Scryer asks the indexer for.
#[derive(Debug)]
pub struct SearchRequest {
    pub query: String,
    /// External ids by key (`anidb_id`, `tvdb_id`, ...), each key at most once.
    pub ids: Vec<(String, String)>,
    pub facet: Option<String>,
    pub season: Option<u32>,
    pub episode: Option<u32>,
    pub absolute_episode: Option<u32>,
    pub tagged_aliases: Vec<TaggedAlias>,
    pub context: Option<SearchContext>,
    pub limit: usize,
}

impl SearchRequest {
    /// A request with every field empty.
    pub fn new() -> (r: SearchRequest)
        ensures
            r.query@ == Seq::<char>::empty(),
            r.ids@.len() == 0,
            r.facet is None,
            r.season is None,
            r.episode is None,
            r.absolute_episode is None,
            r.tagged_aliases@.len() == 0,
            r.context is None,
            r.limit == 0,
    {
        SearchRequest {
            query: String::new(),
            ids: Vec::new(),
            facet: None,
            season: None,
            episode: None,
            absolute_episode: None,
            tagged_aliases: Vec::new(),
            context: None,
            limit: 0,
        }
    }
}

/// Whether the trimmed facet names `word`, in any ASCII case.
pub open spec fn facet_is(facet: Option<Seq<char>>, word: Seq<char>) -> bool {
    match facet {
        Some(f) => eq_ignore_case(trim(f), word),
        None => false,
    }
}

/// A movie search: its context says so, or its facet is `movie`.
pub open spec fn is_movie_shaped(r: SearchRequest) -> bool {
    (r.context matches Some(c) && c.subject_kind == SearchSubjectKind::Movie) || facet_is(
        opt_chars(r.facet),
        "movie"@,
    )
}

/// An anime search: its context is an anime episode, or its facet is `anime`.
pub open spec fn is_anime_shaped(r: SearchRequest) -> bool {
    (r.context matches Some(c) && c.subject_kind == SearchSubjectKind::AnimeEpisode) || facet_is(
        opt_chars(r.facet),
        "anime"@,
    )
}

fn facet_matches(facet: &Option<String>, word: &str) -> (b: bool)
    ensures
        b == facet_is(opt_chars(*facet), word@),
{
    match facet {
        Some(f) => {
            let cs = chars_of(f.as_str());
            let (i, j) = trim_bounds(&cs);
            let t = chars_of(string_from_range(&cs, i, j).as_str());
            eq_ignore_ascii_case(&t, &chars_of(word))
        },
        None => false,
    }
}

/// Whether the request asks for a movie, which the indexer does not serve.
pub fn request_is_movie_shaped(request: &SearchRequest) -> (b: bool)
    ensures
        b == is_movie_shaped(*request),
{
    let by_context = match &request.context {
        Some(c) => c.subject_kind == SearchSubjectKind::Movie,
        None => false,
    };
    by_context || facet_matches(&request.facet, "movie")
}

/// Whether the request asks for anime.
pub fn request_is_anime_shaped(request: &SearchRequest) -> (b: bool)
    ensures
        b == is_anime_shaped(*request),
{
    let by_context = match &request.context {
        Some(c) => c.subject_kind == SearchSubjectKind::AnimeEpisode,
        None => false,
    };
    by_context || facet_matches(&request.facet, "anime")
}

/// The value stored under `key` (the first entry with that key).
pub open spec fn id_lookup(ids: Seq<(String, String)>, key: Seq<char>) -> Option<Seq<char>>
    decreases ids.len(),
{
    if ids.len() == 0 {
        None
    } else if ids[0].0@ == key {
        Some(ids[0].1@)
    } else {
        id_lookup(ids.drop_first(), key)
    }
}

/// The id under `key`, trimmed, when it is not blank.
pub open spec fn request_id_of(r: SearchRequest, key: Seq<char>) -> Option<Seq<char>> {
    match id_lookup(r.ids@, key) {
        Some(v) => if trim(v).len() > 0 {
            Some(trim(v))
        } else {
            None
        },
        None => None,
    }
}

/// The external id of the request under `key`.
pub fn request_id(request: &SearchRequest, key: &str) -> (id: Option<String>)
    ensures
        opt_chars(id) == request_id_of(*request, key@),
{
    let mut i: usize = 0;
    let kc = chars_of(key);
    proof {
        assert(request.ids@.subrange(0, request.ids@.len() as int) =~= request.ids@);
    }
    while i < request.ids.len()
        invariant
            i <= request.ids@.len(),
            kc@ == key@,
            id_lookup(request.ids@, key@) == id_lookup(request.ids@.subrange(i as int, request.ids@.len() as int), key@),
        decreases request.ids@.len() - i,
    {
        let ghost rest = request.ids@.subrange(i as int, request.ids@.len() as int);
        proof {
            assert(rest[0] == request.ids@[i as int]);
            assert(rest.drop_first() =~= request.ids@.subrange(i + 1, request.ids@.len() as int));
        }
        let entry = &request.ids[i];
        if crate::text::chars_eq(&chars_of(entry.0.as_str()), &kc) {
            let vc = chars_of(entry.1.as_str());
            let (a, b) = trim_bounds(&vc);
            if a < b {
                return Some(string_from_range(&vc, a, b));
            } else {
                return None;
            }
        }
        i = i + 1;
    }
    None
}

/// Whether `query` starts with `alias` (ignoring ASCII case) followed by its
/// end, a space, a dot, a dash or an underscore.
pub open spec fn alias_prefixes(query: Seq<char>, alias: Seq<char>) -> bool {
    &&& alias.len() <= query.len()
    &&& eq_ignore_case(query.subrange(0, alias.len() as int), alias)
    &&& (query.len() == alias.len() || query[alias.len() as int] == ' ' || query[alias.len() as int]
        == '.' || query[alias.len() as int] == '-' || query[alias.len() as int] == '_')
}

/// The trimmed names of the aliases.
pub open spec fn alias_names(aliases: Seq<TaggedAlias>) -> Seq<Seq<char>> {
    aliases.map_values(|a: TaggedAlias| trim(a.name@))
}

/// The longest (in UTF-8 bytes) non-blank alias name that prefixes `query`,
/// the last of equally long ones.
pub open spec fn best_alias(query: Seq<char>, names: Seq<Seq<char>>) -> Option<Seq<char>>
    decreases names.len(),
{
    if names.len() == 0 {
        None
    } else {
        let prev = best_alias(query, names.drop_last());
        let t = names.last();
        if t.len() > 0 && alias_prefixes(query, t) {
            match prev {
                Some(b) => if encode_utf8(t).len() >= encode_utf8(b).len() {
                    Some(t)
                } else {
                    Some(b)
                },
                None => Some(t),
            }
        } else {
            prev
        }
    }
}

/// The first non-blank alias name.
pub open spec fn first_alias(names: Seq<Seq<char>>) -> Option<Seq<char>>
    decreases names.len(),
{
    if names.len() == 0 {
        None
    } else if names[0].len() > 0 {
        Some(names[0])
    } else {
        first_alias(names.drop_first())
    }
}

/// `query` without `suffix` (matched ignoring ASCII case) and the whitespace
/// before it, when what is left is not empty.
pub open spec fn strip_suffix(query: Seq<char>, suffix: Seq<char>) -> Option<Seq<char>> {
    if suffix.len() <= query.len() && eq_ignore_case(
        query.subrange(query.len() - suffix.len(), query.len() as int),
        suffix,
    ) {
        let base = trim_end(query.subrange(0, query.len() - suffix.len()));
        if base.len() > 0 {
            Some(base)
        } else {
            None
        }
    } else {
        None
    }
}

/// The scope suffixes a scoped query may end with, in the order they are tried:
/// ` S01E02` and ` S1E2` for a season and episode, ` S01` and ` S1` for a
/// season, ` 055` and ` 55` for an absolute episode.
pub open spec fn scope_suffixes(r: SearchRequest) -> Seq<Seq<char>> {
    let se = match (r.season, r.episode) {
        (Some(s), Some(e)) => seq![
            " S"@ + zero_pad(decimal(s as nat), 2) + "E"@ + zero_pad(decimal(e as nat), 2),
            " S"@ + decimal(s as nat) + "E"@ + decimal(e as nat),
        ],
        _ => Seq::empty(),
    };
    let s = match r.season {
        Some(s) => seq![" S"@ + zero_pad(decimal(s as nat), 2), " S"@ + decimal(s as nat)],
        None => Seq::empty(),
    };
    let a = match r.absolute_episode {
        Some(a) => seq![" "@ + zero_pad(decimal(a as nat), 3), " "@ + decimal(a as nat)],
        None => Seq::empty(),
    };
    se + s + a
}

/// The first suffix that `strip_suffix` can remove.
pub open spec fn first_strip(query: Seq<char>, suffixes: Seq<Seq<char>>) -> Option<Seq<char>>
    decreases suffixes.len(),
{
    if suffixes.len() == 0 {
        None
    } else {
        match strip_suffix(query, suffixes[0]) {
            Some(b) => Some(b),
            None => first_strip(query, suffixes.drop_first()),
        }
    }
}

/// The request's query with a trailing season, episode or absolute-episode
/// marker removed.
pub open spec fn stripped_query(query: Seq<char>, r: SearchRequest) -> Option<Seq<char>> {
    first_strip(query, scope_suffixes(r))
}

/// The title to search for: the trimmed query, or for a scoped query the
/// longest alias it starts with, else the query without its scope marker;
/// without a query, the first non-blank alias.
pub open spec fn search_name_of(r: SearchRequest) -> Option<Seq<char>> {
    let query = trim(r.query@);
    let names = alias_names(r.tagged_aliases@);
    if query.len() > 0 {
        if r.season is Some || r.episode is Some || r.absolute_episode is Some {
            match best_alias(query, names) {
                Some(a) => Some(a),
                None => match stripped_query(query, r) {
                    Some(b) => Some(b),
                    None => Some(query),
                },
            }
        } else {
            Some(query)
        }
    } else {
        first_alias(names)
    }
}

/// Whether `query` starts with the alias `alias`.
fn alias_prefixes_exec(query: &Vec<char>, alias: &Vec<char>) -> (b: bool)
    ensures
        b == alias_prefixes(query@, alias@),
{
    if alias.len() > query.len() {
        return false;
    }
    if !eq_ignore_case_at(query, 0, alias) {
        return false;
    }
    if query.len() == alias.len() {
        return true;
    }
    let c = query[alias.len()];
    c == ' ' || c == '.' || c == '-' || c == '_'
}

/// The trimmed characters of `s`.
fn trimmed_chars(s: &String) -> (t: Vec<char>)
    ensures
        t@ == trim(s@),
{
    let cs = chars_of(s.as_str());
    let (i, j) = trim_bounds(&cs);
    chars_of(string_from_range(&cs, i, j).as_str())
}

/// The best alias of the request for `query`.
fn best_alias_exec(query: &Vec<char>, aliases: &Vec<TaggedAlias>) -> (r: Option<String>)
    ensures
        opt_chars(r) == best_alias(query@, alias_names(aliases@)),
{
    let mut best: Option<String> = None;
    let mut best_bytes: usize = 0;
    let mut i: usize = 0;
    while i < aliases.len()
        invariant
            i <= aliases@.len(),
            opt_chars(best) == best_alias(query@, alias_names(aliases@.subrange(0, i as int))),
            best matches Some(b) ==> best_bytes == encode_utf8(b@).len(),
        decreases aliases@.len() - i,
    {
        proof {
            assert(alias_names(aliases@.subrange(0, i + 1)).drop_last() =~= alias_names(
                aliases@.subrange(0, i as int),
            ));
            assert(alias_names(aliases@.subrange(0, i + 1)).last() == trim(aliases@[i as int].name@));
        }
        let t = trimmed_chars(&aliases[i].name);
        if t.len() > 0 && alias_prefixes_exec(query, &t) {
            let ts = string_from_chars(t.as_slice());
            let tstr = ts.as_str();
            let tb = tstr.as_bytes().len();
            proof {
                assert(tstr@ == t@);
                assert(tb == encode_utf8(t@).len());
            }
            match &best {
                Some(_) => {
                    if tb >= best_bytes {
                        best = Some(ts);
                        best_bytes = tb;
                    }
                },
                None => {
                    best = Some(ts);
                    best_bytes = tb;
                },
            }
        }
        i = i + 1;
    }
    proof {
        assert(aliases@.subrange(0, aliases@.len() as int) =~= aliases@);
    }
    best
}

/// The first non-blank alias name of the request.
fn first_alias_exec(aliases: &Vec<TaggedAlias>) -> (r: Option<String>)
    ensures
        opt_chars(r) == first_alias(alias_names(aliases@)),
{
    let mut i: usize = 0;
    proof {
        assert(aliases@.subrange(0, aliases@.len() as int) =~= aliases@);
    }
    while i < aliases.len()
        invariant
            i <= aliases@.len(),
            first_alias(alias_names(aliases@)) == first_alias(
                alias_names(aliases@.subrange(i as int, aliases@.len() as int)),
            ),
        decreases aliases@.len() - i,
    {
        let ghost rest = alias_names(aliases@.subrange(i as int, aliases@.len() as int));
        proof {
            assert(rest.drop_first() =~= alias_names(aliases@.subrange(i + 1, aliases@.len() as int)));
            assert(rest[0] == trim(aliases@[i as int].name@));
        }
        let t = trimmed_chars(&aliases[i].name);
        if t.len() > 0 {
            return Some(string_from_chars(t.as_slice()));
        }
        i = i + 1;
    }
    proof {
        assert(alias_names(aliases@.subrange(i as int, aliases@.len() as int)) =~= Seq::<Seq<char>>::empty());
    }
    None
}

/// `query` without `suffix`, as `strip_suffix` describes.
fn strip_suffix_exec(query: &Vec<char>, suffix: &Vec<char>) -> (r: Option<String>)
    ensures
        opt_chars(r) == strip_suffix(query@, suffix@),
{
    if suffix.len() > query.len() {
        return None;
    }
    let split = query.len() - suffix.len();
    if !eq_ignore_case_at(query, split, suffix) {
        return None;
    }
    let mut j = split;
    while j > 0 && crate::text::is_whitespace(query[j - 1])
        invariant
            j <= split <= query@.len(),
            trim_end(query@.subrange(0, split as int)) == trim_end(query@.subrange(0, j as int)),
        decreases j,
    {
        proof {
            assert(query@.subrange(0, j as int).drop_last() =~= query@.subrange(0, j - 1));
        }
        j = j - 1;
    }
    if j == 0 {
        proof {
            assert(query@.subrange(0, 0) =~= Seq::<char>::empty());
        }
        None
    } else {
        Some(string_from_range(query, 0, j))
    }
}

/// Appends ` S` and the zero-padded or plain `season` (and `E` and the episode).
fn scope_marker(prefix: &str, first: u32, second: Option<u32>, width: usize) -> (m: Vec<char>)
    ensures
        m@ == prefix@ + zero_pad(decimal(first as nat), width as nat) + match second {
            Some(e) => "E"@ + zero_pad(decimal(e as nat), width as nat),
            None => Seq::<char>::empty(),
        },
{
    let mut s = String::new();
    push_all(&mut s, prefix);
    push_chars(&mut s, &u64_padded(first as u64, width));
    match second {
        Some(e) => {
            push_all(&mut s, "E");
            push_chars(&mut s, &u64_padded(e as u64, width));
        },
        None => {},
    }
    proof {
        if second is None {
            assert(s@ =~= prefix@ + zero_pad(decimal(first as nat), width as nat) + Seq::<char>::empty());
        }
    }
    chars_of(s.as_str())
}

proof fn lemma_zero_pad_one(n: nat)
    ensures
        zero_pad(decimal(n), 1) == decimal(n),
{
    assert(decimal(n).len() >= 1) by {
        reveal_with_fuel(decimal, 2);
    }
}

/// The scope suffixes of the request.
fn scope_suffixes_exec(request: &SearchRequest) -> (out: Vec<Vec<char>>)
    ensures
        out@.len() == scope_suffixes(*request).len(),
        forall|k: int| 0 <= k < out@.len() ==> (#[trigger] out@[k])@ == scope_suffixes(*request)[k],
{
    let mut out: Vec<Vec<char>> = Vec::new();
    let ghost mut spec_list: Seq<Seq<char>> = Seq::empty();
    match (request.season, request.episode) {
        (Some(s), Some(e)) => {
            out.push(scope_marker(" S", s, Some(e), 2));
            out.push(scope_marker(" S", s, Some(e), 1));
            proof {
                lemma_zero_pad_one(s as nat);
                lemma_zero_pad_one(e as nat);
                spec_list = seq![
                    " S"@ + zero_pad(decimal(s as nat), 2) + "E"@ + zero_pad(decimal(e as nat), 2),
                    " S"@ + decimal(s as nat) + "E"@ + decimal(e as nat),
                ];
                assert(out@[0]@ =~= spec_list[0]);
                assert(out@[1]@ =~= spec_list[1]);
            }
        },
        _ => {},
    }
    let ghost after_se = spec_list;
    match request.season {
        Some(s) => {
            let ghost before = out@;
            out.push(scope_marker(" S", s, None, 2));
            out.push(scope_marker(" S", s, None, 1));
            proof {
                lemma_zero_pad_one(s as nat);
                spec_list = spec_list + seq![" S"@ + zero_pad(decimal(s as nat), 2), " S"@ + decimal(s as nat)];
                assert(out@[before.len() as int]@ =~= " S"@ + zero_pad(decimal(s as nat), 2));
                assert(out@[before.len() as int + 1]@ =~= " S"@ + decimal(s as nat));
            }
        },
        None => {},
    }
    match request.absolute_episode {
        Some(a) => {
            let ghost before = out@;
            out.push(scope_marker(" ", a, None, 3));
            out.push(scope_marker(" ", a, None, 1));
            proof {
                lemma_zero_pad_one(a as nat);
                spec_list = spec_list + seq![" "@ + zero_pad(decimal(a as nat), 3), " "@ + decimal(a as nat)];
                assert(out@[before.len() as int]@ =~= " "@ + zero_pad(decimal(a as nat), 3));
                assert(out@[before.len() as int + 1]@ =~= " "@ + decimal(a as nat));
            }
        },
        None => {},
    }
    proof {
        assert(spec_list =~= scope_suffixes(*request));
    }
    out
}

/// The query of the request without a trailing scope marker.
pub fn strip_search_scope_suffix(query: &str, request: &SearchRequest) -> (r: Option<String>)
    ensures
        opt_chars(r) == stripped_query(query@, *request),
{
    let qc = chars_of(query);
    let suffixes = scope_suffixes_exec(request);
    let ghost all = scope_suffixes(*request);
    let mut k: usize = 0;
    proof {
        assert(all.subrange(0, all.len() as int) =~= all);
    }
    while k < suffixes.len()
        invariant
            k <= suffixes@.len(),
            qc@ == query@,
            all == scope_suffixes(*request),
            suffixes@.len() == all.len(),
            forall|m: int| 0 <= m < suffixes@.len() ==> (#[trigger] suffixes@[m])@ == all[m],
            first_strip(query@, all) == first_strip(query@, all.subrange(k as int, all.len() as int)),
        decreases suffixes@.len() - k,
    {
        let ghost rest = all.subrange(k as int, all.len() as int);
        proof {
            assert(rest[0] == all[k as int]);
            assert(rest.drop_first() =~= all.subrange(k + 1, all.len() as int));
        }
        let r = strip_suffix_exec(&qc, &suffixes[k]);
        if r.is_some() {
            return r;
        }
        k = k + 1;
    }
    proof {
        assert(all.subrange(k as int, all.len() as int) =~= Seq::<Seq<char>>::empty());
    }
    None
}

/// The title that the request searches for.
pub fn search_name(request: &SearchRequest) -> (name: Option<String>)
    ensures
        opt_chars(name) == search_name_of(*request),
{
    let query = trimmed_chars(&request.query);
    if query.len() > 0 {
        if request.season.is_some() || request.episode.is_some() || request.absolute_episode.is_some() {
            let best = best_alias_exec(&query, &request.tagged_aliases);
            if best.is_some() {
                return best;
            }
            let q = string_from_chars(query.as_slice());
            let stripped = strip_search_scope_suffix(q.as_str(), request);
            if stripped.is_some() {
                return stripped;
            }
            return Some(q);
        }
        return Some(string_from_chars(query.as_slice()));
    }
    first_alias_exec(&request.tagged_aliases)
}

/// Law: an unscoped search looks for its trimmed query; a scoped search looks
/// for a non-blank prefix of its trimmed query; a search without a query
/// looks for a non-blank alias, if it has one.
pub proof fn search_names_come_from_the_query(r: SearchRequest)
    ensures
        trim(r.query@).len() > 0 && r.season is None && r.episode is None && r.absolute_episode is None
            ==> search_name_of(r) == Some(trim(r.query@)),
        trim(r.query@).len() > 0 ==> search_name_of(r) is Some && search_name_of(r)->0.len() > 0,
        trim(r.query@).len() == 0 && search_name_of(r) is Some ==> search_name_of(r)->0.len() > 0,
{
    let query = trim(r.query@);
    let names = alias_names(r.tagged_aliases@);
    if query.len() > 0 && (r.season is Some || r.episode is Some || r.absolute_episode is Some) {
        lemma_best_alias_nonblank(query, names);
        lemma_first_strip_nonblank(query, scope_suffixes(r));
    }
    if query.len() == 0 {
        lemma_first_alias_nonblank(names);
    }
}

proof fn lemma_best_alias_nonblank(query: Seq<char>, names: Seq<Seq<char>>)
    ensures
        best_alias(query, names) matches Some(a) ==> a.len() > 0,
    decreases names.len(),
{
    if names.len() > 0 {
        lemma_best_alias_nonblank(query, names.drop_last());
    }
}

proof fn lemma_first_strip_nonblank(query: Seq<char>, suffixes: Seq<Seq<char>>)
    ensures
        first_strip(query, suffixes) matches Some(b) ==> b.len() > 0,
    decreases suffixes.len(),
{
    if suffixes.len() > 0 {
        lemma_first_strip_nonblank(query, suffixes.drop_first());
    }
}

proof fn lemma_first_alias_nonblank(names: Seq<Seq<char>>)
    ensures
        first_alias(names) matches Some(a) ==> a.len() > 0,
    decreases names.len(),
{
    if names.len() > 0 {
        lemma_first_alias_nonblank(names.drop_first());
    }
}

} // verus!
