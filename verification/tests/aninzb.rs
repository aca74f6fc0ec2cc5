use std::collections::HashMap;

use scryer_plugins::aninzb::config::{
    api_request_delay, migrate_legacy_config, prior_request_millis, result_limit,
    validate_api_response_size, LegacyAniNzbConfig, API_MAX_RESULTS, API_REQUESTS_PER_SECOND,
    API_REQUEST_INTERVAL_MILLIS, DEFAULT_DAILY_HIT_CAP, DEFAULT_HOURLY_HIT_CAP,
    MAX_API_RESPONSE_BYTES,
};
use scryer_plugins::aninzb::merge::{combine_api_search_results, interleave, merge_api_result_sets};
use scryer_plugins::aninzb::query::{build_api_search_urls, plan_api_queries};
use scryer_plugins::aninzb::request::{
    request_id, request_is_anime_shaped, request_is_movie_shaped, search_name,
    strip_search_scope_suffix, SearchContext, SearchRequest, SearchSubjectKind, TaggedAlias,
};
use scryer_plugins::aninzb::results::{
    api_download_url, api_item_to_search_result, required_text, AniNzbApiItem, ExtraValue,
    IndexerProtocol, IndexerSourceKind, SearchResult,
};
use scryer_plugins::aninzb::time::{civil_from_days, format_unix_timestamp};
use url::Url;

fn empty_legacy_config() -> LegacyAniNzbConfig {
    LegacyAniNzbConfig {
        base_url: None,
        api_key_present: false,
        api_path: None,
        additional_params: None,
        hourly_hit_cap: None,
        daily_hit_cap: None,
    }
}

fn legacy_config() -> LegacyAniNzbConfig {
    LegacyAniNzbConfig {
        base_url: Some("https://aninzb.moe".to_string()),
        api_key_present: true,
        api_path: Some("/api".to_string()),
        additional_params: Some("&legacy=1".to_string()),
        hourly_hit_cap: Some("1".to_string()),
        daily_hit_cap: Some("2".to_string()),
    }
}

fn ids(pairs: &[(&str, &str)]) -> Vec<(String, String)> {
    pairs.iter().map(|(k, v)| (k.to_string(), v.to_string())).collect()
}

fn api_queries(request: &SearchRequest) -> Vec<HashMap<String, String>> {
    let config = migrate_legacy_config(empty_legacy_config());
    build_api_search_urls(&config, request)
        .unwrap()
        .into_iter()
        .map(|url| {
            Url::parse(&url)
                .unwrap()
                .query_pairs()
                .map(|(key, value)| (key.into_owned(), value.into_owned()))
                .collect()
        })
        .collect()
}

fn anime_request(query: &str) -> SearchRequest {
    let mut request = SearchRequest::new();
    request.query = query.to_string();
    request.facet = Some("anime".to_string());
    request
}

#[test]
fn legacy_config_is_ignored_in_favor_of_fixed_api_behavior() {
    let config = migrate_legacy_config(legacy_config());
    let user_agent = "Mozilla/5.0 (Windows NT 10.0; Win64; x64) AppleWebKit/537.36 (KHTML, like Gecko) Chrome/124.0.0.0 Safari/537.36";

    assert_eq!(config.api_base_url(), "https://api.aninzb.moe/");
    assert_eq!(config.http_behavior().user_agent, user_agent);
    assert!(user_agent
        .chars()
        .all(|character| !matches!(character, '\r' | '\n' | '\\')));
    assert_eq!(config.http_behavior().pre_request_delay_millis, 0);
    assert_eq!(API_REQUESTS_PER_SECOND, 2);
    assert_eq!(API_REQUEST_INTERVAL_MILLIS, 500);
    assert_eq!(config.http_behavior().max_search_pages, 1);
    let budget = config.http_behavior().hit_budget.as_ref().expect("hit budget");
    assert_eq!(budget.hourly_limit, DEFAULT_HOURLY_HIT_CAP);
    assert_eq!(budget.daily_limit, DEFAULT_DAILY_HIT_CAP);
}

#[test]
fn api_request_pacing_has_no_initial_delay_and_caps_at_two_per_second() {
    assert_eq!(api_request_delay(None, 10_000), 0);
    assert_eq!(api_request_delay(Some(10_000), 10_000), 500);
    assert_eq!(api_request_delay(Some(10_000), 10_250), 250);
    assert_eq!(api_request_delay(Some(10_000), 10_500), 0);
}

#[test]
fn anime_absolute_episode_search_merges_anidb_and_tvdb_shapes() {
    let mut request = anime_request("Bleach 055");
    request.ids = ids(&[("anidb_id", "2369"), ("tvdb_id", "74796")]);
    request.season = Some(3);
    request.episode = Some(4);
    request.absolute_episode = Some(55);
    let queries = api_queries(&request);

    assert_eq!(queries.len(), 2);
    assert_eq!(queries[0].get("anidb").map(String::as_str), Some("2369"));
    assert_eq!(queries[0].get("episode").map(String::as_str), Some("55"));
    assert_eq!(queries[1].get("tvdb").map(String::as_str), Some("74796"));
    assert_eq!(queries[1].get("season").map(String::as_str), Some("3"));
    assert_eq!(queries[1].get("episode").map(String::as_str), Some("4"));
}

#[test]
fn anime_sxex_search_queries_anidb_and_tvdb_independently() {
    let mut request = anime_request("Bleach S02E04");
    request.ids = ids(&[("anidb_id", "2369"), ("tvdb_id", "74796")]);
    request.season = Some(2);
    request.episode = Some(4);
    let queries = api_queries(&request);

    assert_eq!(queries.len(), 2);
    assert_eq!(queries[0].get("anidb").map(String::as_str), Some("2369"));
    assert_eq!(queries[0].get("episode").map(String::as_str), Some("4"));
    assert_eq!(queries[1].get("tvdb").map(String::as_str), Some("74796"));
    assert_eq!(queries[1].get("season").map(String::as_str), Some("2"));
    assert_eq!(queries[1].get("episode").map(String::as_str), Some("4"));
}

#[test]
fn anime_season_pack_search_merges_filename_anidb_and_tvdb_queries() {
    let mut request = anime_request("Bleach S06");
    request.ids = ids(&[("anidb_id", "2369"), ("tvdb_id", "74796")]);
    request.season = Some(6);
    let queries = api_queries(&request);

    assert_eq!(queries.len(), 3);
    assert_eq!(queries[0].get("name").map(String::as_str), Some("Bleach"));
    assert_eq!(queries[0].get("filename").map(String::as_str), Some("S06"));
    assert_eq!(queries[0].get("sort").map(String::as_str), Some("size"));
    assert_eq!(queries[0].get("order").map(String::as_str), Some("desc"));
    assert_eq!(queries[1].get("anidb").map(String::as_str), Some("2369"));
    assert!(!queries[1].contains_key("season"));
    assert_eq!(queries[2].get("tvdb").map(String::as_str), Some("74796"));
    assert_eq!(queries[2].get("season").map(String::as_str), Some("6"));
}

#[test]
fn scoped_text_search_uses_base_title_for_pack_and_structured_queries() {
    let mut request = anime_request("Bleach S02");
    request.season = Some(2);
    let queries = api_queries(&request);

    assert_eq!(queries.len(), 2);
    assert_eq!(queries[0].get("name").map(String::as_str), Some("Bleach"));
    assert_eq!(queries[0].get("filename").map(String::as_str), Some("S02"));
    assert_eq!(queries[1].get("name").map(String::as_str), Some("Bleach"));
    assert_eq!(queries[1].get("season").map(String::as_str), Some("2"));
}

#[test]
fn title_search_merges_largest_and_newest_results_for_each_identity() {
    let mut request = anime_request("");
    request.ids = ids(&[("anidb_id", "2369"), ("tvdb_id", "74796")]);
    let queries = api_queries(&request);

    assert_eq!(queries.len(), 4);
    assert_eq!(queries[0].get("anidb").map(String::as_str), Some("2369"));
    assert_eq!(queries[0].get("sort").map(String::as_str), Some("size"));
    assert_eq!(queries[1].get("anidb").map(String::as_str), Some("2369"));
    assert!(!queries[1].contains_key("sort"));
    assert_eq!(queries[2].get("tvdb").map(String::as_str), Some("74796"));
    assert_eq!(queries[2].get("sort").map(String::as_str), Some("size"));
    assert_eq!(queries[3].get("tvdb").map(String::as_str), Some("74796"));
    assert!(!queries[3].contains_key("sort"));
}

fn result(guid: &str) -> SearchResult {
    let mut r = SearchResult::new(guid.to_string());
    r.guid = Some(guid.to_string());
    r
}

fn guids(results: &[SearchResult]) -> Vec<&str> {
    results.iter().filter_map(|r| r.guid.as_deref()).collect()
}

#[test]
fn merged_api_results_are_round_robin_and_deduplicated() {
    let merged = merge_api_result_sets(
        vec![
            vec![result("shared"), result("anidb")],
            vec![result("shared"), result("tvdb")],
        ],
        3,
    );

    assert_eq!(guids(&merged), vec!["shared", "anidb", "tvdb"]);
}

#[test]
fn api_url_for_recent_search_uses_newest_release_source() {
    let queries = api_queries(&SearchRequest::new());

    assert_eq!(queries[0].get("source").map(String::as_str), Some("release"));
}

#[test]
fn result_limit_defaults_and_caps_to_api_limit() {
    assert_eq!(result_limit(0), API_MAX_RESULTS);
    assert_eq!(result_limit(1), 1);
    assert_eq!(result_limit(500), API_MAX_RESULTS);
}

#[test]
fn movie_requests_are_unsupported() {
    let mut request = SearchRequest::new();
    request.facet = Some("movie".to_string());
    assert!(request_is_movie_shaped(&request));
}

fn strings(values: &[&str]) -> Vec<String> {
    values.iter().map(|v| v.to_string()).collect()
}

fn extra<'a>(result: &'a SearchResult, key: &str) -> Option<&'a ExtraValue> {
    result.provider_extra.iter().find(|(k, _)| k == key).map(|(_, v)| v)
}

fn external_id<'a>(result: &'a SearchResult, key: &str) -> Option<&'a str> {
    result
        .external_ids
        .iter()
        .find(|(k, _)| k == key)
        .map(|(_, v)| v.as_str())
}

#[test]
fn api_item_maps_release_metadata_and_artifacts() {
    let mut item = AniNzbApiItem::new();
    item.source = Some("release".to_string());
    item.id = Some(10936);
    item.filename = Some("Mushoku.Tensei.S03E01.1080p-VARYG".to_string());
    item.anidb = Some(14758);
    item.series_name = Some(strings(&["Mushoku Tensei", "無職転生"]));
    item.episode = serde_json::Number::from_f64(1.0);
    item.season = Some(3);
    item.tvdb = Some("371310".to_string());
    item.size = Some(1640102917);
    item.group = Some("VARYG".to_string());
    item.date = Some(0);
    item.nzb = Some("https://api.aninzb.moe/releases/10936/release.nzb".to_string());
    item.poster = Some("https://api.aninzb.moe/posters/14758".to_string());
    item.subtitles = Some(strings(&["https://api.aninzb.moe/subtitles/1.ass"]));
    item.screenshots = Some(strings(&["https://api.aninzb.moe/screenshots/1.png"]));
    item.thumbnails = Some(strings(&["https://api.aninzb.moe/thumbnails/1.jpg"]));
    let result = api_item_to_search_result(item).expect("usable result");

    assert_eq!(result.title, "Mushoku.Tensei.S03E01.1080p-VARYG");
    assert_eq!(
        result.download_url.as_deref(),
        Some("https://api.aninzb.moe/releases/10936/release.nzb")
    );
    assert_eq!(result.guid.as_deref(), Some("aninzb:release:10936"));
    assert_eq!(result.size_bytes, Some(1_640_102_917));
    assert_eq!(result.published_at.as_deref(), Some("1970-01-01T00:00:00Z"));
    assert_eq!(result.source_kind, Some(IndexerSourceKind::Usenet));
    assert_eq!(result.protocol, Some(IndexerProtocol::Usenet));
    assert_eq!(external_id(&result, "anidb_id"), Some("14758"));
    match extra(&result, "subtitles") {
        Some(ExtraValue::TextList(values)) => {
            assert_eq!(values, &strings(&["https://api.aninzb.moe/subtitles/1.ass"]))
        }
        other => panic!("unexpected subtitles entry: {other:?}"),
    }
}

#[test]
fn api_item_accepts_null_optional_fields_and_all_sources() {
    for source in ["release", "tosho", "usenet"] {
        let mut item = AniNzbApiItem::new();
        item.source = Some(source.to_string());
        item.filename = Some("Example.mkv".to_string());
        item.nzb = Some("https://api.aninzb.moe/example.nzb".to_string());
        let result = api_item_to_search_result(item).expect("usable result");
        let expected_guid = format!("aninzb:{source}:https://api.aninzb.moe/example.nzb");
        assert_eq!(result.guid.as_deref(), Some(expected_guid.as_str()));
        assert_eq!(result.published_at, None);
        assert_eq!(result.source_kind, Some(IndexerSourceKind::Usenet));
    }
}

#[test]
fn api_item_skips_missing_acquisition_fields() {
    let mut missing_filename = AniNzbApiItem::new();
    missing_filename.nzb = Some("https://api.aninzb.moe/example.nzb".to_string());
    let mut missing_nzb = AniNzbApiItem::new();
    missing_nzb.filename = Some("Example.mkv".to_string());

    assert!(api_item_to_search_result(missing_filename).is_none());
    assert!(api_item_to_search_result(missing_nzb).is_none());
}

#[test]
fn api_item_rejects_non_aninzb_download_urls() {
    let mut item = AniNzbApiItem::new();
    item.filename = Some("Example.mkv".to_string());
    item.nzb = Some("https://localhost/private.nzb".to_string());

    assert!(api_item_to_search_result(item).is_none());
}

#[test]
fn api_response_size_is_limited_to_20_mib() {
    assert!(validate_api_response_size(MAX_API_RESPONSE_BYTES).is_ok());
    let error = validate_api_response_size(MAX_API_RESPONSE_BYTES + 1).unwrap_err();
    assert!(error.message().contains("exceeded 20971520 bytes"));
}

// ---------------------------------------------------------------------------
// Further cases
// ---------------------------------------------------------------------------

#[test]
fn pacing_never_waits_longer_than_the_interval() {
    for elapsed in [0u64, 1, 499, 500, 501, 10_000] {
        let delay = api_request_delay(Some(1_000), 1_000 + elapsed);
        assert!(delay <= API_REQUEST_INTERVAL_MILLIS);
        assert_eq!(delay, API_REQUEST_INTERVAL_MILLIS.saturating_sub(elapsed));
    }
    assert_eq!(api_request_delay(Some(2_000), 1_000), 500);
}

#[test]
fn stored_pacing_time_is_read_or_reported() {
    assert_eq!(prior_request_millis(None), Ok(None));
    assert_eq!(prior_request_millis(Some("12345".to_string())), Ok(Some(12345)));
    assert!(prior_request_millis(Some("soon".to_string())).is_err());
}

#[test]
fn api_response_size_error_names_the_limit() {
    let error = validate_api_response_size(usize::MAX).unwrap_err();
    assert_eq!(error.message(), "AniNZB API response exceeded 20971520 bytes");
}

#[test]
fn result_limit_keeps_limits_up_to_the_maximum() {
    assert_eq!(result_limit(49), 49);
    assert_eq!(result_limit(50), 50);
    assert_eq!(result_limit(51), 50);
}

#[test]
fn unix_timestamps_are_formatted_in_utc() {
    assert_eq!(format_unix_timestamp(0), "1970-01-01T00:00:00Z");
    assert_eq!(format_unix_timestamp(951_782_400), "2000-02-29T00:00:00Z");
    assert_eq!(format_unix_timestamp(1_700_000_000), "2023-11-14T22:13:20Z");
    assert_eq!(format_unix_timestamp(-1), "1969-12-31T23:59:59Z");
}

#[test]
fn civil_dates_follow_the_gregorian_calendar() {
    assert_eq!(civil_from_days(0), (1970, 1, 1));
    assert_eq!(civil_from_days(-1), (1969, 12, 31));
    assert_eq!(civil_from_days(11_016), (2000, 2, 29));
    assert_eq!(civil_from_days(-719_468), (0, 3, 1));
}

#[test]
fn required_text_trims_and_drops_blank_values() {
    assert_eq!(required_text(Some("  name ")), Some("name"));
    assert_eq!(required_text(Some(" \t ")), None);
    assert_eq!(required_text(None), None);
}

#[test]
fn download_urls_must_be_plain_https_on_the_api_host() {
    assert_eq!(
        api_download_url(Some(" https://API.aninzb.moe/a.nzb ")).as_deref(),
        Some("https://api.aninzb.moe/a.nzb")
    );
    assert_eq!(api_download_url(Some("http://api.aninzb.moe/a.nzb")), None);
    assert_eq!(api_download_url(Some("https://api.aninzb.moe:8443/a.nzb")), None);
    assert_eq!(api_download_url(Some("https://user@api.aninzb.moe/a.nzb")), None);
    assert_eq!(api_download_url(Some("not a url")), None);
    assert_eq!(api_download_url(None), None);
}

#[test]
fn request_ids_are_trimmed_and_found_by_key() {
    let mut request = SearchRequest::new();
    request.ids = ids(&[("anidb_id", " 2369 "), ("tvdb_id", "  ")]);
    assert_eq!(request_id(&request, "anidb_id").as_deref(), Some("2369"));
    assert_eq!(request_id(&request, "tvdb_id"), None);
    assert_eq!(request_id(&request, "imdb_id"), None);
}

#[test]
fn request_shapes_follow_facet_and_context() {
    let mut movie = SearchRequest::new();
    movie.context = Some(SearchContext { subject_kind: SearchSubjectKind::Movie });
    assert!(request_is_movie_shaped(&movie));

    let anime = anime_request("Bleach");
    assert!(request_is_anime_shaped(&anime));
    assert!(!request_is_movie_shaped(&anime));

    let mut episode = SearchRequest::new();
    episode.context = Some(SearchContext { subject_kind: SearchSubjectKind::AnimeEpisode });
    assert!(request_is_anime_shaped(&episode));
}

#[test]
fn scope_suffixes_are_stripped_from_the_query() {
    let mut request = anime_request("Bleach S02E04");
    request.season = Some(2);
    request.episode = Some(4);
    assert_eq!(
        strip_search_scope_suffix("Bleach S02E04", &request).as_deref(),
        Some("Bleach")
    );
    assert_eq!(search_name(&request).as_deref(), Some("Bleach"));

    let plain = anime_request("Bleach");
    assert_eq!(search_name(&plain).as_deref(), Some("Bleach"));
}

#[test]
fn search_name_prefers_the_longest_alias_that_the_query_starts_with() {
    let mut request = anime_request("Shingeki no Kyojin S04E01");
    request.season = Some(4);
    request.episode = Some(1);
    request.tagged_aliases = vec![
        TaggedAlias { name: "Shingeki".to_string() },
        TaggedAlias { name: "Shingeki no Kyojin".to_string() },
    ];
    assert_eq!(search_name(&request).as_deref(), Some("Shingeki no Kyojin"));

    let mut aliases_only = anime_request("  ");
    aliases_only.tagged_aliases = vec![
        TaggedAlias { name: " ".to_string() },
        TaggedAlias { name: " AoT ".to_string() },
    ];
    assert_eq!(search_name(&aliases_only).as_deref(), Some("AoT"));
}

#[test]
fn every_planned_search_url_is_distinct() {
    let mut request = anime_request("Bleach S06");
    request.ids = ids(&[("anidb_id", "2369"), ("tvdb_id", "74796")]);
    request.season = Some(6);
    let config = migrate_legacy_config(empty_legacy_config());
    let urls = build_api_search_urls(&config, &request).unwrap();
    assert_eq!(plan_api_queries(&request).len(), urls.len());
    for (i, a) in urls.iter().enumerate() {
        assert!(a.starts_with("https://api.aninzb.moe/?"));
        for b in &urls[i + 1..] {
            assert_ne!(a, b);
        }
    }
}

#[test]
fn merged_results_respect_the_limit() {
    let merged = merge_api_result_sets(
        vec![
            vec![result("a"), result("b"), result("c")],
            vec![result("d")],
        ],
        2,
    );
    assert_eq!(guids(&merged), vec!["a", "d"]);

    let none = merge_api_result_sets(vec![vec![result("a")]], 0);
    assert!(none.is_empty());
}

#[test]
fn results_without_guid_are_deduplicated_by_download_url_then_title() {
    let mut first = SearchResult::new("Same".to_string());
    first.download_url = Some("https://api.aninzb.moe/1.nzb".to_string());
    let mut second = SearchResult::new("Other".to_string());
    second.download_url = Some("https://api.aninzb.moe/1.nzb".to_string());
    let third = SearchResult::new("Title".to_string());
    let fourth = SearchResult::new("Title".to_string());
    let merged = merge_api_result_sets(vec![vec![first, third], vec![second, fourth]], 10);
    let titles: Vec<&str> = merged.iter().map(|r| r.title.as_str()).collect();
    assert_eq!(titles, vec!["Same", "Title"]);
}

#[test]
fn interleaving_takes_one_from_each_set_in_turn() {
    let out = interleave(vec![vec![1, 2, 3], vec![], vec![10, 20]]);
    assert_eq!(out, vec![1, 10, 2, 20, 3]);
}

#[test]
fn a_search_fails_only_when_every_query_failed() {
    let ok: Result<Vec<SearchResult>, String> = Ok(vec![result("a")]);
    let failed: Result<Vec<SearchResult>, String> = Err("boom".to_string());
    let combined = combine_api_search_results(vec![failed, ok], 10);
    match combined {
        Ok(results) => assert_eq!(guids(&results), vec!["a"]),
        Err(_) => panic!("one query succeeded"),
    }

    let all_failed: Vec<Result<Vec<SearchResult>, String>> =
        vec![Err("first".to_string()), Err("second".to_string())];
    assert_eq!(combine_api_search_results(all_failed, 10).err(), Some("first".to_string()));
}

#[test]
fn merged_results_come_only_from_the_answers() {
    let merged = merge_api_result_sets(
        vec![
            vec![result("a"), result("b")],
            vec![result("b"), result("c"), result("d")],
        ],
        10,
    );
    assert_eq!(guids(&merged), vec!["a", "b", "c", "d"]);
    let capped = merge_api_result_sets(vec![vec![result("x"), result("y")], vec![result("z")]], 2);
    for guid in guids(&capped) {
        assert!(["x", "y", "z"].contains(&guid));
    }
}
