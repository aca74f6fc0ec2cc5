use scryer_plugins::plugin::{config_value, PluginErrorCode};
use scryer_plugins::rqbit::add::{
    add_request_body, choose_info_hash, missing_hash_message, source_url, AddBodyError,
    AddRequest, Base64DecodeError, DownloadInputKind, DownloadSource,
};
use scryer_plugins::rqbit::config::{
    api_url, config_bool, is_localhost_url, response_text, RqbitConfig,
};
use scryer_plugins::rqbit::control::{
    client_status, connection_test_outcome, plan_download_control, DownloadControlAction,
};
use scryer_plugins::rqbit::hash::{finished_at_var_key, normalize_hash, seed_config_var_key};
use scryer_plugins::rqbit::seeding::{
    removal_step, resolve_finished_at, seed_time_reached, RemovalStep, SeedGoals,
};
use scryer_plugins::rqbit::torrent::{
    completed_downloads, deserialize_state, is_visible_torrent, map_state, path_looks_like_file,
    torrent_to_completed, torrent_to_item, DownloadItemState, DownloadOutputKind,
    RawTorrentState, TorrentStats, TorrentWithStats,
};
use scryer_plugins::rqbit::version::version_lt;

fn torrent(
    id: i64,
    info_hash: &str,
    name: &str,
    output_folder: &str,
    state: RawTorrentState,
    progress_bytes: i64,
    total_bytes: i64,
    finished: bool,
) -> TorrentWithStats {
    TorrentWithStats {
        id,
        info_hash: info_hash.to_string(),
        name: name.to_string(),
        output_folder: output_folder.to_string(),
        stats: TorrentStats {
            state: deserialize_state(state).expect("state should parse"),
            error: None,
            progress_bytes,
            uploaded_bytes: 0,
            total_bytes,
            finished,
            finished_at_seconds: None,
        },
    }
}

#[test]
fn parses_rqbit9_string_states() {
    let torrents = vec![
        torrent(
            0,
            "360dbb57c0cc8a36e4e8e711374d45b8811df212",
            "Show s02e01-02",
            "/downloads/Show s02e01-02",
            RawTorrentState::Text("paused".to_string()),
            10,
            10,
            true,
        ),
        torrent(
            4,
            "aaaaaaaaaaaaaaaaaaaaaaaaaaaaaaaaaaaaaaaa",
            "Show.S01E02.mkv",
            "/downloads",
            RawTorrentState::Text("live".to_string()),
            100,
            1000,
            false,
        ),
    ];
    assert_eq!(torrents[0].stats.state, "paused");
    assert_eq!(map_state(&torrents[0].stats), DownloadItemState::Completed);
    assert_eq!(torrents[0].output_path(), "/downloads/Show s02e01-02");
    assert_eq!(torrents[1].stats.state, "live");
    assert_eq!(map_state(&torrents[1].stats), DownloadItemState::Downloading);
    assert_eq!(torrents[1].output_path(), "/downloads/Show.S01E02.mkv");
}

#[test]
fn parses_legacy_integer_states() {
    let legacy = torrent(
        1,
        "bbbbbbbbbbbbbbbbbbbbbbbbbbbbbbbbbbbbbbbb",
        "legacy",
        "/downloads/",
        RawTorrentState::Integer(1),
        1,
        2,
        false,
    );
    assert_eq!(legacy.stats.state, "live");
    assert_eq!(map_state(&legacy.stats), DownloadItemState::Downloading);
}

// ---------------------------------------------------------------------------
// Further cases
// ---------------------------------------------------------------------------

#[test]
fn raw_states_are_read_by_name() {
    assert_eq!(deserialize_state(RawTorrentState::Null).unwrap(), "");
    assert_eq!(deserialize_state(RawTorrentState::Text("LIVE".to_string())).unwrap(), "live");
    assert_eq!(deserialize_state(RawTorrentState::Integer(0)).unwrap(), "initializing");
    assert_eq!(deserialize_state(RawTorrentState::Integer(2)).unwrap(), "paused");
    assert_eq!(deserialize_state(RawTorrentState::Integer(3)).unwrap(), "error");
    assert_eq!(deserialize_state(RawTorrentState::Integer(-7)).unwrap(), "-7");
    assert_eq!(deserialize_state(RawTorrentState::OtherNumber("1.5".to_string())).unwrap(), "1.5");
    assert_eq!(
        deserialize_state(RawTorrentState::Unexpected("true".to_string())).unwrap_err(),
        "unexpected rqbit torrent state true"
    );
}

#[test]
fn unfinished_states_map_to_download_states() {
    let state = |name: &str| {
        map_state(&TorrentStats {
            state: name.to_string(),
            error: None,
            progress_bytes: 0,
            uploaded_bytes: 0,
            total_bytes: 0,
            finished: false,
            finished_at_seconds: None,
        })
    };
    assert_eq!(state("initializing"), DownloadItemState::Downloading);
    assert_eq!(state("0"), DownloadItemState::Downloading);
    assert_eq!(state("error"), DownloadItemState::Failed);
    assert_eq!(state("3"), DownloadItemState::Failed);
    assert_eq!(state("paused"), DownloadItemState::Paused);
    assert_eq!(state(""), DownloadItemState::Paused);
}

#[test]
fn output_paths_join_folder_and_name() {
    let path = |folder: &str, name: &str| {
        torrent(0, "", name, folder, RawTorrentState::Null, 0, 0, false).output_path()
    };
    assert_eq!(path("/downloads/", "/Show"), "/downloads/Show");
    assert_eq!(path("/downloads/Show/", "Show"), "/downloads/Show");
    assert_eq!(path("/downloads", ""), "/downloads");
    assert_eq!(path("", "Show"), "Show");
    assert_eq!(path("/", "Show"), "Show");
}

#[test]
fn hidden_and_blank_torrents_are_not_shown() {
    let t = |folder: &str, name: &str| torrent(0, "", name, folder, RawTorrentState::Null, 0, 0, false);
    assert!(is_visible_torrent(&t("/downloads", "Show")));
    assert!(!is_visible_torrent(&t("", "")));
    assert!(!is_visible_torrent(&t("", ".hidden")));
    assert!(!is_visible_torrent(&t("  ", "")));
}

#[test]
fn file_paths_are_told_from_directories_by_extension() {
    assert!(path_looks_like_file("/downloads/Show.S01E02.mkv"));
    assert!(!path_looks_like_file("/downloads/Show s02e01-02"));
    assert!(path_looks_like_file("/downloads/Show.Dir/"));
    assert!(!path_looks_like_file(""));
}

#[test]
fn hashes_keep_lowercase_hex_digits_only() {
    assert_eq!(normalize_hash("  ABCdef0123 "), "abcdef0123");
    assert_eq!(normalize_hash("xyz-12:G"), "12");
    assert_eq!(normalize_hash(&normalize_hash("A-B-C")), normalize_hash("A-B-C"));
    assert_eq!(seed_config_var_key("ABC"), "rqbit.seed_config.abc");
    assert_eq!(finished_at_var_key(" ab c "), "rqbit.finished_at.abc");
}

#[test]
fn versions_compare_by_their_first_three_numbers() {
    assert!(version_lt("7.9.9", "8.0.0"));
    assert!(!version_lt("8.0.0", "8.0.0"));
    assert!(!version_lt("9.0.0-beta.1", "8.0.0"));
    assert!(version_lt("v8", "8.0.1"));
    assert!(!version_lt("8.0.0.5", "8.0.0"));
    assert!(version_lt("", "0.0.1"));
    assert!(version_lt("4294967296.0.0", "1.0.0"));
}

#[test]
fn connection_tests_refuse_old_versions() {
    assert_eq!(connection_test_outcome("8.1.0".to_string()).unwrap(), "8.1.0");
    let error = connection_test_outcome("7.2.1".to_string()).unwrap_err();
    assert_eq!(error.code, PluginErrorCode::Permanent);
    assert_eq!(error.public_message, "RQBit 7.2.1 is older than Scryer's required 8.0.0");
}

#[test]
fn configuration_values_are_trimmed_and_flags_read() {
    assert_eq!(config_value(Some("  host ".to_string())).as_deref(), Some("host"));
    assert_eq!(config_value(Some("   ".to_string())), None);
    assert!(config_bool(Some(" YES ".to_string()), false));
    assert!(config_bool(Some("On".to_string()), false));
    assert!(!config_bool(Some("no".to_string()), true));
    assert!(config_bool(Some("  ".to_string()), true));
    assert!(!config_bool(None, false));
}

#[test]
fn base_urls_are_built_from_the_settings() {
    let default = RqbitConfig::from_extism(None, None, None, None);
    assert_eq!(default.base_url, "http://localhost:3030");
    let custom = RqbitConfig::from_extism(
        Some(" nas ".to_string()),
        Some("8080".to_string()),
        Some("/rqbit/".to_string()),
        Some("true".to_string()),
    );
    assert_eq!(custom.base_url, "https://nas:8080/rqbit");
    assert_eq!(api_url(&custom, "torrents"), "https://nas:8080/rqbit/torrents");
    assert_eq!(api_url(&custom, "/torrents"), "https://nas:8080/rqbit/torrents");
    assert_eq!(api_url(&custom, ""), "https://nas:8080/rqbit");
}

#[test]
fn http_errors_carry_status_and_body() {
    assert_eq!(response_text(200, "ok".to_string()), Ok("ok".to_string()));
    assert_eq!(response_text(399, "x".to_string()), Ok("x".to_string()));
    assert_eq!(
        response_text(404, "missing".to_string()),
        Err("RQBit returned HTTP 404: missing".to_string())
    );
}

#[test]
fn localhost_urls_are_recognised() {
    assert!(is_localhost_url(" HTTP://LOCALHOST:3030 "));
    assert!(is_localhost_url("http://127.0.0.1:3030"));
    assert!(is_localhost_url("http://[::1]:3030"));
    assert!(!is_localhost_url("http://nas:3030"));
    let status = client_status(&RqbitConfig::from_extism(None, None, None, None), "8.0.0".to_string());
    assert_eq!(status.is_localhost, Some(true));
    assert_eq!(status.removes_completed_downloads, Some(false));
    assert_eq!(status.sorting_mode.as_deref(), Some("rqbit-rest"));
}

fn source(kind: DownloadInputKind) -> DownloadSource {
    DownloadSource {
        kind,
        magnet_uri: None,
        torrent_url: None,
        download_url: None,
        torrent_bytes_base64: None,
    }
}

fn request(source: DownloadSource) -> AddRequest {
    AddRequest { source, info_hash_v1: None, info_hash_hint: None }
}

#[test]
fn source_urls_follow_the_input_kind() {
    let mut magnet = source(DownloadInputKind::MagnetUri);
    magnet.magnet_uri = Some("magnet:?xt=1".to_string());
    magnet.download_url = Some("https://x/1.torrent".to_string());
    assert_eq!(source_url(&request(magnet)).as_deref(), Some("magnet:?xt=1"));

    let mut torrent_url = source(DownloadInputKind::TorrentUrl);
    torrent_url.download_url = Some("https://x/2.torrent".to_string());
    torrent_url.magnet_uri = Some("magnet:?xt=2".to_string());
    assert_eq!(source_url(&request(torrent_url)).as_deref(), Some("https://x/2.torrent"));

    let mut nzb = source(DownloadInputKind::NzbUrl);
    nzb.download_url = Some("https://x/3.nzb".to_string());
    assert_eq!(source_url(&request(nzb)), None);
}

#[test]
fn add_bodies_decode_inline_torrents_first() {
    let mut inline = source(DownloadInputKind::TorrentBytes);
    inline.torrent_bytes_base64 = Some("aGVsbG8=".to_string());
    inline.torrent_url = Some("https://x/1.torrent".to_string());
    assert_eq!(add_request_body(&request(inline)).unwrap(), b"hello".to_vec());

    let mut by_url = source(DownloadInputKind::TorrentUrl);
    by_url.torrent_url = Some("https://x/1.torrent".to_string());
    assert_eq!(add_request_body(&request(by_url)).unwrap(), b"https://x/1.torrent".to_vec());

    let missing = add_request_body(&request(source(DownloadInputKind::Nzb))).unwrap_err();
    assert_eq!(missing, AddBodyError::MissingSource);
    assert_eq!(missing.message(), "download source is missing");
    let error = AddBodyError::missing_source_error();
    assert_eq!(error.code, PluginErrorCode::Permanent);
    assert_eq!(error.public_message, "download source is missing");
}

#[test]
fn invalid_inline_torrents_report_the_decoding_error() {
    let mut bad = source(DownloadInputKind::TorrentBytes);
    bad.torrent_bytes_base64 = Some("!!!!".to_string());
    let error = add_request_body(&request(bad)).unwrap_err();
    assert_eq!(error, AddBodyError::InvalidTorrentBytes(Base64DecodeError::InvalidByte(0, b'!')));
    assert_eq!(error.message(), "invalid torrent_bytes_base64: Invalid symbol 33, offset 0.");

    let mut short = source(DownloadInputKind::TorrentBytes);
    short.torrent_bytes_base64 = Some("aGVsbG8".to_string());
    let error = add_request_body(&request(short)).unwrap_err();
    assert!(error.message().starts_with("invalid torrent_bytes_base64: "));
}

#[test]
fn added_downloads_are_known_by_a_normalized_hash() {
    let v1 = Some("ABC".to_string());
    let hint = Some("def".to_string());
    assert_eq!(choose_info_hash(Some("F00D".to_string()), &v1, &hint).as_deref(), Some("f00d"));
    assert_eq!(choose_info_hash(Some("zz".to_string()), &v1, &hint).as_deref(), Some("abc"));
    assert_eq!(choose_info_hash(None, &None, &hint).as_deref(), Some("def"));
    assert_eq!(choose_info_hash(None, &None, &None), None);
    assert_eq!(missing_hash_message(), "RQBit did not return an info hash");
}

#[test]
fn only_removal_is_sent_to_rqbit() {
    assert_eq!(
        plan_download_control(" ABC ", DownloadControlAction::Remove, false).unwrap(),
        "/torrents/abc/forget"
    );
    assert_eq!(
        plan_download_control("abc", DownloadControlAction::Remove, true).unwrap(),
        "/torrents/abc/delete"
    );
    let unsupported = plan_download_control("abc", DownloadControlAction::Pause, false).unwrap_err();
    assert_eq!(unsupported.code, PluginErrorCode::Unsupported);
    let missing = plan_download_control("  ", DownloadControlAction::Remove, false).unwrap_err();
    assert_eq!(missing.code, PluginErrorCode::Permanent);
    assert_eq!(missing.public_message, "client_item_id is required");
}

#[test]
fn removal_follows_the_seeding_goals() {
    let goals = |met: bool, time: Option<i64>| Some(SeedGoals { ratio_goal_met: met, seed_time_seconds: time });
    assert_eq!(removal_step(false, goals(true, None)), RemovalStep::Decided(false));
    assert_eq!(removal_step(true, None), RemovalStep::Decided(false));
    assert_eq!(removal_step(true, goals(true, Some(10))), RemovalStep::Decided(true));
    assert_eq!(removal_step(true, goals(false, Some(10))), RemovalStep::CheckSeedTime(10));
    assert_eq!(removal_step(true, goals(false, None)), RemovalStep::Decided(false));
}

#[test]
fn finish_times_come_from_rqbit_the_store_or_now() {
    let f = resolve_finished_at(Some(100), Some("50".to_string()), 200);
    assert_eq!((f.seconds, f.store_now), (100, false));
    let f = resolve_finished_at(Some(0), Some("50".to_string()), 200);
    assert_eq!((f.seconds, f.store_now), (50, false));
    let f = resolve_finished_at(None, Some("soon".to_string()), 200);
    assert_eq!((f.seconds, f.store_now), (200, true));
    let f = resolve_finished_at(None, None, 200);
    assert_eq!((f.seconds, f.store_now), (200, true));
}

#[test]
fn seed_time_is_measured_with_saturation() {
    assert!(seed_time_reached(200, 100, 100));
    assert!(!seed_time_reached(199, 100, 100));
    assert!(seed_time_reached(i64::MAX, i64::MIN, i64::MAX));
    assert!(!seed_time_reached(i64::MIN, i64::MAX, i64::MIN + 1));
}

#[test]
fn queue_items_describe_the_torrent() {
    let t = torrent(
        4,
        "AAAA",
        "Show.S01E02.mkv",
        "/downloads",
        RawTorrentState::Text("live".to_string()),
        100,
        1000,
        false,
    );
    let item = torrent_to_item(t, 300, 10, true);
    assert_eq!(item.client_item_id, "aaaa");
    assert_eq!(item.state, DownloadItemState::Downloading);
    assert_eq!(item.remote_output_path.as_deref(), Some("/downloads/Show.S01E02.mkv"));
    assert_eq!(item.torrent.client_native_id.as_deref(), Some("4"));
    assert_eq!(item.remaining_size_bytes, Some(900));
    assert_eq!(item.eta_seconds, Some(3));
    assert_eq!(item.progress_percent, Some(10));
    assert_eq!(item.can_remove, Some(false));
    assert_eq!(item.can_move_files, Some(false));
    assert_eq!(item.raw_state.as_deref(), Some("live"));

    let over = torrent(1, "bb", "x", "/d", RawTorrentState::Null, 50, 10, false);
    let item = torrent_to_item(over, 0, 500, false);
    assert_eq!(item.remaining_size_bytes, Some(0));
    assert_eq!(item.eta_seconds, None);
    assert_eq!(item.progress_percent, Some(100));
}

#[test]
fn progress_is_shown_only_for_sized_torrents_and_clamped() {
    let t = |total: i64| torrent(1, "cc", "x", "/d", RawTorrentState::Null, 0, total, true);
    assert_eq!(torrent_to_item(t(0), 0, 50, true).progress_percent, None);
    assert_eq!(torrent_to_item(t(-3), 0, 50, true).progress_percent, None);
    assert_eq!(torrent_to_item(t(10), 0, -7, true).progress_percent, Some(0));
    assert_eq!(torrent_to_item(t(10), 0, 100, true).progress_percent, Some(100));
    assert_eq!(torrent_to_item(t(10), 0, 200, true).progress_percent, Some(100));
}

#[test]
fn only_finished_torrents_with_met_goals_are_removable() {
    let t = |finished: bool| torrent(1, "dd", "x", "/d", RawTorrentState::Null, 1, 1, finished);
    assert_eq!(torrent_to_item(t(true), 0, 100, true).can_remove, Some(true));
    assert_eq!(torrent_to_item(t(true), 0, 100, false).can_remove, Some(false));
    assert_eq!(torrent_to_item(t(false), 0, 100, true).can_remove, Some(false));
    assert_eq!(torrent_to_item(t(false), 0, 100, true).can_move_files, Some(false));
}

#[test]
fn completed_downloads_list_finished_visible_torrents() {
    let torrents = vec![
        torrent(0, "AA", "Show.mkv", "/d", RawTorrentState::Null, 1, 1, true),
        torrent(1, "BB", "Other", "/d", RawTorrentState::Null, 0, 1, false),
        torrent(2, "CC", ".partial", "", RawTorrentState::Null, 1, 1, true),
        torrent(3, "DD", "Folder", "/d", RawTorrentState::Null, 1, 1, true),
    ];
    let completed = completed_downloads(&torrents);
    assert_eq!(completed.len(), 2);
    assert_eq!(completed[0].client_item_id, "aa");
    assert_eq!(completed[0].output_kind, Some(DownloadOutputKind::File));
    assert_eq!(completed[1].client_item_id, "dd");
    assert_eq!(completed[1].dest_dir, "/d/Folder");
    assert_eq!(completed[1].output_kind, Some(DownloadOutputKind::Directory));
    let one = torrent_to_completed(&torrents[3]);
    assert_eq!(one.content_paths, vec!["/d/Folder".to_string()]);
    assert_eq!(one.size_bytes, Some(1));
}

#[test]
fn spellings_of_one_hash_share_state_keys() {
    assert_eq!(seed_config_var_key("ABC-def"), seed_config_var_key("abcdef"));
    assert_eq!(finished_at_var_key(" AbC "), finished_at_var_key("abc"));
}

#[test]
fn version_order_is_strict() {
    let versions = ["7.0.0", "7.10.1", "8.0.0", "8.0.1", "10.0.0"];
    for (i, a) in versions.iter().enumerate() {
        assert!(!version_lt(a, a));
        for b in &versions[i + 1..] {
            assert!(version_lt(a, b));
            assert!(!version_lt(b, a));
        }
    }
}

#[test]
fn listed_downloads_are_removed_by_their_own_id() {
    let t = torrent(9, "ABCD-EF01", "Show", "/d", RawTorrentState::Null, 0, 1, false);
    let item = torrent_to_item(t, 0, 0, false);
    assert_eq!(
        plan_download_control(&item.client_item_id, DownloadControlAction::Remove, false).unwrap(),
        "/torrents/abcdef01/forget"
    );
    let t = torrent(9, "ABCD-EF01", "Show", "/d", RawTorrentState::Null, 1, 1, true);
    let done = torrent_to_completed(&t);
    assert_eq!(done.client_item_id, item.client_item_id);
}
