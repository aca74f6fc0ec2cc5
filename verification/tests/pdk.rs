use scryer_plugins::pdk::bridge::{
    bridge_download_client_command, bridge_error, encode_failure, find_completed,
    legacy_download_client_descriptor, malformed_response, run_download_client_bridge_with_descriptor,
    start_download_client_bridge,
    CommandKind, DownloadClientCommand, LegacyDownloadClientFunctions,
};
use scryer_plugins::pdk::host::{
    accept_handle, check_response_len, native_host_call, read_outcome, response_len,
    result_value, HostCallError, MAX_RESPONSE_BYTES,
};
use scryer_plugins::plugin::{plugin_error, PluginErrorCode};

type Legacy = fn(String) -> Result<String, String>;

fn describe(_: String) -> Result<String, String> {
    Ok("{\"name\":\"demo\"}".to_string())
}

fn broken_describe(_: String) -> Result<String, String> {
    Err("describe failed".to_string())
}

fn add(request: String) -> Result<String, String> {
    Ok(format!("added {request}"))
}

fn list_queue(request: String) -> Result<String, String> {
    Ok(format!("queue {request}"))
}

fn list_history(request: String) -> Result<String, String> {
    Ok(format!("history {request}"))
}

fn list_completed(request: String) -> Result<String, String> {
    Ok(format!("completed {request}"))
}

fn list_recent(request: String) -> Result<String, String> {
    Ok(format!("recent {request}"))
}

fn failing(_: String) -> Result<String, String> {
    Err("boom".to_string())
}

fn status(request: String) -> Result<String, String> {
    Ok(format!("status {request}"))
}

fn functions(recent: Option<Legacy>) -> LegacyDownloadClientFunctions<Legacy> {
    LegacyDownloadClientFunctions {
        describe: describe as Legacy,
        add: add as Legacy,
        list_queue: list_queue as Legacy,
        list_history: list_history as Legacy,
        list_completed: list_completed as Legacy,
        list_recent_completed: recent,
        control: failing as Legacy,
        mark_imported: failing as Legacy,
        status: status as Legacy,
        test_connection: status as Legacy,
    }
}

#[test]
fn commands_reach_the_legacy_function_they_map_to() {
    let f = functions(Some(list_recent as Legacy));
    let reply = bridge_download_client_command(&f, DownloadClientCommand::Add("{\"x\":1}".to_string()));
    assert_eq!(reply.command, CommandKind::Add);
    assert_eq!(reply.answer.unwrap(), "added {\"x\":1}");

    let reply = bridge_download_client_command(&f, DownloadClientCommand::ListQueue);
    assert_eq!(reply.command, CommandKind::ListQueue);
    assert_eq!(reply.answer.unwrap(), "queue null");

    let reply = bridge_download_client_command(&f, DownloadClientCommand::ListHistory);
    assert_eq!(reply.answer.unwrap(), "history null");

    let reply = bridge_download_client_command(
        &f,
        DownloadClientCommand::ListRecentCompleted("{\"since\":1}".to_string()),
    );
    assert_eq!(reply.command, CommandKind::ListRecentCompleted);
    assert_eq!(reply.answer.unwrap(), "recent {\"since\":1}");

    let reply = bridge_download_client_command(&f, DownloadClientCommand::TestConnection);
    assert_eq!(reply.command, CommandKind::TestConnection);
    assert_eq!(reply.answer.unwrap(), "status null");
}

#[test]
fn recent_completed_falls_back_to_the_full_list() {
    let f = functions(None);
    let reply = bridge_download_client_command(
        &f,
        DownloadClientCommand::ListRecentCompleted("{\"since\":1}".to_string()),
    );
    assert_eq!(reply.command, CommandKind::ListRecentCompleted);
    assert_eq!(reply.answer.unwrap(), "completed null");

    let reply = bridge_download_client_command(
        &f,
        DownloadClientCommand::GetCompleted("retained-item".to_string()),
    );
    assert_eq!(reply.command, CommandKind::GetCompleted);
    assert_eq!(reply.answer.unwrap(), "completed null");
}

#[test]
fn failing_functions_become_temporary_bridge_errors() {
    let f = functions(None);
    let reply = bridge_download_client_command(&f, DownloadClientCommand::Control("{}".to_string()));
    assert_eq!(reply.command, CommandKind::Control);
    let error = reply.answer.unwrap_err();
    assert_eq!(error.code, PluginErrorCode::Temporary);
    assert_eq!(error.public_message, "download client command failed");
    assert_eq!(error.debug_message.as_deref(), Some("boom"));
    assert_eq!(error.retry_after_seconds, None);
}

#[test]
fn bridge_errors_name_what_failed() {
    let e = bridge_error("lost".to_string());
    assert_eq!(e.code, PluginErrorCode::Temporary);
    assert_eq!(e.debug_message.as_deref(), Some("lost"));
    let e = encode_failure("bad");
    assert_eq!(e.debug_message.as_deref(), Some("failed to encode command request: bad"));
    let e = malformed_response("eof");
    assert_eq!(e.debug_message.as_deref(), Some("plugin returned malformed response: eof"));
}

#[test]
fn the_bridge_reads_the_descriptor_once_and_serves_commands() {
    let f = functions(None);
    assert_eq!(legacy_download_client_descriptor(&f).unwrap(), "{\"name\":\"demo\"}");
    let bridge = run_download_client_bridge_with_descriptor(f);
    assert_eq!(bridge.descriptor_json, "{\"name\":\"demo\"}");
    let reply = bridge.handle(DownloadClientCommand::Status);
    assert_eq!(reply.command, CommandKind::Status);
    assert_eq!(reply.answer.unwrap(), "status null");
}

#[test]
fn starting_checks_the_descriptor_first() {
    let bridge = match start_download_client_bridge(functions(None)) {
        Ok(b) => b,
        Err(m) => panic!("describe failed: {m}"),
    };
    assert_eq!(bridge.descriptor_json, "{\"name\":\"demo\"}");
}

#[test]
fn a_plugin_without_descriptor_is_not_served() {
    let mut f = functions(None);
    f.describe = broken_describe as Legacy;
    match start_download_client_bridge(f) {
        Ok(_) => panic!("a failing describe must stop the bridge"),
        Err(m) => assert_eq!(m, "describe failed"),
    }
}

#[test]
fn exact_lookup_finds_only_the_requested_download() {
    let ids = vec!["other".to_string(), "retained-item".to_string(), "retained-item".to_string()];
    assert_eq!(find_completed(&ids, "retained-item"), Some(1));
    assert_eq!(find_completed(&ids, "retained"), None);
    assert_eq!(find_completed(&Vec::new(), "retained-item"), None);
}

#[test]
fn native_targets_report_host_unavailable() {
    let error = native_host_call(b"request").expect_err("native tests have no wasm host ABI");
    assert!(matches!(error, HostCallError::Unavailable));
}

#[test]
fn host_answers_are_checked_step_by_step() {
    assert!(matches!(accept_handle(0), Err(HostCallError::InvalidHandle)));
    assert_eq!(accept_handle(7).unwrap(), 7);
    assert!(matches!(response_len(-1), Err(HostCallError::InvalidHandle)));
    assert_eq!(response_len(42).unwrap(), 42);
    assert_eq!(check_response_len(MAX_RESPONSE_BYTES).unwrap(), MAX_RESPONSE_BYTES);
    assert!(matches!(
        check_response_len(MAX_RESPONSE_BYTES + 1),
        Err(HostCallError::ResponseTooLarge(n)) if n == MAX_RESPONSE_BYTES + 1
    ));
    assert!(read_outcome(42, 42).is_ok());
    assert!(matches!(read_outcome(41, 42), Err(HostCallError::ReadFailed)));
    assert!(matches!(read_outcome(-1, 42), Err(HostCallError::ReadFailed)));
}

#[test]
fn host_service_errors_are_passed_on() {
    let ok: Result<u8, _> = Ok(5);
    assert_eq!(result_value(ok).unwrap(), 5);
    let failed: Result<u8, _> =
        Err(plugin_error(PluginErrorCode::Unsupported, "no sockets".to_string()));
    match result_value(failed) {
        Err(HostCallError::Service(e)) => assert_eq!(e.public_message, "no sockets"),
        other => panic!("unexpected {other:?}"),
    }
}

#[test]
fn host_errors_display_their_cause() {
    assert_eq!(HostCallError::Unavailable.message(), "Scryer host services are unavailable");
    assert_eq!(
        HostCallError::ResponseTooLarge(20_000_000).message(),
        "host response exceeds the 16777216-byte limit: 20000000"
    );
    assert_eq!(
        HostCallError::Encode("eof".to_string()).message(),
        "failed to encode host request: eof"
    );
    assert_eq!(
        HostCallError::UnexpectedResponse("config_get".to_string()).message(),
        "host returned a response for another operation while handling config_get"
    );
    let service = HostCallError::Service(plugin_error(PluginErrorCode::Permanent, "denied".to_string()));
    assert_eq!(service.message(), "host service error: denied");
}
