use openquery_bridge::json::Json;
use openquery_bridge::keychain::{
    interpret_erase, interpret_fetch, interpret_store, EraseOutcome, FetchOutcome, KeychainError,
    StoreOutcome,
};
use openquery_bridge::launch::{
    choose_binary, choose_script, default_runtime_candidates, default_runtime_command,
};
use openquery_bridge::protocol::{
    check_ready, encode_request, make_request, process_response, CallError, StartError,
};
use openquery_bridge::requests;

fn obj(fields: Vec<(&str, Json)>) -> Json {
    Json::Obj(fields.into_iter().map(|(k, v)| (k.to_string(), v)).collect())
}

#[test]
fn request_line_shape() {
    let params = obj(vec![("a", Json::Int(1))]);
    let line = encode_request("X", "echo", &params);
    assert_eq!(line, "{\"id\":\"X\",\"method\":\"echo\",\"params\":{\"a\":1}}\n");
}

#[test]
fn request_line_escapes_what_needs_escaping() {
    let params = obj(vec![("q", Json::Str("line\nbreak \"quoted\"".to_string()))]);
    let line = encode_request("a\"b", "run", &params);
    assert_eq!(
        line,
        "{\"id\":\"a\\\"b\",\"method\":\"run\",\"params\":{\"q\":\"line\\nbreak \\\"quoted\\\"\"}}\n"
    );
}

#[test]
fn request_occupies_exactly_one_line() {
    let params = obj(vec![("text", Json::Str("first\nsecond\r\nthird".to_string()))]);
    let (_id, line) = make_request("notes.save", &params);
    assert_eq!(line.matches('\n').count(), 1);
    assert!(line.ends_with('\n'));
}

#[test]
fn fresh_ids_have_the_documented_shape() {
    let (id, line) = make_request("ping", &obj(vec![]));
    assert_eq!(id.len(), 36);
    assert!(id.chars().all(|c| c.is_ascii_hexdigit() || c == '-'));
    assert!(line.ends_with('\n'));
    assert!(line.contains("\"method\":\"ping\""));
}

#[test]
fn matching_result_is_returned_unmodified() {
    let reply = "{\"id\":\"X\",\"result\":{\"rows\":[1,2],\"ok\":true}}";
    let got = process_response(reply, "X");
    assert_eq!(
        got,
        Ok(obj(vec![
            ("rows", Json::Arr(vec![Json::Int(1), Json::Int(2)])),
            ("ok", Json::Bool(true)),
        ]))
    );
}

#[test]
fn missing_result_means_null() {
    let reply = "{\"id\":\"X\"}";
    assert_eq!(process_response(reply, "X"), Ok(Json::Null));
}

#[test]
fn error_content_is_observable() {
    let reply = "{\"id\":\"X\",\"error\":\"database is locked\"}";
    match process_response(reply, "X") {
        Err(CallError::Remote(e)) => assert_eq!(e, Json::Str("database is locked".to_string())),
        other => panic!("expected a remote error, got {:?}", other),
    }
}

#[test]
fn structured_error_content_is_kept() {
    let reply = "{\"id\":\"X\",\"error\":{\"code\":-3,\"msg\":\"bad\"}}";
    match process_response(reply, "X") {
        Err(CallError::Remote(e)) => {
            assert_eq!(e, obj(vec![("code", Json::Int(-3)), ("msg", Json::Str("bad".to_string()))]));
        },
        other => panic!("expected a remote error, got {:?}", other),
    }
}

#[test]
fn wrong_id_fails_whatever_the_content() {
    assert_eq!(
        process_response("{\"id\":\"Y\",\"result\":1}", "X"),
        Err(CallError::IdMismatch)
    );
    assert_eq!(
        process_response("{\"id\":\"Y\",\"error\":\"boom\"}", "X"),
        Err(CallError::IdMismatch)
    );
    assert_eq!(process_response("{\"result\":1}", "X"), Err(CallError::IdMismatch));
    assert_eq!(
        process_response("{\"id\":7,\"result\":1}", "X"),
        Err(CallError::IdMismatch)
    );
}

#[test]
fn unparsable_line_fails_and_carries_the_raw_line() {
    let raw = "garbage <<<";
    match process_response(raw, "X") {
        Err(CallError::Unparsable(line)) => assert_eq!(line, raw),
        other => panic!("expected an unparsable failure, got {:?}", other),
    }
}

#[test]
fn error_wins_over_result_after_id_matches() {
    let reply = "{\"id\":\"X\",\"error\":\"boom\",\"result\":1}";
    match process_response(reply, "X") {
        Err(CallError::Remote(e)) => assert_eq!(e, Json::Str("boom".to_string())),
        other => panic!("expected a remote error, got {:?}", other),
    }
}

#[test]
fn back_to_back_calls_correlate_independently() {
    let params = obj(vec![("n", Json::Int(1))]);
    let (id1, _line1) = make_request("first", &params);
    let reply1 = format!("{{\"id\":\"{}\",\"result\":\"one\"}}", id1);
    assert_eq!(process_response(&reply1, &id1), Ok(Json::Str("one".to_string())));

    let (id2, _line2) = make_request("second", &params);
    let reply2 = format!("{{\"id\":\"{}\",\"result\":\"two\"}}", id2);
    assert_eq!(process_response(&reply2, &id2), Ok(Json::Str("two".to_string())));

    // a stale line for the first call never answers the second
    assert_eq!(process_response(&reply1, &id2), Err(CallError::IdMismatch));
}

#[test]
fn echo_scenario() {
    // the stub child answers `{"id":"X","result":{"a":1}}` to an echo
    let params = obj(vec![("a", Json::Int(1))]);
    let (id, line) = make_request("echo", &params);
    assert!(line.contains("\"method\":\"echo\""));
    assert!(line.contains("\"params\":{\"a\":1}"));
    let reply = format!("{{\"id\":\"{}\",\"result\":{{\"a\":1}}}}", id);
    assert_eq!(process_response(&reply, &id), Ok(obj(vec![("a", Json::Int(1))])));
}

#[test]
fn boom_scenario() {
    // the stub child answers `{"id":"X","error":"boom"}` to anything
    let (id, _line) = make_request("anything", &obj(vec![]));
    let reply = format!("{{\"id\":\"{}\",\"error\":\"boom\"}}", id);
    match process_response(&reply, &id) {
        Err(CallError::Remote(Json::Str(msg))) => assert!(msg.contains("boom")),
        other => panic!("expected a remote error, got {:?}", other),
    }
}

#[test]
fn readiness_accepts_only_the_sentinel() {
    assert_eq!(check_ready("{\"result\":\"bridge_ready\"}"), Ok(()));
    match check_ready("{\"result\":\"almost_ready\"}") {
        Err(StartError::NotReady(line)) => assert_eq!(line, "{\"result\":\"almost_ready\"}"),
        other => panic!("expected a not-ready failure, got {:?}", other),
    }
    match check_ready("{\"error\":\"could not start\"}") {
        Err(StartError::NotReady(_)) => {},
        other => panic!("expected a not-ready failure, got {:?}", other),
    }
    match check_ready("") {
        Err(StartError::Unparsable(line)) => assert_eq!(line, ""),
        other => panic!("expected an unparsable failure, got {:?}", other),
    }
    match check_ready("hello world") {
        Err(StartError::Unparsable(_)) => {},
        other => panic!("expected an unparsable failure, got {:?}", other),
    }
}

#[test]
fn missing_credential_reads_as_absent_not_error() {
    assert_eq!(interpret_fetch(FetchOutcome::Missing), Ok(None));
    assert_eq!(
        interpret_fetch(FetchOutcome::Found("secret".to_string())),
        Ok(Some("secret".to_string()))
    );
    assert_eq!(
        interpret_fetch(FetchOutcome::Failed("store is locked".to_string())),
        Err(KeychainError::Backend("store is locked".to_string()))
    );
}

#[test]
fn deleting_a_missing_credential_is_success() {
    assert_eq!(interpret_erase(EraseOutcome::Missing), Ok(()));
    assert_eq!(interpret_erase(EraseOutcome::Erased), Ok(()));
    assert_eq!(
        interpret_erase(EraseOutcome::Failed("no store".to_string())),
        Err(KeychainError::Backend("no store".to_string()))
    );
}

#[test]
fn storing_reports_the_backend_message() {
    assert_eq!(interpret_store(StoreOutcome::Stored), Ok(()));
    assert_eq!(
        interpret_store(StoreOutcome::Failed("denied".to_string())),
        Err(KeychainError::Backend("denied".to_string()))
    );
}

#[test]
fn binary_resolution_prefers_the_override() {
    let cands = default_runtime_candidates();
    let exists = vec![true, true, true];
    let picked = choose_binary(
        Some("/custom/node".to_string()),
        true,
        cands,
        &exists,
        default_runtime_command(),
    );
    assert_eq!(picked, "/custom/node");
}

#[test]
fn binary_resolution_skips_a_missing_override() {
    let cands = default_runtime_candidates();
    let exists = vec![false, true, false];
    let picked = choose_binary(
        Some("/custom/node".to_string()),
        false,
        cands,
        &exists,
        default_runtime_command(),
    );
    assert_eq!(picked, "/usr/local/bin/node");
}

#[test]
fn binary_resolution_falls_back_to_the_command_name() {
    let cands = default_runtime_candidates();
    let exists = vec![false, false, false];
    let picked = choose_binary(None, false, cands, &exists, default_runtime_command());
    assert_eq!(picked, "node");
}

#[test]
fn script_resolution_prefers_the_override() {
    assert_eq!(
        choose_script(Some("/override.js".to_string()), "/default.js".to_string()),
        "/override.js"
    );
    assert_eq!(choose_script(None, "/default.js".to_string()), "/default.js");
}

#[test]
fn request_builders_shape_their_params() {
    let (m, p) = requests::profiles_remove("alice");
    assert_eq!(m, "profiles.remove");
    assert_eq!(p.encode(), "{\"name\":\"alice\"}");

    let (m, p) = requests::profiles_test("alice", "pw");
    assert_eq!(m, "profiles.test");
    assert_eq!(p.encode(), "{\"name\":\"alice\",\"password\":\"pw\"}");

    let (m, p) = requests::profiles_list();
    assert_eq!(m, "profiles.list");
    assert_eq!(p.encode(), "{}");

    let (m, p) = requests::schema_refresh("pw", Some("prod".to_string()));
    assert_eq!(m, "schema.refresh");
    assert_eq!(p.encode(), "{\"password\":\"pw\",\"name\":\"prod\"}");

    let (m, p) = requests::schema_refresh("pw", None);
    assert_eq!(m, "schema.refresh");
    assert_eq!(p.encode(), "{\"password\":\"pw\"}");

    let (m, p) = requests::history_list(Some(10));
    assert_eq!(m, "history.list");
    assert_eq!(p.encode(), "{\"limit\":10}");

    let (m, p) = requests::history_list(None);
    assert_eq!(m, "history.list");
    assert_eq!(p.encode(), "{}");
}

#[test]
fn workspace_sql_builder_keeps_field_order() {
    let (m, p) = requests::workspace_sql(
        "select 1",
        "guard",
        Some("run".to_string()),
        Some(Json::Bool(true)),
        "pw",
        Some("prod".to_string()),
    );
    assert_eq!(m, "workspace.sql");
    assert_eq!(
        p.encode(),
        "{\"sql\":\"select 1\",\"mode\":\"guard\",\"password\":\"pw\",\
         \"action\":\"run\",\"policy\":true,\"name\":\"prod\"}"
    );

    let (_m, p) = requests::workspace_sql("select 1", "guard", None, None, "pw", None);
    assert_eq!(p.encode(), "{\"sql\":\"select 1\",\"mode\":\"guard\",\"password\":\"pw\"}");
}

#[test]
fn write_builders_share_one_shape() {
    let params = obj(vec![("x", Json::Int(1))]);
    let (m, p) = requests::write_preview("update t", params.deep_copy(), "pw", None);
    assert_eq!(m, "write.preview");
    assert_eq!(p.encode(), "{\"sql\":\"update t\",\"params\":{\"x\":1},\"password\":\"pw\"}");

    let (m, p) = requests::write_execute("update t", params, "pw", Some("prod".to_string()));
    assert_eq!(m, "write.execute");
    assert_eq!(
        p.encode(),
        "{\"sql\":\"update t\",\"params\":{\"x\":1},\"password\":\"pw\",\"name\":\"prod\"}"
    );
}

#[test]
fn string_results_are_unwrapped() {
    assert_eq!(
        requests::string_result(Json::Str("# export".to_string())),
        Ok("# export".to_string())
    );
    assert_eq!(
        requests::string_result(Json::Int(3)),
        Err("Expected string result".to_string())
    );
}
