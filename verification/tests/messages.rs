//! JSON-RPC messages, the lines of the MCP server, and scripts.
use chrome_devtools::batch::{
    resolve_path, resolve_refs, run_batch, BatchAction, BatchOutcome, BatchRun,
};
use chrome_devtools::json::Json;
use chrome_devtools::mcp::{
    await_message, begin_call, begin_forward, begin_message, call_event, call_message, debug_text,
    drain_pending_mcp_response, forward_line, initialize_daemon_mcp, initialize_mcp,
    read_mcp_response_line, read_response, take_message, write_json_line, CallStep, DaemonError,
    ForwardStart, ForwardStep, LineReader, McpInput, ReadEvent, ReadStep, ResponseStep,
};
use chrome_devtools::router::failed_request;
use chrome_devtools::rpc::{
    daemon_initialize_response, error_response_for_line, extract_jsonrpc_id,
    extract_jsonrpc_id_value, is_heavy_mcp_tool, json_has_method, json_method_starts_with,
    jsonrpc_error_response, request_label, request_timeout_for_line, rewrite_jsonrpc_id,
    roots_list_response, sanitize_outgoing_request,
};
use chrome_devtools::timing::{
    mcp_heavy_request_timeout, mcp_request_timeout, MCP_HEAVY_REQUEST_TIMEOUT,
};
use std::collections::HashMap;

const HOME: &str = "/home/agent";
const NOW: i128 = 1_700_000_000_000_000_000;

fn json(text: &str) -> Json {
    Json::parse(text).unwrap()
}

fn input(lines: &[&str]) -> McpInput {
    let mut events: Vec<ReadEvent> = lines
        .iter()
        .map(|line| ReadEvent::Appended(format!("{line}\n")))
        .collect();
    events.push(ReadEvent::Appended(String::new()));
    McpInput::new(events)
}

#[test]
fn heavy_mcp_tools_get_longer_timeout() {
    assert!(is_heavy_mcp_tool("take_snapshot"));
    assert!(is_heavy_mcp_tool("take_screenshot"));
    assert!(!is_heavy_mcp_tool("click"));
    let heavy = request_timeout_for_line(
        r#"{"jsonrpc":"2.0","id":1,"method":"tools/call","params":{"name":"take_snapshot","arguments":{}}}"#,
        mcp_request_timeout(None),
        mcp_heavy_request_timeout(None),
    );
    let normal = request_timeout_for_line(
        r#"{"jsonrpc":"2.0","id":1,"method":"tools/call","params":{"name":"click","arguments":{}}}"#,
        mcp_request_timeout(None),
        mcp_heavy_request_timeout(None),
    );
    assert!(heavy >= MCP_HEAVY_REQUEST_TIMEOUT);
    assert_eq!(normal, mcp_request_timeout(None));
}

#[test]
fn json_method_starts_with_matches_notifications() {
    assert!(json_method_starts_with(
        r#"{"jsonrpc":"2.0","method":"notifications/cancelled","params":{}}"#,
        "notifications/"
    ));
    assert!(!json_method_starts_with(
        r#"{"jsonrpc":"2.0","id":1,"result":{}}"#,
        "notifications/"
    ));
}

#[test]
fn forward_line_drops_server_notifications_from_client_stream() {
    let mut reader = input(&[
        r#"{"jsonrpc":"2.0","method":"notifications/cancelled","params":{"requestId":9}}"#,
        r#"{"jsonrpc":"2.0","id":10000,"result":{"content":[]}}"#,
    ]);
    let mut written: Vec<String> = Vec::new();
    let mut next_id = 10_000;
    let mut abandoned = HashMap::new();
    let lines = forward_line(
        &mut written,
        &mut reader,
        r#"{"jsonrpc":"2.0","id":1,"method":"tools/call","params":{"name":"click","arguments":{}}}"#,
        &mut next_id,
        &mut abandoned,
        HOME,
        NOW,
    )
    .unwrap()
    .unwrap();
    assert_eq!(lines.len(), 1);
    assert!(lines[0].contains("\"id\":1"));
    assert_eq!(next_id, 10_001);
    assert!(written[0].contains("\"id\":10000"));
}

#[test]
fn read_mcp_response_line_keeps_partial_line_across_would_block() {
    let payload = r#"{"jsonrpc":"2.0","id":42,"result":{}}"#;
    let (head, tail) = payload.split_at(20);
    let mut reader = LineReader::new();
    let blocked = ReadEvent::Blocked {
        appended: String::new(),
        late: false,
    };
    assert!(matches!(
        reader.read_mcp_response_line_until(blocked, HOME),
        ReadStep::More
    ));
    let first = ReadEvent::Blocked {
        appended: head.to_string(),
        late: false,
    };
    assert!(matches!(
        reader.read_mcp_response_line_until(first, HOME),
        ReadStep::More
    ));
    let rest = ReadEvent::Appended(format!("{tail}\n"));
    match reader.read_mcp_response_line_until(rest, HOME) {
        ReadStep::Line(line) => assert_eq!(line, payload),
        _ => panic!("the line is whole"),
    }
}

#[test]
fn reading_gives_up_when_the_time_is_up() {
    let mut reader = LineReader::new();
    let blocked = ReadEvent::Blocked {
        appended: "{".to_string(),
        late: true,
    };
    match reader.read_mcp_response_line_until(blocked, HOME) {
        ReadStep::Failed(error) => {
            assert_eq!(debug_text(&error), format!("{error:?}"));
            assert_eq!(debug_text(&error), "Fatal(\"MCP request timed out\")");
        }
        _ => panic!("the time is up"),
    }
    let odd = DaemonError::Client("a \"b\"\n".to_string());
    assert_eq!(debug_text(&odd), format!("{odd:?}"));
}

#[test]
fn extract_jsonrpc_id_ignores_nested_id() {
    assert_eq!(
        extract_jsonrpc_id(
            r#"{"jsonrpc":"2.0","method":"notifications/progress","params":{"id":5}}"#
        ),
        None
    );
    assert_eq!(
        extract_jsonrpc_id(
            r#"{"jsonrpc":"2.0","id":3,"result":{"content":[{"text":"\"id\":9"}]}}"#
        ),
        Some(3)
    );
}

#[test]
fn json_has_method_ignores_method_in_string_values() {
    assert!(!json_has_method(
        r#"{"jsonrpc":"2.0","id":1,"result":{"text":"\"method\":\"roots/list\""}}"#,
        "roots/list"
    ));
}

#[test]
fn extract_jsonrpc_id_reads_numeric_id() {
    assert_eq!(
        extract_jsonrpc_id(r#"{"jsonrpc":"2.0","id":42,"result":{}}"#),
        Some(42)
    );
    assert_eq!(extract_jsonrpc_id(r#"{ "id" : 7 }"#), Some(7));
}

#[test]
fn extract_jsonrpc_id_value_reads_string_id() {
    let id = extract_jsonrpc_id_value(r#"{"jsonrpc":"2.0","id":"abc","result":{}}"#);
    assert_eq!(id.unwrap().as_str(), Some("abc"));
}

#[test]
fn rewrite_jsonrpc_id_replaces_id_value() {
    let output = rewrite_jsonrpc_id(
        r#"{"jsonrpc":"2.0","id":"abc","result":{}}"#,
        Json::uint(9),
    )
    .unwrap();
    let value: serde_json::Value = serde_json::from_str(&output).unwrap();
    assert_eq!(value["id"], 9);
}

#[test]
fn extract_jsonrpc_id_returns_none_when_missing() {
    assert_eq!(extract_jsonrpc_id(r#"{"result":{}}"#), None);
}

#[test]
fn json_has_method_detects_method() {
    assert!(json_has_method(
        r#"{"jsonrpc":"2.0","method":"initialize","params":{}}"#,
        "initialize"
    ));
    assert!(!json_has_method(
        r#"{"jsonrpc":"2.0","method":"tools/list"}"#,
        "initialize"
    ));
}

#[test]
fn daemon_initialize_response_includes_id() {
    let response = daemon_initialize_response(Json::uint(7));
    assert!(response.contains("\"id\":7"));
    assert!(response.contains("\"protocolVersion\""));
}

#[test]
fn sanitize_outgoing_request_strips_isolated_context_from_new_page() {
    let input = r#"{"jsonrpc":"2.0","id":1,"method":"tools/call","params":{"name":"new_page","arguments":{"url":"https://example.com","isolatedContext":"foo"}}}"#;
    let output = sanitize_outgoing_request(input);
    let value: serde_json::Value = serde_json::from_str(&output).unwrap();
    assert!(value["params"]["arguments"]
        .get("isolatedContext")
        .is_none());
    assert_eq!(value["params"]["arguments"]["url"], "https://example.com");
}

#[test]
fn sanitize_outgoing_request_keeps_other_tools_untouched() {
    let input = r#"{"jsonrpc":"2.0","id":1,"method":"tools/call","params":{"name":"navigate_page","arguments":{"isolatedContext":"foo"}}}"#;
    let output = sanitize_outgoing_request(input);
    assert_eq!(output, input);
}

#[test]
fn sanitize_outgoing_request_passes_through_non_tools_call() {
    let input = r#"{"jsonrpc":"2.0","id":1,"method":"initialize","params":{}}"#;
    let output = sanitize_outgoing_request(input);
    assert_eq!(output, input);
}

#[test]
fn sanitize_outgoing_request_passes_through_invalid_json() {
    let input = "not json";
    assert_eq!(sanitize_outgoing_request(input), input);
}

#[test]
fn roots_list_response_exposes_home_and_tmp_roots() {
    let response = roots_list_response(Json::uint(3), HOME);
    assert!(response.contains("\"id\":3"));
    let value: serde_json::Value = serde_json::from_str(&response).unwrap();
    assert_eq!(value["result"]["roots"][0]["name"], "home");
    assert!(value["result"]["roots"][0]["uri"]
        .as_str()
        .unwrap()
        .starts_with("file://"));
    assert_eq!(value["result"]["roots"][0]["uri"], "file:///home/agent");
    assert_eq!(value["result"]["roots"][1]["name"], "tmp");
    assert_eq!(value["result"]["roots"][1]["uri"], "file:///tmp");
}

#[test]
fn read_mcp_response_line_answers_roots_list_inline() {
    let mut reader = input(&[
        r#"{"jsonrpc":"2.0","id":9,"method":"roots/list"}"#,
        r#"{"jsonrpc":"2.0","id":5,"result":{}}"#,
    ]);
    let mut written: Vec<String> = Vec::new();
    let line = read_mcp_response_line(&mut written, &mut reader, HOME)
        .unwrap()
        .unwrap();
    assert_eq!(line, r#"{"jsonrpc":"2.0","id":5,"result":{}}"#);
    let sent = written.concat();
    assert!(sent.contains("\"id\":9"));
    assert!(sent.contains("\"roots\""));
}

#[test]
fn read_mcp_response_line_fails_fatal_on_closed_stdout() {
    let mut reader = input(&[]);
    let mut written: Vec<String> = Vec::new();
    let error = read_mcp_response_line(&mut written, &mut reader, HOME)
        .unwrap()
        .unwrap_err();
    assert!(matches!(error, DaemonError::Fatal(_)));
}

#[test]
fn drain_pending_mcp_response_consumes_until_pending_id() {
    let mut reader = input(&[
        r#"{"jsonrpc":"2.0","method":"notifications/progress"}"#,
        r#"{"jsonrpc":"2.0","id":7,"result":{"content":[]}}"#,
        r#"{"jsonrpc":"2.0","id":8,"result":{}}"#,
    ]);
    let mut written: Vec<String> = Vec::new();
    drain_pending_mcp_response(&mut written, &mut reader, 7, "junk", HOME)
        .unwrap()
        .unwrap();
    match &reader.events[reader.next] {
        ReadEvent::Appended(remaining) => assert!(remaining.contains("\"id\":8")),
        _ => panic!("the next line is still there"),
    }
}

#[test]
fn drain_pending_mcp_response_skips_read_when_already_consumed() {
    let mut reader = input(&[]);
    let mut written: Vec<String> = Vec::new();
    drain_pending_mcp_response(
        &mut written,
        &mut reader,
        7,
        r#"{"id":7,"result":{}}"#,
        HOME,
    )
    .unwrap()
    .unwrap();
    assert_eq!(reader.next, 0);
}

#[test]
fn notifications_are_forwarded_as_they_are() {
    let mut next_id = 10_000;
    let notice = r#"{"jsonrpc":"2.0","method":"notifications/cancelled"}"#;
    assert!(matches!(
        begin_forward(notice, &mut next_id),
        Ok(ForwardStart::Notify)
    ));
    assert_eq!(next_id, 10_000);
}

#[test]
fn late_answers_are_dropped() {
    let request = r#"{"jsonrpc":"2.0","id":"a","method":"tools/list","params":{}}"#;
    let mut next_id = 10_000;
    let mut abandoned: HashMap<u64, i128> = HashMap::new();
    let mut reader = LineReader::new();
    let mut exchange = match begin_forward(request, &mut next_id) {
        Ok(ForwardStart::Sent { exchange, .. }) => exchange,
        _ => panic!("the request has an id"),
    };
    let blocked = ReadEvent::Blocked {
        appended: String::new(),
        late: true,
    };
    match exchange.on_event(&mut reader, &mut abandoned, blocked, HOME, NOW) {
        ForwardStep::Failed(message) => {
            assert_eq!(message, "Fatal(\"MCP request timed out\")");
            let (lines, late) = failed_request(request, &message);
            assert!(late);
            assert!(lines[0].contains("its late result is discarded"));
        }
        _ => panic!("the time is up"),
    }
    assert_eq!(abandoned.get(&10_000), Some(&NOW));
    let (id, sent) = begin_call(json(r#"{"method":"tools/call"}"#), &mut next_id);
    assert_eq!(id, 10_001);
    assert!(sent.contains("\"id\":10001"));
    let late = ReadEvent::Appended("{\"id\":10000,\"result\":{}}\n".to_string());
    match call_event(id, &mut reader, &mut abandoned, late, HOME, NOW + 2_500_000) {
        CallStep::Note(note) => assert_eq!(
            note,
            "abandoned_response internal_id=10000 arrived_after_timeout_ms=2 is_error=false"
        ),
        _ => panic!("the answer is late"),
    }
    assert!(abandoned.is_empty());
    let answer = ReadEvent::Appended("{\"id\":10001,\"result\":{\"a\":1}}\n".to_string());
    match call_event(id, &mut reader, &mut abandoned, answer, HOME, NOW) {
        CallStep::Done(value) => assert_eq!(value.text(), "{\"id\":10001,\"result\":{\"a\":1}}"),
        _ => panic!("the answer is there"),
    }
}

#[test]
fn clients_wait_for_their_answer() {
    assert!(matches!(
        read_response("{\"id\":1,\"result\":{}}\n", 2, HOME),
        ResponseStep::More
    ));
    match read_response("{\"id\":2,\"result\":{}}\n", 2, HOME) {
        ResponseStep::Done(line) => assert_eq!(line, "{\"id\":2,\"result\":{}}"),
        _ => panic!("the answer is there"),
    }
    match read_response("{\"id\":4,\"method\":\"roots/list\"}\n", 2, HOME) {
        ResponseStep::Reply(line) => assert!(line.contains("\"roots\"")),
        _ => panic!("the roots were asked for"),
    }
    assert!(matches!(read_response("", 2, HOME), ResponseStep::Failed(_)));
    assert_eq!(write_json_line("{}"), "{}\n");
}

#[test]
fn lines_are_taken_as_what_they_were_read_as() {
    let line = || "the line".to_string();
    let asked = Ok(json(r#"{"id":4,"method":"roots/list"}"#));
    match take_message(line(), &asked, HOME) {
        ReadStep::Reply(reply) => {
            assert_eq!(extract_jsonrpc_id(&reply), Some(4));
            assert!(reply.contains("file:///home/agent"));
        }
        _ => panic!("the roots were asked for"),
    }
    assert!(matches!(
        take_message(line(), &Ok(json(r#"{"method":"roots/list"}"#)), HOME),
        ReadStep::More
    ));
    for message in [Ok(json(r#"{"id":4}"#)), Err("no JSON".to_string())] {
        match take_message(line(), &message, HOME) {
            ReadStep::Line(taken) => assert_eq!(taken, "the line"),
            _ => panic!("the line is not for the server"),
        }
    }
    match await_message(line(), &Ok(json(r#"{"id":4}"#)), 4, HOME) {
        ResponseStep::Done(taken) => assert_eq!(taken, "the line"),
        _ => panic!("the answer is there"),
    }
    assert!(matches!(
        await_message(line(), &Ok(json(r#"{"id":5}"#)), 4, HOME),
        ResponseStep::More
    ));
    assert!(matches!(await_message(line(), &asked, 4, HOME), ResponseStep::Reply(_)));
    assert!(matches!(
        await_message(line(), &Err("no JSON".to_string()), 4, HOME),
        ResponseStep::More
    ));
}

#[test]
fn messages_are_forwarded_and_answered() {
    let mut next_id = 10_000;
    assert!(matches!(
        begin_message(Err("no JSON".to_string()), &mut next_id),
        Ok(ForwardStart::Notify)
    ));
    assert!(begin_message(Ok(json(r#"{"id":"a","method":"m"}"#)), &mut next_id).is_ok());
    assert_eq!(next_id, 10_001);
    let mut exchange = match begin_message(Ok(json(r#"{"id":"b"}"#)), &mut next_id) {
        Ok(ForwardStart::Sent { forwarded, exchange }) => {
            assert_eq!(forwarded, r#"{"id":10001}"#);
            exchange
        }
        _ => panic!("the message has an id"),
    };
    let mut abandoned: HashMap<u64, i128> = HashMap::new();
    abandoned.insert(10_000, NOW);
    let notice = r#"{"method":"notifications/progress"}"#.to_string();
    match exchange.on_message(&mut abandoned, notice.clone(), Ok(json(&notice)), NOW) {
        ForwardStep::Note(note) => {
            assert_eq!(note, r#"mcp_notification dropped={"method":"notifications/progress"}"#)
        }
        _ => panic!("notifications are dropped"),
    }
    let late = r#"{"id":10000,"result":{"isError":true}}"#.to_string();
    match exchange.on_message(&mut abandoned, late.clone(), Ok(json(&late)), NOW + 3_000_000) {
        ForwardStep::Note(note) => assert_eq!(
            note,
            "abandoned_response internal_id=10000 arrived_after_timeout_ms=3 is_error=true"
        ),
        _ => panic!("the answer is late"),
    }
    assert!(abandoned.is_empty());
    assert!(matches!(
        exchange.on_message(&mut abandoned, "x".to_string(), Err("no JSON".to_string()), NOW),
        ForwardStep::More
    ));
    let answer = Ok(json(r#"{"id":10001,"result":1}"#));
    match exchange.on_message(&mut abandoned, "y".to_string(), answer, NOW) {
        ForwardStep::Done(lines) => {
            assert_eq!(lines.len(), 2);
            assert_eq!(lines[0], "x");
            assert_eq!(json(&lines[1]).get_str("id"), Some("b"));
        }
        _ => panic!("the answer is there"),
    }
    abandoned.insert(1, NOW);
    let failed = r#"{"id":1,"error":{}}"#;
    match call_message(2, &mut abandoned, failed, Ok(json(failed)), NOW - 1) {
        CallStep::Note(note) => assert_eq!(
            note,
            "abandoned_response internal_id=1 arrived_after_timeout_ms=0 is_error=true"
        ),
        _ => panic!("the answer is late"),
    }
    assert!(matches!(
        call_message(2, &mut abandoned, "", Ok(json(r#"{"id":3}"#)), NOW),
        CallStep::More
    ));
    match call_message(2, &mut abandoned, "", Ok(json(r#"{"id":2}"#)), NOW) {
        CallStep::Done(value) => assert_eq!(value.text(), r#"{"id":2}"#),
        _ => panic!("the answer is there"),
    }
}

#[test]
fn connections_are_opened_with_a_handshake() {
    let (request, notice) = initialize_mcp("chrome-devtools-batch");
    assert_eq!(
        request,
        r#"{"jsonrpc":"2.0","id":1,"method":"initialize","params":{"protocolVersion":"2025-06-18","capabilities":{"roots":{"listChanged":false}},"clientInfo":{"name":"chrome-devtools-batch","version":"0.1.0"}}}"#
    );
    assert_eq!(
        notice,
        r#"{"jsonrpc":"2.0","method":"notifications/initialized","params":{}}"#
    );
    assert!(initialize_daemon_mcp()
        .0
        .contains("chrome-devtools-daemon"));
}

#[test]
fn errors_are_answered_under_the_id_of_the_request() {
    assert_eq!(
        jsonrpc_error_response(Json::str("a"), -32000, "no"),
        r#"{"error":{"code":-32000,"message":"no"},"id":"a","jsonrpc":"2.0"}"#
    );
    assert_eq!(
        error_response_for_line(r#"{"id":5,"method":"x"}"#, "no"),
        vec![r#"{"error":{"code":-32000,"message":"no"},"id":5,"jsonrpc":"2.0"}"#.to_string()]
    );
    assert!(error_response_for_line(r#"{"method":"x"}"#, "no").is_empty());
    assert_eq!(
        request_label(r#"{"method":"tools/call","params":{"name":"click"}}"#),
        ("tools/call".to_string(), "click".to_string())
    );
    assert_eq!(request_label("junk").0, "invalid");
}

#[test]
fn resolve_refs_substitutes_ref_with_previous_result() {
    let results = vec![json(
        r#"{"label": "snap", "result": {"content": [{"text": "hello"}]}}"#,
    )];
    let template = json(r#"{"value": {"$ref": "snap.result.content.0.text"}}"#);
    let resolved = resolve_refs(template, &results).unwrap();
    assert_eq!(resolved.text(), json(r#"{"value": "hello"}"#).text());
}

#[test]
fn resolve_refs_returns_null_for_unknown_label() {
    let results: Vec<Json> = vec![];
    let template = json(r#"{"value": {"$ref": "missing.x"}}"#);
    let resolved = resolve_refs(template, &results).unwrap();
    assert_eq!(resolved.text(), json(r#"{"value": null}"#).text());
}

#[test]
fn resolve_refs_passes_through_non_refs() {
    let template = json(r#"{"a": 1, "b": [2, 3]}"#);
    let expected = template.text();
    let resolved = resolve_refs(template, &vec![]).unwrap();
    assert_eq!(resolved.text(), expected);
}

#[test]
fn resolve_refs_wants_text() {
    let template = json(r#"{"a": [{"$ref": 5}]}"#);
    assert_eq!(
        resolve_refs(template, &vec![]).unwrap_err(),
        "$ref must be a string"
    );
    let larger = json(r#"{"$ref": 5, "b": 1}"#);
    assert!(resolve_refs(larger, &vec![]).is_ok());
    let results = vec![json(r#"{"label":"x","list":[1,[2]],"0":"named"}"#)];
    assert_eq!(resolve_path("x.list.1.0", &results).text(), "2");
    assert_eq!(resolve_path("x.list.+1.0", &results).text(), "2");
    assert_eq!(resolve_path("x.0", &results).text(), "null");
    assert_eq!(resolve_path("x.list.7", &results).text(), "null");
    assert_eq!(
        resolve_path("x", &results).text(),
        r#"{"0":"named","label":"x","list":[1,[2]]}"#
    );
}

#[test]
fn scripts_run_step_by_step() {
    let script = r#"[
        {"type": "tool", "name": "take_snapshot", "label": "snap"},
        {"type": "sleep_ms", "ms": 5, "label": "wait"},
        {"type": "tool", "name": "click", "args": {"uid": {"$ref": "snap.result.uid"}}}
    ]"#;
    let mut run = BatchRun::of_script("s.json", script, false).ok().unwrap();
    match run.execute_batch() {
        BatchAction::Call { id, line } => {
            assert_eq!(id, 2);
            assert_eq!(
                line,
                r#"{"id":2,"jsonrpc":"2.0","method":"tools/call","params":{"arguments":{},"name":"take_snapshot"}}"#
            );
        }
        _ => panic!("the first step is a call"),
    }
    run.on_answer_line(r#"{"id":2,"result":{"uid":"u:1"}}"#);
    assert!(matches!(run.execute_batch(), BatchAction::Sleep { ms: 5 }));
    match run.execute_batch() {
        BatchAction::Call { id, line } => {
            assert_eq!(id, 3);
            assert!(line.contains(r#""arguments":{"uid":"u:1"}"#));
        }
        _ => panic!("the third step is a call"),
    }
    run.on_answer_line(r#"{"id":3,"result":{"isError":true}}"#);
    match run.execute_batch() {
        BatchAction::Finish { output, outcome } => {
            assert!(matches!(outcome, BatchOutcome::Completed));
            let value: serde_json::Value = serde_json::from_str(&output).unwrap();
            assert_eq!(value.as_array().unwrap().len(), 3);
            assert_eq!(value[0]["label"], "snap");
            assert_eq!(value[0]["result"]["uid"], "u:1");
            assert!(value[0]["error"].is_null());
            assert_eq!(value[1]["type"], "sleep_ms");
            assert_eq!(value[1]["ms"], 5);
            assert!(value[2]["label"].is_null());
        }
        _ => panic!("that was all"),
    }
}

#[test]
fn scripts_stop_on_errors_when_asked() {
    let script = r#"[{"type":"tool","name":"a","label":"first"},{"type":"tool","name":"b"}]"#;
    let mut run = BatchRun::of_script("-", script, true).ok().unwrap();
    assert!(matches!(run.execute_batch(), BatchAction::Call { .. }));
    run.on_answer_line(r#"{"id":2,"error":{"message":"no"}}"#);
    match run.execute_batch() {
        BatchAction::Finish { outcome, .. } => match outcome {
            BatchOutcome::StoppedOnError(label) => assert_eq!(label, "first"),
            _ => panic!("the step failed"),
        },
        _ => panic!("the batch stopped"),
    }
    let going_on = r#"[{"type":"tool","name":"a","on_error":"continue"},{"type":"sleep_ms","ms":1}]"#;
    let mut run = BatchRun::of_script("-", going_on, true).ok().unwrap();
    assert!(matches!(run.execute_batch(), BatchAction::Call { .. }));
    run.on_answer_line("junk");
    assert!(matches!(run.execute_batch(), BatchAction::Sleep { .. }));
}

#[test]
fn scripts_are_checked() {
    let told = |content: &str| BatchRun::of_script("s.json", content, false).err().unwrap();
    assert_eq!(told("{}"), "script must be a JSON array of steps");
    assert!(told("[").starts_with("failed to parse s.json: EOF while parsing"));
    let fails = |content: &str| {
        let mut run = BatchRun::of_script("s.json", content, false).ok().unwrap();
        match run.execute_batch() {
            BatchAction::Fail { message } => message,
            _ => panic!("the step is not right"),
        }
    };
    assert_eq!(
        fails("[1]"),
        r#"step missing 'type': expected {"type":"tool","name":"<mcp-tool>","args":{...}} or {"type":"sleep_ms","ms":<u64>}"#
    );
    assert_eq!(
        fails(r#"[{"type":"jump"}]"#),
        r#"unknown step type: jump: expected {"type":"tool","name":"<mcp-tool>","args":{...}} or {"type":"sleep_ms","ms":<u64>}"#
    );
    assert_eq!(
        fails(r#"[{"type":"sleep_ms","ms":-1}]"#),
        "sleep_ms requires 'ms' (non-negative integer)"
    );
    assert_eq!(
        fails(r#"[{"type":"tool"}]"#),
        "tool step requires 'name' (the MCP tool name, e.g. take_snapshot)"
    );
    assert_eq!(
        fails(r#"[{"type":"tool","name":"a","args":{"x":{"$ref":1}}}]"#),
        "$ref must be a string"
    );
}

#[test]
fn batches_that_cannot_run_write_their_error() {
    let (output, result) = run_batch(Err("unknown session: x".to_string()));
    let value: serde_json::Value = serde_json::from_str(&output.unwrap()).unwrap();
    assert_eq!(value[0]["type"], "error");
    assert_eq!(value[0]["error"], "unknown session: x");
    assert_eq!(result.unwrap_err(), "unknown session: x");
    let (output, result) = run_batch(Ok(BatchOutcome::StoppedOnError("snap".to_string())));
    assert!(output.is_none());
    assert_eq!(
        result.unwrap_err(),
        "scenario stopped on error at step: snap"
    );
    let (output, result) = run_batch(Ok(BatchOutcome::Completed));
    assert!(output.is_none());
    assert!(result.is_ok());
}

#[test]
fn json_is_written_and_read() {
    let text = r#"{"a":[1,-2,2.5,true,null,"x\n"],"b":{}}"#;
    let value = json(text);
    assert_eq!(value.text(), text);
    assert_eq!(
        json(r#"{"a":1}"#).pretty(),
        "{\n  \"a\": 1\n}"
    );
    assert_eq!(value.get_array("a").unwrap().len(), 6);
    assert_eq!(value.get("a").unwrap().item(0).unwrap().as_u64(), Some(1));
    assert_eq!(value.get("a").unwrap().item(1).unwrap().as_i64(), Some(-2));
    assert_eq!(value.get("a").unwrap().item(1).unwrap().as_u64(), None);
    assert_eq!(value.get("a").unwrap().item(2).unwrap().as_u64(), None);
    assert_eq!(value.get("a").unwrap().item(3).unwrap().as_bool(), Some(true));
    assert!(Json::parse("{").is_err());
    assert_eq!(Json::signed(-7).text(), "-7");
    assert_eq!(Json::uint(u64::MAX).text(), "18446744073709551615");
}
