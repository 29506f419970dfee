//! The parts of the daemon between its clients and the MCP server, and what the command
//! line makes of the daemon's answers.
use chrome_devtools::client::{
    bind_request, bind_session, bind_session_failed, close_session_command, create_session,
    daemon_run_args, ensure_daemon, is_daemon_ready, is_timeout_error, list_mcp_tools_via_daemon,
    list_sessions, parse_status_field, print_daemon_status, print_status, send_daemon_control,
    send_daemon_request, start_daemon, start_daemon_failed, status_port, stop_command,
    stop_daemon, tools_request, wait_for_daemon, wait_for_daemon_stop, wait_for_devtools,
    warn_on_version_mismatch, EnsureStep, ReadFailure, Waiting,
};
use chrome_devtools::config::Profile;
use chrome_devtools::control::{
    answer_opening, control_label, handle_control_command, handle_daemon_client, parse_page_arg,
    parse_session_arg, serve_request, wait_forward_response, BoundSessionGuard, ClientStep,
    ControlOutcome,
    ControlReply, DaemonStatus, WaitEvent,
};
use chrome_devtools::daemon::{
    cleanup_stale_daemon_files, current_port, pid_file_content, read_daemon_health, read_pid_file,
    record_daemon_exit, record_daemon_respawn, run_daemon, write_runtime_port, DaemonAction,
    DaemonEvent,
};
use chrome_devtools::diagnostics::{
    record_control_latency, record_forward_diagnostic, Diagnostics, DiagnosticsSnapshot,
};
use chrome_devtools::json::Json;
use chrome_devtools::mcp::DaemonError;
use chrome_devtools::pages::{
    annotate_session_page, is_page_scoped_tool, response_page_entries, response_page_ids,
    rewrite_selected_page, selected_page_id, strip_page_id_schema, upload_file_fallback_response,
    upload_file_needs_fallback, upload_file_paths, PageEntry,
};
use chrome_devtools::queue::{
    elapsed, forward_timing, RouterHandle, RouterTurn, TurnAction, TurnEvent, FIRST_REQUEST_ID,
};
use chrome_devtools::router::{
    allocate_session_page, allocation_request, close_daemon_pages, close_respawned_daemon_pages,
    ensure_runtime_ready, ensure_session_page, failed_request, finish_route,
    log_upload_fallback, restart_after_timeout, route_on_page, route_request, upload_fallback, PageStep, RoutePlan,
    RouteStep,
};
use chrome_devtools::session::{
    session_page, session_page_created_by_daemon, session_page_url, session_target_id,
    PageCleanup, SessionRegistry,
};
use chrome_devtools::table::Table;
use chrome_devtools::text::comes_before;
use chrome_devtools::uids::{
    collect_raw_uids, collect_text_uids, replace_raw_uids, replace_text_uids,
    rewrite_uid_response, translate_uid_fields,
};

const NOW: i128 = 1_700_000_000_000_000_000;
const SECOND: u128 = 1_000_000_000;

fn json(text: &str) -> Json {
    Json::parse(text).unwrap()
}

fn profile() -> Profile {
    Profile { name: "work".to_string(), user_data_dir: "~/data".to_string() }
}

fn status() -> DaemonStatus {
    DaemonStatus {
        version: "0.5.0".to_string(),
        queued: 3,
        diagnostics: DiagnosticsSnapshot {
            window_secs: 600,
            max_control_latency_ms: 12,
            max_forward_latency_ms: 3456,
        },
        port: Some(9222),
    }
}

fn command(
    sessions: &mut SessionRegistry,
    bound: &mut BoundSessionGuard,
    command: &str,
) -> Result<ControlReply, DaemonError> {
    handle_control_command(sessions, bound, &status(), command, NOW, NOW, 77)
}

fn said(reply: Result<ControlReply, DaemonError>) -> String {
    reply.ok().unwrap().lines.join("\n")
}

#[test]
fn parse_session_arg_accepts_session_assignment() {
    assert_eq!(parse_session_arg("session=abc").unwrap(), "abc");
    assert_eq!(parse_session_arg("session=foo other=bar").unwrap(), "foo");
}

#[test]
fn parse_session_arg_rejects_missing_session() {
    assert!(parse_session_arg("").is_err());
    assert!(parse_session_arg("other=bar").is_err());
    assert!(parse_session_arg("session=").is_err());
}

#[test]
fn pages_are_named_by_numbers() {
    assert_eq!(parse_page_arg("session=a page=12").unwrap(), 12);
    assert_eq!(parse_page_arg("page=x").unwrap_err(), "page id must be an integer");
    assert_eq!(parse_page_arg("session=a").unwrap_err(), "missing page=<id> argument");
    assert_eq!(control_label("bind session=a"), "bind");
    assert_eq!(control_label(" "), "");
}

#[test]
fn control_commands_are_answered() {
    let mut sessions = SessionRegistry::new();
    let mut bound = BoundSessionGuard::new(NOW);
    let made = said(command(&mut sessions, &mut bound, "session_create"));
    let id = sessions.list()[0].id.clone();
    assert!(made.starts_with(&format!("session={id} created=1700000000 ")));
    assert_eq!(said(command(&mut sessions, &mut bound, "session_list")), made);
    assert_eq!(
        said(command(&mut sessions, &mut bound, &format!("session_attach session={id} page=4"))),
        format!("session={id} page=4")
    );
    assert_eq!(
        said(command(&mut sessions, &mut bound, &format!("session_page session={id}"))),
        format!("session={id} page=4")
    );
    let reply = command(&mut sessions, &mut bound, &format!("bind session={id}")).ok().unwrap();
    assert_eq!(reply.lines, vec![format!("bound={id}")]);
    assert!(reply.outcome == ControlOutcome::Continue);
    assert_eq!(bound.id.as_deref(), Some(id.as_str()));
    assert_eq!(
        said(command(&mut sessions, &mut bound, "status")),
        "daemon=ready version=0.5.0 sessions=1 active_sessions=1 pages=4 queued_mcp_requests=3 max_control_latency_ms=12 max_forward_latency_ms=3456 diagnostic_window_secs=600 mcp_port=9222"
    );
    let mut other = BoundSessionGuard::new(NOW);
    let reply = command(&mut sessions, &mut other, &format!("bind session={id}")).ok().unwrap();
    assert_eq!(reply.lines, vec![format!("error=session in use: {id}")]);
    assert!(reply.outcome == ControlOutcome::CloseConnection);
    assert_eq!(
        said(command(&mut sessions, &mut other, &format!("session_close session={id}"))),
        format!("error=session in use: {id}")
    );
    assert_eq!(
        bound.release(&mut sessions, NOW + 5_000_000, NOW).as_deref(),
        Some(format!("bind session={id} held_ms=5").as_str())
    );
    assert_eq!(bound.release(&mut sessions, NOW, NOW), None);
    let reply = command(&mut sessions, &mut other, &format!("session_close session={id}"));
    let reply = reply.ok().unwrap();
    assert!(reply.cleanup.is_none());
    assert_eq!(reply.lines, vec![format!("closed={id}")]);
    assert_eq!(said(command(&mut sessions, &mut other, "session_list")), "");
}

#[test]
fn commands_that_make_no_sense_are_refused() {
    let mut sessions = SessionRegistry::new();
    let mut bound = BoundSessionGuard::new(NOW);
    let reply = command(&mut sessions, &mut bound, "dance now").ok().unwrap();
    assert_eq!(reply.lines, vec!["error=unknown command: dance"]);
    assert!(reply.outcome == ControlOutcome::CloseConnection);
    assert_eq!(
        said(command(&mut sessions, &mut bound, "bind session=a")),
        "error=unknown session: a"
    );
    assert_eq!(
        said(command(&mut sessions, &mut bound, "session_attach session=a page=1")),
        "error=unknown session: a"
    );
    for (line, error) in [
        ("bind", "missing session=<id> argument"),
        ("bind session=", "session id must not be empty"),
        ("session_page session=a", "unknown session: a"),
        ("session_attach session=a page=b", "page id must be an integer"),
    ] {
        match command(&mut sessions, &mut bound, line) {
            Err(DaemonError::Client(message)) => assert_eq!(message, error),
            _ => panic!("{line} was not refused"),
        }
    }
}

#[test]
fn daemons_are_stopped_when_idle_or_forced() {
    let mut sessions = SessionRegistry::new();
    let mut bound = BoundSessionGuard::new(NOW);
    sessions.create(NOW, 1);
    let reply = command(&mut sessions, &mut bound, "stop").ok().unwrap();
    assert_eq!(
        reply.lines,
        vec!["error=1 active session(s); other agents may be using this daemon, pass --force to stop anyway"]
    );
    assert!(reply.outcome == ControlOutcome::CloseConnection);
    let reply = command(&mut sessions, &mut bound, "stop force").ok().unwrap();
    assert_eq!(reply.lines, vec!["daemon=stopping"]);
    assert!(reply.outcome == ControlOutcome::StopDaemon);
    sessions.clear_sessions();
    let reply = command(&mut sessions, &mut bound, "stop").ok().unwrap();
    assert!(reply.outcome == ControlOutcome::StopDaemon);
}

#[test]
fn closing_a_session_closes_its_own_page_only() {
    let mut sessions = SessionRegistry::new();
    let mut bound = BoundSessionGuard::new(NOW);
    let id = sessions.create(NOW, 1).id;
    sessions.set_page(&id, 9, true, Some("https://a.test/".to_string()), NOW).unwrap();
    let reply = command(&mut sessions, &mut bound, &format!("session_close session={id}"));
    let cleanup = reply.ok().unwrap().cleanup.unwrap();
    assert_eq!(cleanup.page_id, 9);
    assert_eq!(cleanup.page_url.as_deref(), Some("https://a.test/"));
}

#[test]
fn clients_lines_are_sorted_out() {
    assert!(matches!(handle_daemon_client("\n", false), ClientStep::Skip));
    match handle_daemon_client("__chrome_devtools_daemon__:bind session=a\n", false) {
        ClientStep::Control { name, command } => {
            assert_eq!((name.as_str(), command.as_str()), ("bind", "bind session=a"));
        }
        _ => panic!("not a command"),
    }
    match handle_daemon_client(r#"{"id":"i","method":"initialize"}"#, false) {
        ClientStep::Reply { line } => assert_eq!(json(&line).get_str("id"), Some("i")),
        _ => panic!("not answered"),
    }
    assert!(matches!(
        handle_daemon_client(r#"{"method":"notifications/initialized"}"#, true),
        ClientStep::Skip
    ));
    match handle_daemon_client(r#"{"id":3,"method":"tools/call"}"#, false) {
        ClientStep::Reply { line } => assert_eq!(
            json(&line).get("error").unwrap().get_str("message"),
            Some("session bind required for MCP forwarding")
        ),
        _ => panic!("not refused"),
    }
    assert!(matches!(
        handle_daemon_client(r#"{"method":"tools/call"}"#, false),
        ClientStep::Skip
    ));
    match handle_daemon_client("{\"id\":3,\"method\":\"tools/list\"}\n", false) {
        ClientStep::Serve { line } => assert_eq!(line, r#"{"id":3,"method":"tools/list"}"#),
        _ => panic!("not served"),
    }
    let request = r#"{"id":3,"method":"tools/call","params":{"name":"new_page","arguments":{"isolatedContext":"x","url":"u"}}}"#;
    match handle_daemon_client(request, true) {
        ClientStep::Serve { line } => assert!(!line.contains("isolatedContext")),
        _ => panic!("not served"),
    }
}

#[test]
fn requests_are_sorted_out_by_what_they_were_read_as() {
    let unread = Err("no JSON".to_string());
    match answer_opening(&Ok(json(r#"{"id":"i","method":"initialize"}"#))) {
        Some(ClientStep::Reply { line }) => {
            assert_eq!(json(&line).get_str("id"), Some("i"));
            assert!(json(&line).get("result").is_some());
        }
        _ => panic!("not answered"),
    }
    for silent in [r#"{"method":"initialize"}"#, r#"{"id":1,"method":"notifications/initialized"}"#]
    {
        assert!(matches!(answer_opening(&Ok(json(silent))), Some(ClientStep::Skip)));
    }
    assert!(answer_opening(&Ok(json(r#"{"id":1,"method":"tools/list"}"#))).is_none());
    assert!(answer_opening(&unread).is_none());
    let line = || "the line".to_string();
    let listing = Ok(json(r#"{"id":1,"method":"tools/list"}"#));
    let calling = Ok(json(r#"{"id":1,"method":"tools/call"}"#));
    for (message, bound) in [(&listing, false), (&calling, true), (&unread, true)] {
        match serve_request(line(), message, bound) {
            ClientStep::Serve { line } => assert_eq!(line, "the line"),
            _ => panic!("not served"),
        }
    }
    match serve_request(line(), &calling, false) {
        ClientStep::Reply { line } => {
            assert_eq!(json(&line).get_u64("id"), Some(1));
            assert_eq!(
                json(&line).get("error").unwrap().get_str("message"),
                Some("session bind required for MCP forwarding")
            );
        }
        _ => panic!("not refused"),
    }
    assert!(matches!(serve_request(line(), &unread, false), ClientStep::Skip));
}

#[test]
fn clients_that_leave_are_not_waited_for() {
    assert!(wait_forward_response(WaitEvent::Waiting { gone: false }).is_none());
    match wait_forward_response(WaitEvent::Answered(Ok(vec!["a".to_string()]))) {
        Some(Ok(lines)) => assert_eq!(lines, vec!["a"]),
        _ => panic!("not answered"),
    }
    for (event, error) in [
        (
            WaitEvent::Answered(Err("no".to_string())),
            DaemonError::Fatal("no".to_string()),
        ),
        (
            WaitEvent::Waiting { gone: true },
            DaemonError::Client("daemon client disconnected during MCP forward".to_string()),
        ),
        (
            WaitEvent::Abandoned,
            DaemonError::Fatal("failed to receive MCP response: channel disconnected".to_string()),
        ),
    ] {
        let told = wait_forward_response(event).unwrap().unwrap_err();
        assert_eq!(format!("{told:?}"), format!("{error:?}"));
    }
}

#[test]
fn the_queue_counts_its_requests() {
    let (mut router, next_id, abandoned) = RouterHandle::start();
    assert_eq!((router.queued_requests(), next_id, abandoned.len()), (0, FIRST_REQUEST_ID, 0));
    assert_eq!(router.enqueue_forward(), 1);
    assert_eq!(router.enqueue_forward(), 2);
    router.take_request();
    assert_eq!(router.queued_requests(), 1);
    match router.forward_refused("closed") {
        DaemonError::Fatal(error) => assert_eq!(error, "failed to queue MCP request: closed"),
        DaemonError::Client(_) => panic!("the daemon goes on"),
    }
    assert_eq!(router.queued_requests(), 0);
    assert!(!router.close_pages(&Vec::new()));
    assert_eq!(router.queued_requests(), 0);
    assert!(router.close_pages(&vec![PageCleanup { page_id: 1, page_url: None }]));
    assert_eq!(router.queued_requests(), 1);
    match router.cleanup_refused("closed") {
        DaemonError::Fatal(error) => assert_eq!(error, "failed to queue MCP page cleanup: closed"),
        DaemonError::Client(_) => panic!("the daemon goes on"),
    }
    assert_eq!(router.queued_requests(), 0);
    assert_eq!(elapsed(5, 12), 7);
    assert_eq!(elapsed(12, 5), 0);
    let timing = forward_timing(10, 14, 30, 2, 1);
    assert_eq!((timing.queue_wait, timing.total), (4, 20));
    assert_eq!((timing.queued_at_enqueue, timing.queued_after_done), (2, 1));
}

#[test]
fn a_turn_answers_its_client_once() {
    let line = r#"{"id":5,"method":"tools/call"}"#;
    let mut turn = RouterTurn::new(line);
    assert!(matches!(turn.on_event(TurnEvent::Replied { delivered: true }), TurnAction::Wait));
    assert!(matches!(
        turn.on_event(TurnEvent::Checked { exited: false, reachable: true }),
        TurnAction::Route
    ));
    match turn.on_event(TurnEvent::Routed(Err("no".to_string()))) {
        TurnAction::Reply { lines } => assert!(lines[0].contains("\"message\":\"no\"")),
        _ => panic!("not answered"),
    }
    assert!(matches!(turn.on_event(TurnEvent::Replied { delivered: true }), TurnAction::Record));
    assert!(matches!(
        turn.on_event(TurnEvent::Routed(Ok(vec!["again".to_string()]))),
        TurnAction::Wait
    ));
}

#[test]
fn a_server_is_replaced_after_a_failed_probe() {
    let line = r#"{"id":5,"method":"tools/call"}"#;
    let late = || Err("Fatal(\"MCP request timed out\")".to_string());
    for (failed, delivered) in [(true, true), (false, true), (true, false)] {
        let mut turn = RouterTurn::new(line);
        turn.on_event(TurnEvent::Checked { exited: false, reachable: true });
        match turn.on_event(TurnEvent::Routed(late())) {
            TurnAction::Reply { lines } => {
                assert!(lines[0].contains("its late result is discarded"))
            }
            _ => panic!("not answered"),
        }
        assert_eq!(
            turn.skipped_probe(delivered).is_some(),
            !delivered,
            "a probe is skipped where the client is gone"
        );
        let next = turn.on_event(TurnEvent::Replied { delivered });
        assert!(turn.skipped_probe(false).is_none());
        if !delivered {
            assert!(matches!(next, TurnAction::Record));
            continue;
        }
        assert!(matches!(next, TurnAction::Probe));
        match turn.on_event(TurnEvent::Probed { failed }) {
            TurnAction::Restart { reason, forget } => {
                assert!(failed && forget);
                assert_eq!(reason, "mcp probe failed after request timeout");
                assert!(matches!(turn.on_event(TurnEvent::Restarted), TurnAction::Record));
            }
            TurnAction::Record => assert!(!failed),
            _ => panic!("the turn goes on"),
        }
    }
}

#[test]
fn a_server_that_is_gone_is_replaced_before_the_request() {
    assert_eq!(ensure_runtime_ready(false, true), None);
    assert_eq!(ensure_runtime_ready(true, true), Some("mcp exited"));
    assert_eq!(ensure_runtime_ready(false, false), Some("devtools unreachable"));
    assert_eq!(restart_after_timeout(false, true), None);
    assert_eq!(
        restart_after_timeout(true, true),
        Some("mcp probe failed after request timeout")
    );
    let mut turn = RouterTurn::new("{}");
    match turn.on_event(TurnEvent::Checked { exited: true, reachable: false }) {
        TurnAction::Restart { reason, forget } => {
            assert_eq!(reason, "mcp exited");
            assert!(!forget);
        }
        _ => panic!("not replaced"),
    }
    assert!(matches!(turn.on_event(TurnEvent::Restarted), TurnAction::Route));
    let (lines, late) = failed_request(r#"{"id":1}"#, "MCP request timed out");
    assert!(late && lines.len() == 1);
    let (lines, late) = failed_request(r#"{"method":"x"}"#, "no");
    assert!(!late && lines.is_empty());
}

#[test]
fn latencies_are_kept_for_a_while() {
    let mut kept = Diagnostics::new();
    let window = 600 * SECOND;
    assert_eq!(kept.record_control(NOW, 3_000_000, window), 3);
    assert_eq!(kept.record_control(NOW + 1, 1_999_999, window), 3);
    assert_eq!(kept.record_forward(NOW, 7_000_000, window), 7);
    let soon = kept.snapshot(NOW + 599 * SECOND as i128, window);
    assert_eq!((soon.window_secs, soon.max_control_latency_ms, soon.max_forward_latency_ms), (600, 3, 7));
    let later = NOW + 600 * SECOND as i128 + 1;
    assert_eq!(kept.max_control_latency_ms(later, window), 1);
    let late = kept.snapshot(later, window);
    assert_eq!((late.max_control_latency_ms, late.max_forward_latency_ms), (1, 0));
    assert_eq!((kept.control.len(), kept.forward.len()), (1, 0));
}

#[test]
fn slow_requests_are_warned_about() {
    let mut kept = Diagnostics::new();
    let window = 600 * SECOND;
    assert_eq!(record_control_latency(&mut kept, "status", 999_999_999, NOW, window, SECOND), None);
    assert_eq!(
        record_control_latency(&mut kept, "status", 2 * SECOND, NOW, window, SECOND).as_deref(),
        Some("warning: slow control command=status elapsed_ms=2000 max_control_latency_ms=2000")
    );
    let timing = forward_timing(NOW, NOW + 1_000_000, NOW + 31 * SECOND as i128, 2, 1);
    let line = r#"{"id":1,"method":"tools/call","params":{"name":"click"}}"#;
    assert_eq!(
        record_forward_diagnostic(&mut kept, Some("a"), line, &timing, NOW, window, 30 * SECOND)
            .as_deref(),
        Some("warning: slow forward method=tools/call tool=click session=a queue_wait_ms=1 total_ms=31000 queued_at_enqueue=2 queued_after_done=1 max_forward_latency_ms=31000")
    );
    assert_eq!(
        record_forward_diagnostic(&mut kept, None, "x", &timing, NOW, window, 32 * SECOND),
        None
    );
}

#[test]
fn parse_status_field_extracts_named_fields() {
    let response = "daemon=ready version=0.3.1 sessions=2 mcp_port=46071";
    assert_eq!(parse_status_field(response, "version=").as_deref(), Some("0.3.1"));
    assert_eq!(parse_status_field(response, "sessions=").as_deref(), Some("2"));
    assert_eq!(parse_status_field(response, "mcp_port=").as_deref(), Some("46071"));
    assert_eq!(parse_status_field("daemon=ready", "version="), None);
    assert_eq!(status_port(response), Some(46071));
    assert_eq!(status_port("mcp_port=70000"), None);
}

#[test]
fn daemons_that_are_busy_are_left_alone() {
    assert!(is_timeout_error(&ReadFailure::WouldBlock));
    assert!(is_timeout_error(&ReadFailure::TimedOut));
    assert!(!is_timeout_error(&ReadFailure::Other("x".to_string())));
    let busy = send_daemon_request(&ReadFailure::TimedOut, 10 * SECOND);
    assert_eq!(
        busy,
        "daemon busy: no response within 10s; another client is likely using the daemon, retry shortly (raise CHROME_DEVTOOLS_CONTROL_TIMEOUT_SECS to wait longer)"
    );
    assert_eq!(
        send_daemon_request(&ReadFailure::Other("gone".to_string()), 10 * SECOND),
        "failed to read daemon response: gone"
    );
    assert!(is_daemon_ready(&Some(Err(busy.clone()))));
    assert!(matches!(
        ensure_daemon(&profile(), "0.5.0", &Some(Err(busy))),
        EnsureStep::Ready { warning: None }
    ));
    assert!(!is_daemon_ready(&Some(Err("refused".to_string()))));
    assert!(!is_daemon_ready(&None));
    assert!(matches!(ensure_daemon(&profile(), "0.5.0", &None), EnsureStep::Start));
    assert!(is_daemon_ready(&Some(Ok("daemon=ready\n".to_string()))));
}

#[test]
fn other_versions_are_warned_about() {
    assert_eq!(warn_on_version_mismatch(&profile(), "0.5.0", "daemon=ready version=0.5.0"), None);
    assert_eq!(
        warn_on_version_mismatch(&profile(), "0.5.0", "daemon=ready version=0.4.0").as_deref(),
        Some("warning: daemon for profile work runs chrome-devtools 0.4.0 but this CLI is 0.5.0; restart it when idle: chrome-devtools daemon stop --profile work")
    );
    assert_eq!(
        warn_on_version_mismatch(&profile(), "0.5.0", "daemon=ready").as_deref(),
        Some("warning: daemon for profile work was started by an older chrome-devtools than this CLI (0.5.0); restart it when idle: chrome-devtools daemon stop --profile work")
    );
    match ensure_daemon(&profile(), "0.5.0", &Some(Ok("daemon=ready version=0.4.0".to_string()))) {
        EnsureStep::Ready { warning } => assert!(warning.is_some()),
        EnsureStep::Start => panic!("started twice"),
    }
}

#[test]
fn waiting_for_a_process_has_an_end() {
    assert!(matches!(wait_for_daemon(true, 0, 30 * SECOND), Waiting::Done));
    assert!(matches!(wait_for_daemon(false, 29 * SECOND, 30 * SECOND), Waiting::Again));
    match wait_for_daemon(false, 30 * SECOND, 30 * SECOND) {
        Waiting::Expired(error) => {
            assert_eq!(error, "daemon did not become ready within 30 seconds")
        }
        _ => panic!("not over"),
    }
    assert!(matches!(wait_for_daemon_stop(false, 0, 5 * SECOND), Waiting::Done));
    match wait_for_daemon_stop(true, 5 * SECOND, 5 * SECOND) {
        Waiting::Expired(error) => assert_eq!(error, "daemon did not stop within 5 seconds"),
        _ => panic!("not over"),
    }
    match wait_for_devtools(9222, false, 30 * SECOND, 30 * SECOND) {
        Waiting::Expired(error) => assert_eq!(
            error,
            "Chrome DevTools did not become ready on port 9222 within 30 seconds"
        ),
        _ => panic!("not over"),
    }
}

#[test]
fn sessions_are_bound_before_they_are_used() {
    assert_eq!(send_daemon_control("status"), "__chrome_devtools_daemon__:status\n");
    assert_eq!(bind_request("a"), "__chrome_devtools_daemon__:bind session=a\n");
    assert!(bind_session("bound=a\n", "work").is_ok());
    for (raw, error) in [
        ("", "daemon closed connection before bind response"),
        ("hello\n", "unexpected bind response: hello"),
        ("error=odd\n", "odd"),
        (
            "error=unknown session: a\n",
            "unknown session: a; sessions are dropped after 30 minutes idle or when the daemon restarts, mint a new one: chrome-devtools session create --profile work",
        ),
        (
            "error=session in use: a\n",
            "session in use: a; another invocation is bound to this session, wait for it or mint a separate one: chrome-devtools session create --profile work",
        ),
    ] {
        assert_eq!(bind_session(raw, "work").unwrap_err(), error);
    }
    assert_eq!(
        bind_session_failed(&ReadFailure::WouldBlock, 120 * SECOND),
        "daemon busy: bind not acknowledged within 120s; retry shortly (raise CHROME_DEVTOOLS_BIND_TIMEOUT_SECS to wait longer)"
    );
    assert_eq!(
        bind_session_failed(&ReadFailure::Other("x".to_string()), 120 * SECOND),
        "failed to read bind response: x"
    );
}

#[test]
fn answers_are_shown() {
    assert_eq!(create_session("session=a x\nmore\n").unwrap(), "session=a x");
    assert_eq!(create_session("error=no\n").unwrap_err(), "no");
    assert_eq!(create_session("").unwrap_err(), "daemon returned empty response");
    assert_eq!(list_sessions(true).as_deref(), Some("session_list"));
    assert_eq!(list_sessions(false), None);
    assert_eq!(close_session_command(true, "a").unwrap(), "session_close session=a");
    assert_eq!(close_session_command(false, "a").unwrap_err(), "unknown session: a");
    assert_eq!(stop_command(true), "stop force");
    assert_eq!(stop_daemon("daemon=stopping\n").unwrap(), "daemon=stopping\n");
    assert_eq!(stop_daemon("error=busy\n").unwrap_err(), "busy");
    assert_eq!(tools_request().lines().count(), 3);
    assert_eq!(
        list_mcp_tools_via_daemon("{\"id\":1}\n{\"id\":2,\"result\":{}}\n"),
        "{\"id\":2,\"result\":{}}\n"
    );
    assert_eq!(list_mcp_tools_via_daemon("{\"id\":1}\n"), "{\"id\":1}\n");
    assert_eq!(
        print_status(&profile(), Some(9222)),
        "profile=work status=ready port=9222 user_data_dir=~/data"
    );
    assert_eq!(
        print_status(&profile(), None),
        "profile=work status=stopped user_data_dir=~/data"
    );
    assert_eq!(start_daemon(&profile(), None, "/s"), "profile=work daemon=ready socket=/s");
    assert_eq!(
        start_daemon(&profile(), Some(5), "/s"),
        "profile=work daemon=started pid=5 socket=/s"
    );
    assert_eq!(daemon_run_args(&profile()), vec!["daemon", "run", "--profile", "work"]);
    assert_eq!(
        start_daemon_failed(&profile(), 5, "slow", "/l"),
        "failed to start daemon process 5 for profile work: slow; log=/l"
    );
}

#[test]
fn the_daemons_state_is_shown() {
    let answer = "daemon=ready version=0.5.0 sessions=2 active_sessions=1 pages=3,4 queued_mcp_requests=0 max_control_latency_ms=1 max_forward_latency_ms=2 diagnostic_window_secs=600 mcp_port=9222\n";
    let reply = Some(Ok(answer.to_string()));
    assert_eq!(
        print_daemon_status(&profile(), &reply, Some(8), "/s", true, &None),
        "profile=work daemon=ready version=0.5.0 sessions=2 active_sessions=1 pages=3,4 queued_mcp_requests=0 max_control_latency_ms=1 max_forward_latency_ms=2 diagnostic_window_secs=600 chrome=ready port=9222 pid=8 socket=/s"
    );
    let unreachable = print_daemon_status(&profile(), &reply, None, "/s", false, &None);
    assert!(unreachable.contains(
        " chrome=unreachable port=9222 (restart the daemon to reattach Chrome) pid=unknown "
    ));
    let old = Some(Ok("daemon=ready\n".to_string()));
    let shown = print_daemon_status(&profile(), &old, None, "/s", true, &None);
    assert!(shown.contains(" version=pre-0.3.1 sessions=unknown "));
    assert!(shown.contains(" chrome=unknown "));
    let health = read_daemon_health(&record_daemon_exit(NOW, &Err("crash\nhard".to_string())));
    assert_eq!(
        print_daemon_status(&profile(), &None, None, "/s", false, &health),
        "profile=work daemon=stopped pid=unknown socket=/s abnormal_exits=1 last_exit=[ts=1700000000 exit=error reason=crash hard]"
    );
}

#[test]
fn the_daemon_keeps_a_record() {
    let mut record = record_daemon_exit(NOW, &Ok(()));
    assert_eq!(record, "ts=1700000000 exit=ok reason=stop\n");
    record.push_str(&record_daemon_exit(NOW, &Err("crash".to_string())));
    record.push_str(&record_daemon_respawn(NOW, "mcp exited"));
    let health = read_daemon_health(&record).unwrap();
    assert_eq!((health.abnormal_exits, health.respawns), (1, 1));
    assert_eq!(health.last_exit.as_deref(), Some("ts=1700000000 exit=error reason=crash"));
    assert!(read_daemon_health("").is_none());
}

#[test]
fn small_files_are_read_back() {
    assert_eq!(current_port(Some(&write_runtime_port(9222))), Some(9222));
    assert_eq!(current_port(Some("70000")), None);
    assert_eq!(current_port(None), None);
    assert_eq!(pid_file_content(77), "77\n");
    assert_eq!(read_pid_file(Some("77\n")), Some(77));
    assert_eq!(read_pid_file(Some("x")), None);
    assert!(cleanup_stale_daemon_files(None, false));
    assert!(cleanup_stale_daemon_files(Some(1), false));
    assert!(!cleanup_stale_daemon_files(Some(1), true));
}

#[test]
fn clients_do_not_stop_the_daemon_by_failing() {
    assert!(matches!(run_daemon(DaemonEvent::Accepted), DaemonAction::Serve));
    assert!(matches!(run_daemon(DaemonEvent::NoClient), DaemonAction::Sleep));
    match run_daemon(DaemonEvent::AcceptFailed("x".to_string())) {
        DaemonAction::Log(line) => assert_eq!(line, "warning: failed to accept daemon client: x"),
        _ => panic!("not logged"),
    }
    assert!(matches!(run_daemon(DaemonEvent::ClientEnded(Ok(false))), DaemonAction::Continue));
    assert!(matches!(run_daemon(DaemonEvent::ClientEnded(Ok(true))), DaemonAction::Stop(None)));
    match run_daemon(DaemonEvent::ClientEnded(Err(DaemonError::Client("x".to_string())))) {
        DaemonAction::Log(line) => {
            assert_eq!(line, "warning: daemon client connection failed: x")
        }
        _ => panic!("not logged"),
    }
    match run_daemon(DaemonEvent::ClientEnded(Err(DaemonError::Fatal("x".to_string())))) {
        DaemonAction::Stop(Some(line)) => {
            assert_eq!(line, "error: daemon client fatal error: x")
        }
        _ => panic!("not stopped"),
    }
}

const PAGES: &str = r#"{"id":1,"result":{"structuredContent":{"pages":[{"id":1,"url":"about:blank"},{"id":2,"url":"https://a.test/","selected":true},{"url":"x"}]}}}"#;

#[test]
fn pages_are_read_from_responses() {
    let response = json(PAGES);
    assert_eq!(selected_page_id(&response), Some(2));
    assert_eq!(selected_page_id(&json("{}")), None);
    assert_eq!(response_page_ids(&response), vec![1, 2]);
    let entries = response_page_entries(&response);
    assert_eq!(entries.len(), 2);
    assert_eq!((entries[1].id, entries[1].url.as_str()), (2, "https://a.test/"));
    let marked = json(&rewrite_selected_page(PAGES, 1));
    assert_eq!(selected_page_id(&marked), Some(1));
    assert_eq!(rewrite_selected_page("nonsense", 1), "nonsense");
    assert_eq!(annotate_session_page(vec![PAGES.to_string()], None), vec![PAGES.to_string()]);
    let lines = annotate_session_page(vec!["first".to_string(), PAGES.to_string()], Some(1));
    assert_eq!(lines[0], "first");
    assert_eq!(lines[1], rewrite_selected_page(PAGES, 1));
}

#[test]
fn page_ids_are_hidden_from_clients() {
    assert!(is_page_scoped_tool("click"));
    assert!(!is_page_scoped_tool("select_page"));
    let listed = r#"{"result":{"tools":[{"name":"click","inputSchema":{"properties":{"pageId":{},"uid":{}},"required":["pageId","uid"]}},{"name":"select_page","inputSchema":{"properties":{"pageId":{}},"required":["pageId"]}}]}}"#;
    assert_eq!(
        json(&strip_page_id_schema(listed)).text(),
        json(r#"{"result":{"tools":[{"name":"click","inputSchema":{"properties":{"uid":{}},"required":["uid"]}},{"name":"select_page","inputSchema":{"properties":{"pageId":{}},"required":["pageId"]}}]}}"#)
            .text()
    );
    assert_eq!(strip_page_id_schema("nonsense"), "nonsense");
}

#[test]
fn refused_uploads_are_recognised() {
    let refused = r#"{"id":1,"result":{"isError":true,"content":[{"text":"could not accept the file directly and clicking it did not trigger a file chooser"}]}}"#;
    assert!(upload_file_needs_fallback(refused));
    assert!(!upload_file_needs_fallback(&refused.replace("true", "false")));
    assert!(!upload_file_needs_fallback(&refused.replace("directly", "at all")));
    assert!(!upload_file_needs_fallback("nonsense"));
    assert_eq!(
        upload_file_paths(&json(r#"{"path":"/b","filePath":"/a","files":["/d"],"filePaths":["/c",1]}"#)),
        vec!["/a", "/b", "/c", "/d"]
    );
    let answer = json(&upload_file_fallback_response(refused)[0]);
    assert_eq!(answer.get_u64("id"), Some(1));
    assert!(upload_file_fallback_response("{}").is_empty());
}

#[test]
fn uids_are_found_and_replaced() {
    let mut found = Vec::new();
    collect_text_uids("uid=1_a button, uid=1_b) uid= uid=1_a", &mut found);
    assert_eq!(found, vec!["1_a", "1_b"]);
    let mut named: Table<String> = Table::new();
    named.insert("1_a".to_string(), "T".to_string());
    assert_eq!(
        replace_text_uids("uid=1_a button, uid=1_b) uid=1_a", &named),
        "uid=T button, uid=1_b) uid=T"
    );
    let mut value = json(r#"{"a":[{"uid":"1_a","text":"see uid=1_a"}],"uid":{"uid":"1_a"}}"#);
    let mut found = Vec::new();
    collect_raw_uids(&value, &mut found);
    assert_eq!(found, vec!["1_a"]);
    // Keys are gone through in their order, and what the list holds stays in front.
    let unordered = Json::object()
        .with("z", Json::str("uid=1 uid=4"))
        .with("uid", Json::str("2"))
        .with("a", json(r#"[{"uid":"3"},"uid=1"]"#))
        .with("B", Json::str("uid=5"));
    let mut found = vec!["9".to_string(), "4".to_string(), "9".to_string()];
    collect_raw_uids(&unordered, &mut found);
    assert_eq!(found, vec!["9", "4", "9", "5", "3", "1", "2"]);
    let mut again = Vec::new();
    collect_raw_uids(&json(&unordered.text()), &mut again);
    assert_eq!(again, vec!["5", "3", "1", "2", "4"]);
    replace_raw_uids(&mut value, &named);
    assert_eq!(
        value.text(),
        json(r#"{"a":[{"uid":"T","text":"see uid=T"}],"uid":{"uid":"1_a"}}"#).text()
    );
}

#[test]
fn strings_are_ordered_by_their_characters() {
    let ascending = ["", "A", "Ab", "a", "ab", "b", "z", "\u{e9}", "\u{ffff}", "\u{10000}"];
    for (i, left) in ascending.iter().enumerate() {
        for (j, right) in ascending.iter().enumerate() {
            assert_eq!(comes_before(left, right), i < j);
            assert_eq!(left < right, i < j);
        }
    }
}

#[test]
fn tokens_stand_for_uids_in_both_directions() {
    let mut sessions = SessionRegistry::new();
    let id = sessions.create(NOW, 1).id;
    sessions.set_page(&id, 3, true, None, NOW).unwrap();
    let short = id.strip_prefix("sess-").unwrap().to_string();
    let line = rewrite_uid_response(
        r#"{"id":1,"result":{"text":"uid=3_a"}}"#,
        &mut sessions,
        &id,
        3,
        NOW,
    )
    .unwrap();
    let token = format!("u:{short}:2:3_a");
    assert_eq!(line, format!(r#"{{"id":1,"result":{{"text":"uid={token}"}}}}"#));
    assert_eq!(
        rewrite_uid_response("no uids", &mut sessions, &id, 3, NOW).unwrap(),
        "no uids"
    );
    let arguments = json(&format!(
        r#"{{"uid":"{token}","from_uid":"{token}","to_uid":"{token}","elements":[{{"uid":"{token}"}}],"args":["{token}",1],"other":"{token}"}}"#
    ));
    let plain = translate_uid_fields(arguments, &sessions, &id, 3).ok().unwrap();
    assert_eq!(
        plain.text(),
        json(&format!(
            r#"{{"uid":"3_a","from_uid":"3_a","to_uid":"3_a","elements":[{{"uid":"3_a"}}],"args":["3_a",1],"other":"{token}"}}"#
        ))
        .text()
    );
    for (uid, error) in [
        ("3_a", "session uid token is required"),
        ("u:x", "invalid session uid token"),
        ("u:other:2:3_a", "uid token belongs to another session"),
    ] {
        let refused =
            translate_uid_fields(json(&format!(r#"{{"uid":"{uid}"}}"#)), &sessions, &id, 3);
        assert_eq!(refused.err().unwrap(), error);
    }
    let arguments = json(&format!(r#"{{"uid":"{token}"}}"#));
    assert_eq!(
        translate_uid_fields(arguments, &sessions, &id, 4).err().unwrap(),
        "uid token belongs to another page"
    );
}

fn entry(id: u64, url: &str) -> PageEntry {
    PageEntry { id, url: url.to_string() }
}

fn cleanup(page_id: u64, url: Option<&str>) -> PageCleanup {
    PageCleanup { page_id, page_url: url.map(String::from) }
}

#[test]
fn pages_left_over_are_swept() {
    let entries =
        vec![entry(1, "about:blank"), entry(2, "https://a.test/"), entry(3, "https://b.test/")];
    let swept = close_respawned_daemon_pages(&vec![cleanup(2, Some("https://a.test/"))], &entries);
    assert_eq!(swept, vec![2]);
    // A page that has another number now is known by its address.
    let swept = close_respawned_daemon_pages(&vec![cleanup(9, Some("https://b.test/"))], &entries);
    assert_eq!(swept, vec![3]);
    let swept = close_respawned_daemon_pages(&vec![cleanup(9, Some("about:blank"))], &entries);
    assert!(swept.is_empty());
    let swept = close_respawned_daemon_pages(
        &vec![cleanup(1, None), cleanup(2, None), cleanup(3, None)],
        &entries,
    );
    assert_eq!(swept, vec![1, 2]);
    // An empty page is closed as the page of a session only, and no page is closed twice.
    let swept = close_respawned_daemon_pages(&vec![cleanup(1, Some("about:blank"))], &entries);
    assert_eq!(swept, vec![1]);
    let twins =
        vec![entry(1, "about:blank"), entry(2, "https://a.test/"), entry(3, "https://a.test/")];
    let left = vec![cleanup(2, Some("https://a.test/")), cleanup(9, Some("https://a.test/"))];
    assert_eq!(close_respawned_daemon_pages(&left, &twins), vec![2, 3]);
    assert!(close_daemon_pages(&vec![1, 2], 2));
    assert!(!close_daemon_pages(&vec![2], 2));
    assert!(!close_daemon_pages(&vec![1, 3], 2));
}

#[test]
fn attached_files_are_logged() {
    assert_eq!(
        log_upload_fallback("sess-1", 7, &Ok(())),
        "upload_file_fallback session=sess-1 page=7"
    );
    assert_eq!(
        log_upload_fallback("sess-1", 7, &Err("missing DevTools port".to_string())),
        "warning: upload_file_fallback_failed session=sess-1 page=7 error=missing DevTools port"
    );
}

#[test]
fn sessions_get_a_page_when_they_need_one() {
    let mut sessions = SessionRegistry::new();
    match ensure_session_page(&sessions, "a") {
        PageStep::Failed(error) => assert_eq!(error, "unknown session: a"),
        _ => panic!("there is no such session"),
    }
    let id = sessions.create(NOW, 1).id;
    assert!(matches!(ensure_session_page(&sessions, &id), PageStep::Allocate));
    assert_eq!(
        allocation_request().text(),
        json(r#"{"method":"tools/call","params":{"name":"new_page","arguments":{"background":true,"url":"about:blank"}}}"#)
            .text()
    );
    let before = vec!["A".to_string()];
    let after = vec!["A".to_string(), "B".to_string()];
    assert_eq!(
        allocate_session_page(&mut sessions, &id, &json("{}"), &before, Some(&after), NOW)
            .unwrap_err(),
        "failed to determine the allocated page id"
    );
    assert_eq!(
        allocate_session_page(&mut sessions, &id, &json(PAGES), &before, Some(&after), NOW)
            .unwrap(),
        2
    );
    assert_eq!(session_target_id(&sessions, &id).as_deref(), Some("B"));
    assert_eq!(session_page_url(&sessions, &id).as_deref(), Some("about:blank"));
    assert!(session_page_created_by_daemon(&sessions, &id));
    assert!(matches!(ensure_session_page(&sessions, &id), PageStep::Ready(2)));
}

#[test]
fn requests_are_routed_by_their_tool() {
    for (line, error) in [
        (
            r#"{"id":1,"method":"tools/call","params":{"name":"goto"}}"#,
            "native tool requires a bound session",
        ),
        (
            r#"{"id":1,"method":"tools/call","params":{"name":"click"}}"#,
            "page-scoped tool requires a bound session",
        ),
    ] {
        match route_request(None, line) {
            RouteStep::Failed(message) => assert_eq!(message, error),
            _ => panic!("{line} was routed"),
        }
        assert!(matches!(route_request(Some("a"), line), RouteStep::NeedPage { traced: true }));
    }
    for line in ["nonsense", r#"{"id":1,"method":"ping"}"#] {
        match route_request(None, line) {
            RouteStep::Forward { line: forwarded, plan: RoutePlan::Plain } => {
                assert_eq!(forwarded, line)
            }
            _ => panic!("{line} was not forwarded"),
        }
    }
    let line = r#"{"id":1,"method":"tools/call","params":{"name":"new_page","arguments":{"url":"u"}}}"#;
    match route_request(Some("a"), line) {
        RouteStep::Forward { line, plan: RoutePlan::NewPage { url } } => {
            assert_eq!(url.as_deref(), Some("u"));
            let arguments = json(&line);
            let arguments = arguments.get("params").unwrap().get("arguments").unwrap();
            assert_eq!(arguments.get_bool("background"), Some(true));
        }
        _ => panic!("not forwarded"),
    }
    let line = r#"{"id":1,"method":"tools/call","params":{"name":"close_page","arguments":{}}}"#;
    assert!(matches!(route_request(Some("a"), line), RouteStep::NeedPage { traced: false }));
    assert!(matches!(
        route_request(None, line),
        RouteStep::Forward { plan: RoutePlan::ClosePage { closed: None }, .. }
    ));
}

#[test]
fn calls_name_the_page_of_their_session() {
    let mut sessions = SessionRegistry::new();
    let id = sessions.create(NOW, 1).id;
    sessions.set_page(&id, 3, true, None, NOW).unwrap();
    let line = r#"{"id":1,"method":"tools/call","params":{"name":"navigate_page","arguments":{"url":"https://a.test/","pageId":8}}}"#;
    let plan = match route_on_page(&sessions, &id, 3, line) {
        RouteStep::Forward { line, plan } => {
            let arguments = json(&line);
            let arguments = arguments.get("params").unwrap().get("arguments").unwrap();
            assert_eq!(arguments.get_u64("pageId"), Some(3));
            plan
        }
        _ => panic!("not forwarded"),
    };
    let lines = vec![r#"{"id":1,"result":{}}"#.to_string()];
    assert!(upload_fallback(&plan, &lines).is_none());
    assert_eq!(
        finish_route(&mut sessions, Some(&id), plan, lines.clone(), false, NOW).unwrap(),
        lines
    );
    assert_eq!(session_page_url(&sessions, &id).as_deref(), Some("https://a.test/"));
    // A navigation that failed leaves the address as it was.
    let line = line.replace("a.test", "b.test");
    if let RouteStep::Forward { plan, .. } = route_on_page(&sessions, &id, 3, &line) {
        let failed = vec![r#"{"id":1,"result":{"isError":true}}"#.to_string()];
        finish_route(&mut sessions, Some(&id), plan, failed, false, NOW).unwrap();
    }
    assert_eq!(session_page_url(&sessions, &id).as_deref(), Some("https://a.test/"));
    // A tool of the daemon's own is not forwarded.
    let goto = r#"{"id":1,"method":"tools/call","params":{"name":"goto","arguments":{"url":"u"}}}"#;
    match route_on_page(&sessions, &id, 3, goto) {
        RouteStep::Native(call) => assert_eq!(call.name, "goto"),
        _ => panic!("not run"),
    }
    match route_on_page(&sessions, "other", 3, goto) {
        RouteStep::Failed(error) => assert_eq!(error, "failed to route native tool: goto"),
        _ => panic!("run"),
    }
    // A token that does not belong to the session never reaches the server.
    let click = r#"{"id":1,"method":"tools/call","params":{"name":"click","arguments":{"uid":"u:x:1:a"}}}"#;
    match route_on_page(&sessions, &id, 3, click) {
        RouteStep::Done(lines) => {
            assert!(lines[0].contains("uid token belongs to another session"))
        }
        _ => panic!("forwarded"),
    }
}

#[test]
fn closing_and_selecting_pages_moves_the_session() {
    let mut sessions = SessionRegistry::new();
    let id = sessions.create(NOW, 1).id;
    sessions.set_page(&id, 3, true, None, NOW).unwrap();
    let ok = vec![r#"{"id":1,"result":{}}"#.to_string()];
    let failed = vec![r#"{"id":1,"error":{}}"#.to_string()];
    let select = |requested| RoutePlan::SelectPage { requested };
    finish_route(&mut sessions, Some(&id), select(Some(5)), failed, false, NOW).unwrap();
    assert_eq!(session_page(&sessions, &id), Some(3));
    finish_route(&mut sessions, Some(&id), select(Some(5)), ok.clone(), false, NOW).unwrap();
    assert_eq!(session_page(&sessions, &id), Some(5));
    assert!(!session_page_created_by_daemon(&sessions, &id));
    let close = |closed| RoutePlan::ClosePage { closed };
    finish_route(&mut sessions, Some(&id), close(Some(3)), ok.clone(), false, NOW).unwrap();
    assert_eq!(session_page(&sessions, &id), Some(5));
    finish_route(&mut sessions, Some(&id), close(Some(5)), ok, false, NOW).unwrap();
    assert_eq!(session_page(&sessions, &id), None);
    let opened = RoutePlan::NewPage { url: Some("https://a.test/".to_string()) };
    finish_route(&mut sessions, Some(&id), opened, vec![PAGES.to_string()], false, NOW).unwrap();
    assert_eq!(session_page(&sessions, &id), Some(2));
    assert!(session_page_created_by_daemon(&sessions, &id));
}
