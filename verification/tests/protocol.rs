//! The browser's side: tabs, DevTools messages, the bytes on the wire, and the tools that
//! the daemon runs itself.
use chrome_devtools::cdp::{
    added_target, check_close_answer, check_navigation, close_target, connect_page_client,
    evaluate_request, evaluate_value, goto, goto_location, is_transient_navigation_error,
    list_page_targets, navigate_request, on_message, page_target_ids, resolve_unique_target_id,
    truth_expression, wait_connection, wait_for_js, CdpClient, CdpStep, GotoStep, PageRef,
    PageTarget, WaitStep,
};
use chrome_devtools::input::{
    allowed_input_path, allowed_output_path, check_absolute_input, check_absolute_output,
    check_fallback_files, click_selector,
    click_selector_expression, dispatch_click, dispatch_key, document_request,
    document_root_node_id, key_info, node_for_selector, query_file_input, query_request,
    screenshot_quiet, screenshot_request, screenshot_retry, set_file_input,
    set_file_input_expression, set_file_input_files, type_into, type_into_expression, FileSearch,
};
use chrome_devtools::json::Json;
use chrome_devtools::native::{
    answer_native, finish_native, inject_native_tool_defs, is_native_tool, native_page,
    native_tool_defs, native_tool_response, query_selector_expression, run_native_tool,
    try_native_tool, NativeOutcome, NativePlan,
};
use chrome_devtools::session::{session_page, session_page_url, session_target_id, SessionRegistry};
use chrome_devtools::wire::{
    check_http_status, check_websocket_status, devtools_answered, encode_frame, http_get,
    mask_bytes, to_ascii_lowercase, websocket_headers_end, websocket_request, write_ws_text,
    FrameState, FrameStep, HttpHead,
};

const NOW: i128 = 1_700_000_000_000_000_000;

fn json(text: &str) -> Json {
    Json::parse(text).unwrap()
}

fn tabs() -> Vec<PageTarget> {
    list_page_targets(
        r#"[
            {"type":"page","id":"A","url":"https://a.test/","webSocketDebuggerUrl":"ws://127.0.0.1:9222/devtools/page/A"},
            {"type":"iframe","id":"F","url":"https://a.test/","webSocketDebuggerUrl":"ws://127.0.0.1:9222/devtools/page/F"},
            {"type":"page","id":"B","url":"about:blank","webSocketDebuggerUrl":"ws://127.0.0.1:9222/devtools/page/B"},
            {"type":"page","id":"C","url":"about:blank","webSocketDebuggerUrl":"ws://127.0.0.1:9222/devtools/page/C"},
            {"type":"page","id":"D","url":"https://d.test/"},
            {"type":"page","url":"https://e.test/","webSocketDebuggerUrl":"ws://127.0.0.1:9222/devtools/page/E"}
        ]"#,
    )
    .unwrap()
}

fn page(target: Option<&str>, url: Option<&str>) -> PageRef {
    PageRef::new(target.map(String::from), url.map(String::from))
}

#[test]
fn tabs_are_read_from_the_browsers_list() {
    let all = tabs();
    assert_eq!(page_target_ids(&all), vec!["A", "B", "C"]);
    let paths: Vec<&str> = all.iter().map(|tab| tab.websocket_path.as_str()).collect();
    assert_eq!(
        paths,
        vec!["/devtools/page/A", "/devtools/page/B", "/devtools/page/C", "/devtools/page/E"]
    );
    assert!(list_page_targets("{}").err() == Some("/json response is not an array".to_string()));
    assert!(list_page_targets("nonsense").err().unwrap().starts_with("failed to parse /json response: "));
}

#[test]
fn a_session_is_only_connected_to_its_own_tab() {
    let all = tabs();
    let by_target = connect_page_client(&all, &page(Some("C"), Some("https://a.test/")));
    assert_eq!(by_target.ok().unwrap().websocket_path, "/devtools/page/C");
    let gone = connect_page_client(&all, &page(Some("Z"), Some("https://a.test/")));
    assert_eq!(gone.err().unwrap(), "session page target Z is gone; create a new session");
    let by_url = connect_page_client(&all, &page(None, Some("https://a.test/")));
    assert_eq!(by_url.ok().unwrap().id.as_deref(), Some("A"));
    let unnamed = connect_page_client(&all, &page(None, Some("https://e.test/")));
    assert_eq!(unnamed.ok().unwrap().websocket_path, "/devtools/page/E");
    let several = connect_page_client(&all, &page(None, Some("about:blank")));
    assert_eq!(
        several.err().unwrap(),
        "url about:blank matches multiple page targets; cannot pick the session tab"
    );
    let nowhere = connect_page_client(&all, &page(None, Some("https://x.test/")));
    assert_eq!(nowhere.err().unwrap(), "no page target for url https://x.test/");
    let nothing = connect_page_client(&all, &page(None, None));
    assert_eq!(nothing.err().unwrap(), "session has no page target");
}

#[test]
fn targets_are_resolved_only_where_they_are_unique() {
    let all = tabs();
    assert_eq!(resolve_unique_target_id(&all, "https://a.test/").as_deref(), Some("A"));
    assert_eq!(resolve_unique_target_id(&all, "about:blank"), None);
    assert_eq!(resolve_unique_target_id(&all, "https://e.test/"), None);
    assert_eq!(resolve_unique_target_id(&all, "https://x.test/"), None);
    let ids = |list: &[&str]| -> Vec<String> { list.iter().map(|id| id.to_string()).collect() };
    assert_eq!(added_target(&ids(&["A"]), &ids(&["A", "B"])).as_deref(), Some("B"));
    assert_eq!(added_target(&ids(&["A"]), &ids(&["A", "B", "C"])), None);
    assert_eq!(added_target(&ids(&["A"]), &ids(&["A"])), None);
}

#[test]
fn tabs_are_closed_by_their_target() {
    let all = tabs();
    assert_eq!(close_target(&all, "B").unwrap(), "/json/close/B");
    assert_eq!(close_target(&all, "Z").unwrap_err(), "page target Z is already gone");
    assert!(check_close_answer("Target is closing").is_ok());
    assert!(check_close_answer(" \n").is_ok());
    assert_eq!(
        check_close_answer("No such target\n").unwrap_err(),
        "unexpected /json/close response: No such target"
    );
}

#[test]
fn calls_are_numbered_and_answered() {
    let mut client = CdpClient::new();
    let (first, message) = client.call(navigate_request("https://a.test/"));
    assert_eq!(first, 1);
    assert_eq!(
        message,
        json(r#"{"id":1,"method":"Page.navigate","params":{"url":"https://a.test/"}}"#).text()
    );
    let (second, message) = client.call(evaluate_request("1 + 1"));
    assert_eq!(second, 2);
    assert_eq!(
        message,
        json(r#"{"id":2,"method":"Runtime.evaluate","params":{"expression":"1 + 1","returnByValue":true}}"#)
            .text()
    );
    assert!(matches!(on_message(r#"{"method":"Page.loadEventFired"}"#, 2), CdpStep::More));
    assert!(matches!(on_message(r#"{"id":1,"result":{}}"#, 2), CdpStep::More));
    match on_message(r#"{"id":2,"result":{"result":{"value":2}}}"#, 2) {
        CdpStep::Done(answer) => assert_eq!(evaluate_value(&answer).unwrap().as_u64(), Some(2)),
        _ => panic!("not answered"),
    }
    match on_message(r#"{"id":2,"error":{"code":-1}}"#, 2) {
        CdpStep::Failed(error) => assert_eq!(error, r#"CDP call failed: {"code":-1}"#),
        _ => panic!("not refused"),
    }
    match on_message("garbled", 2) {
        CdpStep::Failed(error) => assert!(error.starts_with("failed to parse CDP response: ")),
        _ => panic!("not refused"),
    }
}

#[test]
fn what_a_page_throws_is_an_error() {
    assert_eq!(
        evaluate_value(&json(
            r#"{"result":{"exceptionDetails":{"text":"Uncaught","exception":{"description":"Error: no"}}}}"#
        ))
        .err()
        .unwrap(),
        "expression threw: Error: no"
    );
    assert_eq!(
        evaluate_value(&json(r#"{"result":{"exceptionDetails":{"text":"Uncaught"}}}"#)).err().unwrap(),
        "expression threw: Uncaught"
    );
    assert_eq!(
        evaluate_value(&json(r#"{"result":{"exceptionDetails":{}}}"#)).err().unwrap(),
        "expression threw: unknown evaluation error"
    );
    assert_eq!(
        evaluate_value(&json("{}")).err().unwrap(),
        "Runtime.evaluate returned no result"
    );
    assert!(evaluate_value(&json(r#"{"result":{}}"#)).unwrap().is_null());
}

#[test]
fn navigation_waits_for_the_page() {
    assert_eq!(truth_expression("x > 1"), "!!(x > 1)");
    assert!(check_navigation(&json(r#"{"result":{"frameId":"1"}}"#)).is_ok());
    assert!(check_navigation(&json(r#"{"result":{"errorText":""}}"#)).is_ok());
    assert_eq!(
        check_navigation(&json(r#"{"result":{"errorText":"net::ERR"}}"#)).unwrap_err(),
        "Page.navigate failed: net::ERR"
    );
    assert!(is_transient_navigation_error("CDP: Execution context was destroyed."));
    assert!(!is_transient_navigation_error("CDP: closed"));

    assert!(matches!(goto(Ok(Json::Bool(true)), 300, "x", false), GotoStep::AskLocation));
    assert!(matches!(goto(Ok(Json::Bool(false)), 300, "x", false), GotoStep::Sleep));
    let transient = "Execution context was destroyed".to_string();
    assert!(matches!(goto(Err(transient.clone()), 300, "x", false), GotoStep::Sleep));
    match goto(Ok(Json::Bool(false)), 300, "x", true) {
        GotoStep::Failed(error) => {
            assert_eq!(error, "goto timed out after 300ms while waiting for x")
        }
        _ => panic!("not over"),
    }
    match goto(Err("closed".to_string()), 300, "x", true) {
        GotoStep::Failed(error) => {
            assert_eq!(error, "goto timed out after 300ms while waiting for x: closed")
        }
        _ => panic!("not over"),
    }
    match goto(Err("expression threw: no".to_string()), 300, "x", false) {
        GotoStep::Failed(error) => assert_eq!(error, "expression threw: no"),
        _ => panic!("not over"),
    }

    match goto_location(Ok(Json::str("https://b.test/")), "https://a.test/", 300, "x", false) {
        GotoStep::Arrived(url) => assert_eq!(url, "https://b.test/"),
        _ => panic!("not there"),
    }
    match goto_location(Ok(Json::Null), "https://a.test/", 300, "x", false) {
        GotoStep::Arrived(url) => assert_eq!(url, "https://a.test/"),
        _ => panic!("not there"),
    }
    assert!(matches!(
        goto_location(Err(transient), "https://a.test/", 300, "x", false),
        GotoStep::Sleep
    ));
    assert!(matches!(
        goto_location(Err("closed".to_string()), "https://a.test/", 300, "x", false),
        GotoStep::Failed(_)
    ));
}

#[test]
fn waiting_ends_when_the_time_is_up() {
    assert!(matches!(wait_connection(Ok(()), 300, "x", true), WaitStep::Look));
    assert!(matches!(
        wait_connection(Err("refused".to_string()), 300, "x", false),
        WaitStep::Sleep { reconnect: true }
    ));
    match wait_connection(Err("refused".to_string()), 300, "x", true) {
        WaitStep::Failed(error) => assert_eq!(
            error,
            "wait_for_js timed out after 300ms (page not reachable: refused): x"
        ),
        _ => panic!("not over"),
    }
    assert!(matches!(wait_for_js(Ok(Json::Bool(true)), 300, "x", true), WaitStep::Done));
    assert!(matches!(
        wait_for_js(Ok(Json::Bool(false)), 300, "x", false),
        WaitStep::Sleep { reconnect: false }
    ));
    assert!(matches!(
        wait_for_js(Err("closed".to_string()), 300, "x", false),
        WaitStep::Sleep { reconnect: true }
    ));
    match wait_for_js(Ok(Json::str("yes")), 300, "x", true) {
        WaitStep::Failed(error) => assert_eq!(error, "wait_for_js timed out after 300ms: x"),
        _ => panic!("not over"),
    }
    match wait_for_js(Err("expression threw: no".to_string()), 300, "x", false) {
        WaitStep::Failed(error) => assert_eq!(error, "expression threw: no"),
        _ => panic!("not over"),
    }
}

#[test]
fn http_requests_and_answers() {
    assert_eq!(
        http_get(9222, "/json"),
        "GET /json HTTP/1.1\r\nHost: 127.0.0.1:9222\r\nConnection: close\r\n\r\n"
    );
    assert!(check_http_status("HTTP/1.1 200 OK\r\n").is_ok());
    assert!(check_http_status("HTTP/1.0 200 OK\r\n").is_ok());
    assert_eq!(
        check_http_status("HTTP/1.1 404 Not Found\r\n").unwrap_err(),
        "DevTools HTTP returned HTTP/1.1 404 Not Found"
    );
    let mut head = HttpHead::new();
    assert!(!head.on_line("Content-Type: text/plain\r\n"));
    assert_eq!(head.content_length, None);
    assert!(!head.on_line("Content-LENGTH:  18 \r\n"));
    assert_eq!(head.content_length, Some(18));
    assert!(!head.on_line("content-length: many\r\n"));
    assert!(head.on_line("\r\n"));
    assert_eq!(head.content_length, Some(18));
    assert_eq!(to_ascii_lowercase("Content-Length: É"), "content-length: É");
    assert!(devtools_answered("HTTP/1.1 200 OK\r\n\r\n"));
    assert!(!devtools_answered("HTTP/1.1 500 Oh\r\n\r\n"));
}

#[test]
fn websockets_are_opened_by_a_handshake() {
    let request = websocket_request(9222, "/devtools/page/A");
    assert!(request.starts_with("GET /devtools/page/A HTTP/1.1\r\nHost: 127.0.0.1:9222\r\nUpgrade: websocket\r\nConnection: Upgrade\r\nSec-WebSocket-Key: "));
    assert!(request.ends_with("\r\nSec-WebSocket-Version: 13\r\n\r\n"));
    assert!(check_websocket_status("HTTP/1.1 101 Switching Protocols\r\n").is_ok());
    assert_eq!(
        check_websocket_status("HTTP/1.1 403 Forbidden\r\n").unwrap_err(),
        "DevTools WebSocket handshake returned HTTP/1.1 403 Forbidden"
    );
    assert!(websocket_headers_end("\r\n"));
    assert!(websocket_headers_end(""));
    assert!(!websocket_headers_end("Upgrade: websocket\r\n"));
}

/// Reads one frame off some bytes.
fn read_frame(bytes: &[u8]) -> Result<Vec<u8>, String> {
    let mut rest = bytes;
    let mut state = FrameState::Head;
    loop {
        let (now, later) = rest.split_at(state.count() as usize);
        rest = later;
        match state.read_ws_text(now.to_vec()) {
            FrameStep::More(next) => state = next,
            FrameStep::Text(text) => {
                assert!(rest.is_empty());
                return Ok(text);
            }
            FrameStep::Failed(error) => return Err(error),
        }
    }
}

#[test]
fn frames_are_masked_and_read_back() {
    assert_eq!(
        write_ws_text("Hi"),
        vec![0x81, 0x82, 0x12, 0x34, 0x56, 0x78, b'H' ^ 0x12, b'i' ^ 0x34]
    );
    for length in [0, 1, 125, 126, 127, 65535, 65536, 70000] {
        let text = "x".repeat(length);
        let frame = encode_frame(text.as_bytes());
        let head = match length {
            0..=125 => 2 + 4,
            126..=65535 => 4 + 4,
            _ => 10 + 4,
        };
        assert_eq!(frame.len(), head + length);
        assert_eq!(read_frame(&frame).unwrap(), text.as_bytes());
    }
    let mask = vec![1, 2, 3, 4];
    let once = mask_bytes(b"masked", &mask);
    assert_eq!(once, vec![b'm' ^ 1, b'a' ^ 2, b's' ^ 3, b'k' ^ 4, b'e' ^ 1, b'd' ^ 2]);
    assert_eq!(mask_bytes(&once, &mask), b"masked".to_vec());
}

#[test]
fn frames_of_the_browser_are_read() {
    assert_eq!(read_frame(&[0x81, 2, b'o', b'k']).unwrap(), b"ok".to_vec());
    let mut long = vec![0x81, 126, 1, 0];
    long.extend(vec![b'y'; 256]);
    assert_eq!(read_frame(&long).unwrap(), vec![b'y'; 256]);
    assert_eq!(read_frame(&[0x88, 0]).unwrap_err(), "CDP WebSocket closed");
    assert_eq!(read_frame(&[0x89, 0]).unwrap_err(), "unexpected CDP WebSocket opcode 9");
}

#[test]
fn screenshots_are_asked_for_and_decoded() {
    assert_eq!(
        screenshot_request("png", Some(50)).text(),
        json(r#"{"method":"Page.captureScreenshot","params":{"captureBeyondViewport":false,"format":"png","fromSurface":true}}"#)
            .text()
    );
    assert_eq!(
        screenshot_request("jpeg", Some(150)).text(),
        json(r#"{"method":"Page.captureScreenshot","params":{"captureBeyondViewport":false,"format":"jpeg","fromSurface":true,"quality":100}}"#)
            .text()
    );
    assert_eq!(
        screenshot_quiet(&json(r#"{"result":{"data":"aGVsbG8="}}"#)).unwrap(),
        b"hello".to_vec()
    );
    assert_eq!(
        screenshot_quiet(&json(r#"{"result":{}}"#)).unwrap_err(),
        "Page.captureScreenshot returned no data"
    );
    assert!(screenshot_quiet(&json(r#"{"result":{"data":"a!"}}"#))
        .unwrap_err()
        .starts_with("invalid screenshot base64: "));
    assert!(screenshot_retry("failed to read CDP WebSocket frame: x", true));
    assert!(screenshot_retry("failed to connect DevTools HTTP: x", true));
    assert!(!screenshot_retry("failed to read CDP WebSocket frame: x", false));
    assert!(!screenshot_retry("no page target for url x", true));
}

#[test]
fn clicks_are_pressed_and_released() {
    let (down, up) = dispatch_click(&json("10.5"), &json("20.5"));
    assert_eq!(
        down.text(),
        json(r#"{"method":"Input.dispatchMouseEvent","params":{"type":"mousePressed","x":10.5,"y":20.5,"button":"left","clickCount":1}}"#)
            .text()
    );
    assert_eq!(up.get("params").unwrap().get_str("type"), Some("mouseReleased"));
    assert!(click_selector_expression("#a\"b").contains(r##"document.querySelector("#a\"b")"##));
    let (x, y) = click_selector(&json(r#"{"x":1.5,"y":2.5}"#), "#a").ok().unwrap();
    assert_eq!((x.text(), y.text()), ("1.5".to_string(), "2.5".to_string()));
    let (x, y) = click_selector(&json(r#"{"x":10,"y":-3}"#), "#a").ok().unwrap();
    assert_eq!((x.text(), y.text()), ("10.0".to_string(), "-3.0".to_string()));
    assert_eq!(click_selector(&Json::Null, "#a").err().unwrap(), "no element matches selector: #a");
    assert_eq!(click_selector(&json(r#"{"y":1}"#), "#a").err().unwrap(), "selector center has no x");
    assert_eq!(click_selector(&json(r#"{"x":1}"#), "#a").err().unwrap(), "selector center has no y");
}

#[test]
fn coordinates_are_floating_point_numbers() {
    match plan("click_at", r#"{"x":10,"y":20.5}"#) {
        Ok(NativePlan::ClickAt { x, y }) => {
            assert_eq!((x.text(), y.text()), ("10.0".to_string(), "20.5".to_string()));
            let (down, up) = dispatch_click(&x, &y);
            assert_eq!(
                down.text(),
                json(r#"{"method":"Input.dispatchMouseEvent","params":{"type":"mousePressed","x":10.0,"y":20.5,"button":"left","clickCount":1}}"#)
                    .text()
            );
            assert_eq!(up.get("params").unwrap().get("x").unwrap().text(), "10.0");
        }
        _ => panic!("no click was planned"),
    }
    assert_eq!(json("0").as_float().unwrap().text(), "0.0");
    assert_eq!(json("1.25").as_float().unwrap().text(), "1.25");
    assert_eq!(json("9007199254740993").as_float().unwrap().text(), "9007199254740992.0");
    assert!(json("\"1\"").as_float().is_none());
    assert!(Json::Null.as_float().is_none());
}

#[test]
fn keys_have_codes() {
    let info = |code: &str, number: i64, text: Option<&str>| {
        (code.to_string(), number, text.map(String::from))
    };
    assert_eq!(key_info("Enter"), info("Enter", 13, Some("\r")));
    assert_eq!(key_info("Escape"), info("Escape", 27, None));
    assert_eq!(key_info("Space"), info("Space", 32, Some(" ")));
    assert_eq!(key_info("a"), info("KeyA", 65, Some("a")));
    assert_eq!(key_info("7"), info("Digit7", 55, Some("7")));
    assert_eq!(key_info("é"), info("", 233, Some("é")));
    assert_eq!(key_info("F5"), info("F5", 0, None));
    let (down, up) = dispatch_key("a", 2);
    assert_eq!(
        down.text(),
        json(r#"{"method":"Input.dispatchKeyEvent","params":{"type":"keyDown","key":"a","code":"KeyA","windowsVirtualKeyCode":65,"nativeVirtualKeyCode":65,"modifiers":2,"text":"a","unmodifiedText":"a"}}"#)
            .text()
    );
    assert_eq!(up.get("params").unwrap().get_str("type"), Some("keyUp"));
    let (down, _) = dispatch_key("Tab", 0);
    assert_eq!(down.get("params").unwrap().get_str("type"), Some("rawKeyDown"));
    assert!(down.get("params").unwrap().get("text").is_none());
}

#[test]
fn text_is_typed_into_a_focused_element() {
    assert!(type_into_expression("#a").contains("document.activeElement === el"));
    let plain = type_into(&Json::Bool(true), "#a", "hello", false).ok().unwrap();
    assert_eq!(plain.len(), 1);
    assert_eq!(
        plain[0].text(),
        json(r#"{"method":"Input.insertText","params":{"text":"hello"}}"#).text()
    );
    let cleared = type_into(&Json::Bool(true), "#a", "hello", true).ok().unwrap();
    let keys: Vec<&str> = cleared[..4]
        .iter()
        .map(|request| request.get("params").unwrap().get_str("key").unwrap())
        .collect();
    assert_eq!(keys, vec!["a", "a", "Delete", "Delete"]);
    assert_eq!(cleared.len(), 5);
    assert_eq!(
        type_into(&Json::Bool(false), "#a", "hello", true).err().unwrap(),
        "could not focus selector: #a"
    );
}

#[test]
fn files_are_attached_to_the_right_element() {
    assert!(set_file_input_expression("#f").contains("'not-file'"));
    assert!(set_file_input(&Json::str("ok"), "#f").is_ok());
    assert_eq!(
        set_file_input(&Json::str("missing"), "#f").unwrap_err(),
        "no element matches selector: #f"
    );
    assert_eq!(
        set_file_input(&Json::str("not-file"), "#f").unwrap_err(),
        "selector is not an input[type=file]: #f"
    );
    assert_eq!(document_request().get_str("method"), Some("DOM.getDocument"));
    assert_eq!(document_root_node_id(&json(r#"{"result":{"root":{"nodeId":3}}}"#)).unwrap(), 3);
    assert_eq!(
        document_root_node_id(&json("{}")).unwrap_err(),
        "DOM.getDocument did not return root nodeId"
    );
    assert_eq!(
        query_request(3, "#f").text(),
        json(r##"{"method":"DOM.querySelector","params":{"nodeId":3,"selector":"#f"}}"##).text()
    );
    assert_eq!(node_for_selector(&json(r#"{"result":{"nodeId":7}}"#), "#f").unwrap(), 7);
    assert_eq!(
        node_for_selector(&json(r#"{"result":{"nodeId":0}}"#), "#f").unwrap_err(),
        "DOM.querySelector found no node for #f"
    );
    assert_eq!(
        set_file_input_files(7, &vec!["/tmp/a".to_string()]).text(),
        json(r#"{"method":"DOM.setFileInputFiles","params":{"files":["/tmp/a"],"nodeId":7}}"#).text()
    );
    assert_eq!(
        check_fallback_files(&Vec::new()).unwrap_err(),
        "upload_file fallback requires at least one file"
    );

    let nothing = json(r#"{"result":{"nodeId":0}}"#);
    let tries: Vec<String> = (0..3)
        .map(|tried| match query_file_input(tried, Some(&nothing)) {
            FileSearch::Try(selector) => selector,
            _ => panic!("the search is over"),
        })
        .collect();
    assert_eq!(tries, vec!["form input[type=file]", "input[type=file]", "input[type=\"file\"]"]);
    assert!(matches!(query_file_input(3, Some(&nothing)), FileSearch::Failed(_)));
    assert!(matches!(
        query_file_input(1, Some(&json(r#"{"result":{"nodeId":7}}"#))),
        FileSearch::Found(7)
    ));
}

#[test]
fn allowed_input_path_requires_an_existing_file_under_home_or_temp() {
    let roots = vec!["/tmp".to_string(), "/home/agent".to_string()];
    assert!(check_absolute_input("/tmp/cdt-input-1/resume.pdf").is_ok());
    assert!(allowed_input_path("/tmp/cdt-input-1/resume.pdf", true, &roots).is_ok());
    assert_eq!(
        check_absolute_input("resume.pdf").unwrap_err(),
        "file path must be absolute: resume.pdf"
    );
    assert!(allowed_input_path("resume.pdf", true, &roots).is_err());
    assert_eq!(
        allowed_input_path("/tmp/cdt-input-1", false, &roots).unwrap_err(),
        "not a file: /tmp/cdt-input-1"
    );
    assert!(allowed_input_path("/etc/hosts", true, &roots).is_err());
    assert!(allowed_input_path("/tmpx/resume.pdf", true, &roots).is_err());
    assert!(check_absolute_output("/home/agent/shots/a.png").is_ok());
    for relative in ["a.png", "", "~/a.png", "./a.png"] {
        assert_eq!(
            check_absolute_output(relative).unwrap_err(),
            "screenshot_quiet filePath must be absolute"
        );
    }
    assert!(allowed_output_path("/home/agent/shots", &roots).is_ok());
    assert_eq!(
        allowed_output_path("/etc", &roots).unwrap_err(),
        "screenshot_quiet filePath must be under HOME or the OS temp directory"
    );
}

fn plan(name: &str, arguments: &str) -> Result<NativePlan, String> {
    run_native_tool(Some(9222), Some("A"), name, &json(arguments))
}

#[test]
fn native_tools_check_their_arguments() {
    assert!(is_native_tool("goto"));
    assert!(!is_native_tool("click"));
    assert_eq!(
        run_native_tool(None, None, "goto", &json("{}")).err().unwrap(),
        "missing DevTools port"
    );
    for (name, arguments, error) in [
        ("goto", "{}", "goto requires 'url'"),
        (
            "goto",
            r#"{"url":"u","waitSelector":"s","waitExpression":"e"}"#,
            "goto accepts only one of waitSelector or waitExpression",
        ),
        ("screenshot_quiet", "{}", "screenshot_quiet requires 'filePath'"),
        (
            "screenshot_quiet",
            r#"{"filePath":"/tmp/a","format":"gif"}"#,
            "screenshot_quiet format must be png, jpeg, or webp",
        ),
        ("wait_for_js", "{}", "wait_for_js requires 'expression' or 'selector'"),
        ("click_at", r#"{"y":1}"#, "click_at requires numeric 'x'"),
        ("click_at", r#"{"x":1,"y":"1"}"#, "click_at requires numeric 'y'"),
        ("click_selector", "{}", "click_selector requires 'selector'"),
        ("dispatch_key", "{}", "dispatch_key requires 'key'"),
        ("set_file_input", "{}", "set_file_input requires 'selector'"),
        (
            "set_file_input",
            r#"{"selector":"s","filePaths":[]}"#,
            "set_file_input requires a non-empty 'filePaths' array",
        ),
        ("type_into", "{}", "type_into requires 'selector'"),
        ("type_into", r#"{"selector":"s"}"#, "type_into requires 'text'"),
        ("other", "{}", "unknown native tool: other"),
    ] {
        assert_eq!(plan(name, arguments).err().unwrap(), error);
    }
    assert_eq!(
        run_native_tool(Some(9222), None, "close_page_quiet", &json("{}")).err().unwrap(),
        "close_page_quiet requires a session page"
    );
}

#[test]
fn native_tools_have_defaults_and_limits() {
    match plan("goto", r#"{"url":"u"}"#).ok().unwrap() {
        NativePlan::Goto { url, wait_expression, timeout, interval } => {
            assert_eq!(url, "u");
            assert_eq!(wait_expression, "document.readyState === 'complete'");
            assert_eq!((timeout, interval), (30_000, 250));
        }
        _ => panic!("not a navigation"),
    }
    match plan("goto", r##"{"url":"u","waitSelector":"#a","timeout":1,"interval":99999}"##).ok().unwrap() {
        NativePlan::Goto { wait_expression, timeout, interval, .. } => {
            assert_eq!(wait_expression, r##"document.querySelector("#a")"##);
            assert_eq!((timeout, interval), (100, 10_000));
        }
        _ => panic!("not a navigation"),
    }
    match plan("wait_for_js", r#"{"expression":"e","selector":"s","timeout":999999}"#).ok().unwrap() {
        NativePlan::WaitForJs { expression, timeout, interval } => {
            assert_eq!(expression, "e");
            assert_eq!((timeout, interval), (120_000, 500));
        }
        _ => panic!("not a wait"),
    }
    match plan("screenshot_quiet", r#"{"filePath":"/tmp/a"}"#).ok().unwrap() {
        NativePlan::Screenshot { file_path, format, quality } => {
            assert_eq!((file_path.as_str(), format.as_str(), quality), ("/tmp/a", "png", None));
        }
        _ => panic!("not a screenshot"),
    }
    match plan("set_file_input", r#"{"selector":"s","filePaths":["/a",1,"/b"]}"#).ok().unwrap() {
        NativePlan::SetFileInput { files, .. } => assert_eq!(files, vec!["/a", "/b"]),
        _ => panic!("not an upload"),
    }
    match plan("type_into", r#"{"selector":"s","text":"t","clear":true}"#).ok().unwrap() {
        NativePlan::TypeInto { clear, .. } => assert!(clear),
        _ => panic!("not typing"),
    }
    assert!(matches!(
        plan("close_page_quiet", "{}").ok().unwrap(),
        NativePlan::ClosePage { target_id } if target_id == "A"
    ));
    assert_eq!(query_selector_expression("a"), r#"document.querySelector("a")"#);
}

fn session_with_page() -> (SessionRegistry, String) {
    let mut sessions = SessionRegistry::new();
    let id = sessions.create(NOW, 7).id;
    sessions.set_page(&id, 4, true, Some("https://a.test/".to_string()), NOW).unwrap();
    (sessions, id)
}

#[test]
fn native_tools_answer_with_what_they_did() {
    let (mut sessions, id) = session_with_page();
    let outcome =
        NativeOutcome::Navigated { url: "https://b.test/".to_string(), millis: 12 };
    assert_eq!(
        finish_native(&mut sessions, &id, &outcome, NOW),
        "navigated to https://b.test/; condition became truthy after 12ms"
    );
    assert_eq!(session_page_url(&sessions, &id).as_deref(), Some("https://b.test/"));
    for (outcome, said) in [
        (NativeOutcome::Saved { path: "/tmp/a".to_string() }, "saved screenshot to /tmp/a"),
        (NativeOutcome::Waited { millis: 5 }, "condition became truthy after 5ms"),
        (
            NativeOutcome::ClickedAt { x: "1".to_string(), y: "2.5".to_string() },
            "clicked at (1, 2.5)",
        ),
        (
            NativeOutcome::ClickedSelector {
                selector: "#a".to_string(),
                x: "1".to_string(),
                y: "2".to_string(),
            },
            "clicked #a at (1, 2)",
        ),
        (NativeOutcome::Dispatched { key: "Tab".to_string() }, "dispatched key Tab"),
        (
            NativeOutcome::Attached { count: 2, selector: "#f".to_string() },
            "attached 2 file(s) to #f",
        ),
        (
            NativeOutcome::Typed { text: "née".to_string(), selector: "#a".to_string() },
            "typed 3 char(s) into #a",
        ),
    ] {
        assert_eq!(finish_native(&mut sessions, &id, &outcome, NOW), said);
    }
    assert_eq!(session_page(&sessions, &id), Some(4));
    let closed = NativeOutcome::Closed { target_id: "A".to_string() };
    assert_eq!(finish_native(&mut sessions, &id, &closed, NOW), "closed page target A");
    assert_eq!(session_page(&sessions, &id), None);
}

#[test]
fn native_calls_are_recognised_and_answered() {
    let (mut sessions, id) = session_with_page();
    let line = r#"{"jsonrpc":"2.0","id":"x","method":"tools/call","params":{"name":"dispatch_key","arguments":{"key":"Tab"}}}"#;
    assert!(try_native_tool(&sessions, None, line).is_none());
    assert!(try_native_tool(&sessions, Some("sess-other"), line).is_none());
    assert!(try_native_tool(&sessions, Some(&id), "nonsense").is_none());
    let call = try_native_tool(&sessions, Some(&id), line).unwrap();
    assert_eq!(call.name, "dispatch_key");
    assert_eq!(call.arguments.get_str("key"), Some("Tab"));

    let found = native_page(&mut sessions, &id, &call, Some(&tabs()));
    assert_eq!(found.target_id.as_deref(), Some("A"));
    assert_eq!(session_target_id(&sessions, &id).as_deref(), Some("A"));

    assert_eq!(
        answer_native(call, Err("gone".to_string())),
        native_tool_response(Json::str("x"), "dispatch_key failed: gone", true)
    );
    assert_eq!(
        native_tool_response(Json::uint(1), "done", false),
        vec![json(r#"{"jsonrpc":"2.0","id":1,"result":{"content":[{"type":"text","text":"done"}]}}"#).text()]
    );
}

#[test]
fn native_tools_are_listed() {
    let defs = native_tool_defs();
    let names: Vec<&str> = defs.iter().map(|tool| tool.get_str("name").unwrap()).collect();
    assert_eq!(
        names,
        vec![
            "goto",
            "screenshot_quiet",
            "wait_for_js",
            "click_at",
            "click_selector",
            "dispatch_key",
            "set_file_input",
            "close_page_quiet",
            "type_into",
        ]
    );
    assert!(names.iter().all(|name| is_native_tool(name)));
    let listed = json(&inject_native_tool_defs(r#"{"id":1,"result":{"tools":[{"name":"click"}]}}"#));
    assert_eq!(listed.get("result").unwrap().get_array("tools").unwrap().len(), 10);
    assert_eq!(inject_native_tool_defs(r#"{"id":1}"#), r#"{"id":1}"#);
}
