//! The daemon as its clients see it, in front of an MCP server and a browser that are
//! played by the tests.
use chrome_devtools::batch::{run_batch, BatchAction, BatchRun};
use chrome_devtools::cdp::{
    connect_page_client, evaluate_request, evaluate_value, list_page_targets, on_message,
    page_target_ids, truth_expression, wait_connection, wait_for_js, CdpClient, CdpStep, PageRef,
    PageTarget, WaitStep,
};
use chrome_devtools::chrome::{daemon_mcp_command, stop_profile, McpSettings};
use chrome_devtools::cli::{dispatch, run, Command, Start, Verb};
use chrome_devtools::client::{
    bind_request, bind_session, close_session, close_session_command, create_session,
    create_session_command, is_daemon_ready, list_mcp_tools_via_daemon, list_sessions,
    print_daemon_status, send_daemon_control, stop_command, stop_daemon, tools_request,
};
use chrome_devtools::config::{parse_config, Config, Profile};
use chrome_devtools::control::{
    handle_control_command, handle_daemon_client, BoundSessionGuard, ClientStep, ControlOutcome,
    DaemonStatus,
};
use chrome_devtools::daemon::{
    current_port, read_daemon_health, record_daemon_exit, record_daemon_respawn,
    write_runtime_port,
};
use chrome_devtools::diagnostics::{record_control_latency, record_forward_diagnostic};
use chrome_devtools::input::{
    check_fallback_files, click_selector, click_selector_expression, dispatch_click, dispatch_key,
    document_request, document_root_node_id, query_file_input, query_request,
    set_file_input_files, FileSearch,
};
use chrome_devtools::json::Json;
use chrome_devtools::mcp::{
    begin_call, begin_forward, call_event, read_response, CallStep, ForwardStart, ForwardStep,
    LineReader, ReadEvent, ResponseStep,
};
use chrome_devtools::native::{
    answer_native, finish_native, native_page, run_native_tool, try_native_tool,
    NativeCall, NativeOutcome, NativePlan,
};
use chrome_devtools::pages::{response_page_entries, response_page_ids};
use chrome_devtools::queue::{
    elapsed, forward_timing, RouterHandle, RouterTurn, TurnAction, TurnEvent,
};
use chrome_devtools::router::{
    allocate_session_page, allocation_request, close_daemon_pages, close_page_request,
    close_respawned_daemon_pages, ensure_session_page, finish_route, list_pages_request,
    probe_mcp_runtime, route_on_page, route_request, upload_fallback, PageStep, RouteStep,
};
use chrome_devtools::session::{
    daemon_page_cleanups, session_page_url, session_target_id, PageCleanup, SessionRegistry,
};
use chrome_devtools::timing::{
    control_warn_latency, diagnostic_window, forward_warn_latency, mcp_request_timeout,
    session_idle_ttl,
};
use serde_json::Value;
use std::collections::HashMap;

const HOME: &str = "/home/agent";
const SOCKET: &str = "/home/agent/.cache/chrome-devtools/daemons/default.sock";
const VERSION: &str = "0.5.0";
const PID: u32 = 4321;
const SECOND: i128 = 1_000_000_000;

fn value(text: &str) -> Value {
    serde_json::from_str(text).unwrap()
}

/// How the server treats the tool that it is to hang on.
#[derive(Clone, Copy, PartialEq)]
enum Hang {
    /// It never answers anything again.
    Forever,
    /// It answers once the next message has arrived.
    Once,
}

struct FakeMcp {
    pages: Vec<(u64, String)>,
    selected: u64,
    next_page: u64,
    hang: Option<(String, Hang)>,
    stuck: bool,
    late: Vec<String>,
}

impl FakeMcp {
    fn new() -> Self {
        FakeMcp {
            pages: vec![(1, "about:blank".to_string())],
            selected: 1,
            next_page: 2,
            hang: None,
            stuck: false,
            late: Vec::new(),
        }
    }

    fn page_list(&self) -> String {
        let pages: Vec<String> = self
            .pages
            .iter()
            .map(|(id, url)| {
                format!(
                    r#"{{"id":{id},"url":"{url}","selected":{}}}"#,
                    *id == self.selected
                )
            })
            .collect();
        format!(
            r#"{{"content":[{{"type":"text","text":"pages"}}],"structuredContent":{{"pages":[{}]}}}}"#,
            pages.join(",")
        )
    }

    fn text(said: String) -> String {
        format!(r#"{{"content":[{{"type":"text","text":"{said}"}}]}}"#)
    }

    /// What the server answers to a line, if it does.
    fn on_line(&mut self, line: &str) -> Vec<String> {
        if self.stuck {
            return Vec::new();
        }
        let request = value(line);
        let id = request["id"].as_u64().unwrap();
        let result = if request["method"] == "tools/list" {
            r#"{"tools":[{"name":"click","inputSchema":{"type":"object","properties":{"uid":{"type":"string"},"pageId":{"type":"number"}},"required":["uid","pageId"]}},{"name":"select_page","inputSchema":{"type":"object","properties":{"pageId":{"type":"number"}},"required":["pageId"]}}]}"#.to_string()
        } else {
            let name = request["params"]["name"].as_str().unwrap().to_string();
            let arguments = request["params"]["arguments"].clone();
            self.call(&name, &arguments)
        };
        let answer = format!(r#"{{"jsonrpc":"2.0","id":{id},"result":{result}}}"#);
        let name = request["params"]["name"].as_str().unwrap_or("").to_string();
        match self.hang.clone() {
            Some((tool, Hang::Forever)) if tool == name => {
                self.stuck = true;
                return Vec::new();
            }
            Some((tool, Hang::Once)) if tool == name => {
                self.hang = None;
                self.late.push(answer);
                return Vec::new();
            }
            _ => {}
        }
        let mut out: Vec<String> = self.late.drain(..).collect();
        out.push(answer);
        out
    }

    fn call(&mut self, name: &str, arguments: &Value) -> String {
        let page = arguments["pageId"].as_u64().unwrap_or(0);
        let uid = arguments["uid"].as_str().unwrap_or("").to_string();
        match name {
            "new_page" => {
                let id = self.next_page;
                self.next_page += 1;
                let url = arguments["url"].as_str().unwrap_or("").to_string();
                self.pages.push((id, url));
                self.selected = id;
                self.page_list()
            }
            "list_pages" => self.page_list(),
            "select_page" => {
                self.selected = page;
                self.page_list()
            }
            "close_page" => {
                self.pages.retain(|(id, _)| *id != page);
                self.page_list()
            }
            "take_snapshot" => Self::text(format!(
                "snapshot page={page} uid={page}_button uid={page}_after"
            )),
            "evaluate_script" => match arguments["args"][0].as_str() {
                Some(raw) => Self::text(format!("evaluated page={page} arg={raw}")),
                None => Self::text(format!("evaluated page={page}")),
            },
            "click" if arguments["includeSnapshot"] == true => Self::text(format!(
                "clicked page={page} raw={uid} snapshot page={page} uid={page}_button"
            )),
            "click" => Self::text(format!("clicked page={page}")),
            "fill_form" => {
                let raw = arguments["elements"][0]["uid"].as_str().unwrap();
                Self::text(format!("filled form page={page} raw={raw}"))
            }
            "drag" => {
                let from = arguments["from_uid"].as_str().unwrap();
                let to = arguments["to_uid"].as_str().unwrap();
                Self::text(format!("dragged page={page} from={from} to={to}"))
            }
            "upload_file" => r#"{"content":[{"type":"text","text":"Failed: the element could not accept the file directly, and clicking it did not trigger a file chooser."}],"isError":true}"#.to_string(),
            other => panic!("unexpected tool {other}"),
        }
    }
}

/// What the browser answers to a message of the DevTools protocol.
fn browser_answer(message: &str) -> String {
    let request = value(message);
    let id = request["id"].as_i64().unwrap();
    let result = match request["method"].as_str().unwrap() {
        "DOM.getDocument" => r#"{"root":{"nodeId":1}}"#,
        "DOM.querySelector" => r#"{"nodeId":7}"#,
        "Runtime.evaluate" => {
            let expression = request["params"]["expression"].as_str().unwrap();
            if expression.contains("getBoundingClientRect") {
                r#"{"result":{"value":{"x":100.0,"y":200.0}}}"#
            } else if expression.contains("__ready") {
                r#"{"result":{"value":true}}"#
            } else {
                r#"{"result":{"value":false}}"#
            }
        }
        _ => "{}",
    };
    format!(r#"{{"id":{id},"result":{result}}}"#)
}

fn browser_call(client: &mut CdpClient, request: Json) -> Result<Json, String> {
    let (id, message) = client.call(request);
    match on_message(&browser_answer(&message), id) {
        CdpStep::Done(answer) => Ok(answer),
        CdpStep::Failed(error) => Err(error),
        CdpStep::More => panic!("the browser did not answer {message}"),
    }
}

struct Daemon {
    profile: Profile,
    sessions: SessionRegistry,
    router: RouterHandle,
    next_id: u64,
    abandoned: HashMap<u64, i128>,
    mcp: FakeMcp,
    mcp_port: u16,
    live_port: u16,
    port_file: String,
    health: String,
    request_timeout: Option<String>,
    clock: i128,
    keep_pages: bool,
    running: bool,
}

struct Client {
    bound: BoundSessionGuard,
    open: bool,
}

fn config() -> Config {
    parse_config("[[profiles]]\nname = \"default\"\n").unwrap()
}

impl Daemon {
    fn start() -> Self {
        let (router, next_id, abandoned) = RouterHandle::start();
        Daemon {
            profile: config().profiles.remove(0),
            sessions: SessionRegistry::new(),
            router,
            next_id,
            abandoned,
            mcp: FakeMcp::new(),
            mcp_port: 40001,
            live_port: 40001,
            port_file: write_runtime_port(40001),
            health: String::new(),
            request_timeout: None,
            clock: 1_700_000_000 * SECOND,
            keep_pages: false,
            running: true,
        }
    }

    fn start_with_hang(tool: &str, hang: Hang) -> Self {
        let mut daemon = Self::start();
        daemon.mcp.hang = Some((tool.to_string(), hang));
        daemon.request_timeout = Some("1".to_string());
        daemon
    }

    fn replace_devtools(&mut self) -> u16 {
        self.live_port += 1;
        self.port_file = write_runtime_port(self.live_port);
        self.live_port
    }

    fn port(&self) -> Option<u16> {
        current_port(Some(&self.port_file))
    }

    /// The browser's list of tabs: one that has no identifier of its own.
    fn targets(&self) -> Vec<PageTarget> {
        list_page_targets(&format!(
            r#"[{{"type":"page","url":"about:blank","webSocketDebuggerUrl":"ws://127.0.0.1:{}/devtools/page/1"}}]"#,
            self.live_port
        ))
        .unwrap()
    }

    fn connect(&self) -> Client {
        Client { bound: BoundSessionGuard::new(self.clock), open: true }
    }

    fn disconnect(&mut self, mut client: Client) {
        let clock = self.clock;
        client.bound.release(&mut self.sessions, clock, clock);
    }

    /// The lines that come from the server after one was sent, as reads of it.
    fn reads(&mut self, line: &str) -> Vec<ReadEvent> {
        let mut events: Vec<ReadEvent> = self
            .mcp
            .on_line(line)
            .into_iter()
            .map(|answer| ReadEvent::Appended(format!("{answer}\n")))
            .collect();
        if events.is_empty() {
            self.clock += mcp_request_timeout(self.request_timeout.as_deref()) as i128;
            events.push(ReadEvent::Blocked { appended: String::new(), late: true });
        }
        events
    }

    fn mcp_call(&mut self, request: Json) -> Result<Json, String> {
        let (id, line) = begin_call(request, &mut self.next_id);
        let mut reader = LineReader::new();
        for event in self.reads(&line) {
            match call_event(id, &mut reader, &mut self.abandoned, event, HOME, self.clock) {
                CallStep::Done(answer) => return Ok(answer),
                CallStep::Failed(error) => return Err(error),
                CallStep::More | CallStep::Note(_) => {}
                CallStep::Reply(reply) => panic!("unexpected reply {reply}"),
            }
        }
        panic!("no answer to {line}");
    }

    fn forward(&mut self, line: &str) -> Result<Vec<String>, String> {
        match begin_forward(line, &mut self.next_id)? {
            ForwardStart::Notify => Ok(Vec::new()),
            ForwardStart::Sent { forwarded, mut exchange } => {
                let mut reader = LineReader::new();
                for event in self.reads(&forwarded) {
                    match exchange.on_event(
                        &mut reader,
                        &mut self.abandoned,
                        event,
                        HOME,
                        self.clock,
                    ) {
                        ForwardStep::Done(lines) => return Ok(lines),
                        ForwardStep::Failed(error) => return Err(error),
                        ForwardStep::More | ForwardStep::Note(_) => {}
                        ForwardStep::Reply(reply) => panic!("unexpected reply {reply}"),
                    }
                }
                panic!("no answer to {forwarded}");
            }
        }
    }

    fn session_page(&mut self, id: &str, traced: bool) -> Result<u64, String> {
        match ensure_session_page(&self.sessions, id) {
            PageStep::Ready(page) => Ok(page),
            PageStep::Failed(error) => Err(error),
            PageStep::Allocate => {
                let before =
                    if traced { page_target_ids(&self.targets()) } else { Vec::new() };
                let response = self.mcp_call(allocation_request())?;
                let after = if traced { Some(page_target_ids(&self.targets())) } else { None };
                allocate_session_page(
                    &mut self.sessions,
                    id,
                    &response,
                    &before,
                    after.as_ref(),
                    self.clock,
                )
            }
        }
    }

    fn attach_files(&mut self, id: &str, files: &Vec<String>) -> Result<(), String> {
        check_fallback_files(files)?;
        let page = PageRef::new(
            session_target_id(&self.sessions, id),
            session_page_url(&self.sessions, id),
        );
        connect_page_client(&self.targets(), &page)?;
        let mut client = CdpClient::new();
        let root = document_root_node_id(&browser_call(&mut client, document_request())?)?;
        let mut tried = 0;
        let mut answer: Option<Json> = None;
        let node = loop {
            match query_file_input(tried, answer.as_ref()) {
                FileSearch::Found(node) => break node,
                FileSearch::Failed(error) => return Err(error),
                FileSearch::Try(selector) => {
                    answer = Some(browser_call(&mut client, query_request(root, &selector))?);
                    tried += 1;
                }
            }
        };
        browser_call(&mut client, set_file_input_files(node, files))?;
        Ok(())
    }

    fn route(&mut self, session_id: Option<&str>, line: &str) -> Result<Vec<String>, String> {
        let mut step = route_request(session_id, line);
        loop {
            match step {
                RouteStep::Done(lines) => return Ok(lines),
                RouteStep::Failed(error) => return Err(error),
                RouteStep::NeedPage { traced } => {
                    let id = session_id.unwrap();
                    let page = self.session_page(id, traced)?;
                    step = route_on_page(&self.sessions, id, page, line);
                }
                RouteStep::Native(call) => return Ok(self.native(session_id.unwrap(), call)),
                RouteStep::Forward { line: forwarded, plan } => {
                    let lines = self.forward(&forwarded)?;
                    let attached = match upload_fallback(&plan, &lines) {
                        Some(files) => self.attach_files(session_id.unwrap(), &files).is_ok(),
                        None => false,
                    };
                    return finish_route(
                        &mut self.sessions,
                        session_id,
                        plan,
                        lines,
                        attached,
                        self.clock,
                    );
                }
            }
        }
    }

    fn native(&mut self, id: &str, call: NativeCall) -> Vec<String> {
        let targets = self.targets();
        let page = native_page(&mut self.sessions, id, &call, Some(&targets));
        let plan = run_native_tool(
            self.port(),
            page.target_id.as_deref(),
            &call.name,
            &call.arguments,
        );
        let said = plan
            .and_then(|plan| self.perform(&page, plan))
            .map(|outcome| finish_native(&mut self.sessions, id, &outcome, self.clock));
        answer_native(call, said)
    }

    fn perform(&mut self, page: &PageRef, plan: NativePlan) -> Result<NativeOutcome, String> {
        let targets = self.targets();
        let mut client = CdpClient::new();
        match plan {
            NativePlan::WaitForJs { expression, timeout, interval } => {
                let started = self.clock;
                loop {
                    let waited = elapsed(started, self.clock);
                    let late = waited >= u128::from(timeout) * 1_000_000;
                    let connected = connect_page_client(&targets, page).map(|_| ());
                    let step = match wait_connection(connected, timeout, &expression, late) {
                        WaitStep::Look => {
                            let request = evaluate_request(&truth_expression(&expression));
                            let looked = browser_call(&mut client, request)
                                .and_then(|answer| evaluate_value(&answer));
                            wait_for_js(looked, timeout, &expression, late)
                        }
                        other => other,
                    };
                    match step {
                        WaitStep::Done => {
                            return Ok(NativeOutcome::Waited { millis: waited / 1_000_000 })
                        }
                        WaitStep::Failed(error) => return Err(error),
                        _ => self.clock += i128::from(interval) * 1_000_000,
                    }
                }
            }
            NativePlan::ClickAt { x, y } => {
                connect_page_client(&targets, page)?;
                let (down, up) = dispatch_click(&x, &y);
                browser_call(&mut client, down)?;
                browser_call(&mut client, up)?;
                let x: f64 = x.text().parse().unwrap();
                let y: f64 = y.text().parse().unwrap();
                Ok(NativeOutcome::ClickedAt { x: format!("{x}"), y: format!("{y}") })
            }
            NativePlan::ClickSelector { selector } => {
                connect_page_client(&targets, page)?;
                let request = evaluate_request(&click_selector_expression(&selector));
                let found = evaluate_value(&browser_call(&mut client, request)?)?;
                let (x, y) = click_selector(&found, &selector)?;
                let (down, up) = dispatch_click(&x, &y);
                browser_call(&mut client, down)?;
                browser_call(&mut client, up)?;
                let x: f64 = x.text().parse().unwrap();
                let y: f64 = y.text().parse().unwrap();
                Ok(NativeOutcome::ClickedSelector {
                    selector,
                    x: format!("{x:.0}"),
                    y: format!("{y:.0}"),
                })
            }
            NativePlan::DispatchKey { key, modifiers } => {
                connect_page_client(&targets, page)?;
                let (down, up) = dispatch_key(&key, modifiers);
                browser_call(&mut client, down)?;
                browser_call(&mut client, up)?;
                Ok(NativeOutcome::Dispatched { key })
            }
            _ => panic!("this tool is not played here"),
        }
    }

    fn respawn(&mut self, reason: &str, forget: bool) {
        let pages = daemon_page_cleanups(&self.sessions);
        let old = std::mem::replace(&mut self.mcp, FakeMcp::new());
        if self.keep_pages {
            self.mcp.pages = old.pages;
            self.mcp.next_page = old.next_page;
        }
        self.mcp_port = self.port().unwrap();
        if !pages.is_empty() {
            let response = self.mcp_call(list_pages_request()).unwrap();
            let entries = response_page_entries(&response);
            for id in close_respawned_daemon_pages(&pages, &entries) {
                self.mcp_call(close_page_request(id)).unwrap();
            }
        }
        self.sessions.clear_sessions();
        self.health.push_str(&record_daemon_respawn(self.clock, reason));
        if forget {
            self.abandoned.clear();
        }
    }

    /// Serves a request from the queue and gives back what the client is sent.
    fn serve(&mut self, session_id: Option<&str>, line: &str, client_there: bool) -> Vec<String> {
        let enqueued_at = self.clock;
        let queued = self.router.enqueue_forward();
        self.router.take_request();
        let started_at = self.clock;
        let mut turn = RouterTurn::new(line);
        let mut sent = Vec::new();
        let mut action = turn.on_event(TurnEvent::Checked {
            exited: false,
            reachable: self.mcp_port == self.live_port,
        });
        loop {
            let event = match action {
                TurnAction::Restart { reason, forget } => {
                    self.respawn(reason, forget);
                    TurnEvent::Restarted
                }
                TurnAction::Route => TurnEvent::Routed(self.route(session_id, line)),
                TurnAction::Reply { lines } => {
                    sent = lines;
                    TurnEvent::Replied { delivered: client_there }
                }
                TurnAction::Probe => {
                    TurnEvent::Probed { failed: self.mcp_call(probe_mcp_runtime()).is_err() }
                }
                TurnAction::Record => break,
                TurnAction::Wait => panic!("the turn is stuck"),
            };
            action = turn.on_event(event);
        }
        let timing = forward_timing(
            enqueued_at,
            started_at,
            self.clock,
            queued,
            self.router.queued_requests(),
        );
        record_forward_diagnostic(
            &mut self.router.diagnostics,
            session_id,
            line,
            &timing,
            self.clock,
            diagnostic_window(None),
            forward_warn_latency(None),
        );
        sent
    }

    fn close_pages(&mut self, pages: Vec<PageCleanup>) {
        if !self.router.close_pages(&pages) {
            return;
        }
        self.router.take_request();
        for page in pages {
            let current = response_page_ids(&self.mcp_call(list_pages_request()).unwrap());
            if close_daemon_pages(&current, page.page_id) {
                self.mcp_call(close_page_request(page.page_id)).unwrap();
            }
        }
    }

    fn control(&mut self, client: &mut Client, name: &str, command: &str) -> Vec<String> {
        let started = self.clock;
        let diagnostics = self.router.diagnostics_snapshot(self.clock, diagnostic_window(None));
        let status = DaemonStatus {
            version: VERSION.to_string(),
            queued: self.router.queued_requests(),
            diagnostics,
            port: self.port(),
        };
        self.clock += 1_000_000;
        let reply = handle_control_command(
            &mut self.sessions,
            &mut client.bound,
            &status,
            command,
            self.clock,
            self.clock,
            PID,
        )
        .unwrap();
        record_control_latency(
            &mut self.router.diagnostics,
            name,
            elapsed(started, self.clock),
            self.clock,
            diagnostic_window(None),
            control_warn_latency(None),
        );
        if let Some(page) = reply.cleanup {
            self.close_pages(vec![page]);
        }
        match reply.outcome {
            ControlOutcome::Continue => {}
            ControlOutcome::CloseConnection => client.open = false,
            ControlOutcome::StopDaemon => {
                client.open = false;
                self.running = false;
                self.health.push_str(&record_daemon_exit(self.clock, &Ok(())));
            }
        }
        reply.lines
    }

    /// Sends a line on a connection and gives back the lines that come in answer.
    fn send(&mut self, client: &mut Client, raw: &str) -> Vec<String> {
        assert!(client.open, "the connection is closed: {raw}");
        match handle_daemon_client(raw, client.bound.id.is_some()) {
            ClientStep::Skip => Vec::new(),
            ClientStep::Reply { line } => vec![line],
            ClientStep::Control { name, command } => self.control(client, &name, &command),
            ClientStep::Serve { line } => {
                let id = client.bound.id.clone();
                let lines = match try_native_tool(&self.sessions, id.as_deref(), &line) {
                    Some(call) => self.native(id.as_deref().unwrap(), call),
                    None => self.serve(id.as_deref(), &line, true),
                };
                if let Some(id) = id {
                    self.sessions.touch(&id, self.clock);
                }
                lines
            }
        }
    }

    /// Sends what a command line sends on a connection of its own.
    fn request(&mut self, raw: &str) -> String {
        let mut client = self.connect();
        let mut out = String::new();
        for line in raw.lines() {
            for answer in self.send(&mut client, line) {
                out.push_str(&answer);
                out.push('\n');
            }
        }
        self.disconnect(client);
        out
    }

    fn status_reply(&mut self) -> Option<Result<String, String>> {
        if self.running {
            Some(Ok(self.request(&send_daemon_control("status"))))
        } else {
            None
        }
    }

    /// A run of the command line: whether it succeeded, and what it showed.
    fn run_cli(&mut self, args: &[&str]) -> (bool, String) {
        let shown = self.try_cli(args);
        match shown {
            Ok(shown) => (true, shown),
            Err(error) => (false, format!("error: {error}\n")),
        }
    }

    fn try_cli(&mut self, args: &[&str]) -> Result<String, String> {
        let words = args.iter().map(|word| word.to_string()).collect();
        let Start::Carry { object, action, rest } = run(words) else {
            panic!("not a command: {args:?}");
        };
        let command = dispatch(&config(), &object, action.as_deref(), &rest);
        let Command::Run { verb, profile, session, force } = command else {
            panic!("not to be run: {args:?}");
        };
        let reply = self.status_reply();
        let ready = is_daemon_ready(&reply);
        match verb {
            Verb::SessionCreate => {
                let request = send_daemon_control(&create_session_command());
                create_session(&self.request(&request))
            }
            Verb::SessionList => match list_sessions(ready) {
                Some(command) => Ok(self.request(&send_daemon_control(&command))),
                None => Ok(String::new()),
            },
            Verb::SessionClose => {
                let command = close_session_command(ready, &session.unwrap())?;
                close_session(&self.request(&send_daemon_control(&command)))
            }
            Verb::McpList => {
                let request = tools_request();
                Ok(list_mcp_tools_via_daemon(&self.request(&request)))
            }
            Verb::DaemonStatus => Ok(print_daemon_status(
                &profile,
                &reply,
                Some(PID),
                SOCKET,
                self.running,
                &read_daemon_health(&self.health),
            )),
            Verb::DaemonStop => {
                let request = send_daemon_control(&stop_command(force));
                stop_daemon(&self.request(&request))
            }
            Verb::ProfileStop => stop_profile(&profile, force, ready).map(|_| String::new()),
            _ => panic!("this command is not played here: {args:?}"),
        }
    }

    fn create_session(&mut self) -> String {
        let (ok, output) = self.run_cli(&["session", "create", "--profile", "default"]);
        assert!(ok, "session create failed: {output}");
        output
            .split_whitespace()
            .find_map(|part| part.strip_prefix("session="))
            .expect("session id in output")
            .to_string()
    }

    fn control_roundtrip(&mut self, client: &mut Client, command: &str) -> String {
        self.send(client, &format!("__chrome_devtools_daemon__:{command}\n")).remove(0)
    }

    fn bind(&mut self, session: &str) -> Client {
        let mut client = self.connect();
        let bound = self.control_roundtrip(&mut client, &format!("bind session={session}"));
        assert_eq!(bound, format!("bound={session}"));
        client
    }

    fn json_roundtrip(&mut self, client: &mut Client, request: &str) -> Value {
        let mut lines = self.send(client, &format!("{request}\n"));
        value(&lines.remove(0))
    }

    fn tool_call(&mut self, client: &mut Client, id: u64, name: &str, arguments: &str) -> Value {
        self.json_roundtrip(
            client,
            &format!(
                r#"{{"jsonrpc":"2.0","id":{id},"method":"tools/call","params":{{"name":"{name}","arguments":{arguments}}}}}"#
            ),
        )
    }

    /// Runs a script as `mcp batch` does: what it writes, and whether it succeeded.
    fn run_script(&mut self, session: &str, script: &str) -> (String, Result<(), String>) {
        let mut written = String::new();
        let outcome = self.try_script(session, script, &mut written);
        let (more, result) = run_batch(outcome);
        if let Some(more) = more {
            written = more;
        }
        (written, result)
    }

    fn try_script(
        &mut self,
        session: &str,
        script: &str,
        written: &mut String,
    ) -> Result<chrome_devtools::batch::BatchOutcome, String> {
        let mut steps = BatchRun::of_script("batch.json", script, false)?;
        let mut client = self.connect();
        let answer = self.send(&mut client, &bind_request(session)).remove(0);
        bind_session(&format!("{answer}\n"), "default")?;
        loop {
            match steps.execute_batch() {
                BatchAction::Sleep { ms } => self.clock += i128::from(ms) * 1_000_000,
                BatchAction::Call { id, line } => {
                    for answer in self.send(&mut client, &line) {
                        match read_response(&format!("{answer}\n"), id, HOME) {
                            ResponseStep::Done(line) => steps.on_answer_line(&line),
                            _ => panic!("unexpected answer {answer}"),
                        }
                    }
                }
                BatchAction::Finish { output, outcome } => {
                    *written = output;
                    return Ok(outcome);
                }
                BatchAction::Fail { message } => return Err(message),
            }
        }
    }
}

fn content_text(response: &Value) -> &str {
    response["result"]["content"][0]["text"].as_str().unwrap()
}

fn uid_tokens(response: &Value) -> Vec<String> {
    let text = content_text(response);
    let mut tokens = Vec::new();
    let mut rest = text;
    while let Some(index) = rest.find("uid=u:") {
        let after = &rest[index + 4..];
        let end = after.find(char::is_whitespace).unwrap_or(after.len());
        tokens.push(after[..end].to_string());
        rest = &after[end..];
    }
    assert!(!tokens.is_empty(), "uid token in response: {text}");
    tokens
}

fn uid_token(response: &Value) -> String {
    uid_tokens(response).remove(0)
}

fn selected_page_id(response: &Value) -> u64 {
    response["result"]["structuredContent"]["pages"]
        .as_array()
        .unwrap()
        .iter()
        .find(|page| page["selected"] == true)
        .and_then(|page| page["id"].as_u64())
        .unwrap()
}

fn page_ids(response: &Value) -> Vec<u64> {
    response["result"]["structuredContent"]["pages"]
        .as_array()
        .unwrap()
        .iter()
        .filter_map(|page| page["id"].as_u64())
        .collect()
}

fn status_field<'a>(output: &'a str, prefix: &str) -> Option<&'a str> {
    output.split_whitespace().find_map(|field| field.strip_prefix(prefix))
}

#[test]
fn smoke_session_create_and_batch() {
    let mut daemon = Daemon::start();
    let session = daemon.create_session();
    let (output, result) =
        daemon.run_script(&session, r#"[{"type":"tool","name":"take_snapshot","args":{}}]"#);
    assert!(result.is_ok(), "batch failed: {output}");
    assert!(output.contains("snapshot page="), "batch output: {output}");
}

#[test]
fn batch_failure_emits_json_error_on_stdout() {
    let mut daemon = Daemon::start();
    let (output, result) =
        daemon.run_script("sess-bogus", r#"[{"type":"tool","name":"take_snapshot","args":{}}]"#);
    assert!(result.is_err());
    let parsed = value(&output);
    assert_eq!(parsed[0]["type"], "error");
    assert!(parsed[0]["error"].as_str().unwrap().contains("unknown session"));
}

#[test]
fn client_disconnect_does_not_kill_daemon() {
    let mut daemon = Daemon::start();
    let session = daemon.create_session();
    let mut client = daemon.bind(&session);
    daemon.send(
        &mut client,
        "{\"jsonrpc\":\"2.0\",\"id\":7,\"method\":\"tools/call\",\"params\":{\"name\":\"click\",\"arguments\":{}}}\n",
    );
    daemon.disconnect(client);

    let mut next = daemon.connect();
    let status = daemon.control_roundtrip(&mut next, "status");
    assert!(status.contains("daemon=ready"), "daemon died after client disconnect: {status}");
    let (ok, output) = daemon.run_cli(&["session", "list", "--profile", "default"]);
    assert!(ok, "session list failed: {output}");
    assert!(output.contains(&session), "session lost after another client's disconnect: {output}");
}

#[test]
fn client_kill_during_bound_tool_keeps_session() {
    let mut daemon = Daemon::start_with_hang("take_snapshot", Hang::Forever);
    let session = daemon.create_session();
    let client = daemon.bind(&session);
    // The client is gone by the time the request has timed out.
    daemon.disconnect(client);
    daemon.serve(
        Some(&session),
        r#"{"jsonrpc":"2.0","id":171,"method":"tools/call","params":{"name":"take_snapshot","arguments":{}}}"#,
        false,
    );
    let (_, output) = daemon.run_cli(&["session", "list", "--profile", "default"]);
    assert!(output.contains(&session) && output.contains("owned=false"), "output: {output}");
    let (ok, output) = daemon.run_cli(&["daemon", "status", "--profile", "default"]);
    assert!(ok, "status failed: {output}");
    assert!(!output.contains("respawns="), "output: {output}");
}

#[test]
fn string_jsonrpc_id_roundtrips_through_daemon() {
    let mut daemon = Daemon::start();
    let session = daemon.create_session();
    let mut client = daemon.bind(&session);
    let value = daemon.json_roundtrip(
        &mut client,
        r#"{"jsonrpc":"2.0","id":"client-a","method":"tools/list","params":{}}"#,
    );
    assert_eq!(value["id"], "client-a");
    let click = value["result"]["tools"]
        .as_array()
        .unwrap()
        .iter()
        .find(|tool| tool["name"] == "click")
        .unwrap();
    assert!(click["inputSchema"]["properties"].get("pageId").is_none());
}

#[test]
fn unbound_tool_call_is_rejected() {
    let mut daemon = Daemon::start();
    let mut client = daemon.connect();
    let value = daemon.json_roundtrip(
        &mut client,
        r#"{"jsonrpc":"2.0","id":"client-a","method":"tools/call","params":{"name":"click","arguments":{}}}"#,
    );
    assert_eq!(value["id"], "client-a");
    assert_eq!(value["error"]["message"], "session bind required for MCP forwarding");
}

#[test]
fn control_commands_respond_while_client_bound() {
    let mut daemon = Daemon::start();
    let session = daemon.create_session();
    let holder = daemon.bind(&session);
    let mut other = daemon.connect();
    let line = daemon.send(&mut other, "__chrome_devtools_daemon__:session_create\n").remove(0);
    assert!(line.starts_with("session="), "unexpected response: {line}");
    assert!(holder.open);
}

#[test]
fn daemon_starts_mcp_with_page_id_routing_and_hides_page_id_schema() {
    let settings =
        McpSettings { program: None, version: None, max_old_space_mb: None, node_options: None };
    let args = daemon_mcp_command(&settings, 40001).args.join(" ");
    assert!(args.contains("--experimentalPageIdRouting"), "args: {args}");

    let mut daemon = Daemon::start();
    let (ok, output) = daemon.run_cli(&["mcp", "list", "--profile", "default"]);
    assert!(ok, "mcp list failed: {output}");
    let listed = value(output.trim());
    let tools = listed["result"]["tools"].as_array().unwrap();
    let click = tools.iter().find(|tool| tool["name"] == "click").unwrap();
    let select_page = tools.iter().find(|tool| tool["name"] == "select_page").unwrap();
    assert!(click["inputSchema"]["properties"].get("pageId").is_none(), "output: {output}");
    assert!(
        click["inputSchema"]["required"]
            .as_array()
            .unwrap()
            .iter()
            .all(|entry| entry.as_str() != Some("pageId")),
        "output: {output}"
    );
    assert!(
        select_page["inputSchema"]["properties"].get("pageId").is_some(),
        "output: {output}"
    );
}

#[test]
fn multiple_sessions_can_bind_at_the_same_time() {
    let mut daemon = Daemon::start();
    let first = daemon.create_session();
    let second = daemon.create_session();
    let mut first_client = daemon.bind(&first);
    let mut second_client = daemon.bind(&second);
    let first_response = daemon.tool_call(
        &mut first_client,
        10,
        "evaluate_script",
        r#"{"function": "() => location.href"}"#,
    );
    let second_response = daemon.tool_call(
        &mut second_client,
        11,
        "evaluate_script",
        r#"{"function": "() => location.href"}"#,
    );
    assert!(content_text(&first_response).contains("evaluated page="));
    assert!(content_text(&second_response).contains("evaluated page="));
}

#[test]
fn session_tabs_keep_snapshot_state_independent() {
    let mut daemon = Daemon::start();
    let first = daemon.create_session();
    let second = daemon.create_session();
    let mut first_client = daemon.bind(&first);
    let mut second_client = daemon.bind(&second);

    let first_page = selected_page_id(&daemon.tool_call(
        &mut first_client,
        20,
        "new_page",
        r#"{"url": "https://a.test/"}"#,
    ));
    let second_page = selected_page_id(&daemon.tool_call(
        &mut second_client,
        21,
        "new_page",
        r#"{"url": "https://b.test/"}"#,
    ));
    assert_ne!(first_page, second_page);

    let first_snapshot = daemon.tool_call(&mut first_client, 22, "take_snapshot", "{}");
    let second_snapshot = daemon.tool_call(&mut second_client, 23, "take_snapshot", "{}");
    assert!(content_text(&first_snapshot).contains(&format!("page={first_page}")));
    assert!(content_text(&second_snapshot).contains(&format!("page={second_page}")));
    let first_token = uid_token(&first_snapshot);
    let second_token = uid_token(&second_snapshot);

    let first_click = daemon.tool_call(
        &mut first_client,
        24,
        "click",
        &format!(r#"{{"uid": "{first_token}"}}"#),
    );
    let second_click = daemon.tool_call(
        &mut second_client,
        25,
        "click",
        &format!(r#"{{"uid": "{second_token}"}}"#),
    );
    assert_eq!(content_text(&first_click), format!("clicked page={first_page}"));
    assert_eq!(content_text(&second_click), format!("clicked page={second_page}"));
}

#[test]
fn list_pages_marks_the_calling_session_page() {
    let mut daemon = Daemon::start();
    let first = daemon.create_session();
    let second = daemon.create_session();
    let mut first_client = daemon.bind(&first);
    let mut second_client = daemon.bind(&second);

    let first_page = selected_page_id(&daemon.tool_call(
        &mut first_client,
        30,
        "new_page",
        r#"{"url": "https://a.test/"}"#,
    ));
    let second_page = selected_page_id(&daemon.tool_call(
        &mut second_client,
        31,
        "new_page",
        r#"{"url": "https://b.test/"}"#,
    ));

    let first_pages = daemon.tool_call(&mut first_client, 32, "list_pages", "{}");
    let second_pages = daemon.tool_call(&mut second_client, 33, "list_pages", "{}");
    assert_eq!(selected_page_id(&first_pages), first_page);
    assert_eq!(selected_page_id(&second_pages), second_page);
}

#[test]
fn select_page_changes_only_the_calling_session_target() {
    let mut daemon = Daemon::start();
    let first = daemon.create_session();
    let second = daemon.create_session();
    let mut first_client = daemon.bind(&first);
    let mut second_client = daemon.bind(&second);

    daemon.tool_call(&mut first_client, 40, "new_page", r#"{"url": "https://a.test/"}"#);
    let second_page = selected_page_id(&daemon.tool_call(
        &mut second_client,
        41,
        "new_page",
        r#"{"url": "https://b.test/"}"#,
    ));
    daemon.tool_call(&mut first_client, 42, "select_page", r#"{"pageId": 1}"#);

    let first_snapshot = daemon.tool_call(&mut first_client, 43, "take_snapshot", "{}");
    let second_snapshot = daemon.tool_call(&mut second_client, 44, "take_snapshot", "{}");
    assert!(content_text(&first_snapshot).contains("page=1 "));
    assert!(content_text(&second_snapshot).contains(&format!("page={second_page}")));
}

#[test]
fn session_attach_sets_page_target() {
    let mut daemon = Daemon::start();
    let session = daemon.create_session();
    let mut control = daemon.connect();
    let attached = daemon
        .control_roundtrip(&mut control, &format!("session_attach session={session} page=1"));
    assert_eq!(attached, format!("session={session} page=1"));

    let mut client = daemon.bind(&session);
    let snapshot = daemon.tool_call(&mut client, 50, "take_snapshot", "{}");
    assert!(content_text(&snapshot).contains("page=1 "));
}

#[test]
fn uid_token_from_another_session_is_rejected_before_mcp_forward() {
    let mut daemon = Daemon::start();
    let first = daemon.create_session();
    let second = daemon.create_session();
    let mut first_client = daemon.bind(&first);
    let mut second_client = daemon.bind(&second);

    daemon.tool_call(&mut first_client, 60, "new_page", r#"{"url": "https://a.test/"}"#);
    daemon.tool_call(&mut second_client, 61, "new_page", r#"{"url": "https://b.test/"}"#);
    let token = uid_token(&daemon.tool_call(&mut first_client, 62, "take_snapshot", "{}"));
    let response =
        daemon.tool_call(&mut second_client, 63, "click", &format!(r#"{{"uid": "{token}"}}"#));
    assert_eq!(response["error"]["message"], "uid token belongs to another session");
}

#[test]
fn stale_uid_token_is_rejected_before_mcp_forward() {
    let mut daemon = Daemon::start();
    let session = daemon.create_session();
    let mut client = daemon.bind(&session);
    daemon.tool_call(&mut client, 70, "new_page", r#"{"url": "https://a.test/"}"#);
    let old_token = uid_token(&daemon.tool_call(&mut client, 71, "take_snapshot", "{}"));
    let new_snapshot = daemon.tool_call(&mut client, 72, "take_snapshot", "{}");
    assert_ne!(old_token, uid_token(&new_snapshot));
    let response =
        daemon.tool_call(&mut client, 73, "click", &format!(r#"{{"uid": "{old_token}"}}"#));
    assert_eq!(response["error"]["message"], "stale uid token");
}

#[test]
fn evaluate_script_and_nested_uid_fields_translate_tokens() {
    let mut daemon = Daemon::start();
    let session = daemon.create_session();
    let mut client = daemon.bind(&session);
    let page = selected_page_id(&daemon.tool_call(
        &mut client,
        80,
        "new_page",
        r#"{"url": "https://a.test/"}"#,
    ));
    let tokens = uid_tokens(&daemon.tool_call(&mut client, 81, "take_snapshot", "{}"));
    let (token, other) = (&tokens[0], &tokens[1]);
    let eval = daemon.tool_call(
        &mut client,
        82,
        "evaluate_script",
        &format!(r#"{{"function": "(el) => el.id", "args": ["{token}"]}}"#),
    );
    assert_eq!(content_text(&eval), format!("evaluated page={page} arg={page}_button"));
    let form = daemon.tool_call(
        &mut client,
        83,
        "fill_form",
        &format!(r#"{{"elements": [{{"uid": "{token}", "value": "x"}}]}}"#),
    );
    assert_eq!(content_text(&form), format!("filled form page={page} raw={page}_button"));
    let drag = daemon.tool_call(
        &mut client,
        84,
        "drag",
        &format!(r#"{{"from_uid": "{token}", "to_uid": "{other}"}}"#),
    );
    assert_eq!(
        content_text(&drag),
        format!("dragged page={page} from={page}_button to={page}_after")
    );
}

#[test]
fn upload_file_error_falls_back_to_cdp() {
    let mut daemon = Daemon::start();
    let session = daemon.create_session();
    let mut client = daemon.bind(&session);
    let token = uid_token(&daemon.tool_call(&mut client, 85, "take_snapshot", "{}"));
    let upload = daemon.tool_call(
        &mut client,
        86,
        "upload_file",
        &format!(r#"{{"uid": "{token}", "filePath": "/home/agent/upload.png"}}"#),
    );
    assert_eq!(content_text(&upload), "uploaded file via CDP fallback");
}

#[test]
fn native_tools_run_via_cdp_without_mcp() {
    let mut daemon = Daemon::start();
    let session = daemon.create_session();
    let mut client = daemon.bind(&session);

    let ready = daemon.tool_call(
        &mut client,
        200,
        "wait_for_js",
        r#"{"expression": "window.__ready", "interval": 50}"#,
    );
    assert!(content_text(&ready).contains("condition became truthy"), "response: {ready}");

    let timeout = daemon.tool_call(
        &mut client,
        201,
        "wait_for_js",
        r#"{"expression": "window.__never", "timeout": 300, "interval": 50}"#,
    );
    assert_eq!(timeout["result"]["isError"], true);
    assert!(content_text(&timeout).contains("timed out"), "response: {timeout}");

    let clicked = daemon.tool_call(&mut client, 202, "click_selector", r##"{"selector": "#btn"}"##);
    assert!(
        content_text(&clicked).contains("clicked #btn at (100, 200)"),
        "response: {clicked}"
    );

    let clicked_at = daemon.tool_call(&mut client, 203, "click_at", r#"{"x": 10, "y": 20}"#);
    assert!(content_text(&clicked_at).contains("clicked at (10, 20)"), "response: {clicked_at}");

    let key = daemon.tool_call(&mut client, 204, "dispatch_key", r#"{"key": "Escape"}"#);
    assert!(content_text(&key).contains("dispatched key Escape"), "response: {key}");
}

#[test]
fn tools_list_includes_native_tools() {
    let mut daemon = Daemon::start();
    let mut client = daemon.connect();
    let response = daemon.json_roundtrip(
        &mut client,
        r#"{"jsonrpc": "2.0", "id": 210, "method": "tools/list", "params": {}}"#,
    );
    let names: Vec<&str> = response["result"]["tools"]
        .as_array()
        .unwrap()
        .iter()
        .filter_map(|tool| tool["name"].as_str())
        .collect();
    for native in ["wait_for_js", "click_at", "click_selector", "dispatch_key"] {
        assert!(names.contains(&native), "missing {native} in {names:?}");
    }
}

#[test]
fn include_snapshot_response_rewrites_returned_uids() {
    let mut daemon = Daemon::start();
    let session = daemon.create_session();
    let mut client = daemon.bind(&session);
    let page = selected_page_id(&daemon.tool_call(
        &mut client,
        90,
        "new_page",
        r#"{"url": "https://a.test/"}"#,
    ));
    let token = uid_token(&daemon.tool_call(&mut client, 91, "take_snapshot", "{}"));
    let click = daemon.tool_call(
        &mut client,
        92,
        "click",
        &format!(r#"{{"uid": "{token}", "includeSnapshot": true}}"#),
    );
    let text = content_text(&click);
    assert!(text.contains(&format!("clicked page={page} raw={page}_button")));
    assert!(text.contains(&format!("snapshot page={page} uid=u:")));
}

#[test]
fn session_close_closes_daemon_created_page() {
    let mut daemon = Daemon::start();
    let session = daemon.create_session();
    let mut client = daemon.bind(&session);
    let page = selected_page_id(&daemon.tool_call(
        &mut client,
        100,
        "new_page",
        r#"{"url": "https://owned.test/"}"#,
    ));
    daemon.disconnect(client);

    let (ok, output) =
        daemon.run_cli(&["session", "close", "--profile", "default", "--session", &session]);
    assert!(ok, "session close failed: {output}");

    let probe = daemon.create_session();
    let mut probe_client = daemon.bind(&probe);
    let pages = daemon.tool_call(&mut probe_client, 101, "list_pages", "{}");
    assert!(!page_ids(&pages).contains(&page), "pages: {pages}");
}

#[test]
fn session_close_keeps_attached_page() {
    let mut daemon = Daemon::start();
    let session = daemon.create_session();
    let mut control = daemon.connect();
    let attached = daemon
        .control_roundtrip(&mut control, &format!("session_attach session={session} page=1"));
    assert_eq!(attached, format!("session={session} page=1"));

    let (ok, output) =
        daemon.run_cli(&["session", "close", "--profile", "default", "--session", &session]);
    assert!(ok, "session close failed: {output}");

    let probe = daemon.create_session();
    let mut probe_client = daemon.bind(&probe);
    let pages = daemon.tool_call(&mut probe_client, 110, "list_pages", "{}");
    assert!(page_ids(&pages).contains(&1), "pages: {pages}");
}

#[test]
fn session_expiry_closes_daemon_created_page() {
    let mut daemon = Daemon::start();
    let session = daemon.create_session();
    let mut client = daemon.bind(&session);
    let page = selected_page_id(&daemon.tool_call(
        &mut client,
        120,
        "new_page",
        r#"{"url": "https://expire.test/"}"#,
    ));
    daemon.disconnect(client);

    daemon.clock += SECOND;
    let expired = daemon.sessions.reap_expired(daemon.clock, session_idle_ttl(Some("1")));
    daemon.close_pages(expired);
    let (ok, output) = daemon.run_cli(&["session", "list", "--profile", "default"]);
    assert!(ok, "session list failed: {output}");
    assert!(!output.contains(&session), "session did not expire: {output}");

    let probe = daemon.create_session();
    let mut probe_client = daemon.bind(&probe);
    let pages = daemon.tool_call(&mut probe_client, 121, "list_pages", "{}");
    assert!(!page_ids(&pages).contains(&page), "pages: {pages}");
}

#[test]
fn last_tab_is_kept_when_daemon_created_page_is_closed() {
    let mut daemon = Daemon::start();
    let session = daemon.create_session();
    let mut client = daemon.bind(&session);
    daemon.tool_call(&mut client, 130, "take_snapshot", "{}");
    daemon.disconnect(client);

    let (ok, output) =
        daemon.run_cli(&["session", "close", "--profile", "default", "--session", &session]);
    assert!(ok, "session close failed: {output}");

    let probe = daemon.create_session();
    let mut probe_client = daemon.bind(&probe);
    let pages = daemon.tool_call(&mut probe_client, 131, "list_pages", "{}");
    assert_eq!(page_ids(&pages), vec![1]);
}

#[test]
fn daemon_status_reports_pages_and_queue() {
    let mut daemon = Daemon::start();
    let session = daemon.create_session();
    let mut client = daemon.bind(&session);
    let page = selected_page_id(&daemon.tool_call(
        &mut client,
        140,
        "new_page",
        r#"{"url": "https://status.test/"}"#,
    ));

    let (ok, output) = daemon.run_cli(&["daemon", "status", "--profile", "default"]);
    assert!(ok, "status failed: {output}");
    assert!(output.contains("active_sessions=1"), "output: {output}");
    assert!(output.contains(&format!("pages={page}")), "output: {output}");
    assert!(output.contains("queued_mcp_requests=0"), "output: {output}");
    assert!(output.contains("max_control_latency_ms="), "output: {output}");
    assert!(output.contains("max_forward_latency_ms="), "output: {output}");
    assert!(output.contains("diagnostic_window_secs="), "output: {output}");
}

#[test]
fn mcp_request_timeout_keeps_session_when_probe_succeeds() {
    let mut daemon = Daemon::start_with_hang("take_snapshot", Hang::Once);
    let session = daemon.create_session();
    let mut client = daemon.bind(&session);

    let response = daemon.tool_call(&mut client, 145, "take_snapshot", "{}");
    assert!(
        response["error"]["message"].as_str().unwrap().contains("MCP request timed out"),
        "response: {response}"
    );

    let (ok, output) = daemon.run_cli(&["session", "list", "--profile", "default"]);
    assert!(ok, "session list failed: {output}");
    assert!(output.contains(&session), "output: {output}");

    let eval = daemon.tool_call(
        &mut client,
        146,
        "evaluate_script",
        r#"{"function": "() => location.href"}"#,
    );
    assert!(content_text(&eval).contains("evaluated page="));

    let (_, output) = daemon.run_cli(&["daemon", "status", "--profile", "default"]);
    let longest: u128 =
        status_field(&output, "max_forward_latency_ms=").unwrap().parse().unwrap();
    assert!(longest >= 1000, "output: {output}");
    assert!(!output.contains("respawns="), "output: {output}");
}

#[test]
fn mcp_request_timeout_respawns_when_probe_fails() {
    let mut daemon = Daemon::start_with_hang("take_snapshot", Hang::Forever);
    let session = daemon.create_session();
    let mut client = daemon.bind(&session);

    let response = daemon.tool_call(&mut client, 150, "take_snapshot", "{}");
    assert!(
        response["error"]["message"].as_str().unwrap().contains("MCP request timed out"),
        "response: {response}"
    );
    let (ok, output) = daemon.run_cli(&["session", "list", "--profile", "default"]);
    assert!(ok, "session list failed: {output}");
    assert!(!output.contains(&session), "output: {output}");

    let next_session = daemon.create_session();
    let mut next_client = daemon.bind(&next_session);
    let eval = daemon.tool_call(
        &mut next_client,
        151,
        "evaluate_script",
        r#"{"function": "() => location.href"}"#,
    );
    assert!(content_text(&eval).contains("evaluated page="));

    let (ok, output) = daemon.run_cli(&["daemon", "status", "--profile", "default"]);
    assert!(ok, "status failed: {output}");
    assert!(output.contains("respawns=1"), "output: {output}");
}

#[test]
fn devtools_port_change_respawns_mcp_and_drops_sessions() {
    let mut daemon = Daemon::start();
    let session = daemon.create_session();
    let mut client = daemon.bind(&session);
    let new_port = daemon.replace_devtools();

    let response = daemon.tool_call(
        &mut client,
        160,
        "evaluate_script",
        r#"{"function": "() => location.href"}"#,
    );
    assert_eq!(response["error"]["message"], format!("unknown session: {session}"));

    let next_session = daemon.create_session();
    let mut next_client = daemon.bind(&next_session);
    let eval = daemon.tool_call(
        &mut next_client,
        161,
        "evaluate_script",
        r#"{"function": "() => location.href"}"#,
    );
    assert!(content_text(&eval).contains("evaluated page="));

    let (ok, output) = daemon.run_cli(&["daemon", "status", "--profile", "default"]);
    assert!(ok, "status failed: {output}");
    assert!(output.contains(&format!("port={new_port}")), "output: {output}");
    assert!(output.contains("respawns=1"), "output: {output}");
}

#[test]
fn respawn_closes_daemon_created_pages() {
    let mut daemon = Daemon::start();
    daemon.keep_pages = true;
    let session = daemon.create_session();
    let mut client = daemon.bind(&session);
    let created = selected_page_id(&daemon.tool_call(
        &mut client,
        165,
        "new_page",
        r#"{"url": "https://orphan.test/"}"#,
    ));
    assert_eq!(created, 2);
    daemon.replace_devtools();

    let response = daemon.tool_call(
        &mut client,
        166,
        "evaluate_script",
        r#"{"function": "() => location.href"}"#,
    );
    assert_eq!(response["error"]["message"], format!("unknown session: {session}"));

    let next_session = daemon.create_session();
    let mut next_client = daemon.bind(&next_session);
    let pages = daemon.tool_call(&mut next_client, 167, "list_pages", "{}");
    assert_eq!(page_ids(&pages), vec![1]);
}

#[test]
fn stop_refused_while_sessions_active() {
    let mut daemon = Daemon::start();
    let session = daemon.create_session();

    let (ok, output) = daemon.run_cli(&["daemon", "stop", "--profile", "default"]);
    assert!(!ok, "stop should be refused: {output}");
    assert!(output.contains("active session(s)"), "output: {output}");

    let (ok, output) = daemon.run_cli(&["profile", "stop", "--profile", "default"]);
    assert!(!ok, "profile stop should be refused: {output}");
    assert!(output.contains("is running"), "output: {output}");

    let (ok, output) =
        daemon.run_cli(&["session", "close", "--profile", "default", "--session", &session]);
    assert!(ok, "session close failed: {output}");
    let (ok, output) = daemon.run_cli(&["daemon", "stop", "--profile", "default"]);
    assert!(ok, "stop after close failed: {output}");
    assert!(!daemon.running);
}

#[test]
fn status_reports_version_sessions_and_health() {
    let mut daemon = Daemon::start();
    daemon.create_session();

    let (ok, output) = daemon.run_cli(&["daemon", "status", "--profile", "default"]);
    assert!(ok, "status failed: {output}");
    assert!(output.contains(&format!("version={VERSION}")), "output: {output}");
    assert!(output.contains("sessions=1"), "output: {output}");
    assert!(output.contains("chrome=ready"), "output: {output}");

    let (ok, output) = daemon.run_cli(&["daemon", "stop", "--profile", "default", "--force"]);
    assert!(ok, "forced stop failed: {output}");

    let (ok, output) = daemon.run_cli(&["daemon", "status", "--profile", "default"]);
    assert!(ok, "status after stop failed: {output}");
    assert!(output.contains("daemon=stopped"), "output: {output}");
    assert!(output.contains("exit=ok"), "output: {output}");
}
