//! What is refused, and what is said then.
use crate::batch::BatchActionView;
use crate::batch::BatchView;
use crate::cdp::{GotoStepView, TargetView, WaitStepView};
use crate::cli::CommandView;
use crate::client::ReadFailure;
use crate::config::{ProfileView, ReadView};
use crate::control::ControlView;
use crate::json::JsonView;
use crate::mcp::{ErrorView, EventView, ReadStepView};
use crate::session::SessionView;
use crate::{
    batch, cdp, cli, client, config, control, input, json, mcp, native, places, router, rpc, session,
    session_laws, text, tool_laws, wire,
};
use vstd::prelude::*;

verus! {

/// A session that is not there, or that a client holds, is refused with its id.
pub proof fn sessions_are_refused(m: Map<Seq<char>, SessionView>, id: Seq<char>, now: int)
    ensures
        !m.contains_key(id) ==> session::binding(m, id, now) == Err::<Map<Seq<char>, SessionView>, _>(
            "unknown session: "@ + id,
        ) && session::closing(m, id) == Err::<
            (Option<session::CleanupView>, Map<Seq<char>, SessionView>),
            _,
        >("unknown session: "@ + id) && session::translated_in(m, id, 0, id) == Err::<Seq<char>, _>(
            "unknown session: "@ + id,
        ),
        m.contains_key(id) && m[id].owned ==> session::binding(m, id, now) == Err::<
            Map<Seq<char>, SessionView>,
            _,
        >("session in use: "@ + id) && session::closing(m, id) == Err::<
            (Option<session::CleanupView>, Map<Seq<char>, SessionView>),
            _,
        >("session in use: "@ + id),
{
}

/// A token is refused for the first thing that is wrong with it: it is none, it is not whole,
/// it is another session's, its epoch is no number or not the session's, it was never given
/// out, or it is another page's.
pub proof fn tokens_are_refused(
    s: SessionView,
    id: Seq<char>,
    page: u64,
    owner: Seq<char>,
    epoch: Seq<char>,
    raw: Seq<char>,
    other: Seq<char>,
)
    requires
        session_laws::colonless(owner),
        session_laws::colonless(epoch),
        !text::begins(other, "u:"@),
    ensures
        ({
            let tok = "u:"@ + owner + seq![':'] + epoch + seq![':'] + raw;
            let got = session::translated(s, id, page, tok);
            let own = owner == session::short_id(id);
            let number = text::parsed(epoch, u64::MAX as nat);
            let now = number == Some(s.epoch as nat);
            let known = s.bindings.contains_key(tok);
            &&& !own ==> got == Err::<Seq<char>, _>("uid token belongs to another session"@)
            &&& own && number is None ==> got == Err::<Seq<char>, _>(
                "invalid session uid token epoch"@,
            )
            &&& own && number is Some && !now ==> got == Err::<Seq<char>, _>("stale uid token"@)
            &&& own && now && !known ==> got == Err::<Seq<char>, _>("unknown uid token"@)
            &&& own && now && known && s.bindings[tok].page != page ==> got == Err::<Seq<char>, _>(
                "uid token belongs to another page"@,
            )
            &&& own && now && known && s.bindings[tok].page == page && s.bindings[tok].epoch
                == s.epoch ==> got == Ok::<_, Seq<char>>(s.bindings[tok].raw)
        }),
        session::translated(s, id, page, other) == Err::<Seq<char>, _>(
            "session uid token is required"@,
        ),
        session::translated(s, id, page, "u:"@ + owner) == Err::<Seq<char>, _>(
            "invalid session uid token"@,
        ),
        session::translated(s, id, page, "u:"@ + owner + seq![':'] + epoch) == Err::<Seq<char>, _>(
            "invalid session uid token"@,
        ),
{
    reveal_strlit("u:");
    reveal_strlit(":");
    assert(":"@ =~= seq![':']);
    let rest = owner + seq![':'] + (epoch + seq![':'] + raw);
    let tok = "u:"@ + owner + seq![':'] + epoch + seq![':'] + raw;
    assert(tok =~= "u:"@ + rest);
    assert(tok.subrange(0, 2) =~= "u:"@);
    assert(tok.skip(2) =~= rest);
    session_laws::cut_at_separator(owner, ':', epoch + seq![':'] + raw);
    session_laws::cut_at_separator(epoch, ':', raw);
    let short = "u:"@ + owner;
    assert(short.subrange(0, 2) =~= "u:"@);
    assert(short.skip(2) =~= owner);
    lemma_no_cut(owner);
    lemma_no_cut(epoch);
    let two = "u:"@ + owner + seq![':'] + epoch;
    assert(two.subrange(0, 2) =~= "u:"@);
    assert(two.skip(2) =~= owner + seq![':'] + epoch);
    session_laws::cut_at_separator(owner, ':', epoch);
}

proof fn lemma_no_cut(s: Seq<char>)
    requires
        session_laws::colonless(s),
    ensures
        text::cut(s, ":"@) is None,
{
    reveal_strlit(":");
    text::lemma_first_at(s, ":"@, 0);
    if text::first_at(s, ":"@, 0) is Some {
        let k = text::first_at(s, ":"@, 0)->0;
        assert(s.subrange(k, k + 1)[0] == ':');
        assert(s[k] == ':');
        assert(s.contains(':'));
    }
}

/// Why a session has no tab to drive or to close.
pub proof fn missing_tabs_are_told(targets: Seq<TargetView>, id: Seq<char>, url: Seq<char>)
    ensures
        cdp::with_id(targets, id) is None ==> cdp::own_target(targets, Some(id), Some(url)) == Err::<
            TargetView,
            _,
        >("session page target "@ + id + " is gone; create a new session"@) && cdp::close_path(
            targets,
            id,
        ) == Err::<Seq<char>, _>("page target "@ + id + " is already gone"@),
        cdp::own_target(targets, None, None) == Err::<TargetView, _>("session has no page target"@),
        cdp::at_url(targets, url).len() == 0 ==> cdp::own_target(targets, None, Some(url)) == Err::<
            TargetView,
            _,
        >("no page target for url "@ + url),
        cdp::at_url(targets, url).len() > 1 ==> cdp::own_target(targets, None, Some(url)) == Err::<
            TargetView,
            _,
        >("url "@ + url + " matches multiple page targets; cannot pick the session tab"@),
{
}

/// What is said when the browser does not answer as it should.
pub proof fn bad_answers_are_told(
    v: JsonView,
    error: Seq<char>,
    id: i64,
    body: Seq<char>,
    status: Seq<char>,
)
    ensures
        cdp::targets_in(Err(error)) == Err::<Seq<TargetView>, _>(
            "failed to parse /json response: "@ + error,
        ),
        v !is Array ==> cdp::targets_in(Ok(v)) == Err::<Seq<TargetView>, _>(
            "/json response is not an array"@,
        ),
        cdp::call_step(Err(error), id) == cdp::CdpStepView::Failed(
            "failed to parse CDP response: "@ + error,
        ),
        cdp::i64_field(v, "id"@) == Some(id) ==> (places::member(v, "error"@) matches Some(e)
            ==> cdp::call_step(Ok(v), id) == cdp::CdpStepView::Failed(
            "CDP call failed: "@ + json::json_text(e),
        )),
        cdp::close_answer(body) is Err ==> cdp::close_answer(body) == Err::<(), _>(
            "unexpected /json/close response: "@ + text::trimmed(body),
        ),
        places::member(v, "result"@) is None ==> cdp::evaluated(v) == Err::<JsonView, _>(
            "Runtime.evaluate returned no result"@,
        ),
        wire::http_ok(status) is Err ==> wire::http_ok(status) == Err::<(), _>(
            "DevTools HTTP returned "@ + text::trimmed_end(status),
        ),
        wire::upgraded(status) is Err ==> wire::upgraded(status) == Err::<(), _>(
            "DevTools WebSocket handshake returned "@ + text::trimmed_end(status),
        ),
        places::member(v, "result"@) matches Some(r) ==> (tool_laws::words_at(r, "errorText"@)
            matches Some(reason) ==> (reason.len() > 0 ==> cdp::navigation(v) == Err::<(), _>(
            "Page.navigate failed: "@ + reason,
        ))),
{
}

/// What is said when a wait has been too long: for how long, and for what.
pub proof fn long_waits_are_told(
    v: JsonView,
    error: Seq<char>,
    url: Seq<char>,
    timeout: u64,
    wait: Seq<char>,
)
    requires
        v != JsonView::Bool(true),
        !cdp::transient(error),
        !text::begins(error, "expression threw:"@),
    ensures
        ({
            let ms = text::decimal(timeout as nat);
            let long = "goto timed out after "@ + ms + "ms while waiting for "@ + wait;
            &&& cdp::goto_looked(Ok(v), timeout, wait, true) == GotoStepView::Failed(long)
            &&& cdp::goto_looked(Err(error), timeout, wait, true) == GotoStepView::Failed(
                long + ": "@ + error,
            )
            &&& cdp::goto_located(Err(error), url, timeout, wait, true) == GotoStepView::Failed(
                error,
            )
            &&& cdp::wait_looked(Ok(v), timeout, wait, true) == WaitStepView::Failed(
                "wait_for_js timed out after "@ + ms + "ms: "@ + wait,
            )
            &&& cdp::wait_connected(Err(error), timeout, wait, true) == WaitStepView::Failed(
                "wait_for_js timed out after "@ + ms + "ms (page not reachable: "@ + error + "): "@
                    + wait,
            )
        }),
{
}

/// What is said of a tool that lacks something: what it requires.
pub proof fn tools_say_what_they_require(port: u16, target: Option<Seq<char>>, arguments: JsonView)
    ensures
        ({
            let some = Some(port);
            let goto = native::planned(some, target, "goto"@, arguments);
            let shot = native::planned(some, target, "screenshot_quiet"@, arguments);
            let wait = native::planned(some, target, "wait_for_js"@, arguments);
            let click = native::planned(some, target, "click_at"@, arguments);
            let select = native::planned(some, target, "click_selector"@, arguments);
            let key = native::planned(some, target, "dispatch_key"@, arguments);
            let files = native::planned(some, target, "set_file_input"@, arguments);
            let close = native::planned(some, target, "close_page_quiet"@, arguments);
            let write = native::planned(some, target, "type_into"@, arguments);
            let selector = tool_laws::words_at(arguments, "selector"@);
            &&& goto matches Err(e) ==> e == (if tool_laws::words_at(arguments, "url"@) is None {
                "goto requires 'url'"@
            } else {
                "goto accepts only one of waitSelector or waitExpression"@
            })
            &&& shot matches Err(e) ==> e == (if tool_laws::words_at(arguments, "filePath"@) is None {
                "screenshot_quiet requires 'filePath'"@
            } else {
                "screenshot_quiet format must be png, jpeg, or webp"@
            })
            &&& wait matches Err(e) ==> e == "wait_for_js requires 'expression' or 'selector'"@
            &&& click matches Err(e) ==> e == (match places::member(arguments, "x"@) {
                Some(JsonView::Number(_)) => "click_at requires numeric 'y'"@,
                _ => "click_at requires numeric 'x'"@,
            })
            &&& select matches Err(e) ==> e == "click_selector requires 'selector'"@
            &&& key matches Err(e) ==> e == "dispatch_key requires 'key'"@
            &&& files matches Err(e) ==> e == (if selector is None {
                "set_file_input requires 'selector'"@
            } else {
                "set_file_input requires a non-empty 'filePaths' array"@
            })
            &&& close matches Err(e) ==> e == "close_page_quiet requires a session page"@
            &&& write matches Err(e) ==> e == (if selector is None {
                "type_into requires 'selector'"@
            } else {
                "type_into requires 'text'"@
            })
            &&& native::planned(None, target, "goto"@, arguments) == Err::<native::PlanView, _>(
                "missing DevTools port"@,
            )
        }),
{
    tool_laws::lemma_tool_names();
}

/// A tool that is none is refused by its name.
pub proof fn other_tools_are_refused(
    port: u16,
    target: Option<Seq<char>>,
    name: Seq<char>,
    arguments: JsonView,
)
    requires
        !native::native(name),
    ensures
        native::planned(Some(port), target, name, arguments) == Err::<native::PlanView, _>(
            "unknown native tool: "@ + name,
        ),
{
}

/// What is said of an element or a file that will not do.
pub proof fn elements_and_files_are_refused(
    value: JsonView,
    selector: Seq<char>,
    path: Seq<char>,
    is_file: bool,
    roots: Seq<Seq<char>>,
    decoded: Result<Seq<u8>, Seq<char>>,
    tried: nat,
)
    ensures
        value is Null ==> input::center(value, selector) == Err::<(JsonView, JsonView), _>(
            "no element matches selector: "@ + selector,
        ),
        value !is Null && input::center(value, selector) is Err ==> input::center(value, selector)
            == Err::<(JsonView, JsonView), _>(
            match places::member(value, "x"@) {
                Some(JsonView::Number(_)) => "selector center has no y"@,
                _ => "selector center has no x"@,
            },
        ),
        value != JsonView::Bool(true) ==> input::typing(value, selector, path, is_file) == Err::<
            Seq<JsonView>,
            _,
        >("could not focus selector: "@ + selector),
        value == JsonView::Str("missing"@) ==> input::takes_files(value, selector) == Err::<(), _>(
            "no element matches selector: "@ + selector,
        ),
        value != JsonView::Str("missing"@) && value != JsonView::Str("ok"@) ==> input::takes_files(
            value,
            selector,
        ) == Err::<(), _>("selector is not an input[type=file]: "@ + selector),
        input::root_node(value) is Err ==> input::root_node(value) == Err::<i64, _>(
            "DOM.getDocument did not return root nodeId"@,
        ),
        input::found_node(value) is None ==> input::selected_node(value, selector) == Err::<i64, _>(
            "DOM.querySelector found no node for "@ + selector,
        ),
        input::screenshot_data(value) is Err ==> input::screenshot_data(value) == Err::<
            Seq<char>,
            _,
        >("Page.captureScreenshot returned no data"@),
        decoded matches Err(error) ==> input::image(Ok(path), decoded) == Err::<Seq<u8>, _>(
            "invalid screenshot base64: "@ + error,
        ),
        !is_file ==> input::input_allowed(path, is_file, roots) == Err::<(), _>(
            "not a file: "@ + path,
        ),
        is_file && input::input_allowed(path, is_file, roots) is Err ==> input::input_allowed(
            path,
            is_file,
            roots,
        ) == Err::<(), _>("file path must be under HOME or the OS temp directory: "@ + path),
        tried >= 3 ==> input::file_search(tried, None) == input::FileSearchView::Failed(
            "no input[type=file] for upload_file fallback"@,
        ),
{
    reveal_strlit("missing");
    reveal_strlit("ok");
    assert("missing"@.len() == 7 && "ok"@.len() == 2);
}

/// A line of a configuration that cannot be read is refused with its number, and what is
/// wrong with it.
pub proof fn bad_lines_are_told(
    st: ReadView,
    raw: Seq<char>,
    number: nat,
    key: Seq<char>,
    value: Seq<char>,
)
    requires
        st.error is None,
        text::trimmed(raw).len() > 0,
        text::trimmed(raw)[0] != '#',
        text::trimmed(raw) != "[[profiles]]"@,
    ensures
        ({
            let line = text::trimmed(raw);
            let place = "line "@ + text::decimal(number);
            let after = config::line_read(st, raw, number);
            &&& !line.contains('=') ==> after.error == Some(place + ": expected key = value"@)
            &&& line == key + seq!['='] + value && !key.contains('=') ==> {
                let name = text::trimmed(key);
                &&& st.current is None ==> after.error == Some(
                    place + ": profile fields must be inside [[profiles]]"@,
                )
                &&& st.current is Some && name != "name"@ && name != "port"@ && name
                    != "user_data_dir"@ ==> after.error == Some(
                    place + ": unknown profile key: "@ + name,
                )
                &&& st.current is Some && (name == "name"@ || name == "user_data_dir"@) && !(
                text::trimmed(value).len() >= 2 && text::trimmed(value)[0] == '"' && text::trimmed(
                    value,
                ).last() == '"') ==> after.error == Some(place + ": expected quoted string"@)
            }
        }),
{
    reveal_strlit("#");
    reveal_strlit("=");
    reveal_strlit("name");
    reveal_strlit("port");
    reveal_strlit("user_data_dir");
    assert("name"@.len() == 4 && "name"@[0] == 'n' && "port"@.len() == 4 && "port"@[0] == 'p'
        && "user_data_dir"@.len() == 13);
    assert("="@ =~= seq!['=']);
    let line = text::trimmed(raw);
    if text::begins(line, "#"@) {
        assert(line.subrange(0, 1)[0] == '#');
    }
    text::lemma_first_at(line, "="@, 0);
    if !line.contains('=') && text::first_at(line, "="@, 0) is Some {
        let k = text::first_at(line, "="@, 0)->0;
        assert(line.subrange(k, k + 1)[0] == '=');
        assert(line[k] == '=');
    }
    if line == key + seq!['='] + value && !key.contains('=') {
        session_laws::cut_at_separator(key, '=', value);
    }
}

/// An escape that means nothing is refused, as is one that is cut off; a profile without a
/// name and one whose name is taken are refused where they end.
pub proof fn bad_profiles_are_told(
    profiles: Seq<ProfileView>,
    name: Seq<char>,
    dir: Option<Seq<char>>,
    number: nat,
)
    ensures
        config::pushed(
            profiles,
            Some(config::BuilderView { name: None, dir }),
            number,
        ) == Err::<Seq<ProfileView>, _>(
            "line "@ + text::decimal(number) + ": profile is missing name"@,
        ),
        (exists|i: int| 0 <= i < profiles.len() && (#[trigger] profiles[i]).name == name)
            ==> config::pushed(profiles, Some(config::BuilderView { name: Some(name), dir }), number)
            == Err::<Seq<ProfileView>, _>("duplicate profile name: "@ + name),
        config::config_read(Seq::empty()) == Err::<Seq<ProfileView>, _>(
            "config must define at least one [[profiles]] entry"@,
        ),
{
    let all = text::line_list(Seq::empty());
    assert(all =~= Seq::empty());
    assert(config::lines_read(all, 0).profiles.len() == 0);
}

/// What is said of a command line that is not whole.
pub proof fn command_lines_are_refused(
    profiles: Seq<ProfileView>,
    object: Seq<char>,
    action: Seq<char>,
    rest: Seq<Seq<char>>,
    arg: Seq<char>,
)
    requires
        !cli::is_help(action),
        arg != "--profile"@,
        arg != "--session"@,
    ensures
        cli::commanded(profiles, object, None, rest) == (CommandView::Usage {
            error: "missing action for object: "@ + object,
        }),
        cli::verb_of(object, action) is None ==> cli::commanded(
            profiles,
            object,
            Some(action),
            rest,
        ) == (CommandView::Fail { message: "unknown command: "@ + object + " "@ + action }),
        cli::verb_of(object, action) matches Some(verb) ==> cli::commanded(
            profiles,
            object,
            Some(action),
            rest,
        ) == cli::carried(profiles, verb, rest),
        cli::named_from(seq![arg], 0, true, None, None) == Err::<
            (Option<Seq<char>>, Option<Seq<char>>),
            _,
        >("unknown argument: "@ + arg),
        cli::named_from(seq!["--profile"@], 0, true, None, None) == Err::<
            (Option<Seq<char>>, Option<Seq<char>>),
            _,
        >("--profile requires a value"@),
        cli::required_profile(profiles, Seq::empty()) == Err::<ProfileView, _>(
            "--profile is required"@,
        ),
        config::profile_named(profiles, arg) is None ==> cli::required_profile(
            profiles,
            seq!["--profile"@, arg],
        ) == Err::<ProfileView, _>(config::unknown_profile(profiles, arg)),
{
    let one = seq!["--profile"@, arg];
    assert(one[0] == "--profile"@ && one[1] == arg);
    assert(cli::named_from(one, 0, false, None, None) == cli::named_from(
        one,
        2,
        false,
        Some(arg),
        None,
    ));
}

/// What is said of a control command that is not whole, and of a daemon in use.
pub proof fn commands_are_refused(before: ControlView, rest: Seq<char>, now: int, at: int, pid: int)
    requires
        before.sessions.len() > 0,
        rest != "force"@,
    ensures
        control::assigned(text::words(rest), "session="@) is None ==> control::session_arg(rest)
            == Err::<Seq<char>, _>("missing session=<id> argument"@),
        control::assigned(text::words(rest), "session="@) == Some(Seq::<char>::empty())
            ==> control::session_arg(rest) == Err::<Seq<char>, _>("session id must not be empty"@),
        control::assigned(text::words(rest), "page="@) is None ==> control::page_arg(rest) == Err::<
            u64,
            _,
        >("missing page=<id> argument"@),
        control::controlled(before, "stop"@, rest, now, at, pid).reply matches Ok(reply)
            && reply.lines.len() == 1 && text::begins(
            reply.lines[0],
            "error="@ + text::decimal(before.sessions.len()) + " active session(s)"@,
        ),
{
    let line = "error="@ + control::still_in_use(before.sessions.len());
    reveal_strlit(" active session(s)");
    reveal_strlit(" active session(s); other agents may be using this daemon, pass --force to stop anyway");
    let start = "error="@ + text::decimal(before.sessions.len()) + " active session(s)"@;
    assert(line.subrange(0, start.len() as int) =~= start);
}

/// What is said when the daemon does not answer in time, or fails.
pub proof fn busy_daemons_are_told(failure: ReadFailure, timeout: nat)
    ensures
        failure matches ReadFailure::Other(error) ==> client::request_failure(failure, timeout)
            == "failed to read daemon response: "@ + error@ && client::bind_failure(failure, timeout)
            == "failed to read bind response: "@ + error@,
        failure !is Other ==> text::begins(
            client::request_failure(failure, timeout),
            "daemon busy: no response within "@ + text::decimal(timeout / 1_000_000_000) + "s"@,
        ) && text::begins(
            client::bind_failure(failure, timeout),
            "daemon busy: bind not acknowledged within "@ + text::decimal(timeout / 1_000_000_000)
                + "s"@,
        ),
{
    if failure !is Other {
        reveal_strlit("daemon busy");
        reveal_strlit(": no response within ");
        reveal_strlit("daemon busy: no response within ");
        reveal_strlit(": bind not acknowledged within ");
        reveal_strlit("daemon busy: bind not acknowledged within ");
        reveal_strlit("s");
        reveal_strlit("s; another client is likely using the daemon, retry shortly (raise CHROME_DEVTOOLS_CONTROL_TIMEOUT_SECS to wait longer)");
        reveal_strlit("s; retry shortly (raise CHROME_DEVTOOLS_BIND_TIMEOUT_SECS to wait longer)");
        let a = "daemon busy: no response within "@ + text::decimal(timeout / 1_000_000_000) + "s"@;
        let b = "daemon busy: bind not acknowledged within "@ + text::decimal(
            timeout / 1_000_000_000,
        ) + "s"@;
        assert(client::request_failure(failure, timeout).subrange(0, a.len() as int) =~= a);
        assert(client::bind_failure(failure, timeout).subrange(0, b.len() as int) =~= b);
    }
}

/// What is said when the server's output ends or cannot be read, and of requests that cannot
/// be routed.
pub proof fn server_failures_are_told(
    partial: Seq<char>,
    message: Seq<char>,
    home: Seq<char>,
    id: JsonView,
    line: Seq<char>,
    request: JsonView,
)
    ensures
        mcp::reading(partial, EventView::Appended(Seq::empty()), home).1 == ReadStepView::Failed(
            ErrorView::Fatal("chrome-devtools-mcp closed stdout before responding"@),
        ),
        mcp::reading(partial, EventView::Failed(message), home).1 == ReadStepView::Failed(
            ErrorView::Fatal("failed to read MCP response: "@ + message),
        ),
        rpc::with_id(Err(message), id) == Err::<JsonView, _>(
            "failed to parse JSON-RPC message: "@ + message,
        ),
        id !is Object ==> rpc::with_id(Ok(id), id) == Err::<JsonView, _>(
            "JSON-RPC message must be an object"@,
        ),
        router::routed(None, line, request) matches router::RouteView::Failed(e) ==> e == (
        if native::native(crate::route_laws::tool_in(request)) {
            "native tool requires a bound session"@
        } else {
            "page-scoped tool requires a bound session"@
        }),
        router::allocated(Map::empty(), message, id, Seq::empty(), None, 0).0 == Err::<u64, _>(
            if crate::pages::selected_in(id) is None {
                "failed to determine the allocated page id"@
            } else {
                "unknown session: "@ + message
            },
        ),
{
    reveal_strlit("");
    assert(""@ =~= Seq::empty());
}

/// What is said of a step that is not whole.
pub proof fn bad_steps_are_told(b: BatchView)
    requires
        b.stopped is None,
        0 <= b.index < b.steps.len(),
    ensures
        ({
            let step = b.steps[b.index];
            let kind = tool_laws::words_at(step, "type"@);
            batch::batch_next(b).1 matches BatchActionView::Fail { message } ==> message == (
            if kind is None {
                "step missing 'type': expected "@ + batch::STEP_SHAPE_HINT@
            } else if kind == Some("sleep_ms"@) {
                "sleep_ms requires 'ms' (non-negative integer)"@
            } else if kind == Some("tool"@) {
                if tool_laws::words_at(step, "name"@) is None {
                    "tool step requires 'name' (the MCP tool name, e.g. take_snapshot)"@
                } else {
                    "$ref must be a string"@
                }
            } else {
                "unknown step type: "@ + kind->0 + ": expected "@ + batch::STEP_SHAPE_HINT@
            })
        }),
{
    reveal_strlit("sleep_ms");
    reveal_strlit("tool");
    assert("sleep_ms"@.len() == 8 && "tool"@.len() == 4);
}

/// What is said of a script that is none, and of a batch that lacks something.
pub proof fn bad_scripts_are_told(
    path: Seq<char>,
    v: JsonView,
    error: Seq<char>,
    args: Seq<Seq<char>>,
)
    ensures
        batch::script_steps(path, Err(error)) == Err::<Seq<JsonView>, _>(
            "failed to parse "@ + path + ": "@ + error,
        ),
        v !is Array ==> batch::script_steps(path, Ok(v)) == Err::<Seq<JsonView>, _>(
            "script must be a JSON array of steps"@,
        ),
        batch::batch_flags(args, 0, batch::no_flags()) matches Ok(flags) ==> (batch::batch_args(args)
            matches Err(e) ==> e == (if flags.profile is None {
            "--profile is required"@
        } else if flags.session is None {
            "--session is required"@
        } else {
            "--script is required"@
        })),
        batch::failure_output(error) matches JsonView::Array(list) && list.len() == 1
            && places::member(list[0], "type"@) == Some(JsonView::Str("error"@)) && places::member(
            list[0],
            "error"@,
        ) == Some(JsonView::Str(error)),
{
    reveal_strlit("type");
    reveal_strlit("error");
    assert("type"@.len() == 4 && "error"@.len() == 5);
}

/// What is said where there is no home directory, and of a browser whose daemon runs.
pub proof fn missing_homes_are_told(path: Seq<char>, name: Seq<char>)
    ensures
        config::home_path(None, path) == Err::<Seq<char>, _>("HOME is not set"@),
        config::home_expanded(seq!['~'], None) == Err::<Seq<char>, _>("HOME is not set"@),
        config::home_expanded(seq!['~', '/'] + path, None) == Err::<Seq<char>, _>(
            "HOME is not set"@,
        ),
        crate::chrome::daemon_runs(name) == "daemon for profile "@ + name
            + " is running and other agents may be using it; stopping Chrome would break their sessions. run 'chrome-devtools daemon stop --profile "@
            + name + "' first, or pass --force"@,
{
    reveal_strlit("~");
    reveal_strlit("~/");
    assert(seq!['~'] =~= "~"@);
    let all = seq!['~', '/'] + path;
    assert(all.len() >= 2 && "~"@.len() == 1);
    assert(all.subrange(0, 2) =~= "~/"@);
}

} // verus!
