//! What holds of where a request goes, and of what its answer does to the session.
use crate::json::{JsonView, NumberView};
use crate::router::{PageStepView, RoutePlanView, RouteView};
use crate::session::SessionView;
use crate::{cdp, json, native, page_laws, pages, places, router, rpc, session, uids};
use vstd::prelude::*;

verus! {

/// The names of tools differ.
proof fn lemma_tool_words()
    ensures
        ""@.len() == 0,
        "new_page"@.len() == 8 && "new_page"@[0] == 'n',
        "list_pages"@.len() == 10 && "list_pages"@[0] == 'l',
        "select_page"@.len() == 11 && "select_page"@[0] == 's',
        "close_page"@.len() == 10 && "close_page"@[0] == 'c',
        "goto"@.len() == 4 && "goto"@[0] == 'g',
        "screenshot_quiet"@.len() == 16 && "screenshot_quiet"@[0] == 's',
        "wait_for_js"@.len() == 11 && "wait_for_js"@[0] == 'w',
        "click_at"@.len() == 8 && "click_at"@[0] == 'c',
        "click_selector"@.len() == 14 && "click_selector"@[0] == 'c',
        "dispatch_key"@.len() == 12,
        "set_file_input"@.len() == 14 && "set_file_input"@[0] == 's',
        "close_page_quiet"@.len() == 16 && "close_page_quiet"@[0] == 'c',
        "type_into"@.len() == 9 && "type_into"@[0] == 't' && "type_into"@[5] == 'i',
        "upload_file"@.len() == 11 && "upload_file"@[0] == 'u',
        "navigate_page"@.len() == 13 && "navigate_page"@[0] == 'n',
        "click"@.len() == 5 && "click"@[0] == 'c',
        "drag"@.len() == 4 && "drag"@[0] == 'd',
        "emulate"@.len() == 7,
        "evaluate_script"@.len() == 15 && "evaluate_script"@[0] == 'e',
        "fill"@.len() == 4 && "fill"@[0] == 'f',
        "fill_form"@.len() == 9 && "fill_form"@[0] == 'f',
        "get_console_message"@.len() == 19 && "get_console_message"@[4] == 'c',
        "get_network_request"@.len() == 19 && "get_network_request"@[4] == 'n',
        "handle_dialog"@.len() == 13 && "handle_dialog"@[0] == 'h',
        "hover"@.len() == 5 && "hover"@[0] == 'h',
        "lighthouse_audit"@.len() == 16 && "lighthouse_audit"@[0] == 'l',
        "list_console_messages"@.len() == 21 && "list_console_messages"@[5] == 'c',
        "list_network_requests"@.len() == 21 && "list_network_requests"@[5] == 'n',
        "performance_analyze_insight"@.len() == 27,
        "performance_start_trace"@.len() == 23,
        "performance_stop_trace"@.len() == 22,
        "press_key"@.len() == 9 && "press_key"@[0] == 'p',
        "resize_page"@.len() == 11 && "resize_page"@[0] == 'r',
        "take_heapsnapshot"@.len() == 17,
        "take_screenshot"@.len() == 15 && "take_screenshot"@[0] == 't',
        "take_snapshot"@.len() == 13 && "take_snapshot"@[0] == 't',
        "type_text"@.len() == 9 && "type_text"@[0] == 't' && "type_text"@[5] == 't',
        "wait_for"@.len() == 8 && "wait_for"@[0] == 'w',
{
    reveal_strlit("");
    reveal_strlit("new_page");
    reveal_strlit("list_pages");
    reveal_strlit("select_page");
    reveal_strlit("close_page");
    reveal_strlit("goto");
    reveal_strlit("screenshot_quiet");
    reveal_strlit("wait_for_js");
    reveal_strlit("click_at");
    reveal_strlit("click_selector");
    reveal_strlit("dispatch_key");
    reveal_strlit("set_file_input");
    reveal_strlit("close_page_quiet");
    reveal_strlit("type_into");
    reveal_strlit("upload_file");
    reveal_strlit("navigate_page");
    reveal_strlit("click");
    reveal_strlit("drag");
    reveal_strlit("emulate");
    reveal_strlit("evaluate_script");
    reveal_strlit("fill");
    reveal_strlit("fill_form");
    reveal_strlit("get_console_message");
    reveal_strlit("get_network_request");
    reveal_strlit("handle_dialog");
    reveal_strlit("hover");
    reveal_strlit("lighthouse_audit");
    reveal_strlit("list_console_messages");
    reveal_strlit("list_network_requests");
    reveal_strlit("performance_analyze_insight");
    reveal_strlit("performance_start_trace");
    reveal_strlit("performance_stop_trace");
    reveal_strlit("press_key");
    reveal_strlit("resize_page");
    reveal_strlit("take_heapsnapshot");
    reveal_strlit("take_screenshot");
    reveal_strlit("take_snapshot");
    reveal_strlit("type_text");
    reveal_strlit("wait_for");
}


/// The method of a request.
pub open spec fn method_in(request: JsonView) -> Seq<char> {
    match places::member(request, "method"@) {
        Some(JsonView::Str(method)) => method,
        _ => Seq::empty(),
    }
}

/// A member of a request's parameters.
pub open spec fn param_in(request: JsonView, key: Seq<char>) -> Option<JsonView> {
    match places::member(request, "params"@) {
        Some(params) => places::member(params, key),
        None => None,
    }
}

/// The tool that a request calls.
pub open spec fn tool_in(request: JsonView) -> Seq<char> {
    match param_in(request, "name"@) {
        Some(JsonView::Str(name)) => name,
        _ => Seq::empty(),
    }
}

/// An argument of a call.
pub open spec fn argument_in(request: JsonView, key: Seq<char>) -> Option<JsonView> {
    match param_in(request, "arguments"@) {
        Some(arguments) => places::member(arguments, key),
        None => None,
    }
}

/// The page that a call names.
pub open spec fn page_named(request: JsonView) -> Option<u64> {
    match argument_in(request, "pageId"@) {
        Some(JsonView::Number(NumberView::PosInt(n))) => Some(n),
        _ => None,
    }
}

/// The address that a call names.
pub open spec fn url_named(request: JsonView) -> Option<Seq<char>> {
    match argument_in(request, "url"@) {
        Some(JsonView::Str(url)) => Some(url),
        _ => None,
    }
}

/// Where a request goes at first. Only calls that work on a page wait for the session's, and
/// without a session they are refused; every other request is handed on as it is, but for a
/// new page, which is opened in the background.
pub proof fn requests_go_where_they_belong(
    session_id: Option<Seq<char>>,
    line: Seq<char>,
    request: JsonView,
)
    ensures
        ({
            let route = router::routed(session_id, line, request);
            let tool = tool_in(request);
            let call = method_in(request) == "tools/call"@;
            let works = native::native(tool) || page_laws::works_on_a_page(tool);
            &&& method_in(request) == "tools/list"@ ==> route == (RouteView::Forward {
                line,
                plan: RoutePlanView::ToolsList,
            })
            &&& !call && method_in(request) != "tools/list"@ ==> route == (RouteView::Forward {
                line,
                plan: RoutePlanView::Plain,
            })
            &&& call && tool == "list_pages"@ ==> route == (RouteView::Forward {
                line,
                plan: RoutePlanView::ListPages,
            })
            &&& call && tool == "select_page"@ ==> route == (RouteView::Forward {
                line,
                plan: RoutePlanView::SelectPage { requested: page_named(request) },
            })
            &&& call && tool == "new_page"@ ==> route == (RouteView::Forward {
                line: json::json_text(router::in_background(request)),
                plan: RoutePlanView::NewPage { url: url_named(request) },
            })
            &&& call && tool == "close_page"@ && page_named(request) is None && session_id is Some
                ==> route == (RouteView::NeedPage { traced: false })
            &&& call && tool == "close_page"@ && (page_named(request) is Some || session_id is None)
                ==> route == (RouteView::Forward {
                line: json::json_text(request),
                plan: RoutePlanView::ClosePage { closed: page_named(request) },
            })
            &&& call && works ==> (session_id is Some ==> route == (RouteView::NeedPage {
                traced: true,
            })) && (session_id is None ==> route is Failed)
            &&& call && !works && tool != "list_pages"@ && tool != "select_page"@ && tool
                != "new_page"@ && tool != "close_page"@ ==> route == (RouteView::Forward {
                line,
                plan: RoutePlanView::Plain,
            })
        }),
{
    lemma_tool_words();
    page_laws::page_tools_are_known(tool_in(request));
    reveal_strlit("");
    assert(""@ =~= Seq::empty());
    reveal_strlit("tools/list");
    reveal_strlit("tools/call");
    assert("tools/list"@[6] == 'l' && "tools/call"@[6] == 'c');
}

/// A new page is opened in the background unless the call says whether it is; nothing else
/// of the call is changed.
pub proof fn new_pages_stay_in_the_background(request: JsonView)
    requires
        request is Object,
        places::member(request, "params"@) matches Some(params) && params is Object && (
        places::member(params, "arguments"@) matches Some(arguments) ==> arguments is Object),
    ensures
        ({
            let sent = router::in_background(request);
            &&& argument_in(sent, "background"@) == (match argument_in(request, "background"@) {
                Some(v) => Some(v),
                None => Some(JsonView::Bool(true)),
            })
            &&& forall|k: Seq<char>|
                k != "background"@ ==> #[trigger] argument_in(sent, k) == argument_in(request, k)
            &&& forall|k: Seq<char>|
                k != "arguments"@ ==> #[trigger] param_in(sent, k) == param_in(request, k)
            &&& forall|k: Seq<char>|
                k != "params"@ ==> #[trigger] places::member(sent, k) == places::member(request, k)
        }),
{
}

/// A session works on the page it has; without one it gets one, and a session that is gone
/// is refused.
pub proof fn sessions_have_one_page(m: Map<Seq<char>, SessionView>, id: Seq<char>)
    ensures
        router::page_step(m, id) is Failed <==> !m.contains_key(id),
        m.contains_key(id) && m[id].page is Some ==> router::page_step(m, id)
            == PageStepView::Ready(m[id].page->0),
        m.contains_key(id) && m[id].page is None ==> router::page_step(m, id) is Allocate,
{
}

/// A session that gets a page of its own has the page that the server tells of, which the
/// daemon is to close, and the one target that is new; it has no token of an earlier page.
/// No other session changes.
pub proof fn allocated_pages_belong_to_the_session(
    m: Map<Seq<char>, SessionView>,
    id: Seq<char>,
    response: JsonView,
    before: Seq<Seq<char>>,
    after: Option<Seq<Seq<char>>>,
    now: int,
    other: Seq<char>,
)
    requires
        m.contains_key(id),
        other != id,
    ensures
        ({
            let (page, n) = router::allocated(m, id, response, before, after, now);
            &&& page is Ok <==> pages::selected_in(response) is Some
            &&& page matches Ok(number) ==> {
                &&& pages::selected_in(response) == Some(number)
                &&& n[id].page == Some(number) && n[id].by_daemon
                &&& n[id].url == Some("about:blank"@) && n[id].last_used_at == now
                &&& n[id].target == (match after {
                    Some(ids) => cdp::the_new_target(before, ids),
                    None => None,
                })
                &&& n[id].id == m[id].id && n[id].owned == m[id].owned && n[id].created_at
                    == m[id].created_at
                &&& m[id].page != Some(number) ==> n[id].bindings == Map::<
                    Seq<char>,
                    session::BindingView,
                >::empty() && n[id].epoch != m[id].epoch
            }
            &&& page is Err ==> n == m
            &&& n.contains_key(other) == m.contains_key(other)
            &&& m.contains_key(other) ==> n[other] == m[other]
        }),
{
}

/// On its page, a session closes the page by its number, runs the daemon's tools, and has
/// every other call forwarded for that page.
pub proof fn calls_are_made_on_the_page(
    m: Map<Seq<char>, SessionView>,
    id: Seq<char>,
    page: u64,
    request: JsonView,
)
    ensures
        ({
            let route = router::routed_on_page(m, id, page, request);
            let tool = tool_in(request);
            &&& tool == "close_page"@ ==> route == (RouteView::Forward {
                line: json::json_text(pages::on_page(request, page)),
                plan: RoutePlanView::ClosePage { closed: Some(page) },
            })
            &&& native::native(tool) ==> route is Native || route is Failed
            &&& !native::native(tool) && tool != "close_page"@ ==> (match router::on_session_page(
                m,
                id,
                page,
                request,
            ) {
                Ok(forwarded) => route matches RouteView::Forward { line, plan } && line
                    == json::json_text(forwarded) && (plan matches RoutePlanView::Scoped {
                    page: p,
                    uploads,
                    navigated,
                } && p == page && (uploads is Some <==> tool == "upload_file"@) && (tool
                    == "navigate_page"@ ==> navigated == url_named(forwarded)) && (tool
                    != "navigate_page"@ ==> navigated is None)),
                Err(_) => route is Done,
            })
        }),
{
    lemma_tool_words();
    reveal_strlit("");
    assert(""@ =~= Seq::empty());
}

/// The daemon runs a tool itself for a session with a page: under the id of the request,
/// with its arguments, on the session's page and target.
pub proof fn native_calls_are_the_clients(
    m: Map<Seq<char>, SessionView>,
    id: Seq<char>,
    request: JsonView,
)
    requires
        m.contains_key(id),
        m[id].page is Some,
        method_in(request) == "tools/call"@,
        native::native(tool_in(request)),
    ensures
        native::native_call(m, Some(id), request) matches Some(call) && call.name == tool_in(
            request,
        ) && call.url == m[id].url && call.target == m[id].target && call.id == (
        match places::member(request, "id"@) {
            Some(v) => v,
            None => JsonView::Null,
        }) && call.arguments == (match param_in(request, "arguments"@) {
            Some(v) => v,
            None => JsonView::Object(Map::empty()),
        }),
{
    lemma_tool_words();
    reveal_strlit("tools/call");
    assert("tools/call"@.len() == 10);
    assert(tool_in(request).len() > 0);
}

/// Whether the last line of an answer is an error of the call.
pub open spec fn call_failed(lines: Seq<Seq<char>>) -> bool {
    lines.len() > 0 && (json::json_parse(lines.last()) matches Ok(v) && places::member(v, "error"@)
        is Some)
}

/// Whether the last line of an answer is an error of the call or of the tool.
pub open spec fn tool_failed(lines: Seq<Seq<char>>) -> bool {
    lines.len() > 0 && (json::json_parse(lines.last()) matches Ok(v) && (places::member(v, "error"@)
        is Some || (places::member(v, "result"@) matches Some(result) && places::member(
        result,
        "isError"@,
    ) == Some(JsonView::Bool(true)))))
}

/// A session is on the page that it opened last or chose last: an opened page is the
/// daemon's to close, a chosen one is not, and a choice that failed changes nothing. The
/// answer is handed on as it is.
pub proof fn sessions_follow_their_pages(
    m: Map<Seq<char>, SessionView>,
    id: Seq<char>,
    url: Option<Seq<char>>,
    requested: Option<u64>,
    lines: Seq<Seq<char>>,
    attached: bool,
    now: int,
)
    requires
        m.contains_key(id),
    ensures
        ({
            let opened = router::finished(
                m,
                Some(id),
                RoutePlanView::NewPage { url },
                lines,
                attached,
                now,
            );
            let chosen = router::finished(
                m,
                Some(id),
                RoutePlanView::SelectPage { requested },
                lines,
                attached,
                now,
            );
            let shown = if lines.len() > 0 && json::json_parse(lines.last()) is Ok {
                pages::selected_in(json::json_parse(lines.last())->Ok_0)
            } else {
                None
            };
            &&& opened.0 == Ok::<_, Seq<char>>(lines) && chosen.0 == Ok::<_, Seq<char>>(lines)
            &&& shown matches Some(page) ==> opened.1[id].page == Some(page)
                && opened.1[id].by_daemon && opened.1[id].url == url && opened.1[id].last_used_at
                == now
            &&& shown is None ==> opened.1 == m
            &&& requested is Some && !call_failed(lines) ==> chosen.1[id].page == requested
                && !chosen.1[id].by_daemon && chosen.1[id].url is None && chosen.1[id].last_used_at
                == now
            &&& requested is None || call_failed(lines) ==> chosen.1 == m
        }),
{
}

/// A session whose page is closed has none, nor a target or tokens; closing another page
/// changes nothing about it.
pub proof fn closing_takes_the_page_away(
    m: Map<Seq<char>, SessionView>,
    id: Seq<char>,
    closed: Option<u64>,
    lines: Seq<Seq<char>>,
    attached: bool,
    now: int,
)
    requires
        m.contains_key(id),
    ensures
        ({
            let (shown, n) = router::finished(
                m,
                Some(id),
                RoutePlanView::ClosePage { closed },
                lines,
                attached,
                now,
            );
            &&& shown == Ok::<_, Seq<char>>(lines)
            &&& closed is Some && m[id].page == closed ==> n[id].page is None && n[id].target is None
                && n[id].url is None && !n[id].by_daemon && n[id].bindings == Map::<
                Seq<char>,
                session::BindingView,
            >::empty() && n[id].id == m[id].id && n[id].owned == m[id].owned
            &&& closed is None || m[id].page != closed ==> n == m
        }),
{
}

/// A call that took the session to an address is remembered with it, unless it failed.
pub proof fn addresses_are_remembered(
    m: Map<Seq<char>, SessionView>,
    id: Seq<char>,
    page: u64,
    url: Option<Seq<char>>,
    lines: Seq<Seq<char>>,
    now: int,
)
    requires
        m.contains_key(id),
    ensures
        ({
            let n = router::noted_address(m, id, page, url, lines, now);
            &&& url is Some && !tool_failed(lines) ==> n[id].url == url && n[id].page == Some(page)
                && n[id].by_daemon == m[id].by_daemon
            &&& url is None || tool_failed(lines) ==> n == m
        }),
{
}

/// Only a refused upload is made good: then, and only if the files could be given to the
/// page, the answer is replaced by one to the same request.
pub proof fn only_refused_uploads_are_made_good(
    page: u64,
    uploads: Option<Seq<Seq<char>>>,
    navigated: Option<Seq<char>>,
    lines: Seq<Seq<char>>,
    attached: bool,
)
    ensures
        ({
            let plan = RoutePlanView::Scoped { page, uploads, navigated };
            let refused = lines.len() > 0 && (json::json_parse(lines.last()) matches Ok(v)
                && pages::upload_refused(v));
            &&& router::fallback_files(plan, lines) == (if refused {
                uploads
            } else {
                None
            })
            &&& !(attached && refused && uploads is Some) ==> router::after_fallback(
                plan,
                lines,
                attached,
            ) == lines
            &&& attached && refused && uploads is Some ==> router::after_fallback(
                plan,
                lines,
                attached,
            ) == (match places::member(json::json_parse(lines.last())->Ok_0, "id"@) {
                Some(id) => seq![json::json_text(pages::fallback_reply(id))],
                None => Seq::empty(),
            })
        }),
{
}

/// What a plain call and a list of pages or tools does: nothing to any session, and only the
/// last line of the answer may be shown otherwise.
pub proof fn listings_change_no_session(
    m: Map<Seq<char>, SessionView>,
    id: Option<Seq<char>>,
    lines: Seq<Seq<char>>,
    attached: bool,
    now: int,
    i: int,
)
    ensures
        router::finished(m, id, RoutePlanView::Plain, lines, attached, now) == (
            Ok::<_, Seq<char>>(lines),
            m,
        ),
        ({
            let tools = router::finished(m, id, RoutePlanView::ToolsList, lines, attached, now);
            let open = router::finished(m, id, RoutePlanView::ListPages, lines, attached, now);
            &&& tools.1 == m && open.1 == m
            &&& tools.0 is Ok && open.0 is Ok
            &&& tools.0->Ok_0.len() == lines.len() && open.0->Ok_0.len() == lines.len()
            &&& 0 <= i < lines.len() - 1 ==> tools.0->Ok_0[i] == lines[i] && open.0->Ok_0[i]
                == lines[i]
            &&& id is None && lines.len() > 0 ==> open.0->Ok_0 == lines
            &&& lines.len() > 0 && id is Some && m.contains_key(id->0) && m[id->0].page is Some
                && json::json_parse(lines.last()) is Ok ==> open.0->Ok_0.last() == json::json_text(
                pages::marked(json::json_parse(lines.last())->Ok_0, m[id->0].page->0),
            )
        }),
{
}

/// The lines of an answer are shown one by one, in order, each with its own uids replaced.
pub proof fn answers_are_shown_line_by_line(
    m: Map<Seq<char>, SessionView>,
    lines: Seq<Seq<char>>,
    line: Seq<char>,
    id: Seq<char>,
    page: u64,
    now: int,
)
    ensures
        ({
            let before = uids::lines_tokenized(m, lines, id, page, now);
            let both = uids::lines_tokenized(m, lines.push(line), id, page, now);
            before.0 matches Ok(done) ==> ({
                let last = uids::line_tokenized(before.1, line, id, page, now);
                &&& both.1 == last.1
                &&& last.0 matches Ok(shown) ==> both.0 == Ok::<_, Seq<char>>(done.push(shown))
                &&& last.0 is Err ==> both.0 is Err
            })
        }),
        json::json_parse(line) is Err ==> uids::line_tokenized(m, line, id, page, now) == (
            Ok::<_, Seq<char>>(line),
            m,
        ),
        json::json_parse(line) matches Ok(v) ==> uids::raw_uids(v) == Set::<Seq<char>>::empty()
            ==> uids::line_tokenized(m, line, id, page, now) == (Ok::<_, Seq<char>>(line), m),
{
    assert(lines.push(line).drop_last() =~= lines);
}

/// A line that is no message goes to the server as it is, and comes to nothing more; one that
/// is goes where the message goes.
pub proof fn lines_go_where_their_message_goes(
    m: Map<Seq<char>, SessionView>,
    session_id: Option<Seq<char>>,
    id: Seq<char>,
    page: u64,
    line: Seq<char>,
)
    ensures
        json::json_parse(line) matches Ok(request) ==> router::routed_line(session_id, line)
            == router::routed(session_id, line, request) && router::routed_line_on_page(
            m,
            id,
            page,
            line,
        ) == router::routed_on_page(m, id, page, request) && native::line_native_call(
            m,
            session_id,
            line,
        ) == native::native_call(m, session_id, request),
        json::json_parse(line) is Err ==> router::routed_line(session_id, line) == (
        RouteView::Forward { line, plan: RoutePlanView::Plain })
            && router::routed_line_on_page(m, id, page, line) == (RouteView::Forward {
            line,
            plan: RoutePlanView::Plain,
        }) && native::line_native_call(m, session_id, line) is None,
{
}

/// The last line of an answer is shown as its message is to be shown; a line that is no
/// message, or has nothing to show otherwise, is shown as it is.
pub proof fn lines_show_their_message(line: Seq<char>, number: u64, lines: Seq<Seq<char>>)
    ensures
        ({
            let message = json::json_parse(line);
            &&& message is Err ==> pages::pageless_line(line) == line && native::extended_line(line)
                == line && pages::marked_line(line, number) == line && pages::fallback_lines(line)
                == Seq::<Seq<char>>::empty()
            &&& message is Ok && page_laws::told_tools(message->Ok_0) is None
                ==> pages::pageless_line(line) == line && native::extended_line(line) == line
            &&& message is Ok && page_laws::told_tools(message->Ok_0) is Some
                ==> pages::pageless_line(line) == json::json_text(
                pages::pageless_listing(message->Ok_0)->0,
            ) && native::extended_line(line) == json::json_text(
                native::extended_listing(message->Ok_0)->0,
            )
            &&& message is Ok ==> pages::marked_line(line, number) == json::json_text(
                pages::marked(message->Ok_0, number),
            )
        }),
        router::listed_tools(lines.push(line)) == lines.push(
            native::extended_line(pages::pageless_line(line)),
        ),
        router::listed_tools(Seq::empty()) == Seq::<Seq<char>>::empty(),
{
    if json::json_parse(line) is Ok {
        page_laws::every_tool_is_shown(json::json_parse(line)->Ok_0);
    }
    assert(lines.push(line).drop_last() =~= lines);
}

/// What is asked of a session is what it has, and nothing where it is not there.
pub proof fn sessions_are_asked(m: Map<Seq<char>, SessionView>, id: Seq<char>)
    ensures
        m.contains_key(id) ==> session::page_in(m, id) == m[id].page && session::url_in(m, id)
            == m[id].url && session::target_in(m, id) == m[id].target && session::by_daemon_in(
            m,
            id,
        ) == m[id].by_daemon,
        !m.contains_key(id) ==> session::page_in(m, id) is None && session::url_in(m, id) is None
            && session::target_in(m, id) is None && !session::by_daemon_in(m, id),
{
}

/// A server that has ended, or whose browser cannot be reached, is started anew.
pub proof fn servers_are_started_anew(exited: bool, reachable: bool)
    ensures
        router::restart_reason(exited, reachable) is None <==> !exited && reachable,
{
}

/// A call that is made for the daemon itself has its tool and its arguments.
pub proof fn own_calls_name_their_tool(name: Seq<char>, arguments: JsonView)
    ensures
        method_in(router::tool_call(name, arguments)) == "tools/call"@,
        tool_in(router::tool_call(name, arguments)) == name,
        param_in(router::tool_call(name, arguments), "arguments"@) == Some(arguments),
{
    reveal_strlit("method");
    reveal_strlit("params");
    reveal_strlit("name");
    reveal_strlit("arguments");
    assert("method"@[0] == 'm' && "params"@[0] == 'p');
    assert("name"@.len() == 4 && "arguments"@.len() == 9);
}

/// An upload that was made good, or could not be, is noted with its session and its page.
pub proof fn uploads_are_noted(id: Seq<char>, page: u64, error: Seq<char>)
    ensures
        router::upload_note(id, page, Ok(())) == "upload_file_fallback session="@ + id + " page="@
            + crate::text::decimal(page as nat),
        router::upload_note(id, page, Err(error))
            == "warning: upload_file_fallback_failed session="@ + id + " page="@
            + crate::text::decimal(page as nat) + " error="@ + error,
{
    reveal_strlit("upload_file_fallback session=");
    reveal_strlit("upload_file_fallback ");
    reveal_strlit("session=");
    reveal_strlit("warning: upload_file_fallback_failed session=");
    reveal_strlit("warning: upload_file_fallback_failed ");
    let number = crate::text::decimal(page as nat);
    assert(router::upload_note(id, page, Ok(())) =~= "upload_file_fallback session="@ + id
        + " page="@ + number);
    assert(router::upload_note(id, page, Err(error))
        =~= "warning: upload_file_fallback_failed session="@ + id + " page="@ + number
        + " error="@ + error);
}

/// The answer to a call on a page is shown with the session's tokens, after the address that
/// it led to was remembered; a refused upload that was made good is shown as its own answer.
/// Without a session an answer is shown as it is.
pub proof fn answers_on_a_page_are_shown_with_tokens(
    m: Map<Seq<char>, SessionView>,
    id: Seq<char>,
    page: u64,
    uploads: Option<Seq<Seq<char>>>,
    navigated: Option<Seq<char>>,
    lines: Seq<Seq<char>>,
    attached: bool,
    now: int,
)
    ensures
        ({
            let plan = RoutePlanView::Scoped { page, uploads, navigated };
            let shown = router::after_fallback(plan, lines, attached);
            let there = navigated is Some && !tool_failed(shown) && m.contains_key(id);
            let known = if there {
                m.insert(
                    id,
                    session::paged(m[id], page, m[id].by_daemon, navigated, now),
                )
            } else {
                m
            };
            router::finished(m, Some(id), plan, lines, attached, now) == uids::lines_tokenized(
                known,
                shown,
                id,
                page,
                now,
            )
        }),
        router::finished(
            m,
            None,
            RoutePlanView::Scoped { page, uploads, navigated },
            lines,
            attached,
            now,
        ) == (Ok::<_, Seq<char>>(lines), m),
{
}

/// A message with uids is shown with their tokens, which the session then knows; where the
/// session is gone it is not shown.
pub proof fn messages_with_uids_are_shown_with_tokens(
    m: Map<Seq<char>, SessionView>,
    line: Seq<char>,
    v: JsonView,
    id: Seq<char>,
    page: u64,
    now: int,
    u: Seq<char>,
)
    requires
        json::json_parse(line) == Ok::<_, Seq<char>>(v),
        uids::raw_uids(v).contains(u),
    ensures
        m.contains_key(id) ==> ({
            let found = uids::raw_uids(v);
            let n = session::snapped(m[id], id, page, found, now);
            uids::line_tokenized(m, line, id, page, now) == (
                Ok::<_, Seq<char>>(
                    json::json_text(
                        uids::uids_replaced(v, session::token_map(id, n.epoch, found)),
                    ),
                ),
                m.insert(id, n),
            )
        }),
        !m.contains_key(id) ==> uids::line_tokenized(m, line, id, page, now) == (
            Err::<Seq<char>, _>(session::unknown_session(id)),
            m,
        ),
{
    assert(uids::raw_uids(v) != Set::<Seq<char>>::empty());
}

/// The daemon runs a tool itself only where it is one of its own, in a call, for a session
/// that has a page.
pub proof fn only_native_calls_are_run(
    m: Map<Seq<char>, SessionView>,
    id: Option<Seq<char>>,
    request: JsonView,
)
    ensures
        native::native_call(m, id, request) is Some <==> id is Some && m.contains_key(id->0)
            && m[id->0].page is Some && method_in(request) == "tools/call"@ && native::native(
            tool_in(request),
        ),
{
    lemma_tool_words();
    reveal_strlit("tools/call");
    assert("tools/call"@.len() == 10);
    assert(native::native(tool_in(request)) ==> tool_in(request).len() > 0);
}

/// An upload is forwarded with the files that its call names, for the case that it is refused.
pub proof fn uploads_keep_their_files(
    m: Map<Seq<char>, SessionView>,
    id: Seq<char>,
    page: u64,
    request: JsonView,
)
    requires
        tool_in(request) == "upload_file"@,
    ensures
        router::routed_on_page(m, id, page, request) matches RouteView::Forward { line, plan } ==> (
        plan matches RoutePlanView::Scoped { page: p, uploads, navigated } && uploads == Some(
            match param_in(request, "arguments"@) {
                Some(arguments) => pages::upload_paths(arguments),
                None => Seq::empty(),
            },
        )),
{
    lemma_tool_words();
    reveal_strlit("");
    assert(""@ =~= Seq::empty());
}

/// A page is closed for an ended session just when it is still open and not the only one.
pub proof fn open_pages_can_be_closed(current: Seq<u64>, page: u64)
    ensures
        router::closable(current, page) <==> current.len() > 1 && exists|i: int|
            0 <= i < current.len() && #[trigger] current[i] == page,
{
    if router::closable(current, page) {
        let i = choose|i: int| 0 <= i < current.len() && current[i] == page;
        assert(current[i] == page);
    }
    if exists|i: int| 0 <= i < current.len() && #[trigger] current[i] == page {
        assert(current.contains(page));
    }
}

} // verus!
