//! Routing: what becomes of a client's request on its way to the MCP server and of the
//! response on its way back.
use crate::cdp;
use crate::cdp::added_target;
use crate::json;
use crate::json::{Json, JsonView};
use crate::native;
use crate::native::{inject_native_tool_defs, is_native_tool, CallView, NativeCall};
use crate::pages;
use crate::pages::{
    annotate_session_page, inject_page_id, is_page_scoped_tool, selected_page_id, set_last_line,
    strip_page_id_schema, upload_file_fallback_response, upload_file_needs_fallback,
    upload_file_paths, EntryView, PageEntry,
};
use crate::rpc;
use crate::session;
use crate::session::{
    record_session_page, session_page, session_page_created_by_daemon, CleanupView, PageCleanup,
    SessionRegistry, SessionView,
};
use crate::table::Table;
use crate::text;
use crate::text::{contains, joined, number_text, same};
use crate::uids;
use crate::uids::{rewrite_uid_responses, translate_uid_fields};
use vstd::prelude::*;

verus! {

/// What is to be done with the response to a forwarded request.
pub enum RoutePlan {
    /// Hand it on.
    Plain,
    /// Adapt the list of tools.
    ToolsList,
    /// Note the page that was opened, at this address.
    NewPage { url: Option<String> },
    /// Mark the session's page.
    ListPages,
    /// Note the page that was chosen.
    SelectPage { requested: Option<u64> },
    /// Forget the page that was closed.
    ClosePage { closed: Option<u64> },
    /// Put tokens in the place of uids; note where the page went; attach files in another
    /// way where the server could not.
    Scoped { page_id: u64, uploads: Option<Vec<String>>, navigated: Option<String> },
}

/// What is to be done with the response to a forwarded request.
pub enum RoutePlanView {
    Plain,
    ToolsList,
    NewPage { url: Option<Seq<char>> },
    ListPages,
    SelectPage { requested: Option<u64> },
    ClosePage { closed: Option<u64> },
    Scoped { page: u64, uploads: Option<Seq<Seq<char>>>, navigated: Option<Seq<char>> },
}

impl View for RoutePlan {
    type V = RoutePlanView;

    open spec fn view(&self) -> RoutePlanView {
        match self {
            RoutePlan::Plain => RoutePlanView::Plain,
            RoutePlan::ToolsList => RoutePlanView::ToolsList,
            RoutePlan::NewPage { url } => RoutePlanView::NewPage { url: text::opt_text(*url) },
            RoutePlan::ListPages => RoutePlanView::ListPages,
            RoutePlan::SelectPage { requested } => RoutePlanView::SelectPage {
                requested: *requested,
            },
            RoutePlan::ClosePage { closed } => RoutePlanView::ClosePage { closed: *closed },
            RoutePlan::Scoped { page_id, uploads, navigated } => RoutePlanView::Scoped {
                page: *page_id,
                uploads: match uploads {
                    Some(files) => Some(text::texts(files@)),
                    None => None,
                },
                navigated: text::opt_text(*navigated),
            },
        }
    }
}

/// What to do with a request.
pub enum RouteStep {
    /// Forward this line, then deal with the response.
    Forward { line: String, plan: RoutePlan },
    /// Make sure that the session has a page, then go on. Where `traced` is set and a page
    /// is opened for it, the target of its tab is found out.
    NeedPage { traced: bool },
    /// Run this call of one of the daemon's own tools.
    Native(NativeCall),
    /// Answer with these lines.
    Done(Vec<String>),
    /// The request cannot be routed.
    Failed(String),
}

/// What to do with a request.
pub enum RouteView {
    Forward { line: Seq<char>, plan: RoutePlanView },
    NeedPage { traced: bool },
    Native(CallView),
    Done(Seq<Seq<char>>),
    Failed(Seq<char>),
}

impl View for RouteStep {
    type V = RouteView;

    open spec fn view(&self) -> RouteView {
        match self {
            RouteStep::Forward { line, plan } => RouteView::Forward { line: line@, plan: plan@ },
            RouteStep::NeedPage { traced } => RouteView::NeedPage { traced: *traced },
            RouteStep::Native(call) => RouteView::Native(call@),
            RouteStep::Done(lines) => RouteView::Done(text::texts(lines@)),
            RouteStep::Failed(message) => RouteView::Failed(message@),
        }
    }
}

/// The address that a call asks for.
pub open spec fn requested_url(request: JsonView) -> Option<Seq<char>> {
    match rpc::arguments_of(request) {
        Some(arguments) => json::text_field(arguments, "url"@),
        None => None,
    }
}

/// The page that a call names.
pub open spec fn requested_page(request: JsonView) -> Option<u64> {
    match rpc::arguments_of(request) {
        Some(arguments) => json::u64_field(arguments, "pageId"@),
        None => None,
    }
}

/// A call of `new_page` that does not bring the browser to the front, unless it says
/// otherwise.
pub open spec fn in_background(request: JsonView) -> JsonView {
    match rpc::params_of(request) {
        Some(params) => if params is Object {
            let arguments = match json::field(params, "arguments"@) {
                Some(a) => a,
                None => json::empty_object(),
            };
            let quiet = match json::field(arguments, "background"@) {
                Some(_) => arguments,
                None => json::put(arguments, "background"@, JsonView::Bool(true)),
            };
            json::put(request, "params"@, json::put(params, "arguments"@, quiet))
        } else {
            request
        },
        None => request,
    }
}

/// What to do with a request, before anything is known of the session's page.
pub open spec fn routed(session_id: Option<Seq<char>>, line: Seq<char>, request: JsonView) -> RouteView {
    let method = session::or_empty(rpc::method_of(request));
    let name = session::or_empty(rpc::tool_of(request));
    if method == "tools/list"@ {
        RouteView::Forward { line, plan: RoutePlanView::ToolsList }
    } else if method != "tools/call"@ {
        RouteView::Forward { line, plan: RoutePlanView::Plain }
    } else if name == "new_page"@ {
        RouteView::Forward {
            line: json::json_text(in_background(request)),
            plan: RoutePlanView::NewPage { url: requested_url(request) },
        }
    } else if name == "list_pages"@ {
        RouteView::Forward { line, plan: RoutePlanView::ListPages }
    } else if name == "select_page"@ {
        RouteView::Forward {
            line,
            plan: RoutePlanView::SelectPage { requested: requested_page(request) },
        }
    } else if name == "close_page"@ {
        if requested_page(request) is Some || session_id is None {
            RouteView::Forward {
                line: json::json_text(request),
                plan: RoutePlanView::ClosePage { closed: requested_page(request) },
            }
        } else {
            RouteView::NeedPage { traced: false }
        }
    } else if native::native(name) {
        if session_id is Some {
            RouteView::NeedPage { traced: true }
        } else {
            RouteView::Failed("native tool requires a bound session"@)
        }
    } else if pages::page_scoped(name) {
        if session_id is Some {
            RouteView::NeedPage { traced: true }
        } else {
            RouteView::Failed("page-scoped tool requires a bound session"@)
        }
    } else {
        RouteView::Forward { line, plan: RoutePlanView::Plain }
    }
}

/// What to do with a line.
pub open spec fn routed_line(session_id: Option<Seq<char>>, line: Seq<char>) -> RouteView {
    match json::json_parse(line) {
        Ok(request) => routed(session_id, line, request),
        Err(_) => RouteView::Forward { line, plan: RoutePlanView::Plain },
    }
}

fn url_requested(value: &Json) -> (r: Option<String>)
    ensures
        text::opt_text(r) == requested_url(value@),
{
    match rpc::tool_arguments(value) {
        Some(arguments) => match arguments.get_str("url") {
            Some(url) => Some(url.to_string()),
            None => None,
        },
        None => None,
    }
}

fn page_requested(value: &Json) -> (r: Option<u64>)
    ensures
        r == requested_page(value@),
{
    match rpc::tool_arguments(value) {
        Some(arguments) => arguments.get_u64("pageId"),
        None => None,
    }
}

/// Makes a call of `new_page` stay in the background, unless it says otherwise.
pub fn quiet_new_page(value: Json) -> (r: Json)
    ensures
        r@ == in_background(value@),
{
    let params = match value.get("params") {
        Some(params) => {
            if !params.is_object() {
                None
            } else {
                Some(params.copy())
            }
        },
        None => None,
    };
    match params {
        Some(params) => {
            let arguments = match params.get("arguments") {
                Some(arguments) => arguments.copy(),
                None => Json::object(),
            };
            let said = match arguments.get("background") {
                Some(_) => true,
                None => false,
            };
            let quiet = if said {
                arguments
            } else {
                arguments.with("background", Json::Bool(true))
            };
            value.with("params", params.with("arguments", quiet))
        },
        None => value,
    }
}

/// Decides what to do with a parsed request.
pub fn route_value(session_id: Option<&str>, line: &str, value: Json) -> (r: RouteStep)
    ensures
        r@ == routed(text::opt_str(session_id), line@, value@),
{
    let method = match value.get_str("method") {
        Some(method) => method.to_string(),
        None => "".to_string(),
    };
    let name = match rpc::tool_name(&value) {
        Some(name) => name.to_string(),
        None => "".to_string(),
    };
    let name = name.as_str();
    if same(method.as_str(), "tools/list") {
        RouteStep::Forward { line: line.to_string(), plan: RoutePlan::ToolsList }
    } else if !same(method.as_str(), "tools/call") {
        RouteStep::Forward { line: line.to_string(), plan: RoutePlan::Plain }
    } else if same(name, "new_page") {
        let url = url_requested(&value);
        RouteStep::Forward {
            line: quiet_new_page(value).text(),
            plan: RoutePlan::NewPage { url },
        }
    } else if same(name, "list_pages") {
        RouteStep::Forward { line: line.to_string(), plan: RoutePlan::ListPages }
    } else if same(name, "select_page") {
        RouteStep::Forward {
            line: line.to_string(),
            plan: RoutePlan::SelectPage { requested: page_requested(&value) },
        }
    } else if same(name, "close_page") {
        let page_id = page_requested(&value);
        if page_id.is_some() || session_id.is_none() {
            RouteStep::Forward { line: value.text(), plan: RoutePlan::ClosePage { closed: page_id } }
        } else {
            RouteStep::NeedPage { traced: false }
        }
    } else if is_native_tool(name) {
        if session_id.is_some() {
            RouteStep::NeedPage { traced: true }
        } else {
            RouteStep::Failed("native tool requires a bound session".to_string())
        }
    } else if is_page_scoped_tool(name) {
        if session_id.is_some() {
            RouteStep::NeedPage { traced: true }
        } else {
            RouteStep::Failed("page-scoped tool requires a bound session".to_string())
        }
    } else {
        RouteStep::Forward { line: line.to_string(), plan: RoutePlan::Plain }
    }
}

/// Decides what to do with a client's line.
pub fn route_request(session_id: Option<&str>, line: &str) -> (r: RouteStep)
    ensures
        r@ == routed_line(text::opt_str(session_id), line@),
{
    match Json::parse(line) {
        Ok(value) => route_value(session_id, line, value),
        Err(_) => RouteStep::Forward { line: line.to_string(), plan: RoutePlan::Plain },
    }
}

/// Whether a session has a page.
pub enum PageStep {
    /// It has this one.
    Ready(u64),
    /// It needs one.
    Allocate,
    /// There is no such session.
    Failed(String),
}

/// Whether a session has a page.
pub enum PageStepView {
    Ready(u64),
    Allocate,
    Failed(Seq<char>),
}

impl View for PageStep {
    type V = PageStepView;

    open spec fn view(&self) -> PageStepView {
        match self {
            PageStep::Ready(page) => PageStepView::Ready(*page),
            PageStep::Allocate => PageStepView::Allocate,
            PageStep::Failed(message) => PageStepView::Failed(message@),
        }
    }
}

/// Whether a session has a page.
pub open spec fn page_step(m: Map<Seq<char>, SessionView>, id: Seq<char>) -> PageStepView {
    if !m.contains_key(id) {
        PageStepView::Failed(session::unknown_session(id))
    } else {
        match m[id].page {
            Some(page) => PageStepView::Ready(page),
            None => PageStepView::Allocate,
        }
    }
}

/// Whether a session has a page.
pub fn ensure_session_page(sessions: &SessionRegistry, session_id: &str) -> (r: PageStep)
    requires
        sessions.wf(),
    ensures
        r@ == page_step(sessions@, session_id@),
{
    match sessions.get(session_id) {
        None => PageStep::Failed(joined("unknown session: ", session_id)),
        Some(session) => match session.page_id {
            Some(page) => PageStep::Ready(page),
            None => PageStep::Allocate,
        },
    }
}

/// A call of a tool by the daemon itself.
pub open spec fn tool_call(name: Seq<char>, arguments: JsonView) -> JsonView {
    json::put(
        json::put(json::empty_object(), "method"@, json::jstr("tools/call"@)),
        "params"@,
        json::put(
            json::put(json::empty_object(), "name"@, json::jstr(name)),
            "arguments"@,
            arguments,
        ),
    )
}

/// A call of a tool by the daemon itself.
pub fn tool_call_json(name: &str, arguments: Json) -> (r: Json)
    ensures
        r@ == tool_call(name@, arguments@),
{
    let params = Json::object().with("name", Json::str(name)).with("arguments", arguments);
    Json::object().with("method", Json::str("tools/call")).with("params", params)
}

/// The call that opens a page for a session.
pub fn allocation_request() -> (r: Json)
    ensures
        r@ == tool_call(
            "new_page"@,
            json::put(
                json::put(json::empty_object(), "url"@, json::jstr("about:blank"@)),
                "background"@,
                JsonView::Bool(true),
            ),
        ),
{
    tool_call_json(
        "new_page",
        Json::object().with("url", Json::str("about:blank")).with("background", Json::Bool(true)),
    )
}

/// The call that lists the pages.
pub fn list_pages_request() -> (r: Json)
    ensures
        r@ == tool_call("list_pages"@, json::empty_object()),
{
    tool_call_json("list_pages", Json::object())
}

/// The call that closes a page.
pub fn close_page_request(page_id: u64) -> (r: Json)
    ensures
        r@ == tool_call(
            "close_page"@,
            json::put(json::empty_object(), "pageId"@, json::num(page_id)),
        ),
{
    tool_call_json("close_page", Json::object().with("pageId", Json::uint(page_id)))
}

/// The call by which a server that did not answer is tried.
pub fn probe_mcp_runtime() -> (r: Json)
    ensures
        r@ == json::put(
            json::put(json::empty_object(), "method"@, json::jstr("tools/list"@)),
            "params"@,
            json::empty_object(),
        ),
{
    Json::object().with("method", Json::str("tools/list")).with("params", Json::object())
}

/// A session that got a page of its own.
pub open spec fn settled_on(
    s: SessionView,
    page: u64,
    target: Option<Seq<char>>,
    now: int,
) -> SessionView {
    session::targeted(session::paged(s, page, true, Some("about:blank"@), now), target)
}

/// Giving a session the page that the server opened for it: its number, and the target that
/// is new among the browser's tabs since before, if that can be told.
pub open spec fn allocated(
    m: Map<Seq<char>, SessionView>,
    id: Seq<char>,
    response: JsonView,
    before: Seq<Seq<char>>,
    after: Option<Seq<Seq<char>>>,
    now: int,
) -> (Result<u64, Seq<char>>, Map<Seq<char>, SessionView>) {
    match pages::selected_in(response) {
        None => (Err("failed to determine the allocated page id"@), m),
        Some(page) => if !m.contains_key(id) {
            (Err(session::unknown_session(id)), m)
        } else {
            let target = match after {
                Some(ids) => cdp::the_new_target(before, ids),
                None => None,
            };
            (Ok(page), m.insert(id, settled_on(m[id], page, target, now)))
        },
    }
}

/// A page number, or the message of an error.
pub open spec fn page_result(r: Result<u64, String>) -> Result<u64, Seq<char>> {
    match r {
        Ok(page) => Ok(page),
        Err(message) => Err(message@),
    }
}

/// Gives a session the page that the server opened for it.
pub fn allocate_session_page(
    sessions: &mut SessionRegistry,
    session_id: &str,
    response: &Json,
    before: &Vec<String>,
    after: Option<&Vec<String>>,
    now: i128,
) -> (r: Result<u64, String>)
    requires
        old(sessions).wf(),
    ensures
        final(sessions).wf(),
        final(sessions).made() == old(sessions).made(),
        (page_result(r), final(sessions)@) == allocated(
            old(sessions)@,
            session_id@,
            response@,
            text::texts(before@),
            match after {
                Some(ids) => Some(text::texts(ids@)),
                None => None,
            },
            now as int,
        ),
{
    let page_id: u64 = match selected_page_id(response) {
        Some(page_id) => page_id,
        None => {
            return Err("failed to determine the allocated page id".to_string());
        },
    };
    let target_id = match after {
        Some(ids) => added_target(before, ids),
        None => None,
    };
    let ghost m = sessions@;
    match sessions.set_page(session_id, page_id, true, Some("about:blank".to_string()), now) {
        Ok(()) => {
            sessions.set_target_id(session_id, target_id);
            assert(sessions@ =~= m.insert(
                session_id@,
                settled_on(m[session_id@], page_id, text::opt_text(target_id), now as int),
            ));
            Ok(page_id)
        },
        Err(message) => Err(message),
    }
}

/// A request with other arguments.
pub open spec fn with_arguments(request: JsonView, arguments: JsonView) -> JsonView {
    json::put(
        request,
        "params"@,
        json::put(rpc::params_of(request)->0, "arguments"@, arguments),
    )
}

/// A request on a page as the server gets it, or why a token in it is refused.
pub open spec fn on_session_page(
    m: Map<Seq<char>, SessionView>,
    id: Seq<char>,
    page: u64,
    request: JsonView,
) -> Result<JsonView, Seq<char>> {
    let paged = pages::on_page(request, page);
    match rpc::arguments_of(paged) {
        Some(arguments) => match uids::fields_translated(m, id, page, arguments) {
            Ok(translated) => Ok(with_arguments(paged, translated)),
            Err(message) => Err(message),
        },
        None => Ok(paged),
    }
}

/// What to do with a request of a session once its page is known. A token that is refused
/// is answered at once, and nothing reaches the server.
pub open spec fn routed_on_page(
    m: Map<Seq<char>, SessionView>,
    id: Seq<char>,
    page: u64,
    request: JsonView,
) -> RouteView {
    let name = session::or_empty(rpc::tool_of(request));
    if name == "close_page"@ {
        RouteView::Forward {
            line: json::json_text(pages::on_page(request, page)),
            plan: RoutePlanView::ClosePage { closed: Some(page) },
        }
    } else if native::native(name) {
        match native::native_call(m, Some(id), request) {
            Some(call) => RouteView::Native(call),
            None => RouteView::Failed("failed to route native tool: "@ + name),
        }
    } else {
        match on_session_page(m, id, page, request) {
            Err(message) => RouteView::Done(
                rpc::error_lines(pages::on_page(request, page), message),
            ),
            Ok(forwarded) => RouteView::Forward {
                line: json::json_text(forwarded),
                plan: RoutePlanView::Scoped {
                    page,
                    uploads: if name == "upload_file"@ {
                        Some(
                            match rpc::arguments_of(request) {
                                Some(arguments) => pages::upload_paths(arguments),
                                None => Seq::empty(),
                            },
                        )
                    } else {
                        None
                    },
                    navigated: if name == "navigate_page"@ {
                        requested_url(forwarded)
                    } else {
                        None
                    },
                },
            },
        }
    }
}

/// What to do with a line of a session once its page is known.
pub open spec fn routed_line_on_page(
    m: Map<Seq<char>, SessionView>,
    id: Seq<char>,
    page: u64,
    line: Seq<char>,
) -> RouteView {
    match json::json_parse(line) {
        Ok(request) => routed_on_page(m, id, page, request),
        Err(_) => RouteView::Forward { line, plan: RoutePlanView::Plain },
    }
}

/// Decides what to do with a parsed request of a session once its page is known.
pub fn route_value_on_page(
    sessions: &SessionRegistry,
    session_id: &str,
    page_id: u64,
    value: Json,
) -> (r: RouteStep)
    requires
        sessions.wf(),
    ensures
        r@ == routed_on_page(sessions@, session_id@, page_id, value@),
{
    let name = match rpc::tool_name(&value) {
        Some(name) => name.to_string(),
        None => "".to_string(),
    };
    if same(name.as_str(), "close_page") {
        let mut forwarded = value;
        inject_page_id(&mut forwarded, page_id);
        return RouteStep::Forward {
            line: forwarded.text(),
            plan: RoutePlan::ClosePage { closed: Some(page_id) },
        };
    }
    if is_native_tool(name.as_str()) {
        return match native::native_request(sessions, Some(session_id), &value) {
            Some(call) => RouteStep::Native(call),
            None => RouteStep::Failed(joined("failed to route native tool: ", name.as_str())),
        };
    }
    let uploads = if same(name.as_str(), "upload_file") {
        match rpc::tool_arguments(&value) {
            Some(arguments) => Some(upload_file_paths(arguments)),
            None => Some(rpc::no_lines()),
        }
    } else {
        None
    };
    let mut forwarded = value;
    inject_page_id(&mut forwarded, page_id);
    let translated = match rpc::tool_arguments(&forwarded) {
        Some(arguments) => match translate_uid_fields(
            arguments.copy(),
            sessions,
            session_id,
            page_id,
        ) {
            Ok(translated) => Some(translated),
            Err(message) => {
                return RouteStep::Done(rpc::request_error_line(&forwarded, message.as_str()));
            },
        },
        None => None,
    };
    if let Some(translated) = translated {
        if let Some(params) = forwarded.get_mut("params") {
            params.set("arguments", translated);
        }
    }
    let navigated = if same(name.as_str(), "navigate_page") {
        url_requested(&forwarded)
    } else {
        None
    };
    RouteStep::Forward {
        line: forwarded.text(),
        plan: RoutePlan::Scoped { page_id, uploads, navigated },
    }
}

/// Decides what to do with a line of a session once its page is known.
pub fn route_on_page(
    sessions: &SessionRegistry,
    session_id: &str,
    page_id: u64,
    line: &str,
) -> (r: RouteStep)
    requires
        sessions.wf(),
    ensures
        r@ == routed_line_on_page(sessions@, session_id@, page_id, line@),
{
    match Json::parse(line) {
        Ok(value) => route_value_on_page(sessions, session_id, page_id, value),
        Err(_) => RouteStep::Forward { line: line.to_string(), plan: RoutePlan::Plain },
    }
}

/// The last of some lines, read as JSON.
pub open spec fn last_value(lines: Seq<Seq<char>>) -> Option<JsonView> {
    if lines.len() > 0 {
        match json::json_parse(lines.last()) {
            Ok(v) => Some(v),
            Err(_) => None,
        }
    } else {
        None
    }
}

/// Whether a response reports an error of the protocol.
pub open spec fn has_error(response: Option<JsonView>) -> bool {
    response matches Some(v) && json::field(v, "error"@) is Some
}

/// Whether a response reports an error of the protocol or of the tool.
pub open spec fn went_wrong(response: Option<JsonView>) -> bool {
    response matches Some(v) && (json::field(v, "error"@) is Some || (json::field(v, "result"@)
        matches Some(result) && json::bool_field(result, "isError"@) == Some(true)))
}

/// The last of some lines, read as JSON.
pub fn last_response(lines: &Vec<String>) -> (r: Option<Json>)
    ensures
        rpc::opt_view(r) == last_value(text::texts(lines@)),
{
    if lines.len() > 0 {
        assert(text::texts(lines@).last() == lines[lines.len() - 1]@);
        match Json::parse(lines[lines.len() - 1].as_str()) {
            Ok(value) => Some(value),
            Err(_) => None,
        }
    } else {
        None
    }
}

/// Whether a response reports an error of the protocol.
pub fn response_has_error(response: Option<&Json>) -> (r: bool)
    ensures
        r == has_error(
            match response {
                Some(j) => Some(j@),
                None => None,
            },
        ),
{
    match response {
        Some(value) => match value.get("error") {
            Some(_) => true,
            None => false,
        },
        None => false,
    }
}

/// Whether a response reports an error of the protocol or of the tool.
pub fn response_went_wrong(response: Option<&Json>) -> (r: bool)
    ensures
        r == went_wrong(
            match response {
                Some(j) => Some(j@),
                None => None,
            },
        ),
{
    match response {
        Some(value) => match value.get("error") {
            Some(_) => true,
            None => match value.get("result") {
                Some(result) => result.get_bool("isError") == Some(true),
                None => false,
            },
        },
        None => false,
    }
}

/// The files that are to be attached in another way, because the server could not.
pub open spec fn fallback_files(plan: RoutePlanView, lines: Seq<Seq<char>>) -> Option<
    Seq<Seq<char>>,
> {
    match plan {
        RoutePlanView::Scoped { uploads: Some(files), .. } => if lines.len() > 0
            && pages::line_upload_refused(lines.last()) {
            Some(files)
        } else {
            None
        },
        _ => None,
    }
}

/// The files that are to be attached in another way, because the server could not.
pub fn upload_fallback(plan: &RoutePlan, lines: &Vec<String>) -> (r: Option<Vec<String>>)
    ensures
        match r {
            Some(files) => fallback_files(plan@, text::texts(lines@)) == Some(text::texts(files@)),
            None => fallback_files(plan@, text::texts(lines@)) is None,
        },
{
    match plan {
        RoutePlan::Scoped { uploads, .. } => match uploads {
            Some(files) => {
                if lines.len() > 0 {
                    assert(text::texts(lines@).last() == lines[lines.len() - 1]@);
                    if upload_file_needs_fallback(lines[lines.len() - 1].as_str()) {
                        return Some(copy_lines(files));
                    }
                }
                None
            },
            None => None,
        },
        _ => None,
    }
}

/// What the log says of attaching files in another way on the page of a session.
pub open spec fn upload_note(id: Seq<char>, page: u64, outcome: Result<(), Seq<char>>) -> Seq<
    char,
> {
    let place = "session="@ + id + " page="@ + text::decimal(page as nat);
    match outcome {
        Ok(_) => "upload_file_fallback "@ + place,
        Err(error) => "warning: upload_file_fallback_failed "@ + place + " error="@ + error,
    }
}

/// What the log says of attaching files in another way on the page of a session.
pub fn log_upload_fallback(session_id: &str, page_id: u64, outcome: &Result<(), String>) -> (r:
    String)
    ensures
        r@ == upload_note(
            session_id@,
            page_id,
            match outcome {
                Ok(done) => Ok(*done),
                Err(error) => Err(error@),
            },
        ),
{
    let mut place = joined("session=", session_id);
    place.append(" page=");
    place.append(number_text(page_id as u128).as_str());
    match outcome {
        Ok(_) => joined("upload_file_fallback ", place.as_str()),
        Err(error) => {
            let mut note = joined("warning: upload_file_fallback_failed ", place.as_str());
            note.append(" error=");
            note.append(error.as_str());
            note
        },
    }
}

/// A copy of a list of strings.
pub fn copy_lines(lines: &Vec<String>) -> (r: Vec<String>)
    ensures
        text::texts(r@) == text::texts(lines@),
{
    let mut out: Vec<String> = Vec::new();
    let mut i: usize = 0;
    while i < lines.len()
        invariant
            i <= lines.len(),
            text::texts(out@) =~= text::texts(lines@).take(i as int),
        decreases lines.len() - i,
    {
        let copied = lines[i].clone();
        proof {
            text::lemma_texts_push(out@, copied);
        }
        out.push(copied);
        i = i + 1;
    }
    assert(text::texts(out@) =~= text::texts(lines@));
    out
}

/// The response lines after files were attached in another way, if they were.
pub open spec fn after_fallback(
    plan: RoutePlanView,
    lines: Seq<Seq<char>>,
    attached: bool,
) -> Seq<Seq<char>> {
    if attached && fallback_files(plan, lines) is Some {
        pages::fallback_lines(lines.last())
    } else {
        lines
    }
}

/// The registry after a page went to an address, unless that went wrong.
pub open spec fn noted_address(
    m: Map<Seq<char>, SessionView>,
    id: Seq<char>,
    page: u64,
    url: Option<Seq<char>>,
    lines: Seq<Seq<char>>,
    now: int,
) -> Map<Seq<char>, SessionView> {
    if url is Some && !went_wrong(last_value(lines)) {
        session::adjusted(
            m,
            id,
            |s: SessionView| session::paged(s, page, s.by_daemon, url, now),
        )
    } else {
        m
    }
}

/// Lines whose last one lists tools, as clients see it.
pub open spec fn listed_tools(lines: Seq<Seq<char>>) -> Seq<Seq<char>> {
    if lines.len() > 0 {
        lines.drop_last().push(native::extended_line(pages::pageless_line(lines.last())))
    } else {
        lines
    }
}

/// The registry after a page was opened.
pub open spec fn noted_new_page(
    m: Map<Seq<char>, SessionView>,
    id: Seq<char>,
    url: Option<Seq<char>>,
    response: Option<JsonView>,
    now: int,
) -> Map<Seq<char>, SessionView> {
    match response {
        Some(v) => match pages::selected_in(v) {
            Some(page) => session::adjusted(
                m,
                id,
                |s: SessionView| session::paged(s, page, true, url, now),
            ),
            None => m,
        },
        None => m,
    }
}

/// What becomes of a response: the lines for the client and the registry afterwards.
/// `attached` says whether files were attached in another way, where that was called for.
pub open spec fn finished(
    m: Map<Seq<char>, SessionView>,
    session_id: Option<Seq<char>>,
    plan: RoutePlanView,
    lines: Seq<Seq<char>>,
    attached: bool,
    now: int,
) -> (Result<Seq<Seq<char>>, Seq<char>>, Map<Seq<char>, SessionView>) {
    match plan {
        RoutePlanView::Plain => (Ok(lines), m),
        RoutePlanView::ToolsList => (Ok(listed_tools(lines)), m),
        RoutePlanView::ListPages => (
            Ok(
                pages::annotated(
                    lines,
                    match session_id {
                        Some(id) => session::page_in(m, id),
                        None => None,
                    },
                ),
            ),
            m,
        ),
        RoutePlanView::NewPage { url } => (
            Ok(lines),
            match session_id {
                Some(id) => noted_new_page(m, id, url, last_value(lines), now),
                None => m,
            },
        ),
        RoutePlanView::SelectPage { requested } => (
            Ok(lines),
            match (session_id, requested) {
                (Some(id), Some(page)) => if has_error(last_value(lines)) {
                    m
                } else {
                    session::adjusted(
                        m,
                        id,
                        |s: SessionView| session::paged(s, page, false, None, now),
                    )
                },
                _ => m,
            },
        ),
        RoutePlanView::ClosePage { closed } => (
            Ok(lines),
            match (session_id, closed) {
                (Some(id), Some(number)) => if session::page_in(m, id) == Some(number) {
                    session::adjusted(m, id, |s: SessionView| session::pageless(s, now))
                } else {
                    m
                },
                _ => m,
            },
        ),
        RoutePlanView::Scoped { page, navigated, .. } => match session_id {
            Some(id) => {
                let shown = after_fallback(plan, lines, attached);
                uids::lines_tokenized(
                    noted_address(m, id, page, navigated, shown, now),
                    shown,
                    id,
                    page,
                    now,
                )
            },
            None => (Ok(lines), m),
        },
    }
}

fn finish_scoped(
    sessions: &mut SessionRegistry,
    session_id: &str,
    page_id: u64,
    navigated: Option<String>,
    lines: Vec<String>,
    now: i128,
) -> (r: Result<Vec<String>, String>)
    requires
        old(sessions).wf(),
    ensures
        final(sessions).wf(),
        final(sessions).made() == old(sessions).made(),
        (uids::result_texts(r), final(sessions)@) == uids::lines_tokenized(
            noted_address(
                old(sessions)@,
                session_id@,
                page_id,
                text::opt_text(navigated),
                text::texts(lines@),
                now as int,
            ),
            text::texts(lines@),
            session_id@,
            page_id,
            now as int,
        ),
{
    let ghost before = sessions@;
    let ghost address = text::opt_text(navigated);
    if let Some(url) = navigated {
        let response = last_response(&lines);
        if !response_went_wrong(response.as_ref()) {
            let by_daemon = session_page_created_by_daemon(sessions, session_id);
            let _ = record_session_page(sessions, session_id, page_id, by_daemon, Some(url), now);
        }
    }
    assert(sessions@ =~= noted_address(
        before,
        session_id@,
        page_id,
        address,
        text::texts(lines@),
        now as int,
    ));
    rewrite_uid_responses(lines, sessions, session_id, page_id, now)
}

/// Deals with the response to a forwarded request.
pub fn finish_route(
    sessions: &mut SessionRegistry,
    session_id: Option<&str>,
    plan: RoutePlan,
    lines: Vec<String>,
    attached: bool,
    now: i128,
) -> (r: Result<Vec<String>, String>)
    requires
        old(sessions).wf(),
    ensures
        final(sessions).wf(),
        final(sessions).made() == old(sessions).made(),
        (uids::result_texts(r), final(sessions)@) == finished(
            old(sessions)@,
            text::opt_str(session_id),
            plan@,
            text::texts(lines@),
            attached,
            now as int,
        ),
{
    let fallback = attached && upload_fallback(&plan, &lines).is_some();
    match plan {
        RoutePlan::Plain => Ok(lines),
        RoutePlan::ToolsList => {
            if lines.len() > 0 {
                assert(text::texts(lines@).last() == lines[lines.len() - 1]@);
                let pageless = strip_page_id_schema(lines[lines.len() - 1].as_str());
                let extended = inject_native_tool_defs(pageless.as_str());
                Ok(set_last_line(lines, extended))
            } else {
                Ok(lines)
            }
        },
        RoutePlan::ListPages => {
            let page = match session_id {
                Some(id) => session_page(sessions, id),
                None => None,
            };
            Ok(annotate_session_page(lines, page))
        },
        RoutePlan::NewPage { url } => {
            if let Some(id) = session_id {
                if let Some(response) = last_response(&lines) {
                    if let Some(page_id) = selected_page_id(&response) {
                        let _ = record_session_page(sessions, id, page_id, true, url, now);
                    }
                }
            }
            Ok(lines)
        },
        RoutePlan::SelectPage { requested } => {
            if let Some(id) = session_id {
                if let Some(page_id) = requested {
                    let response = last_response(&lines);
                    if !response_has_error(response.as_ref()) {
                        let _ = record_session_page(sessions, id, page_id, false, None, now);
                    }
                }
            }
            Ok(lines)
        },
        RoutePlan::ClosePage { closed } => {
            if let Some(id) = session_id {
                if let Some(page_id) = closed {
                    if session_page(sessions, id) == Some(page_id) {
                        sessions.clear_page(id, now);
                    }
                }
            }
            Ok(lines)
        },
        RoutePlan::Scoped { page_id, navigated, .. } => match session_id {
            Some(id) => {
                let shown = if fallback {
                    assert(text::texts(lines@).last() == lines[lines.len() - 1]@);
                    upload_file_fallback_response(lines[lines.len() - 1].as_str())
                } else {
                    lines
                };
                finish_scoped(sessions, id, page_id, navigated, shown, now)
            },
            None => Ok(lines),
        },
    }
}

/// Whether a page of an ended session is closed: it must still be there, and it must not be
/// the last one.
pub open spec fn closable(current: Seq<u64>, page: u64) -> bool {
    current.len() > 1 && current.contains(page)
}

/// Whether a page of an ended session is closed, given the pages that are open.
pub fn close_daemon_pages(current: &Vec<u64>, page_id: u64) -> (r: bool)
    ensures
        r == closable(current@, page_id),
{
    current.len() > 1 && has_number(current, page_id)
}

/// How far the cleanup after a restart of the server has come: how many pages are open,
/// which ones are to be closed, and how many more pages at each address the sessions had.
#[verifier::ext_equal]
pub struct SweepView {
    pub open: int,
    pub closed: Seq<u64>,
    pub left: Map<Seq<char>, usize>,
}

/// Whether an open page is the page of a session.
pub open spec fn is_that_page(entry: EntryView, page: CleanupView) -> bool {
    entry.id == page.page && (page.url matches Some(url) ==> entry.url == url)
}

/// The first open page that is the page of a session.
pub open spec fn that_page(entries: Seq<EntryView>, page: CleanupView) -> Option<EntryView>
    decreases entries.len(),
{
    if entries.len() == 0 {
        None
    } else if is_that_page(entries[0], page) {
        Some(entries[0])
    } else {
        that_page(entries.skip(1), page)
    }
}

/// One page less at an address.
pub open spec fn one_less(left: Map<Seq<char>, usize>, url: Option<Seq<char>>) -> Map<
    Seq<char>,
    usize,
> {
    match url {
        Some(u) => if left.contains_key(u) {
            left.insert(
                u,
                if left[u] == 0 {
                    0
                } else {
                    (left[u] - 1) as usize
                },
            )
        } else {
            left
        },
        None => left,
    }
}

/// How many pages the sessions had at each address.
pub open spec fn counted(cleanups: Seq<CleanupView>) -> Map<Seq<char>, usize>
    decreases cleanups.len(),
{
    if cleanups.len() == 0 {
        Map::empty()
    } else {
        let before = counted(cleanups.drop_last());
        match cleanups.last().url {
            Some(u) => before.insert(
                u,
                if before.contains_key(u) {
                    (before[u] + 1) as usize
                } else {
                    1
                },
            ),
            None => before,
        }
    }
}

/// Closing the page of a session that is still under its number. The last page stays.
pub open spec fn swept_page(s: SweepView, entries: Seq<EntryView>, page: CleanupView) -> SweepView {
    if s.open <= 1 {
        s
    } else {
        match that_page(entries, page) {
            None => s,
            Some(entry) => SweepView {
                open: s.open - 1,
                closed: s.closed.push(entry.id),
                left: one_less(s.left, page.url),
            },
        }
    }
}

/// Closing an open page that is at an address where a session's page got another number.
/// The last page stays, and so do an empty one and those that are `done` with.
pub open spec fn swept_entry(s: SweepView, done: Seq<u64>, entry: EntryView) -> SweepView {
    if s.open <= 1 || done.contains(entry.id) || entry.url == "about:blank"@
        || !s.left.contains_key(entry.url) || s.left[entry.url] == 0 {
        s
    } else {
        SweepView {
            open: s.open - 1,
            closed: s.closed.push(entry.id),
            left: one_less(s.left, Some(entry.url)),
        }
    }
}

/// Closing the pages of sessions that are still under their numbers.
pub open spec fn swept_pages(s: SweepView, entries: Seq<EntryView>, cleanups: Seq<CleanupView>) ->
    SweepView
    decreases cleanups.len(),
{
    if cleanups.len() == 0 {
        s
    } else {
        swept_page(swept_pages(s, entries, cleanups.drop_last()), entries, cleanups.last())
    }
}

/// Closing the pages that got other numbers.
pub open spec fn swept_entries(s: SweepView, done: Seq<u64>, entries: Seq<EntryView>) -> SweepView
    decreases entries.len(),
{
    if entries.len() == 0 {
        s
    } else {
        swept_entry(swept_entries(s, done, entries.drop_last()), done, entries.last())
    }
}

/// The pages to close after a restart of the server, in order.
pub open spec fn sweep(cleanups: Seq<CleanupView>, entries: Seq<EntryView>) -> Seq<u64> {
    let start = SweepView {
        open: entries.len() as int,
        closed: Seq::empty(),
        left: counted(cleanups),
    };
    let first = swept_pages(start, entries, cleanups);
    swept_entries(first, first.closed, entries).closed
}

/// A list of pages to close.
pub open spec fn cleanup_views(list: Seq<PageCleanup>) -> Seq<CleanupView> {
    list.map_values(|c: PageCleanup| c@)
}

fn find_page(entries: &Vec<PageEntry>, page: &PageCleanup) -> (r: Option<u64>)
    ensures
        match r {
            Some(id) => that_page(pages::entry_views(entries@), page@) matches Some(e) && e.id
                == id,
            None => that_page(pages::entry_views(entries@), page@) is None,
        },
{
    let ghost all = pages::entry_views(entries@);
    assert(all.skip(0) =~= all);
    let mut i: usize = 0;
    while i < entries.len()
        invariant
            i <= entries.len(),
            all == pages::entry_views(entries@),
            that_page(all, page@) == that_page(all.skip(i as int), page@),
        decreases entries.len() - i,
    {
        assert(all.skip(i as int)[0] == entries[i as int]@);
        assert(all.skip(i as int).skip(1) =~= all.skip(i + 1));
        let here = match &page.page_url {
            Some(url) => same(entries[i].url.as_str(), url.as_str()),
            None => true,
        };
        if entries[i].id == page.page_id && here {
            return Some(entries[i].id);
        }
        i = i + 1;
    }
    assert(all.skip(i as int).len() == 0);
    None
}

fn has_number(list: &Vec<u64>, n: u64) -> (r: bool)
    ensures
        r == list@.contains(n),
{
    let mut i: usize = 0;
    while i < list.len()
        invariant
            i <= list.len(),
            forall|j: int| 0 <= j < i ==> #[trigger] list@[j] != n,
        decreases list.len() - i,
    {
        if list[i] == n {
            assert(list@[i as int] == n);
            return true;
        }
        i = i + 1;
    }
    false
}

fn first_hold(list: &Vec<u64>, count: usize, n: u64) -> (r: bool)
    requires
        count <= list.len(),
    ensures
        r == list@.take(count as int).contains(n),
{
    let ghost front = list@.take(count as int);
    let mut i: usize = 0;
    while i < count
        invariant
            i <= count <= list.len(),
            front == list@.take(count as int),
            forall|j: int| 0 <= j < i ==> #[trigger] front[j] != n,
        decreases count - i,
    {
        if list[i] == n {
            assert(front[i as int] == n);
            return true;
        }
        i = i + 1;
    }
    false
}

fn take_one(left: &mut Table<usize>, url: &str)
    ensures
        final(left)@ == one_less(old(left)@, Some(url@)),
{
    let count = match left.get(url) {
        Some(n) => Some(*n),
        None => None,
    };
    if let Some(n) = count {
        let less: usize = if n == 0 {
            0
        } else {
            n - 1
        };
        left.insert(url.to_string(), less);
    }
}

proof fn lemma_counted_bound(cleanups: Seq<CleanupView>)
    requires
        cleanups.len() <= usize::MAX,
    ensures
        forall|u: Seq<char>| #[trigger]
            counted(cleanups).contains_key(u) ==> counted(cleanups)[u] <= cleanups.len(),
    decreases cleanups.len(),
{
    if cleanups.len() > 0 {
        let before = counted(cleanups.drop_last());
        lemma_counted_bound(cleanups.drop_last());
        assert forall|u: Seq<char>| #[trigger] counted(cleanups).contains_key(u) implies counted(
            cleanups,
        )[u] <= cleanups.len() by {
            if before.contains_key(u) {
                assert(before[u] <= cleanups.len() - 1);
            }
        }
    }
}

fn count_urls(cleanups: &Vec<PageCleanup>) -> (r: Table<usize>)
    ensures
        r@ == counted(cleanup_views(cleanups@)),
{
    let ghost all = cleanup_views(cleanups@);
    let mut left: Table<usize> = Table::new();
    let mut i: usize = 0;
    assert(all.take(0) =~= Seq::empty());
    while i < cleanups.len()
        invariant
            i <= cleanups.len(),
            all == cleanup_views(cleanups@),
            left@ == counted(all.take(i as int)),
        decreases cleanups.len() - i,
    {
        proof {
            assert(all.take(i + 1).drop_last() =~= all.take(i as int));
            assert(all.take(i + 1).last() == cleanups[i as int]@);
            lemma_counted_bound(all.take(i as int));
        }
        if let Some(url) = &cleanups[i].page_url {
            let more: usize = match left.get(url.as_str()) {
                Some(n) => {
                    assert(left@.contains_key(url@));
                    *n + 1
                },
                None => 1,
            };
            left.insert(url.clone(), more);
        }
        i = i + 1;
    }
    assert(all.take(i as int) =~= all);
    left
}

/// Decides which pages to close, and in which order, after the server was restarted: those
/// that the daemon had opened for its sessions, as far as they can still be told apart.
/// The last tab is never closed.
pub fn close_respawned_daemon_pages(
    cleanups: &Vec<PageCleanup>,
    entries: &Vec<PageEntry>,
) -> (r: Vec<u64>)
    ensures
        r@ == sweep(cleanup_views(cleanups@), pages::entry_views(entries@)),
{
    let ghost gone = cleanup_views(cleanups@);
    let ghost all = pages::entry_views(entries@);
    let mut open: usize = entries.len();
    let mut closed: Vec<u64> = Vec::new();
    let mut left = count_urls(cleanups);
    let ghost start = SweepView {
        open: all.len() as int,
        closed: Seq::empty(),
        left: counted(gone),
    };
    let mut i: usize = 0;
    assert(gone.take(0) =~= Seq::empty());
    while i < cleanups.len()
        invariant
            i <= cleanups.len(),
            gone == cleanup_views(cleanups@),
            all == pages::entry_views(entries@),
            (SweepView { open: open as int, closed: closed@, left: left@ }) == swept_pages(
                start,
                all,
                gone.take(i as int),
            ),
        decreases cleanups.len() - i,
    {
        assert(gone.take(i + 1).drop_last() =~= gone.take(i as int));
        assert(gone.take(i + 1).last() == cleanups[i as int]@);
        if open > 1 {
            if let Some(id) = find_page(entries, &cleanups[i]) {
                closed.push(id);
                open = open - 1;
                if let Some(url) = &cleanups[i].page_url {
                    take_one(&mut left, url.as_str());
                }
            }
        }
        i = i + 1;
    }
    assert(gone.take(i as int) =~= gone);
    let ghost middle = swept_pages(start, all, gone);
    let done: usize = closed.len();
    assert(closed@.take(done as int) =~= middle.closed);
    let mut k: usize = 0;
    assert(all.take(0) =~= Seq::empty());
    while k < entries.len()
        invariant
            k <= entries.len(),
            all == pages::entry_views(entries@),
            done == middle.closed.len(),
            done <= closed.len(),
            closed@.take(done as int) == middle.closed,
            (SweepView { open: open as int, closed: closed@, left: left@ }) == swept_entries(
                middle,
                middle.closed,
                all.take(k as int),
            ),
        decreases entries.len() - k,
    {
        assert(all.take(k + 1).drop_last() =~= all.take(k as int));
        assert(all.take(k + 1).last() == entries[k as int]@);
        if open > 1 && !first_hold(&closed, done, entries[k].id) && !same(
            entries[k].url.as_str(),
            "about:blank",
        ) {
            let count: usize = match left.get(entries[k].url.as_str()) {
                Some(n) => *n,
                None => 0,
            };
            if count > 0 {
                let ghost before = closed@;
                closed.push(entries[k].id);
                assert(closed@.take(done as int) =~= before.take(done as int));
                open = open - 1;
                take_one(&mut left, entries[k].url.as_str());
            }
        }
        k = k + 1;
    }
    assert(all.take(k as int) =~= all);
    closed
}

/// What the client is told when the server did not answer in time.
pub open spec fn timeout_notice(message: Seq<char>) -> Seq<char> {
    message
        + "; the tool may still have completed in the background (e.g. screenshot files may still be written) — its late result is discarded"@
}

/// Whether a request failed because the server did not answer in time.
pub open spec fn timed_out(message: Seq<char>) -> bool {
    text::holds(message, "MCP request timed out"@)
}

/// The answer to a request that failed, and whether the server is to be tried afterwards.
pub fn failed_request(line: &str, message: &str) -> (r: (Vec<String>, bool))
    ensures
        r.1 == timed_out(message@),
        text::texts(r.0@) == rpc::line_error_lines(
            line@,
            if timed_out(message@) {
                timeout_notice(message@)
            } else {
                message@
            },
        ),
{
    if contains(message, "MCP request timed out") {
        let notice = joined(
            message,
            "; the tool may still have completed in the background (e.g. screenshot files may still be written) — its late result is discarded",
        );
        (rpc::error_response_for_line(line, notice.as_str()), true)
    } else {
        (rpc::error_response_for_line(line, message), false)
    }
}

/// Why the server is started anew, if it is.
pub open spec fn restart_reason(exited: bool, reachable: bool) -> Option<Seq<char>> {
    if exited {
        Some("mcp exited"@)
    } else if !reachable {
        Some("devtools unreachable"@)
    } else {
        None
    }
}

/// Why the server is started anew before a request, if it is: it has exited, or the
/// browser it talks to is gone.
pub fn ensure_runtime_ready(exited: bool, reachable: bool) -> (r: Option<&'static str>)
    ensures
        text::opt_str(r) == restart_reason(exited, reachable),
{
    if exited {
        Some("mcp exited")
    } else if !reachable {
        Some("devtools unreachable")
    } else {
        None
    }
}

/// Why the server is started anew after a request timed out, if it is: the client is still
/// there, and the server did not answer the probe.
pub fn restart_after_timeout(client_there: bool, probe_failed: bool) -> (r: Option<&'static str>)
    ensures
        text::opt_str(r) == (if client_there && probe_failed {
            Some("mcp probe failed after request timeout"@)
        } else {
            None
        }),
{
    if client_there && probe_failed {
        Some("mcp probe failed after request timeout")
    } else {
        None
    }
}

} // verus!
