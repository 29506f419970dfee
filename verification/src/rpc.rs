//! JSON-RPC messages: what requests ask for, and the responses the daemon writes itself.
use crate::json;
use crate::json::{Json, JsonView};
use crate::text;
use crate::text::{joined, same, starts_with};
use vstd::prelude::*;

verus! {

/// The method of a message.
pub open spec fn method_of(v: JsonView) -> Option<Seq<char>> {
    json::text_field(v, "method"@)
}

/// The parameters of a request.
pub open spec fn params_of(v: JsonView) -> Option<JsonView> {
    json::field(v, "params"@)
}

/// The name of the tool that a request calls.
pub open spec fn tool_of(v: JsonView) -> Option<Seq<char>> {
    match params_of(v) {
        Some(params) => json::text_field(params, "name"@),
        None => None,
    }
}

/// The arguments that a request calls a tool with.
pub open spec fn arguments_of(v: JsonView) -> Option<JsonView> {
    match params_of(v) {
        Some(params) => json::field(params, "arguments"@),
        None => None,
    }
}

/// The id of a message.
pub open spec fn id_of(v: JsonView) -> Option<JsonView> {
    json::field(v, "id"@)
}

/// The method and the tool of a line, for a log.
pub open spec fn label_of(line: Result<JsonView, Seq<char>>) -> (Seq<char>, Seq<char>) {
    match line {
        Ok(v) => (crate::session::or_empty(method_of(v)), crate::session::or_empty(tool_of(v))),
        Err(_) => ("invalid"@, ""@),
    }
}

/// The tool that a request calls.
pub fn tool_name(value: &Json) -> (r: Option<&str>)
    ensures
        text::opt_str(r) == tool_of(value@),
{
    match value.get("params") {
        Some(params) => params.get_str("name"),
        None => None,
    }
}

/// The arguments of a request.
pub fn tool_arguments(value: &Json) -> (r: Option<&Json>)
    ensures
        match r {
            Some(arguments) => arguments_of(value@) == Some(arguments@),
            None => arguments_of(value@) is None,
        },
{
    match value.get("params") {
        Some(params) => params.get("arguments"),
        None => None,
    }
}

/// The method and the tool of a parsed line.
pub fn label_parts(value: &Json) -> (r: (String, String))
    ensures
        (r.0@, r.1@) == label_of(Ok::<JsonView, Seq<char>>(value@)),
{
    let method = match value.get_str("method") {
        Some(method) => method.to_string(),
        None => "".to_string(),
    };
    let tool = match tool_name(value) {
        Some(tool) => tool.to_string(),
        None => "".to_string(),
    };
    (method, tool)
}

/// The method and the tool of a line, for a log.
pub fn request_label(line: &str) -> (r: (String, String))
    ensures
        (r.0@, r.1@) == label_of(json::json_parse(line@)),
{
    match Json::parse(line) {
        Ok(value) => label_parts(&value),
        Err(_) => ("invalid".to_string(), "".to_string()),
    }
}

/// The tools that read or render the whole page, for which a long wait costs less than
/// giving up.
pub open spec fn heavy(tool: Seq<char>) -> bool {
    ||| tool == "take_snapshot"@
    ||| tool == "take_screenshot"@
    ||| tool == "performance_start_trace"@
    ||| tool == "performance_stop_trace"@
    ||| tool == "performance_analyze_insight"@
}

/// Whether a tool reads or renders the whole page.
pub fn is_heavy_mcp_tool(tool: &str) -> (r: bool)
    ensures
        r == heavy(tool@),
{
    same(tool, "take_snapshot") || same(tool, "take_screenshot") || same(
        tool,
        "performance_start_trace",
    ) || same(tool, "performance_stop_trace") || same(tool, "performance_analyze_insight")
}

/// How long a request may take, given the limits for ordinary and for heavy ones.
pub fn request_timeout_for_line(line: &str, normal: u128, heavy_limit: u128) -> (r: u128)
    ensures
        r == (if heavy(label_of(json::json_parse(line@)).1) && heavy_limit > normal {
            heavy_limit
        } else {
            normal
        }),
{
    let (_, tool) = request_label(line);
    if is_heavy_mcp_tool(tool.as_str()) && heavy_limit > normal {
        heavy_limit
    } else {
        normal
    }
}

/// Whether a message has this method.
pub fn has_method(value: &Json, method: &str) -> (r: bool)
    ensures
        r == (method_of(value@) == Some(method@)),
{
    match value.get_str("method") {
        Some(found) => same(found, method),
        None => false,
    }
}

/// Whether what a line was read as is a message with this method.
pub open spec fn message_has(message: Result<JsonView, Seq<char>>, method: Seq<char>) -> bool {
    message matches Ok(v) && method_of(v) == Some(method)
}

/// Whether what a line was read as is a message with this method.
pub fn message_has_method(message: &Result<Json, String>, method: &str) -> (r: bool)
    ensures
        r == message_has(json::result_view(*message), method@),
{
    match message {
        Ok(value) => has_method(value, method),
        Err(_) => false,
    }
}

/// Whether a line is a message with this method.
pub open spec fn line_has_method(line: Seq<char>, method: Seq<char>) -> bool {
    message_has(json::json_parse(line), method)
}

/// Whether a line is a message with this method.
pub fn json_has_method(line: &str, method: &str) -> (r: bool)
    ensures
        r == line_has_method(line@, method@),
{
    message_has_method(&Json::parse(line), method)
}

/// Whether a message has a method with this prefix.
pub open spec fn method_begins(v: JsonView, prefix: Seq<char>) -> bool {
    method_of(v) matches Some(method) && text::begins(method, prefix)
}

/// Whether a message has a method with this prefix.
pub fn method_starts_with(value: &Json, prefix: &str) -> (r: bool)
    ensures
        r == method_begins(value@, prefix@),
{
    match value.get_str("method") {
        Some(found) => starts_with(found, prefix),
        None => false,
    }
}

/// Whether what a line was read as is a message with a method with this prefix.
pub open spec fn message_begins(message: Result<JsonView, Seq<char>>, prefix: Seq<char>) -> bool {
    message matches Ok(v) && method_begins(v, prefix)
}

/// Whether a line is a message with a method with this prefix.
pub open spec fn line_method_begins(line: Seq<char>, prefix: Seq<char>) -> bool {
    message_begins(json::json_parse(line), prefix)
}

/// Whether a line is a message with a method with this prefix.
pub fn json_method_starts_with(line: &str, prefix: &str) -> (r: bool)
    ensures
        r == line_method_begins(line@, prefix@),
{
    message_starts_with(&Json::parse(line), prefix)
}

/// Whether what a line was read as is a message with a method with this prefix.
pub fn message_starts_with(message: &Result<Json, String>, prefix: &str) -> (r: bool)
    ensures
        r == message_begins(json::result_view(*message), prefix@),
{
    match message {
        Ok(value) => method_starts_with(value, prefix),
        Err(_) => false,
    }
}

/// The numeric id of what a line was read as.
pub open spec fn message_number(message: Result<JsonView, Seq<char>>) -> Option<u64> {
    match message {
        Ok(v) => json::u64_field(v, "id"@),
        Err(_) => None,
    }
}

/// The id of what a line was read as.
pub open spec fn id_in(message: Result<JsonView, Seq<char>>) -> Option<JsonView> {
    match message {
        Ok(v) => id_of(v),
        Err(_) => None,
    }
}

/// The numeric id of a line.
pub open spec fn line_id(line: Seq<char>) -> Option<u64> {
    message_number(json::json_parse(line))
}

/// The id of a line.
pub open spec fn line_id_value(line: Seq<char>) -> Option<JsonView> {
    id_in(json::json_parse(line))
}

/// The numeric id of what a line was read as.
pub fn message_id_number(message: &Result<Json, String>) -> (r: Option<u64>)
    ensures
        r == message_number(json::result_view(*message)),
{
    match message {
        Ok(value) => value.get_u64("id"),
        Err(_) => None,
    }
}

/// The numeric id of a line.
pub fn extract_jsonrpc_id(line: &str) -> (r: Option<u64>)
    ensures
        r == line_id(line@),
{
    message_id_number(&Json::parse(line))
}

/// The value of an optional tree.
pub open spec fn opt_view(j: Option<Json>) -> Option<JsonView> {
    match j {
        Some(value) => Some(value@),
        None => None,
    }
}

/// A copy of the id of a message.
pub fn message_id(value: &Json) -> (r: Option<Json>)
    ensures
        opt_view(r) == id_of(value@),
{
    match value.get("id") {
        Some(id) => Some(id.copy()),
        None => None,
    }
}

/// A copy of the id of what a line was read as.
pub fn message_id_value(message: &Result<Json, String>) -> (r: Option<Json>)
    ensures
        opt_view(r) == id_in(json::result_view(*message)),
{
    match message {
        Ok(value) => message_id(value),
        Err(_) => None,
    }
}

/// The id of a line.
pub fn extract_jsonrpc_id_value(line: &str) -> (r: Option<Json>)
    ensures
        opt_view(r) == line_id_value(line@),
{
    message_id_value(&Json::parse(line))
}

/// A message under another id, or why there is none.
pub open spec fn with_id(message: Result<JsonView, Seq<char>>, id: JsonView) -> Result<
    JsonView,
    Seq<char>,
> {
    match message {
        Ok(v) => if v is Object {
            Ok(json::put(v, "id"@, id))
        } else {
            Err("JSON-RPC message must be an object"@)
        },
        Err(error) => Err("failed to parse JSON-RPC message: "@ + error),
    }
}

/// The text of a message under another id, or why there is none.
pub open spec fn rewritten(message: Result<JsonView, Seq<char>>, id: JsonView) -> Result<
    Seq<char>,
    Seq<char>,
> {
    match with_id(message, id) {
        Ok(v) => Ok(json::json_text(v)),
        Err(error) => Err(error),
    }
}

/// A parsed message under another id.
pub fn set_message_id(value: Json, id: Json) -> (r: Result<Json, String>)
    ensures
        match r {
            Ok(v) => with_id(Ok::<JsonView, Seq<char>>(value@), id@) == Ok::<JsonView, Seq<char>>(
                v@,
            ),
            Err(message) => with_id(Ok::<JsonView, Seq<char>>(value@), id@) == Err::<
                JsonView,
                Seq<char>,
            >(message@),
        },
{
    if !value.is_object() {
        return Err("JSON-RPC message must be an object".to_string());
    }
    Ok(value.with("id", id))
}

/// The text of a message under another id. Reading the text gives that id back where the
/// message holds whole numbers only and is not nested too deep.
pub fn rewrite_jsonrpc_id(line: &str, id: Json) -> (r: Result<String, String>)
    ensures
        text::result_text(r) == rewritten(json::json_parse(line@), id@),
        match r {
            Ok(out) => json::reads_back(with_id(json::json_parse(line@), id@)->Ok_0, out@),
            Err(_) => true,
        },
{
    rewrite_message(Json::parse(line), id)
}

/// The text under another id of what a line was read as.
pub fn rewrite_message(message: Result<Json, String>, id: Json) -> (r: Result<String, String>)
    ensures
        text::result_text(r) == rewritten(json::result_view(message), id@),
        match r {
            Ok(out) => json::reads_back(with_id(json::result_view(message), id@)->Ok_0, out@),
            Err(_) => true,
        },
{
    match message {
        Ok(value) => match set_message_id(value, id) {
            Ok(value) => Ok(value.text()),
            Err(message) => Err(message),
        },
        Err(error) => Err(joined("failed to parse JSON-RPC message: ", error.as_str())),
    }
}

/// The answer to a client's `initialize`.
pub open spec fn initialize_reply(id: JsonView) -> JsonView {
    json::put(
        json::put(
            json::put(json::empty_object(), "jsonrpc"@, json::jstr("2.0"@)),
            "id"@,
            id,
        ),
        "result"@,
        json::put(
            json::put(
                json::put(
                    json::empty_object(),
                    "protocolVersion"@,
                    json::jstr("2025-06-18"@),
                ),
                "capabilities"@,
                json::empty_object(),
            ),
            "serverInfo"@,
            json::put(
                json::put(
                    json::empty_object(),
                    "name"@,
                    json::jstr("chrome-devtools-daemon"@),
                ),
                "version"@,
                json::jstr("0.1.0"@),
            ),
        ),
    )
}

/// The answer to a client's `initialize`, as a value.
pub fn daemon_initialize_value(id: Json) -> (r: Json)
    ensures
        r@ == initialize_reply(id@),
{
    let info = Json::object().with("name", Json::str("chrome-devtools-daemon")).with(
        "version",
        Json::str("0.1.0"),
    );
    let result = Json::object().with("protocolVersion", Json::str("2025-06-18")).with(
        "capabilities",
        Json::object(),
    ).with("serverInfo", info);
    Json::object().with("jsonrpc", Json::str("2.0")).with("id", id).with("result", result)
}

/// The answer to a client's `initialize`.
pub fn daemon_initialize_response(id: Json) -> (r: String)
    ensures
        r@ == json::json_text(initialize_reply(id@)),
{
    daemon_initialize_value(id).text()
}

/// A root directory.
pub open spec fn root(uri: Seq<char>, name: Seq<char>) -> JsonView {
    json::put(json::put(json::empty_object(), "uri"@, json::jstr(uri)), "name"@, json::jstr(name))
}

/// The answer to an MCP server's `roots/list`: the home directory and `/tmp`.
pub open spec fn roots_reply(id: JsonView, home: Seq<char>) -> JsonView {
    json::put(
        json::put(
            json::put(json::empty_object(), "jsonrpc"@, json::jstr("2.0"@)),
            "id"@,
            id,
        ),
        "result"@,
        json::put(
            json::empty_object(),
            "roots"@,
            JsonView::Array(seq![root("file://"@ + home, "home"@), root("file:///tmp"@, "tmp"@)]),
        ),
    )
}

/// The answer to an MCP server's `roots/list`, as a value.
pub fn roots_list_value(id: Json, home: &str) -> (r: Json)
    ensures
        r@ == roots_reply(id@, home@),
{
    let first = Json::object().with("uri", Json::Str(joined("file://", home))).with(
        "name",
        Json::str("home"),
    );
    let second = Json::object().with("uri", Json::str("file:///tmp")).with(
        "name",
        Json::str("tmp"),
    );
    let ghost both = seq![first@, second@];
    let roots = Json::array().and(first).and(second);
    assert(roots@->Array_0 =~= both);
    Json::object().with("jsonrpc", Json::str("2.0")).with("id", id).with(
        "result",
        Json::object().with("roots", roots),
    )
}

/// The answer to an MCP server's `roots/list`.
pub fn roots_list_response(id: Json, home: &str) -> (r: String)
    ensures
        r@ == json::json_text(roots_reply(id@, home@)),
{
    roots_list_value(id, home).text()
}

/// An error response.
pub open spec fn error_reply(id: JsonView, code: i64, message: Seq<char>) -> JsonView {
    json::put(
        json::put(
            json::put(json::empty_object(), "jsonrpc"@, json::jstr("2.0"@)),
            "id"@,
            id,
        ),
        "error"@,
        json::put(
            json::put(json::empty_object(), "code"@, JsonView::Number(json::integer(code))),
            "message"@,
            json::jstr(message),
        ),
    )
}

/// An error response, as a value.
pub fn jsonrpc_error_value(id: Json, code: i64, message: &str) -> (r: Json)
    ensures
        r@ == error_reply(id@, code, message@),
{
    let error = Json::object().with("code", Json::signed(code)).with("message", Json::str(message));
    Json::object().with("jsonrpc", Json::str("2.0")).with("id", id).with("error", error)
}

/// An error response.
pub fn jsonrpc_error_response(id: Json, code: i64, message: &str) -> (r: String)
    ensures
        r@ == json::json_text(error_reply(id@, code, message@)),
{
    jsonrpc_error_value(id, code, message).text()
}

/// The error response to a request, if it has an id.
pub open spec fn error_lines(request: JsonView, message: Seq<char>) -> Seq<Seq<char>> {
    match id_of(request) {
        Some(id) => seq![json::json_text(error_reply(id, -32000i64, message))],
        None => Seq::empty(),
    }
}

/// The error response to a line, if it is a request with an id.
pub open spec fn line_error_lines(line: Seq<char>, message: Seq<char>) -> Seq<Seq<char>> {
    match json::json_parse(line) {
        Ok(request) => error_lines(request, message),
        Err(_) => Seq::empty(),
    }
}

/// A list of one string.
pub fn one_line(line: String) -> (r: Vec<String>)
    ensures
        text::texts(r@) == seq![line@],
{
    let mut lines: Vec<String> = Vec::new();
    lines.push(line);
    assert(text::texts(lines@) =~= seq![line@]);
    lines
}

/// A list of no strings.
pub fn no_lines() -> (r: Vec<String>)
    ensures
        text::texts(r@) == Seq::<Seq<char>>::empty(),
{
    let lines: Vec<String> = Vec::new();
    assert(text::texts(lines@) =~= Seq::empty());
    lines
}

/// The error response to a request, if it has an id.
pub fn request_error_line(value: &Json, message: &str) -> (r: Vec<String>)
    ensures
        text::texts(r@) == error_lines(value@, message@),
{
    match message_id(value) {
        Some(id) => one_line(jsonrpc_error_response(id, -32000, message)),
        None => no_lines(),
    }
}

/// The error response to a line, if it is a request with an id.
pub fn error_response_for_line(line: &str, message: &str) -> (r: Vec<String>)
    ensures
        text::texts(r@) == line_error_lines(line@, message@),
{
    match Json::parse(line) {
        Ok(value) => request_error_line(&value, message),
        Err(_) => no_lines(),
    }
}

/// A call of `new_page` without the isolated context it asks for; nothing where a request
/// asks for none. Isolated contexts disable extensions.
pub open spec fn sanitized(v: JsonView) -> Option<JsonView> {
    if v is Object && method_of(v) == Some("tools/call"@) {
        match params_of(v) {
            Some(params) => if params is Object && json::text_field(params, "name"@) == Some(
                "new_page"@,
            ) {
                match json::field(params, "arguments"@) {
                    Some(arguments) => if arguments is Object && json::field(
                        arguments,
                        "isolatedContext"@,
                    ) is Some {
                        Some(
                            json::put(
                                v,
                                "params"@,
                                json::put(
                                    params,
                                    "arguments"@,
                                    json::without(arguments, "isolatedContext"@),
                                ),
                            ),
                        )
                    } else {
                        None
                    },
                    None => None,
                }
            } else {
                None
            },
            None => None,
        }
    } else {
        None
    }
}

/// The text of a request as it is forwarded, from what the line was read as.
pub open spec fn sanitized_text(line: Seq<char>, message: Result<JsonView, Seq<char>>) -> Seq<
    char,
> {
    match message {
        Ok(v) => match sanitized(v) {
            Some(w) => json::json_text(w),
            None => line,
        },
        Err(_) => line,
    }
}

/// The text of a request as it is forwarded.
pub open spec fn sanitized_line(line: Seq<char>) -> Seq<char> {
    sanitized_text(line, json::json_parse(line))
}

/// Takes the isolated context out of a call of `new_page`; tells whether there was one.
pub fn strip_isolated_context(value: &mut Json) -> (r: bool)
    ensures
        match sanitized(old(value)@) {
            Some(w) => r && final(value)@ == w,
            None => !r && final(value)@ == old(value)@,
        },
{
    if !has_method(value, "tools/call") {
        return false;
    }
    let named = match tool_name(value) {
        Some(name) => same(name, "new_page"),
        None => false,
    };
    if !named {
        return false;
    }
    let isolated = match tool_arguments(value) {
        Some(arguments) => match arguments.get("isolatedContext") {
            Some(_) => true,
            None => false,
        },
        None => false,
    };
    if !isolated {
        return false;
    }
    if let Some(params) = value.get_mut("params") {
        if let Some(arguments) = params.get_mut("arguments") {
            let _ = arguments.remove("isolatedContext");
        }
    }
    true
}

/// The text of a request as it is forwarded.
pub fn sanitize_outgoing_request(line: &str) -> (r: String)
    ensures
        r@ == sanitized_line(line@),
{
    sanitize_message(line, Json::parse(line))
}

/// The text of a request as it is forwarded, from what the line was read as.
pub fn sanitize_message(line: &str, message: Result<Json, String>) -> (r: String)
    ensures
        r@ == sanitized_text(line@, json::result_view(message)),
{
    match message {
        Ok(value) => {
            let mut value = value;
            if strip_isolated_context(&mut value) {
                value.text()
            } else {
                line.to_string()
            }
        },
        Err(_) => line.to_string(),
    }
}

} // verus!
