//! The tools that the daemon runs itself, over the DevTools protocol, without going
//! through the MCP server.
use crate::cdp;
use crate::cdp::{resolve_unique_target_id, PageRef, PageTarget};
use crate::json;
use crate::json::{Json, JsonView};
use crate::pages;
use crate::pages::{content_of, push_texts};
use crate::rpc;
use crate::session;
use crate::session::{
    record_session_page, session_page, session_page_created_by_daemon, session_page_url,
    session_target_id, SessionRegistry, SessionView,
};
use crate::text;
use crate::text::{joined, joined3, number_text, same};
use vstd::prelude::*;

verus! {

/// The tools that the daemon runs itself.
pub open spec fn native(name: Seq<char>) -> bool {
    ||| name == "goto"@
    ||| name == "screenshot_quiet"@
    ||| name == "wait_for_js"@
    ||| name == "click_at"@
    ||| name == "click_selector"@
    ||| name == "dispatch_key"@
    ||| name == "set_file_input"@
    ||| name == "type_into"@
    ||| name == "close_page_quiet"@
}

/// Whether the daemon runs a tool itself.
pub fn is_native_tool(name: &str) -> (r: bool)
    ensures
        r == native(name@),
{
    same(name, "goto") || same(name, "screenshot_quiet") || same(name, "wait_for_js") || same(
        name,
        "click_at",
    ) || same(name, "click_selector") || same(name, "dispatch_key") || same(name, "set_file_input")
        || same(name, "type_into") || same(name, "close_page_quiet")
}

/// A property of a type.
pub open spec fn typed(kind: Seq<char>) -> JsonView {
    json::put(json::empty_object(), "type"@, json::jstr(kind))
}

/// A property of a type with a description.
pub open spec fn described(kind: Seq<char>, description: Seq<char>) -> JsonView {
    json::put(typed(kind), "description"@, json::jstr(description))
}

/// The schema of a tool's arguments.
pub open spec fn schema(properties: JsonView, required: Option<JsonView>) -> JsonView {
    let plain = json::put(
        json::put(json::empty_object(), "type"@, json::jstr("object"@)),
        "properties"@,
        properties,
    );
    match required {
        Some(names) => json::put(plain, "required"@, names),
        None => plain,
    }
}

/// The description of a tool.
pub open spec fn tool_def(name: Seq<char>, description: Seq<char>, input: JsonView) -> JsonView {
    json::put(
        json::put(
            json::put(json::empty_object(), "name"@, json::jstr(name)),
            "description"@,
            json::jstr(description),
        ),
        "inputSchema"@,
        input,
    )
}

fn typed_json(kind: &str) -> (r: Json)
    ensures
        r@ == typed(kind@),
{
    Json::object().with("type", Json::str(kind))
}

fn described_json(kind: &str, description: &str) -> (r: Json)
    ensures
        r@ == described(kind@, description@),
{
    typed_json(kind).with("description", Json::str(description))
}

fn schema_json(properties: Json, required: Option<Json>) -> (r: Json)
    ensures
        r@ == schema(properties@, rpc::opt_view(required)),
{
    let plain = Json::object().with("type", Json::str("object")).with("properties", properties);
    match required {
        Some(names) => plain.with("required", names),
        None => plain,
    }
}

fn tool_json(name: &str, description: &str, input: Json) -> (r: Json)
    ensures
        r@ == tool_def(name@, description@, input@),
{
    Json::object().with("name", Json::str(name)).with("description", Json::str(description)).with(
        "inputSchema",
        input,
    )
}

fn push_tree(out: &mut Vec<Json>, j: Json)
    ensures
        json::trees(final(out)@) == json::trees(old(out)@).push(j@),
{
    proof {
        json::lemma_trees_push(out@, j);
    }
    out.push(j);
}

/// The description of `goto`.
pub open spec fn goto_def() -> JsonView {
    let properties = json::empty_object();
    let properties = json::put(properties, "url"@, typed("string"@));
    let properties = json::put(properties, "waitSelector"@, described("string"@, "CSS selector to wait for after navigation"@));
    let properties = json::put(properties, "waitExpression"@, described("string"@, "JS expression to wait for after navigation; mutually exclusive with waitSelector"@));
    let properties = json::put(properties, "timeout"@, described("number"@, "max wait in ms (default 30000, max 120000)"@));
    let properties = json::put(properties, "interval"@, described("number"@, "poll interval in ms (default 250)"@));
    let required = json::empty_array();
    let required = json::appended(required, json::jstr("url"@));
    tool_def("goto"@, "Daemon-native: navigate the session page with CDP without bringing Chrome to the front, then wait for page readiness, a selector, or a JavaScript expression."@, schema(properties, Some(required)))
}

fn goto_json() -> (r: Json)
    ensures
        r@ == goto_def(),
{
    let properties = Json::object();
    let properties = properties.with("url", typed_json("string"));
    let properties = properties.with("waitSelector", described_json("string", "CSS selector to wait for after navigation"));
    let properties = properties.with("waitExpression", described_json("string", "JS expression to wait for after navigation; mutually exclusive with waitSelector"));
    let properties = properties.with("timeout", described_json("number", "max wait in ms (default 30000, max 120000)"));
    let properties = properties.with("interval", described_json("number", "poll interval in ms (default 250)"));
    let required = Json::array();
    let required = required.and(Json::str("url"));
    tool_json("goto", "Daemon-native: navigate the session page with CDP without bringing Chrome to the front, then wait for page readiness, a selector, or a JavaScript expression.", schema_json(properties, Some(required)))
}

/// The description of `screenshot_quiet`.
pub open spec fn screenshot_quiet_def() -> JsonView {
    let properties = json::empty_object();
    let properties = json::put(properties, "filePath"@, described("string"@, "absolute output path under HOME or the OS temp directory"@));
    let properties = json::put(properties, "format"@, json::put(described("string"@, "default png"@), "enum"@, json::appended(json::appended(json::appended(json::empty_array(), json::jstr("png"@)), json::jstr("jpeg"@)), json::jstr("webp"@))));
    let properties = json::put(properties, "quality"@, described("number"@, "JPEG/WebP quality from 0 to 100"@));
    let required = json::empty_array();
    let required = json::appended(required, json::jstr("filePath"@));
    tool_def("screenshot_quiet"@, "Daemon-native: capture the visible viewport of the session page directly with CDP, without selecting or foregrounding the page and without entering the MCP tool queue."@, schema(properties, Some(required)))
}

fn screenshot_quiet_json() -> (r: Json)
    ensures
        r@ == screenshot_quiet_def(),
{
    let properties = Json::object();
    let properties = properties.with("filePath", described_json("string", "absolute output path under HOME or the OS temp directory"));
    let properties = properties.with("format", described_json("string", "default png").with("enum", Json::array().and(Json::str("png")).and(Json::str("jpeg")).and(Json::str("webp"))));
    let properties = properties.with("quality", described_json("number", "JPEG/WebP quality from 0 to 100"));
    let required = Json::array();
    let required = required.and(Json::str("filePath"));
    tool_json("screenshot_quiet", "Daemon-native: capture the visible viewport of the session page directly with CDP, without selecting or foregrounding the page and without entering the MCP tool queue.", schema_json(properties, Some(required)))
}

/// The description of `wait_for_js`.
pub open spec fn wait_for_js_def() -> JsonView {
    let properties = json::empty_object();
    let properties = json::put(properties, "expression"@, described("string"@, "JS expression evaluated on the page; resolves when truthy"@));
    let properties = json::put(properties, "selector"@, described("string"@, "CSS selector; resolves when it matches an element (alternative to expression)"@));
    let properties = json::put(properties, "timeout"@, described("number"@, "max wait in ms (default 30000, max 120000)"@));
    let properties = json::put(properties, "interval"@, described("number"@, "poll interval in ms (default 500)"@));
    tool_def("wait_for_js"@, "Daemon-native: poll a JavaScript expression (or CSS selector) on the session page until it becomes truthy. Lightweight (no snapshot). Prefer this over fixed sleeps for SPA rendering waits."@, schema(properties, None))
}

fn wait_for_js_json() -> (r: Json)
    ensures
        r@ == wait_for_js_def(),
{
    let properties = Json::object();
    let properties = properties.with("expression", described_json("string", "JS expression evaluated on the page; resolves when truthy"));
    let properties = properties.with("selector", described_json("string", "CSS selector; resolves when it matches an element (alternative to expression)"));
    let properties = properties.with("timeout", described_json("number", "max wait in ms (default 30000, max 120000)"));
    let properties = properties.with("interval", described_json("number", "poll interval in ms (default 500)"));
    tool_json("wait_for_js", "Daemon-native: poll a JavaScript expression (or CSS selector) on the session page until it becomes truthy. Lightweight (no snapshot). Prefer this over fixed sleeps for SPA rendering waits.", schema_json(properties, None))
}

/// The description of `click_at`.
pub open spec fn click_at_def() -> JsonView {
    let properties = json::empty_object();
    let properties = json::put(properties, "x"@, typed("number"@));
    let properties = json::put(properties, "y"@, typed("number"@));
    let required = json::empty_array();
    let required = json::appended(required, json::jstr("x"@));
    let required = json::appended(required, json::jstr("y"@));
    tool_def("click_at"@, "Daemon-native: dispatch a raw left click at viewport coordinates via CDP Input.dispatchMouseEvent. Works without a snapshot (use on pages too large for take_snapshot)."@, schema(properties, Some(required)))
}

fn click_at_json() -> (r: Json)
    ensures
        r@ == click_at_def(),
{
    let properties = Json::object();
    let properties = properties.with("x", typed_json("number"));
    let properties = properties.with("y", typed_json("number"));
    let required = Json::array();
    let required = required.and(Json::str("x"));
    let required = required.and(Json::str("y"));
    tool_json("click_at", "Daemon-native: dispatch a raw left click at viewport coordinates via CDP Input.dispatchMouseEvent. Works without a snapshot (use on pages too large for take_snapshot).", schema_json(properties, Some(required)))
}

/// The description of `click_selector`.
pub open spec fn click_selector_def() -> JsonView {
    let properties = json::empty_object();
    let properties = json::put(properties, "selector"@, typed("string"@));
    let required = json::empty_array();
    let required = json::appended(required, json::jstr("selector"@));
    tool_def("click_selector"@, "Daemon-native: scroll the first element matching a CSS selector into view and click its center via CDP. Works without a snapshot."@, schema(properties, Some(required)))
}

fn click_selector_json() -> (r: Json)
    ensures
        r@ == click_selector_def(),
{
    let properties = Json::object();
    let properties = properties.with("selector", typed_json("string"));
    let required = Json::array();
    let required = required.and(Json::str("selector"));
    tool_json("click_selector", "Daemon-native: scroll the first element matching a CSS selector into view and click its center via CDP. Works without a snapshot.", schema_json(properties, Some(required)))
}

/// The description of `dispatch_key`.
pub open spec fn dispatch_key_def() -> JsonView {
    let properties = json::empty_object();
    let properties = json::put(properties, "key"@, typed("string"@));
    let properties = json::put(properties, "modifiers"@, described("number"@, "bitmask: Alt=1, Ctrl=2, Meta=4, Shift=8"@));
    let required = json::empty_array();
    let required = json::appended(required, json::jstr("key"@));
    tool_def("dispatch_key"@, "Daemon-native: dispatch a single key press (e.g. Escape, Enter, ArrowDown, Tab, or a single character) via CDP Input.dispatchKeyEvent."@, schema(properties, Some(required)))
}

fn dispatch_key_json() -> (r: Json)
    ensures
        r@ == dispatch_key_def(),
{
    let properties = Json::object();
    let properties = properties.with("key", typed_json("string"));
    let properties = properties.with("modifiers", described_json("number", "bitmask: Alt=1, Ctrl=2, Meta=4, Shift=8"));
    let required = Json::array();
    let required = required.and(Json::str("key"));
    tool_json("dispatch_key", "Daemon-native: dispatch a single key press (e.g. Escape, Enter, ArrowDown, Tab, or a single character) via CDP Input.dispatchKeyEvent.", schema_json(properties, Some(required)))
}

/// The description of `set_file_input`.
pub open spec fn set_file_input_def() -> JsonView {
    let properties = json::empty_object();
    let properties = json::put(properties, "selector"@, described("string"@, "CSS selector for an input[type=file] on the session page"@));
    let properties = json::put(properties, "filePaths"@, json::put(described("array"@, "absolute paths under $HOME or the OS temp directory"@), "items"@, typed("string"@)));
    let required = json::empty_array();
    let required = json::appended(required, json::jstr("selector"@));
    let required = json::appended(required, json::jstr("filePaths"@));
    tool_def("set_file_input"@, "Daemon-native: attach files to the input[type=file] matched by a CSS selector via CDP DOM.setFileInputFiles. No snapshot and no file chooser, so it stays inside the session page and picks the exact input on pages that have several."@, schema(properties, Some(required)))
}

fn set_file_input_json() -> (r: Json)
    ensures
        r@ == set_file_input_def(),
{
    let properties = Json::object();
    let properties = properties.with("selector", described_json("string", "CSS selector for an input[type=file] on the session page"));
    let properties = properties.with("filePaths", described_json("array", "absolute paths under $HOME or the OS temp directory").with("items", typed_json("string")));
    let required = Json::array();
    let required = required.and(Json::str("selector"));
    let required = required.and(Json::str("filePaths"));
    tool_json("set_file_input", "Daemon-native: attach files to the input[type=file] matched by a CSS selector via CDP DOM.setFileInputFiles. No snapshot and no file chooser, so it stays inside the session page and picks the exact input on pages that have several.", schema_json(properties, Some(required)))
}

/// The description of `close_page_quiet`.
pub open spec fn close_page_quiet_def() -> JsonView {
    let properties = json::empty_object();
    tool_def("close_page_quiet"@, "Daemon-native: close the session's own tab through the DevTools HTTP endpoint. The MCP close_page queues behind the tool mutex, so it cannot reach a tab that is holding the mutex open (a JavaScript dialog, a tool that never returns). Closing that tab releases the mutex. The session picks up a fresh tab on its next call."@, schema(properties, None))
}

fn close_page_quiet_json() -> (r: Json)
    ensures
        r@ == close_page_quiet_def(),
{
    let properties = Json::object();
    tool_json("close_page_quiet", "Daemon-native: close the session's own tab through the DevTools HTTP endpoint. The MCP close_page queues behind the tool mutex, so it cannot reach a tab that is holding the mutex open (a JavaScript dialog, a tool that never returns). Closing that tab releases the mutex. The session picks up a fresh tab on its next call.", schema_json(properties, None))
}

/// The description of `type_into`.
pub open spec fn type_into_def() -> JsonView {
    let properties = json::empty_object();
    let properties = json::put(properties, "selector"@, typed("string"@));
    let properties = json::put(properties, "text"@, typed("string"@));
    let properties = json::put(properties, "clear"@, described("boolean"@, "select all and delete before inserting (default false)"@));
    let required = json::empty_array();
    let required = json::appended(required, json::jstr("selector"@));
    let required = json::appended(required, json::jstr("text"@));
    tool_def("type_into"@, "Daemon-native: focus the element matched by a CSS selector and insert text with CDP Input.insertText. Use when a native value setter plus an input event does not reach the framework state (some React-based ATS forms)."@, schema(properties, Some(required)))
}

fn type_into_json() -> (r: Json)
    ensures
        r@ == type_into_def(),
{
    let properties = Json::object();
    let properties = properties.with("selector", typed_json("string"));
    let properties = properties.with("text", typed_json("string"));
    let properties = properties.with("clear", described_json("boolean", "select all and delete before inserting (default false)"));
    let required = Json::array();
    let required = required.and(Json::str("selector"));
    let required = required.and(Json::str("text"));
    tool_json("type_into", "Daemon-native: focus the element matched by a CSS selector and insert text with CDP Input.insertText. Use when a native value setter plus an input event does not reach the framework state (some React-based ATS forms).", schema_json(properties, Some(required)))
}

/// The descriptions of the tools that the daemon runs itself.
pub open spec fn tool_defs() -> Seq<JsonView> {
    seq![
        goto_def(),
        screenshot_quiet_def(),
        wait_for_js_def(),
        click_at_def(),
        click_selector_def(),
        dispatch_key_def(),
        set_file_input_def(),
        close_page_quiet_def(),
        type_into_def(),
    ]
}

/// The descriptions of the tools that the daemon runs itself.
pub fn native_tool_defs() -> (r: Vec<Json>)
    ensures
        json::trees(r@) == tool_defs(),
{
    let mut defs: Vec<Json> = Vec::new();
    push_tree(&mut defs, goto_json());
    push_tree(&mut defs, screenshot_quiet_json());
    push_tree(&mut defs, wait_for_js_json());
    push_tree(&mut defs, click_at_json());
    push_tree(&mut defs, click_selector_json());
    push_tree(&mut defs, dispatch_key_json());
    push_tree(&mut defs, set_file_input_json());
    push_tree(&mut defs, close_page_quiet_json());
    push_tree(&mut defs, type_into_json());
    assert(json::trees(defs@) =~= tool_defs());
    defs
}


/// A list of tools with those that the daemon runs itself.
pub open spec fn extended_listing(v: JsonView) -> Option<JsonView> {
    match pages::tools_in(v) {
        Some(tools) => Some(pages::with_tools(v, tools + tool_defs())),
        None => None,
    }
}

/// A line that lists tools with those that the daemon runs itself.
pub open spec fn extended_line(line: Seq<char>) -> Seq<char> {
    match json::json_parse(line) {
        Ok(v) => match extended_listing(v) {
            Some(w) => json::json_text(w),
            None => line,
        },
        Err(_) => line,
    }
}

proof fn lemma_trees_add(a: Seq<Json>, b: Seq<Json>)
    ensures
        json::trees(a + b) == json::trees(a) + json::trees(b),
{
    json::lemma_trees_index(a);
    json::lemma_trees_index(b);
    json::lemma_trees_index(a + b);
    assert(json::trees(a + b) =~= json::trees(a) + json::trees(b));
}

/// Adds the tools that the daemon runs itself to a list of tools; tells whether the value
/// is one.
pub fn inject_native_tool_values(value: &mut Json) -> (r: bool)
    ensures
        match extended_listing(old(value)@) {
            Some(w) => r && final(value)@ == w,
            None => !r && final(value)@ == old(value)@,
        },
{
    let listed = match value.get("result") {
        Some(result) => match result.get_array("tools") {
            Some(_) => true,
            None => false,
        },
        None => false,
    };
    if !listed {
        return false;
    }
    if let Some(result) = value.get_mut("result") {
        if let Some(tools) = result.get_mut("tools") {
            if let Json::Array(items) = tools {
                let mut defs = native_tool_defs();
                proof {
                    lemma_trees_add(items@, defs@);
                }
                items.append(&mut defs);
            }
        }
    }
    true
}

/// Adds the tools that the daemon runs itself to a line that lists tools.
pub fn inject_native_tool_defs(line: &str) -> (r: String)
    ensures
        r@ == extended_line(line@),
{
    match Json::parse(line) {
        Ok(value) => {
            let mut value = value;
            if inject_native_tool_values(&mut value) {
                value.text()
            } else {
                line.to_string()
            }
        },
        Err(_) => line.to_string(),
    }
}

/// The response to a call of a tool that the daemon ran itself.
pub open spec fn native_reply(id: JsonView, said: Seq<char>, is_error: bool) -> JsonView {
    let plain = json::put(json::empty_object(), "content"@, pages::text_content(said));
    json::put(
        json::put(
            json::put(json::empty_object(), "jsonrpc"@, json::jstr("2.0"@)),
            "id"@,
            id,
        ),
        "result"@,
        if is_error {
            json::put(plain, "isError"@, JsonView::Bool(true))
        } else {
            plain
        },
    )
}

/// The response to a call of a tool that the daemon ran itself, as a value.
pub fn native_tool_value(id: Json, text: &str, is_error: bool) -> (r: Json)
    ensures
        r@ == native_reply(id@, text@, is_error),
{
    let plain = Json::object().with("content", content_of(text));
    let result = if is_error {
        plain.with("isError", Json::Bool(true))
    } else {
        plain
    };
    Json::object().with("jsonrpc", Json::str("2.0")).with("id", id).with("result", result)
}

/// The response to a call of a tool that the daemon ran itself.
pub fn native_tool_response(id: Json, text: &str, is_error: bool) -> (r: Vec<String>)
    ensures
        text::texts(r@) == seq![json::json_text(native_reply(id@, text@, is_error))],
{
    rpc::one_line(native_tool_value(id, text, is_error).text())
}

/// What a call of a tool that the daemon runs itself asks for. Times are milliseconds.
pub enum NativePlan {
    Goto { url: String, wait_expression: String, timeout: u64, interval: u64 },
    Screenshot { file_path: String, format: String, quality: Option<u64> },
    WaitForJs { expression: String, timeout: u64, interval: u64 },
    ClickAt { x: Json, y: Json },
    ClickSelector { selector: String },
    DispatchKey { key: String, modifiers: u64 },
    SetFileInput { selector: String, files: Vec<String> },
    ClosePage { target_id: String },
    TypeInto { selector: String, text: String, clear: bool },
}

/// What a call of a tool that the daemon runs itself asks for.
pub enum PlanView {
    Goto { url: Seq<char>, wait: Seq<char>, timeout: u64, interval: u64 },
    Screenshot { path: Seq<char>, format: Seq<char>, quality: Option<u64> },
    WaitForJs { expression: Seq<char>, timeout: u64, interval: u64 },
    ClickAt { x: JsonView, y: JsonView },
    ClickSelector { selector: Seq<char> },
    DispatchKey { key: Seq<char>, modifiers: u64 },
    SetFileInput { selector: Seq<char>, files: Seq<Seq<char>> },
    ClosePage { target: Seq<char> },
    TypeInto { selector: Seq<char>, text: Seq<char>, clear: bool },
}

impl View for NativePlan {
    type V = PlanView;

    open spec fn view(&self) -> PlanView {
        match self {
            NativePlan::Goto { url, wait_expression, timeout, interval } => PlanView::Goto {
                url: url@,
                wait: wait_expression@,
                timeout: *timeout,
                interval: *interval,
            },
            NativePlan::Screenshot { file_path, format, quality } => PlanView::Screenshot {
                path: file_path@,
                format: format@,
                quality: *quality,
            },
            NativePlan::WaitForJs { expression, timeout, interval } => PlanView::WaitForJs {
                expression: expression@,
                timeout: *timeout,
                interval: *interval,
            },
            NativePlan::ClickAt { x, y } => PlanView::ClickAt { x: x@, y: y@ },
            NativePlan::ClickSelector { selector } => PlanView::ClickSelector {
                selector: selector@,
            },
            NativePlan::DispatchKey { key, modifiers } => PlanView::DispatchKey {
                key: key@,
                modifiers: *modifiers,
            },
            NativePlan::SetFileInput { selector, files } => PlanView::SetFileInput {
                selector: selector@,
                files: text::texts(files@),
            },
            NativePlan::ClosePage { target_id } => PlanView::ClosePage { target: target_id@ },
            NativePlan::TypeInto { selector, text, clear } => PlanView::TypeInto {
                selector: selector@,
                text: text@,
                clear: *clear,
            },
        }
    }
}

/// A number kept between two bounds.
pub open spec fn bounded(n: u64, low: u64, high: u64) -> u64 {
    if n < low {
        low
    } else if n > high {
        high
    } else {
        n
    }
}

/// A number kept between two bounds.
pub fn clamp(n: u64, low: u64, high: u64) -> (r: u64)
    ensures
        r == bounded(n, low, high),
{
    if n < low {
        low
    } else if n > high {
        high
    } else {
        n
    }
}

/// The number under a key, or a default, kept between two bounds.
pub open spec fn limit(arguments: JsonView, key: Seq<char>, default: u64, low: u64, high: u64) -> u64 {
    bounded(
        match json::u64_field(arguments, key) {
            Some(n) => n,
            None => default,
        },
        low,
        high,
    )
}

fn limit_of(arguments: &Json, key: &str, default: u64, low: u64, high: u64) -> (r: u64)
    ensures
        r == limit(arguments@, key@, default, low, high),
{
    match arguments.get_u64(key) {
        Some(n) => clamp(n, low, high),
        None => clamp(default, low, high),
    }
}

/// The expression that finds the element for a selector.
pub open spec fn query_expression(selector: Seq<char>) -> Seq<char> {
    "document.querySelector("@ + json::json_text(json::jstr(selector)) + ")"@
}

/// The expression that finds the element for a selector.
pub fn query_selector_expression(selector: &str) -> (r: String)
    ensures
        r@ == query_expression(selector@),
{
    let quoted = Json::str(selector).text();
    joined3("document.querySelector(", quoted.as_str(), ")")
}

/// What a call of `goto` asks for.
pub open spec fn goto_plan(arguments: JsonView) -> Result<PlanView, Seq<char>> {
    match json::text_field(arguments, "url"@) {
        None => Err("goto requires 'url'"@),
        Some(url) => {
            let selector = json::text_field(arguments, "waitSelector"@);
            let expression = json::text_field(arguments, "waitExpression"@);
            if selector is Some && expression is Some {
                Err("goto accepts only one of waitSelector or waitExpression"@)
            } else {
                Ok(
                    PlanView::Goto {
                        url,
                        wait: match selector {
                            Some(s) => query_expression(s),
                            None => match expression {
                                Some(e) => e,
                                None => "document.readyState === 'complete'"@,
                            },
                        },
                        timeout: limit(arguments, "timeout"@, 30000, 100, 120000),
                        interval: limit(arguments, "interval"@, 250, 50, 10000),
                    },
                )
            }
        },
    }
}

/// The image format that a call asks for.
pub open spec fn image_format(arguments: JsonView) -> Seq<char> {
    match json::text_field(arguments, "format"@) {
        Some(format) => format,
        None => "png"@,
    }
}

/// What a call of `screenshot_quiet` asks for.
pub open spec fn screenshot_plan(arguments: JsonView) -> Result<PlanView, Seq<char>> {
    match json::text_field(arguments, "filePath"@) {
        None => Err("screenshot_quiet requires 'filePath'"@),
        Some(path) => {
            let format = image_format(arguments);
            if format != "png"@ && format != "jpeg"@ && format != "webp"@ {
                Err("screenshot_quiet format must be png, jpeg, or webp"@)
            } else {
                Ok(
                    PlanView::Screenshot {
                        path,
                        format,
                        quality: json::u64_field(arguments, "quality"@),
                    },
                )
            }
        },
    }
}

/// What a call of `wait_for_js` asks for.
pub open spec fn wait_plan(arguments: JsonView) -> Result<PlanView, Seq<char>> {
    let wanted = match json::text_field(arguments, "expression"@) {
        Some(e) => Some(e),
        None => match json::text_field(arguments, "selector"@) {
            Some(s) => Some(query_expression(s)),
            None => None,
        },
    };
    match wanted {
        None => Err("wait_for_js requires 'expression' or 'selector'"@),
        Some(expression) => Ok(
            PlanView::WaitForJs {
                expression,
                timeout: limit(arguments, "timeout"@, 30000, 100, 120000),
                interval: limit(arguments, "interval"@, 500, 50, 10000),
            },
        ),
    }
}

/// The number under a key, in floating point.
pub open spec fn number_field(arguments: JsonView, key: Seq<char>) -> Option<JsonView> {
    match json::field(arguments, key) {
        Some(v) => json::float_of(v),
        None => None,
    }
}

/// What a call of `click_at` asks for.
pub open spec fn click_plan(arguments: JsonView) -> Result<PlanView, Seq<char>> {
    match number_field(arguments, "x"@) {
        None => Err("click_at requires numeric 'x'"@),
        Some(x) => match number_field(arguments, "y"@) {
            None => Err("click_at requires numeric 'y'"@),
            Some(y) => Ok(PlanView::ClickAt { x, y }),
        },
    }
}

/// What a call of `dispatch_key` asks for.
pub open spec fn key_plan(arguments: JsonView) -> Result<PlanView, Seq<char>> {
    match json::text_field(arguments, "key"@) {
        None => Err("dispatch_key requires 'key'"@),
        Some(key) => Ok(
            PlanView::DispatchKey {
                key,
                modifiers: match json::u64_field(arguments, "modifiers"@) {
                    Some(n) => n,
                    None => 0,
                },
            },
        ),
    }
}

/// What a call of `set_file_input` asks for.
pub open spec fn file_plan(arguments: JsonView) -> Result<PlanView, Seq<char>> {
    match json::text_field(arguments, "selector"@) {
        None => Err("set_file_input requires 'selector'"@),
        Some(selector) => {
            let files = pages::path_list(arguments, "filePaths"@);
            if files.len() == 0 {
                Err("set_file_input requires a non-empty 'filePaths' array"@)
            } else {
                Ok(PlanView::SetFileInput { selector, files })
            }
        },
    }
}

/// What a call of `type_into` asks for.
pub open spec fn type_plan(arguments: JsonView) -> Result<PlanView, Seq<char>> {
    match json::text_field(arguments, "selector"@) {
        None => Err("type_into requires 'selector'"@),
        Some(selector) => match json::text_field(arguments, "text"@) {
            None => Err("type_into requires 'text'"@),
            Some(t) => Ok(
                PlanView::TypeInto {
                    selector,
                    text: t,
                    clear: json::bool_field(arguments, "clear"@) == Some(true),
                },
            ),
        },
    }
}

/// What a call of a tool that the daemon runs itself asks for, or why it is refused.
pub open spec fn planned(
    port: Option<u16>,
    target: Option<Seq<char>>,
    name: Seq<char>,
    arguments: JsonView,
) -> Result<PlanView, Seq<char>> {
    if port is None {
        Err("missing DevTools port"@)
    } else if name == "goto"@ {
        goto_plan(arguments)
    } else if name == "screenshot_quiet"@ {
        screenshot_plan(arguments)
    } else if name == "wait_for_js"@ {
        wait_plan(arguments)
    } else if name == "click_at"@ {
        click_plan(arguments)
    } else if name == "click_selector"@ {
        match json::text_field(arguments, "selector"@) {
            Some(selector) => Ok(PlanView::ClickSelector { selector }),
            None => Err("click_selector requires 'selector'"@),
        }
    } else if name == "dispatch_key"@ {
        key_plan(arguments)
    } else if name == "set_file_input"@ {
        file_plan(arguments)
    } else if name == "close_page_quiet"@ {
        match target {
            Some(t) => Ok(PlanView::ClosePage { target: t }),
            None => Err("close_page_quiet requires a session page"@),
        }
    } else if name == "type_into"@ {
        type_plan(arguments)
    } else {
        Err("unknown native tool: "@ + name)
    }
}

/// A plan, or the message of an error.
pub open spec fn plan_result(r: Result<NativePlan, String>) -> Result<PlanView, Seq<char>> {
    match r {
        Ok(plan) => Ok(plan@),
        Err(message) => Err(message@),
    }
}

fn plan_goto(arguments: &Json) -> (r: Result<NativePlan, String>)
    ensures
        plan_result(r) == goto_plan(arguments@),
{
    let url = match arguments.get_str("url") {
        Some(url) => url.to_string(),
        None => {
            return Err("goto requires 'url'".to_string());
        },
    };
    let selector = arguments.get_str("waitSelector");
    let expression = arguments.get_str("waitExpression");
    let wait_expression = match selector {
        Some(selector) => {
            if expression.is_some() {
                return Err("goto accepts only one of waitSelector or waitExpression".to_string());
            }
            query_selector_expression(selector)
        },
        None => match expression {
            Some(expression) => expression.to_string(),
            None => "document.readyState === 'complete'".to_string(),
        },
    };
    let timeout: u64 = limit_of(arguments, "timeout", 30000, 100, 120000);
    let interval: u64 = limit_of(arguments, "interval", 250, 50, 10000);
    Ok(NativePlan::Goto { url, wait_expression, timeout, interval })
}

fn plan_screenshot(arguments: &Json) -> (r: Result<NativePlan, String>)
    ensures
        plan_result(r) == screenshot_plan(arguments@),
{
    let file_path = match arguments.get_str("filePath") {
        Some(path) => path.to_string(),
        None => {
            return Err("screenshot_quiet requires 'filePath'".to_string());
        },
    };
    let format = match arguments.get_str("format") {
        Some(format) => format,
        None => "png",
    };
    if !same(format, "png") && !same(format, "jpeg") && !same(format, "webp") {
        return Err("screenshot_quiet format must be png, jpeg, or webp".to_string());
    }
    let quality = arguments.get_u64("quality");
    Ok(NativePlan::Screenshot { file_path, format: format.to_string(), quality })
}

fn plan_wait(arguments: &Json) -> (r: Result<NativePlan, String>)
    ensures
        plan_result(r) == wait_plan(arguments@),
{
    let expression = match arguments.get_str("expression") {
        Some(expression) => expression.to_string(),
        None => match arguments.get_str("selector") {
            Some(selector) => query_selector_expression(selector),
            None => {
                return Err("wait_for_js requires 'expression' or 'selector'".to_string());
            },
        },
    };
    let timeout: u64 = limit_of(arguments, "timeout", 30000, 100, 120000);
    let interval: u64 = limit_of(arguments, "interval", 500, 50, 10000);
    Ok(NativePlan::WaitForJs { expression, timeout, interval })
}

/// The number under a key, in floating point.
pub fn number_at(arguments: &Json, key: &str) -> (r: Option<Json>)
    ensures
        rpc::opt_view(r) == number_field(arguments@, key@),
{
    match arguments.get(key) {
        Some(value) => value.as_float(),
        None => None,
    }
}

fn plan_click(arguments: &Json) -> (r: Result<NativePlan, String>)
    ensures
        plan_result(r) == click_plan(arguments@),
{
    let x = match number_at(arguments, "x") {
        Some(x) => x,
        None => {
            return Err("click_at requires numeric 'x'".to_string());
        },
    };
    let y = match number_at(arguments, "y") {
        Some(y) => y,
        None => {
            return Err("click_at requires numeric 'y'".to_string());
        },
    };
    Ok(NativePlan::ClickAt { x, y })
}

fn plan_key(arguments: &Json) -> (r: Result<NativePlan, String>)
    ensures
        plan_result(r) == key_plan(arguments@),
{
    let key = match arguments.get_str("key") {
        Some(key) => key.to_string(),
        None => {
            return Err("dispatch_key requires 'key'".to_string());
        },
    };
    let modifiers: u64 = match arguments.get_u64("modifiers") {
        Some(n) => n,
        None => 0,
    };
    Ok(NativePlan::DispatchKey { key, modifiers })
}

fn plan_files(arguments: &Json) -> (r: Result<NativePlan, String>)
    ensures
        plan_result(r) == file_plan(arguments@),
{
    let selector = match arguments.get_str("selector") {
        Some(selector) => selector.to_string(),
        None => {
            return Err("set_file_input requires 'selector'".to_string());
        },
    };
    let mut files: Vec<String> = Vec::new();
    assert(text::texts(files@) =~= Seq::empty());
    if let Some(items) = arguments.get_array("filePaths") {
        push_texts(&mut files, items);
    }
    assert(text::texts(files@) =~= pages::path_list(arguments@, "filePaths"@));
    if files.len() == 0 {
        return Err("set_file_input requires a non-empty 'filePaths' array".to_string());
    }
    Ok(NativePlan::SetFileInput { selector, files })
}

fn plan_typing(arguments: &Json) -> (r: Result<NativePlan, String>)
    ensures
        plan_result(r) == type_plan(arguments@),
{
    let selector = match arguments.get_str("selector") {
        Some(selector) => selector.to_string(),
        None => {
            return Err("type_into requires 'selector'".to_string());
        },
    };
    let text = match arguments.get_str("text") {
        Some(text) => text.to_string(),
        None => {
            return Err("type_into requires 'text'".to_string());
        },
    };
    let clear = arguments.get_bool("clear") == Some(true);
    Ok(NativePlan::TypeInto { selector, text, clear })
}

/// Decides what running a tool on the page of a target comes to.
pub fn run_native_tool(
    port: Option<u16>,
    target_id: Option<&str>,
    name: &str,
    arguments: &Json,
) -> (r: Result<NativePlan, String>)
    ensures
        plan_result(r) == planned(port, text::opt_str(target_id), name@, arguments@),
{
    if port.is_none() {
        return Err("missing DevTools port".to_string());
    }
    if same(name, "goto") {
        plan_goto(arguments)
    } else if same(name, "screenshot_quiet") {
        plan_screenshot(arguments)
    } else if same(name, "wait_for_js") {
        plan_wait(arguments)
    } else if same(name, "click_at") {
        plan_click(arguments)
    } else if same(name, "click_selector") {
        match arguments.get_str("selector") {
            Some(selector) => Ok(NativePlan::ClickSelector { selector: selector.to_string() }),
            None => Err("click_selector requires 'selector'".to_string()),
        }
    } else if same(name, "dispatch_key") {
        plan_key(arguments)
    } else if same(name, "set_file_input") {
        plan_files(arguments)
    } else if same(name, "close_page_quiet") {
        match target_id {
            Some(target) => Ok(NativePlan::ClosePage { target_id: target.to_string() }),
            None => Err("close_page_quiet requires a session page".to_string()),
        }
    } else if same(name, "type_into") {
        plan_typing(arguments)
    } else {
        Err(joined("unknown native tool: ", name))
    }
}

/// What running a tool came to. Coordinates are given as they are shown.
pub enum NativeOutcome {
    Navigated { url: String, millis: u128 },
    Saved { path: String },
    Waited { millis: u128 },
    ClickedAt { x: String, y: String },
    ClickedSelector { selector: String, x: String, y: String },
    Dispatched { key: String },
    Attached { count: usize, selector: String },
    Closed { target_id: String },
    Typed { text: String, selector: String },
}

/// What running a tool came to.
pub enum OutcomeView {
    Navigated { url: Seq<char>, millis: nat },
    Saved { path: Seq<char> },
    Waited { millis: nat },
    ClickedAt { x: Seq<char>, y: Seq<char> },
    ClickedSelector { selector: Seq<char>, x: Seq<char>, y: Seq<char> },
    Dispatched { key: Seq<char> },
    Attached { count: nat, selector: Seq<char> },
    Closed { target: Seq<char> },
    Typed { text: Seq<char>, selector: Seq<char> },
}

impl View for NativeOutcome {
    type V = OutcomeView;

    open spec fn view(&self) -> OutcomeView {
        match self {
            NativeOutcome::Navigated { url, millis } => OutcomeView::Navigated {
                url: url@,
                millis: *millis as nat,
            },
            NativeOutcome::Saved { path } => OutcomeView::Saved { path: path@ },
            NativeOutcome::Waited { millis } => OutcomeView::Waited { millis: *millis as nat },
            NativeOutcome::ClickedAt { x, y } => OutcomeView::ClickedAt { x: x@, y: y@ },
            NativeOutcome::ClickedSelector { selector, x, y } => OutcomeView::ClickedSelector {
                selector: selector@,
                x: x@,
                y: y@,
            },
            NativeOutcome::Dispatched { key } => OutcomeView::Dispatched { key: key@ },
            NativeOutcome::Attached { count, selector } => OutcomeView::Attached {
                count: *count as nat,
                selector: selector@,
            },
            NativeOutcome::Closed { target_id } => OutcomeView::Closed { target: target_id@ },
            NativeOutcome::Typed { text, selector } => OutcomeView::Typed {
                text: text@,
                selector: selector@,
            },
        }
    }
}

/// What the client is told of an outcome.
pub open spec fn told(outcome: OutcomeView) -> Seq<char> {
    match outcome {
        OutcomeView::Navigated { url, millis } => "navigated to "@ + url
            + "; condition became truthy after "@ + text::decimal(millis) + "ms"@,
        OutcomeView::Saved { path } => "saved screenshot to "@ + path,
        OutcomeView::Waited { millis } => "condition became truthy after "@ + text::decimal(millis)
            + "ms"@,
        OutcomeView::ClickedAt { x, y } => "clicked at ("@ + x + ", "@ + y + ")"@,
        OutcomeView::ClickedSelector { selector, x, y } => "clicked "@ + selector + " at ("@ + x
            + ", "@ + y + ")"@,
        OutcomeView::Dispatched { key } => "dispatched key "@ + key,
        OutcomeView::Attached { count, selector } => "attached "@ + text::decimal(count)
            + " file(s) to "@ + selector,
        OutcomeView::Closed { target } => "closed page target "@ + target,
        OutcomeView::Typed { text: t, selector } => "typed "@ + text::decimal(t.len())
            + " char(s) into "@ + selector,
    }
}

/// What an outcome does to the session: a page that went somewhere is remembered under its
/// new address, a page that was closed is forgotten.
pub open spec fn felt(
    m: Map<Seq<char>, SessionView>,
    id: Seq<char>,
    outcome: OutcomeView,
    now: int,
) -> Map<Seq<char>, SessionView> {
    match outcome {
        OutcomeView::Navigated { url, .. } => match session::page_in(m, id) {
            Some(page) => session::adjusted(
                m,
                id,
                |s: SessionView| session::paged(s, page, s.by_daemon, Some(url), now),
            ),
            None => m,
        },
        OutcomeView::Closed { .. } => session::adjusted(
            m,
            id,
            |s: SessionView| session::pageless(s, now),
        ),
        _ => m,
    }
}

/// Notes an outcome in the session and tells what the client is told of it.
pub fn finish_native(
    sessions: &mut SessionRegistry,
    session_id: &str,
    outcome: &NativeOutcome,
    now: i128,
) -> (r: String)
    requires
        old(sessions).wf(),
    ensures
        final(sessions).wf(),
        final(sessions).made() == old(sessions).made(),
        r@ == told(outcome@),
        final(sessions)@ == felt(old(sessions)@, session_id@, outcome@, now as int),
{
    match outcome {
        NativeOutcome::Navigated { url, millis } => {
            if let Some(page_id) = session_page(sessions, session_id) {
                let by_daemon = session_page_created_by_daemon(sessions, session_id);
                let ghost before = sessions@;
                let _ = record_session_page(
                    sessions,
                    session_id,
                    page_id,
                    by_daemon,
                    Some(url.clone()),
                    now,
                );
                assert(sessions@ =~= felt(before, session_id@, outcome@, now as int));
            }
            let mut out = joined3("navigated to ", url.as_str(), "; condition became truthy after ");
            out.append(number_text(*millis).as_str());
            out.append("ms");
            out
        },
        NativeOutcome::Saved { path } => joined("saved screenshot to ", path.as_str()),
        NativeOutcome::Waited { millis } => joined3(
            "condition became truthy after ",
            number_text(*millis).as_str(),
            "ms",
        ),
        NativeOutcome::ClickedAt { x, y } => {
            let mut out = joined3("clicked at (", x.as_str(), ", ");
            out.append(y.as_str());
            out.append(")");
            out
        },
        NativeOutcome::ClickedSelector { selector, x, y } => {
            let mut out = joined3("clicked ", selector.as_str(), " at (");
            out.append(x.as_str());
            out.append(", ");
            out.append(y.as_str());
            out.append(")");
            out
        },
        NativeOutcome::Dispatched { key } => joined("dispatched key ", key.as_str()),
        NativeOutcome::Attached { count, selector } => {
            let mut out = joined3(
                "attached ",
                number_text(*count as u128).as_str(),
                " file(s) to ",
            );
            out.append(selector.as_str());
            out
        },
        NativeOutcome::Closed { target_id } => {
            sessions.clear_page(session_id, now);
            joined("closed page target ", target_id.as_str())
        },
        NativeOutcome::Typed { text, selector } => {
            let count: usize = text.as_str().unicode_len();
            let mut out = joined3(
                "typed ",
                number_text(count as u128).as_str(),
                " char(s) into ",
            );
            out.append(selector.as_str());
            out
        },
    }
}

/// A call of a tool that the daemon runs itself, with what is known of the session's tab.
pub struct NativeCall {
    pub id: Json,
    pub name: String,
    pub arguments: Json,
    pub page_url: Option<String>,
    pub target_id: Option<String>,
}

/// A call of a tool that the daemon runs itself.
pub struct CallView {
    pub id: JsonView,
    pub name: Seq<char>,
    pub arguments: JsonView,
    pub url: Option<Seq<char>>,
    pub target: Option<Seq<char>>,
}

impl View for NativeCall {
    type V = CallView;

    open spec fn view(&self) -> CallView {
        CallView {
            id: self.id@,
            name: self.name@,
            arguments: self.arguments@,
            url: text::opt_text(self.page_url),
            target: text::opt_text(self.target_id),
        }
    }
}

/// The call of a tool that the daemon runs itself in a request, if it is one and the
/// session already has a page; otherwise the request has to queue with all others.
pub open spec fn native_call(
    m: Map<Seq<char>, SessionView>,
    id: Option<Seq<char>>,
    request: JsonView,
) -> Option<CallView> {
    match (rpc::tool_of(request), id) {
        (Some(name), Some(session_id)) => if rpc::method_of(request) == Some("tools/call"@)
            && native(name) && session::page_in(m, session_id) is Some {
            Some(
                CallView {
                    id: match rpc::id_of(request) {
                        Some(v) => v,
                        None => JsonView::Null,
                    },
                    name,
                    arguments: match rpc::arguments_of(request) {
                        Some(a) => a,
                        None => json::empty_object(),
                    },
                    url: session::url_in(m, session_id),
                    target: session::target_in(m, session_id),
                },
            )
        } else {
            None
        },
        _ => None,
    }
}

/// The same for a line.
pub open spec fn line_native_call(
    m: Map<Seq<char>, SessionView>,
    id: Option<Seq<char>>,
    line: Seq<char>,
) -> Option<CallView> {
    match json::json_parse(line) {
        Ok(request) => native_call(m, id, request),
        Err(_) => None,
    }
}

/// An optional call as a value of the specification.
pub open spec fn call_option(r: Option<NativeCall>) -> Option<CallView> {
    match r {
        Some(call) => Some(call@),
        None => None,
    }
}

/// The call of a tool that the daemon runs itself in a parsed request.
pub fn native_request(
    sessions: &SessionRegistry,
    session_id: Option<&str>,
    value: &Json,
) -> (r: Option<NativeCall>)
    requires
        sessions.wf(),
    ensures
        call_option(r) == native_call(sessions@, text::opt_str(session_id), value@),
{
    if !rpc::has_method(value, "tools/call") {
        return None;
    }
    let name = match rpc::tool_name(value) {
        Some(name) => name,
        None => {
            return None;
        },
    };
    if !is_native_tool(name) {
        return None;
    }
    let session_id = match session_id {
        Some(id) => id,
        None => {
            return None;
        },
    };
    if session_page(sessions, session_id).is_none() {
        return None;
    }
    let id = match rpc::message_id(value) {
        Some(id) => id,
        None => Json::Null,
    };
    let arguments = match rpc::tool_arguments(value) {
        Some(arguments) => arguments.copy(),
        None => Json::object(),
    };
    Some(
        NativeCall {
            id,
            name: name.to_string(),
            arguments,
            page_url: session_page_url(sessions, session_id),
            target_id: session_target_id(sessions, session_id),
        },
    )
}

/// The call of a tool that the daemon runs itself in a line, if it is one and the session
/// already has a page.
pub fn try_native_tool(
    sessions: &SessionRegistry,
    session_id: Option<&str>,
    line: &str,
) -> (r: Option<NativeCall>)
    requires
        sessions.wf(),
    ensures
        call_option(r) == line_native_call(sessions@, text::opt_str(session_id), line@),
{
    match Json::parse(line) {
        Ok(value) => native_request(sessions, session_id, &value),
        Err(_) => None,
    }
}

/// The target of a call's tab: the one that is known, or else the only tab at the page's
/// address.
pub open spec fn call_target(
    call: CallView,
    targets: Option<Seq<cdp::TargetView>>,
) -> Option<Seq<char>> {
    match call.target {
        Some(t) => Some(t),
        None => match (targets, call.url) {
            (Some(list), Some(url)) => cdp::unique_target(list, url),
            _ => None,
        },
    }
}

/// Settles which tab a call works on, where `targets` are the browser's tabs if they could
/// be listed. A target that is found is remembered from then on.
pub fn native_page(
    sessions: &mut SessionRegistry,
    session_id: &str,
    call: &NativeCall,
    targets: Option<&Vec<PageTarget>>,
) -> (r: PageRef)
    requires
        old(sessions).wf(),
    ensures
        final(sessions).wf(),
        final(sessions).made() == old(sessions).made(),
        text::opt_text(r.url) == call@.url,
        text::opt_text(r.target_id) == call_target(
            call@,
            match targets {
                Some(list) => Some(cdp::target_views(list@)),
                None => None,
            },
        ),
        final(sessions)@ == (if call@.target is None && text::opt_text(r.target_id) is Some {
            session::adjusted(
                old(sessions)@,
                session_id@,
                |s: SessionView| session::targeted(s, text::opt_text(r.target_id)),
            )
        } else {
            old(sessions)@
        }),
{
    match &call.target_id {
        Some(target) => PageRef::new(Some(target.clone()), call.page_url.clone()),
        None => {
            let found = match targets {
                Some(list) => match &call.page_url {
                    Some(url) => resolve_unique_target_id(list, url.as_str()),
                    None => None,
                },
                None => None,
            };
            if found.is_some() {
                sessions.set_target_id(session_id, found.clone());
            }
            PageRef::new(found, call.page_url.clone())
        },
    }
}

/// The response to a call, from what the client is told or why the tool failed.
pub open spec fn native_answer(id: JsonView, name: Seq<char>, result: Result<Seq<char>, Seq<char>>) ->
    JsonView {
    match result {
        Ok(said) => native_reply(id, said, false),
        Err(message) => native_reply(id, name + " failed: "@ + message, true),
    }
}

/// The response to a call, from what the client is told or why the tool failed.
pub fn answer_native(call: NativeCall, result: Result<String, String>) -> (r: Vec<String>)
    ensures
        text::texts(r@) == seq![
            json::json_text(native_answer(call@.id, call@.name, text::result_text(result))),
        ],
{
    match result {
        Ok(said) => native_tool_response(call.id, said.as_str(), false),
        Err(message) => {
            let said = joined3(call.name.as_str(), " failed: ", message.as_str());
            native_tool_response(call.id, said.as_str(), true)
        },
    }
}

} // verus!
