//! What the daemon does to a page: screenshots, clicks, keys, text and files.
use crate::cdp;
use crate::cdp::unit_result;
use crate::json;
use crate::json::{Json, JsonView};
use crate::native;
use crate::text;
use crate::text::{chars_of, contains, joined, joined3, same, starts_with};
use base64::Engine;
use vstd::prelude::*;

verus! {

fn method_json(method: &str, params: Json) -> (r: Json)
    ensures
        r@ == cdp::method_call(method@, params@),
{
    Json::object().with("method", Json::str(method)).with("params", params)
}

/// What `base64`'s standard engine makes of a text: the bytes, or the text of its error.
pub uninterp spec fn base64_decoded(encoded: Seq<char>) -> Result<Seq<u8>, Seq<char>>;

/// `decode` of `base64`'s standard engine; an error is handed on as its text.
#[verifier::external_body]
fn decode_base64(encoded: &str) -> (r: Result<Vec<u8>, String>)
    ensures
        match r {
            Ok(bytes) => base64_decoded(encoded@) == Ok::<Seq<u8>, Seq<char>>(bytes@),
            Err(message) => base64_decoded(encoded@) == Err::<Seq<u8>, Seq<char>>(message@),
        },
{
    base64::engine::general_purpose::STANDARD.decode(encoded).map_err(|error| error.to_string())
}

/// The call that takes a screenshot of what is visible. Only the formats that lose detail
/// have a quality.
pub open spec fn screenshot_call(format: Seq<char>, quality: Option<u64>) -> JsonView {
    let plain = json::put(
        json::put(
            json::put(json::empty_object(), "format"@, json::jstr(format)),
            "fromSurface"@,
            JsonView::Bool(true),
        ),
        "captureBeyondViewport"@,
        JsonView::Bool(false),
    );
    cdp::method_call(
        "Page.captureScreenshot"@,
        match quality {
            Some(q) => if format == "jpeg"@ || format == "webp"@ {
                json::put(plain, "quality"@, json::num(native::bounded(q, 0, 100)))
            } else {
                plain
            },
            None => plain,
        },
    )
}

/// The call that takes a screenshot of what is visible.
pub fn screenshot_request(format: &str, quality: Option<u64>) -> (r: Json)
    ensures
        r@ == screenshot_call(format@, quality),
{
    let plain = Json::object().with("format", Json::str(format)).with(
        "fromSurface",
        Json::Bool(true),
    ).with("captureBeyondViewport", Json::Bool(false));
    let params = match quality {
        Some(q) => {
            if same(format, "jpeg") || same(format, "webp") {
                plain.with("quality", Json::uint(native::clamp(q, 0, 100)))
            } else {
                plain
            }
        },
        None => plain,
    };
    method_json("Page.captureScreenshot", params)
}

/// Whether a failed screenshot is tried again: a new tab may accept connections before it
/// can paint. `early` says whether there is time left.
pub open spec fn retried(error: Seq<char>, early: bool) -> bool {
    early && (text::holds(error, "WebSocket"@) || text::holds(error, "DevTools HTTP"@))
}

/// Whether a failed screenshot is tried again.
pub fn screenshot_retry(error: &str, early: bool) -> (r: bool)
    ensures
        r == retried(error@, early),
{
    early && (contains(error, "WebSocket") || contains(error, "DevTools HTTP"))
}

/// The encoded image in the answer to a screenshot.
pub open spec fn screenshot_data(answer: JsonView) -> Result<Seq<char>, Seq<char>> {
    match json::field(answer, "result"@) {
        Some(result) => match json::text_field(result, "data"@) {
            Some(data) => Ok(data),
            None => Err("Page.captureScreenshot returned no data"@),
        },
        None => Err("Page.captureScreenshot returned no data"@),
    }
}

/// The encoded image in the answer to a screenshot.
pub fn screenshot_text(response: &Json) -> (r: Result<String, String>)
    ensures
        text::result_text(r) == screenshot_data(response@),
{
    match response.get("result") {
        Some(result) => match result.get_str("data") {
            Some(data) => Ok(data.to_string()),
            None => Err("Page.captureScreenshot returned no data".to_string()),
        },
        None => Err("Page.captureScreenshot returned no data".to_string()),
    }
}

/// The image from its decoded bytes, or why there is none.
pub open spec fn image(
    data: Result<Seq<char>, Seq<char>>,
    decoded: Result<Seq<u8>, Seq<char>>,
) -> Result<Seq<u8>, Seq<char>> {
    match data {
        Err(message) => Err(message),
        Ok(_) => match decoded {
            Ok(bytes) => Ok(bytes),
            Err(error) => Err("invalid screenshot base64: "@ + error),
        },
    }
}

/// The bytes of a list, or the message of an error.
pub open spec fn bytes_result(r: Result<Vec<u8>, String>) -> Result<Seq<u8>, Seq<char>> {
    match r {
        Ok(bytes) => Ok(bytes@),
        Err(message) => Err(message@),
    }
}

/// The image from the outcome of decoding it.
pub fn decoded_image(decoded: Result<Vec<u8>, String>) -> (r: Result<Vec<u8>, String>)
    ensures
        bytes_result(r) == image(Ok::<Seq<char>, Seq<char>>(Seq::empty()), bytes_result(decoded)),
{
    match decoded {
        Ok(bytes) => Ok(bytes),
        Err(error) => Err(joined("invalid screenshot base64: ", error.as_str())),
    }
}

/// The image in the answer to a screenshot.
pub fn screenshot_quiet(response: &Json) -> (r: Result<Vec<u8>, String>)
    ensures
        bytes_result(r) == image(
            screenshot_data(response@),
            base64_decoded(screenshot_data(response@)->Ok_0),
        ),
{
    match screenshot_text(response) {
        Ok(data) => decoded_image(decode_base64(data.as_str())),
        Err(message) => Err(message),
    }
}

/// The call that reports a mouse event at a point.
pub open spec fn mouse_call(kind: Seq<char>, x: JsonView, y: JsonView) -> JsonView {
    cdp::method_call(
        "Input.dispatchMouseEvent"@,
        json::put(
            json::put(
                json::put(
                    json::put(
                        json::put(json::empty_object(), "type"@, json::jstr(kind)),
                        "x"@,
                        x,
                    ),
                    "y"@,
                    y,
                ),
                "button"@,
                json::jstr("left"@),
            ),
            "clickCount"@,
            json::num(1),
        ),
    )
}

fn mouse_json(kind: &str, x: Json, y: Json) -> (r: Json)
    ensures
        r@ == mouse_call(kind@, x@, y@),
{
    method_json(
        "Input.dispatchMouseEvent",
        Json::object().with("type", Json::str(kind)).with("x", x).with("y", y).with(
            "button",
            Json::str("left"),
        ).with("clickCount", Json::uint(1)),
    )
}

/// The two calls that make a click at a point, whose coordinates go out as they are given:
/// `native::number_at` has made them floating point numbers.
pub fn dispatch_click(x: &Json, y: &Json) -> (r: (Json, Json))
    ensures
        r.0@ == mouse_call("mousePressed"@, x@, y@),
        r.1@ == mouse_call("mouseReleased"@, x@, y@),
{
    (mouse_json("mousePressed", x.copy(), y.copy()), mouse_json(
        "mouseReleased",
        x.copy(),
        y.copy(),
    ))
}

/// The expression that scrolls to the element for a selector and tells its center.
pub open spec fn center_expression(selector: Seq<char>) -> Seq<char> {
    "(() => { const el = document.querySelector("@ + json::json_text(json::jstr(selector))
        + "); if (!el) return null; el.scrollIntoView({block: 'center', inline: 'center'}); const r = el.getBoundingClientRect(); return {x: r.x + r.width / 2, y: r.y + r.height / 2}; })()"@
}

/// The expression that scrolls to the element for a selector and tells its center.
pub fn click_selector_expression(selector: &str) -> (r: String)
    ensures
        r@ == center_expression(selector@),
{
    joined3(
        "(() => { const el = document.querySelector(",
        Json::str(selector).text().as_str(),
        "); if (!el) return null; el.scrollIntoView({block: 'center', inline: 'center'}); const r = el.getBoundingClientRect(); return {x: r.x + r.width / 2, y: r.y + r.height / 2}; })()",
    )
}

/// The center of an element from what the page says of it.
pub open spec fn center(value: JsonView, selector: Seq<char>) -> Result<
    (JsonView, JsonView),
    Seq<char>,
> {
    if value is Null {
        Err("no element matches selector: "@ + selector)
    } else {
        match native::number_field(value, "x"@) {
            None => Err("selector center has no x"@),
            Some(x) => match native::number_field(value, "y"@) {
                None => Err("selector center has no y"@),
                Some(y) => Ok((x, y)),
            },
        }
    }
}

/// The center of an element from what the page says of it.
pub fn click_selector(value: &Json, selector: &str) -> (r: Result<(Json, Json), String>)
    ensures
        match r {
            Ok((x, y)) => center(value@, selector@) == Ok::<_, Seq<char>>((x@, y@)),
            Err(message) => center(value@, selector@) == Err::<(JsonView, JsonView), _>(message@),
        },
{
    if value.is_null() {
        return Err(joined("no element matches selector: ", selector));
    }
    let x = match native::number_at(value, "x") {
        Some(x) => x,
        None => {
            return Err("selector center has no x".to_string());
        },
    };
    let y = match native::number_at(value, "y") {
        Some(y) => y,
        None => {
            return Err("selector center has no y".to_string());
        },
    };
    Ok((x, y))
}

/// What the browser is told of a key: its code, its number, and the text it types.
pub struct KeyView {
    pub code: Seq<char>,
    pub number: int,
    pub text: Option<Seq<char>>,
}

/// A key that types nothing.
pub open spec fn silent_key(code: Seq<char>, number: int) -> KeyView {
    KeyView { code, number, text: None }
}

/// The capital letter of a small one; any other character as it is.
pub open spec fn upper(c: char) -> char {
    if 'a' <= c <= 'z' {
        ((c as u32 - 32) as u32) as char
    } else {
        c
    }
}

/// What the browser is told of a key that stands for a character.
pub open spec fn character_key(c: char) -> KeyView {
    KeyView {
        code: if 'a' <= c <= 'z' || 'A' <= c <= 'Z' {
            "Key"@.push(upper(c))
        } else if '0' <= c <= '9' {
            "Digit"@.push(c)
        } else {
            ""@
        },
        number: upper(c) as int,
        text: Some(seq![c]),
    }
}

/// What the browser is told of a key.
pub open spec fn key_view(key: Seq<char>) -> KeyView {
    if key == "Enter"@ {
        KeyView { code: "Enter"@, number: 13, text: Some("\r"@) }
    } else if key == "Escape"@ {
        silent_key("Escape"@, 27)
    } else if key == "Tab"@ {
        silent_key("Tab"@, 9)
    } else if key == "Backspace"@ {
        silent_key("Backspace"@, 8)
    } else if key == "Delete"@ {
        silent_key("Delete"@, 46)
    } else if key == "ArrowUp"@ {
        silent_key("ArrowUp"@, 38)
    } else if key == "ArrowDown"@ {
        silent_key("ArrowDown"@, 40)
    } else if key == "ArrowLeft"@ {
        silent_key("ArrowLeft"@, 37)
    } else if key == "ArrowRight"@ {
        silent_key("ArrowRight"@, 39)
    } else if key == "Home"@ {
        silent_key("Home"@, 36)
    } else if key == "End"@ {
        silent_key("End"@, 35)
    } else if key == "PageUp"@ {
        silent_key("PageUp"@, 33)
    } else if key == "PageDown"@ {
        silent_key("PageDown"@, 34)
    } else if key == " "@ || key == "Space"@ {
        KeyView { code: "Space"@, number: 32, text: Some(" "@) }
    } else if key.len() == 1 {
        character_key(key[0])
    } else {
        silent_key(key, 0)
    }
}

/// A key's description as a value of the specification.
pub open spec fn key_triple(r: (String, i64, Option<String>)) -> KeyView {
    KeyView { code: r.0@, number: r.1 as int, text: text::opt_text(r.2) }
}

fn silent(code: &str, number: i64) -> (r: (String, i64, Option<String>))
    ensures
        key_triple(r) == silent_key(code@, number as int),
{
    (code.to_string(), number, None)
}

fn to_upper(c: char) -> (r: char)
    ensures
        r == upper(c),
{
    if 'a' <= c && c <= 'z' {
        let n: u8 = (c as u32 - 32) as u8;
        n as char
    } else {
        c
    }
}

/// What the browser is told of a key: its code, its number, and the text it types.
pub fn key_info(key: &str) -> (r: (String, i64, Option<String>))
    ensures
        key_triple(r) == key_view(key@),
{
    if same(key, "Enter") {
        ("Enter".to_string(), 13, Some("\r".to_string()))
    } else if same(key, "Escape") {
        silent("Escape", 27)
    } else if same(key, "Tab") {
        silent("Tab", 9)
    } else if same(key, "Backspace") {
        silent("Backspace", 8)
    } else if same(key, "Delete") {
        silent("Delete", 46)
    } else if same(key, "ArrowUp") {
        silent("ArrowUp", 38)
    } else if same(key, "ArrowDown") {
        silent("ArrowDown", 40)
    } else if same(key, "ArrowLeft") {
        silent("ArrowLeft", 37)
    } else if same(key, "ArrowRight") {
        silent("ArrowRight", 39)
    } else if same(key, "Home") {
        silent("Home", 36)
    } else if same(key, "End") {
        silent("End", 35)
    } else if same(key, "PageUp") {
        silent("PageUp", 33)
    } else if same(key, "PageDown") {
        silent("PageDown", 34)
    } else if same(key, " ") || same(key, "Space") {
        ("Space".to_string(), 32, Some(" ".to_string()))
    } else {
        let chars = chars_of(key);
        if chars.len() == 1 {
            let c = chars[0];
            let capital = to_upper(c);
            let code = if ('a' <= c && c <= 'z') || ('A' <= c && c <= 'Z') {
                let mut code = "Key".to_string();
                code.push(capital);
                code
            } else if '0' <= c && c <= '9' {
                let mut code = "Digit".to_string();
                code.push(c);
                code
            } else {
                "".to_string()
            };
            assert(key@ =~= seq![c]);
            (code, capital as u32 as i64, Some(key.to_string()))
        } else {
            (key.to_string(), 0, None)
        }
    }
}

/// What both events of a key have in common.
pub open spec fn key_params(kind: Seq<char>, key: Seq<char>, code: Seq<char>, number: i64) -> JsonView {
    json::put(
        json::put(
            json::put(
                json::put(
                    json::put(json::empty_object(), "type"@, json::jstr(kind)),
                    "key"@,
                    json::jstr(key),
                ),
                "code"@,
                json::jstr(code),
            ),
            "windowsVirtualKeyCode"@,
            JsonView::Number(json::integer(number)),
        ),
        "nativeVirtualKeyCode"@,
        JsonView::Number(json::integer(number)),
    )
}

/// The same with modifier keys held.
pub open spec fn held_params(
    kind: Seq<char>,
    key: Seq<char>,
    code: Seq<char>,
    number: i64,
    modifiers: u64,
) -> JsonView {
    json::put(key_params(kind, key, code, number), "modifiers"@, json::num(modifiers))
}

fn key_params_json(kind: &str, key: &str, code: &str, number: i64) -> (r: Json)
    ensures
        r@ == key_params(kind@, key@, code@, number),
{
    Json::object().with("type", Json::str(kind)).with("key", Json::str(key)).with(
        "code",
        Json::str(code),
    ).with("windowsVirtualKeyCode", Json::signed(number)).with(
        "nativeVirtualKeyCode",
        Json::signed(number),
    )
}

/// The call that presses a key. One that types something says what.
pub open spec fn key_down(key: Seq<char>, modifiers: u64) -> JsonView {
    let info = key_view(key);
    cdp::method_call(
        "Input.dispatchKeyEvent"@,
        match info.text {
            Some(t) => json::put(
                json::put(
                    held_params("keyDown"@, key, info.code, info.number as i64, modifiers),
                    "text"@,
                    json::jstr(t),
                ),
                "unmodifiedText"@,
                json::jstr(t),
            ),
            None => held_params("rawKeyDown"@, key, info.code, info.number as i64, modifiers),
        },
    )
}

/// The call that lets a key go.
pub open spec fn key_up(key: Seq<char>, modifiers: u64) -> JsonView {
    let info = key_view(key);
    cdp::method_call(
        "Input.dispatchKeyEvent"@,
        held_params("keyUp"@, key, info.code, info.number as i64, modifiers),
    )
}

/// The two calls that strike a key.
pub fn dispatch_key(key: &str, modifiers: u64) -> (r: (Json, Json))
    ensures
        r.0@ == key_down(key@, modifiers),
        r.1@ == key_up(key@, modifiers),
{
    let (code, number, text) = key_info(key);
    let params = match text {
        Some(text) => key_params_json("keyDown", key, code.as_str(), number).with(
            "modifiers",
            Json::uint(modifiers),
        ).with("text", Json::str(text.as_str())).with("unmodifiedText", Json::str(text.as_str())),
        None => key_params_json("rawKeyDown", key, code.as_str(), number).with(
            "modifiers",
            Json::uint(modifiers),
        ),
    };
    let down = method_json("Input.dispatchKeyEvent", params);
    let up = method_json(
        "Input.dispatchKeyEvent",
        key_params_json("keyUp", key, code.as_str(), number).with(
            "modifiers",
            Json::uint(modifiers),
        ),
    );
    (down, up)
}

/// The expression that puts the focus on the element for a selector.
pub open spec fn focus_expression(selector: Seq<char>) -> Seq<char> {
    "(() => { const el = document.querySelector("@ + json::json_text(json::jstr(selector))
        + "); if (!el) return false; el.scrollIntoView({block: 'center', inline: 'center'}); el.focus(); return document.activeElement === el; })()"@
}

/// The expression that puts the focus on the element for a selector.
pub fn type_into_expression(selector: &str) -> (r: String)
    ensures
        r@ == focus_expression(selector@),
{
    joined3(
        "(() => { const el = document.querySelector(",
        Json::str(selector).text().as_str(),
        "); if (!el) return false; el.scrollIntoView({block: 'center', inline: 'center'}); el.focus(); return document.activeElement === el; })()",
    )
}

/// One of the calls that clear an element: select all, then delete.
pub open spec fn clearing_call(kind: Seq<char>, all: bool) -> JsonView {
    cdp::method_call(
        "Input.dispatchKeyEvent"@,
        if all {
            held_params(kind, "a"@, "KeyA"@, 65, 2)
        } else {
            key_params(kind, "Delete"@, "Delete"@, 46)
        },
    )
}

fn clearing_json(kind: &str, all: bool) -> (r: Json)
    ensures
        r@ == clearing_call(kind@, all),
{
    let params = if all {
        key_params_json(kind, "a", "KeyA", 65).with("modifiers", Json::uint(2))
    } else {
        key_params_json(kind, "Delete", "Delete", 46)
    };
    method_json("Input.dispatchKeyEvent", params)
}

/// The calls that type a text into the element that has the focus, after clearing it where
/// that is asked for.
pub open spec fn typing_calls(t: Seq<char>, clear: bool) -> Seq<JsonView> {
    let clearing = if clear {
        seq![
            clearing_call("keyDown"@, true),
            clearing_call("keyUp"@, true),
            clearing_call("keyDown"@, false),
            clearing_call("keyUp"@, false),
        ]
    } else {
        Seq::empty()
    };
    clearing.push(
        cdp::method_call(
            "Input.insertText"@,
            json::put(json::empty_object(), "text"@, json::jstr(t)),
        ),
    )
}

/// The calls that type a text, or why nothing is typed: the focus is not on the element.
pub open spec fn typing(focused: JsonView, selector: Seq<char>, t: Seq<char>, clear: bool) -> Result<
    Seq<JsonView>,
    Seq<char>,
> {
    if json::bool_of(focused) != Some(true) {
        Err("could not focus selector: "@ + selector)
    } else {
        Ok(typing_calls(t, clear))
    }
}

fn push_call(out: &mut Vec<Json>, j: Json)
    ensures
        json::trees(final(out)@) == json::trees(old(out)@).push(j@),
{
    proof {
        json::lemma_trees_push(out@, j);
    }
    out.push(j);
}

/// The calls that type a text into an element, given what the page says of the focus.
pub fn type_into(focused: &Json, selector: &str, text: &str, clear: bool) -> (r: Result<
    Vec<Json>,
    String,
>)
    ensures
        match r {
            Ok(calls) => typing(focused@, selector@, text@, clear) == Ok::<_, Seq<char>>(
                json::trees(calls@),
            ),
            Err(message) => typing(focused@, selector@, text@, clear) == Err::<Seq<JsonView>, _>(
                message@,
            ),
        },
{
    if focused.as_bool() != Some(true) {
        return Err(joined("could not focus selector: ", selector));
    }
    let mut calls: Vec<Json> = Vec::new();
    if clear {
        push_call(&mut calls, clearing_json("keyDown", true));
        push_call(&mut calls, clearing_json("keyUp", true));
        push_call(&mut calls, clearing_json("keyDown", false));
        push_call(&mut calls, clearing_json("keyUp", false));
    }
    push_call(
        &mut calls,
        method_json("Input.insertText", Json::object().with("text", Json::str(text))),
    );
    assert(json::trees(calls@) =~= typing_calls(text@, clear));
    Ok(calls)
}

/// The expression that tells whether the element for a selector takes files.
pub open spec fn kind_expression(selector: Seq<char>) -> Seq<char> {
    "(() => { const el = document.querySelector("@ + json::json_text(json::jstr(selector))
        + "); if (!el) return 'missing'; if (el.tagName !== 'INPUT' || el.type !== 'file') return 'not-file'; return 'ok'; })()"@
}

/// The expression that tells whether the element for a selector takes files.
pub fn set_file_input_expression(selector: &str) -> (r: String)
    ensures
        r@ == kind_expression(selector@),
{
    joined3(
        "(() => { const el = document.querySelector(",
        Json::str(selector).text().as_str(),
        "); if (!el) return 'missing'; if (el.tagName !== 'INPUT' || el.type !== 'file') return 'not-file'; return 'ok'; })()",
    )
}

/// Whether files can be given to an element, from what the page says of it.
pub open spec fn takes_files(kind: JsonView, selector: Seq<char>) -> Result<(), Seq<char>> {
    if kind == json::jstr("ok"@) {
        Ok(())
    } else if kind == json::jstr("missing"@) {
        Err("no element matches selector: "@ + selector)
    } else {
        Err("selector is not an input[type=file]: "@ + selector)
    }
}

/// Whether files can be given to an element, from what the page says of it.
pub fn set_file_input(kind: &Json, selector: &str) -> (r: Result<(), String>)
    ensures
        unit_result(r) == takes_files(kind@, selector@),
{
    match kind.as_str() {
        Some(said) => {
            if same(said, "ok") {
                Ok(())
            } else if same(said, "missing") {
                Err(joined("no element matches selector: ", selector))
            } else {
                Err(joined("selector is not an input[type=file]: ", selector))
            }
        },
        None => Err(joined("selector is not an input[type=file]: ", selector)),
    }
}

/// The call for the root of a page's document.
pub fn document_request() -> (r: Json)
    ensures
        r@ == cdp::method_call(
            "DOM.getDocument"@,
            json::put(
                json::put(
                    json::empty_object(),
                    "depth"@,
                    JsonView::Number(json::integer(-1i64)),
                ),
                "pierce"@,
                JsonView::Bool(true),
            ),
        ),
{
    method_json(
        "DOM.getDocument",
        Json::object().with("depth", Json::signed(-1)).with("pierce", Json::Bool(true)),
    )
}

/// The root of a page's document.
pub open spec fn root_node(answer: JsonView) -> Result<i64, Seq<char>> {
    let node = match json::field(answer, "result"@) {
        Some(result) => match json::field(result, "root"@) {
            Some(root) => cdp::i64_field(root, "nodeId"@),
            None => None,
        },
        None => None,
    };
    match node {
        Some(n) => Ok(n),
        None => Err("DOM.getDocument did not return root nodeId"@),
    }
}

/// A node, or the message of an error.
pub open spec fn node_result(r: Result<i64, String>) -> Result<i64, Seq<char>> {
    match r {
        Ok(n) => Ok(n),
        Err(message) => Err(message@),
    }
}

/// The root of a page's document.
pub fn document_root_node_id(document: &Json) -> (r: Result<i64, String>)
    ensures
        node_result(r) == root_node(document@),
{
    let node = match document.get("result") {
        Some(result) => match result.get("root") {
            Some(root) => cdp::get_i64(root, "nodeId"),
            None => None,
        },
        None => None,
    };
    match node {
        Some(n) => Ok(n),
        None => Err("DOM.getDocument did not return root nodeId".to_string()),
    }
}

/// The call that looks for an element below a node.
pub open spec fn query_call(node: i64, selector: Seq<char>) -> JsonView {
    cdp::method_call(
        "DOM.querySelector"@,
        json::put(
            json::put(
                json::empty_object(),
                "nodeId"@,
                JsonView::Number(json::integer(node)),
            ),
            "selector"@,
            json::jstr(selector),
        ),
    )
}

/// The call that looks for an element below a node.
pub fn query_request(root_node_id: i64, selector: &str) -> (r: Json)
    ensures
        r@ == query_call(root_node_id, selector@),
{
    method_json(
        "DOM.querySelector",
        Json::object().with("nodeId", Json::signed(root_node_id)).with(
            "selector",
            Json::str(selector),
        ),
    )
}

/// The element that was found; zero stands for none.
pub open spec fn found_node(answer: JsonView) -> Option<i64> {
    match json::field(answer, "result"@) {
        Some(result) => match cdp::i64_field(result, "nodeId"@) {
            Some(n) => if n != 0 {
                Some(n)
            } else {
                None
            },
            None => None,
        },
        None => None,
    }
}

/// The element that was found.
pub fn queried_node(response: &Json) -> (r: Option<i64>)
    ensures
        r == found_node(response@),
{
    match response.get("result") {
        Some(result) => match cdp::get_i64(result, "nodeId") {
            Some(n) => {
                if n != 0 {
                    Some(n)
                } else {
                    None
                }
            },
            None => None,
        },
        None => None,
    }
}

/// The element for a selector, or the message that there is none.
pub open spec fn selected_node(answer: JsonView, selector: Seq<char>) -> Result<i64, Seq<char>> {
    match found_node(answer) {
        Some(n) => Ok(n),
        None => Err("DOM.querySelector found no node for "@ + selector),
    }
}

/// The element for a selector.
pub fn node_for_selector(response: &Json, selector: &str) -> (r: Result<i64, String>)
    ensures
        node_result(r) == selected_node(response@, selector@),
{
    match queried_node(response) {
        Some(n) => Ok(n),
        None => Err(joined("DOM.querySelector found no node for ", selector)),
    }
}

/// The selectors by which the fallback looks for an element that takes files, the most
/// likely one first.
pub open spec fn file_selectors() -> Seq<Seq<char>> {
    seq!["form input[type=file]"@, "input[type=file]"@, "input[type=\"file\"]"@]
}

/// What to do next in the search for an element that takes files.
pub enum FileSearch {
    /// Try this selector.
    Try(String),
    /// This is the element.
    Found(i64),
    /// There is none.
    Failed(String),
}

/// What to do next in the search for an element that takes files.
pub enum FileSearchView {
    Try(Seq<char>),
    Found(i64),
    Failed(Seq<char>),
}

impl View for FileSearch {
    type V = FileSearchView;

    open spec fn view(&self) -> FileSearchView {
        match self {
            FileSearch::Try(selector) => FileSearchView::Try(selector@),
            FileSearch::Found(n) => FileSearchView::Found(*n),
            FileSearch::Failed(message) => FileSearchView::Failed(message@),
        }
    }
}

/// The search for an element that takes files after `tried` selectors, the last of which
/// was answered with `answer`.
pub open spec fn file_search(tried: nat, answer: Option<JsonView>) -> FileSearchView {
    let found = match answer {
        Some(v) => found_node(v),
        None => None,
    };
    match found {
        Some(n) => FileSearchView::Found(n),
        None => if tried < file_selectors().len() {
            FileSearchView::Try(file_selectors()[tried as int])
        } else {
            FileSearchView::Failed("no input[type=file] for upload_file fallback"@)
        },
    }
}

/// Goes on with the search for an element that takes files.
pub fn query_file_input(tried: usize, answer: Option<&Json>) -> (r: FileSearch)
    ensures
        r@ == file_search(
            tried as nat,
            match answer {
                Some(j) => Some(j@),
                None => None,
            },
        ),
{
    if let Some(response) = answer {
        if let Some(n) = queried_node(response) {
            return FileSearch::Found(n);
        }
    }
    if tried == 0 {
        FileSearch::Try("form input[type=file]".to_string())
    } else if tried == 1 {
        FileSearch::Try("input[type=file]".to_string())
    } else if tried == 2 {
        FileSearch::Try("input[type=\"file\"]".to_string())
    } else {
        FileSearch::Failed("no input[type=file] for upload_file fallback".to_string())
    }
}

/// Texts as values.
pub open spec fn string_values(list: Seq<Seq<char>>) -> Seq<JsonView> {
    list.map_values(|s: Seq<char>| json::jstr(s))
}

/// The call that gives files to an element.
pub open spec fn files_call(node: i64, files: Seq<Seq<char>>) -> JsonView {
    cdp::method_call(
        "DOM.setFileInputFiles"@,
        json::put(
            json::put(
                json::empty_object(),
                "nodeId"@,
                JsonView::Number(json::integer(node)),
            ),
            "files"@,
            JsonView::Array(string_values(files)),
        ),
    )
}

fn string_array(list: &Vec<String>) -> (r: Json)
    ensures
        r@ == JsonView::Array(string_values(text::texts(list@))),
{
    let ghost all = string_values(text::texts(list@));
    let mut items: Vec<Json> = Vec::new();
    let mut i: usize = 0;
    while i < list.len()
        invariant
            i <= list.len(),
            all == string_values(text::texts(list@)),
            json::trees(items@) =~= all.take(i as int),
        decreases list.len() - i,
    {
        push_call(&mut items, Json::str(list[i].as_str()));
        i = i + 1;
    }
    assert(json::trees(items@) =~= all);
    Json::Array(items)
}

/// The call that gives files to an element.
pub fn set_file_input_files(node_id: i64, files: &Vec<String>) -> (r: Json)
    ensures
        r@ == files_call(node_id, text::texts(files@)),
{
    method_json(
        "DOM.setFileInputFiles",
        Json::object().with("nodeId", Json::signed(node_id)).with("files", string_array(files)),
    )
}

/// Whether the fallback has any file to give.
pub fn check_fallback_files(files: &Vec<String>) -> (r: Result<(), String>)
    ensures
        unit_result(r) == (if files.len() == 0 {
            Err::<(), _>("upload_file fallback requires at least one file"@)
        } else {
            Ok::<(), Seq<char>>(())
        }),
{
    if files.len() == 0 {
        Err("upload_file fallback requires at least one file".to_string())
    } else {
        Ok(())
    }
}

/// Whether a resolved path is a directory or lies below it.
pub open spec fn lies_under(path: Seq<char>, root: Seq<char>) -> bool {
    ||| path == root
    ||| root == "/"@ && text::begins(path, "/"@)
    ||| text::begins(path, root + "/"@)
}

/// Whether a resolved path lies under one of some directories.
pub open spec fn lies_under_any(path: Seq<char>, roots: Seq<Seq<char>>) -> bool {
    exists|i: int| 0 <= i < roots.len() && lies_under(path, #[trigger] roots[i])
}

fn is_under(path: &str, root: &str) -> (r: bool)
    ensures
        r == lies_under(path@, root@),
{
    same(path, root) || (same(root, "/") && text::starts_with(path, "/")) || text::starts_with(
        path,
        joined(root, "/").as_str(),
    )
}

/// Whether a resolved path lies under one of the directories that files may be read from
/// and written to.
pub fn is_under_any(path: &str, roots: &Vec<String>) -> (r: bool)
    ensures
        r == lies_under_any(path@, text::texts(roots@)),
{
    let ghost all = text::texts(roots@);
    let mut i: usize = 0;
    while i < roots.len()
        invariant
            i <= roots.len(),
            all == text::texts(roots@),
            forall|j: int| 0 <= j < i ==> !lies_under(path@, #[trigger] all[j]),
        decreases roots.len() - i,
    {
        if is_under(path, roots[i].as_str()) {
            assert(lies_under(path@, all[i as int]));
            return true;
        }
        assert(!lies_under(path@, all[i as int]));
        i = i + 1;
    }
    false
}

/// Whether a file may be given to a page: it must be a file, under one of the roots.
pub open spec fn input_allowed(path: Seq<char>, is_file: bool, roots: Seq<Seq<char>>) -> Result<
    (),
    Seq<char>,
> {
    if !is_file {
        Err("not a file: "@ + path)
    } else if !lies_under_any(path, roots) {
        Err("file path must be under HOME or the OS temp directory: "@ + path)
    } else {
        Ok(())
    }
}

/// Whether a path says by itself where it leads.
pub open spec fn is_absolute(path: Seq<char>) -> bool {
    text::begins(path, "/"@)
}

/// Whether a file, given by its path, may be looked for at all.
pub fn check_absolute_input(path: &str) -> (r: Result<(), String>)
    ensures
        unit_result(r) == (if is_absolute(path@) {
            Ok::<(), Seq<char>>(())
        } else {
            Err::<(), _>("file path must be absolute: "@ + path@)
        }),
{
    if starts_with(path, "/") {
        Ok(())
    } else {
        Err(joined("file path must be absolute: ", path))
    }
}

/// Whether a place for a screenshot, given by its path, may be looked for at all.
pub fn check_absolute_output(path: &str) -> (r: Result<(), String>)
    ensures
        unit_result(r) == (if is_absolute(path@) {
            Ok::<(), Seq<char>>(())
        } else {
            Err::<(), _>("screenshot_quiet filePath must be absolute"@)
        }),
{
    if starts_with(path, "/") {
        Ok(())
    } else {
        Err("screenshot_quiet filePath must be absolute".to_string())
    }
}

/// Whether a file, given by its resolved path, may be given to a page.
pub fn allowed_input_path(resolved: &str, is_file: bool, roots: &Vec<String>) -> (r: Result<
    (),
    String,
>)
    ensures
        unit_result(r) == input_allowed(resolved@, is_file, text::texts(roots@)),
{
    if !is_file {
        return Err(joined("not a file: ", resolved));
    }
    if !is_under_any(resolved, roots) {
        return Err(joined("file path must be under HOME or the OS temp directory: ", resolved));
    }
    Ok(())
}

/// Whether a screenshot may be written to a directory, given by its resolved path.
pub fn allowed_output_path(parent: &str, roots: &Vec<String>) -> (r: Result<(), String>)
    ensures
        unit_result(r) == (if lies_under_any(parent@, text::texts(roots@)) {
            Ok::<(), Seq<char>>(())
        } else {
            Err::<(), _>("screenshot_quiet filePath must be under HOME or the OS temp directory"@)
        }),
{
    if is_under_any(parent, roots) {
        Ok(())
    } else {
        Err("screenshot_quiet filePath must be under HOME or the OS temp directory".to_string())
    }
}

} // verus!
