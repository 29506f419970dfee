//! What holds of pages and tools in the server's messages.
use crate::json::{JsonView, NumberView};
use crate::pages::EntryView;
use crate::{json, native, pages, places, text};
use vstd::prelude::*;

verus! {

/// What a list comes to is what its parts come to, one after the other.
pub proof fn lemma_filter_map_sum<A, B>(a: Seq<A>, b: Seq<A>, f: spec_fn(A) -> Option<B>)
    ensures
        (a + b).filter_map(f) == a.filter_map(f) + b.filter_map(f),
    decreases b.len(),
{
    if b.len() == 0 {
        assert(a + b =~= a);
        assert(a.filter_map(f) + b.filter_map(f) =~= a.filter_map(f));
    } else {
        lemma_filter_map_sum(a, b.drop_last(), f);
        assert((a + b).drop_last() =~= a + b.drop_last());
        assert((a + b).last() == b.last());
        assert((a + b).filter_map(f) =~= a.filter_map(f) + b.filter_map(f));
    }
}

pub proof fn lemma_filter_map_one<A, B>(x: A, f: spec_fn(A) -> Option<B>)
    ensures
        seq![x].filter_map(f) == (match f(x) {
            Some(y) => seq![y],
            None => Seq::empty(),
        }),
{
    assert(seq![x].drop_last() =~= Seq::empty());
    assert(Seq::<A>::empty().filter_map(f) =~= Seq::empty());
    assert(seq![x].filter_map(f) =~= (match f(x) {
        Some(y) => seq![y],
        None => Seq::empty(),
    }));
}

/// The pages that an answer tells of.
pub open spec fn told_pages(v: JsonView) -> Option<Seq<JsonView>> {
    match places::member(v, "result"@) {
        Some(result) => match places::member(result, "structuredContent"@) {
            Some(content) => match places::member(content, "pages"@) {
                Some(JsonView::Array(items)) => Some(items),
                _ => None,
            },
            None => None,
        },
        None => None,
    }
}

/// The number of a page.
pub open spec fn number_of(page: JsonView) -> Option<u64> {
    match places::member(page, "id"@) {
        Some(JsonView::Number(NumberView::PosInt(n))) => Some(n),
        _ => None,
    }
}

/// Whether a page is told to be selected.
pub open spec fn is_selected(page: JsonView) -> bool {
    places::member(page, "selected"@) == Some(JsonView::Bool(true))
}

proof fn lemma_first_selected(items: Seq<JsonView>, k: int)
    requires
        0 <= k <= items.len(),
        forall|i: int| 0 <= i < k ==> !is_selected(#[trigger] items[i]),
        k < items.len() ==> is_selected(items[k]),
    ensures
        pages::first_selected(items) == (if k < items.len() {
            Some(items[k])
        } else {
            None
        }),
    decreases items.len(),
{
    if items.len() > 0 {
        if k > 0 {
            assert(!is_selected(items[0]));
            let rest = items.skip(1);
            assert forall|i: int| 0 <= i < k - 1 implies !is_selected(#[trigger] rest[i]) by {
                assert(rest[i] == items[i + 1]);
            }
            lemma_first_selected(rest, k - 1);
        }
    }
}

/// The selected page of an answer is the first one that is told to be selected, by its
/// number; where none is, there is none.
pub proof fn the_first_selected_page_counts(v: JsonView, items: Seq<JsonView>, k: int)
    requires
        told_pages(v) == Some(items),
        0 <= k <= items.len(),
        forall|i: int| 0 <= i < k ==> !is_selected(#[trigger] items[i]),
        k < items.len() ==> is_selected(items[k]),
    ensures
        pages::selected_in(v) == (if k < items.len() {
            number_of(items[k])
        } else {
            None
        }),
{
    lemma_first_selected(items, k);
}

/// An answer that tells of no pages has none, and none that is selected.
pub proof fn answers_may_have_no_pages(v: JsonView)
    requires
        told_pages(v) is None,
    ensures
        pages::selected_in(v) is None,
        pages::page_numbers(v) == Seq::<u64>::empty(),
        pages::page_entries(v) == Seq::<EntryView>::empty(),
{
}

/// The pages of an answer are those of its list that have a number, in order, each with its
/// address, or an empty one.
pub proof fn pages_are_told_one_by_one(
    v: JsonView,
    items: Seq<JsonView>,
    a: Seq<JsonView>,
    page: JsonView,
    b: Seq<JsonView>,
)
    requires
        told_pages(v) == Some(items),
        items == a + seq![page] + b,
    ensures
        pages::page_numbers(v) == pages::numbers_of(a) + (match number_of(page) {
            Some(n) => seq![n],
            None => Seq::empty(),
        }) + pages::numbers_of(b),
        pages::page_entries(v) == pages::entries_of(a) + (match number_of(page) {
            Some(id) => seq![
                EntryView {
                    id,
                    url: match places::member(page, "url"@) {
                        Some(JsonView::Str(url)) => url,
                        _ => Seq::empty(),
                    },
                },
            ],
            None => Seq::empty(),
        }) + pages::entries_of(b),
        pages::numbers_of(Seq::empty()) == Seq::<u64>::empty(),
        pages::entries_of(Seq::empty()) == Seq::<EntryView>::empty(),
{
    reveal_strlit("");
    assert(""@ =~= Seq::empty());
    let f = |p: JsonView| json::u64_field(p, "id"@);
    let g = |p: JsonView| pages::entry_of(p);
    lemma_filter_map_sum(a + seq![page], b, f);
    lemma_filter_map_sum(a, seq![page], f);
    lemma_filter_map_one(page, f);
    lemma_filter_map_sum(a + seq![page], b, g);
    lemma_filter_map_sum(a, seq![page], g);
    lemma_filter_map_one(page, g);
}

/// The numbers of a list of pages are those of its entries.
pub proof fn numbers_and_entries_agree(items: Seq<JsonView>)
    ensures
        pages::numbers_of(items).len() == pages::entries_of(items).len(),
        forall|i: int|
            0 <= i < pages::numbers_of(items).len() ==> (#[trigger] pages::entries_of(items)[i]).id
                == pages::numbers_of(items)[i],
    decreases items.len(),
{
    if items.len() > 0 {
        numbers_and_entries_agree(items.drop_last());
    }
}

proof fn lemma_schema_words()
    ensures
        "name"@.len() == 4 && "name"@[0] == 'n',
        "description"@.len() == 11 && "description"@[0] == 'd',
        "inputSchema"@.len() == 11 && "inputSchema"@[0] == 'i',
        "type"@.len() == 4 && "type"@[0] == 't',
        "properties"@.len() == 10,
        "required"@.len() == 8,
        "pageId"@.len() == 6,
        "enum"@.len() == 4 && "enum"@[0] == 'e',
        "items"@.len() == 5,
{
    reveal_strlit("name");
    reveal_strlit("description");
    reveal_strlit("inputSchema");
    reveal_strlit("type");
    reveal_strlit("properties");
    reveal_strlit("required");
    reveal_strlit("pageId");
    reveal_strlit("enum");
    reveal_strlit("items");
}


/// A call that is put on a page has the page's number, and is else as it was.
pub proof fn only_the_page_is_put_in(request: JsonView, page: u64)
    requires
        request is Object,
        places::member(request, "params"@) matches Some(params) && params is Object && (
        places::member(params, "arguments"@) matches Some(arguments) ==> arguments is Object),
    ensures
        ({
            let sent = pages::on_page(request, page);
            let params = places::member(request, "params"@)->0;
            let sent_params = places::member(sent, "params"@)->0;
            let sent_arguments = places::member(sent_params, "arguments"@)->0;
            &&& sent is Object
            &&& forall|k: Seq<char>|
                k != "params"@ ==> #[trigger] places::member(sent, k) == places::member(request, k)
            &&& places::member(sent, "params"@) is Some && sent_params is Object
            &&& forall|k: Seq<char>|
                k != "arguments"@ ==> #[trigger] places::member(sent_params, k) == places::member(
                    params,
                    k,
                )
            &&& places::member(sent_params, "arguments"@) is Some && sent_arguments is Object
            &&& places::member(sent_arguments, "pageId"@) == Some(
                JsonView::Number(NumberView::PosInt(page)),
            )
            &&& forall|k: Seq<char>|
                k != "pageId"@ ==> #[trigger] places::member(sent_arguments, k) == (match places::member(
                    params,
                    "arguments"@,
                ) {
                    Some(arguments) => places::member(arguments, k),
                    None => None,
                })
        }),
{
}

proof fn lemma_without_sum(a: Seq<JsonView>, b: Seq<JsonView>, s: Seq<char>)
    ensures
        pages::without_text(a + b, s) == pages::without_text(a, s) + pages::without_text(b, s),
    decreases b.len(),
{
    if b.len() == 0 {
        assert(a + b =~= a);
        assert(pages::without_text(a, s) + pages::without_text(b, s) =~= pages::without_text(a, s));
    } else {
        lemma_without_sum(a, b.drop_last(), s);
        assert((a + b).drop_last() =~= a + b.drop_last());
        assert((a + b).last() == b.last());
        assert(pages::without_text(a + b, s) =~= pages::without_text(a, s) + pages::without_text(
            b,
            s,
        ));
    }
}

/// Taking a text out of a list takes it out wherever it stands, and leaves everything else
/// in order.
pub proof fn texts_are_taken_out(a: Seq<JsonView>, x: JsonView, b: Seq<JsonView>, s: Seq<char>)
    ensures
        pages::without_text(a + seq![x] + b, s) == pages::without_text(a, s) + (if x
            == JsonView::Str(s) {
            Seq::empty()
        } else {
            seq![x]
        }) + pages::without_text(b, s),
        pages::without_text(Seq::empty(), s) == Seq::<JsonView>::empty(),
{
    lemma_without_sum(a + seq![x], b, s);
    lemma_without_sum(a, seq![x], s);
    assert(seq![x].drop_last() =~= Seq::empty());
    assert(pages::without_text(Seq::empty(), s) =~= Seq::empty());
    assert(pages::without_text(seq![x], s) =~= (if x == JsonView::Str(s) {
        Seq::empty()
    } else {
        seq![x]
    }));
}

/// The tools that work on the page of a session.
pub open spec fn works_on_a_page(name: Seq<char>) -> bool {
    ||| name == "click"@
    ||| name == "drag"@
    ||| name == "emulate"@
    ||| name == "evaluate_script"@
    ||| name == "fill"@
    ||| name == "fill_form"@
    ||| name == "get_console_message"@
    ||| name == "get_network_request"@
    ||| name == "handle_dialog"@
    ||| name == "hover"@
    ||| name == "lighthouse_audit"@
    ||| name == "list_console_messages"@
    ||| name == "list_network_requests"@
    ||| name == "navigate_page"@
    ||| name == "performance_analyze_insight"@
    ||| name == "performance_start_trace"@
    ||| name == "performance_stop_trace"@
    ||| name == "press_key"@
    ||| name == "resize_page"@
    ||| name == "take_heapsnapshot"@
    ||| name == "take_screenshot"@
    ||| name == "take_snapshot"@
    ||| name == "type_text"@
    ||| name == "upload_file"@
    ||| name == "wait_for"@
}

/// The tools of the server that work on a page are these, and no others: not those that
/// open, choose, list and close pages, nor those that the daemon runs itself.
pub proof fn page_tools_are_known(name: Seq<char>)
    ensures
        pages::page_scoped(name) <==> works_on_a_page(name),
{
    let all = pages::page_scoped_tools();
    assert(all[0] == "click"@);
    assert(all[1] == "drag"@);
    assert(all[2] == "emulate"@);
    assert(all[3] == "evaluate_script"@);
    assert(all[4] == "fill"@);
    assert(all[5] == "fill_form"@);
    assert(all[6] == "get_console_message"@);
    assert(all[7] == "get_network_request"@);
    assert(all[8] == "handle_dialog"@);
    assert(all[9] == "hover"@);
    assert(all[10] == "lighthouse_audit"@);
    assert(all[11] == "list_console_messages"@);
    assert(all[12] == "list_network_requests"@);
    assert(all[13] == "navigate_page"@);
    assert(all[14] == "performance_analyze_insight"@);
    assert(all[15] == "performance_start_trace"@);
    assert(all[16] == "performance_stop_trace"@);
    assert(all[17] == "press_key"@);
    assert(all[18] == "resize_page"@);
    assert(all[19] == "take_heapsnapshot"@);
    assert(all[20] == "take_screenshot"@);
    assert(all[21] == "take_snapshot"@);
    assert(all[22] == "type_text"@);
    assert(all[23] == "upload_file"@);
    assert(all[24] == "wait_for"@);
    if pages::page_scoped(name) {
        let i = choose|i: int| 0 <= i < all.len() && all[i] == name;
        assert(all[i] == name);
    }
}

/// A tool of the server that works on a page loses the page's number from its schema and
/// nothing else; any other tool is shown as it is.
pub proof fn only_the_page_is_taken_out(tool: JsonView)
    requires
        tool is Object,
    ensures
        ({
            let shown = pages::pageless_tool(tool);
            let name = match places::member(tool, "name"@) {
                Some(JsonView::Str(name)) => name,
                _ => Seq::empty(),
            };
            &&& !works_on_a_page(name) ==> shown == tool
            &&& forall|k: Seq<char>|
                k != "inputSchema"@ ==> #[trigger] places::member(shown, k) == places::member(
                    tool,
                    k,
                )
            &&& works_on_a_page(name) ==> match places::member(tool, "inputSchema"@) {
                Some(schema) => schema is Object ==> {
                    let left = places::member(shown, "inputSchema"@)->0;
                    &&& places::member(shown, "inputSchema"@) is Some
                    &&& forall|k: Seq<char>|
                        k != "properties"@ && k != "required"@ ==> #[trigger] places::member(left, k)
                            == places::member(schema, k)
                    &&& match places::member(schema, "properties"@) {
                        Some(JsonView::Object(m)) => places::member(left, "properties"@) == Some(
                            JsonView::Object(m.remove("pageId"@)),
                        ),
                        other => places::member(left, "properties"@) == other,
                    }
                    &&& match places::member(schema, "required"@) {
                        Some(JsonView::Array(items)) => places::member(left, "required"@) == Some(
                            JsonView::Array(pages::without_text(items, "pageId"@)),
                        ),
                        other => places::member(left, "required"@) == other,
                    }
                },
                None => shown == tool,
            }
        }),
{
    lemma_schema_words();
    reveal_strlit("");
    assert(""@ =~= Seq::empty());
    let name = match places::member(tool, "name"@) {
        Some(JsonView::Str(name)) => name,
        _ => Seq::empty(),
    };
    page_tools_are_known(name);
}

/// The tools of an answer.
pub open spec fn told_tools(v: JsonView) -> Option<Seq<JsonView>> {
    match places::member(v, "result"@) {
        Some(result) => match places::member(result, "tools"@) {
            Some(JsonView::Array(items)) => Some(items),
            _ => None,
        },
        None => None,
    }
}

/// A list of tools is shown with the server's tools in order, each without the page, and
/// behind them the tools that the daemon runs itself; the rest of the answer is kept, and an
/// answer without tools is left as it is.
pub proof fn every_tool_is_shown(v: JsonView)
    ensures
        told_tools(v) is None ==> pages::pageless_listing(v) is None && native::extended_listing(v)
            is None,
        told_tools(v) is Some ==> pages::pageless_listing(v) is Some && native::extended_listing(v)
            is Some,
        told_tools(v) matches Some(tools) ==> {
            let shown = pages::pageless_listing(v)->0;
            let more = native::extended_listing(v)->0;
            &&& told_tools(shown) matches Some(list) && list.len() == tools.len() && forall|i: int|
                0 <= i < tools.len() ==> #[trigger] list[i] == pages::pageless_tool(tools[i])
            &&& told_tools(more) == Some(tools + native::tool_defs())
            &&& forall|k: Seq<char>|
                k != "result"@ ==> #[trigger] places::member(shown, k) == places::member(v, k)
            &&& forall|k: Seq<char>|
                k != "result"@ ==> #[trigger] places::member(more, k) == places::member(v, k)
            &&& forall|k: Seq<char>|
                k != "tools"@ ==> #[trigger] places::member(places::member(shown, "result"@)->0, k)
                    == places::member(places::member(v, "result"@)->0, k)
            &&& forall|k: Seq<char>|
                k != "tools"@ ==> #[trigger] places::member(places::member(more, "result"@)->0, k)
                    == places::member(places::member(v, "result"@)->0, k)
        },
{
}

/// What is shown of a tool: its name, that it takes an object, and what it cannot do without.
pub open spec fn shows_tool(tool: JsonView, name: Seq<char>, required: Seq<Seq<char>>) -> bool {
    &&& places::member(tool, "name"@) == Some(JsonView::Str(name))
    &&& places::member(tool, "description"@) matches Some(JsonView::Str(d)) && text::begins(
        d,
        "Daemon-native: "@,
    )
    &&& places::member(tool, "inputSchema"@) matches Some(schema) && places::member(
        schema,
        "type"@,
    ) == Some(JsonView::Str("object"@)) && (places::member(schema, "properties"@) matches Some(
        JsonView::Object(properties),
    ) && forall|i: int|
        0 <= i < required.len() ==> properties.contains_key(#[trigger] required[i])) && match places::member(
        schema,
        "required"@,
    ) {
        Some(JsonView::Array(list)) => required.len() > 0 && list.len() == required.len()
            && forall|i: int|
            0 <= i < required.len() ==> #[trigger] list[i] == JsonView::Str(required[i]),
        _ => required.len() == 0,
    }
}

/// Whether a property of a tool is of a type.
pub open spec fn has_property(tool: JsonView, property: Seq<char>, kind: Seq<char>) -> bool {
    places::member(tool, "inputSchema"@) matches Some(schema) && (places::member(
        schema,
        "properties"@,
    ) matches Some(properties) && (places::member(properties, property) matches Some(shape)
        && places::member(shape, "type"@) == Some(JsonView::Str(kind))))
}

/// Each tool that the daemon runs itself is shown, with its name and with what it needs.
pub proof fn native_tools_are_shown()
    ensures
        native::tool_defs().len() == 9,
        shows_tool(native::tool_defs()[0], "goto"@, seq!["url"@]),
        has_property(native::tool_defs()[0], "url"@, "string"@),
        has_property(native::tool_defs()[0], "waitSelector"@, "string"@),
        has_property(native::tool_defs()[0], "waitExpression"@, "string"@),
        has_property(native::tool_defs()[0], "timeout"@, "number"@),
        has_property(native::tool_defs()[0], "interval"@, "number"@),
        shows_tool(native::tool_defs()[1], "screenshot_quiet"@, seq!["filePath"@]),
        has_property(native::tool_defs()[1], "filePath"@, "string"@),
        has_property(native::tool_defs()[1], "format"@, "string"@),
        has_property(native::tool_defs()[1], "quality"@, "number"@),
        shows_tool(native::tool_defs()[2], "wait_for_js"@, Seq::empty()),
        has_property(native::tool_defs()[2], "expression"@, "string"@),
        has_property(native::tool_defs()[2], "selector"@, "string"@),
        has_property(native::tool_defs()[2], "timeout"@, "number"@),
        has_property(native::tool_defs()[2], "interval"@, "number"@),
        shows_tool(native::tool_defs()[3], "click_at"@, seq!["x"@, "y"@]),
        has_property(native::tool_defs()[3], "x"@, "number"@),
        has_property(native::tool_defs()[3], "y"@, "number"@),
        shows_tool(native::tool_defs()[4], "click_selector"@, seq!["selector"@]),
        has_property(native::tool_defs()[4], "selector"@, "string"@),
        shows_tool(native::tool_defs()[5], "dispatch_key"@, seq!["key"@]),
        has_property(native::tool_defs()[5], "key"@, "string"@),
        has_property(native::tool_defs()[5], "modifiers"@, "number"@),
        shows_tool(native::tool_defs()[6], "set_file_input"@, seq!["selector"@, "filePaths"@]),
        has_property(native::tool_defs()[6], "selector"@, "string"@),
        has_property(native::tool_defs()[6], "filePaths"@, "array"@),
        shows_tool(native::tool_defs()[7], "close_page_quiet"@, Seq::empty()),
        shows_tool(native::tool_defs()[8], "type_into"@, seq!["selector"@, "text"@]),
        has_property(native::tool_defs()[8], "selector"@, "string"@),
        has_property(native::tool_defs()[8], "text"@, "string"@),
        has_property(native::tool_defs()[8], "clear"@, "boolean"@),
        forall|name: Seq<char>| #[trigger]
            native::native(name) ==> exists|i: int|
                0 <= i < 9 && places::member(#[trigger] native::tool_defs()[i], "name"@) == Some(
                    JsonView::Str(name),
                ),
{
    lemma_schema_words();
    lemma_property_words();
    reveal_strlit("Daemon-native: ");
    reveal_strlit("Daemon-native: navigate the session page with CDP without bringing Chrome to the front, then wait for page readiness, a selector, or a JavaScript expression.");
    assert("Daemon-native: navigate the session page with CDP without bringing Chrome to the front, then wait for page readiness, a selector, or a JavaScript expression."@.subrange(0, 15) =~= "Daemon-native: "@);
    reveal_strlit("Daemon-native: capture the visible viewport of the session page directly with CDP, without selecting or foregrounding the page and without entering the MCP tool queue.");
    assert("Daemon-native: capture the visible viewport of the session page directly with CDP, without selecting or foregrounding the page and without entering the MCP tool queue."@.subrange(0, 15) =~= "Daemon-native: "@);
    reveal_strlit("Daemon-native: poll a JavaScript expression (or CSS selector) on the session page until it becomes truthy. Lightweight (no snapshot). Prefer this over fixed sleeps for SPA rendering waits.");
    assert("Daemon-native: poll a JavaScript expression (or CSS selector) on the session page until it becomes truthy. Lightweight (no snapshot). Prefer this over fixed sleeps for SPA rendering waits."@.subrange(0, 15) =~= "Daemon-native: "@);
    reveal_strlit("Daemon-native: dispatch a raw left click at viewport coordinates via CDP Input.dispatchMouseEvent. Works without a snapshot (use on pages too large for take_snapshot).");
    assert("Daemon-native: dispatch a raw left click at viewport coordinates via CDP Input.dispatchMouseEvent. Works without a snapshot (use on pages too large for take_snapshot)."@.subrange(0, 15) =~= "Daemon-native: "@);
    reveal_strlit("Daemon-native: scroll the first element matching a CSS selector into view and click its center via CDP. Works without a snapshot.");
    assert("Daemon-native: scroll the first element matching a CSS selector into view and click its center via CDP. Works without a snapshot."@.subrange(0, 15) =~= "Daemon-native: "@);
    reveal_strlit("Daemon-native: dispatch a single key press (e.g. Escape, Enter, ArrowDown, Tab, or a single character) via CDP Input.dispatchKeyEvent.");
    assert("Daemon-native: dispatch a single key press (e.g. Escape, Enter, ArrowDown, Tab, or a single character) via CDP Input.dispatchKeyEvent."@.subrange(0, 15) =~= "Daemon-native: "@);
    reveal_strlit("Daemon-native: attach files to the input[type=file] matched by a CSS selector via CDP DOM.setFileInputFiles. No snapshot and no file chooser, so it stays inside the session page and picks the exact input on pages that have several.");
    assert("Daemon-native: attach files to the input[type=file] matched by a CSS selector via CDP DOM.setFileInputFiles. No snapshot and no file chooser, so it stays inside the session page and picks the exact input on pages that have several."@.subrange(0, 15) =~= "Daemon-native: "@);
    reveal_strlit("Daemon-native: close the session's own tab through the DevTools HTTP endpoint. The MCP close_page queues behind the tool mutex, so it cannot reach a tab that is holding the mutex open (a JavaScript dialog, a tool that never returns). Closing that tab releases the mutex. The session picks up a fresh tab on its next call.");
    assert("Daemon-native: close the session's own tab through the DevTools HTTP endpoint. The MCP close_page queues behind the tool mutex, so it cannot reach a tab that is holding the mutex open (a JavaScript dialog, a tool that never returns). Closing that tab releases the mutex. The session picks up a fresh tab on its next call."@.subrange(0, 15) =~= "Daemon-native: "@);
    reveal_strlit("Daemon-native: focus the element matched by a CSS selector and insert text with CDP Input.insertText. Use when a native value setter plus an input event does not reach the framework state (some React-based ATS forms).");
    assert("Daemon-native: focus the element matched by a CSS selector and insert text with CDP Input.insertText. Use when a native value setter plus an input event does not reach the framework state (some React-based ATS forms)."@.subrange(0, 15) =~= "Daemon-native: "@);
    assert forall|name: Seq<char>| #[trigger] native::native(name) implies exists|i: int|
        0 <= i < 9 && places::member(#[trigger] native::tool_defs()[i], "name"@) == Some(
            JsonView::Str(name),
        ) by {
        let defs = native::tool_defs();
        assert(shown_name(defs[0], "goto"@));
        assert(shown_name(defs[1], "screenshot_quiet"@));
        assert(shown_name(defs[2], "wait_for_js"@));
        assert(shown_name(defs[3], "click_at"@));
        assert(shown_name(defs[4], "click_selector"@));
        assert(shown_name(defs[5], "dispatch_key"@));
        assert(shown_name(defs[6], "set_file_input"@));
        assert(shown_name(defs[7], "close_page_quiet"@));
        assert(shown_name(defs[8], "type_into"@));
    }
}

/// Whether a tool is shown under a name.
spec fn shown_name(tool: JsonView, name: Seq<char>) -> bool {
    places::member(tool, "name"@) == Some(JsonView::Str(name))
}

/// In a list of pages that is shown to a session only the marks are changed.
pub proof fn only_the_marks_are_changed(
    v: JsonView,
    number: u64,
    items: Seq<JsonView>,
    k: int,
    key: Seq<char>,
)
    requires
        told_pages(v) == Some(items),
        0 <= k < items.len(),
        items[k] is Object,
    ensures
        told_pages(pages::marked(v, number)) matches Some(list) && list.len() == items.len() && (key
            != "selected"@ ==> places::member(list[k], key) == places::member(items[k], key))
            && places::member(list[k], "selected"@) == Some(
            JsonView::Bool(number_of(items[k]) == Some(number)),
        ),
        key != "result"@ ==> places::member(pages::marked(v, number), key) == places::member(v, key),
{
}

/// The files of an upload: the one under each name for one file, then the texts of each
/// list, in order.
pub proof fn uploads_name_their_files(
    arguments: JsonView,
    a: Seq<JsonView>,
    x: JsonView,
    b: Seq<JsonView>,
)
    ensures
        pages::upload_paths(arguments) == pages::one_path(arguments, "filePath"@)
            + pages::one_path(arguments, "path"@) + pages::path_list(arguments, "filePaths"@)
            + pages::path_list(arguments, "files"@),
        forall|key: Seq<char>| #[trigger]
            pages::one_path(arguments, key) == (match places::member(arguments, key) {
                Some(JsonView::Str(path)) => seq![path],
                _ => Seq::empty(),
            }),
        forall|key: Seq<char>| #[trigger]
            pages::path_list(arguments, key) == (match places::member(arguments, key) {
                Some(JsonView::Array(items)) => pages::texts_among(items),
                _ => Seq::empty(),
            }),
        pages::texts_among(a + seq![x] + b) == pages::texts_among(a) + (match x {
            JsonView::Str(s) => seq![s],
            _ => Seq::empty(),
        }) + pages::texts_among(b),
        pages::texts_among(Seq::empty()) == Seq::<Seq<char>>::empty(),
{
    let f = |v: JsonView| json::text_of(v);
    lemma_filter_map_sum(a + seq![x], b, f);
    lemma_filter_map_sum(a, seq![x], f);
    lemma_filter_map_one(x, f);
}

/// An upload was refused in the way that can be made good only where the answer is an error
/// whose first text says both things.
pub proof fn refused_uploads_say_so(v: JsonView)
    ensures
        pages::upload_refused(v) <==> (places::member(v, "result"@) matches Some(result)
            && places::member(result, "isError"@) == Some(JsonView::Bool(true)) && (
        places::member(result, "content"@) matches Some(JsonView::Array(content)) && content.len()
            > 0 && (places::member(content[0], "text"@) matches Some(JsonView::Str(said))
            && text::holds(said, "could not accept the file directly"@) && text::holds(
            said,
            "clicking it did not trigger a file chooser"@,
        )))),
{
    reveal_strlit("");
    reveal_strlit("could not accept the file directly");
    let p = "could not accept the file directly"@;
    assert(p.len() > 0);
    assert(!text::holds(""@, p)) by {
        if text::holds(""@, p) {
            let i = choose|i: int| text::occurs(""@, p, i);
        }
    }
}

/// Whether a value is content of one text.
pub open spec fn says_text(content: JsonView, s: Seq<char>) -> bool {
    content matches JsonView::Array(items) && items.len() == 1 && places::member(
        items[0],
        "type"@,
    ) == Some(JsonView::Str("text"@)) && places::member(items[0], "text"@) == Some(
        JsonView::Str(s),
    )
}

/// The answers that the daemon makes itself are for the request of the id, and say what they
/// have to say; an error says that it is one.
pub proof fn own_answers_are_for_their_request(
    id: JsonView,
    name: Seq<char>,
    said: Result<Seq<char>, Seq<char>>,
)
    ensures
        ({
            let answer = native::native_answer(id, name, said);
            let result = places::member(answer, "result"@)->0;
            &&& places::member(answer, "jsonrpc"@) == Some(JsonView::Str("2.0"@))
            &&& places::member(answer, "id"@) == Some(id)
            &&& places::member(answer, "result"@) is Some && places::member(result, "content"@)
                is Some
            &&& says_text(
                places::member(result, "content"@)->0,
                match said {
                    Ok(s) => s,
                    Err(message) => name + " failed: "@ + message,
                },
            )
            &&& said is Err <==> places::member(result, "isError"@) == Some(JsonView::Bool(true))
            &&& said is Ok <==> places::member(result, "isError"@) is None
        }),
        ({
            let answer = pages::fallback_reply(id);
            let result = places::member(answer, "result"@)->0;
            &&& places::member(answer, "jsonrpc"@) == Some(JsonView::Str("2.0"@))
            &&& places::member(answer, "id"@) == Some(id)
            &&& places::member(answer, "result"@) is Some && places::member(result, "content"@)
                is Some
            &&& places::member(result, "isError"@) is None
        }),
{
    lemma_reply_words();
}

proof fn lemma_property_words()
    ensures
        "clear"@.len() == 5,
        "expression"@.len() == 10,
        "filePath"@.len() == 8 && "filePath"@[0] == 'f',
        "filePaths"@.len() == 9 && "filePaths"@[0] == 'f',
        "format"@.len() == 6,
        "interval"@.len() == 8 && "interval"@[0] == 'i',
        "key"@.len() == 3 && "key"@[0] == 'k',
        "modifiers"@.len() == 9 && "modifiers"@[0] == 'm',
        "quality"@.len() == 7 && "quality"@[0] == 'q',
        "selector"@.len() == 8 && "selector"@[0] == 's',
        "text"@.len() == 4,
        "timeout"@.len() == 7 && "timeout"@[0] == 't',
        "url"@.len() == 3 && "url"@[0] == 'u',
        "waitExpression"@.len() == 14,
        "waitSelector"@.len() == 12,
        "x"@.len() == 1 && "x"@[0] == 'x',
        "y"@.len() == 1 && "y"@[0] == 'y',
{
    reveal_strlit("clear");
    reveal_strlit("expression");
    reveal_strlit("filePath");
    reveal_strlit("filePaths");
    reveal_strlit("format");
    reveal_strlit("interval");
    reveal_strlit("key");
    reveal_strlit("modifiers");
    reveal_strlit("quality");
    reveal_strlit("selector");
    reveal_strlit("text");
    reveal_strlit("timeout");
    reveal_strlit("url");
    reveal_strlit("waitExpression");
    reveal_strlit("waitSelector");
    reveal_strlit("x");
    reveal_strlit("y");
}


proof fn lemma_reply_words()
    ensures
        "jsonrpc"@.len() == 7 && "jsonrpc"@[0] == 'j',
        "id"@.len() == 2,
        "result"@.len() == 6,
        "content"@.len() == 7 && "content"@[0] == 'c',
        "isError"@.len() == 7 && "isError"@[0] == 'i',
        "structuredContent"@.len() == 17,
        "type"@.len() == 4 && "type"@[1] == 'y',
        "text"@.len() == 4 && "text"@[1] == 'e',
{
    reveal_strlit("jsonrpc");
    reveal_strlit("id");
    reveal_strlit("result");
    reveal_strlit("content");
    reveal_strlit("isError");
    reveal_strlit("structuredContent");
    reveal_strlit("type");
    reveal_strlit("text");
}

/// The selectors by which an element for files is looked for: in a form first, then anywhere.
pub proof fn file_elements_are_looked_for()
    ensures
        crate::input::file_selectors() == seq![
            "form input[type=file]"@,
            "input[type=file]"@,
            "input[type=\"file\"]"@,
        ],
{
}

} // verus!
