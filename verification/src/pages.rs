//! Pages in MCP messages: which ones a response lists, and how requests and responses are
//! adapted so that each session sees its own page.
use crate::json;
use crate::json::{Json, JsonView};
use crate::rpc;
use crate::text;
use crate::text::{contains, same};
use vstd::prelude::*;

verus! {

/// The tools that work on one page.
pub open spec fn page_scoped_tools() -> Seq<Seq<char>> {
    seq![
        "click"@,
        "drag"@,
        "emulate"@,
        "evaluate_script"@,
        "fill"@,
        "fill_form"@,
        "get_console_message"@,
        "get_network_request"@,
        "handle_dialog"@,
        "hover"@,
        "lighthouse_audit"@,
        "list_console_messages"@,
        "list_network_requests"@,
        "navigate_page"@,
        "performance_analyze_insight"@,
        "performance_start_trace"@,
        "performance_stop_trace"@,
        "press_key"@,
        "resize_page"@,
        "take_heapsnapshot"@,
        "take_screenshot"@,
        "take_snapshot"@,
        "type_text"@,
        "upload_file"@,
        "wait_for"@,
    ]
}

/// Whether a tool works on one page.
pub open spec fn page_scoped(name: Seq<char>) -> bool {
    page_scoped_tools().contains(name)
}

/// Whether a tool works on one page.
pub fn is_page_scoped_tool(name: &str) -> (r: bool)
    ensures
        r == page_scoped(name@),
{
    let tools = [
        "click",
        "drag",
        "emulate",
        "evaluate_script",
        "fill",
        "fill_form",
        "get_console_message",
        "get_network_request",
        "handle_dialog",
        "hover",
        "lighthouse_audit",
        "list_console_messages",
        "list_network_requests",
        "navigate_page",
        "performance_analyze_insight",
        "performance_start_trace",
        "performance_stop_trace",
        "press_key",
        "resize_page",
        "take_heapsnapshot",
        "take_screenshot",
        "take_snapshot",
        "type_text",
        "upload_file",
        "wait_for",
    ];
    let ghost names = page_scoped_tools();
    assert(forall|j: int| 0 <= j < 25 ==> tools@[j]@ == names[j]);
    let mut i: usize = 0;
    while i < 25
        invariant
            i <= 25,
            names == page_scoped_tools(),
            tools@.len() == 25,
            names.len() == 25,
            forall|j: int| 0 <= j < 25 ==> tools@[j]@ == names[j],
            forall|j: int| 0 <= j < i ==> #[trigger] names[j] != name@,
        decreases 25 - i,
    {
        if same(tools[i], name) {
            assert(names[i as int] == name@);
            return true;
        }
        i = i + 1;
    }
    false
}

/// The pages that a response lists.
pub open spec fn pages_in(v: JsonView) -> Option<Seq<JsonView>> {
    match json::field(v, "result"@) {
        Some(result) => match json::field(result, "structuredContent"@) {
            Some(structured) => json::items_field(structured, "pages"@),
            None => None,
        },
        None => None,
    }
}

/// The first page that is marked as selected.
pub open spec fn first_selected(items: Seq<JsonView>) -> Option<JsonView>
    decreases items.len(),
{
    if items.len() == 0 {
        None
    } else if json::bool_field(items[0], "selected"@) == Some(true) {
        Some(items[0])
    } else {
        first_selected(items.skip(1))
    }
}

/// The number of the page that a response marks as selected.
pub open spec fn selected_in(v: JsonView) -> Option<u64> {
    match pages_in(v) {
        Some(items) => match first_selected(items) {
            Some(page) => json::u64_field(page, "id"@),
            None => None,
        },
        None => None,
    }
}

/// The numbers of the pages in a list.
pub open spec fn numbers_of(items: Seq<JsonView>) -> Seq<u64> {
    items.filter_map(|page: JsonView| json::u64_field(page, "id"@))
}

/// A page of a response.
#[derive(Debug)]
pub struct PageEntry {
    pub id: u64,
    pub url: String,
}

/// A page of a response.
pub struct EntryView {
    pub id: u64,
    pub url: Seq<char>,
}

impl View for PageEntry {
    type V = EntryView;

    open spec fn view(&self) -> EntryView {
        EntryView { id: self.id, url: self.url@ }
    }
}

/// A page of a response, if it has a number.
pub open spec fn entry_of(page: JsonView) -> Option<EntryView> {
    match json::u64_field(page, "id"@) {
        Some(id) => Some(
            EntryView { id, url: crate::session::or_empty(json::text_field(page, "url"@)) },
        ),
        None => None,
    }
}

/// The pages in a list that have a number.
pub open spec fn entries_of(items: Seq<JsonView>) -> Seq<EntryView> {
    items.filter_map(|page: JsonView| entry_of(page))
}

/// A list of pages.
pub open spec fn entry_views(entries: Seq<PageEntry>) -> Seq<EntryView> {
    entries.map_values(|e: PageEntry| e@)
}

/// The numbers of the pages that a response lists.
pub open spec fn page_numbers(v: JsonView) -> Seq<u64> {
    match pages_in(v) {
        Some(items) => numbers_of(items),
        None => Seq::empty(),
    }
}

/// The pages that a response lists.
pub open spec fn page_entries(v: JsonView) -> Seq<EntryView> {
    match pages_in(v) {
        Some(items) => entries_of(items),
        None => Seq::empty(),
    }
}

/// The pages that a response lists.
fn response_pages(response: &Json) -> (r: Option<&Vec<Json>>)
    ensures
        match r {
            Some(items) => pages_in(response@) == Some(json::trees(items@)),
            None => pages_in(response@) is None,
        },
{
    match response.get("result") {
        Some(result) => match result.get("structuredContent") {
            Some(structured) => structured.get_array("pages"),
            None => None,
        },
        None => None,
    }
}

/// The number of the page that a response marks as selected.
pub fn selected_page_id(response: &Json) -> (r: Option<u64>)
    ensures
        r == selected_in(response@),
{
    match response_pages(response) {
        Some(items) => {
            let ghost all = json::trees(items@);
            proof {
                json::lemma_trees_index(items@);
                assert(all.skip(0) =~= all);
            }
            let mut i: usize = 0;
            while i < items.len()
                invariant
                    i <= items.len(),
                    all == json::trees(items@),
                    all.len() == items.len(),
                    forall|j: int|
                        0 <= j < all.len() ==> #[trigger] all[j] == json::tree(items@[j]),
                    first_selected(all) == first_selected(all.skip(i as int)),
                    pages_in(response@) == Some(all),
                decreases items.len() - i,
            {
                assert(all.skip(i as int)[0] == json::tree(items@[i as int]));
                assert(all.skip(i as int).skip(1) =~= all.skip(i + 1));
                if items[i].get_bool("selected") == Some(true) {
                    return items[i].get_u64("id");
                }
                i = i + 1;
            }
            assert(all.skip(i as int).len() == 0);
            None
        },
        None => None,
    }
}

/// The numbers of the pages that a response lists.
pub fn response_page_ids(response: &Json) -> (r: Vec<u64>)
    ensures
        r@ == page_numbers(response@),
{
    let mut out: Vec<u64> = Vec::new();
    match response_pages(response) {
        Some(items) => {
            let ghost all = json::trees(items@);
            proof {
                json::lemma_trees_index(items@);
                assert(all.take(0) =~= Seq::empty());
            }
            let mut i: usize = 0;
            while i < items.len()
                invariant
                    i <= items.len(),
                    all == json::trees(items@),
                    all.len() == items.len(),
                    forall|j: int|
                        0 <= j < all.len() ==> #[trigger] all[j] == json::tree(items@[j]),
                    out@ == numbers_of(all.take(i as int)),
                decreases items.len() - i,
            {
                assert(all.take(i + 1).drop_last() =~= all.take(i as int));
                assert(all.take(i + 1).last() == json::tree(items@[i as int]));
                match items[i].get_u64("id") {
                    Some(id) => out.push(id),
                    None => {},
                }
                assert(out@ =~= numbers_of(all.take(i + 1)));
                i = i + 1;
            }
            assert(all.take(i as int) =~= all);
        },
        None => {},
    }
    out
}

/// The pages that a response lists.
pub fn response_page_entries(response: &Json) -> (r: Vec<PageEntry>)
    ensures
        entry_views(r@) == page_entries(response@),
{
    let mut out: Vec<PageEntry> = Vec::new();
    assert(entry_views(out@) =~= Seq::empty());
    match response_pages(response) {
        Some(items) => {
            let ghost all = json::trees(items@);
            proof {
                json::lemma_trees_index(items@);
                assert(all.take(0) =~= Seq::empty());
            }
            let mut i: usize = 0;
            while i < items.len()
                invariant
                    i <= items.len(),
                    all == json::trees(items@),
                    all.len() == items.len(),
                    forall|j: int|
                        0 <= j < all.len() ==> #[trigger] all[j] == json::tree(items@[j]),
                    entry_views(out@) == entries_of(all.take(i as int)),
                decreases items.len() - i,
            {
                assert(all.take(i + 1).drop_last() =~= all.take(i as int));
                assert(all.take(i + 1).last() == json::tree(items@[i as int]));
                let ghost before = out@;
                match items[i].get_u64("id") {
                    Some(id) => {
                        let url = match items[i].get_str("url") {
                            Some(url) => url.to_string(),
                            None => "".to_string(),
                        };
                        let entry = PageEntry { id, url };
                        out.push(entry);
                        assert(entry_views(out@) =~= entry_views(before).push(entry@));
                    },
                    None => {},
                }
                assert(entry_views(out@) =~= entries_of(all.take(i + 1)));
                i = i + 1;
            }
            assert(all.take(i as int) =~= all);
        },
        None => {},
    }
    out
}

/// A request whose arguments name a page. One without object parameters, or whose
/// arguments are no object, stays as it is.
pub open spec fn on_page(v: JsonView, page: u64) -> JsonView {
    match json::field(v, "params"@) {
        Some(params) => if params is Object {
            let arguments = match json::field(params, "arguments"@) {
                Some(a) => a,
                None => json::empty_object(),
            };
            json::put(
                v,
                "params"@,
                json::put(
                    params,
                    "arguments"@,
                    json::put(arguments, "pageId"@, json::num(page)),
                ),
            )
        } else {
            v
        },
        None => v,
    }
}

/// Names a page in the arguments of a request.
pub fn inject_page_id(value: &mut Json, page_id: u64)
    ensures
        final(value)@ == on_page(old(value)@, page_id),
{
    let ghost before = value@;
    if let Some(params) = value.get_mut("params") {
        if params.is_object() {
            let missing = match params.get("arguments") {
                Some(_) => false,
                None => true,
            };
            if missing {
                params.set("arguments", Json::object());
            }
            let ghost filled = params@;
            if let Some(arguments) = params.get_mut("arguments") {
                arguments.set("pageId", Json::uint(page_id));
            }
            proof {
                if missing {
                    let m = json::field(before, "params"@)->0->Object_0;
                    assert(params@->Object_0 =~= m.insert(
                        "arguments"@,
                        json::put(json::empty_object(), "pageId"@, json::num(page_id)),
                    ));
                }
            }
        }
    }
    proof {
        match json::field(before, "params"@) {
            Some(params) => {
                if !(params is Object) {
                    assert(before->Object_0.insert("params"@, params) =~= before->Object_0);
                }
            },
            None => {},
        }
    }
}

/// The tools that a response lists.
pub open spec fn tools_in(v: JsonView) -> Option<Seq<JsonView>> {
    match json::field(v, "result"@) {
        Some(result) => json::items_field(result, "tools"@),
        None => None,
    }
}

/// A response with another list of tools.
pub open spec fn with_tools(v: JsonView, tools: Seq<JsonView>) -> JsonView {
    json::put(
        v,
        "result"@,
        json::put(json::field(v, "result"@)->0, "tools"@, JsonView::Array(tools)),
    )
}

/// The items of a list that are not a given text.
pub open spec fn without_text(items: Seq<JsonView>, s: Seq<char>) -> Seq<JsonView>
    decreases items.len(),
{
    if items.len() == 0 {
        Seq::empty()
    } else {
        let front = without_text(items.drop_last(), s);
        if items.last() == JsonView::Str(s) {
            front
        } else {
            front.push(items.last())
        }
    }
}

/// A schema without the property that names a page.
pub open spec fn pageless_properties(schema: JsonView) -> JsonView {
    match json::field(schema, "properties"@) {
        Some(properties) => json::put(
            schema,
            "properties"@,
            json::without(properties, "pageId"@),
        ),
        None => schema,
    }
}

/// A schema that does not require a page.
pub open spec fn pageless_required(schema: JsonView) -> JsonView {
    match json::items_field(schema, "required"@) {
        Some(items) => json::put(
            schema,
            "required"@,
            JsonView::Array(without_text(items, "pageId"@)),
        ),
        None => schema,
    }
}

/// A tool as clients see it: one that works on one page does not ask for it.
pub open spec fn pageless_tool(tool: JsonView) -> JsonView {
    if page_scoped(crate::session::or_empty(json::text_field(tool, "name"@))) {
        match json::field(tool, "inputSchema"@) {
            Some(schema) => json::put(
                tool,
                "inputSchema"@,
                pageless_required(pageless_properties(schema)),
            ),
            None => tool,
        }
    } else {
        tool
    }
}

/// Tools as clients see them.
pub open spec fn pageless_tools(tools: Seq<JsonView>) -> Seq<JsonView> {
    tools.map_values(|t: JsonView| pageless_tool(t))
}

/// A list of tools as clients see it.
pub open spec fn pageless_listing(v: JsonView) -> Option<JsonView> {
    match tools_in(v) {
        Some(tools) => Some(with_tools(v, pageless_tools(tools))),
        None => None,
    }
}

/// A line that lists tools, as clients see it.
pub open spec fn pageless_line(line: Seq<char>) -> Seq<char> {
    match json::json_parse(line) {
        Ok(v) => match pageless_listing(v) {
            Some(w) => json::json_text(w),
            None => line,
        },
        Err(_) => line,
    }
}

/// The items of a list that are not a given text.
fn drop_text(items: &Vec<Json>, s: &str) -> (r: Vec<Json>)
    ensures
        json::trees(r@) == without_text(json::trees(items@), s@),
{
    let ghost all = json::trees(items@);
    proof {
        json::lemma_trees_index(items@);
        assert(all.take(0) =~= Seq::empty());
    }
    let mut out: Vec<Json> = Vec::new();
    let mut i: usize = 0;
    while i < items.len()
        invariant
            i <= items.len(),
            all == json::trees(items@),
            all.len() == items.len(),
            forall|j: int| 0 <= j < all.len() ==> #[trigger] all[j] == json::tree(items@[j]),
            json::trees(out@) == without_text(all.take(i as int), s@),
        decreases items.len() - i,
    {
        assert(all.take(i + 1).drop_last() =~= all.take(i as int));
        assert(all.take(i + 1).last() == json::tree(items@[i as int]));
        let named = match items[i].as_str() {
            Some(text) => same(text, s),
            None => false,
        };
        if !named {
            let item = items[i].copy();
            proof {
                json::lemma_trees_push(out@, item);
            }
            out.push(item);
        }
        i = i + 1;
    }
    assert(all.take(i as int) =~= all);
    out
}

/// Setting a member to what it is changes nothing.
proof fn lemma_put_same(v: JsonView, key: Seq<char>)
    ensures
        json::field(v, key) matches Some(x) ==> json::put(v, key, x) == v,
{
    match v {
        JsonView::Object(m) => {
            if m.contains_key(key) {
                assert(m.insert(key, m[key]) =~= m);
            }
        },
        _ => {},
    }
}

/// Takes the page out of the schema of a tool that works on one page.
fn strip_tool(tool: &mut Json)
    ensures
        final(tool)@ == pageless_tool(old(tool)@),
{
    let scoped = match tool.get_str("name") {
        Some(name) => is_page_scoped_tool(name),
        None => is_page_scoped_tool(""),
    };
    if !scoped {
        return ;
    }
    if let Some(schema) = tool.get_mut("inputSchema") {
        if let Some(properties) = schema.get_mut("properties") {
            let _ = properties.remove("pageId");
        }
        let required = match schema.get_array("required") {
            Some(items) => Some(drop_text(items, "pageId")),
            None => None,
        };
        if let Some(required) = required {
            schema.set("required", Json::Array(required));
        }
    }
}

/// Takes the page out of the schemas of the tools that a response lists; tells whether it
/// lists any.
pub fn strip_page_id_value(value: &mut Json) -> (r: bool)
    ensures
        match pageless_listing(old(value)@) {
            Some(w) => r && final(value)@ == w,
            None => !r && final(value)@ == old(value)@,
        },
{
    let ghost before = value@;
    proof {
        lemma_put_same(before, "result"@);
        if json::field(before, "result"@) is Some {
            lemma_put_same(json::field(before, "result"@)->0, "tools"@);
        }
    }
    if let Some(result) = value.get_mut("result") {
        if let Some(tools) = result.get_mut("tools") {
            if let Json::Array(items) = tools {
                let ghost all = items@;
                let mut i: usize = 0;
                while i < items.len()
                    invariant
                        i <= items.len(),
                        items.len() == all.len(),
                        forall|j: int|
                            0 <= j < i ==> json::tree(#[trigger] items@[j]) == pageless_tool(
                                json::tree(all[j]),
                            ),
                        forall|j: int| i <= j < all.len() ==> #[trigger] items@[j] == all[j],
                    decreases all.len() - i,
                {
                    let tool = &mut items[i];
                    strip_tool(tool);
                    i = i + 1;
                }
                proof {
                    json::lemma_trees_index(all);
                    json::lemma_trees_index(items@);
                    assert(json::trees(items@) =~= pageless_tools(json::trees(all)));
                }
                return true;
            }
        }
    }
    false
}

/// A line that lists tools, as clients see it.
pub fn strip_page_id_schema(line: &str) -> (r: String)
    ensures
        r@ == pageless_line(line@),
{
    match Json::parse(line) {
        Ok(value) => {
            let mut value = value;
            if strip_page_id_value(&mut value) {
                value.text()
            } else {
                line.to_string()
            }
        },
        Err(_) => line.to_string(),
    }
}

/// A page, marked as selected if it is the given one.
pub open spec fn marked_page(page: JsonView, number: u64) -> JsonView {
    json::put(
        page,
        "selected"@,
        JsonView::Bool(json::u64_field(page, "id"@) == Some(number)),
    )
}

/// Pages, the given one marked as selected and no other.
pub open spec fn marked_pages(items: Seq<JsonView>, number: u64) -> Seq<JsonView> {
    items.map_values(|p: JsonView| marked_page(p, number))
}

/// A response whose pages show the given one as selected.
pub open spec fn marked(v: JsonView, number: u64) -> JsonView {
    match pages_in(v) {
        Some(items) => {
            let result = json::field(v, "result"@)->0;
            let structured = json::field(result, "structuredContent"@)->0;
            json::put(
                v,
                "result"@,
                json::put(
                    result,
                    "structuredContent"@,
                    json::put(
                        structured,
                        "pages"@,
                        JsonView::Array(marked_pages(items, number)),
                    ),
                ),
            )
        },
        None => v,
    }
}

/// A line whose pages show the given one as selected.
pub open spec fn marked_line(line: Seq<char>, number: u64) -> Seq<char> {
    match json::json_parse(line) {
        Ok(v) => json::json_text(marked(v, number)),
        Err(_) => line,
    }
}

/// Marks the given page, and no other, as selected.
pub fn mark_selected_page(value: &mut Json, page_id: u64)
    ensures
        final(value)@ == marked(old(value)@, page_id),
{
    let ghost before = value@;
    proof {
        lemma_put_same(before, "result"@);
        if json::field(before, "result"@) is Some {
            let result = json::field(before, "result"@)->0;
            lemma_put_same(result, "structuredContent"@);
            if json::field(result, "structuredContent"@) is Some {
                lemma_put_same(json::field(result, "structuredContent"@)->0, "pages"@);
            }
        }
    }
    if let Some(result) = value.get_mut("result") {
        if let Some(structured) = result.get_mut("structuredContent") {
            if let Some(pages) = structured.get_mut("pages") {
                if let Json::Array(items) = pages {
                    let ghost all = items@;
                    let mut i: usize = 0;
                    while i < items.len()
                        invariant
                            i <= items.len(),
                            items.len() == all.len(),
                            forall|j: int|
                                0 <= j < i ==> json::tree(#[trigger] items@[j]) == marked_page(
                                    json::tree(all[j]),
                                    page_id,
                                ),
                            forall|j: int| i <= j < all.len() ==> #[trigger] items@[j] == all[j],
                        decreases all.len() - i,
                    {
                        let page = &mut items[i];
                        let is_target = page.get_u64("id") == Some(page_id);
                        page.set("selected", Json::Bool(is_target));
                        i = i + 1;
                    }
                    proof {
                        json::lemma_trees_index(all);
                        json::lemma_trees_index(items@);
                        assert(json::trees(items@) =~= marked_pages(json::trees(all), page_id));
                    }
                }
            }
        }
    }
}

/// A line whose pages show the given one as selected.
pub fn rewrite_selected_page(line: &str, page_id: u64) -> (r: String)
    ensures
        r@ == marked_line(line@, page_id),
{
    match Json::parse(line) {
        Ok(value) => {
            let mut value = value;
            mark_selected_page(&mut value, page_id);
            value.text()
        },
        Err(_) => line.to_string(),
    }
}

/// Response lines, the last of which shows a session's page as selected.
pub open spec fn annotated(lines: Seq<Seq<char>>, page: Option<u64>) -> Seq<Seq<char>> {
    match page {
        Some(number) => if lines.len() > 0 {
            lines.drop_last().push(marked_line(lines.last(), number))
        } else {
            lines
        },
        None => lines,
    }
}

/// Lines with another last one.
pub fn set_last_line(lines: Vec<String>, line: String) -> (r: Vec<String>)
    requires
        lines.len() > 0,
    ensures
        text::texts(r@) == text::texts(lines@).drop_last().push(line@),
{
    let mut lines = lines;
    let ghost before = text::texts(lines@);
    let last: usize = lines.len() - 1;
    lines.set(last, line);
    assert(text::texts(lines@) =~= before.drop_last().push(line@));
    lines
}

/// Marks a session's page as selected in the last of some response lines.
pub fn annotate_session_page(lines: Vec<String>, page_id: Option<u64>) -> (r: Vec<String>)
    ensures
        text::texts(r@) == annotated(text::texts(lines@), page_id),
{
    match page_id {
        Some(page_id) => {
            if lines.len() > 0 {
                let last = rewrite_selected_page(lines[lines.len() - 1].as_str(), page_id);
                set_last_line(lines, last)
            } else {
                lines
            }
        },
        None => lines,
    }
}

/// Whether the response to `upload_file` says that the element takes no file in any of
/// the ways that the server knows.
pub open spec fn upload_refused(v: JsonView) -> bool {
    match json::field(v, "result"@) {
        Some(result) => {
            let said = match json::items_field(result, "content"@) {
                Some(items) => if items.len() > 0 {
                    crate::session::or_empty(json::text_field(items[0], "text"@))
                } else {
                    ""@
                },
                None => ""@,
            };
            &&& json::bool_field(result, "isError"@) == Some(true)
            &&& text::holds(said, "could not accept the file directly"@)
            &&& text::holds(said, "clicking it did not trigger a file chooser"@)
        },
        None => false,
    }
}

/// Whether a response to `upload_file` calls for the fallback.
pub fn upload_refusal(value: &Json) -> (r: bool)
    ensures
        r == upload_refused(value@),
{
    match value.get("result") {
        Some(result) => {
            let said = match result.get_array("content") {
                Some(items) => {
                    proof {
                        json::lemma_trees_index(items@);
                    }
                    if items.len() > 0 {
                        match items[0].get_str("text") {
                            Some(text) => text,
                            None => "",
                        }
                    } else {
                        ""
                    }
                },
                None => "",
            };
            result.get_bool("isError") == Some(true) && contains(
                said,
                "could not accept the file directly",
            ) && contains(said, "clicking it did not trigger a file chooser")
        },
        None => false,
    }
}

/// Whether a line calls for the fallback.
pub open spec fn line_upload_refused(line: Seq<char>) -> bool {
    json::json_parse(line) matches Ok(v) && upload_refused(v)
}

/// Whether the response line to `upload_file` calls for the fallback.
pub fn upload_file_needs_fallback(line: &str) -> (r: bool)
    ensures
        r == line_upload_refused(line@),
{
    match Json::parse(line) {
        Ok(value) => upload_refusal(&value),
        Err(_) => false,
    }
}

/// The text under a key, as a list of at most one.
pub open spec fn one_path(arguments: JsonView, key: Seq<char>) -> Seq<Seq<char>> {
    match json::text_field(arguments, key) {
        Some(path) => seq![path],
        None => Seq::empty(),
    }
}

/// The texts in the list under a key.
pub open spec fn path_list(arguments: JsonView, key: Seq<char>) -> Seq<Seq<char>> {
    match json::items_field(arguments, key) {
        Some(items) => texts_among(items),
        None => Seq::empty(),
    }
}

/// The texts among some values.
pub open spec fn texts_among(items: Seq<JsonView>) -> Seq<Seq<char>> {
    items.filter_map(|v: JsonView| json::text_of(v))
}

/// The files that a call of `upload_file` names.
pub open spec fn upload_paths(arguments: JsonView) -> Seq<Seq<char>> {
    one_path(arguments, "filePath"@) + one_path(arguments, "path"@) + path_list(
        arguments,
        "filePaths"@,
    ) + path_list(arguments, "files"@)
}

/// Adds the texts among some values to a list.
pub fn push_texts(out: &mut Vec<String>, items: &Vec<Json>)
    ensures
        text::texts(final(out)@) == text::texts(old(out)@) + texts_among(json::trees(items@)),
{
    let ghost before = text::texts(out@);
    let ghost all = json::trees(items@);
    proof {
        json::lemma_trees_index(items@);
        assert(all.take(0) =~= Seq::empty());
        assert(before + texts_among(all.take(0)) =~= before);
    }
    let mut i: usize = 0;
    while i < items.len()
        invariant
            i <= items.len(),
            before == text::texts(old(out)@),
            all == json::trees(items@),
            all.len() == items.len(),
            forall|j: int| 0 <= j < all.len() ==> #[trigger] all[j] == json::tree(items@[j]),
            text::texts(out@) == before + texts_among(all.take(i as int)),
        decreases items.len() - i,
    {
        assert(all.take(i + 1).drop_last() =~= all.take(i as int));
        assert(all.take(i + 1).last() == json::tree(items@[i as int]));
        if let Some(s) = items[i].as_str() {
            let owned = s.to_string();
            proof {
                text::lemma_texts_push(out@, owned);
            }
            out.push(owned);
        }
        assert(text::texts(out@) =~= before + texts_among(all.take(i + 1)));
        i = i + 1;
    }
    assert(all.take(i as int) =~= all);
}

fn push_path(out: &mut Vec<String>, arguments: &Json, key: &str)
    ensures
        text::texts(final(out)@) == text::texts(old(out)@) + one_path(arguments@, key@),
{
    let ghost before = text::texts(out@);
    if let Some(path) = arguments.get_str(key) {
        let owned = path.to_string();
        proof {
            text::lemma_texts_push(out@, owned);
        }
        out.push(owned);
    }
    assert(text::texts(out@) =~= before + one_path(arguments@, key@));
}

fn push_paths(out: &mut Vec<String>, arguments: &Json, key: &str)
    ensures
        text::texts(final(out)@) == text::texts(old(out)@) + path_list(arguments@, key@),
{
    let ghost before = text::texts(out@);
    if let Some(items) = arguments.get_array(key) {
        push_texts(out, items);
    }
    assert(text::texts(out@) =~= before + path_list(arguments@, key@));
}

/// The files that a call of `upload_file` names.
pub fn upload_file_paths(arguments: &Json) -> (r: Vec<String>)
    ensures
        text::texts(r@) == upload_paths(arguments@),
{
    let mut paths: Vec<String> = Vec::new();
    push_path(&mut paths, arguments, "filePath");
    push_path(&mut paths, arguments, "path");
    push_paths(&mut paths, arguments, "filePaths");
    push_paths(&mut paths, arguments, "files");
    assert(text::texts(paths@) =~= upload_paths(arguments@));
    paths
}

/// A text as the content of a result.
pub open spec fn text_content(s: Seq<char>) -> JsonView {
    JsonView::Array(
        seq![
            json::put(
                json::put(json::empty_object(), "type"@, json::jstr("text"@)),
                "text"@,
                json::jstr(s),
            ),
        ],
    )
}

/// A text as the content of a result.
pub fn content_of(s: &str) -> (r: Json)
    ensures
        r@ == text_content(s@),
{
    let item = Json::object().with("type", Json::str("text")).with("text", Json::str(s));
    let ghost one = seq![item@];
    let content = Json::array().and(item);
    assert(content@->Array_0 =~= one);
    content
}

/// The response that tells a client that its file was attached after all.
pub open spec fn fallback_reply(id: JsonView) -> JsonView {
    json::put(
        json::put(
            json::put(json::empty_object(), "jsonrpc"@, json::jstr("2.0"@)),
            "id"@,
            id,
        ),
        "result"@,
        json::put(
            json::put(
                json::empty_object(),
                "content"@,
                text_content("uploaded file via CDP fallback"@),
            ),
            "structuredContent"@,
            json::empty_object(),
        ),
    )
}

/// That response, as a value.
pub fn fallback_value(id: Json) -> (r: Json)
    ensures
        r@ == fallback_reply(id@),
{
    let result = Json::object().with("content", content_of("uploaded file via CDP fallback")).with(
        "structuredContent",
        Json::object(),
    );
    Json::object().with("jsonrpc", Json::str("2.0")).with("id", id).with("result", result)
}

/// The lines that take the place of a refused upload's response.
pub open spec fn fallback_lines(line: Seq<char>) -> Seq<Seq<char>> {
    match rpc::line_id_value(line) {
        Some(id) => seq![json::json_text(fallback_reply(id))],
        None => Seq::empty(),
    }
}

/// The lines that take the place of a refused upload's response.
pub fn upload_file_fallback_response(line: &str) -> (r: Vec<String>)
    ensures
        text::texts(r@) == fallback_lines(line@),
{
    match rpc::extract_jsonrpc_id_value(line) {
        Some(id) => rpc::one_line(fallback_value(id).text()),
        None => rpc::no_lines(),
    }
}

} // verus!
