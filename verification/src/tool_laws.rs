//! What holds of the tools that the daemon runs itself: what they are told to do, and what
//! they tell the browser.
use crate::input::KeyView;
use crate::json::{JsonView, NumberView};
use crate::native::{CallView, OutcomeView, PlanView};
use crate::session::SessionView;
use crate::{input, native, places, text};
use vstd::prelude::*;

verus! {

/// A text as a value.
pub open spec fn said(s: Seq<char>) -> Option<JsonView> {
    Some(JsonView::Str(s))
}

/// A whole number as a value.
pub open spec fn counted(n: u64) -> Option<JsonView> {
    Some(JsonView::Number(NumberView::PosInt(n)))
}

/// The parameters of a call of one method.
pub open spec fn params_for(call: JsonView, method: Seq<char>) -> JsonView {
    if places::member(call, "method"@) == said(method) && places::member(call, "params"@) is Some {
        places::member(call, "params"@)->0
    } else {
        JsonView::Null
    }
}

/// Whether a call reports an event of a key to the browser.
pub open spec fn reports_key(
    call: JsonView,
    kind: Seq<char>,
    key: Seq<char>,
    code: Seq<char>,
    number: u64,
    modifiers: Option<u64>,
    typed: Option<Seq<char>>,
) -> bool {
    let params = params_for(call, "Input.dispatchKeyEvent"@);
    &&& places::member(params, "type"@) == said(kind)
    &&& places::member(params, "key"@) == said(key)
    &&& places::member(params, "code"@) == said(code)
    &&& places::member(params, "windowsVirtualKeyCode"@) == counted(number)
    &&& places::member(params, "nativeVirtualKeyCode"@) == counted(number)
    &&& match modifiers {
        Some(n) => places::member(params, "modifiers"@) == counted(n),
        None => places::member(params, "modifiers"@) is None,
    }
    &&& match typed {
        Some(t) => places::member(params, "text"@) == said(t) && places::member(params, "unmodifiedText"@) == said(
            t,
        ),
        None => places::member(params, "text"@) is None && places::member(params, "unmodifiedText"@) is None,
    }
}

/// Whether a call inserts a text.
pub open spec fn inserts(call: JsonView, t: Seq<char>) -> bool {
    places::member(params_for(call, "Input.insertText"@), "text"@) == said(t)
}

proof fn lemma_call_words()
    ensures
        "method"@ != "params"@,
{
    reveal_strlit("method");
    reveal_strlit("params");
    assert("method"@[0] == 'm' && "params"@[0] == 'p');
}

proof fn lemma_key_words()
    ensures
        "method"@ != "params"@,
        "type"@ != "key"@,
        "type"@ != "code"@,
        "type"@ != "windowsVirtualKeyCode"@,
        "type"@ != "nativeVirtualKeyCode"@,
        "type"@ != "modifiers"@,
        "type"@ != "text"@,
        "type"@ != "unmodifiedText"@,
        "key"@ != "code"@,
        "key"@ != "windowsVirtualKeyCode"@,
        "key"@ != "nativeVirtualKeyCode"@,
        "key"@ != "modifiers"@,
        "key"@ != "text"@,
        "key"@ != "unmodifiedText"@,
        "code"@ != "windowsVirtualKeyCode"@,
        "code"@ != "nativeVirtualKeyCode"@,
        "code"@ != "modifiers"@,
        "code"@ != "text"@,
        "code"@ != "unmodifiedText"@,
        "windowsVirtualKeyCode"@ != "nativeVirtualKeyCode"@,
        "windowsVirtualKeyCode"@ != "modifiers"@,
        "windowsVirtualKeyCode"@ != "text"@,
        "windowsVirtualKeyCode"@ != "unmodifiedText"@,
        "nativeVirtualKeyCode"@ != "modifiers"@,
        "nativeVirtualKeyCode"@ != "text"@,
        "nativeVirtualKeyCode"@ != "unmodifiedText"@,
        "modifiers"@ != "text"@,
        "modifiers"@ != "unmodifiedText"@,
        "text"@ != "unmodifiedText"@,
{
    lemma_call_words();
    reveal_strlit("type");
    reveal_strlit("key");
    reveal_strlit("code");
    reveal_strlit("windowsVirtualKeyCode");
    reveal_strlit("nativeVirtualKeyCode");
    reveal_strlit("modifiers");
    reveal_strlit("text");
    reveal_strlit("unmodifiedText");
    assert("type"@.len() == 4 && "type"@[1] == 'y');
    assert("key"@.len() == 3);
    assert("code"@.len() == 4 && "code"@[0] == 'c' && "code"@[1] == 'o');
    assert("text"@.len() == 4 && "text"@[0] == 't' && "text"@[1] == 'e');
    assert("windowsVirtualKeyCode"@.len() == 21);
    assert("nativeVirtualKeyCode"@.len() == 20);
    assert("modifiers"@.len() == 9);
    assert("unmodifiedText"@.len() == 14);
}

proof fn lemma_key_params(kind: Seq<char>, key: Seq<char>, code: Seq<char>, number: i64, n: u64)
    requires
        number >= 0,
    ensures
        ({
            let plain = input::key_params(kind, key, code, number);
            let held = input::held_params(kind, key, code, number, n);
            &&& plain is Object && held is Object
            &&& forall|params: JsonView| #![trigger places::member(params, "type"@)]
                params == plain || params == held ==> {
                    &&& places::member(params, "type"@) == said(kind)
                    &&& places::member(params, "key"@) == said(key)
                    &&& places::member(params, "code"@) == said(code)
                    &&& places::member(params, "windowsVirtualKeyCode"@) == counted(number as u64)
                    &&& places::member(params, "nativeVirtualKeyCode"@) == counted(number as u64)
                    &&& places::member(params, "text"@) is None
                    &&& places::member(params, "unmodifiedText"@) is None
                }
            &&& places::member(plain, "modifiers"@) is None
            &&& places::member(held, "modifiers"@) == counted(n)
        }),
{
    lemma_key_words();
}

/// Typing over what is there holds Control for `a`, which selects all of it, then presses
/// Delete with nothing held, and inserts the text. Typing without that inserts it alone.
pub proof fn typing_selects_deletes_and_inserts(t: Seq<char>)
    ensures
        input::typing_calls(t, true).len() == 5,
        reports_key(
            input::typing_calls(t, true)[0],
            "keyDown"@,
            "a"@,
            "KeyA"@,
            65,
            Some(2),
            None,
        ),
        reports_key(input::typing_calls(t, true)[1], "keyUp"@, "a"@, "KeyA"@, 65, Some(2), None),
        reports_key(
            input::typing_calls(t, true)[2],
            "keyDown"@,
            "Delete"@,
            "Delete"@,
            46,
            None,
            None,
        ),
        reports_key(
            input::typing_calls(t, true)[3],
            "keyUp"@,
            "Delete"@,
            "Delete"@,
            46,
            None,
            None,
        ),
        inserts(input::typing_calls(t, true)[4], t),
        input::typing_calls(t, false) == seq![input::typing_calls(t, true)[4]],
{
    lemma_call_words();
    lemma_key_params("keyDown"@, "a"@, "KeyA"@, 65, 2);
    lemma_key_params("keyUp"@, "a"@, "KeyA"@, 65, 2);
    lemma_key_params("keyDown"@, "Delete"@, "Delete"@, 46, 2);
    lemma_key_params("keyUp"@, "Delete"@, "Delete"@, 46, 2);
    assert(input::typing_calls(t, false) =~= seq![input::typing_calls(t, true)[4]]);
}

/// A field of a page: what it holds, and whether all of it is selected.
pub struct FieldView {
    pub content: Seq<char>,
    pub selected: bool,
}

/// What a field does with a call, as a browser has it: Control and `a` select everything,
/// Delete takes what is selected away, and a text goes where the selection was, or else to
/// the end.
pub open spec fn felt_by(field: FieldView, call: JsonView) -> FieldView {
    let keys = params_for(call, "Input.dispatchKeyEvent"@);
    let texts = params_for(call, "Input.insertText"@);
    if places::member(keys, "type"@) == said("keyDown"@) && places::member(keys, "key"@) == said("a"@) && places::member(
        keys,
        "modifiers"@,
    ) == counted(2) {
        FieldView { selected: true, ..field }
    } else if places::member(keys, "type"@) == said("keyDown"@) && places::member(keys, "key"@) == said("Delete"@)
        && places::member(keys, "modifiers"@) is None {
        if field.selected {
            FieldView { content: Seq::empty(), selected: false }
        } else {
            field
        }
    } else {
        match places::member(texts, "text"@) {
            Some(JsonView::Str(t)) => FieldView {
                content: if field.selected {
                    t
                } else {
                    field.content + t
                },
                selected: false,
            },
            _ => field,
        }
    }
}

/// What a field does with several calls.
pub open spec fn felt_all(field: FieldView, calls: Seq<JsonView>) -> FieldView
    decreases calls.len(),
{
    if calls.len() == 0 {
        field
    } else {
        felt_by(felt_all(field, calls.drop_last()), calls.last())
    }
}

/// Whatever a field held, after typing over it it holds the text and nothing else; typing
/// without that keeps what it held.
pub proof fn typing_leaves_the_text(old_content: Seq<char>, t: Seq<char>)
    ensures
        felt_all(
            (FieldView { content: old_content, selected: false }),
            input::typing_calls(t, true),
        ).content == t,
        felt_all(
            (FieldView { content: old_content, selected: false }),
            input::typing_calls(t, false),
        ).content == old_content + t,
{
    typing_selects_deletes_and_inserts(t);
    let start = FieldView { content: old_content, selected: false };
    let calls = input::typing_calls(t, true);
    reveal_strlit("keyDown");
    reveal_strlit("keyUp");
    reveal_strlit("a");
    reveal_strlit("Delete");
    reveal_strlit("Input.dispatchKeyEvent");
    reveal_strlit("Input.insertText");
    assert("keyDown"@.len() == 7 && "keyUp"@.len() == 5);
    assert("a"@.len() == 1 && "Delete"@.len() == 6);
    assert("Input.dispatchKeyEvent"@.len() == 22 && "Input.insertText"@.len() == 16);
    lemma_key_words();
    assert(calls.take(5).drop_last() =~= calls.take(4));
    assert(calls.take(4).drop_last() =~= calls.take(3));
    assert(calls.take(3).drop_last() =~= calls.take(2));
    assert(calls.take(2).drop_last() =~= calls.take(1));
    assert(calls.take(1).drop_last() =~= Seq::empty());
    assert(calls.take(5) =~= calls);
    assert(felt_all(start, Seq::empty()) == start);
    assert(felt_all(start, calls.take(1)) == (FieldView { content: old_content, selected: true }));
    assert(felt_all(start, calls.take(2)) == (FieldView { content: old_content, selected: true }));
    assert(felt_all(start, calls.take(3)) == (FieldView {
        content: Seq::empty(),
        selected: false,
    }));
    assert(felt_all(start, calls.take(4)) == (FieldView {
        content: Seq::empty(),
        selected: false,
    }));
    assert(Seq::<char>::empty() + t =~= t);
    let one = input::typing_calls(t, false);
    assert(one.drop_last() =~= Seq::empty());
}

/// Nothing is typed unless the page says that the focus is on the element.
pub proof fn typing_needs_the_focus(
    focused: JsonView,
    selector: Seq<char>,
    t: Seq<char>,
    clear: bool,
)
    ensures
        input::typing(focused, selector, t, clear) is Ok <==> focused == JsonView::Bool(true),
        input::typing(focused, selector, t, clear) matches Ok(calls) ==> calls.len() == (if clear {
            5nat
        } else {
            1nat
        }) && inserts(calls.last(), t),
{
    typing_selects_deletes_and_inserts(t);
}

/// A key is let go as the one that was pressed: both events name the same key, code,
/// numbers and held keys. Pressing says what the key types, and letting go types nothing.
pub proof fn keys_are_pressed_and_let_go(key: Seq<char>, modifiers: u64)
    ensures
        ({
            let info = input::key_view(key);
            &&& 0 <= info.number <= 0x10ffff
            &&& reports_key(
                input::key_down(key, modifiers),
                if info.text is Some {
                    "keyDown"@
                } else {
                    "rawKeyDown"@
                },
                key,
                info.code,
                info.number as u64,
                Some(modifiers),
                info.text,
            )
            &&& reports_key(
                input::key_up(key, modifiers),
                "keyUp"@,
                key,
                info.code,
                info.number as u64,
                Some(modifiers),
                None,
            )
        }),
{
    lemma_key_words();
    lemma_key_numbers(key);
    let info = input::key_view(key);
    let number = info.number as i64;
    lemma_key_params("keyDown"@, key, info.code, number, modifiers);
    lemma_key_params("rawKeyDown"@, key, info.code, number, modifiers);
    lemma_key_params("keyUp"@, key, info.code, number, modifiers);
}

proof fn lemma_key_numbers(key: Seq<char>)
    ensures
        0 <= input::key_view(key).number <= 0x10ffff,
{
}

/// The small and the capital form of a letter are the same key, numbered by the capital;
/// letters and digits follow each other as their characters do; and every key of one
/// character types it.
pub proof fn character_keys_type_themselves(n: u32)
    requires
        n < 26,
    ensures
        ({
            let small = input::key_view(seq![(97 + n) as char]);
            let capital = input::key_view(seq![(65 + n) as char]);
            &&& small.code == capital.code && small.code == "Key"@.push((65 + n) as char)
            &&& small.number == 65 + n && capital.number == 65 + n
            &&& small.text == Some(seq![(97 + n) as char])
            &&& capital.text == Some(seq![(65 + n) as char])
        }),
        n < 10 ==> ({
            let digit = input::key_view(seq![(48 + n) as char]);
            &&& digit.code == "Digit"@.push((48 + n) as char)
            &&& digit.number == 48 + n
            &&& digit.text == Some(seq![(48 + n) as char])
        }),
{
    let small = (97 + n) as char;
    let capital = (65 + n) as char;
    let digit = (48 + n) as char;
    lemma_one_character(seq![small]);
    lemma_one_character(seq![capital]);
    assert(seq![small][0] == small && seq![capital][0] == capital);
    assert(input::upper(small) == capital);
    if n < 10 {
        lemma_one_character(seq![digit]);
        assert(seq![digit][0] == digit);
    }
}

proof fn lemma_one_character(key: Seq<char>)
    requires
        key.len() == 1,
    ensures
        key[0] != ' ' ==> input::key_view(key) == input::character_key(key[0]),
        key[0] == ' ' ==> input::key_view(key) == input::key_view("Space"@),
{
    lemma_named_keys();
    reveal_strlit(" ");
    assert(" "@.len() == 1 && " "@[0] == ' ');
    if key[0] == ' ' {
        assert(key =~= " "@);
    }
}

/// The names of keys, apart from each other by their lengths and letters.
proof fn lemma_named_keys()
    ensures
        "Enter"@.len() == 5 && "Enter"@[0] == 'E',
        "Escape"@.len() == 6 && "Escape"@[0] == 'E',
        "Tab"@.len() == 3 && "Tab"@[0] == 'T',
        "Backspace"@.len() == 9 && "Backspace"@[0] == 'B',
        "Delete"@.len() == 6 && "Delete"@[0] == 'D',
        "ArrowUp"@.len() == 7 && "ArrowUp"@[0] == 'A',
        "ArrowDown"@.len() == 9 && "ArrowDown"@[0] == 'A' && "ArrowDown"@[5] == 'D',
        "ArrowLeft"@.len() == 9 && "ArrowLeft"@[0] == 'A' && "ArrowLeft"@[5] == 'L',
        "ArrowRight"@.len() == 10 && "ArrowRight"@[0] == 'A',
        "Home"@.len() == 4 && "Home"@[0] == 'H',
        "End"@.len() == 3 && "End"@[0] == 'E',
        "PageUp"@.len() == 6 && "PageUp"@[0] == 'P',
        "PageDown"@.len() == 8 && "PageDown"@[0] == 'P',
        "Space"@.len() == 5 && "Space"@[0] == 'S',
        " "@.len() == 1,
{
    reveal_strlit("Enter");
    reveal_strlit("Escape");
    reveal_strlit("Tab");
    reveal_strlit("Backspace");
    reveal_strlit("Delete");
    reveal_strlit("ArrowUp");
    reveal_strlit("ArrowDown");
    reveal_strlit("ArrowLeft");
    reveal_strlit("ArrowRight");
    reveal_strlit("Home");
    reveal_strlit("End");
    reveal_strlit("PageUp");
    reveal_strlit("PageDown");
    reveal_strlit("Space");
    reveal_strlit(" ");
}

/// The keys that move about are numbered one after the other, as keyboards have it.
pub open spec fn moving_keys() -> Seq<Seq<char>> {
    seq![
        "PageUp"@,
        "PageDown"@,
        "End"@,
        "Home"@,
        "ArrowLeft"@,
        "ArrowUp"@,
        "ArrowRight"@,
        "ArrowDown"@,
    ]
}

/// A key with a name has the number that keyboards give it and is called by its name; only
/// Enter and the space bar type something. A name that is no key's has no number.
pub proof fn named_keys_have_their_numbers(i: int, name: Seq<char>)
    ensures
        0 <= i < 8 ==> input::key_view(moving_keys()[i]) == (KeyView {
            code: moving_keys()[i],
            number: 33 + i,
            text: None,
        }),
        input::key_view("Escape"@) == (KeyView { code: "Escape"@, number: 27, text: None }),
        input::key_view("Tab"@) == (KeyView { code: "Tab"@, number: 9, text: None }),
        input::key_view("Backspace"@) == (KeyView { code: "Backspace"@, number: 8, text: None }),
        input::key_view("Delete"@) == (KeyView { code: "Delete"@, number: 46, text: None }),
        input::key_view("Enter"@) == (KeyView {
            code: "Enter"@,
            number: 13,
            text: Some(seq!['\r']),
        }),
        input::key_view("Space"@) == (KeyView { code: "Space"@, number: 32, text: Some(seq![' ']) }),
        input::key_view(" "@) == input::key_view("Space"@),
        input::key_view(name).number == 0 ==> name.len() != 1 || name[0] == '\0',
        name.len() > 1 && input::key_view(name).text is Some ==> name == "Enter"@ || name
            == "Space"@,
        name.len() > 1 && input::key_view(name).number == 0 ==> input::key_view(name).code == name,
{
    lemma_named_keys();
    reveal_strlit("\r");
    assert("\r"@ =~= seq!['\r']);
    assert(" "@ =~= seq![' ']) by {
        reveal_strlit(" ");
    }
}

/// A click tells the browser the point, the left button and one click.
pub proof fn clicks_are_where_they_are_asked_for(kind: Seq<char>, x: JsonView, y: JsonView)
    ensures
        ({
            let params = params_for(input::mouse_call(kind, x, y), "Input.dispatchMouseEvent"@);
            &&& places::member(params, "type"@) == said(kind)
            &&& places::member(params, "x"@) == Some(x)
            &&& places::member(params, "y"@) == Some(y)
            &&& places::member(params, "button"@) == said("left"@)
            &&& places::member(params, "clickCount"@) == counted(1)
        }),
{
    lemma_call_words();
    reveal_strlit("type");
    reveal_strlit("x");
    reveal_strlit("y");
    reveal_strlit("button");
    reveal_strlit("clickCount");
    assert("type"@.len() == 4 && "button"@.len() == 6 && "clickCount"@.len() == 10);
    assert("x"@.len() == 1 && "x"@[0] == 'x' && "y"@.len() == 1 && "y"@[0] == 'y');
}

/// A screenshot is of the visible part, in the format that is asked for. It has a quality
/// only where one is asked for and the format can lose detail, and none above a hundred.
pub proof fn screenshots_are_what_is_asked_for(format: Seq<char>, quality: Option<u64>)
    ensures
        ({
            let params = params_for(
                input::screenshot_call(format, quality),
                "Page.captureScreenshot"@,
            );
            &&& places::member(params, "format"@) == said(format)
            &&& places::member(params, "fromSurface"@) == Some(JsonView::Bool(true))
            &&& places::member(params, "captureBeyondViewport"@) == Some(JsonView::Bool(false))
            &&& places::member(params, "quality"@) is Some <==> quality is Some && (format == "jpeg"@
                || format == "webp"@)
            &&& quality is Some && (format == "jpeg"@ || format == "webp"@) ==> places::member(
                params,
                "quality"@,
            ) == counted(
                if quality->0 > 100 {
                    100
                } else {
                    quality->0
                },
            )
        }),
{
    lemma_call_words();
    reveal_strlit("format");
    reveal_strlit("fromSurface");
    reveal_strlit("captureBeyondViewport");
    reveal_strlit("quality");
    assert("format"@.len() == 6 && "fromSurface"@.len() == 11);
    assert("captureBeyondViewport"@.len() == 21 && "quality"@.len() == 7);
}

/// Files are given to the node, all of them and in order.
pub proof fn files_are_given_to_the_node(node: i64, files: Seq<Seq<char>>)
    requires
        node >= 0,
    ensures
        ({
            let params = params_for(input::files_call(node, files), "DOM.setFileInputFiles"@);
            &&& places::member(params, "nodeId"@) == counted(node as u64)
            &&& places::member(params, "files"@) matches Some(JsonView::Array(list)) && list.len()
                == files.len() && forall|i: int|
                0 <= i < files.len() ==> #[trigger] list[i] == JsonView::Str(files[i])
        }),
        ({
            let params = params_for(input::query_call(node, files[0]), "DOM.querySelector"@);
            &&& places::member(params, "nodeId"@) == counted(node as u64)
            &&& places::member(params, "selector"@) == said(files[0])
        }),
{
    lemma_call_words();
    reveal_strlit("nodeId");
    reveal_strlit("files");
    reveal_strlit("selector");
    assert("nodeId"@.len() == 6 && "files"@.len() == 5 && "selector"@.len() == 8);
}

/// A path lies under a directory only if it is the directory or goes on behind a slash: a
/// directory of a longer name is another one.
pub proof fn neighbours_are_not_under(root: Seq<char>, rest: Seq<char>)
    requires
        root.len() > 0,
        root.last() != '/',
    ensures
        input::lies_under(root, root),
        input::lies_under(root + seq!['/'] + rest, root),
        rest.len() > 0 && rest[0] != '/' ==> !input::lies_under(root + rest, root),
        forall|path: Seq<char>| #[trigger]
            input::lies_under(path, root) ==> path.len() >= root.len() && path.take(
                root.len() as int,
            ) == root,
{
    reveal_strlit("/");
    assert("/"@ =~= seq!['/']);
    let below = root + seq!['/'] + rest;
    assert(below.subrange(0, (root.len() + 1) as int) =~= root + "/"@);
    if root == "/"@ {
        assert(root.last() == '/');
    }
    let other = root + rest;
    if rest.len() > 0 && rest[0] != '/' {
        assert(other.len() > root.len());
        if text::begins(other, root + "/"@) {
            assert(other.subrange(0, (root.len() + 1) as int)[root.len() as int] == '/');
        }
    }
    assert forall|path: Seq<char>| #[trigger] input::lies_under(path, root) implies path.len()
        >= root.len() && path.take(root.len() as int) == root by {
        if path == root {
            assert(path.take(root.len() as int) =~= root);
        } else {
            assert(path.take(root.len() as int) =~= path.subrange(0, (root.len() + 1) as int).take(
                root.len() as int,
            ));
            assert((root + "/"@).take(root.len() as int) =~= root);
        }
    }
}

/// A file may be given to a page only if it is a file under one of the roots.
pub proof fn only_allowed_files_are_given(path: Seq<char>, is_file: bool, roots: Seq<Seq<char>>)
    ensures
        input::input_allowed(path, is_file, roots) is Ok <==> is_file && exists|i: int|
            0 <= i < roots.len() && input::lies_under(path, #[trigger] roots[i]),
{
}

/// The search for an element that takes files ends with the first that is found, or after
/// three selectors; a node of number zero is none.
pub proof fn file_searches_end(tried: nat, answer: Option<JsonView>)
    ensures
        ({
            let found = match answer {
                Some(v) => input::found_node(v),
                None => None,
            };
            &&& found != Some(0i64)
            &&& found matches Some(n) ==> input::file_search(tried, answer)
                == input::FileSearchView::Found(n)
            &&& found is None ==> (input::file_search(tried, answer) is Try <==> tried < 3) && (
            input::file_search(tried, answer) is Failed <==> tried >= 3)
        }),
        input::file_search(tried, answer) matches input::FileSearchView::Try(s) ==> s
            == input::file_selectors()[tried as int],
        input::file_selectors().len() == 3,
{
}

/// A number of milliseconds is the one that is asked for, brought within its bounds; where
/// none is asked for, or no natural number, it is the default.
pub open spec fn within(
    given: Option<JsonView>,
    default: u64,
    low: u64,
    high: u64,
    got: u64,
) -> bool {
    match given {
        Some(JsonView::Number(NumberView::PosInt(n))) => {
            &&& low <= n <= high ==> got == n
            &&& n < low ==> got == low
            &&& n > high ==> got == high
        },
        _ => got == default,
    }
}

/// The text under a key, if there is one.
pub open spec fn words_at(v: JsonView, key: Seq<char>) -> Option<Seq<char>> {
    match places::member(v, key) {
        Some(JsonView::Str(s)) => Some(s),
        _ => None,
    }
}

pub proof fn lemma_tool_names()
    ensures
        "goto"@.len() == 4,
        "screenshot_quiet"@.len() == 16 && "screenshot_quiet"@[0] == 's',
        "wait_for_js"@.len() == 11,
        "click_at"@.len() == 8,
        "click_selector"@.len() == 14 && "click_selector"@[0] == 'c',
        "dispatch_key"@.len() == 12,
        "set_file_input"@.len() == 14 && "set_file_input"@[0] == 's',
        "close_page_quiet"@.len() == 16 && "close_page_quiet"@[0] == 'c',
        "type_into"@.len() == 9,
{
    reveal_strlit("goto");
    reveal_strlit("screenshot_quiet");
    reveal_strlit("wait_for_js");
    reveal_strlit("click_at");
    reveal_strlit("click_selector");
    reveal_strlit("dispatch_key");
    reveal_strlit("set_file_input");
    reveal_strlit("close_page_quiet");
    reveal_strlit("type_into");
}

/// `goto` needs a URL and at most one condition, and waits for what it is told, or else for
/// the page to be complete, as long as it is told within the bounds.
pub proof fn goto_does_what_it_is_told(
    port: u16,
    target: Option<Seq<char>>,
    arguments: JsonView,
)
    ensures
        ({
            let url = words_at(arguments, "url"@);
            let selector = words_at(arguments, "waitSelector"@);
            let expression = words_at(arguments, "waitExpression"@);
            let plan = native::planned(Some(port), target, "goto"@, arguments);
            &&& plan is Ok <==> url is Some && !(selector is Some && expression is Some)
            &&& plan is Ok ==> (plan->Ok_0 matches PlanView::Goto {
                url: u,
                wait,
                timeout,
                interval,
            } && url == Some(u) && within(
                places::member(arguments, "timeout"@),
                30000,
                100,
                120000,
                timeout,
            ) && within(places::member(arguments, "interval"@), 250, 50, 10000, interval) && (
            expression matches Some(e) ==> wait == e) && (selector matches Some(s) ==> wait
                == native::query_expression(s)) && (selector is None && expression is None ==> wait
                == "document.readyState === 'complete'"@))
        }),
{
    lemma_tool_names();
}

/// `wait_for_js` needs an expression or a selector, prefers the expression, and waits as
/// long as it is told within the bounds.
pub proof fn waiting_does_what_it_is_told(
    port: u16,
    target: Option<Seq<char>>,
    arguments: JsonView,
)
    ensures
        ({
            let selector = words_at(arguments, "selector"@);
            let expression = words_at(arguments, "expression"@);
            let plan = native::planned(Some(port), target, "wait_for_js"@, arguments);
            &&& plan is Ok <==> selector is Some || expression is Some
            &&& plan is Ok ==> (plan->Ok_0 matches PlanView::WaitForJs {
                expression: wait,
                timeout,
                interval,
            } && within(places::member(arguments, "timeout"@), 30000, 100, 120000, timeout) && within(
                places::member(arguments, "interval"@),
                500,
                50,
                10000,
                interval,
            ) && (expression matches Some(e) ==> wait == e) && (expression is None ==> wait
                == native::query_expression(selector->0)))
        }),
{
    lemma_tool_names();
}

/// The expression that looks for a selector holds the selector as it is written in JSON,
/// between what asks the page for it.
pub proof fn selectors_are_asked_for(selector: Seq<char>)
    ensures
        ({
            let written = crate::json::json_text(JsonView::Str(selector));
            &&& native::query_expression(selector) == "document.querySelector("@ + written + ")"@
            &&& text::begins(input::center_expression(selector), "(() => { const el = document.querySelector("@ + written)
            &&& text::begins(input::focus_expression(selector), "(() => { const el = document.querySelector("@ + written)
            &&& text::begins(input::kind_expression(selector), "(() => { const el = document.querySelector("@ + written)
        }),
{
    let written = crate::json::json_text(JsonView::Str(selector));
    let start = "(() => { const el = document.querySelector("@ + written;
    assert(input::center_expression(selector).subrange(0, start.len() as int) =~= start);
    assert(input::focus_expression(selector).subrange(0, start.len() as int) =~= start);
    assert(input::kind_expression(selector).subrange(0, start.len() as int) =~= start);
}

/// The other tools take what they need from the arguments of its name, and refuse to run
/// without it.
pub proof fn tools_do_what_they_are_told(
    port: u16,
    target: Option<Seq<char>>,
    arguments: JsonView,
)
    ensures
        ({
            let selector = words_at(arguments, "selector"@);
            let path = words_at(arguments, "filePath"@);
            let key = words_at(arguments, "key"@);
            let t = words_at(arguments, "text"@);
            let some = Some(port);
            let shot = native::planned(some, target, "screenshot_quiet"@, arguments);
            let format = match words_at(arguments, "format"@) {
                Some(f) => f,
                None => "png"@,
            };
            let good = format == "png"@ || format == "jpeg"@ || format == "webp"@;
            let click = native::planned(some, target, "click_selector"@, arguments);
            let press = native::planned(some, target, "dispatch_key"@, arguments);
            let close = native::planned(some, target, "close_page_quiet"@, arguments);
            let write = native::planned(some, target, "type_into"@, arguments);
            &&& shot is Ok <==> path is Some && good
            &&& shot is Ok ==> shot->Ok_0 == (PlanView::Screenshot {
                path: path->0,
                format,
                quality: match places::member(arguments, "quality"@) {
                    Some(JsonView::Number(NumberView::PosInt(q))) => Some(q),
                    _ => None,
                },
            })
            &&& click is Ok <==> selector is Some
            &&& click is Ok ==> click->Ok_0 == (PlanView::ClickSelector { selector: selector->0 })
            &&& press is Ok <==> key is Some
            &&& press is Ok ==> press->Ok_0 == (PlanView::DispatchKey {
                key: key->0,
                modifiers: match places::member(arguments, "modifiers"@) {
                    Some(JsonView::Number(NumberView::PosInt(n))) => n,
                    _ => 0,
                },
            })
            &&& close is Ok <==> target is Some
            &&& close is Ok ==> close->Ok_0 == (PlanView::ClosePage { target: target->0 })
            &&& write is Ok <==> selector is Some && t is Some
            &&& write is Ok ==> write->Ok_0 == (PlanView::TypeInto {
                selector: selector->0,
                text: t->0,
                clear: places::member(arguments, "clear"@) == Some(JsonView::Bool(true)),
            })
        }),
{
    lemma_tool_names();
}

/// No tool runs without a port, and a name that is no tool's is refused.
pub proof fn tools_need_a_port(
    port: Option<u16>,
    target: Option<Seq<char>>,
    name: Seq<char>,
    arguments: JsonView,
)
    ensures
        native::planned(port, target, name, arguments) is Ok ==> port is Some && native::native(
            name,
        ),
{
}

/// A click at a point needs both numbers; files need a selector and at least one path.
pub proof fn points_and_files_are_needed(
    port: u16,
    target: Option<Seq<char>>,
    arguments: JsonView,
)
    ensures
        ({
            let click = native::planned(Some(port), target, "click_at"@, arguments);
            let files = native::planned(Some(port), target, "set_file_input"@, arguments);
            &&& click is Ok <==> (places::member(arguments, "x"@) matches Some(JsonView::Number(_))) && (
            places::member(arguments, "y"@) matches Some(JsonView::Number(_)))
            &&& click is Ok ==> (click->Ok_0 matches PlanView::ClickAt { x, y } && x
                == JsonView::Number(crate::json::floated(places::member(arguments, "x"@)->0->Number_0))
                && y == JsonView::Number(
                crate::json::floated(places::member(arguments, "y"@)->0->Number_0),
            ))
            &&& files is Ok ==> (files->Ok_0 matches PlanView::SetFileInput {
                selector,
                files: list,
            } && words_at(arguments, "selector"@) == Some(selector) && list.len() > 0)
        }),
{
    lemma_tool_names();
}

/// A failed screenshot is tried again only while there is time, and only if the tab could not
/// be reached.
pub proof fn screenshots_are_tried_again(error: Seq<char>, early: bool)
    ensures
        input::retried(error, early) <==> early && (text::holds(error, "WebSocket"@) || text::holds(
            error,
            "DevTools HTTP"@,
        )),
{
}

/// The image of a screenshot is what the browser's data decode to; without data, or with
/// data that do not decode, there is none.
pub proof fn images_are_what_the_data_hold(
    answer: JsonView,
    decoded: Result<Seq<u8>, Seq<char>>,
)
    ensures
        ({
            let result = places::member(answer, "result"@);
            let data = if result is Some {
                words_at(result->0, "data"@)
            } else {
                None
            };
            &&& data matches Some(d) ==> input::screenshot_data(answer) == Ok::<_, Seq<char>>(d)
            &&& data is None ==> input::screenshot_data(answer) is Err
            &&& input::image(input::screenshot_data(answer), decoded) is Ok <==> data is Some
                && decoded is Ok
            &&& data is Some && decoded is Ok ==> input::image(
                input::screenshot_data(answer),
                decoded,
            ) == decoded
        }),
{
}

/// The center of an element is the point that the page tells; without an element, or without
/// both numbers, there is none.
pub proof fn centers_are_told_by_the_page(value: JsonView, selector: Seq<char>)
    ensures
        ({
            let x = places::member(value, "x"@);
            let y = places::member(value, "y"@);
            let whole = x is Some && x->0 is Number && y is Some && y->0 is Number;
            &&& input::center(value, selector) is Ok <==> whole
            &&& whole ==> input::center(value, selector) == Ok::<_, Seq<char>>(
                (
                    JsonView::Number(crate::json::floated(x->0->Number_0)),
                    JsonView::Number(crate::json::floated(y->0->Number_0)),
                ),
            )
        }),
{
}

/// A whole number under a key.
pub open spec fn whole_at(v: JsonView, key: Seq<char>) -> Option<int> {
    match places::member(v, key) {
        Some(JsonView::Number(NumberView::PosInt(n))) => if n <= i64::MAX {
            Some(n as int)
        } else {
            None
        },
        Some(JsonView::Number(NumberView::NegInt(n))) => Some(n as int),
        _ => None,
    }
}

/// The nodes of a document are those that the browser tells: the root under its result's
/// root, and an element under its result, where nought is none.
pub proof fn nodes_are_told_by_the_browser(answer: JsonView, selector: Seq<char>)
    ensures
        ({
            let result = places::member(answer, "result"@);
            let root = if result is Some {
                places::member(result->0, "root"@)
            } else {
                None
            };
            let node = if root is Some {
                whole_at(root->0, "nodeId"@)
            } else {
                None
            };
            let found = if result is Some {
                whole_at(result->0, "nodeId"@)
            } else {
                None
            };
            &&& input::root_node(answer) is Ok <==> node is Some
            &&& input::root_node(answer) matches Ok(n) ==> node == Some(n as int)
            &&& input::found_node(answer) is Some <==> found is Some && found != Some(0int)
            &&& input::found_node(answer) matches Some(n) ==> found == Some(n as int)
            &&& input::selected_node(answer, selector) is Ok <==> input::found_node(answer) is Some
            &&& input::selected_node(answer, selector) matches Ok(n) ==> input::found_node(answer)
                == Some(n)
        }),
{
}

/// Files are given to an element only if the page says that it takes them.
pub proof fn only_file_inputs_take_files(kind: JsonView, selector: Seq<char>)
    ensures
        input::takes_files(kind, selector) is Ok <==> kind == JsonView::Str("ok"@),
{
}

/// A path is absolute if it begins with a slash.
pub proof fn absolute_paths_begin_with_a_slash(path: Seq<char>)
    ensures
        input::is_absolute(path) <==> path.len() > 0 && path[0] == '/',
{
    reveal_strlit("/");
    if path.len() > 0 && path[0] == '/' {
        assert(path.subrange(0, 1) =~= "/"@);
    }
    if input::is_absolute(path) {
        assert(path.subrange(0, 1)[0] == '/');
    }
}

/// What a tool came to is felt by its own session only: a page that was gone to is remembered
/// with its address, a page that was closed is gone with its target and tokens, and nothing
/// else changes a session.
pub proof fn outcomes_are_felt_by_the_session(
    m: Map<Seq<char>, SessionView>,
    id: Seq<char>,
    outcome: OutcomeView,
    now: int,
    other: Seq<char>,
)
    requires
        m.contains_key(id),
    ensures
        ({
            let n = native::felt(m, id, outcome, now);
            &&& n.dom() == m.dom()
            &&& other != id && m.contains_key(other) ==> n[other] == m[other]
            &&& outcome matches OutcomeView::Navigated { url, millis } ==> (m[id].page is Some
                ==> n[id].url == Some(url) && n[id].page == m[id].page && n[id].by_daemon
                == m[id].by_daemon && n[id].target == m[id].target && n[id].bindings
                == m[id].bindings && n[id].last_used_at == now) && (m[id].page is None ==> n == m)
            &&& outcome is Closed ==> n[id].page is None && n[id].target is None && n[id].url is None
                && n[id].bindings == Map::<Seq<char>, crate::session::BindingView>::empty()
            &&& outcome !is Navigated && outcome !is Closed ==> n == m
        }),
{
    let n = native::felt(m, id, outcome, now);
    assert(n.dom() =~= m.dom());
}

/// A tool works on the session's target; where that is not known, on the only tab at the
/// session's address.
pub proof fn tools_work_on_the_sessions_tab(
    call: CallView,
    targets: Option<Seq<crate::cdp::TargetView>>,
)
    ensures
        call.target is Some ==> native::call_target(call, targets) == call.target,
        call.target is None && targets is Some && call.url is Some ==> native::call_target(
            call,
            targets,
        ) == crate::cdp::unique_target(targets->0, call.url->0),
        call.target is None && (targets is None || call.url is None) ==> native::call_target(
            call,
            targets,
        ) is None,
{
}

/// What a client is told of an outcome names what was done and to what.
pub proof fn outcomes_are_told(
    a: Seq<char>,
    b: Seq<char>,
    c: Seq<char>,
    n: nat,
)
    ensures
        native::told(OutcomeView::Navigated { url: a, millis: n }) == "navigated to "@ + a
            + "; condition became truthy after "@ + text::decimal(n) + "ms"@,
        native::told(OutcomeView::Saved { path: a }) == "saved screenshot to "@ + a,
        native::told(OutcomeView::Waited { millis: n }) == "condition became truthy after "@
            + text::decimal(n) + "ms"@,
        native::told(OutcomeView::ClickedAt { x: a, y: b }) == "clicked at ("@ + a + ", "@ + b
            + ")"@,
        native::told(OutcomeView::ClickedSelector { selector: c, x: a, y: b }) == "clicked "@ + c
            + " at ("@ + a + ", "@ + b + ")"@,
        native::told(OutcomeView::Dispatched { key: a }) == "dispatched key "@ + a,
        native::told(OutcomeView::Attached { count: n, selector: a }) == "attached "@
            + text::decimal(n) + " file(s) to "@ + a,
        native::told(OutcomeView::Closed { target: a }) == "closed page target "@ + a,
        native::told(OutcomeView::Typed { text: a, selector: b }) == "typed "@ + text::decimal(
            a.len(),
        ) + " char(s) into "@ + b,
{
}

/// What the page is asked about an element: for its center it is scrolled to; for typing it
/// gets the focus, and the page says whether it has it; for files the page says what it is.
pub proof fn pages_are_asked_about_elements(selector: Seq<char>)
    ensures
        ({
            let written = crate::json::json_text(JsonView::Str(selector));
            &&& input::center_expression(selector) == "(() => { const el = document.querySelector("@ + written
                + "); if (!el) return null; el.scrollIntoView({block: 'center', inline: 'center'}); const r = el.getBoundingClientRect(); return {x: r.x + r.width / 2, y: r.y + r.height / 2}; })()"@
            &&& input::focus_expression(selector) == "(() => { const el = document.querySelector("@ + written
                + "); if (!el) return false; el.scrollIntoView({block: 'center', inline: 'center'}); el.focus(); return document.activeElement === el; })()"@
            &&& input::kind_expression(selector) == "(() => { const el = document.querySelector("@ + written
                + "); if (!el) return 'missing'; if (el.tagName !== 'INPUT' || el.type !== 'file') return 'not-file'; return 'ok'; })()"@
        }),
{
}

/// Every absolute path lies under the root of the file system, and no other path does.
pub proof fn absolute_paths_lie_under_the_root(path: Seq<char>)
    ensures
        input::lies_under(path, seq!['/']) <==> path.len() > 0 && path[0] == '/',
{
    reveal_strlit("/");
    assert("/"@ =~= seq!['/']);
    if path.len() > 0 && path[0] == '/' {
        assert(path.subrange(0, 1) =~= "/"@);
    }
    if text::begins(path, "/"@) {
        assert(path.subrange(0, 1)[0] == '/');
    }
    if text::begins(path, seq!['/'] + "/"@) {
        assert(path.subrange(0, 2)[0] == '/');
    }
}

} // verus!
