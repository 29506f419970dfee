//! What holds of messages: those of clients, those of the server, and the daemon's own.
use crate::control::ClientStepView;
use crate::json::{JsonView, NumberView};
use crate::mcp::{
    CallStepView, ErrorView, EventView, ExchangeView, ForwardStartView, ForwardStepView,
    ReadStepView, ResponseStepView,
};
use crate::queue::{Stage, TurnActionView, TurnEventView};
use crate::{control, json, mcp, places, queue, rpc, text, text_laws};
use vstd::prelude::*;

verus! {

proof fn lemma_words()
    ensures
        "jsonrpc"@.len() == 7 && "jsonrpc"@[0] == 'j',
        "id"@.len() == 2,
        "result"@.len() == 6 && "result"@[0] == 'r',
        "error"@.len() == 5 && "error"@[0] == 'e',
        "code"@.len() == 4 && "code"@[0] == 'c',
        "message"@.len() == 7 && "message"@[0] == 'm',
        "method"@.len() == 6 && "method"@[0] == 'm',
        "params"@.len() == 6 && "params"@[0] == 'p',
        "name"@.len() == 4 && "name"@[0] == 'n',
        "arguments"@.len() == 9,
        "isolatedContext"@.len() == 15 && "isolatedContext"@[0] == 'i',
        "protocolVersion"@.len() == 15 && "protocolVersion"@[0] == 'p',
        "capabilities"@.len() == 12,
        "serverInfo"@.len() == 10 && "serverInfo"@[0] == 's',
        "version"@.len() == 7 && "version"@[0] == 'v',
        "uri"@.len() == 3,
        "roots"@.len() == 5 && "roots"@[0] == 'r',
        "new_page"@.len() == 8,
        "tools/call"@.len() == 10 && "tools/call"@[0] == 't',
{
    reveal_strlit("jsonrpc");
    reveal_strlit("id");
    reveal_strlit("result");
    reveal_strlit("error");
    reveal_strlit("code");
    reveal_strlit("message");
    reveal_strlit("method");
    reveal_strlit("params");
    reveal_strlit("name");
    reveal_strlit("arguments");
    reveal_strlit("isolatedContext");
    reveal_strlit("protocolVersion");
    reveal_strlit("capabilities");
    reveal_strlit("serverInfo");
    reveal_strlit("version");
    reveal_strlit("uri");
    reveal_strlit("roots");
    reveal_strlit("new_page");
    reveal_strlit("tools/call");
}


/// The id of a message, where it is a natural number.
pub open spec fn numbered(message: Result<JsonView, Seq<char>>) -> Option<u64> {
    match message {
        Ok(v) => match places::member(v, "id"@) {
            Some(JsonView::Number(NumberView::PosInt(n))) => Some(n),
            _ => None,
        },
        Err(_) => None,
    }
}

/// Whether a message has a method.
pub open spec fn calls(message: Result<JsonView, Seq<char>>, method: Seq<char>) -> bool {
    message matches Ok(v) && places::member(v, "method"@) == Some(JsonView::Str(method))
}

/// A message that gets another id is else the same; what is no object gets none.
pub proof fn only_the_id_is_rewritten(v: JsonView, id: JsonView, key: Seq<char>)
    ensures
        v is Object ==> (rpc::with_id(Ok(v), id) matches Ok(w) && places::member(w, "id"@) == Some(
            id,
        ) && (key != "id"@ ==> places::member(w, key) == places::member(v, key)) && rpc::rewritten(
            Ok(v),
            id,
        ) == Ok::<_, Seq<char>>(json::json_text(w))),
        v !is Object ==> rpc::with_id(Ok(v), id) is Err && rpc::rewritten(Ok(v), id) is Err,
        rpc::with_id(Err(key), id) is Err && rpc::rewritten(Err(key), id) is Err,
{
}

/// Whether an answer is to a request.
pub open spec fn answers(v: JsonView, id: JsonView) -> bool {
    places::member(v, "jsonrpc"@) == Some(JsonView::Str("2.0"@)) && places::member(v, "id"@)
        == Some(id)
}

/// An error is told under the id of its request, with its code and its message; a message
/// without an id is not answered.
pub proof fn errors_answer_their_request(request: JsonView, id: JsonView, code: i64, message: Seq<char>)
    ensures
        ({
            let reply = rpc::error_reply(id, code, message);
            let error = places::member(reply, "error"@)->0;
            &&& answers(reply, id)
            &&& places::member(reply, "error"@) is Some && places::member(reply, "result"@) is None
            &&& places::member(error, "message"@) == Some(JsonView::Str(message))
            &&& code < 0 ==> places::member(error, "code"@) == Some(
                JsonView::Number(NumberView::NegInt(code)),
            )
            &&& code >= 0 ==> places::member(error, "code"@) == Some(
                JsonView::Number(NumberView::PosInt(code as u64)),
            )
        }),
        places::member(request, "id"@) matches Some(asked) ==> rpc::error_lines(request, message)
            == seq![json::json_text(rpc::error_reply(asked, -32000i64, message))],
        places::member(request, "id"@) is None ==> rpc::error_lines(request, message) == Seq::<
            Seq<char>,
        >::empty(),
{
    lemma_words();
}

/// The daemon greets a client under the id of its request, and names itself.
pub proof fn clients_are_greeted(id: JsonView)
    ensures
        ({
            let reply = rpc::initialize_reply(id);
            let result = places::member(reply, "result"@)->0;
            let server = places::member(result, "serverInfo"@)->0;
            &&& answers(reply, id)
            &&& places::member(reply, "result"@) is Some && places::member(result, "serverInfo"@)
                is Some
            &&& places::member(result, "protocolVersion"@) == Some(JsonView::Str("2025-06-18"@))
            &&& places::member(result, "capabilities"@) == Some(JsonView::Object(Map::empty()))
            &&& places::member(server, "name"@) == Some(JsonView::Str("chrome-devtools-daemon"@))
        }),
{
    lemma_words();
}

/// The server is told of two roots: the home directory and the one for temporary files.
pub proof fn the_server_is_told_the_roots(id: JsonView, home: Seq<char>)
    ensures
        ({
            let reply = rpc::roots_reply(id, home);
            let result = places::member(reply, "result"@)->0;
            &&& answers(reply, id)
            &&& places::member(reply, "result"@) is Some
            &&& places::member(result, "roots"@) matches Some(JsonView::Array(roots)) && roots.len()
                == 2 && places::member(roots[0], "uri"@) == Some(
                JsonView::Str("file://"@ + home),
            ) && places::member(roots[0], "name"@) == Some(JsonView::Str("home"@))
                && places::member(roots[1], "uri"@) == Some(JsonView::Str("file:///tmp"@))
                && places::member(roots[1], "name"@) == Some(JsonView::Str("tmp"@))
        }),
{
    lemma_words();
}

/// Whether a message asks for a new page in a context of its own.
pub open spec fn asks_for_context(v: JsonView) -> bool {
    &&& v is Object
    &&& places::member(v, "method"@) == Some(JsonView::Str("tools/call"@))
    &&& places::member(v, "params"@) matches Some(params) && params is Object && places::member(
        params,
        "name"@,
    ) == Some(JsonView::Str("new_page"@)) && (places::member(params, "arguments"@) matches Some(
        arguments,
    ) && arguments is Object && places::member(arguments, "isolatedContext"@) is Some)
}

/// A new page never gets a context of its own: that is taken out of the call, and nothing
/// else; any other message is left as it is.
pub proof fn new_pages_share_the_context(v: JsonView, line: Seq<char>, key: Seq<char>)
    ensures
        !asks_for_context(v) ==> rpc::sanitized(v) is None && rpc::sanitized_text(line, Ok(v))
            == line,
        asks_for_context(v) ==> (rpc::sanitized(v) matches Some(w) && rpc::sanitized_text(
            line,
            Ok(v),
        ) == json::json_text(w) && !asks_for_context(w) && ({
            let params = places::member(v, "params"@)->0;
            let sent = places::member(w, "params"@)->0;
            let arguments = places::member(params, "arguments"@)->0;
            let left = places::member(sent, "arguments"@)->0;
            &&& key != "params"@ ==> places::member(w, key) == places::member(v, key)
            &&& key != "arguments"@ ==> places::member(sent, key) == places::member(params, key)
            &&& places::member(left, "isolatedContext"@) is None
            &&& key != "isolatedContext"@ ==> places::member(left, key) == places::member(
                arguments,
                key,
            )
        })),
        rpc::sanitized_text(line, Err(key)) == line,
{
    lemma_words();
}

/// A greeting is answered under its id and a client's readiness is passed over, whether or
/// not it has a session; nothing else opens a connection.
pub proof fn openings_are_answered(message: Result<JsonView, Seq<char>>)
    ensures
        ({
            let step = control::opening_step(message);
            &&& calls(message, "initialize"@) ==> (match places::member(message->Ok_0, "id"@) {
                Some(id) => step == Some(
                    ClientStepView::Reply { line: json::json_text(rpc::initialize_reply(id)) },
                ),
                None => step == Some(ClientStepView::Skip),
            })
            &&& calls(message, "notifications/initialized"@) ==> step == Some(ClientStepView::Skip)
            &&& !calls(message, "initialize"@) && !calls(message, "notifications/initialized"@)
                ==> step is None
        }),
{
    reveal_strlit("initialize");
    reveal_strlit("notifications/initialized");
    assert("initialize"@.len() == 10 && "notifications/initialized"@.len() == 25);
}

/// A client with a session has its requests served as they are. Without one it can list the
/// tools; any other request is answered with an error, and a notification is passed over.
pub proof fn requests_need_a_session(line: Seq<char>, message: Result<JsonView, Seq<char>>, bound: bool)
    ensures
        ({
            let step = control::serving_step(line, message, bound);
            let served = bound || calls(message, "tools/list"@);
            &&& served <==> step is Serve
            &&& served ==> step == (ClientStepView::Serve { line })
            &&& !served ==> (if message is Ok && places::member(message->Ok_0, "id"@) is Some {
                step == (ClientStepView::Reply {
                    line: json::json_text(
                        rpc::error_reply(
                            places::member(message->Ok_0, "id"@)->0,
                            -32000i64,
                            "session bind required for MCP forwarding"@,
                        ),
                    ),
                })
            } else {
                step is Skip
            })
        }),
{
}

/// Lines without text are passed over, a control command is told by its prefix, and every
/// other line is a request, served without a context of its own.
pub proof fn lines_are_told_apart(raw: Seq<char>, command: Seq<char>, pad: Seq<char>, bound: bool)
    requires
        text_laws::blank(pad),
        command.len() > 0,
        !text::whitespace(command.last()),
    ensures
        control::client_step(pad, bound) is Skip,
        control::client_step(control::CONTROL_PREFIX@ + command + pad, bound) is Control,
        control::client_step(raw, bound) is Serve ==> ({
            let line = text::trimmed_end(raw);
            control::client_step(raw, bound) == (ClientStepView::Serve {
                line: rpc::sanitized_text(line, json::json_parse(line)),
            })
        }),
{
    text_laws::ends_are_trimmed(Seq::empty(), pad);
    assert(Seq::<char>::empty() + pad =~= pad);
    let whole = control::CONTROL_PREFIX@ + command;
    assert(whole.last() == command.last());
    text_laws::ends_are_trimmed(whole, pad);
    assert(whole + pad =~= control::CONTROL_PREFIX@ + command + pad);
    assert(whole.subrange(0, control::CONTROL_PREFIX@.len() as int) =~= control::CONTROL_PREFIX@);
}

/// What the server writes is read line by line, in however many pieces it comes; a line
/// is read without the white space at its end.
pub proof fn lines_are_read_whole(
    partial: Seq<char>,
    piece: Seq<char>,
    rest: Seq<char>,
    line: Seq<char>,
    home: Seq<char>,
)
    requires
        piece.len() > 0,
        !mcp::ends_line(partial + piece),
        rest.len() > 0,
        partial + piece + rest == line + "\n"@,
        line.len() > 0,
        !text::whitespace(line.last()),
    ensures
        mcp::reading(partial, EventView::Appended(piece), home) == (
            partial + piece,
            ReadStepView::More,
        ),
        mcp::reading(partial + piece, EventView::Appended(rest), home) == (
            Seq::<char>::empty(),
            mcp::message_step(line, json::json_parse(line), home),
        ),
{
    reveal_strlit("\n");
    let all = partial + piece + rest;
    assert((line + "\n"@).last() == '\n');
    assert(all.last() == '\n');
    assert(text_laws::blank("\n"@));
    text_laws::ends_are_trimmed(line, "\n"@);
}

/// The end of what the server writes, a failed read and a wait that has been too long are
/// failures; a wait that has not keeps what came.
pub proof fn reading_fails_for_a_reason(
    partial: Seq<char>,
    piece: Seq<char>,
    late: bool,
    message: Seq<char>,
    home: Seq<char>,
)
    ensures
        mcp::reading(partial, EventView::Appended(Seq::empty()), home).1 is Failed,
        mcp::reading(partial, EventView::Failed(message), home).1 is Failed,
        mcp::reading(partial, EventView::Blocked { appended: piece, late }, home).0 == partial
            + piece,
        late ==> mcp::reading(partial, EventView::Blocked { appended: piece, late }, home).1
            == ReadStepView::Failed(ErrorView::Fatal("MCP request timed out"@)),
        !late ==> mcp::reading(partial, EventView::Blocked { appended: piece, late }, home).1
            is More,
{
}

/// The server's question for the roots is answered under its id, and never reaches a client;
/// every other line is handed on.
pub proof fn roots_are_answered(
    line: Seq<char>,
    message: Result<JsonView, Seq<char>>,
    home: Seq<char>,
)
    ensures
        ({
            let step = mcp::message_step(line, message, home);
            let asked = calls(message, "roots/list"@);
            &&& asked && numbered(message) is Some ==> step == ReadStepView::Reply(
                json::json_text(
                    rpc::roots_reply(
                        JsonView::Number(NumberView::PosInt(numbered(message)->0)),
                        home,
                    ),
                ),
            )
            &&& asked && numbered(message) is None ==> step is More
            &&& !asked ==> step == ReadStepView::Line(line)
        }),
{
}

/// Whether a message is a notification.
pub open spec fn notifies(message: Result<JsonView, Seq<char>>) -> bool {
    message matches Ok(v) && (places::member(v, "method"@) matches Some(JsonView::Str(method))
        && text::begins(method, "notifications/"@))
}

/// A request goes to the server under an id of the daemon, and its own id is kept for the
/// answer; a message without an id is not waited for.
pub proof fn requests_are_renumbered(message: Result<JsonView, Seq<char>>, id: u64)
    ensures
        ({
            let start = mcp::message_start(message, id);
            let asked = message is Ok && places::member(message->Ok_0, "id"@) is Some;
            &&& !asked ==> start == Ok::<_, Seq<char>>(ForwardStartView::Notify)
            &&& asked ==> message->Ok_0 is Object && start == Ok::<_, Seq<char>>(
                ForwardStartView::Sent {
                    forwarded: json::json_text(
                        JsonView::Object(
                            message->Ok_0->Object_0.insert(
                                "id"@,
                                JsonView::Number(NumberView::PosInt(id)),
                            ),
                        ),
                    ),
                    exchange: ExchangeView {
                        original: places::member(message->Ok_0, "id"@)->0,
                        internal: id,
                        lines: Seq::empty(),
                    },
                },
            )
        }),
{
}

/// The answer with the daemon's id ends a request, under the client's id and behind all that
/// came before it; notifications are dropped, and every other message is kept in order.
pub proof fn answers_are_given_back(
    x: ExchangeView,
    line: Seq<char>,
    message: Result<JsonView, Seq<char>>,
)
    ensures
        ({
            let (y, step) = mcp::forward_message_step(x, line, message);
            let own = numbered(message) == Some(x.internal);
            &&& own ==> message->Ok_0 is Object && step == ForwardStepView::Done(
                x.lines.push(
                    json::json_text(
                        JsonView::Object(message->Ok_0->Object_0.insert("id"@, x.original)),
                    ),
                ),
            )
            &&& !own && notifies(message) ==> step is Note && y == x
            &&& !own && !notifies(message) ==> step is More && y == (ExchangeView {
                lines: x.lines.push(line),
                ..x
            })
        }),
{
}

/// An answer to a request that was given up on is noted and dropped, once; it neither ends
/// nor adds to the request at hand.
pub proof fn late_answers_are_noted(
    x: ExchangeView,
    abandoned: Map<u64, i128>,
    line: Seq<char>,
    message: Result<JsonView, Seq<char>>,
    now: i128,
    id: u64,
)
    ensures
        ({
            let late = numbered(message) is Some && abandoned.contains_key(numbered(message)->0);
            let forward = mcp::forward_message(x, abandoned, line, message, now);
            let call = mcp::call_message_step(id, abandoned, line, message, now);
            &&& late ==> forward.0 == x && forward.1 == abandoned.remove(numbered(message)->0)
                && forward.2 is Note && call.0 == abandoned.remove(numbered(message)->0)
                && call.1 is Note
            &&& !late ==> forward.1 == abandoned && call.0 == abandoned && (forward.0, forward.2)
                == mcp::forward_message_step(x, line, message)
            &&& !late && numbered(message) == Some(id) ==> call.1 == CallStepView::Done(
                message->Ok_0,
            )
            &&& !late && numbered(message) != Some(id) ==> call.1 is More
        }),
{
}

/// Only a request whose time is up is given up on.
pub proof fn only_timeouts_are_given_up_on(
    abandoned: Map<u64, i128>,
    id: u64,
    e: ErrorView,
    now: i128,
)
    ensures
        e == ErrorView::Fatal("MCP request timed out"@) ==> mcp::given_up(abandoned, id, e, now)
            == abandoned.insert(id, now),
        e != ErrorView::Fatal("MCP request timed out"@) ==> mcp::given_up(abandoned, id, e, now)
            == abandoned,
{
}

/// What the daemon asks the server itself has an id of its own and is else what it is; ids
/// count up.
pub proof fn own_requests_are_numbered(request: JsonView, id: u64, key: Seq<char>)
    requires
        request is Object,
    ensures
        ({
            let sent = mcp::numbered(request, id);
            &&& answers(sent, JsonView::Number(NumberView::PosInt(id)))
            &&& key != "id"@ && key != "jsonrpc"@ ==> places::member(sent, key) == places::member(
                request,
                key,
            )
        }),
        id < u64::MAX ==> mcp::next_id_after(id) == id + 1,
{
    lemma_words();
}

/// An answer that is waited for is the line with its id; the server's question for the roots
/// is answered meanwhile, and other lines are passed over. The end of the output is a
/// failure.
pub proof fn awaited_answers_have_their_id(
    line: Seq<char>,
    message: Result<JsonView, Seq<char>>,
    target: u64,
    home: Seq<char>,
)
    ensures
        ({
            let step = mcp::awaited_step(line, message, target, home);
            let asked = calls(message, "roots/list"@);
            &&& step is Done <==> !asked && numbered(message) == Some(target)
            &&& step is Done ==> step == ResponseStepView::Done(line)
            &&& step is Reply <==> asked && numbered(message) is Some
            &&& step !is Failed
        }),
        mcp::awaiting(Seq::empty(), target, home) is Failed,
{
}

/// A line that the server writes and that neither asks for the roots nor answers a request
/// that was given up on.
pub open spec fn ordinary(line: Seq<char>, abandoned: Map<u64, i128>) -> bool {
    &&& line.len() > 0 && !text::whitespace(line.last())
    &&& !calls(json::json_parse(line), "roots/list"@)
    &&& numbered(json::json_parse(line)) matches Some(n) ==> !abandoned.contains_key(n)
}

/// The lines as the server writes them.
pub open spec fn written_lines(lines: Seq<Seq<char>>) -> Seq<EventView> {
    Seq::new(lines.len(), |i: int| EventView::Appended(lines[i].push('\n')))
}

proof fn lemma_ordinary_line(line: Seq<char>, home: Seq<char>)
    requires
        line.len() > 0,
        !text::whitespace(line.last()),
        !calls(json::json_parse(line), "roots/list"@),
    ensures
        mcp::reading(Seq::empty(), EventView::Appended(line.push('\n')), home) == (
            Seq::<char>::empty(),
            ReadStepView::Line(line),
        ),
{
    let raw = line.push('\n');
    assert(Seq::<char>::empty() + raw =~= raw);
    assert(raw =~= line + seq!['\n']);
    text_laws::ends_are_trimmed(line, seq!['\n']);
}

/// A request gets every line that the server writes up to its answer, in order and without
/// the notifications, and last the answer under its own id; nothing behind the answer is
/// read.
pub proof fn answers_come_with_what_was_before(
    x: ExchangeView,
    abandoned: Map<u64, i128>,
    lines: Seq<Seq<char>>,
    k: int,
    i: int,
    written: Seq<Seq<char>>,
    home: Seq<char>,
    now: i128,
)
    requires
        0 <= i <= k < lines.len(),
        forall|j: int| i <= j <= k ==> ordinary(#[trigger] lines[j], abandoned),
        forall|j: int|
            i <= j < k ==> numbered(json::json_parse(#[trigger] lines[j])) != Some(x.internal),
        numbered(json::json_parse(lines[k])) == Some(x.internal),
    ensures
        ({
            let run = mcp::forward_run(
                x,
                Seq::empty(),
                abandoned,
                written_lines(lines),
                i,
                written,
                home,
                now,
            );
            let answer = json::json_text(
                JsonView::Object(
                    json::json_parse(lines[k])->Ok_0->Object_0.insert("id"@, x.original),
                ),
            );
            &&& run.outcome == Some(
                Ok::<_, Seq<char>>(x.lines + quiet(lines.subrange(i, k)) + seq![answer]),
            )
            &&& run.used == k + 1
            &&& run.written == written
            &&& run.abandoned == abandoned
            &&& run.partial == Seq::<char>::empty()
        }),
    decreases k - i,
{
    let events = written_lines(lines);
    let line = lines[i];
    let message = json::json_parse(line);
    assert(ordinary(line, abandoned));
    lemma_ordinary_line(line, home);
    assert(events[i] == EventView::Appended(line.push('\n')));
    answers_are_given_back(x, line, message);
    let step = mcp::forwarding(x, Seq::empty(), abandoned, events[i], home, now);
    if i == k {
        assert(lines.subrange(i, k) =~= Seq::empty());
        assert(quiet(Seq::empty()) =~= Seq::empty());
        assert(step.3 is Done);
        let answer = json::json_text(
            JsonView::Object(message->Ok_0->Object_0.insert("id"@, x.original)),
        );
        assert(x.lines.push(answer) =~= x.lines + Seq::<Seq<char>>::empty() + seq![answer]);
    } else {
        let y = step.0;
        answers_come_with_what_was_before(
            y,
            abandoned,
            lines,
            k,
            i + 1,
            written,
            home,
            now,
        );
        let part = lines.subrange(i, k);
        let rest = lines.subrange(i + 1, k);
        assert(part[0] == line);
        assert(part.skip(1) =~= rest);
        let answer = json::json_text(
            JsonView::Object(json::json_parse(lines[k])->Ok_0->Object_0.insert("id"@, x.original)),
        );
        if notifies(message) {
            assert(y == x);
            assert(quiet(part) =~= quiet(rest));
        } else {
            assert(y.lines == x.lines.push(line));
            assert(quiet(part) =~= seq![line] + quiet(rest));
            assert(x.lines.push(line) + quiet(rest) + seq![answer] =~= x.lines + quiet(part)
                + seq![answer]);
        }
    }
}

/// Lines without the notifications among them.
pub open spec fn quiet(lines: Seq<Seq<char>>) -> Seq<Seq<char>>
    decreases lines.len(),
{
    if lines.len() == 0 {
        Seq::empty()
    } else if notifies(json::json_parse(lines[0])) {
        quiet(lines.skip(1))
    } else {
        seq![lines[0]] + quiet(lines.skip(1))
    }
}

/// Waiting for the answer to an earlier request reads up to it and no further, whatever else
/// the server writes before.
pub proof fn earlier_answers_are_waited_for(
    lines: Seq<Seq<char>>,
    k: int,
    i: int,
    written: Seq<Seq<char>>,
    pending: u64,
    home: Seq<char>,
)
    requires
        0 <= i <= k < lines.len(),
        forall|j: int|
            i <= j <= k ==> (#[trigger] lines[j]).len() > 0 && !text::whitespace(lines[j].last())
                && !calls(json::json_parse(lines[j]), "roots/list"@),
        forall|j: int|
            i <= j < k ==> numbered(json::json_parse(#[trigger] lines[j])) != Some(pending),
        numbered(json::json_parse(lines[k])) == Some(pending),
    ensures
        ({
            let run = mcp::drained(
                Seq::empty(),
                written_lines(lines),
                i,
                written,
                pending,
                home,
            );
            &&& run.outcome == Some(Ok::<(), ErrorView>(()))
            &&& run.used == k + 1
            &&& run.written == written
            &&& run.partial == Seq::<char>::empty()
        }),
    decreases k - i,
{
    let events = written_lines(lines);
    let line = lines[i];
    assert(line.len() > 0 && !text::whitespace(line.last()));
    lemma_ordinary_line(line, home);
    assert(events[i] == EventView::Appended(line.push('\n')));
    let receipt = mcp::received(Seq::empty(), events, i, written, home);
    assert(receipt.outcome == Some(Ok::<_, ErrorView>(line)));
    if i < k {
        earlier_answers_are_waited_for(lines, k, i + 1, written, pending, home);
    }
}

/// The tools that take long.
pub proof fn heavy_tools_are_known(tool: Seq<char>)
    ensures
        rpc::heavy(tool) <==> tool == "take_snapshot"@ || tool == "take_screenshot"@ || tool
            == "performance_start_trace"@ || tool == "performance_stop_trace"@ || tool
            == "performance_analyze_insight"@,
{
}

/// A request to a server that is well is routed, answered with what came of it, and recorded.
/// One to a server that has ended or lost its browser is routed after the server was started
/// anew, without forgetting its sessions.
pub proof fn requests_run_their_course(
    line: Seq<char>,
    exited: bool,
    reachable: bool,
    lines: Seq<Seq<char>>,
    delivered: bool,
)
    ensures
        ({
            let checked = queue::turned(
                line,
                Stage::Taken,
                TurnEventView::Checked { exited, reachable },
            );
            let well = !exited && reachable;
            &&& well ==> checked == (Stage::Routing, TurnActionView::Route)
            &&& !well ==> checked.0 is Healing && (checked.1 matches TurnActionView::Restart {
                reason,
                forget,
            } && !forget && (exited ==> reason == "mcp exited"@) && (!exited ==> reason
                == "devtools unreachable"@))
        }),
        queue::turned(line, Stage::Healing, TurnEventView::Restarted) == (
            Stage::Routing,
            TurnActionView::Route,
        ),
        queue::turned(line, Stage::Routing, TurnEventView::Routed(Ok(lines))) == (
            Stage::Replying { late: false },
            TurnActionView::Reply { lines },
        ),
        queue::turned(
            line,
            Stage::Replying { late: false },
            TurnEventView::Replied { delivered },
        ) == (Stage::Over, TurnActionView::Record),
        queue::turned(
            line,
            Stage::Replying { late: true },
            TurnEventView::Replied { delivered: false },
        ) == (Stage::Over, TurnActionView::Record),
        queue::turned(line, Stage::Probing, TurnEventView::Probed { failed: false }) == (
            Stage::Over,
            TurnActionView::Record,
        ),
        queue::turned(line, Stage::Probing, TurnEventView::Probed { failed: true }).1 matches
            TurnActionView::Restart { reason, forget } && forget,
        queue::turned(line, Stage::Renewing, TurnEventView::Restarted) == (
            Stage::Over,
            TurnActionView::Record,
        ),
{
}

/// A request that failed is answered with the failure under its id; if its time was up, the
/// client is told that it may still have been done.
pub proof fn failures_are_answered(line: Seq<char>, message: Seq<char>, id: JsonView)
    requires
        json::json_parse(line) matches Ok(v) && places::member(v, "id"@) == Some(id),
    ensures
        ({
            let late = text::holds(message, "MCP request timed out"@);
            let (lines, slow) = queue::answer_to(line, Err(message));
            &&& slow == late
            &&& !late ==> lines == seq![json::json_text(rpc::error_reply(id, -32000i64, message))]
            &&& late ==> exists|said: Seq<char>|
                lines == seq![json::json_text(#[trigger] rpc::error_reply(id, -32000i64, said))]
                    && text::begins(said, message) && said.len() > message.len()
        }),
{
    let late = text::holds(message, "MCP request timed out"@);
    if late {
        let said = crate::router::timeout_notice(message);
        assert(said.subrange(0, message.len() as int) =~= message);
        let extra = "; the tool may still have completed in the background (e.g. screenshot files may still be written) — its late result is discarded"@;
        reveal_strlit("; the tool may still have completed in the background (e.g. screenshot files may still be written) — its late result is discarded");
        assert(extra.len() > 0);
        let (lines, slow) = queue::answer_to(line, Err(message));
        assert(lines == seq![json::json_text(rpc::error_reply(id, -32000i64, said))]);
    }
}

/// While a request waits for its answer, the server's questions for the roots are answered,
/// each under its id, and nothing else of the waiting changes.
pub proof fn roots_are_answered_meanwhile(
    x: ExchangeView,
    abandoned: Map<u64, i128>,
    lines: Seq<Seq<char>>,
    i: int,
    written: Seq<Seq<char>>,
    home: Seq<char>,
    now: i128,
    id: u64,
)
    requires
        0 <= i < lines.len(),
        lines[i].len() > 0,
        !text::whitespace(lines[i].last()),
        calls(json::json_parse(lines[i]), "roots/list"@),
        numbered(json::json_parse(lines[i])) == Some(id),
    ensures
        ({
            let events = written_lines(lines);
            let reply = json::json_text(
                rpc::roots_reply(JsonView::Number(NumberView::PosInt(id)), home),
            );
            mcp::forward_run(x, Seq::empty(), abandoned, events, i, written, home, now)
                == mcp::forward_run(
                x,
                Seq::empty(),
                abandoned,
                events,
                i + 1,
                written.push(reply),
                home,
                now,
            )
        }),
{
    let line = lines[i];
    let raw = line.push('\n');
    assert(Seq::<char>::empty() + raw =~= raw);
    assert(raw =~= line + seq!['\n']);
    text_laws::ends_are_trimmed(line, seq!['\n']);
    assert(written_lines(lines)[i] == EventView::Appended(raw));
}

} // verus!
