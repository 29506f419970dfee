//! What holds between the daemon and the command line that talks to it.
use crate::client;
use crate::client::{ReadFailure, DAEMON_BUSY_PREFIX};
use crate::control;
use crate::control::{DaemonStatus, CONTROL_PREFIX};
use crate::rpc;
use crate::session::SessionState;
use crate::text;
use vstd::prelude::*;

verus! {

/// A daemon that does not answer in time counts as running, so none is started beside it.
pub proof fn busy_daemons_are_left_alone(failure: ReadFailure, timeout: nat)
    requires
        failure !is Other,
    ensures
        client::runs(Some(Err(client::request_failure(failure, timeout)))),
{
    let error = client::request_failure(failure, timeout);
    assert(error.subrange(0, DAEMON_BUSY_PREFIX@.len() as int) =~= DAEMON_BUSY_PREFIX@);
}

/// Whether a text has no white space in it.
pub open spec fn solid(s: Seq<char>) -> bool {
    forall|i: int| 0 <= i < s.len() ==> !text::whitespace(#[trigger] s[i])
}

/// A command arrives at the daemon as it was sent.
pub proof fn commands_arrive(command: Seq<char>, bound: bool)
    requires
        command.len() > 0,
        !text::whitespace(command.last()),
    ensures
        control::client_step(client::control_request(command), bound) == (
        control::ClientStepView::Control { name: control::command_label(command), command }),
{
    reveal_strlit("\n");
    let line = CONTROL_PREFIX@ + command;
    assert(line.last() == command.last());
    assert(client::control_request(command).drop_last() =~= line);
    assert(text::trimmed_end(line) == line);
    assert(line.subrange(0, CONTROL_PREFIX@.len() as int) =~= CONTROL_PREFIX@);
    assert(line.skip(CONTROL_PREFIX@.len() as int) =~= command);
}

/// The daemon's answer to a bind tells the client whether it has the session: it has it if
/// the daemon bound it, and else it gets the daemon's reason.
pub proof fn binds_are_acknowledged(
    before: control::ControlView,
    id: Seq<char>,
    now: int,
    at: int,
    name: Seq<char>,
)
    requires
        id.len() > 0,
        solid(id),
    ensures
        ({
            let after = control::bound_by_command(before, id, now, at);
            let line = after.reply->Ok_0.lines[0] + "\n"@;
            &&& after.reply is Ok
            &&& client::bound_reply(line, name) is Ok <==> crate::session::binding(
                before.sessions,
                id,
                now,
            ) is Ok
            &&& client::bound_reply(line, name) is Err ==> text::begins(
                client::bound_reply(line, name)->Err_0,
                "unknown session"@,
            ) || text::begins(client::bound_reply(line, name)->Err_0, "session in use"@)
        }),
{
    let after = control::bound_by_command(before, id, now, at);
    let body = after.reply->Ok_0.lines[0];
    reveal_strlit("\n");
    reveal_strlit("bound=");
    reveal_strlit("error=");
    reveal_strlit("unknown session");
    reveal_strlit("unknown session: ");
    reveal_strlit("session in use");
    reveal_strlit("session in use: ");
    assert((body + "\n"@).drop_last() =~= body);
    assert(!text::whitespace(id[id.len() - 1]));
    match crate::session::binding(before.sessions, id, now) {
        Ok(_) => {
            assert(body == "bound="@ + id);
            assert(body.last() == id.last());
            assert(text::trimmed_end(body) == body);
            assert(body.subrange(0, 6) =~= "bound="@);
            assert(!text::begins(body, "error="@)) by {
                assert(body.subrange(0, 6)[0] == 'b');
            }
        },
        Err(message) => {
            assert(body == "error="@ + message);
            assert(body.subrange(0, 6) =~= "error="@);
            assert(body.skip(6) =~= message);
            assert(message.last() == id.last());
            assert(body.last() == message.last());
            assert(text::trimmed_end(body) == body);
            if before.sessions.contains_key(id) {
                assert(message.subrange(0, 14) =~= "session in use"@);
                assert(!text::begins(message, "unknown session"@)) by {
                    if message.len() >= 15 {
                        assert(message.subrange(0, 15)[0] == 's');
                    }
                }
                let told = client::bound_reply(body + "\n"@, name)->Err_0;
                assert(told.subrange(0, 14) =~= "session in use"@);
            } else {
                assert(message.subrange(0, 15) =~= "unknown session"@);
                let told = client::bound_reply(body + "\n"@, name)->Err_0;
                assert(told.subrange(0, 15) =~= "unknown session"@);
            }
        },
    }
}

/// A text without white space, followed by a space, is the first word.
proof fn lemma_first_word(cur: Seq<char>, a: Seq<char>, b: Seq<char>)
    requires
        solid(a),
        cur.len() + a.len() > 0,
    ensures
        text::words_from(cur, a + " "@ + b) == seq![cur + a] + text::words(b),
    decreases a.len(),
{
    reveal_strlit(" ");
    let whole = a + " "@ + b;
    if a.len() == 0 {
        assert(whole[0] == ' ');
        assert(whole.skip(1) =~= b);
        assert(cur + a =~= cur);
    } else {
        assert(!text::whitespace(a[0]));
        assert(whole[0] == a[0]);
        assert(whole.skip(1) =~= a.skip(1) + " "@ + b);
        assert forall|i: int| 0 <= i < a.skip(1).len() implies !text::whitespace(
            #[trigger] a.skip(1)[i],
        ) by {
            assert(a.skip(1)[i] == a[i + 1]);
        }
        lemma_first_word(cur.push(a[0]), a.skip(1), b);
        assert(cur.push(a[0]) + a.skip(1) =~= cur + a);
    }
}

/// A text without white space is one word.
proof fn lemma_only_word(cur: Seq<char>, a: Seq<char>)
    requires
        solid(a),
        cur.len() + a.len() > 0,
    ensures
        text::words_from(cur, a) == seq![cur + a],
    decreases a.len(),
{
    if a.len() == 0 {
        assert(cur + a =~= cur);
    } else {
        assert(!text::whitespace(a[0]));
        assert forall|i: int| 0 <= i < a.skip(1).len() implies !text::whitespace(
            #[trigger] a.skip(1)[i],
        ) by {
            assert(a.skip(1)[i] == a[i + 1]);
        }
        lemma_only_word(cur.push(a[0]), a.skip(1));
        assert(cur.push(a[0]) + a.skip(1) =~= cur + a);
    }
}

/// A field in front of others, as words.
proof fn lemma_field_word(key: Seq<char>, value: Seq<char>, rest: Seq<char>)
    requires
        key.len() > 0,
        solid(key),
        solid(value),
    ensures
        text::words(key + value + " "@ + rest) == seq![key + value] + text::words(rest),
{
    let word = key + value;
    assert(solid(word)) by {
        assert forall|i: int| 0 <= i < word.len() implies !text::whitespace(#[trigger] word[i]) by {
            if i < key.len() {
                assert(word[i] == key[i]);
            } else {
                assert(word[i] == value[i - key.len()]);
            }
        }
    }
    lemma_first_word(Seq::empty(), word, rest);
    assert(Seq::<char>::empty() + word =~= word);
}

/// A field in front of others is found under its own name.
proof fn lemma_field(key: Seq<char>, value: Seq<char>, rest: Seq<char>)
    requires
        key.len() > 0,
        solid(key),
        solid(value),
    ensures
        control::assigned(text::words(key + value + " "@ + rest), key) == Some(value),
{
    lemma_field_word(key, value, rest);
    let word = key + value;
    let all = text::words(key + value + " "@ + rest);
    assert(all[0] == word);
    assert(word.subrange(0, key.len() as int) =~= key);
    assert(word.skip(key.len() as int) =~= value);
}

/// A field in front of others is passed over when another name is looked for.
proof fn lemma_other_field(
    key: Seq<char>,
    value: Seq<char>,
    rest: Seq<char>,
    name: Seq<char>,
    i: int,
)
    requires
        0 <= i < key.len(),
        i < name.len(),
        key[i] != name[i],
        solid(key),
        solid(value),
    ensures
        control::assigned(text::words(key + value + " "@ + rest), name) == control::assigned(
            text::words(rest),
            name,
        ),
{
    lemma_field_word(key, value, rest);
    let word = key + value;
    let all = text::words(key + value + " "@ + rest);
    assert(all[0] == word);
    assert(all.skip(1) =~= text::words(rest));
    if text::begins(word, name) {
        assert(word.subrange(0, name.len() as int)[i] == key[i]);
    }
}

/// The field at the end is found under its name.
proof fn lemma_only_field(value: Seq<char>)
    requires
        solid(value),
    ensures
        control::assigned(text::words("mcp_port="@ + value), "mcp_port="@) == Some(value),
{
    reveal_strlit("mcp_port=");
    let key = "mcp_port="@;
    let word = key + value;
    assert(solid(word)) by {
        assert forall|i: int| 0 <= i < word.len() implies !text::whitespace(#[trigger] word[i]) by {
            if i < key.len() {
                assert(word[i] == key[i]);
            } else {
                assert(word[i] == value[i - key.len()]);
            }
        }
    }
    lemma_only_word(Seq::empty(), word);
    assert(Seq::<char>::empty() + word =~= word);
    assert(text::words(word)[0] == word);
    assert(word.subrange(0, key.len() as int) =~= key);
    assert(word.skip(key.len() as int) =~= value);
}

proof fn lemma_decimal_solid(n: nat)
    ensures
        solid(text::decimal(n)),
{
    text::decimal_denotes(n);
    assert forall|i: int| 0 <= i < text::decimal(n).len() implies !text::whitespace(
        #[trigger] text::decimal(n)[i],
    ) by {
        assert(text::is_digit(text::decimal(n)[i]));
    }
}

proof fn lemma_pages_solid(list: Seq<SessionState>)
    ensures
        solid(control::pages_text(list)),
    decreases list.len(),
{
    reveal_strlit("");
    reveal_strlit(",");
    if list.len() > 0 {
        lemma_pages_solid(list.drop_last());
        match list.last().page_id {
            Some(page) => lemma_decimal_solid(page as nat),
            None => {},
        }
    }
}

proof fn lemma_status_literals()
    ensures
        "daemon=ready version="@ == "daemon="@ + "ready"@ + " "@ + "version="@,
        " sessions="@ == " "@ + "sessions="@,
        " active_sessions="@ == " "@ + "active_sessions="@,
        " pages="@ == " "@ + "pages="@,
        " queued_mcp_requests="@ == " "@ + "queued_mcp_requests="@,
        " max_control_latency_ms="@ == " "@ + "max_control_latency_ms="@,
        " max_forward_latency_ms="@ == " "@ + "max_forward_latency_ms="@,
        " diagnostic_window_secs="@ == " "@ + "diagnostic_window_secs="@,
        " mcp_port="@ == " "@ + "mcp_port="@,
{
    reveal_strlit(" ");
    reveal_strlit("daemon=ready version=");
    reveal_strlit("daemon=");
    reveal_strlit("ready");
    reveal_strlit("version=");
    reveal_strlit("sessions=");
    reveal_strlit(" sessions=");
    reveal_strlit("active_sessions=");
    reveal_strlit(" active_sessions=");
    reveal_strlit("pages=");
    reveal_strlit(" pages=");
    reveal_strlit("queued_mcp_requests=");
    reveal_strlit(" queued_mcp_requests=");
    reveal_strlit("max_control_latency_ms=");
    reveal_strlit(" max_control_latency_ms=");
    reveal_strlit("max_forward_latency_ms=");
    reveal_strlit(" max_forward_latency_ms=");
    reveal_strlit("diagnostic_window_secs=");
    reveal_strlit(" diagnostic_window_secs=");
    reveal_strlit("mcp_port=");
    reveal_strlit(" mcp_port=");
    assert("daemon=ready version="@ =~= "daemon="@ + "ready"@ + " "@ + "version="@);
    assert(" sessions="@ =~= " "@ + "sessions="@);
    assert(" active_sessions="@ =~= " "@ + "active_sessions="@);
    assert(" pages="@ =~= " "@ + "pages="@);
    assert(" queued_mcp_requests="@ =~= " "@ + "queued_mcp_requests="@);
    assert(" max_control_latency_ms="@ =~= " "@ + "max_control_latency_ms="@);
    assert(" max_forward_latency_ms="@ =~= " "@ + "max_forward_latency_ms="@);
    assert(" diagnostic_window_secs="@ =~= " "@ + "diagnostic_window_secs="@);
    assert(" mcp_port="@ =~= " "@ + "mcp_port="@);
}

/// The names of the fields have no white space in them, and begin differently.
proof fn lemma_status_names()
    ensures
        solid("daemon="@),
        solid("ready"@),
        solid("version="@),
        solid("sessions="@),
        solid("active_sessions="@),
        solid("pages="@),
        solid("queued_mcp_requests="@),
        solid("max_control_latency_ms="@),
        solid("max_forward_latency_ms="@),
        solid("diagnostic_window_secs="@),
        solid("mcp_port="@),
        "daemon="@.len() > 1 && "daemon="@[0] == 'd',
        "version="@.len() > 1 && "version="@[0] == 'v',
        "sessions="@.len() > 1 && "sessions="@[0] == 's',
        "active_sessions="@.len() > 1 && "active_sessions="@[0] == 'a',
        "pages="@.len() > 1 && "pages="@[0] == 'p',
        "queued_mcp_requests="@.len() > 1 && "queued_mcp_requests="@[0] == 'q',
        "max_control_latency_ms="@.len() > 1 && "max_control_latency_ms="@[1] == 'a',
        "max_forward_latency_ms="@.len() > 1 && "max_forward_latency_ms="@[1] == 'a',
        "diagnostic_window_secs="@.len() > 1 && "diagnostic_window_secs="@[0] == 'd',
        "mcp_port="@.len() > 1 && "mcp_port="@[0] == 'm' && "mcp_port="@[1] == 'c',
{
    reveal_strlit("daemon=");
    reveal_strlit("ready");
    reveal_strlit("version=");
    reveal_strlit("sessions=");
    reveal_strlit("active_sessions=");
    reveal_strlit("pages=");
    reveal_strlit("queued_mcp_requests=");
    reveal_strlit("max_control_latency_ms=");
    reveal_strlit("max_forward_latency_ms=");
    reveal_strlit("diagnostic_window_secs=");
    reveal_strlit("mcp_port=");
}

/// Moves a space from the end of what came before to what follows.
proof fn lemma_shift(
    before: Seq<char>,
    spaced: Seq<char>,
    key: Seq<char>,
    value: Seq<char>,
    rest: Seq<char>,
)
    requires
        spaced == " "@ + key,
    ensures
        before + spaced + value + (" "@ + rest) == before + (" "@ + (key + value + " "@ + rest)),
{
    assert(before + spaced + value + (" "@ + rest) =~= before + (" "@ + (key + value + " "@
        + rest)));
}

/// The line of fields, field by field.
proof fn lemma_status_fields(
    v1: Seq<char>,
    v2: Seq<char>,
    v3: Seq<char>,
    v4: Seq<char>,
    v5: Seq<char>,
    v6: Seq<char>,
    v7: Seq<char>,
    v8: Seq<char>,
    v9: Seq<char>,
)
    ensures
        "daemon=ready version="@ + v1 + " sessions="@ + v2 + " active_sessions="@ + v3 + " pages="@
            + v4 + " queued_mcp_requests="@ + v5 + " max_control_latency_ms="@ + v6
            + " max_forward_latency_ms="@ + v7 + " diagnostic_window_secs="@ + v8 + " mcp_port="@
            + v9 == "daemon="@ + "ready"@ + " "@ + ("version="@ + v1 + " "@ + ("sessions="@ + v2
            + " "@ + ("active_sessions="@ + v3 + " "@ + ("pages="@ + v4 + " "@ + (
        "queued_mcp_requests="@ + v5 + " "@ + ("max_control_latency_ms="@ + v6 + " "@ + (
        "max_forward_latency_ms="@ + v7 + " "@ + ("diagnostic_window_secs="@ + v8 + " "@ + (
        "mcp_port="@ + v9))))))))),
{
    lemma_status_literals();
    let l1 = "daemon=ready version="@ + v1;
    let l2 = l1 + " sessions="@ + v2;
    let l3 = l2 + " active_sessions="@ + v3;
    let l4 = l3 + " pages="@ + v4;
    let l5 = l4 + " queued_mcp_requests="@ + v5;
    let l6 = l5 + " max_control_latency_ms="@ + v6;
    let l7 = l6 + " max_forward_latency_ms="@ + v7;
    let l8 = l7 + " diagnostic_window_secs="@ + v8;
    let line = l8 + " mcp_port="@ + v9;
    let r9 = "mcp_port="@ + v9;
    let r8 = "diagnostic_window_secs="@ + v8 + " "@ + r9;
    let r7 = "max_forward_latency_ms="@ + v7 + " "@ + r8;
    let r6 = "max_control_latency_ms="@ + v6 + " "@ + r7;
    let r5 = "queued_mcp_requests="@ + v5 + " "@ + r6;
    let r4 = "pages="@ + v4 + " "@ + r5;
    let r3 = "active_sessions="@ + v3 + " "@ + r4;
    let r2 = "sessions="@ + v2 + " "@ + r3;
    let r1 = "version="@ + v1 + " "@ + r2;
    assert(line =~= l8 + (" "@ + r9));
    lemma_shift(l7, " diagnostic_window_secs="@, "diagnostic_window_secs="@, v8, r9);
    lemma_shift(l6, " max_forward_latency_ms="@, "max_forward_latency_ms="@, v7, r8);
    lemma_shift(l5, " max_control_latency_ms="@, "max_control_latency_ms="@, v6, r7);
    lemma_shift(l4, " queued_mcp_requests="@, "queued_mcp_requests="@, v5, r6);
    lemma_shift(l3, " pages="@, "pages="@, v4, r5);
    lemma_shift(l2, " active_sessions="@, "active_sessions="@, v3, r4);
    lemma_shift(l1, " sessions="@, "sessions="@, v2, r3);
    assert(line == l1 + (" "@ + r2));
    let first = "daemon="@ + "ready"@ + " "@ + r1;
    assert(line =~= first);
}

/// The fields by which a daemon tells of its sessions and its browser are read from its
/// answer as they were written: how many sessions there are, how many of them are bound,
/// their pages, how many requests wait, and the port of the browser.
#[verifier::rlimit(40)]
pub proof fn status_fields_are_read_back(status: DaemonStatus, list: Seq<SessionState>)
    requires
        solid(status.version@),
    ensures
        ({
            let words = text::words(control::status_line(status, list));
            &&& control::assigned(words, "version="@) == Some(status.version@)
            &&& control::assigned(words, "sessions="@) == Some(text::decimal(list.len()))
            &&& control::assigned(words, "active_sessions="@) == Some(
                text::decimal(control::bound_count(list)),
            )
            &&& control::assigned(words, "pages="@) == Some(control::pages_text(list))
            &&& control::assigned(words, "queued_mcp_requests="@) == Some(
                text::decimal(status.queued as nat),
            )
        }),
        client::attached_port(control::status_line(status, list)) == Some(
            match status.port {
                Some(port) => port,
                None => 0u16,
            },
        ),
{
    let d = status.diagnostics;
    let port = match status.port {
        Some(port) => port as nat,
        None => 0nat,
    };
    let v1 = status.version@;
    let v2 = text::decimal(list.len());
    let v3 = text::decimal(control::bound_count(list));
    let v4 = control::pages_text(list);
    let v5 = text::decimal(status.queued as nat);
    let v6 = text::decimal(d.max_control_latency_ms as nat);
    let v7 = text::decimal(d.max_forward_latency_ms as nat);
    let v8 = text::decimal(d.window_secs as nat);
    let v9 = text::decimal(port);
    lemma_status_fields(v1, v2, v3, v4, v5, v6, v7, v8, v9);
    let r9 = "mcp_port="@ + v9;
    let r8 = "diagnostic_window_secs="@ + v8 + " "@ + r9;
    let r7 = "max_forward_latency_ms="@ + v7 + " "@ + r8;
    let r6 = "max_control_latency_ms="@ + v6 + " "@ + r7;
    let r5 = "queued_mcp_requests="@ + v5 + " "@ + r6;
    let r4 = "pages="@ + v4 + " "@ + r5;
    let r3 = "active_sessions="@ + v3 + " "@ + r4;
    let r2 = "sessions="@ + v2 + " "@ + r3;
    let r1 = "version="@ + v1 + " "@ + r2;
    let first = "daemon="@ + "ready"@ + " "@ + r1;
    assert(control::status_line(status, list) == first);
    lemma_decimal_solid(list.len());
    lemma_decimal_solid(control::bound_count(list));
    lemma_pages_solid(list);
    lemma_decimal_solid(status.queued as nat);
    lemma_decimal_solid(d.max_control_latency_ms as nat);
    lemma_decimal_solid(d.max_forward_latency_ms as nat);
    lemma_decimal_solid(d.window_secs as nat);
    lemma_decimal_solid(port);
    lemma_status_names();
    lemma_other_field("daemon="@, "ready"@, r1, "version="@, 0);
    lemma_field("version="@, v1, r2);
    lemma_other_field("daemon="@, "ready"@, r1, "sessions="@, 0);
    lemma_other_field("version="@, v1, r2, "sessions="@, 0);
    lemma_field("sessions="@, v2, r3);
    lemma_other_field("daemon="@, "ready"@, r1, "active_sessions="@, 0);
    lemma_other_field("version="@, v1, r2, "active_sessions="@, 0);
    lemma_other_field("sessions="@, v2, r3, "active_sessions="@, 0);
    lemma_field("active_sessions="@, v3, r4);
    lemma_other_field("daemon="@, "ready"@, r1, "pages="@, 0);
    lemma_other_field("version="@, v1, r2, "pages="@, 0);
    lemma_other_field("sessions="@, v2, r3, "pages="@, 0);
    lemma_other_field("active_sessions="@, v3, r4, "pages="@, 0);
    lemma_field("pages="@, v4, r5);
    lemma_other_field("daemon="@, "ready"@, r1, "queued_mcp_requests="@, 0);
    lemma_other_field("version="@, v1, r2, "queued_mcp_requests="@, 0);
    lemma_other_field("sessions="@, v2, r3, "queued_mcp_requests="@, 0);
    lemma_other_field("active_sessions="@, v3, r4, "queued_mcp_requests="@, 0);
    lemma_other_field("pages="@, v4, r5, "queued_mcp_requests="@, 0);
    lemma_field("queued_mcp_requests="@, v5, r6);
    lemma_other_field("daemon="@, "ready"@, r1, "mcp_port="@, 0);
    lemma_other_field("version="@, v1, r2, "mcp_port="@, 0);
    lemma_other_field("sessions="@, v2, r3, "mcp_port="@, 0);
    lemma_other_field("active_sessions="@, v3, r4, "mcp_port="@, 0);
    lemma_other_field("pages="@, v4, r5, "mcp_port="@, 0);
    lemma_other_field("queued_mcp_requests="@, v5, r6, "mcp_port="@, 0);
    lemma_other_field("max_control_latency_ms="@, v6, r7, "mcp_port="@, 1);
    lemma_other_field("max_forward_latency_ms="@, v7, r8, "mcp_port="@, 1);
    lemma_other_field("diagnostic_window_secs="@, v8, r9, "mcp_port="@, 0);
    lemma_only_field(v9);
    text::printing_and_parsing_agree(port, u16::MAX as nat);
}

/// The list of tools is the last line that answers the request for it; without one there is
/// none.
pub proof fn the_last_answer_counts(lines: Seq<Seq<char>>, k: int)
    requires
        -1 <= k < lines.len(),
        k >= 0 ==> rpc::line_id(lines[k]) == Some(2u64),
        forall|i: int| k < i < lines.len() ==> rpc::line_id(#[trigger] lines[i]) != Some(2u64),
    ensures
        client::tools_answer(lines) == (if k >= 0 {
            Some(lines[k])
        } else {
            None
        }),
    decreases lines.len(),
{
    if lines.len() > 0 && k < lines.len() - 1 {
        let front = lines.drop_last();
        assert(rpc::line_id(lines[lines.len() - 1]) != Some(2u64));
        assert forall|i: int| k < i < front.len() implies rpc::line_id(#[trigger] front[i]) != Some(
            2u64,
        ) by {
            assert(front[i] == lines[i]);
        }
        the_last_answer_counts(front, k);
    }
}

/// A client has its session only if the daemon says so; any other answer, and none, is a
/// failure, and the daemon's reason is handed on.
pub proof fn only_a_bound_session_is_had(raw: Seq<char>, reason: Seq<char>, name: Seq<char>)
    ensures
        client::bound_reply(raw, name) is Ok <==> raw.len() > 0 && text::begins(
            text::trimmed_end(raw),
            "bound="@,
        ),
        text::trimmed_end(raw) == "error="@ + reason && raw.len() > 0 ==> (client::bound_reply(
            raw,
            name,
        ) matches Err(message) && text::begins(message, reason)),
{
    reveal_strlit("bound=");
    reveal_strlit("error=");
    let response = text::trimmed_end(raw);
    if text::begins(response, "bound="@) && text::begins(response, "error="@) {
        assert(response.subrange(0, 6)[0] == 'b');
    }
    if response == "error="@ + reason && raw.len() > 0 {
        assert(response.subrange(0, 6) =~= "error="@);
        assert(response.skip(6) =~= reason);
        if let Err(message) = client::bound_reply(raw, name) {
            assert(message.subrange(0, reason.len() as int) =~= reason);
        }
        if text::begins(response, "bound="@) {
            assert(response.subrange(0, 6)[0] == 'e');
        }
    }
}

/// A daemon's health shows only where something went wrong: its exits that were errors with
/// the last of its exits, and how often its server was started anew.
pub proof fn health_shows_what_went_wrong(h: crate::daemon::HealthView)
    ensures
        client::health_text(None) == Seq::<char>::empty(),
        client::respawns_text(None) == Seq::<char>::empty(),
        h.last_exit is None ==> client::health_text(Some(h)) == Seq::<char>::empty(),
        h.last_exit matches Some(last) ==> client::health_text(Some(h)) == " abnormal_exits="@
            + text::decimal(h.abnormal_exits) + " last_exit=["@ + last + "]"@,
        h.respawns == 0 ==> client::respawns_text(Some(h)) == Seq::<char>::empty(),
        h.respawns > 0 ==> client::respawns_text(Some(h)) == " respawns="@ + text::decimal(
            h.respawns,
        ),
{
    reveal_strlit("");
    assert(""@ =~= Seq::empty());
}

/// What is shown of a running daemon: its profile, what it says of itself, its browser, its
/// process and its socket; of a daemon that does not run, its profile, process and socket.
pub proof fn daemons_are_shown(
    name: Seq<char>,
    response: Seq<char>,
    pid: u32,
    port: u16,
    socket: Seq<char>,
    ready: bool,
    health: Option<crate::daemon::HealthView>,
)
    requires
        client::attached_port(response) == Some(port),
    ensures
        ({
            let line = client::running_line(name, response, Some(pid), socket, ready, health);
            let gone = client::stopped_line(name, Some(pid), socket, health);
            let number = text::decimal(port as nat);
            &&& text::begins(line, "profile="@ + name + " daemon=ready version="@)
            &&& text::holds(line, " chrome="@ + (if ready {
                "ready port="@ + number
            } else {
                "unreachable port="@ + number
            }))
            &&& text::holds(line, " pid="@ + text::decimal(pid as nat) + " socket="@ + socket)
            &&& gone == "profile="@ + name + " daemon=stopped pid="@ + text::decimal(pid as nat)
                + " socket="@ + socket + client::health_text(health)
            &&& forall|field: Seq<char>| #[trigger] shown_field(field) ==> text::holds(
                line,
                seq![' '] + field + (match control::assigned(text::words(response), field) {
                    Some(value) => value,
                    None => "unknown"@,
                }),
            )
        }),
{
    let line = client::running_line(name, response, Some(pid), socket, ready, health);
    let a = "profile="@ + name + " daemon=ready version="@;
    let b = a + client::field_or(response, "version="@, "pre-0.3.1"@);
    let c = b + " sessions="@ + client::field_or(response, "sessions="@, "unknown"@);
    let d = c + " active_sessions="@ + client::field_or(response, "active_sessions="@, "unknown"@);
    let e = d + " pages="@ + client::field_or(response, "pages="@, "unknown"@);
    let f = e + " queued_mcp_requests="@ + client::field_or(
        response,
        "queued_mcp_requests="@,
        "unknown"@,
    );
    let g = f + " max_control_latency_ms="@ + client::field_or(
        response,
        "max_control_latency_ms="@,
        "unknown"@,
    );
    let h = g + " max_forward_latency_ms="@ + client::field_or(
        response,
        "max_forward_latency_ms="@,
        "unknown"@,
    );
    let i = h + " diagnostic_window_secs="@ + client::field_or(
        response,
        "diagnostic_window_secs="@,
        "unknown"@,
    );
    let j = i + " chrome="@ + client::chrome_text(Some(port), ready);
    let k = j + client::respawns_text(health);
    let l = k + " pid="@ + text::decimal(pid as nat) + " socket="@ + socket;
    assert(line == l + client::health_text(health));
    lemma_begins_sum(l, client::health_text(health));
    lemma_chain(k, " pid="@ + text::decimal(pid as nat) + " socket="@ + socket, l, line);
    assert(k + (" pid="@ + text::decimal(pid as nat) + " socket="@ + socket) =~= l);
    lemma_start(j, client::respawns_text(health), k, line);
    lemma_start(k, " pid="@ + text::decimal(pid as nat) + " socket="@ + socket, l, line);
    lemma_browser(i, port, ready, j, line);
    lemma_start(i, " chrome="@ + client::chrome_text(Some(port), ready), j, line);
    assert(i + (" chrome="@ + client::chrome_text(Some(port), ready)) =~= j);
    reveal_strlit("diagnostic_window_secs=");
    reveal_strlit(" diagnostic_window_secs=");
    assert(" diagnostic_window_secs="@ =~= seq![' '] + "diagnostic_window_secs="@);
    lemma_shown(h, " diagnostic_window_secs="@, "diagnostic_window_secs="@, client::field_or(response, "diagnostic_window_secs="@, "unknown"@), i, line);
    reveal_strlit("max_forward_latency_ms=");
    reveal_strlit(" max_forward_latency_ms=");
    assert(" max_forward_latency_ms="@ =~= seq![' '] + "max_forward_latency_ms="@);
    lemma_shown(g, " max_forward_latency_ms="@, "max_forward_latency_ms="@, client::field_or(response, "max_forward_latency_ms="@, "unknown"@), h, line);
    reveal_strlit("max_control_latency_ms=");
    reveal_strlit(" max_control_latency_ms=");
    assert(" max_control_latency_ms="@ =~= seq![' '] + "max_control_latency_ms="@);
    lemma_shown(f, " max_control_latency_ms="@, "max_control_latency_ms="@, client::field_or(response, "max_control_latency_ms="@, "unknown"@), g, line);
    reveal_strlit("queued_mcp_requests=");
    reveal_strlit(" queued_mcp_requests=");
    assert(" queued_mcp_requests="@ =~= seq![' '] + "queued_mcp_requests="@);
    lemma_shown(e, " queued_mcp_requests="@, "queued_mcp_requests="@, client::field_or(response, "queued_mcp_requests="@, "unknown"@), f, line);
    reveal_strlit("pages=");
    reveal_strlit(" pages=");
    assert(" pages="@ =~= seq![' '] + "pages="@);
    lemma_shown(d, " pages="@, "pages="@, client::field_or(response, "pages="@, "unknown"@), e, line);
    reveal_strlit("active_sessions=");
    reveal_strlit(" active_sessions=");
    assert(" active_sessions="@ =~= seq![' '] + "active_sessions="@);
    lemma_shown(c, " active_sessions="@, "active_sessions="@, client::field_or(response, "active_sessions="@, "unknown"@), d, line);
    reveal_strlit("sessions=");
    reveal_strlit(" sessions=");
    assert(" sessions="@ =~= seq![' '] + "sessions="@);
    lemma_shown(b, " sessions="@, "sessions="@, client::field_or(response, "sessions="@, "unknown"@), c, line);
    lemma_start(a, client::field_or(response, "version="@, "pre-0.3.1"@), b, line);
    assert forall|field: Seq<char>| #[trigger] shown_field(field) implies text::holds(
        line,
        seq![' '] + field + (match control::assigned(text::words(response), field) {
            Some(value) => value,
            None => "unknown"@,
        }),
    ) by {}
}

/// The fields that a running daemon tells of itself.
pub open spec fn shown_field(field: Seq<char>) -> bool {
    ||| field == "sessions="@
    ||| field == "active_sessions="@
    ||| field == "pages="@
    ||| field == "queued_mcp_requests="@
    ||| field == "max_control_latency_ms="@
    ||| field == "max_forward_latency_ms="@
    ||| field == "diagnostic_window_secs="@
}

proof fn lemma_begins_sum(a: Seq<char>, b: Seq<char>)
    ensures
        text::begins(a + b, a),
{
    assert((a + b).subrange(0, a.len() as int) =~= a);
}

/// What stands behind the beginning of a text stands in the text.
proof fn lemma_chain(front: Seq<char>, piece: Seq<char>, both: Seq<char>, line: Seq<char>)
    ensures
        both == front + piece && text::begins(line, both) ==> text::holds(line, piece),
{
    if both == front + piece && text::begins(line, both) {
        let n = front.len() as int;
        assert(line.subrange(n, n + piece.len()) =~= line.subrange(0, both.len() as int).subrange(
            n,
            n + piece.len(),
        ));
        assert(both.subrange(n, n + piece.len()) =~= piece);
        assert(text::occurs(line, piece, n));
    }
}

/// The beginning of a beginning is a beginning.
proof fn lemma_start(front: Seq<char>, piece: Seq<char>, both: Seq<char>, line: Seq<char>)
    ensures
        both == front + piece && text::begins(line, both) ==> text::begins(line, front),
{
    if both == front + piece && text::begins(line, both) {
        let n = front.len() as int;
        assert(line.subrange(0, n) =~= line.subrange(0, both.len() as int).subrange(0, n));
        assert(both.subrange(0, n) =~= front);
    }
}

proof fn lemma_browser(front: Seq<char>, port: u16, ready: bool, both: Seq<char>, line: Seq<char>)
    requires
        both == front + " chrome="@ + client::chrome_text(Some(port), ready),
        text::begins(line, both),
    ensures
        text::holds(line, " chrome="@ + (if ready {
            "ready port="@ + text::decimal(port as nat)
        } else {
            "unreachable port="@ + text::decimal(port as nat)
        })),
{
    let number = text::decimal(port as nat);
    if ready {
        assert(front + (" chrome="@ + ("ready port="@ + number)) =~= both);
        lemma_chain(front, " chrome="@ + ("ready port="@ + number), both, line);
    } else {
        let piece = " chrome="@ + ("unreachable port="@ + number);
        let short = front + piece;
        let rest = " (restart the daemon to reattach Chrome)"@;
        assert(short + rest =~= both);
        lemma_start(short, rest, both, line);
        lemma_chain(front, piece, short, line);
    }
}

/// A field of a running daemon.
proof fn lemma_shown(
    front: Seq<char>,
    label: Seq<char>,
    field: Seq<char>,
    value: Seq<char>,
    both: Seq<char>,
    line: Seq<char>,
)
    requires
        label == seq![' '] + field,
        both == front + label + value,
        text::begins(line, both),
    ensures
        text::holds(line, seq![' '] + field + value),
        text::begins(line, front),
{
    let piece = seq![' '] + field + value;
    assert(front + piece =~= both);
    lemma_chain(front, piece, both, line);
    lemma_start(front, piece, both, line);
}

} // verus!
