//! What the clients of the daemon say to it: control commands and requests.
use crate::diagnostics::DiagnosticsSnapshot;
use crate::json;
use crate::json::{Json, JsonView};
use crate::mcp::DaemonError;
use crate::queue::elapsed;
use crate::rpc;
use crate::session;
use crate::session::{
    bind_session_in_registry, format_session_line, page_id_text, PageCleanup, SessionRegistry,
    SessionState, NANOS_PER_MILLI,
};
use crate::text;
use crate::text::{
    joined, joined3, number_text, parse_number, same, split_once, split_whitespace, strip_prefix,
    trim, trim_end,
};
use vstd::prelude::*;

verus! {

/// The name of a control command: its first word.
pub open spec fn command_label(command: Seq<char>) -> Seq<char> {
    if text::words(command).len() > 0 {
        text::words(command)[0]
    } else {
        ""@
    }
}

/// The name of a control command, for logs.
pub fn control_label(command: &str) -> (r: String)
    ensures
        r@ == command_label(command@),
{
    let words = split_whitespace(command);
    if words.len() > 0 {
        words[0].clone()
    } else {
        "".to_string()
    }
}

/// What stands after `prefix` in the first word that begins with it.
pub open spec fn assigned(words: Seq<Seq<char>>, prefix: Seq<char>) -> Option<Seq<char>>
    decreases words.len(),
{
    if words.len() == 0 {
        None
    } else {
        match text::after(words[0], prefix) {
            Some(value) => Some(value),
            None => assigned(words.skip(1), prefix),
        }
    }
}

/// What stands after `prefix` in the first word that begins with it.
pub fn assignment(args: &str, prefix: &str) -> (r: Option<String>)
    ensures
        text::opt_text(r) == assigned(text::words(args@), prefix@),
{
    let words = split_whitespace(args);
    let ghost all = text::texts(words@);
    let mut i: usize = 0;
    assert(all.skip(0) =~= all);
    while i < words.len()
        invariant
            i <= words.len(),
            all == text::texts(words@),
            all == text::words(args@),
            assigned(all, prefix@) == assigned(all.skip(i as int), prefix@),
        decreases words.len() - i,
    {
        assert(all.skip(i as int).skip(1) =~= all.skip(i + 1));
        assert(all.skip(i as int)[0] == words@[i as int]@);
        match strip_prefix(words[i].as_str(), prefix) {
            Some(value) => {
                return Some(value);
            },
            None => {},
        }
        i = i + 1;
    }
    None
}

/// The session that a command names.
pub open spec fn session_arg(args: Seq<char>) -> Result<Seq<char>, Seq<char>> {
    match assigned(text::words(args), "session="@) {
        None => Err("missing session=<id> argument"@),
        Some(value) => if value.len() == 0 {
            Err("session id must not be empty"@)
        } else {
            Ok(value)
        },
    }
}

/// The session that a command names.
pub fn parse_session_arg(args: &str) -> (r: Result<String, String>)
    ensures
        text::result_text(r) == session_arg(args@),
{
    match assignment(args, "session=") {
        None => Err("missing session=<id> argument".to_string()),
        Some(value) => {
            if value.as_str().unicode_len() == 0 {
                Err("session id must not be empty".to_string())
            } else {
                Ok(value)
            }
        },
    }
}

/// The page that a command names.
pub open spec fn page_arg(args: Seq<char>) -> Result<u64, Seq<char>> {
    match assigned(text::words(args), "page="@) {
        None => Err("missing page=<id> argument"@),
        Some(value) => match text::parsed(value, u64::MAX as nat) {
            Some(page) => Ok(page as u64),
            None => Err("page id must be an integer"@),
        },
    }
}

/// The page that a command names.
pub fn parse_page_arg(args: &str) -> (r: Result<u64, String>)
    ensures
        match r {
            Ok(page) => page_arg(args@) == Ok::<u64, Seq<char>>(page),
            Err(message) => page_arg(args@) == Err::<u64, Seq<char>>(message@),
        },
{
    match assignment(args, "page=") {
        None => Err("missing page=<id> argument".to_string()),
        Some(value) => match parse_number(value.as_str(), u64::MAX) {
            Some(page) => Ok(page),
            None => Err("page id must be an integer".to_string()),
        },
    }
}

/// What becomes of a connection after a control command.
#[derive(Clone, Copy, PartialEq, Eq, Structural)]
pub enum ControlOutcome {
    /// The client may say more.
    Continue,
    /// The daemon hangs up.
    CloseConnection,
    /// The daemon ends.
    StopDaemon,
}

/// The answer to a control command. Where a page is to be closed, it is closed before the
/// lines are written.
pub struct ControlReply {
    pub cleanup: Option<PageCleanup>,
    pub lines: Vec<String>,
    pub outcome: ControlOutcome,
}

/// The answer to a control command.
pub struct ReplyView {
    pub cleanup: Option<session::CleanupView>,
    pub lines: Seq<Seq<char>>,
    pub outcome: ControlOutcome,
}

impl View for ControlReply {
    type V = ReplyView;

    open spec fn view(&self) -> ReplyView {
        ReplyView {
            cleanup: session::cleanup_view(self.cleanup),
            lines: text::texts(self.lines@),
            outcome: self.outcome,
        }
    }
}

/// What a daemon tells of itself besides its sessions.
pub struct DaemonStatus {
    pub version: String,
    pub queued: usize,
    pub diagnostics: DiagnosticsSnapshot,
    pub port: Option<u16>,
}

/// A daemon's answer of one line.
pub open spec fn line_reply(line: Seq<char>, outcome: ControlOutcome) -> ReplyView {
    ReplyView { cleanup: None, lines: seq![line], outcome }
}

fn one_line_reply(line: String, outcome: ControlOutcome) -> (r: ControlReply)
    ensures
        r@ == line_reply(line@, outcome),
{
    let lines = rpc::one_line(line);
    ControlReply { cleanup: None, lines, outcome }
}

/// How many of these sessions are bound.
pub open spec fn bound_count(list: Seq<SessionState>) -> nat
    decreases list.len(),
{
    if list.len() == 0 {
        0
    } else if list.last().owned {
        bound_count(list.drop_last()) + 1
    } else {
        bound_count(list.drop_last())
    }
}

/// The pages of these sessions, with commas between them.
pub open spec fn pages_text(list: Seq<SessionState>) -> Seq<char>
    decreases list.len(),
{
    if list.len() == 0 {
        ""@
    } else {
        let before = pages_text(list.drop_last());
        match list.last().page_id {
            None => before,
            Some(page) => if before.len() == 0 {
                text::decimal(page as nat)
            } else {
                before + ","@ + text::decimal(page as nat)
            },
        }
    }
}

/// What a daemon tells of itself.
pub open spec fn status_line(status: DaemonStatus, list: Seq<SessionState>) -> Seq<char> {
    "daemon=ready version="@ + status.version@ + " sessions="@ + text::decimal(list.len())
        + " active_sessions="@ + text::decimal(bound_count(list)) + " pages="@ + pages_text(list)
        + " queued_mcp_requests="@ + text::decimal(status.queued as nat)
        + " max_control_latency_ms="@ + text::decimal(
        status.diagnostics.max_control_latency_ms as nat,
    ) + " max_forward_latency_ms="@ + text::decimal(
        status.diagnostics.max_forward_latency_ms as nat,
    ) + " diagnostic_window_secs="@ + text::decimal(status.diagnostics.window_secs as nat)
        + " mcp_port="@ + text::decimal(
        match status.port {
            Some(port) => port as nat,
            None => 0,
        },
    )
}

/// What a daemon tells of itself.
fn status_text(status: &DaemonStatus, list: &Vec<SessionState>) -> (r: String)
    ensures
        r@ == status_line(*status, list@),
{
    let mut active: usize = 0;
    let mut pages = "".to_string();
    let mut i: usize = 0;
    proof {
        reveal_strlit("");
        assert(list@.take(0) =~= Seq::empty());
    }
    while i < list.len()
        invariant
            i <= list.len(),
            active <= i,
            active == bound_count(list@.take(i as int)),
            pages@ == pages_text(list@.take(i as int)),
        decreases list.len() - i,
    {
        assert(list@.take(i + 1).drop_last() =~= list@.take(i as int));
        if list[i].owned {
            active = active + 1;
        }
        match list[i].page_id {
            None => {},
            Some(page) => {
                let number = number_text(page as u128);
                if pages.as_str().unicode_len() == 0 {
                    pages = number;
                } else {
                    pages.append(",");
                    pages.append(number.as_str());
                }
            },
        }
        i = i + 1;
    }
    assert(list@.take(i as int) =~= list@);
    let mut out = joined3("daemon=ready version=", status.version.as_str(), " sessions=");
    out.append(number_text(list.len() as u128).as_str());
    out.append(" active_sessions=");
    out.append(number_text(active as u128).as_str());
    out.append(" pages=");
    out.append(pages.as_str());
    out.append(" queued_mcp_requests=");
    out.append(number_text(status.queued as u128).as_str());
    out.append(" max_control_latency_ms=");
    out.append(number_text(status.diagnostics.max_control_latency_ms).as_str());
    out.append(" max_forward_latency_ms=");
    out.append(number_text(status.diagnostics.max_forward_latency_ms).as_str());
    out.append(" diagnostic_window_secs=");
    out.append(number_text(status.diagnostics.window_secs as u128).as_str());
    out.append(" mcp_port=");
    let port: u128 = match status.port {
        Some(port) => port as u128,
        None => 0,
    };
    out.append(number_text(port).as_str());
    out
}

/// The lines of these sessions.
pub open spec fn session_lines(list: Seq<SessionState>) -> Seq<Seq<char>> {
    list.map_values(|s: SessionState| session::session_line(s@))
}

fn session_texts(list: &Vec<SessionState>) -> (r: Vec<String>)
    ensures
        text::texts(r@) == session_lines(list@),
{
    let mut out: Vec<String> = Vec::new();
    let mut i: usize = 0;
    while i < list.len()
        invariant
            i <= list.len(),
            out.len() == i,
            forall|j: int|
                0 <= j < i ==> (#[trigger] out@[j])@ == session::session_line(list@[j]@),
        decreases list.len() - i,
    {
        out.push(format_session_line(&list[i]));
        i = i + 1;
    }
    assert(text::texts(out@) =~= session_lines(list@));
    out
}

/// The session that a connection has bound, and since when.
pub struct BoundSessionGuard {
    pub id: Option<String>,
    pub bound_at: i128,
}

impl BoundSessionGuard {
    /// A connection that has bound nothing yet.
    pub fn new(now: i128) -> (r: BoundSessionGuard)
        ensures
            r.id is None,
            r.bound_at == now,
    {
        BoundSessionGuard { id: None, bound_at: now }
    }

    /// Notes that the connection has bound a session.
    pub fn mark_bound(&mut self, id: String, now: i128)
        ensures
            final(self).id == Some(id),
            final(self).bound_at == now,
    {
        self.id = Some(id);
        self.bound_at = now;
    }

    /// Gives the bound session back when the connection ends, and tells how long it was
    /// held.
    pub fn release(&mut self, sessions: &mut SessionRegistry, now: i128, used_at: i128) -> (r:
        Option<String>)
        requires
            old(sessions).wf(),
        ensures
            final(sessions).wf(),
            final(self).id is None,
            match old(self).id {
                Some(id) => final(sessions)@ == session::adjusted(
                    old(sessions)@,
                    id@,
                    |s: session::SessionView| session::released(s, used_at as int),
                ) && text::opt_text(r) == Some(
                    "bind session="@ + id@ + " held_ms="@ + text::decimal(
                        crate::queue::span(old(self).bound_at as int, now as int) as nat
                            / 1_000_000,
                    ),
                ),
                None => final(sessions)@ == old(sessions)@ && r is None,
            },
    {
        match self.id.take() {
            Some(id) => {
                sessions.unbind(id.as_str(), used_at);
                let held: u128 = elapsed(self.bound_at, now) / NANOS_PER_MILLI;
                let mut out = joined3("bind session=", id.as_str(), " held_ms=");
                out.append(number_text(held).as_str());
                Some(out)
            },
            None => None,
        }
    }
}

/// A command and what follows it.
pub open spec fn command_parts(command: Seq<char>) -> (Seq<char>, Seq<char>) {
    match text::cut(command, " "@) {
        Some((head, rest)) => (head, text::trimmed(rest)),
        None => (command, ""@),
    }
}

/// The answer to a command that only tells of the sessions, in a list of them.
pub open spec fn report(head: Seq<char>, status: DaemonStatus, list: Seq<SessionState>) -> ReplyView {
    if head == "status"@ {
        line_reply(status_line(status, list), ControlOutcome::CloseConnection)
    } else {
        ReplyView {
            cleanup: None,
            lines: session_lines(list),
            outcome: ControlOutcome::CloseConnection,
        }
    }
}

/// Whether a command only tells of the sessions.
pub open spec fn is_report(head: Seq<char>) -> bool {
    head == "status"@ || head == "session_list"@
}

/// What a control command has led to.
pub struct ControlView {
    pub reply: Result<ReplyView, Seq<char>>,
    pub sessions: Map<Seq<char>, session::SessionView>,
    pub made: u64,
    pub bound: Option<Seq<char>>,
    pub bound_at: int,
}

/// The answer that a session cannot be had.
pub open spec fn error_reply(message: Seq<char>) -> ReplyView {
    line_reply("error="@ + message, ControlOutcome::CloseConnection)
}

/// Why a daemon with sessions does not end when told to.
pub open spec fn still_in_use(count: nat) -> Seq<char> {
    text::decimal(count)
        + " active session(s); other agents may be using this daemon, pass --force to stop anyway"@
}

/// What `session_close` leads to.
pub open spec fn closed_by_command(before: ControlView, id: Seq<char>) -> ControlView {
    match session::closing(before.sessions, id) {
        Ok((cleanup, sessions)) => ControlView {
            reply: Ok(
                ReplyView {
                    cleanup,
                    lines: seq!["closed="@ + id],
                    outcome: ControlOutcome::CloseConnection,
                },
            ),
            sessions,
            ..before
        },
        Err(message) => ControlView { reply: Ok(error_reply(message)), ..before },
    }
}

/// What `session_attach` leads to.
pub open spec fn attached_by_command(
    before: ControlView,
    id: Seq<char>,
    page: u64,
    now: int,
) -> ControlView {
    if before.sessions.contains_key(id) {
        ControlView {
            reply: Ok(
                line_reply(
                    "session="@ + id + " page="@ + text::decimal(page as nat),
                    ControlOutcome::CloseConnection,
                ),
            ),
            sessions: before.sessions.insert(
                id,
                session::paged(before.sessions[id], page, false, None, now),
            ),
            ..before
        }
    } else {
        ControlView { reply: Ok(error_reply(session::unknown_session(id))), ..before }
    }
}

/// What `bind` leads to.
pub open spec fn bound_by_command(
    before: ControlView,
    id: Seq<char>,
    now: int,
    at: int,
) -> ControlView {
    match session::binding(before.sessions, id, now) {
        Ok(sessions) => ControlView {
            reply: Ok(line_reply("bound="@ + id, ControlOutcome::Continue)),
            sessions,
            bound: Some(id),
            bound_at: at,
            ..before
        },
        Err(message) => ControlView { reply: Ok(error_reply(message)), ..before },
    }
}

/// What a control command that does more than tell of the sessions leads to. The error is
/// the client's.
pub open spec fn controlled(
    before: ControlView,
    head: Seq<char>,
    rest: Seq<char>,
    now: int,
    at: int,
    pid: int,
) -> ControlView {
    if head == "stop"@ {
        ControlView {
            reply: Ok(
                if rest != "force"@ && before.sessions.len() > 0 {
                    error_reply(still_in_use(before.sessions.len()))
                } else {
                    line_reply("daemon=stopping"@, ControlOutcome::StopDaemon)
                },
            ),
            ..before
        }
    } else if head == "session_create"@ {
        let made = session::fresh(session::generated_id(now, pid, before.made as int), now);
        ControlView {
            reply: Ok(line_reply(session::session_line(made), ControlOutcome::CloseConnection)),
            sessions: before.sessions.insert(made.id, made),
            made: session::next_epoch(before.made),
            ..before
        }
    } else if head == "session_close"@ || head == "session_page"@ || head == "session_attach"@
        || head == "bind"@ {
        match session_arg(rest) {
            Err(message) => ControlView { reply: Err(message), ..before },
            Ok(id) => if head == "session_close"@ {
                closed_by_command(before, id)
            } else if head == "session_page"@ {
                if before.sessions.contains_key(id) {
                    ControlView {
                        reply: Ok(
                            line_reply(
                                "session="@ + id + " page="@ + session::page_text(
                                    before.sessions[id].page,
                                ),
                                ControlOutcome::CloseConnection,
                            ),
                        ),
                        ..before
                    }
                } else {
                    ControlView { reply: Err(session::unknown_session(id)), ..before }
                }
            } else if head == "session_attach"@ {
                match page_arg(rest) {
                    Err(message) => ControlView { reply: Err(message), ..before },
                    Ok(page) => attached_by_command(before, id, page, now),
                }
            } else {
                bound_by_command(before, id, now, at)
            },
        }
    } else {
        ControlView { reply: Ok(error_reply("unknown command: "@ + head)), ..before }
    }
}

/// The error of a command, or its answer.
pub open spec fn reply_result(r: Result<ControlReply, DaemonError>) -> Result<
    ReplyView,
    crate::mcp::ErrorView,
> {
    match r {
        Ok(reply) => Ok(reply@),
        Err(error) => Err(error@),
    }
}

/// An error of the client.
pub open spec fn client_error(r: Result<ReplyView, Seq<char>>) -> Result<
    ReplyView,
    crate::mcp::ErrorView,
> {
    match r {
        Ok(reply) => Ok(reply),
        Err(message) => Err(crate::mcp::ErrorView::Client(message)),
    }
}

/// Answers a control command. `status` is what the daemon tells of itself, `now` the time
/// and `at` the time by the clock that measures how long a session is held.
pub fn handle_control_command(
    sessions: &mut SessionRegistry,
    bound: &mut BoundSessionGuard,
    status: &DaemonStatus,
    command: &str,
    now: i128,
    at: i128,
    pid: u32,
) -> (r: Result<ControlReply, DaemonError>)
    requires
        old(sessions).wf(),
    ensures
        final(sessions).wf(),
        ({
            let (head, rest) = command_parts(command@);
            let before = ControlView {
                reply: Err(""@),
                sessions: old(sessions)@,
                made: old(sessions).made(),
                bound: text::opt_text(old(bound).id),
                bound_at: old(bound).bound_at as int,
            };
            if is_report(head) {
                &&& final(sessions)@ == before.sessions
                &&& final(sessions).made() == before.made
                &&& text::opt_text(final(bound).id) == before.bound
                &&& final(bound).bound_at == before.bound_at
                &&& exists|list: Seq<SessionState>| #[trigger]
                    session::listing(before.sessions, list) && list.len() == before.sessions.len()
                        && reply_result(r) == Ok::<ReplyView, crate::mcp::ErrorView>(
                        report(head, *status, list),
                    )
            } else {
                let after = controlled(before, head, rest, now as int, at as int, pid as int);
                &&& reply_result(r) == client_error(after.reply)
                &&& final(sessions)@ == after.sessions
                &&& final(sessions).made() == after.made
                &&& text::opt_text(final(bound).id) == after.bound
                &&& final(bound).bound_at == after.bound_at
            }
        }),
{
    let (head, rest) = match split_once(command, " ") {
        Some((head, rest)) => (head, trim(rest.as_str())),
        None => (command.to_string(), "".to_string()),
    };
    let head = head.as_str();
    let rest = rest.as_str();
    if same(head, "status") {
        let list = sessions.list();
        assert(session::listing(sessions@, list@));
        return Ok(
            one_line_reply(status_text(status, &list), ControlOutcome::CloseConnection),
        );
    }
    if same(head, "session_list") {
        let list = sessions.list();
        assert(session::listing(sessions@, list@));
        let lines = session_texts(&list);
        let reply = ControlReply { cleanup: None, lines, outcome: ControlOutcome::CloseConnection };
        proof {
            reveal_strlit("status");
            reveal_strlit("session_list");
            assert("status"@.len() == 6 && "session_list"@.len() == 12);
        }
        return Ok(reply);
    }
    if same(head, "stop") {
        if !same(rest, "force") {
            let count: usize = sessions.list().len();
            if count > 0 {
                let message = joined(
                    number_text(count as u128).as_str(),
                    " active session(s); other agents may be using this daemon, pass --force to stop anyway",
                );
                return Ok(refusal(message.as_str()));
            }
        }
        return Ok(one_line_reply("daemon=stopping".to_string(), ControlOutcome::StopDaemon));
    }
    if same(head, "session_create") {
        let state = sessions.create(now, pid);
        return Ok(one_line_reply(format_session_line(&state), ControlOutcome::CloseConnection));
    }
    if same(head, "session_close") || same(head, "session_page") || same(head, "session_attach")
        || same(head, "bind") {
        let id = match parse_session_arg(rest) {
            Ok(id) => id,
            Err(message) => {
                return Err(DaemonError::Client(message));
            },
        };
        if same(head, "session_close") {
            return Ok(close_command(sessions, id.as_str()));
        }
        if same(head, "session_page") {
            return match sessions.get(id.as_str()) {
                Some(state) => {
                    let page = page_id_text(state.page_id);
                    let mut line = joined3("session=", id.as_str(), " page=");
                    line.append(page.as_str());
                    Ok(one_line_reply(line, ControlOutcome::CloseConnection))
                },
                None => Err(DaemonError::Client(joined("unknown session: ", id.as_str()))),
            };
        }
        if same(head, "session_attach") {
            return match parse_page_arg(rest) {
                Ok(page_id) => Ok(attach_command(sessions, id.as_str(), page_id, now)),
                Err(message) => Err(DaemonError::Client(message)),
            };
        }
        return Ok(bind_command(sessions, bound, id, now, at));
    }
    let message = joined("unknown command: ", head);
    Ok(refusal(message.as_str()))
}

fn refusal(message: &str) -> (r: ControlReply)
    ensures
        r@ == error_reply(message@),
{
    one_line_reply(joined("error=", message), ControlOutcome::CloseConnection)
}

fn close_command(sessions: &mut SessionRegistry, id: &str) -> (r: ControlReply)
    requires
        old(sessions).wf(),
    ensures
        final(sessions).wf(),
        final(sessions).made() == old(sessions).made(),
        match session::closing(old(sessions)@, id@) {
            Ok((cleanup, after)) => r@ == (ReplyView {
                cleanup,
                lines: seq!["closed="@ + id@],
                outcome: ControlOutcome::CloseConnection,
            }) && final(sessions)@ == after,
            Err(message) => r@ == error_reply(message) && final(sessions)@ == old(sessions)@,
        },
{
    match sessions.close(id) {
        Ok(cleanup) => {
            let lines = rpc::one_line(joined("closed=", id));
            ControlReply { cleanup, lines, outcome: ControlOutcome::CloseConnection }
        },
        Err(message) => refusal(message.as_str()),
    }
}

fn attach_command(sessions: &mut SessionRegistry, id: &str, page_id: u64, now: i128) -> (r:
    ControlReply)
    requires
        old(sessions).wf(),
    ensures
        final(sessions).wf(),
        final(sessions).made() == old(sessions).made(),
        if old(sessions)@.contains_key(id@) {
            &&& r@ == line_reply(
                "session="@ + id@ + " page="@ + text::decimal(page_id as nat),
                ControlOutcome::CloseConnection,
            )
            &&& final(sessions)@ == old(sessions)@.insert(
                id@,
                session::paged(old(sessions)@[id@], page_id, false, None, now as int),
            )
        } else {
            &&& r@ == error_reply(session::unknown_session(id@))
            &&& final(sessions)@ == old(sessions)@
        },
{
    match sessions.set_page(id, page_id, false, None, now) {
        Ok(()) => {
            let mut line = joined3("session=", id, " page=");
            line.append(number_text(page_id as u128).as_str());
            one_line_reply(line, ControlOutcome::CloseConnection)
        },
        Err(message) => refusal(message.as_str()),
    }
}

fn bind_command(
    sessions: &mut SessionRegistry,
    bound: &mut BoundSessionGuard,
    id: String,
    now: i128,
    at: i128,
) -> (r: ControlReply)
    requires
        old(sessions).wf(),
    ensures
        final(sessions).wf(),
        final(sessions).made() == old(sessions).made(),
        match session::binding(old(sessions)@, id@, now as int) {
            Ok(after) => r@ == line_reply("bound="@ + id@, ControlOutcome::Continue) && final(sessions)@ == after && final(bound).id == Some(id) && final(bound).bound_at == at,
            Err(message) => r@ == error_reply(message) && final(sessions)@ == old(sessions)@
                && *final(bound) == *old(bound),
        },
{
    match bind_session_in_registry(sessions, id.as_str(), now) {
        Ok(()) => {
            let line = joined("bound=", id.as_str());
            bound.mark_bound(id, at);
            one_line_reply(line, ControlOutcome::Continue)
        },
        Err(message) => refusal(message.as_str()),
    }
}

/// The beginning of a line that holds a control command.
pub const CONTROL_PREFIX: &'static str = "__chrome_devtools_daemon__:";

/// What is to be done with a line from a client.
pub enum ClientStep {
    /// Nothing.
    Skip,
    /// Answer a control command; `name` is for logs.
    Control { name: String, command: String },
    /// Answer at once.
    Reply { line: String },
    /// Hand the request to a tool.
    Serve { line: String },
}

/// What is to be done with a line from a client.
pub enum ClientStepView {
    Skip,
    Control { name: Seq<char>, command: Seq<char> },
    Reply { line: Seq<char> },
    Serve { line: Seq<char> },
}

impl View for ClientStep {
    type V = ClientStepView;

    open spec fn view(&self) -> ClientStepView {
        match self {
            ClientStep::Skip => ClientStepView::Skip,
            ClientStep::Control { name, command } => ClientStepView::Control {
                name: name@,
                command: command@,
            },
            ClientStep::Reply { line } => ClientStepView::Reply { line: line@ },
            ClientStep::Serve { line } => ClientStepView::Serve { line: line@ },
        }
    }
}

/// What is to be done with a message by which a client opens its connection, as the server
/// itself is long connected; nothing where it is another message.
pub open spec fn opening_step(message: Result<JsonView, Seq<char>>) -> Option<ClientStepView> {
    if rpc::message_has(message, "initialize"@) {
        match rpc::id_in(message) {
            Some(id) => Some(
                ClientStepView::Reply { line: json::json_text(rpc::initialize_reply(id)) },
            ),
            None => Some(ClientStepView::Skip),
        }
    } else if rpc::message_has(message, "notifications/initialized"@) {
        Some(ClientStepView::Skip)
    } else {
        None
    }
}

/// What is to be done with a line that is fit to be forwarded, from what it was read as.
/// Without a bound session only the tools may be listed.
pub open spec fn serving_step(
    line: Seq<char>,
    message: Result<JsonView, Seq<char>>,
    bound: bool,
) -> ClientStepView {
    if bound || rpc::message_has(message, "tools/list"@) {
        ClientStepView::Serve { line }
    } else {
        match rpc::id_in(message) {
            Some(id) => ClientStepView::Reply {
                line: json::json_text(
                    rpc::error_reply(id, -32000i64, "session bind required for MCP forwarding"@),
                ),
            },
            None => ClientStepView::Skip,
        }
    }
}

/// What is to be done with a request.
pub open spec fn request_step(line: Seq<char>, bound: bool) -> ClientStepView {
    match opening_step(json::json_parse(line)) {
        Some(step) => step,
        None => {
            let forwarded = rpc::sanitized_line(line);
            serving_step(forwarded, json::json_parse(forwarded), bound)
        },
    }
}

/// What is to be done with a message by which a client opens its connection.
pub fn answer_opening(message: &Result<Json, String>) -> (r: Option<ClientStep>)
    ensures
        match r {
            Some(step) => opening_step(json::result_view(*message)) == Some(step@),
            None => opening_step(json::result_view(*message)) is None,
        },
{
    if rpc::message_has_method(message, "initialize") {
        match rpc::message_id_value(message) {
            Some(id) => Some(ClientStep::Reply { line: rpc::daemon_initialize_response(id) }),
            None => Some(ClientStep::Skip),
        }
    } else if rpc::message_has_method(message, "notifications/initialized") {
        Some(ClientStep::Skip)
    } else {
        None
    }
}

/// What is to be done with a line that is fit to be forwarded, from what it was read as.
pub fn serve_request(line: String, message: &Result<Json, String>, bound: bool) -> (r: ClientStep)
    ensures
        r@ == serving_step(line@, json::result_view(*message), bound),
{
    if bound || rpc::message_has_method(message, "tools/list") {
        return ClientStep::Serve { line };
    }
    match rpc::message_id_value(message) {
        Some(id) => {
            let line = rpc::jsonrpc_error_response(
                id,
                -32000,
                "session bind required for MCP forwarding",
            );
            ClientStep::Reply { line }
        },
        None => ClientStep::Skip,
    }
}

/// What is to be done with a line from a client.
pub open spec fn client_step(raw: Seq<char>, bound: bool) -> ClientStepView {
    let line = text::trimmed_end(raw);
    if line.len() == 0 {
        ClientStepView::Skip
    } else {
        match text::after(line, CONTROL_PREFIX@) {
            Some(command) => ClientStepView::Control { name: command_label(command), command },
            None => request_step(line, bound),
        }
    }
}

/// What is to be done with a line from a client that has bound a session, or has not.
pub fn handle_daemon_client(raw: &str, bound: bool) -> (r: ClientStep)
    ensures
        r@ == client_step(raw@, bound),
{
    let line = trim_end(raw);
    let line = line.as_str();
    if line.unicode_len() == 0 {
        return ClientStep::Skip;
    }
    match strip_prefix(line, CONTROL_PREFIX) {
        Some(command) => {
            let name = control_label(command.as_str());
            return ClientStep::Control { name, command };
        },
        None => {},
    }
    let message = Json::parse(line);
    match answer_opening(&message) {
        Some(step) => step,
        None => {
            let forwarded = rpc::sanitize_message(line, message);
            let again = Json::parse(forwarded.as_str());
            serve_request(forwarded, &again, bound)
        },
    }
}

/// What waiting for the answer to a forwarded request came to.
pub enum WaitEvent {
    /// The answer is there.
    Answered(Result<Vec<String>, String>),
    /// It is not there yet; `gone` if the client has hung up meanwhile.
    Waiting { gone: bool },
    /// It will not come.
    Abandoned,
}

/// The end of waiting for an answer.
pub open spec fn waited(event: WaitEvent) -> Option<
    Result<Seq<Seq<char>>, crate::mcp::ErrorView>,
> {
    match event {
        WaitEvent::Answered(Ok(lines)) => Some(Ok(text::texts(lines@))),
        WaitEvent::Answered(Err(message)) => Some(Err(crate::mcp::ErrorView::Fatal(message@))),
        WaitEvent::Waiting { gone } => if gone {
            Some(
                Err(
                    crate::mcp::ErrorView::Client(
                        "daemon client disconnected during MCP forward"@,
                    ),
                ),
            )
        } else {
            None
        },
        WaitEvent::Abandoned => Some(
            Err(
                crate::mcp::ErrorView::Fatal(
                    "failed to receive MCP response: channel disconnected"@,
                ),
            ),
        ),
    }
}

/// Whether waiting for an answer is over, and with what.
pub fn wait_forward_response(event: WaitEvent) -> (r: Option<Result<Vec<String>, DaemonError>>)
    ensures
        match r {
            None => waited(event) is None,
            Some(Ok(lines)) => waited(event) == Some(
                Ok::<Seq<Seq<char>>, crate::mcp::ErrorView>(text::texts(lines@)),
            ),
            Some(Err(error)) => waited(event) == Some(
                Err::<Seq<Seq<char>>, crate::mcp::ErrorView>(error@),
            ),
        },
{
    match event {
        WaitEvent::Answered(Ok(lines)) => Some(Ok(lines)),
        WaitEvent::Answered(Err(message)) => Some(Err(DaemonError::Fatal(message))),
        WaitEvent::Waiting { gone } => {
            if gone {
                Some(
                    Err(
                        DaemonError::Client(
                            "daemon client disconnected during MCP forward".to_string(),
                        ),
                    ),
                )
            } else {
                None
            }
        },
        WaitEvent::Abandoned => Some(
            Err(
                DaemonError::Fatal(
                    "failed to receive MCP response: channel disconnected".to_string(),
                ),
            ),
        ),
    }
}

/// Without a bound session no tool is served: all that goes on is a request to list the
/// tools.
pub proof fn tools_need_a_bound_session(raw: Seq<char>)
    ensures
        match client_step(raw, false) {
            ClientStepView::Serve { line } => rpc::line_has_method(line, "tools/list"@),
            _ => true,
        },
{
}

/// A daemon that still has sessions ends only when it is forced to; without sessions it
/// always ends when told to.
pub proof fn daemons_in_use_are_not_stopped(
    before: ControlView,
    rest: Seq<char>,
    now: int,
    at: int,
    pid: int,
)
    ensures
        ({
            let after = controlled(before, "stop"@, rest, now, at, pid);
            &&& after.sessions == before.sessions
            &&& after.reply is Ok
            &&& (after.reply->Ok_0.outcome is StopDaemon) == (rest == "force"@
                || before.sessions.len() == 0)
        }),
{
}

/// No command but `stop` ends the daemon, and only `bind` lets the connection go on.
pub proof fn commands_have_one_outcome(
    before: ControlView,
    head: Seq<char>,
    rest: Seq<char>,
    now: int,
    at: int,
    pid: int,
)
    ensures
        ({
            let after = controlled(before, head, rest, now, at, pid);
            &&& after.reply is Ok && after.reply->Ok_0.outcome is StopDaemon ==> head == "stop"@
            &&& after.reply is Ok && after.reply->Ok_0.outcome is Continue ==> head == "bind"@
            &&& after.bound != before.bound ==> after.reply is Ok
                && after.reply->Ok_0.outcome is Continue
        }),
{
}

/// A session that a command has bound cannot be bound by another one, nor closed, before
/// it is given back.
pub proof fn bound_sessions_are_kept(
    before: ControlView,
    id: Seq<char>,
    now: int,
    at: int,
    later: int,
    at_later: int,
)
    requires
        session::binding(before.sessions, id, now) is Ok,
    ensures
        ({
            let after = bound_by_command(before, id, now, at);
            &&& after.bound == Some(id)
            &&& bound_by_command(after, id, later, at_later).reply == Ok::<ReplyView, Seq<char>>(
                error_reply(session::session_in_use(id)),
            )
            &&& bound_by_command(after, id, later, at_later).sessions == after.sessions
            &&& closed_by_command(after, id).reply == Ok::<ReplyView, Seq<char>>(
                error_reply(session::session_in_use(id)),
            )
            &&& closed_by_command(after, id).sessions == after.sessions
        }),
{
}

} // verus!
