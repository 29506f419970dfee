//! Talking to the MCP server: reading its lines, answering its own questions, and
//! matching its responses to requests.
use crate::json;
use crate::json::{Json, JsonView};
use crate::queue;
use crate::queue::elapsed;
use crate::rpc;
use crate::rpc::{
    extract_jsonrpc_id, message_has_method, message_id_number, message_id_value,
    message_starts_with, rewrite_message, roots_list_response,
};
use crate::session;
use crate::session::{flag_text, NANOS_PER_MILLI};
use crate::text;
use crate::text::{chars_of, contains, joined, joined3, number_text, same, trim_end};
use std::collections::HashMap;
use vstd::prelude::*;

verus! {

broadcast use vstd::std_specs::hash::group_hash_axioms;

/// What went wrong with a client's connection: only the connection, or the daemon too.
#[derive(Debug)]
pub enum DaemonError {
    Client(String),
    Fatal(String),
}

/// What went wrong with a client's connection.
pub enum ErrorView {
    Client(Seq<char>),
    Fatal(Seq<char>),
}

impl View for DaemonError {
    type V = ErrorView;

    open spec fn view(&self) -> ErrorView {
        match self {
            DaemonError::Client(message) => ErrorView::Client(message@),
            DaemonError::Fatal(message) => ErrorView::Fatal(message@),
        }
    }
}

/// The `Debug` form of a string.
pub uninterp spec fn quoted(s: Seq<char>) -> Seq<char>;

/// Whether a text is made of letters, digits and spaces.
pub open spec fn plain(s: Seq<char>) -> bool {
    forall|i: int|
        0 <= i < s.len() ==> {
            let c = #[trigger] s[i];
            'a' <= c <= 'z' || 'A' <= c <= 'Z' || '0' <= c <= '9' || c == ' '
        }
}

/// Whether `r` is `s` between quotation marks, where `s` is plain.
pub open spec fn quotes_plainly(s: Seq<char>, r: Seq<char>) -> bool {
    plain(s) ==> r == "\""@ + s + "\""@
}

/// The `Debug` of `str`. Letters, digits and spaces stand for themselves between the
/// quotation marks.
#[verifier::external_body]
fn quote(s: &str) -> (r: String)
    ensures
        r@ == quoted(s@),
        quotes_plainly(s@, r@),
{
    format!("{:?}", s)
}

/// An error as a log shows it.
pub open spec fn debug_form(e: ErrorView) -> Seq<char> {
    match e {
        ErrorView::Client(message) => "Client("@ + quoted(message) + ")"@,
        ErrorView::Fatal(message) => "Fatal("@ + quoted(message) + ")"@,
    }
}

/// An error as a log shows it.
pub fn debug_text(e: &DaemonError) -> (r: String)
    ensures
        r@ == debug_form(e@),
        e@ == timed_out() ==> r@ == timeout_text(),
{
    proof {
        lemma_timeout_is_plain();
    }
    match e {
        DaemonError::Client(message) => joined3("Client(", quote(message.as_str()).as_str(), ")"),
        DaemonError::Fatal(message) => {
            let inner = quote(message.as_str());
            joined3("Fatal(", inner.as_str(), ")")
        },
    }
}

/// The error of a request that the MCP server did not answer in time.
pub open spec fn timed_out() -> ErrorView {
    ErrorView::Fatal("MCP request timed out"@)
}

/// How that error shows in the message of a request or a call that failed by it.
pub open spec fn timeout_text() -> Seq<char> {
    "Fatal("@ + ("\""@ + "MCP request timed out"@ + "\""@) + ")"@
}

proof fn lemma_timeout_is_plain()
    ensures
        plain("MCP request timed out"@),
{
    reveal_strlit("MCP request timed out");
}

/// What reading from the MCP server came to.
pub enum ReadEvent {
    /// A read that ended; nothing appended means that the server closed its output.
    Appended(String),
    /// A read that found nothing more for now, and whether the time is up.
    Blocked { appended: String, late: bool },
    /// A read that failed.
    Failed(String),
}

/// What reading from the MCP server came to.
pub enum EventView {
    Appended(Seq<char>),
    Blocked { appended: Seq<char>, late: bool },
    Failed(Seq<char>),
}

impl View for ReadEvent {
    type V = EventView;

    open spec fn view(&self) -> EventView {
        match self {
            ReadEvent::Appended(t) => EventView::Appended(t@),
            ReadEvent::Blocked { appended, late } => EventView::Blocked {
                appended: appended@,
                late: *late,
            },
            ReadEvent::Failed(message) => EventView::Failed(message@),
        }
    }
}

/// Whether a read found nothing more and the time is up.
pub open spec fn is_too_late(event: EventView) -> bool {
    event matches EventView::Blocked { late, .. } && late
}

/// What to do after a read.
pub enum ReadStep {
    /// Read on.
    More,
    /// Write this answer to the server, then read on.
    Reply(String),
    /// This line has arrived.
    Line(String),
    /// Reading is over.
    Failed(DaemonError),
}

/// What to do after a read.
pub enum ReadStepView {
    More,
    Reply(Seq<char>),
    Line(Seq<char>),
    Failed(ErrorView),
}

impl View for ReadStep {
    type V = ReadStepView;

    open spec fn view(&self) -> ReadStepView {
        match self {
            ReadStep::More => ReadStepView::More,
            ReadStep::Reply(t) => ReadStepView::Reply(t@),
            ReadStep::Line(t) => ReadStepView::Line(t@),
            ReadStep::Failed(e) => ReadStepView::Failed(e@),
        }
    }
}

/// Whether a text ends with a newline.
pub open spec fn ends_line(s: Seq<char>) -> bool {
    s.len() > 0 && s.last() == '\n'
}

/// What to do with a line of the server, from what it was read as: its question for the
/// roots is answered on the spot.
pub open spec fn message_step(
    line: Seq<char>,
    message: Result<JsonView, Seq<char>>,
    home: Seq<char>,
) -> ReadStepView {
    if rpc::message_has(message, "roots/list"@) {
        match rpc::message_number(message) {
            Some(id) => ReadStepView::Reply(
                json::json_text(rpc::roots_reply(json::num(id), home)),
            ),
            None => ReadStepView::More,
        }
    } else {
        ReadStepView::Line(line)
    }
}

/// What to do with a line of the server.
pub open spec fn line_step(line: Seq<char>, home: Seq<char>) -> ReadStepView {
    message_step(line, json::json_parse(line), home)
}

/// What to do with a line of the server, from what it was read as.
pub fn take_message(line: String, message: &Result<Json, String>, home: &str) -> (r: ReadStep)
    ensures
        r@ == message_step(line@, json::result_view(*message), home@),
{
    if message_has_method(message, "roots/list") {
        match message_id_number(message) {
            Some(id) => ReadStep::Reply(roots_list_response(Json::uint(id), home)),
            None => ReadStep::More,
        }
    } else {
        ReadStep::Line(line)
    }
}

/// What has been read of an unfinished line, and what to do, after a read.
pub open spec fn reading(partial: Seq<char>, event: EventView, home: Seq<char>) -> (
    Seq<char>,
    ReadStepView,
) {
    match event {
        EventView::Appended(t) => if t.len() == 0 {
            (
                partial,
                ReadStepView::Failed(
                    ErrorView::Fatal("chrome-devtools-mcp closed stdout before responding"@),
                ),
            )
        } else if ends_line(partial + t) {
            (Seq::empty(), line_step(text::trimmed_end(partial + t), home))
        } else {
            (partial + t, ReadStepView::More)
        },
        EventView::Blocked { appended, late } => (
            partial + appended,
            if late {
                ReadStepView::Failed(timed_out())
            } else {
                ReadStepView::More
            },
        ),
        EventView::Failed(message) => (
            partial,
            ReadStepView::Failed(ErrorView::Fatal("failed to read MCP response: "@ + message)),
        ),
    }
}

/// What has been read of an unfinished line.
pub struct LineReader {
    pub partial: String,
}

/// Whether a text ends with a newline.
fn ends_with_newline(s: &str) -> (r: bool)
    ensures
        r == ends_line(s@),
{
    let chars = chars_of(s);
    chars.len() > 0 && chars[chars.len() - 1] == '\n'
}

impl LineReader {
    /// A reader at the start of a line.
    pub fn new() -> (r: LineReader)
        ensures
            r.partial@ == Seq::<char>::empty(),
    {
        let r = LineReader { partial: String::new() };
        assert(r.partial@ =~= Seq::empty());
        r
    }

    /// Takes in what a read came to. What has been read of a line is kept until the rest
    /// of it arrives.
    pub fn read_mcp_response_line_until(&mut self, event: ReadEvent, home: &str) -> (r: ReadStep)
        ensures
            (final(self).partial@, r@) == reading(old(self).partial@, event@, home@),
    {
        match event {
            ReadEvent::Appended(t) => {
                if t.as_str().unicode_len() == 0 {
                    return ReadStep::Failed(
                        DaemonError::Fatal(
                            "chrome-devtools-mcp closed stdout before responding".to_string(),
                        ),
                    );
                }
                self.partial.append(t.as_str());
                if !ends_with_newline(self.partial.as_str()) {
                    return ReadStep::More;
                }
                let line = trim_end(self.partial.as_str());
                self.partial = String::new();
                assert(self.partial@ =~= Seq::empty());
                let message = Json::parse(line.as_str());
                take_message(line, &message, home)
            },
            ReadEvent::Blocked { appended, late } => {
                self.partial.append(appended.as_str());
                if late {
                    ReadStep::Failed(DaemonError::Fatal("MCP request timed out".to_string()))
                } else {
                    ReadStep::More
                }
            },
            ReadEvent::Failed(message) => ReadStep::Failed(
                DaemonError::Fatal(joined("failed to read MCP response: ", message.as_str())),
            ),
        }
    }
}

/// A list of reads.
pub open spec fn event_views(events: Seq<ReadEvent>) -> Seq<EventView> {
    events.map_values(|e: ReadEvent| e@)
}

/// What came of a list of reads: a line or an error, or nothing yet.
pub struct ReceiptView {
    pub outcome: Option<Result<Seq<char>, ErrorView>>,
    pub partial: Seq<char>,
    pub used: int,
    pub written: Seq<Seq<char>>,
}

/// Reading up to the next line, from the `i`th read on.
pub open spec fn received(
    partial: Seq<char>,
    events: Seq<EventView>,
    i: int,
    written: Seq<Seq<char>>,
    home: Seq<char>,
) -> ReceiptView
    decreases events.len() - i,
{
    if i < 0 || i >= events.len() {
        ReceiptView { outcome: None, partial, used: i, written }
    } else {
        let (next, step) = reading(partial, events[i], home);
        match step {
            ReadStepView::More => received(next, events, i + 1, written, home),
            ReadStepView::Reply(t) => received(next, events, i + 1, written.push(t), home),
            ReadStepView::Line(line) => ReceiptView {
                outcome: Some(Ok(line)),
                partial: next,
                used: i + 1,
                written,
            },
            ReadStepView::Failed(e) => ReceiptView {
                outcome: Some(Err(e)),
                partial: next,
                used: i + 1,
                written,
            },
        }
    }
}

/// A queue of reads with what is left of an unfinished line.
pub struct McpInput {
    pub reader: LineReader,
    pub events: Vec<ReadEvent>,
    pub next: usize,
}

/// A result of reading as a value of the specification.
pub open spec fn line_outcome(r: Option<Result<String, DaemonError>>) -> Option<
    Result<Seq<char>, ErrorView>,
> {
    match r {
        Some(Ok(line)) => Some(Ok(line@)),
        Some(Err(e)) => Some(Err(e@)),
        None => None,
    }
}

impl McpInput {
    /// A queue at its start.
    pub fn new(events: Vec<ReadEvent>) -> (r: McpInput)
        ensures
            r.events == events,
            r.next == 0,
            r.reader.partial@ == Seq::<char>::empty(),
    {
        McpInput { reader: LineReader::new(), events, next: 0 }
    }

    /// Takes the next read out of the queue.
    fn take(&mut self) -> (r: Option<ReadEvent>)
        ensures
            final(self).reader == old(self).reader,
            final(self).events@.len() == old(self).events@.len(),
            match r {
                Some(e) => old(self).next < old(self).events.len() && e@ == old(self).events[old(
                    self,
                ).next as int]@ && final(self).next == old(self).next + 1 && event_views(
                    final(self).events@,
                ) == event_views(old(self).events@),
                None => old(self).next >= old(self).events.len() && *final(self) == *old(self),
            },
    {
        if self.next < self.events.len() {
            let i: usize = self.next;
            let event = match &self.events[i] {
                ReadEvent::Appended(t) => ReadEvent::Appended(t.clone()),
                ReadEvent::Blocked { appended, late } => ReadEvent::Blocked {
                    appended: appended.clone(),
                    late: *late,
                },
                ReadEvent::Failed(message) => ReadEvent::Failed(message.clone()),
            };
            self.next = i + 1;
            Some(event)
        } else {
            None
        }
    }
}

/// Reads up to the next line of the MCP server, answering its questions on the way.
/// Nothing is returned where the reads at hand end before it.
pub fn read_mcp_response_line(
    written: &mut Vec<String>,
    input: &mut McpInput,
    home: &str,
) -> (r: Option<Result<String, DaemonError>>)
    ensures
        ({
            let receipt = received(
                old(input).reader.partial@,
                event_views(old(input).events@),
                old(input).next as int,
                text::texts(old(written)@),
                home@,
            );
            &&& line_outcome(r) == receipt.outcome
            &&& final(input).reader.partial@ == receipt.partial
            &&& final(input).next == receipt.used
            &&& event_views(final(input).events@) == event_views(old(input).events@)
            &&& text::texts(final(written)@) == receipt.written
        }),
{
    let ghost all = event_views(input.events@);
    let ghost target = received(
        input.reader.partial@,
        all,
        input.next as int,
        text::texts(written@),
        home@,
    );
    loop
        invariant
            all == event_views(old(input).events@),
            all == event_views(input.events@),
            target == received(
                old(input).reader.partial@,
                all,
                old(input).next as int,
                text::texts(old(written)@),
                home@,
            ),
            target == received(
                input.reader.partial@,
                all,
                input.next as int,
                text::texts(written@),
                home@,
            ),
        decreases input.events.len() - input.next,
    {
        match input.take() {
            Some(event) => {
                assert(event@ == all[input.next - 1]);
                match input.reader.read_mcp_response_line_until(event, home) {
                    ReadStep::More => {},
                    ReadStep::Reply(t) => {
                        proof {
                            text::lemma_texts_push(written@, t);
                        }
                        written.push(t);
                    },
                    ReadStep::Line(line) => {
                        return Some(Ok(line));
                    },
                    ReadStep::Failed(e) => {
                        return Some(Err(e));
                    },
                }
            },
            None => {
                return None;
            },
        }
    }
}

/// Reading uses the reads at hand, and at least one where it comes to an end.
proof fn lemma_received(
    partial: Seq<char>,
    events: Seq<EventView>,
    i: int,
    written: Seq<Seq<char>>,
    home: Seq<char>,
)
    ensures
        i <= received(partial, events, i, written, home).used,
        received(partial, events, i, written, home).outcome is Some ==> i < received(
            partial,
            events,
            i,
            written,
            home,
        ).used <= events.len(),
    decreases events.len() - i,
{
    if 0 <= i < events.len() {
        let (next, step) = reading(partial, events[i], home);
        match step {
            ReadStepView::More => lemma_received(next, events, i + 1, written, home),
            ReadStepView::Reply(t) => lemma_received(next, events, i + 1, written.push(t), home),
            _ => {},
        }
    }
}

/// What came of waiting for a response.
pub struct DrainView {
    pub outcome: Option<Result<(), ErrorView>>,
    pub partial: Seq<char>,
    pub used: int,
    pub written: Seq<Seq<char>>,
}

/// Reading on until the response with this id has arrived; other lines are dropped.
pub open spec fn drained(
    partial: Seq<char>,
    events: Seq<EventView>,
    i: int,
    written: Seq<Seq<char>>,
    pending: u64,
    home: Seq<char>,
) -> DrainView
    decreases events.len() - i,
{
    let receipt = received(partial, events, i, written, home);
    match receipt.outcome {
        Some(Ok(line)) => if rpc::line_id(line) == Some(pending) {
            DrainView {
                outcome: Some(Ok(())),
                partial: receipt.partial,
                used: receipt.used,
                written: receipt.written,
            }
        } else if i < receipt.used <= events.len() {
            drained(receipt.partial, events, receipt.used, receipt.written, pending, home)
        } else {
            DrainView {
                outcome: None,
                partial: receipt.partial,
                used: receipt.used,
                written: receipt.written,
            }
        },
        Some(Err(e)) => DrainView {
            outcome: Some(Err(e)),
            partial: receipt.partial,
            used: receipt.used,
            written: receipt.written,
        },
        None => DrainView {
            outcome: None,
            partial: receipt.partial,
            used: receipt.used,
            written: receipt.written,
        },
    }
}

/// An outcome of waiting as a value of the specification.
pub open spec fn unit_outcome(r: Option<Result<(), DaemonError>>) -> Option<
    Result<(), ErrorView>,
> {
    match r {
        Some(Ok(())) => Some(Ok(())),
        Some(Err(e)) => Some(Err(e@)),
        None => None,
    }
}

/// Reads on until the response with this id has arrived, unless it is the line that was
/// read already.
pub fn drain_pending_mcp_response(
    written: &mut Vec<String>,
    input: &mut McpInput,
    pending_id: u64,
    already_read_line: &str,
    home: &str,
) -> (r: Option<Result<(), DaemonError>>)
    ensures
        ({
            let drain = if rpc::line_id(already_read_line@) == Some(pending_id) {
                DrainView {
                    outcome: Some(Ok(())),
                    partial: old(input).reader.partial@,
                    used: old(input).next as int,
                    written: text::texts(old(written)@),
                }
            } else {
                drained(
                    old(input).reader.partial@,
                    event_views(old(input).events@),
                    old(input).next as int,
                    text::texts(old(written)@),
                    pending_id,
                    home@,
                )
            };
            &&& unit_outcome(r) == drain.outcome
            &&& final(input).reader.partial@ == drain.partial
            &&& final(input).next == drain.used
            &&& event_views(final(input).events@) == event_views(old(input).events@)
            &&& text::texts(final(written)@) == drain.written
        }),
{
    if extract_jsonrpc_id(already_read_line) == Some(pending_id) {
        return Some(Ok(()));
    }
    let ghost all = event_views(input.events@);
    loop
        invariant
            all == event_views(old(input).events@),
            all == event_views(input.events@),
            all.len() == input.events.len(),
            drained(
                old(input).reader.partial@,
                all,
                old(input).next as int,
                text::texts(old(written)@),
                pending_id,
                home@,
            ) == drained(
                input.reader.partial@,
                all,
                input.next as int,
                text::texts(written@),
                pending_id,
                home@,
            ),
            rpc::line_id(already_read_line@) != Some(pending_id),
        decreases input.events.len() - input.next,
    {
        proof {
            lemma_received(
                input.reader.partial@,
                all,
                input.next as int,
                text::texts(written@),
                home@,
            );
        }
        let got = read_mcp_response_line(written, input, home);
        assert(event_views(input.events@).len() == input.events.len());
        match got {
            Some(Ok(line)) => {
                if extract_jsonrpc_id(line.as_str()) == Some(pending_id) {
                    return Some(Ok(()));
                }
            },
            Some(Err(e)) => {
                return Some(Err(e));
            },
            None => {
                return None;
            },
        }
    }
}

/// A request that waits for its response.
pub struct Exchange {
    /// The id under which the client knows the request.
    pub original_id: Json,
    /// The id under which the server knows it.
    pub internal_id: u64,
    /// What the server has sent meanwhile.
    pub lines: Vec<String>,
}

/// A request that waits for its response.
pub struct ExchangeView {
    pub original: JsonView,
    pub internal: u64,
    pub lines: Seq<Seq<char>>,
}

impl View for Exchange {
    type V = ExchangeView;

    open spec fn view(&self) -> ExchangeView {
        ExchangeView {
            original: self.original_id@,
            internal: self.internal_id,
            lines: text::texts(self.lines@),
        }
    }
}

/// What to do next about a request.
pub enum ForwardStep {
    /// Read on.
    More,
    /// Write this to the log, then read on.
    Note(String),
    /// Write this answer to the server, then read on.
    Reply(String),
    /// Hand these lines to the client.
    Done(Vec<String>),
    /// The request has failed.
    Failed(String),
}

/// What to do next about a request.
pub enum ForwardStepView {
    More,
    Note(Seq<char>),
    Reply(Seq<char>),
    Done(Seq<Seq<char>>),
    Failed(Seq<char>),
}

impl View for ForwardStep {
    type V = ForwardStepView;

    open spec fn view(&self) -> ForwardStepView {
        match self {
            ForwardStep::More => ForwardStepView::More,
            ForwardStep::Note(t) => ForwardStepView::Note(t@),
            ForwardStep::Reply(t) => ForwardStepView::Reply(t@),
            ForwardStep::Done(lines) => ForwardStepView::Done(text::texts(lines@)),
            ForwardStep::Failed(message) => ForwardStepView::Failed(message@),
        }
    }
}

/// The id after `id`; it wraps.
pub open spec fn next_id_after(id: u64) -> u64 {
    session::next_epoch(id)
}

/// What the log says of a notification of the server.
pub open spec fn dropped_note(line: Seq<char>) -> Seq<char> {
    "mcp_notification dropped="@ + line
}

/// What a line of the server means for a request, from what it was read as: its response
/// ends it, under the id of the client; a notification is dropped; anything else is kept for
/// the client.
pub open spec fn forward_message_step(
    x: ExchangeView,
    line: Seq<char>,
    message: Result<JsonView, Seq<char>>,
) -> (ExchangeView, ForwardStepView) {
    if rpc::message_number(message) == Some(x.internal) {
        match rpc::rewritten(message, x.original) {
            Ok(t) => (
                ExchangeView { lines: x.lines.push(t), ..x },
                ForwardStepView::Done(x.lines.push(t)),
            ),
            Err(message) => (x, ForwardStepView::Failed(message)),
        }
    } else if rpc::message_begins(message, "notifications/"@) {
        (x, ForwardStepView::Note(dropped_note(line)))
    } else {
        (ExchangeView { lines: x.lines.push(line), ..x }, ForwardStepView::More)
    }
}

/// Whether a message is the late response to a request given up on.
pub open spec fn is_late(
    abandoned: Map<u64, i128>,
    message: Result<JsonView, Seq<char>>,
) -> bool {
    match rpc::message_number(message) {
        Some(id) => abandoned.contains_key(id),
        None => false,
    }
}

/// Whether the text of a response tells of an error.
pub open spec fn tells_of_error(line: Seq<char>) -> bool {
    text::holds(line, "\"isError\":true"@) || text::holds(line, "\"error\""@)
}

/// What the log says of a late response to the request that was given up on at a time.
pub open spec fn late_note(id: u64, at: int, line: Seq<char>, now: int) -> Seq<char> {
    "abandoned_response internal_id="@ + text::decimal(id as nat) + " arrived_after_timeout_ms="@
        + text::decimal(queue::span(at, now) as nat / 1_000_000) + " is_error="@ + session::flag(
        tells_of_error(line),
    )
}

/// The requests given up on after an error: one that timed out joins them.
pub open spec fn given_up(
    abandoned: Map<u64, i128>,
    id: u64,
    e: ErrorView,
    now: i128,
) -> Map<u64, i128> {
    if e == timed_out() {
        abandoned.insert(id, now)
    } else {
        abandoned
    }
}

/// Everything a line of the server does to a request, from what it was read as: the
/// request, the requests given up on, and what to do next. A late response to one of those
/// takes it off the list.
pub open spec fn forward_message(
    x: ExchangeView,
    abandoned: Map<u64, i128>,
    line: Seq<char>,
    message: Result<JsonView, Seq<char>>,
    now: i128,
) -> (ExchangeView, Map<u64, i128>, ForwardStepView) {
    if is_late(abandoned, message) {
        let id = rpc::message_number(message)->0;
        (
            x,
            abandoned.remove(id),
            ForwardStepView::Note(late_note(id, abandoned[id] as int, line, now as int)),
        )
    } else {
        let (y, what) = forward_message_step(x, line, message);
        (y, abandoned, what)
    }
}

/// Everything a read does to a request: the request, what has been read of a line, the
/// requests given up on, and what to do next.
pub open spec fn forwarding(
    x: ExchangeView,
    partial: Seq<char>,
    abandoned: Map<u64, i128>,
    event: EventView,
    home: Seq<char>,
    now: i128,
) -> (ExchangeView, Seq<char>, Map<u64, i128>, ForwardStepView) {
    let (next, step) = reading(partial, event, home);
    match step {
        ReadStepView::More => (x, next, abandoned, ForwardStepView::More),
        ReadStepView::Reply(t) => (x, next, abandoned, ForwardStepView::Reply(t)),
        ReadStepView::Failed(e) => (
            x,
            next,
            given_up(abandoned, x.internal, e, now),
            ForwardStepView::Failed(debug_form(e)),
        ),
        ReadStepView::Line(line) => {
            let (y, left, what) = forward_message(
                x,
                abandoned,
                line,
                json::json_parse(line),
                now,
            );
            (y, next, left, what)
        },
    }
}

/// Takes the request off the list of those given up on to which a line is the late response,
/// if it is one, and tells what the log is to say of it.
pub fn take_abandoned(
    abandoned: &mut HashMap<u64, i128>,
    line: &str,
    message: &Result<Json, String>,
    now: i128,
) -> (r: Option<String>)
    ensures
        match r {
            Some(note) => {
                let id = rpc::message_number(json::result_view(*message))->0;
                &&& is_late(old(abandoned)@, json::result_view(*message))
                &&& final(abandoned)@ == old(abandoned)@.remove(id)
                &&& note@ == late_note(id, old(abandoned)@[id] as int, line@, now as int)
            },
            None => !is_late(old(abandoned)@, json::result_view(*message)) && final(abandoned)@
                == old(abandoned)@,
        },
{
    match message_id_number(message) {
        Some(id) => match abandoned.remove(&id) {
            Some(at) => {
                let waited: u128 = elapsed(at, now) / NANOS_PER_MILLI;
                let failed = contains(line, "\"isError\":true") || contains(line, "\"error\"");
                let mut note = joined(
                    "abandoned_response internal_id=",
                    number_text(id as u128).as_str(),
                );
                note.append(" arrived_after_timeout_ms=");
                note.append(number_text(waited).as_str());
                note.append(" is_error=");
                note.append(flag_text(failed));
                Some(note)
            },
            None => {
                assert(old(abandoned)@.remove(id) =~= old(abandoned)@);
                None
            },
        },
        None => None,
    }
}

/// Notes a request that timed out among those given up on.
fn note_abandoned(abandoned: &mut HashMap<u64, i128>, id: u64, e: &DaemonError, now: i128)
    ensures
        final(abandoned)@ == given_up(old(abandoned)@, id, e@, now),
{
    if let DaemonError::Fatal(message) = e {
        if same(message.as_str(), "MCP request timed out") {
            abandoned.insert(id, now);
        }
    }
}

impl Exchange {
    /// Takes in a line of the server that is no late response, with what it was read as.
    fn on_line(&mut self, line: String, message: Result<Json, String>) -> (r: ForwardStep)
        ensures
            (final(self)@, r@) == forward_message_step(
                old(self)@,
                line@,
                json::result_view(message),
            ),
    {
        if message_id_number(&message) == Some(self.internal_id) {
            match rewrite_message(message, self.original_id.copy()) {
                Ok(t) => {
                    proof {
                        text::lemma_texts_push(self.lines@, t);
                    }
                    self.lines.push(t);
                    let mut lines: Vec<String> = Vec::new();
                    let mut i: usize = 0;
                    while i < self.lines.len()
                        invariant
                            i <= self.lines.len(),
                            text::texts(lines@) =~= text::texts(self.lines@).take(i as int),
                        decreases self.lines.len() - i,
                    {
                        let copied = self.lines[i].clone();
                        proof {
                            text::lemma_texts_push(lines@, copied);
                        }
                        lines.push(copied);
                        i = i + 1;
                    }
                    assert(text::texts(lines@) =~= text::texts(self.lines@));
                    ForwardStep::Done(lines)
                },
                Err(message) => ForwardStep::Failed(message),
            }
        } else if message_starts_with(&message, "notifications/") {
            ForwardStep::Note(joined("mcp_notification dropped=", line.as_str()))
        } else {
            proof {
                text::lemma_texts_push(self.lines@, line);
            }
            self.lines.push(line);
            ForwardStep::More
        }
    }

    /// Takes in a line of the server, with what it was read as.
    pub fn on_message(
        &mut self,
        abandoned: &mut HashMap<u64, i128>,
        line: String,
        message: Result<Json, String>,
        now: i128,
    ) -> (r: ForwardStep)
        ensures
            (final(self)@, final(abandoned)@, r@) == forward_message(
                old(self)@,
                old(abandoned)@,
                line@,
                json::result_view(message),
                now,
            ),
    {
        match take_abandoned(abandoned, line.as_str(), &message, now) {
            Some(note) => ForwardStep::Note(note),
            None => self.on_line(line, message),
        }
    }

    /// Takes in what a read came to.
    pub fn on_event(
        &mut self,
        reader: &mut LineReader,
        abandoned: &mut HashMap<u64, i128>,
        event: ReadEvent,
        home: &str,
        now: i128,
    ) -> (r: ForwardStep)
        ensures
            (final(self)@, final(reader).partial@, final(abandoned)@, r@) == forwarding(
                old(self)@,
                old(reader).partial@,
                old(abandoned)@,
                event@,
                home@,
                now,
            ),
            final(self).internal_id == old(self).internal_id,
            is_too_late(event@) ==> r@ == ForwardStepView::Failed(timeout_text()),
    {
        match reader.read_mcp_response_line_until(event, home) {
            ReadStep::More => ForwardStep::More,
            ReadStep::Reply(t) => ForwardStep::Reply(t),
            ReadStep::Failed(e) => {
                note_abandoned(abandoned, self.internal_id, &e, now);
                ForwardStep::Failed(debug_text(&e))
            },
            ReadStep::Line(line) => {
                let message = Json::parse(line.as_str());
                self.on_message(abandoned, line, message, now)
            },
        }
    }
}

/// How forwarding a line begins.
pub enum ForwardStart {
    /// The line is written as it is and has no response.
    Notify,
    /// This text is written, and its response is waited for.
    Sent { forwarded: String, exchange: Exchange },
}

/// How forwarding a line begins.
pub enum ForwardStartView {
    Notify,
    Sent { forwarded: Seq<char>, exchange: ExchangeView },
}

impl View for ForwardStart {
    type V = ForwardStartView;

    open spec fn view(&self) -> ForwardStartView {
        match self {
            ForwardStart::Notify => ForwardStartView::Notify,
            ForwardStart::Sent { forwarded, exchange } => ForwardStartView::Sent {
                forwarded: forwarded@,
                exchange: exchange@,
            },
        }
    }
}

/// How forwarding a message begins, where the server is to know it by `id`: one without an
/// id has no response.
pub open spec fn message_start(message: Result<JsonView, Seq<char>>, id: u64) -> Result<
    ForwardStartView,
    Seq<char>,
> {
    match rpc::id_in(message) {
        None => Ok(ForwardStartView::Notify),
        Some(original) => match rpc::rewritten(message, json::num(id)) {
            Ok(t) => Ok(
                ForwardStartView::Sent {
                    forwarded: t,
                    exchange: ExchangeView { original, internal: id, lines: Seq::empty() },
                },
            ),
            Err(message) => Err(message),
        },
    }
}

/// How forwarding a line begins.
pub open spec fn forward_start(line: Seq<char>, id: u64) -> Result<ForwardStartView, Seq<char>> {
    message_start(json::json_parse(line), id)
}

/// Begins forwarding under the next id what a line was read as.
pub fn begin_message(message: Result<Json, String>, next_id: &mut u64) -> (r: Result<
    ForwardStart,
    String,
>)
    ensures
        match r {
            Ok(start) => message_start(json::result_view(message), *old(next_id)) == Ok::<
                _,
                Seq<char>,
            >(start@),
            Err(error) => message_start(json::result_view(message), *old(next_id)) == Err::<
                ForwardStartView,
                _,
            >(error@),
        },
        *final(next_id) == (if rpc::id_in(json::result_view(message)) is Some {
            next_id_after(*old(next_id))
        } else {
            *old(next_id)
        }),
{
    match message_id_value(&message) {
        Some(original_id) => {
            let internal_id: u64 = *next_id;
            *next_id = internal_id.wrapping_add(1);
            match rewrite_message(message, Json::uint(internal_id)) {
                Ok(forwarded) => {
                    let exchange = Exchange { original_id, internal_id, lines: Vec::new() };
                    assert(exchange@.lines =~= Seq::empty());
                    Ok(ForwardStart::Sent { forwarded, exchange })
                },
                Err(error) => Err(error),
            }
        },
        None => Ok(ForwardStart::Notify),
    }
}

/// Begins forwarding a line under the next id.
pub fn begin_forward(line: &str, next_id: &mut u64) -> (r: Result<ForwardStart, String>)
    ensures
        match r {
            Ok(start) => forward_start(line@, *old(next_id)) == Ok::<_, Seq<char>>(start@),
            Err(message) => forward_start(line@, *old(next_id)) == Err::<ForwardStartView, _>(
                message@,
            ),
        },
        *final(next_id) == (if rpc::line_id_value(line@) is Some {
            next_id_after(*old(next_id))
        } else {
            *old(next_id)
        }),
{
    begin_message(Json::parse(line), next_id)
}

/// What came of forwarding over a list of reads.
pub struct ForwardView {
    pub outcome: Option<Result<Seq<Seq<char>>, Seq<char>>>,
    pub partial: Seq<char>,
    pub used: int,
    pub written: Seq<Seq<char>>,
    pub abandoned: Map<u64, i128>,
}

/// Waiting for a response, from the `i`th read on.
pub open spec fn forward_run(
    x: ExchangeView,
    partial: Seq<char>,
    abandoned: Map<u64, i128>,
    events: Seq<EventView>,
    i: int,
    written: Seq<Seq<char>>,
    home: Seq<char>,
    now: i128,
) -> ForwardView
    decreases events.len() - i,
{
    if i < 0 || i >= events.len() {
        ForwardView { outcome: None, partial, used: i, written, abandoned }
    } else {
        let (y, next, left, step) = forwarding(x, partial, abandoned, events[i], home, now);
        match step {
            ForwardStepView::More | ForwardStepView::Note(_) => forward_run(
                y,
                next,
                left,
                events,
                i + 1,
                written,
                home,
                now,
            ),
            ForwardStepView::Reply(t) => forward_run(
                y,
                next,
                left,
                events,
                i + 1,
                written.push(t),
                home,
                now,
            ),
            ForwardStepView::Done(lines) => ForwardView {
                outcome: Some(Ok(lines)),
                partial: next,
                used: i + 1,
                written,
                abandoned: left,
            },
            ForwardStepView::Failed(message) => ForwardView {
                outcome: Some(Err(message)),
                partial: next,
                used: i + 1,
                written,
                abandoned: left,
            },
        }
    }
}

/// Forwarding a line over a list of reads: what is written to the server comes first.
pub open spec fn forwarded_line(
    line: Seq<char>,
    id: u64,
    partial: Seq<char>,
    abandoned: Map<u64, i128>,
    events: Seq<EventView>,
    i: int,
    written: Seq<Seq<char>>,
    home: Seq<char>,
    now: i128,
) -> ForwardView {
    match forward_start(line, id) {
        Ok(ForwardStartView::Notify) => ForwardView {
            outcome: Some(Ok(Seq::empty())),
            partial,
            used: i,
            written: written.push(line),
            abandoned,
        },
        Ok(ForwardStartView::Sent { forwarded, exchange }) => forward_run(
            exchange,
            partial,
            abandoned,
            events,
            i,
            written.push(forwarded),
            home,
            now,
        ),
        Err(message) => ForwardView {
            outcome: Some(Err(message)),
            partial,
            used: i,
            written,
            abandoned,
        },
    }
}

/// An outcome of forwarding as a value of the specification.
pub open spec fn lines_outcome(r: Option<Result<Vec<String>, String>>) -> Option<
    Result<Seq<Seq<char>>, Seq<char>>,
> {
    match r {
        Some(Ok(lines)) => Some(Ok(text::texts(lines@))),
        Some(Err(message)) => Some(Err(message@)),
        None => None,
    }
}

/// Forwards a line to the MCP server and gathers what the client is to see: the response
/// under the client's id, and what came before it, without the server's notifications.
/// Nothing is returned where the reads at hand end before the response. No log is kept.
pub fn forward_line(
    written: &mut Vec<String>,
    input: &mut McpInput,
    line: &str,
    next_id: &mut u64,
    abandoned: &mut HashMap<u64, i128>,
    home: &str,
    now: i128,
) -> (r: Option<Result<Vec<String>, String>>)
    ensures
        ({
            let run = forwarded_line(
                line@,
                *old(next_id),
                old(input).reader.partial@,
                old(abandoned)@,
                event_views(old(input).events@),
                old(input).next as int,
                text::texts(old(written)@),
                home@,
                now,
            );
            &&& lines_outcome(r) == run.outcome
            &&& final(input).reader.partial@ == run.partial
            &&& final(input).next == run.used
            &&& event_views(final(input).events@) == event_views(old(input).events@)
            &&& text::texts(final(written)@) == run.written
            &&& final(abandoned)@ == run.abandoned
        }),
        *final(next_id) == (if rpc::line_id_value(line@) is Some {
            next_id_after(*old(next_id))
        } else {
            *old(next_id)
        }),
        final(input).next > old(input).next && is_too_late(
            event_views(old(input).events@)[final(input).next - 1],
        ) ==> lines_outcome(r) == Some(Err::<Seq<Seq<char>>, _>(timeout_text())),
{
    let ghost all = event_views(input.events@);
    let (forwarded, mut exchange) = match begin_forward(line, next_id) {
        Ok(ForwardStart::Sent { forwarded, exchange }) => (forwarded, exchange),
        Ok(ForwardStart::Notify) => {
            let notice = line.to_string();
            proof {
                text::lemma_texts_push(written@, notice);
            }
            written.push(notice);
            let lines: Vec<String> = Vec::new();
            assert(text::texts(lines@) =~= Seq::empty());
            return Some(Ok(lines));
        },
        Err(message) => {
            return Some(Err(message));
        },
    };
    proof {
        text::lemma_texts_push(written@, forwarded);
    }
    written.push(forwarded);
    let ghost target = forwarded_line(
        line@,
        *old(next_id),
        old(input).reader.partial@,
        old(abandoned)@,
        all,
        old(input).next as int,
        text::texts(old(written)@),
        home@,
        now,
    );
    let ghost after = *next_id;
    loop
        invariant
            all == event_views(old(input).events@),
            all == event_views(input.events@),
            *next_id == after,
            target == forwarded_line(
                line@,
                *old(next_id),
                old(input).reader.partial@,
                old(abandoned)@,
                all,
                old(input).next as int,
                text::texts(old(written)@),
                home@,
                now,
            ),
            after == (if rpc::line_id_value(line@) is Some {
                next_id_after(*old(next_id))
            } else {
                *old(next_id)
            }),
            target == forward_run(
                exchange@,
                input.reader.partial@,
                abandoned@,
                all,
                input.next as int,
                text::texts(written@),
                home@,
                now,
            ),
            input.next > old(input).next ==> !is_too_late(all[input.next - 1]),
        decreases input.events.len() - input.next,
    {
        match input.take() {
            Some(event) => {
                assert(event@ == all[input.next - 1]);
                match exchange.on_event(&mut input.reader, abandoned, event, home, now) {
                    ForwardStep::More => {},
                    ForwardStep::Note(_) => {},
                    ForwardStep::Reply(t) => {
                        proof {
                            text::lemma_texts_push(written@, t);
                        }
                        written.push(t);
                    },
                    ForwardStep::Done(lines) => {
                        return Some(Ok(lines));
                    },
                    ForwardStep::Failed(message) => {
                        return Some(Err(message));
                    },
                }
            },
            None => {
                return None;
            },
        }
    }
}

/// What to do next about a call of the daemon's own.
pub enum CallStep {
    /// Read on.
    More,
    /// Write this to the log, then read on.
    Note(String),
    /// Write this answer to the server, then read on.
    Reply(String),
    /// This is the response.
    Done(Json),
    /// The call has failed.
    Failed(String),
}

/// What to do next about a call of the daemon's own.
pub enum CallStepView {
    More,
    Note(Seq<char>),
    Reply(Seq<char>),
    Done(JsonView),
    Failed(Seq<char>),
}

impl View for CallStep {
    type V = CallStepView;

    open spec fn view(&self) -> CallStepView {
        match self {
            CallStep::More => CallStepView::More,
            CallStep::Note(t) => CallStepView::Note(t@),
            CallStep::Reply(t) => CallStepView::Reply(t@),
            CallStep::Done(j) => CallStepView::Done(j@),
            CallStep::Failed(message) => CallStepView::Failed(message@),
        }
    }
}

/// A request of the daemon's own under an id.
pub open spec fn numbered(request: JsonView, id: u64) -> JsonView {
    json::put(json::put(request, "jsonrpc"@, json::jstr("2.0"@)), "id"@, json::num(id))
}

/// The text of a request of the daemon's own under the next id, and that id.
pub fn begin_call(request: Json, next_id: &mut u64) -> (r: (u64, String))
    ensures
        r.0 == *old(next_id),
        r.1@ == json::json_text(numbered(request@, *old(next_id))),
        *final(next_id) == next_id_after(*old(next_id)),
{
    let internal_id: u64 = *next_id;
    *next_id = internal_id.wrapping_add(1);
    let numbered = request.with("jsonrpc", Json::str("2.0")).with("id", Json::uint(internal_id));
    (internal_id, numbered.text())
}

/// Everything a line of the server does to a call, from what it was read as: the requests
/// given up on, and what to do next. Lines other than the response are dropped.
pub open spec fn call_message_step(
    id: u64,
    abandoned: Map<u64, i128>,
    line: Seq<char>,
    message: Result<JsonView, Seq<char>>,
    now: i128,
) -> (Map<u64, i128>, CallStepView) {
    if is_late(abandoned, message) {
        let late = rpc::message_number(message)->0;
        (
            abandoned.remove(late),
            CallStepView::Note(late_note(late, abandoned[late] as int, line, now as int)),
        )
    } else if rpc::message_number(message) == Some(id) {
        match message {
            Ok(v) => (abandoned, CallStepView::Done(v)),
            Err(error) => (
                abandoned,
                CallStepView::Failed("failed to parse MCP response: "@ + error),
            ),
        }
    } else {
        (abandoned, CallStepView::More)
    }
}

/// Takes in a line of the server, with what it was read as, while a call of the daemon's own
/// waits for its response.
pub fn call_message(
    internal_id: u64,
    abandoned: &mut HashMap<u64, i128>,
    line: &str,
    message: Result<Json, String>,
    now: i128,
) -> (r: CallStep)
    ensures
        (final(abandoned)@, r@) == call_message_step(
            internal_id,
            old(abandoned)@,
            line@,
            json::result_view(message),
            now,
        ),
{
    match take_abandoned(abandoned, line, &message, now) {
        Some(note) => {
            return CallStep::Note(note);
        },
        None => {},
    }
    if message_id_number(&message) == Some(internal_id) {
        match message {
            Ok(value) => CallStep::Done(value),
            Err(error) => CallStep::Failed(
                joined("failed to parse MCP response: ", error.as_str()),
            ),
        }
    } else {
        CallStep::More
    }
}

/// Everything a read does to a call: what has been read of a line, the requests given up
/// on, and what to do next.
pub open spec fn calling(
    id: u64,
    partial: Seq<char>,
    abandoned: Map<u64, i128>,
    event: EventView,
    home: Seq<char>,
    now: i128,
) -> (Seq<char>, Map<u64, i128>, CallStepView) {
    let (next, step) = reading(partial, event, home);
    match step {
        ReadStepView::More => (next, abandoned, CallStepView::More),
        ReadStepView::Reply(t) => (next, abandoned, CallStepView::Reply(t)),
        ReadStepView::Failed(e) => (
            next,
            given_up(abandoned, id, e, now),
            CallStepView::Failed(debug_form(e)),
        ),
        ReadStepView::Line(line) => {
            let (left, what) = call_message_step(
                id,
                abandoned,
                line,
                json::json_parse(line),
                now,
            );
            (next, left, what)
        },
    }
}

/// Takes in what a read came to while a call of the daemon's own waits for its response.
pub fn call_event(
    internal_id: u64,
    reader: &mut LineReader,
    abandoned: &mut HashMap<u64, i128>,
    event: ReadEvent,
    home: &str,
    now: i128,
) -> (r: CallStep)
    ensures
        (final(reader).partial@, final(abandoned)@, r@) == calling(
            internal_id,
            old(reader).partial@,
            old(abandoned)@,
            event@,
            home@,
            now,
        ),
        is_too_late(event@) ==> r@ == CallStepView::Failed(timeout_text()),
{
    match reader.read_mcp_response_line_until(event, home) {
        ReadStep::More => CallStep::More,
        ReadStep::Reply(t) => CallStep::Reply(t),
        ReadStep::Failed(e) => {
            note_abandoned(abandoned, internal_id, &e, now);
            CallStep::Failed(debug_text(&e))
        },
        ReadStep::Line(line) => {
            let message = Json::parse(line.as_str());
            call_message(internal_id, abandoned, line.as_str(), message, now)
        },
    }
}

/// A message as it is written to a stream.
pub fn write_json_line(message: &str) -> (r: String)
    ensures
        r@ == message@ + "\n"@,
{
    joined(message, "\n")
}

/// What to do with a line while one response is waited for.
pub enum ResponseStep {
    /// Read on.
    More,
    /// Write this answer, then read on.
    Reply(String),
    /// This is the response.
    Done(String),
    /// There will be none.
    Failed(String),
}

/// What to do with a line while one response is waited for.
pub enum ResponseStepView {
    More,
    Reply(Seq<char>),
    Done(Seq<char>),
    Failed(Seq<char>),
}

impl View for ResponseStep {
    type V = ResponseStepView;

    open spec fn view(&self) -> ResponseStepView {
        match self {
            ResponseStep::More => ResponseStepView::More,
            ResponseStep::Reply(t) => ResponseStepView::Reply(t@),
            ResponseStep::Done(t) => ResponseStepView::Done(t@),
            ResponseStep::Failed(message) => ResponseStepView::Failed(message@),
        }
    }
}

/// What to do with a line of a stream while the response with this id is waited for, from
/// what the line was read as.
pub open spec fn awaited_step(
    line: Seq<char>,
    message: Result<JsonView, Seq<char>>,
    target: u64,
    home: Seq<char>,
) -> ResponseStepView {
    match message_step(line, message, home) {
        ReadStepView::Reply(t) => ResponseStepView::Reply(t),
        ReadStepView::Line(_) => if rpc::message_number(message) == Some(target) {
            ResponseStepView::Done(line)
        } else {
            ResponseStepView::More
        },
        _ => ResponseStepView::More,
    }
}

/// Takes in a line of a stream, with what it was read as, while the response with this id is
/// waited for.
pub fn await_message(
    line: String,
    message: &Result<Json, String>,
    target_id: u64,
    home: &str,
) -> (r: ResponseStep)
    ensures
        r@ == awaited_step(line@, json::result_view(*message), target_id, home@),
{
    let awaited = message_id_number(message) == Some(target_id);
    match take_message(line, message, home) {
        ReadStep::Reply(t) => ResponseStep::Reply(t),
        ReadStep::Line(line) => {
            if awaited {
                ResponseStep::Done(line)
            } else {
                ResponseStep::More
            }
        },
        _ => ResponseStep::More,
    }
}

/// What to do with what was read of a stream up to a newline while the response with this
/// id is waited for. Nothing read means that the stream is closed.
pub open spec fn awaiting(raw: Seq<char>, target: u64, home: Seq<char>) -> ResponseStepView {
    if raw.len() == 0 {
        ResponseStepView::Failed("chrome-devtools-mcp closed stdout before responding"@)
    } else {
        let line = text::trimmed_end(raw);
        awaited_step(line, json::json_parse(line), target, home)
    }
}

/// Takes in what was read of a stream up to a newline while the response with this id is
/// waited for.
pub fn read_response(raw: &str, target_id: u64, home: &str) -> (r: ResponseStep)
    ensures
        r@ == awaiting(raw@, target_id, home@),
{
    if raw.unicode_len() == 0 {
        return ResponseStep::Failed(
            "chrome-devtools-mcp closed stdout before responding".to_string(),
        );
    }
    let line = trim_end(raw);
    let message = Json::parse(line.as_str());
    await_message(line, &message, target_id, home)
}

/// The first request to an MCP server, made in the name of a client.
pub open spec fn initialize_request(client: Seq<char>) -> Seq<char> {
    "{\"jsonrpc\":\"2.0\",\"id\":1,\"method\":\"initialize\",\"params\":{\"protocolVersion\":\"2025-06-18\",\"capabilities\":{\"roots\":{\"listChanged\":false}},\"clientInfo\":{\"name\":\""@
        + client + "\",\"version\":\"0.1.0\"}}}"@
}

/// The notice that follows the answer to the first request.
pub open spec fn initialized_notice() -> Seq<char> {
    "{\"jsonrpc\":\"2.0\",\"method\":\"notifications/initialized\",\"params\":{}}"@
}

/// The request for the list of tools.
pub open spec fn tools_list_request() -> Seq<char> {
    "{\"jsonrpc\":\"2.0\",\"id\":2,\"method\":\"tools/list\",\"params\":{}}"@
}

/// The two messages that open a connection to an MCP server: a request, whose response has
/// the id 1, and the notice that follows it.
pub fn initialize_mcp(client: &str) -> (r: (String, String))
    ensures
        r.0@ == initialize_request(client@),
        r.1@ == initialized_notice(),
{
    let request = joined3(
        "{\"jsonrpc\":\"2.0\",\"id\":1,\"method\":\"initialize\",\"params\":{\"protocolVersion\":\"2025-06-18\",\"capabilities\":{\"roots\":{\"listChanged\":false}},\"clientInfo\":{\"name\":\"",
        client,
        "\",\"version\":\"0.1.0\"}}}",
    );
    let notice = "{\"jsonrpc\":\"2.0\",\"method\":\"notifications/initialized\",\"params\":{}}";
    (request, notice.to_string())
}

/// The two messages by which the daemon opens its connection to the MCP server.
pub fn initialize_daemon_mcp() -> (r: (String, String))
    ensures
        r.0@ == initialize_request("chrome-devtools-daemon"@),
        r.1@ == initialized_notice(),
{
    initialize_mcp("chrome-devtools-daemon")
}

/// The request for the list of tools.
pub fn tools_list_line() -> (r: String)
    ensures
        r@ == tools_list_request(),
{
    "{\"jsonrpc\":\"2.0\",\"id\":2,\"method\":\"tools/list\",\"params\":{}}".to_string()
}

/// Reads that find nothing for a while lose nothing of a line.
pub proof fn blocked_reads_lose_nothing(
    partial: Seq<char>,
    first: Seq<char>,
    second: Seq<char>,
    home: Seq<char>,
)
    requires
        second.len() > 0,
    ensures
        reading(
            reading(partial, EventView::Blocked { appended: first, late: false }, home).0,
            EventView::Appended(second),
            home,
        ) == reading(partial, EventView::Appended(first + second), home),
{
    assert((partial + first) + second =~= partial + (first + second));
}

/// Whether a line is a notification of the server.
pub open spec fn is_notification(line: Seq<char>) -> bool {
    rpc::line_method_begins(line, "notifications/"@)
}

/// The client gets the response last and under its own id, and before it no notification
/// of the server.
pub proof fn forwarded_lines_are_the_clients(
    x: ExchangeView,
    partial: Seq<char>,
    abandoned: Map<u64, i128>,
    events: Seq<EventView>,
    i: int,
    written: Seq<Seq<char>>,
    home: Seq<char>,
    now: i128,
)
    requires
        forall|k: int| 0 <= k < x.lines.len() ==> !is_notification(#[trigger] x.lines[k]),
    ensures
        forward_run(x, partial, abandoned, events, i, written, home, now).outcome matches Some(
            Ok(lines),
        ) ==> {
            &&& lines.len() > 0
            &&& forall|k: int| 0 <= k < lines.len() - 1 ==> !is_notification(#[trigger] lines[k])
            &&& exists|v: JsonView|
                json::u64_field(v, "id"@) == Some(x.internal) && lines.last()
                    == #[trigger] json::json_text(json::put(v, "id"@, x.original))
        },
    decreases events.len() - i,
{
    if 0 <= i < events.len() {
        let (y, next, left, step) = forwarding(x, partial, abandoned, events[i], home, now);
        match reading(partial, events[i], home).1 {
            ReadStepView::Line(line) => {
                if !is_late(abandoned, json::json_parse(line)) && rpc::line_id(line) == Some(
                    x.internal,
                ) {
                    let v = json::json_parse(line)->Ok_0;
                    assert(json::u64_field(v, "id"@) == Some(x.internal));
                    assert(step is Done ==> y.lines.last() == json::json_text(
                        json::put(v, "id"@, x.original),
                    ));
                }
            },
            _ => {},
        }
        match step {
            ForwardStepView::More | ForwardStepView::Note(_) => {
                forwarded_lines_are_the_clients(
                    y,
                    next,
                    left,
                    events,
                    i + 1,
                    written,
                    home,
                    now,
                );
            },
            ForwardStepView::Reply(t) => {
                forwarded_lines_are_the_clients(
                    y,
                    next,
                    left,
                    events,
                    i + 1,
                    written.push(t),
                    home,
                    now,
                );
            },
            _ => {},
        }
    }
}

/// A request that timed out is given up on, and its response, when it comes late, is
/// dropped: it neither ends the next request nor reaches its client.
pub proof fn late_responses_are_dropped(
    x: ExchangeView,
    partial: Seq<char>,
    abandoned: Map<u64, i128>,
    waited: Seq<char>,
    home: Seq<char>,
    now: i128,
    y: ExchangeView,
    line: Seq<char>,
    later: i128,
)
    requires
        ends_line(line),
        rpc::line_id(text::trimmed_end(line)) == Some(x.internal),
        !rpc::line_has_method(text::trimmed_end(line), "roots/list"@),
    ensures
        ({
            let (_, _, left, step) = forwarding(
                x,
                partial,
                abandoned,
                EventView::Blocked { appended: waited, late: true },
                home,
                now,
            );
            let (z, _, after, what) = forwarding(
                y,
                Seq::empty(),
                left,
                EventView::Appended(line),
                home,
                later,
            );
            &&& step == ForwardStepView::Failed(debug_form(timed_out()))
            &&& what is Note
            &&& z == y
            &&& after == left.remove(x.internal)
        }),
{
    assert(Seq::<char>::empty() + line =~= line);
}

} // verus!
