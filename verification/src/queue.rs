//! The queue of requests to the MCP server, and what is done with each of them.
use crate::diagnostics::{Diagnostics, DiagnosticsSnapshot, ForwardTiming};
use crate::mcp::DaemonError;
use crate::router;
use crate::session::PageCleanup;
use crate::text;
use crate::text::joined;
use std::collections::HashMap;
use vstd::prelude::*;

verus! {

/// The first id that the daemon gives to a request of its own numbering.
pub const FIRST_REQUEST_ID: u64 = 10_000;

/// How many requests wait, and how long they take.
pub struct RouterHandle {
    pub queued: usize,
    pub diagnostics: Diagnostics,
}

/// One request more.
pub open spec fn one_more(queued: usize) -> usize {
    if queued == usize::MAX {
        0
    } else {
        (queued + 1) as usize
    }
}

/// One request less.
pub open spec fn one_fewer(queued: usize) -> usize {
    if queued == 0 {
        usize::MAX
    } else {
        (queued - 1) as usize
    }
}

/// The error of a request that could not be queued.
pub open spec fn queueing_failed(what: Seq<char>, error: Seq<char>) -> crate::mcp::ErrorView {
    crate::mcp::ErrorView::Fatal("failed to queue MCP "@ + what + ": "@ + error)
}

impl RouterHandle {
    /// An empty queue, with the id for the first request and no request given up yet.
    pub fn start() -> (r: (RouterHandle, u64, HashMap<u64, i128>))
        ensures
            r.0.queued == 0,
            r.0.diagnostics.control@ == Seq::<(i128, u128)>::empty(),
            r.0.diagnostics.forward@ == Seq::<(i128, u128)>::empty(),
            r.1 == FIRST_REQUEST_ID,
            r.2@ == Map::<u64, i128>::empty(),
    {
        (
            RouterHandle { queued: 0, diagnostics: Diagnostics::new() },
            FIRST_REQUEST_ID,
            HashMap::new(),
        )
    }

    /// Counts a request to forward; tells how many wait, that one among them.
    pub fn enqueue_forward(&mut self) -> (r: usize)
        ensures
            r == one_more(old(self).queued),
            final(self).queued == r,
            final(self).diagnostics == old(self).diagnostics,
    {
        self.queued = self.queued.wrapping_add(1);
        self.queued
    }

    /// Takes a request back that could not be queued.
    pub fn forward_refused(&mut self, error: &str) -> (r: DaemonError)
        ensures
            final(self).queued == one_fewer(old(self).queued),
            final(self).diagnostics == old(self).diagnostics,
            r@ == queueing_failed("request"@, error@),
    {
        self.queued = self.queued.wrapping_sub(1);
        let ghost whole = "failed to queue MCP request: "@ + error@;
        proof {
            reveal_strlit("failed to queue MCP request: ");
            reveal_strlit("failed to queue MCP ");
            reveal_strlit("request");
            reveal_strlit(": ");
            assert(whole =~= "failed to queue MCP "@ + "request"@ + ": "@ + error@);
        }
        DaemonError::Fatal(joined("failed to queue MCP request: ", error))
    }

    /// Counts a request to close pages; there is none where there are no pages.
    pub fn close_pages(&mut self, pages: &Vec<PageCleanup>) -> (r: bool)
        ensures
            r == (pages.len() > 0),
            final(self).queued == (if pages.len() > 0 {
                one_more(old(self).queued)
            } else {
                old(self).queued
            }),
            final(self).diagnostics == old(self).diagnostics,
    {
        if pages.len() == 0 {
            false
        } else {
            self.queued = self.queued.wrapping_add(1);
            true
        }
    }

    /// Takes a request to close pages back that could not be queued.
    pub fn cleanup_refused(&mut self, error: &str) -> (r: DaemonError)
        ensures
            final(self).queued == one_fewer(old(self).queued),
            final(self).diagnostics == old(self).diagnostics,
            r@ == queueing_failed("page cleanup"@, error@),
    {
        self.queued = self.queued.wrapping_sub(1);
        let ghost whole = "failed to queue MCP page cleanup: "@ + error@;
        proof {
            reveal_strlit("failed to queue MCP page cleanup: ");
            reveal_strlit("failed to queue MCP ");
            reveal_strlit("page cleanup");
            reveal_strlit(": ");
            assert(whole =~= "failed to queue MCP "@ + "page cleanup"@ + ": "@ + error@);
        }
        DaemonError::Fatal(joined("failed to queue MCP page cleanup: ", error))
    }

    /// Counts a request as taken from the queue.
    pub fn take_request(&mut self)
        ensures
            final(self).queued == one_fewer(old(self).queued),
            final(self).diagnostics == old(self).diagnostics,
    {
        self.queued = self.queued.wrapping_sub(1);
    }

    /// How many requests wait.
    pub fn queued_requests(&self) -> (r: usize)
        ensures
            r == self.queued,
    {
        self.queued
    }

    /// The longest times within the window.
    pub fn diagnostics_snapshot(&mut self, now: i128, window: u128) -> (r: DiagnosticsSnapshot)
        ensures
            final(self).queued == old(self).queued,
            crate::diagnostics::snapped(
                old(self).diagnostics,
                final(self).diagnostics,
                r,
                now as int,
                window as int,
            ),
    {
        self.diagnostics.snapshot(now, window)
    }
}

/// How long it was from one time to another; none where the second is the earlier one.
pub open spec fn span(from: int, to: int) -> int {
    if to >= from {
        to - from
    } else {
        0
    }
}

/// How long it was from one time to another.
pub fn elapsed(from: i128, to: i128) -> (r: u128)
    ensures
        r == span(from as int, to as int),
{
    if to < from {
        0
    } else if from >= 0 {
        (to - from) as u128
    } else if to < 0 {
        (to - from) as u128
    } else {
        let before: u128 = ((-(from + 1)) as u128) + 1;
        to as u128 + before
    }
}

/// How a forwarded request fared, by when it was queued, taken and done.
pub fn forward_timing(
    enqueued_at: i128,
    started_at: i128,
    done_at: i128,
    queued_at_enqueue: usize,
    queued_after_done: usize,
) -> (r: ForwardTiming)
    ensures
        r.queue_wait == span(enqueued_at as int, started_at as int),
        r.total == span(enqueued_at as int, done_at as int),
        r.queued_at_enqueue == queued_at_enqueue,
        r.queued_after_done == queued_after_done,
{
    ForwardTiming {
        queue_wait: elapsed(enqueued_at, started_at),
        total: elapsed(enqueued_at, done_at),
        queued_at_enqueue,
        queued_after_done,
    }
}

/// How far a request that was taken from the queue has come.
#[derive(Clone, Copy)]
pub enum Stage {
    /// It was just taken.
    Taken,
    /// The server is started anew before it.
    Healing,
    /// It is with the server.
    Routing,
    /// Its answer is on the way to the client; `late` if the server did not answer in time.
    Replying { late: bool },
    /// The server is tried after it did not answer in time.
    Probing,
    /// The server is started anew after it failed to answer twice.
    Renewing,
    /// It is done.
    Over,
}

/// What has happened to a request.
pub enum TurnEvent {
    /// The server was looked at before the request.
    Checked { exited: bool, reachable: bool },
    /// The server was started anew, or could not be.
    Restarted,
    /// The request came back from the server.
    Routed(Result<Vec<String>, String>),
    /// The answer was handed to the client, if it was still there.
    Replied { delivered: bool },
    /// The server was tried.
    Probed { failed: bool },
}

/// What has happened to a request.
pub enum TurnEventView {
    Checked { exited: bool, reachable: bool },
    Restarted,
    Routed(Result<Seq<Seq<char>>, Seq<char>>),
    Replied { delivered: bool },
    Probed { failed: bool },
}

/// The lines of an answer.
pub open spec fn routed_result(r: Result<Vec<String>, String>) -> Result<
    Seq<Seq<char>>,
    Seq<char>,
> {
    match r {
        Ok(lines) => Ok(text::texts(lines@)),
        Err(message) => Err(message@),
    }
}

impl View for TurnEvent {
    type V = TurnEventView;

    open spec fn view(&self) -> TurnEventView {
        match self {
            TurnEvent::Checked { exited, reachable } => TurnEventView::Checked {
                exited: *exited,
                reachable: *reachable,
            },
            TurnEvent::Restarted => TurnEventView::Restarted,
            TurnEvent::Routed(r) => TurnEventView::Routed(routed_result(*r)),
            TurnEvent::Replied { delivered } => TurnEventView::Replied { delivered: *delivered },
            TurnEvent::Probed { failed } => TurnEventView::Probed { failed: *failed },
        }
    }
}

/// What is to be done next for a request.
pub enum TurnAction {
    /// Start the server anew. Where `forget` is set, no request counts as given up any more.
    Restart { reason: &'static str, forget: bool },
    /// Hand the request to the server.
    Route,
    /// Hand these lines to the client.
    Reply { lines: Vec<String> },
    /// Try whether the server still answers.
    Probe,
    /// Note how long the request took.
    Record,
    /// Nothing, until something else happens.
    Wait,
}

/// What is to be done next for a request.
pub enum TurnActionView {
    Restart { reason: Seq<char>, forget: bool },
    Route,
    Reply { lines: Seq<Seq<char>> },
    Probe,
    Record,
    Wait,
}

impl View for TurnAction {
    type V = TurnActionView;

    open spec fn view(&self) -> TurnActionView {
        match self {
            TurnAction::Restart { reason, forget } => TurnActionView::Restart {
                reason: reason@,
                forget: *forget,
            },
            TurnAction::Route => TurnActionView::Route,
            TurnAction::Reply { lines } => TurnActionView::Reply { lines: text::texts(lines@) },
            TurnAction::Probe => TurnActionView::Probe,
            TurnAction::Record => TurnActionView::Record,
            TurnAction::Wait => TurnActionView::Wait,
        }
    }
}

/// What the client is told of a request, and whether the server did not answer in time.
pub open spec fn answer_to(line: Seq<char>, result: Result<Seq<Seq<char>>, Seq<char>>) -> (
    Seq<Seq<char>>,
    bool,
) {
    match result {
        Ok(lines) => (lines, false),
        Err(message) => (
            crate::rpc::line_error_lines(
                line,
                if router::timed_out(message) {
                    router::timeout_notice(message)
                } else {
                    message
                },
            ),
            router::timed_out(message),
        ),
    }
}

/// How the request `line` goes on after an event. A request that the server did not answer
/// in time is answered first; only if its client was still there is the server tried, and
/// only if that fails too is it started anew.
pub open spec fn turned(line: Seq<char>, stage: Stage, event: TurnEventView) -> (
    Stage,
    TurnActionView,
) {
    match (stage, event) {
        (Stage::Taken, TurnEventView::Checked { exited, reachable }) => match router::restart_reason(
            exited,
            reachable,
        ) {
            Some(reason) => (Stage::Healing, TurnActionView::Restart { reason, forget: false }),
            None => (Stage::Routing, TurnActionView::Route),
        },
        (Stage::Healing, TurnEventView::Restarted) => (Stage::Routing, TurnActionView::Route),
        (Stage::Routing, TurnEventView::Routed(result)) => {
            let answer = answer_to(line, result);
            (Stage::Replying { late: answer.1 }, TurnActionView::Reply { lines: answer.0 })
        },
        (Stage::Replying { late }, TurnEventView::Replied { delivered }) => if late && delivered {
            (Stage::Probing, TurnActionView::Probe)
        } else {
            (Stage::Over, TurnActionView::Record)
        },
        (Stage::Probing, TurnEventView::Probed { failed }) => if failed {
            (
                Stage::Renewing,
                TurnActionView::Restart {
                    reason: "mcp probe failed after request timeout"@,
                    forget: true,
                },
            )
        } else {
            (Stage::Over, TurnActionView::Record)
        },
        (Stage::Renewing, TurnEventView::Restarted) => (Stage::Over, TurnActionView::Record),
        (_, _) => (stage, TurnActionView::Wait),
    }
}

/// A request to forward that was taken from the queue.
pub struct RouterTurn {
    pub line: String,
    pub stage: Stage,
}

impl RouterTurn {
    /// A request that was just taken.
    pub fn new(line: &str) -> (r: RouterTurn)
        ensures
            r.line@ == line@,
            r.stage == Stage::Taken,
    {
        RouterTurn { line: line.to_string(), stage: Stage::Taken }
    }

    /// What is to be done after an event.
    pub fn on_event(&mut self, event: TurnEvent) -> (r: TurnAction)
        ensures
            (final(self).stage, r@) == turned(old(self).line@, old(self).stage, event@),
            final(self).line@ == old(self).line@,
    {
        match (self.stage, event) {
            (Stage::Taken, TurnEvent::Checked { exited, reachable }) => {
                match router::ensure_runtime_ready(exited, reachable) {
                    Some(reason) => {
                        self.stage = Stage::Healing;
                        TurnAction::Restart { reason, forget: false }
                    },
                    None => {
                        self.stage = Stage::Routing;
                        TurnAction::Route
                    },
                }
            },
            (Stage::Healing, TurnEvent::Restarted) => {
                self.stage = Stage::Routing;
                TurnAction::Route
            },
            (Stage::Routing, TurnEvent::Routed(result)) => {
                let (lines, late) = match result {
                    Ok(lines) => (lines, false),
                    Err(message) => router::failed_request(self.line.as_str(), message.as_str()),
                };
                self.stage = Stage::Replying { late };
                TurnAction::Reply { lines }
            },
            (Stage::Replying { late }, TurnEvent::Replied { delivered }) => {
                if late && delivered {
                    self.stage = Stage::Probing;
                    TurnAction::Probe
                } else {
                    self.stage = Stage::Over;
                    TurnAction::Record
                }
            },
            (Stage::Probing, TurnEvent::Probed { failed }) => {
                match router::restart_after_timeout(true, failed) {
                    Some(reason) => {
                        self.stage = Stage::Renewing;
                        TurnAction::Restart { reason, forget: true }
                    },
                    None => {
                        self.stage = Stage::Over;
                        TurnAction::Record
                    },
                }
            },
            (Stage::Renewing, TurnEvent::Restarted) => {
                self.stage = Stage::Over;
                TurnAction::Record
            },
            (_, _) => TurnAction::Wait,
        }
    }
}

impl RouterTurn {
    /// What the log says where the server is not tried after a late answer, because the
    /// client was gone when the answer was to be handed to it.
    pub fn skipped_probe(&self, delivered: bool) -> (r: Option<&'static str>)
        ensures
            match r {
                Some(warning) => self.stage == (Stage::Replying { late: true }) && !delivered
                    && warning@
                    == "warning: skipped MCP timeout probe because client disconnected"@,
                None => self.stage != (Stage::Replying { late: true }) || delivered,
            },
    {
        match self.stage {
            Stage::Replying { late } => {
                if late && !delivered {
                    Some("warning: skipped MCP timeout probe because client disconnected")
                } else {
                    None
                }
            },
            _ => None,
        }
    }
}

/// How far a request has come, as a number.
pub open spec fn rank(stage: Stage) -> nat {
    match stage {
        Stage::Taken => 0,
        Stage::Healing => 1,
        Stage::Routing => 2,
        Stage::Replying { .. } => 3,
        Stage::Probing => 4,
        Stage::Renewing => 5,
        Stage::Over => 6,
    }
}

/// The stages through which a request goes on some events.
pub open spec fn stage_after(line: Seq<char>, stage: Stage, events: Seq<TurnEventView>) -> Stage
    decreases events.len(),
{
    if events.len() == 0 {
        stage
    } else {
        turned(line, stage_after(line, stage, events.drop_last()), events.last()).0
    }
}

/// Every step takes a request further, so each comes to an end, and at most one answer
/// goes to its client: once it was answered, no event leads to another answer.
pub proof fn requests_are_answered_once(
    line: Seq<char>,
    stage: Stage,
    event: TurnEventView,
    later: Seq<TurnEventView>,
    last: TurnEventView,
)
    ensures
        turned(line, stage, event).1 !is Wait ==> rank(turned(line, stage, event).0) > rank(stage),
        turned(line, stage, event).1 is Wait ==> turned(line, stage, event).0 == stage,
        turned(line, stage, event).1 is Reply ==> turned(
            line,
            stage_after(line, turned(line, stage, event).0, later),
            last,
        ).1 !is Reply,
{
    let next = turned(line, stage, event).0;
    lemma_stages_rise(line, next, later);
}

proof fn lemma_stages_rise(line: Seq<char>, stage: Stage, events: Seq<TurnEventView>)
    ensures
        rank(stage_after(line, stage, events)) >= rank(stage),
    decreases events.len(),
{
    if events.len() > 0 {
        lemma_stages_rise(line, stage, events.drop_last());
    }
}

/// The server is started anew after a request only if it answered neither the request nor
/// the probe, and the client of the request was there to get its answer.
pub proof fn a_server_is_replaced_only_after_a_failed_probe(
    line: Seq<char>,
    stage: Stage,
    event: TurnEventView,
)
    requires
        stage !is Taken,
        turned(line, stage, event).1 is Restart,
    ensures
        stage is Probing,
        event == (TurnEventView::Probed { failed: true }),
        forall|s: Stage, e: TurnEventView|
            (#[trigger] turned(line, s, e)).0 is Probing && s !is Probing ==> s == (
            Stage::Replying { late: true }) && e == (TurnEventView::Replied { delivered: true }),
{
}

/// A request that is queued and then taken, or taken back, leaves the count as it was.
pub proof fn the_queue_keeps_count(queued: usize)
    ensures
        one_fewer(one_more(queued)) == queued,
        one_more(one_fewer(queued)) == queued,
{
}

} // verus!
