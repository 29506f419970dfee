//! How long requests have taken lately.
use crate::session::{NANOS_PER_MILLI, NANOS_PER_SEC};
use crate::text;
use crate::text::{joined3, number_text};
use std::collections::VecDeque;
use vstd::prelude::*;

verus! {

/// What was measured: when, and how long it took, both in nanoseconds.
pub struct Diagnostics {
    pub control: VecDeque<(i128, u128)>,
    pub forward: VecDeque<(i128, u128)>,
}

/// The longest times within the window.
#[derive(Clone, Copy)]
pub struct DiagnosticsSnapshot {
    pub window_secs: u64,
    pub max_control_latency_ms: u128,
    pub max_forward_latency_ms: u128,
}

/// Where the window starts. A window that reaches back beyond the earliest time there is
/// starts `now`.
pub open spec fn cutoff(now: int, window: int) -> int {
    if now - window >= i128::MIN {
        now - window
    } else {
        now
    }
}

/// The measurements without those at the front that are older than the window.
pub open spec fn pruned(records: Seq<(i128, u128)>, start: int) -> Seq<(i128, u128)>
    decreases records.len(),
{
    if records.len() > 0 && records[0].0 < start {
        pruned(records.skip(1), start)
    } else {
        records
    }
}

/// The longest time, in milliseconds, that was measured within the window.
pub open spec fn peak(records: Seq<(i128, u128)>, start: int) -> nat
    decreases records.len(),
{
    if records.len() == 0 {
        0
    } else {
        let before = peak(records.drop_last(), start);
        let last = records.last();
        if last.0 >= start && last.1 as nat / 1_000_000 > before {
            last.1 as nat / 1_000_000
        } else {
            before
        }
    }
}

/// Whether a measurement was added at its time, and what is older than the window dropped.
pub open spec fn noted(
    before: Seq<(i128, u128)>,
    after: Seq<(i128, u128)>,
    record: (i128, u128),
    window: int,
) -> bool {
    after == pruned(before.push(record), cutoff(record.0 as int, window))
}

/// Whether `r` tells the longest times within the window, and what is older was dropped.
pub open spec fn snapped(
    before: Diagnostics,
    after: Diagnostics,
    r: DiagnosticsSnapshot,
    now: int,
    window: int,
) -> bool {
    &&& after.control@ == pruned(before.control@, cutoff(now, window))
    &&& after.forward@ == pruned(before.forward@, cutoff(now, window))
    &&& r.max_control_latency_ms == peak(after.control@, cutoff(now, window))
    &&& r.max_forward_latency_ms == peak(after.forward@, cutoff(now, window))
    &&& r.window_secs == crate::session::seconds(window)
}

/// Where the window starts.
fn window_start(now: i128, window: u128) -> (r: i128)
    ensures
        r == cutoff(now as int, window as int),
{
    if window <= i128::MAX as u128 {
        let w: i128 = window as i128;
        if now >= i128::MIN + w {
            now - w
        } else {
            now
        }
    } else if now >= 0 {
        let over: u128 = window - i128::MAX as u128;
        if over == 1 || now >= 0 && over - 1 <= now as u128 {
            let rest: i128 = (over - 1) as i128;
            (now - rest) + i128::MIN
        } else {
            now
        }
    } else {
        now
    }
}

fn prune_records(records: &mut VecDeque<(i128, u128)>, start: i128)
    ensures
        final(records)@ == pruned(old(records)@, start as int),
{
    while records.len() > 0 && records[0].0 < start
        invariant
            pruned(records@, start as int) == pruned(old(records)@, start as int),
        decreases records.len(),
    {
        let ghost before = records@;
        let _ = records.pop_front();
        assert(records@ =~= before.skip(1));
    }
}

impl Diagnostics {
    /// Nothing measured yet.
    pub fn new() -> (r: Diagnostics)
        ensures
            r.control@ == Seq::<(i128, u128)>::empty(),
            r.forward@ == Seq::<(i128, u128)>::empty(),
    {
        Diagnostics { control: VecDeque::new(), forward: VecDeque::new() }
    }

    /// Drops what is older than the window.
    pub fn prune(&mut self, now: i128, window: u128)
        ensures
            final(self).control@ == pruned(old(self).control@, cutoff(now as int, window as int)),
            final(self).forward@ == pruned(old(self).forward@, cutoff(now as int, window as int)),
    {
        let start: i128 = window_start(now, window);
        prune_records(&mut self.control, start);
        prune_records(&mut self.forward, start);
    }

    /// The longest time, in milliseconds, among some measurements within the window.
    pub fn max_latency_ms(records: &VecDeque<(i128, u128)>, now: i128, window: u128) -> (r: u128)
        ensures
            r == peak(records@, cutoff(now as int, window as int)),
    {
        let start: i128 = window_start(now, window);
        let mut best: u128 = 0;
        let mut i: usize = 0;
        assert(records@.take(0) =~= Seq::empty());
        while i < records.len()
            invariant
                i <= records.len(),
                start == cutoff(now as int, window as int),
                best == peak(records@.take(i as int), start as int),
            decreases records.len() - i,
        {
            assert(records@.take(i + 1).drop_last() =~= records@.take(i as int));
            let ms: u128 = records[i].1 / NANOS_PER_MILLI;
            if records[i].0 >= start && ms > best {
                best = ms;
            }
            i = i + 1;
        }
        assert(records@.take(i as int) =~= records@);
        best
    }

    /// The longest time of a control command within the window.
    pub fn max_control_latency_ms(&self, now: i128, window: u128) -> (r: u128)
        ensures
            r == peak(self.control@, cutoff(now as int, window as int)),
    {
        Self::max_latency_ms(&self.control, now, window)
    }

    /// The longest time of a forwarded request within the window.
    pub fn max_forward_latency_ms(&self, now: i128, window: u128) -> (r: u128)
        ensures
            r == peak(self.forward@, cutoff(now as int, window as int)),
    {
        Self::max_latency_ms(&self.forward, now, window)
    }

    /// Notes how long a control command took; tells the longest time within the window.
    pub fn record_control(&mut self, now: i128, elapsed: u128, window: u128) -> (r: u128)
        ensures
            noted(old(self).control@, final(self).control@, (now, elapsed), window as int),
            final(self).forward@ == pruned(old(self).forward@, cutoff(now as int, window as int)),
            r == peak(final(self).control@, cutoff(now as int, window as int)),
    {
        self.control.push_back((now, elapsed));
        self.prune(now, window);
        self.max_control_latency_ms(now, window)
    }

    /// Notes how long a forwarded request took; tells the longest time within the window.
    pub fn record_forward(&mut self, now: i128, elapsed: u128, window: u128) -> (r: u128)
        ensures
            noted(old(self).forward@, final(self).forward@, (now, elapsed), window as int),
            final(self).control@ == pruned(old(self).control@, cutoff(now as int, window as int)),
            r == peak(final(self).forward@, cutoff(now as int, window as int)),
    {
        self.forward.push_back((now, elapsed));
        self.prune(now, window);
        self.max_forward_latency_ms(now, window)
    }

    /// The longest times within the window.
    pub fn snapshot(&mut self, now: i128, window: u128) -> (r: DiagnosticsSnapshot)
        ensures
            snapped(*old(self), *final(self), r, now as int, window as int),
    {
        self.prune(now, window);
        let secs: u128 = window / NANOS_PER_SEC;
        DiagnosticsSnapshot {
            window_secs: if secs > u64::MAX as u128 {
                u64::MAX
            } else {
                secs as u64
            },
            max_control_latency_ms: self.max_control_latency_ms(now, window),
            max_forward_latency_ms: self.max_forward_latency_ms(now, window),
        }
    }
}

/// The warning that a control command was slow.
pub open spec fn control_warning(name: Seq<char>, elapsed: nat, max_ms: nat) -> Seq<char> {
    "warning: slow control command="@ + name + " elapsed_ms="@ + text::decimal(elapsed / 1_000_000)
        + " max_control_latency_ms="@ + text::decimal(max_ms)
}

/// Notes how long a control command took, and tells the warning that it was slow, if it was.
pub fn record_control_latency(
    diagnostics: &mut Diagnostics,
    name: &str,
    elapsed: u128,
    now: i128,
    window: u128,
    limit: u128,
) -> (r: Option<String>)
    ensures
        noted(
            old(diagnostics).control@,
            final(diagnostics).control@,
            (now, elapsed),
            window as int,
        ),
        final(diagnostics).forward@ == pruned(
            old(diagnostics).forward@,
            cutoff(now as int, window as int),
        ),
        text::opt_text(r) == (if elapsed >= limit {
            Some(
                control_warning(
                    name@,
                    elapsed as nat,
                    peak(final(diagnostics).control@, cutoff(now as int, window as int)),
                ),
            )
        } else {
            None
        }),
{
    let max_ms: u128 = diagnostics.record_control(now, elapsed, window);
    if elapsed >= limit {
        let mut out = joined3("warning: slow control command=", name, " elapsed_ms=");
        out.append(number_text(elapsed / NANOS_PER_MILLI).as_str());
        out.append(" max_control_latency_ms=");
        out.append(number_text(max_ms).as_str());
        Some(out)
    } else {
        None
    }
}

/// How a forwarded request fared.
pub struct ForwardTiming {
    pub queue_wait: u128,
    pub total: u128,
    pub queued_at_enqueue: usize,
    pub queued_after_done: usize,
}

/// The warning that a forwarded request was slow.
pub open spec fn forward_warning(
    method: Seq<char>,
    tool: Seq<char>,
    session_id: Option<Seq<char>>,
    t: ForwardTiming,
    max_ms: nat,
) -> Seq<char> {
    "warning: slow forward method="@ + method + " tool="@ + tool + " session="@
        + crate::session::or_empty(session_id) + " queue_wait_ms="@ + text::decimal(
        t.queue_wait as nat / 1_000_000,
    ) + " total_ms="@ + text::decimal(t.total as nat / 1_000_000) + " queued_at_enqueue="@
        + text::decimal(t.queued_at_enqueue as nat) + " queued_after_done="@ + text::decimal(
        t.queued_after_done as nat,
    ) + " max_forward_latency_ms="@ + text::decimal(max_ms)
}

/// Notes how long a forwarded request took, and tells the warning that it was slow, if it
/// was.
pub fn record_forward_diagnostic(
    diagnostics: &mut Diagnostics,
    session_id: Option<&str>,
    line: &str,
    timing: &ForwardTiming,
    now: i128,
    window: u128,
    limit: u128,
) -> (r: Option<String>)
    ensures
        noted(
            old(diagnostics).forward@,
            final(diagnostics).forward@,
            (now, timing.total),
            window as int,
        ),
        final(diagnostics).control@ == pruned(
            old(diagnostics).control@,
            cutoff(now as int, window as int),
        ),
        text::opt_text(r) == (if timing.total >= limit {
            let label = crate::rpc::label_of(crate::json::json_parse(line@));
            Some(
                forward_warning(
                    label.0,
                    label.1,
                    text::opt_str(session_id),
                    *timing,
                    peak(final(diagnostics).forward@, cutoff(now as int, window as int)),
                ),
            )
        } else {
            None
        }),
{
    let max_ms: u128 = diagnostics.record_forward(now, timing.total, window);
    if timing.total >= limit {
        let (method, tool) = crate::rpc::request_label(line);
        let mut out = joined3("warning: slow forward method=", method.as_str(), " tool=");
        out.append(tool.as_str());
        out.append(" session=");
        match session_id {
            Some(id) => out.append(id),
            None => out.append(""),
        }
        out.append(" queue_wait_ms=");
        out.append(number_text(timing.queue_wait / NANOS_PER_MILLI).as_str());
        out.append(" total_ms=");
        out.append(number_text(timing.total / NANOS_PER_MILLI).as_str());
        out.append(" queued_at_enqueue=");
        out.append(number_text(timing.queued_at_enqueue as u128).as_str());
        out.append(" queued_after_done=");
        out.append(number_text(timing.queued_after_done as u128).as_str());
        out.append(" max_forward_latency_ms=");
        out.append(number_text(max_ms).as_str());
        Some(out)
    } else {
        None
    }
}

/// No measurement within the window is longer than the longest one, and unless there is
/// none it is one of them.
pub proof fn the_peak_is_the_longest(records: Seq<(i128, u128)>, start: int)
    ensures
        forall|i: int|
            0 <= i < records.len() && (#[trigger] records[i]).0 >= start ==> records[i].1 as nat
                / 1_000_000 <= peak(records, start),
        peak(records, start) > 0 ==> exists|i: int|
            0 <= i < records.len() && (#[trigger] records[i]).0 >= start && records[i].1 as nat
                / 1_000_000 == peak(records, start),
    decreases records.len(),
{
    if records.len() > 0 {
        let front = records.drop_last();
        the_peak_is_the_longest(front, start);
        assert forall|i: int|
            0 <= i < records.len() && (#[trigger] records[i]).0 >= start implies records[i].1 as nat
            / 1_000_000 <= peak(records, start) by {
            if i < front.len() {
                assert(front[i] == records[i]);
            }
        }
        if peak(records, start) > 0 {
            if peak(records, start) == peak(front, start) {
                let i = choose|i: int|
                    0 <= i < front.len() && (#[trigger] front[i]).0 >= start && front[i].1 as nat
                        / 1_000_000 == peak(front, start);
                assert(records[i] == front[i]);
            } else {
                assert(records[records.len() - 1].0 >= start);
            }
        }
    }
}

/// Dropping old measurements changes nothing about the longest time within the window.
pub proof fn pruning_keeps_the_peak(records: Seq<(i128, u128)>, start: int)
    ensures
        peak(pruned(records, start), start) == peak(records, start),
    decreases records.len(),
{
    if records.len() > 0 && records[0].0 < start {
        pruning_keeps_the_peak(records.skip(1), start);
        lemma_peak_skip(records, start);
    }
}

proof fn lemma_peak_skip(records: Seq<(i128, u128)>, start: int)
    requires
        records.len() > 0,
        records[0].0 < start,
    ensures
        peak(records.skip(1), start) == peak(records, start),
    decreases records.len(),
{
    if records.len() > 1 {
        assert(records.skip(1).drop_last() =~= records.drop_last().skip(1));
        assert(records.skip(1).last() == records.last());
        lemma_peak_skip(records.drop_last(), start);
    } else {
        assert(records.skip(1).len() == 0);
        assert(peak(records.drop_last(), start) == 0);
    }
}

} // verus!
