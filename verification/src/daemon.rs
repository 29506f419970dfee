//! The daemon of a profile: its files, its log of exits, and its loop.
use crate::config;
use crate::config::{join_path, Profile};
use crate::lock;
use crate::lock::safe_lock_name;
use crate::mcp::DaemonError;
use crate::session;
use crate::session::unix_secs;
use crate::text;
use crate::text::{
    chars_of, contains, joined, joined3, lines, number_text, parse_number, split_once, starts_with,
    trim,
};
use vstd::prelude::*;

verus! {

/// Where the daemons' files are.
pub open spec fn daemons_dir(home: Option<Seq<char>>) -> Result<Seq<char>, Seq<char>> {
    match config::home_path(home, config::CACHE_RELATIVE_PATH@) {
        Ok(dir) => Ok(config::path_under(dir, "daemons"@)),
        Err(message) => Err(message),
    }
}

/// Where the daemons' files are.
pub fn daemon_dir(home: Option<&str>) -> (r: Result<String, String>)
    ensures
        text::result_text(r) == daemons_dir(text::opt_str(home)),
{
    match config::cache_dir(home) {
        Ok(dir) => Ok(join_path(dir.as_str(), "daemons")),
        Err(message) => Err(message),
    }
}

/// The file of a profile's daemon with some ending.
pub open spec fn daemon_file(home: Option<Seq<char>>, name: Seq<char>, ending: Seq<char>) -> Result<
    Seq<char>,
    Seq<char>,
> {
    match daemons_dir(home) {
        Ok(dir) => Ok(config::path_under(dir, lock::safe_name(name) + ending)),
        Err(message) => Err(message),
    }
}

fn daemon_file_path(home: Option<&str>, profile: &Profile, ending: &str) -> (r: Result<
    String,
    String,
>)
    ensures
        text::result_text(r) == daemon_file(text::opt_str(home), profile@.name, ending@),
{
    match daemon_dir(home) {
        Ok(dir) => {
            let name = joined(safe_lock_name(profile.name.as_str()).as_str(), ending);
            Ok(join_path(dir.as_str(), name.as_str()))
        },
        Err(message) => Err(message),
    }
}

/// The socket on which a profile's daemon listens.
pub fn daemon_socket_path(home: Option<&str>, profile: &Profile) -> (r: Result<String, String>)
    ensures
        text::result_text(r) == daemon_file(text::opt_str(home), profile@.name, ".sock"@),
{
    daemon_file_path(home, profile, ".sock")
}

/// The file that names the daemon's process.
pub fn daemon_pid_path(home: Option<&str>, profile: &Profile) -> (r: Result<String, String>)
    ensures
        text::result_text(r) == daemon_file(text::opt_str(home), profile@.name, ".pid"@),
{
    daemon_file_path(home, profile, ".pid")
}

/// The daemon's log.
pub fn daemon_log_path(home: Option<&str>, profile: &Profile) -> (r: Result<String, String>)
    ensures
        text::result_text(r) == daemon_file(text::opt_str(home), profile@.name, ".log"@),
{
    daemon_file_path(home, profile, ".log")
}

/// The file that tells the browser's port.
pub fn daemon_port_path(home: Option<&str>, profile: &Profile) -> (r: Result<String, String>)
    ensures
        text::result_text(r) == daemon_file(text::opt_str(home), profile@.name, ".port"@),
{
    daemon_file_path(home, profile, ".port")
}

/// The file that tells how the daemon ended, each time.
pub fn daemon_health_path(home: Option<&str>, profile: &Profile) -> (r: Result<String, String>)
    ensures
        text::result_text(r) == daemon_file(text::opt_str(home), profile@.name, ".health"@),
{
    daemon_file_path(home, profile, ".health")
}

/// A text on one line.
pub open spec fn on_one_line(s: Seq<char>) -> Seq<char> {
    s.map_values(
        |c: char|
            if c == '\n' {
                ' '
            } else {
                c
            },
    )
}

fn flattened(s: &str) -> (r: String)
    ensures
        r@ == on_one_line(s@),
{
    let chars = chars_of(s);
    let mut out = String::new();
    let mut i: usize = 0;
    while i < chars.len()
        invariant
            i <= chars.len(),
            chars@ == s@,
            out@ =~= on_one_line(s@).take(i as int),
        decreases chars.len() - i,
    {
        if chars[i] == '\n' {
            out.push(' ');
        } else {
            out.push(chars[i]);
        }
        i = i + 1;
    }
    assert(on_one_line(s@).take(i as int) =~= on_one_line(s@));
    out
}

/// The line that tells how a daemon ended.
pub open spec fn exit_line(secs: nat, result: Result<(), Seq<char>>) -> Seq<char> {
    match result {
        Ok(()) => "ts="@ + text::decimal(secs) + " exit=ok reason=stop\n"@,
        Err(reason) => "ts="@ + text::decimal(secs) + " exit=error reason="@ + on_one_line(reason)
            + "\n"@,
    }
}

/// The line that tells how a daemon ended.
pub fn record_daemon_exit(now: i128, result: &Result<(), String>) -> (r: String)
    ensures
        r@ == exit_line(
            session::seconds(now as int) as nat,
            match result {
                Ok(()) => Ok(()),
                Err(reason) => Err(reason@),
            },
        ),
{
    let secs = number_text(unix_secs(now) as u128);
    match result {
        Ok(()) => joined3("ts=", secs.as_str(), " exit=ok reason=stop\n"),
        Err(reason) => {
            let mut out = joined3("ts=", secs.as_str(), " exit=error reason=");
            out.append(flattened(reason.as_str()).as_str());
            out.append("\n");
            out
        },
    }
}

/// The line that tells that the MCP server was started anew.
pub open spec fn respawn_line(secs: nat, reason: Seq<char>) -> Seq<char> {
    "ts="@ + text::decimal(secs) + " respawn reason="@ + on_one_line(reason) + "\n"@
}

/// The line that tells that the MCP server was started anew.
pub fn record_daemon_respawn(now: i128, reason: &str) -> (r: String)
    ensures
        r@ == respawn_line(session::seconds(now as int) as nat, reason@),
{
    let secs = number_text(unix_secs(now) as u128);
    let mut out = joined3("ts=", secs.as_str(), " respawn reason=");
    out.append(flattened(reason).as_str());
    out.append("\n");
    out
}

/// Whether a line tells that the MCP server was started anew.
pub open spec fn is_respawn(line: Seq<char>) -> bool {
    match text::cut(line, " "@) {
        Some((_, rest)) => text::begins(rest, "respawn "@),
        None => false,
    }
}

fn tells_respawn(line: &str) -> (r: bool)
    ensures
        r == is_respawn(line@),
{
    match split_once(line, " ") {
        Some((_, rest)) => starts_with(rest.as_str(), "respawn "),
        None => false,
    }
}

/// What the record of exits tells.
pub struct DaemonHealth {
    pub last_exit: Option<String>,
    pub abnormal_exits: usize,
    pub respawns: usize,
}

/// What the record of exits tells.
pub struct HealthView {
    pub last_exit: Option<Seq<char>>,
    pub abnormal_exits: nat,
    pub respawns: nat,
}

impl View for DaemonHealth {
    type V = HealthView;

    open spec fn view(&self) -> HealthView {
        HealthView {
            last_exit: text::opt_text(self.last_exit),
            abnormal_exits: self.abnormal_exits as nat,
            respawns: self.respawns as nat,
        }
    }
}

/// What the record tells after one more line.
pub open spec fn noted(h: HealthView, line: Seq<char>) -> HealthView {
    HealthView {
        last_exit: if is_respawn(line) {
            h.last_exit
        } else {
            Some(line)
        },
        abnormal_exits: if text::holds(line, "exit=error"@) {
            h.abnormal_exits + 1
        } else {
            h.abnormal_exits
        },
        respawns: if is_respawn(line) {
            h.respawns + 1
        } else {
            h.respawns
        },
    }
}

/// What these lines tell.
pub open spec fn health(all: Seq<Seq<char>>) -> HealthView
    decreases all.len(),
{
    if all.len() == 0 {
        HealthView { last_exit: None, abnormal_exits: 0, respawns: 0 }
    } else {
        noted(health(all.drop_last()), all.last())
    }
}

/// What the record of exits tells, if it tells anything.
pub fn read_daemon_health(content: &str) -> (r: Option<DaemonHealth>)
    ensures
        match r {
            Some(h) => text::line_list(content@).len() > 0 && h@ == health(
                text::line_list(content@),
            ),
            None => text::line_list(content@).len() == 0,
        },
{
    let all = lines(content);
    let ghost views = text::texts(all@);
    if all.len() == 0 {
        return None;
    }
    let mut h = DaemonHealth { last_exit: None, abnormal_exits: 0, respawns: 0 };
    let mut i: usize = 0;
    assert(views.take(0) =~= Seq::empty());
    while i < all.len()
        invariant
            i <= all.len(),
            views == text::texts(all@),
            h@ == health(views.take(i as int)),
            h.abnormal_exits <= i,
            h.respawns <= i,
        decreases all.len() - i,
    {
        assert(views.take(i + 1).drop_last() =~= views.take(i as int));
        assert(views.take(i + 1).last() == all@[i as int]@);
        let line = all[i].as_str();
        if contains(line, "exit=error") {
            h.abnormal_exits = h.abnormal_exits + 1;
        }
        if tells_respawn(line) {
            h.respawns = h.respawns + 1;
        } else {
            h.last_exit = Some(all[i].clone());
        }
        i = i + 1;
    }
    assert(views.take(i as int) =~= views);
    Some(h)
}

/// The port in the file that tells the browser's port.
pub open spec fn port_in(raw: Option<Seq<char>>) -> Option<u16> {
    match raw {
        Some(raw) => match text::parsed(text::trimmed(raw), u16::MAX as nat) {
            Some(port) => Some(port as u16),
            None => None,
        },
        None => None,
    }
}

/// The port in the file that tells the browser's port, if there is one.
pub fn read_runtime_port(raw: Option<&str>) -> (r: Option<u16>)
    ensures
        r == port_in(text::opt_str(raw)),
{
    match raw {
        Some(raw) => match parse_number(trim(raw).as_str(), u16::MAX as u64) {
            Some(port) => Some(port as u16),
            None => None,
        },
        None => None,
    }
}

/// The port of the browser that runs, by the file that tells it.
pub fn current_port(raw: Option<&str>) -> (r: Option<u16>)
    ensures
        r == port_in(text::opt_str(raw)),
{
    read_runtime_port(raw)
}

/// What the file that tells the browser's port holds.
pub fn write_runtime_port(port: u16) -> (r: String)
    ensures
        r@ == text::decimal(port as nat),
{
    number_text(port as u128)
}

/// The process in a file that names one.
pub open spec fn pid_in(raw: Option<Seq<char>>) -> Option<u32> {
    match raw {
        Some(raw) => match text::parsed(text::trimmed(raw), u32::MAX as nat) {
            Some(pid) => Some(pid as u32),
            None => None,
        },
        None => None,
    }
}

/// The process in a file that names one.
pub fn read_pid_file(raw: Option<&str>) -> (r: Option<u32>)
    ensures
        r == pid_in(text::opt_str(raw)),
{
    match raw {
        Some(raw) => match parse_number(trim(raw).as_str(), u32::MAX as u64) {
            Some(pid) => Some(pid as u32),
            None => None,
        },
        None => None,
    }
}

/// What the file that names the daemon's process holds.
pub fn pid_file_content(pid: u32) -> (r: String)
    ensures
        r@ == text::decimal(pid as nat) + "\n"@,
{
    joined(number_text(pid as u128).as_str(), "\n")
}

/// Whether the socket and the pid file of a daemon are left over: no process that they
/// name is alive.
pub fn cleanup_stale_daemon_files(pid: Option<u32>, alive: bool) -> (r: bool)
    ensures
        r == !(pid is Some && alive),
{
    match pid {
        Some(_) => !alive,
        None => true,
    }
}

/// What happens to a daemon.
pub enum DaemonEvent {
    /// A client has come.
    Accepted,
    /// No client has come.
    NoClient,
    /// A client could not be let in.
    AcceptFailed(String),
    /// A client's connection has ended; `Ok(true)` if the client had the daemon stop.
    ClientEnded(Result<bool, DaemonError>),
}

/// What a daemon does next.
pub enum DaemonAction {
    /// Serve the client beside the others.
    Serve,
    /// Wait for a moment.
    Sleep,
    /// Say something in the log, and go on.
    Log(String),
    /// Go on.
    Continue,
    /// End, and say something in the log if there is anything to say.
    Stop(Option<String>),
}

/// What a daemon does next.
pub enum DaemonActionView {
    Serve,
    Sleep,
    Log(Seq<char>),
    Continue,
    Stop(Option<Seq<char>>),
}

impl View for DaemonAction {
    type V = DaemonActionView;

    open spec fn view(&self) -> DaemonActionView {
        match self {
            DaemonAction::Serve => DaemonActionView::Serve,
            DaemonAction::Sleep => DaemonActionView::Sleep,
            DaemonAction::Log(line) => DaemonActionView::Log(line@),
            DaemonAction::Continue => DaemonActionView::Continue,
            DaemonAction::Stop(line) => DaemonActionView::Stop(text::opt_text(*line)),
        }
    }
}

/// What a daemon does after an event. A client that fails for itself does not end the
/// daemon.
pub open spec fn daemon_turn(event: DaemonEvent) -> DaemonActionView {
    match event {
        DaemonEvent::Accepted => DaemonActionView::Serve,
        DaemonEvent::NoClient => DaemonActionView::Sleep,
        DaemonEvent::AcceptFailed(error) => DaemonActionView::Log(
            "warning: failed to accept daemon client: "@ + error@,
        ),
        DaemonEvent::ClientEnded(Ok(stop)) => if stop {
            DaemonActionView::Stop(None)
        } else {
            DaemonActionView::Continue
        },
        DaemonEvent::ClientEnded(Err(DaemonError::Client(message))) => DaemonActionView::Log(
            "warning: daemon client connection failed: "@ + message@,
        ),
        DaemonEvent::ClientEnded(Err(DaemonError::Fatal(message))) => DaemonActionView::Stop(
            Some("error: daemon client fatal error: "@ + message@),
        ),
    }
}

/// What a daemon does after an event.
pub fn run_daemon(event: DaemonEvent) -> (r: DaemonAction)
    ensures
        r@ == daemon_turn(event),
{
    match event {
        DaemonEvent::Accepted => DaemonAction::Serve,
        DaemonEvent::NoClient => DaemonAction::Sleep,
        DaemonEvent::AcceptFailed(error) => DaemonAction::Log(
            joined("warning: failed to accept daemon client: ", error.as_str()),
        ),
        DaemonEvent::ClientEnded(Ok(stop)) => {
            if stop {
                DaemonAction::Stop(None)
            } else {
                DaemonAction::Continue
            }
        },
        DaemonEvent::ClientEnded(Err(DaemonError::Client(message))) => DaemonAction::Log(
            joined("warning: daemon client connection failed: ", message.as_str()),
        ),
        DaemonEvent::ClientEnded(Err(DaemonError::Fatal(message))) => DaemonAction::Stop(
            Some(joined("error: daemon client fatal error: ", message.as_str())),
        ),
    }
}

/// A client whose connection fails does not end the daemon.
pub proof fn failing_clients_do_not_stop_the_daemon(message: String)
    ensures
        daemon_turn(DaemonEvent::ClientEnded(Err(DaemonError::Client(message)))) is Log,
        daemon_turn(DaemonEvent::ClientEnded(Ok(false))) is Continue,
        daemon_turn(DaemonEvent::AcceptFailed(message)) is Log,
{
}

/// The port and the process that were written to their files are read from them again.
pub proof fn files_are_read_back(port: u16, pid: u32)
    ensures
        port_in(Some(text::decimal(port as nat))) == Some(port),
        pid_in(Some(text::decimal(pid as nat) + "\n"@)) == Some(pid),
{
    text::decimal_denotes(port as nat);
    text::lemma_digits_are_trimmed(text::decimal(port as nat));
    text::printing_and_parsing_agree(port as nat, u16::MAX as nat);
    let digits = text::decimal(pid as nat);
    text::decimal_denotes(pid as nat);
    text::lemma_digits_are_trimmed(digits);
    text::printing_and_parsing_agree(pid as nat, u32::MAX as nat);
    reveal_strlit("\n");
    let whole = digits + "\n"@;
    assert(text::is_digit(digits[0]));
    assert(text::trimmed_start(whole) == whole);
    assert(whole.drop_last() =~= digits);
    assert(text::is_digit(digits[digits.len() - 1]));
}

proof fn lemma_lines_joined(cur: Seq<char>, a: Seq<char>, b: Seq<char>)
    requires
        a.len() > 0 && a.last() == '\n' || a.len() == 0 && cur.len() == 0,
    ensures
        text::lines_from(cur, a + b) == text::lines_from(cur, a) + text::line_list(b),
    decreases a.len(),
{
    if a.len() == 0 {
        assert(a + b =~= b);
        assert(cur =~= Seq::empty());
        assert(text::lines_from(cur, a) + text::line_list(b) =~= text::line_list(b));
    } else {
        assert((a + b).skip(1) =~= a.skip(1) + b);
        if a[0] == '\n' {
            if a.len() > 1 {
                assert(a.skip(1).last() == a.last());
            }
            lemma_lines_joined(Seq::empty(), a.skip(1), b);
            let head = seq![text::without_cr(cur)];
            assert(head + (text::lines_from(Seq::empty(), a.skip(1)) + text::line_list(b)) =~= (head
                + text::lines_from(Seq::empty(), a.skip(1))) + text::line_list(b));
        } else {
            assert(a.skip(1).last() == a.last());
            lemma_lines_joined(cur.push(a[0]), a.skip(1), b);
        }
    }
}

/// What the record tells after one more line was written to it.
proof fn lemma_recorded(content: Seq<char>, line: Seq<char>)
    requires
        content.len() == 0 || content.last() == '\n',
        forall|i: int| 0 <= i < line.len() ==> #[trigger] line[i] != '\n',
    ensures
        health(text::line_list(content + line.push('\n'))) == noted(
            health(text::line_list(content)),
            text::without_cr(line),
        ),
{
    lemma_lines_joined(Seq::empty(), content, line.push('\n'));
    text::lemma_first_line(line, Seq::empty());
    assert(line.push('\n') + Seq::<char>::empty() =~= line.push('\n'));
    let before = text::line_list(content);
    let after = text::line_list(content + line.push('\n'));
    assert(text::line_list(Seq::<char>::empty()) =~= Seq::empty());
    assert(after =~= before.push(text::without_cr(line)));
    assert(after.drop_last() =~= before);
}

/// How a line of the record begins: the time, a space, and what happened.
proof fn lemma_record_begins(secs: nat, what: Seq<char>)
    requires
        what.len() > 0 && what[0] == ' ',
    ensures
        ({
            let line = "ts="@ + text::decimal(secs) + what;
            &&& text::cut(line, " "@) == Some(("ts="@ + text::decimal(secs), what.skip(1)))
            &&& forall|i: int| 0 <= i < 3 + text::decimal(secs).len() ==> #[trigger] line[i] != '\n'
        }),
{
    let head = "ts="@ + text::decimal(secs);
    let line = head + what;
    reveal_strlit("ts=");
    reveal_strlit(" ");
    text::decimal_denotes(secs);
    assert forall|i: int| 0 <= i < head.len() implies #[trigger] line[i] != ' ' && line[i]
        != '\n' by {
        if i >= 3 {
            assert(text::is_digit(text::decimal(secs)[i - 3]));
        }
    }
    let n = head.len() as int;
    assert(text::occurs(line, " "@, n)) by {
        assert(line.subrange(n, n + 1) =~= " "@);
    }
    lemma_first_space(line, n, 0);
    assert(line.take(n) =~= head);
    assert(line.skip(n + 1) =~= what.skip(1));
}

proof fn lemma_first_space(line: Seq<char>, n: int, i: int)
    requires
        0 <= i <= n < line.len(),
        text::occurs(line, " "@, n),
        " "@.len() == 1,
        " "@[0] == ' ',
        forall|j: int| 0 <= j < n ==> #[trigger] line[j] != ' ',
    ensures
        text::first_at(line, " "@, i) == Some(n),
    decreases n - i,
{
    if i < n {
        if text::occurs(line, " "@, i) {
            assert(line.subrange(i, i + 1)[0] == line[i]);
            assert(false);
        }
        lemma_first_space(line, n, i + 1);
    }
}

/// An exit that is recorded is the last one that the record tells. It counts as abnormal
/// if it was an error; an exit without an error does not.
pub proof fn exits_are_recorded(content: Seq<char>, secs: nat, reason: Seq<char>)
    requires
        content.len() == 0 || content.last() == '\n',
    ensures
        ({
            let before = health(text::line_list(content));
            let after = health(text::line_list(content + exit_line(secs, Err(reason))));
            &&& after.abnormal_exits == before.abnormal_exits + 1
            &&& after.respawns == before.respawns
            &&& after.last_exit is Some
            &&& text::begins(after.last_exit->0, "ts="@ + text::decimal(secs) + " exit=error"@)
        }),
        ({
            let before = health(text::line_list(content));
            let after = health(text::line_list(content + exit_line(secs, Ok(()))));
            &&& after.abnormal_exits == before.abnormal_exits
            &&& after.respawns == before.respawns
            &&& after.last_exit == Some(
                "ts="@ + text::decimal(secs) + " exit=ok reason=stop"@,
            )
        }),
{
    lemma_error_recorded(content, secs, reason);
    lemma_stop_recorded(content, secs);
}

proof fn lemma_error_recorded(content: Seq<char>, secs: nat, reason: Seq<char>)
    requires
        content.len() == 0 || content.last() == '\n',
    ensures
        ({
            let before = health(text::line_list(content));
            let after = health(text::line_list(content + exit_line(secs, Err(reason))));
            &&& after.abnormal_exits == before.abnormal_exits + 1
            &&& after.respawns == before.respawns
            &&& after.last_exit is Some
            &&& text::begins(after.last_exit->0, "ts="@ + text::decimal(secs) + " exit=error"@)
        }),
{
    reveal_strlit("\n");
    reveal_strlit(" ");
    reveal_strlit("ts=");
    reveal_strlit(" exit=error reason=");
    reveal_strlit(" exit=error");
    reveal_strlit("exit=error");
    reveal_strlit("respawn ");
    let what = " exit=error reason="@ + on_one_line(reason);
    let head = "ts="@ + text::decimal(secs);
    let line = head + what;
    let n = head.len() as int;
    lemma_record_begins(secs, what);
    assert(exit_line(secs, Err(reason)) =~= line.push('\n'));
    assert forall|i: int| 0 <= i < line.len() implies #[trigger] line[i] != '\n' by {
        if i >= n {
            assert(line[i] == what[i - n]);
        }
    }
    lemma_recorded(content, line);
    let kept = text::without_cr(line);
    assert(kept.len() >= n + 18);
    assert(text::occurs(kept, "exit=error"@, n + 1)) by {
        assert(kept.subrange(n + 1, n + 11) =~= "exit=error"@);
    }
    assert(text::begins(kept, head + " exit=error"@)) by {
        assert(kept.subrange(0, n + 11) =~= head + " exit=error"@);
    }
    let what_kept = kept.skip(n);
    assert(kept =~= head + what_kept);
    lemma_record_begins(secs, what_kept);
    assert(what_kept.skip(1)[0] == 'e');
    assert(!text::begins(what_kept.skip(1), "respawn "@)) by {
        assert(what_kept.skip(1).subrange(0, 8)[0] == 'e');
    }
}

proof fn lemma_stop_recorded(content: Seq<char>, secs: nat)
    requires
        content.len() == 0 || content.last() == '\n',
    ensures
        ({
            let before = health(text::line_list(content));
            let after = health(text::line_list(content + exit_line(secs, Ok(()))));
            &&& after.abnormal_exits == before.abnormal_exits
            &&& after.respawns == before.respawns
            &&& after.last_exit == Some(
                "ts="@ + text::decimal(secs) + " exit=ok reason=stop"@,
            )
        }),
{
    reveal_strlit(" ");
    reveal_strlit("ts=");
    reveal_strlit(" exit=ok reason=stop\n");
    reveal_strlit(" exit=ok reason=stop");
    reveal_strlit("exit=error");
    reveal_strlit("respawn ");
    let what = " exit=ok reason=stop"@;
    let head = "ts="@ + text::decimal(secs);
    let line = head + what;
    let n = head.len() as int;
    lemma_record_begins(secs, what);
    assert(exit_line(secs, Ok(())) =~= line.push('\n'));
    assert forall|i: int| 0 <= i < line.len() implies #[trigger] line[i] != '\n' by {
        if i >= n {
            assert(line[i] == what[i - n]);
        }
    }
    lemma_recorded(content, line);
    assert(line.last() == what.last());
    assert(text::without_cr(line) == line);
    assert(!text::begins(what.skip(1), "respawn "@)) by {
        assert(what.skip(1).subrange(0, 8)[0] == 'e');
    }
    assert(!text::holds(line, "exit=error"@)) by {
        text::decimal_denotes(secs);
        assert forall|i: int| !(#[trigger] text::occurs(line, "exit=error"@, i)) by {
            if text::occurs(line, "exit=error"@, i) {
                let found = line.subrange(i, i + 10);
                assert(found[0] == 'e' && found[4] == '=' && found[5] == 'e');
                assert(line[i] == 'e' && line[i + 4] == '=' && line[i + 5] == 'e');
                if i >= 3 && i < n {
                    assert(text::is_digit(text::decimal(secs)[i - 3]));
                }
                if i >= n {
                    assert(what[i - n] == 'e' && what[i - n + 5] == 'e');
                }
                assert(false);
            }
        }
    }
}

/// A respawn that is recorded counts as one, and is no exit.
pub proof fn respawns_are_recorded(content: Seq<char>, secs: nat, reason: Seq<char>)
    requires
        content.len() == 0 || content.last() == '\n',
    ensures
        ({
            let before = health(text::line_list(content));
            let after = health(text::line_list(content + respawn_line(secs, reason)));
            &&& after.respawns == before.respawns + 1
            &&& after.last_exit == before.last_exit
        }),
{
    reveal_strlit("\n");
    reveal_strlit(" ");
    reveal_strlit("ts=");
    reveal_strlit(" respawn reason=");
    reveal_strlit("respawn ");
    let what = " respawn reason="@ + on_one_line(reason);
    let head = "ts="@ + text::decimal(secs);
    let line = head + what;
    let n = head.len() as int;
    lemma_record_begins(secs, what);
    assert(respawn_line(secs, reason) =~= line.push('\n'));
    assert forall|i: int| 0 <= i < line.len() implies #[trigger] line[i] != '\n' by {
        if i >= n {
            assert(line[i] == what[i - n]);
        }
    }
    lemma_recorded(content, line);
    let kept = text::without_cr(line);
    assert(kept.len() >= n + 15);
    let what_kept = kept.skip(n);
    assert(kept =~= head + what_kept);
    lemma_record_begins(secs, what_kept);
    assert(text::begins(what_kept.skip(1), "respawn "@)) by {
        assert(what_kept.skip(1).subrange(0, 8) =~= "respawn "@);
    }
}

} // verus!
