//! What holds of the browser's and the daemon's processes, files and settings.
use crate::chrome::McpSettings;
use crate::client::{ReadFailure, WaitingView};
use crate::daemon::{DaemonActionView, DaemonEvent, HealthView};
use crate::lock::{LockEvent, LockStepView};
use crate::session::SessionView;
use crate::{
    chrome, client, config, control, control_laws, daemon, diagnostics, lock, queue, session, text,
    text_laws, timing,
};
use vstd::prelude::*;

verus! {

/// The browser listens on its port of this machine only, in its own directory, and gets what
/// else it is told behind that.
pub proof fn browsers_are_started_for_their_directory(
    port: nat,
    dir: Seq<char>,
    extra: Option<Seq<char>>,
)
    ensures
        ({
            let args = chrome::launch_args(port, dir, extra);
            &&& args.contains("--remote-debugging-address=127.0.0.1"@)
            &&& args.contains("--remote-debugging-port="@ + text::decimal(port))
            &&& args.contains("--user-data-dir="@ + dir)
            &&& args.contains("--no-first-run"@)
            &&& args.contains("--no-default-browser-check"@)
            &&& args.contains("--disable-features=PasswordLeakDetection"@)
            &&& args.skip(6) == (match extra {
                Some(words) => text::words(words),
                None => Seq::empty(),
            })
            &&& args.len() == 6 + (match extra {
                Some(words) => text::words(words).len(),
                None => 0,
            })
        }),
{
    let args = chrome::launch_args(port, dir, extra);
    assert(args[0] == "--remote-debugging-address=127.0.0.1"@);
    assert(args[1] == "--remote-debugging-port="@ + text::decimal(port));
    assert(args[2] == "--user-data-dir="@ + dir);
    assert(args[3] == "--no-first-run"@);
    assert(args[4] == "--no-default-browser-check"@);
    assert(args[5] == "--disable-features=PasswordLeakDetection"@);
    assert(args.skip(6) =~= chrome::extra_args(extra));
}

/// The server drives the browser at its port. It is the configured program, or else the
/// configured version of the package, and the daemon's has its pages told apart.
pub proof fn servers_drive_their_browser(settings: McpSettings, port: nat)
    ensures
        ({
            let plain = chrome::server_command(settings, port);
            let own = chrome::daemon_command(settings, port);
            let n = plain.args.len() as int;
            &&& plain.args.skip(n - 4) == seq![
                "--browser-url"@,
                "http://127.0.0.1:"@ + text::decimal(port),
                "--no-usage-statistics"@,
                "--no-performance-crux"@,
            ]
            &&& settings.program matches Some(program) ==> plain.program == program@ && n == 4
            &&& settings.program is None ==> plain.program == "npx"@ && n == 6 && plain.args[0]
                == "-y"@ && plain.args[1] == "chrome-devtools-mcp@"@ + (match settings.version {
                Some(version) => version@,
                None => "1.5.0"@,
            })
            &&& own.program == plain.program && own.node_options == plain.node_options
            &&& own.args == plain.args + seq![
                "--experimentalPageIdRouting"@,
                "--experimentalStructuredContent"@,
            ]
        }),
{
    let plain = chrome::server_command(settings, port);
    let own = chrome::daemon_command(settings, port);
    let n = plain.args.len() as int;
    assert(plain.args.skip(n - 4) =~= seq![
        "--browser-url"@,
        "http://127.0.0.1:"@ + text::decimal(port),
        "--no-usage-statistics"@,
        "--no-performance-crux"@,
    ]);
    assert(own.args =~= plain.args + seq![
        "--experimentalPageIdRouting"@,
        "--experimentalStructuredContent"@,
    ]);
}

/// The server's memory is limited as configured, and what else its runtime was told stays.
pub proof fn servers_have_a_limit(settings: McpSettings)
    ensures
        ({
            let limit = "--max-old-space-size="@ + (match settings.max_old_space_mb {
                Some(megabytes) => megabytes@,
                None => "2048"@,
            });
            let told = chrome::node_told(settings);
            &&& settings.node_options is None || settings.node_options->0@.len() == 0 ==> told
                == limit
            &&& settings.node_options is Some && settings.node_options->0@.len() > 0 ==> told
                == settings.node_options->0@ + seq![' '] + limit
        }),
{
    reveal_strlit(" ");
    assert(" "@ =~= seq![' ']);
}

/// A browser is known by its directory and is no helper process; its port stands in its
/// command line. Of several, the first that has a port counts.
pub proof fn the_first_browser_counts(lines: Seq<Seq<char>>, dir: Seq<char>, k: int)
    requires
        0 <= k <= lines.len(),
        forall|i: int|
            0 <= i < k ==> text::holds(#[trigger] lines[i], "--type="@) || !text::holds(
                lines[i],
                "--user-data-dir="@ + dir,
            ) || chrome::debugging_port(lines[i]) is None,
        k < lines.len() ==> !text::holds(lines[k], "--type="@) && text::holds(
            lines[k],
            "--user-data-dir="@ + dir,
        ) && chrome::debugging_port(lines[k]) is Some,
    ensures
        chrome::browser_port(lines, dir) == (if k < lines.len() {
            chrome::debugging_port(lines[k])
        } else {
            None
        }),
    decreases lines.len(),
{
    if lines.len() > 0 && k > 0 {
        let rest = lines.skip(1);
        assert(text::holds(lines[0], "--type="@) || !text::holds(lines[0], "--user-data-dir="@ + dir)
            || chrome::debugging_port(lines[0]) is None);
        assert forall|i: int| 0 <= i < k - 1 implies text::holds(#[trigger] rest[i], "--type="@)
            || !text::holds(rest[i], "--user-data-dir="@ + dir) || chrome::debugging_port(rest[i])
            is None by {
            assert(rest[i] == lines[i + 1]);
        }
        the_first_browser_counts(rest, dir, k - 1);
    }
}

proof fn lemma_process_sum(
    a: Seq<(String, Option<Vec<u8>>)>,
    b: Seq<(String, Option<Vec<u8>>)>,
)
    ensures
        chrome::process_lines(a + b) == chrome::process_lines(a) + chrome::process_lines(b),
    decreases b.len(),
{
    if b.len() == 0 {
        assert(a + b =~= a);
        assert(chrome::process_lines(a) + chrome::process_lines(b) =~= chrome::process_lines(a));
    } else {
        lemma_process_sum(a, b.drop_last());
        assert((a + b).drop_last() =~= a + b.drop_last());
        assert((a + b).last() == b.last());
        assert(chrome::process_lines(a + b) =~= chrome::process_lines(a) + chrome::process_lines(b));
    }
}

/// The processes are the entries with a number for a name whose command line can be read, in
/// order; its parts are set apart by spaces.
pub proof fn processes_are_told_one_by_one(
    a: Seq<(String, Option<Vec<u8>>)>,
    entry: (String, Option<Vec<u8>>),
    b: Seq<(String, Option<Vec<u8>>)>,
)
    ensures
        ({
            let numbered = forall|i: int|
                0 <= i < entry.0@.len() ==> '0' <= #[trigger] entry.0@[i] <= '9';
            chrome::process_lines(a + seq![entry] + b) == chrome::process_lines(a) + (match entry.1 {
                Some(bytes) => if numbered {
                    seq![chrome::cmdline_view(bytes@)]
                } else {
                    Seq::empty()
                },
                None => Seq::empty(),
            }) + chrome::process_lines(b)
        }),
        entry.1 matches Some(bytes) ==> chrome::cmdline_view(bytes@).len() == bytes@.len()
            && forall|i: int|
            0 <= i < bytes@.len() ==> #[trigger] chrome::cmdline_view(bytes@)[i] == (if bytes@[i]
                == 0 {
                ' '
            } else {
                bytes@[i] as char
            }),
{
    lemma_process_sum(a + seq![entry], b);
    lemma_process_sum(a, seq![entry]);
    let one = seq![entry];
    assert(one.drop_last() =~= Seq::empty());
    assert(chrome::process_lines(Seq::empty()) =~= Seq::empty());
    let numbered = forall|i: int|
        0 <= i < entry.0@.len() ==> '0' <= #[trigger] entry.0@[i] <= '9';
    assert(numbered == text::all_digits(entry.0@)) by {
        if text::all_digits(entry.0@) {
            assert forall|i: int| 0 <= i < entry.0@.len() implies '0' <= #[trigger] entry.0@[i]
                <= '9' by {
                assert(text::is_digit(entry.0@[i]));
            }
        }
    }
    assert(chrome::process_lines(one) =~= (match entry.1 {
        Some(bytes) => if numbered {
            seq![chrome::cmdline_view(bytes@)]
        } else {
            Seq::empty()
        },
        None => Seq::empty(),
    }));
}

/// The port of a browser is the number behind its flag, up to the next space.
pub proof fn ports_stand_behind_their_flag(before: Seq<char>, port: u16, rest: Seq<char>)
    requires
        text::first_at(before + "--remote-debugging-port="@, "--remote-debugging-port="@, 0)
            == Some(before.len() as int),
        rest.len() > 0 ==> text::whitespace(rest[0]),
    ensures
        chrome::debugging_port(
            before + "--remote-debugging-port="@ + text::decimal(port as nat) + rest,
        ) == Some(port),
{
    let flag = "--remote-debugging-port="@;
    let digits = text::decimal(port as nat);
    let line = before + flag + digits + rest;
    let n = before.len() as int;
    let start = n + flag.len();
    text::lemma_first_at(before + flag, flag, 0);
    text::lemma_first_at(line, flag, 0);
    assert(text::occurs(line, flag, n)) by {
        assert(line.subrange(n, n + flag.len()) =~= flag);
    }
    assert forall|j: int| 0 <= j < n implies !#[trigger] text::occurs(line, flag, j) by {
        if text::occurs(line, flag, j) {
            assert((before + flag).subrange(j, j + flag.len()) =~= line.subrange(
                j,
                j + flag.len(),
            ));
            assert(text::occurs(before + flag, flag, j));
        }
    }
    text::decimal_denotes(port as nat);
    let end = start + digits.len();
    lemma_word_end(line, start, end);
    assert(line.subrange(start, end) =~= digits);
    text::printing_and_parsing_agree(port as nat, u16::MAX as nat);
}

proof fn lemma_word_end(line: Seq<char>, i: int, end: int)
    requires
        0 <= i <= end <= line.len(),
        end < line.len() ==> text::whitespace(line[end]),
        forall|k: int| i <= k < end ==> text::is_digit(#[trigger] line[k]),
    ensures
        chrome::word_end(line, i) == end,
    decreases end - i,
{
    if i < end {
        assert(text::is_digit(line[i]));
        lemma_word_end(line, i + 1, end);
    }
}

/// A file of a daemon lies in the cache of the home directory, under the safe name of the
/// profile and with its own ending; a lock in the directory of locks. Without a home there is
/// none.
pub proof fn files_lie_in_the_cache(home: Seq<char>, name: Seq<char>, ending: Seq<char>)
    requires
        home.len() > 0,
        home.last() != '/',
        name.len() > 0,
    ensures
        daemon::daemon_file(Some(home), name, ending) == Ok::<_, Seq<char>>(
            home + "/.cache/chrome-devtools/daemons/"@ + lock::safe_name(name) + ending,
        ),
        lock::locks_dir(Some(home)) == Ok::<_, Seq<char>>(
            home + "/.cache/chrome-devtools/locks"@,
        ),
        daemon::daemon_file(None, name, ending) is Err,
        lock::locks_dir(None) is Err,
{
    reveal_strlit(".cache/chrome-devtools");
    reveal_strlit("/.cache/chrome-devtools/daemons/");
    reveal_strlit("/.cache/chrome-devtools/locks");
    reveal_strlit("daemons");
    reveal_strlit("locks");
    reveal_strlit("/");
    let cache = config::CACHE_RELATIVE_PATH@;
    assert(cache == ".cache/chrome-devtools"@);
    lemma_no_slash(cache);
    lemma_no_slash("daemons"@);
    lemma_no_slash("locks"@);
    let dir = home + "/"@ + cache;
    assert(dir.last() == 's');
    let daemons = dir + "/"@ + "daemons"@;
    assert(daemons.last() == 's');
    let file = lock::safe_name(name) + ending;
    lock::safe_names_are_safe(name);
    assert(lock::safe_char(lock::safe_name(name)[0]));
    assert(file[0] == lock::safe_name(name)[0]);
    lemma_no_slash(file);
    assert(daemons + "/"@ + file =~= home + "/.cache/chrome-devtools/daemons/"@ + lock::safe_name(
        name,
    ) + ending);
    assert(dir + "/"@ + "locks"@ =~= home + "/.cache/chrome-devtools/locks"@);
}

proof fn lemma_no_slash(s: Seq<char>)
    requires
        s.len() > 0,
        s[0] != '/',
    ensures
        !text::begins(s, "/"@),
{
    reveal_strlit("/");
    if text::begins(s, "/"@) {
        assert(s.subrange(0, 1)[0] == '/');
    }
}

/// A lock is taken when it could be made. One that is held is tried again at once where a
/// stale one was removed, waited for while there is time, and else refused.
pub proof fn locks_are_waited_for(
    name: Seq<char>,
    path: Seq<char>,
    removed: bool,
    error: String,
    waited: nat,
    timeout: nat,
)
    ensures
        lock::locking(name, path, LockEvent::Created, waited, timeout) is Acquired,
        ({
            let step = lock::locking(name, path, LockEvent::Taken { removed }, waited, timeout);
            &&& removed ==> step is Retry
            &&& !removed && waited < timeout ==> step is Wait
            &&& !removed && waited >= timeout ==> step is Fail
        }),
        lock::locking(name, path, LockEvent::Failed(error), waited, timeout) is Fail,
{
}

/// The process of a lock is the first that the lock names.
pub proof fn the_first_process_counts(first: Seq<char>, rest: Seq<Seq<char>>)
    ensures
        lock::first_pid(seq![first] + rest) == (match lock::line_pid(first) {
            Some(pid) => Some(pid),
            None => lock::first_pid(rest),
        }),
        lock::first_pid(Seq::empty()) is None,
        !text::begins(first, "pid="@) ==> lock::line_pid(first) is None,
{
    assert((seq![first] + rest).skip(1) =~= rest);
    assert((seq![first] + rest)[0] == first);
}

/// A setting is its number in its unit, and the default where there is none or where it is
/// no number.
pub proof fn settings_are_numbers(n: u64, other: Seq<char>, unit: nat, default: nat)
    ensures
        timing::setting(Some(text::decimal(n as nat)), unit, default) == n * unit,
        timing::setting(None, unit, default) == default,
        text::parsed(other, u64::MAX as nat) is None ==> timing::setting(Some(other), unit, default)
            == default,
{
    text::printing_and_parsing_agree(n as nat, u64::MAX as nat);
}

/// Old measurements are dropped from the front until one is within the window; from there on
/// all are kept.
pub proof fn old_measurements_are_dropped(records: Seq<(i128, u128)>, start: int, k: int)
    requires
        0 <= k <= records.len(),
        forall|i: int| 0 <= i < k ==> (#[trigger] records[i]).0 < start,
        k < records.len() ==> records[k].0 >= start,
    ensures
        diagnostics::pruned(records, start) == records.skip(k),
    decreases records.len(),
{
    if k == 0 {
        assert(records.skip(0) =~= records);
    } else {
        let rest = records.skip(1);
        assert(records[0].0 < start);
        assert forall|i: int| 0 <= i < k - 1 implies (#[trigger] rest[i]).0 < start by {
            assert(rest[i] == records[i + 1]);
        }
        old_measurements_are_dropped(rest, start, k - 1);
        assert(rest.skip(k - 1) =~= records.skip(k));
    }
}

/// The window reaches back from now.
pub proof fn the_window_reaches_back(now: int, window: int)
    requires
        now - window >= i128::MIN,
    ensures
        diagnostics::cutoff(now, window) == now - window,
{
}

/// A span of time is what passed, and nothing where the clock went back. Seconds are whole
/// ones since the beginning.
pub proof fn times_are_measured(from: int, passed: int)
    ensures
        passed >= 0 ==> queue::span(from, from + passed) == passed,
        passed < 0 ==> queue::span(from, from + passed) == 0,
        0 <= from <= u64::MAX ==> session::seconds(from * 1_000_000_000) == from
            && session::seconds(from * 1_000_000_000 + 999_999_999) == from,
        from < 0 ==> session::seconds(from) == 0,
{
    assert((from * 1_000_000_000) / 1_000_000_000 == from);
    assert((from * 1_000_000_000 + 999_999_999) / 1_000_000_000 == from);
}

/// The daemon ends when a client tells it to or fails beyond repair, and for nothing else.
pub proof fn daemons_end_for_a_reason(event: DaemonEvent)
    ensures
        daemon::daemon_turn(event) is Stop <==> event == DaemonEvent::ClientEnded(Ok(true)) || (
        event matches DaemonEvent::ClientEnded(Err(e)) && e is Fatal),
        daemon::daemon_turn(event) is Serve <==> event is Accepted,
        daemon::daemon_turn(event) is Sleep <==> event is NoClient,
        daemon::daemon_turn(event) matches DaemonActionView::Stop(reason) ==> (reason is None
            <==> event == DaemonEvent::ClientEnded(Ok(true))),
{
}

/// What a record of health tells is what its lines tell one after the other.
pub proof fn health_is_told_line_by_line(lines: Seq<Seq<char>>, line: Seq<char>)
    ensures
        ({
            let before = daemon::health(lines);
            let after = daemon::health(lines.push(line));
            &&& after.respawns == before.respawns + (if daemon::is_respawn(line) {
                1nat
            } else {
                0nat
            })
            &&& after.abnormal_exits == before.abnormal_exits + (if text::holds(
                line,
                "exit=error"@,
            ) {
                1nat
            } else {
                0nat
            })
            &&& daemon::is_respawn(line) ==> after.last_exit == before.last_exit
            &&& !daemon::is_respawn(line) ==> after.last_exit == Some(line)
        }),
        daemon::health(Seq::empty()) == (HealthView {
            last_exit: None,
            abnormal_exits: 0,
            respawns: 0,
        }),
{
    assert(lines.push(line).drop_last() =~= lines);
}

/// A daemon is waited for until it is there or the time is up.
pub proof fn waits_are_limited(done: bool, waited: nat, timeout: nat, message: Seq<char>)
    ensures
        ({
            let step = client::waiting(done, waited, timeout, message);
            &&& waited >= timeout ==> step == WaitingView::Expired(message)
            &&& waited < timeout && done ==> step is Done
            &&& waited < timeout && !done ==> step is Again
        }),
{
}

/// A daemon runs if it says that it is ready, or is too busy to answer; it does not if it
/// cannot be reached or fails otherwise.
pub proof fn daemons_say_that_they_run(response: Seq<char>, failure: ReadFailure, timeout: nat)
    requires
        failure matches ReadFailure::Other(_),
    ensures
        !client::runs(None),
        client::runs(Some(Ok(response))) <==> text::holds(response, "daemon=ready"@),
        !client::runs(Some(Err(client::request_failure(failure, timeout)))),
{
    reveal_strlit("failed to read daemon response: ");
    reveal_strlit("daemon busy");
    let message = client::request_failure(failure, timeout);
    assert(message[0] == 'f');
    if text::begins(message, client::DAEMON_BUSY_PREFIX@) {
        assert(message.subrange(0, "daemon busy"@.len() as int)[0] == 'd');
    }
}

/// A client warns of a daemon of another version, and of no other.
pub proof fn other_versions_are_warned_of(name: Seq<char>, own: Seq<char>, response: Seq<char>)
    ensures
        client::version_warning(name, own, response) is None <==> control::assigned(
            text::words(response),
            "version="@,
        ) == Some(own),
        client::version_warning(name, own, response) matches Some(warning) ==> text::begins(
            warning,
            "warning: daemon for profile "@ + name,
        ),
{
    let start = "warning: daemon for profile "@ + name;
    if let Some(warning) = client::version_warning(name, own, response) {
        assert(warning.subrange(0, start.len() as int) =~= start);
    }
}

/// The line about a session tells each of its fields under its name.
pub proof fn session_lines_are_read_back(s: SessionView)
    requires
        text_laws::wordlike(s.id),
        s.url matches Some(url) ==> text_laws::wordlike(url),
        s.target matches Some(target) ==> text_laws::wordlike(target),
        0 <= s.created_at,
        0 <= s.last_used_at,
    ensures
        ({
            let words = text::words(session::session_line(s));
            let seen = |b: bool|
                if b {
                    "true"@
                } else {
                    "false"@
                };
            &&& control::assigned(words, "session="@) == Some(s.id)
            &&& control::assigned(words, "created="@) == Some(
                text::decimal(session::seconds(s.created_at) as nat),
            )
            &&& control::assigned(words, "last_used="@) == Some(
                text::decimal(session::seconds(s.last_used_at) as nat),
            )
            &&& control::assigned(words, "owned="@) == Some(seen(s.owned))
            &&& control::assigned(words, "page="@) == Some(
                match s.page {
                    Some(n) => text::decimal(n as nat),
                    None => Seq::empty(),
                },
            )
            &&& control::assigned(words, "page_created_by_daemon="@) == Some(seen(s.by_daemon))
            &&& control::assigned(words, "page_url="@) == Some(
                match s.url {
                    Some(url) => url,
                    None => Seq::empty(),
                },
            )
            &&& control::assigned(words, "target_id="@) == Some(
                match s.target {
                    Some(target) => target,
                    None => Seq::empty(),
                },
            )
            &&& control::assigned(words, "snapshot_epoch="@) == Some(text::decimal(s.epoch as nat))
        }),
{
    reveal_strlit("");
    assert(""@ =~= Seq::empty());
    lemma_names();
    let values = seq![
        s.id,
        text::decimal(session::seconds(s.created_at) as nat),
        text::decimal(session::seconds(s.last_used_at) as nat),
        session::flag(s.owned),
        session::page_text(s.page),
        session::flag(s.by_daemon),
        session::or_empty(s.url),
        session::or_empty(s.target),
        text::decimal(s.epoch as nat),
    ];
    let names = field_names();
    let words = Seq::new(9, |i: int| names[i] + values[i]);
    lemma_number_is_word(session::seconds(s.created_at) as nat);
    lemma_number_is_word(session::seconds(s.last_used_at) as nat);
    lemma_number_is_word(s.epoch as nat);
    if let Some(n) = s.page {
        lemma_number_is_word(n as nat);
    }
    reveal_strlit("true");
    reveal_strlit("false");
    assert(text_laws::wordlike("true"@) && text_laws::wordlike("false"@));
    assert forall|i: int| 0 <= i < 9 implies text_laws::wordlike(#[trigger] values[i]) by {}
    lemma_line(s, words);
    assert forall|k: int| 0 <= k < 9 implies control::assigned(
        text::words(session::session_line(s)),
        #[trigger] names[k],
    ) == Some(values[k]) by {
        let a = words.take(k);
        let b = words.skip(k + 1);
        assert(words =~= a + seq![names[k] + values[k]] + b);
        assert forall|i: int| 0 <= i < a.len() implies (#[trigger] a[i]).len() > 0
            && text_laws::wordlike(a[i]) && !text::begins(a[i], names[k]) by {
            assert(a[i] == names[i] + values[i]);
            lemma_word(names[i], values[i]);
            lemma_other_name(i, k, values[i]);
        }
        assert forall|i: int| 0 <= i < b.len() implies (#[trigger] b[i]).len() > 0
            && text_laws::wordlike(b[i]) by {
            assert(b[i] == names[i + k + 1] + values[i + k + 1]);
            lemma_word(names[i + k + 1], values[i + k + 1]);
        }
        control_laws::values_are_found_by_name(a, names[k], values[k], b);
    }
    assert(names[0] == "session="@ && names[1] == "created="@ && names[2] == "last_used="@
        && names[3] == "owned="@ && names[4] == "page="@ && names[5] == "page_created_by_daemon="@
        && names[6] == "page_url="@ && names[7] == "target_id="@ && names[8]
        == "snapshot_epoch="@);
    assert(values[0] == s.id);
}

spec fn field_names() -> Seq<Seq<char>> {
    seq![
        "session="@,
        "created="@,
        "last_used="@,
        "owned="@,
        "page="@,
        "page_created_by_daemon="@,
        "page_url="@,
        "target_id="@,
        "snapshot_epoch="@,
    ]
}

proof fn lemma_number_is_word(n: nat)
    ensures
        text_laws::wordlike(text::decimal(n)),
{
    text::decimal_denotes(n);
    let d = text::decimal(n);
    assert forall|i: int| 0 <= i < d.len() implies !text::whitespace(#[trigger] d[i]) by {
        assert(text::is_digit(d[i]));
    }
}

proof fn lemma_word(name: Seq<char>, value: Seq<char>)
    requires
        name.len() > 0,
        text_laws::wordlike(name),
        text_laws::wordlike(value),
    ensures
        (name + value).len() > 0,
        text_laws::wordlike(name + value),
{
    let c = name + value;
    assert forall|i: int| 0 <= i < c.len() implies !text::whitespace(#[trigger] c[i]) by {
        if i < name.len() {
            assert(c[i] == name[i]);
        } else {
            assert(c[i] == value[i - name.len()]);
        }
    }
}

proof fn lemma_names()
    ensures
        forall|i: int|
            0 <= i < 9 ==> (#[trigger] field_names()[i]).len() > 0 && text_laws::wordlike(
                field_names()[i],
            ),
{
    reveal_strlit("session=");
    reveal_strlit("created=");
    reveal_strlit("last_used=");
    reveal_strlit("owned=");
    reveal_strlit("page=");
    reveal_strlit("page_created_by_daemon=");
    reveal_strlit("page_url=");
    reveal_strlit("target_id=");
    reveal_strlit("snapshot_epoch=");
    let names = field_names();
    assert forall|i: int| 0 <= i < 9 implies (#[trigger] names[i]).len() > 0
        && text_laws::wordlike(names[i]) by {
        assert(names[0] == "session="@ && names[1] == "created="@ && names[2] == "last_used="@
            && names[3] == "owned="@ && names[4] == "page="@ && names[5]
            == "page_created_by_daemon="@ && names[6] == "page_url="@ && names[7] == "target_id="@
            && names[8] == "snapshot_epoch="@);
    }
}

/// No field's word begins with the name of a later field.
proof fn lemma_other_name(i: int, k: int, value: Seq<char>)
    requires
        0 <= i < k < 9,
    ensures
        !text::begins(field_names()[i] + value, field_names()[k]),
{
    reveal_strlit("session=");
    reveal_strlit("created=");
    reveal_strlit("last_used=");
    reveal_strlit("owned=");
    reveal_strlit("page=");
    reveal_strlit("page_created_by_daemon=");
    reveal_strlit("page_url=");
    reveal_strlit("target_id=");
    reveal_strlit("snapshot_epoch=");
    let names = field_names();
    let word = names[i] + value;
    assert(names[0] == "session="@ && names[1] == "created="@ && names[2] == "last_used="@
        && names[3] == "owned="@ && names[4] == "page="@ && names[5] == "page_created_by_daemon="@
        && names[6] == "page_url="@ && names[7] == "target_id="@ && names[8] == "snapshot_epoch="@);
    if text::begins(word, names[k]) {
        let front = word.subrange(0, names[k].len() as int);
        assert(front == names[k]);
        assert(front[0] == word[0] && word[0] == names[i][0]);
        assert(front[1] == word[1] && word[1] == names[i][1]);
        assert(front[4] == word[4]);
        if i == 4 {
            assert(word[4] == '=');
        }
        if i == 5 && k == 6 {
            assert(front[5] == word[5] && word[5] == 'c');
        }
    }
}

proof fn lemma_line(s: SessionView, words: Seq<Seq<char>>)
    requires
        words.len() == 9,
        words[0] == "session="@ + s.id,
        words[1] == "created="@ + text::decimal(session::seconds(s.created_at) as nat),
        words[2] == "last_used="@ + text::decimal(session::seconds(s.last_used_at) as nat),
        words[3] == "owned="@ + session::flag(s.owned),
        words[4] == "page="@ + session::page_text(s.page),
        words[5] == "page_created_by_daemon="@ + session::flag(s.by_daemon),
        words[6] == "page_url="@ + session::or_empty(s.url),
        words[7] == "target_id="@ + session::or_empty(s.target),
        words[8] == "snapshot_epoch="@ + text::decimal(s.epoch as nat),
    ensures
        session::session_line(s) == control_laws::spaced(words),
{
    let l0 = words[0];
    assert(control_laws::spaced(seq![words[0]]) == words[0]);
    assert(words.take(1) =~= seq![words[0]]);
    reveal_strlit("created=");
    reveal_strlit(" created=");
    assert(" created="@ =~= seq![' '] + "created="@);
    let l1 = l0 + " created="@ + text::decimal(session::seconds(s.created_at) as nat);
    lemma_join(l0, " created="@, "created="@, text::decimal(session::seconds(s.created_at) as nat), words, 1);
    reveal_strlit("last_used=");
    reveal_strlit(" last_used=");
    assert(" last_used="@ =~= seq![' '] + "last_used="@);
    let l2 = l1 + " last_used="@ + text::decimal(session::seconds(s.last_used_at) as nat);
    lemma_join(l1, " last_used="@, "last_used="@, text::decimal(session::seconds(s.last_used_at) as nat), words, 2);
    reveal_strlit("owned=");
    reveal_strlit(" owned=");
    assert(" owned="@ =~= seq![' '] + "owned="@);
    let l3 = l2 + " owned="@ + session::flag(s.owned);
    lemma_join(l2, " owned="@, "owned="@, session::flag(s.owned), words, 3);
    reveal_strlit("page=");
    reveal_strlit(" page=");
    assert(" page="@ =~= seq![' '] + "page="@);
    let l4 = l3 + " page="@ + session::page_text(s.page);
    lemma_join(l3, " page="@, "page="@, session::page_text(s.page), words, 4);
    reveal_strlit("page_created_by_daemon=");
    reveal_strlit(" page_created_by_daemon=");
    assert(" page_created_by_daemon="@ =~= seq![' '] + "page_created_by_daemon="@);
    let l5 = l4 + " page_created_by_daemon="@ + session::flag(s.by_daemon);
    lemma_join(l4, " page_created_by_daemon="@, "page_created_by_daemon="@, session::flag(s.by_daemon), words, 5);
    reveal_strlit("page_url=");
    reveal_strlit(" page_url=");
    assert(" page_url="@ =~= seq![' '] + "page_url="@);
    let l6 = l5 + " page_url="@ + session::or_empty(s.url);
    lemma_join(l5, " page_url="@, "page_url="@, session::or_empty(s.url), words, 6);
    reveal_strlit("target_id=");
    reveal_strlit(" target_id=");
    assert(" target_id="@ =~= seq![' '] + "target_id="@);
    let l7 = l6 + " target_id="@ + session::or_empty(s.target);
    lemma_join(l6, " target_id="@, "target_id="@, session::or_empty(s.target), words, 7);
    reveal_strlit("snapshot_epoch=");
    reveal_strlit(" snapshot_epoch=");
    assert(" snapshot_epoch="@ =~= seq![' '] + "snapshot_epoch="@);
    let l8 = l7 + " snapshot_epoch="@ + text::decimal(s.epoch as nat);
    lemma_join(l7, " snapshot_epoch="@, "snapshot_epoch="@, text::decimal(s.epoch as nat), words, 8);
    assert(words.take(1) =~= seq![words[0]]);
    assert(words.take(9) =~= words);
}

/// A name and a value behind a space.
proof fn lemma_join(
    front: Seq<char>,
    spaced_name: Seq<char>,
    name: Seq<char>,
    value: Seq<char>,
    words: Seq<Seq<char>>,
    k: int,
)
    requires
        spaced_name == seq![' '] + name,
        1 <= k < words.len(),
        words[k] == name + value,
        front == control_laws::spaced(words.take(k)),
    ensures
        front + spaced_name + value == control_laws::spaced(words.take(k + 1)),
{
    assert(words.take(k + 1) =~= words.take(k).push(words[k]));
    lemma_spaced_push(words.take(k), words[k]);
    assert(front + spaced_name + value =~= front + seq![' '] + words[k]);
}

proof fn lemma_spaced_push(list: Seq<Seq<char>>, x: Seq<char>)
    requires
        list.len() > 0,
    ensures
        control_laws::spaced(list.push(x)) == control_laws::spaced(list) + seq![' '] + x,
    decreases list.len(),
{
    let more = list.push(x);
    if list.len() == 1 {
        assert(more.skip(1) =~= seq![x]);
        assert(control_laws::spaced(seq![x]) == x);
    } else {
        let rest = list.skip(1);
        assert(more.skip(1) =~= rest.push(x));
        lemma_spaced_push(rest, x);
        assert(control_laws::spaced(more) =~= control_laws::spaced(list) + seq![' '] + x);
    }
}

/// A recorded reason stands on one line, and is else as it was.
pub proof fn reasons_stand_on_one_line(reason: Seq<char>, secs: nat)
    ensures
        ({
            let shown = daemon::on_one_line(reason);
            &&& shown.len() == reason.len()
            &&& forall|i: int|
                0 <= i < reason.len() ==> #[trigger] shown[i] == (if reason[i] == '\n' {
                    ' '
                } else {
                    reason[i]
                })
            &&& daemon::exit_line(secs, Err(reason)) == "ts="@ + text::decimal(secs)
                + " exit=error reason="@ + shown + seq!['\n']
            &&& daemon::respawn_line(secs, reason) == "ts="@ + text::decimal(secs)
                + " respawn reason="@ + shown + seq!['\n']
        }),
{
    reveal_strlit("\n");
    assert("\n"@ =~= seq!['\n']);
}

/// A lock tells the process and the profile.
pub proof fn locks_tell_process_and_profile(pid: nat, name: Seq<char>)
    ensures
        lock::lock_text(pid, name) == "pid="@ + text::decimal(pid) + seq!['\n'] + "profile="@ + name
            + seq!['\n'],
{
    reveal_strlit("\n");
    assert("\n"@ =~= seq!['\n']);
}

/// A path that begins with a slash leads where it says; any other leads on from the
/// directory, with one slash between them.
pub proof fn paths_lead_on(base: Seq<char>, path: Seq<char>)
    ensures
        path.len() > 0 && path[0] == '/' ==> config::path_under(base, path) == path,
        !(path.len() > 0 && path[0] == '/') && base.len() > 0 && base.last() != '/'
            ==> config::path_under(base, path) == base + seq!['/'] + path,
        !(path.len() > 0 && path[0] == '/') && (base.len() == 0 || base.last() == '/')
            ==> config::path_under(base, path) == base + path,
        config::home_path(Some(base), path) == Ok::<_, Seq<char>>(config::path_under(base, path)),
        config::home_path(None, path) is Err,
{
    reveal_strlit("/");
    assert("/"@ =~= seq!['/']);
    if path.len() > 0 && path[0] == '/' {
        assert(path.subrange(0, 1) =~= "/"@);
    }
    if text::begins(path, "/"@) {
        assert(path.subrange(0, 1)[0] == '/');
    }
}

/// A queued request counts as one more, and one that was taken as one fewer.
pub proof fn the_queue_counts_one_by_one(queued: usize)
    ensures
        queued < usize::MAX ==> queue::one_more(queued) == queued + 1,
        queued > 0 ==> queue::one_fewer(queued) == queued - 1,
{
}

/// What slow commands and requests are noted with.
pub proof fn slow_work_is_noted(
    name: Seq<char>,
    tool: Seq<char>,
    id: Seq<char>,
    t: diagnostics::ForwardTiming,
    elapsed: nat,
    max_ms: nat,
)
    ensures
        diagnostics::control_warning(name, elapsed, max_ms)
            == "warning: slow control command="@ + name + " elapsed_ms="@ + text::decimal(
            elapsed / 1_000_000,
        ) + " max_control_latency_ms="@ + text::decimal(max_ms),
        diagnostics::forward_warning(name, tool, Some(id), t, max_ms)
            == "warning: slow forward method="@ + name + " tool="@ + tool + " session="@ + id
            + " queue_wait_ms="@ + text::decimal(t.queue_wait as nat / 1_000_000) + " total_ms="@
            + text::decimal(t.total as nat / 1_000_000) + " queued_at_enqueue="@ + text::decimal(
            t.queued_at_enqueue as nat,
        ) + " queued_after_done="@ + text::decimal(t.queued_after_done as nat)
            + " max_forward_latency_ms="@ + text::decimal(max_ms),
{
}

/// The status tells how long work took at most, within which time, and the port of the
/// browser.
pub proof fn the_status_tells_latencies(
    status: control::DaemonStatus,
    list: Seq<session::SessionState>,
)
    ensures
        ({
            let line = control::status_line(status, list);
            let d = status.diagnostics;
            let told = " max_control_latency_ms="@ + text::decimal(d.max_control_latency_ms as nat)
                + " max_forward_latency_ms="@ + text::decimal(d.max_forward_latency_ms as nat)
                + " diagnostic_window_secs="@ + text::decimal(d.window_secs as nat)
                + " mcp_port="@;
            text::holds(line, told)
        }),
{
    let line = control::status_line(status, list);
    let d = status.diagnostics;
    let told = " max_control_latency_ms="@ + text::decimal(d.max_control_latency_ms as nat)
        + " max_forward_latency_ms="@ + text::decimal(d.max_forward_latency_ms as nat)
        + " diagnostic_window_secs="@ + text::decimal(d.window_secs as nat) + " mcp_port="@;
    let front = "daemon=ready version="@ + status.version@ + " sessions="@ + text::decimal(
        list.len(),
    ) + " active_sessions="@ + text::decimal(control::bound_count(list)) + " pages="@
        + control::pages_text(list) + " queued_mcp_requests="@ + text::decimal(
        status.queued as nat,
    );
    let port = text::decimal(
        match status.port {
            Some(port) => port as nat,
            None => 0,
        },
    );
    lemma_regroup(
        front,
        " max_control_latency_ms="@,
        text::decimal(d.max_control_latency_ms as nat),
        " max_forward_latency_ms="@,
        text::decimal(d.max_forward_latency_ms as nat),
        " diagnostic_window_secs="@,
        text::decimal(d.window_secs as nat),
        " mcp_port="@,
        port,
    );
    text_laws::texts_are_found(front, told, port, line);
}

proof fn lemma_regroup(
    front: Seq<char>,
    a: Seq<char>,
    b: Seq<char>,
    c: Seq<char>,
    d: Seq<char>,
    e: Seq<char>,
    f: Seq<char>,
    g: Seq<char>,
    h: Seq<char>,
)
    ensures
        front + a + b + c + d + e + f + g + h == front + (a + b + c + d + e + f + g) + h,
{
    assert(front + a + b + c + d + e + f + g =~= front + (a + b + c + d + e + f + g));
}

/// Only the reports leave everything as it is, and they tell the status or the sessions.
pub proof fn reports_are_told(
    head: Seq<char>,
    status: control::DaemonStatus,
    list: Seq<session::SessionState>,
)
    ensures
        control::is_report(head) <==> head == "status"@ || head == "session_list"@,
        control::report("status"@, status, list).lines == seq![control::status_line(status, list)],
        control::report("session_list"@, status, list).lines == control::session_lines(list),
        control::report(head, status, list).outcome == control::ControlOutcome::CloseConnection,
        control::report(head, status, list).cleanup is None,
{
    reveal_strlit("status");
    reveal_strlit("session_list");
    assert("status"@.len() == 6 && "session_list"@.len() == 12);
}

/// What an answer is labelled with: its method and its tool, or that it is no message.
pub proof fn messages_are_labelled(v: crate::json::JsonView, error: Seq<char>)
    ensures
        crate::rpc::label_of(Ok(v)) == (
            crate::route_laws::method_in(v),
            crate::route_laws::tool_in(v),
        ),
        crate::rpc::label_of(Err(error)).0 == "invalid"@,
        crate::rpc::label_of(Err(error)).1.len() == 0,
{
    reveal_strlit("");
    assert(""@ =~= Seq::empty());
}

/// A late answer is noted with its number, how late it was, and whether it was an error; a
/// dropped notification as it was.
pub proof fn dropped_messages_are_noted(id: u64, at: int, line: Seq<char>, now: int)
    ensures
        crate::mcp::late_note(id, at, line, now) == "abandoned_response internal_id="@
            + text::decimal(id as nat) + " arrived_after_timeout_ms="@ + text::decimal(
            queue::span(at, now) as nat / 1_000_000,
        ) + " is_error="@ + (if text::holds(line, "\"isError\":true"@) || text::holds(
            line,
            "\"error\""@,
        ) {
            "true"@
        } else {
            "false"@
        }),
        crate::mcp::dropped_note(line) == "mcp_notification dropped="@ + line,
{
}

/// The times that hold where nothing is configured, in nanoseconds: heavy tools have longer
/// than others, and a probe is short.
pub proof fn default_times_are_known()
    ensures
        timing::MCP_REQUEST_TIMEOUT == 2 * 60 * 1_000_000_000,
        timing::MCP_HEAVY_REQUEST_TIMEOUT == 5 * 60 * 1_000_000_000,
        timing::MCP_PROBE_TIMEOUT == 10 * 1_000_000_000,
        timing::DIAGNOSTIC_WINDOW == 10 * 60 * 1_000_000_000,
        timing::CONTROL_WARN_LATENCY == 1_000_000_000,
        timing::FORWARD_WARN_LATENCY == 30 * 1_000_000_000,
        timing::SESSION_REAPER_INTERVAL == 60 * 1_000_000_000,
        timing::DAEMON_READY_TIMEOUT == 30 * 1_000_000_000,
        queue::FIRST_REQUEST_ID == 10_000,
{
}

} // verus!
