//! What the command line says to a profile's daemon, and what it makes of the answers.
use crate::config::Profile;
use crate::control;
use crate::control::{assignment, CONTROL_PREFIX};
use crate::daemon;
use crate::daemon::DaemonHealth;
use crate::mcp;
use crate::rpc;
use crate::session::NANOS_PER_SEC;
use crate::text;
use crate::text::{
    contains, joined, joined3, lines, number_text, parse_number, same, starts_with, strip_prefix,
    trim_end,
};
use vstd::prelude::*;

verus! {

/// How the error of a daemon that does not answer in time begins.
pub const DAEMON_BUSY_PREFIX: &'static str = "daemon busy";

/// A control command as it is sent.
pub open spec fn control_request(command: Seq<char>) -> Seq<char> {
    CONTROL_PREFIX@ + command + "\n"@
}

/// A control command as it is sent.
pub fn send_daemon_control(command: &str) -> (r: String)
    ensures
        r@ == control_request(command@),
{
    joined3(CONTROL_PREFIX, command, "\n")
}

/// Why reading from the daemon failed.
pub enum ReadFailure {
    WouldBlock,
    TimedOut,
    Other(String),
}

/// Whether reading failed because nothing came in time.
pub fn is_timeout_error(failure: &ReadFailure) -> (r: bool)
    ensures
        r == (failure is WouldBlock || failure is TimedOut),
{
    match failure {
        ReadFailure::WouldBlock => true,
        ReadFailure::TimedOut => true,
        ReadFailure::Other(_) => false,
    }
}

/// How long, in whole seconds.
pub open spec fn secs_text(timeout: nat) -> Seq<char> {
    text::decimal(timeout / 1_000_000_000)
}

fn whole_secs(timeout: u128) -> (r: String)
    ensures
        r@ == secs_text(timeout as nat),
{
    number_text(timeout / NANOS_PER_SEC)
}

/// The error of a request that the daemon did not answer.
pub open spec fn request_failure(failure: ReadFailure, timeout: nat) -> Seq<char> {
    match failure {
        ReadFailure::Other(error) => "failed to read daemon response: "@ + error@,
        _ => DAEMON_BUSY_PREFIX@ + ": no response within "@ + secs_text(timeout)
            + "s; another client is likely using the daemon, retry shortly (raise CHROME_DEVTOOLS_CONTROL_TIMEOUT_SECS to wait longer)"@,
    }
}

/// The error of a request that the daemon did not answer.
pub fn send_daemon_request(failure: &ReadFailure, timeout: u128) -> (r: String)
    ensures
        r@ == request_failure(*failure, timeout as nat),
{
    match failure {
        ReadFailure::Other(error) => joined("failed to read daemon response: ", error.as_str()),
        _ => {
            let mut out = joined3(
                DAEMON_BUSY_PREFIX,
                ": no response within ",
                whole_secs(timeout).as_str(),
            );
            out.append(
                "s; another client is likely using the daemon, retry shortly (raise CHROME_DEVTOOLS_CONTROL_TIMEOUT_SECS to wait longer)",
            );
            out
        },
    }
}

/// A field of what a daemon tells of itself.
pub fn parse_status_field(response: &str, prefix: &str) -> (r: Option<String>)
    ensures
        text::opt_text(r) == control::assigned(text::words(response@), prefix@),
{
    assignment(response, prefix)
}

/// Whether a daemon runs, by its answer to being asked; there is none where there is no
/// socket. One that is too busy to answer runs.
pub open spec fn runs(reply: Option<Result<Seq<char>, Seq<char>>>) -> bool {
    match reply {
        None => false,
        Some(Ok(response)) => text::holds(response, "daemon=ready"@),
        Some(Err(error)) => text::begins(error, DAEMON_BUSY_PREFIX@),
    }
}

/// A daemon's answer.
pub open spec fn reply_view(reply: Option<Result<String, String>>) -> Option<
    Result<Seq<char>, Seq<char>>,
> {
    match reply {
        None => None,
        Some(r) => Some(text::result_text(r)),
    }
}

/// Whether a daemon runs, by its answer to being asked.
pub fn is_daemon_ready(reply: &Option<Result<String, String>>) -> (r: bool)
    ensures
        r == runs(reply_view(*reply)),
{
    match reply {
        None => false,
        Some(Ok(response)) => contains(response.as_str(), "daemon=ready"),
        Some(Err(error)) => starts_with(error.as_str(), DAEMON_BUSY_PREFIX),
    }
}

/// The warning that the daemon is of another version than this program.
pub open spec fn version_warning(name: Seq<char>, own: Seq<char>, response: Seq<char>) -> Option<
    Seq<char>,
> {
    match control::assigned(text::words(response), "version="@) {
        Some(version) => if version == own {
            None
        } else {
            Some(
                "warning: daemon for profile "@ + name + " runs chrome-devtools "@ + version
                    + " but this CLI is "@ + own
                    + "; restart it when idle: chrome-devtools daemon stop --profile "@ + name,
            )
        },
        None => Some(
            "warning: daemon for profile "@ + name
                + " was started by an older chrome-devtools than this CLI ("@ + own
                + "); restart it when idle: chrome-devtools daemon stop --profile "@ + name,
        ),
    }
}

/// The warning that the daemon is of another version than this program, if it is.
pub fn warn_on_version_mismatch(profile: &Profile, cli_version: &str, status_response: &str) -> (r:
    Option<String>)
    ensures
        text::opt_text(r) == version_warning(profile@.name, cli_version@, status_response@),
{
    match parse_status_field(status_response, "version=") {
        Some(version) => {
            if same(version.as_str(), cli_version) {
                None
            } else {
                let mut out = joined3(
                    "warning: daemon for profile ",
                    profile.name.as_str(),
                    " runs chrome-devtools ",
                );
                out.append(version.as_str());
                out.append(" but this CLI is ");
                out.append(cli_version);
                out.append("; restart it when idle: chrome-devtools daemon stop --profile ");
                out.append(profile.name.as_str());
                Some(out)
            }
        },
        None => {
            let mut out = joined3(
                "warning: daemon for profile ",
                profile.name.as_str(),
                " was started by an older chrome-devtools than this CLI (",
            );
            out.append(cli_version);
            out.append("); restart it when idle: chrome-devtools daemon stop --profile ");
            out.append(profile.name.as_str());
            Some(out)
        },
    }
}

/// Whether a daemon is to be started before a request.
pub enum EnsureStep {
    /// It runs; there may be something to say about it.
    Ready { warning: Option<String> },
    /// It is to be started.
    Start,
}

/// Whether a daemon is to be started before a request.
pub fn ensure_daemon(
    profile: &Profile,
    cli_version: &str,
    reply: &Option<Result<String, String>>,
) -> (r: EnsureStep)
    ensures
        match r {
            EnsureStep::Ready { warning } => runs(reply_view(*reply)) && text::opt_text(warning)
                == (match *reply {
                Some(Ok(response)) => version_warning(profile@.name, cli_version@, response@),
                _ => None,
            }),
            EnsureStep::Start => !runs(reply_view(*reply)),
        },
{
    match reply {
        Some(Ok(response)) => {
            if contains(response.as_str(), "daemon=ready") {
                let warning = warn_on_version_mismatch(profile, cli_version, response.as_str());
                EnsureStep::Ready { warning }
            } else {
                EnsureStep::Start
            }
        },
        Some(Err(error)) => {
            if starts_with(error.as_str(), DAEMON_BUSY_PREFIX) {
                EnsureStep::Ready { warning: None }
            } else {
                EnsureStep::Start
            }
        },
        None => EnsureStep::Start,
    }
}

/// How waiting for something goes on.
pub enum Waiting {
    /// It has come.
    Done,
    /// Look again a little later.
    Again,
    /// It did not come in time.
    Expired(String),
}

/// How waiting for something goes on.
pub enum WaitingView {
    Done,
    Again,
    Expired(Seq<char>),
}

impl View for Waiting {
    type V = WaitingView;

    open spec fn view(&self) -> WaitingView {
        match self {
            Waiting::Done => WaitingView::Done,
            Waiting::Again => WaitingView::Again,
            Waiting::Expired(message) => WaitingView::Expired(message@),
        }
    }
}

/// How waiting goes on after some time; `done` is what was found then.
pub open spec fn waiting(done: bool, waited: nat, timeout: nat, message: Seq<char>) -> WaitingView {
    if waited >= timeout {
        WaitingView::Expired(message)
    } else if done {
        WaitingView::Done
    } else {
        WaitingView::Again
    }
}

/// How waiting for a daemon to come up goes on.
pub fn wait_for_daemon(ready: bool, waited: u128, timeout: u128) -> (r: Waiting)
    ensures
        r@ == waiting(
            ready,
            waited as nat,
            timeout as nat,
            "daemon did not become ready within "@ + secs_text(timeout as nat) + " seconds"@,
        ),
{
    if waited >= timeout {
        Waiting::Expired(
            joined3(
                "daemon did not become ready within ",
                whole_secs(timeout).as_str(),
                " seconds",
            ),
        )
    } else if ready {
        Waiting::Done
    } else {
        Waiting::Again
    }
}

/// How waiting for a daemon to end goes on.
pub fn wait_for_daemon_stop(ready: bool, waited: u128, timeout: u128) -> (r: Waiting)
    ensures
        r@ == waiting(
            !ready,
            waited as nat,
            timeout as nat,
            "daemon did not stop within "@ + secs_text(timeout as nat) + " seconds"@,
        ),
{
    if waited >= timeout {
        Waiting::Expired(
            joined3("daemon did not stop within ", whole_secs(timeout).as_str(), " seconds"),
        )
    } else if ready {
        Waiting::Again
    } else {
        Waiting::Done
    }
}

/// How waiting for a browser to come up goes on.
pub fn wait_for_devtools(port: u16, ready: bool, waited: u128, timeout: u128) -> (r: Waiting)
    ensures
        r@ == waiting(
            ready,
            waited as nat,
            timeout as nat,
            "Chrome DevTools did not become ready on port "@ + text::decimal(port as nat)
                + " within "@ + secs_text(timeout as nat) + " seconds"@,
        ),
{
    if waited >= timeout {
        let mut message = joined3(
            "Chrome DevTools did not become ready on port ",
            number_text(port as u128).as_str(),
            " within ",
        );
        message.append(whole_secs(timeout).as_str());
        message.append(" seconds");
        Waiting::Expired(message)
    } else if ready {
        Waiting::Done
    } else {
        Waiting::Again
    }
}

/// The first line of an answer, or the error that it tells.
pub open spec fn session_reply(response: Seq<char>) -> Result<Seq<char>, Seq<char>> {
    let all = text::line_list(response);
    if all.len() == 0 {
        Err("daemon returned empty response"@)
    } else {
        match text::after(all[0], "error="@) {
            Some(message) => Err(message),
            None => Ok(all[0]),
        }
    }
}

fn first_line_reply(response: &str) -> (r: Result<String, String>)
    ensures
        text::result_text(r) == session_reply(response@),
{
    let all = lines(response);
    if all.len() == 0 {
        return Err("daemon returned empty response".to_string());
    }
    match strip_prefix(all[0].as_str(), "error=") {
        Some(message) => Err(message),
        None => Ok(all[0].clone()),
    }
}

/// The command that makes a session.
pub fn create_session_command() -> (r: String)
    ensures
        r@ == "session_create"@,
{
    "session_create".to_string()
}

/// What is shown of the answer to making a session.
pub fn create_session(response: &str) -> (r: Result<String, String>)
    ensures
        text::result_text(r) == session_reply(response@),
{
    first_line_reply(response)
}

/// The command that lists the sessions, where a daemon runs.
pub fn list_sessions(ready: bool) -> (r: Option<String>)
    ensures
        text::opt_text(r) == (if ready {
            Some("session_list"@)
        } else {
            None
        }),
{
    if ready {
        Some("session_list".to_string())
    } else {
        None
    }
}

/// The command that closes a session, where a daemon runs; else there is no such session.
pub fn close_session_command(ready: bool, session_id: &str) -> (r: Result<String, String>)
    ensures
        text::result_text(r) == (if ready {
            Ok("session_close session="@ + session_id@)
        } else {
            Err(crate::session::unknown_session(session_id@))
        }),
{
    if ready {
        Ok(joined("session_close session=", session_id))
    } else {
        Err(joined("unknown session: ", session_id))
    }
}

/// What is shown of the answer to closing a session.
pub fn close_session(response: &str) -> (r: Result<String, String>)
    ensures
        text::result_text(r) == session_reply(response@),
{
    first_line_reply(response)
}

/// The request that binds a session.
pub fn bind_request(session_id: &str) -> (r: String)
    ensures
        r@ == control_request("bind session="@ + session_id@),
{
    send_daemon_control(joined("bind session=", session_id).as_str())
}

/// The error of binding a session when the daemon did not answer.
pub open spec fn bind_failure(failure: ReadFailure, timeout: nat) -> Seq<char> {
    match failure {
        ReadFailure::Other(error) => "failed to read bind response: "@ + error@,
        _ => DAEMON_BUSY_PREFIX@ + ": bind not acknowledged within "@ + secs_text(timeout)
            + "s; retry shortly (raise CHROME_DEVTOOLS_BIND_TIMEOUT_SECS to wait longer)"@,
    }
}

/// The error of binding a session when the daemon did not answer.
pub fn bind_session_failed(failure: &ReadFailure, timeout: u128) -> (r: String)
    ensures
        r@ == bind_failure(*failure, timeout as nat),
{
    match failure {
        ReadFailure::Other(error) => joined("failed to read bind response: ", error.as_str()),
        _ => {
            let mut out = joined3(
                DAEMON_BUSY_PREFIX,
                ": bind not acknowledged within ",
                whole_secs(timeout).as_str(),
            );
            out.append(
                "s; retry shortly (raise CHROME_DEVTOOLS_BIND_TIMEOUT_SECS to wait longer)",
            );
            out
        },
    }
}

/// Whether a session was bound, by the line that the daemon answered, if it did.
pub open spec fn bound_reply(raw: Seq<char>, name: Seq<char>) -> Result<(), Seq<char>> {
    let response = text::trimmed_end(raw);
    if raw.len() == 0 {
        Err("daemon closed connection before bind response"@)
    } else {
        match text::after(response, "error="@) {
            Some(message) => Err(
                if text::begins(message, "unknown session"@) {
                    message
                        + "; sessions are dropped after 30 minutes idle or when the daemon restarts, mint a new one: chrome-devtools session create --profile "@
                        + name
                } else if text::begins(message, "session in use"@) {
                    message
                        + "; another invocation is bound to this session, wait for it or mint a separate one: chrome-devtools session create --profile "@
                        + name
                } else {
                    message
                },
            ),
            None => if text::begins(response, "bound="@) {
                Ok(())
            } else {
                Err("unexpected bind response: "@ + response)
            },
        }
    }
}

/// Whether a session was bound, by the line that the daemon answered, if it did.
pub fn bind_session(raw: &str, profile_name: &str) -> (r: Result<(), String>)
    ensures
        match r {
            Ok(()) => bound_reply(raw@, profile_name@) is Ok,
            Err(message) => bound_reply(raw@, profile_name@) == Err::<(), Seq<char>>(message@),
        },
{
    if raw.unicode_len() == 0 {
        return Err("daemon closed connection before bind response".to_string());
    }
    let response = trim_end(raw);
    match strip_prefix(response.as_str(), "error=") {
        Some(message) => {
            if starts_with(message.as_str(), "unknown session") {
                return Err(
                    joined3(
                        message.as_str(),
                        "; sessions are dropped after 30 minutes idle or when the daemon restarts, mint a new one: chrome-devtools session create --profile ",
                        profile_name,
                    ),
                );
            }
            if starts_with(message.as_str(), "session in use") {
                return Err(
                    joined3(
                        message.as_str(),
                        "; another invocation is bound to this session, wait for it or mint a separate one: chrome-devtools session create --profile ",
                        profile_name,
                    ),
                );
            }
            return Err(message);
        },
        None => {},
    }
    if !starts_with(response.as_str(), "bound=") {
        return Err(joined("unexpected bind response: ", response.as_str()));
    }
    Ok(())
}

/// The last line that answers the request with the id two.
pub open spec fn tools_answer(all: Seq<Seq<char>>) -> Option<Seq<char>>
    decreases all.len(),
{
    if all.len() == 0 {
        None
    } else if rpc::line_id(all.last()) == Some(2u64) {
        Some(all.last())
    } else {
        tools_answer(all.drop_last())
    }
}

/// What is shown of the answer to listing the tools: the line that answers it, else all.
pub fn list_mcp_tools_via_daemon(response: &str) -> (r: String)
    ensures
        r@ == (match tools_answer(text::line_list(response@)) {
            Some(line) => line + "\n"@,
            None => response@,
        }),
{
    let all = lines(response);
    let ghost views = text::texts(all@);
    let mut n: usize = all.len();
    assert(views.take(n as int) =~= views);
    while n > 0
        invariant
            n <= all.len(),
            views == text::texts(all@),
            views == text::line_list(response@),
            tools_answer(views) == tools_answer(views.take(n as int)),
        decreases n,
    {
        assert(views.take(n as int).drop_last() =~= views.take(n - 1));
        assert(views.take(n as int).last() == all@[n - 1]@);
        match rpc::extract_jsonrpc_id(all[n - 1].as_str()) {
            Some(id) => {
                if id == 2 {
                    return joined(all[n - 1].as_str(), "\n");
                }
            },
            None => {},
        }
        n = n - 1;
    }
    response.to_string()
}

/// The requests that list the tools.
pub fn tools_request() -> (r: String)
    ensures
        r@ == mcp::initialize_request("chrome-devtools"@) + "\n"@ + mcp::initialized_notice()
            + "\n"@ + mcp::tools_list_request() + "\n"@,
{
    let (first, second) = mcp::initialize_mcp("chrome-devtools");
    let third = mcp::tools_list_line();
    let mut out = joined3(first.as_str(), "\n", second.as_str());
    out.append("\n");
    out.append(third.as_str());
    out.append("\n");
    out
}

/// What is shown of the daemon's record of exits.
pub open spec fn health_text(health: Option<daemon::HealthView>) -> Seq<char> {
    match health {
        Some(h) => match h.last_exit {
            Some(last) => " abnormal_exits="@ + text::decimal(h.abnormal_exits) + " last_exit=["@
                + last + "]"@,
            None => ""@,
        },
        None => ""@,
    }
}

/// What is shown of how often the MCP server was started anew.
pub open spec fn respawns_text(health: Option<daemon::HealthView>) -> Seq<char> {
    match health {
        Some(h) => if h.respawns > 0 {
            " respawns="@ + text::decimal(h.respawns)
        } else {
            ""@
        },
        None => ""@,
    }
}

/// The record of exits, if there is one.
pub open spec fn health_view(health: Option<DaemonHealth>) -> Option<daemon::HealthView> {
    match health {
        Some(h) => Some(h@),
        None => None,
    }
}

fn health_shown(health: &Option<DaemonHealth>) -> (r: String)
    ensures
        r@ == health_text(health_view(*health)),
{
    match health {
        Some(h) => match &h.last_exit {
            Some(last) => {
                let mut out = joined3(
                    " abnormal_exits=",
                    number_text(h.abnormal_exits as u128).as_str(),
                    " last_exit=[",
                );
                out.append(last.as_str());
                out.append("]");
                out
            },
            None => "".to_string(),
        },
        None => "".to_string(),
    }
}

fn respawns_shown(health: &Option<DaemonHealth>) -> (r: String)
    ensures
        r@ == respawns_text(health_view(*health)),
{
    match health {
        Some(h) => {
            if h.respawns > 0 {
                joined(" respawns=", number_text(h.respawns as u128).as_str())
            } else {
                "".to_string()
            }
        },
        None => "".to_string(),
    }
}

/// A field of what a daemon tells of itself, or what is shown in its place.
pub open spec fn field_or(response: Seq<char>, prefix: Seq<char>, other: Seq<char>) -> Seq<char> {
    match control::assigned(text::words(response), prefix) {
        Some(value) => value,
        None => other,
    }
}

fn status_field_or(response: &str, prefix: &str, other: &str) -> (r: String)
    ensures
        r@ == field_or(response@, prefix@, other@),
{
    match parse_status_field(response, prefix) {
        Some(value) => value,
        None => other.to_string(),
    }
}

/// The port of the browser that a daemon is attached to.
pub open spec fn attached_port(response: Seq<char>) -> Option<u16> {
    match control::assigned(text::words(response), "mcp_port="@) {
        Some(value) => match text::parsed(value, u16::MAX as nat) {
            Some(port) => Some(port as u16),
            None => None,
        },
        None => None,
    }
}

/// The port of the browser that a daemon is attached to.
pub fn status_port(response: &str) -> (r: Option<u16>)
    ensures
        r == attached_port(response@),
{
    match parse_status_field(response, "mcp_port=") {
        Some(value) => match parse_number(value.as_str(), u16::MAX as u64) {
            Some(port) => Some(port as u16),
            None => None,
        },
        None => None,
    }
}

/// What is shown of the browser that a daemon is attached to.
pub open spec fn chrome_text(port: Option<u16>, ready: bool) -> Seq<char> {
    match port {
        Some(port) => if ready {
            "ready port="@ + text::decimal(port as nat)
        } else {
            "unreachable port="@ + text::decimal(port as nat)
                + " (restart the daemon to reattach Chrome)"@
        },
        None => "unknown"@,
    }
}

fn chrome_shown(port: Option<u16>, ready: bool) -> (r: String)
    ensures
        r@ == chrome_text(port, ready),
{
    match port {
        Some(port) => {
            let number = number_text(port as u128);
            if ready {
                joined("ready port=", number.as_str())
            } else {
                joined3(
                    "unreachable port=",
                    number.as_str(),
                    " (restart the daemon to reattach Chrome)",
                )
            }
        },
        None => "unknown".to_string(),
    }
}

/// What is shown of a daemon's process.
pub open spec fn pid_text(pid: Option<u32>) -> Seq<char> {
    match pid {
        Some(pid) => text::decimal(pid as nat),
        None => "unknown"@,
    }
}

fn pid_shown(pid: Option<u32>) -> (r: String)
    ensures
        r@ == pid_text(pid),
{
    match pid {
        Some(pid) => number_text(pid as u128),
        None => "unknown".to_string(),
    }
}

/// What is shown of a daemon that answers.
pub open spec fn running_line(
    name: Seq<char>,
    response: Seq<char>,
    pid: Option<u32>,
    socket: Seq<char>,
    chrome_ready: bool,
    health: Option<daemon::HealthView>,
) -> Seq<char> {
    "profile="@ + name + " daemon=ready version="@ + field_or(response, "version="@, "pre-0.3.1"@)
        + " sessions="@ + field_or(response, "sessions="@, "unknown"@) + " active_sessions="@
        + field_or(response, "active_sessions="@, "unknown"@) + " pages="@ + field_or(
        response,
        "pages="@,
        "unknown"@,
    ) + " queued_mcp_requests="@ + field_or(response, "queued_mcp_requests="@, "unknown"@)
        + " max_control_latency_ms="@ + field_or(
        response,
        "max_control_latency_ms="@,
        "unknown"@,
    ) + " max_forward_latency_ms="@ + field_or(response, "max_forward_latency_ms="@, "unknown"@)
        + " diagnostic_window_secs="@ + field_or(
        response,
        "diagnostic_window_secs="@,
        "unknown"@,
    ) + " chrome="@ + chrome_text(attached_port(response), chrome_ready) + respawns_text(
        health,
    ) + " pid="@ + pid_text(pid) + " socket="@ + socket + health_text(health)
}

/// What is shown of a daemon that does not answer.
pub open spec fn stopped_line(
    name: Seq<char>,
    pid: Option<u32>,
    socket: Seq<char>,
    health: Option<daemon::HealthView>,
) -> Seq<char> {
    "profile="@ + name + " daemon=stopped pid="@ + pid_text(pid) + " socket="@ + socket
        + health_text(health)
}

/// What is shown of a daemon, by its answer to being asked. `chrome_ready` is whether the
/// browser answers that the daemon is attached to.
pub fn print_daemon_status(
    profile: &Profile,
    reply: &Option<Result<String, String>>,
    pid: Option<u32>,
    socket: &str,
    chrome_ready: bool,
    health: &Option<DaemonHealth>,
) -> (r: String)
    ensures
        ({
            let told = health_view(*health);
            r@ == (match *reply {
                Some(Ok(response)) => if text::holds(response@, "daemon=ready"@) {
                    running_line(profile@.name, response@, pid, socket@, chrome_ready, told)
                } else {
                    stopped_line(profile@.name, pid, socket@, told)
                },
                _ => stopped_line(profile@.name, pid, socket@, told),
            })
        }),
{
    let name = profile.name.as_str();
    let respawns = respawns_shown(health);
    let health = health_shown(health);
    let pid = pid_shown(pid);
    match reply {
        Some(Ok(response)) => {
            let response = response.as_str();
            if contains(response, "daemon=ready") {
                let mut out = joined3("profile=", name, " daemon=ready version=");
                out.append(status_field_or(response, "version=", "pre-0.3.1").as_str());
                out.append(" sessions=");
                out.append(status_field_or(response, "sessions=", "unknown").as_str());
                out.append(" active_sessions=");
                out.append(status_field_or(response, "active_sessions=", "unknown").as_str());
                out.append(" pages=");
                out.append(status_field_or(response, "pages=", "unknown").as_str());
                out.append(" queued_mcp_requests=");
                out.append(status_field_or(response, "queued_mcp_requests=", "unknown").as_str());
                out.append(" max_control_latency_ms=");
                out.append(
                    status_field_or(response, "max_control_latency_ms=", "unknown").as_str(),
                );
                out.append(" max_forward_latency_ms=");
                out.append(
                    status_field_or(response, "max_forward_latency_ms=", "unknown").as_str(),
                );
                out.append(" diagnostic_window_secs=");
                out.append(
                    status_field_or(response, "diagnostic_window_secs=", "unknown").as_str(),
                );
                out.append(" chrome=");
                out.append(chrome_shown(status_port(response), chrome_ready).as_str());
                out.append(respawns.as_str());
                out.append(" pid=");
                out.append(pid.as_str());
                out.append(" socket=");
                out.append(socket);
                out.append(health.as_str());
                return out;
            }
        },
        _ => {},
    }
    let mut out = joined3("profile=", name, " daemon=stopped pid=");
    out.append(pid.as_str());
    out.append(" socket=");
    out.append(socket);
    out.append(health.as_str());
    out
}

/// The command that ends a daemon.
pub fn stop_command(force: bool) -> (r: String)
    ensures
        r@ == (if force {
            "stop force"@
        } else {
            "stop"@
        }),
{
    if force {
        "stop force".to_string()
    } else {
        "stop".to_string()
    }
}

/// What is shown of the answer to ending a daemon, or the error that it tells.
pub fn stop_daemon(response: &str) -> (r: Result<String, String>)
    ensures
        text::result_text(r) == (match text::after(text::trimmed_end(response@), "error="@) {
            Some(message) => Err(message),
            None => Ok(response@),
        }),
{
    match strip_prefix(trim_end(response).as_str(), "error=") {
        Some(message) => Err(message),
        None => Ok(response.to_string()),
    }
}

/// What is shown of a profile's browser; `port` is where one answers.
pub fn print_status(profile: &Profile, port: Option<u16>) -> (r: String)
    ensures
        r@ == (match port {
            Some(port) => "profile="@ + profile@.name + " status=ready port="@ + text::decimal(
                port as nat,
            ) + " user_data_dir="@ + profile@.dir,
            None => "profile="@ + profile@.name + " status=stopped user_data_dir="@ + profile@.dir,
        }),
{
    match port {
        Some(port) => {
            let mut out = joined3("profile=", profile.name.as_str(), " status=ready port=");
            out.append(number_text(port as u128).as_str());
            out.append(" user_data_dir=");
            out.append(profile.user_data_dir.as_str());
            out
        },
        None => {
            let mut out = joined3(
                "profile=",
                profile.name.as_str(),
                " status=stopped user_data_dir=",
            );
            out.append(profile.user_data_dir.as_str());
            out
        },
    }
}

/// What is shown when a daemon is to be started: it runs already, or it was started as
/// this process.
pub fn start_daemon(profile: &Profile, started: Option<u32>, socket: &str) -> (r: String)
    ensures
        r@ == (match started {
            None => "profile="@ + profile@.name + " daemon=ready socket="@ + socket@,
            Some(pid) => "profile="@ + profile@.name + " daemon=started pid="@ + text::decimal(
                pid as nat,
            ) + " socket="@ + socket@,
        }),
{
    match started {
        None => {
            let mut out = joined3("profile=", profile.name.as_str(), " daemon=ready socket=");
            out.append(socket);
            out
        },
        Some(pid) => {
            let mut out = joined3("profile=", profile.name.as_str(), " daemon=started pid=");
            out.append(number_text(pid as u128).as_str());
            out.append(" socket=");
            out.append(socket);
            out
        },
    }
}

/// The arguments with which a daemon is started as a process of its own.
pub fn daemon_run_args(profile: &Profile) -> (r: Vec<String>)
    ensures
        text::texts(r@) == seq!["daemon"@, "run"@, "--profile"@, profile@.name],
{
    let args: Vec<String> = vec![
        "daemon".to_string(),
        "run".to_string(),
        "--profile".to_string(),
        profile.name.clone(),
    ];
    assert(text::texts(args@) =~= seq!["daemon"@, "run"@, "--profile"@, profile@.name]);
    args
}

/// The error of a daemon that was started and did not come up.
pub fn start_daemon_failed(profile: &Profile, pid: u32, error: &str, log: &str) -> (r: String)
    ensures
        r@ == "failed to start daemon process "@ + text::decimal(pid as nat) + " for profile "@
            + profile@.name + ": "@ + error@ + "; log="@ + log@,
{
    let mut out = joined3(
        "failed to start daemon process ",
        number_text(pid as u128).as_str(),
        " for profile ",
    );
    out.append(profile.name.as_str());
    out.append(": ");
    out.append(error);
    out.append("; log=");
    out.append(log);
    out
}

} // verus!
