//! The texts that the command line shows when it is asked for help.
use crate::text;
use crate::text::{joined, split};
use vstd::prelude::*;

verus! {

/// A help text that is being put together.
pub struct Help {
    pub lines: Vec<String>,
}

/// A title with an empty line after it.
pub open spec fn titled(title: Seq<char>) -> Seq<Seq<char>> {
    seq![title, ""@]
}

/// The lines with one empty line at their end, unless there are none or there is one
/// already.
pub open spec fn spaced(lines: Seq<Seq<char>>) -> Seq<Seq<char>> {
    if lines.len() > 0 && lines.last().len() > 0 {
        lines.push(""@)
    } else {
        lines
    }
}

/// A line of a section: indented, unless it is empty.
pub open spec fn indented(line: Seq<char>) -> Seq<char> {
    if line.len() == 0 {
        ""@
    } else {
        "  "@ + line
    }
}

/// The lines with a section after them, whose own lines are those of `body`.
pub open spec fn sectioned(lines: Seq<Seq<char>>, title: Seq<char>, body: Seq<char>) -> Seq<
    Seq<char>,
> {
    spaced(lines).push(title) + text::parts(body, '\n').map_values(
        |line: Seq<char>| indented(line),
    )
}

/// The lines with a section after them, whose own lines are those of `body` as they are.
pub open spec fn sectioned_raw(lines: Seq<Seq<char>>, title: Seq<char>, body: Seq<char>) -> Seq<
    Seq<char>,
> {
    spaced(lines).push(title) + text::parts(body, '\n')
}

/// The lines as one text.
pub open spec fn help_text(lines: Seq<Seq<char>>) -> Seq<char>
    decreases lines.len(),
{
    if lines.len() == 0 {
        ""@
    } else if lines.len() == 1 {
        lines[0]
    } else {
        help_text(lines.drop_last()) + "\n"@ + lines.last()
    }
}

impl View for Help {
    type V = Seq<Seq<char>>;

    open spec fn view(&self) -> Seq<Seq<char>> {
        text::texts(self.lines@)
    }
}

impl Help {
    /// An empty help text.
    pub fn new() -> (r: Help)
        ensures
            r@ == Seq::<Seq<char>>::empty(),
    {
        let r = Help { lines: Vec::new() };
        assert(r@ =~= Seq::empty());
        r
    }

    /// A help text with a title.
    pub fn titled(title: &str) -> (r: Help)
        ensures
            r@ == titled(title@),
    {
        let r = Help::new().line(title).blank();
        assert(r@ =~= titled(title@));
        r
    }

    /// The text with one more line.
    pub fn line(self, line: &str) -> (r: Help)
        ensures
            r@ == self@.push(line@),
    {
        let mut lines = self.lines;
        let last = line.to_string();
        proof {
            text::lemma_texts_push(lines@, last);
        }
        lines.push(last);
        Help { lines }
    }

    /// The text with one more empty line.
    pub fn blank(self) -> (r: Help)
        ensures
            r@ == self@.push(""@),
    {
        self.line("")
    }

    /// The text with an empty line at its end, where that is needed before a section.
    fn apart(self) -> (r: Help)
        ensures
            r@ == spaced(self@),
    {
        let n: usize = self.lines.len();
        if n > 0 {
            assert(self@.last() == self.lines@[n - 1]@);
            if self.lines[n - 1].as_str().unicode_len() > 0 {
                return self.blank();
            }
        }
        self
    }

    /// The text with one more section; its lines are indented.
    pub fn section(self, title: &str, body: &str) -> (r: Help)
        ensures
            r@ == sectioned(self@, title@, body@),
    {
        let mut help = self.apart().line(title);
        let parts = split(body, '\n');
        let ghost all = text::texts(parts@);
        let ghost before = help@;
        let mut i: usize = 0;
        assert(before + all.take(0).map_values(|line: Seq<char>| indented(line)) =~= before);
        while i < parts.len()
            invariant
                i <= parts.len(),
                all == text::texts(parts@),
                help@ == before + all.take(i as int).map_values(|line: Seq<char>| indented(line)),
            decreases parts.len() - i,
        {
            let ghost done = help@;
            let part = parts[i].as_str();
            assert(all[i as int] == part@);
            if part.unicode_len() == 0 {
                help = help.blank();
            } else {
                help = help.line(joined("  ", part).as_str());
            }
            assert(help@ =~= before + all.take(i + 1).map_values(
                |line: Seq<char>| indented(line),
            ));
            i = i + 1;
        }
        assert(all.take(i as int) =~= all);
        help
    }

    /// The text with one more section; its lines stay as they are.
    pub fn section_raw(self, title: &str, body: &str) -> (r: Help)
        ensures
            r@ == sectioned_raw(self@, title@, body@),
    {
        let mut help = self.apart().line(title);
        let parts = split(body, '\n');
        let ghost all = text::texts(parts@);
        let ghost before = help@;
        let mut i: usize = 0;
        assert(before + all.take(0) =~= before);
        while i < parts.len()
            invariant
                i <= parts.len(),
                all == text::texts(parts@),
                help@ == before + all.take(i as int),
            decreases parts.len() - i,
        {
            let part = parts[i].as_str();
            assert(all[i as int] == part@);
            help = help.line(part);
            assert(help@ =~= before + all.take(i + 1));
            i = i + 1;
        }
        assert(all.take(i as int) =~= all);
        help
    }

    /// The lines as one text.
    pub fn text(&self) -> (r: String)
        ensures
            r@ == help_text(self@),
    {
        let ghost all = self@;
        let mut out = "".to_string();
        let mut i: usize = 0;
        assert(all.take(0) =~= Seq::empty());
        while i < self.lines.len()
            invariant
                i <= self.lines.len(),
                all == self@,
                out@ == help_text(all.take(i as int)),
            decreases self.lines.len() - i,
        {
            assert(all.take(i + 1).drop_last() =~= all.take(i as int));
            assert(all.take(i + 1).last() == self.lines@[i as int]@);
            if i > 0 {
                out.append("\n");
                out.append(self.lines[i].as_str());
            } else {
                out = self.lines[i].clone();
            }
            i = i + 1;
        }
        assert(all.take(i as int) =~= all);
        out
    }
}

pub const USAGE: &'static str = "\
    chrome-devtools --version\n\
    chrome-devtools mcp list --profile <profile>\n\
    chrome-devtools mcp call --profile <profile> --session <id>\n\
    chrome-devtools mcp batch --profile <profile> --session <id> --script <path>\n\
    chrome-devtools mcp direct-list --profile <profile>\n\
    chrome-devtools mcp direct-call --profile <profile>\n\
    chrome-devtools mcp help\n\
    chrome-devtools session create --profile <profile>\n\
    chrome-devtools session list --profile <profile>\n\
    chrome-devtools session close --profile <profile> --session <id>\n\
    chrome-devtools daemon start --profile <profile>\n\
    chrome-devtools daemon status --profile <profile>\n\
    chrome-devtools daemon stop --profile <profile>\n\
    chrome-devtools profile status --profile <profile>\n\
    chrome-devtools profile stop --profile <profile>\n\
    chrome-devtools profile list";

pub const USAGE_CONFIG: &'static str = "\
    ~/.config/chrome-devtools/config.toml is created on startup if missing.";

pub const USAGE_CONCURRENCY: &'static str = "\
    The daemon assigns each session to a page and injects pageId for page-scoped\n\
    MCP tools. Different sessions may run concurrently; a second bind on the same\n\
    session id is rejected. Direct MCP commands take a per-profile lock under\n\
    ~/.cache/chrome-devtools/locks.";

pub const MCP_USAGE: &'static str = "\
    chrome-devtools mcp list --profile <profile>\n\
    chrome-devtools mcp call --profile <profile> --session <id>\n\
    chrome-devtools mcp batch --profile <profile> --session <id> --script <path>\n\
    chrome-devtools mcp direct-list --profile <profile>\n\
    chrome-devtools mcp direct-call --profile <profile>\n\
    chrome-devtools mcp help";

pub const MCP_COMMANDS: &'static str = "\
    list         Start the selected profile daemon if needed, query tools/list through it, and print the raw MCP JSON response.\n\
    \n\
    call         Start the selected profile daemon if needed, bind the named session, and forward stdin MCP JSON-RPC lines through its long-lived MCP process.\n\
    \n\
    batch        Bind the named session and run a JSON batch file of tool/sleep steps through the profile daemon. Prints a JSON array of results.\n\
    \n\
    direct-list  Bypass the daemon, run chrome-devtools-mcp directly, query tools/list, and print the raw MCP JSON response.\n\
    \n\
    direct-call  Bypass the daemon, run chrome-devtools-mcp directly over stdio. Use only for fallback/manual debugging.\n\
    \n\
    help         Show this help.";

pub const MCP_OPTIONS: &'static str = "\
    -h, --help   Show this help and exit.";

pub const MCP_EXAMPLES: &'static str = "\
    chrome-devtools daemon start --profile default\n\
    chrome-devtools mcp list --profile default\n\
    ID=$(chrome-devtools session create --profile default | awk -F= '{print $2}' | awk '{print $1}')\n\
    chrome-devtools mcp call --profile default --session \"$ID\"\n\
    chrome-devtools mcp batch --profile default --session \"$ID\" --script /tmp/batch.json";

pub const MCP_CONFIG: &'static str = "\
    Profiles are read from ~/.config/chrome-devtools/config.toml.\n\
    If the config file is missing, chrome-devtools creates a default profile using ~/.config/chrome-devtools/profiles/default.\n\
    user_data_dir is optional; when omitted, it defaults to ~/.config/chrome-devtools/profiles/<profile-name>.\n\
    Prefer user_data_dir values under ~/.config/chrome-devtools/profiles/<profile-name>.";

pub const MCP_SESSIONS: &'static str = "\
    mcp call and mcp batch require --session <id>. Mint one with `session create`.\n\
    Sessions live in-memory on the daemon and expire after 30 minutes of inactivity.\n\
    Each session gets its own page target. Different sessions may bind at the same time.";

pub const MCP_DAEMON: &'static str = "\
    mcp call, mcp list and mcp batch route through one long-lived per-profile daemon by default.\n\
    Daemon sockets and pid files live under ~/.cache/chrome-devtools/daemons.\n\
    direct-call and direct-list bypass the daemon and take a per-profile lock under ~/.cache/chrome-devtools/locks.\n\
    Set CHROME_DEVTOOLS_LOCK_TIMEOUT_SECS to override the direct-mode/default daemon lock wait.";

pub const MCP_NOTES: &'static str = "\
    Profiles define the Chrome user data directory. The daemon picks a free DevTools port automatically.\n\
    The call/batch commands do not reimplement MCP tools; they delegate to a daemon-owned chrome-devtools-mcp process.\n\
    The daemon injects pageId for page-scoped tools so each session uses its assigned page.\n\
    Snapshot uid values are returned as session uid tokens and are valid for the latest snapshot on that session page.\n\
    Daemon-routed calls preserve that MCP process across invocations until the daemon stops.";

pub const PROFILE_USAGE: &'static str = "\
    chrome-devtools profile list\n\
    chrome-devtools profile status --profile <profile>\n\
    chrome-devtools profile stop --profile <profile>";

pub const PROFILE_COMMANDS: &'static str = "\
    list    List all profiles defined in the config file.\n\
    status  Show whether the Chrome instance bound to the given profile is running.\n\
    stop    Stop the Chrome instance bound to the given profile.";

pub const HELP_OPTION: &'static str = "\
    -h, --help  Show this help and exit.";

pub const DAEMON_USAGE: &'static str = "\
    chrome-devtools daemon start --profile <profile>\n\
    chrome-devtools daemon status --profile <profile>\n\
    chrome-devtools daemon stop --profile <profile>";

pub const DAEMON_COMMANDS: &'static str = "\
    start   Start a background daemon for the profile, or report that one is already ready.\n\
    status  Show whether the per-profile daemon is ready, along with its pid and socket path.\n\
    stop    Ask the per-profile daemon to stop and clean up its socket/pid files.";

pub const DAEMON_NOTES: &'static str = "\
    Daemon metadata lives under ~/.cache/chrome-devtools/daemons.";

pub const MCP_CALL_USAGE: &'static str = "\
    chrome-devtools mcp call --profile <profile> --session <id>";

pub const MCP_CALL_DESCRIPTION: &'static str = "\
    Start the selected profile daemon if needed, bind the named session, then\n\
    forward stdin MCP JSON-RPC lines through its long-lived chrome-devtools-mcp\n\
    process and print responses. The daemon assigns the session to a page and\n\
    injects pageId for page-scoped tools. Activity refreshes the session's\n\
    30 minute idle timer.";

pub const SESSION_OPTIONS: &'static str = "\
    --profile <name>  Required. Profile name from ~/.config/chrome-devtools/config.toml.\n\
    --session <id>    Required. Session id minted by `session create`.\n\
    -h, --help        Show this help and exit.";

pub const MCP_CALL_EXAMPLES: &'static str = "\
    ID=$(chrome-devtools session create --profile default | awk -F= '{print $2}' | awk '{print $1}')\n\
    printf '%s\\n' '{\"jsonrpc\":\"2.0\",\"id\":1,\"method\":\"tools/list\",\"params\":{}}' \\\n\
    \x20 | chrome-devtools mcp call --profile default --session \"$ID\"";

pub const MCP_BATCH_USAGE: &'static str = "\
    chrome-devtools mcp batch --profile <profile> --session <id> --script <path> [--output <path>] [--fail-fast]";

pub const MCP_BATCH_DESCRIPTION: &'static str = "\
    Read a JSON array of steps from --script, bind the named session, and\n\
    execute each step in order through the profile daemon (one initialize\n\
    handshake, then a tools/call per tool step). Prints a JSON array of\n\
    results to stdout. Activity refreshes the session's 30 minute idle timer.";

pub const MCP_BATCH_STEP_SHAPES: &'static str = "\
    {\"type\":\"tool\",\"name\":\"<mcp-tool>\",\"args\":{...},\"label\":\"<optional>\",\"on_error\":\"continue|stop\"}\n\
    {\"type\":\"sleep_ms\",\"ms\":<u64>,\"label\":\"<optional>\"}";

pub const MCP_BATCH_VALUE_REFERENCES_INSIDE_ARGS: &'static str = "\
    Replace any value in args with {\"$ref\":\"<label>.<path>\"} to substitute it\n\
    with a previous result. <path> is dot-separated; numeric segments index\n\
    arrays. Example: {\"$ref\":\"snap.result.content.0.text\"} resolves to the\n\
    text of the first content entry returned by the step labelled 'snap'.";

pub const MCP_BATCH_RESULT_SHAPE: &'static str = "\
    {\"type\":\"tool\",\"name\":\"...\",\"label\":\"...\",\"result\":<mcp tools/call result>,\"error\":<mcp error or null>}\n\
    {\"type\":\"sleep_ms\",\"ms\":<u64>,\"label\":\"...\"}";

pub const MCP_BATCH_ERROR_HANDLING: &'static str = "\
    A tool step is considered to have errored if the MCP response carries a\n\
    non-null 'error' field or the result has isError=true. By default the\n\
    batch continues; pass --fail-fast or set on_error=stop on a step to\n\
    stop execution after that error. When stopped, batch writes the partial\n\
    results to stdout/--output and exits non-zero.";

pub const MCP_BATCH_OPTIONS: &'static str = "\
    --profile <name>  Required. Profile name from ~/.config/chrome-devtools/config.toml.\n\
    --session <id>    Required. Session id minted by `session create`.\n\
    --script <path>   Required. Path to a JSON file with the step array, or `-` for stdin.\n\
    --output <path>   Optional. Write the JSON results to <path> instead of stdout.\n\
    --fail-fast       Optional. Stop on the first errored tool step.\n\
    -h, --help        Show this help and exit.";

pub const MCP_BATCH_EXAMPLES: &'static str = "\
    \x20 cat > /tmp/batch.json <<'EOF'\n\
    \x20 [\n\
    \x20   {\"type\":\"tool\",\"name\":\"navigate_page\",\"args\":{\"type\":\"reload\",\"timeout\":15000}},\n\
    \x20   {\"type\":\"sleep_ms\",\"ms\":5000},\n\
    \x20   {\"type\":\"tool\",\"name\":\"evaluate_script\",\"label\":\"title\",\"args\":{\"function\":\"() => document.title\"}}\n\
    \x20 ]\n\
    \x20 EOF\n\
    \x20 ID=$(chrome-devtools session create --profile default | awk -F= '{print $2}' | awk '{print $1}')\n\
    \x20 chrome-devtools mcp batch --profile default --session \"$ID\" --script /tmp/batch.json";

pub const MCP_LIST_USAGE: &'static str = "\
    chrome-devtools mcp list --profile <profile>";

pub const MCP_LIST_DESCRIPTION: &'static str = "\
    Start the selected profile daemon if needed, query tools/list through it,\n\
    and print the raw MCP JSON response.";

pub const PROFILE_OPTIONS: &'static str = "\
    --profile <name>  Required. Profile name from ~/.config/chrome-devtools/config.toml.\n\
    -h, --help        Show this help and exit.";

pub const MCP_DIRECT_CALL_USAGE: &'static str = "\
    chrome-devtools mcp direct-call --profile <profile>";

pub const MCP_DIRECT_CALL_DESCRIPTION: &'static str = "\
    Bypass the daemon and run chrome-devtools-mcp directly over stdio.\n\
    Use only for fallback/manual debugging; this mode cannot preserve snapshot\n\
    state across independent process invocations.";

pub const MCP_DIRECT_CALL_NOTES: &'static str = "\
    Acquires a per-profile lock under ~/.cache/chrome-devtools/locks.\n\
    Set CHROME_DEVTOOLS_LOCK_TIMEOUT_SECS to override the 300 second wait.";

pub const MCP_DIRECT_LIST_USAGE: &'static str = "\
    chrome-devtools mcp direct-list --profile <profile>";

pub const MCP_DIRECT_LIST_DESCRIPTION: &'static str = "\
    Bypass the daemon, run chrome-devtools-mcp directly, query tools/list, and\n\
    print the raw MCP JSON response.";

pub const MCP_DIRECT_LIST_NOTES: &'static str = "\
    Acquires a per-profile lock under ~/.cache/chrome-devtools/locks.";

pub const PROFILE_STATUS_USAGE: &'static str = "\
    chrome-devtools profile status --profile <profile>";

pub const PROFILE_STATUS_DESCRIPTION: &'static str = "\
    Show whether the Chrome DevTools endpoint for the given profile is reachable,\n\
    along with its runtime port and user_data_dir.";

pub const PROFILE_STOP_USAGE: &'static str = "\
    chrome-devtools profile stop --profile <profile> [--force]";

pub const PROFILE_STOP_DESCRIPTION: &'static str = "\
    Stop the Chrome instance bound to the given profile by matching processes\n\
    whose command line contains --user-data-dir=<profile user_data_dir>.\n\
    Refused while the profile daemon is running, because other agents may be\n\
    driving that Chrome through it; stop the daemon first or pass --force.";

pub const PROFILE_STOP_OPTIONS: &'static str = "\
    --profile <name>  Required. Profile name from ~/.config/chrome-devtools/config.toml.\n\
    --force           Stop Chrome even while the profile daemon is running.\n\
    -h, --help        Show this help and exit.";

pub const PROFILE_LIST_USAGE: &'static str = "\
    chrome-devtools profile list";

pub const PROFILE_LIST_DESCRIPTION: &'static str = "\
    Print all profiles defined in ~/.config/chrome-devtools/config.toml, one per\n\
    line, as: <name>\\tuser_data_dir=<path>.";

pub const DAEMON_START_USAGE: &'static str = "\
    chrome-devtools daemon start --profile <profile>";

pub const DAEMON_START_DESCRIPTION: &'static str = "\
    Start a background daemon for the profile if one is not already running.\n\
    The daemon owns one chrome-devtools-mcp process and routes MCP calls\n\
    over a Unix socket under ~/.cache/chrome-devtools/daemons.";

pub const DAEMON_RUN_USAGE: &'static str = "\
    chrome-devtools daemon run --profile <profile>";

pub const DAEMON_RUN_DESCRIPTION: &'static str = "\
    Run the per-profile broker in the foreground. This subcommand is normally\n\
    spawned by `daemon start` and is not intended to be invoked directly.";

pub const DAEMON_STATUS_USAGE: &'static str = "\
    chrome-devtools daemon status --profile <profile>";

pub const DAEMON_STATUS_DESCRIPTION: &'static str = "\
    Print whether the per-profile daemon is ready or stopped. Ready output:\n\
    \n\
    \x20 profile=<p> daemon=ready version=<v> sessions=<n> active_sessions=<n> pages=<ids> queued_mcp_requests=<n> max_control_latency_ms=<n> max_forward_latency_ms=<n> diagnostic_window_secs=<n> chrome=<state> respawns=<n> pid=<pid> socket=<path>\n\
    \n\
    chrome=ready means the DevTools endpoint currently responds.\n\
    respawns=<n> counts daemon-managed MCP respawns; mint a new session after it changes.";

pub const DAEMON_STOP_USAGE: &'static str = "\
    chrome-devtools daemon stop --profile <profile> [--force]";

pub const DAEMON_STOP_DESCRIPTION: &'static str = "\
    Ask the per-profile daemon to stop and clean up its socket and pid files.\n\
    Refused while sessions are active, because other agents may own them;\n\
    pass --force to stop anyway (their sessions are destroyed).\n\
    If the daemon is unreachable but a pid file exists, fall back to sending it\n\
    a TERM signal via kill.";

pub const DAEMON_STOP_OPTIONS: &'static str = "\
    --profile <name>  Required. Profile name from ~/.config/chrome-devtools/config.toml.\n\
    --force           Stop even while sessions are active.\n\
    -h, --help        Show this help and exit.";

pub const SESSION_USAGE: &'static str = "\
    chrome-devtools session create --profile <profile>\n\
    chrome-devtools session list --profile <profile>\n\
    chrome-devtools session close --profile <profile> --session <id>";

pub const SESSION_COMMANDS: &'static str = "\
    create  Mint a new session id on the profile daemon.\n\
    list    List active sessions held by the profile daemon.\n\
    close   Close (drop) the named session and its daemon-created page.";

pub const SESSION_NOTES: &'static str = "\
    Sessions live in-memory on the profile daemon. They are dropped after\n\
    30 minutes of inactivity or when the daemon stops.\n\
    mcp call and mcp batch require --session <id>; use session create to mint it.";

pub const SESSION_CREATE_USAGE: &'static str = "\
    chrome-devtools session create --profile <profile>";

pub const SESSION_CREATE_DESCRIPTION: &'static str = "\
    Start the profile daemon if needed, then ask it to mint a new in-memory\n\
    session id. The session is dropped after 30 minutes of inactivity or when\n\
    the daemon stops. Prints one line to stdout:\n\
    \n\
    \x20 session=<id> created=<unix-ts> last_used=<unix-ts> owned=false";

pub const SESSION_LIST_USAGE: &'static str = "\
    chrome-devtools session list --profile <profile>";

pub const SESSION_LIST_DESCRIPTION: &'static str = "\
    List active sessions held by the profile daemon. Each session is printed\n\
    on one line as:\n\
    \n\
    \x20 session=<id> created=<unix-ts> last_used=<unix-ts> owned=<true|false> page=<id>\n\
    \n\
    Prints nothing when the daemon is not running.";

pub const SESSION_CLOSE_USAGE: &'static str = "\
    chrome-devtools session close --profile <profile> --session <id>";

pub const SESSION_CLOSE_DESCRIPTION: &'static str = "\
    Ask the profile daemon to drop the named session. If the session owns a\n\
    daemon-created page, the daemon closes that page while preserving Chrome's\n\
    last tab. Fails if the session is unknown or the daemon is not running.";

/// The help about the program.
pub open spec fn usage_help() -> Seq<Seq<char>> {
    let help = sectioned(Seq::<Seq<char>>::empty(), "Usage:"@, USAGE@);
    let help = sectioned(help, "Config:"@, USAGE_CONFIG@);
    let help = sectioned(help, "Concurrency:"@, USAGE_CONCURRENCY@);
    help
}

/// The help about the program.
pub fn print_usage() -> (r: String)
    ensures
        r@ == help_text(usage_help()),
{
    Help::new()
        .section("Usage:", USAGE)
        .section("Config:", USAGE_CONFIG)
        .section("Concurrency:", USAGE_CONCURRENCY)
        .text()
}

/// The help about `chrome-devtools mcp`.
pub open spec fn mcp_help() -> Seq<Seq<char>> {
    let help = sectioned(titled("chrome-devtools mcp"@), "Usage:"@, MCP_USAGE@);
    let help = sectioned(help, "Commands:"@, MCP_COMMANDS@);
    let help = sectioned(help, "Options:"@, MCP_OPTIONS@);
    let help = sectioned(help, "Examples:"@, MCP_EXAMPLES@);
    let help = sectioned(help, "Config:"@, MCP_CONFIG@);
    let help = sectioned(help, "Sessions:"@, MCP_SESSIONS@);
    let help = sectioned(help, "Daemon:"@, MCP_DAEMON@);
    let help = sectioned(help, "Notes:"@, MCP_NOTES@);
    help
}

/// The help about `chrome-devtools mcp`.
pub fn print_mcp_help() -> (r: String)
    ensures
        r@ == help_text(mcp_help()),
{
    Help::titled("chrome-devtools mcp")
        .section("Usage:", MCP_USAGE)
        .section("Commands:", MCP_COMMANDS)
        .section("Options:", MCP_OPTIONS)
        .section("Examples:", MCP_EXAMPLES)
        .section("Config:", MCP_CONFIG)
        .section("Sessions:", MCP_SESSIONS)
        .section("Daemon:", MCP_DAEMON)
        .section("Notes:", MCP_NOTES)
        .text()
}

/// The help about `chrome-devtools profile`.
pub open spec fn profile_help() -> Seq<Seq<char>> {
    let help = sectioned(titled("chrome-devtools profile"@), "Usage:"@, PROFILE_USAGE@);
    let help = sectioned(help, "Commands:"@, PROFILE_COMMANDS@);
    let help = sectioned(help, "Options:"@, HELP_OPTION@);
    help
}

/// The help about `chrome-devtools profile`.
pub fn print_profile_help() -> (r: String)
    ensures
        r@ == help_text(profile_help()),
{
    Help::titled("chrome-devtools profile")
        .section("Usage:", PROFILE_USAGE)
        .section("Commands:", PROFILE_COMMANDS)
        .section("Options:", HELP_OPTION)
        .text()
}

/// The help about `chrome-devtools daemon`.
pub open spec fn daemon_help() -> Seq<Seq<char>> {
    let help = sectioned(titled("chrome-devtools daemon"@), "Usage:"@, DAEMON_USAGE@);
    let help = sectioned(help, "Commands:"@, DAEMON_COMMANDS@);
    let help = sectioned(help, "Options:"@, HELP_OPTION@);
    let help = sectioned(help, "Notes:"@, DAEMON_NOTES@);
    help
}

/// The help about `chrome-devtools daemon`.
pub fn print_daemon_help() -> (r: String)
    ensures
        r@ == help_text(daemon_help()),
{
    Help::titled("chrome-devtools daemon")
        .section("Usage:", DAEMON_USAGE)
        .section("Commands:", DAEMON_COMMANDS)
        .section("Options:", HELP_OPTION)
        .section("Notes:", DAEMON_NOTES)
        .text()
}

/// The help about `chrome-devtools mcp call`.
pub open spec fn mcp_call_help() -> Seq<Seq<char>> {
    let help = sectioned(titled("chrome-devtools mcp call"@), "Usage:"@, MCP_CALL_USAGE@);
    let help = sectioned(help, "Description:"@, MCP_CALL_DESCRIPTION@);
    let help = sectioned(help, "Options:"@, SESSION_OPTIONS@);
    let help = sectioned(help, "Examples:"@, MCP_CALL_EXAMPLES@);
    help
}

/// The help about `chrome-devtools mcp call`.
pub fn print_mcp_call_help() -> (r: String)
    ensures
        r@ == help_text(mcp_call_help()),
{
    Help::titled("chrome-devtools mcp call")
        .section("Usage:", MCP_CALL_USAGE)
        .section("Description:", MCP_CALL_DESCRIPTION)
        .section("Options:", SESSION_OPTIONS)
        .section("Examples:", MCP_CALL_EXAMPLES)
        .text()
}

/// The help about `chrome-devtools mcp batch`.
pub open spec fn mcp_batch_help() -> Seq<Seq<char>> {
    let help = sectioned(titled("chrome-devtools mcp batch"@), "Usage:"@, MCP_BATCH_USAGE@);
    let help = sectioned(help, "Description:"@, MCP_BATCH_DESCRIPTION@);
    let help = sectioned(help, "Step shapes:"@, MCP_BATCH_STEP_SHAPES@);
    let help = sectioned(help, "Value references inside args:"@, MCP_BATCH_VALUE_REFERENCES_INSIDE_ARGS@);
    let help = sectioned(help, "Result shape (per step):"@, MCP_BATCH_RESULT_SHAPE@);
    let help = sectioned(help, "Error handling:"@, MCP_BATCH_ERROR_HANDLING@);
    let help = sectioned(help, "Options:"@, MCP_BATCH_OPTIONS@);
    let help = sectioned_raw(help, "Examples:"@, MCP_BATCH_EXAMPLES@);
    help
}

/// The help about `chrome-devtools mcp batch`.
pub fn print_mcp_batch_help() -> (r: String)
    ensures
        r@ == help_text(mcp_batch_help()),
{
    Help::titled("chrome-devtools mcp batch")
        .section("Usage:", MCP_BATCH_USAGE)
        .section("Description:", MCP_BATCH_DESCRIPTION)
        .section("Step shapes:", MCP_BATCH_STEP_SHAPES)
        .section("Value references inside args:", MCP_BATCH_VALUE_REFERENCES_INSIDE_ARGS)
        .section("Result shape (per step):", MCP_BATCH_RESULT_SHAPE)
        .section("Error handling:", MCP_BATCH_ERROR_HANDLING)
        .section("Options:", MCP_BATCH_OPTIONS)
        .section_raw("Examples:", MCP_BATCH_EXAMPLES)
        .text()
}

/// The help about `chrome-devtools mcp list`.
pub open spec fn mcp_list_help() -> Seq<Seq<char>> {
    let help = sectioned(titled("chrome-devtools mcp list"@), "Usage:"@, MCP_LIST_USAGE@);
    let help = sectioned(help, "Description:"@, MCP_LIST_DESCRIPTION@);
    let help = sectioned(help, "Options:"@, PROFILE_OPTIONS@);
    help
}

/// The help about `chrome-devtools mcp list`.
pub fn print_mcp_list_help() -> (r: String)
    ensures
        r@ == help_text(mcp_list_help()),
{
    Help::titled("chrome-devtools mcp list")
        .section("Usage:", MCP_LIST_USAGE)
        .section("Description:", MCP_LIST_DESCRIPTION)
        .section("Options:", PROFILE_OPTIONS)
        .text()
}

/// The help about `chrome-devtools mcp direct-call`.
pub open spec fn mcp_direct_call_help() -> Seq<Seq<char>> {
    let help = sectioned(titled("chrome-devtools mcp direct-call"@), "Usage:"@, MCP_DIRECT_CALL_USAGE@);
    let help = sectioned(help, "Description:"@, MCP_DIRECT_CALL_DESCRIPTION@);
    let help = sectioned(help, "Options:"@, PROFILE_OPTIONS@);
    let help = sectioned(help, "Notes:"@, MCP_DIRECT_CALL_NOTES@);
    help
}

/// The help about `chrome-devtools mcp direct-call`.
pub fn print_mcp_direct_call_help() -> (r: String)
    ensures
        r@ == help_text(mcp_direct_call_help()),
{
    Help::titled("chrome-devtools mcp direct-call")
        .section("Usage:", MCP_DIRECT_CALL_USAGE)
        .section("Description:", MCP_DIRECT_CALL_DESCRIPTION)
        .section("Options:", PROFILE_OPTIONS)
        .section("Notes:", MCP_DIRECT_CALL_NOTES)
        .text()
}

/// The help about `chrome-devtools mcp direct-list`.
pub open spec fn mcp_direct_list_help() -> Seq<Seq<char>> {
    let help = sectioned(titled("chrome-devtools mcp direct-list"@), "Usage:"@, MCP_DIRECT_LIST_USAGE@);
    let help = sectioned(help, "Description:"@, MCP_DIRECT_LIST_DESCRIPTION@);
    let help = sectioned(help, "Options:"@, PROFILE_OPTIONS@);
    let help = sectioned(help, "Notes:"@, MCP_DIRECT_LIST_NOTES@);
    help
}

/// The help about `chrome-devtools mcp direct-list`.
pub fn print_mcp_direct_list_help() -> (r: String)
    ensures
        r@ == help_text(mcp_direct_list_help()),
{
    Help::titled("chrome-devtools mcp direct-list")
        .section("Usage:", MCP_DIRECT_LIST_USAGE)
        .section("Description:", MCP_DIRECT_LIST_DESCRIPTION)
        .section("Options:", PROFILE_OPTIONS)
        .section("Notes:", MCP_DIRECT_LIST_NOTES)
        .text()
}

/// The help about `chrome-devtools profile status`.
pub open spec fn profile_status_help() -> Seq<Seq<char>> {
    let help = sectioned(titled("chrome-devtools profile status"@), "Usage:"@, PROFILE_STATUS_USAGE@);
    let help = sectioned(help, "Description:"@, PROFILE_STATUS_DESCRIPTION@);
    let help = sectioned(help, "Options:"@, PROFILE_OPTIONS@);
    help
}

/// The help about `chrome-devtools profile status`.
pub fn print_profile_status_help() -> (r: String)
    ensures
        r@ == help_text(profile_status_help()),
{
    Help::titled("chrome-devtools profile status")
        .section("Usage:", PROFILE_STATUS_USAGE)
        .section("Description:", PROFILE_STATUS_DESCRIPTION)
        .section("Options:", PROFILE_OPTIONS)
        .text()
}

/// The help about `chrome-devtools profile stop`.
pub open spec fn profile_stop_help() -> Seq<Seq<char>> {
    let help = sectioned(titled("chrome-devtools profile stop"@), "Usage:"@, PROFILE_STOP_USAGE@);
    let help = sectioned(help, "Description:"@, PROFILE_STOP_DESCRIPTION@);
    let help = sectioned(help, "Options:"@, PROFILE_STOP_OPTIONS@);
    help
}

/// The help about `chrome-devtools profile stop`.
pub fn print_profile_stop_help() -> (r: String)
    ensures
        r@ == help_text(profile_stop_help()),
{
    Help::titled("chrome-devtools profile stop")
        .section("Usage:", PROFILE_STOP_USAGE)
        .section("Description:", PROFILE_STOP_DESCRIPTION)
        .section("Options:", PROFILE_STOP_OPTIONS)
        .text()
}

/// The help about `chrome-devtools profile list`.
pub open spec fn profile_list_help() -> Seq<Seq<char>> {
    let help = sectioned(titled("chrome-devtools profile list"@), "Usage:"@, PROFILE_LIST_USAGE@);
    let help = sectioned(help, "Description:"@, PROFILE_LIST_DESCRIPTION@);
    let help = sectioned(help, "Options:"@, HELP_OPTION@);
    help
}

/// The help about `chrome-devtools profile list`.
pub fn print_profile_list_help() -> (r: String)
    ensures
        r@ == help_text(profile_list_help()),
{
    Help::titled("chrome-devtools profile list")
        .section("Usage:", PROFILE_LIST_USAGE)
        .section("Description:", PROFILE_LIST_DESCRIPTION)
        .section("Options:", HELP_OPTION)
        .text()
}

/// The help about `chrome-devtools daemon start`.
pub open spec fn daemon_start_help() -> Seq<Seq<char>> {
    let help = sectioned(titled("chrome-devtools daemon start"@), "Usage:"@, DAEMON_START_USAGE@);
    let help = sectioned(help, "Description:"@, DAEMON_START_DESCRIPTION@);
    let help = sectioned(help, "Options:"@, PROFILE_OPTIONS@);
    help
}

/// The help about `chrome-devtools daemon start`.
pub fn print_daemon_start_help() -> (r: String)
    ensures
        r@ == help_text(daemon_start_help()),
{
    Help::titled("chrome-devtools daemon start")
        .section("Usage:", DAEMON_START_USAGE)
        .section("Description:", DAEMON_START_DESCRIPTION)
        .section("Options:", PROFILE_OPTIONS)
        .text()
}

/// The help about `chrome-devtools daemon run`.
pub open spec fn daemon_run_help() -> Seq<Seq<char>> {
    let help = sectioned(titled("chrome-devtools daemon run"@), "Usage:"@, DAEMON_RUN_USAGE@);
    let help = sectioned(help, "Description:"@, DAEMON_RUN_DESCRIPTION@);
    let help = sectioned(help, "Options:"@, PROFILE_OPTIONS@);
    help
}

/// The help about `chrome-devtools daemon run`.
pub fn print_daemon_run_help() -> (r: String)
    ensures
        r@ == help_text(daemon_run_help()),
{
    Help::titled("chrome-devtools daemon run")
        .section("Usage:", DAEMON_RUN_USAGE)
        .section("Description:", DAEMON_RUN_DESCRIPTION)
        .section("Options:", PROFILE_OPTIONS)
        .text()
}

/// The help about `chrome-devtools daemon status`.
pub open spec fn daemon_status_help() -> Seq<Seq<char>> {
    let help = sectioned(titled("chrome-devtools daemon status"@), "Usage:"@, DAEMON_STATUS_USAGE@);
    let help = sectioned(help, "Description:"@, DAEMON_STATUS_DESCRIPTION@);
    let help = sectioned(help, "Options:"@, PROFILE_OPTIONS@);
    help
}

/// The help about `chrome-devtools daemon status`.
pub fn print_daemon_status_help() -> (r: String)
    ensures
        r@ == help_text(daemon_status_help()),
{
    Help::titled("chrome-devtools daemon status")
        .section("Usage:", DAEMON_STATUS_USAGE)
        .section("Description:", DAEMON_STATUS_DESCRIPTION)
        .section("Options:", PROFILE_OPTIONS)
        .text()
}

/// The help about `chrome-devtools daemon stop`.
pub open spec fn daemon_stop_help() -> Seq<Seq<char>> {
    let help = sectioned(titled("chrome-devtools daemon stop"@), "Usage:"@, DAEMON_STOP_USAGE@);
    let help = sectioned(help, "Description:"@, DAEMON_STOP_DESCRIPTION@);
    let help = sectioned(help, "Options:"@, DAEMON_STOP_OPTIONS@);
    help
}

/// The help about `chrome-devtools daemon stop`.
pub fn print_daemon_stop_help() -> (r: String)
    ensures
        r@ == help_text(daemon_stop_help()),
{
    Help::titled("chrome-devtools daemon stop")
        .section("Usage:", DAEMON_STOP_USAGE)
        .section("Description:", DAEMON_STOP_DESCRIPTION)
        .section("Options:", DAEMON_STOP_OPTIONS)
        .text()
}

/// The help about `chrome-devtools session`.
pub open spec fn session_help() -> Seq<Seq<char>> {
    let help = sectioned(titled("chrome-devtools session"@), "Usage:"@, SESSION_USAGE@);
    let help = sectioned(help, "Commands:"@, SESSION_COMMANDS@);
    let help = sectioned(help, "Options:"@, HELP_OPTION@);
    let help = sectioned(help, "Notes:"@, SESSION_NOTES@);
    help
}

/// The help about `chrome-devtools session`.
pub fn print_session_help() -> (r: String)
    ensures
        r@ == help_text(session_help()),
{
    Help::titled("chrome-devtools session")
        .section("Usage:", SESSION_USAGE)
        .section("Commands:", SESSION_COMMANDS)
        .section("Options:", HELP_OPTION)
        .section("Notes:", SESSION_NOTES)
        .text()
}

/// The help about `chrome-devtools session create`.
pub open spec fn session_create_help() -> Seq<Seq<char>> {
    let help = sectioned(titled("chrome-devtools session create"@), "Usage:"@, SESSION_CREATE_USAGE@);
    let help = sectioned(help, "Description:"@, SESSION_CREATE_DESCRIPTION@);
    let help = sectioned(help, "Options:"@, PROFILE_OPTIONS@);
    help
}

/// The help about `chrome-devtools session create`.
pub fn print_session_create_help() -> (r: String)
    ensures
        r@ == help_text(session_create_help()),
{
    Help::titled("chrome-devtools session create")
        .section("Usage:", SESSION_CREATE_USAGE)
        .section("Description:", SESSION_CREATE_DESCRIPTION)
        .section("Options:", PROFILE_OPTIONS)
        .text()
}

/// The help about `chrome-devtools session list`.
pub open spec fn session_list_help() -> Seq<Seq<char>> {
    let help = sectioned(titled("chrome-devtools session list"@), "Usage:"@, SESSION_LIST_USAGE@);
    let help = sectioned(help, "Description:"@, SESSION_LIST_DESCRIPTION@);
    let help = sectioned(help, "Options:"@, PROFILE_OPTIONS@);
    help
}

/// The help about `chrome-devtools session list`.
pub fn print_session_list_help() -> (r: String)
    ensures
        r@ == help_text(session_list_help()),
{
    Help::titled("chrome-devtools session list")
        .section("Usage:", SESSION_LIST_USAGE)
        .section("Description:", SESSION_LIST_DESCRIPTION)
        .section("Options:", PROFILE_OPTIONS)
        .text()
}

/// The help about `chrome-devtools session close`.
pub open spec fn session_close_help() -> Seq<Seq<char>> {
    let help = sectioned(titled("chrome-devtools session close"@), "Usage:"@, SESSION_CLOSE_USAGE@);
    let help = sectioned(help, "Description:"@, SESSION_CLOSE_DESCRIPTION@);
    let help = sectioned(help, "Options:"@, SESSION_OPTIONS@);
    help
}

/// The help about `chrome-devtools session close`.
pub fn print_session_close_help() -> (r: String)
    ensures
        r@ == help_text(session_close_help()),
{
    Help::titled("chrome-devtools session close")
        .section("Usage:", SESSION_CLOSE_USAGE)
        .section("Description:", SESSION_CLOSE_DESCRIPTION)
        .section("Options:", SESSION_OPTIONS)
        .text()
}

/// The line that tells the version of the program.
pub fn print_version(version: &str) -> (r: String)
    ensures
        r@ == "chrome-devtools "@ + version@,
{
    joined("chrome-devtools ", version)
}

} // verus!
