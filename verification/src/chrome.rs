//! The browser of a profile and the MCP server that drives it: how they are started and
//! found.
use crate::config::Profile;
use crate::text;
use crate::text::{
    chars_of, contains, find_from, is_whitespace, joined, joined3, number_text, parse_number, slice,
    split_whitespace,
};
use vstd::prelude::*;

verus! {

/// The version of the MCP server that is run unless another one is asked for.
pub const DEFAULT_MCP_VERSION: &'static str = "1.5.0";

/// How much memory the MCP server may use unless it is told otherwise, in megabytes.
pub const DEFAULT_MAX_OLD_SPACE_MB: &'static str = "2048";

/// The browser that is run unless one is installed elsewhere.
pub const DEFAULT_CHROME: &'static str = "google-chrome-stable";

/// The browser that is run: the one that was found installed, else the default one.
pub fn default_chrome_binary(found: Option<&str>) -> (r: String)
    ensures
        r@ == (match found {
            Some(path) => path@,
            None => DEFAULT_CHROME@,
        }),
{
    match found {
        Some(path) => path.to_string(),
        None => DEFAULT_CHROME.to_string(),
    }
}

/// How a profile comes to its browser.
pub enum ChromeStep {
    /// The recorded one answers.
    Keep { port: u16 },
    /// One that runs answers; its port is to be recorded.
    Adopt { port: u16 },
    /// A new one is to be started.
    Launch,
}

/// The port at which a browser answers.
pub open spec fn answering(port: Option<(u16, bool)>) -> Option<u16> {
    match port {
        Some((port, ready)) => if ready {
            Some(port)
        } else {
            None
        },
        None => None,
    }
}

/// How a profile comes to its browser: `recorded` is the port on record and whether a
/// browser answers there, `running` that of a browser found running.
pub fn ensure_chrome(recorded: Option<(u16, bool)>, running: Option<(u16, bool)>) -> (r: ChromeStep)
    ensures
        r == (match (answering(recorded), answering(running)) {
            (Some(port), _) => ChromeStep::Keep { port },
            (None, Some(port)) => ChromeStep::Adopt { port },
            (None, None) => ChromeStep::Launch,
        }),
{
    match recorded {
        Some((port, true)) => {
            return ChromeStep::Keep { port };
        },
        _ => {},
    }
    match running {
        Some((port, true)) => ChromeStep::Adopt { port },
        _ => ChromeStep::Launch,
    }
}

/// The further arguments that the browser is to be started with.
pub open spec fn extra_args(value: Option<Seq<char>>) -> Seq<Seq<char>> {
    match value {
        Some(value) => text::words(value),
        None => Seq::empty(),
    }
}

/// The further arguments that the browser is to be started with.
pub fn chrome_extra_args(value: Option<&str>) -> (r: Vec<String>)
    ensures
        text::texts(r@) == extra_args(text::opt_str(value)),
{
    match value {
        Some(value) => split_whitespace(value),
        None => {
            let none: Vec<String> = Vec::new();
            assert(text::texts(none@) =~= Seq::empty());
            none
        },
    }
}

/// The argument that names the browser's directory.
pub open spec fn dir_flag(dir: Seq<char>) -> Seq<char> {
    "--user-data-dir="@ + dir
}

/// The argument that names the browser's directory.
pub fn user_data_dir_flag(dir: &str) -> (r: String)
    ensures
        r@ == dir_flag(dir@),
{
    joined("--user-data-dir=", dir)
}

/// The arguments that the browser is started with.
pub open spec fn launch_args(port: nat, dir: Seq<char>, extra: Option<Seq<char>>) -> Seq<Seq<char>> {
    seq![
        "--remote-debugging-address=127.0.0.1"@,
        "--remote-debugging-port="@ + text::decimal(port),
        dir_flag(dir),
        "--no-first-run"@,
        "--no-default-browser-check"@,
        "--disable-features=PasswordLeakDetection"@,
    ] + extra_args(extra)
}

/// The arguments that the browser is started with.
pub fn chrome_args(port: u16, user_data_dir: &str, extra: Option<&str>) -> (r: Vec<String>)
    ensures
        text::texts(r@) == launch_args(port as nat, user_data_dir@, text::opt_str(extra)),
{
    let mut out: Vec<String> = vec![
        "--remote-debugging-address=127.0.0.1".to_string(),
        joined("--remote-debugging-port=", number_text(port as u128).as_str()),
        user_data_dir_flag(user_data_dir),
        "--no-first-run".to_string(),
        "--no-default-browser-check".to_string(),
        "--disable-features=PasswordLeakDetection".to_string(),
    ];
    let more = chrome_extra_args(extra);
    let ghost first = out@;
    let mut i: usize = 0;
    while i < more.len()
        invariant
            i <= more.len(),
            first.len() == 6,
            out.len() == 6 + i,
            forall|j: int| 0 <= j < 6 ==> #[trigger] out@[j] == first[j],
            forall|j: int| 0 <= j < i ==> (#[trigger] out@[j + 6])@ == more@[j]@,
        decreases more.len() - i,
    {
        let ghost before = out@;
        out.push(more[i].clone());
        proof {
            assert forall|j: int| 0 <= j < i + 1 implies (#[trigger] out@[j + 6])@ == more@[j]@ by {
                if j < i {
                    assert(out@[j + 6] == before[j + 6]);
                }
            }
        }
        i = i + 1;
    }
    proof {
        let wanted = launch_args(port as nat, user_data_dir@, text::opt_str(extra));
        let all = text::texts(out@);
        assert forall|j: int| 0 <= j < all.len() implies all[j] == wanted[j] by {
            if j >= 6 {
                assert(out@[(j - 6) + 6]@ == more@[j - 6]@);
                assert(text::texts(more@)[j - 6] == more@[j - 6]@);
            } else {
                assert(out@[j] == first[j]);
            }
        }
        assert(all =~= wanted);
    }
    out
}

/// How a program is started.
pub struct McpCommand {
    pub program: String,
    pub args: Vec<String>,
    pub node_options: String,
}

/// How a program is started.
pub struct CommandView {
    pub program: Seq<char>,
    pub args: Seq<Seq<char>>,
    pub node_options: Seq<char>,
}

impl View for McpCommand {
    type V = CommandView;

    open spec fn view(&self) -> CommandView {
        CommandView {
            program: self.program@,
            args: text::texts(self.args@),
            node_options: self.node_options@,
        }
    }
}

/// What the environment says about the MCP server.
pub struct McpSettings<'a> {
    /// The program to run in its place.
    pub program: Option<&'a str>,
    /// Its version.
    pub version: Option<&'a str>,
    /// How much memory it may use.
    pub max_old_space_mb: Option<&'a str>,
    /// What Node is told anyway.
    pub node_options: Option<&'a str>,
}

/// The setting, or its default.
pub open spec fn or_default(value: Option<&str>, default: Seq<char>) -> Seq<char> {
    match value {
        Some(value) => value@,
        None => default,
    }
}

/// What Node is told: what it is told anyway, and the limit of its memory.
pub open spec fn node_told(settings: McpSettings) -> Seq<char> {
    let limit = "--max-old-space-size="@ + or_default(
        settings.max_old_space_mb,
        DEFAULT_MAX_OLD_SPACE_MB@,
    );
    match settings.node_options {
        Some(existing) => if existing@.len() > 0 {
            existing@ + " "@ + limit
        } else {
            limit
        },
        None => limit,
    }
}

/// How the MCP server is started for a browser.
pub open spec fn server_command(settings: McpSettings, port: nat) -> CommandView {
    let own = seq![
        "--browser-url"@,
        "http://127.0.0.1:"@ + text::decimal(port),
        "--no-usage-statistics"@,
        "--no-performance-crux"@,
    ];
    CommandView {
        program: or_default(settings.program, "npx"@),
        args: if settings.program is Some {
            own
        } else {
            seq![
                "-y"@,
                "chrome-devtools-mcp@"@ + or_default(settings.version, DEFAULT_MCP_VERSION@),
            ] + own
        },
        node_options: node_told(settings),
    }
}

/// How the daemon starts the MCP server: pages are told by their ids.
pub open spec fn daemon_command(settings: McpSettings, port: nat) -> CommandView {
    let plain = server_command(settings, port);
    CommandView {
        args: plain.args.push("--experimentalPageIdRouting"@).push(
            "--experimentalStructuredContent"@,
        ),
        ..plain
    }
}

fn setting_or(value: Option<&str>, default: &str) -> (r: String)
    ensures
        r@ == or_default(value, default@),
{
    match value {
        Some(value) => value.to_string(),
        None => default.to_string(),
    }
}

/// How the MCP server is started for a browser.
pub fn mcp_command(settings: &McpSettings, port: u16) -> (r: McpCommand)
    ensures
        r@ == server_command(*settings, port as nat),
{
    let limit = joined(
        "--max-old-space-size=",
        setting_or(settings.max_old_space_mb, DEFAULT_MAX_OLD_SPACE_MB).as_str(),
    );
    let node_options = match settings.node_options {
        Some(existing) => {
            if existing.unicode_len() > 0 {
                joined3(existing, " ", limit.as_str())
            } else {
                limit
            }
        },
        None => limit,
    };
    let url = joined("http://127.0.0.1:", number_text(port as u128).as_str());
    let ghost wanted = server_command(*settings, port as nat).args;
    let args: Vec<String> = match settings.program {
        Some(_) => vec![
            "--browser-url".to_string(),
            url,
            "--no-usage-statistics".to_string(),
            "--no-performance-crux".to_string(),
        ],
        None => vec![
            "-y".to_string(),
            joined(
                "chrome-devtools-mcp@",
                setting_or(settings.version, DEFAULT_MCP_VERSION).as_str(),
            ),
            "--browser-url".to_string(),
            url,
            "--no-usage-statistics".to_string(),
            "--no-performance-crux".to_string(),
        ],
    };
    assert(text::texts(args@) =~= wanted);
    McpCommand { program: setting_or(settings.program, "npx"), args, node_options }
}

/// How the daemon starts the MCP server.
pub fn daemon_mcp_command(settings: &McpSettings, port: u16) -> (r: McpCommand)
    ensures
        r@ == daemon_command(*settings, port as nat),
{
    let mut command = mcp_command(settings, port);
    let routing = "--experimentalPageIdRouting".to_string();
    let structured = "--experimentalStructuredContent".to_string();
    proof {
        text::lemma_texts_push(command.args@, routing);
        text::lemma_texts_push(command.args@.push(routing), structured);
    }
    command.args.push(routing);
    command.args.push(structured);
    command
}

/// The index of the first white space at or after `i`, or the length of the text.
pub open spec fn word_end(s: Seq<char>, i: int) -> int
    decreases s.len() - i,
{
    if i < 0 || i >= s.len() || text::whitespace(s[i]) {
        i
    } else {
        word_end(s, i + 1)
    }
}

/// The port that a command line names.
pub open spec fn debugging_port(cmdline: Seq<char>) -> Option<u16> {
    match text::first_at(cmdline, "--remote-debugging-port="@, 0) {
        Some(i) => {
            let start = i + "--remote-debugging-port="@.len();
            match text::parsed(
                cmdline.subrange(start, word_end(cmdline, start)),
                u16::MAX as nat,
            ) {
                Some(port) => Some(port as u16),
                None => None,
            }
        },
        None => None,
    }
}

/// The port that a command line names.
pub fn extract_remote_debugging_port(cmdline: &str) -> (r: Option<u16>)
    ensures
        r == debugging_port(cmdline@),
{
    let chars = chars_of(cmdline);
    let prefix = chars_of("--remote-debugging-port=");
    let start: usize = match find_from(&chars, &prefix, 0) {
        Some(i) => i + prefix.len(),
        None => {
            return None;
        },
    };
    let mut end: usize = start;
    while end < chars.len() && !is_whitespace(chars[end])
        invariant
            start <= end <= chars.len(),
            chars@ == cmdline@,
            word_end(cmdline@, start as int) == word_end(cmdline@, end as int),
        decreases chars.len() - end,
    {
        end = end + 1;
    }
    match parse_number(slice(&chars, start, end).as_str(), u16::MAX as u64) {
        Some(port) => Some(port as u16),
        None => None,
    }
}

/// Whether a command line is that of the browser itself in some directory.
pub open spec fn is_browser(cmdline: Seq<char>, dir: Seq<char>) -> bool {
    !text::holds(cmdline, "--type="@) && text::holds(cmdline, dir_flag(dir))
}

/// The port of the first browser in a directory that names one.
pub open spec fn browser_port(cmdlines: Seq<Seq<char>>, dir: Seq<char>) -> Option<u16>
    decreases cmdlines.len(),
{
    if cmdlines.len() == 0 {
        None
    } else if is_browser(cmdlines[0], dir) && debugging_port(cmdlines[0]) is Some {
        debugging_port(cmdlines[0])
    } else {
        browser_port(cmdlines.skip(1), dir)
    }
}

/// The port of a browser that runs in a directory.
pub fn find_running_chrome_port(user_data_dir: &str, cmdlines: &Vec<String>) -> (r: Option<u16>)
    ensures
        r == browser_port(text::texts(cmdlines@), user_data_dir@),
{
    let needle = user_data_dir_flag(user_data_dir);
    let ghost all = text::texts(cmdlines@);
    let mut i: usize = 0;
    assert(all.skip(0) =~= all);
    while i < cmdlines.len()
        invariant
            i <= cmdlines.len(),
            all == text::texts(cmdlines@),
            needle@ == dir_flag(user_data_dir@),
            browser_port(all, user_data_dir@) == browser_port(all.skip(i as int), user_data_dir@),
        decreases cmdlines.len() - i,
    {
        assert(all.skip(i as int).skip(1) =~= all.skip(i + 1));
        assert(all.skip(i as int)[0] == cmdlines@[i as int]@);
        let cmdline = cmdlines[i].as_str();
        if !contains(cmdline, "--type=") && contains(cmdline, needle.as_str()) {
            match extract_remote_debugging_port(cmdline) {
                Some(port) => {
                    return Some(port);
                },
                None => {},
            }
        }
        i = i + 1;
    }
    None
}

/// Whether an entry of the process directory is a process.
pub open spec fn is_process(name: Seq<char>) -> bool {
    text::all_digits(name)
}

/// A command line of the system as a text: its parts end in zero bytes.
pub open spec fn cmdline_view(bytes: Seq<u8>) -> Seq<char> {
    bytes.map_values(
        |b: u8|
            if b == 0 {
                ' '
            } else {
                b as char
            },
    )
}

fn names_process(name: &str) -> (r: bool)
    ensures
        r == is_process(name@),
{
    let chars = chars_of(name);
    let mut i: usize = 0;
    while i < chars.len()
        invariant
            i <= chars.len(),
            chars@ == name@,
            forall|j: int| 0 <= j < i ==> text::is_digit(#[trigger] name@[j]),
        decreases chars.len() - i,
    {
        if !('0' <= chars[i] && chars[i] <= '9') {
            assert(!text::is_digit(name@[i as int]));
            return false;
        }
        i = i + 1;
    }
    true
}

fn cmdline_text(bytes: &Vec<u8>) -> (r: String)
    ensures
        r@ == cmdline_view(bytes@),
{
    let mut out = String::new();
    let mut i: usize = 0;
    while i < bytes.len()
        invariant
            i <= bytes.len(),
            out@ =~= cmdline_view(bytes@).take(i as int),
        decreases bytes.len() - i,
    {
        if bytes[i] == 0 {
            out.push(' ');
        } else {
            out.push(bytes[i] as char);
        }
        i = i + 1;
    }
    assert(cmdline_view(bytes@).take(i as int) =~= cmdline_view(bytes@));
    out
}

/// The command lines of the processes among these entries of the process directory; an
/// entry comes with its command line where that can be read.
pub open spec fn process_lines(entries: Seq<(String, Option<Vec<u8>>)>) -> Seq<Seq<char>>
    decreases entries.len(),
{
    if entries.len() == 0 {
        Seq::empty()
    } else {
        let before = process_lines(entries.drop_last());
        match entries.last().1 {
            Some(bytes) => if is_process(entries.last().0@) {
                before.push(cmdline_view(bytes@))
            } else {
                before
            },
            None => before,
        }
    }
}

/// The command lines of the processes that run.
pub fn list_browser_cmdlines(entries: &Vec<(String, Option<Vec<u8>>)>) -> (r: Vec<String>)
    ensures
        text::texts(r@) == process_lines(entries@),
{
    let mut out: Vec<String> = Vec::new();
    let mut i: usize = 0;
    assert(entries@.take(0) =~= Seq::empty());
    assert(text::texts(out@) =~= Seq::empty());
    while i < entries.len()
        invariant
            i <= entries.len(),
            text::texts(out@) == process_lines(entries@.take(i as int)),
        decreases entries.len() - i,
    {
        assert(entries@.take(i + 1).drop_last() =~= entries@.take(i as int));
        if names_process(entries[i].0.as_str()) {
            match &entries[i].1 {
                Some(bytes) => {
                    let line = cmdline_text(bytes);
                    proof {
                        text::lemma_texts_push(out@, line);
                    }
                    out.push(line);
                },
                None => {},
            }
        }
        i = i + 1;
    }
    assert(entries@.take(i as int) =~= entries@);
    out
}

/// Why a browser is not stopped while its daemon runs.
pub open spec fn daemon_runs(name: Seq<char>) -> Seq<char> {
    "daemon for profile "@ + name
        + " is running and other agents may be using it; stopping Chrome would break their sessions. run 'chrome-devtools daemon stop --profile "@
        + name + "' first, or pass --force"@
}

/// Whether a browser may be stopped: not while its daemon runs, unless it is forced.
pub fn stop_profile(profile: &Profile, force: bool, daemon_ready: bool) -> (r: Result<(), String>)
    ensures
        match r {
            Ok(()) => force || !daemon_ready,
            Err(message) => !force && daemon_ready && message@ == daemon_runs(profile@.name),
        },
{
    if !force && daemon_ready {
        let mut message = joined3(
            "daemon for profile ",
            profile.name.as_str(),
            " is running and other agents may be using it; stopping Chrome would break their sessions. run 'chrome-devtools daemon stop --profile ",
        );
        message.append(profile.name.as_str());
        message.append("' first, or pass --force");
        Err(message)
    } else {
        Ok(())
    }
}

/// Whether stopping a browser went well: one was stopped, or there was none. `status` is
/// how the program that does it ended, in words.
pub fn pkill_result(success: bool, code: Option<i32>, status: &str) -> (r: Result<(), String>)
    ensures
        match r {
            Ok(()) => success || code == Some(1i32),
            Err(message) => !success && code != Some(1i32) && message@ == "pkill exited with "@
                + status@,
        },
{
    if success {
        return Ok(());
    }
    match code {
        Some(code) => {
            if code == 1 {
                return Ok(());
            }
        },
        None => {},
    }
    Err(joined("pkill exited with ", status))
}

/// What the program that was run in the place of the daemon came to. `status` is how it
/// ended, in words.
pub fn exec_mcp(success: bool, status: &str) -> (r: Result<(), String>)
    ensures
        match r {
            Ok(()) => success,
            Err(message) => !success && message@ == "chrome-devtools-mcp exited with "@ + status@,
        },
{
    if success {
        Ok(())
    } else {
        Err(joined("chrome-devtools-mcp exited with ", status))
    }
}

/// A browser that was started for a directory and a port is found again by its command
/// line, whatever follows, unless something in it makes it look like a helper process.
pub proof fn started_browsers_are_found(before: Seq<char>, port: u16, dir: Seq<char>, rest: Seq<char>)
    requires
        text::first_at(before + "--remote-debugging-port="@, "--remote-debugging-port="@, 0)
            == Some(before.len() as int),
    ensures
        ({
            let line = before + "--remote-debugging-port="@ + text::decimal(port as nat) + " "@
                + dir_flag(dir) + rest;
            !text::holds(line, "--type="@) ==> browser_port(seq![line], dir) == Some(port)
        }),
{
    let flag = "--remote-debugging-port="@;
    let digits = text::decimal(port as nat);
    let tail = " "@ + dir_flag(dir) + rest;
    let line = before + flag + digits + " "@ + dir_flag(dir) + rest;
    reveal_strlit(" ");
    reveal_strlit("--remote-debugging-port=");
    text::decimal_denotes(port as nat);
    assert(line =~= before + flag + (digits + tail));
    lemma_first_stays(before + flag, digits + tail, flag, 0);
    let start = before.len() + flag.len() as int;
    assert forall|i: int| 0 <= i < digits.len() implies !text::whitespace(
        #[trigger] line[start + i],
    ) by {
        assert(line[start + i] == digits[i]);
        assert(text::is_digit(digits[i]));
    }
    lemma_word_end(line, start, digits.len() as int);
    assert(line[start + digits.len()] == ' ');
    assert(word_end(line, start + digits.len()) == start + digits.len());
    assert(line.subrange(start, start + digits.len()) =~= digits);
    text::printing_and_parsing_agree(port as nat, u16::MAX as nat);
    let at = start + digits.len() + 1;
    assert(text::occurs(line, dir_flag(dir), at)) by {
        assert(line.subrange(at, at + dir_flag(dir).len()) =~= dir_flag(dir));
    }
    assert(seq![line][0] == line);
}

proof fn lemma_word_end(s: Seq<char>, start: int, n: int)
    requires
        0 <= start,
        0 <= n,
        start + n <= s.len(),
        forall|i: int| 0 <= i < n ==> !text::whitespace(#[trigger] s[start + i]),
    ensures
        word_end(s, start) == word_end(s, start + n),
    decreases n,
{
    if n > 0 {
        lemma_word_end(s, start, n - 1);
        assert(!text::whitespace(s[start + (n - 1)]));
    }
}

proof fn lemma_first_stays(s: Seq<char>, rest: Seq<char>, p: Seq<char>, i: int)
    requires
        0 <= i,
        text::first_at(s, p, i) is Some,
    ensures
        text::first_at(s + rest, p, i) == text::first_at(s, p, i),
    decreases s.len() - i + 1,
{
    text::lemma_first_at(s, p, i);
    let k = text::first_at(s, p, i)->0;
    if i + p.len() <= s.len() {
        assert((s + rest).subrange(i, i + p.len()) =~= s.subrange(i, i + p.len()));
    }
    if !text::occurs(s, p, i) {
        if i + p.len() > s.len() {
            assert(k >= i && k + p.len() <= s.len());
            assert(false);
        }
        lemma_first_stays(s, rest, p, i + 1);
    }
}

} // verus!
