//! What the command line asks for.
use crate::batch;
use crate::batch::{parse_batch_args, BatchOptions};
use crate::config;
use crate::config::{find_profile, Config, Profile};
use crate::help;
use crate::text;
use crate::text::{joined, joined3, same};
use vstd::prelude::*;

verus! {

/// Whether an argument is a flag that may stand before the command.
pub open spec fn is_global(arg: Seq<char>) -> bool {
    arg == "--profile"@ || arg == "--session"@
}

/// The command and what belongs to it: `positional` and `rest` with the arguments from `i`
/// on. The first two arguments that are neither a global flag nor its value are the
/// command; all that follows them stays as it is.
pub open spec fn split_from(
    positional: Seq<Seq<char>>,
    rest: Seq<Seq<char>>,
    args: Seq<Seq<char>>,
    i: int,
) -> (Seq<Seq<char>>, Seq<Seq<char>>)
    decreases args.len() - i,
{
    if i >= args.len() {
        (positional, rest)
    } else if positional.len() >= 2 {
        split_from(positional, rest.push(args[i]), args, i + 1)
    } else if is_global(args[i]) {
        if i + 1 < args.len() {
            split_from(positional, rest.push(args[i]).push(args[i + 1]), args, i + 2)
        } else {
            (positional, rest.push(args[i]))
        }
    } else {
        split_from(positional.push(args[i]), rest, args, i + 1)
    }
}

/// The command and what belongs to it.
pub open spec fn split_args(args: Seq<Seq<char>>) -> (Seq<Seq<char>>, Seq<Seq<char>>) {
    split_from(Seq::empty(), Seq::empty(), args, 0)
}

/// The command and what belongs to it.
pub fn split_command_args(args: Vec<String>) -> (r: (Vec<String>, Vec<String>))
    ensures
        (text::texts(r.0@), text::texts(r.1@)) == split_args(text::texts(args@)),
{
    let ghost all = text::texts(args@);
    let mut positional: Vec<String> = Vec::new();
    let mut rest: Vec<String> = Vec::new();
    let mut i: usize = 0;
    assert(text::texts(positional@) =~= Seq::empty());
    while i < args.len()
        invariant
            i <= args.len(),
            all == text::texts(args@),
            all.len() == args.len(),
            split_args(all) == split_from(
                text::texts(positional@),
                text::texts(rest@),
                all,
                i as int,
            ),
        decreases args.len() - i,
    {
        let arg = args[i].clone();
        assert(all[i as int] == arg@);
        if positional.len() >= 2 {
            proof {
                text::lemma_texts_push(rest@, arg);
            }
            rest.push(arg);
            i = i + 1;
        } else if same(arg.as_str(), "--profile") || same(arg.as_str(), "--session") {
            proof {
                text::lemma_texts_push(rest@, arg);
            }
            rest.push(arg);
            i = i + 1;
            if i < args.len() {
                let value = args[i].clone();
                proof {
                    assert(all[i as int] == value@);
                    text::lemma_texts_push(rest@, value);
                }
                rest.push(value);
                i = i + 1;
            }
        } else {
            proof {
                text::lemma_texts_push(positional@, arg);
            }
            positional.push(arg);
            i = i + 1;
        }
    }
    (positional, rest)
}

/// The arguments other than a flag.
pub open spec fn without_flag(args: Seq<Seq<char>>, flag: Seq<char>) -> Seq<Seq<char>> {
    args.filter(|arg: Seq<char>| arg != flag)
}

/// Whether a flag is among the arguments, and the arguments without it.
pub fn extract_flag(args: &[String], flag: &str) -> (r: (bool, Vec<String>))
    ensures
        r.0 == text::texts(args@).contains(flag@),
        text::texts(r.1@) == without_flag(text::texts(args@), flag@),
{
    let ghost all = text::texts(args@);
    let ghost other = |arg: Seq<char>| arg != flag@;
    let mut found = false;
    let mut rest: Vec<String> = Vec::new();
    let mut i: usize = 0;
    proof {
        reveal(Seq::filter);
        assert(all.take(0) =~= Seq::empty());
        assert(text::texts(rest@) =~= all.take(0).filter(other));
    }
    while i < args.len()
        invariant
            i <= args.len(),
            all == text::texts(args@),
            other == (|arg: Seq<char>| arg != flag@),
            found == exists|j: int| 0 <= j < i && #[trigger] all[j] == flag@,
            text::texts(rest@) == all.take(i as int).filter(other),
        decreases args.len() - i,
    {
        proof {
            reveal(Seq::filter);
            assert(all.take(i + 1).drop_last() =~= all.take(i as int));
            assert(all.take(i + 1).last() == args@[i as int]@);
            assert(all[i as int] == args@[i as int]@);
        }
        if same(args[i].as_str(), flag) {
            found = true;
        } else {
            let arg = args[i].clone();
            proof {
                text::lemma_texts_push(rest@, arg);
            }
            rest.push(arg);
        }
        i = i + 1;
    }
    assert(all.take(i as int) =~= all);
    (found, rest)
}

/// Whether an argument asks for help.
pub open spec fn is_help(arg: Seq<char>) -> bool {
    arg == "--help"@ || arg == "-h"@ || arg == "help"@
}

/// Whether one of the arguments asks for help.
pub open spec fn asks_help(args: Seq<Seq<char>>) -> bool {
    exists|i: int| 0 <= i < args.len() && is_help(#[trigger] args[i])
}

fn means_help(arg: &str) -> (r: bool)
    ensures
        r == is_help(arg@),
{
    same(arg, "--help") || same(arg, "-h") || same(arg, "help")
}

/// Whether one of the arguments asks for help.
pub fn wants_help(args: &[String]) -> (r: bool)
    ensures
        r == asks_help(text::texts(args@)),
{
    let ghost all = text::texts(args@);
    let mut i: usize = 0;
    while i < args.len()
        invariant
            i <= args.len(),
            all == text::texts(args@),
            forall|j: int| 0 <= j < i ==> !is_help(#[trigger] all[j]),
        decreases args.len() - i,
    {
        assert(all[i as int] == args@[i as int]@);
        if means_help(args[i].as_str()) {
            return true;
        }
        i = i + 1;
    }
    false
}

/// The message about an argument that means nothing.
pub open spec fn unknown_argument(arg: Seq<char>) -> Seq<char> {
    "unknown argument: "@ + arg
}

/// Refuses arguments where there are to be none.
pub fn reject_extra_args(args: &[String]) -> (r: Result<(), String>)
    ensures
        match r {
            Ok(()) => args@.len() == 0,
            Err(message) => args@.len() > 0 && message@ == unknown_argument(args@[0]@),
        },
{
    if args.len() == 0 {
        Ok(())
    } else {
        Err(joined("unknown argument: ", args[0].as_str()))
    }
}

/// The profile and the session that the arguments from `i` on name, after those that were
/// named before; a later one replaces an earlier one.
pub open spec fn named_from(
    args: Seq<Seq<char>>,
    i: int,
    with_session: bool,
    profile: Option<Seq<char>>,
    session: Option<Seq<char>>,
) -> Result<(Option<Seq<char>>, Option<Seq<char>>), Seq<char>>
    decreases args.len() - i,
{
    if i >= args.len() {
        Ok((profile, session))
    } else if args[i] == "--profile"@ {
        if i + 1 < args.len() {
            named_from(args, i + 2, with_session, Some(args[i + 1]), session)
        } else {
            Err("--profile requires a value"@)
        }
    } else if with_session && args[i] == "--session"@ {
        if i + 1 < args.len() {
            named_from(args, i + 2, with_session, profile, Some(args[i + 1]))
        } else {
            Err("--session requires a value"@)
        }
    } else {
        Err(unknown_argument(args[i]))
    }
}

/// The profile and the session that the arguments name.
fn named_args(args: &[String], with_session: bool) -> (r: Result<
    (Option<String>, Option<String>),
    String,
>)
    ensures
        match r {
            Ok((profile, session)) => named_from(
                text::texts(args@),
                0,
                with_session,
                None,
                None,
            ) == Ok::<(Option<Seq<char>>, Option<Seq<char>>), Seq<char>>(
                (text::opt_text(profile), text::opt_text(session)),
            ),
            Err(message) => named_from(text::texts(args@), 0, with_session, None, None) == Err::<
                (Option<Seq<char>>, Option<Seq<char>>),
                Seq<char>,
            >(message@),
        },
{
    let ghost all = text::texts(args@);
    let mut profile: Option<String> = None;
    let mut session: Option<String> = None;
    let mut index: usize = 0;
    while index < args.len()
        invariant
            index <= args.len(),
            all == text::texts(args@),
            all.len() == args.len(),
            named_from(all, 0, with_session, None, None) == named_from(
                all,
                index as int,
                with_session,
                text::opt_text(profile),
                text::opt_text(session),
            ),
        decreases args.len() - index,
    {
        let arg = args[index].as_str();
        assert(all[index as int] == arg@);
        if same(arg, "--profile") {
            if args.len() - index <= 1 {
                return Err("--profile requires a value".to_string());
            }
            assert(all[index + 1] == args@[index + 1]@);
            profile = Some(args[index + 1].clone());
            index = index + 2;
        } else if with_session && same(arg, "--session") {
            if args.len() - index <= 1 {
                return Err("--session requires a value".to_string());
            }
            assert(all[index + 1] == args@[index + 1]@);
            session = Some(args[index + 1].clone());
            index = index + 2;
        } else {
            return Err(joined("unknown argument: ", arg));
        }
    }
    Ok((profile, session))
}

/// The profile that the arguments name.
pub open spec fn required_profile(profiles: Seq<config::ProfileView>, args: Seq<Seq<char>>) -> Result<
    config::ProfileView,
    Seq<char>,
> {
    match named_from(args, 0, false, None, None) {
        Err(message) => Err(message),
        Ok((None, _)) => Err("--profile is required"@),
        Ok((Some(name), _)) => match config::profile_named(profiles, name) {
            Some(profile) => Ok(profile),
            None => Err(config::unknown_profile(profiles, name)),
        },
    }
}

/// The profile that the arguments name.
pub fn require_profile(config: &Config, args: &[String]) -> (r: Result<Profile, String>)
    ensures
        match r {
            Ok(profile) => required_profile(config@, text::texts(args@)) == Ok::<
                config::ProfileView,
                Seq<char>,
            >(profile@),
            Err(message) => required_profile(config@, text::texts(args@)) == Err::<
                config::ProfileView,
                Seq<char>,
            >(message@),
        },
{
    match named_args(args, false) {
        Err(message) => Err(message),
        Ok((None, _)) => Err("--profile is required".to_string()),
        Ok((Some(name), _)) => find_profile(config, name.as_str()),
    }
}

/// The profile and the session that the arguments name.
pub open spec fn required_both(profiles: Seq<config::ProfileView>, args: Seq<Seq<char>>) -> Result<
    (config::ProfileView, Seq<char>),
    Seq<char>,
> {
    match named_from(args, 0, true, None, None) {
        Err(message) => Err(message),
        Ok((None, _)) => Err("--profile is required"@),
        Ok((Some(_), None)) => Err("--session is required"@),
        Ok((Some(name), Some(session))) => match config::profile_named(profiles, name) {
            Some(profile) => Ok((profile, session)),
            None => Err(config::unknown_profile(profiles, name)),
        },
    }
}

/// The profile and the session that the arguments name.
pub fn require_profile_and_session(config: &Config, args: &[String]) -> (r: Result<
    (Profile, String),
    String,
>)
    ensures
        match r {
            Ok((profile, session)) => required_both(config@, text::texts(args@)) == Ok::<
                (config::ProfileView, Seq<char>),
                Seq<char>,
            >((profile@, session@)),
            Err(message) => required_both(config@, text::texts(args@)) == Err::<
                (config::ProfileView, Seq<char>),
                Seq<char>,
            >(message@),
        },
{
    match named_args(args, true) {
        Err(message) => Err(message),
        Ok((None, _)) => Err("--profile is required".to_string()),
        Ok((Some(_), None)) => Err("--session is required".to_string()),
        Ok((Some(name), Some(session))) => match find_profile(config, name.as_str()) {
            Ok(profile) => Ok((profile, session)),
            Err(message) => Err(message),
        },
    }
}

/// The profiles, one on each line.
pub open spec fn profiles_text(profiles: Seq<config::ProfileView>) -> Seq<char>
    decreases profiles.len(),
{
    if profiles.len() == 0 {
        ""@
    } else {
        profiles_text(profiles.drop_last()) + profiles.last().name + "\tuser_data_dir="@
            + profiles.last().dir + "\n"@
    }
}

/// The profiles, one on each line.
pub fn list_profiles(config: &Config) -> (r: String)
    ensures
        r@ == profiles_text(config@),
{
    let ghost views = config@;
    let mut out = "".to_string();
    let mut i: usize = 0;
    assert(views.take(0) =~= Seq::empty());
    while i < config.profiles.len()
        invariant
            i <= config.profiles.len(),
            views == config@,
            out@ == profiles_text(views.take(i as int)),
        decreases config.profiles.len() - i,
    {
        assert(views.take(i + 1).drop_last() =~= views.take(i as int));
        assert(views.take(i + 1).last() == config.profiles@[i as int]@);
        out.append(config.profiles[i].name.as_str());
        out.append("\tuser_data_dir=");
        out.append(config.profiles[i].user_data_dir.as_str());
        out.append("\n");
        i = i + 1;
    }
    assert(views.take(i as int) =~= views);
    out
}

/// What can be asked for.
#[derive(Clone, Copy, PartialEq, Eq, Structural)]
pub enum Verb {
    /// Make a session.
    SessionCreate,
    /// List the sessions.
    SessionList,
    /// Close a session.
    SessionClose,
    /// Hand requests from the standard input to a session.
    McpCall,
    /// Run a script in a session.
    McpBatch,
    /// List the tools.
    McpList,
    /// Run the MCP server without the daemon.
    McpDirectCall,
    /// List the tools without the daemon.
    McpDirectList,
    /// Tell whether the browser runs.
    ProfileStatus,
    /// Stop the browser.
    ProfileStop,
    /// List the profiles.
    ProfileList,
    /// Start the daemon.
    DaemonStart,
    /// Be the daemon.
    DaemonRun,
    /// Tell whether the daemon runs.
    DaemonStatus,
    /// Stop the daemon.
    DaemonStop,
}

/// What a command asks for.
pub open spec fn verb_of(object: Seq<char>, action: Seq<char>) -> Option<Verb> {
    if object == "session"@ {
        if action == "create"@ {
            Some(Verb::SessionCreate)
        } else if action == "list"@ {
            Some(Verb::SessionList)
        } else if action == "close"@ {
            Some(Verb::SessionClose)
        } else {
            None
        }
    } else if object == "mcp"@ {
        if action == "call"@ {
            Some(Verb::McpCall)
        } else if action == "batch"@ {
            Some(Verb::McpBatch)
        } else if action == "list"@ {
            Some(Verb::McpList)
        } else if action == "direct-call"@ {
            Some(Verb::McpDirectCall)
        } else if action == "direct-list"@ {
            Some(Verb::McpDirectList)
        } else {
            None
        }
    } else if object == "profile"@ {
        if action == "status"@ {
            Some(Verb::ProfileStatus)
        } else if action == "stop"@ {
            Some(Verb::ProfileStop)
        } else if action == "list"@ {
            Some(Verb::ProfileList)
        } else {
            None
        }
    } else if object == "daemon"@ {
        if action == "start"@ {
            Some(Verb::DaemonStart)
        } else if action == "run"@ {
            Some(Verb::DaemonRun)
        } else if action == "status"@ {
            Some(Verb::DaemonStatus)
        } else if action == "stop"@ {
            Some(Verb::DaemonStop)
        } else {
            None
        }
    } else {
        None
    }
}

/// What a command asks for.
pub fn parse_verb(object: &str, action: &str) -> (r: Option<Verb>)
    ensures
        r == verb_of(object@, action@),
{
    if same(object, "session") {
        if same(action, "create") {
            Some(Verb::SessionCreate)
        } else if same(action, "list") {
            Some(Verb::SessionList)
        } else if same(action, "close") {
            Some(Verb::SessionClose)
        } else {
            None
        }
    } else if same(object, "mcp") {
        if same(action, "call") {
            Some(Verb::McpCall)
        } else if same(action, "batch") {
            Some(Verb::McpBatch)
        } else if same(action, "list") {
            Some(Verb::McpList)
        } else if same(action, "direct-call") {
            Some(Verb::McpDirectCall)
        } else if same(action, "direct-list") {
            Some(Verb::McpDirectList)
        } else {
            None
        }
    } else if same(object, "profile") {
        if same(action, "status") {
            Some(Verb::ProfileStatus)
        } else if same(action, "stop") {
            Some(Verb::ProfileStop)
        } else if same(action, "list") {
            Some(Verb::ProfileList)
        } else {
            None
        }
    } else if same(object, "daemon") {
        if same(action, "start") {
            Some(Verb::DaemonStart)
        } else if same(action, "run") {
            Some(Verb::DaemonRun)
        } else if same(action, "status") {
            Some(Verb::DaemonStatus)
        } else if same(action, "stop") {
            Some(Verb::DaemonStop)
        } else {
            None
        }
    } else {
        None
    }
}

/// The help about a command.
pub open spec fn verb_help(verb: Verb) -> Seq<Seq<char>> {
    match verb {
        Verb::SessionCreate => help::session_create_help(),
        Verb::SessionList => help::session_list_help(),
        Verb::SessionClose => help::session_close_help(),
        Verb::McpCall => help::mcp_call_help(),
        Verb::McpBatch => help::mcp_batch_help(),
        Verb::McpList => help::mcp_list_help(),
        Verb::McpDirectCall => help::mcp_direct_call_help(),
        Verb::McpDirectList => help::mcp_direct_list_help(),
        Verb::ProfileStatus => help::profile_status_help(),
        Verb::ProfileStop => help::profile_stop_help(),
        Verb::ProfileList => help::profile_list_help(),
        Verb::DaemonStart => help::daemon_start_help(),
        Verb::DaemonRun => help::daemon_run_help(),
        Verb::DaemonStatus => help::daemon_status_help(),
        Verb::DaemonStop => help::daemon_stop_help(),
    }
}

fn help_about(verb: Verb) -> (r: String)
    ensures
        r@ == help::help_text(verb_help(verb)),
{
    match verb {
        Verb::SessionCreate => help::print_session_create_help(),
        Verb::SessionList => help::print_session_list_help(),
        Verb::SessionClose => help::print_session_close_help(),
        Verb::McpCall => help::print_mcp_call_help(),
        Verb::McpBatch => help::print_mcp_batch_help(),
        Verb::McpList => help::print_mcp_list_help(),
        Verb::McpDirectCall => help::print_mcp_direct_call_help(),
        Verb::McpDirectList => help::print_mcp_direct_list_help(),
        Verb::ProfileStatus => help::print_profile_status_help(),
        Verb::ProfileStop => help::print_profile_stop_help(),
        Verb::ProfileList => help::print_profile_list_help(),
        Verb::DaemonStart => help::print_daemon_start_help(),
        Verb::DaemonRun => help::print_daemon_run_help(),
        Verb::DaemonStatus => help::print_daemon_status_help(),
        Verb::DaemonStop => help::print_daemon_stop_help(),
    }
}

/// The help about a group of commands.
pub open spec fn object_help(object: Seq<char>) -> Option<Seq<Seq<char>>> {
    if object == "mcp"@ {
        Some(help::mcp_help())
    } else if object == "profile"@ {
        Some(help::profile_help())
    } else if object == "daemon"@ {
        Some(help::daemon_help())
    } else if object == "session"@ {
        Some(help::session_help())
    } else {
        None
    }
}

fn help_about_object(object: &str) -> (r: Option<String>)
    ensures
        match r {
            Some(shown) => object_help(object@) is Some && shown@ == help::help_text(
                object_help(object@)->0,
            ),
            None => object_help(object@) is None,
        },
{
    if same(object, "mcp") {
        Some(help::print_mcp_help())
    } else if same(object, "profile") {
        Some(help::print_profile_help())
    } else if same(object, "daemon") {
        Some(help::print_daemon_help())
    } else if same(object, "session") {
        Some(help::print_session_help())
    } else {
        None
    }
}

/// What the command line asks for before the configuration is read.
pub enum Start {
    /// Show how the program is used, and end with this error if there is one.
    Usage { error: Option<String> },
    /// Show the version.
    Version,
    /// Read the configuration and carry out a command.
    Carry { object: String, action: Option<String>, rest: Vec<String> },
}

/// What the command line asks for before the configuration is read.
pub enum StartView {
    Usage { error: Option<Seq<char>> },
    Version,
    Carry { object: Seq<char>, action: Option<Seq<char>>, rest: Seq<Seq<char>> },
}

impl View for Start {
    type V = StartView;

    open spec fn view(&self) -> StartView {
        match self {
            Start::Usage { error } => StartView::Usage { error: text::opt_text(*error) },
            Start::Version => StartView::Version,
            Start::Carry { object, action, rest } => StartView::Carry {
                object: object@,
                action: text::opt_text(*action),
                rest: text::texts(rest@),
            },
        }
    }
}

/// Whether an argument asks for the version.
pub open spec fn is_version(arg: Seq<char>) -> bool {
    arg == "version"@ || arg == "--version"@ || arg == "-V"@
}

/// What the command line asks for before the configuration is read.
pub open spec fn started(args: Seq<Seq<char>>) -> StartView {
    let (positional, rest) = split_args(args);
    if positional.len() == 0 {
        StartView::Usage { error: Some("missing object"@) }
    } else if is_help(positional[0]) {
        StartView::Usage { error: None }
    } else if is_version(positional[0]) {
        StartView::Version
    } else {
        StartView::Carry {
            object: positional[0],
            action: if positional.len() > 1 {
                Some(positional[1])
            } else {
                None
            },
            rest,
        }
    }
}

/// What the command line asks for before the configuration is read.
pub fn run(args: Vec<String>) -> (r: Start)
    ensures
        r@ == started(text::texts(args@)),
{
    let (positional, rest) = split_command_args(args);
    if positional.len() == 0 {
        return Start::Usage { error: Some("missing object".to_string()) };
    }
    let object = positional[0].as_str();
    assert(text::texts(positional@)[0] == object@);
    if means_help(object) {
        return Start::Usage { error: None };
    }
    if same(object, "version") || same(object, "--version") || same(object, "-V") {
        return Start::Version;
    }
    let action = if positional.len() > 1 {
        assert(text::texts(positional@)[1] == positional@[1]@);
        Some(positional[1].clone())
    } else {
        None
    };
    Start::Carry { object: object.to_string(), action, rest }
}

/// What is to be done.
pub enum Command {
    /// Show how the program is used, and end with this error.
    Usage { error: String },
    /// Show a text.
    Show { shown: String },
    /// Run a script.
    Batch { options: BatchOptions },
    /// Carry out a command for a profile, and for a session where the command takes one.
    Run { verb: Verb, profile: Profile, session: Option<String>, force: bool },
    /// End with this error.
    Fail { message: String },
}

/// What is to be done.
pub enum CommandView {
    Usage { error: Seq<char> },
    Show { shown: Seq<char> },
    Batch { options: batch::BatchFlags },
    Run { verb: Verb, profile: config::ProfileView, session: Option<Seq<char>>, force: bool },
    Fail { message: Seq<char> },
}

impl View for Command {
    type V = CommandView;

    open spec fn view(&self) -> CommandView {
        match self {
            Command::Usage { error } => CommandView::Usage { error: error@ },
            Command::Show { shown } => CommandView::Show { shown: shown@ },
            Command::Batch { options } => CommandView::Batch { options: options@ },
            Command::Run { verb, profile, session, force } => CommandView::Run {
                verb: *verb,
                profile: profile@,
                session: text::opt_text(*session),
                force: *force,
            },
            Command::Fail { message } => CommandView::Fail { message: message@ },
        }
    }
}

/// Whether a command takes a session.
pub open spec fn takes_session(verb: Verb) -> bool {
    verb == Verb::SessionClose || verb == Verb::McpCall
}

/// Whether a command can be forced.
pub open spec fn can_force(verb: Verb) -> bool {
    verb == Verb::ProfileStop || verb == Verb::DaemonStop
}

/// What is to be done for a command with these arguments.
pub open spec fn carried(
    profiles: Seq<config::ProfileView>,
    verb: Verb,
    rest: Seq<Seq<char>>,
) -> CommandView {
    if asks_help(rest) {
        CommandView::Show { shown: help::help_text(verb_help(verb)) }
    } else if verb == Verb::McpBatch {
        match batch::batch_args(rest) {
            Ok(options) => CommandView::Batch { options },
            Err(message) => CommandView::Fail { message },
        }
    } else if verb == Verb::ProfileList {
        if rest.len() > 0 {
            CommandView::Fail { message: unknown_argument(rest[0]) }
        } else {
            CommandView::Show { shown: profiles_text(profiles) }
        }
    } else if takes_session(verb) {
        match required_both(profiles, rest) {
            Ok((profile, session)) => CommandView::Run {
                verb,
                profile,
                session: Some(session),
                force: false,
            },
            Err(message) => CommandView::Fail { message },
        }
    } else {
        let others = if can_force(verb) {
            without_flag(rest, "--force"@)
        } else {
            rest
        };
        match required_profile(profiles, others) {
            Ok(profile) => CommandView::Run {
                verb,
                profile,
                session: None,
                force: can_force(verb) && rest.contains("--force"@),
            },
            Err(message) => CommandView::Fail { message },
        }
    }
}

/// What is to be done for an object and an action.
pub open spec fn commanded(
    profiles: Seq<config::ProfileView>,
    object: Seq<char>,
    action: Option<Seq<char>>,
    rest: Seq<Seq<char>>,
) -> CommandView {
    match action {
        None => CommandView::Usage { error: "missing action for object: "@ + object },
        Some(action) => if is_help(action) && object_help(object) is Some {
            CommandView::Show { shown: help::help_text(object_help(object)->0) }
        } else {
            match verb_of(object, action) {
                Some(verb) => carried(profiles, verb, rest),
                None => CommandView::Fail {
                    message: "unknown command: "@ + object + " "@ + action,
                },
            }
        },
    }
}

/// What is to be done for a command with these arguments.
fn carry(config: &Config, verb: Verb, rest: &Vec<String>) -> (r: Command)
    ensures
        r@ == carried(config@, verb, text::texts(rest@)),
{
    if wants_help(rest.as_slice()) {
        return Command::Show { shown: help_about(verb) };
    }
    match verb {
        Verb::McpBatch => match parse_batch_args(rest.as_slice()) {
            Ok(options) => Command::Batch { options },
            Err(message) => Command::Fail { message },
        },
        Verb::ProfileList => match reject_extra_args(rest.as_slice()) {
            Ok(()) => Command::Show { shown: list_profiles(config) },
            Err(message) => Command::Fail { message },
        },
        Verb::SessionClose | Verb::McpCall => match require_profile_and_session(
            config,
            rest.as_slice(),
        ) {
            Ok((profile, session)) => Command::Run {
                verb,
                profile,
                session: Some(session),
                force: false,
            },
            Err(message) => Command::Fail { message },
        },
        Verb::ProfileStop | Verb::DaemonStop => {
            let (force, others) = extract_flag(rest.as_slice(), "--force");
            match require_profile(config, others.as_slice()) {
                Ok(profile) => Command::Run { verb, profile, session: None, force },
                Err(message) => Command::Fail { message },
            }
        },
        _ => match require_profile(config, rest.as_slice()) {
            Ok(profile) => Command::Run { verb, profile, session: None, force: false },
            Err(message) => Command::Fail { message },
        },
    }
}

/// What is to be done for an object and an action.
pub fn dispatch(config: &Config, object: &str, action: Option<&str>, rest: &Vec<String>) -> (r:
    Command)
    ensures
        r@ == commanded(config@, object@, text::opt_str(action), text::texts(rest@)),
{
    let action = match action {
        Some(action) => action,
        None => {
            return Command::Usage { error: joined("missing action for object: ", object) };
        },
    };
    if means_help(action) {
        match help_about_object(object) {
            Some(shown) => {
                return Command::Show { shown };
            },
            None => {},
        }
    }
    match parse_verb(object, action) {
        Some(verb) => carry(config, verb, rest),
        None => {
            let mut message = joined3("unknown command: ", object, " ");
            message.append(action);
            Command::Fail { message }
        },
    }
}

/// Splitting the command line loses nothing, adds nothing, and finds at most two words of
/// a command.
pub proof fn every_argument_is_kept(args: Seq<Seq<char>>)
    ensures
        split_args(args).0.len() <= 2,
        split_args(args).0.to_multiset().add(split_args(args).1.to_multiset())
            == args.to_multiset(),
{
    lemma_split_keeps(Seq::empty(), Seq::empty(), args, 0);
    assert(args.skip(0) =~= args);
    Seq::<Seq<char>>::empty().to_multiset_ensures();
    let none = Seq::<Seq<char>>::empty().to_multiset();
    assert(none.add(none).add(args.to_multiset()) =~= args.to_multiset());
}

proof fn lemma_split_keeps(
    positional: Seq<Seq<char>>,
    rest: Seq<Seq<char>>,
    args: Seq<Seq<char>>,
    i: int,
)
    requires
        0 <= i <= args.len(),
        positional.len() <= 2,
    ensures
        ({
            let (p, r) = split_from(positional, rest, args, i);
            &&& p.len() <= 2
            &&& p.to_multiset().add(r.to_multiset()) == positional.to_multiset().add(
                rest.to_multiset(),
            ).add(args.skip(i).to_multiset())
        }),
    decreases args.len() - i,
{
    broadcast use vstd::multiset::group_multiset_axioms;

    let before = positional.to_multiset().add(rest.to_multiset());
    if i >= args.len() {
        assert(args.skip(i) =~= Seq::empty());
        args.skip(i).to_multiset_ensures();
        assert(before.add(args.skip(i).to_multiset()) =~= before);
    } else {
        lemma_skip_multiset(args, i);
        positional.to_multiset_ensures();
        rest.to_multiset_ensures();
        let longer = rest.push(args[i]);
        longer.to_multiset_ensures();
        if positional.len() >= 2 {
            lemma_split_keeps(positional, longer, args, i + 1);
            assert(positional.to_multiset().add(longer.to_multiset()).add(
                args.skip(i + 1).to_multiset(),
            ) =~= before.add(args.skip(i).to_multiset()));
        } else if is_global(args[i]) {
            if i + 1 < args.len() {
                lemma_skip_multiset(args, i + 1);
                let longest = longer.push(args[i + 1]);
                lemma_split_keeps(positional, longest, args, i + 2);
                assert(positional.to_multiset().add(longest.to_multiset()).add(
                    args.skip(i + 2).to_multiset(),
                ) =~= before.add(args.skip(i).to_multiset()));
            } else {
                assert(args.skip(i + 1) =~= Seq::empty());
                args.skip(i + 1).to_multiset_ensures();
                assert(positional.to_multiset().add(longer.to_multiset()) =~= before.add(
                    args.skip(i).to_multiset(),
                ));
            }
        } else {
            let more = positional.push(args[i]);
            more.to_multiset_ensures();
            lemma_split_keeps(more, rest, args, i + 1);
            assert(more.to_multiset().add(rest.to_multiset()).add(args.skip(i + 1).to_multiset())
                =~= before.add(args.skip(i).to_multiset()));
        }
    }
}

proof fn lemma_skip_multiset(args: Seq<Seq<char>>, i: int)
    requires
        0 <= i < args.len(),
    ensures
        args.skip(i).to_multiset() == args.skip(i + 1).to_multiset().insert(args[i]),
{
    let rest = args.skip(i);
    rest.to_multiset_ensures();
    assert(rest.remove(0) =~= args.skip(i + 1));
    assert(rest[0] == args[i]);
    assert(rest.to_multiset().remove(args[i]).insert(args[i]) =~= rest.to_multiset()) by {
        assert(rest.contains(args[i]));
    }
}

/// Global flags mean the same before the command as after it.
pub proof fn flags_may_come_first(
    flag: Seq<char>,
    value: Seq<char>,
    object: Seq<char>,
    action: Seq<char>,
)
    requires
        is_global(flag),
        !is_global(object),
        !is_global(action),
    ensures
        split_args(seq![flag, value, object, action]) == (seq![object, action], seq![flag, value]),
        split_args(seq![object, flag, value, action]) == (seq![object, action], seq![flag, value]),
        split_args(seq![object, action, flag, value]) == (seq![object, action], seq![flag, value]),
{
    reveal_with_fuel(split_from, 5);
    let command = Seq::<Seq<char>>::empty().push(object).push(action);
    let flags = Seq::<Seq<char>>::empty().push(flag).push(value);
    assert(command =~= seq![object, action]);
    assert(flags =~= seq![flag, value]);
}

/// A command whose arguments ask for help shows its help, and does nothing else.
pub proof fn help_comes_first(
    profiles: Seq<config::ProfileView>,
    verb: Verb,
    rest: Seq<Seq<char>>,
)
    requires
        asks_help(rest),
    ensures
        carried(profiles, verb, rest) == (CommandView::Show {
            shown: help::help_text(verb_help(verb)),
        }),
{
}

/// A command that works on a browser runs only for a configured profile that its arguments
/// name.
pub proof fn commands_name_their_profile(
    profiles: Seq<config::ProfileView>,
    verb: Verb,
    rest: Seq<Seq<char>>,
)
    ensures
        match carried(profiles, verb, rest) {
            CommandView::Run { profile, .. } => profiles.contains(profile) && rest.contains(
                "--profile"@,
            ),
            _ => true,
        },
{
    match carried(profiles, verb, rest) {
        CommandView::Run { profile, session, .. } => {
            if takes_session(verb) {
                lemma_named(rest, 0, true, None, None);
                match named_from(rest, 0, true, None, None) {
                    Ok((Some(name), _)) => lemma_found(profiles, name),
                    _ => {},
                }
            } else {
                let others = if can_force(verb) {
                    without_flag(rest, "--force"@)
                } else {
                    rest
                };
                lemma_named(others, 0, false, None, None);
                match named_from(others, 0, false, None, None) {
                    Ok((Some(name), _)) => lemma_found(profiles, name),
                    _ => {},
                }
                if can_force(verb) {
                    rest.lemma_filter_contains_rev(
                        |arg: Seq<char>| arg != "--force"@,
                        "--profile"@,
                    );
                }
            }
        },
        _ => {},
    }
}

proof fn lemma_named(
    args: Seq<Seq<char>>,
    i: int,
    with_session: bool,
    profile: Option<Seq<char>>,
    session: Option<Seq<char>>,
)
    requires
        0 <= i,
    ensures
        match named_from(args, i, with_session, profile, session) {
            Ok((Some(_), _)) => profile is Some || args.contains("--profile"@),
            _ => true,
        },
    decreases args.len() - i,
{
    if i < args.len() {
        if args[i] == "--profile"@ {
            assert(args.contains(args[i]));
        } else if i + 1 < args.len() {
            lemma_named(args, i + 2, with_session, profile, Some(args[i + 1]));
        }
    }
}

proof fn lemma_found(profiles: Seq<config::ProfileView>, name: Seq<char>)
    ensures
        config::profile_named(profiles, name) is Some ==> profiles.contains(
            config::profile_named(profiles, name)->0,
        ),
    decreases profiles.len(),
{
    if profiles.len() > 0 {
        if profiles[0].name == name {
            assert(profiles.contains(profiles[0]));
        } else {
            lemma_found(profiles.skip(1), name);
            if config::profile_named(profiles, name) is Some {
                let found = config::profile_named(profiles, name)->0;
                let j = choose|j: int| 0 <= j < profiles.skip(1).len() && profiles.skip(1)[j] == found;
                assert(profiles[j + 1] == found);
            }
        }
    }
}

} // verus!
