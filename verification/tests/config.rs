//! Configuration, locks, and the arguments of the command line.
use chrome_devtools::batch::parse_batch_args;
use chrome_devtools::chrome::{
    chrome_args, chrome_extra_args, daemon_mcp_command, default_chrome_binary, ensure_chrome,
    exec_mcp, extract_remote_debugging_port, find_running_chrome_port, list_browser_cmdlines,
    mcp_command, pkill_result, stop_profile, ChromeStep, McpSettings,
};
use chrome_devtools::cli::{
    dispatch, extract_flag, list_profiles, reject_extra_args, require_profile,
    require_profile_and_session, run, split_command_args, wants_help, Command, Start, Verb,
};
use chrome_devtools::config::{
    cache_dir, config_path, default_config_content, default_user_data_dir_for_profile, expand_home,
    find_profile, join_path, parse_config, parse_toml_string, read_config, Config, Profile,
};
use chrome_devtools::help::{
    print_daemon_status_help, print_mcp_batch_help, print_session_close_help, print_usage,
    print_version,
};
use chrome_devtools::lock::{
    acquire_profile_lock, lock_content, lock_dir, lock_path, parse_lock_pid, process_path,
    remove_stale_lock, safe_lock_name, LockEvent, LockStep,
};
use chrome_devtools::daemon::{
    daemon_dir, daemon_health_path, daemon_log_path, daemon_pid_path, daemon_port_path,
    daemon_socket_path,
};
use chrome_devtools::timing::{
    bind_timeout, control_timeout, control_warn_latency, diagnostic_window, forward_warn_latency,
    lock_timeout, mcp_heavy_request_timeout, mcp_probe_timeout, mcp_request_timeout,
    session_idle_ttl, session_reaper_interval, timeout_from_env,
};

const SECOND: u128 = 1_000_000_000;

fn args(values: &[&str]) -> Vec<String> {
    values.iter().map(|value| value.to_string()).collect()
}

fn dummy_config() -> Config {
    Config {
        profiles: vec![Profile {
            name: "default".to_string(),
            user_data_dir: "/tmp/x".to_string(),
        }],
    }
}

#[test]
fn parse_config_accepts_single_minimal_profile() {
    let config = parse_config("[[profiles]]\nname = \"default\"\n").unwrap();
    assert_eq!(config.profiles.len(), 1);
    let profile = &config.profiles[0];
    assert_eq!(profile.name, "default");
    assert_eq!(
        profile.user_data_dir,
        "~/.config/chrome-devtools/profiles/default"
    );
}

#[test]
fn parse_config_accepts_explicit_user_data_dir() {
    let config =
        parse_config("[[profiles]]\nname = \"work\"\nuser_data_dir = \"/tmp/work\"\n").unwrap();
    assert_eq!(config.profiles[0].user_data_dir, "/tmp/work");
}

#[test]
fn parse_config_ignores_deprecated_port_field() {
    let config = parse_config("[[profiles]]\nname = \"legacy\"\nport = 9222\n").unwrap();
    assert_eq!(config.profiles[0].name, "legacy");
}

#[test]
fn read_config_warns_about_the_port() {
    let mut warnings: Vec<String> = Vec::new();
    read_config("[[profiles]]\nname = \"legacy\"\nport = 9222\n", &mut warnings).unwrap();
    assert_eq!(
        warnings,
        args(&["warning: line 3: 'port' is deprecated and ignored; the daemon now picks a free port automatically"])
    );
}

#[test]
fn parse_config_accepts_multiple_profiles_with_comments() {
    let toml = "
        # leading comment
        [[profiles]]
        name = \"a\"

        [[profiles]]
        name = \"b\"
    ";
    let config = parse_config(toml).unwrap();
    let names: Vec<_> = config
        .profiles
        .iter()
        .map(|profile| &profile.name)
        .collect();
    assert_eq!(names, vec!["a", "b"]);
}

#[test]
fn parse_config_rejects_empty_config() {
    assert!(parse_config("").is_err());
    assert_eq!(
        parse_config("# nothing\n").unwrap_err(),
        "config must define at least one [[profiles]] entry"
    );
}

#[test]
fn parse_config_rejects_duplicate_profile_names() {
    let toml = "[[profiles]]\nname = \"a\"\n[[profiles]]\nname = \"a\"\n";
    let error = parse_config(toml).unwrap_err();
    assert!(error.contains("duplicate profile name"));
    assert_eq!(error, "duplicate profile name: a");
}

#[test]
fn parse_config_rejects_field_outside_profile_block() {
    assert!(parse_config("name = \"x\"\n").is_err());
    assert_eq!(
        parse_config("name = \"x\"\n").unwrap_err(),
        "line 1: profile fields must be inside [[profiles]]"
    );
}

#[test]
fn parse_config_rejects_unknown_key() {
    let toml = "[[profiles]]\nname = \"a\"\nweird = \"x\"\n";
    assert!(parse_config(toml).is_err());
    assert_eq!(
        parse_config(toml).unwrap_err(),
        "line 3: unknown profile key: weird"
    );
}

#[test]
fn parse_config_tells_where_it_went_wrong() {
    assert_eq!(
        parse_config("[[profiles]]\nname\n").unwrap_err(),
        "line 2: expected key = value"
    );
    assert_eq!(
        parse_config("[[profiles]]\n\n[[profiles]]\n").unwrap_err(),
        "line 3: profile is missing name"
    );
    assert_eq!(
        parse_config("[[profiles]]\n").unwrap_err(),
        "line 2: profile is missing name"
    );
}

#[test]
fn the_default_config_has_the_default_profile() {
    let config = parse_config(&default_config_content()).unwrap();
    assert_eq!(config.profiles.len(), 1);
    assert_eq!(config.profiles[0].name, "default");
    assert_eq!(
        config.profiles[0].user_data_dir,
        "~/.config/chrome-devtools/profiles/default"
    );
}

#[test]
fn parse_toml_string_handles_escapes() {
    assert_eq!(
        parse_toml_string("\"line\\nbreak\"", 1).unwrap(),
        "line\nbreak"
    );
    assert_eq!(parse_toml_string("\"a\\\\b\"", 1).unwrap(), "a\\b");
    assert_eq!(parse_toml_string("\"a\\\"b\"", 1).unwrap(), "a\"b");
}

#[test]
fn parse_toml_string_rejects_unquoted() {
    assert!(parse_toml_string("foo", 1).is_err());
    assert_eq!(
        parse_toml_string("\"", 7).unwrap_err(),
        "line 7: expected quoted string"
    );
}

#[test]
fn parse_toml_string_rejects_unknown_escape() {
    assert!(parse_toml_string("\"\\q\"", 1).is_err());
    assert_eq!(
        parse_toml_string("\"\\q\"", 4).unwrap_err(),
        "line 4: unsupported escape: \\q"
    );
    assert_eq!(
        parse_toml_string("\"a\\\"", 4).unwrap_err(),
        "line 4: dangling escape in string"
    );
}

#[test]
fn default_user_data_dir_for_profile_follows_prefix() {
    assert_eq!(
        default_user_data_dir_for_profile("conao3"),
        "~/.config/chrome-devtools/profiles/conao3"
    );
}

#[test]
fn find_profile_returns_named_profile_or_error() {
    let config = dummy_config();
    assert_eq!(find_profile(&config, "default").unwrap().name, "default");
    assert!(find_profile(&config, "missing").is_err());
}

#[test]
fn find_profile_error_lists_available_profiles() {
    let error = find_profile(&dummy_config(), "missing").unwrap_err();
    assert!(error.contains("unknown profile: missing"));
    assert!(error.contains("available: default"));
    let both = parse_config("[[profiles]]\nname = \"a\"\n[[profiles]]\nname = \"b\"\n").unwrap();
    assert_eq!(
        find_profile(&both, "c").unwrap_err(),
        "unknown profile: c; available: a, b (defined in ~/.config/chrome-devtools/config.toml)"
    );
}

#[test]
fn expand_home_resolves_tilde_paths() {
    let home = Some("/tmp/fakehome");
    assert_eq!(expand_home("~", home).unwrap(), "/tmp/fakehome");
    assert_eq!(expand_home("~/foo", home).unwrap(), "/tmp/fakehome/foo");
    assert_eq!(expand_home("/abs/path", home).unwrap(), "/abs/path");
    assert_eq!(expand_home("~/foo", None).unwrap_err(), "HOME is not set");
    assert_eq!(expand_home("/abs/path", None).unwrap(), "/abs/path");
}

#[test]
fn paths_join_like_paths_of_the_system() {
    for (base, rest) in [
        ("/a", "b"),
        ("/a/", "b"),
        ("", "b"),
        ("/a", "/b"),
        ("/a", ""),
    ] {
        let expected = std::path::PathBuf::from(base).join(rest);
        assert_eq!(join_path(base, rest), expected.to_str().unwrap());
    }
}

#[test]
fn files_are_under_the_home_directory() {
    let home = Some("/h");
    assert_eq!(
        config_path(home).unwrap(),
        "/h/.config/chrome-devtools/config.toml"
    );
    assert_eq!(cache_dir(home).unwrap(), "/h/.cache/chrome-devtools");
    assert_eq!(lock_dir(home).unwrap(), "/h/.cache/chrome-devtools/locks");
    assert!(lock_dir(None).is_err());
}

#[test]
fn daemons_have_files_of_their_own() {
    let home = Some("/h");
    let profile = Profile { name: "a b".to_string(), user_data_dir: "/tmp/x".to_string() };
    let dir = "/h/.cache/chrome-devtools/daemons";
    assert_eq!(daemon_dir(home).unwrap(), dir);
    assert_eq!(daemon_socket_path(home, &profile).unwrap(), format!("{dir}/a_b.sock"));
    assert_eq!(daemon_pid_path(home, &profile).unwrap(), format!("{dir}/a_b.pid"));
    assert_eq!(daemon_log_path(home, &profile).unwrap(), format!("{dir}/a_b.log"));
    assert_eq!(daemon_port_path(home, &profile).unwrap(), format!("{dir}/a_b.port"));
    assert_eq!(daemon_health_path(home, &profile).unwrap(), format!("{dir}/a_b.health"));
    assert_eq!(daemon_socket_path(None, &profile).unwrap_err(), "HOME is not set");
}

#[test]
fn safe_lock_name_keeps_allowed_characters() {
    assert_eq!(safe_lock_name("abc_def-123"), "abc_def-123");
}

#[test]
fn safe_lock_name_replaces_disallowed_characters() {
    assert_eq!(safe_lock_name("a/b c.d"), "a_b_c_d");
}

#[test]
fn parse_lock_pid_extracts_pid_line() {
    assert_eq!(parse_lock_pid("pid=4242\nprofile=default\n"), Some(4242));
    assert_eq!(parse_lock_pid("profile=default\npid=7\n"), Some(7));
}

#[test]
fn parse_lock_pid_returns_none_without_pid() {
    assert_eq!(parse_lock_pid("profile=default\n"), None);
    assert_eq!(parse_lock_pid("pid=none\npid= 12 \n"), Some(12));
    assert_eq!(parse_lock_pid("pid=4294967296\n"), None);
}

#[test]
fn locks_tell_their_process() {
    let profile = Profile {
        name: "a b".to_string(),
        user_data_dir: "/x".to_string(),
    };
    assert_eq!(lock_content(31, &profile), "pid=31\nprofile=a b\n");
    assert_eq!(parse_lock_pid(&lock_content(31, &profile)), Some(31));
    assert_eq!(lock_path("/locks", &profile), "/locks/a_b.lock");
    assert_eq!(process_path(31), "/proc/31");
    assert!(remove_stale_lock(Some(31), false));
    assert!(!remove_stale_lock(Some(31), true));
    assert!(!remove_stale_lock(None, false));
}

#[test]
fn locks_are_waited_for() {
    let profile = &dummy_config().profiles[0];
    let path = "/locks/default.lock";
    let limit = lock_timeout(None);
    assert_eq!(limit, 300 * SECOND);
    assert!(matches!(
        acquire_profile_lock(profile, path, LockEvent::Created, 0, limit),
        LockStep::Acquired
    ));
    assert!(matches!(
        acquire_profile_lock(profile, path, LockEvent::Taken { removed: true }, limit, limit),
        LockStep::Retry
    ));
    assert!(matches!(
        acquire_profile_lock(profile, path, LockEvent::Taken { removed: false }, limit - 1, limit),
        LockStep::Wait
    ));
    match acquire_profile_lock(profile, path, LockEvent::Taken { removed: false }, limit, limit) {
        LockStep::Fail(message) => assert_eq!(
            message,
            "profile default is locked by another chrome-devtools MCP session: /locks/default.lock"
        ),
        _ => panic!("the lock is taken"),
    }
    let denied = LockEvent::Failed("denied".to_string());
    match acquire_profile_lock(profile, path, denied, 0, limit) {
        LockStep::Fail(message) => {
            assert_eq!(message, "failed to create /locks/default.lock: denied")
        }
        _ => panic!("the lock cannot be made"),
    }
}

#[test]
fn timeout_from_env_parses_override_and_falls_back() {
    assert_eq!(timeout_from_env(None, 42), 42 * SECOND);
    assert_eq!(timeout_from_env(Some("7"), 42), 7 * SECOND);
    assert_eq!(timeout_from_env(Some("abc"), 42), 42 * SECOND);
}

#[test]
fn settings_have_defaults() {
    assert_eq!(mcp_request_timeout(None), 120 * SECOND);
    assert_eq!(mcp_heavy_request_timeout(None), 300 * SECOND);
    assert_eq!(mcp_probe_timeout(None), 10 * SECOND);
    assert_eq!(mcp_probe_timeout(Some("3")), 3 * SECOND);
    assert_eq!(diagnostic_window(None), 600 * SECOND);
    assert_eq!(control_warn_latency(None), SECOND);
    assert_eq!(control_warn_latency(Some("250")), SECOND / 4);
    assert_eq!(forward_warn_latency(None), 30 * SECOND);
    assert_eq!(session_idle_ttl(None), 1800 * SECOND);
    assert_eq!(session_reaper_interval(None), 60 * SECOND);
    assert_eq!(session_reaper_interval(Some("50")), SECOND / 20);
    assert_eq!(control_timeout(None), 10 * SECOND);
    assert_eq!(bind_timeout(None), 120 * SECOND);
    assert_eq!(bind_timeout(Some("x")), 120 * SECOND);
    assert_eq!(lock_timeout(None), 300 * SECOND);
}

#[test]
fn wants_help_detects_help_flags() {
    assert!(wants_help(&args(&["--help"])));
    assert!(wants_help(&args(&["-h"])));
    assert!(wants_help(&args(&["help"])));
    assert!(!wants_help(&args(&["--profile", "default"])));
}

#[test]
fn require_profile_returns_named_profile() {
    let profile = require_profile(&dummy_config(), &args(&["--profile", "default"])).unwrap();
    assert_eq!(profile.name, "default");
}

#[test]
fn require_profile_rejects_missing_flag_and_unknown_name() {
    assert!(require_profile(&dummy_config(), &[]).is_err());
    assert!(require_profile(&dummy_config(), &args(&["--profile", "other"])).is_err());
    assert_eq!(
        require_profile(&dummy_config(), &[]).unwrap_err(),
        "--profile is required"
    );
    assert_eq!(
        require_profile(&dummy_config(), &args(&["--profile"])).unwrap_err(),
        "--profile requires a value"
    );
    assert_eq!(
        require_profile(&dummy_config(), &args(&["--session", "x"])).unwrap_err(),
        "unknown argument: --session"
    );
}

#[test]
fn require_profile_and_session_returns_both() {
    let (profile, session) = require_profile_and_session(
        &dummy_config(),
        &args(&["--profile", "default", "--session", "sess-x"]),
    )
    .unwrap();
    assert_eq!(profile.name, "default");
    assert_eq!(session, "sess-x");
}

#[test]
fn require_profile_and_session_rejects_missing_session() {
    assert!(
        require_profile_and_session(&dummy_config(), &args(&["--profile", "default"]),).is_err()
    );
    assert_eq!(
        require_profile_and_session(&dummy_config(), &args(&["--profile", "default"])).unwrap_err(),
        "--session is required"
    );
    assert_eq!(
        require_profile_and_session(&dummy_config(), &args(&["--session"])).unwrap_err(),
        "--session requires a value"
    );
}

#[test]
fn parse_batch_args_collects_all_flags() {
    let options = parse_batch_args(&args(&[
        "--profile",
        "default",
        "--session",
        "sess-1",
        "--script",
        "/tmp/x.json",
        "--output",
        "/tmp/out.json",
        "--fail-fast",
    ]))
    .ok()
    .unwrap();
    assert_eq!(options.profile_name, "default");
    assert_eq!(options.session_id, "sess-1");
    assert_eq!(options.script_path, "/tmp/x.json");
    assert_eq!(options.output_path.as_deref(), Some("/tmp/out.json"));
    assert!(options.fail_fast);
}

#[test]
fn parse_batch_args_rejects_missing_required_flags() {
    assert!(parse_batch_args(&args(&["--session", "sess-1", "--script", "/tmp/x.json"])).is_err());
    assert!(parse_batch_args(&args(&["--profile", "default", "--script", "/tmp/x.json"])).is_err());
    assert!(parse_batch_args(&args(&["--profile", "default", "--session", "sess-1"])).is_err());
    let told = |values: &[&str]| parse_batch_args(&args(values)).err().unwrap();
    assert_eq!(told(&[]), "--profile is required");
    assert_eq!(told(&["--profile", "p"]), "--session is required");
    assert_eq!(
        told(&["--profile", "p", "--session", "s"]),
        "--script is required"
    );
    assert_eq!(told(&["--output"]), "--output requires a value");
    assert_eq!(told(&["--fast"]), "unknown argument: --fast");
}

#[test]
fn split_command_args_accepts_leading_global_flags() {
    let (positional, rest) = split_command_args(args(&["--profile", "conao3", "session", "list"]));
    assert_eq!(positional, args(&["session", "list"]));
    assert_eq!(rest, args(&["--profile", "conao3"]));
}

#[test]
fn split_command_args_accepts_flags_between_object_and_action() {
    let (positional, rest) = split_command_args(args(&[
        "mcp",
        "--profile",
        "x",
        "--session",
        "sess-1",
        "batch",
        "--script",
        "/tmp/a.json",
    ]));
    assert_eq!(positional, args(&["mcp", "batch"]));
    assert_eq!(
        rest,
        args(&[
            "--profile",
            "x",
            "--session",
            "sess-1",
            "--script",
            "/tmp/a.json"
        ])
    );
}

#[test]
fn split_command_args_keeps_plain_invocation_unchanged() {
    let (positional, rest) = split_command_args(args(&[
        "session",
        "close",
        "--profile",
        "x",
        "--session",
        "sess-1",
    ]));
    assert_eq!(positional, args(&["session", "close"]));
    assert_eq!(rest, args(&["--profile", "x", "--session", "sess-1"]));
}

#[test]
fn split_command_args_keeps_every_argument() {
    let (positional, rest) = split_command_args(args(&["a", "b", "c", "--profile"]));
    assert_eq!(positional, args(&["a", "b"]));
    assert_eq!(rest, args(&["c", "--profile"]));
    let (positional, rest) = split_command_args(args(&["a", "--session"]));
    assert_eq!(positional, args(&["a"]));
    assert_eq!(rest, args(&["--session"]));
}

#[test]
fn extract_flag_detects_and_removes_flag() {
    let (found, rest) = extract_flag(&args(&["--profile", "x", "--force"]), "--force");
    assert!(found);
    assert_eq!(rest, args(&["--profile", "x"]));
    let (found, rest) = extract_flag(&args(&["--profile", "x"]), "--force");
    assert!(!found);
    assert_eq!(rest, args(&["--profile", "x"]));
}

#[test]
fn reject_extra_args_names_the_first() {
    assert!(reject_extra_args(&[]).is_ok());
    assert_eq!(
        reject_extra_args(&args(&["x", "y"])).unwrap_err(),
        "unknown argument: x"
    );
}

#[test]
fn run_asks_for_an_object() {
    match run(args(&[])) {
        Start::Usage { error } => assert_eq!(error.as_deref(), Some("missing object")),
        _ => panic!("there is no object"),
    }
    assert!(matches!(run(args(&["--help"])), Start::Usage { error: None }));
    assert!(matches!(run(args(&["-V"])), Start::Version));
    match run(args(&["--profile", "p", "session", "list"])) {
        Start::Carry {
            object,
            action,
            rest,
        } => {
            assert_eq!(object, "session");
            assert_eq!(action.as_deref(), Some("list"));
            assert_eq!(rest, args(&["--profile", "p"]));
        }
        _ => panic!("this is a command"),
    }
}

#[test]
fn dispatch_finds_the_command() {
    let config = dummy_config();
    let profile = args(&["--profile", "default"]);
    match dispatch(&config, "session", Some("create"), &profile) {
        Command::Run {
            verb,
            profile,
            session,
            force,
        } => {
            assert!(verb == Verb::SessionCreate);
            assert_eq!(profile.user_data_dir, "/tmp/x");
            assert!(session.is_none());
            assert!(!force);
        }
        _ => panic!("this is a command"),
    }
    match dispatch(
        &config,
        "daemon",
        Some("stop"),
        &args(&["--force", "--profile", "default"]),
    ) {
        Command::Run { verb, force, .. } => {
            assert!(verb == Verb::DaemonStop);
            assert!(force);
        }
        _ => panic!("this is a command"),
    }
    match dispatch(
        &config,
        "mcp",
        Some("call"),
        &args(&["--profile", "default", "--session", "sess-1"]),
    ) {
        Command::Run { verb, session, .. } => {
            assert!(verb == Verb::McpCall);
            assert_eq!(session.as_deref(), Some("sess-1"));
        }
        _ => panic!("this is a command"),
    }
    match dispatch(&config, "profile", Some("list"), &args(&[])) {
        Command::Show { shown } => assert_eq!(shown, "default\tuser_data_dir=/tmp/x\n"),
        _ => panic!("this is a list"),
    }
    assert_eq!(list_profiles(&config), "default\tuser_data_dir=/tmp/x\n");
}

#[test]
fn dispatch_shows_help_before_anything_else() {
    let config = dummy_config();
    match dispatch(
        &config,
        "session",
        Some("close"),
        &args(&["--bogus", "--help"]),
    ) {
        Command::Show { shown } => assert_eq!(shown, print_session_close_help()),
        _ => panic!("help was asked for"),
    }
    match dispatch(&config, "mcp", Some("batch"), &args(&["-h"])) {
        Command::Show { shown } => assert_eq!(shown, print_mcp_batch_help()),
        _ => panic!("help was asked for"),
    }
    match dispatch(&config, "mcp", Some("help"), &args(&[])) {
        Command::Show { shown } => assert!(shown.starts_with("chrome-devtools mcp\n\nUsage:\n")),
        _ => panic!("help was asked for"),
    }
}

#[test]
fn dispatch_refuses_what_it_does_not_know() {
    let config = dummy_config();
    match dispatch(&config, "mcp", None, &args(&[])) {
        Command::Usage { error } => assert_eq!(error, "missing action for object: mcp"),
        _ => panic!("there is no action"),
    }
    match dispatch(&config, "mcp", Some("create"), &args(&[])) {
        Command::Fail { message } => assert_eq!(message, "unknown command: mcp create"),
        _ => panic!("there is no such command"),
    }
    match dispatch(&config, "other", Some("help"), &args(&[])) {
        Command::Fail { message } => assert_eq!(message, "unknown command: other help"),
        _ => panic!("there is no such command"),
    }
    match dispatch(&config, "profile", Some("list"), &args(&["x"])) {
        Command::Fail { message } => assert_eq!(message, "unknown argument: x"),
        _ => panic!("that is one too many"),
    }
    match dispatch(&config, "mcp", Some("batch"), &args(&["--profile", "p"])) {
        Command::Fail { message } => assert_eq!(message, "--session is required"),
        _ => panic!("the session is missing"),
    }
}

#[test]
fn help_texts_are_laid_out_in_sections() {
    let usage = print_usage();
    assert!(usage.starts_with("Usage:\n  chrome-devtools --version\n"));
    assert!(usage.contains(
        "\n\nConfig:\n  ~/.config/chrome-devtools/config.toml is created on startup if missing.\n\n"
    ));
    assert!(usage.ends_with("  ~/.cache/chrome-devtools/locks."));
    let status = print_daemon_status_help();
    assert!(status.contains("Ready output:\n\n    profile=<p> daemon=ready"));
    let batch = print_mcp_batch_help();
    assert!(batch.ends_with(
        "  chrome-devtools mcp batch --profile default --session \"$ID\" --script /tmp/batch.json"
    ));
    assert!(batch.contains("\n\nExamples:\n  cat > /tmp/batch.json <<'EOF'\n  [\n    {\"type\""));
    assert_eq!(print_version("0.5.0"), "chrome-devtools 0.5.0");
    assert_eq!(
        print_session_close_help(),
        "chrome-devtools session close\n\nUsage:\n  chrome-devtools session close --profile <profile> --session <id>\n\nDescription:\n  Ask the profile daemon to drop the named session. If the session owns a\n  daemon-created page, the daemon closes that page while preserving Chrome's\n  last tab. Fails if the session is unknown or the daemon is not running.\n\nOptions:\n  --profile <name>  Required. Profile name from ~/.config/chrome-devtools/config.toml.\n  --session <id>    Required. Session id minted by `session create`.\n  -h, --help        Show this help and exit."
    );
}

#[test]
fn chrome_extra_args_splits_on_whitespace() {
    assert_eq!(
        chrome_extra_args(Some("--disable-gpu  --lang=ja")),
        vec!["--disable-gpu".to_string(), "--lang=ja".to_string()]
    );
}

#[test]
fn chrome_extra_args_is_empty_without_value() {
    assert!(chrome_extra_args(None).is_empty());
    assert!(chrome_extra_args(Some("  ")).is_empty());
}

#[test]
fn chrome_is_started_without_password_dialogs() {
    assert_eq!(
        chrome_args(9222, "/data", Some("--lang=ja")),
        args(&[
            "--remote-debugging-address=127.0.0.1",
            "--remote-debugging-port=9222",
            "--user-data-dir=/data",
            "--no-first-run",
            "--no-default-browser-check",
            "--disable-features=PasswordLeakDetection",
            "--lang=ja",
        ])
    );
}

#[test]
fn a_browser_that_answers_is_reused() {
    assert!(matches!(
        ensure_chrome(Some((1, true)), Some((2, true))),
        ChromeStep::Keep { port: 1 }
    ));
    assert!(matches!(
        ensure_chrome(Some((1, false)), Some((2, true))),
        ChromeStep::Adopt { port: 2 }
    ));
    assert!(matches!(
        ensure_chrome(None, Some((2, false))),
        ChromeStep::Launch
    ));
    assert_eq!(default_chrome_binary(None), "google-chrome-stable");
    assert_eq!(default_chrome_binary(Some("/a")), "/a");
}

#[test]
fn the_server_is_started_for_the_browser() {
    let plain = McpSettings {
        program: None,
        version: None,
        max_old_space_mb: None,
        node_options: None,
    };
    let command = daemon_mcp_command(&plain, 9222);
    assert_eq!(command.program, "npx");
    assert_eq!(
        command.args,
        args(&[
            "-y",
            "chrome-devtools-mcp@1.5.0",
            "--browser-url",
            "http://127.0.0.1:9222",
            "--no-usage-statistics",
            "--no-performance-crux",
            "--experimentalPageIdRouting",
            "--experimentalStructuredContent",
        ])
    );
    assert_eq!(command.node_options, "--max-old-space-size=2048");
    let told = McpSettings {
        program: Some("fake-mcp"),
        version: Some("2"),
        max_old_space_mb: Some("64"),
        node_options: Some("--trace"),
    };
    let command = mcp_command(&told, 1);
    assert_eq!(command.program, "fake-mcp");
    assert_eq!(
        command.args,
        args(&[
            "--browser-url",
            "http://127.0.0.1:1",
            "--no-usage-statistics",
            "--no-performance-crux",
        ])
    );
    assert_eq!(command.node_options, "--trace --max-old-space-size=64");
}

#[test]
fn extract_remote_debugging_port_reads_port_number() {
    let cmd = "/path/chrome --foo --remote-debugging-port=39277 --user-data-dir=/x";
    assert_eq!(extract_remote_debugging_port(cmd), Some(39277));
}

#[test]
fn extract_remote_debugging_port_returns_none_when_missing() {
    assert_eq!(extract_remote_debugging_port("/path/chrome --foo"), None);
}

#[test]
fn extract_remote_debugging_port_stops_at_next_flag() {
    let cmd = "chrome --remote-debugging-port=8080 --type=renderer";
    assert_eq!(extract_remote_debugging_port(cmd), Some(8080));
}

#[test]
fn extract_remote_debugging_port_returns_none_for_invalid_value() {
    let cmd = "chrome --remote-debugging-port=abc --user-data-dir=/x";
    assert_eq!(extract_remote_debugging_port(cmd), None);
}

#[test]
fn running_browsers_are_found_by_their_directory() {
    let entries = vec![
        ("self".to_string(), Some(b"chrome --user-data-dir=/x".to_vec())),
        ("7".to_string(), None),
        (
            "8".to_string(),
            Some(b"chrome\0--type=renderer\0--remote-debugging-port=1\0--user-data-dir=/x".to_vec()),
        ),
        (
            "9".to_string(),
            Some(b"chrome\0--remote-debugging-port=8080\0--user-data-dir=/x\0".to_vec()),
        ),
    ];
    let cmdlines = list_browser_cmdlines(&entries);
    assert_eq!(cmdlines.len(), 2);
    assert_eq!(
        cmdlines[1],
        "chrome --remote-debugging-port=8080 --user-data-dir=/x "
    );
    assert_eq!(find_running_chrome_port("/x", &cmdlines), Some(8080));
    assert_eq!(find_running_chrome_port("/y", &cmdlines), None);
}

#[test]
fn profiles_in_use_are_not_stopped() {
    let profile = &dummy_config().profiles[0];
    assert!(stop_profile(profile, true, true).is_ok());
    assert!(stop_profile(profile, false, false).is_ok());
    assert_eq!(
        stop_profile(profile, false, true).unwrap_err(),
        "daemon for profile default is running and other agents may be using it; stopping Chrome would break their sessions. run 'chrome-devtools daemon stop --profile default' first, or pass --force"
    );
    assert!(pkill_result(true, Some(0), "exit status: 0").is_ok());
    assert!(pkill_result(false, Some(1), "exit status: 1").is_ok());
    assert_eq!(
        pkill_result(false, Some(2), "exit status: 2").unwrap_err(),
        "pkill exited with exit status: 2"
    );
    assert!(exec_mcp(true, "exit status: 0").is_ok());
    assert_eq!(
        exec_mcp(false, "exit status: 3").unwrap_err(),
        "chrome-devtools-mcp exited with exit status: 3"
    );
}
