//! What holds of the command line.
use crate::batch::BatchFlags;
use crate::cli::{CommandView, StartView, Verb};
use crate::config::ProfileView;
use crate::{batch, cli, config, help, text};
use vstd::prelude::*;

verus! {

proof fn lemma_flags()
    ensures
        "--profile"@.len() == 9 && "--profile"@[2] == 'p',
        "--session"@.len() == 9 && "--session"@[2] == 's',
        "--script"@.len() == 8 && "--script"@[2] == 's',
        "--output"@.len() == 8 && "--output"@[2] == 'o',
        "--fail-fast"@.len() == 11,
        "--force"@.len() == 7 && "--force"@[0] == '-',
        "--help"@.len() == 6,
        "-h"@.len() == 2 && "-h"@[1] == 'h',
        "help"@.len() == 4,
        "version"@.len() == 7 && "version"@[0] == 'v',
        "--version"@.len() == 9 && "--version"@[2] == 'v',
        "-V"@.len() == 2 && "-V"@[1] == 'V',
{
    reveal_strlit("--profile");
    reveal_strlit("--session");
    reveal_strlit("--script");
    reveal_strlit("--output");
    reveal_strlit("--fail-fast");
    reveal_strlit("--force");
    reveal_strlit("--help");
    reveal_strlit("-h");
    reveal_strlit("help");
    reveal_strlit("version");
    reveal_strlit("--version");
    reveal_strlit("-V");
}


proof fn lemma_named_from(
    args: Seq<Seq<char>>,
    more: Seq<Seq<char>>,
    i: int,
    with_session: bool,
    profile: Option<Seq<char>>,
    session: Option<Seq<char>>,
)
    requires
        0 <= i <= args.len(),
        cli::named_from(args, i, with_session, profile, session) is Ok,
    ensures
        ({
            let (p, s) = cli::named_from(args, i, with_session, profile, session)->Ok_0;
            cli::named_from(args + more, i, with_session, profile, session) == cli::named_from(
                args + more,
                args.len() as int,
                with_session,
                p,
                s,
            )
        }),
    decreases args.len() - i,
{
    let all = args + more;
    if i < args.len() {
        assert(all[i] == args[i]);
        if i + 1 < args.len() {
            assert(all[i + 1] == args[i + 1]);
            if args[i] == "--profile"@ {
                lemma_named_from(args, more, i + 2, with_session, Some(args[i + 1]), session);
            } else {
                lemma_named_from(args, more, i + 2, with_session, profile, Some(args[i + 1]));
            }
        }
    }
}

/// Each flag gives its value, the last of a kind counts, and anything else is refused, as is
/// a flag without a value.
pub proof fn flags_name_profile_and_session(
    args: Seq<Seq<char>>,
    with_session: bool,
    value: Seq<char>,
    profile: Option<Seq<char>>,
    session: Option<Seq<char>>,
)
    requires
        cli::named_from(args, 0, with_session, None, None) == Ok::<_, Seq<char>>((profile, session)),
    ensures
        cli::named_from(args + seq!["--profile"@, value], 0, with_session, None, None) == Ok::<
            _,
            Seq<char>,
        >((Some(value), session)),
        with_session ==> cli::named_from(
            args + seq!["--session"@, value],
            0,
            with_session,
            None,
            None,
        ) == Ok::<_, Seq<char>>((profile, Some(value))),
        cli::named_from(args + seq!["--profile"@], 0, with_session, None, None) is Err,
        cli::named_from(args + seq!["--session"@], 0, with_session, None, None) is Err,
        value != "--profile"@ && (value != "--session"@ || !with_session) ==> cli::named_from(
            args + seq![value],
            0,
            with_session,
            None,
            None,
        ) is Err,
        cli::named_from(Seq::empty(), 0, with_session, None, None) == Ok::<_, Seq<char>>(
            (None::<Seq<char>>, None::<Seq<char>>),
        ),
{
    lemma_flags();
    let n = args.len() as int;
    let a = seq!["--profile"@, value];
    let b = seq!["--session"@, value];
    let c = seq!["--profile"@];
    let d = seq!["--session"@];
    let e = seq![value];
    lemma_named_from(args, a, 0, with_session, None, None);
    lemma_named_from(args, b, 0, with_session, None, None);
    lemma_named_from(args, c, 0, with_session, None, None);
    lemma_named_from(args, d, 0, with_session, None, None);
    lemma_named_from(args, e, 0, with_session, None, None);
    assert((args + a)[n] == "--profile"@ && (args + a)[n + 1] == value);
    assert((args + b)[n] == "--session"@ && (args + b)[n + 1] == value);
    assert((args + c)[n] == "--profile"@ && (args + d)[n] == "--session"@ && (args + e)[n] == value);
    if with_session {
        assert(cli::named_from(args + b, n + 2, with_session, profile, Some(value)) is Ok);
    }
    assert(cli::named_from(args + a, n + 2, with_session, Some(value), session) is Ok);
}

/// A command gets the configured profile that it names, and with it the session; it is
/// refused without either, and for a profile that is not configured.
pub proof fn commands_get_their_profile(
    profiles: Seq<ProfileView>,
    name: Seq<char>,
    id: Seq<char>,
)
    ensures
        ({
            let found = config::profile_named(profiles, name);
            let one = seq!["--profile"@, name];
            let both = seq!["--profile"@, name, "--session"@, id];
            let other = seq!["--session"@, id, "--profile"@, name];
            &&& found matches Some(p) ==> cli::required_profile(profiles, one) == Ok::<_, Seq<char>>(
                p,
            ) && cli::required_both(profiles, both) == Ok::<_, Seq<char>>((p, id))
                && cli::required_both(profiles, other) == Ok::<_, Seq<char>>((p, id))
            &&& found is None ==> cli::required_profile(profiles, one) is Err && cli::required_both(
                profiles,
                both,
            ) is Err
            &&& cli::required_profile(profiles, Seq::empty()) is Err
            &&& cli::required_both(profiles, one) is Err
            &&& cli::required_both(profiles, seq!["--session"@, id]) is Err
        }),
{
    lemma_flags();
    let none = Seq::<Seq<char>>::empty();
    let one = seq!["--profile"@, name];
    let only = seq!["--session"@, id];
    flags_name_profile_and_session(none, false, name, None, None);
    flags_name_profile_and_session(none, true, name, None, None);
    flags_name_profile_and_session(none, true, id, None, None);
    assert(none + one =~= one);
    assert(none + only =~= only);
    flags_name_profile_and_session(one, true, id, Some(name), None);
    assert(one + only =~= seq!["--profile"@, name, "--session"@, id]);
    flags_name_profile_and_session(only, true, name, None, Some(id));
    assert(only + one =~= seq!["--session"@, id, "--profile"@, name]);
}

/// A command is its first two words, and everything behind them is its arguments as they
/// are.
pub proof fn commands_are_two_words(object: Seq<char>, action: Seq<char>, rest: Seq<Seq<char>>)
    requires
        !cli::is_global(object),
        !cli::is_global(action),
        !cli::is_help(object),
        !cli::is_version(object),
    ensures
        cli::started(seq![object, action] + rest) == (StartView::Carry {
            object,
            action: Some(action),
            rest,
        }),
        cli::started(seq![object]) == (StartView::Carry {
            object,
            action: None,
            rest: Seq::empty(),
        }),
        cli::started(Seq::empty()) matches StartView::Usage { error } && error is Some,
{
    let args = seq![object, action] + rest;
    let two = seq![object, action];
    let none = Seq::<Seq<char>>::empty();
    assert(args[0] == object && args[1] == action);
    assert(none.push(object).push(action) =~= two);
    assert(cli::split_from(none, none, args, 0) == cli::split_from(none.push(object), none, args, 1));
    assert(cli::split_from(none.push(object), none, args, 1) == cli::split_from(two, none, args, 2));
    lemma_rest(two, none, args, 2);
    assert(args.skip(2) =~= rest);
    assert(none + rest =~= rest);
    let one = seq![object];
    assert(one[0] == object);
    assert(cli::split_from(none, none, one, 0) == cli::split_from(none.push(object), none, one, 1));
    assert(cli::split_from(none.push(object), none, one, 1) == (none.push(object), none));
    assert(none.push(object)[0] == object);
}

proof fn lemma_rest(
    positional: Seq<Seq<char>>,
    rest: Seq<Seq<char>>,
    args: Seq<Seq<char>>,
    i: int,
)
    requires
        positional.len() >= 2,
        0 <= i <= args.len(),
    ensures
        cli::split_from(positional, rest, args, i) == (positional, rest + args.skip(i)),
    decreases args.len() - i,
{
    if i < args.len() {
        lemma_rest(positional, rest.push(args[i]), args, i + 1);
        assert(rest.push(args[i]) + args.skip(i + 1) =~= rest + args.skip(i));
    } else {
        assert(rest + args.skip(i) =~= rest);
    }
}

/// The words for help and for the version ask for these.
pub proof fn help_and_version_are_asked_for(rest: Seq<Seq<char>>)
    ensures
        forall|word: Seq<char>| #[trigger]
            cli::is_help(word) <==> word == "--help"@ || word == "-h"@ || word == "help"@,
        forall|word: Seq<char>| #[trigger]
            cli::is_version(word) <==> word == "version"@ || word == "--version"@ || word == "-V"@,
        cli::started(seq!["--help"@]) == (StartView::Usage { error: None }),
        cli::started(seq!["--version"@]) == StartView::Version,
{
    lemma_flags();
    let none = Seq::<Seq<char>>::empty();
    let a = seq!["--help"@];
    let b = seq!["--version"@];
    assert(cli::split_from(none, none, a, 0) == cli::split_from(none.push(a[0]), none, a, 1));
    assert(cli::split_from(none.push(a[0]), none, a, 1) == (none.push(a[0]), none));
    assert(cli::split_from(none, none, b, 0) == cli::split_from(none.push(b[0]), none, b, 1));
    assert(cli::split_from(none.push(b[0]), none, b, 1) == (none.push(b[0]), none));
    assert(none.push(a[0])[0] == "--help"@ && none.push(b[0])[0] == "--version"@);
}

proof fn lemma_verbs()
    ensures
        "batch"@.len() == 5 && "batch"@[0] == 'b',
        "call"@.len() == 4 && "call"@[0] == 'c',
        "close"@.len() == 5 && "close"@[0] == 'c',
        "create"@.len() == 6 && "create"@[0] == 'c',
        "daemon"@.len() == 6 && "daemon"@[0] == 'd',
        "direct-call"@.len() == 11 && "direct-call"@[7] == 'c',
        "direct-list"@.len() == 11 && "direct-list"@[7] == 'l',
        "list"@.len() == 4 && "list"@[0] == 'l',
        "mcp"@.len() == 3 && "mcp"@[0] == 'm',
        "profile"@.len() == 7 && "profile"@[0] == 'p',
        "run"@.len() == 3 && "run"@[0] == 'r',
        "session"@.len() == 7 && "session"@[0] == 's',
        "start"@.len() == 5 && "start"@[0] == 's',
        "status"@.len() == 6 && "status"@[0] == 's',
        "stop"@.len() == 4 && "stop"@[0] == 's',
{
    reveal_strlit("batch");
    reveal_strlit("call");
    reveal_strlit("close");
    reveal_strlit("create");
    reveal_strlit("daemon");
    reveal_strlit("direct-call");
    reveal_strlit("direct-list");
    reveal_strlit("list");
    reveal_strlit("mcp");
    reveal_strlit("profile");
    reveal_strlit("run");
    reveal_strlit("session");
    reveal_strlit("start");
    reveal_strlit("status");
    reveal_strlit("stop");
}


/// The words of a command.
pub open spec fn words_of(verb: Verb) -> (Seq<char>, Seq<char>) {
    match verb {
        Verb::SessionCreate => ("session"@, "create"@),
        Verb::SessionList => ("session"@, "list"@),
        Verb::SessionClose => ("session"@, "close"@),
        Verb::McpCall => ("mcp"@, "call"@),
        Verb::McpBatch => ("mcp"@, "batch"@),
        Verb::McpList => ("mcp"@, "list"@),
        Verb::McpDirectCall => ("mcp"@, "direct-call"@),
        Verb::McpDirectList => ("mcp"@, "direct-list"@),
        Verb::ProfileStatus => ("profile"@, "status"@),
        Verb::ProfileStop => ("profile"@, "stop"@),
        Verb::ProfileList => ("profile"@, "list"@),
        Verb::DaemonStart => ("daemon"@, "start"@),
        Verb::DaemonRun => ("daemon"@, "run"@),
        Verb::DaemonStatus => ("daemon"@, "status"@),
        Verb::DaemonStop => ("daemon"@, "stop"@),
    }
}

/// Every command is known by its two words and by no others.
pub proof fn commands_are_known_by_their_words(object: Seq<char>, action: Seq<char>, verb: Verb)
    ensures
        cli::verb_of(object, action) == Some(verb) <==> (object, action) == words_of(verb),
{
    lemma_verbs();
}

/// What a command comes to with a profile and, where it works on one, a session: it runs with
/// them, and is forced only if it can be and is told to be. Listing the profiles takes no
/// arguments, and no other command can be forced.
pub proof fn commands_run_as_they_are_told(
    profiles: Seq<ProfileView>,
    verb: Verb,
    name: Seq<char>,
    id: Seq<char>,
    profile: ProfileView,
)
    requires
        config::profile_named(profiles, name) == Some(profile),
        !cli::is_help(name),
        !cli::is_help(id),
        name != "--force"@,
    ensures
        ({
            let one = seq!["--profile"@, name];
            let both = seq!["--profile"@, name, "--session"@, id];
            let forced = seq!["--profile"@, name, "--force"@];
            let with_session = verb == Verb::SessionClose || verb == Verb::McpCall;
            let stops = verb == Verb::ProfileStop || verb == Verb::DaemonStop;
            let own = verb == Verb::McpBatch || verb == Verb::ProfileList;
            &&& !own && !with_session ==> cli::carried(profiles, verb, one) == (CommandView::Run {
                verb,
                profile,
                session: None,
                force: false,
            }) && cli::carried(profiles, verb, both) is Fail
            &&& with_session ==> cli::carried(profiles, verb, both) == (CommandView::Run {
                verb,
                profile,
                session: Some(id),
                force: false,
            }) && cli::carried(profiles, verb, one) is Fail
            &&& stops ==> cli::carried(profiles, verb, forced) == (CommandView::Run {
                verb,
                profile,
                session: None,
                force: true,
            })
            &&& !own && !stops ==> cli::carried(profiles, verb, forced) is Fail
            &&& cli::carried(profiles, Verb::ProfileList, one) is Fail
            &&& cli::carried(profiles, Verb::ProfileList, Seq::empty()) == (CommandView::Show {
                shown: cli::profiles_text(profiles),
            })
        }),
{
    lemma_flags();
    let none = Seq::<Seq<char>>::empty();
    let one = seq!["--profile"@, name];
    let both = seq!["--profile"@, name, "--session"@, id];
    let forced = seq!["--profile"@, name, "--force"@];
    commands_get_their_profile(profiles, name, id);
    flags_name_profile_and_session(none, false, name, None, None);
    flags_name_profile_and_session(none, true, name, None, None);
    assert(none + one =~= one);
    flags_name_profile_and_session(one, false, "--session"@, Some(name), None);
    flags_name_profile_and_session(one, false, "--force"@, Some(name), None);
    flags_name_profile_and_session(one, true, "--force"@, Some(name), None);
    assert(one + seq!["--force"@] =~= forced);
    assert(cli::named_from(both, 0, false, None, None) is Err) by {
        lemma_named_from(one, seq!["--session"@, id], 0, false, None, None);
        assert(one + seq!["--session"@, id] =~= both);
        assert(both[2] == "--session"@);
    }
    assert(!cli::asks_help(one)) by {
        if cli::asks_help(one) {
            let i = choose|i: int| 0 <= i < one.len() && cli::is_help(#[trigger] one[i]);
            assert(i == 0 || i == 1);
        }
    }
    assert(!cli::asks_help(both)) by {
        if cli::asks_help(both) {
            let i = choose|i: int| 0 <= i < both.len() && cli::is_help(#[trigger] both[i]);
            assert(i == 0 || i == 1 || i == 2 || i == 3);
        }
    }
    assert(!cli::asks_help(forced)) by {
        if cli::asks_help(forced) {
            let i = choose|i: int| 0 <= i < forced.len() && cli::is_help(#[trigger] forced[i]);
            assert(i == 0 || i == 1 || i == 2);
        }
    }
    let plain = |arg: Seq<char>| arg != "--force"@;
    reveal(Seq::filter);
    assert(one.drop_last().drop_last() =~= none);
    assert(one.drop_last().last() == "--profile"@ && one.last() == name);
    assert(none.filter(plain) =~= none);
    assert(one.drop_last().filter(plain) =~= one.drop_last());
    assert(one.filter(plain) =~= one);
    assert(forced.drop_last() =~= one);
    assert(forced.last() == "--force"@);
    assert(forced.filter(plain) =~= one);
    assert(forced[2] == "--force"@);
    assert(forced.contains("--force"@));
    assert(!one.contains("--force"@)) by {
        if one.contains("--force"@) {
            let i = choose|i: int| 0 <= i < one.len() && one[i] == "--force"@;
            assert(i == 0 || i == 1);
        }
    }
    assert(both.drop_last().drop_last() =~= one);
    assert(both.drop_last().last() == "--session"@ && both.last() == id);
    assert(both.drop_last().filter(plain) =~= one.push("--session"@));
    if id == "--force"@ {
        assert(both.filter(plain) =~= one.push("--session"@));
        assert(one.push("--session"@) =~= one + seq!["--session"@]);
    } else {
        assert(both.filter(plain) =~= both);
    }
}

/// A line for each profile, in order.
pub proof fn profiles_are_shown_line_by_line(profiles: Seq<ProfileView>, p: ProfileView)
    ensures
        cli::profiles_text(profiles.push(p)) == cli::profiles_text(profiles) + p.name
            + "\tuser_data_dir="@ + p.dir + seq!['\n'],
        cli::profiles_text(Seq::empty()) == Seq::<char>::empty(),
{
    reveal_strlit("");
    reveal_strlit("\n");
    assert(""@ =~= Seq::empty());
    assert("\n"@ =~= seq!['\n']);
    assert(profiles.push(p).drop_last() =~= profiles);
}

proof fn lemma_batch_flags(args: Seq<Seq<char>>, more: Seq<Seq<char>>, i: int, flags: BatchFlags)
    requires
        0 <= i <= args.len(),
        batch::batch_flags(args, i, flags) is Ok,
    ensures
        batch::batch_flags(args + more, i, flags) == batch::batch_flags(
            args + more,
            args.len() as int,
            batch::batch_flags(args, i, flags)->Ok_0,
        ),
    decreases args.len() - i,
{
    let all = args + more;
    if i < args.len() {
        assert(all[i] == args[i]);
        if batch::takes_value(args[i]) {
            if i + 1 < args.len() {
                assert(all[i + 1] == args[i + 1]);
                lemma_batch_flags(
                    args,
                    more,
                    i + 2,
                    batch::with_flag(flags, args[i], args[i + 1]),
                );
            }
        } else {
            lemma_batch_flags(args, more, i + 1, BatchFlags { fail_fast: true, ..flags });
        }
    }
}

/// Each flag of a batch sets what it is for, and nothing else; anything else is refused, as
/// is a flag without its value.
pub proof fn batch_flags_set_what_they_are_for(args: Seq<Seq<char>>, value: Seq<char>)
    requires
        batch::batch_flags(args, 0, batch::no_flags()) is Ok,
    ensures
        ({
            let all = batch::batch_flags(args, 0, batch::no_flags())->Ok_0;
            let start = batch::no_flags();
            &&& batch::batch_flags(args + seq!["--profile"@, value], 0, start) == Ok::<_, Seq<char>>(
                BatchFlags { profile: Some(value), ..all },
            )
            &&& batch::batch_flags(args + seq!["--session"@, value], 0, start) == Ok::<_, Seq<char>>(
                BatchFlags { session: Some(value), ..all },
            )
            &&& batch::batch_flags(args + seq!["--script"@, value], 0, start) == Ok::<_, Seq<char>>(
                BatchFlags { script: Some(value), ..all },
            )
            &&& batch::batch_flags(args + seq!["--output"@, value], 0, start) == Ok::<_, Seq<char>>(
                BatchFlags { output: Some(value), ..all },
            )
            &&& batch::batch_flags(args + seq!["--fail-fast"@], 0, start) == Ok::<_, Seq<char>>(
                BatchFlags { fail_fast: true, ..all },
            )
            &&& batch::batch_flags(args + seq!["--profile"@], 0, start) is Err
            &&& value != "--profile"@ && value != "--session"@ && value != "--script"@ && value
                != "--output"@ && value != "--fail-fast"@ ==> batch::batch_flags(
                args + seq![value],
                0,
                start,
            ) is Err
            &&& batch::batch_flags(Seq::empty(), 0, start) == Ok::<_, Seq<char>>(
                BatchFlags {
                    profile: None,
                    session: None,
                    script: None,
                    output: None,
                    fail_fast: false,
                },
            )
        }),
{
    lemma_flags();
    let n = args.len() as int;
    let start = batch::no_flags();
    let all = batch::batch_flags(args, 0, start)->Ok_0;
    let a = seq!["--profile"@, value];
    lemma_batch_flags(args, a, 0, start);
    assert((args + a)[n] == "--profile"@ && (args + a)[n + 1] == value);
    assert(batch::batch_flags(args + a, n + 2, BatchFlags { profile: Some(value), ..all }) is Ok);
    let b = seq!["--session"@, value];
    lemma_batch_flags(args, b, 0, start);
    assert((args + b)[n] == "--session"@ && (args + b)[n + 1] == value);
    assert(batch::batch_flags(args + b, n + 2, BatchFlags { session: Some(value), ..all }) is Ok);
    let c = seq!["--script"@, value];
    lemma_batch_flags(args, c, 0, start);
    assert((args + c)[n] == "--script"@ && (args + c)[n + 1] == value);
    assert(batch::batch_flags(args + c, n + 2, BatchFlags { script: Some(value), ..all }) is Ok);
    let d = seq!["--output"@, value];
    lemma_batch_flags(args, d, 0, start);
    assert((args + d)[n] == "--output"@ && (args + d)[n + 1] == value);
    assert(batch::batch_flags(args + d, n + 2, BatchFlags { output: Some(value), ..all }) is Ok);
    let h = seq![value];
    lemma_batch_flags(args, h, 0, start);
    assert((args + h)[n] == value);
    let g = seq!["--fail-fast"@];
    lemma_batch_flags(args, g, 0, start);
    assert((args + g)[n] == "--fail-fast"@);
    assert(batch::batch_flags(args + g, n + 1, BatchFlags { fail_fast: true, ..all }) is Ok);
    let k = seq!["--profile"@];
    lemma_batch_flags(args, k, 0, start);
    assert((args + k)[n] == "--profile"@);
}

/// A batch needs a profile, a session and a script.
pub proof fn batches_need_three_things(args: Seq<Seq<char>>)
    ensures
        batch::batch_args(args) matches Ok(flags) ==> flags.profile is Some && flags.session is Some
            && flags.script is Some && batch::batch_flags(args, 0, batch::no_flags()) == Ok::<
            _,
            Seq<char>,
        >(flags),
        batch::batch_args(args) is Err ==> (batch::batch_flags(args, 0, batch::no_flags())
            matches Ok(flags) ==> flags.profile is None || flags.session is None || flags.script
            is None),
{
}

/// The lines of a help text are its lines, whatever they are.
pub proof fn help_shows_its_lines(lines: Seq<Seq<char>>, line: Seq<char>)
    requires
        lines.len() > 0,
    ensures
        help::help_text(lines.push(line)) == help::help_text(lines) + seq!['\n'] + line,
        help::help_text(seq![line]) == line,
{
    reveal_strlit("\n");
    assert("\n"@ =~= seq!['\n']);
    assert(lines.push(line).drop_last() =~= lines);
}

/// A section of a help text stands behind a blank line, under its title, with each of its
/// lines indented, and leaves what was there before.
pub proof fn sections_follow_each_other(
    lines: Seq<Seq<char>>,
    title: Seq<char>,
    body: Seq<char>,
    i: int,
)
    requires
        lines.len() > 0,
        lines.last().len() > 0,
        0 <= i < text::parts(body, '\n').len(),
    ensures
        ({
            let with = help::sectioned(lines, title, body);
            let raw = help::sectioned_raw(lines, title, body);
            let n = lines.len() as int;
            let parts = text::parts(body, '\n');
            &&& with.len() == n + 2 + parts.len() && raw.len() == n + 2 + parts.len()
            &&& with.take(n) == lines && raw.take(n) == lines
            &&& with[n].len() == 0 && raw[n].len() == 0
            &&& with[n + 1] == title && raw[n + 1] == title
            &&& raw[n + 2 + i] == parts[i]
            &&& with[n + 2 + i] == (if parts[i].len() == 0 {
                Seq::empty()
            } else {
                seq![' ', ' '] + parts[i]
            })
        }),
{
    reveal_strlit("");
    reveal_strlit("  ");
    assert(""@ =~= Seq::empty());
    assert("  "@ =~= seq![' ', ' ']);
    let n = lines.len() as int;
    assert(help::sectioned(lines, title, body).take(n) =~= lines);
    assert(help::sectioned_raw(lines, title, body).take(n) =~= lines);
}

proof fn lemma_section_keeps(lines: Seq<Seq<char>>, title: Seq<char>, body: Seq<char>)
    requires
        lines.len() > 2,
    ensures
        ({
            let with = help::sectioned(lines, title, body);
            let raw = help::sectioned_raw(lines, title, body);
            &&& with.len() > 2 && with[0] == lines[0] && with[2] == lines[2]
            &&& raw.len() > 2 && raw[0] == lines[0] && raw[2] == lines[2]
        }),
{
}

proof fn lemma_first_section(title: Seq<char>, section: Seq<char>, body: Seq<char>)
    ensures
        ({
            let with = help::sectioned(help::titled(title), section, body);
            with.len() > 2 && with[0] == title && with[2] == section
        }),
{
    reveal_strlit("");
    assert(help::titled(title).last().len() == 0);
    assert(help::spaced(help::titled(title)) == help::titled(title));
}

/// The help of a command has the command for its title, and tells first how it is used.
pub proof fn help_is_for_its_command(verb: Verb)
    ensures
        ({
            let lines = cli::verb_help(verb);
            &&& lines.len() > 2
            &&& lines[0] == "chrome-devtools "@ + words_of(verb).0 + seq![' '] + words_of(verb).1
            &&& lines[2] == "Usage:"@
        }),
{
    match verb {
        Verb::SessionCreate => lemma_session_create_help(),
        Verb::SessionList => lemma_session_list_help(),
        Verb::SessionClose => lemma_session_close_help(),
        Verb::McpCall => lemma_mcp_call_help(),
        Verb::McpBatch => lemma_mcp_batch_help(),
        Verb::McpList => lemma_mcp_list_help(),
        Verb::McpDirectCall => lemma_mcp_direct_call_help(),
        Verb::McpDirectList => lemma_mcp_direct_list_help(),
        Verb::ProfileStatus => lemma_profile_status_help(),
        Verb::ProfileStop => lemma_profile_stop_help(),
        Verb::ProfileList => lemma_profile_list_help(),
        Verb::DaemonStart => lemma_daemon_start_help(),
        Verb::DaemonRun => lemma_daemon_run_help(),
        Verb::DaemonStatus => lemma_daemon_status_help(),
        Verb::DaemonStop => lemma_daemon_stop_help(),
    }
}

/// The help of the commands on one kind of thing has it for its title.
pub proof fn help_is_for_its_object(object: Seq<char>)
    ensures
        cli::object_help(object) is Some <==> object == "mcp"@ || object == "profile"@ || object
            == "daemon"@ || object == "session"@,
        cli::object_help(object) matches Some(lines) ==> lines.len() > 2 && lines[0]
            == "chrome-devtools "@ + object && lines[2] == "Usage:"@,
{
    lemma_verbs();
    lemma_mcp_help();
    lemma_profile_help();
    lemma_daemon_help();
    lemma_session_help();
}

proof fn lemma_session_create_help()
    ensures
        help::session_create_help().len() > 2,
        help::session_create_help()[0] == "chrome-devtools "@ + "session"@ + seq![' '] + "create"@,
        help::session_create_help()[2] == "Usage:"@,
{
    reveal_strlit("chrome-devtools ");
    reveal_strlit("chrome-devtools session create");
    lemma_first_section("chrome-devtools session create"@, "Usage:"@, help::SESSION_CREATE_USAGE@);
    let help0 = help::sectioned(help::titled("chrome-devtools session create"@), "Usage:"@, help::SESSION_CREATE_USAGE@);
    lemma_section_keeps(help0, "Description:"@, help::SESSION_CREATE_DESCRIPTION@);
    let help1 = help::sectioned(help0, "Description:"@, help::SESSION_CREATE_DESCRIPTION@);
    lemma_section_keeps(help1, "Options:"@, help::PROFILE_OPTIONS@);
    let help2 = help::sectioned(help1, "Options:"@, help::PROFILE_OPTIONS@);
    reveal_strlit("session");
    reveal_strlit("create");
    assert("chrome-devtools session create"@ =~= "chrome-devtools "@ + "session"@ + seq![' '] + "create"@);
}


proof fn lemma_session_list_help()
    ensures
        help::session_list_help().len() > 2,
        help::session_list_help()[0] == "chrome-devtools "@ + "session"@ + seq![' '] + "list"@,
        help::session_list_help()[2] == "Usage:"@,
{
    reveal_strlit("chrome-devtools ");
    reveal_strlit("chrome-devtools session list");
    lemma_first_section("chrome-devtools session list"@, "Usage:"@, help::SESSION_LIST_USAGE@);
    let help0 = help::sectioned(help::titled("chrome-devtools session list"@), "Usage:"@, help::SESSION_LIST_USAGE@);
    lemma_section_keeps(help0, "Description:"@, help::SESSION_LIST_DESCRIPTION@);
    let help1 = help::sectioned(help0, "Description:"@, help::SESSION_LIST_DESCRIPTION@);
    lemma_section_keeps(help1, "Options:"@, help::PROFILE_OPTIONS@);
    let help2 = help::sectioned(help1, "Options:"@, help::PROFILE_OPTIONS@);
    reveal_strlit("session");
    reveal_strlit("list");
    assert("chrome-devtools session list"@ =~= "chrome-devtools "@ + "session"@ + seq![' '] + "list"@);
}


proof fn lemma_session_close_help()
    ensures
        help::session_close_help().len() > 2,
        help::session_close_help()[0] == "chrome-devtools "@ + "session"@ + seq![' '] + "close"@,
        help::session_close_help()[2] == "Usage:"@,
{
    reveal_strlit("chrome-devtools ");
    reveal_strlit("chrome-devtools session close");
    lemma_first_section("chrome-devtools session close"@, "Usage:"@, help::SESSION_CLOSE_USAGE@);
    let help0 = help::sectioned(help::titled("chrome-devtools session close"@), "Usage:"@, help::SESSION_CLOSE_USAGE@);
    lemma_section_keeps(help0, "Description:"@, help::SESSION_CLOSE_DESCRIPTION@);
    let help1 = help::sectioned(help0, "Description:"@, help::SESSION_CLOSE_DESCRIPTION@);
    lemma_section_keeps(help1, "Options:"@, help::SESSION_OPTIONS@);
    let help2 = help::sectioned(help1, "Options:"@, help::SESSION_OPTIONS@);
    reveal_strlit("session");
    reveal_strlit("close");
    assert("chrome-devtools session close"@ =~= "chrome-devtools "@ + "session"@ + seq![' '] + "close"@);
}


proof fn lemma_mcp_call_help()
    ensures
        help::mcp_call_help().len() > 2,
        help::mcp_call_help()[0] == "chrome-devtools "@ + "mcp"@ + seq![' '] + "call"@,
        help::mcp_call_help()[2] == "Usage:"@,
{
    reveal_strlit("chrome-devtools ");
    reveal_strlit("chrome-devtools mcp call");
    lemma_first_section("chrome-devtools mcp call"@, "Usage:"@, help::MCP_CALL_USAGE@);
    let help0 = help::sectioned(help::titled("chrome-devtools mcp call"@), "Usage:"@, help::MCP_CALL_USAGE@);
    lemma_section_keeps(help0, "Description:"@, help::MCP_CALL_DESCRIPTION@);
    let help1 = help::sectioned(help0, "Description:"@, help::MCP_CALL_DESCRIPTION@);
    lemma_section_keeps(help1, "Options:"@, help::SESSION_OPTIONS@);
    let help2 = help::sectioned(help1, "Options:"@, help::SESSION_OPTIONS@);
    lemma_section_keeps(help2, "Examples:"@, help::MCP_CALL_EXAMPLES@);
    let help3 = help::sectioned(help2, "Examples:"@, help::MCP_CALL_EXAMPLES@);
    reveal_strlit("mcp");
    reveal_strlit("call");
    assert("chrome-devtools mcp call"@ =~= "chrome-devtools "@ + "mcp"@ + seq![' '] + "call"@);
}


proof fn lemma_mcp_batch_help()
    ensures
        help::mcp_batch_help().len() > 2,
        help::mcp_batch_help()[0] == "chrome-devtools "@ + "mcp"@ + seq![' '] + "batch"@,
        help::mcp_batch_help()[2] == "Usage:"@,
{
    reveal_strlit("chrome-devtools ");
    reveal_strlit("chrome-devtools mcp batch");
    lemma_first_section("chrome-devtools mcp batch"@, "Usage:"@, help::MCP_BATCH_USAGE@);
    let help0 = help::sectioned(help::titled("chrome-devtools mcp batch"@), "Usage:"@, help::MCP_BATCH_USAGE@);
    lemma_section_keeps(help0, "Description:"@, help::MCP_BATCH_DESCRIPTION@);
    let help1 = help::sectioned(help0, "Description:"@, help::MCP_BATCH_DESCRIPTION@);
    lemma_section_keeps(help1, "Step shapes:"@, help::MCP_BATCH_STEP_SHAPES@);
    let help2 = help::sectioned(help1, "Step shapes:"@, help::MCP_BATCH_STEP_SHAPES@);
    lemma_section_keeps(help2, "Value references inside args:"@, help::MCP_BATCH_VALUE_REFERENCES_INSIDE_ARGS@);
    let help3 = help::sectioned(help2, "Value references inside args:"@, help::MCP_BATCH_VALUE_REFERENCES_INSIDE_ARGS@);
    lemma_section_keeps(help3, "Result shape (per step):"@, help::MCP_BATCH_RESULT_SHAPE@);
    let help4 = help::sectioned(help3, "Result shape (per step):"@, help::MCP_BATCH_RESULT_SHAPE@);
    lemma_section_keeps(help4, "Error handling:"@, help::MCP_BATCH_ERROR_HANDLING@);
    let help5 = help::sectioned(help4, "Error handling:"@, help::MCP_BATCH_ERROR_HANDLING@);
    lemma_section_keeps(help5, "Options:"@, help::MCP_BATCH_OPTIONS@);
    let help6 = help::sectioned(help5, "Options:"@, help::MCP_BATCH_OPTIONS@);
    lemma_section_keeps(help6, "Examples:"@, help::MCP_BATCH_EXAMPLES@);
    let help7 = help::sectioned_raw(help6, "Examples:"@, help::MCP_BATCH_EXAMPLES@);
    reveal_strlit("mcp");
    reveal_strlit("batch");
    assert("chrome-devtools mcp batch"@ =~= "chrome-devtools "@ + "mcp"@ + seq![' '] + "batch"@);
}


proof fn lemma_mcp_list_help()
    ensures
        help::mcp_list_help().len() > 2,
        help::mcp_list_help()[0] == "chrome-devtools "@ + "mcp"@ + seq![' '] + "list"@,
        help::mcp_list_help()[2] == "Usage:"@,
{
    reveal_strlit("chrome-devtools ");
    reveal_strlit("chrome-devtools mcp list");
    lemma_first_section("chrome-devtools mcp list"@, "Usage:"@, help::MCP_LIST_USAGE@);
    let help0 = help::sectioned(help::titled("chrome-devtools mcp list"@), "Usage:"@, help::MCP_LIST_USAGE@);
    lemma_section_keeps(help0, "Description:"@, help::MCP_LIST_DESCRIPTION@);
    let help1 = help::sectioned(help0, "Description:"@, help::MCP_LIST_DESCRIPTION@);
    lemma_section_keeps(help1, "Options:"@, help::PROFILE_OPTIONS@);
    let help2 = help::sectioned(help1, "Options:"@, help::PROFILE_OPTIONS@);
    reveal_strlit("mcp");
    reveal_strlit("list");
    assert("chrome-devtools mcp list"@ =~= "chrome-devtools "@ + "mcp"@ + seq![' '] + "list"@);
}


proof fn lemma_mcp_direct_call_help()
    ensures
        help::mcp_direct_call_help().len() > 2,
        help::mcp_direct_call_help()[0] == "chrome-devtools "@ + "mcp"@ + seq![' '] + "direct-call"@,
        help::mcp_direct_call_help()[2] == "Usage:"@,
{
    reveal_strlit("chrome-devtools ");
    reveal_strlit("chrome-devtools mcp direct-call");
    lemma_first_section("chrome-devtools mcp direct-call"@, "Usage:"@, help::MCP_DIRECT_CALL_USAGE@);
    let help0 = help::sectioned(help::titled("chrome-devtools mcp direct-call"@), "Usage:"@, help::MCP_DIRECT_CALL_USAGE@);
    lemma_section_keeps(help0, "Description:"@, help::MCP_DIRECT_CALL_DESCRIPTION@);
    let help1 = help::sectioned(help0, "Description:"@, help::MCP_DIRECT_CALL_DESCRIPTION@);
    lemma_section_keeps(help1, "Options:"@, help::PROFILE_OPTIONS@);
    let help2 = help::sectioned(help1, "Options:"@, help::PROFILE_OPTIONS@);
    lemma_section_keeps(help2, "Notes:"@, help::MCP_DIRECT_CALL_NOTES@);
    let help3 = help::sectioned(help2, "Notes:"@, help::MCP_DIRECT_CALL_NOTES@);
    reveal_strlit("mcp");
    reveal_strlit("direct-call");
    assert("chrome-devtools mcp direct-call"@ =~= "chrome-devtools "@ + "mcp"@ + seq![' '] + "direct-call"@);
}


proof fn lemma_mcp_direct_list_help()
    ensures
        help::mcp_direct_list_help().len() > 2,
        help::mcp_direct_list_help()[0] == "chrome-devtools "@ + "mcp"@ + seq![' '] + "direct-list"@,
        help::mcp_direct_list_help()[2] == "Usage:"@,
{
    reveal_strlit("chrome-devtools ");
    reveal_strlit("chrome-devtools mcp direct-list");
    lemma_first_section("chrome-devtools mcp direct-list"@, "Usage:"@, help::MCP_DIRECT_LIST_USAGE@);
    let help0 = help::sectioned(help::titled("chrome-devtools mcp direct-list"@), "Usage:"@, help::MCP_DIRECT_LIST_USAGE@);
    lemma_section_keeps(help0, "Description:"@, help::MCP_DIRECT_LIST_DESCRIPTION@);
    let help1 = help::sectioned(help0, "Description:"@, help::MCP_DIRECT_LIST_DESCRIPTION@);
    lemma_section_keeps(help1, "Options:"@, help::PROFILE_OPTIONS@);
    let help2 = help::sectioned(help1, "Options:"@, help::PROFILE_OPTIONS@);
    lemma_section_keeps(help2, "Notes:"@, help::MCP_DIRECT_LIST_NOTES@);
    let help3 = help::sectioned(help2, "Notes:"@, help::MCP_DIRECT_LIST_NOTES@);
    reveal_strlit("mcp");
    reveal_strlit("direct-list");
    assert("chrome-devtools mcp direct-list"@ =~= "chrome-devtools "@ + "mcp"@ + seq![' '] + "direct-list"@);
}


proof fn lemma_profile_status_help()
    ensures
        help::profile_status_help().len() > 2,
        help::profile_status_help()[0] == "chrome-devtools "@ + "profile"@ + seq![' '] + "status"@,
        help::profile_status_help()[2] == "Usage:"@,
{
    reveal_strlit("chrome-devtools ");
    reveal_strlit("chrome-devtools profile status");
    lemma_first_section("chrome-devtools profile status"@, "Usage:"@, help::PROFILE_STATUS_USAGE@);
    let help0 = help::sectioned(help::titled("chrome-devtools profile status"@), "Usage:"@, help::PROFILE_STATUS_USAGE@);
    lemma_section_keeps(help0, "Description:"@, help::PROFILE_STATUS_DESCRIPTION@);
    let help1 = help::sectioned(help0, "Description:"@, help::PROFILE_STATUS_DESCRIPTION@);
    lemma_section_keeps(help1, "Options:"@, help::PROFILE_OPTIONS@);
    let help2 = help::sectioned(help1, "Options:"@, help::PROFILE_OPTIONS@);
    reveal_strlit("profile");
    reveal_strlit("status");
    assert("chrome-devtools profile status"@ =~= "chrome-devtools "@ + "profile"@ + seq![' '] + "status"@);
}


proof fn lemma_profile_stop_help()
    ensures
        help::profile_stop_help().len() > 2,
        help::profile_stop_help()[0] == "chrome-devtools "@ + "profile"@ + seq![' '] + "stop"@,
        help::profile_stop_help()[2] == "Usage:"@,
{
    reveal_strlit("chrome-devtools ");
    reveal_strlit("chrome-devtools profile stop");
    lemma_first_section("chrome-devtools profile stop"@, "Usage:"@, help::PROFILE_STOP_USAGE@);
    let help0 = help::sectioned(help::titled("chrome-devtools profile stop"@), "Usage:"@, help::PROFILE_STOP_USAGE@);
    lemma_section_keeps(help0, "Description:"@, help::PROFILE_STOP_DESCRIPTION@);
    let help1 = help::sectioned(help0, "Description:"@, help::PROFILE_STOP_DESCRIPTION@);
    lemma_section_keeps(help1, "Options:"@, help::PROFILE_STOP_OPTIONS@);
    let help2 = help::sectioned(help1, "Options:"@, help::PROFILE_STOP_OPTIONS@);
    reveal_strlit("profile");
    reveal_strlit("stop");
    assert("chrome-devtools profile stop"@ =~= "chrome-devtools "@ + "profile"@ + seq![' '] + "stop"@);
}


proof fn lemma_profile_list_help()
    ensures
        help::profile_list_help().len() > 2,
        help::profile_list_help()[0] == "chrome-devtools "@ + "profile"@ + seq![' '] + "list"@,
        help::profile_list_help()[2] == "Usage:"@,
{
    reveal_strlit("chrome-devtools ");
    reveal_strlit("chrome-devtools profile list");
    lemma_first_section("chrome-devtools profile list"@, "Usage:"@, help::PROFILE_LIST_USAGE@);
    let help0 = help::sectioned(help::titled("chrome-devtools profile list"@), "Usage:"@, help::PROFILE_LIST_USAGE@);
    lemma_section_keeps(help0, "Description:"@, help::PROFILE_LIST_DESCRIPTION@);
    let help1 = help::sectioned(help0, "Description:"@, help::PROFILE_LIST_DESCRIPTION@);
    lemma_section_keeps(help1, "Options:"@, help::HELP_OPTION@);
    let help2 = help::sectioned(help1, "Options:"@, help::HELP_OPTION@);
    reveal_strlit("profile");
    reveal_strlit("list");
    assert("chrome-devtools profile list"@ =~= "chrome-devtools "@ + "profile"@ + seq![' '] + "list"@);
}


proof fn lemma_daemon_start_help()
    ensures
        help::daemon_start_help().len() > 2,
        help::daemon_start_help()[0] == "chrome-devtools "@ + "daemon"@ + seq![' '] + "start"@,
        help::daemon_start_help()[2] == "Usage:"@,
{
    reveal_strlit("chrome-devtools ");
    reveal_strlit("chrome-devtools daemon start");
    lemma_first_section("chrome-devtools daemon start"@, "Usage:"@, help::DAEMON_START_USAGE@);
    let help0 = help::sectioned(help::titled("chrome-devtools daemon start"@), "Usage:"@, help::DAEMON_START_USAGE@);
    lemma_section_keeps(help0, "Description:"@, help::DAEMON_START_DESCRIPTION@);
    let help1 = help::sectioned(help0, "Description:"@, help::DAEMON_START_DESCRIPTION@);
    lemma_section_keeps(help1, "Options:"@, help::PROFILE_OPTIONS@);
    let help2 = help::sectioned(help1, "Options:"@, help::PROFILE_OPTIONS@);
    reveal_strlit("daemon");
    reveal_strlit("start");
    assert("chrome-devtools daemon start"@ =~= "chrome-devtools "@ + "daemon"@ + seq![' '] + "start"@);
}


proof fn lemma_daemon_run_help()
    ensures
        help::daemon_run_help().len() > 2,
        help::daemon_run_help()[0] == "chrome-devtools "@ + "daemon"@ + seq![' '] + "run"@,
        help::daemon_run_help()[2] == "Usage:"@,
{
    reveal_strlit("chrome-devtools ");
    reveal_strlit("chrome-devtools daemon run");
    lemma_first_section("chrome-devtools daemon run"@, "Usage:"@, help::DAEMON_RUN_USAGE@);
    let help0 = help::sectioned(help::titled("chrome-devtools daemon run"@), "Usage:"@, help::DAEMON_RUN_USAGE@);
    lemma_section_keeps(help0, "Description:"@, help::DAEMON_RUN_DESCRIPTION@);
    let help1 = help::sectioned(help0, "Description:"@, help::DAEMON_RUN_DESCRIPTION@);
    lemma_section_keeps(help1, "Options:"@, help::PROFILE_OPTIONS@);
    let help2 = help::sectioned(help1, "Options:"@, help::PROFILE_OPTIONS@);
    reveal_strlit("daemon");
    reveal_strlit("run");
    assert("chrome-devtools daemon run"@ =~= "chrome-devtools "@ + "daemon"@ + seq![' '] + "run"@);
}


proof fn lemma_daemon_status_help()
    ensures
        help::daemon_status_help().len() > 2,
        help::daemon_status_help()[0] == "chrome-devtools "@ + "daemon"@ + seq![' '] + "status"@,
        help::daemon_status_help()[2] == "Usage:"@,
{
    reveal_strlit("chrome-devtools ");
    reveal_strlit("chrome-devtools daemon status");
    lemma_first_section("chrome-devtools daemon status"@, "Usage:"@, help::DAEMON_STATUS_USAGE@);
    let help0 = help::sectioned(help::titled("chrome-devtools daemon status"@), "Usage:"@, help::DAEMON_STATUS_USAGE@);
    lemma_section_keeps(help0, "Description:"@, help::DAEMON_STATUS_DESCRIPTION@);
    let help1 = help::sectioned(help0, "Description:"@, help::DAEMON_STATUS_DESCRIPTION@);
    lemma_section_keeps(help1, "Options:"@, help::PROFILE_OPTIONS@);
    let help2 = help::sectioned(help1, "Options:"@, help::PROFILE_OPTIONS@);
    reveal_strlit("daemon");
    reveal_strlit("status");
    assert("chrome-devtools daemon status"@ =~= "chrome-devtools "@ + "daemon"@ + seq![' '] + "status"@);
}


proof fn lemma_daemon_stop_help()
    ensures
        help::daemon_stop_help().len() > 2,
        help::daemon_stop_help()[0] == "chrome-devtools "@ + "daemon"@ + seq![' '] + "stop"@,
        help::daemon_stop_help()[2] == "Usage:"@,
{
    reveal_strlit("chrome-devtools ");
    reveal_strlit("chrome-devtools daemon stop");
    lemma_first_section("chrome-devtools daemon stop"@, "Usage:"@, help::DAEMON_STOP_USAGE@);
    let help0 = help::sectioned(help::titled("chrome-devtools daemon stop"@), "Usage:"@, help::DAEMON_STOP_USAGE@);
    lemma_section_keeps(help0, "Description:"@, help::DAEMON_STOP_DESCRIPTION@);
    let help1 = help::sectioned(help0, "Description:"@, help::DAEMON_STOP_DESCRIPTION@);
    lemma_section_keeps(help1, "Options:"@, help::DAEMON_STOP_OPTIONS@);
    let help2 = help::sectioned(help1, "Options:"@, help::DAEMON_STOP_OPTIONS@);
    reveal_strlit("daemon");
    reveal_strlit("stop");
    assert("chrome-devtools daemon stop"@ =~= "chrome-devtools "@ + "daemon"@ + seq![' '] + "stop"@);
}


proof fn lemma_mcp_help()
    ensures
        help::mcp_help().len() > 2,
        help::mcp_help()[0] == "chrome-devtools "@ + "mcp"@,
        help::mcp_help()[2] == "Usage:"@,
{
    reveal_strlit("chrome-devtools ");
    reveal_strlit("chrome-devtools mcp");
    lemma_first_section("chrome-devtools mcp"@, "Usage:"@, help::MCP_USAGE@);
    let help0 = help::sectioned(help::titled("chrome-devtools mcp"@), "Usage:"@, help::MCP_USAGE@);
    lemma_section_keeps(help0, "Commands:"@, help::MCP_COMMANDS@);
    let help1 = help::sectioned(help0, "Commands:"@, help::MCP_COMMANDS@);
    lemma_section_keeps(help1, "Options:"@, help::MCP_OPTIONS@);
    let help2 = help::sectioned(help1, "Options:"@, help::MCP_OPTIONS@);
    lemma_section_keeps(help2, "Examples:"@, help::MCP_EXAMPLES@);
    let help3 = help::sectioned(help2, "Examples:"@, help::MCP_EXAMPLES@);
    lemma_section_keeps(help3, "Config:"@, help::MCP_CONFIG@);
    let help4 = help::sectioned(help3, "Config:"@, help::MCP_CONFIG@);
    lemma_section_keeps(help4, "Sessions:"@, help::MCP_SESSIONS@);
    let help5 = help::sectioned(help4, "Sessions:"@, help::MCP_SESSIONS@);
    lemma_section_keeps(help5, "Daemon:"@, help::MCP_DAEMON@);
    let help6 = help::sectioned(help5, "Daemon:"@, help::MCP_DAEMON@);
    lemma_section_keeps(help6, "Notes:"@, help::MCP_NOTES@);
    let help7 = help::sectioned(help6, "Notes:"@, help::MCP_NOTES@);
    reveal_strlit("mcp");
    assert("chrome-devtools mcp"@ =~= "chrome-devtools "@ + "mcp"@);
}


proof fn lemma_profile_help()
    ensures
        help::profile_help().len() > 2,
        help::profile_help()[0] == "chrome-devtools "@ + "profile"@,
        help::profile_help()[2] == "Usage:"@,
{
    reveal_strlit("chrome-devtools ");
    reveal_strlit("chrome-devtools profile");
    lemma_first_section("chrome-devtools profile"@, "Usage:"@, help::PROFILE_USAGE@);
    let help0 = help::sectioned(help::titled("chrome-devtools profile"@), "Usage:"@, help::PROFILE_USAGE@);
    lemma_section_keeps(help0, "Commands:"@, help::PROFILE_COMMANDS@);
    let help1 = help::sectioned(help0, "Commands:"@, help::PROFILE_COMMANDS@);
    lemma_section_keeps(help1, "Options:"@, help::HELP_OPTION@);
    let help2 = help::sectioned(help1, "Options:"@, help::HELP_OPTION@);
    reveal_strlit("profile");
    assert("chrome-devtools profile"@ =~= "chrome-devtools "@ + "profile"@);
}


proof fn lemma_daemon_help()
    ensures
        help::daemon_help().len() > 2,
        help::daemon_help()[0] == "chrome-devtools "@ + "daemon"@,
        help::daemon_help()[2] == "Usage:"@,
{
    reveal_strlit("chrome-devtools ");
    reveal_strlit("chrome-devtools daemon");
    lemma_first_section("chrome-devtools daemon"@, "Usage:"@, help::DAEMON_USAGE@);
    let help0 = help::sectioned(help::titled("chrome-devtools daemon"@), "Usage:"@, help::DAEMON_USAGE@);
    lemma_section_keeps(help0, "Commands:"@, help::DAEMON_COMMANDS@);
    let help1 = help::sectioned(help0, "Commands:"@, help::DAEMON_COMMANDS@);
    lemma_section_keeps(help1, "Options:"@, help::HELP_OPTION@);
    let help2 = help::sectioned(help1, "Options:"@, help::HELP_OPTION@);
    lemma_section_keeps(help2, "Notes:"@, help::DAEMON_NOTES@);
    let help3 = help::sectioned(help2, "Notes:"@, help::DAEMON_NOTES@);
    reveal_strlit("daemon");
    assert("chrome-devtools daemon"@ =~= "chrome-devtools "@ + "daemon"@);
}


proof fn lemma_session_help()
    ensures
        help::session_help().len() > 2,
        help::session_help()[0] == "chrome-devtools "@ + "session"@,
        help::session_help()[2] == "Usage:"@,
{
    reveal_strlit("chrome-devtools ");
    reveal_strlit("chrome-devtools session");
    lemma_first_section("chrome-devtools session"@, "Usage:"@, help::SESSION_USAGE@);
    let help0 = help::sectioned(help::titled("chrome-devtools session"@), "Usage:"@, help::SESSION_USAGE@);
    lemma_section_keeps(help0, "Commands:"@, help::SESSION_COMMANDS@);
    let help1 = help::sectioned(help0, "Commands:"@, help::SESSION_COMMANDS@);
    lemma_section_keeps(help1, "Options:"@, help::HELP_OPTION@);
    let help2 = help::sectioned(help1, "Options:"@, help::HELP_OPTION@);
    lemma_section_keeps(help2, "Notes:"@, help::SESSION_NOTES@);
    let help3 = help::sectioned(help2, "Notes:"@, help::SESSION_NOTES@);
    reveal_strlit("session");
    assert("chrome-devtools session"@ =~= "chrome-devtools "@ + "session"@);
}

/// Global flags with their values.
pub open spec fn flag_pairs(args: Seq<Seq<char>>) -> bool {
    &&& args.len() % 2 == 0
    &&& forall|i: int|
        0 <= i < args.len() && i % 2 == 0 ==> (#[trigger] args[i] == "--profile"@ || args[i]
            == "--session"@)
}

proof fn lemma_flag_pairs(
    positional: Seq<Seq<char>>,
    rest: Seq<Seq<char>>,
    front: Seq<Seq<char>>,
    flags: Seq<Seq<char>>,
    more: Seq<Seq<char>>,
    i: int,
)
    requires
        positional.len() < 2,
        flag_pairs(flags),
        0 <= i <= flags.len(),
        i % 2 == 0,
    ensures
        cli::split_from(positional, rest, front + flags + more, front.len() + i) == cli::split_from(
            positional,
            rest + flags.skip(i),
            front + flags + more,
            (front.len() + flags.len()) as int,
        ),
    decreases flags.len() - i,
{
    let all = front + flags + more;
    let n = front.len() as int;
    if i < flags.len() {
        assert(i + 1 < flags.len());
        assert(all[n + i] == flags[i] && all[n + i + 1] == flags[i + 1]);
        assert(cli::is_global(flags[i]));
        let next = rest.push(flags[i]).push(flags[i + 1]);
        lemma_flag_pairs(positional, next, front, flags, more, i + 2);
        assert(next + flags.skip(i + 2) =~= rest + flags.skip(i));
    } else {
        assert(rest + flags.skip(i) =~= rest);
    }
}

/// Global flags may stand before the words of a command, between them and behind them, as
/// many as there are: they are its arguments, in order.
pub proof fn flags_may_stand_anywhere(
    first: Seq<Seq<char>>,
    object: Seq<char>,
    second: Seq<Seq<char>>,
    action: Seq<char>,
    rest: Seq<Seq<char>>,
)
    requires
        flag_pairs(first),
        flag_pairs(second),
        object != "--profile"@,
        object != "--session"@,
        action != "--profile"@,
        action != "--session"@,
    ensures
        cli::split_args(first + seq![object] + second + seq![action] + rest) == (
            seq![object, action],
            first + second + rest,
        ),
{
    let none = Seq::<Seq<char>>::empty();
    let all = first + seq![object] + second + seq![action] + rest;
    let a = first.len() as int;
    let b = second.len() as int;
    let tail = seq![object] + second + seq![action] + rest;
    assert(all =~= none + first + tail);
    lemma_flag_pairs(none, none, none, first, tail, 0);
    assert(none + first.skip(0) =~= first);
    assert(all[a] == object);
    let one = none.push(object);
    assert(cli::split_from(none, first, all, a) == cli::split_from(one, first, all, a + 1));
    let front = first + seq![object];
    let back = seq![action] + rest;
    assert(all =~= front + second + back);
    lemma_flag_pairs(one, first, front, second, back, 0);
    assert(first + second.skip(0) =~= first + second);
    assert(all[a + 1 + b] == action);
    let two = one.push(action);
    assert(cli::split_from(one, first + second, all, a + 1 + b) == cli::split_from(
        two,
        first + second,
        all,
        a + 2 + b,
    ));
    lemma_rest(two, first + second, all, a + 2 + b);
    assert(all.skip(a + 2 + b) =~= rest);
    assert(two =~= seq![object, action]);
}

} // verus!
