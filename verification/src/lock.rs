//! The lock that keeps two MCP servers off the same profile.
use crate::config;
use crate::config::{join_path, Profile};
use crate::text;
use crate::text::{chars_of, joined, joined3, lines, number_text, parse_number, strip_prefix, trim};
use vstd::prelude::*;

verus! {

/// Whether a character may stand in the name of a file.
pub open spec fn safe_char(c: char) -> bool {
    'a' <= c <= 'z' || 'A' <= c <= 'Z' || '0' <= c <= '9' || c == '-' || c == '_'
}

/// A name with underscores in the place of what may not stand in the name of a file.
pub open spec fn safe_name(name: Seq<char>) -> Seq<char> {
    name.map_values(
        |c: char|
            if safe_char(c) {
                c
            } else {
                '_'
            },
    )
}

/// A name with underscores in the place of what may not stand in the name of a file.
pub fn safe_lock_name(name: &str) -> (r: String)
    ensures
        r@ == safe_name(name@),
{
    let chars = chars_of(name);
    let mut out = String::new();
    let mut i: usize = 0;
    while i < chars.len()
        invariant
            i <= chars.len(),
            chars@ == name@,
            out@ =~= safe_name(name@).take(i as int),
        decreases chars.len() - i,
    {
        let c = chars[i];
        if ('a' <= c && c <= 'z') || ('A' <= c && c <= 'Z') || ('0' <= c && c <= '9') || c == '-'
            || c == '_' {
            out.push(c);
        } else {
            out.push('_');
        }
        i = i + 1;
    }
    assert(safe_name(name@).take(i as int) =~= safe_name(name@));
    out
}

/// The number in a line that tells a process.
pub open spec fn line_pid(line: Seq<char>) -> Option<u32> {
    match text::after(line, "pid="@) {
        Some(value) => match text::parsed(text::trimmed(value), u32::MAX as nat) {
            Some(pid) => Some(pid as u32),
            None => None,
        },
        None => None,
    }
}

/// The number of the first line that tells a process.
pub open spec fn first_pid(all: Seq<Seq<char>>) -> Option<u32>
    decreases all.len(),
{
    if all.len() == 0 {
        None
    } else {
        match line_pid(all[0]) {
            Some(pid) => Some(pid),
            None => first_pid(all.skip(1)),
        }
    }
}

/// The process that holds a lock.
pub fn parse_lock_pid(content: &str) -> (r: Option<u32>)
    ensures
        r == first_pid(text::line_list(content@)),
{
    let all = lines(content);
    let ghost views = text::texts(all@);
    let mut i: usize = 0;
    assert(views.skip(0) =~= views);
    while i < all.len()
        invariant
            i <= all.len(),
            views == text::texts(all@),
            views == text::line_list(content@),
            first_pid(views) == first_pid(views.skip(i as int)),
        decreases all.len() - i,
    {
        assert(views.skip(i as int).skip(1) =~= views.skip(i + 1));
        assert(views.skip(i as int)[0] == all@[i as int]@);
        match strip_prefix(all[i].as_str(), "pid=") {
            Some(value) => match parse_number(trim(value.as_str()).as_str(), u32::MAX as u64) {
                Some(pid) => {
                    return Some(pid as u32);
                },
                None => {},
            },
            None => {},
        }
        i = i + 1;
    }
    None
}

/// What a lock file holds.
pub open spec fn lock_text(pid: nat, name: Seq<char>) -> Seq<char> {
    "pid="@ + text::decimal(pid) + "\n"@ + "profile="@ + name + "\n"@
}

/// What a lock file holds.
pub fn lock_content(pid: u32, profile: &Profile) -> (r: String)
    ensures
        r@ == lock_text(pid as nat, profile@.name),
{
    let mut out = joined3("pid=", number_text(pid as u128).as_str(), "\n");
    out.append("profile=");
    out.append(profile.name.as_str());
    out.append("\n");
    out
}

/// Where the locks are.
pub open spec fn locks_dir(home: Option<Seq<char>>) -> Result<Seq<char>, Seq<char>> {
    match config::home_path(home, config::CACHE_RELATIVE_PATH@) {
        Ok(dir) => Ok(config::path_under(dir, "locks"@)),
        Err(message) => Err(message),
    }
}

/// Where the locks are.
pub fn lock_dir(home: Option<&str>) -> (r: Result<String, String>)
    ensures
        text::result_text(r) == locks_dir(text::opt_str(home)),
{
    match config::cache_dir(home) {
        Ok(dir) => Ok(join_path(dir.as_str(), "locks")),
        Err(message) => Err(message),
    }
}

/// The lock of a profile in the directory of the locks.
pub fn lock_path(dir: &str, profile: &Profile) -> (r: String)
    ensures
        r@ == config::path_under(dir@, safe_name(profile@.name) + ".lock"@),
{
    join_path(dir, joined(safe_lock_name(profile.name.as_str()).as_str(), ".lock").as_str())
}

/// Whether a lock is left over: the process that it names is gone. A lock that names no
/// process stays.
pub fn remove_stale_lock(pid: Option<u32>, alive: bool) -> (r: bool)
    ensures
        r == (pid is Some && !alive),
{
    match pid {
        Some(_) => !alive,
        None => false,
    }
}

/// What trying to make a lock file came to.
pub enum LockEvent {
    /// The file was made.
    Created,
    /// There is one; `removed` if it was left over and is gone now.
    Taken { removed: bool },
    /// It could not be made.
    Failed(String),
}

/// What is to be done next for a lock.
pub enum LockStep {
    /// The lock is held.
    Acquired,
    /// Try again at once.
    Retry,
    /// Try again a little later.
    Wait,
    /// Give up.
    Fail(String),
}

/// What is to be done next for a lock.
pub enum LockStepView {
    Acquired,
    Retry,
    Wait,
    Fail(Seq<char>),
}

impl View for LockStep {
    type V = LockStepView;

    open spec fn view(&self) -> LockStepView {
        match self {
            LockStep::Acquired => LockStepView::Acquired,
            LockStep::Retry => LockStepView::Retry,
            LockStep::Wait => LockStepView::Wait,
            LockStep::Fail(message) => LockStepView::Fail(message@),
        }
    }
}

/// What is to be done next for a lock that was waited for so long already.
pub open spec fn locking(
    name: Seq<char>,
    path: Seq<char>,
    event: LockEvent,
    waited: nat,
    timeout: nat,
) -> LockStepView {
    match event {
        LockEvent::Created => LockStepView::Acquired,
        LockEvent::Taken { removed } => if removed {
            LockStepView::Retry
        } else if waited >= timeout {
            LockStepView::Fail(
                "profile "@ + name + " is locked by another chrome-devtools MCP session: "@ + path,
            )
        } else {
            LockStepView::Wait
        },
        LockEvent::Failed(error) => LockStepView::Fail(
            "failed to create "@ + path + ": "@ + error@,
        ),
    }
}

/// What is to be done next for a lock that was waited for so long already.
pub fn acquire_profile_lock(
    profile: &Profile,
    path: &str,
    event: LockEvent,
    waited: u128,
    timeout: u128,
) -> (r: LockStep)
    ensures
        r@ == locking(profile@.name, path@, event, waited as nat, timeout as nat),
{
    match event {
        LockEvent::Created => LockStep::Acquired,
        LockEvent::Taken { removed } => {
            if removed {
                LockStep::Retry
            } else if waited >= timeout {
                let mut message = joined3(
                    "profile ",
                    profile.name.as_str(),
                    " is locked by another chrome-devtools MCP session: ",
                );
                message.append(path);
                LockStep::Fail(message)
            } else {
                LockStep::Wait
            }
        },
        LockEvent::Failed(error) => {
            let mut message = joined3("failed to create ", path, ": ");
            message.append(error.as_str());
            LockStep::Fail(message)
        },
    }
}

/// The file in which the system tells of a process while it runs.
pub fn process_path(pid: u32) -> (r: String)
    ensures
        r@ == "/proc/"@ + text::decimal(pid as nat),
{
    joined("/proc/", number_text(pid as u128).as_str())
}

/// The process that made a lock is the one that the lock names.
pub proof fn locks_name_their_process(pid: u32, name: Seq<char>)
    ensures
        first_pid(text::line_list(lock_text(pid as nat, name))) == Some(pid),
{
    let digits = text::decimal(pid as nat);
    let first = "pid="@ + digits;
    let rest = "profile="@ + name + "\n"@;
    reveal_strlit("\n");
    reveal_strlit("pid=");
    assert(lock_text(pid as nat, name) =~= first.push('\n') + rest);
    text::decimal_denotes(pid as nat);
    assert forall|i: int| 0 <= i < first.len() implies first[i] != '\n' && first[i] != '\r' by {
        if i >= 4 {
            assert(text::is_digit(digits[i - 4]));
        }
    }
    text::lemma_first_line(first, rest);
    assert(text::without_cr(first) == first);
    assert(text::after(first, "pid="@) == Some(digits)) by {
        assert(first.skip(4) =~= digits);
        assert(text::begins(first, "pid="@)) by {
            assert(first.subrange(0, 4) =~= "pid="@);
        }
    }
    text::lemma_digits_are_trimmed(digits);
    text::printing_and_parsing_agree(pid as nat, u32::MAX as nat);
}

/// What cannot stand in the name of a file is replaced, so no name leads out of its
/// directory, and names that are fine stay as they are.
pub proof fn safe_names_are_safe(name: Seq<char>)
    ensures
        forall|i: int| 0 <= i < safe_name(name).len() ==> safe_char(#[trigger] safe_name(name)[i]),
        (forall|i: int| 0 <= i < name.len() ==> safe_char(#[trigger] name[i])) ==> safe_name(name)
            == name,
        safe_name(name).len() == name.len(),
{
    if forall|i: int| 0 <= i < name.len() ==> safe_char(#[trigger] name[i]) {
        assert(safe_name(name) =~= name);
    }
}

} // verus!
