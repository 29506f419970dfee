//! The configured browser profiles.
use crate::text;
use crate::text::{
    chars_of, joined, joined3, lines, number_text, same, slice, split_once, starts_with, strip_prefix,
    trim,
};
use vstd::prelude::*;

verus! {

/// Where the configuration is, under the home directory.
pub const CONFIG_RELATIVE_PATH: &'static str = ".config/chrome-devtools/config.toml";

/// Where files of running daemons are, under the home directory.
pub const CACHE_RELATIVE_PATH: &'static str = ".cache/chrome-devtools";

/// The profile of a configuration that was made by itself.
pub const DEFAULT_PROFILE_NAME: &'static str = "default";

/// The browser's directory of that profile.
pub const DEFAULT_PROFILE_USER_DATA_DIR: &'static str =
    "~/.config/chrome-devtools/profiles/default";

/// Where the browser's directories are unless a profile says otherwise.
pub const PROFILE_USER_DATA_DIR_PREFIX: &'static str = "~/.config/chrome-devtools/profiles";

/// The configured profiles.
#[derive(Clone, Debug)]
pub struct Config {
    pub profiles: Vec<Profile>,
}

/// A browser profile.
#[derive(Clone, Debug)]
pub struct Profile {
    pub name: String,
    pub user_data_dir: String,
}

/// A profile that is being read.
pub struct ProfileBuilder {
    pub name: Option<String>,
    pub user_data_dir: Option<String>,
}

/// A browser profile.
pub struct ProfileView {
    pub name: Seq<char>,
    pub dir: Seq<char>,
}

/// A profile that is being read.
pub struct BuilderView {
    pub name: Option<Seq<char>>,
    pub dir: Option<Seq<char>>,
}

impl View for Profile {
    type V = ProfileView;

    open spec fn view(&self) -> ProfileView {
        ProfileView { name: self.name@, dir: self.user_data_dir@ }
    }
}

impl View for ProfileBuilder {
    type V = BuilderView;

    open spec fn view(&self) -> BuilderView {
        BuilderView {
            name: text::opt_text(self.name),
            dir: text::opt_text(self.user_data_dir),
        }
    }
}

/// The profiles of a list.
pub open spec fn profile_views(profiles: Seq<Profile>) -> Seq<ProfileView> {
    profiles.map_values(|p: Profile| p@)
}

/// The builder, if there is one.
pub open spec fn builder_view(b: Option<ProfileBuilder>) -> Option<BuilderView> {
    match b {
        Some(builder) => Some(builder@),
        None => None,
    }
}

impl View for Config {
    type V = Seq<ProfileView>;

    open spec fn view(&self) -> Seq<ProfileView> {
        profile_views(self.profiles@)
    }
}

impl Profile {
    /// A copy of the profile.
    pub fn copy(&self) -> (r: Profile)
        ensures
            r@ == self@,
    {
        Profile { name: self.name.clone(), user_data_dir: self.user_data_dir.clone() }
    }
}

/// The configuration that is written where there is none.
pub open spec fn default_config() -> Seq<char> {
    "[[profiles]]\nname = \""@ + DEFAULT_PROFILE_NAME@ + "\"\n"@
}

/// The configuration that is written where there is none.
pub fn default_config_content() -> (r: String)
    ensures
        r@ == default_config(),
{
    joined3("[[profiles]]\nname = \"", DEFAULT_PROFILE_NAME, "\"\n")
}

/// The browser's directory of a profile that does not name one.
pub open spec fn default_dir(name: Seq<char>) -> Seq<char> {
    PROFILE_USER_DATA_DIR_PREFIX@ + "/"@ + name
}

/// The browser's directory of a profile that does not name one.
pub fn default_user_data_dir_for_profile(name: &str) -> (r: String)
    ensures
        r@ == default_dir(name@),
{
    joined3(PROFILE_USER_DATA_DIR_PREFIX, "/", name)
}

/// Where in the file something is.
pub open spec fn at_line(number: nat) -> Seq<char> {
    "line "@ + text::decimal(number)
}

/// A message about a line.
fn line_message(number: u128, message: &str) -> (r: String)
    ensures
        r@ == at_line(number as nat) + message@,
{
    joined3("line ", number_text(number).as_str(), message)
}

/// What an escaped character stands for.
pub open spec fn escape(c: char) -> Option<char> {
    if c == '\\' {
        Some('\\')
    } else if c == '"' {
        Some('"')
    } else if c == 'n' {
        Some('\n')
    } else if c == 'r' {
        Some('\r')
    } else if c == 't' {
        Some('\t')
    } else {
        None
    }
}

fn escaped_char(c: char) -> (r: Option<char>)
    ensures
        r == escape(c),
{
    if c == '\\' {
        Some('\\')
    } else if c == '"' {
        Some('"')
    } else if c == 'n' {
        Some('\n')
    } else if c == 'r' {
        Some('\r')
    } else if c == 't' {
        Some('\t')
    } else {
        None
    }
}

/// `done`, and after it what the text from `i` on stands for; else what is wrong with it.
pub open spec fn unescaped(done: Seq<char>, s: Seq<char>, i: int) -> Result<Seq<char>, Seq<char>>
    decreases s.len() - i,
{
    if i >= s.len() {
        Ok(done)
    } else if s[i] != '\\' {
        unescaped(done.push(s[i]), s, i + 1)
    } else if i + 1 >= s.len() {
        Err(": dangling escape in string"@)
    } else {
        match escape(s[i + 1]) {
            Some(c) => unescaped(done.push(c), s, i + 2),
            None => Err(": unsupported escape: \\"@.push(s[i + 1])),
        }
    }
}

/// What a quoted string stands for.
pub open spec fn toml_string(value: Seq<char>, number: nat) -> Result<Seq<char>, Seq<char>> {
    if value.len() >= 2 && value[0] == '"' && value.last() == '"' {
        match unescaped(Seq::empty(), value.subrange(1, value.len() - 1), 0) {
            Ok(s) => Ok(s),
            Err(message) => Err(at_line(number) + message),
        }
    } else {
        Err(at_line(number) + ": expected quoted string"@)
    }
}

/// What a quoted string stands for.
pub fn parse_toml_string(value: &str, line_number: u128) -> (r: Result<String, String>)
    ensures
        text::result_text(r) == toml_string(value@, line_number as nat),
{
    let quoted = chars_of(value);
    if quoted.len() < 2 || quoted[0] != '"' || quoted[quoted.len() - 1] != '"' {
        return Err(line_message(line_number, ": expected quoted string"));
    }
    let inner = slice(&quoted, 1, quoted.len() - 1);
    let chars = chars_of(inner.as_str());
    let ghost s = value@.subrange(1, value@.len() - 1);
    let mut parsed = String::new();
    let mut i: usize = 0;
    assert(parsed@ =~= Seq::empty());
    while i < chars.len()
        invariant
            i <= chars.len(),
            chars@ == s,
            quoted@ == value@,
            quoted.len() >= 2,
            quoted[0] == '"',
            quoted[quoted.len() - 1] == '"',
            s == value@.subrange(1, value@.len() - 1),
            unescaped(Seq::empty(), s, 0) == unescaped(parsed@, s, i as int),
        decreases chars.len() - i,
    {
        if chars[i] != '\\' {
            parsed.push(chars[i]);
            i = i + 1;
            continue;
        }
        if chars.len() - i <= 1 {
            return Err(line_message(line_number, ": dangling escape in string"));
        }
        match escaped_char(chars[i + 1]) {
            Some(c) => parsed.push(c),
            None => {
                let mut message = ": unsupported escape: \\".to_string();
                message.push(chars[i + 1]);
                return Err(line_message(line_number, message.as_str()));
            },
        }
        i = i + 2;
    }
    Ok(parsed)
}

/// Whether a list has a profile of that name.
pub open spec fn has_name(profiles: Seq<ProfileView>, name: Seq<char>) -> bool {
    exists|i: int| 0 <= i < profiles.len() && (#[trigger] profiles[i]).name == name
}

/// The profiles with one more that was read, if there was one.
pub open spec fn pushed(
    profiles: Seq<ProfileView>,
    builder: Option<BuilderView>,
    number: nat,
) -> Result<Seq<ProfileView>, Seq<char>> {
    match builder {
        None => Ok(profiles),
        Some(b) => match b.name {
            None => Err(at_line(number) + ": profile is missing name"@),
            Some(name) => if has_name(profiles, name) {
                Err("duplicate profile name: "@ + name)
            } else {
                Ok(
                    profiles.push(
                        ProfileView {
                            name,
                            dir: match b.dir {
                                Some(dir) => dir,
                                None => default_dir(name),
                            },
                        },
                    ),
                )
            },
        },
    }
}

/// Whether a list has a profile of that name.
fn is_named(profiles: &Vec<Profile>, name: &str) -> (r: bool)
    ensures
        r == has_name(profile_views(profiles@), name@),
{
    let ghost views = profile_views(profiles@);
    let mut i: usize = 0;
    while i < profiles.len()
        invariant
            i <= profiles.len(),
            views == profile_views(profiles@),
            forall|j: int| 0 <= j < i ==> (#[trigger] views[j]).name != name@,
        decreases profiles.len() - i,
    {
        if same(profiles[i].name.as_str(), name) {
            assert(views[i as int].name == name@);
            return true;
        }
        i = i + 1;
    }
    false
}

/// Adds the profile that was read, if there is one.
pub fn push_profile(
    profiles: &mut Vec<Profile>,
    builder: Option<ProfileBuilder>,
    line_number: u128,
) -> (r: Result<(), String>)
    ensures
        match pushed(profile_views(old(profiles)@), builder_view(builder), line_number as nat) {
            Ok(after) => r is Ok && profile_views(final(profiles)@) == after,
            Err(message) => r is Err && r->Err_0@ == message && final(profiles)@ == old(profiles)@,
        },
{
    let builder = match builder {
        Some(builder) => builder,
        None => {
            return Ok(());
        },
    };
    let name = match builder.name {
        Some(name) => name,
        None => {
            return Err(line_message(line_number, ": profile is missing name"));
        },
    };
    let user_data_dir = match builder.user_data_dir {
        Some(dir) => dir,
        None => default_user_data_dir_for_profile(name.as_str()),
    };
    if is_named(profiles, name.as_str()) {
        return Err(joined("duplicate profile name: ", name.as_str()));
    }
    let ghost before = profiles@;
    let profile = Profile { name, user_data_dir };
    profiles.push(profile);
    assert(profile_views(profiles@) =~= profile_views(before).push(profile@));
    Ok(())
}

/// A configuration that is being read: its profiles, the one at hand, the warnings, and
/// the error that ended it.
pub struct ReadView {
    pub profiles: Seq<ProfileView>,
    pub current: Option<BuilderView>,
    pub warnings: Seq<Seq<char>>,
    pub error: Option<Seq<char>>,
}

/// The warning that a line holds a key that no longer means anything.
pub open spec fn port_warning(number: nat) -> Seq<char> {
    "warning: "@ + at_line(number)
        + ": 'port' is deprecated and ignored; the daemon now picks a free port automatically"@
}

/// What a field of a profile does.
pub open spec fn field_read(
    st: ReadView,
    b: BuilderView,
    key: Seq<char>,
    value: Seq<char>,
    number: nat,
) -> ReadView {
    if key == "name"@ {
        match toml_string(value, number) {
            Ok(s) => ReadView { current: Some(BuilderView { name: Some(s), ..b }), ..st },
            Err(message) => ReadView { error: Some(message), ..st },
        }
    } else if key == "port"@ {
        ReadView { warnings: st.warnings.push(port_warning(number)), ..st }
    } else if key == "user_data_dir"@ {
        match toml_string(value, number) {
            Ok(s) => ReadView { current: Some(BuilderView { dir: Some(s), ..b }), ..st },
            Err(message) => ReadView { error: Some(message), ..st },
        }
    } else {
        ReadView { error: Some(at_line(number) + ": unknown profile key: "@ + key), ..st }
    }
}

/// What a line does.
pub open spec fn line_read(st: ReadView, raw: Seq<char>, number: nat) -> ReadView {
    let line = text::trimmed(raw);
    if st.error is Some || line.len() == 0 || text::begins(line, "#"@) {
        st
    } else if line == "[[profiles]]"@ {
        match pushed(st.profiles, st.current, number) {
            Ok(profiles) => ReadView {
                profiles,
                current: Some(BuilderView { name: None, dir: None }),
                ..st
            },
            Err(message) => ReadView { error: Some(message), ..st },
        }
    } else {
        match text::cut(line, "="@) {
            None => ReadView { error: Some(at_line(number) + ": expected key = value"@), ..st },
            Some((key, value)) => match st.current {
                None => ReadView {
                    error: Some(
                        at_line(number) + ": profile fields must be inside [[profiles]]"@,
                    ),
                    ..st
                },
                Some(b) => field_read(
                    st,
                    b,
                    text::trimmed(key),
                    text::trimmed(value),
                    number,
                ),
            },
        }
    }
}

/// What the first `n` lines do.
pub open spec fn lines_read(all: Seq<Seq<char>>, n: nat) -> ReadView
    decreases n,
{
    if n == 0 {
        ReadView { profiles: Seq::empty(), current: None, warnings: Seq::empty(), error: None }
    } else {
        line_read(lines_read(all, (n - 1) as nat), all[n - 1], n)
    }
}

/// The profiles of a configuration, or what is wrong with it.
pub open spec fn config_read(content: Seq<char>) -> Result<Seq<ProfileView>, Seq<char>> {
    let all = text::line_list(content);
    let st = lines_read(all, all.len());
    match st.error {
        Some(message) => Err(message),
        None => match pushed(st.profiles, st.current, all.len() + 1) {
            Err(message) => Err(message),
            Ok(profiles) => if profiles.len() == 0 {
                Err("config must define at least one [[profiles]] entry"@)
            } else {
                Ok(profiles)
            },
        },
    }
}

/// The warnings about a configuration.
pub open spec fn config_warnings(content: Seq<char>) -> Seq<Seq<char>> {
    let all = text::line_list(content);
    lines_read(all, all.len()).warnings
}

/// Reads a field of a profile into its builder. The warning is the one about a key that
/// no longer means anything.
fn read_field(
    builder: &mut ProfileBuilder,
    key: &str,
    value: &str,
    line_number: u128,
) -> (r: Result<Option<String>, String>)
    ensures
        ({
            let st = ReadView {
                profiles: Seq::empty(),
                current: Some(old(builder)@),
                warnings: Seq::empty(),
                error: None,
            };
            let after = field_read(st, old(builder)@, key@, value@, line_number as nat);
            match r {
                Ok(warning) => after.error is None && after.current == Some(final(builder)@)
                    && text::opt_text(warning) == (if key@ == "port"@ {
                    Some(port_warning(line_number as nat))
                } else {
                    None
                }),
                Err(message) => after.error == Some(message@),
            }
        }),
{
    proof {
        reveal_strlit("name");
        reveal_strlit("port");
        reveal_strlit("user_data_dir");
        assert("name"@[0] == 'n' && "port"@[0] == 'p' && "user_data_dir"@[0] == 'u');
    }
    if same(key, "name") {
        return match parse_toml_string(value, line_number) {
            Ok(s) => {
                builder.name = Some(s);
                Ok(None)
            },
            Err(message) => Err(message),
        };
    }
    if same(key, "port") {
        let warning = joined(
            "warning: ",
            line_message(
                line_number,
                ": 'port' is deprecated and ignored; the daemon now picks a free port automatically",
            ).as_str(),
        );
        assert(warning@ =~= port_warning(line_number as nat));
        return Ok(Some(warning));
    }
    if same(key, "user_data_dir") {
        return match parse_toml_string(value, line_number) {
            Ok(s) => {
                builder.user_data_dir = Some(s);
                Ok(None)
            },
            Err(message) => Err(message),
        };
    }
    let message = joined(": unknown profile key: ", key);
    let whole = line_message(line_number, message.as_str());
    assert(whole@ =~= at_line(line_number as nat) + ": unknown profile key: "@ + key@);
    Err(whole)
}

/// Reads a configuration; what is to be said about it besides goes to `warnings`.
pub fn read_config(content: &str, warnings: &mut Vec<String>) -> (r: Result<Config, String>)
    ensures
        match r {
            Ok(config) => config_read(content@) == Ok::<Seq<ProfileView>, Seq<char>>(config@),
            Err(message) => config_read(content@) == Err::<Seq<ProfileView>, Seq<char>>(message@),
        },
        text::texts(final(warnings)@) == text::texts(old(warnings)@) + config_warnings(content@),
{
    let all = lines(content);
    let ghost views = text::texts(all@);
    let ghost said = text::texts(warnings@);
    let mut profiles: Vec<Profile> = Vec::new();
    let mut current: Option<ProfileBuilder> = None;
    let mut i: usize = 0;
    proof {
        assert(profile_views(profiles@) =~= Seq::empty());
        assert(said + Seq::<Seq<char>>::empty() =~= said);
    }
    while i < all.len()
        invariant
            i <= all.len(),
            views == text::texts(all@),
            views == text::line_list(content@),
            said == text::texts(old(warnings)@),
            lines_read(views, i as nat) == (ReadView {
                profiles: profile_views(profiles@),
                current: builder_view(current),
                warnings: lines_read(views, i as nat).warnings,
                error: None,
            }),
            text::texts(warnings@) == said + lines_read(views, i as nat).warnings,
        decreases all.len() - i,
    {
        let ghost before = lines_read(views, i as nat);
        let ghost noted = warnings@;
        let line_number: u128 = i as u128 + 1;
        assert(views[i as int] == all@[i as int]@);
        assert(lines_read(views, (i + 1) as nat) == line_read(
            before,
            views[i as int],
            (i + 1) as nat,
        ));
        let line = trim(all[i].as_str());
        i = i + 1;
        if line.as_str().unicode_len() == 0 || starts_with(line.as_str(), "#") {
            continue;
        }
        if same(line.as_str(), "[[profiles]]") {
            match push_profile(&mut profiles, current, line_number) {
                Ok(()) => {},
                Err(message) => {
                    proof {
                        lemma_errors_last(views, i as nat, views.len());
                    }
                    return Err(message);
                },
            }
            current = Some(ProfileBuilder { name: None, user_data_dir: None });
            continue;
        }
        let (key, value) = match split_once(line.as_str(), "=") {
            Some(pair) => pair,
            None => {
                proof {
                    lemma_errors_last(views, i as nat, views.len());
                }
                return Err(line_message(line_number, ": expected key = value"));
            },
        };
        let mut builder = match current {
            Some(builder) => builder,
            None => {
                proof {
                    lemma_errors_last(views, i as nat, views.len());
                }
                return Err(
                    line_message(line_number, ": profile fields must be inside [[profiles]]"),
                );
            },
        };
        let key = trim(key.as_str());
        let value = trim(value.as_str());
        proof {
            reveal_strlit("name");
            reveal_strlit("port");
            assert("name"@[0] == 'n' && "port"@[0] == 'p');
        }
        match read_field(&mut builder, key.as_str(), value.as_str(), line_number) {
            Ok(Some(warning)) => {
                warnings.push(warning);
                proof {
                    text::lemma_texts_push(noted, warning);
                    assert(text::texts(warnings@) =~= said + before.warnings.push(warning@));
                }
            },
            Ok(None) => {},
            Err(message) => {
                proof {
                    lemma_errors_last(views, i as nat, views.len());
                }
                return Err(message);
            },
        }
        current = Some(builder);
    }
    match push_profile(&mut profiles, current, all.len() as u128 + 1) {
        Ok(()) => {},
        Err(message) => {
            return Err(message);
        },
    }
    if profiles.len() == 0 {
        return Err("config must define at least one [[profiles]] entry".to_string());
    }
    Ok(Config { profiles })
}

/// Once a line has ended the reading, the lines after it do nothing.
proof fn lemma_errors_last(all: Seq<Seq<char>>, n: nat, m: nat)
    requires
        n <= m,
        lines_read(all, n).error is Some,
    ensures
        lines_read(all, m) == lines_read(all, n),
    decreases m,
{
    if n < m {
        lemma_errors_last(all, n, (m - 1) as nat);
    }
}

/// Reads a configuration.
pub fn parse_config(content: &str) -> (r: Result<Config, String>)
    ensures
        match r {
            Ok(config) => config_read(content@) == Ok::<Seq<ProfileView>, Seq<char>>(config@),
            Err(message) => config_read(content@) == Err::<Seq<ProfileView>, Seq<char>>(message@),
        },
{
    let mut warnings: Vec<String> = Vec::new();
    read_config(content, &mut warnings)
}

/// The first profile of that name.
pub open spec fn profile_named(profiles: Seq<ProfileView>, name: Seq<char>) -> Option<ProfileView>
    decreases profiles.len(),
{
    if profiles.len() == 0 {
        None
    } else if profiles[0].name == name {
        Some(profiles[0])
    } else {
        profile_named(profiles.skip(1), name)
    }
}

/// The names of the profiles, with commas between them.
pub open spec fn names_text(profiles: Seq<ProfileView>) -> Seq<char>
    decreases profiles.len(),
{
    if profiles.len() == 0 {
        ""@
    } else if profiles.len() == 1 {
        profiles[0].name
    } else {
        names_text(profiles.drop_last()) + ", "@ + profiles.last().name
    }
}

/// The message that there is no profile of that name.
pub open spec fn unknown_profile(profiles: Seq<ProfileView>, name: Seq<char>) -> Seq<char> {
    "unknown profile: "@ + name + "; available: "@ + names_text(profiles) + " (defined in ~/"@
        + CONFIG_RELATIVE_PATH@ + ")"@
}

fn names_of(profiles: &Vec<Profile>) -> (r: String)
    ensures
        r@ == names_text(profile_views(profiles@)),
{
    let ghost views = profile_views(profiles@);
    let mut out = "".to_string();
    let mut i: usize = 0;
    assert(views.take(0) =~= Seq::empty());
    while i < profiles.len()
        invariant
            i <= profiles.len(),
            views == profile_views(profiles@),
            out@ == names_text(views.take(i as int)),
        decreases profiles.len() - i,
    {
        assert(views.take(i + 1).drop_last() =~= views.take(i as int));
        assert(views[i as int].name == profiles@[i as int].name@);
        if i > 0 {
            out.append(", ");
            out.append(profiles[i].name.as_str());
        } else {
            out = profiles[i].name.clone();
        }
        i = i + 1;
    }
    assert(views.take(i as int) =~= views);
    out
}

/// The profile of that name.
pub fn find_profile(config: &Config, name: &str) -> (r: Result<Profile, String>)
    ensures
        match r {
            Ok(profile) => profile_named(config@, name@) == Some(profile@),
            Err(message) => profile_named(config@, name@) is None && message@ == unknown_profile(
                config@,
                name@,
            ),
        },
{
    let ghost views = config@;
    let mut i: usize = 0;
    assert(views.skip(0) =~= views);
    while i < config.profiles.len()
        invariant
            i <= config.profiles.len(),
            views == config@,
            profile_named(views, name@) == profile_named(views.skip(i as int), name@),
        decreases config.profiles.len() - i,
    {
        assert(views.skip(i as int).skip(1) =~= views.skip(i + 1));
        assert(views.skip(i as int)[0] == config.profiles@[i as int]@);
        if same(config.profiles[i].name.as_str(), name) {
            return Ok(config.profiles[i].copy());
        }
        i = i + 1;
    }
    let mut message = joined3("unknown profile: ", name, "; available: ");
    message.append(names_of(&config.profiles).as_str());
    message.append(" (defined in ~/");
    message.append(CONFIG_RELATIVE_PATH);
    message.append(")");
    Err(message)
}

/// A path under another one; an absolute path stays as it is.
pub open spec fn path_under(base: Seq<char>, path: Seq<char>) -> Seq<char> {
    if text::begins(path, "/"@) {
        path
    } else if base.len() > 0 && base.last() != '/' {
        base + "/"@ + path
    } else {
        base + path
    }
}

/// A path under another one.
pub fn join_path(base: &str, path: &str) -> (r: String)
    ensures
        r@ == path_under(base@, path@),
{
    if starts_with(path, "/") {
        return path.to_string();
    }
    let length: usize = base.unicode_len();
    if length > 0 && base.get_char(length - 1) != '/' {
        joined3(base, "/", path)
    } else {
        joined(base, path)
    }
}

/// The path under the home directory, where there is one.
pub open spec fn home_path(home: Option<Seq<char>>, path: Seq<char>) -> Result<
    Seq<char>,
    Seq<char>,
> {
    match home {
        Some(home) => Ok(path_under(home, path)),
        None => Err("HOME is not set"@),
    }
}

/// The path under the home directory, where there is one.
pub fn under_home(home: Option<&str>, path: &str) -> (r: Result<String, String>)
    ensures
        text::result_text(r) == home_path(text::opt_str(home), path@),
{
    match home {
        Some(home) => Ok(join_path(home, path)),
        None => Err("HOME is not set".to_string()),
    }
}

/// Where the configuration is.
pub fn config_path(home: Option<&str>) -> (r: Result<String, String>)
    ensures
        text::result_text(r) == home_path(text::opt_str(home), CONFIG_RELATIVE_PATH@),
{
    under_home(home, CONFIG_RELATIVE_PATH)
}

/// Where files of running daemons are.
pub fn cache_dir(home: Option<&str>) -> (r: Result<String, String>)
    ensures
        text::result_text(r) == home_path(text::opt_str(home), CACHE_RELATIVE_PATH@),
{
    under_home(home, CACHE_RELATIVE_PATH)
}

/// A path with the home directory in the place of a leading `~`.
pub open spec fn home_expanded(path: Seq<char>, home: Option<Seq<char>>) -> Result<
    Seq<char>,
    Seq<char>,
> {
    if path == "~"@ {
        match home {
            Some(home) => Ok(home),
            None => Err("HOME is not set"@),
        }
    } else {
        match text::after(path, "~/"@) {
            Some(rest) => home_path(home, rest),
            None => Ok(path),
        }
    }
}

/// A path with the home directory in the place of a leading `~`.
pub fn expand_home(path: &str, home: Option<&str>) -> (r: Result<String, String>)
    ensures
        text::result_text(r) == home_expanded(path@, text::opt_str(home)),
{
    if same(path, "~") {
        return match home {
            Some(home) => Ok(home.to_string()),
            None => Err("HOME is not set".to_string()),
        };
    }
    match strip_prefix(path, "~/") {
        Some(rest) => under_home(home, rest.as_str()),
        None => Ok(path.to_string()),
    }
}

/// A text as it is written between quotation marks.
pub open spec fn with_escapes(s: Seq<char>) -> Seq<char>
    decreases s.len(),
{
    if s.len() == 0 {
        Seq::empty()
    } else {
        let c = s.last();
        with_escapes(s.drop_last()) + (if c == '\\' {
            seq!['\\', '\\']
        } else if c == '"' {
            seq!['\\', '"']
        } else {
            seq![c]
        })
    }
}

/// Every text can be written as a quoted string, and is read back as it is.
pub proof fn quoted_strings_are_read_back(s: Seq<char>, number: nat)
    ensures
        toml_string("\""@ + with_escapes(s) + "\""@, number) == Ok::<Seq<char>, Seq<char>>(s),
{
    reveal_strlit("\"");
    let value = "\""@ + with_escapes(s) + "\""@;
    assert(value.subrange(1, value.len() - 1) =~= with_escapes(s));
    assert(with_escapes(s).subrange(0, with_escapes(s).len() as int) =~= with_escapes(s));
    lemma_unescape_prefix(s, with_escapes(s));
}

/// Reading the beginning of a text that is written with escapes.
proof fn lemma_unescape_prefix(s: Seq<char>, whole: Seq<char>)
    requires
        with_escapes(s).len() <= whole.len(),
        whole.subrange(0, with_escapes(s).len() as int) == with_escapes(s),
    ensures
        unescaped(Seq::empty(), whole, 0) == unescaped(s, whole, with_escapes(s).len() as int),
    decreases s.len(),
{
    if s.len() == 0 {
        assert(s =~= Seq::empty());
    } else {
        let front = s.drop_last();
        let n = with_escapes(front).len() as int;
        let m = with_escapes(s).len() as int;
        assert(whole.subrange(0, n) =~= with_escapes(s).subrange(0, n));
        assert(with_escapes(s).subrange(0, n) =~= with_escapes(front));
        lemma_unescape_prefix(front, whole);
        assert(front.push(s.last()) =~= s);
        assert(whole[n] == with_escapes(s)[n]);
        if m == n + 2 {
            assert(whole[n + 1] == with_escapes(s)[n + 1]);
        }
    }
}

/// Whether no two profiles have the same name.
pub open spec fn distinct_names(profiles: Seq<ProfileView>) -> bool {
    forall|i: int, j: int|
        0 <= i < profiles.len() && 0 <= j < profiles.len() && (#[trigger] profiles[i]).name == (
        #[trigger] profiles[j]).name ==> i == j
}

proof fn lemma_pushed_distinct(
    profiles: Seq<ProfileView>,
    builder: Option<BuilderView>,
    number: nat,
)
    requires
        distinct_names(profiles),
    ensures
        pushed(profiles, builder, number) is Ok ==> distinct_names(
            pushed(profiles, builder, number)->Ok_0,
        ),
{
    if pushed(profiles, builder, number) is Ok && builder is Some {
        let after = pushed(profiles, builder, number)->Ok_0;
        let last = after.len() - 1;
        assert forall|i: int, j: int|
            0 <= i < after.len() && 0 <= j < after.len() && (#[trigger] after[i]).name == (
            #[trigger] after[j]).name implies i == j by {
            if i < last {
                assert(after[i] == profiles[i]);
            }
            if j < last {
                assert(after[j] == profiles[j]);
            }
        }
    }
}

proof fn lemma_read_distinct(all: Seq<Seq<char>>, n: nat)
    ensures
        distinct_names(lines_read(all, n).profiles),
    decreases n,
{
    if n > 0 {
        lemma_read_distinct(all, (n - 1) as nat);
        let st = lines_read(all, (n - 1) as nat);
        lemma_pushed_distinct(st.profiles, st.current, n);
    }
}

/// A configuration that can be read has at least one profile, and no two of the same name.
pub proof fn profiles_are_distinct(content: Seq<char>)
    ensures
        config_read(content) is Ok ==> config_read(content)->Ok_0.len() > 0 && distinct_names(
            config_read(content)->Ok_0,
        ),
{
    let all = text::line_list(content);
    lemma_read_distinct(all, all.len());
    let st = lines_read(all, all.len());
    lemma_pushed_distinct(st.profiles, st.current, all.len() + 1);
}

/// Each profile of a configuration is found under its name.
pub proof fn profiles_are_found(profiles: Seq<ProfileView>, i: int)
    requires
        distinct_names(profiles),
        0 <= i < profiles.len(),
    ensures
        profile_named(profiles, profiles[i].name) == Some(profiles[i]),
    decreases profiles.len(),
{
    if i > 0 {
        let rest = profiles.skip(1);
        assert(profiles[0].name != profiles[i].name);
        assert(rest[i - 1] == profiles[i]);
        assert forall|a: int, b: int|
            0 <= a < rest.len() && 0 <= b < rest.len() && (#[trigger] rest[a]).name == (
            #[trigger] rest[b]).name implies a == b by {
            assert(rest[a] == profiles[a + 1] && rest[b] == profiles[b + 1]);
        }
        profiles_are_found(rest, i - 1);
    }
}

} // verus!
