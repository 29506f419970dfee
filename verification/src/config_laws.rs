//! What holds of configurations.
use crate::config::{BuilderView, ProfileView, ReadView};
use crate::{config, text, text_laws};
use vstd::prelude::*;

verus! {

/// A configuration before its first line.
spec fn unread() -> ReadView {
    ReadView { profiles: Seq::empty(), current: None, warnings: Seq::empty(), error: None }
}

/// What some lines do, the first of which has a number.
spec fn run(st: ReadView, lines: Seq<Seq<char>>, first: nat) -> ReadView
    decreases lines.len(),
{
    if lines.len() == 0 {
        st
    } else {
        config::line_read(
            run(st, lines.drop_last(), first),
            lines.last(),
            (first + lines.len() - 1) as nat,
        )
    }
}

proof fn lemma_run(all: Seq<Seq<char>>, n: nat)
    requires
        n <= all.len(),
    ensures
        config::lines_read(all, n) == run(unread(), all.take(n as int), 1),
    decreases n,
{
    if n > 0 {
        lemma_run(all, (n - 1) as nat);
        assert(all.take(n as int).drop_last() =~= all.take(n - 1));
    }
}

proof fn lemma_run_sum(st: ReadView, a: Seq<Seq<char>>, b: Seq<Seq<char>>, first: nat)
    ensures
        run(st, a + b, first) == run(run(st, a, first), b, first + a.len()),
    decreases b.len(),
{
    if b.len() == 0 {
        assert(a + b =~= a);
    } else {
        lemma_run_sum(st, a, b.drop_last(), first);
        assert((a + b).drop_last() =~= a + b.drop_last());
        assert((a + b).last() == b.last());
    }
}

/// Whether two readings differ in the numbers of lines only.
spec fn akin(x: ReadView, y: ReadView) -> bool {
    &&& x.profiles == y.profiles
    &&& x.current == y.current
    &&& x.error is Some == y.error is Some
}

proof fn lemma_string_number(value: Seq<char>, n: nat, m: nat)
    ensures
        config::toml_string(value, n) is Ok == config::toml_string(value, m) is Ok,
        config::toml_string(value, n) is Ok ==> config::toml_string(value, n)
            == config::toml_string(value, m),
{
}

proof fn lemma_akin_line(x: ReadView, y: ReadView, raw: Seq<char>, n: nat, m: nat)
    requires
        akin(x, y),
    ensures
        akin(config::line_read(x, raw, n), config::line_read(y, raw, m)),
{
    let line = text::trimmed(raw);
    if let Some((key, value)) = text::cut(line, "="@) {
        lemma_string_number(text::trimmed(value), n, m);
    }
}

proof fn lemma_akin_run(x: ReadView, y: ReadView, lines: Seq<Seq<char>>, n: nat, m: nat)
    requires
        akin(x, y),
    ensures
        akin(run(x, lines, n), run(y, lines, m)),
    decreases lines.len(),
{
    if lines.len() > 0 {
        lemma_akin_run(x, y, lines.drop_last(), n, m);
        lemma_akin_line(
            run(x, lines.drop_last(), n),
            run(y, lines.drop_last(), m),
            lines.last(),
            (n + lines.len() - 1) as nat,
            (m + lines.len() - 1) as nat,
        );
    }
}

/// A line that ends the reading ends it for good, and profiles that were read stay.
proof fn lemma_line_goes_on(st: ReadView, raw: Seq<char>, n: nat)
    ensures
        config::line_read(st, raw, n).error is None ==> st.error is None,
        st.profiles.is_prefix_of(config::line_read(st, raw, n).profiles),
{
    assert(st.profiles.take(st.profiles.len() as int) =~= st.profiles);
    let after = config::line_read(st, raw, n);
    assert(after.profiles.take(st.profiles.len() as int) =~= st.profiles);
}

/// The profiles of a reading that is over.
spec fn finished(st: ReadView, number: nat) -> Result<Seq<ProfileView>, Seq<char>> {
    match st.error {
        Some(message) => Err(message),
        None => config::pushed(st.profiles, st.current, number),
    }
}

/// Whether no profile of a list has a name that is in another.
pub open spec fn other_names(a: Seq<ProfileView>, b: Seq<ProfileView>) -> bool {
    forall|i: int, j: int|
        0 <= i < a.len() && 0 <= j < b.len() ==> (#[trigger] a[i]).name != (#[trigger] b[j]).name
}

proof fn lemma_names_sum(a: Seq<ProfileView>, b: Seq<ProfileView>, name: Seq<char>)
    ensures
        config::has_name(a + b, name) == (config::has_name(a, name) || config::has_name(b, name)),
{
    let all = a + b;
    if config::has_name(a, name) {
        let i = choose|i: int| 0 <= i < a.len() && (#[trigger] a[i]).name == name;
        assert(all[i].name == name);
    }
    if config::has_name(b, name) {
        let i = choose|i: int| 0 <= i < b.len() && (#[trigger] b[i]).name == name;
        assert(all[a.len() + i].name == name);
    }
    if config::has_name(all, name) {
        let i = choose|i: int| 0 <= i < all.len() && (#[trigger] all[i]).name == name;
        if i < a.len() {
            assert(a[i].name == name);
        } else {
            assert(b[i - a.len()].name == name);
        }
    }
}

/// Adding a profile behind others does what it does without them.
proof fn lemma_pushed_behind(
    base: Seq<ProfileView>,
    profiles: Seq<ProfileView>,
    builder: Option<BuilderView>,
    n: nat,
    m: nat,
)
    requires
        config::pushed(profiles, builder, n) matches Ok(after) && other_names(base, after),
    ensures
        config::pushed(base + profiles, builder, m) == Ok::<_, Seq<char>>(
            base + config::pushed(profiles, builder, n)->Ok_0,
        ),
{
    let after = config::pushed(profiles, builder, n)->Ok_0;
    if let Some(b) = builder {
        let name = b.name->0;
        lemma_names_sum(base, profiles, name);
        assert(after[after.len() - 1].name == name);
        if config::has_name(base, name) {
            let i = choose|i: int| 0 <= i < base.len() && (#[trigger] base[i]).name == name;
            assert(base[i].name != after[after.len() - 1].name);
        }
        assert((base + profiles).push(after.last()) =~= base + after);
    }
}

proof fn lemma_prefix_names(base: Seq<ProfileView>, a: Seq<ProfileView>, b: Seq<ProfileView>)
    requires
        a.is_prefix_of(b),
        other_names(base, b),
    ensures
        other_names(base, a),
{
    assert forall|i: int, j: int| 0 <= i < base.len() && 0 <= j < a.len() implies (
    #[trigger] base[i]).name != (#[trigger] a[j]).name by {
        assert(a[j] == b[j]);
    }
}

/// Reading lines that begin a profile, behind others.
proof fn lemma_run_behind(
    st: ReadView,
    base: Seq<ProfileView>,
    lines: Seq<Seq<char>>,
    first: nat,
    n: int,
)
    requires
        st.error is None,
        config::pushed(st.profiles, st.current, first) == Ok::<_, Seq<char>>(base),
        1 <= n <= lines.len(),
        text::trimmed(lines[0]) == "[[profiles]]"@,
        run(unread(), lines.take(n), 1).error is None,
        other_names(base, run(unread(), lines.take(n), 1).profiles),
    ensures
        run(st, lines.take(n), first).error is None,
        run(st, lines.take(n), first).profiles == base + run(unread(), lines.take(n), 1).profiles,
        run(st, lines.take(n), first).current == run(unread(), lines.take(n), 1).current,
    decreases n,
{
    let now = lines.take(n);
    let front = lines.take(n - 1);
    assert(now.drop_last() =~= front);
    assert(now.last() == lines[n - 1]);
    reveal_strlit("[[profiles]]");
    reveal_strlit("#");
    if n == 1 {
        assert(front =~= Seq::empty());
        let line = text::trimmed(lines[0]);
        assert(line.len() == 12 && line[0] == '[');
        assert(!text::begins(line, "#"@)) by {
            if text::begins(line, "#"@) {
                assert(line.subrange(0, 1)[0] == '#');
            }
        }
        assert(base + Seq::<ProfileView>::empty() =~= base);
    } else {
        let alone = run(unread(), front, 1);
        let both = run(st, front, first);
        lemma_line_goes_on(alone, lines[n - 1], n as nat);
        lemma_prefix_names(base, alone.profiles, run(unread(), now, 1).profiles);
        lemma_run_behind(st, base, lines, first, n - 1);
        let line = text::trimmed(lines[n - 1]);
        let m = (first + n - 1) as nat;
        if line == "[[profiles]]"@ && line.len() > 0 && !text::begins(line, "#"@) {
            lemma_pushed_behind(base, alone.profiles, alone.current, n as nat, m);
        }
        if let Some((key, value)) = text::cut(line, "="@) {
            lemma_string_number(text::trimmed(value), n as nat, m);
        }
    }
}

/// A profile depends on the lines of its own block only: two configurations of whole lines
/// that can be read alone, the second of which begins with a profile, and whose profiles
/// have different names, can be read one after the other, and give the profiles of both.
pub proof fn profiles_depend_on_their_own_lines(
    a: Seq<char>,
    b: Seq<char>,
    first: Seq<ProfileView>,
    second: Seq<ProfileView>,
)
    requires
        config::config_read(a.push('\n')) == Ok::<_, Seq<char>>(first),
        config::config_read(b) == Ok::<_, Seq<char>>(second),
        text::line_list(b).len() > 0,
        text::trimmed(text::line_list(b)[0]) == "[[profiles]]"@,
        other_names(first, second),
    ensures
        config::config_read(a.push('\n') + b) == Ok::<_, Seq<char>>(first + second),
{
    let x = text::line_list(a.push('\n'));
    let y = text::line_list(b);
    text_laws::lines_follow_each_other(a, b);
    let all = x + y;
    lemma_run(x, x.len());
    lemma_run(y, y.len());
    lemma_run(all, all.len());
    assert(x.take(x.len() as int) =~= x);
    assert(y.take(y.len() as int) =~= y);
    assert(all.take(all.len() as int) =~= all);
    lemma_run_sum(unread(), x, y, 1);
    let st = run(unread(), x, 1);
    let alone = run(unread(), y, 1);
    // The builder of the first part is complete where the second begins.
    assert(config::pushed(st.profiles, st.current, 1 + x.len()) == Ok::<_, Seq<char>>(first));
    assert(alone.error is None);
    assert(alone.profiles.is_prefix_of(second)) by {
        assert(second.take(alone.profiles.len() as int) =~= alone.profiles);
    }
    lemma_prefix_names(first, alone.profiles, second);
    lemma_run_behind(st, first, y, 1 + x.len(), y.len() as int);
    lemma_pushed_behind(first, alone.profiles, alone.current, y.len() + 1, all.len() + 1);
}

/// Whether a line says nothing: it is blank or a comment.
pub open spec fn says_nothing(line: Seq<char>) -> bool {
    text::trimmed(line).len() == 0 || text::trimmed(line)[0] == '#'
}

/// A blank line or a comment between lines changes nothing about the profiles.
pub proof fn comments_change_nothing(
    a: Seq<char>,
    comment: Seq<char>,
    b: Seq<char>,
    profiles: Seq<ProfileView>,
)
    requires
        forall|i: int| 0 <= i < comment.len() ==> #[trigger] comment[i] != '\n',
        says_nothing(text::without_cr(comment)),
    ensures
        config::config_read(a.push('\n') + (comment.push('\n') + b)) == Ok::<_, Seq<char>>(profiles)
            <==> config::config_read(a.push('\n') + b) == Ok::<_, Seq<char>>(profiles),
{
    let x = text::line_list(a.push('\n'));
    let y = text::line_list(b);
    let c = text::without_cr(comment);
    text_laws::lines_follow_each_other(a, comment.push('\n') + b);
    text_laws::lines_follow_each_other(a, b);
    text::lemma_first_line(comment, b);
    let short = x + y;
    let long = x + (seq![c] + y);
    assert(long =~= (x + seq![c]) + y);
    lemma_run(short, short.len());
    lemma_run(long, long.len());
    assert(short.take(short.len() as int) =~= short);
    assert(long.take(long.len() as int) =~= long);
    lemma_run_sum(unread(), x, y, 1);
    lemma_run_sum(unread(), x + seq![c], y, 1);
    lemma_run_sum(unread(), x, seq![c], 1);
    let st = run(unread(), x, 1);
    reveal_strlit("#");
    assert(run(st, seq![c], 1 + x.len()) == st) by {
        assert(seq![c].drop_last() =~= Seq::empty());
        assert(run(st, Seq::empty(), 1 + x.len()) == st);
        let line = text::trimmed(c);
        if line.len() > 0 {
            assert(line.subrange(0, 1) =~= "#"@);
            assert(text::begins(line, "#"@));
        }
    }
    lemma_akin_run(st, st, y, 1 + x.len(), (1 + x.len() + 1) as nat);
    assert((x + seq![c]).len() == x.len() + 1);
}

/// A character as it is written between quotation marks.
pub open spec fn written_char(c: char) -> Seq<char> {
    if c == '\\' {
        seq!['\\', '\\']
    } else if c == '"' {
        seq!['\\', '"']
    } else if c == '\n' {
        seq!['\\', 'n']
    } else if c == '\r' {
        seq!['\\', 'r']
    } else if c == '\t' {
        seq!['\\', 't']
    } else {
        seq![c]
    }
}

/// A text as it is written between quotation marks.
pub open spec fn written_text(s: Seq<char>) -> Seq<char>
    decreases s.len(),
{
    if s.len() == 0 {
        Seq::empty()
    } else {
        written_text(s.drop_last()) + written_char(s.last())
    }
}

/// A text with the quotation marks.
pub open spec fn written_string(s: Seq<char>) -> Seq<char> {
    seq!['"'] + written_text(s) + seq!['"']
}

proof fn lemma_written(s: Seq<char>, whole: Seq<char>)
    requires
        written_text(s).len() <= whole.len(),
        whole.take(written_text(s).len() as int) == written_text(s),
    ensures
        config::unescaped(Seq::empty(), whole, 0) == config::unescaped(
            s,
            whole,
            written_text(s).len() as int,
        ),
    decreases s.len(),
{
    if s.len() == 0 {
        assert(s =~= Seq::empty());
    } else {
        let front = s.drop_last();
        let n = written_text(front).len() as int;
        assert(whole.take(n) =~= written_text(s).take(n));
        assert(written_text(s).take(n) =~= written_text(front));
        lemma_written(front, whole);
        assert(front.push(s.last()) =~= s);
        assert(whole[n] == written_text(s)[n]);
        if written_text(s).len() == n + 2 {
            assert(whole[n + 1] == written_text(s)[n + 1]);
        }
    }
}

/// Every text can be written in quotation marks on one line, and is read back as it is.
pub proof fn written_strings_are_read_back(s: Seq<char>, number: nat)
    ensures
        config::toml_string(written_string(s), number) == Ok::<Seq<char>, Seq<char>>(s),
        forall|i: int|
            0 <= i < written_string(s).len() ==> #[trigger] written_string(s)[i] != '\n',
{
    let value = written_string(s);
    assert(value.subrange(1, value.len() - 1) =~= written_text(s));
    assert(written_text(s).take(written_text(s).len() as int) =~= written_text(s));
    lemma_written(s, written_text(s));
    lemma_one_line(s);
}

proof fn lemma_one_line(s: Seq<char>)
    ensures
        forall|i: int| 0 <= i < written_text(s).len() ==> #[trigger] written_text(s)[i] != '\n',
    decreases s.len(),
{
    if s.len() > 0 {
        lemma_one_line(s.drop_last());
        let front = written_text(s.drop_last());
        assert forall|i: int| 0 <= i < written_text(s).len() implies #[trigger] written_text(s)[i]
            != '\n' by {
            if i < front.len() {
                assert(written_text(s)[i] == front[i]);
            }
        }
    }
}

/// The white space of a line: before the key, around the equals sign, and at the end.
pub struct Pads {
    pub before: Seq<char>,
    pub left: Seq<char>,
    pub right: Seq<char>,
    pub after: Seq<char>,
}

/// White space within a line.
pub open spec fn pad(s: Seq<char>) -> bool {
    text_laws::blank(s) && forall|i: int| 0 <= i < s.len() ==> #[trigger] s[i] != '\n'
}

/// Whether the pads are white space within a line.
pub open spec fn good_pads(p: Pads) -> bool {
    pad(p.before) && pad(p.left) && pad(p.right) && pad(p.after)
}

/// A line that gives a field its value.
pub open spec fn field_line(p: Pads, key: Seq<char>, value: Seq<char>) -> Seq<char> {
    p.before + (key + p.left + seq!['='] + (p.right + written_string(value))) + p.after
}

proof fn lemma_field_line(p: Pads, key: Seq<char>, value: Seq<char>, number: nat)
    requires
        good_pads(p),
        key == "name"@ || key == "user_data_dir"@,
    ensures
        ({
            let line = text::trimmed(text::without_cr(field_line(p, key, value)));
            &&& line == key + p.left + seq!['='] + (p.right + written_string(value))
            &&& text::cut(line, "="@) == Some((key + p.left, p.right + written_string(value)))
            &&& line.len() > 0 && !text::begins(line, "#"@) && line != "[[profiles]]"@
            &&& text::trimmed(key + p.left) == key
            &&& text::trimmed(p.right + written_string(value)) == written_string(value)
        }),
        forall|i: int|
            0 <= i < field_line(p, key, value).len() ==> #[trigger] field_line(p, key, value)[i]
                != '\n',
{
    reveal_strlit("name");
    reveal_strlit("user_data_dir");
    reveal_strlit("=");
    reveal_strlit("#");
    reveal_strlit("[[profiles]]");
    let all = field_line(p, key, value);
    let quoted = written_string(value);
    let core = key + p.left + seq!['='] + (p.right + quoted);
    assert(key.len() > 0 && (key[0] == 'n' || key[0] == 'u'));
    assert(!text::whitespace(key.last())) by {
        assert(key.last() == 'e' || key.last() == 'r');
    }
    assert(core[0] == key[0]);
    assert(core.last() == '"');
    if p.after.len() > 0 && p.after.last() == '\r' {
        let shorter = p.after.drop_last();
        assert(text::without_cr(all) =~= p.before + core + shorter);
        assert(text_laws::blank(shorter)) by {
            assert forall|i: int| 0 <= i < shorter.len() implies text::whitespace(
                #[trigger] shorter[i],
            ) by {
                assert(shorter[i] == p.after[i]);
            }
        }
        text_laws::both_ends_are_trimmed(p.before, core, shorter);
    } else {
        if p.after.len() > 0 {
            assert(all.last() == p.after.last());
        } else {
            assert(all.last() == core.last());
        }
        assert(text::without_cr(all) =~= all);
        text_laws::both_ends_are_trimmed(p.before, core, p.after);
    }
    assert(!text::begins(core, "#"@)) by {
        if text::begins(core, "#"@) {
            assert(core.subrange(0, 1)[0] == '#');
        }
    }
    // The first equals sign is the one behind the key.
    let at = (key + p.left).len() as int;
    text::lemma_first_at(core, "="@, 0);
    assert(text::occurs(core, "="@, at)) by {
        assert(core.subrange(at, at + 1) =~= "="@);
    }
    assert forall|j: int| 0 <= j < at implies !#[trigger] text::occurs(core, "="@, j) by {
        if text::occurs(core, "="@, j) {
            assert(core.subrange(j, j + 1)[0] == '=');
            assert(core[j] == '=');
            if j >= key.len() {
                assert(core[j] == p.left[j - key.len()]);
            }
        }
    }
    assert(core.take(at) =~= key + p.left);
    assert(core.skip(at + 1) =~= p.right + quoted);
    assert(Seq::<char>::empty() + key + p.left =~= key + p.left);
    text_laws::both_ends_are_trimmed(Seq::empty(), key, p.left);
    assert(p.right + quoted + Seq::empty() =~= p.right + quoted);
    text_laws::both_ends_are_trimmed(p.right, quoted, Seq::empty());
    written_strings_are_read_back(value, number);
    assert forall|i: int| 0 <= i < all.len() implies #[trigger] all[i] != '\n' by {
        let a = p.before.len() as int;
        let b = a + key.len();
        let c = b + p.left.len();
        let d = c + 1 + p.right.len();
        let e = d + quoted.len();
        if i < a {
            assert(all[i] == p.before[i]);
        } else if i < b {
            assert(all[i] == key[i - a]);
        } else if i < c {
            assert(all[i] == p.left[i - b]);
        } else if i == c {
            assert(all[i] == '=');
        } else if i < d {
            assert(all[i] == p.right[i - c - 1]);
        } else if i < e {
            assert(all[i] == quoted[i - d]);
        } else {
            assert(all[i] == p.after[i - e]);
        }
    }
}

/// A configuration of one profile: the line that begins it, and those of its fields.
pub open spec fn block(lines: Seq<Seq<char>>) -> Seq<char>
    decreases lines.len(),
{
    if lines.len() == 0 {
        "[[profiles]]"@.push('\n')
    } else {
        block(lines.drop_last()) + lines.last().push('\n')
    }
}

proof fn lemma_block(lines: Seq<Seq<char>>)
    requires
        forall|i: int, j: int|
            0 <= i < lines.len() && 0 <= j < lines[i].len() ==> #[trigger] lines[i][j] != '\n',
    ensures
        block(lines).len() > 0 && block(lines).last() == '\n',
        text::line_list(block(lines)) == seq!["[[profiles]]"@] + Seq::new(
            lines.len(),
            |i: int| text::without_cr(lines[i]),
        ),
    decreases lines.len(),
{
    reveal_strlit("[[profiles]]");
    if lines.len() == 0 {
        let head = "[[profiles]]"@;
        text::lemma_first_line(head, Seq::empty());
        assert(head.push('\n') + Seq::<char>::empty() =~= head.push('\n'));
        assert(text::line_list(Seq::empty()) =~= Seq::empty());
        assert(text::line_list(block(lines)) =~= seq![head] + Seq::new(
            lines.len(),
            |i: int| text::without_cr(lines[i]),
        ));
    } else {
        let front = lines.drop_last();
        assert forall|i: int, j: int|
            0 <= i < front.len() && 0 <= j < front[i].len() implies #[trigger] front[i][j]
            != '\n' by {
            assert(lines[i][j] == front[i][j]);
        }
        lemma_block(front);
        let a = block(front).drop_last();
        assert(a.push('\n') =~= block(front));
        text_laws::lines_follow_each_other(a, lines.last().push('\n'));
        assert forall|j: int| 0 <= j < lines.last().len() implies #[trigger] lines.last()[j]
            != '\n' by {
            assert(lines[lines.len() - 1][j] != '\n');
        }
        text::lemma_first_line(lines.last(), Seq::empty());
        assert(lines.last().push('\n') + Seq::<char>::empty() =~= lines.last().push('\n'));
        assert(text::line_list(Seq::empty()) =~= Seq::empty());
        assert(text::line_list(block(lines)) =~= seq!["[[profiles]]"@] + Seq::new(
            lines.len(),
            |i: int| text::without_cr(lines[i]),
        ));
    }
}

proof fn lemma_header(st: ReadView, number: nat)
    requires
        st.error is None,
        config::pushed(st.profiles, st.current, number) is Ok,
    ensures
        config::line_read(st, "[[profiles]]"@, number) == (ReadView {
            profiles: config::pushed(st.profiles, st.current, number)->Ok_0,
            current: Some(BuilderView { name: None, dir: None }),
            ..st
        }),
{
    reveal_strlit("[[profiles]]");
    reveal_strlit("#");
    let head = "[[profiles]]"@;
    assert(head.len() == 12 && head[0] == '[' && head[11] == ']');
    text_laws::both_ends_are_trimmed(Seq::empty(), head, Seq::empty());
    assert(Seq::<char>::empty() + head + Seq::<char>::empty() =~= head);
    if text::begins(head, "#"@) {
        assert(head.subrange(0, 1)[0] == '#');
    }
}

proof fn lemma_field_read(st: ReadView, p: Pads, key: Seq<char>, value: Seq<char>, number: nat)
    requires
        good_pads(p),
        key == "name"@ || key == "user_data_dir"@,
        st.error is None,
        st.current is Some,
    ensures
        config::line_read(st, text::without_cr(field_line(p, key, value)), number) == (ReadView {
            current: Some(
                if key == "name"@ {
                    BuilderView { name: Some(value), ..st.current->0 }
                } else {
                    BuilderView { dir: Some(value), ..st.current->0 }
                },
            ),
            ..st
        }),
{
    reveal_strlit("name");
    reveal_strlit("user_data_dir");
    reveal_strlit("port");
    assert("name"@.len() == 4 && "user_data_dir"@.len() == 13);
    assert("port"@.len() == 4 && "port"@[0] == 'p' && "name"@[0] == 'n');
    lemma_field_line(p, key, value, number);
    written_strings_are_read_back(value, number);
}

/// A profile has the name and the directory that its lines give it, whichever comes first
/// and whatever white space is around them, and the default directory of its name where
/// they give it none.
pub proof fn profiles_are_what_their_lines_say(
    p: Pads,
    q: Pads,
    name: Seq<char>,
    dir: Seq<char>,
)
    requires
        good_pads(p),
        good_pads(q),
    ensures
        config::config_read(block(seq![field_line(p, "name"@, name)])) == Ok::<_, Seq<char>>(
            seq![ProfileView { name, dir: "~/.config/chrome-devtools/profiles/"@ + name }],
        ),
        config::config_read(
            block(seq![field_line(p, "name"@, name), field_line(q, "user_data_dir"@, dir)]),
        ) == Ok::<_, Seq<char>>(seq![ProfileView { name, dir }]),
        config::config_read(
            block(seq![field_line(q, "user_data_dir"@, dir), field_line(p, "name"@, name)]),
        ) == Ok::<_, Seq<char>>(seq![ProfileView { name, dir }]),
{
    let a = field_line(p, "name"@, name);
    let b = field_line(q, "user_data_dir"@, dir);
    lemma_field_line(p, "name"@, name, 1);
    lemma_field_line(q, "user_data_dir"@, dir, 1);
    let st = config::line_read(unread(), "[[profiles]]"@, 1);
    lemma_header(unread(), 1);
    reveal_strlit("name");
    reveal_strlit("user_data_dir");
    assert("name"@.len() == 4 && "user_data_dir"@.len() == 13);
    lemma_field_read(st, p, "name"@, name, 2);
    lemma_field_read(st, q, "user_data_dir"@, dir, 2);
    let after_name = config::line_read(st, text::without_cr(a), 2);
    let after_dir = config::line_read(st, text::without_cr(b), 2);
    lemma_field_read(after_name, q, "user_data_dir"@, dir, 3);
    lemma_field_read(after_dir, p, "name"@, name, 3);
    lemma_one_line_block(a, after_name);
    lemma_two_line_block(a, b, after_name);
    lemma_two_line_block(b, a, after_dir);
    assert(config::default_dir(name) =~= "~/.config/chrome-devtools/profiles/"@ + name) by {
        reveal_strlit("~/.config/chrome-devtools/profiles");
        reveal_strlit("~/.config/chrome-devtools/profiles/");
        reveal_strlit("/");
    }
    let none = Seq::<ProfileView>::empty();
    assert(!config::has_name(none, name));
    assert(none.push(ProfileView { name, dir }) =~= seq![ProfileView { name, dir }]);
    let plain = ProfileView { name, dir: config::default_dir(name) };
    assert(none.push(plain) =~= seq![plain]);
}

/// Reading a profile of one line.
proof fn lemma_one_line_block(a: Seq<char>, after: ReadView)
    requires
        forall|j: int| 0 <= j < a.len() ==> #[trigger] a[j] != '\n',
        after == config::line_read(
            config::line_read(unread(), "[[profiles]]"@, 1),
            text::without_cr(a),
            2,
        ),
    ensures
        text::line_list(block(seq![a])).len() == 2,
        config::lines_read(text::line_list(block(seq![a])), 2) == after,
{
    lemma_block(seq![a]);
    let all = text::line_list(block(seq![a]));
    assert(all =~= seq!["[[profiles]]"@, text::without_cr(a)]);
    assert(config::lines_read(all, 0) == unread());
    assert(config::lines_read(all, 1) == config::line_read(unread(), "[[profiles]]"@, 1));
}

/// Reading a profile of two lines.
proof fn lemma_two_line_block(a: Seq<char>, b: Seq<char>, first: ReadView)
    requires
        forall|j: int| 0 <= j < a.len() ==> #[trigger] a[j] != '\n',
        forall|j: int| 0 <= j < b.len() ==> #[trigger] b[j] != '\n',
        first == config::line_read(
            config::line_read(unread(), "[[profiles]]"@, 1),
            text::without_cr(a),
            2,
        ),
    ensures
        text::line_list(block(seq![a, b])).len() == 3,
        config::lines_read(text::line_list(block(seq![a, b])), 3) == config::line_read(
            first,
            text::without_cr(b),
            3,
        ),
{
    let lines = seq![a, b];
    assert forall|i: int, j: int|
        0 <= i < lines.len() && 0 <= j < lines[i].len() implies #[trigger] lines[i][j] != '\n' by {
        if i == 0 {
            assert(lines[i][j] == a[j]);
        } else {
            assert(lines[i][j] == b[j]);
        }
    }
    lemma_block(lines);
    let all = text::line_list(block(lines));
    assert(all =~= seq!["[[profiles]]"@, text::without_cr(a), text::without_cr(b)]);
    assert(config::lines_read(all, 0) == unread());
    assert(config::lines_read(all, 1) == config::line_read(unread(), "[[profiles]]"@, 1));
    assert(config::lines_read(all, 2) == first);
}

/// How many of some lines begin a profile.
pub open spec fn beginnings(lines: Seq<Seq<char>>) -> nat
    decreases lines.len(),
{
    if lines.len() == 0 {
        0
    } else {
        beginnings(lines.drop_last()) + (if text::trimmed(lines.last()) == "[[profiles]]"@ {
            1nat
        } else {
            0nat
        })
    }
}

/// Whether a line gives a field that a profile has a value.
pub open spec fn gives_field(line: Seq<char>) -> bool {
    exists|key: Seq<char>, value: Seq<char>|
        #![trigger key + seq!['='] + value]
        {
            &&& text::trimmed(line) == key + seq!['='] + value
            &&& forall|i: int| 0 <= i < key.len() ==> #[trigger] key[i] != '='
            &&& {
                ||| text::trimmed(key) == "port"@
                ||| (text::trimmed(key) == "name"@ || text::trimmed(key) == "user_data_dir"@)
                    && text::trimmed(value).len() >= 2 && text::trimmed(value)[0] == '"'
                    && text::trimmed(value).last() == '"'
            }
        }
}

/// Whether a line can stand in a configuration.
pub open spec fn well_known(line: Seq<char>) -> bool {
    ||| says_nothing(line)
    ||| text::trimmed(line) == "[[profiles]]"@
    ||| gives_field(line)
}

proof fn lemma_known_line(st: ReadView, raw: Seq<char>, number: nat)
    ensures
        config::line_read(st, raw, number).error is None ==> st.error is None && well_known(raw),
        config::line_read(st, raw, number).error is None ==> ({
            let after = config::line_read(st, raw, number);
            let new: nat = if text::trimmed(raw) == "[[profiles]]"@ {
                1
            } else {
                0
            };
            &&& after.profiles.len() + (if after.current is Some {
                1nat
            } else {
                0nat
            }) == st.profiles.len() + (if st.current is Some {
                1nat
            } else {
                0nat
            }) + new
            &&& !says_nothing(raw) ==> after.current is Some
        }),
{
    reveal_strlit("#");
    reveal_strlit("=");
    reveal_strlit("[[profiles]]");
    let line = text::trimmed(raw);
    if line.len() > 0 && text::begins(line, "#"@) {
        assert(line.subrange(0, 1)[0] == '#');
    }
    if line.len() > 0 && line[0] == '#' {
        assert(line.subrange(0, 1) =~= "#"@);
    }
    assert("[[profiles]]"@.len() == 12 && "[[profiles]]"@[0] == '[');
    if let Some((key, value)) = text::cut(line, "="@) {
        text::lemma_first_at(line, "="@, 0);
        let k = text::first_at(line, "="@, 0)->0;
        assert(line.subrange(k, k + 1)[0] == '=');
        assert(line =~= key + seq!['='] + value);
        assert forall|i: int| 0 <= i < key.len() implies #[trigger] key[i] != '=' by {
            if key[i] == '=' {
                assert(line.subrange(i, i + 1) =~= "="@);
                assert(text::occurs(line, "="@, i));
            }
        }
    }
}

proof fn lemma_known(all: Seq<Seq<char>>, n: nat, i: int)
    requires
        n <= all.len(),
        config::lines_read(all, n).error is None,
    ensures
        0 <= i < n ==> well_known(all[i]),
        config::lines_read(all, n).profiles.len() + (if config::lines_read(all, n).current is Some {
            1nat
        } else {
            0nat
        }) == beginnings(all.take(n as int)),
    decreases n,
{
    if n > 0 {
        lemma_known_line(config::lines_read(all, (n - 1) as nat), all[n - 1], n);
        lemma_known(all, (n - 1) as nat, i);
        assert(all.take(n as int).drop_last() =~= all.take(n - 1));
    }
}

/// A configuration that can be read has a profile for each line that begins one, and no
/// line that is not a comment, a beginning or a field that a profile has.
pub proof fn readable_configurations(content: Seq<char>, i: int)
    requires
        config::config_read(content) is Ok,
    ensures
        config::config_read(content)->Ok_0.len() == beginnings(text::line_list(content)),
        0 <= i < text::line_list(content).len() ==> well_known(text::line_list(content)[i]),
{
    let all = text::line_list(content);
    lemma_known(all, all.len(), i);
    assert(all.take(all.len() as int) =~= all);
}

/// A name that no profile has leads to no profile.
pub proof fn other_profiles_are_not_found(profiles: Seq<ProfileView>, name: Seq<char>)
    ensures
        config::profile_named(profiles, name) is Some <==> exists|i: int|
            0 <= i < profiles.len() && (#[trigger] profiles[i]).name == name,
        config::profile_named(profiles, name) matches Some(p) ==> p.name == name
            && profiles.contains(p),
    decreases profiles.len(),
{
    if profiles.len() > 0 {
        let rest = profiles.skip(1);
        other_profiles_are_not_found(rest, name);
        if profiles[0].name == name {
            assert(profiles.contains(profiles[0]));
        } else {
            if exists|i: int| 0 <= i < profiles.len() && (#[trigger] profiles[i]).name == name {
                let i = choose|i: int|
                    0 <= i < profiles.len() && (#[trigger] profiles[i]).name == name;
                assert(rest[i - 1].name == name);
            }
            if let Some(p) = config::profile_named(rest, name) {
                let i = choose|i: int| 0 <= i < rest.len() && rest[i] == p;
                assert(profiles[i + 1] == p);
            }
        }
    }
}

/// A leading `~` stands for the home directory, and no other path changes.
pub proof fn a_tilde_is_the_home_directory(home: Seq<char>, rest: Seq<char>)
    ensures
        config::home_expanded(seq!['~'], Some(home)) == Ok::<_, Seq<char>>(home),
        home.len() > 0 && home.last() != '/' && !(rest.len() > 0 && rest[0] == '/')
            ==> config::home_expanded(seq!['~', '/'] + rest, Some(home)) == Ok::<_, Seq<char>>(
            home + seq!['/'] + rest,
        ),
        config::home_expanded(seq!['~', '/'] + rest, None) is Err,
        !(rest.len() > 0 && rest[0] == '~') ==> config::home_expanded(rest, Some(home)) == Ok::<
            _,
            Seq<char>,
        >(rest) && config::home_expanded(rest, None) == Ok::<_, Seq<char>>(rest),
        rest.len() > 0 && rest[0] != '/' ==> config::home_expanded(
            seq!['~'] + rest,
            Some(home),
        ) == Ok::<_, Seq<char>>(seq!['~'] + rest),
{
    reveal_strlit("~");
    reveal_strlit("~/");
    reveal_strlit("/");
    assert(seq!['~'] =~= "~"@);
    let path = seq!['~', '/'] + rest;
    assert(path.len() >= 2 && "~"@.len() == 1);
    assert(path.subrange(0, 2) =~= "~/"@);
    assert(path.skip(2) =~= rest);
    if text::begins(rest, "/"@) {
        assert(rest.subrange(0, 1)[0] == '/');
    }
    assert(home + "/"@ + rest =~= home + seq!['/'] + rest);
    if text::begins(rest, "~/"@) {
        assert(rest.subrange(0, 2)[0] == '~');
    }
    if rest == "~"@ {
        assert(rest[0] == '~');
    }
    let other = seq!['~'] + rest;
    if rest.len() > 0 && rest[0] != '/' {
        assert(other[1] == rest[0]);
        assert(other.len() > 1);
        if text::begins(other, "~/"@) {
            assert(other.subrange(0, 2)[1] == '/');
        }
    }
}

/// The configuration that is written where there is none has one profile, with the default
/// directory of its name.
pub proof fn the_default_configuration_can_be_read()
    ensures
        config::config_read(config::default_config()) == Ok::<_, Seq<char>>(
            seq![
                ProfileView {
                    name: config::DEFAULT_PROFILE_NAME@,
                    dir: "~/.config/chrome-devtools/profiles/"@ + config::DEFAULT_PROFILE_NAME@,
                },
            ],
        ),
        config::DEFAULT_PROFILE_USER_DATA_DIR@ == "~/.config/chrome-devtools/profiles/"@
            + config::DEFAULT_PROFILE_NAME@,
{
    let name = config::DEFAULT_PROFILE_NAME@;
    reveal_strlit("default");
    reveal_strlit("~/.config/chrome-devtools/profiles/");
    reveal_strlit("~/.config/chrome-devtools/profiles/default");
    reveal_strlit("[[profiles]]");
    reveal_strlit("[[profiles]]\nname = \"");
    reveal_strlit("\"\n");
    reveal_strlit("name");
    let p = Pads {
        before: Seq::empty(),
        left: seq![' '],
        right: seq![' '],
        after: Seq::empty(),
    };
    profiles_are_what_their_lines_say(p, p, name, name);
    lemma_plain_text(name);
    let line = field_line(p, "name"@, name);
    assert(block(Seq::empty()) == "[[profiles]]"@.push('\n'));
    assert(seq![line].drop_last() =~= Seq::empty());
    assert(block(seq![line]) =~= "[[profiles]]"@.push('\n') + line.push('\n'));
    assert(config::default_config() =~= block(seq![line]));
    assert(config::DEFAULT_PROFILE_USER_DATA_DIR@ =~= "~/.config/chrome-devtools/profiles/"@ + name);
}

proof fn lemma_plain_text(s: Seq<char>)
    requires
        forall|i: int| 0 <= i < s.len() ==> 'a' <= #[trigger] s[i] <= 'z',
    ensures
        written_text(s) == s,
    decreases s.len(),
{
    if s.len() > 0 {
        let front = s.drop_last();
        assert forall|i: int| 0 <= i < front.len() implies 'a' <= #[trigger] front[i] <= 'z' by {
            assert(front[i] == s[i]);
        }
        lemma_plain_text(front);
        assert('a' <= s[s.len() - 1] <= 'z');
        assert(written_text(s) =~= s);
    } else {
        assert(written_text(s) =~= s);
    }
}

/// A port in a profile changes nothing about the profiles, and is warned of.
pub proof fn ports_are_warned_of(st: ReadView, raw: Seq<char>, number: nat, rest: Seq<char>)
    requires
        st.error is None,
        st.current is Some,
        text::trimmed(raw) == "port"@ + seq!['='] + rest,
    ensures
        ({
            let after = config::line_read(st, raw, number);
            &&& after.profiles == st.profiles && after.current == st.current && after.error is None
            &&& after.warnings.len() == st.warnings.len() + 1
            &&& text::begins(after.warnings.last(), "warning: line "@ + text::decimal(number))
        }),
{
    reveal_strlit("port");
    reveal_strlit("name");
    reveal_strlit("user_data_dir");
    reveal_strlit("=");
    reveal_strlit("#");
    reveal_strlit("[[profiles]]");
    let line = "port"@ + seq!['='] + rest;
    assert(line[0] == 'p');
    if text::begins(line, "#"@) {
        assert(line.subrange(0, 1)[0] == '#');
    }
    assert("[[profiles]]"@[0] == '[');
    text::lemma_first_at(line, "="@, 0);
    assert(text::occurs(line, "="@, 4)) by {
        assert(line.subrange(4, 5) =~= "="@);
    }
    assert forall|j: int| 0 <= j < 4 implies !#[trigger] text::occurs(line, "="@, j) by {
        if text::occurs(line, "="@, j) {
            assert(line.subrange(j, j + 1)[0] == '=');
            assert(line[j] == "port"@[j]);
        }
    }
    assert(line.take(4) =~= "port"@);
    text_laws::both_ends_are_trimmed(Seq::empty(), "port"@, Seq::empty());
    assert(Seq::<char>::empty() + "port"@ + Seq::<char>::empty() =~= "port"@);
    assert("port"@[0] == 'p' && "name"@[0] == 'n' && "user_data_dir"@[0] == 'u');
    let warning = config::port_warning(number);
    reveal_strlit("warning: ");
    reveal_strlit("line ");
    reveal_strlit("warning: line ");
    let start = "warning: line "@ + text::decimal(number);
    assert(warning.subrange(0, start.len() as int) =~= start);
}

/// The message about a profile that is not configured tells the names of all that are.
pub proof fn configured_names_are_told(profiles: Seq<ProfileView>, p: ProfileView, name: Seq<char>)
    ensures
        profiles.len() > 0 ==> config::names_text(profiles.push(p)) == config::names_text(profiles)
            + seq![',', ' '] + p.name,
        config::names_text(seq![p]) == p.name,
        text::begins(config::unknown_profile(profiles, name), "unknown profile: "@ + name),
        text::holds(
            config::unknown_profile(profiles, name),
            "; available: "@ + config::names_text(profiles),
        ),
{
    reveal_strlit(", ");
    assert(", "@ =~= seq![',', ' ']);
    assert(profiles.push(p).drop_last() =~= profiles);
    let message = config::unknown_profile(profiles, name);
    let start = "unknown profile: "@ + name;
    assert(message.subrange(0, start.len() as int) =~= start);
    let told = "; available: "@ + config::names_text(profiles);
    assert(message.subrange(start.len() as int, (start.len() + told.len()) as int) =~= told);
    assert(text::occurs(message, told, start.len() as int));
}

} // verus!
