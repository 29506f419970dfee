//! What holds of texts taken apart.
use crate::text;
use vstd::prelude::*;

verus! {

/// Whether a text is nothing but white space.
pub open spec fn blank(s: Seq<char>) -> bool {
    forall|i: int| 0 <= i < s.len() ==> text::whitespace(#[trigger] s[i])
}

/// Whether a text has no white space around it.
pub open spec fn tight(s: Seq<char>) -> bool {
    s.len() > 0 ==> !text::whitespace(s[0]) && !text::whitespace(s.last())
}

proof fn lemma_trim_start(pad: Seq<char>, s: Seq<char>)
    requires
        blank(pad),
        s.len() > 0 ==> !text::whitespace(s[0]),
    ensures
        text::trimmed_start(pad + s) == s,
    decreases pad.len(),
{
    let all = pad + s;
    if pad.len() == 0 {
        assert(all =~= s);
    } else {
        assert(all[0] == pad[0]);
        assert(all.skip(1) =~= pad.skip(1) + s);
        assert forall|i: int| 0 <= i < pad.skip(1).len() implies text::whitespace(
            #[trigger] pad.skip(1)[i],
        ) by {
            assert(pad.skip(1)[i] == pad[i + 1]);
        }
        lemma_trim_start(pad.skip(1), s);
    }
}

/// White space at the end of a text, and nothing else, is taken off it.
pub proof fn ends_are_trimmed(s: Seq<char>, pad: Seq<char>)
    requires
        blank(pad),
        s.len() > 0 ==> !text::whitespace(s.last()),
    ensures
        text::trimmed_end(s + pad) == s,
    decreases pad.len(),
{
    let all = s + pad;
    if pad.len() == 0 {
        assert(all =~= s);
    } else {
        assert(all.last() == pad[pad.len() - 1]);
        assert(all.drop_last() =~= s + pad.drop_last());
        assert forall|i: int| 0 <= i < pad.drop_last().len() implies text::whitespace(
            #[trigger] pad.drop_last()[i],
        ) by {
            assert(pad.drop_last()[i] == pad[i]);
        }
        ends_are_trimmed(s, pad.drop_last());
    }
}

/// White space around a text, and nothing else, is taken off it.
pub proof fn both_ends_are_trimmed(before: Seq<char>, s: Seq<char>, after: Seq<char>)
    requires
        blank(before),
        tight(s),
        blank(after),
    ensures
        text::trimmed(before + s + after) == s,
{
    if s.len() > 0 {
        assert(before + s + after =~= before + (s + after));
        lemma_trim_start(before, s + after);
        ends_are_trimmed(s, after);
    } else {
        let pad = before + after;
        assert forall|i: int| 0 <= i < pad.len() implies text::whitespace(#[trigger] pad[i]) by {
            if i < before.len() {
                assert(pad[i] == before[i]);
            } else {
                assert(pad[i] == after[i - before.len()]);
            }
        }
        assert(before + s + after =~= pad + Seq::empty());
        lemma_trim_start(pad, Seq::empty());
        assert(s =~= Seq::empty());
    }
}

proof fn lemma_lines_sum(cur: Seq<char>, a: Seq<char>, b: Seq<char>)
    ensures
        text::lines_from(cur, a.push('\n') + b) == text::lines_from(cur, a.push('\n'))
            + text::line_list(b),
    decreases a.len(),
{
    let s = a.push('\n') + b;
    let t = a.push('\n');
    if a.len() == 0 {
        assert(s[0] == '\n' && t[0] == '\n');
        assert(s.skip(1) =~= b);
        assert(t.skip(1) =~= Seq::empty());
        assert(text::lines_from(Seq::empty(), t.skip(1)) =~= Seq::empty());
        assert(text::lines_from(cur, t) =~= seq![text::without_cr(cur)]);
    } else {
        assert(s[0] == a[0] && t[0] == a[0]);
        assert(s.skip(1) =~= a.skip(1).push('\n') + b);
        assert(t.skip(1) =~= a.skip(1).push('\n'));
        if a[0] == '\n' {
            lemma_lines_sum(Seq::empty(), a.skip(1), b);
            assert(text::lines_from(cur, s) =~= text::lines_from(cur, t) + text::line_list(b));
        } else {
            lemma_lines_sum(cur.push(a[0]), a.skip(1), b);
        }
    }
}

/// The lines of two texts of whole lines, one after the other, are the lines of the first
/// and then those of the second.
pub proof fn lines_follow_each_other(a: Seq<char>, b: Seq<char>)
    ensures
        text::line_list(a.push('\n') + b) == text::line_list(a.push('\n')) + text::line_list(b),
{
    lemma_lines_sum(Seq::empty(), a, b);
}

/// Whether a text has no white space in it.
pub open spec fn wordlike(s: Seq<char>) -> bool {
    forall|i: int| 0 <= i < s.len() ==> !text::whitespace(#[trigger] s[i])
}

proof fn lemma_word_begun(cur: Seq<char>, word: Seq<char>, space: char, rest: Seq<char>)
    requires
        wordlike(word),
        text::whitespace(space),
        cur.len() + word.len() > 0,
    ensures
        text::words_from(cur, word + seq![space] + rest) == seq![cur + word] + text::words_from(
            Seq::empty(),
            rest,
        ),
    decreases word.len(),
{
    let s = word + seq![space] + rest;
    if word.len() == 0 {
        assert(s[0] == space);
        assert(s.skip(1) =~= rest);
        assert(cur + word =~= cur);
    } else {
        assert(s[0] == word[0]);
        assert(s.skip(1) =~= word.skip(1) + seq![space] + rest);
        assert forall|i: int| 0 <= i < word.skip(1).len() implies !text::whitespace(
            #[trigger] word.skip(1)[i],
        ) by {
            assert(word.skip(1)[i] == word[i + 1]);
        }
        lemma_word_begun(cur.push(word[0]), word.skip(1), space, rest);
        assert(cur.push(word[0]) + word.skip(1) =~= cur + word);
    }
}

/// The words of a text are what white space parts: a word before white space is the first
/// of them, and white space in front of a text changes nothing.
pub proof fn words_are_what_spaces_part(word: Seq<char>, space: char, rest: Seq<char>)
    requires
        wordlike(word),
        text::whitespace(space),
    ensures
        text::words(word + seq![space] + rest) == (if word.len() > 0 {
            seq![word] + text::words(rest)
        } else {
            text::words(rest)
        }),
{
    let s = word + seq![space] + rest;
    if word.len() > 0 {
        lemma_word_begun(Seq::empty(), word, space, rest);
        assert(Seq::<char>::empty() + word =~= word);
    } else {
        assert(s[0] == space);
        assert(s.skip(1) =~= rest);
        assert(text::words(s) =~= text::words(rest));
    }
}

proof fn lemma_last_word(cur: Seq<char>, word: Seq<char>)
    requires
        wordlike(word),
        cur.len() + word.len() > 0,
    ensures
        text::words_from(cur, word) == seq![cur + word],
    decreases word.len(),
{
    if word.len() == 0 {
        assert(cur + word =~= cur);
    } else {
        assert forall|i: int| 0 <= i < word.skip(1).len() implies !text::whitespace(
            #[trigger] word.skip(1)[i],
        ) by {
            assert(word.skip(1)[i] == word[i + 1]);
        }
        lemma_last_word(cur.push(word[0]), word.skip(1));
        assert(cur.push(word[0]) + word.skip(1) =~= cur + word);
    }
}

/// A text without white space is one word, and white space alone has none.
pub proof fn a_word_is_one(word: Seq<char>)
    requires
        wordlike(word),
    ensures
        word.len() > 0 ==> text::words(word) == seq![word],
        text::words(Seq::empty()) == Seq::<Seq<char>>::empty(),
{
    if word.len() > 0 {
        lemma_last_word(Seq::empty(), word);
        assert(Seq::<char>::empty() + word =~= word);
    }
}

proof fn lemma_last_line(cur: Seq<char>, line: Seq<char>)
    requires
        forall|i: int| 0 <= i < line.len() ==> #[trigger] line[i] != '\n',
        cur.len() + line.len() > 0,
    ensures
        text::lines_from(cur, line) == seq![cur + line],
    decreases line.len(),
{
    if line.len() == 0 {
        assert(cur + line =~= cur);
    } else {
        assert forall|i: int| 0 <= i < line.skip(1).len() implies #[trigger] line.skip(1)[i]
            != '\n' by {
            assert(line.skip(1)[i] == line[i + 1]);
        }
        lemma_last_line(cur.push(line[0]), line.skip(1));
        assert(cur.push(line[0]) + line.skip(1) =~= cur + line);
    }
}

/// What follows the last newline is a line too, and an empty text has none.
pub proof fn the_last_line_needs_no_end(line: Seq<char>)
    requires
        forall|i: int| 0 <= i < line.len() ==> #[trigger] line[i] != '\n',
    ensures
        line.len() > 0 ==> text::line_list(line) == seq![line],
        text::line_list(Seq::empty()) == Seq::<Seq<char>>::empty(),
{
    if line.len() > 0 {
        lemma_last_line(Seq::empty(), line);
        assert(Seq::<char>::empty() + line =~= line);
    }
}

/// A text is cut at the first place where the separator stands, and nothing of it is lost;
/// it is not cut where the separator stands nowhere.
pub proof fn cuts_are_at_the_first_separator(s: Seq<char>, p: Seq<char>, k: int)
    requires
        0 <= k,
    ensures
        text::cut(s, p) matches Some((a, b)) ==> s == a + p + b && text::occurs(
            s,
            p,
            a.len() as int,
        ) && (k < a.len() ==> !text::occurs(s, p, k)),
        text::cut(s, p) is None ==> !text::occurs(s, p, k),
        text::after(s, p) matches Some(rest) ==> s == p + rest,
        text::after(s, p) is Some <==> s.len() >= p.len() && s.take(p.len() as int) == p,
{
    text::lemma_first_at(s, p, 0);
    if let Some(i) = text::first_at(s, p, 0) {
        assert(s =~= s.take(i) + s.subrange(i, i + p.len()) + s.skip(i + p.len()));
    }
    if text::begins(s, p) {
        assert(s =~= s.subrange(0, p.len() as int) + s.skip(p.len() as int));
        assert(s.take(p.len() as int) =~= s.subrange(0, p.len() as int));
    }
    if s.len() >= p.len() {
        assert(s.take(p.len() as int) =~= s.subrange(0, p.len() as int));
    }
}

/// What is read as a number is its digits, with or without a sign of plus before them, and
/// no number above the limit is read.
pub proof fn only_numbers_are_read(s: Seq<char>, max: nat, n: nat)
    ensures
        text::parsed(s, max) matches Some(m) ==> m <= max && s.len() > 0 && (forall|i: int|
            0 <= i < s.len() ==> ('0' <= #[trigger] s[i] <= '9' || i == 0 && s[i] == '+'))
            && '0' <= s.last() <= '9',
        n <= max ==> text::parsed(seq!['+'] + text::decimal(n), max) == Some(n),
        n > max ==> text::parsed(text::decimal(n), max) is None,
{
    if let Some(m) = text::parsed(s, max) {
        let digits = text::unsigned(s);
        assert(text::is_digit(digits[digits.len() - 1]));
        assert forall|i: int| 0 <= i < s.len() implies ('0' <= #[trigger] s[i] <= '9' || i == 0
            && s[i] == '+') by {
            if s[0] == '+' {
                if i > 0 {
                    assert(digits[i - 1] == s[i]);
                    assert(text::is_digit(digits[i - 1]));
                }
            } else {
                assert(text::is_digit(digits[i]));
            }
        }
        assert(s.last() == digits.last());
    }
    text::decimal_denotes(n);
    let signed = seq!['+'] + text::decimal(n);
    assert(signed.skip(1) =~= text::decimal(n));
    assert(text::is_digit(text::decimal(n)[0]));
    assert(text::unsigned(text::decimal(n)) == text::decimal(n));
}

/// A number is written without needless noughts, and the longer number is the greater one.
pub proof fn numbers_are_written_shortly(n: nat)
    ensures
        n > 0 ==> text::decimal(n)[0] != '0',
        n < 10 ==> text::decimal(n).len() == 1,
        n >= 10 ==> text::decimal(n).len() == text::decimal(n / 10).len() + 1,
    decreases n,
{
    if n >= 10 {
        numbers_are_written_shortly(n / 10);
        text::decimal_denotes(n / 10);
        assert(text::decimal(n)[0] == text::decimal(n / 10)[0]);
    }
}

/// Texts are in the order of their first difference, and a text comes before what begins
/// with it.
pub proof fn the_first_difference_decides(p: Seq<char>, a: Seq<char>, b: Seq<char>)
    ensures
        text::before(p + a, p + b) == text::before(a, b),
        a.len() > 0 && b.len() > 0 && a[0] != b[0] ==> text::before(a, b) == (a[0] < b[0]),
        a.len() > 0 ==> text::before(p, p + a) && !text::before(p + a, p),
    decreases p.len(),
{
    if p.len() == 0 {
        assert(p + a =~= a);
        assert(p + b =~= b);
        assert(p =~= Seq::empty());
    } else {
        let q = p.skip(1);
        assert((p + a).skip(1) =~= q + a);
        assert((p + b).skip(1) =~= q + b);
        the_first_difference_decides(q, a, b);
    }
}

/// White space is what Unicode calls so.
pub proof fn white_space_is_known(c: char)
    ensures
        text::whitespace(c) <==> ({
            let n = c as u32;
            ||| 9 <= n <= 13
            ||| n == 32
            ||| n == 133
            ||| n == 160
            ||| n == 5760
            ||| 8192 <= n <= 8202
            ||| n == 8232
            ||| n == 8233
            ||| n == 8239
            ||| n == 8287
            ||| n == 12288
        }),
{
}

/// A line may end with a carriage return before its newline; one that stands elsewhere is
/// part of the line.
pub proof fn lines_may_end_with_a_carriage_return(line: Seq<char>, rest: Seq<char>)
    requires
        forall|i: int| 0 <= i < line.len() ==> #[trigger] line[i] != '\n',
        line.len() > 0 ==> line.last() != '\r',
    ensures
        text::line_list(line + seq!['\r', '\n'] + rest) == seq![line] + text::line_list(rest),
        text::line_list(line + seq!['\n'] + rest) == seq![line] + text::line_list(rest),
{
    let long = line.push('\r');
    assert forall|i: int| 0 <= i < long.len() implies #[trigger] long[i] != '\n' by {
        if i < line.len() {
            assert(long[i] == line[i]);
        }
    }
    text::lemma_first_line(long, rest);
    assert(long.push('\n') + rest =~= line + seq!['\r', '\n'] + rest);
    assert(long.drop_last() =~= line);
    text::lemma_first_line(line, rest);
    assert(line.push('\n') + rest =~= line + seq!['\n'] + rest);
}

/// A text holds another if it is there from some place on, and begins with it if that place
/// is the first.
pub proof fn texts_are_found(a: Seq<char>, p: Seq<char>, b: Seq<char>, s: Seq<char>)
    ensures
        text::holds(a + p + b, p),
        text::begins(p + b, p),
        text::holds(s, p) ==> exists|i: int|
            0 <= i && i + p.len() <= s.len() && #[trigger] s.subrange(i, i + p.len()) == p,
        s.len() < p.len() ==> !text::holds(s, p) && !text::begins(s, p),
        s.len() >= p.len() && s.take(p.len() as int) != p ==> !text::begins(s, p),
{
    let n = a.len() as int;
    assert((a + p + b).subrange(n, n + p.len()) =~= p);
    assert(text::occurs(a + p + b, p, n));
    assert((p + b).subrange(0, p.len() as int) =~= p);
    if text::holds(s, p) {
        let i = choose|i: int| text::occurs(s, p, i);
        assert(s.subrange(i, i + p.len()) == p);
    }
    if s.len() >= p.len() {
        assert(s.take(p.len() as int) =~= s.subrange(0, p.len() as int));
    }
}

} // verus!
