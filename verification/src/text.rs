//! Characters and strings: the scanning that configuration, control commands and
//! snapshot text share.
use vstd::prelude::*;

verus! {

/// The characters that Unicode lists under White_Space.
pub open spec fn whitespace(c: char) -> bool {
    ||| '\u{9}' <= c <= '\u{d}'
    ||| c == '\u{20}'
    ||| c == '\u{85}'
    ||| c == '\u{a0}'
    ||| c == '\u{1680}'
    ||| '\u{2000}' <= c <= '\u{200a}'
    ||| c == '\u{2028}'
    ||| c == '\u{2029}'
    ||| c == '\u{202f}'
    ||| c == '\u{205f}'
    ||| c == '\u{3000}'
}

/// Whether `c` is a Unicode white space character.
pub fn is_whitespace(c: char) -> (r: bool)
    ensures
        r == whitespace(c),
{
    ('\u{9}' <= c && c <= '\u{d}') || c == '\u{20}' || c == '\u{85}' || c == '\u{a0}' || c
        == '\u{1680}' || ('\u{2000}' <= c && c <= '\u{200a}') || c == '\u{2028}' || c
        == '\u{2029}' || c == '\u{202f}' || c == '\u{205f}' || c == '\u{3000}'
}

/// Whether two strings hold the same characters, which is told by their bytes.
pub fn same(a: &str, b: &str) -> (r: bool)
    ensures
        r == (a@ == b@),
{
    let left = a.as_bytes();
    let right = b.as_bytes();
    proof {
        vstd::utf8::encode_utf8_decode_utf8(a@);
        vstd::utf8::encode_utf8_decode_utf8(b@);
    }
    if left.len() != right.len() {
        return false;
    }
    let mut i: usize = 0;
    while i < left.len()
        invariant
            left@ == vstd::utf8::encode_utf8(a@),
            right@ == vstd::utf8::encode_utf8(b@),
            left.len() == right.len(),
            i <= left.len(),
            left@.take(i as int) == right@.take(i as int),
        decreases left.len() - i,
    {
        if left[i] != right[i] {
            return false;
        }
        assert(left@.take(i + 1) =~= left@.take(i as int).push(left@[i as int]));
        assert(right@.take(i + 1) =~= right@.take(i as int).push(right@[i as int]));
        i = i + 1;
    }
    assert(left@.take(i as int) =~= left@);
    assert(right@.take(i as int) =~= right@);
    true
}

/// `String::push`: the character is appended.
pub assume_specification[ String::push ](s: &mut String, c: char)
    ensures
        final(s)@ == old(s)@.push(c),
;

/// The texts of a list of strings.
pub open spec fn texts(strings: Seq<String>) -> Seq<Seq<char>> {
    strings.map_values(|s: String| s@)
}

/// The text of an optional string.
pub open spec fn opt_text(s: Option<String>) -> Option<Seq<char>> {
    match s {
        Some(text) => Some(text@),
        None => None,
    }
}

/// The text of an optional string slice.
pub open spec fn opt_str(s: Option<&str>) -> Option<Seq<char>> {
    match s {
        Some(text) => Some(text@),
        None => None,
    }
}

/// The text of a string result.
pub open spec fn result_text(r: Result<String, String>) -> Result<Seq<char>, Seq<char>> {
    match r {
        Ok(text) => Ok(text@),
        Err(message) => Err(message@),
    }
}

pub proof fn lemma_texts_push(strings: Seq<String>, s: String)
    ensures
        texts(strings.push(s)) == texts(strings).push(s@),
{
    assert(texts(strings.push(s)) =~= texts(strings).push(s@));
}

/// The characters of a string.
pub fn chars_of(s: &str) -> (r: Vec<char>)
    ensures
        r@ == s@,
{
    let mut out: Vec<char> = Vec::new();
    for c in it: s.chars()
        invariant
            it.seq() == s@,
            out@ == s@.take(it.index() as int),
    {
        out.push(c);
    }
    assert(s@.take(s@.len() as int) =~= s@);
    out
}

/// The string of a range of characters.
pub fn slice(chars: &Vec<char>, start: usize, end: usize) -> (r: String)
    requires
        start <= end <= chars.len(),
    ensures
        r@ == chars@.subrange(start as int, end as int),
{
    let mut out = String::new();
    let mut i: usize = start;
    while i < end
        invariant
            start <= i <= end <= chars.len(),
            out@ == chars@.subrange(start as int, i as int),
        decreases end - i,
    {
        out.push(chars[i]);
        i = i + 1;
        assert(out@ =~= chars@.subrange(start as int, i as int));
    }
    out
}

/// `a` followed by `b`.
pub fn joined(a: &str, b: &str) -> (r: String)
    ensures
        r@ == a@ + b@,
{
    let mut out = a.to_string();
    out.append(b);
    out
}

/// `a`, `b` and `c` one after the other.
pub fn joined3(a: &str, b: &str, c: &str) -> (r: String)
    ensures
        r@ == a@ + b@ + c@,
{
    let mut out = a.to_string();
    out.append(b);
    out.append(c);
    out
}

/// A copy of an optional string.
pub fn owned(s: Option<&str>) -> (r: Option<String>)
    ensures
        opt_text(r) == opt_str(s),
{
    match s {
        Some(text) => Some(text.to_string()),
        None => None,
    }
}

/// Whether `p` occurs in `s` at index `i`.
pub open spec fn occurs(s: Seq<char>, p: Seq<char>, i: int) -> bool {
    0 <= i && i + p.len() <= s.len() && s.subrange(i, i + p.len()) == p
}

/// Whether `s` begins with `p`.
pub open spec fn begins(s: Seq<char>, p: Seq<char>) -> bool {
    occurs(s, p, 0)
}

/// Whether `p` occurs in `s`.
pub open spec fn holds(s: Seq<char>, p: Seq<char>) -> bool {
    exists|i: int| #[trigger] occurs(s, p, i)
}

/// The first index at or after `i` where `p` occurs in `s`.
pub open spec fn first_at(s: Seq<char>, p: Seq<char>, i: int) -> Option<int>
    decreases s.len() - i + 1,
{
    if i > s.len() {
        None
    } else if occurs(s, p, i) {
        Some(i)
    } else {
        first_at(s, p, i + 1)
    }
}

/// What follows a prefix.
pub open spec fn after(s: Seq<char>, p: Seq<char>) -> Option<Seq<char>> {
    if begins(s, p) {
        Some(s.skip(p.len() as int))
    } else {
        None
    }
}

/// The text before and after the first occurrence of `p`.
pub open spec fn cut(s: Seq<char>, p: Seq<char>) -> Option<(Seq<char>, Seq<char>)> {
    match first_at(s, p, 0) {
        Some(i) => Some((s.take(i), s.skip(i + p.len()))),
        None => None,
    }
}

pub proof fn lemma_first_at(s: Seq<char>, p: Seq<char>, i: int)
    requires
        0 <= i,
    ensures
        match first_at(s, p, i) {
            Some(k) => i <= k && occurs(s, p, k) && forall|j: int|
                i <= j < k ==> !#[trigger] occurs(s, p, j),
            None => forall|j: int| i <= j ==> !#[trigger] occurs(s, p, j),
        },
    decreases s.len() - i + 1,
{
    if i <= s.len() && !occurs(s, p, i) {
        lemma_first_at(s, p, i + 1);
    }
}

/// Whether `p` occurs in `s` at index `i`.
fn occurs_at(s: &Vec<char>, p: &Vec<char>, i: usize) -> (r: bool)
    requires
        i <= s.len(),
    ensures
        r == occurs(s@, p@, i as int),
{
    if p.len() > s.len() - i {
        return false;
    }
    let mut j: usize = 0;
    while j < p.len()
        invariant
            j <= p.len(),
            i + p.len() <= s.len(),
            forall|k: int| 0 <= k < j ==> s@[i + k] == p@[k],
        decreases p.len() - j,
    {
        if s[i + j] != p[j] {
            assert(s@.subrange(i as int, i + p.len())[j as int] != p@[j as int]);
            return false;
        }
        j = j + 1;
    }
    assert(s@.subrange(i as int, i + p.len()) =~= p@);
    true
}

/// The first index at or after `start` where `p` occurs in `s`.
pub fn find_from(s: &Vec<char>, p: &Vec<char>, start: usize) -> (r: Option<usize>)
    requires
        start <= s.len(),
    ensures
        match r {
            Some(i) => first_at(s@, p@, start as int) == Some(i as int) && start <= i && i + p.len()
                <= s.len(),
            None => first_at(s@, p@, start as int) is None,
        },
{
    let mut i: usize = start;
    loop
        invariant
            start <= i <= s.len(),
            first_at(s@, p@, start as int) == first_at(s@, p@, i as int),
        decreases s.len() - i,
    {
        if occurs_at(s, p, i) {
            return Some(i);
        }
        if i == s.len() {
            assert(first_at(s@, p@, i + 1) is None);
            return None;
        }
        i = i + 1;
    }
}

/// Whether `s` begins with `p`.
pub fn starts_with(s: &str, p: &str) -> (r: bool)
    ensures
        r == begins(s@, p@),
{
    occurs_at(&chars_of(s), &chars_of(p), 0)
}

/// Whether `p` occurs in `s`.
pub fn contains(s: &str, p: &str) -> (r: bool)
    ensures
        r == holds(s@, p@),
{
    proof {
        lemma_first_at(s@, p@, 0);
    }
    match find_from(&chars_of(s), &chars_of(p), 0) {
        Some(_) => true,
        None => false,
    }
}

/// What follows a prefix.
pub fn strip_prefix(s: &str, p: &str) -> (r: Option<String>)
    ensures
        opt_text(r) == after(s@, p@),
{
    let chars = chars_of(s);
    let prefix = chars_of(p);
    if occurs_at(&chars, &prefix, 0) {
        let rest = slice(&chars, prefix.len(), chars.len());
        assert(rest@ =~= s@.skip(p@.len() as int));
        Some(rest)
    } else {
        None
    }
}

/// The text before and after the first occurrence of `p`.
pub fn split_once(s: &str, p: &str) -> (r: Option<(String, String)>)
    ensures
        match r {
            Some((head, tail)) => cut(s@, p@) == Some((head@, tail@)),
            None => cut(s@, p@) is None,
        },
{
    let chars = chars_of(s);
    let pattern = chars_of(p);
    match find_from(&chars, &pattern, 0) {
        Some(i) => {
            let head = slice(&chars, 0, i);
            let tail = slice(&chars, i + pattern.len(), chars.len());
            assert(head@ =~= s@.take(i as int));
            assert(tail@ =~= s@.skip(i + p@.len()));
            Some((head, tail))
        },
        None => None,
    }
}

/// The text without the white space at its start.
pub open spec fn trimmed_start(s: Seq<char>) -> Seq<char>
    decreases s.len(),
{
    if s.len() > 0 && whitespace(s[0]) {
        trimmed_start(s.skip(1))
    } else {
        s
    }
}

/// The text without the white space at its end.
pub open spec fn trimmed_end(s: Seq<char>) -> Seq<char>
    decreases s.len(),
{
    if s.len() > 0 && whitespace(s.last()) {
        trimmed_end(s.drop_last())
    } else {
        s
    }
}

/// The text without the white space around it.
pub open spec fn trimmed(s: Seq<char>) -> Seq<char> {
    trimmed_end(trimmed_start(s))
}

/// Where the text without the white space at the end of a range ends.
fn end_of(chars: &Vec<char>, start: usize) -> (r: usize)
    requires
        start <= chars.len(),
    ensures
        start <= r <= chars.len(),
        chars@.subrange(start as int, r as int) == trimmed_end(chars@.skip(start as int)),
{
    let mut end: usize = chars.len();
    assert(chars@.subrange(start as int, end as int) =~= chars@.skip(start as int));
    while end > start && is_whitespace(chars[end - 1])
        invariant
            start <= end <= chars.len(),
            trimmed_end(chars@.subrange(start as int, end as int)) == trimmed_end(
                chars@.skip(start as int),
            ),
        decreases end,
    {
        assert(chars@.subrange(start as int, end as int).drop_last() =~= chars@.subrange(
            start as int,
            end - 1,
        ));
        end = end - 1;
    }
    end
}

/// The text without the white space at its end.
pub fn trim_end(s: &str) -> (r: String)
    ensures
        r@ == trimmed_end(s@),
{
    let chars = chars_of(s);
    assert(chars@.skip(0) =~= s@);
    let end: usize = end_of(&chars, 0);
    slice(&chars, 0, end)
}

/// The text without the white space around it.
pub fn trim(s: &str) -> (r: String)
    ensures
        r@ == trimmed(s@),
{
    let chars = chars_of(s);
    assert(chars@.skip(0) =~= s@);
    let mut start: usize = 0;
    while start < chars.len() && is_whitespace(chars[start])
        invariant
            start <= chars.len(),
            trimmed_start(chars@.skip(start as int)) == trimmed_start(s@),
        decreases chars.len() - start,
    {
        assert(chars@.skip(start as int).skip(1) =~= chars@.skip(start + 1));
        start = start + 1;
    }
    let end: usize = end_of(&chars, start);
    slice(&chars, start, end)
}

/// `parts` with `cur` as one more part, unless it is empty.
pub open spec fn flush(cur: Seq<char>) -> Seq<Seq<char>> {
    if cur.len() == 0 {
        Seq::empty()
    } else {
        seq![cur]
    }
}

/// The words of `cur` followed by `s`, where `cur` is the start of a word.
pub open spec fn words_from(cur: Seq<char>, s: Seq<char>) -> Seq<Seq<char>>
    decreases s.len(),
{
    if s.len() == 0 {
        flush(cur)
    } else if whitespace(s[0]) {
        flush(cur) + words_from(Seq::empty(), s.skip(1))
    } else {
        words_from(cur.push(s[0]), s.skip(1))
    }
}

/// The runs of characters between white space.
pub open spec fn words(s: Seq<char>) -> Seq<Seq<char>> {
    words_from(Seq::empty(), s)
}

/// The runs of characters between white space.
pub fn split_whitespace(s: &str) -> (r: Vec<String>)
    ensures
        texts(r@) == words(s@),
{
    let chars = chars_of(s);
    let mut out: Vec<String> = Vec::new();
    let mut cur = String::new();
    let mut i: usize = 0;
    assert(chars@.skip(0) =~= s@);
    assert(texts(out@) + words_from(cur@, s@) =~= words(s@));
    while i < chars.len()
        invariant
            i <= chars.len(),
            texts(out@) + words_from(cur@, chars@.skip(i as int)) == words(s@),
        decreases chars.len() - i,
    {
        let ghost rest = chars@.skip(i as int);
        assert(rest.skip(1) =~= chars@.skip(i + 1));
        if is_whitespace(chars[i]) {
            if cur.as_str().unicode_len() > 0 {
                proof {
                    lemma_texts_push(out@, cur);
                    assert(texts(out@) + words_from(cur@, rest) =~= texts(out@).push(cur@)
                        + words_from(Seq::empty(), rest.skip(1)));
                }
                out.push(cur);
                cur = String::new();
            } else {
                assert(cur@ =~= Seq::empty());
                assert(words_from(cur@, rest) =~= words_from(Seq::empty(), rest.skip(1)));
            }
        } else {
            cur.push(chars[i]);
        }
        i = i + 1;
    }
    assert(chars@.skip(i as int).len() == 0);
    if cur.as_str().unicode_len() > 0 {
        proof {
            lemma_texts_push(out@, cur);
            assert(texts(out@) + flush(cur@) =~= texts(out@).push(cur@));
        }
        out.push(cur);
    } else {
        assert(texts(out@) + flush(cur@) =~= texts(out@));
    }
    out
}

/// A line without the carriage return at its end.
pub open spec fn without_cr(s: Seq<char>) -> Seq<char> {
    if s.len() > 0 && s.last() == '\r' {
        s.drop_last()
    } else {
        s
    }
}

/// The lines of `cur` followed by `s`, where `cur` is the start of a line.
pub open spec fn lines_from(cur: Seq<char>, s: Seq<char>) -> Seq<Seq<char>>
    decreases s.len(),
{
    if s.len() == 0 {
        flush(cur)
    } else if s[0] == '\n' {
        seq![without_cr(cur)] + lines_from(Seq::empty(), s.skip(1))
    } else {
        lines_from(cur.push(s[0]), s.skip(1))
    }
}

/// The lines of a text: what ends at a newline, with or without a carriage return
/// before it, and what follows the last newline.
pub open spec fn line_list(s: Seq<char>) -> Seq<Seq<char>> {
    lines_from(Seq::empty(), s)
}

/// The lines of a text.
pub fn lines(s: &str) -> (r: Vec<String>)
    ensures
        texts(r@) == line_list(s@),
{
    let chars = chars_of(s);
    let mut out: Vec<String> = Vec::new();
    let mut start: usize = 0;
    let mut i: usize = 0;
    assert(chars@.skip(0) =~= s@);
    assert(chars@.subrange(0, 0) =~= Seq::<char>::empty());
    assert(texts(out@) + line_list(s@) =~= line_list(s@));
    while i < chars.len()
        invariant
            start <= i <= chars.len(),
            texts(out@) + lines_from(
                chars@.subrange(start as int, i as int),
                chars@.skip(i as int),
            ) == line_list(s@),
        decreases chars.len() - i,
    {
        let ghost rest = chars@.skip(i as int);
        let ghost cur = chars@.subrange(start as int, i as int);
        assert(rest.skip(1) =~= chars@.skip(i + 1));
        if chars[i] == '\n' {
            let end: usize = if i > start && chars[i - 1] == '\r' {
                i - 1
            } else {
                i
            };
            let line = slice(&chars, start, end);
            proof {
                assert(line@ =~= without_cr(cur));
                lemma_texts_push(out@, line);
                assert(texts(out@) + lines_from(cur, rest) =~= texts(out@).push(line@)
                    + lines_from(Seq::empty(), rest.skip(1)));
                assert(chars@.subrange(i + 1, i + 1) =~= Seq::<char>::empty());
            }
            out.push(line);
            start = i + 1;
        } else {
            assert(cur.push(rest[0]) =~= chars@.subrange(start as int, i + 1));
        }
        i = i + 1;
    }
    let ghost cur = chars@.subrange(start as int, i as int);
    assert(chars@.skip(i as int).len() == 0);
    if start < chars.len() {
        let line = slice(&chars, start, chars.len());
        proof {
            lemma_texts_push(out@, line);
            assert(texts(out@) + flush(cur) =~= texts(out@).push(line@));
        }
        out.push(line);
    } else {
        assert(texts(out@) + flush(cur) =~= texts(out@));
    }
    out
}

/// The parts of `cur` followed by `s` between occurrences of `c`.
pub open spec fn parts_from(cur: Seq<char>, s: Seq<char>, c: char) -> Seq<Seq<char>>
    decreases s.len(),
{
    if s.len() == 0 {
        seq![cur]
    } else if s[0] == c {
        seq![cur] + parts_from(Seq::empty(), s.skip(1), c)
    } else {
        parts_from(cur.push(s[0]), s.skip(1), c)
    }
}

/// The parts of a text between occurrences of `c`; there is always one.
pub open spec fn parts(s: Seq<char>, c: char) -> Seq<Seq<char>> {
    parts_from(Seq::empty(), s, c)
}

/// The parts of a text between occurrences of `c`.
pub fn split(s: &str, c: char) -> (r: Vec<String>)
    ensures
        texts(r@) == parts(s@, c),
        r.len() > 0,
{
    let chars = chars_of(s);
    let mut out: Vec<String> = Vec::new();
    let mut cur = String::new();
    let mut i: usize = 0;
    assert(chars@.skip(0) =~= s@);
    assert(texts(out@) + parts(s@, c) =~= parts(s@, c));
    while i < chars.len()
        invariant
            i <= chars.len(),
            texts(out@) + parts_from(cur@, chars@.skip(i as int), c) == parts(s@, c),
        decreases chars.len() - i,
    {
        let ghost rest = chars@.skip(i as int);
        assert(rest.skip(1) =~= chars@.skip(i + 1));
        if chars[i] == c {
            proof {
                lemma_texts_push(out@, cur);
                assert(texts(out@) + parts_from(cur@, rest, c) =~= texts(out@).push(cur@)
                    + parts_from(Seq::empty(), rest.skip(1), c));
            }
            out.push(cur);
            cur = String::new();
        } else {
            cur.push(chars[i]);
        }
        i = i + 1;
    }
    assert(chars@.skip(i as int).len() == 0);
    proof {
        lemma_texts_push(out@, cur);
        assert(texts(out@) + seq![cur@] =~= texts(out@).push(cur@));
    }
    out.push(cur);
    out
}

/// The digit of a number below sixteen.
pub open spec fn digit(d: int) -> char {
    if d == 0 {
        '0'
    } else if d == 1 {
        '1'
    } else if d == 2 {
        '2'
    } else if d == 3 {
        '3'
    } else if d == 4 {
        '4'
    } else if d == 5 {
        '5'
    } else if d == 6 {
        '6'
    } else if d == 7 {
        '7'
    } else if d == 8 {
        '8'
    } else if d == 9 {
        '9'
    } else if d == 10 {
        'a'
    } else if d == 11 {
        'b'
    } else if d == 12 {
        'c'
    } else if d == 13 {
        'd'
    } else if d == 14 {
        'e'
    } else {
        'f'
    }
}

/// The decimal notation of a natural number.
pub open spec fn decimal(n: nat) -> Seq<char>
    decreases n,
{
    if n < 10 {
        seq![digit(n as int)]
    } else {
        decimal(n / 10).push(digit((n % 10) as int))
    }
}

/// The last `count` hexadecimal digits of a number.
pub open spec fn hex(n: nat, count: nat) -> Seq<char>
    decreases count,
{
    if count == 0 {
        Seq::empty()
    } else {
        hex(n / 16, (count - 1) as nat).push(digit((n % 16) as int))
    }
}

/// Whether `c` is a decimal digit.
pub open spec fn is_digit(c: char) -> bool {
    '0' <= c <= '9'
}

/// Whether a text consists of decimal digits.
pub open spec fn all_digits(s: Seq<char>) -> bool {
    forall|i: int| 0 <= i < s.len() ==> is_digit(#[trigger] s[i])
}

/// The number that a text of decimal digits denotes.
pub open spec fn value_of(s: Seq<char>) -> nat
    decreases s.len(),
{
    if s.len() == 0 {
        0
    } else {
        (value_of(s.drop_last()) * 10 + (s.last() as int - '0' as int)) as nat
    }
}

/// The digits of a number without its plus sign.
pub open spec fn unsigned(s: Seq<char>) -> Seq<char> {
    if s.len() > 0 && s[0] == '+' {
        s.skip(1)
    } else {
        s
    }
}

/// The number that a text denotes: digits, at least one, after an optional plus sign,
/// and no more than `max`.
pub open spec fn parsed(s: Seq<char>, max: nat) -> Option<nat> {
    let digits = unsigned(s);
    if digits.len() > 0 && all_digits(digits) && value_of(digits) <= max {
        Some(value_of(digits))
    } else {
        None
    }
}

/// The digit of a number below sixteen.
fn digit_char(d: u64) -> (r: char)
    requires
        d < 16,
    ensures
        r == digit(d as int),
{
    match d {
        0 => '0',
        1 => '1',
        2 => '2',
        3 => '3',
        4 => '4',
        5 => '5',
        6 => '6',
        7 => '7',
        8 => '8',
        9 => '9',
        10 => 'a',
        11 => 'b',
        12 => 'c',
        13 => 'd',
        14 => 'e',
        _ => 'f',
    }
}

fn push_decimal(out: &mut String, n: u128)
    ensures
        final(out)@ == old(out)@ + decimal(n as nat),
    decreases n,
{
    if n >= 10 {
        push_decimal(out, n / 10);
    }
    let ghost before = out@;
    let last: u64 = (n % 10) as u64;
    out.push(digit_char(last));
    assert(out@ =~= old(out)@ + decimal(n as nat));
}

fn push_hex(out: &mut String, n: u64, count: usize)
    ensures
        final(out)@ == old(out)@ + hex(n as nat, count as nat),
    decreases count,
{
    if count > 0 {
        push_hex(out, n / 16, count - 1);
        out.push(digit_char(n % 16));
    }
    assert(out@ =~= old(out)@ + hex(n as nat, count as nat));
}

/// The decimal notation of a number.
pub fn number_text(n: u128) -> (r: String)
    ensures
        r@ == decimal(n as nat),
{
    let mut out = String::new();
    push_decimal(&mut out, n);
    assert(out@ =~= decimal(n as nat));
    out
}

/// The sixteen hexadecimal digits of a number.
pub fn hex_text(n: u64) -> (r: String)
    ensures
        r@ == hex(n as nat, 16),
{
    let mut out = String::new();
    push_hex(&mut out, n, 16);
    assert(out@ =~= hex(n as nat, 16));
    out
}

proof fn lemma_value_monotone(s: Seq<char>, i: int)
    requires
        0 <= i <= s.len(),
        all_digits(s),
    ensures
        value_of(s.take(i)) <= value_of(s),
    decreases s.len() - i,
{
    if i < s.len() {
        assert(s.take(i + 1).drop_last() =~= s.take(i));
        assert(is_digit(s.take(i + 1).last()));
        lemma_value_monotone(s, i + 1);
    } else {
        assert(s.take(i) =~= s);
    }
}

/// The number that a text denotes, if it is no more than `max`.
pub fn parse_number(s: &str, max: u64) -> (r: Option<u64>)
    ensures
        match r {
            Some(n) => parsed(s@, max as nat) == Some(n as nat),
            None => parsed(s@, max as nat) is None,
        },
{
    let chars = chars_of(s);
    let start: usize = if chars.len() > 0 && chars[0] == '+' {
        1
    } else {
        0
    };
    let ghost digits = unsigned(s@);
    assert(digits =~= chars@.skip(start as int));
    if start == chars.len() {
        return None;
    }
    let mut value: u128 = 0;
    let mut i: usize = start;
    while i < chars.len()
        invariant
            start <= i <= chars.len(),
            digits == chars@.skip(start as int),
            all_digits(digits.take(i - start)),
            value == value_of(digits.take(i - start)),
            value <= max,
            digits == unsigned(s@),
        decreases chars.len() - i,
    {
        let c = chars[i];
        assert(c == digits[i - start]);
        if c < '0' || c > '9' {
            assert(!is_digit(digits[i - start]));
            return None;
        }
        value = value * 10 + (c as u32 - '0' as u32) as u128;
        i = i + 1;
        let ghost front = digits.take(i - start);
        proof {
            assert(front.drop_last() =~= digits.take(i - start - 1));
            assert forall|k: int| 0 <= k < front.len() implies is_digit(#[trigger] front[k]) by {
                if k < front.len() - 1 {
                    assert(front[k] == digits.take(i - start - 1)[k]);
                }
            }
        }
        if value > max as u128 {
            proof {
                if all_digits(digits) {
                    lemma_value_monotone(digits, i - start);
                }
            }
            return None;
        }
    }
    assert(digits.take(i - start) =~= digits);
    Some(value as u64)
}

/// A number's decimal notation consists of digits and denotes the number.
pub proof fn decimal_denotes(n: nat)
    ensures
        all_digits(decimal(n)),
        value_of(decimal(n)) == n,
        decimal(n).len() > 0,
    decreases n,
{
    if n < 10 {
        assert(decimal(n).drop_last() =~= Seq::empty());
        assert(value_of(Seq::<char>::empty()) == 0);
    } else {
        decimal_denotes(n / 10);
        let front = decimal(n / 10);
        assert(decimal(n).drop_last() =~= front);
        assert forall|i: int| 0 <= i < decimal(n).len() implies is_digit(
            #[trigger] decimal(n)[i],
        ) by {
            if i < front.len() {
                assert(decimal(n)[i] == front[i]);
            }
        }
    }
}

/// Printing a number and reading it again gives the number back.
pub proof fn printing_and_parsing_agree(n: nat, max: nat)
    requires
        n <= max,
    ensures
        parsed(decimal(n), max) == Some(n),
{
    decimal_denotes(n);
    assert(is_digit(decimal(n)[0]));
    assert(unsigned(decimal(n)) == decimal(n));
}

/// Digits have no white space around them.
pub proof fn lemma_digits_are_trimmed(s: Seq<char>)
    requires
        all_digits(s),
    ensures
        trimmed(s) == s,
{
    if s.len() > 0 {
        assert(is_digit(s[0]));
        assert(is_digit(s[s.len() - 1]));
    }
}

/// The first line of a text.
pub proof fn lemma_first_line(first: Seq<char>, rest: Seq<char>)
    requires
        forall|i: int| 0 <= i < first.len() ==> #[trigger] first[i] != '\n',
    ensures
        line_list(first.push('\n') + rest) == seq![without_cr(first)] + line_list(rest),
{
    lemma_line_begun(Seq::empty(), first, rest);
    assert(Seq::<char>::empty() + first =~= first);
}

proof fn lemma_line_begun(cur: Seq<char>, first: Seq<char>, rest: Seq<char>)
    requires
        forall|i: int| 0 <= i < first.len() ==> #[trigger] first[i] != '\n',
    ensures
        lines_from(cur, first.push('\n') + rest) == seq![without_cr(cur + first)] + lines_from(
            Seq::empty(),
            rest,
        ),
    decreases first.len(),
{
    let whole = first.push('\n') + rest;
    if first.len() == 0 {
        assert(whole.skip(1) =~= rest);
        assert(cur + first =~= cur);
    } else {
        assert(whole[0] == first[0]);
        assert(whole.skip(1) =~= first.skip(1).push('\n') + rest);
        assert forall|i: int| 0 <= i < first.skip(1).len() implies #[trigger] first.skip(1)[i]
            != '\n' by {
            assert(first.skip(1)[i] == first[i + 1]);
        }
        lemma_line_begun(cur.push(first[0]), first.skip(1), rest);
        assert(cur.push(first[0]) + first.skip(1) =~= cur + first);
    }
}

/// Two numbers with the same decimal notation are equal.
pub proof fn decimal_is_injective(a: nat, b: nat)
    requires
        decimal(a) == decimal(b),
    ensures
        a == b,
{
    decimal_denotes(a);
    decimal_denotes(b);
}

/// Two numbers below `16^count` with the same `count` hexadecimal digits are equal.
pub proof fn hex_is_injective(a: nat, b: nat, count: nat)
    requires
        hex(a, count) == hex(b, count),
        a < vstd::arithmetic::power::pow(16, count),
        b < vstd::arithmetic::power::pow(16, count),
    ensures
        a == b,
    decreases count,
{
    reveal(vstd::arithmetic::power::pow);
    if count > 0 {
        let shorter = (count - 1) as nat;
        assert(hex(a, count).last() == digit((a % 16) as int));
        assert(hex(b, count).last() == digit((b % 16) as int));
        assert(hex(a, count).drop_last() =~= hex(a / 16, shorter));
        assert(hex(b, count).drop_last() =~= hex(b / 16, shorter));
        assert(a % 16 == b % 16);
        hex_is_injective(a / 16, b / 16, shorter);
    }
}

/// Whether a text comes before another in the order of strings, which goes by the code points
/// of their characters, from the first on.
pub open spec fn before(a: Seq<char>, b: Seq<char>) -> bool
    decreases a.len(),
{
    if b.len() == 0 {
        false
    } else if a.len() == 0 {
        true
    } else if a[0] != b[0] {
        a[0] < b[0]
    } else {
        before(a.skip(1), b.skip(1))
    }
}

/// Of two texts that differ exactly one comes before the other.
pub proof fn one_comes_first(a: Seq<char>, b: Seq<char>)
    ensures
        a == b ==> !before(a, b),
        a != b ==> before(a, b) != before(b, a),
    decreases a.len(),
{
    if a.len() > 0 && b.len() > 0 {
        one_comes_first(a.skip(1), b.skip(1));
        if a[0] == b[0] && a.skip(1) == b.skip(1) {
            assert(a =~= seq![a[0]] + a.skip(1));
            assert(b =~= seq![b[0]] + b.skip(1));
        }
    } else if a.len() == 0 && b.len() == 0 {
        assert(a =~= b);
    }
}

/// What comes before a text comes before all that come after it.
pub proof fn before_is_transitive(a: Seq<char>, b: Seq<char>, c: Seq<char>)
    requires
        before(a, b),
        before(b, c),
    ensures
        before(a, c),
    decreases a.len(),
{
    if a.len() > 0 && a[0] == b[0] && b[0] == c[0] {
        before_is_transitive(a.skip(1), b.skip(1), c.skip(1));
    }
}

/// Whether a string comes before another.
pub fn comes_before(a: &str, b: &str) -> (r: bool)
    ensures
        r == before(a@, b@),
{
    let left = chars_of(a);
    let right = chars_of(b);
    let mut i: usize = 0;
    assert(a@.skip(0) =~= a@);
    assert(b@.skip(0) =~= b@);
    while i < left.len() && i < right.len()
        invariant
            left@ == a@,
            right@ == b@,
            i <= left.len(),
            i <= right.len(),
            before(a@, b@) == before(a@.skip(i as int), b@.skip(i as int)),
        decreases left.len() - i,
    {
        assert(a@.skip(i as int)[0] == left@[i as int]);
        assert(b@.skip(i as int)[0] == right@[i as int]);
        if left[i] != right[i] {
            return left[i] < right[i];
        }
        assert(a@.skip(i as int).skip(1) =~= a@.skip(i + 1));
        assert(b@.skip(i as int).skip(1) =~= b@.skip(i + 1));
        i = i + 1;
    }
    i < right.len()
}

} // verus!
