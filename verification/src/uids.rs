//! Element uids in snapshots: finding them, putting tokens in their place, and turning
//! tokens in requests back into uids.
use crate::json;
use crate::json::{Json, JsonView};
use crate::session;
use crate::session::{SessionRegistry, SessionView};
use crate::table::Table;
use crate::text;
use crate::text::{chars_of, find_from, is_whitespace, same, slice};
use vstd::prelude::*;

verus! {

/// Whether a character ends a uid in running text.
pub open spec fn ends_uid(c: char) -> bool {
    ||| text::whitespace(c)
    ||| c == ')'
    ||| c == ']'
    ||| c == '}'
    ||| c == ','
    ||| c == ';'
    ||| c == '"'
    ||| c == '\''
}

/// Where a uid that starts at `i` ends.
pub open spec fn uid_end(s: Seq<char>, i: int) -> int
    decreases s.len() - i,
{
    if i >= s.len() || ends_uid(s[i]) {
        i
    } else {
        uid_end(s, i + 1)
    }
}

/// The list with one more text, unless it is there already.
pub open spec fn added(list: Seq<Seq<char>>, x: Seq<char>) -> Seq<Seq<char>> {
    if list.contains(x) {
        list
    } else {
        list.push(x)
    }
}

proof fn lemma_uid_end(s: Seq<char>, i: int)
    requires
        i <= s.len(),
    ensures
        i <= uid_end(s, i) <= s.len(),
    decreases s.len() - i,
{
    if i < s.len() && !ends_uid(s[i]) {
        lemma_uid_end(s, i + 1);
    }
}

/// Where the next uid of a text at or after `i` starts and ends.
pub open spec fn next_uid(s: Seq<char>, i: int) -> Option<(int, int)> {
    match text::first_at(s, "uid="@, i) {
        Some(k) => Some((k + 4, uid_end(s, k + 4))),
        None => None,
    }
}

/// The next uid lies after `i`.
pub proof fn lemma_next_uid(s: Seq<char>, i: int)
    requires
        0 <= i,
    ensures
        next_uid(s, i) matches Some((a, e)) ==> i + 4 <= a <= e <= s.len(),
{
    reveal_strlit("uid=");
    text::lemma_first_at(s, "uid="@, i);
    if let Some(k) = text::first_at(s, "uid="@, i) {
        lemma_uid_end(s, k + 4);
    }
}

/// The uids of a text from `i` on, added to a list.
pub open spec fn gathered(list: Seq<Seq<char>>, s: Seq<char>, i: int) -> Seq<Seq<char>>
    decreases s.len() - i,
    when 0 <= i
{
    proof {
        lemma_next_uid(s, i);
    }
    match next_uid(s, i) {
        Some((a, e)) => gathered(
            if e > a {
                added(list, s.subrange(a, e))
            } else {
                list
            },
            s,
            e,
        ),
        None => list,
    }
}

/// The uids of a text from `i` on.
pub open spec fn text_uids(s: Seq<char>, i: int) -> Set<Seq<char>>
    decreases s.len() - i,
    when 0 <= i
{
    proof {
        lemma_next_uid(s, i);
    }
    match next_uid(s, i) {
        Some((a, e)) => if e > a {
            text_uids(s, e).insert(s.subrange(a, e))
        } else {
            text_uids(s, e)
        },
        None => Set::empty(),
    }
}

/// What stands in the place of a uid.
pub open spec fn substitute(f: Map<Seq<char>, Seq<char>>, raw: Seq<char>) -> Seq<char> {
    if f.contains_key(raw) {
        f[raw]
    } else {
        raw
    }
}

/// The text from `i` on with its uids replaced.
pub open spec fn text_replaced(f: Map<Seq<char>, Seq<char>>, s: Seq<char>, i: int) -> Seq<char>
    decreases s.len() - i,
    when 0 <= i
{
    proof {
        lemma_next_uid(s, i);
    }
    match next_uid(s, i) {
        Some((a, e)) => s.subrange(i, a) + substitute(f, s.subrange(a, e)) + text_replaced(
            f,
            s,
            e,
        ),
        None => s.skip(i),
    }
}

proof fn lemma_gathered_set(list: Seq<Seq<char>>, s: Seq<char>, i: int)
    requires
        0 <= i,
    ensures
        gathered(list, s, i).to_set() == list.to_set().union(text_uids(s, i)),
    decreases s.len() - i,
{
    lemma_next_uid(s, i);
    match next_uid(s, i) {
        Some((a, e)) => {
            if e > a {
                let x = s.subrange(a, e);
                lemma_added(list, x);
                lemma_gathered_set(added(list, x), s, e);
                assert(list.to_set().insert(x).union(text_uids(s, e)) =~= list.to_set().union(
                    text_uids(s, i),
                ));
            } else {
                lemma_gathered_set(list, s, e);
            }
        },
        None => {
            assert(list.to_set().union(Set::empty()) =~= list.to_set());
        },
    }
}

proof fn lemma_added(list: Seq<Seq<char>>, x: Seq<char>)
    ensures
        added(list, x).to_set() == list.to_set().insert(x),
{
    let more = added(list, x);
    if !list.contains(x) {
        assert forall|y: Seq<char>| more.to_set().contains(y) <==> list.to_set().insert(x).contains(
            y,
        ) by {
            if list.contains(y) {
                let w = choose|w: int| 0 <= w < list.len() && list[w] == y;
                assert(more[w] == y);
            }
            if y == x {
                assert(more[list.len() as int] == y);
            }
        }
    } else {
        assert(list.to_set().insert(x) =~= list.to_set());
    }
    assert(more.to_set() =~= list.to_set().insert(x));
}

/// Adds a text to a list, unless it is there already.
pub fn push_unique(out: &mut Vec<String>, value: &str)
    ensures
        text::texts(final(out)@) == added(text::texts(old(out)@), value@),
{
    let ghost list = text::texts(out@);
    let mut i: usize = 0;
    while i < out.len()
        invariant
            i <= out.len(),
            out@ == old(out)@,
            list == text::texts(out@),
            forall|j: int| 0 <= j < i ==> (#[trigger] list[j]) != value@,
        decreases out.len() - i,
    {
        if same(out[i].as_str(), value) {
            assert(list[i as int] == value@);
            return ;
        }
        assert(list[i as int] != value@);
        i = i + 1;
    }
    assert(!list.contains(value@));
    let s = value.to_string();
    proof {
        text::lemma_texts_push(out@, s);
    }
    out.push(s);
}

/// Where a uid that starts at `i` ends.
fn find_uid_end(chars: &Vec<char>, start: usize) -> (r: usize)
    requires
        start <= chars.len(),
    ensures
        r == uid_end(chars@, start as int),
        start <= r <= chars.len(),
{
    let mut i: usize = start;
    while i < chars.len()
        invariant
            start <= i <= chars.len(),
            uid_end(chars@, start as int) == uid_end(chars@, i as int),
        decreases chars.len() - i,
    {
        let c = chars[i];
        if is_whitespace(c) || c == ')' || c == ']' || c == '}' || c == ',' || c == ';' || c == '"'
            || c == '\'' {
            return i;
        }
        i = i + 1;
    }
    i
}

/// Adds the uids of a text to a list.
pub fn collect_text_uids(text: &str, out: &mut Vec<String>)
    ensures
        text::texts(final(out)@) == gathered(text::texts(old(out)@), text@, 0),
{
    let chars = chars_of(text);
    let marker = chars_of("uid=");
    proof {
        reveal_strlit("uid=");
    }
    let mut i: usize = 0;
    loop
        invariant
            chars@ == text@,
            marker@ == "uid="@,
            marker.len() == 4,
            i <= chars.len(),
            gathered(text::texts(out@), text@, i as int) == gathered(
                text::texts(old(out)@),
                text@,
                0,
            ),
        decreases chars.len() - i,
    {
        match find_from(&chars, &marker, i) {
            Some(k) => {
                let start: usize = k + 4;
                let end: usize = find_uid_end(&chars, start);
                if end > start {
                    let raw = slice(&chars, start, end);
                    push_unique(out, raw.as_str());
                }
                i = end;
            },
            None => {
                return ;
            },
        }
    }
}

/// A text with its uids replaced.
pub fn replace_text_uids(text: &str, replacements: &Table<String>) -> (r: String)
    ensures
        r@ == text_replaced(session::string_views(replacements@), text@, 0),
{
    let ghost f = session::string_views(replacements@);
    let chars = chars_of(text);
    let marker = chars_of("uid=");
    proof {
        reveal_strlit("uid=");
    }
    let mut out = String::new();
    let mut i: usize = 0;
    assert(out@ + text_replaced(f, text@, 0) =~= text_replaced(f, text@, 0));
    loop
        invariant
            chars@ == text@,
            marker@ == "uid="@,
            marker.len() == 4,
            i <= chars.len(),
            f == session::string_views(replacements@),
            out@ + text_replaced(f, text@, i as int) == text_replaced(f, text@, 0),
        decreases chars.len() - i,
    {
        let ghost before = out@;
        match find_from(&chars, &marker, i) {
            Some(k) => {
                let start: usize = k + 4;
                let end: usize = find_uid_end(&chars, start);
                let kept = slice(&chars, i, start);
                out.append(kept.as_str());
                let raw = slice(&chars, start, end);
                match replacements.get(raw.as_str()) {
                    Some(token) => out.append(token.as_str()),
                    None => out.append(raw.as_str()),
                }
                assert(out@ + text_replaced(f, text@, end as int) =~= before + text_replaced(
                    f,
                    text@,
                    i as int,
                ));
                i = end;
            },
            None => {
                let rest = slice(&chars, i, chars.len());
                out.append(rest.as_str());
                assert(rest@ =~= text@.skip(i as int));
                return out;
            },
        }
    }
}

/// The uids in a value: the texts under keys named `uid`, and those in running text.
pub open spec fn raw_uids(v: JsonView) -> Set<Seq<char>>
    decreases v,
{
    match v {
        JsonView::Object(m) => Set::new(
            |u: Seq<char>|
                exists|k: Seq<char>| #[trigger]
                    m.contains_key(k) && (if k == "uid"@ {
                        m[k] == JsonView::Str(u)
                    } else {
                        raw_uids(m[k]).contains(u)
                    }),
        ),
        JsonView::Array(items) => Set::new(
            |u: Seq<char>|
                exists|i: int| 0 <= i < items.len() && raw_uids(#[trigger] items[i]).contains(u),
        ),
        JsonView::Str(s) => text_uids(s, 0),
        _ => Set::empty(),
    }
}

/// A value with its uids replaced.
pub open spec fn uids_replaced(v: JsonView, f: Map<Seq<char>, Seq<char>>) -> JsonView
    decreases v,
{
    match v {
        JsonView::Object(m) => JsonView::Object(
            Map::new(
                |k: Seq<char>| m.contains_key(k),
                |k: Seq<char>|
                    if !m.contains_key(k) {
                        JsonView::Null
                    } else if k == "uid"@ {
                        match m[k] {
                            JsonView::Str(s) => JsonView::Str(substitute(f, s)),
                            _ => m[k],
                        }
                    } else {
                        uids_replaced(m[k], f)
                    },
            ),
        ),
        JsonView::Array(items) => JsonView::Array(
            Seq::new(
                items.len(),
                |i: int|
                    if 0 <= i < items.len() {
                        uids_replaced(items[i], f)
                    } else {
                        JsonView::Null
                    },
            ),
        ),
        JsonView::Str(s) => JsonView::Str(text_replaced(f, s, 0)),
        _ => v,
    }
}

/// The uids of a value, added to a list as they are met: an object is gone through in the
/// order of its keys, an array from the first item on.
pub open spec fn collected(list: Seq<Seq<char>>, v: JsonView) -> Seq<Seq<char>>
    decreases v, 1nat, 0nat,
{
    match v {
        JsonView::Object(m) => members_collected(list, v, json::key_order(m).len()),
        JsonView::Array(items) => items_collected(list, v, items.len()),
        JsonView::Str(s) => gathered(list, s, 0),
        _ => list,
    }
}

/// The uids of an object's members under its first `n` keys, added to a list.
pub open spec fn members_collected(list: Seq<Seq<char>>, v: JsonView, n: nat) -> Seq<Seq<char>>
    decreases v, 0nat, n,
{
    match v {
        JsonView::Object(m) => {
            let key = json::key_order(m)[n - 1];
            if n == 0 || !m.contains_key(key) {
                list
            } else {
                let before = members_collected(list, v, (n - 1) as nat);
                if key == "uid"@ {
                    match m[key] {
                        JsonView::Str(raw) => added(before, raw),
                        _ => before,
                    }
                } else {
                    collected(before, m[key])
                }
            }
        },
        _ => list,
    }
}

/// The uids of an array's first `n` items, added to a list.
pub open spec fn items_collected(list: Seq<Seq<char>>, v: JsonView, n: nat) -> Seq<Seq<char>>
    decreases v, 0nat, n,
{
    match v {
        JsonView::Array(items) => if 0 < n <= items.len() {
            collected(items_collected(list, v, (n - 1) as nat), items[n - 1])
        } else {
            list
        },
        _ => list,
    }
}

/// The uids in an object's members under some keys.
pub open spec fn members_uids(m: Map<Seq<char>, JsonView>, keys: Seq<Seq<char>>) -> Set<
    Seq<char>,
> {
    Set::new(|u: Seq<char>| members_bring(m, keys, u))
}

/// Whether the member under one of some keys brings in a uid.
pub open spec fn members_bring(
    m: Map<Seq<char>, JsonView>,
    keys: Seq<Seq<char>>,
    u: Seq<char>,
) -> bool {
    exists|k: Seq<char>| #[trigger]
        keys.contains(k) && (if k == "uid"@ {
            m[k] == JsonView::Str(u)
        } else {
            raw_uids(m[k]).contains(u)
        })
}

/// Adds the uids in a value to a list, in the order in which they are met.
pub fn collect_raw_uids(value: &Json, out: &mut Vec<String>)
    ensures
        text::texts(final(out)@) == collected(text::texts(old(out)@), value@),
        text::texts(final(out)@).to_set() == text::texts(old(out)@).to_set().union(
            raw_uids(value@),
        ),
    decreases value,
{
    let ghost list = text::texts(out@);
    let ghost start = list.to_set();
    match value {
        Json::Object(fields) => {
            let ghost m = json::members(fields@);
            let ghost keys = json::key_order(m);
            let order = json::in_key_order(fields);
            let mut i: usize = 0;
            proof {
                assert(start.union(members_uids(m, keys.take(0))) =~= start);
            }
            while i < order.len()
                invariant
                    i <= order.len(),
                    *value == Json::Object(*fields),
                    m == json::members(fields@),
                    keys == json::key_order(m),
                    keys == json::keys_at(fields@, order@),
                    forall|p: int|
                        0 <= p < order.len() ==> json::counts(
                            fields@,
                            (#[trigger] order@[p]) as int,
                        ),
                    list == text::texts(old(out)@),
                    text::texts(out@) == members_collected(list, value@, i as nat),
                    text::texts(out@).to_set() == start.union(
                        members_uids(m, keys.take(i as int)),
                    ),
                decreases order.len() - i,
            {
                let ghost before = text::texts(out@).to_set();
                let ghost mut more: Set<Seq<char>> = Set::empty();
                let at: usize = order[i];
                let ghost key = keys[i as int];
                proof {
                    assert(json::counts(fields@, at as int));
                    json::lemma_entry_member(fields@, at as int);
                    assert(key == fields@[at as int].0@);
                }
                if same(fields[at].0.as_str(), "uid") {
                    if let Some(raw) = fields[at].1.as_str() {
                        proof {
                            lemma_added(text::texts(out@), raw@);
                            more = more.insert(raw@);
                        }
                        push_unique(out, raw);
                    }
                } else {
                    assert(decreases_to!(*value => value->Object_0));
                    assert(decreases_to!(value->Object_0@ => value->Object_0@[at as int]));
                    assert(decreases_to!(fields@[at as int] => fields@[at as int].1));
                    collect_raw_uids(&fields[at].1, out);
                    proof {
                        more = raw_uids(m[key]);
                    }
                }
                proof {
                    assert(text::texts(out@).to_set() =~= before.union(more));
                    let front = keys.take(i as int);
                    let next = keys.take(i + 1);
                    assert(next =~= front.push(key));
                    assert forall|u: Seq<char>| #[trigger]
                        members_uids(m, next).contains(u) <==> members_uids(m, front).contains(u)
                            || more.contains(u) by {
                        if members_bring(m, front, u) {
                            let k = choose|k: Seq<char>| #[trigger]
                                front.contains(k) && (if k == "uid"@ {
                                    m[k] == JsonView::Str(u)
                                } else {
                                    raw_uids(m[k]).contains(u)
                                });
                            let w = choose|w: int| 0 <= w < front.len() && front[w] == k;
                            assert(next[w] == k);
                            assert(next.contains(k));
                        }
                        if more.contains(u) {
                            assert(next[i as int] == key);
                            assert(next.contains(key));
                        }
                        if members_bring(m, next, u) {
                            let k = choose|k: Seq<char>| #[trigger]
                                next.contains(k) && (if k == "uid"@ {
                                    m[k] == JsonView::Str(u)
                                } else {
                                    raw_uids(m[k]).contains(u)
                                });
                            let w = choose|w: int| 0 <= w < next.len() && next[w] == k;
                            if w < i {
                                assert(front[w] == k);
                                assert(front.contains(k));
                            }
                        }
                    }
                    assert(text::texts(out@).to_set() =~= start.union(members_uids(m, next)));
                }
                i = i + 1;
            }
            proof {
                assert(keys.take(i as int) =~= keys);
                assert forall|u: Seq<char>| raw_uids(value@).contains(u) <==> members_bring(
                    m,
                    keys,
                    u,
                ) by {
                    if raw_uids(value@).contains(u) {
                        let k = choose|k: Seq<char>| #[trigger]
                            m.contains_key(k) && (if k == "uid"@ {
                                m[k] == JsonView::Str(u)
                            } else {
                                raw_uids(m[k]).contains(u)
                            });
                        assert(keys.to_set().contains(k));
                        assert(keys.contains(k));
                    }
                    if members_bring(m, keys, u) {
                        let k = choose|k: Seq<char>| #[trigger]
                            keys.contains(k) && (if k == "uid"@ {
                                m[k] == JsonView::Str(u)
                            } else {
                                raw_uids(m[k]).contains(u)
                            });
                        assert(keys.to_set().contains(k));
                        assert(m.contains_key(k));
                    }
                }
                assert(members_uids(m, keys) =~= raw_uids(value@));
            }
        },
        Json::Array(items) => {
            let ghost all = json::trees(items@);
            proof {
                json::lemma_trees_index(items@);
            }
            let mut i: usize = 0;
            proof {
                assert(start.union(array_uids(all, 0)) =~= start);
            }
            while i < items.len()
                invariant
                    i <= items.len(),
                    *value == Json::Array(*items),
                    all == json::trees(items@),
                    all.len() == items.len(),
                    forall|j: int| 0 <= j < all.len() ==> #[trigger] all[j] == json::tree(items@[j]),
                    list == text::texts(old(out)@),
                    text::texts(out@) == items_collected(list, value@, i as nat),
                    text::texts(out@).to_set() == start.union(array_uids(all, i as int)),
                decreases items.len() - i,
            {
                assert(decreases_to!(*value => value->Array_0));
                assert(decreases_to!(value->Array_0@ => value->Array_0@[i as int]));
                collect_raw_uids(&items[i], out);
                proof {
                    assert forall|u: Seq<char>|
                        array_uids(all, i + 1).contains(u) <==> array_uids(all, i as int).contains(
                            u,
                        ) || raw_uids(all[i as int]).contains(u) by {
                        if array_uids(all, i as int).contains(u) {
                            let j = choose|j: int|
                                0 <= j < i && raw_uids(#[trigger] all[j]).contains(u);
                            assert(raw_uids(all[j]).contains(u));
                        }
                    }
                    assert(text::texts(out@).to_set() =~= start.union(array_uids(all, i + 1)));
                }
                i = i + 1;
            }
            proof {
                assert(array_uids(all, i as int) =~= raw_uids(value@));
            }
        },
        Json::Str(text) => {
            proof {
                lemma_gathered_set(list, text@, 0);
            }
            collect_text_uids(text.as_str(), out);
        },
        _ => {
            assert(start.union(Set::empty()) =~= start);
        },
    }
}

/// Whether a list was only added to, and where it held nothing twice holds nothing twice.
pub open spec fn extended(list: Seq<Seq<char>>, more: Seq<Seq<char>>) -> bool {
    &&& list.is_prefix_of(more)
    &&& list.no_duplicates() ==> more.no_duplicates()
}

proof fn lemma_added_extends(list: Seq<Seq<char>>, x: Seq<char>)
    ensures
        extended(list, added(list, x)),
{
    let more = added(list, x);
    assert(more.take(list.len() as int) =~= list);
    if !list.contains(x) && list.no_duplicates() {
        assert forall|a: int, b: int|
            0 <= a < more.len() && 0 <= b < more.len() && a != b implies more[a] != more[b] by {
            if a == list.len() {
                assert(list.contains(list[b]));
            }
            if b == list.len() {
                assert(list.contains(list[a]));
            }
        }
    }
}

proof fn lemma_extended_again(a: Seq<Seq<char>>, b: Seq<Seq<char>>, c: Seq<Seq<char>>)
    requires
        extended(a, b),
        extended(b, c),
    ensures
        extended(a, c),
{
    assert(a =~= c.take(a.len() as int)) by {
        assert forall|i: int| 0 <= i < a.len() implies a[i] == c[i] by {
            assert(b.take(a.len() as int)[i] == b[i]);
            assert(c.take(b.len() as int)[i] == c[i]);
        }
    }
}

proof fn lemma_gathered_extends(list: Seq<Seq<char>>, s: Seq<char>, i: int)
    requires
        0 <= i,
    ensures
        extended(list, gathered(list, s, i)),
    decreases s.len() - i,
{
    lemma_next_uid(s, i);
    match next_uid(s, i) {
        Some((a, e)) => {
            if e > a {
                let more = added(list, s.subrange(a, e));
                lemma_added_extends(list, s.subrange(a, e));
                lemma_gathered_extends(more, s, e);
                lemma_extended_again(list, more, gathered(list, s, i));
            } else {
                lemma_gathered_extends(list, s, e);
            }
        },
        None => {
            assert(list.take(list.len() as int) =~= list);
        },
    }
}

/// Uids are collected behind those that a list holds already, and none twice.
pub proof fn collecting_extends_a_list(list: Seq<Seq<char>>, v: JsonView)
    ensures
        extended(list, collected(list, v)),
    decreases v, 1nat, 0nat,
{
    match v {
        JsonView::Object(m) => {
            lemma_members_extend(list, v, json::key_order(m).len());
        },
        JsonView::Array(items) => {
            lemma_items_extend(list, v, items.len());
        },
        JsonView::Str(s) => {
            lemma_gathered_extends(list, s, 0);
        },
        _ => {
            assert(list.take(list.len() as int) =~= list);
        },
    }
}

proof fn lemma_members_extend(list: Seq<Seq<char>>, v: JsonView, n: nat)
    ensures
        extended(list, members_collected(list, v, n)),
    decreases v, 0nat, n,
{
    assert(list.take(list.len() as int) =~= list);
    if let JsonView::Object(m) = v {
        let key = json::key_order(m)[n - 1];
        if n > 0 && m.contains_key(key) {
            let before = members_collected(list, v, (n - 1) as nat);
            lemma_members_extend(list, v, (n - 1) as nat);
            if key == "uid"@ {
                if let JsonView::Str(raw) = m[key] {
                    lemma_added_extends(before, raw);
                    lemma_extended_again(list, before, added(before, raw));
                }
            } else {
                assert(decreases_to!(v => m[key]));
                collecting_extends_a_list(before, m[key]);
                lemma_extended_again(list, before, collected(before, m[key]));
            }
        }
    }
}

proof fn lemma_items_extend(list: Seq<Seq<char>>, v: JsonView, n: nat)
    ensures
        extended(list, items_collected(list, v, n)),
    decreases v, 0nat, n,
{
    assert(list.take(list.len() as int) =~= list);
    if let JsonView::Array(items) = v {
        if 0 < n <= items.len() {
            let before = items_collected(list, v, (n - 1) as nat);
            lemma_items_extend(list, v, (n - 1) as nat);
            assert(decreases_to!(v => items[n - 1]));
            collecting_extends_a_list(before, items[n - 1]);
            lemma_extended_again(list, before, collected(before, items[n - 1]));
        }
    }
}

/// The uids in the first `n` items.
pub open spec fn array_uids(items: Seq<JsonView>, n: int) -> Set<Seq<char>> {
    Set::new(|u: Seq<char>| exists|i: int| 0 <= i < n && raw_uids(#[trigger] items[i]).contains(u))
}

/// What becomes of an object's member.
pub open spec fn member_replaced(
    key: Seq<char>,
    v: JsonView,
    f: Map<Seq<char>, Seq<char>>,
) -> JsonView {
    if key == "uid"@ {
        match v {
            JsonView::Str(s) => JsonView::Str(substitute(f, s)),
            _ => v,
        }
    } else {
        uids_replaced(v, f)
    }
}

proof fn lemma_members_replaced(
    before: Seq<(String, Json)>,
    after: Seq<(String, Json)>,
    f: Map<Seq<char>, Seq<char>>,
)
    requires
        before.len() == after.len(),
        forall|j: int|
            0 <= j < before.len() ==> (#[trigger] after[j]).0@ == before[j].0@ && json::tree(
                after[j].1,
            ) == member_replaced(before[j].0@, json::tree(before[j].1), f),
    ensures
        JsonView::Object(json::members(after)) == uids_replaced(
            JsonView::Object(json::members(before)),
            f,
        ),
    decreases before.len(),
{
    if before.len() > 0 {
        let b = before.drop_last();
        let a = after.drop_last();
        assert forall|j: int| 0 <= j < b.len() implies (#[trigger] a[j]).0@ == b[j].0@
            && json::tree(a[j].1) == member_replaced(b[j].0@, json::tree(b[j].1), f) by {
            assert(a[j] == after[j] && b[j] == before[j]);
        }
        lemma_members_replaced(b, a, f);
        assert(after[after.len() - 1].0@ == before[before.len() - 1].0@);
    }
    let done = uids_replaced(JsonView::Object(json::members(before)), f);
    assert(json::members(after) =~= done->Object_0);
}

/// Puts tokens in the place of the uids in a value.
pub fn replace_raw_uids(value: &mut Json, replacements: &Table<String>)
    ensures
        final(value)@ == uids_replaced(old(value)@, session::string_views(replacements@)),
    decreases *old(value),
{
    let ghost f = session::string_views(replacements@);
    let ghost original = *value;
    match value {
        Json::Object(fields) => {
            let ghost all = fields@;
            let mut i: usize = 0;
            while i < fields.len()
                invariant
                    i <= fields.len(),
                    fields.len() == all.len(),
                    f == session::string_views(replacements@),
                    original == *old(value),
                    original is Object,
                    original->Object_0@ == all,
                    forall|j: int|
                        0 <= j < i ==> (#[trigger] fields@[j]).0@ == all[j].0@ && json::tree(
                            fields@[j].1,
                        ) == member_replaced(all[j].0@, json::tree(all[j].1), f),
                    forall|j: int| i <= j < all.len() ==> #[trigger] fields@[j] == all[j],
                decreases all.len() - i,
            {
                let named = same(fields[i].0.as_str(), "uid");
                let entry = &mut fields[i];
                if named {
                    let token = match entry.1.as_str() {
                        Some(raw) => match replacements.get(raw) {
                            Some(token) => Some(token.clone()),
                            None => None,
                        },
                        None => None,
                    };
                    if let Some(token) = token {
                        entry.1 = Json::Str(token);
                    }
                } else {
                    assert(decreases_to!(original => original->Object_0));
                    assert(decreases_to!(original->Object_0@ => original->Object_0@[i as int]));
                    assert(decreases_to!(all[i as int] => all[i as int].1));
                    replace_raw_uids(&mut entry.1, replacements);
                }
                i = i + 1;
            }
            proof {
                lemma_members_replaced(all, fields@, f);
            }
        },
        Json::Array(items) => {
            let ghost all = items@;
            let mut i: usize = 0;
            while i < items.len()
                invariant
                    i <= items.len(),
                    items.len() == all.len(),
                    f == session::string_views(replacements@),
                    original == *old(value),
                    original is Array,
                    original->Array_0@ == all,
                    forall|j: int|
                        0 <= j < i ==> json::tree(#[trigger] items@[j]) == uids_replaced(
                            json::tree(all[j]),
                            f,
                        ),
                    forall|j: int| i <= j < all.len() ==> #[trigger] items@[j] == all[j],
                decreases all.len() - i,
            {
                assert(decreases_to!(original => original->Array_0));
                assert(decreases_to!(original->Array_0@ => original->Array_0@[i as int]));
                let item = &mut items[i];
                replace_raw_uids(item, replacements);
                i = i + 1;
            }
            proof {
                json::lemma_trees_index(all);
                json::lemma_trees_index(items@);
                let done = uids_replaced(JsonView::Array(json::trees(all)), f);
                assert(json::trees(items@) =~= done->Array_0);
            }
        },
        Json::Str(text) => {
            let replaced = replace_text_uids(text.as_str(), replacements);
            *text = replaced;
        },
        _ => {},
    }
}

/// A snapshot on a session's page: the value with tokens in the place of its uids, or
/// nothing where it has none, and the registry afterwards.
pub open spec fn tokenized(
    m: Map<Seq<char>, SessionView>,
    v: JsonView,
    id: Seq<char>,
    page: u64,
    now: int,
) -> (Result<Option<JsonView>, Seq<char>>, Map<Seq<char>, SessionView>) {
    let uids = raw_uids(v);
    if uids == Set::<Seq<char>>::empty() {
        (Ok(None), m)
    } else if !m.contains_key(id) {
        (Err(session::unknown_session(id)), m)
    } else {
        let tokens = session::token_map(id, session::next_epoch(m[id].epoch), uids);
        (
            Ok(Some(uids_replaced(v, tokens))),
            m.insert(id, session::snapped(m[id], id, page, uids, now)),
        )
    }
}

/// A response line with tokens in the place of its uids, and the registry afterwards.
pub open spec fn line_tokenized(
    m: Map<Seq<char>, SessionView>,
    line: Seq<char>,
    id: Seq<char>,
    page: u64,
    now: int,
) -> (Result<Seq<char>, Seq<char>>, Map<Seq<char>, SessionView>) {
    match json::json_parse(line) {
        Ok(v) => match tokenized(m, v, id, page, now) {
            (Ok(Some(w)), n) => (Ok(json::json_text(w)), n),
            (Ok(None), n) => (Ok(line), n),
            (Err(message), n) => (Err(message), n),
        },
        Err(_) => (Ok(line), m),
    }
}

/// Response lines with tokens in the place of their uids, up to the first error.
pub open spec fn lines_tokenized(
    m: Map<Seq<char>, SessionView>,
    lines: Seq<Seq<char>>,
    id: Seq<char>,
    page: u64,
    now: int,
) -> (Result<Seq<Seq<char>>, Seq<char>>, Map<Seq<char>, SessionView>)
    decreases lines.len(),
{
    if lines.len() == 0 {
        (Ok(Seq::empty()), m)
    } else {
        match lines_tokenized(m, lines.drop_last(), id, page, now) {
            (Ok(done), n) => match line_tokenized(n, lines.last(), id, page, now) {
                (Ok(line), n2) => (Ok(done.push(line)), n2),
                (Err(message), n2) => (Err(message), n2),
            },
            (Err(message), n) => (Err(message), n),
        }
    }
}

/// Puts tokens in the place of the uids in a response. Nothing is returned where it has
/// none.
pub fn tokenize_value(
    value: Json,
    sessions: &mut SessionRegistry,
    session_id: &str,
    page_id: u64,
    now: i128,
) -> (r: Result<Option<Json>, String>)
    requires
        old(sessions).wf(),
    ensures
        final(sessions).wf(),
        final(sessions).made() == old(sessions).made(),
        match r {
            Ok(w) => tokenized(old(sessions)@, value@, session_id@, page_id, now as int) == (
                Ok::<_, Seq<char>>(crate::rpc::opt_view(w)),
                final(sessions)@,
            ),
            Err(message) => tokenized(old(sessions)@, value@, session_id@, page_id, now as int) == (
                Err::<Option<JsonView>, _>(message@),
                final(sessions)@,
            ),
        },
{
    let mut raw: Vec<String> = Vec::new();
    proof {
        assert(text::texts(raw@) =~= Seq::empty());
    }
    collect_raw_uids(&value, &mut raw);
    let ghost uids = raw_uids(value@);
    proof {
        assert(Seq::<Seq<char>>::empty().to_set().union(uids) =~= uids);
        if raw.len() > 0 {
            assert(text::texts(raw@).contains(text::texts(raw@)[0]));
            assert(uids.contains(text::texts(raw@)[0]));
        } else {
            assert(uids =~= Set::empty());
        }
    }
    if raw.len() == 0 {
        return Ok(None);
    }
    match sessions.record_snapshot_uids(session_id, page_id, &raw, now) {
        Ok(replacements) => {
            let mut value = value;
            replace_raw_uids(&mut value, &replacements);
            Ok(Some(value))
        },
        Err(message) => Err(message),
    }
}

/// Puts tokens in the place of the uids in a response line.
pub fn rewrite_uid_response(
    line: &str,
    sessions: &mut SessionRegistry,
    session_id: &str,
    page_id: u64,
    now: i128,
) -> (r: Result<String, String>)
    requires
        old(sessions).wf(),
    ensures
        final(sessions).wf(),
        final(sessions).made() == old(sessions).made(),
        (text::result_text(r), final(sessions)@) == line_tokenized(
            old(sessions)@,
            line@,
            session_id@,
            page_id,
            now as int,
        ),
{
    match Json::parse(line) {
        Ok(value) => match tokenize_value(value, sessions, session_id, page_id, now) {
            Ok(Some(rewritten)) => Ok(rewritten.text()),
            Ok(None) => Ok(line.to_string()),
            Err(message) => Err(message),
        },
        Err(_) => Ok(line.to_string()),
    }
}

/// The texts of a list of strings, or the message of an error.
pub open spec fn result_texts(r: Result<Vec<String>, String>) -> Result<
    Seq<Seq<char>>,
    Seq<char>,
> {
    match r {
        Ok(lines) => Ok(text::texts(lines@)),
        Err(message) => Err(message@),
    }
}

proof fn lemma_tokenized_prefix(
    m: Map<Seq<char>, SessionView>,
    lines: Seq<Seq<char>>,
    n: int,
    id: Seq<char>,
    page: u64,
    now: int,
)
    requires
        0 <= n <= lines.len(),
        lines_tokenized(m, lines.take(n), id, page, now).0 is Err,
    ensures
        lines_tokenized(m, lines, id, page, now) == lines_tokenized(
            m,
            lines.take(n),
            id,
            page,
            now,
        ),
    decreases lines.len() - n,
{
    if n < lines.len() {
        assert(lines.take(n + 1).drop_last() =~= lines.take(n));
        lemma_tokenized_prefix(m, lines, n + 1, id, page, now);
    } else {
        assert(lines.take(n) =~= lines);
    }
}

/// Puts tokens in the place of the uids in response lines.
pub fn rewrite_uid_responses(
    lines: Vec<String>,
    sessions: &mut SessionRegistry,
    session_id: &str,
    page_id: u64,
    now: i128,
) -> (r: Result<Vec<String>, String>)
    requires
        old(sessions).wf(),
    ensures
        final(sessions).wf(),
        final(sessions).made() == old(sessions).made(),
        (result_texts(r), final(sessions)@) == lines_tokenized(
            old(sessions)@,
            text::texts(lines@),
            session_id@,
            page_id,
            now as int,
        ),
{
    let ghost all = text::texts(lines@);
    let ghost start = sessions@;
    let mut out: Vec<String> = Vec::new();
    let mut i: usize = 0;
    assert(all.take(0) =~= Seq::empty());
    assert(text::texts(out@) =~= Seq::empty());
    while i < lines.len()
        invariant
            i <= lines.len(),
            all == text::texts(lines@),
            start == old(sessions)@,
            sessions.wf(),
            sessions.made() == old(sessions).made(),
            lines_tokenized(start, all.take(i as int), session_id@, page_id, now as int) == (
                Ok::<_, Seq<char>>(text::texts(out@)),
                sessions@,
            ),
        decreases lines.len() - i,
    {
        proof {
            assert(all.take(i + 1).drop_last() =~= all.take(i as int));
        }
        match rewrite_uid_response(lines[i].as_str(), sessions, session_id, page_id, now) {
            Ok(line) => {
                proof {
                    text::lemma_texts_push(out@, line);
                }
                out.push(line);
            },
            Err(message) => {
                proof {
                    lemma_tokenized_prefix(start, all, i + 1, session_id@, page_id, now as int);
                }
                return Err(message);
            },
        }
        i = i + 1;
    }
    assert(all.take(i as int) =~= all);
    Ok(out)
}

/// A value whose member holds a token with the uid in its place, or why the token is
/// refused.
pub open spec fn key_translated(
    m: Map<Seq<char>, SessionView>,
    id: Seq<char>,
    page: u64,
    v: JsonView,
    key: Seq<char>,
) -> Result<JsonView, Seq<char>> {
    match json::text_field(v, key) {
        Some(tok) => match session::translated_in(m, id, page, tok) {
            Ok(raw) => Ok(json::put(v, key, JsonView::Str(raw))),
            Err(message) => Err(message),
        },
        None => Ok(v),
    }
}

/// Items each with the token under `uid` translated, up to the first error.
pub open spec fn elements_translated(
    m: Map<Seq<char>, SessionView>,
    id: Seq<char>,
    page: u64,
    items: Seq<JsonView>,
) -> Result<Seq<JsonView>, Seq<char>>
    decreases items.len(),
{
    if items.len() == 0 {
        Ok(Seq::empty())
    } else {
        match elements_translated(m, id, page, items.drop_last()) {
            Ok(done) => match key_translated(m, id, page, items.last(), "uid"@) {
                Ok(item) => Ok(done.push(item)),
                Err(message) => Err(message),
            },
            Err(message) => Err(message),
        }
    }
}

/// An item that is a token, translated; any other as it is.
pub open spec fn item_translated(
    m: Map<Seq<char>, SessionView>,
    id: Seq<char>,
    page: u64,
    v: JsonView,
) -> Result<JsonView, Seq<char>> {
    match v {
        JsonView::Str(tok) => match session::translated_in(m, id, page, tok) {
            Ok(raw) => Ok(JsonView::Str(raw)),
            Err(message) => Err(message),
        },
        _ => Ok(v),
    }
}

/// Items that are tokens, translated, up to the first error.
pub open spec fn items_translated(
    m: Map<Seq<char>, SessionView>,
    id: Seq<char>,
    page: u64,
    items: Seq<JsonView>,
) -> Result<Seq<JsonView>, Seq<char>>
    decreases items.len(),
{
    if items.len() == 0 {
        Ok(Seq::empty())
    } else {
        match items_translated(m, id, page, items.drop_last()) {
            Ok(done) => match item_translated(m, id, page, items.last()) {
                Ok(item) => Ok(done.push(item)),
                Err(message) => Err(message),
            },
            Err(message) => Err(message),
        }
    }
}

/// The arguments with the tokens of `elements` translated.
pub open spec fn elements_field_translated(
    m: Map<Seq<char>, SessionView>,
    id: Seq<char>,
    page: u64,
    v: JsonView,
) -> Result<JsonView, Seq<char>> {
    match json::items_field(v, "elements"@) {
        Some(items) => match elements_translated(m, id, page, items) {
            Ok(done) => Ok(json::put(v, "elements"@, JsonView::Array(done))),
            Err(message) => Err(message),
        },
        None => Ok(v),
    }
}

/// The arguments with the tokens of `args` translated.
pub open spec fn args_field_translated(
    m: Map<Seq<char>, SessionView>,
    id: Seq<char>,
    page: u64,
    v: JsonView,
) -> Result<JsonView, Seq<char>> {
    match json::items_field(v, "args"@) {
        Some(items) => match items_translated(m, id, page, items) {
            Ok(done) => Ok(json::put(v, "args"@, JsonView::Array(done))),
            Err(message) => Err(message),
        },
        None => Ok(v),
    }
}

/// The arguments of a tool with every token in them translated: under `uid`, `from_uid`
/// and `to_uid`, in `elements` and in `args`. The first token that is refused decides.
pub open spec fn fields_translated(
    m: Map<Seq<char>, SessionView>,
    id: Seq<char>,
    page: u64,
    v: JsonView,
) -> Result<JsonView, Seq<char>> {
    match key_translated(m, id, page, v, "uid"@) {
        Err(message) => Err(message),
        Ok(v1) => match key_translated(m, id, page, v1, "from_uid"@) {
            Err(message) => Err(message),
            Ok(v2) => match key_translated(m, id, page, v2, "to_uid"@) {
                Err(message) => Err(message),
                Ok(v3) => match elements_field_translated(m, id, page, v3) {
                    Err(message) => Err(message),
                    Ok(v4) => args_field_translated(m, id, page, v4),
                },
            },
        },
    }
}

/// Translates the token under a key.
pub fn translate_uid_key(
    arguments: Json,
    key: &str,
    registry: &SessionRegistry,
    session_id: &str,
    page_id: u64,
) -> (r: Result<Json, String>)
    requires
        registry.wf(),
    ensures
        json::result_view(r) == key_translated(registry@, session_id@, page_id, arguments@, key@),
{
    let raw = match arguments.get_str(key) {
        Some(token) => match registry.translate_uid_token(session_id, page_id, token) {
            Ok(raw) => Some(raw),
            Err(message) => {
                return Err(message);
            },
        },
        None => None,
    };
    match raw {
        Some(raw) => Ok(arguments.with(key, Json::Str(raw))),
        None => Ok(arguments),
    }
}

proof fn lemma_elements_error(
    m: Map<Seq<char>, SessionView>,
    id: Seq<char>,
    page: u64,
    items: Seq<JsonView>,
    n: int,
)
    requires
        0 <= n <= items.len(),
        elements_translated(m, id, page, items.take(n)) is Err,
    ensures
        elements_translated(m, id, page, items) == elements_translated(m, id, page, items.take(n)),
    decreases items.len() - n,
{
    if n < items.len() {
        assert(items.take(n + 1).drop_last() =~= items.take(n));
        lemma_elements_error(m, id, page, items, n + 1);
    } else {
        assert(items.take(n) =~= items);
    }
}

proof fn lemma_items_error(
    m: Map<Seq<char>, SessionView>,
    id: Seq<char>,
    page: u64,
    items: Seq<JsonView>,
    n: int,
)
    requires
        0 <= n <= items.len(),
        items_translated(m, id, page, items.take(n)) is Err,
    ensures
        items_translated(m, id, page, items) == items_translated(m, id, page, items.take(n)),
    decreases items.len() - n,
{
    if n < items.len() {
        assert(items.take(n + 1).drop_last() =~= items.take(n));
        lemma_items_error(m, id, page, items, n + 1);
    } else {
        assert(items.take(n) =~= items);
    }
}

/// Translates the tokens under `uid` of a list of elements.
fn translate_elements(
    items: &Vec<Json>,
    registry: &SessionRegistry,
    session_id: &str,
    page_id: u64,
) -> (r: Result<Vec<Json>, String>)
    requires
        registry.wf(),
    ensures
        match r {
            Ok(done) => elements_translated(
                registry@,
                session_id@,
                page_id,
                json::trees(items@),
            ) == Ok::<_, Seq<char>>(json::trees(done@)),
            Err(message) => elements_translated(
                registry@,
                session_id@,
                page_id,
                json::trees(items@),
            ) == Err::<Seq<JsonView>, _>(message@),
        },
{
    let ghost all = json::trees(items@);
    proof {
        json::lemma_trees_index(items@);
        assert(all.take(0) =~= Seq::empty());
    }
    let mut out: Vec<Json> = Vec::new();
    let mut i: usize = 0;
    while i < items.len()
        invariant
            i <= items.len(),
            registry.wf(),
            all == json::trees(items@),
            all.len() == items.len(),
            forall|j: int| 0 <= j < all.len() ==> #[trigger] all[j] == json::tree(items@[j]),
            elements_translated(registry@, session_id@, page_id, all.take(i as int)) == Ok::<
                _,
                Seq<char>,
            >(json::trees(out@)),
        decreases items.len() - i,
    {
        proof {
            assert(all.take(i + 1).drop_last() =~= all.take(i as int));
        }
        match translate_uid_key(items[i].copy(), "uid", registry, session_id, page_id) {
            Ok(item) => {
                proof {
                    json::lemma_trees_push(out@, item);
                }
                out.push(item);
            },
            Err(message) => {
                proof {
                    lemma_elements_error(registry@, session_id@, page_id, all, i + 1);
                }
                return Err(message);
            },
        }
        i = i + 1;
    }
    assert(all.take(i as int) =~= all);
    Ok(out)
}

/// Translates the tokens among a list of items.
fn translate_items(
    items: &Vec<Json>,
    registry: &SessionRegistry,
    session_id: &str,
    page_id: u64,
) -> (r: Result<Vec<Json>, String>)
    requires
        registry.wf(),
    ensures
        match r {
            Ok(done) => items_translated(registry@, session_id@, page_id, json::trees(items@))
                == Ok::<_, Seq<char>>(json::trees(done@)),
            Err(message) => items_translated(
                registry@,
                session_id@,
                page_id,
                json::trees(items@),
            ) == Err::<Seq<JsonView>, _>(message@),
        },
{
    let ghost all = json::trees(items@);
    proof {
        json::lemma_trees_index(items@);
        assert(all.take(0) =~= Seq::empty());
    }
    let mut out: Vec<Json> = Vec::new();
    let mut i: usize = 0;
    while i < items.len()
        invariant
            i <= items.len(),
            registry.wf(),
            all == json::trees(items@),
            all.len() == items.len(),
            forall|j: int| 0 <= j < all.len() ==> #[trigger] all[j] == json::tree(items@[j]),
            items_translated(registry@, session_id@, page_id, all.take(i as int)) == Ok::<
                _,
                Seq<char>,
            >(json::trees(out@)),
        decreases items.len() - i,
    {
        proof {
            assert(all.take(i + 1).drop_last() =~= all.take(i as int));
        }
        let item = match items[i].as_str() {
            Some(token) => match registry.translate_uid_token(session_id, page_id, token) {
                Ok(raw) => Json::Str(raw),
                Err(message) => {
                    proof {
                        lemma_items_error(registry@, session_id@, page_id, all, i + 1);
                    }
                    return Err(message);
                },
            },
            None => items[i].copy(),
        };
        proof {
            json::lemma_trees_push(out@, item);
        }
        out.push(item);
        i = i + 1;
    }
    assert(all.take(i as int) =~= all);
    Ok(out)
}

/// Translates every token in the arguments of a tool.
pub fn translate_uid_fields(
    arguments: Json,
    registry: &SessionRegistry,
    session_id: &str,
    page_id: u64,
) -> (r: Result<Json, String>)
    requires
        registry.wf(),
    ensures
        json::result_view(r) == fields_translated(registry@, session_id@, page_id, arguments@),
{
    let a = match translate_uid_key(arguments, "uid", registry, session_id, page_id) {
        Ok(a) => a,
        Err(message) => {
            return Err(message);
        },
    };
    let a = match translate_uid_key(a, "from_uid", registry, session_id, page_id) {
        Ok(a) => a,
        Err(message) => {
            return Err(message);
        },
    };
    let a = match translate_uid_key(a, "to_uid", registry, session_id, page_id) {
        Ok(a) => a,
        Err(message) => {
            return Err(message);
        },
    };
    let elements = match a.get_array("elements") {
        Some(items) => match translate_elements(items, registry, session_id, page_id) {
            Ok(done) => Some(done),
            Err(message) => {
                return Err(message);
            },
        },
        None => None,
    };
    let a = match elements {
        Some(done) => a.with("elements", Json::Array(done)),
        None => a,
    };
    let args = match a.get_array("args") {
        Some(items) => match translate_items(items, registry, session_id, page_id) {
            Ok(done) => Some(done),
            Err(message) => {
                return Err(message);
            },
        },
        None => None,
    };
    match args {
        Some(done) => Ok(a.with("args", Json::Array(done))),
        None => Ok(a),
    }
}

} // verus!
