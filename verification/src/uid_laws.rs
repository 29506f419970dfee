//! What holds of the uids in responses and the tokens in their place.
use crate::json::JsonView;
use crate::places::Step;
use crate::session::SessionView;
use crate::{json, places, session, session_laws, text, uids};
use vstd::prelude::*;

verus! {

/// Whether a uid in running text ends before a character.
pub open spec fn closes(c: char) -> bool {
    ||| text::whitespace(c)
    ||| seq![')', ']', '}', ',', ';', '"', '\''].contains(c)
}

/// Whether a text can stand as a uid in running text.
pub open spec fn unbroken(u: Seq<char>) -> bool {
    forall|i: int| 0 <= i < u.len() ==> !closes(#[trigger] u[i])
}

/// Texts each with a marked uid behind it, one after the other, and a last text.
pub open spec fn spelled(pieces: Seq<(Seq<char>, Seq<char>)>, tail: Seq<char>) -> Seq<char>
    decreases pieces.len(),
{
    if pieces.len() == 0 {
        tail
    } else {
        pieces[0].0 + "uid="@ + pieces[0].1 + spelled(pieces.skip(1), tail)
    }
}

/// Whether nothing is marked but what stands as the uid of a piece, and each uid ends where
/// its piece does.
pub open spec fn well_cut(pieces: Seq<(Seq<char>, Seq<char>)>, tail: Seq<char>) -> bool {
    &&& forall|i: int|
        0 <= i < pieces.len() ==> !text::holds((#[trigger] pieces[i]).0, "uid="@) && unbroken(
            pieces[i].1,
        )
    &&& forall|i: int|
        1 <= i < pieces.len() ==> (#[trigger] pieces[i]).0.len() > 0 && closes(pieces[i].0[0])
    &&& !text::holds(tail, "uid="@)
    &&& pieces.len() > 0 && tail.len() > 0 ==> closes(tail[0])
}

/// The pieces with other uids.
pub open spec fn renamed(
    pieces: Seq<(Seq<char>, Seq<char>)>,
    f: Map<Seq<char>, Seq<char>>,
) -> Seq<(Seq<char>, Seq<char>)> {
    Seq::new(
        pieces.len(),
        |i: int|
            (
                pieces[i].0,
                if f.contains_key(pieces[i].1) {
                    f[pieces[i].1]
                } else {
                    pieces[i].1
                },
            ),
    )
}

proof fn lemma_closes(c: char)
    ensures
        closes(c) == uids::ends_uid(c),
{
    let s = seq![')', ']', '}', ',', ';', '"', '\''];
    assert(s[0] == ')' && s[1] == ']' && s[2] == '}' && s[3] == ',' && s[4] == ';' && s[5] == '"'
        && s[6] == '\'');
    assert(s.contains(s[0]) && s.contains(s[1]) && s.contains(s[2]) && s.contains(s[3])
        && s.contains(s[4]) && s.contains(s[5]) && s.contains(s[6]));
}

/// A uid runs up to the first character that ends it.
proof fn lemma_uid_runs(s: Seq<char>, a: int, u: Seq<char>)
    requires
        0 <= a,
        a + u.len() <= s.len(),
        s.subrange(a, a + u.len()) == u,
        unbroken(u),
        a + u.len() == s.len() || closes(s[a + u.len()]),
    ensures
        uids::uid_end(s, a) == a + u.len(),
    decreases u.len(),
{
    if u.len() == 0 {
        if a < s.len() {
            lemma_closes(s[a]);
        }
    } else {
        assert(s[a] == u[0]);
        lemma_closes(s[a]);
        assert(s.subrange(a + 1, a + 1 + u.skip(1).len()) =~= u.skip(1));
        lemma_uid_runs(s, a + 1, u.skip(1));
    }
}

/// The mark of the first piece is the first in the text.
proof fn lemma_first_mark(s: Seq<char>, i: int, gap: Seq<char>, rest: Seq<char>)
    requires
        0 <= i <= s.len(),
        s.skip(i) == gap + "uid="@ + rest,
        !text::holds(gap, "uid="@),
    ensures
        text::first_at(s, "uid="@, i) == Some(i + gap.len()),
{
    reveal_strlit("uid=");
    let p = "uid="@;
    let n = gap.len() as int;
    assert(p.len() == 4 && p[0] == 'u' && p[1] == 'i' && p[2] == 'd' && p[3] == '=');
    let whole = gap + p + rest;
    let from = s.skip(i);
    assert(from.len() == whole.len() && from.len() == s.len() - i);
    assert forall|j: int| 0 <= j < whole.len() implies #[trigger] whole[j] == s[i + j] by {
        assert(from[j] == s[i + j]);
    }
    assert forall|j: int| 0 <= j < 4 implies #[trigger] p[j] == s[i + n + j] by {
        assert(whole[n + j] == p[j]);
    }
    assert(s.subrange(i + n, i + n + 4) =~= p);
    assert(text::occurs(s, p, i + n));
    assert forall|j: int| i <= j < i + n implies !#[trigger] text::occurs(s, p, j) by {
        if text::occurs(s, p, j) {
            let k = j - i;
            assert(s.subrange(j, j + 4)[0] == 'u' && s.subrange(j, j + 4)[1] == 'i' && s.subrange(
                j,
                j + 4,
            )[2] == 'd' && s.subrange(j, j + 4)[3] == '=');
            if k + 4 <= n {
                assert forall|d: int| 0 <= d < 4 implies #[trigger] p[d] == gap[k + d] by {
                    assert(whole[k + d] == gap[k + d]);
                    assert(s.subrange(j, j + 4)[d] == s[j + d]);
                }
                assert(gap.subrange(k, k + 4) =~= p);
                assert(text::occurs(gap, p, k));
            } else {
                assert(s[i + n] == 'u');
                assert(s.subrange(j, j + 4)[n - k] == s[i + n]);
            }
        }
    }
    text::lemma_first_at(s, p, i);
}

proof fn lemma_no_mark(s: Seq<char>, i: int)
    requires
        0 <= i <= s.len(),
        !text::holds(s.skip(i), "uid="@),
    ensures
        text::first_at(s, "uid="@, i) is None,
{
    let p = "uid="@;
    text::lemma_first_at(s, p, i);
    if let Some(k) = text::first_at(s, p, i) {
        assert(s.skip(i).subrange(k - i, k - i + p.len()) =~= s.subrange(k, k + p.len()));
        assert(text::occurs(s.skip(i), p, k - i));
    }
}

/// What the first piece of a text is for the reading of it.
proof fn lemma_first_piece(
    s: Seq<char>,
    i: int,
    pieces: Seq<(Seq<char>, Seq<char>)>,
    tail: Seq<char>,
) -> (r: (int, int))
    requires
        0 <= i <= s.len(),
        s.skip(i) == spelled(pieces, tail),
        well_cut(pieces, tail),
        pieces.len() > 0,
    ensures
        uids::next_uid(s, i) == Some(r),
        i < r.0 <= r.1 <= s.len(),
        s.subrange(i, r.0) == pieces[0].0 + "uid="@,
        s.subrange(r.0, r.1) == pieces[0].1,
        s.skip(r.1) == spelled(pieces.skip(1), tail),
        well_cut(pieces.skip(1), tail),
{
    reveal_strlit("uid=");
    let gap = pieces[0].0;
    let u = pieces[0].1;
    let more = pieces.skip(1);
    let rest = spelled(more, tail);
    let whole = gap + "uid="@ + u + rest;
    assert(s.skip(i) =~= gap + "uid="@ + (u + rest));
    lemma_first_mark(s, i, gap, u + rest);
    let a = i + gap.len() + 4;
    let e = a + u.len();
    let from = s.skip(i);
    assert(from.len() == whole.len() && from.len() == s.len() - i);
    assert(from.subrange(0, a - i) =~= s.subrange(i, a));
    assert(whole.subrange(0, a - i) =~= gap + "uid="@);
    assert(from.subrange(a - i, e - i) =~= s.subrange(a, e));
    assert(whole.subrange(a - i, e - i) =~= u);
    assert(from.skip(e - i) =~= s.skip(e));
    assert(whole.skip(e - i) =~= rest);
    if e < s.len() {
        assert(s[e] == rest[0]);
        if more.len() > 0 {
            assert(more[0] == pieces[1]);
            assert(rest[0] == more[0].0[0]);
        }
    }
    lemma_uid_runs(s, a, u);
    assert forall|j: int| 0 <= j < more.len() implies !text::holds(
        (#[trigger] more[j]).0,
        "uid="@,
    ) && unbroken(more[j].1) by {
        assert(more[j] == pieces[j + 1]);
    }
    assert forall|j: int| 1 <= j < more.len() implies (#[trigger] more[j]).0.len() > 0 && closes(
        more[j].0[0],
    ) by {
        assert(more[j] == pieces[j + 1]);
    }
    (a, e)
}

proof fn lemma_renamed_from(
    s: Seq<char>,
    i: int,
    pieces: Seq<(Seq<char>, Seq<char>)>,
    tail: Seq<char>,
    f: Map<Seq<char>, Seq<char>>,
)
    requires
        0 <= i <= s.len(),
        s.skip(i) == spelled(pieces, tail),
        well_cut(pieces, tail),
    ensures
        uids::text_replaced(f, s, i) == spelled(renamed(pieces, f), tail),
    decreases pieces.len(),
{
    if pieces.len() == 0 {
        lemma_no_mark(s, i);
    } else {
        let (a, e) = lemma_first_piece(s, i, pieces, tail);
        lemma_renamed_from(s, e, pieces.skip(1), tail, f);
        assert(renamed(pieces, f).skip(1) =~= renamed(pieces.skip(1), f));
        assert(uids::text_replaced(f, s, i) =~= spelled(renamed(pieces, f), tail));
    }
}

/// Every marked uid of a running text is replaced, wherever in it the uid stands, and the
/// text between the uids is kept.
pub proof fn uids_are_replaced_where_they_stand(
    pieces: Seq<(Seq<char>, Seq<char>)>,
    tail: Seq<char>,
    f: Map<Seq<char>, Seq<char>>,
)
    requires
        well_cut(pieces, tail),
    ensures
        uids::text_replaced(f, spelled(pieces, tail), 0) == spelled(renamed(pieces, f), tail),
{
    let s = spelled(pieces, tail);
    assert(s.skip(0) =~= s);
    lemma_renamed_from(s, 0, pieces, tail, f);
}

/// The uids of some pieces.
pub open spec fn piece_uids(pieces: Seq<(Seq<char>, Seq<char>)>) -> Set<Seq<char>> {
    Set::new(
        |u: Seq<char>|
            u.len() > 0 && exists|i: int| 0 <= i < pieces.len() && (#[trigger] pieces[i]).1 == u,
    )
}

proof fn lemma_found_from(
    s: Seq<char>,
    i: int,
    pieces: Seq<(Seq<char>, Seq<char>)>,
    tail: Seq<char>,
)
    requires
        0 <= i <= s.len(),
        s.skip(i) == spelled(pieces, tail),
        well_cut(pieces, tail),
    ensures
        uids::text_uids(s, i) == piece_uids(pieces),
    decreases pieces.len(),
{
    if pieces.len() == 0 {
        lemma_no_mark(s, i);
        assert(piece_uids(pieces) =~= Set::empty());
    } else {
        let (a, e) = lemma_first_piece(s, i, pieces, tail);
        let more = pieces.skip(1);
        lemma_found_from(s, e, more, tail);
        assert forall|u: Seq<char>| #[trigger]
            piece_uids(pieces).contains(u) <==> piece_uids(more).contains(u) || (u.len() > 0 && u
                == pieces[0].1) by {
            if piece_uids(pieces).contains(u) {
                let k = choose|k: int| 0 <= k < pieces.len() && (#[trigger] pieces[k]).1 == u;
                if k > 0 {
                    assert(more[k - 1].1 == u);
                }
            }
            if piece_uids(more).contains(u) {
                let k = choose|k: int| 0 <= k < more.len() && (#[trigger] more[k]).1 == u;
                assert(pieces[k + 1].1 == u);
            }
            if u == pieces[0].1 {
                assert(pieces[0].1 == u);
            }
        }
        assert(uids::text_uids(s, i) =~= piece_uids(pieces));
    }
}

/// Every marked uid of a running text is found, wherever in it the uid stands.
pub proof fn uids_are_found_where_they_stand(
    pieces: Seq<(Seq<char>, Seq<char>)>,
    tail: Seq<char>,
)
    requires
        well_cut(pieces, tail),
    ensures
        uids::text_uids(spelled(pieces, tail), 0) == piece_uids(pieces),
{
    let s = spelled(pieces, tail);
    assert(s.skip(0) =~= s);
    lemma_found_from(s, 0, pieces, tail);
}

proof fn lemma_cut_from(s: Seq<char>, i: int) -> (r: (Seq<(Seq<char>, Seq<char>)>, Seq<char>))
    requires
        0 <= i <= s.len(),
    ensures
        well_cut(r.0, r.1),
        spelled(r.0, r.1) == s.skip(i),
    decreases s.len() - i,
{
    reveal_strlit("uid=");
    let p = "uid="@;
    text::lemma_first_at(s, p, i);
    uids::lemma_next_uid(s, i);
    let rest = s.skip(i);
    match text::first_at(s, p, i) {
        None => {
            assert(!text::holds(rest, p)) by {
                if text::holds(rest, p) {
                    let k = choose|k: int| #[trigger] text::occurs(rest, p, k);
                    assert(s.subrange(i + k, i + k + 4) =~= rest.subrange(k, k + 4));
                    assert(text::occurs(s, p, i + k));
                }
            }
            (Seq::empty(), rest)
        },
        Some(k) => {
            let (a, e) = uids::next_uid(s, i)->0;
            let gap = s.subrange(i, k);
            let u = s.subrange(a, e);
            let (more, tail) = lemma_cut_from(s, e);
            let pieces = seq![(gap, u)] + more;
            assert(!text::holds(gap, p)) by {
                if text::holds(gap, p) {
                    let j = choose|j: int| #[trigger] text::occurs(gap, p, j);
                    assert(s.subrange(i + j, i + j + 4) =~= gap.subrange(j, j + 4));
                    assert(text::occurs(s, p, i + j));
                }
            }
            lemma_uid_unbroken(s, a);
            assert(pieces.skip(1) =~= more);
            assert(pieces[0] == (gap, u));
            assert(s.subrange(k, k + 4) =~= p);
            assert(gap + p + u + s.skip(e) =~= rest);
            assert(spelled(pieces, tail) == rest);
            assert forall|j: int| 0 <= j < pieces.len() implies !text::holds(
                (#[trigger] pieces[j]).0,
                p,
            ) && unbroken(pieces[j].1) by {
                if j > 0 {
                    assert(pieces[j] == more[j - 1]);
                }
            }
            if e < s.len() {
                assert(s.skip(e)[0] == s[e]);
                lemma_closes(s[e]);
            }
            if more.len() > 0 {
                let after = spelled(more, tail);
                assert(after.len() > 0) by {
                    assert(after.len() >= 4);
                }
                lemma_gap_closes(s, a, e, more, tail);
            }
            assert forall|j: int| 1 <= j < pieces.len() implies (#[trigger] pieces[j]).0.len() > 0
                && closes(pieces[j].0[0]) by {
                assert(pieces[j] == more[j - 1]);
            }
            if more.len() == 0 && tail.len() > 0 {
                assert(s.skip(e)[0] == tail[0]);
            }
            (pieces, tail)
        },
    }
}

/// What follows a uid begins with a character that ends it.
proof fn lemma_gap_closes(
    s: Seq<char>,
    a: int,
    e: int,
    more: Seq<(Seq<char>, Seq<char>)>,
    tail: Seq<char>,
)
    requires
        0 <= a <= e < s.len(),
        closes(s[e]),
        s.skip(e) == spelled(more, tail),
        more.len() > 0,
    ensures
        more[0].0.len() > 0,
        closes(more[0].0[0]),
{
    reveal_strlit("uid=");
    let after = spelled(more, tail);
    assert(after[0] == s[e]);
    if more[0].0.len() == 0 {
        assert(after[0] == 'u');
        assert(!closes('u')) by {
            lemma_closes('u');
        }
    } else {
        assert(after[0] == more[0].0[0]);
    }
}

proof fn lemma_uid_unbroken(s: Seq<char>, a: int)
    requires
        0 <= a <= s.len(),
    ensures
        a <= uids::uid_end(s, a) <= s.len(),
        unbroken(s.subrange(a, uids::uid_end(s, a))),
        uids::uid_end(s, a) < s.len() ==> closes(s[uids::uid_end(s, a)]),
    decreases s.len() - a,
{
    let e = uids::uid_end(s, a);
    if a < s.len() {
        lemma_closes(s[a]);
        if !closes(s[a]) {
            lemma_uid_unbroken(s, a + 1);
            let u = s.subrange(a, e);
            assert forall|i: int| 0 <= i < u.len() implies !closes(#[trigger] u[i]) by {
                if i > 0 {
                    assert(u[i] == s.subrange(a + 1, e)[i - 1]);
                }
            }
        }
    }
}

/// Every text is cut into pieces in this way.
pub proof fn every_text_is_cut(s: Seq<char>) -> (r: (Seq<(Seq<char>, Seq<char>)>, Seq<char>))
    ensures
        well_cut(r.0, r.1),
        spelled(r.0, r.1) == s,
{
    assert(s.skip(0) =~= s);
    lemma_cut_from(s, 0)
}

/// Whether no step goes through a key named `uid`.
pub open spec fn clear(steps: Seq<Step>) -> bool {
    forall|i: int| 0 <= i < steps.len() ==> #[trigger] steps[i] != Step::Key("uid"@)
}

/// Whether a value itself brings in a uid: in its running text, or under its key `uid`.
pub open spec fn brings(x: JsonView, u: Seq<char>) -> bool {
    match x {
        JsonView::Str(s) => uids::text_uids(s, 0).contains(u),
        JsonView::Object(m) => m.contains_key("uid"@) && m["uid"@] == JsonView::Str(u),
        _ => false,
    }
}

/// Whether `y` is `x` with the uids of its own replaced.
pub open spec fn takes_over(x: JsonView, y: JsonView, f: Map<Seq<char>, Seq<char>>) -> bool {
    match x {
        JsonView::Str(s) => y == JsonView::Str(uids::text_replaced(f, s, 0)),
        JsonView::Object(m) => {
            &&& y matches JsonView::Object(n)
            &&& n.dom() == m.dom()
            &&& m.contains_key("uid"@) ==> n["uid"@] == (match m["uid"@] {
                JsonView::Str(u) => JsonView::Str(
                    if f.contains_key(u) {
                        f[u]
                    } else {
                        u
                    },
                ),
                other => other,
            })
        },
        _ => places::alike(x, y),
    }
}

/// Uids are replaced at every place of a value, however deep, and nothing else is changed.
pub proof fn replacing_reaches_every_place(
    v: JsonView,
    f: Map<Seq<char>, Seq<char>>,
    steps: Seq<Step>,
)
    requires
        clear(steps),
        places::at(v, steps) is Some,
    ensures
        places::at(uids::uids_replaced(v, f), steps) is Some,
        takes_over(
            places::at(v, steps)->0,
            places::at(uids::uids_replaced(v, f), steps)->0,
            f,
        ),
    decreases steps.len(),
{
    let w = uids::uids_replaced(v, f);
    if steps.len() == 0 {
        if let JsonView::Object(m) = v {
            assert(w->Object_0.dom() =~= m.dom());
        }
    } else {
        assert(steps[0] != Step::Key("uid"@));
        let x = places::part(v, steps[0])->0;
        assert(places::part(w, steps[0]) == Some(uids::uids_replaced(x, f)));
        assert forall|i: int| 0 <= i < steps.skip(1).len() implies #[trigger] steps.skip(1)[i]
            != Step::Key("uid"@) by {
            assert(steps.skip(1)[i] == steps[i + 1]);
        }
        replacing_reaches_every_place(x, f, steps.skip(1));
    }
}

/// Uids are found at every place of a value, however deep.
pub proof fn uids_are_found_at_every_place(v: JsonView, steps: Seq<Step>, u: Seq<char>)
    requires
        clear(steps),
        places::at(v, steps) matches Some(x) && brings(x, u),
    ensures
        uids::raw_uids(v).contains(u),
    decreases steps.len(),
{
    if steps.len() > 0 {
        assert(steps[0] != Step::Key("uid"@));
        let x = places::part(v, steps[0])->0;
        assert forall|i: int| 0 <= i < steps.skip(1).len() implies #[trigger] steps.skip(1)[i]
            != Step::Key("uid"@) by {
            assert(steps.skip(1)[i] == steps[i + 1]);
        }
        uids_are_found_at_every_place(x, steps.skip(1), u);
        match (v, steps[0]) {
            (JsonView::Object(m), Step::Key(k)) => {
                assert(m.contains_key(k));
            },
            (JsonView::Array(items), Step::Item(i)) => {
                assert(uids::raw_uids(items[i]).contains(u));
            },
            _ => {},
        }
    } else {
        if let JsonView::Object(m) = v {
            assert(m.contains_key("uid"@));
        }
    }
}

/// Every uid that is found stands at some place.
pub proof fn found_uids_stand_somewhere(v: JsonView, u: Seq<char>) -> (steps: Seq<Step>)
    requires
        uids::raw_uids(v).contains(u),
    ensures
        clear(steps),
        places::at(v, steps) matches Some(x) && brings(x, u),
    decreases v,
{
    match v {
        JsonView::Object(m) => {
            let k = choose|k: Seq<char>| #[trigger]
                m.contains_key(k) && (if k == "uid"@ {
                    m[k] == JsonView::Str(u)
                } else {
                    uids::raw_uids(m[k]).contains(u)
                });
            if k == "uid"@ {
                Seq::empty()
            } else {
                assert(decreases_to!(v => m[k]));
                let rest = found_uids_stand_somewhere(m[k], u);
                let steps = places::behind(Step::Key(k), rest);
                places::lemma_behind(v, Step::Key(k), rest);
                lemma_clear_behind(Step::Key(k), rest);
                steps
            }
        },
        JsonView::Array(items) => {
            let i = choose|i: int|
                0 <= i < items.len() && uids::raw_uids(#[trigger] items[i]).contains(u);
            assert(decreases_to!(v => items[i]));
            let rest = found_uids_stand_somewhere(items[i], u);
            let steps = places::behind(Step::Item(i), rest);
            places::lemma_behind(v, Step::Item(i), rest);
            lemma_clear_behind(Step::Item(i), rest);
            steps
        },
        _ => Seq::empty(),
    }
}

proof fn lemma_clear_behind(step: Step, rest: Seq<Step>)
    requires
        clear(rest),
        step != Step::Key("uid"@),
    ensures
        clear(places::behind(step, rest)),
{
    let steps = places::behind(step, rest);
    assert forall|i: int| 0 <= i < steps.len() implies #[trigger] steps[i] != Step::Key("uid"@) by {
        if i > 0 {
            assert(steps[i] == rest[i - 1]);
        }
    }
}

/// Whether what stands in the place of a uid in running text can stand there.
pub open spec fn keeps_unbroken(f: Map<Seq<char>, Seq<char>>) -> bool {
    forall|u: Seq<char>| #[trigger]
        f.contains_key(u) && unbroken(u) ==> unbroken(f[u]) && f[u].len() > 0
}

proof fn lemma_text_left(s: Seq<char>, f: Map<Seq<char>, Seq<char>>)
    requires
        keeps_unbroken(f),
        uids::text_uids(s, 0).subset_of(f.dom()),
    ensures
        forall|u: Seq<char>| #[trigger]
            uids::text_uids(s, 0).contains(u) ==> uids::text_uids(
                uids::text_replaced(f, s, 0),
                0,
            ).contains(f[u]),
        forall|t: Seq<char>| #[trigger]
            uids::text_uids(uids::text_replaced(f, s, 0), 0).contains(t) ==> exists|u: Seq<char>|
                #[trigger] f.contains_key(u) && f[u] == t,
{
    let (pieces, tail) = every_text_is_cut(s);
    let after = renamed(pieces, f);
    uids_are_replaced_where_they_stand(pieces, tail, f);
    uids_are_found_where_they_stand(pieces, tail);
    assert forall|i: int| 0 <= i < after.len() implies !text::holds((#[trigger] after[i]).0, "uid="@)
        && unbroken(after[i].1) by {
        assert(after[i].0 == pieces[i].0);
        assert(unbroken(pieces[i].1));
    }
    assert forall|i: int| 1 <= i < after.len() implies (#[trigger] after[i]).0.len() > 0 && closes(
        after[i].0[0],
    ) by {
        assert(after[i].0 == pieces[i].0);
    }
    uids_are_found_where_they_stand(after, tail);
    assert forall|u: Seq<char>| #[trigger] uids::text_uids(s, 0).contains(
        u,
    ) implies uids::text_uids(uids::text_replaced(f, s, 0), 0).contains(f[u]) by {
        let i = choose|i: int| 0 <= i < pieces.len() && (#[trigger] pieces[i]).1 == u;
        assert(f.contains_key(u));
        assert(after[i].1 == f[u]);
    }
    assert forall|t: Seq<char>| #[trigger] uids::text_uids(
        uids::text_replaced(f, s, 0),
        0,
    ).contains(t) implies exists|u: Seq<char>| #[trigger] f.contains_key(u) && f[u] == t by {
        let i = choose|i: int| 0 <= i < after.len() && (#[trigger] after[i]).1 == t;
        let u = pieces[i].1;
        if !f.contains_key(u) {
            assert(u == t);
            assert(piece_uids(pieces).contains(u));
            assert(f.dom().contains(u));
        }
        assert(f.contains_key(u) && f[u] == t);
    }
}

/// Where every uid of a value is replaced, none of them is left: the uids of what comes of
/// it are those that were put in their place.
pub proof fn no_uid_is_left(v: JsonView, f: Map<Seq<char>, Seq<char>>)
    requires
        keeps_unbroken(f),
        uids::raw_uids(v).subset_of(f.dom()),
    ensures
        forall|u: Seq<char>| #[trigger]
            uids::raw_uids(v).contains(u) ==> uids::raw_uids(uids::uids_replaced(v, f)).contains(
                f[u],
            ),
        forall|t: Seq<char>| #[trigger]
            uids::raw_uids(uids::uids_replaced(v, f)).contains(t) ==> exists|u: Seq<char>|
                #[trigger] f.contains_key(u) && f[u] == t,
    decreases v,
{
    let w = uids::uids_replaced(v, f);
    match v {
        JsonView::Object(m) => {
            let n = w->Object_0;
            assert forall|k: Seq<char>| #[trigger] m.contains_key(k) && k
                != "uid"@ implies uids::raw_uids(m[k]).subset_of(f.dom()) by {
                assert forall|u: Seq<char>| uids::raw_uids(m[k]).contains(
                    u,
                ) implies f.dom().contains(u) by {
                    assert(uids::raw_uids(v).contains(u));
                }
            }
            assert forall|u: Seq<char>| #[trigger] uids::raw_uids(v).contains(
                u,
            ) implies uids::raw_uids(w).contains(f[u]) by {
                let k = choose|k: Seq<char>| #[trigger]
                    m.contains_key(k) && (if k == "uid"@ {
                        m[k] == JsonView::Str(u)
                    } else {
                        uids::raw_uids(m[k]).contains(u)
                    });
                assert(n.contains_key(k));
                assert(f.dom().contains(u));
                if k != "uid"@ {
                    assert(decreases_to!(v => m[k]));
                    no_uid_is_left(m[k], f);
                }
            }
            assert forall|t: Seq<char>| #[trigger] uids::raw_uids(w).contains(t) implies exists|
                u: Seq<char>,
            | #[trigger]
                f.contains_key(u) && f[u] == t by {
                let k = choose|k: Seq<char>| #[trigger]
                    n.contains_key(k) && (if k == "uid"@ {
                        n[k] == JsonView::Str(t)
                    } else {
                        uids::raw_uids(n[k]).contains(t)
                    });
                assert(m.contains_key(k));
                if k != "uid"@ {
                    assert(decreases_to!(v => m[k]));
                    no_uid_is_left(m[k], f);
                } else {
                    let u = m[k]->Str_0;
                    assert(uids::raw_uids(v).contains(u));
                    assert(f.contains_key(u) && f[u] == t);
                }
            }
        },
        JsonView::Array(items) => {
            let after = w->Array_0;
            assert forall|i: int| 0 <= i < items.len() implies uids::raw_uids(
                #[trigger] items[i],
            ).subset_of(f.dom()) by {
                assert forall|u: Seq<char>| uids::raw_uids(items[i]).contains(
                    u,
                ) implies f.dom().contains(u) by {
                    assert(uids::raw_uids(v).contains(u));
                }
            }
            assert forall|u: Seq<char>| #[trigger] uids::raw_uids(v).contains(
                u,
            ) implies uids::raw_uids(w).contains(f[u]) by {
                let i = choose|i: int|
                    0 <= i < items.len() && uids::raw_uids(#[trigger] items[i]).contains(u);
                assert(decreases_to!(v => items[i]));
                no_uid_is_left(items[i], f);
                assert(uids::raw_uids(after[i]).contains(f[u]));
            }
            assert forall|t: Seq<char>| #[trigger] uids::raw_uids(w).contains(t) implies exists|
                u: Seq<char>,
            | #[trigger]
                f.contains_key(u) && f[u] == t by {
                let i = choose|i: int|
                    0 <= i < after.len() && uids::raw_uids(#[trigger] after[i]).contains(t);
                assert(decreases_to!(v => items[i]));
                no_uid_is_left(items[i], f);
            }
        },
        JsonView::Str(s) => {
            lemma_text_left(s, f);
        },
        _ => {},
    }
}

proof fn lemma_unbroken_sum(a: Seq<char>, b: Seq<char>)
    requires
        unbroken(a),
        unbroken(b),
    ensures
        unbroken(a + b),
{
    assert forall|i: int| 0 <= i < (a + b).len() implies !closes(#[trigger] (a + b)[i]) by {
        if i < a.len() {
            assert((a + b)[i] == a[i]);
        } else {
            assert((a + b)[i] == b[i - a.len()]);
        }
    }
}

proof fn lemma_decimal_unbroken(n: nat)
    ensures
        unbroken(text::decimal(n)),
{
    text::decimal_denotes(n);
    let d = text::decimal(n);
    assert forall|i: int| 0 <= i < d.len() implies !closes(#[trigger] d[i]) by {
        assert(text::is_digit(d[i]));
        lemma_closes(d[i]);
    }
}

/// A token stands in running text as the uid did for which it was made.
pub proof fn tokens_stand_where_uids_stood(id: Seq<char>, epoch: u64, raw: Seq<char>)
    requires
        unbroken(session::short_id(id)),
        unbroken(raw),
    ensures
        unbroken(session::token(id, epoch, raw)),
        session::token(id, epoch, raw).len() > 0,
{
    reveal_strlit("u:");
    reveal_strlit(":");
    lemma_closes('u');
    lemma_closes(':');
    assert(unbroken("u:"@)) by {
        assert("u:"@[0] == 'u' && "u:"@[1] == ':' && "u:"@.len() == 2);
    }
    assert(unbroken(":"@)) by {
        assert(":"@[0] == ':' && ":"@.len() == 1);
    }
    let short = session::short_id(id);
    let number = text::decimal(epoch as nat);
    lemma_decimal_unbroken(epoch as nat);
    lemma_unbroken_sum("u:"@, short);
    lemma_unbroken_sum("u:"@ + short, ":"@);
    lemma_unbroken_sum("u:"@ + short + ":"@, number);
    lemma_unbroken_sum("u:"@ + short + ":"@ + number, ":"@);
    lemma_unbroken_sum("u:"@ + short + ":"@ + number + ":"@, raw);
}

/// A client sees tokens of its session only: the uids of a response that it is shown are
/// the tokens for those that the response had, and each of these tokens leads back to its
/// uid on the page.
pub proof fn responses_show_tokens_only(
    m: Map<Seq<char>, SessionView>,
    v: JsonView,
    id: Seq<char>,
    page: u64,
    now: int,
    shown: JsonView,
    t: Seq<char>,
)
    requires
        m.contains_key(id),
        unbroken(session::short_id(id)),
        session_laws::colonless(session::short_id(id)),
        uids::tokenized(m, v, id, page, now).0 == Ok::<_, Seq<char>>(Some(shown)),
    ensures
        uids::raw_uids(shown).contains(t) <==> exists|u: Seq<char>| #[trigger]
            uids::raw_uids(v).contains(u) && t == session::token(
                id,
                session::next_epoch(m[id].epoch),
                u,
            ),
        uids::raw_uids(shown).contains(t) ==> (session::translated_in(
            uids::tokenized(m, v, id, page, now).1,
            id,
            page,
            t,
        ) matches Ok(u) && uids::raw_uids(v).contains(u) && t == session::token(
            id,
            session::next_epoch(m[id].epoch),
            u,
        )),
{
    let raw = uids::raw_uids(v);
    let epoch = session::next_epoch(m[id].epoch);
    let f = session::token_map(id, epoch, raw);
    assert forall|u: Seq<char>| #[trigger] f.contains_key(u) && unbroken(u) implies unbroken(f[u])
        && f[u].len() > 0 by {
        tokens_stand_where_uids_stood(id, epoch, u);
    }
    assert(raw.subset_of(f.dom()));
    no_uid_is_left(v, f);
    if uids::raw_uids(shown).contains(t) {
        let u = choose|u: Seq<char>| #[trigger] f.contains_key(u) && f[u] == t;
        assert(raw.contains(u));
        session_laws::tokens_lead_back(m[id], id, page, raw, now, u);
    }
}

/// A response is handed on as it is only where it has no uids.
pub proof fn responses_with_uids_are_rewritten(
    m: Map<Seq<char>, SessionView>,
    v: JsonView,
    id: Seq<char>,
    page: u64,
    now: int,
    u: Seq<char>,
)
    requires
        m.contains_key(id),
        uids::raw_uids(v).contains(u),
    ensures
        uids::tokenized(m, v, id, page, now).0 matches Ok(shown) && shown is Some,
{
}

proof fn lemma_items_collected(list: Seq<Seq<char>>, a: Seq<JsonView>, b: Seq<JsonView>, n: nat)
    requires
        n <= b.len(),
    ensures
        uids::items_collected(list, JsonView::Array(a + b), (a.len() + n) as nat)
            == uids::items_collected(
            uids::items_collected(list, JsonView::Array(a), a.len()),
            JsonView::Array(b),
            n,
        ),
    decreases n,
{
    let all = a + b;
    if n == 0 {
        lemma_items_prefix(list, a, b, a.len());
    } else {
        lemma_items_collected(list, a, b, (n - 1) as nat);
        assert(all[a.len() + n - 1] == b[n - 1]);
    }
}

proof fn lemma_items_prefix(list: Seq<Seq<char>>, a: Seq<JsonView>, b: Seq<JsonView>, n: nat)
    requires
        n <= a.len(),
    ensures
        uids::items_collected(list, JsonView::Array(a + b), n) == uids::items_collected(
            list,
            JsonView::Array(a),
            n,
        ),
    decreases n,
{
    if n > 0 {
        lemma_items_prefix(list, a, b, (n - 1) as nat);
        assert((a + b)[n - 1] == a[n - 1]);
    }
}

/// Uids are collected in the order in which they stand: those of the items of a list one
/// after the other, and those of a text piece by piece; one that is there already is not
/// collected again.
pub proof fn uids_are_collected_in_order(
    list: Seq<Seq<char>>,
    a: Seq<JsonView>,
    x: JsonView,
    b: Seq<JsonView>,
)
    ensures
        uids::collected(list, JsonView::Array(a + seq![x] + b)) == uids::collected(
            uids::collected(uids::collected(list, JsonView::Array(a)), x),
            JsonView::Array(b),
        ),
        uids::collected(list, JsonView::Array(Seq::empty())) == list,
{
    let one = seq![x];
    lemma_items_collected(list, a + one, b, b.len());
    lemma_items_collected(list, a, one, 1);
    assert((a + one).len() + b.len() == (a + one + b).len());
    let mid = uids::items_collected(list, JsonView::Array(a), a.len());
    assert(uids::items_collected(mid, JsonView::Array(one), 0) == mid);
    assert(uids::items_collected(mid, JsonView::Array(one), 1) == uids::collected(mid, x));
}

/// A list with the uids of some pieces behind it, each once, in order.
pub open spec fn with_pieces(list: Seq<Seq<char>>, pieces: Seq<(Seq<char>, Seq<char>)>) -> Seq<
    Seq<char>,
>
    decreases pieces.len(),
{
    if pieces.len() == 0 {
        list
    } else {
        let u = pieces[0].1;
        with_pieces(
            if u.len() == 0 || list.contains(u) {
                list
            } else {
                list.push(u)
            },
            pieces.skip(1),
        )
    }
}

proof fn lemma_gathered_from(
    list: Seq<Seq<char>>,
    s: Seq<char>,
    i: int,
    pieces: Seq<(Seq<char>, Seq<char>)>,
    tail: Seq<char>,
)
    requires
        0 <= i <= s.len(),
        s.skip(i) == spelled(pieces, tail),
        well_cut(pieces, tail),
    ensures
        uids::gathered(list, s, i) == with_pieces(list, pieces),
    decreases pieces.len(),
{
    if pieces.len() == 0 {
        lemma_no_mark(s, i);
    } else {
        let (a, e) = lemma_first_piece(s, i, pieces, tail);
        let u = pieces[0].1;
        let more = if u.len() == 0 || list.contains(u) {
            list
        } else {
            list.push(u)
        };
        lemma_gathered_from(more, s, e, pieces.skip(1), tail);
    }
}

/// The uids of a running text are collected in the order in which they stand in it.
pub proof fn uids_of_a_text_are_collected_in_order(
    list: Seq<Seq<char>>,
    pieces: Seq<(Seq<char>, Seq<char>)>,
    tail: Seq<char>,
)
    requires
        well_cut(pieces, tail),
    ensures
        uids::collected(list, JsonView::Str(spelled(pieces, tail))) == with_pieces(list, pieces),
{
    let s = spelled(pieces, tail);
    assert(s.skip(0) =~= s);
    lemma_gathered_from(list, s, 0, pieces, tail);
}

proof fn lemma_members_prefix(
    list: Seq<Seq<char>>,
    m: Map<Seq<char>, JsonView>,
    keys: Seq<Seq<char>>,
    key: Seq<char>,
    x: JsonView,
    n: nat,
)
    requires
        n <= keys.len(),
        json::key_order(m) == keys,
        json::key_order(m.insert(key, x)) == keys.push(key),
        !keys.contains(key),
    ensures
        uids::members_collected(list, JsonView::Object(m.insert(key, x)), n)
            == uids::members_collected(list, JsonView::Object(m), n),
    decreases n,
{
    if n > 0 {
        lemma_members_prefix(list, m, keys, key, x, (n - 1) as nat);
        assert(keys.push(key)[n - 1] == keys[n - 1]);
        assert(keys.contains(keys[n - 1]));
    }
}

/// The uids of an object are collected in the order of its keys: those of the member with
/// the last key come last. A member `uid` is one itself.
pub proof fn uids_of_members_are_collected_by_key(
    list: Seq<Seq<char>>,
    m: Map<Seq<char>, JsonView>,
    keys: Seq<Seq<char>>,
    key: Seq<char>,
    x: JsonView,
)
    requires
        json::ascending(keys),
        keys.to_set() == m.dom(),
        forall|i: int| 0 <= i < keys.len() ==> text::before(#[trigger] keys[i], key),
    ensures
        ({
            let before = uids::collected(list, JsonView::Object(m));
            uids::collected(list, JsonView::Object(m.insert(key, x))) == (if key == "uid"@ {
                match x {
                    JsonView::Str(u) => if before.contains(u) {
                        before
                    } else {
                        before.push(u)
                    },
                    _ => before,
                }
            } else {
                uids::collected(before, x)
            })
        }),
        uids::collected(list, JsonView::Object(Map::empty())) == list,
{
    let more = keys.push(key);
    let n = m.insert(key, x);
    assert(!keys.contains(key)) by {
        if keys.contains(key) {
            let i = choose|i: int| 0 <= i < keys.len() && keys[i] == key;
            text::one_comes_first(keys[i], key);
        }
    }
    assert(json::ascending(more)) by {
        assert forall|i: int, j: int| 0 <= i < j < more.len() implies text::before(
            #[trigger] more[i],
            #[trigger] more[j],
        ) by {
            if j < keys.len() {
                assert(more[i] == keys[i] && more[j] == keys[j]);
            } else {
                assert(more[i] == keys[i]);
            }
        }
    }
    assert(more.to_set() =~= n.dom()) by {
        assert forall|k: Seq<char>| more.to_set().contains(k) <==> n.dom().contains(k) by {
            if more.contains(k) {
                let i = choose|i: int| 0 <= i < more.len() && more[i] == k;
                if i < keys.len() {
                    assert(keys[i] == k);
                    assert(keys.to_set().contains(k));
                }
            }
            if n.dom().contains(k) {
                if k == key {
                    assert(more[keys.len() as int] == k);
                } else {
                    assert(keys.to_set().contains(k));
                    let i = choose|i: int| 0 <= i < keys.len() && keys[i] == k;
                    assert(more[i] == k);
                }
            }
        }
    }
    lemma_order(m, keys);
    lemma_order(n, more);
    lemma_members_prefix(list, m, keys, key, x, keys.len());
    assert(more[more.len() - 1] == key);
    let none = Seq::<Seq<char>>::empty();
    assert(none.to_set() =~= Map::<Seq<char>, JsonView>::empty().dom());
    lemma_order(Map::empty(), none);
}

proof fn lemma_order(m: Map<Seq<char>, JsonView>, keys: Seq<Seq<char>>)
    requires
        json::ascending(keys),
        keys.to_set() == m.dom(),
    ensures
        json::key_order(m) == keys,
{
    let chosen = json::key_order(m);
    assert(json::ascending(chosen) && chosen.to_set() == m.dom());
    json::lemma_one_order(chosen, keys);
}

} // verus!
