//! What holds of sessions and of the commands that manage them.
use crate::control::{ControlOutcome, ControlView};
use crate::session::{BindingView, SessionState, SessionView};
use crate::{client, control, mcp, session, text, text_laws};
use vstd::prelude::*;

verus! {

/// A session begins with no page, no tokens and no client.
pub proof fn sessions_begin_empty(id: Seq<char>, now: int)
    ensures
        ({
            let s = session::fresh(id, now);
            &&& s.id == id && s.created_at == now && s.last_used_at == now
            &&& !s.owned && s.page is None && !s.by_daemon && s.url is None && s.target is None
            &&& s.bindings == Map::<Seq<char>, BindingView>::empty()
            &&& session::cleanup(s) is None
        }),
{
}

/// Whether everything but who holds a session and when it was used is the same.
pub open spec fn same_but_use(a: SessionView, b: SessionView) -> bool {
    &&& a.id == b.id && a.created_at == b.created_at
    &&& a.page == b.page && a.by_daemon == b.by_daemon && a.url == b.url && a.target == b.target
    &&& a.epoch == b.epoch && a.bindings == b.bindings
}

/// Binding, releasing and using a session change who holds it and when it was used, and
/// nothing else. A session can be bound and ended just when it is there and nobody holds it.
pub proof fn use_changes_nothing_else(m: Map<Seq<char>, SessionView>, id: Seq<char>, now: int)
    ensures
        session::binding(m, id, now) is Ok <==> m.contains_key(id) && !m[id].owned,
        session::closing(m, id) is Ok <==> m.contains_key(id) && !m[id].owned,
        session::binding(m, id, now) matches Ok(n) ==> n[id].owned && n[id].last_used_at == now
            && same_but_use(n[id], m[id]) && n.dom() == m.dom(),
        session::closing(m, id) matches Ok((cleanup, n)) ==> n == m.remove(id) && (cleanup is Some
            <==> m[id].by_daemon && m[id].page is Some) && (cleanup matches Some(c) ==> Some(c.page)
            == m[id].page && c.url == m[id].url),
        forall|s: SessionView|
            {
                let free = #[trigger] session::released(s, now);
                !free.owned && free.last_used_at == now && same_but_use(free, s)
            },
        forall|s: SessionView|
            {
                let used = #[trigger] session::touched(s, now);
                used.owned == s.owned && used.last_used_at == now && same_but_use(used, s)
            },
{
    if let Ok(n) = session::binding(m, id, now) {
        assert(n.dom() =~= m.dom());
    }
}

/// A session that nobody holds expires once it has been idle for the whole time, and not a
/// moment before; a clock that went back keeps it.
pub proof fn sessions_expire_on_time(s: SessionView, used: int, idle: int, ttl: int)
    requires
        ttl >= 0,
    ensures
        session::expired(session::released(s, used), used + idle, ttl) <==> idle >= ttl && idle >= 0,
        s.owned ==> !session::expired(s, used + idle, ttl),
{
}

/// A session on another page keeps who it is; only the page, its address, its target and
/// its tokens change.
pub proof fn moving_keeps_the_session(
    s: SessionView,
    page: u64,
    by_daemon: bool,
    url: Option<Seq<char>>,
    target: Option<Seq<char>>,
    now: int,
)
    ensures
        ({
            let n = session::paged(s, page, by_daemon, url, now);
            &&& n.page == Some(page) && n.by_daemon == by_daemon && n.url == url
            &&& n.last_used_at == now
            &&& n.id == s.id && n.created_at == s.created_at && n.owned == s.owned
            &&& s.page == Some(page) ==> n.epoch == s.epoch && n.bindings == s.bindings && n.target
                == s.target
            &&& s.page != Some(page) ==> n.epoch != s.epoch && n.target is None && n.bindings
                == Map::<Seq<char>, BindingView>::empty()
        }),
        ({
            let n = session::pageless(s, now);
            &&& n.page is None && n.url is None && n.target is None && !n.by_daemon
            &&& n.id == s.id && n.created_at == s.created_at && n.owned == s.owned && n.last_used_at
                == now
            &&& n.epoch != s.epoch && n.bindings == Map::<Seq<char>, BindingView>::empty()
        }),
        ({
            let n = session::targeted(s, target);
            &&& n.target == target && same_but_use(
                (SessionView { target: s.target, ..n }),
                s,
            ) && n.owned == s.owned && n.last_used_at == s.last_used_at
        }),
{
}

/// A snapshot gives each of its uids one token of the session, which leads to that uid on
/// that page, and no other token is left.
pub proof fn snapshots_bind_their_uids(
    s: SessionView,
    id: Seq<char>,
    page: u64,
    uids: Set<Seq<char>>,
    now: int,
    raw: Seq<char>,
    tok: Seq<char>,
)
    ensures
        ({
            let n = session::snapped(s, id, page, uids, now);
            let own = session::token(id, n.epoch, raw);
            &&& n.bindings.contains_key(own) <==> uids.contains(raw)
            &&& uids.contains(raw) ==> n.bindings[own].raw == raw && n.bindings[own].page == page
                && n.bindings[own].epoch == n.epoch
            &&& n.bindings.contains_key(tok) ==> tok == session::token(
                id,
                n.epoch,
                n.bindings[tok].raw,
            ) && uids.contains(n.bindings[tok].raw)
            &&& session::token_map(id, n.epoch, uids).contains_key(raw) <==> uids.contains(raw)
            &&& uids.contains(raw) ==> session::token_map(id, n.epoch, uids)[raw] == own
            &&& n.id == s.id && n.page == s.page && n.owned == s.owned && n.target == s.target
                && n.url == s.url && n.by_daemon == s.by_daemon && n.created_at == s.created_at
        }),
{
    let n = session::snapped(s, id, page, uids, now);
    let prefix = session::token_prefix(id, n.epoch);
    let own = session::token(id, n.epoch, raw);
    assert(own.subrange(0, prefix.len() as int) =~= prefix);
    assert(own.skip(prefix.len() as int) =~= raw);
    if n.bindings.contains_key(tok) {
        assert(tok.subrange(0, prefix.len() as int) == prefix);
        assert(tok =~= prefix + tok.skip(prefix.len() as int));
    }
}

/// In a list of the sessions each is there once, the older ones first.
pub proof fn every_session_is_listed_once(
    m: Map<Seq<char>, SessionView>,
    list: Seq<SessionState>,
    id: Seq<char>,
    i: int,
    j: int,
)
    requires
        session::listing(m, list),
    ensures
        m.contains_key(id) <==> exists|k: int| 0 <= k < list.len() && (#[trigger] list[k]).id@ == id,
        0 <= i < list.len() ==> m.contains_key(list[i].id@) && m[list[i].id@] == list[i]@,
        0 <= i < j < list.len() ==> list[i].id@ != list[j].id@ && list[i].created_at
            <= list[j].created_at,
{
    assert(session::listed(list, id) <==> m.contains_key(id)) by {
        assert(session::by_id(list).contains_key(id) <==> m.contains_key(id));
    }
    if 0 <= i < list.len() {
        let own = list[i].id@;
        assert(session::listed(list, own));
        assert(session::by_id(list).contains_key(own));
        let p = session::place(list, own);
        assert(list[p].id@ == own);
        assert(p == i);
    }
}

proof fn lemma_removal_sum(
    reason: Seq<char>,
    a: Seq<SessionState>,
    b: Seq<SessionState>,
    m: Map<Seq<char>, SessionView>,
)
    ensures
        session::removal_lines(reason, a + b, m) == session::removal_lines(reason, a, m)
            + session::removal_lines(reason, b, m),
    decreases b.len(),
{
    if b.len() == 0 {
        assert(a + b =~= a);
        assert(session::removal_lines(reason, a, m) + session::removal_lines(reason, b, m)
            =~= session::removal_lines(reason, a, m));
    } else {
        lemma_removal_sum(reason, a, b.drop_last(), m);
        assert((a + b).drop_last() =~= a + b.drop_last());
        assert((a + b).last() == b.last());
        assert(session::removal_lines(reason, a + b, m) =~= session::removal_lines(reason, a, m)
            + session::removal_lines(reason, b, m));
    }
}

/// Each session that was there and is not any more is noted, and no other.
pub proof fn removed_sessions_are_noted(
    reason: Seq<char>,
    a: Seq<SessionState>,
    s: SessionState,
    b: Seq<SessionState>,
    m: Map<Seq<char>, SessionView>,
)
    ensures
        session::removal_lines(reason, a + seq![s] + b, m) == session::removal_lines(reason, a, m)
            + (if m.contains_key(s.id@) {
            Seq::empty()
        } else {
            seq![session::removal_line(reason, s@)]
        }) + session::removal_lines(reason, b, m),
        session::removal_lines(reason, Seq::empty(), m) == Seq::<Seq<char>>::empty(),
{
    lemma_removal_sum(reason, a + seq![s], b, m);
    lemma_removal_sum(reason, a, seq![s], m);
    assert(seq![s].drop_last() =~= Seq::empty());
    assert(session::removal_lines(reason, Seq::empty(), m) =~= Seq::empty());
    assert(session::removal_lines(reason, seq![s], m) =~= (if m.contains_key(s.id@) {
        Seq::empty()
    } else {
        seq![session::removal_line(reason, s@)]
    }));
}

/// Words with a space between each two.
pub open spec fn spaced(list: Seq<Seq<char>>) -> Seq<char>
    decreases list.len(),
{
    if list.len() == 0 {
        Seq::empty()
    } else if list.len() == 1 {
        list[0]
    } else {
        list[0] + seq![' '] + spaced(list.skip(1))
    }
}

proof fn lemma_spaced_words(list: Seq<Seq<char>>)
    requires
        forall|i: int|
            0 <= i < list.len() ==> (#[trigger] list[i]).len() > 0 && text_laws::wordlike(list[i]),
    ensures
        text::words(spaced(list)) == list,
    decreases list.len(),
{
    if list.len() == 0 {
        assert(text::words(Seq::empty()) =~= Seq::empty());
    } else if list.len() == 1 {
        text_laws::a_word_is_one(list[0]);
        assert(list =~= seq![list[0]]);
    } else {
        let rest = list.skip(1);
        assert forall|i: int| 0 <= i < rest.len() implies (#[trigger] rest[i]).len() > 0
            && text_laws::wordlike(rest[i]) by {
            assert(rest[i] == list[i + 1]);
        }
        lemma_spaced_words(rest);
        text_laws::words_are_what_spaces_part(list[0], ' ', spaced(rest));
        assert(list =~= seq![list[0]] + rest);
    }
}

proof fn lemma_assigned(words: Seq<Seq<char>>, prefix: Seq<char>, k: int)
    requires
        0 <= k < words.len(),
        text::begins(words[k], prefix),
        forall|i: int| 0 <= i < k ==> !text::begins(#[trigger] words[i], prefix),
    ensures
        control::assigned(words, prefix) == Some(words[k].skip(prefix.len() as int)),
    decreases words.len(),
{
    if k > 0 {
        let rest = words.skip(1);
        assert(!text::begins(words[0], prefix));
        assert forall|i: int| 0 <= i < k - 1 implies !text::begins(#[trigger] rest[i], prefix) by {
            assert(rest[i] == words[i + 1]);
        }
        lemma_assigned(rest, prefix, k - 1);
    }
}

/// A value is found under its name among other words, at the first that has the name.
pub proof fn values_are_found_by_name(
    a: Seq<Seq<char>>,
    name: Seq<char>,
    value: Seq<char>,
    b: Seq<Seq<char>>,
)
    requires
        forall|i: int|
            0 <= i < a.len() ==> (#[trigger] a[i]).len() > 0 && text_laws::wordlike(a[i])
                && !text::begins(a[i], name),
        forall|i: int|
            0 <= i < b.len() ==> (#[trigger] b[i]).len() > 0 && text_laws::wordlike(b[i]),
        name.len() > 0,
        text_laws::wordlike(name),
        text_laws::wordlike(value),
    ensures
        control::assigned(text::words(spaced(a + seq![name + value] + b)), name) == Some(value),
{
    let all = a + seq![name + value] + b;
    let own = name + value;
    assert forall|i: int| 0 <= i < own.len() implies !text::whitespace(#[trigger] own[i]) by {
        if i < name.len() {
            assert(own[i] == name[i]);
        } else {
            assert(own[i] == value[i - name.len()]);
        }
    }
    assert forall|i: int| 0 <= i < all.len() implies (#[trigger] all[i]).len() > 0
        && text_laws::wordlike(all[i]) by {
        if i < a.len() {
            assert(all[i] == a[i]);
        } else if i > a.len() {
            assert(all[i] == b[i - a.len() - 1]);
        }
    }
    lemma_spaced_words(all);
    let k = a.len() as int;
    assert(all[k] == own);
    assert(own.subrange(0, name.len() as int) =~= name);
    assert(own.skip(name.len() as int) =~= value);
    assert forall|i: int| 0 <= i < k implies !text::begins(#[trigger] all[i], name) by {
        assert(all[i] == a[i]);
    }
    lemma_assigned(all, name, k);
}

/// A command names its session and its page; without a session, with an empty one, or with
/// a page that is no number, it says what is missing.
pub proof fn commands_name_session_and_page(id: Seq<char>, page: u64, rest: Seq<char>)
    requires
        id.len() > 0,
        text_laws::wordlike(id),
    ensures
        control::session_arg("session="@ + id) == Ok::<_, Seq<char>>(id),
        control::session_arg("session="@ + id + " page="@ + text::decimal(page as nat)) == Ok::<
            _,
            Seq<char>,
        >(id),
        control::page_arg("session="@ + id + " page="@ + text::decimal(page as nat)) == Ok::<
            _,
            Seq<char>,
        >(page),
        control::session_arg("session="@) is Err,
        control::assigned(text::words(rest), "session="@) is None ==> control::session_arg(rest)
            is Err,
        control::assigned(text::words(rest), "page="@) is None ==> control::page_arg(rest) is Err,
{
    reveal_strlit("session=");
    reveal_strlit("page=");
    reveal_strlit(" page=");
    let name = "session="@;
    let other = "page="@;
    let number = text::decimal(page as nat);
    text::decimal_denotes(page as nat);
    assert(text_laws::wordlike(number)) by {
        assert forall|i: int| 0 <= i < number.len() implies !text::whitespace(
            #[trigger] number[i],
        ) by {
            assert(text::is_digit(number[i]));
        }
    }
    assert(text_laws::wordlike(name));
    assert(text_laws::wordlike(other));
    let none = Seq::<Seq<char>>::empty();
    values_are_found_by_name(none, name, id, none);
    assert(none + seq![name + id] + none =~= seq![name + id]);
    assert(spaced(seq![name + id]) == name + id);
    let own = name + id;
    let paged = other + number;
    lemma_word_sum(name, id);
    lemma_word_sum(other, number);
    values_are_found_by_name(none, name, id, seq![paged]);
    assert(none + seq![own] + seq![paged] =~= seq![own, paged]);
    assert(seq![own, paged].skip(1) =~= seq![paged]);
    assert(spaced(seq![paged]) == paged);
    assert(spaced(seq![own, paged]) == own + seq![' '] + paged);
    let line = "session="@ + id + " page="@ + number;
    assert(line =~= own + seq![' '] + paged);
    if text::begins(own, other) {
        assert(own.subrange(0, 5)[0] == 'p');
        assert(own[0] == 's');
    }
    values_are_found_by_name(seq![own], other, number, none);
    assert(seq![own] + seq![paged] + none =~= seq![own, paged]);
    text::printing_and_parsing_agree(page as nat, u64::MAX as nat);
    values_are_found_by_name(none, name, Seq::empty(), none);
    assert(name + Seq::<char>::empty() =~= name);
    assert(none + seq![name] + none =~= seq![name]);
    assert(spaced(seq![name]) == name);
}

proof fn lemma_word_sum(a: Seq<char>, b: Seq<char>)
    requires
        text_laws::wordlike(a),
        text_laws::wordlike(b),
    ensures
        text_laws::wordlike(a + b),
{
    let c = a + b;
    assert forall|i: int| 0 <= i < c.len() implies !text::whitespace(#[trigger] c[i]) by {
        if i < a.len() {
            assert(c[i] == a[i]);
        } else {
            assert(c[i] == b[i - a.len()]);
        }
    }
}

proof fn lemma_commands()
    ensures
        "stop"@.len() == 4 && "stop"@[0] == 's',
        "session_create"@.len() == 14 && "session_create"@[8] == 'c',
        "session_close"@.len() == 13,
        "session_page"@.len() == 12,
        "session_attach"@.len() == 14 && "session_attach"@[8] == 'a',
        "bind"@.len() == 4 && "bind"@[0] == 'b',
{
    reveal_strlit("stop");
    reveal_strlit("session_create");
    reveal_strlit("session_close");
    reveal_strlit("session_page");
    reveal_strlit("session_attach");
    reveal_strlit("bind");
}


/// A new session is added under a new id, counted, and told to the client; nothing happens
/// to the others.
pub proof fn sessions_are_created(before: ControlView, rest: Seq<char>, now: int, at: int, pid: int)
    ensures
        ({
            let after = control::controlled(before, "session_create"@, rest, now, at, pid);
            let id = session::generated_id(now, pid, before.made as int);
            &&& after.sessions == before.sessions.insert(id, session::fresh(id, now))
            &&& before.made < u64::MAX ==> after.made == before.made + 1
            &&& after.bound == before.bound && after.bound_at == before.bound_at
            &&& after.reply matches Ok(reply) && reply.lines == seq![
                session::session_line(session::fresh(id, now)),
            ] && reply.cleanup is None && reply.outcome == ControlOutcome::CloseConnection
        }),
{
    lemma_commands();
}

/// The commands on a session do to it what they say and tell the client so: it is ended with
/// its page to be closed, told by its page, put on a page that stays open, or bound to the
/// client. On a session that is not there they do nothing.
pub proof fn commands_work_on_their_session(
    before: ControlView,
    id: Seq<char>,
    page: u64,
    now: int,
    at: int,
    pid: int,
)
    requires
        id.len() > 0,
        text_laws::wordlike(id),
    ensures
        ({
            let named = "session="@ + id;
            let paged = named + " page="@ + text::decimal(page as nat);
            let closed = control::controlled(before, "session_close"@, named, now, at, pid);
            let told = control::controlled(before, "session_page"@, named, now, at, pid);
            let put = control::controlled(before, "session_attach"@, paged, now, at, pid);
            let bound = control::controlled(before, "bind"@, named, now, at, pid);
            let there = before.sessions.contains_key(id);
            let free = there && !before.sessions[id].owned;
            &&& free ==> closed.sessions == before.sessions.remove(id) && (closed.reply matches Ok(
                reply,
            ) && reply.lines == seq!["closed="@ + id] && reply.cleanup == session::cleanup(
                before.sessions[id],
            ))
            &&& !free ==> closed.sessions == before.sessions && (closed.reply matches Ok(reply)
                && reply.cleanup is None && reply.lines.len() == 1 && text::begins(
                reply.lines[0],
                "error="@,
            ))
            &&& told.sessions == before.sessions && put.bound == before.bound && closed.bound
                == before.bound && told.bound == before.bound
            &&& told.reply is Ok <==> there
            &&& there ==> told.reply->Ok_0.lines == seq![
                named + " page="@ + (match before.sessions[id].page {
                    Some(n) => text::decimal(n as nat),
                    None => Seq::empty(),
                }),
            ]
            &&& there ==> put.sessions == before.sessions.insert(
                id,
                session::paged(before.sessions[id], page, false, None, now),
            ) && put.reply->Ok_0.lines == seq![paged]
            &&& !there ==> put.sessions == before.sessions
            &&& put.reply is Ok
            &&& free ==> bound.bound == Some(id) && bound.bound_at == at && bound.sessions.dom()
                == before.sessions.dom() && bound.sessions[id].owned && (bound.reply matches Ok(
                reply,
            ) && reply.lines == seq!["bound="@ + id] && reply.outcome == ControlOutcome::Continue)
            &&& !free ==> bound.bound == before.bound && bound.sessions == before.sessions
        }),
{
    lemma_commands();
    commands_name_session_and_page(id, page, Seq::empty());
    reveal_strlit("");
    assert(""@ =~= Seq::empty());
    let named = "session="@ + id;
    let free = before.sessions.contains_key(id) && !before.sessions[id].owned;
    assert("session="@ + id + " page="@ + text::decimal(page as nat) =~= named + " page="@
        + text::decimal(page as nat));
    reveal_strlit("error=");
    let a = session::unknown_session(id);
    let b = session::session_in_use(id);
    assert(("error="@ + a).subrange(0, 6) =~= "error="@);
    assert(("error="@ + b).subrange(0, 6) =~= "error="@);
    if free {
        let bound = control::controlled(before, "bind"@, named, now, at, pid);
        assert(bound.sessions.dom() =~= before.sessions.dom());
    }
}

/// A command that nobody knows does nothing.
pub proof fn unknown_commands_do_nothing(
    before: ControlView,
    head: Seq<char>,
    rest: Seq<char>,
    now: int,
    at: int,
    pid: int,
)
    requires
        head != "stop"@,
        head != "session_create"@,
        head != "session_close"@,
        head != "session_page"@,
        head != "session_attach"@,
        head != "bind"@,
    ensures
        ({
            let after = control::controlled(before, head, rest, now, at, pid);
            &&& after.sessions == before.sessions && after.bound == before.bound && after.made
                == before.made
            &&& after.reply matches Ok(reply) && reply.outcome == ControlOutcome::CloseConnection
                && reply.cleanup is None && reply.lines == seq![
                "error=unknown command: "@ + head,
            ]
        }),
{
    reveal_strlit("error=unknown command: ");
    reveal_strlit("error=");
    reveal_strlit("unknown command: ");
    assert("error="@ + ("unknown command: "@ + head) =~= "error=unknown command: "@ + head);
}

/// A command is its first word, and what follows the first space.
pub proof fn commands_have_a_head(head: Seq<char>, rest: Seq<char>)
    requires
        !head.contains(' '),
        text_laws::tight(rest),
    ensures
        control::command_parts(head + seq![' '] + rest) == (head, rest),
        control::command_parts(head) == (head, Seq::<char>::empty()),
{
    reveal_strlit(" ");
    reveal_strlit("");
    assert(""@ =~= Seq::empty());
    let all = head + seq![' '] + rest;
    let n = head.len() as int;
    text::lemma_first_at(all, " "@, 0);
    assert(text::occurs(all, " "@, n)) by {
        assert(all.subrange(n, n + 1) =~= " "@);
    }
    assert forall|j: int| 0 <= j < n implies !#[trigger] text::occurs(all, " "@, j) by {
        if text::occurs(all, " "@, j) {
            assert(all.subrange(j, j + 1)[0] == ' ');
            assert(head[j] == ' ');
        }
    }
    assert(all.take(n) =~= head);
    assert(all.skip(n + 1) =~= rest);
    text_laws::both_ends_are_trimmed(Seq::empty(), rest, Seq::empty());
    assert(Seq::<char>::empty() + rest + Seq::<char>::empty() =~= rest);
    text::lemma_first_at(head, " "@, 0);
    if text::first_at(head, " "@, 0) is Some {
        let k = text::first_at(head, " "@, 0)->0;
        assert(head.subrange(k, k + 1)[0] == ' ');
        assert(head[k] == ' ');
    }
}

/// The sessions that clients hold are counted, and the pages of all are told in order.
pub proof fn status_counts_sessions(list: Seq<SessionState>, s: SessionState)
    ensures
        control::bound_count(list.push(s)) == control::bound_count(list) + (if s.owned {
            1nat
        } else {
            0nat
        }),
        control::bound_count(Seq::empty()) == 0,
        control::pages_text(list.push(s)) == (match s.page_id {
            None => control::pages_text(list),
            Some(page) => if control::pages_text(list).len() == 0 {
                text::decimal(page as nat)
            } else {
                control::pages_text(list) + seq![','] + text::decimal(page as nat)
            },
        }),
        control::pages_text(Seq::empty()) == Seq::<char>::empty(),
        control::session_lines(list).len() == list.len(),
        forall|i: int|
            0 <= i < list.len() ==> #[trigger] control::session_lines(list)[i]
                == session::session_line(list[i]@),
{
    reveal_strlit("");
    reveal_strlit(",");
    assert(""@ =~= Seq::empty());
    assert(","@ =~= seq![',']);
    assert(list.push(s).drop_last() =~= list);
}

/// A daemon's reply to a command is its first line, unless that tells of an error.
pub proof fn replies_are_first_lines(first: Seq<char>, rest: Seq<char>)
    requires
        forall|i: int| 0 <= i < first.len() ==> #[trigger] first[i] != '\n',
        first.len() > 0 ==> first.last() != '\r',
    ensures
        !text::begins(first, "error="@) ==> client::session_reply(first.push('\n') + rest) == Ok::<
            _,
            Seq<char>,
        >(first),
        client::session_reply("error="@ + first.push('\n') + rest) == Err::<Seq<char>, _>(first),
        client::session_reply(Seq::empty()) is Err,
{
    text::lemma_first_line(first, rest);
    assert(text::line_list(Seq::empty()) =~= Seq::empty());
    reveal_strlit("error=");
    let whole = "error="@ + first;
    assert("error="@ + first.push('\n') + rest =~= whole.push('\n') + rest);
    assert forall|i: int| 0 <= i < whole.len() implies #[trigger] whole[i] != '\n' by {
        if i >= 6 {
            assert(whole[i] == first[i - 6]);
        }
    }
    text::lemma_first_line(whole, rest);
    if first.len() > 0 {
        assert(whole.last() == first.last());
    } else {
        assert(whole.last() == '=');
    }
    assert(whole.subrange(0, 6) =~= "error="@);
    assert(whole.skip(6) =~= first);
}

/// A forwarded request is over when it was answered, when its client has gone, or when
/// nobody can answer it any more; a client that has gone is its own failure, and the others
/// are the daemon's.
pub proof fn waiting_for_an_answer_ends(lines: Vec<String>, message: String, gone: bool)
    ensures
        control::waited(control::WaitEvent::Answered(Ok(lines))) == Some(
            Ok::<_, mcp::ErrorView>(text::texts(lines@)),
        ),
        control::waited(control::WaitEvent::Answered(Err(message))) == Some(
            Err::<Seq<Seq<char>>, _>(mcp::ErrorView::Fatal(message@)),
        ),
        control::waited(control::WaitEvent::Waiting { gone }) is Some <==> gone,
        gone ==> (control::waited(control::WaitEvent::Waiting { gone }) matches Some(Err(e))
            && e is Client),
        control::waited(control::WaitEvent::Abandoned) matches Some(Err(e)) && e is Fatal,
{
}

/// Where sessions end, each page that the daemon opened for one of them is to be closed,
/// once, and no other page.
pub proof fn every_ended_page_is_to_be_closed(
    m: Map<Seq<char>, SessionView>,
    ids: Set<Seq<char>>,
    cleanups: Seq<session::PageCleanup>,
    id: Seq<char>,
    k: int,
)
    requires
        session::cleanups_of(m, ids, cleanups),
    ensures
        m.contains_key(id) && ids.contains(id) && m[id].by_daemon && m[id].page is Some ==> exists|
            i: int,
        |
            0 <= i < cleanups.len() && Some((#[trigger] cleanups[i])@.page) == m[id].page
                && cleanups[i]@.url == m[id].url,
        0 <= k < cleanups.len() ==> exists|own: Seq<char>| #[trigger]
            m.contains_key(own) && ids.contains(own) && m[own].by_daemon && m[own].page == Some(
                cleanups[k]@.page,
            ) && m[own].url == cleanups[k]@.url,
{
    let order = choose|order: Seq<Seq<char>>| #[trigger]
        session::is_order(m, ids, order) && cleanups.len() == order.len() && forall|i: int|
            0 <= i < order.len() ==> Some((#[trigger] cleanups[i])@) == session::cleanup(
                m[order[i]],
            );
    if m.contains_key(id) && ids.contains(id) && m[id].by_daemon && m[id].page is Some {
        assert(order.contains(id));
        let i = choose|i: int| 0 <= i < order.len() && order[i] == id;
        assert(Some(cleanups[i]@) == session::cleanup(m[order[i]]));
    }
    if 0 <= k < cleanups.len() {
        let own = order[k];
        assert(order.contains(own));
        assert(Some(cleanups[k]@) == session::cleanup(m[order[k]]));
        assert(m.contains_key(own));
    }
}

/// The short form of an id is what follows its prefix.
pub proof fn ids_have_a_short_form(rest: Seq<char>, other: Seq<char>)
    requires
        !text::begins(other, "sess-"@),
    ensures
        session::short_id("sess-"@ + rest) == rest,
        session::short_id(other) == other,
{
    let id = "sess-"@ + rest;
    assert(id.subrange(0, "sess-"@.len() as int) =~= "sess-"@);
    assert(id.skip("sess-"@.len() as int) =~= rest);
}

/// A generated id is its prefix and sixteen small hexadecimal digits.
pub proof fn generated_ids_have_their_form(now: int, pid: int, counter: int, i: int)
    ensures
        ({
            let id = session::generated_id(now, pid, counter);
            &&& id.len() == 21
            &&& text::begins(id, "sess-"@)
            &&& 5 <= i < 21 ==> ('0' <= id[i] <= '9' || 'a' <= id[i] <= 'f')
        }),
{
    reveal_strlit("sess-");
    let mix = session::id_mix(now, pid, counter);
    let id = session::generated_id(now, pid, counter);
    lemma_hex(mix, 16, i - 5);
    assert(id.subrange(0, 5) =~= "sess-"@);
    if 5 <= i < 21 {
        assert(id[i] == text::hex(mix, 16)[i - 5]);
    }
}

proof fn lemma_hex(n: nat, count: nat, i: int)
    ensures
        text::hex(n, count).len() == count,
        0 <= i < count ==> ('0' <= text::hex(n, count)[i] <= '9' || 'a' <= text::hex(n, count)[i]
            <= 'f'),
    decreases count,
{
    if count > 0 {
        lemma_hex(n / 16, (count - 1) as nat, i);
    }
}

} // verus!
