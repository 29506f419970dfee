//! What holds of sessions across calls.
use crate::session::{CleanupView, SessionView};
use crate::{session, text};
use vstd::prelude::*;

verus! {

/// A text without colons.
pub open spec fn colonless(s: Seq<char>) -> bool {
    !s.contains(':')
}

/// A text is cut where the first separator stands.
pub proof fn cut_at_separator(head: Seq<char>, c: char, tail: Seq<char>)
    requires
        !head.contains(c),
    ensures
        text::cut(head + seq![c] + tail, seq![c]) == Some((head, tail)),
{
    let s = head + seq![c] + tail;
    let p = seq![c];
    let n = head.len() as int;
    assert(s.subrange(n, n + 1) =~= p);
    assert(text::occurs(s, p, n));
    assert forall|j: int| 0 <= j < n implies !#[trigger] text::occurs(s, p, j) by {
        assert(s[j] == head[j]);
        if text::occurs(s, p, j) {
            assert(s.subrange(j, j + 1)[0] == p[0]);
            assert(head.contains(c));
        }
    }
    text::lemma_first_at(s, p, 0);
    assert(text::first_at(s, p, 0) == Some(n));
    assert(s.take(n) =~= head);
    assert(s.skip(n + 1) =~= tail);
}

/// The decimal notation of a number holds no colon.
pub proof fn decimal_is_colonless(n: nat)
    ensures
        colonless(text::decimal(n)),
{
    text::decimal_denotes(n);
    let d = text::decimal(n);
    if d.contains(':') {
        let i = choose|i: int| 0 <= i < d.len() && d[i] == ':';
        assert(text::is_digit(d[i]));
    }
}

/// A token is taken apart into the session, the epoch and the element it was made from.
pub proof fn token_parts(id: Seq<char>, epoch: u64, raw: Seq<char>)
    requires
        colonless(session::short_id(id)),
    ensures
        text::after(session::token(id, epoch, raw), "u:"@) is Some,
        session::three_parts(text::after(session::token(id, epoch, raw), "u:"@)->0) == Some(
            (session::short_id(id), text::decimal(epoch as nat), raw),
        ),
{
    reveal_strlit("u:");
    reveal_strlit(":");
    let short = session::short_id(id);
    let number = text::decimal(epoch as nat);
    let t = session::token(id, epoch, raw);
    let tail = number + seq![':'] + raw;
    let rest = short + seq![':'] + tail;
    assert(":"@ =~= seq![':']);
    assert(t =~= "u:"@ + rest);
    assert(t.subrange(0, 2) =~= "u:"@);
    assert(t.skip(2) =~= rest);
    cut_at_separator(short, ':', tail);
    decimal_is_colonless(epoch as nat);
    cut_at_separator(number, ':', raw);
}

/// A token of the latest snapshot leads back to the element it stands for, on the page of
/// the snapshot.
pub proof fn tokens_lead_back(
    s: SessionView,
    id: Seq<char>,
    page: u64,
    uids: Set<Seq<char>>,
    now: int,
    raw: Seq<char>,
)
    requires
        colonless(session::short_id(id)),
        uids.contains(raw),
    ensures
        session::translated(
            session::snapped(s, id, page, uids, now),
            id,
            page,
            session::token(id, session::next_epoch(s.epoch), raw),
        ) == Ok::<Seq<char>, Seq<char>>(raw),
{
    let epoch = session::next_epoch(s.epoch);
    let t = session::token(id, epoch, raw);
    let prefix = session::token_prefix(id, epoch);
    token_parts(id, epoch, raw);
    text::printing_and_parsing_agree(epoch as nat, u64::MAX as nat);
    assert(t.subrange(0, prefix.len() as int) =~= prefix);
    assert(t.skip(prefix.len() as int) =~= raw);
}

/// A token made for another session is refused.
pub proof fn foreign_tokens_are_refused(
    s: SessionView,
    id: Seq<char>,
    other: Seq<char>,
    page: u64,
    epoch: u64,
    raw: Seq<char>,
)
    requires
        colonless(session::short_id(other)),
        session::short_id(other) != session::short_id(id),
    ensures
        session::translated(s, id, page, session::token(other, epoch, raw)) == Err::<
            Seq<char>,
            Seq<char>,
        >("uid token belongs to another session"@),
{
    token_parts(other, epoch, raw);
}

/// A token of another epoch than the session's is refused.
pub proof fn stale_tokens_are_refused(
    s: SessionView,
    id: Seq<char>,
    page: u64,
    epoch: u64,
    raw: Seq<char>,
)
    requires
        colonless(session::short_id(id)),
        epoch != s.epoch,
    ensures
        session::translated(s, id, page, session::token(id, epoch, raw)) == Err::<
            Seq<char>,
            Seq<char>,
        >("stale uid token"@),
{
    token_parts(id, epoch, raw);
    text::printing_and_parsing_agree(epoch as nat, u64::MAX as nat);
}

/// A new snapshot makes the tokens of the one before void.
pub proof fn snapshots_void_earlier_tokens(
    s: SessionView,
    id: Seq<char>,
    page: u64,
    uids: Set<Seq<char>>,
    now: int,
    raw: Seq<char>,
)
    requires
        colonless(session::short_id(id)),
    ensures
        session::translated(
            session::snapped(s, id, page, uids, now),
            id,
            page,
            session::token(id, s.epoch, raw),
        ) == Err::<Seq<char>, Seq<char>>("stale uid token"@),
{
    stale_tokens_are_refused(session::snapped(s, id, page, uids, now), id, page, s.epoch, raw);
}

/// A token of the latest snapshot is refused on any other page.
pub proof fn tokens_belong_to_their_page(
    s: SessionView,
    id: Seq<char>,
    page: u64,
    other: u64,
    uids: Set<Seq<char>>,
    now: int,
    raw: Seq<char>,
)
    requires
        colonless(session::short_id(id)),
        uids.contains(raw),
        other != page,
    ensures
        session::translated(
            session::snapped(s, id, page, uids, now),
            id,
            other,
            session::token(id, session::next_epoch(s.epoch), raw),
        ) == Err::<Seq<char>, Seq<char>>("uid token belongs to another page"@),
{
    let epoch = session::next_epoch(s.epoch);
    let t = session::token(id, epoch, raw);
    let prefix = session::token_prefix(id, epoch);
    token_parts(id, epoch, raw);
    text::printing_and_parsing_agree(epoch as nat, u64::MAX as nat);
    assert(t.subrange(0, prefix.len() as int) =~= prefix);
    assert(t.skip(prefix.len() as int) =~= raw);
}

/// A session that moves to another page keeps no token and no target of the old one.
pub proof fn moving_voids_tokens_and_target(
    s: SessionView,
    id: Seq<char>,
    page: u64,
    by_daemon: bool,
    url: Option<Seq<char>>,
    now: int,
    raw: Seq<char>,
)
    requires
        colonless(session::short_id(id)),
        s.page != Some(page),
    ensures
        session::paged(s, page, by_daemon, url, now).target is None,
        session::translated(
            session::paged(s, page, by_daemon, url, now),
            id,
            page,
            session::token(id, s.epoch, raw),
        ) == Err::<Seq<char>, Seq<char>>("stale uid token"@),
{
    stale_tokens_are_refused(session::paged(s, page, by_daemon, url, now), id, page, s.epoch, raw);
}

/// A session that records its page again keeps its tokens and its target.
pub proof fn staying_keeps_tokens_and_target(
    s: SessionView,
    id: Seq<char>,
    page: u64,
    by_daemon: bool,
    url: Option<Seq<char>>,
    now: int,
    tok: Seq<char>,
)
    requires
        s.page == Some(page),
    ensures
        session::paged(s, page, by_daemon, url, now).target == s.target,
        session::translated(session::paged(s, page, by_daemon, url, now), id, page, tok)
            == session::translated(s, id, page, tok),
{
}

/// A session that loses its page keeps no token and no target.
pub proof fn losing_the_page_voids_tokens_and_target(
    s: SessionView,
    id: Seq<char>,
    page: u64,
    now: int,
    raw: Seq<char>,
)
    requires
        colonless(session::short_id(id)),
    ensures
        session::pageless(s, now).target is None,
        session::pageless(s, now).page is None,
        session::translated(session::pageless(s, now), id, page, session::token(id, s.epoch, raw))
            == Err::<Seq<char>, Seq<char>>("stale uid token"@),
{
    stale_tokens_are_refused(session::pageless(s, now), id, page, s.epoch, raw);
}

/// A bound session can neither be bound again nor ended; once released it can.
pub proof fn binding_is_exclusive(
    m: Map<Seq<char>, SessionView>,
    id: Seq<char>,
    now: int,
    later: int,
)
    requires
        session::binding(m, id, now) is Ok,
    ensures
        ({
            let bound = session::binding(m, id, now)->Ok_0;
            let freed = session::adjusted(
                bound,
                id,
                |s: SessionView| session::released(s, later),
            );
            &&& session::binding(bound, id, later) == Err::<Map<Seq<char>, SessionView>, Seq<char>>(
                session::session_in_use(id),
            )
            &&& session::closing(bound, id) is Err
            &&& session::binding(freed, id, later) is Ok
            &&& session::closing(freed, id) is Ok
        }),
{
}

/// Binding one session leaves every other one as it was, so another one can be bound
/// at the same time.
pub proof fn binding_is_independent(
    m: Map<Seq<char>, SessionView>,
    id: Seq<char>,
    other: Seq<char>,
    now: int,
)
    requires
        session::binding(m, id, now) is Ok,
        other != id,
    ensures
        session::binding(m, id, now)->Ok_0.contains_key(other) == m.contains_key(other),
        m.contains_key(other) ==> session::binding(m, id, now)->Ok_0[other] == m[other],
        session::binding(m, other, now) is Ok ==> session::binding(
            session::binding(m, id, now)->Ok_0,
            other,
            now,
        ) is Ok,
{
}

/// What can become of a session that goes on.
pub enum Change {
    Bound { now: int },
    Released { now: int },
    Used { now: int },
    Targeted { target: Option<Seq<char>> },
    Paged { page: u64, by_daemon: bool, url: Option<Seq<char>>, now: int },
    Pageless { now: int },
    Snapped { page: u64, uids: Set<Seq<char>>, now: int },
}

/// A session after a change.
pub open spec fn changed(s: SessionView, id: Seq<char>, change: Change) -> SessionView {
    match change {
        Change::Bound { now } => SessionView { owned: true, last_used_at: now, ..s },
        Change::Released { now } => session::released(s, now),
        Change::Used { now } => session::touched(s, now),
        Change::Targeted { target } => session::targeted(s, target),
        Change::Paged { page, by_daemon, url, now } => session::paged(s, page, by_daemon, url, now),
        Change::Pageless { now } => session::pageless(s, now),
        Change::Snapped { page, uids, now } => session::snapped(s, id, page, uids, now),
    }
}

/// Whether a change voids the tokens: a snapshot, another page, or the loss of the page.
pub open spec fn voids(s: SessionView, change: Change) -> bool {
    match change {
        Change::Paged { page, .. } => s.page != Some(page),
        Change::Pageless { .. } => true,
        Change::Snapped { .. } => true,
        _ => false,
    }
}

/// A session after a run of changes.
pub open spec fn after_changes(s: SessionView, id: Seq<char>, changes: Seq<Change>) -> SessionView
    decreases changes.len(),
{
    if changes.len() == 0 {
        s
    } else {
        changed(after_changes(s, id, changes.drop_last()), id, changes.last())
    }
}

/// How many changes of a run void the tokens.
pub open spec fn times_voided(s: SessionView, id: Seq<char>, changes: Seq<Change>) -> nat
    decreases changes.len(),
{
    if changes.len() == 0 {
        0
    } else {
        let before = changes.drop_last();
        times_voided(s, id, before) + if voids(after_changes(s, id, before), changes.last()) {
            1nat
        } else {
            0
        }
    }
}

/// The epoch counts, modulo its size, the changes that void tokens.
pub proof fn epochs_count_what_voids_tokens(s: SessionView, id: Seq<char>, changes: Seq<Change>)
    ensures
        after_changes(s, id, changes).epoch == (s.epoch + times_voided(s, id, changes)) % (
        u64::MAX + 1),
    decreases changes.len(),
{
    if changes.len() > 0 {
        let before = changes.drop_last();
        epochs_count_what_voids_tokens(s, id, before);
        let n = s.epoch + times_voided(s, id, before);
        vstd::arithmetic::div_mod::lemma_add_mod_noop(n, 1, u64::MAX + 1);
    }
}

/// Once voided, a token stays void whatever else becomes of the session, until the epochs
/// have gone round.
pub proof fn void_tokens_stay_void(
    s: SessionView,
    id: Seq<char>,
    changes: Seq<Change>,
    page: u64,
    raw: Seq<char>,
)
    requires
        colonless(session::short_id(id)),
        0 < times_voided(s, id, changes) <= u64::MAX,
    ensures
        session::translated(
            after_changes(s, id, changes),
            id,
            page,
            session::token(id, s.epoch, raw),
        ) == Err::<Seq<char>, Seq<char>>("stale uid token"@),
{
    epochs_count_what_voids_tokens(s, id, changes);
    let n = times_voided(s, id, changes);
    let after = after_changes(s, id, changes);
    if s.epoch + n > u64::MAX {
        vstd::arithmetic::div_mod::lemma_fundamental_div_mod_converse(
            s.epoch + n,
            u64::MAX + 1,
            1,
            s.epoch + n - (u64::MAX + 1),
        );
    } else {
        vstd::arithmetic::div_mod::lemma_small_mod((s.epoch + n) as nat, (u64::MAX + 1) as nat);
    }
    stale_tokens_are_refused(after, id, page, s.epoch, raw);
}

/// A token means the same as long as nothing voids it.
pub proof fn tokens_last_until_voided(
    s: SessionView,
    id: Seq<char>,
    changes: Seq<Change>,
    page: u64,
    tok: Seq<char>,
)
    requires
        times_voided(s, id, changes) == 0,
    ensures
        session::translated(after_changes(s, id, changes), id, page, tok) == session::translated(
            s,
            id,
            page,
            tok,
        ),
    decreases changes.len(),
{
    if changes.len() > 0 {
        tokens_last_until_voided(s, id, changes.drop_last(), page, tok);
    }
}

/// A change to one session leaves every other one as it was.
pub proof fn changes_stay_local(
    m: Map<Seq<char>, SessionView>,
    id: Seq<char>,
    change: spec_fn(SessionView) -> SessionView,
    other: Seq<char>,
)
    requires
        other != id,
    ensures
        session::adjusted(m, id, change).contains_key(other) == m.contains_key(other),
        m.contains_key(other) ==> session::adjusted(m, id, change)[other] == m[other],
        session::adjusted(m, id, change).dom() == m.dom(),
{
    assert(session::adjusted(m, id, change).dom() =~= m.dom());
}

/// Using a session keeps it for at least `ttl` from then on, and a bound one is kept
/// however long it is idle.
pub proof fn use_keeps_sessions(s: SessionView, now: int, later: int, ttl: int)
    requires
        later - now < ttl,
    ensures
        !session::expired(session::touched(s, now), later, ttl),
        s.owned ==> !session::expired(s, later, ttl),
{
}

/// A session that no client holds ends once it has not been used for `ttl`.
pub proof fn idle_sessions_end(s: SessionView, used: int, now: int, ttl: int)
    requires
        0 <= ttl <= now - used,
    ensures
        session::expired(session::released(s, used), now, ttl),
{
}

/// A page that the daemon opened for a session is to be closed when the session ends, and a
/// page that was attached to it stays open.
pub proof fn attached_pages_stay_open(
    s: SessionView,
    page: u64,
    by_daemon: bool,
    url: Option<Seq<char>>,
    now: int,
)
    ensures
        session::cleanup(session::paged(s, page, by_daemon, url, now)) == (if by_daemon {
            Some(CleanupView { page, url })
        } else {
            None
        }),
{
}

/// A generated id has no colon after its prefix, so tokens made from it can be taken apart.
pub proof fn generated_ids_are_colonless(now: int, pid: int, counter: int)
    ensures
        colonless(session::short_id(session::generated_id(now, pid, counter))),
{
    reveal_strlit("sess-");
    let digits = text::hex(session::id_mix(now, pid, counter), 16);
    let id = session::generated_id(now, pid, counter);
    assert(id.subrange(0, 5) =~= "sess-"@);
    assert(id.skip(5) =~= digits);
    hex_is_colonless(session::id_mix(now, pid, counter), 16);
}

/// Hexadecimal digits hold no colon.
proof fn hex_is_colonless(n: nat, count: nat)
    ensures
        colonless(text::hex(n, count)),
    decreases count,
{
    if count > 0 {
        hex_is_colonless(n / 16, (count - 1) as nat);
        let front = text::hex(n / 16, (count - 1) as nat);
        let all = text::hex(n, count);
        if all.contains(':') {
            let i = choose|i: int| 0 <= i < all.len() && all[i] == ':';
            if i < front.len() {
                assert(front[i] == ':');
            }
        }
    }
}

/// A factor that has an inverse can be cancelled.
proof fn lemma_cancel(a: int, b: int, k: int, inv: int, m: int)
    requires
        1 < m,
        0 <= a < m,
        0 <= b < m,
        (k * inv) % m == 1,
        (a * k) % m == (b * k) % m,
    ensures
        a == b,
{
    lemma_undone(a, k, inv, m);
    lemma_undone(b, k, inv, m);
}

/// Multiplying by a factor is undone by multiplying with its inverse.
proof fn lemma_undone(a: int, k: int, inv: int, m: int)
    requires
        1 < m,
        0 <= a < m,
        (k * inv) % m == 1,
    ensures
        (((a * k) % m) * inv) % m == a,
{
    vstd::arithmetic::div_mod::lemma_mul_mod_noop_left(a * k, inv, m);
    assert((a * k) * inv == a * (k * inv)) by (nonlinear_arith);
    vstd::arithmetic::div_mod::lemma_mul_mod_noop_right(a, k * inv, m);
    vstd::arithmetic::div_mod::lemma_small_mod(a as nat, m as nat);
    assert(a * 1 == a);
}

/// Sessions made at the same time by the same process have different ids.
pub proof fn ids_differ(now: int, pid: u32, a: u64, b: u64)
    requires
        a != b,
    ensures
        session::generated_id(now, pid as int, a as int) != session::generated_id(
            now,
            pid as int,
            b as int,
        ),
{
    let m: int = 0x1_0000_0000_0000_0000;
    let x = session::id_mix(now, pid as int, a as int);
    let y = session::id_mix(now, pid as int, b as int);
    if session::generated_id(now, pid as int, a as int) == session::generated_id(
        now,
        pid as int,
        b as int,
    ) {
        let p = session::generated_id(now, pid as int, a as int);
        let q = session::generated_id(now, pid as int, b as int);
        assert(p.skip("sess-"@.len() as int) =~= text::hex(x, 16));
        assert(q.skip("sess-"@.len() as int) =~= text::hex(y, 16));
        assert(vstd::arithmetic::power::pow(16, 16) == m) by {
            reveal_with_fuel(vstd::arithmetic::power::pow, 17);
        }
        text::hex_is_injective(x, y, 16);
        let nanos = if now < 0 {
            0
        } else {
            now % m
        };
        let base = nanos * 0x9E3779B97F4A7C15 + pid * 0xBF58476D1CE4E5B9;
        let ka = a * 0x94D049BB133111EB;
        let kb = b * 0x94D049BB133111EB;
        assert((base + ka) % m == (base + kb) % m);
        assert(ka % m == kb % m) by {
            vstd::arithmetic::div_mod::lemma_mod_equivalence(base + ka, base + kb, m);
            vstd::arithmetic::div_mod::lemma_mod_equivalence(ka, kb, m);
        }
        assert((0x94D049BB133111EBint * 0x319642B2D24D8EC3int) % m == 1);
        lemma_cancel(a as int, b as int, 0x94D049BB133111EB, 0x319642B2D24D8EC3, m);
    }
}

proof fn lemma_same_mix(x: nat, y: nat, now: int, pid: int, a: int, later: int, other: int, b: int)
    requires
        x == session::id_mix(now, pid, a),
        y == session::id_mix(later, other, b),
        session::generated_id(now, pid, a) == session::generated_id(later, other, b),
    ensures
        x == y,
{
    let m: int = 0x1_0000_0000_0000_0000;
    let p = session::generated_id(now, pid, a);
    let q = session::generated_id(later, other, b);
    assert(p.skip("sess-"@.len() as int) =~= text::hex(x, 16));
    assert(q.skip("sess-"@.len() as int) =~= text::hex(y, 16));
    assert(vstd::arithmetic::power::pow(16, 16) == m) by {
        reveal_with_fuel(vstd::arithmetic::power::pow, 17);
    }
    text::hex_is_injective(x, y, 16);
}

/// Sessions made at the same time by different processes have different ids.
pub proof fn ids_of_processes_differ(now: int, pid: u32, other: u32, counter: u64)
    requires
        pid != other,
    ensures
        session::generated_id(now, pid as int, counter as int) != session::generated_id(
            now,
            other as int,
            counter as int,
        ),
{
    let m: int = 0x1_0000_0000_0000_0000;
    let x = session::id_mix(now, pid as int, counter as int);
    let y = session::id_mix(now, other as int, counter as int);
    if session::generated_id(now, pid as int, counter as int) == session::generated_id(
        now,
        other as int,
        counter as int,
    ) {
        lemma_same_mix(
            x,
            y,
            now,
            pid as int,
            counter as int,
            now,
            other as int,
            counter as int,
        );
        let nanos = if now < 0 {
            0
        } else {
            now % m
        };
        let base = nanos * 0x9E3779B97F4A7C15 + counter * 0x94D049BB133111EB;
        let ka = pid * 0xBF58476D1CE4E5B9;
        let kb = other * 0xBF58476D1CE4E5B9;
        assert((base + ka) % m == (base + kb) % m);
        assert(ka % m == kb % m) by {
            vstd::arithmetic::div_mod::lemma_mod_equivalence(base + ka, base + kb, m);
            vstd::arithmetic::div_mod::lemma_mod_equivalence(ka, kb, m);
        }
        assert((0xBF58476D1CE4E5B9int * 0x96DE1B173F119089int) % m == 1);
        lemma_cancel(pid as int, other as int, 0xBF58476D1CE4E5B9, 0x96DE1B173F119089, m);
    }
}

/// Sessions made at different times by the same process have different ids, where the counter
/// was the same.
pub proof fn ids_of_times_differ(now: u64, later: u64, pid: u32, counter: u64)
    requires
        now != later,
    ensures
        session::generated_id(now as int, pid as int, counter as int) != session::generated_id(
            later as int,
            pid as int,
            counter as int,
        ),
{
    let m: int = 0x1_0000_0000_0000_0000;
    let x = session::id_mix(now as int, pid as int, counter as int);
    let y = session::id_mix(later as int, pid as int, counter as int);
    if session::generated_id(now as int, pid as int, counter as int) == session::generated_id(
        later as int,
        pid as int,
        counter as int,
    ) {
        lemma_same_mix(
            x,
            y,
            now as int,
            pid as int,
            counter as int,
            later as int,
            pid as int,
            counter as int,
        );
        assert(now as int % m == now && later as int % m == later);
        let base = pid * 0xBF58476D1CE4E5B9 + counter * 0x94D049BB133111EB;
        let ka = now * 0x9E3779B97F4A7C15;
        let kb = later * 0x9E3779B97F4A7C15;
        assert((base + ka) % m == (base + kb) % m);
        assert(ka % m == kb % m) by {
            vstd::arithmetic::div_mod::lemma_mod_equivalence(base + ka, base + kb, m);
            vstd::arithmetic::div_mod::lemma_mod_equivalence(ka, kb, m);
        }
        assert((0x9E3779B97F4A7C15int * 0xF1DE83E19937733Dint) % m == 1);
        lemma_cancel(now as int, later as int, 0x9E3779B97F4A7C15, 0xF1DE83E19937733D, m);
    }
}

} // verus!
