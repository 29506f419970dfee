//! Sessions: what the daemon remembers of each client's page, and the tokens that stand
//! for the elements of its latest snapshot.
use crate::table::Table;
use crate::text::{
    hex_text, joined, number_text, parse_number, same, split_once, strip_prefix,
};
use crate::text;
use vstd::prelude::*;

verus! {

/// Nanoseconds in a second.
pub const NANOS_PER_SEC: u128 = 1_000_000_000;

/// Nanoseconds in a millisecond.
pub const NANOS_PER_MILLI: u128 = 1_000_000;

/// How long a session that nobody uses is kept, in nanoseconds.
pub const SESSION_IDLE_TTL: u128 = 1_800_000_000_000;

/// A page to close, and the address it was last known under.
#[derive(Debug)]
pub struct PageCleanup {
    pub page_id: u64,
    pub page_url: Option<String>,
}

/// What a token stands for.
#[derive(Debug)]
pub struct UidBinding {
    pub page_id: u64,
    pub snapshot_epoch: u64,
    pub raw_uid: String,
}

/// One session. Times are nanoseconds since the Unix epoch.
#[derive(Debug)]
pub struct SessionState {
    pub id: String,
    pub created_at: i128,
    pub last_used_at: i128,
    pub owned: bool,
    pub page_id: Option<u64>,
    pub page_created_by_daemon: bool,
    pub page_url: Option<String>,
    /// The DevTools target of the page. It stays the same as long as the tab lives, while
    /// the address changes and may be shared with other tabs.
    pub target_id: Option<String>,
    pub snapshot_epoch: u64,
    pub uid_bindings: Table<UidBinding>,
}

/// The sessions of a daemon.
pub struct SessionRegistry {
    sessions: Vec<SessionState>,
    counter: u64,
}

/// A page to close.
#[verifier::ext_equal]
pub struct CleanupView {
    pub page: u64,
    pub url: Option<Seq<char>>,
}

/// What a token stands for.
#[verifier::ext_equal]
pub struct BindingView {
    pub page: u64,
    pub epoch: u64,
    pub raw: Seq<char>,
}

/// One session.
#[verifier::ext_equal]
pub struct SessionView {
    pub id: Seq<char>,
    pub created_at: int,
    pub last_used_at: int,
    pub owned: bool,
    pub page: Option<u64>,
    pub by_daemon: bool,
    pub url: Option<Seq<char>>,
    pub target: Option<Seq<char>>,
    pub epoch: u64,
    pub bindings: Map<Seq<char>, BindingView>,
}

impl View for PageCleanup {
    type V = CleanupView;

    open spec fn view(&self) -> CleanupView {
        CleanupView { page: self.page_id, url: text::opt_text(self.page_url) }
    }
}

impl View for UidBinding {
    type V = BindingView;

    open spec fn view(&self) -> BindingView {
        BindingView { page: self.page_id, epoch: self.snapshot_epoch, raw: self.raw_uid@ }
    }
}

/// The bindings of a table.
pub open spec fn binding_views(table: Map<Seq<char>, UidBinding>) -> Map<Seq<char>, BindingView> {
    table.map_values(|b: UidBinding| b@)
}

impl View for SessionState {
    type V = SessionView;

    open spec fn view(&self) -> SessionView {
        SessionView {
            id: self.id@,
            created_at: self.created_at as int,
            last_used_at: self.last_used_at as int,
            owned: self.owned,
            page: self.page_id,
            by_daemon: self.page_created_by_daemon,
            url: text::opt_text(self.page_url),
            target: text::opt_text(self.target_id),
            epoch: self.snapshot_epoch,
            bindings: binding_views(self.uid_bindings@),
        }
    }
}

/// Whether a list holds a session with this id.
pub open spec fn listed(sessions: Seq<SessionState>, id: Seq<char>) -> bool {
    exists|i: int| 0 <= i < sessions.len() && (#[trigger] sessions[i]).id@ == id
}

/// Where a list holds the session with this id.
pub open spec fn place(sessions: Seq<SessionState>, id: Seq<char>) -> int {
    choose|i: int| 0 <= i < sessions.len() && (#[trigger] sessions[i]).id@ == id
}

/// The sessions of a list by their ids.
pub open spec fn by_id(sessions: Seq<SessionState>) -> Map<Seq<char>, SessionView> {
    Map::new(|id: Seq<char>| listed(sessions, id), |id: Seq<char>| sessions[place(sessions, id)]@)
}

/// No two sessions of a list have the same id.
pub open spec fn distinct_ids(sessions: Seq<SessionState>) -> bool {
    forall|i: int, j: int|
        0 <= i < sessions.len() && 0 <= j < sessions.len() && (#[trigger] sessions[i]).id@ == (
        #[trigger] sessions[j]).id@ ==> i == j
}

impl View for SessionRegistry {
    type V = Map<Seq<char>, SessionView>;

    closed spec fn view(&self) -> Map<Seq<char>, SessionView> {
        by_id(self.sessions@)
    }
}

proof fn lemma_by_id(sessions: Seq<SessionState>, i: int)
    requires
        distinct_ids(sessions),
        0 <= i < sessions.len(),
    ensures
        by_id(sessions).contains_key(sessions[i].id@),
        by_id(sessions)[sessions[i].id@] == sessions[i]@,
{
    assert(listed(sessions, sessions[i].id@));
    let k = place(sessions, sessions[i].id@);
    assert(0 <= k < sessions.len() && sessions[k].id@ == sessions[i].id@);
}

/// Replacing a session by one with the same id.
proof fn lemma_update(sessions: Seq<SessionState>, i: int, state: SessionState)
    requires
        distinct_ids(sessions),
        0 <= i < sessions.len(),
        state.id@ == sessions[i].id@,
    ensures
        distinct_ids(sessions.update(i, state)),
        by_id(sessions.update(i, state)) == by_id(sessions).insert(state.id@, state@),
{
    let updated = sessions.update(i, state);
    assert forall|a: int, b: int|
        0 <= a < updated.len() && 0 <= b < updated.len() && (#[trigger] updated[a]).id@ == (
        #[trigger] updated[b]).id@ implies a == b by {
        assert(sessions[a].id@ == sessions[b].id@);
    }
    assert forall|id: Seq<char>| listed(updated, id) <==> listed(sessions, id) by {
        if listed(updated, id) {
            let k = place(updated, id);
            assert(sessions[k].id@ == id);
        }
        if listed(sessions, id) {
            let k = place(sessions, id);
            assert(updated[k].id@ == id);
        }
    }
    assert forall|id: Seq<char>| listed(updated, id) implies by_id(updated)[id] == by_id(
        sessions,
    ).insert(state.id@, state@)[id] by {
        let k = place(updated, id);
        lemma_by_id(updated, k);
        if k != i {
            assert(updated[k] == sessions[k]);
            assert(sessions[k].id@ != sessions[i].id@);
            lemma_by_id(sessions, k);
        }
    }
    lemma_by_id(sessions, i);
    assert(by_id(updated) =~= by_id(sessions).insert(state.id@, state@));
}

/// Adding a session with a new id.
proof fn lemma_push(sessions: Seq<SessionState>, state: SessionState)
    requires
        distinct_ids(sessions),
        !listed(sessions, state.id@),
    ensures
        distinct_ids(sessions.push(state)),
        by_id(sessions.push(state)) == by_id(sessions).insert(state.id@, state@),
{
    let longer = sessions.push(state);
    assert forall|a: int, b: int|
        0 <= a < longer.len() && 0 <= b < longer.len() && (#[trigger] longer[a]).id@ == (
        #[trigger] longer[b]).id@ implies a == b by {
        if a < sessions.len() {
            assert(longer[a] == sessions[a]);
        }
        if b < sessions.len() {
            assert(longer[b] == sessions[b]);
        }
    }
    assert forall|id: Seq<char>| #[trigger]
        listed(longer, id) <==> (listed(sessions, id) || id == state.id@) by {
        if listed(longer, id) {
            let k = place(longer, id);
            if k < sessions.len() {
                assert(sessions[k].id@ == id);
            }
        }
        if listed(sessions, id) {
            let k = place(sessions, id);
            assert(longer[k].id@ == id);
        }
        if id == state.id@ {
            assert(longer[sessions.len() as int].id@ == id);
        }
    }
    assert forall|id: Seq<char>| listed(longer, id) implies by_id(longer)[id] == by_id(
        sessions,
    ).insert(state.id@, state@)[id] by {
        let k = place(longer, id);
        lemma_by_id(longer, k);
        if k < sessions.len() {
            assert(longer[k] == sessions[k]);
            assert(listed(sessions, id));
            lemma_by_id(sessions, k);
        }
    }
    assert(by_id(longer) =~= by_id(sessions).insert(state.id@, state@));
}

/// Taking a session out.
proof fn lemma_remove(sessions: Seq<SessionState>, i: int)
    requires
        distinct_ids(sessions),
        0 <= i < sessions.len(),
    ensures
        distinct_ids(sessions.remove(i)),
        by_id(sessions.remove(i)) == by_id(sessions).remove(sessions[i].id@),
{
    let shorter = sessions.remove(i);
    assert forall|a: int| 0 <= a < shorter.len() implies #[trigger] shorter[a] == sessions[if a < i {
        a
    } else {
        a + 1
    }] by {}
    assert forall|a: int, b: int|
        0 <= a < shorter.len() && 0 <= b < shorter.len() && (#[trigger] shorter[a]).id@ == (
        #[trigger] shorter[b]).id@ implies a == b by {
        let x = if a < i {
            a
        } else {
            a + 1
        };
        let y = if b < i {
            b
        } else {
            b + 1
        };
        assert(sessions[x].id@ == sessions[y].id@);
    }
    assert forall|id: Seq<char>| #[trigger]
        listed(shorter, id) <==> (listed(sessions, id) && id != sessions[i].id@) by {
        if listed(shorter, id) {
            let k = place(shorter, id);
            let x = if k < i {
                k
            } else {
                k + 1
            };
            assert(sessions[x].id@ == id);
        }
        if listed(sessions, id) && id != sessions[i].id@ {
            let k = place(sessions, id);
            let x = if k < i {
                k
            } else {
                k - 1
            };
            assert(shorter[x].id@ == id);
        }
    }
    assert forall|id: Seq<char>| listed(shorter, id) implies by_id(shorter)[id] == by_id(
        sessions,
    )[id] by {
        let k = place(shorter, id);
        lemma_by_id(shorter, k);
        let x = if k < i {
            k
        } else {
            k + 1
        };
        lemma_by_id(sessions, x);
    }
    assert(by_id(shorter) =~= by_id(sessions).remove(sessions[i].id@));
}

/// The page that is to be closed when a session ends: one that the daemon opened for it.
pub open spec fn cleanup(s: SessionView) -> Option<CleanupView> {
    if s.by_daemon && s.page is Some {
        Some(CleanupView { page: s.page->0, url: s.url })
    } else {
        None
    }
}

/// A cleanup as a value of the specification.
pub open spec fn cleanup_view(c: Option<PageCleanup>) -> Option<CleanupView> {
    match c {
        Some(page) => Some(page@),
        None => None,
    }
}

/// Whether a session has been idle for at least `ttl`.
pub open spec fn expired(s: SessionView, now: int, ttl: int) -> bool {
    !s.owned && s.last_used_at <= now && now - s.last_used_at >= ttl
}

/// The message for an id that no session has.
pub open spec fn unknown_session(id: Seq<char>) -> Seq<char> {
    "unknown session: "@ + id
}

/// The message for a session that is bound.
pub open spec fn session_in_use(id: Seq<char>) -> Seq<char> {
    "session in use: "@ + id
}

/// Binding a session: the registry afterwards, or why it is refused.
pub open spec fn binding(m: Map<Seq<char>, SessionView>, id: Seq<char>, now: int) -> Result<
    Map<Seq<char>, SessionView>,
    Seq<char>,
> {
    if !m.contains_key(id) {
        Err(unknown_session(id))
    } else if m[id].owned {
        Err(session_in_use(id))
    } else {
        Ok(m.insert(id, SessionView { owned: true, last_used_at: now, ..m[id] }))
    }
}

/// Releasing a session.
pub open spec fn released(s: SessionView, now: int) -> SessionView {
    SessionView { owned: false, last_used_at: now, ..s }
}

/// Ending a session: the page to close and the registry afterwards, or why it is refused.
pub open spec fn closing(m: Map<Seq<char>, SessionView>, id: Seq<char>) -> Result<
    (Option<CleanupView>, Map<Seq<char>, SessionView>),
    Seq<char>,
> {
    if !m.contains_key(id) {
        Err(unknown_session(id))
    } else if m[id].owned {
        Err(session_in_use(id))
    } else {
        Ok((cleanup(m[id]), m.remove(id)))
    }
}

/// A session that has just been used.
pub open spec fn touched(s: SessionView, now: int) -> SessionView {
    SessionView { last_used_at: now, ..s }
}

/// A session whose page has a known target.
pub open spec fn targeted(s: SessionView, target: Option<Seq<char>>) -> SessionView {
    SessionView { target, ..s }
}

/// A session that has just been made.
pub open spec fn fresh(id: Seq<char>, now: int) -> SessionView {
    SessionView {
        id,
        created_at: now,
        last_used_at: now,
        owned: false,
        page: None,
        by_daemon: false,
        url: None,
        target: None,
        epoch: 0,
        bindings: Map::empty(),
    }
}

/// The epoch after `epoch`; it wraps.
pub open spec fn next_epoch(epoch: u64) -> u64 {
    if epoch == u64::MAX {
        0
    } else {
        (epoch + 1) as u64
    }
}

/// A session that uses a page. Another page than before makes the tokens and the target
/// of the old one void.
pub open spec fn paged(
    s: SessionView,
    page: u64,
    by_daemon: bool,
    url: Option<Seq<char>>,
    now: int,
) -> SessionView {
    let same_page = s.page == Some(page);
    SessionView {
        page: Some(page),
        by_daemon,
        url,
        last_used_at: now,
        epoch: if same_page {
            s.epoch
        } else {
            next_epoch(s.epoch)
        },
        bindings: if same_page {
            s.bindings
        } else {
            Map::empty()
        },
        target: if same_page {
            s.target
        } else {
            None
        },
        ..s
    }
}

/// A session that has lost its page.
pub open spec fn pageless(s: SessionView, now: int) -> SessionView {
    SessionView {
        page: None,
        by_daemon: false,
        url: None,
        target: None,
        epoch: next_epoch(s.epoch),
        bindings: Map::empty(),
        last_used_at: now,
        ..s
    }
}

/// The id without the prefix that all generated ids share.
pub open spec fn short_id(id: Seq<char>) -> Seq<char> {
    match text::after(id, "sess-"@) {
        Some(rest) => rest,
        None => id,
    }
}

/// What the tokens of a snapshot begin with.
pub open spec fn token_prefix(id: Seq<char>, epoch: u64) -> Seq<char> {
    "u:"@ + short_id(id) + ":"@ + text::decimal(epoch as nat) + ":"@
}

/// The token that stands for an element of a snapshot.
pub open spec fn token(id: Seq<char>, epoch: u64, raw: Seq<char>) -> Seq<char> {
    token_prefix(id, epoch) + raw
}

/// The tokens of a snapshot with what they stand for.
pub open spec fn token_bindings(
    id: Seq<char>,
    epoch: u64,
    page: u64,
    uids: Set<Seq<char>>,
) -> Map<Seq<char>, BindingView> {
    let prefix = token_prefix(id, epoch);
    Map::new(
        |t: Seq<char>|
            text::begins(t, prefix) && uids.contains(t.skip(prefix.len() as int)),
        |t: Seq<char>| BindingView { page, epoch, raw: t.skip(prefix.len() as int) },
    )
}

/// The tokens that replace the elements of a snapshot.
pub open spec fn token_map(id: Seq<char>, epoch: u64, uids: Set<Seq<char>>) -> Map<
    Seq<char>,
    Seq<char>,
> {
    Map::new(|raw: Seq<char>| uids.contains(raw), |raw: Seq<char>| token(id, epoch, raw))
}

/// A session after a snapshot.
pub open spec fn snapped(
    s: SessionView,
    id: Seq<char>,
    page: u64,
    uids: Set<Seq<char>>,
    now: int,
) -> SessionView {
    let epoch = next_epoch(s.epoch);
    SessionView {
        epoch,
        bindings: token_bindings(id, epoch, page, uids),
        last_used_at: now,
        ..s
    }
}

/// A text cut at its first two colons.
pub open spec fn three_parts(s: Seq<char>) -> Option<(Seq<char>, Seq<char>, Seq<char>)> {
    match text::cut(s, ":"@) {
        Some((first, rest)) => match text::cut(rest, ":"@) {
            Some((second, third)) => Some((first, second, third)),
            None => None,
        },
        None => None,
    }
}

/// What a token stands for on a page, or why it is refused.
pub open spec fn translated(s: SessionView, id: Seq<char>, page: u64, tok: Seq<char>) -> Result<
    Seq<char>,
    Seq<char>,
> {
    match text::after(tok, "u:"@) {
        None => Err("session uid token is required"@),
        Some(rest) => match three_parts(rest) {
            None => Err("invalid session uid token"@),
            Some((owner, epoch, _)) => if owner != short_id(id) {
                Err("uid token belongs to another session"@)
            } else {
                match text::parsed(epoch, u64::MAX as nat) {
                    None => Err("invalid session uid token epoch"@),
                    Some(n) => if n != s.epoch {
                        Err("stale uid token"@)
                    } else if !s.bindings.contains_key(tok) {
                        Err("unknown uid token"@)
                    } else if s.bindings[tok].page != page {
                        Err("uid token belongs to another page"@)
                    } else if s.bindings[tok].epoch != s.epoch {
                        Err("stale uid token"@)
                    } else {
                        Ok(s.bindings[tok].raw)
                    },
                }
            },
        },
    }
}

/// What a token stands for in a registry, or why it is refused.
pub open spec fn translated_in(
    m: Map<Seq<char>, SessionView>,
    id: Seq<char>,
    page: u64,
    tok: Seq<char>,
) -> Result<Seq<char>, Seq<char>> {
    if m.contains_key(id) {
        translated(m[id], id, page, tok)
    } else {
        Err(unknown_session(id))
    }
}

/// The registry with one session changed, if it is there.
pub open spec fn adjusted(
    m: Map<Seq<char>, SessionView>,
    id: Seq<char>,
    change: spec_fn(SessionView) -> SessionView,
) -> Map<Seq<char>, SessionView> {
    if m.contains_key(id) {
        m.insert(id, change(m[id]))
    } else {
        m
    }
}

/// The mix of time, process and count that makes an id.
pub open spec fn id_mix(now: int, pid: int, counter: int) -> nat {
    let nanos = if now < 0 {
        0
    } else {
        now % 0x1_0000_0000_0000_0000
    };
    ((nanos * 0x9E3779B97F4A7C15 + pid * 0xBF58476D1CE4E5B9 + counter * 0x94D049BB133111EB)
        % 0x1_0000_0000_0000_0000) as nat
}

/// The id of the session made at a time by a process as its `counter`th one.
pub open spec fn generated_id(now: int, pid: int, counter: int) -> Seq<char> {
    "sess-"@ + text::hex(id_mix(now, pid, counter), 16)
}

/// Whole seconds since the Unix epoch; zero before it.
pub open spec fn seconds(time: int) -> int {
    if time < 0 {
        0
    } else if time / 1_000_000_000 > u64::MAX {
        u64::MAX as int
    } else {
        time / 1_000_000_000
    }
}

/// The page of a registry's session.
pub open spec fn page_in(m: Map<Seq<char>, SessionView>, id: Seq<char>) -> Option<u64> {
    if m.contains_key(id) {
        m[id].page
    } else {
        None
    }
}

/// Whether a list holds the sessions of a registry, each once, the oldest first.
pub open spec fn listing(m: Map<Seq<char>, SessionView>, list: Seq<SessionState>) -> bool {
    &&& distinct_ids(list)
    &&& by_id(list) == m
    &&& forall|i: int, j: int|
        0 <= i <= j < list.len() ==> (#[trigger] list[i]).created_at <= (
        #[trigger] list[j]).created_at
}

/// Whether `cleanups` are the pages to close of the sessions in `ids`, each once, in some
/// order.
pub open spec fn cleanups_of(
    m: Map<Seq<char>, SessionView>,
    ids: Set<Seq<char>>,
    cleanups: Seq<PageCleanup>,
) -> bool {
    exists|order: Seq<Seq<char>>| #[trigger]
        is_order(m, ids, order) && cleanups.len() == order.len() && forall|i: int|
            0 <= i < order.len() ==> Some((#[trigger] cleanups[i])@) == cleanup(m[order[i]])
}

/// Whether `cleanups` are the pages to close of all the sessions, each once, those of the
/// oldest session first.
pub open spec fn cleanups_by_age(
    m: Map<Seq<char>, SessionView>,
    cleanups: Seq<PageCleanup>,
) -> bool {
    exists|order: Seq<Seq<char>>| #[trigger]
        is_order(m, Set::full(), order) && oldest_first(m, order) && cleanups.len() == order.len()
            && forall|i: int|
            0 <= i < order.len() ==> Some((#[trigger] cleanups[i])@) == cleanup(m[order[i]])
}

/// Whether of the sessions in `order` none is older than one before it.
pub open spec fn oldest_first(m: Map<Seq<char>, SessionView>, order: Seq<Seq<char>>) -> bool {
    forall|i: int, j: int|
        0 <= i <= j < order.len() ==> m[#[trigger] order[i]].created_at <= m[
        #[trigger] order[j]].created_at
}

/// Whether `order` lists those sessions of `ids` that have a page to close, each once.
pub open spec fn is_order(
    m: Map<Seq<char>, SessionView>,
    ids: Set<Seq<char>>,
    order: Seq<Seq<char>>,
) -> bool {
    &&& order.no_duplicates()
    &&& forall|id: Seq<char>|
        order.contains(id) <==> m.contains_key(id) && ids.contains(id) && cleanup(m[id]) is Some
}

/// Adding with wrapping at 64 bits what was already wrapped.
proof fn lemma_sum_mod(x: int, y: int, z: int, a: int, b: int, c: int, mix: int)
    requires
        a == x % 0x1_0000_0000_0000_0000,
        b == y % 0x1_0000_0000_0000_0000,
        c == z % 0x1_0000_0000_0000_0000,
        mix == ((a + b) % 0x1_0000_0000_0000_0000 + c) % 0x1_0000_0000_0000_0000,
    ensures
        mix == (x + y + z) % 0x1_0000_0000_0000_0000,
{
    vstd::arithmetic::div_mod::lemma_add_mod_noop(x, y, 0x1_0000_0000_0000_0000);
    vstd::arithmetic::div_mod::lemma_add_mod_noop(x + y, z, 0x1_0000_0000_0000_0000);
}

/// The id of the session made at `now` by process `pid` as its `counter`th one.
pub fn generate_session_id(now: i128, pid: u32, counter: u64) -> (r: String)
    ensures
        r@ == generated_id(now as int, pid as int, counter as int),
{
    let nanos: u64 = if now < 0 {
        0
    } else {
        (now as u128 % 0x1_0000_0000_0000_0000) as u64
    };
    let a: u64 = nanos.wrapping_mul(0x9E3779B97F4A7C15);
    let b: u64 = (pid as u64).wrapping_mul(0xBF58476D1CE4E5B9);
    let c: u64 = counter.wrapping_mul(0x94D049BB133111EB);
    let mix: u64 = a.wrapping_add(b).wrapping_add(c);
    proof {
        lemma_sum_mod(
            nanos * 0x9E3779B97F4A7C15,
            pid * 0xBF58476D1CE4E5B9,
            counter * 0x94D049BB133111EB,
            a as int,
            b as int,
            c as int,
            mix as int,
        );
    }
    joined("sess-", hex_text(mix).as_str())
}

/// Whole seconds since the Unix epoch; zero before it.
pub fn unix_secs(time: i128) -> (r: u64)
    ensures
        r == seconds(time as int),
{
    if time < 0 {
        0
    } else {
        let secs: u128 = time as u128 / NANOS_PER_SEC;
        if secs > u64::MAX as u128 {
            u64::MAX
        } else {
            secs as u64
        }
    }
}

/// The id without the prefix that all generated ids share.
pub fn session_short_id(id: &str) -> (r: String)
    ensures
        r@ == short_id(id@),
{
    match strip_prefix(id, "sess-") {
        Some(rest) => rest,
        None => id.to_string(),
    }
}

/// The page that is to be closed when a session ends.
pub fn page_cleanup_for_session(session: &SessionState) -> (r: Option<PageCleanup>)
    ensures
        cleanup_view(r) == cleanup(session@),
{
    if session.page_created_by_daemon {
        match session.page_id {
            Some(page_id) => Some(PageCleanup { page_id, page_url: session.page_url.clone() }),
            None => None,
        }
    } else {
        None
    }
}

impl SessionState {
    /// A copy of the session.
    pub fn copy(&self) -> (r: SessionState)
        ensures
            r@ == self@,
    {
        let mut uid_bindings: Table<UidBinding> = Table::new();
        let mut i: usize = 0;
        while i < self.uid_bindings.entries.len()
            invariant
                i <= self.uid_bindings.entries.len(),
                binding_views(uid_bindings@) == binding_views(
                    crate::table::mapping(self.uid_bindings.entries@.take(i as int)),
                ),
            decreases self.uid_bindings.entries.len() - i,
        {
            let ghost entries = self.uid_bindings.entries@;
            let ghost before = uid_bindings@;
            let key = self.uid_bindings.entries[i].0.clone();
            let old_binding = &self.uid_bindings.entries[i].1;
            let binding = UidBinding {
                page_id: old_binding.page_id,
                snapshot_epoch: old_binding.snapshot_epoch,
                raw_uid: old_binding.raw_uid.clone(),
            };
            uid_bindings.insert(key, binding);
            proof {
                assert(entries.take(i + 1).drop_last() =~= entries.take(i as int));
                assert(binding_views(uid_bindings@) =~= binding_views(before).insert(
                    key@,
                    binding@,
                ));
                assert(binding_views(crate::table::mapping(entries.take(i + 1)))
                    =~= binding_views(crate::table::mapping(entries.take(i as int))).insert(
                    entries[i as int].0@,
                    entries[i as int].1@,
                ));
            }
            i = i + 1;
        }
        assert(self.uid_bindings.entries@.take(i as int) =~= self.uid_bindings.entries@);
        SessionState {
            id: self.id.clone(),
            created_at: self.created_at,
            last_used_at: self.last_used_at,
            owned: self.owned,
            page_id: self.page_id,
            page_created_by_daemon: self.page_created_by_daemon,
            page_url: self.page_url.clone(),
            target_id: self.target_id.clone(),
            snapshot_epoch: self.snapshot_epoch,
            uid_bindings,
        }
    }
}

impl SessionRegistry {
    /// No two sessions have the same id.
    pub closed spec fn wf(&self) -> bool {
        distinct_ids(self.sessions@)
    }

    /// How many sessions the registry has made.
    pub closed spec fn made(&self) -> u64 {
        self.counter
    }

    /// A registry without sessions.
    pub fn new() -> (r: SessionRegistry)
        ensures
            r.wf(),
            r@ == Map::<Seq<char>, SessionView>::empty(),
            r.made() == 0,
    {
        let r = SessionRegistry { sessions: Vec::new(), counter: 0 };
        assert(r@ =~= Map::<Seq<char>, SessionView>::empty());
        r
    }

    /// Where the session with this id is.
    fn position(&self, id: &str) -> (r: Option<usize>)
        requires
            self.wf(),
        ensures
            match r {
                Some(i) => i < self.sessions.len() && self.sessions[i as int].id@ == id@
                    && self@.contains_key(id@) && self@[id@] == self.sessions[i as int]@,
                None => !self@.contains_key(id@),
            },
    {
        let mut i: usize = 0;
        while i < self.sessions.len()
            invariant
                self.wf(),
                i <= self.sessions.len(),
                forall|j: int| 0 <= j < i ==> (#[trigger] self.sessions[j]).id@ != id@,
            decreases self.sessions.len() - i,
        {
            if same(self.sessions[i].id.as_str(), id) {
                proof {
                    lemma_by_id(self.sessions@, i as int);
                }
                return Some(i);
            }
            i = i + 1;
        }
        assert(!listed(self.sessions@, id@));
        None
    }

    /// The session with this id.
    pub fn get(&self, id: &str) -> (r: Option<&SessionState>)
        requires
            self.wf(),
        ensures
            match r {
                Some(s) => self@.contains_key(id@) && self@[id@] == s@,
                None => !self@.contains_key(id@),
            },
    {
        match self.position(id) {
            Some(i) => Some(&self.sessions[i]),
            None => None,
        }
    }

    /// Makes a session. Its id comes from the time, the process and a count.
    pub fn create(&mut self, now: i128, pid: u32) -> (r: SessionState)
        requires
            old(self).wf(),
        ensures
            final(self).wf(),
            r@ == fresh(
                generated_id(now as int, pid as int, old(self).made() as int),
                now as int,
            ),
            final(self)@ == old(self)@.insert(r@.id, r@),
            final(self).made() == next_epoch(old(self).made()),
    {
        let id = generate_session_id(now, pid, self.counter);
        self.counter = self.counter.wrapping_add(1);
        let state = SessionState {
            id,
            created_at: now,
            last_used_at: now,
            owned: false,
            page_id: None,
            page_created_by_daemon: false,
            page_url: None,
            target_id: None,
            snapshot_epoch: 0,
            uid_bindings: Table::new(),
        };
        assert(binding_views(state.uid_bindings@) =~= Map::empty());
        let copied = state.copy();
        match self.position(state.id.as_str()) {
            Some(i) => {
                proof {
                    lemma_update(self.sessions@, i as int, state);
                }
                self.sessions.set(i, state);
            },
            None => {
                proof {
                    lemma_push(self.sessions@, state);
                }
                self.sessions.push(state);
            },
        }
        copied
    }

    /// The sessions, the oldest first.
    pub fn list(&self) -> (r: Vec<SessionState>)
        requires
            self.wf(),
        ensures
            listing(self@, r@),
            r.len() == self@.len(),
    {
        let mut out: Vec<SessionState> = Vec::new();
        let mut i: usize = 0;
        assert(by_id(self.sessions@.take(0)) =~= by_id(out@));
        while i < self.sessions.len()
            invariant
                self.wf(),
                i <= self.sessions.len(),
                out.len() == i,
                listing(by_id(self.sessions@.take(i as int)), out@),
            decreases self.sessions.len() - i,
        {
            let state = self.sessions[i].copy();
            let ghost before = self.sessions@.take(i as int);
            let mut k: usize = out.len();
            while k > 0 && out[k - 1].created_at > state.created_at
                invariant
                    k <= out.len(),
                    forall|j: int|
                        k <= j < out.len() ==> (#[trigger] out[j]).created_at > state.created_at,
                decreases k,
            {
                k = k - 1;
            }
            let ghost shorter = out@;
            proof {
                let longer = self.sessions@.take(i + 1);
                assert(longer =~= before.push(self.sessions@[i as int]));
                assert(!listed(before, state.id@)) by {
                    if listed(before, state.id@) {
                        let p = place(before, state.id@);
                        assert(self.sessions@[p].id@ == self.sessions@[i as int].id@);
                    }
                }
                assert(distinct_ids(before)) by {
                    assert forall|a: int, b: int|
                        0 <= a < before.len() && 0 <= b < before.len() && (
                        #[trigger] before[a]).id@ == (#[trigger] before[b]).id@ implies a == b by {
                        assert(self.sessions@[a].id@ == self.sessions@[b].id@);
                    }
                }
                lemma_push(before, self.sessions@[i as int]);
                assert(!by_id(shorter).contains_key(state.id@));
                lemma_insert(shorter, k as int, state);
            }
            out.insert(k, state);
            i = i + 1;
            assert(forall|a: int, b: int|
                0 <= a <= b < out@.len() ==> (#[trigger] out@[a]).created_at <= (
                #[trigger] out@[b]).created_at);
        }
        assert(self.sessions@.take(i as int) =~= self.sessions@);
        proof {
            lemma_by_id_len(self.sessions@);
        }
        out
    }

    /// Ends a session that is not bound, and tells which page is to be closed.
    pub fn close(&mut self, id: &str) -> (r: Result<Option<PageCleanup>, String>)
        requires
            old(self).wf(),
        ensures
            final(self).wf(),
            final(self).made() == old(self).made(),
            match r {
                Ok(page) => closing(old(self)@, id@) == Ok::<_, Seq<char>>(
                    (cleanup_view(page), final(self)@),
                ),
                Err(message) => final(self)@ == old(self)@ && closing(old(self)@, id@) == Err::<
                    (Option<CleanupView>, Map<Seq<char>, SessionView>),
                    _,
                >(message@),
            },
    {
        match self.position(id) {
            Some(i) => {
                if self.sessions[i].owned {
                    return Err(joined("session in use: ", id));
                }
                proof {
                    lemma_remove(self.sessions@, i as int);
                }
                let session = self.sessions.remove(i);
                Ok(page_cleanup_for_session(&session))
            },
            None => Err(joined("unknown session: ", id)),
        }
    }

    /// Replaces the session at an index by one with the same id.
    fn replace(&mut self, i: usize, state: SessionState)
        requires
            old(self).wf(),
            i < old(self).sessions.len(),
            state.id@ == old(self).sessions[i as int].id@,
        ensures
            final(self).wf(),
            final(self).made() == old(self).made(),
            final(self)@ == old(self)@.insert(state.id@, state@),
    {
        proof {
            lemma_update(self.sessions@, i as int, state);
        }
        self.sessions.set(i, state);
    }

    /// Binds a session that is not bound yet.
    pub fn bind(&mut self, id: &str, now: i128) -> (r: Result<(), String>)
        requires
            old(self).wf(),
        ensures
            final(self).wf(),
            final(self).made() == old(self).made(),
            match r {
                Ok(()) => binding(old(self)@, id@, now as int) == Ok::<_, Seq<char>>(final(self)@),
                Err(message) => final(self)@ == old(self)@ && binding(old(self)@, id@, now as int)
                    == Err::<Map<Seq<char>, SessionView>, _>(message@),
            },
    {
        match self.position(id) {
            Some(i) => {
                if self.sessions[i].owned {
                    return Err(joined("session in use: ", id));
                }
                let mut state = self.sessions[i].copy();
                state.owned = true;
                state.last_used_at = now;
                self.replace(i, state);
                Ok(())
            },
            None => Err(joined("unknown session: ", id)),
        }
    }

    /// Releases a session.
    pub fn unbind(&mut self, id: &str, now: i128)
        requires
            old(self).wf(),
        ensures
            final(self).wf(),
            final(self).made() == old(self).made(),
            final(self)@ == adjusted(
                old(self)@,
                id@,
                |s: SessionView| released(s, now as int),
            ),
    {
        if let Some(i) = self.position(id) {
            let mut state = self.sessions[i].copy();
            state.owned = false;
            state.last_used_at = now;
            self.replace(i, state);
        }
    }

    /// Notes that a session was used.
    pub fn touch(&mut self, id: &str, now: i128)
        requires
            old(self).wf(),
        ensures
            final(self).wf(),
            final(self).made() == old(self).made(),
            final(self)@ == adjusted(
                old(self)@,
                id@,
                |s: SessionView| touched(s, now as int),
            ),
    {
        if let Some(i) = self.position(id) {
            let mut state = self.sessions[i].copy();
            state.last_used_at = now;
            self.replace(i, state);
        }
    }

    /// Ends the sessions that nobody has used for `ttl`, and tells which pages are to be
    /// closed.
    pub fn reap_expired(&mut self, now: i128, ttl: u128) -> (r: Vec<PageCleanup>)
        requires
            old(self).wf(),
        ensures
            final(self).wf(),
            final(self).made() == old(self).made(),
            final(self)@ == old(self)@.remove_keys(
                Set::new(|id: Seq<char>|
                    old(self)@.contains_key(id) && expired(
                        old(self)@[id],
                        now as int,
                        ttl as int,
                    )),
            ),
            cleanups_of(
                old(self)@,
                Set::new(|id: Seq<char>| expired(old(self)@[id], now as int, ttl as int)),
                r@,
            ),
            forall|id: Seq<char>| #[trigger]
                final(self)@.contains_key(id) <==> old(self)@.contains_key(id) && (
                old(self)@[id].owned || now - old(self)@[id].last_used_at < ttl
                    || old(self)@[id].last_used_at > now),
            forall|id: Seq<char>| #[trigger]
                final(self)@.contains_key(id) ==> final(self)@[id] == old(self)@[id],
    {
        let ghost all = old(self)@;
        let ghost doomed = Set::new(|id: Seq<char>| expired(all[id], now as int, ttl as int));
        let ghost mut order: Seq<Seq<char>> = Seq::empty();
        let mut cleanups: Vec<PageCleanup> = Vec::new();
        let mut i: usize = 0;
        let ghost mut seen: Set<Seq<char>> = Set::empty();
        while i < self.sessions.len()
            invariant
                self.wf(),
                self.made() == old(self).made(),
                i <= self.sessions.len(),
                all == old(self)@,
                doomed == Set::new(|id: Seq<char>| expired(all[id], now as int, ttl as int)),
                seen.subset_of(all.dom()),
                self@ == all.remove_keys(seen.intersect(doomed)),
                forall|j: int| 0 <= j < i ==> seen.contains((#[trigger] self.sessions[j]).id@),
                forall|j: int|
                    i <= j < self.sessions.len() ==> !seen.contains(
                        (#[trigger] self.sessions[j]).id@,
                    ),
                order.no_duplicates(),
                forall|id: Seq<char>|
                    order.contains(id) <==> seen.contains(id) && doomed.contains(id) && cleanup(
                        all[id],
                    ) is Some,
                cleanups.len() == order.len(),
                forall|k: int|
                    0 <= k < order.len() ==> Some((#[trigger] cleanups[k])@) == cleanup(
                        all[order[k]],
                    ),
            decreases self.sessions.len() - i,
        {
            proof {
                lemma_by_id(self.sessions@, i as int);
            }
            let ghost id = self.sessions[i as int].id@;
            let ghost state = self.sessions[i as int]@;
            assert(all.contains_key(id) && all[id] == state);
            let session = &self.sessions[i];
            let keep = session.owned || session.last_used_at > now || lasting(
                session.last_used_at,
                now,
                ttl,
            );
            let ghost was_seen = seen;
            proof {
                seen = seen.insert(id);
            }
            if keep {
                assert(!doomed.contains(id));
                assert(seen.intersect(doomed) =~= was_seen.intersect(doomed));
                i = i + 1;
            } else {
                assert(doomed.contains(id));
                let ghost before = self.sessions@;
                proof {
                    lemma_remove(self.sessions@, i as int);
                }
                let session = self.sessions.remove(i);
                let ghost old_order = order;
                match page_cleanup_for_session(&session) {
                    Some(page) => {
                        cleanups.push(page);
                        proof {
                            assert(!order.contains(id));
                            order = order.push(id);
                            assert forall|x: Seq<char>|
                                order.contains(x) <==> old_order.contains(x) || x == id by {
                                if old_order.contains(x) {
                                    let w = choose|w: int|
                                        0 <= w < old_order.len() && old_order[w] == x;
                                    assert(order[w] == x);
                                }
                                if x == id {
                                    assert(order[old_order.len() as int] == x);
                                }
                            }
                            assert(order.no_duplicates()) by {
                                assert forall|a: int, b: int|
                                    0 <= a < order.len() && 0 <= b < order.len() && a
                                        != b implies order[a] != order[b] by {
                                    if a < old_order.len() && b < old_order.len() {
                                        assert(old_order[a] != old_order[b]);
                                    }
                                    if a == old_order.len() {
                                        assert(old_order.contains(old_order[b]));
                                    }
                                    if b == old_order.len() {
                                        assert(old_order.contains(old_order[a]));
                                    }
                                }
                            }
                        }
                    },
                    None => {},
                }
                proof {
                    assert(self@ =~= all.remove_keys(seen.intersect(doomed)));
                    assert forall|j: int| 0 <= j < i implies seen.contains(
                        (#[trigger] self.sessions[j]).id@,
                    ) by {
                        assert(before[j] == self.sessions[j]);
                    }
                    assert forall|j: int| i <= j < self.sessions.len() implies !seen.contains(
                        (#[trigger] self.sessions[j]).id@,
                    ) by {
                        assert(before[j + 1] == self.sessions[j]);
                        assert(before[j + 1].id@ != before[i as int].id@);
                    }
                }
            }
        }
        proof {
            assert forall|id: Seq<char>| all.contains_key(id) implies seen.contains(id)
                || !doomed.contains(id) by {
                if !seen.contains(id) {
                    assert(self@.contains_key(id));
                    let k = place(self.sessions@, id);
                    assert(listed(self.sessions@, id));
                    assert(seen.contains(self.sessions[k].id@));
                }
            }
            assert(self@ =~= all.remove_keys(
                Set::new(|id: Seq<char>| all.contains_key(id) && expired(all[id], now as int, ttl as int)),
            ));
            assert(is_order(all, doomed, order));
        }
        cleanups
    }

    /// The page of a session.
    pub fn page_id(&self, id: &str) -> (r: Option<u64>)
        requires
            self.wf(),
        ensures
            r == page_in(self@, id@),
    {
        match self.get(id) {
            Some(session) => session.page_id,
            None => None,
        }
    }

    /// Gives a session a page.
    pub fn set_page(
        &mut self,
        id: &str,
        page_id: u64,
        page_created_by_daemon: bool,
        page_url: Option<String>,
        now: i128,
    ) -> (r: Result<(), String>)
        requires
            old(self).wf(),
        ensures
            final(self).wf(),
            final(self).made() == old(self).made(),
            final(self)@ == adjusted(
                old(self)@,
                id@,
                |s: SessionView|
                    paged(
                        s,
                        page_id,
                        page_created_by_daemon,
                        text::opt_text(page_url),
                        now as int,
                    ),
            ),
            match r {
                Ok(()) => old(self)@.contains_key(id@),
                Err(message) => !old(self)@.contains_key(id@) && message@ == unknown_session(id@),
            },
    {
        match self.position(id) {
            Some(i) => {
                let mut state = self.sessions[i].copy();
                if state.page_id != Some(page_id) {
                    state.snapshot_epoch = state.snapshot_epoch.wrapping_add(1);
                    state.uid_bindings = Table::new();
                    state.target_id = None;
                    assert(binding_views(state.uid_bindings@) =~= Map::empty());
                }
                state.page_id = Some(page_id);
                state.page_created_by_daemon = page_created_by_daemon;
                state.page_url = page_url;
                state.last_used_at = now;
                self.replace(i, state);
                Ok(())
            },
            None => Err(joined("unknown session: ", id)),
        }
    }

    /// Notes the target of a session's page.
    pub fn set_target_id(&mut self, id: &str, target_id: Option<String>)
        requires
            old(self).wf(),
        ensures
            final(self).wf(),
            final(self).made() == old(self).made(),
            final(self)@ == adjusted(
                old(self)@,
                id@,
                |s: SessionView| targeted(s, text::opt_text(target_id)),
            ),
    {
        if let Some(i) = self.position(id) {
            let mut state = self.sessions[i].copy();
            state.target_id = target_id;
            self.replace(i, state);
        }
    }

    /// Takes a session's page away.
    pub fn clear_page(&mut self, id: &str, now: i128)
        requires
            old(self).wf(),
        ensures
            final(self).wf(),
            final(self).made() == old(self).made(),
            final(self)@ == adjusted(old(self)@, id@, |s: SessionView| pageless(s, now as int)),
    {
        if let Some(i) = self.position(id) {
            let mut state = self.sessions[i].copy();
            state.page_id = None;
            state.page_created_by_daemon = false;
            state.page_url = None;
            state.target_id = None;
            state.snapshot_epoch = state.snapshot_epoch.wrapping_add(1);
            state.uid_bindings = Table::new();
            state.last_used_at = now;
            assert(binding_views(state.uid_bindings@) =~= Map::empty());
            self.replace(i, state);
        }
    }

    /// Ends every session.
    pub fn clear_sessions(&mut self)
        ensures
            final(self).wf(),
            final(self).made() == old(self).made(),
            final(self)@ == Map::<Seq<char>, SessionView>::empty(),
    {
        self.sessions = Vec::new();
        assert(self@ =~= Map::<Seq<char>, SessionView>::empty());
    }
}

/// Whether less than `ttl` passed from `then` to `now`.
fn lasting(then: i128, now: i128, ttl: u128) -> (r: bool)
    requires
        then <= now,
    ensures
        r == (now - then < ttl),
{
    if then >= 0 {
        ((now - then) as u128) < ttl
    } else if now < 0 {
        ((now - then) as u128) < ttl
    } else {
        let before: u128 = if then == i128::MIN {
            170141183460469231731687303715884105728
        } else {
            (-then) as u128
        };
        let elapsed: u128 = now as u128 + before;
        elapsed < ttl
    }
}

/// A list with distinct ids has as many sessions as ids.
proof fn lemma_by_id_len(sessions: Seq<SessionState>)
    requires
        distinct_ids(sessions),
    ensures
        by_id(sessions).dom().finite(),
        by_id(sessions).len() == sessions.len(),
    decreases sessions.len(),
{
    if sessions.len() == 0 {
        assert(by_id(sessions) =~= Map::empty());
    } else {
        let front = sessions.drop_last();
        let last = sessions.last();
        assert(distinct_ids(front)) by {
            assert forall|a: int, b: int|
                0 <= a < front.len() && 0 <= b < front.len() && (#[trigger] front[a]).id@ == (
                #[trigger] front[b]).id@ implies a == b by {
                assert(sessions[a].id@ == sessions[b].id@);
            }
        }
        assert(!listed(front, last.id@)) by {
            if listed(front, last.id@) {
                let k = place(front, last.id@);
                assert(sessions[k].id@ == sessions[sessions.len() - 1].id@);
            }
        }
        lemma_by_id_len(front);
        assert(sessions =~= front.push(last));
        lemma_push(front, last);
    }
}

/// Inserting a session with a new id at an index.
proof fn lemma_insert(sessions: Seq<SessionState>, k: int, state: SessionState)
    requires
        distinct_ids(sessions),
        0 <= k <= sessions.len(),
        !by_id(sessions).contains_key(state.id@),
    ensures
        distinct_ids(sessions.insert(k, state)),
        by_id(sessions.insert(k, state)) == by_id(sessions).insert(state.id@, state@),
{
    let longer = sessions.insert(k, state);
    assert(sessions =~= longer.remove(k));
    assert forall|a: int, b: int|
        0 <= a < longer.len() && 0 <= b < longer.len() && (#[trigger] longer[a]).id@ == (
        #[trigger] longer[b]).id@ implies a == b by {
        let x = if a < k {
            a
        } else {
            a - 1
        };
        let y = if b < k {
            b
        } else {
            b - 1
        };
        if a != k {
            assert(longer[a] == sessions[x]);
            assert(listed(sessions, sessions[x].id@));
        }
        if b != k {
            assert(longer[b] == sessions[y]);
            assert(listed(sessions, sessions[y].id@));
        }
    }
    lemma_by_id(longer, k);
    lemma_remove(longer, k);
    assert(by_id(longer) =~= by_id(sessions).insert(state.id@, state@));
}

/// The texts of a table of strings.
pub open spec fn string_views(table: Map<Seq<char>, String>) -> Map<Seq<char>, Seq<char>> {
    table.map_values(|s: String| s@)
}

/// A text is a prefix followed by a rest exactly if it begins with the prefix and the
/// rest is what follows.
proof fn lemma_prefixed(t: Seq<char>, prefix: Seq<char>, rest: Seq<char>)
    ensures
        (text::begins(t, prefix) && t.skip(prefix.len() as int) == rest) <==> t == prefix + rest,
{
    if t == prefix + rest {
        assert(t.subrange(0, prefix.len() as int) =~= prefix);
        assert(t.skip(prefix.len() as int) =~= rest);
    }
    if text::begins(t, prefix) && t.skip(prefix.len() as int) == rest {
        assert(t =~= t.subrange(0, prefix.len() as int) + t.skip(prefix.len() as int));
    }
}

proof fn lemma_one_more_token(
    id: Seq<char>,
    epoch: u64,
    page: u64,
    uids: Set<Seq<char>>,
    raw: Seq<char>,
)
    ensures
        token_bindings(id, epoch, page, uids.insert(raw)) == token_bindings(
            id,
            epoch,
            page,
            uids,
        ).insert(token(id, epoch, raw), BindingView { page, epoch, raw }),
        token_map(id, epoch, uids.insert(raw)) == token_map(id, epoch, uids).insert(
            raw,
            token(id, epoch, raw),
        ),
{
    let prefix = token_prefix(id, epoch);
    let more = token_bindings(id, epoch, page, uids.insert(raw));
    let then = token_bindings(id, epoch, page, uids).insert(
        token(id, epoch, raw),
        BindingView { page, epoch, raw },
    );
    lemma_prefixed(token(id, epoch, raw), prefix, raw);
    assert forall|t: Seq<char>| more.contains_key(t) <==> then.contains_key(t) by {
        lemma_prefixed(t, prefix, raw);
    }
    assert forall|t: Seq<char>| more.contains_key(t) implies more[t] == then[t] by {
        lemma_prefixed(t, prefix, raw);
    }
    assert(more =~= then);
    assert(token_map(id, epoch, uids.insert(raw)) =~= token_map(id, epoch, uids).insert(
        raw,
        token(id, epoch, raw),
    ));
}

impl SessionRegistry {
    /// Starts a new snapshot: makes the tokens for its elements, in place of all earlier
    /// ones, and tells which token replaces which element.
    pub fn record_snapshot_uids(
        &mut self,
        id: &str,
        page_id: u64,
        raw_uids: &Vec<String>,
        now: i128,
    ) -> (r: Result<Table<String>, String>)
        requires
            old(self).wf(),
        ensures
            final(self).wf(),
            final(self).made() == old(self).made(),
            final(self)@ == adjusted(
                old(self)@,
                id@,
                |s: SessionView|
                    snapped(s, id@, page_id, text::texts(raw_uids@).to_set(), now as int),
            ),
            match r {
                Ok(replacements) => old(self)@.contains_key(id@) && string_views(replacements@)
                    == token_map(
                    id@,
                    next_epoch(old(self)@[id@].epoch),
                    text::texts(raw_uids@).to_set(),
                ),
                Err(message) => !old(self)@.contains_key(id@) && message@ == unknown_session(id@),
            },
    {
        let i: usize = match self.position(id) {
            Some(i) => i,
            None => {
                return Err(joined("unknown session: ", id));
            },
        };
        let mut state = self.sessions[i].copy();
        state.snapshot_epoch = state.snapshot_epoch.wrapping_add(1);
        let ghost epoch = state.snapshot_epoch;
        let mut prefix = joined("u:", session_short_id(id).as_str());
        prefix.append(":");
        prefix.append(number_text(state.snapshot_epoch as u128).as_str());
        prefix.append(":");
        assert(prefix@ == token_prefix(id@, epoch));
        let mut bindings: Table<UidBinding> = Table::new();
        let mut replacements: Table<String> = Table::new();
        let mut k: usize = 0;
        let ghost uids = text::texts(raw_uids@);
        proof {
            assert(uids.take(0).to_set() =~= Set::empty());
            assert(binding_views(bindings@) =~= token_bindings(id@, epoch, page_id, Set::empty()));
            assert(string_views(replacements@) =~= token_map(id@, epoch, Set::empty()));
        }
        while k < raw_uids.len()
            invariant
                k <= raw_uids.len(),
                uids == text::texts(raw_uids@),
                epoch == state.snapshot_epoch,
                prefix@ == token_prefix(id@, epoch),
                binding_views(bindings@) == token_bindings(
                    id@,
                    epoch,
                    page_id,
                    uids.take(k as int).to_set(),
                ),
                string_views(replacements@) == token_map(
                    id@,
                    epoch,
                    uids.take(k as int).to_set(),
                ),
            decreases raw_uids.len() - k,
        {
            let raw = &raw_uids[k];
            let ghost seen = uids.take(k as int);
            let ghost before = bindings@;
            let ghost replaced = replacements@;
            let made = joined(prefix.as_str(), raw.as_str());
            let binding = UidBinding {
                page_id,
                snapshot_epoch: state.snapshot_epoch,
                raw_uid: raw.clone(),
            };
            replacements.insert(raw.clone(), made.clone());
            bindings.insert(made, binding);
            proof {
                assert(raw@ == uids[k as int]);
                assert(uids.take(k + 1) =~= seen.push(raw@));
                assert(seen.push(raw@).to_set() =~= seen.to_set().insert(raw@)) by {
                    assert forall|x: Seq<char>|
                        seen.push(raw@).to_set().contains(x) <==> seen.to_set().insert(
                            raw@,
                        ).contains(x) by {
                        if seen.contains(x) {
                            let w = choose|w: int| 0 <= w < seen.len() && seen[w] == x;
                            assert(seen.push(raw@)[w] == x);
                        }
                        if x == raw@ {
                            assert(seen.push(raw@)[seen.len() as int] == x);
                        }
                    }
                }
                lemma_one_more_token(id@, epoch, page_id, seen.to_set(), raw@);
                assert(binding_views(bindings@) =~= binding_views(before).insert(made@, binding@));
                assert(string_views(replacements@) =~= string_views(replaced).insert(raw@, made@));
            }
            k = k + 1;
        }
        assert(uids.take(k as int) =~= uids);
        state.uid_bindings = bindings;
        state.last_used_at = now;
        self.replace(i, state);
        Ok(replacements)
    }

    /// What a token stands for on a page, or why it is refused.
    pub fn translate_uid_token(&self, id: &str, page_id: u64, token: &str) -> (r: Result<
        String,
        String,
    >)
        requires
            self.wf(),
        ensures
            text::result_text(r) == translated_in(self@, id@, page_id, token@),
    {
        let session = match self.get(id) {
            Some(session) => session,
            None => {
                return Err(joined("unknown session: ", id));
            },
        };
        let rest = match strip_prefix(token, "u:") {
            Some(rest) => rest,
            None => {
                return Err("session uid token is required".to_string());
            },
        };
        let (owner, rest) = match split_once(rest.as_str(), ":") {
            Some(parts) => parts,
            None => {
                return Err("invalid session uid token".to_string());
            },
        };
        let (epoch, _) = match split_once(rest.as_str(), ":") {
            Some(parts) => parts,
            None => {
                return Err("invalid session uid token".to_string());
            },
        };
        if !same(owner.as_str(), session_short_id(id).as_str()) {
            return Err("uid token belongs to another session".to_string());
        }
        let epoch: u64 = match parse_number(epoch.as_str(), u64::MAX) {
            Some(epoch) => epoch,
            None => {
                return Err("invalid session uid token epoch".to_string());
            },
        };
        if epoch != session.snapshot_epoch {
            return Err("stale uid token".to_string());
        }
        let binding = match session.uid_bindings.get(token) {
            Some(binding) => binding,
            None => {
                return Err("unknown uid token".to_string());
            },
        };
        if binding.page_id != page_id {
            return Err("uid token belongs to another page".to_string());
        }
        if binding.snapshot_epoch != session.snapshot_epoch {
            return Err("stale uid token".to_string());
        }
        Ok(binding.raw_uid.clone())
    }
}

/// The page of a session.
pub fn session_page(sessions: &SessionRegistry, session_id: &str) -> (r: Option<u64>)
    requires
        sessions.wf(),
    ensures
        r == page_in(sessions@, session_id@),
{
    sessions.page_id(session_id)
}

/// Whether the daemon opened the page of a session.
pub open spec fn by_daemon_in(m: Map<Seq<char>, SessionView>, id: Seq<char>) -> bool {
    m.contains_key(id) && m[id].by_daemon
}

/// The address of a session's page.
pub open spec fn url_in(m: Map<Seq<char>, SessionView>, id: Seq<char>) -> Option<Seq<char>> {
    if m.contains_key(id) {
        m[id].url
    } else {
        None
    }
}

/// The target of a session's page.
pub open spec fn target_in(m: Map<Seq<char>, SessionView>, id: Seq<char>) -> Option<Seq<char>> {
    if m.contains_key(id) {
        m[id].target
    } else {
        None
    }
}

/// Whether the daemon opened the page of a session.
pub fn session_page_created_by_daemon(sessions: &SessionRegistry, session_id: &str) -> (r: bool)
    requires
        sessions.wf(),
    ensures
        r == by_daemon_in(sessions@, session_id@),
{
    match sessions.get(session_id) {
        Some(session) => session.page_created_by_daemon,
        None => false,
    }
}

/// The address of a session's page.
pub fn session_page_url(sessions: &SessionRegistry, session_id: &str) -> (r: Option<String>)
    requires
        sessions.wf(),
    ensures
        text::opt_text(r) == url_in(sessions@, session_id@),
{
    match sessions.get(session_id) {
        Some(session) => session.page_url.clone(),
        None => None,
    }
}

/// The target of a session's page.
pub fn session_target_id(sessions: &SessionRegistry, session_id: &str) -> (r: Option<String>)
    requires
        sessions.wf(),
    ensures
        text::opt_text(r) == target_in(sessions@, session_id@),
{
    match sessions.get(session_id) {
        Some(session) => session.target_id.clone(),
        None => None,
    }
}

/// Notes the target of a session's page.
pub fn set_session_target_id(
    sessions: &mut SessionRegistry,
    session_id: &str,
    target_id: Option<String>,
)
    requires
        old(sessions).wf(),
    ensures
        final(sessions).wf(),
        final(sessions).made() == old(sessions).made(),
        final(sessions)@ == adjusted(
            old(sessions)@,
            session_id@,
            |s: SessionView| targeted(s, text::opt_text(target_id)),
        ),
{
    sessions.set_target_id(session_id, target_id)
}

/// Gives a session a page.
pub fn record_session_page(
    sessions: &mut SessionRegistry,
    session_id: &str,
    page_id: u64,
    created_by_daemon: bool,
    url: Option<String>,
    now: i128,
) -> (r: Result<(), String>)
    requires
        old(sessions).wf(),
    ensures
        final(sessions).wf(),
        final(sessions).made() == old(sessions).made(),
        final(sessions)@ == adjusted(
            old(sessions)@,
            session_id@,
            |s: SessionView|
                paged(s, page_id, created_by_daemon, text::opt_text(url), now as int),
        ),
        match r {
            Ok(()) => old(sessions)@.contains_key(session_id@),
            Err(message) => !old(sessions)@.contains_key(session_id@) && message@
                == unknown_session(session_id@),
        },
{
    sessions.set_page(session_id, page_id, created_by_daemon, url, now)
}

/// Binds a session that is not bound yet.
pub fn bind_session_in_registry(sessions: &mut SessionRegistry, id: &str, now: i128) -> (r: Result<
    (),
    String,
>)
    requires
        old(sessions).wf(),
    ensures
        final(sessions).wf(),
        final(sessions).made() == old(sessions).made(),
        match r {
            Ok(()) => binding(old(sessions)@, id@, now as int) == Ok::<_, Seq<char>>(
                final(sessions)@,
            ),
            Err(message) => final(sessions)@ == old(sessions)@ && binding(
                old(sessions)@,
                id@,
                now as int,
            ) == Err::<Map<Seq<char>, SessionView>, _>(message@),
        },
{
    sessions.bind(id, now)
}

/// Ends every session.
pub fn clear_sessions(sessions: &mut SessionRegistry)
    ensures
        final(sessions).wf(),
        final(sessions).made() == old(sessions).made(),
        final(sessions)@ == Map::<Seq<char>, SessionView>::empty(),
{
    sessions.clear_sessions()
}

/// The pages that the daemon opened for its sessions, those of the oldest session first.
pub fn daemon_page_cleanups(sessions: &SessionRegistry) -> (r: Vec<PageCleanup>)
    requires
        sessions.wf(),
    ensures
        cleanups_by_age(sessions@, r@),
{
    let list = sessions.list();
    let ghost all = sessions@;
    let ghost mut order: Seq<Seq<char>> = Seq::empty();
    let mut cleanups: Vec<PageCleanup> = Vec::new();
    let mut i: usize = 0;
    while i < list.len()
        invariant
            i <= list.len(),
            listing(all, list@),
            order.no_duplicates(),
            forall|id: Seq<char>|
                order.contains(id) <==> all.contains_key(id) && cleanup(all[id]) is Some && (
                exists|j: int| 0 <= j < i && (#[trigger] list[j]).id@ == id),
            oldest_first(all, order),
            forall|k: int, j: int|
                0 <= k < order.len() && i <= j < list.len() ==> all[
                #[trigger] order[k]].created_at <= (#[trigger] list[j]).created_at,
            cleanups.len() == order.len(),
            forall|k: int|
                0 <= k < order.len() ==> Some((#[trigger] cleanups[k])@) == cleanup(all[order[k]]),
        decreases list.len() - i,
    {
        let ghost id = list[i as int].id@;
        let ghost old_order = order;
        proof {
            lemma_by_id(list@, i as int);
            assert(!order.contains(id)) by {
                if order.contains(id) {
                    let j = choose|j: int| 0 <= j < i && (#[trigger] list[j]).id@ == id;
                    assert(list[j].id@ == list[i as int].id@);
                }
            }
        }
        match page_cleanup_for_session(&list[i]) {
            Some(page) => {
                cleanups.push(page);
                proof {
                    order = order.push(id);
                    assert forall|x: Seq<char>| order.contains(x) <==> old_order.contains(x) || x
                        == id by {
                        if old_order.contains(x) {
                            let w = choose|w: int| 0 <= w < old_order.len() && old_order[w] == x;
                            assert(order[w] == x);
                        }
                        if x == id {
                            assert(order[old_order.len() as int] == x);
                        }
                    }
                    assert(order.no_duplicates()) by {
                        assert forall|a: int, b: int|
                            0 <= a < order.len() && 0 <= b < order.len() && a != b implies order[a]
                            != order[b] by {
                            if a < old_order.len() && b < old_order.len() {
                                assert(old_order[a] != old_order[b]);
                            }
                            if a == old_order.len() {
                                assert(old_order.contains(old_order[b]));
                            }
                            if b == old_order.len() {
                                assert(old_order.contains(old_order[a]));
                            }
                        }
                    }
                }
            },
            None => {},
        }
        proof {
            assert forall|x: Seq<char>|
                order.contains(x) <==> all.contains_key(x) && cleanup(all[x]) is Some && (exists|
                    j: int,
                |
                    0 <= j < i + 1 && (#[trigger] list[j]).id@ == x) by {
                if x == id {
                    assert(list[i as int].id@ == x);
                }
                if exists|j: int| 0 <= j < i + 1 && (#[trigger] list[j]).id@ == x {
                    let j = choose|j: int| 0 <= j < i + 1 && (#[trigger] list[j]).id@ == x;
                    if j < i {
                        assert(list[j].id@ == x);
                    }
                }
            }
        }
        i = i + 1;
    }
    proof {
        assert forall|x: Seq<char>|
            order.contains(x) <==> all.contains_key(x) && cleanup(all[x]) is Some by {
            if all.contains_key(x) {
                assert(listed(list@, x));
                let j = place(list@, x);
                assert(list[j].id@ == x);
            }
        }
        assert(is_order(all, Set::full(), order));
    }
    cleanups
}

/// `true` or `false`.
pub open spec fn flag(b: bool) -> Seq<char> {
    if b {
        "true"@
    } else {
        "false"@
    }
}

/// A page number, or nothing.
pub open spec fn page_text(page: Option<u64>) -> Seq<char> {
    match page {
        Some(p) => text::decimal(p as nat),
        None => ""@,
    }
}

/// A text, or nothing.
pub open spec fn or_empty(s: Option<Seq<char>>) -> Seq<char> {
    match s {
        Some(text) => text,
        None => ""@,
    }
}

/// The line that describes a session.
pub open spec fn session_line(s: SessionView) -> Seq<char> {
    "session="@ + s.id + " created="@ + text::decimal(seconds(s.created_at) as nat)
        + " last_used="@ + text::decimal(seconds(s.last_used_at) as nat) + " owned="@ + flag(
        s.owned,
    ) + " page="@ + page_text(s.page) + " page_created_by_daemon="@ + flag(s.by_daemon)
        + " page_url="@ + or_empty(s.url) + " target_id="@ + or_empty(s.target)
        + " snapshot_epoch="@ + text::decimal(s.epoch as nat)
}

/// `true` or `false`.
pub fn flag_text(b: bool) -> (r: &'static str)
    ensures
        r@ == flag(b),
{
    if b {
        "true"
    } else {
        "false"
    }
}

/// A page number, or nothing.
pub fn page_id_text(page: Option<u64>) -> (r: String)
    ensures
        r@ == page_text(page),
{
    match page {
        Some(p) => number_text(p as u128),
        None => "".to_string(),
    }
}

/// The line that describes a session.
pub fn format_session_line(state: &SessionState) -> (r: String)
    ensures
        r@ == session_line(state@),
{
    let mut out = joined("session=", state.id.as_str());
    out.append(" created=");
    out.append(number_text(unix_secs(state.created_at) as u128).as_str());
    out.append(" last_used=");
    out.append(number_text(unix_secs(state.last_used_at) as u128).as_str());
    out.append(" owned=");
    out.append(flag_text(state.owned));
    out.append(" page=");
    out.append(page_id_text(state.page_id).as_str());
    out.append(" page_created_by_daemon=");
    out.append(flag_text(state.page_created_by_daemon));
    out.append(" page_url=");
    match &state.page_url {
        Some(url) => out.append(url.as_str()),
        None => out.append(""),
    }
    out.append(" target_id=");
    match &state.target_id {
        Some(target) => out.append(target.as_str()),
        None => out.append(""),
    }
    out.append(" snapshot_epoch=");
    out.append(number_text(state.snapshot_epoch as u128).as_str());
    out
}

/// The line of the log that tells that a session is gone, and why.
pub open spec fn removal_line(reason: Seq<char>, s: SessionView) -> Seq<char> {
    "session_removed reason="@ + reason + " session="@ + s.id + " owned="@ + flag(s.owned)
        + " page="@ + page_text(s.page) + " page_created_by_daemon="@ + flag(s.by_daemon)
        + " last_used="@ + text::decimal(seconds(s.last_used_at) as nat)
}

/// The line of the log that tells that a session is gone, and why.
pub fn log_session_removed(reason: &str, session: &SessionState) -> (r: String)
    ensures
        r@ == removal_line(reason@, session@),
{
    let mut out = joined("session_removed reason=", reason);
    out.append(" session=");
    out.append(session.id.as_str());
    out.append(" owned=");
    out.append(flag_text(session.owned));
    out.append(" page=");
    out.append(page_id_text(session.page_id).as_str());
    out.append(" page_created_by_daemon=");
    out.append(flag_text(session.page_created_by_daemon));
    out.append(" last_used=");
    out.append(number_text(unix_secs(session.last_used_at) as u128).as_str());
    out
}

/// The lines of the log for those sessions of a list that a registry no longer has.
pub open spec fn removal_lines(
    reason: Seq<char>,
    before: Seq<SessionState>,
    m: Map<Seq<char>, SessionView>,
) -> Seq<Seq<char>>
    decreases before.len(),
{
    if before.len() == 0 {
        Seq::empty()
    } else {
        let lines = removal_lines(reason, before.drop_last(), m);
        if m.contains_key(before.last().id@) {
            lines
        } else {
            lines.push(removal_line(reason, before.last()@))
        }
    }
}

/// The lines of the log for those sessions of a list that a registry no longer has.
pub fn log_removed_sessions(
    reason: &str,
    before: &Vec<SessionState>,
    sessions: &SessionRegistry,
) -> (r: Vec<String>)
    requires
        sessions.wf(),
    ensures
        text::texts(r@) == removal_lines(reason@, before@, sessions@),
{
    let mut lines: Vec<String> = Vec::new();
    let mut i: usize = 0;
    assert(text::texts(lines@) =~= Seq::empty());
    while i < before.len()
        invariant
            sessions.wf(),
            i <= before.len(),
            text::texts(lines@) == removal_lines(
                reason@,
                before@.take(i as int),
                sessions@,
            ),
        decreases before.len() - i,
    {
        assert(before@.take(i + 1).drop_last() =~= before@.take(i as int));
        match sessions.get(before[i].id.as_str()) {
            Some(_) => {},
            None => {
                let line = log_session_removed(reason, &before[i]);
                proof {
                    text::lemma_texts_push(lines@, line);
                }
                lines.push(line);
            },
        }
        i = i + 1;
    }
    assert(before@.take(i as int) =~= before@);
    lines
}

} // verus!
