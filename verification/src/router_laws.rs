//! What holds of routing across calls.
use crate::json::JsonView;
use crate::pages::EntryView;
use crate::queue::{Stage, TurnActionView, TurnEventView};
use crate::router::{RoutePlanView, RouteView, SweepView};
use crate::session::{CleanupView, SessionView};
use crate::{json, mcp, native, pages, queue, router, rpc, session, session_laws, text, uids};
use vstd::prelude::*;

verus! {

/// Whether a sweep has kept count, and a page.
spec fn balanced(s: SweepView, total: int) -> bool {
    &&& s.open + s.closed.len() == total
    &&& total > 0 ==> s.open >= 1
}

proof fn lemma_pages_balanced(
    s: SweepView,
    entries: Seq<EntryView>,
    cleanups: Seq<CleanupView>,
    total: int,
)
    requires
        balanced(s, total),
    ensures
        balanced(router::swept_pages(s, entries, cleanups), total),
    decreases cleanups.len(),
{
    if cleanups.len() > 0 {
        lemma_pages_balanced(s, entries, cleanups.drop_last(), total);
    }
}

proof fn lemma_entries_balanced(
    s: SweepView,
    done: Seq<u64>,
    entries: Seq<EntryView>,
    total: int,
)
    requires
        balanced(s, total),
    ensures
        balanced(router::swept_entries(s, done, entries), total),
    decreases entries.len(),
{
    if entries.len() > 0 {
        lemma_entries_balanced(s, done, entries.drop_last(), total);
    }
}

/// However many pages the sessions had, the cleanup after a restart leaves a tab open.
pub proof fn the_last_tab_is_kept(cleanups: Seq<CleanupView>, entries: Seq<EntryView>)
    ensures
        entries.len() > 0 ==> router::sweep(cleanups, entries).len() < entries.len(),
        entries.len() == 0 ==> router::sweep(cleanups, entries).len() == 0,
{
    let start = SweepView {
        open: entries.len() as int,
        closed: Seq::empty(),
        left: router::counted(cleanups),
    };
    let total = entries.len() as int;
    lemma_pages_balanced(start, entries, cleanups, total);
    let first = router::swept_pages(start, entries, cleanups);
    lemma_entries_balanced(first, first.closed, entries, total);
    if entries.len() == 0 {
        assert(entries =~= Seq::empty());
        lemma_empty_sweep(start, cleanups);
    }
}

proof fn lemma_empty_sweep(s: SweepView, cleanups: Seq<CleanupView>)
    requires
        s.open <= 1,
    ensures
        router::swept_pages(s, Seq::empty(), cleanups) == s,
    decreases cleanups.len(),
{
    if cleanups.len() > 0 {
        lemma_empty_sweep(s, cleanups.drop_last());
    }
}

/// Whether closing a page is called for: it is the page of an ended session, or it is where
/// one was and shows something.
pub open spec fn called_for(
    cleanups: Seq<CleanupView>,
    entries: Seq<EntryView>,
    id: u64,
) -> bool {
    exists|e: int, c: int|
        #![trigger entries[e], cleanups[c]]
        0 <= e < entries.len() && 0 <= c < cleanups.len() && entries[e].id == id && (
        entries[e].id == cleanups[c].page && (cleanups[c].url matches Some(url) ==> entries[e].url
            == url) || (cleanups[c].url == Some(entries[e].url) && entries[e].url
            != "about:blank"@))
}

spec fn all_called_for(s: SweepView, cleanups: Seq<CleanupView>, entries: Seq<EntryView>) -> bool {
    &&& forall|k: int|
        0 <= k < s.closed.len() ==> called_for(cleanups, entries, #[trigger] s.closed[k])
    &&& forall|u: Seq<char>| #[trigger]
        s.left.contains_key(u) ==> exists|c: int|
            0 <= c < cleanups.len() && (#[trigger] cleanups[c]).url == Some(u)
}

proof fn lemma_counted_urls(cleanups: Seq<CleanupView>)
    ensures
        forall|u: Seq<char>| #[trigger]
            router::counted(cleanups).contains_key(u) ==> exists|c: int|
                0 <= c < cleanups.len() && (#[trigger] cleanups[c]).url == Some(u),
    decreases cleanups.len(),
{
    if cleanups.len() > 0 {
        let front = cleanups.drop_last();
        lemma_counted_urls(front);
        assert forall|u: Seq<char>| #[trigger]
            router::counted(cleanups).contains_key(u) implies exists|c: int|
            0 <= c < cleanups.len() && (#[trigger] cleanups[c]).url == Some(u) by {
            if router::counted(front).contains_key(u) {
                let c = choose|c: int| 0 <= c < front.len() && (#[trigger] front[c]).url == Some(u);
                assert(cleanups[c].url == Some(u));
            } else {
                assert(cleanups[cleanups.len() - 1].url == Some(u));
            }
        }
    }
}

proof fn lemma_that_page(entries: Seq<EntryView>, page: CleanupView) -> (e: int)
    requires
        router::that_page(entries, page) is Some,
    ensures
        0 <= e < entries.len(),
        entries[e] == router::that_page(entries, page)->0,
        router::is_that_page(entries[e], page),
    decreases entries.len(),
{
    if router::is_that_page(entries[0], page) {
        0
    } else {
        let e = lemma_that_page(entries.skip(1), page);
        assert(entries.skip(1)[e] == entries[e + 1]);
        e + 1
    }
}

proof fn lemma_pages_called_for(
    s: SweepView,
    entries: Seq<EntryView>,
    cleanups: Seq<CleanupView>,
    n: int,
)
    requires
        all_called_for(s, cleanups, entries),
        0 <= n <= cleanups.len(),
    ensures
        all_called_for(
            router::swept_pages(s, entries, cleanups.take(n)),
            cleanups,
            entries,
        ),
    decreases n,
{
    if n > 0 {
        let list = cleanups.take(n);
        assert(list.drop_last() =~= cleanups.take(n - 1));
        lemma_pages_called_for(s, entries, cleanups, n - 1);
        let before = router::swept_pages(s, entries, cleanups.take(n - 1));
        let page = cleanups[n - 1];
        assert(list.last() == page);
        let after = router::swept_page(before, entries, page);
        if before.open > 1 && router::that_page(entries, page) is Some {
            let e = lemma_that_page(entries, page);
            assert(called_for(cleanups, entries, entries[e].id)) by {
                assert(router::is_that_page(entries[e], cleanups[n - 1]));
            }
            assert forall|k: int| 0 <= k < after.closed.len() implies called_for(
                cleanups,
                entries,
                #[trigger] after.closed[k],
            ) by {
                if k < before.closed.len() {
                    assert(after.closed[k] == before.closed[k]);
                }
            }
            assert forall|u: Seq<char>| #[trigger] after.left.contains_key(u) implies exists|
                c: int,
            |
                0 <= c < cleanups.len() && (#[trigger] cleanups[c]).url == Some(u) by {
                assert(before.left.contains_key(u));
            }
        }
    } else {
        assert(cleanups.take(0).len() == 0);
    }
}

proof fn lemma_entries_called_for(
    s: SweepView,
    done: Seq<u64>,
    entries: Seq<EntryView>,
    cleanups: Seq<CleanupView>,
    n: int,
)
    requires
        all_called_for(s, cleanups, entries),
        0 <= n <= entries.len(),
    ensures
        all_called_for(router::swept_entries(s, done, entries.take(n)), cleanups, entries),
    decreases n,
{
    if n > 0 {
        let list = entries.take(n);
        assert(list.drop_last() =~= entries.take(n - 1));
        lemma_entries_called_for(s, done, entries, cleanups, n - 1);
        let before = router::swept_entries(s, done, entries.take(n - 1));
        let entry = entries[n - 1];
        assert(list.last() == entry);
        let after = router::swept_entry(before, done, entry);
        if after != before {
            assert(before.left.contains_key(entry.url));
            let c = choose|c: int|
                0 <= c < cleanups.len() && (#[trigger] cleanups[c]).url == Some(entry.url);
            assert(called_for(cleanups, entries, entry.id)) by {
                assert(cleanups[c].url == Some(entries[n - 1].url));
            }
            assert forall|k: int| 0 <= k < after.closed.len() implies called_for(
                cleanups,
                entries,
                #[trigger] after.closed[k],
            ) by {
                if k < before.closed.len() {
                    assert(after.closed[k] == before.closed[k]);
                }
            }
            assert forall|u: Seq<char>| #[trigger] after.left.contains_key(u) implies exists|
                c: int,
            |
                0 <= c < cleanups.len() && (#[trigger] cleanups[c]).url == Some(u) by {
                assert(before.left.contains_key(u));
            }
        }
    } else {
        assert(entries.take(0).len() == 0);
    }
}

/// The cleanup after a restart closes open pages only, and only such as are the page of an
/// ended session or at the address of one. An empty page is closed as the page of a session
/// only.
pub proof fn only_session_pages_are_closed(
    cleanups: Seq<CleanupView>,
    entries: Seq<EntryView>,
    k: int,
)
    requires
        0 <= k < router::sweep(cleanups, entries).len(),
    ensures
        called_for(cleanups, entries, router::sweep(cleanups, entries)[k]),
{
    let start = SweepView {
        open: entries.len() as int,
        closed: Seq::empty(),
        left: router::counted(cleanups),
    };
    lemma_counted_urls(cleanups);
    assert(all_called_for(start, cleanups, entries));
    assert(cleanups.take(cleanups.len() as int) =~= cleanups);
    assert(entries.take(entries.len() as int) =~= entries);
    lemma_pages_called_for(start, entries, cleanups, cleanups.len() as int);
    let first = router::swept_pages(start, entries, cleanups);
    lemma_entries_called_for(first, first.closed, entries, cleanups, entries.len() as int);
}

/// Whether no two ended sessions had one page that is still open.
pub open spec fn apart(cleanups: Seq<CleanupView>, entries: Seq<EntryView>) -> bool {
    forall|i: int, j: int|
        #![trigger cleanups[i], cleanups[j]]
        0 <= i < j < cleanups.len() && cleanups[i].page == cleanups[j].page ==> router::that_page(
            entries,
            cleanups[i],
        ) is None || router::that_page(entries, cleanups[j]) is None
}

/// Whether every open page has a number of its own.
pub open spec fn distinct_entries(entries: Seq<EntryView>) -> bool {
    forall|i: int, j: int|
        0 <= i < j < entries.len() ==> (#[trigger] entries[i]).id != (#[trigger] entries[j]).id
}

/// Whether what was swept are pages of the first `n` sessions.
spec fn swept_from(s: SweepView, cleanups: Seq<CleanupView>, entries: Seq<EntryView>, n: int) -> bool {
    forall|k: int|
        0 <= k < s.closed.len() ==> exists|c: int|
            0 <= c < n && (#[trigger] cleanups[c]).page == #[trigger] s.closed[k]
                && router::that_page(entries, cleanups[c]) is Some
}

proof fn lemma_pages_swept_once(
    s: SweepView,
    entries: Seq<EntryView>,
    cleanups: Seq<CleanupView>,
    n: int,
)
    requires
        apart(cleanups, entries),
        s.closed.len() == 0,
        0 <= n <= cleanups.len(),
    ensures
        router::swept_pages(s, entries, cleanups.take(n)).closed.no_duplicates(),
        swept_from(router::swept_pages(s, entries, cleanups.take(n)), cleanups, entries, n),
    decreases n,
{
    if n > 0 {
        let list = cleanups.take(n);
        assert(list.drop_last() =~= cleanups.take(n - 1));
        lemma_pages_swept_once(s, entries, cleanups, n - 1);
        let before = router::swept_pages(s, entries, cleanups.take(n - 1));
        let page = cleanups[n - 1];
        assert(list.last() == page);
        let after = router::swept_page(before, entries, page);
        assert(after == router::swept_pages(s, entries, list));
        if before.open > 1 && router::that_page(entries, page) is Some {
            let e = lemma_that_page(entries, page);
            assert forall|k: int| 0 <= k < before.closed.len() implies before.closed[k]
                != page.page by {
                let c = choose|c: int|
                    0 <= c < n - 1 && (#[trigger] cleanups[c]).page == before.closed[k]
                        && router::that_page(entries, cleanups[c]) is Some;
                assert(cleanups[c].page == cleanups[n - 1].page ==> false);
            }
        }
        assert forall|k: int| 0 <= k < after.closed.len() implies exists|c: int|
            0 <= c < n && (#[trigger] cleanups[c]).page == #[trigger] after.closed[k]
                && router::that_page(entries, cleanups[c]) is Some by {
            if k < before.closed.len() {
                let c = choose|c: int|
                    0 <= c < n - 1 && (#[trigger] cleanups[c]).page == before.closed[k]
                        && router::that_page(entries, cleanups[c]) is Some;
                assert(cleanups[c].page == after.closed[k]);
            } else {
                assert(cleanups[n - 1].page == after.closed[k]);
            }
        }
    } else {
        assert(cleanups.take(0).len() == 0);
    }
}

/// Whether a sweep goes on from `done` with pages of the first `n` that are open.
spec fn swept_beyond(s: SweepView, done: Seq<u64>, entries: Seq<EntryView>, n: int) -> bool {
    &&& done.len() <= s.closed.len()
    &&& forall|k: int| 0 <= k < done.len() ==> s.closed[k] == #[trigger] done[k]
    &&& forall|k: int|
        done.len() <= k < s.closed.len() ==> !done.contains(#[trigger] s.closed[k]) && exists|
            e: int,
        |
            0 <= e < n && (#[trigger] entries[e]).id == s.closed[k]
}

proof fn lemma_entries_swept_once(s: SweepView, entries: Seq<EntryView>, n: int)
    requires
        s.closed.no_duplicates(),
        distinct_entries(entries),
        0 <= n <= entries.len(),
    ensures
        router::swept_entries(s, s.closed, entries.take(n)).closed.no_duplicates(),
        swept_beyond(
            router::swept_entries(s, s.closed, entries.take(n)),
            s.closed,
            entries,
            n,
        ),
    decreases n,
{
    let done = s.closed;
    if n > 0 {
        let list = entries.take(n);
        assert(list.drop_last() =~= entries.take(n - 1));
        lemma_entries_swept_once(s, entries, n - 1);
        let before = router::swept_entries(s, done, entries.take(n - 1));
        let entry = entries[n - 1];
        assert(list.last() == entry);
        let after = router::swept_entry(before, done, entry);
        assert(after == router::swept_entries(s, done, list));
        assert forall|k: int| done.len() <= k < before.closed.len() implies !done.contains(
            #[trigger] before.closed[k],
        ) && before.closed[k] != entry.id by {
            let e = choose|e: int|
                0 <= e < n - 1 && (#[trigger] entries[e]).id == before.closed[k];
            assert(entries[e].id != entries[n - 1].id);
        }
        if after != before {
            assert forall|k: int| 0 <= k < before.closed.len() implies before.closed[k]
                != entry.id by {
                if k < done.len() {
                    assert(done.contains(done[k]));
                }
            }
        }
        assert forall|k: int| done.len() <= k < after.closed.len() implies !done.contains(
            #[trigger] after.closed[k],
        ) && exists|e: int| 0 <= e < n && (#[trigger] entries[e]).id == after.closed[k] by {
            if k < before.closed.len() {
                assert(after.closed[k] == before.closed[k]);
                let e = choose|e: int|
                    0 <= e < n - 1 && (#[trigger] entries[e]).id == before.closed[k];
                assert(entries[e].id == after.closed[k]);
            } else {
                assert(entries[n - 1].id == after.closed[k]);
            }
        }
    } else {
        assert(entries.take(0).len() == 0);
    }
}

/// The cleanup after a restart closes no page twice, where every open page has a number of
/// its own and no two ended sessions shared one.
pub proof fn no_page_is_closed_twice(cleanups: Seq<CleanupView>, entries: Seq<EntryView>)
    requires
        apart(cleanups, entries),
        distinct_entries(entries),
    ensures
        router::sweep(cleanups, entries).no_duplicates(),
{
    let start = SweepView {
        open: entries.len() as int,
        closed: Seq::empty(),
        left: router::counted(cleanups),
    };
    assert(cleanups.take(cleanups.len() as int) =~= cleanups);
    assert(entries.take(entries.len() as int) =~= entries);
    lemma_pages_swept_once(start, entries, cleanups, cleanups.len() as int);
    let first = router::swept_pages(start, entries, cleanups);
    lemma_entries_swept_once(first, entries, entries.len() as int);
}

/// Pages of an ended session are closed one by one, and never the last one.
pub proof fn closing_leaves_a_page(current: Seq<u64>, page: u64)
    requires
        router::closable(current, page),
    ensures
        current.remove_value(page).len() >= 1,
        current.contains(page),
{
    current.index_of_first_ensures(page);
}

proof fn lemma_keys_differ()
    ensures
        "pageId"@ != "uid"@,
        "pageId"@ != "from_uid"@,
        "pageId"@ != "to_uid"@,
        "pageId"@ != "elements"@,
        "pageId"@ != "args"@,
{
    reveal_strlit("pageId");
    reveal_strlit("uid");
    reveal_strlit("from_uid");
    reveal_strlit("to_uid");
    reveal_strlit("elements");
    reveal_strlit("args");
    assert("pageId"@.len() == 6 && "pageId"@[0] == 'p');
    assert("to_uid"@[0] == 't');
}

/// Whether a request has an object as its parameters and, if it has arguments, an object as
/// those.
pub open spec fn proper_call(request: JsonView) -> bool {
    &&& request is Object
    &&& rpc::params_of(request) matches Some(params) && params is Object
    &&& rpc::arguments_of(request) matches Some(arguments) ==> arguments is Object
}

/// A request that is forwarded for a session names the session's page.
pub proof fn forwarded_calls_name_the_sessions_page(
    m: Map<Seq<char>, SessionView>,
    id: Seq<char>,
    page: u64,
    request: JsonView,
)
    requires
        proper_call(request),
    ensures
        router::on_session_page(m, id, page, request) matches Ok(forwarded)
            ==> router::requested_page(forwarded) == Some(page),
{
    lemma_keys_differ();
    reveal_strlit("params");
    reveal_strlit("arguments");
    let paged = pages::on_page(request, page);
    let arguments = rpc::arguments_of(paged)->0;
    assert(json::field(arguments, "pageId"@) == Some(json::num(page)));
    let v1 = uids::key_translated(m, id, page, arguments, "uid"@);
    if v1 is Ok {
        let v2 = uids::key_translated(m, id, page, v1->Ok_0, "from_uid"@);
        if v2 is Ok {
            let v3 = uids::key_translated(m, id, page, v2->Ok_0, "to_uid"@);
            if v3 is Ok {
                let v4 = uids::elements_field_translated(m, id, page, v3->Ok_0);
                if v4 is Ok {
                    let v5 = uids::args_field_translated(m, id, page, v4->Ok_0);
                    if v5 is Ok {
                        assert(json::field(v5->Ok_0, "pageId"@) == Some(json::num(page)));
                    }
                }
            }
        }
    }
}

/// Whether a request calls a tool that works on a page.
pub open spec fn page_call(request: JsonView) -> bool {
    rpc::tool_of(request) matches Some(name) && pages::page_scoped(name)
}

/// Whether a text stands in one of the places where the arguments of a tool have tokens.
pub open spec fn names_token(arguments: JsonView, tok: Seq<char>) -> bool {
    ||| json::text_field(arguments, "uid"@) == Some(tok)
    ||| json::text_field(arguments, "from_uid"@) == Some(tok)
    ||| json::text_field(arguments, "to_uid"@) == Some(tok)
    ||| json::items_field(arguments, "elements"@) matches Some(items) && exists|k: int|
        0 <= k < items.len() && json::text_field(#[trigger] items[k], "uid"@) == Some(tok)
    ||| json::items_field(arguments, "args"@) matches Some(items) && items.contains(
        JsonView::Str(tok),
    )
}

/// Whether a call is answered with the error of a token in it that is refused.
pub open spec fn refused(
    m: Map<Seq<char>, SessionView>,
    id: Seq<char>,
    page: u64,
    request: JsonView,
    bad: Seq<char>,
) -> bool {
    &&& rpc::arguments_of(request) matches Some(arguments) && names_token(arguments, bad)
    &&& session::translated_in(m, id, page, bad) matches Err(message)
        && router::routed_on_page(m, id, page, request) == RouteView::Done(
        rpc::error_lines(request, message),
    )
}

proof fn lemma_places_differ()
    ensures
        "uid"@ != "from_uid"@,
        "uid"@ != "to_uid"@,
        "uid"@ != "elements"@,
        "uid"@ != "args"@,
        "from_uid"@ != "to_uid"@,
        "from_uid"@ != "elements"@,
        "from_uid"@ != "args"@,
        "to_uid"@ != "elements"@,
        "to_uid"@ != "args"@,
        "elements"@ != "args"@,
{
    reveal_strlit("uid");
    reveal_strlit("from_uid");
    reveal_strlit("to_uid");
    reveal_strlit("elements");
    reveal_strlit("args");
    assert("uid"@.len() == 3 && "to_uid"@.len() == 6 && "args"@.len() == 4);
    assert("from_uid"@.len() == 8 && "from_uid"@[0] == 'f');
    assert("elements"@.len() == 8 && "elements"@[0] == 'e');
}

proof fn lemma_elements_refused(
    m: Map<Seq<char>, SessionView>,
    id: Seq<char>,
    page: u64,
    items: Seq<JsonView>,
)
    ensures
        uids::elements_translated(m, id, page, items) matches Err(message) ==> exists|k: int|
            0 <= k < items.len() && (json::text_field(#[trigger] items[k], "uid"@) matches Some(tok)
                && session::translated_in(m, id, page, tok) == Err::<Seq<char>, _>(message)),
        uids::elements_translated(m, id, page, items) is Ok ==> forall|k: int|
            0 <= k < items.len() ==> (json::text_field(#[trigger] items[k], "uid"@) matches Some(tok)
                ==> session::translated_in(m, id, page, tok) is Ok),
    decreases items.len(),
{
    if items.len() > 0 {
        let front = items.drop_last();
        lemma_elements_refused(m, id, page, front);
        assert(items[items.len() - 1] == items.last());
        if let Err(message) = uids::elements_translated(m, id, page, front) {
            let k = choose|k: int|
                0 <= k < front.len() && (json::text_field(#[trigger] front[k], "uid"@) matches Some(
                    tok,
                ) && session::translated_in(m, id, page, tok) == Err::<Seq<char>, _>(message));
            assert(items[k] == front[k]);
        } else {
            assert forall|k: int| 0 <= k < items.len() implies (json::text_field(
                #[trigger] items[k],
                "uid"@,
            ) matches Some(tok) ==> session::translated_in(m, id, page, tok) is Ok || k
                == items.len() - 1) by {
                if k < front.len() {
                    assert(front[k] == items[k]);
                }
            }
        }
    }
}

proof fn lemma_items_refused(
    m: Map<Seq<char>, SessionView>,
    id: Seq<char>,
    page: u64,
    items: Seq<JsonView>,
)
    ensures
        uids::items_translated(m, id, page, items) matches Err(message) ==> exists|k: int|
            0 <= k < items.len() && (#[trigger] items[k] matches JsonView::Str(tok)
                && session::translated_in(m, id, page, tok) == Err::<Seq<char>, _>(message)),
        uids::items_translated(m, id, page, items) is Ok ==> forall|k: int|
            0 <= k < items.len() ==> (#[trigger] items[k] matches JsonView::Str(tok)
                ==> session::translated_in(m, id, page, tok) is Ok),
    decreases items.len(),
{
    if items.len() > 0 {
        let front = items.drop_last();
        lemma_items_refused(m, id, page, front);
        assert(items[items.len() - 1] == items.last());
        if let Err(message) = uids::items_translated(m, id, page, front) {
            let k = choose|k: int|
                0 <= k < front.len() && (#[trigger] front[k] matches JsonView::Str(tok)
                    && session::translated_in(m, id, page, tok) == Err::<Seq<char>, _>(message));
            assert(items[k] == front[k]);
        } else {
            assert forall|k: int| 0 <= k < items.len() implies (
            #[trigger] items[k] matches JsonView::Str(tok) ==> session::translated_in(
                m,
                id,
                page,
                tok,
            ) is Ok || k == items.len() - 1) by {
                if k < front.len() {
                    assert(front[k] == items[k]);
                }
            }
        }
    }
}

/// Whether a token that is refused stands in the arguments, and this is the error.
spec fn has_refusal(
    m: Map<Seq<char>, SessionView>,
    id: Seq<char>,
    page: u64,
    v: JsonView,
    message: Seq<char>,
) -> bool {
    exists|tok: Seq<char>| #[trigger]
        names_token(v, tok) && session::translated_in(m, id, page, tok) == Err::<Seq<char>, _>(
            message,
        )
}

/// The arguments are refused for a token in them, or else every token in them is good.
proof fn lemma_fields_refused(
    m: Map<Seq<char>, SessionView>,
    id: Seq<char>,
    page: u64,
    v: JsonView,
)
    requires
        v is Object,
    ensures
        uids::fields_translated(m, id, page, v) matches Err(message) ==> has_refusal(
            m,
            id,
            page,
            v,
            message,
        ),
        uids::fields_translated(m, id, page, v) is Ok ==> forall|tok: Seq<char>| #[trigger]
            names_token(v, tok) ==> session::translated_in(m, id, page, tok) is Ok,
{
    lemma_places_differ();
    let r1 = uids::key_translated(m, id, page, v, "uid"@);
    if r1 is Err {
        assert(names_token(v, json::text_field(v, "uid"@)->0));
    } else {
        let v1 = r1->Ok_0;
        assert(json::field(v1, "from_uid"@) == json::field(v, "from_uid"@));
        assert(json::field(v1, "to_uid"@) == json::field(v, "to_uid"@));
        assert(json::field(v1, "elements"@) == json::field(v, "elements"@));
        assert(json::field(v1, "args"@) == json::field(v, "args"@));
        let r2 = uids::key_translated(m, id, page, v1, "from_uid"@);
        if r2 is Err {
            assert(names_token(v, json::text_field(v, "from_uid"@)->0));
        } else {
            let v2 = r2->Ok_0;
            assert(json::field(v2, "to_uid"@) == json::field(v, "to_uid"@));
            assert(json::field(v2, "elements"@) == json::field(v, "elements"@));
            assert(json::field(v2, "args"@) == json::field(v, "args"@));
            let r3 = uids::key_translated(m, id, page, v2, "to_uid"@);
            if r3 is Err {
                assert(names_token(v, json::text_field(v, "to_uid"@)->0));
            } else {
                let v3 = r3->Ok_0;
                assert(json::field(v3, "elements"@) == json::field(v, "elements"@));
                assert(json::field(v3, "args"@) == json::field(v, "args"@));
                lemma_lists_refused(m, id, page, v, v3);
            }
        }
    }
}

/// The same of the lists in the arguments, which `w` has as `v` has them.
proof fn lemma_lists_refused(
    m: Map<Seq<char>, SessionView>,
    id: Seq<char>,
    page: u64,
    v: JsonView,
    w: JsonView,
)
    requires
        w is Object,
        json::field(w, "elements"@) == json::field(v, "elements"@),
        json::field(w, "args"@) == json::field(v, "args"@),
    ensures
        match uids::elements_field_translated(m, id, page, w) {
            Err(message) => has_refusal(m, id, page, v, message),
            Ok(done) => match uids::args_field_translated(m, id, page, done) {
                Err(message) => has_refusal(m, id, page, v, message),
                Ok(_) => {
                    &&& json::items_field(v, "elements"@) matches Some(items) ==> forall|k: int|
                        0 <= k < items.len() ==> (json::text_field(
                            #[trigger] items[k],
                            "uid"@,
                        ) matches Some(tok) ==> session::translated_in(m, id, page, tok) is Ok)
                    &&& json::items_field(v, "args"@) matches Some(items) ==> forall|k: int|
                        0 <= k < items.len() ==> (#[trigger] items[k] matches JsonView::Str(tok)
                            ==> session::translated_in(m, id, page, tok) is Ok)
                },
            },
        },
{
    lemma_places_differ();
    if let Some(items) = json::items_field(v, "elements"@) {
        lemma_elements_refused(m, id, page, items);
        if let Err(message) = uids::elements_field_translated(m, id, page, w) {
            let k = choose|k: int|
                0 <= k < items.len() && (json::text_field(#[trigger] items[k], "uid"@) matches Some(
                    tok,
                ) && session::translated_in(m, id, page, tok) == Err::<Seq<char>, _>(message));
            assert(names_token(v, json::text_field(items[k], "uid"@)->0));
        }
    }
    if let Ok(done) = uids::elements_field_translated(m, id, page, w) {
        assert(json::field(done, "args"@) == json::field(v, "args"@));
        if let Some(items) = json::items_field(v, "args"@) {
            lemma_items_refused(m, id, page, items);
            if let Err(message) = uids::args_field_translated(m, id, page, done) {
                let k = choose|k: int|
                    0 <= k < items.len() && (#[trigger] items[k] matches JsonView::Str(tok)
                        && session::translated_in(m, id, page, tok) == Err::<Seq<char>, _>(
                        message,
                    ));
                assert(names_token(v, items[k]->Str_0));
            }
        }
    }
}

/// The tools that work on a page are neither `close_page` nor the daemon's own.
proof fn lemma_page_tools_are_forwarded(name: Seq<char>)
    requires
        pages::page_scoped(name),
    ensures
        name != "close_page"@,
        !native::native(name),
{
    reveal_strlit("click");
    reveal_strlit("drag");
    reveal_strlit("emulate");
    reveal_strlit("evaluate_script");
    reveal_strlit("fill");
    reveal_strlit("fill_form");
    reveal_strlit("get_console_message");
    reveal_strlit("get_network_request");
    reveal_strlit("handle_dialog");
    reveal_strlit("hover");
    reveal_strlit("lighthouse_audit");
    reveal_strlit("list_console_messages");
    reveal_strlit("list_network_requests");
    reveal_strlit("navigate_page");
    reveal_strlit("performance_analyze_insight");
    reveal_strlit("performance_start_trace");
    reveal_strlit("performance_stop_trace");
    reveal_strlit("press_key");
    reveal_strlit("resize_page");
    reveal_strlit("take_heapsnapshot");
    reveal_strlit("take_screenshot");
    reveal_strlit("take_snapshot");
    reveal_strlit("type_text");
    reveal_strlit("upload_file");
    reveal_strlit("wait_for");
    reveal_strlit("goto");
    reveal_strlit("screenshot_quiet");
    reveal_strlit("wait_for_js");
    reveal_strlit("click_at");
    reveal_strlit("click_selector");
    reveal_strlit("dispatch_key");
    reveal_strlit("set_file_input");
    reveal_strlit("type_into");
    reveal_strlit("close_page_quiet");
    reveal_strlit("close_page");
    assert("click"@.len() == 5 && "click"@[0] == 'c');
    assert("drag"@.len() == 4 && "drag"@[0] == 'd');
    assert("emulate"@.len() == 7 && "emulate"@[0] == 'e');
    assert("evaluate_script"@.len() == 15 && "evaluate_script"@[0] == 'e');
    assert("fill"@.len() == 4 && "fill"@[0] == 'f');
    assert("fill_form"@.len() == 9 && "fill_form"@[0] == 'f');
    assert("get_console_message"@.len() == 19 && "get_console_message"@[0] == 'g');
    assert("get_network_request"@.len() == 19 && "get_network_request"@[0] == 'g');
    assert("handle_dialog"@.len() == 13 && "handle_dialog"@[0] == 'h');
    assert("hover"@.len() == 5 && "hover"@[0] == 'h');
    assert("lighthouse_audit"@.len() == 16 && "lighthouse_audit"@[0] == 'l');
    assert("list_console_messages"@.len() == 21 && "list_console_messages"@[0] == 'l');
    assert("list_network_requests"@.len() == 21 && "list_network_requests"@[0] == 'l');
    assert("navigate_page"@.len() == 13 && "navigate_page"@[0] == 'n');
    assert("performance_analyze_insight"@.len() == 27 && "performance_analyze_insight"@[0] == 'p');
    assert("performance_start_trace"@.len() == 23 && "performance_start_trace"@[0] == 'p');
    assert("performance_stop_trace"@.len() == 22 && "performance_stop_trace"@[0] == 'p');
    assert("press_key"@.len() == 9 && "press_key"@[0] == 'p');
    assert("resize_page"@.len() == 11 && "resize_page"@[0] == 'r');
    assert("take_heapsnapshot"@.len() == 17 && "take_heapsnapshot"@[0] == 't');
    assert("take_screenshot"@.len() == 15 && "take_screenshot"@[0] == 't');
    assert("take_snapshot"@.len() == 13 && "take_snapshot"@[0] == 't');
    assert("type_text"@.len() == 9 && "type_text"@[0] == 't');
    assert("upload_file"@.len() == 11 && "upload_file"@[0] == 'u');
    assert("wait_for"@.len() == 8 && "wait_for"@[0] == 'w');
    assert("goto"@.len() == 4 && "goto"@[0] == 'g');
    assert("screenshot_quiet"@.len() == 16 && "screenshot_quiet"@[0] == 's');
    assert("wait_for_js"@.len() == 11 && "wait_for_js"@[0] == 'w');
    assert("click_at"@.len() == 8 && "click_at"@[0] == 'c');
    assert("click_selector"@.len() == 14 && "click_selector"@[0] == 'c');
    assert("dispatch_key"@.len() == 12 && "dispatch_key"@[0] == 'd');
    assert("set_file_input"@.len() == 14 && "set_file_input"@[0] == 's');
    assert("type_into"@.len() == 9 && "type_into"@[0] == 't');
    assert("close_page_quiet"@.len() == 16 && "close_page_quiet"@[0] == 'c');
    assert("close_page"@.len() == 10 && "close_page"@[0] == 'c');
    assert("type_text"@[5] == 't' && "type_into"@[5] == 'i');
}

/// A call with a token that is refused is answered with the error of such a token, wherever
/// in its arguments the token stands, and nothing of it reaches the server.
pub proof fn refused_tokens_never_reach_the_server(
    m: Map<Seq<char>, SessionView>,
    id: Seq<char>,
    page: u64,
    request: JsonView,
    tok: Seq<char>,
)
    requires
        proper_call(request),
        page_call(request),
        rpc::arguments_of(request) matches Some(arguments) && names_token(arguments, tok),
        session::translated_in(m, id, page, tok) is Err,
    ensures
        exists|bad: Seq<char>| refused(m, id, page, request, bad),
{
    lemma_keys_differ();
    lemma_page_tools_are_forwarded(rpc::tool_of(request)->0);
    reveal_strlit("params");
    reveal_strlit("id");
    assert("params"@.len() == 6 && "id"@.len() == 2);
    let given = rpc::arguments_of(request)->0;
    let paged = pages::on_page(request, page);
    let arguments = rpc::arguments_of(paged)->0;
    assert(rpc::id_of(paged) == rpc::id_of(request));
    assert(json::field(arguments, "uid"@) == json::field(given, "uid"@));
    assert(json::field(arguments, "from_uid"@) == json::field(given, "from_uid"@));
    assert(json::field(arguments, "to_uid"@) == json::field(given, "to_uid"@));
    assert(json::field(arguments, "elements"@) == json::field(given, "elements"@));
    assert(json::field(arguments, "args"@) == json::field(given, "args"@));
    assert forall|t: Seq<char>| names_token(arguments, t) == names_token(given, t) by {}
    lemma_fields_refused(m, id, page, arguments);
    assert(names_token(arguments, tok));
    let message = uids::fields_translated(m, id, page, arguments)->Err_0;
    let bad = choose|t: Seq<char>| #[trigger]
        names_token(arguments, t) && session::translated_in(m, id, page, t) == Err::<
            Seq<char>,
            _,
        >(message);
    assert(refused(m, id, page, request, bad));
}

/// Whether every token in a call but this one is good.
pub open spec fn only_bad_token(
    m: Map<Seq<char>, SessionView>,
    id: Seq<char>,
    page: u64,
    request: JsonView,
    tok: Seq<char>,
) -> bool {
    rpc::arguments_of(request) matches Some(arguments) && forall|t: Seq<char>| #[trigger]
        names_token(arguments, t) && t != tok ==> session::translated_in(m, id, page, t) is Ok
}

/// A call with a token of another session, wherever it stands, is answered with an error,
/// and nothing of it reaches the server.
pub proof fn foreign_tokens_never_reach_the_server(
    m: Map<Seq<char>, SessionView>,
    id: Seq<char>,
    other: Seq<char>,
    page: u64,
    epoch: u64,
    raw: Seq<char>,
    request: JsonView,
)
    requires
        proper_call(request),
        page_call(request),
        m.contains_key(id),
        session_laws::colonless(session::short_id(other)),
        session::short_id(other) != session::short_id(id),
        rpc::arguments_of(request) matches Some(arguments) && names_token(
            arguments,
            session::token(other, epoch, raw),
        ),
    ensures
        exists|bad: Seq<char>| refused(m, id, page, request, bad),
        only_bad_token(m, id, page, request, session::token(other, epoch, raw))
            ==> router::routed_on_page(m, id, page, request) == RouteView::Done(
            rpc::error_lines(request, "uid token belongs to another session"@),
        ),
{
    session_laws::foreign_tokens_are_refused(m[id], id, other, page, epoch, raw);
    refused_tokens_never_reach_the_server(
        m,
        id,
        page,
        request,
        session::token(other, epoch, raw),
    );
}

/// A call with a token of an earlier snapshot, wherever it stands, is answered with an
/// error, and nothing of it reaches the server.
pub proof fn stale_tokens_never_reach_the_server(
    m: Map<Seq<char>, SessionView>,
    id: Seq<char>,
    page: u64,
    epoch: u64,
    raw: Seq<char>,
    request: JsonView,
)
    requires
        proper_call(request),
        page_call(request),
        m.contains_key(id),
        session_laws::colonless(session::short_id(id)),
        epoch != m[id].epoch,
        rpc::arguments_of(request) matches Some(arguments) && names_token(
            arguments,
            session::token(id, epoch, raw),
        ),
    ensures
        exists|bad: Seq<char>| refused(m, id, page, request, bad),
        only_bad_token(m, id, page, request, session::token(id, epoch, raw))
            ==> router::routed_on_page(m, id, page, request) == RouteView::Done(
            rpc::error_lines(request, "stale uid token"@),
        ),
{
    session_laws::stale_tokens_are_refused(m[id], id, page, epoch, raw);
    refused_tokens_never_reach_the_server(m, id, page, request, session::token(id, epoch, raw));
}

/// Whether a member, if it is a text, is a token that is sent on as what it stands for; any
/// other is sent on as it is.
pub open spec fn sent_translated(
    m: Map<Seq<char>, SessionView>,
    id: Seq<char>,
    page: u64,
    given: Option<JsonView>,
    sent: Option<JsonView>,
) -> bool {
    match given {
        Some(JsonView::Str(tok)) => session::translated_in(m, id, page, tok) matches Ok(raw)
            && sent == Some(JsonView::Str(raw)),
        _ => sent == given,
    }
}

/// Whether an element is sent on with its token translated and everything else of it kept.
pub open spec fn element_sent(
    m: Map<Seq<char>, SessionView>,
    id: Seq<char>,
    page: u64,
    given: JsonView,
    sent: JsonView,
) -> bool {
    if given is Object {
        &&& sent is Object
        &&& sent_translated(
            m,
            id,
            page,
            json::field(given, "uid"@),
            json::field(sent, "uid"@),
        )
        &&& forall|key: Seq<char>|
            key != "uid"@ ==> #[trigger] json::field(sent, key) == json::field(given, key)
    } else {
        sent == given
    }
}

/// Whether the arguments of a tool have a key under which tokens or the page stand.
pub open spec fn is_translated_key(key: Seq<char>) -> bool {
    seq!["uid"@, "from_uid"@, "to_uid"@, "elements"@, "args"@, "pageId"@].contains(key)
}

/// Whether arguments are sent on with every token in them translated, on a page, and with
/// everything else in them kept.
pub open spec fn arguments_sent(
    m: Map<Seq<char>, SessionView>,
    id: Seq<char>,
    page: u64,
    given: JsonView,
    sent: JsonView,
) -> bool {
    &&& sent is Object
    &&& json::field(sent, "pageId"@) == Some(json::num(page))
    &&& sent_translated(m, id, page, json::field(given, "uid"@), json::field(sent, "uid"@))
    &&& sent_translated(
        m,
        id,
        page,
        json::field(given, "from_uid"@),
        json::field(sent, "from_uid"@),
    )
    &&& sent_translated(
        m,
        id,
        page,
        json::field(given, "to_uid"@),
        json::field(sent, "to_uid"@),
    )
    &&& match json::field(given, "elements"@) {
        Some(JsonView::Array(items)) => {
            &&& json::field(sent, "elements"@) matches Some(JsonView::Array(done))
            &&& done.len() == items.len()
            &&& forall|k: int|
                0 <= k < items.len() ==> element_sent(m, id, page, #[trigger] items[k], done[k])
        },
        other => json::field(sent, "elements"@) == other,
    }
    &&& match json::field(given, "args"@) {
        Some(JsonView::Array(items)) => {
            &&& json::field(sent, "args"@) matches Some(JsonView::Array(done))
            &&& done.len() == items.len()
            &&& forall|k: int|
                0 <= k < items.len() ==> sent_translated(
                    m,
                    id,
                    page,
                    Some(#[trigger] items[k]),
                    Some(done[k]),
                )
        },
        other => json::field(sent, "args"@) == other,
    }
    &&& forall|key: Seq<char>|
        !is_translated_key(key) ==> #[trigger] json::field(sent, key) == json::field(given, key)
}

proof fn lemma_elements_sent(
    m: Map<Seq<char>, SessionView>,
    id: Seq<char>,
    page: u64,
    items: Seq<JsonView>,
)
    ensures
        uids::elements_translated(m, id, page, items) matches Ok(done) ==> done.len()
            == items.len() && forall|k: int|
            0 <= k < items.len() ==> element_sent(m, id, page, #[trigger] items[k], done[k]),
    decreases items.len(),
{
    if items.len() > 0 {
        let front = items.drop_last();
        lemma_elements_sent(m, id, page, front);
        if let Ok(done) = uids::elements_translated(m, id, page, items) {
            let before = uids::elements_translated(m, id, page, front)->Ok_0;
            assert forall|k: int| 0 <= k < items.len() implies element_sent(
                m,
                id,
                page,
                #[trigger] items[k],
                done[k],
            ) by {
                if k < front.len() {
                    assert(front[k] == items[k]);
                    assert(done[k] == before[k]);
                } else {
                    assert(items[k] == items.last());
                }
            }
        }
    }
}

proof fn lemma_items_sent(
    m: Map<Seq<char>, SessionView>,
    id: Seq<char>,
    page: u64,
    items: Seq<JsonView>,
)
    ensures
        uids::items_translated(m, id, page, items) matches Ok(done) ==> done.len() == items.len()
            && forall|k: int|
            0 <= k < items.len() ==> sent_translated(
                m,
                id,
                page,
                Some(#[trigger] items[k]),
                Some(done[k]),
            ),
    decreases items.len(),
{
    if items.len() > 0 {
        let front = items.drop_last();
        lemma_items_sent(m, id, page, front);
        if let Ok(done) = uids::items_translated(m, id, page, items) {
            let before = uids::items_translated(m, id, page, front)->Ok_0;
            assert forall|k: int| 0 <= k < items.len() implies sent_translated(
                m,
                id,
                page,
                Some(#[trigger] items[k]),
                Some(done[k]),
            ) by {
                if k < front.len() {
                    assert(front[k] == items[k]);
                    assert(done[k] == before[k]);
                } else {
                    assert(items[k] == items.last());
                }
            }
        }
    }
}

proof fn lemma_translated_keys()
    ensures
        is_translated_key("uid"@),
        is_translated_key("from_uid"@),
        is_translated_key("to_uid"@),
        is_translated_key("elements"@),
        is_translated_key("args"@),
        is_translated_key("pageId"@),
{
    let s = seq!["uid"@, "from_uid"@, "to_uid"@, "elements"@, "args"@, "pageId"@];
    assert(s[0] == "uid"@ && s[1] == "from_uid"@ && s[2] == "to_uid"@ && s[3] == "elements"@ && s[4]
        == "args"@ && s[5] == "pageId"@);
}

proof fn lemma_fields_sent(
    m: Map<Seq<char>, SessionView>,
    id: Seq<char>,
    page: u64,
    given: JsonView,
)
    requires
        given is Object,
    ensures
        uids::fields_translated(
            m,
            id,
            page,
            json::put(given, "pageId"@, json::num(page)),
        ) matches Ok(sent) ==> arguments_sent(m, id, page, given, sent),
{
    lemma_places_differ();
    lemma_keys_differ();
    lemma_translated_keys();
    let v = json::put(given, "pageId"@, json::num(page));
    if let Ok(sent) = uids::fields_translated(m, id, page, v) {
        let v1 = uids::key_translated(m, id, page, v, "uid"@)->Ok_0;
        let v2 = uids::key_translated(m, id, page, v1, "from_uid"@)->Ok_0;
        let v3 = uids::key_translated(m, id, page, v2, "to_uid"@)->Ok_0;
        let v4 = uids::elements_field_translated(m, id, page, v3)->Ok_0;
        assert(v1 is Object && v2 is Object && v3 is Object && v4 is Object && sent is Object);
        if let Some(JsonView::Array(items)) = json::field(given, "elements"@) {
            assert(json::field(v3, "elements"@) == json::field(given, "elements"@));
            lemma_elements_sent(m, id, page, items);
        }
        if let Some(JsonView::Array(items)) = json::field(given, "args"@) {
            assert(json::field(v4, "args"@) == json::field(given, "args"@));
            lemma_items_sent(m, id, page, items);
        }
        assert forall|key: Seq<char>| !is_translated_key(key) implies #[trigger] json::field(
            sent,
            key,
        ) == json::field(given, key) by {
            assert(json::field(v, key) == json::field(given, key));
            assert(json::field(v1, key) == json::field(v, key));
            assert(json::field(v2, key) == json::field(v1, key));
            assert(json::field(v3, key) == json::field(v2, key));
            assert(json::field(v4, key) == json::field(v3, key));
        }
        assert(json::field(v1, "uid"@) == json::field(sent, "uid"@));
        assert(json::field(v2, "from_uid"@) == json::field(sent, "from_uid"@));
        assert(json::field(v3, "to_uid"@) == json::field(sent, "to_uid"@));
        assert(json::field(v4, "elements"@) == json::field(sent, "elements"@));
        assert(json::field(v4, "pageId"@) == json::field(sent, "pageId"@));
    }
}

/// A call that is forwarded for a session has, at every place of its arguments where a token
/// stands, what the token stands for; it names the session's page, and everything else in it
/// is kept.
pub proof fn forwarded_calls_have_uids_for_tokens(
    m: Map<Seq<char>, SessionView>,
    id: Seq<char>,
    page: u64,
    request: JsonView,
    forwarded: JsonView,
)
    requires
        proper_call(request),
        router::on_session_page(m, id, page, request) == Ok::<_, Seq<char>>(forwarded),
    ensures
        rpc::arguments_of(forwarded) matches Some(sent) && arguments_sent(
            m,
            id,
            page,
            match rpc::arguments_of(request) {
                Some(given) => given,
                None => json::empty_object(),
            },
            sent,
        ),
        forall|key: Seq<char>|
            key != "params"@ ==> #[trigger] json::field(forwarded, key) == json::field(request, key),
        forall|key: Seq<char>|
            key != "arguments"@ ==> #[trigger] json::field(rpc::params_of(forwarded)->0, key)
                == json::field(rpc::params_of(request)->0, key),
{
    let given = match rpc::arguments_of(request) {
        Some(given) => given,
        None => json::empty_object(),
    };
    let paged = pages::on_page(request, page);
    assert(rpc::arguments_of(paged) == Some(json::put(given, "pageId"@, json::num(page))));
    lemma_fields_sent(m, id, page, given);
}

/// A call whose tokens are all good is forwarded.
pub proof fn calls_with_good_tokens_are_forwarded(
    m: Map<Seq<char>, SessionView>,
    id: Seq<char>,
    page: u64,
    request: JsonView,
)
    requires
        proper_call(request),
        rpc::arguments_of(request) matches Some(given) ==> forall|tok: Seq<char>| #[trigger]
            names_token(given, tok) ==> session::translated_in(m, id, page, tok) is Ok,
    ensures
        router::on_session_page(m, id, page, request) is Ok,
{
    lemma_keys_differ();
    let given = match rpc::arguments_of(request) {
        Some(given) => given,
        None => json::empty_object(),
    };
    let arguments = json::put(given, "pageId"@, json::num(page));
    assert(rpc::arguments_of(pages::on_page(request, page)) == Some(arguments));
    assert(json::field(arguments, "uid"@) == json::field(given, "uid"@));
    assert(json::field(arguments, "from_uid"@) == json::field(given, "from_uid"@));
    assert(json::field(arguments, "to_uid"@) == json::field(given, "to_uid"@));
    assert(json::field(arguments, "elements"@) == json::field(given, "elements"@));
    assert(json::field(arguments, "args"@) == json::field(given, "args"@));
    assert forall|t: Seq<char>| names_token(arguments, t) == names_token(given, t) by {}
    lemma_fields_refused(m, id, page, arguments);
    if let Err(message) = uids::fields_translated(m, id, page, arguments) {
        let bad = choose|t: Seq<char>| #[trigger]
            names_token(arguments, t) && session::translated_in(m, id, page, t) == Err::<
                Seq<char>,
                _,
            >(message);
        assert(names_token(given, bad));
    }
}

/// The tokens that a client gets in a response lead back to the uids they stand for when
/// the client sends them in its next request.
pub proof fn tokens_of_a_response_lead_back(
    m: Map<Seq<char>, SessionView>,
    v: JsonView,
    id: Seq<char>,
    page: u64,
    now: int,
    raw: Seq<char>,
)
    requires
        m.contains_key(id),
        session_laws::colonless(session::short_id(id)),
        uids::raw_uids(v).contains(raw),
    ensures
        ({
            let tokens = session::token_map(
                id,
                session::next_epoch(m[id].epoch),
                uids::raw_uids(v),
            );
            let (shown, n) = uids::tokenized(m, v, id, page, now);
            &&& shown == Ok::<Option<JsonView>, Seq<char>>(Some(uids::uids_replaced(v, tokens)))
            &&& tokens.contains_key(raw)
            &&& session::translated_in(n, id, page, tokens[raw]) == Ok::<Seq<char>, Seq<char>>(raw)
        }),
{
    session_laws::tokens_lead_back(m[id], id, page, uids::raw_uids(v), now, raw);
}

/// In a list of pages, the session's page shows as selected and no other.
pub proof fn only_the_sessions_page_shows_as_selected(v: JsonView, number: u64, k: int)
    requires
        pages::pages_in(v) matches Some(items) && 0 <= k < items.len() && items[k] is Object,
    ensures
        pages::pages_in(pages::marked(v, number)) matches Some(items) && json::bool_field(
            items[k],
            "selected"@,
        ) == Some(json::u64_field(pages::pages_in(v)->0[k], "id"@) == Some(number)),
{
}

proof fn lemma_without_text(items: Seq<JsonView>, s: Seq<char>)
    ensures
        !pages::without_text(items, s).contains(JsonView::Str(s)),
    decreases items.len(),
{
    if items.len() > 0 {
        lemma_without_text(items.drop_last(), s);
        let front = pages::without_text(items.drop_last(), s);
        let all = pages::without_text(items, s);
        if all.contains(JsonView::Str(s)) {
            let k = choose|k: int| 0 <= k < all.len() && all[k] == JsonView::Str(s);
            if k < front.len() {
                assert(front[k] == JsonView::Str(s));
            }
        }
    }
}

/// A tool that works on one page asks clients for none: neither is the page among its
/// properties, nor is it required.
pub proof fn clients_are_not_asked_for_a_page(tool: JsonView)
    requires
        tool is Object,
        json::text_field(tool, "name"@) matches Some(name) && pages::page_scoped(name),
    ensures
        json::field(pages::pageless_tool(tool), "inputSchema"@) matches Some(schema) ==> {
            &&& json::field(schema, "properties"@) matches Some(properties) ==> json::field(
                properties,
                "pageId"@,
            ) is None
            &&& json::items_field(schema, "required"@) matches Some(items) ==> !items.contains(
                json::jstr("pageId"@),
            )
        },
{
    reveal_strlit("properties");
    reveal_strlit("required");
    if let Some(schema) = json::field(tool, "inputSchema"@) {
        let first = pages::pageless_properties(schema);
        if let Some(items) = json::items_field(first, "required"@) {
            lemma_without_text(items, "pageId"@);
        }
    }
}

/// The message of a request that the server did not answer in time is recognised as such:
/// the client is told so, and if it is still there the server is tried.
pub proof fn timeouts_are_recognised(line: Seq<char>)
    ensures
        router::timed_out(mcp::timeout_text()),
        queue::turned(
            line,
            Stage::Routing,
            TurnEventView::Routed(Err::<Seq<Seq<char>>, _>(mcp::timeout_text())),
        ) == (
            Stage::Replying { late: true },
            TurnActionView::Reply {
                lines: rpc::line_error_lines(line, router::timeout_notice(mcp::timeout_text())),
            },
        ),
        queue::turned(
            line,
            Stage::Replying { late: true },
            TurnEventView::Replied { delivered: true },
        ) == (Stage::Probing, TurnActionView::Probe),
{
    reveal_strlit("Fatal(");
    reveal_strlit("\"");
    let s = mcp::timeout_text();
    let p = "MCP request timed out"@;
    assert(s.subrange(7int, 7int + p.len()) =~= p);
    assert(text::occurs(s, p, 7));
}

/// A response that goes back to a client in a session leaves every other session as it was.
pub proof fn responses_touch_one_session(
    m: Map<Seq<char>, SessionView>,
    id: Seq<char>,
    plan: RoutePlanView,
    lines: Seq<Seq<char>>,
    attached: bool,
    now: int,
    other: Seq<char>,
)
    requires
        other != id,
    ensures
        ({
            let n = router::finished(m, Some(id), plan, lines, attached, now).1;
            &&& n.contains_key(other) == m.contains_key(other)
            &&& m.contains_key(other) ==> n[other] == m[other]
        }),
{
    match plan {
        RoutePlanView::Scoped { page, navigated, .. } => {
            let shown = router::after_fallback(plan, lines, attached);
            lemma_tokenizing_is_local(
                router::noted_address(m, id, page, navigated, shown, now),
                shown,
                id,
                page,
                now,
                other,
            );
        },
        _ => {},
    }
}

proof fn lemma_tokenizing_is_local(
    m: Map<Seq<char>, SessionView>,
    lines: Seq<Seq<char>>,
    id: Seq<char>,
    page: u64,
    now: int,
    other: Seq<char>,
)
    requires
        other != id,
    ensures
        ({
            let n = uids::lines_tokenized(m, lines, id, page, now).1;
            &&& n.contains_key(other) == m.contains_key(other)
            &&& m.contains_key(other) ==> n[other] == m[other]
        }),
    decreases lines.len(),
{
    if lines.len() > 0 {
        lemma_tokenizing_is_local(m, lines.drop_last(), id, page, now, other);
    }
}

proof fn lemma_page_is_found(entries: Seq<EntryView>, page: CleanupView, e: int)
    requires
        0 <= e < entries.len(),
        entries[e].id == page.page,
        page.url matches Some(url) ==> entries[e].url == url,
    ensures
        router::that_page(entries, page) is Some,
        router::that_page(entries, page)->0.id == page.page,
        page.url matches Some(url) ==> router::that_page(entries, page)->0.url == url,
    decreases entries.len(),
{
    if e > 0 && !router::is_that_page(entries[0], page) {
        assert(entries.skip(1)[e - 1] == entries[e]);
        lemma_page_is_found(entries.skip(1), page, e - 1);
    }
}

proof fn lemma_pages_keep(s: SweepView, entries: Seq<EntryView>, cleanups: Seq<CleanupView>, n: int)
    requires
        0 <= n <= cleanups.len(),
    ensures
        ({
            let early = router::swept_pages(s, entries, cleanups.take(n));
            let late = router::swept_pages(s, entries, cleanups);
            &&& early.closed.is_prefix_of(late.closed)
            &&& late.open <= early.open
            &&& early.open >= s.open - n
        }),
    decreases cleanups.len(),
{
    if n < cleanups.len() {
        let front = cleanups.drop_last();
        lemma_pages_keep(s, entries, front, n);
        assert(front.take(n) =~= cleanups.take(n));
        let before = router::swept_pages(s, entries, front);
        let after = router::swept_pages(s, entries, cleanups);
        assert(before.closed.is_prefix_of(after.closed)) by {
            assert(after.closed.take(before.closed.len() as int) =~= before.closed);
        }
    } else {
        assert(cleanups.take(n) =~= cleanups);
        if n > 0 {
            let front = cleanups.drop_last();
            lemma_pages_keep(s, entries, front, n - 1);
            assert(front.take(n - 1) =~= front);
        }
    }
}

proof fn lemma_entries_keep(s: SweepView, done: Seq<u64>, entries: Seq<EntryView>, n: int)
    requires
        0 <= n <= entries.len(),
    ensures
        ({
            let early = router::swept_entries(s, done, entries.take(n));
            let late = router::swept_entries(s, done, entries);
            &&& s.closed.is_prefix_of(late.closed)
            &&& early.closed.is_prefix_of(late.closed)
            &&& late.open <= early.open <= s.open
        }),
    decreases entries.len(),
{
    if entries.len() > 0 {
        let front = entries.drop_last();
        let before = router::swept_entries(s, done, front);
        let after = router::swept_entries(s, done, entries);
        if n < entries.len() {
            lemma_entries_keep(s, done, front, n);
            assert(front.take(n) =~= entries.take(n));
        } else {
            lemma_entries_keep(s, done, front, n - 1);
            assert(entries.take(n) =~= entries);
        }
        assert(after.closed.take(before.closed.len() as int) =~= before.closed);
    } else {
        assert(entries.take(n) =~= entries);
    }
}

/// The page of every ended session that is still open, under its number and at its address,
/// is closed after a restart, as long as there are more pages than ended sessions.
pub proof fn ended_pages_are_closed(
    cleanups: Seq<CleanupView>,
    entries: Seq<EntryView>,
    c: int,
    e: int,
)
    requires
        0 <= c < cleanups.len(),
        0 <= e < entries.len(),
        entries[e].id == cleanups[c].page,
        cleanups[c].url matches Some(url) ==> entries[e].url == url,
        cleanups.len() < entries.len(),
    ensures
        router::sweep(cleanups, entries).contains(cleanups[c].page),
{
    let start = SweepView {
        open: entries.len() as int,
        closed: Seq::empty(),
        left: router::counted(cleanups),
    };
    let before = router::swept_pages(start, entries, cleanups.take(c));
    let here = router::swept_pages(start, entries, cleanups.take(c + 1));
    assert(cleanups.take(c + 1).drop_last() =~= cleanups.take(c));
    lemma_pages_keep(start, entries, cleanups, c);
    lemma_page_is_found(entries, cleanups[c], e);
    assert(here.closed == before.closed.push(cleanups[c].page));
    lemma_pages_keep(start, entries, cleanups, c + 1);
    let first = router::swept_pages(start, entries, cleanups);
    assert(here.closed[here.closed.len() - 1] == cleanups[c].page);
    assert(first.closed[here.closed.len() - 1] == cleanups[c].page);
    lemma_entries_keep(first, first.closed, entries, 0);
    let last = router::swept_entries(first, first.closed, entries);
    assert(last.closed[here.closed.len() - 1] == cleanups[c].page);
}

/// How many of the ended sessions were at an address.
pub open spec fn ended_at(cleanups: Seq<CleanupView>, url: Seq<char>) -> nat
    decreases cleanups.len(),
{
    if cleanups.len() == 0 {
        0
    } else {
        ended_at(cleanups.drop_last(), url) + (if cleanups.last().url == Some(url) {
            1nat
        } else {
            0nat
        })
    }
}

/// How many of some pages are at an address.
pub open spec fn closed_at(entries: Seq<EntryView>, closed: Seq<u64>, url: Seq<char>) -> nat
    decreases closed.len(),
{
    if closed.len() == 0 {
        0
    } else {
        closed_at(entries, closed.drop_last(), url) + (if exists|e: int|
            0 <= e < entries.len() && (#[trigger] entries[e]).id == closed.last() && entries[e].url
                == url {
            1nat
        } else {
            0nat
        })
    }
}

/// What is left to close at an address and what was closed there are enough.
spec fn enough(s: SweepView, entries: Seq<EntryView>, url: Seq<char>, ended: nat) -> bool {
    &&& s.left.contains_key(url) <==> ended > 0
    &&& s.left.contains_key(url) ==> s.left[url] + closed_at(entries, s.closed, url) >= ended
}

proof fn lemma_counted(cleanups: Seq<CleanupView>, url: Seq<char>)
    requires
        cleanups.len() <= usize::MAX,
    ensures
        router::counted(cleanups).contains_key(url) <==> ended_at(cleanups, url) > 0,
        router::counted(cleanups).contains_key(url) ==> router::counted(cleanups)[url] == ended_at(
            cleanups,
            url,
        ),
        ended_at(cleanups, url) <= cleanups.len(),
    decreases cleanups.len(),
{
    if cleanups.len() > 0 {
        lemma_counted(cleanups.drop_last(), url);
    }
}

proof fn lemma_pages_enough(
    s: SweepView,
    entries: Seq<EntryView>,
    cleanups: Seq<CleanupView>,
    url: Seq<char>,
    ended: nat,
)
    requires
        enough(s, entries, url, ended),
    ensures
        enough(router::swept_pages(s, entries, cleanups), entries, url, ended),
    decreases cleanups.len(),
{
    if cleanups.len() > 0 {
        let front = cleanups.drop_last();
        lemma_pages_enough(s, entries, front, url, ended);
        let before = router::swept_pages(s, entries, front);
        let page = cleanups.last();
        if before.open > 1 && router::that_page(entries, page) is Some {
            let e = lemma_that_page(entries, page);
            let after = router::swept_page(before, entries, page);
            assert(after.closed.drop_last() =~= before.closed);
            assert(entries[e].id == after.closed.last());
        }
    }
}

proof fn lemma_entries_enough(
    s: SweepView,
    done: Seq<u64>,
    entries: Seq<EntryView>,
    n: int,
    url: Seq<char>,
    ended: nat,
)
    requires
        enough(s, entries, url, ended),
        0 <= n <= entries.len(),
    ensures
        enough(router::swept_entries(s, done, entries.take(n)), entries, url, ended),
    decreases n,
{
    if n > 0 {
        assert(entries.take(n).drop_last() =~= entries.take(n - 1));
        lemma_entries_enough(s, done, entries, n - 1, url, ended);
        let before = router::swept_entries(s, done, entries.take(n - 1));
        let entry = entries[n - 1];
        assert(entries.take(n).last() == entry);
        let after = router::swept_entry(before, done, entry);
        if after != before {
            assert(after.closed.drop_last() =~= before.closed);
            assert(entries[n - 1].id == after.closed.last());
        }
    } else {
        assert(entries.take(0) =~= Seq::empty());
    }
}

proof fn lemma_none_left(s: SweepView, done: Seq<u64>, entries: Seq<EntryView>, n: int, url: Seq<char>)
    requires
        0 <= n <= entries.len(),
        ({
            let early = router::swept_entries(s, done, entries.take(n));
            !early.left.contains_key(url) || early.left[url] == 0
        }),
    ensures
        ({
            let late = router::swept_entries(s, done, entries);
            !late.left.contains_key(url) || late.left[url] == 0
        }),
    decreases entries.len(),
{
    if n < entries.len() {
        let front = entries.drop_last();
        assert(front.take(n) =~= entries.take(n));
        lemma_none_left(s, done, front, n, url);
    } else {
        assert(entries.take(n) =~= entries);
    }
}

/// A page at the address of an ended session is left open after a restart only if as many
/// pages were closed there as sessions ended there, or if only one page would be left. An
/// empty page is left alone.
pub proof fn pages_at_the_address_are_closed(
    cleanups: Seq<CleanupView>,
    entries: Seq<EntryView>,
    e: int,
)
    requires
        0 <= e < entries.len(),
        entries[e].url != "about:blank"@,
        !router::sweep(cleanups, entries).contains(entries[e].id),
        router::sweep(cleanups, entries).len() + 1 < entries.len(),
        cleanups.len() <= usize::MAX,
    ensures
        closed_at(entries, router::sweep(cleanups, entries), entries[e].url) >= ended_at(
            cleanups,
            entries[e].url,
        ),
{
    let url = entries[e].url;
    let ended = ended_at(cleanups, url);
    let total = entries.len() as int;
    let start = SweepView {
        open: total,
        closed: Seq::empty(),
        left: router::counted(cleanups),
    };
    lemma_counted(cleanups, url);
    assert(closed_at(entries, start.closed, url) == 0);
    let first = router::swept_pages(start, entries, cleanups);
    let done = first.closed;
    let last = router::swept_entries(first, done, entries);
    lemma_pages_enough(start, entries, cleanups, url, ended);
    lemma_pages_balanced(start, entries, cleanups, total);
    lemma_entries_balanced(first, done, entries, total);
    lemma_entries_enough(first, done, entries, total, url, ended);
    assert(entries.take(total) =~= entries);
    let before = router::swept_entries(first, done, entries.take(e));
    let here = router::swept_entries(first, done, entries.take(e + 1));
    assert(entries.take(e + 1).drop_last() =~= entries.take(e));
    lemma_entries_keep(first, done, entries, e);
    lemma_entries_keep(first, done, entries, e + 1);
    if done.contains(entries[e].id) {
        let k = choose|k: int| 0 <= k < done.len() && done[k] == entries[e].id;
        assert(last.closed[k] == entries[e].id);
    }
    if here != before {
        let k = here.closed.len() - 1;
        assert(here.closed[k] == entries[e].id);
        assert(last.closed[k] == entries[e].id);
    }
    lemma_none_left(first, done, entries, e, url);
}

} // verus!
