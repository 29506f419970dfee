//! What holds of the browser's tabs and answers.
use crate::cdp::{CdpStepView, GotoStepView, TargetView, WaitStepView};
use crate::json::{JsonView, NumberView};
use crate::{cdp, json, page_laws, places, text, tool_laws};
use vstd::prelude::*;

verus! {

/// A tab's socket is behind the host of its address.
pub proof fn sockets_are_behind_the_host(scheme: Seq<char>, host: Seq<char>, path: Seq<char>)
    requires
        !scheme.contains(':'),
        !host.contains('/'),
    ensures
        cdp::socket_path(scheme + "://"@ + host + "/"@ + path) == Some("/"@ + path),
        cdp::socket_path(scheme) is None,
        cdp::socket_path(scheme + "://"@ + host) is None,
{
    reveal_strlit("://");
    reveal_strlit("/");
    let sep = "://"@;
    let address = scheme + sep + host + "/"@ + path;
    let rest = host + "/"@ + path;
    assert(address =~= scheme + (sep + rest));
    lemma_cut_scheme(scheme, rest);
    text::lemma_first_at(rest, "/"@, 0);
    let h = host.len() as int;
    assert(text::occurs(rest, "/"@, h)) by {
        assert(rest.subrange(h, h + 1) =~= "/"@);
    }
    assert forall|j: int| 0 <= j < h implies !#[trigger] text::occurs(rest, "/"@, j) by {
        if text::occurs(rest, "/"@, j) {
            assert(rest.subrange(j, j + 1)[0] == '/');
            assert(host[j] == '/');
        }
    }
    assert(rest.skip(h + 1) =~= path);
    text::lemma_first_at(scheme, sep, 0);
    if text::first_at(scheme, sep, 0) is Some {
        let k = text::first_at(scheme, sep, 0)->0;
        assert(scheme.subrange(k, k + 3)[0] == ':');
        assert(scheme[k] == ':');
    }
    assert(scheme + sep + host =~= scheme + (sep + host));
    lemma_cut_scheme(scheme, host);
    text::lemma_first_at(host, "/"@, 0);
    if text::first_at(host, "/"@, 0) is Some {
        let k = text::first_at(host, "/"@, 0)->0;
        assert(host.subrange(k, k + 1)[0] == '/');
        assert(host[k] == '/');
    }
}

proof fn lemma_cut_scheme(scheme: Seq<char>, rest: Seq<char>)
    requires
        !scheme.contains(':'),
    ensures
        text::cut(scheme + ("://"@ + rest), "://"@) == Some((scheme, rest)),
{
    reveal_strlit("://");
    let sep = "://"@;
    let all = scheme + (sep + rest);
    let n = scheme.len() as int;
    text::lemma_first_at(all, sep, 0);
    assert(text::occurs(all, sep, n)) by {
        assert(all.subrange(n, n + 3) =~= sep);
    }
    assert forall|j: int| 0 <= j < n implies !#[trigger] text::occurs(all, sep, j) by {
        if text::occurs(all, sep, j) {
            assert(all.subrange(j, j + 3)[0] == ':');
            assert(scheme[j] == ':');
        }
    }
    assert(all.take(n) =~= scheme);
    assert(all.skip(n + 3) =~= rest);
}

/// The tabs that the browser tells of are its items that are pages with an address and a
/// socket, in order; each has the id that it is told with, if any.
pub proof fn tabs_are_told_one_by_one(a: Seq<JsonView>, item: JsonView, b: Seq<JsonView>)
    ensures
        cdp::targets_of(a + seq![item] + b) == cdp::targets_of(a) + (match cdp::target_of(item) {
            Some(t) => seq![t],
            None => Seq::empty(),
        }) + cdp::targets_of(b),
        cdp::targets_of(Seq::empty()) == Seq::<TargetView>::empty(),
        ({
            let url = tool_laws::words_at(item, "url"@);
            let address = tool_laws::words_at(item, "webSocketDebuggerUrl"@);
            let whole = tool_laws::words_at(item, "type"@) == Some("page"@) && url is Some
                && address is Some && cdp::socket_path(address->0) is Some;
            &&& cdp::target_of(item) is Some <==> whole
            &&& whole ==> cdp::target_of(item) == Some(
                TargetView {
                    id: tool_laws::words_at(item, "id"@),
                    url: url->0,
                    path: cdp::socket_path(address->0)->0,
                },
            )
        }),
{
    let f = |i: JsonView| cdp::target_of(i);
    page_laws::lemma_filter_map_sum(a + seq![item], b, f);
    page_laws::lemma_filter_map_sum(a, seq![item], f);
    page_laws::lemma_filter_map_one(item, f);
}

proof fn lemma_at_url_sum(a: Seq<TargetView>, b: Seq<TargetView>, url: Seq<char>)
    ensures
        cdp::at_url(a + b, url) == cdp::at_url(a, url) + cdp::at_url(b, url),
    decreases b.len(),
{
    if b.len() == 0 {
        assert(a + b =~= a);
        assert(cdp::at_url(a, url) + cdp::at_url(b, url) =~= cdp::at_url(a, url));
    } else {
        lemma_at_url_sum(a, b.drop_last(), url);
        assert((a + b).drop_last() =~= a + b.drop_last());
        assert((a + b).last() == b.last());
        assert(cdp::at_url(a + b, url) =~= cdp::at_url(a, url) + cdp::at_url(b, url));
    }
}

proof fn lemma_none_at_url(targets: Seq<TargetView>, url: Seq<char>)
    requires
        forall|i: int| 0 <= i < targets.len() ==> (#[trigger] targets[i]).url != url,
    ensures
        cdp::at_url(targets, url) == Seq::<TargetView>::empty(),
    decreases targets.len(),
{
    if targets.len() > 0 {
        lemma_none_at_url(targets.drop_last(), url);
    }
}

proof fn lemma_split_at(targets: Seq<TargetView>, k: int, url: Seq<char>)
    requires
        0 <= k < targets.len(),
        targets[k].url == url,
    ensures
        cdp::at_url(targets, url) == cdp::at_url(targets.take(k), url) + seq![targets[k]]
            + cdp::at_url(targets.skip(k + 1), url),
{
    let a = targets.take(k);
    let b = targets.skip(k + 1);
    let one = seq![targets[k]];
    assert(targets =~= a + one + b);
    lemma_at_url_sum(a + one, b, url);
    lemma_at_url_sum(a, one, url);
    assert(one.drop_last() =~= Seq::empty());
    assert(cdp::at_url(Seq::empty(), url) =~= Seq::empty());
    assert(cdp::at_url(one, url) =~= one);
}

/// Where its target is not known, a session has the tab at its address if it is the only
/// one there.
pub proof fn a_lone_address_is_found(targets: Seq<TargetView>, url: Seq<char>, k: int)
    requires
        0 <= k < targets.len(),
        targets[k].url == url,
        forall|i: int| 0 <= i < targets.len() && i != k ==> (#[trigger] targets[i]).url != url,
    ensures
        cdp::own_target(targets, None, Some(url)) == Ok::<_, Seq<char>>(targets[k]),
        cdp::unique_target(targets, url) == targets[k].id,
{
    lemma_split_at(targets, k, url);
    let a = targets.take(k);
    let b = targets.skip(k + 1);
    assert forall|i: int| 0 <= i < a.len() implies (#[trigger] a[i]).url != url by {
        assert(a[i] == targets[i]);
    }
    assert forall|i: int| 0 <= i < b.len() implies (#[trigger] b[i]).url != url by {
        assert(b[i] == targets[i + k + 1]);
    }
    lemma_none_at_url(a, url);
    lemma_none_at_url(b, url);
    assert(cdp::at_url(targets, url) =~= seq![targets[k]]);
}

/// With two tabs at the address there is no telling which is the session's.
pub proof fn shared_addresses_are_refused(
    targets: Seq<TargetView>,
    url: Seq<char>,
    k: int,
    other: int,
)
    requires
        0 <= k < other < targets.len(),
        targets[k].url == url,
        targets[other].url == url,
    ensures
        cdp::own_target(targets, None, Some(url)) is Err,
        cdp::unique_target(targets, url) is None,
{
    lemma_split_at(targets, k, url);
    let b = targets.skip(k + 1);
    assert(b[other - k - 1] == targets[other]);
    lemma_split_at(b, other - k - 1, url);
}

/// No tab is found at an address where none is.
pub proof fn tabs_are_found_at_their_address(targets: Seq<TargetView>, url: Seq<char>)
    ensures
        (forall|i: int| 0 <= i < targets.len() ==> (#[trigger] targets[i]).url != url)
            ==> cdp::own_target(targets, None, Some(url)) is Err && cdp::unique_target(targets, url)
            is None,
        cdp::own_target(targets, None, None) is Err,
{
    if forall|i: int| 0 <= i < targets.len() ==> (#[trigger] targets[i]).url != url {
        lemma_none_at_url(targets, url);
    }
}

/// A session whose target is known has the first tab with it, which can be closed by it;
/// where no tab has it, the session has none and there is nothing to close.
pub proof fn targets_are_found(
    targets: Seq<TargetView>,
    id: Seq<char>,
    url: Option<Seq<char>>,
    k: int,
)
    requires
        0 <= k <= targets.len(),
        forall|i: int| 0 <= i < k ==> (#[trigger] targets[i]).id != Some(id),
        k < targets.len() ==> targets[k].id == Some(id),
    ensures
        k < targets.len() ==> cdp::own_target(targets, Some(id), url) == Ok::<_, Seq<char>>(
            targets[k],
        ) && cdp::close_path(targets, id) == Ok::<_, Seq<char>>("/json/close/"@ + id),
        k == targets.len() ==> cdp::own_target(targets, Some(id), url) is Err && cdp::close_path(
            targets,
            id,
        ) is Err,
    decreases targets.len(),
{
    if targets.len() > 0 && k > 0 {
        let rest = targets.skip(1);
        assert(targets[0].id != Some(id));
        assert forall|i: int| 0 <= i < k - 1 implies (#[trigger] rest[i]).id != Some(id) by {
            assert(rest[i] == targets[i + 1]);
        }
        targets_are_found(rest, id, url, k - 1);
    }
}

/// The ids of some tabs are those of the tabs that have one, in order.
pub proof fn ids_are_told_one_by_one(a: Seq<TargetView>, t: TargetView, b: Seq<TargetView>)
    ensures
        cdp::ids_of(a + seq![t] + b) == cdp::ids_of(a) + (match t.id {
            Some(id) => seq![id],
            None => Seq::empty(),
        }) + cdp::ids_of(b),
        cdp::ids_of(Seq::empty()) == Seq::<Seq<char>>::empty(),
{
    let f = |x: TargetView| x.id;
    page_laws::lemma_filter_map_sum(a + seq![t], b, f);
    page_laws::lemma_filter_map_sum(a, seq![t], f);
    page_laws::lemma_filter_map_one(t, f);
}

proof fn lemma_new_sum(before: Seq<Seq<char>>, a: Seq<Seq<char>>, b: Seq<Seq<char>>)
    ensures
        cdp::new_targets(before, a + b) == cdp::new_targets(before, a) + cdp::new_targets(
            before,
            b,
        ),
    decreases b.len(),
{
    if b.len() == 0 {
        assert(a + b =~= a);
        assert(cdp::new_targets(before, a) + cdp::new_targets(before, b) =~= cdp::new_targets(
            before,
            a,
        ));
    } else {
        lemma_new_sum(before, a, b.drop_last());
        assert((a + b).drop_last() =~= a + b.drop_last());
        assert((a + b).last() == b.last());
        assert(cdp::new_targets(before, a + b) =~= cdp::new_targets(before, a) + cdp::new_targets(
            before,
            b,
        ));
    }
}

proof fn lemma_none_new(before: Seq<Seq<char>>, a: Seq<Seq<char>>)
    requires
        forall|i: int| 0 <= i < a.len() ==> before.contains(#[trigger] a[i]),
    ensures
        cdp::new_targets(before, a) == Seq::<Seq<char>>::empty(),
    decreases a.len(),
{
    if a.len() > 0 {
        lemma_none_new(before, a.drop_last());
        assert(before.contains(a[a.len() - 1]));
    }
}

proof fn lemma_one_new(before: Seq<Seq<char>>, x: Seq<char>)
    requires
        !before.contains(x),
    ensures
        cdp::new_targets(before, seq![x]) == seq![x],
{
    assert(seq![x].drop_last() =~= Seq::empty());
    assert(cdp::new_targets(before, Seq::empty()) =~= Seq::empty());
    assert(cdp::new_targets(before, seq![x]) =~= seq![x]);
}

/// The new tab is the only one that was not there before; with none or with two there is no
/// telling.
pub proof fn the_new_tab_is_told(
    before: Seq<Seq<char>>,
    a: Seq<Seq<char>>,
    x: Seq<char>,
    b: Seq<Seq<char>>,
    y: Seq<char>,
)
    requires
        forall|i: int| 0 <= i < a.len() ==> before.contains(#[trigger] a[i]),
        forall|i: int| 0 <= i < b.len() ==> before.contains(#[trigger] b[i]),
        !before.contains(x),
        !before.contains(y),
    ensures
        cdp::the_new_target(before, a + seq![x] + b) == Some(x),
        cdp::the_new_target(before, a) is None,
        cdp::the_new_target(before, a + seq![x] + (b + seq![y])) is None,
{
    lemma_none_new(before, a);
    lemma_none_new(before, b);
    lemma_one_new(before, x);
    lemma_one_new(before, y);
    lemma_new_sum(before, a + seq![x], b);
    lemma_new_sum(before, a, seq![x]);
    lemma_new_sum(before, a + seq![x], b + seq![y]);
    lemma_new_sum(before, b, seq![y]);
    assert(cdp::new_targets(before, a + seq![x] + b) =~= seq![x]);
}

/// A tab is closing if the browser says so or says nothing.
pub proof fn closing_is_acknowledged(body: Seq<char>)
    ensures
        text::holds(body, "Target is closing"@) ==> cdp::close_answer(body) is Ok,
        text::trimmed(body).len() == 0 ==> cdp::close_answer(body) is Ok,
        text::trimmed(body).len() > 0 && !text::holds(body, "Target is closing"@)
            ==> cdp::close_answer(body) is Err,
{
}

/// A call waits until the answer with its own id, whatever else the browser says; the answer
/// is a failure if it tells of an error.
pub proof fn calls_wait_for_their_own_answer(v: JsonView, id: i64)
    ensures
        ({
            let own = match places::member(v, "id"@) {
                Some(JsonView::Number(NumberView::PosInt(n))) => n == id,
                Some(JsonView::Number(NumberView::NegInt(n))) => n == id,
                _ => false,
            };
            let step = cdp::call_step(Ok(v), id);
            &&& !own ==> step is More
            &&& own && places::member(v, "error"@) is None ==> step == CdpStepView::Done(v)
            &&& own && places::member(v, "error"@) is Some ==> step is Failed
        }),
        cdp::call_step(Err(Seq::empty()), id) is Failed,
{
}

/// An expression is evaluated as it is, and its value is asked for.
pub proof fn expressions_are_evaluated_as_they_are(expression: Seq<char>)
    ensures
        ({
            let params = tool_laws::params_for(cdp::evaluation(expression), "Runtime.evaluate"@);
            &&& places::member(params, "expression"@) == tool_laws::said(expression)
            &&& places::member(params, "returnByValue"@) == Some(JsonView::Bool(true))
        }),
        cdp::truth_of(expression) == seq!['!', '!', '('] + expression + seq![')'],
{
    lemma_words();
    reveal_strlit("!!(");
    reveal_strlit(")");
    assert("!!("@ =~= seq!['!', '!', '(']);
    assert(")"@ =~= seq![')']);
}

proof fn lemma_words()
    ensures
        "method"@.len() == 6 && "method"@[0] == 'm',
        "params"@.len() == 6 && "params"@[0] == 'p',
        "expression"@.len() == 10,
        "returnByValue"@.len() == 13,
{
    reveal_strlit("method");
    reveal_strlit("params");
    reveal_strlit("expression");
    reveal_strlit("returnByValue");
}


/// The value of an expression is what the browser says it is; an expression that throws is
/// an error that begins by saying so.
pub proof fn values_are_what_the_browser_says(answer: JsonView)
    ensures
        ({
            let outcome = places::member(answer, "result"@);
            let thrown = outcome is Some && places::member(outcome->0, "exceptionDetails"@) is Some;
            let inner = if outcome is Some {
                places::member(outcome->0, "result"@)
            } else {
                None
            };
            &&& outcome is None ==> cdp::evaluated(answer) is Err
            &&& thrown ==> (cdp::evaluated(answer) matches Err(message) && text::begins(
                message,
                "expression threw:"@,
            ))
            &&& outcome is Some && !thrown ==> cdp::evaluated(answer) == Ok::<_, Seq<char>>(
                if inner is Some && places::member(inner->0, "value"@) is Some {
                    places::member(inner->0, "value"@)->0
                } else {
                    JsonView::Null
                },
            )
            &&& outcome is None ==> !text::begins(cdp::evaluated(answer)->Err_0, "expression threw:"@)
        }),
{
    reveal_strlit("expression threw: ");
    reveal_strlit("expression threw:");
    reveal_strlit("Runtime.evaluate returned no result");
    if let Some(result) = places::member(answer, "result"@) {
        if let Some(details) = places::member(result, "exceptionDetails"@) {
            let message = "expression threw: "@ + cdp::exception_text(details);
            assert(message.subrange(0, 17) =~= "expression threw:"@);
        }
    } else {
        let m = "Runtime.evaluate returned no result"@;
        assert(m[0] == 'R');
        if text::begins(m, "expression threw:"@) {
            assert(m.subrange(0, 17)[0] == 'e');
        }
    }
}

/// What an exception says of itself is told: its description, or else the text.
pub proof fn exceptions_are_described(details: JsonView)
    ensures
        ({
            let exception = places::member(details, "exception"@);
            let described = if exception is Some {
                tool_laws::words_at(exception->0, "description"@)
            } else {
                None
            };
            &&& described matches Some(d) ==> cdp::exception_text(details) == d
            &&& described is None && tool_laws::words_at(details, "text"@) is Some
                ==> cdp::exception_text(details) == tool_laws::words_at(details, "text"@)->0
        }),
{
}

/// A navigation failed if the browser gives a reason, and only then.
pub proof fn navigations_fail_with_a_reason(answer: JsonView)
    ensures
        cdp::navigation(answer) is Err <==> (places::member(answer, "result"@) matches Some(result)
            && (tool_laws::words_at(result, "errorText"@) matches Some(reason) && reason.len()
            > 0)),
{
}

/// Whether an error comes of the page being replaced while it was asked.
pub open spec fn passes(error: Seq<char>) -> bool {
    ||| text::holds(error, "Cannot find context with specified id"@)
    ||| text::holds(error, "Execution context was destroyed"@)
    ||| text::holds(error, "Inspected target navigated or closed"@)
}

/// `goto` has arrived once its condition is true and the page has told its address, which is
/// the asked one if it tells none. It gives up when the condition throws, and when the time
/// is up; errors that pass, and until then all others of looking, are looked over.
pub proof fn goto_arrives_when_the_condition_holds(
    result: Result<JsonView, Seq<char>>,
    url: Seq<char>,
    timeout: u64,
    wait: Seq<char>,
    late: bool,
)
    ensures
        ({
            let looked = cdp::goto_looked(result, timeout, wait, late);
            let held = result == Ok::<_, Seq<char>>(JsonView::Bool(true));
            let threw = result matches Err(error) && !passes(error) && text::begins(
                error,
                "expression threw:"@,
            );
            &&& looked is AskLocation <==> held
            &&& threw ==> looked == GotoStepView::Failed(result->Err_0)
            &&& !held && !threw && !late ==> looked is Sleep
            &&& !held && !threw && late ==> looked is Failed
        }),
        ({
            let located = cdp::goto_located(result, url, timeout, wait, late);
            &&& result is Ok <==> located is Arrived
            &&& result matches Ok(JsonView::Str(found)) ==> located == GotoStepView::Arrived(found)
            &&& result is Ok && result->Ok_0 !is Str ==> located == GotoStepView::Arrived(url)
            &&& result is Err && passes(result->Err_0) && !late ==> located is Sleep
            &&& result is Err && (!passes(result->Err_0) || late) ==> located is Failed
        }),
{
}

/// Waiting is over once the expression is true. It fails when the expression throws or the
/// time is up, and connects anew before the next look where looking failed.
pub proof fn waiting_is_over_when_the_expression_is_true(
    connected: Result<(), Seq<char>>,
    result: Result<JsonView, Seq<char>>,
    timeout: u64,
    expression: Seq<char>,
    late: bool,
)
    ensures
        ({
            let looked = cdp::wait_looked(result, timeout, expression, late);
            let held = result == Ok::<_, Seq<char>>(JsonView::Bool(true));
            let threw = result matches Err(error) && text::begins(error, "expression threw:"@);
            &&& looked is Done <==> held
            &&& threw ==> looked == WaitStepView::Failed(result->Err_0)
            &&& !held && !threw && late ==> looked is Failed
            &&& !held && !threw && !late ==> looked == (WaitStepView::Sleep {
                reconnect: result is Err,
            })
        }),
        ({
            let step = cdp::wait_connected(connected, timeout, expression, late);
            &&& connected is Ok <==> step is Look
            &&& connected is Err && late <==> step is Failed
            &&& connected is Err && !late ==> step == (WaitStepView::Sleep { reconnect: true })
        }),
{
}

/// The tabs of the browser's answer are those of its list; an answer that is none is refused.
pub proof fn tabs_come_in_a_list(answer: Result<JsonView, Seq<char>>)
    ensures
        cdp::targets_in(answer) is Ok <==> (answer matches Ok(JsonView::Array(_))),
        answer matches Ok(JsonView::Array(items)) ==> cdp::targets_in(answer) == Ok::<_, Seq<char>>(
            cdp::targets_of(items),
        ),
{
}

/// A call of a method has the method and its parameters.
pub proof fn calls_have_method_and_params(method: Seq<char>, params: JsonView)
    ensures
        tool_laws::params_for(cdp::method_call(method, params), method) == params,
        places::member(cdp::method_call(method, params), "method"@) == tool_laws::said(method),
{
    lemma_words();
}

} // verus!
