//! What holds of scripts.
use crate::batch::{BatchActionView, BatchView, OutcomeView};
use crate::json::JsonView;
use crate::places::Step;
use crate::{batch, json, mcp, places, text};
use vstd::prelude::*;

verus! {

/// Whether a value is an object that has nothing but a reference.
pub open spec fn is_reference(v: JsonView) -> bool {
    v matches JsonView::Object(m) && m.dom() == set!["$ref"@]
}

/// Whether some steps lead into a reference.
pub open spec fn enters_reference(v: JsonView, steps: Seq<Step>) -> bool {
    exists|n: int|
        0 <= n < steps.len() && (places::at(v, #[trigger] steps.take(n)) matches Some(x)
            && is_reference(x))
}

proof fn lemma_is_reference(m: Map<Seq<char>, JsonView>)
    ensures
        is_reference(JsonView::Object(m)) == batch::is_ref(m),
{
    if batch::is_ref(m) {
        assert(m.dom() =~= set!["$ref"@]);
    }
    if is_reference(JsonView::Object(m)) {
        assert(m.dom().contains("$ref"@));
        assert forall|k: Seq<char>| #[trigger] m.contains_key(k) implies k == "$ref"@ by {
            assert(m.dom().contains(k));
        }
    }
}

/// What comes of a value that is no part of a reference: what it refers to, if it is a
/// reference, or else something of its make.
pub open spec fn comes_to(x: JsonView, y: JsonView, results: Seq<JsonView>) -> bool {
    if is_reference(x) {
        x->Object_0["$ref"@] matches JsonView::Str(path) ==> y == batch::path_value(path, results)
    } else {
        places::alike(x, y)
    }
}

proof fn lemma_enters_behind(v: JsonView, step: Step, x: JsonView, rest: Seq<Step>)
    requires
        places::part(v, step) == Some(x),
    ensures
        is_reference(v) || enters_reference(x, rest) <==> enters_reference(
            v,
            places::behind(step, rest),
        ),
{
    let steps = places::behind(step, rest);
    if is_reference(v) {
        assert(steps.take(0) =~= Seq::empty());
        assert(places::at(v, steps.take(0)) == Some(v));
    }
    if enters_reference(x, rest) {
        let n = choose|n: int|
            0 <= n < rest.len() && (places::at(x, #[trigger] rest.take(n)) matches Some(y)
                && is_reference(y));
        assert(steps.take(n + 1) =~= places::behind(step, rest.take(n)));
        places::lemma_behind(v, step, rest.take(n));
        assert(places::at(v, steps.take(n + 1)) == places::at(x, rest.take(n)));
    }
    if enters_reference(v, steps) {
        let n = choose|n: int|
            0 <= n < steps.len() && (places::at(v, #[trigger] steps.take(n)) matches Some(y)
                && is_reference(y));
        if n > 0 {
            assert(steps.take(n) =~= places::behind(step, rest.take(n - 1)));
            places::lemma_behind(v, step, rest.take(n - 1));
            assert(places::at(x, rest.take(n - 1)) == places::at(v, steps.take(n)));
        } else {
            assert(steps.take(0) =~= Seq::empty());
        }
    }
}

/// References are resolved at every place of a value, however deep, in objects and in lists,
/// and nothing else is changed.
pub proof fn references_are_resolved_at_every_place(
    v: JsonView,
    results: Seq<JsonView>,
    steps: Seq<Step>,
)
    requires
        places::at(v, steps) is Some,
        !enters_reference(v, steps),
    ensures
        places::at(batch::resolved(v, results), steps) is Some,
        comes_to(
            places::at(v, steps)->0,
            places::at(batch::resolved(v, results), steps)->0,
            results,
        ),
    decreases steps.len(),
{
    let w = batch::resolved(v, results);
    if let JsonView::Object(m) = v {
        lemma_is_reference(m);
        if !batch::is_ref(m) {
            assert(w->Object_0.dom() =~= m.dom());
        }
    }
    if steps.len() > 0 {
        let step = steps[0];
        let rest = steps.skip(1);
        let x = places::part(v, step)->0;
        assert(places::behind(step, rest) =~= steps);
        lemma_enters_behind(v, step, x, rest);
        assert(places::part(w, step) == Some(batch::resolved(x, results)));
        references_are_resolved_at_every_place(x, results, rest);
    }
}

/// A value is refused for a reference in it that names nothing, wherever it stands.
pub proof fn references_name_what_they_refer_to(v: JsonView, steps: Seq<Step>)
    requires
        batch::refs_fine(v),
        places::at(v, steps) matches Some(x) && is_reference(x),
        !enters_reference(v, steps),
    ensures
        places::at(v, steps)->0->Object_0["$ref"@] is Str,
    decreases steps.len(),
{
    if let JsonView::Object(m) = v {
        lemma_is_reference(m);
    }
    if steps.len() > 0 {
        let step = steps[0];
        let rest = steps.skip(1);
        let x = places::part(v, step)->0;
        assert(places::behind(step, rest) =~= steps);
        lemma_enters_behind(v, step, x, rest);
        references_name_what_they_refer_to(x, rest);
    }
}

/// Where a value is refused, a reference in it names nothing.
pub proof fn refused_values_have_a_bad_reference(v: JsonView) -> (steps: Seq<Step>)
    requires
        !batch::refs_fine(v),
    ensures
        places::at(v, steps) matches Some(x) && is_reference(x) && !(x->Object_0["$ref"@] is Str),
        !enters_reference(v, steps),
    decreases v,
{
    match v {
        JsonView::Object(m) => {
            lemma_is_reference(m);
            if batch::is_ref(m) {
                Seq::empty()
            } else {
                let k = choose|k: Seq<char>| #[trigger] m.contains_key(k) && !batch::refs_fine(m[k]);
                assert(decreases_to!(v => m[k]));
                let rest = refused_values_have_a_bad_reference(m[k]);
                places::lemma_behind(v, Step::Key(k), rest);
                lemma_enters_behind(v, Step::Key(k), m[k], rest);
                places::behind(Step::Key(k), rest)
            }
        },
        JsonView::Array(items) => {
            let i = choose|i: int| 0 <= i < items.len() && !batch::refs_fine(#[trigger] items[i]);
            assert(decreases_to!(v => items[i]));
            let rest = refused_values_have_a_bad_reference(items[i]);
            places::lemma_behind(v, Step::Item(i), rest);
            lemma_enters_behind(v, Step::Item(i), items[i], rest);
            places::behind(Step::Item(i), rest)
        },
        _ => Seq::empty(),
    }
}

/// Where no earlier result has a reference in it, none is left in what is sent.
pub proof fn no_reference_is_left(v: JsonView, results: Seq<JsonView>)
    requires
        forall|i: int| 0 <= i < results.len() ==> batch::ref_free(#[trigger] results[i]),
        batch::refs_fine(v),
    ensures
        batch::ref_free(batch::resolved(v, results)),
    decreases v,
{
    match v {
        JsonView::Object(m) => {
            if batch::is_ref(m) {
                let path = m["$ref"@]->Str_0;
                lemma_path_ref_free(path, results);
            } else {
                let n = batch::resolved(v, results)->Object_0;
                assert(n.dom() =~= m.dom());
                lemma_is_reference(m);
                lemma_is_reference(n);
                assert forall|k: Seq<char>| #[trigger] n.contains_key(k) implies batch::ref_free(
                    n[k],
                ) by {
                    assert(m.contains_key(k));
                    assert(decreases_to!(v => m[k]));
                    no_reference_is_left(m[k], results);
                }
            }
        },
        JsonView::Array(items) => {
            let done = batch::resolved(v, results)->Array_0;
            assert forall|i: int| 0 <= i < done.len() implies batch::ref_free(#[trigger] done[i]) by {
                assert(decreases_to!(v => items[i]));
                no_reference_is_left(items[i], results);
            }
        },
        _ => {},
    }
}

proof fn lemma_labelled(results: Seq<JsonView>, label: Seq<char>)
    ensures
        batch::labelled(results, label) matches Some(x) ==> exists|i: int|
            0 <= i < results.len() && #[trigger] results[i] == x,
    decreases results.len(),
{
    if results.len() > 0 {
        if json::text_field(results[0], "label"@) == Some(label) {
            assert(results[0] == results[0]);
        } else {
            lemma_labelled(results.skip(1), label);
            if let Some(x) = batch::labelled(results.skip(1), label) {
                let i = choose|i: int|
                    0 <= i < results.skip(1).len() && #[trigger] results.skip(1)[i] == x;
                assert(results[i + 1] == x);
            }
        }
    }
}

proof fn lemma_walked_ref_free(v: JsonView, parts: Seq<Seq<char>>)
    requires
        batch::ref_free(v),
    ensures
        batch::ref_free(batch::walked(v, parts)),
    decreases parts.len(),
{
    if parts.len() > 0 {
        lemma_walked_ref_free(v, parts.drop_last());
    }
}

proof fn lemma_path_ref_free(path: Seq<char>, results: Seq<JsonView>)
    requires
        forall|i: int| 0 <= i < results.len() ==> batch::ref_free(#[trigger] results[i]),
    ensures
        batch::ref_free(batch::path_value(path, results)),
{
    let parts = text::parts(path, '.');
    lemma_labelled(results, parts[0]);
    if let Some(entry) = batch::labelled(results, parts[0]) {
        lemma_walked_ref_free(entry, parts.skip(1));
    }
}

/// How a step is written in the path of a reference.
pub open spec fn step_text(step: Step) -> Seq<char> {
    match step {
        Step::Key(k) => k,
        Step::Item(i) => text::decimal(i as nat),
    }
}

/// Whether a step can be written in the path of a reference: a key has no dot in it and does
/// not look like a number.
pub open spec fn writable(step: Step) -> bool {
    match step {
        Step::Key(k) => !k.contains('.') && (k.len() > 0 ==> !('0' <= k[0] <= '9') && k[0] != '+'),
        Step::Item(i) => 0 <= i <= usize::MAX,
    }
}

/// The path of a reference to what some steps lead to in the result with a label.
pub open spec fn written(label: Seq<char>, steps: Seq<Step>) -> Seq<char>
    decreases steps.len(),
{
    if steps.len() == 0 {
        label
    } else {
        written(label, steps.drop_last()) + seq!['.'] + step_text(steps.last())
    }
}

proof fn lemma_parts_from_plain(cur: Seq<char>, s: Seq<char>, c: char)
    requires
        !s.contains(c),
    ensures
        text::parts_from(cur, s, c) == seq![cur + s],
    decreases s.len(),
{
    if s.len() > 0 {
        assert(s.contains(s[0]));
        assert(!s.skip(1).contains(c)) by {
            if s.skip(1).contains(c) {
                let i = choose|i: int| 0 <= i < s.skip(1).len() && s.skip(1)[i] == c;
                assert(s[i + 1] == c);
            }
        }
        lemma_parts_from_plain(cur.push(s[0]), s.skip(1), c);
        assert(cur.push(s[0]) + s.skip(1) =~= cur + s);
    } else {
        assert(cur + s =~= cur);
    }
}

proof fn lemma_parts_from_sum(cur: Seq<char>, a: Seq<char>, c: char, b: Seq<char>)
    requires
        !b.contains(c),
    ensures
        text::parts_from(cur, a + seq![c] + b, c) == text::parts_from(cur, a, c).push(b),
    decreases a.len(),
{
    let s = a + seq![c] + b;
    if a.len() == 0 {
        assert(s[0] == c);
        assert(s.skip(1) =~= b);
        lemma_parts_from_plain(Seq::empty(), b, c);
        assert(Seq::<char>::empty() + b =~= b);
        assert(text::parts_from(cur, s, c) =~= seq![cur].push(b));
    } else {
        assert(s[0] == a[0]);
        assert(s.skip(1) =~= a.skip(1) + seq![c] + b);
        if a[0] == c {
            lemma_parts_from_sum(Seq::empty(), a.skip(1), c, b);
            assert(text::parts_from(cur, s, c) =~= text::parts_from(cur, a, c).push(b));
        } else {
            lemma_parts_from_sum(cur.push(a[0]), a.skip(1), c, b);
        }
    }
}

/// A text without separators is one part, and with one more part behind a separator it has
/// one part more.
pub proof fn parts_are_what_separators_part(a: Seq<char>, c: char, b: Seq<char>)
    requires
        !b.contains(c),
    ensures
        text::parts(b, c) == seq![b],
        text::parts(a + seq![c] + b, c) == text::parts(a, c).push(b),
{
    lemma_parts_from_plain(Seq::empty(), b, c);
    assert(Seq::<char>::empty() + b =~= b);
    lemma_parts_from_sum(Seq::empty(), a, c, b);
}

proof fn lemma_no_dot(step: Step)
    requires
        writable(step),
    ensures
        !step_text(step).contains('.'),
{
    if let Step::Item(i) = step {
        text::decimal_denotes(i as nat);
        let d = text::decimal(i as nat);
        if d.contains('.') {
            let k = choose|k: int| 0 <= k < d.len() && d[k] == '.';
            assert(text::is_digit(d[k]));
        }
    }
}

proof fn lemma_not_a_number(s: Seq<char>)
    requires
        s.len() > 0 ==> !('0' <= s[0] <= '9') && s[0] != '+',
    ensures
        text::parsed(s, usize::MAX as nat) is None,
{
}

proof fn lemma_written_parts(label: Seq<char>, steps: Seq<Step>)
    requires
        !label.contains('.'),
        forall|i: int| 0 <= i < steps.len() ==> writable(#[trigger] steps[i]),
    ensures
        text::parts(written(label, steps), '.') == seq![label] + Seq::new(
            steps.len(),
            |i: int| step_text(steps[i]),
        ),
    decreases steps.len(),
{
    let texts = Seq::new(steps.len(), |i: int| step_text(steps[i]));
    if steps.len() == 0 {
        parts_are_what_separators_part(label, '.', label);
        assert(seq![label] + texts =~= seq![label]);
    } else {
        let front = steps.drop_last();
        assert forall|i: int| 0 <= i < front.len() implies writable(#[trigger] front[i]) by {
            assert(front[i] == steps[i]);
        }
        lemma_written_parts(label, front);
        assert(writable(steps[steps.len() - 1]));
        lemma_no_dot(steps.last());
        parts_are_what_separators_part(written(label, front), '.', step_text(steps.last()));
        assert(seq![label] + texts =~= (seq![label] + Seq::new(
            front.len(),
            |i: int| step_text(front[i]),
        )).push(step_text(steps.last())));
    }
}

proof fn lemma_at_push(v: JsonView, steps: Seq<Step>, step: Step)
    ensures
        places::at(v, steps.push(step)) == (match places::at(v, steps) {
            Some(x) => places::part(x, step),
            None => None,
        }),
    decreases steps.len(),
{
    let all = steps.push(step);
    if steps.len() > 0 {
        assert(all[0] == steps[0]);
        assert(all.skip(1) =~= steps.skip(1).push(step));
        if let Some(x) = places::part(v, steps[0]) {
            lemma_at_push(x, steps.skip(1), step);
        }
    } else {
        assert(all[0] == step);
        assert(all.skip(1) =~= Seq::empty());
        if let Some(x) = places::part(v, step) {
            assert(places::at(x, all.skip(1)) == Some(x));
        }
    }
}

proof fn lemma_walked(v: JsonView, steps: Seq<Step>)
    requires
        forall|i: int| 0 <= i < steps.len() ==> writable(#[trigger] steps[i]),
    ensures
        batch::walked(v, Seq::new(steps.len(), |i: int| step_text(steps[i]))) == batch::or_null(
            places::at(v, steps),
        ),
    decreases steps.len(),
{
    let texts = Seq::new(steps.len(), |i: int| step_text(steps[i]));
    if steps.len() > 0 {
        let front = steps.drop_last();
        assert forall|i: int| 0 <= i < front.len() implies writable(#[trigger] front[i]) by {
            assert(front[i] == steps[i]);
        }
        lemma_walked(v, front);
        assert(texts.drop_last() =~= Seq::new(front.len(), |i: int| step_text(front[i])));
        assert(front.push(steps.last()) =~= steps);
        lemma_at_push(v, front, steps.last());
        assert(writable(steps[steps.len() - 1]));
        match steps.last() {
            Step::Key(k) => {
                lemma_not_a_number(k);
            },
            Step::Item(i) => {
                text::printing_and_parsing_agree(i as nat, usize::MAX as nat);
            },
        }
    }
}

proof fn lemma_first_labelled(results: Seq<JsonView>, k: int, label: Seq<char>)
    requires
        0 <= k < results.len(),
        json::text_field(results[k], "label"@) == Some(label),
        forall|i: int|
            0 <= i < k ==> json::text_field(#[trigger] results[i], "label"@) != Some(label),
    ensures
        batch::labelled(results, label) == Some(results[k]),
    decreases k,
{
    if k > 0 {
        assert(json::text_field(results[0], "label"@) != Some(label));
        let rest = results.skip(1);
        assert(rest[k - 1] == results[k]);
        assert forall|i: int| 0 <= i < k - 1 implies json::text_field(
            #[trigger] rest[i],
            "label"@,
        ) != Some(label) by {
            assert(rest[i] == results[i + 1]);
        }
        lemma_first_labelled(rest, k - 1, label);
    }
}

/// A reference stands for what its path leads to in the first result with the label: a key
/// leads to a member and a number to an item, counted from nought. It stands for null where
/// the path leads nowhere.
pub proof fn references_lead_into_results(
    results: Seq<JsonView>,
    k: int,
    label: Seq<char>,
    steps: Seq<Step>,
)
    requires
        !label.contains('.'),
        forall|i: int| 0 <= i < steps.len() ==> writable(#[trigger] steps[i]),
        0 <= k < results.len(),
        json::text_field(results[k], "label"@) == Some(label),
        forall|i: int|
            0 <= i < k ==> json::text_field(#[trigger] results[i], "label"@) != Some(label),
    ensures
        batch::path_value(written(label, steps), results) == (match places::at(results[k], steps) {
            Some(x) => x,
            None => JsonView::Null,
        }),
{
    let texts = Seq::new(steps.len(), |i: int| step_text(steps[i]));
    lemma_written_parts(label, steps);
    lemma_first_labelled(results, k, label);
    let parts = text::parts(written(label, steps), '.');
    assert(parts[0] == label);
    assert(parts.skip(1) =~= texts);
    lemma_walked(results[k], steps);
}

/// A tool step is sent as a call of its tool, with its arguments resolved, under an id that
/// no other call of the batch has had; the batch then waits for the answer.
pub proof fn tool_steps_are_sent(b: BatchView, id: u64, line: Seq<char>)
    requires
        batch::batch_next(b).1 == (BatchActionView::Call { id, line }),
    ensures
        b.stopped is None,
        b.index < b.steps.len(),
        json::text_field(b.steps[b.index], "type"@) == Some("tool"@),
        exists|request: JsonView|
            {
                &&& line == #[trigger] json::json_text(request)
                &&& json::field(request, "jsonrpc"@) == Some(json::jstr("2.0"@))
                &&& json::field(request, "id"@) == Some(json::num(id))
                &&& json::field(request, "method"@) == Some(json::jstr("tools/call"@))
                &&& json::field(request, "params"@) matches Some(params)
                &&& json::field(params, "name"@) == json::field(b.steps[b.index], "name"@)
                &&& json::field(params, "arguments"@) == Some(
                    batch::resolved(
                        match json::field(b.steps[b.index], "args"@) {
                            Some(arguments) => arguments,
                            None => json::empty_object(),
                        },
                        b.results,
                    ),
                )
            },
        id == b.next_id,
        batch::batch_next(b).0.next_id == (if id == u64::MAX {
            0
        } else {
            (id + 1) as u64
        }),
        batch::batch_next(b).0.index == b.index,
        batch::batch_next(b).0.results == b.results,
        batch::batch_next(b).0.steps == b.steps,
        batch::batch_next(b).0.stopped is None,
{
    reveal_strlit("jsonrpc");
    reveal_strlit("id");
    reveal_strlit("method");
    reveal_strlit("params");
    reveal_strlit("name");
    reveal_strlit("arguments");
    assert("jsonrpc"@.len() == 7 && "id"@.len() == 2 && "method"@.len() == 6 && "params"@.len()
        == 6 && "method"@[0] == 'm' && "params"@[0] == 'p');
    assert("name"@.len() == 4 && "arguments"@.len() == 9);
    let step = b.steps[b.index];
    let request = batch::call_request(
        b.next_id,
        json::text_field(step, "name"@)->0,
        batch::resolved(batch::step_arguments(step), b.results),
    );
    reveal_strlit("sleep_ms");
    reveal_strlit("tool");
    assert(line == json::json_text(request));
}

/// A sleep waits as long as its step says, leaves an entry with its label, and the batch
/// goes on to the next step.
pub proof fn sleeps_last_as_long_as_they_say(b: BatchView, ms: u64)
    requires
        batch::batch_next(b).1 == (BatchActionView::Sleep { ms }),
    ensures
        json::field(b.steps[b.index], "type"@) == Some(json::jstr("sleep_ms"@)),
        json::u64_field(b.steps[b.index], "ms"@) == Some(ms),
        batch::batch_next(b).0.index == b.index + 1,
        batch::batch_next(b).0.results.len() == b.results.len() + 1,
        json::field(batch::batch_next(b).0.results.last(), "type"@) == Some(
            json::jstr("sleep_ms"@),
        ),
        json::field(batch::batch_next(b).0.results.last(), "ms"@) == Some(json::num(ms)),
        json::field(batch::batch_next(b).0.results.last(), "label"@) == Some(
            batch::or_null(json::field(b.steps[b.index], "label"@)),
        ),
{
    reveal_strlit("type");
    reveal_strlit("label");
    reveal_strlit("ms");
    assert("type"@.len() == 4 && "label"@.len() == 5 && "ms"@.len() == 2);
}

/// The answer to a call is kept with the tool and the label of its step, result and error
/// each as the answer has them, and the batch goes on to the next step.
pub proof fn answers_are_kept(b: BatchView, response: JsonView)
    ensures
        ({
            let step = b.steps[b.index];
            let after = batch::batch_answered(b, response);
            let entry = after.results.last();
            &&& after.results == b.results.push(entry)
            &&& after.index == b.index + 1
            &&& after.steps == b.steps && after.next_id == b.next_id && after.fail_fast
                == b.fail_fast
            &&& json::field(entry, "type"@) == Some(json::jstr("tool"@))
            &&& json::text_field(step, "name"@) matches Some(name) ==> json::text_field(
                entry,
                "name"@,
            ) == Some(name)
            &&& json::field(entry, "label"@) == Some(
                batch::or_null(json::field(step, "label"@)),
            )
            &&& json::field(entry, "result"@) == Some(
                batch::or_null(json::field(response, "result"@)),
            )
            &&& json::field(entry, "error"@) == Some(
                batch::or_null(json::field(response, "error"@)),
            )
        }),
{
    reveal_strlit("type");
    reveal_strlit("name");
    reveal_strlit("label");
    reveal_strlit("result");
    reveal_strlit("error");
    assert("type"@.len() == 4 && "type"@[0] == 't' && "name"@.len() == 4 && "name"@[0] == 'n'
        && "label"@.len() == 5 && "label"@[0] == 'l' && "result"@.len() == 6 && "error"@.len() == 5
        && "error"@[0] == 'e');
}

/// A call failed if its answer has an error, or its result says that it is one.
pub proof fn failures_are_told_by_the_answer(response: JsonView)
    ensures
        batch::failed(response) <==> (places::member(response, "error"@) matches Some(error)
            && error != JsonView::Null) || (places::member(response, "result"@) matches Some(result)
            && places::member(result, "isError"@) == Some(JsonView::Bool(true))),
{
}

/// A batch ends early only if a step failed and it or its step asks for that; it is then
/// told by the label of the step, or else by its tool.
pub proof fn failed_steps_end_a_batch(b: BatchView, response: JsonView)
    requires
        b.stopped is None,
    ensures
        ({
            let step = b.steps[b.index];
            let after = batch::batch_answered(b, response);
            let asked = match places::member(step, "on_error"@) {
                Some(JsonView::Str(on_error)) => on_error == "stop"@,
                _ => b.fail_fast,
            };
            &&& after.stopped is Some <==> batch::failed(response) && asked
            &&& after.stopped is Some ==> after.stopped->0 == (match places::member(step, "label"@) {
                Some(JsonView::Str(label)) => label,
                _ => match places::member(step, "name"@) {
                    Some(JsonView::Str(name)) => name,
                    _ => Seq::empty(),
                },
            })
        }),
{
    reveal_strlit("");
    assert(""@ =~= Seq::empty());
}

/// A step is done if it is whole: a sleep needs a natural number of milliseconds, a call a
/// tool and references that name something. Any other step fails the batch and does nothing.
pub proof fn only_whole_steps_are_done(b: BatchView)
    requires
        b.stopped is None,
        0 <= b.index < b.steps.len(),
    ensures
        ({
            let step = b.steps[b.index];
            let kind = places::member(step, "type"@);
            let sleeps = kind == Some(JsonView::Str("sleep_ms"@));
            let calls = kind == Some(JsonView::Str("tool"@));
            let ms = match places::member(step, "ms"@) {
                Some(JsonView::Number(json::NumberView::PosInt(n))) => Some(n),
                _ => None,
            };
            let named = places::member(step, "name"@) matches Some(JsonView::Str(_));
            let given = match places::member(step, "args"@) {
                Some(arguments) => arguments,
                None => JsonView::Object(Map::empty()),
            };
            let (after, action) = batch::batch_next(b);
            &&& sleeps && ms is Some <==> action is Sleep
            &&& action matches BatchActionView::Sleep { ms: n } ==> ms == Some(n)
            &&& calls && named && batch::refs_fine(given) <==> action is Call
            &&& action is Fail ==> after == b
            &&& action !is Finish
        }),
{
    reveal_strlit("sleep_ms");
    reveal_strlit("tool");
    assert("sleep_ms"@.len() == 8 && "tool"@.len() == 4);
}

/// A batch is over when all its steps are done or when one ended it, and then writes all the
/// results that there are.
pub proof fn batches_end(b: BatchView)
    ensures
        batch::batch_next(b).1 is Finish <==> b.stopped is Some || b.index >= b.steps.len(),
        batch::batch_next(b).1 matches BatchActionView::Finish { output, outcome } ==> output
            == json::json_pretty(JsonView::Array(b.results)) && outcome == (match b.stopped {
            Some(label) => OutcomeView::StoppedOnError(label),
            None => OutcomeView::Completed,
        }) && batch::batch_next(b).0 == b,
{
}

/// A script is a list of steps, in order; anything else is refused.
pub proof fn scripts_are_lists(path: Seq<char>, content: Result<JsonView, Seq<char>>)
    ensures
        batch::script_steps(path, content) is Ok <==> (content matches Ok(JsonView::Array(_))),
        content matches Ok(JsonView::Array(steps)) ==> batch::script_steps(path, content) == Ok::<
            _,
            Seq<char>,
        >(steps),
{
}

} // verus!
