//! Places in a JSON value, by which laws speak of what stands deep inside it.
use crate::json::JsonView;
use vstd::prelude::*;

verus! {

/// A step from a value into one of its parts.
pub enum Step {
    Key(Seq<char>),
    Item(int),
}

/// The part that a step leads to.
pub open spec fn part(v: JsonView, step: Step) -> Option<JsonView> {
    match (v, step) {
        (JsonView::Object(m), Step::Key(k)) => if m.contains_key(k) {
            Some(m[k])
        } else {
            None
        },
        (JsonView::Array(items), Step::Item(i)) => if 0 <= i < items.len() {
            Some(items[i])
        } else {
            None
        },
        _ => None,
    }
}

/// The member of an object that has this key.
pub open spec fn member(v: JsonView, key: Seq<char>) -> Option<JsonView> {
    part(v, Step::Key(key))
}

/// What stands at the end of some steps.
pub open spec fn at(v: JsonView, steps: Seq<Step>) -> Option<JsonView>
    decreases steps.len(),
{
    if steps.len() == 0 {
        Some(v)
    } else {
        match part(v, steps[0]) {
            Some(x) => at(x, steps.skip(1)),
            None => None,
        }
    }
}

/// Whether two values are of one make: the same keys, the same number of items, or else the
/// same value.
pub open spec fn alike(a: JsonView, b: JsonView) -> bool {
    match (a, b) {
        (JsonView::Object(m), JsonView::Object(n)) => m.dom() == n.dom(),
        (JsonView::Array(x), JsonView::Array(y)) => x.len() == y.len(),
        _ => a == b,
    }
}

/// Some steps with one in front.
pub open spec fn behind(step: Step, steps: Seq<Step>) -> Seq<Step> {
    seq![step] + steps
}

pub proof fn lemma_behind(v: JsonView, step: Step, steps: Seq<Step>)
    requires
        part(v, step) is Some,
    ensures
        at(v, behind(step, steps)) == at(part(v, step)->0, steps),
        behind(step, steps).skip(1) == steps,
        behind(step, steps)[0] == step,
{
    assert(behind(step, steps).skip(1) =~= steps);
}

} // verus!
