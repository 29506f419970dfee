//! JSON values: a plain tree that the rest of the library reads and builds, its
//! mathematical view, and the boundary to `serde_json`.
use crate::text;
use crate::text::{comes_before, same};
use vstd::prelude::*;

verus! {

/// A number as JSON writes it: a natural number that fits 64 bits, a negative
/// one that does, or anything else, given by its text.
pub enum NumberView {
    PosInt(u64),
    NegInt(i64),
    Float(Seq<char>),
}

/// A JSON value. An object is a map: the order of its keys carries no meaning.
pub enum JsonView {
    Null,
    Bool(bool),
    Number(NumberView),
    Str(Seq<char>),
    Array(Seq<JsonView>),
    Object(Map<Seq<char>, JsonView>),
}

/// `serde_json::Value`, carried opaquely.
#[verifier::external_type_specification]
#[verifier::external_body]
pub struct ExValue(serde_json::Value);

/// `serde_json::Number`, carried opaquely.
#[verifier::external_type_specification]
#[verifier::external_body]
pub struct ExNumber(serde_json::Number);

/// The tree that a `serde_json::Value` holds.
pub uninterp spec fn value_view(value: serde_json::Value) -> JsonView;

/// The number that a `serde_json::Number` holds.
pub uninterp spec fn number_view(number: serde_json::Number) -> NumberView;

/// What `serde_json::from_str` makes of a text: the value, or the text of its error.
pub uninterp spec fn json_parse(text: Seq<char>) -> Result<JsonView, Seq<char>>;

/// The compact text that `serde_json` writes for a value.
pub uninterp spec fn json_text(value: JsonView) -> Seq<char>;

/// The indented text that `serde_json` writes for a value.
pub uninterp spec fn json_pretty(value: JsonView) -> Seq<char>;

/// The floating point number that `serde_json` makes of a number.
pub uninterp spec fn floated(number: NumberView) -> NumberView;

/// A JSON value in memory. Where a key stands twice in an object, the last entry
/// counts.
#[derive(Debug)]
pub enum Json {
    Null,
    Bool(bool),
    Number(serde_json::Number),
    Str(String),
    Array(Vec<Json>),
    Object(Vec<(String, Json)>),
}

/// The value that a tree stands for.
pub open spec fn tree(j: Json) -> JsonView
    decreases j,
{
    match j {
        Json::Null => JsonView::Null,
        Json::Bool(b) => JsonView::Bool(b),
        Json::Number(n) => JsonView::Number(number_view(n)),
        Json::Str(s) => JsonView::Str(s@),
        Json::Array(items) => JsonView::Array(trees(items@)),
        Json::Object(fields) => JsonView::Object(members(fields@)),
    }
}

/// The values of a list of trees.
pub open spec fn trees(items: Seq<Json>) -> Seq<JsonView>
    decreases items,
{
    if items.len() == 0 {
        Seq::empty()
    } else {
        trees(items.drop_last()).push(tree(items.last()))
    }
}

/// The map that a list of entries stands for: a later entry replaces an earlier one.
pub open spec fn members(fields: Seq<(String, Json)>) -> Map<Seq<char>, JsonView>
    decreases fields,
{
    if fields.len() == 0 {
        Map::empty()
    } else {
        members(fields.drop_last()).insert(fields.last().0@, tree(fields.last().1))
    }
}

impl View for Json {
    type V = JsonView;

    open spec fn view(&self) -> JsonView {
        tree(*self)
    }
}

/// A `serde_json::Value` with its outermost layer laid open.
pub enum ValueParts {
    Null,
    Bool(bool),
    Number(serde_json::Number),
    Str(String),
    Array(Vec<serde_json::Value>),
    Object(Vec<(String, serde_json::Value)>),
}

/// The trees of a list of `serde_json` values.
pub open spec fn value_views(items: Seq<serde_json::Value>) -> Seq<JsonView> {
    items.map_values(|value: serde_json::Value| value_view(value))
}

/// The map that a list of `serde_json` entries stands for.
pub open spec fn value_members(fields: Seq<(String, serde_json::Value)>) -> Map<Seq<char>, JsonView>
    decreases fields.len(),
{
    if fields.len() == 0 {
        Map::empty()
    } else {
        value_members(fields.drop_last()).insert(fields.last().0@, value_view(fields.last().1))
    }
}

/// The value that an opened layer stands for.
pub open spec fn parts_view(parts: ValueParts) -> JsonView {
    match parts {
        ValueParts::Null => JsonView::Null,
        ValueParts::Bool(b) => JsonView::Bool(b),
        ValueParts::Number(n) => JsonView::Number(number_view(n)),
        ValueParts::Str(s) => JsonView::Str(s@),
        ValueParts::Array(items) => JsonView::Array(value_views(items@)),
        ValueParts::Object(fields) => JsonView::Object(value_members(fields@)),
    }
}

/// No two entries have the same key.
pub open spec fn distinct_keys(fields: Seq<(String, serde_json::Value)>) -> bool {
    forall|i: int, j: int|
        0 <= i < j < fields.len() ==> (#[trigger] fields[i]).0@ != (#[trigger] fields[j]).0@
}

/// Whether arrays and objects are nested at most `depth` deep in `v`.
pub open spec fn shallow(v: JsonView, depth: nat) -> bool
    decreases depth,
{
    match v {
        JsonView::Array(items) => depth > 0 && forall|i: int|
            0 <= i < items.len() ==> shallow(#[trigger] items[i], (depth - 1) as nat),
        JsonView::Object(m) => depth > 0 && forall|k: Seq<char>| #[trigger]
            m.contains_key(k) ==> shallow(m[k], (depth - 1) as nat),
        _ => true,
    }
}

/// Whether no number in `v`, down to nesting `depth`, has a fraction or an exponent
/// or lies outside 64 bits.
pub open spec fn whole_numbers(v: JsonView, depth: nat) -> bool
    decreases depth,
{
    match v {
        JsonView::Number(n) => !(n is Float),
        JsonView::Array(items) => depth > 0 ==> forall|i: int|
            0 <= i < items.len() ==> whole_numbers(#[trigger] items[i], (depth - 1) as nat),
        JsonView::Object(m) => depth > 0 ==> forall|k: Seq<char>| #[trigger]
            m.contains_key(k) ==> whole_numbers(m[k], (depth - 1) as nat),
        _ => true,
    }
}

/// Whether reading `text` gives `v`, where `v` holds whole numbers only and is not nested
/// deeper than a reader accepts.
pub open spec fn reads_back(v: JsonView, text: Seq<char>) -> bool {
    shallow(v, MAX_DEPTH as nat) && whole_numbers(v, MAX_DEPTH as nat) ==> json_parse(text) == Ok::<
        JsonView,
        Seq<char>,
    >(v)
}

/// The deepest nesting that `serde_json` reads.
pub const MAX_DEPTH: u8 = 127;

/// `serde_json::from_str` into a `Value`; an error is handed on as its text. What it
/// reads is nested no deeper than its recursion limit.
#[verifier::external_body]
fn parse_value(text: &str) -> (r: Result<serde_json::Value, String>)
    ensures
        match r {
            Ok(value) => json_parse(text@) == Ok::<JsonView, Seq<char>>(value_view(value))
                && shallow(value_view(value), MAX_DEPTH as nat),
            Err(message) => json_parse(text@) == Err::<JsonView, Seq<char>>(message@),
        },
{
    serde_json::from_str::<serde_json::Value>(text).map_err(|error| error.to_string())
}

/// The variants of `serde_json::Value`, with the entries of its map as a list.
#[verifier::external_body]
fn open_value(value: serde_json::Value) -> (r: ValueParts)
    ensures
        parts_view(r) == value_view(value),
        match r {
            ValueParts::Object(fields) => distinct_keys(fields@),
            _ => true,
        },
{
    match value {
        serde_json::Value::Null => ValueParts::Null,
        serde_json::Value::Bool(b) => ValueParts::Bool(b),
        serde_json::Value::Number(n) => ValueParts::Number(n),
        serde_json::Value::String(s) => ValueParts::Str(s),
        serde_json::Value::Array(items) => ValueParts::Array(items),
        serde_json::Value::Object(map) => ValueParts::Object(map.into_iter().collect()),
    }
}

/// The variants of `serde_json::Value` from their contents; its map is collected from
/// the list of entries.
#[verifier::external_body]
fn close_value(parts: ValueParts) -> (r: serde_json::Value)
    requires
        parts matches ValueParts::Object(fields) ==> distinct_keys(fields@),
    ensures
        value_view(r) == parts_view(parts),
{
    match parts {
        ValueParts::Null => serde_json::Value::Null,
        ValueParts::Bool(b) => serde_json::Value::Bool(b),
        ValueParts::Number(n) => serde_json::Value::Number(n),
        ValueParts::Str(s) => serde_json::Value::String(s),
        ValueParts::Array(items) => serde_json::Value::Array(items),
        ValueParts::Object(fields) => serde_json::Value::Object(fields.into_iter().collect()),
    }
}

/// The `Display` of `serde_json::Value`, its compact form. Reading the text again gives
/// the value back where it holds whole numbers only and is not nested too deep; a
/// fraction may come back rounded.
#[verifier::external_body]
fn value_text(value: &serde_json::Value) -> (r: String)
    ensures
        r@ == json_text(value_view(*value)),
        reads_back(value_view(*value), r@),
{
    value.to_string()
}

/// `serde_json::to_string_pretty`, which fails on no `Value`: every key is a string and
/// the text is written to memory.
#[verifier::external_body]
fn value_pretty(value: &serde_json::Value) -> (r: Result<String, String>)
    ensures
        match r {
            Ok(text) => text@ == json_pretty(value_view(*value)),
            Err(_) => false,
        },
{
    serde_json::to_string_pretty(value).map_err(|error| error.to_string())
}

/// `Number::as_u64`: the number, if it is natural and fits.
#[verifier::external_body]
fn number_as_u64(number: &serde_json::Number) -> (r: Option<u64>)
    ensures
        r == natural(number_view(*number)),
{
    number.as_u64()
}

/// `Number::as_i64`: the number, if it is whole and fits.
#[verifier::external_body]
fn number_as_i64(number: &serde_json::Number) -> (r: Option<i64>)
    ensures
        r == whole(number_view(*number)),
{
    number.as_i64()
}

/// `Number::from` a `u64`.
#[verifier::external_body]
fn number_from_u64(n: u64) -> (r: serde_json::Number)
    ensures
        number_view(r) == NumberView::PosInt(n),
{
    serde_json::Number::from(n)
}

/// `Number::from` an `i64`.
#[verifier::external_body]
fn number_from_i64(n: i64) -> (r: serde_json::Number)
    ensures
        number_view(r) == integer(n),
{
    serde_json::Number::from(n)
}

/// `Number::clone`.
#[verifier::external_body]
fn number_clone(number: &serde_json::Number) -> (r: serde_json::Number)
    ensures
        number_view(r) == number_view(*number),
{
    number.clone()
}

/// `Number::as_f64` and, of what it gives, `Number::from_f64`: the number in floating point.
/// A number always has such a form, since it is finite, and one that is a floating point
/// number already stays as it is. To which neighbour a large whole number is rounded is not
/// said.
#[verifier::external_body]
fn number_as_float(number: &serde_json::Number) -> (r: Option<serde_json::Number>)
    ensures
        match r {
            Some(float) => number_view(float) == floated(number_view(*number)) && number_view(
                float,
            ) is Float && (number_view(*number) is Float ==> number_view(float) == number_view(
                *number,
            )),
            None => false,
        },
{
    number.as_f64().and_then(serde_json::Number::from_f64)
}

/// The number as a `u64`, if it is one.
pub open spec fn natural(n: NumberView) -> Option<u64> {
    match n {
        NumberView::PosInt(u) => Some(u),
        _ => None,
    }
}

/// The number as an `i64`, if it is one.
pub open spec fn whole(n: NumberView) -> Option<i64> {
    match n {
        NumberView::PosInt(u) => if u <= i64::MAX {
            Some(u as i64)
        } else {
            None
        },
        NumberView::NegInt(i) => Some(i),
        NumberView::Float(_) => None,
    }
}

/// An `i64` as a JSON number.
pub open spec fn integer(n: i64) -> NumberView {
    if n < 0 {
        NumberView::NegInt(n)
    } else {
        NumberView::PosInt(n as u64)
    }
}

/// The member of an object under a key.
pub open spec fn field(v: JsonView, key: Seq<char>) -> Option<JsonView> {
    match v {
        JsonView::Object(m) => if m.contains_key(key) {
            Some(m[key])
        } else {
            None
        },
        _ => None,
    }
}

/// An object with one member set; anything else unchanged.
pub open spec fn put(v: JsonView, key: Seq<char>, x: JsonView) -> JsonView {
    match v {
        JsonView::Object(m) => JsonView::Object(m.insert(key, x)),
        _ => v,
    }
}

/// An object without one member; anything else unchanged.
pub open spec fn without(v: JsonView, key: Seq<char>) -> JsonView {
    match v {
        JsonView::Object(m) => JsonView::Object(m.remove(key)),
        _ => v,
    }
}

/// An array with one more item; anything else unchanged.
pub open spec fn appended(v: JsonView, x: JsonView) -> JsonView {
    match v {
        JsonView::Array(items) => JsonView::Array(items.push(x)),
        _ => v,
    }
}

/// The text of a string value.
pub open spec fn text_of(v: JsonView) -> Option<Seq<char>> {
    match v {
        JsonView::Str(s) => Some(s),
        _ => None,
    }
}

/// The text of a member.
pub open spec fn text_field(v: JsonView, key: Seq<char>) -> Option<Seq<char>> {
    match field(v, key) {
        Some(inner) => text_of(inner),
        None => None,
    }
}

/// The value of a tree, or the message of an error.
pub open spec fn result_view(r: Result<Json, String>) -> Result<JsonView, Seq<char>> {
    match r {
        Ok(j) => Ok(j@),
        Err(message) => Err(message@),
    }
}

/// A number in floating point.
pub open spec fn float_of(v: JsonView) -> Option<JsonView> {
    match v {
        JsonView::Number(n) => Some(JsonView::Number(floated(n))),
        _ => None,
    }
}

/// The `u64` of a number value.
pub open spec fn u64_of(v: JsonView) -> Option<u64> {
    match v {
        JsonView::Number(n) => natural(n),
        _ => None,
    }
}

/// The `u64` of a member.
pub open spec fn u64_field(v: JsonView, key: Seq<char>) -> Option<u64> {
    match field(v, key) {
        Some(inner) => u64_of(inner),
        None => None,
    }
}

/// The `i64` of a number value.
pub open spec fn i64_of(v: JsonView) -> Option<i64> {
    match v {
        JsonView::Number(n) => whole(n),
        _ => None,
    }
}

/// The flag of a boolean value.
pub open spec fn bool_of(v: JsonView) -> Option<bool> {
    match v {
        JsonView::Bool(b) => Some(b),
        _ => None,
    }
}

/// The flag of a member.
pub open spec fn bool_field(v: JsonView, key: Seq<char>) -> Option<bool> {
    match field(v, key) {
        Some(inner) => bool_of(inner),
        None => None,
    }
}

/// The items of an array value.
pub open spec fn items_of(v: JsonView) -> Option<Seq<JsonView>> {
    match v {
        JsonView::Array(items) => Some(items),
        _ => None,
    }
}

/// The items of an array member.
pub open spec fn items_field(v: JsonView, key: Seq<char>) -> Option<Seq<JsonView>> {
    match field(v, key) {
        Some(inner) => items_of(inner),
        None => None,
    }
}

/// A natural number as a value.
pub open spec fn num(n: u64) -> JsonView {
    JsonView::Number(NumberView::PosInt(n))
}

/// A string as a value.
pub open spec fn jstr(s: Seq<char>) -> JsonView {
    JsonView::Str(s)
}

/// The empty array.
pub open spec fn empty_array() -> JsonView {
    JsonView::Array(Seq::empty())
}

/// The empty object.
pub open spec fn empty_object() -> JsonView {
    JsonView::Object(Map::empty())
}

pub proof fn lemma_trees_index(items: Seq<Json>)
    ensures
        trees(items).len() == items.len(),
        forall|i: int| 0 <= i < items.len() ==> #[trigger] trees(items)[i] == tree(items[i]),
    decreases items.len(),
{
    if items.len() > 0 {
        lemma_trees_index(items.drop_last());
    }
}

pub proof fn lemma_trees_push(items: Seq<Json>, j: Json)
    ensures
        trees(items.push(j)) == trees(items).push(tree(j)),
{
    assert(items.push(j).drop_last() =~= items);
}

/// The entry that counts for a key is the last one.
proof fn lemma_members_last(fields: Seq<(String, Json)>, i: int)
    requires
        0 <= i < fields.len(),
        forall|j: int| i < j < fields.len() ==> (#[trigger] fields[j]).0@ != fields[i].0@,
    ensures
        members(fields).contains_key(fields[i].0@),
        members(fields)[fields[i].0@] == tree(fields[i].1),
    decreases fields.len(),
{
    if i < fields.len() - 1 {
        assert(fields.drop_last()[i] == fields[i]);
        assert forall|j: int| i < j < fields.drop_last().len() implies (
        #[trigger] fields.drop_last()[j]).0@ != fields.drop_last()[i].0@ by {
            assert(fields.drop_last()[j] == fields[j]);
        }
        lemma_members_last(fields.drop_last(), i);
        assert(fields[fields.len() - 1].0@ != fields[i].0@);
    }
}

/// Whether an entry is the last one with its key.
pub open spec fn counts(fields: Seq<(String, Json)>, i: int) -> bool {
    0 <= i < fields.len() && forall|j: int|
        i < j < fields.len() ==> (#[trigger] fields[j]).0@ != fields[i].0@
}

/// The member under a key is the value of the entry that counts for it.
pub proof fn lemma_members_entry(fields: Seq<(String, Json)>, key: Seq<char>) -> (i: int)
    requires
        members(fields).contains_key(key),
    ensures
        counts(fields, i),
        fields[i].0@ == key,
        members(fields)[key] == tree(fields[i].1),
    decreases fields.len(),
{
    let last = fields.len() - 1;
    if fields[last].0@ == key {
        last
    } else {
        let front = fields.drop_last();
        let i = lemma_members_entry(front, key);
        assert forall|j: int| i < j < fields.len() implies (#[trigger] fields[j]).0@
            != fields[i].0@ by {
            if j < last {
                assert(front[j] == fields[j]);
            }
        }
        i
    }
}

/// An entry that counts gives the member under its key.
pub proof fn lemma_entry_member(fields: Seq<(String, Json)>, i: int)
    requires
        counts(fields, i),
    ensures
        members(fields).contains_key(fields[i].0@),
        members(fields)[fields[i].0@] == tree(fields[i].1),
{
    lemma_members_last(fields, i);
}

/// Whether an entry is the last one with its key.
pub fn entry_counts(fields: &Vec<(String, Json)>, i: usize) -> (r: bool)
    requires
        i < fields.len(),
    ensures
        r == counts(fields@, i as int),
{
    let mut j: usize = i + 1;
    while j < fields.len()
        invariant
            i < j <= fields.len(),
            forall|k: int| i < k < j ==> (#[trigger] fields[k]).0@ != fields[i as int].0@,
        decreases fields.len() - j,
    {
        if same(fields[j].0.as_str(), fields[i].0.as_str()) {
            return false;
        }
        j = j + 1;
    }
    true
}

/// Whether keys are in ascending order.
pub open spec fn ascending(keys: Seq<Seq<char>>) -> bool {
    forall|i: int, j: int|
        0 <= i < j < keys.len() ==> text::before(#[trigger] keys[i], #[trigger] keys[j])
}

/// The keys of an object in ascending order, which is how `serde_json` keeps them.
pub open spec fn key_order(m: Map<Seq<char>, JsonView>) -> Seq<Seq<char>> {
    choose|keys: Seq<Seq<char>>| #[trigger] ascending(keys) && keys.to_set() == m.dom()
}

/// There is only one way to put keys in ascending order.
pub proof fn lemma_one_order(a: Seq<Seq<char>>, b: Seq<Seq<char>>)
    requires
        ascending(a),
        ascending(b),
        a.to_set() == b.to_set(),
    ensures
        a == b,
    decreases a.len(),
{
    if a.len() == 0 {
        if b.len() > 0 {
            assert(b.to_set().contains(b[0]));
            assert(a.contains(b[0]));
        }
        assert(a =~= b);
    } else {
        assert(a.to_set().contains(a[0]));
        assert(b.contains(a[0]));
        let j = choose|j: int| 0 <= j < b.len() && b[j] == a[0];
        assert(b.to_set().contains(b[0]));
        assert(a.contains(b[0]));
        let i = choose|i: int| 0 <= i < a.len() && a[i] == b[0];
        text::one_comes_first(a[0], b[0]);
        assert(a[0] == b[0]);
        let x = a.skip(1);
        let y = b.skip(1);
        assert forall|k: Seq<char>| x.to_set().contains(k) <==> a.to_set().contains(k) && k
            != a[0] by {
            if x.contains(k) {
                let w = choose|w: int| 0 <= w < x.len() && x[w] == k;
                assert(a[w + 1] == k);
                text::one_comes_first(a[0], a[w + 1]);
            }
            if a.contains(k) && k != a[0] {
                let w = choose|w: int| 0 <= w < a.len() && a[w] == k;
                assert(x[w - 1] == k);
            }
        }
        assert forall|k: Seq<char>| y.to_set().contains(k) <==> b.to_set().contains(k) && k
            != b[0] by {
            if y.contains(k) {
                let w = choose|w: int| 0 <= w < y.len() && y[w] == k;
                assert(b[w + 1] == k);
                text::one_comes_first(b[0], b[w + 1]);
            }
            if b.contains(k) && k != b[0] {
                let w = choose|w: int| 0 <= w < b.len() && b[w] == k;
                assert(y[w - 1] == k);
            }
        }
        assert(x.to_set() =~= y.to_set());
        lemma_one_order(x, y);
        assert(a =~= seq![a[0]] + x);
        assert(b =~= seq![b[0]] + y);
    }
}

/// The keys of some entries of an object.
pub open spec fn keys_at(fields: Seq<(String, Json)>, places: Seq<usize>) -> Seq<Seq<char>> {
    Seq::new(places.len(), |p: int| fields[places[p] as int].0@)
}

/// Where the entries of an object stand that count, in the order of their keys.
pub fn in_key_order(fields: &Vec<(String, Json)>) -> (r: Vec<usize>)
    ensures
        forall|p: int| 0 <= p < r.len() ==> counts(fields@, (#[trigger] r@[p]) as int),
        keys_at(fields@, r@) == key_order(members(fields@)),
        keys_at(fields@, r@).to_set() == members(fields@).dom(),
{
    let ghost all = fields@;
    let mut order: Vec<usize> = Vec::new();
    let mut i: usize = 0;
    while i < fields.len()
        invariant
            i <= fields.len(),
            all == fields@,
            forall|p: int|
                0 <= p < order.len() ==> (#[trigger] order@[p]) < i && counts(
                    all,
                    order@[p] as int,
                ),
            forall|j: int|
                0 <= j < i && #[trigger] counts(all, j) ==> order@.contains(j as usize),
            ascending(keys_at(all, order@)),
        decreases fields.len() - i,
    {
        if entry_counts(fields, i) {
            let ghost key = all[i as int].0@;
            let ghost old_keys = keys_at(all, order@);
            let ghost old_order = order@;
            let mut p: usize = 0;
            while p < order.len() && comes_before(
                fields[order[p]].0.as_str(),
                fields[i].0.as_str(),
            )
                invariant
                    i < fields.len(),
                    p <= order.len(),
                    all == fields@,
                    key == all[i as int].0@,
                    old_order == order@,
                    old_keys == keys_at(all, order@),
                    forall|q: int|
                        0 <= q < order.len() ==> (#[trigger] order@[q]) < i && counts(
                            all,
                            order@[q] as int,
                        ),
                    forall|q: int| 0 <= q < p ==> text::before(#[trigger] old_keys[q], key),
                decreases order.len() - p,
            {
                assert(old_keys[p as int] == all[order@[p as int] as int].0@);
                p = p + 1;
            }
            order.insert(p, i);
            proof {
                let keys = keys_at(all, order@);
                assert(keys =~= old_keys.insert(p as int, key));
                assert forall|q: int| p <= q < old_keys.len() implies text::before(
                    key,
                    #[trigger] old_keys[q],
                ) by {
                    let at = old_order[p as int] as int;
                    assert(counts(all, at));
                    assert(all[i as int].0@ != all[at].0@);
                    assert(old_keys[p as int] == all[at].0@);
                    text::one_comes_first(old_keys[p as int], key);
                    if q > p {
                        text::before_is_transitive(key, old_keys[p as int], old_keys[q]);
                    }
                }
                assert forall|a: int, b: int| 0 <= a < b < keys.len() implies text::before(
                    #[trigger] keys[a],
                    #[trigger] keys[b],
                ) by {
                    let x = if a <= p { a } else { a - 1 };
                    let y = if b <= p { b } else { b - 1 };
                    if a == p {
                        assert(keys[b] == old_keys[b - 1]);
                    } else if b == p {
                        assert(keys[a] == old_keys[a]);
                    } else {
                        assert(keys[a] == old_keys[x] && keys[b] == old_keys[y]);
                    }
                }
                assert forall|j: int| 0 <= j < i + 1 && #[trigger] counts(
                    all,
                    j,
                ) implies order@.contains(j as usize) by {
                    if j < i {
                        assert(old_order.contains(j as usize));
                        let w = choose|w: int| 0 <= w < old_order.len() && old_order[w] == j;
                        assert(order@[if w < p { w } else { w + 1 }] == j);
                    } else {
                        assert(order@[p as int] == i);
                    }
                }
                assert forall|q: int| 0 <= q < order.len() implies (#[trigger] order@[q]) < i + 1
                    && counts(all, order@[q] as int) by {
                    if q < p {
                        assert(order@[q] == old_order[q]);
                    } else if q > p {
                        assert(order@[q] == old_order[q - 1]);
                    }
                }
            }
        }
        i = i + 1;
    }
    proof {
        let keys = keys_at(all, order@);
        let m = members(all);
        assert forall|k: Seq<char>| keys.to_set().contains(k) <==> m.dom().contains(k) by {
            if keys.contains(k) {
                let p = choose|p: int| 0 <= p < keys.len() && keys[p] == k;
                lemma_entry_member(all, order@[p] as int);
            }
            if m.contains_key(k) {
                let j = lemma_members_entry(all, k);
                assert(order@.contains(j as usize));
                let p = choose|p: int| 0 <= p < order.len() && order@[p] == j as usize;
                assert(keys[p] == k);
            }
        }
        assert(keys.to_set() =~= m.dom());
        lemma_one_order(keys, key_order(m));
    }
    order
}

proof fn lemma_members_absent(fields: Seq<(String, Json)>, key: Seq<char>)
    requires
        forall|j: int| 0 <= j < fields.len() ==> (#[trigger] fields[j]).0@ != key,
    ensures
        !members(fields).contains_key(key),
    decreases fields.len(),
{
    if fields.len() > 0 {
        assert forall|j: int| 0 <= j < fields.drop_last().len() implies (
        #[trigger] fields.drop_last()[j]).0@ != key by {
            assert(fields.drop_last()[j] == fields[j]);
        }
        lemma_members_absent(fields.drop_last(), key);
        assert(fields[fields.len() - 1].0@ != key);
    }
}

proof fn lemma_members_push(fields: Seq<(String, Json)>, entry: (String, Json))
    ensures
        members(fields.push(entry)) == members(fields).insert(entry.0@, tree(entry.1)),
{
    assert(fields.push(entry).drop_last() =~= fields);
}

/// Replacing the value of a key's last entry sets the member.
proof fn lemma_members_update(fields: Seq<(String, Json)>, i: int, entry: (String, Json))
    requires
        0 <= i < fields.len(),
        entry.0@ == fields[i].0@,
        forall|j: int| i < j < fields.len() ==> (#[trigger] fields[j]).0@ != fields[i].0@,
    ensures
        members(fields.update(i, entry)) == members(fields).insert(entry.0@, tree(entry.1)),
    decreases fields.len(),
{
    let last = fields.len() - 1;
    let updated = fields.update(i, entry);
    if i < last {
        let front = fields.drop_last();
        assert(updated.drop_last() =~= front.update(i, entry));
        assert forall|j: int| i < j < front.len() implies (#[trigger] front[j]).0@
            != front[i].0@ by {
            assert(front[j] == fields[j]);
        }
        lemma_members_update(front, i, entry);
        assert(fields[last].0@ != fields[i].0@);
        assert(members(updated) =~= members(fields).insert(entry.0@, tree(entry.1)));
    } else {
        assert(updated.drop_last() =~= fields.drop_last());
        assert(members(updated) =~= members(fields).insert(entry.0@, tree(entry.1)));
    }
}

/// The index of a key's last entry.
fn last_entry(fields: &Vec<(String, Json)>, key: &str) -> (r: Option<usize>)
    ensures
        match r {
            Some(i) => i < fields.len() && fields[i as int].0@ == key@ && members(
                fields@,
            ).contains_key(key@) && members(fields@)[key@] == tree(fields[i as int].1)
                && forall|j: int| i < j < fields.len() ==> (#[trigger] fields[j]).0@ != key@,
            None => !members(fields@).contains_key(key@) && forall|j: int|
                0 <= j < fields.len() ==> (#[trigger] fields[j]).0@ != key@,
        },
{
    let mut i: usize = fields.len();
    while i > 0
        invariant
            i <= fields.len(),
            forall|j: int| i <= j < fields.len() ==> (#[trigger] fields[j]).0@ != key@,
        decreases i,
    {
        i = i - 1;
        if same(fields[i].0.as_str(), key) {
            proof {
                lemma_members_last(fields@, i as int);
            }
            return Some(i);
        }
    }
    proof {
        lemma_members_absent(fields@, key@);
    }
    None
}

impl Json {
    /// A string value.
    pub fn str(s: &str) -> (r: Json)
        ensures
            r@ == jstr(s@),
    {
        Json::Str(s.to_string())
    }

    /// A natural number.
    pub fn uint(n: u64) -> (r: Json)
        ensures
            r@ == num(n),
    {
        Json::Number(number_from_u64(n))
    }

    /// A whole number.
    pub fn signed(n: i64) -> (r: Json)
        ensures
            r@ == JsonView::Number(integer(n)),
    {
        Json::Number(number_from_i64(n))
    }

    /// The empty object.
    pub fn object() -> (r: Json)
        ensures
            r@ == empty_object(),
    {
        let fields: Vec<(String, Json)> = Vec::new();
        Json::Object(fields)
    }

    /// The empty array.
    pub fn array() -> (r: Json)
        ensures
            r@ == JsonView::Array(Seq::empty()),
    {
        let items: Vec<Json> = Vec::new();
        Json::Array(items)
    }

    /// The array with one more item.
    pub fn and(self, item: Json) -> (r: Json)
        ensures
            r@ == appended(self@, item@),
    {
        match self {
            Json::Array(items) => {
                let mut items = items;
                proof {
                    lemma_trees_push(items@, item);
                }
                items.push(item);
                Json::Array(items)
            },
            other => other,
        }
    }

    /// The object with one more member.
    pub fn with(self, key: &str, value: Json) -> (r: Json)
        ensures
            r@ == put(self@, key@, value@),
    {
        let mut j = self;
        j.set(key, value);
        j
    }

    /// Sets a member of an object; leaves anything else alone.
    pub fn set(&mut self, key: &str, value: Json)
        ensures
            final(self)@ == put(old(self)@, key@, value@),
    {
        if let Json::Object(fields) = self {
            match last_entry(fields, key) {
                Some(i) => {
                    let entry = (key.to_string(), value);
                    proof {
                        lemma_members_update(fields@, i as int, entry);
                    }
                    fields.set(i, entry);
                },
                None => {
                    let entry = (key.to_string(), value);
                    proof {
                        lemma_members_push(fields@, entry);
                    }
                    fields.push(entry);
                },
            }
        }
    }

    /// The member of an object under a key.
    pub fn get(&self, key: &str) -> (r: Option<&Json>)
        ensures
            match r {
                Some(j) => field(self@, key@) == Some((*j)@),
                None => field(self@, key@) is None,
            },
    {
        match self {
            Json::Object(fields) => match last_entry(fields, key) {
                Some(i) => Some(&fields[i].1),
                None => None,
            },
            _ => None,
        }
    }

    /// The member of an object under a key, to be changed in place.
    pub fn get_mut(&mut self, key: &str) -> (r: Option<&mut Json>)
        ensures
            match r {
                Some(j) => field(old(self)@, key@) == Some((*j)@) && final(self)@ == put(
                    old(self)@,
                    key@,
                    (*final(j))@,
                ),
                None => field(old(self)@, key@) is None && final(self)@ == old(self)@,
            },
    {
        match self {
            Json::Object(fields) => match last_entry(fields, key) {
                Some(i) => {
                    let ghost before = fields@;
                    proof {
                        assert forall|e: (String, Json)| e.0@ == key@ implies members(
                            #[trigger] before.update(i as int, e),
                        ) == members(before).insert(key@, tree(e.1)) by {
                            lemma_members_update(before, i as int, e);
                        }
                    }
                    let entry = &mut fields[i];
                    Some(&mut entry.1)
                },
                None => None,
            },
            _ => None,
        }
    }

    /// Removes a member of an object; tells whether it was there.
    pub fn remove(&mut self, key: &str) -> (r: bool)
        ensures
            r == (field(old(self)@, key@) is Some),
            final(self)@ == without(old(self)@, key@),
    {
        if let Json::Object(fields) = self {
            let ghost all = fields@;
            let mut found = false;
            let mut kept: Vec<(String, Json)> = Vec::new();
            let ghost mut i: int = 0;
            let mut rest: Vec<(String, Json)> = Vec::new();
            std::mem::swap(fields, &mut rest);
            let mut rest = reversed(rest);
            while rest.len() > 0
                invariant
                    0 <= i <= all.len(),
                    rest@ == all.skip(i).reverse(),
                    found == members(all.take(i)).contains_key(key@),
                    members(kept@) == members(all.take(i)).remove(key@),
                decreases rest.len(),
            {
                let entry = rest.pop().unwrap();
                proof {
                    assert(entry == all[i]);
                    assert(all.take(i + 1).drop_last() =~= all.take(i));
                    assert(all.skip(i).reverse().drop_last() =~= all.skip(i + 1).reverse());
                }
                if same(entry.0.as_str(), key) {
                    found = true;
                    assert(members(kept@) =~= members(all.take(i + 1)).remove(key@));
                } else {
                    proof {
                        lemma_members_push(kept@, entry);
                    }
                    kept.push(entry);
                    assert(members(kept@) =~= members(all.take(i + 1)).remove(key@));
                }
                proof {
                    i = i + 1;
                }
            }
            assert(all.take(i) =~= all);
            *fields = kept;
            found
        } else {
            false
        }
    }

    /// The item of an array at an index.
    pub fn item(&self, index: usize) -> (r: Option<&Json>)
        ensures
            match r {
                Some(j) => self@ is Array && index < self@->Array_0.len()
                    && self@->Array_0[index as int] == (*j)@,
                None => !(self@ is Array) || index >= self@->Array_0.len(),
            },
    {
        match self {
            Json::Array(items) => {
                proof {
                    lemma_trees_index(items@);
                }
                if index < items.len() {
                    Some(&items[index])
                } else {
                    None
                }
            },
            _ => None,
        }
    }

    /// The text of a string.
    pub fn as_str(&self) -> (r: Option<&str>)
        ensures
            match r {
                Some(s) => text_of(self@) == Some(s@),
                None => text_of(self@) is None,
            },
    {
        match self {
            Json::Str(s) => Some(s.as_str()),
            _ => None,
        }
    }

    /// A natural number that fits 64 bits.
    pub fn as_u64(&self) -> (r: Option<u64>)
        ensures
            r == u64_of(self@),
    {
        match self {
            Json::Number(n) => number_as_u64(n),
            _ => None,
        }
    }

    /// A number in floating point.
    pub fn as_float(&self) -> (r: Option<Json>)
        ensures
            match r {
                Some(float) => float_of(self@) == Some(float@),
                None => float_of(self@) is None,
            },
    {
        match self {
            Json::Number(n) => match number_as_float(n) {
                Some(float) => Some(Json::Number(float)),
                None => None,
            },
            _ => None,
        }
    }

    /// A whole number that fits 64 bits with its sign.
    pub fn as_i64(&self) -> (r: Option<i64>)
        ensures
            r == i64_of(self@),
    {
        match self {
            Json::Number(n) => number_as_i64(n),
            _ => None,
        }
    }

    /// A truth value.
    pub fn as_bool(&self) -> (r: Option<bool>)
        ensures
            r == bool_of(self@),
    {
        match self {
            Json::Bool(b) => Some(*b),
            _ => None,
        }
    }

    /// The items of an array.
    pub fn as_array(&self) -> (r: Option<&Vec<Json>>)
        ensures
            match r {
                Some(items) => items_of(self@) == Some(trees(items@)),
                None => items_of(self@) is None,
            },
    {
        match self {
            Json::Array(items) => Some(items),
            _ => None,
        }
    }

    /// Whether the value is `null`.
    pub fn is_null(&self) -> (r: bool)
        ensures
            r == (self@ is Null),
    {
        match self {
            Json::Null => true,
            _ => false,
        }
    }

    /// Whether the value is an object.
    pub fn is_object(&self) -> (r: bool)
        ensures
            r == (self@ is Object),
    {
        match self {
            Json::Object(_) => true,
            _ => false,
        }
    }

    /// The text of a member.
    pub fn get_str(&self, key: &str) -> (r: Option<&str>)
        ensures
            match r {
                Some(s) => text_field(self@, key@) == Some(s@),
                None => text_field(self@, key@) is None,
            },
    {
        match self.get(key) {
            Some(j) => j.as_str(),
            None => None,
        }
    }

    /// The natural number of a member.
    pub fn get_u64(&self, key: &str) -> (r: Option<u64>)
        ensures
            r == u64_field(self@, key@),
    {
        match self.get(key) {
            Some(j) => j.as_u64(),
            None => None,
        }
    }

    /// The truth value of a member.
    pub fn get_bool(&self, key: &str) -> (r: Option<bool>)
        ensures
            r == bool_field(self@, key@),
    {
        match self.get(key) {
            Some(j) => j.as_bool(),
            None => None,
        }
    }

    /// The items of an array member.
    pub fn get_array(&self, key: &str) -> (r: Option<&Vec<Json>>)
        ensures
            match r {
                Some(items) => items_field(self@, key@) == Some(trees(items@)),
                None => items_field(self@, key@) is None,
            },
    {
        match self.get(key) {
            Some(j) => j.as_array(),
            None => None,
        }
    }

    /// A copy of the value.
    pub fn copy(&self) -> (r: Json)
        ensures
            r@ == self@,
        decreases self,
    {
        match self {
            Json::Null => Json::Null,
            Json::Bool(b) => Json::Bool(*b),
            Json::Number(n) => Json::Number(number_clone(n)),
            Json::Str(s) => Json::Str(s.clone()),
            Json::Array(items) => {
                let mut copied: Vec<Json> = Vec::new();
                let mut i: usize = 0;
                while i < items.len()
                    invariant
                        i <= items.len(),
                        *self == Json::Array(*items),
                        trees(copied@) == trees(items@.take(i as int)),
                    decreases items.len() - i,
                {
                    assert(decreases_to!(*self => self->Array_0));
                    assert(decreases_to!(self->Array_0@ => self->Array_0@[i as int]));
                    let item = items[i].copy();
                    proof {
                        lemma_trees_push(copied@, item);
                        lemma_trees_push(items@.take(i as int), items@[i as int]);
                        assert(items@.take(i as int).push(items@[i as int]) =~= items@.take(i + 1));
                    }
                    copied.push(item);
                    i = i + 1;
                }
                assert(items@.take(i as int) =~= items@);
                Json::Array(copied)
            },
            Json::Object(fields) => {
                let mut copied: Vec<(String, Json)> = Vec::new();
                let mut i: usize = 0;
                while i < fields.len()
                    invariant
                        i <= fields.len(),
                        *self == Json::Object(*fields),
                        members(copied@) == members(fields@.take(i as int)),
                    decreases fields.len() - i,
                {
                    assert(decreases_to!(*self => self->Object_0));
                    assert(decreases_to!(self->Object_0@ => self->Object_0@[i as int]));
                    assert(decreases_to!(fields@[i as int] => fields@[i as int].1));
                    let entry = (fields[i].0.clone(), fields[i].1.copy());
                    proof {
                        lemma_members_push(copied@, entry);
                        lemma_members_push(fields@.take(i as int), fields@[i as int]);
                        assert(fields@.take(i as int).push(fields@[i as int]) =~= fields@.take(
                            i + 1,
                        ));
                    }
                    copied.push(entry);
                    i = i + 1;
                }
                assert(fields@.take(i as int) =~= fields@);
                Json::Object(copied)
            },
        }
    }

    /// Reads a text; an error is given as its message.
    pub fn parse(text: &str) -> (r: Result<Json, String>)
        ensures
            match r {
                Ok(j) => json_parse(text@) == Ok::<JsonView, Seq<char>>(j@) && shallow(
                    j@,
                    MAX_DEPTH as nat,
                ),
                Err(message) => json_parse(text@) == Err::<JsonView, Seq<char>>(message@),
            },
    {
        match parse_value(text) {
            Ok(value) => Ok(from_value(value)),
            Err(message) => Err(message),
        }
    }

    /// The compact text of the value.
    pub fn text(&self) -> (r: String)
        ensures
            r@ == json_text(self@),
            reads_back(self@, r@),
    {
        value_text(&to_value(self))
    }

    /// The indented text of the value.
    pub fn pretty(&self) -> (r: String)
        ensures
            r@ == json_pretty(self@),
    {
        match value_pretty(&to_value(self)) {
            Ok(text) => text,
            Err(message) => message,
        }
    }
}

proof fn lemma_value_members_push(
    fields: Seq<(String, serde_json::Value)>,
    entry: (String, serde_json::Value),
)
    ensures
        value_members(fields.push(entry)) == value_members(fields).insert(
            entry.0@,
            value_view(entry.1),
        ),
{
    assert(fields.push(entry).drop_last() =~= fields);
}

proof fn lemma_value_members_update(
    fields: Seq<(String, serde_json::Value)>,
    i: int,
    entry: (String, serde_json::Value),
)
    requires
        0 <= i < fields.len(),
        entry.0@ == fields[i].0@,
        distinct_keys(fields),
    ensures
        value_members(fields.update(i, entry)) == value_members(fields).insert(
            entry.0@,
            value_view(entry.1),
        ),
    decreases fields.len(),
{
    let last = fields.len() - 1;
    let updated = fields.update(i, entry);
    let front = fields.drop_last();
    if i < last {
        assert(updated.drop_last() =~= front.update(i, entry));
        assert(distinct_keys(front)) by {
            assert forall|a: int, b: int| 0 <= a < b < front.len() implies (#[trigger] front[a]).0@
                != (#[trigger] front[b]).0@ by {
                assert(front[a] == fields[a] && front[b] == fields[b]);
            }
        }
        lemma_value_members_update(front, i, entry);
        assert(fields[i].0@ != fields[last].0@);
    } else {
        assert(updated.drop_last() =~= front);
    }
    assert(value_members(updated) =~= value_members(fields).insert(entry.0@, value_view(entry.1)));
}

proof fn lemma_value_members_finite(fields: Seq<(String, serde_json::Value)>)
    ensures
        value_members(fields).dom().finite(),
    decreases fields.len(),
{
    if fields.len() > 0 {
        lemma_value_members_finite(fields.drop_last());
    }
}

/// Where an entry is and what it holds.
proof fn lemma_value_members_entry(fields: Seq<(String, serde_json::Value)>, i: int)
    requires
        0 <= i < fields.len(),
        distinct_keys(fields),
    ensures
        value_members(fields).contains_key(fields[i].0@),
        value_members(fields)[fields[i].0@] == value_view(fields[i].1),
    decreases fields.len(),
{
    let last = fields.len() - 1;
    let front = fields.drop_last();
    if i < last {
        assert(distinct_keys(front)) by {
            assert forall|a: int, b: int| 0 <= a < b < front.len() implies (#[trigger] front[a]).0@
                != (#[trigger] front[b]).0@ by {
                assert(front[a] == fields[a] && front[b] == fields[b]);
            }
        }
        lemma_value_members_entry(front, i);
        assert(front[i] == fields[i]);
        assert(fields[i].0@ != fields[last].0@);
    }
}

/// Adds an entry to a list of distinct keys, replacing the one that has its key.
fn put_entry(fields: &mut Vec<(String, serde_json::Value)>, key: &String, value: serde_json::Value)
    requires
        distinct_keys(old(fields)@),
    ensures
        distinct_keys(final(fields)@),
        value_members(final(fields)@) == value_members(old(fields)@).insert(
            key@,
            value_view(value),
        ),
{
    let mut i: usize = 0;
    while i < fields.len()
        invariant
            i <= fields.len(),
            fields@ == old(fields)@,
            distinct_keys(old(fields)@),
            forall|j: int| 0 <= j < i ==> (#[trigger] fields@[j]).0@ != key@,
        decreases fields.len() - i,
    {
        if same(fields[i].0.as_str(), key.as_str()) {
            let entry = (key.clone(), value);
            proof {
                lemma_value_members_update(fields@, i as int, entry);
            }
            fields.set(i, entry);
            assert(distinct_keys(fields@)) by {
                assert forall|a: int, b: int| 0 <= a < b < fields@.len() implies (
                #[trigger] fields@[a]).0@ != (#[trigger] fields@[b]).0@ by {
                    assert(old(fields)@[a].0@ != old(fields)@[b].0@);
                }
            }
            return ;
        }
        i = i + 1;
    }
    let entry = (key.clone(), value);
    proof {
        lemma_value_members_push(fields@, entry);
    }
    fields.push(entry);
}

/// The items from last to first.
fn reversed<T>(items: Vec<T>) -> (r: Vec<T>)
    ensures
        r@ == items@.reverse(),
{
    let ghost all = items@;
    let mut left = items;
    let mut turned: Vec<T> = Vec::new();
    while left.len() > 0
        invariant
            left@.len() + turned@.len() == all.len(),
            left@ == all.take(left@.len() as int),
            turned@ == all.skip(left@.len() as int).reverse(),
        decreases left.len(),
    {
        let item = left.pop().unwrap();
        turned.push(item);
        assert(turned@ =~= all.skip(left@.len() as int).reverse());
    }
    assert(all.skip(0) =~= all);
    turned
}

/// The library's tree for a `serde_json` value.
fn from_value(value: serde_json::Value) -> (r: Json)
    ensures
        r@ == value_view(value),
    decreases value_view(value),
{
    let ghost whole = value_view(value);
    match open_value(value) {
        ValueParts::Null => Json::Null,
        ValueParts::Bool(b) => Json::Bool(b),
        ValueParts::Number(n) => Json::Number(n),
        ValueParts::Str(s) => Json::Str(s),
        ValueParts::Array(items) => {
            let ghost all = items@;
            let mut left = reversed(items);
            let mut read: Vec<Json> = Vec::new();
            let ghost mut i: int = 0;
            while left.len() > 0
                invariant
                    0 <= i <= all.len(),
                    whole == value_view(value),
                    whole == JsonView::Array(value_views(all)),
                    left@ == all.skip(i).reverse(),
                    trees(read@) == value_views(all.take(i)),
                decreases left.len(),
            {
                let item = left.pop().unwrap();
                proof {
                    assert(item == all[i]);
                    assert(all.skip(i).reverse().drop_last() =~= all.skip(i + 1).reverse());
                    assert(value_views(all)[i] == value_view(item));
                    assert(decreases_to!(whole => whole->Array_0));
                    assert(decreases_to!(whole->Array_0 => whole->Array_0[i]));
                }
                let j = from_value(item);
                proof {
                    lemma_trees_push(read@, j);
                    assert(value_views(all.take(i + 1)) =~= value_views(all.take(i)).push(
                        value_view(item),
                    ));
                }
                read.push(j);
                proof {
                    i = i + 1;
                }
            }
            assert(all.take(i) =~= all);
            Json::Array(read)
        },
        ValueParts::Object(fields) => {
            let ghost all = fields@;
            let mut left = reversed(fields);
            let mut read: Vec<(String, Json)> = Vec::new();
            let ghost mut i: int = 0;
            while left.len() > 0
                invariant
                    0 <= i <= all.len(),
                    whole == value_view(value),
                    whole == JsonView::Object(value_members(all)),
                    distinct_keys(all),
                    left@ == all.skip(i).reverse(),
                    members(read@) == value_members(all.take(i)),
                decreases left.len(),
            {
                let entry = left.pop().unwrap();
                proof {
                    assert(entry == all[i]);
                    assert(all.skip(i).reverse().drop_last() =~= all.skip(i + 1).reverse());
                    lemma_value_members_entry(all, i);
                    lemma_value_members_finite(all);
                    assert(decreases_to!(whole => whole->Object_0));
                    assert(decreases_to!(whole->Object_0 => whole->Object_0[entry.0@]));
                }
                let pair = (entry.0, from_value(entry.1));
                proof {
                    lemma_members_push(read@, pair);
                    lemma_value_members_push(all.take(i), all[i]);
                    assert(all.take(i).push(all[i]) =~= all.take(i + 1));
                }
                read.push(pair);
                proof {
                    i = i + 1;
                }
            }
            assert(all.take(i) =~= all);
            Json::Object(read)
        },
    }
}

/// The `serde_json` value for a tree.
fn to_value(j: &Json) -> (r: serde_json::Value)
    ensures
        value_view(r) == j@,
    decreases j,
{
    let parts = match j {
        Json::Null => ValueParts::Null,
        Json::Bool(b) => ValueParts::Bool(*b),
        Json::Number(n) => ValueParts::Number(number_clone(n)),
        Json::Str(s) => ValueParts::Str(s.clone()),
        Json::Array(items) => {
            let mut values: Vec<serde_json::Value> = Vec::new();
            let mut i: usize = 0;
            while i < items.len()
                invariant
                    i <= items.len(),
                    *j == Json::Array(*items),
                    value_views(values@) == trees(items@.take(i as int)),
                decreases items.len() - i,
            {
                assert(decreases_to!(*j => j->Array_0));
                assert(decreases_to!(j->Array_0@ => j->Array_0@[i as int]));
                let value = to_value(&items[i]);
                proof {
                    assert(value_views(values@.push(value)) =~= value_views(values@).push(
                        value_view(value),
                    ));
                    lemma_trees_push(items@.take(i as int), items@[i as int]);
                    assert(items@.take(i as int).push(items@[i as int]) =~= items@.take(i + 1));
                }
                values.push(value);
                i = i + 1;
            }
            assert(items@.take(i as int) =~= items@);
            ValueParts::Array(values)
        },
        Json::Object(fields) => {
            let mut values: Vec<(String, serde_json::Value)> = Vec::new();
            let mut i: usize = 0;
            while i < fields.len()
                invariant
                    i <= fields.len(),
                    *j == Json::Object(*fields),
                    distinct_keys(values@),
                    value_members(values@) == members(fields@.take(i as int)),
                decreases fields.len() - i,
            {
                assert(decreases_to!(*j => j->Object_0));
                assert(decreases_to!(j->Object_0@ => j->Object_0@[i as int]));
                assert(decreases_to!(fields@[i as int] => fields@[i as int].1));
                let value = to_value(&fields[i].1);
                put_entry(&mut values, &fields[i].0, value);
                proof {
                    lemma_members_push(fields@.take(i as int), fields@[i as int]);
                    assert(fields@.take(i as int).push(fields@[i as int]) =~= fields@.take(i + 1));
                }
                i = i + 1;
            }
            assert(fields@.take(i as int) =~= fields@);
            ValueParts::Object(values)
        },
    };
    close_value(parts)
}

} // verus!
