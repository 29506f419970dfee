//! What holds of values: what is put into one is found in it, and nothing else changes.
use crate::json::{JsonView, NumberView};
use crate::{json, places};
use vstd::prelude::*;

verus! {

/// A member is found under its key, and only in an object.
pub proof fn members_are_found(v: JsonView, key: Seq<char>)
    ensures
        json::field(v, key) == places::member(v, key),
        v !is Object ==> json::field(v, key) is None,
{
}

/// A member that is put into an object is found there under its key; it takes the place of
/// an earlier one, and the other members stay. What is no object is left as it is.
pub proof fn members_are_put_in(v: JsonView, key: Seq<char>, x: JsonView, other: Seq<char>)
    ensures
        v is Object ==> json::put(v, key, x) is Object && places::member(json::put(v, key, x), key)
            == Some(x),
        other != key ==> places::member(json::put(v, key, x), other) == places::member(v, other),
        v !is Object ==> json::put(v, key, x) == v,
{
}

/// A member that is taken out of an object is not found there, and the others stay.
pub proof fn members_are_taken_out(v: JsonView, key: Seq<char>, other: Seq<char>)
    ensures
        places::member(json::without(v, key), key) is None,
        other != key ==> places::member(json::without(v, key), other) == places::member(v, other),
        v !is Object ==> json::without(v, key) == v,
{
}

/// An item that is added to a list stands at its end.
pub proof fn items_are_added(items: Seq<JsonView>, x: JsonView)
    ensures
        json::appended(JsonView::Array(items), x) == JsonView::Array(items.push(x)),
        json::empty_array() == JsonView::Array(Seq::empty()),
        json::empty_object() == JsonView::Object(Map::empty()),
{
}

/// Texts, truths, lists and numbers are read as what they are, and as nothing else.
pub proof fn values_are_read_as_what_they_are(v: JsonView)
    ensures
        json::text_of(v) is Some <==> v is Str,
        v matches JsonView::Str(s) ==> json::text_of(v) == Some(s) && json::jstr(s) == v,
        json::bool_of(v) is Some <==> v is Bool,
        v matches JsonView::Bool(b) ==> json::bool_of(v) == Some(b),
        json::items_of(v) is Some <==> v is Array,
        v matches JsonView::Array(items) ==> json::items_of(v) == Some(items),
        json::u64_of(v) is Some <==> (v matches JsonView::Number(NumberView::PosInt(_))),
        v matches JsonView::Number(NumberView::PosInt(n)) ==> json::u64_of(v) == Some(n)
            && json::num(n) == v && (json::i64_of(v) is Some <==> n <= i64::MAX) && (n <= i64::MAX
            ==> json::i64_of(v) == Some(n as i64)),
        v matches JsonView::Number(NumberView::NegInt(n)) ==> json::i64_of(v) == Some(n),
        v matches JsonView::Number(NumberView::Float(_)) ==> json::i64_of(v) is None
            && json::u64_of(v) is None,
        v !is Number ==> json::i64_of(v) is None && json::u64_of(v) is None && json::float_of(v)
            is None,
{
}

/// A whole number is read back as it was written.
pub proof fn whole_numbers_are_read_back(n: i64)
    ensures
        json::i64_of(JsonView::Number(json::integer(n))) == Some(n),
        n >= 0 ==> json::u64_of(JsonView::Number(json::integer(n))) == Some(n as u64),
        n < 0 ==> json::u64_of(JsonView::Number(json::integer(n))) is None,
{
}

/// What is read under a key is what the member is.
pub proof fn fields_are_read_as_what_they_are(v: JsonView, key: Seq<char>)
    ensures
        places::member(v, key) is None ==> json::text_field(v, key) is None && json::u64_field(v, key)
            is None && json::bool_field(v, key) is None && json::items_field(v, key) is None,
        places::member(v, key) matches Some(x) ==> json::text_field(v, key) == json::text_of(x)
            && json::u64_field(v, key) == json::u64_of(x) && json::bool_field(v, key)
            == json::bool_of(x) && json::items_field(v, key) == json::items_of(x),
{
}

} // verus!
