//! Reading JSON values.
use vstd::prelude::*;

verus! {

/// `serde_json::Value`: a JSON value.
#[verifier::external_type_specification]
#[verifier::external_body]
pub struct ExJsonValue(serde_json::Value);

/// The text that `serde_json` pretty-prints a value to, empty where it cannot.
pub uninterp spec fn pretty_text(v: serde_json::Value) -> Seq<char>;

/// The fields of an object; none for any other value.
pub uninterp spec fn json_fields(v: serde_json::Value) -> Map<Seq<char>, serde_json::Value>;

/// The text of a string; nothing for any other value.
pub uninterp spec fn json_text(v: serde_json::Value) -> Option<Seq<char>>;

/// The number of a value that is an integer of 64 bits without a sign; nothing
/// for any other value.
pub uninterp spec fn json_count(v: serde_json::Value) -> Option<u64>;

/// The items of an array; nothing for any other value.
pub uninterp spec fn json_items(v: serde_json::Value) -> Option<Seq<serde_json::Value>>;

/// `serde_json::to_string_pretty`, an error read as no text. The text depends
/// on the value alone.
#[verifier::external_body]
pub(crate) fn pretty(v: &serde_json::Value) -> (r: String)
    ensures
        r@ == pretty_text(*v),
{
    serde_json::to_string_pretty(v).unwrap_or_default()
}

/// `serde_json::Value::get` by a key: the object's field of that name.
#[verifier::external_body]
pub(crate) fn field<'a>(v: &'a serde_json::Value, key: &str) -> (r: Option<&'a serde_json::Value>)
    ensures
        match r {
            Some(f) => json_fields(*v).contains_key(key@) && *f == json_fields(*v)[key@],
            None => !json_fields(*v).contains_key(key@),
        },
{
    v.get(key)
}

/// `serde_json::Value::as_str`: the text of a string.
pub assume_specification<'a>[ serde_json::Value::as_str ](v: &'a serde_json::Value) -> (r: Option<
    &'a str,
>)
    ensures
        match r {
            Some(s) => json_text(*v) == Some(s@),
            None => json_text(*v) is None,
        },
;

/// `serde_json::Value::as_u64`: the number of an unsigned integer.
pub assume_specification[ serde_json::Value::as_u64 ](v: &serde_json::Value) -> (r: Option<u64>)
    ensures
        r == json_count(*v),
;

/// `serde_json::Value::as_array`: the items of an array.
pub assume_specification<'a>[ serde_json::Value::as_array ](v: &'a serde_json::Value) -> (r: Option<
    &'a Vec<serde_json::Value>,
>)
    ensures
        match r {
            Some(items) => json_items(*v) == Some(items@),
            None => json_items(*v) is None,
        },
;

/// The text of an object's field.
pub open spec fn text_field(v: serde_json::Value, key: Seq<char>) -> Option<Seq<char>> {
    if json_fields(v).contains_key(key) {
        json_text(json_fields(v)[key])
    } else {
        None
    }
}

/// The number of an object's field, zero where it has none.
pub open spec fn count_field(v: serde_json::Value, key: Seq<char>) -> u64 {
    if json_fields(v).contains_key(key) && json_count(json_fields(v)[key]) is Some {
        json_count(json_fields(v)[key])->0
    } else {
        0
    }
}

/// The texts among items.
pub open spec fn texts_among(items: Seq<serde_json::Value>) -> Seq<Seq<char>>
    decreases items.len(),
{
    if items.len() == 0 {
        Seq::empty()
    } else {
        let before = texts_among(items.drop_last());
        match json_text(items.last()) {
            Some(t) => before.push(t),
            None => before,
        }
    }
}

/// The texts in the array of an object's field, none where it has no array.
pub open spec fn text_items(v: serde_json::Value, key: Seq<char>) -> Seq<Seq<char>> {
    if json_fields(v).contains_key(key) && json_items(json_fields(v)[key]) is Some {
        texts_among(json_items(json_fields(v)[key])->0)
    } else {
        Seq::empty()
    }
}

/// The text of an object's field.
pub fn read_text(v: &serde_json::Value, key: &str) -> (r: Option<String>)
    ensures
        crate::markdown::opt_text(r) == text_field(*v, key@),
{
    match field(v, key) {
        Some(f) => match f.as_str() {
            Some(s) => Some(s.to_owned()),
            None => None,
        },
        None => None,
    }
}

/// The number of an object's field, zero where it has none.
pub fn read_count(v: &serde_json::Value, key: &str) -> (r: u64)
    ensures
        r == count_field(*v, key@),
{
    match field(v, key) {
        Some(f) => match f.as_u64() {
            Some(n) => n,
            None => 0,
        },
        None => 0,
    }
}

/// The texts in the array of an object's field.
pub fn read_texts(v: &serde_json::Value, key: &str) -> (r: Vec<String>)
    ensures
        crate::text::texts(r@) == text_items(*v, key@),
{
    let mut r: Vec<String> = Vec::new();
    assert(crate::text::texts(r@) =~= Seq::empty());
    let f = match field(v, key) {
        Some(f) => f,
        None => {
            return r;
        },
    };
    let items = match f.as_array() {
        Some(items) => items,
        None => {
            return r;
        },
    };
    let mut i: usize = 0;
    assert(items@.take(0) =~= Seq::empty());
    while i < items.len()
        invariant
            i <= items@.len(),
            crate::text::texts(r@) == texts_among(items@.take(i as int)),
        decreases items.len() - i,
    {
        assert(items@.take(i + 1).drop_last() =~= items@.take(i as int));
        assert(items@.take(i + 1).last() == items@[i as int]);
        if let Some(s) = items[i].as_str() {
            let t = s.to_owned();
            proof {
                crate::text::lemma_texts_push(r@, t);
            }
            r.push(t);
        }
        i = i + 1;
    }
    assert(items@.take(i as int) =~= items@);
    r
}

} // verus!
