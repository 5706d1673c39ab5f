//! The library's model of JSON documents.
//!
//! The cache is persisted as JSON text. An outside serializer renders and
//! parses the text; a thin trusted layer carries parsed values into
//! [`JsonValue`], variant by variant. Objects keep their fields in order
//! with first-match lookup and replace-in-place insertion, which is what the
//! merge-write policy of the cache relies on. Numbers are modelled as
//! signed 64-bit integers: every number the records hold fits, and a
//! document with any other number is refused rather than misread.

use vstd::prelude::*;

verus! {

/// One JSON value.
pub enum JsonValue {
    Null,
    Bool(bool),
    Int(i64),
    Str(String),
    Array(Vec<JsonValue>),
    Object(Vec<(String, JsonValue)>),
}

/// The ghost value of a [`JsonValue`].
pub ghost enum JsonView {
    Null,
    Bool(bool),
    Int(int),
    Str(Seq<char>),
    Array(Seq<JsonView>),
    Object(Seq<(Seq<char>, JsonView)>),
}

/// The ghost value of a JSON value.
pub open spec fn json_view(v: JsonValue) -> JsonView
    decreases v,
{
    match v {
        JsonValue::Null => JsonView::Null,
        JsonValue::Bool(b) => JsonView::Bool(b),
        JsonValue::Int(n) => JsonView::Int(n as int),
        JsonValue::Str(s) => JsonView::Str(s@),
        JsonValue::Array(items) => JsonView::Array(json_views(items@, 0)),
        JsonValue::Object(fields) => JsonView::Object(json_fields(fields@, 0)),
    }
}

/// The ghost values of the array items `items[i..]`.
pub open spec fn json_views(items: Seq<JsonValue>, i: int) -> Seq<JsonView>
    decreases items, items.len() - i,
{
    if i < 0 || i >= items.len() {
        seq![]
    } else {
        seq![json_view(items[i])] + json_views(items, i + 1)
    }
}

/// The ghost values of the object fields `fields[i..]`.
pub open spec fn json_fields(fields: Seq<(String, JsonValue)>, i: int) -> Seq<
    (Seq<char>, JsonView),
>
    decreases fields, fields.len() - i,
{
    if i < 0 || i >= fields.len() {
        seq![]
    } else {
        seq![(fields[i].0@, json_view(fields[i].1))] + json_fields(fields, i + 1)
    }
}

#[verifier::external_type_specification]
#[verifier::external_body]
pub struct ExSerdeValue(serde_json::Value);

/// What parsing text as a JSON document yields in the library's model:
/// a function of the text alone, with nothing for text that is not valid
/// JSON or holds a number outside the signed 64-bit integers.
pub uninterp spec fn json_of(s: Seq<char>) -> Option<JsonView>;

/// Relies on `serde_json::from_str::<serde_json::Value>`: parsing is a pure
/// function of the text. The parsed value is carried over variant by
/// variant by [`value_to_json`].
#[verifier::external_body]
pub fn parse_json(s: &str) -> (r: Option<JsonValue>)
    ensures
        match r {
            Some(v) => json_of(s@) == Some(json_view(v)),
            None => json_of(s@) is None,
        },
{
    match serde_json::from_str::<serde_json::Value>(s) {
        Ok(v) => value_to_json(v),
        Err(_) => None,
    }
}

/// Relies on `serde_json::Value`'s variant accessors and
/// `serde_json::Number::as_i64`: carries one parsed value over, variant by
/// variant; a number outside the signed 64-bit integers refuses the whole
/// document.
#[verifier::external_body]
fn value_to_json(v: serde_json::Value) -> Option<JsonValue> {
    Some(match v {
        serde_json::Value::Null => JsonValue::Null,
        serde_json::Value::Bool(b) => JsonValue::Bool(b),
        serde_json::Value::Number(n) => JsonValue::Int(n.as_i64()?),
        serde_json::Value::String(s) => JsonValue::Str(s),
        serde_json::Value::Array(xs) =>
            JsonValue::Array(xs.into_iter().map(value_to_json).collect::<Option<Vec<_>>>()?),
        serde_json::Value::Object(fs) => JsonValue::Object(
            fs.into_iter().map(|(k, x)| Some((k, value_to_json(x)?))).collect::<Option<Vec<_>>>()?,
        ),
    })
}

/// The canonical pretty rendering of a JSON value: what the outside
/// serializer prints for it, a function of the value alone (object fields
/// are rendered sorted by key, so two values with equal models render the
/// same).
pub uninterp spec fn pretty_of(v: JsonView) -> Seq<char>;

/// Relies on `serde_json::to_string_pretty`: rendering a string-keyed value
/// never fails and is a pure function of the value. The library's value is
/// carried into the serializer's by [`json_to_value`].
#[verifier::external_body]
pub fn to_pretty(v: &JsonValue) -> (r: String)
    ensures
        r@ == pretty_of(json_view(*v)),
{
    serde_json::to_string_pretty(&json_to_value(v)).unwrap_or_default()
}

/// Relies on `serde_json::Value`'s constructors: carries one of the
/// library's values into the serializer's model, variant by variant.
/// Duplicate object keys collapse to the last occurrence, and fields are
/// reordered by the map's key order.
#[verifier::external_body]
fn json_to_value(v: &JsonValue) -> serde_json::Value {
    match v {
        JsonValue::Null => serde_json::Value::Null,
        JsonValue::Bool(b) => serde_json::Value::Bool(*b),
        JsonValue::Int(n) => serde_json::Value::Number((*n).into()),
        JsonValue::Str(s) => serde_json::Value::String(s.clone()),
        JsonValue::Array(xs) => serde_json::Value::Array(xs.iter().map(json_to_value).collect()),
        JsonValue::Object(fs) => serde_json::Value::Object(
            fs.iter().map(|(k, x)| (k.clone(), json_to_value(x))).collect(),
        ),
    }
}

/// The value of the first field named `key` among `fields[i..]`.
pub open spec fn obj_get_from(fields: Seq<(Seq<char>, JsonView)>, key: Seq<char>, i: int) -> Option<
    JsonView,
>
    decreases fields.len() - i,
{
    if i < 0 || i >= fields.len() {
        None
    } else if fields[i].0 == key {
        Some(fields[i].1)
    } else {
        obj_get_from(fields, key, i + 1)
    }
}

/// The value at `key` in an object; nothing for other values or an absent
/// key.
pub open spec fn spec_get(v: JsonView, key: Seq<char>) -> Option<JsonView> {
    match v {
        JsonView::Object(fields) => obj_get_from(fields, key, 0),
        _ => None,
    }
}

/// Executable field lookup, mirroring [`spec_get`].
pub fn json_get<'a>(v: &'a JsonValue, key: &str) -> (r: Option<&'a JsonValue>)
    ensures
        match r {
            Some(x) => spec_get(json_view(*v), key@) == Some(json_view(*x)),
            None => spec_get(json_view(*v), key@) is None,
        },
{
    match v {
        JsonValue::Object(fields) => {
            let ghost fv = json_fields(fields@, 0);
            let mut i: usize = 0;
            while i < fields.len()
                invariant
                    0 <= i <= fields.len(),
                    fv == json_fields(fields@, 0),
                    obj_get_from(fv, key@, 0) == obj_get_from(fv, key@, i as int),
                decreases fields.len() - i,
            {
                proof {
                    lemma_json_fields_index(fields@, i as int);
                }
                if crate::text::chars_eq_str(&crate::text::chars_of(fields[i].0.as_str()), key) {
                    return Some(&fields[i].1);
                }
                i += 1;
            }
            proof {
                lemma_json_fields_len(fields@, 0);
            }
            None
        },
        _ => None,
    }
}

/// The ghost fields of an object line up with the concrete ones.
pub proof fn lemma_json_fields_index(fields: Seq<(String, JsonValue)>, i: int)
    requires
        0 <= i < fields.len(),
    ensures
        json_fields(fields, 0).len() == fields.len(),
        json_fields(fields, 0)[i] == (fields[i].0@, json_view(fields[i].1)),
{
    lemma_json_fields_len(fields, 0);
    lemma_json_fields_at(fields, 0, i);
}

pub proof fn lemma_json_fields_len(fields: Seq<(String, JsonValue)>, i: int)
    requires
        0 <= i <= fields.len(),
    ensures
        json_fields(fields, i).len() == fields.len() - i,
    decreases fields.len() - i,
{
    if i < fields.len() {
        lemma_json_fields_len(fields, i + 1);
    }
}

proof fn lemma_json_fields_at(fields: Seq<(String, JsonValue)>, i: int, j: int)
    requires
        0 <= i <= j < fields.len(),
    ensures
        json_fields(fields, i).len() == fields.len() - i,
        json_fields(fields, i)[j - i] == (fields[j].0@, json_view(fields[j].1)),
    decreases j - i,
{
    lemma_json_fields_len(fields, i);
    if i < j {
        lemma_json_fields_at(fields, i + 1, j);
    }
}

/// The ghost items of an array line up with the concrete ones.
pub proof fn lemma_json_views_index(items: Seq<JsonValue>, i: int)
    requires
        0 <= i < items.len(),
    ensures
        json_views(items, 0).len() == items.len(),
        json_views(items, 0)[i] == json_view(items[i]),
{
    lemma_json_views_len(items, 0);
    lemma_json_views_at(items, 0, i);
}

pub proof fn lemma_json_views_len(items: Seq<JsonValue>, i: int)
    requires
        0 <= i <= items.len(),
    ensures
        json_views(items, i).len() == items.len() - i,
    decreases items.len() - i,
{
    if i < items.len() {
        lemma_json_views_len(items, i + 1);
    }
}

proof fn lemma_json_views_at(items: Seq<JsonValue>, i: int, j: int)
    requires
        0 <= i <= j < items.len(),
    ensures
        json_views(items, i).len() == items.len() - i,
        json_views(items, i)[j - i] == json_view(items[j]),
    decreases j - i,
{
    lemma_json_views_len(items, i);
    if i < j {
        lemma_json_views_at(items, i + 1, j);
    }
}

/// Appending a field appends its ghost value.
pub proof fn lemma_json_fields_push(fields: Seq<(String, JsonValue)>, k: String, v: JsonValue)
    ensures
        json_fields(fields.push((k, v)), 0) =~= json_fields(fields, 0) + seq![(k@, json_view(v))],
{
    let after = fields.push((k, v));
    lemma_json_fields_len(after, 0);
    lemma_json_fields_len(fields, 0);
    assert forall|j: int| 0 <= j < after.len() implies json_fields(after, 0)[j] == (json_fields(
        fields,
        0,
    ) + seq![(k@, json_view(v))])[j] by {
        lemma_json_fields_index(after, j);
        if j < fields.len() {
            lemma_json_fields_index(fields, j);
        }
    }
}

/// Dropping the first field drops its ghost value.
pub proof fn lemma_json_fields_shift(before: Seq<(String, JsonValue)>)
    requires
        before.len() > 0,
    ensures
        json_fields(before, 0) =~= seq![(before[0].0@, json_view(before[0].1))] + json_fields(
            before.drop_first(),
            0,
        ),
{
    lemma_json_fields_len(before, 0);
    lemma_json_fields_len(before.drop_first(), 0);
    assert forall|j: int| 0 <= j < before.len() implies json_fields(before, 0)[j] == (seq![
        (before[0].0@, json_view(before[0].1)),
    ] + json_fields(before.drop_first(), 0))[j] by {
        lemma_json_fields_index(before, j);
        if j > 0 {
            lemma_json_fields_index(before.drop_first(), j - 1);
            assert(before.drop_first()[j - 1] == before[j]);
        }
    }
}

/// Appending an item appends its ghost value.
pub proof fn lemma_json_views_push(items: Seq<JsonValue>, v: JsonValue)
    ensures
        json_views(items.push(v), 0) =~= json_views(items, 0) + seq![json_view(v)],
{
    let after = items.push(v);
    lemma_json_views_len(after, 0);
    lemma_json_views_len(items, 0);
    assert forall|j: int| 0 <= j < after.len() implies json_views(after, 0)[j] == (json_views(
        items,
        0,
    ) + seq![json_view(v)])[j] by {
        lemma_json_views_index(after, j);
        if j < items.len() {
            lemma_json_views_index(items, j);
        }
    }
}

/// Dropping the first item drops its ghost value.
pub proof fn lemma_json_views_shift(before: Seq<JsonValue>)
    requires
        before.len() > 0,
    ensures
        json_views(before, 0) =~= seq![json_view(before[0])] + json_views(before.drop_first(), 0),
{
    lemma_json_views_len(before, 0);
    lemma_json_views_len(before.drop_first(), 0);
    assert forall|j: int| 0 <= j < before.len() implies json_views(before, 0)[j] == (seq![
        json_view(before[0]),
    ] + json_views(before.drop_first(), 0))[j] by {
        lemma_json_views_index(before, j);
        if j > 0 {
            lemma_json_views_index(before.drop_first(), j - 1);
            assert(before.drop_first()[j - 1] == before[j]);
        }
    }
}

/// An array whose items carry the expected ghost values, element by
/// element, has exactly those ghost values.
pub proof fn lemma_json_views_eq(items: Seq<JsonValue>, expected: Seq<JsonView>)
    requires
        items.len() == expected.len(),
        forall|j: int| 0 <= j < items.len() ==> json_view(#[trigger] items[j]) == expected[j],
    ensures
        json_views(items, 0) == expected,
{
    lemma_json_views_len(items, 0);
    assert forall|j: int| 0 <= j < items.len() implies json_views(items, 0)[j] == expected[j] by {
        lemma_json_views_index(items, j);
    }
    assert(json_views(items, 0) =~= expected);
}

/// An object whose fields carry the expected names and ghost values,
/// field by field, has exactly those ghost fields.
pub proof fn lemma_json_fields_eq(
    fields: Seq<(String, JsonValue)>,
    expected: Seq<(Seq<char>, JsonView)>,
)
    requires
        fields.len() == expected.len(),
        forall|j: int|
            0 <= j < fields.len() ==> (#[trigger] fields[j]).0@ == expected[j].0 && json_view(
                fields[j].1,
            ) == expected[j].1,
    ensures
        json_fields(fields, 0) == expected,
{
    lemma_json_fields_len(fields, 0);
    assert forall|j: int| 0 <= j < fields.len() implies json_fields(fields, 0)[j] == expected[j] by {
        lemma_json_fields_index(fields, j);
    }
    assert(json_fields(fields, 0) =~= expected);
}

/// Index of the first field named `key` at or after `i`, or the length.
pub open spec fn key_index_from(fields: Seq<(Seq<char>, JsonView)>, key: Seq<char>, i: int) -> int
    decreases fields.len() - i,
{
    if i < 0 || i >= fields.len() {
        fields.len() as int
    } else if fields[i].0 == key {
        i
    } else {
        key_index_from(fields, key, i + 1)
    }
}

pub proof fn lemma_key_index_bounds(fields: Seq<(Seq<char>, JsonView)>, key: Seq<char>, i: int)
    requires
        0 <= i <= fields.len(),
    ensures
        i <= key_index_from(fields, key, i) <= fields.len(),
        key_index_from(fields, key, i) < fields.len() ==> fields[key_index_from(fields, key, i)].0
            == key,
        forall|j: int| i <= j < key_index_from(fields, key, i) ==> fields[j].0 != key,
    decreases fields.len() - i,
{
    if i < fields.len() && fields[i].0 != key {
        lemma_key_index_bounds(fields, key, i + 1);
    }
}

/// The object fields with `val` stored at `key`: the first field of that
/// name is replaced in place, or a new field is appended when the name is
/// absent. This is the merge-write step — no other field is touched.
pub open spec fn spec_obj_set(
    fields: Seq<(Seq<char>, JsonView)>,
    key: Seq<char>,
    val: JsonView,
) -> Seq<(Seq<char>, JsonView)> {
    let idx = key_index_from(fields, key, 0);
    if 0 <= idx < fields.len() {
        fields.update(idx, (key, val))
    } else {
        fields.push((key, val))
    }
}

/// Storing a field keeps every other field's value and makes the stored
/// value the one found at the key.
pub proof fn lemma_obj_set_get(fields: Seq<(Seq<char>, JsonView)>, key: Seq<char>, val: JsonView)
    ensures
        obj_get_from(spec_obj_set(fields, key, val), key, 0) == Some(val),
        forall|other: Seq<char>|
            other != key ==> obj_get_from(spec_obj_set(fields, key, val), other, 0)
                == obj_get_from(fields, other, 0),
{
    lemma_key_index_bounds(fields, key, 0);
    let idx = key_index_from(fields, key, 0);
    let after = spec_obj_set(fields, key, val);
    if idx < fields.len() {
        lemma_obj_get_find(after, key, 0, idx);
    } else {
        lemma_obj_get_find(after, key, 0, after.len() - 1);
    }
    assert forall|other: Seq<char>| other != key implies obj_get_from(after, other, 0)
        == obj_get_from(fields, other, 0) by {
        lemma_obj_get_same(fields, after, other, 0);
    }
}

proof fn lemma_obj_get_none(fields: Seq<(Seq<char>, JsonView)>, key: Seq<char>, i: int)
    requires
        0 <= i <= fields.len(),
        forall|j: int| i <= j < fields.len() ==> (#[trigger] fields[j]).0 != key,
    ensures
        obj_get_from(fields, key, i) is None,
    decreases fields.len() - i,
{
    if i < fields.len() {
        lemma_obj_get_none(fields, key, i + 1);
    }
}

proof fn lemma_obj_get_same(
    before: Seq<(Seq<char>, JsonView)>,
    after: Seq<(Seq<char>, JsonView)>,
    key: Seq<char>,
    i: int,
)
    requires
        0 <= i <= before.len(),
        before.len() <= after.len(),
        forall|j: int|
            0 <= j < before.len() ==> (((#[trigger] after[j]).0 == key) == ((
            #[trigger] before[j]).0 == key)),
        forall|j: int| 0 <= j < before.len() && (#[trigger] before[j]).0 == key ==> after[j]
            == before[j],
        forall|j: int| before.len() <= j < after.len() ==> (#[trigger] after[j]).0 != key,
    ensures
        obj_get_from(after, key, i) == obj_get_from(before, key, i),
    decreases before.len() - i,
{
    if i == before.len() {
        lemma_obj_get_none(after, key, i);
    } else if before[i].0 != key {
        lemma_obj_get_same(before, after, key, i + 1);
    }
}

proof fn lemma_obj_get_find(
    fields: Seq<(Seq<char>, JsonView)>,
    key: Seq<char>,
    i: int,
    idx: int,
)
    requires
        0 <= i <= idx < fields.len(),
        fields[idx].0 == key,
        forall|j: int| i <= j < idx ==> fields[j].0 != key,
    ensures
        obj_get_from(fields, key, i) == Some(fields[idx].1),
    decreases idx - i,
{
    if i < idx {
        lemma_obj_get_find(fields, key, i + 1, idx);
    }
}

/// Executable merge-write step, mirroring [`spec_obj_set`].
pub fn obj_set(fields: &mut Vec<(String, JsonValue)>, key: String, val: JsonValue)
    ensures
        json_fields(final(fields)@, 0) == spec_obj_set(
            json_fields(old(fields)@, 0),
            key@,
            json_view(val),
        ),
{
    let ghost fv = json_fields(fields@, 0);
    let ghost kv = key@;
    let ghost vv = json_view(val);
    let key_chars = crate::text::chars_of(key.as_str());
    proof {
        lemma_json_fields_len(fields@, 0);
        assert forall|j: int| 0 <= j < fv.len() implies (#[trigger] fv[j]).0 == fields@[j].0@ by {
            lemma_json_fields_index(fields@, j);
        }
    }
    let mut i: usize = 0;
    while i < fields.len()
        invariant
            0 <= i <= fields.len(),
            fv == json_fields(fields@, 0),
            key_chars@ == key@,
            key_index_from(fv, key@, 0) == key_index_from(fv, key@, i as int),
            forall|j: int| 0 <= j < fv.len() ==> (#[trigger] fv[j]).0 == fields@[j].0@,
        decreases fields.len() - i,
    {
        proof {
            lemma_json_fields_index(fields@, i as int);
            lemma_json_fields_len(fields@, 0);
        }
        if crate::text::chars_eq(&crate::text::chars_of(fields[i].0.as_str()), &key_chars) {
            proof {
                lemma_json_fields_len(fields@, 0);
            }
            let ghost old_fields = fields@;
            fields.set(i, (key, val));
            proof {
                lemma_key_index_bounds(fv, kv, 0);
                assert(key_index_from(fv, kv, 0) == i);
                assert(json_fields(fields@, 0) =~= fv.update(i as int, (kv, vv))) by {
                    lemma_json_fields_len(fields@, 0);
                    assert forall|j: int| 0 <= j < fields@.len() implies json_fields(
                        fields@,
                        0,
                    )[j] == fv.update(i as int, (kv, vv))[j] by {
                        lemma_json_fields_index(fields@, j);
                        if j != i {
                            lemma_json_fields_index(old_fields, j);
                        }
                    }
                }
            }
            return ;
        }
        i += 1;
    }
    proof {
        lemma_json_fields_len(fields@, 0);
        lemma_key_index_bounds(fv, kv, 0);
        assert(key_index_from(fv, kv, 0) == fv.len());
    }
    let ghost old_fields = fields@;
    fields.push((key, val));
    proof {
        assert(json_fields(fields@, 0) =~= fv.push((kv, vv))) by {
            lemma_json_fields_len(fields@, 0);
            assert forall|j: int| 0 <= j < fields@.len() implies json_fields(fields@, 0)[j]
                == fv.push((kv, vv))[j] by {
                lemma_json_fields_index(fields@, j);
                if j < old_fields.len() {
                    lemma_json_fields_index(old_fields, j);
                }
            }
        }
    }
}

} // verus!
