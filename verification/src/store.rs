//! The cache store and schema maintenance.
//!
//! Two JSON documents persist the state: a listing array and a detail
//! key-to-record map. The map is an append-only-by-key store: a record is
//! written by merge — the document is read, the one key inserted or
//! replaced, and the whole document written back — so no other entry is
//! ever lost. The practice flag is the only mutable field; re-scraping a
//! record carries the previously cached flag forward, and when the schema
//! gains the flag, a one-shot backfill gives its default to every record
//! that lacks it, leaving toggled flags alone.

use vstd::prelude::*;
use rand::seq::SliceRandom;

use crate::json::JsonValue;
use crate::json::JsonView;
use crate::json::json_fields;
use crate::json::json_view;
use crate::json::json_views;
use crate::json::key_index_from;
use crate::json::lemma_json_fields_index;
use crate::json::lemma_json_fields_len;
use crate::json::lemma_json_views_index;
use crate::json::lemma_json_views_len;
use crate::json::lemma_key_index_bounds;
use crate::json::lemma_obj_set_get;
use crate::json::obj_get_from;
use crate::json::obj_set;
use crate::json::spec_get;
use crate::json::spec_obj_set;
use crate::models::CommandError;
use crate::models::DetailView;
use crate::models::KanjiDetail;
use crate::models::TagView;
use crate::text::after_last;
use crate::text::chars_of;
use crate::text::spec_after_last;
use crate::text::string_from_chars;

verus! {

/// The cache identifier of a record: the last path segment of its canonical
/// address.
pub open spec fn spec_kanji_id(url: Seq<char>) -> Seq<char> {
    spec_after_last(url, '/')
}

/// Executable mirror of [`spec_kanji_id`].
pub fn kanji_id_of(url: &str) -> (r: String)
    ensures
        r@ == spec_kanji_id(url@),
{
    let cs = chars_of(url);
    let seg = after_last(&cs, '/');
    string_from_chars(&seg)
}

/// The previously cached practice flag of the record at `id`: false for a
/// missing document entry, a missing field, or a field that is not a
/// boolean.
pub open spec fn spec_prior_practice(doc: JsonView, id: Seq<char>) -> bool {
    match spec_get(doc, id) {
        Some(rec) => match spec_get(rec, "practice"@) {
            Some(JsonView::Bool(b)) => b,
            _ => false,
        },
        None => false,
    }
}

/// Executable mirror of [`spec_prior_practice`].
pub fn prior_practice(doc: &JsonValue, id: &str) -> (r: bool)
    ensures
        r == spec_prior_practice(json_view(*doc), id@),
{
    match crate::json::json_get(doc, id) {
        Some(rec) => match crate::json::json_get(rec, "practice") {
            Some(v) => match v {
                JsonValue::Bool(b) => *b,
                _ => false,
            },
            None => false,
        },
        None => false,
    }
}

/// A document with one entry stored by merge: the first field of that key
/// replaced, or a new field appended; anything that is not an object is
/// left as it stands.
pub open spec fn spec_merge(doc: JsonView, key: Seq<char>, val: JsonView) -> JsonView {
    match doc {
        JsonView::Object(fields) => JsonView::Object(spec_obj_set(fields, key, val)),
        other => other,
    }
}

/// Detail-document merge-write: storing one record makes the key map to
/// that record and neither removes nor alters any other key's value.
pub proof fn lemma_merge_preserves_others(doc: JsonView, key: Seq<char>, val: JsonView)
    requires
        doc is Object,
    ensures
        spec_get(spec_merge(doc, key, val), key) == Some(val),
        forall|other: Seq<char>|
            other != key ==> spec_get(spec_merge(doc, key, val), other) == spec_get(doc, other),
{
    lemma_obj_set_get(doc->Object_0, key, val);
}

/// Stores a record in the detail document by merge, mirroring
/// [`spec_merge`]: the document must be an object (the key-to-record map);
/// anything else is reported as a corrupt document and left unchanged.
pub fn save_kanji_data(doc: &mut JsonValue, kanji_id: String, record: JsonValue) -> (r: Result<
    (),
    CommandError,
>)
    ensures
        json_view(*old(doc)) is Object ==> r is Ok && json_view(*final(doc)) == spec_merge(
            json_view(*old(doc)),
            kanji_id@,
            json_view(record),
        ),
        !(json_view(*old(doc)) is Object) ==> r is Err && *final(doc) == *old(doc),
{
    match doc {
        JsonValue::Object(fields) => {
            obj_set(fields, kanji_id, record);
            Ok(())
        },
        _ => Err(CommandError { message: "Failed to parse JSON: the cache is not a map".to_owned() }),
    }
}

/// An empty detail document, for a cache that does not exist yet.
pub fn empty_document() -> (r: JsonValue)
    ensures
        json_view(r) is Object,
        json_view(r)->Object_0 == Seq::<(Seq<char>, JsonView)>::empty(),
{
    let fields: Vec<(String, JsonValue)> = Vec::new();
    proof {
        lemma_json_fields_len(fields@, 0);
        assert(json_fields(fields@, 0) =~= Seq::<(Seq<char>, JsonView)>::empty());
    }
    JsonValue::Object(fields)
}

/// One record's value under the backfill: an object that lacks the practice
/// flag gains its default; one that already holds the field stands
/// unchanged, so a flag a user has toggled survives the transform. Other
/// values stand as they are.
pub open spec fn spec_backfill_entry(v: JsonView) -> JsonView {
    match v {
        JsonView::Object(fields) => if obj_get_from(fields, "practice"@, 0) is Some {
            JsonView::Object(fields)
        } else {
            JsonView::Object(spec_obj_set(fields, "practice"@, JsonView::Bool(false)))
        },
        other => other,
    }
}

/// The fields of the detail document under the backfill, from `i` on.
pub open spec fn spec_backfill_fields(fields: Seq<(Seq<char>, JsonView)>, i: int) -> Seq<
    (Seq<char>, JsonView),
>
    decreases fields.len() - i,
{
    if i < 0 || i >= fields.len() {
        seq![]
    } else {
        seq![(fields[i].0, spec_backfill_entry(fields[i].1))] + spec_backfill_fields(fields, i + 1)
    }
}

/// The detail document under the field backfill: every record that lacks
/// the new field gains it with its fixed default.
pub open spec fn spec_backfill(doc: JsonView) -> JsonView {
    match doc {
        JsonView::Object(fields) => JsonView::Object(spec_backfill_fields(fields, 0)),
        other => other,
    }
}

/// Backfill idempotence: running the transform a second time yields the
/// same document, so its rendering is byte-identical after the first run.
pub proof fn lemma_backfill_idempotent(doc: JsonView)
    ensures
        spec_backfill(spec_backfill(doc)) == spec_backfill(doc),
{
    match doc {
        JsonView::Object(fields) => {
            let once = spec_backfill_fields(fields, 0);
            lemma_backfill_fields_len(fields, 0);
            assert forall|j: int| 0 <= j < once.len() implies spec_backfill_entry(
                (#[trigger] once[j]).1,
            ) == once[j].1 by {
                lemma_backfill_fields_at(fields, 0, j);
                match fields[j].1 {
                    JsonView::Object(inner) => {
                        if obj_get_from(inner, "practice"@, 0) is None {
                            lemma_obj_set_get(inner, "practice"@, JsonView::Bool(false));
                        }
                    },
                    _ => {},
                }
            }
            lemma_backfill_fixed(once, 0);
            assert(once.skip(0) =~= once);
            assert(spec_backfill_fields(once, 0) == once);
        },
        _ => {},
    }
}

proof fn lemma_backfill_fields_len(fields: Seq<(Seq<char>, JsonView)>, i: int)
    requires
        0 <= i <= fields.len(),
    ensures
        spec_backfill_fields(fields, i).len() == fields.len() - i,
    decreases fields.len() - i,
{
    if i < fields.len() {
        lemma_backfill_fields_len(fields, i + 1);
    }
}

proof fn lemma_backfill_fields_at(fields: Seq<(Seq<char>, JsonView)>, i: int, j: int)
    requires
        0 <= i <= j < fields.len(),
    ensures
        spec_backfill_fields(fields, i).len() == fields.len() - i,
        spec_backfill_fields(fields, i)[j - i] == (fields[j].0, spec_backfill_entry(fields[j].1)),
    decreases j - i,
{
    lemma_backfill_fields_len(fields, i);
    if i < j {
        lemma_backfill_fields_at(fields, i + 1, j);
    }
}

proof fn lemma_backfill_fixed(once: Seq<(Seq<char>, JsonView)>, i: int)
    requires
        0 <= i <= once.len(),
        forall|j: int|
            0 <= j < once.len() ==> spec_backfill_entry((#[trigger] once[j]).1) == once[j].1,
    ensures
        spec_backfill_fields(once, i) =~= once.skip(i),
    decreases once.len() - i,
{
    if i < once.len() {
        lemma_backfill_fixed(once, i + 1);
        assert((once[i].0, spec_backfill_entry(once[i].1)) == once[i]);
        assert(spec_backfill_fields(once, i) =~= once.skip(i));
    }
}

/// The field backfill over a parsed detail document, mirroring
/// [`spec_backfill`]: every record that is an object and lacks the practice
/// flag gains its default; records that already hold the field — a toggled
/// flag among them — stand unchanged. Safe to run more than once — see
/// [`lemma_backfill_idempotent`].
pub fn backfill_practice(doc: JsonValue) -> (r: JsonValue)
    ensures
        json_view(r) == spec_backfill(json_view(doc)),
{
    match doc {
        JsonValue::Object(mut fields) => {
            let ghost fv = json_fields(fields@, 0);
            let mut out: Vec<(String, JsonValue)> = Vec::new();
            proof {
                lemma_json_fields_len(fields@, 0);
                assert(json_fields(out@, 0) =~= Seq::<(Seq<char>, JsonView)>::empty());
            }
            while fields.len() > 0
                invariant
                    json_fields(out@, 0) + spec_backfill_fields(json_fields(fields@, 0), 0) =~=
                        spec_backfill_fields(fv, 0),
                decreases fields.len(),
            {
                let ghost pre = json_fields(fields@, 0);
                let ghost pre_fields = fields@;
                let (k, v) = fields.remove(0);
                proof {
                    assert(fields@ =~= pre_fields.drop_first());
                    crate::json::lemma_json_fields_shift(pre_fields);
                    assert(pre =~= seq![(k@, json_view(v))] + json_fields(fields@, 0));
                    lemma_json_fields_len(pre_fields, 0);
                    assert(pre[0] == (k@, json_view(v)));
                    assert(spec_backfill_fields(pre, 0) == seq![
                        (pre[0].0, spec_backfill_entry(pre[0].1)),
                    ] + spec_backfill_fields(pre, 1));
                    lemma_backfill_fields_shift(pre, json_fields(fields@, 0));
                }
                let has_flag = match crate::json::json_get(&v, "practice") {
                    Some(_) => true,
                    None => false,
                };
                let new_v: JsonValue = match v {
                    JsonValue::Object(mut inner) => {
                        if !has_flag {
                            obj_set(&mut inner, "practice".to_owned(), JsonValue::Bool(false));
                        }
                        JsonValue::Object(inner)
                    },
                    other => other,
                };
                proof {
                    assert(json_view(new_v) == spec_backfill_entry(json_view(v)));
                }
                let ghost out_pre = out@;
                out.push((k, new_v));
                proof {
                    assert(out@ =~= out_pre.push((k, new_v)));
                    crate::json::lemma_json_fields_push(out_pre, k, new_v);
                }
            }
            proof {
                assert(json_fields(out@, 0) =~= spec_backfill_fields(fv, 0));
            }
            JsonValue::Object(out)
        },
        other => other,
    }
}

proof fn lemma_backfill_fields_shift(
    pre: Seq<(Seq<char>, JsonView)>,
    rest: Seq<(Seq<char>, JsonView)>,
)
    requires
        pre.len() == rest.len() + 1,
        forall|j: int| 0 <= j < rest.len() ==> pre[j + 1] == #[trigger] rest[j],
    ensures
        spec_backfill_fields(pre, 1) =~= spec_backfill_fields(rest, 0),
{
    lemma_backfill_fields_len(pre, 1);
    lemma_backfill_fields_len(rest, 0);
    assert forall|j: int| 0 <= j < rest.len() implies spec_backfill_fields(pre, 1)[j]
        == spec_backfill_fields(rest, 0)[j] by {
        lemma_backfill_fields_at(pre, 1, j + 1);
        lemma_backfill_fields_at(rest, 0, j);
    }
}

/// The string at `key`, when the field holds one.
pub open spec fn spec_get_str(v: JsonView, key: Seq<char>) -> Option<Seq<char>> {
    match spec_get(v, key) {
        Some(JsonView::Str(s)) => Some(s),
        _ => None,
    }
}

/// The boolean at `key`, when the field holds one.
pub open spec fn spec_get_bool(v: JsonView, key: Seq<char>) -> Option<bool> {
    match spec_get(v, key) {
        Some(JsonView::Bool(b)) => Some(b),
        _ => None,
    }
}

/// The integer at `key`, when the field holds one.
pub open spec fn spec_get_int(v: JsonView, key: Seq<char>) -> Option<int> {
    match spec_get(v, key) {
        Some(JsonView::Int(n)) => Some(n),
        _ => None,
    }
}

/// Executable mirror of [`spec_get_str`].
pub fn get_str<'a>(v: &'a JsonValue, key: &str) -> (r: Option<&'a String>)
    ensures
        match r {
            Some(s) => spec_get_str(json_view(*v), key@) == Some(s@),
            None => spec_get_str(json_view(*v), key@) is None,
        },
{
    match crate::json::json_get(v, key) {
        Some(x) => match x {
            JsonValue::Str(s) => Some(s),
            _ => None,
        },
        None => None,
    }
}

/// Executable mirror of [`spec_get_bool`].
pub fn get_bool(v: &JsonValue, key: &str) -> (r: Option<bool>)
    ensures
        r == spec_get_bool(json_view(*v), key@),
{
    match crate::json::json_get(v, key) {
        Some(x) => match x {
            JsonValue::Bool(b) => Some(*b),
            _ => None,
        },
        None => None,
    }
}

/// Executable mirror of [`spec_get_int`].
pub fn get_int(v: &JsonValue, key: &str) -> (r: Option<i64>)
    ensures
        match r {
            Some(n) => spec_get_int(json_view(*v), key@) == Some(n as int),
            None => spec_get_int(json_view(*v), key@) is None,
        },
{
    match crate::json::json_get(v, key) {
        Some(x) => match x {
            JsonValue::Int(n) => Some(*n),
            _ => None,
        },
        None => None,
    }
}

/// Whether a cached record carries the given rank: its `index` field is a
/// non-negative number whose unsigned 32-bit reduction equals the rank.
pub open spec fn matches_index_entry(v: JsonView, idx: u32) -> bool {
    match spec_get_int(v, "index"@) {
        Some(n) => n >= 0 && n % 0x1_0000_0000 == idx as int,
        None => false,
    }
}

/// Executable mirror of [`matches_index_entry`].
fn entry_matches_index(v: &JsonValue, idx: u32) -> (r: bool)
    ensures
        r == matches_index_entry(json_view(*v), idx),
{
    match get_int(v, "index") {
        Some(n) => {
            if n >= 0 {
                let t: u32 = #[verifier::truncate] (n as u32);
                proof {
                    assert(t == (n as int) % 0x1_0000_0000) by (bit_vector)
                        requires n >= 0 && t == n as u32;
                }
                t == idx
            } else {
                false
            }
        },
        None => false,
    }
}

/// A record with the practice flag stored; non-objects stand unchanged.
pub open spec fn with_practice(v: JsonView, p: bool) -> JsonView {
    match v {
        JsonView::Object(fields) => JsonView::Object(
            spec_obj_set(fields, "practice"@, JsonView::Bool(p)),
        ),
        other => other,
    }
}

/// The listing array with the first record of the given rank carrying the
/// new practice flag; records after the first match stand unchanged.
pub open spec fn set_practice_items(items: Seq<JsonView>, i: int, idx: u32, p: bool) -> Seq<
    JsonView,
>
    decreases items.len() - i,
{
    if i < 0 || i >= items.len() {
        seq![]
    } else if matches_index_entry(items[i], idx) {
        seq![with_practice(items[i], p)] + items.skip(i + 1)
    } else {
        seq![items[i]] + set_practice_items(items, i + 1, idx, p)
    }
}

proof fn lemma_set_items_shift(pre: Seq<JsonView>, i: int, idx: u32, p: bool)
    requires
        0 <= i < pre.len(),
    ensures
        set_practice_items(pre, i + 1, idx, p) =~= set_practice_items(pre.drop_first(), i, idx, p),
        items_have_index(pre, i + 1, idx) == items_have_index(pre.drop_first(), i, idx),
    decreases pre.len() - i,
{
    let d = pre.drop_first();
    if i + 1 == pre.len() {
        assert(set_practice_items(pre, i + 1, idx, p) =~= set_practice_items(d, i, idx, p));
    } else {
        assert(d[i] == pre[i + 1]);
        if matches_index_entry(pre[i + 1], idx) {
            assert(pre.skip(i + 2) =~= d.skip(i + 1));
            assert(set_practice_items(pre, i + 1, idx, p) =~= set_practice_items(d, i, idx, p));
        } else {
            lemma_set_items_shift(pre, i + 1, idx, p);
            assert(set_practice_items(pre, i + 1, idx, p) =~= set_practice_items(d, i, idx, p));
        }
    }
}

/// Whether some record of the array carries the given rank.
pub open spec fn items_have_index(items: Seq<JsonView>, i: int, idx: u32) -> bool
    decreases items.len() - i,
{
    if i < 0 || i >= items.len() {
        false
    } else {
        matches_index_entry(items[i], idx) || items_have_index(items, i + 1, idx)
    }
}

/// Toggles the practice flag on the listing document: the first record of
/// the given rank gains the flag; when no record matches, the document is
/// returned unchanged and the flag in the result says no write is needed.
/// A document that is not an array is reported as corrupt.
pub fn set_practice_in_list(doc: JsonValue, index: u32, practice: bool) -> (r: Result<
    (JsonValue, bool),
    CommandError,
>)
    ensures
        json_view(doc) is Array ==> match r {
            Ok(p) => json_view(p.0) == JsonView::Array(
                set_practice_items(json_view(doc)->Array_0, 0, index, practice),
            ) && p.1 == items_have_index(json_view(doc)->Array_0, 0, index),
            Err(_) => false,
        },
        !(json_view(doc) is Array) ==> r is Err,
{
    match doc {
        JsonValue::Array(mut items) => {
            let ghost iv = json_views(items@, 0);
            let mut out: Vec<JsonValue> = Vec::new();
            let mut found: bool = false;
            proof {
                lemma_json_views_len(items@, 0);
                assert(json_views(out@, 0) =~= Seq::<JsonView>::empty());
            }
            while items.len() > 0
                invariant
                    !found ==> json_views(out@, 0) + set_practice_items(
                        json_views(items@, 0),
                        0,
                        index,
                        practice,
                    ) =~= set_practice_items(iv, 0, index, practice) && items_have_index(
                        iv,
                        0,
                        index,
                    ) == items_have_index(json_views(items@, 0), 0, index),
                    found ==> json_views(out@, 0) + json_views(items@, 0) =~= set_practice_items(
                        iv,
                        0,
                        index,
                        practice,
                    ) && items_have_index(iv, 0, index),
                decreases items.len(),
            {
                let ghost pre_items = items@;
                let ghost pre = json_views(items@, 0);
                let v = items.remove(0);
                proof {
                    assert(items@ =~= pre_items.drop_first());
                    crate::json::lemma_json_views_shift(pre_items);
                    assert(pre =~= seq![json_view(v)] + json_views(items@, 0));
                    assert(pre[0] == json_view(v));
                    if pre.len() > 0 {
                        lemma_set_items_shift(pre, 0, index, practice);
                        assert(pre.drop_first() =~= json_views(items@, 0));
                        assert(pre.skip(1) =~= pre.drop_first());
                    }
                }
                if !found && entry_matches_index(&v, index) {
                    found = true;
                    let new_v: JsonValue = match v {
                        JsonValue::Object(mut inner) => {
                            obj_set(&mut inner, "practice".to_owned(), JsonValue::Bool(practice));
                            JsonValue::Object(inner)
                        },
                        other => other,
                    };
                    proof {
                        assert(json_view(new_v) == with_practice(json_view(v), practice));
                    }
                    let ghost out_pre = out@;
                    out.push(new_v);
                    proof {
                        assert(out@ =~= out_pre.push(new_v));
                        crate::json::lemma_json_views_push(out_pre, new_v);
                    }
                } else {
                    let ghost vv = json_view(v);
                    let ghost out_pre = out@;
                    out.push(v);
                    proof {
                        assert(out@ =~= out_pre.push(out@[out@.len() - 1]));
                        crate::json::lemma_json_views_push(out_pre, out@[out@.len() - 1]);
                        assert(json_views(out@, 0) =~= json_views(out_pre, 0) + seq![vv]);
                    }
                }
            }
            proof {
                assert(json_views(items@, 0) =~= Seq::<JsonView>::empty());
                if !found {
                    assert(set_practice_items(json_views(items@, 0), 0, index, practice) =~= Seq::<
                        JsonView,
                    >::empty());
                }
                assert(json_views(out@, 0) =~= set_practice_items(iv, 0, index, practice));
            }
            Ok((JsonValue::Array(out), found))
        },
        _ => Err(
            CommandError { message: "Failed to parse JSON: the listing is not an array".to_owned() },
        ),
    }
}

/// Index of the first detail-document field whose record carries the given
/// rank, or the length when none does.
pub open spec fn first_index_field(
    fields: Seq<(Seq<char>, JsonView)>,
    i: int,
    idx: u32,
) -> int
    decreases fields.len() - i,
{
    if i < 0 || i >= fields.len() {
        fields.len() as int
    } else if matches_index_entry(fields[i].1, idx) {
        i
    } else {
        first_index_field(fields, i + 1, idx)
    }
}

proof fn lemma_first_index_field_bounds(fields: Seq<(Seq<char>, JsonView)>, idx: u32, i: int)
    requires
        0 <= i <= fields.len(),
    ensures
        i <= first_index_field(fields, i, idx) <= fields.len(),
        first_index_field(fields, i, idx) < fields.len() ==> matches_index_entry(
            fields[first_index_field(fields, i, idx)].1,
            idx,
        ),
        forall|j: int|
            i <= j < first_index_field(fields, i, idx) ==> !matches_index_entry(
                (#[trigger] fields[j]).1,
                idx,
            ),
    decreases fields.len() - i,
{
    if i < fields.len() && !matches_index_entry(fields[i].1, idx) {
        lemma_first_index_field_bounds(fields, idx, i + 1);
    }
}

/// Toggles the practice flag on the detail document: the first record of
/// the given rank gains the flag; a document without such a record, or one
/// that is not the key-to-record map, is reported as an error.
pub fn set_practice_in_details(doc: &mut JsonValue, index: u32, practice: bool) -> (r: Result<
    (),
    CommandError,
>)
    ensures
        json_view(*old(doc)) is Object ==> {
            let fields = json_view(*old(doc))->Object_0;
            let at = first_index_field(fields, 0, index);
            if at < fields.len() {
                r is Ok && json_view(*final(doc)) == JsonView::Object(
                    fields.update(at, (fields[at].0, with_practice(fields[at].1, practice))),
                )
            } else {
                r is Err && json_view(*final(doc)) == json_view(*old(doc))
            }
        },
        !(json_view(*old(doc)) is Object) ==> r is Err && json_view(*final(doc)) == json_view(
            *old(doc),
        ),
{
    match doc {
        JsonValue::Object(fields) => {
            let ghost fv = json_fields(fields@, 0);
            proof {
                lemma_json_fields_len(fields@, 0);
                lemma_first_index_field_bounds(fv, index, 0);
            }
            let mut i: usize = 0;
            while i < fields.len()
                invariant
                    0 <= i <= fields.len(),
                    fv == json_fields(fields@, 0),
                    fv.len() == fields@.len(),
                    first_index_field(fv, 0, index) == first_index_field(fv, i as int, index),
                decreases fields.len() - i,
            {
                proof {
                    lemma_json_fields_index(fields@, i as int);
                }
                if entry_matches_index(&fields[i].1, index) {
                    let ghost pre_fields = fields@;
                    let (k, v) = fields.remove(i);
                    let new_v: JsonValue = match v {
                        JsonValue::Object(mut inner) => {
                            obj_set(&mut inner, "practice".to_owned(), JsonValue::Bool(practice));
                            JsonValue::Object(inner)
                        },
                        other => other,
                    };
                    proof {
                        assert(json_view(new_v) == with_practice(json_view(v), practice));
                    }
                    fields.insert(i, (k, new_v));
                    proof {
                        assert(first_index_field(fv, 0, index) == i);
                        assert(fields@ =~= pre_fields.update(i as int, (pre_fields[i as int].0, fields@[i as int].1)));
                        assert(json_fields(fields@, 0) =~= fv.update(
                            i as int,
                            (fv[i as int].0, with_practice(fv[i as int].1, practice)),
                        )) by {
                            lemma_json_fields_len(fields@, 0);
                            assert forall|j: int| 0 <= j < fields@.len() implies json_fields(
                                fields@,
                                0,
                            )[j] == fv.update(
                                i as int,
                                (fv[i as int].0, with_practice(fv[i as int].1, practice)),
                            )[j] by {
                                lemma_json_fields_index(fields@, j);
                                if j != i {
                                    lemma_json_fields_index(pre_fields, j);
                                }
                            }
                        }
                    }
                    return Ok(());
                }
                i += 1;
            }
            proof {
                assert(first_index_field(fv, 0, index) == fv.len());
            }
            Err(
                CommandError {
                    message: "kanji with that index was not found in the details".to_owned(),
                },
            )
        },
        _ => Err(
            CommandError { message: "Failed to parse JSON: the cache is not a map".to_owned() },
        ),
    }
}

/// An optional rich-text field as JSON: the string, or null.
pub open spec fn opt_json(v: Option<Seq<char>>) -> JsonView {
    match v {
        Some(s) => JsonView::Str(s),
        None => JsonView::Null,
    }
}

/// A tag's JSON form.
pub open spec fn tag_json(t: TagView) -> JsonView {
    JsonView::Object(seq![("name"@, JsonView::Str(t.name)), ("link"@, JsonView::Str(t.link))])
}

/// Strings as JSON items.
pub open spec fn strs_json(ss: Seq<Seq<char>>) -> Seq<JsonView> {
    ss.map_values(|s: Seq<char>| JsonView::Str(s))
}

/// A kunyomi entry's JSON form.
pub open spec fn kunyomi_json(k: crate::models::KunyomiView) -> JsonView {
    JsonView::Object(
        seq![
            ("reading"@, JsonView::Str(k.reading)),
            ("meaning"@, JsonView::Str(k.meaning)),
            ("tags"@, JsonView::Array(strs_json(k.tags))),
            ("usefulness"@, JsonView::Int(k.usefulness as int)),
        ],
    )
}

/// A component's JSON form.
pub open spec fn component_json(c: crate::models::ComponentView) -> JsonView {
    JsonView::Object(
        seq![
            ("kanji"@, JsonView::Str(c.kanji)),
            ("meaning"@, JsonView::Str(c.meaning)),
            ("href"@, JsonView::Str(c.href)),
            ("image_src"@, opt_json(c.image_src)),
        ],
    )
}

/// A compound-word example's JSON form.
pub open spec fn jukugo_json(j: crate::models::JukugoView) -> JsonView {
    JsonView::Object(
        seq![
            ("japanese"@, JsonView::Str(j.japanese)),
            ("reading"@, JsonView::Str(j.reading)),
            ("english"@, JsonView::Str(j.english)),
            ("tags"@, JsonView::Array(j.tags.map_values(|t: TagView| tag_json(t)))),
            ("usefulness"@, JsonView::Int(j.usefulness as int)),
            (
                "components"@,
                JsonView::Array(
                    j.components.map_values(
                        |c: crate::models::ComponentView| component_json(c),
                    ),
                ),
            ),
        ],
    )
}

/// A used-in reference's JSON form.
pub open spec fn used_in_json(u: crate::models::UsedInView) -> JsonView {
    JsonView::Object(seq![("kanji"@, JsonView::Str(u.kanji)), ("link"@, JsonView::Str(u.link))])
}

/// A synonym pair's JSON form.
pub open spec fn synonym_json(s: crate::models::SynonymView) -> JsonView {
    JsonView::Object(
        seq![("japanese"@, JsonView::Str(s.japanese)), ("english"@, JsonView::Str(s.english))],
    )
}

/// A lookalike's JSON form.
pub open spec fn lookalike_json(l: crate::models::LookalikeView) -> JsonView {
    JsonView::Object(
        seq![
            ("kanji"@, JsonView::Str(l.kanji)),
            ("kanji_link"@, JsonView::Str(l.kanji_link)),
            ("meaning"@, JsonView::Str(l.meaning)),
            ("hint"@, JsonView::Str(l.hint)),
            ("radical"@, JsonView::Str(l.radical)),
            ("radical_link"@, JsonView::Str(l.radical_link)),
        ],
    )
}

/// An onyomi pair's JSON form: a two-element array of reading and
/// description.
pub open spec fn onyomi_pair_json(p: (Seq<char>, Seq<char>)) -> JsonView {
    JsonView::Array(seq![JsonView::Str(p.0), JsonView::Str(p.1)])
}

/// A full record's JSON form: one object with every field of the record,
/// in the record's field order.
pub open spec fn detail_json(v: DetailView) -> JsonView {
    JsonView::Object(
        seq![
            ("index"@, JsonView::Int(v.index)),
            ("link"@, JsonView::Str(v.link)),
            ("kanji"@, JsonView::Str(v.kanji)),
            ("meanings"@, JsonView::Array(strs_json(v.meanings))),
            ("tags"@, JsonView::Array(v.tags.map_values(|t: TagView| tag_json(t)))),
            ("description"@, opt_json(v.description)),
            (
                "onyomi"@,
                JsonView::Array(
                    v.onyomi.map_values(|p: (Seq<char>, Seq<char>)| onyomi_pair_json(p)),
                ),
            ),
            (
                "kunyomi"@,
                JsonView::Array(
                    v.kunyomi.map_values(|k: crate::models::KunyomiView| kunyomi_json(k)),
                ),
            ),
            (
                "jukugo"@,
                JsonView::Array(
                    v.jukugo.map_values(|j: crate::models::JukugoView| jukugo_json(j)),
                ),
            ),
            ("mnemonic"@, opt_json(v.mnemonic)),
            ("usefulness"@, JsonView::Int(v.usefulness as int)),
            (
                "used_in"@,
                JsonView::Array(
                    v.used_in.map_values(|u: crate::models::UsedInView| used_in_json(u)),
                ),
            ),
            (
                "synonyms"@,
                JsonView::Array(
                    v.synonyms.map_values(|s: crate::models::SynonymView| synonym_json(s)),
                ),
            ),
            ("prev_link"@, opt_json(v.prev_link)),
            ("next_link"@, opt_json(v.next_link)),
            ("breakdown"@, JsonView::Str(v.breakdown)),
            (
                "lookalikes"@,
                JsonView::Array(
                    v.lookalikes.map_values(|l: crate::models::LookalikeView| lookalike_json(l)),
                ),
            ),
            ("practice"@, JsonView::Bool(v.practice)),
        ],
    )
}

fn opt_val(o: &Option<String>) -> (r: JsonValue)
    ensures
        json_view(r) == opt_json(crate::models::opt_str_view(*o)),
{
    match o {
        Some(s) => JsonValue::Str(s.clone()),
        None => JsonValue::Null,
    }
}

fn tag_val(t: &crate::models::Tag) -> (r: JsonValue)
    ensures
        json_view(r) == tag_json(t@),
{
    let mut fields: Vec<(String, JsonValue)> = Vec::new();
    fields.push(("name".to_owned(), JsonValue::Str(t.name.clone())));
    fields.push(("link".to_owned(), JsonValue::Str(t.link.clone())));
    proof {
        crate::json::lemma_json_fields_eq(fields@, tag_json(t@)->Object_0);
    }
    JsonValue::Object(fields)
}

fn strings_val(ss: &Vec<String>) -> (r: JsonValue)
    ensures
        json_view(r) == JsonView::Array(strs_json(ss.deep_view())),
{
    let mut out: Vec<JsonValue> = Vec::new();
    let mut i: usize = 0;
    while i < ss.len()
        invariant
            0 <= i <= ss.len(),
            out@.len() == i,
            forall|j: int|
                0 <= j < i ==> json_view(#[trigger] out@[j]) == JsonView::Str(ss@[j]@),
        decreases ss.len() - i,
    {
        out.push(JsonValue::Str(ss[i].clone()));
        i += 1;
    }
    proof {
        assert(forall|j: int| 0 <= j < i ==> strs_json(ss.deep_view())[j] == JsonView::Str(
            ss@[j]@,
        ));
        crate::json::lemma_json_views_eq(out@, strs_json(ss.deep_view()));
    }
    JsonValue::Array(out)
}

fn kunyomi_val(k: &crate::models::KunyomiEntry) -> (r: JsonValue)
    ensures
        json_view(r) == kunyomi_json(k@),
{
    let mut fields: Vec<(String, JsonValue)> = Vec::new();
    fields.push(("reading".to_owned(), JsonValue::Str(k.reading.clone())));
    fields.push(("meaning".to_owned(), JsonValue::Str(k.meaning.clone())));
    fields.push(("tags".to_owned(), strings_val(&k.tags)));
    fields.push(("usefulness".to_owned(), JsonValue::Int(k.usefulness as i64)));
    proof {
        crate::json::lemma_json_fields_eq(fields@, kunyomi_json(k@)->Object_0);
    }
    JsonValue::Object(fields)
}

fn component_val(c: &crate::models::Component) -> (r: JsonValue)
    ensures
        json_view(r) == component_json(c@),
{
    let mut fields: Vec<(String, JsonValue)> = Vec::new();
    fields.push(("kanji".to_owned(), JsonValue::Str(c.kanji.clone())));
    fields.push(("meaning".to_owned(), JsonValue::Str(c.meaning.clone())));
    fields.push(("href".to_owned(), JsonValue::Str(c.href.clone())));
    fields.push(("image_src".to_owned(), opt_val(&c.image_src)));
    proof {
        crate::json::lemma_json_fields_eq(fields@, component_json(c@)->Object_0);
    }
    JsonValue::Object(fields)
}

fn jukugo_val(j: &crate::models::Jukugo) -> (r: JsonValue)
    ensures
        json_view(r) == jukugo_json(j@),
{
    let mut tags: Vec<JsonValue> = Vec::new();
    let mut i: usize = 0;
    while i < j.tags.len()
        invariant
            0 <= i <= j.tags.len(),
            tags@.len() == i,
            forall|t: int|
                0 <= t < i ==> json_view(#[trigger] tags@[t]) == tag_json(j.tags@[t]@),
        decreases j.tags.len() - i,
    {
        tags.push(tag_val(&j.tags[i]));
        i += 1;
    }
    proof {
        crate::json::lemma_json_views_eq(
            tags@,
            j@.tags.map_values(|t: TagView| tag_json(t)),
        );
    }
    let mut comps: Vec<JsonValue> = Vec::new();
    let mut i2: usize = 0;
    while i2 < j.components.len()
        invariant
            0 <= i2 <= j.components.len(),
            comps@.len() == i2,
            forall|t: int|
                0 <= t < i2 ==> json_view(#[trigger] comps@[t]) == component_json(
                    j.components@[t]@,
                ),
        decreases j.components.len() - i2,
    {
        comps.push(component_val(&j.components[i2]));
        i2 += 1;
    }
    proof {
        crate::json::lemma_json_views_eq(
            comps@,
            j@.components.map_values(|c: crate::models::ComponentView| component_json(c)),
        );
    }
    let mut fields: Vec<(String, JsonValue)> = Vec::new();
    fields.push(("japanese".to_owned(), JsonValue::Str(j.japanese.clone())));
    fields.push(("reading".to_owned(), JsonValue::Str(j.reading.clone())));
    fields.push(("english".to_owned(), JsonValue::Str(j.english.clone())));
    fields.push(("tags".to_owned(), JsonValue::Array(tags)));
    fields.push(("usefulness".to_owned(), JsonValue::Int(j.usefulness as i64)));
    fields.push(("components".to_owned(), JsonValue::Array(comps)));
    proof {
        crate::json::lemma_json_fields_eq(fields@, jukugo_json(j@)->Object_0);
    }
    JsonValue::Object(fields)
}

/// A record's JSON form, mirroring [`detail_json`]: what the merge-write
/// stores for one kanji.
pub fn detail_to_json(d: &KanjiDetail) -> (r: JsonValue)
    ensures
        json_view(r) == detail_json(d@),
{
    let mut onyomi: Vec<JsonValue> = Vec::new();
    let mut i: usize = 0;
    while i < d.onyomi.len()
        invariant
            0 <= i <= d.onyomi.len(),
            onyomi@.len() == i,
            forall|t: int|
                0 <= t < i ==> json_view(#[trigger] onyomi@[t]) == onyomi_pair_json(
                    (d.onyomi@[t].0@, d.onyomi@[t].1@),
                ),
        decreases d.onyomi.len() - i,
    {
        let mut pair: Vec<JsonValue> = Vec::new();
        pair.push(JsonValue::Str(d.onyomi[i].0.clone()));
        pair.push(JsonValue::Str(d.onyomi[i].1.clone()));
        proof {
            crate::json::lemma_json_views_eq(
                pair@,
                seq![JsonView::Str(d.onyomi@[i as int].0@), JsonView::Str(d.onyomi@[i as int].1@)],
            );
        }
        onyomi.push(JsonValue::Array(pair));
        i += 1;
    }
    proof {
        crate::json::lemma_json_views_eq(
            onyomi@,
            d@.onyomi.map_values(|p: (Seq<char>, Seq<char>)| onyomi_pair_json(p)),
        );
    }
    let mut kunyomi: Vec<JsonValue> = Vec::new();
    let mut i2: usize = 0;
    while i2 < d.kunyomi.len()
        invariant
            0 <= i2 <= d.kunyomi.len(),
            kunyomi@.len() == i2,
            forall|t: int|
                0 <= t < i2 ==> json_view(#[trigger] kunyomi@[t]) == kunyomi_json(
                    d.kunyomi@[t]@,
                ),
        decreases d.kunyomi.len() - i2,
    {
        kunyomi.push(kunyomi_val(&d.kunyomi[i2]));
        i2 += 1;
    }
    proof {
        crate::json::lemma_json_views_eq(
            kunyomi@,
            d@.kunyomi.map_values(|k: crate::models::KunyomiView| kunyomi_json(k)),
        );
    }
    let mut jukugo: Vec<JsonValue> = Vec::new();
    let mut i3: usize = 0;
    while i3 < d.jukugo.len()
        invariant
            0 <= i3 <= d.jukugo.len(),
            jukugo@.len() == i3,
            forall|t: int|
                0 <= t < i3 ==> json_view(#[trigger] jukugo@[t]) == jukugo_json(d.jukugo@[t]@),
        decreases d.jukugo.len() - i3,
    {
        jukugo.push(jukugo_val(&d.jukugo[i3]));
        i3 += 1;
    }
    proof {
        crate::json::lemma_json_views_eq(
            jukugo@,
            d@.jukugo.map_values(|j: crate::models::JukugoView| jukugo_json(j)),
        );
    }
    let mut tags: Vec<JsonValue> = Vec::new();
    let mut i4: usize = 0;
    while i4 < d.tags.len()
        invariant
            0 <= i4 <= d.tags.len(),
            tags@.len() == i4,
            forall|t: int|
                0 <= t < i4 ==> json_view(#[trigger] tags@[t]) == tag_json(d.tags@[t]@),
        decreases d.tags.len() - i4,
    {
        tags.push(tag_val(&d.tags[i4]));
        i4 += 1;
    }
    proof {
        crate::json::lemma_json_views_eq(
            tags@,
            d@.tags.map_values(|t: TagView| tag_json(t)),
        );
    }
    let mut used_in: Vec<JsonValue> = Vec::new();
    let mut i5: usize = 0;
    while i5 < d.used_in.len()
        invariant
            0 <= i5 <= d.used_in.len(),
            used_in@.len() == i5,
            forall|t: int|
                0 <= t < i5 ==> json_view(#[trigger] used_in@[t]) == used_in_json(
                    d.used_in@[t]@,
                ),
        decreases d.used_in.len() - i5,
    {
        let u = &d.used_in[i5];
        let mut fields: Vec<(String, JsonValue)> = Vec::new();
        fields.push(("kanji".to_owned(), JsonValue::Str(u.kanji.clone())));
        fields.push(("link".to_owned(), JsonValue::Str(u.link.clone())));
        proof {
            crate::json::lemma_json_fields_eq(fields@, used_in_json(u@)->Object_0);
        }
        used_in.push(JsonValue::Object(fields));
        i5 += 1;
    }
    proof {
        crate::json::lemma_json_views_eq(
            used_in@,
            d@.used_in.map_values(|u: crate::models::UsedInView| used_in_json(u)),
        );
    }
    let mut synonyms: Vec<JsonValue> = Vec::new();
    let mut i6: usize = 0;
    while i6 < d.synonyms.len()
        invariant
            0 <= i6 <= d.synonyms.len(),
            synonyms@.len() == i6,
            forall|t: int|
                0 <= t < i6 ==> json_view(#[trigger] synonyms@[t]) == synonym_json(
                    d.synonyms@[t]@,
                ),
        decreases d.synonyms.len() - i6,
    {
        let sy = &d.synonyms[i6];
        let mut fields: Vec<(String, JsonValue)> = Vec::new();
        fields.push(("japanese".to_owned(), JsonValue::Str(sy.japanese.clone())));
        fields.push(("english".to_owned(), JsonValue::Str(sy.english.clone())));
        proof {
            crate::json::lemma_json_fields_eq(fields@, synonym_json(sy@)->Object_0);
        }
        synonyms.push(JsonValue::Object(fields));
        i6 += 1;
    }
    proof {
        crate::json::lemma_json_views_eq(
            synonyms@,
            d@.synonyms.map_values(|s: crate::models::SynonymView| synonym_json(s)),
        );
    }
    let mut lookalikes: Vec<JsonValue> = Vec::new();
    let mut i7: usize = 0;
    while i7 < d.lookalikes.len()
        invariant
            0 <= i7 <= d.lookalikes.len(),
            lookalikes@.len() == i7,
            forall|t: int|
                0 <= t < i7 ==> json_view(#[trigger] lookalikes@[t]) == lookalike_json(
                    d.lookalikes@[t]@,
                ),
        decreases d.lookalikes.len() - i7,
    {
        let l = &d.lookalikes[i7];
        let mut fields: Vec<(String, JsonValue)> = Vec::new();
        fields.push(("kanji".to_owned(), JsonValue::Str(l.kanji.clone())));
        fields.push(("kanji_link".to_owned(), JsonValue::Str(l.kanji_link.clone())));
        fields.push(("meaning".to_owned(), JsonValue::Str(l.meaning.clone())));
        fields.push(("hint".to_owned(), JsonValue::Str(l.hint.clone())));
        fields.push(("radical".to_owned(), JsonValue::Str(l.radical.clone())));
        fields.push(("radical_link".to_owned(), JsonValue::Str(l.radical_link.clone())));
        proof {
            crate::json::lemma_json_fields_eq(fields@, lookalike_json(l@)->Object_0);
        }
        lookalikes.push(JsonValue::Object(fields));
        i7 += 1;
    }
    proof {
        crate::json::lemma_json_views_eq(
            lookalikes@,
            d@.lookalikes.map_values(|l: crate::models::LookalikeView| lookalike_json(l)),
        );
    }
    let mut fields: Vec<(String, JsonValue)> = Vec::new();
    fields.push(("index".to_owned(), JsonValue::Int(d.index as i64)));
    fields.push(("link".to_owned(), JsonValue::Str(d.link.clone())));
    fields.push(("kanji".to_owned(), JsonValue::Str(d.kanji.clone())));
    fields.push(("meanings".to_owned(), strings_val(&d.meanings)));
    fields.push(("tags".to_owned(), JsonValue::Array(tags)));
    fields.push(("description".to_owned(), opt_val(&d.description)));
    fields.push(("onyomi".to_owned(), JsonValue::Array(onyomi)));
    fields.push(("kunyomi".to_owned(), JsonValue::Array(kunyomi)));
    fields.push(("jukugo".to_owned(), JsonValue::Array(jukugo)));
    fields.push(("mnemonic".to_owned(), opt_val(&d.mnemonic)));
    fields.push(("usefulness".to_owned(), JsonValue::Int(d.usefulness as i64)));
    fields.push(("used_in".to_owned(), JsonValue::Array(used_in)));
    fields.push(("synonyms".to_owned(), JsonValue::Array(synonyms)));
    fields.push(("prev_link".to_owned(), opt_val(&d.prev_link)));
    fields.push(("next_link".to_owned(), opt_val(&d.next_link)));
    fields.push(("breakdown".to_owned(), JsonValue::Str(d.breakdown.clone())));
    fields.push(("lookalikes".to_owned(), JsonValue::Array(lookalikes)));
    fields.push(("practice".to_owned(), JsonValue::Bool(d.practice)));
    proof {
        crate::json::lemma_json_fields_eq(fields@, detail_json(d@)->Object_0);
    }
    JsonValue::Object(fields)
}

/// A listing's JSON form.
pub open spec fn listing_json(v: crate::models::ListingView) -> JsonView {
    JsonView::Object(
        seq![
            ("index"@, JsonView::Int(v.index)),
            ("kanji"@, JsonView::Str(v.kanji)),
            ("meaning"@, JsonView::Str(v.meaning)),
            ("is_radical"@, JsonView::Bool(v.is_radical)),
            ("link"@, JsonView::Str(v.link)),
            ("has_image"@, JsonView::Bool(v.has_image)),
            ("practice"@, JsonView::Bool(v.practice)),
        ],
    )
}

/// The whole listing collection's JSON form: one array in collection order.
pub fn listings_to_json(ks: &Vec<crate::models::KanjiListing>) -> (r: JsonValue)
    ensures
        json_view(r) == JsonView::Array(
            crate::models::listing_views(ks@).map_values(
                |v: crate::models::ListingView| listing_json(v),
            ),
        ),
{
    let mut out: Vec<JsonValue> = Vec::new();
    let mut i: usize = 0;
    while i < ks.len()
        invariant
            0 <= i <= ks.len(),
            out@.len() == i,
            forall|t: int|
                0 <= t < i ==> json_view(#[trigger] out@[t]) == listing_json(ks@[t]@),
        decreases ks.len() - i,
    {
        let k = &ks[i];
        let mut fields: Vec<(String, JsonValue)> = Vec::new();
        fields.push(("index".to_owned(), JsonValue::Int(k.index as i64)));
        fields.push(("kanji".to_owned(), JsonValue::Str(k.kanji.clone())));
        fields.push(("meaning".to_owned(), JsonValue::Str(k.meaning.clone())));
        fields.push(("is_radical".to_owned(), JsonValue::Bool(k.is_radical)));
        fields.push(("link".to_owned(), JsonValue::Str(k.link.clone())));
        fields.push(("has_image".to_owned(), JsonValue::Bool(k.has_image)));
        fields.push(("practice".to_owned(), JsonValue::Bool(k.practice)));
        proof {
            crate::json::lemma_json_fields_eq(fields@, listing_json(k@)->Object_0);
        }
        out.push(JsonValue::Object(fields));
        i += 1;
    }
    proof {
        crate::json::lemma_json_views_eq(
            out@,
            crate::models::listing_views(ks@).map_values(
                |v: crate::models::ListingView| listing_json(v),
            ),
        );
    }
    JsonValue::Array(out)
}

/// What reading one listing back from its JSON form yields: all seven
/// fields must be present with their types (the rank within the signed
/// 32-bit range); extra fields are ignored.
pub open spec fn listing_of_json(v: JsonView) -> Option<crate::models::ListingView> {
    let index = spec_get_int(v, "index"@);
    let kanji = spec_get_str(v, "kanji"@);
    let meaning = spec_get_str(v, "meaning"@);
    let is_radical = spec_get_bool(v, "is_radical"@);
    let link = spec_get_str(v, "link"@);
    let has_image = spec_get_bool(v, "has_image"@);
    let practice = spec_get_bool(v, "practice"@);
    if index is Some && i32::MIN <= index->0 <= i32::MAX && kanji is Some && meaning is Some
        && is_radical is Some && link is Some && has_image is Some && practice is Some {
        Some(
            crate::models::ListingView {
                index: index->0,
                kanji: kanji->0,
                meaning: meaning->0,
                is_radical: is_radical->0,
                link: link->0,
                has_image: has_image->0,
                practice: practice->0,
            },
        )
    } else {
        None
    }
}

/// Executable mirror of [`listing_of_json`].
pub fn listing_from_json(v: &JsonValue) -> (r: Option<crate::models::KanjiListing>)
    ensures
        match r {
            Some(k) => listing_of_json(json_view(*v)) == Some(k@),
            None => listing_of_json(json_view(*v)) is None,
        },
{
    let index = match get_int(v, "index") {
        Some(n) => {
            if -0x8000_0000i64 <= n && n <= 0x7fff_ffffi64 {
                n as i32
            } else {
                return None;
            }
        },
        None => {
            return None;
        },
    };
    let kanji = match get_str(v, "kanji") {
        Some(s) => s.clone(),
        None => {
            return None;
        },
    };
    let meaning = match get_str(v, "meaning") {
        Some(s) => s.clone(),
        None => {
            return None;
        },
    };
    let is_radical = match get_bool(v, "is_radical") {
        Some(b) => b,
        None => {
            return None;
        },
    };
    let link = match get_str(v, "link") {
        Some(s) => s.clone(),
        None => {
            return None;
        },
    };
    let has_image = match get_bool(v, "has_image") {
        Some(b) => b,
        None => {
            return None;
        },
    };
    let practice = match get_bool(v, "practice") {
        Some(b) => b,
        None => {
            return None;
        },
    };
    Some(
        crate::models::KanjiListing {
            index,
            kanji,
            meaning,
            is_radical,
            link,
            has_image,
            practice,
        },
    )
}

/// What reading the whole listing collection back yields: the document must
/// be an array and every element a well-formed listing.
pub open spec fn listings_of_json_from(items: Seq<JsonView>, i: int) -> Option<
    Seq<crate::models::ListingView>,
>
    decreases items.len() - i,
{
    if i < 0 || i >= items.len() {
        Some(seq![])
    } else {
        match listing_of_json(items[i]) {
            Some(k) => match listings_of_json_from(items, i + 1) {
                Some(rest) => Some(seq![k] + rest),
                None => None,
            },
            None => None,
        }
    }
}

/// Reads the listing collection back from a parsed cache document,
/// mirroring [`listings_of_json_from`]; anything malformed is refused as a
/// corrupt cache rather than silently repaired.
pub fn listings_from_json(doc: &JsonValue) -> (r: Option<Vec<crate::models::KanjiListing>>)
    ensures
        match r {
            Some(ks) => json_view(*doc) is Array && listings_of_json_from(
                json_view(*doc)->Array_0,
                0,
            ) == Some(crate::models::listing_views(ks@)),
            None => json_view(*doc) is Array ==> listings_of_json_from(
                json_view(*doc)->Array_0,
                0,
            ) is None,
        },
{
    match doc {
        JsonValue::Array(items) => {
            let ghost iv = json_views(items@, 0);
            let mut out: Vec<crate::models::KanjiListing> = Vec::new();
            let mut i: usize = 0;
            proof {
                lemma_json_views_len(items@, 0);
            }
            while i < items.len()
                invariant
                    0 <= i <= items.len(),
                    iv == json_views(items@, 0),
                    iv.len() == items@.len(),
                    listings_of_json_from(iv, 0) == (match listings_of_json_from(iv, i as int) {
                        Some(rest) => Some(crate::models::listing_views(out@) + rest),
                        None => None::<Seq<crate::models::ListingView>>,
                    }),
                decreases items.len() - i,
            {
                proof {
                    lemma_json_views_index(items@, i as int);
                }
                match listing_from_json(&items[i]) {
                    Some(k) => {
                        let ghost before = out@;
                        out.push(k);
                        proof {
                            assert(crate::models::listing_views(out@) =~= crate::models::listing_views(
                                before,
                            ) + seq![k@]);
                            assert(listings_of_json_from(iv, 0) == (
                            match listings_of_json_from(iv, i + 1) {
                                Some(rest) => Some(crate::models::listing_views(out@) + rest),
                                None => None::<Seq<crate::models::ListingView>>,
                            }));
                        }
                    },
                    None => {
                        return None;
                    },
                }
                i += 1;
            }
            proof {
                assert(listings_of_json_from(iv, i as int) == Some(Seq::<
                    crate::models::ListingView,
                >::empty()));
                assert(crate::models::listing_views(out@) + Seq::<
                    crate::models::ListingView,
                >::empty() =~= crate::models::listing_views(out@));
            }
            Some(out)
        },
        _ => None,
    }
}

/// The integer at `key` when it is within a byte's range, as the strict
/// read of a star rating demands.
pub open spec fn spec_get_u8(v: JsonView, key: Seq<char>) -> Option<u8> {
    match spec_get_int(v, key) {
        Some(n) => if 0 <= n <= 255 {
            Some(n as u8)
        } else {
            None
        },
        None => None,
    }
}

/// Executable mirror of [`spec_get_u8`].
fn get_u8(v: &JsonValue, key: &str) -> (r: Option<u8>)
    ensures
        r == spec_get_u8(json_view(*v), key@),
{
    match get_int(v, key) {
        Some(n) => if 0 <= n && n <= 255 {
            Some(n as u8)
        } else {
            None
        },
        None => None,
    }
}

/// What strictly reading a tag back yields: both fields present as strings.
pub open spec fn tag_of_json(v: JsonView) -> Option<TagView> {
    match (spec_get_str(v, "name"@), spec_get_str(v, "link"@)) {
        (Some(name), Some(link)) => Some(TagView { name, link }),
        _ => None,
    }
}

fn tag_from_json(v: &JsonValue) -> (r: Option<crate::models::Tag>)
    ensures
        match r {
            Some(t) => tag_of_json(json_view(*v)) == Some(t@),
            None => tag_of_json(json_view(*v)) is None,
        },
{
    let name = match get_str(v, "name") {
        Some(s) => s.clone(),
        None => {
            return None;
        },
    };
    let link = match get_str(v, "link") {
        Some(s) => s.clone(),
        None => {
            return None;
        },
    };
    Some(crate::models::Tag { name, link })
}

/// What strictly reading a list of strings back yields: an array whose
/// every item is a string.
pub open spec fn strs_of_json(items: Seq<JsonView>, i: int) -> Option<Seq<Seq<char>>>
    decreases items.len() - i,
{
    if i < 0 || i >= items.len() {
        Some(seq![])
    } else {
        match items[i] {
            JsonView::Str(s) => match strs_of_json(items, i + 1) {
                Some(rest) => Some(seq![s] + rest),
                None => None,
            },
            _ => None,
        }
    }
}

fn strs_from_json(v: &JsonValue) -> (r: Option<Vec<String>>)
    ensures
        match r {
            Some(ss) => json_view(*v) is Array && strs_of_json(json_view(*v)->Array_0, 0) == Some(
                ss.deep_view(),
            ),
            None => json_view(*v) is Array ==> strs_of_json(json_view(*v)->Array_0, 0) is None,
        },
{
    match v {
        JsonValue::Array(items) => {
            let ghost iv = json_views(items@, 0);
            let mut out: Vec<String> = Vec::new();
            proof {
                lemma_json_views_len(items@, 0);
            }
            let mut i: usize = 0;
            while i < items.len()
                invariant
                    0 <= i <= items.len(),
                    iv == json_views(items@, 0),
                    iv.len() == items@.len(),
                    strs_of_json(iv, 0) == (match strs_of_json(iv, i as int) {
                        Some(rest) => Some(out.deep_view() + rest),
                        None => None::<Seq<Seq<char>>>,
                    }),
                decreases items.len() - i,
            {
                proof {
                    lemma_json_views_index(items@, i as int);
                }
                match &items[i] {
                    JsonValue::Str(s) => {
                        let ghost before = out.deep_view();
                        out.push(s.clone());
                        proof {
                            assert(out.deep_view() =~~= before + seq![s@]);
                        }
                    },
                    _ => {
                        return None;
                    },
                }
                i += 1;
            }
            proof {
                assert(out.deep_view() + Seq::<Seq<char>>::empty() =~~= out.deep_view());
            }
            Some(out)
        },
        _ => None,
    }
}

/// What strictly reading one kunyomi entry back yields.
pub open spec fn kunyomi_of_json(v: JsonView) -> Option<crate::models::KunyomiView> {
    let reading = spec_get_str(v, "reading"@);
    let meaning = spec_get_str(v, "meaning"@);
    let tags = match spec_get(v, "tags"@) {
        Some(JsonView::Array(items)) => strs_of_json(items, 0),
        _ => None,
    };
    let usefulness = spec_get_u8(v, "usefulness"@);
    if reading is Some && meaning is Some && tags is Some && usefulness is Some {
        Some(
            crate::models::KunyomiView {
                reading: reading->0,
                meaning: meaning->0,
                tags: tags->0,
                usefulness: usefulness->0,
            },
        )
    } else {
        None
    }
}

fn kunyomi_from_json(v: &JsonValue) -> (r: Option<crate::models::KunyomiEntry>)
    ensures
        match r {
            Some(k) => kunyomi_of_json(json_view(*v)) == Some(k@),
            None => kunyomi_of_json(json_view(*v)) is None,
        },
{
    let reading = match get_str(v, "reading") {
        Some(s) => s.clone(),
        None => {
            return None;
        },
    };
    let meaning = match get_str(v, "meaning") {
        Some(s) => s.clone(),
        None => {
            return None;
        },
    };
    let tags = match crate::json::json_get(v, "tags") {
        Some(t) => match strs_from_json(t) {
            Some(ss) => ss,
            None => {
                return None;
            },
        },
        None => {
            return None;
        },
    };
    let usefulness = match get_u8(v, "usefulness") {
        Some(n) => n,
        None => {
            return None;
        },
    };
    Some(crate::models::KunyomiEntry { reading, meaning, tags, usefulness })
}

/// What strictly reading one component back yields: the image reference may
/// be absent or null.
pub open spec fn component_of_json(v: JsonView) -> Option<crate::models::ComponentView> {
    let kanji = spec_get_str(v, "kanji"@);
    let meaning = spec_get_str(v, "meaning"@);
    let href = spec_get_str(v, "href"@);
    let image_src = match spec_get(v, "image_src"@) {
        Some(JsonView::Str(s)) => Some(Some(s)),
        Some(JsonView::Null) => Some(None),
        Some(_) => None,
        None => Some(None),
    };
    if kanji is Some && meaning is Some && href is Some && image_src is Some {
        Some(
            crate::models::ComponentView {
                kanji: kanji->0,
                meaning: meaning->0,
                href: href->0,
                image_src: image_src->0,
            },
        )
    } else {
        None
    }
}

fn component_from_json(v: &JsonValue) -> (r: Option<crate::models::Component>)
    ensures
        match r {
            Some(c) => component_of_json(json_view(*v)) == Some(c@),
            None => component_of_json(json_view(*v)) is None,
        },
{
    let kanji = match get_str(v, "kanji") {
        Some(s) => s.clone(),
        None => {
            return None;
        },
    };
    let meaning = match get_str(v, "meaning") {
        Some(s) => s.clone(),
        None => {
            return None;
        },
    };
    let href = match get_str(v, "href") {
        Some(s) => s.clone(),
        None => {
            return None;
        },
    };
    let image_src: Option<String> = match crate::json::json_get(v, "image_src") {
        Some(x) => match x {
            JsonValue::Str(s) => Some(s.clone()),
            JsonValue::Null => None,
            _ => {
                return None;
            },
        },
        None => None,
    };
    Some(crate::models::Component { kanji, meaning, href, image_src })
}

/// What strictly reading a list of tags back yields.
pub open spec fn tags_of_json(items: Seq<JsonView>, i: int) -> Option<Seq<TagView>>
    decreases items.len() - i,
{
    if i < 0 || i >= items.len() {
        Some(seq![])
    } else {
        match tag_of_json(items[i]) {
            Some(t) => match tags_of_json(items, i + 1) {
                Some(rest) => Some(seq![t] + rest),
                None => None,
            },
            None => None,
        }
    }
}

fn tags_list_from_json(v: &JsonValue) -> (r: Option<Vec<crate::models::Tag>>)
    ensures
        match r {
            Some(ts) => json_view(*v) is Array && tags_of_json(json_view(*v)->Array_0, 0) == Some(
                crate::detail::tag_views(ts@),
            ),
            None => json_view(*v) is Array ==> tags_of_json(json_view(*v)->Array_0, 0) is None,
        },
{
    match v {
        JsonValue::Array(items) => {
            let ghost iv = json_views(items@, 0);
            let mut out: Vec<crate::models::Tag> = Vec::new();
            proof {
                lemma_json_views_len(items@, 0);
            }
            let mut i: usize = 0;
            while i < items.len()
                invariant
                    0 <= i <= items.len(),
                    iv == json_views(items@, 0),
                    iv.len() == items@.len(),
                    tags_of_json(iv, 0) == (match tags_of_json(iv, i as int) {
                        Some(rest) => Some(crate::detail::tag_views(out@) + rest),
                        None => None::<Seq<TagView>>,
                    }),
                decreases items.len() - i,
            {
                proof {
                    lemma_json_views_index(items@, i as int);
                }
                match tag_from_json(&items[i]) {
                    Some(t) => {
                        let ghost before = crate::detail::tag_views(out@);
                        let ghost tv = t@;
                        out.push(t);
                        proof {
                            assert(crate::detail::tag_views(out@) =~= before + seq![tv]);
                        }
                    },
                    None => {
                        return None;
                    },
                }
                i += 1;
            }
            proof {
                assert(crate::detail::tag_views(out@) + Seq::<TagView>::empty() =~= crate::detail::tag_views(
                    out@,
                ));
            }
            Some(out)
        },
        _ => None,
    }
}

/// What strictly reading a list of components back yields.
pub open spec fn components_of_json(items: Seq<JsonView>, i: int) -> Option<
    Seq<crate::models::ComponentView>,
>
    decreases items.len() - i,
{
    if i < 0 || i >= items.len() {
        Some(seq![])
    } else {
        match component_of_json(items[i]) {
            Some(c) => match components_of_json(items, i + 1) {
                Some(rest) => Some(seq![c] + rest),
                None => None,
            },
            None => None,
        }
    }
}

fn components_list_from_json(v: &JsonValue) -> (r: Option<Vec<crate::models::Component>>)
    ensures
        match r {
            Some(cs) => json_view(*v) is Array && components_of_json(json_view(*v)->Array_0, 0)
                == Some(crate::detail::component_views(cs@)),
            None => json_view(*v) is Array ==> components_of_json(
                json_view(*v)->Array_0,
                0,
            ) is None,
        },
{
    match v {
        JsonValue::Array(items) => {
            let ghost iv = json_views(items@, 0);
            let mut out: Vec<crate::models::Component> = Vec::new();
            proof {
                lemma_json_views_len(items@, 0);
            }
            let mut i: usize = 0;
            while i < items.len()
                invariant
                    0 <= i <= items.len(),
                    iv == json_views(items@, 0),
                    iv.len() == items@.len(),
                    components_of_json(iv, 0) == (match components_of_json(iv, i as int) {
                        Some(rest) => Some(crate::detail::component_views(out@) + rest),
                        None => None::<Seq<crate::models::ComponentView>>,
                    }),
                decreases items.len() - i,
            {
                proof {
                    lemma_json_views_index(items@, i as int);
                }
                match component_from_json(&items[i]) {
                    Some(c) => {
                        let ghost before = crate::detail::component_views(out@);
                        let ghost cv = c@;
                        out.push(c);
                        proof {
                            assert(crate::detail::component_views(out@) =~= before + seq![cv]);
                        }
                    },
                    None => {
                        return None;
                    },
                }
                i += 1;
            }
            proof {
                assert(crate::detail::component_views(out@) + Seq::<
                    crate::models::ComponentView,
                >::empty() =~= crate::detail::component_views(out@));
            }
            Some(out)
        },
        _ => None,
    }
}

/// What strictly reading one compound-word example back yields.
pub open spec fn jukugo_of_json(v: JsonView) -> Option<crate::models::JukugoView> {
    let japanese = spec_get_str(v, "japanese"@);
    let reading = spec_get_str(v, "reading"@);
    let english = spec_get_str(v, "english"@);
    let tags = match spec_get(v, "tags"@) {
        Some(JsonView::Array(items)) => tags_of_json(items, 0),
        _ => None,
    };
    let usefulness = spec_get_u8(v, "usefulness"@);
    let components = match spec_get(v, "components"@) {
        Some(JsonView::Array(items)) => components_of_json(items, 0),
        _ => None,
    };
    if japanese is Some && reading is Some && english is Some && tags is Some && usefulness is Some
        && components is Some {
        Some(
            crate::models::JukugoView {
                japanese: japanese->0,
                reading: reading->0,
                english: english->0,
                tags: tags->0,
                usefulness: usefulness->0,
                components: components->0,
            },
        )
    } else {
        None
    }
}

fn jukugo_from_json(v: &JsonValue) -> (r: Option<crate::models::Jukugo>)
    ensures
        match r {
            Some(j) => jukugo_of_json(json_view(*v)) == Some(j@),
            None => jukugo_of_json(json_view(*v)) is None,
        },
{
    let japanese = match get_str(v, "japanese") {
        Some(s) => s.clone(),
        None => {
            return None;
        },
    };
    let reading = match get_str(v, "reading") {
        Some(s) => s.clone(),
        None => {
            return None;
        },
    };
    let english = match get_str(v, "english") {
        Some(s) => s.clone(),
        None => {
            return None;
        },
    };
    let tags = match crate::json::json_get(v, "tags") {
        Some(t) => match tags_list_from_json(t) {
            Some(ts) => ts,
            None => {
                return None;
            },
        },
        None => {
            return None;
        },
    };
    let usefulness = match get_u8(v, "usefulness") {
        Some(n) => n,
        None => {
            return None;
        },
    };
    let components = match crate::json::json_get(v, "components") {
        Some(c) => match components_list_from_json(c) {
            Some(cs) => cs,
            None => {
                return None;
            },
        },
        None => {
            return None;
        },
    };
    Some(
        crate::models::Jukugo { japanese, reading, english, tags, usefulness, components },
    )
}

/// What strictly reading one used-in reference back yields.
pub open spec fn used_in_of_json(v: JsonView) -> Option<crate::models::UsedInView> {
    match (spec_get_str(v, "kanji"@), spec_get_str(v, "link"@)) {
        (Some(kanji), Some(link)) => Some(crate::models::UsedInView { kanji, link }),
        _ => None,
    }
}

/// What strictly reading one synonym pair back yields.
pub open spec fn synonym_of_json(v: JsonView) -> Option<crate::models::SynonymView> {
    match (spec_get_str(v, "japanese"@), spec_get_str(v, "english"@)) {
        (Some(japanese), Some(english)) => Some(
            crate::models::SynonymView { japanese, english },
        ),
        _ => None,
    }
}

/// What strictly reading one lookalike back yields.
pub open spec fn lookalike_of_json(v: JsonView) -> Option<crate::models::LookalikeView> {
    let kanji = spec_get_str(v, "kanji"@);
    let kanji_link = spec_get_str(v, "kanji_link"@);
    let meaning = spec_get_str(v, "meaning"@);
    let hint = spec_get_str(v, "hint"@);
    let radical = spec_get_str(v, "radical"@);
    let radical_link = spec_get_str(v, "radical_link"@);
    if kanji is Some && kanji_link is Some && meaning is Some && hint is Some && radical is Some
        && radical_link is Some {
        Some(
            crate::models::LookalikeView {
                kanji: kanji->0,
                kanji_link: kanji_link->0,
                meaning: meaning->0,
                hint: hint->0,
                radical: radical->0,
                radical_link: radical_link->0,
            },
        )
    } else {
        None
    }
}

/// What strictly reading a list of used-in references back yields.
pub open spec fn used_ins_of_json(items: Seq<JsonView>, i: int) -> Option<
    Seq<crate::models::UsedInView>,
>
    decreases items.len() - i,
{
    if i < 0 || i >= items.len() {
        Some(seq![])
    } else {
        match used_in_of_json(items[i]) {
            Some(u) => match used_ins_of_json(items, i + 1) {
                Some(rest) => Some(seq![u] + rest),
                None => None,
            },
            None => None,
        }
    }
}

/// What strictly reading a list of synonym pairs back yields.
pub open spec fn synonyms_of_json(items: Seq<JsonView>, i: int) -> Option<
    Seq<crate::models::SynonymView>,
>
    decreases items.len() - i,
{
    if i < 0 || i >= items.len() {
        Some(seq![])
    } else {
        match synonym_of_json(items[i]) {
            Some(s) => match synonyms_of_json(items, i + 1) {
                Some(rest) => Some(seq![s] + rest),
                None => None,
            },
            None => None,
        }
    }
}

/// What strictly reading a list of lookalikes back yields.
pub open spec fn lookalikes_of_json(items: Seq<JsonView>, i: int) -> Option<
    Seq<crate::models::LookalikeView>,
>
    decreases items.len() - i,
{
    if i < 0 || i >= items.len() {
        Some(seq![])
    } else {
        match lookalike_of_json(items[i]) {
            Some(l) => match lookalikes_of_json(items, i + 1) {
                Some(rest) => Some(seq![l] + rest),
                None => None,
            },
            None => None,
        }
    }
}

fn used_in_from_json(v: &JsonValue) -> (r: Option<crate::models::UsedIn>)
    ensures
        match r {
            Some(u) => used_in_of_json(json_view(*v)) == Some(u@),
            None => used_in_of_json(json_view(*v)) is None,
        },
{
    let kanji = match get_str(v, "kanji") {
        Some(s) => s.clone(),
        None => {
            return None;
        },
    };
    let link = match get_str(v, "link") {
        Some(s) => s.clone(),
        None => {
            return None;
        },
    };
    Some(crate::models::UsedIn { kanji, link })
}

fn synonym_from_json(v: &JsonValue) -> (r: Option<crate::models::SynonymEntry>)
    ensures
        match r {
            Some(s) => synonym_of_json(json_view(*v)) == Some(s@),
            None => synonym_of_json(json_view(*v)) is None,
        },
{
    let japanese = match get_str(v, "japanese") {
        Some(s) => s.clone(),
        None => {
            return None;
        },
    };
    let english = match get_str(v, "english") {
        Some(s) => s.clone(),
        None => {
            return None;
        },
    };
    Some(crate::models::SynonymEntry { japanese, english })
}

fn lookalike_from_json(v: &JsonValue) -> (r: Option<crate::models::Lookalike>)
    ensures
        match r {
            Some(l) => lookalike_of_json(json_view(*v)) == Some(l@),
            None => lookalike_of_json(json_view(*v)) is None,
        },
{
    let kanji = match get_str(v, "kanji") {
        Some(s) => s.clone(),
        None => {
            return None;
        },
    };
    let kanji_link = match get_str(v, "kanji_link") {
        Some(s) => s.clone(),
        None => {
            return None;
        },
    };
    let meaning = match get_str(v, "meaning") {
        Some(s) => s.clone(),
        None => {
            return None;
        },
    };
    let hint = match get_str(v, "hint") {
        Some(s) => s.clone(),
        None => {
            return None;
        },
    };
    let radical = match get_str(v, "radical") {
        Some(s) => s.clone(),
        None => {
            return None;
        },
    };
    let radical_link = match get_str(v, "radical_link") {
        Some(s) => s.clone(),
        None => {
            return None;
        },
    };
    Some(
        crate::models::Lookalike { kanji, kanji_link, meaning, hint, radical, radical_link },
    )
}

/// The strings among the items `items[i..]`, non-strings skipped: the
/// forgiving read of the meanings list.
pub open spec fn loose_strs(items: Seq<JsonView>, i: int) -> Seq<Seq<char>>
    decreases items.len() - i,
{
    if i < 0 || i >= items.len() {
        seq![]
    } else {
        (match items[i] {
            JsonView::Str(s) => seq![s],
            _ => seq![],
        }) + loose_strs(items, i + 1)
    }
}

/// The practice-pool read of the cached onyomi list: each well-shaped entry
/// (an array whose first item is a string) contributes its comma-separated
/// readings, paired with an empty description; malformed entries are
/// skipped.
pub open spec fn pool_onyomi(items: Seq<JsonView>, i: int) -> Seq<(Seq<char>, Seq<char>)>
    decreases items.len() - i,
{
    if i < 0 || i >= items.len() {
        seq![]
    } else {
        (match items[i] {
            JsonView::Array(pair) => if pair.len() > 0 && pair[0] is Str {
                crate::text::spec_split_clean(pair[0]->Str_0, ',').map_values(
                    |s: Seq<char>| (s, Seq::<char>::empty()),
                )
            } else {
                seq![]
            },
            _ => seq![],
        }) + pool_onyomi(items, i + 1)
    }
}

/// A strict list read with a forgiving fallback: the whole list, or empty
/// when it is absent or any entry is malformed.
pub open spec fn loose_list<A>(parsed: Option<Option<Seq<A>>>) -> Seq<A> {
    match parsed {
        Some(Some(items)) => items,
        _ => seq![],
    }
}

/// The practice-pool read of one cached record: every field defensively,
/// absences and malformed values resolving to empty or default, the cached
/// onyomi readings re-split on commas, and the nested lists read strictly
/// as whole lists (a malformed entry drops the whole list, not the record).
pub open spec fn pool_detail(v: JsonView) -> DetailView {
    DetailView {
        index: match spec_get_int(v, "index"@) {
            Some(n) => if n >= 0 {
                n % 0x1_0000_0000
            } else {
                0
            },
            None => 0,
        },
        link: match spec_get_str(v, "link"@) {
            Some(s) => s,
            None => Seq::empty(),
        },
        kanji: match spec_get_str(v, "kanji"@) {
            Some(s) => s,
            None => Seq::empty(),
        },
        meanings: match spec_get(v, "meanings"@) {
            Some(JsonView::Array(items)) => loose_strs(items, 0),
            _ => seq![],
        },
        tags: loose_list(
            match spec_get(v, "tags"@) {
                Some(JsonView::Array(items)) => Some(tags_of_json(items, 0)),
                Some(_) => Some(None),
                None => None,
            },
        ),
        description: spec_get_str(v, "description"@),
        onyomi: match spec_get(v, "onyomi"@) {
            Some(JsonView::Array(items)) => pool_onyomi(items, 0),
            _ => seq![],
        },
        kunyomi: loose_list(
            match spec_get(v, "kunyomi"@) {
                Some(JsonView::Array(items)) => Some(kunyomis_of_json(items, 0)),
                Some(_) => Some(None),
                None => None,
            },
        ),
        jukugo: loose_list(
            match spec_get(v, "jukugo"@) {
                Some(JsonView::Array(items)) => Some(jukugos_of_json(items, 0)),
                Some(_) => Some(None),
                None => None,
            },
        ),
        mnemonic: spec_get_str(v, "mnemonic"@),
        usefulness: match spec_get_int(v, "usefulness"@) {
            Some(n) => if n >= 0 {
                (n % 256) as u8
            } else {
                0
            },
            None => 0,
        },
        used_in: loose_list(
            match spec_get(v, "used_in"@) {
                Some(JsonView::Array(items)) => Some(used_ins_of_json(items, 0)),
                Some(_) => Some(None),
                None => None,
            },
        ),
        synonyms: loose_list(
            match spec_get(v, "synonyms"@) {
                Some(JsonView::Array(items)) => Some(synonyms_of_json(items, 0)),
                Some(_) => Some(None),
                None => None,
            },
        ),
        prev_link: spec_get_str(v, "prev_link"@),
        next_link: spec_get_str(v, "next_link"@),
        breakdown: match spec_get_str(v, "breakdown"@) {
            Some(s) => s,
            None => Seq::empty(),
        },
        lookalikes: loose_list(
            match spec_get(v, "lookalikes"@) {
                Some(JsonView::Array(items)) => Some(lookalikes_of_json(items, 0)),
                Some(_) => Some(None),
                None => None,
            },
        ),
        practice: match spec_get_bool(v, "practice"@) {
            Some(b) => b,
            None => false,
        },
    }
}

/// What strictly reading a list of kunyomi entries back yields.
pub open spec fn kunyomis_of_json(items: Seq<JsonView>, i: int) -> Option<
    Seq<crate::models::KunyomiView>,
>
    decreases items.len() - i,
{
    if i < 0 || i >= items.len() {
        Some(seq![])
    } else {
        match kunyomi_of_json(items[i]) {
            Some(k) => match kunyomis_of_json(items, i + 1) {
                Some(rest) => Some(seq![k] + rest),
                None => None,
            },
            None => None,
        }
    }
}

/// What strictly reading a list of compound-word examples back yields.
pub open spec fn jukugos_of_json(items: Seq<JsonView>, i: int) -> Option<
    Seq<crate::models::JukugoView>,
>
    decreases items.len() - i,
{
    if i < 0 || i >= items.len() {
        Some(seq![])
    } else {
        match jukugo_of_json(items[i]) {
            Some(j) => match jukugos_of_json(items, i + 1) {
                Some(rest) => Some(seq![j] + rest),
                None => None,
            },
            None => None,
        }
    }
}


/// The comma-separated readings of one cached onyomi entry, each paired
/// with an empty description.
fn onyomi_pairs_of(sv: &String) -> (r: Vec<(String, String)>)
    ensures
        crate::detail::pair_views(r@) == crate::text::spec_split_clean(sv@, ',').map_values(
            |s: Seq<char>| (s, Seq::<char>::empty()),
        ),
{
    let cs = chars_of(sv.as_str());
    let readings = crate::text::split_clean(&cs, ',');
    let ghost rs = readings.deep_view();
    let ghost expected = crate::text::spec_split_clean(sv@, ',').map_values(
        |s: Seq<char>| (s, Seq::<char>::empty()),
    );
    let mut r: Vec<(String, String)> = Vec::new();
    let mut k: usize = 0;
    while k < readings.len()
        invariant
            0 <= k <= readings.len(),
            rs == readings.deep_view(),
            rs == crate::text::spec_split_clean(sv@, ','),
            r@.len() == k,
            forall|t: int|
                0 <= t < k ==> crate::detail::pair_views(r@)[t] == (
                rs[t],
                Seq::<char>::empty(),
                ),
        decreases readings.len() - k,
    {
        let ghost old_r = r@;
        r.push((crate::text::string_from_chars(&readings[k]), String::new()));
        proof {
            assert(readings.deep_view()[k as int] == readings[k as int]@);
            assert(crate::detail::pair_views(r@)[k as int] == (rs[k as int], Seq::<char>::empty()));
            assert forall|t: int| 0 <= t < k + 1 implies crate::detail::pair_views(r@)[t] == (
            rs[t],
            Seq::<char>::empty(),
            ) by {
                if t < k {
                    assert(r@[t] == old_r[t]);
                    assert(crate::detail::pair_views(old_r)[t] == (rs[t], Seq::<char>::empty()));
                }
            }
        }
        k += 1;
    }
    proof {
        assert(crate::detail::pair_views(r@) =~~= expected);
    }
    r
}

/// Strict list read of kunyomi entries.
fn kunyomi_list_from_json(v: &JsonValue) -> (r: Option<Vec<crate::models::KunyomiEntry>>)
    ensures
        match r {
            Some(ks) => json_view(*v) is Array && kunyomis_of_json(json_view(*v)->Array_0, 0)
                == Some(crate::detail::kunyomi_views(ks@)),
            None => json_view(*v) is Array ==> kunyomis_of_json(json_view(*v)->Array_0, 0) is None,
        },
{
    match v {
        JsonValue::Array(items) => {
            let ghost iv = json_views(items@, 0);
            let mut out: Vec<crate::models::KunyomiEntry> = Vec::new();
            proof {
                lemma_json_views_len(items@, 0);
            }
            let mut i: usize = 0;
            while i < items.len()
                invariant
                    0 <= i <= items.len(),
                    iv == json_views(items@, 0),
                    iv.len() == items@.len(),
                    kunyomis_of_json(iv, 0) == (match kunyomis_of_json(iv, i as int) {
                        Some(rest) => Some(crate::detail::kunyomi_views(out@) + rest),
                        None => None::<Seq<crate::models::KunyomiView>>,
                    }),
                decreases items.len() - i,
            {
                proof {
                    lemma_json_views_index(items@, i as int);
                }
                match kunyomi_from_json(&items[i]) {
                    Some(k) => {
                        let ghost before = crate::detail::kunyomi_views(out@);
                        let ghost kv = k@;
                        out.push(k);
                        proof {
                            assert(crate::detail::kunyomi_views(out@) =~~= before + seq![kv]);
                        }
                    },
                    None => {
                        return None;
                    },
                }
                i += 1;
            }
            proof {
                assert(crate::detail::kunyomi_views(out@) + Seq::<
                    crate::models::KunyomiView,
                >::empty() =~~= crate::detail::kunyomi_views(out@));
            }
            Some(out)
        },
        _ => None,
    }
}

/// Strict list read of compound-word examples.
fn jukugo_list_from_json(v: &JsonValue) -> (r: Option<Vec<crate::models::Jukugo>>)
    ensures
        match r {
            Some(js) => json_view(*v) is Array && jukugos_of_json(json_view(*v)->Array_0, 0)
                == Some(crate::detail::jukugo_views(js@)),
            None => json_view(*v) is Array ==> jukugos_of_json(json_view(*v)->Array_0, 0) is None,
        },
{
    match v {
        JsonValue::Array(items) => {
            let ghost iv = json_views(items@, 0);
            let mut out: Vec<crate::models::Jukugo> = Vec::new();
            proof {
                lemma_json_views_len(items@, 0);
            }
            let mut i: usize = 0;
            while i < items.len()
                invariant
                    0 <= i <= items.len(),
                    iv == json_views(items@, 0),
                    iv.len() == items@.len(),
                    jukugos_of_json(iv, 0) == (match jukugos_of_json(iv, i as int) {
                        Some(rest) => Some(crate::detail::jukugo_views(out@) + rest),
                        None => None::<Seq<crate::models::JukugoView>>,
                    }),
                decreases items.len() - i,
            {
                proof {
                    lemma_json_views_index(items@, i as int);
                }
                match jukugo_from_json(&items[i]) {
                    Some(j) => {
                        let ghost before = crate::detail::jukugo_views(out@);
                        let ghost jv = j@;
                        out.push(j);
                        proof {
                            assert(crate::detail::jukugo_views(out@) =~~= before + seq![jv]);
                        }
                    },
                    None => {
                        return None;
                    },
                }
                i += 1;
            }
            proof {
                assert(crate::detail::jukugo_views(out@) + Seq::<
                    crate::models::JukugoView,
                >::empty() =~~= crate::detail::jukugo_views(out@));
            }
            Some(out)
        },
        _ => None,
    }
}

/// Strict list read of used-in references.
fn used_in_list_from_json(v: &JsonValue) -> (r: Option<Vec<crate::models::UsedIn>>)
    ensures
        match r {
            Some(us) => json_view(*v) is Array && used_ins_of_json(json_view(*v)->Array_0, 0)
                == Some(crate::detail::used_in_views(us@)),
            None => json_view(*v) is Array ==> used_ins_of_json(json_view(*v)->Array_0, 0) is None,
        },
{
    match v {
        JsonValue::Array(items) => {
            let ghost iv = json_views(items@, 0);
            let mut out: Vec<crate::models::UsedIn> = Vec::new();
            proof {
                lemma_json_views_len(items@, 0);
            }
            let mut i: usize = 0;
            while i < items.len()
                invariant
                    0 <= i <= items.len(),
                    iv == json_views(items@, 0),
                    iv.len() == items@.len(),
                    used_ins_of_json(iv, 0) == (match used_ins_of_json(iv, i as int) {
                        Some(rest) => Some(crate::detail::used_in_views(out@) + rest),
                        None => None::<Seq<crate::models::UsedInView>>,
                    }),
                decreases items.len() - i,
            {
                proof {
                    lemma_json_views_index(items@, i as int);
                }
                match used_in_from_json(&items[i]) {
                    Some(u) => {
                        let ghost before = crate::detail::used_in_views(out@);
                        let ghost uv = u@;
                        out.push(u);
                        proof {
                            assert(crate::detail::used_in_views(out@) =~~= before + seq![uv]);
                        }
                    },
                    None => {
                        return None;
                    },
                }
                i += 1;
            }
            proof {
                assert(crate::detail::used_in_views(out@) + Seq::<
                    crate::models::UsedInView,
                >::empty() =~~= crate::detail::used_in_views(out@));
            }
            Some(out)
        },
        _ => None,
    }
}

/// Strict list read of synonym pairs.
fn synonym_list_from_json(v: &JsonValue) -> (r: Option<Vec<crate::models::SynonymEntry>>)
    ensures
        match r {
            Some(ss) => json_view(*v) is Array && synonyms_of_json(json_view(*v)->Array_0, 0)
                == Some(crate::detail::synonym_views(ss@)),
            None => json_view(*v) is Array ==> synonyms_of_json(json_view(*v)->Array_0, 0) is None,
        },
{
    match v {
        JsonValue::Array(items) => {
            let ghost iv = json_views(items@, 0);
            let mut out: Vec<crate::models::SynonymEntry> = Vec::new();
            proof {
                lemma_json_views_len(items@, 0);
            }
            let mut i: usize = 0;
            while i < items.len()
                invariant
                    0 <= i <= items.len(),
                    iv == json_views(items@, 0),
                    iv.len() == items@.len(),
                    synonyms_of_json(iv, 0) == (match synonyms_of_json(iv, i as int) {
                        Some(rest) => Some(crate::detail::synonym_views(out@) + rest),
                        None => None::<Seq<crate::models::SynonymView>>,
                    }),
                decreases items.len() - i,
            {
                proof {
                    lemma_json_views_index(items@, i as int);
                }
                match synonym_from_json(&items[i]) {
                    Some(sy) => {
                        let ghost before = crate::detail::synonym_views(out@);
                        let ghost sv2 = sy@;
                        out.push(sy);
                        proof {
                            assert(crate::detail::synonym_views(out@) =~~= before + seq![sv2]);
                        }
                    },
                    None => {
                        return None;
                    },
                }
                i += 1;
            }
            proof {
                assert(crate::detail::synonym_views(out@) + Seq::<
                    crate::models::SynonymView,
                >::empty() =~~= crate::detail::synonym_views(out@));
            }
            Some(out)
        },
        _ => None,
    }
}

/// Strict list read of lookalikes.
fn lookalike_list_from_json(v: &JsonValue) -> (r: Option<Vec<crate::models::Lookalike>>)
    ensures
        match r {
            Some(ls) => json_view(*v) is Array && lookalikes_of_json(json_view(*v)->Array_0, 0)
                == Some(crate::detail::lookalike_views(ls@)),
            None => json_view(*v) is Array ==> lookalikes_of_json(
                json_view(*v)->Array_0,
                0,
            ) is None,
        },
{
    match v {
        JsonValue::Array(items) => {
            let ghost iv = json_views(items@, 0);
            let mut out: Vec<crate::models::Lookalike> = Vec::new();
            proof {
                lemma_json_views_len(items@, 0);
            }
            let mut i: usize = 0;
            while i < items.len()
                invariant
                    0 <= i <= items.len(),
                    iv == json_views(items@, 0),
                    iv.len() == items@.len(),
                    lookalikes_of_json(iv, 0) == (match lookalikes_of_json(iv, i as int) {
                        Some(rest) => Some(crate::detail::lookalike_views(out@) + rest),
                        None => None::<Seq<crate::models::LookalikeView>>,
                    }),
                decreases items.len() - i,
            {
                proof {
                    lemma_json_views_index(items@, i as int);
                }
                match lookalike_from_json(&items[i]) {
                    Some(l) => {
                        let ghost before = crate::detail::lookalike_views(out@);
                        let ghost lv = l@;
                        out.push(l);
                        proof {
                            assert(crate::detail::lookalike_views(out@) =~~= before + seq![lv]);
                        }
                    },
                    None => {
                        return None;
                    },
                }
                i += 1;
            }
            proof {
                assert(crate::detail::lookalike_views(out@) + Seq::<
                    crate::models::LookalikeView,
                >::empty() =~~= crate::detail::lookalike_views(out@));
            }
            Some(out)
        },
        _ => None,
    }
}

/// The forgiving read of a string list: the strings among an array's
/// items, or empty for anything else.
fn loose_strings_from(v: &JsonValue) -> (r: Vec<String>)
    ensures
        r.deep_view() == (match json_view(*v) {
            JsonView::Array(items) => loose_strs(items, 0),
            _ => Seq::<Seq<char>>::empty(),
        }),
{
    match v {
        JsonValue::Array(items) => {
            let ghost iv = json_views(items@, 0);
            let mut out: Vec<String> = Vec::new();
            proof {
                lemma_json_views_len(items@, 0);
                assert(out.deep_view() =~~= Seq::<Seq<char>>::empty());
            }
            let mut i: usize = 0;
            while i < items.len()
                invariant
                    0 <= i <= items.len(),
                    iv == json_views(items@, 0),
                    iv.len() == items@.len(),
                    out.deep_view() + loose_strs(iv, i as int) =~~= loose_strs(iv, 0),
                decreases items.len() - i,
            {
                proof {
                    lemma_json_views_index(items@, i as int);
                }
                match &items[i] {
                    JsonValue::Str(sv) => {
                        let ghost before = out.deep_view();
                        out.push(sv.clone());
                        proof {
                            assert(out.deep_view() =~~= before + seq![sv@]);
                        }
                    },
                    _ => {},
                }
                i += 1;
            }
            out
        },
        _ => {
            let out: Vec<String> = Vec::new();
            proof {
                assert(out.deep_view() =~~= Seq::<Seq<char>>::empty());
            }
            out
        },
    }
}

/// The practice-pool read of the cached onyomi field, mirroring
/// [`pool_onyomi`].
fn pool_onyomi_from(v: &JsonValue) -> (r: Vec<(String, String)>)
    ensures
        crate::detail::pair_views(r@) == (match json_view(*v) {
            JsonView::Array(items) => pool_onyomi(items, 0),
            _ => Seq::<(Seq<char>, Seq<char>)>::empty(),
        }),
{
    match v {
        JsonValue::Array(items) => {
            let ghost iv = json_views(items@, 0);
            let mut out: Vec<(String, String)> = Vec::new();
            proof {
                lemma_json_views_len(items@, 0);
                assert(crate::detail::pair_views(out@) =~~= Seq::<
                    (Seq<char>, Seq<char>),
                >::empty());
            }
            let mut i: usize = 0;
            while i < items.len()
                invariant
                    0 <= i <= items.len(),
                    iv == json_views(items@, 0),
                    iv.len() == items@.len(),
                    crate::detail::pair_views(out@) + pool_onyomi(iv, i as int) =~~= pool_onyomi(
                        iv,
                        0,
                    ),
                decreases items.len() - i,
            {
                proof {
                    lemma_json_views_index(items@, i as int);
                }
                match &items[i] {
                    JsonValue::Array(pair) => {
                        proof {
                            lemma_json_views_len(pair@, 0);
                        }
                        if pair.len() > 0 {
                            proof {
                                lemma_json_views_index(pair@, 0);
                            }
                            match &pair[0] {
                                JsonValue::Str(sv) => {
                                    let mut extra = onyomi_pairs_of(sv);
                                    let ghost cv = crate::detail::pair_views(extra@);
                                    let ghost done = crate::detail::pair_views(out@);
                                    while extra.len() > 0
                                        invariant
                                            crate::detail::pair_views(out@)
                                                + crate::detail::pair_views(extra@) =~~= done + cv,
                                        decreases extra.len(),
                                    {
                                        let ghost ov = crate::detail::pair_views(out@);
                                        let ghost pv = crate::detail::pair_views(extra@);
                                        let p = extra.remove(0);
                                        out.push(p);
                                        proof {
                                            assert(crate::detail::pair_views(out@) =~~= ov + seq![
                                                pv[0],
                                            ]);
                                            assert(crate::detail::pair_views(extra@) =~~=
                                                pv.drop_first());
                                            assert(ov + seq![pv[0]] + crate::detail::pair_views(
                                                extra@,
                                            ) =~~= ov + pv);
                                        }
                                    }
                                    proof {
                                        assert(crate::detail::pair_views(extra@) =~~= Seq::<
                                            (Seq<char>, Seq<char>),
                                        >::empty());
                                        assert(crate::detail::pair_views(out@) =~~= done + cv);
                                    }
                                },
                                _ => {},
                            }
                        }
                    },
                    _ => {},
                }
                i += 1;
            }
            proof {
                assert(crate::detail::pair_views(out@) =~~= pool_onyomi(iv, 0));
            }
            out
        },
        _ => {
            let out: Vec<(String, String)> = Vec::new();
            proof {
                assert(crate::detail::pair_views(out@) =~~= Seq::<(Seq<char>, Seq<char>)>::empty());
            }
            out
        },
    }
}

/// The forgiving read of the rank field.
fn pool_index_from(v: &JsonValue) -> (r: u32)
    ensures
        r as int == pool_detail(json_view(*v)).index,
{
    match get_int(v, "index") {
        Some(n) => {
            if n >= 0 {
                let t: u32 = #[verifier::truncate] (n as u32);
                proof {
                    assert(t == (n as int) % 0x1_0000_0000) by (bit_vector)
                        requires n >= 0 && t == n as u32;
                }
                t
            } else {
                0
            }
        },
        None => 0,
    }
}

/// The forgiving read of the star-rating field.
fn pool_usefulness_from(v: &JsonValue) -> (r: u8)
    ensures
        r == pool_detail(json_view(*v)).usefulness,
{
    match get_int(v, "usefulness") {
        Some(n) => {
            if n >= 0 {
                (n % 256) as u8
            } else {
                0
            }
        },
        None => 0,
    }
}

/// The forgiving read of a string field, empty when absent or mistyped.
fn pool_str_or_empty(v: &JsonValue, key: &str) -> (r: String)
    ensures
        r@ == (match spec_get_str(json_view(*v), key@) {
            Some(s) => s,
            None => Seq::<char>::empty(),
        }),
{
    match get_str(v, key) {
        Some(s) => s.clone(),
        None => String::new(),
    }
}

/// The forgiving read of an optional string field.
fn pool_opt_str(v: &JsonValue, key: &str) -> (r: Option<String>)
    ensures
        crate::models::opt_str_view(r) == spec_get_str(json_view(*v), key@),
{
    match get_str(v, key) {
        Some(s) => Some(s.clone()),
        None => None,
    }
}

/// The forgiving read of the meanings list.
fn pool_meanings_from(v: &JsonValue) -> (r: Vec<String>)
    ensures
        r.deep_view() == pool_detail(json_view(*v)).meanings,
{
    let r = match crate::json::json_get(v, "meanings") {
        Some(m) => loose_strings_from(m),
        None => Vec::new(),
    };
    proof {
        if r@.len() == 0 {
            assert(r.deep_view() =~~= Seq::<Seq<char>>::empty());
        }
    }
    r
}

/// The forgiving read of the cached onyomi list.
fn pool_onyomi_field(v: &JsonValue) -> (r: Vec<(String, String)>)
    ensures
        crate::detail::pair_views(r@) == pool_detail(json_view(*v)).onyomi,
{
    let r = match crate::json::json_get(v, "onyomi") {
        Some(o) => pool_onyomi_from(o),
        None => Vec::new(),
    };
    proof {
        if r@.len() == 0 {
            assert(crate::detail::pair_views(r@) =~= Seq::<(Seq<char>, Seq<char>)>::empty());
        }
    }
    r
}

/// The forgiving whole-list read of the tags.
fn pool_tags_from(v: &JsonValue) -> (r: Vec<crate::models::Tag>)
    ensures
        crate::detail::tag_views(r@) == pool_detail(json_view(*v)).tags,
{
    let r = match crate::json::json_get(v, "tags") {
        Some(t) => match tags_list_from_json(t) {
            Some(ts) => ts,
            None => Vec::new(),
        },
        None => Vec::new(),
    };
    proof {
        if r@.len() == 0 {
            assert(crate::detail::tag_views(r@) =~= Seq::<TagView>::empty());
        }
    }
    r
}

/// The forgiving whole-list read of the kunyomi entries.
fn pool_kunyomi_from(v: &JsonValue) -> (r: Vec<crate::models::KunyomiEntry>)
    ensures
        crate::detail::kunyomi_views(r@) == pool_detail(json_view(*v)).kunyomi,
{
    let r = match crate::json::json_get(v, "kunyomi") {
        Some(t) => match kunyomi_list_from_json(t) {
            Some(ks) => ks,
            None => Vec::new(),
        },
        None => Vec::new(),
    };
    proof {
        if r@.len() == 0 {
            assert(crate::detail::kunyomi_views(r@) =~= Seq::<crate::models::KunyomiView>::empty());
        }
    }
    r
}

/// The forgiving whole-list read of the compound-word examples.
fn pool_jukugo_from(v: &JsonValue) -> (r: Vec<crate::models::Jukugo>)
    ensures
        crate::detail::jukugo_views(r@) == pool_detail(json_view(*v)).jukugo,
{
    let r = match crate::json::json_get(v, "jukugo") {
        Some(t) => match jukugo_list_from_json(t) {
            Some(js) => js,
            None => Vec::new(),
        },
        None => Vec::new(),
    };
    proof {
        if r@.len() == 0 {
            assert(crate::detail::jukugo_views(r@) =~= Seq::<crate::models::JukugoView>::empty());
        }
    }
    r
}

/// The forgiving whole-list read of the used-in references.
fn pool_used_in_from(v: &JsonValue) -> (r: Vec<crate::models::UsedIn>)
    ensures
        crate::detail::used_in_views(r@) == pool_detail(json_view(*v)).used_in,
{
    let r = match crate::json::json_get(v, "used_in") {
        Some(t) => match used_in_list_from_json(t) {
            Some(us) => us,
            None => Vec::new(),
        },
        None => Vec::new(),
    };
    proof {
        if r@.len() == 0 {
            assert(crate::detail::used_in_views(r@) =~= Seq::<crate::models::UsedInView>::empty());
        }
    }
    r
}

/// The forgiving whole-list read of the synonym pairs.
fn pool_synonyms_from(v: &JsonValue) -> (r: Vec<crate::models::SynonymEntry>)
    ensures
        crate::detail::synonym_views(r@) == pool_detail(json_view(*v)).synonyms,
{
    let r = match crate::json::json_get(v, "synonyms") {
        Some(t) => match synonym_list_from_json(t) {
            Some(ss) => ss,
            None => Vec::new(),
        },
        None => Vec::new(),
    };
    proof {
        if r@.len() == 0 {
            assert(crate::detail::synonym_views(r@) =~= Seq::<crate::models::SynonymView>::empty());
        }
    }
    r
}

/// The forgiving whole-list read of the lookalikes.
fn pool_lookalikes_from(v: &JsonValue) -> (r: Vec<crate::models::Lookalike>)
    ensures
        crate::detail::lookalike_views(r@) == pool_detail(json_view(*v)).lookalikes,
{
    let r = match crate::json::json_get(v, "lookalikes") {
        Some(t) => match lookalike_list_from_json(t) {
            Some(ls) => ls,
            None => Vec::new(),
        },
        None => Vec::new(),
    };
    proof {
        if r@.len() == 0 {
            assert(crate::detail::lookalike_views(r@) =~= Seq::<
                crate::models::LookalikeView,
            >::empty());
        }
    }
    r
}

/// The forgiving read of the practice flag.
fn pool_practice_from(v: &JsonValue) -> (r: bool)
    ensures
        r == pool_detail(json_view(*v)).practice,
{
    match get_bool(v, "practice") {
        Some(b) => b,
        None => false,
    }
}

/// Executable mirror of [`pool_detail`]: the forgiving read of one cached
/// record into the record type, as the practice pool performs it.
fn pool_detail_from(v: &JsonValue) -> (r: KanjiDetail)
    ensures
        r@ == pool_detail(json_view(*v)),
{
    KanjiDetail {
        index: pool_index_from(v),
        link: pool_str_or_empty(v, "link"),
        kanji: pool_str_or_empty(v, "kanji"),
        meanings: pool_meanings_from(v),
        tags: pool_tags_from(v),
        description: pool_opt_str(v, "description"),
        onyomi: pool_onyomi_field(v),
        kunyomi: pool_kunyomi_from(v),
        jukugo: pool_jukugo_from(v),
        mnemonic: pool_opt_str(v, "mnemonic"),
        usefulness: pool_usefulness_from(v),
        used_in: pool_used_in_from(v),
        synonyms: pool_synonyms_from(v),
        prev_link: pool_opt_str(v, "prev_link"),
        next_link: pool_opt_str(v, "next_link"),
        breakdown: pool_str_or_empty(v, "breakdown"),
        lookalikes: pool_lookalikes_from(v),
        practice: pool_practice_from(v),
    }
}

/// A strict optional string field: absent or null is an honest absence, a
/// string is a value, and anything else fails the read.
pub open spec fn strict_opt_str(v: JsonView, key: Seq<char>) -> Option<Option<Seq<char>>> {
    match spec_get(v, key) {
        None => Some(None),
        Some(JsonView::Null) => Some(None),
        Some(JsonView::Str(s)) => Some(Some(s)),
        Some(_) => None,
    }
}

fn strict_opt_str_from(v: &JsonValue, key: &str) -> (r: Option<Option<String>>)
    ensures
        match r {
            Some(o) => strict_opt_str(json_view(*v), key@) == Some(crate::models::opt_str_view(o)),
            None => strict_opt_str(json_view(*v), key@) is None,
        },
{
    match crate::json::json_get(v, key) {
        None => Some(None),
        Some(x) => match x {
            JsonValue::Null => Some(None),
            JsonValue::Str(s) => Some(Some(s.clone())),
            _ => None,
        },
    }
}

/// What strictly reading the onyomi pairs back yields: an array of
/// two-element arrays of strings.
pub open spec fn strict_pairs(items: Seq<JsonView>, i: int) -> Option<Seq<(Seq<char>, Seq<char>)>>
    decreases items.len() - i,
{
    if i < 0 || i >= items.len() {
        Some(seq![])
    } else {
        match items[i] {
            JsonView::Array(pair) => {
                if pair.len() == 2 && pair[0] is Str && pair[1] is Str {
                    match strict_pairs(items, i + 1) {
                        Some(rest) => Some(seq![(pair[0]->Str_0, pair[1]->Str_0)] + rest),
                        None => None,
                    }
                } else {
                    None
                }
            },
            _ => None,
        }
    }
}

fn strict_pairs_from(v: &JsonValue) -> (r: Option<Vec<(String, String)>>)
    ensures
        match r {
            Some(ps) => json_view(*v) is Array && strict_pairs(json_view(*v)->Array_0, 0) == Some(
                crate::detail::pair_views(ps@),
            ),
            None => json_view(*v) is Array ==> strict_pairs(json_view(*v)->Array_0, 0) is None,
        },
{
    match v {
        JsonValue::Array(items) => {
            let ghost iv = json_views(items@, 0);
            let mut out: Vec<(String, String)> = Vec::new();
            proof {
                lemma_json_views_len(items@, 0);
            }
            let mut i: usize = 0;
            while i < items.len()
                invariant
                    0 <= i <= items.len(),
                    iv == json_views(items@, 0),
                    iv.len() == items@.len(),
                    strict_pairs(iv, 0) == (match strict_pairs(iv, i as int) {
                        Some(rest) => Some(crate::detail::pair_views(out@) + rest),
                        None => None::<Seq<(Seq<char>, Seq<char>)>>,
                    }),
                decreases items.len() - i,
            {
                proof {
                    lemma_json_views_index(items@, i as int);
                }
                match &items[i] {
                    JsonValue::Array(pair) => {
                        proof {
                            lemma_json_views_len(pair@, 0);
                        }
                        if pair.len() != 2 {
                            return None;
                        }
                        proof {
                            lemma_json_views_index(pair@, 0);
                            lemma_json_views_index(pair@, 1);
                        }
                        let a: String = match &pair[0] {
                            JsonValue::Str(s) => s.clone(),
                            _ => {
                                return None;
                            },
                        };
                        let b: String = match &pair[1] {
                            JsonValue::Str(s) => s.clone(),
                            _ => {
                                return None;
                            },
                        };
                        let ghost before = crate::detail::pair_views(out@);
                        out.push((a, b));
                        proof {
                            assert(crate::detail::pair_views(out@) =~~= before + seq![
                                (iv[i as int]->Array_0[0]->Str_0, iv[i as int]->Array_0[1]->Str_0),
                            ]);
                        }
                    },
                    _ => {
                        return None;
                    },
                }
                i += 1;
            }
            proof {
                assert(crate::detail::pair_views(out@) + Seq::<(Seq<char>, Seq<char>)>::empty()
                    =~~= crate::detail::pair_views(out@));
            }
            Some(out)
        },
        _ => None,
    }
}

/// What strictly reading a whole record back from the cache yields: every
/// field present with its type (optional fields may be absent or null) —
/// anything else fails, so a corrupt cache entry is reported rather than
/// silently repaired.
pub open spec fn detail_of_json(v: JsonView) -> Option<DetailView> {
    let index = spec_get_int(v, "index"@);
    let link = spec_get_str(v, "link"@);
    let kanji = spec_get_str(v, "kanji"@);
    let meanings = match spec_get(v, "meanings"@) {
        Some(JsonView::Array(items)) => strs_of_json(items, 0),
        _ => None,
    };
    let tags = match spec_get(v, "tags"@) {
        Some(JsonView::Array(items)) => tags_of_json(items, 0),
        _ => None,
    };
    let description = strict_opt_str(v, "description"@);
    let onyomi = match spec_get(v, "onyomi"@) {
        Some(JsonView::Array(items)) => strict_pairs(items, 0),
        _ => None,
    };
    let kunyomi = match spec_get(v, "kunyomi"@) {
        Some(JsonView::Array(items)) => kunyomis_of_json(items, 0),
        _ => None,
    };
    let jukugo = match spec_get(v, "jukugo"@) {
        Some(JsonView::Array(items)) => jukugos_of_json(items, 0),
        _ => None,
    };
    let mnemonic = strict_opt_str(v, "mnemonic"@);
    let usefulness = spec_get_u8(v, "usefulness"@);
    let used_in = match spec_get(v, "used_in"@) {
        Some(JsonView::Array(items)) => used_ins_of_json(items, 0),
        _ => None,
    };
    let synonyms = match spec_get(v, "synonyms"@) {
        Some(JsonView::Array(items)) => synonyms_of_json(items, 0),
        _ => None,
    };
    let prev_link = strict_opt_str(v, "prev_link"@);
    let next_link = strict_opt_str(v, "next_link"@);
    let breakdown = spec_get_str(v, "breakdown"@);
    let lookalikes = match spec_get(v, "lookalikes"@) {
        Some(JsonView::Array(items)) => lookalikes_of_json(items, 0),
        _ => None,
    };
    let practice = spec_get_bool(v, "practice"@);
    if index is Some && 0 <= index->0 <= u32::MAX && link is Some && kanji is Some
        && meanings is Some && tags is Some && description is Some && onyomi is Some
        && kunyomi is Some && jukugo is Some && mnemonic is Some && usefulness is Some
        && used_in is Some && synonyms is Some && prev_link is Some && next_link is Some
        && breakdown is Some && lookalikes is Some && practice is Some {
        Some(
            DetailView {
                index: index->0,
                link: link->0,
                kanji: kanji->0,
                meanings: meanings->0,
                tags: tags->0,
                description: description->0,
                onyomi: onyomi->0,
                kunyomi: kunyomi->0,
                jukugo: jukugo->0,
                mnemonic: mnemonic->0,
                usefulness: usefulness->0,
                used_in: used_in->0,
                synonyms: synonyms->0,
                prev_link: prev_link->0,
                next_link: next_link->0,
                breakdown: breakdown->0,
                lookalikes: lookalikes->0,
                practice: practice->0,
            },
        )
    } else {
        None
    }
}

/// Executable mirror of [`detail_of_json`]: the strict read of one cached
/// record, as the cache-hit path of record retrieval performs it.
#[verifier::rlimit(100)]
pub fn detail_from_json(v: &JsonValue) -> (r: Option<KanjiDetail>)
    ensures
        match r {
            Some(d) => detail_of_json(json_view(*v)) == Some(d@),
            None => detail_of_json(json_view(*v)) is None,
        },
{
    let index: u32 = match get_int(v, "index") {
        Some(n) => {
            if 0 <= n && n <= 0xffff_ffffi64 {
                n as u32
            } else {
                return None;
            }
        },
        None => {
            return None;
        },
    };
    let link: String = match get_str(v, "link") {
        Some(s) => s.clone(),
        None => {
            return None;
        },
    };
    let kanji: String = match get_str(v, "kanji") {
        Some(s) => s.clone(),
        None => {
            return None;
        },
    };
    let meanings: Vec<String> = match crate::json::json_get(v, "meanings") {
        Some(m) => match strs_from_json(m) {
            Some(ss) => ss,
            None => {
                return None;
            },
        },
        None => {
            return None;
        },
    };
    let tags: Vec<crate::models::Tag> = match crate::json::json_get(v, "tags") {
        Some(t) => match tags_list_from_json(t) {
            Some(ts) => ts,
            None => {
                return None;
            },
        },
        None => {
            return None;
        },
    };
    let description: Option<String> = match strict_opt_str_from(v, "description") {
        Some(o) => o,
        None => {
            return None;
        },
    };
    let onyomi: Vec<(String, String)> = match crate::json::json_get(v, "onyomi") {
        Some(o) => match strict_pairs_from(o) {
            Some(ps) => ps,
            None => {
                return None;
            },
        },
        None => {
            return None;
        },
    };
    let kunyomi: Vec<crate::models::KunyomiEntry> = match crate::json::json_get(v, "kunyomi") {
        Some(t) => match kunyomi_list_from_json(t) {
            Some(ks) => ks,
            None => {
                return None;
            },
        },
        None => {
            return None;
        },
    };
    let jukugo: Vec<crate::models::Jukugo> = match crate::json::json_get(v, "jukugo") {
        Some(t) => match jukugo_list_from_json(t) {
            Some(js) => js,
            None => {
                return None;
            },
        },
        None => {
            return None;
        },
    };
    let mnemonic: Option<String> = match strict_opt_str_from(v, "mnemonic") {
        Some(o) => o,
        None => {
            return None;
        },
    };
    let usefulness: u8 = match get_u8(v, "usefulness") {
        Some(n) => n,
        None => {
            return None;
        },
    };
    let used_in: Vec<crate::models::UsedIn> = match crate::json::json_get(v, "used_in") {
        Some(t) => match used_in_list_from_json(t) {
            Some(us) => us,
            None => {
                return None;
            },
        },
        None => {
            return None;
        },
    };
    let synonyms: Vec<crate::models::SynonymEntry> = match crate::json::json_get(v, "synonyms") {
        Some(t) => match synonym_list_from_json(t) {
            Some(ss) => ss,
            None => {
                return None;
            },
        },
        None => {
            return None;
        },
    };
    let prev_link: Option<String> = match strict_opt_str_from(v, "prev_link") {
        Some(o) => o,
        None => {
            return None;
        },
    };
    let next_link: Option<String> = match strict_opt_str_from(v, "next_link") {
        Some(o) => o,
        None => {
            return None;
        },
    };
    let breakdown: String = match get_str(v, "breakdown") {
        Some(s) => s.clone(),
        None => {
            return None;
        },
    };
    let lookalikes: Vec<crate::models::Lookalike> = match crate::json::json_get(v, "lookalikes") {
        Some(t) => match lookalike_list_from_json(t) {
            Some(ls) => ls,
            None => {
                return None;
            },
        },
        None => {
            return None;
        },
    };
    let practice: bool = match get_bool(v, "practice") {
        Some(b) => b,
        None => {
            return None;
        },
    };
    Some(
        KanjiDetail {
            index,
            link,
            kanji,
            meanings,
            tags,
            description,
            onyomi,
            kunyomi,
            jukugo,
            mnemonic,
            usefulness,
            used_in,
            synonyms,
            prev_link,
            next_link,
            breakdown,
            lookalikes,
            practice,
        },
    )
}

/// The ghost values of a vector of records.
pub open spec fn detail_views(ds: Seq<KanjiDetail>) -> Seq<DetailView> {
    ds.map_values(|d: KanjiDetail| d@)
}

/// The practice pool read from the detail document's fields from `i` on:
/// the forgiving read of every record whose practice flag is set, in
/// document order.
pub open spec fn pool_of(fields: Seq<(Seq<char>, JsonView)>, i: int) -> Seq<DetailView>
    decreases fields.len() - i,
{
    if i < 0 || i >= fields.len() {
        seq![]
    } else {
        (if spec_get_bool(fields[i].1, "practice"@) == Some(true) {
            seq![pool_detail(fields[i].1)]
        } else {
            seq![]
        }) + pool_of(fields, i + 1)
    }
}

/// Relies on rand's `SliceRandom::shuffle` with the thread generator:
/// reorders the elements in place. Which order comes back depends on the
/// generator's state, so only the multiset of record values is promised.
#[verifier::external_body]
fn shuffle_details(v: &mut Vec<KanjiDetail>)
    ensures
        final(v)@.map_values(|d: KanjiDetail| d@).to_multiset() == old(v)@.map_values(
            |d: KanjiDetail| d@,
        ).to_multiset(),
{
    v.shuffle(&mut rand::thread_rng());
}

/// Builds the practice pool from a parsed detail document: every record
/// marked for practice, read forgivingly and returned in randomized order —
/// exactly the marked records, as a multiset. A document that is not the
/// key-to-record map is reported as corrupt.
pub fn initialize_practice_pool(doc: &JsonValue) -> (r: Result<Vec<KanjiDetail>, CommandError>)
    ensures
        json_view(*doc) is Object ==> match r {
            Ok(ds) => detail_views(ds@).to_multiset() == pool_of(
                json_view(*doc)->Object_0,
                0,
            ).to_multiset(),
            Err(_) => false,
        },
        !(json_view(*doc) is Object) ==> r is Err,
{
    match doc {
        JsonValue::Object(fields) => {
            let ghost fv = json_fields(fields@, 0);
            proof {
                lemma_json_fields_len(fields@, 0);
            }
            let mut out: Vec<KanjiDetail> = Vec::new();
            proof {
                assert(detail_views(out@) =~= Seq::<DetailView>::empty());
            }
            let mut i: usize = 0;
            while i < fields.len()
                invariant
                    0 <= i <= fields.len(),
                    fv == json_fields(fields@, 0),
                    fv.len() == fields@.len(),
                    detail_views(out@) + pool_of(fv, i as int) =~= pool_of(fv, 0),
                decreases fields.len() - i,
            {
                proof {
                    lemma_json_fields_index(fields@, i as int);
                }
                let marked = match get_bool(&fields[i].1, "practice") {
                    Some(b) => b,
                    None => false,
                };
                if marked {
                    let d = pool_detail_from(&fields[i].1);
                    let ghost before = detail_views(out@);
                    let ghost dv = d@;
                    out.push(d);
                    proof {
                        assert(detail_views(out@) =~= before + seq![dv]);
                    }
                }
                i += 1;
            }
            proof {
                assert(detail_views(out@) =~= pool_of(fv, 0));
            }
            if out.len() > 0 {
                shuffle_details(&mut out);
            }
            Ok(out)
        },
        _ => Err(
            CommandError { message: "Failed to parse JSON: the cache is not a map".to_owned() },
        ),
    }
}

} // verus!
