//! Attaching the category trail to a product record: the `keywords` array and
//! the joined `category` string, overwriting those two fields and leaving
//! every other field untouched.

use vstd::prelude::*;
use crate::json::{JsonValue, field_of, obj_fields, spec_first_product};
use crate::json::{JsonModel, fields_model, jmodel, model_fields};
use crate::json::{arr_items, items_model, lemma_jmodel_arr, lemma_jmodel_obj};
use crate::json::first_product_record;
use crate::json::lemma_first_product_is_product;
use crate::text::{cleaned, cleaned_all, joined};
use crate::text::{clean_entries, join_entries};

verus! {

/// The field sequence with the value under `key` replaced (at the first
/// field of that name, keeping its place), or appended when absent.
pub open spec fn spec_set_field(
    fields: Seq<(String, JsonValue)>,
    key: String,
    value: JsonValue,
) -> Seq<(String, JsonValue)>
    decreases fields.len(),
{
    if fields.len() == 0 {
        seq![(key, value)]
    } else if fields.first().0@ == key@ {
        seq![(fields.first().0, value)] + fields.drop_first()
    } else {
        seq![fields.first()] + spec_set_field(fields.drop_first(), key, value)
    }
}

/// After setting `key`, looking `key` up yields exactly the new value.
pub proof fn lemma_set_field_same(fields: Seq<(String, JsonValue)>, key: String, value: JsonValue)
    ensures
        field_of(spec_set_field(fields, key, value), key@) == Some(value),
    decreases fields.len(),
{
    if fields.len() != 0 && fields.first().0@ != key@ {
        lemma_set_field_same(fields.drop_first(), key, value);
        assert((seq![fields.first()] + spec_set_field(fields.drop_first(), key, value)).drop_first()
            =~= spec_set_field(fields.drop_first(), key, value));
    }
}

/// Setting `key` leaves the value under every other name unchanged.
pub proof fn lemma_set_field_other(
    fields: Seq<(String, JsonValue)>,
    key: String,
    value: JsonValue,
    other: Seq<char>,
)
    requires
        other != key@,
    ensures
        field_of(spec_set_field(fields, key, value), other) == field_of(fields, other),
    decreases fields.len(),
{
    reveal_with_fuel(field_of, 3);
    if fields.len() == 0 {
        assert(seq![(key, value)].first() == (key, value));
        assert(seq![(key, value)].drop_first() =~= Seq::<(String, JsonValue)>::empty());
    } else if fields.first().0@ == key@ {
        assert((seq![(fields.first().0, value)] + fields.drop_first()).first() == (
            fields.first().0,
            value,
        ));
        assert((seq![(fields.first().0, value)] + fields.drop_first()).drop_first()
            =~= fields.drop_first());
    } else {
        lemma_set_field_other(fields.drop_first(), key, value, other);
        assert((seq![fields.first()] + spec_set_field(fields.drop_first(), key, value)).first()
            == fields.first());
        assert((seq![fields.first()] + spec_set_field(fields.drop_first(), key, value)).drop_first()
            =~= spec_set_field(fields.drop_first(), key, value));
    }
}

/// The model-level mirror of `spec_set_field`: the field models with the
/// value under `key` replaced at its place, or appended when absent.
pub open spec fn m_set_field(
    fields: Seq<(Seq<char>, JsonModel)>,
    key: Seq<char>,
    value: JsonModel,
) -> Seq<(Seq<char>, JsonModel)>
    decreases fields.len(),
{
    if fields.len() == 0 {
        seq![(key, value)]
    } else if fields.first().0 == key {
        seq![(key, value)] + fields.drop_first()
    } else {
        seq![fields.first()] + m_set_field(fields.drop_first(), key, value)
    }
}

/// Setting a field and then taking the content is taking the content and
/// then setting the field's model.
pub proof fn lemma_set_field_model(fields: Seq<(String, JsonValue)>, key: String, value: JsonValue)
    ensures
        fields_model(spec_set_field(fields, key, value)) == m_set_field(
            fields_model(fields),
            key@,
            jmodel(value),
        ),
    decreases fields.len(),
{
    if fields.len() == 0 {
        assert(fields_model(fields) =~= Seq::<(Seq<char>, JsonModel)>::empty());
        assert(fields_model(seq![(key, value)]) =~= seq![(key@, jmodel(value))]);
    } else if fields.first().0@ == key@ {
        assert(fields_model(seq![(fields.first().0, value)] + fields.drop_first()) =~= seq![
            (key@, jmodel(value)),
        ] + fields_model(fields.drop_first()));
        assert(fields_model(fields).first() == (fields.first().0@, jmodel(fields.first().1)));
        assert(fields_model(fields).drop_first() =~= fields_model(fields.drop_first()));
        assert(m_set_field(fields_model(fields), key@, jmodel(value)) == seq![
            (key@, jmodel(value)),
        ] + fields_model(fields).drop_first());
    } else {
        lemma_set_field_model(fields.drop_first(), key, value);
        assert(fields_model(seq![fields.first()] + spec_set_field(fields.drop_first(), key, value))
            =~= seq![(fields.first().0@, jmodel(fields.first().1))] + fields_model(
            spec_set_field(fields.drop_first(), key, value),
        ));
        assert(fields_model(fields).first() == (fields.first().0@, jmodel(fields.first().1)));
        assert(fields_model(fields).drop_first() =~= fields_model(fields.drop_first()));
        assert(m_set_field(fields_model(fields), key@, jmodel(value)) == seq![
            (fields.first().0@, jmodel(fields.first().1)),
        ] + m_set_field(fields_model(fields).drop_first(), key@, jmodel(value)));
    }
}

/// The content of an enriched record: its fields with `keywords` set to the
/// array of entries and `category` to their `", "`-joined text.
pub open spec fn spec_enriched(record: JsonModel, entries: Seq<Seq<char>>) -> JsonModel {
    JsonModel::Obj(
        m_set_field(
            m_set_field(
                model_fields(record),
                "keywords"@,
                JsonModel::Arr(entries.map_values(|e: Seq<char>| JsonModel::Str(e))),
            ),
            "category"@,
            JsonModel::Str(joined(entries)),
        ),
    )
}

/// Sets the first field named like `key` to `value`, keeping its place, or
/// appends the pair when no field has that name.
#[verifier::loop_isolation(false)]
pub fn set_field(fields: &mut Vec<(String, JsonValue)>, key: String, value: JsonValue)
    ensures
        final(fields)@ == spec_set_field(old(fields)@, key, value),
{
    let ghost f0 = fields@;
    proof {
        assert(f0.skip(0) =~= f0);
        assert(f0.subrange(0, 0) =~= Seq::<(String, JsonValue)>::empty());
    }
    let mut i: usize = 0;
    while i < fields.len()
        invariant
            i <= f0.len(),
            fields@ == f0,
            forall|j: int| 0 <= j < i ==> f0[j].0@ != key@,
            spec_set_field(f0, key, value) == f0.subrange(0, i as int) + spec_set_field(
                f0.skip(i as int),
                key,
                value,
            ),
        decreases f0.len() - i,
    {
        if fields[i].0 == key {
            let kept = fields[i].0.clone();
            fields.set(i, (kept, value));
            proof {
                assert(spec_set_field(f0.skip(i as int), key, value) == seq![
                    (f0[i as int].0, value),
                ] + f0.skip(i + 1));
                assert(fields@ =~= f0.subrange(0, i as int) + (seq![(f0[i as int].0, value)]
                    + f0.skip(i + 1)));
            }
            return ;
        }
        proof {
            assert(f0.skip(i as int).drop_first() =~= f0.skip(i + 1));
            assert(f0.subrange(0, i as int) + seq![f0[i as int]] =~= f0.subrange(0, i + 1));
            assert(f0.subrange(0, i as int) + (seq![f0[i as int]] + spec_set_field(
                f0.skip(i + 1),
                key,
                value,
            )) =~= f0.subrange(0, i + 1) + spec_set_field(f0.skip(i + 1), key, value));
        }
        i = i + 1;
    }
    fields.push((key, value));
    proof {
        assert(f0.subrange(0, f0.len() as int) =~= f0);
        assert(f0 + seq![(key, value)] =~= f0.push((key, value)));
    }
}

/// The record with the two category fields attached: `keywords` holds the
/// entries as an array of strings, `category` their `", "`-joined text, and
/// every other field keeps the value it had.
#[verifier::loop_isolation(false)]
pub fn enrich_record(record: JsonValue, parts: Vec<String>) -> (r: JsonValue)
    requires
        record is Obj,
    ensures
        r is Obj,
        field_of(obj_fields(r), "keywords"@) matches Some(JsonValue::Arr(ks)) && ks@.len()
            == parts@.len() && (forall|i: int|
            0 <= i < parts@.len() ==> ks@[i] == JsonValue::Str(parts@[i])),
        field_of(obj_fields(r), "category"@) matches Some(JsonValue::Str(c)) && c@ == joined(
            parts.deep_view(),
        ),
        forall|k: Seq<char>|
            k != "keywords"@ && k != "category"@ ==> field_of(obj_fields(r), k) == field_of(
                obj_fields(record),
                k,
            ),
        jmodel(r) == spec_enriched(jmodel(record), parts.deep_view()),
{
    let category = join_entries(&parts);
    let ghost p0 = parts@;
    let mut rest = parts;
    let mut items: Vec<JsonValue> = Vec::new();
    proof {
        assert(p0.skip(0) =~= p0);
    }
    while rest.len() > 0
        invariant
            items@.len() + rest@.len() == p0.len(),
            rest@ == p0.skip(items@.len() as int),
            forall|j: int| 0 <= j < items@.len() ==> items@[j] == JsonValue::Str(p0[j]),
        decreases rest@.len(),
    {
        let ghost r0 = rest@;
        let part = rest.remove(0);
        proof {
            assert(r0.remove(0) =~= r0.drop_first());
            assert(r0.drop_first() =~= p0.skip(items@.len() as int + 1));
        }
        items.push(JsonValue::Str(part));
    }
    match record {
        JsonValue::Obj(fields) => {
            let mut fields = fields;
            let ghost f0 = fields@;
            let kw_key = "keywords".to_owned();
            let cat_key = "category".to_owned();
            let kw_val = JsonValue::Arr(items);
            let cat_val = JsonValue::Str(category);
            set_field(&mut fields, kw_key, kw_val);
            let ghost mid = fields@;
            set_field(&mut fields, cat_key, cat_val);
            let r = JsonValue::Obj(fields);
            proof {
                reveal_strlit("keywords");
                reveal_strlit("category");
                assert("keywords"@[0] == 'k');
                assert("category"@[0] == 'c');
                assert("keywords"@ != "category"@);
                lemma_set_field_same(mid, cat_key, cat_val);
                lemma_set_field_same(f0, kw_key, kw_val);
                lemma_set_field_other(mid, cat_key, cat_val, "keywords"@);
                assert forall|k: Seq<char>|
                    k != "keywords"@ && k != "category"@ implies field_of(obj_fields(r), k)
                    == field_of(obj_fields(record), k) by {
                    lemma_set_field_other(mid, cat_key, cat_val, k);
                    lemma_set_field_other(f0, kw_key, kw_val, k);
                }
                lemma_jmodel_obj(record);
                lemma_jmodel_obj(r);
                lemma_set_field_model(f0, kw_key, kw_val);
                lemma_set_field_model(mid, cat_key, cat_val);
                lemma_jmodel_arr(kw_val);
                assert(items_model(arr_items(kw_val)) =~= parts.deep_view().map_values(
                    |e: Seq<char>| JsonModel::Str(e),
                ));
                assert(jmodel(cat_val) == JsonModel::Str(joined(parts.deep_view())));
            }
            r
        },
        other => {
            proof {
                assert(false);
            }
            other
        },
    }
}

/// The whole in-memory transform: pick the first product record out of the
/// parsed blocks, and attach the normalized category entries to it. The
/// result is absent exactly when no block contributes a product record.
pub fn assemble_product(blocks: Vec<Option<JsonValue>>, raw_categories: Vec<String>) -> (r: Option<
    JsonValue,
>)
    ensures
        r is Some <==> spec_first_product(blocks@) is Some,
        spec_first_product(blocks@) matches Some(rec) ==> {
            &&& r matches Some(p)
            &&& p is Obj
            &&& field_of(obj_fields(p), "keywords"@) matches Some(JsonValue::Arr(ks))
            &&& ks@.len() == raw_categories@.len()
            &&& forall|i: int|
                0 <= i < raw_categories@.len() ==> (#[trigger] ks@[i] matches JsonValue::Str(s)
                    && s@ == cleaned(raw_categories@[i]@))
            &&& field_of(obj_fields(p), "category"@) matches Some(JsonValue::Str(c))
            &&& c@ == joined(cleaned_all(raw_categories.deep_view()))
            &&& forall|k: Seq<char>|
                k != "keywords"@ && k != "category"@ ==> field_of(obj_fields(p), k) == field_of(
                    obj_fields(rec),
                    k,
                )
            &&& jmodel(p) == spec_enriched(jmodel(rec), cleaned_all(raw_categories.deep_view()))
        },
{
    let parts = clean_entries(&raw_categories);
    proof {
        assert(parts.deep_view() =~= cleaned_all(raw_categories.deep_view()));
    }
    match first_product_record(blocks) {
        Some(record) => {
            proof {
                lemma_first_product_is_product(blocks@);
            }
            let p = enrich_record(record, parts);
            Some(p)
        },
        None => None,
    }
}

} // verus!
