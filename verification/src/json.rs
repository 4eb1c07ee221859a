//! The library's own model of a JSON tree, and the rule that picks the first
//! `Product`-typed record out of a stream of parsed structured-data blocks.

use vstd::prelude::*;

verus! {

/// A generic JSON value. Numbers are carried opaquely (the extractor never
/// reads them), everything else is held as plain values, so the rules below
/// can be stated and proved over the tree.
pub enum JsonValue {
    Null,
    Bool(bool),
    Num(serde_json::Number),
    Str(String),
    Arr(Vec<JsonValue>),
    Obj(Vec<(String, JsonValue)>),
}

/// The fields of an object-shaped value; empty for every other shape.
pub open spec fn obj_fields(v: JsonValue) -> Seq<(String, JsonValue)> {
    match v {
        JsonValue::Obj(fields) => fields@,
        _ => Seq::empty(),
    }
}

/// The value under the first field named `key`, if any.
pub open spec fn field_of(fields: Seq<(String, JsonValue)>, key: Seq<char>) -> Option<JsonValue>
    decreases fields.len(),
{
    if fields.len() == 0 {
        None
    } else if fields.first().0@ == key {
        Some(fields.first().1)
    } else {
        field_of(fields.drop_first(), key)
    }
}

/// Whether the value is an object whose `@type` field is the string
/// `"Product"`.
pub open spec fn is_product(v: JsonValue) -> bool {
    &&& v is Obj
    &&& field_of(obj_fields(v), "@type"@) matches Some(JsonValue::Str(s))
    &&& s@ == "Product"@
}

/// The first product among the elements of a top-level array.
pub open spec fn first_product_in(items: Seq<JsonValue>) -> Option<JsonValue>
    decreases items.len(),
{
    if items.len() == 0 {
        None
    } else if is_product(items.first()) {
        Some(items.first())
    } else {
        first_product_in(items.drop_first())
    }
}

/// The product record one parsed block contributes: the block itself when it
/// is a product object, else the first product inside a top-level array.
pub open spec fn block_product(v: JsonValue) -> Option<JsonValue> {
    if is_product(v) {
        Some(v)
    } else {
        match v {
            JsonValue::Arr(items) => first_product_in(items@),
            _ => None,
        }
    }
}

/// The first product record across the whole stream of blocks; a block that
/// failed to parse contributes nothing and the scan goes on.
pub open spec fn spec_first_product(blocks: Seq<Option<JsonValue>>) -> Option<JsonValue>
    decreases blocks.len(),
{
    if blocks.len() == 0 {
        None
    } else {
        match blocks.first() {
            Some(v) => match block_product(v) {
                Some(p) => Some(p),
                None => spec_first_product(blocks.drop_first()),
            },
            None => spec_first_product(blocks.drop_first()),
        }
    }
}

/// Whether the value is a product object, as `is_product` states.
pub fn value_is_product(v: &JsonValue) -> (r: bool)
    ensures
        r == is_product(*v),
{
    match v {
        JsonValue::Obj(fields) => {
            let key = "@type".to_owned();
            let want = "Product".to_owned();
            proof {
                assert(fields@.skip(0) =~= fields@);
            }
            let mut i: usize = 0;
            while i < fields.len()
                invariant
                    i <= fields@.len(),
                    key@ == "@type"@,
                    want@ == "Product"@,
                    field_of(fields@, "@type"@) == field_of(
                        fields@.skip(i as int),
                        "@type"@,
                    ),
                    fields@ == obj_fields(*v),
                decreases fields@.len() - i,
            {
                if fields[i].0 == key {
                    return match &fields[i].1 {
                        JsonValue::Str(s) => *s == want,
                        _ => false,
                    };
                }
                proof {
                    assert(fields@.skip(i as int).drop_first() =~= fields@.skip(i + 1));
                }
                i = i + 1;
            }
            proof {
                assert(fields@.skip(fields@.len() as int) =~= Seq::<(String, JsonValue)>::empty());
            }
            false
        },
        _ => false,
    }
}

/// The product record the value contributes, as `block_product` states: the
/// value itself when it is a product object, else the first product element
/// of a top-level array, else nothing.
#[verifier::loop_isolation(false)]
pub fn take_block_product(v: JsonValue) -> (r: Option<JsonValue>)
    ensures
        r == block_product(v),
{
    if value_is_product(&v) {
        return Some(v);
    }
    match v {
        JsonValue::Arr(items) => {
            let ghost items0 = items@;
            let mut items = items;
            proof {
                assert(items0.skip(0) =~= items0);
            }
            let mut i: usize = 0;
            while i < items.len()
                invariant
                    items@ == items0,
                    i <= items0.len(),
                    first_product_in(items0) == first_product_in(items0.skip(i as int)),
                decreases items0.len() - i,
            {
                if value_is_product(&items[i]) {
                    let p = items.remove(i);
                    proof {
                        assert(first_product_in(items0.skip(i as int)) == Some(items0[i as int]));
                    }
                    return Some(p);
                }
                proof {
                    assert(items0.skip(i as int).drop_first() =~= items0.skip(i + 1));
                }
                i = i + 1;
            }
            proof {
                assert(items0.skip(items0.len() as int) =~= Seq::<JsonValue>::empty());
            }
            None
        },
        other => {
            proof {
                assert(block_product(other) is None);
            }
            None
        },
    }
}

/// The first product record across the stream of parsed blocks, as
/// `spec_first_product` states. A block that failed to parse (`None`) is
/// skipped and the scan continues with the next one.
#[verifier::loop_isolation(false)]
pub fn first_product_record(blocks: Vec<Option<JsonValue>>) -> (r: Option<JsonValue>)
    ensures
        r == spec_first_product(blocks@),
{
    let ghost b0 = blocks@;
    let mut rest = blocks;
    while rest.len() > 0
        invariant
            spec_first_product(b0) == spec_first_product(rest@),
        decreases rest@.len(),
    {
        let ghost r0 = rest@;
        let blk = rest.remove(0);
        proof {
            assert(r0.remove(0) =~= r0.drop_first());
        }
        match blk {
            Some(v) => match take_block_product(v) {
                Some(p) => {
                    proof {
                        assert(spec_first_product(r0) == Some(p));
                    }
                    return Some(p);
                },
                None => {},
            },
            None => {},
        }
    }
    None
}

/// Every product record the scan can pick is an object: a top-level match is
/// a product object itself, and an array match is a product element.
pub proof fn lemma_first_product_is_product(blocks: Seq<Option<JsonValue>>)
    ensures
        spec_first_product(blocks) matches Some(p) ==> is_product(p),
    decreases blocks.len(),
{
    if blocks.len() > 0 {
        lemma_first_product_is_product(blocks.drop_first());
        match blocks.first() {
            Some(v) => {
                if !is_product(v) && v is Arr {
                    lemma_first_product_in_is_product(match v {
                        JsonValue::Arr(items) => items@,
                        _ => Seq::empty(),
                    });
                }
            },
            None => {},
        }
    }
}

proof fn lemma_first_product_in_is_product(items: Seq<JsonValue>)
    ensures
        first_product_in(items) matches Some(p) ==> is_product(p),
    decreases items.len(),
{
    if items.len() > 0 && !is_product(items.first()) {
        lemma_first_product_in_is_product(items.drop_first());
    }
}

/// A block whose text cannot be parsed never decides the scan: putting an
/// unparsable block in front leaves the chosen record unchanged.
pub proof fn lemma_unparsable_block_skipped(blocks: Seq<Option<JsonValue>>)
    ensures
        spec_first_product(seq![Option::<JsonValue>::None] + blocks) == spec_first_product(blocks),
{
    assert((seq![Option::<JsonValue>::None] + blocks).drop_first() =~= blocks);
}

} // verus!

verus! {

broadcast use vstd::std_specs::vec::axiom_vec_index_decreases;

/// The mathematical content of a JSON value: strings and keys read as
/// character sequences, arrays and objects as sequences; numbers stay the
/// opaque values they are.
pub enum JsonModel {
    Null,
    Bool(bool),
    Num(serde_json::Number),
    Str(Seq<char>),
    Arr(Seq<JsonModel>),
    Obj(Seq<(Seq<char>, JsonModel)>),
}

/// The content of a value. The bound checks inside the closures carry the
/// termination argument: within them an element is smaller than the vector
/// it came from.
pub open spec fn jmodel(v: JsonValue) -> JsonModel
    decreases v,
{
    match v {
        JsonValue::Null => JsonModel::Null,
        JsonValue::Bool(b) => JsonModel::Bool(b),
        JsonValue::Num(n) => JsonModel::Num(n),
        JsonValue::Str(s) => JsonModel::Str(s@),
        JsonValue::Arr(items) => JsonModel::Arr(
            Seq::new(
                items@.len(),
                |i: int|
                    if 0 <= i && i < items@.len() {
                        jmodel(items[i])
                    } else {
                        JsonModel::Null
                    },
            ),
        ),
        JsonValue::Obj(fields) => JsonModel::Obj(
            Seq::new(
                fields@.len(),
                |i: int|
                    if 0 <= i && i < fields@.len() {
                        (fields[i].0@, jmodel(fields[i].1))
                    } else {
                        (Seq::empty(), JsonModel::Null)
                    },
            ),
        ),
    }
}

/// The models of an object's fields, keys read as character sequences.
pub open spec fn fields_model(fields: Seq<(String, JsonValue)>) -> Seq<(Seq<char>, JsonModel)> {
    Seq::new(fields.len(), |i: int| (fields[i].0@, jmodel(fields[i].1)))
}

/// The elements of an array-shaped value; empty for every other shape.
pub open spec fn arr_items(v: JsonValue) -> Seq<JsonValue> {
    match v {
        JsonValue::Arr(items) => items@,
        _ => Seq::empty(),
    }
}

/// The models of an array's elements.
pub open spec fn items_model(items: Seq<JsonValue>) -> Seq<JsonModel> {
    Seq::new(items.len(), |i: int| jmodel(items[i]))
}

/// The element models of an array-shaped model; empty for every other shape.
pub open spec fn model_items(m: JsonModel) -> Seq<JsonModel> {
    match m {
        JsonModel::Arr(items) => items,
        _ => Seq::empty(),
    }
}

/// The field models of an object-shaped model; empty for every other shape.
pub open spec fn model_fields(m: JsonModel) -> Seq<(Seq<char>, JsonModel)> {
    match m {
        JsonModel::Obj(fields) => fields,
        _ => Seq::empty(),
    }
}

/// On an array, the content is the array of its elements' models.
pub proof fn lemma_jmodel_arr(v: JsonValue)
    requires
        v is Arr,
    ensures
        jmodel(v) == JsonModel::Arr(items_model(arr_items(v))),
{
    match v {
        JsonValue::Arr(items) => {
            assert(jmodel(v) is Arr);
            assert(model_items(jmodel(v)) =~= items_model(items@));
            assert(jmodel(v) == JsonModel::Arr(model_items(jmodel(v))));
        },
        _ => {},
    }
}

/// On an object, the content is the object of its fields' models.
pub proof fn lemma_jmodel_obj(v: JsonValue)
    requires
        v is Obj,
    ensures
        jmodel(v) == JsonModel::Obj(fields_model(obj_fields(v))),
{
    match v {
        JsonValue::Obj(fields) => {
            assert(jmodel(v) is Obj);
            assert(model_fields(jmodel(v)) =~= fields_model(fields@));
            assert(jmodel(v) == JsonModel::Obj(model_fields(jmodel(v))));
        },
        _ => {},
    }
}

} // verus!
