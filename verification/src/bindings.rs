//! The trusted boundary: declarations of the outside types the extractor
//! carries, names for what the outside calls return, and thin wrappers around
//! those calls. Verus believes the contracts written here; everything else is
//! proved.

use vstd::prelude::*;
use crate::json::{jmodel, JsonModel, JsonValue};

verus! {

/// A JSON number as serde_json holds it; the extractor carries it through
/// untouched, so it stays opaque.
#[verifier::external_type_specification]
#[verifier::external_body]
pub struct ExNumber(serde_json::Number);

/// A generic JSON value as serde_json parses it; moved into the library's
/// own model and rebuilt on the way out, so it stays opaque.
#[verifier::external_type_specification]
#[verifier::external_body]
pub struct ExValue(serde_json::Value);

/// Whether scraper accepts the text as a CSS selector group.
/// scraper::Selector::parse is a pure parser, so success depends on the text
/// alone.
pub uninterp spec fn selector_ok(selector: Seq<char>) -> bool;

/// The concatenated descendant text of each element of the page matching the
/// selector, in document order. Html::parse_document, Html::select and
/// ElementRef::text are pure, so the texts depend on the page text and the
/// selector text alone.
pub uninterp spec fn selected_texts(html: Seq<char>, selector: Seq<char>) -> Seq<Seq<char>>;

/// What one structured-data block's text parses to: the library's model of
/// the JSON value, or nothing when the text is not well-formed JSON.
/// serde_json::from_str is a pure parser, so the result depends on the text
/// alone.
pub uninterp spec fn block_model(text: Seq<char>) -> Option<JsonValue>;

/// The serialized JSON text of a record. serde_json::to_string writes object
/// fields and array elements in their held order, so the text depends on the
/// record's content alone.
pub uninterp spec fn rendered(record: JsonModel) -> Seq<char>;

/// Relies on scraper::Selector::parse, which fails exactly on text that is
/// not a well-formed CSS selector group, and on scraper::Html::parse_document
/// (best-effort, browser-grade parsing that accepts arbitrary text),
/// Html::select (matches in document order) and ElementRef::text (descendant
/// text nodes in order): one concatenated string per matched element, as
/// `selector_ok` and `selected_texts` name.
#[verifier::external_body]
pub(crate) fn category_texts(html: &str, selector: &str) -> (r: Option<Vec<String>>)
    ensures
        r is Some <==> selector_ok(selector@),
        r matches Some(texts) ==> texts.deep_view() == selected_texts(html@, selector@),
{
    match scraper::Selector::parse(selector) {
        Ok(sel) => Some(
            scraper::Html::parse_document(html)
                .select(&sel)
                .map(|element| element.text().collect::<String>())
                .collect(),
        ),
        Err(_) => None,
    }
}

/// The same selection, for the fixed selector that locates the embedded
/// structured-data blocks. Relies on the same scraper calls as
/// `category_texts`, and on that fixed literal being a well-formed selector
/// group, so the unwrap cannot panic.
#[verifier::external_body]
pub(crate) fn script_texts(html: &str) -> (r: Vec<String>)
    ensures
        r.deep_view() == selected_texts(html@, "script[type=\"application/ld+json\"]"@),
{
    let sel = scraper::Selector::parse("script[type=\"application/ld+json\"]").unwrap();
    scraper::Html::parse_document(html)
        .select(&sel)
        .map(|element| element.text().collect::<String>())
        .collect()
}

/// Relies on serde_json::from_str: parses the text as a generic JSON value,
/// failing exactly on text that is not well-formed JSON, as `block_model`
/// names; the value is moved into the library's model by `value_to_model`.
#[verifier::external_body]
pub(crate) fn parse_block(text: &str) -> (r: Option<JsonValue>)
    ensures
        r == block_model(text@),
{
    serde_json::from_str::<serde_json::Value>(text).ok().map(value_to_model)
}

/// Relies on serde_json::Value's public shape alone: each variant is moved,
/// field by field, into the library's own model of the same tree. Called
/// only by `parse_block`, whose contract covers the composition.
#[verifier::external_body]
pub(crate) fn value_to_model(value: serde_json::Value) -> JsonValue {
    match value {
        serde_json::Value::Null => JsonValue::Null,
        serde_json::Value::Bool(b) => JsonValue::Bool(b),
        serde_json::Value::Number(n) => JsonValue::Num(n),
        serde_json::Value::String(s) => JsonValue::Str(s),
        serde_json::Value::Array(items) => JsonValue::Arr(
            items.into_iter().map(value_to_model).collect(),
        ),
        serde_json::Value::Object(fields) => JsonValue::Obj(
            fields.into_iter().map(|(k, v)| (k, value_to_model(v))).collect(),
        ),
    }
}

/// Relies on serde_json::to_string, which serializes by content and never
/// fails on a Value tree (its object keys are strings and its numbers are
/// finite), so the unwrap cannot panic; `rendered` names the text. The value
/// is rebuilt from the library's model by `model_to_value`.
#[verifier::external_body]
pub(crate) fn render_record(record: &JsonValue) -> (r: String)
    ensures
        r@ == rendered(jmodel(*record)),
{
    serde_json::to_string(&model_to_value(record)).unwrap()
}

/// The inverse move: the library's model rebuilt as a serde_json::Value,
/// variant by variant. Called only by `render_record`, whose contract covers
/// the composition.
#[verifier::external_body]
pub(crate) fn model_to_value(value: &JsonValue) -> serde_json::Value {
    match value {
        JsonValue::Null => serde_json::Value::Null,
        JsonValue::Bool(b) => serde_json::Value::Bool(*b),
        JsonValue::Num(n) => serde_json::Value::Number(n.clone()),
        JsonValue::Str(s) => serde_json::Value::String(s.clone()),
        JsonValue::Arr(items) => serde_json::Value::Array(items.iter().map(model_to_value).collect()),
        JsonValue::Obj(fields) => serde_json::Value::Object(
            fields.iter().map(|(k, v)| (k.clone(), model_to_value(v))).collect(),
        ),
    }
}

/// Relies on String implementing FromIterator over chars: the collected
/// string holds exactly the given characters, in order.
#[verifier::external_body]
pub(crate) fn chars_to_string(chars: Vec<char>) -> (r: String)
    ensures
        r@ == chars@,
{
    chars.into_iter().collect()
}

} // verus!
