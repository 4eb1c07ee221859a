use product_extractor::enrich::{assemble_product, enrich_record, set_field};
use product_extractor::json::{first_product_record, take_block_product, value_is_product, JsonValue};
use product_extractor::text::{clean_entry, clean_entries, join_entries};

fn obj(fields: Vec<(&str, JsonValue)>) -> JsonValue {
    JsonValue::Obj(fields.into_iter().map(|(k, v)| (k.to_string(), v)).collect())
}

fn s(text: &str) -> JsonValue {
    JsonValue::Str(text.to_string())
}

fn product(name: &str) -> JsonValue {
    obj(vec![("@type", s("Product")), ("name", s(name))])
}

fn field<'a>(v: &'a JsonValue, key: &str) -> Option<&'a JsonValue> {
    match v {
        JsonValue::Obj(fields) => fields.iter().find(|(k, _)| k == key).map(|(_, x)| x),
        _ => None,
    }
}

fn as_text<'a>(v: &'a JsonValue) -> &'a str {
    match v {
        JsonValue::Str(t) => t.as_str(),
        _ => panic!("expected a string value"),
    }
}

#[test]
fn product_shape_is_recognized() {
    assert!(value_is_product(&product("Widget")));
    assert!(!value_is_product(&obj(vec![("@type", s("Thing"))])));
    assert!(!value_is_product(&obj(vec![("name", s("untyped"))])));
    assert!(!value_is_product(&s("Product")));
    assert!(!value_is_product(&JsonValue::Null));
}

#[test]
fn block_product_prefers_whole_object() {
    let got = take_block_product(product("Widget")).expect("a product object");
    assert_eq!(as_text(field(&got, "name").unwrap()), "Widget");
}

#[test]
fn block_product_picks_first_array_element() {
    let block = JsonValue::Arr(vec![
        obj(vec![("@type", s("Thing"))]),
        product("Gadget"),
        product("Later"),
    ]);
    let got = take_block_product(block).expect("a product element");
    assert_eq!(as_text(field(&got, "name").unwrap()), "Gadget");
    assert!(take_block_product(JsonValue::Arr(vec![s("no products")])).is_none());
    assert!(take_block_product(JsonValue::Bool(true)).is_none());
}

#[test]
fn record_scan_skips_failed_blocks() {
    let blocks = vec![
        None,
        Some(obj(vec![("@type", s("Thing"))])),
        Some(product("Survivor")),
    ];
    let got = first_product_record(blocks).expect("a product record");
    assert_eq!(as_text(field(&got, "name").unwrap()), "Survivor");
    assert!(first_product_record(vec![None, None]).is_none());
    assert!(first_product_record(vec![]).is_none());
}

#[test]
fn entries_are_cleaned() {
    assert_eq!(clean_entry(" Home\n"), "Home");
    assert_eq!(clean_entry("\n  Electronics "), "Electronics");
    assert_eq!(clean_entry("Mobile\nPhones"), "MobilePhones");
    assert_eq!(clean_entry("\n \t "), "");
    assert_eq!(clean_entry(""), "");
    let cleaned = clean_entries(&vec![" a\n".to_string(), "b ".to_string()]);
    assert_eq!(cleaned, vec!["a".to_string(), "b".to_string()]);
}

#[test]
fn entries_are_joined_with_comma_space() {
    assert_eq!(join_entries(&vec![]), "");
    assert_eq!(join_entries(&vec!["Phones".to_string()]), "Phones");
    assert_eq!(
        join_entries(&vec!["Electronics".to_string(), "Phones".to_string()]),
        "Electronics, Phones"
    );
}

#[test]
fn set_field_replaces_in_place_or_appends() {
    let mut fields = vec![
        ("a".to_string(), s("1")),
        ("b".to_string(), s("2")),
    ];
    set_field(&mut fields, "a".to_string(), s("new"));
    assert_eq!(fields.len(), 2);
    assert_eq!(fields[0].0, "a");
    assert_eq!(as_text(&fields[0].1), "new");
    set_field(&mut fields, "c".to_string(), s("3"));
    assert_eq!(fields.len(), 3);
    assert_eq!(fields[2].0, "c");
    assert_eq!(as_text(&fields[2].1), "3");
}

#[test]
fn enrichment_overwrites_category_fields_and_keeps_the_rest() {
    let record = obj(vec![
        ("@type", s("Product")),
        ("name", s("Widget")),
        ("keywords", s("stale")),
    ]);
    let parts = vec!["Electronics".to_string(), "Phones".to_string()];
    let enriched = enrich_record(record, parts);
    assert_eq!(as_text(field(&enriched, "name").unwrap()), "Widget");
    assert_eq!(as_text(field(&enriched, "@type").unwrap()), "Product");
    match field(&enriched, "keywords").unwrap() {
        JsonValue::Arr(items) => {
            assert_eq!(items.len(), 2);
            assert_eq!(as_text(&items[0]), "Electronics");
            assert_eq!(as_text(&items[1]), "Phones");
        },
        _ => panic!("keywords must be an array"),
    }
    assert_eq!(as_text(field(&enriched, "category").unwrap()), "Electronics, Phones");
}

#[test]
fn assembly_enriches_the_first_product() {
    let blocks = vec![None, Some(product("Widget"))];
    let raw = vec![" Electronics\n".to_string(), "Phones ".to_string()];
    let got = assemble_product(blocks, raw).expect("a product record");
    assert_eq!(as_text(field(&got, "category").unwrap()), "Electronics, Phones");
    assert!(assemble_product(vec![Some(s("x"))], vec![]).is_none());
}
