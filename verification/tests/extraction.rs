use product_extractor::extract::extract_product;

fn parse(output: &str) -> serde_json::Value {
    serde_json::from_str::<serde_json::Value>(output).expect("output is valid JSON")
}

#[test]
fn direct_product_is_found() {
    let html = r#"<html><head>
        <script type="application/ld+json">{"@type": "Product", "name": "Widget"}</script>
        </head><body></body></html>"#;
    let out = extract_product(html, None).unwrap().expect("a product is present");
    assert!(out.contains("\"@type\":\"Product\""));
    assert!(out.contains("\"name\":\"Widget\""));
    let v = parse(&out);
    assert_eq!(v["@type"], serde_json::Value::String("Product".to_string()));
    assert_eq!(v["name"], serde_json::Value::String("Widget".to_string()));
}

#[test]
fn array_form_product_is_found() {
    let html = r#"<html><body>
        <script type="application/ld+json">[{"@type": "Thing"}, {"@type": "Product", "name": "Gadget"}]</script>
        </body></html>"#;
    let out = extract_product(html, None).unwrap().expect("a product is present");
    let v = parse(&out);
    assert_eq!(v["@type"], serde_json::Value::String("Product".to_string()));
    assert_eq!(v["name"], serde_json::Value::String("Gadget".to_string()));
}

#[test]
fn no_product_yields_absence() {
    let html = r#"<html><body>
        <p>nothing structured here</p>
        <script type="application/ld+json">{"@type": "BreadcrumbList"}</script>
        </body></html>"#;
    assert!(extract_product(html, None).unwrap().is_none());
}

#[test]
fn plain_page_yields_absence() {
    assert!(extract_product("just text, not even markup", None).unwrap().is_none());
}

#[test]
fn categories_are_normalized_and_joined() {
    let html = "<html><body><div id=\"polku\">\
        <li> Home\n</li>\
        <li>Shop</li>\
        <li> Electronics\n</li>\
        <li>\n  Mobile\nPhones </li>\
        </div>\
        <script type=\"application/ld+json\">{\"@type\": \"Product\", \"name\": \"Widget\"}</script>\
        </body></html>";
    let out = extract_product(html, None).unwrap().expect("a product is present");
    let v = parse(&out);
    let kw = v["keywords"].as_array().expect("keywords is an array");
    assert_eq!(kw.len(), 2);
    assert_eq!(kw[0], serde_json::Value::String("Electronics".to_string()));
    assert_eq!(kw[1], serde_json::Value::String("MobilePhones".to_string()));
    assert_eq!(
        v["category"],
        serde_json::Value::String("Electronics, MobilePhones".to_string())
    );
}

#[test]
fn zero_category_matches_still_adds_fields() {
    let html = r#"<html><body>
        <script type="application/ld+json">{"@type": "Product", "name": "Widget"}</script>
        </body></html>"#;
    let out = extract_product(html, None).unwrap().expect("a product is present");
    let v = parse(&out);
    assert_eq!(v["keywords"], serde_json::Value::Array(vec![]));
    assert_eq!(v["category"], serde_json::Value::String(String::new()));
}

#[test]
fn custom_selector_overrides_default() {
    let html = "<html><body>\
        <div id=\"polku\"><li>One</li><li>Two</li><li>Three</li></div>\
        <ul class=\"crumbs\"><li>Books</li><li>Fiction</li></ul>\
        <script type=\"application/ld+json\">{\"@type\": \"Product\"}</script>\
        </body></html>";
    let out = extract_product(html, Some("ul.crumbs li")).unwrap().expect("a product is present");
    let v = parse(&out);
    let kw = v["keywords"].as_array().expect("keywords is an array");
    assert_eq!(kw.len(), 2);
    assert_eq!(kw[0], serde_json::Value::String("Books".to_string()));
    assert_eq!(kw[1], serde_json::Value::String("Fiction".to_string()));
    assert_eq!(v["category"], serde_json::Value::String("Books, Fiction".to_string()));
    assert!(!out.contains("Three"));
}

#[test]
fn malformed_selector_is_an_error() {
    let html = r#"<html><body>
        <script type="application/ld+json">{"@type": "Product"}</script>
        </body></html>"#;
    assert!(extract_product(html, Some("[")).is_err());
    assert!(extract_product(html, Some(":::")).is_err());
    assert!(extract_product(html, Some("")).is_err());
}

#[test]
fn unrelated_fields_are_preserved() {
    let html = r#"<html><body><div id="polku"><li>A</li><li>B</li><li>C</li></div>
        <script type="application/ld+json">
        {"@type": "Product", "name": "Widget", "sku": "W-1",
         "offers": {"price": 19.5, "currency": "EUR"},
         "keywords": "stale", "category": 7}
        </script>
        </body></html>"#;
    let out = extract_product(html, None).unwrap().expect("a product is present");
    let v = parse(&out);
    assert_eq!(v["name"], serde_json::Value::String("Widget".to_string()));
    assert_eq!(v["sku"], serde_json::Value::String("W-1".to_string()));
    assert_eq!(v["offers"]["currency"], serde_json::Value::String("EUR".to_string()));
    assert_eq!(v["offers"]["price"].as_f64(), Some(19.5));
    // the two category fields are overwritten, whatever they held before
    let kw = v["keywords"].as_array().expect("keywords is an array");
    assert_eq!(kw.len(), 1);
    assert_eq!(kw[0], serde_json::Value::String("C".to_string()));
    assert_eq!(v["category"], serde_json::Value::String("C".to_string()));
}

#[test]
fn unparsable_block_is_skipped() {
    let html = r#"<html><body>
        <script type="application/ld+json">{not json at all</script>
        <script type="application/ld+json">{"@type": "Product", "name": "Survivor"}</script>
        </body></html>"#;
    let out = extract_product(html, None).unwrap().expect("a product is present");
    let v = parse(&out);
    assert_eq!(v["name"], serde_json::Value::String("Survivor".to_string()));
}

#[test]
fn extraction_is_deterministic() {
    let html = r#"<html><body><div id="polku"><li>a</li><li>b</li><li> c </li></div>
        <script type="application/ld+json">{"@type": "Product", "name": "Widget"}</script>
        </body></html>"#;
    let first = extract_product(html, None).unwrap();
    let second = extract_product(html, None).unwrap();
    assert_eq!(first, second);
    assert!(first.is_some());
}

#[test]
fn first_product_across_blocks_wins() {
    let html = r#"<html><body>
        <script type="application/ld+json">{"@type": "Thing"}</script>
        <script type="application/ld+json">{"@type": "Product", "name": "First"}</script>
        <script type="application/ld+json">{"@type": "Product", "name": "Second"}</script>
        </body></html>"#;
    let out = extract_product(html, None).unwrap().expect("a product is present");
    let v = parse(&out);
    assert_eq!(v["name"], serde_json::Value::String("First".to_string()));
}
