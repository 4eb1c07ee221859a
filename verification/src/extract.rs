//! The public extraction call: from an HTML page and an optional category
//! selector to the serialized, enriched product record.

use vstd::prelude::*;
use crate::bindings::{
    block_model, category_texts, parse_block, render_record, rendered, script_texts,
    selected_texts, selector_ok,
};
use crate::enrich::{assemble_product, spec_enriched};
use crate::json::{jmodel, spec_first_product, JsonValue};
use crate::text::cleaned_all;

verus! {

/// The selector that locates the embedded structured-data blocks.
pub open spec fn script_selector_text() -> Seq<char> {
    "script[type=\"application/ld+json\"]"@
}

/// The selector used for the category trail when the caller supplies none:
/// the `li` entries of the `polku` breadcrumb container from the third one
/// on (the first two are typically the home link and the top-level section).
pub open spec fn default_category_selector() -> Seq<char> {
    "div#polku li:nth-child(n+3)"@
}

/// The category selector a call works with: the caller's, or the default.
pub open spec fn effective_selector(category_selector: Option<&str>) -> Seq<char> {
    match category_selector {
        Some(s) => s@,
        None => default_category_selector(),
    }
}

/// The models of the page's structured-data blocks, in document order: what
/// each block's text parses to, or nothing where it is not well-formed JSON.
pub open spec fn page_blocks(html: Seq<char>) -> Seq<Option<JsonValue>> {
    selected_texts(html, script_selector_text()).map_values(|t: Seq<char>| block_model(t))
}


/// The serialized text the call publishes for a product record `rec` found on
/// the page: `rec` enriched with the cleaned texts the selector picks.
pub open spec fn rendered_output(html: Seq<char>, selector: Seq<char>, rec: JsonValue) -> Seq<
    char,
> {
    rendered(spec_enriched(jmodel(rec), cleaned_all(selected_texts(html, selector))))
}

/// The category selector text failed to compile: a configuration error,
/// surfaced to the caller and distinct from "no product found".
#[derive(Debug)]
pub struct SelectorSyntaxError;

/// Extracts the first JSON-LD product record of the page, attaches the
/// normalized breadcrumb categories to it, and returns it serialized; absent
/// exactly when the page holds no product record. Fails exactly when the
/// effective category selector is not well-formed selector text.
#[verifier::loop_isolation(false)]
pub fn extract_product(html: &str, category_selector: Option<&str>) -> (r: Result<
    Option<String>,
    SelectorSyntaxError,
>)
    ensures
        r is Err <==> !selector_ok(effective_selector(category_selector)),
        r matches Ok(found) ==> (found is Some <==> spec_first_product(page_blocks(html@))
            is Some),
        r matches Ok(Some(out)) ==> (spec_first_product(page_blocks(html@)) matches Some(rec)
            && out@ == rendered_output(html@, effective_selector(category_selector), rec)),
{
    let selector_text: &str = match category_selector {
        Some(s) => s,
        None => "div#polku li:nth-child(n+3)",
    };
    let raw_categories = match category_texts(html, selector_text) {
        Some(texts) => texts,
        None => {
            return Err(SelectorSyntaxError);
        },
    };
    let script_blocks = script_texts(html);
    let mut blocks: Vec<Option<JsonValue>> = Vec::new();
    proof {
        assert(blocks@ =~= page_blocks(html@).subrange(0, 0));
    }
    let mut i: usize = 0;
    while i < script_blocks.len()
        invariant
            i <= script_blocks@.len(),
            blocks@ == page_blocks(html@).subrange(0, i as int),
        decreases script_blocks@.len() - i,
    {
        blocks.push(parse_block(script_blocks[i].as_str()));
        proof {
            assert(script_blocks.deep_view()[i as int] == script_blocks@[i as int]@);
            assert(page_blocks(html@)[i as int] == block_model(script_blocks@[i as int]@));
            assert(blocks@ =~= page_blocks(html@).subrange(0, i + 1));
        }
        i = i + 1;
    }
    proof {
        assert(page_blocks(html@).subrange(0, page_blocks(html@).len() as int) =~= page_blocks(
            html@,
        ));
    }
    match assemble_product(blocks, raw_categories) {
        Some(record) => Ok(Some(render_record(&record))),
        None => Ok(None),
    }
}

} // verus!
