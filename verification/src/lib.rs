//! Extraction of JSON-LD product metadata from e-commerce HTML pages.
//!
//! The library locates an embedded `application/ld+json` block describing a
//! `Product`, gathers a breadcrumb category trail from the page, normalizes
//! the category text, and attaches it to the product record before
//! serializing it back to text.

mod bindings;
pub mod enrich;
pub mod extract;
pub mod json;
pub mod text;
