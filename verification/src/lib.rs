//! Inline-property extraction engine for freeform note text.
//!
//! Notes may embed typed metadata directly in prose with a compact bracket
//! notation such as `[key::value]`, `[key:::hidden value]` or the grouped
//! form `[k1::v1, k2::v2]`.  This crate scans a document for such spans,
//! tokenizes each span into key/value pairs, infers a typed value for each
//! pair (text, number, checkbox, date, date-time, link, list, tag set) and
//! tracks byte positions, line numbers and group ids.  Two text-level
//! mutation helpers rewrite a document given a previously extracted
//! property.  A small translation-table module serves the surrounding
//! application's user-facing strings.

pub mod i18n;
pub mod parser;
pub mod property;
pub mod text;
pub mod value;
