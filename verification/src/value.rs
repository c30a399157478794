//! The typed value of an inline property, and its mathematical model.
//!
//! A raw value string is classified by a strict priority cascade into one
//! of a closed set of variants; see the inference functions in
//! [`crate::parser`].  Numeric values keep the literal digits that matched
//! the floating-point grammar, so that the text round-trips exactly.

use vstd::prelude::*;

verus! {

/// The typed value carried by one inline property.
#[derive(Debug, Clone)]
pub enum PropertyValue {
    /// Free text (escaped commas restored).
    Text(String),
    /// A numeric literal in Rust's floating-point syntax, kept verbatim.
    Number(String),
    /// A boolean written `true` or `false` (any ASCII case).
    Checkbox(bool),
    /// A calendar-shaped date `YYYY-MM-DD` (digits only, not range-checked).
    Date(String),
    /// A date-time whose first ten characters form a date and which
    /// contains a `T`.
    DateTime(String),
    /// A relation to another note, written `@Name`.
    Link(String),
    /// Several relations, written `@N1,@N2`.
    Links(Vec<String>),
    /// A plain comma-separated list.
    List(Vec<String>),
    /// A tag set, written `#t1,#t2` or `#t1 #t2` (leading `#` stripped).
    Tags(Vec<String>),
}

/// Mathematical model of a [`PropertyValue`]: the same variants over
/// character sequences.
pub enum ValueModel {
    Text(Seq<char>),
    Number(Seq<char>),
    Checkbox(bool),
    Date(Seq<char>),
    DateTime(Seq<char>),
    Link(Seq<char>),
    Links(Seq<Seq<char>>),
    List(Seq<Seq<char>>),
    Tags(Seq<Seq<char>>),
}

impl View for PropertyValue {
    type V = ValueModel;

    open spec fn view(&self) -> ValueModel {
        match self {
            PropertyValue::Text(s) => ValueModel::Text(s@),
            PropertyValue::Number(s) => ValueModel::Number(s@),
            PropertyValue::Checkbox(b) => ValueModel::Checkbox(*b),
            PropertyValue::Date(s) => ValueModel::Date(s@),
            PropertyValue::DateTime(s) => ValueModel::DateTime(s@),
            PropertyValue::Link(s) => ValueModel::Link(s@),
            PropertyValue::Links(v) => ValueModel::Links(v.deep_view()),
            PropertyValue::List(v) => ValueModel::List(v.deep_view()),
            PropertyValue::Tags(v) => ValueModel::Tags(v.deep_view()),
        }
    }
}

impl DeepView for PropertyValue {
    type V = ValueModel;

    open spec fn deep_view(&self) -> ValueModel {
        self.view()
    }
}

} // verus!

