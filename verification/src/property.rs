//! The extracted property record and its mathematical model.

use vstd::prelude::*;

use crate::value::{PropertyValue, ValueModel};
use crate::text::push_char;

verus! {

/// One inline property extracted from note content.
///
/// The record is a value-typed snapshot: it does not borrow from the
/// source text.  `char_start`/`char_end` are byte offsets of the whole
/// bracketed span `[...]` in the source, inclusive/exclusive.
#[derive(Debug, Clone)]
pub struct InlineProperty {
    /// Field name: a Unicode letter followed by letters, numbers or `_`.
    pub key: String,
    /// Typed value.
    pub value: PropertyValue,
    /// The literal value substring, with escaped commas restored.
    pub raw_value: String,
    /// 1-indexed line on which the bracket span begins.
    pub line_number: usize,
    /// Byte offset of the opening `[` in the source text.
    pub char_start: usize,
    /// Byte offset one past the closing `]` in the source text.
    pub char_end: usize,
    /// Name of the referenced note, when the value is a single relation.
    pub linked_note: Option<String>,
    /// `None` for a standalone property; `Some(n)` shared by every
    /// property of one multi-pair bracket span.
    pub group_id: Option<usize>,
    /// True when the pair used the hidden `:::` separator.
    pub hidden: bool,
}

/// Mathematical model of an [`InlineProperty`].
pub struct PropModel {
    pub key: Seq<char>,
    pub value: ValueModel,
    pub raw_value: Seq<char>,
    pub line_number: int,
    pub char_start: int,
    pub char_end: int,
    pub linked_note: Option<Seq<char>>,
    pub group_id: Option<int>,
    pub hidden: bool,
}

impl View for InlineProperty {
    type V = PropModel;

    open spec fn view(&self) -> PropModel {
        PropModel {
            key: self.key@,
            value: self.value@,
            raw_value: self.raw_value@,
            line_number: self.line_number as int,
            char_start: self.char_start as int,
            char_end: self.char_end as int,
            linked_note: self.linked_note.deep_view(),
            group_id: match self.group_id {
                Some(n) => Some(n as int),
                None => None,
            },
            hidden: self.hidden,
        }
    }
}

impl DeepView for InlineProperty {
    type V = PropModel;

    open spec fn deep_view(&self) -> PropModel {
        self.view()
    }
}

impl InlineProperty {
    /// The property's full text as it appears in the file:
    /// `[key::raw_value]`, with `:::` when the property is hidden.
    pub fn full_text(&self) -> (r: String)
        ensures
            r@ == seq!['['] + self.key@ + (if self.hidden { ":::"@ } else { "::"@ })
                + self.raw_value@ + seq![']'],
    {
        let mut r = String::new();
        push_char(&mut r, '[');
        r.append(self.key.as_str());
        if self.hidden {
            r.append(":::");
        } else {
            r.append("::");
        }
        r.append(self.raw_value.as_str());
        push_char(&mut r, ']');
        proof {
            assert(r@ =~= seq!['['] + self.key@ + (if self.hidden { ":::"@ } else { "::"@ })
                + self.raw_value@ + seq![']']);
        }
        r
    }
}

} // verus!
