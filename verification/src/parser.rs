//! The inline-property extraction engine.
//!
//! A document is scanned for bracket spans `[...]` (non-nesting: the first
//! `]` always closes a span).  Each span interior is tokenized into
//! `key::value` / `key:::value` pairs, every value is classified by a
//! strict priority cascade, and spans that yield several properties share
//! a monotonically increasing group id.  Two mutation helpers rewrite a
//! document around a previously extracted property.
//!
//! The whole pipeline is modelled by spec functions over character
//! sequences; `parse` returns exactly the model's verdict.

use vstd::prelude::*;

use crate::property::{InlineProperty, PropModel};
use crate::value::{PropertyValue, ValueModel};
use crate::text::ascii_digit;
use crate::text::char_is_space;
use crate::text::chars_to_string;
use crate::text::contains_char;
use crate::text::copy_range;
use crate::text::find_char;
use crate::text::find_char_from;
use crate::text::is_ascii_digit_char;
use crate::text::lower_ascii;
use crate::text::lower_ascii_code;
use crate::text::restore_commas;
use crate::text::restore_copy;
use crate::text::restore_range;
use crate::text::trim_copy;
use crate::text::trim_range_spec;
use crate::text::unicode_space;

verus! {

// ===========================================================================
// Value classification: specification
// ===========================================================================

/// The value reads `true` in any ASCII case.
pub open spec fn is_true_lit(v: Seq<char>) -> bool {
    &&& v.len() == 4
    &&& lower_ascii_code(v[0]) == 't' as u32
    &&& lower_ascii_code(v[1]) == 'r' as u32
    &&& lower_ascii_code(v[2]) == 'u' as u32
    &&& lower_ascii_code(v[3]) == 'e' as u32
}

/// The value reads `false` in any ASCII case.
pub open spec fn is_false_lit(v: Seq<char>) -> bool {
    &&& v.len() == 5
    &&& lower_ascii_code(v[0]) == 'f' as u32
    &&& lower_ascii_code(v[1]) == 'a' as u32
    &&& lower_ascii_code(v[2]) == 'l' as u32
    &&& lower_ascii_code(v[3]) == 's' as u32
    &&& lower_ascii_code(v[4]) == 'e' as u32
}

/// One of the special floating-point words `inf`, `infinity`, `nan`
/// (any ASCII case).
pub open spec fn float_word(s: Seq<char>) -> bool {
    ||| (s.len() == 3 && lower_ascii_code(s[0]) == 'i' as u32 && lower_ascii_code(s[1])
        == 'n' as u32 && lower_ascii_code(s[2]) == 'f' as u32)
    ||| (s.len() == 8 && lower_ascii_code(s[0]) == 'i' as u32 && lower_ascii_code(s[1])
        == 'n' as u32 && lower_ascii_code(s[2]) == 'f' as u32 && lower_ascii_code(s[3])
        == 'i' as u32 && lower_ascii_code(s[4]) == 'n' as u32 && lower_ascii_code(s[5])
        == 'i' as u32 && lower_ascii_code(s[6]) == 't' as u32 && lower_ascii_code(s[7])
        == 'y' as u32)
    ||| (s.len() == 3 && lower_ascii_code(s[0]) == 'n' as u32 && lower_ascii_code(s[1])
        == 'a' as u32 && lower_ascii_code(s[2]) == 'n' as u32)
}

pub open spec fn all_digits(s: Seq<char>) -> bool {
    forall|i: int| 0 <= i < s.len() ==> ascii_digit(s[i])
}

/// A mantissa: digits with at most one decimal point and at least one
/// digit, as Rust's float grammar admits before the exponent.
pub open spec fn mantissa_ok(m: Seq<char>) -> bool {
    &&& m.len() > 0
    &&& forall|i: int| 0 <= i < m.len() ==> ascii_digit(m[i]) || m[i] == '.'
    &&& forall|i: int, j: int| 0 <= i < j < m.len() ==> !(m[i] == '.' && m[j] == '.')
    &&& exists|i: int| 0 <= i < m.len() && ascii_digit(m[i])
}

/// Index of the first `e`/`E` at or after `from`, or `s.len()`.
pub open spec fn exp_start(s: Seq<char>, from: int) -> int
    decreases s.len() - from,
{
    if 0 <= from < s.len() {
        if s[from] == 'e' || s[from] == 'E' {
            from
        } else {
            exp_start(s, from + 1)
        }
    } else {
        s.len() as int
    }
}

pub proof fn lemma_exp_start(s: Seq<char>, from: int)
    requires
        0 <= from <= s.len(),
    ensures
        from <= exp_start(s, from) <= s.len(),
        exp_start(s, from) < s.len() ==> (s[exp_start(s, from)] == 'e' || s[exp_start(s, from)]
            == 'E'),
    decreases s.len() - from,
{
    if from < s.len() && !(s[from] == 'e' || s[from] == 'E') {
        lemma_exp_start(s, from + 1);
    }
}

/// An exponent part including its leading `e`/`E`: optional sign, then at
/// least one digit.
pub open spec fn exp_ok(x: Seq<char>) -> bool {
    &&& x.len() >= 2
    &&& (x[0] == 'e' || x[0] == 'E')
    &&& {
        let d = if x[1] == '+' || x[1] == '-' {
            x.skip(2)
        } else {
            x.skip(1)
        };
        d.len() > 0 && all_digits(d)
    }
}

/// An unsigned number in Rust's float grammar: mantissa then optional
/// exponent.
pub open spec fn number_lit(s: Seq<char>) -> bool {
    let k = exp_start(s, 0);
    mantissa_ok(s.take(k)) && (k == s.len() || exp_ok(s.skip(k)))
}

pub open spec fn float_body(s: Seq<char>) -> bool {
    float_word(s) || number_lit(s)
}

/// The whole string matches the grammar that `f64`'s `FromStr` accepts:
/// an optional sign, then `inf`, `infinity`, `nan` (case-insensitive) or
/// a number with optional fraction and exponent.
pub open spec fn float_lit(s: Seq<char>) -> bool {
    if s.len() > 0 && (s[0] == '+' || s[0] == '-') {
        float_body(s.skip(1))
    } else {
        float_body(s)
    }
}

/// Exactly `YYYY-MM-DD`: all-digit 4/2/2 segments (no calendar
/// validation).
pub open spec fn is_date_lit(s: Seq<char>) -> bool {
    &&& s.len() == 10
    &&& s[4] == '-'
    &&& s[7] == '-'
    &&& forall|i: int| 0 <= i < 10 && i != 4 && i != 7 ==> ascii_digit(s[i])
}

/// Contains a `T`, is at least 19 characters long, and opens with a date.
pub open spec fn is_datetime_lit(s: Seq<char>) -> bool {
    s.contains('T') && s.len() >= 19 && is_date_lit(s.take(10))
}

// ===========================================================================
// List splitting: specification
// ===========================================================================

/// The comma-separated items of `s` starting at `from`, each trimmed,
/// empty items dropped.
pub open spec fn split_items(s: Seq<char>, from: int) -> Seq<Seq<char>>
    decreases s.len() - from,
{
    if !(0 <= from <= s.len()) {
        Seq::empty()
    } else {
        let e = find_char_from(s, from, ',');
        let item = trim_range_spec(s, from, e);
        let rest = if e < s.len() {
            split_items(s, if e + 1 > from { e + 1 } else { from + 1 })
        } else {
            Seq::empty()
        };
        if item.len() == 0 {
            rest
        } else {
            seq![item] + rest
        }
    }
}

/// One past the end of the run of non-whitespace characters at `from`.
pub open spec fn nonspace_end(s: Seq<char>, from: int) -> int
    decreases s.len() - from,
{
    if 0 <= from < s.len() && !unicode_space(s[from]) {
        nonspace_end(s, from + 1)
    } else {
        from
    }
}

/// The whitespace-separated tokens of `s` starting at `from`.
pub open spec fn split_tokens(s: Seq<char>, from: int) -> Seq<Seq<char>>
    decreases s.len() - from,
{
    if !(0 <= from < s.len()) {
        Seq::empty()
    } else if unicode_space(s[from]) {
        split_tokens(s, from + 1)
    } else {
        let e0 = nonspace_end(s, from);
        let e = if from < e0 && e0 <= s.len() {
            e0
        } else {
            from + 1
        };
        seq![s.subrange(from, e)] + split_tokens(s, e)
    }
}

/// Every item is non-empty and begins with `c`.
pub open spec fn all_start_with(items: Seq<Seq<char>>, c: char) -> bool {
    forall|i: int| 0 <= i < items.len() ==> items[i].len() > 0 && (#[trigger] items[i])[0] == c
}

/// One past the end of the run of `c` characters at `from`.
pub open spec fn marks_end(s: Seq<char>, from: int, c: char) -> int
    decreases s.len() - from,
{
    if 0 <= from < s.len() && s[from] == c {
        marks_end(s, from + 1, c)
    } else {
        from
    }
}

/// `s` with every leading `c` removed, as `trim_start_matches` leaves it.
pub open spec fn strip_marks(s: Seq<char>, c: char) -> Seq<char> {
    s.skip(marks_end(s, 0, c))
}

/// Each item with leading `c` marks stripped and escaped commas restored.
pub open spec fn stripped_restored(items: Seq<Seq<char>>, c: char) -> Seq<Seq<char>> {
    Seq::new(items.len(), |i: int| restore_commas(strip_marks(items[i], c)))
}

/// Each item with escaped commas restored.
pub open spec fn restored_all(items: Seq<Seq<char>>) -> Seq<Seq<char>> {
    Seq::new(items.len(), |i: int| restore_commas(items[i]))
}

// ===========================================================================
// Value classification: the cascade
// ===========================================================================

/// The typed value and optional linked note of one trimmed raw value
/// (sentinel commas still present; restored only in the produced text).
/// First matching rule wins: relation, boolean, number (only without a
/// separator comma), date, date-time, comma list (tags / links / plain),
/// inline tag shorthand, text.
pub open spec fn infer_value_spec(v: Seq<char>) -> (ValueModel, Option<Seq<char>>) {
    if v.len() > 0 && v[0] == '@' {
        let name = restore_commas(v.skip(1));
        (ValueModel::Link(name), Some(name))
    } else if is_true_lit(v) {
        (ValueModel::Checkbox(true), None)
    } else if is_false_lit(v) {
        (ValueModel::Checkbox(false), None)
    } else if !v.contains(',') && float_lit(restore_commas(v)) {
        (ValueModel::Number(restore_commas(v)), None)
    } else if is_date_lit(v) {
        (ValueModel::Date(v), None)
    } else if is_datetime_lit(v) {
        (ValueModel::DateTime(restore_commas(v)), None)
    } else if v.contains(',') && split_items(v, 0).len() > 0 {
        let items = split_items(v, 0);
        if all_start_with(items, '#') {
            (ValueModel::Tags(stripped_restored(items, '#')), None)
        } else if all_start_with(items, '@') {
            (ValueModel::Links(stripped_restored(items, '@')), None)
        } else {
            (ValueModel::List(restored_all(items)), None)
        }
    } else if v.len() > 0 && v[0] == '#' && all_start_with(split_tokens(v, 0), '#') {
        (ValueModel::Tags(stripped_restored(split_tokens(v, 0), '#')), None)
    } else {
        (ValueModel::Text(restore_commas(v)), None)
    }
}

// ===========================================================================
// Pair tokenization: specification
// ===========================================================================

/// One `key::value` / `key:::value` pair head found in a span interior:
/// `[start, key_end)` is the key, `hidden` tells the separator apart, and
/// `end` is one past the separator and its trailing whitespace.
pub struct PairMatch {
    pub start: int,
    pub key_end: int,
    pub hidden: bool,
    pub end: int,
}

/// One past the end of the run of key-continuation characters at `from`.
pub open spec fn key_tail_end(s: Seq<char>, from: int) -> int
    decreases s.len() - from,
{
    if 0 <= from < s.len() && crate::text::key_tail_char(s[from]) {
        key_tail_end(s, from + 1)
    } else {
        from
    }
}

/// Whitespace inside a pair head.  The separator's own colon, which is
/// never whitespace, is written out so the model itself carries that the
/// gap cannot swallow it.
pub open spec fn gap_char(c: char) -> bool {
    crate::text::unicode_space(c) && c != ':'
}

/// One past the end of the run of gap characters at `from`.
pub open spec fn space_run_end(s: Seq<char>, from: int) -> int
    decreases s.len() - from,
{
    if 0 <= from < s.len() && gap_char(s[from]) {
        space_run_end(s, from + 1)
    } else {
        from
    }
}

pub proof fn lemma_space_run_end(s: Seq<char>, from: int)
    requires
        0 <= from <= s.len(),
    ensures
        from <= space_run_end(s, from) <= s.len(),
    decreases s.len() - from,
{
    if from < s.len() && gap_char(s[from]) {
        lemma_space_run_end(s, from + 1);
    }
}

/// The pair head starting exactly at `i`: a Unicode letter, then letters,
/// numbers or `_`, optional whitespace, `::` or `:::` (the longer match
/// wins), then optional whitespace.
pub open spec fn pair_match_at(t: Seq<char>, i: int) -> Option<PairMatch> {
    if 0 <= i < t.len() && crate::text::key_head_char(t[i]) {
        let ke = key_tail_end(t, i + 1);
        let w = space_run_end(t, ke);
        if w + 2 <= t.len() && t[w] == ':' && t[w + 1] == ':' {
            let sep: int = if w + 2 < t.len() && t[w + 2] == ':' {
                3
            } else {
                2
            };
            Some(
                PairMatch {
                    start: i,
                    key_end: ke,
                    hidden: sep == 3,
                    end: space_run_end(t, w + sep),
                },
            )
        } else {
            None
        }
    } else {
        None
    }
}

/// All pair heads of `t` at or after `i`, leftmost first,
/// non-overlapping.
pub open spec fn pair_matches_from(t: Seq<char>, i: int) -> Seq<PairMatch>
    decreases t.len() - i,
{
    if !(0 <= i < t.len()) {
        Seq::empty()
    } else {
        match pair_match_at(t, i) {
            Some(m) => {
                let nxt = if i < m.end <= t.len() {
                    m.end
                } else {
                    i + 1
                };
                seq![m] + pair_matches_from(t, nxt)
            },
            None => pair_matches_from(t, i + 1),
        }
    }
}

pub proof fn lemma_key_tail_end(s: Seq<char>, from: int)
    requires
        0 <= from <= s.len(),
    ensures
        from <= key_tail_end(s, from) <= s.len(),
    decreases s.len() - from,
{
    if from < s.len() && crate::text::key_tail_char(s[from]) {
        lemma_key_tail_end(s, from + 1);
    }
}

pub proof fn lemma_pair_match_bounds(t: Seq<char>, i: int)
    requires
        0 <= i < t.len(),
        pair_match_at(t, i) is Some,
    ensures
        ({
            let m = pair_match_at(t, i)->Some_0;
            &&& m.start == i
            &&& i < m.key_end
            &&& m.key_end <= m.end
            &&& i + 3 <= m.end <= t.len()
        }),
{
    let m = pair_match_at(t, i)->Some_0;
    lemma_key_tail_end(t, i + 1);
    let ke = key_tail_end(t, i + 1);
    lemma_space_run_end(t, ke);
    let w = space_run_end(t, ke);
    let sep: int = if w + 2 < t.len() && t[w + 2] == ':' {
        3
    } else {
        2
    };
    lemma_space_run_end(t, w + sep);
}

/// Index of the last comma in `[from, to)`, or `from - 1` when there is
/// none.
pub open spec fn last_comma(t: Seq<char>, from: int, to: int) -> int
    decreases to - from,
{
    if from < to && 0 <= to - 1 < t.len() {
        if t[to - 1] == ',' {
            to - 1
        } else {
            last_comma(t, from, to - 1)
        }
    } else {
        from - 1
    }
}

/// Where the value of pair `idx` ends: the last comma before the next
/// pair (or the next pair's start when there is no comma), or the end of
/// the interior for the last pair.
pub open spec fn value_end_at(t: Seq<char>, ms: Seq<PairMatch>, idx: int) -> int {
    if idx + 1 < ms.len() {
        let vs = ms[idx].end;
        let ns = ms[idx + 1].start;
        let p = last_comma(t, vs, ns);
        if p >= vs {
            p
        } else {
            ns
        }
    } else {
        t.len() as int
    }
}

/// The property produced by pair `idx` of the escaped interior `t`
/// (group id still unassigned).
pub open spec fn span_prop(
    t: Seq<char>,
    ms: Seq<PairMatch>,
    idx: int,
    line: int,
    cs: int,
    ce: int,
) -> PropModel {
    let m = ms[idx];
    let vraw = trim_range_spec(t, m.end, value_end_at(t, ms, idx));
    let iv = infer_value_spec(vraw);
    PropModel {
        key: t.subrange(m.start, m.key_end),
        value: iv.0,
        raw_value: restore_commas(vraw),
        line_number: line,
        char_start: cs,
        char_end: ce,
        linked_note: iv.1,
        group_id: None,
        hidden: m.hidden,
    }
}

/// All properties of one bracket interior, in pair order (group ids
/// still unassigned).  An interior without any pair head yields nothing.
pub open spec fn span_props(inner: Seq<char>, line: int, cs: int, ce: int) -> Seq<PropModel> {
    let t = crate::text::subst_escaped(inner);
    let ms = pair_matches_from(t, 0);
    Seq::new(ms.len(), |i: int| span_prop(t, ms, i, line, cs, ce))
}

// ===========================================================================
// Bracket scanning and grouping: specification
// ===========================================================================

/// The bracket spans `[a, b)` of the document at or after `i`, leftmost
/// first.  At a `[`, the first `]` closes the span (no nesting); an empty
/// `[]` is no span; a `[` with no `]` anywhere after it ends the scan.
pub open spec fn scan_spans(s: Seq<char>, i: int) -> Seq<(int, int)>
    decreases s.len() - i,
{
    if !(0 <= i < s.len()) {
        Seq::empty()
    } else if s[i] == '[' {
        let j = find_char_from(s, i + 1, ']');
        if j >= s.len() {
            Seq::empty()
        } else if j > i + 1 {
            seq![(i, j + 1)] + scan_spans(s, j + 1)
        } else {
            scan_spans(s, i + 1)
        }
    } else {
        scan_spans(s, i + 1)
    }
}

/// Number of newline characters among the first `upto` characters.
pub open spec fn count_nl(s: Seq<char>, upto: int) -> int
    decreases upto,
{
    if upto <= 0 {
        0
    } else {
        count_nl(s, upto - 1) + if 0 <= upto - 1 < s.len() && s[upto - 1] == '\n' {
            1int
        } else {
            0int
        }
    }
}

/// 1-indexed line number of the character position `pos`.
pub open spec fn line_of(s: Seq<char>, pos: int) -> int {
    1 + count_nl(s, pos)
}

/// The ungrouped properties of the span `[a, b)` of document `s`, with
/// line number and byte offsets filled in.
pub open spec fn span_props_at(s: Seq<char>, a: int, b: int) -> Seq<PropModel> {
    span_props(
        s.subrange(a + 1, b - 1),
        line_of(s, a),
        crate::text::blen(s.take(a)),
        crate::text::blen(s.take(b)),
    )
}

/// Every property with its group id replaced by `g`.
pub open spec fn with_group(ps: Seq<PropModel>, g: Option<int>) -> Seq<PropModel> {
    Seq::new(
        ps.len(),
        |i: int|
            PropModel {
                key: ps[i].key,
                value: ps[i].value,
                raw_value: ps[i].raw_value,
                line_number: ps[i].line_number,
                char_start: ps[i].char_start,
                char_end: ps[i].char_end,
                linked_note: ps[i].linked_note,
                group_id: g,
                hidden: ps[i].hidden,
            },
    )
}

/// The properties of the given spans in document order, with one group
/// id per multi-property span, counting up from `g`.
pub open spec fn assemble(s: Seq<char>, spans: Seq<(int, int)>, g: int) -> Seq<PropModel>
    decreases spans.len(),
{
    if spans.len() == 0 {
        Seq::empty()
    } else {
        let ps = span_props_at(s, spans[0].0, spans[0].1);
        if ps.len() > 1 {
            with_group(ps, Some(g + 1)) + assemble(s, spans.drop_first(), g + 1)
        } else {
            with_group(ps, None) + assemble(s, spans.drop_first(), g)
        }
    }
}

/// The full verdict of the engine on a document: every property of every
/// bracket span, in document order, with positions, line numbers and
/// group ids.
pub open spec fn parse_spec(s: Seq<char>) -> Seq<PropModel> {
    assemble(s, scan_spans(s, 0), 0)
}

// ===========================================================================
// Laws of the assembled output
// ===========================================================================

/// Spans lie in `[lo, s.len())`, are ordered and do not overlap.
pub open spec fn spans_wf(s: Seq<char>, spans: Seq<(int, int)>, lo: int) -> bool {
    &&& forall|k: int| 0 <= k < spans.len() ==> lo <= (#[trigger] spans[k]).0 < spans[k].1
        <= s.len()
    &&& forall|k: int| 0 <= k < spans.len() - 1 ==> (#[trigger] spans[k]).1 <= spans[k + 1].0
}

pub proof fn lemma_scan_spans_wf(s: Seq<char>, i: int)
    requires
        0 <= i,
    ensures
        spans_wf(s, scan_spans(s, i), i),
    decreases s.len() - i,
{
    let r = scan_spans(s, i);
    if 0 <= i < s.len() {
        if s[i] == '[' {
            let j = find_char_from(s, i + 1, ']');
            crate::text::lemma_find_char_from(s, i + 1, ']');
            if j >= s.len() {
            } else if j > i + 1 {
                lemma_scan_spans_wf(s, j + 1);
                let rest = scan_spans(s, j + 1);
                assert forall|k: int| 0 <= k < r.len() implies i <= (#[trigger] r[k]).0 < r[k].1
                    <= s.len() by {
                    if k > 0 {
                        assert(r[k] == rest[k - 1]);
                    }
                }
                assert forall|k: int| 0 <= k < r.len() - 1 implies (#[trigger] r[k]).1 <= r[k
                    + 1].0 by {
                    if k > 0 {
                        assert(r[k] == rest[k - 1]);
                    }
                    assert(r[k + 1] == rest[k]);
                }
            } else {
                lemma_scan_spans_wf(s, i + 1);
            }
        } else {
            lemma_scan_spans_wf(s, i + 1);
        }
    }
}

pub proof fn lemma_count_nl_nonneg(s: Seq<char>, upto: int)
    ensures
        count_nl(s, upto) >= 0,
    decreases upto,
{
    if upto > 0 {
        lemma_count_nl_nonneg(s, upto - 1);
    }
}

/// Every assembled property's span byte range is non-empty and lies
/// inside the document, and its line number is at least one.
pub proof fn lemma_assemble_positions(s: Seq<char>, spans: Seq<(int, int)>, g: int)
    requires
        spans_wf(s, spans, 0),
    ensures
        forall|k: int| 0 <= k < assemble(s, spans, g).len() ==> {
            let p = #[trigger] assemble(s, spans, g)[k];
            &&& 0 <= p.char_start < p.char_end <= crate::text::blen(s)
            &&& 1 <= p.line_number
        },
    decreases spans.len(),
{
    let r = assemble(s, spans, g);
    if spans.len() > 0 {
        let a0 = spans[0].0;
        let b0 = spans[0].1;
        let ps = span_props_at(s, a0, b0);
        let gq: Option<int> = if ps.len() > 1 {
            Some(g + 1)
        } else {
            None
        };
        let g2: int = if ps.len() > 1 {
            g + 1
        } else {
            g
        };
        let hs = with_group(ps, gq);
        let tail_spans = spans.drop_first();
        assert(spans_wf(s, tail_spans, 0)) by {
            assert(forall|k: int| 0 <= k < tail_spans.len() ==> tail_spans[k] == spans[k + 1]);
        }
        lemma_assemble_positions(s, tail_spans, g2);
        let rt = assemble(s, tail_spans, g2);
        crate::text::lemma_blen_mono(s, 0, a0);
        crate::text::lemma_blen_mono(s, a0, b0);
        crate::text::lemma_blen_mono(s, b0, s.len() as int);
        crate::text::lemma_blen_whole(s);
        lemma_count_nl_nonneg(s, a0);
        assert forall|k: int| 0 <= k < r.len() implies {
            let p = #[trigger] r[k];
            &&& 0 <= p.char_start < p.char_end <= crate::text::blen(s)
            &&& 1 <= p.line_number
        } by {
            if k < hs.len() {
                assert(r[k] == hs[k]);
                assert(hs[k].char_start == crate::text::blen(s.take(a0)));
                assert(hs[k].char_end == crate::text::blen(s.take(b0)));
                assert(hs[k].line_number == line_of(s, a0));
            } else {
                assert(r[k] == rt[k - hs.len()]);
            }
        }
    }
}

/// Decomposition of one assembly step: the head span's properties, all
/// sharing its byte start and one group id, followed by the rest.
pub open spec fn head_props(s: Seq<char>, spans: Seq<(int, int)>) -> Seq<PropModel> {
    span_props_at(s, spans[0].0, spans[0].1)
}

pub open spec fn head_gid(s: Seq<char>, spans: Seq<(int, int)>, g: int) -> Option<int> {
    if head_props(s, spans).len() > 1 {
        Some(g + 1)
    } else {
        None
    }
}

pub open spec fn next_gid(s: Seq<char>, spans: Seq<(int, int)>, g: int) -> int {
    if head_props(s, spans).len() > 1 {
        g + 1
    } else {
        g
    }
}

/// Byte starts of the assembled output never decrease, and none lies
/// before the first span.
pub proof fn lemma_assemble_order(s: Seq<char>, spans: Seq<(int, int)>, g: int)
    requires
        spans_wf(s, spans, 0),
    ensures
        ({
            let r = assemble(s, spans, g);
            &&& forall|k: int| 0 <= k < r.len() && spans.len() > 0 ==> (#[trigger] r[
                k]).char_start >= crate::text::blen(s.take(spans[0].0))
            &&& forall|k1: int, k2: int| 0 <= k1 <= k2 < r.len() ==> (#[trigger] r[
                k1]).char_start <= (#[trigger] r[k2]).char_start
        }),
    decreases spans.len(),
{
    let r = assemble(s, spans, g);
    if spans.len() > 0 {
        let a0 = spans[0].0;
        let b0 = spans[0].1;
        let tail_spans = spans.drop_first();
        assert(spans_wf(s, tail_spans, 0)) by {
            assert(forall|k: int| 0 <= k < tail_spans.len() ==> tail_spans[k] == spans[k + 1]);
        }
        let g2 = next_gid(s, spans, g);
        lemma_assemble_order(s, tail_spans, g2);
        let hs = with_group(head_props(s, spans), head_gid(s, spans, g));
        let rt = assemble(s, tail_spans, g2);
        let h = hs.len() as int;
        let c0 = crate::text::blen(s.take(a0));
        assert(r == hs + rt);
        crate::text::lemma_blen_mono(s, a0, b0);
        if tail_spans.len() > 0 {
            crate::text::lemma_blen_mono(s, b0, tail_spans[0].0);
        }
        assert(forall|k: int| 0 <= k < h ==> (#[trigger] hs[k]).char_start == c0);
        assert forall|k1: int, k2: int| 0 <= k1 <= k2 < r.len() implies (#[trigger] r[
            k1]).char_start <= (#[trigger] r[k2]).char_start by {
            if k1 >= h && k2 >= h {
                assert(r[k1] == rt[k1 - h] && r[k2] == rt[k2 - h]);
                assert(rt[k1 - h].char_start <= rt[k2 - h].char_start);
            } else if k2 >= h {
                assert(r[k2] == rt[k2 - h]);
                assert(rt[k2 - h].char_start >= crate::text::blen(s.take(tail_spans[0].0)));
            }
        }
    }
}

/// One assembly step in full: head properties followed by the assembled
/// tail, whose properties all start strictly later.
pub proof fn lemma_assemble_decomp(s: Seq<char>, spans: Seq<(int, int)>, g: int)
    requires
        spans_wf(s, spans, 0),
        spans.len() > 0,
    ensures
        ({
            let r = assemble(s, spans, g);
            let rt = assemble(s, spans.drop_first(), next_gid(s, spans, g));
            let h = head_props(s, spans).len() as int;
            let c0 = crate::text::blen(s.take(spans[0].0));
            &&& spans_wf(s, spans.drop_first(), 0)
            &&& r == with_group(head_props(s, spans), head_gid(s, spans, g)) + rt
            &&& r.len() == h + rt.len()
            &&& forall|k: int| 0 <= k < h ==> (#[trigger] r[k]).char_start == c0 && r[
                k].group_id == head_gid(s, spans, g)
            &&& forall|k: int| h <= k < r.len() ==> #[trigger] r[k] == rt[k - h] && r[
                k].char_start > c0
        }),
{
    let tail_spans = spans.drop_first();
    assert(spans_wf(s, tail_spans, 0)) by {
        assert(forall|k: int| 0 <= k < tail_spans.len() ==> tail_spans[k] == spans[k + 1]);
    }
    let g2 = next_gid(s, spans, g);
    lemma_assemble_order(s, tail_spans, g2);
    let hs = with_group(head_props(s, spans), head_gid(s, spans, g));
    let rt = assemble(s, tail_spans, g2);
    let r = assemble(s, spans, g);
    let h = hs.len() as int;
    let a0 = spans[0].0;
    let b0 = spans[0].1;
    let c0 = crate::text::blen(s.take(a0));
    assert(r == hs + rt);
    crate::text::lemma_blen_mono(s, a0, b0);
    if tail_spans.len() > 0 {
        crate::text::lemma_blen_mono(s, b0, tail_spans[0].0);
    }
    assert forall|k: int| h <= k < r.len() implies #[trigger] r[k] == rt[k - h] && r[
        k].char_start > c0 by {
        assert(r[k] == rt[k - h]);
        assert(rt[k - h].char_start >= crate::text::blen(s.take(tail_spans[0].0)));
    }
}

/// Every assigned group id exceeds the running counter.
pub proof fn lemma_assemble_counter(s: Seq<char>, spans: Seq<(int, int)>, g: int)
    requires
        spans_wf(s, spans, 0),
    ensures
        forall|k: int| 0 <= k < assemble(s, spans, g).len() ==> ((#[trigger] assemble(
            s, spans, g)[k]).group_id is Some ==> assemble(s, spans, g)[k].group_id->Some_0 > g),
    decreases spans.len(),
{
    let r = assemble(s, spans, g);
    if spans.len() > 0 {
        lemma_assemble_decomp(s, spans, g);
        let g2 = next_gid(s, spans, g);
        lemma_assemble_counter(s, spans.drop_first(), g2);
        let rt = assemble(s, spans.drop_first(), g2);
        let h = head_props(s, spans).len() as int;
        assert forall|k: int| 0 <= k < r.len() implies ((#[trigger] r[k]).group_id is Some
            ==> r[k].group_id->Some_0 > g) by {
            if k >= h {
                assert(r[k] == rt[k - h]);
            }
        }
    }
}

/// Properties sharing one byte start share one group id.
pub proof fn lemma_assemble_same_span(s: Seq<char>, spans: Seq<(int, int)>, g: int)
    requires
        spans_wf(s, spans, 0),
    ensures
        ({
            let r = assemble(s, spans, g);
            forall|k1: int, k2: int| 0 <= k1 < r.len() && 0 <= k2 < r.len() && (#[trigger] r[
                k1]).char_start == (#[trigger] r[k2]).char_start ==> r[k1].group_id == r[
                k2].group_id
        }),
    decreases spans.len(),
{
    let r = assemble(s, spans, g);
    if spans.len() > 0 {
        lemma_assemble_decomp(s, spans, g);
        let g2 = next_gid(s, spans, g);
        lemma_assemble_same_span(s, spans.drop_first(), g2);
        let rt = assemble(s, spans.drop_first(), g2);
        let h = head_props(s, spans).len() as int;
        assert forall|k1: int, k2: int| 0 <= k1 < r.len() && 0 <= k2 < r.len() && (#[trigger] r[
            k1]).char_start == (#[trigger] r[k2]).char_start implies r[k1].group_id == r[
            k2].group_id by {
            if k1 >= h && k2 >= h {
                assert(rt[k1 - h].char_start == rt[k2 - h].char_start);
            }
        }
    }
}

/// A property carries a group id exactly when another property shares
/// its span.
#[verifier::spinoff_prover]
pub proof fn lemma_assemble_shared(s: Seq<char>, spans: Seq<(int, int)>, g: int)
    requires
        spans_wf(s, spans, 0),
    ensures
        ({
            let r = assemble(s, spans, g);
            forall|k: int| 0 <= k < r.len() ==> ((#[trigger] r[k]).group_id is Some
                <==> exists|l: int| 0 <= l < r.len() && l != k && (#[trigger] r[l]).char_start
                == r[k].char_start)
        }),
    decreases spans.len(),
{
    let r = assemble(s, spans, g);
    if spans.len() > 0 {
        lemma_assemble_decomp(s, spans, g);
        let g2 = next_gid(s, spans, g);
        lemma_assemble_shared(s, spans.drop_first(), g2);
        let rt = assemble(s, spans.drop_first(), g2);
        let h = head_props(s, spans).len() as int;
        let multi = head_props(s, spans).len() > 1;
        assert forall|k: int| 0 <= k < r.len() implies ((#[trigger] r[k]).group_id is Some
            <==> exists|l: int| 0 <= l < r.len() && l != k && (#[trigger] r[l]).char_start
            == r[k].char_start) by {
            if k < h {
                if multi {
                    let l = if k == 0 {
                        1int
                    } else {
                        0int
                    };
                    assert(0 <= l < r.len() && l != k && r[l].char_start == r[k].char_start);
                    assert(r[k].group_id is Some);
                } else {
                    assert(r[k].group_id is None);
                    assert forall|l: int| 0 <= l < r.len() && l != k implies (#[trigger] r[
                        l]).char_start != r[k].char_start by {
                        if l >= h {
                            assert(r[l] == rt[l - h]);
                        }
                    }
                }
            } else {
                if r[k].group_id is Some {
                    assert(rt[k - h].group_id is Some);
                    let l = choose|l: int| 0 <= l < rt.len() && l != k - h && (#[trigger] rt[
                        l]).char_start == rt[k - h].char_start;
                    assert(0 <= l + h < r.len() && l + h != k && r[l + h].char_start == r[
                        k].char_start);
                } else {
                    assert forall|l: int| 0 <= l < r.len() && l != k implies (#[trigger] r[
                        l]).char_start != r[k].char_start by {
                        if l >= h {
                            assert(r[l] == rt[l - h]);
                            if rt[l - h].char_start == rt[k - h].char_start {
                                assert(exists|m: int| 0 <= m < rt.len() && m != k - h && (
                                    #[trigger] rt[m]).char_start == rt[k - h].char_start);
                            }
                        }
                    }
                }
            }
        }
    }
}

/// Group ids strictly increase from one grouped span to a later one.
pub proof fn lemma_assemble_incr(s: Seq<char>, spans: Seq<(int, int)>, g: int)
    requires
        spans_wf(s, spans, 0),
    ensures
        ({
            let r = assemble(s, spans, g);
            forall|k1: int, k2: int| 0 <= k1 < k2 < r.len() && (#[trigger] r[k1]).group_id
                is Some && (#[trigger] r[k2]).group_id is Some && r[k1].char_start != r[
                k2].char_start ==> r[k1].group_id->Some_0 < r[k2].group_id->Some_0
        }),
    decreases spans.len(),
{
    let r = assemble(s, spans, g);
    if spans.len() > 0 {
        lemma_assemble_decomp(s, spans, g);
        let g2 = next_gid(s, spans, g);
        lemma_assemble_incr(s, spans.drop_first(), g2);
        lemma_assemble_counter(s, spans.drop_first(), g2);
        let rt = assemble(s, spans.drop_first(), g2);
        let h = head_props(s, spans).len() as int;
        assert forall|k1: int, k2: int| 0 <= k1 < k2 < r.len() && (#[trigger] r[k1]).group_id
            is Some && (#[trigger] r[k2]).group_id is Some && r[k1].char_start != r[
            k2].char_start implies r[k1].group_id->Some_0 < r[k2].group_id->Some_0 by {
            if k1 < h && k2 >= h {
                assert(r[k2] == rt[k2 - h]);
                assert(rt[k2 - h].group_id->Some_0 > g2);
            } else if k1 >= h {
                assert(r[k1] == rt[k1 - h]);
                assert(r[k2] == rt[k2 - h]);
            }
        }
    }
}


// ===========================================================================
// Mutation helpers: specification
// ===========================================================================

pub proof fn lemma_count_nl_le(s: Seq<char>, upto: int)
    requires
        upto >= 0,
    ensures
        count_nl(s, upto) <= upto,
    decreases upto,
{
    if upto > 0 {
        lemma_count_nl_le(s, upto - 1);
    }
}

/// Number of lines of the document, as `str::lines` counts them: a
/// final newline closes the last line instead of opening a new one.
pub open spec fn line_count(s: Seq<char>) -> int {
    if s.len() == 0 {
        0
    } else if s[s.len() - 1] == '\n' {
        count_nl(s, s.len() as int)
    } else {
        count_nl(s, s.len() as int) + 1
    }
}

/// Character position where the 1-indexed line `line` (counted from
/// `from`) ends: its `\n`, or the end of the document.
pub open spec fn line_end_from(s: Seq<char>, from: int, line: int) -> int
    decreases line,
{
    let e = find_char_from(s, from, '\n');
    if line <= 1 {
        e
    } else {
        line_end_from(
            s,
            if from <= e < s.len() {
                e + 1
            } else {
                from
            },
            line - 1,
        )
    }
}

proof fn lemma_line_end_runout(s: Seq<char>, from: int, line: int)
    requires
        find_char_from(s, from, '\n') >= s.len(),
    ensures
        line_end_from(s, from, line) == find_char_from(s, from, '\n'),
    decreases line,
{
    if line > 1 {
        lemma_line_end_runout(s, from, line - 1);
    }
}

/// Character position at which a property appended to line `line` is
/// inserted: the end of that line, before the `\r` of a `\r\n` ending.
pub open spec fn insert_pos(s: Seq<char>, line: int) -> int {
    let e = line_end_from(s, 0, line);
    if e < s.len() && e > 0 && s[e - 1] == '\r' {
        e - 1
    } else {
        e
    }
}

// ===========================================================================
// Value classification: executable helpers
// ===========================================================================

fn eq_true_exec(v: &Vec<char>) -> (r: bool)
    ensures
        r == is_true_lit(v@),
{
    v.len() == 4 && lower_ascii(v[0]) == 116 && lower_ascii(v[1]) == 114 && lower_ascii(v[2])
        == 117 && lower_ascii(v[3]) == 101
}

fn eq_false_exec(v: &Vec<char>) -> (r: bool)
    ensures
        r == is_false_lit(v@),
{
    v.len() == 5 && lower_ascii(v[0]) == 102 && lower_ascii(v[1]) == 97 && lower_ascii(v[2])
        == 108 && lower_ascii(v[3]) == 115 && lower_ascii(v[4]) == 101
}

fn float_word_exec(b: &Vec<char>) -> (r: bool)
    ensures
        r == float_word(b@),
{
    if b.len() == 3 {
        let w0 = lower_ascii(b[0]);
        let w1 = lower_ascii(b[1]);
        let w2 = lower_ascii(b[2]);
        (w0 == 105 && w1 == 110 && w2 == 102) || (w0 == 110 && w1 == 97 && w2 == 110)
    } else if b.len() == 8 {
        lower_ascii(b[0]) == 105 && lower_ascii(b[1]) == 110 && lower_ascii(b[2]) == 102
            && lower_ascii(b[3]) == 105 && lower_ascii(b[4]) == 110 && lower_ascii(b[5]) == 105
            && lower_ascii(b[6]) == 116 && lower_ascii(b[7]) == 121
    } else {
        false
    }
}

fn find_exp(b: &Vec<char>, from: usize) -> (r: usize)
    requires
        from <= b@.len(),
    ensures
        r as int == exp_start(b@, from as int),
        from <= r <= b@.len(),
{
    let mut i = from;
    loop
        invariant
            from <= i <= b@.len(),
            exp_start(b@, from as int) == exp_start(b@, i as int),
        decreases b@.len() - i,
    {
        if i < b.len() {
            if b[i] == 'e' || b[i] == 'E' {
                return i;
            }
            i = i + 1;
        } else {
            return i;
        }
    }
}

fn mantissa_exec(b: &Vec<char>, to: usize) -> (r: bool)
    requires
        to <= b@.len(),
    ensures
        r == mantissa_ok(b@.take(to as int)),
{
    let ghost m = b@.take(to as int);
    let mut i: usize = 0;
    let mut seen_digit = false;
    let mut seen_dot = false;
    let mut two_dots = false;
    let mut all_ok = true;
    while i < to
        invariant
            i <= to <= b@.len(),
            m == b@.take(to as int),
            seen_digit == exists|k: int| 0 <= k < i && ascii_digit(m[k]),
            seen_dot == exists|k: int| 0 <= k < i && m[k] == '.',
            two_dots == exists|k: int, l: int| 0 <= k < l < i && m[k] == '.' && m[l] == '.',
            all_ok == forall|k: int| 0 <= k < i ==> ascii_digit(m[k]) || m[k] == '.',
        decreases to - i,
    {
        let c = b[i];
        proof {
            assert(m[i as int] == b@[i as int]);
        }
        if is_ascii_digit_char(c) {
            seen_digit = true;
        } else if c == '.' {
            if seen_dot {
                two_dots = true;
            }
            seen_dot = true;
        } else {
            all_ok = false;
        }
        i = i + 1;
    }
    to > 0 && all_ok && !two_dots && seen_digit
}

fn exp_tail_exec(b: &Vec<char>, k: usize) -> (r: bool)
    requires
        k < b@.len(),
        b@[k as int] == 'e' || b@[k as int] == 'E',
    ensures
        r == exp_ok(b@.skip(k as int)),
{
    let ghost x = b@.skip(k as int);
    if b.len() - k < 2 {
        return false;
    }
    let ds: usize = if b[k + 1] == '+' || b[k + 1] == '-' {
        k + 2
    } else {
        k + 1
    };
    if ds >= b.len() {
        proof {
            assert(x.len() >= 2);
            if x[1] == '+' || x[1] == '-' {
                assert(x.skip(2) =~= b@.skip(k + 2 as int));
            } else {
                assert(x.skip(1) =~= b@.skip(k + 1 as int));
            }
        }
        return false;
    }
    let mut i = ds;
    let mut ok = true;
    while i < b.len()
        invariant
            ds <= i <= b@.len(),
            ds < b@.len(),
            ok == forall|l: int| ds <= l < i ==> ascii_digit(b@[l]),
        decreases b@.len() - i,
    {
        if !is_ascii_digit_char(b[i]) {
            ok = false;
        }
        i = i + 1;
    }
    proof {
        assert(x.len() >= 2);
        if x[1] == '+' || x[1] == '-' {
            assert(x.skip(2) =~= b@.skip(k + 2 as int));
        } else {
            assert(x.skip(1) =~= b@.skip(k + 1 as int));
        }
        let d = if x[1] == '+' || x[1] == '-' {
            x.skip(2)
        } else {
            x.skip(1)
        };
        assert(d =~= b@.skip(ds as int));
        assert(d.len() > 0);
        if ok {
            assert(forall|l: int| 0 <= l < d.len() ==> d[l] == b@[ds + l]);
            assert(all_digits(d));
        } else {
            let l = choose|l: int| ds <= l < b@.len() && !ascii_digit(b@[l]);
            assert(!ascii_digit(d[l - ds]));
            assert(!all_digits(d));
        }
    }
    ok
}

/// Whether the characters match the grammar `f64::from_str` accepts.
fn is_float_chars(v: &Vec<char>) -> (r: bool)
    ensures
        r == float_lit(v@),
{
    if v.len() == 0 {
        proof {
            assert(exp_start(v@, 0) == 0);
            assert(v@.take(0) =~= Seq::<char>::empty());
        }
        return false;
    }
    let start: usize = if v[0] == '+' || v[0] == '-' {
        1
    } else {
        0
    };
    let b = copy_range(v, start, v.len());
    proof {
        if start == 1 {
            assert(b@ =~= v@.skip(1));
        } else {
            assert(b@ =~= v@);
        }
    }
    if float_word_exec(&b) {
        return true;
    }
    let k = find_exp(&b, 0);
    proof {
        lemma_exp_start(b@, 0);
    }
    let m_ok = mantissa_exec(&b, k);
    if !m_ok {
        return false;
    }
    if k == b.len() {
        true
    } else {
        exp_tail_exec(&b, k)
    }
}

fn is_date_range(t: &Vec<char>, from: usize, to: usize) -> (r: bool)
    requires
        from <= to <= t@.len(),
    ensures
        r == is_date_lit(t@.subrange(from as int, to as int)),
{
    let ghost s = t@.subrange(from as int, to as int);
    if to - from != 10 {
        return false;
    }
    if !(t[from + 4] == '-' && t[from + 7] == '-') {
        return false;
    }
    let mut i: usize = 0;
    let mut ok = true;
    while i < 10
        invariant
            i <= 10,
            from + 10 == to <= t@.len(),
            s == t@.subrange(from as int, to as int),
            s.len() == 10,
            ok == forall|k: int| 0 <= k < i && k != 4 && k != 7 ==> ascii_digit(s[k]),
        decreases 10 - i,
    {
        proof {
            assert(s[i as int] == t@[from + i as int]);
        }
        if i != 4 && i != 7 {
            if !is_ascii_digit_char(t[from + i]) {
                ok = false;
            }
        }
        i = i + 1;
    }
    ok
}

fn all_start_exec(items: &Vec<Vec<char>>, c: char) -> (r: bool)
    ensures
        r == all_start_with(items.deep_view(), c),
{
    let mut i: usize = 0;
    while i < items.len()
        invariant
            i <= items@.len(),
            forall|k: int| 0 <= k < i ==> items@[k]@.len() > 0 && (#[trigger] items@[k]@)[0] == c,
        decreases items@.len() - i,
    {
        let it = &items[i];
        if it.len() == 0 {
            proof {
                assert(items.deep_view()[i as int] =~= items@[i as int]@);
            }
            return false;
        }
        if it[0] != c {
            proof {
                assert(items.deep_view()[i as int] =~= items@[i as int]@);
            }
            return false;
        }
        i = i + 1;
    }
    proof {
        assert forall|k: int| 0 <= k < items.deep_view().len() implies (
            #[trigger] items.deep_view()[k]).len() > 0 && items.deep_view()[k][0] == c by {
            assert(items.deep_view()[k] =~= items@[k]@);
        }
    }
    true
}

fn skip_marks(t: &Vec<char>, c: char) -> (r: usize)
    ensures
        r as int == marks_end(t@, 0, c),
        r <= t@.len(),
{
    let mut a: usize = 0;
    loop
        invariant
            a <= t@.len(),
            marks_end(t@, 0, c) == marks_end(t@, a as int, c),
        decreases t@.len() - a,
    {
        if a < t.len() {
            if t[a] == c {
                a = a + 1;
            } else {
                return a;
            }
        } else {
            return a;
        }
    }
}

fn strip_restore_all(items: &Vec<Vec<char>>, c: char) -> (r: Vec<String>)
    ensures
        r.deep_view() == stripped_restored(items.deep_view(), c),
{
    let mut r: Vec<String> = Vec::new();
    let mut i: usize = 0;
    while i < items.len()
        invariant
            i <= items@.len(),
            r@.len() == i,
            forall|k: int| 0 <= k < i ==> r.deep_view()[k] == stripped_restored(
                items.deep_view(), c)[k],
        decreases items@.len() - i,
    {
        let it = &items[i];
        let a = skip_marks(it, c);
        proof {
            assert(it@.skip(a as int) =~= it@.subrange(a as int, it@.len() as int));
            assert(items.deep_view()[i as int] =~= items@[i as int]@);
        }
        let piece = restore_range(it, a, it.len());
        let ghost rbefore = r.deep_view();
        r.push(piece);
        proof {
            assert(r.deep_view() =~~= rbefore.push(piece@));
            assert(r.deep_view()[i as int] =~= stripped_restored(items.deep_view(), c)[
                i as int]);
        }
        i = i + 1;
    }
    proof {
        assert(r.deep_view() =~= stripped_restored(items.deep_view(), c));
    }
    r
}

fn restore_all_exec(items: &Vec<Vec<char>>) -> (r: Vec<String>)
    ensures
        r.deep_view() == restored_all(items.deep_view()),
{
    let mut r: Vec<String> = Vec::new();
    let mut i: usize = 0;
    while i < items.len()
        invariant
            i <= items@.len(),
            r@.len() == i,
            forall|k: int| 0 <= k < i ==> r.deep_view()[k] == restored_all(items.deep_view())[k],
        decreases items@.len() - i,
    {
        let it = &items[i];
        proof {
            assert(it@.subrange(0, it@.len() as int) =~= it@);
            assert(items.deep_view()[i as int] =~= items@[i as int]@);
        }
        let piece = restore_range(it, 0, it.len());
        let ghost rbefore = r.deep_view();
        r.push(piece);
        proof {
            assert(r.deep_view() =~~= rbefore.push(piece@));
            assert(r.deep_view()[i as int] =~= restored_all(items.deep_view())[i as int]);
        }
        i = i + 1;
    }
    proof {
        assert(r.deep_view() =~= restored_all(items.deep_view()));
    }
    r
}

fn split_items_exec(v: &Vec<char>) -> (items: Vec<Vec<char>>)
    ensures
        items.deep_view() == split_items(v@, 0),
{
    let mut items: Vec<Vec<char>> = Vec::new();
    let mut pos: usize = 0;
    loop
        invariant
            pos <= v@.len(),
            split_items(v@, 0) == items.deep_view() + split_items(v@, pos as int),
        decreases v@.len() - pos,
    {
        let e = find_char(v, pos, ',');
        let item = trim_copy(v, pos, e);
        let ghost before = items.deep_view();
        let nonempty = item.len() > 0;
        if nonempty {
            items.push(item);
        }
        proof {
            let rest = if (e as int) < v@.len() {
                split_items(v@, e + 1 as int)
            } else {
                Seq::<Seq<char>>::empty()
            };
            if nonempty {
                assert(items.deep_view() =~~= before.push(item@));
                assert(split_items(v@, pos as int) == seq![item@] + rest);
                assert(before.push(item@) + rest =~~= before + (seq![item@] + rest));
            } else {
                assert(split_items(v@, pos as int) == rest);
            }
        }
        if e < v.len() {
            pos = e + 1;
        } else {
            proof {
                assert(items.deep_view() + Seq::<Seq<char>>::empty() =~= items.deep_view());
            }
            return items;
        }
    }
}

fn split_tokens_exec(v: &Vec<char>) -> (toks: Vec<Vec<char>>)
    ensures
        toks.deep_view() == split_tokens(v@, 0),
{
    let mut toks: Vec<Vec<char>> = Vec::new();
    let mut pos: usize = 0;
    loop
        invariant
            pos <= v@.len(),
            split_tokens(v@, 0) == toks.deep_view() + split_tokens(v@, pos as int),
        decreases v@.len() - pos,
    {
        if pos >= v.len() {
            proof {
                assert(toks.deep_view() + split_tokens(v@, pos as int) =~= toks.deep_view());
            }
            return toks;
        }
        if char_is_space(v[pos]) {
            pos = pos + 1;
        } else {
            let e = token_end(v, pos);
            let tok = copy_range(v, pos, e);
            let ghost before = toks.deep_view();
            toks.push(tok);
            proof {
                assert(toks.deep_view() =~~= before.push(tok@));
                assert(e as int == nonspace_end(v@, pos as int));
                assert(e > pos);
                assert(split_tokens(v@, pos as int) == seq![tok@] + split_tokens(v@, e as int));
                assert(before.push(tok@) + split_tokens(v@, e as int) =~~= before + (seq![tok@]
                    + split_tokens(v@, e as int)));
            }
            pos = e;
        }
    }
}

fn token_end(v: &Vec<char>, pos: usize) -> (e: usize)
    requires
        pos < v@.len(),
        !unicode_space(v@[pos as int]),
    ensures
        e as int == nonspace_end(v@, pos as int),
        pos < e <= v@.len(),
{
    let mut e = pos;
    loop
        invariant
            pos < v@.len(),
            pos <= e <= v@.len(),
            nonspace_end(v@, pos as int) == nonspace_end(v@, e as int),
            !unicode_space(v@[pos as int]),
        decreases v@.len() - e,
    {
        if e < v.len() {
            if char_is_space(v[e]) {
                proof {
                    assert(nonspace_end(v@, e as int) == e as int);
                    assert(e > pos) by {
                        if e == pos {
                            assert(!unicode_space(v@[pos as int]));
                        }
                    }
                }
                return e;
            }
            e = e + 1;
        } else {
            proof {
                assert(nonspace_end(v@, e as int) == e as int);
            }
            return e;
        }
    }
}

// ===========================================================================
// Pair tokenization: executable helpers
// ===========================================================================

/// Executable form of a [`PairMatch`].
#[derive(Clone, Copy)]
struct PairM {
    start: usize,
    key_end: usize,
    hidden: bool,
    end: usize,
}

spec fn pm_of(m: PairM) -> PairMatch {
    PairMatch { start: m.start as int, key_end: m.key_end as int, hidden: m.hidden, end: m.end as int }
}

spec fn pms_of(s: Seq<PairM>) -> Seq<PairMatch> {
    Seq::new(s.len(), |i: int| pm_of(s[i]))
}

fn skip_key_tail(t: &Vec<char>, from: usize) -> (r: usize)
    requires
        from <= t@.len(),
    ensures
        r as int == key_tail_end(t@, from as int),
        from <= r <= t@.len(),
{
    let mut a = from;
    loop
        invariant
            from <= a <= t@.len(),
            key_tail_end(t@, from as int) == key_tail_end(t@, a as int),
        decreases t@.len() - a,
    {
        if a < t.len() {
            if crate::text::is_key_tail(t[a]) {
                a = a + 1;
            } else {
                return a;
            }
        } else {
            return a;
        }
    }
}

fn skip_gap(t: &Vec<char>, from: usize) -> (r: usize)
    requires
        from <= t@.len(),
    ensures
        r as int == space_run_end(t@, from as int),
        from <= r <= t@.len(),
{
    let mut a = from;
    loop
        invariant
            from <= a <= t@.len(),
            space_run_end(t@, from as int) == space_run_end(t@, a as int),
        decreases t@.len() - a,
    {
        if a < t.len() {
            if char_is_space(t[a]) && t[a] != ':' {
                a = a + 1;
            } else {
                return a;
            }
        } else {
            return a;
        }
    }
}

fn pair_match_at_exec(t: &Vec<char>, i: usize) -> (r: Option<PairM>)
    requires
        i < t@.len(),
    ensures
        match r {
            Some(m) => {
                &&& pair_match_at(t@, i as int) == Some(pm_of(m))
                &&& m.start == i
                &&& i < m.key_end
                &&& m.key_end <= m.end
                &&& i + 3 <= m.end <= t@.len()
            },
            None => pair_match_at(t@, i as int) is None,
        },
{
    let n = t.len();
    if !crate::text::is_key_head(t[i]) {
        return None;
    }
    let ke = skip_key_tail(t, i + 1);
    let w = skip_gap(t, ke);
    if n - w >= 2 && t[w] == ':' && t[w + 1] == ':' {
        let sep: usize = if n - w > 2 && t[w + 2] == ':' {
            3
        } else {
            2
        };
        let end = skip_gap(t, w + sep);
        let m = PairM { start: i, key_end: ke, hidden: sep == 3, end };
        proof {
            lemma_pair_match_bounds(t@, i as int);
        }
        Some(m)
    } else {
        None
    }
}

fn find_pairs(t: &Vec<char>) -> (ms: Vec<PairM>)
    ensures
        pms_of(ms@) == pair_matches_from(t@, 0),
        forall|k: int| 0 <= k < ms@.len() ==> {
            let m = #[trigger] ms@[k];
            &&& m.start < m.key_end
            &&& m.key_end <= m.end
            &&& m.start + 3 <= m.end <= t@.len()
        },
        forall|k: int| 0 <= k < ms@.len() - 1 ==> (#[trigger] ms@[k]).end <= ms@[k + 1].start,
{
    let mut ms: Vec<PairM> = Vec::new();
    let mut i: usize = 0;
    loop
        invariant
            i <= t@.len(),
            pair_matches_from(t@, 0) == pms_of(ms@) + pair_matches_from(t@, i as int),
            forall|k: int| 0 <= k < ms@.len() ==> {
                let m = #[trigger] ms@[k];
                &&& m.start < m.key_end
                &&& m.key_end <= m.end
                &&& m.start + 3 <= m.end <= t@.len()
            },
            forall|k: int| 0 <= k < ms@.len() - 1 ==> (#[trigger] ms@[k]).end <= ms@[k + 1].start,
            ms@.len() > 0 ==> ms@[ms@.len() - 1].end <= i,
        decreases t@.len() - i,
    {
        if i >= t.len() {
            proof {
                assert(pms_of(ms@) + pair_matches_from(t@, i as int) =~= pms_of(ms@));
            }
            return ms;
        }
        let found = pair_match_at_exec(t, i);
        match found {
            Some(m) => {
                let ghost before = ms@;
                ms.push(m);
                proof {
                    assert(pms_of(ms@) =~= pms_of(before).push(pm_of(m)));
                    assert(pair_matches_from(t@, i as int) == seq![pm_of(m)]
                        + pair_matches_from(t@, m.end as int));
                    assert(pms_of(before).push(pm_of(m)) + pair_matches_from(t@, m.end as int)
                        =~= pms_of(before) + (seq![pm_of(m)] + pair_matches_from(
                        t@, m.end as int)));
                }
                i = m.end;
            },
            None => {
                i = i + 1;
            },
        }
    }
}

fn last_comma_exec(t: &Vec<char>, from: usize, to: usize) -> (r: Option<usize>)
    requires
        from <= to <= t@.len(),
    ensures
        match r {
            Some(p) => last_comma(t@, from as int, to as int) == p as int && from <= p < to,
            None => last_comma(t@, from as int, to as int) == from - 1,
        },
{
    let mut b = to;
    loop
        invariant
            from <= b <= to <= t@.len(),
            last_comma(t@, from as int, to as int) == last_comma(t@, from as int, b as int),
        decreases b,
    {
        if b > from {
            if t[b - 1] == ',' {
                return Some(b - 1);
            }
            b = b - 1;
        } else {
            return None;
        }
    }
}

// ===========================================================================
// The parser
// ===========================================================================

/// The inline-property parser: bracket scanning, pair tokenization, value
/// classification, grouping and text mutation.
pub struct InlinePropertyParser;

impl InlinePropertyParser {
    /// Whether the characters read exactly `YYYY-MM-DD` with all-digit
    /// 4/2/2 segments (no calendar validation).
    fn is_date(v: &Vec<char>) -> (r: bool)
        ensures
            r == is_date_lit(v@),
    {
        proof {
            assert(v@.subrange(0, v@.len() as int) =~= v@);
        }
        is_date_range(v, 0, v.len())
    }

    /// Whether the characters contain a `T`, are at least 19 long, and
    /// open with a date.
    fn is_datetime(v: &Vec<char>) -> (r: bool)
        ensures
            r == is_datetime_lit(v@),
    {
        if !contains_char(v, 'T') {
            return false;
        }
        if v.len() < 19 {
            return false;
        }
        proof {
            assert(v@.subrange(0, 10) =~= v@.take(10));
        }
        is_date_range(v, 0, 10)
    }

    /// Classify one trimmed raw value (sentinel commas still present in
    /// the input; restored in every produced string) and return the typed
    /// value together with the linked note name.
    fn parse_value(v: &Vec<char>) -> (res: (PropertyValue, Option<String>))
        ensures
            (res.0@, res.1.deep_view()) == infer_value_spec(v@),
    {
        if v.len() > 0 && v[0] == '@' {
            proof {
                assert(v@.subrange(1, v@.len() as int) =~= v@.skip(1));
            }
            let name = restore_range(v, 1, v.len());
            let name_again = name.clone();
            return (PropertyValue::Link(name), Some(name_again));
        }
        if eq_true_exec(v) {
            return (PropertyValue::Checkbox(true), None);
        }
        if eq_false_exec(v) {
            return (PropertyValue::Checkbox(false), None);
        }
        let has_comma = contains_char(v, ',');
        proof {
            assert(v@.subrange(0, v@.len() as int) =~= v@);
        }
        if !has_comma {
            let restored = restore_copy(v, 0, v.len());
            if is_float_chars(&restored) {
                return (PropertyValue::Number(chars_to_string(&restored)), None);
            }
        }
        if Self::is_date(v) {
            return (PropertyValue::Date(chars_to_string(v)), None);
        }
        if Self::is_datetime(v) {
            return (PropertyValue::DateTime(restore_range(v, 0, v.len())), None);
        }
        if has_comma {
            let items = split_items_exec(v);
            if items.len() > 0 {
                if all_start_exec(&items, '#') {
                    return (PropertyValue::Tags(strip_restore_all(&items, '#')), None);
                }
                if all_start_exec(&items, '@') {
                    return (PropertyValue::Links(strip_restore_all(&items, '@')), None);
                }
                return (PropertyValue::List(restore_all_exec(&items)), None);
            }
        }
        if v.len() > 0 && v[0] == '#' {
            let toks = split_tokens_exec(v);
            if all_start_exec(&toks, '#') {
                return (PropertyValue::Tags(strip_restore_all(&toks, '#')), None);
            }
        }
        (PropertyValue::Text(restore_range(v, 0, v.len())), None)
    }

    /// Tokenize one bracket interior into properties (group ids still
    /// unassigned).  An interior without any pair head yields nothing.
    fn parse_bracket_content(
        inner: &Vec<char>,
        line_number: usize,
        char_start: usize,
        char_end: usize,
    ) -> (props: Vec<InlineProperty>)
        ensures
            props.deep_view() == span_props(
                inner@, line_number as int, char_start as int, char_end as int),
    {
        let ghost goal = span_props(inner@, line_number as int, char_start as int,
            char_end as int);
        let t = crate::text::subst_escapes(inner);
        let ms = find_pairs(&t);
        let mut props: Vec<InlineProperty> = Vec::new();
        let mut idx: usize = 0;
        while idx < ms.len()
            invariant
                idx <= ms@.len(),
                t@ == crate::text::subst_escaped(inner@),
                pms_of(ms@) == pair_matches_from(t@, 0),
                goal == span_props(inner@, line_number as int, char_start as int,
                    char_end as int),
                forall|k: int| 0 <= k < ms@.len() ==> {
                    let m = #[trigger] ms@[k];
                    &&& m.start < m.key_end
                    &&& m.key_end <= m.end
                    &&& m.start + 3 <= m.end <= t@.len()
                },
                forall|k: int| 0 <= k < ms@.len() - 1 ==> (#[trigger] ms@[k]).end <= ms@[k
                    + 1].start,
                props@.len() == idx,
                forall|k: int| 0 <= k < idx ==> props.deep_view()[k] == goal[k],
            decreases ms@.len() - idx,
    {
            let m = ms[idx];
            let ve: usize = if idx + 1 < ms.len() {
                let ns = ms[idx + 1].start;
                match last_comma_exec(&t, m.end, ns) {
                    Some(p) => p,
                    None => ns,
                }
            } else {
                t.len()
            };
            proof {
                assert(ve as int == value_end_at(t@, pms_of(ms@), idx as int));
                assert(m.end <= ve <= t@.len());
            }
            let vraw = trim_copy(&t, m.end, ve);
            let iv = Self::parse_value(&vraw);
            let keyv = copy_range(&t, m.start, m.key_end);
            let key = chars_to_string(&keyv);
            proof {
                assert(vraw@.subrange(0, vraw@.len() as int) =~= vraw@);
            }
            let raw_value = restore_range(&vraw, 0, vraw.len());
            let ghost before = props.deep_view();
            props.push(
                InlineProperty {
                    key,
                    value: iv.0,
                    raw_value,
                    line_number,
                    char_start,
                    char_end,
                    linked_note: iv.1,
                    group_id: None,
                    hidden: m.hidden,
                },
            );
            proof {
                assert(props@.len() == idx + 1);
                assert(forall|k: int| 0 <= k < idx ==> props.deep_view()[k] == before[k]);
                assert(pms_of(ms@)[idx as int] == pm_of(m));
                assert(props.deep_view()[idx as int] == goal[idx as int]);
            }
            idx = idx + 1;
        }
        proof {
            assert(props.deep_view() =~= goal);
        }
        props
    }

    /// Extract every inline property of the document, in document order:
    /// every bracket span's properties with byte offsets, line numbers
    /// and group ids, as `parse_spec` states them.
    pub fn parse(content: &str) -> (props: Vec<InlineProperty>)
        ensures
            props.deep_view() == parse_spec(content@),
            // every returned span is non-empty and lies inside the document
            forall|k: int| 0 <= k < props.deep_view().len() ==> {
                let p = #[trigger] props.deep_view()[k];
                &&& 0 <= p.char_start < p.char_end <= crate::text::blen(content@)
                &&& 1 <= p.line_number
            },
    {
        let props = Self::scan_document(content);
        proof {
            Self::lemma_parse_positions(content@);
        }
        props
    }

    /// One pass over the document: find every bracket span, tokenize it,
    /// and thread the group counter.
    #[verifier::rlimit(100)]
    #[verifier::spinoff_prover]
    fn scan_document(content: &str) -> (props: Vec<InlineProperty>)
        ensures
            props.deep_view() == parse_spec(content@),
    {
        let v = crate::text::str_to_chars(content);
        let bytes = content.as_bytes();
        let total: usize = bytes.len();
        proof {
            assert(total as int == crate::text::blen(content@));
        }
        let n = v.len();
        let mut props: Vec<InlineProperty> = Vec::new();
        let mut i: usize = 0;
        let mut bpos: usize = 0;
        let mut nl: usize = 0;
        let mut gid: usize = 0;
        proof {
            assert(v@.take(0) =~= Seq::<char>::empty());
            assert(crate::text::blen(Seq::<char>::empty()) == 0);
            assert(props.deep_view() + assemble(v@, scan_spans(v@, 0), 0) =~= assemble(
                v@, scan_spans(v@, 0), 0));
        }
        loop
            invariant
                v@ == content@,
                n == v@.len(),
                i <= n,
                total as int == crate::text::blen(v@),
                bpos as int == crate::text::blen(v@.take(i as int)),
                nl as int == count_nl(v@, i as int),
                nl <= i,
                gid <= i,
                parse_spec(content@) == props.deep_view() + assemble(
                    v@, scan_spans(v@, i as int), gid as int),
            decreases n - i,
        {
            if i >= n {
                proof {
                    assert(scan_spans(v@, i as int) =~= Seq::<(int, int)>::empty());
                    assert(props.deep_view() + assemble(v@, scan_spans(v@, i as int),
                        gid as int) =~= props.deep_view());
                }
                return props;
            }
            let c = v[i];
            if c == '[' {
                let j = crate::text::find_char(&v, i + 1, ']');
                if j >= n {
                    proof {
                        assert(scan_spans(v@, i as int) =~= Seq::<(int, int)>::empty());
                        assert(props.deep_view() + assemble(v@, scan_spans(v@, i as int),
                            gid as int) =~= props.deep_view());
                    }
                    return props;
                }
                if j == i + 1 {
                    proof {
                        assert(scan_spans(v@, i as int) == scan_spans(v@, i + 1 as int));
                        crate::text::lemma_blen_take_succ(v@, i as int);
                        crate::text::lemma_char_bytes_range(v@[i as int]);
                        crate::text::lemma_blen_mono(v@, i + 1 as int, n as int);
                        crate::text::lemma_blen_whole(v@);
                    }
                    bpos = bpos + crate::text::char_utf8_len(c);
                    i = i + 1;
                } else {
                    let inner = copy_range(&v, i + 1, j);
                    let line_number = nl + 1;
                    let mut bend = bpos;
                    let mut k = i;
                    let mut nl2 = nl;
                    while k < j + 1
                        invariant
                            i <= k <= j + 1 <= n,
                            n == v@.len(),
                            v@ == content@,
                            total as int == crate::text::blen(v@),
                            bend as int == crate::text::blen(v@.take(k as int)),
                            nl2 as int == count_nl(v@, k as int),
                            nl2 <= k,
                        decreases j + 1 - k,
                    {
                        proof {
                            crate::text::lemma_blen_take_succ(v@, k as int);
                            crate::text::lemma_char_bytes_range(v@[k as int]);
                            crate::text::lemma_blen_mono(v@, k + 1 as int, n as int);
                            crate::text::lemma_blen_whole(v@);
                        }
                        let cl = crate::text::char_utf8_len(v[k]);
                        bend = bend + cl;
                        if v[k] == '\n' {
                            nl2 = nl2 + 1;
                        }
                        k = k + 1;
                    }
                    let mut ps = Self::parse_bracket_content(&inner, line_number, bpos, bend);
                    let ghost sps = span_props_at(v@, i as int, j + 1 as int);
                    proof {
                        assert(inner@ == v@.subrange(i + 1 as int, j as int));
                        assert(ps.deep_view() == sps);
                        assert(scan_spans(v@, i as int) == seq![(i as int, j + 1 as int)]
                            + scan_spans(v@, j + 1 as int));
                        assert((seq![(i as int, j + 1 as int)] + scan_spans(
                            v@, j + 1 as int)).drop_first() =~= scan_spans(v@, j + 1 as int));
                    }
                    let multi = ps.len() > 1;
                    if multi {
                        gid = gid + 1;
                    }
                    let group: Option<usize> = if multi {
                        Some(gid)
                    } else {
                        None
                    };
                    let ghost gq: Option<int> = match group {
                        Some(g) => Some(g as int),
                        None => None,
                    };
                    let ghost base = props.deep_view();
                    proof {
                        let g0: int = if multi {
                            gid - 1
                        } else {
                            gid as int
                        };
                        assert(assemble(v@, scan_spans(v@, i as int), g0) == with_group(
                            sps, gq) + assemble(v@, scan_spans(v@, j + 1 as int), gid as int));
                    }
                    while ps.len() > 0
                        invariant
                            base + with_group(sps, gq) == props.deep_view() + with_group(
                                ps.deep_view(), gq),
                            gq == (match group {
                                Some(g) => Some(g as int),
                                None => None::<int>,
                            }),
                        decreases ps@.len(),
                    {
                        let ghost pd = ps.deep_view();
                        let mut p = ps.remove(0);
                        p.group_id = group;
                        proof {
                            assert(ps.deep_view() =~= pd.drop_first());
                            assert(with_group(pd, gq) =~= seq![with_group(pd, gq)[0]]
                                + with_group(pd.drop_first(), gq));
                        }
                        let ghost pb = props.deep_view();
                        props.push(p);
                        proof {
                            assert(props.deep_view() =~= pb.push(p@));
                            assert(p@ == with_group(pd, gq)[0]);
                            assert(pb.push(with_group(pd, gq)[0]) + with_group(
                                pd.drop_first(), gq) =~= pb + (seq![with_group(pd, gq)[0]]
                                + with_group(pd.drop_first(), gq)));
                        }
                    }
                    proof {
                        assert(with_group(ps.deep_view(), gq) =~= Seq::<PropModel>::empty());
                        assert(props.deep_view() =~= base + with_group(sps, gq));
                    }
                    bpos = bend;
                    nl = nl2;
                    i = j + 1;
                }
            } else {
                proof {
                    assert(scan_spans(v@, i as int) == scan_spans(v@, i + 1 as int));
                    crate::text::lemma_blen_take_succ(v@, i as int);
                    crate::text::lemma_char_bytes_range(v@[i as int]);
                    crate::text::lemma_blen_mono(v@, i + 1 as int, n as int);
                    crate::text::lemma_blen_whole(v@);
                }
                bpos = bpos + crate::text::char_utf8_len(c);
                if c == '\n' {
                    nl = nl + 1;
                }
                i = i + 1;
            }
        }
    }

    /// The positional laws of every parsed output, stated over the
    /// model that `parse` returns exactly: every span byte range is
    /// non-empty, lies inside the document and falls on byte boundaries,
    /// the line number is at least one, byte starts never decrease in
    /// the output, and every key is a letter followed by letters,
    /// numbers or underscores.
    pub proof fn lemma_parse_positions(s: Seq<char>)
        ensures
            forall|k: int| 0 <= k < parse_spec(s).len() ==> {
                let p = #[trigger] parse_spec(s)[k];
                &&& 0 <= p.char_start < p.char_end <= crate::text::blen(s)
                &&& 1 <= p.line_number
                &&& crate::text::byte_boundary(s, p.char_start)
                &&& crate::text::byte_boundary(s, p.char_end)
                &&& valid_key(p.key)
            },
            forall|k1: int, k2: int| 0 <= k1 <= k2 < parse_spec(s).len() ==> (
                #[trigger] parse_spec(s)[k1]).char_start <= (#[trigger] parse_spec(s)[
                k2]).char_start,
    {
        lemma_scan_spans_wf(s, 0);
        let spans = scan_spans(s, 0);
        lemma_assemble_positions(s, spans, 0);
        lemma_assemble_order(s, spans, 0);
        assert forall|k: int| 0 <= k < parse_spec(s).len() implies valid_key(
            (#[trigger] parse_spec(s)[k]).key) && crate::text::byte_boundary(s, parse_spec(s)[
            k].char_start) && crate::text::byte_boundary(s, parse_spec(s)[k].char_end) by {
            lemma_assemble_origin(s, spans, 0, k);
            let (a, b) = choose|a: int, b: int|
                {
                    let p = parse_spec(s)[k];
                    &&& #[trigger] spans.contains((a, b))
                    &&& p.char_start == crate::text::blen(s.take(a))
                    &&& p.char_end == crate::text::blen(s.take(b))
                    &&& valid_key(p.key)
                };
            let k2 = choose|k2: int| 0 <= k2 < spans.len() && (#[trigger] spans[k2]) == (a, b);
            assert(0 <= a <= s.len() && 0 <= b <= s.len());
        }
    }

    /// The grouping laws of every parsed output, stated over the model
    /// that `parse` returns exactly: properties of one span share one
    /// group id, a group id is assigned exactly when another property
    /// shares the span, and assigned ids start at one and strictly
    /// increase from one grouped span to a later one.
    pub proof fn lemma_parse_groups(s: Seq<char>)
        ensures
            forall|k1: int, k2: int| 0 <= k1 < parse_spec(s).len() && 0 <= k2 < parse_spec(
                s).len() && (#[trigger] parse_spec(s)[k1]).char_start == (
                #[trigger] parse_spec(s)[k2]).char_start ==> parse_spec(s)[k1].group_id
                == parse_spec(s)[k2].group_id,
            forall|k: int| 0 <= k < parse_spec(s).len() ==> ((#[trigger] parse_spec(s)[
                k]).group_id is Some <==> exists|l: int| 0 <= l < parse_spec(s).len() && l != k
                && (#[trigger] parse_spec(s)[l]).char_start == parse_spec(s)[k].char_start),
            forall|k: int| 0 <= k < parse_spec(s).len() ==> ((#[trigger] parse_spec(s)[
                k]).group_id is Some ==> parse_spec(s)[k].group_id->Some_0 >= 1),
            forall|k1: int, k2: int| 0 <= k1 < k2 < parse_spec(s).len() && (
                #[trigger] parse_spec(s)[k1]).group_id is Some && (#[trigger] parse_spec(s)[
                k2]).group_id is Some && parse_spec(s)[k1].char_start != parse_spec(s)[
                k2].char_start ==> parse_spec(s)[k1].group_id->Some_0 < parse_spec(s)[
                k2].group_id->Some_0,
    {
        lemma_scan_spans_wf(s, 0);
        let spans = scan_spans(s, 0);
        lemma_assemble_same_span(s, spans, 0);
        lemma_assemble_shared(s, spans, 0);
        lemma_assemble_counter(s, spans, 0);
        lemma_assemble_incr(s, spans, 0);
    }

    /// Substitute the byte range `[char_start, char_end)` of a
    /// previously parsed property with a freshly built `[key::new_value]`
    /// span.  The visible `::` separator is emitted unconditionally, even
    /// for a property that was written with `:::`.
    pub fn replace_property(content: &str, prop: &InlineProperty, new_value: &str) -> (r:
        String)
        requires
            crate::text::byte_boundary(content@, prop.char_start as int),
            crate::text::byte_boundary(content@, prop.char_end as int),
            prop.char_start <= prop.char_end,
        ensures
            ({
                let ca = crate::text::char_index_at(content@, prop.char_start as int);
                let cb = crate::text::char_index_at(content@, prop.char_end as int);
                &&& 0 <= ca <= cb <= content@.len()
                &&& crate::text::blen(content@.take(ca)) == prop.char_start
                &&& crate::text::blen(content@.take(cb)) == prop.char_end
                &&& r@ == content@.take(ca) + "["@ + prop.key@ + "::"@ + new_value@ + "]"@
                    + content@.skip(cb)
            }),
    {
        let v = crate::text::str_to_chars(content);
        let n = v.len();
        let ghost i0 = crate::text::char_index_at(content@, prop.char_start as int);
        let ghost i1 = crate::text::char_index_at(content@, prop.char_end as int);
        proof {
            let w0 = choose|i: int| 0 <= i <= content@.len() && crate::text::blen(
                content@.take(i)) == prop.char_start as int;
            assert(0 <= i0 <= content@.len() && crate::text::blen(content@.take(i0))
                == prop.char_start as int);
            let w1 = choose|i: int| 0 <= i <= content@.len() && crate::text::blen(
                content@.take(i)) == prop.char_end as int;
            assert(0 <= i1 <= content@.len() && crate::text::blen(content@.take(i1))
                == prop.char_end as int);
            if i1 < i0 {
                crate::text::lemma_blen_mono(content@, i1, i0);
            }
        }
        let mut ca: usize = 0;
        let mut b: usize = 0;
        while b < prop.char_start
            invariant
                v@ == content@,
                n == v@.len(),
                0 <= ca <= i0 <= n,
                b as int == crate::text::blen(v@.take(ca as int)),
                crate::text::blen(v@.take(i0)) == prop.char_start as int,
            decreases i0 - ca,
        {
            proof {
                if ca as int == i0 {
                    assert(b == prop.char_start);
                }
                assert(ca < i0);
                crate::text::lemma_blen_take_succ(v@, ca as int);
                crate::text::lemma_blen_mono(v@, ca + 1 as int, i0);
            }
            b = b + crate::text::char_utf8_len(v[ca]);
            ca = ca + 1;
        }
        proof {
            crate::text::lemma_blen_mono(v@, ca as int, i0);
            crate::text::lemma_byte_index_unique(v@, ca as int, i0);
        }
        let mut cb: usize = ca;
        proof {
            if i1 < cb as int {
                crate::text::lemma_blen_mono(content@, i1, cb as int);
            }
        }
        while b < prop.char_end
            invariant
                v@ == content@,
                n == v@.len(),
                0 <= cb <= i1 <= n,
                b as int == crate::text::blen(v@.take(cb as int)),
                crate::text::blen(v@.take(i1)) == prop.char_end as int,
            decreases i1 - cb,
        {
            proof {
                if cb as int == i1 {
                    assert(b == prop.char_end);
                }
                assert(cb < i1);
                crate::text::lemma_blen_take_succ(v@, cb as int);
                crate::text::lemma_blen_mono(v@, cb + 1 as int, i1);
            }
            b = b + crate::text::char_utf8_len(v[cb]);
            cb = cb + 1;
        }
        proof {
            crate::text::lemma_blen_mono(v@, cb as int, i1);
            crate::text::lemma_byte_index_unique(v@, cb as int, i1);
        }
        let mut out = String::new();
        let mut k: usize = 0;
        while k < ca
            invariant
                v@ == content@,
                n == v@.len(),
                k <= ca <= n,
                out@ == v@.take(k as int),
            decreases ca - k,
        {
            crate::text::push_char(&mut out, v[k]);
            proof {
                assert(v@.take(k + 1 as int) =~= v@.take(k as int).push(v@[k as int]));
            }
            k = k + 1;
        }
        out.append("[");
        out.append(prop.key.as_str());
        out.append("::");
        out.append(new_value);
        out.append("]");
        let ghost mid = v@.take(ca as int) + "["@ + prop.key@ + "::"@ + new_value@ + "]"@;
        let mut k2: usize = cb;
        while k2 < n
            invariant
                v@ == content@,
                n == v@.len(),
                cb <= k2 <= n,
                out@ == mid + v@.subrange(cb as int, k2 as int),
            decreases n - k2,
        {
            crate::text::push_char(&mut out, v[k2]);
            proof {
                assert(v@.subrange(cb as int, k2 + 1 as int) =~= v@.subrange(
                    cb as int, k2 as int).push(v@[k2 as int]));
                assert((mid + v@.subrange(cb as int, k2 as int)).push(v@[k2 as int]) =~= mid
                    + v@.subrange(cb as int, k2 + 1 as int));
            }
            k2 = k2 + 1;
        }
        proof {
            assert(v@.subrange(cb as int, n as int) =~= v@.skip(cb as int));
            assert(out@ =~= content@.take(ca as int) + "["@ + prop.key@ + "::"@ + new_value@
                + "]"@ + content@.skip(cb as int));
        }
        out
    }

    /// Character position at which line `line` of the document ends.
    fn line_target(v: &Vec<char>, line: usize) -> (target: usize)
        requires
            1 <= line,
        ensures
            target as int == line_end_from(v@, 0, line as int),
            target <= v@.len(),
    {
        let n = v.len();
        let mut from: usize = 0;
        let mut rem: usize = line;
        loop
            invariant
                n == v@.len(),
                from <= n,
                1 <= rem,
                line_end_from(v@, 0, line as int) == line_end_from(v@, from as int, rem as int),
            decreases rem,
        {
            let e = crate::text::find_char(v, from, '\n');
            if rem == 1 {
                return e;
            }
            if e >= n {
                proof {
                    lemma_line_end_runout(v@, from as int, rem as int);
                }
                return e;
            }
            from = e + 1;
            rem = rem - 1;
        }
    }

    /// Append a space followed by `[key::value]` at the end of the given
    /// 1-indexed line (before the `\r` of a `\r\n` ending).  A line
    /// number outside the document leaves the text unchanged.
    pub fn insert_property(content: &str, line: usize, key: &str, value: &str) -> (r: String)
        ensures
            1 <= line <= line_count(content@) ==> r@ == content@.take(insert_pos(
                content@, line as int)) + " ["@ + key@ + "::"@ + value@ + "]"@ + content@.skip(
                insert_pos(content@, line as int)),
            !(1 <= line <= line_count(content@)) ==> r@ == content@,
    {
        let v = crate::text::str_to_chars(content);
        let n = v.len();
        let mut cnl: usize = 0;
        let mut q: usize = 0;
        while q < n
            invariant
                v@ == content@,
                n == v@.len(),
                q <= n,
                cnl as int == count_nl(v@, q as int),
                cnl <= q,
            decreases n - q,
        {
            if v[q] == '\n' {
                cnl = cnl + 1;
            }
            q = q + 1;
        }
        let count: usize = if n == 0 {
            0
        } else if v[n - 1] == '\n' {
            cnl
        } else {
            proof {
                lemma_count_nl_le(v@, n - 1 as int);
            }
            cnl + 1
        };
        proof {
            assert(count as int == line_count(v@));
        }
        if line < 1 || line > count {
            return crate::text::chars_to_string(&v);
        }
        let target = Self::line_target(&v, line);
        let p: usize = if target < n && target > 0 && v[target - 1] == '\r' {
            target - 1
        } else {
            target
        };
        proof {
            assert(p as int == insert_pos(v@, line as int));
        }
        let mut out = String::new();
        let mut k: usize = 0;
        while k < p
            invariant
                v@ == content@,
                n == v@.len(),
                k <= p <= n,
                out@ == v@.take(k as int),
            decreases p - k,
        {
            crate::text::push_char(&mut out, v[k]);
            proof {
                assert(v@.take(k + 1 as int) =~= v@.take(k as int).push(v@[k as int]));
            }
            k = k + 1;
        }
        out.append(" [");
        out.append(key);
        out.append("::");
        out.append(value);
        out.append("]");
        let ghost mid = v@.take(p as int) + " ["@ + key@ + "::"@ + value@ + "]"@;
        let mut k2: usize = p;
        while k2 < n
            invariant
                v@ == content@,
                n == v@.len(),
                p <= k2 <= n,
                out@ == mid + v@.subrange(p as int, k2 as int),
            decreases n - k2,
        {
            crate::text::push_char(&mut out, v[k2]);
            proof {
                assert(v@.subrange(p as int, k2 + 1 as int) =~= v@.subrange(p as int,
                    k2 as int).push(v@[k2 as int]));
                assert((mid + v@.subrange(p as int, k2 as int)).push(v@[k2 as int]) =~= mid
                    + v@.subrange(p as int, k2 + 1 as int));
            }
            k2 = k2 + 1;
        }
        proof {
            assert(v@.subrange(p as int, n as int) =~= v@.skip(p as int));
            assert(out@ =~= content@.take(p as int) + " ["@ + key@ + "::"@ + value@ + "]"@
                + content@.skip(p as int));
        }
        out
    }
}

// ===========================================================================
// The round trip of replace and parse
// ===========================================================================

/// A well-formed property key: a Unicode letter followed by letters,
/// numbers or underscores.
pub open spec fn valid_key(k: Seq<char>) -> bool {
    &&& k.len() >= 1
    &&& crate::text::key_head_char(k[0])
    &&& forall|i: int| 1 <= i < k.len() ==> crate::text::key_tail_char(k[i])
}

/// A replacement value that survives re-parsing as it stands: free of
/// the grammar's delimiters and escapes, with no whitespace at either
/// end.
pub open spec fn plain_value(nv: Seq<char>) -> bool {
    &&& forall|i: int| 0 <= i < nv.len() ==> {
        let c = #[trigger] nv[i];
        &&& c != '['
        &&& c != ']'
        &&& c != ':'
        &&& c != ','
        &&& c != '\\'
        &&& c != '\u{0}'
    }
    &&& nv.len() > 0 ==> !unicode_space(nv[0]) && !unicode_space(nv[nv.len() - 1])
}

/// Escape substitution leaves a comma-free text unchanged.
pub proof fn lemma_subst_id(x: Seq<char>)
    requires
        forall|i: int| 0 <= i < x.len() ==> x[i] != ',',
    ensures
        crate::text::subst_escaped(x) == x,
    decreases x.len(),
{
    if x.len() >= 1 {
        lemma_subst_id(x.skip(1));
        assert(seq![x[0]] + x.skip(1) =~= x);
    } else {
        assert(crate::text::subst_escaped(x) =~= x);
    }
}

/// The characters a key-tail run covers, and what stops it.
pub proof fn lemma_key_tail_chars(s: Seq<char>, from: int)
    requires
        0 <= from <= s.len(),
    ensures
        from <= key_tail_end(s, from) <= s.len(),
        forall|q: int| from <= q < key_tail_end(s, from) ==> crate::text::key_tail_char(s[q]),
    decreases s.len() - from,
{
    if from < s.len() && crate::text::key_tail_char(s[from]) {
        lemma_key_tail_chars(s, from + 1);
    }
}

proof fn lemma_key_tail_exact(s: Seq<char>, from: int, x: int)
    requires
        0 <= from <= x <= s.len(),
        forall|q: int| from <= q < x ==> crate::text::key_tail_char(s[q]),
        x < s.len() ==> !crate::text::key_tail_char(s[x]),
    ensures
        key_tail_end(s, from) == x,
    decreases x - from,
{
    if from < x {
        lemma_key_tail_exact(s, from + 1, x);
    }
}

/// Every bracket span found by the scanner opens with `[`, closes with
/// the first `]`, and holds at least one interior character.
pub proof fn lemma_scan_spans_shape(s: Seq<char>, i: int)
    requires
        0 <= i,
    ensures
        forall|k: int| 0 <= k < scan_spans(s, i).len() ==> {
            let sp = #[trigger] scan_spans(s, i)[k];
            &&& 0 <= sp.0 && sp.0 + 3 <= sp.1 <= s.len()
            &&& s[sp.0] == '['
            &&& s[sp.1 - 1] == ']'
            &&& forall|q: int| sp.0 + 1 <= q < sp.1 - 1 ==> s[q] != ']'
        },
    decreases s.len() - i,
{
    let r = scan_spans(s, i);
    if 0 <= i < s.len() {
        if s[i] == '[' {
            let j = find_char_from(s, i + 1, ']');
            crate::text::lemma_find_char_from(s, i + 1, ']');
            if j >= s.len() {
            } else if j > i + 1 {
                lemma_scan_spans_shape(s, j + 1);
                let rest = scan_spans(s, j + 1);
                assert(r == seq![(i, j + 1)] + rest);
                assert forall|k: int| 0 <= k < r.len() implies {
                    let sp = #[trigger] r[k];
                    &&& 0 <= sp.0 && sp.0 + 3 <= sp.1 <= s.len()
                    &&& s[sp.0] == '['
                    &&& s[sp.1 - 1] == ']'
                    &&& forall|q: int| sp.0 + 1 <= q < sp.1 - 1 ==> s[q] != ']'
                } by {
                    if k > 0 {
                        assert(r[k] == rest[k - 1]);
                    } else {
                        assert(r[0] == (i, j + 1));
                        assert(s[j] == ']');
                        assert(forall|q: int| i + 1 <= q < j ==> s[q] != ']');
                    }
                }
            } else {
                lemma_scan_spans_shape(s, i + 1);
                assert(r == scan_spans(s, i + 1));
            }
        } else {
            lemma_scan_spans_shape(s, i + 1);
            assert(r == scan_spans(s, i + 1));
        }
    }
}

/// Every pair head the tokenizer finds starts with a key-head character
/// followed by key-tail characters.
pub proof fn lemma_pair_matches_shape(t: Seq<char>, i: int)
    requires
        0 <= i,
    ensures
        forall|k: int| 0 <= k < pair_matches_from(t, i).len() ==> {
            let m = #[trigger] pair_matches_from(t, i)[k];
            &&& i <= m.start && m.start < m.key_end <= m.end <= t.len()
            &&& crate::text::key_head_char(t[m.start])
            &&& forall|q: int| m.start + 1 <= q < m.key_end ==> crate::text::key_tail_char(t[q])
        },
    decreases t.len() - i,
{
    let r = pair_matches_from(t, i);
    if 0 <= i < t.len() {
        match pair_match_at(t, i) {
            Some(m) => {
                lemma_pair_match_bounds(t, i);
                lemma_key_tail_chars(t, i + 1);
                lemma_pair_matches_shape(t, m.end);
                let rest = pair_matches_from(t, m.end);
                assert(r == seq![m] + rest);
                assert forall|k: int| 0 <= k < r.len() implies {
                    let mm = #[trigger] r[k];
                    &&& i <= mm.start && mm.start < mm.key_end <= mm.end <= t.len()
                    &&& crate::text::key_head_char(t[mm.start])
                    &&& forall|q: int| mm.start + 1 <= q < mm.key_end
                        ==> crate::text::key_tail_char(t[q])
                } by {
                    if k > 0 {
                        assert(r[k] == rest[k - 1]);
                        assert(m.end <= rest[k - 1].start);
                    } else {
                        assert(r[0] == m);
                        assert(m.start == i);
                        assert(m.key_end == key_tail_end(t, i + 1));
                        assert(forall|q: int| i + 1 <= q < m.key_end
                            ==> crate::text::key_tail_char(t[q]));
                    }
                }
            },
            None => {
                lemma_pair_matches_shape(t, i + 1);
                assert(r == pair_matches_from(t, i + 1));
            },
        }
    }
}

/// A text without any colon holds no pair head at all.
proof fn lemma_no_pairs(t: Seq<char>, i: int)
    requires
        0 <= i,
        forall|q: int| i <= q < t.len() ==> t[q] != ':',
    ensures
        pair_matches_from(t, i).len() == 0,
    decreases t.len() - i,
{
    if 0 <= i < t.len() {
        if crate::text::key_head_char(t[i]) {
            lemma_key_tail_chars(t, i + 1);
            let ke = key_tail_end(t, i + 1);
            lemma_space_run_end(t, ke);
            let w = space_run_end(t, ke);
            if w + 2 <= t.len() {
                assert(t[w] != ':');
            }
        }
        assert(pair_match_at(t, i) is None);
        lemma_no_pairs(t, i + 1);
    }
}

/// The interior `key::value` of a freshly built span tokenizes to exactly
/// one visible pair.
proof fn lemma_single_pair(key: Seq<char>, nv: Seq<char>)
    requires
        valid_key(key),
        plain_value(nv),
    ensures
        ({
            let t = key + seq![':', ':'] + nv;
            pair_matches_from(t, 0) == seq![
                PairMatch {
                    start: 0,
                    key_end: key.len() as int,
                    hidden: false,
                    end: key.len() + 2int,
                },
            ]
        }),
{
    let t = key + seq![':', ':'] + nv;
    let kl = key.len() as int;
    assert(forall|q: int| 0 <= q < kl ==> t[q] == key[q]);
    assert(t[kl] == ':' && t[kl + 1] == ':');
    assert(forall|q: int| kl + 2 <= q < t.len() ==> t[q] == nv[q - (kl + 2)]);
    lemma_key_tail_exact(t, 1, kl);
    assert(space_run_end(t, kl) == kl);
    if kl + 2 < t.len() {
        assert(t[kl + 2] == nv[0]);
        assert(space_run_end(t, kl + 2) == kl + 2);
    } else {
        assert(space_run_end(t, kl + 2) == kl + 2);
    }
    let m = PairMatch { start: 0, key_end: kl, hidden: false, end: kl + 2int };
    assert(pair_match_at(t, 0) == Some(m));
    assert(forall|q: int| kl + 2 <= q < t.len() ==> t[q] != ':');
    lemma_no_pairs(t, kl + 2);
    assert(pair_matches_from(t, kl + 2) =~= Seq::<PairMatch>::empty());
    assert(pair_matches_from(t, 0) =~= seq![m]);
}

/// A freshly built span `[key::value]` parses to exactly one standalone
/// visible property carrying that key and value.
proof fn lemma_span_props_single(key: Seq<char>, nv: Seq<char>, line: int, cs: int, ce: int)
    requires
        valid_key(key),
        plain_value(nv),
    ensures
        ({
            let inner = key + seq![':', ':'] + nv;
            let ps = span_props(inner, line, cs, ce);
            &&& ps.len() == 1
            &&& ps[0].key == key
            &&& ps[0].raw_value == nv
            &&& ps[0].value == infer_value_spec(nv).0
            &&& ps[0].linked_note == infer_value_spec(nv).1
            &&& ps[0].char_start == cs
            &&& ps[0].char_end == ce
            &&& ps[0].group_id is None
            &&& !ps[0].hidden
        }),
{
    let inner = key + seq![':', ':'] + nv;
    let kl = key.len() as int;
    assert(forall|i: int| 0 <= i < inner.len() ==> inner[i] != ',');
    lemma_subst_id(inner);
    lemma_single_pair(key, nv);
    let t = inner;
    let ms = pair_matches_from(t, 0);
    let m = ms[0];
    assert(value_end_at(t, ms, 0) == t.len());
    // the trimmed value is the new value itself
    if nv.len() > 0 {
        assert(t[kl + 2] == nv[0]);
        assert(t[t.len() - 1] == nv[nv.len() - 1]);
        assert(crate::text::trim_lo(t, kl + 2, t.len() as int) == kl + 2);
        assert(crate::text::trim_hi(t, kl + 2, t.len() as int) == t.len() as int);
        assert(t.subrange(kl + 2, t.len() as int) =~= nv);
    } else {
        assert(crate::text::trim_lo(t, kl + 2, t.len() as int) == kl + 2);
    }
    let vraw = trim_range_spec(t, m.end, value_end_at(t, ms, 0));
    assert(vraw == nv);
    assert(restore_commas(nv) =~= nv);
    assert(t.subrange(0, kl) =~= key);
    let ps = span_props(inner, line, cs, ce);
    assert(ps[0] == span_prop(t, ms, 0, line, cs, ce));
}

/// Replacing one scanned span by a fresh bracket-shaped segment keeps the
/// scan stable: the new span is found at the same position.
proof fn lemma_scan_replace(s: Seq<char>, i: int, a: int, b: int, seg: Seq<char>)
    requires
        0 <= i <= a,
        scan_spans(s, i).contains((a, b)),
        seg.len() >= 3,
        seg[0] == '[',
        seg[seg.len() - 1] == ']',
        forall|q: int| 1 <= q < seg.len() - 1 ==> seg[q] != ']',
    ensures
        scan_spans(s.take(a) + seg + s.skip(b), i).contains((a, a + seg.len())),
    decreases a - i,
{
    lemma_scan_spans_wf(s, i);
    lemma_scan_spans_shape(s, i);
    let spans = scan_spans(s, i);
    let k = choose|k: int| 0 <= k < spans.len() && (#[trigger] spans[k]) == (a, b);
    assert(i <= a && a + 3 <= b <= s.len() && s[a] == '[');
    let s2 = s.take(a) + seg + s.skip(b);
    let l = seg.len() as int;
    assert(forall|q: int| 0 <= q < a ==> s2[q] == s[q]);
    assert(forall|q: int| 0 <= q < l ==> s2[a + q] == seg[q]);
    if i == a {
        assert(s2[a] == '[');
        assert forall|q: int| a + 1 <= q < a + l - 1 implies s2[q] != ']' by {
            assert(s2[q] == seg[q - a]);
        }
        assert(s2[a + l - 1] == seg[l - 1]);
        crate::text::lemma_find_char_hit(s2, a + 1, a + l - 1, ']');
        assert(scan_spans(s2, a) == seq![(a, a + l)] + scan_spans(s2, a + l));
        assert(scan_spans(s2, a)[0] == (a, a + l));
    } else {
        if s[i] != '[' {
            assert(scan_spans(s, i) == scan_spans(s, i + 1));
            lemma_scan_replace(s, i + 1, a, b, seg);
            assert(s2[i] == s[i]);
            assert(scan_spans(s2, i) == scan_spans(s2, i + 1));
        } else {
            let j = find_char_from(s, i + 1, ']');
            crate::text::lemma_find_char_from(s, i + 1, ']');
            if j >= s.len() {
                assert(spans.len() == 0);
                assert(false);
            } else if j > i + 1 {
                assert(scan_spans(s, i) == seq![(i, j + 1)] + scan_spans(s, j + 1));
                assert(k > 0) by {
                    if k == 0 {
                        assert(spans[0] == (i, j + 1));
                    }
                }
                assert(scan_spans(s, j + 1).contains((a, b))) by {
                    assert(spans[k] == scan_spans(s, j + 1)[k - 1]);
                }
                lemma_scan_spans_wf(s, j + 1);
                assert(j + 1 <= a) by {
                    let k3 = choose|k3: int| 0 <= k3 < scan_spans(s, j + 1).len() && (
                        #[trigger] scan_spans(s, j + 1)[k3]) == (a, b);
                    assert(j + 1 <= scan_spans(s, j + 1)[k3].0);
                }
                lemma_scan_replace(s, j + 1, a, b, seg);
                assert(s2[i] == '[');
                assert forall|q: int| i + 1 <= q < j implies s2[q] != ']' by {
                    assert(s2[q] == s[q]);
                }
                assert(s2[j] == s[j]);
                crate::text::lemma_find_char_hit(s2, i + 1, j, ']');
                assert(scan_spans(s2, i) == seq![(i, j + 1)] + scan_spans(s2, j + 1));
                let k4 = choose|k4: int| 0 <= k4 < scan_spans(s2, j + 1).len() && (
                    #[trigger] scan_spans(s2, j + 1)[k4]) == (a, a + l);
                assert(scan_spans(s2, i)[k4 + 1] == (a, a + l));
            } else {
                assert(scan_spans(s, i) == scan_spans(s, i + 1));
                lemma_scan_replace(s, i + 1, a, b, seg);
                assert(s[i + 1] == ']');
                assert(i + 1 < a) by {
                    if i + 1 == a {
                        assert(s[a] == '[');
                    }
                }
                assert(s2[i] == '[');
                assert(s2[i + 1] == ']');
                crate::text::lemma_find_char_hit(s2, i + 1, i + 1, ']');
                assert(scan_spans(s2, i) == scan_spans(s2, i + 1));
            }
        }
    }
}

/// The assembled output holds the first property of every span that has
/// one, standalone when the span yields exactly one.
proof fn lemma_assemble_has_span(s: Seq<char>, spans: Seq<(int, int)>, g: int, k: int)
    requires
        spans_wf(s, spans, 0),
        0 <= k < spans.len(),
        span_props_at(s, spans[k].0, spans[k].1).len() >= 1,
    ensures
        exists|j: int| 0 <= j < assemble(s, spans, g).len() && ({
            let p = #[trigger] assemble(s, spans, g)[j];
            let q = span_props_at(s, spans[k].0, spans[k].1)[0];
            &&& p.key == q.key
            &&& p.raw_value == q.raw_value
            &&& p.value == q.value
            &&& p.linked_note == q.linked_note
            &&& p.char_start == q.char_start
            &&& p.char_end == q.char_end
            &&& p.hidden == q.hidden
            &&& (span_props_at(s, spans[k].0, spans[k].1).len() == 1 ==> p.group_id is None)
        }),
    decreases spans.len(),
{
    let r = assemble(s, spans, g);
    lemma_assemble_decomp(s, spans, g);
    let h = head_props(s, spans).len() as int;
    if k == 0 {
        let hs = with_group(head_props(s, spans), head_gid(s, spans, g));
        assert(r[0] == hs[0]);
        assert(0 <= 0 < r.len() && ({
            let p = r[0];
            let q = span_props_at(s, spans[0].0, spans[0].1)[0];
            &&& p.key == q.key
            &&& p.raw_value == q.raw_value
            &&& p.value == q.value
            &&& p.linked_note == q.linked_note
            &&& p.char_start == q.char_start
            &&& p.char_end == q.char_end
            &&& p.hidden == q.hidden
            &&& (span_props_at(s, spans[0].0, spans[0].1).len() == 1 ==> p.group_id is None)
        }));
    } else {
        let tail_spans = spans.drop_first();
        assert(tail_spans[k - 1] == spans[k]);
        lemma_assemble_has_span(s, tail_spans, next_gid(s, spans, g), k - 1);
        let rt = assemble(s, tail_spans, next_gid(s, spans, g));
        let j0 = choose|j0: int| 0 <= j0 < rt.len() && ({
            let p = #[trigger] rt[j0];
            let q = span_props_at(s, tail_spans[k - 1].0, tail_spans[k - 1].1)[0];
            &&& p.key == q.key
            &&& p.raw_value == q.raw_value
            &&& p.value == q.value
            &&& p.linked_note == q.linked_note
            &&& p.char_start == q.char_start
            &&& p.char_end == q.char_end
            &&& p.hidden == q.hidden
            &&& (span_props_at(s, tail_spans[k - 1].0, tail_spans[k - 1].1).len() == 1
                ==> p.group_id is None)
        });
        assert(r[j0 + h] == rt[j0]);
        assert(0 <= j0 + h < r.len() && ({
            let p = r[j0 + h];
            let q = span_props_at(s, spans[k].0, spans[k].1)[0];
            &&& p.key == q.key
            &&& p.raw_value == q.raw_value
            &&& p.value == q.value
            &&& p.linked_note == q.linked_note
            &&& p.char_start == q.char_start
            &&& p.char_end == q.char_end
            &&& p.hidden == q.hidden
            &&& (span_props_at(s, spans[k].0, spans[k].1).len() == 1 ==> p.group_id is None)
        }));
    }
}

/// Every parsed property's byte range comes from one scanned span, and
/// its key is well formed.
proof fn lemma_assemble_origin(s: Seq<char>, spans: Seq<(int, int)>, g: int, idx: int)
    requires
        spans_wf(s, spans, 0),
        0 <= idx < assemble(s, spans, g).len(),
    ensures
        exists|a: int, b: int|
            {
                let p = assemble(s, spans, g)[idx];
                &&& #[trigger] spans.contains((a, b))
                &&& p.char_start == crate::text::blen(s.take(a))
                &&& p.char_end == crate::text::blen(s.take(b))
                &&& valid_key(p.key)
            },
    decreases spans.len(),
{
    let r = assemble(s, spans, g);
    lemma_assemble_decomp(s, spans, g);
    let h = head_props(s, spans).len() as int;
    let p = r[idx];
    if idx < h {
        let a0 = spans[0].0;
        let b0 = spans[0].1;
        let inner = s.subrange(a0 + 1, b0 - 1);
        let t = crate::text::subst_escaped(inner);
        let ms = pair_matches_from(t, 0);
        lemma_pair_matches_shape(t, 0);
        let m = ms[idx];
        assert(p.key == t.subrange(m.start, m.key_end));
        assert(valid_key(p.key)) by {
            assert(p.key[0] == t[m.start]);
            assert(forall|q: int| 1 <= q < p.key.len() ==> p.key[q] == t[m.start + q]);
        }
        assert(spans.contains((a0, b0))) by {
            assert(spans[0] == (a0, b0));
        }
        assert(p.char_start == crate::text::blen(s.take(a0)));
        assert(p.char_end == crate::text::blen(s.take(b0)));
    } else {
        let tail_spans = spans.drop_first();
        lemma_assemble_origin(s, tail_spans, next_gid(s, spans, g), idx - h);
        let rt = assemble(s, tail_spans, next_gid(s, spans, g));
        let (a, b) = choose|a: int, b: int|
            {
                let q = rt[idx - h];
                &&& #[trigger] tail_spans.contains((a, b))
                &&& q.char_start == crate::text::blen(s.take(a))
                &&& q.char_end == crate::text::blen(s.take(b))
                &&& valid_key(q.key)
            };
        assert(spans.contains((a, b))) by {
            let k3 = choose|k3: int| 0 <= k3 < tail_spans.len() && (#[trigger] tail_spans[k3])
                == (a, b);
            assert(spans[k3 + 1] == (a, b));
        }
        assert(p == rt[idx - h]);
    }
}

/// Core of the round trip: replacing one scanned span by a freshly
/// built `[key::value]` span yields, after a new parse, a standalone
/// visible property at the same byte position carrying that key and
/// value.
proof fn lemma_replace_core(content: Seq<char>, a: int, b: int, key: Seq<char>, nv: Seq<char>)
    requires
        scan_spans(content, 0).contains((a, b)),
        valid_key(key),
        plain_value(nv),
    ensures
        ({
            let seg = seq!['['] + key + seq![':', ':'] + nv + seq![']'];
            let s2 = content.take(a) + seg + content.skip(b);
            exists|j: int| 0 <= j < parse_spec(s2).len() && ({
                let q = #[trigger] parse_spec(s2)[j];
                &&& q.key == key
                &&& q.raw_value == nv
                &&& q.value == infer_value_spec(nv).0
                &&& q.linked_note == infer_value_spec(nv).1
                &&& q.char_start == crate::text::blen(content.take(a))
                &&& q.group_id is None
                &&& !q.hidden
            })
        }),
{
    let seg = seq!['['] + key + seq![':', ':'] + nv + seq![']'];
    let s2 = content.take(a) + seg + content.skip(b);
    let kl = key.len() as int;
    let l = seg.len() as int;
    lemma_scan_spans_wf(content, 0);
    let spans = scan_spans(content, 0);
    let k = choose|k: int| 0 <= k < spans.len() && (#[trigger] spans[k]) == (a, b);
    assert(0 <= a && a < b <= content.len());
    assert(l == kl + nv.len() + 4);
    assert(seg[0] == '[');
    assert(seg[l - 1] == ']');
    assert forall|q: int| 1 <= q < l - 1 implies seg[q] != ']' by {
        if q < 1 + kl {
            assert(seg[q] == key[q - 1]);
        } else if q < 3 + kl {
            assert(seg[q] == ':');
        } else {
            assert(seg[q] == nv[q - (kl + 3)]);
        }
    }
    lemma_scan_replace(content, 0, a, b, seg);
    let spans2 = scan_spans(s2, 0);
    lemma_scan_spans_wf(s2, 0);
    let k2 = choose|k2: int| 0 <= k2 < spans2.len() && (#[trigger] spans2[k2]) == (a, a + l);
    let inner2 = s2.subrange(a + 1, a + l - 1);
    assert(inner2 =~= key + seq![':', ':'] + nv) by {
        assert(forall|q: int| 0 <= q < l ==> s2[a + q] == seg[q]);
    }
    lemma_span_props_single(
        key,
        nv,
        line_of(s2, a),
        crate::text::blen(s2.take(a)),
        crate::text::blen(s2.take(a + l)),
    );
    assert(span_props_at(s2, a, a + l) == span_props(
        inner2,
        line_of(s2, a),
        crate::text::blen(s2.take(a)),
        crate::text::blen(s2.take(a + l)),
    ));
    lemma_assemble_has_span(s2, spans2, 0, k2);
    assert(s2.take(a) =~= content.take(a));
    let j = choose|j: int| 0 <= j < parse_spec(s2).len() && ({
        let q = #[trigger] parse_spec(s2)[j];
        let q0 = span_props_at(s2, spans2[k2].0, spans2[k2].1)[0];
        &&& q.key == q0.key
        &&& q.raw_value == q0.raw_value
        &&& q.value == q0.value
        &&& q.linked_note == q0.linked_note
        &&& q.char_start == q0.char_start
        &&& q.char_end == q0.char_end
        &&& q.hidden == q0.hidden
        &&& (span_props_at(s2, spans2[k2].0, spans2[k2].1).len() == 1 ==> q.group_id is None)
    });
    assert(0 <= j < parse_spec(s2).len() && ({
        let q = #[trigger] parse_spec(s2)[j];
        &&& q.key == key
        &&& q.raw_value == nv
        &&& q.value == infer_value_spec(nv).0
        &&& q.linked_note == infer_value_spec(nv).1
        &&& q.char_start == crate::text::blen(content.take(a))
        &&& q.group_id is None
        &&& !q.hidden
    }));
}

/// Parsing the output of `replace_property` again yields, at the same
/// byte position, a standalone visible property carrying the unchanged
/// key and the new value.  The replacement value must be free of the
/// grammar's delimiters and escapes and must not begin or end with
/// whitespace; other values can change how the rebuilt span tokenizes.
#[verifier::spinoff_prover]
pub proof fn lemma_replace_round_trip(content: Seq<char>, idx: int, nv: Seq<char>)
    requires
        0 <= idx < parse_spec(content).len(),
        plain_value(nv),
    ensures
        ({
            let p = parse_spec(content)[idx];
            let a = crate::text::char_index_at(content, p.char_start);
            let b = crate::text::char_index_at(content, p.char_end);
            let r = content.take(a) + "["@ + p.key + "::"@ + nv + "]"@ + content.skip(b);
            exists|j: int| 0 <= j < parse_spec(r).len() && ({
                let q = #[trigger] parse_spec(r)[j];
                &&& q.key == p.key
                &&& q.raw_value == nv
                &&& q.value == infer_value_spec(nv).0
                &&& q.linked_note == infer_value_spec(nv).1
                &&& q.char_start == p.char_start
                &&& q.group_id is None
                &&& !q.hidden
            })
        }),
{
    reveal_strlit("[");
    reveal_strlit("::");
    reveal_strlit("]");
    let p = parse_spec(content)[idx];
    lemma_scan_spans_wf(content, 0);
    let spans = scan_spans(content, 0);
    lemma_assemble_origin(content, spans, 0, idx);
    let (a, b) = choose|a: int, b: int|
        {
            &&& #[trigger] spans.contains((a, b))
            &&& p.char_start == crate::text::blen(content.take(a))
            &&& p.char_end == crate::text::blen(content.take(b))
            &&& valid_key(p.key)
        };
    let k = choose|k: int| 0 <= k < spans.len() && (#[trigger] spans[k]) == (a, b);
    assert(0 <= a && a < b <= content.len());
    assert(crate::text::char_index_at(content, p.char_start) == a) by {
        assert(crate::text::blen(content.take(a)) == p.char_start);
        let w = crate::text::char_index_at(content, p.char_start);
        assert(0 <= w <= content.len() && crate::text::blen(content.take(w)) == p.char_start);
        crate::text::lemma_byte_index_unique(content, w, a);
    }
    assert(crate::text::char_index_at(content, p.char_end) == b) by {
        assert(crate::text::blen(content.take(b)) == p.char_end);
        let w = crate::text::char_index_at(content, p.char_end);
        assert(0 <= w <= content.len() && crate::text::blen(content.take(w)) == p.char_end);
        crate::text::lemma_byte_index_unique(content, w, b);
    }
    lemma_replace_core(content, a, b, p.key, nv);
    assert("["@ =~= seq!['[']);
    assert("::"@ =~= seq![':', ':']);
    assert("]"@ =~= seq![']']);
    let seg = seq!['['] + p.key + seq![':', ':'] + nv + seq![']'];
    let s2 = content.take(a) + seg + content.skip(b);
    let rr = content.take(crate::text::char_index_at(content, p.char_start)) + "["@ + p.key
        + "::"@ + nv + "]"@ + content.skip(crate::text::char_index_at(content, p.char_end));
    assert(rr =~= s2);
    let j = choose|j: int| 0 <= j < parse_spec(s2).len() && ({
        let q = #[trigger] parse_spec(s2)[j];
        &&& q.key == p.key
        &&& q.raw_value == nv
        &&& q.value == infer_value_spec(nv).0
        &&& q.linked_note == infer_value_spec(nv).1
        &&& q.char_start == crate::text::blen(content.take(a))
        &&& q.group_id is None
        &&& !q.hidden
    });
    assert(0 <= j < parse_spec(rr).len() && ({
        let q = #[trigger] parse_spec(rr)[j];
        &&& q.key == p.key
        &&& q.raw_value == nv
        &&& q.value == infer_value_spec(nv).0
        &&& q.linked_note == infer_value_spec(nv).1
        &&& q.char_start == p.char_start
        &&& q.group_id is None
        &&& !q.hidden
    }));
}

} // verus!
