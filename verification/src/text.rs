//! Character classes, UTF-8 byte accounting and small string utilities
//! shared by the parser.
//!
//! The bracket grammar speaks of Unicode letters, numbers and whitespace;
//! those three classes come from `char`'s own classification methods and
//! are the only facts this module takes on trust.  Everything else —
//! converting between `&str` and `Vec<char>`, byte lengths of character
//! prefixes, escape substitution and trimming — is verified.

use vstd::prelude::*;
use vstd::string::StrSliceExecFns;
use vstd::utf8::{encode_scalar, encode_utf8};

verus! {

// ---------------------------------------------------------------------------
// Unicode character classes (trusted: std's `char` classification)
// ---------------------------------------------------------------------------

/// Whether `char::is_alphabetic` holds of `c`.
pub uninterp spec fn unicode_letter(c: char) -> bool;

/// Whether `char::is_numeric` holds of `c`.
pub uninterp spec fn unicode_number(c: char) -> bool;

/// Whether `char::is_whitespace` holds of `c`.
pub uninterp spec fn unicode_space(c: char) -> bool;

/// Relies on char::is_alphabetic: whether a character is a Unicode letter
/// depends on the character alone.
#[verifier::external_body]
pub(crate) fn char_is_letter(c: char) -> (r: bool)
    ensures
        r == unicode_letter(c),
{
    c.is_alphabetic()
}

/// Relies on char::is_numeric: whether a character is a Unicode number
/// depends on the character alone.
#[verifier::external_body]
pub(crate) fn char_is_number(c: char) -> (r: bool)
    ensures
        r == unicode_number(c),
{
    c.is_numeric()
}

/// Relies on char::is_whitespace: whether a character is Unicode whitespace
/// depends on the character alone.
#[verifier::external_body]
pub(crate) fn char_is_space(c: char) -> (r: bool)
    ensures
        r == unicode_space(c),
{
    c.is_whitespace()
}

/// Relies on String::push: appends exactly the given character at the end.
#[verifier::external_body]
pub(crate) fn push_char(s: &mut String, c: char)
    ensures
        final(s)@ == old(s)@.push(c),
{
    s.push(c)
}

// ---------------------------------------------------------------------------
// Derived character predicates
// ---------------------------------------------------------------------------

/// First character of a property key: a Unicode letter.  The grammar's
/// own delimiters, which are never letters, are written out so the model
/// itself carries that a key cannot hold them.
pub open spec fn key_head_char(c: char) -> bool {
    unicode_letter(c) && c != ':' && c != ']' && c != ','
}

/// Continuation character of a property key: letter, number or
/// underscore, and never one of the grammar's delimiters.
pub open spec fn key_tail_char(c: char) -> bool {
    (unicode_letter(c) || unicode_number(c) || c == '_') && c != ':' && c != ']' && c != ','
}

pub(crate) fn is_key_head(c: char) -> (r: bool)
    ensures
        r == key_head_char(c),
{
    char_is_letter(c) && c != ':' && c != ']' && c != ','
}

pub(crate) fn is_key_tail(c: char) -> (r: bool)
    ensures
        r == key_tail_char(c),
{
    (char_is_letter(c) || char_is_number(c) || c == '_') && c != ':' && c != ']' && c != ','
}

/// ASCII decimal digit.
pub open spec fn ascii_digit(c: char) -> bool {
    48 <= c as u32 && c as u32 <= 57
}

pub(crate) fn is_ascii_digit_char(c: char) -> (r: bool)
    ensures
        r == ascii_digit(c),
{
    let u = c as u32;
    48 <= u && u <= 57
}

/// ASCII-only lower-casing of a character's code point, as
/// `eq_ignore_ascii_case` folds it.
pub open spec fn lower_ascii_code(c: char) -> u32 {
    if 65 <= c as u32 && c as u32 <= 90 {
        (c as u32 + 32) as u32
    } else {
        c as u32
    }
}

pub(crate) fn lower_ascii(c: char) -> (r: u32)
    ensures
        r == lower_ascii_code(c),
{
    let u = c as u32;
    if 65 <= u && u <= 90 {
        u + 32
    } else {
        u
    }
}

// ---------------------------------------------------------------------------
// Byte lengths of character sequences
// ---------------------------------------------------------------------------

/// Number of bytes of the UTF-8 encoding of one character.
pub open spec fn char_bytes(c: char) -> int {
    encode_scalar(c as u32).len() as int
}

/// Number of bytes of the UTF-8 encoding of a character sequence.
pub open spec fn blen(s: Seq<char>) -> int {
    encode_utf8(s).len() as int
}

/// `b` is the byte length of some character prefix of `s`: the byte
/// positions at which a character starts or the text ends.
pub open spec fn byte_boundary(s: Seq<char>, b: int) -> bool {
    exists|i: int| 0 <= i <= s.len() && blen(s.take(i)) == b
}

/// The character index whose prefix has byte length `b` (meaningful when
/// `b` is a byte boundary of `s`; unique by strict monotonicity).
pub open spec fn char_index_at(s: Seq<char>, b: int) -> int {
    choose|i: int| 0 <= i <= s.len() && blen(s.take(i)) == b
}

pub proof fn lemma_byte_index_unique(s: Seq<char>, i: int, j: int)
    requires
        0 <= i <= s.len(),
        0 <= j <= s.len(),
        blen(s.take(i)) == blen(s.take(j)),
    ensures
        i == j,
{
    if i < j {
        lemma_blen_mono(s, i, j);
    }
    if j < i {
        lemma_blen_mono(s, j, i);
    }
}

pub proof fn lemma_char_bytes_range(c: char)
    ensures
        1 <= char_bytes(c) <= 4,
{
}

pub proof fn lemma_encode_append(a: Seq<char>, c: char)
    ensures
        encode_utf8(a.push(c)) == encode_utf8(a) + encode_scalar(c as u32),
    decreases a.len(),
{
    if a.len() == 0 {
        let e = Seq::<char>::empty();
        assert(a =~= e);
        assert(encode_utf8(e) =~= Seq::<u8>::empty());
        assert(a.push(c) =~= seq![c]);
        assert(seq![c].drop_first() =~= e);
        assert(encode_utf8(seq![c]) =~= encode_scalar(c as u32) + encode_utf8(e));
        assert(encode_utf8(a.push(c)) =~= encode_utf8(a) + encode_scalar(c as u32));
    } else {
        assert(a.push(c).drop_first() =~= a.drop_first().push(c));
        lemma_encode_append(a.drop_first(), c);
        assert(encode_utf8(a.push(c)) =~= encode_utf8(a) + encode_scalar(c as u32));
    }
}

pub proof fn lemma_blen_take_succ(s: Seq<char>, i: int)
    requires
        0 <= i < s.len(),
    ensures
        blen(s.take(i + 1)) == blen(s.take(i)) + char_bytes(s[i]),
{
    assert(s.take(i + 1) =~= s.take(i).push(s[i]));
    lemma_encode_append(s.take(i), s[i]);
}

pub proof fn lemma_blen_mono(s: Seq<char>, i: int, j: int)
    requires
        0 <= i <= j <= s.len(),
    ensures
        blen(s.take(i)) <= blen(s.take(j)),
        i < j ==> blen(s.take(i)) < blen(s.take(j)),
    decreases j - i,
{
    if i < j {
        lemma_blen_mono(s, i, j - 1);
        lemma_blen_take_succ(s, j - 1);
        lemma_char_bytes_range(s[j - 1]);
    }
}

pub proof fn lemma_blen_whole(s: Seq<char>)
    ensures
        blen(s.take(s.len() as int)) == blen(s),
{
    assert(s.take(s.len() as int) =~= s);
}

/// UTF-8 length in bytes of one character, computed from its code point.
pub(crate) fn char_utf8_len(c: char) -> (n: usize)
    ensures
        n as int == char_bytes(c),
        1 <= n <= 4,
{
    let u = c as u32;
    if u < 0x80 {
        1
    } else if u < 0x800 {
        2
    } else if u < 0x10000 {
        3
    } else {
        4
    }
}

// ---------------------------------------------------------------------------
// &str / Vec<char> bridges
// ---------------------------------------------------------------------------

/// The characters of a string slice, in order.
pub fn str_to_chars(s: &str) -> (v: Vec<char>)
    ensures
        v@ == s@,
{
    let n = s.unicode_len();
    let mut v: Vec<char> = Vec::new();
    let mut i: usize = 0;
    while i < n
        invariant
            n == s@.len(),
            i <= n,
            v@ == s@.take(i as int),
        decreases n - i,
    {
        let c = s.get_char(i);
        v.push(c);
        proof {
            assert(s@.take(i + 1 as int) =~= s@.take(i as int).push(s@[i as int]));
        }
        i = i + 1;
    }
    proof {
        assert(s@.take(n as int) =~= s@);
    }
    v
}

/// A `String` holding exactly the given characters.
pub fn chars_to_string(v: &Vec<char>) -> (r: String)
    ensures
        r@ == v@,
{
    let mut r = String::new();
    let mut i: usize = 0;
    while i < v.len()
        invariant
            i <= v.len(),
            r@ == v@.take(i as int),
        decreases v.len() - i,
    {
        push_char(&mut r, v[i]);
        proof {
            assert(v@.take(i + 1 as int) =~= v@.take(i as int).push(v@[i as int]));
        }
        i = i + 1;
    }
    proof {
        assert(v@.take(v@.len() as int) =~= v@);
    }
    r
}

// ---------------------------------------------------------------------------
// Escaped commas and the sentinel character
// ---------------------------------------------------------------------------

/// The interior of a bracket span with every escaped comma `\,` replaced
/// by the sentinel character, so that only separator commas remain.
pub open spec fn subst_escaped(s: Seq<char>) -> Seq<char>
    decreases s.len(),
{
    if s.len() >= 2 && s[0] == '\\' && s[1] == ',' {
        seq!['\u{0}'] + subst_escaped(s.skip(2))
    } else if s.len() >= 1 {
        seq![s[0]] + subst_escaped(s.skip(1))
    } else {
        Seq::empty()
    }
}

/// Every sentinel character turned back into a literal comma.
pub open spec fn restore_commas(s: Seq<char>) -> Seq<char> {
    Seq::new(s.len(), |i: int| if s[i] == '\u{0}' { ',' } else { s[i] })
}

/// Executable escape substitution over the characters of a span interior.
pub(crate) fn subst_escapes(t: &Vec<char>) -> (r: Vec<char>)
    ensures
        r@ == subst_escaped(t@),
{
    let mut r: Vec<char> = Vec::new();
    let mut i: usize = 0;
    proof {
        assert(t@.skip(0) =~= t@);
        assert(r@ + subst_escaped(t@) =~= subst_escaped(t@));
    }
    loop
        invariant
            i <= t@.len(),
            subst_escaped(t@) == r@ + subst_escaped(t@.skip(i as int)),
        decreases t@.len() - i,
    {
        if i < t.len() {
            if t[i] == '\\' && i + 1 < t.len() && t[i + 1] == ',' {
                r.push('\u{0}');
                proof {
                    assert(t@.skip(i as int).skip(2) =~= t@.skip(i + 2 as int));
                    assert(seq!['\u{0}'] + subst_escaped(t@.skip(i + 2 as int))
                        =~= subst_escaped(t@.skip(i as int)));
                    assert((r@.drop_last() + (seq!['\u{0}'] + subst_escaped(t@.skip(i + 2))))
                        =~= r@ + subst_escaped(t@.skip(i + 2)));
                }
                i = i + 2;
            } else {
                r.push(t[i]);
                proof {
                    assert(t@.skip(i as int).skip(1) =~= t@.skip(i + 1 as int));
                    assert(seq![t@[i as int]] + subst_escaped(t@.skip(i + 1 as int))
                        =~= subst_escaped(t@.skip(i as int)));
                    assert((r@.drop_last() + (seq![t@[i as int]] + subst_escaped(t@.skip(i + 1))))
                        =~= r@ + subst_escaped(t@.skip(i + 1)));
                }
                i = i + 1;
            }
        } else {
            proof {
                assert(t@.skip(i as int) =~= Seq::<char>::empty());
                assert(r@ + subst_escaped(t@.skip(i as int)) =~= r@);
            }
            return r;
        }
    }
}

/// The comma-restored form of a character range, as a `String`.
pub(crate) fn restore_range(t: &Vec<char>, from: usize, to: usize) -> (r: String)
    requires
        from <= to <= t@.len(),
    ensures
        r@ == restore_commas(t@.subrange(from as int, to as int)),
{
    let ghost sub = t@.subrange(from as int, to as int);
    let mut r = String::new();
    let mut i: usize = from;
    while i < to
        invariant
            from <= i <= to <= t@.len(),
            sub == t@.subrange(from as int, to as int),
            r@.len() == i - from,
            forall|k: int| 0 <= k < i - from ==> r@[k] == restore_commas(sub)[k],
        decreases to - i,
    {
        let c = t[i];
        if c == '\u{0}' {
            push_char(&mut r, ',');
        } else {
            push_char(&mut r, c);
        }
        i = i + 1;
    }
    proof {
        assert(r@ =~= restore_commas(sub));
    }
    r
}

/// The comma-restored form of a character range, as characters.
pub(crate) fn restore_copy(t: &Vec<char>, from: usize, to: usize) -> (r: Vec<char>)
    requires
        from <= to <= t@.len(),
    ensures
        r@ == restore_commas(t@.subrange(from as int, to as int)),
{
    let ghost sub = t@.subrange(from as int, to as int);
    let mut r: Vec<char> = Vec::new();
    let mut i: usize = from;
    while i < to
        invariant
            from <= i <= to <= t@.len(),
            sub == t@.subrange(from as int, to as int),
            r@.len() == i - from,
            forall|k: int| 0 <= k < i - from ==> r@[k] == restore_commas(sub)[k],
        decreases to - i,
    {
        let c = t[i];
        if c == '\u{0}' {
            r.push(',');
        } else {
            r.push(c);
        }
        i = i + 1;
    }
    proof {
        assert(r@ =~= restore_commas(sub));
    }
    r
}

// ---------------------------------------------------------------------------
// Trimming and range utilities
// ---------------------------------------------------------------------------

/// First index in `[from, to)` holding a non-whitespace character, or `to`.
pub open spec fn trim_lo(s: Seq<char>, from: int, to: int) -> int
    decreases to - from,
{
    if 0 <= from < to && to <= s.len() && unicode_space(s[from]) {
        trim_lo(s, from + 1, to)
    } else {
        from
    }
}

/// One past the last index in `[from, to)` holding a non-whitespace
/// character, or `from`.
pub open spec fn trim_hi(s: Seq<char>, from: int, to: int) -> int
    decreases to - from,
{
    if 0 <= from < to && to <= s.len() && unicode_space(s[to - 1]) {
        trim_hi(s, from, to - 1)
    } else {
        to
    }
}

/// The range `[from, to)` of `s` with leading and trailing whitespace
/// removed, as `str::trim` leaves it.
pub open spec fn trim_range_spec(s: Seq<char>, from: int, to: int) -> Seq<char> {
    let a = trim_lo(s, from, to);
    let b = trim_hi(s, a, to);
    if a < b {
        s.subrange(a, b)
    } else {
        Seq::empty()
    }
}

pub(crate) fn skip_spaces_fwd(t: &Vec<char>, from: usize, to: usize) -> (r: usize)
    requires
        from <= to <= t@.len(),
    ensures
        r as int == trim_lo(t@, from as int, to as int),
        from <= r <= to,
{
    let mut a = from;
    loop
        invariant
            from <= a <= to <= t@.len(),
            trim_lo(t@, from as int, to as int) == trim_lo(t@, a as int, to as int),
        decreases to - a,
    {
        if a < to {
            if char_is_space(t[a]) {
                a = a + 1;
            } else {
                return a;
            }
        } else {
            return a;
        }
    }
}

pub(crate) fn skip_spaces_back(t: &Vec<char>, from: usize, to: usize) -> (r: usize)
    requires
        from <= to <= t@.len(),
    ensures
        r as int == trim_hi(t@, from as int, to as int),
        from <= r <= to,
{
    let mut b = to;
    loop
        invariant
            from <= b <= to <= t@.len(),
            trim_hi(t@, from as int, to as int) == trim_hi(t@, from as int, b as int),
        decreases b,
    {
        if from < b {
            if char_is_space(t[b - 1]) {
                b = b - 1;
            } else {
                return b;
            }
        } else {
            return b;
        }
    }
}

/// A copy of the characters in `[from, to)`.
pub(crate) fn copy_range(t: &Vec<char>, from: usize, to: usize) -> (r: Vec<char>)
    requires
        from <= to <= t@.len(),
    ensures
        r@ == t@.subrange(from as int, to as int),
{
    let mut r: Vec<char> = Vec::new();
    let mut i: usize = from;
    while i < to
        invariant
            from <= i <= to <= t@.len(),
            r@ == t@.subrange(from as int, i as int),
        decreases to - i,
    {
        r.push(t[i]);
        proof {
            assert(t@.subrange(from as int, i + 1 as int)
                =~= t@.subrange(from as int, i as int).push(t@[i as int]));
        }
        i = i + 1;
    }
    r
}

/// A copy of the characters in `[from, to)` with surrounding whitespace
/// trimmed away.
pub(crate) fn trim_copy(t: &Vec<char>, from: usize, to: usize) -> (r: Vec<char>)
    requires
        from <= to <= t@.len(),
    ensures
        r@ == trim_range_spec(t@, from as int, to as int),
{
    let a = skip_spaces_fwd(t, from, to);
    let b = skip_spaces_back(t, a, to);
    if a < b {
        copy_range(t, a, b)
    } else {
        let r: Vec<char> = Vec::new();
        proof {
            assert(r@ =~= trim_range_spec(t@, from as int, to as int));
        }
        r
    }
}

// ---------------------------------------------------------------------------
// Searching
// ---------------------------------------------------------------------------

/// Index of the first occurrence of `c` at or after `from`, or `s.len()`.
pub open spec fn find_char_from(s: Seq<char>, from: int, c: char) -> int
    decreases s.len() - from,
{
    if 0 <= from < s.len() {
        if s[from] == c {
            from
        } else {
            find_char_from(s, from + 1, c)
        }
    } else {
        s.len() as int
    }
}

pub proof fn lemma_find_char_from(s: Seq<char>, from: int, c: char)
    requires
        0 <= from <= s.len(),
    ensures
        from <= find_char_from(s, from, c) <= s.len(),
        find_char_from(s, from, c) < s.len() ==> s[find_char_from(s, from, c)] == c,
        forall|k: int| from <= k < find_char_from(s, from, c) ==> s[k] != c,
    decreases s.len() - from,
{
    if from < s.len() && s[from] != c {
        lemma_find_char_from(s, from + 1, c);
    }
}

pub proof fn lemma_find_char_hit(s: Seq<char>, from: int, x: int, c: char)
    requires
        0 <= from <= x < s.len(),
        s[x] == c,
        forall|q: int| from <= q < x ==> s[q] != c,
    ensures
        find_char_from(s, from, c) == x,
    decreases x - from,
{
    if from < x {
        lemma_find_char_hit(s, from + 1, x, c);
    }
}

pub(crate) fn find_char(t: &Vec<char>, from: usize, c: char) -> (r: usize)
    requires
        from <= t@.len(),
    ensures
        r as int == find_char_from(t@, from as int, c),
        from <= r <= t@.len(),
{
    let mut i = from;
    loop
        invariant
            from <= i <= t@.len(),
            find_char_from(t@, from as int, c) == find_char_from(t@, i as int, c),
        decreases t@.len() - i,
    {
        if i < t.len() {
            if t[i] == c {
                return i;
            }
            i = i + 1;
        } else {
            return i;
        }
    }
}

/// Whether any character of `t` equals `c`.
pub(crate) fn contains_char(t: &Vec<char>, c: char) -> (r: bool)
    ensures
        r == t@.contains(c),
{
    let n = find_char(t, 0, c);
    proof {
        lemma_find_char_from(t@, 0, c);
        if find_char_from(t@, 0, c) < t@.len() {
            assert(t@[find_char_from(t@, 0, c)] == c);
        } else {
            assert(forall|k: int| 0 <= k < t@.len() ==> t@[k] != c);
        }
    }
    n < t.len()
}

/// Character-wise equality of two string slices.
pub fn str_eq(a: &str, b: &str) -> (r: bool)
    ensures
        r == (a@ == b@),
{
    let na = a.unicode_len();
    let nb = b.unicode_len();
    if na != nb {
        return false;
    }
    let mut i: usize = 0;
    while i < na
        invariant
            na == a@.len(),
            na == b@.len(),
            i <= na,
            forall|k: int| 0 <= k < i ==> a@[k] == b@[k],
        decreases na - i,
    {
        if a.get_char(i) != b.get_char(i) {
            return false;
        }
        i = i + 1;
    }
    proof {
        assert(a@ =~= b@);
    }
    true
}

} // verus!
