//! Character classes and the two measures a cursor keeps while it walks text:
//! how many bytes the consumed characters occupy in UTF-8, and how many line
//! breaks they hold.

use vstd::prelude::*;
use vstd::utf8::{encode_scalar, encode_utf8};

verus! {

/// Whether `c`, a character above U+007F, has the Unicode `White_Space`
/// property.
///
/// Above ASCII the set is the one `char::is_whitespace` tests for; it is named
/// rather than listed, so nothing is known of it here beyond what that
/// function reports.
pub uninterp spec fn is_white_space_beyond_ascii(c: char) -> bool;

/// The ASCII characters with the `White_Space` property: U+0009 to U+000D
/// (tab, line feed, vertical tab, form feed, carriage return) and the space.
pub open spec fn is_ascii_white_space(c: char) -> bool {
    ('\u{9}' <= c <= '\u{d}') || c == ' '
}

/// Whether `c` has the Unicode `White_Space` property.
pub open spec fn is_white_space(c: char) -> bool {
    if c <= '\u{7f}' {
        is_ascii_white_space(c)
    } else {
        is_white_space_beyond_ascii(c)
    }
}

/// `char::is_whitespace` tells whether the character has the `White_Space`
/// property of the Unicode Character Database. Up to U+007F that property
/// belongs to U+0009..U+000D and U+0020 and to nothing else, and this says so;
/// above, it says only that the answer is a function of the character.
pub assume_specification[ char::is_whitespace ](c: char) -> (r: bool)
    ensures
        r == if c <= '\u{7f}' {
            is_ascii_white_space(c)
        } else {
            is_white_space_beyond_ascii(c)
        },
;

/// The number of bytes that `c` occupies when encoded in UTF-8.
pub open spec fn utf8_width(c: char) -> nat {
    encode_scalar(c as u32).len()
}

/// `char::len_utf8` returns the number of bytes the character needs in UTF-8;
/// this equates it with the length of the character's encoding.
pub assume_specification[ char::len_utf8 ](c: char) -> (n: usize)
    ensures
        n == utf8_width(c),
;

/// A character that may open an identifier: an ASCII letter or `_`.
pub open spec fn is_ident_start(c: char) -> bool {
    ('a' <= c <= 'z') || ('A' <= c <= 'Z') || c == '_'
}

/// An ASCII decimal digit.
pub open spec fn is_digit(c: char) -> bool {
    '0' <= c <= '9'
}

/// A character that may continue an identifier: a letter, a digit or `_`.
pub open spec fn is_ident_part(c: char) -> bool {
    is_ident_start(c) || is_digit(c)
}

/// A character that may continue a run of digits: a digit or the separator `_`.
pub open spec fn is_number_part(c: char) -> bool {
    is_digit(c) || c == '_'
}

/// A character that opens and closes a string literal.
pub open spec fn is_quote(c: char) -> bool {
    c == '\'' || c == '"'
}

/// Tests [`is_ident_start`].
pub fn ident_start(c: char) -> (r: bool)
    ensures
        r == is_ident_start(c),
{
    (c >= 'a' && c <= 'z') || (c >= 'A' && c <= 'Z') || c == '_'
}

/// Tests [`is_digit`].
pub fn digit(c: char) -> (r: bool)
    ensures
        r == is_digit(c),
{
    c >= '0' && c <= '9'
}

/// Tests [`is_ident_part`].
pub fn ident_part(c: char) -> (r: bool)
    ensures
        r == is_ident_part(c),
{
    ident_start(c) || digit(c)
}

/// Tests [`is_number_part`].
pub fn number_part(c: char) -> (r: bool)
    ensures
        r == is_number_part(c),
{
    digit(c) || c == '_'
}

/// Tests [`is_quote`].
pub fn quote(c: char) -> (r: bool)
    ensures
        r == is_quote(c),
{
    c == '\'' || c == '"'
}

/// A set of characters that a scan can be asked to match.
#[derive(Debug, Clone, Copy, PartialEq, Eq, Structural)]
pub enum CharClass {
    /// Every character.
    Any,
    /// The characters with the `White_Space` property.
    Whitespace,
    /// ASCII letters and `_`.
    IdentStart,
    /// ASCII letters, digits and `_`.
    IdentPart,
    /// ASCII digits.
    Digit,
    /// ASCII digits and `_`.
    NumberPart,
}

impl CharClass {
    /// Whether `c` belongs to the class.
    pub open spec fn contains(self, c: char) -> bool {
        match self {
            CharClass::Any => true,
            CharClass::Whitespace => is_white_space(c),
            CharClass::IdentStart => is_ident_start(c),
            CharClass::IdentPart => is_ident_part(c),
            CharClass::Digit => is_digit(c),
            CharClass::NumberPart => is_number_part(c),
        }
    }

    /// Tests whether `c` belongs to the class.
    pub fn has(self, c: char) -> (r: bool)
        ensures
            r == self.contains(c),
    {
        match self {
            CharClass::Any => true,
            CharClass::Whitespace => c.is_whitespace(),
            CharClass::IdentStart => ident_start(c),
            CharClass::IdentPart => ident_part(c),
            CharClass::Digit => digit(c),
            CharClass::NumberPart => number_part(c),
        }
    }
}

/// The first character of `s`, if it has one.
pub open spec fn first(s: Seq<char>) -> Option<char> {
    if s.len() > 0 {
        Some(s[0])
    } else {
        None
    }
}

/// The length of the longest prefix of `s` whose characters all belong to
/// `class`.
pub open spec fn run_len(s: Seq<char>, class: CharClass) -> nat
    decreases s.len(),
{
    if s.len() > 0 && class.contains(s[0]) {
        1 + run_len(s.drop_first(), class)
    } else {
        0
    }
}

/// What pins a run down: it stays inside `s`, every character of it is in the
/// class, and the character after it, if there is one, is not.
pub proof fn lemma_run_len(s: Seq<char>, class: CharClass)
    ensures
        run_len(s, class) <= s.len(),
        forall|i: int| 0 <= i < run_len(s, class) ==> class.contains(#[trigger] s[i]),
        run_len(s, class) < s.len() ==> !class.contains(s[run_len(s, class) as int]),
    decreases s.len(),
{
    if s.len() > 0 && class.contains(s[0]) {
        let t = s.drop_first();
        lemma_run_len(t, class);
        assert forall|i: int| 0 <= i < run_len(s, class) implies class.contains(
            #[trigger] s[i],
        ) by {
            if i > 0 {
                assert(s[i] == t[i - 1]);
            }
        }
        if run_len(s, class) < s.len() {
            assert(s[run_len(s, class) as int] == t[run_len(t, class) as int]);
        }
    }
}

/// The converse: a length with those three properties is the run's length.
pub proof fn lemma_run_len_unique(s: Seq<char>, class: CharClass, n: nat)
    requires
        n <= s.len(),
        forall|i: int| 0 <= i < n ==> class.contains(#[trigger] s[i]),
        n < s.len() ==> !class.contains(s[n as int]),
    ensures
        run_len(s, class) == n,
    decreases s.len(),
{
    if s.len() > 0 && class.contains(s[0]) {
        let t = s.drop_first();
        assert(n >= 1);
        assert forall|i: int| 0 <= i < n - 1 implies class.contains(#[trigger] t[i]) by {
            assert(t[i] == s[i + 1]);
        }
        if n - 1 < t.len() {
            assert(t[n - 1] == s[n as int]);
        }
        lemma_run_len_unique(t, class, (n - 1) as nat);
    } else if s.len() > 0 {
        if n > 0 {
            assert(class.contains(s[0]));
        }
    }
}

/// The number of bytes that the characters of `s` occupy in UTF-8.
pub open spec fn byte_len(s: Seq<char>) -> nat {
    encode_utf8(s).len()
}

/// The number of line breaks (`'\n'`) in `s`.
pub open spec fn newlines(s: Seq<char>) -> nat
    decreases s.len(),
{
    if s.len() == 0 {
        0
    } else {
        newlines(s.drop_last()) + if s.last() == '\n' {
            1nat
        } else {
            0nat
        }
    }
}

/// Every character takes between one and four bytes, and a line break takes one.
pub proof fn lemma_utf8_width_bounds(c: char)
    ensures
        1 <= utf8_width(c) <= 4,
        c == '\n' ==> utf8_width(c) == 1,
{
}

/// Encoding a concatenation is concatenating the encodings.
pub proof fn lemma_encode_concat(a: Seq<char>, b: Seq<char>)
    ensures
        encode_utf8(a + b) == encode_utf8(a) + encode_utf8(b),
    decreases a.len(),
{
    if a.len() == 0 {
        assert(a + b =~= b);
        assert(encode_utf8(a) + encode_utf8(b) =~= encode_utf8(b));
    } else {
        lemma_encode_concat(a.drop_first(), b);
        assert((a + b).drop_first() =~= a.drop_first() + b);
        assert(encode_utf8(a + b) =~= encode_utf8(a) + encode_utf8(b));
    }
}

/// Byte lengths add up over a concatenation.
pub proof fn lemma_byte_len_concat(a: Seq<char>, b: Seq<char>)
    ensures
        byte_len(a + b) == byte_len(a) + byte_len(b),
{
    lemma_encode_concat(a, b);
}

/// One more character adds its width.
pub proof fn lemma_byte_len_push(s: Seq<char>, c: char)
    ensures
        byte_len(s.push(c)) == byte_len(s) + utf8_width(c),
{
    lemma_encode_concat(s, seq![c]);
    assert(s.push(c) =~= s + seq![c]);
    assert(seq![c].drop_first() =~= Seq::<char>::empty());
    assert(encode_utf8(seq![c]) =~= encode_scalar(c as u32)) by {
        reveal_with_fuel(encode_utf8, 2);
    }
}

/// Line breaks add up over a concatenation.
pub proof fn lemma_newlines_concat(a: Seq<char>, b: Seq<char>)
    ensures
        newlines(a + b) == newlines(a) + newlines(b),
    decreases b.len(),
{
    if b.len() == 0 {
        assert(a + b =~= a);
    } else {
        lemma_newlines_concat(a, b.drop_last());
        assert((a + b).drop_last() =~= a + b.drop_last());
    }
}

/// One more character adds one line break if it is `'\n'`, and none otherwise.
pub proof fn lemma_newlines_push(s: Seq<char>, c: char)
    ensures
        newlines(s.push(c)) == newlines(s) + if c == '\n' {
            1nat
        } else {
            0nat
        },
{
    assert(s.push(c).drop_last() =~= s);
}

/// A text has at most as many line breaks as characters, and at least as many
/// bytes.
pub proof fn lemma_measures_bounded(s: Seq<char>)
    ensures
        newlines(s) <= s.len() <= byte_len(s),
    decreases s.len(),
{
    if s.len() > 0 {
        lemma_measures_bounded(s.drop_last());
        lemma_byte_len_push(s.drop_last(), s.last());
        lemma_utf8_width_bounds(s.last());
        assert(s.drop_last().push(s.last()) =~= s);
    }
}

/// The measures of a prefix `s.take(i)` grow with `i`.
pub proof fn lemma_measures_monotonic(s: Seq<char>, i: int, j: int)
    requires
        0 <= i <= j <= s.len(),
    ensures
        byte_len(s.take(i)) <= byte_len(s.take(j)),
        newlines(s.take(i)) <= newlines(s.take(j)),
        byte_len(s.take(j)) == byte_len(s.take(i)) + byte_len(s.subrange(i, j)),
        newlines(s.take(j)) == newlines(s.take(i)) + newlines(s.subrange(i, j)),
{
    assert(s.take(j) =~= s.take(i) + s.subrange(i, j));
    lemma_byte_len_concat(s.take(i), s.subrange(i, j));
    lemma_newlines_concat(s.take(i), s.subrange(i, j));
}

} // verus!
