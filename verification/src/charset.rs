//! Byte classes of the language, and runs of bytes of one class.
use vstd::prelude::*;

verus! {

/// The value that stands for "no byte here": the cursor is past the end.
pub const END_OF_INPUT: u8 = 0;

/// Letters are the ASCII letters and the underscore. Digits are not letters.
pub open spec fn spec_is_letter(ch: u8) -> bool {
    ||| 'a' as u8 <= ch <= 'z' as u8
    ||| 'A' as u8 <= ch <= 'Z' as u8
    ||| ch == '_' as u8
}

#[verifier::when_used_as_spec(spec_is_letter)]
pub fn is_letter(ch: u8) -> (r: bool)
    ensures
        r == spec_is_letter(ch),
{
    'a' as u8 <= ch && ch <= 'z' as u8 || 'A' as u8 <= ch && ch <= 'Z' as u8 || ch == '_' as u8
}

/// Digits are the ten ASCII decimal digits.
pub open spec fn spec_is_digit(ch: u8) -> bool {
    '0' as u8 <= ch <= '9' as u8
}

#[verifier::when_used_as_spec(spec_is_digit)]
pub fn is_digit(ch: u8) -> (r: bool)
    ensures
        r == spec_is_digit(ch),
{
    '0' as u8 <= ch && ch <= '9' as u8
}

/// Whitespace is space, tab, line feed and carriage return.
pub open spec fn spec_is_whitespace(ch: u8) -> bool {
    ch == ' ' as u8 || ch == '\t' as u8 || ch == '\n' as u8 || ch == '\r' as u8
}

#[verifier::when_used_as_spec(spec_is_whitespace)]
pub fn is_whitespace(ch: u8) -> (r: bool)
    ensures
        r == spec_is_whitespace(ch),
{
    ch == ' ' as u8 || ch == '\t' as u8 || ch == '\n' as u8 || ch == '\r' as u8
}

/// The three classes of bytes that the scanner consumes in runs.
#[derive(Clone, Copy, Debug, PartialEq, Eq)]
pub enum CharClass {
    Whitespace,
    Letter,
    Digit,
}

impl CharClass {
    pub open spec fn spec_contains(self, ch: u8) -> bool {
        match self {
            CharClass::Whitespace => is_whitespace(ch),
            CharClass::Letter => is_letter(ch),
            CharClass::Digit => is_digit(ch),
        }
    }

    /// Whether `ch` belongs to the class.
    #[verifier::when_used_as_spec(spec_contains)]
    pub fn contains(self, ch: u8) -> (r: bool)
        ensures
            r == self.spec_contains(ch),
    {
        match self {
            CharClass::Whitespace => is_whitespace(ch),
            CharClass::Letter => is_letter(ch),
            CharClass::Digit => is_digit(ch),
        }
    }
}

/// The byte of `s` at index `i`, or `END_OF_INPUT` where `s` has none.
pub open spec fn byte_at(s: Seq<u8>, i: int) -> u8 {
    if 0 <= i < s.len() {
        s[i]
    } else {
        END_OF_INPUT
    }
}

/// The index just behind the longest run of bytes of `class` that starts at
/// `from`: the first index at or after `from` whose byte is not in `class`.
pub open spec fn run_end(s: Seq<u8>, from: int, class: CharClass) -> int
    decreases s.len() - from,
{
    if 0 <= from < s.len() && class.contains(s[from]) {
        run_end(s, from + 1, class)
    } else {
        from
    }
}

/// `run_end` is the one index `e` at or after `from` such that every byte in
/// `from..e` is in the class and the byte at `e`, if any, is not.
pub proof fn lemma_run_end(s: Seq<u8>, from: int, class: CharClass)
    requires
        0 <= from <= s.len(),
    ensures
        from <= run_end(s, from, class) <= s.len(),
        forall|i: int| from <= i < run_end(s, from, class) ==> class.contains(#[trigger] s[i]),
        !class.contains(byte_at(s, run_end(s, from, class))),
    decreases s.len() - from,
{
    if from < s.len() && class.contains(s[from]) {
        lemma_run_end(s, from + 1, class);
    }
}

/// Any index with the two properties of `lemma_run_end` is `run_end`.
pub proof fn lemma_run_end_unique(s: Seq<u8>, from: int, class: CharClass, e: int)
    requires
        0 <= from <= e <= s.len(),
        forall|i: int| from <= i < e ==> class.contains(#[trigger] s[i]),
        !class.contains(byte_at(s, e)),
    ensures
        run_end(s, from, class) == e,
    decreases e - from,
{
    if from < e {
        lemma_run_end_unique(s, from + 1, class, e);
    }
}

/// The text that a stretch of source bytes stands for: each byte read as the
/// character with that code. For ASCII bytes that is the text as it was
/// written; a byte outside ASCII is shown as the character of the same code.
pub open spec fn text_of(bytes: Seq<u8>) -> Seq<char> {
    Seq::new(bytes.len(), |i: int| bytes[i] as char)
}

} // verus!
