//! Character classes and the runs of characters that lexemes are made of.

use vstd::prelude::*;

verus! {

/// A decimal digit, `0` to `9`.
pub open spec fn is_digit_char(c: char) -> bool {
    '0' <= c && c <= '9'
}

/// An ASCII letter or an underscore.
pub open spec fn is_alpha_char(c: char) -> bool {
    ('a' <= c && c <= 'z') || ('A' <= c && c <= 'Z') || c == '_'
}

/// A character that may continue an identifier.
pub open spec fn is_alphanumeric_char(c: char) -> bool {
    is_alpha_char(c) || is_digit_char(c)
}

/// The sets of characters that a lexeme is extended over.
#[derive(Debug, PartialEq, Eq, Structural, Copy, Clone)]
pub enum CharClass {
    /// Decimal digits.
    Digit,
    /// Letters, digits and underscores.
    Word,
    /// Everything but a line feed: the rest of a comment.
    CommentBody,
    /// Everything but a double quote: the inside of a string literal.
    StringBody,
}

impl CharClass {
    /// Whether `c` belongs to the class.
    pub open spec fn holds(self, c: char) -> bool {
        match self {
            CharClass::Digit => is_digit_char(c),
            CharClass::Word => is_alphanumeric_char(c),
            CharClass::CommentBody => c != '\n',
            CharClass::StringBody => c != '"',
        }
    }
}

/// The first position at or after `from` whose character is not in `class`,
/// or the length of `text` when every character from `from` on is in it.
pub open spec fn run_end(text: Seq<char>, from: int, class: CharClass) -> int
    decreases text.len() - from,
{
    if 0 <= from < text.len() && class.holds(text[from]) {
        run_end(text, from + 1, class)
    } else {
        from
    }
}

/// How many line feeds `text` holds.
pub open spec fn newlines(text: Seq<char>) -> nat
    decreases text.len(),
{
    if text.len() == 0 {
        0
    } else {
        newlines(text.drop_last()) + if text.last() == '\n' {
            1nat
        } else {
            0nat
        }
    }
}

/// Every character of `text` is a decimal digit.
pub open spec fn all_digits(text: Seq<char>) -> bool {
    forall|i: int| 0 <= i < text.len() ==> is_digit_char(#[trigger] text[i])
}

/// `text` is a decimal numeral: one or more digits, optionally followed by a
/// dot and one or more digits.
pub open spec fn is_numeral(text: Seq<char>) -> bool {
    ||| text.len() > 0 && all_digits(text)
    ||| exists|dot: int|
        0 < dot < text.len() - 1 && all_digits(#[trigger] text.take(dot)) && text[dot] == '.'
            && all_digits(text.skip(dot + 1))
}

/// A run ends between its start and the end of the text, covers only
/// characters of the class, and stops at the first character outside it.
pub proof fn lemma_run_end(text: Seq<char>, from: int, class: CharClass)
    requires
        0 <= from <= text.len(),
    ensures
        from <= run_end(text, from, class) <= text.len(),
        forall|i: int| from <= i < run_end(text, from, class) ==> class.holds(#[trigger] text[i]),
        run_end(text, from, class) < text.len() ==> !class.holds(text[run_end(text, from, class)]),
    decreases text.len() - from,
{
    if from < text.len() && class.holds(text[from]) {
        lemma_run_end(text, from + 1, class);
    }
}

/// Line feeds are counted piece by piece.
pub proof fn lemma_newlines_concat(a: Seq<char>, b: Seq<char>)
    ensures
        newlines(a + b) == newlines(a) + newlines(b),
    decreases b.len(),
{
    if b.len() == 0 {
        assert(a + b =~= a);
    } else {
        assert((a + b).drop_last() =~= a + b.drop_last());
        assert((a + b).last() == b.last());
        lemma_newlines_concat(a, b.drop_last());
    }
}

/// A text without line feeds counts none.
pub proof fn lemma_newlines_none(text: Seq<char>)
    requires
        forall|i: int| 0 <= i < text.len() ==> #[trigger] text[i] != '\n',
    ensures
        newlines(text) == 0,
    decreases text.len(),
{
    if text.len() > 0 {
        lemma_newlines_none(text.drop_last());
    }
}

/// A text holds no more line feeds than characters.
pub proof fn lemma_newlines_bound(text: Seq<char>)
    ensures
        newlines(text) <= text.len(),
    decreases text.len(),
{
    if text.len() > 0 {
        lemma_newlines_bound(text.drop_last());
    }
}

} // verus!
