use vstd::prelude::*;
use crate::chars::{is_digit, is_white_space, operator_of};
use crate::token::TokenType;
use vstd::math::min;

verus! {

/// A lexeme as the rules see it: its kind and the offsets of its first
/// character and of the character after it.
pub struct Lexeme {
    pub kind: TokenType,
    pub start: int,
    pub end: int,
}

/// How many characters from offset `i` on continue a number: digits, and
/// one decimal point unless `seen_point` says that one was taken already.
pub open spec fn number_run(s: Seq<char>, i: int, seen_point: bool) -> nat
    decreases s.len() - i,
{
    if 0 <= i < s.len() && (is_digit(s[i]) || (s[i] == '.' && !seen_point)) {
        1 + number_run(s, i + 1, seen_point || s[i] == '.')
    } else {
        0
    }
}

/// A run of number characters ends at the end of the text at the latest.
pub proof fn lemma_number_run_bounded(s: Seq<char>, i: int, seen_point: bool)
    requires
        0 <= i <= s.len(),
    ensures
        i + number_run(s, i, seen_point) <= s.len(),
    decreases s.len() - i,
{
    if i < s.len() {
        lemma_number_run_bounded(s, i + 1, seen_point || s[i] == '.');
    }
}

/// A number with a decimal point is a float; one without is an integer.
pub open spec fn number_kind(text: Seq<char>) -> TokenType {
    if text.contains('.') {
        TokenType::FLOAT
    } else {
        TokenType::INT
    }
}

/// Puts `front` before the lexemes of `r`; an error stays as it is.
pub open spec fn prefixed(front: Seq<Lexeme>, r: Result<Seq<Lexeme>, int>) -> Result<
    Seq<Lexeme>,
    int,
> {
    match r {
        Ok(rest) => Ok(front + rest),
        Err(e) => Err(e),
    }
}

/// The lexemes of `s` from offset `i` on, or the offset of the first
/// character that no rule takes. Whitespace is skipped; a digit starts a
/// number; each of `+ - * / ( )` is a lexeme of its own.
pub open spec fn lex_from(s: Seq<char>, i: int) -> Result<Seq<Lexeme>, int>
    decreases s.len() - i,
{
    if i < 0 || i >= s.len() {
        Ok(Seq::empty())
    } else if is_white_space(s[i]) {
        lex_from(s, i + 1)
    } else if is_digit(s[i]) {
        // a number never runs past the end of the text
        let end = min(i + 1 + number_run(s, i + 1, false), s.len() as int);
        let lexeme = Lexeme { kind: number_kind(s.subrange(i, end)), start: i, end };
        prefixed(seq![lexeme], lex_from(s, end))
    } else if operator_of(s[i]) is Some {
        let lexeme = Lexeme { kind: operator_of(s[i])->0, start: i, end: i + 1 };
        prefixed(seq![lexeme], lex_from(s, i + 1))
    } else {
        Err(i)
    }
}

/// The lexemes of all of `s`, or the offset of its first illegal character.
pub open spec fn lex(s: Seq<char>) -> Result<Seq<Lexeme>, int> {
    lex_from(s, 0)
}

} // verus!
