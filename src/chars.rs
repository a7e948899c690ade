use vstd::prelude::*;
use crate::token::TokenType;

verus! {

/// A decimal digit, `0` to `9`.
pub open spec fn is_digit(c: char) -> bool {
    '0' <= c <= '9'
}

/// The characters of Unicode's White_Space property.
pub open spec fn is_white_space(c: char) -> bool {
    ||| '\u{9}' <= c <= '\u{D}'
    ||| c == ' '
    ||| c == '\u{85}'
    ||| c == '\u{A0}'
    ||| c == '\u{1680}'
    ||| '\u{2000}' <= c <= '\u{200A}'
    ||| c == '\u{2028}'
    ||| c == '\u{2029}'
    ||| c == '\u{202F}'
    ||| c == '\u{205F}'
    ||| c == '\u{3000}'
}

/// The kind of the token that the single character `c` makes, if any.
pub open spec fn operator_of(c: char) -> Option<TokenType> {
    if c == '+' {
        Some(TokenType::PLUS)
    } else if c == '-' {
        Some(TokenType::MINUS)
    } else if c == '*' {
        Some(TokenType::MUL)
    } else if c == '/' {
        Some(TokenType::DIV)
    } else if c == '(' {
        Some(TokenType::LPAREN)
    } else if c == ')' {
        Some(TokenType::RPAREN)
    } else {
        None
    }
}

pub fn is_digit_char(c: char) -> (r: bool)
    ensures
        r == is_digit(c),
{
    '0' <= c && c <= '9'
}

pub fn is_white_space_char(c: char) -> (r: bool)
    ensures
        r == is_white_space(c),
{
    ('\u{9}' <= c && c <= '\u{D}') || c == ' ' || c == '\u{85}' || c == '\u{A0}' || c == '\u{1680}'
        || ('\u{2000}' <= c && c <= '\u{200A}') || c == '\u{2028}' || c == '\u{2029}' || c
        == '\u{202F}' || c == '\u{205F}' || c == '\u{3000}'
}

pub fn operator_kind(c: char) -> (r: Option<TokenType>)
    ensures
        r == operator_of(c),
{
    if c == '+' {
        Some(TokenType::PLUS)
    } else if c == '-' {
        Some(TokenType::MINUS)
    } else if c == '*' {
        Some(TokenType::MUL)
    } else if c == '/' {
        Some(TokenType::DIV)
    } else if c == '(' {
        Some(TokenType::LPAREN)
    } else if c == ')' {
        Some(TokenType::RPAREN)
    } else {
        None
    }
}

} // verus!
