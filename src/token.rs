use vstd::prelude::*;
use crate::model::Lexeme;
use crate::position::Position;

verus! {

/// The kinds of token: two kinds of number and six single characters.
#[allow(non_camel_case_types)]
#[derive(Debug, Clone, Copy, PartialEq, Eq, Structural)]
pub enum TokenType {
    INT,
    FLOAT,
    PLUS,
    MINUS,
    MUL,
    DIV,
    LPAREN,
    RPAREN,
}

impl TokenType {
    /// Numbers carry their text; the other kinds carry none.
    pub open spec fn is_number(self) -> bool {
        self == TokenType::INT || self == TokenType::FLOAT
    }
}

/// One lexeme: its kind, its text where it is a number, and the positions
/// of its first character and of the character after it.
#[derive(Debug)]
pub struct Token {
    pub type_: TokenType,
    pub value: Option<String>,
    pub pos_start: Position,
    pub pos_end: Position,
}

impl Token {
    /// This token is the lexeme `lx` of the text `text`, from the source
    /// named `name`: same kind, same span, and for a number the characters
    /// of the span as its value.
    pub open spec fn models(&self, name: Seq<char>, text: Seq<char>, lx: Lexeme) -> bool {
        &&& self.type_ == lx.kind
        &&& self.pos_start.is_at(name, text, lx.start)
        &&& self.pos_end.is_at(name, text, lx.end)
        &&& if lx.kind.is_number() {
            self.value matches Some(v) && v@ == text.subrange(lx.start, lx.end)
        } else {
            self.value is None
        }
    }

    pub fn new(type_: TokenType, value: Option<String>, pos_start: Position, pos_end: Position) -> (r: Self)
        ensures
            r.type_ == type_,
            r.value == value,
            r.pos_start == pos_start,
            r.pos_end == pos_end,
    {
        Token { type_, value, pos_start, pos_end }
    }
}

} // verus!
