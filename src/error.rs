use vstd::prelude::*;
use crate::position::Position;

verus! {

/// The category of an error on a character that no rule takes.
pub const ILLEGAL_CHARACTER: &'static str = "IllegalCharacter";

/// The character of the decimal digit `d`.
pub open spec fn digit_char(d: nat) -> char {
    (48 + d) as char
}

/// The decimal numeral of `n`, without leading zeros.
pub open spec fn decimal(n: nat) -> Seq<char>
    decreases n,
{
    if n < 10 {
        seq![digit_char(n)]
    } else {
        decimal(n / 10).push(digit_char(n % 10))
    }
}

/// Relies on `usize`'s `ToString` (through `Display`): the decimal numeral
/// of `n`.
#[verifier::external_body]
fn decimal_text(n: usize) -> (r: String)
    ensures
        r@ == decimal(n as nat),
{
    n.to_string()
}

/// A lexical failure: the span of the offending text, the category of the
/// failure and a detail for people to read.
#[derive(Debug)]
pub struct Error {
    pub pos_start: Position,
    pub pos_end: Position,
    pub error_name: String,
    pub details: String,
}

impl Error {
    /// This error reports the illegal character at offset `i` of the text
    /// `text`, from the source named `name`: its span is that one character
    /// and its detail is the character in single quotes.
    pub open spec fn reports_illegal(&self, name: Seq<char>, text: Seq<char>, i: int) -> bool {
        &&& self.pos_start.is_at(name, text, i)
        &&& self.pos_end.is_at(name, text, i + 1)
        &&& self.error_name@ == ILLEGAL_CHARACTER@
        &&& self.details@ == seq!['\'', text[i], '\'']
    }

    pub fn new(pos_start: Position, pos_end: Position, error_name: &str, details: &str) -> (r: Self)
        ensures
            r.pos_start == pos_start,
            r.pos_end == pos_end,
            r.error_name@ == error_name@,
            r.details@ == details@,
    {
        Error {
            pos_start,
            pos_end,
            error_name: String::from_str(error_name),
            details: String::from_str(details),
        }
    }

    /// The text `"{category}: {detail}\nFile {source name}, line {line}"`,
    /// with the line of the start counted from 1.
    pub open spec fn text(&self) -> Seq<char> {
        self.error_name@ + ": "@ + self.details@ + "\nFile "@ + self.pos_start.fn_name@
            + ", line "@ + decimal((self.pos_start.ln + 1) as nat)
    }

    pub fn as_string(&self) -> (r: String)
        requires
            self.pos_start.ln < usize::MAX,
        ensures
            r@ == self.text(),
    {
        let mut r = String::from_str(self.error_name.as_str());
        r.append(": ");
        r.append(self.details.as_str());
        r.append("\nFile ");
        r.append(self.pos_start.fn_name.as_str());
        r.append(", line ");
        let line = decimal_text(self.pos_start.ln + 1);
        r.append(line.as_str());
        r
    }
}

} // verus!
