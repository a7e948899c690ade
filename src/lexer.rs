use vstd::prelude::*;
use crate::chars::{is_digit, is_digit_char, is_white_space_char, operator_kind};
use crate::error::{Error, ILLEGAL_CHARACTER};
use crate::model::{Lexeme, lemma_number_run_bounded, lex, lex_from, number_kind, number_run, prefixed};
use crate::position::{Position, lemma_line_col_bounded};
use crate::token::{Token, TokenType};

verus! {

/// `out` is what the lexer hands back for the outcome `expected` of the
/// rules on the text `text` from the source named `name`: all the tokens and
/// no error, or no token and the one error.
pub open spec fn outcome_models(
    out: (Vec<Token>, Option<Error>),
    name: Seq<char>,
    text: Seq<char>,
    expected: Result<Seq<Lexeme>, int>,
) -> bool {
    match expected {
        Ok(lexemes) => {
            &&& out.1 is None
            &&& out.0.len() == lexemes.len()
            &&& forall|k: int| 0 <= k < lexemes.len() ==> #[trigger] out.0@[k].models(name, text, lexemes[k])
        },
        Err(i) => {
            &&& out.0.len() == 0
            &&& out.1 matches Some(e) && e.reports_illegal(name, text, i)
        },
    }
}

/// The character at offset `i` of `text` in single quotes.
fn quoted(text: &str, i: usize) -> (r: String)
    requires
        i < text@.len() <= usize::MAX,
    ensures
        r@ == seq!['\'', text@[i as int], '\''],
{
    let mut r = String::from_str("'");
    r.append(text.substring_char(i, i + 1));
    r.append("'");
    proof {
        reveal_strlit("'");
        assert(r@ =~= seq!['\'', text@[i as int], '\'']);
    }
    r
}

/// Joining a lexeme to those already taken, before what the rest of the
/// text gives, changes nothing in the whole.
proof fn lemma_prefixed_push(done: Seq<Lexeme>, lx: Lexeme, rest: Result<Seq<Lexeme>, int>)
    ensures
        prefixed(done, prefixed(seq![lx], rest)) == prefixed(done.push(lx), rest),
{
    if let Ok(r) = rest {
        assert(done + (seq![lx] + r) =~= done.push(lx) + r);
    }
}

/// A scanner over one source text, with its cursor and the character under
/// the cursor.
pub struct Lexer {
    pub fn_name: String,
    pub text: String,
    /// The characters of `text`, one per entry.
    pub chars: Vec<char>,
    pub pos: Position,
    pub current_char: Option<char>,
}

impl Lexer {
    /// The cursor stands at a place of the text, and `current_char` is the
    /// character there, or none past the end.
    pub open spec fn wf(&self) -> bool {
        &&& self.chars@ == self.text@
        &&& self.pos.idx <= self.chars.len()
        &&& self.pos.is_at(self.fn_name@, self.text@, self.pos.idx as int)
        &&& self.current_char == if self.pos.idx < self.chars.len() {
            Some(self.chars@[self.pos.idx as int])
        } else {
            None
        }
    }

    /// A lexer over `text` with its cursor on the first character.
    pub fn new(fn_name: &str, text: &str) -> (r: Self)
        ensures
            r.wf(),
            r.fn_name@ == fn_name@,
            r.text@ == text@,
            r.pos.idx == 0,
    {
        let n = text.unicode_len();
        let mut chars: Vec<char> = Vec::new();
        let mut i: usize = 0;
        while i < n
            invariant
                n == text@.len(),
                i <= n,
                chars@ == text@.take(i as int),
            decreases n - i,
        {
            chars.push(text.get_char(i));
            i += 1;
            proof {
                assert(chars@ =~= text@.take(i as int));
            }
        }
        proof {
            assert(chars@ =~= text@);
        }
        let current_char = if n > 0 {
            Some(chars[0])
        } else {
            None
        };
        Lexer {
            fn_name: String::from_str(fn_name),
            text: String::from_str(text),
            chars,
            pos: Position::new(0, 0, 0, fn_name, text),
            current_char,
        }
    }

    /// The lexeme of the number that starts at offset `i`.
    pub open spec fn number_at(s: Seq<char>, i: int) -> Lexeme {
        let end = i + number_run(s, i, false);
        Lexeme { kind: number_kind(s.subrange(i, end)), start: i, end }
    }

    /// Scans the number under the cursor: digits with at most one decimal
    /// point. A second point ends the number and stays under the cursor.
    pub fn make_number(&mut self) -> (r: Result<Token, Error>)
        requires
            old(self).wf(),
            old(self).current_char matches Some(c) && is_digit(c),
        ensures
            final(self).wf(),
            final(self).fn_name == old(self).fn_name,
            final(self).text == old(self).text,
            final(self).chars == old(self).chars,
            final(self).pos.idx == Self::number_at(old(self).text@, old(self).pos.idx as int).end,
            r matches Ok(t) && t.models(
                old(self).fn_name@,
                old(self).text@,
                Self::number_at(old(self).text@, old(self).pos.idx as int),
            ),
    {
        let ghost s = self.text@;
        let ghost name = self.fn_name;
        let ghost text = self.text;
        let ghost chars = self.chars;
        let pos_start = self.pos.copy();
        let start = self.pos.idx;
        let mut dot_count: usize = 0;
        loop
            invariant
                self.wf(),
                self.fn_name == name,
                self.text == text,
                self.chars == chars,
                s == text@,
                start <= self.pos.idx,
                dot_count <= 1,
                self.pos.idx + number_run(s, self.pos.idx as int, dot_count == 1) == start
                    + number_run(s, start as int, false),
                (dot_count == 1) == s.subrange(start as int, self.pos.idx as int).contains('.'),
            ensures
                number_run(s, self.pos.idx as int, dot_count == 1) == 0,
            decreases self.chars.len() - self.pos.idx,
        {
            let ghost i = self.pos.idx as int;
            match self.current_char {
                None => break,
                Some(c) => {
                    if c == '.' {
                        if dot_count == 1 {
                            break;
                        }
                        dot_count = 1;
                    } else if !is_digit_char(c) {
                        break;
                    }
                    self.advance();
                    proof {
                        let sub = s.subrange(start as int, i + 1);
                        assert(sub =~= s.subrange(start as int, i).push(c));
                        if c == '.' {
                            assert(sub[sub.len() - 1] == '.');
                        } else if sub.contains('.') {
                            let k = choose|k: int| 0 <= k < sub.len() && sub[k] == '.';
                            assert(s.subrange(start as int, i)[k] == '.');
                        }
                    }
                },
            }
        }
        let num_str = String::from_str(self.text.as_str().substring_char(start, self.pos.idx));
        let kind = if dot_count == 0 {
            TokenType::INT
        } else {
            TokenType::FLOAT
        };
        Ok(Token::new(kind, Some(num_str), pos_start, self.pos.copy()))
    }

    /// Scans the text from the cursor to its end: all its tokens, or the
    /// first character that no rule takes as the one error.
    pub fn make_tokens(&mut self) -> (r: (Vec<Token>, Option<Error>))
        requires
            old(self).wf(),
        ensures
            outcome_models(
                r,
                old(self).fn_name@,
                old(self).text@,
                lex_from(old(self).text@, old(self).pos.idx as int),
            ),
    {
        let ghost s = self.text@;
        let ghost name = self.fn_name;
        let ghost text = self.text;
        let ghost chars = self.chars;
        let ghost i0 = self.pos.idx as int;
        let ghost mut done: Seq<Lexeme> = Seq::empty();
        let mut tokens: Vec<Token> = Vec::new();
        proof {
            assert(done + Seq::<Lexeme>::empty() =~= Seq::<Lexeme>::empty());
            assert(prefixed(done, lex_from(s, i0)) == lex_from(s, i0)) by {
                if let Ok(r) = lex_from(s, i0) {
                    assert(done + r =~= r);
                }
            }
        }
        loop
            invariant
                self.wf(),
                self.fn_name == name,
                self.text == text,
                self.chars == chars,
                s == text@,
                name == old(self).fn_name,
                text == old(self).text,
                i0 == old(self).pos.idx,
                lex_from(s, i0) == prefixed(done, lex_from(s, self.pos.idx as int)),
                tokens.len() == done.len(),
                forall|k: int| 0 <= k < done.len() ==> #[trigger] tokens@[k].models(name@, s, done[k]),
            ensures
                self.pos.idx == self.chars.len(),
            decreases self.chars.len() - self.pos.idx,
        {
            let ghost i = self.pos.idx as int;
            let c = match self.current_char {
                None => break,
                Some(c) => c,
            };
            if is_white_space_char(c) {
                self.advance();
            } else if is_digit_char(c) {
                proof {
                    lemma_number_run_bounded(s, i + 1, false);
                }
                let ghost lx = Self::number_at(s, i);
                match self.make_number() {
                    Ok(token) => {
                        tokens.push(token);
                        proof {
                            lemma_prefixed_push(done, lx, lex_from(s, lx.end));
                            done = done.push(lx);
                        }
                    },
                    Err(error) => return (Vec::new(), Some(error)),
                }
            } else if let Some(kind) = operator_kind(c) {
                let pos_start = self.pos.copy();
                self.advance();
                let token = Token::new(kind, None, pos_start, self.pos.copy());
                tokens.push(token);
                proof {
                    let lx = Lexeme { kind, start: i, end: i + 1 };
                    lemma_prefixed_push(done, lx, lex_from(s, i + 1));
                    done = done.push(lx);
                }
            } else {
                let pos_start = self.pos.copy();
                let idx = self.pos.idx;
                self.advance();
                let details = quoted(self.text.as_str(), idx);
                let error = Error::new(pos_start, self.pos.copy(), ILLEGAL_CHARACTER, details.as_str());
                return (Vec::new(), Some(error));
            }
        }
        proof {
            assert(done + Seq::<Lexeme>::empty() =~= done);
        }
        (tokens, None)
    }

    /// Moves the cursor past the character under it.
    pub fn advance(&mut self)
        requires
            old(self).wf(),
            old(self).current_char is Some,
        ensures
            final(self).wf(),
            final(self).pos.idx == old(self).pos.idx + 1,
            final(self).fn_name == old(self).fn_name,
            final(self).text == old(self).text,
            final(self).chars == old(self).chars,
    {
        proof {
            lemma_line_col_bounded(self.text@, self.pos.idx as int);
        }
        self.pos.advance(self.current_char);
        self.current_char = if self.pos.idx < self.chars.len() {
            Some(self.chars[self.pos.idx])
        } else {
            None
        };
    }
}

/// Tokenizes all of `text`, from the source named `fn_name`.
pub fn run(fn_name: &str, text: &str) -> (r: (Vec<Token>, Option<Error>))
    ensures
        outcome_models(r, fn_name@, text@, lex(text@)),
{
    let mut lexer = Lexer::new(fn_name, text);
    lexer.make_tokens()
}

} // verus!
