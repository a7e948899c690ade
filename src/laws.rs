use vstd::prelude::*;
use crate::chars::{is_digit, is_white_space, operator_of};
use crate::model::{Lexeme, lemma_number_run_bounded, lex, lex_from, number_kind, number_run, prefixed};

verus! {

proof fn lemma_white_space_from(s: Seq<char>, i: int)
    requires
        forall|k: int| 0 <= k < s.len() ==> is_white_space(#[trigger] s[k]),
    ensures
        lex_from(s, i) == Ok::<Seq<Lexeme>, int>(Seq::empty()),
    decreases s.len() - i,
{
    if 0 <= i < s.len() {
        lemma_white_space_from(s, i + 1);
    }
}

/// A text of whitespace alone has no lexemes and no error.
pub proof fn white_space_gives_nothing(s: Seq<char>)
    requires
        forall|k: int| 0 <= k < s.len() ==> is_white_space(#[trigger] s[k]),
    ensures
        lex(s) == Ok::<Seq<Lexeme>, int>(Seq::empty()),
{
    lemma_white_space_from(s, 0);
}

proof fn lemma_number_to_end(s: Seq<char>, i: int, seen_point: bool)
    requires
        1 <= i <= s.len(),
        forall|k: int| 0 <= k < s.len() ==> is_digit(#[trigger] s[k]) || s[k] == '.',
        forall|a: int, b: int| 0 <= a < b < s.len() && s[a] == '.' ==> s[b] != '.',
        seen_point == s.subrange(0, i).contains('.'),
    ensures
        number_run(s, i, seen_point) == s.len() - i,
    decreases s.len() - i,
{
    if i < s.len() {
        let next = s.subrange(0, i + 1);
        assert(next =~= s.subrange(0, i).push(s[i]));
        if s[i] == '.' {
            assert(next[i] == '.');
            if seen_point {
                let k = choose|k: int| 0 <= k < i && s.subrange(0, i)[k] == '.';
                assert(s[k] == '.');
            }
        } else if next.contains('.') {
            let k = choose|k: int| 0 <= k < i + 1 && next[k] == '.';
            assert(s.subrange(0, i)[k] == '.');
        }
        lemma_number_to_end(s, i + 1, seen_point || s[i] == '.');
    }
}

/// Digits with at most one decimal point, starting with a digit, make one
/// number that spans the whole text: a float where there is a point, else
/// an integer.
pub proof fn number_gives_one_lexeme(s: Seq<char>)
    requires
        s.len() > 0,
        is_digit(s[0]),
        forall|k: int| 0 <= k < s.len() ==> is_digit(#[trigger] s[k]) || s[k] == '.',
        forall|a: int, b: int| 0 <= a < b < s.len() && s[a] == '.' ==> s[b] != '.',
    ensures
        lex(s) == Ok::<Seq<Lexeme>, int>(
            seq![Lexeme { kind: number_kind(s), start: 0, end: s.len() as int }],
        ),
{
    assert(!s.subrange(0, 1).contains('.')) by {
        if s.subrange(0, 1).contains('.') {
            assert(s.subrange(0, 1)[0] == '.');
        }
    }
    lemma_number_to_end(s, 1, false);
    assert(s.subrange(0, s.len() as int) =~= s);
    let lx = Lexeme { kind: number_kind(s), start: 0, end: s.len() as int };
    assert(!is_white_space(s[0]));
    assert(lex_from(s, s.len() as int) == Ok::<Seq<Lexeme>, int>(Seq::empty()));
    assert(seq![lx] + Seq::<Lexeme>::empty() =~= seq![lx]);
    assert(lex_from(s, 0) == prefixed(seq![lx], lex_from(s, s.len() as int)));
}

/// Each of `+ - * / ( )` alone makes one lexeme of its kind.
pub proof fn operator_gives_one_lexeme(c: char)
    requires
        operator_of(c) is Some,
    ensures
        lex(seq![c]) == Ok::<Seq<Lexeme>, int>(
            seq![Lexeme { kind: operator_of(c)->0, start: 0, end: 1 }],
        ),
{
    let lx = Lexeme { kind: operator_of(c)->0, start: 0, end: 1 };
    assert(lex_from(seq![c], 1) == Ok::<Seq<Lexeme>, int>(Seq::empty()));
    assert(seq![lx] + Seq::<Lexeme>::empty() =~= seq![lx]);
}

/// A character that no rule takes: not a digit, a decimal point,
/// whitespace or one of `+ - * / ( )`.
pub open spec fn is_foreign(c: char) -> bool {
    !is_digit(c) && c != '.' && !is_white_space(c) && operator_of(c) is None
}

proof fn lemma_number_chars(s: Seq<char>, i: int, seen_point: bool, m: int)
    requires
        0 <= i <= m < i + number_run(s, i, seen_point),
    ensures
        is_digit(s[m]) || s[m] == '.',
    decreases s.len() - i,
{
    if m > i {
        lemma_number_chars(s, i + 1, seen_point || s[i] == '.', m);
    }
}

proof fn lemma_error_shape(s: Seq<char>, k: int)
    requires
        0 <= k,
    ensures
        lex_from(s, k) matches Err(e) ==> {
            &&& k <= e < s.len()
            &&& !is_digit(s[e])
            &&& !is_white_space(s[e])
            &&& operator_of(s[e]) is None
        },
    decreases s.len() - k,
{
    if k < s.len() {
        if is_white_space(s[k]) {
            lemma_error_shape(s, k + 1);
        } else if is_digit(s[k]) {
            lemma_number_run_bounded(s, k + 1, false);
            lemma_error_shape(s, k + 1 + number_run(s, k + 1, false));
        } else if operator_of(s[k]) is Some {
            lemma_error_shape(s, k + 1);
        }
    }
}

proof fn lemma_error_no_later(s: Seq<char>, k: int, i: int)
    requires
        0 <= k <= i < s.len(),
        is_foreign(s[i]),
    ensures
        lex_from(s, k) matches Err(e) && e <= i,
    decreases s.len() - k,
{
    if k < i {
        if is_white_space(s[k]) {
            lemma_error_no_later(s, k + 1, i);
        } else if is_digit(s[k]) {
            lemma_number_run_bounded(s, k + 1, false);
            let end = k + 1 + number_run(s, k + 1, false);
            if end <= i {
                lemma_error_no_later(s, end, i);
            } else {
                lemma_number_chars(s, k + 1, false, i);
            }
        } else if operator_of(s[k]) is Some {
            lemma_error_no_later(s, k + 1, i);
        }
    }
}

/// A text that holds a character that no rule takes fails: the error
/// stands at that character or before it, on a character that is neither
/// a digit, whitespace nor an operator.
pub proof fn foreign_character_fails(s: Seq<char>, i: int)
    requires
        0 <= i < s.len(),
        is_foreign(s[i]),
    ensures
        lex(s) matches Err(e) && {
            &&& 0 <= e <= i
            &&& !is_digit(s[e])
            &&& !is_white_space(s[e])
            &&& operator_of(s[e]) is None
        },
{
    lemma_error_no_later(s, 0, i);
    lemma_error_shape(s, 0);
}

/// Every lexeme of `lexemes` lies within `lo..hi` and is not empty, and
/// each ends where or before the next one starts.
pub open spec fn spans_in_order(lexemes: Seq<Lexeme>, lo: int, hi: int) -> bool {
    &&& forall|a: int|
        0 <= a < lexemes.len() ==> lo <= #[trigger] lexemes[a].start < lexemes[a].end <= hi
    &&& forall|a: int, b: int|
        0 <= a < b < lexemes.len() ==> #[trigger] lexemes[a].end <= #[trigger] lexemes[b].start
}

proof fn lemma_spans_from(s: Seq<char>, k: int)
    requires
        0 <= k,
    ensures
        lex_from(s, k) matches Ok(lexemes) ==> spans_in_order(lexemes, k, s.len() as int),
    decreases s.len() - k,
{
    if k < s.len() {
        if is_white_space(s[k]) {
            lemma_spans_from(s, k + 1);
        } else if is_digit(s[k]) || operator_of(s[k]) is Some {
            let end = if is_digit(s[k]) {
                lemma_number_run_bounded(s, k + 1, false);
                k + 1 + number_run(s, k + 1, false)
            } else {
                k + 1
            };
            lemma_spans_from(s, end);
            if let Ok(lexemes) = lex_from(s, k) {
                let rest = lex_from(s, end)->Ok_0;
                assert(lexemes == seq![lexemes[0]] + rest);
                assert forall|a: int, b: int| 0 <= a < b < lexemes.len() implies
                    #[trigger] lexemes[a].end <= #[trigger] lexemes[b].start by {
                    assert(lexemes[b] == rest[b - 1]);
                    if a > 0 {
                        assert(lexemes[a] == rest[a - 1]);
                    }
                }
                assert forall|a: int| 0 <= a < lexemes.len() implies
                    k <= #[trigger] lexemes[a].start < lexemes[a].end <= s.len() by {
                    if a > 0 {
                        assert(lexemes[a] == rest[a - 1]);
                    }
                }
            }
        }
    }
}

/// The lexemes of a text come in the order of the text: none is empty, and
/// each ends where or before the next one starts.
pub proof fn lexemes_in_order(s: Seq<char>)
    ensures
        lex(s) matches Ok(lexemes) ==> spans_in_order(lexemes, 0, s.len() as int),
{
    lemma_spans_from(s, 0);
}

} // verus!
