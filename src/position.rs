use vstd::prelude::*;

verus! {

/// Number of line breaks among the first `i` characters of `s`: the line
/// (counted from 0) of the character at offset `i`.
pub open spec fn line_at(s: Seq<char>, i: int) -> nat
    decreases i,
{
    if i <= 0 {
        0
    } else {
        line_at(s, i - 1) + if s[i - 1] == '\n' {
            1nat
        } else {
            0nat
        }
    }
}

/// Number of characters between the last line break before offset `i` and
/// offset `i`: the column (counted from 0) of the character at offset `i`.
pub open spec fn col_at(s: Seq<char>, i: int) -> nat
    decreases i,
{
    if i <= 0 {
        0
    } else if s[i - 1] == '\n' {
        0
    } else {
        col_at(s, i - 1) + 1
    }
}

/// Neither the line nor the column of an offset exceeds the offset.
pub proof fn lemma_line_col_bounded(s: Seq<char>, i: int)
    requires
        0 <= i,
    ensures
        line_at(s, i) <= i,
        col_at(s, i) <= i,
    decreases i,
{
    if i > 0 {
        lemma_line_col_bounded(s, i - 1);
    }
}

/// A place in a source text: offset, line and column, all counted from 0,
/// with the name and the text of the source.
#[derive(Debug)]
pub struct Position {
    pub idx: usize,
    pub ln: usize,
    pub col: usize,
    pub fn_name: String,
    pub ftxt: String,
}

impl Position {
    /// This position is offset `i` of the text `text`, from the source named
    /// `name`.
    pub open spec fn is_at(&self, name: Seq<char>, text: Seq<char>, i: int) -> bool {
        &&& self.idx == i
        &&& self.ln == line_at(text, i)
        &&& self.col == col_at(text, i)
        &&& self.fn_name@ == name
        &&& self.ftxt@ == text
    }

    pub fn new(idx: usize, ln: usize, col: usize, fn_name: &str, ftxt: &str) -> (r: Self)
        ensures
            r.idx == idx,
            r.ln == ln,
            r.col == col,
            r.fn_name@ == fn_name@,
            r.ftxt@ == ftxt@,
    {
        Position {
            idx,
            ln,
            col,
            fn_name: String::from_str(fn_name),
            ftxt: String::from_str(ftxt),
        }
    }

    /// Moves past `current_char`: one offset and one column on, or to the
    /// start of the next line where it is a line break.
    pub fn advance(&mut self, current_char: Option<char>)
        requires
            old(self).idx < usize::MAX,
            old(self).ln < usize::MAX,
            old(self).col < usize::MAX,
        ensures
            final(self).idx == old(self).idx + 1,
            final(self).ln == if current_char == Some('\n') {
                old(self).ln + 1
            } else {
                old(self).ln as int
            },
            final(self).col == if current_char == Some('\n') {
                0
            } else {
                old(self).col + 1
            },
            final(self).fn_name == old(self).fn_name,
            final(self).ftxt == old(self).ftxt,
    {
        self.idx += 1;
        self.col += 1;
        if let Some('\n') = current_char {
            self.ln += 1;
            self.col = 0;
        }
    }

    /// An independent copy, which later moves of `self` leave as it is.
    pub fn copy(&self) -> (r: Self)
        ensures
            r.idx == self.idx,
            r.ln == self.ln,
            r.col == self.col,
            r.fn_name@ == self.fn_name@,
            r.ftxt@ == self.ftxt@,
    {
        Position {
            idx: self.idx,
            ln: self.ln,
            col: self.col,
            fn_name: self.fn_name.clone(),
            ftxt: self.ftxt.clone(),
        }
    }
}

} // verus!
