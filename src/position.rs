use vstd::prelude::*;

verus! {

/// Line (1-based) reached after consuming the first `i` characters of `s`.
pub open spec fn line_at(s: Seq<char>, i: nat) -> nat
    decreases i,
{
    if i == 0 {
        1
    } else if s[i - 1] == '\n' {
        line_at(s, (i - 1) as nat) + 1
    } else {
        line_at(s, (i - 1) as nat)
    }
}

/// Column (0-based) reached after consuming the first `i` characters of `s`.
pub open spec fn column_at(s: Seq<char>, i: nat) -> nat
    decreases i,
{
    if i == 0 {
        0
    } else if s[i - 1] == '\n' {
        0
    } else {
        column_at(s, (i - 1) as nat) + 1
    }
}

/// The line grows by at most one per consumed character, the column too.
pub proof fn lemma_position_bounds(s: Seq<char>, i: nat)
    ensures
        line_at(s, i) <= i + 1,
        column_at(s, i) <= i,
    decreases i,
{
    if i > 0 {
        lemma_position_bounds(s, (i - 1) as nat);
    }
}

/// Where the scanner stands in the source text.
pub struct TokenPosition {
    pub line: usize,
    pub column: usize,
}

impl TokenPosition {
    pub fn new(line: usize, column: usize) -> (r: Self)
        ensures
            r.line == line,
            r.column == column,
    {
        TokenPosition { line, column }
    }

    /// Steps over a newline: next line, first column.
    pub fn advance_line(&mut self)
        requires
            old(self).line < usize::MAX,
        ensures
            final(self).line == old(self).line + 1,
            final(self).column == 0,
    {
        self.line = self.line + 1;
        self.column = 0;
    }

    /// Steps over any other character.
    pub fn advance_column(&mut self)
        requires
            old(self).column < usize::MAX,
        ensures
            final(self).line == old(self).line,
            final(self).column == old(self).column + 1,
    {
        self.column = self.column + 1;
    }
}

} // verus!
