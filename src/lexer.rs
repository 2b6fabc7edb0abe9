use vstd::prelude::*;

use crate::text::{push_char, spells};
use crate::position::{column_at, lemma_position_bounds, line_at, TokenPosition};
use crate::token::{
    is_operator_or_delimiter, is_operator_or_delimiter_token, keyword_of, Token, TokenView,
};

verus! {

/// Why a scan stopped.
#[derive(Debug, Clone, Copy, PartialEq, Eq, Structural)]
pub enum LexErrorKind {
    UnexpectedCharacter,
    UnterminatedString,
    UnterminatedComment,
    InvalidEscapeSequence,
    InvalidNumberFormat,
    /// The identifier scanner was entered on a character it cannot consume.
    EmptyIdentifierContract,
}

/// Whether `char::is_alphanumeric` holds of `c`.
pub uninterp spec fn alphanumeric(c: char) -> bool;

/// Relies on `char::is_alphanumeric`: Unicode alphabetic or numeric.
#[verifier::external_body]
fn is_alphanumeric(c: char) -> (r: bool)
    ensures
        r == alphanumeric(c),
        (c as u32) < 128 ==> (r <==> (is_ascii_letter(c) || is_digit(c))),
{
    c.is_alphanumeric()
}

pub open spec fn is_whitespace(c: char) -> bool {
    c == ' ' || c == '\t' || c == '\r' || c == '\n'
}

pub open spec fn is_ascii_letter(c: char) -> bool {
    ('a' <= c <= 'z') || ('A' <= c <= 'Z')
}

pub open spec fn is_digit(c: char) -> bool {
    '0' <= c <= '9'
}

/// Characters that may continue an identifier or keyword.
pub open spec fn is_word_char(c: char) -> bool {
    alphanumeric(c) || c == '_'
}

/// Punctuation and arithmetic operators that are one character long, always.
pub open spec fn single_char_token(c: char) -> Option<TokenView> {
    if c == '(' {
        Some(TokenView::LeftParen)
    } else if c == ')' {
        Some(TokenView::RightParen)
    } else if c == '{' {
        Some(TokenView::LeftBrace)
    } else if c == '}' {
        Some(TokenView::RightBrace)
    } else if c == '[' {
        Some(TokenView::LeftBracket)
    } else if c == ']' {
        Some(TokenView::RightBracket)
    } else if c == ':' {
        Some(TokenView::Colon)
    } else if c == ';' {
        Some(TokenView::Semicolon)
    } else if c == ',' {
        Some(TokenView::Comma)
    } else if c == '.' {
        Some(TokenView::Dot)
    } else if c == '-' {
        Some(TokenView::Minus)
    } else if c == '+' {
        Some(TokenView::Plus)
    } else if c == '*' {
        Some(TokenView::Asterisk)
    } else if c == '%' {
        Some(TokenView::Percent)
    } else {
        None
    }
}

/// The character that an escape `\c` stands for inside a string literal.
pub open spec fn escape_of(c: char) -> Option<char> {
    if c == 'n' {
        Some('\n')
    } else if c == 'r' {
        Some('\r')
    } else if c == 't' {
        Some('\t')
    } else if c == '\\' {
        Some('\\')
    } else if c == '"' {
        Some('"')
    } else {
        None
    }
}

/// The character after position `i` is `c`.
pub open spec fn next_is(s: Seq<char>, i: nat, c: char) -> bool {
    i + 1 < s.len() && s[i + 1 as int] == c
}

/// End of the maximal run of word characters that starts at `i`.
pub open spec fn word_end(s: Seq<char>, i: nat) -> nat
    decreases s.len() - i,
{
    if i < s.len() && is_word_char(s[i as int]) {
        word_end(s, i + 1)
    } else {
        i
    }
}

/// The token for a word: its keyword, else an identifier holding it.
pub open spec fn word_token(w: Seq<char>) -> TokenView {
    match keyword_of(w) {
        Some(t) => t,
        None => TokenView::Identifier(w),
    }
}

/// End of the run of digits and dots from `i`, or the index of a dot that
/// would be the number's second one.
pub open spec fn number_end(s: Seq<char>, i: nat, seen_dot: bool) -> Result<nat, nat>
    decreases s.len() - i,
{
    if i < s.len() && is_digit(s[i as int]) {
        number_end(s, i + 1, seen_dot)
    } else if i < s.len() && s[i as int] == '.' {
        if seen_dot {
            Err(i)
        } else {
            number_end(s, i + 1, true)
        }
    } else {
        Ok(i)
    }
}

/// Scans a string literal's body from `i` with `acc` already unescaped:
/// the value and the index past the closing quote, or why and where it fails.
pub open spec fn string_end(s: Seq<char>, i: nat, acc: Seq<char>) -> Result<
    (Seq<char>, nat),
    (LexErrorKind, nat),
>
    decreases s.len() - i,
{
    if i >= s.len() {
        Err((LexErrorKind::UnterminatedString, s.len()))
    } else if s[i as int] == '"' {
        Ok((acc, i + 1))
    } else if s[i as int] == '\\' {
        if i + 1 >= s.len() {
            Err((LexErrorKind::UnterminatedString, s.len()))
        } else {
            match escape_of(s[i + 1 as int]) {
                Some(c) => string_end(s, i + 2, acc.push(c)),
                None => Err((LexErrorKind::InvalidEscapeSequence, i + 1)),
            }
        }
    } else {
        string_end(s, i + 1, acc.push(s[i as int]))
    }
}

/// First newline at or after `i`, or the end of input.
pub open spec fn line_end(s: Seq<char>, i: nat) -> nat
    decreases s.len() - i,
{
    if i < s.len() && s[i as int] != '\n' {
        line_end(s, i + 1)
    } else {
        i
    }
}

/// Index just past the first `*/` that starts at or after `i`, if any.
pub open spec fn block_comment_end(s: Seq<char>, i: nat) -> Option<nat>
    decreases s.len() - i,
{
    if i + 1 < s.len() {
        if s[i as int] == '*' && s[i + 1 as int] == '/' {
            Some(i + 2)
        } else {
            block_comment_end(s, i + 1)
        }
    } else {
        None
    }
}

/// What the dispatcher does at index `i`.
pub enum Step {
    /// A token, and the index after it.
    Emit(TokenView, nat),
    /// Whitespace or a comment, discarded, and the index after it.
    Skip(nat),
    /// End of input.
    End,
    /// A lexical error, and the index whose position it reports.
    Fail(LexErrorKind, nat),
}

/// A one- or two-character operator whose second character is `=`.
pub open spec fn pair_step(s: Seq<char>, i: nat, single: TokenView, double: TokenView) -> Step {
    if next_is(s, i, '=') {
        Step::Emit(double, i + 2)
    } else {
        Step::Emit(single, i + 1)
    }
}

pub open spec fn next_step(s: Seq<char>, i: nat) -> Step {
    if i >= s.len() {
        Step::End
    } else {
        let c = s[i as int];
        if single_char_token(c) is Some {
            Step::Emit(single_char_token(c)->Some_0, i + 1)
        } else if c == '/' {
            if next_is(s, i, '/') {
                Step::Skip(line_end(s, i + 2))
            } else if next_is(s, i, '*') {
                match block_comment_end(s, i + 2) {
                    Some(j) => Step::Skip(j),
                    None => Step::Fail(LexErrorKind::UnterminatedComment, s.len()),
                }
            } else {
                Step::Emit(TokenView::Slash, i + 1)
            }
        } else if c == '!' {
            pair_step(s, i, TokenView::Not, TokenView::NotEqual)
        } else if c == '=' {
            pair_step(s, i, TokenView::Assign, TokenView::Equal)
        } else if c == '<' {
            pair_step(s, i, TokenView::Less, TokenView::LessEqual)
        } else if c == '>' {
            pair_step(s, i, TokenView::Greater, TokenView::GreaterEqual)
        } else if is_whitespace(c) {
            Step::Skip(i + 1)
        } else if is_ascii_letter(c) {
            let j = word_end(s, i);
            if j == i {
                Step::Fail(LexErrorKind::EmptyIdentifierContract, i)
            } else {
                Step::Emit(word_token(s.subrange(i as int, j as int)), j)
            }
        } else if is_digit(c) {
            match number_end(s, i, false) {
                Ok(j) => Step::Emit(TokenView::NumberLiteral(s.subrange(i as int, j as int)), j),
                Err(k) => Step::Fail(LexErrorKind::InvalidNumberFormat, k),
            }
        } else if c == '"' {
            match string_end(s, i + 1, Seq::empty()) {
                Ok((v, j)) => Step::Emit(TokenView::StringLiteral(v), j),
                Err((k, p)) => Step::Fail(k, p),
            }
        } else {
            Step::Fail(LexErrorKind::UnexpectedCharacter, i)
        }
    }
}

/// The tokens that scanning `s` from index `i` produces, ending in `EOF`, or the
/// first error's kind and the index of its reported position.
pub open spec fn lex_from(s: Seq<char>, i: nat) -> Result<Seq<TokenView>, (LexErrorKind, nat)>
    decreases s.len() - i,
{
    match next_step(s, i) {
        Step::End => Ok(seq![TokenView::EOF]),
        Step::Fail(k, p) => Err((k, p)),
        Step::Skip(j) => if i < j <= s.len() {
            lex_from(s, j)
        } else {
            Err((LexErrorKind::UnexpectedCharacter, i))
        },
        Step::Emit(t, j) => if i < j <= s.len() {
            match lex_from(s, j) {
                Ok(ts) => Ok(seq![t] + ts),
                Err(e) => Err(e),
            }
        } else {
            Err((LexErrorKind::UnexpectedCharacter, i))
        },
    }
}

/// The whole token stream of `s`.
pub open spec fn lex(s: Seq<char>) -> Result<Seq<TokenView>, (LexErrorKind, nat)> {
    lex_from(s, 0)
}

/// A lexical error and the position (1-based line, 0-based column) where it
/// was detected.
#[derive(Debug, Clone)]
pub struct LexerError {
    pub kind: LexErrorKind,
    pub line: usize,
    pub column: usize,
}

/// Single-pass, fail-fast scanner over a sequence of characters.
pub struct Lexer {
    input: Vec<char>,
    index: usize,
    position: TokenPosition,
}

impl Lexer {
    /// The characters being scanned.
    pub closed spec fn source(&self) -> Seq<char> {
        self.input@
    }

    /// Index of the next unconsumed character.
    pub closed spec fn cursor(&self) -> nat {
        self.index as nat
    }

    /// The cursor lies within the input, and the tracked position is the one
    /// reached by consuming everything before it.
    pub closed spec fn wf(&self) -> bool {
        &&& self.index <= self.input.len()
        &&& self.input.len() < usize::MAX
        &&& self.position.line == line_at(self.input@, self.index as nat)
        &&& self.position.column == column_at(self.input@, self.index as nat)
    }

    pub fn new(input: Vec<char>) -> (r: Self)
        requires
            input.len() < usize::MAX,
        ensures
            r.wf(),
            r.source() == input@,
            r.cursor() == 0,
    {
        Lexer { input, index: 0, position: TokenPosition::new(1, 0) }
    }

    /// The character under the cursor, if any.
    fn current(&self) -> (r: Option<char>)
        requires
            self.wf(),
        ensures
            r == (if self.cursor() < self.source().len() {
                Some(self.source()[self.cursor() as int])
            } else {
                None
            }),
    {
        if self.index < self.input.len() {
            Some(self.input[self.index])
        } else {
            None
        }
    }

    /// The character after the one under the cursor, if any.
    fn peek(&self) -> (r: Option<char>)
        requires
            self.wf(),
        ensures
            r == (if self.cursor() + 1 < self.source().len() {
                Some(self.source()[self.cursor() + 1 as int])
            } else {
                None
            }),
    {
        if self.index + 1 < self.input.len() {
            Some(self.input[self.index + 1])
        } else {
            None
        }
    }

    /// Consumes the character under the cursor, if any.
    fn advance(&mut self)
        requires
            old(self).wf(),
        ensures
            final(self).wf(),
            final(self).source() == old(self).source(),
            final(self).cursor() == if old(self).cursor() < old(self).source().len() {
                old(self).cursor() + 1
            } else {
                old(self).cursor()
            },
    {
        if self.index < self.input.len() {
            proof {
                lemma_position_bounds(self.input@, self.index as nat);
            }
            if self.input[self.index] == '\n' {
                self.position.advance_line();
            } else {
                self.position.advance_column();
            }
            self.index = self.index + 1;
        }
    }

    /// Consumes the character under the cursor exactly when the next one is
    /// `expected`; otherwise changes nothing.
    fn match_next(&mut self, expected: char) -> (r: bool)
        requires
            old(self).wf(),
        ensures
            final(self).wf(),
            final(self).source() == old(self).source(),
            r == next_is(old(self).source(), old(self).cursor(), expected),
            final(self).cursor() == if r {
                old(self).cursor() + 1
            } else {
                old(self).cursor()
            },
    {
        match self.peek() {
            Some(ch) => {
                if ch == expected {
                    self.advance();
                    true
                } else {
                    false
                }
            },
            None => false,
        }
    }

    /// An error of `kind` at the cursor's position.
    fn error_here(&self, kind: LexErrorKind) -> (e: LexerError)
        requires
            self.wf(),
        ensures
            e.kind == kind,
            e.line == line_at(self.source(), self.cursor()),
            e.column == column_at(self.source(), self.cursor()),
    {
        LexerError { kind, line: self.position.line, column: self.position.column }
    }
}

/// `e` is an error of `kind` reported at the position of index `p` of `s`.
pub open spec fn reports(e: LexerError, s: Seq<char>, kind: LexErrorKind, p: nat) -> bool {
    &&& e.kind == kind
    &&& e.line == line_at(s, p)
    &&& e.column == column_at(s, p)
}

/// Looks a word up in the keyword table.
fn keyword(text: &String) -> (r: Option<Token>)
    ensures
        match r {
            Some(t) => keyword_of(text@) == Some(t@),
            None => keyword_of(text@) is None,
        },
{
    if spells(text, "rule") {
        Some(Token::Rule)
    } else if spells(text, "trigger") {
        Some(Token::Trigger)
    } else if spells(text, "transform") {
        Some(Token::Transform)
    } else if spells(text, "match") {
        Some(Token::Match)
    } else if spells(text, "action") {
        Some(Token::Action)
    } else if spells(text, "let") {
        Some(Token::Let)
    } else if spells(text, "if") {
        Some(Token::If)
    } else if spells(text, "else") {
        Some(Token::Else)
    } else if spells(text, "fn") {
        Some(Token::Fn)
    } else if spells(text, "enum") {
        Some(Token::Enum)
    } else if spells(text, "for") {
        Some(Token::For)
    } else if spells(text, "in") {
        Some(Token::In)
    } else if spells(text, "import") {
        Some(Token::Import)
    } else if spells(text, "return") {
        Some(Token::Return)
    } else {
        None
    }
}

/// The token of a character that forms a token on its own.
fn single_char(c: char) -> (r: Option<Token>)
    ensures
        match r {
            Some(t) => single_char_token(c) == Some(t@),
            None => single_char_token(c) is None,
        },
{
    match c {
        '(' => Some(Token::LeftParen),
        ')' => Some(Token::RightParen),
        '{' => Some(Token::LeftBrace),
        '}' => Some(Token::RightBrace),
        '[' => Some(Token::LeftBracket),
        ']' => Some(Token::RightBracket),
        ':' => Some(Token::Colon),
        ';' => Some(Token::Semicolon),
        ',' => Some(Token::Comma),
        '.' => Some(Token::Dot),
        '-' => Some(Token::Minus),
        '+' => Some(Token::Plus),
        '*' => Some(Token::Asterisk),
        '%' => Some(Token::Percent),
        _ => None,
    }
}

/// The escape table of string literals.
fn unescape(c: char) -> (r: Option<char>)
    ensures
        r == escape_of(c),
{
    match c {
        'n' => Some('\n'),
        'r' => Some('\r'),
        't' => Some('\t'),
        '\\' => Some('\\'),
        '"' => Some('"'),
        _ => None,
    }
}

impl Lexer {
    /// Consumes the maximal run of word characters under the cursor and
    /// classifies it as a keyword or an identifier.
    fn scan_identifier_or_keyword(&mut self) -> (r: Result<Token, LexerError>)
        requires
            old(self).wf(),
        ensures
            final(self).wf(),
            final(self).source() == old(self).source(),
            ({
                let s = old(self).source();
                let i = old(self).cursor();
                let j = word_end(s, i);
                if j == i {
                    r is Err && reports(r->Err_0, s, LexErrorKind::EmptyIdentifierContract, i)
                        && final(self).cursor() == i
                } else {
                    r is Ok && r->Ok_0@ == word_token(s.subrange(i as int, j as int))
                        && final(self).cursor() == j
                }
            }),
    {
        let ghost s = self.input@;
        let start = self.index;
        let mut identifier = String::new();
        loop
            invariant
                self.wf(),
                self.input@ == s,
                s == old(self).input@,
                start == old(self).index,
                start <= self.index,
                identifier@ == s.subrange(start as int, self.index as int),
                word_end(s, start as nat) == word_end(s, self.index as nat),
            ensures
                self.wf(),
                self.input@ == s,
                s == old(self).input@,
                start == old(self).index,
                start <= self.index,
                identifier@ == s.subrange(start as int, self.index as int),
                word_end(s, start as nat) == self.index,
            decreases s.len() - self.index,
        {
            match self.current() {
                Some(ch) => {
                    if is_alphanumeric(ch) || ch == '_' {
                        push_char(&mut identifier, ch);
                        self.advance();
                        assert(identifier@ =~= s.subrange(start as int, self.index as int));
                    } else {
                        break;
                    }
                },
                None => break,
            }
        }
        if self.index == start {
            return Err(self.error_here(LexErrorKind::EmptyIdentifierContract));
        }
        match keyword(&identifier) {
            Some(t) => Ok(t),
            None => Ok(Token::Identifier(identifier)),
        }
    }

    /// Consumes a run of digits holding at most one `.`.
    fn scan_number(&mut self) -> (r: Result<Token, LexerError>)
        requires
            old(self).wf(),
        ensures
            final(self).wf(),
            final(self).source() == old(self).source(),
            ({
                let s = old(self).source();
                let i = old(self).cursor();
                match number_end(s, i, false) {
                    Ok(j) => r is Ok && r->Ok_0@ == TokenView::NumberLiteral(
                        s.subrange(i as int, j as int),
                    ) && final(self).cursor() == j,
                    Err(k) => r is Err && reports(
                        r->Err_0,
                        s,
                        LexErrorKind::InvalidNumberFormat,
                        k,
                    ) && final(self).cursor() == k,
                }
            }),
    {
        let ghost s = self.input@;
        let start = self.index;
        let mut number = String::new();
        let mut has_dot = false;
        loop
            invariant
                self.wf(),
                self.input@ == s,
                s == old(self).input@,
                start == old(self).index,
                start <= self.index,
                number@ == s.subrange(start as int, self.index as int),
                number_end(s, start as nat, false) == number_end(s, self.index as nat, has_dot),
            ensures
                self.wf(),
                self.input@ == s,
                s == old(self).input@,
                start == old(self).index,
                start <= self.index,
                number@ == s.subrange(start as int, self.index as int),
                number_end(s, start as nat, false) == Ok::<nat, nat>(self.index as nat),
            decreases s.len() - self.index,
        {
            match self.current() {
                Some(ch) => {
                    if '0' <= ch && ch <= '9' {
                        push_char(&mut number, ch);
                        self.advance();
                    } else if ch == '.' {
                        if has_dot {
                            return Err(self.error_here(LexErrorKind::InvalidNumberFormat));
                        }
                        has_dot = true;
                        push_char(&mut number, ch);
                        self.advance();
                    } else {
                        break;
                    }
                    assert(number@ =~= s.subrange(start as int, self.index as int));
                },
                None => break,
            }
        }
        Ok(Token::NumberLiteral(number))
    }

    /// Consumes a string literal, opening and closing quotes included, and
    /// unescapes its body.
    fn scan_string(&mut self) -> (r: Result<Token, LexerError>)
        requires
            old(self).wf(),
            old(self).cursor() < old(self).source().len(),
        ensures
            final(self).wf(),
            final(self).source() == old(self).source(),
            ({
                let s = old(self).source();
                let i = old(self).cursor();
                match string_end(s, i + 1, Seq::empty()) {
                    Ok((v, j)) => r is Ok && r->Ok_0@ == TokenView::StringLiteral(v)
                        && final(self).cursor() == j,
                    Err((k, p)) => r is Err && reports(r->Err_0, s, k, p) && final(self).cursor()
                        == p,
                }
            }),
    {
        let ghost s = self.input@;
        let ghost start = self.index as nat;
        assert(start == old(self).cursor());
        let mut string = String::new();
        self.advance();
        loop
            invariant
                self.wf(),
                self.input@ == s,
                s == old(self).input@,
                start == old(self).index,
                string_end(s, start + 1, Seq::empty()) == string_end(
                    s,
                    self.index as nat,
                    string@,
                ),
            decreases s.len() - self.index,
        {
            match self.current() {
                None => {
                    return Err(self.error_here(LexErrorKind::UnterminatedString));
                },
                Some(ch) => {
                    if ch == '"' {
                        self.advance();
                        return Ok(Token::StringLiteral(string));
                    } else if ch == '\\' {
                        self.advance();
                        match self.current() {
                            Some(escaped) => {
                                match unescape(escaped) {
                                    Some(c) => push_char(&mut string, c),
                                    None => {
                                        return Err(
                                            self.error_here(LexErrorKind::InvalidEscapeSequence),
                                        );
                                    },
                                }
                                self.advance();
                            },
                            None => {
                                return Err(self.error_here(LexErrorKind::UnterminatedString));
                            },
                        }
                    } else {
                        push_char(&mut string, ch);
                        self.advance();
                    }
                },
            }
        }
    }

    /// With the cursor on the second `/` of `//`: consumes the comment up to,
    /// not including, the next newline.
    fn handle_single_line_comment(&mut self)
        requires
            old(self).wf(),
            old(self).cursor() < old(self).source().len(),
        ensures
            final(self).wf(),
            final(self).source() == old(self).source(),
            final(self).cursor() == line_end(old(self).source(), old(self).cursor() + 1),
    {
        let ghost s = self.input@;
        let ghost start = self.index as nat;
        assert(start == old(self).cursor());
        self.advance();
        loop
            invariant
                self.wf(),
                self.input@ == s,
                s == old(self).input@,
                start == old(self).index,
                line_end(s, start + 1) == line_end(s, self.index as nat),
            ensures
                self.wf(),
                self.input@ == s,
                s == old(self).input@,
                start == old(self).index,
                line_end(s, start + 1) == self.index,
            decreases s.len() - self.index,
        {
            match self.current() {
                Some(ch) => {
                    if ch == '\n' {
                        break;
                    }
                    self.advance();
                },
                None => break,
            }
        }
    }

    /// With the cursor on the `*` of `/*`: consumes the comment through the
    /// first `*/`.
    fn handle_multi_line_comment(&mut self) -> (r: Result<(), LexerError>)
        requires
            old(self).wf(),
            old(self).cursor() < old(self).source().len(),
        ensures
            final(self).wf(),
            final(self).source() == old(self).source(),
            match block_comment_end(old(self).source(), old(self).cursor() + 1) {
                Some(j) => r is Ok && final(self).cursor() == j,
                None => r is Err && reports(
                    r->Err_0,
                    old(self).source(),
                    LexErrorKind::UnterminatedComment,
                    old(self).source().len(),
                ) && final(self).cursor() == old(self).source().len(),
            },
    {
        let ghost s = self.input@;
        let ghost start = self.index as nat;
        assert(start == old(self).cursor());
        self.advance();
        loop
            invariant
                self.wf(),
                self.input@ == s,
                s == old(self).input@,
                start == old(self).index,
                block_comment_end(s, start + 1) == block_comment_end(s, self.index as nat),
            decreases s.len() - self.index,
        {
            match self.current() {
                None => {
                    return Err(self.error_here(LexErrorKind::UnterminatedComment));
                },
                Some(ch) => {
                    if ch == '*' {
                        if self.match_next('/') {
                            self.advance();
                            return Ok(());
                        }
                    }
                    self.advance();
                },
            }
        }
    }
}

impl Lexer {
    /// `!=` or `!`: consumes the `=` when it follows, leaving the cursor on
    /// the token's last character.
    fn handle_exclamation(&mut self) -> (r: Token)
        requires
            old(self).wf(),
        ensures
            final(self).wf(),
            final(self).source() == old(self).source(),
            pair_step(old(self).source(), old(self).cursor(), TokenView::Not, TokenView::NotEqual)
                == Step::Emit(r@, final(self).cursor() + 1),
    {
        if self.match_next('=') {
            Token::NotEqual
        } else {
            Token::Not
        }
    }

    /// `==` or `=`: consumes the `=` when it follows, leaving the cursor on
    /// the token's last character.
    fn handle_equal(&mut self) -> (r: Token)
        requires
            old(self).wf(),
        ensures
            final(self).wf(),
            final(self).source() == old(self).source(),
            pair_step(old(self).source(), old(self).cursor(), TokenView::Assign, TokenView::Equal)
                == Step::Emit(r@, final(self).cursor() + 1),
    {
        if self.match_next('=') {
            Token::Equal
        } else {
            Token::Assign
        }
    }

    /// `<=` or `<`: consumes the `=` when it follows, leaving the cursor on
    /// the token's last character.
    fn handle_less(&mut self) -> (r: Token)
        requires
            old(self).wf(),
        ensures
            final(self).wf(),
            final(self).source() == old(self).source(),
            pair_step(old(self).source(), old(self).cursor(), TokenView::Less, TokenView::LessEqual)
                == Step::Emit(r@, final(self).cursor() + 1),
    {
        if self.match_next('=') {
            Token::LessEqual
        } else {
            Token::Less
        }
    }

    /// `>=` or `>`: consumes the `=` when it follows, leaving the cursor on
    /// the token's last character.
    fn handle_greater(&mut self) -> (r: Token)
        requires
            old(self).wf(),
        ensures
            final(self).wf(),
            final(self).source() == old(self).source(),
            pair_step(old(self).source(), old(self).cursor(), TokenView::Greater, TokenView::GreaterEqual)
                == Step::Emit(r@, final(self).cursor() + 1),
    {
        if self.match_next('=') {
            Token::GreaterEqual
        } else {
            Token::Greater
        }
    }

    /// Produces the next token, `None` for discarded whitespace or comments,
    /// or the error that stops the scan.
    fn scan_token(&mut self) -> (r: Result<Option<Token>, LexerError>)
        requires
            old(self).wf(),
        ensures
            final(self).wf(),
            final(self).source() == old(self).source(),
            step_taken(old(self).source(), old(self).cursor(), r, final(self).cursor()),
    {
        let c = match self.current() {
            None => return Ok(Some(Token::EOF)),
            Some(c) => c,
        };
        match single_char(c) {
            Some(t) => {
                return Ok(Some(t));
            },
            None => {},
        }
        if c == '/' {
            if self.match_next('/') {
                self.handle_single_line_comment();
                return Ok(None);
            } else if self.match_next('*') {
                return match self.handle_multi_line_comment() {
                    Ok(()) => Ok(None),
                    Err(e) => Err(e),
                };
            } else {
                return Ok(Some(Token::Slash));
            }
        }
        if c == '!' || c == '=' || c == '<' || c == '>' {
            let t = if c == '!' {
                self.handle_exclamation()
            } else if c == '=' {
                self.handle_equal()
            } else if c == '<' {
                self.handle_less()
            } else {
                self.handle_greater()
            };
            return Ok(Some(t));
        }
        if c == ' ' || c == '\t' || c == '\r' || c == '\n' {
            self.advance();
            return Ok(None);
        }
        if ('a' <= c && c <= 'z') || ('A' <= c && c <= 'Z') {
            return match self.scan_identifier_or_keyword() {
                Ok(t) => Ok(Some(t)),
                Err(e) => Err(e),
            };
        }
        if '0' <= c && c <= '9' {
            return match self.scan_number() {
                Ok(t) => Ok(Some(t)),
                Err(e) => Err(e),
            };
        }
        if c == '"' {
            return match self.scan_string() {
                Ok(t) => Ok(Some(t)),
                Err(e) => Err(e),
            };
        }
        Err(self.error_here(LexErrorKind::UnexpectedCharacter))
    }
}

/// The outcome `r` of one dispatch from index `i`, which left the cursor at
/// `j`, is what `next_step` prescribes. An operator or delimiter leaves the
/// cursor on its last character, for the scan loop to step over; every other
/// token is consumed whole, and an error leaves the cursor where it is reported.
pub open spec fn step_taken(
    s: Seq<char>,
    i: nat,
    r: Result<Option<Token>, LexerError>,
    j: nat,
) -> bool {
    match next_step(s, i) {
        Step::End => r is Ok && r->Ok_0 is Some && r->Ok_0->Some_0@ == TokenView::EOF && j == i,
        Step::Emit(t, k) => r is Ok && r->Ok_0 is Some && r->Ok_0->Some_0@ == t && j == (if is_operator_or_delimiter(t) {
            k - 1
        } else {
            k as int
        }),
        Step::Skip(k) => r is Ok && r->Ok_0 is None && j == k,
        Step::Fail(kind, p) => r is Err && reports(r->Err_0, s, kind, p) && j == p,
    }
}

proof fn lemma_word_end(s: Seq<char>, i: nat)
    requires
        i <= s.len(),
    ensures
        i <= word_end(s, i) <= s.len(),
    decreases s.len() - i,
{
    if i < s.len() && is_word_char(s[i as int]) {
        lemma_word_end(s, i + 1);
    }
}

proof fn lemma_number_end(s: Seq<char>, i: nat, seen_dot: bool)
    requires
        i <= s.len(),
    ensures
        match number_end(s, i, seen_dot) {
            Ok(j) => i <= j <= s.len(),
            Err(k) => i <= k < s.len(),
        },
    decreases s.len() - i,
{
    if i < s.len() && (is_digit(s[i as int]) || (s[i as int] == '.' && !seen_dot)) {
        lemma_number_end(s, i + 1, seen_dot || s[i as int] == '.');
    }
}

proof fn lemma_string_end(s: Seq<char>, i: nat, acc: Seq<char>)
    requires
        i <= s.len(),
    ensures
        match string_end(s, i, acc) {
            Ok((v, j)) => i < j <= s.len(),
            Err((k, p)) => p <= s.len(),
        },
    decreases s.len() - i,
{
    if i < s.len() && s[i as int] != '"' {
        if s[i as int] == '\\' {
            if i + 1 < s.len() {
                match escape_of(s[i + 1 as int]) {
                    Some(c) => lemma_string_end(s, i + 2, acc.push(c)),
                    None => {},
                }
            }
        } else {
            lemma_string_end(s, i + 1, acc.push(s[i as int]));
        }
    }
}

proof fn lemma_line_end(s: Seq<char>, i: nat)
    requires
        i <= s.len(),
    ensures
        i <= line_end(s, i) <= s.len(),
    decreases s.len() - i,
{
    if i < s.len() && s[i as int] != '\n' {
        lemma_line_end(s, i + 1);
    }
}

proof fn lemma_block_comment_end(s: Seq<char>, i: nat)
    ensures
        match block_comment_end(s, i) {
            Some(j) => i + 2 <= j <= s.len(),
            None => true,
        },
    decreases s.len() - i,
{
    if i + 1 < s.len() && !(s[i as int] == '*' && s[i + 1 as int] == '/') {
        lemma_block_comment_end(s, i + 1);
    }
}

/// Each dispatch before the end of input consumes at least one character and
/// never yields `EOF`; errors are reported within the input.
proof fn lemma_step_progress(s: Seq<char>, i: nat)
    requires
        i <= s.len(),
    ensures
        match next_step(s, i) {
            Step::End => i == s.len(),
            Step::Emit(t, j) => i < j <= s.len() && t != TokenView::EOF,
            Step::Skip(j) => i < j <= s.len(),
            Step::Fail(k, p) => p <= s.len(),
        },
{
    if i < s.len() {
        lemma_word_end(s, i);
        lemma_number_end(s, i, false);
        lemma_string_end(s, i + 1, Seq::empty());
        if i + 2 <= s.len() {
            lemma_line_end(s, i + 2);
        }
        lemma_block_comment_end(s, i + 2);
        if is_digit(s[i as int]) {
            lemma_number_end(s, i + 1, false);
        }
    }
}

/// The views of a sequence of tokens.
pub open spec fn views(ts: Seq<Token>) -> Seq<TokenView> {
    ts.map_values(|t: Token| t@)
}

/// `r` with `p` put in front of its tokens.
pub open spec fn prepend(p: Seq<TokenView>, r: Result<Seq<TokenView>, (LexErrorKind, nat)>) -> Result<
    Seq<TokenView>,
    (LexErrorKind, nat),
> {
    match r {
        Ok(ts) => Ok(p + ts),
        Err(e) => Err(e),
    }
}

/// `r` is what scanning `s` from index `i` must give: the tokens of
/// `lex_from`, or its error at the line and column of the index it names.
pub open spec fn scanned(s: Seq<char>, i: nat, r: Result<Vec<Token>, LexerError>) -> bool {
    match lex_from(s, i) {
        Ok(ts) => r is Ok && views(r->Ok_0@) == ts,
        Err((k, p)) => r is Err && reports(r->Err_0, s, k, p),
    }
}

impl Lexer {
    /// Scans from the cursor to the end of input: every token in order, the
    /// last one `EOF`, or the first lexical error.
    pub fn scan(&mut self) -> (r: Result<Vec<Token>, LexerError>)
        requires
            old(self).wf(),
        ensures
            final(self).wf(),
            final(self).source() == old(self).source(),
            scanned(old(self).source(), old(self).cursor(), r),
            r is Err ==> final(self).cursor() == lex_from(old(self).source(), old(self).cursor())->Err_0.1,
    {
        let ghost s = self.input@;
        let ghost i0 = self.index as nat;
        let mut tokens: Vec<Token> = Vec::new();
        assert(views(tokens@) =~= Seq::<TokenView>::empty());
        assert(prepend(Seq::empty(), lex_from(s, i0)) == lex_from(s, i0)) by {
            match lex_from(s, i0) {
                Ok(ts) => assert(Seq::<TokenView>::empty() + ts =~= ts),
                Err(_) => {},
            }
        }
        loop
            invariant
                self.wf(),
                self.input@ == s,
                s == old(self).input@,
                i0 == old(self).index,
                i0 <= self.index,
                lex_from(s, i0) == prepend(views(tokens@), lex_from(s, self.index as nat)),
            decreases s.len() - self.index,
        {
            let ghost i = self.index as nat;
            let ghost before = tokens@;
            proof {
                lemma_step_progress(s, i);
            }
            match self.scan_token() {
                Err(e) => return Err(e),
                Ok(None) => {},
                Ok(Some(t)) => {
                    let done = match t {
                        Token::EOF => true,
                        _ => false,
                    };
                    let step_over = is_operator_or_delimiter_token(&t);
                    tokens.push(t);
                    if step_over {
                        self.advance();
                    }
                    proof {
                        assert(views(tokens@) =~= views(before).push(t@));
                        let j = self.index as nat;
                        if done {
                            assert(t@ == TokenView::EOF);
                            assert(views(before).push(t@) =~= views(before) + seq![TokenView::EOF]);
                        } else {
                            match lex_from(s, j) {
                                Ok(ts) => assert(views(before) + (seq![t@] + ts) =~= views(
                                    before,
                                ).push(t@) + ts),
                                Err(_) => {},
                            }
                        }
                    }
                    if done {
                        return Ok(tokens);
                    }
                },
            }
        }
    }
}

/// The human-readable message of each kind of error.
pub open spec fn message_of(kind: LexErrorKind) -> Seq<char> {
    match kind {
        LexErrorKind::UnexpectedCharacter => "Unexpected character"@,
        LexErrorKind::UnterminatedString => "Unterminated string literal"@,
        LexErrorKind::UnterminatedComment => "Unterminated multi-line comment"@,
        LexErrorKind::InvalidEscapeSequence => "Invalid escape sequence"@,
        LexErrorKind::InvalidNumberFormat => "Invalid number format"@,
        LexErrorKind::EmptyIdentifierContract => "Expected identifier"@,
    }
}

/// The decimal digit of `d`, for `d < 10`.
pub open spec fn digit_char(d: nat) -> char {
    if d == 0 {
        '0'
    } else if d == 1 {
        '1'
    } else if d == 2 {
        '2'
    } else if d == 3 {
        '3'
    } else if d == 4 {
        '4'
    } else if d == 5 {
        '5'
    } else if d == 6 {
        '6'
    } else if d == 7 {
        '7'
    } else if d == 8 {
        '8'
    } else {
        '9'
    }
}

/// Decimal notation of `n`, without leading zeros.
pub open spec fn decimal(n: nat) -> Seq<char>
    decreases n,
{
    if n < 10 {
        seq![digit_char(n)]
    } else {
        decimal(n / 10).push(digit_char(n % 10))
    }
}

fn digit(d: usize) -> (c: char)
    requires
        d < 10,
    ensures
        c == digit_char(d as nat),
{
    match d {
        0 => '0',
        1 => '1',
        2 => '2',
        3 => '3',
        4 => '4',
        5 => '5',
        6 => '6',
        7 => '7',
        8 => '8',
        _ => '9',
    }
}

/// Appends the decimal notation of `n`.
fn push_decimal(out: &mut String, n: usize)
    ensures
        final(out)@ == old(out)@ + decimal(n as nat),
    decreases n,
{
    if n >= 10 {
        push_decimal(out, n / 10);
    }
    push_char(out, digit(n % 10));
    proof {
        if n >= 10 {
            assert(old(out)@ + decimal(n as nat) =~= old(out)@ + decimal((n / 10) as nat) + seq![
                digit_char((n % 10) as nat),
            ]);
        }
    }
}

impl LexerError {
    pub fn new(kind: LexErrorKind, line: usize, column: usize) -> (r: Self)
        ensures
            r.kind == kind,
            r.line == line,
            r.column == column,
    {
        LexerError { kind, line, column }
    }

    pub fn message(&self) -> (r: String)
        ensures
            r@ == message_of(self.kind),
    {
        match self.kind {
            LexErrorKind::UnexpectedCharacter => String::from_str("Unexpected character"),
            LexErrorKind::UnterminatedString => String::from_str("Unterminated string literal"),
            LexErrorKind::UnterminatedComment => String::from_str(
                "Unterminated multi-line comment",
            ),
            LexErrorKind::InvalidEscapeSequence => String::from_str("Invalid escape sequence"),
            LexErrorKind::InvalidNumberFormat => String::from_str("Invalid number format"),
            LexErrorKind::EmptyIdentifierContract => String::from_str("Expected identifier"),
        }
    }

    /// `line: <line>, column: <column>` and, on the next line, the message.
    pub fn to_string(&self) -> (r: String)
        ensures
            r@ == "line: "@ + decimal(self.line as nat) + ", column: "@ + decimal(
                self.column as nat,
            ) + "\n"@ + message_of(self.kind),
    {
        let mut out = String::from_str("line: ");
        push_decimal(&mut out, self.line);
        out.append(", column: ");
        push_decimal(&mut out, self.column);
        out.append("\n");
        let message = self.message();
        out.append(message.as_str());
        out
    }
}

} // verus!
