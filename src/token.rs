use vstd::prelude::*;

verus! {

/// A classified unit of rule source text.
#[derive(Debug, PartialEq, Clone)]
pub enum Token {
    // Keywords
    Rule,
    Trigger,
    Transform,
    Match,
    Action,
    Let,
    If,
    Else,
    Fn,
    Enum,
    For,
    In,
    Import,
    Return,
    // Literals
    Identifier(String),
    StringLiteral(String),
    /// The literal's decimal text as written: digits with at most one `.`.
    NumberLiteral(String),
    // Operators
    Assign,  // =
    Plus,  // +
    Minus,  // -
    Asterisk,  // *
    Slash,  // /
    Percent,  // %
    Equal,  // ==
    NotEqual,  // !=
    Less,  // <
    LessEqual,  // <=
    Greater,  // >
    GreaterEqual,  // >=
    And,  // &&
    Or,  // ||
    Not,  // !
    // Delimiters
    LeftBrace,  // {
    RightBrace,  // }
    LeftParen,  // (
    RightParen,  // )
    LeftBracket,  // [
    RightBracket,  // ]
    Colon,  // :
    Semicolon,  // ;
    Comma,  // ,
    Dot,  // .
    /// End of input: exactly one, always last.
    EOF,
    /// Reserved; never produced by the lexer.
    Illegal,
}

/// A token as the specifications see it: payloads are character sequences.
pub enum TokenView {
    // Keywords
    Rule,
    Trigger,
    Transform,
    Match,
    Action,
    Let,
    If,
    Else,
    Fn,
    Enum,
    For,
    In,
    Import,
    Return,
    // Literals
    Identifier(Seq<char>),
    StringLiteral(Seq<char>),
    /// Decimal text: digits with at most one `.`.
    NumberLiteral(Seq<char>),
    // Operators
    Assign,  // =
    Plus,  // +
    Minus,  // -
    Asterisk,  // *
    Slash,  // /
    Percent,  // %
    Equal,  // ==
    NotEqual,  // !=
    Less,  // <
    LessEqual,  // <=
    Greater,  // >
    GreaterEqual,  // >=
    And,  // &&
    Or,  // ||
    Not,  // !
    // Delimiters
    LeftBrace,  // {
    RightBrace,  // }
    LeftParen,  // (
    RightParen,  // )
    LeftBracket,  // [
    RightBracket,  // ]
    Colon,  // :
    Semicolon,  // ;
    Comma,  // ,
    Dot,  // .
    /// End of input: exactly one, always last.
    EOF,
    /// Reserved; never produced by the lexer.
    Illegal,
}

impl View for Token {
    type V = TokenView;

    open spec fn view(&self) -> TokenView {
        match self {
            Token::Rule => TokenView::Rule,
            Token::Trigger => TokenView::Trigger,
            Token::Transform => TokenView::Transform,
            Token::Match => TokenView::Match,
            Token::Action => TokenView::Action,
            Token::Let => TokenView::Let,
            Token::If => TokenView::If,
            Token::Else => TokenView::Else,
            Token::Fn => TokenView::Fn,
            Token::Enum => TokenView::Enum,
            Token::For => TokenView::For,
            Token::In => TokenView::In,
            Token::Import => TokenView::Import,
            Token::Return => TokenView::Return,
            Token::Assign => TokenView::Assign,
            Token::Plus => TokenView::Plus,
            Token::Minus => TokenView::Minus,
            Token::Asterisk => TokenView::Asterisk,
            Token::Slash => TokenView::Slash,
            Token::Percent => TokenView::Percent,
            Token::Equal => TokenView::Equal,
            Token::NotEqual => TokenView::NotEqual,
            Token::Less => TokenView::Less,
            Token::LessEqual => TokenView::LessEqual,
            Token::Greater => TokenView::Greater,
            Token::GreaterEqual => TokenView::GreaterEqual,
            Token::And => TokenView::And,
            Token::Or => TokenView::Or,
            Token::Not => TokenView::Not,
            Token::LeftBrace => TokenView::LeftBrace,
            Token::RightBrace => TokenView::RightBrace,
            Token::LeftParen => TokenView::LeftParen,
            Token::RightParen => TokenView::RightParen,
            Token::LeftBracket => TokenView::LeftBracket,
            Token::RightBracket => TokenView::RightBracket,
            Token::Colon => TokenView::Colon,
            Token::Semicolon => TokenView::Semicolon,
            Token::Comma => TokenView::Comma,
            Token::Dot => TokenView::Dot,
            Token::EOF => TokenView::EOF,
            Token::Illegal => TokenView::Illegal,
            Token::Identifier(s) => TokenView::Identifier(s@),
            Token::StringLiteral(s) => TokenView::StringLiteral(s@),
            Token::NumberLiteral(s) => TokenView::NumberLiteral(s@),
        }
    }
}

/// The fixed, case-sensitive keyword table.
pub open spec fn keyword_of(w: Seq<char>) -> Option<TokenView> {
    if w == "rule"@ {
        Some(TokenView::Rule)
    } else if w == "trigger"@ {
        Some(TokenView::Trigger)
    } else if w == "transform"@ {
        Some(TokenView::Transform)
    } else if w == "match"@ {
        Some(TokenView::Match)
    } else if w == "action"@ {
        Some(TokenView::Action)
    } else if w == "let"@ {
        Some(TokenView::Let)
    } else if w == "if"@ {
        Some(TokenView::If)
    } else if w == "else"@ {
        Some(TokenView::Else)
    } else if w == "fn"@ {
        Some(TokenView::Fn)
    } else if w == "enum"@ {
        Some(TokenView::Enum)
    } else if w == "for"@ {
        Some(TokenView::For)
    } else if w == "in"@ {
        Some(TokenView::In)
    } else if w == "import"@ {
        Some(TokenView::Import)
    } else if w == "return"@ {
        Some(TokenView::Return)
    } else {
        None
    }
}

/// Operators and delimiters: the tokens that the scan loop, not the
/// dispatcher, steps over.
pub open spec fn is_operator_or_delimiter(t: TokenView) -> bool {
    matches!(t, TokenView::Assign | TokenView::Plus | TokenView::Minus | TokenView::Asterisk | TokenView::Slash | TokenView::Percent | TokenView::Equal | TokenView::NotEqual | TokenView::Less | TokenView::LessEqual | TokenView::Greater | TokenView::GreaterEqual | TokenView::And | TokenView::Or | TokenView::Not | TokenView::LeftBrace | TokenView::RightBrace | TokenView::LeftParen | TokenView::RightParen | TokenView::LeftBracket | TokenView::RightBracket | TokenView::Colon | TokenView::Semicolon | TokenView::Comma | TokenView::Dot)
}

pub fn is_operator_or_delimiter_token(t: &Token) -> (r: bool)
    ensures
        r == is_operator_or_delimiter(t@),
{
    match t {
        Token::Assign
        | Token::Plus
        | Token::Minus
        | Token::Asterisk
        | Token::Slash
        | Token::Percent
        | Token::Equal
        | Token::NotEqual
        | Token::Less
        | Token::LessEqual
        | Token::Greater
        | Token::GreaterEqual
        | Token::And
        | Token::Or
        | Token::Not
        | Token::LeftBrace
        | Token::RightBrace
        | Token::LeftParen
        | Token::RightParen
        | Token::LeftBracket
        | Token::RightBracket
        | Token::Colon
        | Token::Semicolon
        | Token::Comma
        | Token::Dot => true,
        _ => false,
    }
}

} // verus!
