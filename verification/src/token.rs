//! Tokens, their categories and the literal values they carry.

use vstd::prelude::*;

verus! {

/// The category of a token.
#[derive(Debug, Clone, Copy, PartialEq, Eq, Structural)]
pub enum TokenType {
    LeftParen,
    RightParen,
    LeftBrace,
    RightBrace,
    Comma,
    Dot,
    Semicolon,
    Slash,
    Minus,
    Plus,
    Star,
    Bang,
    BangEqual,
    Equal,
    EqualEqual,
    Greater,
    GreaterEqual,
    Less,
    LessEqual,
    Identifier,
    String,
    Number,
    Class,
    Nil,
    Fun,
    Return,
    This,
    Super,
    If,
    Else,
    And,
    True,
    False,
    Or,
    For,
    While,
    Var,
    Print,
    Eof,
}

/// The decoded value that a token carries.
///
/// A number is held as its decimal numeral, exactly as it stands in the
/// source: a run of digits, optionally followed by a point and another run
/// of digits.  The scanner gives numbers, strings and `Nil`; the two truth
/// values are for the stages behind it.
#[derive(Debug, PartialEq, Eq)]
pub enum Object {
    Num(String),
    Str(String),
    Nil,
    True,
    False,
}

/// What an [`Object`] stands for in specifications.
pub ghost enum ObjectView {
    Num(Seq<char>),
    Str(Seq<char>),
    Nil,
    True,
    False,
}

impl View for Object {
    type V = ObjectView;

    open spec fn view(&self) -> ObjectView {
        match self {
            Object::Num(text) => ObjectView::Num(text@),
            Object::Str(text) => ObjectView::Str(text@),
            Object::Nil => ObjectView::Nil,
            Object::True => ObjectView::True,
            Object::False => ObjectView::False,
        }
    }
}

impl Clone for Object {
    fn clone(&self) -> (copy: Object)
        ensures
            copy == *self,
    {
        match self {
            Object::Num(text) => Object::Num(text.clone()),
            Object::Str(text) => Object::Str(text.clone()),
            Object::Nil => Object::Nil,
            Object::True => Object::True,
            Object::False => Object::False,
        }
    }
}

/// The view of an optional literal.
pub open spec fn literal_view(literal: Option<Object>) -> Option<ObjectView> {
    match literal {
        Some(value) => Some(value@),
        None => None,
    }
}

/// A classified piece of source text.
#[derive(Debug, PartialEq, Eq)]
pub struct Token {
    pub ttype: TokenType,
    pub lexeme: String,
    pub literal: Option<Object>,
    pub line: usize,
}

/// What a [`Token`] stands for in specifications.
pub ghost struct TokenView {
    pub ttype: TokenType,
    pub lexeme: Seq<char>,
    pub literal: Option<ObjectView>,
    pub line: int,
}

impl View for Token {
    type V = TokenView;

    open spec fn view(&self) -> TokenView {
        TokenView {
            ttype: self.ttype,
            lexeme: self.lexeme@,
            literal: literal_view(self.literal),
            line: self.line as int,
        }
    }
}

impl Clone for Token {
    fn clone(&self) -> (copy: Token)
        ensures
            copy == *self,
    {
        let literal = match &self.literal {
            Some(value) => Some(value.clone()),
            None => None,
        };
        Token { ttype: self.ttype, lexeme: self.lexeme.clone(), literal, line: self.line }
    }
}

/// The views of a sequence of tokens, in the same order.
pub open spec fn token_views(tokens: Seq<Token>) -> Seq<TokenView> {
    tokens.map_values(|t: Token| t@)
}

/// The sentinel that ends every token sequence.
pub open spec fn eof_view(line: int) -> TokenView {
    TokenView { ttype: TokenType::Eof, lexeme: Seq::empty(), literal: Some(ObjectView::Nil), line }
}

impl Token {
    /// A token of its four parts.
    pub fn new(ttype: TokenType, lexeme: String, literal: Option<Object>, line: usize) -> (token:
        Token)
        ensures
            token == (Token { ttype, lexeme, literal, line }),
    {
        Token { ttype, lexeme, literal, line }
    }

    /// The end-of-input sentinel on line `line`: no lexeme, no value of
    /// its own.
    pub fn eof(line: usize) -> (token: Token)
        ensures
            token@ == eof_view(line as int),
    {
        Token { ttype: TokenType::Eof, lexeme: String::new(), literal: Some(Object::Nil), line }
    }
}

} // verus!
