//! Tokens: the units the scanner hands to the compiler.
use vstd::prelude::*;
use vstd::std_specs::cmp::PartialEqSpecImpl;

verus! {

/// The kind of a token.
#[derive(PartialEq, Eq, Clone, Copy, Debug, Structural)]
pub enum TokenType {
    LeftParen,
    RightParen,
    LeftBrace,
    RightBrace,
    Comma,
    Dot,
    Minus,
    Plus,
    Semicolon,
    Slash,
    Star,
    Bang,
    BangEqual,
    Equal,
    EqualEqual,
    Greater,
    GreaterEqual,
    Less,
    LessEqual,
    Identifier,
    String,
    Number,
    And,
    Class,
    Else,
    False,
    Fn,
    For,
    If,
    Nil,
    Or,
    Print,
    Return,
    Super,
    This,
    True,
    Var,
    While,
    Error,
    EOF,
    Undefined,
}

/// A token: its kind, its text and the line it ends on. The text of an
/// `Error` token is the message that describes the fault.
#[derive(Debug)]
pub struct Token {
    pub token_type: TokenType,
    pub lexeme: String,
    pub line: usize,
}

/// The mathematical content of a [`Token`].
pub struct TokenView {
    pub kind: TokenType,
    pub lexeme: Seq<char>,
    pub line: usize,
}

impl View for Token {
    type V = TokenView;

    open spec fn view(&self) -> TokenView {
        TokenView { kind: self.token_type, lexeme: self.lexeme@, line: self.line }
    }
}

impl TokenView {
    /// The placeholder that fills a token buffer before anything is scanned.
    pub open spec fn undefined() -> TokenView {
        TokenView { kind: TokenType::Undefined, lexeme: Seq::empty(), line: 0 }
    }
}

impl Clone for Token {
    fn clone(&self) -> (copy: Self)
        ensures
            copy@ == self@,
    {
        Token { token_type: self.token_type, lexeme: self.lexeme.clone(), line: self.line }
    }
}

impl PartialEq for Token {
    /// Two tokens are equal when they are of the same kind.
    fn eq(&self, other: &Self) -> (same: bool) {
        self.token_type == other.token_type
    }
}

impl PartialEqSpecImpl for Token {
    open spec fn obeys_eq_spec() -> bool {
        true
    }

    open spec fn eq_spec(&self, other: &Self) -> bool {
        self.token_type == other.token_type
    }
}

impl Default for Token {
    fn default() -> (token: Self)
        ensures
            token@ == TokenView::undefined(),
    {
        Token { token_type: TokenType::Undefined, lexeme: String::new(), line: 0 }
    }
}

} // verus!
