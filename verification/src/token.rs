//! Tokens as handed over by the lexical scanner.

use vstd::prelude::*;

verus! {

/// Lexical category of a token.  The scanner reports lexical errors as
/// tokens of the `Error` category whose lexeme carries the message, and
/// signals end of input only through an `Eof` token.
#[derive(Clone, Copy, PartialEq, Eq, Structural, Debug)]
pub enum TokenKind {
    LeftParen,
    RightParen,
    LeftBrace,
    RightBrace,
    Comma,
    Dot,
    Minus,
    Plus,
    Semicolon,
    Slash,
    Star,
    Bang,
    BangEqual,
    Equal,
    EqualEqual,
    Greater,
    GreaterEqual,
    Less,
    LessEqual,
    Identifier,
    Str,
    Number,
    And,
    Class,
    Else,
    False,
    For,
    Fun,
    If,
    Nil,
    Or,
    Print,
    Return,
    Super,
    This,
    True,
    Var,
    While,
    Error,
    Eof,
}

/// One token of source text: its category, its lexeme, and the source line
/// it came from.
#[derive(Debug)]
pub struct Token {
    pub kind: TokenKind,
    pub lexeme: String,
    pub line: u32,
}

impl Token {
    /// Placeholder held by a parser before its first advance.
    pub fn new() -> (t: Token)
        ensures
            t.kind == TokenKind::Eof,
            t.lexeme@ == Seq::<char>::empty(),
            t.line == 0,
    {
        Token { kind: TokenKind::Eof, lexeme: String::new(), line: 0 }
    }
}

impl Clone for Token {
    fn clone(&self) -> (t: Token)
        ensures
            t == *self,
    {
        Token { kind: self.kind, lexeme: self.lexeme.clone(), line: self.line }
    }
}

/// What the scanner guarantees of a single token: a string literal always
/// carries its two enclosing quote characters.
pub open spec fn token_wf(t: Token) -> bool {
    t.kind == TokenKind::Str ==> t.lexeme@.len() >= 2
}

/// What the scanner guarantees of a whole stream.
pub open spec fn tokens_wf(ts: Seq<Token>) -> bool {
    forall|i: int| 0 <= i < ts.len() ==> #[trigger] token_wf(ts[i])
}

} // verus!
