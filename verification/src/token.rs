//! The token vocabulary and the resolution of identifier text to keywords.

use vstd::prelude::*;
use crate::laws::lemma_keyword_precedence;

verus! {

/// One lexical unit.
#[derive(Debug)]
pub enum Token {
    // Special
    Illegal,
    EndOfFile,
    // Literals
    Ident(String),
    Integer(String),
    // Operators
    Assign,
    Declare,
    Plus,
    Minus,
    Bang,
    Asterisk,
    Slash,
    LowerThan,
    GreaterThan,
    Equal,
    NotEqual,
    // Delimiters
    Comma,
    Colon,
    LeftParenthesis,
    RightParenthesis,
    LeftBrace,
    RightBrace,
    // Keywords
    Function,
    True,
    False,
    If,
    Else,
    Return,
}

/// The mathematical value of a [`Token`]: the same variants, with the text of
/// an identifier or integer literal as a sequence of characters.
pub enum TokenView {
    Illegal,
    EndOfFile,
    Ident(Seq<char>),
    Integer(Seq<char>),
    Assign,
    Declare,
    Plus,
    Minus,
    Bang,
    Asterisk,
    Slash,
    LowerThan,
    GreaterThan,
    Equal,
    NotEqual,
    Comma,
    Colon,
    LeftParenthesis,
    RightParenthesis,
    LeftBrace,
    RightBrace,
    Function,
    True,
    False,
    If,
    Else,
    Return,
}

impl View for Token {
    type V = TokenView;

    open spec fn view(&self) -> TokenView {
        match self {
            Token::Illegal => TokenView::Illegal,
            Token::EndOfFile => TokenView::EndOfFile,
            Token::Ident(text) => TokenView::Ident(text@),
            Token::Integer(text) => TokenView::Integer(text@),
            Token::Assign => TokenView::Assign,
            Token::Declare => TokenView::Declare,
            Token::Plus => TokenView::Plus,
            Token::Minus => TokenView::Minus,
            Token::Bang => TokenView::Bang,
            Token::Asterisk => TokenView::Asterisk,
            Token::Slash => TokenView::Slash,
            Token::LowerThan => TokenView::LowerThan,
            Token::GreaterThan => TokenView::GreaterThan,
            Token::Equal => TokenView::Equal,
            Token::NotEqual => TokenView::NotEqual,
            Token::Comma => TokenView::Comma,
            Token::Colon => TokenView::Colon,
            Token::LeftParenthesis => TokenView::LeftParenthesis,
            Token::RightParenthesis => TokenView::RightParenthesis,
            Token::LeftBrace => TokenView::LeftBrace,
            Token::RightBrace => TokenView::RightBrace,
            Token::Function => TokenView::Function,
            Token::True => TokenView::True,
            Token::False => TokenView::False,
            Token::If => TokenView::If,
            Token::Else => TokenView::Else,
            Token::Return => TokenView::Return,
        }
    }
}

impl PartialEq for Token {
    /// Two tokens are equal when they are the same variant and, for an
    /// identifier or an integer literal, carry the same text.
    fn eq(&self, other: &Token) -> (equal: bool) {
        match (self, other) {
            (Token::Ident(text), Token::Ident(other_text)) => *text == *other_text,
            (Token::Integer(text), Token::Integer(other_text)) => *text == *other_text,
            (Token::Illegal, Token::Illegal) => true,
            (Token::EndOfFile, Token::EndOfFile) => true,
            (Token::Assign, Token::Assign) => true,
            (Token::Declare, Token::Declare) => true,
            (Token::Plus, Token::Plus) => true,
            (Token::Minus, Token::Minus) => true,
            (Token::Bang, Token::Bang) => true,
            (Token::Asterisk, Token::Asterisk) => true,
            (Token::Slash, Token::Slash) => true,
            (Token::LowerThan, Token::LowerThan) => true,
            (Token::GreaterThan, Token::GreaterThan) => true,
            (Token::Equal, Token::Equal) => true,
            (Token::NotEqual, Token::NotEqual) => true,
            (Token::Comma, Token::Comma) => true,
            (Token::Colon, Token::Colon) => true,
            (Token::LeftParenthesis, Token::LeftParenthesis) => true,
            (Token::RightParenthesis, Token::RightParenthesis) => true,
            (Token::LeftBrace, Token::LeftBrace) => true,
            (Token::RightBrace, Token::RightBrace) => true,
            (Token::Function, Token::Function) => true,
            (Token::True, Token::True) => true,
            (Token::False, Token::False) => true,
            (Token::If, Token::If) => true,
            (Token::Else, Token::Else) => true,
            (Token::Return, Token::Return) => true,
            _ => false,
        }
    }
}

impl vstd::std_specs::cmp::PartialEqSpecImpl for Token {
    open spec fn obeys_eq_spec() -> bool {
        true
    }

    open spec fn eq_spec(&self, other: &Token) -> bool {
        self@ == other@
    }
}

impl Default for Token {
    /// The token to hold before the scanner has produced one: the illegal
    /// token.
    fn default() -> (token: Token)
        ensures
            token@ == TokenView::Illegal,
    {
        Token::Illegal
    }
}

/// Whether `text` is one of the six reserved words.
pub open spec fn is_reserved_word(text: Seq<char>) -> bool {
    ||| text == "def"@
    ||| text == "true"@
    ||| text == "false"@
    ||| text == "if"@
    ||| text == "else"@
    ||| text == "return"@
}

/// The token for identifier text: the keyword when `text` is a reserved word,
/// letter for letter, and otherwise an identifier that carries `text` as it is.
pub open spec fn classify_identifier(text: Seq<char>) -> TokenView {
    if text == "def"@ {
        TokenView::Function
    } else if text == "true"@ {
        TokenView::True
    } else if text == "false"@ {
        TokenView::False
    } else if text == "if"@ {
        TokenView::If
    } else if text == "else"@ {
        TokenView::Else
    } else if text == "return"@ {
        TokenView::Return
    } else {
        TokenView::Ident(text)
    }
}

/// Resolves identifier text to its keyword token, or to an identifier token
/// that holds the text unchanged. The match is exact and case-sensitive, and
/// every text has a token: a reserved word never comes back as an
/// identifier, and no other text comes back as a keyword.
pub fn lookup_ident(ident: &str) -> (token: Token)
    ensures
        token@ == classify_identifier(ident@),
        is_reserved_word(ident@) <==> !(token@ is Ident),
        token@ matches TokenView::Ident(text) ==> text == ident@,
{
    proof {
        lemma_keyword_precedence(ident@);
    }
    if ident.eq("def") {
        Token::Function
    } else if ident.eq("true") {
        Token::True
    } else if ident.eq("false") {
        Token::False
    } else if ident.eq("if") {
        Token::If
    } else if ident.eq("else") {
        Token::Else
    } else if ident.eq("return") {
        Token::Return
    } else {
        Token::Ident(ident.to_string())
    }
}

} // verus!
