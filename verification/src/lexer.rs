//! The scanner: a cursor over the source text that hands out one token per
//! call.

use vstd::prelude::*;
use crate::grammar::{
    after_first_token, first_token, leading_run, lemma_first_token_advances,
    lemma_leading_run_is_maximal, trim_start, CharClass,
};
use crate::symbol::{classified, classify, text_of, Symbol};
use crate::token::{lookup_ident, Token};

verus! {

/// A scanner over a source text. It only moves forward, and it keeps nothing
/// between calls but its place in the text.
pub struct Lexer {
    symbols: Vec<Symbol>,
    pos: usize,
}

impl Lexer {
    #[verifier::type_invariant]
    spec fn cursor_in_text(&self) -> bool {
        self.pos <= self.symbols.len()
    }

    /// The text that is left to read: the symbols from the cursor on.
    pub closed spec fn view(&self) -> Seq<Symbol> {
        self.symbols@.skip(self.pos as int)
    }

    /// A scanner at the start of `input`, with every character classified
    /// as the standard library classifies it.
    pub fn new(input: &str) -> (lexer: Lexer)
        ensures
            lexer@ == classified(input@),
    {
        Lexer::from_symbols(classify(input))
    }

    /// A scanner at the start of a text that is classified already.
    pub fn from_symbols(symbols: Vec<Symbol>) -> (lexer: Lexer)
        ensures
            lexer@ == symbols@,
    {
        Lexer { symbols, pos: 0 }
    }

    /// Takes the symbol under the cursor, if there is one.
    fn read_char(&mut self) -> (symbol: Option<Symbol>)
        ensures
            old(self)@.len() == 0 ==> symbol is None && final(self)@ == old(self)@,
            old(self)@.len() > 0 ==> symbol == Some(old(self)@[0]) && final(self)@ == old(
                self,
            )@.skip(1),
    {
        proof {
            use_type_invariant(&*self);
        }
        if self.pos < self.symbols.len() {
            let symbol = self.symbols[self.pos];
            self.pos = self.pos + 1;
            assert(self@ == old(self)@.skip(1));
            Some(symbol)
        } else {
            None
        }
    }

    /// The symbol under the cursor, which stays where it is.
    fn peek_char(&self) -> (symbol: Option<Symbol>)
        ensures
            self@.len() == 0 ==> symbol is None,
            self@.len() > 0 ==> symbol == Some(self@[0]),
    {
        proof {
            use_type_invariant(self);
        }
        if self.pos < self.symbols.len() {
            Some(self.symbols[self.pos])
        } else {
            None
        }
    }

    /// Whether the character under the cursor is `ch`.
    fn peek_char_eq(&self, ch: char) -> (found: bool)
        ensures
            found == (self@.len() > 0 && self@[0].ch == ch),
    {
        match self.peek_char() {
            Some(peek) => peek.ch == ch,
            None => false,
        }
    }

    /// Moves the cursor past the whitespace in front of it.
    fn skip_whitespace(&mut self)
        ensures
            final(self)@ == old(self)@.skip(leading_run(old(self)@, CharClass::Whitespace) as int),
    {
        let ghost mut skipped: int = 0;
        loop
            invariant
                0 <= skipped <= old(self)@.len(),
                self@ == old(self)@.skip(skipped),
                skipped + leading_run(self@, CharClass::Whitespace) == leading_run(
                    old(self)@,
                    CharClass::Whitespace,
                ),
            ensures
                self@ == old(self)@.skip(leading_run(old(self)@, CharClass::Whitespace) as int),
            decreases self@.len(),
        {
            match self.peek_char() {
                Some(peek) => {
                    if !peek.whitespace {
                        break;
                    }
                    self.read_char();
                    proof {
                        skipped = skipped + 1;
                        assert(self@ == old(self)@.skip(skipped));
                    }
                },
                None => {
                    break;
                },
            }
        }
    }

    /// Whether the character under the cursor is a letter.
    fn peek_is_letter(&self) -> (found: bool)
        ensures
            found == (self@.len() > 0 && self@[0].is_letter()),
    {
        match self.peek_char() {
            Some(peek) => is_letter(peek),
            None => false,
        }
    }

    /// Whether the character under the cursor is numeric.
    fn peek_is_number(&self) -> (found: bool)
        ensures
            found == (self@.len() > 0 && self@[0].numeric),
    {
        match self.peek_char() {
            Some(peek) => peek.numeric,
            None => false,
        }
    }

    /// Reads the rest of an identifier whose first character, `first`, has
    /// been taken already: every letter up to the first character that is
    /// none.
    fn read_identifier(&mut self, first: char) -> (ident: String)
        ensures
            ident@ == seq![first] + text_of(
                old(self)@.take(leading_run(old(self)@, CharClass::Letter) as int),
            ),
            final(self)@ == old(self)@.skip(leading_run(old(self)@, CharClass::Letter) as int),
    {
        let mut ident = String::new();
        ident.push(first);
        let ghost mut taken: int = 0;
        while self.peek_is_letter()
            invariant
                0 <= taken <= old(self)@.len(),
                self@ == old(self)@.skip(taken),
                ident@ == seq![first] + text_of(old(self)@.take(taken)),
                taken + leading_run(self@, CharClass::Letter) == leading_run(
                    old(self)@,
                    CharClass::Letter,
                ),
            decreases self@.len(),
        {
            let symbol = self.read_char();
            ident.push(symbol.unwrap().ch);
            proof {
                assert(text_of(old(self)@.take(taken + 1)) == text_of(old(self)@.take(taken)).push(
                    old(self)@[taken].ch,
                ));
                taken = taken + 1;
                assert(self@ == old(self)@.skip(taken));
            }
        }
        ident
    }

    /// Reads the rest of an integer literal whose first character, `first`,
    /// has been taken already: every numeric character up to the first
    /// character that is none.
    fn read_number(&mut self, first: char) -> (number: String)
        ensures
            number@ == seq![first] + text_of(
                old(self)@.take(leading_run(old(self)@, CharClass::Numeric) as int),
            ),
            final(self)@ == old(self)@.skip(leading_run(old(self)@, CharClass::Numeric) as int),
    {
        let mut number = String::new();
        number.push(first);
        let ghost mut taken: int = 0;
        while self.peek_is_number()
            invariant
                0 <= taken <= old(self)@.len(),
                self@ == old(self)@.skip(taken),
                number@ == seq![first] + text_of(old(self)@.take(taken)),
                taken + leading_run(self@, CharClass::Numeric) == leading_run(
                    old(self)@,
                    CharClass::Numeric,
                ),
            decreases self@.len(),
        {
            let symbol = self.read_char();
            number.push(symbol.unwrap().ch);
            proof {
                assert(text_of(old(self)@.take(taken + 1)) == text_of(old(self)@.take(taken)).push(
                    old(self)@[taken].ch,
                ));
                taken = taken + 1;
                assert(self@ == old(self)@.skip(taken));
            }
        }
        number
    }

    /// Skips whitespace and returns the token that follows, with the cursor
    /// after it. At the end of the text it returns [`Token::EndOfFile`], on
    /// this call and on every later one. A character that starts no token
    /// comes back as [`Token::Illegal`], and the scan goes on behind it.
    pub fn next_token(&mut self) -> (token: Token)
        ensures
            token@ == first_token(old(self)@),
            final(self)@ == after_first_token(old(self)@),
            final(self)@ == old(self)@.skip(old(self)@.len() - final(self)@.len()),
            old(self)@.len() > 0 ==> final(self)@.len() < old(self)@.len(),
            token@ is EndOfFile <==> trim_start(old(self)@).len() == 0,
            token@ is EndOfFile ==> final(self)@.len() == 0,
    {
        proof {
            lemma_first_token_advances(self@);
        }
        self.skip_whitespace();
        let ghost text = self@;
        match self.read_char() {
            None => Token::EndOfFile,
            Some(lead) => match lead.ch {
                ':' => {
                    if self.peek_char_eq('=') {
                        self.read_char();
                        Token::Declare
                    } else {
                        Token::Colon
                    }
                },
                '=' => {
                    if self.peek_char_eq('=') {
                        self.read_char();
                        Token::Equal
                    } else {
                        Token::Assign
                    }
                },
                '!' => {
                    if self.peek_char_eq('=') {
                        self.read_char();
                        Token::NotEqual
                    } else {
                        Token::Bang
                    }
                },
                '+' => Token::Plus,
                '-' => Token::Minus,
                '/' => Token::Slash,
                '*' => Token::Asterisk,
                '<' => Token::LowerThan,
                '>' => Token::GreaterThan,
                ',' => Token::Comma,
                '{' => Token::LeftBrace,
                '}' => Token::RightBrace,
                '(' => Token::LeftParenthesis,
                ')' => Token::RightParenthesis,
                ch => {
                    if is_letter(lead) {
                        let identifier = self.read_identifier(ch);
                        proof {
                            lemma_run_with_lead(text, CharClass::Letter);
                        }
                        lookup_ident(&identifier)
                    } else if lead.numeric {
                        let number = self.read_number(ch);
                        proof {
                            lemma_run_with_lead(text, CharClass::Numeric);
                        }
                        Token::Integer(number)
                    } else {
                        Token::Illegal
                    }
                },
            },
        }
    }
}

/// Whether `symbol` may stand in an identifier.
fn is_letter(symbol: Symbol) -> (letter: bool)
    ensures
        letter == symbol.is_letter(),
{
    symbol.alphabetic || symbol.ch == '_'
}

/// A run that starts with a character of its class is that character and
/// the run behind it.
proof fn lemma_run_with_lead(s: Seq<Symbol>, class: CharClass)
    requires
        s.len() > 0,
        class.contains(s[0]),
    ensures
        text_of(s.take(leading_run(s, class) as int)) == seq![s[0].ch] + text_of(
            s.skip(1).take(leading_run(s.skip(1), class) as int),
        ),
        s.skip(leading_run(s, class) as int) == s.skip(1).skip(
            leading_run(s.skip(1), class) as int,
        ),
{
    lemma_leading_run_is_maximal(s.skip(1), class);
}

} // verus!
