//! Characters with their classification.
//!
//! The scanner never asks the standard library about a character itself. It
//! reads symbols: characters that carry the three answers it needs. Making a
//! symbol from a character is the only place where those answers are taken
//! from the standard library, and everything behind that place is a function
//! of the symbols alone.

use vstd::prelude::*;
use vstd::std_specs::iter::IteratorSpec;
use crate::std_specs::{is_alphabetic_char, is_numeric_char, is_whitespace_char};

verus! {

/// One character of the source and what the scanner needs to know about it.
#[derive(Debug, Clone, Copy, PartialEq, Eq, Structural)]
pub struct Symbol {
    /// The character itself.
    pub ch: char,
    /// Whether the character separates tokens.
    pub whitespace: bool,
    /// Whether the character is alphabetic.
    pub alphabetic: bool,
    /// Whether the character is numeric.
    pub numeric: bool,
}

impl Symbol {
    /// A character that may stand in an identifier: alphabetic, or an
    /// underscore. Being numeric makes no letter, so a digit never extends
    /// an identifier.
    pub open spec fn is_letter(self) -> bool {
        self.alphabetic || self.ch == '_'
    }

    /// The symbol for `ch`, classified by `char::is_whitespace`,
    /// `char::is_alphabetic` and `char::is_numeric`.
    pub fn of(ch: char) -> (symbol: Symbol)
        ensures
            symbol == symbol_of(ch),
    {
        Symbol {
            ch,
            whitespace: ch.is_whitespace(),
            alphabetic: ch.is_alphabetic(),
            numeric: ch.is_numeric(),
        }
    }
}

/// The symbol that stands for the character `c`.
pub open spec fn symbol_of(c: char) -> Symbol {
    Symbol {
        ch: c,
        whitespace: is_whitespace_char(c),
        alphabetic: is_alphabetic_char(c),
        numeric: is_numeric_char(c),
    }
}

/// The symbols that stand for `text`, character by character.
pub open spec fn classified(text: Seq<char>) -> Seq<Symbol> {
    Seq::new(text.len(), |i: int| symbol_of(text[i]))
}

/// The characters of `symbols`, without their classification.
pub open spec fn text_of(symbols: Seq<Symbol>) -> Seq<char> {
    Seq::new(symbols.len(), |i: int| symbols[i].ch)
}

/// Classifies every character of `input`.
pub fn classify(input: &str) -> (symbols: Vec<Symbol>)
    ensures
        symbols@ == classified(input@),
{
    let mut source = input.chars();
    let mut symbols: Vec<Symbol> = Vec::new();
    let ghost mut read: Seq<char> = Seq::empty();
    loop
        invariant
            read + source.remaining() == input@,
            symbols@ == classified(read),
            source.decrease() is Some,
        ensures
            symbols@ == classified(input@),
        decreases source.decrease()->0,
    {
        match source.next() {
            Some(ch) => {
                symbols.push(Symbol::of(ch));
                proof {
                    read = read.push(ch);
                }
            },
            None => {
                break;
            },
        }
    }
    symbols
}

/// Classifying a text and dropping the classification again gives the text.
pub proof fn lemma_text_of_classified(text: Seq<char>)
    ensures
        text_of(classified(text)) == text,
{
}

} // verus!
