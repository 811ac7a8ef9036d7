//! The lexical grammar, as functions on sequences of symbols.
//!
//! These definitions say which token stands at the front of a text and how
//! much of the text it takes. The scanner is verified against them. A text is
//! a sequence of [`Symbol`]s here, so the grammar reads the classification
//! that each character carries and never asks for one.

use vstd::prelude::*;
use crate::symbol::{text_of, Symbol};
use crate::token::{classify_identifier, TokenView};

verus! {

/// The classes of symbols of which the scanner reads whole runs.
pub enum CharClass {
    /// Characters that separate tokens and are skipped.
    Whitespace,
    /// Characters of identifiers and keywords.
    Letter,
    /// Characters of integer literals.
    Numeric,
}

impl CharClass {
    /// Whether `symbol` belongs to this class.
    pub open spec fn contains(self, symbol: Symbol) -> bool {
        match self {
            CharClass::Whitespace => symbol.whitespace,
            CharClass::Letter => symbol.is_letter(),
            CharClass::Numeric => symbol.numeric,
        }
    }
}

/// The length of the longest prefix of `s` made of symbols of `class`.
pub open spec fn leading_run(s: Seq<Symbol>, class: CharClass) -> nat
    decreases s.len(),
{
    if s.len() > 0 && class.contains(s[0]) {
        1 + leading_run(s.skip(1), class)
    } else {
        0
    }
}

/// Whether the character after the lead character of `s` is `=`, which turns
/// `:`, `=` and `!` into the two-character operators.
pub open spec fn followed_by_equals(s: Seq<Symbol>) -> bool {
    s.len() > 1 && s[1].ch == '='
}

/// The number of symbols of the token whose lead character is `s[0]`: two
/// for a two-character operator, the whole run for an identifier, a keyword
/// or an integer literal, and one for everything else.
pub open spec fn lexeme_len(s: Seq<Symbol>) -> nat
    recommends
        s.len() > 0,
{
    let lead = s[0];
    if lead.ch == ':' || lead.ch == '=' || lead.ch == '!' {
        if followed_by_equals(s) {
            2
        } else {
            1
        }
    } else if is_fixed_operator(lead.ch) {
        1
    } else if lead.is_letter() {
        leading_run(s, CharClass::Letter)
    } else if lead.numeric {
        leading_run(s, CharClass::Numeric)
    } else {
        1
    }
}

/// The characters that are a token by themselves, whatever follows them.
pub open spec fn is_fixed_operator(c: char) -> bool {
    ||| c == '+'
    ||| c == '-'
    ||| c == '/'
    ||| c == '*'
    ||| c == '<'
    ||| c == '>'
    ||| c == ','
    ||| c == '{'
    ||| c == '}'
    ||| c == '('
    ||| c == ')'
}

/// The token of a character that is a token by itself.
pub open spec fn fixed_operator(c: char) -> TokenView
    recommends
        is_fixed_operator(c),
{
    if c == '+' {
        TokenView::Plus
    } else if c == '-' {
        TokenView::Minus
    } else if c == '/' {
        TokenView::Slash
    } else if c == '*' {
        TokenView::Asterisk
    } else if c == '<' {
        TokenView::LowerThan
    } else if c == '>' {
        TokenView::GreaterThan
    } else if c == ',' {
        TokenView::Comma
    } else if c == '{' {
        TokenView::LeftBrace
    } else if c == '}' {
        TokenView::RightBrace
    } else if c == '(' {
        TokenView::LeftParenthesis
    } else {
        TokenView::RightParenthesis
    }
}

/// The token whose lead character is `s[0]`. It is made of the first
/// `lexeme_len(s)` symbols of `s`. The operator characters decide by
/// themselves; only for another lead character does its classification
/// count, a letter before a numeric character.
pub open spec fn lexeme(s: Seq<Symbol>) -> TokenView
    recommends
        s.len() > 0,
{
    let lead = s[0].ch;
    let text = text_of(s.take(lexeme_len(s) as int));
    if lead == ':' {
        if followed_by_equals(s) {
            TokenView::Declare
        } else {
            TokenView::Colon
        }
    } else if lead == '=' {
        if followed_by_equals(s) {
            TokenView::Equal
        } else {
            TokenView::Assign
        }
    } else if lead == '!' {
        if followed_by_equals(s) {
            TokenView::NotEqual
        } else {
            TokenView::Bang
        }
    } else if is_fixed_operator(lead) {
        fixed_operator(lead)
    } else if s[0].is_letter() {
        classify_identifier(text)
    } else if s[0].numeric {
        TokenView::Integer(text)
    } else {
        TokenView::Illegal
    }
}

/// `s` without its leading whitespace.
pub open spec fn trim_start(s: Seq<Symbol>) -> Seq<Symbol> {
    s.skip(leading_run(s, CharClass::Whitespace) as int)
}

/// The token that one call of the scanner returns when `s` is the text left
/// to read: end of input when nothing but whitespace is left, otherwise the
/// token that starts at the first character that is not whitespace.
pub open spec fn first_token(s: Seq<Symbol>) -> TokenView {
    let t = trim_start(s);
    if t.len() == 0 {
        TokenView::EndOfFile
    } else {
        lexeme(t)
    }
}

/// The text left to read after that call.
pub open spec fn after_first_token(s: Seq<Symbol>) -> Seq<Symbol> {
    let t = trim_start(s);
    if t.len() == 0 {
        t
    } else {
        t.skip(lexeme_len(t) as int)
    }
}

/// The text left to read after `n` calls of the scanner on `s`.
pub open spec fn after_tokens(s: Seq<Symbol>, n: nat) -> Seq<Symbol>
    decreases n,
{
    if n == 0 {
        s
    } else {
        after_tokens(after_first_token(s), (n - 1) as nat)
    }
}

/// The token that call number `n` returns, counting from 0, when the scanner
/// starts on `s`. The token sequence of `s` is `nth_token(s, 0)`,
/// `nth_token(s, 1)`, and so on.
pub open spec fn nth_token(s: Seq<Symbol>, n: nat) -> TokenView {
    first_token(after_tokens(s, n))
}

/// A run lies inside its text, every symbol of it is of the class, and the
/// symbol behind it, if there is one, is not.
pub proof fn lemma_leading_run_is_maximal(s: Seq<Symbol>, class: CharClass)
    ensures
        leading_run(s, class) <= s.len(),
        forall|i: int| 0 <= i < leading_run(s, class) ==> class.contains(#[trigger] s[i]),
        leading_run(s, class) < s.len() ==> !class.contains(s[leading_run(s, class) as int]),
    decreases s.len(),
{
    if s.len() > 0 && class.contains(s[0]) {
        let rest = s.skip(1);
        lemma_leading_run_is_maximal(rest, class);
        assert forall|i: int| 0 <= i < leading_run(s, class) implies class.contains(
            #[trigger] s[i],
        ) by {
            if i > 0 {
                assert(s[i] == rest[i - 1]);
            }
        }
        if leading_run(s, class) < s.len() {
            assert(s[leading_run(s, class) as int] == rest[leading_run(rest, class) as int]);
        }
    }
}

/// The run is the only prefix of that kind: a prefix of `n` symbols of the
/// class that ends the text or stands before a symbol that is not of the
/// class has the length of the run.
pub proof fn lemma_leading_run_is_unique(s: Seq<Symbol>, class: CharClass, n: int)
    requires
        0 <= n <= s.len(),
        forall|i: int| 0 <= i < n ==> class.contains(#[trigger] s[i]),
        n < s.len() ==> !class.contains(s[n]),
    ensures
        leading_run(s, class) == n,
    decreases n,
{
    if n > 0 {
        let rest = s.skip(1);
        assert forall|i: int| 0 <= i < n - 1 implies class.contains(#[trigger] rest[i]) by {
            assert(rest[i] == s[i + 1]);
        }
        lemma_leading_run_is_unique(rest, class, n - 1);
    }
}

/// A token takes at least its lead character and no more than the text has.
pub proof fn lemma_lexeme_len_in_bounds(s: Seq<Symbol>)
    requires
        s.len() > 0,
    ensures
        1 <= lexeme_len(s) <= s.len(),
{
    lemma_leading_run_is_maximal(s, CharClass::Letter);
    lemma_leading_run_is_maximal(s, CharClass::Numeric);
}

/// One call of the scanner leaves a suffix of the text it started on, and
/// a shorter one unless the text was empty. After end of input nothing is
/// left.
pub proof fn lemma_first_token_advances(s: Seq<Symbol>)
    ensures
        after_first_token(s).len() <= s.len(),
        after_first_token(s) == s.skip(s.len() - after_first_token(s).len()),
        s.len() > 0 ==> after_first_token(s).len() < s.len(),
        first_token(s) is EndOfFile <==> trim_start(s).len() == 0,
        first_token(s) is EndOfFile ==> after_first_token(s).len() == 0,
{
    lemma_leading_run_is_maximal(s, CharClass::Whitespace);
    let t = trim_start(s);
    if t.len() > 0 {
        lemma_lexeme_len_in_bounds(t);
    }
}

} // verus!
