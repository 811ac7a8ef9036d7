//! What holds of every token sequence, proved from the grammar.
//!
//! The laws are stated for classified texts, whatever their classification.
//! Those that end in `_in_source` say the same of a source text as
//! [`crate::lexer::Lexer::new`] reads it.

use vstd::prelude::*;
use crate::grammar::{
    after_first_token, after_tokens, first_token, followed_by_equals, is_fixed_operator,
    leading_run, lemma_first_token_advances, lemma_leading_run_is_maximal,
    lemma_leading_run_is_unique, lemma_lexeme_len_in_bounds, lexeme, lexeme_len, nth_token,
    trim_start, CharClass,
};
use crate::symbol::{classified, lemma_text_of_classified, text_of, Symbol};
use crate::token::{classify_identifier, is_reserved_word, TokenView};

verus! {

/// `s` with `w` put in at position `at`.
pub open spec fn with_inserted<T>(s: Seq<T>, at: int, w: Seq<T>) -> Seq<T>
    recommends
        0 <= at <= s.len(),
{
    s.take(at) + w + s.skip(at)
}

/// The number of symbols that `n` calls of the scanner take from `s`: the
/// place of the cursor after them.
pub open spec fn consumed(s: Seq<Symbol>, n: nat) -> int {
    s.len() - after_tokens(s, n).len()
}

/// A symbol that cannot be part of the token in front of it: no letter, not
/// numeric, and not the `=` that would pair with `:`, `=` or `!`.
pub open spec fn ends_token(symbol: Symbol) -> bool {
    !symbol.is_letter() && !symbol.numeric && symbol.ch != '='
}

/// Whether `w` is a run of whitespace that may be put behind a token: all
/// of it is whitespace, and its first symbol ends the token before it. A
/// symbol can be classified as whitespace and as a letter at once; a run
/// that starts with such a symbol would become part of an identifier in
/// front of it, so it is no separator.
pub open spec fn is_separator(w: Seq<Symbol>) -> bool {
    &&& forall|k: int| 0 <= k < w.len() ==> (#[trigger] w[k]).whitespace
    &&& w.len() > 0 ==> ends_token(w[0])
}

/// On an empty text the scanner returns end of input and stays where it is,
/// however often it is called.
pub proof fn lemma_empty_text_stays_empty(s: Seq<Symbol>, n: nat)
    requires
        s.len() == 0,
    ensures
        after_tokens(s, n) == s,
        nth_token(s, n) == TokenView::EndOfFile,
    decreases n,
{
    lemma_first_token_advances(s);
    if n > 0 {
        assert(after_first_token(s) == s);
        lemma_empty_text_stays_empty(s, (n - 1) as nat);
    }
}

/// Calls add up: `m` calls and then `n` more leave what `m + n` calls leave.
pub proof fn lemma_after_tokens_adds(s: Seq<Symbol>, m: nat, n: nat)
    ensures
        after_tokens(after_tokens(s, m), n) == after_tokens(s, m + n),
    decreases m,
{
    if m > 0 {
        lemma_after_tokens_adds(after_first_token(s), (m - 1) as nat, n);
    }
}

/// Once a call has returned end of input, every later call returns end of
/// input too, and the text left to read is empty from then on.
pub proof fn lemma_end_of_input_is_final(s: Seq<Symbol>, i: nat, j: nat)
    requires
        nth_token(s, i) == TokenView::EndOfFile,
        i <= j,
    ensures
        nth_token(s, j) == TokenView::EndOfFile,
        i < j ==> after_tokens(s, j).len() == 0,
{
    if i < j {
        let at_end = after_tokens(s, i);
        let left = after_first_token(at_end);
        let more = (j - i - 1) as nat;
        lemma_first_token_advances(at_end);
        lemma_after_tokens_adds(s, i, (j - i) as nat);
        assert(after_tokens(at_end, (j - i) as nat) == after_tokens(left, more));
        lemma_empty_text_stays_empty(left, more);
    }
}

/// However many calls are made, what is left to read is a suffix of the
/// text, and no call makes it longer: the cursor never moves backward.
pub proof fn lemma_cursor_never_moves_backward(s: Seq<Symbol>, i: nat, j: nat)
    requires
        i <= j,
    ensures
        after_tokens(s, j).len() <= after_tokens(s, i).len() <= s.len(),
        after_tokens(s, j) == s.skip(s.len() - after_tokens(s, j).len()),
    decreases j,
{
    if j > 0 {
        let left = after_first_token(s);
        lemma_first_token_advances(s);
        if i > 0 {
            lemma_cursor_never_moves_backward(left, (i - 1) as nat, (j - 1) as nat);
        } else {
            lemma_cursor_never_moves_backward(left, 0, (j - 1) as nat);
        }
        assert(after_tokens(s, j) == s.skip(s.len() - after_tokens(s, j).len()));
    }
}

/// Maximal munch. An identifier or an integer literal is the longest run of
/// letters, or of numeric characters, that starts at its lead character: the
/// token's text is that run, and the character behind it, if there is one,
/// is not of the run's kind.
pub proof fn lemma_maximal_munch(s: Seq<Symbol>)
    requires
        s.len() > 0,
    ensures
        1 <= lexeme_len(s) <= s.len(),
        lexeme(s) matches TokenView::Ident(text) ==> {
            &&& text == text_of(s.take(lexeme_len(s) as int))
            &&& forall|i: int| 0 <= i < lexeme_len(s) ==> (#[trigger] s[i]).is_letter()
            &&& lexeme_len(s) < s.len() ==> !s[lexeme_len(s) as int].is_letter()
        },
        lexeme(s) matches TokenView::Integer(text) ==> {
            &&& text == text_of(s.take(lexeme_len(s) as int))
            &&& forall|i: int| 0 <= i < lexeme_len(s) ==> (#[trigger] s[i]).numeric
            &&& lexeme_len(s) < s.len() ==> !s[lexeme_len(s) as int].numeric
        },
{
    lemma_lexeme_len_in_bounds(s);
    lemma_leading_run_is_maximal(s, CharClass::Letter);
    lemma_leading_run_is_maximal(s, CharClass::Numeric);
}

/// Two-character operators. After `:`, `=` or `!` the next character decides:
/// with `=` behind it the pair is one token of two characters, and with
/// anything else, or nothing, the lead character is a token by itself.
pub proof fn lemma_two_character_operators(s: Seq<Symbol>)
    requires
        s.len() > 0,
    ensures
        s[0].ch == ':' && followed_by_equals(s) ==> lexeme(s) == TokenView::Declare && lexeme_len(s)
            == 2,
        s[0].ch == ':' && !followed_by_equals(s) ==> lexeme(s) == TokenView::Colon && lexeme_len(s)
            == 1,
        s[0].ch == '=' && followed_by_equals(s) ==> lexeme(s) == TokenView::Equal && lexeme_len(s)
            == 2,
        s[0].ch == '=' && !followed_by_equals(s) ==> lexeme(s) == TokenView::Assign && lexeme_len(s)
            == 1,
        s[0].ch == '!' && followed_by_equals(s) ==> lexeme(s) == TokenView::NotEqual && lexeme_len(s)
            == 2,
        s[0].ch == '!' && !followed_by_equals(s) ==> lexeme(s) == TokenView::Bang && lexeme_len(s)
            == 1,
{
}

/// Keywords come first. Text that is a reserved word resolves to that word's
/// keyword, and all other text to an identifier that holds the text itself.
pub proof fn lemma_keyword_precedence(text: Seq<char>)
    ensures
        is_reserved_word(text) <==> !(classify_identifier(text) is Ident),
        !is_reserved_word(text) ==> classify_identifier(text) == TokenView::Ident(text),
        text == "def"@ ==> classify_identifier(text) == TokenView::Function,
        text == "true"@ ==> classify_identifier(text) == TokenView::True,
        text == "false"@ ==> classify_identifier(text) == TokenView::False,
        text == "if"@ ==> classify_identifier(text) == TokenView::If,
        text == "else"@ ==> classify_identifier(text) == TokenView::Else,
        text == "return"@ ==> classify_identifier(text) == TokenView::Return,
{
    reveal_strlit("def");
    reveal_strlit("true");
    reveal_strlit("false");
    reveal_strlit("if");
    reveal_strlit("else");
    reveal_strlit("return");
    assert("def"@.len() == 3 && "true"@.len() == 4 && "false"@.len() == 5);
    assert("if"@.len() == 2 && "else"@.len() == 4 && "return"@.len() == 6);
    assert("true"@[0] == 't' && "else"@[0] == 'e');
}

/// The scanner never hands out a reserved word as an identifier.
pub proof fn lemma_identifier_is_no_keyword(s: Seq<Symbol>, n: nat)
    ensures
        nth_token(s, n) matches TokenView::Ident(text) ==> !is_reserved_word(text),
{
    let t = trim_start(after_tokens(s, n));
    if t.len() > 0 {
        lemma_keyword_precedence(text_of(t.take(lexeme_len(t) as int)));
    }
}

/// The text of a first token that is an identifier or an integer literal
/// is the piece of the text that starts where the leading whitespace ends.
proof fn lemma_first_text_is_verbatim(s: Seq<Symbol>)
    ensures
        first_token(s) matches TokenView::Integer(text) ==> {
            let start = leading_run(s, CharClass::Whitespace) as int;
            &&& text.len() >= 1
            &&& start + text.len() <= s.len()
            &&& text == text_of(s).subrange(start, start + text.len())
            &&& after_first_token(s) == s.skip(start + text.len())
            &&& forall|i: int| start <= i < start + text.len() ==> (#[trigger] s[i]).numeric
        },
        first_token(s) matches TokenView::Ident(text) ==> {
            let start = leading_run(s, CharClass::Whitespace) as int;
            &&& text.len() >= 1
            &&& start + text.len() <= s.len()
            &&& text == text_of(s).subrange(start, start + text.len())
            &&& after_first_token(s) == s.skip(start + text.len())
            &&& forall|i: int| start <= i < start + text.len() ==> (#[trigger] s[i]).is_letter()
        },
{
    lemma_leading_run_is_maximal(s, CharClass::Whitespace);
    let t = trim_start(s);
    if t.len() > 0 {
        lemma_maximal_munch(t);
        let start = leading_run(s, CharClass::Whitespace) as int;
        let n = lexeme_len(t) as int;
        assert(text_of(t.take(n)) == text_of(s).subrange(start, start + n));
        assert(t.skip(n) == s.skip(start + n));
        assert forall|i: int| start <= i < start + n implies s[i] == t[i - start] by {}
    }
}

/// The text of an identifier or an integer literal is a piece of the source,
/// character for character, wherever in the token sequence it stands: it
/// starts where the whitespace in front of the token ends, and the scanner
/// goes on directly behind it. Nothing is dropped from an integer's digits,
/// no leading zero either, and nothing is added.
pub proof fn lemma_text_is_verbatim(s: Seq<Symbol>, n: nat)
    ensures
        nth_token(s, n) matches TokenView::Integer(text) ==> {
            let start = consumed(s, n) + leading_run(after_tokens(s, n), CharClass::Whitespace);
            &&& text.len() >= 1
            &&& 0 <= start
            &&& start + text.len() <= s.len()
            &&& text == text_of(s).subrange(start, start + text.len())
            &&& consumed(s, n + 1) == start + text.len()
            &&& forall|i: int| start <= i < start + text.len() ==> (#[trigger] s[i]).numeric
        },
        nth_token(s, n) matches TokenView::Ident(text) ==> {
            let start = consumed(s, n) + leading_run(after_tokens(s, n), CharClass::Whitespace);
            &&& text.len() >= 1
            &&& 0 <= start
            &&& start + text.len() <= s.len()
            &&& text == text_of(s).subrange(start, start + text.len())
            &&& consumed(s, n + 1) == start + text.len()
            &&& forall|i: int| start <= i < start + text.len() ==> (#[trigger] s[i]).is_letter()
        },
{
    let left = after_tokens(s, n);
    let from = consumed(s, n);
    let run = leading_run(left, CharClass::Whitespace) as int;
    lemma_cursor_never_moves_backward(s, n, n);
    lemma_after_tokens_adds(s, n, 1);
    assert(after_tokens(left, 1) == after_tokens(after_first_token(left), 0));
    lemma_first_text_is_verbatim(left);
    if nth_token(s, n) is Integer || nth_token(s, n) is Ident {
        let len = left.len() - after_first_token(left).len() - run;
        assert(text_of(left).subrange(run, run + len) == text_of(s).subrange(
            from + run,
            from + run + len,
        ));
        assert forall|i: int| from + run <= i < from + run + len implies s[i] == left[i - from] by {}
    }
}

/// Whitespace put into the whitespace in front of a token changes neither
/// the token nor what is left after it.
pub proof fn lemma_leading_whitespace_is_invisible(s: Seq<Symbol>, at: int, w: Seq<Symbol>)
    requires
        0 <= at <= leading_run(s, CharClass::Whitespace),
        forall|k: int| 0 <= k < w.len() ==> (#[trigger] w[k]).whitespace,
    ensures
        trim_start(with_inserted(s, at, w)) == trim_start(s),
        first_token(with_inserted(s, at, w)) == first_token(s),
        after_first_token(with_inserted(s, at, w)) == after_first_token(s),
{
    let run = leading_run(s, CharClass::Whitespace) as int;
    let longer = with_inserted(s, at, w);
    lemma_leading_run_is_maximal(s, CharClass::Whitespace);
    assert forall|i: int| 0 <= i < run + w.len() implies CharClass::Whitespace.contains(
        #[trigger] longer[i],
    ) by {
        if i < at {
            assert(longer[i] == s[i]);
        } else if i < at + w.len() {
            assert(longer[i] == w[i - at]);
        } else {
            assert(longer[i] == s[i - w.len()]);
        }
    }
    if run + w.len() < longer.len() {
        assert(longer[run + w.len()] == s[run]);
    }
    lemma_leading_run_is_unique(longer, CharClass::Whitespace, run + w.len());
    assert(longer.skip(run + w.len()) == s.skip(run));
}

/// The token at a lead character depends on the text behind it only through
/// the character that follows the token. Put another text `next` behind the
/// token: if `next` starts as the old text behind the token did, or with a
/// character that ends a token, the token and its length stay the same.
proof fn lemma_lexeme_is_local(s: Seq<Symbol>, next: Seq<Symbol>)
    requires
        s.len() > 0,
        next.len() > 0 ==> ends_token(next[0]) || (lexeme_len(s) < s.len() && next[0]
            == s[lexeme_len(s) as int]),
    ensures
        lexeme(s.take(lexeme_len(s) as int) + next) == lexeme(s),
        lexeme_len(s.take(lexeme_len(s) as int) + next) == lexeme_len(s),
{
    let len = lexeme_len(s) as int;
    let other = s.take(len) + next;
    lemma_lexeme_len_in_bounds(s);
    assert(other[0] == s[0]);
    let lead = s[0];
    if lead.ch == ':' || lead.ch == '=' || lead.ch == '!' {
        if followed_by_equals(s) {
            assert(other[1] == s[1]);
        } else if next.len() > 0 {
            assert(other[1] == next[0]);
        }
    } else if is_fixed_operator(lead.ch) {
    } else if lead.is_letter() {
        lemma_run_is_local(s, next, CharClass::Letter);
    } else if lead.numeric {
        lemma_run_is_local(s, next, CharClass::Numeric);
    }
}

/// The same for a run: it stays as long as it was when the text behind it
/// is replaced by one that starts with a character outside the class, or as
/// the old one did.
proof fn lemma_run_is_local(s: Seq<Symbol>, next: Seq<Symbol>, class: CharClass)
    requires
        next.len() > 0 ==> !class.contains(next[0]) || (leading_run(s, class) < s.len()
            && next[0] == s[leading_run(s, class) as int]),
    ensures
        leading_run(s.take(leading_run(s, class) as int) + next, class) == leading_run(s, class),
        (s.take(leading_run(s, class) as int) + next).take(leading_run(s, class) as int) == s.take(
            leading_run(s, class) as int,
        ),
{
    let run = leading_run(s, class) as int;
    let other = s.take(run) + next;
    lemma_leading_run_is_maximal(s, class);
    assert forall|i: int| 0 <= i < run implies class.contains(#[trigger] other[i]) by {
        assert(other[i] == s[i]);
    }
    if run < other.len() {
        assert(other[run] == next[0]);
    }
    lemma_leading_run_is_unique(other, class, run);
    assert(other.take(run) == s.take(run));
}

/// The first token of a text depends on what follows it only through the
/// next character. Keep the text up to the end of the first token and put
/// `next` behind it: if `next` starts as the old rest did, or with a
/// character that ends a token, the first token is the same and `next` is
/// what is left after it.
proof fn lemma_first_token_is_local(s: Seq<Symbol>, next: Seq<Symbol>)
    requires
        trim_start(s).len() > 0,
        next.len() > 0 ==> ends_token(next[0]) || (after_first_token(s).len() > 0 && next[0]
            == after_first_token(s)[0]),
    ensures
        first_token(s.take(consumed(s, 1)) + next) == first_token(s),
        after_first_token(s.take(consumed(s, 1)) + next) == next,
{
    let run = leading_run(s, CharClass::Whitespace) as int;
    let t = trim_start(s);
    let len = lexeme_len(t) as int;
    lemma_leading_run_is_maximal(s, CharClass::Whitespace);
    lemma_lexeme_len_in_bounds(t);
    lemma_first_token_advances(s);
    assert(after_tokens(s, 1) == after_tokens(after_first_token(s), 0));
    assert(consumed(s, 1) == run + len);
    let other = s.take(run + len) + next;
    assert forall|i: int| 0 <= i < run implies CharClass::Whitespace.contains(
        #[trigger] other[i],
    ) by {
        assert(other[i] == s[i]);
    }
    assert(other[run] == s[run]);
    lemma_leading_run_is_unique(other, CharClass::Whitespace, run);
    assert(trim_start(other) == t.take(len) + next);
    if next.len() > 0 && !ends_token(next[0]) {
        assert(after_first_token(s)[0] == t[len]);
    }
    lemma_lexeme_is_local(t, next);
    assert((t.take(len) + next).skip(len) == next);
}

/// Whitespace between tokens is invisible. Take any place where the scanner
/// is between two tokens of `s`: the cursor after `n` calls, or up to `at`
/// characters further into the whitespace that follows it. A run of
/// whitespace `w` put in there changes no token of the sequence, and so does
/// taking such a run out again.
///
/// `w` must be a separator: where it comes to stand directly behind a token,
/// its first character must not be one that the token would take in.
pub proof fn lemma_whitespace_is_invisible(s: Seq<Symbol>, n: nat, at: int, w: Seq<Symbol>, i: nat)
    requires
        0 <= at <= leading_run(after_tokens(s, n), CharClass::Whitespace),
        is_separator(w),
    ensures
        nth_token(with_inserted(s, consumed(s, n) + at, w), i) == nth_token(s, i),
    decreases n,
{
    let place = consumed(s, n) + at;
    let longer = with_inserted(s, place, w);
    if n == 0 {
        lemma_leading_whitespace_is_invisible(s, at, w);
        lemma_same_start_same_tokens(longer, s, i);
    } else if trim_start(s).len() == 0 {
        let left = after_first_token(s);
        lemma_leading_run_is_maximal(s, CharClass::Whitespace);
        lemma_first_token_advances(s);
        lemma_empty_text_stays_empty(left, (n - 1) as nat);
        assert(leading_run(left, CharClass::Whitespace) == 0);
        assert(place == s.len());
        lemma_leading_whitespace_is_invisible(s, place, w);
        lemma_same_start_same_tokens(longer, s, i);
    } else {
        let left = after_first_token(s);
        let before = (n - 1) as nat;
        let first = consumed(s, 1);
        assert(after_tokens(s, 1) == after_tokens(left, 0));
        lemma_first_token_advances(s);
        lemma_cursor_never_moves_backward(left, before, before);
        lemma_leading_run_is_maximal(after_tokens(left, before), CharClass::Whitespace);
        let inner = consumed(left, before) + at;
        let next = with_inserted(left, inner, w);
        assert(place == first + inner);
        assert(longer == s.take(first) + next);
        if inner > 0 {
            assert(next[0] == left[0]);
        } else if w.len() > 0 {
            assert(next[0] == w[0]);
        } else {
            assert(next == left);
        }
        lemma_first_token_is_local(s, next);
        if i > 0 {
            lemma_whitespace_is_invisible(left, before, at, w, (i - 1) as nat);
        }
    }
}

/// Two texts with the same first token and the same rest after it have the
/// same token sequence.
proof fn lemma_same_start_same_tokens(a: Seq<Symbol>, b: Seq<Symbol>, i: nat)
    requires
        first_token(a) == first_token(b),
        after_first_token(a) == after_first_token(b),
    ensures
        nth_token(a, i) == nth_token(b, i),
{
    if i > 0 {
        assert(after_tokens(a, i) == after_tokens(after_first_token(a), (i - 1) as nat));
        assert(after_tokens(b, i) == after_tokens(after_first_token(b), (i - 1) as nat));
    }
}

/// Classifying a text with something put in is putting the classified
/// piece into the classified text.
pub proof fn lemma_classified_with_inserted(text: Seq<char>, at: int, w: Seq<char>)
    requires
        0 <= at <= text.len(),
    ensures
        classified(with_inserted(text, at, w)) == with_inserted(
            classified(text),
            at,
            classified(w),
        ),
{
}

/// Whitespace between tokens is invisible, said of a source text as
/// [`crate::lexer::Lexer::new`] reads it: a run of whitespace `w` put in
/// between two tokens of `text` changes no token of the sequence.
pub proof fn lemma_whitespace_is_invisible_in_source(
    text: Seq<char>,
    n: nat,
    at: int,
    w: Seq<char>,
    i: nat,
)
    requires
        0 <= at <= leading_run(after_tokens(classified(text), n), CharClass::Whitespace),
        is_separator(classified(w)),
    ensures
        nth_token(
            classified(with_inserted(text, consumed(classified(text), n) + at, w)),
            i,
        ) == nth_token(classified(text), i),
{
    let s = classified(text);
    lemma_cursor_never_moves_backward(s, n, n);
    lemma_leading_run_is_maximal(after_tokens(s, n), CharClass::Whitespace);
    lemma_classified_with_inserted(text, consumed(s, n) + at, w);
    lemma_whitespace_is_invisible(s, n, at, classified(w), i);
}

/// The text of an identifier or an integer literal, said of a source text
/// as [`crate::lexer::Lexer::new`] reads it: the token holds the characters
/// of the source from the token's place on, as many as it has, and none of
/// them changed.
pub proof fn lemma_text_is_verbatim_in_source(text: Seq<char>, n: nat)
    ensures
        nth_token(classified(text), n) matches TokenView::Integer(digits) ==> {
            let s = classified(text);
            let start = consumed(s, n) + leading_run(after_tokens(s, n), CharClass::Whitespace);
            &&& 0 <= start
            &&& start + digits.len() <= text.len()
            &&& digits == text.subrange(start, start + digits.len())
        },
        nth_token(classified(text), n) matches TokenView::Ident(name) ==> {
            let s = classified(text);
            let start = consumed(s, n) + leading_run(after_tokens(s, n), CharClass::Whitespace);
            &&& 0 <= start
            &&& start + name.len() <= text.len()
            &&& name == text.subrange(start, start + name.len())
        },
{
    lemma_text_is_verbatim(classified(text), n);
    lemma_text_of_classified(text);
}

} // verus!
