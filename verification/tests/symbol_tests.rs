use tokenizer::lexer::Lexer;
use tokenizer::symbol::{classify, Symbol};
use tokenizer::token::Token;

fn symbol(ch: char, whitespace: bool, alphabetic: bool, numeric: bool) -> Symbol {
    Symbol { ch, whitespace, alphabetic, numeric }
}

fn plain(ch: char) -> Symbol {
    symbol(ch, false, false, false)
}

fn letter(ch: char) -> Symbol {
    symbol(ch, false, true, false)
}

fn number(ch: char) -> Symbol {
    symbol(ch, false, false, true)
}

fn blank(ch: char) -> Symbol {
    symbol(ch, true, false, false)
}

/// Every token of `symbols`, up to and including the first end of input.
fn scan_symbols(symbols: Vec<Symbol>) -> Vec<Token> {
    let limit = symbols.len() + 1;
    let mut lexer = Lexer::from_symbols(symbols);
    let mut tokens = Vec::new();
    loop {
        let token = lexer.next_token();
        let done = token == Token::EndOfFile;
        tokens.push(token);
        if done {
            return tokens;
        }
        assert!(tokens.len() <= limit);
    }
}

#[test]
fn symbol_of_classifies_ascii() {
    assert_eq!(Symbol::of('a'), letter('a'));
    assert_eq!(Symbol::of('Z'), letter('Z'));
    assert_eq!(Symbol::of('7'), number('7'));
    assert_eq!(Symbol::of('0'), number('0'));
    assert_eq!(Symbol::of(' '), blank(' '));
    assert_eq!(Symbol::of('\t'), blank('\t'));
    assert_eq!(Symbol::of('\n'), blank('\n'));
    assert_eq!(Symbol::of('\r'), blank('\r'));
    assert_eq!(Symbol::of('_'), plain('_'));
    assert_eq!(Symbol::of(':'), plain(':'));
    assert_eq!(Symbol::of('='), plain('='));
    assert_eq!(Symbol::of('!'), plain('!'));
    assert_eq!(Symbol::of('@'), plain('@'));
    assert_eq!(Symbol::of('\u{0}'), plain('\u{0}'));
}

#[test]
fn symbol_of_classifies_beyond_ascii() {
    assert_eq!(Symbol::of('é'), letter('é'));
    assert_eq!(Symbol::of('变'), letter('变'));
    assert_eq!(Symbol::of('٣'), number('٣'));
    assert_eq!(Symbol::of('½'), number('½'));
    assert_eq!(Symbol::of('\u{a0}'), blank('\u{a0}'));
    assert_eq!(Symbol::of('\u{3000}'), blank('\u{3000}'));
    assert_eq!(Symbol::of('\u{2028}'), blank('\u{2028}'));
    assert_eq!(Symbol::of('Ⅷ'), symbol('Ⅷ', false, true, true));
    assert_eq!(Symbol::of('😀'), plain('😀'));
    assert_eq!(Symbol::of('\u{200b}'), plain('\u{200b}'));
}

#[test]
fn symbol_of_keeps_the_character() {
    for ch in ['a', '1', ' ', '_', ':', 'ß', '\u{10ffff}'] {
        assert_eq!(Symbol::of(ch).ch, ch);
    }
}

#[test]
fn classify_keeps_every_character_in_order() {
    assert_eq!(classify(""), vec![]);
    assert_eq!(
        classify("a1 _"),
        vec![letter('a'), number('1'), blank(' '), plain('_')]
    );
    assert_eq!(
        classify("é\n="),
        vec![letter('é'), blank('\n'), plain('=')]
    );
    let text = "if 6 > 5:\n    return größe\n";
    let symbols = classify(text);
    assert_eq!(symbols.len(), text.chars().count());
    for (symbol, ch) in symbols.iter().zip(text.chars()) {
        assert_eq!(*symbol, Symbol::of(ch));
    }
}

#[test]
fn new_reads_what_classify_gives() {
    let text = "opp := !c\nif 6 > 5:\n    return false\n";
    let mut from_text = Lexer::new(text);
    let mut from_symbols = Lexer::from_symbols(classify(text));
    loop {
        let token = from_text.next_token();
        assert_eq!(token, from_symbols.next_token());
        if token == Token::EndOfFile {
            break;
        }
    }
}

#[test]
fn from_symbols_scans_classified_text() {
    assert_eq!(scan_symbols(vec![]), vec![Token::EndOfFile]);
    assert_eq!(
        scan_symbols(vec![
            blank(' '),
            plain(':'),
            plain('='),
            letter('x'),
            letter('y'),
            number('4'),
            number('2'),
            blank('\n'),
            plain('_'),
            plain('?'),
        ]),
        vec![
            Token::Declare,
            Token::Ident("xy".to_string()),
            Token::Integer("42".to_string()),
            Token::Ident("_".to_string()),
            Token::Illegal,
            Token::EndOfFile,
        ]
    );
}

#[test]
fn the_classification_decides_not_the_character() {
    // A digit that is classified as a letter is read as one.
    assert_eq!(
        scan_symbols(vec![letter('a'), letter('1')]),
        vec![Token::Ident("a1".to_string()), Token::EndOfFile]
    );
    // A letter that is classified as numeric is read as a number.
    assert_eq!(
        scan_symbols(vec![number('x'), number('y'), letter('z')]),
        vec![Token::Integer("xy".to_string()), Token::Ident("z".to_string()), Token::EndOfFile]
    );
    // A letter that is classified as nothing starts no token.
    assert_eq!(scan_symbols(vec![plain('a')]), vec![Token::Illegal, Token::EndOfFile]);
    // Whatever is classified as whitespace is skipped.
    assert_eq!(
        scan_symbols(vec![blank('a'), letter('b'), blank(':'), blank('=')]),
        vec![Token::Ident("b".to_string()), Token::EndOfFile]
    );
    // An underscore is a letter whatever its classification says.
    assert_eq!(
        scan_symbols(vec![plain('_'), letter('a'), plain('_')]),
        vec![Token::Ident("_a_".to_string()), Token::EndOfFile]
    );
}

#[test]
fn whitespace_is_decided_first_and_operators_before_letters() {
    // Whitespace wins over every other reading of a lead character.
    assert_eq!(
        scan_symbols(vec![symbol('+', true, false, false), symbol('a', true, true, false)]),
        vec![Token::EndOfFile]
    );
    // An operator character is an operator even when it is classified as a
    // letter or as numeric.
    assert_eq!(
        scan_symbols(vec![symbol(':', false, true, false), symbol('=', false, false, true)]),
        vec![Token::Declare, Token::EndOfFile]
    );
    assert_eq!(
        scan_symbols(vec![symbol('+', false, true, true)]),
        vec![Token::Plus, Token::EndOfFile]
    );
    // Behind the lead character of an identifier only the classification
    // counts: a character classified as a letter goes on with it.
    assert_eq!(
        scan_symbols(vec![letter('a'), symbol(':', false, true, false), letter('b')]),
        vec![Token::Ident("a:b".to_string()), Token::EndOfFile]
    );
    // So does whitespace that is classified as a letter too, which is why a
    // separator must not be one.
    assert_eq!(
        scan_symbols(vec![letter('a'), symbol(' ', true, true, false), letter('b')]),
        vec![Token::Ident("a b".to_string()), Token::EndOfFile]
    );
    // A letter wins over numeric at the lead character.
    assert_eq!(
        scan_symbols(vec![symbol('Ⅷ', false, true, true), number('1')]),
        vec![Token::Ident("Ⅷ".to_string()), Token::Integer("1".to_string()), Token::EndOfFile]
    );
    assert_eq!(
        scan_symbols(vec![number('1'), symbol('Ⅷ', false, true, true)]),
        vec![Token::Integer("1Ⅷ".to_string()), Token::EndOfFile]
    );
}

#[test]
fn the_pairing_character_is_compared_as_a_character() {
    // `=` pairs with `:` whatever its classification, unless it is skipped
    // as whitespace before it can be a lead character itself.
    assert_eq!(
        scan_symbols(vec![plain(':'), symbol('=', true, true, true)]),
        vec![Token::Declare, Token::EndOfFile]
    );
    assert_eq!(
        scan_symbols(vec![plain('!'), blank(' '), plain('=')]),
        vec![Token::Bang, Token::Assign, Token::EndOfFile]
    );
    assert_eq!(
        scan_symbols(vec![plain('='), plain('='), plain('=')]),
        vec![Token::Equal, Token::Assign, Token::EndOfFile]
    );
}
