use tokenizer::token::{lookup_ident, Token};

#[test]
fn lookup_ident_test() {
    assert_eq!(lookup_ident("def"), Token::Function);

    let ident_token = lookup_ident("asdf");
    match ident_token {
        Token::Ident(str) => assert_eq!(str, "asdf"),
        _ => assert!(false),
    }
}

#[test]
fn lookup_ident_resolves_every_reserved_word() {
    assert_eq!(lookup_ident("def"), Token::Function);
    assert_eq!(lookup_ident("true"), Token::True);
    assert_eq!(lookup_ident("false"), Token::False);
    assert_eq!(lookup_ident("if"), Token::If);
    assert_eq!(lookup_ident("else"), Token::Else);
    assert_eq!(lookup_ident("return"), Token::Return);
}

#[test]
fn lookup_ident_matches_whole_words_only() {
    assert_eq!(lookup_ident("iffy"), Token::Ident("iffy".to_string()));
    assert_eq!(lookup_ident("i"), Token::Ident("i".to_string()));
    assert_eq!(lookup_ident("de"), Token::Ident("de".to_string()));
    assert_eq!(lookup_ident("defs"), Token::Ident("defs".to_string()));
    assert_eq!(lookup_ident("returned"), Token::Ident("returned".to_string()));
    assert_eq!(lookup_ident("_if"), Token::Ident("_if".to_string()));
}

#[test]
fn lookup_ident_is_case_sensitive() {
    assert_eq!(lookup_ident("If"), Token::Ident("If".to_string()));
    assert_eq!(lookup_ident("DEF"), Token::Ident("DEF".to_string()));
    assert_eq!(lookup_ident("True"), Token::Ident("True".to_string()));
    assert_eq!(lookup_ident("elsE"), Token::Ident("elsE".to_string()));
}

#[test]
fn lookup_ident_keeps_any_other_text() {
    assert_eq!(lookup_ident(""), Token::Ident(String::new()));
    assert_eq!(lookup_ident("x y"), Token::Ident("x y".to_string()));
    assert_eq!(lookup_ident("größe"), Token::Ident("größe".to_string()));
}

#[test]
fn default_token_is_illegal() {
    assert_eq!(Token::default(), Token::Illegal);
}

#[test]
fn tokens_compare_by_variant_and_text() {
    assert_eq!(Token::Ident("a".to_string()), Token::Ident("a".to_string()));
    assert_ne!(Token::Ident("a".to_string()), Token::Ident("b".to_string()));
    assert_ne!(Token::Ident("a".to_string()), Token::Ident("ab".to_string()));
    assert_ne!(Token::Ident("5".to_string()), Token::Integer("5".to_string()));
    assert_eq!(Token::Integer("05".to_string()), Token::Integer("05".to_string()));
    assert_ne!(Token::Integer("05".to_string()), Token::Integer("5".to_string()));
    assert_eq!(Token::Assign, Token::Assign);
    assert_ne!(Token::Assign, Token::Equal);
    assert_ne!(Token::Assign, Token::Declare);
    assert_ne!(Token::Illegal, Token::EndOfFile);
    assert_ne!(Token::If, Token::Ident("if".to_string()));
    assert_eq!(Token::Return, Token::Return);
}
