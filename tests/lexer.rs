use mee::{Lexer, TokenKind};

fn kinds(src: &str) -> Vec<TokenKind> {
    let mut lx = Lexer::new(src);
    let mut out = Vec::new();
    loop {
        let t = lx.next_token();
        let done = t.kind == TokenKind::Eof;
        out.push(t.kind);
        if done {
            break;
        }
    }
    out
}

#[test]
fn keywords_lex_to_their_tokens() {
    let cases = [
        ("fn", TokenKind::Fn),
        ("let", TokenKind::Let),
        ("mut", TokenKind::Mut),
        ("return", TokenKind::Return),
        ("if", TokenKind::If),
        ("else", TokenKind::Else),
        ("while", TokenKind::While),
        ("struct", TokenKind::Struct),
        ("enum", TokenKind::Enum),
        ("import", TokenKind::Import),
        ("extern", TokenKind::Extern),
        ("true", TokenKind::True),
        ("false", TokenKind::False),
    ];
    for (text, kind) in cases {
        assert_eq!(kinds(text), vec![kind, TokenKind::Eof], "{}", text);
    }
}

#[test]
fn punctuation_and_operators_lex_to_their_tokens() {
    let cases = [
        (":", TokenKind::Colon),
        (";", TokenKind::Semicolon),
        (",", TokenKind::Comma),
        (".", TokenKind::Dot),
        ("(", TokenKind::LParen),
        (")", TokenKind::RParen),
        ("{", TokenKind::LBrace),
        ("}", TokenKind::RBrace),
        ("->", TokenKind::Arrow),
        ("+", TokenKind::Plus),
        ("-", TokenKind::Minus),
        ("*", TokenKind::Star),
        ("/", TokenKind::Slash),
        ("=", TokenKind::Eq),
        ("<", TokenKind::Lt),
        (">", TokenKind::Gt),
        ("<=", TokenKind::LtEq),
        (">=", TokenKind::GtEq),
        ("==", TokenKind::EqEq),
        ("!=", TokenKind::NotEq),
        ("!", TokenKind::Bang),
        ("&&", TokenKind::AndAnd),
        ("||", TokenKind::OrOr),
    ];
    for (text, kind) in cases {
        assert_eq!(kinds(text), vec![kind, TokenKind::Eof], "{}", text);
    }
}

#[test]
fn longest_match_and_keyword_prefixes() {
    assert_eq!(
        kinds("a<=b fnx iff"),
        vec![
            TokenKind::Ident("a".to_string()),
            TokenKind::LtEq,
            TokenKind::Ident("b".to_string()),
            TokenKind::Ident("fnx".to_string()),
            TokenKind::Ident("iff".to_string()),
            TokenKind::Eof,
        ]
    );
}

#[test]
fn integer_literals_and_overflow() {
    assert_eq!(kinds("42"), vec![TokenKind::Int(42), TokenKind::Eof]);
    assert_eq!(kinds("2147483647"), vec![TokenKind::Int(2147483647), TokenKind::Eof]);
    assert_eq!(kinds("2147483648"), vec![TokenKind::Int(0), TokenKind::Eof]);
    assert_eq!(kinds("99999999999999999999"), vec![TokenKind::Int(0), TokenKind::Eof]);
}

#[test]
fn char_literals_and_escapes() {
    assert_eq!(kinds("'a'"), vec![TokenKind::Char('a'), TokenKind::Eof]);
    assert_eq!(kinds("'\\n'"), vec![TokenKind::Char('\n'), TokenKind::Eof]);
    assert_eq!(kinds("'\\0'"), vec![TokenKind::Char('\0'), TokenKind::Eof]);
    assert_eq!(kinds("'\\''"), vec![TokenKind::Char('\''), TokenKind::Eof]);
    assert_eq!(kinds("'\\q'"), vec![TokenKind::Char('?'), TokenKind::Eof]);
}

#[test]
fn string_literals_and_escapes() {
    assert_eq!(
        kinds("\"a\\tb\\n\\\"c\\\\\""),
        vec![TokenKind::StringLit("a\tb\n\"c\\".to_string()), TokenKind::Eof]
    );
    assert_eq!(kinds("\"\\q\""), vec![TokenKind::StringLit("q".to_string()), TokenKind::Eof]);
    assert_eq!(kinds("\"open"), vec![TokenKind::StringLit("open".to_string()), TokenKind::Eof]);
}

#[test]
fn comments_and_whitespace_are_skipped_and_offsets_are_bytes() {
    let mut lx = Lexer::new("  // note\n\tlet é = 1;");
    let t = lx.next_token();
    assert_eq!(t.kind, TokenKind::Let);
    assert_eq!(t.pos, 11);
    let t = lx.next_token();
    assert_eq!(t.kind, TokenKind::Unknown('é'));
    assert_eq!(t.pos, 15);
    let t = lx.next_token();
    assert_eq!(t.kind, TokenKind::Eq);
    assert_eq!(t.pos, 18);
}

#[test]
fn unknown_character_is_its_own_token() {
    assert_eq!(kinds("@"), vec![TokenKind::Unknown('@'), TokenKind::Eof]);
    assert_eq!(kinds("&x"), vec![TokenKind::Unknown('&'), TokenKind::Ident("x".to_string()), TokenKind::Eof]);
}

#[test]
fn char_literal_double_quote_escape_and_offsets() {
    let mut lx = Lexer::new("'\\\"' 'b' \"s\"x");
    let t = lx.next_token();
    assert_eq!(t.kind, TokenKind::Char('"'));
    assert_eq!(t.pos, 0);
    let t = lx.next_token();
    assert_eq!(t.kind, TokenKind::Char('b'));
    assert_eq!(t.pos, 5);
    let t = lx.next_token();
    assert_eq!(t.kind, TokenKind::StringLit("s".to_string()));
    assert_eq!(t.pos, 9);
    let t = lx.next_token();
    assert_eq!(t.kind, TokenKind::Ident("x".to_string()));
    assert_eq!(t.pos, 12);
}
