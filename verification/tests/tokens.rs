use lemonseed::character::is_letter_given;
use lemonseed::lexer::Lexer;
use lemonseed::text::{chars_of, string_of_char};
use lemonseed::token::{Token, TokenKind};

#[test]
fn new_token_copies_kind_and_text() {
    let token = Token::new(TokenKind::Identifier, "five");
    assert_eq!(token.kind, TokenKind::Identifier);
    assert_eq!(token.literal, "five");
    let empty = Token::new(TokenKind::EOF, "");
    assert_eq!(empty.kind, TokenKind::EOF);
    assert_eq!(empty.literal, "");
}

#[test]
fn tokens_compare_by_kind_and_text() {
    assert_eq!(Token::new(TokenKind::Int, "5"), Token::new(TokenKind::Int, "5"));
    assert_ne!(Token::new(TokenKind::Int, "5"), Token::new(TokenKind::Int, "6"));
    assert_ne!(Token::new(TokenKind::Int, "5"), Token::new(TokenKind::Identifier, "5"));
}

#[test]
fn cloned_token_is_equal() {
    let token = Token::new(TokenKind::Constant, "const");
    assert_eq!(token.clone(), token);
}

#[test]
fn lookup_finds_each_reserved_word() {
    assert_eq!(TokenKind::lookup_identifier("function"), TokenKind::Function);
    assert_eq!(TokenKind::lookup_identifier("var"), TokenKind::Variable);
    assert_eq!(TokenKind::lookup_identifier("const"), TokenKind::Constant);
    assert_eq!(TokenKind::lookup_identifier("true"), TokenKind::True);
    assert_eq!(TokenKind::lookup_identifier("false"), TokenKind::False);
    assert_eq!(TokenKind::lookup_identifier("if"), TokenKind::If);
    assert_eq!(TokenKind::lookup_identifier("else"), TokenKind::Else);
    assert_eq!(TokenKind::lookup_identifier("return"), TokenKind::Return);
}

#[test]
fn lookup_falls_through_to_identifier() {
    for name in ["", "x", "five", "If", "TRUE", "func", "functions", "va", "var ", "retur", "_"] {
        assert_eq!(TokenKind::lookup_identifier(name), TokenKind::Identifier);
    }
}

#[test]
fn kinds_are_shown_by_symbol_or_name() {
    let shown = [
        (TokenKind::Illegal, "Illegal"),
        (TokenKind::EOF, "EOF"),
        (TokenKind::Identifier, "Identifier"),
        (TokenKind::Int, "Int"),
        (TokenKind::Assign, "="),
        (TokenKind::Plus, "+"),
        (TokenKind::Minus, "-"),
        (TokenKind::Bang, "!"),
        (TokenKind::Asterisk, "*"),
        (TokenKind::Slash, "/"),
        (TokenKind::LessThan, "<"),
        (TokenKind::GreaterThan, ">"),
        (TokenKind::Equal, "=="),
        (TokenKind::NotEqual, "!="),
        (TokenKind::Comma, ","),
        (TokenKind::Semicolon, ";"),
        (TokenKind::LeftParenthesis, "("),
        (TokenKind::RightParenthesis, ")"),
        (TokenKind::LeftBrace, "{"),
        (TokenKind::RightBrace, "}"),
        (TokenKind::LeftBracket, "["),
        (TokenKind::RightBracket, "]"),
        (TokenKind::Function, "Function"),
        (TokenKind::Variable, "Variable"),
        (TokenKind::Constant, "Constant"),
        (TokenKind::True, "True"),
        (TokenKind::False, "False"),
        (TokenKind::If, "If"),
        (TokenKind::Else, "Else"),
        (TokenKind::Return, "Return"),
    ];
    for (kind, text) in shown {
        assert_eq!(kind.to_string(), text);
    }
}

#[test]
fn characters_of_a_string() {
    assert_eq!(chars_of(""), Vec::<char>::new());
    assert_eq!(chars_of("a=é"), vec!['a', '=', 'é']);
}

#[test]
fn string_of_one_character() {
    assert_eq!(string_of_char('@'), "@");
    assert_eq!(string_of_char('京'), "京");
}

#[test]
fn ascii_name_characters_are_the_alphabetic_ones_and_underscore() {
    for code in 0u8..128 {
        let c = char::from(code);
        assert_eq!(Lexer::is_letter(c), c.is_alphabetic() || c == '_');
        assert_eq!(Lexer::is_letter(c), c.is_ascii_alphabetic() || c == '_');
    }
}

#[test]
fn name_characters_beyond_ascii_are_the_alphabetic_ones() {
    assert!(Lexer::is_letter('é'));
    assert!(Lexer::is_letter('京'));
    assert!(Lexer::is_letter('ª'));
    assert!(!Lexer::is_letter('€'));
    assert!(!Lexer::is_letter('💝'));
    assert!(!Lexer::is_letter('\u{a0}'));
    for code in 128u32..0x3000 {
        if let Some(c) = char::from_u32(code) {
            assert_eq!(Lexer::is_letter(c), c.is_alphabetic());
        }
    }
}

#[test]
fn name_character_given_the_alphabetic_flag() {
    assert!(is_letter_given('a', false));
    assert!(is_letter_given('Z', false));
    assert!(is_letter_given('_', false));
    assert!(!is_letter_given('1', true));
    assert!(!is_letter_given(' ', true));
    assert!(!is_letter_given('\0', true));
    assert!(is_letter_given('é', true));
    assert!(!is_letter_given('é', false));
}

#[test]
fn digits_are_zero_to_nine() {
    for code in 0u32..0x3000 {
        if let Some(c) = char::from_u32(code) {
            assert_eq!(Lexer::is_digit(c), ('0'..='9').contains(&c));
        }
    }
}

#[test]
fn blanks_are_space_tab_and_line_ends() {
    for code in 0u32..0x3000 {
        if let Some(c) = char::from_u32(code) {
            assert_eq!(Lexer::is_whitespace(c), c == ' ' || c == '\t' || c == '\n' || c == '\r');
        }
    }
}
