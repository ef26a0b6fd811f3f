use lemonseed::lexer::Lexer;
use lemonseed::repl::tokens_of_line;
use lemonseed::token::{Token, TokenKind};

fn all_tokens(input: &str, count: usize) -> Vec<Token> {
    let mut lexer = Lexer::new(input);
    let mut tokens = Vec::new();
    for _ in 0..count {
        tokens.push(lexer.next_token());
    }
    tokens
}

fn eof() -> Token {
    Token::new(TokenKind::EOF, "")
}

#[test]
fn punctuation_sequence() {
    let expected = vec![
        Token::new(TokenKind::Assign, "="),
        Token::new(TokenKind::Plus, "+"),
        Token::new(TokenKind::LeftParenthesis, "("),
        Token::new(TokenKind::RightParenthesis, ")"),
        Token::new(TokenKind::LeftBrace, "{"),
        Token::new(TokenKind::RightBrace, "}"),
        Token::new(TokenKind::Comma, ","),
        Token::new(TokenKind::Semicolon, ";"),
        eof(),
    ];
    assert_eq!(all_tokens("=+(){},;", 9), expected);
}

#[test]
fn punctuation_sequence_with_number() {
    let expected = vec![
        Token::new(TokenKind::Assign, "="),
        Token::new(TokenKind::Plus, "+"),
        Token::new(TokenKind::LeftParenthesis, "("),
        Token::new(TokenKind::RightParenthesis, ")"),
        Token::new(TokenKind::LeftBrace, "{"),
        Token::new(TokenKind::RightBrace, "}"),
        Token::new(TokenKind::Comma, ","),
        Token::new(TokenKind::Int, "5"),
        Token::new(TokenKind::Semicolon, ";"),
        eof(),
    ];
    assert_eq!(all_tokens("=+(){},5;", 10), expected);
}

#[test]
fn every_single_character_token() {
    let expected = vec![
        Token::new(TokenKind::Semicolon, ";"),
        Token::new(TokenKind::LeftParenthesis, "("),
        Token::new(TokenKind::RightParenthesis, ")"),
        Token::new(TokenKind::Comma, ","),
        Token::new(TokenKind::LeftBrace, "{"),
        Token::new(TokenKind::RightBrace, "}"),
        Token::new(TokenKind::LeftBracket, "["),
        Token::new(TokenKind::RightBracket, "]"),
        Token::new(TokenKind::Plus, "+"),
        Token::new(TokenKind::Minus, "-"),
        Token::new(TokenKind::Asterisk, "*"),
        Token::new(TokenKind::Slash, "/"),
        Token::new(TokenKind::LessThan, "<"),
        Token::new(TokenKind::GreaterThan, ">"),
        eof(),
    ];
    assert_eq!(all_tokens(";(),{}[]+-*/<>", 15), expected);
}

#[test]
fn double_equals_is_one_token() {
    assert_eq!(all_tokens("==", 2), vec![Token::new(TokenKind::Equal, "=="), eof()]);
}

#[test]
fn not_equal_is_one_token() {
    assert_eq!(all_tokens("!=", 2), vec![Token::new(TokenKind::NotEqual, "!="), eof()]);
}

#[test]
fn bang_alone() {
    assert_eq!(all_tokens("!", 2), vec![Token::new(TokenKind::Bang, "!"), eof()]);
}

#[test]
fn assign_alone_and_before_other_characters() {
    assert_eq!(all_tokens("=", 2), vec![Token::new(TokenKind::Assign, "="), eof()]);
    assert_eq!(
        all_tokens("=!", 3),
        vec![Token::new(TokenKind::Assign, "="), Token::new(TokenKind::Bang, "!"), eof()]
    );
    assert_eq!(
        all_tokens("= =", 3),
        vec![Token::new(TokenKind::Assign, "="), Token::new(TokenKind::Assign, "="), eof()]
    );
}

#[test]
fn three_equals_is_equal_then_assign() {
    assert_eq!(
        all_tokens("===", 3),
        vec![Token::new(TokenKind::Equal, "=="), Token::new(TokenKind::Assign, "="), eof()]
    );
    assert_eq!(
        all_tokens("!==", 3),
        vec![Token::new(TokenKind::NotEqual, "!="), Token::new(TokenKind::Assign, "="), eof()]
    );
}

#[test]
fn constant_declaration() {
    let expected = vec![
        Token::new(TokenKind::Constant, "const"),
        Token::new(TokenKind::Identifier, "five"),
        Token::new(TokenKind::Assign, "="),
        Token::new(TokenKind::Int, "5"),
        Token::new(TokenKind::Semicolon, ";"),
        eof(),
    ];
    assert_eq!(all_tokens("const five = 5;", 6), expected);
}

#[test]
fn blanks_never_show_in_tokens() {
    let plain = all_tokens("var a=10;", 6);
    let spaced = all_tokens(" \t\r\nvar \t a\n=\r\n10  ;\n\n", 6);
    assert_eq!(plain, spaced);
    assert_eq!(
        plain,
        vec![
            Token::new(TokenKind::Variable, "var"),
            Token::new(TokenKind::Identifier, "a"),
            Token::new(TokenKind::Assign, "="),
            Token::new(TokenKind::Int, "10"),
            Token::new(TokenKind::Semicolon, ";"),
            eof(),
        ]
    );
}

#[test]
fn blanks_split_names() {
    assert_eq!(
        all_tokens("ab cd", 3),
        vec![
            Token::new(TokenKind::Identifier, "ab"),
            Token::new(TokenKind::Identifier, "cd"),
            eof()
        ]
    );
}

#[test]
fn unknown_characters_are_illegal_and_scanning_goes_on() {
    let expected = vec![
        Token::new(TokenKind::Illegal, "@"),
        Token::new(TokenKind::Illegal, "#"),
        Token::new(TokenKind::Identifier, "x"),
        Token::new(TokenKind::Illegal, "$"),
        Token::new(TokenKind::Int, "1"),
        eof(),
        eof(),
    ];
    assert_eq!(all_tokens("@# x$1", 7), expected);
}

#[test]
fn one_unknown_character_yields_one_token() {
    assert_eq!(all_tokens("@", 3), vec![Token::new(TokenKind::Illegal, "@"), eof(), eof()]);
}

#[test]
fn form_feed_and_vertical_tab_are_not_blanks() {
    assert_eq!(
        all_tokens("a\u{c}b\u{b}", 5),
        vec![
            Token::new(TokenKind::Identifier, "a"),
            Token::new(TokenKind::Illegal, "\u{c}"),
            Token::new(TokenKind::Identifier, "b"),
            Token::new(TokenKind::Illegal, "\u{b}"),
            eof(),
        ]
    );
}

#[test]
fn empty_input_is_at_its_end() {
    assert_eq!(all_tokens("", 3), vec![eof(), eof(), eof()]);
}

#[test]
fn only_blanks_is_at_its_end() {
    assert_eq!(all_tokens(" \t\n\r ", 3), vec![eof(), eof(), eof()]);
}

#[test]
fn end_marker_repeats_forever() {
    let tokens = all_tokens("x", 50);
    assert_eq!(tokens[0], Token::new(TokenKind::Identifier, "x"));
    for token in &tokens[1..] {
        assert_eq!(*token, eof());
    }
}

#[test]
fn every_input_is_drained_within_its_length() {
    let inputs = ["", "a", "== != = !", "@@@@", "  12  ab  ", "\0\0", "a\0b", "{[()]}", "é€٣½"];
    for input in inputs {
        let length = input.chars().count();
        let tokens = all_tokens(input, length + 3);
        for token in &tokens[length..] {
            assert_eq!(*token, eof());
        }
    }
}

#[test]
fn nul_within_the_text_yields_an_end_marker_and_scanning_goes_on() {
    assert_eq!(
        all_tokens("a\0b", 5),
        vec![
            Token::new(TokenKind::Identifier, "a"),
            eof(),
            Token::new(TokenKind::Identifier, "b"),
            eof(),
            eof(),
        ]
    );
}

#[test]
fn digits_do_not_belong_to_names() {
    assert_eq!(
        all_tokens("a1b22", 5),
        vec![
            Token::new(TokenKind::Identifier, "a"),
            Token::new(TokenKind::Int, "1"),
            Token::new(TokenKind::Identifier, "b"),
            Token::new(TokenKind::Int, "22"),
            eof(),
        ]
    );
}

#[test]
fn numbers_keep_leading_zeros() {
    assert_eq!(all_tokens("007", 2), vec![Token::new(TokenKind::Int, "007"), eof()]);
    assert_eq!(
        all_tokens("-5", 3),
        vec![Token::new(TokenKind::Minus, "-"), Token::new(TokenKind::Int, "5"), eof()]
    );
}

#[test]
fn underscores_are_name_characters() {
    assert_eq!(all_tokens("_", 2), vec![Token::new(TokenKind::Identifier, "_"), eof()]);
    assert_eq!(
        all_tokens("snake_case __x", 3),
        vec![
            Token::new(TokenKind::Identifier, "snake_case"),
            Token::new(TokenKind::Identifier, "__x"),
            eof(),
        ]
    );
}

#[test]
fn names_may_hold_letters_beyond_ascii() {
    assert_eq!(
        all_tokens("été = 京", 4),
        vec![
            Token::new(TokenKind::Identifier, "été"),
            Token::new(TokenKind::Assign, "="),
            Token::new(TokenKind::Identifier, "京"),
            eof(),
        ]
    );
}

#[test]
fn symbols_and_digits_beyond_ascii_are_illegal() {
    assert_eq!(
        all_tokens("€٣½", 4),
        vec![
            Token::new(TokenKind::Illegal, "€"),
            Token::new(TokenKind::Illegal, "٣"),
            Token::new(TokenKind::Illegal, "½"),
            eof(),
        ]
    );
}

#[test]
fn keywords_are_exact_and_case_sensitive() {
    assert_eq!(
        all_tokens("function var const true false if else return", 9),
        vec![
            Token::new(TokenKind::Function, "function"),
            Token::new(TokenKind::Variable, "var"),
            Token::new(TokenKind::Constant, "const"),
            Token::new(TokenKind::True, "true"),
            Token::new(TokenKind::False, "false"),
            Token::new(TokenKind::If, "if"),
            Token::new(TokenKind::Else, "else"),
            Token::new(TokenKind::Return, "return"),
            eof(),
        ]
    );
    assert_eq!(
        all_tokens("Function VAR iff returns", 5),
        vec![
            Token::new(TokenKind::Identifier, "Function"),
            Token::new(TokenKind::Identifier, "VAR"),
            Token::new(TokenKind::Identifier, "iff"),
            Token::new(TokenKind::Identifier, "returns"),
            eof(),
        ]
    );
}

#[test]
fn line_tokens_stop_before_the_end_marker() {
    assert_eq!(
        tokens_of_line("var x = 5;\n"),
        vec![
            Token::new(TokenKind::Variable, "var"),
            Token::new(TokenKind::Identifier, "x"),
            Token::new(TokenKind::Assign, "="),
            Token::new(TokenKind::Int, "5"),
            Token::new(TokenKind::Semicolon, ";"),
        ]
    );
    assert_eq!(tokens_of_line(""), Vec::<Token>::new());
    assert_eq!(tokens_of_line("  \n"), Vec::<Token>::new());
}

#[test]
fn line_tokens_stop_at_a_nul() {
    assert_eq!(tokens_of_line("a\0b"), vec![Token::new(TokenKind::Identifier, "a")]);
}

#[test]
fn line_tokens_keep_illegal_ones() {
    assert_eq!(
        tokens_of_line("@ a"),
        vec![Token::new(TokenKind::Illegal, "@"), Token::new(TokenKind::Identifier, "a")]
    );
}
