//! Tokens: a kind paired with the text it was scanned from.

use vstd::prelude::*;

verus! {

/// The closed set of token kinds.
#[derive(Debug, Clone, Copy, PartialEq, Eq, Structural)]
pub enum TokenKind {
    Illegal,
    EOF,
    Identifier,
    Int,
    Assign,
    Plus,
    Minus,
    Bang,
    Asterisk,
    Slash,
    LessThan,
    GreaterThan,
    Equal,
    NotEqual,
    Comma,
    Semicolon,
    LeftParenthesis,
    RightParenthesis,
    LeftBrace,
    RightBrace,
    LeftBracket,
    RightBracket,
    Function,
    Variable,
    Constant,
    True,
    False,
    If,
    Else,
    Return,
}

/// A token: its kind and the exact text that produced it.
#[derive(Debug, PartialEq)]
pub struct Token {
    pub kind: TokenKind,
    pub literal: String,
}

/// What a token is, as mathematics: its kind and its text as a sequence of
/// characters.
pub struct TokenView {
    pub kind: TokenKind,
    pub literal: Seq<char>,
}

impl View for Token {
    type V = TokenView;

    open spec fn view(&self) -> TokenView {
        TokenView { kind: self.kind, literal: self.literal@ }
    }
}

/// The views of a sequence of tokens, in the same order.
pub open spec fn token_views(tokens: Seq<Token>) -> Seq<TokenView> {
    tokens.map_values(|token: Token| token@)
}

/// The kind that a scanned name has: that of the reserved word it spells, or
/// `Identifier` for every other text. The match is exact and case-sensitive.
pub open spec fn keyword_or_identifier(text: Seq<char>) -> TokenKind {
    if text =~= seq!['f', 'u', 'n', 'c', 't', 'i', 'o', 'n'] {
        TokenKind::Function
    } else if text =~= seq!['v', 'a', 'r'] {
        TokenKind::Variable
    } else if text =~= seq!['c', 'o', 'n', 's', 't'] {
        TokenKind::Constant
    } else if text =~= seq!['t', 'r', 'u', 'e'] {
        TokenKind::True
    } else if text =~= seq!['f', 'a', 'l', 's', 'e'] {
        TokenKind::False
    } else if text =~= seq!['i', 'f'] {
        TokenKind::If
    } else if text =~= seq!['e', 'l', 's', 'e'] {
        TokenKind::Else
    } else if text =~= seq!['r', 'e', 't', 'u', 'r', 'n'] {
        TokenKind::Return
    } else {
        TokenKind::Identifier
    }
}

impl TokenKind {
    /// How this kind is shown: operators and punctuation by their symbol,
    /// every other kind by its name.
    pub open spec fn shown(self) -> Seq<char> {
        match self {
            TokenKind::Illegal => "Illegal"@,
            TokenKind::EOF => "EOF"@,
            TokenKind::Identifier => "Identifier"@,
            TokenKind::Int => "Int"@,
            TokenKind::Assign => "="@,
            TokenKind::Plus => "+"@,
            TokenKind::Minus => "-"@,
            TokenKind::Bang => "!"@,
            TokenKind::Asterisk => "*"@,
            TokenKind::Slash => "/"@,
            TokenKind::LessThan => "<"@,
            TokenKind::GreaterThan => ">"@,
            TokenKind::Equal => "=="@,
            TokenKind::NotEqual => "!="@,
            TokenKind::Comma => ","@,
            TokenKind::Semicolon => ";"@,
            TokenKind::LeftParenthesis => "("@,
            TokenKind::RightParenthesis => ")"@,
            TokenKind::LeftBrace => "{"@,
            TokenKind::RightBrace => "}"@,
            TokenKind::LeftBracket => "["@,
            TokenKind::RightBracket => "]"@,
            TokenKind::Function => "Function"@,
            TokenKind::Variable => "Variable"@,
            TokenKind::Constant => "Constant"@,
            TokenKind::True => "True"@,
            TokenKind::False => "False"@,
            TokenKind::If => "If"@,
            TokenKind::Else => "Else"@,
            TokenKind::Return => "Return"@,
        }
    }

    /// The text that shows this kind.
    pub fn to_string(&self) -> (s: String)
        ensures
            s@ == self.shown(),
    {
        match self {
            TokenKind::Illegal => String::from_str("Illegal"),
            TokenKind::EOF => String::from_str("EOF"),
            TokenKind::Identifier => String::from_str("Identifier"),
            TokenKind::Int => String::from_str("Int"),
            TokenKind::Assign => String::from_str("="),
            TokenKind::Plus => String::from_str("+"),
            TokenKind::Minus => String::from_str("-"),
            TokenKind::Bang => String::from_str("!"),
            TokenKind::Asterisk => String::from_str("*"),
            TokenKind::Slash => String::from_str("/"),
            TokenKind::LessThan => String::from_str("<"),
            TokenKind::GreaterThan => String::from_str(">"),
            TokenKind::Equal => String::from_str("=="),
            TokenKind::NotEqual => String::from_str("!="),
            TokenKind::Comma => String::from_str(","),
            TokenKind::Semicolon => String::from_str(";"),
            TokenKind::LeftParenthesis => String::from_str("("),
            TokenKind::RightParenthesis => String::from_str(")"),
            TokenKind::LeftBrace => String::from_str("{"),
            TokenKind::RightBrace => String::from_str("}"),
            TokenKind::LeftBracket => String::from_str("["),
            TokenKind::RightBracket => String::from_str("]"),
            TokenKind::Function => String::from_str("Function"),
            TokenKind::Variable => String::from_str("Variable"),
            TokenKind::Constant => String::from_str("Constant"),
            TokenKind::True => String::from_str("True"),
            TokenKind::False => String::from_str("False"),
            TokenKind::If => String::from_str("If"),
            TokenKind::Else => String::from_str("Else"),
            TokenKind::Return => String::from_str("Return"),
        }
    }

    /// Classifies a scanned name as a reserved word or an identifier.
    pub fn lookup_identifier(literal: &str) -> (kind: TokenKind)
        ensures
            kind == keyword_or_identifier(literal@),
    {
        proof {
            reveal_strlit("function");
            reveal_strlit("var");
            reveal_strlit("const");
            reveal_strlit("true");
            reveal_strlit("false");
            reveal_strlit("if");
            reveal_strlit("else");
            reveal_strlit("return");
            assert("function"@ =~= seq!['f', 'u', 'n', 'c', 't', 'i', 'o', 'n']);
            assert("var"@ =~= seq!['v', 'a', 'r']);
            assert("const"@ =~= seq!['c', 'o', 'n', 's', 't']);
            assert("true"@ =~= seq!['t', 'r', 'u', 'e']);
            assert("false"@ =~= seq!['f', 'a', 'l', 's', 'e']);
            assert("if"@ =~= seq!['i', 'f']);
            assert("else"@ =~= seq!['e', 'l', 's', 'e']);
            assert("return"@ =~= seq!['r', 'e', 't', 'u', 'r', 'n']);
        }
        if literal.eq("function") {
            TokenKind::Function
        } else if literal.eq("var") {
            TokenKind::Variable
        } else if literal.eq("const") {
            TokenKind::Constant
        } else if literal.eq("true") {
            TokenKind::True
        } else if literal.eq("false") {
            TokenKind::False
        } else if literal.eq("if") {
            TokenKind::If
        } else if literal.eq("else") {
            TokenKind::Else
        } else if literal.eq("return") {
            TokenKind::Return
        } else {
            TokenKind::Identifier
        }
    }
}

impl Clone for Token {
    fn clone(&self) -> (token: Token)
        ensures
            token@ == self@,
    {
        Token { kind: self.kind, literal: self.literal.clone() }
    }
}

impl Token {
    /// Builds a token of the given kind whose text is a copy of `literal`.
    pub fn new(kind: TokenKind, literal: &str) -> (token: Token)
        ensures
            token.kind == kind,
            token.literal@ == literal@,
    {
        Token { kind, literal: String::from_str(literal) }
    }
}

} // verus!
