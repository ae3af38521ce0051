//! The tokens that the parser reads.

use crate::span::Sp;
use vstd::prelude::*;
use vstd::string::StringExecFns;

verus! {

/// Punctuation and operators.
#[derive(Clone, Copy, Debug, PartialEq, Eq, Structural, Hash)]
pub enum Simple {
    OpenParen,
    CloseParen,
    OpenBracket,
    CloseBracket,
    OpenCurly,
    CloseCurly,
    Colon,
    SemiColon,
    Comma,
    Elipses,
    Equal,
    NotEqual,
    Less,
    LessEqual,
    Greater,
    GreaterEqual,
    Plus,
    Minus,
    Star,
    Slash,
}

impl Simple {
    /// How the token is written in source text.
    pub open spec fn spelling(self) -> Seq<char> {
        match self {
            Simple::OpenParen => "("@,
            Simple::CloseParen => ")"@,
            Simple::OpenBracket => "["@,
            Simple::CloseBracket => "]"@,
            Simple::OpenCurly => "{"@,
            Simple::CloseCurly => "}"@,
            Simple::Colon => ":"@,
            Simple::SemiColon => ";"@,
            Simple::Comma => ","@,
            Simple::Elipses => ".."@,
            Simple::Equal => "="@,
            Simple::NotEqual => "!="@,
            Simple::Less => "<"@,
            Simple::LessEqual => "<="@,
            Simple::Greater => ">"@,
            Simple::GreaterEqual => ">="@,
            Simple::Plus => "+"@,
            Simple::Minus => "-"@,
            Simple::Star => "*"@,
            Simple::Slash => "/"@,
        }
    }

    /// How the token is written in source text.
    pub fn text(self) -> (r: &'static str)
        ensures
            r@ == self.spelling(),
    {
        match self {
            Simple::OpenParen => "(",
            Simple::CloseParen => ")",
            Simple::OpenBracket => "[",
            Simple::CloseBracket => "]",
            Simple::OpenCurly => "{",
            Simple::CloseCurly => "}",
            Simple::Colon => ":",
            Simple::SemiColon => ";",
            Simple::Comma => ",",
            Simple::Elipses => "..",
            Simple::Equal => "=",
            Simple::NotEqual => "!=",
            Simple::Less => "<",
            Simple::LessEqual => "<=",
            Simple::Greater => ">",
            Simple::GreaterEqual => ">=",
            Simple::Plus => "+",
            Simple::Minus => "-",
            Simple::Star => "*",
            Simple::Slash => "/",
        }
    }
}

/// Reserved words.
#[derive(Clone, Copy, Debug, PartialEq, Eq, Structural, Hash)]
pub enum Keyword {
    Fn,
    Let,
    If,
    Then,
    Else,
    And,
    Or,
    True,
    False,
}

impl Keyword {
    /// How the keyword is written in source text.
    pub open spec fn spelling(self) -> Seq<char> {
        match self {
            Keyword::Fn => "fn"@,
            Keyword::Let => "let"@,
            Keyword::If => "if"@,
            Keyword::Then => "then"@,
            Keyword::Else => "else"@,
            Keyword::And => "and"@,
            Keyword::Or => "or"@,
            Keyword::True => "true"@,
            Keyword::False => "false"@,
        }
    }

    /// How the keyword is written in source text.
    pub fn text(self) -> (r: &'static str)
        ensures
            r@ == self.spelling(),
    {
        match self {
            Keyword::Fn => "fn",
            Keyword::Let => "let",
            Keyword::If => "if",
            Keyword::Then => "then",
            Keyword::Else => "else",
            Keyword::And => "and",
            Keyword::Or => "or",
            Keyword::True => "true",
            Keyword::False => "false",
        }
    }
}

/// One token of source text.
#[derive(Debug, PartialEq, Eq)]
pub enum Token {
    Simple(Simple),
    Keyword(Keyword),
    Ident(String),
    Int(String),
    Real(String),
    Comment(String),
    DocComment(String),
}

/// What a [`Token`] stands for: the same variants over sequences of characters.
pub enum TokenModel {
    Simple(Simple),
    Keyword(Keyword),
    Ident(Seq<char>),
    Int(Seq<char>),
    Real(Seq<char>),
    Comment(Seq<char>),
    DocComment(Seq<char>),
}

impl TokenModel {
    /// How the token reads in a diagnostic: fixed tokens by their spelling,
    /// identifiers and literals by their text, comments behind their marks.
    pub open spec fn text(self) -> Seq<char> {
        match self {
            TokenModel::Simple(s) => s.spelling(),
            TokenModel::Keyword(k) => k.spelling(),
            TokenModel::Ident(name) => name,
            TokenModel::Int(digits) => digits,
            TokenModel::Real(digits) => digits,
            TokenModel::Comment(text) => "//"@ + text,
            TokenModel::DocComment(text) => "///"@ + text,
        }
    }
}

impl View for Token {
    type V = TokenModel;

    open spec fn view(&self) -> TokenModel {
        match self {
            Token::Simple(s) => TokenModel::Simple(*s),
            Token::Keyword(k) => TokenModel::Keyword(*k),
            Token::Ident(name) => TokenModel::Ident(name@),
            Token::Int(digits) => TokenModel::Int(digits@),
            Token::Real(digits) => TokenModel::Real(digits@),
            Token::Comment(text) => TokenModel::Comment(text@),
            Token::DocComment(text) => TokenModel::DocComment(text@),
        }
    }
}

/// What a sequence of tokens stands for.
pub open spec fn token_models(tokens: Seq<Sp<Token>>) -> Seq<Sp<TokenModel>> {
    tokens.map_values(|t: Sp<Token>| t@)
}

impl Clone for Token {
    fn clone(&self) -> (r: Token)
        ensures
            r@ == self@,
    {
        match self {
            Token::Simple(s) => Token::Simple(*s),
            Token::Keyword(k) => Token::Keyword(*k),
            Token::Ident(name) => Token::Ident(name.clone()),
            Token::Int(digits) => Token::Int(digits.clone()),
            Token::Real(digits) => Token::Real(digits.clone()),
            Token::Comment(text) => Token::Comment(text.clone()),
            Token::DocComment(text) => Token::DocComment(text.clone()),
        }
    }
}

impl Token {
    /// Whether the two tokens are the same variant with the same content.
    pub fn same_as(&self, other: &Token) -> (r: bool)
        ensures
            r == (self@ == other@),
    {
        match (self, other) {
            (Token::Simple(a), Token::Simple(b)) => *a == *b,
            (Token::Keyword(a), Token::Keyword(b)) => *a == *b,
            (Token::Ident(a), Token::Ident(b)) => *a == *b,
            (Token::Int(a), Token::Int(b)) => *a == *b,
            (Token::Real(a), Token::Real(b)) => *a == *b,
            (Token::Comment(a), Token::Comment(b)) => *a == *b,
            (Token::DocComment(a), Token::DocComment(b)) => *a == *b,
            _ => false,
        }
    }

    /// How the token reads in a diagnostic.
    pub fn to_string(&self) -> (r: String)
        ensures
            r@ == self@.text(),
    {
        match self {
            Token::Simple(s) => s.text().to_owned(),
            Token::Keyword(k) => k.text().to_owned(),
            Token::Ident(name) => name.clone(),
            Token::Int(digits) => digits.clone(),
            Token::Real(digits) => digits.clone(),
            Token::Comment(text) => {
                let mut r = "//".to_owned();
                r.append(text.as_str());
                r
            },
            Token::DocComment(text) => {
                let mut r = "///".to_owned();
                r.append(text.as_str());
                r
            },
        }
    }

    /// Whether the token is an ordinary comment.
    pub fn is_comment(&self) -> (r: bool)
        ensures
            r == (self@ is Comment),
    {
        match self {
            Token::Comment(_) => true,
            _ => false,
        }
    }
}

/// The failure that a lexer reports in place of tokens.
#[derive(Debug, PartialEq, Eq)]
pub struct LexError {
    pub message: String,
}

impl LexError {
    /// The lexer's own message.
    pub fn to_string(&self) -> (r: String)
        ensures
            r@ == self@,
    {
        self.message.clone()
    }
}

impl View for LexError {
    type V = Seq<char>;

    open spec fn view(&self) -> Seq<char> {
        self.message@
    }
}

} // verus!
