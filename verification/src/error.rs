//! Diagnostics.

use crate::span::Sp;
use crate::token::{Keyword, LexError, Simple, Token, TokenModel};
use vstd::prelude::*;
use vstd::std_specs::convert::FromSpecImpl;
use vstd::string::StringExecFns;

verus! {

/// What the parser would have accepted where it stopped.
#[derive(Clone, Copy, Debug, PartialEq, Eq, Structural, Hash)]
pub enum Expectation {
    Ident,
    Block,
    Type,
    Expr,
    Pattern,
    Eof,
    FunctionBody,
    Simple(Simple),
    Keyword(Keyword),
}

impl Expectation {
    /// How a diagnostic names what was needed.
    pub open spec fn name(self) -> Seq<char> {
        match self {
            Expectation::Ident => "identifier"@,
            Expectation::Block => "block"@,
            Expectation::Type => "type"@,
            Expectation::Expr => "expression"@,
            Expectation::Pattern => "pattern"@,
            Expectation::Eof => "end of file"@,
            Expectation::FunctionBody => "function body"@,
            Expectation::Simple(s) => s.spelling(),
            Expectation::Keyword(k) => k.spelling(),
        }
    }

    /// How a diagnostic names what was needed.
    pub fn text(self) -> (r: &'static str)
        ensures
            r@ == self.name(),
    {
        match self {
            Expectation::Ident => "identifier",
            Expectation::Block => "block",
            Expectation::Type => "type",
            Expectation::Expr => "expression",
            Expectation::Pattern => "pattern",
            Expectation::Eof => "end of file",
            Expectation::FunctionBody => "function body",
            Expectation::Simple(s) => s.text(),
            Expectation::Keyword(k) => k.text(),
        }
    }

    /// How a diagnostic names what was needed.
    pub fn to_string(&self) -> (r: String)
        ensures
            r@ == self.name(),
    {
        self.text().to_owned()
    }
}

impl From<Simple> for Expectation {
    fn from(simple: Simple) -> (r: Expectation) {
        Expectation::Simple(simple)
    }
}

impl FromSpecImpl<Simple> for Expectation {
    open spec fn obeys_from_spec() -> bool {
        true
    }

    open spec fn from_spec(simple: Simple) -> Expectation {
        Expectation::Simple(simple)
    }
}

impl From<Keyword> for Expectation {
    fn from(keyword: Keyword) -> (r: Expectation) {
        Expectation::Keyword(keyword)
    }
}

impl FromSpecImpl<Keyword> for Expectation {
    open spec fn obeys_from_spec() -> bool {
        true
    }

    open spec fn from_spec(keyword: Keyword) -> Expectation {
        Expectation::Keyword(keyword)
    }
}

/// Why parsing could not go on.
#[derive(Debug, PartialEq, Eq)]
pub enum ParseError {
    /// The lexer failed, so there were no tokens to parse.
    Lex(LexError),
    /// One of the listed things was needed; the token found in its place is
    /// given unless the input had ended.
    Expected(Vec<Expectation>, Option<Box<Sp<Token>>>),
}

/// What a [`ParseError`] stands for.
pub enum ParseErrorModel {
    Lex(Seq<char>),
    Expected(Seq<Expectation>, Option<Sp<TokenModel>>),
}

/// The names of `expectations`, each between backticks, with a comma and a
/// space between one and the next.
pub open spec fn listed(expectations: Seq<Expectation>) -> Seq<char>
    decreases expectations.len(),
{
    if expectations.len() == 0 {
        Seq::empty()
    } else if expectations.len() == 1 {
        "`"@ + expectations[0].name() + "`"@
    } else {
        listed(expectations.drop_last()) + ", "@ + "`"@ + expectations.last().name() + "`"@
    }
}

impl ParseErrorModel {
    /// The diagnostic as a line of text: the lexer's own message, or
    /// `expected` with the list of what was needed and, where a token stood
    /// in its place, `found` with that token.
    pub open spec fn text(self) -> Seq<char> {
        match self {
            ParseErrorModel::Lex(message) => message,
            ParseErrorModel::Expected(expectations, found) => "expected "@ + listed(expectations)
                + match found {
                Some(token) => ", found `"@ + token.value.text() + "`"@,
                None => Seq::empty(),
            },
        }
    }
}

impl ParseError {
    /// The diagnostic as a line of text.
    pub fn to_string(&self) -> (r: String)
        ensures
            r@ == self@.text(),
    {
        match self {
            ParseError::Lex(e) => e.to_string(),
            ParseError::Expected(expectations, found) => {
                let mut r = "expected ".to_owned();
                let mut i: usize = 0;
                while i < expectations.len()
                    invariant
                        i <= expectations.len(),
                        r@ == "expected "@ + listed(expectations@.take(i as int)),
                    decreases expectations.len() - i,
                {
                    let ghost before = expectations@.take(i as int);
                    if i > 0 {
                        r.append(", ");
                    }
                    r.append("`");
                    r.append(expectations[i].text());
                    r.append("`");
                    i += 1;
                    proof {
                        let now = expectations@.take(i as int);
                        assert(now.drop_last() =~= before);
                        assert(now.last() == expectations@[i - 1]);
                        assert(r@ =~= "expected "@ + listed(now));
                    }
                }
                assert(expectations@.take(i as int) =~= expectations@);
                match found {
                    Some(token) => {
                        r.append(", found `");
                        r.append(token.value.to_string().as_str());
                        r.append("`");
                        assert(r@ =~= self@.text());
                    },
                    None => {
                        assert(r@ =~= self@.text());
                    },
                }
                r
            },
        }
    }
}

impl View for ParseError {
    type V = ParseErrorModel;

    open spec fn view(&self) -> ParseErrorModel {
        match self {
            ParseError::Lex(e) => ParseErrorModel::Lex(e@),
            ParseError::Expected(expectations, found) => ParseErrorModel::Expected(
                expectations@,
                match found {
                    Some(token) => Some(token@),
                    None => None,
                },
            ),
        }
    }
}

/// What a sequence of diagnostics stands for.
pub open spec fn error_models(errors: Seq<Sp<ParseError>>) -> Seq<Sp<ParseErrorModel>> {
    errors.map_values(|e: Sp<ParseError>| e@)
}

/// The result of a rule that must match.
pub type ParseResult<T> = Result<T, Sp<ParseError>>;

} // verus!
