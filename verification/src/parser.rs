//! The parser: a cursor over the tokens, and one method for each rule of
//! the grammar.

use crate::ast::{item_models, Item};
use crate::error::{error_models, Expectation, ParseError, ParseErrorModel, ParseResult};
use crate::grammar;
use crate::grammar::{Parsed, Stream};
use crate::span::{Sp, Span};
use crate::token::{token_models, Keyword, LexError, Simple, Token, TokenModel};
use vstd::prelude::*;

mod expr;
mod item;
mod pattern;

verus! {

/// A token with a fixed spelling, which a diagnostic can ask for by name.
pub trait Fixed: Copy {
    /// The token.
    spec fn token(self) -> TokenModel;

    /// How a diagnostic asks for the token.
    spec fn expectation(self) -> Expectation;

    /// The token.
    fn to_token(self) -> (r: Token)
        ensures
            r@ == self.token(),
    ;

    /// How a diagnostic asks for the token.
    fn to_expectation(self) -> (r: Expectation)
        ensures
            r == self.expectation(),
    ;
}

impl Fixed for Simple {
    open spec fn token(self) -> TokenModel {
        TokenModel::Simple(self)
    }

    open spec fn expectation(self) -> Expectation {
        Expectation::Simple(self)
    }

    fn to_token(self) -> (r: Token) {
        Token::Simple(self)
    }

    fn to_expectation(self) -> (r: Expectation) {
        Expectation::Simple(self)
    }
}

impl Fixed for Keyword {
    open spec fn token(self) -> TokenModel {
        TokenModel::Keyword(self)
    }

    open spec fn expectation(self) -> Expectation {
        Expectation::Keyword(self)
    }

    fn to_token(self) -> (r: Token) {
        Token::Keyword(self)
    }

    fn to_expectation(self) -> (r: Expectation) {
        Expectation::Keyword(self)
    }
}

/// The tokens, the position of the next one to read, and the diagnostics
/// collected so far.
pub struct Parser {
    tokens: Vec<Sp<Token>>,
    index: usize,
    errors: Vec<Sp<ParseError>>,
}

/// Whether the outcome `r` of a rule that may find nothing, which took the
/// parser from `before` to `after`, is what the grammar reads: the same
/// value or diagnostic, and the same position. Tokens and collected
/// diagnostics stay as they were; the position stays where nothing was found
/// and moves forward otherwise.
pub open spec fn agrees<T: View>(
    before: Parser,
    after: Parser,
    r: ParseResult<Option<T>>,
    parsed: Parsed<T::V>,
) -> bool {
    &&& after.well_formed()
    &&& after.stream() == before.stream()
    &&& after.diagnostics() == before.diagnostics()
    &&& match parsed {
        Parsed::Absent => r matches Ok(None) && after.position() == before.position(),
        Parsed::Found(value, next) => {
            &&& r matches Ok(Some(found))
            &&& found@ == value
            &&& after.position() == next
            &&& before.position() < next
        },
        Parsed::Failed(error, at) => {
            &&& r matches Err(e)
            &&& e@ == error
            &&& after.position() == at
            &&& before.position() < at
        },
    }
}

/// Whether the outcome `r` of a rule that must find something, which took
/// the parser from `before` to `after`, is what the grammar reads. Tokens and
/// collected diagnostics stay as they were; the position moves forward with a
/// value and never moves back.
pub open spec fn agrees_required<T: View>(
    before: Parser,
    after: Parser,
    r: ParseResult<T>,
    parsed: Parsed<T::V>,
) -> bool {
    &&& after.well_formed()
    &&& after.stream() == before.stream()
    &&& after.diagnostics() == before.diagnostics()
    &&& match parsed {
        Parsed::Absent => false,
        Parsed::Found(value, next) => {
            &&& r matches Ok(found)
            &&& found@ == value
            &&& after.position() == next
            &&& before.position() < next
        },
        Parsed::Failed(error, at) => {
            &&& r matches Err(e)
            &&& e@ == error
            &&& after.position() == at
            &&& before.position() <= at
        },
    }
}

impl Parser {
    /// The position lies inside the input or at its end.
    pub closed spec fn well_formed(&self) -> bool {
        self.index <= self.tokens.len()
    }

    /// The tokens.
    pub closed spec fn stream(&self) -> Stream {
        token_models(self.tokens@)
    }

    /// The position of the next token to read.
    pub closed spec fn position(&self) -> int {
        self.index as int
    }

    /// The diagnostics collected so far.
    pub closed spec fn diagnostics(&self) -> Seq<Sp<ParseErrorModel>> {
        error_models(self.errors@)
    }

    /// A parser at the start of `tokens`, with no diagnostics.
    pub fn new(tokens: Vec<Sp<Token>>) -> (r: Parser)
        ensures
            r.well_formed(),
            r.stream() == token_models(tokens@),
            r.position() == 0,
            r.diagnostics() == Seq::<Sp<ParseErrorModel>>::empty(),
    {
        Parser { tokens, index: 0, errors: Vec::new() }
    }

    /// The position of the next token to read.
    pub fn index(&self) -> (r: usize)
        ensures
            r == self.position(),
    {
        self.index
    }

    /// The diagnostics collected so far.
    pub fn errors(&self) -> (r: &Vec<Sp<ParseError>>)
        ensures
            error_models(r@) == self.diagnostics(),
    {
        &self.errors
    }

    /// The position of the next token that is not a comment.
    fn next_index(&self) -> (k: usize)
        requires
            self.well_formed(),
        ensures
            k == grammar::next_index(self.stream(), self.position()),
            self.index <= k <= self.tokens.len(),
    {
        let mut k = self.index;
        while k < self.tokens.len() && self.tokens[k].value.is_comment()
            invariant
                self.index <= k <= self.tokens.len(),
                grammar::leading_comments(self.stream(), self.index as int) == (k - self.index)
                    + grammar::leading_comments(self.stream(), k as int),
            decreases self.tokens.len() - k,
        {
            k += 1;
        }
        k
    }

    /// The next token that is not a comment, if the input has not ended.
    /// The position stays where it is.
    pub fn peek(&self) -> (r: Option<&Sp<Token>>)
        requires
            self.well_formed(),
        ensures
            match r {
                Some(token) => grammar::peek(self.stream(), self.position()) == Some(token@),
                None => grammar::peek(self.stream(), self.position()) is None,
            },
    {
        let k = self.next_index();
        if k < self.tokens.len() {
            Some(&self.tokens[k])
        } else {
            None
        }
    }

    /// Moves behind the next token that is not a comment, or to the end of
    /// the input where there is none.
    pub fn advance(&mut self)
        requires
            old(self).well_formed(),
        ensures
            final(self).well_formed(),
            final(self).stream() == old(self).stream(),
            final(self).diagnostics() == old(self).diagnostics(),
            final(self).position() == if grammar::peek(old(self).stream(), old(self).position())
                is Some {
                grammar::next_index(old(self).stream(), old(self).position()) + 1
            } else {
                old(self).stream().len() as int
            },
    {
        let k = self.next_index();
        if k < self.tokens.len() {
            self.index = k + 1;
        } else {
            self.index = k;
        }
    }

    /// Reads `token` if it is the next token that is not a comment, and
    /// gives its span. Otherwise the position stays where it is.
    pub fn try_exact(&mut self, token: &Token) -> (r: Option<Span>)
        requires
            old(self).well_formed(),
        ensures
            final(self).well_formed(),
            final(self).stream() == old(self).stream(),
            final(self).diagnostics() == old(self).diagnostics(),
            match grammar::exact(old(self).stream(), old(self).position(), token@) {
                Parsed::Found(span, next) => {
                    &&& r == Some(span)
                    &&& final(self).position() == next
                    &&& old(self).position() < next
                },
                _ => r is None && final(self).position() == old(self).position(),
            },
    {
        let k = self.next_index();
        if k < self.tokens.len() && self.tokens[k].value.same_as(token) {
            let span = self.tokens[k].span;
            self.index = k + 1;
            Some(span)
        } else {
            None
        }
    }

    /// The span that a diagnostic points to here: that of the next token
    /// that is not a comment, or at the end of the input the empty span just
    /// behind the last token.
    pub fn last_span(&self) -> (r: Span)
        requires
            self.well_formed(),
            self.stream().len() > 0,
        ensures
            r == grammar::last_span(self.stream(), self.position()),
    {
        let k = self.next_index();
        if k < self.tokens.len() {
            self.tokens[k].span
        } else {
            let end = self.tokens[self.tokens.len() - 1].span.end;
            Span { start: end, end }
        }
    }

    /// The diagnostic for this position when one of `expectations` was
    /// needed. It names the next token that is not a comment, unless the
    /// input has ended.
    pub fn expected(&self, expectations: Vec<Expectation>) -> (r: Sp<ParseError>)
        requires
            self.well_formed(),
            self.stream().len() > 0,
        ensures
            r@ == grammar::unexpected(self.stream(), self.position(), expectations@),
    {
        let span = self.last_span();
        let k = self.next_index();
        let found = if k < self.tokens.len() {
            let token = &self.tokens[k];
            Some(Box::new(Sp { value: token.value.clone(), span: token.span }))
        } else {
            None
        };
        Sp { value: ParseError::Expected(expectations, found), span }
    }

    /// The diagnostic for this position when `what` was needed.
    fn missing(&self, what: Expectation) -> (r: Sp<ParseError>)
        requires
            self.well_formed(),
            self.stream().len() > 0,
        ensures
            r@ == grammar::unexpected(self.stream(), self.position(), seq![what]),
    {
        let expectations = vec![what];
        assert(expectations@ =~= seq![what]);
        self.expected(expectations)
    }

    /// Records, without stopping, that one of `expectations` was needed
    /// here. The diagnostic names no token.
    pub fn expected_continue(&mut self, expectations: Vec<Expectation>)
        requires
            old(self).well_formed(),
            old(self).stream().len() > 0,
        ensures
            final(self).well_formed(),
            final(self).stream() == old(self).stream(),
            final(self).position() == old(self).position(),
            final(self).diagnostics() == old(self).diagnostics().push(
                Sp {
                    value: ParseErrorModel::Expected(expectations@, None),
                    span: grammar::last_span(old(self).stream(), old(self).position()),
                },
            ),
    {
        let span = self.last_span();
        let error = Sp { value: ParseError::Expected(expectations, None), span };
        self.errors.push(error);
        assert(self.diagnostics() =~= old(self).diagnostics().push(error@));
    }

    /// Reads the token `val`, which must come next. Where it does not, the
    /// position stays and the diagnostic asks for it.
    pub fn expect<T: Fixed>(&mut self, val: T) -> (r: ParseResult<Span>)
        requires
            old(self).well_formed(),
            old(self).stream().len() > 0,
        ensures
            final(self).well_formed(),
            final(self).stream() == old(self).stream(),
            final(self).diagnostics() == old(self).diagnostics(),
            match grammar::expect(
                old(self).stream(),
                old(self).position(),
                val.token(),
                val.expectation(),
            ) {
                Parsed::Found(span, next) => {
                    &&& r == Ok::<Span, Sp<ParseError>>(span)
                    &&& final(self).position() == next
                    &&& old(self).position() < next
                },
                Parsed::Failed(error, at) => {
                    &&& r matches Err(e)
                    &&& e@ == error
                    &&& final(self).position() == at
                    &&& old(self).position() == at
                },
                Parsed::Absent => false,
            },
    {
        let token = val.to_token();
        match self.try_exact(&token) {
            Some(span) => Ok(span),
            None => Err(self.missing(val.to_expectation())),
        }
    }

    /// Reads an identifier if one comes next.
    pub fn try_ident(&mut self) -> (r: Option<Sp<String>>)
        requires
            old(self).well_formed(),
        ensures
            agrees(
                *old(self),
                *final(self),
                Ok::<Option<Sp<String>>, Sp<ParseError>>(r),
                grammar::try_ident(old(self).stream(), old(self).position()),
            ),
    {
        let k = self.next_index();
        if k < self.tokens.len() {
            match &self.tokens[k].value {
                Token::Ident(name) => {
                    let found = Sp { value: name.clone(), span: self.tokens[k].span };
                    self.index = k + 1;
                    Some(found)
                },
                _ => None,
            }
        } else {
            None
        }
    }

    /// Reads an identifier, which must come next.
    pub fn ident(&mut self) -> (r: ParseResult<Sp<String>>)
        requires
            old(self).well_formed(),
            old(self).stream().len() > 0,
        ensures
            agrees_required(
                *old(self),
                *final(self),
                r,
                grammar::ident(old(self).stream(), old(self).position()),
            ),
    {
        match self.try_ident() {
            Some(name) => Ok(name),
            None => Err(self.missing(Expectation::Ident)),
        }
    }
}

/// What documentation stands for, where there is any.
pub open spec fn documentation(doc: Option<Sp<String>>) -> Option<Sp<Seq<char>>> {
    match doc {
        Some(text) => Some(text@),
        None => None,
    }
}

/// Parses what a lexer made of a source text. Gives the items that could be
/// read and every diagnostic met, in the order of the source.
///
/// Where the lexer failed there are no items, and its error is the one
/// diagnostic. Otherwise items are read until none starts; a diagnostic from
/// inside an item is recorded and reading goes on from where it was noticed.
/// Where tokens other than comments and doc comments are left in the end,
/// the last diagnostic asks for the end of the input there.
#[verifier::spinoff_prover]
pub fn parse(lexed: Result<Vec<Sp<Token>>, Sp<LexError>>) -> (r: (Vec<Item>, Vec<Sp<ParseError>>))
    ensures
        match lexed {
            Ok(tokens) => (
                item_models(r.0@),
                error_models(r.1@),
            ) == grammar::parse(token_models(tokens@)),
            Err(e) => {
                &&& r.0@.len() == 0
                &&& error_models(r.1@) == seq![
                    Sp { value: ParseErrorModel::Lex(e.value@), span: e.span },
                ]
            },
        },
{
    let tokens = match lexed {
        Ok(tokens) => tokens,
        Err(e) => {
            let errors = vec![Sp { value: ParseError::Lex(e.value), span: e.span }];
            assert(error_models(errors@) =~= seq![
                Sp { value: ParseErrorModel::Lex(e.value@), span: e.span },
            ]);
            return (Vec::new(), errors);
        },
    };
    let ghost stream = token_models(tokens@);
    let mut parser = Parser::new(tokens);
    let mut items: Vec<Item> = Vec::new();
    let mut more = true;
    assert(item_models(items@) =~= Seq::empty());
    while more
        invariant
            parser.well_formed(),
            parser.stream() == stream,
            grammar::items(stream, 0, Seq::empty(), Seq::empty()) == grammar::items(
                stream,
                parser.position(),
                item_models(items@),
                parser.diagnostics(),
            ),
            !more ==> grammar::try_item(stream, parser.position()) is Absent,
        decreases
                stream.len() - parser.position() + if more {
                    1int
                } else {
                    0int
                },
    {
        let ghost found = item_models(items@);
        let ghost errors = parser.diagnostics();
        match parser.try_item() {
            Ok(Some(item)) => {
                items.push(item);
                assert(item_models(items@) =~= found.push(item@));
            },
            Ok(None) => {
                more = false;
            },
            Err(e) => {
                parser.errors.push(e);
                assert(parser.diagnostics() =~= errors.push(e@));
            },
        }
    }
    parser.doc_comment();
    if parser.next_index() != parser.tokens.len() {
        let e = parser.missing(Expectation::Eof);
        let ghost errors = parser.diagnostics();
        parser.errors.push(e);
        assert(parser.diagnostics() =~= errors.push(e@));
    }
    (items, parser.errors)
}

} // verus!
