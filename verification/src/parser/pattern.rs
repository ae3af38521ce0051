//! The rules for patterns.

use super::{agrees, agrees_required, Parser};
use crate::ast::{pattern_models, Pattern};
use crate::error::{Expectation, ParseResult};
use crate::grammar;
use crate::grammar::Parsed;
use crate::span::{Sp, Span};
use crate::token::{Simple, Token};
use vstd::prelude::*;

verus! {

impl Parser {
    /// Reads a pattern if one starts here: an identifier, or patterns
    /// between square brackets.
    #[verifier::spinoff_prover]
    pub fn try_pattern(&mut self) -> (r: ParseResult<Option<Sp<Pattern>>>)
        requires
            old(self).well_formed(),
        ensures
            agrees(
                *old(self),
                *final(self),
                r,
                grammar::try_pattern(old(self).stream(), old(self).position()),
            ),
        decreases old(self).stream().len() - old(self).position(), 0nat,
    {
        if let Some(name) = self.try_ident() {
            return Ok(Some(Sp { value: Pattern::Ident(name.value), span: name.span }));
        }
        let open = match self.try_exact(&Token::Simple(Simple::OpenBracket)) {
            Some(open) => open,
            None => return Ok(None),
        };
        let list = self.pattern_items(open)?;
        Ok(Some(Sp { value: Pattern::List(list.value), span: list.span }))
    }

    /// Reads the rest of a bracketed list of patterns behind the opening
    /// bracket, whose span is `open`: items with a comma between them, an
    /// optional comma behind the last, and the closing bracket. The list
    /// spans from the opening to the closing bracket.
    #[verifier::spinoff_prover]
    pub fn pattern_items(&mut self, open: Span) -> (r: ParseResult<Sp<Vec<Sp<Pattern>>>>)
        requires
            old(self).well_formed(),
            old(self).stream().len() > 0,
        ensures
            final(self).well_formed(),
            final(self).stream() == old(self).stream(),
            final(self).diagnostics() == old(self).diagnostics(),
            match grammar::pattern_items(
                old(self).stream(),
                old(self).position(),
                open,
                Seq::empty(),
            ) {
                Parsed::Found(list, next) => {
                    &&& r matches Ok(found)
                    &&& pattern_models(found.value@) == list.value
                    &&& found.span == list.span
                    &&& final(self).position() == next
                    &&& old(self).position() < next
                },
                Parsed::Failed(error, at) => {
                    &&& r matches Err(e)
                    &&& e@ == error
                    &&& final(self).position() == at
                    &&& old(self).position() <= at
                },
                Parsed::Absent => false,
            },
        decreases old(self).stream().len() - old(self).position(), 1nat,
    {
        let ghost goal = grammar::pattern_items(
            self.stream(),
            self.position(),
            open,
            Seq::empty(),
        );
        let mut items: Vec<Sp<Pattern>> = Vec::new();
        let mut more = true;
        assert(pattern_models(items@) =~= Seq::empty());
        while more
            invariant
                self.well_formed(),
                self.stream() == old(self).stream(),
                self.diagnostics() == old(self).diagnostics(),
                old(self).position() <= self.position(),
                goal == grammar::pattern_items(
                    old(self).stream(),
                    old(self).position(),
                    open,
                    Seq::empty(),
                ),
                goal == if more {
                    grammar::pattern_items(
                        self.stream(),
                        self.position(),
                        open,
                        pattern_models(items@),
                    )
                } else {
                    grammar::close_list(self.stream(), self.position(), open, pattern_models(items@))
                },
            decreases
                    self.stream().len() - self.position() + if more {
                        1int
                    } else {
                        0int
                    },
        {
            match self.try_pattern()? {
                Some(item) => {
                    let ghost before = pattern_models(items@);
                    items.push(item);
                    assert(pattern_models(items@) =~= before.push(item@));
                    if self.try_exact(&Token::Simple(Simple::Comma)).is_none() {
                        more = false;
                    }
                },
                None => {
                    more = false;
                },
            }
        }
        let close = self.expect(Simple::CloseBracket)?;
        Ok(Sp { value: items, span: open.merge(close) })
    }

    /// Reads a pattern, which must come next.
    #[verifier::spinoff_prover]
    pub fn pattern(&mut self) -> (r: ParseResult<Sp<Pattern>>)
        requires
            old(self).well_formed(),
            old(self).stream().len() > 0,
        ensures
            agrees_required(
                *old(self),
                *final(self),
                r,
                grammar::pattern(old(self).stream(), old(self).position()),
            ),
    {
        match self.try_pattern()? {
            Some(pattern) => Ok(pattern),
            None => Err(self.missing(Expectation::Pattern)),
        }
    }
}

} // verus!
