//! The rules for items.

use super::{agrees, documentation, Parser};
use crate::ast::{Func, FunctionDef, FunctionId, Item};
use crate::error::ParseResult;
use crate::grammar;
use crate::grammar::Parsed;
use crate::span::Sp;
use crate::token::{Keyword, Simple, Token};
use vstd::string::StringExecFns;
use vstd::prelude::*;

verus! {

impl Parser {
    /// Joins the doc comments that come next into one text: the lines one
    /// behind the other, under the span of all of them.
    #[verifier::spinoff_prover]
    pub fn doc_comment(&mut self) -> (r: Option<Sp<String>>)
        requires
            old(self).well_formed(),
        ensures
            final(self).well_formed(),
            final(self).stream() == old(self).stream(),
            final(self).diagnostics() == old(self).diagnostics(),
            old(self).position() <= final(self).position(),
            (documentation(r), final(self).position()) == grammar::doc_comment(
                old(self).stream(),
                old(self).position(),
                None,
            ),
    {
        let ghost goal = grammar::doc_comment(self.stream(), self.position(), None);
        let mut doc: Option<Sp<String>> = None;
        let mut more = true;
        while more
            invariant
                self.well_formed(),
                self.stream() == old(self).stream(),
                self.diagnostics() == old(self).diagnostics(),
                old(self).position() <= self.position(),
                goal == grammar::doc_comment(old(self).stream(), old(self).position(), None),
                goal == if more {
                    grammar::doc_comment(self.stream(), self.position(), documentation(doc))
                } else {
                    (documentation(doc), self.position())
                },
            decreases
                    self.stream().len() - self.position() + if more {
                        1int
                    } else {
                        0int
                    },
        {
            let k = self.next_index();
            if k < self.tokens.len() {
                let span = self.tokens[k].span;
                match &self.tokens[k].value {
                    Token::DocComment(line) => {
                        doc = Some(
                            match doc {
                                Some(above) => {
                                    let mut text = above.value;
                                    text.append(line.as_str());
                                    Sp { value: text, span: above.span.merge(span) }
                                },
                                None => Sp { value: line.clone(), span },
                            },
                        );
                        self.index = k + 1;
                    },
                    _ => {
                        more = false;
                    },
                }
            } else {
                more = false;
            }
        }
        doc
    }

    /// Reads a function definition if one starts here: doc comments, `fn`,
    /// the name, the parameters, `:` and the body. Without `fn` behind the
    /// doc comments nothing is read.
    #[verifier::spinoff_prover]
    pub fn try_function_def(&mut self) -> (r: ParseResult<Option<FunctionDef>>)
        requires
            old(self).well_formed(),
        ensures
            agrees(
                *old(self),
                *final(self),
                r,
                grammar::try_function_def(old(self).stream(), old(self).position()),
            ),
    {
        proof {
            reveal(grammar::try_function_def);
        }
        let start = self.index;
        let doc = self.doc_comment();
        if self.try_exact(&Token::Keyword(Keyword::Fn)).is_none() {
            self.index = start;
            return Ok(None);
        }
        let name = self.ident()?;
        let ghost params_at = self.position();
        let mut params: Vec<Sp<String>> = Vec::new();
        let mut more = true;
        assert(params@.map_values(|p: Sp<String>| p@) =~= Seq::empty());
        while more
            invariant
                self.well_formed(),
                self.stream() == old(self).stream(),
                self.diagnostics() == old(self).diagnostics(),
                old(self).position() < self.position(),
                grammar::params(self.stream(), params_at, Seq::empty()) == if more {
                    grammar::params(
                        self.stream(),
                        self.position(),
                        params@.map_values(|p: Sp<String>| p@),
                    )
                } else {
                    (params@.map_values(|p: Sp<String>| p@), self.position())
                },
            decreases
                    self.stream().len() - self.position() + if more {
                        1int
                    } else {
                        0int
                    },
        {
            match self.try_ident() {
                Some(param) => {
                    let ghost before = params@.map_values(|p: Sp<String>| p@);
                    params.push(param);
                    assert(params@.map_values(|p: Sp<String>| p@) =~= before.push(param@));
                },
                None => {
                    more = false;
                },
            }
        }
        self.expect(Simple::Colon)?;
        let body = self.block()?;
        let id = FunctionId::Named(name.value.clone());
        Ok(Some(FunctionDef { doc, name, func: Func { id, params, body } }))
    }

    /// Reads an item if one starts here: a function definition, else a
    /// binding, else an expression, and the `;` that closes it. Doc comments
    /// in front of a binding or an expression are passed over.
    #[verifier::spinoff_prover]
    pub fn try_item(&mut self) -> (r: ParseResult<Option<Item>>)
        requires
            old(self).well_formed(),
        ensures
            agrees(
                *old(self),
                *final(self),
                r,
                grammar::try_item(old(self).stream(), old(self).position()),
            ),
    {
        proof {
            reveal(grammar::try_item);
        }
        let start = self.index;
        if let Some(def) = self.try_function_def()? {
            return self.close_item(Item::FunctionDef(def));
        }
        self.doc_comment();
        if let Some(binding) = self.try_binding()? {
            return self.close_item(Item::Binding(binding));
        }
        if let Some(expr) = self.try_expr()? {
            return self.close_item(Item::Expr(expr));
        }
        self.index = start;
        Ok(None)
    }

    /// Closes the item `item`, which has just been read: `;` must come next.
    #[verifier::spinoff_prover]
    fn close_item(&mut self, item: Item) -> (r: ParseResult<Option<Item>>)
        requires
            old(self).well_formed(),
            old(self).stream().len() > 0,
        ensures
            final(self).well_formed(),
            final(self).stream() == old(self).stream(),
            final(self).diagnostics() == old(self).diagnostics(),
            match grammar::close_item(old(self).stream(), old(self).position(), item@) {
                Parsed::Found(value, next) => {
                    &&& r matches Ok(Some(found))
                    &&& found@ == value
                    &&& final(self).position() == next
                    &&& old(self).position() < next
                },
                Parsed::Failed(error, at) => {
                    &&& r matches Err(e)
                    &&& e@ == error
                    &&& final(self).position() == at
                    &&& old(self).position() == at
                },
                Parsed::Absent => false,
            },
    {
        self.expect(Simple::SemiColon)?;
        Ok(Some(item))
    }
}

} // verus!
