//! The rules for expressions, bindings and blocks.

use super::{agrees, agrees_required, Parser};
use crate::ast::{binding_models, expr_models, BinExpr, BinOp, Binding, Block, CallExpr, Expr, IfExpr, LogicExpr, LogicOp};
use crate::error::{Expectation, ParseError, ParseResult};
use crate::grammar;
use crate::grammar::{Level, Parsed};
use crate::span::{Sp, Span};
use crate::token::{Keyword, Simple, Token};
use vstd::prelude::*;

verus! {

impl Parser {
    /// Reads an expression if one starts here.
    #[verifier::spinoff_prover]
    pub fn try_expr(&mut self) -> (r: ParseResult<Option<Sp<Expr>>>)
        requires
            old(self).well_formed(),
        ensures
            agrees(
                *old(self),
                *final(self),
                r,
                grammar::try_expr(old(self).stream(), old(self).position()),
            ),
        decreases old(self).stream().len() - old(self).position(), 15nat,
    {
        self.try_or_expr()
    }

    /// Reads an expression, which must come next.
    #[verifier::spinoff_prover]
    pub fn expr(&mut self) -> (r: ParseResult<Sp<Expr>>)
        requires
            old(self).well_formed(),
            old(self).stream().len() > 0,
        ensures
            agrees_required(
                *old(self),
                *final(self),
                r,
                grammar::expr(old(self).stream(), old(self).position()),
            ),
        decreases old(self).stream().len() - old(self).position(), 16nat,
    {
        let found = self.try_expr()?;
        self.expect_expr(found)
    }

    /// Insists on an expression: gives `found` if it holds one, else the
    /// diagnostic that asks for an expression here.
    pub fn expect_expr(&self, found: Option<Sp<Expr>>) -> (r: ParseResult<Sp<Expr>>)
        requires
            self.well_formed(),
            self.stream().len() > 0,
        ensures
            match found {
                Some(expr) => r == Ok::<Sp<Expr>, Sp<ParseError>>(expr),
                None => r matches Err(e) && e@ == grammar::unexpected(
                    self.stream(),
                    self.position(),
                    seq![Expectation::Expr],
                ),
            },
    {
        match found {
            Some(expr) => Ok(expr),
            None => Err(self.missing(Expectation::Expr)),
        }
    }

    /// Reads an `and` expression and, if `or` follows, one more. A second
    /// `or` is left unread.
    #[verifier::spinoff_prover]
    pub fn try_or_expr(&mut self) -> (r: ParseResult<Option<Sp<Expr>>>)
        requires
            old(self).well_formed(),
        ensures
            agrees(
                *old(self),
                *final(self),
                r,
                grammar::try_or_expr(old(self).stream(), old(self).position()),
            ),
        decreases old(self).stream().len() - old(self).position(), 14nat,
    {
        let left = match self.try_and_expr()? {
            Some(left) => left,
            None => return Ok(None),
        };
        let op_span = match self.try_exact(&Token::Keyword(Keyword::Or)) {
            Some(op_span) => op_span,
            None => return Ok(Some(left)),
        };
        let op = Sp { value: LogicOp::Or, span: op_span };
        let found = self.try_and_expr()?;
        let right = self.expect_expr(found)?;
        let span = left.span.merge(right.span);
        Ok(Some(Sp { value: Expr::Logic(Box::new(LogicExpr { op, left, right })), span }))
    }

    /// Reads a binary expression and, if `and` follows, one more. A second
    /// `and` is left unread.
    #[verifier::spinoff_prover]
    pub fn try_and_expr(&mut self) -> (r: ParseResult<Option<Sp<Expr>>>)
        requires
            old(self).well_formed(),
        ensures
            agrees(
                *old(self),
                *final(self),
                r,
                grammar::try_and_expr(old(self).stream(), old(self).position()),
            ),
        decreases old(self).stream().len() - old(self).position(), 13nat,
    {
        let left = match self.try_bin_expr()? {
            Some(left) => left,
            None => return Ok(None),
        };
        let op_span = match self.try_exact(&Token::Keyword(Keyword::And)) {
            Some(op_span) => op_span,
            None => return Ok(Some(left)),
        };
        let op = Sp { value: LogicOp::And, span: op_span };
        let found = self.try_bin_expr()?;
        let right = self.expect_expr(found)?;
        let span = left.span.merge(right.span);
        Ok(Some(Sp { value: Expr::Logic(Box::new(LogicExpr { op, left, right })), span }))
    }

    /// Reads a binary expression of the loosest level.
    #[verifier::spinoff_prover]
    pub fn try_bin_expr(&mut self) -> (r: ParseResult<Option<Sp<Expr>>>)
        requires
            old(self).well_formed(),
        ensures
            agrees(
                *old(self),
                *final(self),
                r,
                grammar::try_bin_expr(old(self).stream(), old(self).position()),
            ),
        decreases old(self).stream().len() - old(self).position(), 12nat,
    {
        self.try_bin_expr_def(Level::Range)
    }

    /// Reads an operand of `level`: an expression of the next tighter
    /// level, or a call at the tightest.
    #[verifier::spinoff_prover]
    pub fn try_operand(&mut self, level: Level) -> (r: ParseResult<Option<Sp<Expr>>>)
        requires
            old(self).well_formed(),
        ensures
            agrees(
                *old(self),
                *final(self),
                r,
                grammar::try_operand(old(self).stream(), level, old(self).position()),
            ),
        decreases old(self).stream().len() - old(self).position(), 4 + 2 * level.height(),
    {
        match level.child() {
            Some(child) => self.try_bin_expr_def(child),
            None => self.try_call(),
        }
    }

    /// Reads the operator of `level` that comes next, if one does.
    #[verifier::spinoff_prover]
    fn try_operator(&mut self, level: Level) -> (r: Option<Sp<BinOp>>)
        requires
            old(self).well_formed(),
        ensures
            final(self).well_formed(),
            final(self).stream() == old(self).stream(),
            final(self).diagnostics() == old(self).diagnostics(),
            match grammar::peek(old(self).stream(), old(self).position()) {
                Some(next) => match level.operator(next.value) {
                    Some(op) => {
                        &&& r == Some(Sp { value: op, span: next.span })
                        &&& final(self).position() == grammar::next_index(
                            old(self).stream(),
                            old(self).position(),
                        ) + 1
                    },
                    None => r is None && final(self).position() == old(self).position(),
                },
                None => r is None && final(self).position() == old(self).position(),
            },
    {
        let k = self.next_index();
        if k < self.tokens.len() {
            match level.operator_of(&self.tokens[k].value) {
                Some(op) => {
                    let span = self.tokens[k].span;
                    self.index = k + 1;
                    Some(Sp { value: op, span })
                },
                None => None,
            }
        } else {
            None
        }
    }

    /// Reads an expression of `level`: operands joined by the level's
    /// operators, grouped to the left.
    #[verifier::spinoff_prover]
    pub fn try_bin_expr_def(&mut self, level: Level) -> (r: ParseResult<Option<Sp<Expr>>>)
        requires
            old(self).well_formed(),
        ensures
            agrees(
                *old(self),
                *final(self),
                r,
                grammar::try_bin_expr_def(old(self).stream(), level, old(self).position()),
            ),
        decreases old(self).stream().len() - old(self).position(), 5 + 2 * level.height(),
    {
        let mut expr = match self.try_operand(level)? {
            Some(expr) => expr,
            None => return Ok(None),
        };
        let ghost goal = grammar::try_bin_expr_def(old(self).stream(), level, old(self).position());
        let mut more = true;
        while more
            invariant
                self.well_formed(),
                self.stream() == old(self).stream(),
                self.diagnostics() == old(self).diagnostics(),
                old(self).position() < self.position(),
                goal == grammar::try_bin_expr_def(
                    old(self).stream(),
                    level,
                    old(self).position(),
                ),
                goal == if more {
                    grammar::bin_tail(self.stream(), level, expr@, self.position())
                } else {
                    Parsed::Found(expr@, self.position())
                },
            decreases
                    self.stream().len() - self.position() + if more {
                        1int
                    } else {
                        0int
                    },
        {
            match self.try_operator(level) {
                Some(op) => {
                    let found = self.try_operand(level)?;
                    let right = self.expect_expr(found)?;
                    let span = expr.span.merge(right.span);
                    expr = Sp { value: Expr::Bin(Box::new(BinExpr { left: expr, op, right })), span };
                },
                None => {
                    more = false;
                },
            }
        }
        Ok(Some(expr))
    }

    /// Reads a term and the terms that follow it directly. With at least one
    /// such argument the result is a call, else the term itself.
    #[verifier::spinoff_prover]
    pub fn try_call(&mut self) -> (r: ParseResult<Option<Sp<Expr>>>)
        requires
            old(self).well_formed(),
        ensures
            agrees(
                *old(self),
                *final(self),
                r,
                grammar::try_call(old(self).stream(), old(self).position()),
            ),
        decreases old(self).stream().len() - old(self).position(), 3nat,
    {
        let func = match self.try_term()? {
            Some(func) => func,
            None => return Ok(None),
        };
        let ghost goal = grammar::try_call(old(self).stream(), old(self).position());
        let mut args: Vec<Sp<Expr>> = Vec::new();
        let mut more = true;
        assert(expr_models(args@) =~= Seq::empty());
        while more
            invariant
                self.well_formed(),
                self.stream() == old(self).stream(),
                self.diagnostics() == old(self).diagnostics(),
                old(self).position() < self.position(),
                goal == grammar::try_call(old(self).stream(), old(self).position()),
                goal == if more {
                    grammar::call_args(self.stream(), self.position(), func@, expr_models(args@))
                } else {
                    Parsed::Found(
                        grammar::call_node(func@, expr_models(args@)),
                        self.position(),
                    )
                },
            decreases
                    self.stream().len() - self.position() + if more {
                        1int
                    } else {
                        0int
                    },
        {
            match self.try_term()? {
                Some(arg) => {
                    let ghost before = expr_models(args@);
                    args.push(arg);
                    assert(expr_models(args@) =~= before.push(arg@));
                },
                None => {
                    more = false;
                },
            }
        }
        if args.len() == 0 {
            return Ok(Some(func));
        }
        let span = func.span.merge(args[args.len() - 1].span);
        Ok(Some(Sp { value: Expr::Call(Box::new(CallExpr { func, args })), span }))
    }

    /// Reads an atomic term if one starts here: an identifier, a literal, a
    /// parenthesised expression or `()`, a bracketed list, or a conditional.
    #[verifier::spinoff_prover]
    pub fn try_term(&mut self) -> (r: ParseResult<Option<Sp<Expr>>>)
        requires
            old(self).well_formed(),
        ensures
            agrees(
                *old(self),
                *final(self),
                r,
                grammar::try_term(old(self).stream(), old(self).position()),
            ),
        decreases old(self).stream().len() - old(self).position(), 1nat,
    {
        let k = self.next_index();
        if k >= self.tokens.len() {
            return Ok(None);
        }
        let span = self.tokens[k].span;
        match &self.tokens[k].value {
            Token::Ident(name) => {
                let value = Expr::Ident(name.clone());
                self.index = k + 1;
                Ok(Some(Sp { value, span }))
            },
            Token::Int(digits) => {
                let value = Expr::Int(digits.clone());
                self.index = k + 1;
                Ok(Some(Sp { value, span }))
            },
            Token::Real(digits) => {
                let value = Expr::Real(digits.clone());
                self.index = k + 1;
                Ok(Some(Sp { value, span }))
            },
            Token::Keyword(Keyword::True) => {
                self.index = k + 1;
                Ok(Some(Sp { value: Expr::Bool(true), span }))
            },
            Token::Keyword(Keyword::False) => {
                self.index = k + 1;
                Ok(Some(Sp { value: Expr::Bool(false), span }))
            },
            Token::Simple(Simple::OpenParen) => {
                self.index = k + 1;
                let node = self.group(span)?;
                Ok(Some(node))
            },
            Token::Simple(Simple::OpenBracket) => {
                self.index = k + 1;
                let node = self.list(span)?;
                Ok(Some(node))
            },
            Token::Keyword(Keyword::If) => {
                self.index = k + 1;
                let node = self.conditional(span)?;
                Ok(Some(node))
            },
            _ => Ok(None),
        }
    }

    /// Reads what follows an opening parenthesis, whose span is `open`: an
    /// expression and the closing parenthesis, or the closing parenthesis
    /// alone, which makes the unit value. The node spans both parentheses.
    #[verifier::spinoff_prover]
    pub fn group(&mut self, open: Span) -> (r: ParseResult<Sp<Expr>>)
        requires
            old(self).well_formed(),
            old(self).stream().len() > 0,
        ensures
            agrees_required(
                *old(self),
                *final(self),
                r,
                grammar::group(old(self).stream(), old(self).position(), open),
            ),
        decreases old(self).stream().len() - old(self).position(), 16nat,
    {
        let inner = self.try_expr()?;
        let close = self.expect(Simple::CloseParen)?;
        let value = match inner {
            Some(inner) => Expr::Parened(Box::new(inner)),
            None => Expr::Unit,
        };
        Ok(Sp { value, span: open.merge(close) })
    }

    /// Reads what follows an opening bracket, whose span is `open`: the
    /// items of a list and the closing bracket. The node spans both brackets.
    #[verifier::spinoff_prover]
    pub fn list(&mut self, open: Span) -> (r: ParseResult<Sp<Expr>>)
        requires
            old(self).well_formed(),
            old(self).stream().len() > 0,
        ensures
            agrees_required(
                *old(self),
                *final(self),
                r,
                grammar::list(old(self).stream(), old(self).position(), open),
            ),
        decreases old(self).stream().len() - old(self).position(), 18nat,
    {
        let list = self.expr_items(open)?;
        Ok(Sp { value: Expr::List(list.value), span: list.span })
    }

    /// Reads the rest of a bracketed list of expressions behind the opening
    /// bracket, whose span is `open`: items with a comma between them, an
    /// optional comma behind the last, and the closing bracket. The list
    /// spans from the opening to the closing bracket.
    #[verifier::spinoff_prover]
    pub fn expr_items(&mut self, open: Span) -> (r: ParseResult<Sp<Vec<Sp<Expr>>>>)
        requires
            old(self).well_formed(),
            old(self).stream().len() > 0,
        ensures
            final(self).well_formed(),
            final(self).stream() == old(self).stream(),
            final(self).diagnostics() == old(self).diagnostics(),
            match grammar::expr_items(old(self).stream(), old(self).position(), open, Seq::empty()) {
                Parsed::Found(list, next) => {
                    &&& r matches Ok(found)
                    &&& expr_models(found.value@) == list.value
                    &&& found.span == list.span
                    &&& final(self).position() == next
                    &&& old(self).position() < next
                },
                Parsed::Failed(error, at) => {
                    &&& r matches Err(e)
                    &&& e@ == error
                    &&& final(self).position() == at
                    &&& old(self).position() <= at
                },
                Parsed::Absent => false,
            },
        decreases old(self).stream().len() - old(self).position(), 17nat,
    {
        let ghost goal = grammar::expr_items(self.stream(), self.position(), open, Seq::empty());
        let mut items: Vec<Sp<Expr>> = Vec::new();
        let mut more = true;
        assert(expr_models(items@) =~= Seq::empty());
        while more
            invariant
                self.well_formed(),
                self.stream() == old(self).stream(),
                self.diagnostics() == old(self).diagnostics(),
                old(self).position() <= self.position(),
                goal == grammar::expr_items(
                    old(self).stream(),
                    old(self).position(),
                    open,
                    Seq::empty(),
                ),
                goal == if more {
                    grammar::expr_items(self.stream(), self.position(), open, expr_models(items@))
                } else {
                    grammar::close_list(self.stream(), self.position(), open, expr_models(items@))
                },
            decreases
                    self.stream().len() - self.position() + if more {
                        1int
                    } else {
                        0int
                    },
        {
            match self.try_expr()? {
                Some(item) => {
                    let ghost before = expr_models(items@);
                    items.push(item);
                    assert(expr_models(items@) =~= before.push(item@));
                    if self.try_exact(&Token::Simple(Simple::Comma)).is_none() {
                        more = false;
                    }
                },
                None => {
                    more = false;
                },
            }
        }
        let close = self.expect(Simple::CloseBracket)?;
        Ok(Sp { value: items, span: open.merge(close) })
    }

    /// Reads a conditional if `if` comes next: the condition, `then`, a
    /// block, `else`, and a block. The node spans from the keyword to the end
    /// of the last block's closing expression.
    #[verifier::spinoff_prover]
    pub fn try_if(&mut self) -> (r: ParseResult<Option<Sp<Expr>>>)
        requires
            old(self).well_formed(),
        ensures
            agrees(
                *old(self),
                *final(self),
                r,
                grammar::try_if(old(self).stream(), old(self).position()),
            ),
    {
        let start = match self.try_exact(&Token::Keyword(Keyword::If)) {
            Some(start) => start,
            None => return Ok(None),
        };
        let node = self.conditional(start)?;
        Ok(Some(node))
    }

    /// Reads what follows the `if` keyword, whose span is `start`.
    #[verifier::spinoff_prover]
    pub fn conditional(&mut self, start: Span) -> (r: ParseResult<Sp<Expr>>)
        requires
            old(self).well_formed(),
            old(self).stream().len() > 0,
        ensures
            agrees_required(
                *old(self),
                *final(self),
                r,
                grammar::conditional(old(self).stream(), old(self).position(), start),
            ),
        decreases old(self).stream().len() - old(self).position(), 22nat,
    {
        let cond = self.expr()?;
        self.then_branch(start, cond)
    }

    /// Reads a conditional from `then` on, behind the condition `cond`.
    #[verifier::spinoff_prover]
    fn then_branch(&mut self, start: Span, cond: Sp<Expr>) -> (r: ParseResult<Sp<Expr>>)
        requires
            old(self).well_formed(),
            old(self).stream().len() > 0,
        ensures
            agrees_required(
                *old(self),
                *final(self),
                r,
                grammar::then_branch(old(self).stream(), old(self).position(), start, cond@),
            ),
        decreases old(self).stream().len() - old(self).position(), 21nat,
    {
        self.expect(Keyword::Then)?;
        let if_true = self.block()?;
        self.else_branch(start, cond, if_true)
    }

    /// Reads a conditional from `else` on, behind the condition `cond` and
    /// the block `if_true`.
    #[verifier::spinoff_prover]
    fn else_branch(&mut self, start: Span, cond: Sp<Expr>, if_true: Block) -> (r: ParseResult<
        Sp<Expr>,
    >)
        requires
            old(self).well_formed(),
            old(self).stream().len() > 0,
        ensures
            agrees_required(
                *old(self),
                *final(self),
                r,
                grammar::else_branch(
                    old(self).stream(),
                    old(self).position(),
                    start,
                    cond@,
                    if_true@,
                ),
            ),
        decreases old(self).stream().len() - old(self).position(), 20nat,
    {
        self.expect(Keyword::Else)?;
        let if_false = self.block()?;
        let span = start.merge(if_false.expr.span);
        Ok(Sp { value: Expr::If(Box::new(IfExpr { cond, if_true, if_false })), span })
    }

    /// Reads `let`, a pattern, `=` and an expression, if `let` comes next.
    #[verifier::spinoff_prover]
    pub fn try_binding(&mut self) -> (r: ParseResult<Option<Binding>>)
        requires
            old(self).well_formed(),
        ensures
            agrees(
                *old(self),
                *final(self),
                r,
                grammar::try_binding(old(self).stream(), old(self).position()),
            ),
        decreases old(self).stream().len() - old(self).position(), 18nat,
    {
        if self.try_exact(&Token::Keyword(Keyword::Let)).is_none() {
            return Ok(None);
        }
        let pattern = self.pattern()?;
        self.expect(Simple::Equal)?;
        let expr = self.expr()?;
        Ok(Some(Binding { pattern, expr }))
    }

    /// Reads a block: bindings, each closed by `;`, and then the expression
    /// that gives the block its value.
    #[verifier::spinoff_prover]
    pub fn block(&mut self) -> (r: ParseResult<Block>)
        requires
            old(self).well_formed(),
            old(self).stream().len() > 0,
        ensures
            agrees_required(
                *old(self),
                *final(self),
                r,
                grammar::block(old(self).stream(), old(self).position()),
            ),
        decreases old(self).stream().len() - old(self).position(), 19nat,
    {
        let ghost goal = grammar::block(self.stream(), self.position());
        let mut bindings: Vec<Binding> = Vec::new();
        let mut more = true;
        assert(binding_models(bindings@) =~= Seq::empty());
        while more
            invariant
                self.well_formed(),
                self.stream() == old(self).stream(),
                self.stream().len() > 0,
                self.diagnostics() == old(self).diagnostics(),
                old(self).position() <= self.position(),
                goal == grammar::block(old(self).stream(), old(self).position()),
                goal == grammar::block_rest(
                    self.stream(),
                    self.position(),
                    binding_models(bindings@),
                ),
                !more ==> grammar::try_binding(self.stream(), self.position()) is Absent,
            decreases
                    self.stream().len() - self.position() + if more {
                        1int
                    } else {
                        0int
                    },
        {
            match self.try_binding()? {
                Some(binding) => {
                    self.expect(Simple::SemiColon)?;
                    let ghost before = binding_models(bindings@);
                    bindings.push(binding);
                    assert(binding_models(bindings@) =~= before.push(binding@));
                },
                None => {
                    more = false;
                },
            }
        }
        let expr = self.expr()?;
        Ok(Block { bindings, expr })
    }
}

} // verus!
