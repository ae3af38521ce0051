//! Where diagnostics point: every diagnostic of a rule asks for one thing,
//! names the token that stands where it was noticed, unless the input has
//! ended, and carries the span of that place.

use crate::ast::{BindingModel, BlockModel, ExprModel, PatternModel};
use crate::error::ParseErrorModel;
use crate::grammar::{
    bin_tail, block, block_rest, call_args, conditional, doc_comment, else_branch, exact, expr,
    expr_items, last_span, next_index, params, pattern, pattern_items, peek, then_branch,
    try_and_expr, try_bin_expr, try_bin_expr_def, try_binding, try_call, try_expr,
    try_function_def, try_item, try_operand, try_or_expr, try_pattern, try_term, Level,
    Parsed, Stream,
};
use crate::span::{Sp, Span};
use crate::token::{Keyword, Simple, TokenModel};
use vstd::prelude::*;

verus! {

/// Whether `parsed`, if it is a diagnostic, asks for one thing, names the
/// token that stands at the place where it was noticed, and carries the span
/// of that place.
pub open spec fn noticed<T>(parsed: Parsed<T>, tokens: Stream) -> bool {
    parsed matches Parsed::Failed(error, at) ==> {
        &&& error.span == last_span(tokens, at)
        &&& error.value matches ParseErrorModel::Expected(expectations, found)
        &&& expectations.len() == 1
        &&& found == peek(tokens, at)
    }
}

/// A diagnostic from inside a pattern names what stands where it was
/// noticed.
pub(crate) proof fn try_pattern_noticed(tokens: Stream, i: int)
    ensures
        noticed(try_pattern(tokens, i), tokens),
    decreases tokens.len() - i, 0nat,
{
    if peek(tokens, i) is Some {
        pattern_items_noticed(
            tokens,
            next_index(tokens, i) + 1,
            peek(tokens, i).unwrap().span,
            Seq::empty(),
        );
    }
}

/// A diagnostic from the rest of a list of patterns names what stands where it was
/// noticed.
pub(crate) proof fn pattern_items_noticed(
    tokens: Stream,
    i: int,
    open: Span,
    items: Seq<Sp<PatternModel>>,
)
    ensures
        noticed(pattern_items(tokens, i, open, items), tokens),
    decreases tokens.len() - i, 1nat,
{
    try_pattern_noticed(tokens, i);
    match try_pattern(tokens, i).forward(tokens, i) {
        Parsed::Found(item, next) => match exact(tokens, next, TokenModel::Simple(Simple::Comma)) {
            Parsed::Found(_, after) => {
                pattern_items_noticed(tokens, after, open, items.push(item));
            },
            _ => {},
        },
        _ => {},
    }
}

/// A diagnostic from inside a term names what stands where it was
/// noticed.
pub(crate) proof fn try_term_noticed(tokens: Stream, i: int)
    ensures
        noticed(try_term(tokens, i), tokens),
    decreases tokens.len() - i, 0nat,
{
    if peek(tokens, i) is Some {
        let after = next_index(tokens, i) + 1;
        let start = peek(tokens, i).unwrap().span;
        try_expr_noticed(tokens, after);
        expr_items_noticed(tokens, after, start, Seq::empty());
        conditional_noticed(tokens, after, start);
    }
}

/// A diagnostic from the rest of a list of expressions names what stands where it was
/// noticed.
pub(crate) proof fn expr_items_noticed(tokens: Stream, i: int, open: Span, items: Seq<Sp<ExprModel>>)
    ensures
        noticed(expr_items(tokens, i, open, items), tokens),
    decreases tokens.len() - i, 16nat,
{
    try_expr_noticed(tokens, i);
    match try_expr(tokens, i).forward(tokens, i) {
        Parsed::Found(item, next) => match exact(tokens, next, TokenModel::Simple(Simple::Comma)) {
            Parsed::Found(_, after) => {
                expr_items_noticed(tokens, after, open, items.push(item));
            },
            _ => {},
        },
        _ => {},
    }
}

/// A diagnostic from what follows `if` names what stands where it was
/// noticed.
pub(crate) proof fn conditional_noticed(tokens: Stream, i: int, start: Span)
    ensures
        noticed(conditional(tokens, i, start), tokens),
    decreases tokens.len() - i, 20nat,
{
    expr_noticed(tokens, i);
    match expr(tokens, i).forward(tokens, i) {
        Parsed::Found(cond, then_at) => {
            then_branch_noticed(tokens, then_at, start, cond);
        },
        _ => {},
    }
}

/// A diagnostic from a conditional from `then` on names what stands where it was
/// noticed.
pub(crate) proof fn then_branch_noticed(tokens: Stream, i: int, start: Span, cond: Sp<ExprModel>)
    ensures
        noticed(then_branch(tokens, i, start, cond), tokens),
    decreases tokens.len() - i, 1nat,
{
    match exact(tokens, i, TokenModel::Keyword(Keyword::Then)) {
        Parsed::Found(_, block_at) => {
            block_noticed(tokens, block_at);
            match block(tokens, block_at).forward(tokens, block_at) {
                Parsed::Found(if_true, else_at) => {
                    else_branch_noticed(tokens, else_at, start, cond, if_true);
                },
                _ => {},
            }
        },
        _ => {},
    }
}

/// A diagnostic from a conditional from `else` on names what stands where it was
/// noticed.
pub(crate) proof fn else_branch_noticed(
    tokens: Stream,
    i: int,
    start: Span,
    cond: Sp<ExprModel>,
    if_true: BlockModel,
)
    ensures
        noticed(else_branch(tokens, i, start, cond, if_true), tokens),
    decreases tokens.len() - i, 0nat,
{
    match exact(tokens, i, TokenModel::Keyword(Keyword::Else)) {
        Parsed::Found(_, block_at) => {
            block_noticed(tokens, block_at);
        },
        _ => {},
    }
}

/// A diagnostic from inside a call names what stands where it was
/// noticed.
pub(crate) proof fn try_call_noticed(tokens: Stream, i: int)
    ensures
        noticed(try_call(tokens, i), tokens),
    decreases tokens.len() - i, 2nat,
{
    try_term_noticed(tokens, i);
    match try_term(tokens, i).forward(tokens, i) {
        Parsed::Found(func, next) => {
            call_args_noticed(tokens, next, func, Seq::empty());
        },
        _ => {},
    }
}

/// A diagnostic from the arguments of a call names what stands where it was
/// noticed.
pub(crate) proof fn call_args_noticed(
    tokens: Stream,
    i: int,
    func: Sp<ExprModel>,
    args: Seq<Sp<ExprModel>>,
)
    ensures
        noticed(call_args(tokens, i, func, args), tokens),
    decreases tokens.len() - i, 1nat,
{
    try_term_noticed(tokens, i);
    match try_term(tokens, i).forward(tokens, i) {
        Parsed::Found(arg, next) => {
            call_args_noticed(tokens, next, func, args.push(arg));
        },
        _ => {},
    }
}

/// A diagnostic from inside an operand names what stands where it was
/// noticed.
pub(crate) proof fn try_operand_noticed(tokens: Stream, level: Level, i: int)
    ensures
        noticed(try_operand(tokens, level, i), tokens),
    decreases tokens.len() - i, 3 + 2 * level.height(),
{
    match level.tighter() {
        Some(child) => try_bin_expr_def_noticed(tokens, child, i),
        None => try_call_noticed(tokens, i),
    }
}

/// A diagnostic from inside a binary expression names what stands where it was
/// noticed.
pub(crate) proof fn try_bin_expr_def_noticed(tokens: Stream, level: Level, i: int)
    ensures
        noticed(try_bin_expr_def(tokens, level, i), tokens),
    decreases tokens.len() - i, 4 + 2 * level.height(),
{
    try_operand_noticed(tokens, level, i);
    match try_operand(tokens, level, i).forward(tokens, i) {
        Parsed::Found(left, next) => {
            bin_tail_noticed(tokens, level, left, next);
        },
        _ => {},
    }
}

/// A diagnostic from the operators behind an operand names what stands where it was
/// noticed.
pub(crate) proof fn bin_tail_noticed(tokens: Stream, level: Level, left: Sp<ExprModel>, i: int)
    ensures
        noticed(bin_tail(tokens, level, left, i), tokens),
    decreases tokens.len() - i, 0nat,
{
    if peek(tokens, i) is Some {
        let after = next_index(tokens, i) + 1;
        let next = peek(tokens, i).unwrap();
        try_operand_noticed(tokens, level, after);
        match level.operator(next.value) {
            Some(op) => match try_operand(tokens, level, after).required(
                tokens,
                after,
                crate::error::Expectation::Expr,
            ).forward(tokens, after) {
                Parsed::Found(right, end) => {
                    bin_tail_noticed(
                        tokens,
                        level,
                        crate::grammar::bin_node(left, Sp { value: op, span: next.span }, right),
                        end,
                    );
                },
                _ => {},
            },
            None => {},
        }
    }
}

/// A diagnostic from inside a binary expression of the loosest level names what stands where it was
/// noticed.
pub(crate) proof fn try_bin_expr_noticed(tokens: Stream, i: int)
    ensures
        noticed(try_bin_expr(tokens, i), tokens),
    decreases tokens.len() - i, 11nat,
{
    try_bin_expr_def_noticed(tokens, Level::Range, i);
}

/// A diagnostic from inside an `and` expression names what stands where it was
/// noticed.
pub(crate) proof fn try_and_expr_noticed(tokens: Stream, i: int)
    ensures
        noticed(try_and_expr(tokens, i), tokens),
    decreases tokens.len() - i, 12nat,
{
    try_bin_expr_noticed(tokens, i);
    match try_bin_expr(tokens, i).forward(tokens, i) {
        Parsed::Found(left, next) => match exact(
            tokens,
            next,
            TokenModel::Keyword(Keyword::And),
        ) {
            Parsed::Found(_, after) => {
                try_bin_expr_noticed(tokens, after);
            },
            _ => {},
        },
        _ => {},
    }
}

/// A diagnostic from inside an `or` expression names what stands where it was
/// noticed.
pub(crate) proof fn try_or_expr_noticed(tokens: Stream, i: int)
    ensures
        noticed(try_or_expr(tokens, i), tokens),
    decreases tokens.len() - i, 13nat,
{
    try_and_expr_noticed(tokens, i);
    match try_and_expr(tokens, i).forward(tokens, i) {
        Parsed::Found(left, next) => match exact(tokens, next, TokenModel::Keyword(Keyword::Or)) {
            Parsed::Found(_, after) => {
                try_and_expr_noticed(tokens, after);
            },
            _ => {},
        },
        _ => {},
    }
}

/// A diagnostic from inside an expression names what stands where it was
/// noticed.
pub(crate) proof fn try_expr_noticed(tokens: Stream, i: int)
    ensures
        noticed(try_expr(tokens, i), tokens),
    decreases tokens.len() - i, 14nat,
{
    try_or_expr_noticed(tokens, i);
}

/// A diagnostic from an expression that must come names what stands where it was
/// noticed.
pub(crate) proof fn expr_noticed(tokens: Stream, i: int)
    ensures
        noticed(expr(tokens, i), tokens),
    decreases tokens.len() - i, 15nat,
{
    try_expr_noticed(tokens, i);
}

/// A diagnostic from inside a binding names what stands where it was
/// noticed.
pub(crate) proof fn try_binding_noticed(tokens: Stream, i: int)
    ensures
        noticed(try_binding(tokens, i), tokens),
    decreases tokens.len() - i, 17nat,
{
    match exact(tokens, i, TokenModel::Keyword(Keyword::Let)) {
        Parsed::Found(_, pattern_at) => {
            try_pattern_noticed(tokens, pattern_at);
            match pattern(tokens, pattern_at).forward(tokens, pattern_at) {
                Parsed::Found(_, equal_at) => match exact(
                    tokens,
                    equal_at,
                    TokenModel::Simple(Simple::Equal),
                ) {
                    Parsed::Found(_, expr_at) => {
                        expr_noticed(tokens, expr_at);
                    },
                    _ => {},
                },
                _ => {},
            }
        },
        _ => {},
    }
}

/// A diagnostic from a block names what stands where it was
/// noticed.
pub(crate) proof fn block_noticed(tokens: Stream, i: int)
    ensures
        noticed(block(tokens, i), tokens),
    decreases tokens.len() - i, 19nat,
{
    block_rest_noticed(tokens, i, Seq::empty());
}

/// A diagnostic from the rest of a block names what stands where it was
/// noticed.
pub(crate) proof fn block_rest_noticed(tokens: Stream, i: int, bindings: Seq<BindingModel>)
    ensures
        noticed(block_rest(tokens, i, bindings), tokens),
    decreases tokens.len() - i, 18nat,
{
    try_binding_noticed(tokens, i);
    expr_noticed(tokens, i);
    match try_binding(tokens, i).forward(tokens, i) {
        Parsed::Found(binding, semi_at) => match exact(
            tokens,
            semi_at,
            TokenModel::Simple(Simple::SemiColon),
        ) {
            Parsed::Found(_, next) => {
                block_rest_noticed(tokens, next, bindings.push(binding));
            },
            _ => {},
        },
        _ => {},
    }
}

/// A diagnostic from inside a function definition names what stands where it was
/// noticed.
pub(crate) proof fn try_function_def_noticed(tokens: Stream, i: int)
    ensures
        noticed(try_function_def(tokens, i), tokens),
{
    reveal(try_function_def);
    if i <= tokens.len() {
        let (doc, fn_at) = doc_comment(tokens, i, None);
        match exact(tokens, fn_at, TokenModel::Keyword(Keyword::Fn)) {
            Parsed::Found(_, name_at) => match crate::grammar::ident(tokens, name_at) {
                Parsed::Found(name, params_at) => {
                    let (names, colon_at) = params(tokens, params_at, Seq::empty());
                    match exact(tokens, colon_at, TokenModel::Simple(Simple::Colon)) {
                        Parsed::Found(_, body_at) => {
                            block_noticed(tokens, body_at);
                        },
                        _ => {},
                    }
                },
                _ => {},
            },
            _ => {},
        }
    }
}

/// A diagnostic from inside an item names what stands where it was
/// noticed.
pub(crate) proof fn try_item_noticed(tokens: Stream, i: int)
    ensures
        noticed(try_item(tokens, i), tokens),
{
    reveal(try_item);
    let at = crate::grammar::behind_docs(tokens, i);
    try_function_def_noticed(tokens, i);
    try_binding_noticed(tokens, at);
    try_expr_noticed(tokens, at);
}

} // verus!
