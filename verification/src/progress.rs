//! Forward progress: what a rule reads or reports lies behind where it started.

use crate::ast::{BindingModel, BlockModel, ExprModel, PatternModel};
use crate::grammar::{
    bin_tail, block, block_rest, call_args, conditional, doc_comment, else_branch, exact, expr,
    expr_items, next_index, params, pattern, pattern_items, peek, then_branch, try_and_expr,
    try_bin_expr, try_bin_expr_def, try_binding, try_call, try_expr, try_function_def, try_if,
    try_item, try_operand, try_or_expr, try_pattern, try_term, Level, Parsed, Stream,
};
use crate::span::{Sp, Span};
use crate::token::{Keyword, Simple, TokenModel};
use vstd::prelude::*;

verus! {

/// Whether a rule that started at `from` came to rest behind it and inside
/// the input, if it read or reported anything.
pub open spec fn moved<T>(parsed: Parsed<T>, tokens: Stream, from: int) -> bool {
    match parsed {
        Parsed::Absent => true,
        Parsed::Found(_, next) => from < next <= tokens.len(),
        Parsed::Failed(_, at) => from < at <= tokens.len(),
    }
}

/// Whether a rule that started at `from` came to rest at or behind it and
/// inside the input.
pub open spec fn held<T>(parsed: Parsed<T>, tokens: Stream, from: int) -> bool {
    match parsed {
        Parsed::Absent => true,
        Parsed::Found(_, next) => from <= next <= tokens.len(),
        Parsed::Failed(_, at) => from <= at <= tokens.len(),
    }
}

/// A pattern that is found ends behind where it started, and so does a
/// diagnostic from inside one.
pub(crate) proof fn try_pattern_moves(tokens: Stream, i: int)
    ensures
        moved(try_pattern(tokens, i), tokens, i),
    decreases tokens.len() - i, 0nat,
{
    if peek(tokens, i) is Some {
        pattern_items_moves(
            tokens,
            next_index(tokens, i) + 1,
            peek(tokens, i).unwrap().span,
            Seq::empty(),
        );
    }
}

/// The rest of a list of patterns ends behind where it started when it is
/// found, and never before it.
pub(crate) proof fn pattern_items_moves(
    tokens: Stream,
    i: int,
    open: Span,
    items: Seq<Sp<PatternModel>>,
)
    requires
        i <= tokens.len(),
    ensures
        held(pattern_items(tokens, i, open, items), tokens, i),
        pattern_items(tokens, i, open, items) matches Parsed::Found(_, next) ==> i < next,
        !(pattern_items(tokens, i, open, items) is Absent),
    decreases tokens.len() - i, 1nat,
{
    try_pattern_moves(tokens, i);
    match try_pattern(tokens, i).forward(tokens, i) {
        Parsed::Found(item, next) => match exact(tokens, next, TokenModel::Simple(Simple::Comma)) {
            Parsed::Found(_, after) => {
                pattern_items_moves(tokens, after, open, items.push(item));
            },
            _ => {},
        },
        _ => {},
    }
}

/// A term that is found ends behind where it started, and so does a
/// diagnostic from inside one.
pub(crate) proof fn try_term_moves(tokens: Stream, i: int)
    ensures
        moved(try_term(tokens, i), tokens, i),
    decreases tokens.len() - i, 0nat,
{
    if peek(tokens, i) is Some {
        let after = next_index(tokens, i) + 1;
        let start = peek(tokens, i).unwrap().span;
        try_expr_moves(tokens, after);
        expr_items_moves(tokens, after, start, Seq::empty());
        conditional_moves(tokens, after, start);
    }
}

/// The rest of a list of expressions ends behind where it started when it
/// is found, and never before it.
pub(crate) proof fn expr_items_moves(tokens: Stream, i: int, open: Span, items: Seq<Sp<ExprModel>>)
    requires
        i <= tokens.len(),
    ensures
        held(expr_items(tokens, i, open, items), tokens, i),
        expr_items(tokens, i, open, items) matches Parsed::Found(_, next) ==> i < next,
        !(expr_items(tokens, i, open, items) is Absent),
    decreases tokens.len() - i, 16nat,
{
    try_expr_moves(tokens, i);
    match try_expr(tokens, i).forward(tokens, i) {
        Parsed::Found(item, next) => match exact(tokens, next, TokenModel::Simple(Simple::Comma)) {
            Parsed::Found(_, after) => {
                expr_items_moves(tokens, after, open, items.push(item));
            },
            _ => {},
        },
        _ => {},
    }
}

/// What follows `if` ends behind where it started when it is found, and
/// never before it.
pub(crate) proof fn conditional_moves(tokens: Stream, i: int, start: Span)
    requires
        i <= tokens.len(),
    ensures
        held(conditional(tokens, i, start), tokens, i),
        conditional(tokens, i, start) matches Parsed::Found(_, next) ==> i < next,
        !(conditional(tokens, i, start) is Absent),
    decreases tokens.len() - i, 20nat,
{
    expr_moves(tokens, i);
    match expr(tokens, i).forward(tokens, i) {
        Parsed::Found(cond, then_at) => {
            then_branch_moves(tokens, then_at, start, cond);
        },
        _ => {},
    }
}

/// A conditional from `then` on ends behind where it started when it is
/// found, and never before it.
pub(crate) proof fn then_branch_moves(tokens: Stream, i: int, start: Span, cond: Sp<ExprModel>)
    requires
        i <= tokens.len(),
    ensures
        held(then_branch(tokens, i, start, cond), tokens, i),
        then_branch(tokens, i, start, cond) matches Parsed::Found(_, next) ==> i < next,
        !(then_branch(tokens, i, start, cond) is Absent),
    decreases tokens.len() - i, 1nat,
{
    match exact(tokens, i, TokenModel::Keyword(Keyword::Then)) {
        Parsed::Found(_, block_at) => {
            block_moves(tokens, block_at);
            match block(tokens, block_at).forward(tokens, block_at) {
                Parsed::Found(if_true, else_at) => {
                    else_branch_moves(tokens, else_at, start, cond, if_true);
                },
                _ => {},
            }
        },
        _ => {},
    }
}

/// A conditional from `else` on ends behind where it started when it is
/// found, and never before it.
pub(crate) proof fn else_branch_moves(
    tokens: Stream,
    i: int,
    start: Span,
    cond: Sp<ExprModel>,
    if_true: BlockModel,
)
    requires
        i <= tokens.len(),
    ensures
        held(else_branch(tokens, i, start, cond, if_true), tokens, i),
        else_branch(tokens, i, start, cond, if_true) matches Parsed::Found(_, next) ==> i < next,
        !(else_branch(tokens, i, start, cond, if_true) is Absent),
    decreases tokens.len() - i, 0nat,
{
    match exact(tokens, i, TokenModel::Keyword(Keyword::Else)) {
        Parsed::Found(_, block_at) => {
            block_moves(tokens, block_at);
        },
        _ => {},
    }
}

/// A call or term that is found ends behind where it started, and so does
/// a diagnostic from inside one.
pub(crate) proof fn try_call_moves(tokens: Stream, i: int)
    ensures
        moved(try_call(tokens, i), tokens, i),
    decreases tokens.len() - i, 2nat,
{
    try_term_moves(tokens, i);
    match try_term(tokens, i).forward(tokens, i) {
        Parsed::Found(func, next) => {
            call_args_moves(tokens, next, func, Seq::empty());
        },
        _ => {},
    }
}

/// The arguments of a call end at or behind where they started.
pub(crate) proof fn call_args_moves(
    tokens: Stream,
    i: int,
    func: Sp<ExprModel>,
    args: Seq<Sp<ExprModel>>,
)
    requires
        i <= tokens.len(),
    ensures
        held(call_args(tokens, i, func, args), tokens, i),
        call_args(tokens, i, func, args) matches Parsed::Failed(_, at) ==> i < at,
        !(call_args(tokens, i, func, args) is Absent),
    decreases tokens.len() - i, 1nat,
{
    try_term_moves(tokens, i);
    match try_term(tokens, i).forward(tokens, i) {
        Parsed::Found(arg, next) => {
            call_args_moves(tokens, next, func, args.push(arg));
        },
        _ => {},
    }
}

/// An operand that is found ends behind where it started, and so does a
/// diagnostic from inside one.
pub(crate) proof fn try_operand_moves(tokens: Stream, level: Level, i: int)
    ensures
        moved(try_operand(tokens, level, i), tokens, i),
    decreases tokens.len() - i, 3 + 2 * level.height(),
{
    match level.tighter() {
        Some(child) => try_bin_expr_def_moves(tokens, child, i),
        None => try_call_moves(tokens, i),
    }
}

/// A binary expression that is found ends behind where it started, and so
/// does a diagnostic from inside one.
pub(crate) proof fn try_bin_expr_def_moves(tokens: Stream, level: Level, i: int)
    ensures
        moved(try_bin_expr_def(tokens, level, i), tokens, i),
    decreases tokens.len() - i, 4 + 2 * level.height(),
{
    try_operand_moves(tokens, level, i);
    match try_operand(tokens, level, i).forward(tokens, i) {
        Parsed::Found(left, next) => {
            bin_tail_moves(tokens, level, left, next);
        },
        _ => {},
    }
}

/// The operators behind an operand end at or behind where they started.
pub(crate) proof fn bin_tail_moves(tokens: Stream, level: Level, left: Sp<ExprModel>, i: int)
    requires
        i <= tokens.len(),
    ensures
        held(bin_tail(tokens, level, left, i), tokens, i),
        bin_tail(tokens, level, left, i) matches Parsed::Failed(_, at) ==> i < at,
        !(bin_tail(tokens, level, left, i) is Absent),
    decreases tokens.len() - i, 0nat,
{
    if peek(tokens, i) is Some {
        let after = next_index(tokens, i) + 1;
        let next = peek(tokens, i).unwrap();
        try_operand_moves(tokens, level, after);
        match level.operator(next.value) {
            Some(op) => match try_operand(tokens, level, after).required(
                tokens,
                after,
                crate::error::Expectation::Expr,
            ).forward(tokens, after) {
                Parsed::Found(right, end) => {
                    bin_tail_moves(
                        tokens,
                        level,
                        crate::grammar::bin_node(left, Sp { value: op, span: next.span }, right),
                        end,
                    );
                },
                _ => {},
            },
            None => {},
        }
    }
}

/// A binary expression of the loosest level that is found ends behind
/// where it started, and so does a diagnostic from inside one.
pub(crate) proof fn try_bin_expr_moves(tokens: Stream, i: int)
    ensures
        moved(try_bin_expr(tokens, i), tokens, i),
    decreases tokens.len() - i, 11nat,
{
    try_bin_expr_def_moves(tokens, Level::Range, i);
}

/// An `and` expression that is found ends behind where it started, and so
/// does a diagnostic from inside one.
pub(crate) proof fn try_and_expr_moves(tokens: Stream, i: int)
    ensures
        moved(try_and_expr(tokens, i), tokens, i),
    decreases tokens.len() - i, 12nat,
{
    try_bin_expr_moves(tokens, i);
    match try_bin_expr(tokens, i).forward(tokens, i) {
        Parsed::Found(left, next) => match exact(
            tokens,
            next,
            TokenModel::Keyword(Keyword::And),
        ) {
            Parsed::Found(_, after) => {
                try_bin_expr_moves(tokens, after);
            },
            _ => {},
        },
        _ => {},
    }
}

/// An `or` expression that is found ends behind where it started, and so
/// does a diagnostic from inside one.
pub(crate) proof fn try_or_expr_moves(tokens: Stream, i: int)
    ensures
        moved(try_or_expr(tokens, i), tokens, i),
    decreases tokens.len() - i, 13nat,
{
    try_and_expr_moves(tokens, i);
    match try_and_expr(tokens, i).forward(tokens, i) {
        Parsed::Found(left, next) => match exact(tokens, next, TokenModel::Keyword(Keyword::Or)) {
            Parsed::Found(_, after) => {
                try_and_expr_moves(tokens, after);
            },
            _ => {},
        },
        _ => {},
    }
}

/// An expression that is found ends behind where it started, and so does a
/// diagnostic from inside one.
pub(crate) proof fn try_expr_moves(tokens: Stream, i: int)
    ensures
        moved(try_expr(tokens, i), tokens, i),
    decreases tokens.len() - i, 14nat,
{
    try_or_expr_moves(tokens, i);
}

/// An expression that must come ends behind where it started when it is
/// found, and never before it.
pub(crate) proof fn expr_moves(tokens: Stream, i: int)
    requires
        i <= tokens.len(),
    ensures
        held(expr(tokens, i), tokens, i),
        expr(tokens, i) matches Parsed::Found(_, next) ==> i < next,
        !(expr(tokens, i) is Absent),
    decreases tokens.len() - i, 15nat,
{
    try_expr_moves(tokens, i);
}

/// A binding that is found ends behind where it started, and so does a
/// diagnostic from inside one.
pub(crate) proof fn try_binding_moves(tokens: Stream, i: int)
    ensures
        moved(try_binding(tokens, i), tokens, i),
    decreases tokens.len() - i, 17nat,
{
    match exact(tokens, i, TokenModel::Keyword(Keyword::Let)) {
        Parsed::Found(_, pattern_at) => {
            try_pattern_moves(tokens, pattern_at);
            match pattern(tokens, pattern_at).forward(tokens, pattern_at) {
                Parsed::Found(_, equal_at) => match exact(
                    tokens,
                    equal_at,
                    TokenModel::Simple(Simple::Equal),
                ) {
                    Parsed::Found(_, expr_at) => {
                        expr_moves(tokens, expr_at);
                    },
                    _ => {},
                },
                _ => {},
            }
        },
        _ => {},
    }
}

/// A block ends behind where it started when it is found, and never before
/// it.
pub(crate) proof fn block_moves(tokens: Stream, i: int)
    requires
        i <= tokens.len(),
    ensures
        held(block(tokens, i), tokens, i),
        block(tokens, i) matches Parsed::Found(_, next) ==> i < next,
        !(block(tokens, i) is Absent),
    decreases tokens.len() - i, 19nat,
{
    block_rest_moves(tokens, i, Seq::empty());
}

/// The rest of a block ends behind where it started when it is found, and
/// never before it.
pub(crate) proof fn block_rest_moves(tokens: Stream, i: int, bindings: Seq<BindingModel>)
    requires
        i <= tokens.len(),
    ensures
        held(block_rest(tokens, i, bindings), tokens, i),
        block_rest(tokens, i, bindings) matches Parsed::Found(_, next) ==> i < next,
        !(block_rest(tokens, i, bindings) is Absent),
    decreases tokens.len() - i, 18nat,
{
    try_binding_moves(tokens, i);
    expr_moves(tokens, i);
    match try_binding(tokens, i).forward(tokens, i) {
        Parsed::Found(binding, semi_at) => match exact(
            tokens,
            semi_at,
            TokenModel::Simple(Simple::SemiColon),
        ) {
            Parsed::Found(_, next) => {
                block_rest_moves(tokens, next, bindings.push(binding));
            },
            _ => {},
        },
        _ => {},
    }
}

/// Doc comments are read forward, inside the input.
pub(crate) proof fn doc_comment_moves(tokens: Stream, i: int, doc: Option<Sp<Seq<char>>>)
    requires
        i <= tokens.len(),
    ensures
        i <= doc_comment(tokens, i, doc).1 <= tokens.len(),
    decreases tokens.len() - i,
{
    match peek(tokens, i) {
        Some(next) => match next.value {
            TokenModel::DocComment(line) => {
                doc_comment_moves(
                    tokens,
                    next_index(tokens, i) + 1,
                    Some(
                        match doc {
                            Some(above) => Sp {
                                value: above.value + line,
                                span: above.span.merged(next.span),
                            },
                            None => Sp { value: line, span: next.span },
                        },
                    ),
                );
            },
            _ => {},
        },
        None => {},
    }
}

/// Parameters are read forward, inside the input.
pub(crate) proof fn params_moves(tokens: Stream, i: int, names: Seq<Sp<Seq<char>>>)
    requires
        i <= tokens.len(),
    ensures
        i <= params(tokens, i, names).1 <= tokens.len(),
    decreases tokens.len() - i,
{
    match crate::grammar::try_ident(tokens, i) {
        Parsed::Found(name, next) => {
            params_moves(tokens, next, names.push(name));
        },
        _ => {},
    }
}

/// A function definition that is found ends behind where it started, and
/// so does a diagnostic from inside one.
pub(crate) proof fn try_function_def_moves(tokens: Stream, i: int)
    ensures
        moved(try_function_def(tokens, i), tokens, i),
{
    reveal(try_function_def);
    if i <= tokens.len() {
        doc_comment_moves(tokens, i, None);
        let (doc, fn_at) = doc_comment(tokens, i, None);
        match exact(tokens, fn_at, TokenModel::Keyword(Keyword::Fn)) {
            Parsed::Found(_, name_at) => match crate::grammar::ident(tokens, name_at) {
                Parsed::Found(name, params_at) => {
                    params_moves(tokens, params_at, Seq::empty());
                    let (names, colon_at) = params(tokens, params_at, Seq::empty());
                    match exact(tokens, colon_at, TokenModel::Simple(Simple::Colon)) {
                        Parsed::Found(_, body_at) => {
                            block_moves(tokens, body_at);
                        },
                        _ => {},
                    }
                },
                _ => {},
            },
            _ => {},
        }
    }
}

/// Forward progress: an item that is found ends behind where it started,
/// and so does every diagnostic from inside an item. Only "no item here"
/// leaves the position where it was.
pub proof fn try_item_moves(tokens: Stream, i: int)
    ensures
        moved(try_item(tokens, i), tokens, i),
{
    reveal(try_item);
    try_function_def_moves(tokens, i);
    if i <= tokens.len() {
        doc_comment_moves(tokens, i, None);
    }
    let at = crate::grammar::behind_docs(tokens, i);
    try_binding_moves(tokens, at);
    try_expr_moves(tokens, at);
}

/// A conditional that is found ends behind where it started, and so does a
/// diagnostic from inside one.
pub(crate) proof fn try_if_moves(tokens: Stream, i: int)
    ensures
        moved(try_if(tokens, i), tokens, i),
{
    match exact(tokens, i, TokenModel::Keyword(Keyword::If)) {
        Parsed::Found(start, after) => {
            conditional_moves(tokens, after, start);
        },
        _ => {},
    }
}

} // verus!
