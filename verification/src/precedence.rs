//! How the nodes of a tree nest: a tighter operator never has a looser one
//! as its operand, and operators of one level group to the left.

use crate::ast::{BinOp, BindingModel, BlockModel, ExprModel, ItemModel, LogicOp};
use crate::error::{Expectation, ParseErrorModel};
use crate::grammar::{
    bin_node, bin_tail, block, block_rest, call_args, conditional, else_branch, exact, expr,
    expr_items, group, items, list, next_index, peek, then_branch, try_and_expr, try_bin_expr,
    try_bin_expr_def, try_binding, try_call, try_expr, try_function_def, try_item, try_operand,
    try_or_expr, try_term, Level, Parsed, Stream,
};
use crate::progress::try_item_moves;
use crate::span::{Sp, Span};
use crate::token::{Keyword, Simple, TokenModel};
use vstd::prelude::*;

verus! {

/// The level at which a binary operator is read.
pub open spec fn level_of(op: BinOp) -> Level {
    match op {
        BinOp::RangeEx => Level::Range,
        BinOp::Eq | BinOp::Ne | BinOp::Lt | BinOp::Le | BinOp::Gt | BinOp::Ge => Level::Comparison,
        BinOp::Add | BinOp::Sub => Level::Additive,
        BinOp::Mul | BinOp::Div => Level::Multiplicative,
    }
}

/// How loosely an expression holds together at its top: 0 for a term, 1 for
/// a call, 2 to 5 for a binary expression from the tightest to the loosest
/// level, 6 for `and`, 7 for `or`.
pub open spec fn looseness(e: ExprModel) -> nat {
    match e {
        ExprModel::Call { .. } => 1,
        ExprModel::Bin { op, .. } => 2 + level_of(op.value).height(),
        ExprModel::Logic { connective, .. } => match connective.value {
            LogicOp::And => 6,
            LogicOp::Or => 7,
        },
        _ => 0,
    }
}

/// Whether every node in `e` nests as precedence asks: the right operand of a
/// binary operator is tighter than the operator and the left operand is no
/// looser, both operands of a logical connective are tighter than the
/// connective, and a call applies a term to at least one term.
pub open spec fn well_nested(e: Sp<ExprModel>) -> bool
    decreases e,
{
    match e.value {
        ExprModel::Bin { left, op, right } => {
            &&& looseness(left.value) <= looseness(e.value)
            &&& looseness(right.value) < looseness(e.value)
            &&& well_nested(*left)
            &&& well_nested(*right)
        },
        ExprModel::Logic { connective, left, right } => {
            &&& looseness(left.value) < looseness(e.value)
            &&& looseness(right.value) < looseness(e.value)
            &&& well_nested(*left)
            &&& well_nested(*right)
        },
        ExprModel::Call { func, args } => {
            &&& args.len() > 0
            &&& looseness(func.value) == 0
            &&& well_nested(*func)
            &&& forall|k: int|
                0 <= k < args.len() ==> looseness((#[trigger] args[k]).value) == 0 && well_nested(
                    args[k],
                )
        },
        ExprModel::Parened(inner) => well_nested(*inner),
        ExprModel::List(items) => forall|k: int|
            0 <= k < items.len() ==> well_nested(#[trigger] items[k]),
        ExprModel::If { cond, if_true, if_false } => {
            &&& well_nested(*cond)
            &&& well_nested(if_true.expr)
            &&& forall|k: int|
                0 <= k < if_true.bindings.len() ==> well_nested(
                    (#[trigger] if_true.bindings[k]).expr,
                )
            &&& well_nested(if_false.expr)
            &&& forall|k: int|
                0 <= k < if_false.bindings.len() ==> well_nested(
                    (#[trigger] if_false.bindings[k]).expr,
                )
        },
        _ => true,
    }
}

/// Whether `e` is a term in which every node nests as precedence asks.
pub open spec fn term_nested(e: Sp<ExprModel>) -> bool {
    looseness(e.value) == 0 && well_nested(e)
}

/// Whether [`well_nested`] holds of every expression in `b`.
pub open spec fn block_nested(b: BlockModel) -> bool {
    &&& well_nested(b.expr)
    &&& forall|k: int| 0 <= k < b.bindings.len() ==> well_nested((#[trigger] b.bindings[k]).expr)
}

/// Whether [`well_nested`] holds of every expression in `item`.
pub open spec fn item_nested(item: ItemModel) -> bool {
    match item {
        ItemModel::FunctionDef(def) => block_nested(def.body),
        ItemModel::Binding(binding) => well_nested(binding.expr),
        ItemModel::Expr(e) => well_nested(e),
    }
}

/// Whether `parsed`, if it is an expression, nests as precedence asks and
/// is no looser at its top than `bound`.
pub open spec fn nested_within(parsed: Parsed<Sp<ExprModel>>, bound: nat) -> bool {
    parsed matches Parsed::Found(e, _) ==> well_nested(e) && looseness(e.value) <= bound
}

/// Whether `parsed`, if it is a block, nests as precedence asks.
pub open spec fn nested_block(parsed: Parsed<BlockModel>) -> bool {
    parsed matches Parsed::Found(b, _) ==> block_nested(b)
}

/// An operator is read at its own level only.
#[verifier::spinoff_prover]
pub(crate) proof fn operator_is_of_its_level(level: Level, token: TokenModel)
    ensures
        level.operator(token) matches Some(op) ==> level_of(op) == level,
{
}

/// A term is a term.
#[verifier::spinoff_prover]
pub(crate) proof fn try_term_nested(tokens: Stream, i: int)
    ensures
        nested_within(try_term(tokens, i), 0),
    decreases tokens.len() - i, 0nat,
{
    if peek(tokens, i) is Some {
        let at = next_index(tokens, i);
        let start = tokens[at].span;
        group_nested(tokens, at + 1, start);
        list_nested(tokens, at + 1, start);
        conditional_nested(tokens, at + 1, start);
    }
}

/// A group is a term.
#[verifier::spinoff_prover]
pub(crate) proof fn group_nested(tokens: Stream, i: int, open: Span)
    ensures
        nested_within(group(tokens, i, open), 0),
    decreases tokens.len() - i, 15nat,
{
    try_expr_nested(tokens, i);
}

/// A list is a term.
#[verifier::spinoff_prover]
pub(crate) proof fn list_nested(tokens: Stream, i: int, open: Span)
    ensures
        nested_within(list(tokens, i, open), 0),
    decreases tokens.len() - i, 17nat,
{
    expr_items_nested(tokens, i, open, Seq::empty());
}

/// The items of a list nest as precedence asks.
#[verifier::spinoff_prover]
pub(crate) proof fn expr_items_nested(tokens: Stream, i: int, open: Span, found: Seq<Sp<ExprModel>>)
    requires
        forall|k: int| 0 <= k < found.len() ==> well_nested(#[trigger] found[k]),
    ensures
        expr_items(tokens, i, open, found) matches Parsed::Found(l, _) ==> forall|k: int|
            0 <= k < l.value.len() ==> well_nested(#[trigger] l.value[k]),
    decreases tokens.len() - i, 16nat,
{
    try_expr_nested(tokens, i);
    match try_expr(tokens, i).forward(tokens, i) {
        Parsed::Found(item, next) => match exact(tokens, next, TokenModel::Simple(Simple::Comma)) {
            Parsed::Found(_, after) => {
                expr_items_nested(tokens, after, open, found.push(item));
            },
            _ => {},
        },
        _ => {},
    }
}

/// A conditional is a term.
#[verifier::spinoff_prover]
pub(crate) proof fn conditional_nested(tokens: Stream, i: int, start: Span)
    ensures
        nested_within(conditional(tokens, i, start), 0),
    decreases tokens.len() - i, 20nat,
{
    expr_nested(tokens, i);
    match expr(tokens, i).forward(tokens, i) {
        Parsed::Found(cond, then_at) => {
            then_branch_nested(tokens, then_at, start, cond);
        },
        _ => {},
    }
}

/// A conditional from `then` on.
#[verifier::spinoff_prover]
pub(crate) proof fn then_branch_nested(tokens: Stream, i: int, start: Span, cond: Sp<ExprModel>)
    requires
        well_nested(cond),
    ensures
        nested_within(then_branch(tokens, i, start, cond), 0),
    decreases tokens.len() - i, 1nat,
{
    match exact(tokens, i, TokenModel::Keyword(Keyword::Then)) {
        Parsed::Found(_, block_at) => {
            block_nested_at(tokens, block_at);
            match block(tokens, block_at).forward(tokens, block_at) {
                Parsed::Found(if_true, else_at) => {
                    else_branch_nested(tokens, else_at, start, cond, if_true);
                },
                _ => {},
            }
        },
        _ => {},
    }
}

/// A conditional from `else` on.
#[verifier::spinoff_prover]
pub(crate) proof fn else_branch_nested(
    tokens: Stream,
    i: int,
    start: Span,
    cond: Sp<ExprModel>,
    if_true: BlockModel,
)
    requires
        well_nested(cond),
        block_nested(if_true),
    ensures
        nested_within(else_branch(tokens, i, start, cond, if_true), 0),
    decreases tokens.len() - i, 0nat,
{
    match exact(tokens, i, TokenModel::Keyword(Keyword::Else)) {
        Parsed::Found(_, block_at) => {
            block_nested_at(tokens, block_at);
        },
        _ => {},
    }
}

/// A call applies a term to terms, and is no looser than a call.
#[verifier::spinoff_prover]
pub(crate) proof fn try_call_nested(tokens: Stream, i: int)
    ensures
        nested_within(try_call(tokens, i), 1),
    decreases tokens.len() - i, 2nat,
{
    try_term_nested(tokens, i);
    match try_term(tokens, i).forward(tokens, i) {
        Parsed::Found(func, next) => {
            call_args_nested(tokens, next, func, Seq::empty());
        },
        _ => {},
    }
}

/// The arguments of a call are terms.
#[verifier::spinoff_prover]
pub(crate) proof fn call_args_nested(
    tokens: Stream,
    i: int,
    func: Sp<ExprModel>,
    args: Seq<Sp<ExprModel>>,
)
    requires
        term_nested(func),
        forall|k: int| 0 <= k < args.len() ==> term_nested(#[trigger] args[k]),
    ensures
        nested_within(call_args(tokens, i, func, args), 1),
    decreases tokens.len() - i, 1nat,
{
    try_term_nested(tokens, i);
    match try_term(tokens, i).forward(tokens, i) {
        Parsed::Found(arg, next) => {
            let longer = args.push(arg);
            assert forall|k: int| 0 <= k < longer.len() implies term_nested(
                #[trigger] longer[k],
            ) by {
                if k < args.len() {
                    assert(longer[k] == args[k]);
                }
            }
            call_args_nested(tokens, next, func, longer);
        },
        _ => {},
    }
}

/// An operand of a level is tighter than the level's operators.
#[verifier::spinoff_prover]
pub(crate) proof fn try_operand_nested(tokens: Stream, level: Level, i: int)
    ensures
        nested_within(try_operand(tokens, level, i), 1 + level.height()),
    decreases tokens.len() - i, 3 + 2 * level.height(),
{
    match level.tighter() {
        Some(child) => try_bin_expr_def_nested(tokens, child, i),
        None => try_call_nested(tokens, i),
    }
}

/// A binary expression of a level is no looser than the level's operators.
#[verifier::spinoff_prover]
pub(crate) proof fn try_bin_expr_def_nested(tokens: Stream, level: Level, i: int)
    ensures
        nested_within(try_bin_expr_def(tokens, level, i), 2 + level.height()),
    decreases tokens.len() - i, 4 + 2 * level.height(),
{
    try_operand_nested(tokens, level, i);
    match try_operand(tokens, level, i).forward(tokens, i) {
        Parsed::Found(left, next) => {
            bin_tail_nested(tokens, level, left, next);
        },
        _ => {},
    }
}

/// The operators of a level behind an operand: each takes what was read so
/// far as its left operand and a tighter expression as its right.
#[verifier::spinoff_prover]
pub(crate) proof fn bin_tail_nested(tokens: Stream, level: Level, left: Sp<ExprModel>, i: int)
    requires
        well_nested(left),
        looseness(left.value) <= 2 + level.height(),
    ensures
        nested_within(bin_tail(tokens, level, left, i), 2 + level.height()),
    decreases tokens.len() - i, 0nat,
{
    if peek(tokens, i) is Some {
        let at = next_index(tokens, i);
        let next = tokens[at];
        try_operand_nested(tokens, level, at + 1);
        operator_is_of_its_level(level, next.value);
        match level.operator(next.value) {
            Some(op) => match try_operand(tokens, level, at + 1).required(
                tokens,
                at + 1,
                Expectation::Expr,
            ).forward(tokens, at + 1) {
                Parsed::Found(right, end) => {
                    let node = bin_node(left, Sp { value: op, span: next.span }, right);
                    assert(looseness(node.value) == 2 + level.height());
                    bin_tail_nested(tokens, level, node, end);
                },
                _ => {},
            },
            None => {},
        }
    }
}

/// A binary expression is tighter than `and`.
#[verifier::spinoff_prover]
pub(crate) proof fn try_bin_expr_nested(tokens: Stream, i: int)
    ensures
        nested_within(try_bin_expr(tokens, i), 5),
    decreases tokens.len() - i, 11nat,
{
    try_bin_expr_def_nested(tokens, Level::Range, i);
}

/// An `and` expression is tighter than `or`.
#[verifier::spinoff_prover]
pub(crate) proof fn try_and_expr_nested(tokens: Stream, i: int)
    ensures
        nested_within(try_and_expr(tokens, i), 6),
    decreases tokens.len() - i, 12nat,
{
    try_bin_expr_nested(tokens, i);
    match try_bin_expr(tokens, i).forward(tokens, i) {
        Parsed::Found(left, next) => match exact(
            tokens,
            next,
            TokenModel::Keyword(Keyword::And),
        ) {
            Parsed::Found(_, after) => {
                try_bin_expr_nested(tokens, after);
            },
            _ => {},
        },
        _ => {},
    }
}

/// An `or` expression nests as precedence asks.
#[verifier::spinoff_prover]
pub(crate) proof fn try_or_expr_nested(tokens: Stream, i: int)
    ensures
        nested_within(try_or_expr(tokens, i), 7),
    decreases tokens.len() - i, 13nat,
{
    try_and_expr_nested(tokens, i);
    match try_and_expr(tokens, i).forward(tokens, i) {
        Parsed::Found(left, next) => match exact(tokens, next, TokenModel::Keyword(Keyword::Or)) {
            Parsed::Found(_, after) => {
                try_and_expr_nested(tokens, after);
            },
            _ => {},
        },
        _ => {},
    }
}

/// An expression nests as precedence asks.
#[verifier::spinoff_prover]
pub(crate) proof fn try_expr_nested(tokens: Stream, i: int)
    ensures
        nested_within(try_expr(tokens, i), 7),
    decreases tokens.len() - i, 14nat,
{
    try_or_expr_nested(tokens, i);
}

/// An expression that must come nests as precedence asks.
#[verifier::spinoff_prover]
pub(crate) proof fn expr_nested(tokens: Stream, i: int)
    ensures
        nested_within(expr(tokens, i), 7),
    decreases tokens.len() - i, 15nat,
{
    try_expr_nested(tokens, i);
}

/// The expression of a binding nests as precedence asks.
#[verifier::spinoff_prover]
pub(crate) proof fn try_binding_nested(tokens: Stream, i: int)
    ensures
        try_binding(tokens, i) matches Parsed::Found(b, _) ==> well_nested(b.expr),
    decreases tokens.len() - i, 17nat,
{
    match exact(tokens, i, TokenModel::Keyword(Keyword::Let)) {
        Parsed::Found(_, pattern_at) => match crate::grammar::pattern(tokens, pattern_at).forward(
            tokens,
            pattern_at,
        ) {
            Parsed::Found(_, equal_at) => match exact(
                tokens,
                equal_at,
                TokenModel::Simple(Simple::Equal),
            ) {
                Parsed::Found(_, expr_at) => {
                    expr_nested(tokens, expr_at);
                },
                _ => {},
            },
            _ => {},
        },
        _ => {},
    }
}

/// Every expression of a block nests as precedence asks.
#[verifier::spinoff_prover]
pub(crate) proof fn block_nested_at(tokens: Stream, i: int)
    ensures
        nested_block(block(tokens, i)),
    decreases tokens.len() - i, 19nat,
{
    block_rest_nested(tokens, i, Seq::empty());
}

/// The rest of a block behind the bindings `bindings`.
#[verifier::spinoff_prover]
pub(crate) proof fn block_rest_nested(tokens: Stream, i: int, bindings: Seq<BindingModel>)
    requires
        forall|k: int| 0 <= k < bindings.len() ==> well_nested((#[trigger] bindings[k]).expr),
    ensures
        nested_block(block_rest(tokens, i, bindings)),
    decreases tokens.len() - i, 18nat,
{
    try_binding_nested(tokens, i);
    expr_nested(tokens, i);
    match try_binding(tokens, i).forward(tokens, i) {
        Parsed::Found(binding, semi_at) => match exact(
            tokens,
            semi_at,
            TokenModel::Simple(Simple::SemiColon),
        ) {
            Parsed::Found(_, next) => {
                let longer = bindings.push(binding);
                assert forall|k: int| 0 <= k < longer.len() implies well_nested(
                    (#[trigger] longer[k]).expr,
                ) by {
                    if k < bindings.len() {
                        assert(longer[k] == bindings[k]);
                    }
                }
                block_rest_nested(tokens, next, longer);
            },
            _ => {},
        },
        _ => {},
    }
}

/// Every expression of an item nests as precedence asks.
#[verifier::spinoff_prover]
pub(crate) proof fn try_item_nested(tokens: Stream, i: int)
    ensures
        try_item(tokens, i) matches Parsed::Found(item, _) ==> item_nested(item),
{
    reveal(try_item);
    reveal(try_function_def);
    let at = crate::grammar::behind_docs(tokens, i);
    try_binding_nested(tokens, at);
    try_expr_nested(tokens, at);
    match try_function_def(tokens, i) {
        Parsed::Found(def, next) => {
            let (doc, fn_at) = crate::grammar::doc_comment(tokens, i, None);
            match exact(tokens, fn_at, TokenModel::Keyword(Keyword::Fn)) {
                Parsed::Found(_, name_at) => match crate::grammar::ident(tokens, name_at) {
                    Parsed::Found(name, params_at) => {
                        let (names, colon_at) = crate::grammar::params(
                            tokens,
                            params_at,
                            Seq::empty(),
                        );
                        match exact(tokens, colon_at, TokenModel::Simple(Simple::Colon)) {
                            Parsed::Found(_, body_at) => {
                                block_nested_at(tokens, body_at);
                            },
                            _ => {},
                        }
                    },
                    _ => {},
                },
                _ => {},
            }
        },
        _ => {},
    }
}

/// Every expression of every item that is read from position `i` on nests
/// as precedence asks, if that holds of the items `found` before.
#[verifier::spinoff_prover]
pub(crate) proof fn items_nested(
    tokens: Stream,
    i: int,
    found: Seq<ItemModel>,
    errors: Seq<Sp<ParseErrorModel>>,
)
    requires
        forall|k: int| 0 <= k < found.len() ==> item_nested(#[trigger] found[k]),
    ensures
        forall|k: int|
            0 <= k < items(tokens, i, found, errors).0.len() ==> item_nested(
                #[trigger] items(tokens, i, found, errors).0[k],
            ),
    decreases tokens.len() - i,
{
    try_item_moves(tokens, i);
    try_item_nested(tokens, i);
    match try_item(tokens, i) {
        Parsed::Found(item, next) => {
            let longer = found.push(item);
            assert forall|k: int| 0 <= k < longer.len() implies item_nested(
                #[trigger] longer[k],
            ) by {
                if k < found.len() {
                    assert(longer[k] == found[k]);
                }
            }
            items_nested(tokens, next, longer, errors);
            assert(items(tokens, i, found, errors) == items(tokens, next, longer, errors));
        },
        Parsed::Failed(error, at) => {
            items_nested(tokens, at, found, errors.push(error));
            assert(items(tokens, i, found, errors) == items(tokens, at, found, errors.push(error)));
        },
        Parsed::Absent => {
            assert(items(tokens, i, found, errors).0 == found);
        },
    }
}

} // verus!
