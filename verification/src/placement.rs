//! Where the nodes of a tree lie in the source: over tokens in source order,
//! every node spans from the first to the last token that was read for it.

use crate::ast::{BindingModel, BlockModel, ExprModel, ItemModel, PatternModel};
use crate::error::{Expectation, ParseErrorModel};
use crate::grammar::{
    bin_node, bin_tail, block, block_rest, call_args, close_group, close_list, conditional,
    else_branch, exact, expr, expr_items, group, items, list, next_index, pattern, pattern_items,
    peek, then_branch, try_and_expr, try_bin_expr, try_bin_expr_def, try_binding, try_call,
    try_expr, try_function_def, try_item, try_operand, try_or_expr, try_pattern, try_term, Level,
    Parsed, Stream,
};
use crate::progress::{block_moves, try_item_moves};
use crate::span::{Loc, Sp, Span};
use crate::token::{Keyword, Simple, TokenModel};
use vstd::prelude::*;

verus! {

/// Whether the tokens lie in the order of the source: no token ends before
/// it starts, and each ends at or before the start of the next.
pub open spec fn in_source_order(tokens: Stream) -> bool {
    &&& forall|k: int|
        0 <= k < tokens.len() ==> (#[trigger] tokens[k]).span.start.at_or_before(
            tokens[k].span.end,
        )
    &&& forall|j: int, k: int|
        0 <= j < k < tokens.len() ==> (#[trigger] tokens[j]).span.end.at_or_before(
            (#[trigger] tokens[k]).span.start,
        )
}

/// Whether `span` runs from the start of the token at `first` to the end of
/// the token at `last`.
pub open spec fn covers(tokens: Stream, span: Span, first: int, last: int) -> bool {
    &&& 0 <= first <= last < tokens.len()
    &&& span.start == tokens[first].span.start
    &&& span.end == tokens[last].span.end
}

/// Whether every binary, logical and call node in `e` starts where its
/// leftmost child starts and ends where its rightmost child ends.
pub open spec fn spans_joined(e: Sp<ExprModel>) -> bool
    decreases e,
{
    match e.value {
        ExprModel::Bin { left, op, right } => {
            &&& e.span.start == left.span.start
            &&& e.span.end == right.span.end
            &&& spans_joined(*left)
            &&& spans_joined(*right)
        },
        ExprModel::Logic { connective, left, right } => {
            &&& e.span.start == left.span.start
            &&& e.span.end == right.span.end
            &&& spans_joined(*left)
            &&& spans_joined(*right)
        },
        ExprModel::Call { func, args } => {
            &&& e.span.start == func.span.start
            &&& e.span.end == if args.len() > 0 {
                args.last().span.end
            } else {
                func.span.end
            }
            &&& spans_joined(*func)
            &&& forall|k: int| 0 <= k < args.len() ==> spans_joined(#[trigger] args[k])
        },
        ExprModel::Parened(inner) => spans_joined(*inner),
        ExprModel::List(items) => forall|k: int|
            0 <= k < items.len() ==> spans_joined(#[trigger] items[k]),
        ExprModel::If { cond, if_true, if_false } => {
            &&& spans_joined(*cond)
            &&& spans_joined(if_true.expr)
            &&& forall|k: int|
                0 <= k < if_true.bindings.len() ==> spans_joined(
                    (#[trigger] if_true.bindings[k]).expr,
                )
            &&& spans_joined(if_false.expr)
            &&& forall|k: int|
                0 <= k < if_false.bindings.len() ==> spans_joined(
                    (#[trigger] if_false.bindings[k]).expr,
                )
        },
        _ => true,
    }
}

/// Whether [`spans_joined`] holds of every expression in `b`.
pub open spec fn block_joined(b: BlockModel) -> bool {
    &&& spans_joined(b.expr)
    &&& forall|k: int| 0 <= k < b.bindings.len() ==> spans_joined((#[trigger] b.bindings[k]).expr)
}

/// Whether [`spans_joined`] holds of every expression in `item`.
pub open spec fn item_joined(item: ItemModel) -> bool {
    match item {
        ItemModel::FunctionDef(def) => block_joined(def.body),
        ItemModel::Binding(binding) => spans_joined(binding.expr),
        ItemModel::Expr(e) => spans_joined(e),
    }
}

/// The order of positions is transitive.
pub(crate) proof fn before_is_transitive(a: Loc, b: Loc, c: Loc)
    requires
        a.at_or_before(b),
        b.at_or_before(c),
    ensures
        a.at_or_before(c),
{
}

/// Over tokens in source order, an earlier token lies before a later one.
pub(crate) proof fn tokens_in_order(tokens: Stream, j: int, k: int)
    requires
        in_source_order(tokens),
        0 <= j <= k < tokens.len(),
    ensures
        tokens[j].span.start.at_or_before(tokens[k].span.start),
        tokens[j].span.start.at_or_before(tokens[k].span.end),
        tokens[j].span.end.at_or_before(tokens[k].span.end),
        j < k ==> tokens[j].span.end.at_or_before(tokens[k].span.start),
{
    let a = tokens[j].span;
    let b = tokens[k].span;
    if j < k {
        before_is_transitive(a.start, a.end, b.start);
        before_is_transitive(a.end, b.start, b.end);
        before_is_transitive(a.start, b.start, b.end);
    }
}

/// Two spans over tokens in source order, the second starting and ending no
/// earlier than the first, merge to the span from the start of the first to
/// the end of the second.
pub(crate) proof fn merge_in_order(
    tokens: Stream,
    a: Span,
    b: Span,
    a_first: int,
    a_last: int,
    b_first: int,
    b_last: int,
)
    requires
        in_source_order(tokens),
        covers(tokens, a, a_first, a_last),
        covers(tokens, b, b_first, b_last),
        a_first <= b_first,
        a_last <= b_last,
    ensures
        a.merged(b) == (Span { start: a.start, end: b.end }),
        covers(tokens, a.merged(b), a_first, b_last),
{
    tokens_in_order(tokens, a_first, b_first);
    tokens_in_order(tokens, a_last, b_last);
}

/// A pattern spans from its first to its last token.
pub(crate) proof fn try_pattern_placed(tokens: Stream, i: int)
    requires
        in_source_order(tokens),
    ensures
        try_pattern(tokens, i) matches Parsed::Found(p, next) ==> covers(
            tokens,
            p.span,
            next_index(tokens, i),
            next - 1,
        ),
    decreases tokens.len() - i, 0nat,
{
    if peek(tokens, i) is Some {
        pattern_items_placed(tokens, next_index(tokens, i) + 1, next_index(tokens, i), Seq::empty());
    }
}

/// A list of patterns spans from its opening to its closing bracket.
pub(crate) proof fn pattern_items_placed(
    tokens: Stream,
    i: int,
    open_at: int,
    found: Seq<Sp<PatternModel>>,
)
    requires
        in_source_order(tokens),
        0 <= open_at < i <= tokens.len(),
    ensures
        pattern_items(tokens, i, tokens[open_at].span, found) matches Parsed::Found(l, next)
            ==> covers(tokens, l.span, open_at, next - 1),
    decreases tokens.len() - i, 1nat,
{
    let open = tokens[open_at].span;
    match try_pattern(tokens, i).forward(tokens, i) {
        Parsed::Found(item, next) => match exact(tokens, next, TokenModel::Simple(Simple::Comma)) {
            Parsed::Found(_, after) => {
                pattern_items_placed(tokens, after, open_at, found.push(item));
            },
            _ => {
                close_list_placed(tokens, next, open_at, found.push(item));
            },
        },
        Parsed::Failed(error, at) => {},
        Parsed::Absent => {
            close_list_placed(tokens, i, open_at, found);
        },
    }
}

/// A closed list spans from its opening to its closing bracket.
pub(crate) proof fn close_list_placed<T>(tokens: Stream, i: int, open_at: int, found: Seq<T>)
    requires
        in_source_order(tokens),
        0 <= open_at < i <= tokens.len(),
    ensures
        close_list(tokens, i, tokens[open_at].span, found) matches Parsed::Found(l, next)
            ==> covers(tokens, l.span, open_at, next - 1) && l.value == found,
{
    let at = next_index(tokens, i);
    if peek(tokens, i) is Some {
        merge_in_order(tokens, tokens[open_at].span, tokens[at].span, open_at, open_at, at, at);
    }
}

/// A term spans from its first to its last token, and inside it every node
/// spans its children.
pub(crate) proof fn try_term_placed(tokens: Stream, i: int)
    requires
        in_source_order(tokens),
    ensures
        try_term(tokens, i) matches Parsed::Found(e, next) ==> covers(
            tokens,
            e.span,
            next_index(tokens, i),
            next - 1,
        ) && spans_joined(e),
    decreases tokens.len() - i, 0nat,
{
    if peek(tokens, i) is Some {
        let at = next_index(tokens, i);
        group_placed(tokens, at + 1, at);
        list_placed(tokens, at + 1, at);
        conditional_placed(tokens, at + 1, at);
    }
}

/// A group spans both parentheses.
pub(crate) proof fn group_placed(tokens: Stream, i: int, open_at: int)
    requires
        in_source_order(tokens),
        0 <= open_at < i <= tokens.len(),
    ensures
        group(tokens, i, tokens[open_at].span) matches Parsed::Found(e, next) ==> covers(
            tokens,
            e.span,
            open_at,
            next - 1,
        ) && spans_joined(e),
    decreases tokens.len() - i, 15nat,
{
    try_expr_placed(tokens, i);
    match try_expr(tokens, i).forward(tokens, i) {
        Parsed::Found(inner, close_at) => {
            close_group_placed(tokens, close_at, open_at, ExprModel::Parened(Box::new(inner)));
        },
        Parsed::Failed(error, at) => {},
        Parsed::Absent => {
            close_group_placed(tokens, i, open_at, ExprModel::Unit);
        },
    }
}

/// A closed group spans both parentheses.
pub(crate) proof fn close_group_placed(tokens: Stream, i: int, open_at: int, value: ExprModel)
    requires
        in_source_order(tokens),
        0 <= open_at < i <= tokens.len(),
    ensures
        close_group(tokens, i, tokens[open_at].span, value) matches Parsed::Found(e, next)
            ==> covers(tokens, e.span, open_at, next - 1) && e.value == value,
{
    let at = next_index(tokens, i);
    if peek(tokens, i) is Some {
        merge_in_order(tokens, tokens[open_at].span, tokens[at].span, open_at, open_at, at, at);
    }
}

/// A list spans both brackets, and inside it every node spans its children.
pub(crate) proof fn list_placed(tokens: Stream, i: int, open_at: int)
    requires
        in_source_order(tokens),
        0 <= open_at < i <= tokens.len(),
    ensures
        list(tokens, i, tokens[open_at].span) matches Parsed::Found(e, next) ==> covers(
            tokens,
            e.span,
            open_at,
            next - 1,
        ) && spans_joined(e),
    decreases tokens.len() - i, 17nat,
{
    expr_items_placed(tokens, i, open_at, Seq::empty());
}

/// The items of a list: the list spans both brackets, and inside every item
/// every node spans its children.
pub(crate) proof fn expr_items_placed(tokens: Stream, i: int, open_at: int, found: Seq<Sp<ExprModel>>)
    requires
        in_source_order(tokens),
        0 <= open_at < i <= tokens.len(),
        forall|k: int| 0 <= k < found.len() ==> spans_joined(#[trigger] found[k]),
    ensures
        expr_items(tokens, i, tokens[open_at].span, found) matches Parsed::Found(l, next) ==> {
            &&& covers(tokens, l.span, open_at, next - 1)
            &&& forall|k: int| 0 <= k < l.value.len() ==> spans_joined(#[trigger] l.value[k])
        },
    decreases tokens.len() - i, 16nat,
{
    try_expr_placed(tokens, i);
    match try_expr(tokens, i).forward(tokens, i) {
        Parsed::Found(item, next) => match exact(tokens, next, TokenModel::Simple(Simple::Comma)) {
            Parsed::Found(_, after) => {
                expr_items_placed(tokens, after, open_at, found.push(item));
            },
            _ => {
                close_list_placed(tokens, next, open_at, found.push(item));
            },
        },
        Parsed::Failed(error, at) => {},
        Parsed::Absent => {
            close_list_placed(tokens, i, open_at, found);
        },
    }
}

/// A conditional spans from `if` to the end of its last block, and inside
/// it every node spans its children.
pub(crate) proof fn conditional_placed(tokens: Stream, i: int, if_at: int)
    requires
        in_source_order(tokens),
        0 <= if_at < i <= tokens.len(),
    ensures
        conditional(tokens, i, tokens[if_at].span) matches Parsed::Found(e, next) ==> covers(
            tokens,
            e.span,
            if_at,
            next - 1,
        ) && spans_joined(e),
    decreases tokens.len() - i, 20nat,
{
    expr_placed(tokens, i);
    match expr(tokens, i).forward(tokens, i) {
        Parsed::Found(cond, then_at) => {
            then_branch_placed(tokens, then_at, if_at, cond);
        },
        _ => {},
    }
}

/// A conditional from `then` on.
pub(crate) proof fn then_branch_placed(tokens: Stream, i: int, if_at: int, cond: Sp<ExprModel>)
    requires
        in_source_order(tokens),
        0 <= if_at < i <= tokens.len(),
        spans_joined(cond),
    ensures
        then_branch(tokens, i, tokens[if_at].span, cond) matches Parsed::Found(e, next) ==> covers(
            tokens,
            e.span,
            if_at,
            next - 1,
        ) && spans_joined(e),
    decreases tokens.len() - i, 1nat,
{
    match exact(tokens, i, TokenModel::Keyword(Keyword::Then)) {
        Parsed::Found(_, block_at) => {
            block_placed(tokens, block_at);
            match block(tokens, block_at).forward(tokens, block_at) {
                Parsed::Found(if_true, else_at) => {
                    else_branch_placed(tokens, else_at, if_at, cond, if_true);
                },
                _ => {},
            }
        },
        _ => {},
    }
}

/// A conditional from `else` on.
pub(crate) proof fn else_branch_placed(
    tokens: Stream,
    i: int,
    if_at: int,
    cond: Sp<ExprModel>,
    if_true: BlockModel,
)
    requires
        in_source_order(tokens),
        0 <= if_at < i <= tokens.len(),
        spans_joined(cond),
        block_joined(if_true),
    ensures
        else_branch(tokens, i, tokens[if_at].span, cond, if_true) matches Parsed::Found(e, next)
            ==> covers(tokens, e.span, if_at, next - 1) && spans_joined(e),
    decreases tokens.len() - i, 0nat,
{
    match exact(tokens, i, TokenModel::Keyword(Keyword::Else)) {
        Parsed::Found(_, block_at) => {
            block_placed(tokens, block_at);
            block_moves(tokens, block_at);
            match block(tokens, block_at) {
                Parsed::Found(if_false, end) => {
                    let first = next_index(tokens, block_at);
                    let start = tokens[if_at].span;
                    tokens_in_order(tokens, if_at, first);
                    tokens_in_order(tokens, if_at, end - 1);
                    before_is_transitive(
                        start.start,
                        tokens[first].span.start,
                        if_false.expr.span.start,
                    );
                },
                _ => {},
            }
        },
        _ => {},
    }
}

/// A call or term spans from its first to its last token, and inside it
/// every node spans its children.
pub(crate) proof fn try_call_placed(tokens: Stream, i: int)
    requires
        in_source_order(tokens),
    ensures
        try_call(tokens, i) matches Parsed::Found(e, next) ==> covers(
            tokens,
            e.span,
            next_index(tokens, i),
            next - 1,
        ) && spans_joined(e),
    decreases tokens.len() - i, 2nat,
{
    try_term_placed(tokens, i);
    match try_term(tokens, i).forward(tokens, i) {
        Parsed::Found(func, next) => {
            call_args_placed(tokens, next, func, Seq::empty(), next_index(tokens, i), next - 1, 0);
        },
        _ => {},
    }
}

/// The arguments of a call, behind the term `func`, which spans the tokens
/// from `first` to `func_last`, and the arguments `args`, the last of which
/// starts at the token at `arg_first`.
pub(crate) proof fn call_args_placed(
    tokens: Stream,
    i: int,
    func: Sp<ExprModel>,
    args: Seq<Sp<ExprModel>>,
    first: int,
    func_last: int,
    arg_first: int,
)
    requires
        in_source_order(tokens),
        i <= tokens.len(),
        covers(tokens, func.span, first, func_last),
        func_last < i,
        spans_joined(func),
        forall|k: int| 0 <= k < args.len() ==> spans_joined(#[trigger] args[k]),
        args.len() == 0 ==> func_last == i - 1,
        args.len() > 0 ==> func_last < arg_first && covers(
            tokens,
            args.last().span,
            arg_first,
            i - 1,
        ),
    ensures
        call_args(tokens, i, func, args) matches Parsed::Found(e, next) ==> covers(
            tokens,
            e.span,
            first,
            next - 1,
        ) && spans_joined(e),
    decreases tokens.len() - i, 1nat,
{
    try_term_placed(tokens, i);
    match try_term(tokens, i).forward(tokens, i) {
        Parsed::Found(arg, next) => {
            let longer = args.push(arg);
            assert(longer.last() == arg);
            assert forall|k: int| 0 <= k < longer.len() implies spans_joined(
                #[trigger] longer[k],
            ) by {
                if k < args.len() {
                    assert(longer[k] == args[k]);
                }
            }
            call_args_placed(
                tokens,
                next,
                func,
                longer,
                first,
                func_last,
                next_index(tokens, i),
            );
        },
        Parsed::Failed(error, at) => {},
        Parsed::Absent => {
            if args.len() > 0 {
                merge_in_order(
                    tokens,
                    func.span,
                    args.last().span,
                    first,
                    func_last,
                    arg_first,
                    i - 1,
                );
            }
        },
    }
}

/// An operand spans from its first to its last token, and inside it every
/// node spans its children.
pub(crate) proof fn try_operand_placed(tokens: Stream, level: Level, i: int)
    requires
        in_source_order(tokens),
    ensures
        try_operand(tokens, level, i) matches Parsed::Found(e, next) ==> covers(
            tokens,
            e.span,
            next_index(tokens, i),
            next - 1,
        ) && spans_joined(e),
    decreases tokens.len() - i, 3 + 2 * level.height(),
{
    match level.tighter() {
        Some(child) => try_bin_expr_def_placed(tokens, child, i),
        None => try_call_placed(tokens, i),
    }
}

/// A binary expression spans from its first to its last token, and inside
/// it every node spans its children.
pub(crate) proof fn try_bin_expr_def_placed(tokens: Stream, level: Level, i: int)
    requires
        in_source_order(tokens),
    ensures
        try_bin_expr_def(tokens, level, i) matches Parsed::Found(e, next) ==> covers(
            tokens,
            e.span,
            next_index(tokens, i),
            next - 1,
        ) && spans_joined(e),
    decreases tokens.len() - i, 4 + 2 * level.height(),
{
    try_operand_placed(tokens, level, i);
    match try_operand(tokens, level, i).forward(tokens, i) {
        Parsed::Found(left, next) => {
            bin_tail_placed(tokens, level, left, next, next_index(tokens, i));
        },
        _ => {},
    }
}

/// The operators behind the operand `left`, which spans the tokens from
/// `first` to the one before `i`.
pub(crate) proof fn bin_tail_placed(
    tokens: Stream,
    level: Level,
    left: Sp<ExprModel>,
    i: int,
    first: int,
)
    requires
        in_source_order(tokens),
        i <= tokens.len(),
        covers(tokens, left.span, first, i - 1),
        spans_joined(left),
    ensures
        bin_tail(tokens, level, left, i) matches Parsed::Found(e, next) ==> covers(
            tokens,
            e.span,
            first,
            next - 1,
        ) && spans_joined(e),
    decreases tokens.len() - i, 0nat,
{
    if peek(tokens, i) is Some {
        let at = next_index(tokens, i);
        let next = tokens[at];
        try_operand_placed(tokens, level, at + 1);
        match level.operator(next.value) {
            Some(op) => match try_operand(tokens, level, at + 1).required(
                tokens,
                at + 1,
                Expectation::Expr,
            ).forward(tokens, at + 1) {
                Parsed::Found(right, end) => {
                    let node = bin_node(left, Sp { value: op, span: next.span }, right);
                    merge_in_order(
                        tokens,
                        left.span,
                        right.span,
                        first,
                        i - 1,
                        next_index(tokens, at + 1),
                        end - 1,
                    );
                    bin_tail_placed(tokens, level, node, end, first);
                },
                _ => {},
            },
            None => {},
        }
    }
}

/// A binary expression of the loosest level spans from its first to its
/// last token, and inside it every node spans its children.
pub(crate) proof fn try_bin_expr_placed(tokens: Stream, i: int)
    requires
        in_source_order(tokens),
    ensures
        try_bin_expr(tokens, i) matches Parsed::Found(e, next) ==> covers(
            tokens,
            e.span,
            next_index(tokens, i),
            next - 1,
        ) && spans_joined(e),
    decreases tokens.len() - i, 11nat,
{
    try_bin_expr_def_placed(tokens, Level::Range, i);
}

/// An `and` expression spans from its first to its last token, and inside
/// it every node spans its children.
pub(crate) proof fn try_and_expr_placed(tokens: Stream, i: int)
    requires
        in_source_order(tokens),
    ensures
        try_and_expr(tokens, i) matches Parsed::Found(e, next) ==> covers(
            tokens,
            e.span,
            next_index(tokens, i),
            next - 1,
        ) && spans_joined(e),
    decreases tokens.len() - i, 12nat,
{
    try_bin_expr_placed(tokens, i);
    match try_bin_expr(tokens, i).forward(tokens, i) {
        Parsed::Found(left, next) => match exact(
            tokens,
            next,
            TokenModel::Keyword(Keyword::And),
        ) {
            Parsed::Found(_, after) => {
                try_bin_expr_placed(tokens, after);
                match try_bin_expr(tokens, after) {
                    Parsed::Found(right, end) => {
                        merge_in_order(
                            tokens,
                            left.span,
                            right.span,
                            next_index(tokens, i),
                            next - 1,
                            next_index(tokens, after),
                            end - 1,
                        );
                    },
                    _ => {},
                }
            },
            _ => {},
        },
        _ => {},
    }
}

/// An `or` expression spans from its first to its last token, and inside
/// it every node spans its children.
pub(crate) proof fn try_or_expr_placed(tokens: Stream, i: int)
    requires
        in_source_order(tokens),
    ensures
        try_or_expr(tokens, i) matches Parsed::Found(e, next) ==> covers(
            tokens,
            e.span,
            next_index(tokens, i),
            next - 1,
        ) && spans_joined(e),
    decreases tokens.len() - i, 13nat,
{
    try_and_expr_placed(tokens, i);
    match try_and_expr(tokens, i).forward(tokens, i) {
        Parsed::Found(left, next) => match exact(tokens, next, TokenModel::Keyword(Keyword::Or)) {
            Parsed::Found(_, after) => {
                try_and_expr_placed(tokens, after);
                match try_and_expr(tokens, after) {
                    Parsed::Found(right, end) => {
                        merge_in_order(
                            tokens,
                            left.span,
                            right.span,
                            next_index(tokens, i),
                            next - 1,
                            next_index(tokens, after),
                            end - 1,
                        );
                    },
                    _ => {},
                }
            },
            _ => {},
        },
        _ => {},
    }
}

/// An expression spans from its first to its last token, and inside it
/// every node spans its children.
pub(crate) proof fn try_expr_placed(tokens: Stream, i: int)
    requires
        in_source_order(tokens),
    ensures
        try_expr(tokens, i) matches Parsed::Found(e, next) ==> covers(
            tokens,
            e.span,
            next_index(tokens, i),
            next - 1,
        ) && spans_joined(e),
    decreases tokens.len() - i, 14nat,
{
    try_or_expr_placed(tokens, i);
}

/// An expression that must come spans from its first to its last token,
/// and inside it every node spans its children.
pub(crate) proof fn expr_placed(tokens: Stream, i: int)
    requires
        in_source_order(tokens),
    ensures
        expr(tokens, i) matches Parsed::Found(e, next) ==> covers(
            tokens,
            e.span,
            next_index(tokens, i),
            next - 1,
        ) && spans_joined(e),
    decreases tokens.len() - i, 15nat,
{
    try_expr_placed(tokens, i);
}

/// A binding: the pattern lies behind `let`, the expression behind the
/// pattern, and the expression ends with the binding's last token. Inside
/// the expression every node spans its children.
pub(crate) proof fn try_binding_placed(tokens: Stream, i: int)
    requires
        in_source_order(tokens),
    ensures
        try_binding(tokens, i) matches Parsed::Found(b, next) ==> {
            &&& spans_joined(b.expr)
            &&& 0 <= next_index(tokens, i) < next - 1 < tokens.len()
            &&& tokens[next_index(tokens, i)].span.end.at_or_before(b.pattern.span.start)
            &&& b.pattern.span.start.at_or_before(b.pattern.span.end)
            &&& b.pattern.span.end.at_or_before(b.expr.span.start)
            &&& b.expr.span.start.at_or_before(b.expr.span.end)
            &&& b.expr.span.end == tokens[next - 1].span.end
        },
    decreases tokens.len() - i, 17nat,
{
    match exact(tokens, i, TokenModel::Keyword(Keyword::Let)) {
        Parsed::Found(_, pattern_at) => {
            try_pattern_placed(tokens, pattern_at);
            match pattern(tokens, pattern_at).forward(tokens, pattern_at) {
                Parsed::Found(p, equal_at) => match exact(
                    tokens,
                    equal_at,
                    TokenModel::Simple(Simple::Equal),
                ) {
                    Parsed::Found(_, expr_at) => {
                        expr_placed(tokens, expr_at);
                        match expr(tokens, expr_at) {
                            Parsed::Found(value, end) => {
                                let let_at = next_index(tokens, i);
                                let p_first = next_index(tokens, pattern_at);
                                let e_first = next_index(tokens, expr_at);
                                tokens_in_order(tokens, let_at, p_first);
                                tokens_in_order(tokens, p_first, equal_at - 1);
                                tokens_in_order(tokens, equal_at - 1, e_first);
                                tokens_in_order(tokens, e_first, end - 1);
                            },
                            _ => {},
                        }
                    },
                    _ => {},
                },
                _ => {},
            }
        },
        _ => {},
    }
}

/// A block: its closing expression starts no earlier than the block's first
/// token and ends with the block's last token. Inside the block every node
/// spans its children.
pub(crate) proof fn block_placed(tokens: Stream, i: int)
    requires
        in_source_order(tokens),
    ensures
        block(tokens, i) matches Parsed::Found(b, next) ==> {
            &&& block_joined(b)
            &&& 0 <= next_index(tokens, i) <= next - 1 < tokens.len()
            &&& tokens[next_index(tokens, i)].span.start.at_or_before(b.expr.span.start)
            &&& b.expr.span.end == tokens[next - 1].span.end
        },
    decreases tokens.len() - i, 19nat,
{
    block_rest_placed(tokens, i, Seq::empty());
}

/// The rest of a block behind the bindings `bindings`.
pub(crate) proof fn block_rest_placed(tokens: Stream, i: int, bindings: Seq<BindingModel>)
    requires
        in_source_order(tokens),
        forall|k: int| 0 <= k < bindings.len() ==> spans_joined((#[trigger] bindings[k]).expr),
    ensures
        block_rest(tokens, i, bindings) matches Parsed::Found(b, next) ==> {
            &&& block_joined(b)
            &&& 0 <= next_index(tokens, i) <= next - 1 < tokens.len()
            &&& tokens[next_index(tokens, i)].span.start.at_or_before(b.expr.span.start)
            &&& b.expr.span.end == tokens[next - 1].span.end
        },
    decreases tokens.len() - i, 18nat,
{
    try_binding_placed(tokens, i);
    expr_placed(tokens, i);
    match try_binding(tokens, i).forward(tokens, i) {
        Parsed::Found(binding, semi_at) => match exact(
            tokens,
            semi_at,
            TokenModel::Simple(Simple::SemiColon),
        ) {
            Parsed::Found(_, next) => {
                let longer = bindings.push(binding);
                assert forall|k: int| 0 <= k < longer.len() implies spans_joined(
                    (#[trigger] longer[k]).expr,
                ) by {
                    if k < bindings.len() {
                        assert(longer[k] == bindings[k]);
                    }
                }
                block_rest_placed(tokens, next, longer);
                match block_rest(tokens, next, longer) {
                    Parsed::Found(b, end) => {
                        tokens_in_order(tokens, next_index(tokens, i), next_index(tokens, next));
                        before_is_transitive(
                            tokens[next_index(tokens, i)].span.start,
                            tokens[next_index(tokens, next)].span.start,
                            b.expr.span.start,
                        );
                    },
                    _ => {},
                }
            },
            _ => {},
        },
        _ => {},
    }
}

/// Inside an item every node spans its children.
pub(crate) proof fn try_item_placed(tokens: Stream, i: int)
    requires
        in_source_order(tokens),
    ensures
        try_item(tokens, i) matches Parsed::Found(item, next) ==> item_joined(item),
{
    reveal(try_item);
    reveal(try_function_def);
    let at = crate::grammar::behind_docs(tokens, i);
    try_binding_placed(tokens, at);
    try_expr_placed(tokens, at);
    match try_function_def(tokens, i) {
        Parsed::Found(def, next) => {
            let (doc, fn_at) = crate::grammar::doc_comment(tokens, i, None);
            match exact(tokens, fn_at, TokenModel::Keyword(Keyword::Fn)) {
                Parsed::Found(_, name_at) => match crate::grammar::ident(tokens, name_at) {
                    Parsed::Found(name, params_at) => {
                        let (names, colon_at) = crate::grammar::params(
                            tokens,
                            params_at,
                            Seq::empty(),
                        );
                        match exact(tokens, colon_at, TokenModel::Simple(Simple::Colon)) {
                            Parsed::Found(_, body_at) => {
                                block_placed(tokens, body_at);
                            },
                            _ => {},
                        }
                    },
                    _ => {},
                },
                _ => {},
            }
        },
        _ => {},
    }
}

/// Inside every item that is read from position `i` on, every node spans
/// its children, if that holds of the items `found` before.
pub(crate) proof fn items_placed(
    tokens: Stream,
    i: int,
    found: Seq<ItemModel>,
    errors: Seq<Sp<ParseErrorModel>>,
)
    requires
        in_source_order(tokens),
        forall|k: int| 0 <= k < found.len() ==> item_joined(#[trigger] found[k]),
    ensures
        forall|k: int|
            0 <= k < items(tokens, i, found, errors).0.len() ==> item_joined(
                #[trigger] items(tokens, i, found, errors).0[k],
            ),
    decreases tokens.len() - i,
{
    try_item_moves(tokens, i);
    try_item_placed(tokens, i);
    match try_item(tokens, i) {
        Parsed::Found(item, next) => {
            let longer = found.push(item);
            assert forall|k: int| 0 <= k < longer.len() implies item_joined(
                #[trigger] longer[k],
            ) by {
                if k < found.len() {
                    assert(longer[k] == found[k]);
                }
            }
            items_placed(tokens, next, longer, errors);
            assert(items(tokens, i, found, errors) == items(tokens, next, longer, errors));
        },
        Parsed::Failed(error, at) => {
            items_placed(tokens, at, found, errors.push(error));
            assert(items(tokens, i, found, errors) == items(tokens, at, found, errors.push(error)));
        },
        Parsed::Absent => {
            assert(items(tokens, i, found, errors).0 == found);
        },
    }
}

} // verus!
