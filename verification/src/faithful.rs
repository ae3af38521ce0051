//! What a tree keeps of the tokens it was read from: every token but the
//! comments and the commas, in the order of the source.

use crate::ast::{BinOp, BindingModel, BlockModel, ExprModel, FunctionDefModel, ItemModel, LogicOp, PatternModel};
use crate::error::Expectation;
use crate::grammar::{
    behind_docs, bin_node, bin_tail, block, block_rest, call_args, close_list, conditional,
    doc_comment,
    else_branch, exact, expr, expr_items, group, ident, items, list, next_index, params, parse,
    pattern, pattern_items, peek, then_branch, try_and_expr, try_bin_expr, try_bin_expr_def,
    try_binding, try_call, try_expr, try_function_def, try_ident, try_item, try_operand,
    try_or_expr, try_pattern, try_term, Level, Parsed, Stream,
};
use crate::error::ParseErrorModel;
use crate::progress::{
    block_moves, expr_moves, try_binding_moves, try_item_moves, try_pattern_moves,
};
use crate::span::{Sp, Span};
use crate::token::{Keyword, Simple, TokenModel};
use vstd::prelude::*;

verus! {

/// Whether a token leaves no trace in the tree: a comment, a doc comment,
/// or a comma.
pub open spec fn is_filler(token: TokenModel) -> bool {
    token is Comment || token is DocComment || token == TokenModel::Simple(Simple::Comma)
}

/// The tokens from position `from` up to position `to` that are no filler.
#[verifier::opaque]
pub open spec fn essential(tokens: Stream, from: int, to: int) -> Seq<TokenModel>
    decreases to - from,
{
    if 0 <= from < to <= tokens.len() {
        essential(tokens, from, to - 1) + if is_filler(tokens[to - 1].value) {
            Seq::empty()
        } else {
            seq![tokens[to - 1].value]
        }
    } else {
        Seq::empty()
    }
}

/// The token that a binary operator is written with.
pub open spec fn op_token(op: BinOp) -> TokenModel {
    TokenModel::Simple(
        match op {
            BinOp::RangeEx => Simple::Elipses,
            BinOp::Eq => Simple::Equal,
            BinOp::Ne => Simple::NotEqual,
            BinOp::Lt => Simple::Less,
            BinOp::Le => Simple::LessEqual,
            BinOp::Gt => Simple::Greater,
            BinOp::Ge => Simple::GreaterEqual,
            BinOp::Add => Simple::Plus,
            BinOp::Sub => Simple::Minus,
            BinOp::Mul => Simple::Star,
            BinOp::Div => Simple::Slash,
        },
    )
}

/// The token that a logical connective is written with.
pub open spec fn logic_token(op: LogicOp) -> TokenModel {
    TokenModel::Keyword(
        match op {
            LogicOp::And => Keyword::And,
            LogicOp::Or => Keyword::Or,
        },
    )
}

/// The tokens that a pattern is written with, without the commas.
pub open spec fn pattern_essence(p: Sp<PatternModel>) -> Seq<TokenModel>
    decreases p,
{
    match p.value {
        PatternModel::Ident(name) => seq![TokenModel::Ident(name)],
        PatternModel::List(items) => seq![TokenModel::Simple(Simple::OpenBracket)]
            + patterns_essence(items) + seq![TokenModel::Simple(Simple::CloseBracket)],
    }
}

/// The tokens that patterns are written with, one behind the other.
pub open spec fn patterns_essence(items: Seq<Sp<PatternModel>>) -> Seq<TokenModel>
    decreases items,
{
    if items.len() == 0 {
        Seq::empty()
    } else {
        patterns_essence(items.drop_last()) + pattern_essence(items.last())
    }
}

/// The tokens that an expression is written with, without the commas.
pub open spec fn essence(e: Sp<ExprModel>) -> Seq<TokenModel>
    decreases e,
{
    match e.value {
        ExprModel::Ident(name) => seq![TokenModel::Ident(name)],
        ExprModel::Int(digits) => seq![TokenModel::Int(digits)],
        ExprModel::Real(digits) => seq![TokenModel::Real(digits)],
        ExprModel::Bool(b) => seq![
            TokenModel::Keyword(
                if b {
                    Keyword::True
                } else {
                    Keyword::False
                },
            ),
        ],
        ExprModel::Unit => seq![
            TokenModel::Simple(Simple::OpenParen),
            TokenModel::Simple(Simple::CloseParen),
        ],
        ExprModel::Parened(inner) => seq![TokenModel::Simple(Simple::OpenParen)] + essence(*inner)
            + seq![TokenModel::Simple(Simple::CloseParen)],
        ExprModel::List(items) => seq![TokenModel::Simple(Simple::OpenBracket)] + essences(items)
            + seq![TokenModel::Simple(Simple::CloseBracket)],
        ExprModel::Call { func, args } => essence(*func) + essences(args),
        ExprModel::Bin { left, op, right } => essence(*left) + seq![op_token(op.value)] + essence(
            *right,
        ),
        ExprModel::Logic { connective, left, right } => essence(*left) + seq![
            logic_token(connective.value),
        ] + essence(*right),
        ExprModel::If { cond, if_true, if_false } => seq![TokenModel::Keyword(Keyword::If)]
            + essence(*cond) + seq![TokenModel::Keyword(Keyword::Then)] + block_essence(*if_true)
            + seq![TokenModel::Keyword(Keyword::Else)] + block_essence(*if_false),
    }
}

/// The tokens that expressions are written with, one behind the other.
pub open spec fn essences(items: Seq<Sp<ExprModel>>) -> Seq<TokenModel>
    decreases items,
{
    if items.len() == 0 {
        Seq::empty()
    } else {
        essences(items.drop_last()) + essence(items.last())
    }
}

/// The tokens that a binding is written with.
pub open spec fn binding_essence(b: BindingModel) -> Seq<TokenModel>
    decreases b,
{
    seq![TokenModel::Keyword(Keyword::Let)] + pattern_essence(b.pattern) + seq![
        TokenModel::Simple(Simple::Equal),
    ] + essence(b.expr)
}

/// The tokens that the bindings of a block are written with, each with the
/// `;` that closes it.
pub open spec fn bindings_essence(bindings: Seq<BindingModel>) -> Seq<TokenModel>
    decreases bindings,
{
    if bindings.len() == 0 {
        Seq::empty()
    } else {
        bindings_essence(bindings.drop_last()) + binding_essence(bindings.last()) + seq![
            TokenModel::Simple(Simple::SemiColon),
        ]
    }
}

/// The tokens that a block is written with.
pub open spec fn block_essence(b: BlockModel) -> Seq<TokenModel>
    decreases b,
{
    bindings_essence(b.bindings) + essence(b.expr)
}

/// The identifiers of `names`, one behind the other.
pub open spec fn names_essence(names: Seq<Sp<Seq<char>>>) -> Seq<TokenModel>
    decreases names.len(),
{
    if names.len() == 0 {
        Seq::empty()
    } else {
        names_essence(names.drop_last()) + seq![TokenModel::Ident(names.last().value)]
    }
}

/// The tokens that a function definition is written with, without its
/// documentation.
pub open spec fn function_essence(def: FunctionDefModel) -> Seq<TokenModel> {
    seq![TokenModel::Keyword(Keyword::Fn), TokenModel::Ident(def.name.value)] + names_essence(
        def.params,
    ) + seq![TokenModel::Simple(Simple::Colon)] + block_essence(def.body)
}

/// The tokens that an item is written with, and the `;` that closes it.
pub open spec fn item_essence(item: ItemModel) -> Seq<TokenModel> {
    let written = match item {
        ItemModel::FunctionDef(def) => function_essence(def),
        ItemModel::Binding(binding) => binding_essence(binding),
        ItemModel::Expr(e) => essence(e),
    };
    written + seq![TokenModel::Simple(Simple::SemiColon)]
}

/// The tokens that items are written with, one behind the other.
pub open spec fn items_essence(items: Seq<ItemModel>) -> Seq<TokenModel>
    decreases items.len(),
{
    if items.len() == 0 {
        Seq::empty()
    } else {
        items_essence(items.drop_last()) + item_essence(items.last())
    }
}

/// Nothing is essential of no tokens.
#[verifier::spinoff_prover]
pub(crate) proof fn essential_of_nothing(tokens: Stream, i: int)
    ensures
        essential(tokens, i, i) == Seq::<TokenModel>::empty(),
{
    reveal(essential);
}

/// What is essential of a stretch of tokens is what is essential of its
/// two parts.
#[verifier::spinoff_prover]
pub(crate) proof fn essential_splits(tokens: Stream, from: int, mid: int, to: int)
    requires
        0 <= from <= mid <= to <= tokens.len(),
    ensures
        essential(tokens, from, to) == essential(tokens, from, mid) + essential(tokens, mid, to),
    decreases to - mid,
{
    reveal(essential);
    if mid < to {
        essential_splits(tokens, from, mid, to - 1);
        assert(essential(tokens, from, to) =~= essential(tokens, from, mid) + essential(
            tokens,
            mid,
            to,
        ));
    } else {
        assert(essential(tokens, from, to) =~= essential(tokens, from, mid) + essential(
            tokens,
            mid,
            to,
        ));
    }
}

/// Nothing is essential of the comments in front of the next token.
#[verifier::spinoff_prover]
pub(crate) proof fn essential_skips_comments(tokens: Stream, i: int)
    requires
        0 <= i <= tokens.len(),
    ensures
        i <= next_index(tokens, i) <= tokens.len(),
        essential(tokens, i, next_index(tokens, i)) == Seq::<TokenModel>::empty(),
    decreases tokens.len() - i,
{
    reveal(essential);
    if i < tokens.len() && tokens[i].value is Comment {
        essential_skips_comments(tokens, i + 1);
        essential_splits(tokens, i, i + 1, next_index(tokens, i));
        essential_of_nothing(tokens, i);
        
    }
}

/// What is essential up to behind the next token is what is essential up
/// to here and that token, unless it is a filler.
#[verifier::spinoff_prover]
pub(crate) proof fn essential_takes_next(tokens: Stream, from: int, i: int)
    requires
        0 <= from <= i <= tokens.len(),
        peek(tokens, i) is Some,
    ensures
        i <= next_index(tokens, i) < tokens.len(),
        essential(tokens, from, next_index(tokens, i) + 1) == essential(tokens, from, i)
            + if is_filler(tokens[next_index(tokens, i)].value) {
            Seq::<TokenModel>::empty()
        } else {
            seq![tokens[next_index(tokens, i)].value]
        },
{
    reveal(essential);
    let at = next_index(tokens, i);
    essential_skips_comments(tokens, i);
    essential_splits(tokens, from, i, at);
    assert(essential(tokens, from, at) =~= essential(tokens, from, i));
}

/// The token that names an operator at a level is the one that the
/// operator is written with.
#[verifier::spinoff_prover]
pub(crate) proof fn operator_is_written_with_its_token(level: Level, token: TokenModel)
    ensures
        level.operator(token) matches Some(op) ==> op_token(op) == token,
{
}

/// Reading a token that is no filler adds it to what is essential.
#[verifier::spinoff_prover]
pub(crate) proof fn exact_is_kept(tokens: Stream, from: int, i: int, token: TokenModel)
    requires
        0 <= from <= i <= tokens.len(),
        !is_filler(token),
    ensures
        exact(tokens, i, token) matches Parsed::Found(_, next) ==> i < next <= tokens.len()
            && essential(tokens, from, next) == essential(tokens, from, i) + seq![token],
{
    if peek(tokens, i) is Some {
        essential_takes_next(tokens, from, i);
    }
}

/// Reading a comma adds nothing to what is essential.
#[verifier::spinoff_prover]
pub(crate) proof fn comma_is_dropped(tokens: Stream, from: int, i: int)
    requires
        0 <= from <= i <= tokens.len(),
    ensures
        exact(tokens, i, TokenModel::Simple(Simple::Comma)) matches Parsed::Found(_, next) ==> i
            < next <= tokens.len() && essential(tokens, from, next) == essential(tokens, from, i),
{
    if peek(tokens, i) is Some {
        essential_takes_next(tokens, from, i);
        assert(essential(tokens, from, i) + Seq::<TokenModel>::empty() =~= essential(
            tokens,
            from,
            i,
        ));
    }
}

/// One more pattern adds its tokens behind those of the patterns before.
#[verifier::spinoff_prover]
pub(crate) proof fn patterns_essence_grows(items: Seq<Sp<PatternModel>>, item: Sp<PatternModel>)
    ensures
        patterns_essence(items.push(item)) == patterns_essence(items) + pattern_essence(item),
{
    assert(items.push(item).drop_last() =~= items);
}

/// One more expression adds its tokens behind those of the expressions
/// before.
#[verifier::spinoff_prover]
pub(crate) proof fn essences_grows(items: Seq<Sp<ExprModel>>, item: Sp<ExprModel>)
    ensures
        essences(items.push(item)) == essences(items) + essence(item),
{
    assert(items.push(item).drop_last() =~= items);
}

/// One more binding adds its tokens and its `;` behind those of the
/// bindings before.
#[verifier::spinoff_prover]
pub(crate) proof fn bindings_essence_grows(bindings: Seq<BindingModel>, binding: BindingModel)
    ensures
        bindings_essence(bindings.push(binding)) == bindings_essence(bindings) + binding_essence(
            binding,
        ) + seq![TokenModel::Simple(Simple::SemiColon)],
{
    assert(bindings.push(binding).drop_last() =~= bindings);
}

/// A pattern keeps every token that was read for it but the commas.
#[verifier::spinoff_prover]
pub(crate) proof fn try_pattern_faithful(tokens: Stream, i: int)
    requires
        0 <= i <= tokens.len(),
    ensures
        try_pattern(tokens, i) matches Parsed::Found(p, next) ==> essential(tokens, i, next)
            == pattern_essence(p),
    decreases tokens.len() - i, 0nat,
{
    if peek(tokens, i) is Some {
        let at = next_index(tokens, i);
        essential_takes_next(tokens, i, i);
        essential_of_nothing(tokens, i);
        match tokens[at].value {
            TokenModel::Ident(name) => {
                assert(essential(tokens, i, at + 1) =~= seq![TokenModel::Ident(name)]);
            },
            TokenModel::Simple(Simple::OpenBracket) => {
                assert(essential(tokens, i, at + 1) =~= seq![
                    TokenModel::Simple(Simple::OpenBracket),
                ] + patterns_essence(Seq::empty()));
                pattern_items_faithful(tokens, at + 1, i, tokens[at].span, Seq::empty());
            },
            _ => {},
        }
    }
}

/// The rest of a list of patterns behind the items `found`: the list keeps
/// every token that was read for it but the commas.
#[verifier::spinoff_prover]
pub(crate) proof fn pattern_items_faithful(
    tokens: Stream,
    i: int,
    start: int,
    open: Span,
    found: Seq<Sp<PatternModel>>,
)
    requires
        0 <= start <= i <= tokens.len(),
        essential(tokens, start, i) == seq![TokenModel::Simple(Simple::OpenBracket)]
            + patterns_essence(found),
    ensures
        pattern_items(tokens, i, open, found) matches Parsed::Found(l, next) ==> essential(
            tokens,
            start,
            next,
        ) == seq![TokenModel::Simple(Simple::OpenBracket)] + patterns_essence(l.value) + seq![
            TokenModel::Simple(Simple::CloseBracket),
        ],
    decreases tokens.len() - i, 1nat,
{
    try_pattern_faithful(tokens, i);
    let bracket = TokenModel::Simple(Simple::CloseBracket);
    match try_pattern(tokens, i).forward(tokens, i) {
        Parsed::Found(item, next) => {
            let longer = found.push(item);
            essential_splits(tokens, start, i, next);
            patterns_essence_grows(found, item);
            assert(essential(tokens, start, next) =~= seq![
                TokenModel::Simple(Simple::OpenBracket),
            ] + patterns_essence(longer));
            comma_is_dropped(tokens, start, next);
            exact_is_kept(tokens, start, next, bracket);
            match exact(tokens, next, TokenModel::Simple(Simple::Comma)) {
                Parsed::Found(_, after) => {
                    pattern_items_faithful(tokens, after, start, open, longer);
                },
                _ => {},
            }
        },
        Parsed::Failed(error, at) => {},
        Parsed::Absent => {
            exact_is_kept(tokens, start, i, bracket);
        },
    }
}

/// Whether what was read from `from` up to the end of `parsed` is what the
/// expression found is written with.
pub open spec fn kept(parsed: Parsed<Sp<ExprModel>>, tokens: Stream, from: int) -> bool {
    parsed matches Parsed::Found(e, next) ==> essential(tokens, from, next) == essence(e)
}

/// A term keeps every token that was read for it but the commas.
#[verifier::spinoff_prover]
pub(crate) proof fn try_term_faithful(tokens: Stream, i: int)
    requires
        0 <= i <= tokens.len(),
    ensures
        kept(try_term(tokens, i), tokens, i),
    decreases tokens.len() - i, 0nat,
{
    if peek(tokens, i) is Some {
        let at = next_index(tokens, i);
        let token = tokens[at].value;
        essential_takes_next(tokens, i, i);
        essential_of_nothing(tokens, i);
        if !is_filler(token) {
            assert(essential(tokens, i, at + 1) =~= seq![token]);
            match token {
                TokenModel::Simple(Simple::OpenParen) => {
                    group_faithful(tokens, at + 1, i, tokens[at].span);
                },
                TokenModel::Simple(Simple::OpenBracket) => {
                    list_faithful(tokens, at + 1, i, tokens[at].span);
                },
                TokenModel::Keyword(Keyword::If) => {
                    conditional_faithful(tokens, at + 1, i, tokens[at].span);
                },
                _ => {},
            }
        }
    }
}

/// A group, behind its opening parenthesis.
#[verifier::spinoff_prover]
pub(crate) proof fn group_faithful(tokens: Stream, i: int, start: int, open: Span)
    requires
        0 <= start <= i <= tokens.len(),
        essential(tokens, start, i) == seq![TokenModel::Simple(Simple::OpenParen)],
    ensures
        kept(group(tokens, i, open), tokens, start),
    decreases tokens.len() - i, 15nat,
{
    let close = TokenModel::Simple(Simple::CloseParen);
    try_expr_faithful(tokens, i);
    match try_expr(tokens, i).forward(tokens, i) {
        Parsed::Found(inner, close_at) => {
            essential_splits(tokens, start, i, close_at);
            exact_is_kept(tokens, start, close_at, close);
            match exact(tokens, close_at, close) {
                Parsed::Found(close_span, end) => {
                    let node = Sp {
                        value: ExprModel::Parened(Box::new(inner)),
                        span: open.merged(close_span),
                    };
                    assert(group(tokens, i, open) == Parsed::Found(node, end));
                    assert(essential(tokens, start, end) == essence(node));
                },
                _ => {},
            }
        },
        Parsed::Failed(error, at) => {},
        Parsed::Absent => {
            exact_is_kept(tokens, start, i, close);
            match exact(tokens, i, close) {
                Parsed::Found(close_span, end) => {
                    let node = Sp { value: ExprModel::Unit, span: open.merged(close_span) };
                    assert(group(tokens, i, open) == Parsed::Found(node, end));
                    assert(essential(tokens, start, end) =~= essence(node));
                },
                _ => {},
            }
        },
    }
}

/// A list, behind its opening bracket.
#[verifier::spinoff_prover]
pub(crate) proof fn list_faithful(tokens: Stream, i: int, start: int, open: Span)
    requires
        0 <= start <= i <= tokens.len(),
        essential(tokens, start, i) == seq![TokenModel::Simple(Simple::OpenBracket)],
    ensures
        kept(list(tokens, i, open), tokens, start),
    decreases tokens.len() - i, 17nat,
{
    assert(seq![TokenModel::Simple(Simple::OpenBracket)] + essences(Seq::empty()) =~= seq![
        TokenModel::Simple(Simple::OpenBracket),
    ]);
    expr_items_faithful(tokens, i, start, open, Seq::empty());
}

/// The rest of a list of expressions behind the items `found`: the list
/// keeps every token that was read for it but the commas.
#[verifier::spinoff_prover]
pub(crate) proof fn expr_items_faithful(
    tokens: Stream,
    i: int,
    start: int,
    open: Span,
    found: Seq<Sp<ExprModel>>,
)
    requires
        0 <= start <= i <= tokens.len(),
        essential(tokens, start, i) == seq![TokenModel::Simple(Simple::OpenBracket)] + essences(
            found,
        ),
    ensures
        expr_items(tokens, i, open, found) matches Parsed::Found(l, next) ==> essential(
            tokens,
            start,
            next,
        ) == seq![TokenModel::Simple(Simple::OpenBracket)] + essences(l.value) + seq![
            TokenModel::Simple(Simple::CloseBracket),
        ],
    decreases tokens.len() - i, 16nat,
{
    try_expr_faithful(tokens, i);
    let bracket = TokenModel::Simple(Simple::CloseBracket);
    match try_expr(tokens, i).forward(tokens, i) {
        Parsed::Found(item, next) => {
            let longer = found.push(item);
            essential_splits(tokens, start, i, next);
            essences_grows(found, item);
            assert(essential(tokens, start, next) =~= seq![
                TokenModel::Simple(Simple::OpenBracket),
            ] + essences(longer));
            comma_is_dropped(tokens, start, next);
            exact_is_kept(tokens, start, next, bracket);
            match exact(tokens, next, TokenModel::Simple(Simple::Comma)) {
                Parsed::Found(_, after) => {
                    expr_items_faithful(tokens, after, start, open, longer);
                },
                _ => {},
            }
        },
        Parsed::Failed(error, at) => {},
        Parsed::Absent => {
            exact_is_kept(tokens, start, i, bracket);
        },
    }
}

/// A conditional, behind `if`.
#[verifier::spinoff_prover]
pub(crate) proof fn conditional_faithful(tokens: Stream, i: int, start: int, if_span: Span)
    requires
        0 <= start <= i <= tokens.len(),
        essential(tokens, start, i) == seq![TokenModel::Keyword(Keyword::If)],
    ensures
        kept(conditional(tokens, i, if_span), tokens, start),
    decreases tokens.len() - i, 20nat,
{
    expr_faithful(tokens, i);
    match expr(tokens, i).forward(tokens, i) {
        Parsed::Found(cond, then_at) => {
            essential_splits(tokens, start, i, then_at);
            then_branch_faithful(tokens, then_at, start, if_span, cond);
        },
        _ => {},
    }
}

/// A conditional from `then` on, behind the condition `cond`.
#[verifier::spinoff_prover]
pub(crate) proof fn then_branch_faithful(
    tokens: Stream,
    i: int,
    start: int,
    if_span: Span,
    cond: Sp<ExprModel>,
)
    requires
        0 <= start <= i <= tokens.len(),
        essential(tokens, start, i) == seq![TokenModel::Keyword(Keyword::If)] + essence(cond),
    ensures
        kept(then_branch(tokens, i, if_span, cond), tokens, start),
    decreases tokens.len() - i, 1nat,
{
    let then = TokenModel::Keyword(Keyword::Then);
    exact_is_kept(tokens, start, i, then);
    match exact(tokens, i, then) {
        Parsed::Found(_, block_at) => {
            block_faithful(tokens, block_at);
            match block(tokens, block_at).forward(tokens, block_at) {
                Parsed::Found(if_true, else_at) => {
                    essential_splits(tokens, start, block_at, else_at);
                    else_branch_faithful(tokens, else_at, start, if_span, cond, if_true);
                },
                _ => {},
            }
        },
        _ => {},
    }
}

/// A conditional from `else` on, behind the condition `cond` and the block
/// `if_true`.
#[verifier::spinoff_prover]
pub(crate) proof fn else_branch_faithful(
    tokens: Stream,
    i: int,
    start: int,
    if_span: Span,
    cond: Sp<ExprModel>,
    if_true: BlockModel,
)
    requires
        0 <= start <= i <= tokens.len(),
        essential(tokens, start, i) == seq![TokenModel::Keyword(Keyword::If)] + essence(cond)
            + seq![TokenModel::Keyword(Keyword::Then)] + block_essence(if_true),
    ensures
        kept(else_branch(tokens, i, if_span, cond, if_true), tokens, start),
    decreases tokens.len() - i, 0nat,
{
    let otherwise = TokenModel::Keyword(Keyword::Else);
    exact_is_kept(tokens, start, i, otherwise);
    match exact(tokens, i, otherwise) {
        Parsed::Found(_, block_at) => {
            block_faithful(tokens, block_at);
            block_moves(tokens, block_at);
            match block(tokens, block_at) {
                Parsed::Found(if_false, end) => {
                    essential_splits(tokens, start, block_at, end);
                    let node = Sp {
                        value: ExprModel::If {
                            cond: Box::new(cond),
                            if_true: Box::new(if_true),
                            if_false: Box::new(if_false),
                        },
                        span: if_span.merged(if_false.expr.span),
                    };
                    assert(essential(tokens, start, end) == essence(node));
                },
                _ => {},
            }
        },
        _ => {},
    }
}

/// A call or term keeps every token that was read for it but the commas.
#[verifier::spinoff_prover]
pub(crate) proof fn try_call_faithful(tokens: Stream, i: int)
    requires
        0 <= i <= tokens.len(),
    ensures
        kept(try_call(tokens, i), tokens, i),
    decreases tokens.len() - i, 2nat,
{
    try_term_faithful(tokens, i);
    match try_term(tokens, i).forward(tokens, i) {
        Parsed::Found(func, next) => {
            assert(essence(func) + essences(Seq::empty()) =~= essence(func));
            call_args_faithful(tokens, next, i, func, Seq::empty());
        },
        _ => {},
    }
}

/// The arguments of a call behind the term `func` and the arguments `args`.
#[verifier::spinoff_prover]
pub(crate) proof fn call_args_faithful(
    tokens: Stream,
    i: int,
    start: int,
    func: Sp<ExprModel>,
    args: Seq<Sp<ExprModel>>,
)
    requires
        0 <= start <= i <= tokens.len(),
        essential(tokens, start, i) == essence(func) + essences(args),
    ensures
        kept(call_args(tokens, i, func, args), tokens, start),
    decreases tokens.len() - i, 1nat,
{
    try_term_faithful(tokens, i);
    match try_term(tokens, i).forward(tokens, i) {
        Parsed::Found(arg, next) => {
            essential_splits(tokens, start, i, next);
            essences_grows(args, arg);
            assert(essential(tokens, start, next) =~= essence(func) + essences(args.push(arg)));
            call_args_faithful(tokens, next, start, func, args.push(arg));
        },
        Parsed::Failed(error, at) => {},
        Parsed::Absent => {
            if args.len() == 0 {
                assert(essence(func) + essences(args) =~= essence(func));
            }
        },
    }
}

/// An operand keeps every token that was read for it but the commas.
#[verifier::spinoff_prover]
pub(crate) proof fn try_operand_faithful(tokens: Stream, level: Level, i: int)
    requires
        0 <= i <= tokens.len(),
    ensures
        kept(try_operand(tokens, level, i), tokens, i),
    decreases tokens.len() - i, 3 + 2 * level.height(),
{
    match level.tighter() {
        Some(child) => try_bin_expr_def_faithful(tokens, child, i),
        None => try_call_faithful(tokens, i),
    }
}

/// A binary expression keeps every token that was read for it but the
/// commas.
#[verifier::spinoff_prover]
pub(crate) proof fn try_bin_expr_def_faithful(tokens: Stream, level: Level, i: int)
    requires
        0 <= i <= tokens.len(),
    ensures
        kept(try_bin_expr_def(tokens, level, i), tokens, i),
    decreases tokens.len() - i, 4 + 2 * level.height(),
{
    try_operand_faithful(tokens, level, i);
    match try_operand(tokens, level, i).forward(tokens, i) {
        Parsed::Found(left, next) => {
            bin_tail_faithful(tokens, level, left, next, i);
        },
        _ => {},
    }
}

/// The operators behind the operand `left`, which was read from `start` on.
#[verifier::spinoff_prover]
pub(crate) proof fn bin_tail_faithful(
    tokens: Stream,
    level: Level,
    left: Sp<ExprModel>,
    i: int,
    start: int,
)
    requires
        0 <= start <= i <= tokens.len(),
        essential(tokens, start, i) == essence(left),
    ensures
        kept(bin_tail(tokens, level, left, i), tokens, start),
    decreases tokens.len() - i, 0nat,
{
    if peek(tokens, i) is Some {
        let at = next_index(tokens, i);
        let next = tokens[at];
        essential_takes_next(tokens, start, i);
        operator_is_written_with_its_token(level, next.value);
        try_operand_faithful(tokens, level, at + 1);
        match level.operator(next.value) {
            Some(op) => match try_operand(tokens, level, at + 1).required(
                tokens,
                at + 1,
                Expectation::Expr,
            ).forward(tokens, at + 1) {
                Parsed::Found(right, end) => {
                    let node = bin_node(left, Sp { value: op, span: next.span }, right);
                    essential_splits(tokens, start, at + 1, end);
                    assert(essential(tokens, start, end) =~= essence(node));
                    bin_tail_faithful(tokens, level, node, end, start);
                },
                _ => {},
            },
            None => {},
        }
    }
}

/// A binary expression of the loosest level keeps every token that was read
/// for it but the commas.
#[verifier::spinoff_prover]
pub(crate) proof fn try_bin_expr_faithful(tokens: Stream, i: int)
    requires
        0 <= i <= tokens.len(),
    ensures
        kept(try_bin_expr(tokens, i), tokens, i),
    decreases tokens.len() - i, 11nat,
{
    try_bin_expr_def_faithful(tokens, Level::Range, i);
}

/// An `and` expression keeps every token that was read for it but the
/// commas.
#[verifier::spinoff_prover]
pub(crate) proof fn try_and_expr_faithful(tokens: Stream, i: int)
    requires
        0 <= i <= tokens.len(),
    ensures
        kept(try_and_expr(tokens, i), tokens, i),
    decreases tokens.len() - i, 12nat,
{
    let and = TokenModel::Keyword(Keyword::And);
    try_bin_expr_faithful(tokens, i);
    match try_bin_expr(tokens, i).forward(tokens, i) {
        Parsed::Found(left, next) => {
            exact_is_kept(tokens, i, next, and);
            match exact(tokens, next, and) {
                Parsed::Found(op_span, after) => {
                    try_bin_expr_faithful(tokens, after);
                    crate::progress::try_bin_expr_moves(tokens, after);
                    match try_bin_expr(tokens, after) {
                        Parsed::Found(right, end) => {
                            essential_splits(tokens, i, after, end);
                            let node = crate::grammar::logic_node(
                                left,
                                Sp { value: LogicOp::And, span: op_span },
                                right,
                            );
                            assert(essential(tokens, i, end) =~= essence(node));
                        },
                        _ => {},
                    }
                },
                _ => {},
            }
        },
        _ => {},
    }
}

/// An `or` expression keeps every token that was read for it but the
/// commas.
#[verifier::spinoff_prover]
pub(crate) proof fn try_or_expr_faithful(tokens: Stream, i: int)
    requires
        0 <= i <= tokens.len(),
    ensures
        kept(try_or_expr(tokens, i), tokens, i),
    decreases tokens.len() - i, 13nat,
{
    let or = TokenModel::Keyword(Keyword::Or);
    try_and_expr_faithful(tokens, i);
    match try_and_expr(tokens, i).forward(tokens, i) {
        Parsed::Found(left, next) => {
            exact_is_kept(tokens, i, next, or);
            match exact(tokens, next, or) {
                Parsed::Found(op_span, after) => {
                    try_and_expr_faithful(tokens, after);
                    crate::progress::try_and_expr_moves(tokens, after);
                    match try_and_expr(tokens, after) {
                        Parsed::Found(right, end) => {
                            essential_splits(tokens, i, after, end);
                            let node = crate::grammar::logic_node(
                                left,
                                Sp { value: LogicOp::Or, span: op_span },
                                right,
                            );
                            assert(essential(tokens, i, end) =~= essence(node));
                        },
                        _ => {},
                    }
                },
                _ => {},
            }
        },
        _ => {},
    }
}

/// An expression keeps every token that was read for it but the commas.
#[verifier::spinoff_prover]
pub(crate) proof fn try_expr_faithful(tokens: Stream, i: int)
    requires
        0 <= i <= tokens.len(),
    ensures
        kept(try_expr(tokens, i), tokens, i),
    decreases tokens.len() - i, 14nat,
{
    try_or_expr_faithful(tokens, i);
}

/// An expression that must come keeps every token that was read for it but
/// the commas.
#[verifier::spinoff_prover]
pub(crate) proof fn expr_faithful(tokens: Stream, i: int)
    requires
        0 <= i <= tokens.len(),
    ensures
        kept(expr(tokens, i), tokens, i),
    decreases tokens.len() - i, 15nat,
{
    try_expr_faithful(tokens, i);
}

/// A binding keeps every token that was read for it but the commas.
#[verifier::spinoff_prover]
pub(crate) proof fn try_binding_faithful(tokens: Stream, i: int)
    requires
        0 <= i <= tokens.len(),
    ensures
        try_binding(tokens, i) matches Parsed::Found(b, next) ==> essential(tokens, i, next)
            == binding_essence(b),
    decreases tokens.len() - i, 17nat,
{
    let keyword = TokenModel::Keyword(Keyword::Let);
    let equal = TokenModel::Simple(Simple::Equal);
    exact_is_kept(tokens, i, i, keyword);
    essential_of_nothing(tokens, i);
    match exact(tokens, i, keyword) {
        Parsed::Found(_, pattern_at) => {
            try_pattern_faithful(tokens, pattern_at);
            match pattern(tokens, pattern_at).forward(tokens, pattern_at) {
                Parsed::Found(p, equal_at) => {
                    essential_splits(tokens, i, pattern_at, equal_at);
                    exact_is_kept(tokens, i, equal_at, equal);
                    match exact(tokens, equal_at, equal) {
                        Parsed::Found(_, expr_at) => {
                            expr_faithful(tokens, expr_at);
                            expr_moves(tokens, expr_at);
                            match expr(tokens, expr_at) {
                                Parsed::Found(value, end) => {
                                    essential_splits(tokens, i, expr_at, end);
                                    let b = BindingModel { pattern: p, expr: value };
                                    assert(essential(tokens, i, end) =~= binding_essence(b));
                                },
                                _ => {},
                            }
                        },
                        _ => {},
                    }
                },
                _ => {},
            }
        },
        _ => {},
    }
}

/// A block keeps every token that was read for it but the commas.
#[verifier::spinoff_prover]
pub(crate) proof fn block_faithful(tokens: Stream, i: int)
    requires
        0 <= i <= tokens.len(),
    ensures
        block(tokens, i) matches Parsed::Found(b, next) ==> essential(tokens, i, next)
            == block_essence(b),
    decreases tokens.len() - i, 19nat,
{
    essential_of_nothing(tokens, i);
    assert(essential(tokens, i, i) =~= bindings_essence(Seq::empty()));
    block_rest_faithful(tokens, i, i, Seq::empty());
}

/// The rest of a block behind the bindings `bindings`, which were read from
/// `start` on.
#[verifier::spinoff_prover]
pub(crate) proof fn block_rest_faithful(
    tokens: Stream,
    i: int,
    start: int,
    bindings: Seq<BindingModel>,
)
    requires
        0 <= start <= i <= tokens.len(),
        essential(tokens, start, i) == bindings_essence(bindings),
    ensures
        block_rest(tokens, i, bindings) matches Parsed::Found(b, next) ==> essential(
            tokens,
            start,
            next,
        ) == block_essence(b),
    decreases tokens.len() - i, 18nat,
{
    let semi = TokenModel::Simple(Simple::SemiColon);
    try_binding_faithful(tokens, i);
    expr_faithful(tokens, i);
    expr_moves(tokens, i);
    match try_binding(tokens, i).forward(tokens, i) {
        Parsed::Found(binding, semi_at) => {
            essential_splits(tokens, start, i, semi_at);
            exact_is_kept(tokens, start, semi_at, semi);
            match exact(tokens, semi_at, semi) {
                Parsed::Found(_, next) => {
                    bindings_essence_grows(bindings, binding);
                    block_rest_faithful(tokens, next, start, bindings.push(binding));
                },
                _ => {},
            }
        },
        Parsed::Failed(error, at) => {},
        Parsed::Absent => {
            match expr(tokens, i) {
                Parsed::Found(value, end) => {
                    essential_splits(tokens, start, i, end);
                },
                _ => {},
            }
        },
    }
}

/// Nothing is essential of doc comments.
#[verifier::spinoff_prover]
pub(crate) proof fn doc_comment_is_dropped(tokens: Stream, i: int, doc: Option<Sp<Seq<char>>>)
    requires
        0 <= i <= tokens.len(),
    ensures
        i <= doc_comment(tokens, i, doc).1 <= tokens.len(),
        essential(tokens, i, doc_comment(tokens, i, doc).1) == Seq::<TokenModel>::empty(),
    decreases tokens.len() - i,
{
    essential_of_nothing(tokens, i);
    match peek(tokens, i) {
        Some(next) => match next.value {
            TokenModel::DocComment(line) => {
                let after = next_index(tokens, i) + 1;
                let longer = Some(
                    match doc {
                        Some(above) => Sp {
                            value: above.value + line,
                            span: above.span.merged(next.span),
                        },
                        None => Sp { value: line, span: next.span },
                    },
                );
                essential_takes_next(tokens, i, i);
                doc_comment_is_dropped(tokens, after, longer);
                essential_splits(tokens, i, after, doc_comment(tokens, after, longer).1);
                assert(essential(tokens, i, doc_comment(tokens, i, doc).1) =~= Seq::<
                    TokenModel,
                >::empty());
            },
            _ => {},
        },
        None => {},
    }
}

/// One more name adds its identifier behind those of the names before.
#[verifier::spinoff_prover]
pub(crate) proof fn names_essence_grows(names: Seq<Sp<Seq<char>>>, name: Sp<Seq<char>>)
    ensures
        names_essence(names.push(name)) == names_essence(names) + seq![
            TokenModel::Ident(name.value),
        ],
{
    assert(names.push(name).drop_last() =~= names);
}

/// Parameters keep their identifiers.
#[verifier::spinoff_prover]
pub(crate) proof fn params_faithful(
    tokens: Stream,
    i: int,
    start: int,
    head: Seq<TokenModel>,
    names: Seq<Sp<Seq<char>>>,
)
    requires
        0 <= start <= i <= tokens.len(),
        essential(tokens, start, i) == head + names_essence(names),
    ensures
        i <= params(tokens, i, names).1 <= tokens.len(),
        essential(tokens, start, params(tokens, i, names).1) == head + names_essence(
            params(tokens, i, names).0,
        ),
    decreases tokens.len() - i,
{
    match try_ident(tokens, i) {
        Parsed::Found(name, next) => {
            essential_takes_next(tokens, start, i);
            names_essence_grows(names, name);
            assert(essential(tokens, start, next) =~= head + names_essence(names.push(name)));
            params_faithful(tokens, next, start, head, names.push(name));
        },
        _ => {},
    }
}

/// A function definition keeps every token that was read for it but the
/// comments, the doc comments and the commas.
#[verifier::spinoff_prover]
pub(crate) proof fn try_function_def_faithful(tokens: Stream, i: int)
    requires
        0 <= i <= tokens.len(),
    ensures
        try_function_def(tokens, i) matches Parsed::Found(def, next) ==> essential(
            tokens,
            i,
            next,
        ) == function_essence(def),
{
    reveal(try_function_def);
    let keyword = TokenModel::Keyword(Keyword::Fn);
    let colon = TokenModel::Simple(Simple::Colon);
    doc_comment_is_dropped(tokens, i, None);
    let (doc, fn_at) = doc_comment(tokens, i, None);
    exact_is_kept(tokens, i, fn_at, keyword);
    match exact(tokens, fn_at, keyword) {
        Parsed::Found(_, name_at) => match ident(tokens, name_at) {
            Parsed::Found(name, params_at) => {
                essential_takes_next(tokens, i, name_at);
                let head = seq![keyword, TokenModel::Ident(name.value)];
                assert(essential(tokens, i, params_at) =~= head + names_essence(Seq::empty()));
                params_faithful(tokens, params_at, i, head, Seq::empty());
                let (names, colon_at) = params(tokens, params_at, Seq::empty());
                exact_is_kept(tokens, i, colon_at, colon);
                match exact(tokens, colon_at, colon) {
                    Parsed::Found(_, body_at) => {
                        block_faithful(tokens, body_at);
                        block_moves(tokens, body_at);
                        match block(tokens, body_at) {
                            Parsed::Found(body, end) => {
                                essential_splits(tokens, i, body_at, end);
                            },
                            _ => {},
                        }
                    },
                    _ => {},
                }
            },
            _ => {},
        },
        _ => {},
    }
}

/// An item keeps every token that was read for it but the comments, the
/// doc comments and the commas.
#[verifier::spinoff_prover]
pub(crate) proof fn try_item_faithful(tokens: Stream, i: int)
    requires
        0 <= i <= tokens.len(),
    ensures
        try_item(tokens, i) matches Parsed::Found(item, next) ==> essential(tokens, i, next)
            == item_essence(item),
{
    reveal(try_item);
    let semi = TokenModel::Simple(Simple::SemiColon);
    doc_comment_is_dropped(tokens, i, None);
    let at = behind_docs(tokens, i);
    try_function_def_faithful(tokens, i);
    crate::progress::try_function_def_moves(tokens, i);
    try_binding_faithful(tokens, at);
    try_binding_moves(tokens, at);
    try_expr_faithful(tokens, at);
    crate::progress::try_expr_moves(tokens, at);
    match try_function_def(tokens, i) {
        Parsed::Found(def, next) => {
            exact_is_kept(tokens, i, next, semi);
        },
        Parsed::Failed(error, at) => {},
        Parsed::Absent => match try_binding(tokens, at) {
            Parsed::Found(binding, next) => {
                essential_splits(tokens, i, at, next);
                assert(essential(tokens, i, next) =~= binding_essence(binding));
                exact_is_kept(tokens, i, next, semi);
            },
            Parsed::Failed(error, at) => {},
            Parsed::Absent => match try_expr(tokens, at) {
                Parsed::Found(value, next) => {
                    essential_splits(tokens, i, at, next);
                    assert(essential(tokens, i, next) =~= essence(value));
                    exact_is_kept(tokens, i, next, semi);
                },
                _ => {},
            },
        },
    }
}

/// One more item adds its tokens behind those of the items before.
#[verifier::spinoff_prover]
pub(crate) proof fn items_essence_grows(found: Seq<ItemModel>, item: ItemModel)
    ensures
        items_essence(found.push(item)) == items_essence(found) + item_essence(item),
{
    assert(found.push(item).drop_last() =~= found);
}

/// The items that are read from position `i` on keep every token that was
/// read for them, as long as no diagnostic is met; and diagnostics are never
/// taken back.
#[verifier::spinoff_prover]
pub(crate) proof fn items_faithful(
    tokens: Stream,
    i: int,
    found: Seq<ItemModel>,
    errors: Seq<Sp<ParseErrorModel>>,
)
    requires
        0 <= i <= tokens.len(),
        essential(tokens, 0, i) == items_essence(found),
    ensures
        errors.len() <= items(tokens, i, found, errors).1.len(),
        i <= items(tokens, i, found, errors).2 <= tokens.len(),
        items(tokens, i, found, errors).1.len() == errors.len() ==> essential(
            tokens,
            0,
            items(tokens, i, found, errors).2,
        ) == items_essence(items(tokens, i, found, errors).0),
    decreases tokens.len() - i,
{
    try_item_moves(tokens, i);
    try_item_faithful(tokens, i);
    match try_item(tokens, i) {
        Parsed::Found(item, next) => {
            essential_splits(tokens, 0, i, next);
            items_essence_grows(found, item);
            items_faithful(tokens, next, found.push(item), errors);
            assert(items(tokens, i, found, errors) == items(tokens, next, found.push(item), errors));
        },
        Parsed::Failed(error, at) => {
            // What was read before the diagnostic is lost; only the count of
            // diagnostics matters from here on.
            items_lengthen(tokens, at, found, errors.push(error));
            assert(items(tokens, i, found, errors) == items(tokens, at, found, errors.push(error)));
        },
        Parsed::Absent => {
            assert(items(tokens, i, found, errors) == (found, errors, i));
        },
    }
}

/// Diagnostics are never taken back, and reading ends inside the input.
#[verifier::spinoff_prover]
pub(crate) proof fn items_lengthen(
    tokens: Stream,
    i: int,
    found: Seq<ItemModel>,
    errors: Seq<Sp<ParseErrorModel>>,
)
    requires
        0 <= i <= tokens.len(),
    ensures
        errors.len() <= items(tokens, i, found, errors).1.len(),
        i <= items(tokens, i, found, errors).2 <= tokens.len(),
    decreases tokens.len() - i,
{
    try_item_moves(tokens, i);
    match try_item(tokens, i) {
        Parsed::Found(item, next) => {
            items_lengthen(tokens, next, found.push(item), errors);
            assert(items(tokens, i, found, errors) == items(tokens, next, found.push(item), errors));
        },
        Parsed::Failed(error, at) => {
            items_lengthen(tokens, at, found, errors.push(error));
            assert(items(tokens, i, found, errors) == items(tokens, at, found, errors.push(error)));
        },
        Parsed::Absent => {
            assert(items(tokens, i, found, errors) == (found, errors, i));
        },
    }
}

/// A parse without diagnostics keeps every token of the input but the
/// comments, the doc comments and the commas.
#[verifier::spinoff_prover]
pub(crate) proof fn parse_faithful(tokens: Stream)
    requires
        parse(tokens).1.len() == 0,
    ensures
        essential(tokens, 0, tokens.len() as int) == items_essence(parse(tokens).0),
{
    essential_of_nothing(tokens, 0);
    assert(essential(tokens, 0, 0) =~= items_essence(Seq::empty()));
    items_faithful(tokens, 0, Seq::empty(), Seq::empty());
    let (found, errors, end) = items(tokens, 0, Seq::empty(), Seq::empty());
    let rest = behind_docs(tokens, end);
    doc_comment_is_dropped(tokens, end, None);
    essential_skips_comments(tokens, rest);
    essential_splits(tokens, 0, end, tokens.len() as int);
    essential_splits(tokens, end, rest, tokens.len() as int);
    assert(essential(tokens, 0, tokens.len() as int) =~= essential(tokens, 0, end));
}

} // verus!
