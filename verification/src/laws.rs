//! What holds of every parse.

use crate::ast::{BindingModel, ItemModel};
use crate::error::ParseErrorModel;
use crate::grammar::{
    behind_docs, close_item, doc_comment, items, next_index, parse, peek, try_and_expr, try_bin_expr,
    try_bin_expr_def, try_binding, try_call, try_expr, try_function_def, try_item, try_operand,
    try_or_expr, try_term, Level, Parsed, Stream,
};
use crate::diagnostics::try_item_noticed;
use crate::faithful::{essential, items_essence, kept, parse_faithful, try_expr_faithful};
use crate::grammar::{last_span, try_if, try_pattern, unexpected};
use crate::error::Expectation;
use crate::placement::{
    before_is_transitive, in_source_order, item_joined, items_placed, merge_in_order,
    tokens_in_order, try_binding_placed,
};
use crate::precedence::{item_nested, items_nested};
use crate::progress::{
    doc_comment_moves, moved, try_binding_moves, try_call_moves, try_expr_moves, try_function_def_moves, try_if_moves,
    try_item_moves, try_pattern_moves, try_term_moves,
};
use crate::span::{Loc, Sp};
use crate::token::{Keyword, Simple, TokenModel};
use vstd::prelude::*;

verus! {

/// Forward progress: whatever a rule that may find nothing reads or reports,
/// it ends behind where it started and inside the input. So reading items
/// one after the other comes to an end, also behind a diagnostic.
pub proof fn rules_move_forward(tokens: Stream, i: int)
    ensures
        moved(try_pattern(tokens, i), tokens, i),
        moved(try_term(tokens, i), tokens, i),
        moved(try_if(tokens, i), tokens, i),
        moved(try_call(tokens, i), tokens, i),
        moved(try_expr(tokens, i), tokens, i),
        moved(try_binding(tokens, i), tokens, i),
        moved(try_function_def(tokens, i), tokens, i),
        moved(try_item(tokens, i), tokens, i),
{
    try_pattern_moves(tokens, i);
    try_term_moves(tokens, i);
    try_if_moves(tokens, i);
    try_call_moves(tokens, i);
    try_expr_moves(tokens, i);
    try_binding_moves(tokens, i);
    try_function_def_moves(tokens, i);
    try_item_moves(tokens, i);
}

/// Span merge law: over tokens in source order, every binary, logical and
/// call node in every item that is parsed starts where its leftmost child
/// starts and ends where its rightmost child ends.
pub proof fn node_spans_follow_children(tokens: Stream)
    requires
        in_source_order(tokens),
    ensures
        forall|k: int|
            0 <= k < parse(tokens).0.len() ==> item_joined(#[trigger] parse(tokens).0[k]),
{
    items_placed(tokens, 0, Seq::empty(), Seq::empty());
}

/// Where the input has ended, no operand starts.
proof fn no_operand_at_the_end(tokens: Stream, level: Level, i: int)
    requires
        peek(tokens, i) is None,
    ensures
        try_operand(tokens, level, i) is Absent,
        try_bin_expr_def(tokens, level, i) is Absent,
    decreases level.height(),
{
    assert(try_term(tokens, i) is Absent);
    assert(try_call(tokens, i) is Absent);
    match level.tighter() {
        Some(child) => no_operand_at_the_end(tokens, child, i),
        None => {},
    }
}

/// Where the input has ended, no item starts.
pub proof fn no_item_at_the_end(tokens: Stream, i: int)
    requires
        peek(tokens, i) is None,
    ensures
        try_item(tokens, i) is Absent,
{
    reveal(try_item);
    reveal(try_function_def);
    no_operand_at_the_end(tokens, Level::Range, i);
    assert(try_bin_expr(tokens, i) is Absent);
    assert(try_and_expr(tokens, i) is Absent);
    assert(try_or_expr(tokens, i) is Absent);
    assert(try_expr(tokens, i) is Absent);
    assert(try_binding(tokens, i) is Absent);
    assert(doc_comment(tokens, i, None) == (None::<Sp<Seq<char>>>, i));
}

/// Whether every token covers at least one character.
pub open spec fn no_token_is_empty(tokens: Stream) -> bool {
    forall|k: int| 0 <= k < tokens.len() ==> (#[trigger] tokens[k]).span.start != tokens[k].span.end
}

/// An item that is read from the start up to the end of the input is the
/// whole parse.
proof fn one_item_is_the_parse(tokens: Stream, item: ItemModel, end: int)
    requires
        try_item(tokens, 0) == Parsed::Found(item, end),
        next_index(tokens, end) == tokens.len(),
    ensures
        parse(tokens) == (seq![item], Seq::<Sp<ParseErrorModel>>::empty()),
{
    try_item_moves(tokens, 0);
    no_item_at_the_end(tokens, end);
    assert(behind_docs(tokens, end) == end);
    let one = Seq::<ItemModel>::empty().push(item);
    assert(one =~= seq![item]);
    assert(items(tokens, end, one, Seq::empty()) == (one, Seq::<Sp<ParseErrorModel>>::empty(), end));
    assert(items(tokens, 0, Seq::empty(), Seq::empty()) == items(tokens, end, one, Seq::empty()));
}

/// An item that is a binding was read by the binding rule, and `;` is its
/// last token.
proof fn binding_item_ends_with_semicolon(tokens: Stream, binding: BindingModel, end: int)
    requires
        try_item(tokens, 0) == Parsed::Found(ItemModel::Binding(binding), end),
    ensures
        try_binding(tokens, behind_docs(tokens, 0)) matches Parsed::Found(b, semi_at) && b
            == binding && semi_at <= end - 1 < tokens.len(),
        0 <= end - 1 < tokens.len() ==> tokens[end - 1].value == TokenModel::Simple(
            Simple::SemiColon,
        ),
        0 <= first_token(tokens) < tokens.len() ==> tokens[first_token(tokens)].value
            == TokenModel::Keyword(Keyword::Let),
{
    reveal(try_item);
    let item = ItemModel::Binding(binding);
    let at = behind_docs(tokens, 0);
    let semi_at = match try_binding(tokens, at) {
        Parsed::Found(_, semi_at) => semi_at,
        _ => 0,
    };
    assert(try_function_def(tokens, 0) is Absent);
    assert(try_binding(tokens, at) == Parsed::Found(binding, semi_at));
    assert(close_item(tokens, semi_at, item) == Parsed::Found(item, end));
    assert(end - 1 == next_index(tokens, semi_at));
}

/// The position of the first token of the first item: behind the comments
/// and the doc comments in front of it.
pub open spec fn first_token(tokens: Stream) -> int {
    next_index(tokens, behind_docs(tokens, 0))
}

/// A single binding: where the item rule reads the whole input as one
/// binding `let <pattern> = <expr>;`, parsing gives exactly that binding and
/// no diagnostic, and the spans of the pattern and of the expression lie
/// strictly inside the span of the statement, which runs from `let` to `;`.
pub proof fn single_binding_is_one_item(tokens: Stream, binding: BindingModel, end: int)
    requires
        in_source_order(tokens),
        no_token_is_empty(tokens),
        try_item(tokens, 0) == Parsed::Found(ItemModel::Binding(binding), end),
        next_index(tokens, end) == tokens.len(),
    ensures
        parse(tokens) == (
            seq![ItemModel::Binding(binding)],
            Seq::<Sp<ParseErrorModel>>::empty(),
        ),
        0 <= first_token(tokens) < end - 1 < tokens.len(),
        tokens[first_token(tokens)].value == TokenModel::Keyword(Keyword::Let),
        tokens[end - 1].value == TokenModel::Simple(Simple::SemiColon),
        binding.pattern.span.strictly_within(
            tokens[first_token(tokens)].span.merged(tokens[end - 1].span),
        ),
        binding.expr.span.strictly_within(
            tokens[first_token(tokens)].span.merged(tokens[end - 1].span),
        ),
{
    one_item_is_the_parse(tokens, ItemModel::Binding(binding), end);
    binding_item_ends_with_semicolon(tokens, binding, end);
    doc_comment_moves(tokens, 0, None);
    let at = behind_docs(tokens, 0);
    try_binding_placed(tokens, at);
    let semi_at = match try_binding(tokens, at) {
        Parsed::Found(_, semi_at) => semi_at,
        _ => 0,
    };
    let first = first_token(tokens);
    let last = end - 1;
    // The statement spans from `let` to `;`, and both parts lie between.
    let statement = tokens[first].span.merged(tokens[last].span);
    merge_in_order(tokens, tokens[first].span, tokens[last].span, first, first, last, last);
    tokens_in_order(tokens, first, first);
    tokens_in_order(tokens, semi_at - 1, last);
    let p = binding.pattern.span;
    let e = binding.expr.span;
    before_is_transitive(statement.start, tokens[first].span.end, p.start);
    before_is_transitive(p.end, e.start, e.end);
    before_is_transitive(p.end, e.end, statement.end);
    before_is_transitive(p.start, p.end, e.start);
    before_is_transitive(tokens[first].span.end, p.start, e.start);
    before_is_transitive(statement.start, tokens[first].span.end, e.start);
}

/// Precedence and associativity: in every item that is parsed, the right
/// operand of a binary operator is tighter than the operator and the left
/// operand is no looser; both operands of `and` are binary expressions or
/// tighter, both operands of `or` are `and` expressions or tighter; and a
/// call applies a term to terms, so that it is tighter than every operator.
pub proof fn trees_respect_precedence(tokens: Stream)
    ensures
        forall|k: int|
            0 <= k < parse(tokens).0.len() ==> item_nested(#[trigger] parse(tokens).0[k]),
{
    items_nested(tokens, 0, Seq::empty(), Seq::empty());
}

/// Whether the diagnostic `error` over `tokens` asks for one thing and
/// either names a token and carries its span, or names none and carries the
/// empty span behind the last token.
pub open spec fn well_anchored(tokens: Stream, error: Sp<ParseErrorModel>) -> bool {
    &&& error.value matches ParseErrorModel::Expected(expectations, found)
    &&& expectations.len() == 1
    &&& match found {
        Some(token) => error.span == token.span,
        None => error.span == tokens.last().span.end_point(),
    }
}

/// What is read from position `i` on adds only well anchored diagnostics.
proof fn items_well_anchored(
    tokens: Stream,
    i: int,
    found: Seq<ItemModel>,
    errors: Seq<Sp<ParseErrorModel>>,
)
    requires
        forall|k: int| 0 <= k < errors.len() ==> well_anchored(tokens, #[trigger] errors[k]),
    ensures
        forall|k: int|
            0 <= k < items(tokens, i, found, errors).1.len() ==> well_anchored(
                tokens,
                #[trigger] items(tokens, i, found, errors).1[k],
            ),
    decreases tokens.len() - i,
{
    try_item_moves(tokens, i);
    try_item_noticed(tokens, i);
    match try_item(tokens, i) {
        Parsed::Found(item, next) => {
            items_well_anchored(tokens, next, found.push(item), errors);
            assert(items(tokens, i, found, errors) == items(tokens, next, found.push(item), errors));
        },
        Parsed::Failed(error, at) => {
            let longer = errors.push(error);
            assert forall|k: int| 0 <= k < longer.len() implies well_anchored(
                tokens,
                #[trigger] longer[k],
            ) by {
                if k < errors.len() {
                    assert(longer[k] == errors[k]);
                }
            }
            items_well_anchored(tokens, at, found, longer);
            assert(items(tokens, i, found, errors) == items(tokens, at, found, longer));
        },
        Parsed::Absent => {
            assert(items(tokens, i, found, errors).1 == errors);
        },
    }
}

/// Every diagnostic of a parse asks for one thing. It names the token that
/// stood in its place and carries that token's span, or, where the input had
/// ended, names none and carries the empty span behind the last token.
pub proof fn diagnostics_are_well_anchored(tokens: Stream)
    ensures
        forall|k: int|
            0 <= k < parse(tokens).1.len() ==> well_anchored(
                tokens,
                #[trigger] parse(tokens).1[k],
            ),
{
    items_well_anchored(tokens, 0, Seq::empty(), Seq::empty());
    let (found, errors, end) = items(tokens, 0, Seq::empty(), Seq::empty());
    let last = unexpected(tokens, behind_docs(tokens, end), seq![Expectation::Eof]);
    assert(well_anchored(tokens, last));
    assert forall|k: int| 0 <= k < parse(tokens).1.len() implies well_anchored(
        tokens,
        #[trigger] parse(tokens).1[k],
    ) by {
        if k < errors.len() {
            assert(parse(tokens).1[k] == errors[k]);
        }
    }
}

/// Behind position `i` stand comments only, up to the next position that is
/// read.
proof fn comments_up_to_next(tokens: Stream, i: int)
    requires
        0 <= i,
    ensures
        i <= next_index(tokens, i),
        next_index(tokens, i) <= tokens.len() || next_index(tokens, i) == i,
        forall|j: int| i <= j < next_index(tokens, i) ==> (#[trigger] tokens[j]).value is Comment,
    decreases tokens.len() - i,
{
    if i < tokens.len() && tokens[i].value is Comment {
        comments_up_to_next(tokens, i + 1);
    }
}

/// A later position is followed by a later token.
proof fn next_index_grows(tokens: Stream, a: int, b: int)
    requires
        0 <= a <= b,
    ensures
        next_index(tokens, a) <= next_index(tokens, b),
    decreases b - a,
{
    comments_up_to_next(tokens, a);
    comments_up_to_next(tokens, b);
    if a < b && b < next_index(tokens, a) {
        assert(tokens[a].value is Comment);
        assert(next_index(tokens, a) == next_index(tokens, a + 1));
        next_index_grows(tokens, a + 1, b);
    }
}

/// Over tokens in source order, a later position has a later span for its
/// diagnostics.
proof fn last_span_grows(tokens: Stream, a: int, b: int)
    requires
        in_source_order(tokens),
        0 <= a <= b <= tokens.len(),
        tokens.len() > 0,
    ensures
        last_span(tokens, a).start.at_or_before(last_span(tokens, b).start),
{
    next_index_grows(tokens, a, b);
    comments_up_to_next(tokens, a);
    comments_up_to_next(tokens, b);
    let first = next_index(tokens, a);
    let second = next_index(tokens, b);
    if second < tokens.len() {
        tokens_in_order(tokens, first, second);
    } else if first < tokens.len() {
        tokens_in_order(tokens, first, tokens.len() - 1);
    } else {
        tokens_in_order(tokens, tokens.len() - 1, tokens.len() - 1);
    }
}

/// Whether the diagnostics `errors` start one behind the other, and none
/// behind `bound`.
pub open spec fn in_order_up_to(errors: Seq<Sp<ParseErrorModel>>, bound: Loc) -> bool {
    &&& forall|j: int, k: int|
        0 <= j < k < errors.len() ==> (#[trigger] errors[j]).span.start.at_or_before(
            (#[trigger] errors[k]).span.start,
        )
    &&& forall|k: int| 0 <= k < errors.len() ==> (#[trigger] errors[k]).span.start.at_or_before(bound)
}

/// What is read from position `i` on adds diagnostics in the order of the
/// source.
proof fn items_in_order(
    tokens: Stream,
    i: int,
    found: Seq<ItemModel>,
    errors: Seq<Sp<ParseErrorModel>>,
)
    requires
        in_source_order(tokens),
        tokens.len() > 0,
        0 <= i <= tokens.len(),
        in_order_up_to(errors, last_span(tokens, i).start),
    ensures
        i <= items(tokens, i, found, errors).2 <= tokens.len(),
        in_order_up_to(
            items(tokens, i, found, errors).1,
            last_span(tokens, items(tokens, i, found, errors).2).start,
        ),
    decreases tokens.len() - i,
{
    try_item_moves(tokens, i);
    try_item_noticed(tokens, i);
    match try_item(tokens, i) {
        Parsed::Found(item, next) => {
            last_span_grows(tokens, i, next);
            assert forall|k: int| 0 <= k < errors.len() implies (#[trigger] errors[k])
                .span.start.at_or_before(last_span(tokens, next).start) by {
                before_is_transitive(
                    errors[k].span.start,
                    last_span(tokens, i).start,
                    last_span(tokens, next).start,
                );
            }
            items_in_order(tokens, next, found.push(item), errors);
            assert(items(tokens, i, found, errors) == items(tokens, next, found.push(item), errors));
        },
        Parsed::Failed(error, at) => {
            last_span_grows(tokens, i, at);
            let longer = errors.push(error);
            assert forall|k: int| 0 <= k < longer.len() implies (#[trigger] longer[k])
                .span.start.at_or_before(last_span(tokens, at).start) by {
                if k < errors.len() {
                    assert(longer[k] == errors[k]);
                    before_is_transitive(
                        errors[k].span.start,
                        last_span(tokens, i).start,
                        last_span(tokens, at).start,
                    );
                }
            }
            assert forall|j: int, k: int| 0 <= j < k < longer.len() implies (#[trigger] longer[j])
                .span.start.at_or_before((#[trigger] longer[k]).span.start) by {
                assert(longer[j] == errors[j]);
                if k < errors.len() {
                    assert(longer[k] == errors[k]);
                }
            }
            items_in_order(tokens, at, found, longer);
            assert(items(tokens, i, found, errors) == items(tokens, at, found, longer));
        },
        Parsed::Absent => {
            assert(items(tokens, i, found, errors) == (found, errors, i));
        },
    }
}

/// Source order of diagnostics: over tokens in source order, each
/// diagnostic of a parse starts at or behind the start of the one before it.
pub proof fn diagnostics_are_in_source_order(tokens: Stream)
    requires
        in_source_order(tokens),
    ensures
        forall|j: int, k: int|
            0 <= j < k < parse(tokens).1.len() ==> (#[trigger] parse(tokens).1[j])
                .span.start.at_or_before((#[trigger] parse(tokens).1[k]).span.start),
{
    if tokens.len() == 0 {
        no_item_at_the_end(tokens, 0);
        assert(items(tokens, 0, Seq::empty(), Seq::empty()).1 == Seq::<
            Sp<ParseErrorModel>,
        >::empty());
    } else {
        items_in_order(tokens, 0, Seq::empty(), Seq::empty());
        let (found, errors, end) = items(tokens, 0, Seq::empty(), Seq::empty());
        let rest = behind_docs(tokens, end);
        doc_comment_moves(tokens, end, None);
        last_span_grows(tokens, end, rest);
        let all = parse(tokens).1;
        assert forall|j: int, k: int| 0 <= j < k < all.len() implies (#[trigger] all[j])
            .span.start.at_or_before((#[trigger] all[k]).span.start) by {
            assert(all[j] == errors[j]);
            if k < errors.len() {
                assert(all[k] == errors[k]);
            } else {
                before_is_transitive(
                    errors[j].span.start,
                    last_span(tokens, end).start,
                    last_span(tokens, rest).start,
                );
            }
        }
    }
}

/// Faithful reading of expressions: the tokens that are read for an
/// expression, without the comments and the commas, are the tokens that the
/// expression is written with, in the same order.
pub proof fn expressions_keep_their_tokens(tokens: Stream, i: int)
    requires
        0 <= i <= tokens.len(),
    ensures
        kept(try_expr(tokens, i), tokens, i),
{
    try_expr_faithful(tokens, i);
}

/// Faithful reading of inputs: where a parse meets no diagnostic, the
/// tokens of the input, without the comments, the doc comments and the
/// commas, are the tokens that the items are written with, each item with
/// the `;` that closes it, in the same order.
pub proof fn clean_parse_keeps_every_token(tokens: Stream)
    requires
        parse(tokens).1.len() == 0,
    ensures
        essential(tokens, 0, tokens.len() as int) == items_essence(parse(tokens).0),
{
    parse_faithful(tokens);
}

} // verus!
