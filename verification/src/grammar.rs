//! The grammar, as functions from a token sequence and a position to what is
//! read there.
//!
//! Every rule takes the whole sequence and the position to start at. A rule
//! that may find nothing answers [`Parsed::Absent`] and a rule that must find
//! something answers [`Parsed::Failed`] with the diagnostic. The parser's
//! contracts are stated over these functions.

use crate::ast::{BinOp, BindingModel, BlockModel, ExprModel, FunctionDefModel, ItemModel, LogicOp, PatternModel};
use crate::error::{Expectation, ParseErrorModel};
use crate::progress::try_item_moves;
use crate::span::{Sp, Span};
use crate::token::{Keyword, Simple, Token, TokenModel};
use vstd::prelude::*;

verus! {

/// A token sequence as the grammar sees it.
pub type Stream = Seq<Sp<TokenModel>>;

/// What a rule reads at a position.
pub enum Parsed<T> {
    /// Nothing of the kind starts here. The position has not moved.
    Absent,
    /// A value, and the position just behind it.
    Found(T, int),
    /// Something that had to come was missing. The position is the one at
    /// which that was noticed.
    Failed(Sp<ParseErrorModel>, int),
}

impl<T> Parsed<T> {
    /// A match counts only if it ends behind `from` and inside the input.
    /// Every rule's matches do; repetitions rest on it to come to an end.
    pub open spec fn forward(self, tokens: Stream, from: int) -> Parsed<T> {
        match self {
            Parsed::Found(_, next) => if from < next <= tokens.len() {
                self
            } else {
                Parsed::Absent
            },
            _ => self,
        }
    }

    /// Turns "nothing here" into a diagnostic that asks for `what`.
    pub open spec fn required(self, tokens: Stream, at: int, what: Expectation) -> Parsed<T> {
        match self {
            Parsed::Absent => Parsed::Failed(unexpected(tokens, at, seq![what]), at),
            _ => self,
        }
    }
}

/// The number of comments that stand in a row from position `i` on.
pub open spec fn leading_comments(tokens: Stream, i: int) -> nat
    decreases tokens.len() - i,
{
    if 0 <= i < tokens.len() && tokens[i].value is Comment {
        1 + leading_comments(tokens, i + 1)
    } else {
        0
    }
}

/// The position of the first token at or behind `i` that is not a comment,
/// or the end of the input.
pub open spec fn next_index(tokens: Stream, i: int) -> int {
    i + leading_comments(tokens, i)
}

/// The next token that is not a comment, if the input has not ended.
pub open spec fn peek(tokens: Stream, i: int) -> Option<Sp<TokenModel>> {
    let k = next_index(tokens, i);
    if 0 <= k < tokens.len() {
        Some(tokens[k])
    } else {
        None
    }
}

/// The span that a diagnostic at position `i` points to: that of the next
/// token, or at the end of the input the empty span just behind the last
/// token.
pub open spec fn last_span(tokens: Stream, i: int) -> Span {
    match peek(tokens, i) {
        Some(token) => token.span,
        None => tokens.last().span.end_point(),
    }
}

/// The diagnostic for position `i` when one of `expectations` was needed.
pub open spec fn unexpected(tokens: Stream, i: int, expectations: Seq<Expectation>) -> Sp<
    ParseErrorModel,
> {
    Sp {
        value: ParseErrorModel::Expected(expectations, peek(tokens, i)),
        span: last_span(tokens, i),
    }
}

/// Reads the token `token` if it comes next, and gives its span.
pub open spec fn exact(tokens: Stream, i: int, token: TokenModel) -> Parsed<Span> {
    match peek(tokens, i) {
        Some(next) => if next.value == token {
            Parsed::Found(next.span, next_index(tokens, i) + 1)
        } else {
            Parsed::Absent
        },
        None => Parsed::Absent,
    }
}

/// Reads the token `token`, which must come next; `what` names it in the
/// diagnostic.
pub open spec fn expect(tokens: Stream, i: int, token: TokenModel, what: Expectation) -> Parsed<
    Span,
> {
    exact(tokens, i, token).required(tokens, i, what)
}

/// Reads the punctuation `simple`, which must come next.
pub open spec fn expect_simple(tokens: Stream, i: int, simple: Simple) -> Parsed<Span> {
    expect(tokens, i, TokenModel::Simple(simple), Expectation::Simple(simple))
}

/// Reads the keyword `keyword`, which must come next.
pub open spec fn expect_keyword(tokens: Stream, i: int, keyword: Keyword) -> Parsed<Span> {
    expect(tokens, i, TokenModel::Keyword(keyword), Expectation::Keyword(keyword))
}

/// Reads an identifier if one comes next.
pub open spec fn try_ident(tokens: Stream, i: int) -> Parsed<Sp<Seq<char>>> {
    match peek(tokens, i) {
        Some(next) => match next.value {
            TokenModel::Ident(name) => Parsed::Found(
                Sp { value: name, span: next.span },
                next_index(tokens, i) + 1,
            ),
            _ => Parsed::Absent,
        },
        None => Parsed::Absent,
    }
}

/// Reads an identifier, which must come next.
pub open spec fn ident(tokens: Stream, i: int) -> Parsed<Sp<Seq<char>>> {
    try_ident(tokens, i).required(tokens, i, Expectation::Ident)
}

/// Closes a bracketed list whose items have been read: the closing bracket
/// must come next, and the list spans from `open` to it.
pub open spec fn close_list<T>(tokens: Stream, i: int, open: Span, items: Seq<T>) -> Parsed<
    Sp<Seq<T>>,
> {
    match expect_simple(tokens, i, Simple::CloseBracket) {
        Parsed::Found(close, next) => Parsed::Found(
            Sp { value: items, span: open.merged(close) },
            next,
        ),
        Parsed::Failed(error, at) => Parsed::Failed(error, at),
        Parsed::Absent => Parsed::Absent,
    }
}

/// Reads a pattern if one starts here: an identifier, or patterns between
/// square brackets.
pub open spec fn try_pattern(tokens: Stream, i: int) -> Parsed<Sp<PatternModel>>
    decreases tokens.len() - i, 0nat,
{
    match peek(tokens, i) {
        Some(next) => match next.value {
            TokenModel::Ident(name) => Parsed::Found(
                Sp { value: PatternModel::Ident(name), span: next.span },
                next_index(tokens, i) + 1,
            ),
            TokenModel::Simple(Simple::OpenBracket) => match pattern_items(
                tokens,
                next_index(tokens, i) + 1,
                next.span,
                Seq::empty(),
            ) {
                Parsed::Found(list, after) => Parsed::Found(
                    Sp { value: PatternModel::List(list.value), span: list.span },
                    after,
                ),
                Parsed::Failed(error, at) => Parsed::Failed(error, at),
                Parsed::Absent => Parsed::Absent,
            },
            _ => Parsed::Absent,
        },
        None => Parsed::Absent,
    }
}

/// Reads the rest of a bracketed list of patterns: items with a comma
/// between them, an optional comma behind the last, and the closing bracket.
pub open spec fn pattern_items(
    tokens: Stream,
    i: int,
    open: Span,
    items: Seq<Sp<PatternModel>>,
) -> Parsed<Sp<Seq<Sp<PatternModel>>>>
    decreases tokens.len() - i, 1nat,
{
    match try_pattern(tokens, i).forward(tokens, i) {
        Parsed::Found(item, next) => match exact(tokens, next, TokenModel::Simple(Simple::Comma)) {
            Parsed::Found(_, after) => pattern_items(tokens, after, open, items.push(item)),
            _ => close_list(tokens, next, open, items.push(item)),
        },
        Parsed::Failed(error, at) => Parsed::Failed(error, at),
        Parsed::Absent => close_list(tokens, i, open, items),
    }
}

/// Reads a pattern, which must come next.
pub open spec fn pattern(tokens: Stream, i: int) -> Parsed<Sp<PatternModel>> {
    try_pattern(tokens, i).required(tokens, i, Expectation::Pattern)
}

/// A class of binary operators that bind equally tightly.
#[derive(Clone, Copy, Debug, PartialEq, Eq, Structural)]
pub enum Level {
    Range,
    Comparison,
    Additive,
    Multiplicative,
}

impl Level {
    /// The level that binds next tighter; the tightest has none, and its
    /// operands are calls.
    pub open spec fn tighter(self) -> Option<Level> {
        match self {
            Level::Range => Some(Level::Comparison),
            Level::Comparison => Some(Level::Additive),
            Level::Additive => Some(Level::Multiplicative),
            Level::Multiplicative => None,
        }
    }

    /// The operator that `token` names at this level.
    pub open spec fn operator(self, token: TokenModel) -> Option<BinOp> {
        match (self, token) {
            (Level::Range, TokenModel::Simple(Simple::Elipses)) => Some(BinOp::RangeEx),
            (Level::Comparison, TokenModel::Simple(Simple::Equal)) => Some(BinOp::Eq),
            (Level::Comparison, TokenModel::Simple(Simple::NotEqual)) => Some(BinOp::Ne),
            (Level::Comparison, TokenModel::Simple(Simple::Less)) => Some(BinOp::Lt),
            (Level::Comparison, TokenModel::Simple(Simple::LessEqual)) => Some(BinOp::Le),
            (Level::Comparison, TokenModel::Simple(Simple::Greater)) => Some(BinOp::Gt),
            (Level::Comparison, TokenModel::Simple(Simple::GreaterEqual)) => Some(BinOp::Ge),
            (Level::Additive, TokenModel::Simple(Simple::Plus)) => Some(BinOp::Add),
            (Level::Additive, TokenModel::Simple(Simple::Minus)) => Some(BinOp::Sub),
            (Level::Multiplicative, TokenModel::Simple(Simple::Star)) => Some(BinOp::Mul),
            (Level::Multiplicative, TokenModel::Simple(Simple::Slash)) => Some(BinOp::Div),
            _ => None,
        }
    }

    /// How many levels bind tighter than this one.
    pub open spec fn height(self) -> nat {
        match self {
            Level::Range => 3,
            Level::Comparison => 2,
            Level::Additive => 1,
            Level::Multiplicative => 0,
        }
    }

    /// The level that binds next tighter, if there is one.
    pub fn child(self) -> (r: Option<Level>)
        ensures
            r == self.tighter(),
    {
        match self {
            Level::Range => Some(Level::Comparison),
            Level::Comparison => Some(Level::Additive),
            Level::Additive => Some(Level::Multiplicative),
            Level::Multiplicative => None,
        }
    }

    /// The operator that `token` names at this level, if it names one.
    pub fn operator_of(self, token: &Token) -> (r: Option<BinOp>)
        ensures
            r == self.operator(token@),
    {
        match (self, token) {
            (Level::Range, Token::Simple(Simple::Elipses)) => Some(BinOp::RangeEx),
            (Level::Comparison, Token::Simple(Simple::Equal)) => Some(BinOp::Eq),
            (Level::Comparison, Token::Simple(Simple::NotEqual)) => Some(BinOp::Ne),
            (Level::Comparison, Token::Simple(Simple::Less)) => Some(BinOp::Lt),
            (Level::Comparison, Token::Simple(Simple::LessEqual)) => Some(BinOp::Le),
            (Level::Comparison, Token::Simple(Simple::Greater)) => Some(BinOp::Gt),
            (Level::Comparison, Token::Simple(Simple::GreaterEqual)) => Some(BinOp::Ge),
            (Level::Additive, Token::Simple(Simple::Plus)) => Some(BinOp::Add),
            (Level::Additive, Token::Simple(Simple::Minus)) => Some(BinOp::Sub),
            (Level::Multiplicative, Token::Simple(Simple::Star)) => Some(BinOp::Mul),
            (Level::Multiplicative, Token::Simple(Simple::Slash)) => Some(BinOp::Div),
            _ => None,
        }
    }
}

/// The node for `left op right`, spanning both operands.
pub open spec fn bin_node(left: Sp<ExprModel>, op: Sp<BinOp>, right: Sp<ExprModel>) -> Sp<
    ExprModel,
> {
    Sp {
        value: ExprModel::Bin { left: Box::new(left), op, right: Box::new(right) },
        span: left.span.merged(right.span),
    }
}

/// The node for `left op right` with a logical connective, spanning both
/// operands.
pub open spec fn logic_node(left: Sp<ExprModel>, op: Sp<LogicOp>, right: Sp<ExprModel>) -> Sp<
    ExprModel,
> {
    Sp {
        value: ExprModel::Logic { connective: op, left: Box::new(left), right: Box::new(right) },
        span: left.span.merged(right.span),
    }
}

/// What a term followed by `args` is: the term itself where there are no
/// arguments, else a call that spans from the term to the last argument.
pub open spec fn call_node(func: Sp<ExprModel>, args: Seq<Sp<ExprModel>>) -> Sp<ExprModel> {
    if args.len() == 0 {
        func
    } else {
        Sp {
            value: ExprModel::Call { func: Box::new(func), args },
            span: func.span.merged(args.last().span),
        }
    }
}

/// Reads an atomic term if one starts here: an identifier, a literal, a
/// parenthesised expression or `()`, a bracketed list, or a conditional.
pub open spec fn try_term(tokens: Stream, i: int) -> Parsed<Sp<ExprModel>>
    decreases tokens.len() - i, 0nat,
{
    let after = next_index(tokens, i) + 1;
    match peek(tokens, i) {
        Some(next) => match next.value {
            TokenModel::Ident(name) => Parsed::Found(
                Sp { value: ExprModel::Ident(name), span: next.span },
                after,
            ),
            TokenModel::Int(digits) => Parsed::Found(
                Sp { value: ExprModel::Int(digits), span: next.span },
                after,
            ),
            TokenModel::Real(digits) => Parsed::Found(
                Sp { value: ExprModel::Real(digits), span: next.span },
                after,
            ),
            TokenModel::Keyword(Keyword::True) => Parsed::Found(
                Sp { value: ExprModel::Bool(true), span: next.span },
                after,
            ),
            TokenModel::Keyword(Keyword::False) => Parsed::Found(
                Sp { value: ExprModel::Bool(false), span: next.span },
                after,
            ),
            TokenModel::Simple(Simple::OpenParen) => group(tokens, after, next.span),
            TokenModel::Simple(Simple::OpenBracket) => list(tokens, after, next.span),
            TokenModel::Keyword(Keyword::If) => conditional(tokens, after, next.span),
            _ => Parsed::Absent,
        },
        None => Parsed::Absent,
    }
}

/// Reads what follows an opening parenthesis, whose span is `open`: an
/// expression and the closing parenthesis, or the closing parenthesis alone,
/// which makes the unit value. The node spans both parentheses.
pub open spec fn group(tokens: Stream, i: int, open: Span) -> Parsed<Sp<ExprModel>>
    decreases tokens.len() - i, 15nat,
{
    match try_expr(tokens, i).forward(tokens, i) {
        Parsed::Found(inner, close_at) => close_group(
            tokens,
            close_at,
            open,
            ExprModel::Parened(Box::new(inner)),
        ),
        Parsed::Failed(error, at) => Parsed::Failed(error, at),
        Parsed::Absent => close_group(tokens, i, open, ExprModel::Unit),
    }
}

/// Closes a group whose content `value` has been read: the closing
/// parenthesis must come next.
pub open spec fn close_group(tokens: Stream, i: int, open: Span, value: ExprModel) -> Parsed<
    Sp<ExprModel>,
> {
    match expect_simple(tokens, i, Simple::CloseParen) {
        Parsed::Found(close, end) => Parsed::Found(Sp { value, span: open.merged(close) }, end),
        Parsed::Failed(error, at) => Parsed::Failed(error, at),
        Parsed::Absent => Parsed::Absent,
    }
}

/// Reads what follows an opening bracket, whose span is `open`: the items
/// of a list and the closing bracket. The node spans both brackets.
pub open spec fn list(tokens: Stream, i: int, open: Span) -> Parsed<Sp<ExprModel>>
    decreases tokens.len() - i, 17nat,
{
    match expr_items(tokens, i, open, Seq::empty()) {
        Parsed::Found(list, end) => Parsed::Found(
            Sp { value: ExprModel::List(list.value), span: list.span },
            end,
        ),
        Parsed::Failed(error, at) => Parsed::Failed(error, at),
        Parsed::Absent => Parsed::Absent,
    }
}

/// Reads the rest of a bracketed list of expressions: items with a comma
/// between them, an optional comma behind the last, and the closing bracket.
pub open spec fn expr_items(
    tokens: Stream,
    i: int,
    open: Span,
    items: Seq<Sp<ExprModel>>,
) -> Parsed<Sp<Seq<Sp<ExprModel>>>>
    decreases tokens.len() - i, 16nat,
{
    match try_expr(tokens, i).forward(tokens, i) {
        Parsed::Found(item, next) => match exact(tokens, next, TokenModel::Simple(Simple::Comma)) {
            Parsed::Found(_, after) => expr_items(tokens, after, open, items.push(item)),
            _ => close_list(tokens, next, open, items.push(item)),
        },
        Parsed::Failed(error, at) => Parsed::Failed(error, at),
        Parsed::Absent => close_list(tokens, i, open, items),
    }
}

/// Reads what follows the `if` keyword, whose span is `start`: the
/// condition, `then`, a block, `else`, and a block. The node spans from the
/// keyword to the end of the last block's closing expression.
pub open spec fn conditional(tokens: Stream, i: int, start: Span) -> Parsed<Sp<ExprModel>>
    decreases tokens.len() - i, 20nat,
{
    match expr(tokens, i).forward(tokens, i) {
        Parsed::Found(cond, then_at) => then_branch(tokens, then_at, start, cond),
        Parsed::Failed(error, at) => Parsed::Failed(error, at),
        Parsed::Absent => Parsed::Absent,
    }
}

/// Reads a conditional from `then` on, behind the condition `cond`.
pub open spec fn then_branch(tokens: Stream, i: int, start: Span, cond: Sp<ExprModel>) -> Parsed<
    Sp<ExprModel>,
>
    decreases tokens.len() - i, 1nat,
{
    match expect_keyword(tokens, i, Keyword::Then) {
        Parsed::Found(_, block_at) => match block(tokens, block_at).forward(tokens, block_at) {
            Parsed::Found(if_true, else_at) => else_branch(tokens, else_at, start, cond, if_true),
            Parsed::Failed(error, at) => Parsed::Failed(error, at),
            Parsed::Absent => Parsed::Absent,
        },
        Parsed::Failed(error, at) => Parsed::Failed(error, at),
        Parsed::Absent => Parsed::Absent,
    }
}

/// Reads a conditional from `else` on, behind the condition `cond` and the
/// block `if_true`.
pub open spec fn else_branch(
    tokens: Stream,
    i: int,
    start: Span,
    cond: Sp<ExprModel>,
    if_true: BlockModel,
) -> Parsed<Sp<ExprModel>>
    decreases tokens.len() - i, 0nat,
{
    match expect_keyword(tokens, i, Keyword::Else) {
        Parsed::Found(_, block_at) => match block(tokens, block_at) {
            Parsed::Found(if_false, end) => Parsed::Found(
                Sp {
                    value: ExprModel::If {
                        cond: Box::new(cond),
                        if_true: Box::new(if_true),
                        if_false: Box::new(if_false),
                    },
                    span: start.merged(if_false.expr.span),
                },
                end,
            ),
            Parsed::Failed(error, at) => Parsed::Failed(error, at),
            Parsed::Absent => Parsed::Absent,
        },
        Parsed::Failed(error, at) => Parsed::Failed(error, at),
        Parsed::Absent => Parsed::Absent,
    }
}

/// Reads a term and the terms that follow it directly. With at least one
/// such argument the result is a call, else the term itself.
pub open spec fn try_call(tokens: Stream, i: int) -> Parsed<Sp<ExprModel>>
    decreases tokens.len() - i, 2nat,
{
    match try_term(tokens, i).forward(tokens, i) {
        Parsed::Found(func, next) => call_args(tokens, next, func, Seq::empty()),
        other => other,
    }
}

/// Reads the arguments of a call for as long as terms follow.
pub open spec fn call_args(
    tokens: Stream,
    i: int,
    func: Sp<ExprModel>,
    args: Seq<Sp<ExprModel>>,
) -> Parsed<Sp<ExprModel>>
    decreases tokens.len() - i, 1nat,
{
    match try_term(tokens, i).forward(tokens, i) {
        Parsed::Found(arg, next) => call_args(tokens, next, func, args.push(arg)),
        Parsed::Failed(error, at) => Parsed::Failed(error, at),
        Parsed::Absent => Parsed::Found(call_node(func, args), i),
    }
}

/// Reads an operand of `level`: an expression of the next tighter level, or
/// a call at the tightest.
pub open spec fn try_operand(tokens: Stream, level: Level, i: int) -> Parsed<Sp<ExprModel>>
    decreases tokens.len() - i, 3 + 2 * level.height(),
{
    match level.tighter() {
        Some(child) => try_bin_expr_def(tokens, child, i),
        None => try_call(tokens, i),
    }
}

/// Reads an expression of `level`: operands joined by the level's operators,
/// grouped to the left.
pub open spec fn try_bin_expr_def(tokens: Stream, level: Level, i: int) -> Parsed<Sp<ExprModel>>
    decreases tokens.len() - i, 4 + 2 * level.height(),
{
    match try_operand(tokens, level, i).forward(tokens, i) {
        Parsed::Found(left, next) => bin_tail(tokens, level, left, next),
        other => other,
    }
}

/// Reads the operators of `level` that follow `left`, each with its right
/// operand.
pub open spec fn bin_tail(tokens: Stream, level: Level, left: Sp<ExprModel>, i: int) -> Parsed<
    Sp<ExprModel>,
>
    decreases tokens.len() - i, 0nat,
{
    let after = next_index(tokens, i) + 1;
    match peek(tokens, i) {
        Some(next) => match level.operator(next.value) {
            Some(op) => match try_operand(tokens, level, after).required(
                tokens,
                after,
                Expectation::Expr,
            ).forward(tokens, after) {
                Parsed::Found(right, end) => bin_tail(
                    tokens,
                    level,
                    bin_node(left, Sp { value: op, span: next.span }, right),
                    end,
                ),
                Parsed::Failed(error, at) => Parsed::Failed(error, at),
                Parsed::Absent => Parsed::Absent,
            },
            None => Parsed::Found(left, i),
        },
        None => Parsed::Found(left, i),
    }
}

/// Reads a binary expression of the loosest level.
pub open spec fn try_bin_expr(tokens: Stream, i: int) -> Parsed<Sp<ExprModel>>
    decreases tokens.len() - i, 11nat,
{
    try_bin_expr_def(tokens, Level::Range, i)
}

/// Reads a binary expression and, if `and` follows, one more. A second
/// `and` is not read here.
pub open spec fn try_and_expr(tokens: Stream, i: int) -> Parsed<Sp<ExprModel>>
    decreases tokens.len() - i, 12nat,
{
    match try_bin_expr(tokens, i).forward(tokens, i) {
        Parsed::Found(left, next) => match exact(
            tokens,
            next,
            TokenModel::Keyword(Keyword::And),
        ) {
            Parsed::Found(op_span, after) => match try_bin_expr(tokens, after).required(
                tokens,
                after,
                Expectation::Expr,
            ) {
                Parsed::Found(right, end) => Parsed::Found(
                    logic_node(left, Sp { value: LogicOp::And, span: op_span }, right),
                    end,
                ),
                other => other,
            },
            _ => Parsed::Found(left, next),
        },
        other => other,
    }
}

/// Reads an `and` expression and, if `or` follows, one more. A second `or`
/// is not read here.
pub open spec fn try_or_expr(tokens: Stream, i: int) -> Parsed<Sp<ExprModel>>
    decreases tokens.len() - i, 13nat,
{
    match try_and_expr(tokens, i).forward(tokens, i) {
        Parsed::Found(left, next) => match exact(tokens, next, TokenModel::Keyword(Keyword::Or)) {
            Parsed::Found(op_span, after) => match try_and_expr(tokens, after).required(
                tokens,
                after,
                Expectation::Expr,
            ) {
                Parsed::Found(right, end) => Parsed::Found(
                    logic_node(left, Sp { value: LogicOp::Or, span: op_span }, right),
                    end,
                ),
                other => other,
            },
            _ => Parsed::Found(left, next),
        },
        other => other,
    }
}

/// Reads an expression if one starts here.
pub open spec fn try_expr(tokens: Stream, i: int) -> Parsed<Sp<ExprModel>>
    decreases tokens.len() - i, 14nat,
{
    try_or_expr(tokens, i)
}

/// Reads an expression, which must come next.
pub open spec fn expr(tokens: Stream, i: int) -> Parsed<Sp<ExprModel>>
    decreases tokens.len() - i, 15nat,
{
    try_expr(tokens, i).required(tokens, i, Expectation::Expr)
}

/// Reads `let`, a pattern, `=` and an expression, if `let` comes next.
pub open spec fn try_binding(tokens: Stream, i: int) -> Parsed<BindingModel>
    decreases tokens.len() - i, 17nat,
{
    match exact(tokens, i, TokenModel::Keyword(Keyword::Let)) {
        Parsed::Found(_, pattern_at) => match pattern(tokens, pattern_at).forward(
            tokens,
            pattern_at,
        ) {
            Parsed::Found(pattern, equal_at) => match expect_simple(
                tokens,
                equal_at,
                Simple::Equal,
            ) {
                Parsed::Found(_, expr_at) => match expr(tokens, expr_at) {
                    Parsed::Found(value, end) => Parsed::Found(
                        BindingModel { pattern, expr: value },
                        end,
                    ),
                    Parsed::Failed(error, at) => Parsed::Failed(error, at),
                    Parsed::Absent => Parsed::Absent,
                },
                Parsed::Failed(error, at) => Parsed::Failed(error, at),
                Parsed::Absent => Parsed::Absent,
            },
            Parsed::Failed(error, at) => Parsed::Failed(error, at),
            Parsed::Absent => Parsed::Absent,
        },
        _ => Parsed::Absent,
    }
}

/// Reads a block: bindings, each closed by `;`, and then the expression
/// that gives the block its value.
pub open spec fn block(tokens: Stream, i: int) -> Parsed<BlockModel>
    decreases tokens.len() - i, 19nat,
{
    block_rest(tokens, i, Seq::empty())
}

/// Reads the rest of a block behind the bindings `bindings`.
pub open spec fn block_rest(tokens: Stream, i: int, bindings: Seq<BindingModel>) -> Parsed<
    BlockModel,
>
    decreases tokens.len() - i, 18nat,
{
    match try_binding(tokens, i).forward(tokens, i) {
        Parsed::Found(binding, semi_at) => match expect_simple(
            tokens,
            semi_at,
            Simple::SemiColon,
        ) {
            Parsed::Found(_, next) => block_rest(tokens, next, bindings.push(binding)),
            Parsed::Failed(error, at) => Parsed::Failed(error, at),
            Parsed::Absent => Parsed::Absent,
        },
        Parsed::Failed(error, at) => Parsed::Failed(error, at),
        Parsed::Absent => match expr(tokens, i) {
            Parsed::Found(value, end) => Parsed::Found(BlockModel { bindings, expr: value }, end),
            Parsed::Failed(error, at) => Parsed::Failed(error, at),
            Parsed::Absent => Parsed::Absent,
        },
    }
}

/// Reads a conditional if `if` comes next.
pub open spec fn try_if(tokens: Stream, i: int) -> Parsed<Sp<ExprModel>> {
    match exact(tokens, i, TokenModel::Keyword(Keyword::If)) {
        Parsed::Found(start, after) => conditional(tokens, after, start),
        _ => Parsed::Absent,
    }
}

/// Joins the doc comments that stand in a row from position `i` on to
/// `doc`: the lines one behind the other, under the span of all of them.
/// Gives the documentation and the position behind the last line.
pub open spec fn doc_comment(tokens: Stream, i: int, doc: Option<Sp<Seq<char>>>) -> (
    Option<Sp<Seq<char>>>,
    int,
)
    decreases tokens.len() - i,
{
    match peek(tokens, i) {
        Some(next) => match next.value {
            TokenModel::DocComment(line) => doc_comment(
                tokens,
                next_index(tokens, i) + 1,
                Some(
                    match doc {
                        Some(above) => Sp {
                            value: above.value + line,
                            span: above.span.merged(next.span),
                        },
                        None => Sp { value: line, span: next.span },
                    },
                ),
            ),
            _ => (doc, i),
        },
        None => (doc, i),
    }
}

/// Reads the parameters of a function: identifiers for as long as they
/// follow. Gives them and the position behind the last.
pub open spec fn params(tokens: Stream, i: int, names: Seq<Sp<Seq<char>>>) -> (
    Seq<Sp<Seq<char>>>,
    int,
)
    decreases tokens.len() - i,
{
    match try_ident(tokens, i) {
        Parsed::Found(name, next) => params(tokens, next, names.push(name)),
        _ => (names, i),
    }
}

/// Reads a function definition if one starts here: doc comments, `fn`, the
/// name, the parameters, `:` and the body. Without `fn` behind the doc
/// comments there is no function definition here.
#[verifier::opaque]
pub open spec fn try_function_def(tokens: Stream, i: int) -> Parsed<FunctionDefModel> {
    let (doc, fn_at) = doc_comment(tokens, i, None);
    match exact(tokens, fn_at, TokenModel::Keyword(Keyword::Fn)) {
        Parsed::Found(_, name_at) => match ident(tokens, name_at) {
            Parsed::Found(name, params_at) => {
                let (names, colon_at) = params(tokens, params_at, Seq::empty());
                match expect_simple(tokens, colon_at, Simple::Colon) {
                    Parsed::Found(_, body_at) => match block(tokens, body_at) {
                        Parsed::Found(body, end) => Parsed::Found(
                            FunctionDefModel { doc, name, id: name.value, params: names, body },
                            end,
                        ),
                        Parsed::Failed(error, at) => Parsed::Failed(error, at),
                        Parsed::Absent => Parsed::Absent,
                    },
                    Parsed::Failed(error, at) => Parsed::Failed(error, at),
                    Parsed::Absent => Parsed::Absent,
                }
            },
            Parsed::Failed(error, at) => Parsed::Failed(error, at),
            Parsed::Absent => Parsed::Absent,
        },
        _ => Parsed::Absent,
    }
}

/// Closes an item that has been read up to position `i`: `;` must come next.
pub open spec fn close_item(tokens: Stream, i: int, item: ItemModel) -> Parsed<ItemModel> {
    match expect_simple(tokens, i, Simple::SemiColon) {
        Parsed::Found(_, end) => Parsed::Found(item, end),
        Parsed::Failed(error, at) => Parsed::Failed(error, at),
        Parsed::Absent => Parsed::Absent,
    }
}

/// The position behind the doc comments that come next.
pub open spec fn behind_docs(tokens: Stream, i: int) -> int {
    doc_comment(tokens, i, None).1
}

/// Reads an item if one starts here: a function definition, else a
/// binding, else an expression, and the `;` that closes it. Doc comments in
/// front of a binding or an expression document nothing and are passed over.
#[verifier::opaque]
pub open spec fn try_item(tokens: Stream, i: int) -> Parsed<ItemModel> {
    let at = behind_docs(tokens, i);
    match try_function_def(tokens, i) {
        Parsed::Found(def, next) => close_item(tokens, next, ItemModel::FunctionDef(def)),
        Parsed::Failed(error, at) => Parsed::Failed(error, at),
        Parsed::Absent => match try_binding(tokens, at) {
            Parsed::Found(binding, next) => close_item(tokens, next, ItemModel::Binding(binding)),
            Parsed::Failed(error, at) => Parsed::Failed(error, at),
            Parsed::Absent => match try_expr(tokens, at) {
                Parsed::Found(value, next) => close_item(tokens, next, ItemModel::Expr(value)),
                Parsed::Failed(error, at) => Parsed::Failed(error, at),
                Parsed::Absent => Parsed::Absent,
            },
        },
    }
}

/// Reads items from position `i` on until none starts, behind the items
/// `found` and the diagnostics `errors`. A diagnostic from inside an item is
/// recorded, and reading goes on from where it was noticed. Gives the items,
/// the diagnostics and the position at which no item started.
pub open spec fn items(
    tokens: Stream,
    i: int,
    found: Seq<ItemModel>,
    errors: Seq<Sp<ParseErrorModel>>,
) -> (Seq<ItemModel>, Seq<Sp<ParseErrorModel>>, int)
    decreases tokens.len() - i,
{
    match try_item(tokens, i) {
        Parsed::Found(item, next) => {
            proof {
                try_item_moves(tokens, i);
            }
            items(tokens, next, found.push(item), errors)
        },
        Parsed::Failed(error, at) => {
            proof {
                try_item_moves(tokens, i);
            }
            items(tokens, at, found, errors.push(error))
        },
        Parsed::Absent => (found, errors, i),
    }
}

/// Reads a whole input: its items, and the diagnostics in the order in
/// which they were met. Where tokens other than comments and doc comments
/// are left behind the last item, the last diagnostic asks for the end of the
/// input there.
pub open spec fn parse(tokens: Stream) -> (Seq<ItemModel>, Seq<Sp<ParseErrorModel>>) {
    let (found, errors, end) = items(tokens, 0, Seq::empty(), Seq::empty());
    let rest = behind_docs(tokens, end);
    if next_index(tokens, rest) == tokens.len() {
        (found, errors)
    } else {
        (found, errors.push(unexpected(tokens, rest, seq![Expectation::Eof])))
    }
}

} // verus!
