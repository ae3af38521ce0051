//! The syntax tree that the parser builds, and what each node stands for.

use crate::span::Sp;
use vstd::prelude::*;

verus! {

/// Binary operators, from the loosest to the tightest binding.
#[derive(Clone, Copy, Debug, PartialEq, Eq, Structural, Hash)]
pub enum BinOp {
    RangeEx,
    Eq,
    Ne,
    Lt,
    Le,
    Gt,
    Ge,
    Add,
    Sub,
    Mul,
    Div,
}

/// Short-circuit logical connectives.
#[derive(Clone, Copy, Debug, PartialEq, Eq, Structural, Hash)]
pub enum LogicOp {
    And,
    Or,
}

/// The target of a binding.
#[derive(Debug, PartialEq, Eq)]
pub enum Pattern {
    Ident(String),
    List(Vec<Sp<Pattern>>),
}

/// An expression.
#[derive(Debug, PartialEq, Eq)]
pub enum Expr {
    Ident(String),
    Int(String),
    Real(String),
    Bool(bool),
    Unit,
    Parened(Box<Sp<Expr>>),
    List(Vec<Sp<Expr>>),
    Call(Box<CallExpr>),
    Bin(Box<BinExpr>),
    Logic(Box<LogicExpr>),
    If(Box<IfExpr>),
}

/// A function applied to one or more arguments.
#[derive(Debug, PartialEq, Eq)]
pub struct CallExpr {
    pub func: Sp<Expr>,
    pub args: Vec<Sp<Expr>>,
}

/// Two operands joined by a binary operator.
#[derive(Debug, PartialEq, Eq)]
pub struct BinExpr {
    pub left: Sp<Expr>,
    pub op: Sp<BinOp>,
    pub right: Sp<Expr>,
}

/// Two operands joined by a logical connective.
#[derive(Debug, PartialEq, Eq)]
pub struct LogicExpr {
    pub op: Sp<LogicOp>,
    pub left: Sp<Expr>,
    pub right: Sp<Expr>,
}

/// A conditional with both of its branches.
#[derive(Debug, PartialEq, Eq)]
pub struct IfExpr {
    pub cond: Sp<Expr>,
    pub if_true: Block,
    pub if_false: Block,
}

/// Bindings followed by the expression that gives the block its value.
#[derive(Debug, PartialEq, Eq)]
pub struct Block {
    pub bindings: Vec<Binding>,
    pub expr: Sp<Expr>,
}

/// A pattern and the expression bound to it.
#[derive(Debug, PartialEq, Eq)]
pub struct Binding {
    pub pattern: Sp<Pattern>,
    pub expr: Sp<Expr>,
}

/// How a function is identified.
#[derive(Debug, PartialEq, Eq)]
pub enum FunctionId {
    Named(String),
}

/// Parameters and body of a function.
#[derive(Debug, PartialEq, Eq)]
pub struct Func {
    pub id: FunctionId,
    pub params: Vec<Sp<String>>,
    pub body: Block,
}

/// A function definition with its documentation.
#[derive(Debug, PartialEq, Eq)]
pub struct FunctionDef {
    pub doc: Option<Sp<String>>,
    pub name: Sp<String>,
    pub func: Func,
}

/// A top-level unit of a program.
#[derive(Debug, PartialEq, Eq)]
pub enum Item {
    FunctionDef(FunctionDef),
    Binding(Binding),
    Expr(Sp<Expr>),
}

/// What a [`Pattern`] stands for.
pub enum PatternModel {
    Ident(Seq<char>),
    List(Seq<Sp<PatternModel>>),
}

/// What an [`Expr`] stands for.
pub enum ExprModel {
    Ident(Seq<char>),
    Int(Seq<char>),
    Real(Seq<char>),
    Bool(bool),
    Unit,
    Parened(Box<Sp<ExprModel>>),
    List(Seq<Sp<ExprModel>>),
    Call { func: Box<Sp<ExprModel>>, args: Seq<Sp<ExprModel>> },
    Bin { left: Box<Sp<ExprModel>>, op: Sp<BinOp>, right: Box<Sp<ExprModel>> },
    Logic { connective: Sp<LogicOp>, left: Box<Sp<ExprModel>>, right: Box<Sp<ExprModel>> },
    If { cond: Box<Sp<ExprModel>>, if_true: Box<BlockModel>, if_false: Box<BlockModel> },
}

/// What a [`Block`] stands for.
pub struct BlockModel {
    pub bindings: Seq<BindingModel>,
    pub expr: Sp<ExprModel>,
}

/// What a [`Binding`] stands for.
pub struct BindingModel {
    pub pattern: Sp<PatternModel>,
    pub expr: Sp<ExprModel>,
}

/// What a [`FunctionDef`] stands for.
pub struct FunctionDefModel {
    pub doc: Option<Sp<Seq<char>>>,
    pub name: Sp<Seq<char>>,
    pub id: Seq<char>,
    pub params: Seq<Sp<Seq<char>>>,
    pub body: BlockModel,
}

/// What an [`Item`] stands for.
pub enum ItemModel {
    FunctionDef(FunctionDefModel),
    Binding(BindingModel),
    Expr(Sp<ExprModel>),
}

/// The model of a pattern.
pub open spec fn pattern_model(p: Pattern) -> PatternModel
    decreases p,
{
    match p {
        Pattern::Ident(name) => PatternModel::Ident(name@),
        Pattern::List(items) => PatternModel::List(pattern_models(items@)),
    }
}

/// The models of a sequence of patterns.
pub open spec fn pattern_models(items: Seq<Sp<Pattern>>) -> Seq<Sp<PatternModel>>
    decreases items,
{
    Seq::new(
        items.len(),
        |i: int|
            if 0 <= i < items.len() {
                Sp { value: pattern_model(items[i].value), span: items[i].span }
            } else {
                arbitrary()
            },
    )
}

/// The model of an expression.
pub open spec fn expr_model(e: Expr) -> ExprModel
    decreases e,
{
    match e {
        Expr::Ident(name) => ExprModel::Ident(name@),
        Expr::Int(digits) => ExprModel::Int(digits@),
        Expr::Real(digits) => ExprModel::Real(digits@),
        Expr::Bool(b) => ExprModel::Bool(b),
        Expr::Unit => ExprModel::Unit,
        Expr::Parened(inner) => ExprModel::Parened(Box::new(spanned_expr_model(*inner))),
        Expr::List(items) => ExprModel::List(expr_models(items@)),
        Expr::Call(call) => ExprModel::Call {
            func: Box::new(spanned_expr_model(call.func)),
            args: expr_models(call.args@),
        },
        Expr::Bin(bin) => ExprModel::Bin {
            left: Box::new(spanned_expr_model(bin.left)),
            op: bin.op,
            right: Box::new(spanned_expr_model(bin.right)),
        },
        Expr::Logic(logic) => ExprModel::Logic {
            connective: logic.op,
            left: Box::new(spanned_expr_model(logic.left)),
            right: Box::new(spanned_expr_model(logic.right)),
        },
        Expr::If(cond) => ExprModel::If {
            cond: Box::new(spanned_expr_model(cond.cond)),
            if_true: Box::new(block_model(cond.if_true)),
            if_false: Box::new(block_model(cond.if_false)),
        },
    }
}

/// The model of an expression with its span.
pub open spec fn spanned_expr_model(e: Sp<Expr>) -> Sp<ExprModel>
    decreases e,
{
    Sp { value: expr_model(e.value), span: e.span }
}

/// The models of a sequence of expressions.
pub open spec fn expr_models(items: Seq<Sp<Expr>>) -> Seq<Sp<ExprModel>>
    decreases items,
{
    Seq::new(
        items.len(),
        |i: int|
            if 0 <= i < items.len() {
                spanned_expr_model(items[i])
            } else {
                arbitrary()
            },
    )
}

/// The model of a binding.
pub open spec fn binding_model(b: Binding) -> BindingModel
    decreases b,
{
    BindingModel {
        pattern: Sp { value: pattern_model(b.pattern.value), span: b.pattern.span },
        expr: spanned_expr_model(b.expr),
    }
}

/// The models of a sequence of bindings.
pub open spec fn binding_models(items: Seq<Binding>) -> Seq<BindingModel>
    decreases items,
{
    Seq::new(
        items.len(),
        |i: int|
            if 0 <= i < items.len() {
                binding_model(items[i])
            } else {
                arbitrary()
            },
    )
}

/// The model of a block.
pub open spec fn block_model(b: Block) -> BlockModel
    decreases b,
{
    BlockModel { bindings: binding_models(b.bindings@), expr: spanned_expr_model(b.expr) }
}

/// The models of a sequence of items.
pub open spec fn item_models(items: Seq<Item>) -> Seq<ItemModel> {
    items.map_values(|item: Item| item@)
}

impl View for Pattern {
    type V = PatternModel;

    open spec fn view(&self) -> PatternModel {
        pattern_model(*self)
    }
}

impl View for Expr {
    type V = ExprModel;

    open spec fn view(&self) -> ExprModel {
        expr_model(*self)
    }
}

impl View for Binding {
    type V = BindingModel;

    open spec fn view(&self) -> BindingModel {
        binding_model(*self)
    }
}

impl View for Block {
    type V = BlockModel;

    open spec fn view(&self) -> BlockModel {
        block_model(*self)
    }
}

impl View for FunctionDef {
    type V = FunctionDefModel;

    open spec fn view(&self) -> FunctionDefModel {
        FunctionDefModel {
            doc: match self.doc {
                Some(doc) => Some(doc@),
                None => None,
            },
            name: self.name@,
            id: match self.func.id {
                FunctionId::Named(name) => name@,
            },
            params: self.func.params@.map_values(|p: Sp<String>| p@),
            body: self.func.body@,
        }
    }
}

impl View for Item {
    type V = ItemModel;

    open spec fn view(&self) -> ItemModel {
        match self {
            Item::FunctionDef(def) => ItemModel::FunctionDef(def@),
            Item::Binding(binding) => ItemModel::Binding(binding@),
            Item::Expr(expr) => ItemModel::Expr(expr@),
        }
    }
}

} // verus!
