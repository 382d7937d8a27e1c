use vstd::prelude::*;

verus! {

/// A source region. `from_expansion` is set on code that a macro expansion
/// or another code generator produced.
#[derive(Clone, Copy, Debug, PartialEq, Eq, Structural)]
pub struct Span {
    pub lo: u32,
    pub hi: u32,
    pub from_expansion: bool,
}

#[derive(Clone, Copy, Debug, PartialEq, Eq, Structural)]
pub enum UnOp {
    Not,
    Neg,
    Deref,
}

#[derive(Clone, Copy, Debug, PartialEq, Eq, Structural)]
pub enum BinOp {
    Add,
    Sub,
    Mul,
    Div,
    Rem,
    And,
    Or,
    BitXor,
    BitAnd,
    BitOr,
    Shl,
    Shr,
    Eq,
    Lt,
    Le,
    Ne,
    Ge,
    Gt,
}

/// Where a `match` came from: written by the user, or produced by lowering
/// another construct.
#[derive(Clone, Copy, Debug, PartialEq, Eq, Structural)]
pub enum MatchSource {
    Normal,
    IfLetDesugar,
    WhileLetDesugar,
    ForLoopDesugar,
}

/// An expression node. Identifiers, paths and types are interned symbols
/// (`u64`); `id` identifies the node within its tree.
#[derive(Debug)]
pub struct Expr {
    pub id: u64,
    pub span: Span,
    pub kind: ExprKind,
}

#[derive(Debug)]
pub enum ExprKind {
    /// A literal, by its value.
    Lit(u64),
    /// A path naming a local, a constant or an item.
    Path(u64),
    Unary(UnOp, Box<Expr>),
    Binary(BinOp, Box<Expr>, Box<Expr>),
    /// A call of a callee expression on arguments.
    Call(Box<Expr>, Vec<Expr>),
    /// A method call by method name; the receiver is the first argument.
    MethodCall(u64, Vec<Expr>),
    Field(Box<Expr>, u64),
    Tuple(Vec<Expr>),
    /// Condition, then-block, optional else-branch.
    If(Box<Expr>, Box<Block>, Option<Box<Expr>>),
    Block(Box<Block>),
    Match(Box<Expr>, Vec<Arm>, MatchSource),
    /// Any node kind that the comparison does not look into.
    Other,
}

/// A block: statements, then an optional trailing expression.
#[derive(Debug)]
pub struct Block {
    pub stmts: Vec<Stmt>,
    pub expr: Option<Box<Expr>>,
    pub span: Span,
}

#[derive(Debug)]
pub enum Stmt {
    /// `let pat = init;`
    Let(Pat, Option<Expr>),
    /// An expression in statement position without a semicolon.
    Expr(Expr),
    /// An expression followed by a semicolon.
    Semi(Expr),
    /// A nested item declaration.
    Item,
}

/// A match arm: its alternative patterns and its body.
#[derive(Debug)]
pub struct Arm {
    pub pats: Vec<Pat>,
    pub body: Expr,
}

#[derive(Debug)]
pub enum Pat {
    Wild,
    /// A binding: its name, its resolved type (`None` where the type could
    /// not be resolved) and an optional `name @ sub` sub-pattern.
    Ident(u64, Option<u64>, Option<Box<Pat>>),
    /// A struct pattern: path, field names, the pattern of each field, and
    /// whether a `..` rest is present.
    Struct(u64, Vec<u64>, Vec<Pat>, bool),
    /// A tuple-struct pattern; `None` stands for `Path(..)`.
    TupleStruct(u64, Option<Vec<Pat>>),
    Path(u64),
    Tuple(Vec<Pat>),
    Box(Box<Pat>),
    Ref(Box<Pat>),
    Lit(u64),
    Range(u64, u64),
    /// A slice pattern: elements before, an optional middle rest, elements after.
    Slice(Vec<Pat>, Option<Box<Pat>>, Vec<Pat>),
}

} // verus!
