pub mod ast;
pub mod bindings;
pub mod copies;
pub mod search;
pub mod spanless_eq;
pub mod spanless_hash;
pub mod spanless_proofs;

pub use ast::{Arm, BinOp, Block, Expr, ExprKind, MatchSource, Pat, Span, Stmt, UnOp};
pub use copies::{CopyAndPaste, Finding, Lint};
