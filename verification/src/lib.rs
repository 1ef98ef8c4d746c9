//! An interpreter core for petal, a small dynamically evaluated expression
//! language: the abstract syntax tree the outside parser delivers, the
//! tagged runtime value with its width-fitted numerics and pairwise
//! coercion, the lexical scope chain with object-as-scope member access,
//! the built-in and intrinsic dispatch tables, the fuel-bounded tree-walking
//! evaluator, and the decision core of the promise scheduler. Every
//! operation's behaviour is pinned by a mathematical model; the evaluator
//! itself is proved step for step against a big-step semantics.

pub mod ast;
pub mod builtins;
pub mod errors;
pub mod eval;
pub mod intrinsics;
pub mod num;
pub mod op;
pub mod repl;
pub mod scope;
pub mod span;
pub mod tasks;
pub mod text;
pub mod value;
