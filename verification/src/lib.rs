//! Middle tier of a compiler for a statically typed, effectful functional
//! language: the declaration registry for algebraic data types and type
//! aliases, and the phase-polymorphic expression/pattern/binding tree shared
//! by inference, type checking and lowering, together with the free-variable
//! analysis that closure conversion depends on.

pub mod data;
pub mod error;
pub mod hir;
pub mod lut;
pub mod syntax;

pub use data::{Alias, AliasId, Data, DataId, Datas, Lang};
pub use error::{Error, ErrorView};
pub use hir::{Binding, ConBinding, ConExpr, ConMeta, ConNode, Expr, InferBinding, InferExpr, InferMeta, InferNode, Intrinsic, Meta, NoClass, Node, Pat, TyBinding, TyExpr, TyMeta, TyNode};
pub use syntax::{Attr, Ident, Literal, Span, SrcNode};
