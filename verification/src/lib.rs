//! The jim compiler's front end as a verified library: lexing, parsing,
//! type helpers, code-generation helpers and in-memory module loading.

pub mod ast;
pub mod text;
pub mod token;
pub mod chars;
pub mod errors;
pub mod lexer_spec;
pub mod lexer;
pub mod loader;
pub mod sema;
pub mod parser_spec;
pub mod parser;
pub mod codegen_names;
pub mod flow;
pub mod codegen_spec;
pub mod codegen;
pub mod opt;
pub mod rewrite_spec;
pub mod rewrite;
pub mod reach_spec;
pub mod reach;
pub mod generate_spec;
pub mod generate;
pub mod typing;
pub mod copy;
pub mod subst;
pub mod scan;
pub mod calls;
pub mod headers;
pub mod stmt_rules;
pub mod leaves;
pub mod generic_calls;
pub mod lowering_spec;
pub mod lowering;
pub mod body_spec;
pub mod body;
pub mod members;
pub mod shape;
pub mod check;
pub mod declare_spec;
pub mod declare;
pub mod fits;
pub mod driver;
pub mod runtime_filter;

pub use crate::driver::compile_to_c;
pub use crate::loader::{Loader, MapLoader};
