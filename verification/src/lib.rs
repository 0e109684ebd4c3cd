//! Core of the Monkey scripting language: a lexer, a Pratt expression
//! parser, and a tree-walking evaluator with lexically scoped first-class
//! functions.
//!
//! Source text flows linearly through the pipeline: the [`lexer::Lexer`]
//! turns characters into [`token::Token`]s, the [`parser::Parser`] builds a
//! [`ast::Program`], and [`evaluator::evaluate_program`] reduces that
//! program to an [`object::Object`] against an [`object::Environment`].
//! Each stage carries a mathematical model: the lexer is proved equal to a
//! functional tokenizer over `Seq<char>`, printing is proved equal to a
//! recursive rendering function over AST views, and the evaluator is proved
//! equal to a clocked big-step interpreter over those same views.

pub mod ast;
pub mod evaluator;
pub mod lexer;
pub mod object;
pub mod parser;
pub mod strutil;
pub mod token;
