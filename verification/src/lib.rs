//! Front end and execution core of a small, dynamically typed,
//! indentation-sensitive scripting language: lexer, parser, scoped
//! environment and evaluator.

pub mod ast_struct;
pub mod attribute;
pub mod core_type;
pub mod data_type;
pub mod data_type_calc;
pub mod dispatch;
pub mod error;
pub mod expression;
pub mod function;
pub mod grammar;
pub mod namespace;
pub mod object;
pub mod parser;
pub mod pool;
pub mod run_commands;
pub mod scanner;
pub mod semantics;
pub mod table;
pub mod text;
pub mod token_iter;
