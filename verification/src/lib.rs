//! A tree-walking interpreter core for a small Lox-family scripting language:
//! scanner, recursive-descent parser, lexical environments and an evaluator
//! that is driven one transition at a time.
pub mod ast;
pub mod cli;
pub mod environment;
pub mod errors;
pub mod exit_laws;
pub mod expressions;
pub mod grammar;
pub mod home_laws;
pub mod interpreter;
pub mod lexis;
pub mod machine;
pub mod machine_laws;
pub mod native;
pub mod parser;
pub mod primitive;
pub mod lexis_laws;
pub mod scanner;
pub mod statements;
pub mod text;
pub mod token;
pub mod track_laws;
pub mod warnings;
