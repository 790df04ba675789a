pub mod code;
pub mod slice;
pub mod std_facts;
pub mod diag;
pub mod parse;
pub mod items;
pub mod ast;
pub mod lexer2;
