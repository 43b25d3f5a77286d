pub mod ast;
pub mod clause_laws;
pub mod ddl_laws;
pub mod elements;
pub mod expressions;
pub mod floats;
pub mod grammar;
pub mod grammar_laws;
pub mod lexer;
pub mod lexer_laws;
pub mod messages;
pub mod parser;
pub mod queries;
pub mod session_laws;
pub mod sql_text;
pub mod statements;
pub mod token;
pub mod token_laws;
pub mod word_laws;
