pub mod ast;
pub mod diagnostic;
pub mod diagnostic_builder;
pub mod diagnostic_consumer;
pub mod diagnostic_engine;
pub mod lexer;
pub mod lexical;
pub mod parser;
pub mod source_file;
pub mod source_location;
pub mod source_manager;
pub mod source_range;
pub mod text;
pub mod token;
