pub mod chars;
pub mod ir_parser;
pub mod lexer;
pub mod parse_input;
