pub mod ast;
pub mod text;
pub mod c_codegen;
pub mod codegen;
pub mod error;
pub mod lexer;
pub mod name_map;
pub mod parser;
pub mod parser_spec;
pub mod symbol_table;
pub mod module;
pub mod type_checker;
pub mod lsp_core;
pub mod hover;
pub mod lsp_handlers;
pub mod properties;
