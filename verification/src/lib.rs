//! A compiler front end for the comma-separated wire-specification language
//! used to declare protocol message layouts, together with a backend-agnostic
//! code-generation engine.
//!
//! The pipeline is: [`scanner::Scanner`] turns source text into tokens,
//! [`parser::Parser`] builds a [`symbol::SymbolTable`] of message, TLV-record
//! and subtype declarations, and [`codegen`] walks that table in a fixed,
//! layout-preserving order, dispatching to the emission hooks of a target
//! backend.

pub mod ast;
pub mod ast_msg;
pub mod codegen;
pub mod error;
pub mod parser;
pub mod scanner;
pub mod symbol;
pub mod text;
pub mod token;
