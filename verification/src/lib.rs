//! Vinyl: a visual novel engine core with a script parser, compiler and story machine.
pub mod asset;
pub mod cli;
pub mod ast;
pub mod compile;
pub mod diagnostics;
pub mod expression;
pub mod ir;
pub mod lexer;
pub mod localize;
pub mod manifest;
pub mod parse_laws;
pub mod parser;
pub mod player;
pub mod presentation;
pub mod project;
pub mod runtime;
pub mod save;
pub mod scene_sync;
pub mod story;
pub mod strmap;
pub mod syntax;
pub mod text;
pub mod timing;
pub mod validate;
pub mod vm;
