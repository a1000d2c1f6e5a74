//! The engine of a language server that offers snippets, code actions and document
//! colors: positions in the three offset encodings, changes to documents, the
//! store of open documents with its caches, and what is decided around the run of
//! a command.
pub mod action;
pub mod action_inner;
pub mod colors;
pub mod encoding;
pub mod errors;
pub mod keyed;
pub mod loader;
pub mod lsp;
pub mod markdown;
pub mod parser;
pub mod rope;
pub mod snippet;
pub mod state;
pub mod strings;
pub mod text;
pub mod variables;
