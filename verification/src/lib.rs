//! A preprocessor from Markdown to Markdown.
//!
//! A document may hold directives: `!include(...)`, which stands for the
//! text of another file, and `!codesnippet(...)`, which stands for lines of
//! a file in a fenced code block. This library resolves them: it finds the
//! directives that do not stand in code, reads their parameters, fills the
//! placeholders of included texts, follows includes into the included text
//! up to a bounded depth, and keeps a record of each directive that it
//! worked on. Before that it can check the fences of the document, and
//! repair those that name no language.
//!
//! The library reads and writes no files. The texts of the files that a
//! resolution may need are handed to it as `sources::Sources`, and what is
//! to be written is handed back.
//!
//! Every function is verified against a contract. The contracts speak of
//! texts as sequences of characters. What a regular expression finds in a
//! text, and what the parts of a path are, is the work of the `regex` crate
//! and of `std::path`: the contracts name these results and do not say what
//! they are.

pub mod action;
pub mod app;
pub mod cli;
pub mod cli_messages;
pub mod decimal;
pub mod directive;
pub mod error;
pub mod event;
pub mod fence;
pub mod file_handler;
pub mod include_resolver;
pub mod laws;
pub mod lines;
pub mod offsets;
pub mod paths;
pub mod pattern;
pub mod processor;
pub mod snippet;
pub mod sources;
pub mod text;
pub mod types;
pub mod variables;
