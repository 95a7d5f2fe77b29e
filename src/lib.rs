//! Runtime pieces of a Yarn dialogue engine: the dialogue machine and the
//! runner that paces it for a host; the string table that assigns line
//! identifiers; the source rewriter that adds missing `#line:` tags and the
//! collector that builds string tables from source; translation-table
//! generation; variable storage; and the typed bridge that exposes host
//! functions to scripts.
pub mod text;
pub mod string_table;
pub mod strings_file;
pub mod localization;
pub mod yarn_fn;
pub mod line_tags;
pub mod line_collection;
pub mod dialogue;
pub mod dialogue_runner;
pub mod variable_storage;
