//! A small in-process knowledge graph of subject–predicate–object statements,
//! with constrained queries, graph traversal, statistics and RDF-adjacent
//! text encodings, and the pure parts of the pipeline around it: reading the
//! answers of a text-generation service, choosing how documents are read,
//! and writing prompts and templates.
//!
//! The functions of the library carry contracts that Verus proves. Calls
//! into other crates stand behind declarations marked as trusted, each of
//! which says what is taken on trust. The library reads and writes no file
//! and talks to no service: it computes what is to be written or sent.
//!
//! Strings are spoken of by their characters. Numbers with a fraction are
//! carried as IEEE-754 bit patterns and never computed with.

pub mod config;
pub mod display;
pub mod extractor;
pub mod handlers;
pub mod json;
pub mod knowledge_graph;
pub mod llm_client;
pub mod serialization;
pub mod templates;
pub mod text;
pub mod text_map;
pub mod triple;
