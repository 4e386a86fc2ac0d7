//! The knowledge graph: an append-only store of statements with constrained
//! queries, graph navigation, statistics and export, and a graph database
//! as a second backend for queries of every form.

pub mod export;
pub mod laws;
pub mod model;
pub mod navigate;
pub mod oxigraph_store;
pub mod query;
pub mod stats;
pub mod store;
pub mod traversal;

pub use export::{ExportFormat, FileExport};
pub use model::{absorb, distinct, has_key, views, Statements};
pub use navigate::EntityProperties;
pub use oxigraph_store::OxigraphKnowledgeGraph;
pub use query::{QueryShape, ResultsView, SimpleSparqlResults, SolutionRow};
pub use stats::KnowledgeGraphStats;
pub use store::{KnowledgeGraph, KnowledgeGraphConfig, KnowledgeGraphError};
