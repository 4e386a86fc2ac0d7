//! The store itself: creation, the batched insert that removes duplicates,
//! and what a caller needs in order to persist it.

use vstd::prelude::*;

use crate::config::RdfSchema;
use crate::knowledge_graph::model::{
    absorb, distinct, has_key, lemma_absorb_distinct, lemma_absorb_extends, lemma_absorb_push,
    views, Statements,
};
use crate::text::{join2, same_text};
use crate::text_map::TextMap;
use crate::triple::RdfTriple;

verus! {

/// The storage path that stands for "keep the graph in memory only".
pub open spec fn in_memory_path() -> Seq<char> {
    ":memory:"@
}

/// Where a graph lives and which namespaces it knows.
#[derive(Debug)]
pub struct KnowledgeGraphConfig {
    pub storage_path: String,
    pub namespaces: TextMap,
    pub default_graph: Option<String>,
}

impl Default for KnowledgeGraphConfig {
    fn default() -> (config: Self)
        ensures
            config.storage_path@ == "knowledge_graph.db"@,
            config.namespaces@.len() == 0,
            config.default_graph is None,
    {
        KnowledgeGraphConfig {
            storage_path: "knowledge_graph.db".to_string(),
            namespaces: TextMap::new(),
            default_graph: None,
        }
    }
}

/// Why an operation on a graph failed.
#[derive(Debug)]
pub enum KnowledgeGraphError {
    /// The snapshot could not be read or written; `path` names the file.
    Io { path: String, detail: String },
    /// The snapshot is not a well-formed array of statement records.
    Parse(String),
    /// The named export format is not one that the export knows.
    UnsupportedFormat(String),
    /// The query is not a `SELECT` query; the field is the query.
    UnsupportedQuery(String),
    /// The named entity or type is unknown.
    Lookup(String),
}

impl KnowledgeGraphError {
    /// The error as a sentence.
    pub fn message(&self) -> (text: String)
        ensures
            text@ == match self {
                KnowledgeGraphError::Io { path, detail } => "I/O failure on "@ + path@ + ": "@
                    + detail@,
                KnowledgeGraphError::Parse(detail) => "Failed to parse knowledge graph JSON: "@
                    + detail@,
                KnowledgeGraphError::UnsupportedFormat(name) => "Unsupported export format: "@
                    + name@ + ". Supported: turtle, ntriples, json"@,
                KnowledgeGraphError::UnsupportedQuery(_) => "Only SELECT queries are supported in this simplified implementation"@,
                KnowledgeGraphError::Lookup(name) => "Unknown entity or type: "@ + name@,
            },
    {
        match self {
            KnowledgeGraphError::Io { path, detail } => {
                let mut out = join2("I/O failure on ", path.as_str());
                out.append(": ");
                out.append(detail.as_str());
                out
            },
            KnowledgeGraphError::Parse(detail) => join2(
                "Failed to parse knowledge graph JSON: ",
                detail.as_str(),
            ),
            KnowledgeGraphError::UnsupportedFormat(name) => {
                let mut out = join2("Unsupported export format: ", name.as_str());
                out.append(". Supported: turtle, ntriples, json");
                out
            },
            KnowledgeGraphError::UnsupportedQuery(_) => "Only SELECT queries are supported in this simplified implementation".to_string(),
            KnowledgeGraphError::Lookup(name) => join2("Unknown entity or type: ", name.as_str()),
        }
    }
}

/// An append-only store of statements. No two of its statements have the
/// same subject, predicate and object.
pub struct KnowledgeGraph {
    triples: Vec<RdfTriple>,
    config: KnowledgeGraphConfig,
    schema: RdfSchema,
}

impl View for KnowledgeGraph {
    type V = Statements;

    closed spec fn view(&self) -> Statements {
        views(self.triples@)
    }
}

/// Whether `records` holds a statement with the identity of `candidate`.
pub(crate) fn holds_key(records: &Vec<RdfTriple>, candidate: &RdfTriple) -> (found: bool)
    ensures
        found == has_key(views(records@), candidate@.key()),
{
    let mut i: usize = 0;
    while i < records.len()
        invariant
            i <= records.len(),
            forall|k: int| 0 <= k < i ==> (#[trigger] views(records@)[k]).key() != candidate@.key(),
        decreases records.len() - i,
    {
        if records[i].same_key(candidate) {
            assert(views(records@)[i as int].key() == candidate@.key());
            return true;
        }
        i += 1;
    }
    false
}

/// Offers the candidates of `batch` to `records` in order and returns how
/// many were appended.
pub(crate) fn absorb_into(records: &mut Vec<RdfTriple>, batch: &[RdfTriple]) -> (added: usize)
    ensures
        views(final(records)@) == absorb(views(old(records)@), views(batch@)),
        added == final(records)@.len() - old(records)@.len(),
{
    let mut added: usize = 0;
    let mut i: usize = 0;
    assert(views(batch@).take(0) =~= Statements::empty());
    while i < batch.len()
        invariant
            i <= batch.len(),
            views(records@) == absorb(views(old(records)@), views(batch@).take(i as int)),
            added == records@.len() - old(records)@.len(),
            added <= i,
        decreases batch.len() - i,
    {
        let ghost before = views(records@);
        proof {
            lemma_absorb_push(views(old(records)@), views(batch@).take(i as int), batch@[i as int]@);
            assert(views(batch@).take(i + 1) =~= views(batch@).take(i as int).push(batch@[i as int]@));
        }
        if !holds_key(records, &batch[i]) {
            records.push(batch[i].clone());
            added += 1;
            assert(views(records@) =~= before.push(batch@[i as int]@));
        }
        i += 1;
    }
    assert(views(batch@).take(batch@.len() as int) == views(batch@));
    added
}

impl KnowledgeGraph {
    #[verifier::type_invariant]
    spec fn no_statement_twice(self) -> bool {
        distinct(self@)
    }

    /// The configuration that the graph was created with.
    pub closed spec fn config_of(&self) -> KnowledgeGraphConfig {
        self.config
    }

    /// The schema that the graph was created with.
    pub closed spec fn schema_of(&self) -> RdfSchema {
        self.schema
    }

    /// A graph that holds the statements of `snapshot`, the content of the
    /// file that `config` names, or no statement where there is no such file.
    /// Statements whose identity occurs earlier in the snapshot are left out,
    /// so a snapshot that the store wrote comes back as it was.
    pub fn new(config: KnowledgeGraphConfig, schema: RdfSchema, snapshot: Vec<RdfTriple>) -> (r:
        Result<Self, KnowledgeGraphError>)
        ensures
            r is Ok,
            r->Ok_0@ == absorb(Statements::empty(), views(snapshot@)),
            distinct(r->Ok_0@),
            r->Ok_0.config_of() == config,
            r->Ok_0.schema_of() == schema,
    {
        let mut triples: Vec<RdfTriple> = Vec::new();
        assert(views(triples@) =~= Statements::empty());
        absorb_into(&mut triples, snapshot.as_slice());
        proof {
            lemma_absorb_distinct(Statements::empty(), views(snapshot@));
        }
        Ok(KnowledgeGraph { triples, config, schema })
    }

    /// An empty graph that is never persisted.
    pub fn in_memory(schema: RdfSchema) -> (r: Result<Self, KnowledgeGraphError>)
        ensures
            r is Ok,
            r->Ok_0@ == Statements::empty(),
            r->Ok_0.config_of().storage_path@ == in_memory_path(),
            r->Ok_0.config_of().namespaces@.len() == 0,
            r->Ok_0.config_of().default_graph is None,
            r->Ok_0.schema_of() == schema,
    {
        let config = KnowledgeGraphConfig {
            storage_path: ":memory:".to_string(),
            namespaces: TextMap::new(),
            default_graph: None,
        };
        let triples: Vec<RdfTriple> = Vec::new();
        assert(views(triples@) =~= Statements::empty());
        Ok(KnowledgeGraph { triples, config, schema })
    }

    /// Offers each candidate to the store, in order. A candidate is appended
    /// unless a statement with the same subject, predicate and object is
    /// already there; of two such statements the first stays as it is.
    /// Returns the number of statements appended.
    pub fn add_triples(&mut self, triples: &[RdfTriple]) -> (r: Result<usize, KnowledgeGraphError>)
        ensures
            r is Ok,
            final(self)@ == absorb(old(self)@, views(triples@)),
            r->Ok_0 == final(self)@.len() - old(self)@.len(),
            old(self)@.is_prefix_of(final(self)@),
            distinct(final(self)@),
            final(self).config_of() == old(self).config_of(),
            final(self).schema_of() == old(self).schema_of(),
    {
        proof {
            use_type_invariant(&*self);
            lemma_absorb_distinct(self@, views(triples@));
            lemma_absorb_extends(self@, views(triples@));
        }
        let mut records: Vec<RdfTriple> = Vec::new();
        std::mem::swap(&mut self.triples, &mut records);
        let added = absorb_into(&mut records, triples);
        std::mem::swap(&mut self.triples, &mut records);
        Ok(added)
    }

    /// The statements of the store, oldest first.
    pub fn triples(&self) -> (records: &Vec<RdfTriple>)
        ensures
            views(records@) == self@,
            distinct(self@),
    {
        proof {
            use_type_invariant(self);
        }
        &self.triples
    }

    /// The number of statements.
    pub fn len(&self) -> (n: usize)
        ensures
            n == self@.len(),
    {
        self.triples.len()
    }

    /// The configuration of the graph.
    pub fn config(&self) -> (config: &KnowledgeGraphConfig)
        ensures
            *config == self.config_of(),
    {
        &self.config
    }

    /// The schema of the graph.
    pub fn schema(&self) -> (schema: &RdfSchema)
        ensures
            *schema == self.schema_of(),
    {
        &self.schema
    }

    /// Whether the store is to be written to its storage path after each
    /// insert: it is, unless that path is `:memory:`.
    pub fn is_persistent(&self) -> (b: bool)
        ensures
            b == (self.config_of().storage_path@ != in_memory_path()),
    {
        !same_text(self.config.storage_path.as_str(), ":memory:")
    }
}

} // verus!
