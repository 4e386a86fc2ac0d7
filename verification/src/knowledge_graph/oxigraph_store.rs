//! The full-fidelity backend: a graph database that answers SPARQL queries
//! of every form, with its answers brought to the shape that the store's own
//! query engine returns.
//!
//! The database is held in memory. Every statement goes into its default
//! graph; a subject that does not begin with `http` becomes a blank node, an
//! object that does not begin with `http` a plain literal.

use oxigraph::model::{BlankNode, GraphName, Literal, NamedNode, NamedOrBlankNode, Quad, Term};
use oxigraph::sparql::{QueryResults, SparqlEvaluator};
use vstd::prelude::*;

use crate::config::RdfSchema;
use crate::knowledge_graph::model::{views, Statements};
use crate::knowledge_graph::query::{row_views, ResultsView, SimpleSparqlResults, SolutionRow};
use crate::knowledge_graph::store::in_memory_path;
use crate::text::{join2, same_text, starts_with};
use crate::text_map::{upsert, Entries, TextMap};
use crate::triple::{RdfTriple, TripleView};

verus! {

// ---------------------------------------------------------------------------
// The database, as far as the library relies on it
// ---------------------------------------------------------------------------

#[verifier::external_type_specification]
#[verifier::external_body]
pub struct ExStore(oxigraph::store::Store);

#[verifier::external_type_specification]
#[verifier::external_body]
pub struct ExStorageError(oxigraph::store::StorageError);

#[verifier::external_type_specification]
#[verifier::external_body]
pub struct ExLoaderError(oxigraph::store::LoaderError);

#[verifier::external_type_specification]
#[verifier::external_body]
pub struct ExSerializerError(oxigraph::store::SerializerError);

#[verifier::external_type_specification]
#[verifier::external_body]
pub struct ExQueryEvaluationError(oxigraph::sparql::QueryEvaluationError);

#[verifier::external_type_specification]
#[verifier::external_body]
pub struct ExIriParseError(oxigraph::model::IriParseError);

#[verifier::external_type_specification]
#[verifier::external_body]
pub struct ExBlankNodeIdParseError(oxigraph::model::BlankNodeIdParseError);

/// The kinds of term.
pub enum TermKind {
    /// A named node: an IRI.
    Named,
    /// A blank node: an identifier.
    Blank,
    /// A literal: a lexical form with a datatype and, it may be, a language.
    Literal,
}

/// A term as the database holds it. `text` is the IRI of a named node, the
/// identifier of a blank node, or the lexical form of a literal; `datatype`
/// and `language` are empty for anything but a literal.
pub struct StoredTerm {
    pub kind: TermKind,
    pub text: Seq<char>,
    pub datatype: Seq<char>,
    pub language: Seq<char>,
}

/// A statement as the database holds it. `graph` is the name of its graph,
/// and `None` for the default graph.
pub struct StoredStatement {
    pub subject: StoredTerm,
    pub predicate: Seq<char>,
    pub object: StoredTerm,
    pub graph: Option<StoredTerm>,
}

/// The datatype of a plain literal.
pub open spec fn string_datatype() -> Seq<char> {
    "http://www.w3.org/2001/XMLSchema#string"@
}

/// The named node with the IRI `iri`.
pub open spec fn named(iri: Seq<char>) -> StoredTerm {
    StoredTerm { kind: TermKind::Named, text: iri, datatype: Seq::empty(), language: Seq::empty() }
}

/// The blank node with the identifier `id`.
pub open spec fn blank(id: Seq<char>) -> StoredTerm {
    StoredTerm { kind: TermKind::Blank, text: id, datatype: Seq::empty(), language: Seq::empty() }
}

/// The plain literal with the lexical form `value`.
pub open spec fn plain_literal(value: Seq<char>) -> StoredTerm {
    StoredTerm {
        kind: TermKind::Literal,
        text: value,
        datatype: string_datatype(),
        language: Seq::empty(),
    }
}

/// A statement of the default graph: its subject a named node or a blank
/// node, its object a named node or a plain literal.
pub open spec fn default_graph_statement(
    subject: Seq<char>,
    subject_is_named: bool,
    predicate: Seq<char>,
    object: Seq<char>,
    object_is_named: bool,
) -> StoredStatement {
    StoredStatement {
        subject: if subject_is_named {
            named(subject)
        } else {
            blank(subject)
        },
        predicate,
        object: if object_is_named {
            named(object)
        } else {
            plain_literal(object)
        },
        graph: None,
    }
}

/// The statements that a database holds.
pub uninterp spec fn stored(store: oxigraph::store::Store) -> Set<StoredStatement>;

/// Whether `s` is an IRI as `oxigraph::model::NamedNode::new` accepts it.
pub uninterp spec fn is_iri(s: Seq<char>) -> bool;

/// Whether `s` is a blank node identifier as
/// `oxigraph::model::BlankNode::new` accepts it.
pub uninterp spec fn is_blank_node_id(s: Seq<char>) -> bool;

/// An empty database in memory.
///
/// Trusted: wraps `oxigraph::store::Store::new`. The crate is built without
/// its storage on disk, so every database is held in memory, and making one
/// does not fail; a database that was just made holds nothing.
#[verifier::external_body]
fn new_store() -> (r: Result<oxigraph::store::Store, oxigraph::store::StorageError>)
    ensures
        r is Ok,
        stored(r->Ok_0) == Set::<StoredStatement>::empty(),
{
    oxigraph::store::Store::new()
}

/// Checks an IRI.
///
/// Trusted: wraps `oxigraph::model::NamedNode::new`, which succeeds exactly
/// on the strings that `is_iri` names.
#[verifier::external_body]
fn check_iri(s: &str) -> (r: Result<(), oxigraph::model::IriParseError>)
    ensures
        r is Ok <==> is_iri(s@),
{
    NamedNode::new(s).map(|_| ())
}

/// Checks a blank node identifier.
///
/// Trusted: wraps `oxigraph::model::BlankNode::new`, which succeeds exactly
/// on the strings that `is_blank_node_id` names.
#[verifier::external_body]
fn check_blank_node_id(s: &str) -> (r: Result<(), oxigraph::model::BlankNodeIdParseError>)
    ensures
        r is Ok <==> is_blank_node_id(s@),
{
    BlankNode::new(s).map(|_| ())
}

/// Puts a statement into the default graph of a database.
///
/// Trusted: wraps `oxigraph::store::Store::insert` on a quad built with the
/// unchecked constructors of `NamedNode` and `BlankNode`, with
/// `Literal::new_simple_literal` and `Quad::new`. On a database in memory,
/// the only kind there is in this build, the transaction that inserts
/// starts and commits without fail: the call succeeds, and the database
/// holds the statement besides what it held.
#[verifier::external_body]
fn insert_statement(
    store: &mut oxigraph::store::Store,
    subject: &str,
    subject_is_named: bool,
    predicate: &str,
    object: &str,
    object_is_named: bool,
) -> (r: Result<(), oxigraph::store::StorageError>)
    requires
        is_iri(predicate@),
        subject_is_named ==> is_iri(subject@),
        !subject_is_named ==> is_blank_node_id(subject@),
        object_is_named ==> is_iri(object@),
    ensures
        r is Ok,
        stored(*final(store)) == stored(*old(store)).insert(
            default_graph_statement(
                subject@,
                subject_is_named,
                predicate@,
                object@,
                object_is_named,
            ),
        ),
{
    let s = if subject_is_named {
        NamedOrBlankNode::from(NamedNode::new_unchecked(subject))
    } else {
        NamedOrBlankNode::from(BlankNode::new_unchecked(subject))
    };
    let o = if object_is_named {
        Term::from(NamedNode::new_unchecked(object))
    } else {
        Term::from(Literal::new_simple_literal(object))
    };
    store.insert(&Quad::new(s, NamedNode::new_unchecked(predicate), o, GraphName::DefaultGraph))
}

/// Counts the statements of a database.
///
/// Trusted: wraps `oxigraph::store::Store::len`, the number of quads in the
/// store of all its graphs. On a database in memory, the only kind there is
/// in this build, the count does not fail.
#[verifier::external_body]
fn count_statements(store: &oxigraph::store::Store) -> (r: Result<
    usize,
    oxigraph::store::StorageError,
>)
    ensures
        r is Ok,
        r->Ok_0 == stored(*store).len(),
{
    store.len()
}

/// Whether `data` is a document in N-Triples as the parser of the database
/// reads it: whether it reads `data` to the end without a fault.
pub uninterp spec fn is_ntriples(data: Seq<u8>) -> bool;

/// Reads N-Triples into a database.
///
/// Trusted: wraps `oxigraph::store::Store::load_from_slice` with
/// `RdfFormat::NTriples`. On a database in memory the call fails only where
/// the parser finds a fault, which depends on the bytes alone and is what
/// `is_ntriples` names. The call is atomic and only inserts: where it
/// fails, the database holds what it held; where it succeeds, it holds that
/// and what was read. The blank nodes of the data get new names at random,
/// so what was read is given no name.
#[verifier::external_body]
fn load_ntriples(store: &mut oxigraph::store::Store, data: &[u8]) -> (r: Result<
    (),
    oxigraph::store::LoaderError,
>)
    ensures
        r is Ok <==> is_ntriples(data@),
        r is Err ==> stored(*final(store)) == stored(*old(store)),
        r is Ok ==> stored(*old(store)).subset_of(stored(*final(store))),
{
    store.load_from_slice(oxigraph::io::RdfFormat::NTriples, data)
}

/// Writes the default graph of a database as N-Triples.
///
/// Trusted: wraps `oxigraph::store::Store::dump_graph_to_writer` with
/// `GraphNameRef::DefaultGraph` and `RdfFormat::NTriples` into a vector of
/// bytes. The order of the lines is the database's own; nothing is claimed
/// of the bytes.
#[verifier::external_body]
fn dump_ntriples(store: &oxigraph::store::Store) -> Result<
    Vec<u8>,
    oxigraph::store::SerializerError,
> {
    store.dump_graph_to_writer(
        oxigraph::model::GraphNameRef::DefaultGraph,
        oxigraph::io::RdfFormat::NTriples,
        Vec::new(),
    )
}

/// A value bound to a variable.
#[derive(Debug)]
pub enum BoundTerm {
    /// A named node, with its IRI.
    NamedNode(String),
    /// A blank node, with its identifier.
    BlankNode(String),
    /// A literal, with its lexical form; datatype and language are left out.
    Literal(String),
}

/// What a query evaluates to.
#[derive(Debug)]
pub enum QueryOutcome {
    /// The solutions of a `SELECT` query: for each, its bound variables in
    /// the order of the query.
    Solutions(Vec<Vec<(String, BoundTerm)>>),
    /// The answer of an `ASK` query.
    Boolean(bool),
    /// The graph of a `CONSTRUCT` or `DESCRIBE` query, which is not read.
    Graph,
}

/// Evaluates a SPARQL query on a database.
///
/// Trusted: wraps `oxigraph::sparql::SparqlEvaluator::parse_query`,
/// `on_store` and `execute`, and copies the solutions out: of each term the
/// string that `NamedNode::as_str`, `BlankNode::as_str` or `Literal::value`
/// gives. A query may ask for random numbers or the time, and the order of
/// its solutions is the database's own: nothing is claimed of the result.
#[verifier::external_body]
fn run_query(store: &oxigraph::store::Store, query: &str) -> Result<
    QueryOutcome,
    oxigraph::sparql::QueryEvaluationError,
> {
    match SparqlEvaluator::new().parse_query(query)?.on_store(store).execute()? {
        QueryResults::Solutions(solutions) => solutions.map(
            |s| Ok(s?.iter().map(|(v, t)| (v.as_str().to_string(), match t {
                Term::NamedNode(n) => BoundTerm::NamedNode(n.as_str().to_string()),
                Term::BlankNode(b) => BoundTerm::BlankNode(b.as_str().to_string()),
                Term::Literal(l) => BoundTerm::Literal(l.value().to_string()),
            })).collect()),
        ).collect::<Result<_, _>>().map(QueryOutcome::Solutions),
        QueryResults::Boolean(answer) => Ok(QueryOutcome::Boolean(answer)),
        QueryResults::Graph(_) => Ok(QueryOutcome::Graph),
    }
}

/// What a storage error says.
///
/// Trusted: wraps the `Display` of `oxigraph::store::StorageError`.
#[verifier::external_body]
fn describe_storage_error(error: &oxigraph::store::StorageError) -> String {
    error.to_string()
}

/// What a loader error says.
///
/// Trusted: wraps the `Display` of `oxigraph::store::LoaderError`.
#[verifier::external_body]
fn describe_loader_error(error: &oxigraph::store::LoaderError) -> String {
    error.to_string()
}

/// What a serializer error says.
///
/// Trusted: wraps the `Display` of `oxigraph::store::SerializerError`.
#[verifier::external_body]
fn describe_serializer_error(error: &oxigraph::store::SerializerError) -> String {
    error.to_string()
}

/// What a query error says.
///
/// Trusted: wraps the `Display` of `oxigraph::sparql::QueryEvaluationError`.
#[verifier::external_body]
fn describe_query_error(error: &oxigraph::sparql::QueryEvaluationError) -> String {
    error.to_string()
}

// ---------------------------------------------------------------------------
// The backend
// ---------------------------------------------------------------------------

/// Why an operation on the backend failed.
#[derive(Debug)]
pub enum OxigraphError {
    /// The storage path names a place on disk, and the backend holds its
    /// graph in memory only; the field is the path.
    PersistentStorage(String),
    /// The subject is neither an IRI nor a blank node identifier.
    InvalidSubject(String),
    /// The predicate is no IRI.
    InvalidPredicate(String),
    /// The object begins with `http` and is no IRI.
    InvalidObject(String),
    /// The database failed; the field is what it said.
    Storage(String),
    /// The query could not be read or evaluated; the field is what the
    /// database said.
    Query(String),
    /// The query returned a graph, which has no place in a result.
    UnsupportedResult,
    /// The N-Triples could not be read or written; the field is what the
    /// database said.
    Transfer(String),
}

impl OxigraphError {
    /// The error as a sentence.
    pub fn message(&self) -> (text: String)
        ensures
            text@ == match self {
                OxigraphError::PersistentStorage(path) => "The graph database is held in memory only and cannot be opened at: "@
                    + path@,
                OxigraphError::InvalidSubject(s) => "Invalid subject: "@ + s@,
                OxigraphError::InvalidPredicate(p) => "Invalid predicate: "@ + p@,
                OxigraphError::InvalidObject(o) => "Invalid object: "@ + o@,
                OxigraphError::Storage(detail) => "Storage failure: "@ + detail@,
                OxigraphError::Query(detail) => "Query failed: "@ + detail@,
                OxigraphError::UnsupportedResult => "Unsupported query result type"@,
                OxigraphError::Transfer(detail) => "N-Triples transfer failed: "@ + detail@,
            },
    {
        match self {
            OxigraphError::PersistentStorage(path) => join2(
                "The graph database is held in memory only and cannot be opened at: ",
                path.as_str(),
            ),
            OxigraphError::InvalidSubject(s) => join2("Invalid subject: ", s.as_str()),
            OxigraphError::InvalidPredicate(p) => join2("Invalid predicate: ", p.as_str()),
            OxigraphError::InvalidObject(o) => join2("Invalid object: ", o.as_str()),
            OxigraphError::Storage(detail) => join2("Storage failure: ", detail.as_str()),
            OxigraphError::Query(detail) => join2("Query failed: ", detail.as_str()),
            OxigraphError::UnsupportedResult => "Unsupported query result type".to_string(),
            OxigraphError::Transfer(detail) => join2("N-Triples transfer failed: ", detail.as_str()),
        }
    }
}

/// A graph database with the schema of its graph.
pub struct OxigraphKnowledgeGraph {
    store: oxigraph::store::Store,
    storage_path: String,
    schema: RdfSchema,
}

/// Whether a string names a node: it begins with `http`.
pub open spec fn names_a_node(s: Seq<char>) -> bool {
    "http"@.is_prefix_of(s)
}

/// The statement that the database holds for `t`.
pub open spec fn stored_form(t: TripleView) -> StoredStatement {
    default_graph_statement(
        t.subject,
        names_a_node(t.subject),
        t.predicate,
        t.object,
        names_a_node(t.object),
    )
}

/// What is wrong with `t`, if anything: its subject, then its predicate,
/// then its object.
pub open spec fn fault_of(t: TripleView) -> Option<int> {
    if names_a_node(t.subject) && !is_iri(t.subject) || !names_a_node(t.subject)
        && !is_blank_node_id(t.subject) {
        Some(0)
    } else if !is_iri(t.predicate) {
        Some(1)
    } else if names_a_node(t.object) && !is_iri(t.object) {
        Some(2)
    } else {
        None
    }
}

/// The string that a bound value is shown as: the IRI of a named node, the
/// identifier of a blank node, the lexical form of a literal.
pub open spec fn term_string(term: BoundTerm) -> Seq<char> {
    match term {
        BoundTerm::NamedNode(iri) => iri@,
        BoundTerm::BlankNode(id) => id@,
        BoundTerm::Literal(value) => value@,
    }
}

/// The row of a solution: each variable with the string of its value, in the
/// order of the solution.
pub open spec fn solution_row(bindings: Seq<(String, BoundTerm)>) -> Entries
    decreases bindings.len(),
{
    if bindings.len() == 0 {
        Seq::empty()
    } else {
        upsert(
            solution_row(bindings.drop_last()),
            bindings.last().0@,
            term_string(bindings.last().1),
        )
    }
}

/// The rows of solutions, in order.
pub open spec fn solution_rows(solutions: Seq<Vec<(String, BoundTerm)>>) -> Seq<Entries> {
    Seq::new(solutions.len(), |i: int| solution_row(solutions[i]@))
}

/// The result that an outcome stands for; a graph stands for none.
pub open spec fn result_of(outcome: QueryOutcome) -> Option<ResultsView> {
    match outcome {
        QueryOutcome::Solutions(solutions) => Some(
            ResultsView::Solutions(solution_rows(solutions@)),
        ),
        QueryOutcome::Boolean(answer) => Some(ResultsView::Boolean(answer)),
        QueryOutcome::Graph => None,
    }
}

/// Writes the string of a bound value.
pub fn term_text(term: &BoundTerm) -> (text: String)
    ensures
        text@ == term_string(*term),
{
    match term {
        BoundTerm::NamedNode(iri) => iri.clone(),
        BoundTerm::BlankNode(id) => id.clone(),
        BoundTerm::Literal(value) => value.clone(),
    }
}

/// Brings the outcome of a query to the shape of a result. Every bound
/// value becomes a string, whatever it is.
pub fn results_from(outcome: &QueryOutcome) -> (r: Result<SimpleSparqlResults, OxigraphError>)
    ensures
        match result_of(*outcome) {
            Some(results) => r is Ok && r->Ok_0@ == results,
            None => r is Err && r->Err_0 is UnsupportedResult,
        },
{
    match outcome {
        QueryOutcome::Solutions(solutions) => {
            let mut rows: Vec<SolutionRow> = Vec::new();
            let mut i: usize = 0;
            while i < solutions.len()
                invariant
                    i <= solutions.len(),
                    rows.len() == i,
                    forall|k: int| 0 <= k < i ==> (#[trigger] rows@[k])@ == solution_row(solutions@[k]@),
                decreases solutions.len() - i,
            {
                let bindings = &solutions[i];
                let mut row = TextMap::new();
                let mut k: usize = 0;
                assert(bindings@.take(0) =~= Seq::<(String, BoundTerm)>::empty());
                while k < bindings.len()
                    invariant
                        k <= bindings.len(),
                        row@ == solution_row(bindings@.take(k as int)),
                    decreases bindings.len() - k,
                {
                    proof {
                        let next = bindings@.take(k + 1);
                        assert(next.drop_last() == bindings@.take(k as int));
                        assert(next.last() == bindings@[k as int]);
                    }
                    row.insert(bindings[k].0.clone(), term_text(&bindings[k].1));
                    k += 1;
                }
                assert(bindings@.take(bindings@.len() as int) == bindings@);
                rows.push(row);
                i += 1;
            }
            assert(row_views(rows@) =~= solution_rows(solutions@));
            Ok(SimpleSparqlResults::Solutions(rows))
        },
        QueryOutcome::Boolean(answer) => Ok(SimpleSparqlResults::Boolean(*answer)),
        QueryOutcome::Graph => Err(OxigraphError::UnsupportedResult),
    }
}

/// What becomes of the answer of the database to a query. A failure comes
/// back with what the database said. A truth value comes back as it is. Of
/// solutions there is one row for each, in their order, and a row binds the
/// variables of its solution, in their order, each to the string of its
/// value. A graph has no place in a result and is refused.
pub fn query_outcome(
    evaluated: Result<QueryOutcome, oxigraph::sparql::QueryEvaluationError>,
) -> (r: Result<SimpleSparqlResults, OxigraphError>)
    ensures
        evaluated is Err ==> r is Err && r->Err_0 is Query,
        evaluated is Ok ==> match result_of(evaluated->Ok_0) {
            Some(results) => r is Ok && r->Ok_0@ == results,
            None => r is Err && r->Err_0 is UnsupportedResult,
        },
{
    match evaluated {
        Ok(outcome) => results_from(&outcome),
        Err(e) => Err(OxigraphError::Query(describe_query_error(&e))),
    }
}

/// What becomes of the answer of the database to a load: success as it is,
/// and a failure with what the database said.
pub fn load_outcome(loaded: Result<(), oxigraph::store::LoaderError>) -> (r: Result<
    (),
    OxigraphError,
>)
    ensures
        loaded is Ok <==> r is Ok,
        r is Err ==> r->Err_0 is Transfer,
{
    match loaded {
        Ok(()) => Ok(()),
        Err(e) => Err(OxigraphError::Transfer(describe_loader_error(&e))),
    }
}

/// What becomes of the answer of the database to a dump: the bytes, where
/// it wrote them, and a failure with what the database said.
pub fn export_outcome(dumped: Result<Vec<u8>, oxigraph::store::SerializerError>) -> (r: Result<
    Vec<u8>,
    OxigraphError,
>)
    ensures
        dumped is Ok ==> r == Ok::<Vec<u8>, OxigraphError>(dumped->Ok_0),
        dumped is Err ==> r is Err && r->Err_0 is Transfer,
{
    match dumped {
        Ok(bytes) => Ok(bytes),
        Err(e) => Err(OxigraphError::Transfer(describe_serializer_error(&e))),
    }
}

impl OxigraphKnowledgeGraph {
    /// The statements that the database holds.
    pub closed spec fn statements(&self) -> Set<StoredStatement> {
        stored(self.store)
    }

    /// The storage path that the backend was made with.
    pub closed spec fn path_of(&self) -> Seq<char> {
        self.storage_path@
    }

    /// A backend for the storage path `:memory:`, with an empty database. Any
    /// other path is refused.
    pub fn new(storage_path: String, schema: RdfSchema) -> (r: Result<Self, OxigraphError>)
        ensures
            r is Ok <==> storage_path@ == in_memory_path(),
            r is Err ==> r->Err_0 is PersistentStorage && r->Err_0->PersistentStorage_0@
                == storage_path@,
            r is Ok ==> r->Ok_0.statements() == Set::<StoredStatement>::empty()
                && r->Ok_0.path_of() == storage_path@,
    {
        if !same_text(storage_path.as_str(), ":memory:") {
            return Err(OxigraphError::PersistentStorage(storage_path));
        }
        match new_store() {
            Ok(store) => Ok(OxigraphKnowledgeGraph { store, storage_path, schema }),
            Err(e) => Err(OxigraphError::Storage(describe_storage_error(&e))),
        }
    }

    /// Puts one statement into the database. A statement whose subject,
    /// predicate or object the database cannot hold is refused, and the
    /// database stays as it is. Every other statement is put in.
    pub fn add_triple(&mut self, triple: &RdfTriple) -> (r: Result<(), OxigraphError>)
        ensures
            final(self).path_of() == old(self).path_of(),
            r is Ok <==> fault_of(triple@) is None,
            match r {
                Ok(()) => fault_of(triple@) is None && final(self).statements() == old(
                    self,
                ).statements().insert(stored_form(triple@)),
                Err(OxigraphError::InvalidSubject(s)) => fault_of(triple@) == Some(0int) && s@
                    == triple@.subject && final(self).statements() == old(self).statements(),
                Err(OxigraphError::InvalidPredicate(p)) => fault_of(triple@) == Some(1int) && p@
                    == triple@.predicate && final(self).statements() == old(self).statements(),
                Err(OxigraphError::InvalidObject(o)) => fault_of(triple@) == Some(2int) && o@
                    == triple@.object && final(self).statements() == old(self).statements(),
                Err(_) => false,
            },
    {
        let subject_is_named = starts_with(triple.subject.as_str(), "http");
        let object_is_named = starts_with(triple.object.as_str(), "http");
        if subject_is_named {
            if check_iri(triple.subject.as_str()).is_err() {
                return Err(OxigraphError::InvalidSubject(triple.subject.clone()));
            }
        } else {
            if check_blank_node_id(triple.subject.as_str()).is_err() {
                return Err(OxigraphError::InvalidSubject(triple.subject.clone()));
            }
        }
        if check_iri(triple.predicate.as_str()).is_err() {
            return Err(OxigraphError::InvalidPredicate(triple.predicate.clone()));
        }
        if object_is_named {
            if check_iri(triple.object.as_str()).is_err() {
                return Err(OxigraphError::InvalidObject(triple.object.clone()));
            }
        }
        match insert_statement(
            &mut self.store,
            triple.subject.as_str(),
            subject_is_named,
            triple.predicate.as_str(),
            triple.object.as_str(),
            object_is_named,
        ) {
            Ok(()) => Ok(()),
            Err(e) => Err(OxigraphError::Storage(describe_storage_error(&e))),
        }
    }

    /// Puts statements into the database, in order, and stops at the first
    /// that the database cannot hold. Where there is none, all are put in,
    /// and the number returned is the number given. Where a statement is
    /// refused, the statements before it are in the database and no other,
    /// and the error is the one of that statement.
    pub fn add_triples(&mut self, triples: &[RdfTriple]) -> (r: Result<usize, OxigraphError>)
        ensures
            final(self).path_of() == old(self).path_of(),
            r is Ok <==> forall|i: int|
                0 <= i < triples@.len() ==> fault_of(#[trigger] views(triples@)[i]) is None,
            r is Ok ==> r->Ok_0 == triples@.len() && final(self).statements() == with_all(
                old(self).statements(),
                views(triples@),
            ),
            r is Err ==> exists|k: int|
                0 <= k < triples@.len() && refused_at(views(triples@), k) && refusal_of(
                    views(triples@)[k],
                    r->Err_0,
                ) && final(self).statements() == with_all(
                    old(self).statements(),
                    views(triples@).take(k),
                ),
    {
        let ghost start = self.statements();
        let ghost s = views(triples@);
        let mut count: usize = 0;
        assert(s.take(0) =~= Statements::empty());
        while count < triples.len()
            invariant
                count <= triples.len(),
                s == views(triples@),
                self.path_of() == old(self).path_of(),
                self.statements() == with_all(start, s.take(count as int)),
                start == old(self).statements(),
                forall|i: int| 0 <= i < count ==> fault_of(#[trigger] s[i]) is None,
            decreases triples.len() - count,
        {
            proof {
                let next = s.take(count + 1);
                assert(next.drop_last() == s.take(count as int));
                assert(next.last() == triples@[count as int]@);
            }
            match self.add_triple(&triples[count]) {
                Ok(()) => {},
                Err(e) => {
                    assert(refused_at(s, count as int));
                    assert(refusal_of(s[count as int], e));
                    return Err(e);
                },
            }
            count += 1;
        }
        assert(s.take(triples@.len() as int) == s);
        Ok(count)
    }

    /// Evaluates a SPARQL query of any form on the statements of the
    /// database and brings its answer to the shape of a result, as
    /// `query_outcome` says.
    pub fn execute_sparql(&self, query: &str) -> (r: Result<SimpleSparqlResults, OxigraphError>)
        ensures
            r is Err ==> r->Err_0 is Query || r->Err_0 is UnsupportedResult,
    {
        query_outcome(run_query(&self.store, query))
    }

    /// Reads statements in N-Triples into the database. The load succeeds
    /// exactly where the data is a document in N-Triples, and it is all or
    /// nothing: where it fails, the database holds what it held; where it
    /// succeeds, it holds that and the statements read.
    pub fn load_from_ntriples(&mut self, data: &[u8]) -> (r: Result<(), OxigraphError>)
        ensures
            final(self).path_of() == old(self).path_of(),
            r is Ok <==> is_ntriples(data@),
            r is Err ==> r->Err_0 is Transfer && final(self).statements() == old(
                self,
            ).statements(),
            r is Ok ==> old(self).statements().subset_of(final(self).statements()),
    {
        load_outcome(load_ntriples(&mut self.store, data))
    }

    /// Writes the statements of the database as N-Triples, as
    /// `export_outcome` says.
    pub fn export_to_ntriples(&self) -> (r: Result<Vec<u8>, OxigraphError>)
        ensures
            r is Err ==> r->Err_0 is Transfer,
    {
        export_outcome(dump_ntriples(&self.store))
    }

    /// The number of statements in the database.
    pub fn count_triples(&self) -> (r: Result<usize, OxigraphError>)
        ensures
            r is Ok,
            r->Ok_0 == self.statements().len(),
    {
        match count_statements(&self.store) {
            Ok(n) => Ok(n),
            Err(e) => Err(OxigraphError::Storage(describe_storage_error(&e))),
        }
    }
}

/// `error` is the refusal of the statement `t`: it names the part of `t`
/// that is at fault, and holds it.
pub open spec fn refusal_of(t: TripleView, error: OxigraphError) -> bool {
    match error {
        OxigraphError::InvalidSubject(s) => fault_of(t) == Some(0int) && s@ == t.subject,
        OxigraphError::InvalidPredicate(p) => fault_of(t) == Some(1int) && p@ == t.predicate,
        OxigraphError::InvalidObject(o) => fault_of(t) == Some(2int) && o@ == t.object,
        _ => false,
    }
}

/// The statement at index `k` of `batch` is the first that the database
/// cannot hold.
pub open spec fn refused_at(batch: Statements, k: int) -> bool {
    &&& 0 <= k < batch.len()
    &&& fault_of(batch[k]) is Some
    &&& forall|i: int| 0 <= i < k ==> fault_of(#[trigger] batch[i]) is None
}

/// The statements of a database after every statement of `batch` was put
/// in.
pub open spec fn with_all(start: Set<StoredStatement>, batch: Statements) -> Set<StoredStatement>
    decreases batch.len(),
{
    if batch.len() == 0 {
        start
    } else {
        with_all(start, batch.drop_last()).insert(stored_form(batch.last()))
    }
}

} // verus!
