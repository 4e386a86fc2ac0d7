use rdf_knowledge_extractor::config::RdfSchema;
use rdf_knowledge_extractor::knowledge_graph::oxigraph_store::{
    export_outcome, load_outcome, query_outcome, results_from, term_text, BoundTerm,
    OxigraphError, OxigraphKnowledgeGraph, QueryOutcome,
};
use rdf_knowledge_extractor::knowledge_graph::SimpleSparqlResults;
use rdf_knowledge_extractor::text_map::TextMap;
use rdf_knowledge_extractor::triple::RdfTriple;

fn schema() -> RdfSchema {
    RdfSchema {
        namespace: "http://ex.org/onto#".to_string(),
        prefix: "ex".to_string(),
        base_uri: "http://ex.org/r/".to_string(),
        predicates: TextMap::new(),
        classes: TextMap::new(),
        custom_vocabularies: TextMap::new(),
    }
}

fn triple(s: &str, p: &str, o: &str) -> RdfTriple {
    RdfTriple::new(s.to_string(), p.to_string(), o.to_string())
}

fn backend() -> OxigraphKnowledgeGraph {
    OxigraphKnowledgeGraph::new(":memory:".to_string(), schema()).unwrap()
}

fn rows(results: SimpleSparqlResults) -> Vec<Vec<(String, String)>> {
    match results {
        SimpleSparqlResults::Solutions(rows) => rows.iter().map(|r| r.to_pairs()).collect(),
        SimpleSparqlResults::Boolean(_) => panic!("expected rows"),
    }
}

#[test]
fn the_backend_lives_in_memory() {
    assert_eq!(backend().count_triples().unwrap(), 0);
    match OxigraphKnowledgeGraph::new("kg.db".to_string(), schema()) {
        Err(OxigraphError::PersistentStorage(path)) => assert_eq!(path, "kg.db"),
        _ => panic!("expected a refusal"),
    }
}

#[test]
fn the_backend_holds_each_statement_once() {
    let mut kg = backend();
    let batch = vec![
        triple("http://ex.org/r/1", "http://ex.org/onto#hasName", "Acme"),
        triple("http://ex.org/r/1", "http://ex.org/onto#hasName", "Acme"),
        triple("b1", "http://ex.org/onto#knows", "http://ex.org/r/1"),
    ];
    assert_eq!(kg.add_triples(&batch).unwrap(), 3);
    assert_eq!(kg.count_triples().unwrap(), 2);
    kg.add_triple(&triple("http://ex.org/r/2", "http://ex.org/onto#hasName", "Bolt")).unwrap();
    assert_eq!(kg.count_triples().unwrap(), 3);
}

#[test]
fn the_backend_refuses_what_it_cannot_hold() {
    let mut kg = backend();
    let bad_subject = triple("not a node", "http://ex.org/onto#p", "x");
    assert!(matches!(kg.add_triple(&bad_subject), Err(OxigraphError::InvalidSubject(s)) if s == "not a node"));
    let bad_named_subject = triple("http://ex.org/a b", "http://ex.org/onto#p", "x");
    assert!(matches!(kg.add_triple(&bad_named_subject), Err(OxigraphError::InvalidSubject(_))));
    let bad_predicate = triple("http://ex.org/r/1", "hasName", "x");
    assert!(matches!(kg.add_triple(&bad_predicate), Err(OxigraphError::InvalidPredicate(p)) if p == "hasName"));
    let bad_object = triple("http://ex.org/r/1", "http://ex.org/onto#p", "http://ex.org/a b");
    assert!(matches!(kg.add_triple(&bad_object), Err(OxigraphError::InvalidObject(_))));
    assert_eq!(kg.count_triples().unwrap(), 0);
    let batch = vec![triple("http://ex.org/r/1", "http://ex.org/onto#p", "x"), bad_predicate];
    assert!(kg.add_triples(&batch).is_err());
    assert_eq!(kg.count_triples().unwrap(), 1);
}

#[test]
fn the_backend_answers_every_form_of_query() {
    let mut kg = backend();
    kg.add_triples(&[
        triple("http://ex.org/r/1", "http://ex.org/onto#hasName", "Acme"),
        triple("http://ex.org/r/2", "http://ex.org/onto#hasName", "Bolt"),
        triple("http://ex.org/r/2", "http://ex.org/onto#partner", "http://ex.org/r/1"),
    ])
    .unwrap();
    let found = rows(
        kg.execute_sparql(
            "PREFIX ex: <http://ex.org/onto#> SELECT ?name ?partner WHERE { ?s ex:hasName ?name . OPTIONAL { ?s ex:partner ?partner } } ORDER BY ?name",
        )
        .unwrap(),
    );
    assert_eq!(
        found,
        vec![
            vec![("name".to_string(), "Acme".to_string())],
            vec![
                ("name".to_string(), "Bolt".to_string()),
                ("partner".to_string(), "http://ex.org/r/1".to_string()),
            ],
        ]
    );
    assert!(matches!(
        kg.execute_sparql("ASK { <http://ex.org/r/1> ?p \"Acme\" }").unwrap(),
        SimpleSparqlResults::Boolean(true)
    ));
    assert!(matches!(
        kg.execute_sparql("ASK { <http://ex.org/r/1> ?p \"Nobody\" }").unwrap(),
        SimpleSparqlResults::Boolean(false)
    ));
    assert!(matches!(
        kg.execute_sparql("CONSTRUCT { ?s ?p ?o } WHERE { ?s ?p ?o }"),
        Err(OxigraphError::UnsupportedResult)
    ));
    assert!(matches!(kg.execute_sparql("SELECT WHERE"), Err(OxigraphError::Query(_))));
}

#[test]
fn the_backend_reads_what_it_writes() {
    let mut kg = backend();
    kg.add_triples(&[
        triple("http://ex.org/r/1", "http://ex.org/onto#hasName", "Acme \"A\""),
        triple("http://ex.org/r/2", "http://ex.org/onto#partner", "http://ex.org/r/1"),
    ])
    .unwrap();
    let bytes = kg.export_to_ntriples().unwrap();
    let text = String::from_utf8(bytes.clone()).unwrap();
    assert_eq!(text.lines().count(), 2);
    assert!(text.contains("<http://ex.org/r/1> <http://ex.org/onto#hasName> \"Acme \\\"A\\\"\" ."));
    let mut other = backend();
    other.load_from_ntriples(&bytes).unwrap();
    assert_eq!(other.count_triples().unwrap(), 2);
    assert!(matches!(other.load_from_ntriples(b"not n-triples"), Err(OxigraphError::Transfer(_))));
}

#[test]
fn a_failed_load_leaves_the_backend_as_it_was() {
    let mut kg = backend();
    kg.add_triple(&triple("http://ex.org/r/1", "http://ex.org/onto#hasName", "Acme")).unwrap();
    let half = b"<http://ex.org/r/2> <http://ex.org/onto#hasName> \"Bolt\" .\nnot n-triples\n";
    assert!(matches!(kg.load_from_ntriples(half), Err(OxigraphError::Transfer(_))));
    assert_eq!(kg.count_triples().unwrap(), 1);
    let whole = b"<http://ex.org/r/2> <http://ex.org/onto#hasName> \"Bolt\" .\n";
    kg.load_from_ntriples(whole).unwrap();
    assert_eq!(kg.count_triples().unwrap(), 2);
    kg.load_from_ntriples(whole).unwrap();
    assert_eq!(kg.count_triples().unwrap(), 2);
    let found = rows(kg.execute_sparql("SELECT ?n WHERE { ?s ?p ?n } ORDER BY ?n").unwrap());
    assert_eq!(
        found,
        vec![vec![("n".to_string(), "Acme".to_string())], vec![("n".to_string(), "Bolt".to_string())]]
    );
}

#[test]
fn the_answer_of_the_database_to_a_query_is_brought_to_shape() {
    let outcome = QueryOutcome::Solutions(vec![
        vec![
            ("s".to_string(), BoundTerm::NamedNode("http://a".to_string())),
            ("o".to_string(), BoundTerm::Literal("x".to_string())),
        ],
        vec![],
        vec![
            ("b".to_string(), BoundTerm::BlankNode("b7".to_string())),
            ("n".to_string(), BoundTerm::Literal("42".to_string())),
        ],
    ]);
    assert_eq!(
        rows(query_outcome(Ok(outcome)).unwrap()),
        vec![
            vec![("s".to_string(), "http://a".to_string()), ("o".to_string(), "x".to_string())],
            vec![],
            vec![("b".to_string(), "b7".to_string()), ("n".to_string(), "42".to_string())],
        ]
    );
    assert!(matches!(query_outcome(Ok(QueryOutcome::Boolean(true))), Ok(SimpleSparqlResults::Boolean(true))));
    assert!(matches!(query_outcome(Ok(QueryOutcome::Boolean(false))), Ok(SimpleSparqlResults::Boolean(false))));
    assert!(matches!(query_outcome(Ok(QueryOutcome::Graph)), Err(OxigraphError::UnsupportedResult)));
    let refused = oxigraph::sparql::SparqlEvaluator::new().parse_query("SELECT WHERE").err().unwrap();
    assert!(matches!(query_outcome(Err(refused.into())), Err(OxigraphError::Query(_))));
}

#[test]
fn every_kind_of_term_is_copied_out_of_the_database() {
    let mut kg = backend();
    kg.add_triples(&[
        triple("b7", "http://ex.org/onto#knows", "http://ex.org/r/1"),
        triple("http://ex.org/r/1", "http://ex.org/onto#hasName", "Acme"),
    ])
    .unwrap();
    let found = rows(
        kg.execute_sparql("SELECT ?s ?o (42 AS ?n) WHERE { ?s ?p ?o } ORDER BY ?o").unwrap(),
    );
    assert_eq!(found.len(), 2);
    assert_eq!(
        found[0],
        vec![
            ("s".to_string(), "b7".to_string()),
            ("o".to_string(), "http://ex.org/r/1".to_string()),
            ("n".to_string(), "42".to_string()),
        ]
    );
    assert_eq!(
        found[1],
        vec![
            ("s".to_string(), "http://ex.org/r/1".to_string()),
            ("o".to_string(), "Acme".to_string()),
            ("n".to_string(), "42".to_string()),
        ]
    );
}

#[test]
fn the_answers_of_the_database_to_a_load_and_a_dump_come_back() {
    assert!(load_outcome(Ok(())).is_ok());
    let store = oxigraph::store::Store::new().unwrap();
    let refused = store.load_from_slice(oxigraph::io::RdfFormat::NTriples, "not n-triples").unwrap_err();
    let said = refused.to_string();
    assert!(matches!(load_outcome(Err(refused)), Err(OxigraphError::Transfer(detail)) if detail == said));
    assert_eq!(export_outcome(Ok(vec![60, 62])).unwrap(), vec![60, 62]);
    assert_eq!(export_outcome(Ok(vec![])).unwrap(), Vec::<u8>::new());
}

#[test]
fn every_failure_of_the_backend_has_a_message() {
    let refused = OxigraphKnowledgeGraph::new("kg.db".to_string(), schema()).err().unwrap();
    assert_eq!(
        refused.message(),
        "The graph database is held in memory only and cannot be opened at: kg.db"
    );
    assert_eq!(OxigraphError::InvalidSubject("a b".to_string()).message(), "Invalid subject: a b");
    assert_eq!(OxigraphError::InvalidPredicate("p".to_string()).message(), "Invalid predicate: p");
    assert_eq!(OxigraphError::InvalidObject("o".to_string()).message(), "Invalid object: o");
    assert_eq!(OxigraphError::Storage("full".to_string()).message(), "Storage failure: full");
    assert_eq!(OxigraphError::Query("syntax".to_string()).message(), "Query failed: syntax");
    assert_eq!(OxigraphError::UnsupportedResult.message(), "Unsupported query result type");
    assert_eq!(
        OxigraphError::Transfer("line 1".to_string()).message(),
        "N-Triples transfer failed: line 1"
    );
}

#[test]
fn every_bound_value_becomes_a_string() {
    assert_eq!(term_text(&BoundTerm::NamedNode("http://a".to_string())), "http://a");
    assert_eq!(term_text(&BoundTerm::BlankNode("b0".to_string())), "b0");
    assert_eq!(term_text(&BoundTerm::Literal("42".to_string())), "42");
    let outcome = QueryOutcome::Solutions(vec![
        vec![
            ("s".to_string(), BoundTerm::NamedNode("http://a".to_string())),
            ("o".to_string(), BoundTerm::Literal("x".to_string())),
        ],
        vec![],
    ]);
    assert_eq!(
        rows(results_from(&outcome).unwrap()),
        vec![vec![("s".to_string(), "http://a".to_string()), ("o".to_string(), "x".to_string())], vec![]]
    );
    assert!(matches!(results_from(&QueryOutcome::Boolean(true)), Ok(SimpleSparqlResults::Boolean(true))));
    assert!(matches!(results_from(&QueryOutcome::Graph), Err(OxigraphError::UnsupportedResult)));
}
