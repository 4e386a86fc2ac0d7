use rdf_knowledge_extractor::config::RdfSchema;
use rdf_knowledge_extractor::knowledge_graph::{
    KnowledgeGraph, KnowledgeGraphConfig, KnowledgeGraphError, KnowledgeGraphStats,
    SimpleSparqlResults,
};
use rdf_knowledge_extractor::serialization::Encoded;
use rdf_knowledge_extractor::text_map::TextMap;
use rdf_knowledge_extractor::triple::{RdfTriple, FULL_CONFIDENCE};

fn schema() -> RdfSchema {
    RdfSchema {
        namespace: "http://ex.org/onto#".to_string(),
        prefix: "ex".to_string(),
        base_uri: "http://ex.org/r/".to_string(),
        predicates: TextMap::new(),
        classes: TextMap::new(),
        custom_vocabularies: TextMap::new(),
    }
}

fn triple(s: &str, p: &str, o: &str) -> RdfTriple {
    RdfTriple::new(s.to_string(), p.to_string(), o.to_string())
}

fn graph(triples: &[RdfTriple]) -> KnowledgeGraph {
    let mut kg = KnowledgeGraph::in_memory(schema()).unwrap();
    kg.add_triples(triples).unwrap();
    kg
}

fn rows(results: SimpleSparqlResults) -> Vec<Vec<(String, String)>> {
    match results {
        SimpleSparqlResults::Solutions(rows) => rows.iter().map(|r| r.to_pairs()).collect(),
        SimpleSparqlResults::Boolean(_) => panic!("expected rows"),
    }
}

fn pair(k: &str, v: &str) -> (String, String) {
    (k.to_string(), v.to_string())
}

#[test]
fn adding_a_batch_twice_adds_nothing_the_second_time() {
    let batch = vec![
        triple("http://ex.org/r/1", "http://ex.org/onto#hasName", "Acme"),
        triple("http://ex.org/r/2", "http://ex.org/onto#hasName", "Bolt"),
        triple("http://ex.org/r/2", "http://ex.org/onto#hasRole", "Supplier"),
    ];
    let mut kg = KnowledgeGraph::in_memory(schema()).unwrap();
    assert_eq!(kg.add_triples(&batch).unwrap(), 3);
    assert_eq!(kg.add_triples(&batch).unwrap(), 0);
    assert_eq!(kg.len(), batch.len());
}

#[test]
fn duplicates_collapse_and_the_first_is_kept() {
    let first = triple("http://ex.org/r/1", "http://ex.org/onto#hasName", "Acme")
        .with_confidence(0.25f32.to_bits())
        .with_source("first.pdf".to_string());
    let second = triple("http://ex.org/r/1", "http://ex.org/onto#hasName", "Acme")
        .with_confidence(0.75f32.to_bits())
        .with_source("second.pdf".to_string());
    let mut kg = KnowledgeGraph::in_memory(schema()).unwrap();
    assert_eq!(kg.add_triples(&[first]).unwrap(), 1);
    assert_eq!(kg.add_triples(&[second]).unwrap(), 0);
    let stored = kg.triples();
    assert_eq!(stored.len(), 1);
    assert_eq!(f32::from_bits(stored[0].confidence_bits), 0.25);
    assert_eq!(stored[0].source.as_deref(), Some("first.pdf"));
}

#[test]
fn a_new_triple_has_full_confidence() {
    let t = triple("http://ex.org/r/1", "http://ex.org/onto#hasName", "Acme");
    assert_eq!(t.confidence_bits, FULL_CONFIDENCE);
    assert_eq!(f32::from_bits(t.confidence_bits), 1.0);
    assert!(t.source.is_none());
    assert!(t.metadata.is_empty());
}

#[test]
fn type_lookup_resolves_the_name_in_the_namespace() {
    let kg = graph(&[triple(
        "http://ex.org/r/1",
        "http://ex.org/onto#rdfType",
        "http://ex.org/onto#Person",
    )]);
    assert_eq!(kg.get_entities_by_type("Person").unwrap(), vec!["http://ex.org/r/1".to_string()]);
    assert_eq!(
        kg.get_entities_by_type("http://ex.org/onto#Person").unwrap(),
        vec!["http://ex.org/r/1".to_string()]
    );
    assert!(kg.get_entities_by_type("Company").unwrap().is_empty());
}

#[test]
fn type_lookup_matches_any_predicate_that_contains_type() {
    let kg = graph(&[
        triple("http://ex.org/r/1", "http://ex.org/onto#subtypeOf", "http://ex.org/onto#Person"),
        triple("http://ex.org/r/2", "http://ex.org/onto#kind", "http://ex.org/onto#Person"),
        triple("http://ex.org/r/3", "http://ex.org/onto#type", "http://ex.org/onto#Company"),
        triple("http://ex.org/r/4", "http://ex.org/onto#type", "Person"),
        triple("http://ex.org/r/1", "http://ex.org/onto#type", "http://ex.org/onto#Person"),
    ]);
    assert_eq!(
        kg.get_entities_by_type("Person").unwrap(),
        vec!["http://ex.org/r/1".to_string(), "http://ex.org/r/1".to_string()]
    );
    assert_eq!(kg.get_entities_by_type("httpPerson").unwrap(), Vec::<String>::new());
}

#[test]
fn type_lookup_matches_type_in_any_case() {
    let kg = graph(&[
        triple("http://ex.org/r/1", "http://ex.org/onto#rdfType", "http://ex.org/onto#Person"),
        triple("http://ex.org/r/2", "http://ex.org/onto#rdftype", "http://ex.org/onto#Person"),
        triple("http://ex.org/r/3", "http://ex.org/onto#hasNameType", "http://ex.org/onto#Person"),
        triple("http://ex.org/r/4", "http://ex.org/onto#TYPE", "http://ex.org/onto#Person"),
        triple("http://ex.org/r/5", "http://ex.org/onto#typ", "http://ex.org/onto#Person"),
        triple("http://ex.org/r/6", "http://www.w3.org/1999/02/22-rdf-syntax-ns#type", "http://ex.org/onto#person"),
    ]);
    assert_eq!(
        kg.get_entities_by_type("Person").unwrap(),
        vec![
            "http://ex.org/r/1".to_string(),
            "http://ex.org/r/2".to_string(),
            "http://ex.org/r/3".to_string(),
            "http://ex.org/r/4".to_string(),
        ]
    );
}

#[test]
fn traversal_is_bounded_by_depth() {
    let a = "http://ex.org/r/A";
    let b = "http://ex.org/r/B";
    let kg = graph(&[triple(a, "http://ex.org/onto#knows", b)]);
    assert_eq!(kg.find_related_entities(a, 1).unwrap(), vec![b.to_string()]);
    assert!(kg.find_related_entities(a, 0).unwrap().is_empty());
    assert_eq!(kg.find_related_entities(b, 1).unwrap(), vec![a.to_string()]);
}

#[test]
fn traversal_is_breadth_first() {
    let a = "http://ex.org/r/A";
    let b = "http://ex.org/r/B";
    let c = "http://ex.org/r/C";
    let d = "http://ex.org/r/D";
    let e = "http://ex.org/r/E";
    let p = "http://ex.org/onto#knows";
    let kg = graph(&[
        triple(a, p, b),
        triple(a, p, c),
        triple(b, p, d),
        triple(c, p, e),
        triple(a, "http://ex.org/onto#hasName", "Alice"),
    ]);
    assert_eq!(kg.find_related_entities(a, 1).unwrap(), vec![b.to_string(), c.to_string()]);
    assert_eq!(
        kg.find_related_entities(a, 2).unwrap(),
        vec![b.to_string(), c.to_string(), d.to_string(), e.to_string()]
    );
    assert_eq!(
        kg.find_related_entities(a, 5).unwrap(),
        vec![b.to_string(), c.to_string(), d.to_string(), e.to_string()]
    );
}

#[test]
fn traversal_records_an_entity_once_for_each_statement_that_reaches_it() {
    let a = "http://ex.org/r/A";
    let b = "http://ex.org/r/B";
    let kg = graph(&[
        triple(a, "http://ex.org/onto#knows", b),
        triple(a, "http://ex.org/onto#likes", b),
    ]);
    assert_eq!(kg.find_related_entities(a, 3).unwrap(), vec![b.to_string(), b.to_string()]);
}

#[test]
fn traversal_ends_on_a_cycle() {
    let a = "http://ex.org/r/A";
    let b = "http://ex.org/r/B";
    let p = "http://ex.org/onto#knows";
    let kg = graph(&[triple(a, p, b), triple(b, p, a)]);
    assert_eq!(kg.find_related_entities(a, 10).unwrap(), vec![b.to_string(), b.to_string()]);
}

#[test]
fn end_to_end_example() {
    let t = triple("http://ex.org/r/1", "http://ex.org/onto#hasName", "Acme");
    let mut kg = KnowledgeGraph::in_memory(schema()).unwrap();
    assert_eq!(kg.add_triples(&[t.clone(), t]).unwrap(), 1);
    assert_eq!(kg.len(), 1);
    match kg.export("ntriples").unwrap() {
        Encoded::Text(text) => {
            assert_eq!(text, "<http://ex.org/r/1> <http://ex.org/onto#hasName> \"Acme\" .\n");
            assert_eq!(text.lines().count(), 1);
        }
        Encoded::RecordArray => panic!("expected text"),
    }
}

#[test]
fn an_export_names_its_file() {
    let kg = graph(&[triple("http://ex.org/r/1", "http://ex.org/onto#hasName", "Acme")]);
    let export = kg.export_to_file("out/graph.nt", "nt").unwrap();
    assert_eq!(export.path, "out/graph.nt");
    assert!(matches!(
        export.content,
        Encoded::Text(text) if text == "<http://ex.org/r/1> <http://ex.org/onto#hasName> \"Acme\" .\n"
    ));
    assert!(matches!(kg.export_to_file("g.json", "json").unwrap().content, Encoded::RecordArray));
    assert!(matches!(
        kg.export_to_file("g.xml", "rdfxml"),
        Err(KnowledgeGraphError::UnsupportedFormat(name)) if name == "rdfxml"
    ));
}

#[test]
fn export_knows_three_formats_by_name() {
    let kg = graph(&[triple("http://ex.org/r/1", "http://ex.org/onto#hasName", "Acme")]);
    let turtle = "@prefix ex: <http://ex.org/onto#> .\n\
                  @prefix rdf: <http://www.w3.org/1999/02/22-rdf-syntax-ns#> .\n\
                  @prefix rdfs: <http://www.w3.org/2000/01/rdf-schema#> .\n\n\
                  <http://ex.org/r/1> ex:hasName \"Acme\" .\n";
    for name in ["turtle", "ttl", "TURTLE", "Ttl"] {
        match kg.export(name).unwrap() {
            Encoded::Text(text) => assert_eq!(text, turtle),
            Encoded::RecordArray => panic!("expected text"),
        }
    }
    for name in ["ntriples", "nt", "NT"] {
        assert!(matches!(kg.export(name).unwrap(), Encoded::Text(_)));
    }
    assert!(matches!(kg.export("json").unwrap(), Encoded::RecordArray));
    assert!(matches!(kg.export("JSON").unwrap(), Encoded::RecordArray));
}

#[test]
fn export_refuses_the_formats_of_the_serializer_alone() {
    let kg = graph(&[]);
    for name in ["jsonld", "rdfxml", "json-ld", "xml", ""] {
        match kg.export(name) {
            Err(KnowledgeGraphError::UnsupportedFormat(given)) => assert_eq!(given, name),
            other => panic!("expected a refusal, got {:?}", other.map(|_| ())),
        }
    }
    let message = kg.export("rdfxml").unwrap_err().message();
    assert_eq!(message, "Unsupported export format: rdfxml. Supported: turtle, ntriples, json");
}

#[test]
fn a_query_for_names_returns_rows_of_name_and_entity() {
    let kg = graph(&[
        triple("http://ex.org/r/1", "http://ex.org/onto#hasName", "Acme"),
        triple("http://ex.org/r/1", "http://ex.org/onto#basedIn", "Paris"),
        triple("http://ex.org/r/2", "http://ex.org/onto#hasRole", "CEO"),
        triple("http://ex.org/r/2", "http://ex.org/onto#hasName", "Ada"),
    ]);
    let found = rows(kg.execute_sparql("SELECT ?entity ?name WHERE { ?entity ex:hasName ?name }").unwrap());
    assert_eq!(
        found,
        vec![
            vec![pair("name", "Acme"), pair("entity", "http://ex.org/r/1")],
            vec![pair("name", "Ada"), pair("entity", "http://ex.org/r/2")],
        ]
    );
}

#[test]
fn a_query_for_roles_returns_rows_of_role_and_person() {
    let kg = graph(&[
        triple("http://ex.org/r/1", "http://ex.org/onto#hasName", "Acme"),
        triple("http://ex.org/r/2", "http://ex.org/onto#hasRole", "CEO"),
    ]);
    let found = rows(kg.execute_sparql("select ?person ?role where { ?person ex:hasRole ?role }").unwrap());
    assert_eq!(found, vec![vec![pair("role", "CEO"), pair("person", "http://ex.org/r/2")]]);
}

#[test]
fn the_name_shape_comes_before_the_role_shape() {
    let kg = graph(&[
        triple("http://ex.org/r/1", "http://ex.org/onto#hasName", "Acme"),
        triple("http://ex.org/r/2", "http://ex.org/onto#hasRole", "CEO"),
    ]);
    let found = rows(
        kg.execute_sparql("SELECT ?name ?role WHERE { ?x ex:hasName ?name . ?x ex:hasRole ?role }")
            .unwrap(),
    );
    assert_eq!(found, vec![vec![pair("name", "Acme"), pair("entity", "http://ex.org/r/1")]]);
}

#[test]
fn any_other_select_returns_every_statement() {
    let kg = graph(&[
        triple("http://ex.org/r/1", "http://ex.org/onto#hasName", "Acme"),
        triple("http://ex.org/r/2", "http://ex.org/onto#hasRole", "CEO"),
    ]);
    let found = rows(kg.execute_sparql("  \n Select * WHERE { ?s ?p ?o }  ").unwrap());
    assert_eq!(
        found,
        vec![
            vec![
                pair("subject", "http://ex.org/r/1"),
                pair("predicate", "http://ex.org/onto#hasName"),
                pair("object", "Acme"),
            ],
            vec![
                pair("subject", "http://ex.org/r/2"),
                pair("predicate", "http://ex.org/onto#hasRole"),
                pair("object", "CEO"),
            ],
        ]
    );
    let names_without_fragment = rows(kg.execute_sparql("SELECT ?name WHERE { ?s ?p ?name }").unwrap());
    assert_eq!(names_without_fragment.len(), 2);
    assert_eq!(names_without_fragment[0].len(), 3);
}

#[test]
fn only_select_queries_are_accepted() {
    let kg = graph(&[triple("http://ex.org/r/1", "http://ex.org/onto#hasName", "Acme")]);
    for query in ["ASK { ?s ?p ?o }", "", "  ", "CONSTRUCT { } WHERE { }", "selec ?name hasName"] {
        match kg.execute_sparql(query) {
            Err(KnowledgeGraphError::UnsupportedQuery(given)) => assert_eq!(given, query),
            other => panic!("expected a refusal, got {:?}", other.map(|_| ())),
        }
    }
    assert_eq!(
        kg.execute_sparql("ASK {}").unwrap_err().message(),
        "Only SELECT queries are supported in this simplified implementation"
    );
    assert!(kg.execute_sparql("\t sElEcT ?s").is_ok());
    assert!(kg.execute_sparql("SELECTED").is_ok());
}

#[test]
fn properties_keep_every_object_in_order() {
    let s = "http://ex.org/r/1";
    let kg = graph(&[
        triple(s, "http://ex.org/onto#hasName", "Acme"),
        triple(s, "http://ex.org/onto#basedIn", "Paris"),
        triple("http://ex.org/r/2", "http://ex.org/onto#hasName", "Bolt"),
        triple(s, "http://ex.org/onto#hasName", "Acme Corporation"),
    ]);
    let properties = kg.get_entity_properties(s).unwrap();
    assert_eq!(properties.len(), 2);
    assert_eq!(properties.predicate_at(0), "http://ex.org/onto#hasName");
    assert_eq!(properties.objects_at(0), &vec!["Acme".to_string(), "Acme Corporation".to_string()]);
    assert_eq!(properties.predicate_at(1), "http://ex.org/onto#basedIn");
    assert_eq!(properties.get("http://ex.org/onto#basedIn"), Some(&vec!["Paris".to_string()]));
    assert_eq!(properties.get("http://ex.org/onto#hasRole"), None);
    assert!(kg.get_entity_properties("http://ex.org/r/9").unwrap().is_empty());
}

#[test]
fn statistics_count_distinct_strings() {
    let kg = graph(&[
        triple("http://ex.org/r/1", "http://ex.org/onto#hasName", "Acme"),
        triple("http://ex.org/r/1", "http://ex.org/onto#basedIn", "Paris"),
        triple("http://ex.org/r/2", "http://ex.org/onto#hasName", "Paris"),
        triple("http://ex.org/r/3", "http://ex.org/onto#hasName", "Acme"),
    ]);
    let stats = kg.get_statistics().unwrap();
    assert_eq!(
        stats,
        KnowledgeGraphStats {
            total_triples: 4,
            unique_subjects: 3,
            unique_predicates: 2,
            unique_objects: 2,
        }
    );
    assert_eq!(
        stats.to_text(),
        "Knowledge Graph Statistics:\nTotal Triples: 4\nUnique Subjects: 3\nUnique Predicates: 2\nUnique Objects: 2"
    );
    let empty = graph(&[]).get_statistics().unwrap();
    assert_eq!(empty.total_triples, 0);
    assert_eq!(empty.unique_objects, 0);
}

#[test]
fn a_snapshot_comes_back_as_it_was_written() {
    let written = vec![
        triple("http://ex.org/r/1", "http://ex.org/onto#hasName", "Acme").with_confidence(0.5f32.to_bits()),
        triple("http://ex.org/r/2", "http://ex.org/onto#hasName", "Bolt").with_source("b.txt".to_string()),
    ];
    let kg = graph(&written);
    let snapshot: Vec<RdfTriple> = kg.triples().clone();
    let config = KnowledgeGraphConfig {
        storage_path: "graph.json".to_string(),
        namespaces: TextMap::new(),
        default_graph: None,
    };
    let restored = KnowledgeGraph::new(config, schema(), snapshot).unwrap();
    assert_eq!(restored.len(), 2);
    for (a, b) in restored.triples().iter().zip(written.iter()) {
        assert_eq!(a.to_ntriple(), b.to_ntriple());
        assert_eq!(a.confidence_bits, b.confidence_bits);
        assert_eq!(a.source, b.source);
    }
    assert!(restored.is_persistent());
    assert!(!kg.is_persistent());
    assert!(kg.snapshot().is_none());
    let request = restored.snapshot().unwrap();
    assert_eq!(request.path, "graph.json");
    assert!(matches!(request.content, Encoded::RecordArray));
}

#[test]
fn a_snapshot_with_repeated_statements_is_cleaned() {
    let t = triple("http://ex.org/r/1", "http://ex.org/onto#hasName", "Acme");
    let restored = KnowledgeGraph::new(KnowledgeGraphConfig::default(), schema(), vec![t.clone(), t]).unwrap();
    assert_eq!(restored.len(), 1);
    assert_eq!(restored.config().storage_path, "knowledge_graph.db");
    assert_eq!(restored.schema().prefix, "ex");
}

#[test]
fn every_error_has_a_message() {
    let io = KnowledgeGraphError::Io { path: "kg.db".to_string(), detail: "denied".to_string() };
    assert_eq!(io.message(), "I/O failure on kg.db: denied");
    assert_eq!(
        KnowledgeGraphError::Parse("line 1".to_string()).message(),
        "Failed to parse knowledge graph JSON: line 1"
    );
    assert_eq!(
        KnowledgeGraphError::Lookup("Person".to_string()).message(),
        "Unknown entity or type: Person"
    );
}
