use rdf_knowledge_extractor::config::OutputFormat;
use rdf_knowledge_extractor::json::{JsonMember, JsonValue};
use rdf_knowledge_extractor::json::written;
use rdf_knowledge_extractor::serialization::{
    distinct_subjects, json_ld_outcome, json_ld_tree, validate_rdf_triples, Encoded,
    RdfSerializer, SerializeError,
};
use rdf_knowledge_extractor::triple::RdfTriple;

fn triple(s: &str, p: &str, o: &str) -> RdfTriple {
    RdfTriple::new(s.to_string(), p.to_string(), o.to_string())
}

fn text(encoded: Encoded) -> String {
    match encoded {
        Encoded::Text(text) => text,
        Encoded::RecordArray => panic!("expected text"),
    }
}

#[test]
fn test_validate_rdf_triples() {
    let triples = vec![
        RdfTriple::new(
            "http://example.org/person1".to_string(),
            "http://example.org/hasName".to_string(),
            "John Doe".to_string(),
        ),
        RdfTriple::new(
            "invalid_uri".to_string(),
            "http://example.org/hasAge".to_string(),
            "30".to_string(),
        ),
    ];

    let issues = validate_rdf_triples(&triples);
    assert_eq!(issues.len(), 1);
    assert!(issues[0].contains("Invalid subject URI"));
}

#[test]
fn test_serialize_json() {
    let mut serializer = RdfSerializer::new();
    let triples = vec![RdfTriple::new(
        "http://example.org/person1".to_string(),
        "http://example.org/hasName".to_string(),
        "John Doe".to_string(),
    )];

    let result = serializer.serialize(&triples, &OutputFormat::Json, "http://example.org/", "ex");

    assert!(result.is_ok());
}

#[test]
fn validation_lists_every_issue_in_order() {
    let triples = vec![
        triple("http://example.org/a", "http://example.org/p", "x"),
        triple("", "hasAge", ""),
        triple("https://example.org/b", "ftp://example.org/p", "y"),
    ];
    assert_eq!(
        validate_rdf_triples(&triples),
        vec![
            "Triple 1: Invalid subject URI: ".to_string(),
            "Triple 1: Invalid predicate URI: hasAge".to_string(),
            "Triple 1: Empty subject".to_string(),
            "Triple 1: Empty object".to_string(),
            "Triple 2: Invalid predicate URI: ftp://example.org/p".to_string(),
        ]
    );
    let empty_predicate = vec![triple("http://example.org/a", "", "x")];
    assert_eq!(
        validate_rdf_triples(&empty_predicate),
        vec![
            "Triple 0: Invalid predicate URI: ".to_string(),
            "Triple 0: Empty predicate".to_string(),
        ]
    );
    assert!(validate_rdf_triples(&[]).is_empty());
}

#[test]
fn validation_numbers_statements_in_decimal() {
    let mut triples = Vec::new();
    for _ in 0..12 {
        triples.push(triple("http://example.org/a", "http://example.org/p", "x"));
    }
    triples.push(triple("nope", "http://example.org/p", "x"));
    assert_eq!(validate_rdf_triples(&triples), vec!["Triple 12: Invalid subject URI: nope".to_string()]);
}

#[test]
fn turtle_compacts_names_in_the_namespace() {
    let mut serializer = RdfSerializer::new();
    let triples = vec![
        triple("http://ex.org/onto#acme", "http://ex.org/onto#hasName", "Acme \"The\" Corp"),
        triple("http://other.org/x", "http://other.org/knows", "https://ex.org/r/2"),
    ];
    let out = text(
        serializer.serialize(&triples, &OutputFormat::Turtle, "http://ex.org/onto#", "ex").unwrap(),
    );
    assert_eq!(
        out,
        "@prefix ex: <http://ex.org/onto#> .\n\
         @prefix rdf: <http://www.w3.org/1999/02/22-rdf-syntax-ns#> .\n\
         @prefix rdfs: <http://www.w3.org/2000/01/rdf-schema#> .\n\n\
         ex:acme ex:hasName \"Acme \\\"The\\\" Corp\" .\n\
         <http://other.org/x> <http://other.org/knows> <https://ex.org/r/2> .\n"
    );
}

#[test]
fn turtle_of_nothing_is_the_header() {
    let serializer = RdfSerializer::new();
    assert_eq!(
        serializer.serialize_turtle(&[], "http://ex.org/onto#", "ex"),
        "@prefix ex: <http://ex.org/onto#> .\n\
         @prefix rdf: <http://www.w3.org/1999/02/22-rdf-syntax-ns#> .\n\
         @prefix rdfs: <http://www.w3.org/2000/01/rdf-schema#> .\n\n"
    );
}

#[test]
fn turtle_names_and_objects() {
    let serializer = RdfSerializer::new();
    assert_eq!(serializer.format_uri_for_turtle("http://ex.org/onto#p", "http://ex.org/onto#", "ex"), "ex:p");
    assert_eq!(serializer.format_uri_for_turtle("http://ex.org/onto#", "http://ex.org/onto#", "ex"), "ex:");
    assert_eq!(serializer.format_uri_for_turtle("http://ex.org/p", "http://ex.org/onto#", "ex"), "<http://ex.org/p>");
    assert_eq!(serializer.format_uri_for_turtle("örtlich", "ö", "o"), "o:rtlich");
    assert_eq!(serializer.format_object_for_turtle("http://ex.org/p"), "<http://ex.org/p>");
    assert_eq!(serializer.format_object_for_turtle("https://ex.org/p"), "<https://ex.org/p>");
    assert_eq!(serializer.format_object_for_turtle("httpx"), "\"httpx\"");
    assert_eq!(serializer.format_object_for_turtle("say \"hi\""), "\"say \\\"hi\\\"\"");
    assert_eq!(serializer.format_object_for_turtle(""), "\"\"");
}

#[test]
fn ntriples_never_compacts() {
    let mut serializer = RdfSerializer::new();
    let triples = vec![
        triple("http://ex.org/onto#acme", "http://ex.org/onto#hasName", "Acme"),
        triple("http://ex.org/onto#acme", "http://ex.org/onto#knows", "http://ex.org/r/2"),
    ];
    let out = text(
        serializer.serialize(&triples, &OutputFormat::NTriples, "http://ex.org/onto#", "ex").unwrap(),
    );
    assert_eq!(
        out,
        "<http://ex.org/onto#acme> <http://ex.org/onto#hasName> \"Acme\" .\n\
         <http://ex.org/onto#acme> <http://ex.org/onto#knows> <http://ex.org/r/2> .\n"
    );
    assert_eq!(serializer.serialize_ntriples(&[]), "");
    assert_eq!(
        triples[0].to_ntriple(),
        "<http://ex.org/onto#acme> <http://ex.org/onto#hasName> \"Acme\" ."
    );
}

#[test]
fn rdf_xml_groups_by_subject_in_first_seen_order() {
    let mut serializer = RdfSerializer::new();
    let triples = vec![
        triple("http://ex.org/r/1", "http://ex.org/onto#hasName", "A & B <Ltd>"),
        triple("http://ex.org/r/2", "http://other.org/v#knows", "http://ex.org/r/1"),
        triple("http://ex.org/r/1", "http://other.org/plain", "x"),
    ];
    let out = text(
        serializer.serialize(&triples, &OutputFormat::RdfXml, "http://ex.org/onto#", "ex").unwrap(),
    );
    assert_eq!(
        out,
        "<?xml version=\"1.0\" encoding=\"UTF-8\"?>\n\
         <rdf:RDF xmlns:rdf=\"http://www.w3.org/1999/02/22-rdf-syntax-ns#\" xmlns:ex=\"http://ex.org/onto#\">\n\
         \x20 <rdf:Description rdf:about=\"http://ex.org/r/1\">\n\
         \x20   <ex:hasName>A &amp; B &lt;Ltd&gt;</ex:hasName>\n\
         \x20   <http://other.org/plain>x</http://other.org/plain>\n\
         \x20 </rdf:Description>\n\
         \x20 <rdf:Description rdf:about=\"http://ex.org/r/2\">\n\
         \x20   <knows rdf:resource=\"http://ex.org/r/1\"/>\n\
         \x20 </rdf:Description>\n\
         </rdf:RDF>\n"
    );
}

#[test]
fn rdf_xml_of_nothing_is_an_empty_root() {
    let serializer = RdfSerializer::new();
    assert_eq!(
        serializer.serialize_rdf_xml(&[], "http://ex.org/onto#", "ex"),
        "<?xml version=\"1.0\" encoding=\"UTF-8\"?>\n\
         <rdf:RDF xmlns:rdf=\"http://www.w3.org/1999/02/22-rdf-syntax-ns#\" xmlns:ex=\"http://ex.org/onto#\">\n\
         </rdf:RDF>\n"
    );
}

#[test]
fn json_ld_groups_by_subject() {
    let mut serializer = RdfSerializer::new();
    let triples = vec![
        triple("http://ex.org/r/2", "http://ex.org/onto#hasName", "Bolt \"B\""),
        triple("http://ex.org/r/1", "http://ex.org/onto#knows", "http://ex.org/r/2"),
        triple("http://ex.org/r/2", "http://other.org/age", "7"),
    ];
    let out = text(
        serializer.serialize(&triples, &OutputFormat::JsonLd, "http://ex.org/onto#", "ex").unwrap(),
    );
    assert_eq!(
        out,
        r#"{
  "@context": {
    "ex": "http://ex.org/onto#"
  },
  "@graph": [
    {
      "@id": "http://ex.org/r/2",
      "ex:hasName": "Bolt \"B\"",
      "http://other.org/age": "7"
    },
    {
      "@id": "http://ex.org/r/1",
      "ex:knows": {
        "@id": "http://ex.org/r/2"
      }
    }
  ]
}"#
    );
}

#[test]
fn json_ld_keeps_the_last_value_of_a_predicate() {
    let triples = vec![
        triple("http://ex.org/r/1", "http://ex.org/onto#hasName", "Acme"),
        triple("http://ex.org/r/1", "http://ex.org/onto#hasName", "Acme Corporation"),
    ];
    let tree = json_ld_tree(&triples, "http://ex.org/onto#", "ex");
    let graph = match &tree {
        JsonValue::Object(members) => {
            assert_eq!(members.len(), 2);
            assert_eq!(members[0].name, "@context");
            assert_eq!(members[1].name, "@graph");
            match &members[1].value {
                JsonValue::List(nodes) => nodes,
                _ => panic!("expected a list"),
            }
        }
        _ => panic!("expected an object"),
    };
    assert_eq!(graph.len(), 1);
    let members: &Vec<JsonMember> = match &graph[0] {
        JsonValue::Object(members) => members,
        _ => panic!("expected an object"),
    };
    assert_eq!(members.len(), 2);
    assert_eq!(members[0].name, "@id");
    assert_eq!(members[1].name, "ex:hasName");
    assert!(matches!(&members[1].value, JsonValue::Text(t) if t == "Acme Corporation"));
    let serializer = RdfSerializer::new();
    let out = serializer.serialize_json_ld(&triples, "http://ex.org/onto#", "ex").unwrap();
    assert!(out.contains("\"ex:hasName\": \"Acme Corporation\""));
    assert!(!out.contains("\"Acme\""));
}

fn writer_failure() -> serde_json::Error {
    serde_json::to_string_pretty(&std::collections::BTreeMap::from([((1, 2), 3)])).unwrap_err()
}

#[test]
fn the_answer_of_the_json_writer_comes_back() {
    assert_eq!(written(Ok("{}".to_string())), Ok("{}".to_string()));
    assert_eq!(written(Ok(String::new())), Ok(String::new()));
    assert_eq!(written(Err(writer_failure())), Err(writer_failure().to_string()));
    assert!(matches!(json_ld_outcome(Ok("[1]".to_string())), Ok(text) if text == "[1]"));
    let said = writer_failure().to_string();
    assert!(matches!(
        json_ld_outcome(Err(writer_failure())),
        Err(SerializeError::Json(detail)) if detail == said
    ));
}

#[test]
fn a_failure_of_the_json_writer_has_a_message() {
    assert_eq!(
        SerializeError::Json("key must be a string".to_string()).message(),
        "Failed to serialize JSON-LD: key must be a string"
    );
}

#[test]
fn subjects_come_in_first_seen_order() {
    let triples = vec![
        triple("b", "p", "1"),
        triple("a", "p", "2"),
        triple("b", "q", "3"),
        triple("c", "p", "4"),
        triple("a", "q", "5"),
    ];
    assert_eq!(distinct_subjects(&triples), vec!["b".to_string(), "a".to_string(), "c".to_string()]);
}
