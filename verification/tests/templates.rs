use rdf_knowledge_extractor::display::{
    collect_headers, display_results_as_csv, display_results_as_json, display_results_as_table,
    display_results_as_turtle,
};
use rdf_knowledge_extractor::knowledge_graph::SimpleSparqlResults;
use rdf_knowledge_extractor::config::RdfSchema;
use rdf_knowledge_extractor::knowledge_graph::KnowledgeGraph;
use rdf_knowledge_extractor::templates::{
    build_enhancement_prompt, capitalize, choose_query, count_occurrences, count_words,
    editor_system_prompt, format_list, is_json_template, is_template_extension, on_query_failure,
    run_data_queries, scan_placeholders, truncate, typed_cell, DataQuery, OutputFormat,
    PostProcessingConfig, QueryFailure, Template, TemplatePopulator, TemplateType, TypedCell,
};
use rdf_knowledge_extractor::triple::RdfTriple;
use rdf_knowledge_extractor::text_map::TextMap;

fn row(pairs: &[(&str, &str)]) -> TextMap {
    let mut map = TextMap::new();
    for (k, v) in pairs {
        map.insert(k.to_string(), v.to_string());
    }
    map
}

fn query(id: &str, required: bool) -> DataQuery {
    DataQuery {
        id: id.to_string(),
        description: "d".to_string(),
        sparql_query: "SELECT ?s".to_string(),
        required,
        transform: None,
    }
}

fn template(kind: TemplateType, instructions: Option<&str>) -> Template {
    Template {
        id: "t".to_string(),
        name: "T".to_string(),
        description: "d".to_string(),
        template_type: kind,
        data_queries: vec![],
        template_content: "c".to_string(),
        output_format: OutputFormat::Markdown,
        llm_instructions: instructions.map(|s| s.to_string()),
        post_processing: None,
    }
}

#[test]
fn kinds_of_template_have_names() {
    assert_eq!(TemplateType::Report.to_text(), "report");
    assert_eq!(TemplateType::Summary.to_text(), "summary");
    assert_eq!(TemplateType::Form.to_text(), "form");
    assert_eq!(TemplateType::Article.to_text(), "article");
    assert_eq!(TemplateType::Email.to_text(), "email");
    assert_eq!(TemplateType::Presentation.to_text(), "presentation");
    assert_eq!(TemplateType::Custom("memo".to_string()).to_text(), "memo");
}

#[test]
fn an_override_replaces_the_query_of_a_template() {
    let q = query("companies", true);
    let overrides = row(&[("people", "SELECT ?p"), ("companies", "SELECT ?c")]);
    assert_eq!(choose_query(&q, Some(&overrides)), "SELECT ?c");
    assert_eq!(choose_query(&query("other", true), Some(&overrides)), "SELECT ?s");
    assert_eq!(choose_query(&q, None), "SELECT ?s");
}

#[test]
fn a_failed_query_ends_the_generation_only_if_required() {
    match on_query_failure(&query("companies", true), "no SELECT") {
        QueryFailure::Abort(message) => assert_eq!(message, "Required query 'companies' failed: no SELECT"),
        QueryFailure::Substitute => panic!("expected the generation to end"),
    }
    assert!(matches!(on_query_failure(&query("people", false), "x"), QueryFailure::Substitute));
}

fn asking(id: &str, text: &str, required: bool) -> DataQuery {
    DataQuery {
        id: id.to_string(),
        description: "d".to_string(),
        sparql_query: text.to_string(),
        required,
        transform: None,
    }
}

fn small_graph() -> KnowledgeGraph {
    let schema = RdfSchema {
        namespace: "http://ex.org/onto#".to_string(),
        prefix: "ex".to_string(),
        base_uri: "http://ex.org/r/".to_string(),
        predicates: TextMap::new(),
        classes: TextMap::new(),
        custom_vocabularies: TextMap::new(),
    };
    let mut kg = KnowledgeGraph::in_memory(schema).unwrap();
    kg.add_triples(&[
        RdfTriple::new("http://ex.org/r/1".to_string(), "http://ex.org/onto#hasName".to_string(), "Acme".to_string()),
        RdfTriple::new("http://ex.org/r/2".to_string(), "http://ex.org/onto#hasRole".to_string(), "CEO".to_string()),
    ])
    .unwrap();
    kg
}

#[test]
fn the_queries_of_a_template_are_run_in_order() {
    let kg = small_graph();
    let queries = vec![
        asking("names", "SELECT ?name WHERE { ?e ex:hasName ?name }", true),
        asking("known", "ASK { ?s ?p ?o }", false),
        asking("roles", "DESCRIBE ?x", true),
    ];
    let overrides = row(&[("roles", "select ?role where { ?p ex:hasRole ?role }")]);
    let answers = run_data_queries(&kg, &queries, Some(&overrides)).unwrap();
    assert_eq!(answers.len(), 3);
    assert_eq!(answers[0].0, "names");
    match &answers[0].1 {
        Some(SimpleSparqlResults::Solutions(rows)) => {
            assert_eq!(rows.len(), 1);
            assert_eq!(rows[0].get("name").unwrap(), "Acme");
        }
        _ => panic!("expected rows"),
    }
    assert_eq!(answers[1].0, "known");
    assert!(answers[1].1.is_none());
    assert_eq!(answers[2].0, "roles");
    match &answers[2].1 {
        Some(SimpleSparqlResults::Solutions(rows)) => {
            assert_eq!(rows[0].get("role").unwrap(), "CEO")
        }
        _ => panic!("expected rows"),
    }
    assert!(run_data_queries(&kg, &vec![], None).unwrap().is_empty());
}

#[test]
fn a_required_query_that_is_refused_ends_the_run() {
    let kg = small_graph();
    let queries = vec![
        asking("first", "SELECT ?s", true),
        asking("optional", "ASK {}", false),
        asking("second", "ASK {}", true),
        asking("third", "DROP ALL", true),
    ];
    assert_eq!(
        run_data_queries(&kg, &queries, None).unwrap_err(),
        "Required query 'second' failed: Only SELECT queries are supported in this simplified implementation"
    );
    let overrides = row(&[("first", "CONSTRUCT {} WHERE {}"), ("second", "SELECT ?s")]);
    assert_eq!(
        run_data_queries(&kg, &queries, Some(&overrides)).unwrap_err(),
        "Required query 'first' failed: Only SELECT queries are supported in this simplified implementation"
    );
}

#[test]
fn template_files_are_told_by_their_names() {
    assert!(is_json_template("a.json"));
    assert!(is_json_template(".json"));
    assert!(!is_json_template("a.yaml"));
    assert!(!is_json_template("json"));
    assert!(!is_json_template("a.JSON"));
    assert!(is_template_extension("yaml") && is_template_extension("yml") && is_template_extension("json"));
    assert!(!is_template_extension("txt") && !is_template_extension(""));
}

#[test]
fn the_enhancement_prompt_names_what_is_configured() {
    let full = PostProcessingConfig {
        enhance_with_llm: true,
        style_guide: Some("Formal".to_string()),
        word_limit: Some(500),
        include_sources: false,
    };
    assert_eq!(
        build_enhancement_prompt("Body", &template(TemplateType::Report, Some("Be kind")), &full),
        "Please enhance and improve the following report content:\n\nBody\n\nStyle Guide: Formal\n\nWord limit: 500 words\n\nAdditional instructions: Be kind\n\nProvide the enhanced content as your response."
    );
    let bare = PostProcessingConfig { enhance_with_llm: true, style_guide: None, word_limit: None, include_sources: true };
    assert_eq!(
        build_enhancement_prompt("Body", &template(TemplateType::Custom("memo".to_string()), None), &bare),
        "Please enhance and improve the following memo content:\n\nBody\n\nProvide the enhanced content as your response."
    );
    assert!(editor_system_prompt().starts_with("You are a skilled editor and writer."));
}

#[test]
fn words_are_runs_without_white_space() {
    assert_eq!(count_words(""), 0);
    assert_eq!(count_words("   \n"), 0);
    assert_eq!(count_words("one"), 1);
    assert_eq!(count_words(" one  two\tthree\n"), 3);
    assert_eq!(count_words("a\u{2003}b"), 2);
    for text in ["x y  z", " lead", "trail ", "a-b c"] {
        assert_eq!(count_words(text), text.split_whitespace().count());
    }
}

#[test]
fn helpers_of_the_template_language() {
    assert_eq!(capitalize("hello world"), "Hello world");
    assert_eq!(capitalize("ßa"), "SSa");
    assert_eq!(capitalize("Éa"), "Éa");
    assert_eq!(capitalize("1a"), "1a");
    assert_eq!(capitalize(""), "");
    assert_eq!(truncate("abcdef", 3), "abc...");
    assert_eq!(truncate("abc", 3), "abc");
    assert_eq!(truncate("", 0), "");
    assert_eq!(truncate("a", 0), "...");
    assert_eq!(truncate("äöü", 2), "ä...");
    assert_eq!(truncate("äöü", 3), "ä...");
    assert_eq!(truncate("äöü", 4), "äö...");
    assert_eq!(truncate("äöü", 5), "äö...");
    assert_eq!(truncate("äöü", 6), "äöü");
    assert_eq!(truncate("ä", 1), "...");
    assert_eq!(format_list(&vec!["a".to_string(), "b".to_string()], "; "), "a; b");
}

#[test]
fn placeholders_are_read_from_left_to_right() {
    assert_eq!(scan_placeholders("[FIELD: a] x [FIELD: b c]", "[FIELD: "), vec!["a", "b c"]);
    assert_eq!(scan_placeholders("[FIELD: ] [FIELD: a]", "[FIELD: "), vec!["a"]);
    assert_eq!(scan_placeholders("[FIELD: [FIELD: a]]", "[FIELD: "), vec!["[FIELD: a"]);
    assert_eq!(scan_placeholders("[FIELD: open", "[FIELD: "), Vec::<String>::new());
    assert_eq!(scan_placeholders("[FIELD: a\nb]", "[FIELD: "), vec!["a\nb"]);
    assert_eq!(scan_placeholders("[field: a]", "[FIELD: "), Vec::<String>::new());
    assert_eq!(scan_placeholders("", "[FIELD: "), Vec::<String>::new());
    assert_eq!(count_occurrences("[DATE FIELD][DATE FIELD] [DATE FIELD", "[DATE FIELD]"), 2);
    assert_eq!(count_occurrences("aaaa", "aa"), 2);
    assert_eq!(count_occurrences("abc", ""), 0);
}

#[test]
fn the_fields_of_a_template_come_kind_by_kind() {
    let text = "Name: [FIELD: Company] on [DATE FIELD]\n[TEXT AREA: Notes]\n[CHECKLIST: a, b]\n[DROPDOWN: x|y] [FIELD: Owner]";
    let fields = TemplatePopulator::extract_template_fields(text);
    let seen: Vec<(&str, &str, &str, bool)> = fields
        .iter()
        .map(|f| (f.field_name.as_str(), f.field_type.as_str(), f.description.as_str(), f.required))
        .collect();
    assert_eq!(
        seen,
        vec![
            ("Company", "text", "Text field: Company", true),
            ("Owner", "text", "Text field: Owner", true),
            ("Dropdown: x|y", "dropdown", "Select from: x|y", true),
            ("Date", "date", "Date field", false),
            ("Checklist: a, b", "checklist", "Multiple selection: a, b", false),
            ("Notes", "textarea", "Long text: Notes", false),
        ]
    );
    assert!(TemplatePopulator::extract_template_fields("nothing here").is_empty());
}

#[test]
fn the_population_prompt_lists_every_result() {
    let answers = vec![
        (
            "companies".to_string(),
            SimpleSparqlResults::Solutions(vec![
                row(&[("name", "Acme"), ("entity", "http://e/1")]),
                row(&[("name", "Bolt")]),
            ]),
        ),
        ("none".to_string(), SimpleSparqlResults::Solutions(vec![])),
        ("known".to_string(), SimpleSparqlResults::Boolean(true)),
    ];
    let populator = TemplatePopulator::new();
    assert_eq!(
        populator.build_population_prompt("Dear [FIELD: Name]", &answers, Some("Be brief")),
        "## Template to Populate\n\nDear [FIELD: Name]\n\n## Extracted Data from Knowledge Graph\n\n\
         ### Query: companies\nResult 1:\n  - name: Acme\n  - entity: http://e/1\nResult 2:\n  - name: Bolt\n\n\
         ### Query: none\nNo results found.\n\n\
         ### Query: known\nBoolean result: true\n\n\
         ## Additional Instructions\n\nBe brief\n\n\
         ## Task\n\nPopulate the template above with the actual data from the knowledge graph. \
         Replace all placeholder fields with real values from the extracted data. \
         Make the report professional and actionable.\n"
    );
    assert_eq!(
        populator.build_population_prompt("T", &vec![], None),
        "## Template to Populate\n\nT\n\n## Extracted Data from Knowledge Graph\n\n## Task\n\n\
         Populate the template above with the actual data from the knowledge graph. \
         Replace all placeholder fields with real values from the extracted data. \
         Make the report professional and actionable.\n"
    );
    assert!(TemplatePopulator::system_prompt().contains("[DROPDOWN: ...]"));
}

#[test]
fn bound_strings_are_typed() {
    assert_eq!(typed_cell("42"), TypedCell::Integer(42));
    assert_eq!(typed_cell("-1"), TypedCell::Integer(-1));
    assert_eq!(typed_cell("true"), TypedCell::Boolean(true));
    assert_eq!(typed_cell("false"), TypedCell::Boolean(false));
    assert_eq!(typed_cell("True"), TypedCell::Other);
    assert_eq!(typed_cell("1.5"), TypedCell::Other);
    assert_eq!(typed_cell("Acme"), TypedCell::Other);
    assert_eq!(typed_cell(""), TypedCell::Other);
}

fn sample() -> SimpleSparqlResults {
    SimpleSparqlResults::Solutions(vec![
        row(&[("name", "Acme, Inc."), ("entity", "http://e/1")]),
        row(&[("role", "CEO"), ("name", "Ada")]),
    ])
}

#[test]
fn results_as_a_table() {
    assert_eq!(
        display_results_as_table(&sample()),
        vec![
            "name | entity | role".to_string(),
            "─".repeat(60),
            "Acme, Inc. | http://e/1 | ".to_string(),
            "Ada |  | CEO".to_string(),
        ]
    );
    assert_eq!(display_results_as_table(&SimpleSparqlResults::Boolean(true)), vec!["Result:  TRUE"]);
    assert_eq!(display_results_as_table(&SimpleSparqlResults::Boolean(false)), vec!["Result:  FALSE"]);
    assert_eq!(display_results_as_table(&SimpleSparqlResults::Solutions(vec![])), vec!["", ""]);
    match sample() {
        SimpleSparqlResults::Solutions(rows) => {
            assert_eq!(collect_headers(&rows), vec!["name", "entity", "role"])
        }
        SimpleSparqlResults::Boolean(_) => unreachable!(),
    }
}

#[test]
fn results_as_comma_separated_values() {
    assert_eq!(
        display_results_as_csv(&sample()),
        vec!["name,entity,role", "\"Acme, Inc.\",http://e/1,", "Ada,,CEO"]
    );
    assert_eq!(display_results_as_csv(&SimpleSparqlResults::Boolean(false)), vec!["result", "false"]);
}

#[test]
fn results_as_comments() {
    assert_eq!(
        display_results_as_turtle(&sample()),
        vec![
            "# SPARQL Solutions as Turtle-like format",
            "# name: Acme, Inc.",
            "# entity: http://e/1",
            "",
            "# role: CEO",
            "# name: Ada",
            "",
        ]
    );
    assert_eq!(display_results_as_turtle(&SimpleSparqlResults::Boolean(true)), vec!["# Boolean result: true"]);
}

#[test]
fn results_as_json() {
    assert_eq!(
        display_results_as_json(&sample()).unwrap(),
        "[\n  {\n    \"entity\": \"http://e/1\",\n    \"name\": \"Acme, Inc.\"\n  },\n  {\n    \"name\": \"Ada\",\n    \"role\": \"CEO\"\n  }\n]"
    );
    assert_eq!(
        display_results_as_json(&SimpleSparqlResults::Boolean(true)).unwrap(),
        "{\n  \"result\": true\n}"
    );
    assert_eq!(display_results_as_json(&SimpleSparqlResults::Solutions(vec![])).unwrap(), "[]");
}
